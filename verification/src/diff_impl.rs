//! Lessons as the timetable service reports them and as they were stored,
//! and the differences between a stored schedule and a fresh one.
use vstd::prelude::*;
use vstd::string::*;
use crate::calendar::{Date, Time};

verus! {

/// Status code of a lesson.
#[derive(Clone, Copy, Debug, PartialEq, Eq, Structural)]
pub enum LessonCode {
    Regular,
    Irregular,
    Cancelled,
}

impl LessonCode {
    /// The name under which a status code is written and stored.
    pub open spec fn text(self) -> Seq<char> {
        match self {
            LessonCode::Regular => "Regular"@,
            LessonCode::Irregular => "Irregular"@,
            LessonCode::Cancelled => "Cancelled"@,
        }
    }

    /// Position of a status code in the order `Regular`, `Irregular`, `Cancelled`.
    pub open spec fn rank(self) -> int {
        match self {
            LessonCode::Regular => 0,
            LessonCode::Irregular => 1,
            LessonCode::Cancelled => 2,
        }
    }

    pub fn as_str(&self) -> (r: &'static str)
        ensures
            r@ == self.text(),
    {
        match self {
            LessonCode::Regular => "Regular",
            LessonCode::Irregular => "Irregular",
            LessonCode::Cancelled => "Cancelled",
        }
    }

    pub fn order(&self) -> (r: u8)
        ensures
            r == self.rank(),
    {
        match self {
            LessonCode::Regular => 0,
            LessonCode::Irregular => 1,
            LessonCode::Cancelled => 2,
        }
    }
}

/// Kind of a timetable entry.
#[derive(Clone, Copy, Debug, PartialEq, Eq, Structural)]
pub enum LessonType {
    Lesson,
    OfficeHour,
    Standby,
    BreakSupervision,
    Exam,
}

impl LessonType {
    /// The name under which the timetable service writes a kind of entry.
    pub open spec fn text(self) -> Seq<char> {
        match self {
            LessonType::Lesson => "Unterricht"@,
            LessonType::OfficeHour => "oh"@,
            LessonType::Standby => "sb"@,
            LessonType::BreakSupervision => "bs"@,
            LessonType::Exam => "ex"@,
        }
    }

    pub fn as_str(&self) -> (r: &'static str)
        ensures
            r@ == self.text(),
    {
        match self {
            LessonType::Lesson => "Unterricht",
            LessonType::OfficeHour => "oh",
            LessonType::Standby => "sb",
            LessonType::BreakSupervision => "bs",
            LessonType::Exam => "ex",
        }
    }
}

/// The texts of a sequence of strings.
pub open spec fn texts(v: Seq<String>) -> Seq<Seq<char>> {
    v.map_values(|s: String| s@)
}

pub open spec fn opt_text(o: Option<String>) -> Option<Seq<char>> {
    match o {
        Some(s) => Some(s@),
        None => None,
    }
}

/// A copy of a list of strings.
pub fn clone_texts(v: &Vec<String>) -> (r: Vec<String>)
    ensures
        r@ == v@,
{
    let mut r: Vec<String> = Vec::new();
    let n = v.len();
    for i in 0..n
        invariant
            n == v.len(),
            r@ == v@.take(i as int),
    {
        r.push(v[i].clone());
        proof {
            assert(v@.take(i + 1) =~= v@.take(i as int).push(v@[i as int]));
        }
    }
    proof {
        assert(v@.take(n as int) =~= v@);
    }
    r
}

fn clone_opt_text(o: &Option<String>) -> (r: Option<String>)
    ensures
        r == *o,
{
    match o {
        Some(s) => Some(s.clone()),
        None => None,
    }
}

/// A lesson as the timetable service reports it.
#[derive(Debug)]
pub struct UntisLesson {
    pub id: usize,
    pub date: Date,
    pub start_time: Time,
    pub end_time: Time,
    pub code: LessonCode,
    pub lesson_type: LessonType,
    pub subst_text: Option<String>,
    pub subjects: Vec<String>,
    pub teachers: Vec<String>,
    pub rooms: Vec<String>,
    pub classes: Vec<String>,
    pub activity_type: String,
}

impl UntisLesson {
    /// Two lessons hold the same values, field by field.
    pub open spec fn same_as(self, other: UntisLesson) -> bool {
        &&& self.id == other.id
        &&& self.date == other.date
        &&& self.start_time == other.start_time
        &&& self.end_time == other.end_time
        &&& self.code == other.code
        &&& self.lesson_type == other.lesson_type
        &&& self.subst_text == other.subst_text
        &&& self.subjects@ == other.subjects@
        &&& self.teachers@ == other.teachers@
        &&& self.rooms@ == other.rooms@
        &&& self.classes@ == other.classes@
        &&& self.activity_type == other.activity_type
    }
}

impl Clone for UntisLesson {
    fn clone(&self) -> (r: Self)
        ensures
            r.same_as(*self),
    {
        let r = UntisLesson {
            id: self.id,
            date: self.date,
            start_time: self.start_time,
            end_time: self.end_time,
            code: self.code,
            lesson_type: self.lesson_type,
            subst_text: clone_opt_text(&self.subst_text),
            subjects: clone_texts(&self.subjects),
            teachers: clone_texts(&self.teachers),
            rooms: clone_texts(&self.rooms),
            classes: clone_texts(&self.classes),
            activity_type: self.activity_type.clone(),
        };
        r
    }
}

/// A lesson as it was stored from an earlier fetch.
#[derive(Debug)]
pub struct StoredLesson {
    pub lesson_id: i64,
    pub date: Date,
    pub start_time: Time,
    pub end_time: Time,
    pub lesson_type: Option<String>,
    pub subst_text: Option<String>,
    pub lesson_code: String,
    pub subjects: Vec<String>,
    pub teachers: Vec<String>,
    pub rooms: Vec<String>,
    pub classes: Vec<String>,
}

impl StoredLesson {
    /// Two lessons hold the same values, field by field.
    pub open spec fn same_as(self, other: StoredLesson) -> bool {
        &&& self.lesson_id == other.lesson_id
        &&& self.date == other.date
        &&& self.start_time == other.start_time
        &&& self.end_time == other.end_time
        &&& self.lesson_type == other.lesson_type
        &&& self.subst_text == other.subst_text
        &&& self.lesson_code == other.lesson_code
        &&& self.subjects@ == other.subjects@
        &&& self.teachers@ == other.teachers@
        &&& self.rooms@ == other.rooms@
        &&& self.classes@ == other.classes@
    }
}

/// `s` is how the fetched lesson `l` is stored: its id, date, times,
/// substitution text and name lists, its kind and status code by name.
pub open spec fn is_stored_form(s: StoredLesson, l: UntisLesson) -> bool {
    &&& s.lesson_id == l.id as i64
    &&& s.date == l.date
    &&& s.start_time == l.start_time
    &&& s.end_time == l.end_time
    &&& opt_text(s.lesson_type) == Some(l.lesson_type.text())
    &&& opt_text(s.subst_text) == opt_text(l.subst_text)
    &&& s.lesson_code@ == l.code.text()
    &&& texts(s.subjects@) == texts(l.subjects@)
    &&& texts(s.teachers@) == texts(l.teachers@)
    &&& texts(s.rooms@) == texts(l.rooms@)
    &&& texts(s.classes@) == texts(l.classes@)
}

impl StoredLesson {
    /// The stored form of a fetched lesson.
    pub fn from_fetched(l: &UntisLesson) -> (r: Self)
        ensures
            is_stored_form(r, *l),
    {
        StoredLesson {
            lesson_id: l.id as i64,
            date: l.date,
            start_time: l.start_time,
            end_time: l.end_time,
            lesson_type: Some(String::from_str(l.lesson_type.as_str())),
            subst_text: clone_opt_text(&l.subst_text),
            lesson_code: String::from_str(l.code.as_str()),
            subjects: clone_texts(&l.subjects),
            teachers: clone_texts(&l.teachers),
            rooms: clone_texts(&l.rooms),
            classes: clone_texts(&l.classes),
        }
    }
}

impl Clone for StoredLesson {
    fn clone(&self) -> (r: Self)
        ensures
            r.same_as(*self),
    {
        StoredLesson {
            lesson_id: self.lesson_id,
            date: self.date,
            start_time: self.start_time,
            end_time: self.end_time,
            lesson_type: clone_opt_text(&self.lesson_type),
            subst_text: clone_opt_text(&self.subst_text),
            lesson_code: self.lesson_code.clone(),
            subjects: clone_texts(&self.subjects),
            teachers: clone_texts(&self.teachers),
            rooms: clone_texts(&self.rooms),
            classes: clone_texts(&self.classes),
        }
    }
}

/// How often `x` occurs in `s`.
pub open spec fn occurrences(s: Seq<Seq<char>>, x: Seq<char>) -> nat
    decreases s.len(),
{
    if s.len() == 0 {
        0
    } else {
        occurrences(s.drop_last(), x) + if s.last() == x {
            1nat
        } else {
            0nat
        }
    }
}

/// Two lists hold the same texts, each as often, in any order.
pub open spec fn same_items(a: Seq<Seq<char>>, b: Seq<Seq<char>>) -> bool {
    forall|x: Seq<char>| #[trigger] occurrences(a, x) == occurrences(b, x)
}

/// A stored lesson and a fetched one describe the same lesson: same id,
/// date, times, status, kind and substitution text, and the same subjects,
/// teachers, rooms and classes in any order.
pub open spec fn lessons_match(prev: StoredLesson, new: UntisLesson) -> bool {
    &&& prev.lesson_id == new.id as i64
    &&& prev.date == new.date
    &&& prev.start_time == new.start_time
    &&& prev.end_time == new.end_time
    &&& prev.lesson_code@ == new.code.text()
    &&& opt_text(prev.lesson_type) == Some(new.lesson_type.text())
    &&& opt_text(prev.subst_text) == opt_text(new.subst_text)
    &&& same_items(texts(prev.subjects@), texts(new.subjects@))
    &&& same_items(texts(prev.teachers@), texts(new.teachers@))
    &&& same_items(texts(prev.rooms@), texts(new.rooms@))
    &&& same_items(texts(prev.classes@), texts(new.classes@))
}

/// Whether a stored lesson carries the id of a fetched lesson.
pub open spec fn id_matches(l: StoredLesson, id: usize) -> bool {
    l.lesson_id as usize == id
}

/// Index of the first stored lesson that carries the id.
pub open spec fn first_with_id(prev: Seq<StoredLesson>, id: usize) -> Option<int>
    decreases prev.len(),
{
    if prev.len() == 0 {
        None
    } else {
        match first_with_id(prev.drop_last(), id) {
            Some(i) => Some(i),
            None => if id_matches(prev.last(), id) {
                Some(prev.len() - 1)
            } else {
                None
            },
        }
    }
}

/// The model of a difference.
pub enum DiffModel {
    Added(UntisLesson),
    Changed(StoredLesson, UntisLesson),
}

/// Text that the derived `Debug` writes for a stored lesson.
pub uninterp spec fn stored_lesson_debug(l: StoredLesson) -> Seq<char>;

/// Text that the derived `Debug` writes for a fetched lesson.
pub uninterp spec fn untis_lesson_debug(l: UntisLesson) -> Seq<char>;

/// `format!("{:?}", ..)` of a stored lesson: the text of its derived `Debug`,
/// which depends on the lesson's fields alone.
#[verifier::external_body]
pub(crate) fn stored_debug_text(lesson: &StoredLesson) -> (r: String)
    ensures
        r@ == stored_lesson_debug(*lesson),
{
    format!("{:?}", lesson)
}

/// `format!("{:?}", ..)` of a fetched lesson: the text of its derived `Debug`,
/// which depends on the lesson's fields alone.
#[verifier::external_body]
pub(crate) fn untis_debug_text(lesson: &UntisLesson) -> (r: String)
    ensures
        r@ == untis_lesson_debug(*lesson),
{
    format!("{:?}", lesson)
}

/// The debug texts that describe a change: of the old and the new lesson, or
/// twice of the added one.
pub open spec fn diff_debug_texts(d: DiffModel) -> (Seq<char>, Seq<char>) {
    match d {
        DiffModel::Added(l) => (untis_lesson_debug(l), untis_lesson_debug(l)),
        DiffModel::Changed(from, to) => (stored_lesson_debug(from), untis_lesson_debug(to)),
    }
}

/// The difference that a fetched lesson makes to the stored schedule: none
/// when the first stored lesson with its id matches it, `Changed` when that
/// lesson differs, `Added` when no stored lesson has its id.
pub open spec fn diff_of(prev: Seq<StoredLesson>, new_lesson: UntisLesson) -> Option<DiffModel> {
    match first_with_id(prev, new_lesson.id) {
        Some(i) => if lessons_match(prev[i], new_lesson) {
            None
        } else {
            Some(DiffModel::Changed(prev[i], new_lesson))
        },
        None => Some(DiffModel::Added(new_lesson)),
    }
}

/// The differences of a fetched schedule, in the order of the fetched lessons.
pub open spec fn schedule_diffs(prev: Seq<StoredLesson>, new: Seq<UntisLesson>) -> Seq<DiffModel>
    decreases new.len(),
{
    if new.len() == 0 {
        Seq::empty()
    } else {
        schedule_diffs(prev, new.drop_last()) + match diff_of(prev, new.last()) {
            Some(d) => seq![d],
            None => Seq::empty(),
        }
    }
}

/// A change between the stored schedule and a fresh one.
#[derive(Clone, Copy)]
pub enum Diff<'a> {
    Added(&'a UntisLesson),
    Changed { from: &'a StoredLesson, to: &'a UntisLesson },
}

impl<'a> View for Diff<'a> {
    type V = DiffModel;

    open spec fn view(&self) -> DiffModel {
        match *self {
            Diff::Added(l) => DiffModel::Added(*l),
            Diff::Changed { from, to } => DiffModel::Changed(*from, *to),
        }
    }
}

/// How often `x` occurs in `v`.
fn count_occurrences(v: &Vec<String>, x: &String) -> (r: usize)
    ensures
        r == occurrences(texts(v@), x@),
{
    let mut r: usize = 0;
    let n = v.len();
    for i in 0..n
        invariant
            n == v.len(),
            r == occurrences(texts(v@).take(i as int), x@),
            r <= i,
    {
        proof {
            assert(texts(v@).take(i + 1).drop_last() =~= texts(v@).take(i as int));
        }
        if v[i] == *x {
            r = r + 1;
        }
    }
    proof {
        assert(texts(v@).take(n as int) =~= texts(v@));
    }
    r
}

proof fn lemma_occurs_at_index(s: Seq<Seq<char>>, x: Seq<char>)
    requires
        occurrences(s, x) > 0,
    ensures
        exists|i: int| 0 <= i < s.len() && s[i] == x,
    decreases s.len(),
{
    if s.last() != x {
        lemma_occurs_at_index(s.drop_last(), x);
        let i = choose|i: int| 0 <= i < s.drop_last().len() && s.drop_last()[i] == x;
        assert(s[i] == x);
    } else {
        assert(s[s.len() - 1] == x);
    }
}

/// Whether every text of `a` occurs in `a` and `b` equally often.
fn counts_agree_on(a: &Vec<String>, b: &Vec<String>) -> (r: bool)
    ensures
        r == (forall|i: int|
            0 <= i < a@.len() ==> occurrences(texts(a@), #[trigger] a@[i]@) == occurrences(
                texts(b@),
                a@[i]@,
            )),
{
    let n = a.len();
    for i in 0..n
        invariant
            n == a.len(),
            forall|j: int|
                0 <= j < i ==> occurrences(texts(a@), #[trigger] a@[j]@) == occurrences(
                    texts(b@),
                    a@[j]@,
                ),
    {
        if count_occurrences(a, &a[i]) != count_occurrences(b, &a[i]) {
            return false;
        }
    }
    true
}

/// Whether two lists hold the same texts, each as often, in any order.
pub fn sets_equal(a: &Vec<String>, b: &Vec<String>) -> (r: bool)
    ensures
        r == same_items(texts(a@), texts(b@)),
{
    let forward = counts_agree_on(a, b);
    let backward = counts_agree_on(b, a);
    let r = forward && backward;
    proof {
        if r {
            assert forall|x: Seq<char>| #[trigger]
                occurrences(texts(a@), x) == occurrences(texts(b@), x) by {
                if occurrences(texts(a@), x) > 0 {
                    lemma_occurs_at_index(texts(a@), x);
                    let i = choose|i: int| 0 <= i < texts(a@).len() && texts(a@)[i] == x;
                    assert(a@[i]@ == x);
                } else if occurrences(texts(b@), x) > 0 {
                    lemma_occurs_at_index(texts(b@), x);
                    let i = choose|i: int| 0 <= i < texts(b@).len() && texts(b@)[i] == x;
                    assert(b@[i]@ == x);
                }
            }
        } else {
            if forward {
                let i = choose|i: int|
                    0 <= i < b@.len() && !(occurrences(texts(b@), #[trigger] b@[i]@)
                        == occurrences(texts(a@), b@[i]@));
                assert(!(occurrences(texts(a@), b@[i]@) == occurrences(texts(b@), b@[i]@)));
            } else {
                let i = choose|i: int|
                    0 <= i < a@.len() && !(occurrences(texts(a@), #[trigger] a@[i]@)
                        == occurrences(texts(b@), a@[i]@));
                assert(!(occurrences(texts(a@), a@[i]@) == occurrences(texts(b@), a@[i]@)));
            }
        }
    }
    r
}

fn opt_text_eq(a: &Option<String>, b: &Option<String>) -> (r: bool)
    ensures
        r == (opt_text(*a) == opt_text(*b)),
{
    match (a, b) {
        (Some(x), Some(y)) => *x == *y,
        (None, None) => true,
        _ => false,
    }
}

fn opt_text_is(a: &Option<String>, text: &str) -> (r: bool)
    ensures
        r == (opt_text(*a) == Some(text@)),
{
    match a {
        Some(x) => *x == String::from_str(text),
        None => false,
    }
}

impl<'a> Diff<'a> {
    /// The differences between the stored schedule and a fresh one: for each
    /// fresh lesson in order, `Added` when no stored lesson has its id,
    /// `Changed` when the first stored lesson with its id does not match it.
    pub fn find(prev_schedule: &'a [StoredLesson], new_schedule: &'a [UntisLesson]) -> (r: Vec<
        Diff<'a>,
    >)
        ensures
            r@.map_values(|d: Diff<'a>| d@) == schedule_diffs(prev_schedule@, new_schedule@),
    {
        let mut diff: Vec<Diff<'a>> = Vec::new();
        let n = new_schedule.len();
        for j in 0..n
            invariant
                n == new_schedule@.len(),
                diff@.map_values(|d: Diff<'a>| d@) == schedule_diffs(
                    prev_schedule@,
                    new_schedule@.take(j as int),
                ),
        {
            let new_lesson = &new_schedule[j];
            let ghost before = diff@.map_values(|d: Diff<'a>| d@);
            proof {
                assert(new_schedule@.take(j + 1).drop_last() =~= new_schedule@.take(j as int));
            }
            match Self::find_by_id(prev_schedule, new_lesson.id) {
                Some(i) => {
                    let prev_lesson = &prev_schedule[i];
                    if !Self::lessons_equal(prev_lesson, new_lesson) {
                        diff.push(Diff::Changed { from: prev_lesson, to: new_lesson });
                        proof {
                            assert(diff@.map_values(|d: Diff<'a>| d@) =~= before.push(
                                DiffModel::Changed(*prev_lesson, *new_lesson),
                            ));
                        }
                    } else {
                        proof {
                            assert(before + Seq::<DiffModel>::empty() =~= before);
                        }
                    }
                },
                None => {
                    diff.push(Diff::Added(new_lesson));
                    proof {
                        assert(diff@.map_values(|d: Diff<'a>| d@) =~= before.push(
                            DiffModel::Added(*new_lesson),
                        ));
                    }
                },
            }
        }
        proof {
            assert(new_schedule@.take(n as int) =~= new_schedule@);
        }
        diff
    }

    /// Index of the first stored lesson that carries the id.
    fn find_by_id(prev: &[StoredLesson], id: usize) -> (r: Option<usize>)
        ensures
            r matches Some(i) ==> i < prev@.len() && first_with_id(prev@, id) == Some(i as int),
            r is None ==> first_with_id(prev@, id) is None,
    {
        let n = prev.len();
        for i in 0..n
            invariant
                n == prev@.len(),
                first_with_id(prev@.take(i as int), id) is None,
        {
            proof {
                assert(prev@.take(i + 1).drop_last() =~= prev@.take(i as int));
                lemma_first_with_id_prefix(prev@, id, i + 1);
            }
            if #[verifier::truncate] (prev[i].lesson_id as usize) == id {
                proof {
                    lemma_first_with_id_extend(prev@.take(i + 1), prev@.skip(i + 1), id);
                    assert(prev@.take(i + 1) + prev@.skip(i + 1) =~= prev@);
                }
                return Some(i);
            }
        }
        proof {
            assert(prev@.take(n as int) =~= prev@);
        }
        None
    }

    /// Whether a stored lesson and a fetched one describe the same lesson.
    fn lessons_equal(prev: &StoredLesson, new: &UntisLesson) -> (r: bool)
        ensures
            r == lessons_match(*prev, *new),
    {
        if prev.lesson_id != new.id as i64 || prev.date != new.date || prev.start_time
            != new.start_time || prev.end_time != new.end_time || !(prev.lesson_code
            == String::from_str(new.code.as_str())) || !opt_text_is(
            &prev.lesson_type,
            new.lesson_type.as_str(),
        ) || !opt_text_eq(&prev.subst_text, &new.subst_text) {
            return false;
        }
        sets_equal(&prev.subjects, &new.subjects) && sets_equal(&prev.teachers, &new.teachers)
            && sets_equal(&prev.rooms, &new.rooms) && sets_equal(&prev.classes, &new.classes)
    }

    /// The date of the lesson concerned: the stored one for a change.
    pub fn date(&self) -> (r: Date)
        ensures
            r == match self@ {
                DiffModel::Added(l) => l.date,
                DiffModel::Changed(from, _) => from.date,
            },
    {
        match self {
            Diff::Added(lesson) => lesson.date,
            Diff::Changed { from, .. } => from.date,
        }
    }

    /// The start of the lesson concerned: the stored one for a change.
    pub fn start_time(&self) -> (r: Time)
        ensures
            r == match self@ {
                DiffModel::Added(l) => l.start_time,
                DiffModel::Changed(from, _) => from.start_time,
            },
    {
        match self {
            Diff::Added(lesson) => lesson.start_time,
            Diff::Changed { from, .. } => from.start_time,
        }
    }

    /// The end of the lesson concerned: the stored one for a change.
    pub fn end_time(&self) -> (r: Time)
        ensures
            r == match self@ {
                DiffModel::Added(l) => l.end_time,
                DiffModel::Changed(from, _) => from.end_time,
            },
    {
        match self {
            Diff::Added(lesson) => lesson.end_time,
            Diff::Changed { from, .. } => from.end_time,
        }
    }

    /// The status code of the lesson concerned: the fetched one for a change.
    pub fn code(&self) -> (r: &LessonCode)
        ensures
            *r == match self@ {
                DiffModel::Added(l) => l.code,
                DiffModel::Changed(_, to) => to.code,
            },
    {
        match self {
            Diff::Added(lesson) => &lesson.code,
            Diff::Changed { to, .. } => &to.code,
        }
    }
}

proof fn lemma_first_with_id_extend(s: Seq<StoredLesson>, extra: Seq<StoredLesson>, id: usize)
    requires
        first_with_id(s, id) is Some,
    ensures
        first_with_id(s + extra, id) == first_with_id(s, id),
    decreases extra.len(),
{
    if extra.len() == 0 {
        assert(s + extra =~= s);
    } else {
        lemma_first_with_id_extend(s, extra.drop_last(), id);
        assert((s + extra).drop_last() =~= s + extra.drop_last());
    }
}

proof fn lemma_first_with_id_prefix(prev: Seq<StoredLesson>, id: usize, k: int)
    requires
        0 < k <= prev.len(),
        first_with_id(prev.take(k - 1), id) is None,
    ensures
        first_with_id(prev.take(k), id) == if id_matches(prev[k - 1], id) {
            Some(k - 1)
        } else {
            None::<int>
        },
{
    assert(prev.take(k).drop_last() =~= prev.take(k - 1));
}

proof fn lemma_occurrences_add(a: Seq<Seq<char>>, b: Seq<Seq<char>>, x: Seq<char>)
    ensures
        occurrences(a + b, x) == occurrences(a, x) + occurrences(b, x),
    decreases b.len(),
{
    if b.len() == 0 {
        assert(a + b =~= a);
    } else {
        lemma_occurrences_add(a, b.drop_last(), x);
        assert((a + b).drop_last() =~= a + b.drop_last());
    }
}

/// Comparing string lists ignores their order: a list holds the same items
/// as itself, and two lists joined in either order hold the same items.
pub proof fn same_items_ignores_order(a: Seq<Seq<char>>, b: Seq<Seq<char>>)
    ensures
        same_items(a, a),
        same_items(a + b, b + a),
        same_items(a, b) == same_items(b, a),
{
    assert forall|x: Seq<char>| #[trigger] occurrences(a + b, x) == occurrences(b + a, x) by {
        lemma_occurrences_add(a, b, x);
        lemma_occurrences_add(b, a, x);
    }
}

/// At most one change is reported per fetched lesson.
pub proof fn schedule_diffs_len(prev: Seq<StoredLesson>, new: Seq<UntisLesson>)
    ensures
        schedule_diffs(prev, new).len() <= new.len(),
    decreases new.len(),
{
    if new.len() > 0 {
        schedule_diffs_len(prev, new.drop_last());
    }
}

/// A fetched lesson whose id no stored lesson carries is reported as added.
pub proof fn unknown_lessons_are_reported_added(prev: Seq<StoredLesson>, new: Seq<UntisLesson>, j: int)
    requires
        0 <= j < new.len(),
        first_with_id(prev, new[j].id) is None,
    ensures
        schedule_diffs(prev, new).contains(DiffModel::Added(new[j])),
    decreases new.len(),
{
    if j == new.len() - 1 {
        let d = schedule_diffs(prev, new);
        let k = schedule_diffs(prev, new.drop_last()).len() as int;
        assert(d[k] == DiffModel::Added(new[j]));
    } else {
        unknown_lessons_are_reported_added(prev, new.drop_last(), j);
        let front = schedule_diffs(prev, new.drop_last());
        let i = choose|i: int| 0 <= i < front.len() && front[i] == DiffModel::Added(new[j]);
        assert(schedule_diffs(prev, new)[i] == front[i]);
    }
}

/// A fetched schedule whose every lesson matches the first stored lesson
/// with its id yields no change.
pub proof fn matching_schedule_has_no_diffs(prev: Seq<StoredLesson>, new: Seq<UntisLesson>)
    requires
        forall|j: int|
            0 <= j < new.len() ==> (first_with_id(prev, (#[trigger] new[j]).id) matches Some(i)
                && lessons_match(prev[i], new[j])),
    ensures
        schedule_diffs(prev, new) == Seq::<DiffModel>::empty(),
    decreases new.len(),
{
    if new.len() > 0 {
        assert forall|j: int| 0 <= j < new.drop_last().len() implies (first_with_id(
            prev,
            (#[trigger] new.drop_last()[j]).id,
        ) matches Some(i) && lessons_match(prev[i], new.drop_last()[j])) by {
            assert(new.drop_last()[j] == new[j]);
        }
        matching_schedule_has_no_diffs(prev, new.drop_last());
        let last = new[new.len() - 1];
        assert(diff_of(prev, last) is None);
        assert(Seq::<DiffModel>::empty() + Seq::<DiffModel>::empty() =~= Seq::<DiffModel>::empty());
    }
}

/// A fetched lesson matches its stored form.
pub proof fn lessons_match_their_stored_form(s: StoredLesson, l: UntisLesson)
    requires
        is_stored_form(s, l),
    ensures
        lessons_match(s, l),
{
    same_items_ignores_order(texts(l.subjects@), texts(l.subjects@));
    same_items_ignores_order(texts(l.teachers@), texts(l.teachers@));
    same_items_ignores_order(texts(l.rooms@), texts(l.rooms@));
    same_items_ignores_order(texts(l.classes@), texts(l.classes@));
}

proof fn lemma_first_with_id_of_stored_forms(prev: Seq<StoredLesson>, new: Seq<UntisLesson>, j: int)
    requires
        prev.len() == new.len(),
        0 <= j < new.len(),
        forall|i: int| 0 <= i < new.len() ==> is_stored_form(#[trigger] prev[i], new[i]),
        forall|i: int| 0 <= i < new.len() ==> #[trigger] new[i].id <= i64::MAX,
        forall|i: int, k: int| 0 <= i < k < new.len() ==> #[trigger] new[i].id != #[trigger] new[k].id,
    ensures
        first_with_id(prev, new[j].id) == Some(j),
    decreases prev.len(),
{
    if j < prev.len() - 1 {
        assert forall|i: int| 0 <= i < new.drop_last().len() implies is_stored_form(#[trigger] prev.drop_last()[i], new.drop_last()[i]) by {
            assert(prev.drop_last()[i] == prev[i]);
        }
        assert forall|i: int| 0 <= i < new.drop_last().len() implies #[trigger] new.drop_last()[i].id <= i64::MAX by {
            assert(new.drop_last()[i] == new[i]);
        }
        assert forall|i: int, k: int| 0 <= i < k < new.drop_last().len() implies #[trigger] new.drop_last()[i].id != #[trigger] new.drop_last()[k].id by {
            assert(new.drop_last()[i] == new[i] && new.drop_last()[k] == new[k]);
        }
        lemma_first_with_id_of_stored_forms(prev.drop_last(), new.drop_last(), j);
        assert(new.drop_last()[j] == new[j]);
    } else {
        assert forall|i: int| 0 <= i < prev.drop_last().len() implies !id_matches(#[trigger] prev.drop_last()[i], new[j].id) by {
            assert(prev.drop_last()[i] == prev[i]);
            assert(is_stored_form(prev[i], new[i]));
            assert(new[i].id != new[j].id);
        }
        lemma_no_id_match(prev.drop_last(), new[j].id);
        assert(is_stored_form(prev[j], new[j]));
    }
}

proof fn lemma_no_id_match(prev: Seq<StoredLesson>, id: usize)
    requires
        forall|i: int| 0 <= i < prev.len() ==> !id_matches(#[trigger] prev[i], id),
    ensures
        first_with_id(prev, id) is None,
    decreases prev.len(),
{
    if prev.len() > 0 {
        assert forall|i: int| 0 <= i < prev.drop_last().len() implies !id_matches(#[trigger] prev.drop_last()[i], id) by {
            assert(prev.drop_last()[i] == prev[i]);
        }
        lemma_no_id_match(prev.drop_last(), id);
        assert(!id_matches(prev[prev.len() - 1], id));
    }
}

/// Comparing a schedule with its own stored form finds no change, when the
/// lessons carry distinct ids that fit the stored id type.
pub proof fn unchanged_schedule_yields_no_diffs(prev: Seq<StoredLesson>, new: Seq<UntisLesson>)
    requires
        prev.len() == new.len(),
        forall|i: int| 0 <= i < new.len() ==> is_stored_form(#[trigger] prev[i], new[i]),
        forall|i: int| 0 <= i < new.len() ==> #[trigger] new[i].id <= i64::MAX,
        forall|i: int, k: int| 0 <= i < k < new.len() ==> #[trigger] new[i].id != #[trigger] new[k].id,
    ensures
        schedule_diffs(prev, new) == Seq::<DiffModel>::empty(),
{
    assert forall|j: int| 0 <= j < new.len() implies (first_with_id(prev, (#[trigger] new[j]).id) matches Some(i)
        && lessons_match(prev[i], new[j])) by {
        lemma_first_with_id_of_stored_forms(prev, new, j);
        lessons_match_their_stored_form(prev[j], new[j]);
    }
    matching_schedule_has_no_diffs(prev, new);
}

proof fn lemma_occurrences_count(s: Seq<Seq<char>>, x: Seq<char>)
    ensures
        occurrences(s, x) == s.to_multiset().count(x),
    decreases s.len(),
{
    broadcast use vstd::seq_lib::group_seq_properties;
    if s.len() > 0 {
        lemma_occurrences_count(s.drop_last(), x);
        assert(s =~= s.drop_last().push(s.last()));
    }
}

/// Whether two lists hold the same items depends only on which items each
/// holds how often, not on their order.
pub proof fn same_items_depends_only_on_contents(
    a: Seq<Seq<char>>,
    b: Seq<Seq<char>>,
    a2: Seq<Seq<char>>,
    b2: Seq<Seq<char>>,
)
    requires
        a2.to_multiset() == a.to_multiset(),
        b2.to_multiset() == b.to_multiset(),
    ensures
        same_items(a2, b2) == same_items(a, b),
{
    assert forall|x: Seq<char>| occurrences(a2, x) == occurrences(a, x) && occurrences(b2, x)
        == occurrences(b, x) by {
        lemma_occurrences_count(a, x);
        lemma_occurrences_count(a2, x);
        lemma_occurrences_count(b, x);
        lemma_occurrences_count(b2, x);
    }
    if same_items(a, b) {
        assert forall|x: Seq<char>| #[trigger] occurrences(a2, x) == occurrences(b2, x) by {
            assert(occurrences(a, x) == occurrences(b, x));
        }
    }
    if same_items(a2, b2) {
        assert forall|x: Seq<char>| #[trigger] occurrences(a, x) == occurrences(b, x) by {
            assert(occurrences(a2, x) == occurrences(b2, x));
        }
    }
}

/// The lesson comparison ignores the order of subjects, teachers, rooms and
/// classes: reordering any of these lists, in either lesson, leaves its result
/// unchanged.
pub proof fn lesson_comparison_ignores_list_order(
    prev: StoredLesson,
    new: UntisLesson,
    prev2: StoredLesson,
    new2: UntisLesson,
)
    requires
        prev2.lesson_id == prev.lesson_id,
        prev2.date == prev.date,
        prev2.start_time == prev.start_time,
        prev2.end_time == prev.end_time,
        prev2.lesson_code@ == prev.lesson_code@,
        opt_text(prev2.lesson_type) == opt_text(prev.lesson_type),
        opt_text(prev2.subst_text) == opt_text(prev.subst_text),
        texts(prev2.subjects@).to_multiset() == texts(prev.subjects@).to_multiset(),
        texts(prev2.teachers@).to_multiset() == texts(prev.teachers@).to_multiset(),
        texts(prev2.rooms@).to_multiset() == texts(prev.rooms@).to_multiset(),
        texts(prev2.classes@).to_multiset() == texts(prev.classes@).to_multiset(),
        new2.id == new.id,
        new2.date == new.date,
        new2.start_time == new.start_time,
        new2.end_time == new.end_time,
        new2.code == new.code,
        new2.lesson_type == new.lesson_type,
        opt_text(new2.subst_text) == opt_text(new.subst_text),
        texts(new2.subjects@).to_multiset() == texts(new.subjects@).to_multiset(),
        texts(new2.teachers@).to_multiset() == texts(new.teachers@).to_multiset(),
        texts(new2.rooms@).to_multiset() == texts(new.rooms@).to_multiset(),
        texts(new2.classes@).to_multiset() == texts(new.classes@).to_multiset(),
    ensures
        lessons_match(prev2, new2) == lessons_match(prev, new),
{
    same_items_depends_only_on_contents(texts(prev.subjects@), texts(new.subjects@), texts(prev2.subjects@), texts(new2.subjects@));
    same_items_depends_only_on_contents(texts(prev.teachers@), texts(new.teachers@), texts(prev2.teachers@), texts(new2.teachers@));
    same_items_depends_only_on_contents(texts(prev.rooms@), texts(new.rooms@), texts(prev2.rooms@), texts(new2.rooms@));
    same_items_depends_only_on_contents(texts(prev.classes@), texts(new.classes@), texts(prev2.classes@), texts(new2.classes@));
}

/// Two lists hold the same items, in any order, exactly when they are equal
/// as multisets.
pub proof fn same_items_means_same_multiset(a: Seq<Seq<char>>, b: Seq<Seq<char>>)
    ensures
        same_items(a, b) <==> a.to_multiset() == b.to_multiset(),
{
    assert forall|x: Seq<char>| occurrences(a, x) == a.to_multiset().count(x) && occurrences(b, x)
        == b.to_multiset().count(x) by {
        lemma_occurrences_count(a, x);
        lemma_occurrences_count(b, x);
    }
    if same_items(a, b) {
        assert(a.to_multiset() =~= b.to_multiset()) by {
            assert forall|x: Seq<char>| a.to_multiset().count(x) == b.to_multiset().count(x) by {
                assert(occurrences(a, x) == occurrences(b, x));
            }
        }
    }
    if a.to_multiset() == b.to_multiset() {
        assert forall|x: Seq<char>| #[trigger] occurrences(a, x) == occurrences(b, x) by {
            assert(a.to_multiset().count(x) == b.to_multiset().count(x));
        }
    }
}

/// A stored lesson and a fetched one match exactly when they carry the same
/// id, lie on the same date at the same start and end times, and have the
/// same status code, kind and substitution text, and the same subjects,
/// teachers, rooms and classes counted with repetition, in any order.
pub proof fn lessons_match_when_they_agree_on_every_field(prev: StoredLesson, new: UntisLesson)
    ensures
        lessons_match(prev, new) <==> {
            &&& prev.lesson_id == new.id as i64
            &&& prev.date == new.date
            &&& prev.start_time == new.start_time
            &&& prev.end_time == new.end_time
            &&& prev.lesson_code@ == new.code.text()
            &&& opt_text(prev.lesson_type) == Some(new.lesson_type.text())
            &&& opt_text(prev.subst_text) == opt_text(new.subst_text)
            &&& texts(prev.subjects@).to_multiset() == texts(new.subjects@).to_multiset()
            &&& texts(prev.teachers@).to_multiset() == texts(new.teachers@).to_multiset()
            &&& texts(prev.rooms@).to_multiset() == texts(new.rooms@).to_multiset()
            &&& texts(prev.classes@).to_multiset() == texts(new.classes@).to_multiset()
        },
{
    same_items_means_same_multiset(texts(prev.subjects@), texts(new.subjects@));
    same_items_means_same_multiset(texts(prev.teachers@), texts(new.teachers@));
    same_items_means_same_multiset(texts(prev.rooms@), texts(new.rooms@));
    same_items_means_same_multiset(texts(prev.classes@), texts(new.classes@));
}

/// A fetched lesson whose first stored lesson with its id lies on another
/// date, starts or ends at another time, has another status code or another
/// substitution text is reported as changed from that stored lesson.
pub proof fn differing_lessons_are_reported_changed(
    prev: Seq<StoredLesson>,
    new: Seq<UntisLesson>,
    j: int,
    i: int,
)
    requires
        0 <= j < new.len(),
        first_with_id(prev, new[j].id) == Some(i),
        prev[i].date != new[j].date || prev[i].start_time != new[j].start_time
            || prev[i].end_time != new[j].end_time || prev[i].lesson_code@ != new[j].code.text()
            || opt_text(prev[i].subst_text) != opt_text(new[j].subst_text),
    ensures
        schedule_diffs(prev, new).contains(DiffModel::Changed(prev[i], new[j])),
    decreases new.len(),
{
    if j == new.len() - 1 {
        let d = schedule_diffs(prev, new);
        let k = schedule_diffs(prev, new.drop_last()).len() as int;
        assert(!lessons_match(prev[i], new[j]));
        assert(diff_of(prev, new.last()) == Some(DiffModel::Changed(prev[i], new[j])));
        assert(d[k] == DiffModel::Changed(prev[i], new[j]));
    } else {
        assert(new.drop_last()[j] == new[j]);
        differing_lessons_are_reported_changed(prev, new.drop_last(), j, i);
        let front = schedule_diffs(prev, new.drop_last());
        let k = choose|k: int| 0 <= k < front.len() && front[k] == DiffModel::Changed(prev[i], new[j]);
        assert(schedule_diffs(prev, new)[k] == front[k]);
    }
}

/// The stored lesson that a fetched one is compared with is the first one
/// that carries its id; when none is found, no stored lesson carries it.
pub proof fn compared_lesson_is_the_first_with_the_id(prev: Seq<StoredLesson>, id: usize)
    ensures
        first_with_id(prev, id) matches Some(i) ==> 0 <= i < prev.len() && id_matches(prev[i], id)
            && forall|k: int| 0 <= k < i ==> !id_matches(#[trigger] prev[k], id),
        first_with_id(prev, id) is None ==> forall|k: int| 0 <= k < prev.len() ==> !id_matches(#[trigger] prev[k], id),
    decreases prev.len(),
{
    if prev.len() > 0 {
        compared_lesson_is_the_first_with_the_id(prev.drop_last(), id);
        assert forall|k: int| 0 <= k < prev.len() - 1 implies prev.drop_last()[k] == prev[k] by {}
    }
}

/// `d` is the difference that fetched lesson `n` makes: an addition when no
/// stored lesson carries its id, a change from the first stored lesson with
/// its id when the two do not match.
pub open spec fn is_diff_of(prev: Seq<StoredLesson>, n: UntisLesson, d: DiffModel) -> bool {
    match d {
        DiffModel::Added(l) => l == n && first_with_id(prev, n.id) is None,
        DiffModel::Changed(p, l) => l == n && (first_with_id(prev, n.id) matches Some(i) && p == prev[i]
            && !lessons_match(p, l)),
    }
}

/// Every reported difference is the difference of some fetched lesson.
pub proof fn every_reported_diff_is_justified(prev: Seq<StoredLesson>, new: Seq<UntisLesson>, k: int)
    requires
        0 <= k < schedule_diffs(prev, new).len(),
    ensures
        exists|j: int| 0 <= j < new.len() && is_diff_of(prev, #[trigger] new[j], schedule_diffs(prev, new)[k]),
    decreases new.len(),
{
    let d = schedule_diffs(prev, new);
    let front = schedule_diffs(prev, new.drop_last());
    if k < front.len() {
        every_reported_diff_is_justified(prev, new.drop_last(), k);
        let j = choose|j: int| 0 <= j < new.drop_last().len() && is_diff_of(prev, #[trigger] new.drop_last()[j], front[k]);
        assert(new.drop_last()[j] == new[j]);
        assert(d[k] == front[k]);
    } else {
        let j = new.len() - 1;
        assert(new.last() == new[j]);
        assert(d[k] == diff_of(prev, new[j])->0);
        assert(is_diff_of(prev, new[j], d[k]));
    }
}

} // verus!
