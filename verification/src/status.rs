//! The status message: the current or next lesson, open homework, uptime.
use vstd::prelude::*;
use vstd::string::*;
use crate::calendar::{formatted_date, hm_text, Date, Time};
use crate::diff_impl::{texts, UntisLesson};
use crate::markdown::{md_bold, md_code_inline, md_escape, md_link};
use crate::message::{raw_text, LabeledMessage, LabeledText};
use crate::sorting::{sorted_by_key, stable_sort, with_key, Keyed, SortKey};
use crate::text::{decimal, join, joined, u64_text};

verus! {

pub const REPOSITORY_URL: &'static str = "https://github.com/CleverWild/untis_telegram_bot";

/// A homework entry.
#[derive(Debug, Clone)]
pub struct Homework {
    pub lesson_subject: String,
    pub teacher_name: String,
    pub date: Date,
    pub due_date: Date,
    pub text: String,
    pub is_completed: bool,
}

impl Keyed for Homework {
    open spec fn sort_key(&self) -> SortKey {
        SortKey(self.due_date.days() as i64, self.date.days() as i64, 0, 0)
    }

    fn key(&self) -> (k: SortKey) {
        SortKey(self.due_date.days_from_ce() as i64, self.date.days_from_ce() as i64, 0, 0)
    }
}

/// The homework that is not completed, in its order.
pub open spec fn pending(s: Seq<Homework>) -> Seq<Homework> {
    s.filter(|h: Homework| !h.is_completed)
}

/// The lesson under way, or else the next one.
#[derive(Debug, Clone)]
pub enum NearestLesson {
    Current(UntisLesson),
    Next(UntisLesson),
}

/// The lesson takes place today and has begun but not ended at `now`.
pub open spec fn is_ongoing(l: UntisLesson, today: Date, now: Time) -> bool {
    l.date == today && l.start_time.secs() <= now.secs() && now.secs() < l.end_time.secs()
}

/// The lesson begins after `now`: on a later day, or later today.
pub open spec fn is_upcoming(l: UntisLesson, today: Date, now: Time) -> bool {
    l.date.days() > today.days() || (l.date == today && l.start_time.secs() > now.secs())
}

/// `a` begins strictly before `b`.
pub open spec fn starts_before(a: UntisLesson, b: UntisLesson) -> bool {
    a.date.days() < b.date.days() || (a.date.days() == b.date.days() && a.start_time.secs()
        < b.start_time.secs())
}

/// Index of the first ongoing lesson.
pub open spec fn first_ongoing(s: Seq<UntisLesson>, today: Date, now: Time) -> Option<int>
    decreases s.len(),
{
    if s.len() == 0 {
        None
    } else {
        match first_ongoing(s.drop_last(), today, now) {
            Some(i) => Some(i),
            None => if is_ongoing(s.last(), today, now) {
                Some(s.len() - 1)
            } else {
                None
            },
        }
    }
}

/// Lesson `i` is the next one: it is upcoming, no upcoming lesson begins
/// before it, and it comes first among those that begin with it.
pub open spec fn is_next_index(s: Seq<UntisLesson>, i: int, today: Date, now: Time) -> bool {
    &&& 0 <= i < s.len()
    &&& is_upcoming(s[i], today, now)
    &&& forall|j: int|
        0 <= j < s.len() && is_upcoming(#[trigger] s[j], today, now) ==> !starts_before(s[j], s[i])
            && (j < i ==> starts_before(s[i], s[j]))
}

proof fn lemma_first_ongoing_extend(s: Seq<UntisLesson>, extra: Seq<UntisLesson>, today: Date, now: Time)
    requires
        first_ongoing(s, today, now) is Some,
    ensures
        first_ongoing(s + extra, today, now) == first_ongoing(s, today, now),
    decreases extra.len(),
{
    if extra.len() == 0 {
        assert(s + extra =~= s);
    } else {
        lemma_first_ongoing_extend(s, extra.drop_last(), today, now);
        assert((s + extra).drop_last() =~= s + extra.drop_last());
    }
}

fn is_ongoing_exec(l: &UntisLesson, today: Date, now: Time) -> (r: bool)
    ensures
        r == is_ongoing(*l, today, now),
{
    l.date == today && l.start_time.seconds_from_midnight() <= now.seconds_from_midnight()
        && now.seconds_from_midnight() < l.end_time.seconds_from_midnight()
}

fn is_upcoming_exec(l: &UntisLesson, today: Date, now: Time) -> (r: bool)
    ensures
        r == is_upcoming(*l, today, now),
{
    l.date.days_from_ce() > today.days_from_ce() || (l.date == today
        && l.start_time.seconds_from_midnight() > now.seconds_from_midnight())
}

fn starts_before_exec(a: &UntisLesson, b: &UntisLesson) -> (r: bool)
    ensures
        r == starts_before(*a, *b),
{
    a.date.days_from_ce() < b.date.days_from_ce() || (a.date.days_from_ce() == b.date.days_from_ce()
        && a.start_time.seconds_from_midnight() < b.start_time.seconds_from_midnight())
}

/// The lesson under way (the first one in the timetable), or else the next
/// lesson to begin (the first of those that begin earliest); `None` when
/// neither exists.
pub fn find_nearest_lesson(timetable: &[UntisLesson], today: Date, current_time: Time) -> (r: Option<NearestLesson>)
    ensures
        first_ongoing(timetable@, today, current_time) matches Some(i) ==> (r matches Some(NearestLesson::Current(l)) && l.same_as(timetable@[i])),
        first_ongoing(timetable@, today, current_time) is None ==> match r {
            Some(NearestLesson::Next(l)) => exists|i: int| is_next_index(timetable@, i, today, current_time) && l.same_as(#[trigger] timetable@[i]),
            Some(NearestLesson::Current(_)) => false,
            None => forall|i: int| 0 <= i < timetable@.len() ==> !is_upcoming(#[trigger] timetable@[i], today, current_time),
        },
{
    let n = timetable.len();
    for i in 0..n
        invariant
            n == timetable@.len(),
            first_ongoing(timetable@.take(i as int), today, current_time) is None,
    {
        proof {
            assert(timetable@.take(i + 1).drop_last() =~= timetable@.take(i as int));
        }
        if is_ongoing_exec(&timetable[i], today, current_time) {
            proof {
                lemma_first_ongoing_extend(timetable@.take(i + 1), timetable@.skip(i + 1), today, current_time);
                assert(timetable@.take(i + 1) + timetable@.skip(i + 1) =~= timetable@);
            }
            return Some(NearestLesson::Current(timetable[i].clone()));
        }
    }
    proof {
        assert(timetable@.take(n as int) =~= timetable@);
    }
    let mut best: Option<usize> = None;
    for i in 0..n
        invariant
            n == timetable@.len(),
            best matches Some(b) ==> b < i && is_next_index(timetable@.take(i as int), b as int, today, current_time),
            best is None ==> forall|j: int| 0 <= j < i ==> !is_upcoming(#[trigger] timetable@[j], today, current_time),
    {
        let ghost t1 = timetable@.take(i + 1);
        if is_upcoming_exec(&timetable[i], today, current_time) {
            match best {
                None => {
                    best = Some(i);
                    proof {
                        assert forall|j: int| 0 <= j < t1.len() && is_upcoming(#[trigger] t1[j], today, current_time)
                            implies !starts_before(t1[j], t1[i as int]) && (j < i ==> starts_before(t1[i as int], t1[j])) by {
                            assert(t1[j] == timetable@[j]);
                        }
                    }
                },
                Some(b) => {
                    if starts_before_exec(&timetable[i], &timetable[b]) {
                        best = Some(i);
                        proof {
                            let t0 = timetable@.take(i as int);
                            assert forall|j: int| 0 <= j < t1.len() && is_upcoming(#[trigger] t1[j], today, current_time)
                                implies !starts_before(t1[j], t1[i as int]) && (j < i ==> starts_before(t1[i as int], t1[j])) by {
                                if j < i {
                                    assert(t1[j] == t0[j]);
                                    assert(is_upcoming(t0[j], today, current_time));
                                    assert(!starts_before(t0[j], t0[b as int]));
                                }
                            }
                        }
                    } else {
                        proof {
                            let t0 = timetable@.take(i as int);
                            assert forall|j: int| 0 <= j < t1.len() && is_upcoming(#[trigger] t1[j], today, current_time)
                                implies !starts_before(t1[j], t1[b as int]) && (j < b ==> starts_before(t1[b as int], t1[j])) by {
                                if j < i {
                                    assert(t1[j] == t0[j]);
                                    assert(is_upcoming(t0[j], today, current_time));
                                }
                            }
                        }
                    }
                },
            }
        } else {
            proof {
                if best is Some {
                    let b = best->0 as int;
                    let t0 = timetable@.take(i as int);
                    assert forall|j: int| 0 <= j < t1.len() && is_upcoming(#[trigger] t1[j], today, current_time)
                        implies !starts_before(t1[j], t1[b]) && (j < b ==> starts_before(t1[b], t1[j])) by {
                        if j < i {
                            assert(t1[j] == t0[j]);
                            assert(is_upcoming(t0[j], today, current_time));
                        }
                    }
                }
            }
        }
    }
    proof {
        assert(timetable@.take(n as int) =~= timetable@);
    }
    match best {
        Some(b) => Some(NearestLesson::Next(timetable[b].clone())),
        None => None,
    }
}

/// `one` for exactly one, `many` otherwise.
pub open spec fn plural_text(n: int, one: Seq<char>, many: Seq<char>) -> Seq<char> {
    if n == 1 {
        one
    } else {
        many
    }
}

fn plural(n: u64, one: &str, many: &str) -> (r: String)
    ensures
        r@ == plural_text(n as int, one@, many@),
{
    if n == 1 {
        String::from_str(one)
    } else {
        String::from_str(many)
    }
}

/// Whole days of an elapsed time.
pub open spec fn uptime_days(secs: nat) -> nat {
    (secs / 60) / 1440
}

/// Whole hours of an elapsed time beyond its whole days.
pub open spec fn uptime_hours(secs: nat) -> nat {
    ((secs / 60) % 1440) / 60
}

/// Whole minutes of an elapsed time beyond its whole hours.
pub open spec fn uptime_minutes(secs: nat) -> nat {
    (secs / 60) % 60
}

/// An elapsed time as `D day(s), H hour(s), M minute(s)`.
pub open spec fn uptime_text(secs: nat) -> Seq<char> {
    decimal(uptime_days(secs)) + " "@ + plural_text(uptime_days(secs) as int, "day"@, "days"@) + ", "@
        + decimal(uptime_hours(secs)) + " "@ + plural_text(uptime_hours(secs) as int, "hour"@, "hours"@)
        + ", "@ + decimal(uptime_minutes(secs)) + " "@ + plural_text(uptime_minutes(secs) as int, "minute"@, "minutes"@)
}

/// An elapsed time, given in seconds, as days, hours and minutes.
pub fn into_uptime(elapsed_secs: u64) -> (r: String)
    ensures
        r@ == uptime_text(elapsed_secs as nat),
{
    let total_minutes = elapsed_secs / 60;
    let days = total_minutes / (24 * 60);
    let hours = (total_minutes % (24 * 60)) / 60;
    let minutes = total_minutes % 60;
    let mut r = u64_text(days);
    r.append(" ");
    let w = plural(days, "day", "days");
    r.append(w.as_str());
    r.append(", ");
    let h = u64_text(hours);
    r.append(h.as_str());
    r.append(" ");
    let w = plural(hours, "hour", "hours");
    r.append(w.as_str());
    r.append(", ");
    let m = u64_text(minutes);
    r.append(m.as_str());
    r.append(" ");
    let w = plural(minutes, "minute", "minutes");
    r.append(w.as_str());
    r
}

/// The days, hours and minutes of an uptime make up its whole minutes, with
/// fewer than 24 hours and fewer than 60 minutes.
pub proof fn uptime_parts_recompose(secs: nat)
    ensures
        uptime_days(secs) * 1440 + uptime_hours(secs) * 60 + uptime_minutes(secs) == secs / 60,
        uptime_hours(secs) < 24,
        uptime_minutes(secs) < 60,
{
    let t = secs / 60;
    assert(t == (t / 1440) * 1440 + t % 1440) by (nonlinear_arith);
    assert(t % 1440 == ((t % 1440) / 60) * 60 + (t % 1440) % 60) by (nonlinear_arith);
    assert((t % 1440) % 60 == t % 60) by (nonlinear_arith);
    assert((t % 1440) / 60 < 24) by (nonlinear_arith);
}

/// How a lesson is described: subjects, teachers and rooms when there are
/// any, the time, and the date when the lesson is not today.
pub open spec fn lesson_pieces(l: UntisLesson, today: Date) -> Seq<LabeledText> {
    seq![
        LabeledText::Normal(md_escape("  Subject: "@)),
        LabeledText::Normal(md_code_inline(joined(texts(l.subjects@), ", "@))),
    ] + (if l.teachers@.len() > 0 {
        seq![
            LabeledText::Normal(md_escape(", Teacher: "@)),
            LabeledText::Normal(md_code_inline(joined(texts(l.teachers@), ", "@))),
        ]
    } else {
        Seq::empty()
    }) + (if l.rooms@.len() > 0 {
        seq![
            LabeledText::Normal(md_escape(", Room: "@)),
            LabeledText::Normal(md_code_inline(joined(texts(l.rooms@), ", "@))),
        ]
    } else {
        Seq::empty()
    }) + seq![
        LabeledText::Normal("\n"@),
        LabeledText::Normal(md_escape("  Time: "@)),
        LabeledText::Normal(md_code_inline(hm_text(l.start_time.secs()) + " - "@ + hm_text(l.end_time.secs()))),
    ] + (if l.date != today {
        seq![
            LabeledText::Normal(md_escape("   "@)),
            LabeledText::Normal(md_code_inline(formatted_date(l.date.days(), "%a %d/%m/%y"@))),
        ]
    } else {
        Seq::empty()
    }) + seq![LabeledText::Normal("\n"@)]
}

/// Appends the description of a lesson.
fn format_lesson(msg: &mut LabeledMessage, lesson: &UntisLesson, today: Date)
    ensures
        final(msg)@ == old(msg)@ + lesson_pieces(*lesson, today),
{
    let ghost start = msg@;
    let subjects = join(&lesson.subjects, ", ");
    msg.push("  Subject: ").push_code_inline(subjects.as_str());
    let ghost after_subjects = msg@;
    if lesson.teachers.len() > 0 {
        let teachers = join(&lesson.teachers, ", ");
        msg.push(", Teacher: ").push_code_inline(teachers.as_str());
    }
    let ghost after_teachers = msg@;
    if lesson.rooms.len() > 0 {
        let rooms = join(&lesson.rooms, ", ");
        msg.push(", Room: ").push_code_inline(rooms.as_str());
    }
    let ghost after_rooms = msg@;
    msg.nl();
    let mut time = lesson.start_time.to_hm_string();
    time.append(" - ");
    let end = lesson.end_time.to_hm_string();
    time.append(end.as_str());
    msg.push("  Time: ").push_code_inline(time.as_str());
    let ghost after_time = msg@;
    if lesson.date != today {
        let date = lesson.date.format("%a %d/%m/%y");
        msg.push("   ").push_code_inline(date.as_str());
    }
    let ghost after_date = msg@;
    msg.nl();
    proof {
        let l = *lesson;
        let p1 = seq![
            LabeledText::Normal(md_escape("  Subject: "@)),
            LabeledText::Normal(md_code_inline(joined(texts(l.subjects@), ", "@))),
        ];
        let p2 = if l.teachers@.len() > 0 {
            seq![
                LabeledText::Normal(md_escape(", Teacher: "@)),
                LabeledText::Normal(md_code_inline(joined(texts(l.teachers@), ", "@))),
            ]
        } else {
            Seq::<LabeledText>::empty()
        };
        let p3 = if l.rooms@.len() > 0 {
            seq![
                LabeledText::Normal(md_escape(", Room: "@)),
                LabeledText::Normal(md_code_inline(joined(texts(l.rooms@), ", "@))),
            ]
        } else {
            Seq::<LabeledText>::empty()
        };
        let p4 = seq![
            LabeledText::Normal("\n"@),
            LabeledText::Normal(md_escape("  Time: "@)),
            LabeledText::Normal(md_code_inline(hm_text(l.start_time.secs()) + " - "@ + hm_text(l.end_time.secs()))),
        ];
        let p5 = if l.date != today {
            seq![
                LabeledText::Normal(md_escape("   "@)),
                LabeledText::Normal(md_code_inline(formatted_date(l.date.days(), "%a %d/%m/%y"@))),
            ]
        } else {
            Seq::<LabeledText>::empty()
        };
        assert(after_subjects =~= start + p1);
        assert(after_teachers =~= after_subjects + p2);
        assert(after_rooms =~= after_teachers + p3);
        assert(after_time =~= after_rooms + p4);
        assert(after_date =~= after_time + p5);
        assert(msg@ =~= start + (p1 + p2 + p3 + p4 + p5 + seq![LabeledText::Normal("\n"@)]));
    }
}

/// How the lesson under way or the next lesson is introduced and described.
pub open spec fn nearest_pieces(n: Option<NearestLesson>, today: Date) -> Seq<LabeledText> {
    match n {
        None => Seq::empty(),
        Some(NearestLesson::Current(l)) => seq![
            LabeledText::Normal(md_bold(md_escape("Current Lesson:"@))),
            LabeledText::Normal("\n"@),
        ] + lesson_pieces(l, today) + seq![LabeledText::Normal("\n"@)],
        Some(NearestLesson::Next(l)) => seq![
            LabeledText::Normal(md_bold(md_escape("Next Lesson:"@))),
            LabeledText::Normal("\n"@),
        ] + lesson_pieces(l, today) + seq![LabeledText::Normal("\n"@)],
    }
}

/// How one homework entry is described: lesson and teacher, creation date,
/// deadline and task, followed by an empty line.
pub open spec fn homework_pieces(h: Homework) -> Seq<LabeledText> {
    seq![
        LabeledText::Normal(md_escape("• Lesson: "@)),
        LabeledText::Normal(md_code_inline(h.lesson_subject@)),
        LabeledText::Normal(md_escape(", Teacher: "@)),
        LabeledText::Normal(md_code_inline(h.teacher_name@)),
        LabeledText::Normal("\n"@),
        LabeledText::Normal(md_escape("  Created at:  "@)),
        LabeledText::Normal(md_code_inline(formatted_date(h.date.days(), "%a %d/%m/%y"@))),
        LabeledText::Normal("\n"@),
        LabeledText::Normal(md_escape("  Deadline:     "@)),
        LabeledText::Normal(md_code_inline(formatted_date(h.due_date.days(), "%a %d/%m/%y"@))),
        LabeledText::Normal("\n"@),
        LabeledText::Normal(md_escape("  Task:  "@)),
        LabeledText::Normal(md_code_inline(h.text@)),
        LabeledText::Normal("\n"@),
        LabeledText::Normal("\n"@),
    ]
}

/// The descriptions of the homework entries, in order.
pub open spec fn homeworks_pieces(s: Seq<Homework>) -> Seq<LabeledText>
    decreases s.len(),
{
    if s.len() == 0 {
        Seq::empty()
    } else {
        homeworks_pieces(s.drop_last()) + homework_pieces(s.last())
    }
}

/// The link at the foot of the status message, hidden as a spoiler.
pub open spec fn footer_text() -> Seq<char> {
    "||"@ + (md_link(REPOSITORY_URL@, md_escape("(He keeps me in this basement full of care)"@))
        + "\n"@) + "||"@
}

/// The status message: the lesson under way or the next one, the homework
/// list (or a note that it is empty), uptime, time of refresh, and the footer.
pub open spec fn status_pieces(
    homeworks: Seq<Homework>,
    nearest: Option<NearestLesson>,
    today: Date,
    uptime_secs: nat,
    refreshed_at: Seq<char>,
) -> Seq<LabeledText> {
    nearest_pieces(nearest, today) + seq![
        LabeledText::Normal(md_bold(md_escape("Homework list:"@))),
        LabeledText::Normal("\n"@),
    ] + (if homeworks.len() == 0 {
        seq![LabeledText::Normal(md_code_inline("Empty :)"@)), LabeledText::Normal("\n"@)]
    } else {
        homeworks_pieces(homeworks)
    }) + seq![
        LabeledText::Normal(md_escape("Uptime:  "@)),
        LabeledText::Normal(md_code_inline(uptime_text(uptime_secs))),
        LabeledText::Normal("\n"@),
        LabeledText::Normal(md_escape("Last refresh:  "@)),
        LabeledText::Normal(md_code_inline(refreshed_at)),
        LabeledText::Normal("\n"@),
        LabeledText::Normal(footer_text()),
    ]
}

/// The homework that is not completed, in its order.
fn keep_pending(homeworks: Vec<Homework>) -> (r: Vec<Homework>)
    ensures
        r@ == pending(homeworks@),
{
    let ghost orig = homeworks@;
    let mut rest = homeworks;
    let mut kept: Vec<Homework> = Vec::new();
    let ghost pred = |h: Homework| !h.is_completed;
    while rest.len() > 0
        invariant
            rest@.len() <= orig.len(),
            rest@ == orig.skip(orig.len() - rest@.len()),
            kept@ == orig.take(orig.len() - rest@.len()).filter(pred),
            pred == (|h: Homework| !h.is_completed),
        decreases rest.len(),
    {
        let ghost i = orig.len() - rest@.len();
        let h = rest.remove(0);
        proof {
            assert(h == orig[i]);
            assert(rest@ =~= orig.skip(i + 1));
            assert(orig.take(i + 1) =~= orig.take(i).push(h));
            orig.take(i).lemma_filter_push(h, pred);
        }
        if !h.is_completed {
            kept.push(h);
        }
    }
    proof {
        assert(orig.take(orig.len() as int) =~= orig);
    }
    kept
}

/// What the status message shows.
#[derive(Debug, Clone)]
pub struct StatusMessage {
    homeworks: Vec<Homework>,
    current_or_next_lesson: Option<NearestLesson>,
    today: Date,
    uptime_secs: u64,
}

impl StatusMessage {
    pub closed spec fn homework_list(&self) -> Seq<Homework> {
        self.homeworks@
    }

    pub closed spec fn nearest(&self) -> Option<NearestLesson> {
        self.current_or_next_lesson
    }

    pub closed spec fn today(&self) -> Date {
        self.today
    }

    pub closed spec fn uptime(&self) -> nat {
        self.uptime_secs as nat
    }

    /// The status as of `today` at `current_time`, after `uptime_secs` of
    /// running: open homework ordered by deadline, then by creation date
    /// (entries that agree on both keep their order), and the lesson under way
    /// or the next one.
    pub fn new(
        homeworks: Vec<Homework>,
        timetable: &[UntisLesson],
        today: Date,
        current_time: Time,
        uptime_secs: u64,
    ) -> (r: Self)
        ensures
            sorted_by_key(r.homework_list()),
            forall|k: SortKey| #[trigger] with_key(r.homework_list(), k) == with_key(pending(homeworks@), k),
            first_ongoing(timetable@, today, current_time) matches Some(i) ==> (r.nearest() matches Some(NearestLesson::Current(l)) && l.same_as(timetable@[i])),
            first_ongoing(timetable@, today, current_time) is None ==> match r.nearest() {
                Some(NearestLesson::Next(l)) => exists|i: int| is_next_index(timetable@, i, today, current_time) && l.same_as(#[trigger] timetable@[i]),
                Some(NearestLesson::Current(_)) => false,
                None => forall|i: int| 0 <= i < timetable@.len() ==> !is_upcoming(#[trigger] timetable@[i], today, current_time),
            },
            r.today() == today,
            r.uptime() == uptime_secs,
    {
        let sorted_hw = stable_sort(keep_pending(homeworks));
        let current_or_next_lesson = find_nearest_lesson(timetable, today, current_time);
        Self { homeworks: sorted_hw, current_or_next_lesson, today, uptime_secs }
    }

    /// The status message; `refreshed_at` is the time of this refresh, as text.
    pub fn into_message(self, refreshed_at: &str) -> (r: LabeledMessage)
        ensures
            r@ == status_pieces(self.homework_list(), self.nearest(), self.today(), self.uptime(), refreshed_at@),
    {
        let mut msg = LabeledMessage::new();
        write_nearest(&mut msg, &self.current_or_next_lesson, self.today);
        let ghost after_nearest = msg@;
        msg.push_bold("Homework list:").nl();
        let ghost after_heading = msg@;
        write_homework_list(&mut msg, &self.homeworks);
        let ghost after_list = msg@;
        let uptime = into_uptime(self.uptime_secs);
        msg.push("Uptime:  ").push_code_inline(uptime.as_str()).nl();
        msg.push("Last refresh:  ").push_code_inline(refreshed_at).nl();
        let ghost before_footer = msg@;
        msg.enter_spoiler(footer_message());
        proof {
            assert(msg@ =~= status_pieces(self.homeworks@, self.current_or_next_lesson, self.today, self.uptime_secs as nat, refreshed_at@));
        }
        msg
    }
}

fn write_nearest(msg: &mut LabeledMessage, nearest: &Option<NearestLesson>, today: Date)
    ensures
        final(msg)@ == old(msg)@ + nearest_pieces(*nearest, today),
{
    let ghost start = msg@;
    match nearest {
        Some(NearestLesson::Current(lesson)) => {
            msg.push_bold("Current Lesson:").nl();
            format_lesson(msg, lesson, today);
            msg.nl();
        },
        Some(NearestLesson::Next(lesson)) => {
            msg.push_bold("Next Lesson:").nl();
            format_lesson(msg, lesson, today);
            msg.nl();
        },
        None => {},
    }
    proof {
        assert(msg@ =~= start + nearest_pieces(*nearest, today));
    }
}

fn write_homework(msg: &mut LabeledMessage, hw: &Homework)
    ensures
        final(msg)@ == old(msg)@ + homework_pieces(*hw),
{
    let ghost start = msg@;
    msg.push("• Lesson: ").push_code_inline(hw.lesson_subject.as_str()).push(", Teacher: ").push_code_inline(hw.teacher_name.as_str()).nl();
    let created = hw.date.format("%a %d/%m/%y");
    msg.push("  Created at:  ").push_code_inline(created.as_str()).nl();
    let deadline = hw.due_date.format("%a %d/%m/%y");
    msg.push("  Deadline:     ").push_code_inline(deadline.as_str()).nl();
    msg.push("  Task:  ").push_code_inline(hw.text.as_str()).nl().nl();
    proof {
        assert(msg@ =~= start + homework_pieces(*hw));
    }
}

fn write_homework_list(msg: &mut LabeledMessage, homeworks: &Vec<Homework>)
    ensures
        final(msg)@ == old(msg)@ + (if homeworks@.len() == 0 {
            seq![LabeledText::Normal(md_code_inline("Empty :)"@)), LabeledText::Normal("\n"@)]
        } else {
            homeworks_pieces(homeworks@)
        }),
{
    let ghost start = msg@;
    if homeworks.len() == 0 {
        msg.push_code_inline("Empty :)").nl();
        proof {
            assert(msg@ =~= start + seq![LabeledText::Normal(md_code_inline("Empty :)"@)), LabeledText::Normal("\n"@)]);
        }
    } else {
        let n = homeworks.len();
        for i in 0..n
            invariant
                n == homeworks@.len(),
                msg@ == start + homeworks_pieces(homeworks@.take(i as int)),
        {
            let ghost before = msg@;
            proof {
                assert(homeworks@.take(i + 1).drop_last() =~= homeworks@.take(i as int));
            }
            write_homework(msg, &homeworks[i]);
            proof {
                assert(msg@ =~= start + homeworks_pieces(homeworks@.take(i + 1)));
            }
        }
        proof {
            assert(homeworks@.take(n as int) =~= homeworks@);
        }
    }
}

/// The link at the foot of the status message, followed by a line break.
fn footer_message() -> (r: LabeledMessage)
    ensures
        "||"@ + raw_text(r@) + "||"@ == footer_text(),
{
    let mut footer = LabeledMessage::new();
    footer.push_link("(He keeps me in this basement full of care)", REPOSITORY_URL).nl();
    proof {
        let link_piece = md_link(REPOSITORY_URL@, md_escape("(He keeps me in this basement full of care)"@));
        let one = seq![LabeledText::Normal(link_piece)];
        assert(footer@ =~= one.push(LabeledText::Normal("\n"@)));
        assert(footer@.drop_last() =~= one);
        assert(one.drop_last() =~= Seq::<LabeledText>::empty());
        assert(raw_text(one.drop_last()) =~= Seq::<char>::empty());
        assert(one.last().text() == link_piece);
        assert(Seq::<char>::empty() + link_piece =~= link_piece);
        assert(raw_text(one) =~= link_piece);
        assert(raw_text(footer@) =~= link_piece + "\n"@);
    }
    footer
}

/// There is at most one next lesson.
pub proof fn next_lesson_is_unique(s: Seq<UntisLesson>, i: int, j: int, today: Date, now: Time)
    requires
        is_next_index(s, i, today, now),
        is_next_index(s, j, today, now),
    ensures
        i == j,
{
    if i < j {
        assert(is_upcoming(s[i], today, now));
        assert(starts_before(s[j], s[i]));
    } else if j < i {
        assert(is_upcoming(s[j], today, now));
        assert(starts_before(s[i], s[j]));
    }
}

/// The lesson taken as the current one takes place today and covers `now`;
/// when there is none, no lesson of today covers `now`.
pub proof fn current_lesson_is_today_and_under_way(s: Seq<UntisLesson>, today: Date, now: Time)
    ensures
        first_ongoing(s, today, now) matches Some(i) ==> 0 <= i < s.len() && s[i].date == today
            && s[i].start_time.secs() <= now.secs() && now.secs() < s[i].end_time.secs(),
        first_ongoing(s, today, now) is None ==> forall|i: int|
            0 <= i < s.len() && (#[trigger] s[i]).date == today && s[i].start_time.secs() <= now.secs()
                ==> s[i].end_time.secs() <= now.secs(),
    decreases s.len(),
{
    if s.len() > 0 {
        current_lesson_is_today_and_under_way(s.drop_last(), today, now);
        if first_ongoing(s, today, now) is None {
            assert forall|i: int|
                0 <= i < s.len() && (#[trigger] s[i]).date == today && s[i].start_time.secs()
                    <= now.secs() implies s[i].end_time.secs() <= now.secs() by {
                if i < s.len() - 1 {
                    assert(s.drop_last()[i] == s[i]);
                }
            }
        }
    }
}

/// A lesson taken as the next one begins after `now`: on a later day, or
/// later today.
pub proof fn next_lesson_begins_after_now(s: Seq<UntisLesson>, i: int, today: Date, now: Time)
    requires
        is_next_index(s, i, today, now),
    ensures
        s[i].date.days() > today.days() || (s[i].date == today && s[i].start_time.secs() > now.secs()),
{
}

} // verus!
