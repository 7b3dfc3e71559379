//! Plain-text summaries of lesson changes, one line per field.
use vstd::prelude::*;
use vstd::string::*;
use crate::calendar::hms_text;
use crate::diff_impl::{opt_text, texts, untis_debug_text, untis_lesson_debug, UntisLesson};

verus! {

/// A field line: changed, unchanged, or left out unless debugging.
pub enum FormatMaybeDiff {
    Diff(String),
    NoDiff(String),
    Ignored(String),
}

/// The model of a field line.
pub enum MaybeDiffText {
    Diff(Seq<char>),
    NoDiff(Seq<char>),
    Ignored(Seq<char>),
}

impl View for FormatMaybeDiff {
    type V = MaybeDiffText;

    open spec fn view(&self) -> MaybeDiffText {
        match self {
            FormatMaybeDiff::Diff(s) => MaybeDiffText::Diff(s@),
            FormatMaybeDiff::NoDiff(s) => MaybeDiffText::NoDiff(s@),
            FormatMaybeDiff::Ignored(s) => MaybeDiffText::Ignored(s@),
        }
    }
}

/// The line for a field: `name: from -> to` when the values differ; when
/// they are equal, `name: from` on a line of its own, or left out (kept only
/// for debugging) for a field shown only on change.
pub open spec fn maybe_diff(name: Seq<char>, from: Seq<char>, to: Seq<char>, show_only_changes: bool) -> MaybeDiffText {
    if from == to {
        if show_only_changes {
            MaybeDiffText::Ignored(name + ": "@ + from)
        } else {
            MaybeDiffText::NoDiff(name + ": "@ + from + "\n"@)
        }
    } else {
        MaybeDiffText::Diff(name + ": "@ + from + " -> "@ + to + "\n"@)
    }
}

/// The text of a field line; a production build (`prod`) leaves out ignored fields.
pub open spec fn maybe_diff_text(m: MaybeDiffText, prod: bool) -> Seq<char> {
    match m {
        MaybeDiffText::Diff(s) => s,
        MaybeDiffText::NoDiff(s) => s,
        MaybeDiffText::Ignored(s) => if prod {
            Seq::empty()
        } else {
            "<DEBUG: ignored "@ + s + ">"@
        },
    }
}

/// The line for a field.
pub fn format_maybe_diff(name: &str, from: String, to: String, show_only_changes: bool) -> (r: FormatMaybeDiff)
    ensures
        r@ == maybe_diff(name@, from@, to@, show_only_changes),
{
    let mut text = String::from_str(name);
    text.append(": ");
    text.append(from.as_str());
    if from == to {
        if show_only_changes {
            FormatMaybeDiff::Ignored(text)
        } else {
            text.append("\n");
            FormatMaybeDiff::NoDiff(text)
        }
    } else {
        text.append(" -> ");
        text.append(to.as_str());
        text.append("\n");
        FormatMaybeDiff::Diff(text)
    }
}

impl FormatMaybeDiff {
    /// The text of the line, as a production build (`prod`) or a development build shows it.
    pub fn render(&self, prod: bool) -> (r: String)
        ensures
            r@ == maybe_diff_text(self@, prod),
    {
        match self {
            FormatMaybeDiff::Diff(diff) => diff.clone(),
            FormatMaybeDiff::NoDiff(no_diff) => no_diff.clone(),
            FormatMaybeDiff::Ignored(ignored) => if prod {
                String::new()
            } else {
                let mut r = String::from_str("<DEBUG: ignored ");
                r.append(ignored.as_str());
                r.append(">");
                r
            },
        }
    }
}

/// A lesson has at least one subject and one room.
pub open spec fn has_subject_and_room(l: UntisLesson) -> bool {
    l.subjects@.len() > 0 && l.rooms@.len() > 0
}

/// The compared fields of two lessons: name, old value, new value, and
/// whether the field is shown only on change.
pub open spec fn compared_fields(from: UntisLesson, to: UntisLesson) -> Seq<(Seq<char>, Seq<char>, Seq<char>, bool)> {
    seq![
        ("Subject"@, from.subjects@[0]@, to.subjects@[0]@, false),
        ("Time"@, hms_text(from.start_time.secs()) + " - "@ + hms_text(from.end_time.secs()),
            hms_text(to.start_time.secs()) + " - "@ + hms_text(to.end_time.secs()), false),
        ("Teacher"@, first_or_empty(texts(from.teachers@)), first_or_empty(texts(to.teachers@)), false),
        ("Room"@, from.rooms@[0]@, to.rooms@[0]@, false),
        ("Status"@, from.code.text(), to.code.text(), false),
        ("Activity Type"@, from.activity_type@, to.activity_type@, true),
        ("Additional Info"@, text_or_empty(opt_text(from.subst_text)), text_or_empty(opt_text(to.subst_text)), true),
    ]
}

pub open spec fn first_or_empty(s: Seq<Seq<char>>) -> Seq<char> {
    if s.len() > 0 {
        s[0]
    } else {
        Seq::empty()
    }
}

pub open spec fn text_or_empty(o: Option<Seq<char>>) -> Seq<char> {
    match o {
        Some(s) => s,
        None => Seq::empty(),
    }
}

/// The lines of the compared fields, one after another.
pub open spec fn lines_text(fields: Seq<(Seq<char>, Seq<char>, Seq<char>, bool)>, prod: bool) -> Seq<char>
    decreases fields.len(),
{
    if fields.len() == 0 {
        Seq::empty()
    } else {
        lines_text(fields.drop_last(), prod) + maybe_diff_text(
            maybe_diff(fields.last().0, fields.last().1, fields.last().2, fields.last().3),
            prod,
        )
    }
}

/// Some compared field has different values.
pub open spec fn any_field_differs(fields: Seq<(Seq<char>, Seq<char>, Seq<char>, bool)>) -> bool {
    exists|i: int| 0 <= i < fields.len() && #[trigger] fields[i].1 != fields[i].2
}

fn first_or_empty_of(v: &Vec<String>) -> (r: String)
    ensures
        r@ == first_or_empty(texts(v@)),
{
    if v.len() > 0 {
        v[0].clone()
    } else {
        String::new()
    }
}

fn text_or_empty_of(o: &Option<String>) -> (r: String)
    ensures
        r@ == text_or_empty(opt_text(*o)),
{
    match o {
        Some(s) => s.clone(),
        None => String::new(),
    }
}

fn time_range_text(l: &UntisLesson) -> (r: String)
    ensures
        r@ == hms_text(l.start_time.secs()) + " - "@ + hms_text(l.end_time.secs()),
{
    let mut r = l.start_time.to_hms_string();
    r.append(" - ");
    let end = l.end_time.to_hms_string();
    r.append(end.as_str());
    r
}

/// The field lines of a lesson change, or, when no field differs, a note that
/// names both lessons in their debug form.
pub fn format_changed_diff(from: &UntisLesson, to: &UntisLesson, prod: bool) -> (r: String)
    requires
        has_subject_and_room(*from),
        has_subject_and_room(*to),
    ensures
        any_field_differs(compared_fields(*from, *to)) ==> r@ == lines_text(compared_fields(*from, *to), prod),
        !any_field_differs(compared_fields(*from, *to)) ==> r@ == "Not found any changes for lessons: <"@
            + untis_lesson_debug(*from) + "> and <"@ + untis_lesson_debug(*to) + ">\n"@,
{
    let ghost fields = compared_fields(*from, *to);
    let mut olds: Vec<String> = Vec::new();
    let mut news: Vec<String> = Vec::new();
    olds.push(from.subjects[0].clone());
    news.push(to.subjects[0].clone());
    olds.push(time_range_text(from));
    news.push(time_range_text(to));
    olds.push(first_or_empty_of(&from.teachers));
    news.push(first_or_empty_of(&to.teachers));
    olds.push(from.rooms[0].clone());
    news.push(to.rooms[0].clone());
    olds.push(String::from_str(from.code.as_str()));
    news.push(String::from_str(to.code.as_str()));
    olds.push(from.activity_type.clone());
    news.push(to.activity_type.clone());
    olds.push(text_or_empty_of(&from.subst_text));
    news.push(text_or_empty_of(&to.subst_text));
    let names: [&str; 7] = ["Subject", "Time", "Teacher", "Room", "Status", "Activity Type", "Additional Info"];
    let optional: [bool; 7] = [false, false, false, false, false, true, true];
    proof {
        assert forall|i: int| #![trigger fields[i]] 0 <= i < 7 implies names@[i]@ == fields[i].0 && olds@[i]@ == fields[i].1
            && news@[i]@ == fields[i].2 && optional@[i] == fields[i].3 by {}
    }
    let mut buffer = String::new();
    let mut has_diff = false;
    for i in 0..7
        invariant
            olds@.len() == 7,
            news@.len() == 7,
            fields.len() == 7,
            forall|j: int| #![trigger fields[j]] 0 <= j < 7 ==> names@[j]@ == fields[j].0 && olds@[j]@ == fields[j].1
                && news@[j]@ == fields[j].2 && optional@[j] == fields[j].3,
            buffer@ == lines_text(fields.take(i as int), prod),
            has_diff == any_field_differs(fields.take(i as int)),
    {
        let ghost t = fields.take(i + 1);
        proof {
            assert(t.drop_last() =~= fields.take(i as int));
            assert(t.last() == fields[i as int]);
        }
        let result = format_maybe_diff(names[i], olds[i].clone(), news[i].clone(), optional[i]);
        let is_diff = match &result {
            FormatMaybeDiff::Diff(_) => true,
            _ => false,
        };
        proof {
            assert(is_diff == (olds@[i as int]@ != news@[i as int]@));
            assert(fields[i as int].1 == olds@[i as int]@ && fields[i as int].2 == news@[i as int]@);
        }
        if is_diff {
            has_diff = true;
        }
        let text = result.render(prod);
        buffer.append(text.as_str());
        proof {
            if has_diff {
                if !any_field_differs(fields.take(i as int)) {
                    assert(t[i as int].1 != t[i as int].2);
                } else {
                    let k = choose|k: int| 0 <= k < i && #[trigger] fields.take(i as int)[k].1 != fields.take(i as int)[k].2;
                    assert(t[k] == fields.take(i as int)[k]);
                }
            } else {
                assert forall|k: int| 0 <= k < t.len() implies !(#[trigger] t[k].1 != t[k].2) by {
                    if k < i {
                        assert(t[k] == fields.take(i as int)[k]);
                        assert(!(fields.take(i as int)[k].1 != fields.take(i as int)[k].2));
                    } else {
                        assert(t[k] == fields[i as int]);
                        assert(olds@[i as int]@ == fields[i as int].1);
                    }
                }
            }
        }
    }
    proof {
        assert(fields.take(7) =~= fields);
    }
    if has_diff {
        buffer
    } else {
        let a = untis_debug_text(from);
        let b = untis_debug_text(to);
        let mut r = String::from_str("Not found any changes for lessons: <");
        r.append(a.as_str());
        r.append("> and <");
        r.append(b.as_str());
        r.append(">\n");
        proof {
            assert(r@ =~= "Not found any changes for lessons: <"@ + a@ + "> and <"@ + b@ + ">\n"@);
        }
        r
    }
}

/// The plain-text note for a new lesson: subject, room, time and status.
pub fn format_added_diff(lesson: &UntisLesson) -> (r: String)
    requires
        has_subject_and_room(*lesson),
    ensures
        r@ == "New record for lesson: "@ + lesson.subjects@[0]@ + "\nRoom: "@ + lesson.rooms@[0]@ + "\nTime: "@
            + hms_text(lesson.start_time.secs()) + " - "@ + hms_text(lesson.end_time.secs()) + "\nStatus: "@
            + lesson.code.text() + "\n"@,
{
    let mut r = String::from_str("New record for lesson: ");
    r.append(lesson.subjects[0].as_str());
    r.append("\nRoom: ");
    r.append(lesson.rooms[0].as_str());
    r.append("\nTime: ");
    let range = time_range_text(lesson);
    r.append(range.as_str());
    r.append("\nStatus: ");
    r.append(lesson.code.as_str());
    r.append("\n");
    proof {
        assert(r@ =~= "New record for lesson: "@ + lesson.subjects@[0]@ + "\nRoom: "@ + lesson.rooms@[0]@ + "\nTime: "@
            + hms_text(lesson.start_time.secs()) + " - "@ + hms_text(lesson.end_time.secs()) + "\nStatus: "@
            + lesson.code.text() + "\n"@);
    }
    r
}

} // verus!
