//! Lesson fields: what each one shows, and how a change of a field is written.
use vstd::prelude::*;
use vstd::string::*;
use crate::calendar::hms_text;
use crate::markdown::{md_code_inline, md_escape, md_strike};
use crate::message::{raw_text, LabeledMessage, LabeledText};
use crate::text::{join, joined};
use super::message_lesson::{LessonText, MessageLesson};

verus! {

/// Default buffer capacity for message formatting to avoid reallocations.
pub const DEFAULT_BUFFER_CAPACITY: usize = 512;

pub const FIELD_SEPARATOR: &'static str = ": ";

pub const CHANGES_SEPARATOR: &'static str = " → ";

/// When a field is shown.
#[derive(Clone, Copy, Debug, PartialEq, Eq, Structural)]
pub enum FieldVisibility {
    /// Always show this field, even if empty.
    Always,
    /// Show when not empty.
    NonEmpty,
    /// Show only when changed.
    Changed,
}

/// Which value of a lesson a field shows.
#[derive(Clone, Copy, Debug, PartialEq, Eq, Structural)]
pub enum FieldKind {
    /// The first subject.
    Subject,
    /// Start and end, `HH:MM:SS - HH:MM:SS`.
    Time,
    /// The teachers, joined by `, `.
    Teacher,
    /// The rooms, joined by `, `.
    Room,
    /// The status code.
    Status,
    /// The substitution text.
    AdditionalInfo,
}

/// The value that a field of the given kind shows for a lesson.
pub open spec fn field_value(kind: FieldKind, l: LessonText) -> Seq<char> {
    match kind {
        FieldKind::Subject => if l.subjects.len() > 0 {
            l.subjects[0]
        } else {
            Seq::empty()
        },
        FieldKind::Time => hms_text(l.start_time.secs()) + " - "@ + hms_text(l.end_time.secs()),
        FieldKind::Teacher => joined(l.teachers, ", "@),
        FieldKind::Room => joined(l.rooms, ", "@),
        FieldKind::Status => l.lesson_code,
        FieldKind::AdditionalInfo => match l.subst_text {
            Some(s) => s,
            None => Seq::empty(),
        },
    }
}

/// A lesson field: its name, which value it shows, and when it is shown.
#[derive(Clone, Copy)]
pub struct LessonField {
    /// Human-readable name of the field.
    pub name: &'static str,
    /// The value of a lesson that the field shows.
    pub extractor: FieldKind,
    /// When the field is shown.
    pub config: FieldVisibility,
}

impl LessonField {
    /// A field that is always shown.
    pub fn required(name: &'static str, extractor: FieldKind) -> (r: Self)
        ensures
            r.name == name,
            r.extractor == extractor,
            r.config == FieldVisibility::Always,
    {
        Self { name, extractor, config: FieldVisibility::Always }
    }

    /// A field that is shown when it is not empty.
    pub fn non_empty(name: &'static str, extractor: FieldKind) -> (r: Self)
        ensures
            r.name == name,
            r.extractor == extractor,
            r.config == FieldVisibility::NonEmpty,
    {
        Self { name, extractor, config: FieldVisibility::NonEmpty }
    }

    /// A field that is shown only when it changed.
    pub fn only_changed(name: &'static str, extractor: FieldKind) -> (r: Self)
        ensures
            r.name == name,
            r.extractor == extractor,
            r.config == FieldVisibility::Changed,
    {
        Self { name, extractor, config: FieldVisibility::Changed }
    }

    /// The value of this field for a lesson.
    pub fn extract(&self, lesson: &MessageLesson) -> (r: String)
        ensures
            r@ == field_value(self.extractor, lesson@),
    {
        match self.extractor {
            FieldKind::Subject => if lesson.subjects.len() > 0 {
                lesson.subjects[0].clone()
            } else {
                String::new()
            },
            FieldKind::Time => {
                let mut r = lesson.start_time.to_hms_string();
                r.append(" - ");
                let end = lesson.end_time.to_hms_string();
                r.append(end.as_str());
                r
            },
            FieldKind::Teacher => join(&lesson.teachers, ", "),
            FieldKind::Room => join(&lesson.rooms, ", "),
            FieldKind::Status => lesson.lesson_code.clone(),
            FieldKind::AdditionalInfo => match &lesson.subst_text {
                Some(s) => s.clone(),
                None => String::new(),
            },
        }
    }
}

/// The standard fields: name, value shown, and visibility, in order.
pub open spec fn standard_field_specs() -> Seq<(Seq<char>, FieldKind, FieldVisibility)> {
    seq![
        ("Subject"@, FieldKind::Subject, FieldVisibility::Always),
        ("Time"@, FieldKind::Time, FieldVisibility::Always),
        ("Teacher"@, FieldKind::Teacher, FieldVisibility::Always),
        ("Room"@, FieldKind::Room, FieldVisibility::Always),
        ("Status"@, FieldKind::Status, FieldVisibility::Always),
        ("Additional Info"@, FieldKind::AdditionalInfo, FieldVisibility::Always),
    ]
}

/// Registry of all available lesson fields.
pub struct FieldRegistry;

impl FieldRegistry {
    /// The standard lesson fields, in the order they are shown.
    pub fn standard_fields() -> (r: [LessonField; 6])
        ensures
            forall|i: int|
                0 <= i < 6 ==> (#[trigger] r@[i]).name@ == standard_field_specs()[i].0
                    && r@[i].extractor == standard_field_specs()[i].1 && r@[i].config
                    == standard_field_specs()[i].2,
    {
        [
            LessonField::required("Subject", FieldKind::Subject),
            LessonField::required("Time", FieldKind::Time),
            LessonField::required("Teacher", FieldKind::Teacher),
            LessonField::required("Room", FieldKind::Room),
            LessonField::required("Status", FieldKind::Status),
            LessonField::required("Additional Info", FieldKind::AdditionalInfo),
        ]
    }
}

/// A field name with its value.
#[derive(Debug, Clone)]
pub struct Field {
    /// Name of the field.
    pub name: &'static str,
    pub value: String,
}

/// A field whose value may have changed.
#[derive(Debug, Clone)]
pub struct FieldDiff {
    pub name: &'static str,
    pub from: String,
    pub to: String,
    pub visibility: FieldVisibility,
}

/// How a field change is written, as message pieces; `None` when it is not shown.
/// An unchanged field is shown, as `name: value`, unless it is empty or only
/// shown on change; a changed field is written as added, changed or removed.
pub open spec fn field_diff_pieces(
    name: Seq<char>,
    from: Seq<char>,
    to: Seq<char>,
    visibility: FieldVisibility,
) -> Option<Seq<LabeledText>> {
    if from == to {
        if visibility != FieldVisibility::Changed && from.len() > 0 {
            Some(
                seq![
                    LabeledText::Normal(md_escape(name)),
                    LabeledText::Normal(md_escape(FIELD_SEPARATOR@)),
                    LabeledText::Normal(md_escape(from)),
                ],
            )
        } else {
            None
        }
    } else if from.len() == 0 && to.len() > 0 {
        Some(
            seq![
                LabeledText::Normal(md_escape("Added "@)),
                LabeledText::Normal(md_escape(name)),
                LabeledText::Normal(md_escape(FIELD_SEPARATOR@)),
                LabeledText::Normal(md_code_inline(to)),
            ],
        )
    } else if from.len() > 0 && to.len() > 0 {
        Some(
            seq![
                LabeledText::Normal(md_escape(name)),
                LabeledText::Normal(md_escape(FIELD_SEPARATOR@)),
                LabeledText::Normal(md_code_inline(from)),
                LabeledText::Normal(md_escape(CHANGES_SEPARATOR@)),
                LabeledText::Normal(md_code_inline(to)),
            ],
        )
    } else if from.len() > 0 {
        Some(
            seq![
                LabeledText::Normal(md_escape(name)),
                LabeledText::Normal(md_escape(FIELD_SEPARATOR@)),
                LabeledText::Normal(md_strike(md_code_inline(from))),
            ],
        )
    } else {
        None
    }
}

/// The pieces of a message, if there is one.
pub open spec fn opt_message_view(m: Option<LabeledMessage>) -> Option<Seq<LabeledText>> {
    match m {
        Some(m) => Some(m@),
        None => None,
    }
}

impl FieldDiff {
    /// The change of a field from one value to another; `None` when the
    /// values are the same.
    pub fn new(name: &'static str, from_value: String, to_value: String, visibility: FieldVisibility) -> (r: Option<Self>)
        ensures
            r is Some <==> from_value@ != to_value@,
            r matches Some(d) ==> d.name == name && d.from@ == from_value@ && d.to@ == to_value@
                && d.visibility == visibility,
    {
        if from_value != to_value {
            Some(Self { name, from: from_value, to: to_value, visibility })
        } else {
            None
        }
    }

    /// Whether the two values differ.
    pub fn has_changes(&self) -> (r: bool)
        ensures
            r == (self.from@ != self.to@),
    {
        self.from != self.to
    }

    /// The change written for display, with MarkdownV2 escaping.
    pub fn format(&self) -> (r: Option<LabeledMessage>)
        ensures
            opt_message_view(r) == field_diff_pieces(self.name@, self.from@, self.to@, self.visibility),
    {
        let mut msg = LabeledMessage::new();
        if !self.has_changes() {
            if self.visibility != FieldVisibility::Changed && !self.from.as_str().is_empty() {
                msg.push(self.name).push(FIELD_SEPARATOR).push(self.from.as_str());
                Some(msg)
            } else {
                None
            }
        } else {
            match (self.from.as_str().is_empty(), self.to.as_str().is_empty()) {
                (true, false) => {
                    msg.push("Added ").push(self.name).push(FIELD_SEPARATOR).push_code_inline(
                        self.to.as_str(),
                    );
                    Some(msg)
                },
                (false, false) => {
                    msg.push(self.name).push(FIELD_SEPARATOR).push_code_inline(
                        self.from.as_str(),
                    ).push(CHANGES_SEPARATOR).push_code_inline(self.to.as_str());
                    Some(msg)
                },
                (false, true) => {
                    let mut struck = LabeledMessage::new();
                    struck.push_code_inline(self.from.as_str());
                    proof {
                        assert(raw_text(struck@) == md_code_inline(self.from@)) by {
                            assert(struck@.drop_last() =~= Seq::<LabeledText>::empty());
                            assert(raw_text(struck@.drop_last()) == Seq::<char>::empty());
                            assert(Seq::<char>::empty() + md_code_inline(self.from@) =~= md_code_inline(self.from@));
                        }
                    }
                    msg.push(self.name).push(FIELD_SEPARATOR).enter_strikethrough(struck);
                    Some(msg)
                },
                _ => None,
            }
        }
    }
}

/// A field change made by `FieldDiff::new` is always shown.
pub proof fn changed_fields_are_always_shown(
    name: Seq<char>,
    from: Seq<char>,
    to: Seq<char>,
    visibility: FieldVisibility,
)
    requires
        from != to,
    ensures
        field_diff_pieces(name, from, to, visibility) is Some,
{
    if from.len() == 0 && to.len() == 0 {
        assert(from =~= to);
    }
}

} // verus!
