//! A lesson message whose field list can grow, and its dispatcher.
use vstd::prelude::*;
use crate::diff_impl::{texts, Diff, DiffModel};
use crate::markdown::md_escape;
use crate::message::{LabeledMessage, LabeledText};
use crate::work::TaskInfo;
use super::fields::{standard_field_specs, Field};
use super::formatters::{field_entries, lesson_fields};
use super::message_lesson::MessageLesson;
use super::{
    block_pieces, diff_lesson_texts, field_views, header_pieces, write_fields, FieldEntry,
    MessageField, MessageHeader,
};

verus! {

/// A lesson message: a heading and its lines.
#[derive(Debug, Clone)]
pub struct LessonMessage {
    header: MessageHeader,
    fields: Vec<MessageField>,
}

impl View for LessonMessage {
    type V = (MessageHeader, Seq<FieldEntry>);

    closed spec fn view(&self) -> (MessageHeader, Seq<FieldEntry>) {
        (self.header, field_views(self.fields@))
    }
}

impl LessonMessage {
    pub fn new(with_type: MessageHeader, fields: Vec<MessageField>) -> (r: Self)
        ensures
            r@ == (with_type, field_views(fields@)),
    {
        Self { header: with_type, fields }
    }

    /// Appends a line with a field value.
    pub fn add_field(&mut self, field: Field)
        ensures
            final(self)@ == (old(self)@.0, old(self)@.1.push(FieldEntry::Normal(field.name@, field.value@))),
    {
        let ghost before = field_views(self.fields@);
        let ghost entry = FieldEntry::Normal(field.name@, field.value@);
        self.fields.push(MessageField::Normal(field));
        proof {
            assert(field_views(self.fields@) =~= before.push(entry));
        }
    }

    /// The message as labelled pieces: the heading line, then the lines.
    pub fn into_labeled_message(self) -> (r: LabeledMessage)
        ensures
            r@ == block_pieces(self@.0, self@.1),
    {
        let mut msg = LabeledMessage::new();
        match self.header {
            MessageHeader::Changed => {
                msg.push("Changes in lesson:").nl();
            },
            MessageHeader::Added => {
                msg.push("New lesson:").nl();
            },
        }
        proof {
            assert(msg@ =~= header_pieces(self.header));
        }
        write_fields(&mut msg, &self.fields);
        msg
    }
}

/// Sends each kind of change to the formatting that suits it.
pub struct MessageDispatcher;

impl MessageDispatcher {
    /// The lesson message for a change: the standard fields of the new lesson,
    /// compared with the old one when there is one.
    pub fn dispatch(&self, diff: &Diff) -> (r: LessonMessage)
        ensures
            r@ == (
                if diff@ is Added {
                    MessageHeader::Added
                } else {
                    MessageHeader::Changed
                },
                field_entries(
                    standard_field_specs(),
                    diff_lesson_texts(diff@).0,
                    diff_lesson_texts(diff@).1,
                ),
            ),
    {
        match diff {
            Diff::Changed { from, to } => {
                let from = MessageLesson::from_stored(from);
                let to = MessageLesson::from_untis(to);
                LessonMessage::new(MessageHeader::Changed, lesson_fields(Some(&from), &to))
            },
            Diff::Added(lesson) => {
                let to = MessageLesson::from_untis(lesson);
                LessonMessage::new(MessageHeader::Added, lesson_fields(None, &to))
            },
        }
    }
}

/// The lesson message for a change.
pub fn format_message(diff: &Diff) -> (r: LessonMessage)
    ensures
        r@ == (
            if diff@ is Added {
                MessageHeader::Added
            } else {
                MessageHeader::Changed
            },
            field_entries(
                standard_field_specs(),
                diff_lesson_texts(diff@).0,
                diff_lesson_texts(diff@).1,
            ),
        ),
{
    MessageDispatcher.dispatch(diff)
}

/// The first subject of a list, or `None`.
pub open spec fn first_subject_or_none(subjects: Seq<Seq<char>>) -> Seq<char> {
    if subjects.len() > 0 {
        subjects[0]
    } else {
        "None"@
    }
}

fn first_subject(subjects: &Vec<String>) -> (r: &str)
    ensures
        r@ == first_subject_or_none(texts(subjects@)),
{
    if subjects.len() > 0 {
        subjects[0].as_str()
    } else {
        "None"
    }
}

/// Appends a description of a change that names the first subject of the
/// lessons concerned.
pub fn apply_debug_info<'a>(
    message: &'a mut LabeledMessage,
    _entry: &TaskInfo,
    diff: &Diff,
) -> (r: &'a mut LabeledMessage)
    ensures
        *final(message) == *final(r),
        r@ == old(message)@ + match diff@ {
            DiffModel::Changed(from, to) => seq![
                LabeledText::Normal(md_escape("Debug info: Changed lesson from "@)),
                LabeledText::Normal(md_escape(first_subject_or_none(texts(from.subjects@)))),
                LabeledText::Normal(md_escape(" to "@)),
                LabeledText::Normal(md_escape(first_subject_or_none(texts(to.subjects@)))),
            ],
            DiffModel::Added(lesson) => seq![
                LabeledText::Normal(md_escape("Debug info: Added new lesson for "@)),
                LabeledText::Normal(md_escape(first_subject_or_none(texts(lesson.subjects@)))),
            ],
        },
{
    match diff {
        Diff::Changed { from, to } => {
            message.push("Debug info: Changed lesson from ");
            message.push(first_subject(&from.subjects));
            message.push(" to ");
            message.push(first_subject(&to.subjects));
        },
        Diff::Added(lesson) => {
            message.push("Debug info: Added new lesson for ");
            message.push(first_subject(&lesson.subjects));
        },
    }
    proof {
        assert(message@ =~= old(message)@ + match diff@ {
            DiffModel::Changed(from, to) => seq![
                LabeledText::Normal(md_escape("Debug info: Changed lesson from "@)),
                LabeledText::Normal(md_escape(first_subject_or_none(texts(from.subjects@)))),
                LabeledText::Normal(md_escape(" to "@)),
                LabeledText::Normal(md_escape(first_subject_or_none(texts(to.subjects@)))),
            ],
            DiffModel::Added(lesson) => seq![
                LabeledText::Normal(md_escape("Debug info: Added new lesson for "@)),
                LabeledText::Normal(md_escape(first_subject_or_none(texts(lesson.subjects@)))),
            ],
        });
    }
    message
}

} // verus!
