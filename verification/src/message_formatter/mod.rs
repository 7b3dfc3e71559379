//! Formatting of lesson changes as Telegram messages.
pub mod lesson_message;
pub mod fields;
pub mod formatters;
pub mod message_lesson;
pub mod plain_text;

use vstd::prelude::*;
use crate::diff_impl::{diff_debug_texts, stored_debug_text, untis_debug_text, Diff, DiffModel};
use crate::markdown::md_escape;
use crate::message::{LabeledMessage, LabeledText};
use crate::work::TaskInfo;
use self::fields::{field_diff_pieces, standard_field_specs, Field, FieldDiff, FieldVisibility, FIELD_SEPARATOR};
use self::formatters::{field_entries, format_lesson_fields};
use self::message_lesson::{stored_lesson_text, untis_lesson_text, LessonText, MessageLesson};

verus! {

/// The heading of a lesson message.
#[derive(Clone, Copy, Debug, PartialEq, Eq, Structural)]
pub enum MessageHeader {
    Added,
    Changed,
}

/// A line of a lesson message: a field value, or a field that may have changed.
#[derive(Debug, Clone)]
pub enum MessageField {
    Normal(Field),
    Changed(FieldDiff),
}

/// The model of a message line.
pub enum FieldEntry {
    /// Name and value.
    Normal(Seq<char>, Seq<char>),
    /// Name, old value, new value, and when the field is shown.
    Changed(Seq<char>, Seq<char>, Seq<char>, FieldVisibility),
}

impl View for MessageField {
    type V = FieldEntry;

    open spec fn view(&self) -> FieldEntry {
        match self {
            MessageField::Normal(f) => FieldEntry::Normal(f.name@, f.value@),
            MessageField::Changed(d) => FieldEntry::Changed(d.name@, d.from@, d.to@, d.visibility),
        }
    }
}

/// The heading line of a lesson message.
pub open spec fn header_pieces(header: MessageHeader) -> Seq<LabeledText> {
    match header {
        MessageHeader::Changed => seq![
            LabeledText::Normal(md_escape("Changes in lesson:"@)),
            LabeledText::Normal("\n"@),
        ],
        MessageHeader::Added => seq![
            LabeledText::Normal(md_escape("New lesson:"@)),
            LabeledText::Normal("\n"@),
        ],
    }
}

/// How one line is written: `name: value` for a value, the change for a
/// field that may have changed (nothing when it is not shown).
pub open spec fn entry_pieces(e: FieldEntry) -> Seq<LabeledText> {
    match e {
        FieldEntry::Normal(name, value) => seq![
            LabeledText::Normal(md_escape(name)),
            LabeledText::Normal(md_escape(FIELD_SEPARATOR@)),
            LabeledText::Normal(md_escape(value)),
        ],
        FieldEntry::Changed(name, from, to, visibility) => match field_diff_pieces(
            name,
            from,
            to,
            visibility,
        ) {
            Some(p) => p,
            None => Seq::empty(),
        },
    }
}

/// The lines, with a line break before each line but the first.
pub open spec fn entries_pieces(s: Seq<FieldEntry>) -> Seq<LabeledText>
    decreases s.len(),
{
    if s.len() == 0 {
        Seq::empty()
    } else {
        entries_pieces(s.drop_last()) + (if s.len() > 1 {
            seq![LabeledText::Normal("\n"@)]
        } else {
            Seq::empty()
        }) + entry_pieces(s.last())
    }
}

/// A whole lesson message: heading, then lines.
pub open spec fn block_pieces(header: MessageHeader, entries: Seq<FieldEntry>) -> Seq<LabeledText> {
    header_pieces(header) + entries_pieces(entries)
}

/// The lines of a message, as models.
pub open spec fn field_views(fields: Seq<MessageField>) -> Seq<FieldEntry> {
    fields.map_values(|f: MessageField| f@)
}

/// Writes the lines of a lesson message after its heading.
pub(crate) fn write_fields(msg: &mut LabeledMessage, fields: &Vec<MessageField>)
    ensures
        final(msg)@ == old(msg)@ + entries_pieces(field_views(fields@)),
{
    let ghost start = msg@;
    let n = fields.len();
    for i in 0..n
        invariant
            n == fields.len(),
            msg@ == start + entries_pieces(field_views(fields@).take(i as int)),
    {
        let ghost before = msg@;
        let ghost t = field_views(fields@).take(i + 1);
        proof {
            assert(t.drop_last() =~= field_views(fields@).take(i as int));
            assert(t.last() == fields@[i as int]@);
        }
        if i != 0 {
            msg.nl();
        }
        let ghost after_break = msg@;
        match &fields[i] {
            MessageField::Normal(field) => {
                msg.push(field.name);
                msg.push(FIELD_SEPARATOR);
                msg.push(field.value.as_str());
            },
            MessageField::Changed(diff) => {
                if let Some(formatted) = diff.format() {
                    msg.extend(formatted);
                } else {
                    proof {
                        assert(msg@ =~= after_break + Seq::<LabeledText>::empty());
                    }
                }
            },
        }
        proof {
            assert(msg@ =~= after_break + entry_pieces(fields@[i as int]@));
            if i != 0 {
                assert(after_break =~= before + seq![LabeledText::Normal("\n"@)]);
            } else {
                assert(after_break =~= before + Seq::<LabeledText>::empty());
            }
            assert(msg@ =~= start + entries_pieces(t));
        }
    }
    proof {
        assert(field_views(fields@).take(n as int) =~= field_views(fields@));
    }
}

/// A lesson message: a heading and its lines.
#[derive(Debug, Clone)]
pub struct LessonDiffBlock {
    header: MessageHeader,
    fields: Vec<MessageField>,
}

impl View for LessonDiffBlock {
    type V = (MessageHeader, Seq<FieldEntry>);

    closed spec fn view(&self) -> (MessageHeader, Seq<FieldEntry>) {
        (self.header, field_views(self.fields@))
    }
}

impl LessonDiffBlock {
    pub fn new(with_type: MessageHeader, fields: Vec<MessageField>) -> (r: Self)
        ensures
            r@ == (with_type, field_views(fields@)),
    {
        Self { header: with_type, fields }
    }

    /// The message as labelled pieces: the heading line, then the lines.
    pub fn into_labeled_message(self) -> (r: LabeledMessage)
        ensures
            r@ == block_pieces(self@.0, self@.1),
    {
        let mut msg = LabeledMessage::new();
        match self.header {
            MessageHeader::Changed => {
                msg.push("Changes in lesson:").nl();
            },
            MessageHeader::Added => {
                msg.push("New lesson:").nl();
            },
        }
        proof {
            assert(msg@ =~= header_pieces(self.header));
        }
        write_fields(&mut msg, &self.fields);
        msg
    }
}

/// The formatting fields of the old and the new lesson of a change; `None`
/// stands for the old lesson of an added one.
pub open spec fn diff_lesson_texts(d: DiffModel) -> (Option<LessonText>, LessonText) {
    match d {
        DiffModel::Added(l) => (None, untis_lesson_text(l)),
        DiffModel::Changed(from, to) => (Some(stored_lesson_text(from)), untis_lesson_text(to)),
    }
}

/// The lesson message for a change: the standard fields of the new lesson,
/// compared with the old one when there is one.
pub fn format_message(diff: Diff) -> (r: LessonDiffBlock)
    ensures
        r@ == (
            if diff@ is Added {
                MessageHeader::Added
            } else {
                MessageHeader::Changed
            },
            field_entries(
                standard_field_specs(),
                diff_lesson_texts(diff@).0,
                diff_lesson_texts(diff@).1,
            ),
        ),
{
    match diff {
        Diff::Changed { from, to } => {
            let from = MessageLesson::from_stored(from);
            let to = MessageLesson::from_untis(to);
            format_lesson_fields(Some(&from), &to)
        },
        Diff::Added(lesson) => {
            let to = MessageLesson::from_untis(lesson);
            format_lesson_fields(None, &to)
        },
    }
}

/// The pieces that describe a change for debugging, given debug texts of
/// the lessons concerned: `a` of the old lesson (of the added one for an
/// addition) and `b` of the new one.
pub open spec fn debug_info_pieces(d: DiffModel, a: Seq<char>, b: Seq<char>) -> Seq<LabeledText> {
    match d {
        DiffModel::Changed(_, _) => seq![
            LabeledText::Normal(md_escape("Debug info: Changed lesson from "@)),
            LabeledText::Normal(md_escape(a)),
            LabeledText::Normal(md_escape(" to "@)),
            LabeledText::Normal(md_escape(b)),
        ],
        DiffModel::Added(_) => seq![
            LabeledText::Normal(md_escape("Debug info: Added new lesson: "@)),
            LabeledText::Normal(md_escape(a)),
        ],
    }
}

/// Appends a description of a change, with the debug form of the lessons concerned.
pub fn apply_debug_info<'a>(
    message: &'a mut LabeledMessage,
    _entry: &TaskInfo,
    diff: &Diff,
) -> (r: &'a mut LabeledMessage)
    ensures
        *final(message) == *final(r),
        r@ == old(message)@ + debug_info_pieces(diff@, diff_debug_texts(diff@).0, diff_debug_texts(diff@).1),
{
    match diff {
        Diff::Changed { from, to } => {
            let from_text = stored_debug_text(from);
            let to_text = untis_debug_text(to);
            message.push("Debug info: Changed lesson from ");
            message.push(from_text.as_str());
            message.push(" to ");
            message.push(to_text.as_str());
            proof {
                assert(message@ =~= old(message)@ + debug_info_pieces(diff@, from_text@, to_text@));
            }
        },
        Diff::Added(lesson) => {
            let text = untis_debug_text(lesson);
            message.push("Debug info: Added new lesson: ");
            message.push(text.as_str());
            proof {
                assert(message@ =~= old(message)@ + debug_info_pieces(diff@, text@, text@));
            }
        },
    }
    message
}

/// Every piece is a normal one.
pub open spec fn all_normal(s: Seq<LabeledText>) -> bool {
    forall|i: int| 0 <= i < s.len() ==> #[trigger] s[i] is Normal
}

proof fn lemma_all_normal_add(a: Seq<LabeledText>, b: Seq<LabeledText>)
    requires
        all_normal(a),
        all_normal(b),
    ensures
        all_normal(a + b),
{
    assert forall|i: int| 0 <= i < (a + b).len() implies #[trigger] (a + b)[i] is Normal by {
        if i >= a.len() {
            assert((a + b)[i] == b[i - a.len()]);
        }
    }
}

proof fn lemma_entries_all_normal(s: Seq<FieldEntry>)
    ensures
        all_normal(entries_pieces(s)),
    decreases s.len(),
{
    if s.len() > 0 {
        lemma_entries_all_normal(s.drop_last());
        let sep = if s.len() > 1 {
            seq![LabeledText::Normal("\n"@)]
        } else {
            Seq::<LabeledText>::empty()
        };
        lemma_all_normal_add(entries_pieces(s.drop_last()), sep);
        lemma_all_normal_add(entries_pieces(s.drop_last()) + sep, entry_pieces(s.last()));
    }
}

/// A lesson message holds only normal pieces, so its normal view is the
/// message itself.
pub proof fn lesson_messages_have_no_debug_pieces(header: MessageHeader, entries: Seq<FieldEntry>)
    ensures
        all_normal(block_pieces(header, entries)),
        crate::message::normal_part(block_pieces(header, entries)) == block_pieces(header, entries),
{
    lemma_entries_all_normal(entries);
    lemma_all_normal_add(header_pieces(header), entries_pieces(entries));
    crate::message::normal_pieces_are_their_own_normal_view(block_pieces(header, entries));
}

} // verus!
