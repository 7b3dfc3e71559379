//! Choosing the lines of a lesson message.
use vstd::prelude::*;
use super::fields::{
    field_value, standard_field_specs, Field, FieldDiff, FieldKind, FieldRegistry,
    FieldVisibility, LessonField,
};
use super::message_lesson::{stored_lesson_text, untis_lesson_text, LessonText, MessageLesson};
use crate::calendar::hms_text;
use crate::diff_impl::{texts, StoredLesson, UntisLesson};
use crate::text::joined;
use super::{field_views, FieldEntry, LessonDiffBlock, MessageField, MessageHeader};

verus! {

/// The line of one standard field: the change when there is an old lesson
/// whose value differs, otherwise the new value when the field is shown: always
/// for `Always`, when not empty for `NonEmpty`, never for `Changed`.
pub open spec fn field_entry(
    spec: (Seq<char>, FieldKind, FieldVisibility),
    from: Option<LessonText>,
    to: LessonText,
) -> Option<FieldEntry> {
    let to_value = field_value(spec.1, to);
    if from is Some && field_value(spec.1, from->0) != to_value {
        Some(FieldEntry::Changed(spec.0, field_value(spec.1, from->0), to_value, spec.2))
    } else if spec.2 == FieldVisibility::Always || (spec.2 == FieldVisibility::NonEmpty
        && to_value.len() > 0) {
        Some(FieldEntry::Normal(spec.0, to_value))
    } else {
        None
    }
}

/// The lines of all given fields, in order, leaving out fields not shown.
pub open spec fn field_entries(
    specs: Seq<(Seq<char>, FieldKind, FieldVisibility)>,
    from: Option<LessonText>,
    to: LessonText,
) -> Seq<FieldEntry>
    decreases specs.len(),
{
    if specs.len() == 0 {
        Seq::empty()
    } else {
        field_entries(specs.drop_last(), from, to) + match field_entry(specs.last(), from, to) {
            Some(e) => seq![e],
            None => Seq::empty(),
        }
    }
}

/// The line for a value that did not change, if the field is shown: always
/// for `Always`, when not empty for `NonEmpty`, never for `Changed`.
fn visibility_fallback(field: &LessonField, value: String, config: FieldVisibility) -> (r: Option<MessageField>)
    ensures
        r is Some <==> (config == FieldVisibility::Always || (config == FieldVisibility::NonEmpty
            && value@.len() > 0)),
        r matches Some(f) ==> f@ == FieldEntry::Normal(field.name@, value@),
{
    if config == FieldVisibility::Always || (config == FieldVisibility::NonEmpty
        && !value.as_str().is_empty()) {
        Some(MessageField::Normal(Field { name: field.name, value }))
    } else {
        None
    }
}

/// The lines of the standard fields for a lesson, compared with an old one when given.
pub(crate) fn lesson_fields(from: Option<&MessageLesson>, to: &MessageLesson) -> (r: Vec<MessageField>)
    ensures
        field_views(r@) == field_entries(
            standard_field_specs(),
            match from {
                Some(f) => Some(f@),
                None => None,
            },
            to@,
        ),
{
    let ghost from_text: Option<LessonText> = match from {
        Some(f) => Some(f@),
        None => None,
    };
    let registry = FieldRegistry::standard_fields();
    let mut mfs: Vec<MessageField> = Vec::new();
    for i in 0..6
        invariant
            forall|j: int|
                0 <= j < 6 ==> (#[trigger] registry@[j]).name@ == standard_field_specs()[j].0
                    && registry@[j].extractor == standard_field_specs()[j].1 && registry@[j].config
                    == standard_field_specs()[j].2,
            from_text == match from {
                Some(f) => Some(f@),
                None => None::<LessonText>,
            },
            field_views(mfs@) == field_entries(standard_field_specs().take(i as int), from_text, to@),
    {
        let field = &registry[i];
        let ghost spec = standard_field_specs()[i as int];
        let ghost before = field_views(mfs@);
        proof {
            assert(standard_field_specs().take(i + 1).drop_last() =~= standard_field_specs().take(i as int));
            assert(standard_field_specs().take(i + 1).last() == spec);
            assert(field.name@ == spec.0 && field.extractor == spec.1 && field.config == spec.2);
        }
        let to_value = field.extract(to);
        let mut entry: Option<MessageField> = None;
        if let Some(from) = from {
            if let Some(diff) = FieldDiff::new(field.name, field.extract(from), to_value.clone(), field.config) {
                entry = Some(MessageField::Changed(diff));
            }
        }
        if entry.is_none() {
            entry = visibility_fallback(field, to_value, field.config);
        }
        match entry {
            Some(f) => {
                mfs.push(f);
                proof {
                    assert(field_views(mfs@) =~= before.push(f@));
                }
            },
            None => {
                proof {
                    assert(before + Seq::<FieldEntry>::empty() =~= before);
                }
            },
        }
    }
    proof {
        assert(standard_field_specs().take(6) =~= standard_field_specs());
    }
    mfs
}

/// The lesson message for a lesson: `Changed` with the changed fields when an
/// old lesson is given, `Added` otherwise.
pub fn format_lesson_fields(from: Option<&MessageLesson>, to: &MessageLesson) -> (r: LessonDiffBlock)
    ensures
        r@ == (
            if from is Some {
                MessageHeader::Changed
            } else {
                MessageHeader::Added
            },
            field_entries(
                standard_field_specs(),
                match from {
                    Some(f) => Some(f@),
                    None => None,
                },
                to@,
            ),
        ),
{
    let mfs = lesson_fields(from, to);
    match from {
        Some(_) => LessonDiffBlock::new(MessageHeader::Changed, mfs),
        None => LessonDiffBlock::new(MessageHeader::Added, mfs),
    }
}

/// The substitution text of a lesson, empty when it has none.
pub open spec fn substitution_or_empty(t: Option<String>) -> Seq<char> {
    match t {
        Some(s) => s@,
        None => Seq::empty(),
    }
}

/// The message of an added lesson shows, in this order, its first subject,
/// its time span, its teachers, its rooms, its status code and its
/// substitution text.
pub proof fn added_lesson_message_shows_its_fields(l: UntisLesson)
    ensures
        field_entries(standard_field_specs(), None, untis_lesson_text(l)) == seq![
            FieldEntry::Normal(
                "Subject"@,
                if l.subjects@.len() > 0 {
                    l.subjects@[0]@
                } else {
                    Seq::empty()
                },
            ),
            FieldEntry::Normal("Time"@, hms_text(l.start_time.secs()) + " - "@ + hms_text(l.end_time.secs())),
            FieldEntry::Normal("Teacher"@, joined(texts(l.teachers@), ", "@)),
            FieldEntry::Normal("Room"@, joined(texts(l.rooms@), ", "@)),
            FieldEntry::Normal("Status"@, l.code.text()),
            FieldEntry::Normal("Additional Info"@, substitution_or_empty(l.subst_text)),
        ],
{
    reveal_with_fuel(field_entries, 7);
    let specs = standard_field_specs();
    let to = untis_lesson_text(l);
    assert(field_value(FieldKind::AdditionalInfo, to) == substitution_or_empty(l.subst_text));
    assert(field_entries(specs, None, to) =~= seq![
        FieldEntry::Normal("Subject"@, field_value(FieldKind::Subject, to)),
        FieldEntry::Normal("Time"@, field_value(FieldKind::Time, to)),
        FieldEntry::Normal("Teacher"@, field_value(FieldKind::Teacher, to)),
        FieldEntry::Normal("Room"@, field_value(FieldKind::Room, to)),
        FieldEntry::Normal("Status"@, field_value(FieldKind::Status, to)),
        FieldEntry::Normal("Additional Info"@, field_value(FieldKind::AdditionalInfo, to)),
    ]);
    if l.subjects@.len() > 0 {
        assert(texts(l.subjects@)[0] == l.subjects@[0]@);
    }
}

/// When the substitution text of a lesson changes, the last line of its
/// change message shows the old and the new text.
pub proof fn changed_substitution_text_is_reported(from: StoredLesson, to: UntisLesson)
    requires
        substitution_or_empty(from.subst_text) != substitution_or_empty(to.subst_text),
    ensures
        field_entries(standard_field_specs(), Some(stored_lesson_text(from)), untis_lesson_text(to)).last()
            == FieldEntry::Changed(
            "Additional Info"@,
            substitution_or_empty(from.subst_text),
            substitution_or_empty(to.subst_text),
            FieldVisibility::Always,
        ),
{
    let specs = standard_field_specs();
    let old = stored_lesson_text(from);
    let new = untis_lesson_text(to);
    assert(field_value(FieldKind::AdditionalInfo, old) == substitution_or_empty(from.subst_text));
    assert(field_value(FieldKind::AdditionalInfo, new) == substitution_or_empty(to.subst_text));
    assert(specs.last() == ("Additional Info"@, FieldKind::AdditionalInfo, FieldVisibility::Always));
    let e = field_entry(specs.last(), Some(old), new);
    assert(e == Some(FieldEntry::Changed(
        "Additional Info"@,
        substitution_or_empty(from.subst_text),
        substitution_or_empty(to.subst_text),
        FieldVisibility::Always,
    )));
    assert(field_entries(specs, Some(old), new) == field_entries(specs.drop_last(), Some(old), new) + seq![e->0]);
}

/// The name of the field that a line shows.
pub open spec fn entry_name(e: FieldEntry) -> Seq<char> {
    match e {
        FieldEntry::Normal(n, _) => n,
        FieldEntry::Changed(n, _, _, _) => n,
    }
}

/// The message of a changed lesson has one line for each standard field, in
/// the order subject, time, teacher, room, status, additional info.
pub proof fn change_message_has_a_line_per_field(from: StoredLesson, to: UntisLesson)
    ensures
        field_entries(standard_field_specs(), Some(stored_lesson_text(from)), untis_lesson_text(to)).map_values(
            |e: FieldEntry| entry_name(e),
        ) == seq!["Subject"@, "Time"@, "Teacher"@, "Room"@, "Status"@, "Additional Info"@],
{
    reveal_with_fuel(field_entries, 7);
    let specs = standard_field_specs();
    let es = field_entries(specs, Some(stored_lesson_text(from)), untis_lesson_text(to));
    assert(es.len() == 6);
    assert(es.map_values(|e: FieldEntry| entry_name(e)) =~= seq![
        "Subject"@,
        "Time"@,
        "Teacher"@,
        "Room"@,
        "Status"@,
        "Additional Info"@,
    ]);
}

} // verus!
