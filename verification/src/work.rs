//! What a worker knows about its task, and the decisions of one work round.
use vstd::prelude::*;
use vstd::string::*;
use crate::calendar::{formatted_date, hms_text, iso_date, weekday_index, weekday_name, Date, Time, MAX_DAYS};
use crate::diff_impl::{diff_debug_texts, texts, Diff, DiffModel, UntisLesson};
use crate::markdown::md_escape;
use crate::message::{
    as_debug, filter_normal_distributes_over_extend, normal_part, LabeledMessage, LabeledText,
};
use crate::message_formatter::{
    apply_debug_info, block_pieces, debug_info_pieces, diff_lesson_texts, format_message,
    lesson_messages_have_no_debug_pieces, MessageHeader,
};
use crate::message_formatter::fields::standard_field_specs;
use crate::message_formatter::formatters::field_entries;
use crate::status::Homework;
use crate::utils::{days_until_friday, next_friday};

verus! {

/// A Telegram chat, and a topic thread in it.
#[derive(Clone, Copy, Debug, PartialEq, Eq, Structural)]
pub struct Chat {
    pub id: i64,
    pub thread_id: Option<i32>,
}

/// One watched timetable: where to log in, and where to report.
#[derive(Debug, Clone)]
pub struct TaskInfo {
    pub notification_chat: Chat,
    pub status_chat: Chat,
    pub status_msg: Option<i32>,
    pub untis_school: String,
    pub untis_login: String,
    pub untis_password: String,
    pub target_class_name: Option<String>,
    pub task_name: String,
}

/// A school class as the timetable service lists it.
#[derive(Debug, Clone)]
pub struct SchoolClass {
    pub id: usize,
    pub name: String,
}

/// Index of the first class with the given name.
pub open spec fn first_class_named(classes: Seq<SchoolClass>, name: Seq<char>) -> Option<int>
    decreases classes.len(),
{
    if classes.len() == 0 {
        None
    } else {
        match first_class_named(classes.drop_last(), name) {
            Some(i) => Some(i),
            None => if classes.last().name@ == name {
                Some(classes.len() - 1)
            } else {
                None
            },
        }
    }
}

proof fn lemma_first_class_named_extend(s: Seq<SchoolClass>, extra: Seq<SchoolClass>, name: Seq<char>)
    requires
        first_class_named(s, name) is Some,
    ensures
        first_class_named(s + extra, name) == first_class_named(s, name),
    decreases extra.len(),
{
    if extra.len() == 0 {
        assert(s + extra =~= s);
    } else {
        lemma_first_class_named_extend(s, extra.drop_last(), name);
        assert((s + extra).drop_last() =~= s + extra.drop_last());
    }
}

/// The id of the first class with the given name, if there is one.
pub fn find_class_id(classes: &Vec<SchoolClass>, name: &String) -> (r: Option<usize>)
    ensures
        r is Some <==> first_class_named(classes@, name@) is Some,
        r matches Some(id) ==> id == classes@[first_class_named(classes@, name@)->0].id,
{
    let n = classes.len();
    for i in 0..n
        invariant
            n == classes@.len(),
            first_class_named(classes@.take(i as int), name@) is None,
    {
        proof {
            assert(classes@.take(i + 1).drop_last() =~= classes@.take(i as int));
        }
        if classes[i].name == *name {
            proof {
                lemma_first_class_named_extend(classes@.take(i + 1), classes@.skip(i + 1), name@);
                assert(classes@.take(i + 1) + classes@.skip(i + 1) =~= classes@);
            }
            return Some(classes[i].id);
        }
    }
    proof {
        assert(classes@.take(n as int) =~= classes@);
    }
    None
}

/// The last day of the timetable to fetch: two weeks after the next Friday.
pub fn timetable_horizon(today: Date) -> (r: Date)
    requires
        today.days() + days_until_friday(weekday_index(today.days())) + 14 <= MAX_DAYS,
    ensures
        r.days() == today.days() + days_until_friday(weekday_index(today.days())) + 14,
{
    let friday = next_friday(today);
    friday.add_days(14)
}

/// A lesson of today with the subject and the teacher of homework `h` that
/// has already ended at `now`.
pub open spec fn is_passed_lesson_of(l: UntisLesson, h: Homework, today: Date, now: Time) -> bool {
    &&& l.date == today
    &&& l.end_time.secs() <= now.secs()
    &&& texts(l.subjects@).contains(h.lesson_subject@)
    &&& texts(l.teachers@).contains(h.teacher_name@)
}

/// A homework entry is done with: it is due today and a lesson of its
/// subject with its teacher has already taken place today, at `now`.
pub open spec fn homework_expired(h: Homework, timetable: Seq<UntisLesson>, today: Date, now: Time) -> bool {
    h.due_date == today && exists|i: int|
        0 <= i < timetable.len() && is_passed_lesson_of(#[trigger] timetable[i], h, today, now)
}

fn contains_text(v: &Vec<String>, x: &String) -> (r: bool)
    ensures
        r == texts(v@).contains(x@),
{
    let n = v.len();
    for i in 0..n
        invariant
            n == v.len(),
            forall|j: int| 0 <= j < i ==> v@[j]@ != x@,
    {
        if v[i] == *x {
            proof {
                assert(texts(v@)[i as int] == x@);
            }
            return true;
        }
    }
    false
}

fn is_expired(h: &Homework, timetable: &[UntisLesson], today: Date, now: Time) -> (r: bool)
    ensures
        r == homework_expired(*h, timetable@, today, now),
{
    if h.due_date != today {
        return false;
    }
    let n = timetable.len();
    for i in 0..n
        invariant
            n == timetable@.len(),
            h.due_date == today,
            forall|j: int| 0 <= j < i ==> !is_passed_lesson_of(#[trigger] timetable@[j], *h, today, now),
    {
        let lesson = &timetable[i];
        if lesson.date == today && lesson.end_time.seconds_from_midnight() <= now.seconds_from_midnight()
            && contains_text(&lesson.subjects, &h.lesson_subject)
            && contains_text(&lesson.teachers, &h.teacher_name) {
            proof {
                assert(timetable@[i as int] == *lesson);
                assert(is_passed_lesson_of(timetable@[i as int], *h, today, now));
            }
            return true;
        }
    }
    false
}

/// The homework entries that are not done with at `now` of `today`, in
/// their order: one due today goes once its lesson has passed.
pub fn filter_expired_homeworks(
    homeworks: Vec<Homework>,
    timetable: &[UntisLesson],
    today: Date,
    now: Time,
) -> (r: Vec<Homework>)
    ensures
        r@ == homeworks@.filter(|h: Homework| !homework_expired(h, timetable@, today, now)),
{
    let ghost orig = homeworks@;
    let ghost pred = |h: Homework| !homework_expired(h, timetable@, today, now);
    let mut rest = homeworks;
    let mut kept: Vec<Homework> = Vec::new();
    while rest.len() > 0
        invariant
            rest@.len() <= orig.len(),
            rest@ == orig.skip(orig.len() - rest@.len()),
            kept@ == orig.take(orig.len() - rest@.len()).filter(pred),
            pred == (|h: Homework| !homework_expired(h, timetable@, today, now)),
        decreases rest.len(),
    {
        let ghost i = orig.len() - rest@.len();
        let h = rest.remove(0);
        proof {
            assert(h == orig[i]);
            assert(rest@ =~= orig.skip(i + 1));
            assert(orig.take(i + 1) =~= orig.take(i).push(h));
            orig.take(i).lemma_filter_push(h, pred);
        }
        if !is_expired(&h, timetable, today, now) {
            kept.push(h);
        }
    }
    proof {
        assert(orig.take(orig.len() as int) =~= orig);
    }
    kept
}

/// The date a change is filed under.
pub open spec fn diff_date(d: DiffModel) -> Date {
    match d {
        DiffModel::Added(l) => l.date,
        DiffModel::Changed(from, _) => from.date,
    }
}

/// The line that comes before change `i` of a report: a date heading for the
/// first change and whenever the date changes, a rule otherwise.
pub open spec fn report_separator(diffs: Seq<DiffModel>, i: int) -> Seq<char> {
    if i == 0 || diff_date(diffs[i]) != diff_date(diffs[i - 1]) {
        "\nDate: "@ + iso_date(diff_date(diffs[i]).days()) + " "@ + weekday_name(
            weekday_index(diff_date(diffs[i]).days()),
        ) + "\n"@
    } else {
        "----------------\n"@
    }
}

/// The lesson message of a change.
pub open spec fn diff_block(d: DiffModel) -> Seq<LabeledText> {
    block_pieces(
        if d is Added {
            MessageHeader::Added
        } else {
            MessageHeader::Changed
        },
        field_entries(standard_field_specs(), diff_lesson_texts(d).0, diff_lesson_texts(d).1),
    )
}

/// What readers of a change report see: for each change, its separator line,
/// its lesson message, and a line break.
pub open spec fn report_normal_view(diffs: Seq<DiffModel>) -> Seq<LabeledText>
    decreases diffs.len(),
{
    if diffs.len() == 0 {
        Seq::empty()
    } else {
        report_normal_view(diffs.drop_last()) + seq![
            LabeledText::Normal(md_escape(report_separator(diffs, diffs.len() - 1))),
        ] + diff_block(diffs.last()) + seq![LabeledText::Normal("\n"@)]
    }
}

/// The models of a list of changes.
pub open spec fn diff_models(diffs: Seq<Diff>) -> Seq<DiffModel> {
    diffs.map_values(|d: Diff| d@)
}

/// One change of a report as it stands in the message: the separator line
/// `sep`, the lesson message, a line break, and the debug copy of the lesson
/// message followed by the description of the change.
pub open spec fn report_entry_pieces(sep: Seq<char>, d: DiffModel) -> Seq<LabeledText> {
    seq![LabeledText::Normal(md_escape(sep))] + diff_block(d) + seq![LabeledText::Normal("\n"@)]
        + as_debug(diff_block(d) + debug_info_pieces(d, diff_debug_texts(d).0, diff_debug_texts(d).1))
}

/// The whole report of a list of changes.
pub open spec fn report_pieces(diffs: Seq<DiffModel>) -> Seq<LabeledText>
    decreases diffs.len(),
{
    if diffs.len() == 0 {
        Seq::empty()
    } else {
        report_pieces(diffs.drop_last()) + report_entry_pieces(
            report_separator(diffs, diffs.len() - 1),
            diffs.last(),
        )
    }
}

fn date_heading(date: Date) -> (r: String)
    ensures
        r@ == "\nDate: "@ + iso_date(date.days()) + " "@ + weekday_name(weekday_index(date.days())) + "\n"@,
{
    let mut r = String::from_str("\nDate: ");
    let iso = date.to_iso_string();
    r.append(iso.as_str());
    r.append(" ");
    let weekday = date.format("%A");
    r.append(weekday.as_str());
    r.append("\n");
    r
}

/// Appends one change to a report: the separator line, the lesson message,
/// and, after a line break, a debug copy of the message with a description of
/// the change.
fn append_report_entry(message: &mut LabeledMessage, separator: &str, diff: Diff, entry: &TaskInfo)
    ensures
        final(message)@ == old(message)@ + report_entry_pieces(separator@, diff@),
        normal_part(final(message)@) == normal_part(old(message)@) + seq![
            LabeledText::Normal(md_escape(separator@)),
        ] + diff_block(diff@) + seq![LabeledText::Normal("\n"@)],
{
    let ghost before = message@;
    message.push(separator);
    let formatted = format_message(diff).into_labeled_message();
    let ghost block = formatted@;
    proof {
        lesson_messages_have_no_debug_pieces(
            if diff@ is Added {
                MessageHeader::Added
            } else {
                MessageHeader::Changed
            },
            field_entries(standard_field_specs(), diff_lesson_texts(diff@).0, diff_lesson_texts(diff@).1),
        );
    }
    let normal = formatted.filter_normal();
    message.extend(normal);
    let mut debug_part = LabeledMessage::new();
    debug_part.extend(formatted);
    proof {
        assert(debug_part@ =~= block);
    }
    apply_debug_info(&mut debug_part, entry, &diff);
    let ghost after_block = message@;
    message.debug_ln(debug_part);
    proof {
        let sep_piece = seq![LabeledText::Normal(md_escape(separator@))];
        assert(after_block =~= before + sep_piece + block);
        assert(message@ =~= before + report_entry_pieces(separator@, diff@));
        crate::message::debug_pieces_stay_out_of_normal_view(after_block, debug_part@);
        filter_normal_distributes_over_extend(before, sep_piece);
        filter_normal_distributes_over_extend(before + sep_piece, block);
        crate::message::normal_pieces_are_their_own_normal_view(sep_piece);
        assert(normal_part(message@) =~= normal_part(before) + sep_piece + block + seq![LabeledText::Normal("\n"@)]);
    }
}

/// The report of a round's changes: for each change a separator line, its
/// lesson message, and, after a line break, a debug copy of that message
/// followed by a description of the change.
pub fn compose_diff_report(diffs: &Vec<Diff>, entry: &TaskInfo) -> (r: LabeledMessage)
    ensures
        normal_part(r@) == report_normal_view(diff_models(diffs@)),
        r@ == report_pieces(diff_models(diffs@)),
{
    let ghost models = diff_models(diffs@);
    let mut message = LabeledMessage::new();
    let mut prev_date: Option<Date> = None;
    let n = diffs.len();
    proof {
        assert(message@ =~= report_pieces(models.take(0)));
    }
    for i in 0..n
        invariant
            n == diffs@.len(),
            models == diff_models(diffs@),
            normal_part(message@) == report_normal_view(models.take(i as int)),
            message@ == report_pieces(models.take(i as int)),
            i > 0 ==> prev_date == Some(diff_date(models[i - 1])),
            i == 0 ==> prev_date is None,
    {
        let diff = diffs[i];
        let date = diff.date();
        let ghost t = models.take(i + 1);
        proof {
            assert(t.drop_last() =~= models.take(i as int));
            assert(t.last() == diff@);
            assert(t[i as int] == models[i as int]);
            if i > 0 {
                assert(t[i - 1] == models[i - 1]);
            }
        }
        let same_day = match prev_date {
            Some(p) => p == date,
            None => false,
        };
        let separator = if !same_day {
            prev_date = Some(date);
            date_heading(date)
        } else {
            String::from_str("----------------\n")
        };
        proof {
            assert(models[i as int] == diff@);
            assert(date == diff_date(t[i as int]));
            if i > 0 {
                assert(same_day == (diff_date(t[i as int]) == diff_date(t[i - 1])));
            } else {
                assert(!same_day);
            }
            if !same_day {
                assert(separator@ == "\nDate: "@ + iso_date(diff_date(t[i as int]).days()) + " "@ + weekday_name(
                    weekday_index(diff_date(t[i as int]).days())) + "\n"@);
            } else {
                assert(separator@ == "----------------\n"@);
            }
            assert(separator@ == report_separator(t, i as int));
        }
        let ghost before = message@;
        append_report_entry(&mut message, separator.as_str(), diff, entry);
        proof {
            assert(t.last() == models[i as int]);
            assert(message@ == report_pieces(t));
        }
    }
    proof {
        assert(models.take(n as int) =~= models);
    }
    message
}

/// What to do with the status message in a round.
#[derive(Clone, Copy, Debug, PartialEq, Eq, Structural)]
pub enum StatusAction {
    /// Edit the status message that was sent before.
    Edit(i32),
    /// Send a new status message.
    Send,
}

/// A status message that was sent before is edited; otherwise a new one is sent.
pub fn next_status_action(status_msg: Option<i32>) -> (r: StatusAction)
    ensures
        r == match status_msg {
            Some(id) => StatusAction::Edit(id),
            None => StatusAction::Send,
        },
{
    match status_msg {
        Some(id) => StatusAction::Edit(id),
        None => StatusAction::Send,
    }
}

/// The status message to remember after an action: a failed edit forgets the
/// message, so that the next round sends a new one; a sent message is
/// remembered by the id it was given.
pub fn status_msg_after(action: StatusAction, succeeded: bool, sent_id: Option<i32>) -> (r: Option<i32>)
    ensures
        r == match action {
            StatusAction::Edit(id) => if succeeded {
                Some(id)
            } else {
                None
            },
            StatusAction::Send => if succeeded {
                sent_id
            } else {
                None
            },
        },
{
    match action {
        StatusAction::Edit(id) => if succeeded {
            Some(id)
        } else {
            None
        },
        StatusAction::Send => if succeeded {
            sent_id
        } else {
            None
        },
    }
}

/// Whether round `round` of a worker sends the notice that it is alive: every
/// tenth round, starting with the first, and only in a development build.
pub fn sends_alive_notice(is_prod: bool, round: u32) -> (r: bool)
    ensures
        r == (!is_prod && round % 10 == 0),
{
    !is_prod && round % 10 == 0
}

/// The moment of a refresh as the status message shows it: the time as
/// `HH:MM:SS`, a space, and the date as `%a %d/%m/%y` writes it.
pub fn refresh_stamp(date: Date, time: Time) -> (r: String)
    ensures
        r@ == hms_text(time.secs()) + " "@ + formatted_date(date.days(), "%a %d/%m/%y"@),
{
    let mut r = time.to_hms_string();
    r.append(" ");
    let day = date.format("%a %d/%m/%y");
    r.append(day.as_str());
    r
}

/// Where the report of a round's changes goes, and whether each copy is
/// rendered without its debug pieces: nowhere when there are no changes;
/// otherwise, in a production build, to the task's chat and to the debug chat,
/// both without debug pieces; in a development build to the debug chat only,
/// with them.
pub fn report_deliveries(is_prod: bool, n_diffs: usize, notification_chat: Chat, debug_chat: Chat) -> (r: Vec<(Chat, bool)>)
    ensures
        r@ == (if n_diffs == 0 {
            Seq::<(Chat, bool)>::empty()
        } else if is_prod {
            seq![(notification_chat, true), (debug_chat, true)]
        } else {
            seq![(debug_chat, false)]
        }),
{
    let mut r: Vec<(Chat, bool)> = Vec::new();
    if n_diffs > 0 {
        if is_prod {
            r.push((notification_chat, true));
        }
        r.push((debug_chat, is_prod));
    }
    proof {
        if n_diffs > 0 && is_prod {
            assert(r@ =~= seq![(notification_chat, true), (debug_chat, true)]);
        } else if n_diffs > 0 {
            assert(r@ =~= seq![(debug_chat, false)]);
        } else {
            assert(r@ =~= Seq::<(Chat, bool)>::empty());
        }
    }
    r
}

/// In a report, a change gets the rule line exactly when it falls on the
/// date of the change before it; the first change, and each change on a new
/// date, gets the heading of its own date.
pub proof fn rule_line_exactly_between_changes_of_one_day(diffs: Seq<DiffModel>, i: int)
    requires
        0 <= i < diffs.len(),
    ensures
        i == 0 ==> report_separator(diffs, i) != "----------------\n"@,
        i > 0 ==> (report_separator(diffs, i) == "----------------\n"@ <==> diff_date(diffs[i])
            == diff_date(diffs[i - 1])),
        report_separator(diffs, i) != "----------------\n"@ ==> report_separator(diffs, i) == "\nDate: "@
            + iso_date(diff_date(diffs[i]).days()) + " "@ + weekday_name(
            weekday_index(diff_date(diffs[i]).days()),
        ) + "\n"@,
{
    reveal_strlit("----------------\n");
    reveal_strlit("\nDate: ");
    let sep = report_separator(diffs, i);
    if i == 0 || diff_date(diffs[i]) != diff_date(diffs[i - 1]) {
        let head = "\nDate: "@;
        let rest = iso_date(diff_date(diffs[i]).days()) + " "@ + weekday_name(
            weekday_index(diff_date(diffs[i]).days()),
        ) + "\n"@;
        assert(sep =~= head + rest);
        assert(sep[0] == '\n');
    }
}

/// Only homework due today can be done with, and only through a lesson of
/// today with its subject and its teacher that has ended by `now`.
pub proof fn expired_homework_is_due_today_and_its_lesson_has_ended(
    h: Homework,
    timetable: Seq<UntisLesson>,
    today: Date,
    now: Time,
)
    requires
        homework_expired(h, timetable, today, now),
    ensures
        h.due_date == today,
        exists|i: int|
            0 <= i < timetable.len() && (#[trigger] timetable[i]).date == today
                && timetable[i].end_time.secs() <= now.secs() && texts(timetable[i].subjects@).contains(
                h.lesson_subject@,
            ) && texts(timetable[i].teachers@).contains(h.teacher_name@),
{
}

/// The homework filter keeps every entry that is not due today, and every
/// entry whose lessons of today with its subject and teacher are all still to
/// come or under way at `now`.
pub proof fn homework_filter_keeps_what_is_not_done(
    homeworks: Seq<Homework>,
    timetable: Seq<UntisLesson>,
    today: Date,
    now: Time,
    k: int,
)
    requires
        0 <= k < homeworks.len(),
        homeworks[k].due_date != today || forall|i: int|
            0 <= i < timetable.len() && (#[trigger] timetable[i]).date == today && texts(
                timetable[i].subjects@,
            ).contains(homeworks[k].lesson_subject@) && texts(timetable[i].teachers@).contains(
                homeworks[k].teacher_name@,
            ) ==> timetable[i].end_time.secs() > now.secs(),
    ensures
        homeworks.filter(|h: Homework| !homework_expired(h, timetable, today, now)).contains(homeworks[k]),
{
    let pred = |h: Homework| !homework_expired(h, timetable, today, now);
    if homework_expired(homeworks[k], timetable, today, now) {
        expired_homework_is_due_today_and_its_lesson_has_ended(homeworks[k], timetable, today, now);
    }
    assert(pred(homeworks[k]));
    homeworks.lemma_filter_contains(pred, k);
}

} // verus!
