use untis_telegram_bot::calendar::{Date, Time};
use untis_telegram_bot::diff_impl::{sets_equal, Diff, LessonCode, LessonType, StoredLesson, UntisLesson};
use untis_telegram_bot::message::LabeledMessage;
use untis_telegram_bot::message_formatter::lesson_message::{apply_debug_info, format_message as core_format_message};
use untis_telegram_bot::message_formatter::MessageHeader;
use untis_telegram_bot::utils::sort_diffs;
use untis_telegram_bot::work::{Chat, TaskInfo};

fn strings(v: &[&str]) -> Vec<String> {
    v.iter().map(|s| s.to_string()).collect()
}

fn fetched(id: usize, day: u32, start: u32, code: LessonCode) -> UntisLesson {
    UntisLesson {
        id,
        date: Date::from_ymd(2025, 6, day).unwrap(),
        start_time: Time::from_hms(start, 0, 0).unwrap(),
        end_time: Time::from_hms(start + 1, 0, 0).unwrap(),
        code,
        lesson_type: LessonType::Lesson,
        subst_text: None,
        subjects: strings(&["Math", "Physics"]),
        teachers: strings(&["Doe"]),
        rooms: strings(&["101"]),
        classes: strings(&["5a"]),
        activity_type: "Unterricht".to_string(),
    }
}

fn stored_copy(l: &UntisLesson) -> StoredLesson {
    StoredLesson {
        lesson_id: l.id as i64,
        date: l.date,
        start_time: l.start_time,
        end_time: l.end_time,
        lesson_type: Some("Unterricht".to_string()),
        subst_text: l.subst_text.clone(),
        lesson_code: l.code.as_str().to_string(),
        subjects: l.subjects.iter().rev().cloned().collect(),
        teachers: l.teachers.clone(),
        rooms: l.rooms.clone(),
        classes: l.classes.clone(),
    }
}

fn task() -> TaskInfo {
    TaskInfo {
        notification_chat: Chat { id: 1, thread_id: None },
        status_chat: Chat { id: 1, thread_id: Some(2) },
        status_msg: None,
        untis_school: "school".to_string(),
        untis_login: "login".to_string(),
        untis_password: "SECRET-REDACTED".to_string(),
        target_class_name: None,
        task_name: "task".to_string(),
    }
}

#[test]
fn sets_equal_ignores_order_but_not_multiplicity() {
    assert!(sets_equal(&strings(&["a", "b", "a"]), &strings(&["b", "a", "a"])));
    assert!(!sets_equal(&strings(&["a", "b", "a"]), &strings(&["a", "b", "b"])));
    assert!(!sets_equal(&strings(&["a"]), &strings(&["a", "a"])));
    assert!(sets_equal(&strings(&[]), &strings(&[])));
}

#[test]
fn an_unchanged_schedule_has_no_diffs() {
    let new = vec![fetched(1, 2, 8, LessonCode::Regular), fetched(2, 2, 9, LessonCode::Regular)];
    let prev: Vec<StoredLesson> = new.iter().map(stored_copy).collect();
    assert!(Diff::find(&prev, &new).is_empty());
}

#[test]
fn find_reports_added_and_changed_lessons_in_order() {
    let new = vec![
        fetched(1, 2, 8, LessonCode::Regular),
        fetched(2, 2, 9, LessonCode::Cancelled),
        fetched(3, 3, 8, LessonCode::Regular),
    ];
    let mut prev: Vec<StoredLesson> = new[..2].iter().map(stored_copy).collect();
    prev[1].lesson_code = "Regular".to_string();
    let diffs = Diff::find(&prev, &new);
    assert_eq!(diffs.len(), 2);
    match diffs[0] {
        Diff::Changed { from, to } => {
            assert_eq!(from.lesson_id, 2);
            assert_eq!(to.id, 2);
        }
        Diff::Added(_) => panic!("expected a change"),
    }
    assert!(matches!(diffs[1], Diff::Added(l) if l.id == 3));
    assert_eq!(*diffs[0].code(), LessonCode::Cancelled);
    assert_eq!(diffs[1].date(), Date::from_ymd(2025, 6, 3).unwrap());
    assert_eq!(diffs[1].start_time(), Time::from_hms(8, 0, 0).unwrap());
    assert_eq!(diffs[1].end_time(), Time::from_hms(9, 0, 0).unwrap());
}

#[test]
fn a_changed_room_or_teacher_set_is_a_change() {
    let new = vec![fetched(7, 2, 8, LessonCode::Regular)];
    let mut prev: Vec<StoredLesson> = new.iter().map(stored_copy).collect();
    prev[0].teachers = strings(&["Doe", "Doe"]);
    assert_eq!(Diff::find(&prev, &new).len(), 1);
    prev[0].teachers = strings(&["Doe"]);
    prev[0].lesson_type = None;
    assert_eq!(Diff::find(&prev, &new).len(), 1);
}

#[test]
fn sort_diffs_orders_by_date_time_and_code_and_keeps_ties() {
    let lessons = vec![
        fetched(1, 3, 8, LessonCode::Regular),
        fetched(2, 2, 9, LessonCode::Cancelled),
        fetched(3, 2, 9, LessonCode::Irregular),
        fetched(4, 2, 8, LessonCode::Regular),
        fetched(5, 2, 9, LessonCode::Irregular),
    ];
    let prev: Vec<StoredLesson> = Vec::new();
    let mut diffs = Diff::find(&prev, &lessons);
    sort_diffs(&mut diffs);
    let ids: Vec<usize> = diffs
        .iter()
        .map(|d| match d {
            Diff::Added(l) => l.id,
            Diff::Changed { to, .. } => to.id,
        })
        .collect();
    assert_eq!(ids, vec![4, 3, 5, 2, 1]);
}

#[test]
fn core_dispatch_and_debug_info_name_the_subjects() {
    let new = vec![fetched(1, 2, 8, LessonCode::Cancelled)];
    let mut prev: Vec<StoredLesson> = new.iter().map(stored_copy).collect();
    prev[0].lesson_code = "Regular".to_string();
    let diffs = Diff::find(&prev, &new);
    let message = core_format_message(&diffs[0]).into_labeled_message().to_string();
    assert!(message.starts_with("Changes in lesson:\n"));
    assert!(message.contains("Status: `Regular` → `Cancelled`"));
    let mut m = LabeledMessage::new();
    apply_debug_info(&mut m, &task(), &diffs[0]);
    assert_eq!(m.to_string(), "Debug info: Changed lesson from Physics to Math");
    let _ = MessageHeader::Changed;
}

#[test]
fn debug_info_for_an_added_lesson_names_it() {
    let new = vec![fetched(1, 2, 8, LessonCode::Regular)];
    let prev: Vec<StoredLesson> = Vec::new();
    let diffs = Diff::find(&prev, &new);
    let mut m = LabeledMessage::new();
    untis_telegram_bot::message_formatter::apply_debug_info(&mut m, &task(), &diffs[0]);
    assert!(m.to_string().starts_with("Debug info: Added new lesson: "));
    let mut c = LabeledMessage::new();
    apply_debug_info(&mut c, &task(), &diffs[0]);
    assert_eq!(c.to_string(), "Debug info: Added new lesson for Math");
}

#[test]
fn a_refetched_schedule_matches_its_stored_form() {
    let new = vec![
        fetched(1, 2, 8, LessonCode::Regular),
        fetched(2, 2, 9, LessonCode::Irregular),
        fetched(3, 4, 10, LessonCode::Cancelled),
    ];
    let prev: Vec<StoredLesson> = new.iter().map(StoredLesson::from_fetched).collect();
    assert_eq!(prev[1].lesson_code, "Irregular");
    assert_eq!(prev[1].lesson_type.as_deref(), Some("Unterricht"));
    assert_eq!(prev[2].lesson_id, 3);
    assert!(Diff::find(&prev, &new).is_empty());
}

#[test]
fn reordering_the_lists_of_a_lesson_is_no_change() {
    let lesson = || {
        let mut l = fetched(1, 2, 8, LessonCode::Regular);
        l.teachers = strings(&["Doe", "Roe", "Doe"]);
        l.rooms = strings(&["101", "202"]);
        l.classes = strings(&["5a", "5b", "5c"]);
        l
    };
    let reordered = |teachers: &[&str]| {
        let mut prev = stored_copy(&lesson());
        prev.teachers = strings(teachers);
        prev.rooms = strings(&["202", "101"]);
        prev.classes = strings(&["5c", "5a", "5b"]);
        prev
    };
    assert!(Diff::find(&vec![reordered(&["Roe", "Doe", "Doe"])], &vec![lesson()]).is_empty());
    assert_eq!(Diff::find(&vec![reordered(&["Roe", "Roe", "Doe"])], &vec![lesson()]).len(), 1);
}

#[test]
fn debug_info_names_the_old_lesson_first_then_the_new_one() {
    let new = vec![fetched(1, 2, 8, LessonCode::Cancelled)];
    let mut prev: Vec<StoredLesson> = new.iter().map(stored_copy).collect();
    prev[0].lesson_code = "Regular".to_string();
    let diffs = Diff::find(&prev, &new);
    let mut m = LabeledMessage::new();
    untis_telegram_bot::message_formatter::apply_debug_info(&mut m, &task(), &diffs[0]);
    let text = m.to_string();
    let from = text.find("StoredLesson").unwrap();
    let to = text.find(" to ").unwrap();
    let new_at = text.find("UntisLesson").unwrap();
    assert!(text.starts_with("Debug info: Changed lesson from StoredLesson"));
    assert!(from < to && to < new_at);
    assert!(text.contains("Regular") && text.contains("Cancelled"));
}
