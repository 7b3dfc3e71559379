use untis_telegram_bot::calendar::{Date, Time};
use untis_telegram_bot::diff_impl::{LessonCode, LessonType, StoredLesson, UntisLesson, Diff};
use untis_telegram_bot::status::{find_nearest_lesson, into_uptime, Homework, NearestLesson, StatusMessage};
use untis_telegram_bot::text::{join, u64_text};
use untis_telegram_bot::work::{
    compose_diff_report, filter_expired_homeworks, find_class_id, next_status_action, refresh_stamp,
    report_deliveries, status_msg_after,
    Chat, SchoolClass, StatusAction, TaskInfo,
};

const FOOTER: &str = "||[\\(He keeps me in this basement full of care\\)](https://github.com/CleverWild/untis_telegram_bot)\n||";

fn date(d: u32) -> Date {
    Date::from_ymd(2025, 5, d).unwrap()
}

fn time(h: u32, m: u32) -> Time {
    Time::from_hms(h, m, 0).unwrap()
}

fn lesson(id: usize, day: u32, start: (u32, u32), end: (u32, u32), subject: &str, teacher: &str) -> UntisLesson {
    UntisLesson {
        id,
        date: date(day),
        start_time: time(start.0, start.1),
        end_time: time(end.0, end.1),
        code: LessonCode::Regular,
        lesson_type: LessonType::Lesson,
        subst_text: None,
        subjects: vec![subject.to_string()],
        teachers: if teacher.is_empty() { vec![] } else { vec![teacher.to_string()] },
        rooms: vec!["R1".to_string()],
        classes: vec![],
        activity_type: "Unterricht".to_string(),
    }
}

fn homework(subject: &str, teacher: &str, day: u32, due: u32, text: &str, done: bool) -> Homework {
    Homework {
        lesson_subject: subject.to_string(),
        teacher_name: teacher.to_string(),
        date: date(day),
        due_date: date(due),
        text: text.to_string(),
        is_completed: done,
    }
}

fn nearest_id(n: &Option<NearestLesson>) -> Option<(bool, usize)> {
    match n {
        Some(NearestLesson::Current(l)) => Some((true, l.id)),
        Some(NearestLesson::Next(l)) => Some((false, l.id)),
        None => None,
    }
}

#[test]
fn uptime_is_written_in_days_hours_minutes() {
    assert_eq!(into_uptime(0), "0 days, 0 hours, 0 minutes");
    assert_eq!(into_uptime(90061), "1 day, 1 hour, 1 minute");
    assert_eq!(into_uptime(2 * 86400 + 5 * 3600 + 59 * 60 + 59), "2 days, 5 hours, 59 minutes");
}

#[test]
fn numbers_and_lists_are_written_plainly() {
    assert_eq!(u64_text(0), "0");
    assert_eq!(u64_text(18446744073709551615), "18446744073709551615");
    let v = vec!["a".to_string(), "b".to_string(), "c".to_string()];
    assert_eq!(join(&v, ", "), "a, b, c");
    assert_eq!(join(&Vec::new(), ", "), "");
}

#[test]
fn ongoing_lesson_wins_over_the_next_one() {
    let timetable = vec![
        lesson(1, 27, (10, 0), (11, 0), "Art", "A"),
        lesson(2, 27, (8, 0), (9, 0), "Bio", "B"),
        lesson(3, 27, (8, 30), (9, 30), "Chem", "C"),
    ];
    let n = find_nearest_lesson(&timetable, date(27), time(8, 45));
    assert_eq!(nearest_id(&n), Some((true, 2)));
}

#[test]
fn next_lesson_is_the_earliest_upcoming_and_the_first_among_ties() {
    let timetable = vec![
        lesson(1, 28, (8, 0), (9, 0), "Art", "A"),
        lesson(2, 27, (8, 0), (9, 0), "Bio", "B"),
        lesson(3, 27, (12, 0), (13, 0), "Chem", "C"),
        lesson(4, 27, (12, 0), (13, 0), "Dance", "D"),
    ];
    let n = find_nearest_lesson(&timetable, date(27), time(9, 30));
    assert_eq!(nearest_id(&n), Some((false, 3)));
    let none = find_nearest_lesson(&timetable, date(28), time(10, 0));
    assert_eq!(nearest_id(&none), None);
}

#[test]
fn status_message_with_nothing_to_show() {
    let status = StatusMessage::new(vec![homework("Art", "A", 20, 21, "x", true)], &[], date(27), time(12, 0), 60);
    let text = status.into_message("12:00:00 Tue 27/05/25").to_string();
    assert_eq!(
        text,
        format!("*Homework list:*\n`Empty :)`\nUptime:  `0 days, 0 hours, 1 minute`\nLast refresh:  `12:00:00 Tue 27/05/25`\n{FOOTER}")
    );
}

#[test]
fn status_message_lists_open_homework_by_deadline() {
    let timetable = vec![lesson(9, 28, (8, 0), (9, 30), "Math", "Doe")];
    let homeworks = vec![
        homework("Bio", "B", 20, 30, "read", false),
        homework("Art", "A", 21, 29, "draw", false),
        homework("Chem", "C", 19, 29, "mix", false),
        homework("Old", "O", 1, 2, "done", true),
    ];
    let status = StatusMessage::new(homeworks, &timetable, date(27), time(10, 0), 3600);
    let text = status.into_message("now").to_string();
    let expected = String::new()
        + "*Next Lesson:*\n"
        + "  Subject: `Math`, Teacher: `Doe`, Room: `R1`\n  Time: `08:00 - 09:30`   `Wed 28/05/25`\n\n"
        + "*Homework list:*\n"
        + "• Lesson: `Chem`, Teacher: `C`\n  Created at:  `Mon 19/05/25`\n  Deadline:     `Thu 29/05/25`\n  Task:  `mix`\n\n"
        + "• Lesson: `Art`, Teacher: `A`\n  Created at:  `Wed 21/05/25`\n  Deadline:     `Thu 29/05/25`\n  Task:  `draw`\n\n"
        + "• Lesson: `Bio`, Teacher: `B`\n  Created at:  `Tue 20/05/25`\n  Deadline:     `Fri 30/05/25`\n  Task:  `read`\n\n"
        + "Uptime:  `0 days, 1 hour, 0 minutes`\n"
        + "Last refresh:  `now`\n"
        + FOOTER;
    assert_eq!(text, expected);
}

#[test]
fn current_lesson_of_today_shows_no_date() {
    let timetable = vec![lesson(9, 27, (8, 0), (9, 30), "Math", "")];
    let status = StatusMessage::new(Vec::new(), &timetable, date(27), time(9, 0), 0);
    let text = status.into_message("now").to_string();
    assert!(text.starts_with("*Current Lesson:*\n  Subject: `Math`, Room: `R1`\n  Time: `08:00 - 09:30`\n\n*Homework list:*"));
}

#[test]
fn homework_due_today_is_dropped_once_its_lesson_took_place() {
    let timetable = vec![
        lesson(1, 27, (8, 0), (9, 0), "Math", "Doe"),
        lesson(2, 28, (8, 0), (9, 0), "Bio", "Roe"),
    ];
    let homeworks = vec![
        homework("Math", "Doe", 20, 27, "a", false),
        homework("Math", "Poe", 20, 27, "b", false),
        homework("Bio", "Roe", 20, 27, "c", false),
        homework("Math", "Doe", 20, 28, "d", false),
    ];
    let kept = filter_expired_homeworks(homeworks, &timetable, date(27), time(9, 0));
    let texts: Vec<&str> = kept.iter().map(|h| h.text.as_str()).collect();
    assert_eq!(texts, vec!["b", "c", "d"]);
}

#[test]
fn homework_due_today_stays_until_its_lesson_has_ended() {
    let timetable = vec![lesson(1, 27, (8, 0), (9, 0), "Math", "Doe")];
    let homeworks = || vec![homework("Math", "Doe", 20, 27, "a", false)];
    assert_eq!(filter_expired_homeworks(homeworks(), &timetable, date(27), time(7, 0)).len(), 1);
    assert_eq!(filter_expired_homeworks(homeworks(), &timetable, date(27), time(8, 59)).len(), 1);
    assert_eq!(filter_expired_homeworks(homeworks(), &timetable, date(27), time(9, 0)).len(), 0);
    assert_eq!(filter_expired_homeworks(homeworks(), &timetable, date(28), time(23, 0)).len(), 1);
}

#[test]
fn refresh_stamp_shows_time_then_short_date() {
    assert_eq!(refresh_stamp(date(27), time(8, 5)), "08:05:00 Tue 27/05/25");
}

#[test]
fn reports_go_to_the_task_chat_only_in_production() {
    let task_chat = Chat { id: 1, thread_id: Some(3) };
    let debug_chat = Chat { id: 2, thread_id: None };
    assert!(report_deliveries(true, 0, task_chat, debug_chat).is_empty());
    assert!(report_deliveries(false, 0, task_chat, debug_chat).is_empty());
    assert_eq!(report_deliveries(true, 2, task_chat, debug_chat), vec![(task_chat, true), (debug_chat, true)]);
    assert_eq!(report_deliveries(false, 1, task_chat, debug_chat), vec![(debug_chat, false)]);
}

#[test]
fn class_is_found_by_its_first_exact_name() {
    let classes = vec![
        SchoolClass { id: 3, name: "5a".to_string() },
        SchoolClass { id: 4, name: "5b".to_string() },
        SchoolClass { id: 5, name: "5b".to_string() },
    ];
    assert_eq!(find_class_id(&classes, &"5b".to_string()), Some(4));
    assert_eq!(find_class_id(&classes, &"5c".to_string()), None);
}

#[test]
fn status_message_is_edited_or_sent() {
    assert_eq!(next_status_action(Some(7)), StatusAction::Edit(7));
    assert_eq!(next_status_action(None), StatusAction::Send);
    assert_eq!(status_msg_after(StatusAction::Edit(7), true, None), Some(7));
    assert_eq!(status_msg_after(StatusAction::Edit(7), false, None), None);
    assert_eq!(status_msg_after(StatusAction::Send, true, Some(9)), Some(9));
    assert_eq!(status_msg_after(StatusAction::Send, false, None), None);
}

#[test]
fn change_report_separates_days_and_hides_debug_in_production() {
    let new = vec![
        lesson(1, 27, (8, 0), (9, 0), "Math", "Doe"),
        lesson(2, 27, (9, 0), (10, 0), "Bio", "Roe"),
        lesson(3, 28, (8, 0), (9, 0), "Art", "Poe"),
    ];
    let prev: Vec<StoredLesson> = Vec::new();
    let diffs = Diff::find(&prev, &new);
    let task = TaskInfo {
        notification_chat: Chat { id: 1, thread_id: None },
        status_chat: Chat { id: 1, thread_id: None },
        status_msg: None,
        untis_school: String::new(),
        untis_login: String::new(),
        untis_password: String::new(),
        target_class_name: None,
        task_name: "t".to_string(),
    };
    let report = compose_diff_report(&diffs, &task);
    let prod = report.render(true);
    let block = |s: &str, t: &str, start: &str, end: &str| {
        format!("New lesson:\nSubject: {s}\nTime: {start} \\- {end}\nTeacher: {t}\nRoom: R1\nStatus: Regular\nAdditional Info: \n")
    };
    let expected = format!(
        "\nDate: 2025\\-05\\-27 Tuesday\n{}\\-\\-\\-\\-\\-\\-\\-\\-\\-\\-\\-\\-\\-\\-\\-\\-\n{}\nDate: 2025\\-05\\-28 Wednesday\n{}",
        block("Math", "Doe", "08:00:00", "09:00:00"),
        block("Bio", "Roe", "09:00:00", "10:00:00"),
        block("Art", "Poe", "08:00:00", "09:00:00"),
    );
    assert_eq!(prod, expected);
    assert_eq!(report.filter_normal().to_string(), expected);
    assert!(report.to_string().contains("DEBUG"));
    assert_eq!(report.to_string().matches("Debug info: Added new lesson: ").count(), 3);
    assert_eq!(report.to_string().matches("New lesson:").count(), 6);
}
