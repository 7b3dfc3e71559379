use untis_telegram_bot::calendar::{Date, Time};
use untis_telegram_bot::diff_impl::{LessonCode, LessonType, UntisLesson};
use untis_telegram_bot::message_formatter::plain_text::{
    format_added_diff, format_changed_diff, format_maybe_diff, FormatMaybeDiff,
};

fn lesson() -> UntisLesson {
    UntisLesson {
        id: 1,
        date: Date::from_ymd(2025, 5, 27).unwrap(),
        start_time: Time::from_hms(8, 0, 0).unwrap(),
        end_time: Time::from_hms(9, 30, 0).unwrap(),
        code: LessonCode::Regular,
        lesson_type: LessonType::Lesson,
        subst_text: None,
        subjects: vec!["Math".to_string()],
        teachers: vec!["John Doe".to_string()],
        rooms: vec!["Room 101".to_string()],
        classes: vec![],
        activity_type: "Unterricht".to_string(),
    }
}

#[test]
fn field_lines_say_what_changed() {
    let d = format_maybe_diff("Room", "1".to_string(), "2".to_string(), false);
    assert!(matches!(d, FormatMaybeDiff::Diff(_)));
    assert_eq!(d.render(true), "Room: 1 -> 2\n");
    let same = format_maybe_diff("Room", "1".to_string(), "1".to_string(), false);
    assert_eq!(same.render(true), "Room: 1\n");
    let ignored = format_maybe_diff("Info", "x".to_string(), "x".to_string(), true);
    assert_eq!(ignored.render(true), "");
    assert_eq!(ignored.render(false), "<DEBUG: ignored Info: x>");
}

#[test]
fn plain_summary_of_a_changed_lesson() {
    let from = lesson();
    let mut to = lesson();
    to.rooms[0] = "Room 202".to_string();
    to.code = LessonCode::Cancelled;
    assert_eq!(
        format_changed_diff(&from, &to, true),
        "Subject: Math\nTime: 08:00:00 - 09:30:00\nTeacher: John Doe\nRoom: Room 101 -> Room 202\nStatus: Regular -> Cancelled\n"
    );
    assert_eq!(
        format_changed_diff(&from, &to, false),
        "Subject: Math\nTime: 08:00:00 - 09:30:00\nTeacher: John Doe\nRoom: Room 101 -> Room 202\nStatus: Regular -> Cancelled\n<DEBUG: ignored Activity Type: Unterricht><DEBUG: ignored Additional Info: >"
    );
}

#[test]
fn plain_summary_of_an_unchanged_lesson_says_so() {
    let text = format_changed_diff(&lesson(), &lesson(), true);
    assert!(text.starts_with("Not found any changes for lessons: <"));
    assert!(text.ends_with(">\n"));
    let debug = format!("{:?}", lesson());
    assert_eq!(text, format!("Not found any changes for lessons: <{debug}> and <{debug}>\n"));
}

#[test]
fn plain_note_for_a_new_lesson() {
    assert_eq!(
        format_added_diff(&lesson()),
        "New record for lesson: Math\nRoom: Room 101\nTime: 08:00:00 - 09:30:00\nStatus: Regular\n"
    );
}
