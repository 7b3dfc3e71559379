use untis_telegram_bot::calendar::{Date, Time};
use untis_telegram_bot::diff_impl::{Diff, LessonCode, LessonType, StoredLesson, UntisLesson};
use untis_telegram_bot::message_formatter::fields::{Field, FieldDiff, FieldVisibility, CHANGES_SEPARATOR};
use untis_telegram_bot::message_formatter::lesson_message::LessonMessage;
use untis_telegram_bot::message_formatter::{format_message, LessonDiffBlock, MessageField, MessageHeader};

#[test]
fn core_test_output() {
    let fields = vec![
        MessageField::Normal(Field {
            name: "Subject",
            value: "Math".to_string(),
        }),
        MessageField::Normal(Field {
            name: "Room",
            value: "101".to_string(),
        }),
        MessageField::Changed(FieldDiff {
            name: "Time",
            from: "08:00 - 09:30".to_string(),
            to: "09:00 - 10:30".to_string(),
            visibility: FieldVisibility::Always,
        }),
    ];

    let message = LessonMessage::new(MessageHeader::Changed, fields);
    let labeled = message.into_labeled_message();
    println!("{}", labeled.to_string());
}

#[test]
fn core_test_labeled_message_conversion() {
    let fields = vec![MessageField::Normal(Field {
        name: "Subject",
        value: "Math".to_string(),
    })];

    let message = LessonMessage::new(MessageHeader::Added, fields);
    let labeled = message.into_labeled_message();
    let output = labeled.to_string();

    assert!(output.contains("New lesson"));
    assert!(output.contains("Math"));
}

#[test]
fn mod_test_output() {
    let fields = vec![
        MessageField::Normal(Field {
            name: "Subject",
            value: "Math".to_string(),
        }),
        MessageField::Normal(Field {
            name: "Room",
            value: "101".to_string(),
        }),
        MessageField::Changed(FieldDiff {
            name: "Time",
            from: "08:00 - 09:30".to_string(),
            to: "09:00 - 10:30".to_string(),
            visibility: FieldVisibility::Always,
        }),
    ];

    let message = LessonDiffBlock::new(MessageHeader::Changed, fields);
    let labeled = message.into_labeled_message();
    println!("{}", labeled.to_string());
}

#[test]
fn mod_test_labeled_message_conversion() {
    let fields = vec![MessageField::Normal(Field {
        name: "Subject",
        value: "Math".to_string(),
    })];

    let message = LessonDiffBlock::new(MessageHeader::Added, fields);
    let labeled = message.into_labeled_message();
    let output = labeled.to_string();

    assert!(output.contains("New lesson"));
    assert!(output.contains("Math"));
}

#[test]
fn format_no_change_visible() {
    let diff = FieldDiff {
        name: "Room",
        from: "101".into(),
        to: "101".into(),
        visibility: FieldVisibility::Always,
    };
    let formatted = diff.format();
    assert_eq!(
        formatted.map(|s| s.to_string()),
        Some("Room: 101".to_string())
    );
}

#[test]
fn format_no_change_hidden_when_changed_visibility() {
    let diff = FieldDiff {
        name: "Status",
        from: "Regular".into(),
        to: "Regular".into(),
        visibility: FieldVisibility::Changed,
    };
    assert!(diff.format().is_none());
}

#[test]
fn format_added() {
    let diff = FieldDiff {
        name: "Activity Type",
        from: String::new(),
        to: "Exam".into(),
        visibility: FieldVisibility::Changed,
    };
    let formatted = diff.format().map(|msg| msg.to_string());
    assert_eq!(formatted.as_deref(), Some("Added Activity Type: `Exam`"));
}

#[test]
fn format_changed() {
    let diff = FieldDiff {
        name: "Room",
        from: "101".into(),
        to: "202".into(),
        visibility: FieldVisibility::Changed,
    };
    let formatted = diff.format().map(|msg| msg.to_string());
    assert_eq!(
        formatted.as_deref(),
        Some(format!("Room: `101`{CHANGES_SEPARATOR}`202`").as_str())
    );
}

#[test]
fn format_removed() {
    let diff = FieldDiff {
        name: "Teacher",
        from: "Smith".into(),
        to: String::new(),
        visibility: FieldVisibility::Changed,
    };
    // MarkdownV2 uses single tilde for strikethrough
    let formatted = diff.format().map(|msg| msg.to_string());
    assert_eq!(formatted.as_deref(), Some("Teacher: ~`Smith`~"));
}

#[test]
fn format_both_empty() {
    let diff = FieldDiff {
        name: "Additional Info",
        from: String::new(),
        to: String::new(),
        visibility: FieldVisibility::Always,
    };
    assert!(diff.format().is_none());
}

fn lesson_date() -> Date {
    Date::from_ymd(2025, 5, 27).unwrap()
}

fn untis_math_lesson() -> UntisLesson {
    UntisLesson {
        id: 2037263,
        date: lesson_date(),
        start_time: Time::from_hms(8, 0, 0).unwrap(),
        end_time: Time::from_hms(9, 30, 0).unwrap(),
        code: LessonCode::Regular,
        lesson_type: LessonType::Lesson,
        subst_text: None,
        subjects: vec!["Math".to_string()],
        teachers: vec!["John Doe".to_string()],
        rooms: vec!["Room 101".to_string()],
        classes: vec![],
        activity_type: "Unterricht".to_string(),
    }
}

fn stored_math_lesson() -> StoredLesson {
    StoredLesson {
        lesson_id: 2037263,
        date: lesson_date(),
        start_time: Time::from_hms(8, 0, 0).unwrap(),
        end_time: Time::from_hms(9, 30, 0).unwrap(),
        lesson_type: Some("Unterricht".to_string()),
        subst_text: None,
        lesson_code: "Regular".to_string(),
        subjects: vec!["Math".to_string()],
        teachers: vec!["John Doe".to_string()],
        rooms: vec!["Room 101".to_string()],
        classes: vec![],
    }
}

#[test]
fn test_format_message() {
    let prev = stored_math_lesson();
    let mut new = untis_math_lesson();
    new.rooms[0] = "Room 202".to_string();

    let old = [prev];
    let new = [new];
    let diff = Diff::find(&old, &new);

    let message = format_message(diff[0]).into_labeled_message().to_string();
    println!("{message}");
}

#[test]
fn format_message_shows_the_changed_room() {
    let prev = stored_math_lesson();
    let mut new = untis_math_lesson();
    new.rooms[0] = "Room 202".to_string();
    let old = [prev];
    let new = [new];
    let diff = Diff::find(&old, &new);
    assert_eq!(diff.len(), 1);
    let message = format_message(diff[0]).into_labeled_message().to_string();
    assert_eq!(
        message,
        "Changes in lesson:\nSubject: Math\nTime: 08:00:00 \\- 09:30:00\nTeacher: John Doe\nRoom: `Room 101` → `Room 202`\nStatus: Regular\nAdditional Info: "
    );
}

#[test]
fn format_message_for_an_added_lesson() {
    let new = [untis_math_lesson()];
    let old: [StoredLesson; 0] = [];
    let diff = Diff::find(&old, &new);
    assert_eq!(diff.len(), 1);
    assert!(matches!(diff[0], Diff::Added(_)));
    let message = format_message(diff[0]).into_labeled_message().to_string();
    assert_eq!(
        message,
        "New lesson:\nSubject: Math\nTime: 08:00:00 \\- 09:30:00\nTeacher: John Doe\nRoom: Room 101\nStatus: Regular\nAdditional Info: "
    );
}
