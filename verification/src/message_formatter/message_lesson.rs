//! The lesson fields that message formatting reads, taken from a stored or a
//! fetched lesson.
use vstd::prelude::*;
use vstd::string::*;
use crate::calendar::Time;
use crate::diff_impl::{clone_texts, opt_text, texts, StoredLesson, UntisLesson};

verus! {

#[derive(Debug, Clone)]
pub struct MessageLesson {
    pub start_time: Time,
    pub end_time: Time,
    pub lesson_code: String,
    pub subst_text: Option<String>,
    pub subjects: Vec<String>,
    pub teachers: Vec<String>,
    pub rooms: Vec<String>,
    pub classes: Vec<String>,
}

/// The model of a `MessageLesson`: its times and its texts.
pub struct LessonText {
    pub start_time: Time,
    pub end_time: Time,
    pub lesson_code: Seq<char>,
    pub subst_text: Option<Seq<char>>,
    pub subjects: Seq<Seq<char>>,
    pub teachers: Seq<Seq<char>>,
    pub rooms: Seq<Seq<char>>,
    pub classes: Seq<Seq<char>>,
}

impl View for MessageLesson {
    type V = LessonText;

    open spec fn view(&self) -> LessonText {
        LessonText {
            start_time: self.start_time,
            end_time: self.end_time,
            lesson_code: self.lesson_code@,
            subst_text: opt_text(self.subst_text),
            subjects: texts(self.subjects@),
            teachers: texts(self.teachers@),
            rooms: texts(self.rooms@),
            classes: texts(self.classes@),
        }
    }
}

/// The formatting fields of a stored lesson.
pub open spec fn stored_lesson_text(src: StoredLesson) -> LessonText {
    LessonText {
        start_time: src.start_time,
        end_time: src.end_time,
        lesson_code: src.lesson_code@,
        subst_text: opt_text(src.subst_text),
        subjects: texts(src.subjects@),
        teachers: texts(src.teachers@),
        rooms: texts(src.rooms@),
        classes: texts(src.classes@),
    }
}

/// The formatting fields of a fetched lesson; the status code is written by name.
pub open spec fn untis_lesson_text(src: UntisLesson) -> LessonText {
    LessonText {
        start_time: src.start_time,
        end_time: src.end_time,
        lesson_code: src.code.text(),
        subst_text: opt_text(src.subst_text),
        subjects: texts(src.subjects@),
        teachers: texts(src.teachers@),
        rooms: texts(src.rooms@),
        classes: texts(src.classes@),
    }
}

impl MessageLesson {
    /// The formatting fields of a stored lesson.
    pub fn from_stored(src: &StoredLesson) -> (r: Self)
        ensures
            r@ == stored_lesson_text(*src),
    {
        MessageLesson {
            start_time: src.start_time,
            end_time: src.end_time,
            lesson_code: src.lesson_code.clone(),
            subst_text: match &src.subst_text {
                Some(s) => Some(s.clone()),
                None => None,
            },
            subjects: clone_texts(&src.subjects),
            teachers: clone_texts(&src.teachers),
            rooms: clone_texts(&src.rooms),
            classes: clone_texts(&src.classes),
        }
    }

    /// The formatting fields of a fetched lesson; its status code is written
    /// by name, as it is stored.
    pub fn from_untis(src: &UntisLesson) -> (r: Self)
        ensures
            r@ == untis_lesson_text(*src),
    {
        MessageLesson {
            start_time: src.start_time,
            end_time: src.end_time,
            lesson_code: String::from_str(src.code.as_str()),
            subst_text: match &src.subst_text {
                Some(s) => Some(s.clone()),
                None => None,
            },
            subjects: clone_texts(&src.subjects),
            teachers: clone_texts(&src.teachers),
            rooms: clone_texts(&src.rooms),
            classes: clone_texts(&src.classes),
        }
    }
}

} // verus!
