//! Building blocks of a Telegram bot that watches an Untis timetable:
//! lesson diffs, field-by-field change summaries and MarkdownV2 messages
//! that carry a normal part and a debug-only part.

pub mod bot_service;
pub mod calendar;
pub mod diff_impl;
pub mod markdown;
pub mod message;
pub mod message_formatter;
pub mod sorting;
pub mod status;
pub mod text;
pub mod utils;
pub mod work;
