# untis_telegram_bot

A Telegram bot that watches an Untis timetable, reports lesson changes and keeps
a status message (current or next lesson, open homework, uptime) up to date.

- `src/` is the library, written in Verus: MarkdownV2 messages with a normal and a
  debug part (`message`), the lesson model and schedule diffs (`diff_impl`), the
  field-by-field change messages (`message_formatter`), the status message
  (`status`), a stable sort (`sorting`), dates and times (`calendar`), the
  decisions of a work round (`work`, `utils`), and the observer's decisions on
  which workers to stop, start and restart (`bot_service`). Text escaping comes from
  `teloxide::utils::markdown`, date and time text from `chrono`.
- `app/` is the program around it: the database observer's loop, the workers,
  the timetable service client and the Telegram calls.
- `tests/` runs the library on concrete lessons and messages.
