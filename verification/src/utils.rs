//! Date arithmetic for the timetable window, and the order of reported changes.
use vstd::prelude::*;
use crate::calendar::{weekday_index, Date, MAX_DAYS};
use crate::diff_impl::{Diff, DiffModel};
use crate::sorting::{sorted_by_key, stable_sort, with_key, Keyed, SortKey};

verus! {

/// Days from a date to the next Friday, the date itself when it is a Friday;
/// `weekday` counts from Monday.
pub open spec fn days_until_friday(weekday: int) -> int {
    (11 - weekday) % 7
}

/// The first Friday on or after `from`.
pub fn next_friday(from: Date) -> (r: Date)
    requires
        from.days() + days_until_friday(weekday_index(from.days())) <= MAX_DAYS,
    ensures
        r.days() == from.days() + days_until_friday(weekday_index(from.days())),
{
    let weekday = from.weekday_from_monday();
    let days_to_next_friday = (11 - weekday) % 7;
    from.add_days(days_to_next_friday)
}

/// The Friday found by `next_friday` is a Friday, it is never before the
/// starting date, and it is less than a week after it.
pub proof fn next_friday_is_the_first_friday(days: int)
    ensures
        weekday_index(days + days_until_friday(weekday_index(days))) == 4,
        0 <= days_until_friday(weekday_index(days)) < 7,
        forall|k: int|
            0 <= k < days_until_friday(weekday_index(days)) ==> #[trigger] weekday_index(days + k)
                != 4,
{
}

/// The sort key of a change: date, start, end, status code.
pub open spec fn diff_key(d: DiffModel) -> SortKey {
    match d {
        DiffModel::Added(l) => SortKey(
            l.date.days() as i64,
            l.start_time.secs() as i64,
            l.end_time.secs() as i64,
            l.code.rank() as i64,
        ),
        DiffModel::Changed(from, to) => SortKey(
            from.date.days() as i64,
            from.start_time.secs() as i64,
            from.end_time.secs() as i64,
            to.code.rank() as i64,
        ),
    }
}

impl<'a> Keyed for Diff<'a> {
    open spec fn sort_key(&self) -> SortKey {
        diff_key(self@)
    }

    fn key(&self) -> (k: SortKey) {
        let date = self.date().days_from_ce();
        let start = self.start_time().seconds_from_midnight();
        let end = self.end_time().seconds_from_midnight();
        let code = self.code().order();
        SortKey(date as i64, start as i64, end as i64, code as i64)
    }
}

/// Orders changes by date, then start, then end, then status code; changes
/// that agree on all four keep their order.
pub fn sort_diffs(diffs: &mut Vec<Diff>)
    ensures
        sorted_by_key(final(diffs)@),
        forall|k: SortKey| #[trigger] with_key(final(diffs)@, k) == with_key(old(diffs)@, k),
{
    let mut taken: Vec<Diff> = Vec::new();
    std::mem::swap(diffs, &mut taken);
    let sorted = stable_sort(taken);
    *diffs = sorted;
}

} // verus!
