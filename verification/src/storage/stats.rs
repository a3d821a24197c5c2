//! Counts of completed reminders: today, this week, per day of the last two
//! weeks, per hour of the day and per day of the week.
//!
//! Days and weeks are those of UTC where "now" is concerned. A completion is
//! counted under the day, hour and weekday of the offset under which its
//! time was written.

use vstd::prelude::*;
use crate::clock::{parse_rfc3339, rfc3339_instant, utc_date, utc_date_text, utc_now, Instant};
use crate::reminder::{ListType, Reminder, ReminderView};
use crate::storage::admission::{count_in_list, count_list, lemma_take_step, views};
use crate::storage::Storage;

verus! {

/// Seconds in a day.
pub const SECS_PER_DAY: i128 = 86_400;

/// Days that the per-day counts cover, today included.
pub const HISTORY_DAYS: usize = 14;

/// The day in which the second `secs` lies, counted from 1970-01-01.
pub open spec fn day_of(secs: int) -> int {
    secs / 86_400
}

/// The day of the week of a day, counted from Monday as 0. Day 0, the first
/// of January 1970, was a Thursday.
pub open spec fn weekday_of(day: int) -> int {
    (day + 3) % 7
}

/// The second of an instant on the clock under which it was written.
pub open spec fn local_secs(at: Instant) -> int {
    at.secs + at.offset
}

/// The hour of the day of an instant, on the clock under which it was
/// written.
pub open spec fn local_hour(at: Instant) -> int {
    (local_secs(at) % 86_400) / 3_600
}

/// The first second of the UTC day of `now`.
pub open spec fn today_start(now: Instant) -> int {
    day_of(now.secs as int) * 86_400
}

/// The first second of the UTC week of `now`: of its Monday.
pub open spec fn week_start(now: Instant) -> int {
    (day_of(now.secs as int) - weekday_of(day_of(now.secs as int))) * 86_400
}

/// A question asked of a completion time.
#[derive(Debug, Clone, Copy, PartialEq, Eq, Structural)]
pub enum Test {
    /// Is it at or after the second?
    Since(i128),
    /// Does it lie in the day, on its own clock?
    OnDay(i128),
    /// Does it lie in the hour of the day, on its own clock?
    InHour(u8),
    /// Does it lie on the day of the week, on its own clock?
    OnWeekday(u8),
}

/// Whether a completion time, if it could be read, passes the test.
pub open spec fn passes(test: Test, stamp: Option<Instant>) -> bool {
    match stamp {
        Some(at) => match test {
            Test::Since(secs) => at.secs >= secs,
            Test::OnDay(day) => day_of(local_secs(at)) == day,
            Test::InHour(hour) => local_hour(at) == hour,
            Test::OnWeekday(weekday) => weekday_of(day_of(local_secs(at))) == weekday,
        },
        None => false,
    }
}

/// The predicate "passes the test".
pub open spec fn passing(test: Test) -> spec_fn(Option<Instant>) -> bool {
    |stamp: Option<Instant>| passes(test, stamp)
}

/// The completion time of a reminder, if it has one that can be read.
pub open spec fn completion_instant(r: ReminderView) -> Option<Instant> {
    match r.completed_at {
        Some(t) => rfc3339_instant(t),
        None => None,
    }
}

/// The completion times of a list of reminders.
pub open spec fn stamps_of(list: Seq<ReminderView>) -> Seq<Option<Instant>> {
    list.map_values(|r: ReminderView| completion_instant(r))
}

/// How many of the completion times pass the test.
pub open spec fn tally(stamps: Seq<Option<Instant>>, test: Test) -> nat {
    stamps.filter(passing(test)).len()
}

/// The day that entry `k` of the per-day counts is about: the oldest day
/// comes first, today last.
pub open spec fn history_day(now: Instant, k: int) -> int {
    day_of(now.secs as int) - (HISTORY_DAYS - 1 - k)
}

/// Whether `r` holds the counts of today and of this week, seen at `now`.
pub open spec fn is_completion_stats(
    r: (usize, usize),
    completed: Seq<ReminderView>,
    now: Instant,
) -> bool {
    &&& r.0 == tally(stamps_of(completed), Test::Since(today_start(now) as i128))
    &&& r.1 == tally(stamps_of(completed), Test::Since(week_start(now) as i128))
}

/// Whether `days` holds, for each of the last fourteen days seen at `now`,
/// oldest first, the date of the day and the count of completions on it.
pub open spec fn is_history(
    days: Seq<(String, usize)>,
    completed: Seq<ReminderView>,
    now: Instant,
) -> bool {
    &&& days.len() == HISTORY_DAYS
    &&& forall|k: int|
        0 <= k < HISTORY_DAYS ==> (#[trigger] days[k]).0@ == utc_date_text(
            (history_day(now, k) * 86_400) as i64,
        ) && days[k].1 == tally(stamps_of(completed), Test::OnDay(history_day(now, k) as i128))
}

/// The day in which the second lies.
pub fn day_number(secs: i128) -> (day: i128)
    requires
        -0x1_0000_0000_0000_0000 < secs < 0x1_0000_0000_0000_0000,
    ensures
        day == day_of(secs as int),
        -0x1_0000_0000_0000 < day < 0x1_0000_0000_0000,
{
    if secs >= 0 {
        ((secs as u128) / 86_400) as i128
    } else {
        let up = ((-secs) as u128 + 86_399) / 86_400;
        -(up as i128)
    }
}

/// The day of the week of a day, counted from Monday as 0.
pub fn weekday_number(day: i128) -> (weekday: u8)
    requires
        -0x1_0000_0000_0000 < day < 0x1_0000_0000_0000,
    ensures
        weekday == weekday_of(day as int),
        weekday < 7,
{
    let shifted = day + 3;
    if shifted >= 0 {
        ((shifted as u128) % 7) as u8
    } else {
        let back = ((-shifted) as u128) % 7;
        if back == 0 {
            0
        } else {
            (7 - back) as u8
        }
    }
}

/// Decides whether a completion time passes the test.
pub fn check(test: Test, stamp: &Option<Instant>) -> (r: bool)
    ensures
        r == passes(test, *stamp),
{
    match stamp {
        Some(at) => {
            let local = at.secs as i128 + at.offset as i128;
            match test {
                Test::Since(secs) => at.secs as i128 >= secs,
                Test::OnDay(day) => day_number(local) == day,
                Test::InHour(hour) => {
                    let day = day_number(local);
                    let into_day = local - day * 86_400;
                    assert(into_day == local_secs(*at) % 86_400);
                    ((into_day as u128) / 3_600) as u8 == hour
                },
                Test::OnWeekday(weekday) => weekday_number(day_number(local)) == weekday,
            }
        },
        None => false,
    }
}

/// Reads the completion times of a list of reminders.
pub fn read_stamps(list: &Vec<Reminder>) -> (stamps: Vec<Option<Instant>>)
    ensures
        stamps@ == stamps_of(views(list@)),
{
    let mut stamps: Vec<Option<Instant>> = Vec::new();
    let mut i: usize = 0;
    while i < list.len()
        invariant
            i <= list.len(),
            stamps@ == stamps_of(views(list@)).take(i as int),
        decreases list.len() - i,
    {
        let stamp = match &list[i].completed_at {
            Some(t) => parse_rfc3339(t.as_str()),
            None => None,
        };
        stamps.push(stamp);
        assert(stamps@ =~= stamps_of(views(list@)).take(i as int + 1));
        i += 1;
    }
    assert(stamps_of(views(list@)).take(list.len() as int) =~= stamps_of(views(list@)));
    stamps
}

/// Counts the completion times that pass the test.
pub fn count_passing(stamps: &Vec<Option<Instant>>, test: Test) -> (n: usize)
    ensures
        n == tally(stamps@, test),
{
    let mut n: usize = 0;
    let mut i: usize = 0;
    proof {
        reveal(Seq::filter);
    }
    while i < stamps.len()
        invariant
            i <= stamps.len(),
            n <= i,
            n == tally(stamps@.take(i as int), test),
        decreases stamps.len() - i,
    {
        proof {
            reveal(Seq::filter);
            lemma_take_step(stamps@, i as int);
        }
        if check(test, &stamps[i]) {
            n += 1;
        }
        i += 1;
    }
    assert(stamps@.take(stamps.len() as int) =~= stamps@);
    n
}

/// The counts per hour of the day, or per day of the week: entry `k` counts
/// the completion times in hour `k`, or on weekday `k`.
pub fn distribution(stamps: &Vec<Option<Instant>>, by_hour: bool) -> (counts: Vec<usize>)
    ensures
        counts.len() == if by_hour { 24int } else { 7int },
        forall|k: int|
            0 <= k < counts.len() ==> #[trigger] counts[k] == tally(
                stamps@,
                if by_hour {
                    Test::InHour(k as u8)
                } else {
                    Test::OnWeekday(k as u8)
                },
            ),
{
    let size: u8 = if by_hour {
        24
    } else {
        7
    };
    let mut counts: Vec<usize> = Vec::new();
    let mut k: u8 = 0;
    while k < size
        invariant
            k <= size,
            size == if by_hour { 24int } else { 7int },
            counts.len() == k,
            forall|j: int|
                0 <= j < k ==> #[trigger] counts[j] == tally(
                    stamps@,
                    if by_hour {
                        Test::InHour(j as u8)
                    } else {
                        Test::OnWeekday(j as u8)
                    },
                ),
        decreases size - k,
    {
        let test = if by_hour {
            Test::InHour(k)
        } else {
            Test::OnWeekday(k)
        };
        counts.push(count_passing(stamps, test));
        k += 1;
    }
    counts
}

impl Storage {
    /// How many reminders were completed today and this week, taking `now`
    /// as the current time. Completion times that cannot be read count for
    /// nothing.
    pub fn get_completion_stats_at(&self, now: Instant) -> (r: (usize, usize))
        ensures
            is_completion_stats(r, self.data@.completed, now),
    {
        let stamps = read_stamps(&self.data.completed);
        let today = day_number(now.secs as i128);
        let monday = today - weekday_number(today) as i128;
        (
            count_passing(&stamps, Test::Since(today * 86_400)),
            count_passing(&stamps, Test::Since(monday * 86_400)),
        )
    }

    /// How many reminders were completed today and this week, at the time
    /// the clock shows.
    pub fn get_completion_stats(&self) -> (r: (usize, usize))
        ensures
            exists|now: Instant| is_completion_stats(r, self.data@.completed, now),
    {
        let now = utc_now();
        self.get_completion_stats_at(now)
    }

    /// The history of completions, taking `now` as the current time: for
    /// each of the last fourteen days, oldest first, its date and how many
    /// reminders were completed on it; the counts per hour of the day; the
    /// counts per day of the week, Monday first; and the size of the
    /// Backlog.
    pub fn get_historical_stats_at(&self, now: Instant) -> (r: (
        Vec<(String, usize)>,
        Vec<usize>,
        Vec<usize>,
        usize,
    ))
        ensures
            is_history(r.0@, self.data@.completed, now),
            r.1.len() == 24,
            forall|h: int|
                0 <= h < 24 ==> #[trigger] r.1[h] == tally(
                    stamps_of(self.data@.completed),
                    Test::InHour(h as u8),
                ),
            r.2.len() == 7,
            forall|d: int|
                0 <= d < 7 ==> #[trigger] r.2[d] == tally(
                    stamps_of(self.data@.completed),
                    Test::OnWeekday(d as u8),
                ),
            r.3 == count_list(self.data@.pending, ListType::Backlog),
    {
        let stamps = read_stamps(&self.data.completed);
        let today = day_number(now.secs as i128);
        let mut days: Vec<(String, usize)> = Vec::new();
        let mut k: usize = 0;
        while k < HISTORY_DAYS
            invariant
                k <= HISTORY_DAYS,
                today == day_of(now.secs as int),
                stamps@ == stamps_of(self.data@.completed),
                days.len() == k,
                forall|j: int|
                    0 <= j < k ==> (#[trigger] days[j]).0@ == utc_date_text(
                        (history_day(now, j) * 86_400) as i64,
                    ) && days[j].1 == tally(stamps@, Test::OnDay(history_day(now, j) as i128)),
            decreases HISTORY_DAYS - k,
        {
            let day = today - (HISTORY_DAYS - 1 - k) as i128;
            let midnight = day * 86_400;
            let label = utc_date(#[verifier::truncate] (midnight as i64));
            days.push((label, count_passing(&stamps, Test::OnDay(day))));
            k += 1;
        }
        let hourly = distribution(&stamps, true);
        let weekly = distribution(&stamps, false);
        let backlog = count_in_list(&self.data.pending, ListType::Backlog);
        (days, hourly, weekly, backlog)
    }

    /// The history of completions at the time the clock shows.
    pub fn get_historical_stats(&self) -> (r: (
        Vec<(String, usize)>,
        Vec<usize>,
        Vec<usize>,
        usize,
    ))
        ensures
            exists|now: Instant| is_history(r.0@, self.data@.completed, now),
            r.1.len() == 24,
            r.2.len() == 7,
            r.3 == count_list(self.data@.pending, ListType::Backlog),
            forall|h: int|
                0 <= h < 24 ==> #[trigger] r.1[h] == tally(
                    stamps_of(self.data@.completed),
                    Test::InHour(h as u8),
                ),
            forall|d: int|
                0 <= d < 7 ==> #[trigger] r.2[d] == tally(
                    stamps_of(self.data@.completed),
                    Test::OnWeekday(d as u8),
                ),
    {
        let now = utc_now();
        self.get_historical_stats_at(now)
    }
}

} // verus!
