//! When a screenshot was taken, which screenshots are new, and which are too old.

use vstd::prelude::*;
use vstd::utf8::valid_utf8;
use chrono::TimeZone;
use crate::shots::{copy_bytes, file_stem, newest_first, stem, views, Shot, Stamp};
use crate::text::{digit, split, split_bytes, utf8_text};

verus! {

// ---------------------------------------------------------------------------
// The time in a file name
// ---------------------------------------------------------------------------

pub open spec fn is_digit(b: u8) -> bool {
    0x30 <= b <= 0x39
}

pub open spec fn all_digits(s: Seq<u8>) -> bool {
    forall|i: int| 0 <= i < s.len() ==> is_digit(#[trigger] s[i])
}

/// The number that decimal digits write.
pub open spec fn digits_value(s: Seq<u8>) -> int
    decreases s.len(),
{
    if s.len() == 0 {
        0
    } else {
        digits_value(s.drop_last()) * 10 + (s.last() - 0x30)
    }
}

/// The 64-bit integer that `s` writes in decimal: digits, after a sign or not.
pub open spec fn integer_in(s: Seq<u8>) -> Option<i64> {
    let negative = s.len() > 0 && s[0] == 0x2d;
    let digits = if s.len() > 0 && (s[0] == 0x2d || s[0] == 0x2b) {
        s.skip(1)
    } else {
        s
    };
    let value = if negative {
        -digits_value(digits)
    } else {
        digits_value(digits)
    };
    if digits.len() > 0 && all_digits(digits) && i64::MIN <= value <= i64::MAX {
        Some(value as i64)
    } else {
        None
    }
}

/// The first of the parts that writes a number above a billion.
pub open spec fn first_time(parts: Seq<Seq<u8>>) -> Option<i64>
    decreases parts.len(),
{
    if parts.len() == 0 {
        None
    } else {
        match integer_in(parts[0]) {
            Some(n) => if n > 1_000_000_000 {
                Some(n)
            } else {
                first_time(parts.drop_first())
            },
            None => first_time(parts.drop_first()),
        }
    }
}

/// The Unix time in a file name such as `monado_screenshot_<unixtime>_<n>.png`.
pub open spec fn time_in_name(name: Seq<u8>) -> Option<i64> {
    if valid_utf8(stem(name)) {
        first_time(split(stem(name), 0x5f))
    } else {
        None
    }
}

/// The Unix time of a screenshot: the one in its name, else that of the file, unless
/// the file is older than the epoch.
pub open spec fn unix_time(name: Seq<u8>, mtime: Option<Stamp>) -> Option<i64> {
    match time_in_name(name) {
        Some(n) => Some(n),
        None => match mtime {
            Some(m) => if m.secs >= 0 {
                Some(m.secs)
            } else {
                None
            },
            None => None,
        },
    }
}

proof fn lemma_digits_grow(s: Seq<u8>, n: int)
    requires
        0 <= n <= s.len(),
        all_digits(s),
    ensures
        0 <= digits_value(s.take(n)) <= digits_value(s),
    decreases s.len(),
{
    if s.len() == 0 {
        assert(s.take(n) =~= s);
    } else if n == s.len() {
        assert(s.take(n) =~= s);
        lemma_digits_grow(s.drop_last(), n - 1);
        assert(s.drop_last().take(n - 1) =~= s.drop_last());
    } else {
        lemma_digits_grow(s.drop_last(), n);
        assert(s.drop_last().take(n) =~= s.take(n));
    }
}

/// The 64-bit integer that `s` writes in decimal.
pub fn parse_integer(s: &Vec<u8>) -> (r: Option<i64>)
    ensures
        r == integer_in(s@),
{
    let n: usize = s.len();
    let negative = n > 0 && s[0] == 0x2d;
    let start: usize = if n > 0 && (s[0] == 0x2d || s[0] == 0x2b) {
        1
    } else {
        0
    };
    let ghost digits = if start == 1 {
        s@.skip(1)
    } else {
        s@
    };
    assert(digits =~= s@.skip(start as int));
    if start == n {
        return None;
    }
    let limit: u128 = 0x8000_0000_0000_0000;
    let mut value: u128 = 0;
    let mut i: usize = start;
    while i < n
        invariant
            n == s@.len(),
            start <= i <= n,
            digits == s@.skip(start as int),
            negative == (n > 0 && s@[0] == 0x2d),
            digits == (if s@.len() > 0 && (s@[0] == 0x2d || s@[0] == 0x2b) {
                s@.skip(1)
            } else {
                s@
            }),
            limit == 0x8000_0000_0000_0000,
            value <= limit,
            value == digits_value(digits.take(i - start)),
            all_digits(digits.take(i - start)),
        decreases n - i,
    {
        let b = s[i];
        let ghost k = i - start;
        assert(digits[k] == b);
        if b < 0x30 || b > 0x39 {
            assert(!is_digit(digits[k]));
            return None;
        }
        assert(digits.take(k + 1).drop_last() =~= digits.take(k));
        value = value * 10 + (b - 0x30) as u128;
        assert(all_digits(digits.take(k + 1))) by {
            assert forall|j: int| 0 <= j < k + 1 implies is_digit(
                #[trigger] digits.take(k + 1)[j],
            ) by {
                if j < k {
                    assert(digits.take(k)[j] == digits.take(k + 1)[j]);
                }
            }
        }
        if value > limit {
            proof {
                if all_digits(digits) {
                    lemma_digits_grow(digits, k + 1);
                }
            }
            return None;
        }
        i = i + 1;
    }
    assert(digits.take(i - start) =~= digits);
    if negative {
        Some(-(value as i128) as i64)
    } else if value < limit {
        Some(value as i64)
    } else {
        None
    }
}

/// The Unix time of a screenshot, where it can be told.
pub fn shot_secs(name: &Vec<u8>, mtime: Option<Stamp>) -> (r: Option<i64>)
    ensures
        r == unix_time(name@, mtime),
{
    let stem_bytes = file_stem(name);
    if utf8_text(stem_bytes.as_slice()).is_some() {
        let parts = split_bytes(&stem_bytes, 0x5f);
        let ghost all = parts@.map_values(|p: Vec<u8>| p@);
        let mut i: usize = 0;
        assert(all.skip(0) =~= all);
        while i < parts.len()
            invariant
                i <= parts@.len(),
                all == parts@.map_values(|p: Vec<u8>| p@),
                first_time(all) == first_time(all.skip(i as int)),
                valid_utf8(stem(name@)),
                all == split(stem(name@), 0x5f),
            decreases parts@.len() - i,
        {
            assert(all.skip(i as int).drop_first() =~= all.skip(i + 1));
            assert(all.skip(i as int)[0] == parts@[i as int]@);
            if let Some(n) = parse_integer(&parts[i]) {
                if n > 1_000_000_000 {
                    return Some(n);
                }
            }
            i = i + 1;
        }
    }
    match mtime {
        Some(m) => if m.secs >= 0 {
            Some(m.secs)
        } else {
            None
        },
        None => None,
    }
}

// ---------------------------------------------------------------------------
// The time as text
// ---------------------------------------------------------------------------

/// Days from the epoch to a day of the Gregorian calendar.
pub open spec fn days_to(year: int, month: int, day: int) -> int {
    let y = if month <= 2 {
        year - 1
    } else {
        year
    };
    let from_march = if month > 2 {
        month - 3
    } else {
        month + 9
    };
    365 * y + y / 4 - y / 100 + y / 400 + (153 * from_march + 2) / 5 + day - 719469
}

pub open spec fn leap(year: int) -> bool {
    year % 4 == 0 && (year % 100 != 0 || year % 400 == 0)
}

pub open spec fn days_in_month(year: int, month: int) -> int {
    if month == 2 {
        if leap(year) {
            29
        } else {
            28
        }
    } else if month == 4 || month == 6 || month == 9 || month == 11 {
        30
    } else {
        31
    }
}

pub open spec fn two_digits(n: int) -> Seq<char> {
    seq![digit((n / 10) as nat), digit((n % 10) as nat)]
}

/// `year/month/day  hour:minute:second`, each with leading zeros.
pub open spec fn stamp_layout(year: int, month: int, day: int, second_of_day: int) -> Seq<char> {
    two_digits(year / 100) + two_digits(year % 100) + seq!['/'] + two_digits(month) + seq!['/']
        + two_digits(day) + seq![' ', ' '] + two_digits(second_of_day / 3600) + seq![':']
        + two_digits(second_of_day / 60 % 60) + seq![':'] + two_digits(second_of_day % 60)
}

/// Whether `text` is the date and time that lies `local` seconds after the epoch.
pub open spec fn tells(text: Seq<char>, local: int) -> bool {
    exists|year: int, month: int, day: int| #[trigger]
        days_to(year, month, day) == local / 86_400 && 1 <= month <= 12 && 1 <= day
            <= days_in_month(year, month) && text == stamp_layout(year, month, day, local % 86_400)
}

/// Whether `text` is that date and time, as far as it lies in the years 1970 to 9999.
pub open spec fn tells_common(text: Seq<char>, local: int) -> bool {
    0 <= local < 253_402_300_800 ==> tells(text, local)
}

/// The times and offsets that `chrono` can make a date of.
pub open spec fn in_range(secs: i64, east: i32) -> bool {
    -8_334_601_228_800 <= secs <= 8_210_266_876_799 && -86_400 < east < 86_400
}

/// The text that `chrono` gives for a time, `east` seconds ahead of UTC.
pub uninterp spec fn chrono_text(secs: i64, east: i32, pattern: Seq<char>) -> Seq<char>;

/// `chrono::FixedOffset::timestamp_opt` and `chrono::DateTime::format`: the text of a
/// time at an offset from UTC. The contract claims on which numbers it succeeds, names
/// the text, and says what it is for the years 1970 to 9999.
#[verifier::external_body]
fn format_at(secs: i64, east: i32, pattern: &str) -> (r: Option<String>)
    requires
        pattern@ == "%Y/%m/%d  %H:%M:%S"@,
    ensures
        match r {
            Some(t) => in_range(secs, east) && t@ == chrono_text(secs, east, pattern@)
                && tells_common(t@, secs + east),
            None => !in_range(secs, east),
        },
{
    let zone = chrono::FixedOffset::east_opt(east)?;
    Some(zone.timestamp_opt(secs, 0).single()?.format(pattern).to_string())
}

/// What [`shot_time`] shows for a time at an offset from UTC.
pub open spec fn shown_time(secs: Option<i64>, east: Option<i32>) -> Seq<char> {
    match (secs, east) {
        (Some(s), Some(e)) => if in_range(s, e) {
            chrono_text(s, e, "%Y/%m/%d  %H:%M:%S"@)
        } else {
            Seq::empty()
        },
        _ => Seq::empty(),
    }
}

/// The date and time of a screenshot for people to read, from its Unix time and from
/// how far local time then was ahead of UTC; empty where either is not known.
pub fn shot_time(secs: Option<i64>, east: Option<i32>) -> (r: String)
    ensures
        r@ == shown_time(secs, east),
        secs is Some && east is Some && in_range(secs->0, east->0) ==> tells_common(
            r@,
            secs->0 + east->0,
        ),
{
    match (secs, east) {
        (Some(s), Some(e)) => match format_at(s, e, "%Y/%m/%d  %H:%M:%S") {
            Some(text) => text,
            None => String::new(),
        },
        _ => String::new(),
    }
}

// ---------------------------------------------------------------------------
// New screenshots
// ---------------------------------------------------------------------------

/// How long after a look at the folder the next one is due, in nanoseconds.
pub const SCAN_INTERVAL: u64 = 1_000_000_000;

/// Watches the screenshot folder: the newest time seen and when it last looked.
pub struct Watcher {
    pub newest: Option<Stamp>,
    pub last_scan: u64,
}

/// Whether a screenshot of that time is newer than all seen.
pub open spec fn is_new(mtime: Stamp, newest: Option<Stamp>) -> bool {
    match newest {
        Some(n) => n.earlier(mtime),
        None => true,
    }
}

/// How many screenshots at the start of a listing are new.
pub open spec fn new_count(shots: Seq<(Seq<u8>, Stamp)>, newest: Option<Stamp>) -> nat
    decreases shots.len(),
{
    if shots.len() > 0 && is_new(shots[0].1, newest) {
        1 + new_count(shots.drop_first(), newest)
    } else {
        0
    }
}

/// The newest time seen once a listing has been looked at.
pub open spec fn newest_after(shots: Seq<(Seq<u8>, Stamp)>, newest: Option<Stamp>) -> Option<Stamp> {
    if shots.len() > 0 {
        Some(shots[0].1)
    } else {
        newest
    }
}

impl Watcher {
    /// A watcher to which everything in the listing at launch is already known.
    pub fn new(shots: &Vec<Shot>, now: u64) -> (r: Watcher)
        ensures
            r.newest == newest_after(views(shots@), None),
            r.last_scan == now,
    {
        let newest = if shots.len() > 0 {
            assert(views(shots@)[0].1 == shots@[0].mtime);
            Some(shots[0].mtime)
        } else {
            None
        };
        Watcher { newest, last_scan: now }
    }

    /// Whether it is time to look again. If so, the next look is due an interval later.
    pub fn due(&mut self, now: u64) -> (r: bool)
        ensures
            r == (now - old(self).last_scan > SCAN_INTERVAL),
            final(self).newest == old(self).newest,
            final(self).last_scan == (if r {
                now
            } else {
                old(self).last_scan
            }),
    {
        if now > self.last_scan && now - self.last_scan > SCAN_INTERVAL {
            self.last_scan = now;
            true
        } else {
            false
        }
    }

    /// How many screenshots at the start of a listing are new. They are no longer new
    /// afterwards.
    pub fn take_new(&mut self, shots: &Vec<Shot>) -> (r: usize)
        ensures
            r == new_count(views(shots@), old(self).newest),
            r <= shots@.len(),
            final(self).newest == newest_after(views(shots@), old(self).newest),
            final(self).last_scan == old(self).last_scan,
    {
        let ghost all = views(shots@);
        let mut n: usize = 0;
        assert(all.skip(0) =~= all);
        while n < shots.len() && self.counts(&shots[n].mtime)
            invariant
                n <= shots@.len(),
                all == views(shots@),
                *self == *old(self),
                new_count(all, self.newest) == n + new_count(all.skip(n as int), self.newest),
            decreases shots@.len() - n,
        {
            assert(all.skip(n as int).drop_first() =~= all.skip(n + 1));
            assert(all.skip(n as int)[0].1 == shots@[n as int].mtime);
            n = n + 1;
        }
        proof {
            if n < shots@.len() {
                assert(all.skip(n as int)[0].1 == shots@[n as int].mtime);
            }
        }
        if shots.len() > 0 {
            assert(all[0].1 == shots@[0].mtime);
            self.newest = Some(shots[0].mtime);
        }
        n
    }

    fn counts(&self, mtime: &Stamp) -> (r: bool)
        ensures
            r == is_new(*mtime, self.newest),
    {
        match self.newest {
            Some(n) => n.is_earlier(mtime),
            None => true,
        }
    }
}

/// A screenshot is new once: looking at the same listing again finds none.
pub proof fn law_new_once(shots: Seq<(Seq<u8>, Stamp)>, newest: Option<Stamp>)
    requires
        shots.len() > 0,
    ensures
        new_count(shots, newest_after(shots, newest)) == 0,
{
}

/// In a listing that is newest first, the new screenshots are exactly those taken after
/// the newest one seen before.
pub proof fn law_new_exactly(shots: Seq<(Seq<u8>, Stamp)>, newest: Option<Stamp>, i: int)
    requires
        newest_first(shots),
        0 <= i < shots.len(),
    ensures
        i < new_count(shots, newest) <==> is_new(shots[i].1, newest),
    decreases shots.len(),
{
    let rest = shots.drop_first();
    assert(newest_first(rest)) by {
        assert forall|a: int, b: int| 0 <= a < b < rest.len() implies !rest[a].1.earlier(
            rest[b].1,
        ) by {
            assert(!shots[a + 1].1.earlier(shots[b + 1].1));
        }
    }
    if i > 0 {
        law_new_exactly(rest, newest, i - 1);
        assert(rest[i - 1] == shots[i]);
        assert(!shots[0].1.earlier(shots[i].1));
    }
}

/// Removing screenshots makes none new: where a listing holds only what the one looked at
/// before held, nothing in it is new.
pub proof fn law_removal_is_not_new(
    before: Seq<(Seq<u8>, Stamp)>,
    after: Seq<(Seq<u8>, Stamp)>,
    newest: Option<Stamp>,
)
    requires
        newest_first(before),
        before.len() > 0,
        forall|i: int| 0 <= i < after.len() ==> before.contains(#[trigger] after[i]),
    ensures
        new_count(after, newest_after(before, newest)) == 0,
{
    if after.len() > 0 {
        let k = before.index_of(after[0]);
        assert(before.contains(after[0]));
        if k > 0 {
            assert(!before[0].1.earlier(before[k].1));
        }
    }
}

// ---------------------------------------------------------------------------
// Old screenshots
// ---------------------------------------------------------------------------

/// The time before which screenshots are too old, where there is one.
pub open spec fn cutoff(now: Stamp, days: int) -> Option<Stamp> {
    if days > 0 && now.secs - days * 86_400 >= i64::MIN {
        Some(Stamp { secs: (now.secs - days * 86_400) as i64, nanos: now.nanos })
    } else {
        None
    }
}

/// Whether a screenshot of that time is too old.
pub open spec fn too_old(mtime: Stamp, now: Stamp, days: int) -> bool {
    match cutoff(now, days) {
        Some(c) => mtime.earlier(c),
        None => false,
    }
}

/// The names of the screenshots in a listing that are too old, in its order.
pub open spec fn expired(shots: Seq<(Seq<u8>, Stamp)>, now: Stamp, days: int) -> Seq<Seq<u8>> {
    shots.filter(|s: (Seq<u8>, Stamp)| too_old(s.1, now, days)).map_values(
        |s: (Seq<u8>, Stamp)| s.0,
    )
}

/// The screenshots to remove on launch: those last changed more than `days` days before
/// `now`, and none where `days` is not positive.
pub fn cleanup_old(shots: &Vec<Shot>, now: Stamp, days: i32) -> (r: Vec<Vec<u8>>)
    ensures
        r@.map_values(|n: Vec<u8>| n@) == expired(views(shots@), now, days as int),
        days <= 0 ==> r@.len() == 0,
{
    let ghost all = views(shots@);
    let ghost old_one = |s: (Seq<u8>, Stamp)| too_old(s.1, now, days as int);
    let ghost first = |s: (Seq<u8>, Stamp)| s.0;
    let mut out: Vec<Vec<u8>> = Vec::new();
    proof {
        reveal(Seq::filter);
    }
    let limit = if days <= 0 {
        None
    } else {
        match now.secs.checked_sub(days as i64 * 86_400) {
            Some(secs) => Some(Stamp { secs, nanos: now.nanos }),
            None => None,
        }
    };
    assert(limit == cutoff(now, days as int));
    if let Some(c) = limit {
        let mut i: usize = 0;
        assert(out@.map_values(|n: Vec<u8>| n@) =~= all.take(0).filter(old_one).map_values(first));
        while i < shots.len()
            invariant
                i <= shots@.len(),
                all == views(shots@),
                cutoff(now, days as int) == Some(c),
                old_one == (|s: (Seq<u8>, Stamp)| too_old(s.1, now, days as int)),
                first == (|s: (Seq<u8>, Stamp)| s.0),
                out@.map_values(|n: Vec<u8>| n@) == all.take(i as int).filter(old_one).map_values(
                    first,
                ),
            decreases shots@.len() - i,
        {
            proof {
                reveal(Seq::filter);
                assert(all.take(i + 1).drop_last() =~= all.take(i as int));
                assert(all.take(i + 1).last() == shots@[i as int]@);
            }
            let ghost before = all.take(i as int).filter(old_one);
            let ghost names = out@.map_values(|n: Vec<u8>| n@);
            if shots[i].mtime.is_earlier(&c) {
                out.push(copy_bytes(&shots[i].name));
                assert(all.take(i + 1).filter(old_one) =~= before.push(shots@[i as int]@));
                assert(before.push(shots@[i as int]@).map_values(first) =~= names.push(
                    shots@[i as int].name@,
                ));
                assert(out@.map_values(|n: Vec<u8>| n@) =~= names.push(shots@[i as int].name@));
            } else {
                assert(all.take(i + 1).filter(old_one) =~= before);
            }
            i = i + 1;
        }
        assert(all.take(i as int) =~= all);
    } else {
        proof {
            lemma_filter_none(all, old_one);
        }
        assert(out@.map_values(|n: Vec<u8>| n@) =~= all.filter(old_one).map_values(first));
    }
    assert(expired(all, now, days as int) =~= all.filter(old_one).map_values(first));
    proof {
        if days <= 0 {
            assert(out@.map_values(|n: Vec<u8>| n@).len() == out@.len());
        }
    }
    out
}

/// A time in nanoseconds since the epoch.
pub open spec fn total_nanos(s: Stamp) -> int {
    s.secs * 1_000_000_000 + s.nanos
}

/// With `days` days to keep, a screenshot is too old exactly where it is older than that,
/// to the nanosecond; with none, it never is.
pub proof fn law_too_old_by_age(mtime: Stamp, now: Stamp, days: int)
    requires
        mtime.nanos < 1_000_000_000,
        now.nanos < 1_000_000_000,
        now.secs - days * 86_400 >= i64::MIN,
    ensures
        too_old(mtime, now, days) <==> days > 0 && total_nanos(now) - total_nanos(mtime) > days
            * 86_400 * 1_000_000_000,
{
}

proof fn lemma_filter_none<T>(s: Seq<T>, keep: spec_fn(T) -> bool)
    requires
        forall|x: T| !#[trigger] keep(x),
    ensures
        s.filter(keep).len() == 0,
    decreases s.len(),
{
    reveal(Seq::filter);
    if s.len() > 0 {
        lemma_filter_none(s.drop_last(), keep);
    }
}

// ---------------------------------------------------------------------------
// What times are told by
// ---------------------------------------------------------------------------

/// Where the name holds a time, that is the time of the screenshot, whatever the file's is.
/// Where it holds none, it is the file's, unless that is before the epoch or not known.
pub proof fn law_name_tells_time(name: Seq<u8>, m: Option<Stamp>, other: Option<Stamp>)
    ensures
        time_in_name(name) is Some ==> unix_time(name, m) == time_in_name(name) && unix_time(
            name,
            m,
        ) == unix_time(name, other),
        time_in_name(name) is None && m is Some && m->0.secs >= 0 ==> unix_time(name, m) == Some(
            m->0.secs,
        ),
        time_in_name(name) is None && (m is None || m->0.secs < 0) ==> unix_time(name, m) is None,
{
}

proof fn lemma_first_time(parts: Seq<Seq<u8>>, i: int, n: i64)
    requires
        0 <= i < parts.len(),
        integer_in(parts[i]) == Some(n),
        n > 1_000_000_000,
        forall|k: int|
            0 <= k < i ==> integer_in(#[trigger] parts[k]) is None || integer_in(parts[k])->0
                <= 1_000_000_000,
    ensures
        first_time(parts) == Some(n),
    decreases parts.len(),
{
    if i > 0 {
        let rest = parts.drop_first();
        assert forall|k: int| 0 <= k < i - 1 implies integer_in(#[trigger] rest[k]) is None
            || integer_in(rest[k])->0 <= 1_000_000_000 by {
            assert(rest[k] == parts[k + 1]);
        }
        lemma_first_time(rest, i - 1, n);
    }
}

proof fn lemma_no_time(parts: Seq<Seq<u8>>)
    requires
        forall|k: int|
            0 <= k < parts.len() ==> integer_in(#[trigger] parts[k]) is None || integer_in(
                parts[k],
            )->0 <= 1_000_000_000,
    ensures
        first_time(parts) is None,
    decreases parts.len(),
{
    if parts.len() > 0 {
        let rest = parts.drop_first();
        assert forall|k: int| 0 <= k < rest.len() implies integer_in(#[trigger] rest[k]) is None
            || integer_in(rest[k])->0 <= 1_000_000_000 by {
            assert(rest[k] == parts[k + 1]);
        }
        lemma_no_time(rest);
    }
}

/// The time in a name is the first number above a billion among the parts of its stem between
/// underscores.
pub proof fn law_first_number_counts(name: Seq<u8>, i: int, n: i64)
    requires
        valid_utf8(stem(name)),
        0 <= i < split(stem(name), 0x5f).len(),
        integer_in(split(stem(name), 0x5f)[i]) == Some(n),
        n > 1_000_000_000,
        forall|k: int|
            0 <= k < i ==> integer_in(#[trigger] split(stem(name), 0x5f)[k]) is None || integer_in(
                split(stem(name), 0x5f)[k],
            )->0 <= 1_000_000_000,
    ensures
        time_in_name(name) == Some(n),
{
    lemma_first_time(split(stem(name), 0x5f), i, n);
}

/// Where no part of the stem is a number above a billion, or the stem is no text, there is no
/// time in the name.
pub proof fn law_no_number_no_time(name: Seq<u8>)
    requires
        !valid_utf8(stem(name)) || forall|k: int|
            0 <= k < split(stem(name), 0x5f).len() ==> integer_in(
                #[trigger] split(stem(name), 0x5f)[k],
            ) is None || integer_in(split(stem(name), 0x5f)[k])->0 <= 1_000_000_000,
    ensures
        time_in_name(name) is None,
{
    if valid_utf8(stem(name)) {
        lemma_no_time(split(stem(name), 0x5f));
    }
}

/// A digit more at the end of a number is ten times the number and the digit.
pub proof fn law_number_with_digit(s: Seq<u8>, d: u8)
    requires
        integer_in(s) is Some,
        0x30 <= d <= 0x39,
    ensures
        ({
            let n = integer_in(s)->0;
            let more = if s[0] == 0x2d {
                n * 10 - (d - 0x30)
            } else {
                n * 10 + (d - 0x30)
            };
            integer_in(s.push(d)) == (if i64::MIN <= more <= i64::MAX {
                Some(more as i64)
            } else {
                None
            })
        }),
{
    let signed = s[0] == 0x2d || s[0] == 0x2b;
    let digits = if signed {
        s.skip(1)
    } else {
        s
    };
    let longer = if signed {
        s.push(d).skip(1)
    } else {
        s.push(d)
    };
    assert(longer =~= digits.push(d));
    assert(longer.drop_last() =~= digits);
    assert(all_digits(longer)) by {
        assert forall|i: int| 0 <= i < longer.len() implies is_digit(#[trigger] longer[i]) by {
            if i < digits.len() {
                assert(is_digit(digits[i]));
            }
        }
    }
}

/// A digit alone is its number, and so is it after a sign, negative after a minus.
pub proof fn law_single_digit(d: u8)
    requires
        0x30 <= d <= 0x39,
    ensures
        integer_in(seq![d]) == Some((d - 0x30) as i64),
        integer_in(seq![0x2bu8, d]) == Some((d - 0x30) as i64),
        integer_in(seq![0x2du8, d]) == Some((0x30 - d) as i64),
{
    reveal_with_fuel(digits_value, 2);
    assert(seq![0x2bu8, d].skip(1) =~= seq![d]);
    assert(seq![0x2du8, d].skip(1) =~= seq![d]);
    assert(seq![d].drop_last() =~= Seq::empty());
    assert(all_digits(seq![d]));
}

/// A number is digits alone, after a sign or not, and at least one.
pub proof fn law_numbers_are_digits(s: Seq<u8>, i: int)
    requires
        integer_in(s) is Some,
        0 <= i < s.len(),
    ensures
        0x30 <= s[i] <= 0x39 || (i == 0 && s.len() > 1 && (s[0] == 0x2d || s[0] == 0x2b)),
{
    let signed = s[0] == 0x2d || s[0] == 0x2b;
    if signed {
        if i > 0 {
            assert(is_digit(s.skip(1)[i - 1]));
        }
    } else {
        assert(is_digit(s[i]));
    }
}

/// Without digits there is no number.
pub proof fn law_no_digits_no_number()
    ensures
        integer_in(Seq::<u8>::empty()) is None,
        integer_in(seq![0x2du8]) is None,
        integer_in(seq![0x2bu8]) is None,
{
    assert(seq![0x2du8].skip(1) =~= Seq::empty());
    assert(seq![0x2bu8].skip(1) =~= Seq::empty());
}

/// A screenshot is new exactly where it is later, in seconds or else in nanoseconds, than the
/// newest seen, or where none was seen.
pub proof fn law_new_is_later(mtime: Stamp, newest: Stamp)
    ensures
        is_new(mtime, None),
        is_new(mtime, Some(newest)) <==> mtime.secs > newest.secs || (mtime.secs == newest.secs
            && mtime.nanos > newest.nanos),
{
}

/// Once a listing has been looked at, the newest time seen is one of its times and none of
/// them is later; an empty listing changes nothing.
pub proof fn law_newest_seen(shots: Seq<(Seq<u8>, Stamp)>, newest: Option<Stamp>, i: int)
    requires
        newest_first(shots),
        0 <= i < shots.len(),
    ensures
        newest_after(shots, newest) is Some,
        exists|k: int|
            0 <= k < shots.len() && (#[trigger] shots[k]).1 == newest_after(shots, newest)->0,
        !newest_after(shots, newest)->0.earlier(shots[i].1),
        newest_after(Seq::empty(), newest) == newest,
{
    assert(shots[0].1 == newest_after(shots, newest)->0);
    if i > 0 {
        assert(!shots[0].1.earlier(shots[i].1));
    }
}

/// Whether a screenshot is removed depends on it alone: one more in the folder is removed
/// where it is too old, and changes nothing for the others.
pub proof fn law_expired_one_by_one(
    shots: Seq<(Seq<u8>, Stamp)>,
    shot: (Seq<u8>, Stamp),
    now: Stamp,
    days: int,
)
    requires
        shot.1.nanos < 1_000_000_000,
        now.nanos < 1_000_000_000,
        now.secs - days * 86_400 >= i64::MIN,
    ensures
        expired(Seq::empty(), now, days) == Seq::<Seq<u8>>::empty(),
        expired(shots.push(shot), now, days) == (if days > 0 && total_nanos(now) - total_nanos(
            shot.1,
        ) > days * 86_400_000_000_000 {
            expired(shots, now, days).push(shot.0)
        } else {
            expired(shots, now, days)
        }),
{
    let old_one = |s: (Seq<u8>, Stamp)| too_old(s.1, now, days);
    let first = |s: (Seq<u8>, Stamp)| s.0;
    reveal(Seq::filter);
    law_too_old_by_age(shot.1, now, days);
    assert(shots.push(shot).drop_last() =~= shots);
    assert(shots.push(shot).last() == shot);
    assert(Seq::<(Seq<u8>, Stamp)>::empty().filter(old_one) =~= Seq::empty());
    assert(expired(Seq::empty(), now, days) =~= Seq::<Seq<u8>>::empty());
    if old_one(shot) {
        assert(shots.push(shot).filter(old_one) =~= shots.filter(old_one).push(shot));
        assert(shots.filter(old_one).push(shot).map_values(first) =~= shots.filter(
            old_one,
        ).map_values(first).push(shot.0));
    } else {
        assert(shots.push(shot).filter(old_one) =~= shots.filter(old_one));
    }
}

/// Where the time, or how far local time is ahead, is not known or out of range, nothing is
/// shown; otherwise the text of that time there is.
pub proof fn law_time_shown(secs: i64, east: i32)
    ensures
        shown_time(None, Some(east)) == Seq::<char>::empty(),
        shown_time(Some(secs), None) == Seq::<char>::empty(),
        -86_400 < east < 86_400 && -8_334_601_228_800 <= secs <= 8_210_266_876_799 ==> shown_time(
            Some(secs),
            Some(east),
        ) == chrono_text(secs, east, "%Y/%m/%d  %H:%M:%S"@),
        !(-86_400 < east < 86_400 && -8_334_601_228_800 <= secs <= 8_210_266_876_799)
            ==> shown_time(Some(secs), Some(east)) == Seq::<char>::empty(),
{
}

} // verus!
