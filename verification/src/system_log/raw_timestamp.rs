//! Raw timestamps as read off a log line, and the resolution ("cooking") of a
//! partial timestamp into a full one.
//!
//! A partial timestamp has month, day and time of day but no year. Its year is
//! recovered by picking, among the reference year and its two neighbours,
//! the candidate date closest in time to a reference instant.

use crate::bytes::{all_digits, digit_val, digits_val, is_digit, parse_signed, parse_u32};
use crate::calendar::{
    epoch_seconds, epoch_seconds_exec, lemma_epoch_days_year_step, valid_ymd, valid_ymd_exec,
    DateTime, OffsetDateTime, TimeOfDay,
};
use crate::system_log::{EntryParseError, Timestamp};
use vstd::math::abs;
use vstd::prelude::*;

verus! {

/// A timestamp as written on a log line: either complete with a UTC offset,
/// or partial (month, day, time of day; no year, no offset).
#[derive(Debug, Copy, Clone)]
pub enum RawTimestamp {
    Partial(u8, u8, TimeOfDay),
    FixedOffset(OffsetDateTime),
}

impl RawTimestamp {
    /// Field ranges a parsed raw timestamp always satisfies.
    pub open spec fn wf(self) -> bool {
        match self {
            RawTimestamp::Partial(m, d, t) => 1 <= m <= 12 && 1 <= d <= 31 && t.wf(),
            RawTimestamp::FixedOffset(odt) => odt.wf(),
        }
    }
}

/// The candidate date for one year choice: the partial fields with year `y`,
/// if that names an existing calendar date.
pub open spec fn candidate(y: int, m: u8, d: u8, t: TimeOfDay) -> Option<DateTime> {
    if valid_ymd(y, m as int, d as int) {
        Some(
            DateTime {
                year: y as i32,
                month: m,
                day: d,
                time: t,
            },
        )
    } else {
        None
    }
}

/// Distance in whole seconds between a candidate date-time and the reference
/// instant `r` (given in epoch seconds).
pub open spec fn distance(c: DateTime, r: int) -> int {
    abs(epoch_seconds(c) - r) as int
}

/// Of two optional candidates, the one closer to `r`; the first wins ties.
pub open spec fn closer_to(a: Option<DateTime>, b: Option<DateTime>, r: int) -> Option<DateTime> {
    match (a, b) {
        (Option::None, _) => b,
        (Option::Some(_), Option::None) => a,
        (Option::Some(x), Option::Some(y)) => if distance(y, r) < distance(x, r) {
            b
        } else {
            a
        },
    }
}

/// The resolution of a partial timestamp against reference date-time `rf`:
/// among the candidates for the reference year, the year before and the year
/// after (in that order), the one closest in seconds to the reference, earlier
/// candidates winning ties. `None` when no candidate names an existing date.
pub open spec fn resolve_partial(m: u8, d: u8, t: TimeOfDay, rf: DateTime) -> Option<DateTime> {
    let r = epoch_seconds(rf);
    let y = rf.year as int;
    closer_to(closer_to(candidate(y, m, d, t), candidate(y - 1, m, d, t), r), candidate(y + 1, m, d, t), r)
}

/// The reference date-time used to resolve a partial timestamp: the successor
/// entry's timestamp when that is itself naive, else the log's own reference
/// instant.
pub open spec fn reference_of(successor: Option<Timestamp>, now: DateTime) -> DateTime {
    match successor {
        Option::Some(Timestamp::Naive(later)) => later,
        _ => now,
    }
}

/// What resolving a raw timestamp yields, for every combination of inputs.
pub open spec fn resolve_spec(
    raw: RawTimestamp,
    successor: Option<Timestamp>,
    now: DateTime,
) -> Result<Timestamp, EntryParseError> {
    match raw {
        RawTimestamp::FixedOffset(odt) => Result::Ok(Timestamp::FixedOffset(odt)),
        RawTimestamp::Partial(m, d, t) => {
            match resolve_partial(m, d, t, reference_of(successor, now)) {
                Option::Some(c) => Result::Ok(Timestamp::Naive(c)),
                Option::None => Result::Err(EntryParseError),
            }
        },
    }
}

impl RawTimestamp {
    /// Resolve this raw timestamp to a full one.
    ///
    /// A timestamp that already carries an offset is returned unchanged. A
    /// partial one is anchored to the successor's timestamp when that is
    /// naive, else to `now`, and the closest of the adjacent-year candidates
    /// is chosen; the current-year candidate is preferred outright when it
    /// lies within 180 days of the anchor, which the adjacent years then
    /// cannot beat.
    pub fn into_timestamp(self, successor: Option<Timestamp>, now: &DateTime) -> (r: Result<
        Timestamp,
        EntryParseError,
    >)
        requires
            self.wf(),
            now.wf(),
            successor matches Some(Timestamp::Naive(later)) ==> later.wf(),
        ensures
            r == resolve_spec(self, successor, *now),
            r matches Ok(ts) ==> ts.wf(),
    {
        let (m, d, t, rf): (u8, u8, TimeOfDay, DateTime) = match (self, successor) {
            (RawTimestamp::FixedOffset(odt), _) => {
                return Ok(Timestamp::FixedOffset(odt));
            },
            (RawTimestamp::Partial(m, d, t), Some(Timestamp::Naive(later))) => (m, d, t, later),
            (RawTimestamp::Partial(m, d, t), _) => (m, d, t, *now),
        };
        let rsec = epoch_seconds_exec(&rf);
        let ghost rr = epoch_seconds(rf);
        let ghost y = rf.year as int;

        // Fast path: a current-year candidate within 180 days of the anchor.
        if valid_ymd_exec(rf.year, m, d) {
            let c = DateTime { year: rf.year, month: m, day: d, time: t };
            let csec = epoch_seconds_exec(&c);
            let diff: i64 = if csec >= rsec {
                csec - rsec
            } else {
                rsec - csec
            };
            if diff < 180 * 86400 {
                proof {
                    lemma_adjacent_years_farther(m, d, t, rf);
                }
                return Ok(Timestamp::Naive(c));
            }
        }
        // General case: gather the valid candidates in order and keep the
        // first one with the smallest distance.
        let mut best: Option<DateTime> = None;
        let mut best_dist: i64 = 0;
        if valid_ymd_exec(rf.year, m, d) {
            let c = DateTime { year: rf.year, month: m, day: d, time: t };
            let csec = epoch_seconds_exec(&c);
            best = Some(c);
            best_dist = if csec >= rsec {
                csec - rsec
            } else {
                rsec - csec
            };
        }
        assert(best == closer_to(candidate(y, m, d, t), Option::<DateTime>::None, rr));
        assert((best matches Some(c)) ==> best_dist == distance(best->Some_0, rr));
        if valid_ymd_exec(rf.year - 1, m, d) {
            let c = DateTime { year: rf.year - 1, month: m, day: d, time: t };
            let csec = epoch_seconds_exec(&c);
            let dd: i64 = if csec >= rsec {
                csec - rsec
            } else {
                rsec - csec
            };
            if best.is_none() || dd < best_dist {
                best = Some(c);
                best_dist = dd;
            }
        }
        assert(best == closer_to(candidate(y, m, d, t), candidate(y - 1, m, d, t), rr));
        if valid_ymd_exec(rf.year + 1, m, d) {
            let c = DateTime { year: rf.year + 1, month: m, day: d, time: t };
            let csec = epoch_seconds_exec(&c);
            let dd: i64 = if csec >= rsec {
                csec - rsec
            } else {
                rsec - csec
            };
            if best.is_none() || dd < best_dist {
                best = Some(c);
                best_dist = dd;
            }
        }
        assert(best == resolve_partial(m, d, t, rf));
        match best {
            Some(c) => Ok(Timestamp::Naive(c)),
            None => Err(EntryParseError),
        }
    }
}

/// When the current-year candidate exists and lies within 180 days of the
/// reference, the adjacent years' candidates are strictly farther away, so
/// resolution picks the current year.
pub proof fn lemma_adjacent_years_farther(m: u8, d: u8, t: TimeOfDay, rf: DateTime)
    requires
        1 <= m <= 12,
        1 <= d <= 31,
        valid_ymd(rf.year as int, m as int, d as int),
        distance(
            DateTime { year: rf.year, month: m, day: d, time: t },
            epoch_seconds(rf),
        ) < 180 * 86400,
    ensures
        resolve_partial(m, d, t, rf) == Some(
            DateTime { year: rf.year, month: m, day: d, time: t },
        ),
{
    let y = rf.year as int;
    let r = epoch_seconds(rf);
    let cur = DateTime { year: rf.year, month: m, day: d, time: t };
    lemma_epoch_days_year_step(y - 1, m as int, d as int);
    lemma_epoch_days_year_step(y, m as int, d as int);
    if valid_ymd(y - 1, m as int, d as int) {
        let prev = (candidate(y - 1, m, d, t))->Some_0;
        assert(epoch_seconds(cur) - epoch_seconds(prev) >= 365 * 86400);
        assert(distance(prev, r) > distance(cur, r));
    }
    if valid_ymd(y + 1, m as int, d as int) {
        let next = (candidate(y + 1, m, d, t))->Some_0;
        assert(epoch_seconds(next) - epoch_seconds(cur) >= 365 * 86400);
        assert(distance(next, r) > distance(cur, r));
    }
}


/// The month number a legacy `"Mon "` token names.
pub open spec fn month_token(t: Seq<u8>) -> Option<u8> {
    if t.len() != 4 || t[3] != (' ' as u8) {
        None
    } else if t[0] == ('J' as u8) && t[1] == ('a' as u8) && t[2] == ('n' as u8) {
        Some(1u8)
    } else if t[0] == ('F' as u8) && t[1] == ('e' as u8) && t[2] == ('b' as u8) {
        Some(2u8)
    } else if t[0] == ('M' as u8) && t[1] == ('a' as u8) && t[2] == ('r' as u8) {
        Some(3u8)
    } else if t[0] == ('A' as u8) && t[1] == ('p' as u8) && t[2] == ('r' as u8) {
        Some(4u8)
    } else if t[0] == ('M' as u8) && t[1] == ('a' as u8) && t[2] == ('y' as u8) {
        Some(5u8)
    } else if t[0] == ('J' as u8) && t[1] == ('u' as u8) && t[2] == ('n' as u8) {
        Some(6u8)
    } else if t[0] == ('J' as u8) && t[1] == ('u' as u8) && t[2] == ('l' as u8) {
        Some(7u8)
    } else if t[0] == ('A' as u8) && t[1] == ('u' as u8) && t[2] == ('g' as u8) {
        Some(8u8)
    } else if t[0] == ('S' as u8) && t[1] == ('e' as u8) && t[2] == ('p' as u8) {
        Some(9u8)
    } else if t[0] == ('O' as u8) && t[1] == ('c' as u8) && t[2] == ('t' as u8) {
        Some(10u8)
    } else if t[0] == ('N' as u8) && t[1] == ('o' as u8) && t[2] == ('v' as u8) {
        Some(11u8)
    } else if t[0] == ('D' as u8) && t[1] == ('e' as u8) && t[2] == ('c' as u8) {
        Some(12u8)
    } else {
        None
    }
}

/// The day a legacy `" D "` or `"DD "` token names: blank-padded 1 to 9, or
/// two digits 10 to 31, always with a trailing blank.
pub open spec fn day_space_token(t: Seq<u8>) -> Option<u8> {
    if t.len() != 3 || t[2] != (' ' as u8) {
        None
    } else if t[0] == (' ' as u8) && ('1' as u8) <= t[1] <= ('9' as u8) {
        Some((t[1] - ('0' as u8)) as u8)
    } else if is_digit(t[0]) && is_digit(t[1]) && 10 <= digit_val(t[0]) * 10 + digit_val(t[1]) <= 31 {
        Some((digit_val(t[0]) * 10 + digit_val(t[1])) as u8)
    } else {
        None
    }
}

/// The hour a two-digit `"HH"` token names, 0 to 23.
pub open spec fn hour_token(t: Seq<u8>) -> Option<u8> {
    if t.len() == 2 && is_digit(t[0]) && is_digit(t[1]) && digit_val(t[0]) * 10 + digit_val(t[1])
        <= 23 {
        Some((digit_val(t[0]) * 10 + digit_val(t[1])) as u8)
    } else {
        None
    }
}

/// The minute a `":MM"` token names, 0 to 59.
pub open spec fn colon_minute_token(t: Seq<u8>) -> Option<u8> {
    if t.len() == 3 && t[0] == (':' as u8) && is_digit(t[1]) && is_digit(t[2]) && digit_val(t[1])
        * 10 + digit_val(t[2]) <= 59 {
        Some((digit_val(t[1]) * 10 + digit_val(t[2])) as u8)
    } else {
        None
    }
}

/// The second a `":SS"` token names, 0 to 60 (60 being a leap second, which
/// no date-time here can carry; callers reject it).
pub open spec fn colon_second_token(t: Seq<u8>) -> Option<u8> {
    if t.len() == 3 && t[0] == (':' as u8) && is_digit(t[1]) && is_digit(t[2]) && digit_val(t[1])
        * 10 + digit_val(t[2]) <= 60 {
        Some((digit_val(t[1]) * 10 + digit_val(t[2])) as u8)
    } else {
        None
    }
}

/// The day a `"DDT"` token names, zero-padded 1 to 31.
pub open spec fn day_t_token(t: Seq<u8>) -> Option<u8> {
    if t.len() == 3 && is_digit(t[0]) && is_digit(t[1]) && t[2] == ('T' as u8) && 1 <= digit_val(
        t[0],
    ) * 10 + digit_val(t[1]) <= 31 {
        Some((digit_val(t[0]) * 10 + digit_val(t[1])) as u8)
    } else {
        None
    }
}

/// The month a `"-MM-"` token names, zero-padded 1 to 12.
pub open spec fn dash_month_dash_token(t: Seq<u8>) -> Option<u8> {
    if t.len() == 4 && t[0] == ('-' as u8) && is_digit(t[1]) && is_digit(t[2]) && t[3] == (
    '-' as u8) && 1 <= digit_val(t[1]) * 10 + digit_val(t[2]) <= 12 {
        Some((digit_val(t[1]) * 10 + digit_val(t[2])) as u8)
    } else {
        None
    }
}

/// The signed offset in seconds a six-byte `sHH:MM` token names. The sign is
/// applied to the hours alone, exactly as the log format has always been
/// read.
pub open spec fn offset_token(t: Seq<u8>) -> Option<int> {
    if t.len() != 6 || !(t[0] == ('+' as u8) || t[0] == ('-' as u8)) {
        None
    } else {
        let h = hour_token(t.subrange(1, 3));
        let mi = colon_minute_token(t.subrange(3, 6));
        if h is Some && mi is Some {
            let sign: int = if t[0] == ('-' as u8) {
                -1
            } else {
                1
            };
            Some((sign * (h->Some_0 * 60) + mi->Some_0) * 60)
        } else {
            None
        }
    }
}

/// The year a four-byte token names, read as `i32::from_str` reads it.
pub open spec fn year_token(t: Seq<u8>) -> Option<i32> {
    match parse_signed(t) {
        Some(v) => if i32::MIN <= v <= i32::MAX {
            Some(v as i32)
        } else {
            None
        },
        None => None,
    }
}

/// What parsing a legacy 15-byte `"Mon DD HH:MM:SS"` timestamp yields: a
/// partial timestamp, or nothing when a field is out of form. A leap-second
/// field (`":60"`) is rejected, since no partial timestamp can carry it.
pub open spec fn parse_old_ts(s: Seq<u8>) -> Option<RawTimestamp> {
    if s.len() != 15 {
        None
    } else {
        let m = month_token(s.subrange(0, 4));
        let d = day_space_token(s.subrange(4, 7));
        let h = hour_token(s.subrange(7, 9));
        let mi = colon_minute_token(s.subrange(9, 12));
        let sec = colon_second_token(s.subrange(12, 15));
        if m is Some && d is Some && h is Some && mi is Some && sec is Some && sec->Some_0 <= 59 {
            Some(
                RawTimestamp::Partial(
                    m->Some_0,
                    d->Some_0,
                    TimeOfDay {
                        hour: h->Some_0,
                        minute: mi->Some_0,
                        second: sec->Some_0,
                        milli: 0,
                    },
                ),
            )
        } else {
            None
        }
    }
}

/// What parsing a 29-byte `"YYYY-MM-DDTHH:MM:SS.mmm±HH:MM"` timestamp yields:
/// a complete timestamp with an offset, or nothing when a field is out of
/// form, the date does not exist, or the seconds field names a leap second.
pub open spec fn parse_new_ts(s: Seq<u8>) -> Option<RawTimestamp> {
    if s.len() != 29 {
        None
    } else {
        let y = year_token(s.subrange(0, 4));
        let mo = dash_month_dash_token(s.subrange(4, 8));
        let d = day_t_token(s.subrange(8, 11));
        let h = hour_token(s.subrange(11, 13));
        let mi = colon_minute_token(s.subrange(13, 16));
        let sec = colon_second_token(s.subrange(16, 19));
        let ms = parse_u32(s.subrange(20, 23));
        let off = offset_token(s.subrange(23, 29));
        if y is Some && mo is Some && d is Some && h is Some && mi is Some && sec is Some && s[19]
            == ('.' as u8) && ms is Some && off is Some && sec->Some_0 <= 59 && valid_ymd(
            y->Some_0 as int,
            mo->Some_0 as int,
            d->Some_0 as int,
        ) {
            Some(
                RawTimestamp::FixedOffset(
                    OffsetDateTime {
                        datetime: DateTime {
                            year: y->Some_0,
                            month: mo->Some_0,
                            day: d->Some_0,
                            time: TimeOfDay {
                                hour: h->Some_0,
                                minute: mi->Some_0,
                                second: sec->Some_0,
                                milli: ms->Some_0 as u16,
                            },
                        },
                        offset_seconds: off->Some_0 as i32,
                    },
                ),
            )
        } else {
            None
        }
    }
}

/// Read the legacy month-name token.
pub fn parse_month_space(t: &[u8]) -> (r: Option<u8>)
    requires
        t@.len() == 4,
    ensures
        r == month_token(t@),
{
    if t[3] != (' ' as u8) {
        return None;
    }
    let (a, b, c) = (t[0], t[1], t[2]);
    if a == ('J' as u8) && b == ('a' as u8) && c == ('n' as u8) {
        Some(1)
    } else if a == ('F' as u8) && b == ('e' as u8) && c == ('b' as u8) {
        Some(2)
    } else if a == ('M' as u8) && b == ('a' as u8) && c == ('r' as u8) {
        Some(3)
    } else if a == ('A' as u8) && b == ('p' as u8) && c == ('r' as u8) {
        Some(4)
    } else if a == ('M' as u8) && b == ('a' as u8) && c == ('y' as u8) {
        Some(5)
    } else if a == ('J' as u8) && b == ('u' as u8) && c == ('n' as u8) {
        Some(6)
    } else if a == ('J' as u8) && b == ('u' as u8) && c == ('l' as u8) {
        Some(7)
    } else if a == ('A' as u8) && b == ('u' as u8) && c == ('g' as u8) {
        Some(8)
    } else if a == ('S' as u8) && b == ('e' as u8) && c == ('p' as u8) {
        Some(9)
    } else if a == ('O' as u8) && b == ('c' as u8) && c == ('t' as u8) {
        Some(10)
    } else if a == ('N' as u8) && b == ('o' as u8) && c == ('v' as u8) {
        Some(11)
    } else if a == ('D' as u8) && b == ('e' as u8) && c == ('c' as u8) {
        Some(12)
    } else {
        None
    }
}

/// Read the legacy blank-padded day token.
pub fn parse_day_space(t: &[u8]) -> (r: Option<u8>)
    requires
        t@.len() == 3,
    ensures
        r == day_space_token(t@),
{
    if t[2] != (' ' as u8) {
        return None;
    }
    if t[0] == (' ' as u8) && ('1' as u8) <= t[1] && t[1] <= ('9' as u8) {
        return Some(t[1] - ('0' as u8));
    }
    if ('0' as u8) <= t[0] && t[0] <= ('9' as u8) && ('0' as u8) <= t[1] && t[1] <= ('9' as u8) {
        let v = (t[0] - ('0' as u8)) * 10 + (t[1] - ('0' as u8));
        if 10 <= v && v <= 31 {
            return Some(v);
        }
    }
    None
}

/// Read a two-digit hour token.
pub fn parse_hour(t: &[u8]) -> (r: Option<u8>)
    requires
        t@.len() == 2,
    ensures
        r == hour_token(t@),
{
    if ('0' as u8) <= t[0] && t[0] <= ('9' as u8) && ('0' as u8) <= t[1] && t[1] <= ('9' as u8) {
        let v = (t[0] - ('0' as u8)) * 10 + (t[1] - ('0' as u8));
        if v <= 23 {
            return Some(v);
        }
    }
    None
}

/// Read a `":MM"` minute token.
pub fn parse_colon_minute(t: &[u8]) -> (r: Option<u8>)
    requires
        t@.len() == 3,
    ensures
        r == colon_minute_token(t@),
{
    if t[0] == (':' as u8) && ('0' as u8) <= t[1] && t[1] <= ('9' as u8) && ('0' as u8) <= t[2]
        && t[2] <= ('9' as u8) {
        let v = (t[1] - ('0' as u8)) * 10 + (t[2] - ('0' as u8));
        if v <= 59 {
            return Some(v);
        }
    }
    None
}

/// Read a `":SS"` second token, which may name a leap second (60).
pub fn parse_colon_second(t: &[u8]) -> (r: Option<u8>)
    requires
        t@.len() == 3,
    ensures
        r == colon_second_token(t@),
{
    if t[0] == (':' as u8) && ('0' as u8) <= t[1] && t[1] <= ('9' as u8) && ('0' as u8) <= t[2]
        && t[2] <= ('9' as u8) {
        let v = (t[1] - ('0' as u8)) * 10 + (t[2] - ('0' as u8));
        if v <= 60 {
            return Some(v);
        }
    }
    None
}

/// Read a `"DDT"` day token.
pub fn parse_day_t(t: &[u8]) -> (r: Option<u8>)
    requires
        t@.len() == 3,
    ensures
        r == day_t_token(t@),
{
    if ('0' as u8) <= t[0] && t[0] <= ('9' as u8) && ('0' as u8) <= t[1] && t[1] <= ('9' as u8)
        && t[2] == ('T' as u8) {
        let v = (t[0] - ('0' as u8)) * 10 + (t[1] - ('0' as u8));
        if 1 <= v && v <= 31 {
            return Some(v);
        }
    }
    None
}

/// Read a `"-MM-"` month token.
pub fn parse_dash_month_dash(t: &[u8]) -> (r: Option<u8>)
    requires
        t@.len() == 4,
    ensures
        r == dash_month_dash_token(t@),
{
    if t[0] == ('-' as u8) && ('0' as u8) <= t[1] && t[1] <= ('9' as u8) && ('0' as u8) <= t[2]
        && t[2] <= ('9' as u8) && t[3] == ('-' as u8) {
        let v = (t[1] - ('0' as u8)) * 10 + (t[2] - ('0' as u8));
        if 1 <= v && v <= 12 {
            return Some(v);
        }
    }
    None
}

/// Read a six-byte signed `sHH:MM` offset token into seconds east of UTC.
pub fn parse_offset(t: &[u8]) -> (r: Option<i32>)
    requires
        t@.len() == 6,
    ensures
        r == match offset_token(t@) {
            Some(v) => Some(v as i32),
            None => None::<i32>,
        },
        r matches Some(o) ==> -86400 < o < 86400,
{
    if !(t[0] == ('+' as u8) || t[0] == ('-' as u8)) {
        return None;
    }
    let h = match parse_hour(&t[1..3]) {
        Some(h) => h,
        None => {
            return None;
        },
    };
    let mi = match parse_colon_minute(&t[3..6]) {
        Some(mi) => mi,
        None => {
            return None;
        },
    };
    assert(h <= 23 && mi <= 59);
    let base: i32 = if t[0] == ('-' as u8) {
        -((h as i32) * 60)
    } else {
        (h as i32) * 60
    };
    proof {
        let v = offset_token(t@)->Some_0;
        if t@[0] == ('-' as u8) {
            assert(v == ((-1) * ((h as int) * 60) + (mi as int)) * 60);
        } else {
            assert(v == (1 * ((h as int) * 60) + (mi as int)) * 60);
        }
        assert(v == ((base as int) + (mi as int)) * 60);
    }
    Some((base + (mi as i32)) * 60)
}

/// Read a four-byte year token as `i32::from_str` would.
pub fn parse_year(t: &[u8]) -> (r: Option<i32>)
    requires
        t@.len() == 4,
    ensures
        r == year_token(t@),
{
    let (neg, start): (bool, usize) = if t[0] == ('+' as u8) {
        (false, 1)
    } else if t[0] == ('-' as u8) {
        (true, 1)
    } else {
        (false, 0)
    };
    let ghost body = if start == 1 {
        t@.subrange(1, 4)
    } else {
        t@
    };
    proof {
        if start == 0 {
            assert(body =~= t@.subrange(0, 4));
            assert(t@.subrange(0, 4) =~= t@);
        }
    }
    let mut val: i32 = 0;
    let mut k: usize = start;
    while k < 4
        invariant
            start <= k <= 4,
            t@.len() == 4,
            0 <= start <= 1,
            (start == 1) == (t@[0] == ('+' as u8) || t@[0] == ('-' as u8)),
            neg == (start == 1 && t@[0] == ('-' as u8)),
            body == t@.subrange(start as int, 4),
            all_digits(body.subrange(0, k - start)),
            val == digits_val(body.subrange(0, k - start)),
            0 <= val,
            val <= if k - start == 0 {
                0int
            } else if k - start == 1 {
                9int
            } else if k - start == 2 {
                99int
            } else if k - start == 3 {
                999int
            } else {
                9999int
            },
        decreases 4 - k,
    {
        let c = t[k];
        if c < ('0' as u8) || c > ('9' as u8) {
            proof {
                assert(!is_digit(body[k - start]));
                if start == 0 {
                    assert(t@.subrange(0, 4) =~= t@);
                }
            }
            return None;
        }
        let ghost pre = body.subrange(0, k - start);
        let ghost pre1 = body.subrange(0, k + 1 - start);
        proof {
            assert(pre1.drop_last() =~= pre);
            assert(pre1.last() == body[k - start] == t@[k as int]);
        }
        val = val * 10 + ((c - ('0' as u8)) as i32);
        k = k + 1;
    }
    assert(body.subrange(0, 4 - start) =~= body);
    if neg {
        Some(-val)
    } else {
        Some(val)
    }
}

impl RawTimestamp {
    /// Parse a legacy 15-byte `"Mon DD HH:MM:SS"` timestamp.
    pub fn parse_old(timestamp: &[u8]) -> (r: Result<RawTimestamp, EntryParseError>)
        ensures
            r == match parse_old_ts(timestamp@) {
                Some(t) => Result::<RawTimestamp, EntryParseError>::Ok(t),
                None => Result::<RawTimestamp, EntryParseError>::Err(EntryParseError),
            },
            r matches Ok(t) ==> t.wf() && (t is Partial),
    {
        if timestamp.len() != 15 {
            return Err(EntryParseError);
        }
        let month = match parse_month_space(&timestamp[0..4]) {
            Some(m) => m,
            None => {
                return Err(EntryParseError);
            },
        };
        let day = match parse_day_space(&timestamp[4..7]) {
            Some(d) => d,
            None => {
                return Err(EntryParseError);
            },
        };
        let hour = match parse_hour(&timestamp[7..9]) {
            Some(h) => h,
            None => {
                return Err(EntryParseError);
            },
        };
        let minute = match parse_colon_minute(&timestamp[9..12]) {
            Some(mi) => mi,
            None => {
                return Err(EntryParseError);
            },
        };
        let second = match parse_colon_second(&timestamp[12..15]) {
            Some(sec) => sec,
            None => {
                return Err(EntryParseError);
            },
        };
        if second > 59 {
            return Err(EntryParseError);
        }
        Ok(
            RawTimestamp::Partial(
                month,
                day,
                TimeOfDay { hour, minute, second, milli: 0 },
            ),
        )
    }

    /// Parse a 29-byte `"YYYY-MM-DDTHH:MM:SS.mmm±HH:MM"` timestamp.
    pub fn parse_new(timestamp: &[u8]) -> (r: Result<RawTimestamp, EntryParseError>)
        ensures
            r == match parse_new_ts(timestamp@) {
                Some(t) => Result::<RawTimestamp, EntryParseError>::Ok(t),
                None => Result::<RawTimestamp, EntryParseError>::Err(EntryParseError),
            },
            r matches Ok(t) ==> t.wf() && (t is FixedOffset),
    {
        if timestamp.len() != 29 {
            return Err(EntryParseError);
        }
        let year = match parse_year(&timestamp[0..4]) {
            Some(y) => y,
            None => {
                return Err(EntryParseError);
            },
        };
        let month = match parse_dash_month_dash(&timestamp[4..8]) {
            Some(m) => m,
            None => {
                return Err(EntryParseError);
            },
        };
        let day = match parse_day_t(&timestamp[8..11]) {
            Some(d) => d,
            None => {
                return Err(EntryParseError);
            },
        };
        let hour = match parse_hour(&timestamp[11..13]) {
            Some(h) => h,
            None => {
                return Err(EntryParseError);
            },
        };
        let minute = match parse_colon_minute(&timestamp[13..16]) {
            Some(mi) => mi,
            None => {
                return Err(EntryParseError);
            },
        };
        let second = match parse_colon_second(&timestamp[16..19]) {
            Some(sec) => sec,
            None => {
                return Err(EntryParseError);
            },
        };
        if timestamp[19] != ('.' as u8) {
            return Err(EntryParseError);
        }
        let milli = match crate::bytes::parse_u32_exec(timestamp, 20, 23) {
            Some(ms) => ms,
            None => {
                return Err(EntryParseError);
            },
        };
        let offset = match parse_offset(&timestamp[23..29]) {
            Some(off) => off,
            None => {
                return Err(EntryParseError);
            },
        };
        if second > 59 {
            return Err(EntryParseError);
        }
        if !valid_ymd_exec(year, month, day) {
            return Err(EntryParseError);
        }
        proof {
            lemma_three_digits_small(timestamp@.subrange(20, 23));
            assert(valid_ymd(year as int, month as int, day as int));
            assert(hour <= 23 && minute <= 59 && second <= 59);
            assert(milli <= 999);
            assert(-86400 < offset < 86400);
        }
        Ok(
            RawTimestamp::FixedOffset(
                OffsetDateTime {
                    datetime: DateTime {
                        year,
                        month,
                        day,
                        time: TimeOfDay { hour, minute, second, milli: milli as u16 },
                    },
                    offset_seconds: offset,
                },
            ),
        )
    }
}

/// A string of at most three digits names a number under 1000, whether or not
/// a plus sign leads it.
proof fn lemma_three_digits_small(s: Seq<u8>)
    requires
        s.len() == 3,
    ensures
        parse_u32(s) matches Some(v) ==> v <= 999,
{
    let body = if s[0] == ('+' as u8) {
        s.subrange(1, 3)
    } else {
        s
    };
    if body.len() > 0 && all_digits(body) {
        if body.len() == 3 {
            let b2 = body.drop_last();
            let b1 = b2.drop_last();
            assert(b1.drop_last() =~= Seq::<u8>::empty());
            assert(digits_val(b1.drop_last()) == 0);
            assert(digits_val(b1) == digit_val(b1[0]));
            assert(digits_val(b2) == digits_val(b1) * 10 + digit_val(b2[1]));
            assert(digits_val(body) == digits_val(b2) * 10 + digit_val(body[2]));
            assert(is_digit(body[0]) && is_digit(body[1]) && is_digit(body[2]));
        } else {
            let b1 = body.drop_last();
            assert(body.len() == 2);
            assert(b1.drop_last() =~= Seq::<u8>::empty());
            assert(digits_val(b1.drop_last()) == 0);
            assert(digits_val(b1) == digit_val(b1[0]));
            assert(digits_val(body) == digits_val(b1) * 10 + digit_val(body[1]));
            assert(is_digit(body[0]) && is_digit(body[1]));
        }
    }
}



/// The partial fields given a concrete year, when that names an existing
/// calendar date.
pub fn with_year(year: i32, month: u8, day: u8, time: TimeOfDay) -> (r: Option<DateTime>)
    ensures
        r == candidate(year as int, month, day, time),
{
    if valid_ymd_exec(year, month, day) {
        Some(DateTime { year, month, day, time })
    } else {
        None
    }
}

/// When the reference year's candidate exists and lies within 180 days of
/// the reference instant, resolution picks the reference year.
pub proof fn lemma_resolution_prefers_reference_year(m: u8, d: u8, t: TimeOfDay, rf: DateTime)
    requires
        valid_ymd(rf.year as int, m as int, d as int),
        distance(
            DateTime { year: rf.year, month: m, day: d, time: t },
            epoch_seconds(rf),
        ) < 180 * 86400,
    ensures
        resolve_partial(m, d, t, rf) matches Some(c) && c.year == rf.year,
{
    lemma_adjacent_years_farther(m, d, t, rf);
}

/// Resolution only ever selects a year: a resolved timestamp keeps the
/// partial timestamp's month, day and time of day exactly, and its year is
/// the reference year or one of its two neighbours.
pub proof fn lemma_resolution_keeps_fields(m: u8, d: u8, t: TimeOfDay, rf: DateTime)
    ensures
        resolve_partial(m, d, t, rf) matches Some(c) ==> c.month == m && c.day == d && c.time == t
            && (c.year == rf.year || c.year == rf.year - 1 || c.year == rf.year + 1),
{
}

/// Resolving a timestamp that already carries an offset returns it
/// unchanged, whatever the successor and the reference instant are.
pub proof fn lemma_resolve_fixed_offset_noop(
    odt: OffsetDateTime,
    successor: Option<Timestamp>,
    now: DateTime,
)
    ensures
        resolve_spec(RawTimestamp::FixedOffset(odt), successor, now) == Result::<
            Timestamp,
            EntryParseError,
        >::Ok(Timestamp::FixedOffset(odt)),
{
}


impl PartialEq for RawTimestamp {
    /// Partial timestamps compare by their fields; complete ones compare by
    /// the instant they denote, as offset date-times do.
    fn eq(&self, other: &RawTimestamp) -> (r: bool) {
        match (self, other) {
            (RawTimestamp::Partial(m1, d1, t1), RawTimestamp::Partial(m2, d2, t2)) => m1 == m2
                && d1 == d2 && t1 == t2,
            (RawTimestamp::FixedOffset(a), RawTimestamp::FixedOffset(b)) => a == b,
            _ => false,
        }
    }
}

impl vstd::std_specs::cmp::PartialEqSpecImpl for RawTimestamp {
    open spec fn obeys_eq_spec() -> bool {
        true
    }

    open spec fn eq_spec(&self, other: &RawTimestamp) -> bool {
        match (self, other) {
            (RawTimestamp::Partial(m1, d1, t1), RawTimestamp::Partial(m2, d2, t2)) => m1 == m2
                && d1 == d2 && t1 == t2,
            (RawTimestamp::FixedOffset(a), RawTimestamp::FixedOffset(b)) => a.utc_millis()
                == b.utc_millis(),
            _ => false,
        }
    }
}

} // verus!
