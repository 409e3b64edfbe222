use vapix::calendar::{
    epoch_seconds_exec, valid_ymd_exec, DateTime, OffsetDateTime, TimeOfDay,
};
use vapix::system_log::{with_year, RawTimestamp, Timestamp};

fn tod(hour: u8, minute: u8, second: u8, milli: u16) -> TimeOfDay {
    TimeOfDay { hour, minute, second, milli }
}

fn dt(year: i32, month: u8, day: u8, hour: u8, minute: u8, second: u8) -> DateTime {
    DateTime { year, month, day, time: tod(hour, minute, second, 0) }
}

#[test]
fn parse_old() {
    assert_eq!(
        RawTimestamp::parse_old(b"Oct 10 00:19:57"),
        Ok(RawTimestamp::Partial(10, 10, tod(0, 19, 57, 0)))
    );
}

#[test]
fn parse_old_rejects_malformed_fields() {
    assert!(RawTimestamp::parse_old(b"Oct 10 00:19:5").is_err());
    assert!(RawTimestamp::parse_old(b"Xxx 10 00:19:57").is_err());
    assert!(RawTimestamp::parse_old(b"Oct 32 00:19:57").is_err());
    assert!(RawTimestamp::parse_old(b"Oct 10 24:19:57").is_err());
    assert!(RawTimestamp::parse_old(b"Oct 10 00:60:57").is_err());
    assert!(RawTimestamp::parse_old(b"Oct 10 00:19:60").is_err());
    assert!(RawTimestamp::parse_old(b"Oct 00 00:19:57").is_err());
}

#[test]
fn parse_new_reads_every_field() {
    let parsed = RawTimestamp::parse_new(b"2020-10-09T10:30:02.425-05:00").unwrap();
    assert_eq!(
        parsed,
        RawTimestamp::FixedOffset(OffsetDateTime {
            datetime: DateTime { year: 2020, month: 10, day: 9, time: tod(10, 30, 2, 425) },
            offset_seconds: -5 * 3600,
        })
    );
}

#[test]
fn parse_new_rejects_malformed_fields() {
    assert!(RawTimestamp::parse_new(b"2020-10-09T10:30:02.425-05:0").is_err());
    assert!(RawTimestamp::parse_new(b"2020-13-09T10:30:02.425-05:00").is_err());
    assert!(RawTimestamp::parse_new(b"2020-02-30T10:30:02.425-05:00").is_err());
    assert!(RawTimestamp::parse_new(b"2020-10-09 10:30:02.425-05:00").is_err());
    assert!(RawTimestamp::parse_new(b"2020-10-09T10:30:60.425-05:00").is_err());
    assert!(RawTimestamp::parse_new(b"2020-10-09T10:30:02.42x-05:00").is_err());
    assert!(RawTimestamp::parse_new(b"2020-10-09T10:30:02.425x05:00").is_err());
}

#[test]
fn resolving_fixed_offset_is_a_no_op() {
    let raw = RawTimestamp::FixedOffset(OffsetDateTime {
        datetime: DateTime { year: 2020, month: 10, day: 9, time: tod(10, 30, 2, 425) },
        offset_seconds: -5 * 3600,
    });
    let expected = Timestamp::FixedOffset(OffsetDateTime {
        datetime: DateTime { year: 2020, month: 10, day: 9, time: tod(10, 30, 2, 425) },
        offset_seconds: -5 * 3600,
    });
    // Whatever the successor and the reference instant are, the result is
    // the raw timestamp unchanged.
    let r1 = raw.into_timestamp(None, &dt(1999, 1, 1, 0, 0, 0)).unwrap();
    let r2 = raw
        .into_timestamp(Some(Timestamp::Naive(dt(1980, 5, 5, 5, 5, 5))), &dt(2030, 6, 1, 0, 0, 0))
        .unwrap();
    let r3 = raw.into_timestamp(Some(expected), &dt(2020, 10, 9, 12, 0, 0)).unwrap();
    assert_eq!(r1, expected);
    assert_eq!(r2, expected);
    assert_eq!(r3, expected);
}

#[test]
fn nearby_partial_resolves_to_reference_year() {
    // A current-year candidate within 180 days of the reference keeps the
    // reference year.
    let raw = RawTimestamp::Partial(11, 14, tod(6, 8, 29, 0));
    let resolved = raw.into_timestamp(None, &dt(2004, 11, 16, 0, 0, 0)).unwrap();
    assert_eq!(resolved, Timestamp::Naive(dt(2004, 11, 14, 6, 8, 29)));
}

#[test]
fn resolution_keeps_month_day_and_time() {
    let references = [
        dt(2004, 11, 16, 0, 0, 0),
        dt(2004, 1, 2, 3, 4, 5),
        dt(2004, 7, 1, 12, 0, 0),
        dt(1999, 12, 31, 23, 59, 59),
    ];
    for reference in references {
        let resolved = RawTimestamp::Partial(11, 14, tod(6, 8, 29, 0))
            .into_timestamp(None, &reference)
            .unwrap();
        match resolved {
            Timestamp::Naive(c) => {
                assert_eq!((c.month, c.day, c.time), (11, 14, tod(6, 8, 29, 0)));
                assert!((c.year - reference.year).abs() <= 1);
            }
            _ => panic!("partial timestamps resolve to naive timestamps"),
        }
    }
}

#[test]
fn distant_partial_resolves_to_nearest_adjacent_year() {
    // Early January seen from late December belongs to the next year...
    let next = RawTimestamp::Partial(1, 2, tod(0, 0, 0, 0))
        .into_timestamp(None, &dt(2020, 12, 30, 0, 0, 0))
        .unwrap();
    assert_eq!(next, Timestamp::Naive(dt(2021, 1, 2, 0, 0, 0)));
    // ...and late December seen from early January belongs to the previous.
    let prev = RawTimestamp::Partial(12, 30, tod(23, 0, 0, 0))
        .into_timestamp(None, &dt(2021, 1, 2, 0, 0, 0))
        .unwrap();
    assert_eq!(prev, Timestamp::Naive(dt(2020, 12, 30, 23, 0, 0)));
}

#[test]
fn leap_day_skips_years_without_one() {
    // Feb 29 exists in 2020 but not in 2021: resolving it against a 2021
    // reference can only land in 2020 or 2022, and 2020 is closer to an
    // early-2021 reference.
    let resolved = RawTimestamp::Partial(2, 29, tod(12, 0, 0, 0))
        .into_timestamp(None, &dt(2021, 3, 1, 0, 0, 0))
        .unwrap();
    assert_eq!(resolved, Timestamp::Naive(dt(2020, 2, 29, 12, 0, 0)));
}

#[test]
fn calendar_validity() {
    assert!(valid_ymd_exec(2020, 2, 29));
    assert!(!valid_ymd_exec(2021, 2, 29));
    assert!(valid_ymd_exec(2000, 2, 29));
    assert!(!valid_ymd_exec(1900, 2, 29));
    assert!(valid_ymd_exec(2021, 12, 31));
    assert!(!valid_ymd_exec(2021, 4, 31));
    assert!(!valid_ymd_exec(2021, 0, 1));
    assert!(!valid_ymd_exec(2021, 13, 1));
    assert!(!valid_ymd_exec(2021, 1, 0));
}

#[test]
fn epoch_seconds_match_unix_time() {
    assert_eq!(epoch_seconds_exec(&dt(1970, 1, 1, 0, 0, 0)), 0);
    assert_eq!(epoch_seconds_exec(&dt(2020, 10, 9, 10, 30, 2)), 1602239402);
    assert_eq!(epoch_seconds_exec(&dt(1969, 12, 31, 23, 59, 59)), -1);
    assert_eq!(epoch_seconds_exec(&dt(2000, 3, 1, 0, 0, 0)), 951868800);
}

#[test]
fn offset_sign_applies_to_hours_alone() {
    // The offset arithmetic negates the hour field only: "-05:30" reads as
    // minus five hours plus thirty minutes.
    let parsed = RawTimestamp::parse_new(b"2020-10-09T10:30:02.425-05:30").unwrap();
    match parsed {
        RawTimestamp::FixedOffset(odt) => {
            assert_eq!(odt.offset_seconds, (-5 * 60 + 30) * 60);
        }
        _ => panic!("expected a fixed-offset timestamp"),
    }
}

#[test]
fn with_year_checks_the_calendar() {
    assert_eq!(
        with_year(2020, 2, 29, tod(12, 0, 0, 0)),
        Some(DateTime { year: 2020, month: 2, day: 29, time: tod(12, 0, 0, 0) })
    );
    assert_eq!(with_year(2021, 2, 29, tod(12, 0, 0, 0)), None);
}
