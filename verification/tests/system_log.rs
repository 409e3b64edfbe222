use vapix::calendar::{DateTime, OffsetDateTime, TimeOfDay};
use vapix::system_log::{Entries, Level, RawEntry, RawTimestamp, Source, Timestamp};

fn tod(hour: u8, minute: u8, second: u8, milli: u16) -> TimeOfDay {
    TimeOfDay { hour, minute, second, milli }
}

fn dt(year: i32, month: u8, day: u8, hour: u8, minute: u8, second: u8) -> DateTime {
    DateTime { year, month, day, time: tod(hour, minute, second, 0) }
}

fn partial_timestamp(month: u8, day: u8, hour: u8, minute: u8, second: u8) -> RawTimestamp {
    RawTimestamp::Partial(month, day, tod(hour, minute, second, 0))
}

fn full_timestamp(ymd: (i32, u8, u8), hmsms: (u8, u8, u8, u16), offset_secs: i32) -> RawTimestamp {
    RawTimestamp::FixedOffset(OffsetDateTime {
        datetime: DateTime {
            year: ymd.0,
            month: ymd.1,
            day: ymd.2,
            time: tod(hmsms.0, hmsms.1, hmsms.2, hmsms.3),
        },
        offset_seconds: offset_secs,
    })
}

#[test]
fn parse_5_50_4_9() {
    assert_eq!(
        RawEntry::parse(
            b"<REPEATED> Nov 14 06:08:29 axis-00408cb99b33 last CRITICAL  message repeated 4 times"
        ),
        Ok(RawEntry {
            timestamp: partial_timestamp(11, 14, 6, 8, 29),
            hostname: b"axis-00408cb99b33".to_vec(),
            level: Level::Repeated,
            source: Source::Absent,
            message: b"last CRITICAL  message repeated 4 times".to_vec(),
        })
    );

    assert_eq!(
        RawEntry::parse(
            b"<CRITICAL> Nov 14 06:07:54 axis-00408cb99b33 kernel: CIFS VFS: Send error in SessSetup = -13"
        ),
        Ok(RawEntry {
            timestamp: partial_timestamp(11, 14, 6, 7, 54),
            hostname: b"axis-00408cb99b33".to_vec(),
            level: Level::Critical,
            source: Source::Name(b"kernel".to_vec()),
            message: b"CIFS VFS: Send error in SessSetup = -13".to_vec(),
        })
    );
}

#[test]
fn parse_5_51_7() {
    assert_eq!(
        RawEntry::parse(b"<INFO    > Oct  9 15:41:26 axis-00408cfb6888 syslogd[23459]: 1.4.1: restart."),
        Ok(RawEntry {
            timestamp: partial_timestamp(10, 9, 15, 41, 26),
            hostname: b"axis-00408cfb6888".to_vec(),
            level: Level::Info,
            source: Source::NameAndPid(b"syslogd".to_vec(), 23459),
            message: b"1.4.1: restart.".to_vec(),
        })
    );
}

#[test]
fn parse_9_80_2_2_entry() {
    assert_eq!(
        RawEntry::parse(
            b"2020-10-09T10:30:02.425-05:00 axis-accc8ef7d108 [ INFO    ] systemd[1]: Started Rotate log files."
        ),
        Ok(RawEntry {
            timestamp: full_timestamp((2020, 10, 9), (10, 30, 2, 425), -5 * 3600),
            hostname: b"axis-accc8ef7d108".to_vec(),
            level: Level::Info,
            source: Source::NameAndPid(b"systemd".to_vec(), 1),
            message: b"Started Rotate log files.".to_vec(),
        })
    );

    assert_eq!(
        RawEntry::parse(
            b"2020-10-08T22:16:11.027-05:00 axis-accc8ef7d108 [ WARNING ] [    5.501068][    T1] systemd[1]: /usr/lib/systemd/system/imagectrl-data.service:2: Unknown key name 'Desription' in section 'Unit', ignoring."
        ),
        Ok(RawEntry {
            timestamp: full_timestamp((2020, 10, 8), (22, 16, 11, 27), -5 * 3600),
            hostname: b"axis-accc8ef7d108".to_vec(),
            level: Level::Warning,
            source: Source::Absent,
            message: b"[    5.501068][    T1] systemd[1]: /usr/lib/systemd/system/imagectrl-data.service:2: Unknown key name 'Desription' in section 'Unit', ignoring.".to_vec(),
        })
    );

    assert_eq!(
        RawEntry::parse(
            b"2020-10-08T22:16:11.033-05:00 axis-accc8ef7d108 [ WARNING ] kernel: [    7.050105][  T126] artpec_5: module license 'Proprietary' taints kernel."
        ),
        Ok(RawEntry {
            timestamp: full_timestamp((2020, 10, 8), (22, 16, 11, 33), -5 * 3600),
            hostname: b"axis-accc8ef7d108".to_vec(),
            level: Level::Warning,
            source: Source::Name(b"kernel".to_vec()),
            message: b"[    7.050105][  T126] artpec_5: module license 'Proprietary' taints kernel.".to_vec(),
        })
    );
}

#[test]
fn blank_and_separator_lines_yield_nothing() {
    let buffer = b"\n----- one -----\n\r\n----- two -----\r\n\n".to_vec();
    let entries = Entries::new(buffer, dt(2020, 10, 9, 12, 0, 0));
    let mut it = entries.iter();
    assert!(it.next().is_none());
    // A fresh iterator re-scans independently.
    let mut it2 = entries.iter();
    assert!(it2.next().is_none());
}

#[test]
fn sole_partial_entry_resolves_against_reference() {
    let buffer = b"<INFO    > Oct  9 15:41:26 host syslogd[23459]: 1.4.1: restart.".to_vec();
    let entries = Entries::new(buffer, dt(2020, 10, 9, 12, 0, 0));
    let mut it = entries.iter();
    let first = it.next().unwrap().unwrap();
    assert_eq!(first.timestamp, Timestamp::Naive(dt(2020, 10, 9, 15, 41, 26)));
    assert_eq!(first.hostname, b"host".to_vec());
    assert_eq!(first.source, Source::NameAndPid(b"syslogd".to_vec(), 23459));
    assert_eq!(first.message, b"1.4.1: restart.".to_vec());
    assert!(it.next().is_none());
}

#[test]
fn successor_threading_across_a_year_boundary() {
    // Oldest first in the buffer; the iterator walks newest first.
    let buffer = b"<INFO    > Dec 31 23:59:50 host earlier msg\n\
<INFO    > Jan  1 00:00:20 host later msg"
        .to_vec();
    let entries = Entries::new(buffer, dt(2021, 1, 1, 0, 0, 30));
    let mut it = entries.iter();
    let newest = it.next().unwrap().unwrap();
    assert_eq!(newest.timestamp, Timestamp::Naive(dt(2021, 1, 1, 0, 0, 20)));
    // The earlier line's year comes from its successor, which pushes it back
    // into the previous year.
    let older = it.next().unwrap().unwrap();
    assert_eq!(older.timestamp, Timestamp::Naive(dt(2020, 12, 31, 23, 59, 50)));
    assert!(it.next().is_none());
}

#[test]
fn failed_line_reports_error_and_keeps_state() {
    let buffer = b"<INFO    > Dec 31 23:59:50 host earlier msg\n\
this line parses as neither format\n\
<INFO    > Jan  1 00:00:20 host later msg"
        .to_vec();
    let entries = Entries::new(buffer, dt(2021, 1, 1, 0, 0, 30));
    let mut it = entries.iter();
    assert!(it.next().unwrap().is_ok());
    assert!(it.next().unwrap().is_err());
    // The failed line did not reset the successor hint.
    let older = it.next().unwrap().unwrap();
    assert_eq!(older.timestamp, Timestamp::Naive(dt(2020, 12, 31, 23, 59, 50)));
    assert!(it.next().is_none());
}

#[test]
fn legacy_level_tags_round_trip() {
    let levels = [
        Level::Emergency,
        Level::Alert,
        Level::Critical,
        Level::Error,
        Level::Warning,
        Level::Notice,
        Level::Info,
        Level::Debug,
        Level::Repeated,
    ];
    for level in levels {
        let tag = level.legacy_tag();
        assert_eq!(tag.len(), 11);
        let mut line = tag.to_vec();
        line.extend_from_slice(b"Nov 14 06:08:29 host some message");
        let parsed = RawEntry::parse(&line).unwrap();
        assert_eq!(parsed.level, level);
        // Rendering the parsed level gives back the original literal tag.
        assert_eq!(parsed.level.legacy_tag(), tag);
    }
}

#[test]
fn level_display_names() {
    assert_eq!(Level::Info.as_ref(), "[ INFO    ]");
    assert_eq!(Level::Repeated.as_ref(), "[REPEATED ]");
    assert_eq!(Level::Emergency.as_ref(), "[ EMERG   ]");
}

#[test]
fn source_predicates() {
    assert!(Source::Absent.is_none());
    assert!(!Source::Absent.is_some());
    assert!(Source::Name(b"kernel".to_vec()).is_some());
    assert!(Source::NameAndPid(b"systemd".to_vec(), 1).is_some());
}

#[test]
fn message_with_early_colon_space_is_misread_as_source() {
    // The split heuristic is lossy by design: `": "` near the start of a
    // message is taken as a source descriptor.
    let parsed =
        RawEntry::parse(b"<INFO    > Oct  9 15:41:26 host foo: rest of message").unwrap();
    assert_eq!(parsed.source, Source::Name(b"foo".to_vec()));
    assert_eq!(parsed.message, b"rest of message".to_vec());
}

#[test]
fn bad_pid_abandons_source_split() {
    let parsed =
        RawEntry::parse(b"<INFO    > Oct  9 15:41:26 host name[notapid]: message").unwrap();
    assert_eq!(parsed.source, Source::Absent);
    assert_eq!(parsed.message, b"name[notapid]: message".to_vec());
}

#[test]
fn timestamps_with_equal_instants_compare_equal() {
    let a = Timestamp::FixedOffset(OffsetDateTime {
        datetime: DateTime { year: 2020, month: 10, day: 9, time: tod(10, 30, 2, 425) },
        offset_seconds: -5 * 3600,
    });
    let b = Timestamp::FixedOffset(OffsetDateTime {
        datetime: DateTime { year: 2020, month: 10, day: 9, time: tod(15, 30, 2, 425) },
        offset_seconds: 0,
    });
    assert_eq!(a, b);
    assert_eq!(a.partial_cmp(&b), Some(std::cmp::Ordering::Equal));
}

#[test]
fn mixed_timestamp_kinds_do_not_order() {
    let naive = Timestamp::Naive(dt(2020, 10, 9, 10, 30, 2));
    let fixed = Timestamp::FixedOffset(OffsetDateTime {
        datetime: DateTime { year: 2020, month: 10, day: 9, time: tod(10, 30, 2, 0) },
        offset_seconds: 0,
    });
    assert_eq!(naive.partial_cmp(&fixed), None);
    assert_ne!(naive, fixed);
    let earlier = Timestamp::Naive(dt(2020, 10, 9, 10, 30, 1));
    assert_eq!(earlier.partial_cmp(&naive), Some(std::cmp::Ordering::Less));
}

#[test]
fn mixed_format_buffer_parses_in_reverse_order() {
    // Oldest first: two new-format lines, then two legacy lines.
    let buffer = b"2020-10-08T22:16:11.027-05:00 axis-accc8ef7d108 [ WARNING ] kernel: taints kernel.\n\
2020-10-09T10:30:02.425-05:00 axis-accc8ef7d108 [ INFO    ] systemd[1]: Started Rotate log files.\n\
----- contact with the mothership established -----\n\
<NOTICE  > Oct  9 12:00:00 axis-accc8ef7d108 sync: clock stepped\n\
<REPEATED> Oct  9 12:00:05 axis-accc8ef7d108 last message repeated 2 times\n"
        .to_vec();
    let entries = Entries::new(buffer, dt(2020, 10, 9, 12, 30, 0));
    let mut it = entries.iter();

    let newest = it.next().unwrap().unwrap();
    assert_eq!(newest.level, Level::Repeated);
    assert_eq!(newest.timestamp, Timestamp::Naive(dt(2020, 10, 9, 12, 0, 5)));

    let second = it.next().unwrap().unwrap();
    assert_eq!(second.level, Level::Notice);
    assert_eq!(second.source, Source::Name(b"sync".to_vec()));
    assert_eq!(second.timestamp, Timestamp::Naive(dt(2020, 10, 9, 12, 0, 0)));

    // The separator line was skipped without an error.
    let third = it.next().unwrap().unwrap();
    assert_eq!(third.level, Level::Info);
    assert_eq!(third.source, Source::NameAndPid(b"systemd".to_vec(), 1));

    let oldest = it.next().unwrap().unwrap();
    assert_eq!(oldest.level, Level::Warning);
    assert_eq!(oldest.message, b"taints kernel.".to_vec());

    assert!(it.next().is_none());
    assert!(it.next().is_none());

    // A fresh iterator over the same entries yields the same records.
    let mut again = entries.iter();
    let repeat = again.next().unwrap().unwrap();
    assert_eq!(repeat, newest);
}
