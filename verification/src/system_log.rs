//! The system log interface: entry records, severity levels, source
//! descriptors, and timestamps as they appear in a device's log buffer.

mod raw_timestamp;

use crate::bytes::{
    eq_at, find_byte, find_byte_at, find_colon_space, find_colon_space_at, parse_u32,
    parse_u32_exec, segment_start, segment_to_vec,
};
use crate::calendar::{DateTime, OffsetDateTime};
use vstd::prelude::*;
use vstd::std_specs::cmp::PartialEqSpec;

pub use raw_timestamp::{
    candidate, parse_new_ts, parse_old_ts, reference_of, resolve_partial, resolve_spec, with_year,
    RawTimestamp,
};

verus! {

/// Severity of a system log entry.
///
/// `Repeated` marks the legacy-only "this message repeated N times" condition.
#[derive(Debug, Copy, Clone, PartialEq, Eq, Structural, Hash, PartialOrd, Ord)]
pub enum Level {
    Emergency,
    Alert,
    Critical,
    Error,
    Warning,
    Notice,
    Info,
    Debug,
    Repeated,
}

/// The source descriptor of a log entry: absent, a bare name, or a name with a
/// numeric process id.
#[derive(Debug, Clone, Hash)]
pub enum Source {
    Absent,
    Name(Vec<u8>),
    NameAndPid(Vec<u8>, u32),
}

impl Source {
    /// Whether this is the absent source.
    pub fn is_none(&self) -> (r: bool)
        ensures
            r == (self is Absent),
    {
        match self {
            Source::Absent => true,
            _ => false,
        }
    }

    /// Whether a source name is present.
    pub fn is_some(&self) -> (r: bool)
        ensures
            r == !(self is Absent),
    {
        match self {
            Source::Absent => false,
            _ => true,
        }
    }
}

impl PartialEq for Source {
    fn eq(&self, other: &Source) -> (r: bool) {
        match (self, other) {
            (Source::Absent, Source::Absent) => true,
            (Source::Name(a), Source::Name(b)) => {
                let r = a == b;
                proof {
                    if a@ == b@ {
                        assert(a@.len() == b@.len());
                    }
                    if r {
                        assert(a@ =~= b@);
                    }
                }
                r
            },
            (Source::NameAndPid(a, ap), Source::NameAndPid(b, bp)) => {
                let r = a == b;
                proof {
                    if a@ == b@ {
                        assert(a@.len() == b@.len());
                    }
                    if r {
                        assert(a@ =~= b@);
                    }
                }
                r && ap == bp
            },
            _ => false,
        }
    }
}

impl Eq for Source {

}

impl vstd::std_specs::cmp::PartialEqSpecImpl for Source {
    open spec fn obeys_eq_spec() -> bool {
        true
    }

    open spec fn eq_spec(&self, other: &Source) -> bool {
        match (self, other) {
            (Source::Absent, Source::Absent) => true,
            (Source::Name(a), Source::Name(b)) => a@ == b@,
            (Source::NameAndPid(a, ap), Source::NameAndPid(b, bp)) => a@ == b@ && ap == bp,
            _ => false,
        }
    }
}

/// A fully resolved timestamp: either naive (no UTC offset, as produced for
/// legacy-format lines) or carrying a fixed UTC offset (new-format lines).
#[derive(Debug, Copy, Clone, Hash)]
pub enum Timestamp {
    Naive(DateTime),
    FixedOffset(OffsetDateTime),
}

impl PartialEq for Timestamp {
    /// Naive timestamps compare by their civil fields; offset timestamps
    /// compare by the instant they denote. Mixed kinds are never equal.
    fn eq(&self, other: &Timestamp) -> (r: bool) {
        match (self, other) {
            (Timestamp::Naive(a), Timestamp::Naive(b)) => a == b,
            (Timestamp::FixedOffset(a), Timestamp::FixedOffset(b)) => a == b,
            _ => false,
        }
    }
}

impl Eq for Timestamp {

}

impl vstd::std_specs::cmp::PartialEqSpecImpl for Timestamp {
    open spec fn obeys_eq_spec() -> bool {
        true
    }

    open spec fn eq_spec(&self, other: &Timestamp) -> bool {
        match (self, other) {
            (Timestamp::Naive(a), Timestamp::Naive(b)) => a == b,
            (Timestamp::FixedOffset(a), Timestamp::FixedOffset(b)) => a.utc_millis()
                == b.utc_millis(),
            _ => false,
        }
    }
}

impl Timestamp {
    /// The contained date-time is well formed.
    pub open spec fn wf(self) -> bool {
        match self {
            Timestamp::Naive(dt) => dt.wf(),
            Timestamp::FixedOffset(odt) => odt.wf(),
        }
    }
}

/// The undifferentiated failure reported for a line that could not be parsed
/// or whose timestamp could not be resolved.
#[derive(Debug, Clone, Copy, PartialEq, Eq, Structural)]
pub struct EntryParseError;

/// The eleven-byte level tag opening a legacy-format line, one constant per
/// severity. Each is the bracketed name padded to ten bytes plus a blank.
pub const OLD_TAG_EMERGENCY: [u8; 11] = [60, 69, 77, 69, 82, 71, 32, 32, 32, 62, 32];  // "<EMERG   > "

pub const OLD_TAG_ALERT: [u8; 11] = [60, 65, 76, 69, 82, 84, 32, 32, 32, 62, 32];  // "<ALERT   > "

pub const OLD_TAG_CRITICAL: [u8; 11] = [60, 67, 82, 73, 84, 73, 67, 65, 76, 62, 32];  // "<CRITICAL> "

pub const OLD_TAG_ERROR: [u8; 11] = [60, 69, 82, 82, 32, 32, 32, 32, 32, 62, 32];  // "<ERR     > "

pub const OLD_TAG_WARNING: [u8; 11] = [60, 87, 65, 82, 78, 73, 78, 71, 32, 62, 32];  // "<WARNING > "

pub const OLD_TAG_NOTICE: [u8; 11] = [60, 78, 79, 84, 73, 67, 69, 32, 32, 62, 32];  // "<NOTICE  > "

pub const OLD_TAG_INFO: [u8; 11] = [60, 73, 78, 70, 79, 32, 32, 32, 32, 62, 32];  // "<INFO    > "

pub const OLD_TAG_DEBUG: [u8; 11] = [60, 68, 69, 66, 85, 71, 32, 32, 32, 62, 32];  // "<DEBUG   > "

pub const OLD_TAG_REPEATED: [u8; 11] = [60, 82, 69, 80, 69, 65, 84, 69, 68, 62, 32];  // "<REPEATED> "

/// The twelve-byte level tag of a new-format line, one constant per severity
/// the new format can carry (`Repeated` has no new-format tag).
pub const NEW_TAG_EMERGENCY: [u8; 12] = [91, 32, 69, 77, 69, 82, 71, 32, 32, 32, 93, 32];  // "[ EMERG   ] "

pub const NEW_TAG_ALERT: [u8; 12] = [91, 32, 65, 76, 69, 82, 84, 32, 32, 32, 93, 32];  // "[ ALERT   ] "

pub const NEW_TAG_CRITICAL: [u8; 12] = [91, 32, 67, 82, 73, 84, 32, 32, 32, 32, 93, 32];  // "[ CRIT    ] "

pub const NEW_TAG_ERROR: [u8; 12] = [91, 32, 69, 82, 82, 32, 32, 32, 32, 32, 93, 32];  // "[ ERR     ] "

pub const NEW_TAG_WARNING: [u8; 12] = [91, 32, 87, 65, 82, 78, 73, 78, 71, 32, 93, 32];  // "[ WARNING ] "

pub const NEW_TAG_NOTICE: [u8; 12] = [91, 32, 78, 79, 84, 73, 67, 69, 32, 32, 93, 32];  // "[ NOTICE  ] "

pub const NEW_TAG_INFO: [u8; 12] = [91, 32, 73, 78, 70, 79, 32, 32, 32, 32, 93, 32];  // "[ INFO    ] "

pub const NEW_TAG_DEBUG: [u8; 12] = [91, 32, 68, 69, 66, 85, 71, 32, 32, 32, 93, 32];  // "[ DEBUG   ] "

/// The legacy-format tag of each severity.
pub open spec fn old_level_tag(l: Level) -> Seq<u8> {
    match l {
        Level::Emergency => OLD_TAG_EMERGENCY@,
        Level::Alert => OLD_TAG_ALERT@,
        Level::Critical => OLD_TAG_CRITICAL@,
        Level::Error => OLD_TAG_ERROR@,
        Level::Warning => OLD_TAG_WARNING@,
        Level::Notice => OLD_TAG_NOTICE@,
        Level::Info => OLD_TAG_INFO@,
        Level::Debug => OLD_TAG_DEBUG@,
        Level::Repeated => OLD_TAG_REPEATED@,
    }
}

/// The severity a legacy eleven-byte tag names, if any.
pub open spec fn parse_old_level(s: Seq<u8>) -> Option<Level> {
    if s == old_level_tag(Level::Emergency) {
        Some(Level::Emergency)
    } else if s == old_level_tag(Level::Alert) {
        Some(Level::Alert)
    } else if s == old_level_tag(Level::Critical) {
        Some(Level::Critical)
    } else if s == old_level_tag(Level::Error) {
        Some(Level::Error)
    } else if s == old_level_tag(Level::Warning) {
        Some(Level::Warning)
    } else if s == old_level_tag(Level::Notice) {
        Some(Level::Notice)
    } else if s == old_level_tag(Level::Info) {
        Some(Level::Info)
    } else if s == old_level_tag(Level::Debug) {
        Some(Level::Debug)
    } else if s == old_level_tag(Level::Repeated) {
        Some(Level::Repeated)
    } else {
        None
    }
}

/// The new-format tag of each severity that has one.
pub open spec fn new_level_tag(l: Level) -> Option<Seq<u8>> {
    match l {
        Level::Emergency => Some(NEW_TAG_EMERGENCY@),
        Level::Alert => Some(NEW_TAG_ALERT@),
        Level::Critical => Some(NEW_TAG_CRITICAL@),
        Level::Error => Some(NEW_TAG_ERROR@),
        Level::Warning => Some(NEW_TAG_WARNING@),
        Level::Notice => Some(NEW_TAG_NOTICE@),
        Level::Info => Some(NEW_TAG_INFO@),
        Level::Debug => Some(NEW_TAG_DEBUG@),
        Level::Repeated => None,
    }
}

/// The severity a new-format twelve-byte tag names, if any.
pub open spec fn parse_new_level(s: Seq<u8>) -> Option<Level> {
    if s == new_level_tag(Level::Emergency)->Some_0 {
        Some(Level::Emergency)
    } else if s == new_level_tag(Level::Alert)->Some_0 {
        Some(Level::Alert)
    } else if s == new_level_tag(Level::Critical)->Some_0 {
        Some(Level::Critical)
    } else if s == new_level_tag(Level::Error)->Some_0 {
        Some(Level::Error)
    } else if s == new_level_tag(Level::Warning)->Some_0 {
        Some(Level::Warning)
    } else if s == new_level_tag(Level::Notice)->Some_0 {
        Some(Level::Notice)
    } else if s == new_level_tag(Level::Info)->Some_0 {
        Some(Level::Info)
    } else if s == new_level_tag(Level::Debug)->Some_0 {
        Some(Level::Debug)
    } else {
        None
    }
}

/// Read the legacy level tag at `off`.
pub fn old_level_at(s: &[u8], off: usize) -> (r: Option<Level>)
    requires
        off + 11 <= s@.len(),
    ensures
        r == parse_old_level(s@.subrange(off as int, off + 11)),
{
    if eq_at(s, off, OLD_TAG_EMERGENCY.as_slice()) {
        Some(Level::Emergency)
    } else if eq_at(s, off, OLD_TAG_ALERT.as_slice()) {
        Some(Level::Alert)
    } else if eq_at(s, off, OLD_TAG_CRITICAL.as_slice()) {
        Some(Level::Critical)
    } else if eq_at(s, off, OLD_TAG_ERROR.as_slice()) {
        Some(Level::Error)
    } else if eq_at(s, off, OLD_TAG_WARNING.as_slice()) {
        Some(Level::Warning)
    } else if eq_at(s, off, OLD_TAG_NOTICE.as_slice()) {
        Some(Level::Notice)
    } else if eq_at(s, off, OLD_TAG_INFO.as_slice()) {
        Some(Level::Info)
    } else if eq_at(s, off, OLD_TAG_DEBUG.as_slice()) {
        Some(Level::Debug)
    } else if eq_at(s, off, OLD_TAG_REPEATED.as_slice()) {
        Some(Level::Repeated)
    } else {
        None
    }
}

/// Read the new-format level tag at `off`.
pub fn new_level_at(s: &[u8], off: usize) -> (r: Option<Level>)
    requires
        off + 12 <= s@.len(),
    ensures
        r == parse_new_level(s@.subrange(off as int, off + 12)),
{
    if eq_at(s, off, NEW_TAG_EMERGENCY.as_slice()) {
        Some(Level::Emergency)
    } else if eq_at(s, off, NEW_TAG_ALERT.as_slice()) {
        Some(Level::Alert)
    } else if eq_at(s, off, NEW_TAG_CRITICAL.as_slice()) {
        Some(Level::Critical)
    } else if eq_at(s, off, NEW_TAG_ERROR.as_slice()) {
        Some(Level::Error)
    } else if eq_at(s, off, NEW_TAG_WARNING.as_slice()) {
        Some(Level::Warning)
    } else if eq_at(s, off, NEW_TAG_NOTICE.as_slice()) {
        Some(Level::Notice)
    } else if eq_at(s, off, NEW_TAG_INFO.as_slice()) {
        Some(Level::Info)
    } else if eq_at(s, off, NEW_TAG_DEBUG.as_slice()) {
        Some(Level::Debug)
    } else {
        None
    }
}

impl Level {
    /// The text this level displays as: the bracketed tag the new format
    /// uses, without its trailing blank (`Repeated` keeps its own spelling).
    pub open spec fn label(self) -> Seq<char> {
        match self {
            Level::Emergency => "[ EMERG   ]"@,
            Level::Alert => "[ ALERT   ]"@,
            Level::Critical => "[ CRIT    ]"@,
            Level::Error => "[ ERR     ]"@,
            Level::Warning => "[ WARNING ]"@,
            Level::Notice => "[ NOTICE  ]"@,
            Level::Info => "[ INFO    ]"@,
            Level::Debug => "[ DEBUG   ]"@,
            Level::Repeated => "[REPEATED ]"@,
        }
    }

    /// The display form of this level.
    pub fn as_ref(&self) -> (r: &'static str)
        ensures
            r@ == self.label(),
    {
        match self {
            Level::Emergency => "[ EMERG   ]",
            Level::Alert => "[ ALERT   ]",
            Level::Critical => "[ CRIT    ]",
            Level::Error => "[ ERR     ]",
            Level::Warning => "[ WARNING ]",
            Level::Notice => "[ NOTICE  ]",
            Level::Info => "[ INFO    ]",
            Level::Debug => "[ DEBUG   ]",
            Level::Repeated => "[REPEATED ]",
        }
    }

    /// The legacy-format tag of this level, as bytes.
    pub fn legacy_tag(&self) -> (r: &'static [u8])
        ensures
            r@ == old_level_tag(*self),
    {
        match self {
            Level::Emergency => OLD_TAG_EMERGENCY.as_slice(),
            Level::Alert => OLD_TAG_ALERT.as_slice(),
            Level::Critical => OLD_TAG_CRITICAL.as_slice(),
            Level::Error => OLD_TAG_ERROR.as_slice(),
            Level::Warning => OLD_TAG_WARNING.as_slice(),
            Level::Notice => OLD_TAG_NOTICE.as_slice(),
            Level::Info => OLD_TAG_INFO.as_slice(),
            Level::Debug => OLD_TAG_DEBUG.as_slice(),
            Level::Repeated => OLD_TAG_REPEATED.as_slice(),
        }
    }
}

/// Reading a severity's legacy tag gives that severity back, and a tag that
/// reads as some severity is that severity's tag: the legacy level table
/// loses nothing in either direction.
pub proof fn lemma_old_level_tag_round_trip()
    ensures
        forall|l: Level| #[trigger] parse_old_level(old_level_tag(l)) == Some(l),
        forall|s: Seq<u8>, l: Level| parse_old_level(s) == Some(l) ==> s == old_level_tag(l),
{
    assert forall|l: Level| #[trigger] parse_old_level(old_level_tag(l)) == Some(l) by {
        match l {
            Level::Emergency => {
                assert(parse_old_level(old_level_tag(Level::Emergency)) == Some(Level::Emergency));
            },
            Level::Alert => {
                assert(parse_old_level(old_level_tag(Level::Alert)) == Some(Level::Alert));
            },
            Level::Critical => {
                assert(parse_old_level(old_level_tag(Level::Critical)) == Some(Level::Critical));
            },
            Level::Error => {
                assert(parse_old_level(old_level_tag(Level::Error)) == Some(Level::Error));
            },
            Level::Warning => {
                assert(parse_old_level(old_level_tag(Level::Warning)) == Some(Level::Warning));
            },
            Level::Notice => {
                assert(parse_old_level(old_level_tag(Level::Notice)) == Some(Level::Notice));
            },
            Level::Info => {
                assert(parse_old_level(old_level_tag(Level::Info)) == Some(Level::Info));
            },
            Level::Debug => {
                assert(parse_old_level(old_level_tag(Level::Debug)) == Some(Level::Debug));
            },
            Level::Repeated => {
                assert(parse_old_level(old_level_tag(Level::Repeated)) == Some(Level::Repeated));
            },
        }
    }
}


/// The mathematical shape of a `Source`: the same three cases over byte
/// sequences instead of owned vectors.
pub enum SourceView {
    Absent,
    Name(Seq<u8>),
    NameAndPid(Seq<u8>, u32),
}

impl View for Source {
    type V = SourceView;

    open spec fn view(&self) -> SourceView {
        match self {
            Source::Absent => SourceView::Absent,
            Source::Name(v) => SourceView::Name(v@),
            Source::NameAndPid(v, p) => SourceView::NameAndPid(v@, *p),
        }
    }
}

/// What reading a source descriptor from `s` yields: `name[pid]` when a `[`
/// occurs and the text ends in `]` and the pid reads as a 32-bit number;
/// abandoned entirely when the pid does not; a bare name otherwise; nothing
/// for empty text.
pub open spec fn source_from_spec(s: Seq<u8>) -> Option<SourceView> {
    let lb = find_byte_at(s, ('[' as u8), 0);
    if lb < s.len() && s[s.len() - 1] == (']' as u8) {
        match parse_u32(s.subrange(lb + 1, s.len() - 1)) {
            Some(pid) => Some(SourceView::NameAndPid(s.subrange(0, lb), pid)),
            None => None,
        }
    } else if s.len() > 0 {
        Some(SourceView::Name(s))
    } else {
        None
    }
}

/// The source/message split of an entry's tail: the text before the first
/// `": "` is taken as a source descriptor when it reads as one; otherwise the
/// whole tail is the message. This heuristic can misread a message that
/// happens to contain `": "`; that reading is part of the format.
pub open spec fn parse_rest_spec(rest: Seq<u8>) -> (SourceView, Seq<u8>) {
    let cs = find_colon_space_at(rest, 0);
    if cs < rest.len() {
        match source_from_spec(rest.subrange(0, cs)) {
            Some(sv) => (sv, rest.subrange(cs + 2, rest.len() as int)),
            None => (SourceView::Absent, rest),
        }
    } else {
        (SourceView::Absent, rest)
    }
}

impl Source {
    /// Read a source descriptor, as the tail-splitting heuristic interprets
    /// the text before a `": "`.
    pub fn from_str(s: &[u8]) -> (r: Result<Source, ()>)
        ensures
            match source_from_spec(s@) {
                Some(sv) => r matches Ok(src) && src@ == sv,
                None => r matches Err(e),
            },
    {
        let lb = find_byte(s, ('[' as u8), 0);
        if lb < s.len() && s[s.len() - 1] == (']' as u8) {
            assert(lb != s@.len() - 1);
            match parse_u32_exec(s, lb + 1, s.len() - 1) {
                Some(pid) => Ok(Source::NameAndPid(segment_to_vec(s, 0, lb), pid)),
                None => Err(()),
            }
        } else if s.len() > 0 {
            assert(s@.subrange(0, s@.len() as int) =~= s@);
            Ok(Source::Name(segment_to_vec(s, 0, s.len())))
        } else {
            Err(())
        }
    }
}

/// One parsed record: a resolved timestamp and the line's hostname, severity,
/// source descriptor and message text.
#[derive(Debug, Clone)]
pub struct Entry {
    pub timestamp: Timestamp,
    pub hostname: Vec<u8>,
    pub level: Level,
    pub source: Source,
    pub message: Vec<u8>,
}

/// The mathematical shape of an `Entry`.
pub struct EntryView {
    pub timestamp: Timestamp,
    pub hostname: Seq<u8>,
    pub level: Level,
    pub source: SourceView,
    pub message: Seq<u8>,
}

impl View for Entry {
    type V = EntryView;

    open spec fn view(&self) -> EntryView {
        EntryView {
            timestamp: self.timestamp,
            hostname: self.hostname@,
            level: self.level,
            source: self.source@,
            message: self.message@,
        }
    }
}

impl PartialEq for Entry {
    fn eq(&self, other: &Entry) -> (r: bool) {
        let hn = self.hostname == other.hostname;
        let msg = self.message == other.message;
        proof {
            if self.hostname@ == other.hostname@ {
                assert(self.hostname@.len() == other.hostname@.len());
            }
            if hn {
                assert(self.hostname@ =~= other.hostname@);
            }
            if self.message@ == other.message@ {
                assert(self.message@.len() == other.message@.len());
            }
            if msg {
                assert(self.message@ =~= other.message@);
            }
        }
        self.timestamp == other.timestamp && hn && self.level == other.level && self.source
            == other.source && msg
    }
}

impl Eq for Entry {

}

impl vstd::std_specs::cmp::PartialEqSpecImpl for Entry {
    open spec fn obeys_eq_spec() -> bool {
        true
    }

    open spec fn eq_spec(&self, other: &Entry) -> bool {
        &&& PartialEqSpec::eq_spec(&self.timestamp, &other.timestamp)
        &&& self.hostname@ == other.hostname@
        &&& self.level == other.level
        &&& PartialEqSpec::eq_spec(&self.source, &other.source)
        &&& self.message@ == other.message@
    }
}

/// An entry as parsed off one line, before its timestamp is resolved.
#[derive(Debug, Clone)]
pub struct RawEntry {
    pub timestamp: RawTimestamp,
    pub hostname: Vec<u8>,
    pub level: Level,
    pub source: Source,
    pub message: Vec<u8>,
}

/// The mathematical shape of a `RawEntry`.
pub struct RawEntryView {
    pub timestamp: RawTimestamp,
    pub hostname: Seq<u8>,
    pub level: Level,
    pub source: SourceView,
    pub message: Seq<u8>,
}

impl View for RawEntry {
    type V = RawEntryView;

    open spec fn view(&self) -> RawEntryView {
        RawEntryView {
            timestamp: self.timestamp,
            hostname: self.hostname@,
            level: self.level,
            source: self.source@,
            message: self.message@,
        }
    }
}

/// Split an entry tail into its source descriptor and message.
pub fn parse_rest(rest: &[u8]) -> (r: Result<(Source, Vec<u8>), EntryParseError>)
    ensures
        r matches Ok(p) && ({
            let (sv, msg) = parse_rest_spec(rest@);
            p.0@ == sv && p.1@ == msg
        }),
{
    let cs = find_colon_space(rest, 0);
    if cs < rest.len() {
        match Source::from_str(&rest[0..cs]) {
            Ok(src) => Ok((src, segment_to_vec(rest, cs + 2, rest.len()))),
            Err(_) => Ok((Source::Absent, segment_to_vec(rest, 0, rest.len()))),
        }
    } else {
        Ok((Source::Absent, segment_to_vec(rest, 0, rest.len())))
    }
}

/// What parsing one candidate line as the legacy fixed-column format yields.
pub open spec fn parse_entry_old(s: Seq<u8>) -> Option<RawEntryView> {
    if s.len() < 30 {
        None
    } else {
        let level = parse_old_level(s.subrange(0, 11));
        let ts = parse_old_ts(s.subrange(11, 26));
        if s[26] != (' ' as u8) || level is None || ts is None {
            None
        } else {
            let rest = s.subrange(27, s.len() as int);
            let sp = find_byte_at(rest, (' ' as u8), 0);
            if sp == rest.len() {
                None
            } else {
                let (sv, msg) = parse_rest_spec(rest.subrange(sp + 1, rest.len() as int));
                Some(
                    RawEntryView {
                        timestamp: ts->Some_0,
                        hostname: rest.subrange(0, sp),
                        level: level->Some_0,
                        source: sv,
                        message: msg,
                    },
                )
            }
        }
    }
}

/// What parsing one candidate line as the new ISO-8601-prefixed format
/// yields: three blank-separated tokens, the third opening with a level tag.
pub open spec fn parse_entry_new(s: Seq<u8>) -> Option<RawEntryView> {
    let i1 = find_byte_at(s, (' ' as u8), 0);
    if i1 == s.len() {
        None
    } else {
        let i2 = find_byte_at(s, (' ' as u8), i1 + 1);
        if i2 == s.len() {
            None
        } else {
            let ts = parse_new_ts(s.subrange(0, i1));
            let rest = s.subrange(i2 + 1, s.len() as int);
            if ts is None || rest.len() < 13 {
                None
            } else {
                let level = parse_new_level(rest.subrange(0, 12));
                if level is None {
                    None
                } else {
                    let (sv, msg) = parse_rest_spec(rest.subrange(12, rest.len() as int));
                    Some(
                        RawEntryView {
                            timestamp: ts->Some_0,
                            hostname: s.subrange(i1 + 1, i2),
                            level: level->Some_0,
                            source: sv,
                            message: msg,
                        },
                    )
                }
            }
        }
    }
}

/// What parsing one candidate line yields: the legacy format when it
/// matches, else the new format.
pub open spec fn parse_entry_spec(s: Seq<u8>) -> Option<RawEntryView> {
    match parse_entry_old(s) {
        Some(e) => Some(e),
        None => parse_entry_new(s),
    }
}

impl RawEntry {
    /// Parse one candidate line as the legacy fixed-column format.
    pub fn parse_old(s: &[u8]) -> (r: Result<RawEntry, EntryParseError>)
        ensures
            r matches Ok(e) ==> parse_entry_old(s@) == Some(e@) && e.timestamp.wf(),
            r matches Err(e) ==> parse_entry_old(s@) is None,
    {
        if s.len() < 30 {
            return Err(EntryParseError);
        }
        let level = match old_level_at(s, 0) {
            Some(l) => l,
            None => {
                return Err(EntryParseError);
            },
        };
        let timestamp = match RawTimestamp::parse_old(&s[11..26]) {
            Ok(t) => t,
            Err(e) => {
                return Err(e);
            },
        };
        if s[26] != (' ' as u8) {
            return Err(EntryParseError);
        }
        let rest = &s[27..s.len()];
        let sp = find_byte(rest, (' ' as u8), 0);
        if sp == rest.len() {
            return Err(EntryParseError);
        }
        let hostname = segment_to_vec(rest, 0, sp);
        let (source, message) = match parse_rest(&rest[sp + 1..rest.len()]) {
            Ok(p) => p,
            Err(e) => {
                return Err(e);
            },
        };
        Ok(RawEntry { timestamp, hostname, level, source, message })
    }

    /// Parse one candidate line as the new ISO-8601-prefixed format.
    pub fn parse_new(s: &[u8]) -> (r: Result<RawEntry, EntryParseError>)
        ensures
            r matches Ok(e) ==> parse_entry_new(s@) == Some(e@) && e.timestamp.wf(),
            r matches Err(e) ==> parse_entry_new(s@) is None,
    {
        let i1 = find_byte(s, (' ' as u8), 0);
        if i1 == s.len() {
            return Err(EntryParseError);
        }
        let i2 = find_byte(s, (' ' as u8), i1 + 1);
        if i2 == s.len() {
            return Err(EntryParseError);
        }
        let timestamp = match RawTimestamp::parse_new(&s[0..i1]) {
            Ok(t) => t,
            Err(e) => {
                return Err(e);
            },
        };
        let rest = &s[i2 + 1..s.len()];
        if rest.len() < 13 {
            return Err(EntryParseError);
        }
        let level = match new_level_at(rest, 0) {
            Some(l) => l,
            None => {
                return Err(EntryParseError);
            },
        };
        let hostname = segment_to_vec(s, i1 + 1, i2);
        let (source, message) = match parse_rest(&rest[12..rest.len()]) {
            Ok(p) => p,
            Err(e) => {
                return Err(e);
            },
        };
        Ok(RawEntry { timestamp, hostname, level, source, message })
    }

    /// Parse one candidate line, trying the legacy format first.
    pub fn parse(s: &[u8]) -> (r: Result<RawEntry, EntryParseError>)
        ensures
            r matches Ok(e) ==> parse_entry_spec(s@) == Some(e@) && e.timestamp.wf(),
            r matches Err(e) ==> parse_entry_spec(s@) is None,
    {
        match RawEntry::parse_old(s) {
            Ok(e) => Ok(e),
            Err(_) => RawEntry::parse_new(s),
        }
    }
}


impl RawEntry {
    /// Resolve this entry's raw timestamp against the successor's timestamp
    /// (or the reference instant), producing the finished entry. The other
    /// fields pass through unchanged.
    pub fn cook(self, successor: Option<Timestamp>, now: &DateTime) -> (r: Result<
        Entry,
        EntryParseError,
    >)
        requires
            self.timestamp.wf(),
            now.wf(),
            successor matches Some(Timestamp::Naive(later)) ==> later.wf(),
        ensures
            match resolve_spec(self.timestamp, successor, *now) {
                Result::Ok(ts) => r matches Ok(e) && ts.wf() && e@ == (EntryView {
                    timestamp: ts,
                    hostname: self.hostname@,
                    level: self.level,
                    source: self.source@,
                    message: self.message@,
                }),
                Result::Err(e2) => r matches Err(e3) && e2 == e3,
            },
    {
        let RawEntry { timestamp, hostname, level, source, message } = self;
        match timestamp.into_timestamp(successor, now) {
            Ok(ts) => Ok(Entry { timestamp: ts, hostname, level, source, message }),
            Err(e) => Err(e),
        }
    }
}

/// The six bytes a separator line opens with.
pub const SEP_PREFIX: [u8; 6] = [45, 45, 45, 45, 45, 32];  // "----- "

/// The six bytes a separator line closes with.
pub const SEP_SUFFIX: [u8; 6] = [32, 45, 45, 45, 45, 45];  // " -----"

/// The line with one trailing carriage return removed, if it has one.
pub open spec fn trim_cr(line: Seq<u8>) -> Seq<u8> {
    if line.len() > 0 && line.last() == ('\r' as u8) {
        line.drop_last()
    } else {
        line
    }
}

/// Whether the line is a structural separator of the form `----- ... -----`.
pub open spec fn is_separator(line: Seq<u8>) -> bool {
    line.len() >= 6 && line.subrange(0, 6) == SEP_PREFIX@ && line.subrange(
        line.len() - 6,
        line.len() as int,
    ) == SEP_SUFFIX@
}

/// Whether the line never reaches the parser: empty, or a separator.
pub open spec fn skip_line(line: Seq<u8>) -> bool {
    line.len() == 0 || is_separator(line)
}

/// What one candidate line contributes to the stream, and the successor
/// timestamp the next (chronologically earlier) line will see: a skipped line
/// contributes nothing; a failed line contributes its error and leaves the
/// successor state alone; a parsed line contributes its entry and becomes the
/// new successor.
pub open spec fn line_step(line: Seq<u8>, last: Option<Timestamp>, now: DateTime) -> (Option<
    Result<EntryView, EntryParseError>,
>, Option<Timestamp>) {
    if skip_line(line) {
        (None, last)
    } else {
        match parse_entry_spec(line) {
            Option::None => (Some(Result::Err(EntryParseError)), last),
            Option::Some(raw) => match resolve_spec(raw.timestamp, last, now) {
                Result::Err(e) => (Some(Result::Err(e)), last),
                Result::Ok(ts) => (
                    Some(
                        Result::Ok(
                            EntryView {
                                timestamp: ts,
                                hostname: raw.hostname,
                                level: raw.level,
                                source: raw.source,
                                message: raw.message,
                            },
                        ),
                    ),
                    Some(ts),
                ),
            },
        }
    }
}

/// The sequence of parse results the stream yields for the part of the
/// buffer before `end`, walking line by line from the buffer's end toward
/// its start and threading the successor timestamp across steps.
pub open spec fn stream_from(
    buf: Seq<u8>,
    end: int,
    last: Option<Timestamp>,
    now: DateTime,
) -> Seq<Result<EntryView, EntryParseError>>
    decreases end,
    via stream_from_dec
{
    if end < 0 {
        Seq::empty()
    } else {
        let s = segment_start(buf, ('\n' as u8), end);
        let line = trim_cr(buf.subrange(s, end));
        let (item, last2) = line_step(line, last, now);
        let tail = if s == 0 {
            Seq::empty()
        } else {
            stream_from(buf, s - 1, last2, now)
        };
        match item {
            Option::None => tail,
            Option::Some(it) => seq![it] + tail,
        }
    }
}

#[via_fn]
proof fn stream_from_dec(buf: Seq<u8>, end: int, last: Option<Timestamp>, now: DateTime) {
    crate::bytes::lemma_segment_start_bounds(buf, ('\n' as u8), end);
}

/// The parse result with the entry replaced by its mathematical shape.
pub open spec fn item_view(r: Result<Entry, EntryParseError>) -> Result<EntryView, EntryParseError> {
    match r {
        Result::Ok(e) => Result::Ok(e@),
        Result::Err(x) => Result::Err(x),
    }
}

/// A retrieved set of system log entries: the raw log text and the reference
/// instant it was generated at (in UTC), which anchors the resolution of
/// partial timestamps. Immutable once built; every iterator walks it afresh.
#[derive(Debug, Clone)]
pub struct Entries {
    buffer: Vec<u8>,
    generated_at: DateTime,
}

impl Entries {
    /// The reference instant is a proper date-time.
    pub closed spec fn wf(self) -> bool {
        self.generated_at.wf()
    }

    /// The raw log text.
    pub closed spec fn buf(self) -> Seq<u8> {
        self.buffer@
    }

    /// The instant the log was generated, in UTC.
    pub closed spec fn reference_instant(self) -> DateTime {
        self.generated_at
    }

    /// Every parse result this set of entries yields, newest line first.
    pub open spec fn stream(self) -> Seq<Result<EntryView, EntryParseError>> {
        stream_from(self.buf(), self.buf().len() as int, None, self.reference_instant())
    }

    /// Wrap a retrieved log buffer and the instant it was generated at,
    /// expressed in UTC (sourced from the HTTP `Date:` response header, or
    /// from the wall clock when that is missing).
    pub fn new(buffer: Vec<u8>, generated_at: DateTime) -> (r: Entries)
        requires
            generated_at.wf(),
        ensures
            r.wf(),
            r.buf() == buffer@,
            r.reference_instant() == generated_at,
    {
        Entries { buffer, generated_at }
    }

    /// A fresh iterator over the entries, newest first. Iterators share no
    /// state: each walks the buffer from its end independently.
    pub fn iter(&self) -> (it: EntriesIter)
        requires
            self.wf(),
        ensures
            it.wf(),
            it.emitted() == Seq::<Result<EntryView, EntryParseError>>::empty(),
            it.remaining() == self.stream(),
    {
        EntriesIter {
            buf: &self.buffer,
            end: self.buffer.len(),
            done: false,
            last: None,
            now: self.generated_at,
            emitted: Ghost(Seq::empty()),
        }
    }
}

/// An iterator over parsed entries, newest line first. It carries the most
/// recently resolved timestamp forward as the successor hint for the next
/// (chronologically earlier) line; a failed line leaves that hint alone.
pub struct EntriesIter<'a> {
    buf: &'a Vec<u8>,
    end: usize,
    done: bool,
    last: Option<Timestamp>,
    now: DateTime,
    emitted: Ghost<Seq<Result<EntryView, EntryParseError>>>,
}

impl<'a> EntriesIter<'a> {
    /// The parse results this iterator has yielded so far.
    pub closed spec fn emitted(self) -> Seq<Result<EntryView, EntryParseError>> {
        self.emitted@
    }

    /// The parse results this iterator has yet to yield.
    pub closed spec fn remaining(self) -> Seq<Result<EntryView, EntryParseError>> {
        if self.done {
            Seq::empty()
        } else {
            stream_from(self.buf@, self.end as int, self.last, self.now)
        }
    }

    /// The position is inside the buffer, the reference instant is a proper
    /// date-time, and any successor hint is a proper naive timestamp.
    pub closed spec fn wf(self) -> bool {
        &&& self.end <= self.buf@.len()
        &&& self.now.wf()
        &&& (self.last matches Some(Timestamp::Naive(later)) ==> later.wf())
    }

    /// Yield the parse result of the next non-skipped line, or nothing when
    /// the buffer is exhausted: exactly the head of `remaining()`.
    pub fn next(&mut self) -> (r: Option<Result<Entry, EntryParseError>>)
        requires
            old(self).wf(),
        ensures
            final(self).wf(),
            match r {
                Option::None => final(self).emitted() == old(self).emitted()
                    && final(self).remaining() == Seq::<Result<EntryView, EntryParseError>>::empty()
                    && old(self).remaining() == Seq::<Result<EntryView, EntryParseError>>::empty(),
                Option::Some(item) => {
                    &&& old(self).remaining().len() > 0
                    &&& item_view(item) == old(self).remaining().first()
                    &&& final(self).remaining() == old(self).remaining().drop_first()
                    &&& final(self).emitted() == old(self).emitted().push(item_view(item))
                },
            },
    {
        loop
            invariant
                self.wf(),
                self.buf == old(self).buf,
                self.emitted() == old(self).emitted(),
                self.remaining() == old(self).remaining(),
            decreases (if self.done {
                0int
            } else {
                self.end + 1
            }),
        {
            if self.done {
                return None;
            }
            let end = self.end;
            let ghost last0 = self.last;
            let ghost remaining0 = stream_from(self.buf@, end as int, self.last, self.now);
            let s = crate::bytes::find_segment_start(self.buf.as_slice(), ('\n' as u8), end);
            let le: usize = if end > s && self.buf[end - 1] == ('\r' as u8) {
                end - 1
            } else {
                end
            };
            proof {
                let raw_line = self.buf@.subrange(s as int, end as int);
                if end > s && self.buf@[end - 1] == ('\r' as u8) {
                    assert(raw_line.last() == self.buf@[end - 1]);
                    assert(raw_line.drop_last() =~= self.buf@.subrange(s as int, le as int));
                }
                assert(trim_cr(raw_line) == self.buf@.subrange(s as int, le as int));
            }
            let line = segment_to_vec(self.buf.as_slice(), s, le);
            let skip = line.len() == 0 || (line.len() >= 6 && eq_at(
                line.as_slice(),
                0,
                SEP_PREFIX.as_slice(),
            ) && eq_at(line.as_slice(), line.len() - 6, SEP_SUFFIX.as_slice()));
            assert(skip == skip_line(line@));
            if skip {
                proof {
                    let lineq = self.buf@.subrange(s as int, le as int);
                    assert(line_step(lineq, last0, self.now).0 is None);
                    assert(line_step(lineq, last0, self.now).1 == last0);
                }
                if s == 0 {
                    self.done = true;
                } else {
                    self.end = s - 1;
                }
                continue;
            }
            let now = self.now;
            let (item, new_last): (Result<Entry, EntryParseError>, Option<Timestamp>) =
                process_line(&line, self.last, &now);
            self.last = new_last;
            if s == 0 {
                self.done = true;
            } else {
                self.end = s - 1;
            }
            proof {
                let lineq = self.buf@.subrange(s as int, le as int);
                let stepres = line_step(lineq, last0, self.now);
                assert(stepres.0 is Some);
                let it = stepres.0->Some_0;
                assert(item_view(item) == it);
                assert(self.last == stepres.1);
                let tail = if s == 0 {
                    Seq::<Result<EntryView, EntryParseError>>::empty()
                } else {
                    stream_from(self.buf@, s - 1, stepres.1, self.now)
                };
                assert(remaining0 == seq![it] + tail);
                assert(self.remaining() == tail);
                assert(remaining0.first() == it);
                assert(remaining0.drop_first() =~= tail);
            }
            self.emitted = Ghost(self.emitted@.push(item_view(item)));
            return Some(item);
        }
    }
}



/// Parse one non-skipped line and resolve its timestamp, handing back the
/// item to yield and the successor state for the next line.
fn process_line(line: &Vec<u8>, last: Option<Timestamp>, now: &DateTime) -> (r: (
    Result<Entry, EntryParseError>,
    Option<Timestamp>,
))
    requires
        !skip_line(line@),
        now.wf(),
        last matches Some(Timestamp::Naive(later)) ==> later.wf(),
    ensures
        ({
            let (it, last2) = line_step(line@, last, *now);
            &&& it == Some(item_view(r.0))
            &&& r.1 == last2
            &&& (r.1 matches Some(Timestamp::Naive(later)) ==> later.wf())
        }),
{
    match RawEntry::parse(line.as_slice()) {
        Err(e) => (Err(e), last),
        Ok(raw) => {
            match raw.cook(last, now) {
                Err(e) => (Err(e), last),
                Ok(entry) => {
                    let ts = entry.timestamp;
                    (Ok(entry), Some(ts))
                },
            }
        },
    }
}

/// The ordering of two integers.
pub open spec fn int_cmp(x: int, y: int) -> core::cmp::Ordering {
    if x < y {
        core::cmp::Ordering::Less
    } else if x == y {
        core::cmp::Ordering::Equal
    } else {
        core::cmp::Ordering::Greater
    }
}

/// The ordering of two civil date-times, field by field from the year down
/// to the millisecond, as naive date-times compare.
pub open spec fn civil_cmp(a: DateTime, b: DateTime) -> core::cmp::Ordering {
    if a.year != b.year {
        int_cmp(a.year as int, b.year as int)
    } else if a.month != b.month {
        int_cmp(a.month as int, b.month as int)
    } else if a.day != b.day {
        int_cmp(a.day as int, b.day as int)
    } else if a.time.hour != b.time.hour {
        int_cmp(a.time.hour as int, b.time.hour as int)
    } else if a.time.minute != b.time.minute {
        int_cmp(a.time.minute as int, b.time.minute as int)
    } else if a.time.second != b.time.second {
        int_cmp(a.time.second as int, b.time.second as int)
    } else {
        int_cmp(a.time.milli as int, b.time.milli as int)
    }
}

/// Compare two integers.
fn int_cmp_exec(x: i128, y: i128) -> (r: core::cmp::Ordering)
    ensures
        r == int_cmp(x as int, y as int),
{
    if x < y {
        core::cmp::Ordering::Less
    } else if x == y {
        core::cmp::Ordering::Equal
    } else {
        core::cmp::Ordering::Greater
    }
}

impl PartialOrd for Timestamp {
    /// Two naive timestamps order by their civil fields; two offset
    /// timestamps order by the instants they denote; mixed kinds do not
    /// order at all.
    fn partial_cmp(&self, other: &Timestamp) -> (r: Option<core::cmp::Ordering>) {
        match (self, other) {
            (Timestamp::Naive(a), Timestamp::Naive(b)) => {
                if a.year != b.year {
                    Some(int_cmp_exec(a.year as i128, b.year as i128))
                } else if a.month != b.month {
                    Some(int_cmp_exec(a.month as i128, b.month as i128))
                } else if a.day != b.day {
                    Some(int_cmp_exec(a.day as i128, b.day as i128))
                } else if a.time.hour != b.time.hour {
                    Some(int_cmp_exec(a.time.hour as i128, b.time.hour as i128))
                } else if a.time.minute != b.time.minute {
                    Some(int_cmp_exec(a.time.minute as i128, b.time.minute as i128))
                } else if a.time.second != b.time.second {
                    Some(int_cmp_exec(a.time.second as i128, b.time.second as i128))
                } else {
                    Some(int_cmp_exec(a.time.milli as i128, b.time.milli as i128))
                }
            },
            (Timestamp::FixedOffset(a), Timestamp::FixedOffset(b)) => {
                Some(int_cmp_exec(a.utc_millis_exec(), b.utc_millis_exec()))
            },
            _ => None,
        }
    }
}

impl vstd::std_specs::cmp::PartialOrdSpecImpl for Timestamp {
    open spec fn obeys_partial_cmp_spec() -> bool {
        true
    }

    open spec fn partial_cmp_spec(&self, other: &Timestamp) -> Option<core::cmp::Ordering> {
        match (self, other) {
            (Timestamp::Naive(a), Timestamp::Naive(b)) => Some(civil_cmp(*a, *b)),
            (Timestamp::FixedOffset(a), Timestamp::FixedOffset(b)) => Some(
                int_cmp(a.utc_millis(), b.utc_millis()),
            ),
            _ => None,
        }
    }
}


impl PartialEq for RawEntry {
    fn eq(&self, other: &RawEntry) -> (r: bool) {
        let hn = self.hostname == other.hostname;
        let msg = self.message == other.message;
        proof {
            if self.hostname@ == other.hostname@ {
                assert(self.hostname@.len() == other.hostname@.len());
            }
            if hn {
                assert(self.hostname@ =~= other.hostname@);
            }
            if self.message@ == other.message@ {
                assert(self.message@.len() == other.message@.len());
            }
            if msg {
                assert(self.message@ =~= other.message@);
            }
        }
        self.timestamp == other.timestamp && hn && self.level == other.level && self.source
            == other.source && msg
    }
}

impl vstd::std_specs::cmp::PartialEqSpecImpl for RawEntry {
    open spec fn obeys_eq_spec() -> bool {
        true
    }

    open spec fn eq_spec(&self, other: &RawEntry) -> bool {
        &&& PartialEqSpec::eq_spec(&self.timestamp, &other.timestamp)
        &&& self.hostname@ == other.hostname@
        &&& self.level == other.level
        &&& PartialEqSpec::eq_spec(&self.source, &other.source)
        &&& self.message@ == other.message@
    }
}


/// Whether every line of the part of the buffer before `end` is skipped:
/// blank after trimming, or a structural separator.
pub open spec fn all_lines_skipped(buf: Seq<u8>, end: int) -> bool
    decreases end,
    via all_lines_skipped_dec
{
    if end < 0 {
        true
    } else {
        let s = segment_start(buf, ('\n' as u8), end);
        skip_line(trim_cr(buf.subrange(s, end))) && (s == 0 || all_lines_skipped(buf, s - 1))
    }
}

#[via_fn]
proof fn all_lines_skipped_dec(buf: Seq<u8>, end: int) {
    crate::bytes::lemma_segment_start_bounds(buf, ('\n' as u8), end);
}

/// A buffer holding only blank lines and separator lines yields the empty
/// stream: no entries and no errors, whatever the successor state and the
/// reference instant.
pub proof fn lemma_skipped_buffer_yields_nothing(
    buf: Seq<u8>,
    end: int,
    last: Option<Timestamp>,
    now: DateTime,
)
    requires
        all_lines_skipped(buf, end),
    ensures
        stream_from(buf, end, last, now) == Seq::<Result<EntryView, EntryParseError>>::empty(),
    decreases end,
{
    if end >= 0 {
        let s = segment_start(buf, ('\n' as u8), end);
        crate::bytes::lemma_segment_start_bounds(buf, ('\n' as u8), end);
        if s != 0 {
            lemma_skipped_buffer_yields_nothing(buf, s - 1, last, now);
        }
    }
}

/// An entry with no successor resolves against the supplied reference
/// instant alone: the resolver's anchor is the reference instant itself.
pub proof fn lemma_no_successor_anchors_on_reference(raw: RawTimestamp, now: DateTime)
    ensures
        resolve_spec(raw, None, now) == (match raw {
            RawTimestamp::Partial(m, d, t) => match resolve_partial(m, d, t, now) {
                Some(c) => Result::<Timestamp, EntryParseError>::Ok(Timestamp::Naive(c)),
                None => Result::<Timestamp, EntryParseError>::Err(EntryParseError),
            },
            RawTimestamp::FixedOffset(odt) => Result::<Timestamp, EntryParseError>::Ok(
                Timestamp::FixedOffset(odt),
            ),
        }),
{
}

} // verus!
