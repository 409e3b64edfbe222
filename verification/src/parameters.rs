//! The legacy parameters interface: the definition tree a device describes
//! its parameters with, the four-digit security-level encoding, and the
//! parsing of plain `name=value` parameter listings.

use crate::bytes::find_byte;
use vstd::prelude::*;

verus! {

/// A set of parameter definitions, as a device describes them.
#[derive(Debug)]
pub struct ParameterDefinitions {
    /// The version of the data structures used to describe the definitions;
    /// in practice always `"1.0"`.
    pub schema_version: String,
    /// The name of the device model.
    pub model: Option<String>,
    /// The version of firmware running on the device.
    pub firmware_version: Option<String>,
    /// The parameter groups provided by the device.
    pub groups: Vec<ParameterGroupDefinition>,
}

/// A group of parameter definitions; may contain parameters and further
/// groups.
#[derive(Debug)]
pub struct ParameterGroupDefinition {
    /// The name of the parameter group.
    pub name: String,
    /// Purpose unknown.
    pub max_groups: Option<u32>,
    /// The parameter groups nested within this group.
    pub groups: Vec<ParameterGroupDefinition>,
    /// The parameters nested within this group.
    pub parameters: Vec<ParameterDefinition>,
}

/// A parameter definition.
#[derive(Debug)]
pub struct ParameterDefinition {
    /// The name of the parameter.
    pub name: String,
    /// The current value of the parameter, if any, expressed as a string.
    pub current_value: Option<String>,
    /// The security level of the parameter.
    pub security_level: Option<u32>,
    /// The name to display to the user, if different from `name`.
    pub nice_name: Option<String>,
    /// The type of this parameter, if provided.
    pub parameter_type: Option<ParameterTypeDefinition>,
}

/// A parameter type definition, describing flags and type information.
#[derive(Debug)]
pub struct ParameterTypeDefinition {
    /// Is this parameter read-only?
    pub read_only: Option<bool>,
    /// Is this parameter write-only?
    pub write_only: Option<bool>,
    /// Should this parameter be displayed?
    pub hidden: Option<bool>,
    /// Is this parameter constant?
    pub constant: Option<bool>,
    /// Purpose unknown.
    pub no_sync: Option<bool>,
    /// Purpose unknown.
    pub internal: Option<bool>,
    /// The type definition, describing the parameter's domain and encoding.
    pub type_definition: TypeDefinition,
}

/// A type definition, describing a parameter's domain and encoding.
#[derive(Debug)]
pub enum TypeDefinition {
    /// A string, to be displayed as a text box.
    String(StringParameterDefinition),
    /// A string, to be displayed as a password box.
    Password(PasswordParameterDefinition),
    /// An integer, to be displayed as a text box.
    Int(IntParameterDefinition),
    /// An enumeration, to be displayed as a select box.
    Enum(EnumParameterDefinition),
    /// A boolean, to be displayed as a select box.
    Bool(BoolParameterDefinition),
    /// An IP address.
    Ip,
    /// A list of IP addresses.
    IpList,
    /// A hostname.
    Hostname,
    /// A string, to be displayed as a multiline text box.
    TextArea,
}

/// String parameter definition details.
#[derive(Debug)]
pub struct StringParameterDefinition {
    /// The maximum length of the string.
    pub max_len: Option<u32>,
}

/// Password parameter definition details.
#[derive(Debug)]
pub struct PasswordParameterDefinition {
    /// The maximum length of the string.
    pub max_len: Option<u32>,
}

/// Integer parameter definition details.
#[derive(Debug)]
pub struct IntParameterDefinition {
    /// The minimum value of the integer.
    pub min: Option<i64>,
    /// The maximum value of the integer.
    pub max: Option<i64>,
    /// The maximum length of the integer as a string.
    pub max_len: Option<u8>,
    /// Ranges in which the integer must be contained.
    pub range_entries: Option<Vec<IntParameterRangeDefinition>>,
}

/// Integer parameter range definition details.
#[derive(Debug)]
pub struct IntParameterRangeDefinition {
    /// The range, expressed as a string such as `"0"` or `"1024-65534"`.
    pub value: String,
}

/// Enumeration parameter definition details.
#[derive(Debug)]
pub struct EnumParameterDefinition {
    /// The entries from which the parameter value must be selected.
    pub values: Vec<EnumEntryDefinition>,
}

/// An enumeration entry.
#[derive(Debug)]
pub struct EnumEntryDefinition {
    /// The value of the parameter.
    pub value: String,
    /// The value to display to the user, if different from `value`.
    pub nice_value: Option<String>,
}

/// Boolean parameter definition details.
#[derive(Debug)]
pub struct BoolParameterDefinition {
    /// The string value used to represent `true`.
    pub true_value: String,
    /// The string value used to represent `false`.
    pub false_value: String,
}

impl ParameterGroupDefinition {
    /// Find the first nested parameter group with the given name.
    pub fn group(&self, name: &str) -> (r: Option<&ParameterGroupDefinition>)
        ensures
            match r {
                Some(g) => exists|i: int|
                    0 <= i < self.groups@.len() && *g == self.groups@[i] && g.name@ == name@
                        && forall|j: int| 0 <= j < i ==> self.groups@[j].name@ != name@,
                None => forall|i: int|
                    0 <= i < self.groups@.len() ==> #[trigger] self.groups@[i].name@ != name@,
            },
    {
        let wanted: String = name.to_owned();
        let n = self.groups.len();
        let mut i: usize = 0;
        while i < n
            invariant
                n == self.groups@.len(),
                i <= n,
                wanted@ == name@,
                forall|j: int| 0 <= j < i ==> #[trigger] self.groups@[j].name@ != name@,
            decreases n - i,
        {
            if self.groups[i].name == wanted {
                return Some(&self.groups[i]);
            }
            i = i + 1;
        }
        None
    }

    /// Find the first nested parameter with the given name.
    pub fn parameter(&self, name: &str) -> (r: Option<&ParameterDefinition>)
        ensures
            match r {
                Some(p) => exists|i: int|
                    0 <= i < self.parameters@.len() && *p == self.parameters@[i] && p.name@
                        == name@ && forall|j: int|
                        0 <= j < i ==> self.parameters@[j].name@ != name@,
                None => forall|i: int|
                    0 <= i < self.parameters@.len() ==> #[trigger] self.parameters@[i].name@
                        != name@,
            },
    {
        let wanted: String = name.to_owned();
        let n = self.parameters.len();
        let mut i: usize = 0;
        while i < n
            invariant
                n == self.parameters@.len(),
                i <= n,
                wanted@ == name@,
                forall|j: int| 0 <= j < i ==> #[trigger] self.parameters@[j].name@ != name@,
            decreases n - i,
        {
            if self.parameters[i].name == wanted {
                return Some(&self.parameters[i]);
            }
            i = i + 1;
        }
        None
    }
}

impl ParameterDefinition {
    /// What `as_bool` yields: the parameter's current value read through its
    /// boolean type definition, when it has both.
    pub open spec fn as_bool_spec(self) -> Option<bool> {
        match (self.current_value, self.parameter_type) {
            (Some(v), Some(pt)) => match pt.type_definition {
                TypeDefinition::Bool(td) => if v@ == td.true_value@ {
                    Some(true)
                } else if v@ == td.false_value@ {
                    Some(false)
                } else {
                    None
                },
                _ => None,
            },
            _ => None,
        }
    }

    /// Return this parameter as a `bool`. Yields nothing when the parameter
    /// has no current value, no type, a type other than boolean, or a value
    /// that is neither the type's true-string nor its false-string.
    pub fn as_bool(&self) -> (r: Option<bool>)
        ensures
            r == self.as_bool_spec(),
    {
        match (self.current_value.as_ref(), self.parameter_type.as_ref()) {
            (Some(value), Some(pt)) => match &pt.type_definition {
                TypeDefinition::Bool(td) => {
                    if *value == td.true_value {
                        Some(true)
                    } else if *value == td.false_value {
                        Some(false)
                    } else {
                        None
                    }
                },
                _ => None,
            },
            _ => None,
        }
    }
}

/// An access level, one of the five digits a security level is written with.
#[derive(Debug, Copy, Clone, PartialEq, Eq, Structural, PartialOrd, Ord)]
pub enum AccessLevel {
    /// Not subject to access control.
    Unprotected,
    /// Accessible to viewers, operators, or administrators.
    ViewerAccess,
    /// Accessible to operators or administrators.
    OperatorAccess,
    /// Accessible to administrators.
    AdministratorAccess,
    /// Root access: internal parameters changed by firmware applications or
    /// by root directly.
    RootAccess,
}

/// A character that does not name an access level.
#[derive(Debug, Copy, Clone, PartialEq, Eq, Structural, PartialOrd, Ord)]
pub struct BadAccessLevelError(pub char);

/// The access level each digit character names.
pub open spec fn access_level_of_char(c: char) -> Option<AccessLevel> {
    if c == '0' {
        Some(AccessLevel::Unprotected)
    } else if c == '1' {
        Some(AccessLevel::ViewerAccess)
    } else if c == '4' {
        Some(AccessLevel::OperatorAccess)
    } else if c == '6' {
        Some(AccessLevel::AdministratorAccess)
    } else if c == '7' {
        Some(AccessLevel::RootAccess)
    } else {
        None
    }
}

/// The digit character each access level is written as.
pub open spec fn char_of_access_level(al: AccessLevel) -> char {
    match al {
        AccessLevel::Unprotected => '0',
        AccessLevel::ViewerAccess => '1',
        AccessLevel::OperatorAccess => '4',
        AccessLevel::AdministratorAccess => '6',
        AccessLevel::RootAccess => '7',
    }
}

impl AccessLevel {
    /// The access level the given digit character names.
    pub fn try_from(value: char) -> (r: Result<AccessLevel, BadAccessLevelError>)
        ensures
            match access_level_of_char(value) {
                Some(al) => r == Result::<AccessLevel, BadAccessLevelError>::Ok(al),
                None => r == Result::<AccessLevel, BadAccessLevelError>::Err(
                    BadAccessLevelError(value),
                ),
            },
    {
        match value {
            '0' => Ok(AccessLevel::Unprotected),
            '1' => Ok(AccessLevel::ViewerAccess),
            '4' => Ok(AccessLevel::OperatorAccess),
            '6' => Ok(AccessLevel::AdministratorAccess),
            '7' => Ok(AccessLevel::RootAccess),
            other => Err(BadAccessLevelError(other)),
        }
    }

    /// The digit character this access level is written as.
    pub fn to_char(self) -> (r: char)
        ensures
            r == char_of_access_level(self),
    {
        match self {
            AccessLevel::Unprotected => '0',
            AccessLevel::ViewerAccess => '1',
            AccessLevel::OperatorAccess => '4',
            AccessLevel::AdministratorAccess => '6',
            AccessLevel::RootAccess => '7',
        }
    }
}

/// A parameter's security level: one access level each for creating,
/// deleting, reading and writing, written as four digit characters.
#[derive(Debug, Copy, Clone, PartialEq, Eq, Structural, PartialOrd, Ord)]
pub struct SecurityLevel {
    pub create: AccessLevel,
    pub delete: AccessLevel,
    pub read: AccessLevel,
    pub write: AccessLevel,
}

/// A string that does not encode a security level.
#[derive(Debug)]
pub enum BadSecurityLevelError {
    /// A character did not name an access level.
    BadAccessLevel(BadAccessLevelError),
    /// The string was not exactly four characters; it is carried whole.
    WrongLength(String),
}

/// Whether the first `n` characters of `s` all name access levels.
pub open spec fn levels_up_to(s: Seq<char>, n: int) -> bool {
    forall|i: int| 0 <= i < n ==> access_level_of_char(#[trigger] s[i]) is Some
}

impl SecurityLevel {
    /// Read a security level from its four-digit encoding. The first
    /// character that fails to name an access level is reported; a string
    /// that is too short or too long (its first four characters all naming
    /// levels) is reported whole as the wrong length.
    pub fn from_str(s: &str) -> (r: Result<SecurityLevel, BadSecurityLevelError>)
        ensures
            match r {
                Ok(sl) => {
                    &&& s@.len() == 4
                    &&& access_level_of_char(s@[0]) == Some(sl.create)
                    &&& access_level_of_char(s@[1]) == Some(sl.delete)
                    &&& access_level_of_char(s@[2]) == Some(sl.read)
                    &&& access_level_of_char(s@[3]) == Some(sl.write)
                },
                Err(BadSecurityLevelError::BadAccessLevel(e)) => exists|i: int|
                    0 <= i < s@.len() && i < 4 && levels_up_to(s@, i) && access_level_of_char(
                        #[trigger] s@[i],
                    ) is None && e.0 == s@[i],
                Err(BadSecurityLevelError::WrongLength(t)) => t@ == s@ && s@.len() != 4
                    && levels_up_to(s@, if s@.len() < 4 {
                    s@.len() as int
                } else {
                    4
                }),
            },
    {
        let n = s.unicode_len();
        let mut levels: Vec<AccessLevel> = Vec::new();
        let mut i: usize = 0;
        while i < 4
            invariant
                n == s@.len(),
                i <= 4,
                levels@.len() == i,
                levels_up_to(s@, i as int),
                forall|j: int|
                    0 <= j < i ==> access_level_of_char(#[trigger] s@[j]) == Some(levels@[j]),
            decreases 4 - i,
        {
            if i >= n {
                return Err(BadSecurityLevelError::WrongLength(s.to_owned()));
            }
            let c = s.get_char(i);
            match AccessLevel::try_from(c) {
                Ok(al) => {
                    levels.push(al);
                },
                Err(e) => {
                    return Err(BadSecurityLevelError::BadAccessLevel(e));
                },
            }
            i = i + 1;
        }
        if n != 4 {
            return Err(BadSecurityLevelError::WrongLength(s.to_owned()));
        }
        Ok(
            SecurityLevel {
                create: levels[0],
                delete: levels[1],
                read: levels[2],
                write: levels[3],
            },
        )
    }

    /// The four digit characters this security level is written as, in
    /// create, delete, read, write order.
    pub fn to_chars(&self) -> (r: Vec<char>)
        ensures
            r@ == seq![
                char_of_access_level(self.create),
                char_of_access_level(self.delete),
                char_of_access_level(self.read),
                char_of_access_level(self.write),
            ],
    {
        let mut out: Vec<char> = Vec::new();
        out.push(self.create.to_char());
        out.push(self.delete.to_char());
        out.push(self.read.to_char());
        out.push(self.write.to_char());
        proof {
            assert(out@ =~= seq![
                char_of_access_level(self.create),
                char_of_access_level(self.delete),
                char_of_access_level(self.read),
                char_of_access_level(self.write),
            ]);
        }
        out
    }
}

/// The `name=value` pairs a plain parameter listing holds: one per line,
/// split at the first `=`; lines without a `=` are dropped.
pub open spec fn parameter_list_spec(body: Seq<u8>, end: int) -> Seq<(Seq<u8>, Seq<u8>)>
    decreases end,
    via parameter_list_spec_dec
{
    if end < 0 {
        Seq::empty()
    } else {
        let s = crate::bytes::segment_start(body, ('\n' as u8), end);
        let line = body.subrange(s, end);
        let eq = crate::bytes::find_byte_at(line, ('=' as u8), 0);
        let head = if s == 0 {
            Seq::empty()
        } else {
            parameter_list_spec(body, s - 1)
        };
        if eq < line.len() {
            head + seq![(line.subrange(0, eq), line.subrange(eq + 1, line.len() as int))]
        } else {
            head
        }
    }
}

#[via_fn]
proof fn parameter_list_spec_dec(body: Seq<u8>, end: int) {
    crate::bytes::lemma_segment_start_bounds(body, ('\n' as u8), end);
}

/// Split a plain parameter listing into its `name=value` pairs, in the order
/// the lines stand in the body.
pub fn parse_parameter_list(body: &[u8]) -> (r: Vec<(Vec<u8>, Vec<u8>)>)
    ensures
        r@.len() == parameter_list_spec(body@, body@.len() as int).len(),
        forall|i: int|
            0 <= i < r@.len() ==> {
                let (k, v) = #[trigger] parameter_list_spec(body@, body@.len() as int)[i];
                r@[i].0@ == k && r@[i].1@ == v
            },
{
    let mut pairs_rev: Vec<(Vec<u8>, Vec<u8>)> = Vec::new();
    let mut end: usize = body.len();
    let mut done: bool = false;
    let ghost whole = parameter_list_spec(body@, body@.len() as int);
    while !done
        invariant
            end <= body@.len(),
            !done ==> whole == parameter_list_spec(body@, end as int) + rev_pairs(pairs_rev@),
            done ==> whole == rev_pairs(pairs_rev@),
        decreases end + (if done {
            0int
        } else {
            1int
        }),
    {
        let s = crate::bytes::find_segment_start(body, ('\n' as u8), end);
        let line = crate::bytes::segment_to_vec(body, s, end);
        let eq = find_byte(line.as_slice(), ('=' as u8), 0);
        if eq < line.len() {
            let k = crate::bytes::segment_to_vec(line.as_slice(), 0, eq);
            let v = crate::bytes::segment_to_vec(line.as_slice(), eq + 1, line.len());
            let ghost before = rev_pairs(pairs_rev@);
            pairs_rev.push((k, v));
            proof {
                assert(pairs_rev@.drop_last() =~= pairs_rev@.subrange(
                    0,
                    pairs_rev@.len() - 1,
                ));
                assert(rev_pairs(pairs_rev@) =~= seq![
                    (line@.subrange(0, eq as int), line@.subrange(eq + 1, line@.len() as int)),
                ] + before);
            }
        }
        if s == 0 {
            done = true;
        } else {
            end = s - 1;
        }
    }
    let mut out: Vec<(Vec<u8>, Vec<u8>)> = Vec::new();
    let n = pairs_rev.len();
    let mut i: usize = 0;
    while i < n
        invariant
            n == pairs_rev@.len(),
            i <= n,
            out@.len() == i,
            forall|j: int|
                0 <= j < i ==> {
                    let p = #[trigger] rev_pairs(pairs_rev@)[j];
                    out@[j].0@ == p.0 && out@[j].1@ == p.1
                },
            whole == rev_pairs(pairs_rev@),
        decreases n - i,
    {
        let ghost oldi = i as int;
        let pair = &pairs_rev[n - 1 - i];
        let k2 = crate::bytes::segment_to_vec(pair.0.as_slice(), 0, pair.0.len());
        let v2 = crate::bytes::segment_to_vec(pair.1.as_slice(), 0, pair.1.len());
        proof {
            assert(pair.0@.subrange(0, pair.0@.len() as int) =~= pair.0@);
            assert(pair.1@.subrange(0, pair.1@.len() as int) =~= pair.1@);
            assert(rev_pairs(pairs_rev@)[oldi] == (pairs_rev@[n - 1 - oldi].0@, pairs_rev@[n - 1
                - oldi].1@));
        }
        out.push((k2, v2));
        i = i + 1;
    }
    out
}

/// The views of `pairs`, in reverse order.
pub open spec fn rev_pairs(pairs: Seq<(Vec<u8>, Vec<u8>)>) -> Seq<(Seq<u8>, Seq<u8>)> {
    Seq::new(pairs.len(), |i: int| (pairs[pairs.len() - 1 - i].0@, pairs[pairs.len() - 1 - i].1@))
}

/// What answering an update request means: the body `OK` reports success, a
/// body opening with `# ` reports a failure the device explains, and any
/// other body is an unrecognized failure.
#[derive(Debug, Copy, Clone, PartialEq, Eq, Structural)]
pub enum UpdateOutcome {
    /// The update succeeded.
    Success,
    /// The device reported an error; the body holds its message.
    ExplainedFailure,
    /// The response was not recognized.
    UnknownFailure,
}

/// The bytes of `"OK"`.
pub const OK_BODY: [u8; 2] = [79, 75];

/// The bytes of `"# "`.
pub const HASH_BLANK: [u8; 2] = [35, 32];

/// The outcome an update response body reports.
pub open spec fn update_outcome_spec(body: Seq<u8>) -> UpdateOutcome {
    if body == OK_BODY@ {
        UpdateOutcome::Success
    } else if body.len() >= 2 && body.subrange(0, 2) == HASH_BLANK@ {
        UpdateOutcome::ExplainedFailure
    } else {
        UpdateOutcome::UnknownFailure
    }
}

/// Classify the response body of a parameter update request.
pub fn classify_update_response(body: &[u8]) -> (r: UpdateOutcome)
    ensures
        r == update_outcome_spec(body@),
{
    if body.len() == 2 && body[0] == 79 && body[1] == 75 {
        proof {
            assert(body@ =~= OK_BODY@);
        }
        UpdateOutcome::Success
    } else if body.len() >= 2 && body[0] == 35 && body[1] == 32 {
        proof {
            assert(body@ != OK_BODY@);
            assert(body@.subrange(0, 2) =~= HASH_BLANK@);
        }
        UpdateOutcome::ExplainedFailure
    } else {
        proof {
            if body@ == OK_BODY@ {
                assert(body@.len() == 2 && body@[0] == 79 && body@[1] == 75);
            }
            if body@.len() >= 2 && body@.subrange(0, 2) == HASH_BLANK@ {
                assert(body@[0] == body@.subrange(0, 2)[0]);
                assert(body@[1] == body@.subrange(0, 2)[1]);
            }
        }
        UpdateOutcome::UnknownFailure
    }
}

} // verus!
