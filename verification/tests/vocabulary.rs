use vapix::application::{Architecture, ElfFacts, SOC};
use vapix::error::{ApiError, RawJsonApiError};
use vapix::recordings::{recordings_support, RecordingsSupport};
use vapix::parameters::{
    classify_update_response, parse_parameter_list, AccessLevel, BadSecurityLevelError,
    BoolParameterDefinition, ParameterDefinition, ParameterGroupDefinition,
    ParameterTypeDefinition, SecurityLevel, TypeDefinition, UpdateOutcome,
};

#[test]
fn architecture_names_and_params() {
    assert_eq!(Architecture::all().len(), 8);
    assert_eq!(Architecture::Armv7Hf.display_name(), "ARMv7-HF");
    assert_eq!(Architecture::from_param(b"armv7hf"), Some(Architecture::Armv7Hf));
    assert_eq!(Architecture::from_param(b"aarch64"), Some(Architecture::Aarch64));
    assert_eq!(Architecture::from_param(b"riscv"), None);
    assert_eq!(Architecture::from_param(b""), None);
}

#[test]
fn soc_names_years_and_architectures() {
    assert_eq!(SOC::all().len(), 17);
    assert_eq!(SOC::Artpec7.display_name(), "Axis ARTPEC-7");
    assert_eq!(SOC::Artpec1.year(), 1999);
    assert_eq!(SOC::Artpec7.year(), 2019);
    assert_eq!(SOC::Artpec5.architecture(), Architecture::Mips);
    assert_eq!(SOC::MX8QP.architecture(), Architecture::Aarch64);
    assert_eq!(SOC::from_param(b"Axis Artpec-5"), Some(SOC::Artpec5));
    assert_eq!(SOC::from_param(b"Axis Artpec-7"), None);
}

#[test]
fn elf_classification_by_header_fields() {
    let facts = |e_machine: u16, e_flags: u32, ei_data: u8| ElfFacts {
        e_machine,
        e_flags,
        ei_data,
    };
    assert_eq!(Architecture::from_elf_facts(facts(183, 0, 1)), Some(Architecture::Aarch64));
    assert_eq!(Architecture::from_elf_facts(facts(76, 2, 1)), Some(Architecture::CrisV32));
    assert_eq!(Architecture::from_elf_facts(facts(76, 0, 1)), Some(Architecture::CrisV0));
    assert_eq!(Architecture::from_elf_facts(facts(76, 4, 1)), Some(Architecture::CrisV0));
    assert_eq!(Architecture::from_elf_facts(facts(76, 8, 1)), None);
    assert_eq!(Architecture::from_elf_facts(facts(8, 0x7000_0000, 1)), Some(Architecture::Mips));
    assert_eq!(Architecture::from_elf_facts(facts(8, 0x7000_0000, 2)), None);
    assert_eq!(Architecture::from_elf_facts(facts(8, 0x1000_0000, 1)), None);
    assert_eq!(Architecture::from_elf_facts(facts(40, 0x400, 1)), Some(Architecture::Armv7Hf));
    assert_eq!(Architecture::from_elf_facts(facts(40, 0, 1)), None);
    assert_eq!(Architecture::from_elf_facts(facts(40, 0x400, 2)), None);
    assert_eq!(Architecture::from_elf_facts(facts(3, 0, 1)), None);
}

/// A minimal 64-bit little-endian ELF image: just the header, with the
/// given machine number.
fn minimal_elf(e_machine: u16) -> Vec<u8> {
    let mut image = vec![0u8; 64];
    image[0] = 0x7f;
    image[1] = b'E';
    image[2] = b'L';
    image[3] = b'F';
    image[4] = 2; // 64-bit
    image[5] = 1; // little-endian
    image[6] = 1; // ELF version
    image[16] = 2; // e_type: executable
    image[18] = (e_machine & 0xff) as u8;
    image[19] = (e_machine >> 8) as u8;
    image[20] = 1; // e_version
    image[52] = 64; // e_ehsize
    image[54] = 56; // e_phentsize
    image[58] = 64; // e_shentsize
    image
}

#[test]
fn sniff_reads_the_elf_header() {
    assert_eq!(Architecture::sniff(&minimal_elf(183)), Some(Architecture::Aarch64));
    assert_eq!(Architecture::sniff(&minimal_elf(3)), None);
    assert_eq!(Architecture::sniff(b"not an elf image"), None);
    assert_eq!(Architecture::sniff(b""), None);
}

#[test]
fn api_error_codes_map_to_variants() {
    let raw = |code: u32| RawJsonApiError { code, message: None };
    assert!(matches!(ApiError::from(raw(1000)), ApiError::InvalidParameter));
    assert!(matches!(ApiError::from(raw(2001)), ApiError::AccessForbidden));
    assert!(matches!(ApiError::from(raw(2002)), ApiError::UnsupportedHttpMethod));
    assert!(matches!(ApiError::from(raw(2003)), ApiError::UnsupportedApiVersion));
    assert!(matches!(ApiError::from(raw(2004)), ApiError::UnsupportedApiMethod));
    assert!(matches!(ApiError::from(raw(4000)), ApiError::InvalidJsonFormat));
    assert!(matches!(ApiError::from(raw(4002)), ApiError::RequiredParameterIsMissing));
    assert!(matches!(ApiError::from(raw(8000)), ApiError::InternalError));
    match ApiError::from(RawJsonApiError { code: 31337, message: Some("weird".to_string()) }) {
        ApiError::OtherError(e) => {
            assert_eq!(e.code, 31337);
            assert_eq!(e.message, Some("weird".to_string()));
        }
        other => panic!("code 31337 should stay raw, got {:?}", other),
    }
}

#[test]
fn security_level_reads_four_digits() {
    let sl = SecurityLevel::from_str("0467").unwrap();
    assert_eq!(sl.create, AccessLevel::Unprotected);
    assert_eq!(sl.delete, AccessLevel::OperatorAccess);
    assert_eq!(sl.read, AccessLevel::AdministratorAccess);
    assert_eq!(sl.write, AccessLevel::RootAccess);
    assert_eq!(sl.to_chars(), vec!['0', '4', '6', '7']);
}

#[test]
fn security_level_rejects_bad_input() {
    match SecurityLevel::from_str("04") {
        Err(BadSecurityLevelError::WrongLength(t)) => assert_eq!(t, "04"),
        other => panic!("short input should be the wrong length, got {:?}", other),
    }
    match SecurityLevel::from_str("04677") {
        Err(BadSecurityLevelError::WrongLength(t)) => assert_eq!(t, "04677"),
        other => panic!("long input should be the wrong length, got {:?}", other),
    }
    match SecurityLevel::from_str("0x67") {
        Err(BadSecurityLevelError::BadAccessLevel(e)) => assert_eq!(e.0, 'x'),
        other => panic!("'x' should fail as an access level, got {:?}", other),
    }
    match SecurityLevel::from_str("") {
        Err(BadSecurityLevelError::WrongLength(t)) => assert_eq!(t, ""),
        other => panic!("empty input should be the wrong length, got {:?}", other),
    }
}

#[test]
fn access_level_digit_round_trip() {
    for c in ['0', '1', '4', '6', '7'] {
        let al = AccessLevel::try_from(c).unwrap();
        assert_eq!(al.to_char(), c);
    }
    assert_eq!(AccessLevel::try_from('2').unwrap_err().0, '2');
}

fn bool_parameter(value: Option<&str>) -> ParameterDefinition {
    ParameterDefinition {
        name: "Enabled".to_string(),
        current_value: value.map(|v| v.to_string()),
        security_level: None,
        nice_name: None,
        parameter_type: Some(ParameterTypeDefinition {
            read_only: None,
            write_only: None,
            hidden: None,
            constant: None,
            no_sync: None,
            internal: None,
            type_definition: TypeDefinition::Bool(BoolParameterDefinition {
                true_value: "yes".to_string(),
                false_value: "no".to_string(),
            }),
        }),
    }
}

#[test]
fn as_bool_reads_through_the_type_definition() {
    assert_eq!(bool_parameter(Some("yes")).as_bool(), Some(true));
    assert_eq!(bool_parameter(Some("no")).as_bool(), Some(false));
    assert_eq!(bool_parameter(Some("maybe")).as_bool(), None);
    assert_eq!(bool_parameter(None).as_bool(), None);
    let mut untyped = bool_parameter(Some("yes"));
    untyped.parameter_type = None;
    assert_eq!(untyped.as_bool(), None);
}

fn group(name: &str) -> ParameterGroupDefinition {
    ParameterGroupDefinition {
        name: name.to_string(),
        max_groups: None,
        groups: Vec::new(),
        parameters: Vec::new(),
    }
}

#[test]
fn group_and_parameter_lookup() {
    let mut root = group("root");
    root.groups.push(group("Brand"));
    root.groups.push(group("Properties"));
    root.parameters.push(bool_parameter(Some("yes")));
    assert_eq!(root.group("Brand").unwrap().name, "Brand");
    assert_eq!(root.group("Properties").unwrap().name, "Properties");
    assert!(root.group("Missing").is_none());
    assert_eq!(root.parameter("Enabled").unwrap().name, "Enabled");
    assert!(root.parameter("Missing").is_none());
}

#[test]
fn parameter_list_splits_lines_at_the_first_equals() {
    let body = b"root.Brand.Brand=AXIS\nroot.Image.I0.Text=a=b\nno equals here\n";
    let pairs = parse_parameter_list(body);
    assert_eq!(pairs.len(), 2);
    assert_eq!(pairs[0].0, b"root.Brand.Brand".to_vec());
    assert_eq!(pairs[0].1, b"AXIS".to_vec());
    assert_eq!(pairs[1].0, b"root.Image.I0.Text".to_vec());
    assert_eq!(pairs[1].1, b"a=b".to_vec());
    assert_eq!(parse_parameter_list(b"").len(), 0);
}

#[test]
fn update_responses_classify_by_body() {
    assert_eq!(classify_update_response(b"OK"), UpdateOutcome::Success);
    assert_eq!(
        classify_update_response(b"# Error: Error setting 'foo.bar' to 'baz quxx'!"),
        UpdateOutcome::ExplainedFailure
    );
    assert_eq!(classify_update_response(b"something else"), UpdateOutcome::UnknownFailure);
    assert_eq!(classify_update_response(b""), UpdateOutcome::UnknownFailure);
    assert_eq!(classify_update_response(b"OK then"), UpdateOutcome::UnknownFailure);
}

#[test]
fn recordings_support_gate_and_flags() {
    // Without HTTP API v3 and local storage there is no recordings interface.
    assert_eq!(recordings_support(None, None, None, None, None, None), None);
    assert_eq!(
        recordings_support(Some(b"2"), Some(b"yes"), None, None, None, None),
        None
    );
    assert_eq!(
        recordings_support(Some(b"3"), Some(b"no"), None, None, None, None),
        None
    );
    // Once the interface exists, each capability is probed on its own.
    assert_eq!(
        recordings_support(
            Some(b"3"),
            Some(b"yes"),
            Some(b"yes"),
            Some(b"2"),
            Some(b"2.01"),
            Some(b"yes"),
        ),
        Some(RecordingsSupport {
            supports_continuous_recording: true,
            supports_playback_over_rtsp: true,
            supports_exporting: true,
        })
    );
    assert_eq!(
        recordings_support(
            Some(b"3"),
            Some(b"yes"),
            Some(b"yes"),
            Some(b"0"),
            Some(b"2.00"),
            Some(b"no"),
        ),
        Some(RecordingsSupport {
            supports_continuous_recording: false,
            supports_playback_over_rtsp: false,
            supports_exporting: false,
        })
    );
    // Version strings compare lexicographically.
    assert_eq!(
        recordings_support(Some(b"3"), Some(b"yes"), None, None, Some(b"10.0"), None)
            .unwrap()
            .supports_playback_over_rtsp,
        false
    );
    assert_eq!(
        recordings_support(Some(b"3"), Some(b"yes"), None, None, Some(b"3"), None)
            .unwrap()
            .supports_playback_over_rtsp,
        true
    );
}
