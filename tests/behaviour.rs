use macfmt::address::{MacAddress, ParseErrorKind};
use macfmt::batch::{process_input, BatchError};
use macfmt::format::{CasePolicy, Notation};
use macfmt::scan::find_mac_addresses;

#[test]
fn parse_colon_gives_octets_and_lower_case_flags() {
    let mac = MacAddress::new("aa:bb:cc:dd:ee:ff").unwrap();
    assert_eq!(mac.bytes, [0xaa, 0xbb, 0xcc, 0xdd, 0xee, 0xff]);
    assert_eq!(mac.original_case, vec![false; 12]);
}

#[test]
fn parse_mixed_case_then_format_preserves_case() {
    let mac = MacAddress::new("AA:bb:CC:dd:EE:ff").unwrap();
    assert_eq!(mac.format(Notation::Standard, CasePolicy::Preserve), "AA:bb:CC:dd:EE:ff");
    assert_eq!(mac.format(Notation::Cisco, CasePolicy::Preserve), "AAbb.CCdd.EEff");
    assert_eq!(mac.format(Notation::Windows, CasePolicy::Preserve), "AA-bb-CC-dd-EE-ff");
    assert_eq!(mac.format(Notation::Bare, CasePolicy::Preserve), "AAbbCCddEEff");
}

#[test]
fn parse_short_input_is_invalid_length() {
    let e = MacAddress::new("aa:bb:cc:dd:ee").unwrap_err();
    assert_eq!(e.kind, ParseErrorKind::InvalidLength);
    assert_eq!(e.input, "aa:bb:cc:dd:ee");
    assert_eq!(e.message(), "Invalid MAC address length: aa:bb:cc:dd:ee");
}

#[test]
fn parse_empty_and_blank_are_invalid_length() {
    assert_eq!(MacAddress::new("").unwrap_err().kind, ParseErrorKind::InvalidLength);
    assert_eq!(MacAddress::new("   ").unwrap_err().kind, ParseErrorKind::InvalidLength);
}

#[test]
fn parse_non_hex_is_invalid_hex() {
    let e = MacAddress::new("zz:bb:cc:dd:ee:ff").unwrap_err();
    assert_eq!(e.kind, ParseErrorKind::InvalidHex);
    assert_eq!(e.message(), "Invalid hex in MAC address: zz:bb:cc:dd:ee:ff");
    let late = MacAddress::new("aa:bb:cc:dd:ee:fg").unwrap_err();
    assert_eq!(late.kind, ParseErrorKind::InvalidHex);
}

#[test]
fn parse_uneven_separators_are_stripped() {
    let mac = MacAddress::new("a:ab b.cc-ddeeff").unwrap();
    assert_eq!(mac.bytes, [0xaa, 0xbb, 0xcc, 0xdd, 0xee, 0xff]);
}

#[test]
fn parse_digits_and_values() {
    let mac = MacAddress::new("01:23:45:67:89:Ab").unwrap();
    assert_eq!(mac.bytes, [0x01, 0x23, 0x45, 0x67, 0x89, 0xab]);
    assert_eq!(mac.to_bare(None), "0123456789Ab");
    assert_eq!(mac.to_windows(Some(true)), "01-23-45-67-89-AB");
}

#[test]
fn forced_cases_leave_no_other_letters() {
    let mac = MacAddress::new("aB:cD:eF:01:23:45").unwrap();
    let up = mac.format(Notation::Cisco, CasePolicy::ForceUpper);
    let low = mac.format(Notation::Cisco, CasePolicy::ForceLower);
    assert_eq!(up, "ABCD.EF01.2345");
    assert_eq!(low, "abcd.ef01.2345");
    assert!(!up.chars().any(|c| c.is_ascii_lowercase()));
    assert!(!low.chars().any(|c| c.is_ascii_uppercase()));
}

#[test]
fn round_trip_in_every_notation() {
    let source = "0aBc.De12.f39A";
    let mac = MacAddress::new(source).unwrap();
    let cisco = mac.format(Notation::Cisco, CasePolicy::Preserve);
    assert_eq!(cisco, source);
    for n in [Notation::Standard, Notation::Cisco, Notation::Windows, Notation::Bare] {
        let text = mac.format(n, CasePolicy::Preserve);
        let again = MacAddress::new(&text).unwrap();
        assert_eq!(again.format(n, CasePolicy::Preserve), text);
    }
}

#[test]
fn formatting_twice_gives_the_same_text() {
    let mac = MacAddress::new("12:34:AB:cd:EF:09").unwrap();
    let a = mac.format(Notation::Windows, CasePolicy::Preserve);
    let b = mac.format(Notation::Windows, CasePolicy::Preserve);
    assert_eq!(a, b);
    assert_eq!(a, "12-34-AB-cd-EF-09");
}

#[test]
fn policy_from_flag() {
    assert_eq!(CasePolicy::from_force_case(Some(true)), CasePolicy::ForceUpper);
    assert_eq!(CasePolicy::from_force_case(Some(false)), CasePolicy::ForceLower);
    assert_eq!(CasePolicy::from_force_case(None), CasePolicy::Preserve);
}

#[test]
fn scan_orders_by_family_not_position() {
    let text = "bare aabbccddeeff then dotted 1122.3344.5566 then 00:11:22:33:44:55";
    let found = find_mac_addresses(text);
    assert_eq!(found, vec!["00:11:22:33:44:55", "1122.3344.5566", "aabbccddeeff"]);
}

#[test]
fn scan_multiple_formats_in_family_order() {
    let text = "Device 1: aa:bb:cc:dd:ee:ff\nDevice 2: 1122.3344.5566\nDevice 3: aabbccddeeff";
    let found = find_mac_addresses(text);
    assert_eq!(found, vec!["aa:bb:cc:dd:ee:ff", "1122.3344.5566", "aabbccddeeff"]);
}

#[test]
fn scan_delimited_needs_one_separator() {
    let found = find_mac_addresses("aa:bb-cc:dd:ee:ff");
    assert!(found.is_empty());
    let dashes = find_mac_addresses("x aa-bb-cc-dd-ee-ff y");
    assert_eq!(dashes, vec!["aa-bb-cc-dd-ee-ff"]);
}

#[test]
fn scan_bare_inside_longer_token() {
    let found = find_mac_addresses("id=0123456789abcdefXYZ");
    assert_eq!(found, vec!["0123456789ab"]);
    let two = find_mac_addresses("0123456789ab0123456789AB");
    assert_eq!(two, vec!["0123456789ab", "0123456789AB"]);
}

#[test]
fn scan_empty_text() {
    assert!(find_mac_addresses("").is_empty());
}

#[test]
fn scan_dotted_is_not_also_bare() {
    let found = find_mac_addresses("aabb.ccdd.eeff");
    assert_eq!(found, vec!["aabb.ccdd.eeff"]);
}

#[test]
fn process_without_candidates_fails() {
    let r = process_input("No MACs here", Notation::Standard, CasePolicy::Preserve);
    assert_eq!(r.unwrap_err(), BatchError::NoAddressesFound);
}

#[test]
fn process_formats_and_reports() {
    let text = "a 00:11:22:33:44:55 b 1122.3344.5566 c AABBCCDDEEFF";
    let report = process_input(text, Notation::Windows, CasePolicy::ForceLower).unwrap();
    assert_eq!(report.lines, vec!["00-11-22-33-44-55", "11-22-33-44-55-66", "aa-bb-cc-dd-ee-ff"]);
    assert!(report.failures.is_empty());
}

#[test]
fn process_bare_notation_preserving_case() {
    let report = process_input("mac AA:bb:CC:dd:EE:ff", Notation::Bare, CasePolicy::Preserve).unwrap();
    assert_eq!(report.lines, vec!["AAbbCCddEEff"]);
}
