use memscan::hex::parse_hex_u64;
use memscan::parser::{parse_maps_line, MapSegment, ParseError};

#[test]
fn hex_single_byte() {
    assert_eq!(parse_hex_u64(b"ff"), Some(255));
}

#[test]
fn hex_mixed_case_and_leading_zeros() {
    assert_eq!(parse_hex_u64(b"0000000000000000fF"), Some(255));
    assert_eq!(parse_hex_u64(b"1A2b"), Some(0x1a2b));
}

#[test]
fn hex_empty_is_rejected() {
    assert_eq!(parse_hex_u64(b""), None);
}

#[test]
fn hex_bad_digit_is_rejected() {
    assert_eq!(parse_hex_u64(b"12g4"), None);
}

#[test]
fn hex_max_value() {
    assert_eq!(parse_hex_u64(b"ffffffffffffffff"), Some(u64::MAX));
}

#[test]
fn hex_overflow_is_rejected() {
    assert_eq!(parse_hex_u64(b"10000000000000000"), None);
}

#[test]
fn well_formed_heap_line_is_recovered_exactly() {
    let seg = parse_maps_line(b"7f0000000000-7f0000001000 rw-p 00000000 00:00 0 [heap]").unwrap();
    assert_eq!(seg.start_addr, 0x7f0000000000);
    assert_eq!(seg.end_addr, 0x7f0000001000);
    assert_eq!(seg.file, b"[heap]".to_vec());
    assert!(seg.start_addr < seg.end_addr);
    assert!(seg.is_anonmyous_map());
}

#[test]
fn well_formed_stack_line_is_recovered_exactly() {
    let seg = parse_maps_line(b"7ffc1000-7ffc9000 rw-p 00000000 00:00 0 [stack]").unwrap();
    assert_eq!(seg.start_addr, 0x7ffc1000);
    assert_eq!(seg.end_addr, 0x7ffc9000);
    assert!(seg.is_anonmyous_map());
}

#[test]
fn file_backed_line_is_not_anonymous() {
    let seg = parse_maps_line(b"1000-2000 r-xp 00000000 08:01 12345 /usr/lib/libc.so").unwrap();
    assert_eq!(seg.file, b"/usr/lib/libc.so".to_vec());
    assert!(!seg.is_anonmyous_map());
}

#[test]
fn empty_label_from_trailing_space() {
    let seg = parse_maps_line(b"1000-2000 rw-p 00000000 00:00 0 ").unwrap();
    assert_eq!(seg.file, Vec::<u8>::new());
    assert!(!seg.is_anonmyous_map());
}

#[test]
fn single_field_line_is_rejected() {
    assert_eq!(
        parse_maps_line(b"7f0000000000-7f0000001000"),
        Err(ParseError::MissingFields)
    );
}

#[test]
fn missing_dash_is_rejected() {
    assert_eq!(
        parse_maps_line(b"7f0000000000 rw-p 0"),
        Err(ParseError::BadAddressShape)
    );
}

#[test]
fn stack_label_with_three_fields_and_no_dash_is_rejected() {
    // The label alone does not make a line scannable: with only three
    // whitespace-delimited fields and no address range, the line is
    // skipped, without a crash.
    let r = parse_maps_line(b"7f0000000000 rw-p [stack]");
    assert_eq!(r, Err(ParseError::BadAddressShape));
}

#[test]
fn two_dashes_are_rejected() {
    assert_eq!(
        parse_maps_line(b"10-20-30 rw-p 0"),
        Err(ParseError::BadAddressShape)
    );
}

#[test]
fn non_hex_address_is_rejected() {
    assert_eq!(
        parse_maps_line(b"12g4-5678 rw-p 0"),
        Err(ParseError::BadHexValue)
    );
}

#[test]
fn empty_address_component_is_rejected() {
    assert_eq!(parse_maps_line(b"-5678 rw-p 0"), Err(ParseError::BadHexValue));
}

#[test]
fn address_overflow_is_rejected() {
    assert_eq!(
        parse_maps_line(b"10000000000000000-2 rw-p 0"),
        Err(ParseError::BadHexValue)
    );
}

#[test]
fn empty_range_is_rejected() {
    assert_eq!(
        parse_maps_line(b"1000-1000 rw-p 0"),
        Err(ParseError::EmptyRange)
    );
    assert_eq!(
        parse_maps_line(b"2000-1000 rw-p 0"),
        Err(ParseError::EmptyRange)
    );
}

#[test]
fn segment_constructed_by_hand_classifies_by_exact_label() {
    let heap = MapSegment { start_addr: 0, end_addr: 1, file: b"[heap]".to_vec() };
    assert!(heap.is_anonmyous_map());
    let not_quite = MapSegment { start_addr: 0, end_addr: 1, file: b"[heap] ".to_vec() };
    assert!(!not_quite.is_anonmyous_map());
    let substring = MapSegment { start_addr: 0, end_addr: 1, file: b"x[stack]".to_vec() };
    assert!(!substring.is_anonmyous_map());
}
