use memscan::matcher::{find_matches, MemMatch};
use memscan::parser::parse_maps_line;
use memscan::scan::{classify_errno, scan_process, scan_segment_image, ScanError};
use memscan::window::{ScanWindow, CHUNK_SIZE};

#[test]
fn heap_line_image_with_value_at_offset_four() {
    // Mapping line and remote bytes: 00 00 00 00 2a 00 00 00 at offsets
    // 0 and 4, target value 42: exactly one match, at 0x7f0000000004.
    let seg =
        parse_maps_line(b"7f0000000000-7f0000001000 rw-p 00000000 00:00 0 [heap]").unwrap();
    assert!(seg.is_anonmyous_map());
    let mut image = vec![0u8; 0x1000];
    image[4] = 0x2a;
    let found = scan_segment_image(&seg, &image, 42);
    assert_eq!(found.len(), 1);
    assert_eq!(found[0].addr, 0x7f0000000004);
    assert_eq!(found[0].value, 42);
}

#[test]
fn matcher_reports_each_aligned_occurrence_in_order() {
    let mut buf = vec![0u8; 12];
    buf[0] = 42;
    buf[8] = 42;
    let found = find_matches(&buf, 12, 0x1000, 42);
    assert_eq!(
        found,
        vec![
            MemMatch { addr: 0x1000, value: 42 },
            MemMatch { addr: 0x1008, value: 42 },
        ]
    );
}

#[test]
fn matcher_never_reports_unaligned_occurrences() {
    let mut buf = vec![0u8; 8];
    buf[2] = 42;
    let found = find_matches(&buf, 8, 0, 42);
    assert!(found.is_empty());
}

#[test]
fn matcher_never_reports_beyond_the_valid_prefix() {
    let mut buf = vec![0u8; 8];
    buf[4] = 42;
    // Only six bytes are valid: the occurrence at offset 4 would need
    // bytes 4..8, so it is not reported.
    let found = find_matches(&buf, 6, 0, 42);
    assert!(found.is_empty());
}

#[test]
fn matcher_decodes_negative_values_little_endian() {
    let mut buf = vec![0u8; 8];
    buf[4] = 0xff;
    buf[5] = 0xff;
    buf[6] = 0xff;
    buf[7] = 0xff;
    let found = find_matches(&buf, 8, 0x2000, -1);
    assert_eq!(found, vec![MemMatch { addr: 0x2004, value: -1 }]);
}

#[test]
fn matcher_decodes_byte_order_not_just_presence() {
    // 0x01020304 little-endian is 04 03 02 01.
    let buf = vec![0x04u8, 0x03, 0x02, 0x01];
    assert_eq!(find_matches(&buf, 4, 0, 0x01020304).len(), 1);
    // The same bytes reversed encode a different value.
    let rev = vec![0x01u8, 0x02, 0x03, 0x04];
    assert!(find_matches(&rev, 4, 0, 0x01020304).is_empty());
}

#[test]
fn window_of_6000_bytes_takes_two_reads_of_4096_and_1904() {
    let seg = parse_maps_line(b"1000-2770 rw-p 00000000 00:00 0 [heap]").unwrap();
    assert_eq!(seg.end_addr - seg.start_addr, 6000);
    let mut w = ScanWindow::new(&seg);
    let first = w.request_len();
    assert_eq!(first, CHUNK_SIZE);
    assert_eq!(first, 4096);
    w.advance(first);
    let second = w.request_len();
    assert_eq!(second, 1904);
    w.advance(second);
    assert_eq!(w.base, w.end_addr);
    assert_eq!(w.request_len(), 0);
}

#[test]
fn image_scan_twice_yields_identical_matches() {
    let seg = parse_maps_line(b"1000-2770 rw-p 00000000 00:00 0 [heap]").unwrap();
    let mut image = vec![0u8; 6000];
    image[0] = 7;
    image[4096] = 7;
    image[5996] = 7;
    let first = scan_segment_image(&seg, &image, 7);
    let second = scan_segment_image(&seg, &image, 7);
    assert_eq!(first, second);
    assert_eq!(first.len(), 3);
    assert_eq!(first[0].addr, 0x1000);
    assert_eq!(first[1].addr, 0x1000 + 4096);
    assert_eq!(first[2].addr, 0x1000 + 5996);
}

#[test]
fn chunk_boundary_is_a_multiple_of_four_so_no_aligned_match_is_lost() {
    // An occurrence whose four bytes end exactly at the chunk boundary
    // is found by the chunked scan.
    let seg = parse_maps_line(b"0-2000 rw-p 00000000 00:00 0 [heap]").unwrap();
    let mut image = vec![0u8; 0x2000];
    let off = CHUNK_SIZE - 4;
    image[off] = 9;
    let found = scan_segment_image(&seg, &image, 9);
    assert_eq!(found, vec![MemMatch { addr: (CHUNK_SIZE - 4) as u64, value: 9 }]);
}

#[test]
fn classify_errno_sorts_the_failure_taxonomy() {
    assert_eq!(classify_errno(3), ScanError::ProcessNotFound);
    assert_eq!(classify_errno(1), ScanError::AccessDenied);
    assert_eq!(classify_errno(13), ScanError::AccessDenied);
    assert_eq!(classify_errno(5), ScanError::ReadFailed);
}

#[test]
fn malformed_and_foreign_lines_are_skipped_without_reads() {
    let lines: Vec<Vec<u8>> = vec![
        b"garbage".to_vec(),
        b"7f0000000000 rw-p [stack]".to_vec(),
        b"1000-2000 r-xp 00000000 08:01 42 /usr/lib/libc.so".to_vec(),
        b"zz00-zz10 rw-p 00000000 00:00 0 [heap]".to_vec(),
    ];
    // No line is accepted, so no remote read happens and the scan of a
    // nonexistent process still succeeds with an empty outcome.
    let outcome = scan_process(i32::MAX, &lines, 42).unwrap();
    assert!(outcome.segments.is_empty());
    assert!(outcome.matches.is_empty());
}

#[test]
fn vanished_process_aborts_the_scan() {
    let lines: Vec<Vec<u8>> =
        vec![b"7f0000000000-7f0000001000 rw-p 00000000 00:00 0 [heap]".to_vec()];
    let r = scan_process(i32::MAX, &lines, 42);
    assert_eq!(r.err(), Some(ScanError::ProcessNotFound));
}
