use auto_decompress::extension_detector::normal::detect_file_type;
use auto_decompress::extension_detector::signature_scan::file_type_scan_overruns_on;

/// `MZ`, zero bytes, a PE header at offset 128 with optional-header byte `v`,
/// and `len` bytes in all.
fn pe_image(len: usize, v: u8) -> Vec<u8> {
    let mut b = vec![0u8; len];
    b[0] = 0x4D;
    b[1] = 0x5A;
    b[128..132].copy_from_slice(b"PE\0\0");
    b[152] = 0x0B;
    b[153] = v;
    b
}

#[test]
fn header_ending_one_byte_before_the_end_overruns() {
    assert!(file_type_scan_overruns_on(&pe_image(221, 0x01)));
    assert!(file_type_scan_overruns_on(&pe_image(221, 0x02)));
}

#[test]
fn other_lengths_and_bytes_do_not_overrun() {
    assert!(!file_type_scan_overruns_on(&pe_image(220, 0x01)));
    assert!(!file_type_scan_overruns_on(&pe_image(222, 0x01)));
    assert!(!file_type_scan_overruns_on(&pe_image(221, 0x03)));
    let mut keyed = pe_image(221, 0x01);
    keyed[2] = 0x90;
    assert!(!file_type_scan_overruns_on(&keyed));
    assert!(!file_type_scan_overruns_on(b""));
    assert!(!file_type_scan_overruns_on(b"MZ"));
}

#[test]
fn an_earlier_complete_match_stops_the_scan() {
    // A second header at the end, and a complete match at offset 128 before it.
    let mut b = pe_image(400, 0x02);
    b[307..311].copy_from_slice(b"PE\0\0");
    b[331] = 0x0B;
    b[332] = 0x02;
    assert!(!file_type_scan_overruns_on(&b));
    // With the version bytes at offset 128 out of range the scan goes on.
    b[220] = 0x20;
    assert!(file_type_scan_overruns_on(&b));
    // For optional-header byte 0x01 the Toolbook name is also needed.
    let mut t = pe_image(400, 0x01);
    t[307..311].copy_from_slice(b"PE\0\0");
    t[331] = 0x0B;
    t[332] = 0x01;
    assert!(file_type_scan_overruns_on(&t));
    t[240..256].copy_from_slice(b"T\0o\0o\0l\0B\0o\0o\0k\0");
    assert!(!file_type_scan_overruns_on(&t));
}

#[test]
fn images_that_do_not_overrun_are_detected() {
    let found = detect_file_type(&pe_image(222, 0x01), Some("exe"));
    assert!(!found.name().is_empty());
    let found = detect_file_type(&pe_image(220, 0x02), None);
    assert!(!found.name().is_empty());
}
