use csv_repair::{init_context, repair_and_normalize, sanitize, CsvContext, RepairError};

#[test]
fn test_cross_platform_line_endings() {
    // Resolve Windows line endings
    let windows_data = b"id,name\r\n1,test\r\n";
    let (normalized, _) = CsvContext::universal_normalize(windows_data);

    assert!(!normalized.contains('\r'));
    assert!(normalized.contains('\n'));
    assert_eq!(normalized, "id,name\n1,test\n");
}

#[test]
fn test_noise_cancellation() {
    let dirty_data = "name\t\u{0000}age".as_bytes();
    let (normalized, _) = CsvContext::universal_normalize(dirty_data);

    let cleaned: String = sanitize(&normalized);

    assert!(cleaned.contains('\t'));
    assert!(!cleaned.contains('\u{0000}'));
}

#[test]
fn test_encoding() {
    // A NUL is no text byte, so the detector cannot call these bytes UTF-8.
    let dirty_data = "name\t\u{0000}age".as_bytes();
    let (_normalized, encoding) = CsvContext::universal_normalize(dirty_data);
    assert_eq!(encoding, "unknown");
}

#[test]
fn universal_normalize_names_the_detected_tag() {
    let (_, plain) = CsvContext::universal_normalize(b"id,name\r\n1,test\r\n");
    assert_eq!(plain, "utf8");
    let (_, marked) = CsvContext::universal_normalize(&[0xEF, 0xBB, 0xBF, 0x69, 0x64]);
    assert_eq!(marked, "utf8_with_bom");
    let (_, le) = CsvContext::universal_normalize(&[0xFF, 0xFE, 0x69, 0x00]);
    assert_eq!(le, "utf16_le");
    let (_, be) = CsvContext::universal_normalize(&[0xFE, 0xFF, 0x00, 0x69]);
    assert_eq!(be, "utf16_be");
    let (_, dense) = CsvContext::universal_normalize(b"i\0d\0,\0n\0");
    assert_eq!(dense, "likely_utf16");
    let (_, empty) = CsvContext::universal_normalize(b"");
    assert_eq!(empty, "utf8");
}

#[test]
fn universal_normalize_keeps_nul_for_the_sanitizer() {
    let (normalized, _) = CsvContext::universal_normalize("name\t\u{0000}age".as_bytes());
    assert_eq!(normalized, "name\t\u{0000}age");
    assert_eq!(sanitize(&normalized), "name\tage");
}

#[test]
fn universal_normalize_replaces_malformed_bytes() {
    let (normalized, encoding) = CsvContext::universal_normalize(&[0x61, 0xFF, 0x62, 0x0D]);
    assert_eq!(normalized, "a\u{FFFD}b\n");
    assert_eq!(encoding, "utf8");
}

#[test]
fn universal_normalize_does_not_touch_a_mark() {
    // Decoding is always UTF-8, whatever the tag says: a UTF-16 mark is two
    // malformed bytes, and the UTF-8 mark is the character U+FEFF.
    let (le, tag_le) = CsvContext::universal_normalize(&[0xFF, 0xFE, 0x61, 0x00]);
    assert_eq!(le, "\u{FFFD}\u{FFFD}a\u{0000}");
    assert_eq!(tag_le, "utf16_le");
    let (marked, tag) = CsvContext::universal_normalize(&[0xEF, 0xBB, 0xBF, 0x61]);
    assert_eq!(marked, "\u{FEFF}a");
    assert_eq!(tag, "utf8_with_bom");
}

#[test]
fn init_context_copies_the_input() {
    let input = vec![0x69u8, 0x64, 0x0D, 0x0A];
    let context = init_context(&input);
    assert_eq!(context.raw_data, input);
    assert_eq!(context.processed_text, "");
}

#[test]
fn init_context_of_nothing_is_empty() {
    let context = init_context(b"");
    assert!(context.raw_data.is_empty());
    assert!(context.processed_text.is_empty());
}

#[test]
fn repair_and_normalize_repairs_the_raw_data() {
    let context = init_context(b"\xEF\xBB\xBFid,name\r\n1,te\x07st\x00\r\n");
    let repaired = repair_and_normalize(&context);
    assert_eq!(repaired, Ok(b"id,name\n1,test\n".to_vec()));
    // The context itself is only read.
    assert_eq!(context.raw_data, b"\xEF\xBB\xBFid,name\r\n1,te\x07st\x00\r\n".to_vec());
}

#[test]
fn repair_and_normalize_of_empty_context() {
    let context = CsvContext { raw_data: Vec::new(), processed_text: String::new() };
    assert_eq!(repair_and_normalize(&context), Ok(Vec::new()));
}

#[test]
fn allocation_error_has_its_message() {
    assert_eq!(RepairError::Allocation.message(), "Memory allocation error");
}

#[test]
fn universal_normalize_is_idempotent() {
    let samples = ["", "a\r\nb\rc\nd", "\r\r\n\n\r", "漢\r字\r\n", "\u{FEFF}x\r"];
    for x in samples {
        let (once, _) = CsvContext::universal_normalize(x.as_bytes());
        let (twice, _) = CsvContext::universal_normalize(once.as_bytes());
        assert_eq!(twice, once);
    }
}

#[test]
fn universal_normalize_returns_plain_utf8_byte_for_byte() {
    let samples: Vec<&[u8]> = vec![b"", b"name\t\0age", b"bell\x07\n", "Zoë\n".as_bytes()];
    for bytes in samples {
        let (text, _) = CsvContext::universal_normalize(bytes);
        assert_eq!(text.as_bytes(), bytes);
    }
}

#[test]
fn repair_and_normalize_gives_its_own_output_back() {
    let samples: Vec<&[u8]> = vec![
        b"",
        b"id,name\r\n1,test\x00\r\n",
        b"\xEF\xBB\xBFa\rb",
        b"\xFF\xFEa\x00",
        b"a\xFFb\r\r\n",
    ];
    for raw in samples {
        let out = repair_and_normalize(&init_context(raw)).unwrap();
        assert!(!out.starts_with(&[0xEF, 0xBB, 0xBF]));
        assert_eq!(repair_and_normalize(&init_context(&out)), Ok(out));
    }
}
