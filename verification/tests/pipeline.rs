use csv_repair::{detect, repair, sanitize, CsvContext, EncodingTag, RepairMetrics};

#[test]
fn end_to_end_crlf_and_nul() {
    let input = b"id,name\r\n1,test\x00\r\n";
    let (repaired, tag, metrics) = repair(input);
    assert_eq!(repaired, b"id,name\n1,test\n");
    assert_eq!(String::from_utf8(repaired).unwrap(), "id,name\n1,test\n");
    // The NUL byte is no text byte, so the detector cannot call this UTF-8.
    assert_eq!(tag, EncodingTag::Unknown);
    assert_eq!(
        metrics,
        RepairMetrics {
            original_byte_count: 18,
            final_byte_count: 15,
            detected_encoding: EncodingTag::Unknown,
        }
    );
}

#[test]
fn end_to_end_stage_by_stage() {
    let input = b"id,name\r\n1,test\x00\r\n";
    let (normalized, tag) = CsvContext::universal_normalize(input);
    assert_eq!(normalized, "id,name\n1,test\x00\n");
    assert_eq!(sanitize(&normalized), "id,name\n1,test\n");
    assert_eq!(tag, "unknown");
}

#[test]
fn end_to_end_plain_crlf() {
    let (repaired, tag, metrics) = repair(b"id,name\r\n1,test\r\n");
    assert_eq!(repaired, b"id,name\n1,test\n");
    assert_eq!(tag, EncodingTag::Utf8);
    assert_eq!(metrics.original_byte_count, 17);
    assert_eq!(metrics.final_byte_count, 15);
    assert_eq!(metrics.detected_encoding.name(), "utf8");
}

#[test]
fn repair_empty_input() {
    let (repaired, tag, metrics) = repair(b"");
    assert_eq!(repaired, b"");
    assert_eq!(tag, EncodingTag::Utf8);
    assert_eq!(
        metrics,
        RepairMetrics {
            original_byte_count: 0,
            final_byte_count: 0,
            detected_encoding: EncodingTag::Utf8,
        }
    );
    assert_eq!(metrics.detected_encoding.name(), "utf8");
}

#[test]
fn repair_strips_utf8_mark() {
    let (repaired, tag, metrics) = repair(b"\xEF\xBB\xBFa,b\r\n");
    assert_eq!(repaired, b"a,b\n");
    assert_eq!(tag, EncodingTag::Utf8WithBom);
    assert_eq!(metrics.original_byte_count, 8);
    assert_eq!(metrics.final_byte_count, 4);
}

#[test]
fn repair_of_a_lone_mark_is_empty() {
    let (repaired, tag, _) = repair(&[0xEF, 0xBB, 0xBF]);
    assert_eq!(repaired, b"");
    assert_eq!(tag, EncodingTag::Utf8WithBom);
}

#[test]
fn repair_keeps_multi_byte_text() {
    let text = "Café 漢字 Привет\r\n";
    let (repaired, tag, _) = repair(text.as_bytes());
    assert_eq!(String::from_utf8(repaired).unwrap(), "Café 漢字 Привет\n");
    assert_eq!(tag, EncodingTag::Utf8);
}

#[test]
fn repair_replaces_malformed_bytes() {
    let (repaired, tag, _) = repair(&[0x61, 0xFF, 0x62, 0x0D]);
    assert_eq!(String::from_utf8(repaired).unwrap(), "a\u{FFFD}b\n");
    assert_eq!(tag, EncodingTag::Utf8);
}

#[test]
fn repair_decodes_utf16_input_as_utf8() {
    // The tag is informational: the bytes behind the mark are still read as
    // UTF-8, and the NULs between the letters are sanitised away.
    let (repaired, tag, _) = repair(&[0xFF, 0xFE, 0x69, 0x00, 0x64, 0x00]);
    assert_eq!(repaired, b"id");
    assert_eq!(tag, EncodingTag::Utf16Le);
}

#[test]
fn repair_output_holds_only_clean_bytes() {
    let mut input: Vec<u8> = Vec::new();
    for b in 0u16..=255 {
        input.push(b as u8);
        input.push(0x41);
    }
    let (repaired, _, metrics) = repair(&input);
    assert!(std::str::from_utf8(&repaired).is_ok());
    for b in &repaired {
        let b = *b;
        assert!((0x20..=0x7E).contains(&b) || b == 0x09 || b == 0x0A || b >= 0x80);
    }
    assert_eq!(metrics.original_byte_count, 512);
    assert_eq!(metrics.final_byte_count, repaired.len());
}

#[test]
fn repair_is_idempotent() {
    let samples: Vec<&[u8]> = vec![
        b"",
        b"id,name\r\n1,test\x00\r\n",
        b"\xEF\xBB\xBFa\rb",
        b"\xFF\xFEa\x00",
        b"a\xFFb\r\r\n",
        "Café 漢字 Привет".as_bytes(),
    ];
    for raw in samples {
        let (once, _, _) = repair(raw);
        let (twice, tag, _) = repair(&once);
        assert_eq!(twice, once);
        assert_eq!(tag, EncodingTag::Utf8);
    }
}

#[test]
fn repair_of_a_double_mark_keeps_the_second() {
    // Only one mark is removed; the second is the character U+FEFF, which the
    // sanitizer keeps. A second repair would then remove it.
    let (once, _, _) = repair(b"\xEF\xBB\xBF\xEF\xBB\xBFa");
    assert_eq!(once, b"\xEF\xBB\xBFa");
    let (twice, _, _) = repair(&once);
    assert_eq!(twice, b"a");
}

#[test]
fn repair_leaves_clean_text_alone() {
    let clean = "id\tname\n1\tZoë\n";
    let (repaired, tag, metrics) = repair(clean.as_bytes());
    assert_eq!(repaired, clean.as_bytes());
    assert_eq!(tag, EncodingTag::Utf8);
    assert_eq!(metrics.original_byte_count, metrics.final_byte_count);
}

#[test]
fn metrics_do_not_depend_on_the_tag() {
    // Same body behind different marks: same repaired bytes.
    let (plain, _, _) = repair(b"a\r\nb");
    let (marked, _, _) = repair(b"\xEF\xBB\xBFa\r\nb");
    assert_eq!(plain, marked);
}

#[test]
fn repaired_output_is_detected_as_utf8() {
    let samples: Vec<&[u8]> = vec![
        b"",
        b"\0\0\0\0",
        b"i\0d\0,\0n\0",
        b"\xFE\xFF\0a",
        b"bell\x07 del\x7F",
        b"\x80\xFF\xC0",
    ];
    for raw in samples {
        let (repaired, _, _) = repair(raw);
        assert_eq!(detect(&repaired), EncodingTag::Utf8);
    }
    // A second mark behind the first is the one way to a marked output.
    let (repaired, _, _) = repair(b"\xEF\xBB\xBF\xEF\xBB\xBFa");
    assert_eq!(detect(&repaired), EncodingTag::Utf8WithBom);
}
