use svnpush_core::text::{dominant_eol, eol_report, line_number, lines, with_eol};

#[test]
fn lines_keep_offsets_for_mixed_endings() {
    let text = "a\r\nbb\nccc";
    let ls = lines(text);
    assert_eq!(ls.len(), 3);
    assert_eq!(ls[0].content, "a");
    assert_eq!(&text[ls[0].start..ls[0].end], "a\r\n");
    assert_eq!(ls[1].content, "bb");
    assert_eq!(ls[2].content, "ccc");
    assert_eq!(ls[2].end, text.len());
}

#[test]
fn dominant_eol_prefers_the_majority() {
    assert_eq!(dominant_eol("a\r\nb\r\nc\n"), "\r\n");
    assert_eq!(dominant_eol("a\nb\n"), "\n");
    assert_eq!(dominant_eol("single"), "\n");
}

#[test]
fn eol_report_detects_mixed_and_bom() {
    let report = eol_report("\u{feff}a\r\nb\n");
    assert!(report.is_mixed());
    assert!(report.has_bom);
    assert!(!eol_report("a\nb\n").is_mixed());
}

#[test]
fn with_eol_normalises() {
    assert_eq!(with_eol("a\r\nb\r\nc", "\r\n"), "a\r\nb\r\nc");
    assert_eq!(with_eol("a\nb\r\nc", "\r\n"), "a\r\nb\r\nc");
}

#[test]
fn lines_tile_a_text_with_multibyte_characters() {
    let text = "é\r\nü\n\nend\n";
    let ls = lines(text);
    assert_eq!(ls.len(), 4);
    assert_eq!(ls[0].start, 0);
    for pair in ls.windows(2) {
        assert_eq!(pair[0].end, pair[1].start);
    }
    assert_eq!(ls[3].end, text.len());
    assert_eq!(ls[0].content, "é");
    assert_eq!(&text[ls[0].content_end..ls[0].end], "\r\n");
    assert_eq!(ls[2].content, "");
}

#[test]
fn crlf_counts_and_line_numbers() {
    let report = eol_report("a\r\nb\r\nc\n");
    assert_eq!(report.crlf, 2);
    assert_eq!(report.lf, 1);
    assert!(!report.has_bom);
    assert_eq!(line_number(0), 1);
    assert_eq!(line_number(41), 42);
    assert_eq!(line_number(usize::MAX), u32::MAX);
}
