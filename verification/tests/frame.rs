use rp_scale::scale::{append_raw, pop_serial_frame, sanitize_inline};

#[test]
fn pops_serial_frame_like_go() {
    let (frame, rest) = pop_serial_frame("-  2.05\r-  1.00\r").expect("frame");
    assert_eq!(frame, "-  2.05");
    assert_eq!(rest, "-  1.00\r");
}

#[test]
fn consumes_contiguous_crlf_like_go() {
    let (frame, rest) = pop_serial_frame("0.00\r\n- 0.50\n").expect("frame");
    assert_eq!(frame, "0.00");
    assert_eq!(rest, "- 0.50\n");
}

#[test]
fn returns_none_without_delimiter_like_go() {
    assert!(pop_serial_frame("-  2.05").is_none());
}

#[test]
fn append_raw_keeps_suffix_like_go() {
    assert_eq!(append_raw("12345", "678", 5), "45678");
    assert_eq!(append_raw("12", "34", 5), "1234");
}

#[test]
fn sanitize_inline_escapes_and_keeps_suffix_like_go() {
    assert_eq!(sanitize_inline("  a\rb\n  ", 20), "a\\rb\\n");
    assert_eq!(sanitize_inline("123456789", 4), "6789");
}

#[test]
fn frame_at_buffer_start_and_breaks_to_the_end() {
    let (frame, rest) = pop_serial_frame("\n\r\n").expect("frame");
    assert_eq!(frame, "");
    assert_eq!(rest, "");
    let (frame, rest) = pop_serial_frame("чой\n1").expect("frame");
    assert_eq!(frame, "чой");
    assert_eq!(rest, "1");
}

#[test]
fn append_raw_counts_bytes_on_character_boundaries() {
    assert_eq!(append_raw("ab", "чc", 3), "чc");
    assert_eq!(append_raw("", "", 0), "");
    assert_eq!(append_raw("abc", "", 0), "");
}

#[test]
fn sanitize_inline_trims_unicode_space() {
    assert_eq!(sanitize_inline("\u{3000}x\u{a0}", 10), "x");
    assert_eq!(sanitize_inline("\r", 1), "r");
}
