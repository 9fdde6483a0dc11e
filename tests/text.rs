use iui::text::{from_toolkit_bytes, normalize_from_toolkit, to_toolkit_bytes, LineEndings};

#[test]
fn widens_newlines_for_crlf_platforms() {
    assert_eq!(to_toolkit_bytes("a\nb", LineEndings::CrLf), Some(b"a\r\nb\0".to_vec()));
}

#[test]
fn keeps_newlines_for_lf_platforms() {
    assert_eq!(to_toolkit_bytes("a\nb", LineEndings::Lf), Some(b"a\nb\0".to_vec()));
}

#[test]
fn existing_crlf_is_widened_again() {
    assert_eq!(to_toolkit_bytes("x\r\n", LineEndings::CrLf), Some(b"x\r\r\n\0".to_vec()));
}

#[test]
fn empty_text_is_only_the_terminator() {
    assert_eq!(to_toolkit_bytes("", LineEndings::CrLf), Some(vec![0u8]));
    assert_eq!(to_toolkit_bytes("", LineEndings::Lf), Some(vec![0u8]));
}

#[test]
fn interior_nul_has_no_c_string() {
    assert_eq!(to_toolkit_bytes("a\0b", LineEndings::Lf), None);
    assert_eq!(to_toolkit_bytes("\0", LineEndings::CrLf), None);
    assert_eq!(to_toolkit_bytes("line\n\0", LineEndings::CrLf), None);
}

#[test]
fn multibyte_text_is_encoded_as_utf8() {
    assert_eq!(
        to_toolkit_bytes("é\n", LineEndings::CrLf),
        Some(vec![0xC3u8, 0xA9, b'\r', b'\n', 0])
    );
}

#[test]
fn narrows_crlf_read_back() {
    assert_eq!(
        normalize_from_toolkit(b"a\r\nb\r\r\n\r", LineEndings::CrLf),
        b"a\nb\r\n\r".to_vec()
    );
}

#[test]
fn lone_newlines_and_returns_stay() {
    assert_eq!(normalize_from_toolkit(b"\n\r\n\r", LineEndings::CrLf), b"\n\n\r".to_vec());
}

#[test]
fn lf_platforms_read_back_unchanged() {
    assert_eq!(normalize_from_toolkit(b"a\r\nb", LineEndings::Lf), b"a\r\nb".to_vec());
}

#[test]
fn reads_text_back() {
    assert_eq!(from_toolkit_bytes(b"x\r\ny", LineEndings::CrLf), "x\ny");
    assert_eq!(from_toolkit_bytes(b"x\r\ny", LineEndings::Lf), "x\r\ny");
    assert_eq!(from_toolkit_bytes(b"", LineEndings::CrLf), "");
}

#[test]
fn invalid_utf8_is_replaced() {
    assert_eq!(from_toolkit_bytes(&[0x66u8, 0xFF, 0x6F], LineEndings::Lf), "f\u{FFFD}o");
    assert_eq!(from_toolkit_bytes(&[0xC3u8, b'\r', b'\n'], LineEndings::CrLf), "\u{FFFD}\n");
}

#[test]
fn text_round_trips_through_the_toolkit() {
    for text in ["line one\nline two\r\n", "héllo\n\n", "", "\r", "no newline"] {
        for endings in [LineEndings::Lf, LineEndings::CrLf] {
            let bytes = to_toolkit_bytes(text, endings).unwrap();
            assert_eq!(bytes.last(), Some(&0u8));
            let raw = &bytes[..bytes.len() - 1];
            assert_eq!(from_toolkit_bytes(raw, endings), text);
        }
    }
}
