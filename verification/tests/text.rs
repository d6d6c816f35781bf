use cursor_overlay::text::wstring;

#[test]
fn wstring_ascii_is_nul_terminated() {
    assert_eq!(wstring("CursorOverlayClass"), "CursorOverlayClass".encode_utf16().chain(std::iter::once(0)).collect::<Vec<u16>>());
    assert_eq!(wstring("ab"), vec![0x61, 0x62, 0]);
    assert_eq!(wstring(""), vec![0]);
}

#[test]
fn wstring_non_ascii_and_surrogates() {
    assert_eq!(wstring("é"), vec![0xE9, 0]);
    assert_eq!(wstring("鼠标"), vec![0x9F20, 0x6807, 0]);
    assert_eq!(wstring("\u{1F5B1}"), vec![0xD83D, 0xDDB1, 0]);
    assert_eq!(wstring("\u{10FFFF}"), vec![0xDBFF, 0xDFFF, 0]);
    assert_eq!(wstring("\u{10000}"), vec![0xD800, 0xDC00, 0]);
    let s = "a\u{1F600}b\u{FFFF}";
    let expected: Vec<u16> = s.encode_utf16().chain(std::iter::once(0)).collect();
    assert_eq!(wstring(s), expected);
}

#[test]
fn wstring_round_trips_through_utf16_decoding() {
    for s in ["", "CursorOverlayClass", "Cursor Overlay", "é鼠标", "\u{1F5B1}x\u{10FFFF}", "\u{FFFF}\u{10000}\u{E000}\u{D7FF}"] {
        let w = wstring(s);
        assert!(!w.is_empty());
        assert_eq!(*w.last().unwrap(), 0);
        assert_eq!(String::from_utf16(&w[..w.len() - 1]).ok(), Some(s.to_string()));
    }
}
