use mpv_handler::unicode::is_valid_utf8;

#[test]
fn agrees_with_std_on_valid_text() {
    let samples: Vec<&[u8]> = vec![
        b"",
        b"plain ascii",
        "h\u{e9}llo".as_bytes(),
        "\u{7ff}\u{800}\u{ffff}".as_bytes(),
        "\u{10000}\u{10ffff}".as_bytes(),
    ];
    for s in samples {
        assert!(std::str::from_utf8(s).is_ok());
        assert!(is_valid_utf8(s));
    }
}

#[test]
fn agrees_with_std_on_invalid_bytes() {
    let samples: Vec<&[u8]> = vec![
        &[0x80],                    // a lone continuation byte
        &[0xc0, 0x80],              // an overlong two-byte encoding
        &[0xe0, 0x80, 0x80],        // an overlong three-byte encoding
        &[0xed, 0xa0, 0x80],        // a surrogate
        &[0xf8, 0x88, 0x80, 0x80],  // out of range leading byte
        &[0xf4, 0x90, 0x80, 0x80],  // beyond the last scalar
        &[0xc3],                    // a truncated encoding
        &[0xe2, 0x82],              // another truncated encoding
        &[0x41, 0xff],              // a stray invalid byte
    ];
    for s in samples {
        assert!(std::str::from_utf8(s).is_err());
        assert!(!is_valid_utf8(s));
    }
}
