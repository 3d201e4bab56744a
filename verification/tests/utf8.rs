use tempo::text::is_valid_utf8;

#[test]
fn empty_payload_is_valid() {
    assert!(is_valid_utf8(&vec![]));
}

#[test]
fn ascii_payload_is_valid() {
    assert!(is_valid_utf8(&b"hello world".to_vec()));
}

#[test]
fn multi_byte_characters_are_valid() {
    // two-byte, three-byte and four-byte characters
    assert!(is_valid_utf8(&"é".as_bytes().to_vec()));
    assert!(is_valid_utf8(&"€".as_bytes().to_vec()));
    assert!(is_valid_utf8(&"𝄞".as_bytes().to_vec()));
    assert!(is_valid_utf8(&"mixé €𝄞 text".as_bytes().to_vec()));
}

#[test]
fn lone_continuation_byte_is_invalid() {
    assert!(!is_valid_utf8(&vec![0x80]));
    assert!(!is_valid_utf8(&vec![0x61, 0xBF, 0x62]));
}

#[test]
fn truncated_character_is_invalid() {
    assert!(!is_valid_utf8(&vec![0xC3]));
    assert!(!is_valid_utf8(&vec![0xE2, 0x82]));
    assert!(!is_valid_utf8(&vec![0xF0, 0x9D, 0x84]));
}

#[test]
fn overlong_encoding_is_invalid() {
    // overlong forms of NUL and of characters below the 3- and 4-byte ranges
    assert!(!is_valid_utf8(&vec![0xC0, 0x80]));
    assert!(!is_valid_utf8(&vec![0xC1, 0xBF]));
    assert!(!is_valid_utf8(&vec![0xE0, 0x9F, 0xBF]));
    assert!(!is_valid_utf8(&vec![0xF0, 0x8F, 0xBF, 0xBF]));
}

#[test]
fn surrogate_code_points_are_invalid() {
    assert!(!is_valid_utf8(&vec![0xED, 0xA0, 0x80]));
    assert!(!is_valid_utf8(&vec![0xED, 0xBF, 0xBF]));
    assert!(is_valid_utf8(&vec![0xED, 0x9F, 0xBF]));
}

#[test]
fn code_points_past_the_maximum_are_invalid() {
    assert!(!is_valid_utf8(&vec![0xF4, 0x90, 0x80, 0x80]));
    assert!(!is_valid_utf8(&vec![0xF5, 0x80, 0x80, 0x80]));
    assert!(is_valid_utf8(&vec![0xF4, 0x8F, 0xBF, 0xBF]));
}

#[test]
fn agrees_with_the_standard_library() {
    let samples: Vec<Vec<u8>> = vec![
        vec![],
        b"plain ascii".to_vec(),
        "àéîöü ünïcodé".as_bytes().to_vec(),
        vec![0xFF, 0xFF, 0xFF],
        vec![0xC3, 0xA9, 0xC3],
        vec![0xE0, 0xA0, 0x80],
        vec![0xE0, 0x80, 0x80],
        vec![0xF0, 0x90, 0x80, 0x80],
        vec![0xED, 0xA0, 0x80],
        vec![0x00, 0x7F, 0x41],
        vec![0xC2, 0x80, 0xDF, 0xBF],
    ];
    for s in samples {
        assert_eq!(is_valid_utf8(&s), std::str::from_utf8(&s).is_ok());
    }
}
