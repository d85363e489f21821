use tim_code::api::ClientInfo;
use tim_code::api::Timestamp;
use tim_code::api::Timite;
use tim_code::secret::generate_session_key;
use tim_code::secret::session_key_of;
use tim_code::text::char_is_space;
use tim_code::text::numbered;
use tim_code::text::text_is_blank;
use tim_code::text::with_char_at;
use tim_code::text::without_range;
use tim_code::tim_session::extract_session;
use tim_code::tim_session::TimSession;
use tim_code::tim_session::SESSION_METADATA_KEY;
use tim_code::tim_storage::TimStorage;

#[test]
fn a_key_is_the_lowercase_hex_of_its_bytes() {
    assert_eq!(session_key_of(&[1, 2, 3, 15, 16]), "0102030f10");
    assert_eq!(session_key_of(b"Hello world!"), "48656c6c6f20776f726c6421");
    assert_eq!(session_key_of(&[]), "");
    assert_eq!(session_key_of(&[0xab, 0xcd, 0xef, 0x00, 0xff]), "abcdef00ff");
}

#[test]
fn a_fresh_key_has_64_hex_digits_and_differs_from_the_next() {
    let a = generate_session_key();
    let b = generate_session_key();
    assert_eq!(a.len(), 64);
    assert!(a.chars().all(|c| c.is_ascii_digit() || ('a'..='f').contains(&c)));
    assert_ne!(a, b);
}

#[test]
fn sessions_are_stored_under_their_key() {
    let mut storage = TimStorage::new();
    let service = TimSession::new();
    let alpha = Timite { id: 3, nick: "alpha".into() };
    let info = ClientInfo { platform: "cli".into() };
    let now = Timestamp { seconds: 9, nanos: 8 };
    let session = service.create(&mut storage, &alpha, &info, now).unwrap();
    assert_eq!(session.timite_id, 3);
    assert_eq!(session.created_at, now);
    assert_eq!(session.client_info, info);
    assert_eq!(session.key.len(), 64);
    assert_eq!(service.get(&storage, &session.key), Ok(Some(session.clone())));
    assert_eq!(service.get(&storage, "nope"), Ok(None));
    assert_eq!(extract_session(&service, &storage, Some(&session.key)), Some(session.clone()));
    assert_eq!(extract_session(&service, &storage, None), None);
    let fixed = service.open(&mut storage, "k".into(), &alpha, &info, now);
    assert_eq!(fixed.key, "k");
    assert_eq!(service.get(&storage, "k"), Ok(Some(fixed)));
    assert_eq!(SESSION_METADATA_KEY, "tim-session-key");
}

#[test]
fn blank_text_holds_white_space_only() {
    assert!(text_is_blank(""));
    assert!(text_is_blank(" \t\r\n\u{b}\u{c}\u{85}\u{a0}\u{1680}\u{2000}\u{200a}\u{2028}\u{2029}\u{202f}\u{205f}\u{3000}"));
    assert!(!text_is_blank(" a "));
    assert!(!text_is_blank("\u{200b}"));
    for c in ['\u{8}', '\u{e}', '\u{1f}', '!', '\u{84}', '\u{86}', '\u{200b}', '\u{feff}'] {
        assert_eq!(char_is_space(c), c.is_whitespace());
    }
    for u in 0u32..0x3100 {
        if let Some(c) = char::from_u32(u) {
            assert_eq!(char_is_space(c), c.is_whitespace(), "U+{:04X}", u);
        }
    }
}

#[test]
fn text_is_built_position_by_position() {
    assert_eq!(numbered("user-", 0), "user-0");
    assert_eq!(numbered("call-", 1234567890), "call-1234567890");
    assert_eq!(numbered("", u64::MAX), "18446744073709551615");
    assert_eq!(with_char_at("héllo", 2, 'X'), "héXllo");
    assert_eq!(with_char_at("ab", 0, 'X'), "Xab");
    assert_eq!(with_char_at("ab", 9, 'X'), "abX");
    assert_eq!(without_range("héllo", 1, 3), "hlo");
    assert_eq!(without_range("héllo", 5, 5), "héllo");
}
