use ironrdp_cliprdr::pdu::ClipboardFormatId;
use osxrdp::clipboard::{read_mac_clipboard, FormatData, MacClipboardBackend, CF_UNICODETEXT};

fn text(s: &str) -> Option<String> {
    Some(s.to_string())
}

fn data_of(s: &str) -> Vec<u8> {
    let b = MacClipboardBackend::new(None);
    match b.on_format_data_request(CF_UNICODETEXT, &text(s)) {
        FormatData::Data(d) => d,
        FormatData::Error => panic!("no data"),
    }
}

#[test]
fn format_is_that_of_the_protocol() {
    assert_eq!(ClipboardFormatId::CF_UNICODETEXT.value(), CF_UNICODETEXT);
}

#[test]
fn text_is_sent_as_utf16() {
    assert_eq!(data_of(""), [0, 0]);
    assert_eq!(data_of("aé"), [b'a', 0, 0xe9, 0, 0, 0]);
    assert_eq!(data_of("𝄞"), [0x34, 0xd8, 0x1e, 0xdd, 0, 0]);
    for s in ["plain", "\u{d7ff}\u{e000}\u{ffff}\u{10000}\u{10ffff}", "naïve €"] {
        let mut want: Vec<u8> = s.encode_utf16().flat_map(|u| u.to_le_bytes()).collect();
        want.extend_from_slice(&[0, 0]);
        assert_eq!(data_of(s), want);
    }
}

#[test]
fn other_formats_are_refused() {
    let b = MacClipboardBackend::new(None);
    assert!(matches!(b.on_format_data_request(1, &text("x")), FormatData::Error));
    assert!(matches!(b.on_format_data_request(CF_UNICODETEXT, &None), FormatData::Error));
    assert!(b.reads_clipboard(13) && !b.reads_clipboard(1));
}

#[test]
fn sent_text_is_received() {
    for s in ["x", "two words", "𝄞 clef", "\u{10ffff}", "line\r\nline"] {
        let mut b = MacClipboardBackend::new(None);
        assert_eq!(b.on_format_data_response(false, &data_of(s)), text(s));
        assert_eq!(b.known_clipboard, s);
    }
}

#[test]
fn text_ends_at_the_first_null() {
    let mut b = MacClipboardBackend::new(None);
    assert_eq!(b.on_format_data_response(false, &data_of("ab\0cd")), text("ab"));
    assert_eq!(b.on_format_data_response(false, &[b'z', 0, b'y', 0, 7]), text("zy"));
    assert_eq!(b.known_clipboard, "zy");
}

#[test]
fn responses_without_text_change_nothing() {
    let mut b = MacClipboardBackend::new(text("old"));
    assert_eq!(b.on_format_data_response(true, &data_of("new")), None);
    assert_eq!(b.on_format_data_response(false, &data_of("")), None);
    assert_eq!(b.on_format_data_response(false, &[]), None);
    assert_eq!(b.on_format_data_response(false, &[0x00, 0xd8]), None, "a lone surrogate");
    assert_eq!(b.on_format_data_response(false, &[0x1e, 0xdd, 0x34, 0xd8]), None);
    assert_eq!(b.known_clipboard, "old");
}

#[test]
fn what_came_from_the_client_is_not_offered_back() {
    let mut b = MacClipboardBackend::new(None);
    b.on_format_data_response(false, &data_of("from client"));
    assert!(!b.poll(text("from client")));
    assert!(b.poll(text("local")));
    assert!(!b.poll(text("local")));
    assert!(!b.poll(text("")));
    assert!(!b.poll(None));
    assert!(!b.poll(text("local")));
    assert_eq!(b.known_clipboard, "local");
}

#[test]
fn offers_and_requests() {
    let b = MacClipboardBackend::new(text("start"));
    assert_eq!(b.known_clipboard, "start");
    assert!(b.advertise_local_clipboard(&text("x")));
    assert!(!b.advertise_local_clipboard(&text("")));
    assert!(!b.advertise_local_clipboard(&None));
    assert!(b.on_remote_copy(&vec![1, 13, 7]));
    assert!(!b.on_remote_copy(&vec![1, 7]));
    assert!(!b.on_remote_copy(&vec![]));
}

#[test]
fn local_clipboard_is_decoded() {
    assert_eq!(read_mac_clipboard(true, "gr\u{fc}n".as_bytes()), text("grün"));
    assert_eq!(read_mac_clipboard(true, b"a\xffb"), text("a\u{fffd}b"));
    assert_eq!(read_mac_clipboard(false, b"text"), None);
}
