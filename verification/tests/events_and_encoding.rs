//! The event encoder and the base64 codec.
use serveros::base64::base64_decode;
use serveros::base64::base64_encode;
use serveros::event::ServerEvent;

#[test]
fn data_event_formats_exactly() {
    assert_eq!(ServerEvent::data("x").format(), "data: x\n\n");
}

#[test]
fn format_always_ends_with_a_blank_line() {
    let events = [
        ServerEvent::data("plain"),
        ServerEvent::keep_alive(),
        ServerEvent::event("log", "payload".to_string()),
        ServerEvent {
            event: Some("tick".to_string()),
            data: "1".to_string(),
            id: Some("7".to_string()),
            retry: Some(1500),
        },
    ];
    for event in events {
        let text = event.format();
        assert!(text.ends_with("\n\n"));
        assert!(text.contains("data: "));
    }
}

#[test]
fn format_orders_the_optional_fields() {
    let event = ServerEvent {
        event: Some("tick".to_string()),
        data: "1".to_string(),
        id: Some("7".to_string()),
        retry: Some(1500),
    };
    assert_eq!(event.format(), "event: tick\nid: 7\nretry: 1500\ndata: 1\n\n");
}

#[test]
fn format_is_idempotent() {
    let event = ServerEvent::data("same");
    assert_eq!(event.format(), event.format());
}

#[test]
fn to_bytes_is_the_format_text() {
    let event = ServerEvent::data("hello");
    assert_eq!(event.to_bytes(), b"data: hello\n\n".to_vec());
}

#[test]
fn keep_alive_has_the_fixed_payload() {
    let probe = ServerEvent::keep_alive();
    assert_eq!(probe.format(), "data: event: keep-alive\ndata: ping\n\n\n");
}

#[test]
fn named_event_base64_encodes_its_payload() {
    let event = ServerEvent::event("log", "Many hands make light work.".to_string());
    assert_eq!(
        event.format(),
        "event: log\ndata: TWFueSBoYW5kcyBtYWtlIGxpZ2h0IHdvcmsu\n\n"
    );
}

#[test]
fn base64_encodes_known_vectors() {
    assert_eq!(base64_encode(b""), "");
    assert_eq!(base64_encode(b"f"), "Zg==");
    assert_eq!(base64_encode(b"fo"), "Zm8=");
    assert_eq!(base64_encode(b"foo"), "Zm9v");
    assert_eq!(base64_encode(b"foob"), "Zm9vYg==");
    assert_eq!(base64_encode(b"fooba"), "Zm9vYmE=");
    assert_eq!(base64_encode(b"foobar"), "Zm9vYmFy");
}

#[test]
fn base64_decodes_known_vectors() {
    assert_eq!(base64_decode("").unwrap(), b"".to_vec());
    assert_eq!(base64_decode("Zg==").unwrap(), b"f".to_vec());
    assert_eq!(base64_decode("Zm8=").unwrap(), b"fo".to_vec());
    assert_eq!(base64_decode("Zm9v").unwrap(), b"foo".to_vec());
    assert_eq!(base64_decode("Zm9vYmFy").unwrap(), b"foobar".to_vec());
}

#[test]
fn base64_round_trips() {
    let inputs: [&[u8]; 4] = [b"", b"a", b"\x00\xff\x10", b"the quick brown fox"];
    for input in inputs {
        let encoded = base64_encode(input);
        assert_eq!(base64_decode(&encoded).unwrap(), input.to_vec());
    }
}

#[test]
fn base64_rejects_invalid_characters() {
    let err = base64_decode("Zm,v").unwrap_err();
    assert_eq!(err, "Invalid base64 character");
    assert!(base64_decode("ab cd").is_err());
}

#[test]
fn base64_stops_at_embedded_padding() {
    // reading stops at the first embedded padding character
    assert_eq!(base64_decode("Zg==Zg").unwrap(), b"f".to_vec());
}
