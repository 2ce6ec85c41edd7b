use chat_bridge::codec::{decode_chat_message, encode_out_message};
use chat_bridge::{BridgeError, ChatHandle, OutMessage};

fn out(handle: &str, message: &str) -> OutMessage {
    OutMessage { handle: ChatHandle(handle.to_string()), message: message.to_string() }
}

#[test]
fn encode_simple_frame_exactly() {
    let s = encode_out_message(&out("tete", "hi"));
    assert_eq!(s, r#"{"handle":"tete","message":"hi"}"#);
}

#[test]
fn encode_escapes_quote_backslash_and_controls() {
    let s = encode_out_message(&out("a\"b", "line\nbreak\\tab\t\u{1}"));
    assert_eq!(s, "{\"handle\":\"a\\\"b\",\"message\":\"line\\nbreak\\\\tab\\t\\u0001\"}");
}

#[test]
fn decode_simple_frame() {
    let m = decode_chat_message(r#"{"handle":"tete","message":"hi"}"#).unwrap();
    assert_eq!(m.handle.0, "tete");
    assert_eq!(m.message.0, "hi");
}

#[test]
fn decode_accepts_whitespace_and_swapped_fields() {
    let m =
        decode_chat_message(" {\t\"message\" : \"a b\" ,\r\n \"handle\" : \"pepe\" } ").unwrap();
    assert_eq!(m.handle.0, "pepe");
    assert_eq!(m.message.0, "a b");
}

#[test]
fn decode_short_escapes() {
    let m = decode_chat_message(r#"{"handle":"t\"x","message":"a\\b\/c\bd\fe\nf\rg\th"}"#)
        .unwrap();
    assert_eq!(m.handle.0, "t\"x");
    assert_eq!(m.message.0, "a\\b/c\u{8}d\u{c}e\nf\rg\th");
}

#[test]
fn decode_unicode_escapes() {
    let m = decode_chat_message(r#"{"handle":"Aé","message":"\u0001"}"#).unwrap();
    assert_eq!(m.handle.0, "A\u{e9}");
    assert_eq!(m.message.0, "\u{1}");
}

#[test]
fn decode_surrogate_pair() {
    let m = decode_chat_message(r#"{"handle":"a","message":"x\uD83D\uDE00y"}"#).unwrap();
    assert_eq!(m.message.0, "x\u{1F600}y");
}

#[test]
fn decode_non_ascii_passthrough() {
    let m = decode_chat_message("{\"handle\":\"t\u{e9}t\u{e9}\",\"message\":\"\u{1F600}\"}")
        .unwrap();
    assert_eq!(m.handle.0, "t\u{e9}t\u{e9}");
    assert_eq!(m.message.0, "\u{1F600}");
}

#[test]
fn decode_rejects_non_string_field() {
    // The motivating malformed frame: a number where a string belongs.
    let e = decode_chat_message(r#"{"handle": 5}"#).unwrap_err();
    assert_eq!(e, BridgeError::DecodeError);
}

#[test]
fn decode_rejects_missing_field() {
    assert_eq!(
        decode_chat_message(r#"{"handle":"a"}"#).unwrap_err(),
        BridgeError::DecodeError
    );
}

#[test]
fn decode_skips_unknown_members() {
    // Unknown members of every JSON kind are ignored, wherever they
    // stand among the two required fields.
    let frame = [
        r#"{"seq":17,"handle":"a","tags":[1,{"z":null},true],"#,
        r#""message":"b","meta":{"nested":{"k":-1.5e+10}},"note":"x\n"}"#,
    ]
    .join("");
    let m = decode_chat_message(&frame).unwrap();
    assert_eq!(m.handle.0, "a");
    assert_eq!(m.message.0, "b");

    let m = decode_chat_message(
        " { \"a\" : false , \"message\" : \"m\" , \"b\" : 0 , \"handle\" : \"h\" } ",
    )
    .unwrap();
    assert_eq!(m.handle.0, "h");
    assert_eq!(m.message.0, "m");
}

#[test]
fn decode_rejects_missing_or_duplicated_fields() {
    for s in [
        r#"{"handle":"a","other":"b"}"#,
        r#"{"handle":"a","handle":"b"}"#,
        r#"{"handle":"a","message":"b","handle":"c"}"#,
        r#"{"handle":"a","message":"b","message":"c"}"#,
        r#"{}"#,
    ] {
        assert_eq!(decode_chat_message(s).unwrap_err(), BridgeError::DecodeError, "{}", s);
    }
}

#[test]
fn decode_rejects_malformed_unknown_members() {
    // An unknown member still has to be well-formed JSON.
    for s in [
        r#"{"x":01,"handle":"a","message":"b"}"#,
        r#"{"x":1.,"handle":"a","message":"b"}"#,
        r#"{"x":+1,"handle":"a","message":"b"}"#,
        r#"{"x":1e,"handle":"a","message":"b"}"#,
        r#"{"x":nul,"handle":"a","message":"b"}"#,
        r#"{"x":[1,,2],"handle":"a","message":"b"}"#,
        r#"{"x":{"y":},"handle":"a","message":"b"}"#,
        r#"{"x":"unterminated,"handle":"a","message":"b"}"#,
    ] {
        assert_eq!(decode_chat_message(s).unwrap_err(), BridgeError::DecodeError, "{}", s);
    }
}

#[test]
fn decode_bounds_unknown_member_nesting() {
    let frame = |depth: usize| {
        format!(
            r#"{{"handle":"a","message":"b","x":{}0{}}}"#,
            "[".repeat(depth),
            "]".repeat(depth)
        )
    };
    // The bound itself is fine; one level past it is a decode error.
    assert!(decode_chat_message(&frame(128)).is_ok());
    assert_eq!(decode_chat_message(&frame(129)).unwrap_err(), BridgeError::DecodeError);
}

#[test]
fn decode_rejects_malformed_json() {
    for s in [
        "",
        "not json",
        "{",
        r#"{"handle":"a","message":"b""#,
        r#"{"handle":"a","message":"b"} trailing"#,
        r#"["handle","message"]"#,
        r#"{"handle":"a","message":"b",}"#,
        "{\"handle\":\"a\",\"message\":\"raw\ncontrol\"}",
        r#"{"handle":"a","message":"\q"}"#,
        r#"{"handle":"a","message":"\uD800"}"#,
        r#"{"handle":"a","message":"\u12"}"#,
    ] {
        assert_eq!(decode_chat_message(s).unwrap_err(), BridgeError::DecodeError, "{}", s);
    }
}

#[test]
fn decode_then_encode_preserves_field_values() {
    // Decoding a frame and re-encoding the decoded fields keeps the
    // handle and the message exactly, whatever the original spacing,
    // field order or spelling of escapes.
    for s in [
        r#"{"handle":"tete","message":"hi"}"#,
        " { \"message\" : \"a\\nb\" , \"handle\" : \"p\\u0065pe\" } ",
        r#"{"handle":"😀","message":""}"#,
    ] {
        let m1 = decode_chat_message(s).unwrap();
        let re = encode_out_message(&OutMessage {
            handle: ChatHandle(m1.handle.0.clone()),
            message: m1.message.0.clone(),
        });
        let m2 = decode_chat_message(&re).unwrap();
        assert_eq!(m1.handle.0, m2.handle.0);
        assert_eq!(m1.message.0, m2.message.0);
    }
}

#[test]
fn encode_then_decode_is_identity() {
    for (h, t) in [
        ("tete", "hello there"),
        ("", ""),
        ("we\"ird\\", "\u{0}\u{1f}\ttabs\nand\u{1F600}"),
    ] {
        let s = encode_out_message(&out(h, t));
        let m = decode_chat_message(&s).unwrap();
        assert_eq!(m.handle.0, h);
        assert_eq!(m.message.0, t);
    }
}
