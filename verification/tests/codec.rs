use impolite::codec::decode_payload;
use impolite::codec::encode_request;
use impolite::codec::DecodeError;
use impolite::codec::FrameBuf;
use impolite::json::encode_request_json;
use impolite::json::encode_response_json;
use impolite::json::parse_response_json;
use impolite::protocol::AuthMessageType;
use impolite::protocol::ErrorType;
use impolite::protocol::Request;
use impolite::protocol::Response;

fn json_text(req: &Request) -> String {
    String::from_utf8(encode_request_json(req)).unwrap()
}

#[test]
fn serialize_create_session() {
    let msg = Request::CreateSession {
        username: "Bingus".into(),
    };

    assert_eq!(
        json_text(&msg),
        r#"{"type":"create_session","username":"Bingus"}"#
    );
}

#[test]
fn serialize_success() {
    let msg = Response::Success;

    assert_eq!(
        String::from_utf8(encode_response_json(&msg)).unwrap(),
        r#"{"type":"success"}"#
    );
}

#[test]
fn serialize_post_auth_message_response() {
    let msg = Request::PostAuthMessageResponse {
        response: Some("1234".into()),
    };

    assert_eq!(
        json_text(&msg),
        r#"{"type":"post_auth_message_response","response":"1234"}"#
    );
}

#[test]
fn serialize_post_auth_message_response_empty() {
    let msg = Request::PostAuthMessageResponse { response: None };

    assert_eq!(
        json_text(&msg),
        r#"{"type":"post_auth_message_response","response":null}"#
    );
}

#[test]
fn serialize_start_session() {
    let msg = Request::StartSession {
        command: vec!["/bin/sh".into(), "-l".into()],
        env: vec![],
    };

    assert_eq!(
        json_text(&msg),
        r#"{"type":"start_session","command":["/bin/sh","-l"],"env":[]}"#
    );
}

#[test]
fn serialize_cancel_session() {
    let msg = Request::CancelSession;

    assert_eq!(json_text(&msg), r#"{"type":"cancel_session"}"#);
}

#[test]
fn serialize_escapes_like_the_daemon() {
    let msg = Request::CreateSession {
        username: "a\"b\\c\nd\te\u{1}f\u{e9}".into(),
    };

    assert_eq!(
        json_text(&msg),
        "{\"type\":\"create_session\",\"username\":\"a\\\"b\\\\c\\nd\\te\\u0001f\u{e9}\"}"
    );
}

#[test]
fn frame_has_little_endian_length_prefix() {
    let msg = Request::CreateSession {
        username: "Bingus".into(),
    };
    let payload = encode_request_json(&msg);
    let frame = encode_request(&msg).unwrap();

    assert_eq!(&frame[0..4], (payload.len() as u32).to_le_bytes());
    assert_eq!(&frame[4..], &payload[..]);
}

#[test]
fn decode_success_response() {
    let got = decode_payload(br#"{"type":"success"}"#).unwrap();
    assert_eq!(got, Response::Success);
}

#[test]
fn decode_error_response() {
    let got = decode_payload(
        br#"{"type":"error","error_type":"auth_error","description":"bad password"}"#,
    )
    .unwrap();
    assert_eq!(
        got,
        Response::Error {
            error_type: ErrorType::AuthError,
            description: "bad password".into(),
        }
    );
}

#[test]
fn decode_generic_error_response() {
    let got =
        decode_payload(br#"{"type":"error","error_type":"error","description":"boom"}"#).unwrap();
    assert_eq!(
        got,
        Response::Error {
            error_type: ErrorType::Error,
            description: "boom".into(),
        }
    );
}

#[test]
fn decode_auth_message_response() {
    let got = decode_payload(
        br#"{"type":"auth_message","auth_message_type":"secret","auth_message":"Password:"}"#,
    )
    .unwrap();
    assert_eq!(
        got,
        Response::AuthMessage {
            auth_message_type: AuthMessageType::Secret,
            auth_message: "Password:".into(),
        }
    );
}

#[test]
fn decode_unescapes_message_text() {
    let got = decode_payload(
        b"{\"type\":\"auth_message\",\"auth_message_type\":\"info\",\"auth_message\":\"line\\none \\\"quoted\\\" \\u0007 caf\xc3\xa9\"}",
    )
    .unwrap();
    assert_eq!(
        got,
        Response::AuthMessage {
            auth_message_type: AuthMessageType::Info,
            auth_message: "line\none \"quoted\" \u{7} caf\u{e9}".into(),
        }
    );
}

#[test]
fn decode_rejects_invalid_utf8() {
    assert_eq!(
        decode_payload(&[0xff, 0xfe, 0x20]),
        Err(DecodeError::MalformedFrame)
    );
    // A length-prefix continuation byte cut off mid-character.
    assert_eq!(
        decode_payload(b"{\"type\":\"success\"}\xc3"),
        Err(DecodeError::MalformedFrame)
    );
}

#[test]
fn decode_rejects_unknown_shapes() {
    let cases: &[&[u8]] = &[
        br#"{"type":"nonsense"}"#,
        br#"{"type":"auth_message","auth_message_type":"loud","auth_message":"hi"}"#,
        br#"{"type":"error","error_type":"auth_error","description":"unterminated}"#,
        br#"{"type":"success"}x"#,
        br#"{"type":"success","type":"success"}"#,
        br#"{"type":"success","extra":"x"}"#,
        br#"{"type":1}"#,
        br#"{"type":"succ ess"}"#,
        br#"{"type" "success"}"#,
        br#"{}"#,
        b"",
    ];
    for case in cases {
        assert_eq!(decode_payload(case), Err(DecodeError::ProtocolDecodeError));
    }
}

#[test]
fn decode_tolerates_whitespace() {
    let cases: &[&[u8]] = &[
        br#"{"type": "success"}"#,
        br#" {"type":"success"}"#,
        br#"{"type":"success"} "#,
        b"{\n  \"type\" : \"success\"\r\n}\t",
    ];
    for case in cases {
        assert_eq!(decode_payload(case), Ok(Response::Success));
    }
}

#[test]
fn decode_tolerates_member_order() {
    let expected = Response::Error {
        error_type: ErrorType::AuthError,
        description: "bad password".into(),
    };
    let cases: &[&[u8]] = &[
        br#"{"type":"error","error_type":"auth_error","description":"bad password"}"#,
        br#"{"type":"error","description":"bad password","error_type":"auth_error"}"#,
        br#"{"error_type":"auth_error","type":"error","description":"bad password"}"#,
        br#"{"description":"bad password","error_type":"auth_error","type":"error"}"#,
    ];
    for case in cases {
        assert_eq!(decode_payload(case), Ok(expected.clone()));
    }
}

#[test]
fn decode_tolerates_escape_spellings() {
    // Hex escapes for plain characters, either hex case, escapes inside
    // member names and tags, the solidus escape, and surrogate pairs all
    // denote the same values.
    let info = |text: &str| Response::AuthMessage {
        auth_message_type: AuthMessageType::Info,
        auth_message: text.into(),
    };
    let cases: &[(&[u8], Response)] = &[
        (
            br#"{"type":"auth_message","auth_message_type":"info","auth_message":"A"}"#,
            info("A"),
        ),
        (
            br#"{"type":"auth_message","auth_message_type":"info","auth_message":"\u0009"}"#,
            info("\t"),
        ),
        (
            br#"{"type":"auth_message","auth_message_type":"info","auth_message":"\u000B"}"#,
            info("\u{b}"),
        ),
        (
            br#"{"type":"auth_message","auth_message_type":"info","auth_message":"a\/b"}"#,
            info("a/b"),
        ),
        (
            br#"{"type":"auth_message","auth_message_type":"info","auth_message":"\uD83D\uDD12"}"#,
            info("\u{1F512}"),
        ),
        (
            br#"{"type":"auth_message","auth_message_type":"info","auth_message":"\ud83d\udd12"}"#,
            info("\u{1F512}"),
        ),
    ];
    for (case, expected) in cases {
        assert_eq!(decode_payload(case), Ok(expected.clone()));
    }
}

#[test]
fn decode_rejects_broken_escapes() {
    let cases: &[&[u8]] = &[
        // A lone high surrogate, a lone low surrogate, a bad escape letter,
        // truncated hex digits, and a raw control character.
        br#"{"type":"auth_message","auth_message_type":"info","auth_message":"\uD83D"}"#,
        br#"{"type":"auth_message","auth_message_type":"info","auth_message":"\uDD12"}"#,
        br#"{"type":"auth_message","auth_message_type":"info","auth_message":"\q"}"#,
        br#"{"type":"auth_message","auth_message_type":"info","auth_message":"\u00"}"#,
        b"{\"type\":\"auth_message\",\"auth_message_type\":\"info\",\"auth_message\":\"a\x01b\"}",
    ];
    for case in cases {
        assert_eq!(decode_payload(case), Err(DecodeError::ProtocolDecodeError));
    }
}

#[test]
fn responses_round_trip_through_the_codec() {
    let samples = vec![
        Response::Success,
        Response::Error {
            error_type: ErrorType::AuthError,
            description: "bad \"password\"\n".into(),
        },
        Response::Error {
            error_type: ErrorType::Error,
            description: "".into(),
        },
        Response::AuthMessage {
            auth_message_type: AuthMessageType::Visible,
            auth_message: "login:".into(),
        },
        Response::AuthMessage {
            auth_message_type: AuthMessageType::Secret,
            auth_message: "Password: \u{1b}[1m\u{e9}\u{1F512}".into(),
        },
        Response::AuthMessage {
            auth_message_type: AuthMessageType::Error,
            auth_message: "backslash \\ and control \u{2}".into(),
        },
    ];
    for resp in samples {
        let payload = encode_response_json(&resp);
        assert_eq!(decode_payload(&payload), Ok(resp.clone()));
    }
}

#[test]
fn reencode_restores_canonical_text() {
    // Parsing a canonical text and printing the result reproduces it.
    let text = r#"{"type":"auth_message","auth_message_type":"visible","auth_message":"user?"}"#;
    let parsed = parse_response_json(text).unwrap();
    assert_eq!(String::from_utf8(encode_response_json(&parsed)).unwrap(), text);

    // Parsing any other spelling of the same response prints the same
    // canonical text.
    let spelled =
        r#"{ "auth_message": "user?",  "type" : "auth_message", "auth_message_type": "visi\u0062le" }"#;
    let reparsed = parse_response_json(spelled).unwrap();
    assert_eq!(String::from_utf8(encode_response_json(&reparsed)).unwrap(), text);
}

#[test]
fn frame_buf_extracts_whole_frame() {
    let msg = Response::Success;
    let payload = encode_response_json(&msg);
    let mut frame = (payload.len() as u32).to_le_bytes().to_vec();
    frame.extend_from_slice(&payload);

    let mut buf = FrameBuf::new();
    buf.feed(&frame);
    let got = buf.next_frame().unwrap();
    assert_eq!(got, payload);
    assert!(buf.next_frame().is_none());
}

#[test]
fn frame_buf_tolerates_single_byte_reads() {
    let msg = Response::AuthMessage {
        auth_message_type: AuthMessageType::Secret,
        auth_message: "Password:".into(),
    };
    let payload = encode_response_json(&msg);
    let mut frame = (payload.len() as u32).to_le_bytes().to_vec();
    frame.extend_from_slice(&payload);

    // Contiguous delivery.
    let mut whole = FrameBuf::new();
    whole.feed(&frame);
    let from_whole = whole.next_frame().unwrap();

    // One byte at a time; no frame until the last byte arrives.
    let mut split = FrameBuf::new();
    for (i, byte) in frame.iter().enumerate() {
        if i + 1 < frame.len() {
            assert!(split.next_frame().is_none());
        }
        split.feed(&[*byte]);
    }
    let from_split = split.next_frame().unwrap();

    assert_eq!(from_whole, from_split);
    assert_eq!(decode_payload(&from_split), Ok(msg));
}

#[test]
fn frame_buf_keeps_following_frames() {
    let first = encode_response_json(&Response::Success);
    let second = encode_response_json(&Response::Error {
        error_type: ErrorType::Error,
        description: "later".into(),
    });
    let mut stream = Vec::new();
    stream.extend_from_slice(&(first.len() as u32).to_le_bytes());
    stream.extend_from_slice(&first);
    stream.extend_from_slice(&(second.len() as u32).to_le_bytes());
    stream.extend_from_slice(&second);

    // Split at an awkward spot: in the middle of the second length prefix.
    let cut = 4 + first.len() + 2;
    let mut buf = FrameBuf::new();
    buf.feed(&stream[..cut]);
    assert_eq!(buf.next_frame().unwrap(), first);
    assert!(buf.next_frame().is_none());
    buf.feed(&stream[cut..]);
    assert_eq!(buf.next_frame().unwrap(), second);
    assert!(buf.next_frame().is_none());
}
