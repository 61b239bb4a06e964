use glyph::codec::decode_message;
use glyph::codec::decode_text;
use glyph::codec::encode_message;
use glyph::codec::encode_text;
use glyph::framing::FrameOutcome;
use glyph::framing::frame_outgoing;
use glyph::framing::read_frame;
use glyph::json::JsonValue;
use glyph::json::to_text;
use glyph::parse::parse_json;
use glyph::rpc::ErrorCode;
use glyph::rpc::JsonRpcMessage;
use glyph::rpc::JsonRpcNotification;
use glyph::rpc::JsonRpcRequest;
use glyph::rpc::JsonRpcResponse;
use glyph::rpc::JsonRpcVersion2_0;
use glyph::rpc::McpError;
use glyph::rpc::RequestId;
use glyph::rpc::StandardErrorCode;
use glyph::version::ProtocolVersion;

fn obj(entries: Vec<(&str, JsonValue)>) -> JsonValue {
    JsonValue::Obj(entries.into_iter().map(|(k, v)| (k.to_string(), v)).collect())
}

#[test]
fn json_print_and_parse_round_trip() {
    let doc = obj(vec![
        ("a", JsonValue::Int(42)),
        ("b", JsonValue::Bool(true)),
        ("c", JsonValue::Null),
        ("d", JsonValue::Str("hi \"there\"\n".to_string())),
        ("e", JsonValue::Arr(vec![JsonValue::Int(-7), JsonValue::Str(String::new())])),
    ]);
    let text = to_text(&doc);
    let back = parse_json(&text).expect("canonical text parses");
    assert_eq!(back, doc);
}

#[test]
fn json_parse_accepts_whitespace_and_unicode_escapes() {
    let parsed = parse_json(" { \"k\" : [ 1 , \"\\u0041\" ] } ").expect("parses");
    let expected = obj(vec![(
        "k",
        JsonValue::Arr(vec![JsonValue::Int(1), JsonValue::Str("A".to_string())]),
    )]);
    assert_eq!(parsed, expected);
}

#[test]
fn json_parse_rejects_malformed_documents() {
    assert!(parse_json("{\"k\":").is_none());
    assert!(parse_json("[1,]").is_none());
    assert!(parse_json("01a").is_none());
    assert!(parse_json("\"unterminated").is_none());
}

#[test]
fn request_round_trip() {
    let request = JsonRpcRequest::new(
        RequestId::new_number(1),
        "tools/list",
        Some(obj(vec![("cursor", JsonValue::Str("abc".to_string()))])),
    );
    let doc = encode_message(&JsonRpcMessage::Request(request));
    let back = decode_message(&doc).expect("round trip");
    match back {
        JsonRpcMessage::Request(r) => {
            assert_eq!(r.method, "tools/list");
            assert!(matches!(r.id, RequestId::Number(1)));
            assert!(r.params.is_some());
        },
        _ => panic!("expected a request"),
    }
}

#[test]
fn notification_round_trip() {
    let n = JsonRpcNotification::new("notifications/initialized", None);
    let text = encode_text(&JsonRpcMessage::Notification(n));
    let back = decode_text(&text).expect("round trip");
    match back {
        JsonRpcMessage::Notification(n) => assert_eq!(n.method, "notifications/initialized"),
        _ => panic!("expected a notification"),
    }
}

#[test]
fn response_round_trip_with_error() {
    let e = McpError::new(ErrorCode::Standard(StandardErrorCode::MethodNotFound), "nope")
        .with_data(JsonValue::Int(3));
    let response = JsonRpcResponse::error(RequestId::new_string("r-1"), e);
    let text = encode_text(&JsonRpcMessage::Response(response));
    let back = decode_text(&text).expect("round trip");
    match back {
        JsonRpcMessage::Response(r) => {
            assert!(r.is_error());
            assert!(!r.is_success());
            let err = r.error.expect("error");
            assert_eq!(err.code.value(), -32601);
            assert_eq!(err.message, "nope");
            assert_eq!(err.data, Some(JsonValue::Int(3)));
        },
        _ => panic!("expected a response"),
    }
}

#[test]
fn decode_is_insensitive_to_key_order() {
    let reordered = "{\"id\":7,\"method\":\"ping\",\"jsonrpc\":\"2.0\"}";
    let back = decode_text(reordered).expect("decodes");
    match back {
        JsonRpcMessage::Request(r) => {
            assert_eq!(r.method, "ping");
            assert!(matches!(r.id, RequestId::Number(7)));
        },
        _ => panic!("expected a request"),
    }
}

#[test]
fn decode_rejects_wrong_version() {
    let wrong = "{\"jsonrpc\":\"1.0\",\"id\":1,\"method\":\"ping\"}";
    let err = decode_text(wrong).expect_err("rejected");
    assert_eq!(err.code.value(), -32700);
}

#[test]
fn decode_rejects_response_with_result_and_error() {
    let both = "{\"jsonrpc\":\"2.0\",\"id\":1,\"result\":1,\"error\":{\"code\":-32600,\"message\":\"x\"}}";
    let err = decode_text(both).expect_err("rejected");
    assert_eq!(err.code.value(), -32600);
}

#[test]
fn version_negotiation_is_commutative() {
    let a = ProtocolVersion::from_str("2024-11-05");
    let b = ProtocolVersion::from_str("2025-06-18");
    // distinct offers never negotiate, in either order
    assert!(ProtocolVersion::negotiate(&a, &b).is_none());
    assert!(ProtocolVersion::negotiate(&b, &a).is_none());
    // an equal supported offer negotiates to itself
    let aa = ProtocolVersion::negotiate(&a, &a).expect("equal supported offers agree");
    assert_eq!(aa.as_str(), "2024-11-05");
    let bb = ProtocolVersion::negotiate(&b, &b).expect("equal supported offers agree");
    assert_eq!(bb.as_str(), "2025-06-18");
    // an equal offer outside the supported set is still a mismatch
    let c = ProtocolVersion::from_str("1999-01-01");
    assert!(ProtocolVersion::negotiate(&c, &c).is_none());
    let d = ProtocolVersion::from_str("2000-02-02");
    assert!(ProtocolVersion::negotiate(&c, &d).is_none());
    assert!(ProtocolVersion::negotiate(&d, &c).is_none());
}

#[test]
fn nineteen_digit_ids_survive_the_wire() {
    // ids near the top of the signed 64-bit range round trip exactly
    let wire = "{\"jsonrpc\":\"2.0\",\"id\":1000000000000000000,\"method\":\"ping\"}";
    let message = decode_text(wire).expect("a 19 digit id decodes");
    match &message {
        JsonRpcMessage::Request(r) => match &r.id {
            RequestId::Number(n) => assert_eq!(*n, 1_000_000_000_000_000_000),
            RequestId::Name(_) => panic!("the id is numeric"),
        },
        _ => panic!("a request decodes"),
    }
    let again = decode_text(&encode_text(&message)).expect("round trips");
    match again {
        JsonRpcMessage::Request(r) => match r.id {
            RequestId::Number(n) => assert_eq!(n, 1_000_000_000_000_000_000),
            RequestId::Name(_) => panic!("the id is numeric"),
        },
        _ => panic!("a request decodes"),
    }

    let max = "{\"jsonrpc\":\"2.0\",\"id\":9223372036854775807,\"method\":\"ping\"}";
    let message = decode_text(max).expect("the largest signed id decodes");
    match message {
        JsonRpcMessage::Request(r) => match r.id {
            RequestId::Number(n) => assert_eq!(n, 9_223_372_036_854_775_807),
            RequestId::Name(_) => panic!("the id is numeric"),
        },
        _ => panic!("a request decodes"),
    }
}

#[test]
fn version_support_set() {
    assert!(ProtocolVersion::from_str("2024-11-05").is_supported());
    assert!(ProtocolVersion::from_str("2025-03-26").is_supported());
    assert!(ProtocolVersion::from_str("2025-06-18").is_supported());
    assert!(!ProtocolVersion::from_str("2023-01-01").is_supported());
    assert_eq!(ProtocolVersion::latest().as_str(), "2025-03-26");
}

#[test]
fn standard_error_codes_have_their_values() {
    assert_eq!(StandardErrorCode::ParseError.value(), -32700);
    assert_eq!(StandardErrorCode::InvalidRequest.value(), -32600);
    assert_eq!(StandardErrorCode::MethodNotFound.value(), -32601);
    assert_eq!(StandardErrorCode::InvalidParams.value(), -32602);
    assert_eq!(StandardErrorCode::InternalError.value(), -32603);
    assert_eq!(StandardErrorCode::ToolNotFound.value(), -32000);
    assert_eq!(StandardErrorCode::ToolExecutionError.value(), -32001);
    assert_eq!(StandardErrorCode::ResourceNotFound.value(), -32002);
    assert_eq!(StandardErrorCode::ResourceAccessDenied.value(), -32003);
    assert_eq!(StandardErrorCode::PromptNotFound.value(), -32004);
    assert_eq!(StandardErrorCode::PromptExecutionError.value(), -32005);
    assert_eq!(StandardErrorCode::ConsentRequired.value(), -32006);
    assert_eq!(StandardErrorCode::AuthenticationRequired.value(), -32007);
    assert_eq!(StandardErrorCode::RateLimitExceeded.value(), -32008);
    assert_eq!(StandardErrorCode::ServerOverloaded.value(), -32009);
    assert_eq!(StandardErrorCode::ProtocolVersionMismatch.value(), -32010);
    assert_eq!(JsonRpcVersion2_0.value(), "2.0");
}

#[test]
fn max_size_message_passes_and_one_more_byte_fails() {
    let text = "x".repeat(64);
    assert!(frame_outgoing(&text, Some(64)).is_ok());
    let line = frame_outgoing(&text, Some(64)).unwrap();
    assert_eq!(line, format!("{}\n", text));
    let bigger = "x".repeat(65);
    let fault = frame_outgoing(&bigger, Some(64)).expect_err("over the cap");
    assert_eq!(fault.size, 65);
    assert_eq!(fault.max, 64);
    assert!(frame_outgoing(&bigger, None).is_ok());
}

#[test]
fn inbound_cap_is_exact_too() {
    let msg = "{\"jsonrpc\":\"2.0\",\"id\":1,\"method\":\"ping\"}";
    let exact = msg.len();
    assert!(matches!(read_frame(msg, Some(exact)), FrameOutcome::Decoded(_)));
    assert!(matches!(read_frame(msg, Some(exact - 1)), FrameOutcome::TooLarge));
}

#[test]
fn empty_line_is_ignored_not_null() {
    assert!(matches!(read_frame("", Some(1024)), FrameOutcome::Ignored));
    assert!(matches!(read_frame("   \t  ", Some(1024)), FrameOutcome::Ignored));
    assert!(matches!(read_frame("\n", None), FrameOutcome::Ignored));
    assert!(matches!(read_frame("null", Some(1024)), FrameOutcome::Rejected(_)));
}

#[test]
fn garbage_line_is_rejected_with_parse_error() {
    match read_frame("not json at all", Some(1024)) {
        FrameOutcome::Rejected(e) => assert_eq!(e.code.value(), -32700),
        _ => panic!("expected a rejection"),
    }
}

#[test]
fn base64_decode_standard_vectors() {
    assert_eq!(glyph::base64::decode(""), Some(Vec::new()));
    assert_eq!(glyph::base64::decode("TWFu"), Some(b"Man".to_vec()));
    assert_eq!(glyph::base64::decode("TWE="), Some(b"Ma".to_vec()));
    assert_eq!(glyph::base64::decode("TQ=="), Some(b"M".to_vec()));
    assert_eq!(glyph::base64::decode("aGVsbG8gd29ybGQ="), Some(b"hello world".to_vec()));
}

#[test]
fn base64_decode_rejects_malformed_text() {
    assert_eq!(glyph::base64::decode("TWF"), None);
    assert_eq!(glyph::base64::decode("T!Fu"), None);
    assert_eq!(glyph::base64::decode("=AAA"), None);
}

#[test]
fn numbers_with_fractions_and_exponents_survive_the_trip() {
    // such numbers are carried as their own text, untouched
    let text = "{\"t\":0.7,\"e\":1e10,\"neg\":-2.5E-3,\"big\":99999999999999999999}";
    let v = parse_json(text).expect("fractional numbers are well-formed JSON");
    assert_eq!(to_text(&v), text);

    // a params payload carrying one is decoded, not answered ParseError
    let wire = "{\"jsonrpc\":\"2.0\",\"id\":1,\"method\":\"m\",\"params\":{\"temperature\":0.7}}";
    let message = decode_text(wire).expect("a fractional param decodes");
    let again = encode_text(&message);
    assert!(again.contains("0.7"));
}

#[test]
fn rejected_frames_with_a_recoverable_id_can_be_answered() {
    // the method member is a number, so decoding fails — but the id is there
    let bad = "{\"jsonrpc\":\"2.0\",\"id\":7,\"method\":3}";
    assert!(decode_text(bad).is_err());
    match glyph::codec::recover_id(bad) {
        Some(RequestId::Number(n)) => assert_eq!(n, 7),
        _ => panic!("the id is recoverable"),
    }
    let named = "{\"jsonrpc\":\"1.0\",\"id\":\"a7\",\"method\":\"ping\"}";
    match glyph::codec::recover_id(named) {
        Some(RequestId::Name(s)) => assert_eq!(s, "a7"),
        _ => panic!("the id is recoverable"),
    }
    assert!(glyph::codec::recover_id("not json at all").is_none());
    assert!(glyph::codec::recover_id("{\"jsonrpc\":\"2.0\"}").is_none());
}
