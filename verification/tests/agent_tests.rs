use up_test_agent::agent::{
    clean_tm_text, decode_tm_request, handle_encoded_input, handle_tm_input, EncodedCommand,
    EncodedRequest, TmCommand, TmInput, TmRequest,
};
use up_test_agent::constants::RESPONSE_ON_RECEIVE;
use up_test_agent::deserialize::{WrapperUAttribute, WrapperUMessage, WrapperUPayload, WrapperUUri};
use up_test_agent::json::convert_jsonstring_to_json;
use up_test_agent::response::{
    code_value, on_receive_data, on_receive_response, sdk_name_message, send_status, tm_response,
    JsonData, UCode, UStatus,
};
use up_test_agent::uprotocol::{
    AuthorityNumber, Data, UAttributes, UAuthority, UEntity, UMessage, UPayload, UResource, UUri,
    Uuid,
};

fn entity(name: &str, id: Option<u32>, major: Option<u32>, minor: Option<u32>) -> UEntity {
    UEntity { name: name.to_string(), id, version_major: major, version_minor: minor }
}

fn resource(name: &str, instance: Option<&str>, message: Option<&str>, id: Option<u32>) -> UResource {
    UResource {
        name: name.to_string(),
        instance: instance.map(|s| s.to_string()),
        message: message.map(|s| s.to_string()),
        id,
    }
}

fn uri(authority: Option<UAuthority>, e: UEntity, r: UResource) -> UUri {
    UUri { authority, entity: Some(e), resource: Some(r) }
}

fn request(command: TmCommand, action: &str, test_id: &str) -> TmInput {
    TmInput::Request(TmRequest { command, action: action.to_string(), test_id: test_id.to_string() })
}

#[test]
fn decodes_register_listener_request() {
    let text = r#"{"action":"registerlistener","data":{"entity":{"name":"body.access","id":"1","version_major":"1"},"resource":{"name":"door","instance":"front_left","message":"Door"}},"test_id":"7"}"#;
    let expected = request(
        TmCommand::RegisterListener(uri(
            None,
            entity("body.access", Some(1), Some(1), None),
            resource("door", Some("front_left"), Some("Door"), None),
        )),
        "registerlistener",
        "\"7\"",
    );
    assert_eq!(decode_tm_request(text.as_bytes()), expected);
}

#[test]
fn decodes_unregister_listener_request_with_authority() {
    let text = r#"{"action":"unregisterlistener","data":{"authority_value":{"name":"vcu"},"authority":{"number":{"ip":"10.0.0.1"}},"entity":{"name":"e","id":"x"},"resource":{"id":"12"}},"test_id":3}"#;
    let authority = UAuthority {
        name: Some("vcu".to_string()),
        number: Some(AuthorityNumber::Ip(b"\"10.0.0.1\"".to_vec())),
    };
    let expected = request(
        TmCommand::UnregisterListener(uri(
            Some(authority),
            entity("e", None, None, None),
            resource("", None, None, Some(12)),
        )),
        "unregisterlistener",
        "3",
    );
    assert_eq!(decode_tm_request(text.as_bytes()), expected);
}

#[test]
fn decodes_send_request() {
    let text = r#"{"action":"send","data":{"attributes":{"priority":"UPRIORITY_CS1","type":"UMESSAGE_TYPE_PUBLISH","id":{"lsb":"5","msb":"6"},"ttl":"1000","commstatus":"INTERNAL","token":"tok","source":{"entity":{"name":"src"}}},"payload":{"format":"UPAYLOAD_FORMAT_TEXT","length":"-2","value":"hi"}},"test_id":"t"}"#;
    let attributes = UAttributes {
        id: Some(Uuid { msb: 6, lsb: 5 }),
        type_: 1,
        source: Some(uri(None, entity("src", None, None, None), resource("", None, None, None))),
        sink: None,
        priority: 2,
        ttl: Some(1000),
        permission_level: None,
        commstatus: Some(13),
        reqid: Some(Uuid { msb: 0, lsb: 0 }),
        token: Some("tok".to_string()),
        traceparent: None,
    };
    let payload = UPayload { format: 7, length: Some(-2), data: Some(Data::Value(b"\"hi\"".to_vec())) };
    let expected = request(
        TmCommand::Send(UMessage { attributes: Some(attributes), payload: Some(payload) }),
        "send",
        "\"t\"",
    );
    assert_eq!(decode_tm_request(text.as_bytes()), expected);
}

#[test]
fn send_request_without_members_gives_unset_message() {
    let decoded = decode_tm_request(br#"{"action":"send"}"#);
    let attributes = UAttributes {
        id: None,
        type_: 0,
        source: None,
        sink: None,
        priority: 0,
        ttl: None,
        permission_level: None,
        commstatus: None,
        reqid: None,
        token: None,
        traceparent: None,
    };
    let payload = UPayload { format: 0, length: None, data: None };
    let expected = request(
        TmCommand::Send(UMessage { attributes: Some(attributes), payload: Some(payload) }),
        "send",
        "null",
    );
    assert_eq!(decoded, expected);
}

#[test]
fn unknown_action_is_answered_without_action() {
    assert_eq!(
        decode_tm_request(br#"{"action":"invokemethod","test_id":"x"}"#),
        request(TmCommand::Other, "", "\"x\"")
    );
}

#[test]
fn unreadable_inputs_are_classified() {
    assert_eq!(decode_tm_request(b""), TmInput::Empty);
    assert_eq!(decode_tm_request(b"{not json"), TmInput::NotJson);
    assert_eq!(decode_tm_request(br#"{"action":5}"#), TmInput::ActionNotText);
    assert_eq!(decode_tm_request(br#"[1,2]"#), TmInput::ActionNotText);
    // A line break between tokens is escaped like any control character, which
    // leaves text that is no longer JSON.
    assert_eq!(decode_tm_request(b"{\n\"action\":\"send\"}"), TmInput::NotJson);
}

#[test]
fn markers_and_control_characters_are_cleaned_before_parsing() {
    assert_eq!(clean_tm_text(b"a\tbBYTES:c"), "a\\u0009bc");
    assert_eq!(clean_tm_text(b"\xffBYTES:"), "\u{fffd}");
    let decoded = decode_tm_request(b"{\"action\":\"BYTES:registerlistener\",\"data\":{\"entity\":{\"name\":\"a\tb\"}}}");
    let expected = request(
        TmCommand::RegisterListener(uri(
            None,
            entity("a\tb", None, None, None),
            resource("", None, None, None),
        )),
        "registerlistener",
        "null",
    );
    assert_eq!(decoded, expected);
}

#[test]
fn unknown_enumeration_names_make_a_send_unreadable() {
    assert_eq!(handle_tm_input(br#"{"action":"send","data":{"attributes":{"commstatus":"BOGUS"}}}"#), None);
    assert_eq!(handle_tm_input(br#"{"action":"send","data":{"payload":{"format":"BOGUS"}}}"#), None);
    // The same names elsewhere are harmless.
    assert_eq!(
        handle_tm_input(br#"{"action":"registerlistener","data":{"attributes":{"commstatus":"BOGUS"}}}"#),
        Some(request(
            TmCommand::RegisterListener(uri(None, entity("", None, None, None), resource("", None, None, None))),
            "registerlistener",
            "null",
        ))
    );
    // Unknown priorities and types are left unspecified.
    let decoded = handle_tm_input(br#"{"action":"send","data":{"attributes":{"priority":"HIGH","type":"X"}}}"#);
    match decoded {
        Some(TmInput::Request(TmRequest { command: TmCommand::Send(m), .. })) => {
            let a = m.attributes.unwrap();
            assert_eq!(a.priority, 0);
            assert_eq!(a.type_, 0);
        }
        other => panic!("unexpected {:?}", other),
    }
}

#[test]
fn handle_matches_decode_when_readable() {
    for text in [
        &b""[..],
        b"garbage",
        br#"{"action":"send","data":{"payload":{"format":"UPAYLOAD_FORMAT_JSON","value":{"k":[1,2]}}},"test_id":9}"#,
        br#"{"action":"registerlistener","data":{}}"#,
    ] {
        assert_eq!(handle_tm_input(text), Some(decode_tm_request(text)));
    }
}

#[test]
fn payload_value_is_kept_as_json_text() {
    let v = convert_jsonstring_to_json(r#"{"format":"UPAYLOAD_FORMAT_JSON","value":{"k": [1, 2]}}"#);
    let p = WrapperUPayload::deserialize(&v).0;
    assert_eq!(p, UPayload { format: 3, length: None, data: Some(Data::Value(br#"{"k":[1,2]}"#.to_vec())) });
}

#[test]
fn attributes_read_numbers_from_text_only() {
    let v = convert_jsonstring_to_json(
        r#"{"ttl":5,"permission_level":"2","reqid":{"lsb":"18446744073709551615","msb":"x"},"commstatus":"NOT_FOUND","traceparent":"tp"}"#,
    );
    let a = WrapperUAttribute::deserialize(&v).0;
    assert_eq!(a.ttl, None);
    assert_eq!(a.permission_level, Some(2));
    assert_eq!(a.reqid, Some(Uuid { msb: 0, lsb: u64::MAX }));
    assert_eq!(a.commstatus, Some(5));
    assert_eq!(a.traceparent, Some("tp".to_string()));
    assert_eq!(a.id, Some(Uuid { msb: 0, lsb: 0 }));
}

#[test]
fn uri_authority_number_falls_back_to_id() {
    let v = convert_jsonstring_to_json(r#"{"authority":{"number":{"id":[1,2]}},"entity":{"version_minor":"4"}}"#);
    let u = WrapperUUri::deserialize(&v).0;
    assert_eq!(
        u,
        uri(
            Some(UAuthority { name: None, number: Some(AuthorityNumber::Id(b"[1,2]".to_vec())) }),
            entity("", None, None, Some(4)),
            resource("", None, None, None),
        )
    );
    let m = WrapperUMessage::deserialize(&convert_jsonstring_to_json("7")).0;
    assert_eq!(m.payload, Some(UPayload { format: 0, length: None, data: None }));
}

#[test]
fn answers_report_status() {
    let ok = tm_response("send", &Ok(()), "\"7\"");
    assert_eq!(ok.data, vec![("message".to_string(), String::new()), ("code".to_string(), "0".to_string())]);
    assert_eq!(ok.action, "send");
    assert_eq!(ok.ue, "rust");
    assert_eq!(ok.test_id, "\"7\"");
    let failed = tm_response(
        "",
        &Err(UStatus { code: UCode::INTERNAL, message: Some("boom".to_string()) }),
        "null",
    );
    assert_eq!(failed.data, vec![("message".to_string(), "boom".to_string()), ("code".to_string(), "13".to_string())]);
    let silent = tm_response("x", &Err(UStatus { code: UCode::UNAUTHENTICATED, message: None }), "1");
    assert_eq!(silent.data[0].1, "");
    assert_eq!(silent.data[1].1, "16");
}

#[test]
fn status_codes_have_their_numbers() {
    let table = [
        (UCode::OK, 0),
        (UCode::CANCELLED, 1),
        (UCode::UNKNOWN, 2),
        (UCode::INVALID_ARGUMENT, 3),
        (UCode::DEADLINE_EXCEEDED, 4),
        (UCode::NOT_FOUND, 5),
        (UCode::ALREADY_EXISTS, 6),
        (UCode::PERMISSION_DENIED, 7),
        (UCode::RESOURCE_EXHAUSTED, 8),
        (UCode::FAILED_PRECONDITION, 9),
        (UCode::ABORTED, 10),
        (UCode::OUT_OF_RANGE, 11),
        (UCode::UNIMPLEMENTED, 12),
        (UCode::INTERNAL, 13),
        (UCode::UNAVAILABLE, 14),
        (UCode::DATA_LOSS, 15),
        (UCode::UNAUTHENTICATED, 16),
    ];
    for (code, n) in table {
        assert_eq!(code_value(code), n);
    }
}

#[test]
fn received_messages_are_reported() {
    let r = on_receive_response(&Some(Data::Value(b"hello".to_vec())));
    assert_eq!(r.data, vec![("data".to_string(), r#"{"payload":"{\"value\":\"hello\"}"}"#.to_string())]);
    assert_eq!(r.action, RESPONSE_ON_RECEIVE);
    assert_eq!(r.ue, "rust");
    assert_eq!(r.test_id, "1");
    let r = on_receive_response(&Some(Data::Reference(42)));
    assert_eq!(r.data[0].1, r#"{"payload":"{\"value\":\"42\"}"}"#);
    let r = on_receive_response(&None);
    assert_eq!(r.data[0].1, r#"{"payload":"{\"value\":\"none\"}"}"#);
    let r = on_receive_response(&Some(Data::Value(b"a\"\xff".to_vec())));
    assert_eq!(r.data[0].1, "{\"payload\":\"{\\\"value\\\":\\\"a\\\\\\\"\u{fffd}\\\"}\"}");
}

#[test]
fn listener_calls_are_reported_in_base64() {
    assert_eq!(
        on_receive_data(Some(b"hello")),
        JsonData { action: "onReceive".to_string(), message: "aGVsbG8=".to_string() }
    );
    assert_eq!(on_receive_data(None).message, "None");
}

#[test]
fn first_message_names_the_sdk() {
    assert_eq!(sdk_name_message(), r#"{"sdk_name":"Rust"}"#);
}

#[test]
fn send_status_reflects_the_write() {
    assert_eq!(send_status(true), UStatus { code: UCode::OK, message: Some("OK".to_string()) });
    assert_eq!(
        send_status(false),
        UStatus {
            code: UCode::INTERNAL,
            message: Some("INTERNAL ERROR: OSError sending UMessage".to_string())
        }
    );
}

#[test]
fn encoded_requests_carry_base64_messages() {
    assert_eq!(
        handle_encoded_input(br#"{"action":"SEND_COMMAND","message":"aGVsbG8="}"#),
        Some(EncodedRequest { command: EncodedCommand::Send, message: b"hello".to_vec() })
    );
    assert_eq!(
        handle_encoded_input(br#"{"action":"REGISTER_LISTENER_COMMAND","message":""}"#),
        Some(EncodedRequest { command: EncodedCommand::RegisterListener, message: vec![] })
    );
    assert_eq!(
        handle_encoded_input(br#"{"action":"UNREGISTER_LISTENER_COMMAND","message":"AQI="}"#),
        Some(EncodedRequest { command: EncodedCommand::UnregisterListener, message: vec![1, 2] })
    );
    assert_eq!(
        handle_encoded_input(br#"{"action":"send","message":"AQI="}"#).map(|r| r.command),
        Some(EncodedCommand::Other)
    );
    assert_eq!(handle_encoded_input(br#"{"action":"SEND_COMMAND","message":"aGVsbG8"}"#), None);
    assert_eq!(handle_encoded_input(br#"{"action":"SEND_COMMAND"}"#), None);
    assert_eq!(handle_encoded_input(br#"{"message":"AQI="}"#), None);
    assert_eq!(handle_encoded_input(br#"{"action":1,"message":"AQI="}"#), None);
    assert_eq!(handle_encoded_input(br#"["SEND_COMMAND"]"#), None);
    assert_eq!(handle_encoded_input(b"not json"), None);
}
