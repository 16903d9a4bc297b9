use protobuf::well_known_types::any::Any;
use protobuf::Message;
use up_test_agent::base64_codec::{base64_to_protobuf_bytes, protobuf_to_base64, Base64DecodeError};
use up_test_agent::constants::{
    BYTES_MSG_LENGTH, DISPATCHER_ADDR, INVOKE_METHOD_COMMAND, REGISTER_LISTENER_COMMAND,
    SEND_COMMAND, TEST_MANAGER_ADDR, UNREGISTER_LISTENER_COMMAND,
};
use up_test_agent::json::{
    as_str, convert_json_to_jsonstring, convert_jsonstring_to_json, get, json_to_protobuf,
    parse_json, single_member_json, try_convert_jsonstring_to_json, Json, JsonConversionError,
};
use up_test_agent::number::{decimal_text, parse_i32, parse_u32, parse_u64};
use up_test_agent::text::{
    convert_bytes_to_string, convert_str_to_bytes, escape_control_character,
    remove_bytes_markers, sanitize_input_string,
};

#[test]
pub fn test_constants() {
    println!("SEND_COMMAND: {}", SEND_COMMAND);
    println!("REGISTER_LISTENER_COMMAND: {}", REGISTER_LISTENER_COMMAND);
    println!("UNREGISTER_LISTENER_COMMAND: {}", UNREGISTER_LISTENER_COMMAND);
    println!("INVOKE_METHOD_COMMAND: {}", INVOKE_METHOD_COMMAND);
    println!("DISPATCHER_ADDR: {:?}", DISPATCHER_ADDR);
    println!("TEST_MANAGER_ADDR: {:?}", TEST_MANAGER_ADDR);
    println!("BYTES_MSG_LENGTH: {}", BYTES_MSG_LENGTH);
}

#[test]
fn test_protobuf_to_base64_and_base64_to_protobuf_bytes() {
    let mut any = Any::new();
    any.type_url = "example.com/MyMessage".to_string();
    any.value = vec![1, 2, 3, 4, 5];
    let serialized = any.write_to_bytes().unwrap();
    let base64_str = protobuf_to_base64(&serialized);
    let decoded_bytes = base64_to_protobuf_bytes(&base64_str).unwrap();
    println!("any: {:x?}", any.write_to_bytes().unwrap());
    println!("Decoded bytes: {:x?}", decoded_bytes);
    assert_eq!(any.write_to_bytes().unwrap(), decoded_bytes);
}

#[test]
fn test_convert_bytes_to_string() {
    let data = vec![104, 101, 108, 108, 111];
    let result = convert_bytes_to_string(&data);
    assert_eq!(result, "hello");
}

#[test]
fn test_convert_jsonstring_to_json() {
    let jsonstring = r#"{"key": "value"}"#;
    let result = convert_jsonstring_to_json(jsonstring);
    assert_eq!(get(&result, "key").and_then(as_str), Some("value"));
}

#[test]
fn utils_test_convert_json_to_jsonstring() {
    let json = Json::Object(vec![("key".to_string(), Json::Str("value".to_string()))]);
    let result = convert_json_to_jsonstring(&json);
    assert_eq!(result, r#"{"key":"value"}"#);
}

#[test]
fn test_convert_str_to_bytes() {
    let string = "hello";
    let result = convert_str_to_bytes(string);
    assert_eq!(result, vec![104, 101, 108, 108, 111]);
}

#[test]
fn lossy_decoding_matches_std_on_ill_formed_input() {
    let cases: Vec<Vec<u8>> = vec![
        b"ab\xffc".to_vec(),
        b"\xe2\x82".to_vec(),
        b"\xe2\x82x".to_vec(),
        b"\xf0\x90\x80".to_vec(),
        b"\xe0\x80\x80".to_vec(),
        b"\xed\xa0\x80".to_vec(),
        b"\xf4\x90\x80\x80".to_vec(),
        b"\xc0\xaf".to_vec(),
        b"\xc2\xa9 \xe2\x82\xac \xf0\x9f\x98\x80".to_vec(),
        b"\x80\xbf\xfe\xff".to_vec(),
        vec![],
    ];
    for bytes in cases {
        let expected = String::from_utf8_lossy(&bytes).into_owned();
        assert_eq!(convert_bytes_to_string(&bytes), expected, "{:x?}", bytes);
    }
}

#[test]
fn lossy_decoding_matches_std_on_all_short_inputs() {
    let interesting: [u8; 16] =
        [0x00, 0x41, 0x7f, 0x80, 0x8f, 0x90, 0x9f, 0xa0, 0xbf, 0xc2, 0xdf, 0xe0, 0xed, 0xf0, 0xf4, 0xf5];
    for a in interesting {
        for b in interesting {
            for c in interesting {
                let bytes = [a, b, c];
                let expected = String::from_utf8_lossy(&bytes).into_owned();
                assert_eq!(convert_bytes_to_string(&bytes), expected, "{:x?}", bytes);
            }
        }
    }
}

#[test]
fn string_bytes_roundtrip() {
    for s in ["", "hello", "grüße", "€uro", "😀 ok"] {
        assert_eq!(convert_bytes_to_string(&convert_str_to_bytes(s)), s);
    }
}

#[test]
fn escapes_control_characters() {
    assert_eq!(escape_control_character('\n'), "\\u000a");
    assert_eq!(escape_control_character('\u{0}'), "\\u0000");
    assert_eq!(escape_control_character('\u{1f}'), "\\u001f");
    assert_eq!(escape_control_character('A'), "\\u0041");
    assert_eq!(escape_control_character('\u{1F600}'), "\\u1f600");
}

#[test]
fn sanitizes_control_characters_only() {
    assert_eq!(sanitize_input_string("a\nb\tc"), "a\\u000ab\\u0009c");
    assert_eq!(sanitize_input_string("plain text"), "plain text");
    let once = sanitize_input_string("x\u{1}y");
    assert_eq!(sanitize_input_string(&once), once);
}

#[test]
fn removes_bytes_markers() {
    assert_eq!(remove_bytes_markers("BYTES:abc"), "abc");
    assert_eq!(remove_bytes_markers("xBYTES:yBYTES:"), "xy");
    assert_eq!(remove_bytes_markers("BYTBYTES:ES:"), "BYTES:");
    assert_eq!(remove_bytes_markers("BYTES"), "BYTES");
}

#[test]
fn base64_canonical_only() {
    assert_eq!(protobuf_to_base64(b"hello"), "aGVsbG8=");
    assert_eq!(protobuf_to_base64(b"hell"), "aGVsbA==");
    assert_eq!(protobuf_to_base64(b"hel"), "aGVs");
    assert_eq!(protobuf_to_base64(b""), "");
    assert_eq!(base64_to_protobuf_bytes("aGVsbG8=").unwrap(), b"hello");
    assert!(base64_to_protobuf_bytes("aGVsbG8").is_err());
    assert!(base64_to_protobuf_bytes("aGVsbA=").is_err());
    assert!(base64_to_protobuf_bytes("aGVsbG9=").is_err());
    assert_eq!(base64_to_protobuf_bytes("a$Vs"), Err(Base64DecodeError::InvalidByte(1, b'$')));
}

#[test]
fn parses_numbers_like_str_parse() {
    assert_eq!(parse_u32("42"), Some(42));
    assert_eq!(parse_u32("+42"), Some(42));
    assert_eq!(parse_u32("4294967295"), Some(u32::MAX));
    assert_eq!(parse_u32("4294967296"), None);
    assert_eq!(parse_u32(""), None);
    assert_eq!(parse_u32("+"), None);
    assert_eq!(parse_u32("-1"), None);
    assert_eq!(parse_u32("1a"), None);
    assert_eq!(parse_u64("18446744073709551615"), Some(u64::MAX));
    assert_eq!(parse_u64("18446744073709551616"), None);
    assert_eq!(parse_i32("-2147483648"), Some(i32::MIN));
    assert_eq!(parse_i32("2147483647"), Some(i32::MAX));
    assert_eq!(parse_i32("2147483648"), None);
    assert_eq!(parse_i32("-"), None);
    for s in ["0", "007", "+5", "-5", "99999999999", "x"] {
        assert_eq!(parse_u32(s), s.parse::<u32>().ok());
        assert_eq!(parse_i32(s), s.parse::<i32>().ok());
    }
}

#[test]
fn writes_decimal_numbers() {
    assert_eq!(decimal_text(0), "0");
    assert_eq!(decimal_text(13), "13");
    assert_eq!(decimal_text(u64::MAX), u64::MAX.to_string());
}

#[test]
fn json_text_and_parsing() {
    assert!(parse_json("{not json").is_none());
    assert!(try_convert_jsonstring_to_json("[1,").is_none());
    assert_eq!(single_member_json("value", "a\"b\\c\n"), r#"{"value":"a\"b\\c\n"}"#);
    assert_eq!(json_to_protobuf(r#"{ "a" : [1, 2] }"#).unwrap(), br#"{"a":[1,2]}"#.to_vec());
    assert_eq!(json_to_protobuf("nope"), Err(JsonConversionError::NotJson));
    let n = Json::Number(serde_json::Number::from(5u64));
    assert_eq!(convert_json_to_jsonstring(&n), "5");
}

#[test]
fn decimal_text_parses_back() {
    for n in [0u64, 9, 10, 4_294_967_295, u64::MAX] {
        assert_eq!(parse_u64(&decimal_text(n)), Some(n));
    }
    assert_eq!(parse_u32(&decimal_text(4_294_967_295)), Some(u32::MAX));
    assert_eq!(parse_u32(&decimal_text(4_294_967_296)), None);
}

#[test]
fn base64_errors_are_reported_by_kind() {
    assert_eq!(base64_to_protobuf_bytes("a"), Err(Base64DecodeError::InvalidLength));
    assert_eq!(base64_to_protobuf_bytes("aGVsbG8"), Err(Base64DecodeError::InvalidPadding));
    assert_eq!(base64_to_protobuf_bytes("aGVsbG9="), Err(Base64DecodeError::InvalidLastSymbol(6, b'9')));
}
