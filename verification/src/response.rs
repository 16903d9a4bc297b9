use vstd::prelude::*;
use crate::base64_codec::{protobuf_to_base64, spec_base64_encode};
use crate::constants::RESPONSE_ON_RECEIVE;
use crate::json::{json_single_member_text, single_member_json};
use crate::number::{dec_of, decimal_text, law_decimal_text_parses_back, spec_parse_unsigned};
use crate::text::convert_bytes_to_string;
use crate::uprotocol::{Data, DataView, code_number, opt_view};
use crate::utf8_lossy::{decode_lossy, lemma_decode_lossy_valid};
use vstd::utf8::{decode_utf8, decode_utf8_encode_utf8, encode_utf8, valid_utf8};

verus! {

/// The status codes of uProtocol.
#[allow(non_camel_case_types)]
#[derive(Clone, Copy, PartialEq, Eq, Debug)]
pub enum UCode {
    OK,
    CANCELLED,
    UNKNOWN,
    INVALID_ARGUMENT,
    DEADLINE_EXCEEDED,
    NOT_FOUND,
    ALREADY_EXISTS,
    PERMISSION_DENIED,
    UNAUTHENTICATED,
    RESOURCE_EXHAUSTED,
    FAILED_PRECONDITION,
    ABORTED,
    OUT_OF_RANGE,
    UNIMPLEMENTED,
    INTERNAL,
    UNAVAILABLE,
    DATA_LOSS,
}

/// The number that the answer to the Test Manager gives for a status code.
pub open spec fn spec_code_value(code: UCode) -> nat {
    match code {
        UCode::OK => 0,
        UCode::CANCELLED => 1,
        UCode::UNKNOWN => 2,
        UCode::INVALID_ARGUMENT => 3,
        UCode::DEADLINE_EXCEEDED => 4,
        UCode::NOT_FOUND => 5,
        UCode::ALREADY_EXISTS => 6,
        UCode::PERMISSION_DENIED => 7,
        UCode::RESOURCE_EXHAUSTED => 8,
        UCode::FAILED_PRECONDITION => 9,
        UCode::ABORTED => 10,
        UCode::OUT_OF_RANGE => 11,
        UCode::UNIMPLEMENTED => 12,
        UCode::INTERNAL => 13,
        UCode::UNAVAILABLE => 14,
        UCode::DATA_LOSS => 15,
        UCode::UNAUTHENTICATED => 16,
    }
}

/// The proto name of a status code.
pub open spec fn ucode_name(code: UCode) -> Seq<char> {
    match code {
        UCode::OK => "OK"@,
        UCode::CANCELLED => "CANCELLED"@,
        UCode::UNKNOWN => "UNKNOWN"@,
        UCode::INVALID_ARGUMENT => "INVALID_ARGUMENT"@,
        UCode::DEADLINE_EXCEEDED => "DEADLINE_EXCEEDED"@,
        UCode::NOT_FOUND => "NOT_FOUND"@,
        UCode::ALREADY_EXISTS => "ALREADY_EXISTS"@,
        UCode::PERMISSION_DENIED => "PERMISSION_DENIED"@,
        UCode::UNAUTHENTICATED => "UNAUTHENTICATED"@,
        UCode::RESOURCE_EXHAUSTED => "RESOURCE_EXHAUSTED"@,
        UCode::FAILED_PRECONDITION => "FAILED_PRECONDITION"@,
        UCode::ABORTED => "ABORTED"@,
        UCode::OUT_OF_RANGE => "OUT_OF_RANGE"@,
        UCode::UNIMPLEMENTED => "UNIMPLEMENTED"@,
        UCode::INTERNAL => "INTERNAL"@,
        UCode::UNAVAILABLE => "UNAVAILABLE"@,
        UCode::DATA_LOSS => "DATA_LOSS"@,
    }
}

/// The number of a status code.
pub fn code_value(code: UCode) -> (r: u64)
    ensures
        r == spec_code_value(code),
{
    match code {
        UCode::OK => 0,
        UCode::CANCELLED => 1,
        UCode::UNKNOWN => 2,
        UCode::INVALID_ARGUMENT => 3,
        UCode::DEADLINE_EXCEEDED => 4,
        UCode::NOT_FOUND => 5,
        UCode::ALREADY_EXISTS => 6,
        UCode::PERMISSION_DENIED => 7,
        UCode::RESOURCE_EXHAUSTED => 8,
        UCode::FAILED_PRECONDITION => 9,
        UCode::ABORTED => 10,
        UCode::OUT_OF_RANGE => 11,
        UCode::UNIMPLEMENTED => 12,
        UCode::INTERNAL => 13,
        UCode::UNAVAILABLE => 14,
        UCode::DATA_LOSS => 15,
        UCode::UNAUTHENTICATED => 16,
    }
}

/// The status that a transport operation failed with.
#[derive(Debug, PartialEq, Eq)]
pub struct UStatus {
    pub code: UCode,
    pub message: Option<String>,
}

/// The answer the agent sends the Test Manager.
#[derive(Debug, PartialEq, Eq)]
pub struct JsonResponseData {
    /// Members of the answer's `data` object, in order.
    pub data: Vec<(String, String)>,
    pub action: String,
    pub ue: String,
    pub test_id: String,
}

pub struct JsonResponseDataView {
    pub data: Seq<(Seq<char>, Seq<char>)>,
    pub action: Seq<char>,
    pub ue: Seq<char>,
    pub test_id: Seq<char>,
}

/// The view of the members of an answer's `data` object.
pub open spec fn entries_view(data: Seq<(String, String)>) -> Seq<(Seq<char>, Seq<char>)> {
    data.map_values(|p: (String, String)| (p.0@, p.1@))
}

impl View for JsonResponseData {
    type V = JsonResponseDataView;

    open spec fn view(&self) -> JsonResponseDataView {
        JsonResponseDataView {
            data: entries_view(self.data@),
            action: self.action@,
            ue: self.ue@,
            test_id: self.test_id@,
        }
    }
}

/// The `data` of the answer to a request: the status message (empty when there is
/// none) and the number of the status code (0 on success).
pub open spec fn spec_status_entries(status: Result<(), UStatus>) -> Seq<(Seq<char>, Seq<char>)> {
    match status {
        Ok(()) => seq![("message"@, Seq::<char>::empty()), ("code"@, dec_of(0))],
        Err(s) => seq![
            ("message"@, match opt_view(s.message) {
                Some(m) => m,
                None => Seq::<char>::empty(),
            }),
            ("code"@, dec_of(spec_code_value(s.code))),
        ],
    }
}

/// Each status code's number is the number that up-rust's `UCode` gives its proto name.
pub proof fn law_code_numbers_are_proto_numbers(code: UCode)
    ensures
        code_number(ucode_name(code)) == Some(spec_code_value(code) as i32),
{
    reveal_strlit("OK");
    reveal_strlit("CANCELLED");
    reveal_strlit("UNKNOWN");
    reveal_strlit("INVALID_ARGUMENT");
    reveal_strlit("DEADLINE_EXCEEDED");
    reveal_strlit("NOT_FOUND");
    reveal_strlit("ALREADY_EXISTS");
    reveal_strlit("PERMISSION_DENIED");
    reveal_strlit("RESOURCE_EXHAUSTED");
    reveal_strlit("FAILED_PRECONDITION");
    reveal_strlit("ABORTED");
    reveal_strlit("OUT_OF_RANGE");
    reveal_strlit("UNIMPLEMENTED");
    reveal_strlit("INTERNAL");
    reveal_strlit("UNAVAILABLE");
    reveal_strlit("DATA_LOSS");
    reveal_strlit("UNAUTHENTICATED");
    match code {
        UCode::OK => {
            assert(code_number("OK"@) == Some(0i32));
        },
        UCode::CANCELLED => {
            assert("CANCELLED"@.len() != "OK"@.len());
            assert(code_number("CANCELLED"@) == Some(1i32));
        },
        UCode::UNKNOWN => {
            assert("UNKNOWN"@.len() != "OK"@.len());
            assert("UNKNOWN"@.len() != "CANCELLED"@.len());
            assert(code_number("UNKNOWN"@) == Some(2i32));
        },
        UCode::INVALID_ARGUMENT => {
            assert("INVALID_ARGUMENT"@.len() != "OK"@.len());
            assert("INVALID_ARGUMENT"@.len() != "CANCELLED"@.len());
            assert("INVALID_ARGUMENT"@.len() != "UNKNOWN"@.len());
            assert(code_number("INVALID_ARGUMENT"@) == Some(3i32));
        },
        UCode::DEADLINE_EXCEEDED => {
            assert("DEADLINE_EXCEEDED"@.len() != "OK"@.len());
            assert("DEADLINE_EXCEEDED"@.len() != "CANCELLED"@.len());
            assert("DEADLINE_EXCEEDED"@.len() != "UNKNOWN"@.len());
            assert("DEADLINE_EXCEEDED"@.len() != "INVALID_ARGUMENT"@.len());
            assert(code_number("DEADLINE_EXCEEDED"@) == Some(4i32));
        },
        UCode::NOT_FOUND => {
            assert("NOT_FOUND"@.len() != "OK"@.len());
            assert("NOT_FOUND"@[0] != "CANCELLED"@[0]);
            assert("NOT_FOUND"@.len() != "UNKNOWN"@.len());
            assert("NOT_FOUND"@.len() != "INVALID_ARGUMENT"@.len());
            assert("NOT_FOUND"@.len() != "DEADLINE_EXCEEDED"@.len());
            assert(code_number("NOT_FOUND"@) == Some(5i32));
        },
        UCode::ALREADY_EXISTS => {
            assert("ALREADY_EXISTS"@.len() != "OK"@.len());
            assert("ALREADY_EXISTS"@.len() != "CANCELLED"@.len());
            assert("ALREADY_EXISTS"@.len() != "UNKNOWN"@.len());
            assert("ALREADY_EXISTS"@.len() != "INVALID_ARGUMENT"@.len());
            assert("ALREADY_EXISTS"@.len() != "DEADLINE_EXCEEDED"@.len());
            assert("ALREADY_EXISTS"@.len() != "NOT_FOUND"@.len());
            assert(code_number("ALREADY_EXISTS"@) == Some(6i32));
        },
        UCode::PERMISSION_DENIED => {
            assert("PERMISSION_DENIED"@.len() != "OK"@.len());
            assert("PERMISSION_DENIED"@.len() != "CANCELLED"@.len());
            assert("PERMISSION_DENIED"@.len() != "UNKNOWN"@.len());
            assert("PERMISSION_DENIED"@.len() != "INVALID_ARGUMENT"@.len());
            assert("PERMISSION_DENIED"@[0] != "DEADLINE_EXCEEDED"@[0]);
            assert("PERMISSION_DENIED"@.len() != "NOT_FOUND"@.len());
            assert("PERMISSION_DENIED"@.len() != "ALREADY_EXISTS"@.len());
            assert(code_number("PERMISSION_DENIED"@) == Some(7i32));
        },
        UCode::RESOURCE_EXHAUSTED => {
            assert("RESOURCE_EXHAUSTED"@.len() != "OK"@.len());
            assert("RESOURCE_EXHAUSTED"@.len() != "CANCELLED"@.len());
            assert("RESOURCE_EXHAUSTED"@.len() != "UNKNOWN"@.len());
            assert("RESOURCE_EXHAUSTED"@.len() != "INVALID_ARGUMENT"@.len());
            assert("RESOURCE_EXHAUSTED"@.len() != "DEADLINE_EXCEEDED"@.len());
            assert("RESOURCE_EXHAUSTED"@.len() != "NOT_FOUND"@.len());
            assert("RESOURCE_EXHAUSTED"@.len() != "ALREADY_EXISTS"@.len());
            assert("RESOURCE_EXHAUSTED"@.len() != "PERMISSION_DENIED"@.len());
            assert(code_number("RESOURCE_EXHAUSTED"@) == Some(8i32));
        },
        UCode::FAILED_PRECONDITION => {
            assert("FAILED_PRECONDITION"@.len() != "OK"@.len());
            assert("FAILED_PRECONDITION"@.len() != "CANCELLED"@.len());
            assert("FAILED_PRECONDITION"@.len() != "UNKNOWN"@.len());
            assert("FAILED_PRECONDITION"@.len() != "INVALID_ARGUMENT"@.len());
            assert("FAILED_PRECONDITION"@.len() != "DEADLINE_EXCEEDED"@.len());
            assert("FAILED_PRECONDITION"@.len() != "NOT_FOUND"@.len());
            assert("FAILED_PRECONDITION"@.len() != "ALREADY_EXISTS"@.len());
            assert("FAILED_PRECONDITION"@.len() != "PERMISSION_DENIED"@.len());
            assert("FAILED_PRECONDITION"@.len() != "RESOURCE_EXHAUSTED"@.len());
            assert(code_number("FAILED_PRECONDITION"@) == Some(9i32));
        },
        UCode::ABORTED => {
            assert("ABORTED"@.len() != "OK"@.len());
            assert("ABORTED"@.len() != "CANCELLED"@.len());
            assert("ABORTED"@[0] != "UNKNOWN"@[0]);
            assert("ABORTED"@.len() != "INVALID_ARGUMENT"@.len());
            assert("ABORTED"@.len() != "DEADLINE_EXCEEDED"@.len());
            assert("ABORTED"@.len() != "NOT_FOUND"@.len());
            assert("ABORTED"@.len() != "ALREADY_EXISTS"@.len());
            assert("ABORTED"@.len() != "PERMISSION_DENIED"@.len());
            assert("ABORTED"@.len() != "RESOURCE_EXHAUSTED"@.len());
            assert("ABORTED"@.len() != "FAILED_PRECONDITION"@.len());
            assert(code_number("ABORTED"@) == Some(10i32));
        },
        UCode::OUT_OF_RANGE => {
            assert("OUT_OF_RANGE"@.len() != "OK"@.len());
            assert("OUT_OF_RANGE"@.len() != "CANCELLED"@.len());
            assert("OUT_OF_RANGE"@.len() != "UNKNOWN"@.len());
            assert("OUT_OF_RANGE"@.len() != "INVALID_ARGUMENT"@.len());
            assert("OUT_OF_RANGE"@.len() != "DEADLINE_EXCEEDED"@.len());
            assert("OUT_OF_RANGE"@.len() != "NOT_FOUND"@.len());
            assert("OUT_OF_RANGE"@.len() != "ALREADY_EXISTS"@.len());
            assert("OUT_OF_RANGE"@.len() != "PERMISSION_DENIED"@.len());
            assert("OUT_OF_RANGE"@.len() != "RESOURCE_EXHAUSTED"@.len());
            assert("OUT_OF_RANGE"@.len() != "FAILED_PRECONDITION"@.len());
            assert("OUT_OF_RANGE"@.len() != "ABORTED"@.len());
            assert(code_number("OUT_OF_RANGE"@) == Some(11i32));
        },
        UCode::UNIMPLEMENTED => {
            assert("UNIMPLEMENTED"@.len() != "OK"@.len());
            assert("UNIMPLEMENTED"@.len() != "CANCELLED"@.len());
            assert("UNIMPLEMENTED"@.len() != "UNKNOWN"@.len());
            assert("UNIMPLEMENTED"@.len() != "INVALID_ARGUMENT"@.len());
            assert("UNIMPLEMENTED"@.len() != "DEADLINE_EXCEEDED"@.len());
            assert("UNIMPLEMENTED"@.len() != "NOT_FOUND"@.len());
            assert("UNIMPLEMENTED"@.len() != "ALREADY_EXISTS"@.len());
            assert("UNIMPLEMENTED"@.len() != "PERMISSION_DENIED"@.len());
            assert("UNIMPLEMENTED"@.len() != "RESOURCE_EXHAUSTED"@.len());
            assert("UNIMPLEMENTED"@.len() != "FAILED_PRECONDITION"@.len());
            assert("UNIMPLEMENTED"@.len() != "ABORTED"@.len());
            assert("UNIMPLEMENTED"@.len() != "OUT_OF_RANGE"@.len());
            assert(code_number("UNIMPLEMENTED"@) == Some(12i32));
        },
        UCode::INTERNAL => {
            assert("INTERNAL"@.len() != "OK"@.len());
            assert("INTERNAL"@.len() != "CANCELLED"@.len());
            assert("INTERNAL"@.len() != "UNKNOWN"@.len());
            assert("INTERNAL"@.len() != "INVALID_ARGUMENT"@.len());
            assert("INTERNAL"@.len() != "DEADLINE_EXCEEDED"@.len());
            assert("INTERNAL"@.len() != "NOT_FOUND"@.len());
            assert("INTERNAL"@.len() != "ALREADY_EXISTS"@.len());
            assert("INTERNAL"@.len() != "PERMISSION_DENIED"@.len());
            assert("INTERNAL"@.len() != "RESOURCE_EXHAUSTED"@.len());
            assert("INTERNAL"@.len() != "FAILED_PRECONDITION"@.len());
            assert("INTERNAL"@.len() != "ABORTED"@.len());
            assert("INTERNAL"@.len() != "OUT_OF_RANGE"@.len());
            assert("INTERNAL"@.len() != "UNIMPLEMENTED"@.len());
            assert(code_number("INTERNAL"@) == Some(13i32));
        },
        UCode::UNAVAILABLE => {
            assert("UNAVAILABLE"@.len() != "OK"@.len());
            assert("UNAVAILABLE"@.len() != "CANCELLED"@.len());
            assert("UNAVAILABLE"@.len() != "UNKNOWN"@.len());
            assert("UNAVAILABLE"@.len() != "INVALID_ARGUMENT"@.len());
            assert("UNAVAILABLE"@.len() != "DEADLINE_EXCEEDED"@.len());
            assert("UNAVAILABLE"@.len() != "NOT_FOUND"@.len());
            assert("UNAVAILABLE"@.len() != "ALREADY_EXISTS"@.len());
            assert("UNAVAILABLE"@.len() != "PERMISSION_DENIED"@.len());
            assert("UNAVAILABLE"@.len() != "RESOURCE_EXHAUSTED"@.len());
            assert("UNAVAILABLE"@.len() != "FAILED_PRECONDITION"@.len());
            assert("UNAVAILABLE"@.len() != "ABORTED"@.len());
            assert("UNAVAILABLE"@.len() != "OUT_OF_RANGE"@.len());
            assert("UNAVAILABLE"@.len() != "UNIMPLEMENTED"@.len());
            assert("UNAVAILABLE"@.len() != "INTERNAL"@.len());
            assert(code_number("UNAVAILABLE"@) == Some(14i32));
        },
        UCode::DATA_LOSS => {
            assert("DATA_LOSS"@.len() != "OK"@.len());
            assert("DATA_LOSS"@[0] != "CANCELLED"@[0]);
            assert("DATA_LOSS"@.len() != "UNKNOWN"@.len());
            assert("DATA_LOSS"@.len() != "INVALID_ARGUMENT"@.len());
            assert("DATA_LOSS"@.len() != "DEADLINE_EXCEEDED"@.len());
            assert("DATA_LOSS"@[0] != "NOT_FOUND"@[0]);
            assert("DATA_LOSS"@.len() != "ALREADY_EXISTS"@.len());
            assert("DATA_LOSS"@.len() != "PERMISSION_DENIED"@.len());
            assert("DATA_LOSS"@.len() != "RESOURCE_EXHAUSTED"@.len());
            assert("DATA_LOSS"@.len() != "FAILED_PRECONDITION"@.len());
            assert("DATA_LOSS"@.len() != "ABORTED"@.len());
            assert("DATA_LOSS"@.len() != "OUT_OF_RANGE"@.len());
            assert("DATA_LOSS"@.len() != "UNIMPLEMENTED"@.len());
            assert("DATA_LOSS"@.len() != "INTERNAL"@.len());
            assert("DATA_LOSS"@.len() != "UNAVAILABLE"@.len());
            assert(code_number("DATA_LOSS"@) == Some(15i32));
        },
        UCode::UNAUTHENTICATED => {
            assert("UNAUTHENTICATED"@.len() != "OK"@.len());
            assert("UNAUTHENTICATED"@.len() != "CANCELLED"@.len());
            assert("UNAUTHENTICATED"@.len() != "UNKNOWN"@.len());
            assert("UNAUTHENTICATED"@.len() != "INVALID_ARGUMENT"@.len());
            assert("UNAUTHENTICATED"@.len() != "DEADLINE_EXCEEDED"@.len());
            assert("UNAUTHENTICATED"@.len() != "NOT_FOUND"@.len());
            assert("UNAUTHENTICATED"@.len() != "ALREADY_EXISTS"@.len());
            assert("UNAUTHENTICATED"@.len() != "PERMISSION_DENIED"@.len());
            assert("UNAUTHENTICATED"@.len() != "RESOURCE_EXHAUSTED"@.len());
            assert("UNAUTHENTICATED"@.len() != "FAILED_PRECONDITION"@.len());
            assert("UNAUTHENTICATED"@.len() != "ABORTED"@.len());
            assert("UNAUTHENTICATED"@.len() != "OUT_OF_RANGE"@.len());
            assert("UNAUTHENTICATED"@.len() != "UNIMPLEMENTED"@.len());
            assert("UNAUTHENTICATED"@.len() != "INTERNAL"@.len());
            assert("UNAUTHENTICATED"@.len() != "UNAVAILABLE"@.len());
            assert("UNAUTHENTICATED"@.len() != "DATA_LOSS"@.len());
            assert(code_number("UNAUTHENTICATED"@) == Some(16i32));
        },
    }
}

/// The `code` that an answer reports parses back to the status code's number, which is
/// the number of its proto name; it is `0` exactly when the command succeeded or its
/// status is `OK`.
pub proof fn law_answer_reports_code(status: Result<(), UStatus>)
    ensures
        spec_status_entries(status).len() == 2,
        status matches Err(s) ==> spec_parse_unsigned(spec_status_entries(status)[1].1, u32::MAX as nat)
            == Some(spec_code_value(s.code)) && code_number(ucode_name(s.code)) == Some(
            spec_code_value(s.code) as i32,
        ),
        (spec_status_entries(status)[1].1 == seq!['0']) <==> match status {
            Ok(_) => true,
            Err(s) => s.code == UCode::OK,
        },
{
    let text = spec_status_entries(status)[1].1;
    let v: nat = match status {
        Ok(_) => 0,
        Err(s) => spec_code_value(s.code),
    };
    assert(text == dec_of(v));
    law_decimal_text_parses_back(v, u32::MAX as nat);
    law_decimal_text_parses_back(0, u32::MAX as nat);
    assert(dec_of(0) =~= seq!['0']);
    if let Err(s) = status {
        law_code_numbers_are_proto_numbers(s.code);
    }
}

/// The answer to a request of the Test Manager, from the outcome of the command.
pub fn tm_response(action: &str, status: &Result<(), UStatus>, test_id: &str) -> (r:
    JsonResponseData)
    ensures
        r@ == (JsonResponseDataView {
            data: spec_status_entries(*status),
            action: action@,
            ue: "rust"@,
            test_id: test_id@,
        }),
        status matches Err(st) ==> spec_parse_unsigned(r@.data[1].1, u32::MAX as nat) == Some(
            spec_code_value(st.code),
        ) && code_number(ucode_name(st.code)) == Some(spec_code_value(st.code) as i32),
        (r@.data[1].1 == seq!['0']) <==> match *status {
            Ok(_) => true,
            Err(st) => st.code == UCode::OK,
        },
{
    proof {
        law_answer_reports_code(*status);
    }
    let (message, code) = match status {
        Ok(()) => (String::new(), decimal_text(0)),
        Err(s) => {
            let m = match &s.message {
                Some(m) => m.clone(),
                None => String::new(),
            };
            (m, decimal_text(code_value(s.code)))
        },
    };
    let mut data: Vec<(String, String)> = Vec::new();
    data.push(("message".to_string(), message));
    data.push(("code".to_string(), code));
    let r = JsonResponseData {
        data,
        action: action.to_string(),
        ue: "rust".to_string(),
        test_id: test_id.to_string(),
    };
    assert(r@.data =~= spec_status_entries(*status));
    r
}

/// The text a listener reports for received data: a reference as its decimal number,
/// bytes decoded leniently as UTF-8, `none` when there is no data.
pub open spec fn spec_payload_text(data: Option<DataView>) -> Seq<char> {
    match data {
        Some(DataView::Reference(r)) => dec_of(r as nat),
        Some(DataView::Value(b)) => decode_lossy(b),
        None => "none"@,
    }
}

/// The report that a listener received a message with the given payload data: its
/// text wrapped as `{"payload":"{\"value\":...}"}` under the member `data`.
pub open spec fn spec_on_receive(data: Option<DataView>) -> JsonResponseDataView {
    let value_str = json_single_member_text("value"@, spec_payload_text(data));
    let payload_str = json_single_member_text("payload"@, value_str);
    JsonResponseDataView {
        data: seq![("data"@, payload_str)],
        action: RESPONSE_ON_RECEIVE@,
        ue: "rust"@,
        test_id: "1"@,
    }
}

/// The text reported for a payload of bytes that are valid UTF-8 is the text they
/// encode: encoding it again gives back the bytes.
pub proof fn law_payload_text_keeps_utf8(b: Seq<u8>)
    requires
        valid_utf8(b),
    ensures
        spec_payload_text(Some(DataView::Value(b))) == decode_utf8(b),
        encode_utf8(spec_payload_text(Some(DataView::Value(b)))) == b,
{
    lemma_decode_lossy_valid(b);
    decode_utf8_encode_utf8(b);
}

/// The report to the Test Manager that a listener received a message.
pub fn on_receive_response(data: &Option<Data>) -> (r: JsonResponseData)
    ensures
        r@ == spec_on_receive(opt_view(*data)),
        r@.data.len() == 1,
        *data matches Some(Data::Value(b)) ==> (valid_utf8(b@) ==> r@.data[0].1
            == json_single_member_text(
            "payload"@,
            json_single_member_text("value"@, decode_utf8(b@)),
        )),
{
    proof {
        if let Some(Data::Value(b)) = data {
            if valid_utf8(b@) {
                law_payload_text_keeps_utf8(b@);
            }
        }
    }
    let payload_text = match data {
        Some(Data::Reference(reference)) => decimal_text(*reference),
        Some(Data::Value(bytes)) => convert_bytes_to_string(bytes.as_slice()),
        None => "none".to_string(),
    };
    let value_str = single_member_json("value", payload_text.as_str());
    let payload_str = single_member_json("payload", value_str.as_str());
    let mut entries: Vec<(String, String)> = Vec::new();
    entries.push(("data".to_string(), payload_str));
    let r = JsonResponseData {
        data: entries,
        action: RESPONSE_ON_RECEIVE.to_string(),
        ue: "rust".to_string(),
        test_id: "1".to_string(),
    };
    assert(r@.data =~= seq![("data"@, r@.data[0].1)]);
    r
}

/// A message for the Test Manager: an action and its text.
#[derive(Debug, PartialEq, Eq)]
pub struct JsonData {
    pub action: String,
    pub message: String,
}

/// The report that a listener was called: the Base64 text of the serialized message
/// it received, or `None` when it was called with an error.
pub fn on_receive_data(serialized: Option<&[u8]>) -> (r: JsonData)
    ensures
        r.action@ == "onReceive"@,
        r.message@ == match serialized {
            Some(b) => spec_base64_encode(b@),
            None => "None"@,
        },
{
    let message = match serialized {
        Some(b) => protobuf_to_base64(b),
        None => "None".to_string(),
    };
    JsonData { action: "onReceive".to_owned(), message }
}

/// The first message the agent sends the Test Manager: `{"sdk_name":"Rust"}`.
pub fn sdk_name_message() -> (r: String)
    ensures
        r@ == json_single_member_text("sdk_name"@, "Rust"@),
{
    single_member_json("sdk_name", "Rust")
}

/// The status a transport reports for sending a message: `OK` when the message was
/// written to the socket, `INTERNAL` with the reason otherwise.
pub fn send_status(written: bool) -> (r: UStatus)
    ensures
        written ==> r.code == UCode::OK && opt_view(r.message) == Some("OK"@),
        !written ==> r.code == UCode::INTERNAL && opt_view(r.message) == Some(
            "INTERNAL ERROR: OSError sending UMessage"@,
        ),
{
    if written {
        UStatus { code: UCode::OK, message: Some("OK".to_string()) }
    } else {
        UStatus {
            code: UCode::INTERNAL,
            message: Some("INTERNAL ERROR: OSError sending UMessage".to_string()),
        }
    }
}

} // verus!
