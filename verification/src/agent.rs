use vstd::prelude::*;
use crate::base64_codec::{base64_to_protobuf_bytes, spec_base64_decode};
use crate::constants::{
    REGISTER_LISTENER_COMMAND, RESPONSE_ON_RECEIVE, SEND_COMMAND, UNREGISTER_LISTENER_COMMAND,
};
use crate::deserialize::{
    WrapperUMessage, WrapperUUri, attributes_readable, message_readable, payload_readable,
    spec_message, spec_uuri, str_member, text_or_empty,
};
use crate::json::{
    Json, as_str, first_member, get, json_as_str, json_get, json_parse, json_single_member_text, json_text,
    json_to_text, parse_json, same_text, single_member_json,
};
use crate::number::{dec_of, decimal_text};
use crate::text::{
    convert_bytes_to_string, remove_bytes_markers, sanitize_input_string, spec_remove_markers,
    spec_sanitize,
};
use crate::uprotocol::{
    Data, UMessage, UMessageView, UUri, UUriView, code_from_name, opt_view,
    payload_format_from_name,
};
use crate::utf8_lossy::decode_lossy;

verus! {

/// What the Test Manager asks the agent to do.
#[derive(Debug, PartialEq, Eq)]
pub enum TmCommand {
    Send(UMessage),
    RegisterListener(UUri),
    UnregisterListener(UUri),
    /// An action the agent does not know: nothing is done and success is reported.
    Other,
}

pub enum TmCommandView {
    Send(UMessageView),
    RegisterListener(UUriView),
    UnregisterListener(UUriView),
    Other,
}

impl View for TmCommand {
    type V = TmCommandView;

    open spec fn view(&self) -> TmCommandView {
        match self {
            TmCommand::Send(m) => TmCommandView::Send(m@),
            TmCommand::RegisterListener(u) => TmCommandView::RegisterListener(u@),
            TmCommand::UnregisterListener(u) => TmCommandView::UnregisterListener(u@),
            TmCommand::Other => TmCommandView::Other,
        }
    }
}

/// A request of the Test Manager: the command, the action named in the answer (empty
/// for an unknown action) and the JSON text of the request's `test_id`.
#[derive(Debug, PartialEq, Eq)]
pub struct TmRequest {
    pub command: TmCommand,
    pub action: String,
    pub test_id: String,
}

pub struct TmRequestView {
    pub command: TmCommandView,
    pub action: Seq<char>,
    pub test_id: Seq<char>,
}

impl View for TmRequest {
    type V = TmRequestView;

    open spec fn view(&self) -> TmRequestView {
        TmRequestView { command: self.command@, action: self.action@, test_id: self.test_id@ }
    }
}

/// What one read from the Test Manager's socket amounts to.
#[derive(Debug, PartialEq, Eq)]
pub enum TmInput {
    /// Nothing was read.
    Empty,
    /// The text is not JSON; it is ignored.
    NotJson,
    /// The request's `action` is not a string; it is ignored.
    ActionNotText,
    /// A request to carry out and answer.
    Request(TmRequest),
}

pub enum TmInputView {
    Empty,
    NotJson,
    ActionNotText,
    Request(TmRequestView),
}

impl View for TmInput {
    type V = TmInputView;

    open spec fn view(&self) -> TmInputView {
        match self {
            TmInput::Empty => TmInputView::Empty,
            TmInput::NotJson => TmInputView::NotJson,
            TmInput::ActionNotText => TmInputView::ActionNotText,
            TmInput::Request(r) => TmInputView::Request(r@),
        }
    }
}

/// The text of a request as it is parsed: decoded leniently from UTF-8, control
/// characters escaped, `BYTES:` markers removed.
pub open spec fn spec_clean_text(received: Seq<u8>) -> Seq<char> {
    spec_remove_markers(spec_sanitize(decode_lossy(received)))
}

/// `value[key]`: the member, or `null` when there is none.
pub open spec fn member_or_null(v: Json, key: Seq<char>) -> Json {
    match json_get(v, key) {
        Some(x) => x,
        None => Json::Null,
    }
}

/// The command that an action asks for, with its data.
pub open spec fn spec_command(action: Seq<char>, data: Json) -> TmCommandView {
    if action == SEND_COMMAND@ {
        TmCommandView::Send(spec_message(data))
    } else if action == REGISTER_LISTENER_COMMAND@ {
        TmCommandView::RegisterListener(spec_uuri(data))
    } else if action == UNREGISTER_LISTENER_COMMAND@ {
        TmCommandView::UnregisterListener(spec_uuri(data))
    } else {
        TmCommandView::Other
    }
}

/// The action that the answer names: the request's own for a known action, empty otherwise.
pub open spec fn spec_answer_action(action: Seq<char>) -> Seq<char> {
    if action == SEND_COMMAND@ || action == REGISTER_LISTENER_COMMAND@ || action
        == UNREGISTER_LISTENER_COMMAND@ {
        action
    } else {
        seq![]
    }
}

/// What a parsed request asks for: nothing to do when its `action` is not a string,
/// otherwise the command, the answer's action and the JSON text of its `test_id`.
pub open spec fn spec_request_of(j: Json) -> TmInputView {
    match json_as_str(member_or_null(j, "action"@)) {
        None => TmInputView::ActionNotText,
        Some(a) => TmInputView::Request(
            TmRequestView {
                command: spec_command(a, member_or_null(j, "data"@)),
                action: spec_answer_action(a),
                test_id: json_text(member_or_null(j, "test_id"@)),
            },
        ),
    }
}

/// A parsed request can be read without failing: a message to send has a known
/// `commstatus` and payload `format` wherever these are given as text.
pub open spec fn request_readable(j: Json) -> bool {
    match json_as_str(member_or_null(j, "action"@)) {
        Some(a) => a == SEND_COMMAND@ ==> message_readable(member_or_null(j, "data"@)),
        None => true,
    }
}

/// What the bytes of one read from the Test Manager amount to.
pub open spec fn spec_tm_input(received: Seq<u8>) -> TmInputView {
    if received.len() == 0 {
        TmInputView::Empty
    } else {
        match json_parse(spec_clean_text(received)) {
            None => TmInputView::NotJson,
            Some(j) => spec_request_of(j),
        }
    }
}

/// The request can be read without failing (see `request_readable`).
pub open spec fn tm_input_readable(received: Seq<u8>) -> bool {
    received.len() > 0 ==> match json_parse(spec_clean_text(received)) {
        None => true,
        Some(j) => request_readable(j),
    }
}

/// The text of a read, as it is parsed.
pub fn clean_tm_text(received: &[u8]) -> (r: String)
    ensures
        r@ == spec_clean_text(received@),
{
    let lossy = convert_bytes_to_string(received);
    let sanitized = sanitize_input_string(lossy.as_str());
    remove_bytes_markers(sanitized.as_str())
}

/// Whether a message can be read from the value without failing.
pub fn message_is_readable(v: &Json) -> (r: bool)
    ensures
        r == message_readable(*v),
{
    let attributes_ok = match get(v, "attributes") {
        Some(a) => match as_str_member(a, "commstatus") {
            Some(s) => code_from_name(s).is_some(),
            None => true,
        },
        None => true,
    };
    let payload_ok = match get(v, "payload") {
        Some(p) => match as_str_member(p, "format") {
            Some(s) => payload_format_from_name(s).is_some(),
            None => true,
        },
        None => true,
    };
    proof {
        if let Some(a) = json_get(*v, "attributes"@) {
            assert(attributes_ok == attributes_readable(a));
        }
        if let Some(p) = json_get(*v, "payload"@) {
            assert(payload_ok == payload_readable(p));
        }
    }
    attributes_ok && payload_ok
}

fn as_str_member<'a>(v: &'a Json, key: &str) -> (r: Option<&'a str>)
    ensures
        r matches Some(s) ==> str_member(*v, key@) == Some(s@),
        r is None ==> str_member(*v, key@) is None,
{
    match get(v, key) {
        Some(x) => as_str(x),
        None => None,
    }
}

/// The member `key` of a value, or `null` when there is none.
fn member_or_null_ref<'a>(v: &'a Json, key: &str, null: &'a Json) -> (r: &'a Json)
    requires
        *null == Json::Null,
    ensures
        *r == member_or_null(*v, key@),
{
    match get(v, key) {
        Some(x) => x,
        None => null,
    }
}

/// Whether a parsed request can be read without failing.
fn request_is_readable(j: &Json) -> (r: bool)
    ensures
        r == request_readable(*j),
{
    let null = Json::Null;
    let action_value = member_or_null_ref(j, "action", &null);
    match as_str(action_value) {
        Some(a) => {
            if same_text(a, SEND_COMMAND) {
                message_is_readable(member_or_null_ref(j, "data", &null))
            } else {
                true
            }
        },
        None => true,
    }
}

/// Reads the command of a parsed request from its `action`, `data` and `test_id`.
fn request_from_json(j: &Json) -> (r: TmInput)
    requires
        request_readable(*j),
    ensures
        r@ == spec_request_of(*j),
{
    let null = Json::Null;
    let action_value = member_or_null_ref(j, "action", &null);
    let data = member_or_null_ref(j, "data", &null);
    let test_id_value = member_or_null_ref(j, "test_id", &null);
    let action = match as_str(action_value) {
        Some(a) => a,
        None => {
            return TmInput::ActionNotText;
        },
    };
    let test_id = json_to_text(test_id_value);
    let (command, answer) = if same_text(action, SEND_COMMAND) {
        (TmCommand::Send(WrapperUMessage::deserialize(data).0), SEND_COMMAND.to_string())
    } else if same_text(action, REGISTER_LISTENER_COMMAND) {
        (
            TmCommand::RegisterListener(WrapperUUri::deserialize(data).0),
            REGISTER_LISTENER_COMMAND.to_string(),
        )
    } else if same_text(action, UNREGISTER_LISTENER_COMMAND) {
        (
            TmCommand::UnregisterListener(WrapperUUri::deserialize(data).0),
            UNREGISTER_LISTENER_COMMAND.to_string(),
        )
    } else {
        (TmCommand::Other, String::new())
    };
    TmInput::Request(TmRequest { command, action: answer, test_id })
}

/// Reads one request of the Test Manager from the bytes of one read: the text is
/// cleaned, parsed as JSON, and its `action`, `data` and `test_id` give the command.
pub fn decode_tm_request(received: &[u8]) -> (r: TmInput)
    requires
        tm_input_readable(received@),
    ensures
        r@ == spec_tm_input(received@),
{
    if received.len() == 0 {
        return TmInput::Empty;
    }
    let text = clean_tm_text(received);
    match parse_json(text.as_str()) {
        Some(j) => request_from_json(&j),
        None => TmInput::NotJson,
    }
}

/// Reads one request like `decode_tm_request`, checking first that it can be read:
/// nothing when a message to send names an unknown `commstatus` or payload `format`.
/// The text is cleaned and parsed once.
pub fn handle_tm_input(received: &[u8]) -> (r: Option<TmInput>)
    ensures
        r is None <==> !tm_input_readable(received@),
        r matches Some(x) ==> x@ == spec_tm_input(received@),
{
    if received.len() == 0 {
        return Some(TmInput::Empty);
    }
    let text = clean_tm_text(received);
    match parse_json(text.as_str()) {
        Some(j) => {
            if request_is_readable(&j) {
                Some(request_from_json(&j))
            } else {
                None
            }
        },
        None => Some(TmInput::NotJson),
    }
}

/// What a request that carries its message as Base64-encoded Protocol Buffers asks for.
#[derive(Clone, Copy, PartialEq, Eq, Debug)]
pub enum EncodedCommand {
    Send,
    RegisterListener,
    UnregisterListener,
    Other,
}

/// A request whose `message` member is a Base64-encoded serialized `UMessage`.
#[derive(Debug, PartialEq, Eq)]
pub struct EncodedRequest {
    pub command: EncodedCommand,
    /// The serialized message.
    pub message: Vec<u8>,
}

/// Every member of the JSON value is a string: the value is an object of texts.
pub open spec fn all_members_text(v: Json) -> bool {
    match v {
        Json::Object(members) => forall|i: int|
            0 <= i < members@.len() ==> json_as_str(#[trigger] members@[i].1) is Some,
        _ => false,
    }
}

/// The command that an action names.
pub open spec fn spec_encoded_command(action: Seq<char>) -> EncodedCommand {
    if action == "SEND_COMMAND"@ {
        EncodedCommand::Send
    } else if action == "REGISTER_LISTENER_COMMAND"@ {
        EncodedCommand::RegisterListener
    } else if action == "UNREGISTER_LISTENER_COMMAND"@ {
        EncodedCommand::UnregisterListener
    } else {
        EncodedCommand::Other
    }
}

/// The request can be read: the text (decoded leniently from UTF-8) is a JSON object
/// of strings with an `action` and a `message` that is canonical Base64.
pub open spec fn encoded_request_readable(received: Seq<u8>) -> bool {
    match json_parse(decode_lossy(received)) {
        Some(j) => {
            &&& all_members_text(j)
            &&& json_get(j, "action"@) is Some
            &&& match json_get(j, "message"@) {
                Some(m) => match json_as_str(m) {
                    Some(t) => spec_base64_decode(t) is Some,
                    None => false,
                },
                None => false,
            }
        },
        None => false,
    }
}

/// The action named by a readable request.
pub open spec fn encoded_request_action(received: Seq<u8>) -> Seq<char> {
    json_as_str(json_get(json_parse(decode_lossy(received)).unwrap(), "action"@).unwrap()).unwrap()
}

/// The serialized message carried by a readable request.
pub open spec fn encoded_request_message(received: Seq<u8>) -> Seq<u8> {
    spec_base64_decode(
        json_as_str(json_get(json_parse(decode_lossy(received)).unwrap(), "message"@).unwrap()).unwrap(),
    ).unwrap()
}

proof fn lemma_first_member_in(members: Seq<(String, Json)>, key: Seq<char>)
    ensures
        first_member(members, key) matches Some(x) ==> exists|i: int|
            0 <= i < members.len() && #[trigger] members[i].1 == x,
    decreases members.len(),
{
    if members.len() > 0 && members[0].0@ != key {
        lemma_first_member_in(members.skip(1), key);
        if let Some(x) = first_member(members, key) {
            let i = choose|i: int| 0 <= i < members.skip(1).len() && #[trigger] members.skip(1)[i].1 == x;
            assert(members[i + 1].1 == x);
        }
    }
}

fn members_all_text(v: &Json) -> (r: bool)
    ensures
        r == all_members_text(*v),
{
    match v {
        Json::Object(members) => {
            let mut i: usize = 0;
            while i < members.len()
                invariant
                    i <= members.len(),
                    all_members_text(*v) <==> forall|k: int|
                        0 <= k < members@.len() ==> json_as_str(#[trigger] members@[k].1) is Some,
                    forall|k: int| 0 <= k < i ==> json_as_str(#[trigger] members@[k].1) is Some,
                decreases members.len() - i,
            {
                if as_str(&members[i].1).is_none() {
                    return false;
                }
                i = i + 1;
            }
            true
        },
        _ => false,
    }
}

fn command_named(action: &str) -> (r: EncodedCommand)
    ensures
        r == spec_encoded_command(action@),
{
    if same_text(action, "SEND_COMMAND") {
        EncodedCommand::Send
    } else if same_text(action, "REGISTER_LISTENER_COMMAND") {
        EncodedCommand::RegisterListener
    } else if same_text(action, "UNREGISTER_LISTENER_COMMAND") {
        EncodedCommand::UnregisterListener
    } else {
        EncodedCommand::Other
    }
}

/// Reads a request whose message is Base64-encoded: the action names the command and
/// the message is decoded into the serialized `UMessage`. Nothing when the text is not
/// a JSON object of strings, lacks `action` or `message`, or the message is not
/// canonical Base64.
pub fn handle_encoded_input(received: &[u8]) -> (r: Option<EncodedRequest>)
    ensures
        r is None <==> !encoded_request_readable(received@),
        r matches Some(x) ==> x.command == spec_encoded_command(encoded_request_action(received@))
            && x.message@ == encoded_request_message(received@),
{
    let text = convert_bytes_to_string(received);
    let j = match parse_json(text.as_str()) {
        Some(j) => j,
        None => {
            return None;
        },
    };
    if !members_all_text(&j) {
        return None;
    }
    let action = match get(&j, "action") {
        Some(a) => a,
        None => {
            return None;
        },
    };
    let message = match get(&j, "message") {
        Some(m) => match as_str(m) {
            Some(t) => t,
            None => {
                return None;
            },
        },
        None => {
            return None;
        },
    };
    let bytes = match base64_to_protobuf_bytes(message) {
        Ok(b) => b,
        Err(_) => {
            return None;
        },
    };
    proof {
        if let Json::Object(ms) = &j {
            lemma_first_member_in(ms@, "action"@);
        }
    }
    match as_str(action) {
        Some(a) => Some(EncodedRequest { command: command_named(a), message: bytes }),
        None => None,
    }
}

} // verus!
