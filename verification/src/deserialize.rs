use vstd::prelude::*;
use vstd::utf8::encode_utf8;
use crate::json::{
    Json, as_str, deref_opt, get, get_opt, json_get, json_get_opt, json_str_opt, json_text,
    json_to_text, str_opt,
};
use crate::number::{parse_i32, parse_u32, parse_u64, spec_parse_i32, spec_parse_unsigned};
use crate::text::convert_str_to_bytes;
use crate::uprotocol::{
    AuthorityNumber, AuthorityNumberView, Data, DataView, UAttributes, UAttributesView,
    UAuthority, UAuthorityView, UEntity, UEntityView, UMessage, UMessageView, UPayload,
    UPayloadView, UResource, UResourceView, UUri, UUriView, Uuid, code_from_name, code_number,
    message_type_from_name, message_type_number, payload_format_from_name,
    payload_format_number, priority_from_name, priority_number,
};

verus! {

/// The text at `value.get(k1).get(k2).as_str()`.
pub open spec fn str_at(v: Json, k1: Seq<char>, k2: Seq<char>) -> Option<Seq<char>> {
    json_str_opt(json_get_opt(json_get(v, k1), k2))
}

/// The number that an optional text parses to as a `u32`.
pub open spec fn parsed_u32(t: Option<Seq<char>>) -> Option<u32> {
    match t {
        Some(s) => match spec_parse_unsigned(s, u32::MAX as nat) {
            Some(n) => Some(n as u32),
            None => None,
        },
        None => None,
    }
}

/// The number that an optional text parses to as a `u64`, or `default`.
pub open spec fn parsed_u64_or(t: Option<Seq<char>>, default: u64) -> u64 {
    match t {
        Some(s) => match spec_parse_unsigned(s, u64::MAX as nat) {
            Some(n) => n as u64,
            None => default,
        },
        None => default,
    }
}

/// An optional text, or the empty text.
pub open spec fn text_or_empty(t: Option<Seq<char>>) -> Seq<char> {
    match t {
        Some(s) => s,
        None => seq![],
    }
}

/// The authority number of a URI in JSON: the JSON text of `authority.number.ip`, or
/// else of `authority.number.id`, as bytes.
pub open spec fn spec_authority_number(v: Json) -> Option<AuthorityNumberView> {
    let number = json_get_opt(json_get(v, "authority"@), "number"@);
    match json_get_opt(number, "ip"@) {
        Some(x) => Some(AuthorityNumberView::Ip(encode_utf8(json_text(x)))),
        None => match json_get_opt(number, "id"@) {
            Some(x) => Some(AuthorityNumberView::Id(encode_utf8(json_text(x)))),
            None => None,
        },
    }
}

/// The URI that a JSON value describes. The authority name is read from
/// `authority_value.name` and its number from `authority.number`; the authority is
/// present when either is. Entity and resource are always present; their texts
/// default to empty and numbers that are missing or do not parse are left unset.
pub open spec fn spec_uuri(v: Json) -> UUriView {
    let name = str_at(v, "authority_value"@, "name"@);
    let number = spec_authority_number(v);
    UUriView {
        authority: if name is None && number is None {
            None
        } else {
            Some(UAuthorityView { name, number })
        },
        entity: Some(
            UEntityView {
                name: text_or_empty(str_at(v, "entity"@, "name"@)),
                id: parsed_u32(str_at(v, "entity"@, "id"@)),
                version_major: parsed_u32(str_at(v, "entity"@, "version_major"@)),
                version_minor: parsed_u32(str_at(v, "entity"@, "version_minor"@)),
            },
        ),
        resource: Some(
            UResourceView {
                name: text_or_empty(str_at(v, "resource"@, "name"@)),
                instance: str_at(v, "resource"@, "instance"@),
                message: str_at(v, "resource"@, "message"@),
                id: parsed_u32(str_at(v, "resource"@, "id"@)),
            },
        ),
    }
}

/// `value.get(k1).get(k2).as_str()`.
fn text_at<'a>(v: &'a Json, k1: &str, k2: &str) -> (r: Option<&'a str>)
    ensures
        r matches Some(s) ==> str_at(*v, k1@, k2@) == Some(s@),
        r is None ==> str_at(*v, k1@, k2@) is None,
{
    str_opt(get_opt(get(v, k1), k2))
}

/// An optional text parsed as a `u32`.
fn parse_u32_opt(t: Option<&str>) -> (r: Option<u32>)
    ensures
        r == parsed_u32(match t {
            Some(s) => Some(s@),
            None => None,
        }),
{
    match t {
        Some(s) => parse_u32(s),
        None => None,
    }
}

/// An optional text parsed as a `u64`, or `default`.
pub(crate) fn parse_u64_or(t: Option<&str>, default: u64) -> (r: u64)
    ensures
        r == parsed_u64_or(
            match t {
                Some(s) => Some(s@),
                None => None,
            },
            default,
        ),
{
    match t {
        Some(s) => match parse_u64(s) {
            Some(n) => n,
            None => default,
        },
        None => default,
    }
}

/// An optional text copied into a `String`.
pub(crate) fn owned_text(t: Option<&str>) -> (r: Option<String>)
    ensures
        r matches Some(s) ==> t matches Some(u) && s@ == u@,
        r is None ==> t is None,
{
    match t {
        Some(s) => Some(s.to_string()),
        None => None,
    }
}

/// An optional text copied into a `String`, or the empty string.
fn owned_or_empty(t: Option<&str>) -> (r: String)
    ensures
        r@ == text_or_empty(
            match t {
                Some(s) => Some(s@),
                None => None,
            },
        ),
{
    match t {
        Some(s) => s.to_string(),
        None => String::new(),
    }
}

/// The JSON text of a value, as bytes.
fn json_bytes(x: &Json) -> (r: Vec<u8>)
    ensures
        r@ == encode_utf8(json_text(*x)),
{
    let t = json_to_text(x);
    convert_str_to_bytes(t.as_str())
}

/// A uProtocol URI read from the JSON the Test Manager sends.
pub struct WrapperUUri(pub UUri);

impl WrapperUUri {
    /// Reads a URI from a JSON value; see `spec_uuri` for which members it reads.
    pub fn deserialize(value: &Json) -> (r: WrapperUUri)
        ensures
            r.0@ == spec_uuri(*value),
            str_at(*value, "authority_value"@, "name"@) matches Some(n) ==> r.0@.authority matches Some(
                a,
            ) && a.name == Some(n),
    {
        let name = owned_text(text_at(value, "authority_value", "name"));
        let number_node = get_opt(get(value, "authority"), "number");
        let number = match get_opt(number_node, "ip") {
            Some(x) => Some(AuthorityNumber::Ip(json_bytes(x))),
            None => match get_opt(number_node, "id") {
                Some(x) => Some(AuthorityNumber::Id(json_bytes(x))),
                None => None,
            },
        };
        let authority = if name.is_none() && number.is_none() {
            None
        } else {
            Some(UAuthority { name, number })
        };
        let entity = UEntity {
            name: owned_or_empty(text_at(value, "entity", "name")),
            id: parse_u32_opt(text_at(value, "entity", "id")),
            version_major: parse_u32_opt(text_at(value, "entity", "version_major")),
            version_minor: parse_u32_opt(text_at(value, "entity", "version_minor")),
        };
        let resource = UResource {
            name: owned_or_empty(text_at(value, "resource", "name")),
            instance: owned_text(text_at(value, "resource", "instance")),
            message: owned_text(text_at(value, "resource", "message")),
            id: parse_u32_opt(text_at(value, "resource", "id")),
        };
        WrapperUUri(UUri { authority, entity: Some(entity), resource: Some(resource) })
    }
}

/// A URI read from JSON keeps the authority name given at `authority_value.name`: the
/// authority is present and carries that name, whether or not a number is given.
pub proof fn law_uri_keeps_authority_name(v: Json)
    ensures
        str_at(v, "authority_value"@, "name"@) matches Some(n) ==> spec_uuri(v).authority matches Some(
            a,
        ) && a.name == Some(n),
        str_at(v, "authority_value"@, "name"@) is None && json_get_opt(
            json_get_opt(json_get(v, "authority"@), "number"@),
            "ip"@,
        ) is None && json_get_opt(json_get_opt(json_get(v, "authority"@), "number"@), "id"@) is None
            ==> spec_uuri(v).authority is None,
{
}

/// The text of member `key`, if it is a string.
pub open spec fn str_member(v: Json, key: Seq<char>) -> Option<Seq<char>> {
    json_str_opt(json_get(v, key))
}

/// The number of an enumeration value named by an optional text, by the given
/// table; 0 (the unspecified value) when the text is missing or names no value.
pub open spec fn enum_number_or_unspecified(t: Option<Seq<char>>, number: Option<i32>) -> i32 {
    match t {
        Some(s) => match number {
            Some(n) => n,
            None => 0,
        },
        None => 0,
    }
}

/// The UUID at member `key`: `lsb` and `msb` parsed from their texts, 0 where missing
/// or not a number.
pub open spec fn spec_uuid_at(v: Json, key: Seq<char>) -> Uuid {
    Uuid {
        msb: parsed_u64_or(str_at(v, key, "msb"@), 0),
        lsb: parsed_u64_or(str_at(v, key, "lsb"@), 0),
    }
}

/// The URI that member `key` describes, when there is such a member.
pub open spec fn spec_uri_member(v: Json, key: Seq<char>) -> Option<UUriView> {
    match json_get(v, key) {
        Some(x) => Some(spec_uuri(x)),
        None => None,
    }
}

/// The attributes that a JSON value describes. Enumerations are read by their proto
/// names; a priority or type that names no value is left unspecified.
pub open spec fn spec_attributes(v: Json) -> UAttributesView {
    let priority = str_member(v, "priority"@);
    let type_ = str_member(v, "type"@);
    UAttributesView {
        id: Some(spec_uuid_at(v, "id"@)),
        type_: enum_number_or_unspecified(
            type_,
            match type_ {
                Some(s) => message_type_number(s),
                None => None,
            },
        ),
        source: spec_uri_member(v, "source"@),
        sink: spec_uri_member(v, "sink"@),
        priority: enum_number_or_unspecified(
            priority,
            match priority {
                Some(s) => priority_number(s),
                None => None,
            },
        ),
        ttl: parsed_u32(str_member(v, "ttl"@)),
        permission_level: parsed_u32(str_member(v, "permission_level"@)),
        commstatus: match str_member(v, "commstatus"@) {
            Some(s) => code_number(s),
            None => None,
        },
        reqid: Some(spec_uuid_at(v, "reqid"@)),
        token: str_member(v, "token"@),
        traceparent: str_member(v, "traceparent"@),
    }
}

/// The source and the sink of attributes read from JSON are the URIs read from the
/// members `source` and `sink`, each present exactly when its member is.
pub proof fn law_attributes_keep_endpoints(v: Json)
    ensures
        json_get(v, "source"@) matches Some(x) ==> spec_attributes(v).source == Some(spec_uuri(x)),
        json_get(v, "sink"@) matches Some(x) ==> spec_attributes(v).sink == Some(spec_uuri(x)),
        json_get(v, "source"@) is None ==> spec_attributes(v).source is None,
        json_get(v, "sink"@) is None ==> spec_attributes(v).sink is None,
{
}

/// Attributes can be read from the value: a `commstatus` given as text names a code.
pub open spec fn attributes_readable(v: Json) -> bool {
    str_member(v, "commstatus"@) matches Some(s) ==> code_number(s) is Some
}

/// The payload that a JSON value describes: its format by proto name, its length
/// parsed as an `i32`, and its data as the JSON text of member `value`.
pub open spec fn spec_payload(v: Json) -> UPayloadView {
    UPayloadView {
        format: match str_member(v, "format"@) {
            Some(s) => match payload_format_number(s) {
                Some(n) => n,
                None => 0,
            },
            None => 0,
        },
        length: match str_member(v, "length"@) {
            Some(s) => match spec_parse_i32(s) {
                Some(n) => Some(n as i32),
                None => None,
            },
            None => None,
        },
        data: match json_get(v, "value"@) {
            Some(x) => Some(DataView::Value(encode_utf8(json_text(x)))),
            None => None,
        },
    }
}

/// A payload can be read from the value: a `format` given as text names a format.
pub open spec fn payload_readable(v: Json) -> bool {
    str_member(v, "format"@) matches Some(s) ==> payload_format_number(s) is Some
}

/// Attributes with every field unset.
pub open spec fn default_attributes() -> UAttributesView {
    UAttributesView {
        id: None,
        type_: 0,
        source: None,
        sink: None,
        priority: 0,
        ttl: None,
        permission_level: None,
        commstatus: None,
        reqid: None,
        token: None,
        traceparent: None,
    }
}

/// A payload with every field unset.
pub open spec fn default_payload() -> UPayloadView {
    UPayloadView { format: 0, length: None, data: None }
}

/// The message that a JSON value describes: attributes from member `attributes` and
/// payload from member `payload`, unset ones where a member is missing.
pub open spec fn spec_message(v: Json) -> UMessageView {
    UMessageView {
        attributes: Some(
            match json_get(v, "attributes"@) {
                Some(a) => spec_attributes(a),
                None => default_attributes(),
            },
        ),
        payload: Some(
            match json_get(v, "payload"@) {
                Some(p) => spec_payload(p),
                None => default_payload(),
            },
        ),
    }
}

/// A message can be read from the value: its attributes and payload can.
pub open spec fn message_readable(v: Json) -> bool {
    &&& (json_get(v, "attributes"@) matches Some(a) ==> attributes_readable(a))
    &&& (json_get(v, "payload"@) matches Some(p) ==> payload_readable(p))
}

/// `value.get(key).as_str()`.
fn text_member<'a>(v: &'a Json, key: &str) -> (r: Option<&'a str>)
    ensures
        r matches Some(s) ==> str_member(*v, key@) == Some(s@),
        r is None ==> str_member(*v, key@) is None,
{
    str_opt(get(v, key))
}

fn uuid_at(v: &Json, key: &str) -> (r: Uuid)
    ensures
        r == spec_uuid_at(*v, key@),
{
    Uuid {
        msb: parse_u64_or(text_at(v, key, "msb"), 0),
        lsb: parse_u64_or(text_at(v, key, "lsb"), 0),
    }
}

fn uri_member(v: &Json, key: &str) -> (r: Option<UUri>)
    ensures
        r matches Some(u) ==> spec_uri_member(*v, key@) == Some(u@),
        r is None ==> spec_uri_member(*v, key@) is None,
{
    match get(v, key) {
        Some(x) => Some(WrapperUUri::deserialize(x).0),
        None => None,
    }
}

/// uProtocol message attributes read from the JSON the Test Manager sends.
pub struct WrapperUAttribute(pub UAttributes);

impl WrapperUAttribute {
    /// Reads attributes from a JSON value; see `spec_attributes`.
    pub fn deserialize(value: &Json) -> (r: WrapperUAttribute)
        requires
            attributes_readable(*value),
        ensures
            r.0@ == spec_attributes(*value),
            json_get(*value, "source"@) matches Some(x) ==> r.0@.source == Some(spec_uuri(x)),
            json_get(*value, "sink"@) matches Some(x) ==> r.0@.sink == Some(spec_uuri(x)),
            json_get(*value, "source"@) is None ==> r.0@.source is None,
            json_get(*value, "sink"@) is None ==> r.0@.sink is None,
    {
        let priority = match text_member(value, "priority") {
            Some(s) => match priority_from_name(s) {
                Some(n) => n,
                None => 0,
            },
            None => 0,
        };
        let type_ = match text_member(value, "type") {
            Some(s) => match message_type_from_name(s) {
                Some(n) => n,
                None => 0,
            },
            None => 0,
        };
        let commstatus = match text_member(value, "commstatus") {
            Some(s) => match code_from_name(s) {
                Some(n) => Some(n),
                None => None,
            },
            None => None,
        };
        let attributes = UAttributes {
            id: Some(uuid_at(value, "id")),
            type_,
            source: uri_member(value, "source"),
            sink: uri_member(value, "sink"),
            priority,
            ttl: parse_u32_opt(text_member(value, "ttl")),
            permission_level: parse_u32_opt(text_member(value, "permission_level")),
            commstatus,
            reqid: Some(uuid_at(value, "reqid")),
            token: owned_text(text_member(value, "token")),
            traceparent: owned_text(text_member(value, "traceparent")),
        };
        WrapperUAttribute(attributes)
    }
}

/// A uProtocol payload read from the JSON the Test Manager sends.
pub struct WrapperUPayload(pub UPayload);

impl WrapperUPayload {
    /// Reads a payload from a JSON value; see `spec_payload`.
    pub fn deserialize(value: &Json) -> (r: WrapperUPayload)
        requires
            payload_readable(*value),
        ensures
            r.0@ == spec_payload(*value),
    {
        let format = match text_member(value, "format") {
            Some(s) => match payload_format_from_name(s) {
                Some(n) => n,
                None => 0,
            },
            None => 0,
        };
        let length = match text_member(value, "length") {
            Some(s) => parse_i32(s),
            None => None,
        };
        let data = match get(value, "value") {
            Some(x) => Some(Data::Value(json_bytes(x))),
            None => None,
        };
        WrapperUPayload(UPayload { format, length, data })
    }
}

fn unset_attributes() -> (r: UAttributes)
    ensures
        r@ == default_attributes(),
{
    UAttributes {
        id: None,
        type_: 0,
        source: None,
        sink: None,
        priority: 0,
        ttl: None,
        permission_level: None,
        commstatus: None,
        reqid: None,
        token: None,
        traceparent: None,
    }
}

/// A uProtocol message read from the JSON the Test Manager sends.
pub struct WrapperUMessage(pub UMessage);

impl WrapperUMessage {
    /// Reads a message from a JSON value; see `spec_message`.
    pub fn deserialize(value: &Json) -> (r: WrapperUMessage)
        requires
            message_readable(*value),
        ensures
            r.0@ == spec_message(*value),
    {
        let attributes = match get(value, "attributes") {
            Some(a) => WrapperUAttribute::deserialize(a).0,
            None => unset_attributes(),
        };
        let payload = match get(value, "payload") {
            Some(p) => WrapperUPayload::deserialize(p).0,
            None => UPayload { format: 0, length: None, data: None },
        };
        WrapperUMessage(UMessage { attributes: Some(attributes), payload: Some(payload) })
    }
}

} // verus!
