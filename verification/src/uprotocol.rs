use vstd::prelude::*;

verus! {

/// The view of an optional value.
pub open spec fn opt_view<T: View>(o: Option<T>) -> Option<T::V> {
    match o {
        Some(x) => Some(x@),
        None => None,
    }
}

/// The number of a uProtocol authority: an IP address or an identifier, as bytes.
#[derive(Debug, PartialEq, Eq)]
pub enum AuthorityNumber {
    Ip(Vec<u8>),
    Id(Vec<u8>),
}

/// The abstract value of an authority number.
pub enum AuthorityNumberView {
    Ip(Seq<u8>),
    Id(Seq<u8>),
}

impl View for AuthorityNumber {
    type V = AuthorityNumberView;

    open spec fn view(&self) -> AuthorityNumberView {
        match self {
            AuthorityNumber::Ip(b) => AuthorityNumberView::Ip(b@),
            AuthorityNumber::Id(b) => AuthorityNumberView::Id(b@),
        }
    }
}

/// The authority (device) part of a uProtocol URI.
#[derive(Debug, PartialEq, Eq)]
pub struct UAuthority {
    pub name: Option<String>,
    pub number: Option<AuthorityNumber>,
}

pub struct UAuthorityView {
    pub name: Option<Seq<char>>,
    pub number: Option<AuthorityNumberView>,
}

impl View for UAuthority {
    type V = UAuthorityView;

    open spec fn view(&self) -> UAuthorityView {
        UAuthorityView { name: opt_view(self.name), number: opt_view(self.number) }
    }
}

/// The software entity part of a uProtocol URI.
#[derive(Debug, PartialEq, Eq)]
pub struct UEntity {
    pub name: String,
    pub id: Option<u32>,
    pub version_major: Option<u32>,
    pub version_minor: Option<u32>,
}

pub struct UEntityView {
    pub name: Seq<char>,
    pub id: Option<u32>,
    pub version_major: Option<u32>,
    pub version_minor: Option<u32>,
}

impl View for UEntity {
    type V = UEntityView;

    open spec fn view(&self) -> UEntityView {
        UEntityView {
            name: self.name@,
            id: self.id,
            version_major: self.version_major,
            version_minor: self.version_minor,
        }
    }
}

/// The resource part of a uProtocol URI.
#[derive(Debug, PartialEq, Eq)]
pub struct UResource {
    pub name: String,
    pub instance: Option<String>,
    pub message: Option<String>,
    pub id: Option<u32>,
}

pub struct UResourceView {
    pub name: Seq<char>,
    pub instance: Option<Seq<char>>,
    pub message: Option<Seq<char>>,
    pub id: Option<u32>,
}

impl View for UResource {
    type V = UResourceView;

    open spec fn view(&self) -> UResourceView {
        UResourceView {
            name: self.name@,
            instance: opt_view(self.instance),
            message: opt_view(self.message),
            id: self.id,
        }
    }
}

/// A uProtocol URI: authority, entity and resource.
#[derive(Debug, PartialEq, Eq)]
pub struct UUri {
    pub authority: Option<UAuthority>,
    pub entity: Option<UEntity>,
    pub resource: Option<UResource>,
}

pub struct UUriView {
    pub authority: Option<UAuthorityView>,
    pub entity: Option<UEntityView>,
    pub resource: Option<UResourceView>,
}

impl View for UUri {
    type V = UUriView;

    open spec fn view(&self) -> UUriView {
        UUriView {
            authority: opt_view(self.authority),
            entity: opt_view(self.entity),
            resource: opt_view(self.resource),
        }
    }
}

/// A uProtocol UUID, as its two 64-bit halves.
#[derive(Clone, Copy, Debug, PartialEq, Eq)]
pub struct Uuid {
    pub msb: u64,
    pub lsb: u64,
}

/// The attributes of a uProtocol message. Enumerations are held as their numbers.
#[derive(Debug, PartialEq, Eq)]
pub struct UAttributes {
    pub id: Option<Uuid>,
    pub type_: i32,
    pub source: Option<UUri>,
    pub sink: Option<UUri>,
    pub priority: i32,
    pub ttl: Option<u32>,
    pub permission_level: Option<u32>,
    pub commstatus: Option<i32>,
    pub reqid: Option<Uuid>,
    pub token: Option<String>,
    pub traceparent: Option<String>,
}

pub struct UAttributesView {
    pub id: Option<Uuid>,
    pub type_: i32,
    pub source: Option<UUriView>,
    pub sink: Option<UUriView>,
    pub priority: i32,
    pub ttl: Option<u32>,
    pub permission_level: Option<u32>,
    pub commstatus: Option<i32>,
    pub reqid: Option<Uuid>,
    pub token: Option<Seq<char>>,
    pub traceparent: Option<Seq<char>>,
}

impl View for UAttributes {
    type V = UAttributesView;

    open spec fn view(&self) -> UAttributesView {
        UAttributesView {
            id: self.id,
            type_: self.type_,
            source: opt_view(self.source),
            sink: opt_view(self.sink),
            priority: self.priority,
            ttl: self.ttl,
            permission_level: self.permission_level,
            commstatus: self.commstatus,
            reqid: self.reqid,
            token: opt_view(self.token),
            traceparent: opt_view(self.traceparent),
        }
    }
}

/// The data of a payload: a reference, or the bytes themselves.
#[derive(Debug, PartialEq, Eq)]
pub enum Data {
    Reference(u64),
    Value(Vec<u8>),
}

pub enum DataView {
    Reference(u64),
    Value(Seq<u8>),
}

impl View for Data {
    type V = DataView;

    open spec fn view(&self) -> DataView {
        match self {
            Data::Reference(r) => DataView::Reference(*r),
            Data::Value(b) => DataView::Value(b@),
        }
    }
}

/// The payload of a uProtocol message.
#[derive(Debug, PartialEq, Eq)]
pub struct UPayload {
    pub format: i32,
    pub length: Option<i32>,
    pub data: Option<Data>,
}

pub struct UPayloadView {
    pub format: i32,
    pub length: Option<i32>,
    pub data: Option<DataView>,
}

impl View for UPayload {
    type V = UPayloadView;

    open spec fn view(&self) -> UPayloadView {
        UPayloadView { format: self.format, length: self.length, data: opt_view(self.data) }
    }
}

/// A uProtocol message: attributes and payload.
#[derive(Debug, PartialEq, Eq)]
pub struct UMessage {
    pub attributes: Option<UAttributes>,
    pub payload: Option<UPayload>,
}

pub struct UMessageView {
    pub attributes: Option<UAttributesView>,
    pub payload: Option<UPayloadView>,
}

impl View for UMessage {
    type V = UMessageView;

    open spec fn view(&self) -> UMessageView {
        UMessageView { attributes: opt_view(self.attributes), payload: opt_view(self.payload) }
    }
}

/// The number of the `UMessageType` value with the given proto name.
pub open spec fn message_type_number(name: Seq<char>) -> Option<i32> {
    if name == "UMESSAGE_TYPE_UNSPECIFIED"@ {
        Some(0)
    } else if name == "UMESSAGE_TYPE_PUBLISH"@ {
        Some(1)
    } else if name == "UMESSAGE_TYPE_REQUEST"@ {
        Some(2)
    } else if name == "UMESSAGE_TYPE_RESPONSE"@ {
        Some(3)
    } else if name == "UMESSAGE_TYPE_NOTIFICATION"@ {
        Some(4)
    } else {
        None
    }
}

/// The number of the `UPriority` value with the given proto name.
pub open spec fn priority_number(name: Seq<char>) -> Option<i32> {
    if name == "UPRIORITY_UNSPECIFIED"@ {
        Some(0)
    } else if name == "UPRIORITY_CS0"@ {
        Some(1)
    } else if name == "UPRIORITY_CS1"@ {
        Some(2)
    } else if name == "UPRIORITY_CS2"@ {
        Some(3)
    } else if name == "UPRIORITY_CS3"@ {
        Some(4)
    } else if name == "UPRIORITY_CS4"@ {
        Some(5)
    } else if name == "UPRIORITY_CS5"@ {
        Some(6)
    } else if name == "UPRIORITY_CS6"@ {
        Some(7)
    } else {
        None
    }
}

/// The number of the `UPayloadFormat` value with the given proto name.
pub open spec fn payload_format_number(name: Seq<char>) -> Option<i32> {
    if name == "UPAYLOAD_FORMAT_UNSPECIFIED"@ {
        Some(0)
    } else if name == "UPAYLOAD_FORMAT_PROTOBUF_WRAPPED_IN_ANY"@ {
        Some(1)
    } else if name == "UPAYLOAD_FORMAT_PROTOBUF"@ {
        Some(2)
    } else if name == "UPAYLOAD_FORMAT_JSON"@ {
        Some(3)
    } else if name == "UPAYLOAD_FORMAT_SOMEIP"@ {
        Some(4)
    } else if name == "UPAYLOAD_FORMAT_SOMEIP_TLV"@ {
        Some(5)
    } else if name == "UPAYLOAD_FORMAT_RAW"@ {
        Some(6)
    } else if name == "UPAYLOAD_FORMAT_TEXT"@ {
        Some(7)
    } else if name == "UPAYLOAD_FORMAT_SHM"@ {
        Some(8)
    } else {
        None
    }
}

/// The number of the `UCode` value with the given proto name.
pub open spec fn code_number(name: Seq<char>) -> Option<i32> {
    if name == "OK"@ {
        Some(0)
    } else if name == "CANCELLED"@ {
        Some(1)
    } else if name == "UNKNOWN"@ {
        Some(2)
    } else if name == "INVALID_ARGUMENT"@ {
        Some(3)
    } else if name == "DEADLINE_EXCEEDED"@ {
        Some(4)
    } else if name == "NOT_FOUND"@ {
        Some(5)
    } else if name == "ALREADY_EXISTS"@ {
        Some(6)
    } else if name == "PERMISSION_DENIED"@ {
        Some(7)
    } else if name == "RESOURCE_EXHAUSTED"@ {
        Some(8)
    } else if name == "FAILED_PRECONDITION"@ {
        Some(9)
    } else if name == "ABORTED"@ {
        Some(10)
    } else if name == "OUT_OF_RANGE"@ {
        Some(11)
    } else if name == "UNIMPLEMENTED"@ {
        Some(12)
    } else if name == "INTERNAL"@ {
        Some(13)
    } else if name == "UNAVAILABLE"@ {
        Some(14)
    } else if name == "DATA_LOSS"@ {
        Some(15)
    } else if name == "UNAUTHENTICATED"@ {
        Some(16)
    } else {
        None
    }
}

/// `UMessageType::from_str` (the protobuf `Enum::from_str` of up-rust's generated enum):
/// the value whose proto name is the text, as its number.
#[verifier::external_body]
pub(crate) fn message_type_from_name(name: &str) -> (r: Option<i32>)
    ensures
        r == message_type_number(name@),
{
    match <up_rust::UMessageType as protobuf::Enum>::from_str(name) {
        Some(t) => Some(protobuf::Enum::value(&t)),
        None => None,
    }
}

/// `UPriority::from_str` (the protobuf `Enum::from_str` of up-rust's generated enum):
/// the value whose proto name is the text, as its number.
#[verifier::external_body]
pub(crate) fn priority_from_name(name: &str) -> (r: Option<i32>)
    ensures
        r == priority_number(name@),
{
    match <up_rust::UPriority as protobuf::Enum>::from_str(name) {
        Some(p) => Some(protobuf::Enum::value(&p)),
        None => None,
    }
}

/// `UPayloadFormat::from_str` (the protobuf `Enum::from_str` of up-rust's generated
/// enum): the value whose proto name is the text, as its number.
#[verifier::external_body]
pub(crate) fn payload_format_from_name(name: &str) -> (r: Option<i32>)
    ensures
        r == payload_format_number(name@),
{
    match <up_rust::UPayloadFormat as protobuf::Enum>::from_str(name) {
        Some(f) => Some(protobuf::Enum::value(&f)),
        None => None,
    }
}

/// `UCode::from_str` (the protobuf `Enum::from_str` of up-rust's generated enum):
/// the value whose proto name is the text, as its number.
#[verifier::external_body]
pub(crate) fn code_from_name(name: &str) -> (r: Option<i32>)
    ensures
        r == code_number(name@),
{
    match <up_rust::UCode as protobuf::Enum>::from_str(name) {
        Some(c) => Some(protobuf::Enum::value(&c)),
        None => None,
    }
}

} // verus!
