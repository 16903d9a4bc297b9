//! Verified core of a uProtocol test agent: the text, Base64 and JSON handling
//! that turns Test Manager requests into uProtocol commands and answers, and the
//! listener registry of the socket transport.

pub mod agent;
mod std_support;
pub mod base64_codec;
pub mod constants;
pub mod deserialize;
pub mod json;
pub mod number;
pub mod registry;
pub mod response;
pub mod text;
pub mod uprotocol;
pub mod utf8_lossy;
