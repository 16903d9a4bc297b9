use vstd::prelude::*;

verus! {

/// Action of a Test Manager request that sends a message.
pub const SEND_COMMAND: &'static str = "send";

/// Action of a Test Manager request that registers a listener.
pub const REGISTER_LISTENER_COMMAND: &'static str = "registerlistener";

/// Action of a Test Manager request that unregisters a listener.
pub const UNREGISTER_LISTENER_COMMAND: &'static str = "unregisterlistener";

/// Action of a Test Manager request that invokes a method.
pub const INVOKE_METHOD_COMMAND: &'static str = "invokemethod";

/// Action of the report that a listener received a message.
pub const RESPONSE_ON_RECEIVE: &'static str = "onreceive";

/// What the agent tells the Test Manager when it starts.
pub const SDK_INIT_MESSAGE: &'static str = "{\"ue\":\"rust\",\"data\":{\"SDK_name\":\"rust\"},\"action\":\"initialize\"}";

/// Address of the dispatcher that the socket transport connects to.
pub const DISPATCHER_ADDR: (&'static str, u16) = ("127.0.0.1", 44444);

/// Address of the Test Manager.
pub const TEST_MANAGER_ADDR: (&'static str, u16) = ("127.0.0.5", 12345);

/// Size of the buffer that one read from the dispatcher fills.
pub const BYTES_MSG_LENGTH: usize = 32767;

} // verus!
