# up_test_agent

A uProtocol test agent. The Test Manager sends it JSON requests over TCP (send a
message, register or unregister a listener); the agent carries them out over a
uProtocol transport and answers with the outcome, and reports every message its
listener receives.

- `src/` is the library, verified with Verus: lenient UTF-8 decoding, control
  character escaping, Base64, decimal numbers, reading uProtocol URIs, attributes,
  payloads and messages from JSON, decoding Test Manager requests, building the
  answers, and the registry of listeners per topic. JSON parsing and printing,
  Base64 and the protobuf enumeration names are delegated to `serde_json`,
  `base64` and `up-rust` behind small trusted wrappers.
- `app/` is the program: sockets, the async runtime, the transport that talks to
  the dispatcher, and conversions to and from the `up-rust` types.
- `tests/` exercises the library on concrete values.
