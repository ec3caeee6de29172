use wick::{
    check_link, decimal_string, Entity, Error, Exception, HostError, LinkError, WasmCollectionError,
};

#[test]
fn link_error_messages() {
    assert_eq!(LinkError::EntityFailure("bad".to_owned()).to_string(), "bad");
    assert_eq!(
        LinkError::Circular("ns".to_owned()).to_string(),
        "Component 'ns' can't call a link to itself."
    );
    assert_eq!(LinkError::CallFailure("down".to_owned()).to_string(), "down");
}

#[test]
fn circular_links_are_refused() {
    let origin = Entity::Operation("ns".to_owned(), "a".to_owned());
    let same = Entity::Operation("ns".to_owned(), "b".to_owned());
    let other = Entity::Operation("other".to_owned(), "a".to_owned());
    match check_link(&origin, &same) {
        Err(LinkError::Circular(ns)) => assert_eq!(ns, "ns"),
        r => panic!("unexpected {:?}", r),
    }
    assert!(check_link(&origin, &other).is_ok());
    assert!(check_link(&Entity::Component("ns".to_owned()), &same).is_ok());
    assert!(check_link(&origin, &Entity::Test("ns".to_owned())).is_ok());
    assert!(check_link(&Entity::Invalid, &Entity::Server("x".to_owned())).is_ok());
}

#[test]
fn exception_messages() {
    assert_eq!(Exception::KeyNotFound("k".to_owned()).to_string(), "Key 'k' not found");
    assert_eq!(
        Exception::NothingToDelete("k".to_owned(), "v".to_owned()).to_string(),
        "Value 'v' not found in 'k'"
    );
}

#[test]
fn exceptions_become_their_message() {
    assert_eq!(String::from(Exception::KeyNotFound("k".to_owned())), "Key 'k' not found");
    let s: String = Exception::NothingToDelete("k".to_owned(), "v".to_owned()).into();
    assert_eq!(s, "Value 'v' not found in 'k'");
}

#[test]
fn keyvalue_error_messages() {
    assert_eq!(Error::Init("x".to_owned()).to_string(), "Error during initialization: x");
    assert_eq!(Error::ContextLock.to_string(), "Can't get lock on context");
    assert_eq!(Error::ConnectionNotFound("c".to_owned()).to_string(), "No connection found for 'c'");
    assert_eq!(Error::RedisError("boom".to_owned()).to_string(), "Redis command failed: boom");
    assert_eq!(Error::RpcMessageError("bad").to_string(), "Deserialization error bad");
    assert_eq!(Error::ShuttingDown.to_string(), "Client is shutting down, streams are closing");
    assert_eq!(Error::IoError("io".to_owned()).to_string(), "io");
    assert_eq!(Error::UpstreamError("up".to_owned()).to_string(), "up");
}

#[test]
fn wasm_collection_error_messages() {
    assert_eq!(
        WasmCollectionError::ClaimsError("c".to_owned()).to_string(),
        "Could not extract claims signature from WASM module : c"
    );
    assert_eq!(WasmCollectionError::ClaimsInvalid("c".to_owned()).to_string(), "Could not validate claims : c");
    assert_eq!(WasmCollectionError::ComponentError("c".to_owned()).to_string(), "Component error : c");
    assert_eq!(
        WasmCollectionError::TxNotFound.to_string(),
        "WASM collection requested data for a nonexistent call."
    );
    assert_eq!(WasmCollectionError::Loading("r".to_owned()).to_string(), "Could not load reference: r");
    assert_eq!(
        WasmCollectionError::JsonError("j".to_owned()).to_string(),
        "JSON Serialization/Deserialization error : j"
    );
    assert_eq!(WasmCollectionError::EngineFailure("e".to_owned()).to_string(), "WebAssembly engine failed: e");
    assert_eq!(
        WasmCollectionError::ClaimsExtraction.to_string(),
        "Could not extract claims from component. Is it a signed WebAssembly module?"
    );
    assert_eq!(WasmCollectionError::SendError.to_string(), "Error sending output to stream.");
    assert_eq!(WasmCollectionError::Other("o".to_owned()).to_string(), "o");
    assert_eq!(WasmCollectionError::InternalError(42).to_string(), "Internal Error : 42");
    assert_eq!(WasmCollectionError::InternalError(0).to_string(), "Internal Error : 0");
    assert_eq!(
        WasmCollectionError::OperationNotFound("op".to_owned(), vec!["a".to_owned(), "b".to_owned()]).to_string(),
        "Operation 'op' not found. Valid operations are: a, b"
    );
    assert_eq!(
        WasmCollectionError::OperationNotFound("op".to_owned(), vec![]).to_string(),
        "Operation 'op' not found. Valid operations are: "
    );
}

#[test]
fn host_error_messages() {
    assert_eq!(HostError::ConfigurationError.to_string(), "invalid configuration");
    assert_eq!(HostError::FileNotFound("f".to_owned()).to_string(), "File not found f");
    assert_eq!(HostError::NoNetwork.to_string(), "No network started yet");
    assert_eq!(
        HostError::LatestDisallowed("r:latest".to_owned()).to_string(),
        "Configuration disallows fetching artifacts with the :latest tag (r:latest)"
    );
    assert_eq!(
        HostError::OciFetchFailure("r".to_owned(), "why".to_owned()).to_string(),
        "Could not fetch 'r': why"
    );
    assert_eq!(HostError::HostStartFailure("x".to_owned()).to_string(), "Could not start host: x");
    assert_eq!(HostError::InvalidHostState("s".to_owned()).to_string(), "Invalid host state for operation: s");
    assert_eq!(
        HostError::ConfigurationDeserialization("d".to_owned()).to_string(),
        "Failed to deserialize configuration d"
    );
    assert_eq!(HostError::AsyncRT("a".to_owned()).to_string(), "Async error: a");
    assert_eq!(HostError::Other("o".to_owned()).to_string(), "General error : o");
    assert_eq!(HostError::Mesh("m".to_owned()).to_string(), "m");
    assert_eq!(HostError::BadIpAddress("1.2".to_owned()).to_string(), "Unparseable IP address: 1.2");
    assert_eq!(HostError::BadPath("/p".to_owned()).to_string(), "Invalid file path: /p");
    assert_eq!(HostError::ManifestError("bad manifest".to_owned()).to_string(), "bad manifest");
}

#[test]
fn host_error_from_text() {
    match HostError::from("oops".to_owned()) {
        HostError::Other(s) => assert_eq!(s, "oops"),
        e => panic!("unexpected {:?}", e),
    }
    match HostError::from("static") {
        HostError::Other(s) => assert_eq!(s, "static"),
        e => panic!("unexpected {:?}", e),
    }
}

#[test]
fn decimal_strings() {
    assert_eq!(decimal_string(0), "0");
    assert_eq!(decimal_string(7), "7");
    assert_eq!(decimal_string(10), "10");
    assert_eq!(decimal_string(1234567890), "1234567890");
    assert_eq!(decimal_string(u64::MAX), u64::MAX.to_string());
}
