use vstd::prelude::*;

use crate::strings::{decimal_string, decimal_text};
use crate::text::{join_text, lemma_join_step};

verus! {

/// Why a call from one component to another through a link failed.
#[derive(Debug)]
pub enum LinkError {
    EntityFailure(String),
    Circular(String),
    CallFailure(String),
}

impl LinkError {
    /// The error's message.
    pub open spec fn message(&self) -> Seq<char> {
        match self {
            LinkError::EntityFailure(s) => s@,
            LinkError::Circular(s) => "Component '"@ + s@ + "' can't call a link to itself."@,
            LinkError::CallFailure(s) => s@,
        }
    }

    pub fn to_string(&self) -> (r: String)
        ensures
            r@ == self.message(),
    {
        let mut out = String::new();
        match self {
            LinkError::EntityFailure(s) => out.append(s.as_str()),
            LinkError::Circular(s) => {
                out.append("Component '");
                out.append(s.as_str());
                out.append("' can't call a link to itself.");
            },
            LinkError::CallFailure(s) => out.append(s.as_str()),
        }
        proof {
            assert(out@ =~= self.message());
        }
        out
    }
}

/// An expected failure of a key-value operation, reported to the caller as text.
#[derive(Debug)]
pub enum Exception {
    KeyNotFound(String),
    NothingToDelete(String, String),
}

impl Exception {
    /// The exception's message.
    pub open spec fn message(&self) -> Seq<char> {
        match self {
            Exception::KeyNotFound(v) => "Key '"@ + v@ + "' not found"@,
            Exception::NothingToDelete(k, v) => "Value '"@ + v@ + "' not found in '"@ + k@ + "'"@,
        }
    }

    pub fn to_string(&self) -> (r: String)
        ensures
            r@ == self.message(),
    {
        let mut out = String::new();
        match self {
            Exception::KeyNotFound(v) => {
                out.append("Key '");
                out.append(v.as_str());
                out.append("' not found");
            },
            Exception::NothingToDelete(k, v) => {
                out.append("Value '");
                out.append(v.as_str());
                out.append("' not found in '");
                out.append(k.as_str());
                out.append("'");
            },
        }
        proof {
            assert(out@ =~= self.message());
        }
        out
    }
}

/// An exception is reported to the caller as its message.
impl From<Exception> for String {
    fn from(e: Exception) -> (r: String)
        ensures
            r@ == e.message(),
    {
        e.to_string()
    }
}

/// A `String` cannot be written down in a specification, so the generic
/// contract of `From` is not claimed here; the impl above states its result
/// through the view instead.
impl vstd::std_specs::convert::FromSpecImpl<Exception> for String {
    open spec fn obeys_from_spec() -> bool {
        false
    }

    open spec fn from_spec(e: Exception) -> Self {
        arbitrary()
    }
}

/// Errors of the key-value provider.  The variants that wrap an error of
/// another component hold that error's message.
#[derive(Debug)]
pub enum Error {
    Init(String),
    ContextLock,
    ConnectionNotFound(String),
    RedisError(String),
    RpcMessageError(&'static str),
    ShuttingDown,
    RpcError(String),
    CliError(String),
    IoError(String),
    ProviderSdkError(String),
    ComponentError(String),
    UpstreamError(String),
}

impl Error {
    /// The error's message; a wrapped error shows its own message.
    pub open spec fn message(&self) -> Seq<char> {
        match self {
            Error::Init(s) => "Error during initialization: "@ + s@,
            Error::ContextLock => "Can't get lock on context"@,
            Error::ConnectionNotFound(s) => "No connection found for '"@ + s@ + "'"@,
            Error::RedisError(s) => "Redis command failed: "@ + s@,
            Error::RpcMessageError(s) => "Deserialization error "@ + s@,
            Error::ShuttingDown => "Client is shutting down, streams are closing"@,
            Error::RpcError(s) => s@,
            Error::CliError(s) => s@,
            Error::IoError(s) => s@,
            Error::ProviderSdkError(s) => s@,
            Error::ComponentError(s) => s@,
            Error::UpstreamError(s) => s@,
        }
    }

    pub fn to_string(&self) -> (r: String)
        ensures
            r@ == self.message(),
    {
        let mut out = String::new();
        match self {
            Error::Init(s) => {
                out.append("Error during initialization: ");
                out.append(s.as_str());
            },
            Error::ContextLock => out.append("Can't get lock on context"),
            Error::ConnectionNotFound(s) => {
                out.append("No connection found for '");
                out.append(s.as_str());
                out.append("'");
            },
            Error::RedisError(s) => {
                out.append("Redis command failed: ");
                out.append(s.as_str());
            },
            Error::RpcMessageError(s) => {
                out.append("Deserialization error ");
                out.append(s);
            },
            Error::ShuttingDown => out.append("Client is shutting down, streams are closing"),
            Error::RpcError(s) => out.append(s.as_str()),
            Error::CliError(s) => out.append(s.as_str()),
            Error::IoError(s) => out.append(s.as_str()),
            Error::ProviderSdkError(s) => out.append(s.as_str()),
            Error::ComponentError(s) => out.append(s.as_str()),
            Error::UpstreamError(s) => out.append(s.as_str()),
        }
        proof {
            assert(out@ =~= self.message());
        }
        out
    }
}

/// Errors of a WebAssembly component collection.  The variants that wrap an
/// error of another library hold that error's message.
#[derive(Debug)]
pub enum WasmCollectionError {
    ClaimsError(String),
    ClaimsInvalid(String),
    ComponentError(String),
    TxNotFound,
    WasmRS(String),
    IoError(String),
    Loading(String),
    JsonError(String),
    EngineFailure(String),
    ClaimsExtraction,
    SendError,
    Other(String),
    InternalError(u32),
    OperationNotFound(String, Vec<String>),
}

/// The views of a list of strings.
pub open spec fn string_views(list: Seq<String>) -> Seq<Seq<char>> {
    list.map_values(|s: String| s@)
}

/// The strings of `list` separated by `, `.
fn join_strings(list: &Vec<String>) -> (r: String)
    ensures
        r@ == join_text(string_views(list@), ", "@),
{
    let ghost items = string_views(list@);
    let mut out = String::new();
    let mut i: usize = 0;
    while i < list.len()
        invariant
            i <= list@.len(),
            items == string_views(list@),
            out@ == join_text(items.take(i as int), ", "@),
        decreases list@.len() - i,
    {
        proof {
            lemma_join_step(items, ", "@, i as int);
        }
        if i > 0 {
            out.append(", ");
        }
        out.append(list[i].as_str());
        i = i + 1;
    }
    assert(items.take(list@.len() as int) =~= items);
    out
}

impl WasmCollectionError {
    /// The error's message; a wrapped error shows its own message.
    pub open spec fn message(&self) -> Seq<char> {
        match self {
            WasmCollectionError::ClaimsError(s) => "Could not extract claims signature from WASM module : "@ + s@,
            WasmCollectionError::ClaimsInvalid(s) => "Could not validate claims : "@ + s@,
            WasmCollectionError::ComponentError(s) => "Component error : "@ + s@,
            WasmCollectionError::TxNotFound => "WASM collection requested data for a nonexistent call."@,
            WasmCollectionError::WasmRS(s) => s@,
            WasmCollectionError::IoError(s) => s@,
            WasmCollectionError::Loading(s) => "Could not load reference: "@ + s@,
            WasmCollectionError::JsonError(s) => "JSON Serialization/Deserialization error : "@ + s@,
            WasmCollectionError::EngineFailure(s) => "WebAssembly engine failed: "@ + s@,
            WasmCollectionError::ClaimsExtraction => "Could not extract claims from component. Is it a signed WebAssembly module?"@,
            WasmCollectionError::SendError => "Error sending output to stream."@,
            WasmCollectionError::Other(s) => s@,
            WasmCollectionError::InternalError(n) => "Internal Error : "@ + decimal_text(*n as nat),
            WasmCollectionError::OperationNotFound(s, valid) => "Operation '"@ + s@
                + "' not found. Valid operations are: "@ + join_text(string_views(valid@), ", "@),
        }
    }

    pub fn to_string(&self) -> (r: String)
        ensures
            r@ == self.message(),
    {
        let mut out = String::new();
        match self {
            WasmCollectionError::ClaimsError(s) => {
                out.append("Could not extract claims signature from WASM module : ");
                out.append(s.as_str());
            },
            WasmCollectionError::ClaimsInvalid(s) => {
                out.append("Could not validate claims : ");
                out.append(s.as_str());
            },
            WasmCollectionError::ComponentError(s) => {
                out.append("Component error : ");
                out.append(s.as_str());
            },
            WasmCollectionError::TxNotFound => out.append("WASM collection requested data for a nonexistent call."),
            WasmCollectionError::WasmRS(s) => out.append(s.as_str()),
            WasmCollectionError::IoError(s) => out.append(s.as_str()),
            WasmCollectionError::Loading(s) => {
                out.append("Could not load reference: ");
                out.append(s.as_str());
            },
            WasmCollectionError::JsonError(s) => {
                out.append("JSON Serialization/Deserialization error : ");
                out.append(s.as_str());
            },
            WasmCollectionError::EngineFailure(s) => {
                out.append("WebAssembly engine failed: ");
                out.append(s.as_str());
            },
            WasmCollectionError::ClaimsExtraction => out.append(
                "Could not extract claims from component. Is it a signed WebAssembly module?",
            ),
            WasmCollectionError::SendError => out.append("Error sending output to stream."),
            WasmCollectionError::Other(s) => out.append(s.as_str()),
            WasmCollectionError::InternalError(n) => {
                out.append("Internal Error : ");
                let d = decimal_string(*n as u64);
                out.append(d.as_str());
            },
            WasmCollectionError::OperationNotFound(s, valid) => {
                out.append("Operation '");
                out.append(s.as_str());
                out.append("' not found. Valid operations are: ");
                let j = join_strings(valid);
                out.append(j.as_str());
            },
        }
        proof {
            assert(out@ =~= self.message());
        }
        out
    }
}

/// Errors of a host.  The variants that wrap an error of another component
/// hold that error's message.
#[derive(Debug)]
pub enum HostError {
    ConfigurationError,
    FileNotFound(String),
    NoNetwork,
    LatestDisallowed(String),
    OciFetchFailure(String, String),
    HostStartFailure(String),
    LoadFailed(String),
    RuntimeError(String),
    Resource(String),
    RpcServerError(String),
    ManifestError(String),
    InvalidHostState(String),
    ConfigurationDeserialization(String),
    AsyncRT(String),
    Other(String),
    Mesh(String),
    BadIpAddress(String),
    BadPath(String),
}

impl HostError {
    /// The error's message; a wrapped error shows its own message.
    pub open spec fn message(&self) -> Seq<char> {
        match self {
            HostError::ConfigurationError => "invalid configuration"@,
            HostError::FileNotFound(s) => "File not found "@ + s@,
            HostError::NoNetwork => "No network started yet"@,
            HostError::LatestDisallowed(s) => "Configuration disallows fetching artifacts with the :latest tag ("@
                + s@ + ")"@,
            HostError::OciFetchFailure(a, b) => "Could not fetch '"@ + a@ + "': "@ + b@,
            HostError::HostStartFailure(s) => "Could not start host: "@ + s@,
            HostError::LoadFailed(s) => s@,
            HostError::RuntimeError(s) => s@,
            HostError::Resource(s) => s@,
            HostError::RpcServerError(s) => s@,
            HostError::ManifestError(s) => s@,
            HostError::InvalidHostState(s) => "Invalid host state for operation: "@ + s@,
            HostError::ConfigurationDeserialization(s) => "Failed to deserialize configuration "@ + s@,
            HostError::AsyncRT(s) => "Async error: "@ + s@,
            HostError::Other(s) => "General error : "@ + s@,
            HostError::Mesh(s) => s@,
            HostError::BadIpAddress(s) => "Unparseable IP address: "@ + s@,
            HostError::BadPath(s) => "Invalid file path: "@ + s@,
        }
    }

    pub fn to_string(&self) -> (r: String)
        ensures
            r@ == self.message(),
    {
        let mut out = String::new();
        match self {
            HostError::ConfigurationError => out.append("invalid configuration"),
            HostError::FileNotFound(s) => {
                out.append("File not found ");
                out.append(s.as_str());
            },
            HostError::NoNetwork => out.append("No network started yet"),
            HostError::LatestDisallowed(s) => {
                out.append("Configuration disallows fetching artifacts with the :latest tag (");
                out.append(s.as_str());
                out.append(")");
            },
            HostError::OciFetchFailure(a, b) => {
                out.append("Could not fetch '");
                out.append(a.as_str());
                out.append("': ");
                out.append(b.as_str());
            },
            HostError::HostStartFailure(s) => {
                out.append("Could not start host: ");
                out.append(s.as_str());
            },
            HostError::LoadFailed(s) => out.append(s.as_str()),
            HostError::RuntimeError(s) => out.append(s.as_str()),
            HostError::Resource(s) => out.append(s.as_str()),
            HostError::RpcServerError(s) => out.append(s.as_str()),
            HostError::ManifestError(s) => out.append(s.as_str()),
            HostError::InvalidHostState(s) => {
                out.append("Invalid host state for operation: ");
                out.append(s.as_str());
            },
            HostError::ConfigurationDeserialization(s) => {
                out.append("Failed to deserialize configuration ");
                out.append(s.as_str());
            },
            HostError::AsyncRT(s) => {
                out.append("Async error: ");
                out.append(s.as_str());
            },
            HostError::Other(s) => {
                out.append("General error : ");
                out.append(s.as_str());
            },
            HostError::Mesh(s) => out.append(s.as_str()),
            HostError::BadIpAddress(s) => {
                out.append("Unparseable IP address: ");
                out.append(s.as_str());
            },
            HostError::BadPath(s) => {
                out.append("Invalid file path: ");
                out.append(s.as_str());
            },
        }
        proof {
            assert(out@ =~= self.message());
        }
        out
    }
}

impl From<&'static str> for HostError {
    fn from(e: &'static str) -> (r: Self)
        ensures
            r matches HostError::Other(s) && s@ == e@,
    {
        HostError::Other(e.to_owned())
    }
}

/// A `String` made from a `&str` cannot be written down in a specification,
/// so the generic contract of `From` is not claimed here; the impl above
/// states its result through the view instead.
impl vstd::std_specs::convert::FromSpecImpl<&'static str> for HostError {
    open spec fn obeys_from_spec() -> bool {
        false
    }

    open spec fn from_spec(e: &'static str) -> Self {
        arbitrary()
    }
}

impl From<String> for HostError {
    fn from(e: String) -> (r: Self) {
        HostError::Other(e)
    }
}

impl vstd::std_specs::convert::FromSpecImpl<String> for HostError {
    open spec fn obeys_from_spec() -> bool {
        true
    }

    open spec fn from_spec(e: String) -> Self {
        HostError::Other(e)
    }
}

} // verus!
