//! Error kinds surfaced by the MCP client fabric and by the provider
//! layer, with their rendered messages.

use vstd::prelude::*;

use crate::strutil::{chars_to_string, push_str_chars};

verus! {

/// Failures of the MCP client fabric.
#[derive(Debug, Clone, PartialEq)]
pub enum McpError {
    Transport(String),
    Protocol(String),
    Connection(String),
    Timeout(String),
    ToolExecution(String),
    ServerNotFound(String),
    ToolNotFound(String),
    Serialization(String),
    InvalidConfig(String),
    Disconnected,
    AlreadyRunning(String),
    NotRunning(String),
}

/// The rendered message of an error.
pub open spec fn spec_mcp_error_message(e: McpError) -> Seq<char> {
    match e {
        McpError::Transport(m) => "Transport error: "@ + m@,
        McpError::Protocol(m) => "Protocol error: "@ + m@,
        McpError::Connection(m) => "Connection error: "@ + m@,
        McpError::Timeout(m) => "Timeout error: "@ + m@,
        McpError::ToolExecution(m) => "Tool execution error: "@ + m@,
        McpError::ServerNotFound(m) => "Server not found: "@ + m@,
        McpError::ToolNotFound(m) => "Tool not found: "@ + m@,
        McpError::Serialization(m) => "Serialization error: "@ + m@,
        McpError::InvalidConfig(m) => "Invalid configuration: "@ + m@,
        McpError::Disconnected => "Server disconnected"@,
        McpError::AlreadyRunning(m) => "Server already running: "@ + m@,
        McpError::NotRunning(m) => "Server not running: "@ + m@,
    }
}

fn prefixed(prefix: &str, m: &String) -> (r: String)
    ensures
        r@ == prefix@ + m@,
{
    let mut out: Vec<char> = Vec::new();
    push_str_chars(&mut out, prefix);
    push_str_chars(&mut out, m.as_str());
    chars_to_string(&out)
}

impl McpError {
    /// The message of this error, as its display form renders it.
    pub fn message(&self) -> (r: String)
        ensures
            r@ == spec_mcp_error_message(*self),
    {
        match self {
            McpError::Transport(m) => prefixed("Transport error: ", m),
            McpError::Protocol(m) => prefixed("Protocol error: ", m),
            McpError::Connection(m) => prefixed("Connection error: ", m),
            McpError::Timeout(m) => prefixed("Timeout error: ", m),
            McpError::ToolExecution(m) => prefixed("Tool execution error: ", m),
            McpError::ServerNotFound(m) => prefixed("Server not found: ", m),
            McpError::ToolNotFound(m) => prefixed("Tool not found: ", m),
            McpError::Serialization(m) => prefixed("Serialization error: ", m),
            McpError::InvalidConfig(m) => prefixed("Invalid configuration: ", m),
            McpError::Disconnected => "Server disconnected".to_owned(),
            McpError::AlreadyRunning(m) => prefixed("Server already running: ", m),
            McpError::NotRunning(m) => prefixed("Server not running: ", m),
        }
    }

    /// Relies on `std::io::Error`'s display form for the message text; an
    /// input/output failure always surfaces as a transport error.
    #[verifier::external_body]
    pub fn from_io(e: std::io::Error) -> (r: McpError)
        ensures
            r is Transport,
    {
        McpError::Transport(format!("{}", e))
    }
}

#[verifier::external_type_specification]
#[verifier::external_body]
pub struct ExIoError(std::io::Error);

/// Failures of the provider streaming layer.
#[derive(Debug, Clone, PartialEq)]
pub enum LLMError {
    /// A transport-level HTTP failure.
    Http(String),
    /// A document that could not be encoded or decoded.
    Json(String),
    /// A malformed streaming payload.
    Stream(String),
    /// A non-success answer from the provider.
    Api(String),
    /// Upstream rejected the credentials.
    Auth(String),
    /// A conversion between protocols failed.
    Protocol(String),
}

/// The rendered message of a provider error.
pub open spec fn spec_llm_error_message(e: LLMError) -> Seq<char> {
    match e {
        LLMError::Http(m) => "HTTP error: "@ + m@,
        LLMError::Json(m) => "JSON error: "@ + m@,
        LLMError::Stream(m) => "Stream error: "@ + m@,
        LLMError::Api(m) => "API error: "@ + m@,
        LLMError::Auth(m) => "Authentication error: "@ + m@,
        LLMError::Protocol(m) => "Protocol conversion error: "@ + m@,
    }
}

impl LLMError {
    /// The message of this error, as its display form renders it.
    pub fn message(&self) -> (r: String)
        ensures
            r@ == spec_llm_error_message(*self),
    {
        match self {
            LLMError::Http(m) => prefixed("HTTP error: ", m),
            LLMError::Json(m) => prefixed("JSON error: ", m),
            LLMError::Stream(m) => prefixed("Stream error: ", m),
            LLMError::Api(m) => prefixed("API error: ", m),
            LLMError::Auth(m) => prefixed("Authentication error: ", m),
            LLMError::Protocol(m) => prefixed("Protocol conversion error: ", m),
        }
    }
}

// What an upstream HTTP status means for a chat stream.

/// Law-level form of the upstream status rule: a denied or forbidden
/// request is an authentication error pointing at the credentials; every
/// other non-success status surfaces as an API error with the status and
/// body.
pub open spec fn spec_llm_error_for_status(status: u16, body: Seq<char>) -> LLMErrorV {
    if status == 401 || status == 403 {
        LLMErrorV::AuthV(
            "Authentication failed (HTTP "@ + crate::strutil::dec_of(status as nat) + "): "@
                + body + ". Please check your API key."@,
        )
    } else {
        LLMErrorV::ApiV("HTTP "@ + crate::strutil::dec_of(status as nat) + ": "@ + body)
    }
}

/// The model of a provider error: its kind and message.
pub enum LLMErrorV {
    HttpV(Seq<char>),
    JsonV(Seq<char>),
    StreamV(Seq<char>),
    ApiV(Seq<char>),
    AuthV(Seq<char>),
    ProtocolV(Seq<char>),
}

/// The model of a provider error value.
pub open spec fn llm_error_model(e: LLMError) -> LLMErrorV {
    match e {
        LLMError::Http(m) => LLMErrorV::HttpV(m@),
        LLMError::Json(m) => LLMErrorV::JsonV(m@),
        LLMError::Stream(m) => LLMErrorV::StreamV(m@),
        LLMError::Api(m) => LLMErrorV::ApiV(m@),
        LLMError::Auth(m) => LLMErrorV::AuthV(m@),
        LLMError::Protocol(m) => LLMErrorV::ProtocolV(m@),
    }
}

/// Classify a non-success upstream HTTP answer, exactly as
/// [`spec_llm_error_for_status`] rules.
pub fn llm_error_for_status(status: u16, body: &str) -> (r: LLMError)
    ensures
        llm_error_model(r) == spec_llm_error_for_status(status, body@),
{
    let mut m: Vec<char> = Vec::new();
    if status == 401 || status == 403 {
        push_str_chars(&mut m, "Authentication failed (HTTP ");
        crate::strutil::push_u64(&mut m, status as u64);
        push_str_chars(&mut m, "): ");
        push_str_chars(&mut m, body);
        push_str_chars(&mut m, ". Please check your API key.");
        LLMError::Auth(chars_to_string(&m))
    } else {
        push_str_chars(&mut m, "HTTP ");
        crate::strutil::push_u64(&mut m, status as u64);
        push_str_chars(&mut m, ": ");
        push_str_chars(&mut m, body);
        LLMError::Api(chars_to_string(&m))
    }
}

/// The protocol failure a wire error object becomes: the code and
/// message joined as `{code}: {message}`.
pub fn protocol_error_of(code: i64, message: &str) -> (r: McpError)
    ensures
        r matches McpError::Protocol(m) && m@ == crate::strutil::int_dec_of(code as int) + ": "@
            + message@,
{
    let mut m: Vec<char> = Vec::new();
    let code_text = crate::strutil::i64_to_string(code);
    push_str_chars(&mut m, code_text.as_str());
    push_str_chars(&mut m, ": ");
    push_str_chars(&mut m, message);
    McpError::Protocol(chars_to_string(&m))
}

} // verus!
