//! An LLM agent runtime core: a Model Context Protocol (MCP) client fabric
//! and streaming protocol translators between an internal chat model and
//! provider wire formats.
//!
//! The crate holds the pure logic of the runtime: wire codecs, the tool
//! index, the protocol client's correlation state, the server manager's
//! state machine, and the request/stream translators. Transports and event
//! loops drive these functions from outside.

pub mod anthropic;
pub mod chat;
pub mod client_core;
pub mod config;
pub mod errors;
pub mod executor;
pub mod gemini;
pub mod index;
pub mod json;
pub mod llm;
pub mod manager_core;
pub mod openai;
pub mod parse;
pub mod paths;
pub mod rpc;
pub mod settings;
pub mod stream;
pub mod strutil;
pub mod todo;
pub mod tools;
pub mod types;

use vstd::prelude::*;

verus! {

/// The alias under which a server's tool is published:
/// `mcp__{server_id}__{tool_name}`.
pub open spec fn spec_alias_name(server_id: Seq<char>, tool_name: Seq<char>) -> Seq<char> {
    "mcp__"@ + server_id + "__"@ + tool_name
}

} // verus!
