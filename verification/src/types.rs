//! Data model of the MCP client fabric: tools, call results, server
//! status, runtime information, tool aliases and the event bus payloads.

use vstd::prelude::*;

use crate::json::{jmodel, Json, JsonV};

verus! {

/// Metadata of one tool as a server reports it.
#[derive(Debug)]
pub struct McpTool {
    pub name: String,
    pub description: String,
    /// JSON Schema of the tool's parameters.
    pub parameters: Json,
}

/// Result of calling a tool.
#[derive(Debug)]
pub struct McpCallResult {
    pub content: Vec<McpContentItem>,
    pub is_error: bool,
}

/// One item of a tool result's content.
#[derive(Debug)]
pub enum McpContentItem {
    Text { text: String },
    Image { data: String, mime_type: String },
    Resource { resource: McpResource },
}

/// A resource reference inside a tool result.
#[derive(Debug)]
pub struct McpResource {
    pub uri: String,
    pub mime_type: Option<String>,
    pub text: Option<String>,
    pub blob: Option<String>,
}

/// Runtime status of one server connection.
#[derive(Debug, Clone, Copy, PartialEq, Eq, Structural)]
pub enum ServerStatus {
    Connecting,
    Ready,
    Degraded,
    Stopped,
    Error,
}

/// The lower-case name of a status, as the wire and the logs use it.
pub open spec fn spec_status_str(s: ServerStatus) -> Seq<char> {
    match s {
        ServerStatus::Connecting => "connecting"@,
        ServerStatus::Ready => "ready"@,
        ServerStatus::Degraded => "degraded"@,
        ServerStatus::Stopped => "stopped"@,
        ServerStatus::Error => "error"@,
    }
}

impl ServerStatus {
    /// The lower-case name of this status.
    pub fn status_str(&self) -> (r: &'static str)
        ensures
            r@ == spec_status_str(*self),
    {
        match self {
            ServerStatus::Connecting => "connecting",
            ServerStatus::Ready => "ready",
            ServerStatus::Degraded => "degraded",
            ServerStatus::Stopped => "stopped",
            ServerStatus::Error => "error",
        }
    }
}

/// Runtime information of one server. Instants are milliseconds since the
/// Unix epoch, as the embedding clock reports them.
#[derive(Debug, Clone)]
pub struct RuntimeInfo {
    pub status: ServerStatus,
    pub last_error: Option<String>,
    pub connected_at: Option<u64>,
    pub disconnected_at: Option<u64>,
    pub tool_count: usize,
    pub restart_count: u32,
    pub last_ping_at: Option<u64>,
}

impl Default for RuntimeInfo {
    /// A stopped runtime that has seen nothing yet.
    fn default() -> (r: Self)
        ensures
            r.status == ServerStatus::Stopped,
            r.last_error is None,
            r.connected_at is None,
            r.disconnected_at is None,
            r.tool_count == 0,
            r.restart_count == 0,
            r.last_ping_at is None,
    {
        RuntimeInfo {
            status: ServerStatus::Stopped,
            last_error: None,
            connected_at: None,
            disconnected_at: None,
            tool_count: 0,
            restart_count: 0,
            last_ping_at: None,
        }
    }
}

impl RuntimeInfo {
    /// A field-for-field copy.
    pub fn clone_info(&self) -> (r: RuntimeInfo)
        ensures
            r == *self,
    {
        RuntimeInfo {
            status: self.status,
            last_error: match &self.last_error {
                Some(s) => Some(s.clone()),
                None => None,
            },
            connected_at: self.connected_at,
            disconnected_at: self.disconnected_at,
            tool_count: self.tool_count,
            restart_count: self.restart_count,
            last_ping_at: self.last_ping_at,
        }
    }
}

/// One alias mapping: the flat name under which a server's tool is
/// published.
#[derive(Debug, Clone)]
pub struct ToolAlias {
    pub alias: String,
    pub server_id: String,
    pub original_name: String,
}

/// An event on the manager's bus.
#[derive(Debug, Clone)]
pub enum McpEvent {
    ServerStatusChanged { server_id: String, status: ServerStatus, error: Option<String> },
    ToolsChanged { server_id: String, tools: Vec<String> },
    ToolExecuted { server_id: String, tool_name: String, success: bool },
}

/// The server an event speaks about.
pub open spec fn event_server_id(e: McpEvent) -> Seq<char> {
    match e {
        McpEvent::ServerStatusChanged { server_id, .. } => server_id@,
        McpEvent::ToolsChanged { server_id, .. } => server_id@,
        McpEvent::ToolExecuted { server_id, .. } => server_id@,
    }
}

/// No event in `events` speaks about `server_id`.
pub open spec fn no_events_for(events: Seq<McpEvent>, server_id: Seq<char>) -> bool {
    forall|k: int| 0 <= k < events.len() ==> event_server_id(#[trigger] events[k]) != server_id
}

} // verus!
