//! Configuration of the MCP client fabric: servers, transports and
//! reconnection policy, with the defaults the wire format fills in.

use vstd::prelude::*;

verus! {

/// Root configuration.
#[derive(Debug, Clone)]
pub struct McpConfig {
    pub version: u32,
    pub servers: Vec<McpServerConfig>,
}

impl Default for McpConfig {
    /// Version 1 with no servers.
    fn default() -> (r: Self)
        ensures
            r.version == 1,
            r.servers@.len() == 0,
    {
        McpConfig { version: 1, servers: Vec::new() }
    }
}

/// Configuration of one server.
#[derive(Debug, Clone)]
pub struct McpServerConfig {
    /// Unique identifier for this server.
    pub id: String,
    /// Human-readable name.
    pub name: Option<String>,
    /// Whether this server is enabled.
    pub enabled: bool,
    /// Transport configuration.
    pub transport: TransportConfig,
    /// Request timeout in milliseconds.
    pub request_timeout_ms: u64,
    /// Health check interval in milliseconds.
    pub healthcheck_interval_ms: u64,
    /// Reconnection configuration.
    pub reconnect: ReconnectConfig,
    /// Tools that may be registered; empty means no restriction.
    pub allowed_tools: Vec<String>,
    /// Tools that are never registered.
    pub denied_tools: Vec<String>,
}

/// Transport alternatives.
#[derive(Debug, Clone)]
pub enum TransportConfig {
    Stdio(StdioConfig),
    Sse(SseConfig),
}

/// A subprocess spoken to over its standard streams.
#[derive(Debug, Clone)]
pub struct StdioConfig {
    /// Command to execute.
    pub command: String,
    /// Arguments for the command.
    pub args: Vec<String>,
    /// Working directory.
    pub cwd: Option<String>,
    /// Environment variables, as name/value pairs.
    pub env: Vec<(String, String)>,
    /// Startup timeout in milliseconds.
    pub startup_timeout_ms: u64,
}

/// A server-sent-events endpoint.
#[derive(Debug, Clone)]
pub struct SseConfig {
    /// Endpoint URL.
    pub url: String,
    /// Additional headers.
    pub headers: Vec<HeaderConfig>,
    /// Connection timeout in milliseconds.
    pub connect_timeout_ms: u64,
}

/// One HTTP header.
#[derive(Debug, Clone, PartialEq)]
pub struct HeaderConfig {
    pub name: String,
    pub value: String,
}

/// Reconnection policy.
#[derive(Debug, Clone)]
pub struct ReconnectConfig {
    pub enabled: bool,
    /// Initial backoff in milliseconds.
    pub initial_backoff_ms: u64,
    /// Maximum backoff in milliseconds.
    pub max_backoff_ms: u64,
    /// Maximum reconnection attempts; zero means unlimited.
    pub max_attempts: u32,
}

impl Default for ReconnectConfig {
    /// Enabled, one second growing to thirty, unlimited attempts.
    fn default() -> (r: Self)
        ensures
            r.enabled,
            r.initial_backoff_ms == 1000,
            r.max_backoff_ms == 30000,
            r.max_attempts == 0,
    {
        ReconnectConfig {
            enabled: true,
            initial_backoff_ms: 1000,
            max_backoff_ms: 30000,
            max_attempts: 0,
        }
    }
}

/// Configuration version assumed when the file names none.
pub fn default_version() -> (r: u32)
    ensures
        r == 1,
{
    1
}

/// Flags such as `enabled` default to true.
pub fn default_true() -> (r: bool)
    ensures
        r,
{
    true
}

/// Request timeout assumed when the file names none: one minute.
pub fn default_request_timeout() -> (r: u64)
    ensures
        r == 60000,
{
    60000
}

/// Health check interval assumed when the file names none: thirty seconds.
pub fn default_healthcheck_interval() -> (r: u64)
    ensures
        r == 30000,
{
    30000
}

/// Startup timeout assumed when the file names none: twenty seconds.
pub fn default_startup_timeout() -> (r: u64)
    ensures
        r == 20000,
{
    20000
}

/// Connection timeout assumed when the file names none: ten seconds.
pub fn default_connect_timeout() -> (r: u64)
    ensures
        r == 10000,
{
    10000
}

/// Initial backoff assumed when the file names none: one second.
pub fn default_initial_backoff() -> (r: u64)
    ensures
        r == 1000,
{
    1000
}

/// Maximum backoff assumed when the file names none: thirty seconds.
pub fn default_max_backoff() -> (r: u64)
    ensures
        r == 30000,
{
    30000
}

} // verus!
