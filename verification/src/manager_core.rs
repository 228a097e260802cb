//! The server manager's state machine: per-server runtimes, the health
//! and reconnection transitions, and the events each transition emits.
//!
//! The embedding drives this core: it performs the connecting, pinging
//! and sleeping, and hands the outcomes to these functions, which decide
//! the next step and update the state. While a runtime exists and is not
//! shut down, its health task marker is set, and the reconnecting flag
//! admits at most one reconnection at a time, handed out by
//! [`McpServerManagerCore::begin_reconnect`] alone.

use vstd::prelude::*;

use crate::config::McpServerConfig;
use crate::errors::McpError;
use crate::index::{imodel, spec_register, tool_names, ToolIndex};
use crate::strutil::{string_eq_str, views_of};
use crate::types::{
    event_server_id, McpEvent, McpTool, RuntimeInfo, ServerStatus, ToolAlias,
};

verus! {

/// The runtime of one connected server, as the manager tracks it.
pub struct ServerRuntime {
    pub config: McpServerConfig,
    pub info: RuntimeInfo,
    pub tools: Vec<McpTool>,
    pub shutdown: bool,
    pub reconnecting: bool,
    pub health_task: bool,
}

/// The manager: the runtimes keyed by server id, and the alias index.
pub struct McpServerManagerCore {
    runtimes: Vec<(String, ServerRuntime)>,
    index: ToolIndex,
}

/// Index of the entry for `id` in `rs[i..]`, or `-1`.
pub open spec fn find_id(rs: Seq<(String, ServerRuntime)>, id: Seq<char>, i: int) -> int
    decreases rs.len() - i,
    when 0 <= i <= rs.len()
{
    if i >= rs.len() {
        -1
    } else if rs[i].0@ == id {
        i
    } else {
        find_id(rs, id, i + 1)
    }
}

impl McpServerManagerCore {
    /// The runtimes as the specification sees them.
    pub closed spec fn rts(&self) -> Seq<(String, ServerRuntime)> {
        self.runtimes@
    }

    /// The alias index's entries.
    pub closed spec fn aliases(&self) -> Seq<crate::index::AliasEntry> {
        self.index@
    }

    /// Whether a runtime for `id` exists.
    pub open spec fn has_server(&self, id: Seq<char>) -> bool {
        find_id(self.rts(), id, 0) >= 0
    }

    /// The runtime for `id`.
    pub open spec fn server(&self, id: Seq<char>) -> ServerRuntime {
        self.rts()[find_id(self.rts(), id, 0)].1
    }

    /// The manager invariant: server ids are pairwise distinct, the alias
    /// index is well formed, and every runtime that is not shut down has
    /// its health task running.
    pub open spec fn wf(&self) -> bool {
        &&& forall|i: int, j: int|
            0 <= i < self.rts().len() && 0 <= j < self.rts().len() && i != j ==> (
            #[trigger] self.rts()[i]).0@ != (#[trigger] self.rts()[j]).0@
        &&& crate::index::wf_entries(self.aliases())
        &&& forall|i: int|
            0 <= i < self.rts().len() ==> (!(#[trigger] self.rts()[i]).1.shutdown
                ==> self.rts()[i].1.health_task)
    }

    /// A manager with no runtimes and an empty index.
    pub fn new() -> (r: Self)
        ensures
            r.wf(),
            r.rts() == Seq::<(String, ServerRuntime)>::empty(),
            r.aliases() == Seq::<crate::index::AliasEntry>::empty(),
    {
        let r = McpServerManagerCore { runtimes: Vec::new(), index: ToolIndex::new() };
        proof {
            assert(r.rts() =~= Seq::<(String, ServerRuntime)>::empty());
        }
        r
    }

    /// Position of the runtime for `id`, when one exists.
    #[verifier::loop_isolation(false)]
    fn position(&self, id: &str) -> (r: Option<usize>)
        ensures
            match r {
                Some(p) => p < self.rts().len() && find_id(self.rts(), id@, 0) == p as int,
                None => find_id(self.rts(), id@, 0) == -1,
            },
    {
        let n = self.runtimes.len();
        let mut i: usize = 0;
        while i < n
            invariant
                0 <= i <= n,
                n == self.rts().len(),
                find_id(self.rts(), id@, 0) == find_id(self.rts(), id@, i as int),
            decreases n - i,
        {
            if string_eq_str(&self.runtimes[i].0, id) {
                return Some(i);
            }
            i = i + 1;
        }
        None
    }

    /// Whether a server is running.
    pub fn is_server_running(&self, id: &str) -> (r: bool)
        ensures
            r == self.has_server(id@),
    {
        matches!(self.position(id), Some(_))
    }

    /// The server ids, in insertion order.
    #[verifier::loop_isolation(false)]
    pub fn list_servers(&self) -> (r: Vec<String>)
        ensures
            r@.len() == self.rts().len(),
            forall|k: int| 0 <= k < r@.len() ==> (#[trigger] r@[k])@ == self.rts()[k].0@,
    {
        let n = self.runtimes.len();
        let mut out: Vec<String> = Vec::new();
        let mut i: usize = 0;
        while i < n
            invariant
                0 <= i <= n,
                n == self.rts().len(),
                out@.len() == i,
                forall|k: int| 0 <= k < i ==> (#[trigger] out@[k])@ == self.rts()[k].0@,
            decreases n - i,
        {
            out.push(self.runtimes[i].0.clone());
            i = i + 1;
        }
        out
    }

    /// Runtime information for a server.
    pub fn get_server_info(&self, id: &str) -> (r: Option<RuntimeInfo>)
        ensures
            r is Some <==> self.has_server(id@),
            r matches Some(info) ==> info == self.server(id@).info,
    {
        match self.position(id) {
            Some(p) => Some(self.runtimes[p].1.info.clone_info()),
            None => None,
        }
    }

    /// Check that a server may be started: the id must be free.
    pub fn start_server_check(&self, id: &str) -> (r: Result<(), McpError>)
        ensures
            r is Ok <==> !self.has_server(id@),
            r matches Err(e) ==> e matches McpError::AlreadyRunning(s) && s@ == id@,
    {
        match self.position(id) {
            Some(_) => Err(McpError::AlreadyRunning(id.to_owned())),
            None => Ok(()),
        }
    }

    /// Record a server that connected, initialized and listed its tools:
    /// register the aliases, store the runtime ready with its health task
    /// running, and emit the status and tools events, all about this
    /// server.
    #[verifier::loop_isolation(false)]
    pub fn finish_start_server(
        &mut self,
        config: McpServerConfig,
        tools: Vec<McpTool>,
        now_ms: u64,
    ) -> (r: Result<(Vec<ToolAlias>, Vec<McpEvent>), McpError>)
        requires
            old(self).wf(),
        ensures
            final(self).wf(),
            old(self).has_server(config.id@) ==> (r matches Err(e) && (e matches
                McpError::AlreadyRunning(s) && s@ == config.id@) && *final(self) == *old(self)),
            !old(self).has_server(config.id@) ==> (r matches Ok((aliases, events)) && {
                &&& final(self).has_server(config.id@)
                &&& final(self).server(config.id@).config == config
                &&& final(self).server(config.id@).tools == tools
                &&& final(self).server(config.id@).info.status == ServerStatus::Ready
                &&& final(self).server(config.id@).info.connected_at == Some(now_ms)
                &&& final(self).server(config.id@).info.disconnected_at is None
                &&& final(self).server(config.id@).info.last_error is None
                &&& final(self).server(config.id@).info.last_ping_at == Some(now_ms)
                &&& final(self).server(config.id@).info.tool_count == tools@.len()
                &&& final(self).server(config.id@).info.restart_count == 0
                &&& final(self).server(config.id@).health_task
                &&& !final(self).server(config.id@).shutdown
                &&& !final(self).server(config.id@).reconnecting
                &&& final(self).aliases() == old(self).aliases() + crate::index::imodel(aliases@)
                &&& crate::index::imodel(aliases@) == spec_register(
                    old(self).aliases(),
                    config.id@,
                    tool_names(tools@),
                    views_of(config.allowed_tools@),
                    views_of(config.denied_tools@),
                )
                &&& events@.len() == 2
                &&& events@[0] matches McpEvent::ServerStatusChanged {
                    server_id,
                    status,
                    error,
                } && server_id@ == config.id@ && status == ServerStatus::Ready && error is None
                &&& events@[1] matches McpEvent::ToolsChanged { server_id, tools: ts }
                    && server_id@ == config.id@ && ts@.len() == aliases@.len() && (forall|k: int|
                    0 <= k < ts@.len() ==> (#[trigger] ts@[k])@ == aliases@[k].alias@)
                &&& forall|k: int|
                    0 <= k < events@.len() ==> event_server_id(#[trigger] events@[k])
                        == config.id@
            }),
    {
        match self.position(config.id.as_str()) {
            Some(_) => Err(McpError::AlreadyRunning(config.id.clone())),
            None => {
                let aliases = self.index.register_server_tools(
                    config.id.as_str(),
                    &tools,
                    &config.allowed_tools,
                    &config.denied_tools,
                );
                let tool_count = tools.len();
                let id = config.id.clone();
                let info = RuntimeInfo {
                    status: ServerStatus::Ready,
                    last_error: None,
                    connected_at: Some(now_ms),
                    disconnected_at: None,
                    tool_count,
                    restart_count: 0,
                    last_ping_at: Some(now_ms),
                };
                let runtime = ServerRuntime {
                    config,
                    info,
                    tools,
                    shutdown: false,
                    reconnecting: false,
                    health_task: true,
                };
                let ghost pre = self.rts();
                self.runtimes.push((id.clone(), runtime));
                proof {
                    lemma_find_none_no_id(pre, id@, 0);
                    lemma_find_id_push(pre, id@);
                    assert(find_id(self.rts(), id@, 0) == pre.len());
                }
                let mut tool_names_out: Vec<String> = Vec::new();
                let an = aliases.len();
                let mut k: usize = 0;
                while k < an
                    invariant
                        0 <= k <= an,
                        an == aliases@.len(),
                        tool_names_out@.len() == k,
                        forall|q: int|
                            0 <= q < k ==> (#[trigger] tool_names_out@[q])@
                                == aliases@[q].alias@,
                    decreases an - k,
                {
                    tool_names_out.push(aliases[k].alias.clone());
                    k = k + 1;
                }
                let mut events: Vec<McpEvent> = Vec::new();
                events.push(
                    McpEvent::ServerStatusChanged {
                        server_id: id.clone(),
                        status: ServerStatus::Ready,
                        error: None,
                    },
                );
                events.push(McpEvent::ToolsChanged { server_id: id, tools: tool_names_out });
                Ok((aliases, events))
            },
        }
    }

    /// Stop a server: its runtime leaves the map, its aliases leave the
    /// index, and the single `Stopped` event is the last word about it.
    #[verifier::loop_isolation(false)]
    pub fn stop_server(&mut self, id: &str) -> (r: Result<Vec<McpEvent>, McpError>)
        requires
            old(self).wf(),
        ensures
            final(self).wf(),
            !old(self).has_server(id@) ==> (r matches Err(e) && (e matches McpError::NotRunning(
                s,
            ) && s@ == id@) && *final(self) == *old(self)),
            old(self).has_server(id@) ==> (r matches Ok(events) && {
                &&& !final(self).has_server(id@)
                &&& final(self).aliases() == old(self).aliases().filter(
                    |t: crate::index::AliasEntry| t.1 != id@,
                )
                &&& events@.len() == 1
                &&& events@[0] matches McpEvent::ServerStatusChanged {
                    server_id,
                    status,
                    error,
                } && server_id@ == id@ && status == ServerStatus::Stopped && error is None
            }),
    {
        match self.position(id) {
            None => Err(McpError::NotRunning(id.to_owned())),
            Some(p) => {
                let ghost pre = self.rts();
                proof {
                    lemma_find_id_hit(pre, id@, 0);
                }
                let _removed = self.runtimes.remove(p);
                proof {
                    lemma_find_id_remove(pre, id@, p as int);
                    assert forall|i: int, j: int|
                        0 <= i < self.rts().len() && 0 <= j < self.rts().len() && i != j implies (
                    #[trigger] self.rts()[i]).0@ != (#[trigger] self.rts()[j]).0@ by {
                        let ii = if i < p as int { i } else { i + 1 };
                        let jj = if j < p as int { j } else { j + 1 };
                        assert(self.rts()[i] == pre[ii]);
                        assert(self.rts()[j] == pre[jj]);
                    }
                }
                self.index.remove_server_tools(id);
                let mut events: Vec<McpEvent> = Vec::new();
                events.push(
                    McpEvent::ServerStatusChanged {
                        server_id: id.to_owned(),
                        status: ServerStatus::Stopped,
                        error: None,
                    },
                );
                Ok(events)
            },
        }
    }

    /// Look up the timeout to use for a call on a server.
    pub fn call_tool_check(&self, id: &str) -> (r: Result<u64, McpError>)
        ensures
            r is Ok <==> self.has_server(id@),
            r matches Ok(t) ==> t == self.server(id@).config.request_timeout_ms,
            r matches Err(e) ==> e matches McpError::ServerNotFound(s) && s@ == id@,
    {
        match self.position(id) {
            Some(p) => Ok(self.runtimes[p].1.config.request_timeout_ms),
            None => Err(McpError::ServerNotFound(id.to_owned())),
        }
    }

    /// The event a finished tool call emits: success exactly when the
    /// result did not carry the error flag.
    pub fn on_tool_called(&self, id: &str, tool_name: &str, is_error: bool) -> (events: Vec<
        McpEvent,
    >)
        ensures
            events@.len() == 1,
            events@[0] matches McpEvent::ToolExecuted { server_id, tool_name: t, success }
                && server_id@ == id@ && t@ == tool_name@ && success == !is_error,
            event_server_id(events@[0]) == id@,
    {
        let mut events: Vec<McpEvent> = Vec::new();
        events.push(
            McpEvent::ToolExecuted {
                server_id: id.to_owned(),
                tool_name: tool_name.to_owned(),
                success: !is_error,
            },
        );
        events
    }

    /// One health tick: what the loop should do, and the events to emit.
    ///
    /// A gone or shut-down runtime ends the loop; a reconnecting one is
    /// skipped. A good ping records the instant and promotes a degraded
    /// server back to ready, with a recovery event. A failed ping
    /// degrades the server, records the error, emits the degraded event,
    /// and asks for reconnection exactly when the policy enables it.
    #[verifier::loop_isolation(false)]
    pub fn health_tick(&mut self, id: &str, ping_ok: bool, error: &str, now_ms: u64) -> (r: (
        HealthDirective,
        Vec<McpEvent>,
    ))
        requires
            old(self).wf(),
        ensures
            final(self).wf(),
            forall|k: int|
                0 <= k < r.1@.len() ==> event_server_id(#[trigger] r.1@[k]) == id@,
            !old(self).has_server(id@) ==> r.0 == HealthDirective::Exit && r.1@.len() == 0
                && *final(self) == *old(self),
            old(self).has_server(id@) && old(self).server(id@).shutdown ==> r.0
                == HealthDirective::Exit && r.1@.len() == 0 && *final(self) == *old(self),
            old(self).has_server(id@) && !old(self).server(id@).shutdown && old(self).server(
                id@,
            ).reconnecting ==> r.0 == HealthDirective::Skip && r.1@.len() == 0 && *final(self)
                == *old(self),
            old(self).has_server(id@) ==> final(self).has_server(id@) && final(self).server(
                id@,
            ).config == old(self).server(id@).config && final(self).server(id@).tools == old(
                self,
            ).server(id@).tools,
            old(self).has_server(id@) && !old(self).server(id@).shutdown && !old(self).server(
                id@,
            ).reconnecting && ping_ok ==> r.0 == HealthDirective::Healthy && final(self).server(
                id@,
            ).info.last_ping_at == Some(now_ms) && (old(self).server(id@).info.status
                == ServerStatus::Degraded ==> final(self).server(id@).info.status
                == ServerStatus::Ready && r.1@.len() == 1 && (r.1@[0] matches
                McpEvent::ServerStatusChanged { server_id, status, error: e } && server_id@ == id@
                && status == ServerStatus::Ready && e is None)) && (old(self).server(
                id@,
            ).info.status != ServerStatus::Degraded ==> final(self).server(id@).info.status
                == old(self).server(id@).info.status && r.1@.len() == 0),
            old(self).has_server(id@) && !old(self).server(id@).shutdown && !old(self).server(
                id@,
            ).reconnecting && !ping_ok ==> {
                &&& r.0 == HealthDirective::Failed {
                    reconnect: old(self).server(id@).config.reconnect.enabled,
                }
                &&& final(self).server(id@).info.status == ServerStatus::Degraded
                &&& final(self).server(id@).info.last_error matches Some(m) && m@ == error@
                &&& r.1@.len() == 1
                &&& r.1@[0] matches McpEvent::ServerStatusChanged { server_id, status, error: e }
                    && server_id@ == id@ && status == ServerStatus::Degraded && (e matches Some(m)
                    && m@ == error@)
            },
    {
        match self.position(id) {
            None => (HealthDirective::Exit, Vec::new()),
            Some(p) => {
                if self.runtimes[p].1.shutdown {
                    return (HealthDirective::Exit, Vec::new());
                }
                if self.runtimes[p].1.reconnecting {
                    return (HealthDirective::Skip, Vec::new());
                }
                let ghost pre = self.rts();
                proof {
                    lemma_find_id_hit(pre, id@, 0);
                }
                if ping_ok {
                    let was_degraded = matches!(
                        self.runtimes[p].1.info.status,
                        ServerStatus::Degraded,
                    );
                    let mut entry = self.runtimes.remove(p);
                    entry.1.info.last_ping_at = Some(now_ms);
                    if was_degraded {
                        entry.1.info.status = ServerStatus::Ready;
                    }
                    self.runtimes.insert(p, entry);
                    proof {
                        assert forall|k: int| 0 <= k < pre.len() && k != p as int implies #[trigger] self.rts()[k] == pre[k] by {
                            if k > p as int {
                                assert(pre.remove(p as int)[k - 1] == pre[k]);
                            }
                        }
                        lemma_update_preserves(pre, self.rts(), p as int, id@);
                    }
                    let mut events: Vec<McpEvent> = Vec::new();
                    if was_degraded {
                        events.push(
                            McpEvent::ServerStatusChanged {
                                server_id: id.to_owned(),
                                status: ServerStatus::Ready,
                                error: None,
                            },
                        );
                    }
                    (HealthDirective::Healthy, events)
                } else {
                    let reconnect = self.runtimes[p].1.config.reconnect.enabled;
                    let mut entry = self.runtimes.remove(p);
                    entry.1.info.status = ServerStatus::Degraded;
                    entry.1.info.last_error = Some(error.to_owned());
                    self.runtimes.insert(p, entry);
                    proof {
                        assert forall|k: int| 0 <= k < pre.len() && k != p as int implies #[trigger] self.rts()[k] == pre[k] by {
                            if k > p as int {
                                assert(pre.remove(p as int)[k - 1] == pre[k]);
                            }
                        }
                        lemma_update_preserves(pre, self.rts(), p as int, id@);
                    }
                    let mut events: Vec<McpEvent> = Vec::new();
                    events.push(
                        McpEvent::ServerStatusChanged {
                            server_id: id.to_owned(),
                            status: ServerStatus::Degraded,
                            error: Some(error.to_owned()),
                        },
                    );
                    (HealthDirective::Failed { reconnect }, events)
                }
            },
        }
    }
}

/// What the health loop does after a tick.
#[derive(Debug, PartialEq, Eq, Structural)]
pub enum HealthDirective {
    /// The runtime is gone or shut down: the loop ends.
    Exit,
    /// A reconnection is in progress: skip this tick.
    Skip,
    /// The ping went through.
    Healthy,
    /// The ping failed; reconnect when the policy allows it.
    Failed { reconnect: bool },
}

proof fn lemma_find_id_hit(rs: Seq<(String, ServerRuntime)>, id: Seq<char>, i: int)
    requires
        0 <= i <= rs.len(),
        find_id(rs, id, i) >= 0,
    ensures
        i <= find_id(rs, id, i) < rs.len(),
        rs[find_id(rs, id, i)].0@ == id,
    decreases rs.len() - i,
{
    if i < rs.len() && rs[i].0@ != id {
        lemma_find_id_hit(rs, id, i + 1);
    }
}

proof fn lemma_find_id_push(rs: Seq<(String, ServerRuntime)>, id: Seq<char>)
    requires
        find_id(rs, id, 0) == -1,
    ensures
        forall|entry: (String, ServerRuntime)|
            entry.0@ == id ==> find_id(rs.push(entry), id, 0) == rs.len(),
{
    assert forall|entry: (String, ServerRuntime)| entry.0@ == id implies find_id(
        rs.push(entry),
        id,
        0,
    ) == rs.len() by {
        lemma_find_id_push_from(rs, id, entry, 0);
    }
}

proof fn lemma_find_id_push_from(
    rs: Seq<(String, ServerRuntime)>,
    id: Seq<char>,
    entry: (String, ServerRuntime),
    i: int,
)
    requires
        0 <= i <= rs.len(),
        entry.0@ == id,
        find_id(rs, id, i) == -1,
    ensures
        find_id(rs.push(entry), id, i) == rs.len(),
    decreases rs.len() - i,
{
    if i < rs.len() {
        assert(rs.push(entry)[i] == rs[i]);
        lemma_find_id_push_from(rs, id, entry, i + 1);
    } else {
        assert(rs.push(entry)[i] == entry);
    }
}

proof fn lemma_find_id_remove(rs: Seq<(String, ServerRuntime)>, id: Seq<char>, p: int)
    requires
        0 <= p < rs.len(),
        rs[p].0@ == id,
        forall|i: int, j: int|
            0 <= i < rs.len() && 0 <= j < rs.len() && i != j ==> (#[trigger] rs[i]).0@ != (
            #[trigger] rs[j]).0@,
    ensures
        find_id(rs.remove(p), id, 0) == -1,
{
    let out = rs.remove(p);
    assert forall|k: int| 0 <= k < out.len() implies (#[trigger] out[k]).0@ != id by {
        if k < p {
            assert(out[k] == rs[k]);
        } else {
            assert(out[k] == rs[k + 1]);
        }
    }
    lemma_no_id_find_none(out, id, 0);
}

proof fn lemma_find_none_no_id(rs: Seq<(String, ServerRuntime)>, id: Seq<char>, i: int)
    requires
        0 <= i <= rs.len(),
        find_id(rs, id, i) == -1,
    ensures
        forall|k: int| i <= k < rs.len() ==> (#[trigger] rs[k]).0@ != id,
    decreases rs.len() - i,
{
    if i < rs.len() {
        lemma_find_none_no_id(rs, id, i + 1);
    }
}

proof fn lemma_no_id_find_none(rs: Seq<(String, ServerRuntime)>, id: Seq<char>, i: int)
    requires
        0 <= i <= rs.len(),
        forall|k: int| i <= k < rs.len() ==> (#[trigger] rs[k]).0@ != id,
    ensures
        find_id(rs, id, i) == -1,
    decreases rs.len() - i,
{
    if i < rs.len() {
        lemma_no_id_find_none(rs, id, i + 1);
    }
}

/// Replacing the entry at its own position keeps every lookup in place.
proof fn lemma_update_preserves(
    pre: Seq<(String, ServerRuntime)>,
    post: Seq<(String, ServerRuntime)>,
    p: int,
    id: Seq<char>,
)
    requires
        0 <= p < pre.len(),
        post.len() == pre.len(),
        forall|k: int| 0 <= k < pre.len() && k != p ==> #[trigger] post[k] == pre[k],
        post[p].0@ == pre[p].0@,
        pre[p].0@ == id,
    ensures
        forall|q: Seq<char>| #[trigger] find_id(post, q, 0) == find_id(pre, q, 0),
{
    assert(forall|k: int| 0 <= k < pre.len() ==> (#[trigger] post[k]).0@ == pre[k].0@);
    assert forall|q: Seq<char>| #[trigger] find_id(post, q, 0) == find_id(pre, q, 0) by {
        lemma_find_id_pointwise(pre, post, q, 0);
    }
}

proof fn lemma_find_id_pointwise(
    pre: Seq<(String, ServerRuntime)>,
    post: Seq<(String, ServerRuntime)>,
    q: Seq<char>,
    i: int,
)
    requires
        0 <= i <= pre.len(),
        post.len() == pre.len(),
        forall|k: int| 0 <= k < pre.len() ==> (#[trigger] post[k]).0@ == pre[k].0@,
    ensures
        find_id(post, q, i) == find_id(pre, q, i),
    decreases pre.len() - i,
{
    if i < pre.len() {
        lemma_find_id_pointwise(pre, post, q, i + 1);
    }
}

} // verus!

// Reconnection: the bounded-backoff loop's decisions and transitions.

verus! {

/// What the reconnection loop does next.
#[derive(Debug, PartialEq, Eq, Structural)]
pub enum ReconnectDecision {
    /// The runtime is gone or shut down: stop quietly.
    Stop,
    /// The attempt ceiling is reached: give up.
    GiveUp,
    /// Sleep the current backoff and try once more.
    TryAgain,
}

/// The backoff after a failed attempt: it doubles, capped at the
/// maximum, and never moves once it is at or above the maximum.
pub open spec fn spec_next_backoff(current: u64, max: u64) -> u64 {
    if max > current {
        if 2 * current < max {
            (2 * current) as u64
        } else {
            max
        }
    } else {
        current
    }
}

/// The backoff before attempt `k`, starting from `initial`.
pub open spec fn backoff_at(initial: u64, max: u64, k: nat) -> u64
    decreases k,
{
    if k == 0 {
        initial
    } else {
        spec_next_backoff(backoff_at(initial, max, (k - 1) as nat), max)
    }
}

/// Law: once the backoff reaches the maximum it stays there, and while
/// below it, each step exactly doubles it or caps it at the maximum.
pub proof fn lemma_backoff_caps(initial: u64, max: u64, k: nat)
    requires
        initial <= max,
    ensures
        backoff_at(initial, max, k) <= max,
        backoff_at(initial, max, k) == max ==> backoff_at(initial, max, k + 1) == max,
        backoff_at(initial, max, k) < max ==> backoff_at(initial, max, k + 1) == (if 2 * backoff_at(
            initial,
            max,
            k,
        ) < max {
            2 * backoff_at(initial, max, k)
        } else {
            max as int
        }),
    decreases k,
{
    reveal_with_fuel(backoff_at, 3);
    if k > 0 {
        lemma_backoff_caps(initial, max, (k - 1) as nat);
    }
}

impl McpServerManagerCore {
    /// Claim the right to reconnect: succeeds exactly when the runtime
    /// exists and no reconnection is already running, and then marks it
    /// running, so at most one reconnection task ever works a runtime.
    #[verifier::loop_isolation(false)]
    pub fn begin_reconnect(&mut self, id: &str) -> (r: bool)
        requires
            old(self).wf(),
        ensures
            final(self).wf(),
            r == (old(self).has_server(id@) && !old(self).server(id@).reconnecting),
            !r ==> *final(self) == *old(self),
            r ==> final(self).has_server(id@) && ({
                let pre = old(self).server(id@);
                let post = final(self).server(id@);
                post.reconnecting && post.config == pre.config && post.tools == pre.tools
                    && post.info == pre.info && post.shutdown == pre.shutdown
                    && post.health_task == pre.health_task
            }),
            final(self).aliases() == old(self).aliases(),
    {
        match self.position(id) {
            None => false,
            Some(p) => {
                if self.runtimes[p].1.reconnecting {
                    false
                } else {
                    let ghost pre = self.rts();
                    proof {
                        lemma_find_id_hit(pre, id@, 0);
                    }
                    let mut entry = self.runtimes.remove(p);
                    entry.1.reconnecting = true;
                    self.runtimes.insert(p, entry);
                    proof {
                        assert forall|k: int|
                            0 <= k < pre.len() && k != p as int implies #[trigger] self.rts()[k]
                            == pre[k] by {
                            if k > p as int {
                                assert(pre.remove(p as int)[k - 1] == pre[k]);
                            }
                        }
                        lemma_update_preserves(pre, self.rts(), p as int, id@);
                    }
                    true
                }
            },
        }
    }

    /// Whether to try once more: shutdown stops the loop quietly, a
    /// reached ceiling gives up, and a ceiling of zero never does.
    pub fn reconnect_poll(&self, id: &str, attempt: u32) -> (r: ReconnectDecision)
        ensures
            !self.has_server(id@) ==> r == ReconnectDecision::Stop,
            self.has_server(id@) && self.server(id@).shutdown ==> r == ReconnectDecision::Stop,
            self.has_server(id@) && !self.server(id@).shutdown ==> r == (if self.server(
                id@,
            ).config.reconnect.max_attempts > 0 && attempt >= self.server(
                id@,
            ).config.reconnect.max_attempts {
                ReconnectDecision::GiveUp
            } else {
                ReconnectDecision::TryAgain
            }),
            self.has_server(id@) && self.server(id@).config.reconnect.max_attempts == 0 ==> r
                != ReconnectDecision::GiveUp,
    {
        match self.position(id) {
            None => ReconnectDecision::Stop,
            Some(p) => {
                proof {
                    lemma_find_id_hit(self.rts(), id@, 0);
                }
                if self.runtimes[p].1.shutdown {
                    ReconnectDecision::Stop
                } else {
                    let max = self.runtimes[p].1.config.reconnect.max_attempts;
                    if max > 0 && attempt >= max {
                        ReconnectDecision::GiveUp
                    } else {
                        ReconnectDecision::TryAgain
                    }
                }
            },
        }
    }

    /// Give up reconnecting: the runtime goes to its terminal error
    /// state, the instant is recorded, the flag is released, and the one
    /// error event is emitted.
    #[verifier::loop_isolation(false)]
    pub fn give_up_reconnect(&mut self, id: &str, now_ms: u64) -> (events: Vec<McpEvent>)
        requires
            old(self).wf(),
            old(self).has_server(id@),
        ensures
            final(self).wf(),
            final(self).has_server(id@),
            final(self).server(id@).info.status == ServerStatus::Error,
            final(self).server(id@).info.last_error matches Some(m) && m@
                == "Max reconnection attempts reached"@,
            final(self).server(id@).info.disconnected_at == Some(now_ms),
            !final(self).server(id@).reconnecting,
            events@.len() == 1,
            events@[0] matches McpEvent::ServerStatusChanged { server_id, status, error }
                && server_id@ == id@ && status == ServerStatus::Error && (error matches Some(m)
                && m@ == "Max reconnection attempts reached"@),
            forall|k: int|
                0 <= k < events@.len() ==> event_server_id(#[trigger] events@[k]) == id@,
    {
        let p = match self.position(id) {
            Some(p) => p,
            None => {
                proof {
                    assert(false);
                }
                0
            },
        };
        let ghost pre = self.rts();
        proof {
            lemma_find_id_hit(pre, id@, 0);
        }
        let mut entry = self.runtimes.remove(p);
        entry.1.info.status = ServerStatus::Error;
        entry.1.info.last_error = Some("Max reconnection attempts reached".to_owned());
        entry.1.info.disconnected_at = Some(now_ms);
        entry.1.reconnecting = false;
        self.runtimes.insert(p, entry);
        proof {
            assert forall|k: int|
                0 <= k < pre.len() && k != p as int implies #[trigger] self.rts()[k] == pre[k] by {
                if k > p as int {
                    assert(pre.remove(p as int)[k - 1] == pre[k]);
                }
            }
            lemma_update_preserves(pre, self.rts(), p as int, id@);
        }
        let mut events: Vec<McpEvent> = Vec::new();
        events.push(
            McpEvent::ServerStatusChanged {
                server_id: id.to_owned(),
                status: ServerStatus::Error,
                error: Some("Max reconnection attempts reached".to_owned()),
            },
        );
        events
    }

    /// Record one failed attempt: the error is kept and the next backoff
    /// computed by the doubling-and-cap rule.
    #[verifier::loop_isolation(false)]
    pub fn fail_reconnect_attempt(&mut self, id: &str, error: &str, current_backoff: u64) -> (next:
        u64)
        requires
            old(self).wf(),
            old(self).has_server(id@),
        ensures
            final(self).wf(),
            final(self).has_server(id@),
            final(self).server(id@).info.last_error matches Some(m) && m@ == error@,
            ({
                let pre = old(self).server(id@);
                let post = final(self).server(id@);
                post.config == pre.config && post.tools == pre.tools && post.shutdown
                    == pre.shutdown && post.reconnecting == pre.reconnecting && post.health_task
                    == pre.health_task && post.info.status == pre.info.status
                    && post.info.connected_at == pre.info.connected_at
                    && post.info.disconnected_at == pre.info.disconnected_at
                    && post.info.tool_count == pre.info.tool_count && post.info.restart_count
                    == pre.info.restart_count && post.info.last_ping_at == pre.info.last_ping_at
            }),
            next == spec_next_backoff(
                current_backoff,
                old(self).server(id@).config.reconnect.max_backoff_ms,
            ),
            final(self).aliases() == old(self).aliases(),
    {
        let p = match self.position(id) {
            Some(p) => p,
            None => {
                proof {
                    assert(false);
                }
                0
            },
        };
        let ghost pre = self.rts();
        proof {
            lemma_find_id_hit(pre, id@, 0);
        }
        let max = self.runtimes[p].1.config.reconnect.max_backoff_ms;
        let mut entry = self.runtimes.remove(p);
        entry.1.info.last_error = Some(error.to_owned());
        self.runtimes.insert(p, entry);
        proof {
            assert forall|k: int|
                0 <= k < pre.len() && k != p as int implies #[trigger] self.rts()[k] == pre[k] by {
                if k > p as int {
                    assert(pre.remove(p as int)[k - 1] == pre[k]);
                }
            }
            lemma_update_preserves(pre, self.rts(), p as int, id@);
        }
        if max > current_backoff {
            if current_backoff > u64::MAX / 2 {
                proof {
                    assert(2 * current_backoff >= max);
                }
                max
            } else {
                let doubled = 2 * current_backoff;
                if doubled < max {
                    doubled
                } else {
                    max
                }
            }
        } else {
            current_backoff
        }
    }

    /// Record a reconnection that succeeded: fresh tools, aliases
    /// re-registered, the runtime ready again with one more restart, the
    /// flag released, and the tools and recovery events emitted.
    #[verifier::loop_isolation(false)]
    pub fn finish_reconnect(&mut self, id: &str, tools: Vec<McpTool>) -> (r: (
        Vec<ToolAlias>,
        Vec<McpEvent>,
    ))
        requires
            old(self).wf(),
            old(self).has_server(id@),
        ensures
            final(self).wf(),
            final(self).has_server(id@),
            final(self).server(id@).config == old(self).server(id@).config,
            final(self).server(id@).tools == tools,
            final(self).server(id@).info.status == ServerStatus::Ready,
            final(self).server(id@).info.last_error is None,
            final(self).server(id@).info.disconnected_at is None,
            final(self).server(id@).info.restart_count == (if old(self).server(
                id@,
            ).info.restart_count < u32::MAX {
                old(self).server(id@).info.restart_count + 1
            } else {
                old(self).server(id@).info.restart_count as int
            }),
            final(self).server(id@).info.tool_count == tools@.len(),
            !final(self).server(id@).reconnecting,
            final(self).server(id@).health_task == old(self).server(id@).health_task,
            ({
                let kept = old(self).aliases().filter(
                    |t: crate::index::AliasEntry| t.1 != id@,
                );
                &&& crate::index::imodel(r.0@) == spec_register(
                    kept,
                    id@,
                    tool_names(tools@),
                    views_of(old(self).server(id@).config.allowed_tools@),
                    views_of(old(self).server(id@).config.denied_tools@),
                )
                &&& final(self).aliases() == kept + crate::index::imodel(r.0@)
            }),
            r.1@.len() == 2,
            r.1@[0] matches McpEvent::ToolsChanged { server_id, tools: ts } && server_id@ == id@
                && ts@.len() == r.0@.len() && (forall|k: int|
                0 <= k < ts@.len() ==> (#[trigger] ts@[k])@ == r.0@[k].alias@),
            r.1@[1] matches McpEvent::ServerStatusChanged { server_id, status, error }
                && server_id@ == id@ && status == ServerStatus::Ready && error is None,
            forall|k: int| 0 <= k < r.1@.len() ==> event_server_id(#[trigger] r.1@[k]) == id@,
    {
        let p = match self.position(id) {
            Some(p) => p,
            None => {
                proof {
                    assert(false);
                }
                0
            },
        };
        let ghost pre = self.rts();
        proof {
            lemma_find_id_hit(pre, id@, 0);
        }
        self.index.remove_server_tools(id);
        let aliases = self.index.register_server_tools(
            id,
            &tools,
            &self.runtimes[p].1.config.allowed_tools,
            &self.runtimes[p].1.config.denied_tools,
        );
        let tool_count = tools.len();
        let mut entry = self.runtimes.remove(p);
        entry.1.tools = tools;
        entry.1.info.status = ServerStatus::Ready;
        entry.1.info.last_error = None;
        entry.1.info.disconnected_at = None;
        entry.1.info.tool_count = tool_count;
        if entry.1.info.restart_count < u32::MAX {
            entry.1.info.restart_count = entry.1.info.restart_count + 1;
        }
        entry.1.reconnecting = false;
        self.runtimes.insert(p, entry);
        proof {
            assert forall|k: int|
                0 <= k < pre.len() && k != p as int implies #[trigger] self.rts()[k] == pre[k] by {
                if k > p as int {
                    assert(pre.remove(p as int)[k - 1] == pre[k]);
                }
            }
            lemma_update_preserves(pre, self.rts(), p as int, id@);
        }
        let mut names: Vec<String> = Vec::new();
        let an = aliases.len();
        let mut k: usize = 0;
        while k < an
            invariant
                0 <= k <= an,
                an == aliases@.len(),
                names@.len() == k,
                forall|q: int| 0 <= q < k ==> (#[trigger] names@[q])@ == aliases@[q].alias@,
            decreases an - k,
        {
            names.push(aliases[k].alias.clone());
            k = k + 1;
        }
        let mut events: Vec<McpEvent> = Vec::new();
        events.push(McpEvent::ToolsChanged { server_id: id.to_owned(), tools: names });
        events.push(
            McpEvent::ServerStatusChanged {
                server_id: id.to_owned(),
                status: ServerStatus::Ready,
                error: None,
            },
        );
        (aliases, events)
    }

    /// Replace a server's cached tools and aliases after a re-listing,
    /// emitting the tools event.
    #[verifier::loop_isolation(false)]
    pub fn refresh_tools(&mut self, id: &str, tools: Vec<McpTool>) -> (r: Result<
        (Vec<ToolAlias>, Vec<McpEvent>),
        McpError,
    >)
        requires
            old(self).wf(),
        ensures
            final(self).wf(),
            !old(self).has_server(id@) ==> (r matches Err(e) && (e matches
                McpError::ServerNotFound(s) && s@ == id@) && *final(self) == *old(self)),
            old(self).has_server(id@) ==> (r matches Ok((aliases, events)) && {
                &&& final(self).has_server(id@)
                &&& final(self).server(id@).config == old(self).server(id@).config
                &&& final(self).server(id@).tools == tools
                &&& final(self).server(id@).info.tool_count == tools@.len()
                &&& ({
                    let kept = old(self).aliases().filter(
                        |t: crate::index::AliasEntry| t.1 != id@,
                    );
                    &&& crate::index::imodel(aliases@) == spec_register(
                        kept,
                        id@,
                        tool_names(tools@),
                        views_of(old(self).server(id@).config.allowed_tools@),
                        views_of(old(self).server(id@).config.denied_tools@),
                    )
                    &&& final(self).aliases() == kept + crate::index::imodel(aliases@)
                })
                &&& events@.len() == 1
                &&& events@[0] matches McpEvent::ToolsChanged { server_id, tools: ts }
                    && server_id@ == id@ && ts@.len() == aliases@.len() && (forall|k: int|
                    0 <= k < ts@.len() ==> (#[trigger] ts@[k])@ == aliases@[k].alias@)
            }),
    {
        let p = match self.position(id) {
            Some(p) => p,
            None => {
                return Err(McpError::ServerNotFound(id.to_owned()));
            },
        };
        let ghost pre = self.rts();
        proof {
            lemma_find_id_hit(pre, id@, 0);
        }
        self.index.remove_server_tools(id);
        let aliases = self.index.register_server_tools(
            id,
            &tools,
            &self.runtimes[p].1.config.allowed_tools,
            &self.runtimes[p].1.config.denied_tools,
        );
        let tool_count = tools.len();
        let mut entry = self.runtimes.remove(p);
        entry.1.tools = tools;
        entry.1.info.tool_count = tool_count;
        self.runtimes.insert(p, entry);
        proof {
            assert forall|k: int|
                0 <= k < pre.len() && k != p as int implies #[trigger] self.rts()[k] == pre[k] by {
                if k > p as int {
                    assert(pre.remove(p as int)[k - 1] == pre[k]);
                }
            }
            lemma_update_preserves(pre, self.rts(), p as int, id@);
        }
        let mut names: Vec<String> = Vec::new();
        let an = aliases.len();
        let mut k: usize = 0;
        while k < an
            invariant
                0 <= k <= an,
                an == aliases@.len(),
                names@.len() == k,
                forall|q: int| 0 <= q < k ==> (#[trigger] names@[q])@ == aliases@[q].alias@,
            decreases an - k,
        {
            names.push(aliases[k].alias.clone());
            k = k + 1;
        }
        let mut events: Vec<McpEvent> = Vec::new();
        events.push(McpEvent::ToolsChanged { server_id: id.to_owned(), tools: names });
        Ok((aliases, events))
    }

    /// Release the reconnecting flag without an outcome: the loop stops
    /// quietly when the runtime is shutting down or gone. Nothing else
    /// moves and no event is emitted.
    #[verifier::loop_isolation(false)]
    pub fn end_reconnect(&mut self, id: &str)
        requires
            old(self).wf(),
        ensures
            final(self).wf(),
            final(self).aliases() == old(self).aliases(),
            !old(self).has_server(id@) ==> *final(self) == *old(self),
            old(self).has_server(id@) ==> final(self).has_server(id@) && ({
                let pre = old(self).server(id@);
                let post = final(self).server(id@);
                !post.reconnecting && post.config == pre.config && post.tools == pre.tools
                    && post.info == pre.info && post.shutdown == pre.shutdown
                    && post.health_task == pre.health_task
            }),
    {
        match self.position(id) {
            None => {},
            Some(p) => {
                let ghost pre = self.rts();
                proof {
                    lemma_find_id_hit(pre, id@, 0);
                }
                let mut entry = self.runtimes.remove(p);
                entry.1.reconnecting = false;
                self.runtimes.insert(p, entry);
                proof {
                    assert forall|k: int|
                        0 <= k < pre.len() && k != p as int implies #[trigger] self.rts()[k]
                        == pre[k] by {
                        if k > p as int {
                            assert(pre.remove(p as int)[k - 1] == pre[k]);
                        }
                    }
                    lemma_update_preserves(pre, self.rts(), p as int, id@);
                }
            },
        }
    }

    /// Ask the runtime to shut down; its loops observe the flag at their
    /// next checkpoint.
    #[verifier::loop_isolation(false)]
    pub fn request_shutdown(&mut self, id: &str)
        requires
            old(self).wf(),
        ensures
            final(self).wf(),
            old(self).has_server(id@) ==> final(self).has_server(id@) && final(self).server(
                id@,
            ).shutdown,
            !old(self).has_server(id@) ==> *final(self) == *old(self),
            final(self).aliases() == old(self).aliases(),
    {
        match self.position(id) {
            None => {},
            Some(p) => {
                let ghost pre = self.rts();
                proof {
                    lemma_find_id_hit(pre, id@, 0);
                }
                let mut entry = self.runtimes.remove(p);
                entry.1.shutdown = true;
                self.runtimes.insert(p, entry);
                proof {
                    assert forall|k: int|
                        0 <= k < pre.len() && k != p as int implies #[trigger] self.rts()[k]
                        == pre[k] by {
                        if k > p as int {
                            assert(pre.remove(p as int)[k - 1] == pre[k]);
                        }
                    }
                    lemma_update_preserves(pre, self.rts(), p as int, id@);
                }
            },
        }
    }

    /// The cached description of one tool of one server: the first cached
    /// tool under that name, when the server runs and caches one.
    #[verifier::loop_isolation(false)]
    pub fn get_tool_info(&self, id: &str, tool_name: &str) -> (r: Option<McpTool>)
        ensures
            !self.has_server(id@) ==> r is None,
            self.has_server(id@) ==> ((r is Some) == (find_tool(
                self.server(id@).tools@,
                tool_name@,
                0,
            ) >= 0)),
            self.has_server(id@) ==> (r matches Some(t) ==> t.name@ == tool_name@
                && crate::rpc::mcp_tool_model(t) == crate::rpc::mcp_tool_model(
                self.server(id@).tools@[find_tool(self.server(id@).tools@, tool_name@, 0)],
            )),
    {
        let p = match self.position(id) {
            Some(p) => p,
            None => {
                return None;
            },
        };
        proof {
            lemma_find_id_hit(self.rts(), id@, 0);
        }
        let ts = &self.runtimes[p].1.tools;
        let n = ts.len();
        let mut i: usize = 0;
        while i < n
            invariant
                0 <= i <= n,
                n == ts@.len(),
                self.has_server(id@),
                ts@ == self.server(id@).tools@,
                find_tool(ts@, tool_name@, 0) == find_tool(ts@, tool_name@, i as int),
            decreases n - i,
        {
            if string_eq_str(&ts[i].name, tool_name) {
                return Some(
                    McpTool {
                        name: ts[i].name.clone(),
                        description: ts[i].description.clone(),
                        parameters: crate::openai::clone_json(&ts[i].parameters),
                    },
                );
            }
            i = i + 1;
        }
        None
    }
}

/// Index of the first cached tool named `name` in `ts[i..]`, or `-1`.
pub open spec fn find_tool(ts: Seq<McpTool>, name: Seq<char>, i: int) -> int
    decreases ts.len() - i,
    when 0 <= i <= ts.len()
{
    if i >= ts.len() {
        -1
    } else if ts[i].name@ == name {
        i
    } else {
        find_tool(ts, name, i + 1)
    }
}

} // verus!

// The tool listing the MCP executor serves.

verus! {

/// The listed schemas from the alias entries `m[i..]` of a manager: one
/// `function` schema per alias whose server runs and caches the tool,
/// named by the alias and carrying the cached description and
/// parameters.
pub open spec fn spec_listed_schemas(
    core: McpServerManagerCore,
    m: Seq<crate::index::AliasEntry>,
    i: int,
) -> Seq<(Seq<char>, Seq<char>, crate::json::JsonV)>
    decreases m.len() - i,
    when 0 <= i <= m.len()
{
    if i >= m.len() {
        Seq::empty()
    } else {
        let a = m[i];
        let rest = spec_listed_schemas(core, m, i + 1);
        if core.has_server(a.1) && find_tool(core.server(a.1).tools@, a.2, 0) >= 0 {
            let t = core.server(a.1).tools@[find_tool(core.server(a.1).tools@, a.2, 0)];
            seq![(a.0, t.description@, crate::json::jmodel(t.parameters))] + rest
        } else {
            rest
        }
    }
}

impl McpServerManagerCore {
    /// List every published tool as a schema: one entry per alias whose
    /// server runs and caches the tool, in alias order, named by the
    /// alias and carrying the cached description and parameters.
    #[verifier::loop_isolation(false)]
    pub fn list_tool_schemas(&self) -> (r: Vec<crate::llm::ToolSchema>)
        ensures
            ({
                let target = spec_listed_schemas(*self, self.aliases(), 0);
                &&& r@.len() == target.len()
                &&& forall|k: int|
                    0 <= k < target.len() ==> {
                        let s = #[trigger] r@[k];
                        s.schema_type@ == "function"@ && s.function.name@ == target[k].0
                            && s.function.description@ == target[k].1 && crate::json::jmodel(
                            s.function.parameters,
                        ) == target[k].2
                    }
            }),
    {
        let aliases = self.all_aliases_list();
        let ghost m = self.aliases();
        let n = aliases.len();
        let mut out: Vec<crate::llm::ToolSchema> = Vec::new();
        let mut i: usize = 0;
        while i < n
            invariant
                0 <= i <= n,
                n == aliases@.len(),
                crate::index::imodel(aliases@) == m,
                m == self.aliases(),
                m.len() == n,
                spec_listed_schemas(*self, m, 0) == spec_listed_schemas_out(out@)
                    + spec_listed_schemas(*self, m, i as int),
                forall|k: int|
                    0 <= k < out@.len() ==> (#[trigger] out@[k]).schema_type@ == "function"@,
            decreases n - i,
        {
            proof {
                assert(crate::index::imodel(aliases@)[i as int] == crate::index::amodel(
                    aliases@[i as int],
                ));
            }
            let a = &aliases[i];
            match self.get_tool_info(a.server_id.as_str(), a.original_name.as_str()) {
                Some(tool) => {
                    let ghost pre = out@;
                    let s = crate::llm::ToolSchema {
                        schema_type: "function".to_owned(),
                        function: crate::llm::FunctionSchema {
                            name: a.alias.clone(),
                            description: tool.description,
                            parameters: tool.parameters,
                        },
                    };
                    out.push(s);
                    proof {
                        assert(spec_listed_schemas_out(out@) =~= spec_listed_schemas_out(pre)
                            + seq![
                            (
                                m[i as int].0,
                                self.server(m[i as int].1).tools@[find_tool(
                                    self.server(m[i as int].1).tools@,
                                    m[i as int].2,
                                    0,
                                )].description@,
                                crate::json::jmodel(
                                    self.server(m[i as int].1).tools@[find_tool(
                                        self.server(m[i as int].1).tools@,
                                        m[i as int].2,
                                        0,
                                    )].parameters,
                                ),
                            ),
                        ]);
                    }
                },
                None => {},
            }
            i = i + 1;
        }
        proof {
            assert(spec_listed_schemas(*self, m, n as int)
                =~= Seq::<(Seq<char>, Seq<char>, crate::json::JsonV)>::empty());
            assert(spec_listed_schemas_out(out@) + Seq::<(
                Seq<char>,
                Seq<char>,
                crate::json::JsonV,
            )>::empty() =~= spec_listed_schemas_out(out@));
        }
        out
    }

    /// Every alias entry, in registration order.
    pub fn all_aliases_list(&self) -> (r: Vec<ToolAlias>)
        ensures
            crate::index::imodel(r@) == self.aliases(),
    {
        self.index.all_aliases()
    }
}

/// The models a listed schema vector shows.
pub open spec fn spec_listed_schemas_out(ts: Seq<crate::llm::ToolSchema>) -> Seq<
    (Seq<char>, Seq<char>, crate::json::JsonV),
> {
    ts.map_values(
        |t: crate::llm::ToolSchema|
            (t.function.name@, t.function.description@, crate::json::jmodel(t.function.parameters)),
    )
}

} // verus!
