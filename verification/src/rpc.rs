//! The JSON-RPC 2.0 wire codec and the MCP payloads spoken over it.
//!
//! Outbound requests and notifications are encoded exactly; inbound text
//! is classified by shape: a numeric `id` makes a response, a `method`
//! without an `id` makes a notification, anything else is malformed.

use vstd::prelude::*;

use crate::json::{jlookup, jmodel, jmodel_fields, jmodel_seq, spec_as_u64, Json, JsonV};
use crate::strutil::{all_digits, dec_of, dec_val, int_dec_of, parse_u64, str_to_chars};
use crate::types::{McpCallResult, McpContentItem, McpResource, McpTool};

verus! {

broadcast use {vstd::seq::axiom_seq_index_decreases, vstd::std_specs::vec::axiom_vec_decreases_to_view};

/// An outbound request.
#[derive(Debug)]
pub struct JsonRpcRequest {
    pub jsonrpc: String,
    pub id: u64,
    pub method: String,
    pub params: Option<Json>,
}

impl JsonRpcRequest {
    /// A versioned request.
    pub fn new(id: u64, method: &str, params: Option<Json>) -> (r: Self)
        ensures
            r.jsonrpc@ == "2.0"@,
            r.id == id,
            r.method@ == method@,
            r.params == params,
    {
        JsonRpcRequest { jsonrpc: "2.0".to_owned(), id, method: method.to_owned(), params }
    }
}

/// An inbound response.
#[derive(Debug)]
pub struct JsonRpcResponse {
    pub id: u64,
    pub result: Option<Json>,
    pub error: Option<JsonRpcError>,
}

/// The error member of a response.
#[derive(Debug)]
pub struct JsonRpcError {
    pub code: i64,
    pub message: String,
    pub data: Option<Json>,
}

/// An inbound notification.
#[derive(Debug)]
pub struct JsonRpcNotification {
    pub method: String,
    pub params: Option<Json>,
}

/// The wire form of a request.
pub open spec fn request_wire(id: u64, method: Seq<char>, params: Option<JsonV>) -> JsonV {
    JsonV::Obj(
        seq![
            ("jsonrpc"@, JsonV::Str("2.0"@)),
            ("id"@, JsonV::Num(dec_of(id as nat))),
            ("method"@, JsonV::Str(method)),
        ] + (match params {
            Some(p) => seq![("params"@, p)],
            None => Seq::empty(),
        }),
    )
}

/// The wire form of a notification.
pub open spec fn notification_wire(method: Seq<char>, params: Option<JsonV>) -> JsonV {
    JsonV::Obj(
        seq![("jsonrpc"@, JsonV::Str("2.0"@)), ("method"@, JsonV::Str(method))] + (match params {
            Some(p) => seq![("params"@, p)],
            None => Seq::empty(),
        }),
    )
}

/// Encode a request for the wire.
pub fn request_to_json(r: &JsonRpcRequest) -> (j: Json)
    requires
        r.jsonrpc@ == "2.0"@,
    ensures
        jmodel(j) == request_wire(
            r.id,
            r.method@,
            match r.params {
                Some(p) => Some(jmodel(p)),
                None => None,
            },
        ),
{
    let ghost pseg: Seq<(Seq<char>, JsonV)> = match &r.params {
        Some(p) => seq![("params"@, jmodel(*p))],
        None => Seq::empty(),
    };
    let mut o: Vec<(String, Json)> = Vec::new();
    o.push(("jsonrpc".to_owned(), Json::Str("2.0".to_owned())));
    o.push(("id".to_owned(), Json::Num(crate::strutil::u64_to_string(r.id))));
    o.push(("method".to_owned(), Json::Str(r.method.clone())));
    proof {
        crate::json::lemma_jmodel_fields(o@, 0);
        assert(jmodel_fields(o@, 0) =~= seq![
            ("jsonrpc"@, JsonV::Str("2.0"@)),
            ("id"@, JsonV::Num(dec_of(r.id as nat))),
            ("method"@, JsonV::Str(r.method@)),
        ]);
    }
    let ghost base = seq![
        ("jsonrpc"@, JsonV::Str("2.0"@)),
        ("id"@, JsonV::Num(dec_of(r.id as nat))),
        ("method"@, JsonV::Str(r.method@)),
    ];
    match &r.params {
        Some(p) => {
            o.push(("params".to_owned(), crate::openai::clone_json(p)));
            proof {
                crate::json::lemma_jmodel_fields(o@, 0);
                assert(jmodel_fields(o@, 0) =~= base + pseg);
            }
        },
        None => {
            proof {
                assert(jmodel_fields(o@, 0) =~= base + pseg);
            }
        },
    }
    Json::Obj(o)
}

/// Encode a notification for the wire.
pub fn notification_to_json(method: &str, params: Option<Json>) -> (j: Json)
    ensures
        jmodel(j) == notification_wire(
            method@,
            match params {
                Some(p) => Some(jmodel(p)),
                None => None,
            },
        ),
{
    let ghost pseg: Seq<(Seq<char>, JsonV)> = match &params {
        Some(p) => seq![("params"@, jmodel(*p))],
        None => Seq::empty(),
    };
    let mut o: Vec<(String, Json)> = Vec::new();
    o.push(("jsonrpc".to_owned(), Json::Str("2.0".to_owned())));
    o.push(("method".to_owned(), Json::Str(method.to_owned())));
    proof {
        crate::json::lemma_jmodel_fields(o@, 0);
        assert(jmodel_fields(o@, 0) =~= seq![
            ("jsonrpc"@, JsonV::Str("2.0"@)),
            ("method"@, JsonV::Str(method@)),
        ]);
    }
    let ghost base = seq![("jsonrpc"@, JsonV::Str("2.0"@)), ("method"@, JsonV::Str(method@))];
    match params {
        Some(p) => {
            o.push(("params".to_owned(), p));
            proof {
                crate::json::lemma_jmodel_fields(o@, 0);
                assert(jmodel_fields(o@, 0) =~= base + pseg);
            }
        },
        None => {
            proof {
                assert(jmodel_fields(o@, 0) =~= base + pseg);
            }
        },
    }
    Json::Obj(o)
}

// ---------------------------------------------------------------------------
// Inbound classification
// ---------------------------------------------------------------------------

/// The model of a classified inbound message.
pub enum InboundV {
    /// A response: id, result, error as code and message.
    RespV { id: u64, result: Option<JsonV>, error: Option<(Seq<char>, Seq<char>)> },
    /// A notification: method and params.
    NotifV { method: Seq<char>, params: Option<JsonV> },
    /// Neither.
    BadV,
}

/// The error member as the wire shows it: the code's literal spelling and
/// the message; `None` when no well-formed error member is present.
pub open spec fn error_model(v: JsonV) -> Option<(Seq<char>, Seq<char>)> {
    match jlookup(v, "error"@) {
        Some(e) => match (jlookup(e, "code"@), jlookup(e, "message"@)) {
            (Some(JsonV::Num(code)), Some(JsonV::Str(msg))) => Some((code, msg)),
            _ => None,
        },
        None => None,
    }
}

/// How an inbound document is read: a numeric `id` makes it a response;
/// a `method` string without an `id` makes it a notification; anything
/// else is malformed.
pub open spec fn classify_model(v: JsonV) -> InboundV {
    match jlookup(v, "id"@) {
        Some(idv) => match spec_as_u64(idv) {
            Some(id) => InboundV::RespV {
                id,
                result: jlookup(v, "result"@),
                error: error_model(v),
            },
            None => InboundV::BadV,
        },
        None => match jlookup(v, "method"@) {
            Some(JsonV::Str(m)) => InboundV::NotifV { method: m, params: jlookup(v, "params"@) },
            _ => InboundV::BadV,
        },
    }
}

/// A classified inbound message.
#[derive(Debug)]
pub enum Inbound {
    Response(JsonRpcResponse),
    Notification(JsonRpcNotification),
    Malformed,
}

/// The model of a classified message; the error code is carried by its
/// literal spelling.
pub open spec fn inbound_model(i: Inbound) -> InboundV {
    match i {
        Inbound::Response(r) => InboundV::RespV {
            id: r.id,
            result: match r.result {
                Some(x) => Some(jmodel(x)),
                None => None,
            },
            error: match r.error {
                Some(e) => Some((int_dec_of(e.code as int), e.message@)),
                None => None,
            },
        },
        Inbound::Notification(n) => InboundV::NotifV {
            method: n.method@,
            params: match n.params {
                Some(p) => Some(jmodel(p)),
                None => None,
            },
        },
        Inbound::Malformed => InboundV::BadV,
    }
}

/// The integer a number literal spells, when it is a plain integer that
/// fits a signed 64-bit value.
pub open spec fn lit_i64_val(s: Seq<char>) -> Option<int> {
    if s.len() > 0 && s[0] == '-' {
        let rest = s.subrange(1, s.len() as int);
        if all_digits(rest) && rest.len() > 0 && dec_val(rest) <= 0x8000_0000_0000_0000 {
            Some(-(dec_val(rest) as int))
        } else {
            None
        }
    } else if all_digits(s) && s.len() > 0 && dec_val(s) <= i64::MAX {
        Some(dec_val(s) as int)
    } else {
        None
    }
}

/// Whether the inbound value faithfully renders the classification: for a
/// response error the message is kept, and the carried code equals the
/// wire literal whenever that literal is a plain integer in range.
pub open spec fn classifies(i: Inbound, v: JsonV) -> bool {
    match (inbound_model(i), classify_model(v)) {
        (InboundV::RespV { id: a, result: ra, error: ea }, InboundV::RespV {
            id: b,
            result: rb,
            error: eb,
        }) => {
            &&& a == b
            &&& ra == rb
            &&& (ea is Some) == (eb is Some)
            &&& (ea matches Some(x) ==> eb matches Some(y) && x.1 == y.1 && (lit_i64_val(y.0)
                matches Some(n) ==> x.0 == int_dec_of(n)))
        },
        (InboundV::NotifV { method: ma, params: pa }, InboundV::NotifV {
            method: mb,
            params: pb,
        }) => ma == mb && pa == pb,
        (InboundV::BadV, InboundV::BadV) => true,
        _ => false,
    }
}

#[verifier::loop_isolation(false)]
fn parse_code(j: &Json) -> (r: i64)
    ensures
        jmodel(*j) matches JsonV::Num(s) ==> (lit_i64_val(s) matches Some(n) ==> r as int == n),
{
    match j {
        Json::Num(s) => {
            let cs = str_to_chars(s.as_str());
            let n = cs.len();
            if n > 0 && cs[0] == '-' {
                let ghost rest = s@.subrange(1, s@.len() as int);
                let mut mag: Vec<char> = Vec::new();
                let mut i: usize = 1;
                while i < n
                    invariant
                        1 <= i <= n,
                        n == cs@.len(),
                        mag@ == cs@.subrange(1, i as int),
                    decreases n - i,
                {
                    mag.push(cs[i]);
                    proof {
                        assert(mag@ =~= cs@.subrange(1, i as int + 1));
                    }
                    i = i + 1;
                }
                proof {
                    assert(mag@ =~= rest);
                }
                match parse_u64(&mag) {
                    Some(m) => {
                        if m < 0x8000_0000_0000_0000u64 {
                            let r = -(m as i64);
                            assert(r as int == -(dec_val(rest) as int));
                            r
                        } else if m == 0x8000_0000_0000_0000u64 {
                            assert(i64::MIN as int == -(dec_val(rest) as int));
                            i64::MIN
                        } else {
                            assert(lit_i64_val(s@) is None);
                            0
                        }
                    },
                    None => {
                        assert(lit_i64_val(s@) is None);
                        0
                    },
                }
            } else {
                match parse_u64(&cs) {
                    Some(m) => {
                        if m <= i64::MAX as u64 {
                            m as i64
                        } else {
                            assert(lit_i64_val(s@) is None);
                            0
                        }
                    },
                    None => {
                        assert(lit_i64_val(s@) is None);
                        0
                    },
                }
            }
        },
        _ => 0,
    }
}

/// Classify one parsed inbound document.
pub fn classify_json(j: &Json) -> (r: Inbound)
    ensures
        classifies(r, jmodel(*j)),
{
    match j.get("id") {
        Some(idj) => {
            match idj.as_u64() {
                Some(id) => {
                    let result = match j.get("result") {
                        Some(x) => Some(crate::openai::clone_json(x)),
                        None => None,
                    };
                    let error = match j.get("error") {
                        Some(e) => {
                            let code_ok = match e.get("code") {
                                Some(c) => matches!(c, Json::Num(_)),
                                None => false,
                            };
                            let msg = match e.get("message") {
                                Some(m) => match m.as_str() {
                                    Some(s) => Some(s.clone()),
                                    None => None,
                                },
                                None => None,
                            };
                            match (code_ok, msg) {
                                (true, Some(message)) => {
                                    let code = match e.get("code") {
                                        Some(c) => parse_code(c),
                                        None => 0,
                                    };
                                    let data = match e.get("data") {
                                        Some(d) => Some(crate::openai::clone_json(d)),
                                        None => None,
                                    };
                                    Some(JsonRpcError { code, message, data })
                                },
                                _ => None,
                            }
                        },
                        None => None,
                    };
                    Inbound::Response(JsonRpcResponse { id, result, error })
                },
                None => Inbound::Malformed,
            }
        },
        None => {
            match j.get("method") {
                Some(mj) => match mj.as_str() {
                    Some(m) => {
                        let params = match j.get("params") {
                            Some(p) => Some(crate::openai::clone_json(p)),
                            None => None,
                        };
                        Inbound::Notification(
                            JsonRpcNotification { method: m.clone(), params },
                        )
                    },
                    None => Inbound::Malformed,
                },
                None => Inbound::Malformed,
            }
        },
    }
}

} // verus!

// The MCP payloads spoken over the JSON-RPC channel.

verus! {

/// What a server may ask of prompts.
#[derive(Debug, Clone, Copy, PartialEq, Eq, Structural)]
pub struct PromptsCapability {
    pub list_changed: bool,
}

/// What a server may ask of resources.
#[derive(Debug, Clone, Copy, PartialEq, Eq, Structural)]
pub struct ResourcesCapability {
    pub subscribe: bool,
    pub list_changed: bool,
}

/// What a server may ask of tools.
#[derive(Debug, Clone, Copy, PartialEq, Eq, Structural)]
pub struct ToolsCapability {
    pub list_changed: bool,
}

/// A party's name and version.
#[derive(Debug, Clone)]
pub struct Implementation {
    pub name: String,
    pub version: String,
}

/// The `tools/list` request carries no parameters.
#[derive(Debug)]
pub struct McpToolListRequest {}

/// The raw result of a `tools/call`.
#[derive(Debug)]
pub struct McpToolCallResult {
    pub content: Vec<crate::types::McpContentItem>,
    pub is_error: bool,
}

/// What `initialize` answered: the protocol revision, the server's
/// capabilities document, its identity, and optional instructions.
#[derive(Debug)]
pub struct McpInitializeResult {
    pub protocol_version: String,
    pub capabilities: Json,
    pub server_info: Implementation,
    pub instructions: Option<String>,
}

/// Read an `initialize` result: versions and names default to empty.
pub fn initialize_result_from_json(j: &Json) -> (r: McpInitializeResult)
    ensures
        r.protocol_version@ == crate::openai::str_or(jmodel(*j), "protocolVersion"@, Seq::empty()),
        ({
            let info = match jlookup(jmodel(*j), "serverInfo"@) {
                Some(x) => x,
                None => JsonV::Null,
            };
            r.server_info.name@ == crate::openai::str_or(info, "name"@, Seq::empty())
                && r.server_info.version@ == crate::openai::str_or(info, "version"@, Seq::empty())
        }),
        match r.instructions {
            Some(s) => opt_str(jmodel(*j), "instructions"@) == Some(s@),
            None => opt_str(jmodel(*j), "instructions"@) is None,
        },
{
    proof {
        reveal_strlit("");
    }
    let protocol_version = crate::openai::get_str_or(j, "protocolVersion", "");
    let null = Json::Null;
    let info: &Json = match j.get("serverInfo") {
        Some(x) => x,
        None => &null,
    };
    let server_info = Implementation {
        name: crate::openai::get_str_or(info, "name", ""),
        version: crate::openai::get_str_or(info, "version", ""),
    };
    let capabilities = match j.get("capabilities") {
        Some(c) => crate::openai::clone_json(c),
        None => Json::Null,
    };
    let instructions = opt_str_exec(j, "instructions");
    McpInitializeResult { protocol_version, capabilities, server_info, instructions }
}

/// The protocol revision this client speaks.
pub fn mcp_protocol_version() -> (r: &'static str)
    ensures
        r@ == "2024-11-05"@,
{
    "2024-11-05"
}

/// The `initialize` request parameters.
pub open spec fn initialize_params_wire(name: Seq<char>, version: Seq<char>) -> JsonV {
    JsonV::Obj(
        seq![
            ("protocolVersion"@, JsonV::Str("2024-11-05"@)),
            ("capabilities"@, JsonV::Obj(Seq::empty())),
            (
                "clientInfo"@,
                JsonV::Obj(
                    seq![("name"@, JsonV::Str(name)), ("version"@, JsonV::Str(version))],
                ),
            ),
        ],
    )
}

/// Build the `initialize` parameters for a client identity.
pub fn mcp_initialize_params(client_name: &str, client_version: &str) -> (r: Json)
    ensures
        jmodel(r) == initialize_params_wire(client_name@, client_version@),
{
    let caps: Vec<(String, Json)> = Vec::new();
    proof {
        crate::json::lemma_jmodel_fields(caps@, 0);
    }
    let mut info: Vec<(String, Json)> = Vec::new();
    info.push(("name".to_owned(), Json::Str(client_name.to_owned())));
    info.push(("version".to_owned(), Json::Str(client_version.to_owned())));
    proof {
        crate::json::lemma_jmodel_fields(info@, 0);
        assert(jmodel_fields(info@, 0) =~= seq![
            ("name"@, JsonV::Str(client_name@)),
            ("version"@, JsonV::Str(client_version@)),
        ]);
    }
    let mut o: Vec<(String, Json)> = Vec::new();
    o.push(("protocolVersion".to_owned(), Json::Str("2024-11-05".to_owned())));
    o.push(("capabilities".to_owned(), Json::Obj(caps)));
    o.push(("clientInfo".to_owned(), Json::Obj(info)));
    proof {
        crate::json::lemma_jmodel_fields(o@, 0);
        assert(jmodel_fields(o@, 0) =~= initialize_params_wire(client_name@, client_version@)
            ->Obj_0);
    }
    Json::Obj(o)
}

/// The `tools/call` parameters: the tool's original name and its
/// arguments.
pub open spec fn tool_call_params_wire(name: Seq<char>, arguments: JsonV) -> JsonV {
    JsonV::Obj(seq![("name"@, JsonV::Str(name)), ("arguments"@, arguments)])
}

/// Build the `tools/call` parameters.
pub fn mcp_tool_call_params(name: &str, arguments: Json) -> (r: Json)
    ensures
        jmodel(r) == tool_call_params_wire(name@, jmodel(arguments)),
{
    let ghost am = jmodel(arguments);
    let mut o: Vec<(String, Json)> = Vec::new();
    o.push(("name".to_owned(), Json::Str(name.to_owned())));
    o.push(("arguments".to_owned(), arguments));
    proof {
        crate::json::lemma_jmodel_fields(o@, 0);
        assert(jmodel_fields(o@, 0) =~= seq![("name"@, JsonV::Str(name@)), ("arguments"@, am)]);
    }
    Json::Obj(o)
}

// ---------------------------------------------------------------------------
// Result payloads
// ---------------------------------------------------------------------------

/// The model of one reported tool: name, description, schema; absent
/// strings become empty and an absent schema the empty object.
pub open spec fn tool_info_model(e: JsonV) -> (Seq<char>, Seq<char>, JsonV) {
    (
        crate::openai::str_or(e, "name"@, Seq::empty()),
        crate::openai::str_or(e, "description"@, Seq::empty()),
        match jlookup(e, "inputSchema"@) {
            Some(s) => s,
            None => JsonV::Obj(Seq::empty()),
        },
    )
}

/// The reported tools of a `tools/list` result, or nothing when the
/// result carries no tools array.
pub open spec fn tools_model(v: JsonV) -> Option<Seq<(Seq<char>, Seq<char>, JsonV)>> {
    match jlookup(v, "tools"@) {
        Some(JsonV::Arr(ts)) => Some(ts.map_values(|e: JsonV| tool_info_model(e))),
        _ => None,
    }
}

/// The model of one tool value.
pub open spec fn mcp_tool_model(t: McpTool) -> (Seq<char>, Seq<char>, JsonV) {
    (t.name@, t.description@, jmodel(t.parameters))
}

/// Read the tools out of a `tools/list` result.
#[verifier::loop_isolation(false)]
pub fn tools_from_result(j: &Json) -> (r: Option<Vec<McpTool>>)
    ensures
        match r {
            Some(ts) => tools_model(jmodel(*j)) == Some(
                ts@.map_values(|t: McpTool| mcp_tool_model(t)),
            ),
            None => tools_model(jmodel(*j)) is None,
        },
{
    let arr = match j.get("tools") {
        Some(t) => match t.as_array() {
            Some(a) => a,
            None => {
                return None;
            },
        },
        None => {
            return None;
        },
    };
    let ghost target = jmodel_seq(arr@, 0).map_values(|e: JsonV| tool_info_model(e));
    proof {
        crate::json::lemma_jmodel_seq(arr@, 0);
    }
    let n = arr.len();
    let mut out: Vec<McpTool> = Vec::new();
    let mut i: usize = 0;
    while i < n
        invariant
            0 <= i <= n,
            n == arr@.len(),
            target.len() == n,
            forall|k: int| 0 <= k < n ==> target[k] == tool_info_model(jmodel(arr@[k])),
            out@.len() == i,
            out@.map_values(|t: McpTool| mcp_tool_model(t)) == target.take(i as int),
        decreases n - i,
    {
        let e = &arr[i];
        let name = crate::openai::get_str_or(e, "name", "");
        let description = crate::openai::get_str_or(e, "description", "");
        let parameters = match e.get("inputSchema") {
            Some(s) => crate::openai::clone_json(s),
            None => {
                let f: Vec<(String, Json)> = Vec::new();
                proof {
                    crate::json::lemma_jmodel_fields(f@, 0);
                }
                Json::Obj(f)
            },
        };
        let tool = McpTool { name, description, parameters };
        proof {
            reveal_strlit("");
            assert(""@ =~= Seq::<char>::empty());
            assert(jmodel(tool.parameters) =~~= tool_info_model(jmodel(arr@[i as int])).2);
            assert(mcp_tool_model(tool) == tool_info_model(jmodel(arr@[i as int])));
        }
        out.push(tool);
        proof {
            assert(out@.map_values(|t: McpTool| mcp_tool_model(t)) =~= target.take(i as int + 1));
        }
        i = i + 1;
    }
    proof {
        assert(target.take(n as int) =~= target);
    }
    Some(out)
}

/// The model of one content item of a call result.
pub enum ContentItemV {
    TextV(Seq<char>),
    ImageV { data: Seq<char>, mime_type: Seq<char> },
    ResourceV {
        uri: Seq<char>,
        mime_type: Option<Seq<char>>,
        text: Option<Seq<char>>,
        blob: Option<Seq<char>>,
    },
    OtherV,
}

/// The model of one wire content item, by its `type` tag; unknown tags
/// read as `OtherV`.
pub open spec fn content_item_model(e: JsonV) -> ContentItemV {
    let t = crate::openai::str_or(e, "type"@, Seq::empty());
    if t == "text"@ {
        ContentItemV::TextV(crate::openai::str_or(e, "text"@, Seq::empty()))
    } else if t == "image"@ {
        ContentItemV::ImageV {
            data: crate::openai::str_or(e, "data"@, Seq::empty()),
            mime_type: crate::openai::str_or(e, "mimeType"@, Seq::empty()),
        }
    } else if t == "resource"@ {
        let res = match jlookup(e, "resource"@) {
            Some(x) => x,
            None => JsonV::Null,
        };
        ContentItemV::ResourceV {
            uri: crate::openai::str_or(res, "uri"@, Seq::empty()),
            mime_type: opt_str(res, "mimeType"@),
            text: opt_str(res, "text"@),
            blob: opt_str(res, "blob"@),
        }
    } else {
        ContentItemV::OtherV
    }
}

/// The string under `key` when present.
pub open spec fn opt_str(v: JsonV, key: Seq<char>) -> Option<Seq<char>> {
    match jlookup(v, key) {
        Some(JsonV::Str(s)) => Some(s),
        _ => None,
    }
}

/// The model of an executable content item.
pub open spec fn exec_item_model(it: McpContentItem) -> ContentItemV {
    match it {
        McpContentItem::Text { text } => ContentItemV::TextV(text@),
        McpContentItem::Image { data, mime_type } => ContentItemV::ImageV {
            data: data@,
            mime_type: mime_type@,
        },
        McpContentItem::Resource { resource } => ContentItemV::ResourceV {
            uri: resource.uri@,
            mime_type: match resource.mime_type {
                Some(s) => Some(s@),
                None => None,
            },
            text: match resource.text {
                Some(s) => Some(s@),
                None => None,
            },
            blob: match resource.blob {
                Some(s) => Some(s@),
                None => None,
            },
        },
    }
}

/// The recognized items of a content array, in order; items of unknown
/// type are dropped.
pub open spec fn known_items(es: Seq<JsonV>) -> Seq<ContentItemV>
    decreases es.len(),
{
    if es.len() == 0 {
        Seq::empty()
    } else {
        (if content_item_model(es[0]) is OtherV {
            Seq::empty()
        } else {
            seq![content_item_model(es[0])]
        }) + known_items(es.drop_first())
    }
}

/// Whether the result says the call failed; absent means success.
pub open spec fn is_error_model(v: JsonV) -> bool {
    match jlookup(v, "isError"@) {
        Some(JsonV::Bool(b)) => b,
        _ => false,
    }
}

fn opt_str_exec(j: &Json, key: &str) -> (r: Option<String>)
    ensures
        match r {
            Some(s) => opt_str(jmodel(*j), key@) == Some(s@),
            None => opt_str(jmodel(*j), key@) is None,
        },
{
    match j.get(key) {
        Some(x) => match x.as_str() {
            Some(s) => Some(s.clone()),
            None => None,
        },
        None => None,
    }
}

proof fn lemma_known_items_step(es: Seq<JsonV>, i: int)
    requires
        0 <= i < es.len(),
    ensures
        known_items(es.take(i + 1)) == known_items(es.take(i)) + (if content_item_model(es[i])
            is OtherV {
            Seq::<ContentItemV>::empty()
        } else {
            seq![content_item_model(es[i])]
        }),
    decreases i,
{
    reveal_with_fuel(known_items, 3);
    if i == 0 {
        assert(es.take(1)[0] == es[0]);
        assert(es.take(1).drop_first() =~= Seq::<JsonV>::empty());
        assert(es.take(0) =~= Seq::<JsonV>::empty());
        assert(known_items(es.take(1)) =~= known_items(es.take(0)) + (if content_item_model(
            es[0],
        ) is OtherV {
            Seq::<ContentItemV>::empty()
        } else {
            seq![content_item_model(es[0])]
        }));
    } else {
        lemma_known_items_step(es.drop_first(), i - 1);
        assert(es.take(i + 1).drop_first() =~= es.drop_first().take(i));
        assert(es.take(i).drop_first() =~= es.drop_first().take(i - 1));
        assert(es.take(i + 1)[0] == es[0]);
        assert(es.take(i)[0] == es[0]);
        assert(es.drop_first()[i - 1] == es[i]);
        assert(known_items(es.take(i + 1)) =~= known_items(es.take(i)) + (if content_item_model(
            es[i],
        ) is OtherV {
            Seq::<ContentItemV>::empty()
        } else {
            seq![content_item_model(es[i])]
        }));
    }
}

/// Read a `tools/call` result: the recognized content items in order and
/// the error flag, false when absent.
#[verifier::loop_isolation(false)]
pub fn call_result_from_json(j: &Json) -> (r: McpCallResult)
    ensures
        r.content@.map_values(|it: McpContentItem| exec_item_model(it)) == known_items(
            match jlookup(jmodel(*j), "content"@) {
                Some(JsonV::Arr(es)) => es,
                _ => Seq::empty(),
            },
        ),
        r.is_error == is_error_model(jmodel(*j)),
{
    let empty_items: Vec<Json> = Vec::new();
    let arr: &Vec<Json> = match j.get("content") {
        Some(t) => match t.as_array() {
            Some(a) => a,
            None => &empty_items,
        },
        None => &empty_items,
    };
    let ghost es = match jlookup(jmodel(*j), "content"@) {
        Some(JsonV::Arr(x)) => x,
        _ => Seq::<JsonV>::empty(),
    };
    proof {
        crate::json::lemma_jmodel_seq(arr@, 0);
        assert(jmodel_seq(arr@, 0) =~= es);
        assert(es.take(0) =~= Seq::<JsonV>::empty());
    }
    let n = arr.len();
    let mut content: Vec<McpContentItem> = Vec::new();
    let mut i: usize = 0;
    while i < n
        invariant
            0 <= i <= n,
            n == arr@.len(),
            es == jmodel_seq(arr@, 0),
            es.len() == n,
            forall|k: int| 0 <= k < n ==> es[k] == jmodel(arr@[k]),
            content@.map_values(|it: McpContentItem| exec_item_model(it)) == known_items(
                es.take(i as int),
            ),
        decreases n - i,
    {
        let e = &arr[i];
        let ghost pre = content@;
        let t = crate::openai::get_str_or(e, "type", "");
        proof {
            reveal_strlit("");
            assert(""@ =~= Seq::<char>::empty());
        }
        if crate::strutil::string_eq_str(&t, "text") {
            let text = crate::openai::get_str_or(e, "text", "");
            let item = McpContentItem::Text { text };
            proof {
                assert(exec_item_model(item) == content_item_model(jmodel(arr@[i as int])));
            }
            content.push(item);
        } else if crate::strutil::string_eq_str(&t, "image") {
            let data = crate::openai::get_str_or(e, "data", "");
            let mime_type = crate::openai::get_str_or(e, "mimeType", "");
            let item = McpContentItem::Image { data, mime_type };
            proof {
                assert(exec_item_model(item) == content_item_model(jmodel(arr@[i as int])));
            }
            content.push(item);
        } else if crate::strutil::string_eq_str(&t, "resource") {
            let null = Json::Null;
            let res: &Json = match e.get("resource") {
                Some(x) => x,
                None => &null,
            };
            let resource = McpResource {
                uri: crate::openai::get_str_or(res, "uri", ""),
                mime_type: opt_str_exec(res, "mimeType"),
                text: opt_str_exec(res, "text"),
                blob: opt_str_exec(res, "blob"),
            };
            let item = McpContentItem::Resource { resource };
            proof {
                assert(exec_item_model(item) == content_item_model(jmodel(arr@[i as int])));
            }
            content.push(item);
        }
        proof {
            lemma_known_items_step(es, i as int);
            assert(content@.map_values(|it: McpContentItem| exec_item_model(it)) =~= known_items(
                es.take(i as int + 1),
            ));
        }
        i = i + 1;
    }
    proof {
        assert(es.take(n as int) =~= es);
    }
    let is_error = match j.get("isError") {
        Some(b) => match b.as_bool() {
            Some(x) => x,
            None => false,
        },
        None => false,
    };
    McpCallResult { content, is_error }
}

} // verus!
