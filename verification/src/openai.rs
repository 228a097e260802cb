//! The OpenAI-compatible protocol translator: request bodies built from
//! internal messages and tools, and streaming deltas decoded into
//! provider-neutral chunks.

use vstd::prelude::*;

use crate::errors::LLMError;
use crate::json::{jlookup, jmodel, jmodel_seq, Json, JsonV};
use crate::llm::{spec_role_str, FunctionCall, LLMChunk, Message, ToolCall, ToolSchema};
use crate::parse::parse_json_chars;
use crate::strutil::{chars_eq_str, dec_of, spec_trim, str_to_chars, trim_chars, u64_to_string};

verus! {

broadcast use {vstd::seq::axiom_seq_index_decreases, vstd::std_specs::vec::axiom_vec_decreases_to_view};

// ---------------------------------------------------------------------------
// Requests
// ---------------------------------------------------------------------------

/// The wire form of one tool call inside a message.
pub open spec fn tc_wire_model(t: ToolCall) -> JsonV {
    JsonV::Obj(
        seq![
            ("id"@, JsonV::Str(t.id@)),
            ("type"@, JsonV::Str(t.tool_type@)),
            (
                "function"@,
                JsonV::Obj(
                    seq![
                        ("name"@, JsonV::Str(t.function.name@)),
                        ("arguments"@, JsonV::Str(t.function.arguments@)),
                    ],
                ),
            ),
        ],
    )
}

/// The wire forms of `tcs[i..]`.
pub open spec fn tc_wire_models(tcs: Seq<ToolCall>, i: int) -> Seq<JsonV>
    decreases tcs.len() - i,
    when 0 <= i <= tcs.len()
{
    if i >= tcs.len() {
        Seq::empty()
    } else {
        seq![tc_wire_model(tcs[i])] + tc_wire_models(tcs, i + 1)
    }
}

/// The `tool_calls` field of a message on the wire, when present.
pub open spec fn msg_tc_seg(m: Message) -> Seq<(Seq<char>, JsonV)> {
    match m.tool_calls {
        Some(tcs) => seq![("tool_calls"@, JsonV::Arr(tc_wire_models(tcs@, 0)))],
        None => Seq::empty(),
    }
}

/// The `tool_call_id` field of a message on the wire, when present.
pub open spec fn msg_id_seg(m: Message) -> Seq<(Seq<char>, JsonV)> {
    match m.tool_call_id {
        Some(id) => seq![("tool_call_id"@, JsonV::Str(id@))],
        None => Seq::empty(),
    }
}

/// The wire form of one message.
pub open spec fn msg_wire_model(m: Message) -> JsonV {
    JsonV::Obj(
        seq![("role"@, JsonV::Str(spec_role_str(m.role))), ("content"@, JsonV::Str(m.content@))]
            + msg_tc_seg(m) + msg_id_seg(m),
    )
}

/// The wire forms of `msgs[i..]`.
pub open spec fn msg_wire_models(msgs: Seq<Message>, i: int) -> Seq<JsonV>
    decreases msgs.len() - i,
    when 0 <= i <= msgs.len()
{
    if i >= msgs.len() {
        Seq::empty()
    } else {
        seq![msg_wire_model(msgs[i])] + msg_wire_models(msgs, i + 1)
    }
}

/// The wire form of one tool schema; the schema passes through unchanged.
pub open spec fn schema_wire_model(t: ToolSchema) -> JsonV {
    JsonV::Obj(
        seq![
            ("type"@, JsonV::Str(t.schema_type@)),
            (
                "function"@,
                JsonV::Obj(
                    seq![
                        ("name"@, JsonV::Str(t.function.name@)),
                        ("description"@, JsonV::Str(t.function.description@)),
                        ("parameters"@, jmodel(t.function.parameters)),
                    ],
                ),
            ),
        ],
    )
}

/// The wire forms of `tools[i..]`.
pub open spec fn schema_wire_models(tools: Seq<ToolSchema>, i: int) -> Seq<JsonV>
    decreases tools.len() - i,
    when 0 <= i <= tools.len()
{
    if i >= tools.len() {
        Seq::empty()
    } else {
        seq![schema_wire_model(tools[i])] + schema_wire_models(tools, i + 1)
    }
}

/// The whole request body: model, streaming on, the messages in order,
/// the tools when any, and the token ceiling when given.
pub open spec fn openai_body_model(
    model: Seq<char>,
    msgs: Seq<Message>,
    tools: Seq<ToolSchema>,
    max_output_tokens: Option<u32>,
) -> JsonV {
    JsonV::Obj(
        seq![
            ("model"@, JsonV::Str(model)),
            ("stream"@, JsonV::Bool(true)),
            ("messages"@, JsonV::Arr(msg_wire_models(msgs, 0))),
        ] + (if tools.len() > 0 {
            seq![("tools"@, JsonV::Arr(schema_wire_models(tools, 0)))]
        } else {
            Seq::empty()
        }) + (match max_output_tokens {
            Some(m) => seq![("max_tokens"@, JsonV::Num(dec_of(m as nat)))],
            None => Seq::empty(),
        }),
    )
}

fn tool_call_to_json(t: &ToolCall) -> (r: Json)
    ensures
        jmodel(r) == tc_wire_model(*t),
{
    let mut f: Vec<(String, Json)> = Vec::new();
    f.push(("name".to_owned(), Json::Str(t.function.name.clone())));
    f.push(("arguments".to_owned(), Json::Str(t.function.arguments.clone())));
    proof {
        crate::json::lemma_jmodel_fields(f@, 0);
        assert(crate::json::jmodel_fields(f@, 0) =~= seq![
            ("name"@, JsonV::Str(t.function.name@)),
            ("arguments"@, JsonV::Str(t.function.arguments@)),
        ]);
    }
    let mut o: Vec<(String, Json)> = Vec::new();
    o.push(("id".to_owned(), Json::Str(t.id.clone())));
    o.push(("type".to_owned(), Json::Str(t.tool_type.clone())));
    o.push(("function".to_owned(), Json::Obj(f)));
    proof {
        crate::json::lemma_jmodel_fields(o@, 0);
        assert(crate::json::jmodel_fields(o@, 0) =~= tc_wire_model(*t)->Obj_0);
    }
    Json::Obj(o)
}

#[verifier::loop_isolation(false)]
fn message_to_json(m: &Message) -> (r: Json)
    ensures
        jmodel(r) == msg_wire_model(*m),
{
    let ghost base: Seq<(Seq<char>, JsonV)> = seq![
        ("role"@, JsonV::Str(spec_role_str(m.role))),
        ("content"@, JsonV::Str(m.content@)),
    ];
    let ghost tc_seg: Seq<(Seq<char>, JsonV)> = msg_tc_seg(*m);
    let ghost id_seg: Seq<(Seq<char>, JsonV)> = msg_id_seg(*m);
    let mut o: Vec<(String, Json)> = Vec::new();
    o.push(("role".to_owned(), Json::Str(m.role.role_str().to_owned())));
    o.push(("content".to_owned(), Json::Str(m.content.clone())));
    proof {
        crate::json::lemma_jmodel_fields(o@, 0);
        assert(crate::json::jmodel_fields(o@, 0) =~= base);
    }
    match &m.tool_calls {
        Some(tcs) => {
            let n = tcs.len();
            let mut arr: Vec<Json> = Vec::new();
            let mut i: usize = 0;
            while i < n
                invariant
                    0 <= i <= n,
                    n == tcs@.len(),
                    arr@.len() == i,
                    jmodel_seq(arr@, 0) == tc_wire_models(tcs@, 0).take(i as int),
                decreases n - i,
            {
                let ghost pre = arr@;
                let v = tool_call_to_json(&tcs[i]);
                arr.push(v);
                proof {
                    lemma_tc_wire_models_len(tcs@, 0);
                    lemma_tc_wire_models_index(tcs@, 0, i as int);
                    lemma_jmodel_seq_push_pub(pre, v, tc_wire_models(tcs@, 0), i as int);
                }
                i = i + 1;
            }
            proof {
                lemma_tc_wire_models_len(tcs@, 0);
                assert(tc_wire_models(tcs@, 0).take(n as int) =~= tc_wire_models(tcs@, 0));
            }
            o.push(("tool_calls".to_owned(), Json::Arr(arr)));
            proof {
                crate::json::lemma_jmodel_fields(o@, 0);
                assert(crate::json::jmodel_fields(o@, 0) =~= base + tc_seg);
            }
        },
        None => {
            proof {
                assert(crate::json::jmodel_fields(o@, 0) =~= base + tc_seg);
            }
        },
    }
    match &m.tool_call_id {
        Some(id) => {
            o.push(("tool_call_id".to_owned(), Json::Str(id.clone())));
            proof {
                crate::json::lemma_jmodel_fields(o@, 0);
                assert(crate::json::jmodel_fields(o@, 0) =~= (base + tc_seg) + id_seg);
            }
        },
        None => {
            proof {
                assert(crate::json::jmodel_fields(o@, 0) =~= (base + tc_seg) + id_seg);
            }
        },
    }
    let r = Json::Obj(o);
    proof {
        assert(msg_wire_model(*m)->Obj_0 == (base + tc_seg) + id_seg);
    }
    r
}

fn schema_to_json(t: &ToolSchema) -> (r: Json)
    ensures
        jmodel(r) == schema_wire_model(*t),
{
    let mut f: Vec<(String, Json)> = Vec::new();
    f.push(("name".to_owned(), Json::Str(t.function.name.clone())));
    f.push(("description".to_owned(), Json::Str(t.function.description.clone())));
    f.push(("parameters".to_owned(), clone_json(&t.function.parameters)));
    proof {
        crate::json::lemma_jmodel_fields(f@, 0);
        assert(crate::json::jmodel_fields(f@, 0) =~= seq![
            ("name"@, JsonV::Str(t.function.name@)),
            ("description"@, JsonV::Str(t.function.description@)),
            ("parameters"@, jmodel(t.function.parameters)),
        ]);
    }
    let mut o: Vec<(String, Json)> = Vec::new();
    o.push(("type".to_owned(), Json::Str(t.schema_type.clone())));
    o.push(("function".to_owned(), Json::Obj(f)));
    proof {
        crate::json::lemma_jmodel_fields(o@, 0);
        assert(crate::json::jmodel_fields(o@, 0) =~= schema_wire_model(*t)->Obj_0);
    }
    Json::Obj(o)
}

/// A structural copy of a document.
#[verifier::loop_isolation(false)]
pub fn clone_json(j: &Json) -> (r: Json)
    ensures
        jmodel(r) == jmodel(*j),
    decreases *j,
{
    match j {
        Json::Null => Json::Null,
        Json::Bool(b) => Json::Bool(*b),
        Json::Num(s) => Json::Num(s.clone()),
        Json::Str(s) => Json::Str(s.clone()),
        Json::Arr(elems) => {
            let n = elems.len();
            let mut out: Vec<Json> = Vec::new();
            let mut i: usize = 0;
            while i < n
                invariant
                    0 <= i <= n,
                    n == elems@.len(),
                    out@.len() == i,
                    jmodel_seq(out@, 0) == jmodel_seq(elems@, 0).take(i as int),
                decreases n - i,
            {
                proof {
                    assert(decreases_to!(*j => *elems));
                    assert(decreases_to!(*elems => elems@));
                    assert(decreases_to!(elems@ => elems@[i as int]));
                }
                let ghost pre = out@;
                let v = clone_json(&elems[i]);
                out.push(v);
                proof {
                    crate::json::lemma_jmodel_seq(elems@, 0);
                    lemma_jmodel_seq_push_pub(pre, v, jmodel_seq(elems@, 0), i as int);
                }
                i = i + 1;
            }
            proof {
                crate::json::lemma_jmodel_seq(elems@, 0);
                assert(jmodel_seq(elems@, 0).take(n as int) =~= jmodel_seq(elems@, 0));
            }
            Json::Arr(out)
        },
        Json::Obj(fields) => {
            let n = fields.len();
            let mut out: Vec<(String, Json)> = Vec::new();
            let mut i: usize = 0;
            while i < n
                invariant
                    0 <= i <= n,
                    n == fields@.len(),
                    out@.len() == i,
                    crate::json::jmodel_fields(out@, 0) == crate::json::jmodel_fields(
                        fields@,
                        0,
                    ).take(i as int),
                decreases n - i,
            {
                proof {
                    assert(decreases_to!(*j => *fields));
                    assert(decreases_to!(*fields => fields@));
                    assert(decreases_to!(fields@ => fields@[i as int]));
                    assert(decreases_to!(fields@[i as int] => fields@[i as int].1));
                }
                let ghost pre = out@;
                let v = clone_json(&fields[i].1);
                let key = fields[i].0.clone();
                out.push((key, v));
                proof {
                    crate::json::lemma_jmodel_fields(fields@, 0);
                    lemma_jmodel_fields_push(pre, out@[i as int], crate::json::jmodel_fields(
                        fields@,
                        0,
                    ), i as int);
                }
                i = i + 1;
            }
            proof {
                crate::json::lemma_jmodel_fields(fields@, 0);
                assert(crate::json::jmodel_fields(fields@, 0).take(n as int)
                    =~= crate::json::jmodel_fields(fields@, 0));
            }
            Json::Obj(out)
        },
    }
}

/// Pushing one encoded element extends the modeled prefix by one.
pub proof fn lemma_jmodel_seq_push_pub(pre: Seq<Json>, x: Json, target: Seq<JsonV>, i: int)
    requires
        0 <= i < target.len(),
        pre.len() == i,
        jmodel_seq(pre, 0) == target.take(i),
        jmodel(x) == target[i],
    ensures
        jmodel_seq(pre.push(x), 0) == target.take(i + 1),
{
    crate::json::lemma_jmodel_seq(pre, 0);
    crate::json::lemma_jmodel_seq(pre.push(x), 0);
    assert forall|k: int| 0 <= k < i + 1 implies jmodel_seq(pre.push(x), 0)[k] == target.take(
        i + 1,
    )[k] by {
        if k < i {
            assert(pre.push(x)[k] == pre[k]);
            assert(jmodel_seq(pre, 0)[k] == target.take(i)[k]);
        } else {
            assert(pre.push(x)[k] == x);
        }
    }
    assert(jmodel_seq(pre.push(x), 0) =~= target.take(i + 1));
}

proof fn lemma_jmodel_fields_push(
    pre: Seq<(String, Json)>,
    x: (String, Json),
    target: Seq<(Seq<char>, JsonV)>,
    i: int,
)
    requires
        0 <= i < target.len(),
        pre.len() == i,
        crate::json::jmodel_fields(pre, 0) == target.take(i),
        (x.0@, jmodel(x.1)) == target[i],
    ensures
        crate::json::jmodel_fields(pre.push(x), 0) == target.take(i + 1),
{
    crate::json::lemma_jmodel_fields(pre, 0);
    crate::json::lemma_jmodel_fields(pre.push(x), 0);
    assert forall|k: int| 0 <= k < i + 1 implies crate::json::jmodel_fields(pre.push(x), 0)[k]
        == target.take(i + 1)[k] by {
        if k < i {
            assert(pre.push(x)[k] == pre[k]);
            assert(crate::json::jmodel_fields(pre, 0)[k] == target.take(i)[k]);
        } else {
            assert(pre.push(x)[k] == x);
        }
    }
    assert(crate::json::jmodel_fields(pre.push(x), 0) =~= target.take(i + 1));
}

proof fn lemma_tc_wire_models_index(tcs: Seq<ToolCall>, i: int, k: int)
    requires
        0 <= i <= k < tcs.len(),
    ensures
        tc_wire_models(tcs, i).len() == tcs.len() - i,
        tc_wire_models(tcs, i)[k - i] == tc_wire_model(tcs[k]),
    decreases tcs.len() - i,
{
    if i < k {
        lemma_tc_wire_models_index(tcs, i + 1, k);
        lemma_tc_wire_models_len(tcs, i + 1);
    } else {
        lemma_tc_wire_models_len(tcs, i + 1);
    }
}

proof fn lemma_tc_wire_models_len(tcs: Seq<ToolCall>, i: int)
    requires
        0 <= i <= tcs.len(),
    ensures
        tc_wire_models(tcs, i).len() == tcs.len() - i,
    decreases tcs.len() - i,
{
    if i < tcs.len() {
        lemma_tc_wire_models_len(tcs, i + 1);
    }
}

proof fn lemma_msg_wire_models_len(msgs: Seq<Message>, i: int)
    requires
        0 <= i <= msgs.len(),
    ensures
        msg_wire_models(msgs, i).len() == msgs.len() - i,
    decreases msgs.len() - i,
{
    if i < msgs.len() {
        lemma_msg_wire_models_len(msgs, i + 1);
    }
}

proof fn lemma_msg_wire_models_index(msgs: Seq<Message>, i: int, k: int)
    requires
        0 <= i <= k < msgs.len(),
    ensures
        msg_wire_models(msgs, i)[k - i] == msg_wire_model(msgs[k]),
    decreases msgs.len() - i,
{
    lemma_msg_wire_models_len(msgs, i + 1);
    if i < k {
        lemma_msg_wire_models_index(msgs, i + 1, k);
    }
}

proof fn lemma_schema_wire_models_len(tools: Seq<ToolSchema>, i: int)
    requires
        0 <= i <= tools.len(),
    ensures
        schema_wire_models(tools, i).len() == tools.len() - i,
    decreases tools.len() - i,
{
    if i < tools.len() {
        lemma_schema_wire_models_len(tools, i + 1);
    }
}

proof fn lemma_schema_wire_models_index(tools: Seq<ToolSchema>, i: int, k: int)
    requires
        0 <= i <= k < tools.len(),
    ensures
        schema_wire_models(tools, i)[k - i] == schema_wire_model(tools[k]),
    decreases tools.len() - i,
{
    lemma_schema_wire_models_len(tools, i + 1);
    if i < k {
        lemma_schema_wire_models_index(tools, i + 1, k);
    }
}

/// Build the OpenAI-compatible chat-completion request body.
#[verifier::loop_isolation(false)]
pub fn build_openai_compat_body(
    model: &str,
    messages: &Vec<Message>,
    tools: &Vec<ToolSchema>,
    max_output_tokens: Option<u32>,
) -> (r: Json)
    ensures
        jmodel(r) == openai_body_model(model@, messages@, tools@, max_output_tokens),
{
    let ghost base: Seq<(Seq<char>, JsonV)> = seq![
        ("model"@, JsonV::Str(model@)),
        ("stream"@, JsonV::Bool(true)),
        ("messages"@, JsonV::Arr(msg_wire_models(messages@, 0))),
    ];
    let ghost tools_seg: Seq<(Seq<char>, JsonV)> = if tools@.len() > 0 {
        seq![("tools"@, JsonV::Arr(schema_wire_models(tools@, 0)))]
    } else {
        Seq::empty()
    };
    let ghost max_seg: Seq<(Seq<char>, JsonV)> = match max_output_tokens {
        Some(mx) => seq![("max_tokens"@, JsonV::Num(dec_of(mx as nat)))],
        None => Seq::empty(),
    };
    let mut o: Vec<(String, Json)> = Vec::new();
    o.push(("model".to_owned(), Json::Str(model.to_owned())));
    o.push(("stream".to_owned(), Json::Bool(true)));

    let n = messages.len();
    let mut arr: Vec<Json> = Vec::new();
    let mut i: usize = 0;
    while i < n
        invariant
            0 <= i <= n,
            n == messages@.len(),
            arr@.len() == i,
            jmodel_seq(arr@, 0) == msg_wire_models(messages@, 0).take(i as int),
        decreases n - i,
    {
        let ghost pre = arr@;
        let v = message_to_json(&messages[i]);
        arr.push(v);
        proof {
            lemma_msg_wire_models_len(messages@, 0);
            lemma_msg_wire_models_index(messages@, 0, i as int);
            lemma_jmodel_seq_push_pub(pre, v, msg_wire_models(messages@, 0), i as int);
        }
        i = i + 1;
    }
    proof {
        lemma_msg_wire_models_len(messages@, 0);
        assert(msg_wire_models(messages@, 0).take(n as int) =~= msg_wire_models(messages@, 0));
    }
    o.push(("messages".to_owned(), Json::Arr(arr)));
    proof {
        crate::json::lemma_jmodel_fields(o@, 0);
        assert(crate::json::jmodel_fields(o@, 0) =~= base);
    }
    if tools.len() > 0 {
        let tn = tools.len();
        let mut tarr: Vec<Json> = Vec::new();
        let mut k: usize = 0;
        while k < tn
            invariant
                0 <= k <= tn,
                tn == tools@.len(),
                tarr@.len() == k,
                jmodel_seq(tarr@, 0) == schema_wire_models(tools@, 0).take(k as int),
            decreases tn - k,
        {
            let ghost pre = tarr@;
            let v = schema_to_json(&tools[k]);
            tarr.push(v);
            proof {
                lemma_schema_wire_models_len(tools@, 0);
                lemma_schema_wire_models_index(tools@, 0, k as int);
                lemma_jmodel_seq_push_pub(pre, v, schema_wire_models(tools@, 0), k as int);
            }
            k = k + 1;
        }
        proof {
            lemma_schema_wire_models_len(tools@, 0);
            assert(schema_wire_models(tools@, 0).take(tn as int) =~= schema_wire_models(
                tools@,
                0,
            ));
        }
        o.push(("tools".to_owned(), Json::Arr(tarr)));
        proof {
            crate::json::lemma_jmodel_fields(o@, 0);
            assert(crate::json::jmodel_fields(o@, 0) =~= base + tools_seg);
        }
    } else {
        proof {
            assert(crate::json::jmodel_fields(o@, 0) =~= base + tools_seg);
        }
    }
    match max_output_tokens {
        Some(m) => {
            o.push(("max_tokens".to_owned(), Json::Num(u64_to_string(m as u64))));
            proof {
                crate::json::lemma_jmodel_fields(o@, 0);
                assert(crate::json::jmodel_fields(o@, 0) =~= (base + tools_seg) + max_seg);
            }
        },
        None => {
            proof {
                assert(crate::json::jmodel_fields(o@, 0) =~= (base + tools_seg) + max_seg);
            }
        },
    }
    let r = Json::Obj(o);
    proof {
        assert(openai_body_model(model@, messages@, tools@, max_output_tokens)->Obj_0 == (base
            + tools_seg) + max_seg);
    }
    r
}

// ---------------------------------------------------------------------------
// Streaming deltas
// ---------------------------------------------------------------------------

/// The model of one tool call: id, type, function name, arguments.
pub type ToolCallModel = (Seq<char>, Seq<char>, Seq<char>, Seq<char>);

/// The model of a tool call value.
pub open spec fn tcmodel(t: ToolCall) -> ToolCallModel {
    (t.id@, t.tool_type@, t.function.name@, t.function.arguments@)
}

/// The model of a chunk.
pub enum ChunkV {
    TokenV(Seq<char>),
    CallsV(Seq<ToolCallModel>),
    DoneV,
}

/// The model of a chunk value.
pub open spec fn chunkmodel(c: LLMChunk) -> ChunkV {
    match c {
        LLMChunk::Token(s) => ChunkV::TokenV(s@),
        LLMChunk::ToolCalls(tcs) => ChunkV::CallsV(tcs@.map_values(|t: ToolCall| tcmodel(t))),
        LLMChunk::Done => ChunkV::DoneV,
    }
}

/// The string under `key`, or `dflt` when absent or not a string.
pub open spec fn str_or(v: JsonV, key: Seq<char>, dflt: Seq<char>) -> Seq<char> {
    match jlookup(v, key) {
        Some(JsonV::Str(s)) => s,
        _ => dflt,
    }
}

/// The `delta` of the first choice, or `null` when the shape differs.
pub open spec fn delta_of(v: JsonV) -> JsonV {
    match jlookup(v, "choices"@) {
        Some(JsonV::Arr(cs)) => if cs.len() > 0 {
            match jlookup(cs[0], "delta"@) {
                Some(d) => d,
                None => JsonV::Null,
            }
        } else {
            JsonV::Null
        },
        _ => JsonV::Null,
    }
}

/// One tool-call delta element: absent id or name become empty, an absent
/// type becomes `function`, and absent arguments become the empty string.
pub open spec fn tc_elem_spec(e: JsonV) -> ToolCallModel {
    let f = match jlookup(e, "function"@) {
        Some(x) => x,
        None => JsonV::Null,
    };
    (
        str_or(e, "id"@, Seq::empty()),
        str_or(e, "type"@, "function"@),
        str_or(f, "name"@, Seq::empty()),
        str_or(f, "arguments"@, Seq::empty()),
    )
}

/// What one parsed delta document yields: the content as a token when
/// present, else the tool-call deltas, else an empty token.
pub open spec fn openai_delta_chunk(v: JsonV) -> ChunkV {
    let d = delta_of(v);
    match jlookup(d, "content"@) {
        Some(JsonV::Str(s)) => ChunkV::TokenV(s),
        _ => match jlookup(d, "tool_calls"@) {
            Some(JsonV::Arr(es)) => ChunkV::CallsV(es.map_values(|e: JsonV| tc_elem_spec(e))),
            _ => ChunkV::TokenV(Seq::empty()),
        },
    }
}

/// The string under `key` of `j`, or `dflt` when absent or not a string.
pub fn get_str_or(j: &Json, key: &str, dflt: &str) -> (r: String)
    ensures
        r@ == str_or(jmodel(*j), key@, dflt@),
{
    match j.get(key) {
        Some(x) => match x.as_str() {
            Some(s) => s.clone(),
            None => dflt.to_owned(),
        },
        None => dflt.to_owned(),
    }
}

fn tool_call_from_json(e: &Json) -> (r: ToolCall)
    ensures
        tcmodel(r) == tc_elem_spec(jmodel(*e)),
{
    let id = get_str_or(e, "id", "");
    let tool_type = get_str_or(e, "type", "function");
    let null = Json::Null;
    let (name, arguments) = match e.get("function") {
        Some(f) => (get_str_or(f, "name", ""), get_str_or(f, "arguments", "")),
        None => (get_str_or(&null, "name", ""), get_str_or(&null, "arguments", "")),
    };
    proof {
        reveal_strlit("");
    }
    ToolCall { id, tool_type, function: FunctionCall { name, arguments } }
}

/// Decode one parsed streaming delta into a chunk.
#[verifier::loop_isolation(false)]
pub fn openai_chunk_from_json(j: &Json) -> (r: LLMChunk)
    ensures
        chunkmodel(r) == openai_delta_chunk(jmodel(*j)),
{
    let null = Json::Null;
    let delta: &Json = match j.get("choices") {
        Some(c) => match c.as_array() {
            Some(cs) => if cs.len() > 0 {
                match cs[0].get("delta") {
                    Some(d) => {
                        proof {
                            crate::json::lemma_jmodel_seq(cs@, 0);
                        }
                        d
                    },
                    None => {
                        proof {
                            crate::json::lemma_jmodel_seq(cs@, 0);
                        }
                        &null
                    },
                }
            } else {
                &null
            },
            None => &null,
        },
        None => &null,
    };
    match delta.get("content") {
        Some(x) => match x.as_str() {
            Some(s) => {
                return LLMChunk::Token(s.clone());
            },
            None => {},
        },
        None => {},
    }
    match delta.get("tool_calls") {
        Some(t) => match t.as_array() {
            Some(es) => {
                let n = es.len();
                let mut out: Vec<ToolCall> = Vec::new();
                let ghost target = jmodel_seq(es@, 0).map_values(|e: JsonV| tc_elem_spec(e));
                proof {
                    crate::json::lemma_jmodel_seq(es@, 0);
                }
                let mut i: usize = 0;
                while i < n
                    invariant
                        0 <= i <= n,
                        n == es@.len(),
                        out@.len() == i,
                        out@.map_values(|t: ToolCall| tcmodel(t)) == target.take(i as int),
                    decreases n - i,
                {
                    out.push(tool_call_from_json(&es[i]));
                    proof {
                        assert(out@.map_values(|t: ToolCall| tcmodel(t)) =~= target.take(
                            i as int + 1,
                        ));
                    }
                    i = i + 1;
                }
                proof {
                    assert(target.take(n as int) =~= target);
                }
                return LLMChunk::ToolCalls(out);
            },
            None => {},
        },
        None => {},
    }
    LLMChunk::Token(String::new())
}

/// What one SSE `data:` payload of an OpenAI-compatible stream yields:
/// `[DONE]`, with any surrounding whitespace, ends the stream; a payload
/// that spells a JSON document yields exactly its chunk; anything else
/// is a stream error.
pub open spec fn spec_openai_data(data: Seq<char>) -> Result<ChunkV, ()> {
    if spec_trim(data) == "[DONE]"@ {
        Ok(ChunkV::DoneV)
    } else {
        match crate::parse::sp_doc(data) {
            Some(v) => Ok(openai_delta_chunk(v)),
            None => Err(()),
        }
    }
}

/// Decode one SSE `data:` payload from an OpenAI-compatible stream,
/// exactly as [`spec_openai_data`] reads it.
pub fn parse_openai_compat_sse_data_strict(data: &str) -> (r: Result<LLMChunk, LLMError>)
    ensures
        r == Ok::<LLMChunk, LLMError>(LLMChunk::Done) <==> spec_trim(data@) == "[DONE]"@,
        r matches Ok(c) ==> spec_openai_data(data@) == Ok::<ChunkV, ()>(chunkmodel(c)),
        r matches Err(e) ==> e is Stream && spec_openai_data(data@) == Err::<ChunkV, ()>(()),
{
    let cs = str_to_chars(data);
    let trimmed = trim_chars(&cs);
    if chars_eq_str(&trimmed, "[DONE]") {
        return Ok(LLMChunk::Done);
    }
    match parse_json_chars(&cs) {
        Some(j) => {
            let c = openai_chunk_from_json(&j);
            proof {
                assert(!(c is Done));
            }
            Ok(c)
        },
        None => Err(LLMError::Stream("invalid JSON in stream data".to_owned())),
    }
}

} // verus!
