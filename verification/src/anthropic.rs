//! The Anthropic re-encoder: turns a provider-neutral chunk stream into
//! the Anthropic Messages event sequence, and into legacy completion
//! events.

use vstd::prelude::*;

use crate::json::{jmodel, jmodel_fields, Json, JsonV};
use crate::llm::LLMChunk;
use crate::openai::{chunkmodel, ChunkV};
use crate::strutil::{chars_to_string, dec_of, push_str_chars};

verus! {

broadcast use {vstd::seq::axiom_seq_index_decreases, vstd::std_specs::vec::axiom_vec_decreases_to_view};

/// One event of the Anthropic Messages stream, as the encoder means it.
pub enum AEventV {
    MessageStart { id: Seq<char>, model: Seq<char> },
    BlockStartText { index: u64 },
    TextDelta { index: u64, text: Seq<char> },
    BlockStartTool { index: u64, id: Seq<char>, name: Seq<char> },
    InputJsonDelta { index: u64, partial_json: Seq<char> },
    BlockStop { index: u64 },
    MessageDelta,
    MessageStop,
}

/// The wire name of an event.
pub open spec fn aevent_name(e: AEventV) -> Seq<char> {
    match e {
        AEventV::MessageStart { .. } => "message_start"@,
        AEventV::BlockStartText { .. } => "content_block_start"@,
        AEventV::TextDelta { .. } => "content_block_delta"@,
        AEventV::BlockStartTool { .. } => "content_block_start"@,
        AEventV::InputJsonDelta { .. } => "content_block_delta"@,
        AEventV::BlockStop { .. } => "content_block_stop"@,
        AEventV::MessageDelta => "message_delta"@,
        AEventV::MessageStop => "message_stop"@,
    }
}

/// The wire payload of an event.
pub open spec fn aevent_wire(e: AEventV) -> JsonV {
    match e {
        AEventV::MessageStart { id, model } => JsonV::Obj(
            seq![
                ("type"@, JsonV::Str("message_start"@)),
                (
                    "message"@,
                    JsonV::Obj(
                        seq![
                            ("id"@, JsonV::Str(id)),
                            ("type"@, JsonV::Str("message"@)),
                            ("role"@, JsonV::Str("assistant"@)),
                            ("model"@, JsonV::Str(model)),
                        ],
                    ),
                ),
            ],
        ),
        AEventV::BlockStartText { index } => JsonV::Obj(
            seq![
                ("type"@, JsonV::Str("content_block_start"@)),
                ("index"@, JsonV::Num(dec_of(index as nat))),
                (
                    "content_block"@,
                    JsonV::Obj(
                        seq![("type"@, JsonV::Str("text"@)), ("text"@, JsonV::Str(Seq::empty()))],
                    ),
                ),
            ],
        ),
        AEventV::TextDelta { index, text } => JsonV::Obj(
            seq![
                ("type"@, JsonV::Str("content_block_delta"@)),
                ("index"@, JsonV::Num(dec_of(index as nat))),
                (
                    "delta"@,
                    JsonV::Obj(
                        seq![("type"@, JsonV::Str("text_delta"@)), ("text"@, JsonV::Str(text))],
                    ),
                ),
            ],
        ),
        AEventV::BlockStartTool { index, id, name } => JsonV::Obj(
            seq![
                ("type"@, JsonV::Str("content_block_start"@)),
                ("index"@, JsonV::Num(dec_of(index as nat))),
                (
                    "content_block"@,
                    JsonV::Obj(
                        seq![
                            ("type"@, JsonV::Str("tool_use"@)),
                            ("id"@, JsonV::Str(id)),
                            ("name"@, JsonV::Str(name)),
                            ("input"@, JsonV::Obj(Seq::empty())),
                        ],
                    ),
                ),
            ],
        ),
        AEventV::InputJsonDelta { index, partial_json } => JsonV::Obj(
            seq![
                ("type"@, JsonV::Str("content_block_delta"@)),
                ("index"@, JsonV::Num(dec_of(index as nat))),
                (
                    "delta"@,
                    JsonV::Obj(
                        seq![
                            ("type"@, JsonV::Str("input_json_delta"@)),
                            ("partial_json"@, JsonV::Str(partial_json)),
                        ],
                    ),
                ),
            ],
        ),
        AEventV::BlockStop { index } => JsonV::Obj(
            seq![
                ("type"@, JsonV::Str("content_block_stop"@)),
                ("index"@, JsonV::Num(dec_of(index as nat))),
            ],
        ),
        AEventV::MessageDelta => JsonV::Obj(
            seq![
                ("type"@, JsonV::Str("message_delta"@)),
                ("delta"@, JsonV::Obj(seq![("stop_reason"@, JsonV::Str("end_turn"@))])),
            ],
        ),
        AEventV::MessageStop => JsonV::Obj(seq![("type"@, JsonV::Str("message_stop"@))]),
    }
}

/// One emitted event: its wire name and payload.
#[derive(Debug)]
pub struct AnthropicEvent {
    pub name: String,
    pub data: Json,
}

/// Whether an emitted event realizes the given meant event.
pub open spec fn realizes(ev: AnthropicEvent, m: AEventV) -> bool {
    ev.name@ == aevent_name(m) && jmodel(ev.data) == aevent_wire(m)
}

/// Whether the emitted events realize the meant ones, one for one.
pub open spec fn realizes_seq(evs: Seq<AnthropicEvent>, ms: Seq<AEventV>) -> bool {
    evs.len() == ms.len() && forall|k: int|
        0 <= k < ms.len() ==> realizes(#[trigger] evs[k], ms[k])
}

// ---------------------------------------------------------------------------
// The encoder state machine
// ---------------------------------------------------------------------------

/// Encoder state: whether a text block is open and under which index, and
/// the next free block index.
pub struct AnthropicStreamEncoder {
    pub text_open: bool,
    pub text_index: u64,
    pub next_index: u64,
}

/// The next free index, saturating at the ceiling.
pub open spec fn abump(n: u64) -> u64 {
    if n < u64::MAX {
        (n + 1) as u64
    } else {
        n
    }
}

/// The state of the encoder as a value.
pub open spec fn enc_state(e: AnthropicStreamEncoder) -> (bool, u64, u64) {
    (e.text_open, e.text_index, e.next_index)
}

/// What one chunk makes the encoder emit, and the state after it.
pub open spec fn spec_encode_chunk(st: (bool, u64, u64), c: ChunkV) -> (
    Seq<AEventV>,
    (bool, u64, u64),
) {
    match c {
        ChunkV::TokenV(t) => {
            if !st.0 {
                (
                    seq![
                        AEventV::BlockStartText { index: st.2 },
                        AEventV::TextDelta { index: st.2, text: t },
                    ],
                    (true, st.2, abump(st.2)),
                )
            } else {
                (seq![AEventV::TextDelta { index: st.1, text: t }], st)
            }
        },
        ChunkV::CallsV(tcs) => (spec_encode_calls(tcs, st.2), (st.0, st.1, bump_n(st.2, tcs.len())),
        ),
        ChunkV::DoneV => (seq![AEventV::MessageDelta, AEventV::MessageStop], st),
    }
}

/// The index counter after allocating `n` blocks.
pub open spec fn bump_n(i: u64, n: nat) -> u64
    decreases n,
{
    if n == 0 {
        i
    } else {
        bump_n(abump(i), (n - 1) as nat)
    }
}

/// The three events of each tool call, indexes counting up from `idx`.
pub open spec fn spec_encode_calls(tcs: Seq<crate::openai::ToolCallModel>, idx: u64) -> Seq<AEventV>
    decreases tcs.len(),
{
    if tcs.len() == 0 {
        Seq::empty()
    } else {
        let t = tcs[0];
        seq![
            AEventV::BlockStartTool { index: idx, id: t.0, name: t.2 },
            AEventV::InputJsonDelta { index: idx, partial_json: t.3 },
            AEventV::BlockStop { index: idx },
        ] + spec_encode_calls(tcs.drop_first(), abump(idx))
    }
}

// ---------------------------------------------------------------------------
// Event payload builders
// ---------------------------------------------------------------------------

fn two_fields(k1: &str, v1: Json, k2: &str, v2: Json) -> (r: Json)
    ensures
        jmodel(r) == JsonV::Obj(seq![(k1@, jmodel(v1)), (k2@, jmodel(v2))]),
{
    let mut o: Vec<(String, Json)> = Vec::new();
    o.push((k1.to_owned(), v1));
    o.push((k2.to_owned(), v2));
    proof {
        crate::json::lemma_jmodel_fields(o@, 0);
        assert(jmodel_fields(o@, 0) =~= seq![(k1@, jmodel(o@[0].1)), (k2@, jmodel(o@[1].1))]);
    }
    Json::Obj(o)
}

fn three_fields(k1: &str, v1: Json, k2: &str, v2: Json, k3: &str, v3: Json) -> (r: Json)
    ensures
        jmodel(r) == JsonV::Obj(
            seq![(k1@, jmodel(v1)), (k2@, jmodel(v2)), (k3@, jmodel(v3))],
        ),
{
    let mut o: Vec<(String, Json)> = Vec::new();
    o.push((k1.to_owned(), v1));
    o.push((k2.to_owned(), v2));
    o.push((k3.to_owned(), v3));
    proof {
        crate::json::lemma_jmodel_fields(o@, 0);
        assert(jmodel_fields(o@, 0) =~= seq![
            (k1@, jmodel(o@[0].1)),
            (k2@, jmodel(o@[1].1)),
            (k3@, jmodel(o@[2].1)),
        ]);
    }
    Json::Obj(o)
}

fn one_field(k1: &str, v1: Json) -> (r: Json)
    ensures
        jmodel(r) == JsonV::Obj(seq![(k1@, jmodel(v1))]),
{
    let mut o: Vec<(String, Json)> = Vec::new();
    o.push((k1.to_owned(), v1));
    proof {
        crate::json::lemma_jmodel_fields(o@, 0);
        assert(jmodel_fields(o@, 0) =~= seq![(k1@, jmodel(o@[0].1))]);
    }
    Json::Obj(o)
}

fn four_fields(k1: &str, v1: Json, k2: &str, v2: Json, k3: &str, v3: Json, k4: &str, v4: Json) -> (r:
    Json)
    ensures
        jmodel(r) == JsonV::Obj(
            seq![(k1@, jmodel(v1)), (k2@, jmodel(v2)), (k3@, jmodel(v3)), (k4@, jmodel(v4))],
        ),
{
    let mut o: Vec<(String, Json)> = Vec::new();
    o.push((k1.to_owned(), v1));
    o.push((k2.to_owned(), v2));
    o.push((k3.to_owned(), v3));
    o.push((k4.to_owned(), v4));
    proof {
        crate::json::lemma_jmodel_fields(o@, 0);
        assert(jmodel_fields(o@, 0) =~= seq![
            (k1@, jmodel(o@[0].1)),
            (k2@, jmodel(o@[1].1)),
            (k3@, jmodel(o@[2].1)),
            (k4@, jmodel(o@[3].1)),
        ]);
    }
    Json::Obj(o)
}

fn empty_obj() -> (r: Json)
    ensures
        jmodel(r) == JsonV::Obj(Seq::empty()),
{
    let o: Vec<(String, Json)> = Vec::new();
    proof {
        crate::json::lemma_jmodel_fields(o@, 0);
        assert(jmodel_fields(o@, 0) =~= Seq::<(Seq<char>, JsonV)>::empty());
    }
    Json::Obj(o)
}

fn num_of_u64(n: u64) -> (r: Json)
    ensures
        jmodel(r) == JsonV::Num(dec_of(n as nat)),
{
    Json::Num(crate::strutil::u64_to_string(n))
}

/// The opening `message_start` event.
pub fn anthropic_message_start(id: &str, model: &str) -> (r: AnthropicEvent)
    ensures
        realizes(r, AEventV::MessageStart { id: id@, model: model@ }),
{
    let message = four_fields(
        "id",
        Json::Str(id.to_owned()),
        "type",
        Json::Str("message".to_owned()),
        "role",
        Json::Str("assistant".to_owned()),
        "model",
        Json::Str(model.to_owned()),
    );
    let data = two_fields("type", Json::Str("message_start".to_owned()), "message", message);
    AnthropicEvent { name: "message_start".to_owned(), data }
}

fn encode_one(m: Ghost<AEventV>, name: &str, data: Json) -> (r: AnthropicEvent)
    requires
        name@ == aevent_name(m@),
        jmodel(data) == aevent_wire(m@),
    ensures
        realizes(r, m@),
{
    AnthropicEvent { name: name.to_owned(), data }
}

/// Encode one chunk, advancing the block bookkeeping.
#[verifier::loop_isolation(false)]
pub fn anthropic_encode_chunk(enc: &mut AnthropicStreamEncoder, c: &LLMChunk) -> (r: Vec<
    AnthropicEvent,
>)
    ensures
        ({
            let spec_r = spec_encode_chunk(enc_state(*old(enc)), chunkmodel(*c));
            realizes_seq(r@, spec_r.0) && enc_state(*final(enc)) == spec_r.1
        }),
{
    let mut out: Vec<AnthropicEvent> = Vec::new();
    match c {
        LLMChunk::Token(t) => {
            if !enc.text_open {
                let idx = enc.next_index;
                let block = two_fields(
                    "type",
                    Json::Str("text".to_owned()),
                    "text",
                    Json::Str(String::new()),
                );
                let data = three_fields(
                    "type",
                    Json::Str("content_block_start".to_owned()),
                    "index",
                    num_of_u64(idx),
                    "content_block",
                    block,
                );
                out.push(
                    encode_one(
                        Ghost(AEventV::BlockStartText { index: idx }),
                        "content_block_start",
                        data,
                    ),
                );
                enc.text_open = true;
                enc.text_index = idx;
                if enc.next_index < u64::MAX {
                    enc.next_index = enc.next_index + 1;
                }
                let delta = two_fields(
                    "type",
                    Json::Str("text_delta".to_owned()),
                    "text",
                    Json::Str(t.clone()),
                );
                let data2 = three_fields(
                    "type",
                    Json::Str("content_block_delta".to_owned()),
                    "index",
                    num_of_u64(idx),
                    "delta",
                    delta,
                );
                out.push(
                    encode_one(
                        Ghost(AEventV::TextDelta { index: idx, text: t@ }),
                        "content_block_delta",
                        data2,
                    ),
                );
            } else {
                let idx = enc.text_index;
                let delta = two_fields(
                    "type",
                    Json::Str("text_delta".to_owned()),
                    "text",
                    Json::Str(t.clone()),
                );
                let data2 = three_fields(
                    "type",
                    Json::Str("content_block_delta".to_owned()),
                    "index",
                    num_of_u64(idx),
                    "delta",
                    delta,
                );
                out.push(
                    encode_one(
                        Ghost(AEventV::TextDelta { index: idx, text: t@ }),
                        "content_block_delta",
                        data2,
                    ),
                );
            }
        },
        LLMChunk::ToolCalls(tcs) => {
            let ghost tcms = tcs@.map_values(|t: crate::llm::ToolCall| crate::openai::tcmodel(t));
            let n = tcs.len();
            let mut i: usize = 0;
            while i < n
                invariant
                    0 <= i <= n,
                    n == tcs@.len(),
                    tcms.len() == n,
                    forall|k: int| 0 <= k < n ==> tcms[k] == crate::openai::tcmodel(tcs@[k]),
                    out@.len() == 3 * i,
                    enc.text_open == old(enc).text_open,
                    enc.text_index == old(enc).text_index,
                    enc.next_index == bump_n(old(enc).next_index, i as nat),
                    realizes_seq(out@, spec_encode_calls(tcms.take(i as int), old(enc).next_index)),
                decreases n - i,
            {
                let idx = enc.next_index;
                let tc = &tcs[i];
                let block = four_fields(
                    "type",
                    Json::Str("tool_use".to_owned()),
                    "id",
                    Json::Str(tc.id.clone()),
                    "name",
                    Json::Str(tc.function.name.clone()),
                    "input",
                    empty_obj(),
                );
                let data = three_fields(
                    "type",
                    Json::Str("content_block_start".to_owned()),
                    "index",
                    num_of_u64(idx),
                    "content_block",
                    block,
                );
                out.push(
                    encode_one(
                        Ghost(
                            AEventV::BlockStartTool {
                                index: idx,
                                id: tc.id@,
                                name: tc.function.name@,
                            },
                        ),
                        "content_block_start",
                        data,
                    ),
                );
                let delta = two_fields(
                    "type",
                    Json::Str("input_json_delta".to_owned()),
                    "partial_json",
                    Json::Str(tc.function.arguments.clone()),
                );
                let data2 = three_fields(
                    "type",
                    Json::Str("content_block_delta".to_owned()),
                    "index",
                    num_of_u64(idx),
                    "delta",
                    delta,
                );
                out.push(
                    encode_one(
                        Ghost(
                            AEventV::InputJsonDelta {
                                index: idx,
                                partial_json: tc.function.arguments@,
                            },
                        ),
                        "content_block_delta",
                        data2,
                    ),
                );
                let data3 = two_fields(
                    "type",
                    Json::Str("content_block_stop".to_owned()),
                    "index",
                    num_of_u64(idx),
                );
                out.push(
                    encode_one(Ghost(AEventV::BlockStop { index: idx }), "content_block_stop", data3),
                );
                if enc.next_index < u64::MAX {
                    enc.next_index = enc.next_index + 1;
                }
                proof {
                    lemma_spec_encode_calls_step(tcms, i as int, old(enc).next_index);
                    assert(enc.next_index == bump_n(old(enc).next_index, (i + 1) as nat)) by {
                        lemma_bump_n_step(old(enc).next_index, i as nat);
                    }
                }
                i = i + 1;
            }
            proof {
                assert(tcms.take(n as int) =~= tcms);
            }
        },
        LLMChunk::Done => {
            let delta = one_field("stop_reason", Json::Str("end_turn".to_owned()));
            let data = two_fields(
                "type",
                Json::Str("message_delta".to_owned()),
                "delta",
                delta,
            );
            out.push(encode_one(Ghost(AEventV::MessageDelta), "message_delta", data));
            let data2 = one_field("type", Json::Str("message_stop".to_owned()));
            out.push(encode_one(Ghost(AEventV::MessageStop), "message_stop", data2));
        },
    }
    out
}

/// Walking the calls one block at a time matches the specification.
proof fn lemma_spec_encode_calls_step(tcms: Seq<crate::openai::ToolCallModel>, i: int, idx0: u64)
    requires
        0 <= i < tcms.len(),
    ensures
        spec_encode_calls(tcms.take(i + 1), idx0) == spec_encode_calls(tcms.take(i), idx0) + seq![
            AEventV::BlockStartTool {
                index: bump_n(idx0, i as nat),
                id: tcms[i].0,
                name: tcms[i].2,
            },
            AEventV::InputJsonDelta { index: bump_n(idx0, i as nat), partial_json: tcms[i].3 },
            AEventV::BlockStop { index: bump_n(idx0, i as nat) },
        ],
    decreases i,
{
    reveal_with_fuel(spec_encode_calls, 3);
    reveal_with_fuel(bump_n, 3);
    if i == 0 {
        assert(tcms.take(0) =~= Seq::<crate::openai::ToolCallModel>::empty());
        assert(tcms.take(1)[0] == tcms[0]);
        assert(tcms.take(1).drop_first() =~= Seq::<crate::openai::ToolCallModel>::empty());
        assert(spec_encode_calls(tcms.take(1), idx0) =~= spec_encode_calls(tcms.take(0), idx0)
            + seq![
            AEventV::BlockStartTool { index: idx0, id: tcms[0].0, name: tcms[0].2 },
            AEventV::InputJsonDelta { index: idx0, partial_json: tcms[0].3 },
            AEventV::BlockStop { index: idx0 },
        ]);
    } else {
        lemma_spec_encode_calls_step(tcms.drop_first(), i - 1, abump(idx0));
        assert(tcms.take(i + 1).drop_first() =~= tcms.drop_first().take(i));
        assert(tcms.take(i).drop_first() =~= tcms.drop_first().take(i - 1));
        assert(tcms.take(i + 1)[0] == tcms[0]);
        assert(tcms.take(i)[0] == tcms[0]);
        assert(tcms.drop_first()[i - 1] == tcms[i]);
        lemma_bump_n_shift(idx0, (i - 1) as nat);
        assert(spec_encode_calls(tcms.take(i + 1), idx0) =~= spec_encode_calls(tcms.take(i), idx0)
            + seq![
            AEventV::BlockStartTool {
                index: bump_n(idx0, i as nat),
                id: tcms[i].0,
                name: tcms[i].2,
            },
            AEventV::InputJsonDelta { index: bump_n(idx0, i as nat), partial_json: tcms[i].3 },
            AEventV::BlockStop { index: bump_n(idx0, i as nat) },
        ]);
    }
}

proof fn lemma_bump_n_step(idx0: u64, i: nat)
    ensures
        bump_n(idx0, (i + 1) as nat) == abump(bump_n(idx0, i)),
    decreases i,
{
    reveal_with_fuel(bump_n, 3);
    if i > 0 {
        lemma_bump_n_step(abump(idx0), (i - 1) as nat);
        assert(bump_n(idx0, (i + 1) as nat) == bump_n(abump(idx0), i));
        assert(bump_n(idx0, i) == bump_n(abump(idx0), (i - 1) as nat));
    }
}

proof fn lemma_bump_n_shift(idx0: u64, i: nat)
    ensures
        bump_n(abump(idx0), i) == bump_n(idx0, i + 1),
{
}

/// The closing raw line after `message_stop`.
pub fn anthropic_done_line() -> (r: String)
    ensures
        r@ == "data: [DONE]\n\n"@,
{
    "data: [DONE]\n\n".to_owned()
}

/// Render one event as its two SSE lines.
pub fn anthropic_event_text(ev: &AnthropicEvent) -> (r: String)
    ensures
        r@ == "event: "@ + ev.name@ + "\n"@ + "data: "@ + crate::json::jtext(jmodel(ev.data))
            + "\n\n"@,
{
    let mut out: Vec<char> = Vec::new();
    push_str_chars(&mut out, "event: ");
    push_str_chars(&mut out, ev.name.as_str());
    push_str_chars(&mut out, "\n");
    push_str_chars(&mut out, "data: ");
    let body = crate::json::json_to_string(&ev.data);
    push_str_chars(&mut out, body.as_str());
    push_str_chars(&mut out, "\n\n");
    chars_to_string(&out)
}

/// A legacy completion event: the token, the model, and a stop reason on
/// the final event.
pub fn anthropic_completion_event(token: &str, model: &str, stop: bool) -> (r: Json)
    ensures
        jmodel(r) == JsonV::Obj(
            seq![
                ("type"@, JsonV::Str("completion"@)),
                ("completion"@, JsonV::Str(token@)),
                ("model"@, JsonV::Str(model@)),
            ] + (if stop {
                seq![("stop_reason"@, JsonV::Str("stop_sequence"@))]
            } else {
                Seq::empty()
            }),
        ),
{
    let ghost tail: Seq<(Seq<char>, JsonV)> = if stop {
        seq![("stop_reason"@, JsonV::Str("stop_sequence"@))]
    } else {
        Seq::empty()
    };
    let mut o: Vec<(String, Json)> = Vec::new();
    o.push(("type".to_owned(), Json::Str("completion".to_owned())));
    o.push(("completion".to_owned(), Json::Str(token.to_owned())));
    o.push(("model".to_owned(), Json::Str(model.to_owned())));
    if stop {
        o.push(("stop_reason".to_owned(), Json::Str("stop_sequence".to_owned())));
        proof {
            crate::json::lemma_jmodel_fields(o@, 0);
            assert(jmodel_fields(o@, 0) =~= seq![
                ("type"@, JsonV::Str("completion"@)),
                ("completion"@, JsonV::Str(token@)),
                ("model"@, JsonV::Str(model@)),
            ] + tail);
        }
    } else {
        proof {
            crate::json::lemma_jmodel_fields(o@, 0);
            assert(jmodel_fields(o@, 0) =~= seq![
                ("type"@, JsonV::Str("completion"@)),
                ("completion"@, JsonV::Str(token@)),
                ("model"@, JsonV::Str(model@)),
            ] + tail);
        }
    }
    Json::Obj(o)
}

} // verus!

// The stream-level laws of the re-encoder.

verus! {

/// What a whole chunk stream makes the encoder emit.
pub open spec fn spec_encode_stream(st: (bool, u64, u64), chunks: Seq<ChunkV>) -> (
    Seq<AEventV>,
    (bool, u64, u64),
)
    decreases chunks.len(),
{
    if chunks.len() == 0 {
        (Seq::empty(), st)
    } else {
        let first = spec_encode_chunk(st, chunks[0]);
        let rest = spec_encode_stream(first.1, chunks.drop_first());
        (first.0 + rest.0, rest.1)
    }
}

/// The concatenated text of the `text_delta` events, in order.
pub open spec fn texts_of(events: Seq<AEventV>) -> Seq<char>
    decreases events.len(),
{
    if events.len() == 0 {
        Seq::empty()
    } else {
        (match events[0] {
            AEventV::TextDelta { text, .. } => text,
            _ => Seq::empty(),
        }) + texts_of(events.drop_first())
    }
}

/// The `partial_json` payloads of the `input_json_delta` events, in order.
pub open spec fn arg_deltas_of(events: Seq<AEventV>) -> Seq<Seq<char>>
    decreases events.len(),
{
    if events.len() == 0 {
        Seq::empty()
    } else {
        (match events[0] {
            AEventV::InputJsonDelta { partial_json, .. } => seq![partial_json],
            _ => Seq::empty(),
        }) + arg_deltas_of(events.drop_first())
    }
}

/// The concatenated token text of a chunk stream.
pub open spec fn concat_tokens(chunks: Seq<ChunkV>) -> Seq<char>
    decreases chunks.len(),
{
    if chunks.len() == 0 {
        Seq::empty()
    } else {
        (match chunks[0] {
            ChunkV::TokenV(t) => t,
            _ => Seq::empty(),
        }) + concat_tokens(chunks.drop_first())
    }
}

/// The argument strings of every tool call of a chunk stream, in order.
pub open spec fn call_args_of(chunks: Seq<ChunkV>) -> Seq<Seq<char>>
    decreases chunks.len(),
{
    if chunks.len() == 0 {
        Seq::empty()
    } else {
        (match chunks[0] {
            ChunkV::CallsV(tcs) => tcs.map_values(|t: crate::openai::ToolCallModel| t.3),
            _ => Seq::empty(),
        }) + call_args_of(chunks.drop_first())
    }
}

proof fn lemma_texts_of_concat(a: Seq<AEventV>, b: Seq<AEventV>)
    ensures
        texts_of(a + b) == texts_of(a) + texts_of(b),
        arg_deltas_of(a + b) == arg_deltas_of(a) + arg_deltas_of(b),
    decreases a.len(),
{
    if a.len() == 0 {
        assert(a + b =~= b);
        assert(texts_of(a) + texts_of(b) =~= texts_of(b));
        assert(arg_deltas_of(a) + arg_deltas_of(b) =~= arg_deltas_of(b));
    } else {
        lemma_texts_of_concat(a.drop_first(), b);
        assert((a + b).drop_first() =~= a.drop_first() + b);
        assert((a + b)[0] == a[0]);
        assert(texts_of(a + b) =~= texts_of(a) + texts_of(b));
        assert(arg_deltas_of(a + b) =~= arg_deltas_of(a) + arg_deltas_of(b));
    }
}

proof fn lemma_encode_calls_texts(tcs: Seq<crate::openai::ToolCallModel>, idx: u64)
    ensures
        texts_of(spec_encode_calls(tcs, idx)) == Seq::<char>::empty(),
        arg_deltas_of(spec_encode_calls(tcs, idx)) == tcs.map_values(
            |t: crate::openai::ToolCallModel| t.3,
        ),
    decreases tcs.len(),
{
    reveal_with_fuel(texts_of, 5);
    reveal_with_fuel(arg_deltas_of, 5);
    if tcs.len() == 0 {
        assert(tcs.map_values(|t: crate::openai::ToolCallModel| t.3)
            =~= Seq::<Seq<char>>::empty());
    } else {
        lemma_encode_calls_texts(tcs.drop_first(), abump(idx));
        let t = tcs[0];
        let head = seq![
            AEventV::BlockStartTool { index: idx, id: t.0, name: t.2 },
            AEventV::InputJsonDelta { index: idx, partial_json: t.3 },
            AEventV::BlockStop { index: idx },
        ];
        let rest = spec_encode_calls(tcs.drop_first(), abump(idx));
        lemma_texts_of_concat(head, rest);
        assert(head.drop_first().drop_first() =~= seq![AEventV::BlockStop { index: idx }]);
        assert(texts_of(head) =~= Seq::<char>::empty());
        assert(arg_deltas_of(head) =~= seq![t.3]);
        assert(texts_of(spec_encode_calls(tcs, idx)) =~= Seq::<char>::empty());
        assert(arg_deltas_of(spec_encode_calls(tcs, idx)) =~= tcs.map_values(
            |q: crate::openai::ToolCallModel| q.3,
        ));
    }
}

proof fn lemma_encode_chunk_texts(st: (bool, u64, u64), c: ChunkV)
    ensures
        texts_of(spec_encode_chunk(st, c).0) == (match c {
            ChunkV::TokenV(t) => t,
            _ => Seq::<char>::empty(),
        }),
        arg_deltas_of(spec_encode_chunk(st, c).0) == (match c {
            ChunkV::CallsV(tcs) => tcs.map_values(|t: crate::openai::ToolCallModel| t.3),
            _ => Seq::<Seq<char>>::empty(),
        }),
{
    reveal_with_fuel(texts_of, 4);
    reveal_with_fuel(arg_deltas_of, 4);
    match c {
        ChunkV::TokenV(t) => {
            if !st.0 {
                let evs = seq![
                    AEventV::BlockStartText { index: st.2 },
                    AEventV::TextDelta { index: st.2, text: t },
                ];
                assert(evs.drop_first() =~= seq![AEventV::TextDelta { index: st.2, text: t }]);
                assert(evs.drop_first().drop_first() =~= Seq::<AEventV>::empty());
                assert(texts_of(evs) =~= t);
                assert(arg_deltas_of(evs) =~= Seq::<Seq<char>>::empty());
            } else {
                let evs = seq![AEventV::TextDelta { index: st.1, text: t }];
                assert(evs.drop_first() =~= Seq::<AEventV>::empty());
                assert(texts_of(evs) =~= t);
                assert(arg_deltas_of(evs) =~= Seq::<Seq<char>>::empty());
            }
        },
        ChunkV::CallsV(tcs) => {
            lemma_encode_calls_texts(tcs, st.2);
        },
        ChunkV::DoneV => {
            let evs = seq![AEventV::MessageDelta, AEventV::MessageStop];
            assert(evs.drop_first() =~= seq![AEventV::MessageStop]);
            assert(evs.drop_first().drop_first() =~= Seq::<AEventV>::empty());
            assert(texts_of(evs) =~= Seq::<char>::empty());
            assert(arg_deltas_of(evs) =~= Seq::<Seq<char>>::empty());
        },
    }
}

/// Law: re-encoding a chunk stream as Anthropic events preserves the
/// concatenated token text exactly, and emits exactly one
/// `input_json_delta` per tool call, carrying its argument string, in
/// order.
pub proof fn lemma_encode_stream_preserves(st: (bool, u64, u64), chunks: Seq<ChunkV>)
    ensures
        texts_of(spec_encode_stream(st, chunks).0) == concat_tokens(chunks),
        arg_deltas_of(spec_encode_stream(st, chunks).0) == call_args_of(chunks),
    decreases chunks.len(),
{
    if chunks.len() == 0 {
    } else {
        let first = spec_encode_chunk(st, chunks[0]);
        lemma_encode_chunk_texts(st, chunks[0]);
        lemma_encode_stream_preserves(first.1, chunks.drop_first());
        lemma_texts_of_concat(first.0, spec_encode_stream(first.1, chunks.drop_first()).0);
        assert(texts_of(spec_encode_stream(st, chunks).0) =~= concat_tokens(chunks));
        assert(arg_deltas_of(spec_encode_stream(st, chunks).0) =~= call_args_of(chunks));
    }
}

} // verus!
