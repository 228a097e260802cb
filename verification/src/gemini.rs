//! The Gemini protocol translator: wire DTOs, conversions between the
//! internal chat model and Gemini contents, request building, streaming
//! response decoding with synthesized tool-call ids, and the re-encoder
//! that turns a chunk stream back into Gemini streaming frames.

use vstd::prelude::*;

use crate::json::{
    jlookup, jmodel, jmodel_fields, jmodel_seq, jtext, Json, JsonV,
};
use crate::llm::{FunctionCall, LLMChunk, Message, Role, ToolCall, ToolSchema};
use crate::openai::{chunkmodel, tcmodel, ChunkV, ToolCallModel};
use crate::strutil::{chars_to_string, dec_of, push_str_chars, push_u64};

verus! {

broadcast use {vstd::seq::axiom_seq_index_decreases, vstd::std_specs::vec::axiom_vec_decreases_to_view};

/// A Gemini function call carried in a part.
#[derive(Debug)]
pub struct GeminiFunctionCall {
    pub name: String,
    /// The arguments as a JSON object.
    pub args: Json,
}

/// One part of a Gemini content.
#[derive(Debug)]
pub struct GeminiPart {
    pub text: Option<String>,
    pub function_call: Option<GeminiFunctionCall>,
    pub function_response: Option<Json>,
}

/// One Gemini content: a role and its parts.
#[derive(Debug)]
pub struct GeminiContent {
    pub role: String,
    pub parts: Vec<GeminiPart>,
}

/// One candidate of a Gemini response.
#[derive(Debug)]
pub struct GeminiCandidate {
    pub content: GeminiContent,
    pub finish_reason: Option<String>,
}

/// A Gemini streaming response frame.
#[derive(Debug)]
pub struct GeminiResponse {
    pub candidates: Vec<GeminiCandidate>,
}

/// One function declaration inside a Gemini tool.
#[derive(Debug)]
pub struct GeminiFunctionDeclaration {
    pub name: String,
    pub description: Option<String>,
    pub parameters: Json,
}

/// A Gemini tool: a bundle of function declarations.
#[derive(Debug)]
pub struct GeminiTool {
    pub function_declarations: Vec<GeminiFunctionDeclaration>,
}

// ---------------------------------------------------------------------------
// Models
// ---------------------------------------------------------------------------

/// The model of one part.
#[verifier::ext_equal]
pub struct PartV {
    pub text: Option<Seq<char>>,
    pub function_call: Option<(Seq<char>, JsonV)>,
    pub function_response: Option<JsonV>,
}

/// The model of a part value.
pub open spec fn pmodel(p: GeminiPart) -> PartV {
    PartV {
        text: match p.text {
            Some(t) => Some(t@),
            None => None,
        },
        function_call: match p.function_call {
            Some(fc) => Some((fc.name@, jmodel(fc.args))),
            None => None,
        },
        function_response: match p.function_response {
            Some(fr) => Some(jmodel(fr)),
            None => None,
        },
    }
}

/// The models of `parts[i..]`.
pub open spec fn pmodels(parts: Seq<GeminiPart>, i: int) -> Seq<PartV>
    decreases parts.len() - i,
    when 0 <= i <= parts.len()
{
    if i >= parts.len() {
        Seq::empty()
    } else {
        seq![pmodel(parts[i])] + pmodels(parts, i + 1)
    }
}

pub proof fn lemma_pmodels(parts: Seq<GeminiPart>, i: int)
    requires
        0 <= i <= parts.len(),
    ensures
        pmodels(parts, i).len() == parts.len() - i,
        forall|k: int| 0 <= k < parts.len() - i ==> #[trigger] pmodels(parts, i)[k] == pmodel(
            parts[k + i],
        ),
    decreases parts.len() - i,
{
    if i < parts.len() {
        lemma_pmodels(parts, i + 1);
    }
}

/// The model of one content.
#[verifier::ext_equal]
pub struct ContentV {
    pub role: Seq<char>,
    pub parts: Seq<PartV>,
}

/// The model of a content value.
pub open spec fn cmodel(c: GeminiContent) -> ContentV {
    ContentV { role: c.role@, parts: pmodels(c.parts@, 0) }
}

/// A part holding only text.
pub open spec fn text_part(t: Seq<char>) -> PartV {
    PartV { text: Some(t), function_call: None, function_response: None }
}

/// A part holding only a function call.
pub open spec fn call_part(name: Seq<char>, args: JsonV) -> PartV {
    PartV { text: None, function_call: Some((name, args)), function_response: None }
}

// ---------------------------------------------------------------------------
// Internal messages to Gemini contents
// ---------------------------------------------------------------------------

/// The parts an assistant message turns into: its text, if any, then one
/// function call per tool call, with arguments parsed back into objects;
/// arguments that are not JSON become the empty object.
pub open spec fn assistant_parts(m: Message, parsed_args: Seq<JsonV>) -> Seq<PartV> {
    (if m.content@.len() > 0 {
        seq![text_part(m.content@)]
    } else {
        Seq::empty()
    }) + (match m.tool_calls {
        Some(tcs) => Seq::new(tcs@.len(), |k: int| call_part(tcs@[k].function.name@, parsed_args[k])),
        None => Seq::empty(),
    })
}

/// The wire role of an internal role: the assistant is `model`, everything
/// else speaks as `user`.
pub open spec fn gemini_role(r: Role) -> Seq<char> {
    if r == Role::Assistant {
        "model"@
    } else {
        "user"@
    }
}

/// The argument document an argument string carries: its parse when the
/// text spells a JSON document, the empty object otherwise.
pub open spec fn args_doc(text: Seq<char>) -> JsonV {
    match crate::parse::sp_doc(text) {
        Some(v) => v,
        None => JsonV::Obj(Seq::empty()),
    }
}

/// The argument documents of a list of tool calls, in order.
pub open spec fn parsed_args_of(calls: Seq<ToolCall>) -> Seq<JsonV> {
    calls.map_values(|t: ToolCall| args_doc(t.function.arguments@))
}

/// Parse a tool call's argument string; text that is not a JSON document
/// becomes the empty object.
pub fn parse_args_or_empty(arguments: &str) -> (r: Json)
    ensures
        jmodel(r) == args_doc(arguments@),
        crate::json::wf_json(jmodel(r)),
{
    match crate::parse::parse_json_text(arguments) {
        Some(j) => j,
        None => {
            let o: Vec<(String, Json)> = Vec::new();
            proof {
                crate::json::lemma_jmodel_fields(o@, 0);
                assert(jmodel_fields(o@, 0) =~= Seq::<(Seq<char>, JsonV)>::empty());
            }
            Json::Obj(o)
        },
    }
}

/// Convert one internal message to a Gemini content.
///
/// A user, system or tool message carries its text as one part; an
/// assistant message carries its text, when non-empty, and one function
/// call per tool call. The argument objects handed back are exactly the
/// parses of the tool calls' argument strings, the empty object where the
/// string is not JSON.
#[verifier::loop_isolation(false)]
pub fn message_to_gemini_content(m: &Message) -> (r: GeminiContent)
    ensures
        cmodel(r).role == gemini_role(m.role),
        m.role != Role::Assistant ==> cmodel(r).parts == seq![text_part(m.content@)],
        m.role == Role::Assistant ==> cmodel(r).parts == assistant_parts(
            *m,
            match m.tool_calls {
                Some(tcs) => parsed_args_of(tcs@),
                None => Seq::empty(),
            },
        ),
{
    let role: String = if matches!(m.role, Role::Assistant) {
        "model".to_owned()
    } else {
        "user".to_owned()
    };
    if !matches!(m.role, Role::Assistant) {
        let mut parts: Vec<GeminiPart> = Vec::new();
        parts.push(
            GeminiPart {
                text: Some(m.content.clone()),
                function_call: None,
                function_response: None,
            },
        );
        let r = GeminiContent { role, parts };
        proof {
            lemma_pmodels(r.parts@, 0);
            assert(cmodel(r).parts =~= seq![text_part(m.content@)]);
        }
        return r;
    }
    let mut parts: Vec<GeminiPart> = Vec::new();
    let ghost text_seg: Seq<PartV> = if m.content@.len() > 0 {
        seq![text_part(m.content@)]
    } else {
        Seq::empty()
    };
    if m.content.as_str().unicode_len() > 0 {
        parts.push(
            GeminiPart {
                text: Some(m.content.clone()),
                function_call: None,
                function_response: None,
            },
        );
    }
    proof {
        lemma_pmodels(parts@, 0);
        assert(pmodels(parts@, 0) =~= text_seg);
    }
    let ghost base_len = parts@.len() as int;
    let mut pa: Ghost<Seq<JsonV>> = Ghost(Seq::empty());
    match &m.tool_calls {
        Some(tcs) => {
            let n = tcs.len();
            let mut i: usize = 0;
            while i < n
                invariant
                    0 <= i <= n,
                    n == tcs@.len(),
                    parts@.len() == base_len + i,
                    pa@.len() == i,
                    forall|k: int| 0 <= k < i ==> #[trigger] pa@[k] == args_doc(
                        tcs@[k].function.arguments@,
                    ),
                    pmodels(parts@, 0) == text_seg + Seq::new(
                        i as nat,
                        |k: int| call_part(tcs@[k].function.name@, pa@[k]),
                    ),
                decreases n - i,
            {
                let ghost pre_parts = parts@;
                let ghost pre_pa = pa@;
                let args = parse_args_or_empty(tcs[i].function.arguments.as_str());
                proof {
                    pa@ = pa@.push(jmodel(args));
                }
                let part = GeminiPart {
                    text: None,
                    function_call: Some(
                        GeminiFunctionCall { name: tcs[i].function.name.clone(), args },
                    ),
                    function_response: None,
                };
                parts.push(part);
                proof {
                    assert(pa@[i as int] == args_doc(tcs@[i as int].function.arguments@));
                }
                proof {
                    lemma_pmodels(pre_parts, 0);
                    lemma_pmodels(parts@, 0);
                    let pre_tail = Seq::new(i as nat, |q: int| call_part(
                        tcs@[q].function.name@,
                        pre_pa[q],
                    ));
                    let new_tail = Seq::new((i + 1) as nat, |q: int| call_part(
                        tcs@[q].function.name@,
                        pa@[q],
                    ));
                    assert forall|k: int| 0 <= k < base_len + i + 1 implies #[trigger] pmodels(
                        parts@,
                        0,
                    )[k] == (text_seg + new_tail)[k] by {
                        if k < base_len + i {
                            assert(parts@[k] == pre_parts[k]);
                            assert(pmodels(pre_parts, 0)[k] == pmodel(pre_parts[k]));
                            assert(pmodels(pre_parts, 0)[k] == (text_seg + pre_tail)[k]);
                            if k >= base_len {
                                assert(pre_tail[k - base_len] == call_part(
                                    tcs@[k - base_len].function.name@,
                                    pre_pa[k - base_len],
                                ));
                                assert(pa@[k - base_len] == pre_pa[k - base_len]);
                                assert(new_tail[k - base_len] == call_part(
                                    tcs@[k - base_len].function.name@,
                                    pa@[k - base_len],
                                ));
                            }
                        } else {
                            assert(parts@[k] == part);
                            assert(new_tail[i as int] == call_part(
                                tcs@[i as int].function.name@,
                                pa@[i as int],
                            ));
                        }
                    }
                    assert(pmodels(parts@, 0) =~= text_seg + new_tail);
                }
                i = i + 1;
            }
            let r = GeminiContent { role, parts };
            proof {
                assert(pa@ =~= parsed_args_of(tcs@));
                assert(Seq::new(n as nat, |k: int| call_part(tcs@[k].function.name@, pa@[k]))
                    =~= Seq::new(tcs@.len(), |k: int| call_part(tcs@[k].function.name@, pa@[k])));
                assert(cmodel(r).parts =~= assistant_parts(*m, parsed_args_of(tcs@)));
            }
            return r;
        },
        None => {
            let r = GeminiContent { role, parts };
            proof {
                assert(cmodel(r).parts =~= assistant_parts(*m, Seq::<JsonV>::empty()));
            }
            return r;
        },
    }
}

// ---------------------------------------------------------------------------
// Gemini contents to internal messages
// ---------------------------------------------------------------------------

/// The texts of the parts that carry text, in order.
pub open spec fn part_texts(parts: Seq<PartV>) -> Seq<Seq<char>>
    decreases parts.len(),
{
    if parts.len() == 0 {
        Seq::empty()
    } else {
        (match parts[0].text {
            Some(t) => seq![t],
            None => Seq::empty(),
        }) + part_texts(parts.drop_first())
    }
}

/// The function calls of the parts that carry one, in order: name and
/// serialized argument text.
pub open spec fn part_calls(parts: Seq<PartV>) -> Seq<(Seq<char>, Seq<char>)>
    decreases parts.len(),
{
    if parts.len() == 0 {
        Seq::empty()
    } else {
        (match parts[0].function_call {
            Some((name, args)) => seq![(name, jtext(args))],
            None => Seq::empty(),
        }) + part_calls(parts.drop_first())
    }
}

/// Text pieces joined without a separator.
pub open spec fn joined(texts: Seq<Seq<char>>) -> Seq<char>
    decreases texts.len(),
{
    if texts.len() == 0 {
        Seq::empty()
    } else {
        texts[0] + joined(texts.drop_first())
    }
}

/// Convert one Gemini content back to an internal message.
///
/// A `model` content becomes an assistant message, everything else a user
/// message. The text parts are joined into the content; each function
/// call becomes a tool call whose arguments string is the exact
/// serialization of the call's argument object, under the id
/// `call_{position}`.
#[verifier::loop_isolation(false)]
pub fn gemini_content_to_message(c: &GeminiContent) -> (r: Message)
    ensures
        r.role == (if cmodel(*c).role == "model"@ {
            Role::Assistant
        } else {
            Role::User
        }),
        r.content@ == joined(part_texts(cmodel(*c).parts)),
        ({
            let calls = part_calls(cmodel(*c).parts);
            match r.tool_calls {
                Some(tcs) => calls.len() > 0 && tcs@.len() == calls.len() && (forall|k: int|
                    0 <= k < calls.len() ==> (#[trigger] tcs@[k]).function.name@ == calls[k].0
                        && tcs@[k].function.arguments@ == calls[k].1 && tcs@[k].id@ == "call_"@
                        + dec_of(k as nat) && tcs@[k].tool_type@ == "function"@),
                None => calls.len() == 0,
            }
        }),
        r.tool_call_id is None,
{
    let role = if crate::strutil::string_eq_str(&c.role, "model") {
        Role::Assistant
    } else {
        Role::User
    };
    let ghost pm = pmodels(c.parts@, 0);
    proof {
        lemma_pmodels(c.parts@, 0);
    }
    let n = c.parts.len();
    let mut text: Vec<char> = Vec::new();
    let mut calls: Vec<ToolCall> = Vec::new();
    let mut i: usize = 0;
    while i < n
        invariant
            0 <= i <= n,
            n == c.parts@.len(),
            pm == pmodels(c.parts@, 0),
            pm.len() == n,
            forall|k: int| 0 <= k < n ==> pm[k] == pmodel(c.parts@[k]),
            text@ == joined(part_texts(pm.take(i as int))),
            ({
                let cs = part_calls(pm.take(i as int));
                calls@.len() == cs.len() && (forall|k: int|
                    0 <= k < cs.len() ==> (#[trigger] calls@[k]).function.name@ == cs[k].0
                        && calls@[k].function.arguments@ == cs[k].1 && calls@[k].id@ == "call_"@
                        + dec_of(k as nat) && calls@[k].tool_type@ == "function"@)
            }),
        decreases n - i,
    {
        proof {
            lemma_take_one_more(pm, i as int);
        }
        match &c.parts[i].text {
            Some(t) => {
                push_str_chars(&mut text, t.as_str());
            },
            None => {},
        }
        match &c.parts[i].function_call {
            Some(fc) => {
                let mut idc: Vec<char> = Vec::new();
                push_str_chars(&mut idc, "call_");
                push_u64(&mut idc, calls.len() as u64);
                let id = chars_to_string(&idc);
                let arguments = crate::json::json_to_string(&fc.args);
                calls.push(
                    ToolCall {
                        id,
                        tool_type: "function".to_owned(),
                        function: FunctionCall { name: fc.name.clone(), arguments },
                    },
                );
            },
            None => {},
        }
        proof {
            assert(text@ =~= joined(part_texts(pm.take(i as int + 1))));
            let cs = part_calls(pm.take(i as int + 1));
            assert(calls@.len() == cs.len());
        }
        i = i + 1;
    }
    proof {
        assert(pm.take(n as int) =~= pm);
    }
    let tool_calls = if calls.len() > 0 {
        Some(calls)
    } else {
        None
    };
    Message {
        role,
        content: chars_to_string(&text),
        tool_calls,
        tool_call_id: None,
    }
}

/// Appending one element extends the texts, calls and joined text by what
/// that element carries.
proof fn lemma_take_one_more(pm: Seq<PartV>, i: int)
    requires
        0 <= i < pm.len(),
    ensures
        part_texts(pm.take(i + 1)) == part_texts(pm.take(i)) + (match pm[i].text {
            Some(t) => seq![t],
            None => Seq::<Seq<char>>::empty(),
        }),
        part_calls(pm.take(i + 1)) == part_calls(pm.take(i)) + (match pm[i].function_call {
            Some((name, args)) => seq![(name, jtext(args))],
            None => Seq::<(Seq<char>, Seq<char>)>::empty(),
        }),
        joined(part_texts(pm.take(i + 1))) == joined(part_texts(pm.take(i))) + (
        match pm[i].text {
            Some(t) => t,
            None => Seq::<char>::empty(),
        }),
{
    lemma_snoc_texts(pm.take(i + 1));
    assert(pm.take(i + 1).drop_last() =~= pm.take(i));
    assert(pm.take(i + 1).last() == pm[i]);
    lemma_joined_snoc(part_texts(pm.take(i)), pm[i]);
}

/// `part_texts` and `part_calls` split around the last element.
proof fn lemma_snoc_texts(s: Seq<PartV>)
    requires
        s.len() > 0,
    ensures
        part_texts(s) == part_texts(s.drop_last()) + (match s.last().text {
            Some(t) => seq![t],
            None => Seq::<Seq<char>>::empty(),
        }),
        part_calls(s) == part_calls(s.drop_last()) + (match s.last().function_call {
            Some((name, args)) => seq![(name, jtext(args))],
            None => Seq::<(Seq<char>, Seq<char>)>::empty(),
        }),
    decreases s.len(),
{
    if s.len() == 1 {
        assert(s.drop_last() =~= Seq::<PartV>::empty());
        assert(part_texts(s.drop_last()) =~= Seq::<Seq<char>>::empty());
        assert(part_calls(s.drop_last()) =~= Seq::<(Seq<char>, Seq<char>)>::empty());
        assert(s.drop_first() =~= Seq::<PartV>::empty());
        assert(part_texts(s) =~= part_texts(s.drop_last()) + (match s.last().text {
            Some(t) => seq![t],
            None => Seq::<Seq<char>>::empty(),
        }));
        assert(part_calls(s) =~= part_calls(s.drop_last()) + (match s.last().function_call {
            Some((name, args)) => seq![(name, jtext(args))],
            None => Seq::<(Seq<char>, Seq<char>)>::empty(),
        }));
    } else {
        lemma_snoc_texts(s.drop_first());
        assert(s.drop_first().drop_last() =~= s.drop_last().drop_first());
        assert(s.drop_first().last() == s.last());
        assert(part_texts(s) == (match s[0].text {
            Some(t) => seq![t],
            None => Seq::<Seq<char>>::empty(),
        }) + part_texts(s.drop_first()));
        assert(part_texts(s) =~= part_texts(s.drop_last()) + (match s.last().text {
            Some(t) => seq![t],
            None => Seq::<Seq<char>>::empty(),
        }));
        assert(part_calls(s) =~= part_calls(s.drop_last()) + (match s.last().function_call {
            Some((name, args)) => seq![(name, jtext(args))],
            None => Seq::<(Seq<char>, Seq<char>)>::empty(),
        }));
    }
}

/// `joined` distributes over appending one more piece.
proof fn lemma_joined_snoc(texts: Seq<Seq<char>>, p: PartV)
    ensures
        joined(texts + (match p.text {
            Some(t) => seq![t],
            None => Seq::<Seq<char>>::empty(),
        })) == joined(texts) + (match p.text {
            Some(t) => t,
            None => Seq::<char>::empty(),
        }),
    decreases texts.len(),
{
    match p.text {
        Some(t) => {
            lemma_joined_push(texts, t);
        },
        None => {
            assert(texts + Seq::<Seq<char>>::empty() =~= texts);
            assert(joined(texts) + Seq::<char>::empty() =~= joined(texts));
        },
    }
}

proof fn lemma_joined_push(texts: Seq<Seq<char>>, t: Seq<char>)
    ensures
        joined(texts + seq![t]) == joined(texts) + t,
    decreases texts.len(),
{
    if texts.len() == 0 {
        assert(texts + seq![t] =~= seq![t]);
        assert((seq![t]).drop_first() =~= Seq::<Seq<char>>::empty());
        reveal_with_fuel(joined, 3);
        assert(t + Seq::<char>::empty() =~= t);
        assert(joined(seq![t]) =~= t);
        assert(joined(texts) + t =~= t);
    } else {
        lemma_joined_push(texts.drop_first(), t);
        assert((texts + seq![t]).drop_first() =~= texts.drop_first() + seq![t]);
        assert(joined(texts + seq![t]) =~= joined(texts) + t);
    }
}

/// Flatten the function declarations of Gemini tools into internal tool
/// schemas, in order.
#[verifier::loop_isolation(false)]
pub fn convert_gemini_tools(tools: &Option<Vec<GeminiTool>>) -> (r: Vec<ToolSchema>)
    ensures
        ({
            let decls = flat_decls(tools);
            r@.len() == decls.len() && (forall|k: int|
                0 <= k < decls.len() ==> (#[trigger] r@[k]).schema_type@ == "function"@
                    && r@[k].function.name@ == decls[k].0 && r@[k].function.description@
                    == decls[k].1 && jmodel(r@[k].function.parameters) == decls[k].2)
        }),
{
    let mut out: Vec<ToolSchema> = Vec::new();
    match tools {
        Some(ts) => {
            let tn = ts.len();
            let mut i: usize = 0;
            while i < tn
                invariant
                    0 <= i <= tn,
                    tn == ts@.len(),
                    ({
                        let decls = decls_upto(ts@, i as int);
                        out@.len() == decls.len() && (forall|k: int|
                            0 <= k < decls.len() ==> (#[trigger] out@[k]).schema_type@
                                == "function"@ && out@[k].function.name@ == decls[k].0
                                && out@[k].function.description@ == decls[k].1 && jmodel(
                                out@[k].function.parameters,
                            ) == decls[k].2)
                    }),
                decreases tn - i,
            {
                let dn = ts[i].function_declarations.len();
                let mut j: usize = 0;
                while j < dn
                    invariant
                        0 <= j <= dn,
                        0 <= i < tn,
                        tn == ts@.len(),
                        dn == ts@[i as int].function_declarations@.len(),
                        ({
                            let decls = decls_upto(ts@, i as int) + decls_of(
                                ts@[i as int].function_declarations@,
                            ).take(j as int);
                            out@.len() == decls.len() && (forall|k: int|
                                0 <= k < decls.len() ==> (#[trigger] out@[k]).schema_type@
                                    == "function"@ && out@[k].function.name@ == decls[k].0
                                    && out@[k].function.description@ == decls[k].1 && jmodel(
                                    out@[k].function.parameters,
                                ) == decls[k].2)
                        }),
                    decreases dn - j,
                {
                    let d = &ts[i].function_declarations[j];
                    let description = match &d.description {
                        Some(s) => s.clone(),
                        None => String::new(),
                    };
                    out.push(
                        ToolSchema {
                            schema_type: "function".to_owned(),
                            function: crate::llm::FunctionSchema {
                                name: d.name.clone(),
                                description,
                                parameters: crate::openai::clone_json(&d.parameters),
                            },
                        },
                    );
                    proof {
                        lemma_decls_of(ts@[i as int].function_declarations@);
                        assert(decls_of(ts@[i as int].function_declarations@).take(j as int + 1)
                            =~= decls_of(ts@[i as int].function_declarations@).take(j as int)
                            + seq![decl_model(ts@[i as int].function_declarations@[j as int])]);
                    }
                    j = j + 1;
                }
                proof {
                    lemma_decls_of(ts@[i as int].function_declarations@);
                    assert(decls_of(ts@[i as int].function_declarations@).take(dn as int)
                        =~= decls_of(ts@[i as int].function_declarations@));
                    assert(decls_upto(ts@, i as int + 1) =~= decls_upto(ts@, i as int) + decls_of(
                        ts@[i as int].function_declarations@,
                    ));
                }
                i = i + 1;
            }
            proof {
                assert(flat_decls(tools) =~= decls_upto(ts@, tn as int));
            }
        },
        None => {
            proof {
                assert(flat_decls(tools) =~= Seq::<(Seq<char>, Seq<char>, JsonV)>::empty());
            }
        },
    }
    out
}

/// The model of one function declaration: name, description (empty when
/// absent), parameters.
pub open spec fn decl_model(d: GeminiFunctionDeclaration) -> (Seq<char>, Seq<char>, JsonV) {
    (
        d.name@,
        match d.description {
            Some(s) => s@,
            None => Seq::empty(),
        },
        jmodel(d.parameters),
    )
}

/// The declaration models of one tool's list.
pub open spec fn decls_of(ds: Seq<GeminiFunctionDeclaration>) -> Seq<(Seq<char>, Seq<char>, JsonV)> {
    ds.map_values(|d: GeminiFunctionDeclaration| decl_model(d))
}

proof fn lemma_decls_of(ds: Seq<GeminiFunctionDeclaration>)
    ensures
        decls_of(ds).len() == ds.len(),
        forall|k: int| 0 <= k < ds.len() ==> #[trigger] decls_of(ds)[k] == decl_model(ds[k]),
{
}

/// The declarations of `tools[..i]`, flattened in order.
pub open spec fn decls_upto(tools: Seq<GeminiTool>, i: int) -> Seq<(Seq<char>, Seq<char>, JsonV)>
    decreases i,
    when 0 <= i <= tools.len()
{
    if i <= 0 {
        Seq::empty()
    } else {
        decls_upto(tools, i - 1) + decls_of(tools[i - 1].function_declarations@)
    }
}

/// Every function declaration of every tool, flattened in order.
pub open spec fn flat_decls(tools: &Option<Vec<GeminiTool>>) -> Seq<(Seq<char>, Seq<char>, JsonV)> {
    match tools {
        Some(ts) => decls_upto(ts@, ts@.len() as int),
        None => Seq::empty(),
    }
}

} // verus!

// The wire encoding of requests.

use crate::errors::LLMError;
use crate::llm::wf_chunk_seq;

verus! {

// ---------------------------------------------------------------------------
// Request wire encoding
// ---------------------------------------------------------------------------

/// The wire form of one part.
pub open spec fn part_wire(p: PartV) -> JsonV {
    JsonV::Obj(
        (match p.text {
            Some(t) => seq![("text"@, JsonV::Str(t))],
            None => Seq::empty(),
        }) + (match p.function_call {
            Some((name, args)) => seq![
                ("functionCall"@, JsonV::Obj(seq![("name"@, JsonV::Str(name)), ("args"@, args)])),
            ],
            None => Seq::empty(),
        }) + (match p.function_response {
            Some(v) => seq![("functionResponse"@, v)],
            None => Seq::empty(),
        }),
    )
}

/// The wire forms of `ps[i..]`.
pub open spec fn parts_wire(ps: Seq<PartV>, i: int) -> Seq<JsonV>
    decreases ps.len() - i,
    when 0 <= i <= ps.len()
{
    if i >= ps.len() {
        Seq::empty()
    } else {
        seq![part_wire(ps[i])] + parts_wire(ps, i + 1)
    }
}

proof fn lemma_parts_wire(ps: Seq<PartV>, i: int)
    requires
        0 <= i <= ps.len(),
    ensures
        parts_wire(ps, i).len() == ps.len() - i,
        forall|k: int| 0 <= k < ps.len() - i ==> #[trigger] parts_wire(ps, i)[k] == part_wire(
            ps[k + i],
        ),
    decreases ps.len() - i,
{
    if i < ps.len() {
        lemma_parts_wire(ps, i + 1);
    }
}

/// The wire form of one content.
pub open spec fn content_wire(c: ContentV) -> JsonV {
    JsonV::Obj(
        seq![("role"@, JsonV::Str(c.role)), ("parts"@, JsonV::Arr(parts_wire(c.parts, 0)))],
    )
}

fn part_to_json(p: &GeminiPart) -> (r: Json)
    ensures
        jmodel(r) == part_wire(pmodel(*p)),
{
    let ghost tseg: Seq<(Seq<char>, JsonV)> = match pmodel(*p).text {
        Some(t) => seq![("text"@, JsonV::Str(t))],
        None => Seq::empty(),
    };
    let ghost fseg: Seq<(Seq<char>, JsonV)> = match pmodel(*p).function_call {
        Some((name, args)) => seq![
            ("functionCall"@, JsonV::Obj(seq![("name"@, JsonV::Str(name)), ("args"@, args)])),
        ],
        None => Seq::empty(),
    };
    let ghost rseg: Seq<(Seq<char>, JsonV)> = match pmodel(*p).function_response {
        Some(v) => seq![("functionResponse"@, v)],
        None => Seq::empty(),
    };
    let mut o: Vec<(String, Json)> = Vec::new();
    match &p.text {
        Some(t) => {
            o.push(("text".to_owned(), Json::Str(t.clone())));
            proof {
                crate::json::lemma_jmodel_fields(o@, 0);
                assert(jmodel_fields(o@, 0) =~= tseg);
            }
        },
        None => {
            proof {
                assert(jmodel_fields(o@, 0) =~= tseg);
            }
        },
    }
    match &p.function_call {
        Some(fc) => {
            let mut inner: Vec<(String, Json)> = Vec::new();
            inner.push(("name".to_owned(), Json::Str(fc.name.clone())));
            inner.push(("args".to_owned(), crate::openai::clone_json(&fc.args)));
            proof {
                crate::json::lemma_jmodel_fields(inner@, 0);
                assert(jmodel_fields(inner@, 0) =~= seq![
                    ("name"@, JsonV::Str(fc.name@)),
                    ("args"@, jmodel(fc.args)),
                ]);
            }
            o.push(("functionCall".to_owned(), Json::Obj(inner)));
            proof {
                crate::json::lemma_jmodel_fields(o@, 0);
                assert(jmodel_fields(o@, 0) =~= tseg + fseg);
            }
        },
        None => {
            proof {
                assert(jmodel_fields(o@, 0) =~= tseg + fseg);
            }
        },
    }
    match &p.function_response {
        Some(fr) => {
            o.push(("functionResponse".to_owned(), crate::openai::clone_json(fr)));
            proof {
                crate::json::lemma_jmodel_fields(o@, 0);
                assert(jmodel_fields(o@, 0) =~= (tseg + fseg) + rseg);
            }
        },
        None => {
            proof {
                assert(jmodel_fields(o@, 0) =~= (tseg + fseg) + rseg);
            }
        },
    }
    let r = Json::Obj(o);
    proof {
        assert(part_wire(pmodel(*p))->Obj_0 == (tseg + fseg) + rseg);
    }
    r
}

/// Encode one content for the wire.
#[verifier::loop_isolation(false)]
pub fn content_to_json(c: &GeminiContent) -> (r: Json)
    ensures
        jmodel(r) == content_wire(cmodel(*c)),
{
    let ghost pm = pmodels(c.parts@, 0);
    proof {
        lemma_pmodels(c.parts@, 0);
    }
    let n = c.parts.len();
    let mut arr: Vec<Json> = Vec::new();
    let mut i: usize = 0;
    while i < n
        invariant
            0 <= i <= n,
            n == c.parts@.len(),
            arr@.len() == i,
            pm == pmodels(c.parts@, 0),
            pm.len() == n,
            forall|k: int| 0 <= k < n ==> pm[k] == pmodel(c.parts@[k]),
            jmodel_seq(arr@, 0) == parts_wire(pm, 0).take(i as int),
        decreases n - i,
    {
        let ghost pre = arr@;
        let v = part_to_json(&c.parts[i]);
        arr.push(v);
        proof {
            lemma_parts_wire(pm, 0);
            crate::openai::lemma_jmodel_seq_push_pub(pre, v, parts_wire(pm, 0), i as int);
        }
        i = i + 1;
    }
    proof {
        lemma_parts_wire(pm, 0);
        assert(parts_wire(pm, 0).take(n as int) =~= parts_wire(pm, 0));
    }
    let mut o: Vec<(String, Json)> = Vec::new();
    o.push(("role".to_owned(), Json::Str(c.role.clone())));
    o.push(("parts".to_owned(), Json::Arr(arr)));
    proof {
        crate::json::lemma_jmodel_fields(o@, 0);
        assert(jmodel_fields(o@, 0) =~= content_wire(cmodel(*c))->Obj_0);
    }
    Json::Obj(o)
}

/// The wire form of the tool declarations: internal schemas flattened
/// into one `functionDeclarations` array.
pub open spec fn decls_wire(tools: Seq<ToolSchema>, i: int) -> Seq<JsonV>
    decreases tools.len() - i,
    when 0 <= i <= tools.len()
{
    if i >= tools.len() {
        Seq::empty()
    } else {
        seq![
            JsonV::Obj(
                seq![
                    ("name"@, JsonV::Str(tools[i].function.name@)),
                    ("description"@, JsonV::Str(tools[i].function.description@)),
                    ("parameters"@, jmodel(tools[i].function.parameters)),
                ],
            ),
        ] + decls_wire(tools, i + 1)
    }
}

proof fn lemma_decls_wire(tools: Seq<ToolSchema>, i: int)
    requires
        0 <= i <= tools.len(),
    ensures
        decls_wire(tools, i).len() == tools.len() - i,
        forall|k: int| 0 <= k < tools.len() - i ==> #[trigger] decls_wire(tools, i)[k] == JsonV::Obj(
            seq![
                ("name"@, JsonV::Str(tools[k + i].function.name@)),
                ("description"@, JsonV::Str(tools[k + i].function.description@)),
                ("parameters"@, jmodel(tools[k + i].function.parameters)),
            ],
        ),
    decreases tools.len() - i,
{
    if i < tools.len() {
        lemma_decls_wire(tools, i + 1);
    }
}

/// The whole request: contents, then the system instruction when given,
/// then the tools when any, then the generation config when a token
/// ceiling was given.
pub open spec fn gemini_request_wire(
    contents: Seq<ContentV>,
    system_instruction: Option<ContentV>,
    tools: Seq<ToolSchema>,
    max_output_tokens: Option<u32>,
) -> JsonV {
    JsonV::Obj(
        seq![("contents"@, JsonV::Arr(contents.map_values(|c: ContentV| content_wire(c))))] + (
        match system_instruction {
            Some(c) => seq![("systemInstruction"@, content_wire(c))],
            None => Seq::empty(),
        }) + (if tools.len() > 0 {
            seq![
                (
                    "tools"@,
                    JsonV::Arr(
                        seq![
                            JsonV::Obj(
                                seq![("functionDeclarations"@, JsonV::Arr(decls_wire(tools, 0)))],
                            ),
                        ],
                    ),
                ),
            ]
        } else {
            Seq::empty()
        }) + (match max_output_tokens {
            Some(m) => seq![
                (
                    "generationConfig"@,
                    JsonV::Obj(seq![("maxOutputTokens"@, JsonV::Num(dec_of(m as nat)))]),
                ),
            ],
            None => Seq::empty(),
        }),
    )
}

/// Encode a whole streaming request for the wire.
#[verifier::loop_isolation(false)]
pub fn gemini_request_to_json(
    contents: &Vec<GeminiContent>,
    system_instruction: &Option<GeminiContent>,
    tools: &Vec<ToolSchema>,
    max_output_tokens: Option<u32>,
) -> (r: Json)
    ensures
        jmodel(r) == gemini_request_wire(
            contents@.map_values(|c: GeminiContent| cmodel(c)),
            match system_instruction {
                Some(c) => Some(cmodel(*c)),
                None => None,
            },
            tools@,
            max_output_tokens,
        ),
{
    let ghost cms = contents@.map_values(|c: GeminiContent| cmodel(c));
    let ghost target = cms.map_values(|c: ContentV| content_wire(c));
    let ghost sys_seg: Seq<(Seq<char>, JsonV)> = match system_instruction {
        Some(c) => seq![("systemInstruction"@, content_wire(cmodel(*c)))],
        None => Seq::empty(),
    };
    let ghost tools_seg: Seq<(Seq<char>, JsonV)> = if tools@.len() > 0 {
        seq![
            (
                "tools"@,
                JsonV::Arr(
                    seq![
                        JsonV::Obj(
                            seq![("functionDeclarations"@, JsonV::Arr(decls_wire(tools@, 0)))],
                        ),
                    ],
                ),
            ),
        ]
    } else {
        Seq::empty()
    };
    let ghost cfg_seg: Seq<(Seq<char>, JsonV)> = match max_output_tokens {
        Some(m) => seq![
            (
                "generationConfig"@,
                JsonV::Obj(seq![("maxOutputTokens"@, JsonV::Num(dec_of(m as nat)))]),
            ),
        ],
        None => Seq::empty(),
    };
    let n = contents.len();
    let mut arr: Vec<Json> = Vec::new();
    let mut i: usize = 0;
    while i < n
        invariant
            0 <= i <= n,
            n == contents@.len(),
            arr@.len() == i,
            target.len() == n,
            forall|k: int| 0 <= k < n ==> target[k] == content_wire(cmodel(contents@[k])),
            jmodel_seq(arr@, 0) == target.take(i as int),
        decreases n - i,
    {
        let ghost pre = arr@;
        let v = content_to_json(&contents[i]);
        arr.push(v);
        proof {
            crate::openai::lemma_jmodel_seq_push_pub(pre, v, target, i as int);
        }
        i = i + 1;
    }
    proof {
        assert(target.take(n as int) =~= target);
    }
    let mut o: Vec<(String, Json)> = Vec::new();
    o.push(("contents".to_owned(), Json::Arr(arr)));
    proof {
        crate::json::lemma_jmodel_fields(o@, 0);
        assert(jmodel_fields(o@, 0) =~= seq![("contents"@, JsonV::Arr(target))]);
    }
    let ghost base: Seq<(Seq<char>, JsonV)> = seq![("contents"@, JsonV::Arr(target))];
    match system_instruction {
        Some(c) => {
            let cj = content_to_json(c);
            o.push(("systemInstruction".to_owned(), cj));
            proof {
                crate::json::lemma_jmodel_fields(o@, 0);
                assert(jmodel_fields(o@, 0) =~= base + sys_seg);
            }
        },
        None => {
            proof {
                assert(jmodel_fields(o@, 0) =~= base + sys_seg);
            }
        },
    }
    if tools.len() > 0 {
        let tn = tools.len();
        let mut darr: Vec<Json> = Vec::new();
        let mut k: usize = 0;
        while k < tn
            invariant
                0 <= k <= tn,
                tn == tools@.len(),
                darr@.len() == k,
                jmodel_seq(darr@, 0) == decls_wire(tools@, 0).take(k as int),
            decreases tn - k,
        {
            let mut d: Vec<(String, Json)> = Vec::new();
            d.push(("name".to_owned(), Json::Str(tools[k].function.name.clone())));
            d.push(("description".to_owned(), Json::Str(tools[k].function.description.clone())));
            d.push(("parameters".to_owned(), crate::openai::clone_json(&tools[k].function.parameters)));
            proof {
                crate::json::lemma_jmodel_fields(d@, 0);
                assert(jmodel_fields(d@, 0) =~= seq![
                    ("name"@, JsonV::Str(tools@[k as int].function.name@)),
                    ("description"@, JsonV::Str(tools@[k as int].function.description@)),
                    ("parameters"@, jmodel(tools@[k as int].function.parameters)),
                ]);
            }
            let ghost pre = darr@;
            let dv = Json::Obj(d);
            darr.push(dv);
            proof {
                lemma_decls_wire(tools@, 0);
                crate::openai::lemma_jmodel_seq_push_pub(pre, dv, decls_wire(tools@, 0), k as int);
            }
            k = k + 1;
        }
        proof {
            lemma_decls_wire(tools@, 0);
            assert(decls_wire(tools@, 0).take(tn as int) =~= decls_wire(tools@, 0));
        }
        let mut tool_obj: Vec<(String, Json)> = Vec::new();
        tool_obj.push(("functionDeclarations".to_owned(), Json::Arr(darr)));
        proof {
            crate::json::lemma_jmodel_fields(tool_obj@, 0);
            assert(jmodel_fields(tool_obj@, 0) =~= seq![
                ("functionDeclarations"@, JsonV::Arr(decls_wire(tools@, 0))),
            ]);
        }
        let mut tarr: Vec<Json> = Vec::new();
        tarr.push(Json::Obj(tool_obj));
        proof {
            crate::json::lemma_jmodel_seq(tarr@, 0);
            assert(jmodel_seq(tarr@, 0) =~= seq![
                JsonV::Obj(seq![("functionDeclarations"@, JsonV::Arr(decls_wire(tools@, 0)))]),
            ]);
        }
        o.push(("tools".to_owned(), Json::Arr(tarr)));
        proof {
            crate::json::lemma_jmodel_fields(o@, 0);
            assert(jmodel_fields(o@, 0) =~= (base + sys_seg) + tools_seg);
        }
    } else {
        proof {
            assert(jmodel_fields(o@, 0) =~= (base + sys_seg) + tools_seg);
        }
    }
    match max_output_tokens {
        Some(m) => {
            let mut cfg: Vec<(String, Json)> = Vec::new();
            cfg.push(("maxOutputTokens".to_owned(), Json::Num(crate::strutil::u64_to_string(m as u64))));
            proof {
                crate::json::lemma_jmodel_fields(cfg@, 0);
                assert(jmodel_fields(cfg@, 0) =~= seq![
                    ("maxOutputTokens"@, JsonV::Num(dec_of(m as nat))),
                ]);
            }
            o.push(("generationConfig".to_owned(), Json::Obj(cfg)));
            proof {
                crate::json::lemma_jmodel_fields(o@, 0);
                assert(jmodel_fields(o@, 0) =~= ((base + sys_seg) + tools_seg) + cfg_seg);
            }
        },
        None => {
            proof {
                assert(jmodel_fields(o@, 0) =~= ((base + sys_seg) + tools_seg) + cfg_seg);
            }
        },
    }
    let r = Json::Obj(o);
    proof {
        assert(gemini_request_wire(
            cms,
            match system_instruction {
                Some(c) => Some(cmodel(*c)),
                None => None,
            },
            tools@,
            max_output_tokens,
        )->Obj_0 == ((base + sys_seg) + tools_seg) + cfg_seg);
    }
    r
}

} // verus!

// Decoding streaming responses.

verus! {

/// The next synthesized call id: counts up and stays put at the ceiling.
pub open spec fn bump(n: u64) -> u64 {
    if n < u64::MAX {
        (n + 1) as u64
    } else {
        n
    }
}

/// The candidates array of a response document.
pub open spec fn candidates_of(v: JsonV) -> Seq<JsonV> {
    match jlookup(v, "candidates"@) {
        Some(JsonV::Arr(cs)) => cs,
        _ => Seq::empty(),
    }
}

/// The parts of one candidate.
pub open spec fn parts_of_candidate(c: JsonV) -> Seq<JsonV> {
    match jlookup(c, "content"@) {
        Some(ct) => match jlookup(ct, "parts"@) {
            Some(JsonV::Arr(ps)) => ps,
            _ => Seq::empty(),
        },
        _ => Seq::empty(),
    }
}

/// Whether a candidate carries a non-null finish reason.
pub open spec fn has_finish(c: JsonV) -> bool {
    match jlookup(c, "finishReason"@) {
        Some(x) => !(x is Null),
        None => false,
    }
}

/// The argument object of a function-call part, the empty object when
/// absent.
pub open spec fn args_of_call(fc: JsonV) -> JsonV {
    match jlookup(fc, "args"@) {
        Some(a) => a,
        None => JsonV::Obj(Seq::empty()),
    }
}

/// The chunks one part yields: a token for text, one synthesized tool
/// call for a function call (arguments serialized back to text), nothing
/// otherwise. Threads the id counter.
pub open spec fn chunks_of_parts(ps: Seq<JsonV>, next_id: u64) -> (Seq<ChunkV>, u64)
    decreases ps.len(),
{
    if ps.len() == 0 {
        (Seq::empty(), next_id)
    } else {
        let p = ps[0];
        match jlookup(p, "text"@) {
            Some(JsonV::Str(t)) => {
                let rest = chunks_of_parts(ps.drop_first(), next_id);
                (seq![ChunkV::TokenV(t)] + rest.0, rest.1)
            },
            _ => {
                match jlookup(p, "functionCall"@) {
                    Some(fc) => {
                        let tc = (
                            "call_"@ + dec_of(next_id as nat),
                            "function"@,
                            crate::openai::str_or(fc, "name"@, Seq::empty()),
                            jtext(args_of_call(fc)),
                        );
                        let rest = chunks_of_parts(ps.drop_first(), bump(next_id));
                        (seq![ChunkV::CallsV(seq![tc])] + rest.0, rest.1)
                    },
                    None => chunks_of_parts(ps.drop_first(), next_id),
                }
            },
        }
    }
}

/// The chunks of all candidates in order, threading the id counter.
pub open spec fn chunks_of_cands(cs: Seq<JsonV>, next_id: u64) -> (Seq<ChunkV>, u64)
    decreases cs.len(),
{
    if cs.len() == 0 {
        (Seq::empty(), next_id)
    } else {
        let first = chunks_of_parts(parts_of_candidate(cs[0]), next_id);
        let rest = chunks_of_cands(cs.drop_first(), first.1);
        (first.0 + rest.0, rest.1)
    }
}

/// What one response document yields: its candidates' chunks, then a
/// final chunk when the last candidate carries a finish reason.
pub open spec fn gemini_event_chunks(v: JsonV, next_id: u64) -> (Seq<ChunkV>, u64) {
    let cs = candidates_of(v);
    let main = chunks_of_cands(cs, next_id);
    if cs.len() > 0 && has_finish(cs.last()) {
        (main.0 + seq![ChunkV::DoneV], main.1)
    } else {
        main
    }
}

/// Streaming state: the counter behind synthesized tool-call ids.
#[derive(Debug)]
pub struct GeminiStreamState {
    pub next_call_id: u64,
}

impl Default for GeminiStreamState {
    /// Counting starts at zero.
    fn default() -> (r: Self)
        ensures
            r.next_call_id == 0,
    {
        GeminiStreamState { next_call_id: 0 }
    }
}

/// Decode one parsed response document into chunks, synthesizing ids
/// `call_{n}` for function calls.
#[verifier::loop_isolation(false)]
#[verifier::rlimit(100)]
pub fn gemini_chunks_from_json(j: &Json, state: &mut GeminiStreamState) -> (r: Vec<LLMChunk>)
    ensures
        ({
            let spec_r = gemini_event_chunks(jmodel(*j), old(state).next_call_id);
            r@.map_values(|c: LLMChunk| chunkmodel(c)) == spec_r.0 && final(state).next_call_id
                == spec_r.1
        }),
{
    let ghost id0 = state.next_call_id;
    let ghost cs = candidates_of(jmodel(*j));
    let mut out: Vec<LLMChunk> = Vec::new();
    let empty_cands: Vec<Json> = Vec::new();
    let cands: &Vec<Json> = match j.get("candidates") {
        Some(c) => match c.as_array() {
            Some(inner) => {
                proof {
                    assert(jmodel_seq(inner@, 0) == cs);
                }
                inner
            },
            None => {
                proof {
                    assert(cs =~= jmodel_seq(empty_cands@, 0));
                }
                &empty_cands
            },
        },
        None => {
            proof {
                assert(cs =~= jmodel_seq(empty_cands@, 0));
            }
            &empty_cands
        },
    };
    proof {
        crate::json::lemma_jmodel_seq(cands@, 0);
        assert(cs.skip(0) =~= cs);
        assert(out@.map_values(|c: LLMChunk| chunkmodel(c)) =~= Seq::<ChunkV>::empty());
    }
    let n = cands.len();
    let mut i: usize = 0;
    let mut saw_finish = false;
    while i < n
        invariant
            0 <= i <= n,
            n == cands@.len(),
            cs == jmodel_seq(cands@, 0),
            cs.len() == n,
            forall|k: int| 0 <= k < n ==> cs[k] == jmodel(cands@[k]),
            chunks_of_cands(cs, id0).0 == out@.map_values(|c: LLMChunk| chunkmodel(c))
                + chunks_of_cands(cs.skip(i as int), state.next_call_id).0,
            chunks_of_cands(cs, id0).1 == chunks_of_cands(cs.skip(i as int), state.next_call_id).1,
            saw_finish == (i > 0 && has_finish(cs[i as int - 1])),
        decreases n - i,
    {
        let ghost cur0 = state.next_call_id;
        proof {
            assert(cs.skip(i as int)[0] == cs[i as int]);
            assert(cs.skip(i as int).drop_first() =~= cs.skip(i as int + 1));
        }
        let cand = &cands[i];
        let ghost pm = parts_of_candidate(cs[i as int]);
        let empty_parts: Vec<Json> = Vec::new();
        let parts: &Vec<Json> = match cand.get("content") {
            Some(ct) => match ct.get("parts") {
                Some(pj) => match pj.as_array() {
                    Some(ps) => {
                        proof {
                            assert(jmodel_seq(ps@, 0) == pm);
                        }
                        ps
                    },
                    None => {
                        proof {
                            assert(pm =~= jmodel_seq(empty_parts@, 0));
                        }
                        &empty_parts
                    },
                },
                None => {
                    proof {
                        assert(pm =~= jmodel_seq(empty_parts@, 0));
                    }
                    &empty_parts
                },
            },
            None => {
                proof {
                    assert(pm =~= jmodel_seq(empty_parts@, 0));
                }
                &empty_parts
            },
        };
        proof {
            crate::json::lemma_jmodel_seq(parts@, 0);
            assert(pm.skip(0) =~= pm);
        }
        let np = parts.len();
        let mut p: usize = 0;
        while p < np
            invariant
                0 <= p <= np,
                np == parts@.len(),
                pm == jmodel_seq(parts@, 0),
                pm.len() == np,
                forall|k: int| 0 <= k < np ==> pm[k] == jmodel(parts@[k]),
                0 <= i < n,
                n == cands@.len(),
                cs == jmodel_seq(cands@, 0),
                cs.len() == n,
                pm == parts_of_candidate(cs[i as int]),
                chunks_of_cands(cs, id0).0 == out@.map_values(|c: LLMChunk| chunkmodel(c)) + (
                chunks_of_parts(pm.skip(p as int), state.next_call_id).0 + chunks_of_cands(
                    cs.skip(i as int + 1),
                    chunks_of_parts(pm.skip(p as int), state.next_call_id).1,
                ).0),
                chunks_of_cands(cs, id0).1 == chunks_of_cands(
                    cs.skip(i as int + 1),
                    chunks_of_parts(pm.skip(p as int), state.next_call_id).1,
                ).1,
            decreases np - p,
        {
            let ghost cur = state.next_call_id;
            let ghost pre_out = out@;
            proof {
                assert(pm.skip(p as int)[0] == pm[p as int]);
                assert(pm.skip(p as int).drop_first() =~= pm.skip(p as int + 1));
            }
            let part = &parts[p];
            let mut matched_text = false;
            match part.get("text") {
                Some(x) => match x.as_str() {
                    Some(t) => {
                        out.push(LLMChunk::Token(t.clone()));
                        matched_text = true;
                        proof {
                            assert(out@.map_values(|c: LLMChunk| chunkmodel(c)) =~= pre_out
                                .map_values(|c: LLMChunk| chunkmodel(c)).push(ChunkV::TokenV(t@)));
                            assert(chunks_of_parts(pm.skip(p as int), cur).0 == seq![
                                ChunkV::TokenV(t@),
                            ] + chunks_of_parts(pm.skip(p as int + 1), cur).0);
                        }
                    },
                    None => {},
                },
                None => {},
            }
            if !matched_text {
                match part.get("functionCall") {
                    Some(fc) => {
                        let ghost fcm = match jlookup(pm[p as int], "functionCall"@) {
                            Some(x) => x,
                            None => JsonV::Null,
                        };
                        let mut idc: Vec<char> = Vec::new();
                        push_str_chars(&mut idc, "call_");
                        push_u64(&mut idc, state.next_call_id);
                        let id = chars_to_string(&idc);
                        let name = crate::openai::get_str_or(fc, "name", "");
                        let arguments = match fc.get("args") {
                            Some(a) => crate::json::json_to_string(a),
                            None => {
                                let empty_obj_fields: Vec<(String, Json)> = Vec::new();
                                let empty_obj = Json::Obj(empty_obj_fields);
                                proof {
                                    crate::json::lemma_jmodel_fields(empty_obj_fields@, 0);
                                    assert(jmodel(empty_obj) =~~= JsonV::Obj(Seq::empty()));
                                }
                                crate::json::json_to_string(&empty_obj)
                            },
                        };
                        let tc = ToolCall {
                            id,
                            tool_type: "function".to_owned(),
                            function: FunctionCall { name, arguments },
                        };
                        let ghost tcm = tcmodel(tc);
                        let mut calls: Vec<ToolCall> = Vec::new();
                        calls.push(tc);
                        let chunk = LLMChunk::ToolCalls(calls);
                        proof {
                            assert(chunkmodel(chunk)->CallsV_0 =~= seq![tcm]);
                        }
                        out.push(chunk);
                        if state.next_call_id < u64::MAX {
                            state.next_call_id = state.next_call_id + 1;
                        }
                        proof {
                            reveal_strlit("");
                            assert(state.next_call_id == bump(cur));
                            assert(tcm == (
                                "call_"@ + dec_of(cur as nat),
                                "function"@,
                                crate::openai::str_or(fcm, "name"@, Seq::empty()),
                                jtext(args_of_call(fcm)),
                            ));
                            assert(out@.map_values(|c: LLMChunk| chunkmodel(c)) =~= pre_out
                                .map_values(|c: LLMChunk| chunkmodel(c)).push(ChunkV::CallsV(
                                seq![tcm],
                            )));
                            assert(chunks_of_parts(pm.skip(p as int), cur).0 == seq![
                                ChunkV::CallsV(seq![tcm]),
                            ] + chunks_of_parts(pm.skip(p as int + 1), bump(cur)).0);
                        }
                    },
                    None => {},
                }
            }
            p = p + 1;
        }
        proof {
            assert(pm.skip(np as int) =~= Seq::<JsonV>::empty());
            assert(chunks_of_parts(Seq::<JsonV>::empty(), state.next_call_id).0
                =~= Seq::<ChunkV>::empty());
        }
        saw_finish = match cand.get("finishReason") {
            Some(x) => !x.is_null(),
            None => false,
        };
        i = i + 1;
    }
    proof {
        assert(cs.skip(n as int) =~= Seq::<JsonV>::empty());
        assert(chunks_of_cands(Seq::<JsonV>::empty(), state.next_call_id).0
            =~= Seq::<ChunkV>::empty());
        assert(out@.map_values(|c: LLMChunk| chunkmodel(c)) + Seq::<ChunkV>::empty() =~= out@
            .map_values(|c: LLMChunk| chunkmodel(c)));
    }
    if saw_finish {
        let ghost pre_out = out@;
        out.push(LLMChunk::Done);
        proof {
            assert(out@.map_values(|c: LLMChunk| chunkmodel(c)) =~= pre_out.map_values(
                |c: LLMChunk| chunkmodel(c),
            ).push(ChunkV::DoneV));
        }
    }
    out
}

} // verus!

// Re-encoding a chunk stream as Gemini wire frames.

verus! {

/// A server-sent-event frame carrying one document.
pub open spec fn sse_frame(v: JsonV) -> Seq<char> {
    "data: "@ + jtext(v) + "\n\n"@
}

/// The response document wrapping the given parts, with a finish reason
/// when one is given.
pub open spec fn gemini_frame_model(parts: Seq<PartV>, finish: Option<Seq<char>>) -> JsonV {
    JsonV::Obj(
        seq![
            (
                "candidates"@,
                JsonV::Arr(
                    seq![
                        JsonV::Obj(
                            seq![
                                (
                                    "content"@,
                                    content_wire(ContentV { role: "model"@, parts }),
                                ),
                            ] + (match finish {
                                Some(f) => seq![("finishReason"@, JsonV::Str(f))],
                                None => Seq::empty(),
                            }),
                        ),
                    ],
                ),
            ),
        ],
    )
}

/// Encode one frame: a candidate with the given parts and, for the final
/// frame, a finish reason.
#[verifier::loop_isolation(false)]
pub fn gemini_frame_json(parts: Vec<GeminiPart>, finish_reason: Option<&str>) -> (r: Json)
    ensures
        jmodel(r) == gemini_frame_model(
            pmodels(parts@, 0),
            match finish_reason {
                Some(f) => Some(f@),
                None => None,
            },
        ),
{
    let ghost pm = pmodels(parts@, 0);
    let ghost fin: Option<Seq<char>> = match finish_reason {
        Some(f) => Some(f@),
        None => None,
    };
    let content = GeminiContent { role: "model".to_owned(), parts };
    let cj = content_to_json(&content);
    proof {
        assert(cmodel(content) == ContentV { role: "model"@, parts: pm });
    }
    let mut cand: Vec<(String, Json)> = Vec::new();
    cand.push(("content".to_owned(), cj));
    proof {
        crate::json::lemma_jmodel_fields(cand@, 0);
        assert(jmodel_fields(cand@, 0) =~= seq![
            ("content"@, content_wire(ContentV { role: "model"@, parts: pm })),
        ]);
    }
    let ghost base = seq![("content"@, content_wire(ContentV { role: "model"@, parts: pm }))];
    let ghost fin_seg: Seq<(Seq<char>, JsonV)> = match fin {
        Some(f) => seq![("finishReason"@, JsonV::Str(f))],
        None => Seq::empty(),
    };
    match finish_reason {
        Some(f) => {
            cand.push(("finishReason".to_owned(), Json::Str(f.to_owned())));
            proof {
                crate::json::lemma_jmodel_fields(cand@, 0);
                assert(jmodel_fields(cand@, 0) =~= base + fin_seg);
            }
        },
        None => {
            proof {
                assert(jmodel_fields(cand@, 0) =~= base + fin_seg);
            }
        },
    }
    let mut arr: Vec<Json> = Vec::new();
    arr.push(Json::Obj(cand));
    proof {
        crate::json::lemma_jmodel_seq(arr@, 0);
        assert(jmodel_seq(arr@, 0) =~= seq![JsonV::Obj(base + fin_seg)]);
    }
    let mut o: Vec<(String, Json)> = Vec::new();
    o.push(("candidates".to_owned(), Json::Arr(arr)));
    proof {
        crate::json::lemma_jmodel_fields(o@, 0);
        assert(jmodel_fields(o@, 0) =~= gemini_frame_model(pm, fin)->Obj_0);
    }
    Json::Obj(o)
}

/// Wrap a document as one `data:` frame.
pub fn sse_frame_text(j: &Json) -> (r: String)
    ensures
        r@ == sse_frame(jmodel(*j)),
{
    let mut out: Vec<char> = Vec::new();
    push_str_chars(&mut out, "data: ");
    let body = crate::json::json_to_string(j);
    push_str_chars(&mut out, body.as_str());
    push_str_chars(&mut out, "\n\n");
    chars_to_string(&out)
}

/// The frames one chunk of a provider-neutral stream becomes on the
/// Gemini surface: a text candidate per token, one function-call
/// candidate per tool call (arguments parsed back into objects), and a
/// closing `STOP` candidate for the end of the stream.
#[verifier::loop_isolation(false)]
pub fn gemini_frames_for_chunk(c: &LLMChunk) -> (r: Vec<String>)
    ensures
        c matches LLMChunk::Token(t) ==> r@.len() == 1 && r@[0]@ == sse_frame(
            gemini_frame_model(seq![text_part(t@)], None),
        ),
        c is Done ==> r@.len() == 1 && r@[0]@ == sse_frame(
            gemini_frame_model(Seq::empty(), Some("STOP"@)),
        ),
        c matches LLMChunk::ToolCalls(tcs) ==> r@.len() == tcs@.len() && (forall|k: int|
            0 <= k < tcs@.len() ==> (#[trigger] r@[k])@ == sse_frame(
                gemini_frame_model(
                    seq![
                        call_part(
                            tcs@[k].function.name@,
                            args_doc(tcs@[k].function.arguments@),
                        ),
                    ],
                    None,
                ),
            )),
{
    let mut r: Vec<String> = Vec::new();
    match c {
        LLMChunk::Token(t) => {
            let mut parts: Vec<GeminiPart> = Vec::new();
            parts.push(
                GeminiPart { text: Some(t.clone()), function_call: None, function_response: None },
            );
            proof {
                lemma_pmodels(parts@, 0);
                assert(pmodels(parts@, 0) =~= seq![text_part(t@)]);
            }
            let j = gemini_frame_json(parts, None);
            r.push(sse_frame_text(&j));
        },
        LLMChunk::Done => {
            let parts: Vec<GeminiPart> = Vec::new();
            proof {
                lemma_pmodels(parts@, 0);
                assert(pmodels(parts@, 0) =~= Seq::<PartV>::empty());
            }
            let j = gemini_frame_json(parts, Some("STOP"));
            r.push(sse_frame_text(&j));
        },
        LLMChunk::ToolCalls(tcs) => {
            let n = tcs.len();
            let mut i: usize = 0;
            while i < n
                invariant
                    0 <= i <= n,
                    n == tcs@.len(),
                    r@.len() == i,
                    forall|k: int| 0 <= k < i ==> (#[trigger] r@[k])@ == sse_frame(
                        gemini_frame_model(
                            seq![
                                call_part(
                                    tcs@[k].function.name@,
                                    args_doc(tcs@[k].function.arguments@),
                                ),
                            ],
                            None,
                        ),
                    ),
                decreases n - i,
            {
                let args = parse_args_or_empty(tcs[i].function.arguments.as_str());
                let ghost am = jmodel(args);
                let mut parts: Vec<GeminiPart> = Vec::new();
                parts.push(
                    GeminiPart {
                        text: None,
                        function_call: Some(
                            GeminiFunctionCall { name: tcs[i].function.name.clone(), args },
                        ),
                        function_response: None,
                    },
                );
                proof {
                    lemma_pmodels(parts@, 0);
                    assert(pmodels(parts@, 0) =~= seq![
                        call_part(tcs@[i as int].function.name@, am),
                    ]);
                }
                let j = gemini_frame_json(parts, None);
                let frame = sse_frame_text(&j);
                r.push(frame);
                proof {
                    assert(am == args_doc(tcs@[i as int].function.arguments@));
                    assert(r@[i as int]@ == sse_frame(gemini_frame_model(
                        seq![call_part(tcs@[i as int].function.name@, am)],
                        None,
                    )));
                }
                i = i + 1;
            }
        },
    }
    r
}

/// Decode one SSE `data:` payload of a Gemini stream into chunks: text
/// that does not spell a JSON document is a stream error, and a document
/// yields exactly its chunks, threading the id counter.
pub fn parse_gemini_sse_event(state: &mut GeminiStreamState, data: &str) -> (r: Result<
    Vec<LLMChunk>,
    LLMError,
>)
    ensures
        (r is Ok) == (crate::parse::sp_doc(data@) is Some),
        r matches Err(e) ==> e is Stream && *final(state) == *old(state),
        r matches Ok(chunks) ==> (crate::parse::sp_doc(data@) matches Some(v) && ({
            let spec_r = gemini_event_chunks(v, old(state).next_call_id);
            chunks@.map_values(|c: LLMChunk| chunkmodel(c)) == spec_r.0
                && final(state).next_call_id == spec_r.1
        })),
{
    match crate::parse::parse_json_text(data) {
        Some(j) => {
            let chunks = gemini_chunks_from_json(&j, state);
            Ok(chunks)
        },
        None => Err(LLMError::Stream("invalid JSON in stream data".to_owned())),
    }
}

} // verus!

// Decoding inbound requests, and the final document of a non-streaming
// generation.

verus! {

/// The model of one wire part: its text, its function call with the
/// argument object (the empty object when absent), and its function
/// response.
pub open spec fn part_of_json(p: JsonV) -> PartV {
    PartV {
        text: crate::rpc::opt_str(p, "text"@),
        function_call: match jlookup(p, "functionCall"@) {
            Some(fc) => Some((crate::openai::str_or(fc, "name"@, Seq::empty()), args_of_call(fc))),
            None => None,
        },
        function_response: jlookup(p, "functionResponse"@),
    }
}

/// The models of a wire parts array.
pub open spec fn parts_of_json(v: JsonV) -> Seq<PartV> {
    match jlookup(v, "parts"@) {
        Some(JsonV::Arr(ps)) => ps.map_values(|p: JsonV| part_of_json(p)),
        _ => Seq::empty(),
    }
}

/// The model of one wire content: its role, empty when absent, and its
/// parts.
pub open spec fn content_of_json(v: JsonV) -> ContentV {
    ContentV { role: crate::openai::str_or(v, "role"@, Seq::empty()), parts: parts_of_json(v) }
}

fn part_from_json(p: &Json) -> (r: GeminiPart)
    ensures
        pmodel(r) == part_of_json(jmodel(*p)),
{
    let text = match p.get("text") {
        Some(x) => match x.as_str() {
            Some(s) => Some(s.clone()),
            None => None,
        },
        None => None,
    };
    let function_call = match p.get("functionCall") {
        Some(fc) => {
            let name = crate::openai::get_str_or(fc, "name", "");
            let args = match fc.get("args") {
                Some(a) => crate::openai::clone_json(a),
                None => {
                    let f: Vec<(String, Json)> = Vec::new();
                    proof {
                        crate::json::lemma_jmodel_fields(f@, 0);
                        assert(jmodel_fields(f@, 0) =~= Seq::<(Seq<char>, JsonV)>::empty());
                    }
                    Json::Obj(f)
                },
            };
            proof {
                reveal_strlit("");
            }
            Some(GeminiFunctionCall { name, args })
        },
        None => None,
    };
    let function_response = match p.get("functionResponse") {
        Some(fr) => Some(crate::openai::clone_json(fr)),
        None => None,
    };
    GeminiPart { text, function_call, function_response }
}

/// Read one content out of a request document.
#[verifier::loop_isolation(false)]
pub fn content_from_json(j: &Json) -> (r: GeminiContent)
    ensures
        cmodel(r) == content_of_json(jmodel(*j)),
{
    proof {
        reveal_strlit("");
    }
    let role = crate::openai::get_str_or(j, "role", "");
    let empty_parts: Vec<Json> = Vec::new();
    let arr: &Vec<Json> = match j.get("parts") {
        Some(pj) => match pj.as_array() {
            Some(ps) => ps,
            None => &empty_parts,
        },
        None => &empty_parts,
    };
    let ghost pm = parts_of_json(jmodel(*j));
    proof {
        crate::json::lemma_jmodel_seq(arr@, 0);
        assert(jmodel_seq(arr@, 0).map_values(|p: JsonV| part_of_json(p)) =~= pm);
    }
    let n = arr.len();
    let mut parts: Vec<GeminiPart> = Vec::new();
    let mut i: usize = 0;
    while i < n
        invariant
            0 <= i <= n,
            n == arr@.len(),
            pm == jmodel_seq(arr@, 0).map_values(|p: JsonV| part_of_json(p)),
            pm.len() == n,
            forall|k: int| 0 <= k < n ==> pm[k] == part_of_json(jmodel(arr@[k])),
            parts@.len() == i,
            pmodels(parts@, 0) == pm.take(i as int),
        decreases n - i,
    {
        let ghost pre = parts@;
        let part = part_from_json(&arr[i]);
        parts.push(part);
        proof {
            lemma_pmodels(pre, 0);
            lemma_pmodels(parts@, 0);
            assert(pmodels(parts@, 0) =~= pm.take(i as int + 1));
        }
        i = i + 1;
    }
    proof {
        assert(pm.take(n as int) =~= pm);
    }
    GeminiContent { role, parts }
}

/// The contents of a request document, in order.
#[verifier::loop_isolation(false)]
pub fn contents_from_json(j: &Json) -> (r: Vec<GeminiContent>)
    ensures
        r@.map_values(|c: GeminiContent| cmodel(c)) == (match jlookup(jmodel(*j), "contents"@) {
            Some(JsonV::Arr(cs)) => cs.map_values(|c: JsonV| content_of_json(c)),
            _ => Seq::empty(),
        }),
{
    let empty: Vec<Json> = Vec::new();
    let arr: &Vec<Json> = match j.get("contents") {
        Some(cj) => match cj.as_array() {
            Some(cs) => cs,
            None => &empty,
        },
        None => &empty,
    };
    let ghost target = match jlookup(jmodel(*j), "contents"@) {
        Some(JsonV::Arr(cs)) => cs.map_values(|c: JsonV| content_of_json(c)),
        _ => Seq::<ContentV>::empty(),
    };
    proof {
        crate::json::lemma_jmodel_seq(arr@, 0);
        assert(jmodel_seq(arr@, 0).map_values(|c: JsonV| content_of_json(c)) =~= target);
    }
    let n = arr.len();
    let mut out: Vec<GeminiContent> = Vec::new();
    let mut i: usize = 0;
    while i < n
        invariant
            0 <= i <= n,
            n == arr@.len(),
            target == jmodel_seq(arr@, 0).map_values(|c: JsonV| content_of_json(c)),
            target.len() == n,
            forall|k: int| 0 <= k < n ==> target[k] == content_of_json(jmodel(arr@[k])),
            out@.len() == i,
            out@.map_values(|c: GeminiContent| cmodel(c)) == target.take(i as int),
        decreases n - i,
    {
        let c = content_from_json(&arr[i]);
        out.push(c);
        proof {
            assert(out@.map_values(|c: GeminiContent| cmodel(c)) =~= target.take(i as int + 1));
        }
        i = i + 1;
    }
    proof {
        assert(target.take(n as int) =~= target);
    }
    out
}

/// The model of one wire function declaration.
pub open spec fn decl_of_json(d: JsonV) -> (Seq<char>, Seq<char>, JsonV) {
    (
        crate::openai::str_or(d, "name"@, Seq::empty()),
        crate::openai::str_or(d, "description"@, Seq::empty()),
        match jlookup(d, "parameters"@) {
            Some(p) => p,
            None => JsonV::Obj(Seq::empty()),
        },
    )
}

/// The declarations of one wire tool.
pub open spec fn tool_of_json(t: JsonV) -> Seq<(Seq<char>, Seq<char>, JsonV)> {
    match jlookup(t, "functionDeclarations"@) {
        Some(JsonV::Arr(ds)) => ds.map_values(|d: JsonV| decl_of_json(d)),
        _ => Seq::empty(),
    }
}

/// Read the tools of a request document: `None` when the document names
/// none.
#[verifier::loop_isolation(false)]
pub fn tools_from_json(j: &Json) -> (r: Option<Vec<GeminiTool>>)
    ensures
        (r is Some) == (jlookup(jmodel(*j), "tools"@) matches Some(JsonV::Arr(_))),
        r matches Some(ts) ==> (jlookup(jmodel(*j), "tools"@) matches Some(JsonV::Arr(ws))
            && ts@.len() == ws.len() && (forall|k: int|
            0 <= k < ws.len() ==> decls_of((#[trigger] ts@[k]).function_declarations@)
                == tool_of_json(ws[k]))),
{
    let arr = match j.get("tools") {
        Some(tj) => match tj.as_array() {
            Some(ts) => ts,
            None => {
                return None;
            },
        },
        None => {
            return None;
        },
    };
    let ghost ws = match jlookup(jmodel(*j), "tools"@) {
        Some(JsonV::Arr(x)) => x,
        _ => Seq::<JsonV>::empty(),
    };
    proof {
        crate::json::lemma_jmodel_seq(arr@, 0);
        assert(jmodel_seq(arr@, 0) =~= ws);
    }
    let n = arr.len();
    let mut out: Vec<GeminiTool> = Vec::new();
    let mut i: usize = 0;
    while i < n
        invariant
            0 <= i <= n,
            n == arr@.len(),
            ws == jmodel_seq(arr@, 0),
            ws.len() == n,
            forall|k: int| 0 <= k < n ==> ws[k] == jmodel(arr@[k]),
            out@.len() == i,
            forall|k: int|
                0 <= k < i ==> decls_of((#[trigger] out@[k]).function_declarations@)
                    == tool_of_json(ws[k]),
        decreases n - i,
    {
        let t = &arr[i];
        let empty_decls: Vec<Json> = Vec::new();
        let darr: &Vec<Json> = match t.get("functionDeclarations") {
            Some(dj) => match dj.as_array() {
                Some(ds) => ds,
                None => &empty_decls,
            },
            None => &empty_decls,
        };
        let ghost dtarget = tool_of_json(ws[i as int]);
        proof {
            crate::json::lemma_jmodel_seq(darr@, 0);
            assert(jmodel_seq(darr@, 0).map_values(|d: JsonV| decl_of_json(d)) =~= dtarget);
        }
        let dn = darr.len();
        let mut decls: Vec<GeminiFunctionDeclaration> = Vec::new();
        let mut k: usize = 0;
        while k < dn
            invariant
                0 <= k <= dn,
                dn == darr@.len(),
                dtarget == jmodel_seq(darr@, 0).map_values(|d: JsonV| decl_of_json(d)),
                dtarget.len() == dn,
                forall|q: int| 0 <= q < dn ==> dtarget[q] == decl_of_json(jmodel(darr@[q])),
                decls@.len() == k,
                decls_of(decls@) == dtarget.take(k as int),
            decreases dn - k,
        {
            let d = &darr[k];
            proof {
                reveal_strlit("");
            }
            let name = crate::openai::get_str_or(d, "name", "");
            let description = match d.get("description") {
                Some(x) => match x.as_str() {
                    Some(s) => Some(s.clone()),
                    None => None,
                },
                None => None,
            };
            let parameters = match d.get("parameters") {
                Some(p) => crate::openai::clone_json(p),
                None => {
                    let f: Vec<(String, Json)> = Vec::new();
                    proof {
                        crate::json::lemma_jmodel_fields(f@, 0);
                        assert(jmodel_fields(f@, 0) =~= Seq::<(Seq<char>, JsonV)>::empty());
                    }
                    Json::Obj(f)
                },
            };
            let decl = GeminiFunctionDeclaration { name, description, parameters };
            proof {
                assert(decl_model(decl) =~~= decl_of_json(jmodel(darr@[k as int])));
            }
            decls.push(decl);
            proof {
                lemma_decls_of(decls@);
                assert(decls_of(decls@) =~= dtarget.take(k as int + 1));
            }
            k = k + 1;
        }
        proof {
            assert(dtarget.take(dn as int) =~= dtarget);
        }
        out.push(GeminiTool { function_declarations: decls });
        i = i + 1;
    }
    Some(out)
}

/// The parts of a final, non-streaming answer: the collected text when
/// any, an empty text when nothing at all came back, and one function
/// call per collected tool call.
pub open spec fn final_parts(
    content: Seq<char>,
    names: Seq<Seq<char>>,
    parsed_args: Seq<JsonV>,
) -> Seq<PartV> {
    (if content.len() == 0 && names.len() == 0 {
        seq![text_part(Seq::empty())]
    } else if content.len() == 0 {
        Seq::empty()
    } else {
        seq![text_part(content)]
    }) + Seq::new(names.len(), |k: int| call_part(names[k], parsed_args[k]))
}

/// Build the final answer of a non-streaming generation from the
/// collected text and tool calls; each call's arguments are parsed back
/// into an object, the empty object when they are not JSON.
#[verifier::loop_isolation(false)]
pub fn gemini_final_response_json(full_content: &str, calls: &Vec<ToolCall>) -> (r: Json)
    ensures
        jmodel(r) == gemini_frame_model(
            final_parts(
                full_content@,
                calls@.map_values(|t: ToolCall| t.function.name@),
                parsed_args_of(calls@),
            ),
            Some("STOP"@),
        ),
{
    let ghost names = calls@.map_values(|t: ToolCall| t.function.name@);
    let mut parts: Vec<GeminiPart> = Vec::new();
    let content_chars = crate::strutil::str_to_chars(full_content);
    let ghost head: Seq<PartV> = if full_content@.len() == 0 && names.len() == 0 {
        seq![text_part(Seq::empty())]
    } else if full_content@.len() == 0 {
        Seq::empty()
    } else {
        seq![text_part(full_content@)]
    };
    if content_chars.len() == 0 && calls.len() == 0 {
        parts.push(
            GeminiPart { text: Some(String::new()), function_call: None, function_response: None },
        );
    } else if content_chars.len() > 0 {
        parts.push(
            GeminiPart {
                text: Some(full_content.to_owned()),
                function_call: None,
                function_response: None,
            },
        );
    }
    proof {
        lemma_pmodels(parts@, 0);
        assert(pmodels(parts@, 0) =~= head);
    }
    let ghost base_len = parts@.len() as int;
    let mut pa: Ghost<Seq<JsonV>> = Ghost(Seq::empty());
    let n = calls.len();
    let mut i: usize = 0;
    while i < n
        invariant
            0 <= i <= n,
            n == calls@.len(),
            parts@.len() == base_len + i,
            pa@.len() == i,
            forall|k: int| 0 <= k < i ==> #[trigger] pa@[k] == args_doc(
                calls@[k].function.arguments@,
            ),
            pmodels(parts@, 0) == head + Seq::new(
                i as nat,
                |k: int| call_part(calls@[k].function.name@, pa@[k]),
            ),
        decreases n - i,
    {
        let ghost pre_parts = parts@;
        let ghost pre_pa = pa@;
        let args = parse_args_or_empty(calls[i].function.arguments.as_str());
        proof {
            pa@ = pa@.push(jmodel(args));
        }
        let part = GeminiPart {
            text: None,
            function_call: Some(
                GeminiFunctionCall { name: calls[i].function.name.clone(), args },
            ),
            function_response: None,
        };
        parts.push(part);
        proof {
            lemma_pmodels(pre_parts, 0);
            lemma_pmodels(parts@, 0);
            let pre_tail = Seq::new(i as nat, |q: int| call_part(
                calls@[q].function.name@,
                pre_pa[q],
            ));
            let new_tail = Seq::new((i + 1) as nat, |q: int| call_part(
                calls@[q].function.name@,
                pa@[q],
            ));
            assert forall|k: int| 0 <= k < base_len + i + 1 implies #[trigger] pmodels(
                parts@,
                0,
            )[k] == (head + new_tail)[k] by {
                if k < base_len + i {
                    assert(parts@[k] == pre_parts[k]);
                    assert(pmodels(pre_parts, 0)[k] == pmodel(pre_parts[k]));
                    assert(pmodels(pre_parts, 0)[k] == (head + pre_tail)[k]);
                    if k >= base_len {
                        assert(pre_tail[k - base_len] == call_part(
                            calls@[k - base_len].function.name@,
                            pre_pa[k - base_len],
                        ));
                        assert(pa@[k - base_len] == pre_pa[k - base_len]);
                        assert(new_tail[k - base_len] == call_part(
                            calls@[k - base_len].function.name@,
                            pa@[k - base_len],
                        ));
                    }
                } else {
                    assert(parts@[k] == part);
                    assert(new_tail[i as int] == call_part(
                        calls@[i as int].function.name@,
                        pa@[i as int],
                    ));
                }
            }
            assert(pmodels(parts@, 0) =~= head + new_tail);
        }
        i = i + 1;
    }
    proof {
        assert(pa@ =~= parsed_args_of(calls@));
        assert(Seq::new(n as nat, |k: int| call_part(calls@[k].function.name@, pa@[k]))
            =~= Seq::new(names.len(), |k: int| call_part(names[k], parsed_args_of(calls@)[k])));
        assert(pmodels(parts@, 0) =~= final_parts(full_content@, names, parsed_args_of(calls@)));
    }
    let r = gemini_frame_json(parts, Some("STOP"));
    r
}

} // verus!

// The round-trip law of the tool-call translation.

verus! {

/// Law: an assistant message carried onto the Gemini wire keeps its tool
/// calls exactly. For parsed argument objects `pa`, the function calls
/// read back from the parts are, in order, each call's name with the
/// serialization of its argument object — names byte for byte, arguments
/// as the same document.
pub proof fn lemma_tool_calls_round_trip(m: Message, pa: Seq<JsonV>)
    requires
        m.tool_calls is Some,
        pa.len() == m.tool_calls->0@.len(),
    ensures
        ({
            let tcs = m.tool_calls->0@;
            let calls = part_calls(assistant_parts(m, pa));
            calls.len() == tcs.len() && (forall|k: int|
                0 <= k < tcs.len() ==> #[trigger] calls[k] == (
                    tcs[k].function.name@,
                    jtext(pa[k]),
                ))
        }),
{
    let tcs = m.tool_calls->0@;
    let text_seg: Seq<PartV> = if m.content@.len() > 0 {
        seq![text_part(m.content@)]
    } else {
        Seq::empty()
    };
    let tail = Seq::new(tcs.len(), |k: int| call_part(tcs[k].function.name@, pa[k]));
    lemma_part_calls_concat(text_seg, tail);
    if m.content@.len() > 0 {
        reveal_with_fuel(part_calls, 3);
        assert(text_seg.drop_first() =~= Seq::<PartV>::empty());
        assert(part_calls(text_seg) =~= Seq::<(Seq<char>, Seq<char>)>::empty());
    } else {
        reveal_with_fuel(part_calls, 2);
        assert(part_calls(text_seg) =~= Seq::<(Seq<char>, Seq<char>)>::empty());
    }
    lemma_part_calls_of_calls(tcs, pa, tail);
    assert(part_calls(assistant_parts(m, pa)) =~= part_calls(tail));
}

/// `part_calls` distributes over concatenation.
proof fn lemma_part_calls_concat(a: Seq<PartV>, b: Seq<PartV>)
    ensures
        part_calls(a + b) == part_calls(a) + part_calls(b),
    decreases a.len(),
{
    if a.len() == 0 {
        assert(a + b =~= b);
        assert(part_calls(a) =~= Seq::<(Seq<char>, Seq<char>)>::empty());
        assert(part_calls(a) + part_calls(b) =~= part_calls(b));
    } else {
        lemma_part_calls_concat(a.drop_first(), b);
        assert((a + b).drop_first() =~= a.drop_first() + b);
        assert((a + b)[0] == a[0]);
        assert(part_calls(a + b) =~= part_calls(a) + part_calls(b));
    }
}

/// A sequence of pure call parts reads back as the name and argument
/// text of each call, in order.
proof fn lemma_part_calls_of_calls(
    tcs: Seq<crate::llm::ToolCall>,
    pa: Seq<JsonV>,
    parts: Seq<PartV>,
)
    requires
        pa.len() == tcs.len(),
        parts.len() == tcs.len(),
        forall|k: int|
            0 <= k < tcs.len() ==> #[trigger] parts[k] == call_part(tcs[k].function.name@, pa[k]),
    ensures
        part_calls(parts).len() == tcs.len(),
        forall|k: int|
            0 <= k < tcs.len() ==> #[trigger] part_calls(parts)[k] == (
                tcs[k].function.name@,
                jtext(pa[k]),
            ),
    decreases tcs.len(),
{
    if tcs.len() > 0 {
        lemma_part_calls_of_calls(tcs.drop_first(), pa.drop_first(), parts.drop_first());
        assert(parts[0] == call_part(tcs[0].function.name@, pa[0]));
        assert(part_calls(parts) =~= seq![(tcs[0].function.name@, jtext(pa[0]))] + part_calls(
            parts.drop_first(),
        ));
        assert forall|k: int| 0 <= k < tcs.len() implies #[trigger] part_calls(parts)[k] == (
            tcs[k].function.name@,
            jtext(pa[k]),
        ) by {
            if k > 0 {
                assert(part_calls(parts.drop_first())[k - 1] == (
                    tcs.drop_first()[k - 1].function.name@,
                    jtext(pa.drop_first()[k - 1]),
                ));
            }
        }
    } else {
        assert(part_calls(parts) =~= Seq::<(Seq<char>, Seq<char>)>::empty());
    }
}

} // verus!

// Splitting internal messages into wire contents and the system
// instruction.

verus! {

/// The wire content one message becomes: its role, and its text part —
/// or, for the assistant, its text and function-call parts with the
/// parsed argument objects.
pub open spec fn content_model_for(m: Message) -> ContentV {
    ContentV {
        role: gemini_role(m.role),
        parts: if m.role == Role::Assistant {
            assistant_parts(
                m,
                match m.tool_calls {
                    Some(tcs) => parsed_args_of(tcs@),
                    None => Seq::empty(),
                },
            )
        } else {
            seq![text_part(m.content@)]
        },
    }
}

/// The wire contents of `ms[i..]`: every message in order, the system
/// messages left out.
pub open spec fn contents_for(ms: Seq<Message>, i: int) -> Seq<ContentV>
    decreases ms.len() - i,
    when 0 <= i <= ms.len()
{
    if i >= ms.len() {
        Seq::empty()
    } else if ms[i].role == Role::System {
        contents_for(ms, i + 1)
    } else {
        seq![content_model_for(ms[i])] + contents_for(ms, i + 1)
    }
}

/// The first system message's content in `ms[i..]`, when one exists.
pub open spec fn first_system(ms: Seq<Message>, i: int) -> Option<Seq<char>>
    decreases ms.len() - i,
    when 0 <= i <= ms.len()
{
    if i >= ms.len() {
        None
    } else if ms[i].role == Role::System {
        Some(ms[i].content@)
    } else {
        first_system(ms, i + 1)
    }
}

/// Split internal messages for the wire: the non-system messages become
/// contents in order, and the first system message, when one exists,
/// becomes the system instruction, carried as one text part.
#[verifier::loop_isolation(false)]
pub fn messages_to_gemini_contents(messages: &Vec<Message>) -> (r: (
    Vec<GeminiContent>,
    Option<GeminiContent>,
))
    ensures
        r.0@.map_values(|c: GeminiContent| cmodel(c)) == contents_for(messages@, 0),
        match r.1 {
            Some(c) => first_system(messages@, 0) matches Some(text) && cmodel(c) == (ContentV {
                role: "user"@,
                parts: seq![text_part(text)],
            }),
            None => first_system(messages@, 0) is None,
        },
{
    let n = messages.len();
    let mut contents: Vec<GeminiContent> = Vec::new();
    let mut system: Option<GeminiContent> = None;
    let mut i: usize = 0;
    while i < n
        invariant
            0 <= i <= n,
            n == messages@.len(),
            contents_for(messages@, 0) == contents@.map_values(|c: GeminiContent| cmodel(c))
                + contents_for(messages@, i as int),
            first_system(messages@, 0) == (match system {
                Some(c) => Some(c.parts@[0].text->0@),
                None => first_system(messages@, i as int),
            }),
            match system {
                Some(c) => first_system(messages@, 0) matches Some(text) && cmodel(c) == (
                ContentV { role: "user"@, parts: seq![text_part(text)] }),
                None => true,
            },
        decreases n - i,
    {
        let m = &messages[i];
        if matches!(m.role, Role::System) {
            if matches!(system, None) {
                let mut parts: Vec<GeminiPart> = Vec::new();
                parts.push(
                    GeminiPart {
                        text: Some(m.content.clone()),
                        function_call: None,
                        function_response: None,
                    },
                );
                let c = GeminiContent { role: "user".to_owned(), parts };
                proof {
                    lemma_pmodels(c.parts@, 0);
                    assert(cmodel(c).parts =~= seq![text_part(m.content@)]);
                }
                system = Some(c);
            }
        } else {
            let ghost pre = contents@;
            let c = message_to_gemini_content(m);
            contents.push(c);
            proof {
                assert(cmodel(c) == content_model_for(messages@[i as int]));
                assert(contents@.map_values(|x: GeminiContent| cmodel(x)) =~= pre.map_values(
                    |x: GeminiContent| cmodel(x),
                ).push(cmodel(c)));
                assert(pre.map_values(|x: GeminiContent| cmodel(x)) + (seq![
                    content_model_for(messages@[i as int]),
                ] + contents_for(messages@, i as int + 1)) =~= contents@.map_values(
                    |x: GeminiContent| cmodel(x),
                ) + contents_for(messages@, i as int + 1));
            }
        }
        i = i + 1;
    }
    proof {
        assert(contents_for(messages@, n as int) =~= Seq::<ContentV>::empty());
        assert(contents@.map_values(|c: GeminiContent| cmodel(c)) + Seq::<ContentV>::empty()
            =~= contents@.map_values(|c: GeminiContent| cmodel(c)));
    }
    (contents, system)
}

} // verus!
