//! The chat endpoint's pure logic: request validation, system-prompt
//! assembly, and the session's single system message.

use vstd::prelude::*;

use crate::llm::{Message, Role};
use crate::strutil::{chars_to_string, push_str_chars, spec_trim, str_to_chars, trim_chars};

verus! {

/// An incoming chat request.
#[derive(Debug)]
pub struct ChatRequest {
    pub message: String,
    pub session_id: Option<String>,
    pub system_prompt: Option<String>,
    pub enhance_prompt: Option<String>,
    pub workspace_path: Option<String>,
    pub model: String,
}

/// The accepted answer: where the stream lives.
#[derive(Debug)]
pub struct ChatResponse {
    pub session_id: String,
    pub stream_url: String,
    pub status: String,
}

/// The guidance appended after a workspace path.
pub fn workspace_prompt_guidance() -> (r: &'static str)
    ensures
        r@ == "If you need to inspect files, check the workspace first, then ~/.bamboo."@,
{
    "If you need to inspect files, check the workspace first, then ~/.bamboo."
}

/// The model of a request is valid only when its model, trimmed, is
/// non-empty; the trimmed model is what runs.
pub fn validate_model(model: &str) -> (r: Option<String>)
    ensures
        r is Some <==> spec_trim(model@).len() > 0,
        r matches Some(m) ==> m@ == spec_trim(model@),
{
    let cs = str_to_chars(model);
    let trimmed = trim_chars(&cs);
    if trimmed.len() == 0 {
        None
    } else {
        Some(chars_to_string(&trimmed))
    }
}

/// What the assembled system prompt reads: the base, then the trimmed
/// enhancement when non-empty, then the workspace line and guidance when
/// a non-empty workspace path is given.
pub open spec fn spec_enhanced_prompt(
    base: Seq<char>,
    enhance: Option<Seq<char>>,
    workspace: Option<Seq<char>>,
) -> Seq<char> {
    let with_enh = base + (match enhance {
        Some(e) => if spec_trim(e).len() > 0 {
            "\n\n"@ + spec_trim(e)
        } else {
            Seq::empty()
        },
        None => Seq::empty(),
    });
    with_enh + (match workspace {
        Some(w) => if spec_trim(w).len() > 0 {
            "\n\nWorkspace path: "@ + spec_trim(w) + "\n"@
                + "If you need to inspect files, check the workspace first, then ~/.bamboo."@
        } else {
            Seq::empty()
        },
        None => Seq::empty(),
    })
}

/// Assemble the system prompt from the base, an optional enhancement and
/// an optional workspace path.
pub fn build_enhanced_system_prompt(
    base_prompt: &str,
    enhance_prompt: Option<&str>,
    workspace_path: Option<&str>,
) -> (r: String)
    ensures
        r@ == spec_enhanced_prompt(
            base_prompt@,
            match enhance_prompt {
                Some(e) => Some(e@),
                None => None,
            },
            match workspace_path {
                Some(w) => Some(w@),
                None => None,
            },
        ),
{
    let mut out: Vec<char> = Vec::new();
    push_str_chars(&mut out, base_prompt);
    match enhance_prompt {
        Some(e) => {
            let ec = str_to_chars(e);
            let mut trimmed = trim_chars(&ec);
            if trimmed.len() > 0 {
                push_str_chars(&mut out, "\n\n");
                out.append(&mut trimmed);
            }
        },
        None => {},
    }
    match workspace_path {
        Some(w) => {
            let wc = str_to_chars(w);
            let mut trimmed = trim_chars(&wc);
            if trimmed.len() > 0 {
                push_str_chars(&mut out, "\n\nWorkspace path: ");
                out.append(&mut trimmed);
                push_str_chars(&mut out, "\n");
                push_str_chars(
                    &mut out,
                    "If you need to inspect files, check the workspace first, then ~/.bamboo.",
                );
            }
        },
        None => {},
    }
    proof {
        assert(out@ =~= spec_enhanced_prompt(
            base_prompt@,
            match enhance_prompt {
                Some(e) => Some(e@),
                None => None,
            },
            match workspace_path {
                Some(w) => Some(w@),
                None => None,
            },
        ));
    }
    chars_to_string(&out)
}

/// The model of one message: role, content, tool calls, call id.
pub open spec fn msg_model(m: Message) -> (
    Role,
    Seq<char>,
    Option<Seq<crate::openai::ToolCallModel>>,
    Option<Seq<char>>,
) {
    (
        m.role,
        m.content@,
        match m.tool_calls {
            Some(tcs) => Some(
                tcs@.map_values(|t: crate::llm::ToolCall| crate::openai::tcmodel(t)),
            ),
            None => None,
        },
        match m.tool_call_id {
            Some(s) => Some(s@),
            None => None,
        },
    )
}

/// The models of a message list.
pub open spec fn msg_models(msgs: Seq<Message>) -> Seq<
    (Role, Seq<char>, Option<Seq<crate::openai::ToolCallModel>>, Option<Seq<char>>),
> {
    msgs.map_values(|m: Message| msg_model(m))
}

/// Replace the session's system message: every system message leaves,
/// the other messages keep their order, and the new prompt stands first.
#[verifier::loop_isolation(false)]
pub fn upsert_system_prompt_message(messages: &mut Vec<Message>, system_prompt: String)
    ensures
        msg_models(final(messages)@) == seq![
            (
                Role::System,
                system_prompt@,
                None::<Seq<crate::openai::ToolCallModel>>,
                None::<Seq<char>>,
            ),
        ] + msg_models(old(messages)@).filter(
            |t: (Role, Seq<char>, Option<Seq<crate::openai::ToolCallModel>>, Option<Seq<char>>)|
                t.0 != Role::System,
        ),
{
    let ghost predm = |t: (
        Role,
        Seq<char>,
        Option<Seq<crate::openai::ToolCallModel>>,
        Option<Seq<char>>,
    )| t.0 != Role::System;
    let ghost sysm = (
        Role::System,
        system_prompt@,
        None::<Seq<crate::openai::ToolCallModel>>,
        None::<Seq<char>>,
    );
    let n = messages.len();
    let mut kept: Vec<Message> = Vec::new();
    kept.push(
        Message { role: Role::System, content: system_prompt, tool_calls: None, tool_call_id: None },
    );
    let mut i: usize = 0;
    proof {
        reveal(Seq::filter);
        assert(msg_models(kept@) =~= seq![sysm] + msg_models(messages@.take(0)).filter(predm));
    }
    while i < n
        invariant
            0 <= i <= n,
            n == messages@.len(),
            msg_models(kept@) == seq![sysm] + msg_models(messages@.take(i as int)).filter(predm),
        decreases n - i,
    {
        proof {
            reveal(Seq::filter);
            assert(msg_models(messages@.take(i as int + 1)).drop_last() =~= msg_models(
                messages@.take(i as int),
            ));
            assert(msg_models(messages@.take(i as int + 1)).last() == msg_model(
                messages@[i as int],
            ));
        }
        let keep = !matches!(messages[i].role, Role::System);
        if keep {
            let m = &messages[i];
            let tool_calls: Option<Vec<crate::llm::ToolCall>> = match &m.tool_calls {
                Some(tcs) => {
                    let tn = tcs.len();
                    let mut copy: Vec<crate::llm::ToolCall> = Vec::new();
                    let mut k: usize = 0;
                    while k < tn
                        invariant
                            0 <= k <= tn,
                            tn == tcs@.len(),
                            copy@ == tcs@.take(k as int),
                        decreases tn - k,
                    {
                        copy.push(tcs[k].clone_call());
                        proof {
                            assert(copy@ =~= tcs@.take(k as int + 1));
                        }
                        k = k + 1;
                    }
                    proof {
                        assert(tcs@.take(tn as int) =~= tcs@);
                    }
                    Some(copy)
                },
                None => None,
            };
            let copy = Message {
                role: m.role,
                content: m.content.clone(),
                tool_calls,
                tool_call_id: match &m.tool_call_id {
                    Some(s) => Some(s.clone()),
                    None => None,
                },
            };
            proof {
                assert(msg_model(copy) == msg_model(messages@[i as int]));
            }
            kept.push(copy);
            proof {
                assert(msg_models(kept@) =~= (seq![sysm] + msg_models(
                    messages@.take(i as int),
                ).filter(predm)).push(msg_model(messages@[i as int])));
                assert(msg_models(kept@) =~= seq![sysm] + msg_models(
                    messages@.take(i as int + 1),
                ).filter(predm));
            }
        } else {
            proof {
                assert(msg_models(kept@) =~= seq![sysm] + msg_models(
                    messages@.take(i as int + 1),
                ).filter(predm));
            }
        }
        i = i + 1;
    }
    proof {
        assert(messages@.take(n as int) =~= messages@);
    }
    *messages = kept;
}

} // verus!
