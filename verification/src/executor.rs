//! The tool executor façade: flattening MCP call results, resolving
//! aliases and arguments for the MCP executor, and the composite
//! dispatcher that prefers built-in tools and falls back to MCP only
//! when a tool is not found.

use vstd::prelude::*;

use crate::index::{spec_find, ToolIndex};
use crate::json::{jmodel, Json};
use crate::llm::ToolCall;
use crate::strutil::{chars_to_string, dec_of, push_str_chars, push_u64};
use crate::types::{McpCallResult, McpContentItem, ToolAlias};

verus! {

/// Failure of a tool execution.
#[derive(Debug, Clone, PartialEq)]
pub enum ToolError {
    NotFound(String),
    InvalidArguments(String),
    Execution(String),
}

/// Result of a tool execution.
#[derive(Debug, Clone, PartialEq)]
pub struct ToolResult {
    pub success: bool,
    pub result: String,
    pub display_preference: Option<String>,
}

/// The flattened text of one content item: text verbatim, images and
/// resources rendered as bracketed notes.
pub open spec fn item_text(it: McpContentItem) -> Seq<char> {
    match it {
        McpContentItem::Text { text } => text@,
        McpContentItem::Image { data, mime_type } => "[Image: "@ + mime_type@ + " ("@ + dec_of(
            data@.len(),
        ) + " bytes)]"@,
        McpContentItem::Resource { resource } => {
            let head = "[Resource "@ + resource.uri@ + "]"@;
            match resource.text {
                Some(t) => head + ": "@ + t@,
                None => head,
            }
        },
    }
}

/// The item texts joined by newlines.
pub open spec fn joined_items(items: Seq<McpContentItem>, i: int) -> Seq<char>
    decreases items.len() - i,
    when 0 <= i <= items.len()
{
    if i >= items.len() {
        Seq::empty()
    } else if i == items.len() - 1 {
        item_text(items[i])
    } else {
        item_text(items[i]) + seq!['\n'] + joined_items(items, i + 1)
    }
}

/// Flatten a call result's content to one string: text items verbatim,
/// images and resources as bracketed notes, joined by newlines.
#[verifier::loop_isolation(false)]
pub fn format_result_content(content: &Vec<McpContentItem>) -> (r: String)
    ensures
        r@ == joined_items(content@, 0),
{
    let n = content.len();
    let mut out: Vec<char> = Vec::new();
    let mut i: usize = 0;
    while i < n
        invariant
            0 <= i <= n,
            n == content@.len(),
            out@ + joined_items(content@, i as int) == joined_items(content@, 0),
        decreases n - i,
    {
        match &content[i] {
            McpContentItem::Text { text } => {
                push_str_chars(&mut out, text.as_str());
            },
            McpContentItem::Image { data, mime_type } => {
                push_str_chars(&mut out, "[Image: ");
                push_str_chars(&mut out, mime_type.as_str());
                push_str_chars(&mut out, " (");
                let len_chars = crate::strutil::str_to_chars(data.as_str());
                push_u64(&mut out, len_chars.len() as u64);
                push_str_chars(&mut out, " bytes)]");
            },
            McpContentItem::Resource { resource } => {
                push_str_chars(&mut out, "[Resource ");
                push_str_chars(&mut out, resource.uri.as_str());
                push_str_chars(&mut out, "]");
                match &resource.text {
                    Some(t) => {
                        push_str_chars(&mut out, ": ");
                        push_str_chars(&mut out, t.as_str());
                    },
                    None => {},
                }
            },
        }
        if i + 1 < n {
            out.push('\n');
        }
        proof {
            assert(out@ + joined_items(content@, i as int + 1) =~= joined_items(content@, 0));
        }
        i = i + 1;
    }
    chars_to_string(&out)
}

/// Resolve an MCP tool call: the alias must be registered and the
/// argument string must spell a JSON document.
///
/// Returns the mapping and the parsed arguments; a missing alias is
/// `NotFound` and text that spells no document is `InvalidArguments`,
/// exactly in that order.
pub fn mcp_execute_prepare(index: &ToolIndex, call: &ToolCall) -> (r: Result<
    (ToolAlias, Json),
    ToolError,
>)
    ensures
        spec_find(index@, call.function.name@, 0) is None <==> (r matches Err(e) && e is NotFound),
        spec_find(index@, call.function.name@, 0) is Some ==> ((r is Ok) == (crate::parse::sp_doc(
            call.function.arguments@,
        ) is Some)),
        r matches Ok((alias, args)) ==> spec_find(index@, call.function.name@, 0) == Some(
            crate::index::amodel(alias),
        ) && crate::parse::sp_doc(call.function.arguments@) == Some(jmodel(args))
            && crate::json::wf_json(jmodel(args)),
        r matches Err(e) ==> (e is NotFound || e is InvalidArguments),
{
    let alias = match index.lookup(call.function.name.as_str()) {
        Some(a) => a,
        None => {
            let mut m: Vec<char> = Vec::new();
            push_str_chars(&mut m, "MCP tool '");
            push_str_chars(&mut m, call.function.name.as_str());
            push_str_chars(&mut m, "' not found");
            return Err(ToolError::NotFound(chars_to_string(&m)));
        },
    };
    let args = match crate::parse::parse_json_text(call.function.arguments.as_str()) {
        Some(j) => j,
        None => {
            return Err(
                ToolError::InvalidArguments("Invalid JSON in tool arguments".to_owned()),
            );
        },
    };
    Ok((alias, args))
}

/// Turn an MCP call result into a tool result: the flattened content as
/// the text, and success exactly when the server did not flag an error —
/// a flagged error is a failed result, never a `ToolError`.
pub fn mcp_execute_finish(result: &McpCallResult) -> (r: ToolResult)
    ensures
        r.success == !result.is_error,
        r.result@ == joined_items(result.content@, 0),
        r.display_preference is None,
{
    let text = format_result_content(&result.content);
    ToolResult { success: !result.is_error, result: text, display_preference: None }
}

/// How a manager failure surfaces from the MCP executor: an unknown
/// server or tool is `NotFound` with the failing name, everything else
/// is an execution failure carrying the rendered error.
pub open spec fn spec_tool_error_from_mcp(e: crate::errors::McpError) -> (Seq<char>, Seq<char>) {
    match e {
        crate::errors::McpError::ServerNotFound(id) => (
            "NotFound"@,
            "MCP server '"@ + id@ + "' not found"@,
        ),
        crate::errors::McpError::ToolNotFound(name) => (
            "NotFound"@,
            "Tool '"@ + name@ + "' not found"@,
        ),
        other => ("Execution"@, "MCP error: "@ + crate::errors::spec_mcp_error_message(other)),
    }
}

/// The model of a tool error: its kind name and message.
pub open spec fn tool_error_model(e: ToolError) -> (Seq<char>, Seq<char>) {
    match e {
        ToolError::NotFound(m) => ("NotFound"@, m@),
        ToolError::InvalidArguments(m) => ("InvalidArguments"@, m@),
        ToolError::Execution(m) => ("Execution"@, m@),
    }
}

/// Map a manager failure to the executor's error taxonomy, exactly as
/// [`spec_tool_error_from_mcp`] rules.
pub fn tool_error_from_mcp(e: &crate::errors::McpError) -> (r: ToolError)
    ensures
        tool_error_model(r) == spec_tool_error_from_mcp(*e),
{
    match e {
        crate::errors::McpError::ServerNotFound(id) => {
            let mut m: Vec<char> = Vec::new();
            push_str_chars(&mut m, "MCP server '");
            push_str_chars(&mut m, id.as_str());
            push_str_chars(&mut m, "' not found");
            ToolError::NotFound(chars_to_string(&m))
        },
        crate::errors::McpError::ToolNotFound(name) => {
            let mut m: Vec<char> = Vec::new();
            push_str_chars(&mut m, "Tool '");
            push_str_chars(&mut m, name.as_str());
            push_str_chars(&mut m, "' not found");
            ToolError::NotFound(chars_to_string(&m))
        },
        other => {
            let mut m: Vec<char> = Vec::new();
            push_str_chars(&mut m, "MCP error: ");
            let rendered = other.message();
            push_str_chars(&mut m, rendered.as_str());
            ToolError::Execution(chars_to_string(&m))
        },
    }
}

/// What the composite executor does after the built-in attempt.
#[derive(Debug, PartialEq)]
pub enum CompositeNext {
    /// Hand the outcome back unchanged.
    Return(Result<ToolResult, ToolError>),
    /// The built-in executor does not know the tool: try MCP.
    TryMcp,
}

/// The composite dispatch rule: a `NotFound` from the built-in executor,
/// and nothing else, falls through to MCP; success and every other error
/// are returned unchanged, never retried.
pub fn composite_after_builtin(outcome: Result<ToolResult, ToolError>) -> (r: CompositeNext)
    ensures
        outcome matches Err(e) && e is NotFound <==> r == CompositeNext::TryMcp,
        !(outcome matches Err(e) && e is NotFound) ==> r == CompositeNext::Return(outcome),
{
    match outcome {
        Err(ToolError::NotFound(_)) => CompositeNext::TryMcp,
        other => CompositeNext::Return(other),
    }
}

/// The model of one tool schema: kind, name, description, parameters.
pub open spec fn schema_model(t: crate::llm::ToolSchema) -> (
    Seq<char>,
    Seq<char>,
    Seq<char>,
    crate::json::JsonV,
) {
    (t.schema_type@, t.function.name@, t.function.description@, jmodel(t.function.parameters))
}

/// The models of a schema list.
pub open spec fn schema_models(ts: Seq<crate::llm::ToolSchema>) -> Seq<
    (Seq<char>, Seq<char>, Seq<char>, crate::json::JsonV),
> {
    ts.map_values(|t: crate::llm::ToolSchema| schema_model(t))
}

/// The composite tool listing: the built-in schemas followed by the MCP
/// schemas, in order.
pub fn concat_tool_schemas(
    builtin: Vec<crate::llm::ToolSchema>,
    mcp: Vec<crate::llm::ToolSchema>,
) -> (r: Vec<crate::llm::ToolSchema>)
    ensures
        schema_models(r@) == schema_models(builtin@) + schema_models(mcp@),
{
    let ghost b = builtin@;
    let ghost m = mcp@;
    let mut out = builtin;
    let mut rest = mcp;
    out.append(&mut rest);
    proof {
        assert(schema_models(out@) =~= schema_models(b) + schema_models(m));
    }
    out
}

} // verus!
