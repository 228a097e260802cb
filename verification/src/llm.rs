//! The internal chat model shared by every provider: messages, tool
//! calls, tool schemas, the provider-neutral stream chunk, and the
//! provider value objects holding credentials and base URLs.

use vstd::prelude::*;

use crate::json::Json;
use crate::strutil::{chars_to_string, push_str_chars};

verus! {

/// Role of a chat message.
#[derive(Debug, Clone, Copy, PartialEq, Eq, Structural)]
pub enum Role {
    System,
    User,
    Assistant,
    Tool,
}

/// The wire name of a role.
pub open spec fn spec_role_str(r: Role) -> Seq<char> {
    match r {
        Role::System => "system"@,
        Role::User => "user"@,
        Role::Assistant => "assistant"@,
        Role::Tool => "tool"@,
    }
}

impl Role {
    /// The wire name of this role.
    pub fn role_str(&self) -> (r: &'static str)
        ensures
            r@ == spec_role_str(*self),
    {
        match self {
            Role::System => "system",
            Role::User => "user",
            Role::Assistant => "assistant",
            Role::Tool => "tool",
        }
    }
}

/// The function a tool call invokes: a name and an argument JSON document
/// serialized as a string.
#[derive(Debug, Clone, PartialEq)]
pub struct FunctionCall {
    pub name: String,
    pub arguments: String,
}

/// One tool-call descriptor.
#[derive(Debug, Clone, PartialEq)]
pub struct ToolCall {
    pub id: String,
    pub tool_type: String,
    pub function: FunctionCall,
}

/// Schema of the function a tool exposes.
#[derive(Debug)]
pub struct FunctionSchema {
    pub name: String,
    pub description: String,
    /// A JSON Schema object.
    pub parameters: Json,
}

/// Schema of one tool.
#[derive(Debug)]
pub struct ToolSchema {
    pub schema_type: String,
    pub function: FunctionSchema,
}

impl ToolCall {
    /// A field-for-field copy.
    pub fn clone_call(&self) -> (r: ToolCall)
        ensures
            r == *self,
    {
        ToolCall {
            id: self.id.clone(),
            tool_type: self.tool_type.clone(),
            function: FunctionCall {
                name: self.function.name.clone(),
                arguments: self.function.arguments.clone(),
            },
        }
    }
}

/// One chat message.
#[derive(Debug)]
pub struct Message {
    pub role: Role,
    pub content: String,
    /// Tool calls the assistant asked for; assistant role only.
    pub tool_calls: Option<Vec<ToolCall>>,
    /// Back-reference to the call answered; tool role only.
    pub tool_call_id: Option<String>,
}

impl Message {
    /// A user message.
    pub fn user(content: &str) -> (r: Message)
        ensures
            r.role == Role::User,
            r.content@ == content@,
            r.tool_calls is None,
            r.tool_call_id is None,
    {
        Message { role: Role::User, content: content.to_owned(), tool_calls: None, tool_call_id: None }
    }

    /// A system message.
    pub fn system(content: &str) -> (r: Message)
        ensures
            r.role == Role::System,
            r.content@ == content@,
            r.tool_calls is None,
            r.tool_call_id is None,
    {
        Message {
            role: Role::System,
            content: content.to_owned(),
            tool_calls: None,
            tool_call_id: None,
        }
    }

    /// An assistant message, with the tool calls it asked for, if any.
    pub fn assistant(content: &str, tool_calls: Option<Vec<ToolCall>>) -> (r: Message)
        ensures
            r.role == Role::Assistant,
            r.content@ == content@,
            r.tool_calls == tool_calls,
            r.tool_call_id is None,
    {
        Message {
            role: Role::Assistant,
            content: content.to_owned(),
            tool_calls,
            tool_call_id: None,
        }
    }

    /// A tool message answering the call with the given id.
    pub fn tool(content: &str, tool_call_id: &str) -> (r: Message)
        ensures
            r.role == Role::Tool,
            r.content@ == content@,
            r.tool_calls is None,
            r.tool_call_id matches Some(id) && id@ == tool_call_id@,
    {
        Message {
            role: Role::Tool,
            content: content.to_owned(),
            tool_calls: None,
            tool_call_id: Some(tool_call_id.to_owned()),
        }
    }
}

/// One element of a provider-neutral streaming response.
#[derive(Debug, Clone, PartialEq)]
pub enum LLMChunk {
    /// A piece of assistant text.
    Token(String),
    /// Tool calls, possibly fragmentary, as the wire delivered them.
    ToolCalls(Vec<ToolCall>),
    /// End of the stream.
    Done,
}

/// A well-formed chunk stream: chunks followed by exactly one `Done`, with
/// nothing after it.
pub open spec fn wf_chunk_seq(s: Seq<LLMChunk>) -> bool {
    &&& s.len() > 0
    &&& s.last() is Done
    &&& forall|i: int| 0 <= i < s.len() - 1 ==> !((#[trigger] s[i]) is Done)
}

/// Value object of an OpenAI-compatible provider: credentials and base
/// URL; transport state lives with the embedding.
#[derive(Debug)]
pub struct OpenAIProvider {
    pub api_key: String,
    pub base_url: String,
}

impl OpenAIProvider {
    /// A provider against the public OpenAI endpoint.
    pub fn new(api_key: &str) -> (r: Self)
        ensures
            r.api_key@ == api_key@,
            r.base_url@ == "https://api.openai.com/v1"@,
    {
        OpenAIProvider {
            api_key: api_key.to_owned(),
            base_url: "https://api.openai.com/v1".to_owned(),
        }
    }

    /// The same provider against another base URL.
    pub fn with_base_url(self, url: &str) -> (r: Self)
        ensures
            r.api_key == self.api_key,
            r.base_url@ == url@,
    {
        OpenAIProvider { api_key: self.api_key, base_url: url.to_owned() }
    }

    /// The URL chat requests go to.
    pub fn chat_url(&self) -> (r: String)
        ensures
            r@ == self.base_url@ + "/chat/completions"@,
    {
        let mut out: Vec<char> = Vec::new();
        push_str_chars(&mut out, self.base_url.as_str());
        push_str_chars(&mut out, "/chat/completions");
        chars_to_string(&out)
    }
}

/// Value object of a Gemini provider.
#[derive(Debug)]
pub struct GeminiProvider {
    pub api_key: String,
    pub base_url: String,
}

impl GeminiProvider {
    /// A provider against the public Gemini endpoint.
    pub fn new(api_key: &str) -> (r: Self)
        ensures
            r.api_key@ == api_key@,
            r.base_url@ == "https://generativelanguage.googleapis.com/v1beta"@,
    {
        GeminiProvider {
            api_key: api_key.to_owned(),
            base_url: "https://generativelanguage.googleapis.com/v1beta".to_owned(),
        }
    }

    /// The same provider against another base URL.
    pub fn with_base_url(self, url: &str) -> (r: Self)
        ensures
            r.api_key == self.api_key,
            r.base_url@ == url@,
    {
        GeminiProvider { api_key: self.api_key, base_url: url.to_owned() }
    }

    /// The URL a streaming generate-content request for `model` goes to,
    /// with the key as a query parameter.
    pub fn stream_url(&self, model: &str) -> (r: String)
        ensures
            r@ == self.base_url@ + "/models/"@ + model@ + ":streamGenerateContent?key="@
                + self.api_key@,
    {
        let mut out: Vec<char> = Vec::new();
        push_str_chars(&mut out, self.base_url.as_str());
        push_str_chars(&mut out, "/models/");
        push_str_chars(&mut out, model);
        push_str_chars(&mut out, ":streamGenerateContent?key=");
        push_str_chars(&mut out, self.api_key.as_str());
        chars_to_string(&out)
    }
}

} // verus!
