//! The built-in tool value objects, the transport contract, command
//! listing types and the model-mapping table.

use vstd::prelude::*;

use crate::errors::McpError;
use crate::executor::{ToolError, ToolResult};
use crate::json::{jlookup, jmodel, jmodel_fields, Json, JsonV};
use crate::strutil::string_eq_str;

verus! {

/// The channel to one MCP server, as the embedding implements it: a line
/// in, a line out, and a connection flag. The protocol client drives it.
pub trait McpTransport {
    /// Open the channel.
    fn connect(&mut self) -> Result<(), McpError>;

    /// Close the channel.
    fn disconnect(&mut self) -> Result<(), McpError>;

    /// Send one framed line.
    fn send(&self, message: String) -> Result<(), McpError>;

    /// Receive one framed line, `None` when none is waiting.
    fn receive(&self) -> Result<Option<String>, McpError>;

    /// Whether the channel is open.
    fn is_connected(&self) -> bool;
}

/// The tool that builds a session todo list.
#[derive(Debug)]
pub struct CreateTodoListTool;

impl CreateTodoListTool {
    /// The tool value.
    pub fn new() -> (r: Self)
    {
        CreateTodoListTool
    }

    /// The tool's wire name.
    pub fn name(&self) -> (r: &'static str)
        ensures
            r@ == "create_todo_list"@,
    {
        "create_todo_list"
    }

    /// The tool's description shown to the model.
    pub fn description(&self) -> (r: &'static str)
        ensures
            r@.len() > 0,
    {
        proof {
            reveal_strlit(
                "Create a structured todo list to track multi-step task progress. IMPORTANT: When the user requests multiple tasks or complex work, you MUST use this tool to create a formal todo list instead of writing markdown checklists. This enables real-time progress tracking and automatic status updates. After creation, the todo list will be displayed in the UI and the system will track progress automatically.",
            );
        }
        "Create a structured todo list to track multi-step task progress. IMPORTANT: When the user requests multiple tasks or complex work, you MUST use this tool to create a formal todo list instead of writing markdown checklists. This enables real-time progress tracking and automatic status updates. After creation, the todo list will be displayed in the UI and the system will track progress automatically."
    }

    /// The JSON Schema of the tool's parameters: an object requiring a
    /// title and an item list.
    pub fn parameters_schema(&self) -> (r: Json)
        ensures
            jlookup(jmodel(r), "type"@) == Some(JsonV::Str("object"@)),
            jlookup(jmodel(r), "properties"@) is Some,
            jlookup(jmodel(r), "required"@) matches Some(JsonV::Arr(req)) && req
                == seq![JsonV::Str("title"@), JsonV::Str("items"@)],
    {
        let mut title: Vec<(String, Json)> = Vec::new();
        title.push(("type".to_owned(), Json::Str("string".to_owned())));
        title.push(("description".to_owned(), Json::Str("Title of the todo list".to_owned())));
        let mut dep_items: Vec<(String, Json)> = Vec::new();
        dep_items.push(("type".to_owned(), Json::Str("string".to_owned())));
        let mut deps: Vec<(String, Json)> = Vec::new();
        deps.push(("type".to_owned(), Json::Str("array".to_owned())));
        deps.push(("items".to_owned(), Json::Obj(dep_items)));
        deps.push(
            (
                "description".to_owned(),
                Json::Str("IDs of the entries it depends on".to_owned()),
            ),
        );
        let mut id_p: Vec<(String, Json)> = Vec::new();
        id_p.push(("type".to_owned(), Json::Str("string".to_owned())));
        id_p.push(
            (
                "description".to_owned(),
                Json::Str(
                    "Unique identifier for the task, e.g., '1', '2', 'analyze-code'".to_owned(),
                ),
            ),
        );
        let mut desc_p: Vec<(String, Json)> = Vec::new();
        desc_p.push(("type".to_owned(), Json::Str("string".to_owned())));
        desc_p.push(("description".to_owned(), Json::Str("Task description".to_owned())));
        let mut item_props: Vec<(String, Json)> = Vec::new();
        item_props.push(("id".to_owned(), Json::Obj(id_p)));
        item_props.push(("description".to_owned(), Json::Obj(desc_p)));
        item_props.push(("depends_on".to_owned(), Json::Obj(deps)));
        let mut item_req: Vec<Json> = Vec::new();
        item_req.push(Json::Str("id".to_owned()));
        item_req.push(Json::Str("description".to_owned()));
        let mut item_schema: Vec<(String, Json)> = Vec::new();
        item_schema.push(("type".to_owned(), Json::Str("object".to_owned())));
        item_schema.push(("properties".to_owned(), Json::Obj(item_props)));
        item_schema.push(("required".to_owned(), Json::Arr(item_req)));
        let mut items: Vec<(String, Json)> = Vec::new();
        items.push(("type".to_owned(), Json::Str("array".to_owned())));
        items.push(("description".to_owned(), Json::Str("List of tasks".to_owned())));
        items.push(("items".to_owned(), Json::Obj(item_schema)));
        let mut props: Vec<(String, Json)> = Vec::new();
        props.push(("title".to_owned(), Json::Obj(title)));
        props.push(("items".to_owned(), Json::Obj(items)));
        let mut req: Vec<Json> = Vec::new();
        req.push(Json::Str("title".to_owned()));
        req.push(Json::Str("items".to_owned()));
        let mut o: Vec<(String, Json)> = Vec::new();
        o.push(("type".to_owned(), Json::Str("object".to_owned())));
        o.push(("properties".to_owned(), Json::Obj(props)));
        o.push(("required".to_owned(), Json::Arr(req)));
        proof {
            crate::json::lemma_jmodel_fields(o@, 0);
            reveal_with_fuel(crate::json::jget_from, 5);
            reveal_strlit("type");
            reveal_strlit("properties");
            reveal_strlit("required");
            assert("type"@.len() == 4 && "properties"@.len() == 10 && "required"@.len() == 8);
            crate::json::lemma_jmodel_seq(o@[2].1->Arr_0@, 0);
            assert(crate::json::jmodel_seq(o@[2].1->Arr_0@, 0) =~= seq![
                JsonV::Str("title"@),
                JsonV::Str("items"@),
            ]);
        }
        Json::Obj(o)
    }

    /// Run the tool: build the list and render it. Success is owed
    /// exactly when the arguments carry a title string and a well-formed
    /// item array, and then the result is the rendering of the built
    /// list.
    pub fn execute(&self, args: &Json, now_ms: u64) -> (r: Result<ToolResult, ToolError>)
        ensures
            r matches Ok(t) ==> t.success && t.display_preference is None && (exists|
                list: crate::todo::TodoList,
            |
                #[trigger] crate::todo::todo_list_built(list, jmodel(*args), "current"@, now_ms)
                    && t.result@ == crate::todo::todo_text(list)),
            (r is Ok) == (jlookup(jmodel(*args), "title"@) matches Some(JsonV::Str(_)) && (
            jlookup(jmodel(*args), "items"@) matches Some(JsonV::Arr(es)) &&
            crate::todo::wire_items_model(es, 0) is Some)),
            r matches Err(e) ==> e is InvalidArguments,
    {
        let list = crate::todo::todo_list_from_args(args, "current", now_ms)?;
        let formatted = crate::todo::format_todo_list(&list);
        proof {
            assert(crate::todo::todo_list_built(list, jmodel(*args), "current"@, now_ms));
        }
        Ok(ToolResult { success: true, result: formatted, display_preference: None })
    }
}

impl Default for CreateTodoListTool {
    /// The tool value.
    fn default() -> (r: Self)
    {
        CreateTodoListTool
    }
}

/// The tool that reads a file.
#[derive(Debug)]
pub struct ReadFileTool;

impl ReadFileTool {
    /// The tool value.
    pub fn new() -> (r: Self)
    {
        ReadFileTool
    }

    /// The tool's wire name.
    pub fn name(&self) -> (r: &'static str)
        ensures
            r@ == "read_file"@,
    {
        "read_file"
    }

    /// The tool's description shown to the model.
    pub fn description(&self) -> (r: &'static str)
        ensures
            r@.len() > 0,
    {
        proof {
            reveal_strlit(
                "Read file content. Supports text files (txt, json, md, rs, etc.). Path can be absolute (e.g., /Users/bigduu/workspace/file.txt) or use ~ for home directory (e.g., ~/.bamboo/skills/my-skill/SKILL.md)",
            );
        }
        "Read file content. Supports text files (txt, json, md, rs, etc.). Path can be absolute (e.g., /Users/bigduu/workspace/file.txt) or use ~ for home directory (e.g., ~/.bamboo/skills/my-skill/SKILL.md)"
    }

    /// The JSON Schema of the tool's parameters: an object requiring a
    /// path.
    pub fn parameters_schema(&self) -> (r: Json)
        ensures
            jlookup(jmodel(r), "type"@) == Some(JsonV::Str("object"@)),
            jlookup(jmodel(r), "properties"@) is Some,
            jlookup(jmodel(r), "required"@) matches Some(JsonV::Arr(req)) && req == seq![
                JsonV::Str("path"@),
            ],
    {
        let mut path_p: Vec<(String, Json)> = Vec::new();
        path_p.push(("type".to_owned(), Json::Str("string".to_owned())));
        path_p.push(
            ("description".to_owned(), Json::Str("Absolute path of the file".to_owned())),
        );
        let mut props: Vec<(String, Json)> = Vec::new();
        props.push(("path".to_owned(), Json::Obj(path_p)));
        let mut req: Vec<Json> = Vec::new();
        req.push(Json::Str("path".to_owned()));
        let mut o: Vec<(String, Json)> = Vec::new();
        o.push(("type".to_owned(), Json::Str("object".to_owned())));
        o.push(("properties".to_owned(), Json::Obj(props)));
        o.push(("required".to_owned(), Json::Arr(req)));
        proof {
            crate::json::lemma_jmodel_fields(o@, 0);
            reveal_with_fuel(crate::json::jget_from, 5);
            reveal_strlit("type");
            reveal_strlit("properties");
            reveal_strlit("required");
            assert("type"@.len() == 4 && "properties"@.len() == 10 && "required"@.len() == 8);
            crate::json::lemma_jmodel_seq(o@[2].1->Arr_0@, 0);
            assert(crate::json::jmodel_seq(o@[2].1->Arr_0@, 0) =~= seq![JsonV::Str("path"@)]);
        }
        Json::Obj(o)
    }

    /// The path a call asks to read, when its arguments carry one.
    pub fn path_of_args(args: &Json) -> (r: Result<String, ToolError>)
        ensures
            jlookup(jmodel(*args), "path"@) matches Some(JsonV::Str(p)) ==> (r matches Ok(s)
                && s@ == p),
            r is Ok ==> jlookup(jmodel(*args), "path"@) matches Some(JsonV::Str(_)),
            r matches Err(e) ==> e is InvalidArguments,
    {
        match args.get("path") {
            Some(x) => match x.as_str() {
                Some(s) => Ok(s.clone()),
                None => Err(ToolError::InvalidArguments("Missing 'path' parameter".to_owned())),
            },
            None => Err(ToolError::InvalidArguments("Missing 'path' parameter".to_owned())),
        }
    }
}

impl Default for ReadFileTool {
    /// The tool value.
    fn default() -> (r: Self)
    {
        ReadFileTool
    }
}

/// The kind of a listed command.
#[derive(Debug, Clone, Copy, PartialEq, Eq, Structural)]
pub enum CommandType {
    Workflow,
    Skill,
    Mcp,
}

/// The wire name of a command kind.
pub open spec fn spec_command_type_str(c: CommandType) -> Seq<char> {
    match c {
        CommandType::Workflow => "workflow"@,
        CommandType::Skill => "skill"@,
        CommandType::Mcp => "mcp"@,
    }
}

impl CommandType {
    /// The wire name of this kind.
    pub fn type_str(&self) -> (r: &'static str)
        ensures
            r@ == spec_command_type_str(*self),
    {
        match self {
            CommandType::Workflow => "workflow",
            CommandType::Skill => "skill",
            CommandType::Mcp => "mcp",
        }
    }
}

/// One command the client can invoke.
#[derive(Debug)]
pub struct CommandItem {
    pub id: String,
    pub name: String,
    pub display_name: String,
    pub description: String,
    pub command_type: String,
    pub category: Option<String>,
    pub tags: Option<Vec<String>>,
    pub metadata: Json,
}

/// The full command listing.
#[derive(Debug)]
pub struct CommandListResponse {
    pub commands: Vec<CommandItem>,
    pub total: usize,
}

/// The model-name mapping table, kept in file order.
#[derive(Debug)]
pub struct AnthropicModelMapping {
    pub mappings: Vec<(String, String)>,
}

/// The first mapped name for `model` in `ms[i..]`.
pub open spec fn spec_mapping_lookup(ms: Seq<(String, String)>, model: Seq<char>, i: int) -> Option<
    Seq<char>,
>
    decreases ms.len() - i,
    when 0 <= i <= ms.len()
{
    if i >= ms.len() {
        None
    } else if ms[i].0@ == model {
        Some(ms[i].1@)
    } else {
        spec_mapping_lookup(ms, model, i + 1)
    }
}

impl Default for AnthropicModelMapping {
    /// An empty table.
    fn default() -> (r: Self)
        ensures
            r.mappings@.len() == 0,
    {
        AnthropicModelMapping { mappings: Vec::new() }
    }
}

impl AnthropicModelMapping {
    /// The mapped name for `model`, when the table names one.
    #[verifier::loop_isolation(false)]
    pub fn resolve(&self, model: &str) -> (r: Option<String>)
        ensures
            match r {
                Some(m) => spec_mapping_lookup(self.mappings@, model@, 0) == Some(m@),
                None => spec_mapping_lookup(self.mappings@, model@, 0) is None,
            },
    {
        let n = self.mappings.len();
        let mut i: usize = 0;
        while i < n
            invariant
                0 <= i <= n,
                n == self.mappings@.len(),
                spec_mapping_lookup(self.mappings@, model@, 0) == spec_mapping_lookup(
                    self.mappings@,
                    model@,
                    i as int,
                ),
            decreases n - i,
        {
            if string_eq_str(&self.mappings[i].0, model) {
                return Some(self.mappings[i].1.clone());
            }
            i = i + 1;
        }
        None
    }
}

} // verus!

// Capping large tool outputs.

verus! {

/// Reference to a stored artifact: a tool output too large to stay
/// inline, kept under the given path.
#[derive(Debug)]
pub struct ArtifactRef {
    /// Unique identifier for the artifact.
    pub id: String,
    /// Original tool call id.
    pub tool_call_id: String,
    /// Path of the stored artifact file.
    pub path: String,
    /// Token count of the full content.
    pub full_token_count: u32,
}

/// The character budget a token budget buys: three and a half characters
/// per token, rounded down.
pub open spec fn char_budget(max_tokens: u32) -> int {
    (7 * max_tokens) / 2
}

/// The largest position below `j` holding a newline or space, or `-1`
/// when there is none.
pub open spec fn last_boundary(s: Seq<char>, j: int) -> int
    decreases j,
    when 0 <= j <= s.len()
{
    if j <= 0 {
        -1
    } else if s[j - 1] == '\n' || s[j - 1] == ' ' {
        j - 1
    } else {
        last_boundary(s, j - 1)
    }
}

/// Where truncation cuts: the last line or word boundary inside the
/// budget, or the whole budget when it has none.
pub open spec fn cut_at(s: Seq<char>, budget: int) -> int {
    if last_boundary(s, budget) >= 0 {
        last_boundary(s, budget)
    } else {
        budget
    }
}

/// Truncate a tool output to a token budget: text inside the budget
/// passes through; longer text is cut at the last line or word boundary
/// inside the budget — or at the budget itself when it has none — and
/// marked with an ellipsis.
#[verifier::loop_isolation(false)]
pub fn truncate_to_token_limit(text: &str, max_tokens: u32) -> (r: String)
    ensures
        text@.len() <= char_budget(max_tokens) ==> r@ == text@,
        text@.len() > char_budget(max_tokens) ==> r@ == text@.take(
            cut_at(text@, char_budget(max_tokens)),
        ) + "..."@,
{
    let cs = crate::strutil::str_to_chars(text);
    let n = cs.len();
    let budget_wide: u64 = (7 * (max_tokens as u64)) / 2;
    if budget_wide >= n as u64 {
        return text.to_owned();
    }
    let budget: usize = budget_wide as usize;
    // look backward for a newline or space inside the budget
    let mut cut = budget;
    let mut j = budget;
    let mut found = false;
    while j > 0 && !found
        invariant
            0 <= j <= budget,
            budget <= n == cs@.len(),
            !found ==> last_boundary(cs@, budget as int) == last_boundary(cs@, j as int)
                && cut == budget,
            found ==> cut as int == last_boundary(cs@, budget as int) && cut < budget,
        decreases j, (if found { 0int } else { 1int }),
    {
        if cs[j - 1] == '\n' || cs[j - 1] == ' ' {
            found = true;
            cut = j - 1;
        } else {
            j = j - 1;
        }
    }
    proof {
        assert(cut as int == cut_at(cs@, budget as int));
    }
    let mut out: Vec<char> = Vec::new();
    let mut i: usize = 0;
    while i < cut
        invariant
            0 <= i <= cut,
            cut <= budget <= n == cs@.len(),
            out@ == cs@.take(i as int),
        decreases cut - i,
    {
        out.push(cs[i]);
        proof {
            assert(out@ =~= cs@.take(i as int + 1));
        }
        i = i + 1;
    }
    crate::strutil::push_str_chars(&mut out, "...");
    crate::strutil::chars_to_string(&out)
}

} // verus!
