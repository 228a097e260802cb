//! The built-in tools: the todo-list builder and formatter, and the
//! file-reading tool's argument handling.

use vstd::prelude::*;

use crate::executor::ToolError;
use crate::json::{jlookup, jmodel, jmodel_seq, Json, JsonV};
use crate::strutil::{chars_to_string, dec_of, push_str_chars, push_u64, str_to_chars};

verus! {

broadcast use {vstd::seq::axiom_seq_index_decreases, vstd::std_specs::vec::axiom_vec_decreases_to_view};

/// State of one task.
#[derive(Debug, Clone, Copy, PartialEq, Eq, Structural)]
pub enum TodoItemStatus {
    Pending,
    InProgress,
    Completed,
    Blocked,
}

/// One task of a todo list.
#[derive(Debug)]
pub struct TodoItem {
    pub id: String,
    pub description: String,
    pub status: TodoItemStatus,
    pub depends_on: Vec<String>,
    pub notes: String,
}

/// A session's todo list. Instants are milliseconds since the Unix
/// epoch, as the embedding clock reports them.
#[derive(Debug)]
pub struct TodoList {
    pub session_id: String,
    pub title: String,
    pub items: Vec<TodoItem>,
    pub created_at: u64,
    pub updated_at: u64,
}

/// The model of one item: id, description, dependencies.
pub open spec fn item_model(it: TodoItem) -> (Seq<char>, Seq<char>, Seq<Seq<char>>) {
    (it.id@, it.description@, it.depends_on@.map_values(|s: String| s@))
}

/// The strings among the elements of a JSON array, in order.
pub open spec fn strings_of(es: Seq<JsonV>) -> Seq<Seq<char>>
    decreases es.len(),
{
    if es.len() == 0 {
        Seq::empty()
    } else {
        (match es[0] {
            JsonV::Str(s) => seq![s],
            _ => Seq::empty(),
        }) + strings_of(es.drop_first())
    }
}

/// The dependency names of one wire item: the strings of its
/// `depends_on` array, an empty list when absent or not an array.
pub open spec fn deps_model(e: JsonV) -> Seq<Seq<char>> {
    match jlookup(e, "depends_on"@) {
        Some(JsonV::Arr(es)) => strings_of(es),
        _ => Seq::empty(),
    }
}

/// The model one wire item yields: its `id` and `description` strings
/// and its dependencies; `None` when either string is missing.
pub open spec fn wire_item_model(e: JsonV) -> Option<(Seq<char>, Seq<char>, Seq<Seq<char>>)> {
    match (jlookup(e, "id"@), jlookup(e, "description"@)) {
        (Some(JsonV::Str(id)), Some(JsonV::Str(d))) => Some((id, d, deps_model(e))),
        _ => None,
    }
}

/// The models of all wire items, or `None` when any is malformed.
pub open spec fn wire_items_model(es: Seq<JsonV>, i: int) -> Option<
    Seq<(Seq<char>, Seq<char>, Seq<Seq<char>>)>,
>
    decreases es.len() - i,
    when 0 <= i <= es.len()
{
    if i >= es.len() {
        Some(Seq::empty())
    } else {
        match (wire_item_model(es[i]), wire_items_model(es, i + 1)) {
            (Some(m), Some(rest)) => Some(seq![m] + rest),
            _ => None,
        }
    }
}

#[verifier::loop_isolation(false)]
fn deps_from_json(e: &Json) -> (r: Vec<String>)
    ensures
        r@.map_values(|s: String| s@) == deps_model(jmodel(*e)),
{
    let empty: Vec<Json> = Vec::new();
    let arr: &Vec<Json> = match e.get("depends_on") {
        Some(d) => match d.as_array() {
            Some(a) => a,
            None => &empty,
        },
        None => &empty,
    };
    let ghost es = match jlookup(jmodel(*e), "depends_on"@) {
        Some(JsonV::Arr(x)) => x,
        _ => Seq::<JsonV>::empty(),
    };
    proof {
        crate::json::lemma_jmodel_seq(arr@, 0);
        assert(jmodel_seq(arr@, 0) =~= es);
    }
    let n = arr.len();
    let mut out: Vec<String> = Vec::new();
    let mut i: usize = 0;
    while i < n
        invariant
            0 <= i <= n,
            n == arr@.len(),
            es == jmodel_seq(arr@, 0),
            es.len() == n,
            forall|k: int| 0 <= k < n ==> es[k] == jmodel(arr@[k]),
            out@.map_values(|s: String| s@) == strings_of(es.take(i as int)),
        decreases n - i,
    {
        proof {
            lemma_strings_of_step(es, i as int);
        }
        match &arr[i] {
            Json::Str(s) => {
                out.push(s.clone());
                proof {
                    assert(out@.map_values(|s: String| s@) =~= strings_of(es.take(i as int + 1)));
                }
            },
            _ => {
                proof {
                    assert(out@.map_values(|s: String| s@) =~= strings_of(es.take(i as int + 1)));
                }
            },
        }
        i = i + 1;
    }
    proof {
        assert(es.take(n as int) =~= es);
    }
    out
}

proof fn lemma_strings_of_step(es: Seq<JsonV>, i: int)
    requires
        0 <= i < es.len(),
    ensures
        strings_of(es.take(i + 1)) == strings_of(es.take(i)) + (match es[i] {
            JsonV::Str(s) => seq![s],
            _ => Seq::<Seq<char>>::empty(),
        }),
    decreases i,
{
    reveal_with_fuel(strings_of, 3);
    if i == 0 {
        assert(es.take(1)[0] == es[0]);
        assert(es.take(1).drop_first() =~= Seq::<JsonV>::empty());
        assert(es.take(0) =~= Seq::<JsonV>::empty());
        assert(strings_of(es.take(1)) =~= strings_of(es.take(0)) + (match es[0] {
            JsonV::Str(s) => seq![s],
            _ => Seq::<Seq<char>>::empty(),
        }));
    } else {
        lemma_strings_of_step(es.drop_first(), i - 1);
        assert(es.take(i + 1).drop_first() =~= es.drop_first().take(i));
        assert(es.take(i).drop_first() =~= es.drop_first().take(i - 1));
        assert(es.take(i + 1)[0] == es[0]);
        assert(es.take(i)[0] == es[0]);
        assert(es.drop_first()[i - 1] == es[i]);
        assert(strings_of(es.take(i + 1)) =~= strings_of(es.take(i)) + (match es[i] {
            JsonV::Str(s) => seq![s],
            _ => Seq::<Seq<char>>::empty(),
        }));
    }
}

/// A list built from wire arguments: the title and items of the
/// document, the given session and instant, every item starting pending
/// with empty notes.
pub open spec fn todo_list_built(
    list: TodoList,
    v: JsonV,
    session_id: Seq<char>,
    now_ms: u64,
) -> bool {
    &&& jlookup(v, "title"@) matches Some(JsonV::Str(t)) && list.title@ == t
    &&& list.session_id@ == session_id
    &&& list.created_at == now_ms
    &&& list.updated_at == now_ms
    &&& jlookup(v, "items"@) matches Some(JsonV::Arr(es)) && wire_items_model(es, 0) == Some(
        list.items@.map_values(|it: TodoItem| item_model(it)),
    )
    &&& forall|k: int|
        0 <= k < list.items@.len() ==> (#[trigger] list.items@[k]).status
            == TodoItemStatus::Pending && list.items@[k].notes@ == Seq::<char>::empty()
}

/// Build a todo list from tool-call arguments.
///
/// `title` and `items` are required; each item needs string `id` and
/// `description`; dependencies are the strings of its `depends_on`.
/// Every item starts pending with empty notes.
#[verifier::loop_isolation(false)]
pub fn todo_list_from_args(args: &Json, session_id: &str, now_ms: u64) -> (r: Result<
    TodoList,
    ToolError,
>)
    ensures
        !(jlookup(jmodel(*args), "title"@) matches Some(JsonV::Str(_))) ==> (r matches Err(e)
            && (e matches ToolError::InvalidArguments(m) && m@ == "Missing 'title' parameter"@)),
        jlookup(jmodel(*args), "title"@) matches Some(JsonV::Str(_)) && !(jlookup(
            jmodel(*args),
            "items"@,
        ) matches Some(JsonV::Arr(_))) ==> (r matches Err(e) && (e matches
        ToolError::InvalidArguments(m) && m@ == "Missing 'items' parameter"@)),
        jlookup(jmodel(*args), "title"@) matches Some(JsonV::Str(_)) ==> (jlookup(
            jmodel(*args),
            "items"@,
        ) matches Some(JsonV::Arr(es)) ==> ((r is Ok) == (wire_items_model(es, 0) is Some))),
        r matches Ok(list) ==> todo_list_built(list, jmodel(*args), session_id@, now_ms),
        r matches Err(e) ==> e is InvalidArguments,
{
    let title = match args.get("title") {
        Some(t) => match t.as_str() {
            Some(s) => s.clone(),
            None => {
                return Err(ToolError::InvalidArguments("Missing 'title' parameter".to_owned()));
            },
        },
        None => {
            return Err(ToolError::InvalidArguments("Missing 'title' parameter".to_owned()));
        },
    };
    let arr = match args.get("items") {
        Some(x) => match x.as_array() {
            Some(a) => a,
            None => {
                return Err(ToolError::InvalidArguments("Missing 'items' parameter".to_owned()));
            },
        },
        None => {
            return Err(ToolError::InvalidArguments("Missing 'items' parameter".to_owned()));
        },
    };
    let ghost es = match jlookup(jmodel(*args), "items"@) {
        Some(JsonV::Arr(x)) => x,
        _ => Seq::<JsonV>::empty(),
    };
    proof {
        crate::json::lemma_jmodel_seq(arr@, 0);
        assert(jmodel_seq(arr@, 0) =~= es);
    }
    let n = arr.len();
    let mut items: Vec<TodoItem> = Vec::new();
    let mut i: usize = 0;
    while i < n
        invariant
            0 <= i <= n,
            n == arr@.len(),
            es == jmodel_seq(arr@, 0),
            es.len() == n,
            forall|k: int| 0 <= k < n ==> es[k] == jmodel(arr@[k]),
            wire_items_model(es, 0) matches Some(all) ==> all.take(i as int) == items@.map_values(
                |it: TodoItem| item_model(it),
            ),
            forall|k: int| 0 <= k < i ==> wire_item_model(es[k]) is Some,
            items@.len() == i,
            forall|k: int|
                0 <= k < items@.len() ==> (#[trigger] items@[k]).status == TodoItemStatus::Pending
                    && items@[k].notes@ == Seq::<char>::empty(),
            forall|k: int|
                0 <= k < i ==> wire_item_model(es[k]) == Some(item_model(#[trigger] items@[k])),
        decreases n - i,
    {
        let e = &arr[i];
        let id = match e.get("id") {
            Some(x) => match x.as_str() {
                Some(s) => s.clone(),
                None => {
                    proof {
                        lemma_items_model_bad(es, i as int);
                    }
                    return Err(ToolError::InvalidArguments("Item missing 'id'".to_owned()));
                },
            },
            None => {
                proof {
                    lemma_items_model_bad(es, i as int);
                }
                return Err(ToolError::InvalidArguments("Item missing 'id'".to_owned()));
            },
        };
        let description = match e.get("description") {
            Some(x) => match x.as_str() {
                Some(s) => s.clone(),
                None => {
                    proof {
                        lemma_items_model_bad(es, i as int);
                    }
                    return Err(
                        ToolError::InvalidArguments("Item missing 'description'".to_owned()),
                    );
                },
            },
            None => {
                proof {
                    lemma_items_model_bad(es, i as int);
                }
                return Err(ToolError::InvalidArguments("Item missing 'description'".to_owned()));
            },
        };
        let depends_on = deps_from_json(e);
        let item = TodoItem {
            id,
            description,
            status: TodoItemStatus::Pending,
            depends_on,
            notes: String::new(),
        };
        proof {
            assert(wire_item_model(es[i as int]) == Some(item_model(item)));
        }
        items.push(item);
        proof {
            if wire_items_model(es, 0) is Some {
                let all = wire_items_model(es, 0)->Some_0;
                lemma_items_model_len(es, 0);
                lemma_items_model_index(es, 0, i as int);
                assert(all.take(i as int + 1) =~= items@.map_values(
                    |it: TodoItem| item_model(it),
                ));
            }
        }
        i = i + 1;
    }
    proof {
        lemma_items_model_all(es, 0);
        lemma_items_model_len(es, 0);
        let all = wire_items_model(es, 0)->Some_0;
        assert(all.take(n as int) =~= all);
    }
    Ok(
        TodoList {
            session_id: session_id.to_owned(),
            title,
            items,
            created_at: now_ms,
            updated_at: now_ms,
        },
    )
}

/// A malformed item makes the whole list malformed.
proof fn lemma_items_model_bad(es: Seq<JsonV>, i: int)
    requires
        0 <= i < es.len(),
        wire_item_model(es[i]) is None,
    ensures
        forall|j: int| 0 <= j <= i ==> wire_items_model(es, j) is None,
{
    assert forall|j: int| 0 <= j <= i implies wire_items_model(es, j) is None by {
        lemma_items_model_bad_from(es, j, i);
    }
}

/// A well-formed list has one model per item.
proof fn lemma_items_model_len(es: Seq<JsonV>, j: int)
    requires
        0 <= j <= es.len(),
        wire_items_model(es, j) is Some,
    ensures
        wire_items_model(es, j)->Some_0.len() == es.len() - j,
    decreases es.len() - j,
{
    if j < es.len() {
        lemma_items_model_len(es, j + 1);
    }
}

proof fn lemma_items_model_bad_from(es: Seq<JsonV>, j: int, i: int)
    requires
        0 <= j <= i < es.len(),
        wire_item_model(es[i]) is None,
    ensures
        wire_items_model(es, j) is None,
    decreases i - j,
{
    if j < i {
        lemma_items_model_bad_from(es, j + 1, i);
    }
}

/// When the whole list is well formed, position `k` holds item `k`'s
/// model.
proof fn lemma_items_model_index(es: Seq<JsonV>, j: int, k: int)
    requires
        0 <= j <= k < es.len(),
        wire_items_model(es, j) is Some,
    ensures
        wire_item_model(es[k]) is Some,
        wire_items_model(es, j)->Some_0[k - j] == wire_item_model(es[k])->Some_0,
    decreases k - j,
{
    lemma_items_model_len(es, j);
    if j < k {
        lemma_items_model_index(es, j + 1, k);
        lemma_items_model_len(es, j + 1);
    }
}

/// A list whose items are all well formed is well formed.
proof fn lemma_items_model_all(es: Seq<JsonV>, j: int)
    requires
        0 <= j <= es.len(),
        forall|k: int| j <= k < es.len() ==> wire_item_model(#[trigger] es[k]) is Some,
    ensures
        wire_items_model(es, j) is Some,
    decreases es.len() - j,
{
    if j < es.len() {
        lemma_items_model_all(es, j + 1);
    }
}

/// The status icon of one task.
pub open spec fn status_icon(s: TodoItemStatus) -> Seq<char> {
    match s {
        TodoItemStatus::Pending => "[ ]"@,
        TodoItemStatus::InProgress => "[/]"@,
        TodoItemStatus::Completed => "[x]"@,
        TodoItemStatus::Blocked => "[!]"@,
    }
}

/// Dependency names joined by commas.
pub open spec fn joined_deps(deps: Seq<Seq<char>>, i: int) -> Seq<char>
    decreases deps.len() - i,
    when 0 <= i <= deps.len()
{
    if i >= deps.len() {
        Seq::empty()
    } else if i == deps.len() - 1 {
        deps[i]
    } else {
        deps[i] + ", "@ + joined_deps(deps, i + 1)
    }
}

/// The lines one task renders to.
pub open spec fn item_lines(it: TodoItem) -> Seq<char> {
    status_icon(it.status) + " "@ + it.id@ + ": "@ + it.description@ + "\n"@ + (if it.notes@.len()
        > 0 {
        "    Notes: "@ + it.notes@ + "\n"@
    } else {
        Seq::empty()
    }) + (if it.depends_on@.len() > 0 {
        "    Depends on: "@ + joined_deps(it.depends_on@.map_values(|s: String| s@), 0) + "\n"@
    } else {
        Seq::empty()
    })
}

/// The lines of the tasks from `i` on.
pub open spec fn items_lines(items: Seq<TodoItem>, i: int) -> Seq<char>
    decreases items.len() - i,
    when 0 <= i <= items.len()
{
    if i >= items.len() {
        Seq::empty()
    } else {
        item_lines(items[i]) + items_lines(items, i + 1)
    }
}

/// How many tasks are completed among `items[..i]`.
pub open spec fn completed_upto(items: Seq<TodoItem>, i: int) -> nat
    decreases i,
    when 0 <= i <= items.len()
{
    if i <= 0 {
        0
    } else {
        completed_upto(items, i - 1) + (if items[i - 1].status == TodoItemStatus::Completed {
            1nat
        } else {
            0nat
        })
    }
}

/// The whole rendering: title header, task lines, progress footer.
pub open spec fn todo_text(list: TodoList) -> Seq<char> {
    "# "@ + list.title@ + "\n\n"@ + items_lines(list.items@, 0) + "\nProgress: "@ + dec_of(
        completed_upto(list.items@, list.items@.len() as int),
    ) + "/"@ + dec_of(list.items@.len()) + " completed"@
}

/// Render a todo list for display.
#[verifier::loop_isolation(false)]
#[verifier::rlimit(100)]
pub fn format_todo_list(list: &TodoList) -> (r: String)
    ensures
        r@ == todo_text(*list),
{
    let mut out: Vec<char> = Vec::new();
    push_str_chars(&mut out, "# ");
    push_str_chars(&mut out, list.title.as_str());
    push_str_chars(&mut out, "\n\n");
    let ghost header = "# "@ + list.title@ + "\n\n"@;
    let n = list.items.len();
    let mut completed: u64 = 0;
    let mut i: usize = 0;
    proof {
        assert(out@ =~= header + items_lines(list.items@, 0).take(0));
        assert(items_lines(list.items@, 0).take(0) =~= Seq::<char>::empty());
        assert(out@ =~= header);
    }
    while i < n
        invariant
            0 <= i <= n,
            n == list.items@.len(),
            completed as nat == completed_upto(list.items@, i as int),
            completed <= i,
            out@ + items_lines(list.items@, i as int) == header + items_lines(list.items@, 0),
        decreases n - i,
    {
        let it = &list.items[i];
        push_str_chars(&mut out, it.status_icon_str());
        push_str_chars(&mut out, " ");
        push_str_chars(&mut out, it.id.as_str());
        push_str_chars(&mut out, ": ");
        push_str_chars(&mut out, it.description.as_str());
        push_str_chars(&mut out, "\n");
        let notes_chars = str_to_chars(it.notes.as_str());
        if notes_chars.len() > 0 {
            push_str_chars(&mut out, "    Notes: ");
            push_str_chars(&mut out, it.notes.as_str());
            push_str_chars(&mut out, "\n");
        }
        if it.depends_on.len() > 0 {
            push_str_chars(&mut out, "    Depends on: ");
            let dn = it.depends_on.len();
            let ghost deps = it.depends_on@.map_values(|s: String| s@);
            let ghost dep_base = out@;
            let mut d: usize = 0;
            while d < dn
                invariant
                    0 <= d <= dn,
                    dn == it.depends_on@.len(),
                    deps == it.depends_on@.map_values(|s: String| s@),
                    deps.len() == dn,
                    dn > 0,
                    out@ + joined_deps(deps, d as int) == dep_base + joined_deps(deps, 0),
                decreases dn - d,
            {
                push_str_chars(&mut out, it.depends_on[d].as_str());
                if d + 1 < dn {
                    push_str_chars(&mut out, ", ");
                }
                proof {
                    if d as int == dn - 1 {
                        assert(joined_deps(deps, d as int) == deps[d as int]);
                    } else {
                        assert(joined_deps(deps, d as int) == deps[d as int] + ", "@
                            + joined_deps(deps, d as int + 1));
                    }
                    assert(out@ + joined_deps(deps, d as int + 1) =~= dep_base + joined_deps(
                        deps,
                        0,
                    ));
                }
                d = d + 1;
            }
            proof {
                assert(joined_deps(deps, dn as int) =~= Seq::<char>::empty());
                assert(out@ + Seq::<char>::empty() =~= out@);
            }
            push_str_chars(&mut out, "\n");
        }
        if matches!(it.status, TodoItemStatus::Completed) {
            completed = completed + 1;
        }
        proof {
            assert(out@ + items_lines(list.items@, i as int + 1) =~= header + items_lines(
                list.items@,
                0,
            ));
        }
        i = i + 1;
    }
    proof {
        assert(items_lines(list.items@, n as int) =~= Seq::<char>::empty());
        assert(out@ =~= header + items_lines(list.items@, 0));
    }
    push_str_chars(&mut out, "\nProgress: ");
    push_u64(&mut out, completed);
    push_str_chars(&mut out, "/");
    push_u64(&mut out, n as u64);
    push_str_chars(&mut out, " completed");
    proof {
        assert(out@ =~= todo_text(*list));
    }
    chars_to_string(&out)
}

impl TodoItem {
    /// The icon of one entry's status.
    pub fn status_icon_str(&self) -> (r: &'static str)
        ensures
            r@ == status_icon(self.status),
    {
        match self.status {
            TodoItemStatus::Pending => "[ ]",
            TodoItemStatus::InProgress => "[/]",
            TodoItemStatus::Completed => "[x]",
            TodoItemStatus::Blocked => "[!]",
        }
    }
}

} // verus!
