//! The tool index: the process-wide mapping from a flat alias to the
//! server and original tool name behind it.
//!
//! An alias reads `mcp__{server_id}__{tool_name}`. The index never holds
//! two entries under one alias: registration skips an alias that is
//! already taken, and removal by server drops every entry the server owns.

use vstd::prelude::*;

use crate::spec_alias_name;
use crate::strutil::{contains_string, push_str_chars, string_eq_str, views_of};
use crate::types::{McpTool, ToolAlias};

verus! {

/// One entry as the specification sees it: alias, server, original name.
pub type AliasEntry = (Seq<char>, Seq<char>, Seq<char>);

/// The model of one alias.
pub open spec fn amodel(a: ToolAlias) -> AliasEntry {
    (a.alias@, a.server_id@, a.original_name@)
}

/// The model of a list of aliases.
pub open spec fn imodel(s: Seq<ToolAlias>) -> Seq<AliasEntry> {
    s.map_values(|a: ToolAlias| amodel(a))
}

/// Whether some entry carries the alias.
pub open spec fn has_alias(m: Seq<AliasEntry>, alias: Seq<char>) -> bool {
    exists|i: int| 0 <= i < m.len() && (#[trigger] m[i]).0 == alias
}

/// The first entry under `alias` in `m[i..]`.
pub open spec fn spec_find(m: Seq<AliasEntry>, alias: Seq<char>, i: int) -> Option<AliasEntry>
    decreases m.len() - i,
    when 0 <= i <= m.len()
{
    if i >= m.len() {
        None
    } else if m[i].0 == alias {
        Some(m[i])
    } else {
        spec_find(m, alias, i + 1)
    }
}

/// Entries are pairwise distinct by alias, and every alias spells
/// `mcp__{server}__{name}` for its own entry.
pub open spec fn wf_entries(m: Seq<AliasEntry>) -> bool {
    &&& forall|i: int, j: int|
        0 <= i < m.len() && 0 <= j < m.len() && i != j ==> (#[trigger] m[i]).0 != (
        #[trigger] m[j]).0
    &&& forall|i: int|
        0 <= i < m.len() ==> (#[trigger] m[i]).0 == spec_alias_name(m[i].1, m[i].2)
}

/// A tool name passes the allow and deny lists: the allow list is empty or
/// names it, and the deny list does not.
pub open spec fn passes_filter(
    allowed: Seq<Seq<char>>,
    denied: Seq<Seq<char>>,
    name: Seq<char>,
) -> bool {
    (allowed.len() == 0 || allowed.contains(name)) && !denied.contains(name)
}

/// The names of a list of tools.
pub open spec fn tool_names(tools: Seq<McpTool>) -> Seq<Seq<char>> {
    tools.map_values(|t: McpTool| t.name@)
}

/// The entries that registering `names` for `sid` against the index `m`
/// adds, in order: one per name that passes the filter and whose alias is
/// still free, each extending the index for the names after it.
pub open spec fn spec_register(
    m: Seq<AliasEntry>,
    sid: Seq<char>,
    names: Seq<Seq<char>>,
    allowed: Seq<Seq<char>>,
    denied: Seq<Seq<char>>,
) -> Seq<AliasEntry>
    decreases names.len(),
{
    if names.len() == 0 {
        Seq::empty()
    } else {
        let name = names[0];
        let al = spec_alias_name(sid, name);
        if passes_filter(allowed, denied, name) && !has_alias(m, al) {
            seq![(al, sid, name)] + spec_register(
                m.push((al, sid, name)),
                sid,
                names.drop_first(),
                allowed,
                denied,
            )
        } else {
            spec_register(m, sid, names.drop_first(), allowed, denied)
        }
    }
}

/// The process-wide alias namespace.
pub struct ToolIndex {
    aliases: Vec<ToolAlias>,
}

fn clone_alias(a: &ToolAlias) -> (r: ToolAlias)
    ensures
        amodel(r) == amodel(*a),
{
    ToolAlias {
        alias: a.alias.clone(),
        server_id: a.server_id.clone(),
        original_name: a.original_name.clone(),
    }
}

/// The alias under which `tool_name` of `server_id` is published.
pub fn alias_name(server_id: &str, tool_name: &str) -> (r: String)
    ensures
        r@ == spec_alias_name(server_id@, tool_name@),
{
    let mut out: Vec<char> = Vec::new();
    push_str_chars(&mut out, "mcp__");
    push_str_chars(&mut out, server_id);
    push_str_chars(&mut out, "__");
    push_str_chars(&mut out, tool_name);
    crate::strutil::chars_to_string(&out)
}

impl ToolIndex {
    /// The model of this index.
    pub closed spec fn view(&self) -> Seq<AliasEntry> {
        imodel(self.aliases@)
    }

    /// The index invariant.
    pub open spec fn wf(&self) -> bool {
        wf_entries(self@)
    }

    /// An empty index.
    pub fn new() -> (r: Self)
        ensures
            r@ == Seq::<AliasEntry>::empty(),
            r.wf(),
    {
        let r = ToolIndex { aliases: Vec::new() };
        proof {
            assert(r@ =~= Seq::<AliasEntry>::empty());
        }
        r
    }

    /// The mapping behind `alias`: the first entry carrying it, which under
    /// the index invariant is the only one.
    #[verifier::loop_isolation(false)]
    pub fn lookup(&self, alias: &str) -> (r: Option<ToolAlias>)
        ensures
            match r {
                Some(a) => spec_find(self@, alias@, 0) == Some(amodel(a)),
                None => spec_find(self@, alias@, 0) is None,
            },
    {
        let n = self.aliases.len();
        let mut i: usize = 0;
        while i < n
            invariant
                0 <= i <= n,
                n == self.aliases@.len(),
                spec_find(self@, alias@, 0) == spec_find(self@, alias@, i as int),
            decreases n - i,
        {
            if string_eq_str(&self.aliases[i].alias, alias) {
                return Some(clone_alias(&self.aliases[i]));
            }
            i = i + 1;
        }
        None
    }

    /// Every entry, in registration order.
    #[verifier::loop_isolation(false)]
    pub fn all_aliases(&self) -> (r: Vec<ToolAlias>)
        ensures
            imodel(r@) == self@,
    {
        let n = self.aliases.len();
        let mut out: Vec<ToolAlias> = Vec::new();
        let mut i: usize = 0;
        while i < n
            invariant
                0 <= i <= n,
                n == self.aliases@.len(),
                imodel(out@) == self@.take(i as int),
            decreases n - i,
        {
            out.push(clone_alias(&self.aliases[i]));
            proof {
                assert(imodel(out@) =~= self@.take(i as int + 1));
            }
            i = i + 1;
        }
        proof {
            assert(self@.take(n as int) =~= self@);
        }
        out
    }

    /// Register the tools of one server, filtered by the allow and deny
    /// lists, and return the aliases that were added.
    #[verifier::loop_isolation(false)]
    pub fn register_server_tools(
        &mut self,
        server_id: &str,
        tools: &Vec<McpTool>,
        allowed: &Vec<String>,
        denied: &Vec<String>,
    ) -> (r: Vec<ToolAlias>)
        requires
            old(self).wf(),
        ensures
            final(self).wf(),
            imodel(r@) == spec_register(
                old(self)@,
                server_id@,
                tool_names(tools@),
                views_of(allowed@),
                views_of(denied@),
            ),
            final(self)@ == old(self)@ + imodel(r@),
    {
        let ghost names = tool_names(tools@);
        let ghost al_list = views_of(allowed@);
        let ghost dl_list = views_of(denied@);
        let n = tools.len();
        let mut added: Vec<ToolAlias> = Vec::new();
        let mut k: usize = 0;
        proof {
            assert(names.skip(0) =~= names);
            assert(self@ + imodel(added@) =~= self@);
        }
        while k < n
            invariant
                0 <= k <= n,
                n == tools@.len(),
                self.wf(),
                self@ == old(self)@ + imodel(added@),
                spec_register(old(self)@, server_id@, names, al_list, dl_list) == imodel(added@)
                    + spec_register(self@, server_id@, names.skip(k as int), al_list, dl_list),
            decreases n - k,
        {
            let name = &tools[k].name;
            let allow_ok = allowed.len() == 0 || contains_string(allowed, name.as_str());
            let deny_hit = contains_string(denied, name.as_str());
            let ghost pre = self@;
            let ghost pre_added = added@;
            proof {
                assert(names.skip(k as int)[0] == names[k as int]);
                assert(names.skip(k as int).drop_first() =~= names.skip(k as int + 1));
            }
            if allow_ok && !deny_hit {
                let al = alias_name(server_id, name.as_str());
                let taken = self.lookup(al.as_str());
                match taken {
                    Some(_) => {
                        proof {
                            lemma_find_some_has_alias(pre, al@, 0);
                        }
                    },
                    None => {
                        proof {
                            lemma_find_none_no_alias(pre, al@, 0);
                        }
                        let entry = ToolAlias {
                            alias: al,
                            server_id: server_id.to_owned(),
                            original_name: name.clone(),
                        };
                        let ghost t = amodel(entry);
                        self.aliases.push(clone_alias(&entry));
                        added.push(entry);
                        proof {
                            assert(self@ =~= pre.push(t));
                            assert(imodel(added@) =~= imodel(pre_added).push(t));
                            assert(imodel(pre_added).push(t) =~= imodel(pre_added) + seq![t]);
                            assert(imodel(added@) =~= imodel(pre_added) + seq![t]);
                            assert(self@ =~= old(self)@ + imodel(added@));
                            assert(spec_register(pre, server_id@, names.skip(k as int), al_list,
                                dl_list) == seq![t] + spec_register(
                                pre.push(t),
                                server_id@,
                                names.skip(k as int + 1),
                                al_list,
                                dl_list,
                            ));
                        }
                    },
                }
            }
            k = k + 1;
        }
        proof {
            assert(names.skip(n as int) =~= Seq::<Seq<char>>::empty());
            assert(spec_register(self@, server_id@, names.skip(n as int), al_list, dl_list)
                =~= Seq::<AliasEntry>::empty());
            assert(imodel(added@) + Seq::<AliasEntry>::empty() =~= imodel(added@));
        }
        added
    }

    /// Drop every alias owned by `server_id`.
    #[verifier::loop_isolation(false)]
    pub fn remove_server_tools(&mut self, server_id: &str)
        requires
            old(self).wf(),
        ensures
            final(self).wf(),
            final(self)@ == old(self)@.filter(|t: AliasEntry| t.1 != server_id@),
    {
        let n = self.aliases.len();
        let mut kept: Vec<ToolAlias> = Vec::new();
        let ghost pred = |t: AliasEntry| t.1 != server_id@;
        let mut i: usize = 0;
        proof {
            reveal(Seq::filter);
            assert(imodel(kept@) =~= self@.take(0).filter(pred));
        }
        while i < n
            invariant
                0 <= i <= n,
                n == self.aliases@.len(),
                imodel(kept@) == self@.take(i as int).filter(pred),
            decreases n - i,
        {
            proof {
                reveal(Seq::filter);
                assert(self@.take(i as int + 1).drop_last() =~= self@.take(i as int));
                assert(self@.take(i as int + 1).last() == self@[i as int]);
            }
            if !string_eq_str(&self.aliases[i].server_id, server_id) {
                kept.push(clone_alias(&self.aliases[i]));
                proof {
                    assert(imodel(kept@) =~= self@.take(i as int).filter(pred).push(
                        self@[i as int],
                    ));
                }
            }
            i = i + 1;
        }
        proof {
            assert(self@.take(n as int) =~= self@);
            lemma_filter_keeps_wf(self@, pred);
        }
        self.aliases = kept;
    }
}

proof fn lemma_no_alias_find_none(m: Seq<AliasEntry>, alias: Seq<char>, i: int)
    requires
        0 <= i <= m.len(),
        forall|k: int| i <= k < m.len() ==> (#[trigger] m[k]).0 != alias,
    ensures
        spec_find(m, alias, i) is None,
    decreases m.len() - i,
{
    if i < m.len() {
        lemma_no_alias_find_none(m, alias, i + 1);
    }
}

proof fn lemma_find_from(m: Seq<AliasEntry>, alias: Seq<char>, i: int, p: int)
    requires
        0 <= i <= p < m.len(),
        m[p].0 == alias,
        forall|q: int| i <= q < p ==> (#[trigger] m[q]).0 != alias,
    ensures
        spec_find(m, alias, i) == Some(m[p]),
    decreases p - i,
{
    if i < p {
        lemma_find_from(m, alias, i + 1, p);
    }
}

/// What registration adds: every added entry belongs to the server, spells
/// its alias by the pattern, was free in the index it was added to, and
/// differs in alias from every entry added before it.
pub proof fn lemma_register_added_props(
    m: Seq<AliasEntry>,
    sid: Seq<char>,
    names: Seq<Seq<char>>,
    allowed: Seq<Seq<char>>,
    denied: Seq<Seq<char>>,
)
    ensures
        ({
            let added = spec_register(m, sid, names, allowed, denied);
            &&& forall|k: int|
                0 <= k < added.len() ==> (#[trigger] added[k]).1 == sid && added[k].0
                    == spec_alias_name(sid, added[k].2) && !has_alias(m, added[k].0)
            &&& forall|j: int, k: int|
                0 <= j < k < added.len() ==> (#[trigger] added[j]).0 != (#[trigger] added[k]).0
        }),
    decreases names.len(),
{
    if names.len() > 0 {
        let name = names[0];
        let al = spec_alias_name(sid, name);
        let t = (al, sid, name);
        if passes_filter(allowed, denied, name) && !has_alias(m, al) {
            lemma_register_added_props(m.push(t), sid, names.drop_first(), allowed, denied);
            let rest = spec_register(m.push(t), sid, names.drop_first(), allowed, denied);
            let added = spec_register(m, sid, names, allowed, denied);
            assert(added =~= seq![t] + rest);
            assert forall|k: int| 0 <= k < added.len() implies (#[trigger] added[k]).1 == sid
                && added[k].0 == spec_alias_name(sid, added[k].2) && !has_alias(
                m,
                added[k].0,
            ) by {
                if k == 0 {
                    assert(added[0] == t);
                } else {
                    assert(added[k] == rest[k - 1]);
                    assert(!has_alias(m.push(t), rest[k - 1].0));
                    if has_alias(m, rest[k - 1].0) {
                        let w = choose|w: int|
                            0 <= w < m.len() && (#[trigger] m[w]).0 == rest[k - 1].0;
                        assert(m.push(t)[w] == m[w]);
                        assert(has_alias(m.push(t), rest[k - 1].0));
                    }
                }
            }
            assert forall|j: int, k: int| 0 <= j < k < added.len() implies (
            #[trigger] added[j]).0 != (#[trigger] added[k]).0 by {
                assert(added[k] == rest[k - 1]);
                if j == 0 {
                    assert(added[0] == t);
                    assert(!has_alias(m.push(t), rest[k - 1].0));
                    assert(m.push(t)[m.len() as int] == t);
                    if rest[k - 1].0 == t.0 {
                        assert(has_alias(m.push(t), rest[k - 1].0));
                    }
                } else {
                    assert(added[j] == rest[j - 1]);
                }
            }
        } else {
            lemma_register_added_props(m, sid, names.drop_first(), allowed, denied);
            assert(spec_register(m, sid, names, allowed, denied) == spec_register(
                m,
                sid,
                names.drop_first(),
                allowed,
                denied,
            ));
        }
    } else {
        assert(spec_register(m, sid, names, allowed, denied) == Seq::<AliasEntry>::empty());
    }
}

/// Law: an alias that registration has just added resolves to exactly the
/// mapping that was registered for it.
pub proof fn lemma_register_then_lookup(
    m: Seq<AliasEntry>,
    sid: Seq<char>,
    names: Seq<Seq<char>>,
    allowed: Seq<Seq<char>>,
    denied: Seq<Seq<char>>,
    k: int,
)
    requires
        0 <= k < spec_register(m, sid, names, allowed, denied).len(),
    ensures
        ({
            let added = spec_register(m, sid, names, allowed, denied);
            spec_find(m + added, added[k].0, 0) == Some(added[k])
        }),
{
    let added = spec_register(m, sid, names, allowed, denied);
    let whole = m + added;
    lemma_register_added_props(m, sid, names, allowed, denied);
    let p = m.len() as int + k;
    assert(whole[p] == added[k]);
    assert forall|q: int| 0 <= q < p implies (#[trigger] whole[q]).0 != added[k].0 by {
        if q < m.len() {
            assert(whole[q] == m[q]);
        } else {
            assert(whole[q] == added[q - m.len()]);
        }
    }
    lemma_find_from(whole, added[k].0, 0, p);
}

/// Law: after the entries of a server are removed, an alias that belonged
/// to that server resolves to nothing.
pub proof fn lemma_remove_then_lookup_none(m: Seq<AliasEntry>, sid: Seq<char>, p: int)
    requires
        wf_entries(m),
        0 <= p < m.len(),
        m[p].1 == sid,
    ensures
        spec_find(m.filter(|t: AliasEntry| t.1 != sid), m[p].0, 0) is None,
{
    let pred = |t: AliasEntry| t.1 != sid;
    let out = m.filter(pred);
    let a = m[p].0;
    assert forall|k: int| 0 <= k < out.len() implies (#[trigger] out[k]).0 != a by {
        m.lemma_filter_pred(pred, k);
        lemma_filter_membership(m, pred, k);
        let w = choose|w: int| 0 <= w < m.len() && m[w] == out[k];
        if m[w].0 == a {
            if w != p {
                assert(m[w].0 != m[p].0);
            }
        }
    }
    lemma_no_alias_find_none(out, a, 0);
}

proof fn lemma_find_some_has_alias(m: Seq<AliasEntry>, alias: Seq<char>, i: int)
    requires
        0 <= i <= m.len(),
        spec_find(m, alias, i) is Some,
    ensures
        has_alias(m, alias),
    decreases m.len() - i,
{
    if i < m.len() {
        if m[i].0 == alias {
        } else {
            lemma_find_some_has_alias(m, alias, i + 1);
        }
    }
}

proof fn lemma_find_none_no_alias(m: Seq<AliasEntry>, alias: Seq<char>, i: int)
    requires
        0 <= i <= m.len(),
        spec_find(m, alias, i) is None,
    ensures
        forall|k: int| i <= k < m.len() ==> (#[trigger] m[k]).0 != alias,
    decreases m.len() - i,
{
    if i < m.len() {
        lemma_find_none_no_alias(m, alias, i + 1);
    }
}

/// Whatever the filter keeps was already an entry.
proof fn lemma_filter_membership(m: Seq<AliasEntry>, pred: spec_fn(AliasEntry) -> bool, i: int)
    requires
        0 <= i < m.filter(pred).len(),
    ensures
        exists|j: int| 0 <= j < m.len() && m[j] == m.filter(pred)[i],
    decreases m.len(),
{
    reveal(Seq::filter);
    if m.len() > 0 {
        let sub = m.drop_last().filter(pred);
        if pred(m.last()) && i == sub.len() {
            assert(m[m.len() - 1] == m.filter(pred)[i]);
        } else {
            lemma_filter_membership(m.drop_last(), pred, i);
            let j = choose|j: int|
                0 <= j < m.drop_last().len() && m.drop_last()[j] == m.drop_last().filter(pred)[i];
            assert(m[j] == m.filter(pred)[i]);
        }
    }
}

/// Filtering keeps the index invariant.
proof fn lemma_filter_keeps_wf(m: Seq<AliasEntry>, pred: spec_fn(AliasEntry) -> bool)
    requires
        wf_entries(m),
    ensures
        wf_entries(m.filter(pred)),
    decreases m.len(),
{
    reveal(Seq::filter);
    if m.len() > 0 {
        assert(wf_entries(m.drop_last())) by {
            assert(forall|i: int|
                0 <= i < m.drop_last().len() ==> #[trigger] m.drop_last()[i] == m[i]);
        }
        lemma_filter_keeps_wf(m.drop_last(), pred);
        let sub = m.drop_last().filter(pred);
        if pred(m.last()) {
            let out = sub.push(m.last());
            assert forall|i: int, j: int|
                0 <= i < out.len() && 0 <= j < out.len() && i != j implies (#[trigger] out[i]).0
                != (#[trigger] out[j]).0 by {
                if i < sub.len() && j < sub.len() {
                } else {
                    let a = if i < sub.len() {
                        i
                    } else {
                        j
                    };
                    lemma_filter_membership(m.drop_last(), pred, a);
                    let w = choose|w: int|
                        0 <= w < m.drop_last().len() && m.drop_last()[w] == sub[a];
                    assert(m[w] == sub[a]);
                    assert(m[m.len() - 1].0 != m[w].0);
                }
            }
            assert forall|i: int| 0 <= i < out.len() implies (#[trigger] out[i]).0
                == spec_alias_name(out[i].1, out[i].2) by {
                if i < sub.len() {
                } else {
                    assert(out[i] == m[m.len() - 1]);
                }
            }
        }
    }
}

} // verus!
