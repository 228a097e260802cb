//! The configuration directory layout, as path strings built from the
//! home directory the embedding reports.

use vstd::prelude::*;

use crate::strutil::{chars_to_string, push_str_chars, str_to_chars};
use crate::stream::{starts_with, starts_with_str};

verus! {

/// Whether `s` ends with `p`.
pub open spec fn ends_with(s: Seq<char>, p: Seq<char>) -> bool {
    s.len() >= p.len() && s.subrange(s.len() - p.len(), s.len() as int) == p
}

/// Executable mirror of [`ends_with`] against a literal suffix.
#[verifier::loop_isolation(false)]
pub fn ends_with_str(v: &Vec<char>, p: &str) -> (r: bool)
    ensures
        r == ends_with(v@, p@),
{
    let pc = str_to_chars(p);
    let m = pc.len();
    let n = v.len();
    if n < m {
        return false;
    }
    let base = n - m;
    let mut k: usize = 0;
    while k < m
        invariant
            0 <= k <= m,
            base == n - m,
            m <= n == v@.len(),
            forall|q: int| 0 <= q < k ==> v@[base + q] == pc@[q],
        decreases m - k,
    {
        if v[base + k] != pc[k] {
            assert(v@.subrange(n - m, n as int)[k as int] != p@[k as int]);
            return false;
        }
        k = k + 1;
    }
    proof {
        assert(v@.subrange(n - m, n as int) =~= p@);
    }
    true
}

/// Whether `p` occurs in `s`.
pub open spec fn contains_sub(s: Seq<char>, p: Seq<char>) -> bool {
    exists|i: int| 0 <= i <= s.len() - p.len() && #[trigger] s.subrange(i, i + p.len()) == p
}

/// Executable mirror of [`contains_sub`] against a literal needle.
#[verifier::loop_isolation(false)]
pub fn contains_str(v: &Vec<char>, p: &str) -> (r: bool)
    ensures
        r == contains_sub(v@, p@),
{
    let pc = str_to_chars(p);
    let m = pc.len();
    let n = v.len();
    if n < m {
        proof {
            if contains_sub(v@, p@) {
                let i = choose|i: int|
                    0 <= i <= v@.len() - p@.len() && #[trigger] v@.subrange(i, i + p@.len())
                        == p@;
            }
        }
        return false;
    }
    let mut i: usize = 0;
    while i <= n - m
        invariant
            0 <= i <= n - m + 1,
            m <= n == v@.len(),
            m == p@.len(),
            forall|q: int| 0 <= q < i ==> #[trigger] v@.subrange(q, q + p@.len()) != p@,
        decreases n - m - i + 1,
    {
        let mut k: usize = 0;
        let mut hit = true;
        while hit && k < m
            invariant
                0 <= k <= m,
                0 <= i <= n - m,
                m <= n == v@.len(),
                m == p@.len(),
                hit ==> (forall|q: int| 0 <= q < k ==> v@[i + q] == p@[q]),
                !hit ==> k < m && v@[i + k as int] != p@[k as int],
            decreases m - k, (if hit { 1int } else { 0int }),
        {
            if v[i + k] != pc[k] {
                hit = false;
            } else {
                k = k + 1;
            }
        }
        if hit {
            proof {
                assert(v@.subrange(i as int, i + p@.len()) =~= p@);
            }
            return true;
        }
        proof {
            if v@.subrange(i as int, i + p@.len()) == p@ {
                assert(forall|q: int|
                    0 <= q < p@.len() ==> v@[i + q] == #[trigger] v@.subrange(
                        i as int,
                        i + p@.len(),
                    )[q]);
            }
        }
        i = i + 1;
    }
    proof {
        if contains_sub(v@, p@) {
            let w = choose|w: int|
                0 <= w <= v@.len() - p@.len() && #[trigger] v@.subrange(w, w + p@.len()) == p@;
        }
    }
    false
}

fn join2(a: &str, b: &str) -> (r: String)
    ensures
        r@ == a@ + b@,
{
    let mut out: Vec<char> = Vec::new();
    push_str_chars(&mut out, a);
    push_str_chars(&mut out, b);
    chars_to_string(&out)
}

/// The configuration directory under the home directory.
pub fn bamboo_dir(home: &str) -> (r: String)
    ensures
        r@ == home@ + "/.bamboo"@,
{
    join2(home, "/.bamboo")
}

/// The main configuration file.
pub fn config_json_path(home: &str) -> (r: String)
    ensures
        r@ == home@ + "/.bamboo"@ + "/config.json"@,
{
    let d = bamboo_dir(home);
    join2(d.as_str(), "/config.json")
}

/// The keyword masking configuration file.
pub fn keyword_masking_json_path(home: &str) -> (r: String)
    ensures
        r@ == home@ + "/.bamboo"@ + "/keyword_masking.json"@,
{
    let d = bamboo_dir(home);
    join2(d.as_str(), "/keyword_masking.json")
}

/// The workflows directory.
pub fn workflows_dir(home: &str) -> (r: String)
    ensures
        r@ == home@ + "/.bamboo"@ + "/workflows"@,
{
    let d = bamboo_dir(home);
    join2(d.as_str(), "/workflows")
}

/// The Anthropic model mapping file.
pub fn anthropic_model_mapping_path(home: &str) -> (r: String)
    ensures
        r@ == home@ + "/.bamboo"@ + "/anthropic-model-mapping.json"@,
{
    let d = bamboo_dir(home);
    join2(d.as_str(), "/anthropic-model-mapping.json")
}

/// The Gemini model mapping file.
pub fn gemini_model_mapping_path(home: &str) -> (r: String)
    ensures
        r@ == home@ + "/.bamboo"@ + "/gemini-model-mapping.json"@,
{
    let d = bamboo_dir(home);
    join2(d.as_str(), "/gemini-model-mapping.json")
}

/// The sessions directory.
pub fn sessions_dir(home: &str) -> (r: String)
    ensures
        r@ == home@ + "/.bamboo"@ + "/sessions"@,
{
    let d = bamboo_dir(home);
    join2(d.as_str(), "/sessions")
}

/// The configuration file the settings endpoints read and write.
pub fn config_path(home: &str) -> (r: String)
    ensures
        r@ == home@ + "/.bamboo"@ + "/config.json"@,
{
    config_json_path(home)
}

/// Whether a file in the configuration directory is a session file that
/// migration moves: a JSON or JSON-lines file that is not one of the
/// configuration files.
pub open spec fn spec_is_session_file(name: Seq<char>) -> bool {
    &&& (ends_with(name, ".json"@) || ends_with(name, ".jsonl"@))
    &&& !starts_with(name, "config"@)
    &&& !starts_with(name, "keyword"@)
    &&& !contains_sub(name, "model-mapping"@)
    &&& !starts_with(name, "mcp"@)
}

/// Executable mirror of [`spec_is_session_file`].
pub fn is_session_file(name: &str) -> (r: bool)
    ensures
        r == spec_is_session_file(name@),
{
    let cs = str_to_chars(name);
    (ends_with_str(&cs, ".json") || ends_with_str(&cs, ".jsonl")) && !starts_with_str(
        &cs,
        "config",
    ) && !starts_with_str(&cs, "keyword") && !contains_str(&cs, "model-mapping")
        && !starts_with_str(&cs, "mcp")
}

/// Expand a leading `~/` to the home directory; other paths pass
/// through.
pub fn expand_path(path: &str, home: &str) -> (r: String)
    ensures
        starts_with(path@, "~/"@) ==> r@ == home@ + "/"@ + path@.subrange(
            2,
            path@.len() as int,
        ),
        !starts_with(path@, "~/"@) ==> r@ == path@,
{
    let cs = str_to_chars(path);
    if starts_with_str(&cs, "~/") {
        proof {
            reveal_strlit("~/");
        }
        let mut out: Vec<char> = Vec::new();
        push_str_chars(&mut out, home);
        push_str_chars(&mut out, "/");
        let n = cs.len();
        let mut i: usize = 2;
        proof {
            assert(out@ =~= home@ + "/"@ + cs@.subrange(2, 2));
        }
        while i < n
            invariant
                2 <= i <= n,
                n == cs@.len(),
                out@ == home@ + "/"@ + cs@.subrange(2, i as int),
            decreases n - i,
        {
            out.push(cs[i]);
            proof {
                assert(out@ =~= home@ + "/"@ + cs@.subrange(2, i as int + 1));
            }
            i = i + 1;
        }
        chars_to_string(&out)
    } else {
        path.to_owned()
    }
}

} // verus!
