//! Stream assembly: server-sent-event framing and whole-stream
//! collection of provider chunks.

use vstd::prelude::*;

use crate::errors::LLMError;
use crate::llm::{wf_chunk_seq, LLMChunk};
use crate::openai::{chunkmodel, spec_openai_data, ChunkV};
use crate::strutil::{chars_to_string, spec_trim, str_to_chars, trim_chars};

verus! {

/// Whether `s` starts with `p`.
pub open spec fn starts_with(s: Seq<char>, p: Seq<char>) -> bool {
    s.len() >= p.len() && s.subrange(0, p.len() as int) == p
}

/// Executable mirror of [`starts_with`] against a literal prefix.
#[verifier::loop_isolation(false)]
pub fn starts_with_str(v: &Vec<char>, p: &str) -> (r: bool)
    ensures
        r == starts_with(v@, p@),
{
    let pc = str_to_chars(p);
    let m = pc.len();
    if v.len() < m {
        return false;
    }
    let mut k: usize = 0;
    while k < m
        invariant
            0 <= k <= m,
            m <= v@.len(),
            forall|q: int| 0 <= q < k ==> v@[q] == pc@[q],
        decreases m - k,
    {
        if v[k] != pc[k] {
            assert(v@.subrange(0, m as int)[k as int] != p@[k as int]);
            return false;
        }
        k = k + 1;
    }
    proof {
        assert(v@.subrange(0, m as int) =~= p@);
    }
    true
}

/// The rest of `s` after the prefix `p` and one optional following space.
pub open spec fn after_field(s: Seq<char>, p: Seq<char>) -> Seq<char> {
    let rest = s.subrange(p.len() as int, s.len() as int);
    if rest.len() > 0 && rest[0] == ' ' {
        rest.subrange(1, rest.len() as int)
    } else {
        rest
    }
}

#[verifier::loop_isolation(false)]
fn after_field_exec(v: &Vec<char>, p: &str) -> (r: Vec<char>)
    requires
        starts_with(v@, p@),
    ensures
        r@ == after_field(v@, p@),
{
    let pc = str_to_chars(p);
    let mut start = pc.len();
    if start < v.len() && v[start] == ' ' {
        start = start + 1;
    }
    let mut out: Vec<char> = Vec::new();
    let n = v.len();
    let mut i = start;
    while i < n
        invariant
            start <= i <= n,
            n == v@.len(),
            out@ == v@.subrange(start as int, i as int),
        decreases n - i,
    {
        out.push(v[i]);
        proof {
            assert(out@ =~= v@.subrange(start as int, i as int + 1));
        }
        i = i + 1;
    }
    proof {
        let rest = v@.subrange(pc@.len() as int, v@.len() as int);
        if rest.len() > 0 && rest[0] == ' ' {
            assert(out@ =~= rest.subrange(1, rest.len() as int));
        } else {
            assert(out@ =~= rest);
        }
    }
    out
}

/// One assembled server-sent event: its name (empty for unnamed events)
/// and its data.
#[derive(Debug, PartialEq)]
pub struct SseEvent {
    pub event: String,
    pub data: String,
}

/// Assembler state while lines of one event are read.
pub struct SseAssembler {
    event_name: Vec<char>,
    data: Vec<char>,
    has_data: bool,
}

impl SseAssembler {
    /// The pending event name.
    pub closed spec fn pending_name(&self) -> Seq<char> {
        self.event_name@
    }

    /// The pending data, lines joined by newlines.
    pub closed spec fn pending_data(&self) -> Seq<char> {
        self.data@
    }

    /// Whether a data line arrived since the last dispatch.
    pub closed spec fn pending(&self) -> bool {
        self.has_data
    }

    /// A fresh assembler with nothing pending.
    pub fn new() -> (r: Self)
        ensures
            r.pending_name() == Seq::<char>::empty(),
            r.pending_data() == Seq::<char>::empty(),
            !r.pending(),
    {
        SseAssembler { event_name: Vec::new(), data: Vec::new(), has_data: false }
    }

    /// Feed one line.
    ///
    /// An `event:` line records the event name; a `data:` line appends a
    /// data line; a blank line dispatches the pending event, when data
    /// arrived, and clears the state; anything else is ignored.
    pub fn feed_line(&mut self, line: &str) -> (r: Option<SseEvent>)
        ensures
            ({
                let l = line@;
                if l.len() == 0 {
                    &&& (r is Some) == old(self).pending()
                    &&& (r matches Some(ev) ==> ev.event@ == old(self).pending_name()
                        && ev.data@ == old(self).pending_data())
                    &&& !final(self).pending()
                    &&& final(self).pending_name() == Seq::<char>::empty()
                    &&& final(self).pending_data() == Seq::<char>::empty()
                } else if starts_with(l, "event:"@) {
                    &&& r is None
                    &&& final(self).pending_name() == after_field(l, "event:"@)
                    &&& final(self).pending_data() == old(self).pending_data()
                    &&& final(self).pending() == old(self).pending()
                } else if starts_with(l, "data:"@) {
                    &&& r is None
                    &&& final(self).pending_name() == old(self).pending_name()
                    &&& final(self).pending()
                    &&& final(self).pending_data() == (if old(self).pending() {
                        old(self).pending_data() + seq!['\n'] + after_field(l, "data:"@)
                    } else {
                        after_field(l, "data:"@)
                    })
                } else {
                    &&& r is None
                    &&& final(self).pending_name() == old(self).pending_name()
                    &&& final(self).pending_data() == old(self).pending_data()
                    &&& final(self).pending() == old(self).pending()
                }
            }),
    {
        let lc = str_to_chars(line);
        if lc.len() == 0 {
            if self.has_data {
                let ev = SseEvent {
                    event: chars_to_string(&self.event_name),
                    data: chars_to_string(&self.data),
                };
                self.event_name = Vec::new();
                self.data = Vec::new();
                self.has_data = false;
                return Some(ev);
            }
            self.event_name = Vec::new();
            self.data = Vec::new();
            self.has_data = false;
            return None;
        }
        if starts_with_str(&lc, "event:") {
            self.event_name = after_field_exec(&lc, "event:");
            return None;
        }
        if starts_with_str(&lc, "data:") {
            let mut piece = after_field_exec(&lc, "data:");
            if self.has_data {
                self.data.push('\n');
                self.data.append(&mut piece);
            } else {
                self.data = piece;
                self.has_data = true;
            }
            return None;
        }
        None
    }
}

/// What collecting the payloads from `i` on yields: blank payloads are
/// skipped, `[DONE]` closes the stream with its final chunk, every other
/// payload must spell a document and contributes its chunk; running out
/// of payloads without `[DONE]`, or a payload that spells nothing, is a
/// stream error.
pub open spec fn spec_collect(datas: Seq<Seq<char>>, i: int) -> Option<Seq<ChunkV>>
    decreases datas.len() - i,
    when 0 <= i <= datas.len()
{
    if i >= datas.len() {
        None
    } else {
        let d = datas[i];
        if spec_trim(d).len() == 0 {
            spec_collect(datas, i + 1)
        } else if spec_trim(d) == "[DONE]"@ {
            Some(seq![ChunkV::DoneV])
        } else {
            match spec_openai_data(d) {
                Ok(c) => match spec_collect(datas, i + 1) {
                    Some(rest) => Some(seq![c] + rest),
                    None => None,
                },
                Err(_) => None,
            }
        }
    }
}

/// Collect a whole OpenAI-compatible stream from its `data:` payloads,
/// exactly as [`spec_collect`] reads them; what comes back well-formed:
/// it ends with exactly one final chunk and nothing after it.
#[verifier::loop_isolation(false)]
pub fn collect_openai_stream(datas: &Vec<String>) -> (r: Result<Vec<LLMChunk>, LLMError>)
    ensures
        r matches Ok(chunks) ==> wf_chunk_seq(chunks@) && spec_collect(
            crate::strutil::views_of(datas@),
            0,
        ) == Some(chunks@.map_values(|c: LLMChunk| chunkmodel(c))),
        r matches Err(e) ==> e is Stream && spec_collect(
            crate::strutil::views_of(datas@),
            0,
        ) is None,
{
    let ghost ds = crate::strutil::views_of(datas@);
    let n = datas.len();
    let mut out: Vec<LLMChunk> = Vec::new();
    let mut i: usize = 0;
    while i < n
        invariant
            0 <= i <= n,
            n == datas@.len(),
            ds == crate::strutil::views_of(datas@),
            ds.len() == n,
            forall|k: int| 0 <= k < n ==> ds[k] == datas@[k]@,
            forall|k: int| 0 <= k < out@.len() ==> !((#[trigger] out@[k]) is Done),
            spec_collect(ds, 0) == (match spec_collect(ds, i as int) {
                Some(rest) => Some(out@.map_values(|c: LLMChunk| chunkmodel(c)) + rest),
                None => None::<Seq<ChunkV>>,
            }),
        decreases n - i,
    {
        let data = &datas[i];
        let cs = str_to_chars(data.as_str());
        let trimmed = trim_chars(&cs);
        if trimmed.len() == 0 {
            i = i + 1;
            continue ;
        }
        let ghost pre = out@;
        match crate::openai::parse_openai_compat_sse_data_strict(data.as_str()) {
            Ok(c) => {
                match c {
                    LLMChunk::Done => {
                        out.push(LLMChunk::Done);
                        proof {
                            assert(spec_collect(ds, i as int) == Some(seq![ChunkV::DoneV]));
                            assert(out@.map_values(|c: LLMChunk| chunkmodel(c)) =~= pre
                                .map_values(|c: LLMChunk| chunkmodel(c)) + seq![ChunkV::DoneV]);
                        }
                        return Ok(out);
                    },
                    other => {
                        let ghost cm = chunkmodel(other);
                        out.push(other);
                        proof {
                            assert(out@.map_values(|c: LLMChunk| chunkmodel(c)) =~= pre
                                .map_values(|c: LLMChunk| chunkmodel(c)).push(cm));
                            match spec_collect(ds, i as int + 1) {
                                Some(rest) => {
                                    assert(pre.map_values(|c: LLMChunk| chunkmodel(c)) + (
                                    seq![cm] + rest) =~= out@.map_values(
                                        |c: LLMChunk| chunkmodel(c),
                                    ) + rest);
                                },
                                None => {},
                            }
                        }
                    },
                }
            },
            Err(e) => {
                return Err(e);
            },
        }
        i = i + 1;
    }
    Err(LLMError::Stream("stream ended without completion".to_owned()))
}

// The SSE transport's pure fragments: the POST endpoint and header
// validation.

/// The URL with every trailing `/sse` suffix removed.
pub open spec fn strip_sse(s: Seq<char>) -> Seq<char>
    decreases s.len(),
{
    if s.len() >= 4 && crate::paths::ends_with(s, "/sse"@) {
        strip_sse(s.take(s.len() - 4))
    } else {
        s
    }
}

/// Where client-to-server POSTs go: the announced endpoint when the
/// server announced one, else the configured URL with its `/sse` suffix
/// replaced by `/message`.
#[verifier::loop_isolation(false)]
pub fn sse_post_url(url: &str, announced: Option<&str>) -> (r: String)
    ensures
        announced matches Some(u) ==> r@ == u@,
        announced is None ==> r@ == strip_sse(url@) + "/message"@,
{
    match announced {
        Some(u) => u.to_owned(),
        None => {
            proof {
                reveal_strlit("/sse");
            }
            let mut v = str_to_chars(url);
            loop
                invariant
                    strip_sse(url@) == strip_sse(v@),
                decreases v@.len(),
            {
                if v.len() >= 4 && crate::paths::ends_with_str(&v, "/sse") {
                    let ghost pre = v@;
                    v.truncate(v.len() - 4);
                    proof {
                        assert(v@ =~= pre.take(pre.len() - 4));
                    }
                } else {
                    break ;
                }
            }
            let mut out = v;
            crate::strutil::push_str_chars(&mut out, "/message");
            chars_to_string(&out)
        },
    }
}

/// Characters a header name may hold: letters, digits, dash and
/// underscore.
pub open spec fn valid_header_name_char(c: char) -> bool {
    ('a' <= c && c <= 'z') || ('A' <= c && c <= 'Z') || ('0' <= c && c <= '9') || c == '-' || c
        == '_'
}

/// A header name is non-empty and holds only name characters.
pub open spec fn spec_valid_header_name(s: Seq<char>) -> bool {
    s.len() > 0 && (forall|k: int| 0 <= k < s.len() ==> valid_header_name_char(#[trigger] s[k]))
}

/// Characters a header value may hold: tab and everything from space on,
/// except delete.
pub open spec fn valid_header_value_char(c: char) -> bool {
    c == '\t' || ((c as u32) >= 0x20 && (c as u32) != 0x7f)
}

/// A header value holds only value characters.
pub open spec fn spec_valid_header_value(s: Seq<char>) -> bool {
    forall|k: int| 0 <= k < s.len() ==> valid_header_value_char(#[trigger] s[k])
}

/// Check one configured header: a name or value outside the allowed
/// characters is a configuration error.
#[verifier::loop_isolation(false)]
pub fn validate_header(name: &str, value: &str) -> (r: Result<(), crate::errors::McpError>)
    ensures
        (r is Ok) == (spec_valid_header_name(name@) && spec_valid_header_value(value@)),
        r matches Err(e) ==> e is InvalidConfig,
{
    let nc = str_to_chars(name);
    if nc.len() == 0 {
        return Err(crate::errors::McpError::InvalidConfig("empty header name".to_owned()));
    }
    let n = nc.len();
    let mut i: usize = 0;
    while i < n
        invariant
            0 <= i <= n,
            n == nc@.len(),
            nc@ == name@,
            forall|k: int| 0 <= k < i ==> valid_header_name_char(#[trigger] name@[k]),
        decreases n - i,
    {
        let c = nc[i];
        let ok = (c >= 'a' && c <= 'z') || (c >= 'A' && c <= 'Z') || (c >= '0' && c <= '9') || c
            == '-' || c == '_';
        if !ok {
            return Err(crate::errors::McpError::InvalidConfig("Invalid header name".to_owned()));
        }
        i = i + 1;
    }
    let vc = str_to_chars(value);
    let m = vc.len();
    let mut j: usize = 0;
    while j < m
        invariant
            0 <= j <= m,
            m == vc@.len(),
            vc@ == value@,
            spec_valid_header_name(name@),
            forall|k: int| 0 <= k < j ==> valid_header_value_char(#[trigger] value@[k]),
        decreases m - j,
    {
        let c = vc[j];
        let ok = c == '\t' || ((c as u32) >= 0x20 && (c as u32) != 0x7f);
        if !ok {
            return Err(crate::errors::McpError::InvalidConfig("Invalid header value".to_owned()));
        }
        j = j + 1;
    }
    Ok(())
}

// Assembling a whole non-streaming answer out of a chunk stream.

/// What accumulating a chunk stream yields: the concatenated token text
/// up to the first final chunk, and the last tool-call chunk before it,
/// which replaces every earlier one.
pub open spec fn spec_accumulate(cs: Seq<ChunkV>, i: int) -> (
    Seq<char>,
    Option<Seq<crate::openai::ToolCallModel>>,
)
    decreases cs.len() - i,
    when 0 <= i <= cs.len()
{
    if i >= cs.len() {
        (Seq::empty(), None)
    } else {
        match cs[i] {
            ChunkV::DoneV => (Seq::empty(), None),
            ChunkV::TokenV(t) => {
                let rest = spec_accumulate(cs, i + 1);
                (t + rest.0, rest.1)
            },
            ChunkV::CallsV(tcs) => {
                let rest = spec_accumulate(cs, i + 1);
                (
                    rest.0,
                    match rest.1 {
                        Some(x) => Some(x),
                        None => Some(tcs),
                    },
                )
            },
        }
    }
}

/// Accumulate a chunk stream into the collected text and the tool calls
/// of the final answer, exactly as [`spec_accumulate`] reads it.
#[verifier::loop_isolation(false)]
pub fn accumulate_chunks(chunks: &Vec<LLMChunk>) -> (r: (String, Option<Vec<crate::llm::ToolCall>>))
    ensures
        ({
            let m = spec_accumulate(chunks@.map_values(|c: LLMChunk| chunkmodel(c)), 0);
            &&& r.0@ == m.0
            &&& match r.1 {
                Some(calls) => m.1 == Some(
                    calls@.map_values(|t: crate::llm::ToolCall| crate::openai::tcmodel(t)),
                ),
                None => m.1 is None,
            }
        }),
{
    let ghost cs = chunks@.map_values(|c: LLMChunk| chunkmodel(c));
    let n = chunks.len();
    let mut text: Vec<char> = Vec::new();
    let mut calls: Option<Vec<crate::llm::ToolCall>> = None;
    let mut i: usize = 0;
    while i < n
        invariant
            0 <= i <= n,
            n == chunks@.len(),
            cs == chunks@.map_values(|c: LLMChunk| chunkmodel(c)),
            cs.len() == n,
            forall|k: int| 0 <= k < n ==> cs[k] == chunkmodel(chunks@[k]),
            ({
                let whole = spec_accumulate(cs, 0);
                let rest = spec_accumulate(cs, i as int);
                &&& whole.0 == text@ + rest.0
                &&& whole.1 == (match rest.1 {
                    Some(x) => Some(x),
                    None => match calls {
                        Some(c) => Some(
                            c@.map_values(
                                |t: crate::llm::ToolCall| crate::openai::tcmodel(t),
                            ),
                        ),
                        None => None::<Seq<crate::openai::ToolCallModel>>,
                    },
                })
            }),
        decreases n - i,
    {
        match &chunks[i] {
            LLMChunk::Done => {
                proof {
                    assert(spec_accumulate(cs, i as int) == (
                        Seq::<char>::empty(),
                        None::<Seq<crate::openai::ToolCallModel>>,
                    ));
                    assert(text@ + Seq::<char>::empty() =~= text@);
                }
                return (chars_to_string(&text), calls);
            },
            LLMChunk::Token(tk) => {
                crate::strutil::push_str_chars(&mut text, tk.as_str());
            },
            LLMChunk::ToolCalls(tcs) => {
                let tn = tcs.len();
                let mut copy: Vec<crate::llm::ToolCall> = Vec::new();
                let mut k: usize = 0;
                while k < tn
                    invariant
                        0 <= k <= tn,
                        tn == tcs@.len(),
                        copy@ == tcs@.take(k as int),
                    decreases tn - k,
                {
                    copy.push(tcs[k].clone_call());
                    proof {
                        assert(copy@ =~= tcs@.take(k as int + 1));
                    }
                    k = k + 1;
                }
                proof {
                    assert(tcs@.take(tn as int) =~= tcs@);
                }
                calls = Some(copy);
            },
        }
        i = i + 1;
    }
    proof {
        assert(spec_accumulate(cs, n as int) == (
            Seq::<char>::empty(),
            None::<Seq<crate::openai::ToolCallModel>>,
        ));
        assert(text@ + Seq::<char>::empty() =~= text@);
    }
    (chars_to_string(&text), calls)
}

} // verus!
