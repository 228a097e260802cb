//! Recursive-descent JSON parser.
//!
//! The grammar itself is written down once, as the deterministic spec
//! parser [`sp_doc`] / [`sp_value`]: it says, for every text, whether the
//! text spells a document and which value it spells. The executable
//! parser returns exactly what the spec parser says — `Some` if and only
//! if the text parses, and then the very value — so nothing downstream
//! rests on the parser's body.

use vstd::prelude::*;

use crate::json::{
    digits_end, is_num_lit, jmodel, jmodel_fields, jmodel_seq, lemma_jmodel_fields,
    lemma_jmodel_seq, lemma_wf_fields_from, lemma_wf_list_from, num_end, wf_json, Json, JsonV,
};
use crate::strutil::{
    chars_to_string, is_digit, lemma_ws_to, str_to_chars, ws_prefix_end, ws_to,
};

verus! {

// ---------------------------------------------------------------------------
// Characters and escapes
// ---------------------------------------------------------------------------

/// The code points that are characters: everything but the surrogate
/// range, up to the last code point.
pub open spec fn valid_scalar(code: u32) -> bool {
    code < 0xD800 || (0xE000 <= code && code <= 0x10FFFF)
}

/// The character with the given code point.
pub open spec fn char_of_code(code: u32) -> char {
    choose|c: char| (#[trigger] (c as u32)) == code
}

/// Relies on `char::from_u32`: it answers `Some` exactly for code points
/// outside the surrogate range and at most the highest code point, and
/// then yields the character with that code point.
#[verifier::external_body]
fn char_from_u32(c: u32) -> (r: Option<char>)
    ensures
        (r is Some) == valid_scalar(c),
        r matches Some(ch) ==> ch as u32 == c && ch == char_of_code(c),
{
    char::from_u32(c)
}

/// Whether `c` is a hexadecimal digit.
pub open spec fn is_hex_digit(c: char) -> bool {
    ('0' <= c && c <= '9') || ('a' <= c && c <= 'f') || ('A' <= c && c <= 'F')
}

/// The value of a hexadecimal digit.
pub open spec fn hex_digit_val(c: char) -> u32 {
    if '0' <= c && c <= '9' {
        (c as u32 - '0' as u32) as u32
    } else if 'a' <= c && c <= 'f' {
        (c as u32 - 'a' as u32 + 10) as u32
    } else if 'A' <= c && c <= 'F' {
        (c as u32 - 'A' as u32 + 10) as u32
    } else {
        0
    }
}

/// Whether four hexadecimal digits stand at `i`.
pub open spec fn hex4_at(s: Seq<char>, i: int) -> bool {
    &&& 0 <= i && i + 4 <= s.len()
    &&& is_hex_digit(s[i])
    &&& is_hex_digit(s[i + 1])
    &&& is_hex_digit(s[i + 2])
    &&& is_hex_digit(s[i + 3])
}

/// The value of the four hexadecimal digits at `i`.
pub open spec fn hex4_val(s: Seq<char>, i: int) -> u32 {
    (hex_digit_val(s[i]) * 4096 + hex_digit_val(s[i + 1]) * 256 + hex_digit_val(s[i + 2]) * 16
        + hex_digit_val(s[i + 3])) as u32
}

// ---------------------------------------------------------------------------
// The grammar, as a deterministic spec parser
// ---------------------------------------------------------------------------

/// Whether the exact characters of `lit` stand at `i`.
pub open spec fn lit_at(s: Seq<char>, i: int, lit: Seq<char>) -> bool {
    0 <= i && i + lit.len() <= s.len() && s.subrange(i, i + lit.len()) == lit
}

/// The decoded body of a string whose content starts at `j` (just after
/// the opening quote): the content and the position after the closing
/// quote, or nothing when the text is not a string body.
pub open spec fn sp_str_body(s: Seq<char>, j: int) -> Option<(Seq<char>, int)>
    decreases s.len() - j,
    when 0 <= j <= s.len()
{
    if j >= s.len() {
        None
    } else if s[j] == '"' {
        Some((Seq::empty(), j + 1))
    } else if s[j] == '\\' {
        if j + 1 >= s.len() {
            None
        } else {
            let e = s[j + 1];
            if e == '"' {
                sp_str_cons('"', sp_str_body(s, j + 2))
            } else if e == '\\' {
                sp_str_cons('\\', sp_str_body(s, j + 2))
            } else if e == '/' {
                sp_str_cons('/', sp_str_body(s, j + 2))
            } else if e == 'b' {
                sp_str_cons('\u{0008}', sp_str_body(s, j + 2))
            } else if e == 'f' {
                sp_str_cons('\u{000c}', sp_str_body(s, j + 2))
            } else if e == 'n' {
                sp_str_cons('\n', sp_str_body(s, j + 2))
            } else if e == 'r' {
                sp_str_cons('\r', sp_str_body(s, j + 2))
            } else if e == 't' {
                sp_str_cons('\t', sp_str_body(s, j + 2))
            } else if e == 'u' {
                if !hex4_at(s, j + 2) {
                    None
                } else {
                    let hi = hex4_val(s, j + 2);
                    if 0xD800 <= hi && hi < 0xDC00 {
                        // a high surrogate needs a matching low half
                        if j + 8 > s.len() || s[j + 6] != '\\' || s[j + 7] != 'u' {
                            None
                        } else if !hex4_at(s, j + 8) {
                            None
                        } else {
                            let lo = hex4_val(s, j + 8);
                            if !(0xDC00 <= lo && lo < 0xE000) {
                                None
                            } else {
                                let code = (0x10000 + (hi - 0xD800) * 1024 + (lo
                                    - 0xDC00)) as u32;
                                if !valid_scalar(code) {
                                    None
                                } else {
                                    sp_str_cons(char_of_code(code), sp_str_body(s, j + 12))
                                }
                            }
                        }
                    } else {
                        if !valid_scalar(hi) {
                            None
                        } else {
                            sp_str_cons(char_of_code(hi), sp_str_body(s, j + 6))
                        }
                    }
                }
            } else {
                None
            }
        }
    } else {
        sp_str_cons(s[j], sp_str_body(s, j + 1))
    }
}

/// Prepend one decoded character to a string-body parse.
pub open spec fn sp_str_cons(c: char, rest: Option<(Seq<char>, int)>) -> Option<(Seq<char>, int)> {
    match rest {
        Some((t, e)) => Some((seq![c] + t, e)),
        None => None,
    }
}

/// The string whose opening quote stands at `i`: its decoded content and
/// the position after the closing quote.
pub open spec fn sp_string(s: Seq<char>, i: int) -> Option<(Seq<char>, int)> {
    if 0 <= i && i < s.len() && s[i] == '"' {
        sp_str_body(s, i + 1)
    } else {
        None
    }
}

/// The value whose first character stands at `i` (no leading whitespace):
/// the value and the position just after it.
pub open spec fn sp_value(s: Seq<char>, i: int) -> Option<(JsonV, int)>
    decreases s.len() - i, 0int,
    when 0 <= i <= s.len()
{
    if i >= s.len() {
        None
    } else {
        let c = s[i];
        if c == 'n' {
            if lit_at(s, i, "null"@) {
                Some((JsonV::Null, i + "null"@.len()))
            } else {
                None
            }
        } else if c == 't' {
            if lit_at(s, i, "true"@) {
                Some((JsonV::Bool(true), i + "true"@.len()))
            } else {
                None
            }
        } else if c == 'f' {
            if lit_at(s, i, "false"@) {
                Some((JsonV::Bool(false), i + "false"@.len()))
            } else {
                None
            }
        } else if c == '"' {
            match sp_string(s, i) {
                Some((t, j)) => Some((JsonV::Str(t), j)),
                None => None,
            }
        } else if c == '-' || is_digit(c) {
            let j = num_end(s, i);
            if i < j && j <= s.len() {
                let lit = s.subrange(i, j);
                if is_num_lit(lit) {
                    Some((JsonV::Num(lit), j))
                } else {
                    None
                }
            } else {
                None
            }
        } else if c == '[' {
            let cur = ws_to(s, i + 1);
            if cur < s.len() && s[cur] == ']' {
                Some((JsonV::Arr(Seq::empty()), cur + 1))
            } else {
                match sp_elems(s, cur) {
                    Some((elems, end)) => Some((JsonV::Arr(elems), end)),
                    None => None,
                }
            }
        } else if c == '{' {
            let cur = ws_to(s, i + 1);
            if cur < s.len() && s[cur] == '}' {
                Some((JsonV::Obj(Seq::empty()), cur + 1))
            } else {
                match sp_fields(s, cur) {
                    Some((fields, end)) => Some((JsonV::Obj(fields), end)),
                    None => None,
                }
            }
        } else {
            None
        }
    }
}

/// The non-empty element list whose first value starts at `i`, up to and
/// including the closing bracket.
pub open spec fn sp_elems(s: Seq<char>, i: int) -> Option<(Seq<JsonV>, int)>
    decreases s.len() - i, 1int,
    when 0 <= i <= s.len()
{
    match sp_value(s, i) {
        Some((v, j)) => if i < j && j <= s.len() {
            let sep = ws_to(s, j);
            if sep < s.len() && s[sep] == ',' {
                match sp_elems(s, ws_to(s, sep + 1)) {
                    Some((rest, end)) => Some((seq![v] + rest, end)),
                    None => None,
                }
            } else if sep < s.len() && s[sep] == ']' {
                Some((seq![v], sep + 1))
            } else {
                None
            }
        } else {
            None
        },
        None => None,
    }
}

/// The non-empty field list whose first key starts at `i`, up to and
/// including the closing brace.
pub open spec fn sp_fields(s: Seq<char>, i: int) -> Option<(Seq<(Seq<char>, JsonV)>, int)>
    decreases s.len() - i, 1int,
    when 0 <= i <= s.len()
{
    match sp_string(s, i) {
        Some((key, after_key)) => if i < after_key && after_key <= s.len() {
            let colon = ws_to(s, after_key);
            if !(colon < s.len() && s[colon] == ':') {
                None
            } else {
                match sp_value(s, ws_to(s, colon + 1)) {
                    Some((v, after)) => if after <= s.len() {
                        let sep = ws_to(s, after);
                        if sep < s.len() && s[sep] == ',' {
                            if ws_to(s, sep + 1) <= i {
                                None
                            } else {
                                match sp_fields(s, ws_to(s, sep + 1)) {
                                    Some((rest, end)) => Some((seq![(key, v)] + rest, end)),
                                    None => None,
                                }
                            }
                        } else if sep < s.len() && s[sep] == '}' {
                            Some((seq![(key, v)], sep + 1))
                        } else {
                            None
                        }
                    } else {
                        None
                    },
                    None => None,
                }
            }
        } else {
            None
        },
        None => None,
    }
}

/// The whole text as one document: one value, possibly surrounded by
/// whitespace, spanning everything. This is the grammar every parse in
/// the crate answers to.
pub open spec fn sp_doc(s: Seq<char>) -> Option<JsonV> {
    let start = ws_to(s, 0);
    match sp_value(s, start) {
        Some((v, j)) => if start < j && j <= s.len() && ws_to(s, j) == s.len() {
            Some(v)
        } else {
            None
        },
        None => None,
    }
}

// ---------------------------------------------------------------------------
// The executable parser
// ---------------------------------------------------------------------------

/// Index of the first non-whitespace character at or after `i`.
#[verifier::loop_isolation(false)]
fn skip_ws(s: &Vec<char>, i: usize) -> (r: usize)
    requires
        i <= s@.len(),
    ensures
        r as int == ws_prefix_end(s@, i as int),
        r as int == ws_to(s@, i as int),
        i <= r <= s@.len(),
{
    let n = s.len();
    let mut j = i;
    while j < n && crate::strutil::is_ws_exec(s[j])
        invariant
            i <= j <= n,
            ws_prefix_end(s@, i as int) == ws_prefix_end(s@, j as int),
        decreases n - j,
    {
        j = j + 1;
    }
    proof {
        lemma_ws_to(s@, i as int);
    }
    j
}

/// Index of the first non-digit character at or after `i`.
#[verifier::loop_isolation(false)]
fn scan_digits(s: &Vec<char>, i: usize) -> (r: usize)
    requires
        i <= s@.len(),
    ensures
        r as int == digits_end(s@, i as int),
        i <= r <= s@.len(),
{
    let n = s.len();
    let mut j = i;
    while j < n && s[j] >= '0' && s[j] <= '9'
        invariant
            i <= j <= n,
            digits_end(s@, i as int) == digits_end(s@, j as int),
        decreases n - j,
    {
        j = j + 1;
    }
    proof {
        assert(!(j < n && is_digit(s@[j as int])));
    }
    j
}

proof fn lemma_digits_end_bounds(s: Seq<char>, i: int)
    requires
        0 <= i <= s.len(),
    ensures
        i <= digits_end(s, i) <= s.len(),
    decreases s.len() - i,
{
    if i < s.len() && is_digit(s[i]) {
        lemma_digits_end_bounds(s, i + 1);
    }
}

/// End of the number starting at `i`, exactly as the grammar gives it.
fn scan_number(s: &Vec<char>, i: usize) -> (r: Option<usize>)
    requires
        i <= s@.len(),
    ensures
        match r {
            Some(j) => num_end(s@, i as int) == j as int && i < j <= s@.len(),
            None => num_end(s@, i as int) == -1,
        },
{
    let n = s.len();
    let i1 = if i < n && s[i] == '-' {
        i + 1
    } else {
        i
    };
    let i2: usize;
    if i1 < n && s[i1] == '0' {
        i2 = i1 + 1;
    } else if i1 < n && s[i1] >= '0' && s[i1] <= '9' {
        i2 = scan_digits(s, i1);
        proof {
            assert(digits_end(s@, i1 as int) == digits_end(s@, i1 as int + 1));
            lemma_digits_end_bounds(s@, i1 as int + 1);
        }
    } else {
        assert(num_end(s@, i as int) == -1);
        return None;
    }
    // fraction
    let i3: usize;
    if i2 < n && s[i2] == '.' {
        if i2 + 1 < n && s[i2 + 1] >= '0' && s[i2 + 1] <= '9' {
            i3 = scan_digits(s, i2 + 1);
        } else {
            return None;
        }
    } else {
        i3 = i2;
    }
    // exponent
    let i4: usize;
    if i3 < n && (s[i3] == 'e' || s[i3] == 'E') {
        let j = if i3 + 1 < n && (s[i3 + 1] == '+' || s[i3 + 1] == '-') {
            i3 + 2
        } else {
            i3 + 1
        };
        if j < n && s[j] >= '0' && s[j] <= '9' {
            i4 = scan_digits(s, j);
        } else {
            return None;
        }
    } else {
        i4 = i3;
    }
    proof {
        assert(crate::json::int_part_end(s@, i as int) == i2 as int);
        assert(crate::json::frac_part_end(s@, i2 as int) == i3 as int);
        assert(crate::json::exp_part_end(s@, i3 as int) == i4 as int);
        assert(num_end(s@, i as int) == i4 as int);
    }
    Some(i4)
}

/// Whether `s` is exactly one JSON number literal.
pub fn is_num_lit_exec(s: &Vec<char>) -> (r: bool)
    ensures
        r == is_num_lit(s@),
{
    if s.len() == 0 {
        return false;
    }
    match scan_number(s, 0) {
        Some(j) => j == s.len(),
        None => false,
    }
}

/// Match the exact characters of `lit` at position `i`.
#[verifier::loop_isolation(false)]
fn match_lit(s: &Vec<char>, i: usize, lit: &str) -> (r: Option<usize>)
    requires
        i <= s@.len(),
    ensures
        r matches Some(j) ==> j == i + lit@.len() && lit_at(s@, i as int, lit@),
        r is None ==> !lit_at(s@, i as int, lit@),
{
    let lc = str_to_chars(lit);
    let m = lc.len();
    if m > s.len() - i {
        return None;
    }
    let mut k: usize = 0;
    while k < m
        invariant
            0 <= k <= m,
            i + m <= s@.len(),
            m == lit@.len(),
            forall|q: int| 0 <= q < k ==> s@[i + q] == lit@[q],
        decreases m - k,
    {
        if s[i + k] != lc[k] {
            proof {
                assert(s@.subrange(i as int, i + lit@.len())[k as int] != lit@[k as int]);
            }
            return None;
        }
        k = k + 1;
    }
    proof {
        assert(s@.subrange(i as int, i + lit@.len()) =~= lit@);
    }
    Some(i + m)
}

fn hex_val(c: char) -> (r: Option<u32>)
    ensures
        (r is Some) == is_hex_digit(c),
        r matches Some(v) ==> v == hex_digit_val(c) && v < 16,
{
    if c >= '0' && c <= '9' {
        Some((c as u32) - ('0' as u32))
    } else if c >= 'a' && c <= 'f' {
        Some((c as u32) - ('a' as u32) + 10)
    } else if c >= 'A' && c <= 'F' {
        Some((c as u32) - ('A' as u32) + 10)
    } else {
        None
    }
}

/// Read the four hex digits of a `\u` escape at position `i`.
fn read_hex4(s: &Vec<char>, i: usize) -> (r: Option<(u32, usize)>)
    requires
        i <= s@.len(),
    ensures
        (r is Some) == hex4_at(s@, i as int),
        r matches Some((v, j)) ==> j == i + 4 && v == hex4_val(s@, i as int) && v < 0x10000,
{
    if s.len() - i < 4 {
        return None;
    }
    let a = match hex_val(s[i]) {
        Some(x) => x,
        None => {
            return None;
        },
    };
    let b = match hex_val(s[i + 1]) {
        Some(x) => x,
        None => {
            return None;
        },
    };
    let c = match hex_val(s[i + 2]) {
        Some(x) => x,
        None => {
            return None;
        },
    };
    let d = match hex_val(s[i + 3]) {
        Some(x) => x,
        None => {
            return None;
        },
    };
    Some((a * 4096 + b * 256 + c * 16 + d, i + 4))
}

/// Decode one escape sequence whose backslash stands at `j`: the decoded
/// character and the position after the escape, exactly as the grammar
/// reads it.
#[verifier::rlimit(100)]
fn decode_escape(s: &Vec<char>, j: usize) -> (r: Option<(char, usize)>)
    requires
        j < s@.len(),
        s@[j as int] == '\\',
    ensures
        r matches Some((c, j2)) ==> j < j2 <= s@.len() && sp_str_body(s@, j as int)
            == sp_str_cons(c, sp_str_body(s@, j2 as int)),
        r is None ==> sp_str_body(s@, j as int) is None,
{
    let n = s.len();
    if j + 1 >= n {
        return None;
    }
    let e = s[j + 1];
    if e == '"' {
        Some(('"', j + 2))
    } else if e == '\\' {
        Some(('\\', j + 2))
    } else if e == '/' {
        Some(('/', j + 2))
    } else if e == 'b' {
        Some(('\u{0008}', j + 2))
    } else if e == 'f' {
        Some(('\u{000c}', j + 2))
    } else if e == 'n' {
        Some(('\n', j + 2))
    } else if e == 'r' {
        Some(('\r', j + 2))
    } else if e == 't' {
        Some(('\t', j + 2))
    } else if e == 'u' {
        let (hi, j2) = match read_hex4(s, j + 2) {
            Some(x) => x,
            None => {
                return None;
            },
        };
        if hi >= 0xD800 && hi < 0xDC00 {
            // surrogate pair: expect a matching low half
            if n - j2 < 2 {
                return None;
            }
            if s[j2] != '\\' || s[j2 + 1] != 'u' {
                return None;
            }
            let (lo, j3) = match read_hex4(s, j2 + 2) {
                Some(x) => x,
                None => {
                    return None;
                },
            };
            if !(lo >= 0xDC00 && lo < 0xE000) {
                return None;
            }
            let code = 0x10000 + (hi - 0xD800) * 1024 + (lo - 0xDC00);
            let ch = match char_from_u32(code) {
                Some(ch) => ch,
                None => {
                    return None;
                },
            };
            Some((ch, j3))
        } else {
            let ch = match char_from_u32(hi) {
                Some(ch) => ch,
                None => {
                    return None;
                },
            };
            Some((ch, j2))
        }
    } else {
        None
    }
}

/// A parsed string body ends after where it started and inside the text.
#[verifier::rlimit(100)]
proof fn lemma_sp_str_body_end(s: Seq<char>, j: int)
    requires
        0 <= j <= s.len(),
    ensures
        sp_str_body(s, j) matches Some((t, e)) ==> j < e <= s.len(),
    decreases s.len() - j,
{
    if j < s.len() && s[j] != '"' {
        if s[j] == '\\' {
            if j + 1 < s.len() {
                let e = s[j + 1];
                if e == 'u' {
                    if hex4_at(s, j + 2) {
                        let hi = hex4_val(s, j + 2);
                        if 0xD800 <= hi && hi < 0xDC00 {
                            if !(j + 8 > s.len() || s[j + 6] != '\\' || s[j + 7] != 'u')
                                && hex4_at(s, j + 8) {
                                lemma_sp_str_body_end(s, j + 12);
                            }
                        } else {
                            lemma_sp_str_body_end(s, j + 6);
                        }
                    }
                } else {
                    if j + 2 <= s.len() {
                        lemma_sp_str_body_end(s, j + 2);
                    }
                }
            }
        } else {
            lemma_sp_str_body_end(s, j + 1);
        }
    }
}

/// Parse the string whose opening quote stands at `i`: exactly what the
/// grammar says it decodes to.
#[verifier::loop_isolation(false)]
#[verifier::rlimit(100)]
fn parse_string(s: &Vec<char>, i: usize) -> (r: Option<(String, usize)>)
    requires
        i < s@.len(),
    ensures
        r matches Some((content, j)) ==> i < j <= s@.len() && sp_string(s@, i as int) == Some(
            (content@, j as int),
        ),
        r is None ==> sp_string(s@, i as int) is None,
{
    if s[i] != '"' {
        return None;
    }
    let n = s.len();
    let start = i + 1;
    let mut out: Vec<char> = Vec::new();
    let mut j = start;
    proof {
        lemma_sp_str_body_end(s@, start as int);
        match sp_str_body(s@, start as int) {
            Some((t, e)) => {
                assert(Seq::<char>::empty() + t =~= t);
            },
            None => {},
        }
    }
    loop
        invariant
            start <= j <= n,
            n == s@.len(),
            i < start,
            s@[i as int] == '"',
            match sp_str_body(s@, j as int) {
                Some((t, e)) => sp_str_body(s@, start as int) == Some((out@ + t, e)) && start
                    <= e <= n,
                None => sp_str_body(s@, start as int) is None,
            },
        decreases n - j,
    {
        if j >= n {
            return None;
        }
        let ghost pre_j = j;
        let ghost pre_out = out@;
        let c = s[j];
        if c == '"' {
            proof {
                assert(sp_str_body(s@, j as int) == Some((Seq::<char>::empty(), j as int + 1)));
                assert(out@ + Seq::<char>::empty() =~= out@);
            }
            return Some((chars_to_string(&out), j + 1));
        } else if c == '\\' {
            let (ch, j2) = match decode_escape(s, j) {
                Some(x) => x,
                None => {
                    return None;
                },
            };
            out.push(ch);
            j = j2;
        } else {
            proof {
                assert(sp_str_body(s@, j as int) == sp_str_cons(c, sp_str_body(
                    s@,
                    j as int + 1,
                )));
            }
            out.push(c);
            j = j + 1;
        }
        proof {
            let c_dec = out@.last();
            assert(out@ =~= pre_out.push(c_dec));
            assert(sp_str_body(s@, pre_j as int) == sp_str_cons(
                c_dec,
                sp_str_body(s@, j as int),
            ));
            match sp_str_body(s@, j as int) {
                Some((t, e)) => {
                    assert(pre_out + (seq![c_dec] + t) =~= out@ + t);
                },
                None => {},
            }
        }
    }
}

// ---------------------------------------------------------------------------
// Values and documents
// ---------------------------------------------------------------------------

/// Parse one JSON value whose first character stands at `i` (no leading
/// whitespace): exactly what the grammar says, and well-formed.
#[verifier::loop_isolation(false)]
#[verifier::rlimit(100)]
fn parse_value(s: &Vec<char>, i: usize) -> (r: Option<(Json, usize)>)
    requires
        i <= s@.len(),
    ensures
        r matches Some((v, j)) ==> i < j <= s@.len() && wf_json(jmodel(v)) && sp_value(
            s@,
            i as int,
        ) == Some((jmodel(v), j as int)),
        r is None ==> sp_value(s@, i as int) is None,
    decreases s@.len() - i,
{
    let n = s.len();
    if i >= n {
        return None;
    }
    let c = s[i];
    if c == 'n' {
        proof {
            reveal_strlit("null");
        }
        match match_lit(s, i, "null") {
            Some(j) => Some((Json::Null, j)),
            None => None,
        }
    } else if c == 't' {
        proof {
            reveal_strlit("true");
        }
        match match_lit(s, i, "true") {
            Some(j) => Some((Json::Bool(true), j)),
            None => None,
        }
    } else if c == 'f' {
        proof {
            reveal_strlit("false");
        }
        match match_lit(s, i, "false") {
            Some(j) => Some((Json::Bool(false), j)),
            None => None,
        }
    } else if c == '"' {
        match parse_string(s, i) {
            Some((content, j)) => Some((Json::Str(content), j)),
            None => None,
        }
    } else if c == '-' || (c >= '0' && c <= '9') {
        let j = match scan_number(s, i) {
            Some(j) => j,
            None => {
                return None;
            },
        };
        let mut lit: Vec<char> = Vec::new();
        let mut k = i;
        while k < j
            invariant
                i <= k <= j <= n,
                lit@ == s@.subrange(i as int, k as int),
            decreases j - k,
        {
            lit.push(s[k]);
            proof {
                assert(lit@ =~= s@.subrange(i as int, k as int + 1));
            }
            k = k + 1;
        }
        if is_num_lit_exec(&lit) {
            Some((Json::Num(chars_to_string(&lit)), j))
        } else {
            None
        }
    } else if c == '[' {
        let mut elems: Vec<Json> = Vec::new();
        let cur0 = skip_ws(s, i + 1);
        if cur0 < n && s[cur0] == ']' {
            proof {
                lemma_jmodel_seq(elems@, 0);
                lemma_wf_list_from(jmodel_seq(elems@, 0), 0);
                assert(jmodel_seq(elems@, 0) =~= Seq::<JsonV>::empty());
            }
            return Some((Json::Arr(elems), cur0 + 1));
        }
        let ghost first = cur0 as int;
        let mut cur = cur0;
        loop
            invariant
                i < cur <= n,
                n == s@.len(),
                s@[i as int] == '[',
                first == ws_to(s@, i + 1),
                !(first < n && s@[first] == ']'),
                forall|k: int| 0 <= k < elems@.len() ==> wf_json(jmodel(#[trigger] elems@[k])),
                match sp_elems(s@, cur as int) {
                    Some((rest, end)) => sp_elems(s@, first) == Some(
                        (jmodel_seq(elems@, 0) + rest, end),
                    ),
                    None => sp_elems(s@, first) is None,
                },
            decreases n - cur,
        {
            let (v, after) = match parse_value(s, cur) {
                Some(x) => x,
                None => {
                    return None;
                },
            };
            let ghost pre = elems@;
            elems.push(v);
            proof {
                lemma_jmodel_seq(pre, 0);
                lemma_jmodel_seq(elems@, 0);
                assert(jmodel_seq(elems@, 0) =~= jmodel_seq(pre, 0).push(jmodel(v)));
            }
            let sep = skip_ws(s, after);
            if sep < n && s[sep] == ',' {
                let next = skip_ws(s, sep + 1);
                proof {
                    assert(jmodel_seq(pre, 0) + (seq![jmodel(v)] + (match sp_elems(
                        s@,
                        next as int,
                    ) {
                        Some((rest, _)) => rest,
                        None => Seq::empty(),
                    })) =~= jmodel_seq(elems@, 0) + (match sp_elems(s@, next as int) {
                        Some((rest, _)) => rest,
                        None => Seq::empty(),
                    }));
                }
                cur = next;
            } else if sep < n && s[sep] == ']' {
                proof {
                    lemma_jmodel_seq(elems@, 0);
                    let ghost m = jmodel_seq(elems@, 0);
                    assert forall|k: int| 0 <= k < m.len() implies wf_json(#[trigger] m[k]) by {
                        assert(jmodel_seq(elems@, 0)[k] == jmodel(elems@[k + 0]));
                    }
                    lemma_wf_list_from(m, 0);
                    assert(sp_elems(s@, cur as int) == Some(
                        (seq![jmodel(v)], sep as int + 1),
                    ));
                    assert(jmodel_seq(pre, 0) + seq![jmodel(v)] =~= jmodel_seq(elems@, 0));
                }
                return Some((Json::Arr(elems), sep + 1));
            } else {
                return None;
            }
        }
    } else if c == '{' {
        let mut fields: Vec<(String, Json)> = Vec::new();
        let cur0 = skip_ws(s, i + 1);
        if cur0 < n && s[cur0] == '}' {
            proof {
                lemma_jmodel_fields(fields@, 0);
                lemma_wf_fields_from(jmodel_fields(fields@, 0), 0);
                assert(jmodel_fields(fields@, 0) =~= Seq::<(Seq<char>, JsonV)>::empty());
            }
            return Some((Json::Obj(fields), cur0 + 1));
        }
        let ghost first = cur0 as int;
        let mut cur = cur0;
        loop
            invariant
                i < cur <= n,
                n == s@.len(),
                s@[i as int] == '{',
                first == ws_to(s@, i + 1),
                !(first < n && s@[first] == '}'),
                forall|k: int|
                    0 <= k < fields@.len() ==> wf_json(jmodel(#[trigger] fields@[k].1)),
                match sp_fields(s@, cur as int) {
                    Some((rest, end)) => sp_fields(s@, first) == Some(
                        (jmodel_fields(fields@, 0) + rest, end),
                    ),
                    None => sp_fields(s@, first) is None,
                },
            decreases n - cur,
        {
            if cur >= n {
                return None;
            }
            let (key, after_key) = match parse_string(s, cur) {
                Some(x) => x,
                None => {
                    return None;
                },
            };
            let colon = skip_ws(s, after_key);
            if !(colon < n && s[colon] == ':') {
                return None;
            }
            let vstart = skip_ws(s, colon + 1);
            let (v, after) = match parse_value(s, vstart) {
                Some(x) => x,
                None => {
                    return None;
                },
            };
            let ghost pre = fields@;
            let ghost entry = (key@, jmodel(v));
            fields.push((key, v));
            proof {
                lemma_jmodel_fields(pre, 0);
                lemma_jmodel_fields(fields@, 0);
                assert(jmodel_fields(fields@, 0) =~= jmodel_fields(pre, 0).push(entry));
            }
            let sep = skip_ws(s, after);
            if sep < n && s[sep] == ',' {
                let next = skip_ws(s, sep + 1);
                proof {
                    assert(jmodel_fields(pre, 0) + (seq![entry] + (match sp_fields(
                        s@,
                        next as int,
                    ) {
                        Some((rest, _)) => rest,
                        None => Seq::empty(),
                    })) =~= jmodel_fields(fields@, 0) + (match sp_fields(s@, next as int) {
                        Some((rest, _)) => rest,
                        None => Seq::empty(),
                    }));
                }
                cur = next;
            } else if sep < n && s[sep] == '}' {
                proof {
                    lemma_jmodel_fields(fields@, 0);
                    let ghost m = jmodel_fields(fields@, 0);
                    assert forall|k: int| 0 <= k < m.len() implies wf_json(#[trigger] m[k].1) by {
                        assert(jmodel_fields(fields@, 0)[k] == (fields@[k + 0].0@, jmodel(
                            fields@[k + 0].1,
                        )));
                    }
                    lemma_wf_fields_from(m, 0);
                    assert(sp_fields(s@, cur as int) == Some((seq![entry], sep as int + 1)));
                    assert(jmodel_fields(pre, 0) + seq![entry] =~= jmodel_fields(fields@, 0));
                }
                return Some((Json::Obj(fields), sep + 1));
            } else {
                return None;
            }
        }
    } else {
        None
    }
}

/// Parse a whole JSON document: `Some` exactly when the text spells one
/// value, possibly surrounded by whitespace, spanning everything — and
/// then exactly the value the grammar gives.
pub fn parse_json_chars(s: &Vec<char>) -> (r: Option<Json>)
    ensures
        r matches Some(v) ==> wf_json(jmodel(v)) && sp_doc(s@) == Some(jmodel(v)),
        r is None ==> sp_doc(s@) is None,
{
    let start = skip_ws(s, 0);
    let (v, j) = match parse_value(s, start) {
        Some(x) => x,
        None => {
            return None;
        },
    };
    let end = skip_ws(s, j);
    if end == s.len() {
        Some(v)
    } else {
        None
    }
}

/// Parse a whole JSON document from a string.
pub fn parse_json_text(text: &str) -> (r: Option<Json>)
    ensures
        r matches Some(v) ==> wf_json(jmodel(v)) && sp_doc(text@) == Some(jmodel(v)),
        r is None ==> sp_doc(text@) is None,
{
    let cs = str_to_chars(text);
    parse_json_chars(&cs)
}

} // verus!
