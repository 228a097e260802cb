//! The JSON document model used by every wire codec in the crate.
//!
//! A [`Json`] value is the executable tree; [`JsonV`] is its mathematical
//! model. The serializer is specified exactly by [`jtext`]; the parser
//! guarantees well-formedness of what it returns and strict progress
//! through its input. Numbers keep their literal spelling so that encoding
//! never invents or loses precision.

use vstd::prelude::*;

use crate::strutil::{
    all_digits, chars_to_string, dec_of, dec_val, is_digit, is_ws, is_ws_exec, parse_u64,
    push_str_chars, push_u64, str_to_chars,
};

verus! {

broadcast use {vstd::seq::axiom_seq_index_decreases, vstd::std_specs::vec::axiom_vec_decreases_to_view};

/// Mathematical model of a JSON document.
#[verifier::ext_equal]
pub enum JsonV {
    Null,
    Bool(bool),
    /// A number, kept as its literal spelling.
    Num(Seq<char>),
    Str(Seq<char>),
    Arr(Seq<JsonV>),
    Obj(Seq<(Seq<char>, JsonV)>),
}

/// A JSON document.
#[derive(Debug, PartialEq)]
pub enum Json {
    Null,
    Bool(bool),
    /// A number, kept as its literal spelling.
    Num(String),
    Str(String),
    Arr(Vec<Json>),
    Obj(Vec<(String, Json)>),
}

/// The model of an executable JSON value.
pub open spec fn jmodel(j: Json) -> JsonV
    decreases j, 1int, 0int,
{
    match j {
        Json::Null => JsonV::Null,
        Json::Bool(b) => JsonV::Bool(b),
        Json::Num(s) => JsonV::Num(s@),
        Json::Str(s) => JsonV::Str(s@),
        Json::Arr(elems) => JsonV::Arr(jmodel_seq(elems@, 0)),
        Json::Obj(fields) => JsonV::Obj(jmodel_fields(fields@, 0)),
    }
}

/// Models of the elements of `s` from index `i` on.
pub open spec fn jmodel_seq(s: Seq<Json>, i: int) -> Seq<JsonV>
    decreases s, 0int, s.len() - i,
    when 0 <= i <= s.len()
{
    if i >= s.len() {
        Seq::empty()
    } else {
        seq![jmodel(s[i])] + jmodel_seq(s, i + 1)
    }
}

/// Models of the fields of `s` from index `i` on.
pub open spec fn jmodel_fields(s: Seq<(String, Json)>, i: int) -> Seq<(Seq<char>, JsonV)>
    decreases s, 0int, s.len() - i,
    when 0 <= i <= s.len()
{
    if i >= s.len() {
        Seq::empty()
    } else {
        seq![(s[i].0@, jmodel(s[i].1))] + jmodel_fields(s, i + 1)
    }
}

pub proof fn lemma_jmodel_seq(s: Seq<Json>, i: int)
    requires
        0 <= i <= s.len(),
    ensures
        jmodel_seq(s, i).len() == s.len() - i,
        forall|k: int| 0 <= k < s.len() - i ==> #[trigger] jmodel_seq(s, i)[k] == jmodel(s[k + i]),
    decreases s.len() - i,
{
    if i < s.len() {
        lemma_jmodel_seq(s, i + 1);
    }
}

pub proof fn lemma_jmodel_fields(s: Seq<(String, Json)>, i: int)
    requires
        0 <= i <= s.len(),
    ensures
        jmodel_fields(s, i).len() == s.len() - i,
        forall|k: int|
            0 <= k < s.len() - i ==> #[trigger] jmodel_fields(s, i)[k] == (
                s[k + i].0@,
                jmodel(s[k + i].1),
            ),
    decreases s.len() - i,
{
    if i < s.len() {
        lemma_jmodel_fields(s, i + 1);
    }
}

// ---------------------------------------------------------------------------
// The number grammar
// ---------------------------------------------------------------------------

/// Index of the first non-digit at or after `i`.
pub open spec fn digits_end(s: Seq<char>, i: int) -> int
    decreases s.len() - i,
    when 0 <= i <= s.len()
{
    if i < s.len() && is_digit(s[i]) {
        digits_end(s, i + 1)
    } else {
        i
    }
}

/// End of the integer part of a number starting at `i`, or `-1`.
pub open spec fn int_part_end(s: Seq<char>, i: int) -> int {
    let i1 = if i < s.len() && s[i] == '-' {
        i + 1
    } else {
        i
    };
    if i1 < s.len() && s[i1] == '0' {
        i1 + 1
    } else if i1 < s.len() && is_digit(s[i1]) {
        digits_end(s, i1)
    } else {
        -1
    }
}

/// End of the optional fraction part starting at `i`, or `-1`.
pub open spec fn frac_part_end(s: Seq<char>, i: int) -> int {
    if i < s.len() && s[i] == '.' {
        if i + 1 < s.len() && is_digit(s[i + 1]) {
            digits_end(s, i + 1)
        } else {
            -1
        }
    } else {
        i
    }
}

/// End of the optional exponent part starting at `i`, or `-1`.
pub open spec fn exp_part_end(s: Seq<char>, i: int) -> int {
    if i < s.len() && (s[i] == 'e' || s[i] == 'E') {
        let j = if i + 1 < s.len() && (s[i + 1] == '+' || s[i + 1] == '-') {
            i + 2
        } else {
            i + 1
        };
        if j < s.len() && is_digit(s[j]) {
            digits_end(s, j)
        } else {
            -1
        }
    } else {
        i
    }
}

/// End of the number starting at `i`, or `-1` when no number starts there.
pub open spec fn num_end(s: Seq<char>, i: int) -> int {
    let i2 = int_part_end(s, i);
    if i2 < 0 {
        -1
    } else {
        let i3 = frac_part_end(s, i2);
        if i3 < 0 {
            -1
        } else {
            exp_part_end(s, i3)
        }
    }
}

/// Whether `s` is exactly one JSON number literal.
pub open spec fn is_num_lit(s: Seq<char>) -> bool {
    s.len() > 0 && num_end(s, 0) == s.len()
}

// ---------------------------------------------------------------------------
// Well-formedness
// ---------------------------------------------------------------------------

/// Every number in the document is a valid literal.
pub open spec fn wf_json(v: JsonV) -> bool
    decreases v, 1int, 0int,
{
    match v {
        JsonV::Null => true,
        JsonV::Bool(_) => true,
        JsonV::Num(s) => is_num_lit(s),
        JsonV::Str(_) => true,
        JsonV::Arr(elems) => wf_list_from(elems, 0),
        JsonV::Obj(fields) => wf_fields_from(fields, 0),
    }
}

pub open spec fn wf_list_from(elems: Seq<JsonV>, i: int) -> bool
    decreases elems, 0int, elems.len() - i,
    when 0 <= i <= elems.len()
{
    if i >= elems.len() {
        true
    } else {
        wf_json(elems[i]) && wf_list_from(elems, i + 1)
    }
}

pub open spec fn wf_fields_from(fields: Seq<(Seq<char>, JsonV)>, i: int) -> bool
    decreases fields, 0int, fields.len() - i,
    when 0 <= i <= fields.len()
{
    if i >= fields.len() {
        true
    } else {
        wf_json(fields[i].1) && wf_fields_from(fields, i + 1)
    }
}

pub proof fn lemma_wf_list_from(elems: Seq<JsonV>, i: int)
    requires
        0 <= i <= elems.len(),
    ensures
        wf_list_from(elems, i) <==> (forall|k: int|
            i <= k < elems.len() ==> wf_json(#[trigger] elems[k])),
    decreases elems.len() - i,
{
    if i < elems.len() {
        lemma_wf_list_from(elems, i + 1);
    }
}

pub proof fn lemma_wf_fields_from(fields: Seq<(Seq<char>, JsonV)>, i: int)
    requires
        0 <= i <= fields.len(),
    ensures
        wf_fields_from(fields, i) <==> (forall|k: int|
            i <= k < fields.len() ==> wf_json(#[trigger] fields[k].1)),
    decreases fields.len() - i,
{
    if i < fields.len() {
        lemma_wf_fields_from(fields, i + 1);
    }
}

// ---------------------------------------------------------------------------
// Serialization
// ---------------------------------------------------------------------------

/// The character of a hexadecimal digit, lower case.
pub open spec fn hex_char(d: nat) -> char {
    if d < 10 {
        crate::strutil::digit_char(d)
    } else if d == 10 {
        'a'
    } else if d == 11 {
        'b'
    } else if d == 12 {
        'c'
    } else if d == 13 {
        'd'
    } else if d == 14 {
        'e'
    } else {
        'f'
    }
}

/// How one character is written inside a JSON string.
pub open spec fn esc_char(c: char) -> Seq<char> {
    if c == '"' {
        seq!['\\', '"']
    } else if c == '\\' {
        seq!['\\', '\\']
    } else if c == '\n' {
        seq!['\\', 'n']
    } else if c == '\r' {
        seq!['\\', 'r']
    } else if c == '\t' {
        seq!['\\', 't']
    } else if (c as u32) < 0x20 {
        seq!['\\', 'u', '0', '0', hex_char(((c as u32) / 16) as nat), hex_char(
            ((c as u32) % 16) as nat,
        )]
    } else {
        seq![c]
    }
}

/// How a whole string body is written inside quotes.
pub open spec fn esc_seq(s: Seq<char>) -> Seq<char>
    decreases s.len(),
{
    if s.len() == 0 {
        Seq::empty()
    } else {
        esc_seq(s.drop_last()) + esc_char(s.last())
    }
}

/// The exact text the serializer produces for `v`.
pub open spec fn jtext(v: JsonV) -> Seq<char>
    decreases v, 1int, 0int,
{
    match v {
        JsonV::Null => "null"@,
        JsonV::Bool(b) => if b {
            "true"@
        } else {
            "false"@
        },
        JsonV::Num(s) => s,
        JsonV::Str(s) => seq!['"'] + esc_seq(s) + seq!['"'],
        JsonV::Arr(elems) => seq!['['] + jtext_list_from(elems, 0) + seq![']'],
        JsonV::Obj(fields) => seq!['{'] + jtext_fields_from(fields, 0) + seq!['}'],
    }
}

/// The comma-separated texts of `elems[i..]`.
pub open spec fn jtext_list_from(elems: Seq<JsonV>, i: int) -> Seq<char>
    decreases elems, 0int, elems.len() - i,
    when 0 <= i <= elems.len()
{
    if i >= elems.len() {
        Seq::empty()
    } else if i == elems.len() - 1 {
        jtext(elems[i])
    } else {
        jtext(elems[i]) + seq![','] + jtext_list_from(elems, i + 1)
    }
}

/// The comma-separated `"key":value` texts of `fields[i..]`.
pub open spec fn jtext_fields_from(fields: Seq<(Seq<char>, JsonV)>, i: int) -> Seq<char>
    decreases fields, 0int, fields.len() - i,
    when 0 <= i <= fields.len()
{
    if i >= fields.len() {
        Seq::empty()
    } else {
        let entry = seq!['"'] + esc_seq(fields[i].0) + seq!['"', ':'] + jtext(fields[i].1);
        if i == fields.len() - 1 {
            entry
        } else {
            entry + seq![','] + jtext_fields_from(fields, i + 1)
        }
    }
}

fn hex_of(d: u32) -> (c: char)
    requires
        d < 16,
    ensures
        c == hex_char(d as nat),
{
    if d == 0 {
        '0'
    } else if d == 1 {
        '1'
    } else if d == 2 {
        '2'
    } else if d == 3 {
        '3'
    } else if d == 4 {
        '4'
    } else if d == 5 {
        '5'
    } else if d == 6 {
        '6'
    } else if d == 7 {
        '7'
    } else if d == 8 {
        '8'
    } else if d == 9 {
        '9'
    } else if d == 10 {
        'a'
    } else if d == 11 {
        'b'
    } else if d == 12 {
        'c'
    } else if d == 13 {
        'd'
    } else if d == 14 {
        'e'
    } else {
        'f'
    }
}

/// Append the escaped body of `s` to `out`.
#[verifier::loop_isolation(false)]
fn push_escaped(out: &mut Vec<char>, s: &str)
    ensures
        final(out)@ == old(out)@ + esc_seq(s@),
{
    let cs = str_to_chars(s);
    let n = cs.len();
    let mut i: usize = 0;
    while i < n
        invariant
            0 <= i <= n,
            n == cs@.len(),
            cs@ == s@,
            out@ == old(out)@ + esc_seq(s@.take(i as int)),
        decreases n - i,
    {
        let c = cs[i];
        if c == '"' {
            out.push('\\');
            out.push('"');
        } else if c == '\\' {
            out.push('\\');
            out.push('\\');
        } else if c == '\n' {
            out.push('\\');
            out.push('n');
        } else if c == '\r' {
            out.push('\\');
            out.push('r');
        } else if c == '\t' {
            out.push('\\');
            out.push('t');
        } else if (c as u32) < 0x20 {
            let cc = c as u32;
            out.push('\\');
            out.push('u');
            out.push('0');
            out.push('0');
            out.push(hex_of(cc / 16));
            out.push(hex_of(cc % 16));
        } else {
            out.push(c);
        }
        proof {
            assert(s@.take(i as int + 1).drop_last() =~= s@.take(i as int));
            assert(s@.take(i as int + 1).last() == s@[i as int]);
            assert(out@ =~= old(out)@ + esc_seq(s@.take(i as int + 1)));
        }
        i = i + 1;
    }
    proof {
        assert(s@.take(n as int) =~= s@);
    }
}

/// Append the serialized text of `j` to `out`.
#[verifier::loop_isolation(false)]
pub fn push_json(j: &Json, out: &mut Vec<char>)
    ensures
        final(out)@ == old(out)@ + jtext(jmodel(*j)),
    decreases *j,
{
    match j {
        Json::Null => {
            push_str_chars(out, "null");
        },
        Json::Bool(b) => {
            if *b {
                push_str_chars(out, "true");
            } else {
                push_str_chars(out, "false");
            }
        },
        Json::Num(s) => {
            push_str_chars(out, s.as_str());
        },
        Json::Str(s) => {
            out.push('"');
            push_escaped(out, s.as_str());
            out.push('"');
            proof {
                assert(out@ =~= old(out)@ + jtext(jmodel(*j)));
            }
        },
        Json::Arr(elems) => {
            let ghost m = jmodel_seq(elems@, 0);
            proof {
                lemma_jmodel_seq(elems@, 0);
            }
            out.push('[');
            let n = elems.len();
            let mut i: usize = 0;
            while i < n
                invariant
                    0 <= i <= n,
                    n == elems@.len(),
                    m == jmodel_seq(elems@, 0),
                    m.len() == n,
                    forall|k: int| 0 <= k < n ==> m[k] == jmodel(elems@[k]),
                    out@ + jtext_list_from(m, i as int) == old(out)@ + seq!['[']
                        + jtext_list_from(m, 0),
                decreases n - i,
            {
                proof {
                    assert(decreases_to!(*j => elems));
                    assert(decreases_to!(elems => elems@));
                    assert(decreases_to!(elems@ => elems@[i as int]));
                }
                push_json(&elems[i], out);
                if i + 1 < n {
                    out.push(',');
                }
                proof {
                    if i as int == n - 1 {
                        assert(jtext_list_from(m, i as int) == jtext(m[i as int]));
                    } else {
                        assert(jtext_list_from(m, i as int) == jtext(m[i as int]) + seq![',']
                            + jtext_list_from(m, i as int + 1));
                    }
                    assert(out@ + jtext_list_from(m, i as int + 1) =~= old(out)@ + seq!['[']
                        + jtext_list_from(m, 0));
                }
                i = i + 1;
            }
            out.push(']');
            proof {
                assert(jtext_list_from(m, n as int) =~= Seq::<char>::empty());
                assert(out@ =~= old(out)@ + jtext(jmodel(*j)));
            }
        },
        Json::Obj(fields) => {
            let ghost m = jmodel_fields(fields@, 0);
            proof {
                lemma_jmodel_fields(fields@, 0);
            }
            out.push('{');
            let n = fields.len();
            let mut i: usize = 0;
            while i < n
                invariant
                    0 <= i <= n,
                    n == fields@.len(),
                    m == jmodel_fields(fields@, 0),
                    m.len() == n,
                    forall|k: int| 0 <= k < n ==> m[k] == (fields@[k].0@, jmodel(fields@[k].1)),
                    out@ + jtext_fields_from(m, i as int) == old(out)@ + seq!['{']
                        + jtext_fields_from(m, 0),
                decreases n - i,
            {
                out.push('"');
                push_escaped(out, fields[i].0.as_str());
                out.push('"');
                out.push(':');
                proof {
                    assert(decreases_to!(*j => fields));
                    assert(decreases_to!(fields => fields@));
                    assert(decreases_to!(fields@ => fields@[i as int]));
                    assert(decreases_to!(fields@[i as int] => fields@[i as int].1));
                }
                push_json(&fields[i].1, out);
                if i + 1 < n {
                    out.push(',');
                }
                proof {
                    let entry = seq!['"'] + esc_seq(m[i as int].0) + seq!['"', ':']
                        + jtext(m[i as int].1);
                    if i as int == n - 1 {
                        assert(jtext_fields_from(m, i as int) == entry);
                    } else {
                        assert(jtext_fields_from(m, i as int) == entry + seq![',']
                            + jtext_fields_from(m, i as int + 1));
                    }
                    assert(out@ + jtext_fields_from(m, i as int + 1) =~= old(out)@ + seq!['{']
                        + jtext_fields_from(m, 0));
                }
                i = i + 1;
            }
            out.push('}');
            proof {
                assert(jtext_fields_from(m, n as int) =~= Seq::<char>::empty());
                assert(out@ =~= old(out)@ + jtext(jmodel(*j)));
            }
        },
    }
}

/// The serialized text of `j` as a `String`.
pub fn json_to_string(j: &Json) -> (r: String)
    ensures
        r@ == jtext(jmodel(*j)),
{
    let mut out: Vec<char> = Vec::new();
    push_json(j, &mut out);
    chars_to_string(&out)
}

// ---------------------------------------------------------------------------
// Reading a document
// ---------------------------------------------------------------------------

/// The value under `key` in `fields[i..]`, first occurrence.
pub open spec fn jget_from(fields: Seq<(Seq<char>, JsonV)>, key: Seq<char>, i: int) -> Option<
    JsonV,
>
    decreases fields.len() - i,
    when 0 <= i <= fields.len()
{
    if i >= fields.len() {
        None
    } else if fields[i].0 == key {
        Some(fields[i].1)
    } else {
        jget_from(fields, key, i + 1)
    }
}

/// The value under `key` when `v` is an object holding it.
pub open spec fn jlookup(v: JsonV, key: Seq<char>) -> Option<JsonV> {
    match v {
        JsonV::Obj(fields) => jget_from(fields, key, 0),
        _ => None,
    }
}

/// The number under `v` when it is an unsigned decimal that fits a `u64`.
pub open spec fn spec_as_u64(v: JsonV) -> Option<u64> {
    match v {
        JsonV::Num(s) => if all_digits(s) && s.len() > 0 && dec_val(s) <= u64::MAX {
            Some(dec_val(s) as u64)
        } else {
            None
        },
        _ => None,
    }
}

impl Json {
    /// The value under `key`, when this is an object with such a field.
    #[verifier::loop_isolation(false)]
    pub fn get<'a>(&'a self, key: &str) -> (r: Option<&'a Json>)
        ensures
            match r {
                Some(x) => jlookup(jmodel(*self), key@) == Some(jmodel(*x)),
                None => jlookup(jmodel(*self), key@) is None,
            },
    {
        match self {
            Json::Obj(fields) => {
                let ghost m = jmodel_fields(fields@, 0);
                proof {
                    lemma_jmodel_fields(fields@, 0);
                }
                let n = fields.len();
                let mut i: usize = 0;
                while i < n
                    invariant
                        0 <= i <= n,
                        jget_from(m, key@, 0) == jget_from(m, key@, i as int),
                    decreases n - i,
                {
                    if crate::strutil::string_eq_str(&fields[i].0, key) {
                        return Some(&fields[i].1);
                    }
                    i = i + 1;
                }
                None
            },
            _ => None,
        }
    }

    /// The string content, when this is a string.
    pub fn as_str<'a>(&'a self) -> (r: Option<&'a String>)
        ensures
            match r {
                Some(s) => jmodel(*self) == JsonV::Str(s@),
                None => !(jmodel(*self) is Str),
            },
    {
        match self {
            Json::Str(s) => Some(s),
            _ => None,
        }
    }

    /// The boolean, when this is a boolean.
    pub fn as_bool(&self) -> (r: Option<bool>)
        ensures
            match r {
                Some(b) => jmodel(*self) == JsonV::Bool(b),
                None => !(jmodel(*self) is Bool),
            },
    {
        match self {
            Json::Bool(b) => Some(*b),
            _ => None,
        }
    }

    /// The elements, when this is an array.
    pub fn as_array<'a>(&'a self) -> (r: Option<&'a Vec<Json>>)
        ensures
            match r {
                Some(a) => jmodel(*self) == JsonV::Arr(jmodel_seq(a@, 0)),
                None => !(jmodel(*self) is Arr),
            },
    {
        match self {
            Json::Arr(elems) => Some(elems),
            _ => None,
        }
    }

    /// The fields, when this is an object.
    pub fn as_object<'a>(&'a self) -> (r: Option<&'a Vec<(String, Json)>>)
        ensures
            match r {
                Some(f) => jmodel(*self) == JsonV::Obj(jmodel_fields(f@, 0)),
                None => !(jmodel(*self) is Obj),
            },
    {
        match self {
            Json::Obj(fields) => Some(fields),
            _ => None,
        }
    }

    /// Whether this is `null`.
    pub fn is_null(&self) -> (r: bool)
        ensures
            r == (jmodel(*self) is Null),
    {
        match self {
            Json::Null => true,
            _ => false,
        }
    }

    /// The value as an unsigned 64-bit number, when it is one.
    pub fn as_u64(&self) -> (r: Option<u64>)
        ensures
            r == spec_as_u64(jmodel(*self)),
    {
        match self {
            Json::Num(s) => {
                let cs = str_to_chars(s.as_str());
                parse_u64(&cs)
            },
            _ => None,
        }
    }

    /// A string value copied from `s`.
    pub fn str_of(s: &str) -> (r: Json)
        ensures
            jmodel(r) == JsonV::Str(s@),
    {
        Json::Str(s.to_owned())
    }

    /// A number value rendering `n` in decimal.
    pub fn num_u64(n: u64) -> (r: Json)
        ensures
            jmodel(r) == JsonV::Num(dec_of(n as nat)),
    {
        Json::Num(crate::strutil::u64_to_string(n))
    }
}

} // verus!
