//! The JSON tree the normalizer works on, a parser for the textual form and
//! a serializer back to text.
//!
//! The grammar accepted here is the JSON interchange grammar: objects,
//! arrays, strings with the usual escapes (including `\uXXXX` with surrogate
//! pairs), numbers, `true`, `false` and `null`, separated by ASCII
//! whitespace. Numbers are kept as their literal text, so no floating-point
//! value is ever constructed. The parser is written twice: once as a spec
//! function that defines the grammar, and once as executable code proved to
//! return exactly what the spec parser returns.
use vstd::prelude::*;

use crate::text::char_from_u32;
use crate::text::chars_to_string;
use crate::text::copy_range;
use crate::text::is_ws;
use crate::text::ws_char;

verus! {

broadcast use vstd::seq::group_seq_axioms, vstd::std_specs::vec::group_vec_axioms;

/// A parsed JSON value. Number literals are kept as raw text; strings are
/// kept decoded (escape sequences already resolved).
pub enum Json {
    Null,
    Bool(bool),
    Num(String),
    Str(String),
    Arr(Vec<Json>),
    Obj(Vec<(String, Json)>),
}

/// The mathematical model of a [`Json`] tree.
pub enum JsonVal {
    Null,
    Bool(bool),
    Num(Seq<char>),
    Str(Seq<char>),
    Arr(Seq<JsonVal>),
    Obj(Seq<(Seq<char>, JsonVal)>),
}

impl Json {
    /// The model of this tree.
    pub open spec fn model(self) -> JsonVal
        decreases self,
    {
        match self {
            Json::Null => JsonVal::Null,
            Json::Bool(b) => JsonVal::Bool(b),
            Json::Num(t) => JsonVal::Num(t@),
            Json::Str(t) => JsonVal::Str(t@),
            Json::Arr(items) => JsonVal::Arr(model_seq(items@)),
            Json::Obj(fields) => JsonVal::Obj(model_members(fields@)),
        }
    }
}

/// The models of a sequence of JSON trees, in order.
pub open spec fn model_seq(items: Seq<Json>) -> Seq<JsonVal>
    decreases items,
{
    if items.len() == 0 {
        Seq::empty()
    } else {
        seq![items[0].model()] + model_seq(items.subrange(1, items.len() as int))
    }
}

/// The models of a sequence of JSON object members, in order.
pub open spec fn model_members(fields: Seq<(String, Json)>) -> Seq<(Seq<char>, JsonVal)>
    decreases fields,
{
    if fields.len() == 0 {
        Seq::empty()
    } else {
        seq![(fields[0].0@, fields[0].1.model())] + model_members(
            fields.subrange(1, fields.len() as int),
        )
    }
}

/// `model_seq` maps the sequence element by element.
pub proof fn lemma_model_seq(items: Seq<Json>)
    ensures
        model_seq(items).len() == items.len(),
        forall|i: int| 0 <= i < items.len() ==> model_seq(items)[i] == items[i].model(),
    decreases items,
{
    if items.len() > 0 {
        lemma_model_seq(items.subrange(1, items.len() as int));
    }
}

/// `model_members` maps the sequence member by member.
pub proof fn lemma_model_members(fields: Seq<(String, Json)>)
    ensures
        model_members(fields).len() == fields.len(),
        forall|i: int|
            0 <= i < fields.len() ==> model_members(fields)[i] == (
            fields[i].0@,
            fields[i].1.model(),
            ),
    decreases fields,
{
    if fields.len() > 0 {
        lemma_model_members(fields.subrange(1, fields.len() as int));
    }
}

/// Position of the first non-whitespace character at or after `i`.
pub open spec fn skip_ws(s: Seq<char>, i: int) -> int
    decreases s.len() - i,
{
    if 0 <= i < s.len() && is_ws(s[i]) {
        skip_ws(s, i + 1)
    } else {
        i
    }
}

/// `skip_ws` stays within the text and never moves backwards.
pub proof fn lemma_skip_ws(s: Seq<char>, i: int)
    requires
        0 <= i <= s.len(),
    ensures
        i <= skip_ws(s, i) <= s.len(),
    decreases s.len() - i,
{
    if 0 <= i < s.len() && is_ws(s[i]) {
        lemma_skip_ws(s, i + 1);
    }
}

/// A decimal digit.
pub open spec fn is_digit(c: char) -> bool {
    '0' <= c && c <= '9'
}

/// Position after the run of decimal digits starting at `i`.
pub open spec fn digits_end(s: Seq<char>, i: int) -> int
    decreases s.len() - i,
{
    if 0 <= i < s.len() && is_digit(s[i]) {
        digits_end(s, i + 1)
    } else {
        i
    }
}

/// `digits_end` stays within the text and never moves backwards.
pub proof fn lemma_digits_end(s: Seq<char>, i: int)
    requires
        0 <= i <= s.len(),
    ensures
        i <= digits_end(s, i) <= s.len(),
    decreases s.len() - i,
{
    if 0 <= i < s.len() && is_digit(s[i]) {
        lemma_digits_end(s, i + 1);
    }
}

/// A hexadecimal digit.
pub open spec fn is_hex(c: char) -> bool {
    is_digit(c) || ('a' <= c && c <= 'f') || ('A' <= c && c <= 'F')
}

/// The numeric value of a hexadecimal digit.
pub open spec fn hex_val(c: char) -> int {
    if is_digit(c) {
        c as u32 - '0' as u32
    } else if 'a' <= c && c <= 'f' {
        c as u32 - 'a' as u32 + 10
    } else {
        c as u32 - 'A' as u32 + 10
    }
}

/// The value of the four hexadecimal digits starting at `i`, if they are
/// there.
pub open spec fn hex4(s: Seq<char>, i: int) -> Option<int> {
    if 0 <= i && i + 4 <= s.len() && is_hex(s[i]) && is_hex(s[i + 1]) && is_hex(s[i + 2]) && is_hex(
        s[i + 3],
    ) {
        Some(
            hex_val(s[i]) * 0x1000 + hex_val(s[i + 1]) * 0x100 + hex_val(s[i + 2]) * 0x10 + hex_val(
                s[i + 3],
            ),
        )
    } else {
        None
    }
}

/// The decoded character of a simple (single-letter) escape sequence.
pub open spec fn simple_escape(c: char) -> Option<char> {
    if c == '"' {
        Some('"')
    } else if c == '\\' {
        Some('\\')
    } else if c == '/' {
        Some('/')
    } else if c == 'b' {
        Some('\u{8}')
    } else if c == 'f' {
        Some('\u{c}')
    } else if c == 'n' {
        Some('\n')
    } else if c == 'r' {
        Some('\r')
    } else if c == 't' {
        Some('\t')
    } else {
        None
    }
}

/// A Unicode scalar value built from a surrogate pair.
pub open spec fn pair_scalar(hi: int, lo: int) -> int {
    0x10000 + (hi - 0xD800) * 0x400 + (lo - 0xDC00)
}

/// Decodes the body of a JSON string. `i` is the position just after the
/// opening quote; the result is the decoded characters and the position just
/// after the closing quote.
pub open spec fn string_body(s: Seq<char>, i: int) -> Option<(Seq<char>, int)>
    decreases s.len() - i,
{
    if !(0 <= i < s.len()) {
        None
    } else if s[i] == '"' {
        Some((Seq::empty(), i + 1))
    } else if s[i] == '\\' {
        if !(i + 1 < s.len()) {
            None
        } else {
            let c = s[i + 1];
            match simple_escape(c) {
                Some(d) => match string_body(s, i + 2) {
                    None => None,
                    Some((t, e)) => Some((seq![d] + t, e)),
                },
                None => {
                    if c == 'u' {
                        match hex4(s, i + 2) {
                            None => None,
                            Some(u) => {
                                if 0xD800 <= u < 0xDC00 {
                                    if i + 7 < s.len() && s[i + 6] == '\\' && s[i + 7] == 'u' {
                                        match hex4(s, i + 8) {
                                            None => None,
                                            Some(u2) => {
                                                if 0xDC00 <= u2 < 0xE000 {
                                                    match string_body(s, i + 12) {
                                                        None => None,
                                                        Some((t, e)) => Some(
                                                            (
                                                                seq![
                                                                    ((pair_scalar(u, u2)) as u32) as char
                                                                ] + t,
                                                                e,
                                                            ),
                                                        ),
                                                    }
                                                } else {
                                                    None
                                                }
                                            },
                                        }
                                    } else {
                                        None
                                    }
                                } else if 0xDC00 <= u < 0xE000 {
                                    None
                                } else {
                                    match string_body(s, i + 6) {
                                        None => None,
                                        Some((t, e)) => Some((seq![(u as u32) as char] + t, e)),
                                    }
                                }
                            },
                        }
                    } else {
                        None
                    }
                },
            }
        }
    } else if (s[i] as u32) < 0x20 {
        None
    } else {
        match string_body(s, i + 1) {
            None => None,
            Some((t, e)) => Some((seq![s[i]] + t, e)),
        }
    }
}

/// Position after the integer digits of a number whose (unsigned) digits
/// start at `i`. A leading zero must stand alone.
pub open spec fn int_end(s: Seq<char>, i: int) -> Option<int> {
    if !(0 <= i < s.len() && is_digit(s[i])) {
        None
    } else if s[i] == '0' {
        Some(i + 1)
    } else {
        Some(digits_end(s, i))
    }
}

/// Position after the optional fraction part starting at `i`.
pub open spec fn frac_end(s: Seq<char>, i: int) -> Option<int> {
    if 0 <= i < s.len() && s[i] == '.' {
        if i + 1 < s.len() && is_digit(s[i + 1]) {
            Some(digits_end(s, i + 1))
        } else {
            None
        }
    } else {
        Some(i)
    }
}

/// Position after the optional exponent part starting at `i`.
pub open spec fn exp_end(s: Seq<char>, i: int) -> Option<int> {
    if 0 <= i < s.len() && (s[i] == 'e' || s[i] == 'E') {
        let j = if i + 1 < s.len() && (s[i + 1] == '+' || s[i + 1] == '-') {
            i + 2
        } else {
            i + 1
        };
        if 0 <= j < s.len() && is_digit(s[j]) {
            Some(digits_end(s, j))
        } else {
            None
        }
    } else {
        Some(i)
    }
}

/// Position after the number literal starting at `i`, if one starts there.
pub open spec fn number_end(s: Seq<char>, i: int) -> Option<int> {
    let a = if 0 <= i < s.len() && s[i] == '-' {
        i + 1
    } else {
        i
    };
    match int_end(s, a) {
        None => None,
        Some(b) => match frac_end(s, b) {
            None => None,
            Some(c) => exp_end(s, c),
        },
    }
}

/// Parses the JSON value starting exactly at `i` (no leading whitespace).
pub open spec fn parse_value(s: Seq<char>, i: int) -> Option<(JsonVal, int)>
    decreases s.len() - i, 0int,
{
    if !(0 <= i < s.len()) {
        None
    } else {
        let c = s[i];
        if c == 'n' {
            if i + 4 <= s.len() && s.subrange(i, i + 4) == "null"@ {
                Some((JsonVal::Null, i + 4))
            } else {
                None
            }
        } else if c == 't' {
            if i + 4 <= s.len() && s.subrange(i, i + 4) == "true"@ {
                Some((JsonVal::Bool(true), i + 4))
            } else {
                None
            }
        } else if c == 'f' {
            if i + 5 <= s.len() && s.subrange(i, i + 5) == "false"@ {
                Some((JsonVal::Bool(false), i + 5))
            } else {
                None
            }
        } else if c == '"' {
            match string_body(s, i + 1) {
                None => None,
                Some((t, e)) => Some((JsonVal::Str(t), e)),
            }
        } else if c == '[' {
            let j = skip_ws(s, i + 1);
            if j < s.len() && s[j] == ']' {
                Some((JsonVal::Arr(Seq::empty()), j + 1))
            } else if i < j && j < s.len() {
                match parse_elems(s, j) {
                    None => None,
                    Some((vs, e)) => Some((JsonVal::Arr(vs), e)),
                }
            } else {
                None
            }
        } else if c == '{' {
            let j = skip_ws(s, i + 1);
            if j < s.len() && s[j] == '}' {
                Some((JsonVal::Obj(Seq::empty()), j + 1))
            } else if i < j && j < s.len() {
                match parse_members(s, j) {
                    None => None,
                    Some((ms, e)) => Some((JsonVal::Obj(ms), e)),
                }
            } else {
                None
            }
        } else if c == '-' || is_digit(c) {
            match number_end(s, i) {
                None => None,
                Some(e) => Some((JsonVal::Num(s.subrange(i, e)), e)),
            }
        } else {
            None
        }
    }
}

/// Parses `value ( ws ',' ws value )* ws ']'` starting at the first value;
/// consumes the closing bracket.
pub open spec fn parse_elems(s: Seq<char>, i: int) -> Option<(Seq<JsonVal>, int)>
    decreases s.len() - i, 1int,
{
    match parse_value(s, i) {
        None => None,
        Some((v, e)) => {
            let j = skip_ws(s, e);
            if j < s.len() && s[j] == ',' {
                let k = skip_ws(s, j + 1);
                if i < k && k < s.len() {
                    match parse_elems(s, k) {
                        None => None,
                        Some((vs, e2)) => Some((seq![v] + vs, e2)),
                    }
                } else {
                    None
                }
            } else if j < s.len() && s[j] == ']' {
                Some((seq![v], j + 1))
            } else {
                None
            }
        },
    }
}

/// Parses `string ws ':' ws value ( ws ',' ws members )? ws '}'` starting at
/// the first key; consumes the closing brace.
pub open spec fn parse_members(s: Seq<char>, i: int) -> Option<(Seq<(Seq<char>, JsonVal)>, int)>
    decreases s.len() - i, 1int,
{
    if !(0 <= i < s.len() && s[i] == '"') {
        None
    } else {
        match string_body(s, i + 1) {
            None => None,
            Some((key, e1)) => {
                let j = skip_ws(s, e1);
                if 0 <= j < s.len() && s[j] == ':' {
                    let k = skip_ws(s, j + 1);
                    if i < k && k < s.len() {
                        match parse_value(s, k) {
                            None => None,
                            Some((v, e2)) => {
                                let j2 = skip_ws(s, e2);
                                if j2 < s.len() && s[j2] == ',' {
                                    let k2 = skip_ws(s, j2 + 1);
                                    if i < k2 && k2 < s.len() {
                                        match parse_members(s, k2) {
                                            None => None,
                                            Some((ms, e3)) => Some((seq![(key, v)] + ms, e3)),
                                        }
                                    } else {
                                        None
                                    }
                                } else if j2 < s.len() && s[j2] == '}' {
                                    Some((seq![(key, v)], j2 + 1))
                                } else {
                                    None
                                }
                            },
                        }
                    } else {
                        None
                    }
                } else {
                    None
                }
            },
        }
    }
}

/// Parses a complete JSON document: one value surrounded by whitespace and
/// nothing else.
pub open spec fn parse_document(s: Seq<char>) -> Option<JsonVal> {
    let i = skip_ws(s, 0);
    match parse_value(s, i) {
        None => None,
        Some((v, e)) => {
            if skip_ws(s, e) == s.len() {
                Some(v)
            } else {
                None
            }
        },
    }
}

/// Appending an element commutes with taking models.
pub proof fn lemma_model_seq_push(s: Seq<Json>, x: Json)
    ensures
        model_seq(s.push(x)) == model_seq(s) + seq![x.model()],
{
    lemma_model_seq(s.push(x));
    lemma_model_seq(s);
    assert forall|j: int| 0 <= j < s.len() + 1 implies model_seq(s.push(x))[j] == (model_seq(s)
        + seq![x.model()])[j] by {
        if j < s.len() {
            assert(s.push(x)[j] == s[j]);
        } else {
            assert(s.push(x)[j] == x);
        }
    }
    assert(model_seq(s.push(x)) =~= model_seq(s) + seq![x.model()]);
}

/// Appending a member commutes with taking models.
pub proof fn lemma_model_members_push(s: Seq<(String, Json)>, x: (String, Json))
    ensures
        model_members(s.push(x)) == model_members(s) + seq![(x.0@, x.1.model())],
{
    lemma_model_members(s.push(x));
    lemma_model_members(s);
    assert forall|j: int| 0 <= j < s.len() + 1 implies model_members(s.push(x))[j] == (
    model_members(s) + seq![(x.0@, x.1.model())])[j] by {
        if j < s.len() {
            assert(s.push(x)[j] == s[j]);
        } else {
            assert(s.push(x)[j] == x);
        }
    }
    assert(model_members(s.push(x)) =~= model_members(s) + seq![(x.0@, x.1.model())]);
}

/// Prepending an element commutes with taking models.
proof fn lemma_model_seq_cons(x: Json, s: Seq<Json>)
    ensures
        model_seq(s.insert(0, x)) == seq![x.model()] + model_seq(s),
{
    let s2 = s.insert(0, x);
    assert(s2.subrange(1, s2.len() as int) =~= s);
    assert(s2[0] == x);
}

/// Prepending a member commutes with taking models.
proof fn lemma_model_members_cons(x: (String, Json), s: Seq<(String, Json)>)
    ensures
        model_members(s.insert(0, x)) == seq![(x.0@, x.1.model())] + model_members(s),
{
    let s2 = s.insert(0, x);
    assert(s2.subrange(1, s2.len() as int) =~= s);
    assert(s2[0] == x);
}

/// Returns the first non-whitespace position at or after `i`.
fn skip_ws_x(s: &Vec<char>, i: usize) -> (r: usize)
    requires
        i <= s@.len(),
    ensures
        r as int == skip_ws(s@, i as int),
        i <= r <= s@.len(),
{
    let n = s.len();
    let mut j: usize = i;
    while j < n && ws_char(s[j])
        invariant
            i <= j <= n,
            n == s@.len(),
            skip_ws(s@, i as int) == skip_ws(s@, j as int),
        decreases n - j,
    {
        j = j + 1;
    }
    j
}

/// Returns whether `c` is a decimal digit.
fn digit_char(c: char) -> (r: bool)
    ensures
        r == is_digit(c),
{
    c >= '0' && c <= '9'
}

/// Returns the position after the digit run starting at `i`.
fn digits_end_x(s: &Vec<char>, i: usize) -> (r: usize)
    requires
        i <= s@.len(),
    ensures
        r as int == digits_end(s@, i as int),
        i <= r <= s@.len(),
{
    let n = s.len();
    let mut j: usize = i;
    while j < n && digit_char(s[j])
        invariant
            i <= j <= n,
            n == s@.len(),
            digits_end(s@, i as int) == digits_end(s@, j as int),
        decreases n - j,
    {
        j = j + 1;
    }
    j
}

/// Returns the value of one hexadecimal digit.
fn hex_digit(c: char) -> (r: Option<u32>)
    ensures
        match r {
            Some(u) => is_hex(c) && u as int == hex_val(c) && u < 16,
            None => !is_hex(c),
        },
{
    if c >= '0' && c <= '9' {
        Some(c as u32 - '0' as u32)
    } else if c >= 'a' && c <= 'f' {
        Some(c as u32 - 'a' as u32 + 10)
    } else if c >= 'A' && c <= 'F' {
        Some(c as u32 - 'A' as u32 + 10)
    } else {
        None
    }
}

/// Returns the value of the four hexadecimal digits starting at `i`.
fn hex4_x(s: &Vec<char>, i: usize) -> (r: Option<u32>)
    requires
        i <= s@.len(),
    ensures
        match r {
            Some(u) => hex4(s@, i as int) == Some(u as int) && u < 0x10000,
            None => hex4(s@, i as int) is None,
        },
{
    let n = s.len();
    if n < 4 || i > n - 4 {
        return None;
    }
    let d0 = match hex_digit(s[i]) {
        Some(u) => u,
        None => {
            return None;
        },
    };
    let d1 = match hex_digit(s[i + 1]) {
        Some(u) => u,
        None => {
            return None;
        },
    };
    let d2 = match hex_digit(s[i + 2]) {
        Some(u) => u,
        None => {
            return None;
        },
    };
    let d3 = match hex_digit(s[i + 3]) {
        Some(u) => u,
        None => {
            return None;
        },
    };
    Some(d0 * 0x1000 + d1 * 0x100 + d2 * 0x10 + d3)
}

/// Returns the decoded character of a simple escape.
fn simple_escape_x(c: char) -> (r: Option<char>)
    ensures
        r == simple_escape(c),
{
    if c == '"' {
        Some('"')
    } else if c == '\\' {
        Some('\\')
    } else if c == '/' {
        Some('/')
    } else if c == 'b' {
        Some('\u{8}')
    } else if c == 'f' {
        Some('\u{c}')
    } else if c == 'n' {
        Some('\n')
    } else if c == 'r' {
        Some('\r')
    } else if c == 't' {
        Some('\t')
    } else {
        None
    }
}

/// Decodes a string body; `i` is just after the opening quote.
fn string_body_x(s: &Vec<char>, i: usize) -> (r: Option<(Vec<char>, usize)>)
    requires
        i <= s@.len(),
    ensures
        match r {
            Some(p) => string_body(s@, i as int) == Some((p.0@, p.1 as int)) && i < p.1 <= s@.len(),
            None => string_body(s@, i as int) is None,
        },
    decreases s@.len() - i,
{
    let n = s.len();
    if i >= n {
        return None;
    }
    let c = s[i];
    if c == '"' {
        let t: Vec<char> = Vec::new();
        proof {
            assert(t@ =~= Seq::<char>::empty());
        }
        return Some((t, i + 1));
    }
    if c == '\\' {
        if i + 1 >= n {
            return None;
        }
        let c2 = s[i + 1];
        match simple_escape_x(c2) {
            Some(d) => {
                match string_body_x(s, i + 2) {
                    None => None,
                    Some((mut t, e)) => {
                        let ghost t0 = t@;
                        t.insert(0, d);
                        proof {
                            assert(t@ =~= seq![d] + t0);
                        }
                        Some((t, e))
                    },
                }
            },
            None => {
                if c2 == 'u' {
                    match hex4_x(s, i + 2) {
                        None => None,
                        Some(u) => {
                            if 0xD800 <= u && u < 0xDC00 {
                                if n - i > 7 && s[i + 6] == '\\' && s[i + 7] == 'u' {
                                    match hex4_x(s, i + 8) {
                                        None => None,
                                        Some(u2) => {
                                            if 0xDC00 <= u2 && u2 < 0xE000 {
                                                let code: u32 = 0x10000 + (u - 0xD800) * 0x400 + (
                                                u2 - 0xDC00);
                                                match char_from_u32(code) {
                                                    None => None,
                                                    Some(ch) => {
                                                        proof {
                                                            vstd::utf8::char_u32_cast(ch, code);
                                                        }
                                                        match string_body_x(s, i + 12) {
                                                            None => None,
                                                            Some((mut t, e)) => {
                                                                let ghost t0 = t@;
                                                                t.insert(0, ch);
                                                                proof {
                                                                    assert(t@ =~= seq![ch] + t0);
                                                                }
                                                                Some((t, e))
                                                            },
                                                        }
                                                    },
                                                }
                                            } else {
                                                None
                                            }
                                        },
                                    }
                                } else {
                                    None
                                }
                            } else if 0xDC00 <= u && u < 0xE000 {
                                None
                            } else {
                                match char_from_u32(u) {
                                    None => None,
                                    Some(ch) => {
                                        proof {
                                            vstd::utf8::char_u32_cast(ch, u);
                                        }
                                        match string_body_x(s, i + 6) {
                                            None => None,
                                            Some((mut t, e)) => {
                                                let ghost t0 = t@;
                                                t.insert(0, ch);
                                                proof {
                                                    assert(t@ =~= seq![ch] + t0);
                                                }
                                                Some((t, e))
                                            },
                                        }
                                    },
                                }
                            }
                        },
                    }
                } else {
                    None
                }
            },
        }
    } else if (c as u32) < 0x20 {
        None
    } else {
        match string_body_x(s, i + 1) {
            None => None,
            Some((mut t, e)) => {
                let ghost t0 = t@;
                t.insert(0, c);
                proof {
                    assert(t@ =~= seq![c] + t0);
                }
                Some((t, e))
            },
        }
    }
}

/// Returns the position after the number literal starting at `i`.
fn number_end_x(s: &Vec<char>, i: usize) -> (r: Option<usize>)
    requires
        i <= s@.len(),
    ensures
        match r {
            Some(e) => number_end(s@, i as int) == Some(e as int) && i < e <= s@.len(),
            None => number_end(s@, i as int) is None,
        },
{
    let n = s.len();
    let a = if i < n && s[i] == '-' {
        i + 1
    } else {
        i
    };
    if !(a < n && digit_char(s[a])) {
        return None;
    }
    let b = if s[a] == '0' {
        a + 1
    } else {
        proof {
            lemma_digits_end(s@, a as int);
            assert(digits_end(s@, a as int) == digits_end(s@, a as int + 1));
            lemma_digits_end(s@, a as int + 1);
        }
        digits_end_x(s, a)
    };
    let c2: usize = if b < n && s[b] == '.' {
        if b + 1 < n && digit_char(s[b + 1]) {
            digits_end_x(s, b + 1)
        } else {
            return None;
        }
    } else {
        b
    };
    let e: usize = if c2 < n && (s[c2] == 'e' || s[c2] == 'E') {
        let jj = if c2 + 1 < n && (s[c2 + 1] == '+' || s[c2 + 1] == '-') {
            c2 + 2
        } else {
            c2 + 1
        };
        if jj < n && digit_char(s[jj]) {
            digits_end_x(s, jj)
        } else {
            return None;
        }
    } else {
        c2
    };
    Some(e)
}

/// Parses the value starting exactly at `i`.
fn p_value(s: &Vec<char>, i: usize) -> (r: Option<(Json, usize)>)
    requires
        i <= s@.len(),
    ensures
        match r {
            Some(p) => parse_value(s@, i as int) == Some((p.0.model(), p.1 as int)) && i < p.1
                <= s@.len(),
            None => parse_value(s@, i as int) is None,
        },
    decreases s@.len() - i, 0int,
{
    let n = s.len();
    if i >= n {
        return None;
    }
    let c = s[i];
    if c == 'n' {
        proof {
            reveal_strlit("null");
        }
        if n - i >= 4 && s[i + 1] == 'u' && s[i + 2] == 'l' && s[i + 3] == 'l' {
            proof {
                assert(s@.subrange(i as int, i as int + 4) =~= "null"@);
            }
            Some((Json::Null, i + 4))
        } else {
            proof {
                if i + 4 <= n && s@.subrange(i as int, i as int + 4) == "null"@ {
                    assert(s@[i as int + 1] == "null"@[1]);
                    assert(s@[i as int + 2] == "null"@[2]);
                    assert(s@[i as int + 3] == "null"@[3]);
                }
            }
            None
        }
    } else if c == 't' {
        proof {
            reveal_strlit("true");
        }
        if n - i >= 4 && s[i + 1] == 'r' && s[i + 2] == 'u' && s[i + 3] == 'e' {
            proof {
                assert(s@.subrange(i as int, i as int + 4) =~= "true"@);
            }
            Some((Json::Bool(true), i + 4))
        } else {
            proof {
                if i + 4 <= n && s@.subrange(i as int, i as int + 4) == "true"@ {
                    assert(s@[i as int + 1] == "true"@[1]);
                    assert(s@[i as int + 2] == "true"@[2]);
                    assert(s@[i as int + 3] == "true"@[3]);
                }
            }
            None
        }
    } else if c == 'f' {
        proof {
            reveal_strlit("false");
        }
        if n - i >= 5 && s[i + 1] == 'a' && s[i + 2] == 'l' && s[i + 3] == 's' && s[i + 4] == 'e' {
            proof {
                assert(s@.subrange(i as int, i as int + 5) =~= "false"@);
            }
            Some((Json::Bool(false), i + 5))
        } else {
            proof {
                if i + 5 <= n && s@.subrange(i as int, i as int + 5) == "false"@ {
                    assert(s@[i as int + 1] == "false"@[1]);
                    assert(s@[i as int + 2] == "false"@[2]);
                    assert(s@[i as int + 3] == "false"@[3]);
                    assert(s@[i as int + 4] == "false"@[4]);
                }
            }
            None
        }
    } else if c == '"' {
        match string_body_x(s, i + 1) {
            None => None,
            Some((t, e)) => Some((Json::Str(chars_to_string(&t)), e)),
        }
    } else if c == '[' {
        let j = skip_ws_x(s, i + 1);
        if j < n && s[j] == ']' {
            let items: Vec<Json> = Vec::new();
            proof {
                assert(items@.len() == 0);
                assert(model_seq(items@) =~= Seq::<JsonVal>::empty());
            }
            Some((Json::Arr(items), j + 1))
        } else if j < n {
            match p_elems(s, j) {
                None => None,
                Some((vs, e)) => Some((Json::Arr(vs), e)),
            }
        } else {
            None
        }
    } else if c == '{' {
        let j = skip_ws_x(s, i + 1);
        if j < n && s[j] == '}' {
            let fields: Vec<(String, Json)> = Vec::new();
            proof {
                assert(fields@.len() == 0);
                assert(model_members(fields@) =~= Seq::<(Seq<char>, JsonVal)>::empty());
            }
            Some((Json::Obj(fields), j + 1))
        } else if j < n {
            match p_members(s, j) {
                None => None,
                Some((ms, e)) => Some((Json::Obj(ms), e)),
            }
        } else {
            None
        }
    } else if c == '-' || digit_char(c) {
        match number_end_x(s, i) {
            None => None,
            Some(e) => Some((Json::Num(chars_to_string(&copy_range(s, i, e))), e)),
        }
    } else {
        None
    }
}

/// Parses the elements of an array, starting at the first value; consumes
/// the closing bracket.
fn p_elems(s: &Vec<char>, i: usize) -> (r: Option<(Vec<Json>, usize)>)
    requires
        i <= s@.len(),
    ensures
        match r {
            Some(p) => parse_elems(s@, i as int) == Some((model_seq(p.0@), p.1 as int)) && i < p.1
                <= s@.len(),
            None => parse_elems(s@, i as int) is None,
        },
    decreases s@.len() - i, 1int,
{
    let n = s.len();
    match p_value(s, i) {
        None => None,
        Some((v, e)) => {
            let j = skip_ws_x(s, e);
            if j < n && s[j] == ',' {
                let k = skip_ws_x(s, j + 1);
                if i < k && k < n {
                    match p_elems(s, k) {
                        None => None,
                        Some((mut vs, e2)) => {
                            let ghost vs0 = vs@;
                            proof {
                                lemma_model_seq_cons(v, vs0);
                            }
                            vs.insert(0, v);
                            Some((vs, e2))
                        },
                    }
                } else {
                    None
                }
            } else if j < n && s[j] == ']' {
                let mut vs: Vec<Json> = Vec::new();
                vs.push(v);
                proof {
                    assert(vs@.subrange(1, 1) =~= Seq::<Json>::empty());
                    assert(model_seq(vs@.subrange(1, 1)) =~= Seq::<JsonVal>::empty());
                    assert(model_seq(vs@) =~= seq![v.model()]);
                }
                Some((vs, j + 1))
            } else {
                None
            }
        },
    }
}

/// Parses the members of an object, starting at the first key; consumes the
/// closing brace.
fn p_members(s: &Vec<char>, i: usize) -> (r: Option<(Vec<(String, Json)>, usize)>)
    requires
        i <= s@.len(),
    ensures
        match r {
            Some(p) => parse_members(s@, i as int) == Some((model_members(p.0@), p.1 as int)) && i
                < p.1 <= s@.len(),
            None => parse_members(s@, i as int) is None,
        },
    decreases s@.len() - i, 1int,
{
    let n = s.len();
    if !(i < n && s[i] == '"') {
        return None;
    }
    match string_body_x(s, i + 1) {
        None => None,
        Some((key_chars, e1)) => {
            let key = chars_to_string(&key_chars);
            let j = skip_ws_x(s, e1);
            if j < n && s[j] == ':' {
                let k = skip_ws_x(s, j + 1);
                if i < k && k < n {
                    match p_value(s, k) {
                        None => None,
                        Some((v, e2)) => {
                            let j2 = skip_ws_x(s, e2);
                            if j2 < n && s[j2] == ',' {
                                let k2 = skip_ws_x(s, j2 + 1);
                                if i < k2 && k2 < n {
                                    match p_members(s, k2) {
                                        None => None,
                                        Some((mut ms, e3)) => {
                                            let ghost ms0 = ms@;
                                            proof {
                                                lemma_model_members_cons((key, v), ms0);
                                            }
                                            ms.insert(0, (key, v));
                                            Some((ms, e3))
                                        },
                                    }
                                } else {
                                    None
                                }
                            } else if j2 < n && s[j2] == '}' {
                                let mut ms: Vec<(String, Json)> = Vec::new();
                                ms.push((key, v));
                                proof {
                                    assert(ms@.subrange(1, 1) =~= Seq::<(String, Json)>::empty());
                                    assert(model_members(ms@.subrange(1, 1)) =~= Seq::<
                                        (Seq<char>, JsonVal),
                                    >::empty());
                                    assert(model_members(ms@) =~= seq![(key@, v.model())]);
                                }
                                Some((ms, j2 + 1))
                            } else {
                                None
                            }
                        },
                    }
                } else {
                    None
                }
            } else {
                None
            }
        },
    }
}

/// The escaped serialized form of one string character.
pub open spec fn esc_char(c: char) -> Seq<char> {
    if c == '"' {
        seq!['\\', '"']
    } else if c == '\\' {
        seq!['\\', '\\']
    } else if (c as u32) < 0x20 {
        seq![
            '\\',
            'u',
            '0',
            '0',
            hex_digit_char((c as u32) as int / 16),
            hex_digit_char((c as u32) as int % 16),
        ]
    } else {
        seq![c]
    }
}

/// The lower-case hexadecimal digit for a value below 16.
pub open spec fn hex_digit_char(v: int) -> char {
    if v < 10 {
        (('0' as u32 + v) as u32) as char
    } else {
        (('a' as u32 + v - 10) as u32) as char
    }
}

/// The serialized body of a JSON string (without the quotes).
pub open spec fn ser_str(t: Seq<char>) -> Seq<char>
    decreases t,
{
    if t.len() == 0 {
        Seq::empty()
    } else {
        esc_char(t[0]) + ser_str(t.subrange(1, t.len() as int))
    }
}

/// The serialized text of a JSON value, with no whitespace between tokens.
pub open spec fn ser(v: JsonVal) -> Seq<char>
    decreases v,
{
    match v {
        JsonVal::Null => "null"@,
        JsonVal::Bool(b) => if b {
            "true"@
        } else {
            "false"@
        },
        JsonVal::Num(t) => t,
        JsonVal::Str(t) => seq!['"'] + ser_str(t) + seq!['"'],
        JsonVal::Arr(vs) => seq!['['] + ser_elems(vs) + seq![']'],
        JsonVal::Obj(ms) => seq!['{'] + ser_members(ms) + seq!['}'],
    }
}

/// The serialized elements of an array, comma separated.
pub open spec fn ser_elems(vs: Seq<JsonVal>) -> Seq<char>
    decreases vs,
{
    if vs.len() == 0 {
        Seq::empty()
    } else if vs.len() == 1 {
        ser(vs[0])
    } else {
        ser(vs[0]) + seq![','] + ser_elems(vs.subrange(1, vs.len() as int))
    }
}

/// The serialized members of an object, comma separated.
pub open spec fn ser_members(ms: Seq<(Seq<char>, JsonVal)>) -> Seq<char>
    decreases ms,
{
    if ms.len() == 0 {
        Seq::empty()
    } else {
        let head = seq!['"'] + ser_str(ms[0].0) + seq!['"'] + seq![':'] + ser(ms[0].1);
        if ms.len() == 1 {
            head
        } else {
            head + seq![','] + ser_members(ms.subrange(1, ms.len() as int))
        }
    }
}

/// Appends the escaped form of the characters of `t` to `out`.
fn push_escaped(t: &Vec<char>, out: &mut Vec<char>)
    ensures
        final(out)@ == old(out)@ + ser_str(t@),
{
    let n = t.len();
    proof {
        assert(t@.subrange(0, n as int) =~= t@);
    }
    let mut i: usize = 0;
    while i < n
        invariant
            i <= n,
            n == t@.len(),
            out@ + ser_str(t@.subrange(i as int, n as int)) == old(out)@ + ser_str(t@),
        decreases n - i,
    {
        let ghost rem0 = t@.subrange(i as int, n as int);
        let c = t[i];
        proof {
            assert(rem0[0] == c);
            assert(rem0.subrange(1, rem0.len() as int) =~= t@.subrange(i as int + 1, n as int));
            assert(ser_str(rem0) == esc_char(c) + ser_str(t@.subrange(i as int + 1, n as int)));
        }
        let ghost out_before = out@;
        if c == '"' {
            out.push('\\');
            out.push('"');
        } else if c == '\\' {
            out.push('\\');
            out.push('\\');
        } else if (c as u32) < 0x20 {
            out.push('\\');
            out.push('u');
            out.push('0');
            out.push('0');
            let v = c as u32;
            let hi = v / 16;
            let lo = v % 16;
            let hc: char = if hi < 10 {
                (('0' as u32 + hi) as u8) as char
            } else {
                (('a' as u32 + hi - 10) as u8) as char
            };
            let lc: char = if lo < 10 {
                (('0' as u32 + lo) as u8) as char
            } else {
                (('a' as u32 + lo - 10) as u8) as char
            };
            out.push(hc);
            out.push(lc);
        } else {
            out.push(c);
        }
        proof {
            assert(out@ =~= out_before + esc_char(c));
        }
        i = i + 1;
        proof {
            assert(out@ + ser_str(t@.subrange(i as int, n as int)) =~= old(out)@ + ser_str(t@));
        }
    }
    proof {
        assert(t@.subrange(n as int, n as int) =~= Seq::<char>::empty());
        assert(ser_str(t@.subrange(n as int, n as int)) =~= Seq::<char>::empty());
        assert(out@ =~= out@ + Seq::<char>::empty());
    }
}

/// Appends the serialized form of a decoded string (quotes included).
fn push_quoted(t: &str, out: &mut Vec<char>)
    ensures
        final(out)@ == old(out)@ + seq!['"'] + ser_str(t@) + seq!['"'],
{
    let cs = crate::text::str_chars(t);
    out.push('"');
    push_escaped(&cs, out);
    out.push('"');
    proof {
        assert(out@ =~= old(out)@ + seq!['"'] + ser_str(t@) + seq!['"']);
    }
}

/// Appends the serialized text of `v` to `out`.
fn ser_push(v: &Json, out: &mut Vec<char>)
    ensures
        final(out)@ == old(out)@ + ser(v.model()),
    decreases v, 0int,
{
    match v {
        Json::Null => {
            out.push('n');
            out.push('u');
            out.push('l');
            out.push('l');
            proof {
                reveal_strlit("null");
                assert(out@ =~= old(out)@ + "null"@);
            }
        },
        Json::Bool(b) => {
            if *b {
                out.push('t');
                out.push('r');
                out.push('u');
                out.push('e');
                proof {
                    reveal_strlit("true");
                    assert(out@ =~= old(out)@ + "true"@);
                }
            } else {
                out.push('f');
                out.push('a');
                out.push('l');
                out.push('s');
                out.push('e');
                proof {
                    reveal_strlit("false");
                    assert(out@ =~= old(out)@ + "false"@);
                }
            }
        },
        Json::Num(t) => {
            let cs = crate::text::str_chars(t.as_str());
            let mut k: usize = 0;
            let n = cs.len();
            while k < n
                invariant
                    k <= n,
                    n == cs@.len(),
                    cs@ == t@,
                    out@ == old(out)@ + t@.subrange(0, k as int),
                decreases n - k,
            {
                out.push(cs[k]);
                k = k + 1;
                proof {
                    assert(out@ =~= old(out)@ + t@.subrange(0, k as int));
                }
            }
            proof {
                assert(t@.subrange(0, t@.len() as int) =~= t@);
            }
        },
        Json::Str(t) => {
            push_quoted(t.as_str(), out);
        },
        Json::Arr(items) => {
            out.push('[');
            let ghost opened = out@;
            ser_push_elems(items, 0, out);
            out.push(']');
            proof {
                assert(items@.subrange(0, items@.len() as int) =~= items@);
                assert(out@ =~= old(out)@ + (seq!['['] + ser_elems(model_seq(items@)) + seq![
                    ']',
                ]));
            }
        },
        Json::Obj(fields) => {
            out.push('{');
            let ghost opened = out@;
            ser_push_members(fields, 0, out);
            out.push('}');
            proof {
                assert(fields@.subrange(0, fields@.len() as int) =~= fields@);
                assert(out@ =~= old(out)@ + (seq!['{'] + ser_members(model_members(fields@))
                    + seq!['}']));
            }
        },
    }
}

/// Appends the serialized elements of `items` from `idx` on, comma
/// separated.
fn ser_push_elems(items: &Vec<Json>, idx: usize, out: &mut Vec<char>)
    requires
        idx <= items@.len(),
    ensures
        final(out)@ == old(out)@ + ser_elems(
            model_seq(items@.subrange(idx as int, items@.len() as int)),
        ),
    decreases items, items@.len() - idx + 1,
{
    let ghost rest = items@.subrange(idx as int, items@.len() as int);
    let n = items.len();
    if idx >= n {
        proof {
            assert(rest.len() == 0);
            assert(out@ =~= out@ + ser_elems(model_seq(rest)));
        }
        return ;
    }
    proof {
        lemma_model_seq(rest);
        assert(rest[0] == items@[idx as int]);
    }
    ser_push(&items[idx], out);
    if idx + 1 < n {
        out.push(',');
        ser_push_elems(items, idx + 1, out);
        proof {
            let tail = items@.subrange(idx as int + 1, items@.len() as int);
            assert(model_seq(rest).subrange(1, model_seq(rest).len() as int) =~= model_seq(tail))
                by {
                lemma_model_seq(rest);
                lemma_model_seq(tail);
                assert forall|j: int| 0 <= j < tail.len() implies model_seq(rest).subrange(
                    1,
                    model_seq(rest).len() as int,
                )[j] == model_seq(tail)[j] by {
                    assert(rest[j + 1] == tail[j]);
                }
            }
            assert(model_seq(rest).len() > 1);
            assert(ser_elems(model_seq(rest)) == ser(model_seq(rest)[0]) + seq![','] + ser_elems(
                model_seq(rest).subrange(1, model_seq(rest).len() as int),
            ));
            assert(out@ =~= old(out)@ + ser_elems(model_seq(rest)));
        }
    } else {
        proof {
            assert(model_seq(rest).len() == 1);
            assert(ser_elems(model_seq(rest)) == ser(model_seq(rest)[0]));
            assert(out@ =~= old(out)@ + ser_elems(model_seq(rest)));
        }
    }
}

/// Appends the serialized members of `fields` from `idx` on, comma
/// separated.
fn ser_push_members(fields: &Vec<(String, Json)>, idx: usize, out: &mut Vec<char>)
    requires
        idx <= fields@.len(),
    ensures
        final(out)@ == old(out)@ + ser_members(
            model_members(fields@.subrange(idx as int, fields@.len() as int)),
        ),
    decreases fields, fields@.len() - idx + 1,
{
    let ghost rest = fields@.subrange(idx as int, fields@.len() as int);
    let n = fields.len();
    if idx >= n {
        proof {
            assert(rest.len() == 0);
            assert(out@ =~= out@ + ser_members(model_members(rest)));
        }
        return ;
    }
    proof {
        lemma_model_members(rest);
        assert(rest[0] == fields@[idx as int]);
    }
    push_quoted(fields[idx].0.as_str(), out);
    out.push(':');
    ser_push(&fields[idx].1, out);
    let ghost head_done = out@;
    proof {
        assert(head_done =~= old(out)@ + (seq!['"'] + ser_str(model_members(rest)[0].0) + seq!['"']
            + seq![':'] + ser(model_members(rest)[0].1)));
    }
    if idx + 1 < n {
        out.push(',');
        ser_push_members(fields, idx + 1, out);
        proof {
            let tail = fields@.subrange(idx as int + 1, fields@.len() as int);
            assert(model_members(rest).subrange(1, model_members(rest).len() as int)
                =~= model_members(tail)) by {
                lemma_model_members(rest);
                lemma_model_members(tail);
                assert forall|j: int| 0 <= j < tail.len() implies model_members(rest).subrange(
                    1,
                    model_members(rest).len() as int,
                )[j] == model_members(tail)[j] by {
                    assert(rest[j + 1] == tail[j]);
                }
            }
            assert(model_members(rest).len() > 1);
            assert(out@ =~= old(out)@ + ser_members(model_members(rest)));
        }
    } else {
        proof {
            assert(model_members(rest).len() == 1);
            assert(out@ =~= old(out)@ + ser_members(model_members(rest)));
        }
    }
}

impl Json {
    /// Returns the serialized text of this value.
    pub fn to_text(&self) -> (r: String)
        ensures
            r@ == ser(self.model()),
    {
        let mut out: Vec<char> = Vec::new();
        ser_push(self, &mut out);
        chars_to_string(&out)
    }
}

/// Parses a complete JSON document from `s`.
pub fn parse_chars(s: &Vec<char>) -> (r: Option<Json>)
    ensures
        match r {
            Some(v) => parse_document(s@) == Some(v.model()),
            None => parse_document(s@) is None,
        },
{
    let i = skip_ws_x(s, 0);
    match p_value(s, i) {
        None => None,
        Some((v, e)) => {
            let j = skip_ws_x(s, e);
            if j == s.len() {
                Some(v)
            } else {
                None
            }
        },
    }
}

} // verus!
