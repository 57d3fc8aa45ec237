//! The wire frames of the subscription transport.
//!
//! Inbound: a subscribe message is a text frame whose payload is a JSON
//! object with a required `query` string, an optional `operationName` string
//! and an optional `variables` object. The grammar the library accepts is
//! written down here as spec functions (`parse_json_spec`,
//! `parse_request_spec`), and the executable parser returns exactly what the
//! grammar says, so a malformed frame is recognised as such and nothing else.
//!
//! Outbound: an execution result is serialised as `{"data": ...}` on success
//! or `{"errors": [...]}` on an in-band error; the exact text is given by
//! `result_json`.

use vstd::prelude::*;
use vstd::string::StrSliceExecFns;
use vstd::string::StringExecFns;

use crate::executor::{ExecutionResult, ExecutionResultView};
use crate::models::{Episode, Human, HumanView};

verus! {

// ---------------------------------------------------------------------------
// JSON values
// ---------------------------------------------------------------------------

/// A parsed JSON value. Numbers keep their raw lexeme: the transport never
/// computes with them, and this keeps the value exact.
pub enum JsonValue {
    Null,
    Bool(bool),
    Num(String),
    Str(String),
    Arr(Vec<JsonValue>),
    Obj(Vec<(String, JsonValue)>),
}

/// The mathematical value of a `JsonValue`.
pub enum JsonView {
    Null,
    Bool(bool),
    Num(Seq<char>),
    Str(Seq<char>),
    Arr(Seq<JsonView>),
    Obj(Seq<(Seq<char>, JsonView)>),
}

/// The view of one JSON value.
pub open spec fn jv(j: JsonValue) -> JsonView
    decreases j,
{
    match j {
        JsonValue::Null => JsonView::Null,
        JsonValue::Bool(b) => JsonView::Bool(b),
        JsonValue::Num(s) => JsonView::Num(s@),
        JsonValue::Str(s) => JsonView::Str(s@),
        JsonValue::Arr(items) => JsonView::Arr(jv_seq(items@)),
        JsonValue::Obj(members) => JsonView::Obj(jv_members(members@)),
    }
}

/// The views of a sequence of JSON values.
pub open spec fn jv_seq(items: Seq<JsonValue>) -> Seq<JsonView>
    decreases items,
{
    if items.len() == 0 {
        Seq::empty()
    } else {
        jv_seq(items.drop_last()).push(jv(items.last()))
    }
}

/// The views of a sequence of JSON object members.
pub open spec fn jv_members(members: Seq<(String, JsonValue)>) -> Seq<(Seq<char>, JsonView)>
    decreases members,
{
    if members.len() == 0 {
        Seq::empty()
    } else {
        jv_members(members.drop_last()).push((members.last().0@, jv(members.last().1)))
    }
}

impl View for JsonValue {
    type V = JsonView;

    open spec fn view(&self) -> JsonView {
        jv(*self)
    }
}

// ---------------------------------------------------------------------------
// The grammar, as spec functions
// ---------------------------------------------------------------------------

/// JSON whitespace.
pub open spec fn is_ws(c: char) -> bool {
    c == ' ' || c == '\t' || c == '\n' || c == '\r'
}

/// A decimal digit.
pub open spec fn is_digit(c: char) -> bool {
    '0' <= c && c <= '9'
}

/// The first position at or after `i` that does not hold whitespace.
pub open spec fn skip_ws(s: Seq<char>, i: int) -> int
    decreases s.len() - i,
{
    if 0 <= i < s.len() && is_ws(s[i]) {
        skip_ws(s, i + 1)
    } else {
        i
    }
}

/// The first position at or after `i` that does not hold a digit.
pub open spec fn scan_digits(s: Seq<char>, i: int) -> int
    decreases s.len() - i,
{
    if 0 <= i < s.len() && is_digit(s[i]) {
        scan_digits(s, i + 1)
    } else {
        i
    }
}

/// Whether `lit` occurs in `s` starting at `i`.
pub open spec fn matches_at(s: Seq<char>, i: int, lit: Seq<char>) -> bool {
    0 <= i && i + lit.len() <= s.len() && s.subrange(i, i + lit.len()) == lit
}

/// What a backslash escape denotes, if it is one the grammar accepts.
pub open spec fn unescape(c: char) -> Option<char> {
    if c == '"' {
        Some('"')
    } else if c == '\\' {
        Some('\\')
    } else if c == '/' {
        Some('/')
    } else if c == 'n' {
        Some('\n')
    } else if c == 't' {
        Some('\t')
    } else if c == 'r' {
        Some('\r')
    } else if c == 'b' {
        Some('\u{0008}')
    } else if c == 'f' {
        Some('\u{000C}')
    } else {
        None
    }
}

/// The body of a string literal, entered just after the opening quote:
/// the decoded characters and the position after the closing quote.
/// Control characters must be escaped; the escapes are those of `unescape`.
pub open spec fn parse_string_body(s: Seq<char>, i: int, fuel: nat) -> Option<(Seq<char>, int)>
    decreases fuel,
{
    if fuel == 0 || !(0 <= i < s.len()) {
        None
    } else if s[i] == '"' {
        Some((Seq::empty(), i + 1))
    } else if s[i] == '\\' {
        if i + 1 < s.len() && unescape(s[i + 1]) is Some {
            match parse_string_body(s, i + 2, (fuel - 1) as nat) {
                Some((rest, j)) => Some((seq![unescape(s[i + 1])->0] + rest, j)),
                None => None,
            }
        } else {
            None
        }
    } else if (s[i] as u32) < 0x20 {
        None
    } else {
        match parse_string_body(s, i + 1, (fuel - 1) as nat) {
            Some((rest, j)) => Some((seq![s[i]] + rest, j)),
            None => None,
        }
    }
}

/// The end of an optional fraction part starting at `k`.
pub open spec fn frac_end(s: Seq<char>, k: int) -> int {
    if 0 <= k < s.len() && s[k] == '.' {
        let d = scan_digits(s, k + 1);
        if d == k + 1 {
            k
        } else {
            d
        }
    } else {
        k
    }
}

/// The end of an optional exponent part starting at `k`.
pub open spec fn exp_end(s: Seq<char>, k: int) -> int {
    if 0 <= k < s.len() && (s[k] == 'e' || s[k] == 'E') {
        let m = if k + 1 < s.len() && (s[k + 1] == '+' || s[k + 1] == '-') {
            k + 2
        } else {
            k + 1
        };
        let d = scan_digits(s, m);
        if d == m {
            k
        } else {
            d
        }
    } else {
        k
    }
}

/// The end of a number lexeme starting at `i`, if one starts there:
/// an optional minus sign, digits, an optional fraction, an optional
/// exponent.
pub open spec fn parse_number_end(s: Seq<char>, i: int) -> Option<int> {
    let j = if 0 <= i < s.len() && s[i] == '-' {
        i + 1
    } else {
        i
    };
    let k = scan_digits(s, j);
    if k == j {
        None
    } else {
        Some(exp_end(s, frac_end(s, k)))
    }
}

/// One JSON value starting at `i`: the value and the position just after it.
/// `fuel` bounds the recursion; the top level (`parse_json_spec`) supplies
/// more than any input could use.
pub open spec fn parse_value(s: Seq<char>, i: int, fuel: nat) -> Option<(JsonView, int)>
    decreases fuel,
{
    if fuel == 0 || !(0 <= i < s.len()) {
        None
    } else if s[i] == 'n' {
        if matches_at(s, i, "null"@) {
            Some((JsonView::Null, i + 4))
        } else {
            None
        }
    } else if s[i] == 't' {
        if matches_at(s, i, "true"@) {
            Some((JsonView::Bool(true), i + 4))
        } else {
            None
        }
    } else if s[i] == 'f' {
        if matches_at(s, i, "false"@) {
            Some((JsonView::Bool(false), i + 5))
        } else {
            None
        }
    } else if s[i] == '"' {
        match parse_string_body(s, i + 1, (fuel - 1) as nat) {
            Some((v, j)) => Some((JsonView::Str(v), j)),
            None => None,
        }
    } else if s[i] == '[' {
        let j = skip_ws(s, i + 1);
        if j < s.len() && s[j] == ']' {
            Some((JsonView::Arr(Seq::empty()), j + 1))
        } else {
            match parse_array_items(s, j, (fuel - 1) as nat) {
                Some((items, j2)) => Some((JsonView::Arr(items), j2)),
                None => None,
            }
        }
    } else if s[i] == '{' {
        let j = skip_ws(s, i + 1);
        if j < s.len() && s[j] == '}' {
            Some((JsonView::Obj(Seq::empty()), j + 1))
        } else {
            match parse_obj_items(s, j, (fuel - 1) as nat) {
                Some((members, j2)) => Some((JsonView::Obj(members), j2)),
                None => None,
            }
        }
    } else {
        match parse_number_end(s, i) {
            Some(j) => Some((JsonView::Num(s.subrange(i, j)), j)),
            None => None,
        }
    }
}

/// One or more comma-separated values followed by `]`, starting at the first
/// value.
pub open spec fn parse_array_items(s: Seq<char>, i: int, fuel: nat) -> Option<
    (Seq<JsonView>, int),
>
    decreases fuel,
{
    if fuel == 0 {
        None
    } else {
        match parse_value(s, i, (fuel - 1) as nat) {
            Some((v, j)) => {
                let k = skip_ws(s, j);
                if k < s.len() && s[k] == ',' {
                    match parse_array_items(s, skip_ws(s, k + 1), (fuel - 1) as nat) {
                        Some((rest, j2)) => Some((seq![v] + rest, j2)),
                        None => None,
                    }
                } else if k < s.len() && s[k] == ']' {
                    Some((seq![v], k + 1))
                } else {
                    None
                }
            },
            None => None,
        }
    }
}

/// One or more comma-separated `"key": value` members followed by `}`,
/// starting at the first key's opening quote.
pub open spec fn parse_obj_items(s: Seq<char>, i: int, fuel: nat) -> Option<
    (Seq<(Seq<char>, JsonView)>, int),
>
    decreases fuel,
{
    if fuel == 0 || !(0 <= i < s.len() && s[i] == '"') {
        None
    } else {
        match parse_string_body(s, i + 1, (fuel - 1) as nat) {
            Some((key, j)) => {
                let k = skip_ws(s, j);
                if k < s.len() && s[k] == ':' {
                    match parse_value(s, skip_ws(s, k + 1), (fuel - 1) as nat) {
                        Some((v, j2)) => {
                            let k3 = skip_ws(s, j2);
                            if k3 < s.len() && s[k3] == ',' {
                                match parse_obj_items(s, skip_ws(s, k3 + 1), (fuel - 1) as nat) {
                                    Some((rest, j3)) => Some((seq![(key, v)] + rest, j3)),
                                    None => None,
                                }
                            } else if k3 < s.len() && s[k3] == '}' {
                                Some((seq![(key, v)], k3 + 1))
                            } else {
                                None
                            }
                        },
                        None => None,
                    }
                } else {
                    None
                }
            },
            None => None,
        }
    }
}

/// The recursion budget the top level grants: generous enough that the
/// grammar, which consumes at least one character for every two steps,
/// can never run out on the input.
pub open spec fn json_fuel(s: Seq<char>) -> nat {
    (4 * s.len() + 16) as nat
}

/// A whole frame payload: optional whitespace, one JSON value, optional
/// whitespace, end of input.
pub open spec fn parse_json_spec(s: Seq<char>) -> Option<JsonView> {
    match parse_value(s, skip_ws(s, 0), json_fuel(s)) {
        Some((v, j)) => {
            if skip_ws(s, j) == s.len() {
                Some(v)
            } else {
                None
            }
        },
        None => None,
    }
}


// ---------------------------------------------------------------------------
// The executable parser
// ---------------------------------------------------------------------------

/// Relies on String::push: appends one character to the end of the string.
#[verifier::external_body]
fn push_char(s: &mut String, c: char)
    ensures
        final(s)@ == old(s)@.push(c),
{
    s.push(c)
}

fn is_ws_exec(c: char) -> (r: bool)
    ensures
        r == is_ws(c),
{
    c == ' ' || c == '\t' || c == '\n' || c == '\r'
}

fn is_digit_exec(c: char) -> (r: bool)
    ensures
        r == is_digit(c),
{
    '0' <= c && c <= '9'
}

fn skip_ws_exec(s: &str, i: usize) -> (j: usize)
    requires
        i <= s@.len(),
    ensures
        j as int == skip_ws(s@, i as int),
        i <= j <= s@.len(),
{
    let len = s.unicode_len();
    let mut j: usize = i;
    let mut done: bool = false;
    while j < len && !done
        invariant
            i <= j <= len,
            len == s@.len(),
            !done ==> skip_ws(s@, i as int) == skip_ws(s@, j as int),
            done ==> skip_ws(s@, i as int) == j as int,
        decreases len - j + if done {
            0int
        } else {
            1int
        },
    {
        let c = s.get_char(j);
        if is_ws_exec(c) {
            assert(skip_ws(s@, j as int) == skip_ws(s@, j + 1 as int));
            j = j + 1;
        } else {
            assert(skip_ws(s@, j as int) == j as int);
            done = true;
        }
    }
    assert(done || j == len);
    assert(j == len ==> skip_ws(s@, j as int) == j as int);
    j
}

fn scan_digits_exec(s: &str, i: usize) -> (j: usize)
    requires
        i <= s@.len(),
    ensures
        j as int == scan_digits(s@, i as int),
        i <= j <= s@.len(),
{
    let len = s.unicode_len();
    let mut j: usize = i;
    let mut done: bool = false;
    while j < len && !done
        invariant
            i <= j <= len,
            len == s@.len(),
            !done ==> scan_digits(s@, i as int) == scan_digits(s@, j as int),
            done ==> scan_digits(s@, i as int) == j as int,
        decreases len - j + if done {
            0int
        } else {
            1int
        },
    {
        let c = s.get_char(j);
        if is_digit_exec(c) {
            assert(scan_digits(s@, j as int) == scan_digits(s@, j + 1 as int));
            j = j + 1;
        } else {
            assert(scan_digits(s@, j as int) == j as int);
            done = true;
        }
    }
    assert(done || j == len);
    assert(j == len ==> scan_digits(s@, j as int) == j as int);
    j
}

fn matches_at_exec(s: &str, i: usize, lit: &str) -> (r: bool)
    requires
        i <= s@.len(),
    ensures
        r == matches_at(s@, i as int, lit@),
{
    let n = lit.unicode_len();
    let len = s.unicode_len();
    if len - i < n {
        return false;
    }
    let mut j: usize = 0;
    while j < n
        invariant
            j <= n,
            n == lit@.len(),
            len == s@.len(),
            i + n <= len,
            forall|t: int| 0 <= t < j ==> s@[i + t] == lit@[t],
        decreases n - j,
    {
        let a = s.get_char(i + j);
        let b = lit.get_char(j);
        if a != b {
            assert(!matches_at(s@, i as int, lit@)) by {
                if matches_at(s@, i as int, lit@) {
                    assert(s@.subrange(i as int, i + lit@.len())[j as int] == s@[i + j]);
                }
            }
            return false;
        }
        j = j + 1;
    }
    assert(s@.subrange(i as int, i + lit@.len()) =~= lit@);
    true
}

fn unescape_exec(c: char) -> (r: Option<char>)
    ensures
        r == unescape(c),
{
    if c == '"' {
        Some('"')
    } else if c == '\\' {
        Some('\\')
    } else if c == '/' {
        Some('/')
    } else if c == 'n' {
        Some('\n')
    } else if c == 't' {
        Some('\t')
    } else if c == 'r' {
        Some('\r')
    } else if c == 'b' {
        Some('\u{0008}')
    } else if c == 'f' {
        Some('\u{000C}')
    } else {
        None
    }
}

fn frac_end_exec(s: &str, k: usize) -> (r: usize)
    requires
        k <= s@.len(),
    ensures
        r as int == frac_end(s@, k as int),
        k <= r <= s@.len(),
{
    let len = s.unicode_len();
    if k < len && s.get_char(k) == '.' {
        let d = scan_digits_exec(s, k + 1);
        if d == k + 1 {
            k
        } else {
            d
        }
    } else {
        k
    }
}

fn exp_end_exec(s: &str, k: usize) -> (r: usize)
    requires
        k <= s@.len(),
    ensures
        r as int == exp_end(s@, k as int),
        k <= r <= s@.len(),
{
    let len = s.unicode_len();
    if k < len && (s.get_char(k) == 'e' || s.get_char(k) == 'E') {
        let m = if k + 1 < len && (s.get_char(k + 1) == '+' || s.get_char(k + 1) == '-') {
            k + 2
        } else {
            k + 1
        };
        let d = scan_digits_exec(s, m);
        if d == m {
            k
        } else {
            d
        }
    } else {
        k
    }
}

fn parse_number_end_exec(s: &str, i: usize) -> (r: Option<usize>)
    requires
        i <= s@.len(),
    ensures
        (match r {
            Some(j) => parse_number_end(s@, i as int) == Some(j as int) && i < j <= s@.len(),
            None => parse_number_end(s@, i as int) is None,
        }),
{
    let len = s.unicode_len();
    let j = if i < len && s.get_char(i) == '-' {
        i + 1
    } else {
        i
    };
    let k = scan_digits_exec(s, j);
    if k == j {
        None
    } else {
        let f = frac_end_exec(s, k);
        let e = exp_end_exec(s, f);
        Some(e)
    }
}

fn parse_string_body_exec(s: &str, i: usize, fuel: usize) -> (r: Option<(String, usize)>)
    requires
        i <= s@.len(),
    ensures
        (match r {
            Some(p) => parse_string_body(s@, i as int, fuel as nat) == Some((p.0@, p.1 as int))
                && i < p.1 <= s@.len(),
            None => parse_string_body(s@, i as int, fuel as nat) is None,
        }),
    decreases fuel,
{
    let len = s.unicode_len();
    if fuel == 0 || i >= len {
        return None;
    }
    let c = s.get_char(i);
    if c == '"' {
        let out = String::new();
        assert(out@ =~= Seq::<char>::empty());
        Some((out, i + 1))
    } else if c == '\\' {
        if i + 1 < len {
            match unescape_exec(s.get_char(i + 1)) {
                Some(e) => {
                    match parse_string_body_exec(s, i + 2, fuel - 1) {
                        Some((rest, j)) => {
                            let mut out = String::new();
                            push_char(&mut out, e);
                            out.append(rest.as_str());
                            assert(out@ =~= seq![e] + rest@);
                            Some((out, j))
                        },
                        None => None,
                    }
                },
                None => None,
            }
        } else {
            None
        }
    } else if (c as u32) < 0x20 {
        None
    } else {
        match parse_string_body_exec(s, i + 1, fuel - 1) {
            Some((rest, j)) => {
                let mut out = String::new();
                push_char(&mut out, c);
                out.append(rest.as_str());
                assert(out@ =~= seq![c] + rest@);
                Some((out, j))
            },
            None => None,
        }
    }
}

proof fn lemma_jv_seq_prepend(v: JsonValue, items: Seq<JsonValue>)
    ensures
        jv_seq(seq![v] + items) == seq![jv(v)] + jv_seq(items),
    decreases items.len(),
{
    if items.len() == 0 {
        assert(seq![v] + items =~= seq![v]);
        assert(seq![v].drop_last() =~= Seq::<JsonValue>::empty());
        assert(jv_seq(Seq::<JsonValue>::empty()) =~= Seq::<JsonView>::empty());
        assert(jv_seq(seq![v]) =~= seq![jv(v)] + jv_seq(items));
    } else {
        let s2 = seq![v] + items;
        assert(s2.drop_last() =~= seq![v] + items.drop_last());
        assert(s2.last() == items.last());
        lemma_jv_seq_prepend(v, items.drop_last());
        assert(jv_seq(s2) =~= seq![jv(v)] + jv_seq(items));
    }
}

proof fn lemma_jv_members_prepend(m: (String, JsonValue), members: Seq<(String, JsonValue)>)
    ensures
        jv_members(seq![m] + members) == seq![(m.0@, jv(m.1))] + jv_members(members),
    decreases members.len(),
{
    if members.len() == 0 {
        assert(seq![m] + members =~= seq![m]);
        assert(seq![m].drop_last() =~= Seq::<(String, JsonValue)>::empty());
        assert(jv_members(Seq::<(String, JsonValue)>::empty()) =~= Seq::<(Seq<char>, JsonView)>::empty());
        assert(jv_members(seq![m]) =~= seq![(m.0@, jv(m.1))] + jv_members(members));
    } else {
        let s2 = seq![m] + members;
        assert(s2.drop_last() =~= seq![m] + members.drop_last());
        assert(s2.last() == members.last());
        lemma_jv_members_prepend(m, members.drop_last());
        assert(jv_members(s2) =~= seq![(m.0@, jv(m.1))] + jv_members(members));
    }
}

/// Parse one JSON value starting at `i`: exactly what the grammar
/// (`parse_value`) says, with the parsed value as an owned `JsonValue`.
pub fn parse_value_exec(s: &str, i: usize, fuel: usize) -> (r: Option<(JsonValue, usize)>)
    requires
        i <= s@.len(),
    ensures
        (match r {
            Some(p) => parse_value(s@, i as int, fuel as nat) == Some((p.0@, p.1 as int)) && i
                < p.1 <= s@.len(),
            None => parse_value(s@, i as int, fuel as nat) is None,
        }),
    decreases fuel,
{
    let len = s.unicode_len();
    if fuel == 0 || i >= len {
        return None;
    }
    let c = s.get_char(i);
    if c == 'n' {
        if matches_at_exec(s, i, "null") {
            proof {
                reveal_strlit("null");
            }
            Some((JsonValue::Null, i + 4))
        } else {
            None
        }
    } else if c == 't' {
        if matches_at_exec(s, i, "true") {
            proof {
                reveal_strlit("true");
            }
            Some((JsonValue::Bool(true), i + 4))
        } else {
            None
        }
    } else if c == 'f' {
        if matches_at_exec(s, i, "false") {
            proof {
                reveal_strlit("false");
            }
            Some((JsonValue::Bool(false), i + 5))
        } else {
            None
        }
    } else if c == '"' {
        match parse_string_body_exec(s, i + 1, fuel - 1) {
            Some((v, j)) => Some((JsonValue::Str(v), j)),
            None => None,
        }
    } else if c == '[' {
        let j = skip_ws_exec(s, i + 1);
        if j < len && s.get_char(j) == ']' {
            let items: Vec<JsonValue> = Vec::new();
            assert(jv_seq(items@) =~= Seq::<JsonView>::empty());
            Some((JsonValue::Arr(items), j + 1))
        } else {
            match parse_array_items_exec(s, j, fuel - 1) {
                Some((items, j2)) => Some((JsonValue::Arr(items), j2)),
                None => None,
            }
        }
    } else if c == '{' {
        let j = skip_ws_exec(s, i + 1);
        if j < len && s.get_char(j) == '}' {
            let members: Vec<(String, JsonValue)> = Vec::new();
            assert(jv_members(members@) =~= Seq::<(Seq<char>, JsonView)>::empty());
            Some((JsonValue::Obj(members), j + 1))
        } else {
            match parse_obj_items_exec(s, j, fuel - 1) {
                Some((members, j2)) => Some((JsonValue::Obj(members), j2)),
                None => None,
            }
        }
    } else {
        match parse_number_end_exec(s, i) {
            Some(j) => {
                let lex = s.substring_char(i, j).to_owned();
                Some((JsonValue::Num(lex), j))
            },
            None => None,
        }
    }
}

fn parse_array_items_exec(s: &str, i: usize, fuel: usize) -> (r: Option<(Vec<JsonValue>, usize)>)
    requires
        i <= s@.len(),
    ensures
        (match r {
            Some(p) => parse_array_items(s@, i as int, fuel as nat) == Some(
                (jv_seq(p.0@), p.1 as int),
            ) && i < p.1 <= s@.len(),
            None => parse_array_items(s@, i as int, fuel as nat) is None,
        }),
    decreases fuel,
{
    let len = s.unicode_len();
    if fuel == 0 {
        return None;
    }
    match parse_value_exec(s, i, fuel - 1) {
        Some((v, j)) => {
            let k = skip_ws_exec(s, j);
            if k < len && s.get_char(k) == ',' {
                let k2 = skip_ws_exec(s, k + 1);
                match parse_array_items_exec(s, k2, fuel - 1) {
                    Some((mut rest, j2)) => {
                        let ghost rest0 = rest@;
                        rest.insert(0, v);
                        proof {
                            assert(rest@ =~= seq![v] + rest0);
                            lemma_jv_seq_prepend(v, rest0);
                        }
                        Some((rest, j2))
                    },
                    None => None,
                }
            } else if k < len && s.get_char(k) == ']' {
                let mut items: Vec<JsonValue> = Vec::new();
                items.push(v);
                proof {
                    assert(items@.drop_last() =~= Seq::<JsonValue>::empty());
                    assert(jv_seq(Seq::<JsonValue>::empty()) =~= Seq::<JsonView>::empty());
                    assert(jv_seq(items@) =~= seq![jv(v)]);
                }
                Some((items, k + 1))
            } else {
                None
            }
        },
        None => None,
    }
}

fn parse_obj_items_exec(s: &str, i: usize, fuel: usize) -> (r: Option<
    (Vec<(String, JsonValue)>, usize),
>)
    requires
        i <= s@.len(),
    ensures
        (match r {
            Some(p) => parse_obj_items(s@, i as int, fuel as nat) == Some(
                (jv_members(p.0@), p.1 as int),
            ) && i < p.1 <= s@.len(),
            None => parse_obj_items(s@, i as int, fuel as nat) is None,
        }),
    decreases fuel,
{
    let len = s.unicode_len();
    if fuel == 0 || i >= len {
        return None;
    }
    if s.get_char(i) != '"' {
        return None;
    }
    match parse_string_body_exec(s, i + 1, fuel - 1) {
        Some((key, j)) => {
            let k = skip_ws_exec(s, j);
            if k < len && s.get_char(k) == ':' {
                let k2 = skip_ws_exec(s, k + 1);
                match parse_value_exec(s, k2, fuel - 1) {
                    Some((v, j2)) => {
                        let k3 = skip_ws_exec(s, j2);
                        if k3 < len && s.get_char(k3) == ',' {
                            let k4 = skip_ws_exec(s, k3 + 1);
                            match parse_obj_items_exec(s, k4, fuel - 1) {
                                Some((mut rest, j3)) => {
                                    let ghost rest0 = rest@;
                                    let m = (key, v);
                                    rest.insert(0, m);
                                    proof {
                                        assert(rest@ =~= seq![m] + rest0);
                                        lemma_jv_members_prepend(m, rest0);
                                    }
                                    Some((rest, j3))
                                },
                                None => None,
                            }
                        } else if k3 < len && s.get_char(k3) == '}' {
                            let m = (key, v);
                            let mut members: Vec<(String, JsonValue)> = Vec::new();
                            members.push(m);
                            proof {
                                assert(members@.drop_last() =~= Seq::<(String, JsonValue)>::empty());
                                assert(jv_members(Seq::<(String, JsonValue)>::empty()) =~= Seq::<(
                                    Seq<char>,
                                    JsonView,
                                )>::empty());
                                assert(jv_members(members@) =~= seq![(m.0@, jv(m.1))]);
                            }
                            Some((members, k3 + 1))
                        } else {
                            None
                        }
                    },
                    None => None,
                }
            } else {
                None
            }
        },
        None => None,
    }
}

/// Parse a whole frame payload as one JSON value, exactly as
/// `parse_json_spec` says: a malformed payload gives `None`, a well-formed
/// one the parsed value.
pub fn parse_json(s: &str) -> (r: Option<JsonValue>)
    requires
        4 * s@.len() + 16 <= usize::MAX,
    ensures
        (match r {
            Some(v) => parse_json_spec(s@) == Some(v@),
            None => parse_json_spec(s@) is None,
        }),
{
    let len = s.unicode_len();
    let fuel = 4 * len + 16;
    let i = skip_ws_exec(s, 0);
    match parse_value_exec(s, i, fuel) {
        Some((v, j)) => {
            let k = skip_ws_exec(s, j);
            if k == len {
                Some(v)
            } else {
                None
            }
        },
        None => None,
    }
}



// ---------------------------------------------------------------------------
// The subscribe message
// ---------------------------------------------------------------------------

/// A parsed subscribe message: the operation text, an optional operation
/// name, and the variable bindings.
pub struct SubscriptionRequest {
    pub query: String,
    pub operation_name: Option<String>,
    pub variables: Vec<(String, JsonValue)>,
}

/// The mathematical value of a `SubscriptionRequest`.
pub struct RequestView {
    pub query: Seq<char>,
    pub operation_name: Option<Seq<char>>,
    pub variables: Seq<(Seq<char>, JsonView)>,
}

impl View for SubscriptionRequest {
    type V = RequestView;

    open spec fn view(&self) -> RequestView {
        RequestView {
            query: self.query@,
            operation_name: match self.operation_name {
                Some(o) => Some(o@),
                None => None,
            },
            variables: jv_members(self.variables@),
        }
    }
}

/// The first member of a JSON object under the given key, if any.
pub open spec fn obj_lookup(ms: Seq<(Seq<char>, JsonView)>, key: Seq<char>) -> Option<JsonView>
    decreases ms.len(),
{
    if ms.len() == 0 {
        None
    } else if ms[0].0 == key {
        Some(ms[0].1)
    } else {
        obj_lookup(ms.drop_first(), key)
    }
}

/// The subscribe message a JSON value denotes, if it is one: an object with
/// a string under `query`, optionally a string under `operationName`, and
/// optionally an object under `variables`. Anything else is rejected.
pub open spec fn request_of(v: JsonView) -> Option<RequestView> {
    match v {
        JsonView::Obj(ms) => match obj_lookup(ms, "query"@) {
            Some(JsonView::Str(q)) => {
                let op = obj_lookup(ms, "operationName"@);
                let vars = obj_lookup(ms, "variables"@);
                if (op is None || op matches Some(JsonView::Str(_))) && (vars is None
                    || vars matches Some(JsonView::Obj(_))) {
                    Some(
                        RequestView {
                            query: q,
                            operation_name: match op {
                                Some(JsonView::Str(o)) => Some(o),
                                _ => None,
                            },
                            variables: match vars {
                                Some(JsonView::Obj(m)) => m,
                                _ => Seq::empty(),
                            },
                        },
                    )
                } else {
                    None
                }
            },
            _ => None,
        },
        _ => None,
    }
}

/// What a frame payload means as a subscribe message: well-formed JSON of
/// the `request_of` shape, or nothing.
pub open spec fn parse_request_spec(s: Seq<char>) -> Option<RequestView> {
    match parse_json_spec(s) {
        Some(v) => request_of(v),
        None => None,
    }
}

/// Character-for-character string equality.
pub fn str_eq(a: &str, b: &str) -> (r: bool)
    ensures
        r == (a@ == b@),
{
    let n = a.unicode_len();
    let m = b.unicode_len();
    if n != m {
        return false;
    }
    let mut i: usize = 0;
    while i < n
        invariant
            i <= n,
            n == a@.len(),
            n == b@.len(),
            forall|t: int| 0 <= t < i ==> a@[t] == b@[t],
        decreases n - i,
    {
        if a.get_char(i) != b.get_char(i) {
            return false;
        }
        i = i + 1;
    }
    assert(a@ =~= b@);
    true
}

/// The subscribe message a parsed JSON value denotes, exactly as
/// `request_of` says.
pub fn request_from_json(v: JsonValue) -> (r: Option<SubscriptionRequest>)
    ensures
        (match r {
            Some(req) => request_of(v@) == Some(req@),
            None => request_of(v@) is None,
        }),
{
    proof {
        reveal_strlit("query");
        reveal_strlit("operationName");
        reveal_strlit("variables");
    }
    match v {
        JsonValue::Obj(mut ms) => {
            let ghost ms0 = jv_members(ms@);
            let mut q_val: Option<JsonValue> = None;
            let mut op_val: Option<JsonValue> = None;
            let mut vars_val: Option<JsonValue> = None;
            while ms.len() > 0
                invariant
                    (match q_val {
                        Some(x) => obj_lookup(ms0, "query"@) == Some(x@),
                        None => obj_lookup(ms0, "query"@) == obj_lookup(
                            jv_members(ms@),
                            "query"@,
                        ),
                    }),
                    (match op_val {
                        Some(x) => obj_lookup(ms0, "operationName"@) == Some(x@),
                        None => obj_lookup(ms0, "operationName"@) == obj_lookup(
                            jv_members(ms@),
                            "operationName"@,
                        ),
                    }),
                    (match vars_val {
                        Some(x) => obj_lookup(ms0, "variables"@) == Some(x@),
                        None => obj_lookup(ms0, "variables"@) == obj_lookup(
                            jv_members(ms@),
                            "variables"@,
                        ),
                    }),
                decreases ms.len(),
            {
                let ghost before = ms@;
                let (k, val) = ms.remove(0);
                proof {
                    reveal_strlit("query");
                    reveal_strlit("operationName");
                    reveal_strlit("variables");
                    assert("query"@.len() == 5 && "operationName"@.len() == 13 && "variables"@.len()
                        == 9);
                    assert("query"@ != "operationName"@ && "query"@ != "variables"@
                        && "operationName"@ != "variables"@);
                    assert(before =~= seq![(k, val)] + ms@);
                    lemma_jv_members_prepend((k, val), ms@);
                    assert(jv_members(before)[0] == (k@, jv(val)));
                    assert(jv_members(before).drop_first() =~= jv_members(ms@));
                }
                if str_eq(k.as_str(), "query") {
                    if q_val.is_none() {
                        q_val = Some(val);
                    }
                } else if str_eq(k.as_str(), "operationName") {
                    if op_val.is_none() {
                        op_val = Some(val);
                    }
                } else if str_eq(k.as_str(), "variables") {
                    if vars_val.is_none() {
                        vars_val = Some(val);
                    }
                }
            }
            proof {
                assert(jv_members(ms@) =~= Seq::<(Seq<char>, JsonView)>::empty());
            }
            let query = match q_val {
                Some(JsonValue::Str(q)) => q,
                Some(_) => {
                    return None;
                },
                None => {
                    return None;
                },
            };
            let operation_name = match op_val {
                Some(JsonValue::Str(o)) => Some(o),
                Some(_) => {
                    return None;
                },
                None => None,
            };
            let variables = match vars_val {
                Some(JsonValue::Obj(m)) => m,
                Some(_) => {
                    return None;
                },
                None => {
                    let empty: Vec<(String, JsonValue)> = Vec::new();
                    assert(jv_members(empty@) =~= Seq::<(Seq<char>, JsonView)>::empty());
                    empty
                },
            };
            Some(SubscriptionRequest { query, operation_name, variables })
        },
        _ => None,
    }
}

/// Parse a text frame as a subscribe message: exactly the frames
/// `parse_request_spec` accepts, with exactly the request it gives.
pub fn parse_subscription_request(frame: &str) -> (r: Option<SubscriptionRequest>)
    requires
        4 * frame@.len() + 16 <= usize::MAX,
    ensures
        (match r {
            Some(req) => parse_request_spec(frame@) == Some(req@),
            None => parse_request_spec(frame@) is None,
        }),
{
    match parse_json(frame) {
        Some(v) => request_from_json(v),
        None => None,
    }
}



// ---------------------------------------------------------------------------
// Outbound frames
// ---------------------------------------------------------------------------

/// How one character is written inside a JSON string literal.
pub open spec fn escape_char(c: char) -> Seq<char> {
    if c == '"' {
        seq!['\\', '"']
    } else if c == '\\' {
        seq!['\\', '\\']
    } else if c == '\n' {
        seq!['\\', 'n']
    } else if c == '\t' {
        seq!['\\', 't']
    } else if c == '\r' {
        seq!['\\', 'r']
    } else {
        seq![c]
    }
}

/// A string's characters, escaped for a JSON string literal.
pub open spec fn escape_str(s: Seq<char>) -> Seq<char>
    decreases s.len(),
{
    if s.len() == 0 {
        Seq::empty()
    } else {
        escape_str(s.drop_last()) + escape_char(s.last())
    }
}

/// A JSON string literal: quotes around the escaped characters.
pub open spec fn quoted(s: Seq<char>) -> Seq<char> {
    seq!['"'] + escape_str(s) + seq!['"']
}

/// The wire name of a category tag.
pub open spec fn episode_name(e: Episode) -> Seq<char> {
    match e {
        Episode::NewHope => "NEW_HOPE"@,
        Episode::Empire => "EMPIRE"@,
        Episode::Jedi => "JEDI"@,
    }
}

/// The comma-separated quoted tag names.
pub open spec fn episode_items(es: Seq<Episode>) -> Seq<char>
    decreases es.len(),
{
    if es.len() == 0 {
        Seq::empty()
    } else if es.len() == 1 {
        quoted(episode_name(es[0]))
    } else {
        episode_items(es.drop_last()) + seq![','] + quoted(episode_name(es.last()))
    }
}

/// A tag list as a JSON array.
pub open spec fn episodes_json(es: Seq<Episode>) -> Seq<char> {
    seq!['['] + episode_items(es) + seq![']']
}

/// An entity as a JSON object, in its query shape.
pub open spec fn human_json(h: HumanView) -> Seq<char> {
    seq!['{'] + quoted("id"@) + seq![':'] + quoted(h.id) + seq![','] + quoted("name"@) + seq![':']
        + quoted(h.name) + seq![','] + quoted("appears_in"@) + seq![':'] + episodes_json(
        h.appears_in,
    ) + seq![','] + quoted("home_planet"@) + seq![':'] + quoted(h.home_planet) + seq!['}']
}

/// The payload of one outbound event frame: `{"data": ...}` for a delivered
/// entity, `{"errors": [...]}` for an in-band error.
pub open spec fn result_json(r: ExecutionResultView) -> Seq<char> {
    match r {
        ExecutionResultView::Data(h) => "{\"data\":"@ + human_json(h) + "}"@,
        ExecutionResultView::EventsMissed => "{\"errors\":[{\"message\":\"events missed\"}]}"@,
    }
}

fn append_escaped(out: &mut String, s: &str)
    ensures
        final(out)@ == old(out)@ + escape_str(s@),
{
    let n = s.unicode_len();
    let mut i: usize = 0;
    proof {
        assert(s@.subrange(0, 0) =~= Seq::<char>::empty());
    }
    while i < n
        invariant
            i <= n,
            n == s@.len(),
            out@ == old(out)@ + escape_str(s@.subrange(0, i as int)),
        decreases n - i,
    {
        let ghost prev = out@;
        let c = s.get_char(i);
        if c == '"' {
            push_char(out, '\\');
            push_char(out, '"');
        } else if c == '\\' {
            push_char(out, '\\');
            push_char(out, '\\');
        } else if c == '\n' {
            push_char(out, '\\');
            push_char(out, 'n');
        } else if c == '\t' {
            push_char(out, '\\');
            push_char(out, 't');
        } else if c == '\r' {
            push_char(out, '\\');
            push_char(out, 'r');
        } else {
            push_char(out, c);
        }
        proof {
            assert(out@ =~= prev + escape_char(c));
            assert(s@.subrange(0, i + 1).drop_last() =~= s@.subrange(0, i as int));
            assert(s@.subrange(0, i + 1).last() == c);
            assert(out@ =~= old(out)@ + escape_str(s@.subrange(0, i + 1)));
        }
        i = i + 1;
    }
    proof {
        assert(s@.subrange(0, n as int) =~= s@);
    }
}

fn append_quoted(out: &mut String, s: &str)
    ensures
        final(out)@ == old(out)@ + quoted(s@),
{
    push_char(out, '"');
    append_escaped(out, s);
    push_char(out, '"');
    proof {
        assert(out@ =~= old(out)@ + quoted(s@));
    }
}

fn episode_name_exec(e: &Episode) -> (r: &'static str)
    ensures
        r@ == episode_name(*e),
{
    match e {
        Episode::NewHope => "NEW_HOPE",
        Episode::Empire => "EMPIRE",
        Episode::Jedi => "JEDI",
    }
}

fn append_episodes(out: &mut String, es: &Vec<Episode>)
    ensures
        final(out)@ == old(out)@ + episodes_json(es@),
{
    push_char(out, '[');
    let ghost base = out@;
    let mut i: usize = 0;
    proof {
        assert(episode_items(es@.subrange(0, 0)) =~= Seq::<char>::empty());
        assert(out@ =~= base + episode_items(es@.subrange(0, 0)));
    }
    while i < es.len()
        invariant
            i <= es@.len(),
            base == old(out)@ + seq!['['],
            out@ == base + episode_items(es@.subrange(0, i as int)),
        decreases es@.len() - i,
    {
        let ghost prev = out@;
        if i > 0 {
            push_char(out, ',');
        }
        append_quoted(out, episode_name_exec(&es[i]));
        proof {
            let sub1 = es@.subrange(0, i + 1);
            assert(sub1.drop_last() =~= es@.subrange(0, i as int));
            assert(sub1.last() == es@[i as int]);
            if i == 0 {
                assert(out@ =~= base + episode_items(sub1));
            } else {
                assert(out@ =~= base + episode_items(sub1));
            }
        }
        i = i + 1;
    }
    push_char(out, ']');
    proof {
        assert(es@.subrange(0, es@.len() as int) =~= es@);
        assert(out@ =~= old(out)@ + episodes_json(es@));
    }
}

/// An entity written as its JSON object, appended to `out`.
fn append_human(out: &mut String, h: &Human)
    ensures
        final(out)@ == old(out)@ + human_json(h@),
{
    push_char(out, '{');
    append_quoted(out, "id");
    push_char(out, ':');
    append_quoted(out, h.id.as_str());
    push_char(out, ',');
    append_quoted(out, "name");
    push_char(out, ':');
    append_quoted(out, h.name.as_str());
    push_char(out, ',');
    append_quoted(out, "appears_in");
    push_char(out, ':');
    append_episodes(out, &h.appears_in);
    push_char(out, ',');
    append_quoted(out, "home_planet");
    push_char(out, ':');
    append_quoted(out, h.home_planet.as_str());
    push_char(out, '}');
    proof {
        assert(out@ =~= old(out)@ + human_json(h@));
    }
}

/// The text of one outbound event frame: exactly `result_json` of the
/// result.
pub fn execution_result_json(r: &ExecutionResult) -> (out: String)
    ensures
        out@ == result_json(r@),
{
    match r {
        ExecutionResult::Data(h) => {
            let mut out = String::from_str("{\"data\":");
            append_human(&mut out, h);
            out.append("}");
            assert(out@ =~= result_json(ExecutionResultView::Data(h@)));
            out
        },
        ExecutionResult::EventsMissed => String::from_str(
            "{\"errors\":[{\"message\":\"events missed\"}]}",
        ),
    }
}


} // verus!
