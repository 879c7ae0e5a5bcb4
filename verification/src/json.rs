//! Textual tree-value parser: a recursive-descent parser for JSON-shaped
//! input, specified as a functional parser over character sequences and
//! implemented by executable functions proved equal to it.
//!
//! Numbers keep their literal text. Objects with a repeated key are
//! rejected, so parsed trees always have unique keys. The escapes
//! `\" \\ \/ \n \t \r \b \f` are decoded; `\uXXXX` escapes are not
//! accepted (non-ASCII characters may stand in the input directly).

use vstd::prelude::*;

use crate::groups::is_digit_char;
use crate::tree::{arr_view, lemma_arr_view_len, lemma_obj_view_len, obj_view, JsonValue, TreeV};

verus! {

pub open spec fn is_json_ws(c: char) -> bool {
    c == ' ' || c == '\t' || c == '\n' || c == '\r'
}

/// First index `j >= i` holding a non-whitespace character, or `s.len()`.
pub open spec fn ws_end(s: Seq<char>, i: int) -> int
    decreases s.len() - i,
    when 0 <= i <= s.len()
{
    if i >= s.len() || !is_json_ws(s[i]) {
        i
    } else {
        ws_end(s, i + 1)
    }
}

pub proof fn lemma_ws_end(s: Seq<char>, i: int)
    requires
        0 <= i <= s.len(),
    ensures
        i <= ws_end(s, i) <= s.len(),
    decreases s.len() - i,
{
    if i < s.len() && is_json_ws(s[i]) {
        lemma_ws_end(s, i + 1);
    }
}

/// First index `j >= i` holding a non-digit character, or `s.len()`.
pub open spec fn digits_end(s: Seq<char>, i: int) -> int
    decreases s.len() - i,
    when 0 <= i <= s.len()
{
    if i >= s.len() || !is_digit_char(s[i]) {
        i
    } else {
        digits_end(s, i + 1)
    }
}

/// The decoded character of a backslash escape, if the escape is accepted.
pub open spec fn esc_char(c: char) -> Option<char> {
    if c == '"' {
        Some('"')
    } else if c == '\\' {
        Some('\\')
    } else if c == '/' {
        Some('/')
    } else if c == 'n' {
        Some('\n')
    } else if c == 't' {
        Some('\t')
    } else if c == 'r' {
        Some('\r')
    } else if c == 'b' {
        Some('\u{8}')
    } else if c == 'f' {
        Some('\u{c}')
    } else {
        None
    }
}

/// Scans a string body starting right after the opening quote; yields the
/// decoded contents and the index right after the closing quote.
pub open spec fn spec_string(s: Seq<char>, i: int) -> Option<(Seq<char>, int)>
    decreases s.len() - i,
    when 0 <= i <= s.len()
{
    if i >= s.len() {
        None
    } else if s[i] == '"' {
        Some((Seq::empty(), i + 1))
    } else if s[i] == '\\' {
        if i + 1 >= s.len() {
            None
        } else {
            match esc_char(s[i + 1]) {
                Some(c) => match spec_string(s, i + 2) {
                    Some((rest, j)) => Some((seq![c] + rest, j)),
                    None => None,
                },
                None => None,
            }
        }
    } else if (s[i] as u32) < 32 {
        None
    } else {
        match spec_string(s, i + 1) {
            Some((rest, j)) => Some((seq![s[i]] + rest, j)),
            None => None,
        }
    }
}

/// Scans a number literal starting at `i`; yields its text and end index.
pub open spec fn spec_number(s: Seq<char>, i: int) -> Option<(Seq<char>, int)> {
    let j0 = if i < s.len() && s[i] == '-' {
        i + 1
    } else {
        i
    };
    if j0 >= s.len() || !is_digit_char(s[j0]) {
        None
    } else {
        let ie = if s[j0] == '0' {
            j0 + 1
        } else {
            digits_end(s, j0)
        };
        if ie < s.len() && s[ie] == '.' {
            if ie + 1 < s.len() && is_digit_char(s[ie + 1]) {
                spec_number_exp(s, i, digits_end(s, ie + 1))
            } else {
                None
            }
        } else {
            spec_number_exp(s, i, ie)
        }
    }
}

/// The optional exponent part: `start` is where the literal began, `fe`
/// where the exponent may begin.
pub open spec fn spec_number_exp(s: Seq<char>, start: int, fe: int) -> Option<(Seq<char>, int)> {
    if fe < s.len() && (s[fe] == 'e' || s[fe] == 'E') {
        let k = if fe + 1 < s.len() && (s[fe + 1] == '+' || s[fe + 1] == '-') {
            fe + 2
        } else {
            fe + 1
        };
        if k < s.len() && is_digit_char(s[k]) {
            Some((s.subrange(start, digits_end(s, k)), digits_end(s, k)))
        } else {
            None
        }
    } else {
        Some((s.subrange(start, fe), fe))
    }
}

/// Parses one value starting exactly at `i` (whitespace already skipped);
/// yields the value and the index right after it.
pub open spec fn spec_value(s: Seq<char>, i: int) -> Option<(TreeV, int)>
    decreases s.len() - i, 0int,
    when 0 <= i <= s.len()
    via spec_value_dec
{
    if i >= s.len() {
        None
    } else {
        let c = s[i];
        if c == '"' {
            match spec_string(s, i + 1) {
                Some((cs, j)) => Some((TreeV::Str(cs), j)),
                None => None,
            }
        } else if c == 't' {
            if i + 4 <= s.len() && s[i + 1] == 'r' && s[i + 2] == 'u' && s[i + 3] == 'e' {
                Some((TreeV::Bool(true), i + 4))
            } else {
                None
            }
        } else if c == 'f' {
            if i + 5 <= s.len() && s[i + 1] == 'a' && s[i + 2] == 'l' && s[i + 3] == 's' && s[i
                + 4] == 'e' {
                Some((TreeV::Bool(false), i + 5))
            } else {
                None
            }
        } else if c == 'n' {
            if i + 4 <= s.len() && s[i + 1] == 'u' && s[i + 2] == 'l' && s[i + 3] == 'l' {
                Some((TreeV::Null, i + 4))
            } else {
                None
            }
        } else if c == '[' {
            let j = ws_end(s, i + 1);
            if j < s.len() && s[j] == ']' {
                Some((TreeV::Arr(Seq::empty()), j + 1))
            } else {
                match spec_elems(s, j) {
                    Some((es, k)) => Some((TreeV::Arr(es), k)),
                    None => None,
                }
            }
        } else if c == '{' {
            let j = ws_end(s, i + 1);
            if j < s.len() && s[j] == '}' {
                Some((TreeV::Obj(Seq::empty()), j + 1))
            } else {
                match spec_members(s, j) {
                    Some((fs, k)) => Some((TreeV::Obj(fs), k)),
                    None => None,
                }
            }
        } else if c == '-' || is_digit_char(c) {
            match spec_number(s, i) {
                Some((cs, j)) => Some((TreeV::Num(cs), j)),
                None => None,
            }
        } else {
            None
        }
    }
}

#[via_fn]
proof fn spec_value_dec(s: Seq<char>, i: int) {
    if 0 <= i < s.len() {
        lemma_ws_end(s, i + 1);
    }
}

/// Parses the elements of a non-empty array, `i` standing at the first
/// element; yields the elements and the index right after `]`.
pub open spec fn spec_elems(s: Seq<char>, i: int) -> Option<(Seq<TreeV>, int)>
    decreases s.len() - i, 1int,
    when 0 <= i <= s.len()
    via spec_elems_dec
{
    match spec_value(s, i) {
        Some((v, j)) => {
            if j <= i || j > s.len() {
                None
            } else {
                let k = ws_end(s, j);
                if k < s.len() && s[k] == ',' {
                    let m = ws_end(s, k + 1);
                    if m <= i {
                        None
                    } else {
                        match spec_elems(s, m) {
                            Some((rest, e)) => Some((seq![v] + rest, e)),
                            None => None,
                        }
                    }
                } else if k < s.len() && s[k] == ']' {
                    Some((seq![v], k + 1))
                } else {
                    None
                }
            }
        },
        None => None,
    }
}

#[via_fn]
proof fn spec_elems_dec(s: Seq<char>, i: int) {
    assert forall|j: int| 0 <= j <= s.len() implies j <= #[trigger] ws_end(s, j) <= s.len() by {
        lemma_ws_end(s, j);
    }
}

/// Parses the members of a non-empty object, `i` standing at the first
/// key's opening quote; yields the fields and the index right after `}`.
/// A repeated key rejects the whole object.
pub open spec fn spec_members(s: Seq<char>, i: int) -> Option<(Seq<(Seq<char>, TreeV)>, int)>
    decreases s.len() - i, 1int,
    when 0 <= i <= s.len()
    via spec_members_dec
{
    if i >= s.len() || s[i] != '"' {
        None
    } else {
        match spec_string(s, i + 1) {
            Some((key, j)) => {
                if j <= i || j > s.len() {
                    None
                } else {
                    let k = ws_end(s, j);
                    if k < s.len() && s[k] == ':' {
                        let m = ws_end(s, k + 1);
                        match spec_value(s, m) {
                            Some((v, e)) => {
                                if e <= i || e > s.len() {
                                    None
                                } else {
                                    let p = ws_end(s, e);
                                    if p < s.len() && s[p] == ',' {
                                        let q = ws_end(s, p + 1);
                                        match spec_members(s, q) {
                                            Some((rest, z)) => if exists|x: int|
                                                0 <= x < rest.len() && (#[trigger] rest[x]).0
                                                    == key {
                                                None
                                            } else {
                                                Some((seq![(key, v)] + rest, z))
                                            },
                                            None => None,
                                        }
                                    } else if p < s.len() && s[p] == '}' {
                                        Some((seq![(key, v)], p + 1))
                                    } else {
                                        None
                                    }
                                }
                            },
                            None => None,
                        }
                    } else {
                        None
                    }
                }
            },
            None => None,
        }
    }
}

#[via_fn]
proof fn spec_members_dec(s: Seq<char>, i: int) {
    assert forall|j: int| 0 <= j <= s.len() implies j <= #[trigger] ws_end(s, j) <= s.len() by {
        lemma_ws_end(s, j);
    }
}

/// The tree parsed from a whole text: leading and trailing whitespace is
/// allowed, anything else after the value rejects the input.
pub open spec fn spec_parse_json(s: Seq<char>) -> Option<TreeV> {
    let i = ws_end(s, 0);
    match spec_value(s, i) {
        Some((v, j)) => if 0 <= j <= s.len() && ws_end(s, j) == s.len() {
            Some(v)
        } else {
            None
        },
        None => None,
    }
}

// ---------------------------------------------------------------------------
// The executable parser, proved equal to the functional one
// ---------------------------------------------------------------------------
fn ws_skip(s: &str, i: usize) -> (r: usize)
    requires
        i <= s@.len(),
    ensures
        r == ws_end(s@, i as int),
        i <= r <= s@.len(),
{
    let n = s.unicode_len();
    let mut j = i;
    while j < n
        invariant
            i <= j <= n,
            n == s@.len(),
            ws_end(s@, i as int) == ws_end(s@, j as int),
        decreases n - j,
    {
        let c = s.get_char(j);
        if !(c == ' ' || c == '\t' || c == '\n' || c == '\r') {
            return j;
        }
        j = j + 1;
    }
    j
}

fn digits_skip(s: &str, i: usize) -> (r: usize)
    requires
        i <= s@.len(),
    ensures
        r == digits_end(s@, i as int),
        i <= r <= s@.len(),
{
    let n = s.unicode_len();
    let mut j = i;
    while j < n
        invariant
            i <= j <= n,
            n == s@.len(),
            digits_end(s@, i as int) == digits_end(s@, j as int),
        decreases n - j,
    {
        let c = s.get_char(j);
        if !('0' <= c && c <= '9') {
            return j;
        }
        j = j + 1;
    }
    j
}

fn esc_str(e: char) -> (r: Option<&'static str>)
    ensures
        match (r, esc_char(e)) {
            (Some(t), Some(c)) => t@ == seq![c],
            (None, None) => true,
            _ => false,
        },
{
    proof {
        reveal_strlit("\"");
        reveal_strlit("\\");
        reveal_strlit("/");
        reveal_strlit("\n");
        reveal_strlit("\t");
        reveal_strlit("\r");
        reveal_strlit("\u{8}");
        reveal_strlit("\u{c}");
    }
    let r: Option<&'static str> = if e == '"' {
        Some("\"")
    } else if e == '\\' {
        Some("\\")
    } else if e == '/' {
        Some("/")
    } else if e == 'n' {
        Some("\n")
    } else if e == 't' {
        Some("\t")
    } else if e == 'r' {
        Some("\r")
    } else if e == 'b' {
        Some("\u{8}")
    } else if e == 'f' {
        Some("\u{c}")
    } else {
        None
    };
    proof {
        match (r, esc_char(e)) {
            (Some(t), Some(c)) => {
                assert(t@ =~= seq![c]);
            },
            _ => {},
        }
    }
    r
}

fn p_string(s: &str, i: usize) -> (r: Option<(String, usize)>)
    requires
        i <= s@.len(),
    ensures
        match r {
            Some(p) => spec_string(s@, i as int) == Some((p.0@, p.1 as int)),
            None => spec_string(s@, i as int) is None,
        },
    decreases s@.len() - i,
{
    let n = s.unicode_len();
    if i >= n {
        return None;
    }
    let c = s.get_char(i);
    if c == '"' {
        return Some((String::new(), i + 1));
    }
    if c == '\\' {
        if i + 1 >= n {
            return None;
        }
        let e = s.get_char(i + 1);
        match esc_str(e) {
            Some(d) => match p_string(s, i + 2) {
                Some((rest, j)) => {
                    let whole = d.to_owned().concat(rest.as_str());
                    proof {
                        assert(whole@ =~= d@ + rest@);
                    }
                    Some((whole, j))
                },
                None => None,
            },
            None => None,
        }
    } else if (c as u32) < 32 {
        None
    } else {
        match p_string(s, i + 1) {
            Some((rest, j)) => {
                let head = s.substring_char(i, i + 1);
                let whole = head.to_owned().concat(rest.as_str());
                proof {
                    assert(whole@ =~= seq![s@[i as int]] + rest@);
                }
                Some((whole, j))
            },
            None => None,
        }
    }
}

fn p_number(s: &str, i: usize) -> (r: Option<(String, usize)>)
    requires
        i <= s@.len(),
    ensures
        match r {
            Some(p) => spec_number(s@, i as int) == Some((p.0@, p.1 as int)),
            None => spec_number(s@, i as int) is None,
        },
{
    let n = s.unicode_len();
    let j0 = if i < n && s.get_char(i) == '-' {
        i + 1
    } else {
        i
    };
    if j0 >= n {
        return None;
    }
    let cj = s.get_char(j0);
    if !('0' <= cj && cj <= '9') {
        return None;
    }
    let ie = if cj == '0' {
        j0 + 1
    } else {
        digits_skip(s, j0)
    };
    let fe = if ie < n && s.get_char(ie) == '.' {
        if ie + 1 < n {
            let cf = s.get_char(ie + 1);
            if '0' <= cf && cf <= '9' {
                digits_skip(s, ie + 1)
            } else {
                return None;
            }
        } else {
            return None;
        }
    } else {
        ie
    };
    let end = if fe < n {
        let ce = s.get_char(fe);
        if ce == 'e' || ce == 'E' {
            let k = if fe + 1 < n {
                let cs2 = s.get_char(fe + 1);
                if cs2 == '+' || cs2 == '-' {
                    fe + 2
                } else {
                    fe + 1
                }
            } else {
                fe + 1
            };
            if k < n {
                let ck = s.get_char(k);
                if '0' <= ck && ck <= '9' {
                    digits_skip(s, k)
                } else {
                    return None;
                }
            } else {
                return None;
            }
        } else {
            fe
        }
    } else {
        fe
    };
    Some((s.substring_char(i, end).to_owned(), end))
}

fn obj_contains_key(fs: &Vec<(String, JsonValue)>, key: &String) -> (r: bool)
    ensures
        r == exists|x: int|
            0 <= x < obj_view(fs@).len() && (#[trigger] obj_view(fs@)[x]).0 == key@,
{
    proof {
        lemma_obj_view_len(fs@);
    }
    let mut x: usize = 0;
    while x < fs.len()
        invariant
            x <= fs@.len(),
            obj_view(fs@).len() == fs@.len(),
            forall|y: int|
                0 <= y < fs@.len() ==> (#[trigger] obj_view(fs@)[y]) == (
                    fs@[y].0@,
                    crate::tree::tree_view(fs@[y].1),
                ),
            forall|y: int| 0 <= y < x ==> (#[trigger] obj_view(fs@)[y]).0 != key@,
        decreases fs@.len() - x,
    {
        if fs[x].0.eq(key) {
            assert(obj_view(fs@)[x as int].0 == key@);
            return true;
        }
        x = x + 1;
    }
    false
}

fn p_value(s: &str, i: usize) -> (r: Option<(JsonValue, usize)>)
    requires
        i <= s@.len(),
    ensures
        match r {
            Some(p) => spec_value(s@, i as int) == Some((p.0@, p.1 as int)),
            None => spec_value(s@, i as int) is None,
        },
    decreases s@.len() - i, 0int,
{
    let n = s.unicode_len();
    if i >= n {
        return None;
    }
    let c = s.get_char(i);
    if c == '"' {
        match p_string(s, i + 1) {
            Some((cs, j)) => Some((JsonValue::Str(cs), j)),
            None => None,
        }
    } else if c == 't' {
        if n - i >= 4 && s.get_char(i + 1) == 'r' && s.get_char(i + 2) == 'u' && s.get_char(i + 3)
            == 'e' {
            Some((JsonValue::Bool(true), i + 4))
        } else {
            None
        }
    } else if c == 'f' {
        if n - i >= 5 && s.get_char(i + 1) == 'a' && s.get_char(i + 2) == 'l' && s.get_char(i + 3)
            == 's' && s.get_char(i + 4) == 'e' {
            Some((JsonValue::Bool(false), i + 5))
        } else {
            None
        }
    } else if c == 'n' {
        if n - i >= 4 && s.get_char(i + 1) == 'u' && s.get_char(i + 2) == 'l' && s.get_char(i + 3)
            == 'l' {
            Some((JsonValue::Null, i + 4))
        } else {
            None
        }
    } else if c == '[' {
        let j = ws_skip(s, i + 1);
        if j < n && s.get_char(j) == ']' {
            let v = JsonValue::Arr(Vec::new());
            proof {
                assert(v@ =~~= TreeV::Arr(Seq::empty()));
            }
            Some((v, j + 1))
        } else {
            match p_elems(s, j) {
                Some((ve, k)) => Some((JsonValue::Arr(ve), k)),
                None => None,
            }
        }
    } else if c == '{' {
        let j = ws_skip(s, i + 1);
        if j < n && s.get_char(j) == '}' {
            let v = JsonValue::Obj(Vec::new());
            proof {
                assert(v@ =~~= TreeV::Obj(Seq::empty()));
            }
            Some((v, j + 1))
        } else {
            match p_members(s, j) {
                Some((fs, k)) => Some((JsonValue::Obj(fs), k)),
                None => None,
            }
        }
    } else if c == '-' || ('0' <= c && c <= '9') {
        match p_number(s, i) {
            Some((cs, j)) => Some((JsonValue::Num(cs), j)),
            None => None,
        }
    } else {
        None
    }
}

fn p_elems(s: &str, i: usize) -> (r: Option<(Vec<JsonValue>, usize)>)
    requires
        i <= s@.len(),
    ensures
        match r {
            Some(p) => spec_elems(s@, i as int) == Some((arr_view(p.0@), p.1 as int)),
            None => spec_elems(s@, i as int) is None,
        },
    decreases s@.len() - i, 1int,
{
    let n = s.unicode_len();
    match p_value(s, i) {
        None => None,
        Some((v, j)) => {
            if j <= i || j > n {
                return None;
            }
            let k = ws_skip(s, j);
            if k < n && s.get_char(k) == ',' {
                let m = ws_skip(s, k + 1);
                if m <= i {
                    return None;
                }
                match p_elems(s, m) {
                    Some((rest, e)) => {
                        let ghost old_rest = rest@;
                        let mut rest = rest;
                        rest.insert(0, v);
                        proof {
                            lemma_arr_view_len(old_rest);
                            lemma_arr_view_len(rest@);
                            assert(rest@ =~= seq![v] + old_rest);
                            assert(arr_view(rest@) =~= seq![v@] + arr_view(old_rest));
                        }
                        Some((rest, e))
                    },
                    None => None,
                }
            } else if k < n && s.get_char(k) == ']' {
                let mut ve: Vec<JsonValue> = Vec::new();
                let ghost vv = v@;
                ve.push(v);
                proof {
                    lemma_arr_view_len(ve@);
                    assert(arr_view(ve@) =~= seq![vv]);
                }
                Some((ve, k + 1))
            } else {
                None
            }
        },
    }
}

fn p_members(s: &str, i: usize) -> (r: Option<(Vec<(String, JsonValue)>, usize)>)
    requires
        i <= s@.len(),
    ensures
        match r {
            Some(p) => spec_members(s@, i as int) == Some((obj_view(p.0@), p.1 as int)),
            None => spec_members(s@, i as int) is None,
        },
    decreases s@.len() - i, 1int,
{
    let n = s.unicode_len();
    if i >= n {
        return None;
    }
    if s.get_char(i) != '"' {
        return None;
    }
    match p_string(s, i + 1) {
        None => None,
        Some((key, j)) => {
            if j <= i || j > n {
                return None;
            }
            let k = ws_skip(s, j);
            if k < n && s.get_char(k) == ':' {
                let m = ws_skip(s, k + 1);
                match p_value(s, m) {
                    Some((v, e)) => {
                        if e <= i || e > n {
                            return None;
                        }
                        let p = ws_skip(s, e);
                        if p < n && s.get_char(p) == ',' {
                            let q = ws_skip(s, p + 1);
                            match p_members(s, q) {
                                Some((rest, z)) => {
                                    if obj_contains_key(&rest, &key) {
                                        None
                                    } else {
                                        let ghost old_rest = rest@;
                                        let ghost kv = key@;
                                        let ghost vv = v@;
                                        let mut rest = rest;
                                        rest.insert(0, (key, v));
                                        proof {
                                            lemma_obj_view_len(old_rest);
                                            lemma_obj_view_len(rest@);
                                            assert(obj_view(rest@) =~= seq![(kv, vv)]
                                                + obj_view(old_rest));
                                        }
                                        Some((rest, z))
                                    }
                                },
                                None => None,
                            }
                        } else if p < n && s.get_char(p) == '}' {
                            let mut fs: Vec<(String, JsonValue)> = Vec::new();
                            let ghost kv = key@;
                            let ghost vv = v@;
                            fs.push((key, v));
                            proof {
                                lemma_obj_view_len(fs@);
                                assert(obj_view(fs@) =~= seq![(kv, vv)]);
                            }
                            Some((fs, p + 1))
                        } else {
                            None
                        }
                    },
                    None => None,
                }
            } else {
                None
            }
        },
    }
}

/// Parses a whole text into a tree value. Returns `JsonError` exactly when
/// the text is not a single well-formed value (with optional surrounding
/// whitespace) under this module's grammar.
pub fn parse_json(input: &str) -> (r: Result<JsonValue, crate::ParseError>)
    ensures
        match r {
            Ok(v) => spec_parse_json(input@) == Some(v@),
            Err(e) => spec_parse_json(input@) is None && e matches crate::ParseError::JsonError(
                _,
            ),
        },
{
    let n = input.unicode_len();
    let i = ws_skip(input, 0);
    match p_value(input, i) {
        Some((v, j)) => {
            if j <= n && ws_skip(input, j) == n {
                Ok(v)
            } else {
                Err(crate::ParseError::JsonError("input is not a single well-formed value".to_owned()))
            }
        },
        None => Err(
            crate::ParseError::JsonError("input is not a single well-formed value".to_owned()),
        ),
    }
}

} // verus!
