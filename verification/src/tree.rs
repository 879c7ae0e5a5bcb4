//! The nested tree value that the flattener and the tabular writer work
//! on: a JSON-like value with null, boolean, number, string, ordered-array
//! and ordered-object variants.
//!
//! Numbers are carried as their decimal text, exactly as written in the
//! source, so no precision is lost and their rendering is stable.

use vstd::prelude::*;

verus! {

/// A nested tree value. Arrays and objects keep their own order; object
/// keys are expected to be unique (see [`tree_wf`]).
#[derive(Debug, PartialEq, Eq)]
pub enum JsonValue {
    Null,
    Bool(bool),
    Num(String),
    Str(String),
    Arr(Vec<JsonValue>),
    Obj(Vec<(String, JsonValue)>),
}

/// The mathematical value of a [`JsonValue`].
#[verifier::ext_equal]
pub enum TreeV {
    Null,
    Bool(bool),
    Num(Seq<char>),
    Str(Seq<char>),
    Arr(Seq<TreeV>),
    Obj(Seq<(Seq<char>, TreeV)>),
}

pub open spec fn tree_view(v: JsonValue) -> TreeV
    decreases v, 0int,
    via tree_view_dec
{
    match v {
        JsonValue::Null => TreeV::Null,
        JsonValue::Bool(b) => TreeV::Bool(b),
        JsonValue::Num(s) => TreeV::Num(s@),
        JsonValue::Str(s) => TreeV::Str(s@),
        JsonValue::Arr(a) => TreeV::Arr(arr_view(a@)),
        JsonValue::Obj(fs) => TreeV::Obj(obj_view(fs@)),
    }
}

#[via_fn]
proof fn tree_view_dec(v: JsonValue) {
    match v {
        JsonValue::Arr(a) => {
            assert(decreases_to!(v => a));
            assert(decreases_to!(a => a@));
        },
        JsonValue::Obj(fs) => {
            assert(decreases_to!(v => fs));
            assert(decreases_to!(fs => fs@));
        },
        _ => {},
    }
}

/// The element-wise view of an array's contents.
pub open spec fn arr_view(a: Seq<JsonValue>) -> Seq<TreeV>
    decreases a, 1int,
{
    if a.len() == 0 {
        Seq::empty()
    } else {
        arr_view(a.drop_last()).push(tree_view(a.last()))
    }
}

/// The field-wise view of an object's contents.
pub open spec fn obj_view(fs: Seq<(String, JsonValue)>) -> Seq<(Seq<char>, TreeV)>
    decreases fs, 1int,
    via obj_view_dec
{
    if fs.len() == 0 {
        Seq::empty()
    } else {
        obj_view(fs.drop_last()).push((fs.last().0@, tree_view(fs.last().1)))
    }
}

#[via_fn]
proof fn obj_view_dec(fs: Seq<(String, JsonValue)>) {
    if fs.len() > 0 {
        assert(decreases_to!(fs => fs.last()));
        assert(decreases_to!(fs.last() => fs.last().1));
    }
}

pub proof fn lemma_arr_view_len(a: Seq<JsonValue>)
    ensures
        arr_view(a).len() == a.len(),
        forall|i: int| 0 <= i < a.len() ==> arr_view(a)[i] == tree_view(a[i]),
    decreases a.len(),
{
    if a.len() > 0 {
        lemma_arr_view_len(a.drop_last());
    }
}

pub proof fn lemma_obj_view_len(fs: Seq<(String, JsonValue)>)
    ensures
        obj_view(fs).len() == fs.len(),
        forall|i: int|
            0 <= i < fs.len() ==> obj_view(fs)[i] == (fs[i].0@, tree_view(fs[i].1)),
    decreases fs.len(),
{
    if fs.len() > 0 {
        lemma_obj_view_len(fs.drop_last());
    }
}

impl View for JsonValue {
    type V = TreeV;

    open spec fn view(&self) -> TreeV {
        tree_view(*self)
    }
}

/// Well-formedness of a tree: every object's keys are unique, recursively.
pub open spec fn tree_wf(v: TreeV) -> bool
    decreases v, 0int,
{
    match v {
        TreeV::Arr(es) => forall|i: int| 0 <= i < es.len() ==> tree_wf(#[trigger] es[i]),
        TreeV::Obj(fs) => (forall|i: int, j: int|
            0 <= i < j < fs.len() ==> (#[trigger] fs[i]).0 != (#[trigger] fs[j]).0) && forall|
            i: int,
        | 0 <= i < fs.len() ==> tree_wf((#[trigger] fs[i]).1),
        _ => true,
    }
}

// ---------------------------------------------------------------------------
// Decimal rendering of integers
// ---------------------------------------------------------------------------
pub open spec fn digit_char(d: int) -> char {
    if d == 0 {
        '0'
    } else if d == 1 {
        '1'
    } else if d == 2 {
        '2'
    } else if d == 3 {
        '3'
    } else if d == 4 {
        '4'
    } else if d == 5 {
        '5'
    } else if d == 6 {
        '6'
    } else if d == 7 {
        '7'
    } else if d == 8 {
        '8'
    } else {
        '9'
    }
}

/// The decimal rendering of a non-negative integer.
pub open spec fn dec_str(n: int) -> Seq<char>
    decreases n,
{
    if n < 10 {
        seq![digit_char(n)]
    } else {
        dec_str(n / 10) + seq![digit_char(n % 10)]
    }
}

/// The decimal rendering of an integer, with a leading minus sign when
/// negative.
pub open spec fn int_str(i: int) -> Seq<char> {
    if i < 0 {
        seq!['-'] + dec_str(-i)
    } else {
        dec_str(i)
    }
}

fn digit_str(d: u64) -> (r: &'static str)
    requires
        d < 10,
    ensures
        r@ == seq![digit_char(d as int)],
{
    proof {
        reveal_strlit("0");
        reveal_strlit("1");
        reveal_strlit("2");
        reveal_strlit("3");
        reveal_strlit("4");
        reveal_strlit("5");
        reveal_strlit("6");
        reveal_strlit("7");
        reveal_strlit("8");
        reveal_strlit("9");
    }
    let r = if d == 0 {
        "0"
    } else if d == 1 {
        "1"
    } else if d == 2 {
        "2"
    } else if d == 3 {
        "3"
    } else if d == 4 {
        "4"
    } else if d == 5 {
        "5"
    } else if d == 6 {
        "6"
    } else if d == 7 {
        "7"
    } else {
        "8"
    };
    let r = if d == 9 {
        "9"
    } else {
        r
    };
    proof {
        assert(r@ =~= seq![digit_char(d as int)]);
    }
    r
}

/// Renders a non-negative integer in decimal.
pub fn u64_to_string(n: u64) -> (r: String)
    ensures
        r@ == dec_str(n as int),
    decreases n,
{
    if n < 10 {
        digit_str(n).to_owned()
    } else {
        let mut s = u64_to_string(n / 10);
        s.append(digit_str(n % 10));
        proof {
            assert(s@ =~= dec_str(n as int));
        }
        s
    }
}

/// Renders a signed integer in decimal.
pub fn i64_to_string(n: i64) -> (r: String)
    requires
        n > i64::MIN,
    ensures
        r@ == int_str(n as int),
{
    if n < 0 {
        proof {
            reveal_strlit("-");
        }
        let mut s: String = "-".to_owned();
        let m: i64 = -n;
        s.append(u64_to_string(m as u64).as_str());
        proof {
            assert(s@ =~= int_str(n as int));
        }
        s
    } else {
        u64_to_string(n as u64)
    }
}

// ---------------------------------------------------------------------------
// Compact rendering of a whole tree
// ---------------------------------------------------------------------------
/// The compact one-line rendering of a tree value. String contents are
/// copied as they stand; this rendering is for display and for subtrees
/// past the flattener's depth limit, not for strict re-serialization.
pub open spec fn spec_render(v: TreeV) -> Seq<char>
    decreases v, 0int, 0int,
{
    match v {
        TreeV::Null => seq!['n', 'u', 'l', 'l'],
        TreeV::Bool(b) => if b {
            seq!['t', 'r', 'u', 'e']
        } else {
            seq!['f', 'a', 'l', 's', 'e']
        },
        TreeV::Num(s) => s,
        TreeV::Str(s) => seq!['"'] + s + seq!['"'],
        TreeV::Arr(es) => seq!['['] + render_items(es, 0) + seq![']'],
        TreeV::Obj(fs) => seq!['{'] + render_fields(fs, 0) + seq!['}'],
    }
}

pub open spec fn render_items(es: Seq<TreeV>, i: int) -> Seq<char>
    decreases es, 1int, es.len() - i,
    when 0 <= i <= es.len()
{
    if i >= es.len() {
        Seq::empty()
    } else if i + 1 < es.len() {
        spec_render(es[i]) + seq![','] + render_items(es, i + 1)
    } else {
        spec_render(es[i])
    }
}

pub open spec fn render_fields(fs: Seq<(Seq<char>, TreeV)>, i: int) -> Seq<char>
    decreases fs, 1int, fs.len() - i,
    when 0 <= i <= fs.len()
{
    if i >= fs.len() {
        Seq::empty()
    } else {
        let one = seq!['"'] + fs[i].0 + seq!['"', ':'] + spec_render(fs[i].1);
        if i + 1 < fs.len() {
            one + seq![','] + render_fields(fs, i + 1)
        } else {
            one
        }
    }
}

/// Renders a tree value compactly on one line.
pub fn render_tree(v: &JsonValue) -> (r: String)
    ensures
        r@ == spec_render(v@),
    decreases *v, 0int, 0int,
{
    proof {
        reveal_strlit("null");
        reveal_strlit("true");
        reveal_strlit("false");
        reveal_strlit("\"");
    }
    match v {
        JsonValue::Null => {
            let r: String = "null".to_owned();
            proof {
                assert(r@ =~= spec_render(v@));
            }
            r
        },
        JsonValue::Bool(b) => {
            let r: String = if *b {
                "true".to_owned()
            } else {
                "false".to_owned()
            };
            proof {
                assert(r@ =~= spec_render(v@));
            }
            r
        },
        JsonValue::Num(s) => s.clone(),
        JsonValue::Str(s) => {
            let mut r: String = "\"".to_owned();
            r.append(s.as_str());
            r.append("\"");
            proof {
                assert(r@ =~= spec_render(v@));
            }
            r
        },
        JsonValue::Arr(a) => {
            proof {
                reveal_strlit("[");
                reveal_strlit("]");
            }
            let mut r: String = "[".to_owned();
            r.append(render_items_exec(a, 0).as_str());
            r.append("]");
            proof {
                assert(r@ =~= spec_render(v@));
            }
            r
        },
        JsonValue::Obj(fs) => {
            proof {
                reveal_strlit("{");
                reveal_strlit("}");
            }
            let mut r: String = "{".to_owned();
            r.append(render_fields_exec(fs, 0).as_str());
            r.append("}");
            proof {
                assert(r@ =~= spec_render(v@));
            }
            r
        },
    }
}

fn render_items_exec(a: &Vec<JsonValue>, i: usize) -> (r: String)
    requires
        i <= a@.len(),
    ensures
        r@ == render_items(arr_view(a@), i as int),
    decreases *a, 1int, a@.len() - i,
{
    if i >= a.len() {
        proof {
            lemma_arr_view_len(a@);
        }
        String::new()
    } else {
        proof {
            lemma_arr_view_len(a@);
        }
        let mut r = render_tree(&a[i]);
        if i + 1 < a.len() {
            proof {
                reveal_strlit(",");
            }
            r.append(",");
            r.append(render_items_exec(a, i + 1).as_str());
        }
        proof {
            lemma_arr_view_len(a@);
            assert(r@ =~= render_items(arr_view(a@), i as int));
        }
        r
    }
}

fn render_fields_exec(fs: &Vec<(String, JsonValue)>, i: usize) -> (r: String)
    requires
        i <= fs@.len(),
    ensures
        r@ == render_fields(obj_view(fs@), i as int),
    decreases *fs, 1int, fs@.len() - i,
{
    if i >= fs.len() {
        proof {
            lemma_obj_view_len(fs@);
        }
        String::new()
    } else {
        proof {
            lemma_obj_view_len(fs@);
            reveal_strlit("\"");
            reveal_strlit("\":");
        }
        let mut r: String = "\"".to_owned();
        r.append(fs[i].0.as_str());
        r.append("\":");
        r.append(render_tree(&fs[i].1).as_str());
        if i + 1 < fs.len() {
            proof {
                reveal_strlit(",");
            }
            r.append(",");
            r.append(render_fields_exec(fs, i + 1).as_str());
        }
        proof {
            lemma_obj_view_len(fs@);
            assert(r@ =~= render_fields(obj_view(fs@), i as int));
        }
        r
    }
}

} // verus!
