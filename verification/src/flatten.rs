//! Flattener: walks a nested tree value and produces a flat ordered
//! mapping from dotted, index-annotated path to scalar string.
//!
//! Scalars render as themselves (null as the empty string); an array
//! element `i` under path `p` flattens under `p.i`, an object field `k`
//! under `p.k`; the first path segment has no leading separator. Empty
//! arrays and objects keep one entry whose value is the sentinel `[]` or
//! `{}`, distinguishable from an empty string. Past a fixed recursion
//! depth the subtree is rendered as one opaque string instead of being
//! walked further.

use vstd::prelude::*;

use crate::tree::{
    arr_view, lemma_arr_view_len, lemma_obj_view_len, obj_view, render_tree, spec_render,
    tree_view, u64_to_string, dec_str, JsonValue, TreeV,
};

verus! {

/// The flattener walks at most this many levels deep; deeper subtrees are
/// rendered as one opaque string.
pub const DEPTH_LIMIT: u32 = 64;

/// One flat row: an ordered mapping from string path to string value.
#[derive(Debug, Clone, PartialEq, Eq)]
pub struct FlatRow {
    pub entries: Vec<(String, String)>,
}

impl View for FlatRow {
    type V = Seq<(Seq<char>, Seq<char>)>;

    open spec fn view(&self) -> Seq<(Seq<char>, Seq<char>)> {
        self.entries@.map_values(|p: (String, String)| (p.0@, p.1@))
    }
}

impl FlatRow {
    /// A row with no entries.
    pub fn new() -> (r: FlatRow)
        ensures
            r@ == Seq::<(Seq<char>, Seq<char>)>::empty(),
    {
        let r = FlatRow { entries: Vec::new() };
        proof {
            assert(r@ =~= Seq::<(Seq<char>, Seq<char>)>::empty());
        }
        r
    }

    /// The number of entries.
    pub fn len(&self) -> (n: usize)
        ensures
            n == self@.len(),
    {
        self.entries.len()
    }
}

/// A child path: the segment itself at top level, otherwise the prefix,
/// a dot, and the segment.
pub open spec fn path_join(p: Seq<char>, seg: Seq<char>) -> Seq<char> {
    if p.len() == 0 {
        seg
    } else {
        p + seq!['.'] + seg
    }
}

pub fn path_join_exec(p: &String, seg: &String) -> (r: String)
    ensures
        r@ == path_join(p@, seg@),
{
    if p.as_str().unicode_len() == 0 {
        let r = seg.clone();
        proof {
            assert(r@ =~= path_join(p@, seg@));
        }
        r
    } else {
        proof {
            reveal_strlit(".");
        }
        let mut r = p.clone();
        r.append(".");
        r.append(seg.as_str());
        proof {
            assert(r@ =~= path_join(p@, seg@));
        }
        r
    }
}

/// The flat entries of `v` under path `prefix` with `budget` levels of
/// recursion left.
pub open spec fn spec_flatten(v: TreeV, prefix: Seq<char>, budget: nat) -> Seq<
    (Seq<char>, Seq<char>),
>
    decreases v, 0int, 0int,
{
    if budget == 0 {
        seq![(prefix, spec_render(v))]
    } else {
        match v {
            TreeV::Null => seq![(prefix, Seq::<char>::empty())],
            TreeV::Bool(b) => seq![
                (
                    prefix,
                    if b {
                        seq!['t', 'r', 'u', 'e']
                    } else {
                        seq!['f', 'a', 'l', 's', 'e']
                    },
                ),
            ],
            TreeV::Num(s) => seq![(prefix, s)],
            TreeV::Str(s) => seq![(prefix, s)],
            TreeV::Arr(es) => if es.len() == 0 {
                seq![(prefix, seq!['[', ']'])]
            } else {
                flatten_items(es, prefix, 0, (budget - 1) as nat)
            },
            TreeV::Obj(fs) => if fs.len() == 0 {
                seq![(prefix, seq!['{', '}'])]
            } else {
                flatten_fields(fs, prefix, 0, (budget - 1) as nat)
            },
        }
    }
}

pub open spec fn flatten_items(
    es: Seq<TreeV>,
    prefix: Seq<char>,
    i: int,
    budget: nat,
) -> Seq<(Seq<char>, Seq<char>)>
    decreases es, 1int, es.len() - i,
    when 0 <= i <= es.len()
{
    if i >= es.len() {
        Seq::empty()
    } else {
        spec_flatten(es[i], path_join(prefix, dec_str(i)), budget) + flatten_items(
            es,
            prefix,
            i + 1,
            budget,
        )
    }
}

pub open spec fn flatten_fields(
    fs: Seq<(Seq<char>, TreeV)>,
    prefix: Seq<char>,
    i: int,
    budget: nat,
) -> Seq<(Seq<char>, Seq<char>)>
    decreases fs, 1int, fs.len() - i,
    when 0 <= i <= fs.len()
    via flatten_fields_dec
{
    if i >= fs.len() {
        Seq::empty()
    } else {
        spec_flatten(fs[i].1, path_join(prefix, fs[i].0), budget) + flatten_fields(
            fs,
            prefix,
            i + 1,
            budget,
        )
    }
}

#[via_fn]
proof fn flatten_fields_dec(fs: Seq<(Seq<char>, TreeV)>, prefix: Seq<char>, i: int, budget: nat) {
    if 0 <= i < fs.len() {
        assert(decreases_to!(fs => fs[i]));
        assert(decreases_to!(fs[i] => fs[i].1));
        assert(decreases_to!(fs => fs[i].1));
    }
}

fn flatten_at(v: &JsonValue, prefix: &String, budget: u32, out: &mut FlatRow)
    ensures
        final(out)@ == old(out)@ + spec_flatten(v@, prefix@, budget as nat),
    decreases *v, 0int, 0int,
{
    if budget == 0 {
        let rendered = render_tree(v);
        out.entries.push((prefix.clone(), rendered));
        proof {
            assert(out@ =~= old(out)@ + spec_flatten(v@, prefix@, budget as nat));
        }
        return ;
    }
    match v {
        JsonValue::Null => {
            out.entries.push((prefix.clone(), String::new()));
            proof {
                assert(out@ =~= old(out)@ + spec_flatten(v@, prefix@, budget as nat));
            }
        },
        JsonValue::Bool(b) => {
            proof {
                reveal_strlit("true");
                reveal_strlit("false");
            }
            let s: String = if *b {
                "true".to_owned()
            } else {
                "false".to_owned()
            };
            out.entries.push((prefix.clone(), s));
            proof {
                assert(out@ =~~= old(out)@ + spec_flatten(v@, prefix@, budget as nat));
            }
        },
        JsonValue::Num(s) => {
            out.entries.push((prefix.clone(), s.clone()));
            proof {
                assert(out@ =~= old(out)@ + spec_flatten(v@, prefix@, budget as nat));
            }
        },
        JsonValue::Str(s) => {
            out.entries.push((prefix.clone(), s.clone()));
            proof {
                assert(out@ =~= old(out)@ + spec_flatten(v@, prefix@, budget as nat));
            }
        },
        JsonValue::Arr(a) => {
            proof {
                lemma_arr_view_len(a@);
            }
            if a.len() == 0 {
                proof {
                    reveal_strlit("[]");
                }
                out.entries.push((prefix.clone(), "[]".to_owned()));
                proof {
                    assert(out@ =~~= old(out)@ + spec_flatten(v@, prefix@, budget as nat));
                }
            } else {
                flatten_items_at(a, prefix, 0, budget - 1, out);
                proof {
                    assert(out@ =~= old(out)@ + spec_flatten(v@, prefix@, budget as nat));
                }
            }
        },
        JsonValue::Obj(fs) => {
            proof {
                lemma_obj_view_len(fs@);
            }
            if fs.len() == 0 {
                proof {
                    reveal_strlit("{}");
                }
                out.entries.push((prefix.clone(), "{}".to_owned()));
                proof {
                    assert(out@ =~~= old(out)@ + spec_flatten(v@, prefix@, budget as nat));
                }
            } else {
                flatten_fields_at(fs, prefix, 0, budget - 1, out);
                proof {
                    assert(out@ =~= old(out)@ + spec_flatten(v@, prefix@, budget as nat));
                }
            }
        },
    }
}

fn flatten_items_at(a: &Vec<JsonValue>, prefix: &String, i: usize, budget: u32, out: &mut FlatRow)
    requires
        i <= a@.len(),
    ensures
        final(out)@ == old(out)@ + flatten_items(arr_view(a@), prefix@, i as int, budget as nat),
    decreases *a, 1int, a@.len() - i,
{
    proof {
        lemma_arr_view_len(a@);
    }
    if i >= a.len() {
        proof {
            assert(out@ =~= old(out)@ + flatten_items(
                arr_view(a@),
                prefix@,
                i as int,
                budget as nat,
            ));
        }
        return ;
    }
    let seg = u64_to_string(i as u64);
    let child = path_join_exec(prefix, &seg);
    flatten_at(&a[i], &child, budget, out);
    flatten_items_at(a, prefix, i + 1, budget, out);
    proof {
        assert(out@ =~= old(out)@ + flatten_items(
            arr_view(a@),
            prefix@,
            i as int,
            budget as nat,
        ));
    }
}

fn flatten_fields_at(
    fs: &Vec<(String, JsonValue)>,
    prefix: &String,
    i: usize,
    budget: u32,
    out: &mut FlatRow,
)
    requires
        i <= fs@.len(),
    ensures
        final(out)@ == old(out)@ + flatten_fields(obj_view(fs@), prefix@, i as int, budget as nat),
    decreases *fs, 1int, fs@.len() - i,
{
    proof {
        lemma_obj_view_len(fs@);
    }
    if i >= fs.len() {
        proof {
            assert(out@ =~= old(out)@ + flatten_fields(
                obj_view(fs@),
                prefix@,
                i as int,
                budget as nat,
            ));
        }
        return ;
    }
    let child = path_join_exec(prefix, &fs[i].0);
    flatten_at(&fs[i].1, &child, budget, out);
    flatten_fields_at(fs, prefix, i + 1, budget, out);
    proof {
        assert(out@ =~= old(out)@ + flatten_fields(
            obj_view(fs@),
            prefix@,
            i as int,
            budget as nat,
        ));
    }
}

/// Flattens `value` under `prefix` (empty for the top level), appending
/// the entries to `out` in the tree's own order. Deterministic: the same
/// tree and prefix always append the same entries.
pub fn flatten_json(value: &JsonValue, prefix: String, out: &mut FlatRow)
    ensures
        final(out)@ == old(out)@ + spec_flatten(value@, prefix@, DEPTH_LIMIT as nat),
{
    flatten_at(value, &prefix, DEPTH_LIMIT, out)
}

/// The tree a row unflattens to when every entry is read as a string
/// field of one object: the inverse of flattening for single-level
/// string-valued objects (see the flat round-trip law).
pub open spec fn spec_unflatten_flat(row: Seq<(Seq<char>, Seq<char>)>) -> TreeV {
    TreeV::Obj(Seq::new(row.len(), |i: int| (row[i].0, TreeV::Str(row[i].1))))
}

/// Rebuilds a tree from a row, reading every entry as one string field.
pub fn unflatten_flat(row: &FlatRow) -> (r: JsonValue)
    ensures
        r@ == spec_unflatten_flat(row@),
{
    let mut fs: Vec<(String, JsonValue)> = Vec::new();
    let mut i: usize = 0;
    while i < row.entries.len()
        invariant
            i <= row.entries@.len(),
            row@.len() == row.entries@.len(),
            fs@.len() == i,
            forall|k: int|
                0 <= k < i ==> (#[trigger] fs@[k]).0@ == row@[k].0 && tree_view(fs@[k].1)
                    == TreeV::Str(row@[k].1),
        decreases row.entries@.len() - i,
    {
        let p = row.entries[i].0.clone();
        let v = row.entries[i].1.clone();
        fs.push((p, JsonValue::Str(v)));
        proof {
            assert(row@[i as int] == (row.entries@[i as int].0@, row.entries@[i as int].1@));
        }
        i = i + 1;
    }
    let ghost fsv = fs@;
    let r = JsonValue::Obj(fs);
    proof {
        match &r {
            JsonValue::Obj(fv) => {
                crate::tree::lemma_obj_view_len(fv@);
                assert(fv@ == fsv);
                assert forall|k: int|
                    0 <= k < fsv.len() implies crate::tree::obj_view(fv@)[k] == (
                    row@[k].0,
                    TreeV::Str(row@[k].1),
                ) by {
                    assert(fsv[k].0@ == row@[k].0);
                    assert(tree_view(fsv[k].1) == TreeV::Str(row@[k].1));
                }
                assert(obj_view(fv@) =~= Seq::new(
                    row@.len(),
                    |i: int| (row@[i].0, TreeV::Str(row@[i].1)),
                ));
                assert(r@ == spec_unflatten_flat(row@));
            },
            _ => {},
        }
        assert(r@ == spec_unflatten_flat(row@));
    }
    r
}

} // verus!
