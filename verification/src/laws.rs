//! The library's cross-cutting laws, stated and proved over the same
//! specification functions that the executable functions are verified
//! against.

use vstd::prelude::*;

use crate::assemble::{
    empty_obs, spec_assemble, spec_assemble_from, is_rmk, spec_step, AsmState, ObsV,
};
use crate::csv::{add_new, header_from, header_of, RowV};
use crate::flatten::{flatten_fields, path_join, spec_flatten, spec_unflatten_flat, DEPTH_LIMIT};
use crate::tree::TreeV;
use crate::groups::{spec_station, spec_timestamp};
use crate::scan::{
    is_ws_char, lemma_tok_end_bounds, spec_join_tokens, spec_normalize, spec_tokens,
    spec_tokens_from, tok_end,
};

verus! {

// ---------------------------------------------------------------------------
// Scanning is idempotent on already-normalized whitespace
// ---------------------------------------------------------------------------
/// A well-formed token: non-empty and free of whitespace.
pub open spec fn tok_wf(t: Seq<char>) -> bool {
    t.len() > 0 && forall|j: int| 0 <= j < t.len() ==> !is_ws_char(#[trigger] t[j])
}

pub open spec fn tokens_wf(toks: Seq<Seq<char>>) -> bool {
    forall|k: int| 0 <= k < toks.len() ==> tok_wf(#[trigger] toks[k])
}

/// Pins the end of the token starting at `i`: the first whitespace index
/// at or after `i`, or the end of the string.
proof fn lemma_tok_end_pin(s: Seq<char>, i: int, e: int)
    requires
        0 <= i <= e <= s.len(),
        forall|j: int| i <= j < e ==> !is_ws_char(#[trigger] s[j]),
        e < s.len() ==> is_ws_char(s[e]),
    ensures
        tok_end(s, i) == e,
{
    lemma_tok_end_bounds(s, i);
}

/// Every token that the scanner produces is non-empty and whitespace-free.
pub proof fn lemma_tokens_wf(s: Seq<char>, i: int)
    requires
        0 <= i <= s.len(),
    ensures
        tokens_wf(spec_tokens_from(s, i)),
    decreases s.len() - i,
{
    if i >= s.len() {
    } else if is_ws_char(s[i]) {
        lemma_tokens_wf(s, i + 1);
    } else {
        lemma_tok_end_bounds(s, i);
        let e = tok_end(s, i);
        lemma_tokens_wf(s, e);
        let t0 = s.subrange(i, e);
        assert(tok_wf(t0)) by {
            assert(forall|j: int| 0 <= j < t0.len() ==> t0[j] == s[i + j]);
        }
        let toks = spec_tokens_from(s, i);
        let rest = spec_tokens_from(s, e);
        assert(toks == seq![t0] + rest);
        assert forall|k: int| 0 <= k < toks.len() implies tok_wf(#[trigger] toks[k]) by {
            if k == 0 {
                assert(toks[0] == t0);
            } else {
                assert(toks[k] == rest[k - 1]);
            }
        }
    }
}

/// The tokens of a suffix of `s` are the tokens scanned from that index.
proof fn lemma_tokens_from_suffix(s: Seq<char>, m: int)
    requires
        0 <= m <= s.len(),
    ensures
        spec_tokens_from(s, m) == spec_tokens(s.subrange(m, s.len() as int)),
    decreases s.len() - m,
{
    let n = s.len() as int;
    let sub = s.subrange(m, n);
    assert(forall|j: int| 0 <= j < sub.len() ==> #[trigger] sub[j] == s[m + j]);
    if m >= n {
        assert(spec_tokens_from(sub, 0) == Seq::<Seq<char>>::empty());
    } else if is_ws_char(s[m]) {
        lemma_tokens_from_suffix(s, m + 1);
        lemma_tokens_from_suffix(sub, 1);
        assert(sub.subrange(1, sub.len() as int) =~= s.subrange(m + 1, n));
    } else {
        let e = tok_end(s, m);
        lemma_tok_end_bounds(s, m);
        lemma_tok_end_pin(sub, 0, e - m);
        assert(s.subrange(m, e) =~= sub.subrange(0, e - m));
        lemma_tokens_from_suffix(s, e);
        lemma_tokens_from_suffix(sub, e - m);
        assert(sub.subrange(e - m, sub.len() as int) =~= s.subrange(e, n));
    }
}

/// Joining with single spaces, seen from the front.
proof fn lemma_join_front(toks: Seq<Seq<char>>)
    requires
        toks.len() >= 2,
    ensures
        spec_join_tokens(toks) == toks[0] + seq![' '] + spec_join_tokens(toks.drop_first()),
    decreases toks.len(),
{
    if toks.len() == 2 {
        assert(toks.drop_last() =~= seq![toks[0]]);
        assert(toks.drop_first() =~= seq![toks[1]]);
        assert(spec_join_tokens(seq![toks[0]]) == toks[0]);
        assert(spec_join_tokens(seq![toks[1]]) == toks[1]);
        assert(spec_join_tokens(toks) =~= toks[0] + seq![' '] + spec_join_tokens(
            toks.drop_first(),
        ));
    } else {
        let dl = toks.drop_last();
        let df = toks.drop_first();
        lemma_join_front(dl);
        assert(dl[0] == toks[0]);
        assert(dl.drop_first() =~= df.drop_last());
        assert(df.last() == toks.last());
        assert(df.len() >= 2);
        assert(spec_join_tokens(toks) == spec_join_tokens(dl) + seq![' '] + toks.last());
        assert(spec_join_tokens(df) == spec_join_tokens(df.drop_last()) + seq![' ']
            + df.last());
        assert(spec_join_tokens(toks) =~= toks[0] + seq![' '] + spec_join_tokens(df));
    }
}

/// Scanning the space-joined form of well-formed tokens gives those tokens
/// back.
proof fn lemma_tokens_of_join(toks: Seq<Seq<char>>)
    requires
        tokens_wf(toks),
    ensures
        spec_tokens(spec_join_tokens(toks)) == toks,
    decreases toks.len(),
{
    if toks.len() == 0 {
        assert(spec_tokens(spec_join_tokens(toks)) =~= toks);
    } else if toks.len() == 1 {
        let s = toks[0];
        assert(spec_join_tokens(toks) == s);
        assert(tok_wf(s));
        lemma_tok_end_pin(s, 0, s.len() as int);
        assert(s.subrange(0, s.len() as int) =~= s);
        assert(spec_tokens_from(s, s.len() as int) == Seq::<Seq<char>>::empty());
        assert(spec_tokens(s) =~= toks);
    } else {
        lemma_join_front(toks);
        let t0 = toks[0];
        let df = toks.drop_first();
        let rest = spec_join_tokens(df);
        let s = spec_join_tokens(toks);
        assert(s == t0 + seq![' '] + rest);
        assert(s.len() == t0.len() + 1 + rest.len());
        assert(forall|j: int| 0 <= j < t0.len() ==> #[trigger] s[j] == t0[j]);
        assert(s[t0.len() as int] == ' ');
        assert(tok_wf(t0));
        lemma_tok_end_pin(s, 0, t0.len() as int);
        assert(s.subrange(0, t0.len() as int) =~= t0);
        assert(spec_tokens_from(s, t0.len() as int) == spec_tokens_from(
            s,
            t0.len() as int + 1,
        ));
        lemma_tokens_from_suffix(s, t0.len() as int + 1);
        assert(s.subrange(t0.len() as int + 1, s.len() as int) =~= rest);
        assert(tokens_wf(df)) by {
            assert(forall|k: int| 0 <= k < df.len() ==> #[trigger] df[k] == toks[k + 1]);
        }
        lemma_tokens_of_join(df);
        assert(spec_tokens(s) =~= toks);
    }
}

/// Scanning is idempotent on already-normalized whitespace: a report and
/// its whitespace-normalized form scan to the same tokens, hence to the
/// same decoded record.
pub proof fn lemma_scan_normalize_idempotent(s: Seq<char>)
    ensures
        spec_tokens(spec_normalize(s)) == spec_tokens(s),
{
    lemma_tokens_wf(s, 0);
    lemma_tokens_of_join(spec_tokens(s));
}

// ---------------------------------------------------------------------------
// Token-count conservation
// ---------------------------------------------------------------------------
/// The index of the first remarks marker at or after `i`, or the token
/// count if there is none.
pub open spec fn first_rmk_from(toks: Seq<Seq<char>>, i: int) -> int
    decreases toks.len() - i,
    when 0 <= i <= toks.len()
{
    if i >= toks.len() {
        toks.len() as int
    } else if is_rmk(toks[i]) {
        i
    } else {
        first_rmk_from(toks, i + 1)
    }
}

/// How many tokens a record accounts for: its groups plus the consumed
/// station and timestamp tokens.
pub open spec fn consumed_count(o: ObsV) -> int {
    o.groups.len() + (if o.station is Some {
        1int
    } else {
        0int
    }) + (if o.timestamp is Some {
        1int
    } else {
        0int
    })
}

proof fn lemma_count_from(toks: Seq<Seq<char>>, i: int, o: ObsV, st: AsmState)
    requires
        0 <= i <= toks.len(),
        st is ExpectingStationOrTime ==> o.timestamp is None,
    ensures
        !(st is ExpectingRemarks) ==> consumed_count(spec_assemble_from(toks, i, o, st))
            == consumed_count(o) + (first_rmk_from(toks, i) - i),
        st is ExpectingRemarks ==> consumed_count(spec_assemble_from(toks, i, o, st))
            == consumed_count(o),
    decreases toks.len() - i,
{
    if i >= toks.len() {
    } else {
        let t = toks[i];
        let (o2, s2) = spec_step(o, st, t);
        match st {
            AsmState::ExpectingStationOrTime => {
                if spec_timestamp(t) {
                    assert(!is_rmk(t));
                    lemma_count_from(toks, i + 1, o2, s2);
                } else if spec_station(t) && o.station is None {
                    assert(!is_rmk(t));
                    lemma_count_from(toks, i + 1, o2, s2);
                } else {
                    lemma_count_from(toks, i + 1, o2, s2);
                }
            },
            AsmState::ExpectingGroups => {
                lemma_count_from(toks, i + 1, o2, s2);
            },
            AsmState::ExpectingRemarks => {
                lemma_count_from(toks, i + 1, o2, s2);
            },
        }
    }
}

/// Token-count conservation: no token is ever dropped. The number of
/// decoded groups plus the consumed station and timestamp tokens equals
/// the number of tokens before the first remarks marker.
pub proof fn lemma_token_conservation(toks: Seq<Seq<char>>)
    ensures
        consumed_count(spec_assemble(toks)) == first_rmk_from(toks, 0),
{
    lemma_count_from(toks, 0, empty_obs(), AsmState::ExpectingStationOrTime);
}

// ---------------------------------------------------------------------------
// CSV header stability
// ---------------------------------------------------------------------------
/// Whether some row of the set has an entry under path `p`.
pub open spec fn rows_have_path(rows: Seq<RowV>, p: Seq<char>) -> bool {
    exists|x: int, y: int|
        0 <= x < rows.len() && 0 <= y < rows[x].len() && (#[trigger] rows[x][y]).0 == p
}

proof fn lemma_add_new_membership(acc: Seq<Seq<char>>, row: RowV, j: int, p: Seq<char>)
    requires
        0 <= j <= row.len(),
    ensures
        add_new(acc, row, j).contains(p) <==> acc.contains(p) || exists|y: int|
            j <= y < row.len() && (#[trigger] row[y]).0 == p,
    decreases row.len() - j,
{
    if j >= row.len() {
    } else {
        let acc2 = if acc.contains(row[j].0) {
            acc
        } else {
            acc.push(row[j].0)
        };
        lemma_add_new_membership(acc2, row, j + 1, p);
        assert(acc2.contains(p) <==> (acc.contains(p) || row[j].0 == p)) by {
            if acc.contains(row[j].0) {
                if row[j].0 == p {
                    assert(acc.contains(p));
                }
            } else {
                if acc.push(row[j].0).contains(p) {
                    let w = choose|w: int|
                        0 <= w < acc.push(row[j].0).len() && acc.push(row[j].0)[w] == p;
                    if w < acc.len() {
                        assert(acc[w] == p);
                        assert(acc.contains(p));
                    } else {
                        assert(row[j].0 == p);
                    }
                }
                if acc.contains(p) {
                    let w = choose|w: int| 0 <= w < acc.len() && acc[w] == p;
                    assert(acc.push(row[j].0)[w] == p);
                    assert(acc.push(row[j].0).contains(p));
                }
                if row[j].0 == p {
                    assert(acc.push(row[j].0)[acc.len() as int] == p);
                    assert(acc.push(row[j].0).contains(p));
                }
            }
        }
        assert((exists|y: int| j <= y < row.len() && (#[trigger] row[y]).0 == p) <==> (row[j].0
            == p || exists|y: int| j + 1 <= y < row.len() && (#[trigger] row[y]).0 == p)) by {
            if exists|y: int| j <= y < row.len() && (#[trigger] row[y]).0 == p {
                let y = choose|y: int| j <= y < row.len() && (#[trigger] row[y]).0 == p;
                if y == j {
                } else {
                    assert(j + 1 <= y < row.len() && row[y].0 == p);
                }
            }
        }
    }
}

proof fn lemma_header_from_membership(
    rows: Seq<RowV>,
    i: int,
    acc: Seq<Seq<char>>,
    p: Seq<char>,
)
    requires
        0 <= i <= rows.len(),
    ensures
        header_from(rows, i, acc).contains(p) <==> acc.contains(p) || exists|x: int, y: int|
            i <= x < rows.len() && 0 <= y < rows[x].len() && (#[trigger] rows[x][y]).0 == p,
    decreases rows.len() - i,
{
    if i >= rows.len() {
    } else {
        let acc2 = add_new(acc, rows[i], 0);
        lemma_header_from_membership(rows, i + 1, acc2, p);
        lemma_add_new_membership(acc, rows[i], 0, p);
        assert((exists|x: int, y: int|
            i <= x < rows.len() && 0 <= y < rows[x].len() && (#[trigger] rows[x][y]).0 == p)
            <==> ((exists|y: int| 0 <= y < rows[i].len() && (#[trigger] rows[i][y]).0 == p)
            || exists|x: int, y: int|
            i + 1 <= x < rows.len() && 0 <= y < rows[x].len() && (#[trigger] rows[x][y]).0
                == p)) by {
            if exists|x: int, y: int|
                i <= x < rows.len() && 0 <= y < rows[x].len() && (#[trigger] rows[x][y]).0
                    == p {
                let (x, y) = choose|x: int, y: int|
                    i <= x < rows.len() && 0 <= y < rows[x].len() && (#[trigger] rows[x][y]).0
                        == p;
                if x == i {
                    assert(0 <= y < rows[i].len() && rows[i][y].0 == p);
                } else {
                    assert(i + 1 <= x < rows.len() && 0 <= y < rows[x].len() && rows[x][y].0
                        == p);
                }
            }
        }
    }
}

/// A path stands in the header exactly when some row has an entry under
/// it.
pub proof fn lemma_header_membership(rows: Seq<RowV>, p: Seq<char>)
    ensures
        header_of(rows).contains(p) <==> rows_have_path(rows, p),
{
    lemma_header_from_membership(rows, 0, Seq::empty(), p);
}

/// CSV header stability: the header is a function of the given row
/// sequence alone, and its column set does not depend on the order of the
/// rows — two row sequences that are permutations of one another yield
/// headers with the same column set. (First-seen column order is fixed by
/// [`header_of`] itself.)
pub proof fn lemma_header_set_stability(r1: Seq<RowV>, r2: Seq<RowV>)
    requires
        r1.to_multiset() == r2.to_multiset(),
    ensures
        header_of(r1).to_set() == header_of(r2).to_set(),
{
    broadcast use vstd::seq_lib::group_to_multiset_ensures;

    assert forall|p: Seq<char>| rows_have_path(r1, p) implies rows_have_path(r2, p) by {
        let (x, y) = choose|x: int, y: int|
            0 <= x < r1.len() && 0 <= y < r1[x].len() && (#[trigger] r1[x][y]).0 == p;
        assert(r1.contains(r1[x]));
        assert(r1.to_multiset().count(r1[x]) > 0);
        assert(r2.contains(r1[x]));
        let x2 = choose|x2: int| 0 <= x2 < r2.len() && r2[x2] == r1[x];
        assert(0 <= x2 < r2.len() && 0 <= y < r2[x2].len() && r2[x2][y].0 == p);
    }
    assert forall|p: Seq<char>| rows_have_path(r2, p) implies rows_have_path(r1, p) by {
        let (x, y) = choose|x: int, y: int|
            0 <= x < r2.len() && 0 <= y < r2[x].len() && (#[trigger] r2[x][y]).0 == p;
        assert(r2.contains(r2[x]));
        assert(r2.to_multiset().count(r2[x]) > 0);
        assert(r1.contains(r2[x]));
        let x1 = choose|x1: int| 0 <= x1 < r1.len() && r1[x1] == r2[x];
        assert(0 <= x1 < r1.len() && 0 <= y < r1[x1].len() && r1[x1][y].0 == p);
    }
    assert forall|p: Seq<char>| #[trigger] header_of(r1).to_set().contains(p) implies header_of(
        r2,
    ).to_set().contains(p) by {
        lemma_header_membership(r1, p);
        lemma_header_membership(r2, p);
    }
    assert forall|p: Seq<char>| #[trigger] header_of(r2).to_set().contains(p) implies header_of(
        r1,
    ).to_set().contains(p) by {
        lemma_header_membership(r1, p);
        lemma_header_membership(r2, p);
    }
    assert(header_of(r1).to_set() =~= header_of(r2).to_set());
}

// ---------------------------------------------------------------------------
// Flat round trip
// ---------------------------------------------------------------------------
proof fn lemma_flatten_string_fields(fs: Seq<(Seq<char>, TreeV)>, i: int, b: nat)
    requires
        0 <= i <= fs.len(),
        b > 0,
        forall|k: int| 0 <= k < fs.len() ==> (#[trigger] fs[k]).1 is Str,
    ensures
        flatten_fields(fs, Seq::empty(), i, b) == Seq::new(
            (fs.len() - i) as nat,
            |x: int|
                (
                    fs[i + x].0,
                    match fs[i + x].1 {
                        TreeV::Str(s) => s,
                        _ => Seq::empty(),
                    },
                ),
        ),
    decreases fs.len() - i,
{
    if i >= fs.len() {
        assert(flatten_fields(fs, Seq::empty(), i, b) =~= Seq::new(
            (fs.len() - i) as nat,
            |x: int|
                (
                    fs[i + x].0,
                    match fs[i + x].1 {
                        TreeV::Str(s) => s,
                        _ => Seq::empty(),
                    },
                ),
        ));
    } else {
        lemma_flatten_string_fields(fs, i + 1, b);
        assert(fs[i].1 is Str);
        let s = match fs[i].1 {
            TreeV::Str(s) => s,
            _ => Seq::empty(),
        };
        assert(path_join(Seq::empty(), fs[i].0) == fs[i].0);
        assert(spec_flatten(fs[i].1, fs[i].0, b) == seq![(fs[i].0, s)]);
        assert(flatten_fields(fs, Seq::empty(), i, b) == seq![(fs[i].0, s)] + flatten_fields(
            fs,
            Seq::empty(),
            i + 1,
            b,
        ));
        assert(flatten_fields(fs, Seq::empty(), i, b) =~= Seq::new(
            (fs.len() - i) as nat,
            |x: int|
                (
                    fs[i + x].0,
                    match fs[i + x].1 {
                        TreeV::Str(s) => s,
                        _ => Seq::empty(),
                    },
                ),
        ));
    }
}

/// Flat round trip: a single-level object whose values are all strings
/// flattens to a row with no empty-container sentinels, and unflattening
/// that row reconstructs the original tree. (The general round trip
/// cannot hold: flattening renders every scalar as a string, so a number
/// and the string spelling it flatten identically.)
pub proof fn lemma_flat_round_trip(fs: Seq<(Seq<char>, TreeV)>)
    requires
        fs.len() > 0,
        forall|k: int| 0 <= k < fs.len() ==> (#[trigger] fs[k]).1 is Str,
    ensures
        spec_unflatten_flat(
            spec_flatten(TreeV::Obj(fs), Seq::empty(), DEPTH_LIMIT as nat),
        ) == TreeV::Obj(fs),
{
    lemma_flatten_string_fields(fs, 0, (DEPTH_LIMIT - 1) as nat);
    let row = spec_flatten(TreeV::Obj(fs), Seq::empty(), DEPTH_LIMIT as nat);
    assert(row == flatten_fields(fs, Seq::empty(), 0, (DEPTH_LIMIT - 1) as nat));
    assert(row.len() == fs.len());
    assert forall|k: int| 0 <= k < fs.len() implies (row[k].0, TreeV::Str(row[k].1)) == fs[k] by {
        assert(row[k] == (
            fs[k].0,
            match fs[k].1 {
                TreeV::Str(s) => s,
                _ => Seq::empty(),
            },
        ));
        assert(fs[k].1 is Str);
    }
    assert(Seq::new(row.len(), |i: int| (row[i].0, TreeV::Str(row[i].1))) =~= fs);
    assert(spec_unflatten_flat(row) == TreeV::Obj(fs));
}

} // verus!
