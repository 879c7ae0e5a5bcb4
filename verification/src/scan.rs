//! Token scanner: splits a raw report string into whitespace-delimited
//! groups, preserving their original order. A token's `position` is its
//! index among the scanned tokens.

use vstd::prelude::*;

verus! {

/// The whitespace characters that separate report groups.
pub open spec fn is_ws_char(c: char) -> bool {
    c == ' ' || c == '\t' || c == '\n' || c == '\r'
}

/// First index `j >= i` such that `s[j]` is whitespace, or `s.len()` if the
/// rest of `s` is whitespace-free: the end of the token starting at `i`.
pub open spec fn tok_end(s: Seq<char>, i: int) -> int
    decreases s.len() - i,
    when 0 <= i <= s.len()
{
    if i >= s.len() || is_ws_char(s[i]) {
        i
    } else {
        tok_end(s, i + 1)
    }
}

pub proof fn lemma_tok_end_bounds(s: Seq<char>, i: int)
    requires
        0 <= i <= s.len(),
    ensures
        i <= tok_end(s, i) <= s.len(),
        forall|j: int| i <= j < tok_end(s, i) ==> !is_ws_char(s[j]),
        tok_end(s, i) < s.len() ==> is_ws_char(s[tok_end(s, i)]),
    decreases s.len() - i,
{
    if i < s.len() && !is_ws_char(s[i]) {
        lemma_tok_end_bounds(s, i + 1);
    }
}

/// The sequence of whitespace-delimited tokens of `s`, starting at index `i`.
pub open spec fn spec_tokens_from(s: Seq<char>, i: int) -> Seq<Seq<char>>
    decreases s.len() - i,
    when 0 <= i <= s.len()
    via spec_tokens_from_dec
{
    if i >= s.len() {
        Seq::empty()
    } else if is_ws_char(s[i]) {
        spec_tokens_from(s, i + 1)
    } else {
        seq![s.subrange(i, tok_end(s, i))] + spec_tokens_from(s, tok_end(s, i))
    }
}

#[via_fn]
proof fn spec_tokens_from_dec(s: Seq<char>, i: int) {
    if 0 <= i <= s.len() && i < s.len() && !is_ws_char(s[i]) {
        lemma_tok_end_bounds(s, i);
    }
}

/// The tokens of a whole raw report string.
pub open spec fn spec_tokens(s: Seq<char>) -> Seq<Seq<char>> {
    spec_tokens_from(s, 0)
}

/// One whitespace-delimited group of a raw report. `position` is the
/// token's index among the report's tokens, starting at zero.
pub struct RawToken {
    pub text: String,
    pub position: usize,
}

/// Executable test for a separator character.
pub fn is_ws(c: char) -> (r: bool)
    ensures
        r == is_ws_char(c),
{
    c == ' ' || c == '\t' || c == '\n' || c == '\r'
}

/// Splits `raw` on runs of whitespace; leading and trailing whitespace is
/// discarded, tokens keep their original order, and the empty string yields
/// no tokens.
pub fn scan(raw: &str) -> (r: Vec<RawToken>)
    ensures
        r@.map_values(|t: RawToken| t.text@) == spec_tokens(raw@),
        forall|k: int| 0 <= k < r@.len() ==> (#[trigger] r@[k]).position == k,
{
    let n = raw.unicode_len();
    let mut out: Vec<RawToken> = Vec::new();
    let mut i: usize = 0;
    while i < n
        invariant
            n == raw@.len(),
            i <= n,
            spec_tokens(raw@) == out@.map_values(|t: RawToken| t.text@) + spec_tokens_from(
                raw@,
                i as int,
            ),
            forall|k: int| 0 <= k < out@.len() ==> (#[trigger] out@[k]).position == k,
        decreases n - i,
    {
        let c = raw.get_char(i);
        if is_ws(c) {
            i = i + 1;
        } else {
            let start = i;
            proof {
                lemma_tok_end_bounds(raw@, start as int);
            }
            while i < n && !is_ws(raw.get_char(i))
                invariant
                    n == raw@.len(),
                    start <= i <= n,
                    tok_end(raw@, start as int) == tok_end(raw@, i as int),
                decreases n - i,
            {
                i = i + 1;
            }
            assert(tok_end(raw@, i as int) == i as int);
            let text = raw.substring_char(start, i);
            let tok = RawToken { text: text.to_owned(), position: out.len() };
            let ghost prev = out@;
            out.push(tok);
            proof {
                assert(out@.map_values(|t: RawToken| t.text@) =~= prev.map_values(
                    |t: RawToken| t.text@,
                ).push(raw@.subrange(start as int, i as int)));
            }
        }
    }
    out
}

/// Tokens joined with single spaces: the normal form of a report's
/// whitespace.
pub open spec fn spec_join_tokens(toks: Seq<Seq<char>>) -> Seq<char>
    decreases toks.len(),
{
    if toks.len() == 0 {
        Seq::empty()
    } else if toks.len() == 1 {
        toks[0]
    } else {
        spec_join_tokens(toks.drop_last()) + seq![' '] + toks.last()
    }
}

/// A report with its whitespace normalized: tokens joined by single spaces,
/// no leading or trailing whitespace.
pub open spec fn spec_normalize(s: Seq<char>) -> Seq<char> {
    spec_join_tokens(spec_tokens(s))
}

/// Collapses every run of whitespace in `raw` to a single space and trims
/// the ends.
pub fn normalize_whitespace(raw: &str) -> (r: String)
    ensures
        r@ == spec_normalize(raw@),
{
    let toks = scan(raw);
    let mut out = String::new();
    let ghost texts = toks@.map_values(|t: RawToken| t.text@);
    let mut i: usize = 0;
    while i < toks.len()
        invariant
            texts == toks@.map_values(|t: RawToken| t.text@),
            i <= toks@.len(),
            out@ == spec_join_tokens(texts.take(i as int)),
        decreases toks@.len() - i,
    {
        if i > 0 {
            out.append(" ");
            proof {
                reveal_strlit(" ");
            }
        }
        out.append(toks[i].text.as_str());
        proof {
            assert(texts.take(i + 1).drop_last() =~= texts.take(i as int));
            assert(texts.take(i + 1).last() == texts[i as int]);
            if i == 0 {
                assert(out@ =~= spec_join_tokens(texts.take(1)));
            }
        }
        i = i + 1;
    }
    proof {
        assert(texts.take(toks@.len() as int) =~= texts);
    }
    out
}

} // verus!
