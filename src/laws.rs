//! Properties of whole scans, proved from the model that the scanner meets.
use crate::model::{
    col_at, digits_end, ident_end, lemma_line_end, lemma_position_bounds, line_at, pull, pulled,
    quote_end, scan_at, skip, start, token_start, trace, Cursor,
};
use vstd::prelude::*;

verus! {

proof fn lemma_ident_end(s: Seq<char>, i: int)
    requires
        0 <= i <= s.len(),
    ensures
        i <= ident_end(s, i) <= s.len(),
    decreases s.len() - i,
{
    if i < s.len() {
        lemma_ident_end(s, i + 1);
    }
}

proof fn lemma_digits_end(s: Seq<char>, i: int)
    requires
        0 <= i <= s.len(),
    ensures
        i <= digits_end(s, i) <= s.len(),
    decreases s.len() - i,
{
    if i < s.len() {
        lemma_digits_end(s, i + 1);
    }
}

proof fn lemma_quote_end(s: Seq<char>, i: int)
    requires
        0 <= i <= s.len(),
    ensures
        i <= quote_end(s, i) <= s.len(),
    decreases s.len() - i,
{
    if i < s.len() {
        lemma_quote_end(s, i + 1);
    }
}

proof fn lemma_skip(s: Seq<char>, i: int)
    requires
        0 <= i <= s.len(),
    ensures
        i <= skip(s, i) <= s.len(),
    decreases s.len() - i,
{
    if i < s.len() {
        lemma_line_end(s, i);
        if s[i] == '#' {
            lemma_line_end(s, i + 1);
        }
        lemma_skip(s, i + 1);
        if s[i] == '#' {
            lemma_skip(s, crate::model::line_end(s, i));
        }
    }
}

/// A token ends after it starts, and within the text.
proof fn lemma_scan_at(s: Seq<char>, i: int)
    requires
        0 <= i < s.len(),
    ensures
        i <= scan_at(s, i).end <= s.len(),
{
    lemma_ident_end(s, i);
    lemma_digits_end(s, i);
    let j = digits_end(s, i);
    if j + 1 < s.len() {
        lemma_digits_end(s, j + 1);
    }
    lemma_quote_end(s, i + 1);
}

/// A scan state whose offset lies within its text.
pub open spec fn in_text(c: Cursor) -> bool {
    0 <= c.pos <= c.text.len()
}

/// One pull keeps the text and moves forward: the token starts at or after
/// the offset, and the next state lies at or after the token's start.
proof fn lemma_pull(c: Cursor)
    requires
        in_text(c),
    ensures
        in_text(pull(c).1),
        pull(c).1.text == c.text,
        c.pos <= token_start(c) <= pull(c).1.pos,
        token_start(c) <= c.text.len(),
{
    lemma_skip(c.text, c.pos);
    let at = token_start(c);
    if !c.halted && at < c.text.len() {
        lemma_scan_at(c.text, at);
    }
}

/// Over `n` pulls the states keep the text and their tokens start in order.
proof fn lemma_trace(c: Cursor, n: nat)
    requires
        in_text(c),
    ensures
        trace(c, n).len() == n,
        forall|a: int|
            0 <= a < n ==> {
                &&& in_text(#[trigger] trace(c, n)[a])
                &&& trace(c, n)[a].text == c.text
                &&& c.pos <= trace(c, n)[a].pos
            },
        forall|a: int, b: int|
            0 <= a <= b < n ==> token_start(#[trigger] trace(c, n)[a]) <= token_start(
                #[trigger] trace(c, n)[b],
            ),
    decreases n,
{
    if n > 0 {
        let d = pull(c).1;
        lemma_pull(c);
        lemma_trace(d, (n - 1) as nat);
        let tr = trace(c, n);
        let rest = trace(d, (n - 1) as nat);
        assert(tr == seq![c] + rest);
        assert forall|a: int| 0 <= a < n implies {
            &&& in_text(#[trigger] tr[a])
            &&& tr[a].text == c.text
            &&& c.pos <= tr[a].pos
        } by {
            if a > 0 {
                assert(tr[a] == rest[a - 1]);
            }
        }
        assert forall|a: int, b: int| 0 <= a <= b < n implies token_start(#[trigger] tr[a])
            <= token_start(#[trigger] tr[b]) by {
            if b > 0 {
                assert(tr[b] == rest[b - 1]);
                lemma_pull(rest[b - 1]);
                if a > 0 {
                    assert(tr[a] == rest[a - 1]);
                }
            }
        }
    }
}

proof fn lemma_line_monotone(s: Seq<char>, i: int, j: int)
    requires
        0 <= i <= j,
    ensures
        line_at(s, i) <= line_at(s, j),
    decreases j - i,
{
    if i < j {
        lemma_line_monotone(s, i, j - 1);
    }
}

/// Two scans of the same text, each started afresh, give the same tokens in
/// the same order: a scanner carries no state from outside its own text.
pub proof fn lemma_scans_agree(a: Seq<char>, b: Seq<char>, n: nat)
    requires
        a == b,
    ensures
        pulled(start(a), n) == pulled(start(b), n),
{
}

/// From any state within its text, over the tokens that the following pulls
/// give, line numbers never decrease, and a token's column is 1 exactly when
/// it starts at the beginning of a line: right after a newline, or at the
/// very start of the text.
pub proof fn lemma_positions_in_order(c: Cursor, n: nat)
    requires
        in_text(c),
    ensures
        pulled(c, n).len() == n,
        forall|a: int, b: int|
            0 <= a <= b < n ==> (#[trigger] pulled(c, n)[a]).line <= (
            #[trigger] pulled(c, n)[b]).line,
        forall|a: int|
            0 <= a < n ==> {
                let at = token_start(#[trigger] trace(c, n)[a]);
                &&& 0 <= at <= c.text.len()
                &&& pulled(c, n)[a].line == line_at(c.text, at)
                &&& pulled(c, n)[a].col == col_at(c.text, at)
                &&& (pulled(c, n)[a].col == 1 <==> (at == 0 || c.text[at - 1] == '\n'))
            },
{
    let text = c.text;
    let tr = trace(c, n);
    let toks = pulled(c, n);
    lemma_trace(c, n);
    assert forall|a: int| 0 <= a < n implies {
        let at = token_start(#[trigger] tr[a]);
        &&& 0 <= at <= text.len()
        &&& toks[a].line == line_at(text, at)
        &&& toks[a].col == col_at(text, at)
        &&& (toks[a].col == 1 <==> (at == 0 || text[at - 1] == '\n'))
    } by {
        lemma_pull(tr[a]);
        let at = token_start(tr[a]);
        if at > 0 {
            lemma_position_bounds(text, at - 1);
        }
    }
    assert forall|a: int, b: int| 0 <= a <= b < n implies (#[trigger] toks[a]).line <= (
    #[trigger] toks[b]).line by {
        lemma_pull(tr[a]);
        lemma_pull(tr[b]);
        lemma_line_monotone(text, token_start(tr[a]), token_start(tr[b]));
    }
}

/// The same, for a scan of `text` from its start.
pub proof fn lemma_positions_from_start(text: Seq<char>, n: nat)
    ensures
        pulled(start(text), n).len() == n,
        forall|a: int, b: int|
            0 <= a <= b < n ==> (#[trigger] pulled(start(text), n)[a]).line <= (
            #[trigger] pulled(start(text), n)[b]).line,
        forall|a: int|
            0 <= a < n ==> {
                let at = token_start(#[trigger] trace(start(text), n)[a]);
                &&& 0 <= at <= text.len()
                &&& pulled(start(text), n)[a].col == 1 <==> (at == 0 || text[at - 1] == '\n')
            },
{
    lemma_positions_in_order(start(text), n);
}

} // verus!
