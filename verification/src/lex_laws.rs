//! What the label supply promises: over an alphabet of distinct symbols, the labels come in
//! order of length, and every word over the alphabet is given out exactly once.

use vstd::prelude::*;

use crate::config::{hint_symbols, HintType};
use crate::lex_ordering::{lex_succ, max_symbol, nth_digits, render, succ_from};

verus! {

/// `b` to the power `i`.
pub open spec fn weight(b: nat, i: nat) -> nat
    decreases i,
{
    if i == 0 { 1 } else { b * weight(b, (i - 1) as nat) }
}

/// The position of the digits `d` (least significant first) in shortlex order over an
/// alphabet of `b` symbols: each digit counts one more than its value.
pub open spec fn rank(d: Seq<usize>, b: nat) -> nat
    decreases d.len(),
{
    if d.len() == 0 { 0 } else { (d[0] + 1) as nat + b * rank(d.drop_first(), b) }
}

/// Whether every digit is at most `max`.
pub open spec fn digits_within(d: Seq<usize>, max: usize) -> bool {
    forall|i: int| 0 <= i < d.len() ==> d[i] <= max
}

proof fn lemma_rank_update(d: Seq<usize>, b: nat, i: int, v: usize)
    requires
        0 <= i < d.len(),
    ensures
        rank(d.update(i, v), b) + d[i] * weight(b, i as nat) == rank(d, b) + v * weight(b, i as nat),
    decreases i,
{
    let u = d.update(i, v);
    if i == 0 {
        assert(u.drop_first() == d.drop_first());
        assert(u[0] == v);
        assert(weight(b, 0) == 1);
        assert(rank(u, b) == (v + 1) as nat + b * rank(d.drop_first(), b));
        assert(rank(d, b) == (d[0] + 1) as nat + b * rank(d.drop_first(), b));
        let wi = weight(b, 0);
        let d0 = d[0] as int;
        let vv = v as int;
        let r = rank(d.drop_first(), b) as int;
        assert((vv + 1 + b * r) + d0 * wi == (d0 + 1 + b * r) + vv * wi) by (nonlinear_arith)
            requires
                wi == 1,
        ;
    } else {
        let t = d.drop_first();
        assert(u.drop_first() == t.update(i - 1, v));
        lemma_rank_update(t, b, i - 1, v);
        let w = weight(b, (i - 1) as nat);
        let ru = rank(t.update(i - 1, v), b);
        let rt = rank(t, b);
        let di = d[i] as int;
        assert(t[i - 1] == d[i]);
        assert(u[0] == d[0]);
        assert(weight(b, i as nat) == b * w);
        assert(rank(u, b) == (d[0] + 1) as nat + b * ru);
        assert(rank(d, b) == (d[0] + 1) as nat + b * rt);
        let wi = weight(b, i as nat);
        let d0 = d[0] as int;
        assert((d0 + 1 + b * ru) + di * wi == (d0 + 1 + b * rt) + v * wi) by (nonlinear_arith)
            requires
                ru + di * w == rt + v * w,
                wi == b * w,
        ;
    }
}

proof fn lemma_rank_push(d: Seq<usize>, b: nat)
    ensures
        rank(d.push(0), b) == rank(d, b) + weight(b, d.len()),
    decreases d.len(),
{
    if d.len() == 0 {
        assert(d.push(0).drop_first().len() == 0);
        let r0 = rank(d.push(0).drop_first(), b);
        assert(r0 == 0);
        assert(b * r0 == 0) by (nonlinear_arith)
            requires
                r0 == 0,
        ;
    } else {
        let t = d.drop_first();
        assert(d.push(0).drop_first() == t.push(0));
        lemma_rank_push(t, b);
        let rt = rank(t, b);
        let w = weight(b, t.len());
        assert(b * (rt + w) == b * rt + b * w) by (nonlinear_arith);
        assert(d.push(0)[0] == d[0]);
        assert(weight(b, d.len()) == b * w);
        assert(rank(d.push(0), b) == (d[0] + 1) as nat + b * rank(t.push(0), b));
        let rp = rank(t.push(0), b);
        assert(b * rp == b * rt + b * w) by (nonlinear_arith)
            requires
                rp == rt + w,
        ;
    }
}

proof fn lemma_rank_succ(d: Seq<usize>, i: nat, max: usize)
    requires
        i <= d.len(),
        digits_within(d, max),
        max < usize::MAX,
    ensures
        rank(succ_from(d, i, max), (max + 1) as nat) == rank(d, (max + 1) as nat) + weight((max + 1) as nat, i),
        digits_within(succ_from(d, i, max), max),
    decreases d.len() - i,
{
    let b = (max + 1) as nat;
    if i >= d.len() {
        lemma_rank_push(d, b);
    } else if d[i as int] == max {
        let u = d.update(i as int, 0);
        lemma_rank_update(d, b, i as int, 0);
        lemma_rank_succ(u, i + 1, max);
        let w = weight(b, i);
        assert(weight(b, i + 1) == b * w);
        assert(b * w == max * w + w) by (nonlinear_arith)
            requires
                b == max + 1,
        ;
    } else {
        lemma_rank_update(d, b, i as int, (d[i as int] + 1) as usize);
        let w = weight(b, i);
        let di = d[i as int] as int;
        assert((di + 1) * w == di * w + w) by (nonlinear_arith);
    }
}

/// The digits after `k` steps are the `k`-th in shortlex order, and within the alphabet.
pub proof fn lemma_nth_rank(k: nat, max: usize)
    requires
        max < usize::MAX,
    ensures
        rank(nth_digits(k, max), (max + 1) as nat) == k,
        digits_within(nth_digits(k, max), max),
    decreases k,
{
    if k > 0 {
        lemma_nth_rank((k - 1) as nat, max);
        lemma_rank_succ(nth_digits((k - 1) as nat, max), 0, max);
    }
}

/// The label of digits within the alphabet has a symbol per digit, most significant first.
proof fn lemma_render_chars(d: Seq<usize>, symbols: Seq<char>)
    requires
        forall|i: int| 0 <= i < d.len() ==> d[i] < symbols.len(),
    ensures
        render(d, symbols).len() == d.len(),
        forall|j: int| 0 <= j < d.len() ==> render(d, symbols)[j] == symbols[d[d.len() - 1 - j] as int],
    decreases d.len(),
{
    if d.len() > 0 {
        let t = d.drop_first();
        lemma_render_chars(t, symbols);
        assert forall|j: int| 0 <= j < d.len() implies render(d, symbols)[j] == symbols[d[d.len() - 1 - j] as int] by {
            if j < d.len() - 1 {
                assert(t[t.len() - 1 - j] == d[d.len() - 1 - j]);
            }
        }
    }
}

/// Over an alphabet of distinct symbols, no label is given out twice: the labels after `j` and
/// after `k` steps differ whenever `j` and `k` do.
pub proof fn law_labels_are_distinct(symbols: Seq<char>, j: nat, k: nat)
    requires
        symbols.len() > 0,
        symbols.len() < usize::MAX,
        forall|a: int, c: int| 0 <= a < c < symbols.len() ==> symbols[a] != symbols[c],
        j != k,
    ensures
        render(nth_digits(j, max_symbol(symbols)), symbols) != render(nth_digits(k, max_symbol(symbols)), symbols),
{
    let max = max_symbol(symbols);
    lemma_nth_rank(j, max);
    lemma_nth_rank(k, max);
    let dj = nth_digits(j, max);
    let dk = nth_digits(k, max);
    assert(dj != dk);
    lemma_render_chars(dj, symbols);
    lemma_render_chars(dk, symbols);
    if dj.len() == dk.len() {
        assert(!(dj =~= dk));
        let x = choose|x: int| 0 <= x < dj.len() && dj[x] != dk[x];
        let pos = dj.len() - 1 - x;
        assert(dj[dj.len() - 1 - pos] == dj[x]);
        assert(render(dj, symbols)[pos] != render(dk, symbols)[pos]);
    }
}

/// The label given out by the `k`-th call of `next` on a fresh supply over `symbols`: `new`
/// starts at `nth_digits(0)`, and each call moves from `nth_digits(k)` to
/// `nth_digits(k + 1)` (see `law_next_gives_next_label`).
pub open spec fn label(symbols: Seq<char>, k: nat) -> Seq<char> {
    render(nth_digits(k, max_symbol(symbols)), symbols)
}

/// Each call of `next` takes the supply from the digits after `k` steps to those after `k + 1`,
/// and so gives out `label(symbols, k + 1)`.
pub proof fn law_next_gives_next_label(symbols: Seq<char>, k: nat)
    ensures
        lex_succ(nth_digits(k, max_symbol(symbols)), max_symbol(symbols)) == nth_digits(k + 1, max_symbol(symbols)),
        render(nth_digits(k + 1, max_symbol(symbols)), symbols) == label(symbols, k + 1),
{
}

/// Two digit positions whose bijective base-`b` expansions agree are equal.
proof fn lemma_digit_unique(a: int, r: int, a2: int, r2: int, b: int)
    requires
        1 <= a <= b,
        1 <= a2 <= b,
        r >= 0,
        r2 >= 0,
        a + b * r == a2 + b * r2,
    ensures
        a == a2,
        r == r2,
{
    if r < r2 {
        assert(b * r2 >= b * r + b) by (nonlinear_arith)
            requires
                r + 1 <= r2,
                b >= 1,
        ;
    } else if r > r2 {
        assert(b * r >= b * r2 + b) by (nonlinear_arith)
            requires
                r2 + 1 <= r,
                b >= 1,
        ;
    }
}

/// Digits within the alphabet are told apart by their position in shortlex order.
proof fn lemma_rank_injective(d: Seq<usize>, e: Seq<usize>, max: usize)
    requires
        max < usize::MAX,
        digits_within(d, max),
        digits_within(e, max),
        rank(d, (max + 1) as nat) == rank(e, (max + 1) as nat),
    ensures
        d == e,
    decreases d.len(),
{
    let b = (max + 1) as nat;
    if d.len() == 0 {
        if e.len() > 0 {
            assert(rank(e, b) >= 1);
        }
        assert(d =~= e);
    } else {
        assert(e.len() > 0);
        let td = d.drop_first();
        let te = e.drop_first();
        assert(b * rank(td, b) >= 0) by (nonlinear_arith);
        assert(b * rank(te, b) >= 0) by (nonlinear_arith);
        lemma_digit_unique((d[0] + 1) as int, rank(td, b) as int, (e[0] + 1) as int, rank(te, b) as int, b as int);
        assert forall|i: int| 0 <= i < td.len() implies td[i] <= max by {
            assert(td[i] == d[i + 1]);
        }
        assert forall|i: int| 0 <= i < te.len() implies te[i] <= max by {
            assert(te[i] == e[i + 1]);
        }
        lemma_rank_injective(td, te, max);
        assert(d =~= e) by {
            assert forall|i: int| 0 <= i < d.len() implies d[i] == e[i] by {
                if i > 0 {
                    assert(d[i] == td[i - 1]);
                    assert(e[i] == te[i - 1]);
                }
            }
        }
    }
}

/// Every digit sequence within the alphabet is reached, after as many steps as its position.
proof fn lemma_nth_of_rank(d: Seq<usize>, max: usize)
    requires
        max < usize::MAX,
        digits_within(d, max),
    ensures
        nth_digits(rank(d, (max + 1) as nat), max) == d,
{
    let k = rank(d, (max + 1) as nat);
    lemma_nth_rank(k, max);
    lemma_rank_injective(nth_digits(k, max), d, max);
}

/// Moving to the next digits never shortens them, and always leaves at least one digit.
proof fn lemma_succ_len(d: Seq<usize>, i: nat, max: usize)
    ensures
        succ_from(d, i, max).len() >= d.len(),
        succ_from(d, i, max).len() >= 1,
    decreases d.len() - i,
{
    if i < d.len() && d[i as int] == max {
        lemma_succ_len(d.update(i as int, 0), i + 1, max);
    }
}

proof fn lemma_nth_len_grows(j: nat, k: nat, max: usize)
    requires
        j <= k,
    ensures
        nth_digits(j, max).len() <= nth_digits(k, max).len(),
        k >= 1 ==> nth_digits(k, max).len() >= 1,
    decreases k,
{
    if k > 0 {
        lemma_succ_len(nth_digits((k - 1) as nat, max), 0, max);
        if j < k {
            lemma_nth_len_grows(j, (k - 1) as nat, max);
        }
    }
}

/// The labels never get shorter, and every label given out has at least one symbol.
pub proof fn law_labels_grow(symbols: Seq<char>, j: nat, k: nat)
    requires
        symbols.len() > 0,
        symbols.len() < usize::MAX,
        j <= k,
    ensures
        label(symbols, j).len() <= label(symbols, k).len(),
        k >= 1 ==> label(symbols, k).len() >= 1,
{
    let max = max_symbol(symbols);
    lemma_nth_rank(j, max);
    lemma_nth_rank(k, max);
    lemma_render_chars(nth_digits(j, max), symbols);
    lemma_render_chars(nth_digits(k, max), symbols);
    lemma_nth_len_grows(j, k, max);
}

/// Every word over the alphabet comes out exactly once: for a non-empty `s` made of the
/// (distinct) symbols, exactly one call gives it out.
pub proof fn law_every_word_comes_once(symbols: Seq<char>, s: Seq<char>)
    requires
        symbols.len() > 0,
        symbols.len() < usize::MAX,
        forall|a: int, c: int| 0 <= a < c < symbols.len() ==> symbols[a] != symbols[c],
        s.len() > 0,
        forall|i: int| 0 <= i < s.len() ==> symbols.contains(s[i]),
    ensures
        exists|k: nat| k >= 1 && label(symbols, k) == s && forall|j: nat| #[trigger] label(symbols, j) == s ==> j == k,
{
    let max = max_symbol(symbols);
    let n = s.len();
    let d = Seq::new(n, |i: int| (choose|x: int| 0 <= x < symbols.len() && symbols[x] == s[n - 1 - i]) as usize);
    assert forall|i: int| 0 <= i < n implies d[i] < symbols.len() && symbols[d[i] as int] == s[n - 1 - i] by {
        assert(symbols.contains(s[n - 1 - i]));
    }
    lemma_render_chars(d, symbols);
    assert(render(d, symbols) =~= s) by {
        assert forall|j: int| 0 <= j < n implies render(d, symbols)[j] == s[j] by {
            assert(d[n - 1 - j] == d[d.len() - 1 - j]);
        }
    }
    lemma_nth_of_rank(d, max);
    let k = rank(d, (max + 1) as nat);
    assert(k >= 1);
    assert(label(symbols, k) == s);
    assert forall|j: nat| #[trigger] label(symbols, j) == s implies j == k by {
        if j != k {
            law_labels_are_distinct(symbols, j, k);
        }
    }
}

/// Hint labels never fail and never repeat: every label a hint supply gives out is non-empty,
/// and the labels of two different calls differ, so that each hint names one link.
pub proof fn law_hints_are_distinct(h: HintType, j: nat, k: nat)
    requires
        1 <= j,
        j < k,
    ensures
        label(hint_symbols(h), j).len() >= 1,
        label(hint_symbols(h), k).len() >= 1,
        label(hint_symbols(h), j) != label(hint_symbols(h), k),
{
    let symbols = hint_symbols(h);
    assert(symbols.len() > 0);
    law_labels_grow(symbols, j, k);
    law_labels_grow(symbols, k, k);
    law_labels_grow(symbols, j, j);
    law_labels_are_distinct(symbols, j, k);
}

} // verus!
