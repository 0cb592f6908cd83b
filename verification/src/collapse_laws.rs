//! What collapsing white space promises: the text keeps its visible characters, in order, and
//! its words are separated by single spaces, with nothing at either end.

use vstd::prelude::*;

use crate::article_cells::{join_spaced, spec_collapse_whitespace, words};
use crate::unicode::is_ws;
use crate::wrap_laws::nonws;

verus! {

/// A word: not empty, and without white space.
pub open spec fn word_ok(w: Seq<char>) -> bool {
    w.len() > 0 && forall|i: int| 0 <= i < w.len() ==> !is_ws(#[trigger] w[i])
}

/// The words one after the other, with nothing between them.
pub open spec fn flatten(ws: Seq<Seq<char>>) -> Seq<char>
    decreases ws.len(),
{
    if ws.len() == 0 { Seq::empty() } else { flatten(ws.drop_last()) + ws.last() }
}

/// White space only between two visible characters, and then as a single space.
pub open spec fn single_spaced(r: Seq<char>) -> bool {
    forall|i: int| 0 <= i < r.len() && is_ws(#[trigger] r[i]) ==> r[i] == ' ' && 0 < i < r.len() - 1
        && !is_ws(r[i - 1]) && !is_ws(r[i + 1])
}

proof fn lemma_nonws_of_word(w: Seq<char>)
    requires
        forall|i: int| 0 <= i < w.len() ==> !is_ws(#[trigger] w[i]),
    ensures
        nonws(w) == w,
    decreases w.len(),
{
    if w.len() > 0 {
        lemma_nonws_of_word(w.drop_last());
        assert(w.drop_last() + seq![w.last()] =~= w);
    }
}

proof fn lemma_nonws_concat(a: Seq<char>, b: Seq<char>)
    ensures
        nonws(a + b) == nonws(a) + nonws(b),
    decreases b.len(),
{
    if b.len() == 0 {
        assert(a + b =~= a);
        assert(nonws(a) + Seq::<char>::empty() =~= nonws(a));
    } else {
        lemma_nonws_concat(a, b.drop_last());
        assert((a + b).drop_last() =~= a + b.drop_last());
        assert((a + b).last() == b.last());
    }
}

/// The words of a text are words, and together they are its visible characters.
proof fn lemma_words(s: Seq<char>)
    ensures
        forall|j: int| 0 <= j < words(s).len() ==> word_ok(#[trigger] words(s)[j]),
        flatten(words(s)) == nonws(s),
        s.len() > 0 && !is_ws(s.last()) ==> words(s).len() > 0,
    decreases s.len(),
{
    if s.len() > 0 {
        let p = s.drop_last();
        lemma_words(p);
        let w = words(p);
        let c = s.last();
        if is_ws(c) {
            assert(nonws(s) =~= nonws(p) + Seq::<char>::empty());
        } else if s.len() >= 2 && !is_ws(s[s.len() - 2]) {
            assert(p.last() == s[s.len() - 2]);
            let u = w.update(w.len() - 1, w.last().push(c));
            assert forall|j: int| 0 <= j < u.len() implies word_ok(#[trigger] u[j]) by {
                if j == u.len() - 1 {
                    assert(word_ok(w[j]));
                    assert forall|i: int| 0 <= i < u[j].len() implies !is_ws(#[trigger] u[j][i]) by {
                        if i < w[j].len() {
                            assert(u[j][i] == w[j][i]);
                        }
                    }
                } else {
                    assert(u[j] == w[j]);
                }
            }
            assert(u.drop_last() == w.drop_last());
            assert(flatten(w) == flatten(w.drop_last()) + w.last());
            assert(flatten(u) =~= flatten(w).push(c));
            assert(nonws(s) =~= nonws(p) + seq![c]);
        } else {
            let u = w.push(seq![c]);
            assert forall|j: int| 0 <= j < u.len() implies word_ok(#[trigger] u[j]) by {
                if j < w.len() {
                    assert(u[j] == w[j]);
                }
            }
            assert(u.drop_last() == w);
            assert(nonws(s) =~= nonws(p) + seq![c]);
        }
    }
}

/// Words joined by single spaces: visible characters kept, spaces single and inside.
proof fn lemma_join(ws: Seq<Seq<char>>)
    requires
        forall|j: int| 0 <= j < ws.len() ==> word_ok(#[trigger] ws[j]),
    ensures
        single_spaced(join_spaced(ws)),
        nonws(join_spaced(ws)) == flatten(ws),
        ws.len() > 0 ==> join_spaced(ws).len() > 0 && !is_ws(join_spaced(ws)[0]) && !is_ws(join_spaced(ws).last()),
    decreases ws.len(),
{
    if ws.len() == 0 {
    } else if ws.len() == 1 {
        assert(word_ok(ws[0]));
        lemma_nonws_of_word(ws[0]);
        assert(ws.drop_last().len() == 0);
        assert(flatten(ws.drop_last()) == Seq::<char>::empty());
        assert(flatten(ws) =~= ws[0]);
    } else {
        let p = ws.drop_last();
        assert forall|j: int| 0 <= j < p.len() implies word_ok(#[trigger] p[j]) by {
            assert(p[j] == ws[j]);
        }
        lemma_join(p);
        let a = join_spaced(p);
        let last = ws.last();
        assert(word_ok(ws[ws.len() - 1]));
        let r = a + seq![' '] + last;
        assert(join_spaced(ws) == r);
        assert forall|i: int| 0 <= i < r.len() && is_ws(#[trigger] r[i]) implies r[i] == ' ' && 0 < i < r.len() - 1
            && !is_ws(r[i - 1]) && !is_ws(r[i + 1]) by {
            if i < a.len() {
                assert(r[i] == a[i]);
                assert(i != a.len() - 1);
                assert(r[i - 1] == a[i - 1]);
                assert(r[i + 1] == a[i + 1]);
            } else if i == a.len() {
                assert(r[i - 1] == a.last());
                assert(r[i + 1] == last[0]);
            } else {
                assert(r[i] == last[i - a.len() - 1]);
            }
        }
        lemma_nonws_concat(a + seq![' '], last);
        lemma_nonws_concat(a, seq![' ']);
        lemma_nonws_of_word(last);
        assert(nonws(seq![' ']) =~= Seq::<char>::empty()) by {
            assert(seq![' '].drop_last().len() == 0);
            assert(nonws(seq![' '].drop_last()) == Seq::<char>::empty());
            assert(is_ws(seq![' '].last()));
        }
        assert(nonws(a) + Seq::<char>::empty() =~= nonws(a));
        assert(r[0] == a[0]);
        assert(r.last() == last.last());
    }
}

/// Collapsing white space keeps the visible characters of the text, in order, and leaves
/// white space only as single spaces between visible characters.
pub proof fn law_collapse_whitespace(s: Seq<char>)
    ensures
        nonws(spec_collapse_whitespace(s)) == nonws(s),
        single_spaced(spec_collapse_whitespace(s)),
{
    lemma_words(s);
    lemma_join(words(s));
}

} // verus!
