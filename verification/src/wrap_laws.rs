//! What every wrapping keeps: rows are trimmed, carry no newline, and no visible character is
//! lost, added or reordered.

use vstd::prelude::*;

use crate::style::{SpanView, TextStyle};
use crate::text_wrap::{
    AtomScan, AtomView, WrapState, break_row, chunk_char, chunk_chars, expand_char, push_broken_state,
    push_text_state, scan_char, scan_chars, scan_flush, spec_atoms_of, spec_wrap, trim_end_len,
    trim_last, trim_row, wrap_atom, wrap_atoms, wrap_span_seq, wrap_wf, initial_wrap_state,
};
use crate::unicode::is_ws;
use crate::text_wrap::sat_sub;

verus! {

/// The characters of `s` that are not whitespace, in order.
pub open spec fn nonws(s: Seq<char>) -> Seq<char>
    decreases s.len(),
{
    if s.len() == 0 {
        Seq::empty()
    } else {
        nonws(s.drop_last()) + (if is_ws(s.last()) {
            Seq::<char>::empty()
        } else {
            seq![s.last()]
        })
    }
}

/// The text of a row of spans.
pub open spec fn row_text(row: Seq<SpanView>) -> Seq<char>
    decreases row.len(),
{
    if row.len() == 0 {
        Seq::empty()
    } else {
        row_text(row.drop_last()) + row.last().text
    }
}

/// The text of all rows, one after the other.
pub open spec fn rows_text(rows: Seq<Seq<SpanView>>) -> Seq<char>
    decreases rows.len(),
{
    if rows.len() == 0 {
        Seq::empty()
    } else {
        rows_text(rows.drop_last()) + row_text(rows.last())
    }
}

/// The text of all atoms, one after the other.
pub open spec fn atoms_text(atoms: Seq<AtomView>) -> Seq<char>
    decreases atoms.len(),
{
    if atoms.len() == 0 {
        Seq::empty()
    } else {
        atoms_text(atoms.drop_last()) + atoms.last().text
    }
}

/// A span that is not empty and holds no newline.
pub open spec fn span_ok(s: SpanView) -> bool {
    s.text.len() > 0 && forall|i: int| 0 <= i < s.text.len() ==> s.text[i] != '\n'
}

/// A row whose spans are not empty, hold no newline, and which does not begin with whitespace.
pub open spec fn row_ok(row: Seq<SpanView>) -> bool {
    &&& forall|i: int| 0 <= i < row.len() ==> span_ok(#[trigger] row[i])
    &&& row.len() > 0 ==> !is_ws(row[0].text[0])
}

/// A row that does not end with whitespace.
pub open spec fn row_ends_clean(row: Seq<SpanView>) -> bool {
    row.len() > 0 ==> !is_ws(row.last().text.last())
}

/// A finished row: well formed, and trimmed at both ends.
pub open spec fn row_trimmed(row: Seq<SpanView>) -> bool {
    row_ok(row) && row_ends_clean(row)
}

/// A newline atom holds only whitespace; any other atom is a non-empty run without newlines, all of whose characters
/// are whitespace exactly when the atom is a whitespace atom.
pub open spec fn atom_ok(a: AtomView) -> bool {
    if a.newline {
        forall|i: int| 0 <= i < a.text.len() ==> is_ws(a.text[i])
    } else {
        &&& a.text.len() > 0
        &&& forall|i: int| 0 <= i < a.text.len() ==> a.text[i] != '\n'
        &&& forall|i: int| 0 <= i < a.text.len() ==> is_ws(a.text[i]) == a.is_space
    }
}

pub proof fn lemma_nonws_add(a: Seq<char>, b: Seq<char>)
    ensures
        nonws(a + b) == nonws(a) + nonws(b),
    decreases b.len(),
{
    if b.len() == 0 {
        assert(a + b == a);
        assert(nonws(a) + nonws(b) == nonws(a));
    } else {
        assert((a + b).drop_last() == a + b.drop_last());
        assert((a + b).last() == b.last());
        lemma_nonws_add(a, b.drop_last());
    }
}

pub proof fn lemma_nonws_all_ws(s: Seq<char>)
    requires
        forall|i: int| 0 <= i < s.len() ==> is_ws(s[i]),
    ensures
        nonws(s) == Seq::<char>::empty(),
    decreases s.len(),
{
    if s.len() > 0 {
        lemma_nonws_all_ws(s.drop_last());
    }
}

/// What a scan over characters keeps: finished atoms are well formed, the run being collected
/// is of one kind, and no visible character is lost.
pub open spec fn scan_inv(st: AtomScan, chars: Seq<char>) -> bool {
    &&& forall|i: int| 0 <= i < st.atoms.len() ==> atom_ok(#[trigger] st.atoms[i])
    &&& forall|i: int| 0 <= i < st.text.len() ==> st.text[i] != '\n'
    &&& st.kind is None ==> st.text.len() == 0
    &&& st.kind is Some ==> st.text.len() > 0
    &&& forall|i: int| 0 <= i < st.text.len() ==> is_ws(st.text[i]) == (st.kind == Some(true))
    &&& nonws(atoms_text(st.atoms) + st.text) == nonws(chars)
}

pub proof fn lemma_scan_flush(st: AtomScan, chars: Seq<char>, style: TextStyle)
    requires
        scan_inv(st, chars),
    ensures
        scan_inv(scan_flush(st, style), chars),
        scan_flush(st, style).text.len() == 0,
{
    if st.text.len() > 0 {
        let f = scan_flush(st, style);
        assert(f.atoms.drop_last() == st.atoms);
        assert(atoms_text(f.atoms) == atoms_text(st.atoms) + st.text);
        assert(f.text + Seq::<char>::empty() == f.text);
        assert(atoms_text(f.atoms) + f.text == atoms_text(st.atoms) + st.text);
        assert forall|i: int| 0 <= i < f.atoms.len() implies atom_ok(#[trigger] f.atoms[i]) by {
            if i < st.atoms.len() {
                assert(f.atoms[i] == st.atoms[i]);
            }
        }
    }
}

pub proof fn lemma_scan_chars(chars: Seq<char>, style: TextStyle)
    ensures
        scan_inv(scan_chars(chars, style), chars),
    decreases chars.len(),
{
    if chars.len() == 0 {
        let st = scan_chars(chars, style);
        assert(atoms_text(st.atoms) + st.text == Seq::<char>::empty());
    } else {
        let prev = chars.drop_last();
        let c = chars.last();
        lemma_scan_chars(prev, style);
        let st = scan_chars(prev, style);
        assert(nonws(chars) == nonws(prev) + nonws(seq![c])) by {
            assert(chars == prev + seq![c]);
            lemma_nonws_add(prev, seq![c]);
        }
        if c == '\n' {
            lemma_scan_flush(st, prev, style);
            let f = scan_flush(st, style);
            let n = scan_char(st, c, style);
            assert(n.atoms.drop_last() == f.atoms);
            assert(atoms_text(n.atoms) == atoms_text(f.atoms) + seq!['\n']);
            assert(f.text =~= Seq::<char>::empty());
            assert(atoms_text(n.atoms) + n.text == (atoms_text(f.atoms) + f.text) + seq![c]);
            lemma_nonws_add(atoms_text(f.atoms) + f.text, seq![c]);
            assert forall|i: int| 0 <= i < n.atoms.len() implies atom_ok(#[trigger] n.atoms[i]) by {
                if i < f.atoms.len() {
                    assert(n.atoms[i] == f.atoms[i]);
                }
            }
        } else {
            let sp = is_ws(c);
            let f = if st.kind == Some(!sp) {
                scan_flush(st, style)
            } else {
                st
            };
            if st.kind == Some(!sp) {
                lemma_scan_flush(st, prev, style);
            }
            let n = scan_char(st, c, style);
            assert(n.atoms == f.atoms);
            assert(n.text == f.text + expand_char(c));
            assert(nonws(expand_char(c)) == nonws(seq![c])) by {
                if c == '\t' {
                    lemma_nonws_all_ws(expand_char(c));
                    lemma_nonws_all_ws(seq![c]);
                }
            }
            assert(atoms_text(n.atoms) + n.text == (atoms_text(f.atoms) + f.text) + expand_char(c));
            lemma_nonws_add(atoms_text(f.atoms) + f.text, expand_char(c));
        }
    }
}

/// The atoms of a span are well formed, and together they hold all of its visible characters.
pub proof fn lemma_atoms_of(span: SpanView)
    ensures
        forall|i: int|
            0 <= i < spec_atoms_of(span).len() ==> atom_ok(#[trigger] spec_atoms_of(span)[i]),
        nonws(atoms_text(spec_atoms_of(span))) == nonws(span.text),
{
    lemma_scan_chars(span.text, span.style);
    let st = scan_chars(span.text, span.style);
    lemma_scan_flush(st, span.text, span.style);
    let f = scan_flush(st, span.style);
    assert(f.text =~= Seq::<char>::empty());
    assert(atoms_text(f.atoms) + f.text == atoms_text(f.atoms));
}


/// What every wrapping state keeps: there is a current row, every row is well formed, every row
/// before the current one is trimmed, and the visible characters are exactly `placed`.
pub open spec fn wrap_inv(st: WrapState, placed: Seq<char>) -> bool {
    &&& wrap_wf(st)
    &&& forall|r: int| 0 <= r < st.rows.len() ==> row_ok(#[trigger] st.rows[r])
    &&& forall|r: int| 0 <= r < st.rows.len() - 1 ==> row_ends_clean(#[trigger] st.rows[r])
    &&& nonws(rows_text(st.rows)) == nonws(placed)
}

pub proof fn lemma_trim_end_len_props(s: Seq<char>)
    ensures
        trim_end_len(s) <= s.len(),
        forall|i: int| trim_end_len(s) <= i < s.len() ==> is_ws(s[i]),
        trim_end_len(s) > 0 ==> !is_ws(s[trim_end_len(s) - 1]),
    decreases s.len(),
{
    if s.len() > 0 && is_ws(s.last()) {
        lemma_trim_end_len_props(s.drop_last());
        assert forall|i: int| trim_end_len(s) <= i < s.len() implies is_ws(s[i]) by {
            if i < s.len() - 1 {
                assert(s[i] == s.drop_last()[i]);
            }
        }
        if trim_end_len(s) > 0 {
            assert(s[trim_end_len(s) - 1] == s.drop_last()[trim_end_len(s) - 1]);
        }
    }
}

pub proof fn lemma_rows_text_update_last(rows: Seq<Seq<SpanView>>, row: Seq<SpanView>)
    requires
        rows.len() > 0,
    ensures
        rows_text(rows.update(rows.len() - 1, row)) == rows_text(rows.drop_last()) + row_text(row),
{
    assert(rows.update(rows.len() - 1, row).drop_last() == rows.drop_last());
}

/// Appending text to the current row appends it to the text of the rows, and keeps every row
/// well formed as long as the text is not empty, has no newline, and does not begin a row with
/// whitespace.
pub proof fn lemma_push_text_inv(st: WrapState, placed: Seq<char>, text: Seq<char>, style: TextStyle, w: nat)
    requires
        wrap_inv(st, placed),
        text.len() > 0,
        forall|i: int| 0 <= i < text.len() ==> text[i] != '\n',
        st.rows.last().len() == 0 ==> !is_ws(text[0]),
    ensures
        wrap_inv(push_text_state(st, text, style, w), placed + text),
        rows_text(push_text_state(st, text, style, w).rows) == rows_text(st.rows) + text,
{
    let last = st.rows.len() - 1;
    let row = st.rows[last];
    let after = push_text_state(st, text, style, w);
    let new_row = after.rows[last];
    if row.len() > 0 && row.last().style == style {
        let merged = SpanView { text: row.last().text + text, style };
        assert(new_row == row.update(row.len() - 1, merged));
        assert(new_row.drop_last() == row.drop_last());
        assert(row_text(new_row) == row_text(row.drop_last()) + merged.text);
        assert(row_text(new_row) == row_text(row) + text);
        assert(row_ok(row));
        assert(span_ok(row[row.len() - 1]));
        assert(span_ok(merged));
        assert forall|i: int| 0 <= i < new_row.len() implies span_ok(#[trigger] new_row[i]) by {
            if i < row.len() - 1 {
                assert(new_row[i] == row[i]);
            }
        }
        if row.len() == 1 {
            assert(new_row[0].text[0] == row[0].text[0]);
        } else {
            assert(new_row[0] == row[0]);
        }
    } else {
        assert(new_row == row.push(SpanView { text, style }));
        assert(new_row.drop_last() == row);
        assert(row_text(new_row) == row_text(row) + text);
        assert forall|i: int| 0 <= i < new_row.len() implies span_ok(#[trigger] new_row[i]) by {
            if i < row.len() {
                assert(new_row[i] == row[i]);
            }
        }
        if row.len() > 0 {
            assert(new_row[0] == row[0]);
        }
    }
    assert(row_ok(new_row));
    lemma_rows_text_update_last(st.rows, new_row);
    assert(st.rows.drop_last() + seq![row] == st.rows);
    assert(rows_text(st.rows) == rows_text(st.rows.drop_last()) + row_text(row));
    assert(rows_text(after.rows) == rows_text(st.rows) + text);
    lemma_nonws_add(rows_text(st.rows), text);
    lemma_nonws_add(placed, text);
    assert forall|r: int| 0 <= r < after.rows.len() implies row_ok(#[trigger] after.rows[r]) by {
        if r < last {
            assert(after.rows[r] == st.rows[r]);
        }
    }
    assert forall|r: int| 0 <= r < after.rows.len() - 1 implies row_ends_clean(#[trigger] after.rows[r]) by {
        assert(after.rows[r] == st.rows[r]);
    }
}

/// Trimming a well-formed row keeps it well formed, leaves it trimmed at its end, and keeps its
/// visible characters.
pub proof fn lemma_trim_row_props(row: Seq<SpanView>, w: nat)
    requires
        row_ok(row),
    ensures
        row_ok(trim_row(row, w).0),
        row_ends_clean(trim_row(row, w).0),
        nonws(row_text(trim_row(row, w).0)) == nonws(row_text(row)),
    decreases row.len(),
{
    if row.len() > 0 {
        let c = row.last().text;
        let t = trim_end_len(c);
        lemma_trim_end_len_props(c);
        assert(span_ok(row[row.len() - 1]));
        assert(row_text(row) == row_text(row.drop_last()) + c);
        assert(c == c.subrange(0, t as int) + c.subrange(t as int, c.len() as int));
        lemma_nonws_all_ws(c.subrange(t as int, c.len() as int));
        lemma_nonws_add(c.subrange(0, t as int), c.subrange(t as int, c.len() as int));
        if t == c.len() {
        } else {
            let w2 = sat_sub(w, crate::unicode::str_display_width(c.subrange(t as int, c.len() as int)) as nat);
            if t == 0 {
                let shorter = row.drop_last();
                assert forall|i: int| 0 <= i < shorter.len() implies span_ok(#[trigger] shorter[i]) by {
                    assert(shorter[i] == row[i]);
                }
                if shorter.len() > 0 {
                    assert(shorter[0] == row[0]);
                }
                lemma_trim_row_props(shorter, w2);
                lemma_nonws_add(row_text(shorter), c);
                assert(c.subrange(0, 0) =~= Seq::<char>::empty());
            } else {
                let kept = SpanView { text: c.subrange(0, t as int), style: row.last().style };
                let nr = row.update(row.len() - 1, kept);
                assert(nr.drop_last() == row.drop_last());
                assert(row_text(nr) == row_text(row.drop_last()) + kept.text);
                lemma_nonws_add(row_text(row.drop_last()), kept.text);
                lemma_nonws_add(row_text(row.drop_last()), c);
                assert forall|i: int| 0 <= i < nr.len() implies span_ok(#[trigger] nr[i]) by {
                    if i < row.len() - 1 {
                        assert(nr[i] == row[i]);
                    }
                }
                if row.len() == 1 {
                    assert(nr[0].text[0] == row[0].text[0]);
                } else {
                    assert(nr[0] == row[0]);
                }
            }
        }
    }
}


/// Trimming the current row keeps the invariant, and leaves every row trimmed at its end.
pub proof fn lemma_trim_last_inv(st: WrapState, placed: Seq<char>)
    requires
        wrap_inv(st, placed),
    ensures
        wrap_inv(trim_last(st), placed),
        forall|r: int| 0 <= r < trim_last(st).rows.len() ==> row_ends_clean(#[trigger] trim_last(st).rows[r]),
        trim_last(st).rows.len() == st.rows.len(),
{
    let last = st.rows.len() - 1;
    let t = trim_last(st);
    let tr = trim_row(st.rows[last], st.widths[last]);
    lemma_trim_row_props(st.rows[last], st.widths[last]);
    lemma_rows_text_update_last(st.rows, tr.0);
    assert(st.rows.drop_last() + seq![st.rows[last]] == st.rows);
    assert(rows_text(st.rows) == rows_text(st.rows.drop_last()) + row_text(st.rows[last]));
    lemma_nonws_add(rows_text(st.rows.drop_last()), row_text(tr.0));
    lemma_nonws_add(rows_text(st.rows.drop_last()), row_text(st.rows[last]));
    assert forall|r: int| 0 <= r < t.rows.len() implies row_ok(#[trigger] t.rows[r]) by {
        if r < last {
            assert(t.rows[r] == st.rows[r]);
        }
    }
    assert forall|r: int| 0 <= r < t.rows.len() implies row_ends_clean(#[trigger] t.rows[r]) by {
        if r < last {
            assert(t.rows[r] == st.rows[r]);
        }
    }
}

/// Ending the row keeps the invariant and the text, and the new current row is empty.
pub proof fn lemma_break_row_inv(st: WrapState, placed: Seq<char>)
    requires
        wrap_inv(st, placed),
    ensures
        wrap_inv(break_row(st), placed),
        break_row(st).rows.last().len() == 0,
{
    lemma_trim_last_inv(st, placed);
    let t = trim_last(st);
    let b = break_row(st);
    assert(b.rows.drop_last() == t.rows);
    assert(row_text(b.rows.last()) == Seq::<char>::empty());
    assert(rows_text(b.rows) == rows_text(t.rows) + Seq::<char>::empty());
    assert(rows_text(t.rows) + Seq::<char>::empty() == rows_text(t.rows));
    assert forall|r: int| 0 <= r < b.rows.len() implies row_ok(#[trigger] b.rows[r]) by {
        if r < t.rows.len() {
            assert(b.rows[r] == t.rows[r]);
        }
    }
    assert forall|r: int| 0 <= r < b.rows.len() - 1 implies row_ends_clean(#[trigger] b.rows[r]) by {
        assert(b.rows[r] == t.rows[r]);
    }
}

/// While a word without whitespace is hard-broken, the rows plus the pending piece hold the
/// visible characters placed before it and the part of the word taken so far.
pub proof fn lemma_chunk_chars_inv(
    st: WrapState,
    placed: Seq<char>,
    text: Seq<char>,
    style: TextStyle,
    width: nat,
)
    requires
        wrap_inv(st, placed),
        forall|i: int| 0 <= i < text.len() ==> !is_ws(text[i]),
    ensures
        ({
            let ch = chunk_chars(st, text, style, width);
            &&& wrap_inv(ch.st, nonws(rows_text(ch.st.rows)))
            &&& nonws(rows_text(ch.st.rows)) + ch.chunk == nonws(placed) + text
            &&& forall|i: int| 0 <= i < ch.chunk.len() ==> !is_ws(ch.chunk[i])
        }),
    decreases text.len(),
{
    if text.len() == 0 {
        assert(nonws(placed) + text == nonws(placed));
        assert(nonws(rows_text(st.rows)) + Seq::<char>::empty() == nonws(rows_text(st.rows)));
        lemma_nonws_idem(rows_text(st.rows));
    } else {
        let prev = text.drop_last();
        assert forall|i: int| 0 <= i < prev.len() implies !is_ws(prev[i]) by {
            assert(prev[i] == text[i]);
        }
        lemma_chunk_chars_inv(st, placed, prev, style, width);
        let ch = chunk_chars(st, prev, style, width);
        let c = text.last();
        assert(!is_ws(c));
        let w = crate::unicode::char_columns(c);
        let done = nonws(rows_text(ch.st.rows));
        assert(text == prev + seq![c]);
        let n = chunk_chars(st, text, style, width);
        if w == 0 && ch.chunk.len() > 0 {
            assert(n.st == ch.st);
            assert(n.chunk == ch.chunk.push(c));
            assert(done + n.chunk == (done + ch.chunk) + seq![c]);
            assert(nonws(placed) + text == (nonws(placed) + prev) + seq![c]);
        } else if ch.cw + w > width && ch.chunk.len() > 0 {
            lemma_nonws_idem(rows_text(ch.st.rows));
            assert forall|i: int| 0 <= i < ch.chunk.len() implies ch.chunk[i] != '\n' by {
                assert(!is_ws(ch.chunk[i]));
            }
            lemma_push_text_inv(ch.st, rows_text(ch.st.rows), ch.chunk, style, ch.cw);
            let p = push_text_state(ch.st, ch.chunk, style, ch.cw);
            lemma_break_row_inv(p, rows_text(ch.st.rows) + ch.chunk);
            let b = break_row(p);
            lemma_nonws_add(rows_text(ch.st.rows), ch.chunk);
            lemma_nonws_no_ws(ch.chunk);
            lemma_nonws_idem(rows_text(b.rows));
            assert(nonws(rows_text(b.rows)) == done + ch.chunk);
            assert(n.st == b);
            assert(n.chunk == seq![c]);
            assert(nonws(rows_text(n.st.rows)) + n.chunk == (done + ch.chunk) + seq![c]);
            assert(nonws(placed) + text == (nonws(placed) + prev) + seq![c]);
        } else {
            assert(n.st == ch.st);
            assert(n.chunk == ch.chunk.push(c));
            assert(done + n.chunk == (done + ch.chunk) + seq![c]);
            assert(nonws(placed) + text == (nonws(placed) + prev) + seq![c]);
        }
        assert forall|i: int| 0 <= i < n.chunk.len() implies !is_ws(n.chunk[i]) by {
            if i < n.chunk.len() - 1 {
            }
        }
    }
}

/// Filtering out whitespace twice is filtering it out once.
pub proof fn lemma_nonws_idem(s: Seq<char>)
    ensures
        nonws(nonws(s)) == nonws(s),
    decreases s.len(),
{
    if s.len() > 0 {
        lemma_nonws_idem(s.drop_last());
        let tail = if is_ws(s.last()) {
            Seq::<char>::empty()
        } else {
            seq![s.last()]
        };
        lemma_nonws_add(nonws(s.drop_last()), tail);
        lemma_nonws_no_ws(tail);
    }
}

/// A sequence without whitespace is its own visible part.
pub proof fn lemma_nonws_no_ws(s: Seq<char>)
    requires
        forall|i: int| 0 <= i < s.len() ==> !is_ws(s[i]),
    ensures
        nonws(s) == s,
    decreases s.len(),
{
    if s.len() > 0 {
        let p = s.drop_last();
        assert forall|i: int| 0 <= i < p.len() implies !is_ws(p[i]) by {
            assert(p[i] == s[i]);
        }
        lemma_nonws_no_ws(p);
        assert(p + seq![s.last()] == s);
    }
}


/// Appending whitespace leaves the visible characters as they were.
pub proof fn lemma_nonws_add_ws(a: Seq<char>, b: Seq<char>)
    requires
        forall|i: int| 0 <= i < b.len() ==> is_ws(b[i]),
    ensures
        nonws(a + b) == nonws(a),
{
    lemma_nonws_add(a, b);
    lemma_nonws_all_ws(b);
    assert(nonws(a) + Seq::<char>::empty() == nonws(a));
}

/// Placing one well-formed atom keeps the invariant, with the atom's text placed.
pub proof fn lemma_wrap_atom_inv(st: WrapState, placed: Seq<char>, atom: AtomView, width: nat)
    requires
        wrap_inv(st, placed),
        atom_ok(atom),
    ensures
        wrap_inv(wrap_atom(st, atom, width), placed + atom.text),
{
    let res = wrap_atom(st, atom, width);
    if atom.newline {
        lemma_break_row_inv(st, placed);
        lemma_nonws_add_ws(placed, atom.text);
    } else if atom.is_space {
        if st.rows.last().len() == 0 {
            lemma_nonws_add_ws(placed, atom.text);
        } else {
            lemma_push_text_inv(st, placed, atom.text, atom.style, atom.width);
        }
    } else {
        let lw = st.widths.last();
        let st1 = if lw > 0 && lw + atom.width > width {
            break_row(st)
        } else {
            st
        };
        if lw > 0 && lw + atom.width > width {
            lemma_break_row_inv(st, placed);
        }
        assert(wrap_inv(st1, placed));
        assert forall|i: int| 0 <= i < atom.text.len() implies !is_ws(atom.text[i]) by {
        }
        lemma_nonws_no_ws(atom.text);
        if atom.width > width {
            lemma_chunk_chars_inv(st1, placed, atom.text, atom.style, width);
            let ch = chunk_chars(st1, atom.text, atom.style, width);
            lemma_chunk_nonempty(st1, atom.text, atom.style, width);
            let rw = ch.st.widths.last();
            let st2 = if rw > 0 && rw + ch.cw > width {
                break_row(ch.st)
            } else {
                ch.st
            };
            let done = nonws(rows_text(ch.st.rows));
            if rw > 0 && rw + ch.cw > width {
                lemma_break_row_inv(ch.st, done);
            }
            assert(wrap_inv(st2, done));
            assert forall|i: int| 0 <= i < ch.chunk.len() implies ch.chunk[i] != '\n' by {
                assert(!is_ws(ch.chunk[i]));
            }
            lemma_push_text_inv(st2, done, ch.chunk, atom.style, ch.cw);
            lemma_nonws_add(done, ch.chunk);
            lemma_nonws_idem(rows_text(ch.st.rows));
            lemma_nonws_no_ws(ch.chunk);
            lemma_nonws_add(placed, atom.text);
            assert(nonws(done + ch.chunk) == nonws(placed + atom.text));
        } else {
            lemma_push_text_inv(st1, placed, atom.text, atom.style, atom.width);
        }
    }
}

/// Hard-breaking a non-empty word always leaves a piece to place.
pub proof fn lemma_chunk_nonempty(st: WrapState, text: Seq<char>, style: TextStyle, width: nat)
    requires
        text.len() > 0,
    ensures
        chunk_chars(st, text, style, width).chunk.len() > 0,
{
}


/// Placing well-formed atoms one after another keeps the invariant, with their texts placed.
pub proof fn lemma_wrap_atoms_inv(st: WrapState, placed: Seq<char>, atoms: Seq<AtomView>, width: nat)
    requires
        wrap_inv(st, placed),
        forall|i: int| 0 <= i < atoms.len() ==> atom_ok(#[trigger] atoms[i]),
    ensures
        wrap_inv(wrap_atoms(st, atoms, width), placed + atoms_text(atoms)),
    decreases atoms.len(),
{
    if atoms.len() == 0 {
        assert(placed + atoms_text(atoms) == placed);
    } else {
        let prev = atoms.drop_last();
        assert forall|i: int| 0 <= i < prev.len() implies atom_ok(#[trigger] prev[i]) by {
            assert(prev[i] == atoms[i]);
        }
        lemma_wrap_atoms_inv(st, placed, prev, width);
        assert(atom_ok(atoms[atoms.len() - 1]));
        lemma_wrap_atom_inv(wrap_atoms(st, prev, width), placed + atoms_text(prev), atoms.last(), width);
        assert(placed + atoms_text(atoms) == (placed + atoms_text(prev)) + atoms.last().text);
    }
}

/// Placing the atoms of all of `spans` keeps the invariant, with the spans' text placed.
pub proof fn lemma_wrap_span_seq_inv(spans: Seq<SpanView>, width: nat)
    ensures
        wrap_inv(wrap_span_seq(spans, width), row_text(spans)),
    decreases spans.len(),
{
    if spans.len() == 0 {
        let st = initial_wrap_state();
        assert(st.rows.drop_last() =~= Seq::<Seq<SpanView>>::empty());
        assert(rows_text(st.rows) == rows_text(st.rows.drop_last()) + row_text(st.rows.last()));
        assert(rows_text(st.rows) =~= Seq::<char>::empty());
        assert(row_ok(st.rows[0]));
    } else {
        let prev = spans.drop_last();
        lemma_wrap_span_seq_inv(prev, width);
        let atoms = spec_atoms_of(spans.last());
        lemma_atoms_of(spans.last());
        lemma_wrap_atoms_inv(wrap_span_seq(prev, width), row_text(prev), atoms, width);
        lemma_nonws_add(row_text(prev), atoms_text(atoms));
        lemma_nonws_add(row_text(prev), spans.last().text);
        let res = wrap_span_seq(spans, width);
        assert(nonws(rows_text(res.rows)) == nonws(row_text(prev) + atoms_text(atoms)));
        assert(nonws(row_text(prev) + atoms_text(atoms)) == nonws(row_text(spans)));
    }
}

/// Wrapping at zero columns yields no rows at all.
pub proof fn law_wrap_zero_width_is_empty(spans: Seq<SpanView>)
    ensures
        spec_wrap(spans, 0) == Seq::<Seq<SpanView>>::empty(),
{
}

/// Wrapping at a positive width yields at least one row; every row is trimmed (no span is
/// empty, no row begins or ends with whitespace), no row holds a newline, and the visible
/// characters of the rows are exactly those of the spans, in the same order: wrapping only
/// moves, drops or expands whitespace.
pub proof fn law_wrap_keeps_visible_text(spans: Seq<SpanView>, width: nat)
    requires
        width > 0,
    ensures
        spec_wrap(spans, width).len() >= 1,
        forall|r: int|
            0 <= r < spec_wrap(spans, width).len() ==> row_trimmed(#[trigger] spec_wrap(spans, width)[r]),
        nonws(rows_text(spec_wrap(spans, width))) == nonws(row_text(spans)),
{
    lemma_wrap_span_seq_inv(spans, width);
    lemma_trim_last_inv(wrap_span_seq(spans, width), row_text(spans));
}

} // verus!
