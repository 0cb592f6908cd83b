//! How wide the rows of a wrapping are, and how many there are: every row fits the width, and
//! every newline of the text starts a row of its own.

use vstd::prelude::*;

use crate::style::{SpanView, TextStyle};
use crate::text_wrap::{
    AtomScan, AtomView, Chunking, WrapState, break_row, chunk_char, chunk_chars, cols_sum, expand_char,
    newline_atom, push_broken_state, push_text_state, scan_char, scan_chars, scan_flush, spec_atoms_of,
    spec_wrap, trim_end_len, trim_last, trim_row, wrap_atom, wrap_atoms, wrap_span_seq,
    initial_wrap_state, sat_sub,
};
use crate::unicode::{char_columns, is_ws, str_display_width};
use crate::wrap_laws::{
    atom_ok, lemma_atoms_of, lemma_break_row_inv, lemma_chunk_nonempty, lemma_push_text_inv,
    lemma_trim_end_len_props, lemma_trim_last_inv, row_ends_clean, row_ok, row_text, rows_text,
    span_ok, wrap_inv,
};

verus! {

/// The number of newlines in `s`.
pub open spec fn nl_count(s: Seq<char>) -> nat
    decreases s.len(),
{
    if s.len() == 0 {
        0
    } else {
        nl_count(s.drop_last()) + if s.last() == '\n' {
            1nat
        } else {
            0nat
        }
    }
}

/// The number of hard line breaks among `atoms`.
pub open spec fn atoms_nl(atoms: Seq<AtomView>) -> nat
    decreases atoms.len(),
{
    if atoms.len() == 0 {
        0
    } else {
        atoms_nl(atoms.drop_last()) + if atoms.last().newline {
            1nat
        } else {
            0nat
        }
    }
}

pub proof fn lemma_nl_count_add(a: Seq<char>, b: Seq<char>)
    ensures
        nl_count(a + b) == nl_count(a) + nl_count(b),
    decreases b.len(),
{
    if b.len() == 0 {
        assert(a + b =~= a);
    } else {
        assert((a + b).drop_last() =~= a + b.drop_last());
        lemma_nl_count_add(a, b.drop_last());
    }
}

/// Flushing a run adds no line break.
proof fn lemma_scan_flush_nl(st: AtomScan, style: TextStyle)
    ensures
        atoms_nl(scan_flush(st, style).atoms) == atoms_nl(st.atoms),
{
    if st.text.len() > 0 {
        assert(scan_flush(st, style).atoms.drop_last() == st.atoms);
    }
}

/// A span yields one line-break atom per newline of its text.
pub proof fn lemma_scan_chars_nl(chars: Seq<char>, style: TextStyle)
    ensures
        atoms_nl(scan_chars(chars, style).atoms) == nl_count(chars),
    decreases chars.len(),
{
    if chars.len() > 0 {
        let prev = chars.drop_last();
        let c = chars.last();
        lemma_scan_chars_nl(prev, style);
        let st = scan_chars(prev, style);
        lemma_scan_flush_nl(st, style);
        if c == '\n' {
            let f = scan_flush(st, style);
            assert(scan_char(st, c, style).atoms.drop_last() == f.atoms);
        }
    }
}

pub proof fn lemma_atoms_of_nl(span: SpanView)
    ensures
        atoms_nl(spec_atoms_of(span)) == nl_count(span.text),
{
    lemma_scan_chars_nl(span.text, span.style);
    lemma_scan_flush_nl(scan_chars(span.text, span.style), span.style);
}

/// Hard-breaking a word never takes rows away.
proof fn lemma_chunk_rows(st: WrapState, text: Seq<char>, style: TextStyle, width: nat)
    ensures
        chunk_chars(st, text, style, width).st.rows.len() >= st.rows.len(),
    decreases text.len(),
{
    if text.len() > 0 {
        lemma_chunk_rows(st, text.drop_last(), style, width);
    }
}

/// Placing an atom never takes rows away, and a line break adds one.
pub proof fn lemma_wrap_atom_rows(st: WrapState, atom: AtomView, width: nat)
    ensures
        wrap_atom(st, atom, width).rows.len() >= st.rows.len() + if atom.newline {
            1nat
        } else {
            0nat
        },
{
    if !atom.newline && !atom.is_space {
        let lw = st.widths.last();
        let st1 = if lw > 0 && lw + atom.width > width {
            break_row(st)
        } else {
            st
        };
        lemma_chunk_rows(st1, atom.text, atom.style, width);
    }
}

pub proof fn lemma_wrap_atoms_rows(st: WrapState, atoms: Seq<AtomView>, width: nat)
    ensures
        wrap_atoms(st, atoms, width).rows.len() >= st.rows.len() + atoms_nl(atoms),
    decreases atoms.len(),
{
    if atoms.len() > 0 {
        lemma_wrap_atoms_rows(st, atoms.drop_last(), width);
        lemma_wrap_atom_rows(wrap_atoms(st, atoms.drop_last(), width), atoms.last(), width);
    }
}

pub proof fn lemma_wrap_span_seq_rows(spans: Seq<SpanView>, width: nat)
    ensures
        wrap_span_seq(spans, width).rows.len() >= 1 + nl_count(row_text(spans)),
    decreases spans.len(),
{
    if spans.len() > 0 {
        let prev = spans.drop_last();
        lemma_wrap_span_seq_rows(prev, width);
        lemma_atoms_of_nl(spans.last());
        lemma_wrap_atoms_rows(wrap_span_seq(prev, width), spec_atoms_of(spans.last()), width);
        lemma_nl_count_add(row_text(prev), spans.last().text);
    }
}

/// Every newline starts a row of its own: wrapping at a positive width yields at least one row
/// more than the text has newlines.
pub proof fn law_wrap_row_per_newline(spans: Seq<SpanView>, width: nat)
    requires
        width > 0,
    ensures
        spec_wrap(spans, width).len() >= 1 + nl_count(row_text(spans)),
{
    lemma_wrap_span_seq_rows(spans, width);
}

/// The characters of `s` up to its last visible one.
pub open spec fn trimmed(s: Seq<char>) -> Seq<char> {
    s.subrange(0, trim_end_len(s) as int)
}

/// Every character of every span of `row` is in `chars`.
pub open spec fn row_within(row: Seq<SpanView>, chars: Set<char>) -> bool {
    forall|j: int, i: int|
        0 <= j < row.len() && 0 <= i < row[j].text.len() ==> chars.contains(#[trigger] row[j].text[i])
}

/// On text made of the characters `chars`, the display width that `unicode-width` gives is the
/// sum of the characters' own widths (no character's width depends on its neighbours).
pub open spec fn widths_add_up(chars: Set<char>) -> bool {
    forall|s: Seq<char>|
        (forall|i: int| 0 <= i < s.len() ==> chars.contains(s[i])) ==> #[trigger] str_display_width(s)
            == cols_sum(s)
}

/// Every visible character of `chars` fits in `width` columns.
pub open spec fn narrow_enough(chars: Set<char>, width: nat) -> bool {
    forall|c: char| chars.contains(c) && !is_ws(c) ==> char_columns(c) <= width
}

/// What wrapping keeps of the rows' widths: each row is made of `chars`, its count is the sum of
/// its characters' widths, and up to its last visible character it fits in `width` columns.
pub open spec fn fit_inv(st: WrapState, chars: Set<char>, width: nat) -> bool {
    &&& wrap_inv(st, rows_text(st.rows))
    &&& forall|r: int| 0 <= r < st.rows.len() ==> row_within(#[trigger] st.rows[r], chars)
    &&& forall|r: int| 0 <= r < st.rows.len() ==> #[trigger] st.widths[r] == cols_sum(row_text(st.rows[r]))
    &&& forall|r: int| 0 <= r < st.rows.len() ==> cols_sum(trimmed(row_text(#[trigger] st.rows[r]))) <= width
}

pub proof fn lemma_cols_sum_add(a: Seq<char>, b: Seq<char>)
    ensures
        cols_sum(a + b) == cols_sum(a) + cols_sum(b),
    decreases b.len(),
{
    if b.len() == 0 {
        assert(a + b =~= a);
    } else {
        assert((a + b).drop_last() =~= a + b.drop_last());
        lemma_cols_sum_add(a, b.drop_last());
    }
}

/// Whitespace at the end does not change where the visible text ends.
proof fn lemma_trimmed_ws(a: Seq<char>, b: Seq<char>)
    requires
        forall|i: int| 0 <= i < b.len() ==> is_ws(b[i]),
    ensures
        trim_end_len(a + b) == trim_end_len(a),
        trimmed(a + b) == trimmed(a),
    decreases b.len(),
{
    if b.len() == 0 {
        assert(a + b =~= a);
    } else {
        assert((a + b).drop_last() =~= a + b.drop_last());
        assert((a + b).last() == b.last());
        lemma_trim_end_len_props(a);
        lemma_trimmed_ws(a, b.drop_last());
        assert(trimmed(a + b) =~= trimmed(a));
    }
}

/// Text that ends with a visible character is its own trimmed text.
proof fn lemma_trimmed_clean(s: Seq<char>)
    requires
        s.len() > 0 ==> !is_ws(s.last()),
    ensures
        trim_end_len(s) == s.len(),
        trimmed(s) == s,
{
    assert(s.subrange(0, s.len() as int) =~= s);
}

/// Trimming twice is trimming once.
proof fn lemma_trimmed_idem(s: Seq<char>)
    ensures
        trimmed(trimmed(s)) == trimmed(s),
{
    lemma_trim_end_len_props(s);
    let t = trimmed(s);
    if t.len() > 0 {
        assert(t.last() == s[trim_end_len(s) - 1]);
    }
    lemma_trimmed_clean(t);
}

/// Trimming a row drops exactly its trailing whitespace, and counts exactly what is left.
proof fn lemma_trim_row_fit(row: Seq<SpanView>, w: nat, chars: Set<char>)
    requires
        row_ok(row),
        row_within(row, chars),
        widths_add_up(chars),
        w == cols_sum(row_text(row)),
    ensures
        row_text(trim_row(row, w).0) == trimmed(row_text(row)),
        trim_row(row, w).1 == cols_sum(row_text(trim_row(row, w).0)),
        row_within(trim_row(row, w).0, chars),
    decreases row.len(),
{
    if row.len() == 0 {
        assert(trimmed(row_text(row)) =~= Seq::<char>::empty());
    } else {
        let last = row.len() - 1;
        let c = row.last().text;
        let t = trim_end_len(c);
        let rest = row.drop_last();
        lemma_trim_end_len_props(c);
        assert(span_ok(row[last]));
        assert(row_text(row) == row_text(rest) + c);
        let head = c.subrange(0, t as int);
        let tail = c.subrange(t as int, c.len() as int);
        assert(c == head + tail);
        assert(row_text(row) == (row_text(rest) + head) + tail);
        lemma_cols_sum_add(row_text(rest), c);
        lemma_cols_sum_add(head, tail);
        lemma_cols_sum_add(row_text(rest), head);
        if t == c.len() {
            assert(row_text(row).last() == c.last());
            lemma_trimmed_clean(row_text(row));
        } else {
            assert forall|i: int| 0 <= i < tail.len() implies chars.contains(tail[i]) by {
                assert(tail[i] == row[last].text[t + i]);
            }
            assert(str_display_width(tail) == cols_sum(tail));
            assert forall|i: int| 0 <= i < tail.len() implies is_ws(tail[i]) by {
                assert(tail[i] == c[t + i]);
            }
            lemma_trimmed_ws(row_text(rest) + head, tail);
            if t == 0 {
                assert(head =~= Seq::<char>::empty());
                assert(row_text(rest) + head =~= row_text(rest));
                assert forall|i: int| 0 <= i < rest.len() implies span_ok(#[trigger] rest[i]) by {
                    assert(rest[i] == row[i]);
                }
                if rest.len() > 0 {
                    assert(rest[0] == row[0]);
                }
                assert(row_ok(rest));
                assert forall|j: int, i: int| 0 <= j < rest.len() && 0 <= i < rest[j].text.len() implies chars.contains(
                    #[trigger] rest[j].text[i],
                ) by {
                    assert(rest[j] == row[j]);
                }
                lemma_trim_row_fit(rest, cols_sum(row_text(rest)), chars);
            } else {
                let kept = SpanView { text: head, style: row.last().style };
                let nr = row.update(last, kept);
                assert(nr.drop_last() == rest);
                assert(row_text(nr) == row_text(rest) + head);
                assert(head.last() == c[t - 1]);
                lemma_trimmed_clean(row_text(rest) + head);
                assert forall|j: int, i: int| 0 <= j < nr.len() && 0 <= i < nr[j].text.len() implies chars.contains(
                    #[trigger] nr[j].text[i],
                ) by {
                    if j < last {
                        assert(nr[j] == row[j]);
                    } else {
                        assert(nr[j].text[i] == row[last].text[i]);
                    }
                }
            }
        }
    }
}

/// Trimming the current row keeps the width invariant.
proof fn lemma_trim_last_fit(st: WrapState, chars: Set<char>, width: nat)
    requires
        fit_inv(st, chars, width),
        widths_add_up(chars),
    ensures
        fit_inv(trim_last(st), chars, width),
        trim_last(st).rows.len() == st.rows.len(),
        forall|r: int| 0 <= r < trim_last(st).rows.len() ==> row_ends_clean(#[trigger] trim_last(st).rows[r]),
{
    let last = st.rows.len() - 1;
    let t = trim_last(st);
    let row = st.rows[last];
    lemma_trim_last_inv(st, rows_text(st.rows));
    assert(row_ok(row));
    assert(row_within(row, chars));
    lemma_trim_row_fit(row, st.widths[last], chars);
    lemma_trimmed_idem(row_text(row));
    assert forall|r: int| 0 <= r < t.rows.len() implies row_within(#[trigger] t.rows[r], chars) by {
        if r < last {
            assert(t.rows[r] == st.rows[r]);
        }
    }
    assert forall|r: int| 0 <= r < t.rows.len() implies #[trigger] t.widths[r] == cols_sum(row_text(t.rows[r])) by {
        if r < last {
            assert(t.rows[r] == st.rows[r]);
        }
    }
    assert forall|r: int| 0 <= r < t.rows.len() implies cols_sum(trimmed(row_text(#[trigger] t.rows[r]))) <= width by {
        if r < last {
            assert(t.rows[r] == st.rows[r]);
        } else {
            assert(cols_sum(trimmed(row_text(row))) <= width);
        }
    }
}

/// Ending the row keeps the width invariant; the new row is empty and counts nothing.
proof fn lemma_break_row_fit(st: WrapState, chars: Set<char>, width: nat)
    requires
        fit_inv(st, chars, width),
        widths_add_up(chars),
    ensures
        fit_inv(break_row(st), chars, width),
        break_row(st).widths.last() == 0,
{
    lemma_trim_last_fit(st, chars, width);
    lemma_break_row_inv(st, rows_text(st.rows));
    let t = trim_last(st);
    let b = break_row(st);
    assert(row_text(Seq::<SpanView>::empty()) == Seq::<char>::empty());
    assert(trimmed(Seq::<char>::empty()) =~= Seq::<char>::empty());
    assert forall|r: int| 0 <= r < b.rows.len() implies row_within(#[trigger] b.rows[r], chars) by {
        if r < t.rows.len() {
            assert(b.rows[r] == t.rows[r]);
        }
    }
    assert forall|r: int| 0 <= r < b.rows.len() implies #[trigger] b.widths[r] == cols_sum(row_text(b.rows[r])) by {
        if r < t.rows.len() {
            assert(b.rows[r] == t.rows[r]);
        }
    }
    assert forall|r: int| 0 <= r < b.rows.len() implies cols_sum(trimmed(row_text(#[trigger] b.rows[r]))) <= width by {
        if r < t.rows.len() {
            assert(b.rows[r] == t.rows[r]);
        }
    }
}

/// Appending text made of `chars` keeps the width invariant when the text is whitespace, or
/// when it ends visibly and fits what is left of the row.
proof fn lemma_push_text_fit(st: WrapState, chars: Set<char>, width: nat, text: Seq<char>, style: TextStyle, w: nat)
    requires
        fit_inv(st, chars, width),
        text.len() > 0,
        forall|i: int| 0 <= i < text.len() ==> text[i] != '\n',
        st.rows.last().len() == 0 ==> !is_ws(text[0]),
        forall|i: int| 0 <= i < text.len() ==> chars.contains(text[i]),
        w == cols_sum(text),
        (forall|i: int| 0 <= i < text.len() ==> is_ws(text[i])) || (!is_ws(text.last()) && st.widths.last() + w
            <= width),
    ensures
        fit_inv(push_text_state(st, text, style, w), chars, width),
        push_text_state(st, text, style, w).rows.len() == st.rows.len(),
        push_text_state(st, text, style, w).widths.last() == st.widths.last() + w,
{
    let last = st.rows.len() - 1;
    let row = st.rows[last];
    let after = push_text_state(st, text, style, w);
    let new_row = after.rows[last];
    lemma_push_text_inv(st, rows_text(st.rows), text, style, w);
    assert(row_within(row, chars));
    if row.len() > 0 && row.last().style == style {
        let merged = SpanView { text: row.last().text + text, style };
        assert(new_row == row.update(row.len() - 1, merged));
        assert(new_row.drop_last() == row.drop_last());
        assert(row_text(new_row) == row_text(row.drop_last()) + merged.text);
        assert(row_text(new_row) == row_text(row) + text);
        assert forall|j: int, i: int| 0 <= j < new_row.len() && 0 <= i < new_row[j].text.len() implies chars.contains(
            #[trigger] new_row[j].text[i],
        ) by {
            if j < row.len() - 1 {
                assert(new_row[j] == row[j]);
            } else if i < row.last().text.len() {
                assert(new_row[j].text[i] == row[j].text[i]);
            } else {
                assert(new_row[j].text[i] == text[i - row.last().text.len()]);
            }
        }
    } else {
        assert(new_row == row.push(SpanView { text, style }));
        assert(new_row.drop_last() == row);
        assert(row_text(new_row) == row_text(row) + text);
        assert forall|j: int, i: int| 0 <= j < new_row.len() && 0 <= i < new_row[j].text.len() implies chars.contains(
            #[trigger] new_row[j].text[i],
        ) by {
            if j < row.len() {
                assert(new_row[j] == row[j]);
            }
        }
    }
    lemma_cols_sum_add(row_text(row), text);
    if forall|i: int| 0 <= i < text.len() ==> is_ws(text[i]) {
        lemma_trimmed_ws(row_text(row), text);
    } else {
        assert((row_text(row) + text).last() == text.last());
        lemma_trimmed_clean(row_text(row) + text);
    }
    assert forall|r: int| 0 <= r < after.rows.len() implies row_within(#[trigger] after.rows[r], chars) by {
        if r < last {
            assert(after.rows[r] == st.rows[r]);
        }
    }
    assert forall|r: int| 0 <= r < after.rows.len() implies #[trigger] after.widths[r] == cols_sum(row_text(after.rows[r])) by {
        if r < last {
            assert(after.rows[r] == st.rows[r]);
        }
    }
    assert forall|r: int| 0 <= r < after.rows.len() implies cols_sum(trimmed(row_text(#[trigger] after.rows[r]))) <= width by {
        if r < last {
            assert(after.rows[r] == st.rows[r]);
        }
    }
}

/// While a visible word is hard-broken, the rows keep the width invariant with an empty count
/// on the current row, and the pending piece is made of `chars` and fits the width.
proof fn lemma_chunk_fit(st: WrapState, chars: Set<char>, width: nat, text: Seq<char>, style: TextStyle)
    requires
        fit_inv(st, chars, width),
        widths_add_up(chars),
        narrow_enough(chars, width),
        st.widths.last() == 0,
        forall|i: int| 0 <= i < text.len() ==> !is_ws(text[i]) && chars.contains(text[i]),
    ensures
        ({
            let ch = chunk_chars(st, text, style, width);
            &&& fit_inv(ch.st, chars, width)
            &&& ch.st.widths.last() == 0
            &&& ch.cw == cols_sum(ch.chunk)
            &&& ch.cw <= width
            &&& forall|i: int| 0 <= i < ch.chunk.len() ==> !is_ws(ch.chunk[i]) && chars.contains(ch.chunk[i])
        }),
    decreases text.len(),
{
    if text.len() == 0 {
        assert(cols_sum(Seq::<char>::empty()) == 0);
    } else {
        let prev = text.drop_last();
        assert forall|i: int| 0 <= i < prev.len() implies !is_ws(prev[i]) && chars.contains(prev[i]) by {
            assert(prev[i] == text[i]);
        }
        lemma_chunk_fit(st, chars, width, prev, style);
        let ch = chunk_chars(st, prev, style, width);
        let c = text.last();
        let w = char_columns(c);
        assert(!is_ws(c) && chars.contains(c));
        assert(w <= width);
        let n = chunk_chars(st, text, style, width);
        assert(ch.chunk.push(c).drop_last() == ch.chunk);
        assert(seq![c].drop_last() =~= Seq::<char>::empty());
        if w == 0 && ch.chunk.len() > 0 {
            assert(n.chunk == ch.chunk.push(c));
        } else if ch.cw + w > width && ch.chunk.len() > 0 {
            assert(ch.chunk.last() == ch.chunk[ch.chunk.len() - 1]);
            lemma_push_text_fit(ch.st, chars, width, ch.chunk, style, ch.cw);
            let p = push_text_state(ch.st, ch.chunk, style, ch.cw);
            lemma_break_row_fit(p, chars, width);
            assert(n.st == break_row(p));
            assert(n.chunk == seq![c]);
        } else {
            assert(n.chunk == ch.chunk.push(c));
            if ch.chunk.len() == 0 {
                assert(ch.chunk =~= Seq::<char>::empty());
            }
        }
    }
}

/// An atom as `spec_atoms_of` builds it, measured on `chars`: a visible or whitespace run made
/// of `chars` whose count is the sum of its characters' widths.
pub open spec fn atom_fits(a: AtomView, chars: Set<char>) -> bool {
    !a.newline ==> (a.width == cols_sum(a.text) && forall|i: int| 0 <= i < a.text.len() ==> chars.contains(a.text[i]))
}

/// Placing one atom keeps the width invariant.
proof fn lemma_wrap_atom_fit(st: WrapState, chars: Set<char>, width: nat, atom: AtomView)
    requires
        fit_inv(st, chars, width),
        widths_add_up(chars),
        narrow_enough(chars, width),
        atom_ok(atom),
        atom_fits(atom, chars),
    ensures
        fit_inv(wrap_atom(st, atom, width), chars, width),
{
    if atom.newline {
        lemma_break_row_fit(st, chars, width);
    } else if atom.is_space {
        if st.rows.last().len() > 0 {
            lemma_push_text_fit(st, chars, width, atom.text, atom.style, atom.width);
        }
    } else {
        let lw = st.widths.last();
        let st1 = if lw > 0 && lw + atom.width > width {
            break_row(st)
        } else {
            st
        };
        if lw > 0 && lw + atom.width > width {
            lemma_break_row_fit(st, chars, width);
        }
        assert(atom.text.last() == atom.text[atom.text.len() - 1]);
        if atom.width > width {
            assert(st1.widths.last() == 0);
            lemma_chunk_fit(st1, chars, width, atom.text, atom.style);
            lemma_chunk_nonempty(st1, atom.text, atom.style, width);
            let ch = chunk_chars(st1, atom.text, atom.style, width);
            assert(ch.chunk.last() == ch.chunk[ch.chunk.len() - 1]);
            lemma_push_text_fit(ch.st, chars, width, ch.chunk, atom.style, ch.cw);
        } else {
            lemma_push_text_fit(st1, chars, width, atom.text, atom.style, atom.width);
        }
    }
}

proof fn lemma_wrap_atoms_fit(st: WrapState, chars: Set<char>, width: nat, atoms: Seq<AtomView>)
    requires
        fit_inv(st, chars, width),
        widths_add_up(chars),
        narrow_enough(chars, width),
        forall|k: int| 0 <= k < atoms.len() ==> atom_ok(#[trigger] atoms[k]) && atom_fits(atoms[k], chars),
    ensures
        fit_inv(wrap_atoms(st, atoms, width), chars, width),
    decreases atoms.len(),
{
    if atoms.len() > 0 {
        let prev = atoms.drop_last();
        assert forall|k: int| 0 <= k < prev.len() implies atom_ok(#[trigger] prev[k]) && atom_fits(prev[k], chars) by {
            assert(prev[k] == atoms[k]);
        }
        lemma_wrap_atoms_fit(st, chars, width, prev);
        assert(atom_ok(atoms[atoms.len() - 1]));
        lemma_wrap_atom_fit(wrap_atoms(st, prev, width), chars, width, atoms.last());
    }
}

/// A scan over characters of `chars` (or newlines and tabs) keeps its atoms measured on `chars`.
pub open spec fn scan_fit(st: AtomScan, chars: Set<char>) -> bool {
    &&& forall|k: int| 0 <= k < st.atoms.len() ==> atom_fits(#[trigger] st.atoms[k], chars)
    &&& forall|i: int| 0 <= i < st.text.len() ==> chars.contains(st.text[i])
}

proof fn lemma_scan_flush_fit(st: AtomScan, chars: Set<char>, style: TextStyle)
    requires
        scan_fit(st, chars),
        widths_add_up(chars),
    ensures
        scan_fit(scan_flush(st, style), chars),
{
    if st.text.len() > 0 {
        let f = scan_flush(st, style);
        assert(str_display_width(st.text) == cols_sum(st.text));
        assert forall|k: int| 0 <= k < f.atoms.len() implies atom_fits(#[trigger] f.atoms[k], chars) by {
            if k < st.atoms.len() {
                assert(f.atoms[k] == st.atoms[k]);
            }
        }
    }
}

proof fn lemma_scan_chars_fit(text: Seq<char>, chars: Set<char>, style: TextStyle)
    requires
        forall|i: int| 0 <= i < text.len() ==> text[i] == '\n' || text[i] == '\t' || chars.contains(text[i]),
        chars.contains(' '),
        widths_add_up(chars),
    ensures
        scan_fit(scan_chars(text, style), chars),
    decreases text.len(),
{
    if text.len() > 0 {
        let prev = text.drop_last();
        let c = text.last();
        assert forall|i: int| 0 <= i < prev.len() implies prev[i] == '\n' || prev[i] == '\t' || chars.contains(prev[i]) by {
            assert(prev[i] == text[i]);
        }
        lemma_scan_chars_fit(prev, chars, style);
        let st = scan_chars(prev, style);
        lemma_scan_flush_fit(st, chars, style);
        let f = scan_flush(st, style);
        let n = scan_char(st, c, style);
        if c == '\n' {
            assert forall|k: int| 0 <= k < n.atoms.len() implies atom_fits(#[trigger] n.atoms[k], chars) by {
                if k < f.atoms.len() {
                    assert(n.atoms[k] == f.atoms[k]);
                }
            }
        } else {
            let sp = is_ws(c);
            let g = if st.kind == Some(!sp) {
                f
            } else {
                st
            };
            assert(n.text == g.text + expand_char(c));
            assert forall|i: int| 0 <= i < n.text.len() implies chars.contains(n.text[i]) by {
                if i < g.text.len() {
                    assert(n.text[i] == g.text[i]);
                } else {
                    assert(n.text[i] == expand_char(c)[i - g.text.len()]);
                }
            }
        }
    }
}

/// The atoms of a span whose characters other than newlines and tabs are in `chars` are
/// measured on `chars`.
proof fn lemma_atoms_of_fit(span: SpanView, chars: Set<char>)
    requires
        forall|i: int| 0 <= i < span.text.len() ==> span.text[i] == '\n' || span.text[i] == '\t' || chars.contains(span.text[i]),
        chars.contains(' '),
        widths_add_up(chars),
    ensures
        forall|k: int| 0 <= k < spec_atoms_of(span).len() ==> atom_ok(#[trigger] spec_atoms_of(span)[k])
            && atom_fits(spec_atoms_of(span)[k], chars),
{
    lemma_atoms_of(span);
    lemma_scan_chars_fit(span.text, chars, span.style);
    lemma_scan_flush_fit(scan_chars(span.text, span.style), chars, span.style);
}

/// The characters of the spans, leaving out newlines and tabs, are all in `chars`.
pub open spec fn spans_within(spans: Seq<SpanView>, chars: Set<char>) -> bool {
    forall|k: int, i: int|
        0 <= k < spans.len() && 0 <= i < spans[k].text.len() ==> #[trigger] spans[k].text[i] == '\n'
            || spans[k].text[i] == '\t' || chars.contains(spans[k].text[i])
}

proof fn lemma_wrap_span_seq_fit(spans: Seq<SpanView>, chars: Set<char>, width: nat)
    requires
        spans_within(spans, chars),
        chars.contains(' '),
        widths_add_up(chars),
        narrow_enough(chars, width),
    ensures
        fit_inv(wrap_span_seq(spans, width), chars, width),
    decreases spans.len(),
{
    if spans.len() == 0 {
        let st = initial_wrap_state();
        crate::wrap_laws::lemma_wrap_span_seq_inv(spans, width);
        assert(row_text(Seq::<SpanView>::empty()) == Seq::<char>::empty());
        assert(trimmed(Seq::<char>::empty()) =~= Seq::<char>::empty());
        assert(st.rows[0] == Seq::<SpanView>::empty());
    } else {
        let prev = spans.drop_last();
        assert forall|k: int, i: int| 0 <= k < prev.len() && 0 <= i < prev[k].text.len() implies #[trigger] prev[k].text[i]
            == '\n' || prev[k].text[i] == '\t' || chars.contains(prev[k].text[i]) by {
            assert(prev[k] == spans[k]);
        }
        lemma_wrap_span_seq_fit(prev, chars, width);
        let last = spans.last();
        assert forall|i: int| 0 <= i < last.text.len() implies last.text[i] == '\n' || last.text[i] == '\t'
            || chars.contains(last.text[i]) by {
            assert(last.text[i] == spans[spans.len() - 1].text[i]);
        }
        lemma_atoms_of_fit(last, chars);
        lemma_wrap_atoms_fit(wrap_span_seq(prev, width), chars, width, spec_atoms_of(last));
    }
}

/// Every row fits the width. Take `chars` to be the characters of the spans (leaving out
/// newlines and tabs) together with the space that a tab becomes: when no visible one of them is
/// wider than `width`, and none of them changes width next to another (so that
/// `unicode-width` measures any text made of them as the sum of its characters' widths), every
/// row of the wrapping is at most `width` columns wide, counted character by character.
pub proof fn law_wrap_fits(spans: Seq<SpanView>, width: nat, chars: Set<char>)
    requires
        width > 0,
        spans_within(spans, chars),
        chars.contains(' '),
        widths_add_up(chars),
        narrow_enough(chars, width),
    ensures
        forall|r: int|
            0 <= r < spec_wrap(spans, width).len() ==> cols_sum(row_text(#[trigger] spec_wrap(spans, width)[r]))
                <= width,
{
    lemma_wrap_span_seq_fit(spans, chars, width);
    let st = wrap_span_seq(spans, width);
    lemma_trim_last_fit(st, chars, width);
    let t = trim_last(st);
    assert forall|r: int| 0 <= r < t.rows.len() implies cols_sum(row_text(#[trigger] t.rows[r])) <= width by {
        let row = t.rows[r];
        assert(row_ok(row));
        assert(row_ends_clean(row));
        if row.len() > 0 {
            assert(span_ok(row[row.len() - 1]));
            assert(row_text(row) == row_text(row.drop_last()) + row.last().text);
            assert(row_text(row).last() == row.last().text.last());
        }
        lemma_trimmed_clean(row_text(row));
    }
}

} // verus!
