//! Wrapping keeps the style of every visible character: each one is drawn in the style of the
//! span it came from.

use vstd::prelude::*;

use crate::style::{SpanView, TextStyle};
use crate::text_wrap::{
    AtomScan, AtomView, WrapState, break_row, chunk_chars, expand_char, push_text_state, scan_char,
    scan_chars, scan_flush, spec_atoms_of, spec_wrap, trim_end_len, trim_last, trim_row, wrap_atom,
    wrap_atoms, wrap_span_seq, initial_wrap_state, sat_sub,
};
use crate::unicode::is_ws;
use crate::wrap_laws::{
    atom_ok, lemma_atoms_of, lemma_break_row_inv, lemma_chunk_nonempty, lemma_push_text_inv,
    lemma_trim_end_len_props, lemma_trim_last_inv, row_ok, row_text, rows_text, span_ok, wrap_inv,
};

verus! {

/// Each character of `text` paired with `style`.
pub open spec fn tag(text: Seq<char>, style: TextStyle) -> Seq<(char, TextStyle)> {
    text.map_values(|c: char| (c, style))
}

/// The characters of a row, each with the style of its span.
pub open spec fn row_styled(row: Seq<SpanView>) -> Seq<(char, TextStyle)>
    decreases row.len(),
{
    if row.len() == 0 {
        Seq::empty()
    } else {
        row_styled(row.drop_last()) + tag(row.last().text, row.last().style)
    }
}

/// The characters of all rows, one after the other, each with its style.
pub open spec fn rows_styled(rows: Seq<Seq<SpanView>>) -> Seq<(char, TextStyle)>
    decreases rows.len(),
{
    if rows.len() == 0 {
        Seq::empty()
    } else {
        rows_styled(rows.drop_last()) + row_styled(rows.last())
    }
}

/// The characters of all atoms, each with the atom's style.
pub open spec fn atoms_styled(atoms: Seq<AtomView>) -> Seq<(char, TextStyle)>
    decreases atoms.len(),
{
    if atoms.len() == 0 {
        Seq::empty()
    } else {
        atoms_styled(atoms.drop_last()) + tag(atoms.last().text, atoms.last().style)
    }
}

/// The styled characters of `s` that are not whitespace, in order.
pub open spec fn vis(s: Seq<(char, TextStyle)>) -> Seq<(char, TextStyle)>
    decreases s.len(),
{
    if s.len() == 0 {
        Seq::empty()
    } else {
        vis(s.drop_last()) + if is_ws(s.last().0) {
            Seq::<(char, TextStyle)>::empty()
        } else {
            seq![s.last()]
        }
    }
}

pub proof fn lemma_vis_add(a: Seq<(char, TextStyle)>, b: Seq<(char, TextStyle)>)
    ensures
        vis(a + b) == vis(a) + vis(b),
    decreases b.len(),
{
    if b.len() == 0 {
        assert(a + b =~= a);
        assert(vis(a) + vis(b) =~= vis(a));
    } else {
        assert((a + b).drop_last() =~= a + b.drop_last());
        assert((a + b).last() == b.last());
        lemma_vis_add(a, b.drop_last());
        assert(vis(a + b) =~= vis(a) + vis(b));
    }
}

/// Whitespace has no visible part.
pub proof fn lemma_vis_ws(text: Seq<char>, style: TextStyle)
    requires
        forall|i: int| 0 <= i < text.len() ==> is_ws(text[i]),
    ensures
        vis(tag(text, style)) == Seq::<(char, TextStyle)>::empty(),
    decreases text.len(),
{
    if text.len() > 0 {
        let p = text.drop_last();
        assert(tag(text, style).drop_last() =~= tag(p, style));
        lemma_vis_ws(p, style);
    }
}

/// Text without whitespace is all visible.
pub proof fn lemma_vis_no_ws(s: Seq<(char, TextStyle)>)
    requires
        forall|i: int| 0 <= i < s.len() ==> !is_ws(s[i].0),
    ensures
        vis(s) == s,
    decreases s.len(),
{
    if s.len() > 0 {
        let p = s.drop_last();
        assert forall|i: int| 0 <= i < p.len() implies !is_ws(p[i].0) by {
            assert(p[i] == s[i]);
        }
        lemma_vis_no_ws(p);
        assert(p + seq![s.last()] =~= s);
    }
}

pub proof fn lemma_vis_idem(s: Seq<(char, TextStyle)>)
    ensures
        vis(vis(s)) == vis(s),
    decreases s.len(),
{
    if s.len() > 0 {
        lemma_vis_idem(s.drop_last());
        let t = if is_ws(s.last().0) {
            Seq::<(char, TextStyle)>::empty()
        } else {
            seq![s.last()]
        };
        lemma_vis_add(vis(s.drop_last()), t);
        lemma_vis_no_ws(t);
    }
}

proof fn lemma_tag_add(a: Seq<char>, b: Seq<char>, style: TextStyle)
    ensures
        tag(a + b, style) == tag(a, style) + tag(b, style),
{
    assert(tag(a + b, style) =~= tag(a, style) + tag(b, style));
}

/// What a scan keeps: every finished atom is in the span's style, and no visible character is
/// lost or restyled.
pub open spec fn scan_style_inv(st: AtomScan, chars: Seq<char>, style: TextStyle) -> bool {
    &&& forall|k: int| 0 <= k < st.atoms.len() ==> (#[trigger] st.atoms[k]).style == style
    &&& vis(atoms_styled(st.atoms) + tag(st.text, style)) == vis(tag(chars, style))
}

proof fn lemma_scan_flush_style(st: AtomScan, chars: Seq<char>, style: TextStyle)
    requires
        scan_style_inv(st, chars, style),
    ensures
        scan_style_inv(scan_flush(st, style), chars, style),
        scan_flush(st, style).text.len() == 0,
{
    if st.text.len() > 0 {
        let f = scan_flush(st, style);
        assert(f.atoms.drop_last() == st.atoms);
        assert(atoms_styled(f.atoms) == atoms_styled(st.atoms) + tag(st.text, style));
        assert(tag(f.text, style) =~= Seq::<(char, TextStyle)>::empty());
        assert(atoms_styled(f.atoms) + tag(f.text, style) =~= atoms_styled(st.atoms) + tag(st.text, style));
        assert forall|k: int| 0 <= k < f.atoms.len() implies (#[trigger] f.atoms[k]).style == style by {
            if k < st.atoms.len() {
                assert(f.atoms[k] == st.atoms[k]);
            }
        }
    }
}

proof fn lemma_scan_chars_style(chars: Seq<char>, style: TextStyle)
    ensures
        scan_style_inv(scan_chars(chars, style), chars, style),
    decreases chars.len(),
{
    if chars.len() == 0 {
        let st = scan_chars(chars, style);
        assert(atoms_styled(st.atoms) + tag(st.text, style) =~= tag(chars, style));
    } else {
        let prev = chars.drop_last();
        let c = chars.last();
        lemma_scan_chars_style(prev, style);
        let st = scan_chars(prev, style);
        assert(chars == prev + seq![c]);
        lemma_tag_add(prev, seq![c], style);
        lemma_vis_add(tag(prev, style), tag(seq![c], style));
        lemma_scan_flush_style(st, prev, style);
        let f = scan_flush(st, style);
        let n = scan_char(st, c, style);
        if c == '\n' {
            assert(n.atoms.drop_last() == f.atoms);
            assert(atoms_styled(n.atoms) == atoms_styled(f.atoms) + tag(seq!['\n'], style));
            assert(tag(f.text, style) =~= Seq::<(char, TextStyle)>::empty());
            assert(tag(n.text, style) =~= Seq::<(char, TextStyle)>::empty());
            assert(atoms_styled(n.atoms) + tag(n.text, style) =~= (atoms_styled(f.atoms) + tag(f.text, style))
                + tag(seq![c], style));
            lemma_vis_add(atoms_styled(f.atoms) + tag(f.text, style), tag(seq![c], style));
            assert forall|k: int| 0 <= k < n.atoms.len() implies (#[trigger] n.atoms[k]).style == style by {
                if k < f.atoms.len() {
                    assert(n.atoms[k] == f.atoms[k]);
                }
            }
        } else {
            let sp = is_ws(c);
            let g = if st.kind == Some(!sp) {
                f
            } else {
                st
            };
            assert(n.atoms == g.atoms);
            assert(n.text == g.text + expand_char(c));
            lemma_tag_add(g.text, expand_char(c), style);
            assert(vis(tag(expand_char(c), style)) == vis(tag(seq![c], style))) by {
                if c == '\t' {
                    lemma_vis_ws(expand_char(c), style);
                    lemma_vis_ws(seq![c], style);
                }
            }
            assert(atoms_styled(n.atoms) + tag(n.text, style) =~= (atoms_styled(g.atoms) + tag(g.text, style))
                + tag(expand_char(c), style));
            lemma_vis_add(atoms_styled(g.atoms) + tag(g.text, style), tag(expand_char(c), style));
        }
    }
}

proof fn lemma_atoms_of_style(span: SpanView)
    ensures
        forall|k: int| 0 <= k < spec_atoms_of(span).len() ==> (#[trigger] spec_atoms_of(span)[k]).style == span.style,
        vis(atoms_styled(spec_atoms_of(span))) == vis(tag(span.text, span.style)),
{
    lemma_scan_chars_style(span.text, span.style);
    let st = scan_chars(span.text, span.style);
    lemma_scan_flush_style(st, span.text, span.style);
    let f = scan_flush(st, span.style);
    assert(tag(f.text, span.style) =~= Seq::<(char, TextStyle)>::empty());
    assert(atoms_styled(f.atoms) + tag(f.text, span.style) =~= atoms_styled(f.atoms));
}

/// What wrapping keeps: the rows are well formed and their visible styled characters are those
/// of `placed`.
pub open spec fn style_inv(st: WrapState, placed: Seq<(char, TextStyle)>) -> bool {
    &&& wrap_inv(st, rows_text(st.rows))
    &&& vis(rows_styled(st.rows)) == vis(placed)
}

proof fn lemma_rows_styled_update_last(rows: Seq<Seq<SpanView>>, row: Seq<SpanView>)
    requires
        rows.len() > 0,
    ensures
        rows_styled(rows.update(rows.len() - 1, row)) == rows_styled(rows.drop_last()) + row_styled(row),
        rows_styled(rows) == rows_styled(rows.drop_last()) + row_styled(rows.last()),
{
    assert(rows.update(rows.len() - 1, row).drop_last() == rows.drop_last());
}

proof fn lemma_push_text_style(st: WrapState, placed: Seq<(char, TextStyle)>, text: Seq<char>, style: TextStyle, w: nat)
    requires
        style_inv(st, placed),
        text.len() > 0,
        forall|i: int| 0 <= i < text.len() ==> text[i] != '\n',
        st.rows.last().len() == 0 ==> !is_ws(text[0]),
    ensures
        style_inv(push_text_state(st, text, style, w), placed + tag(text, style)),
{
    let last = st.rows.len() - 1;
    let row = st.rows[last];
    let after = push_text_state(st, text, style, w);
    let new_row = after.rows[last];
    lemma_push_text_inv(st, rows_text(st.rows), text, style, w);
    if row.len() > 0 && row.last().style == style {
        let merged = SpanView { text: row.last().text + text, style };
        assert(new_row == row.update(row.len() - 1, merged));
        assert(new_row.drop_last() == row.drop_last());
        lemma_tag_add(row.last().text, text, style);
        assert(row_styled(new_row) == row_styled(row.drop_last()) + tag(merged.text, style));
        assert(row_styled(new_row) =~= row_styled(row) + tag(text, style));
    } else {
        assert(new_row == row.push(SpanView { text, style }));
        assert(new_row.drop_last() == row);
        assert(row_styled(new_row) == row_styled(row) + tag(text, style));
    }
    lemma_rows_styled_update_last(st.rows, new_row);
    assert(rows_styled(after.rows) =~= rows_styled(st.rows) + tag(text, style));
    lemma_vis_add(rows_styled(st.rows), tag(text, style));
    lemma_vis_add(placed, tag(text, style));
}

/// Trimming a row drops only whitespace.
proof fn lemma_trim_row_style(row: Seq<SpanView>, w: nat)
    requires
        row_ok(row),
    ensures
        vis(row_styled(trim_row(row, w).0)) == vis(row_styled(row)),
    decreases row.len(),
{
    if row.len() > 0 {
        let last = row.len() - 1;
        let c = row.last().text;
        let sty = row.last().style;
        let t = trim_end_len(c);
        lemma_trim_end_len_props(c);
        assert(span_ok(row[last]));
        let head = c.subrange(0, t as int);
        let tail = c.subrange(t as int, c.len() as int);
        assert(c == head + tail);
        lemma_tag_add(head, tail, sty);
        assert forall|i: int| 0 <= i < tail.len() implies is_ws(tail[i]) by {
            assert(tail[i] == c[t + i]);
        }
        lemma_vis_ws(tail, sty);
        assert(row_styled(row) == row_styled(row.drop_last()) + tag(c, sty));
        lemma_vis_add(row_styled(row.drop_last()) + tag(head, sty), tag(tail, sty));
        assert(row_styled(row) =~= (row_styled(row.drop_last()) + tag(head, sty)) + tag(tail, sty));
        assert(vis(row_styled(row)) =~= vis(row_styled(row.drop_last()) + tag(head, sty)));
        if t == c.len() {
        } else {
            let w2 = sat_sub(w, crate::unicode::str_display_width(tail) as nat);
            if t == 0 {
                let shorter = row.drop_last();
                assert forall|i: int| 0 <= i < shorter.len() implies span_ok(#[trigger] shorter[i]) by {
                    assert(shorter[i] == row[i]);
                }
                if shorter.len() > 0 {
                    assert(shorter[0] == row[0]);
                }
                lemma_trim_row_style(shorter, w2);
                assert(head =~= Seq::<char>::empty());
                assert(row_styled(shorter) + tag(head, sty) =~= row_styled(shorter));
            } else {
                let kept = SpanView { text: head, style: sty };
                let nr = row.update(last, kept);
                assert(nr.drop_last() == row.drop_last());
                assert(row_styled(nr) == row_styled(row.drop_last()) + tag(head, sty));
            }
        }
    }
}

proof fn lemma_trim_last_style(st: WrapState, placed: Seq<(char, TextStyle)>)
    requires
        style_inv(st, placed),
    ensures
        style_inv(trim_last(st), placed),
{
    let last = st.rows.len() - 1;
    let t = trim_last(st);
    let tr = trim_row(st.rows[last], st.widths[last]);
    lemma_trim_last_inv(st, rows_text(st.rows));
    lemma_trim_row_style(st.rows[last], st.widths[last]);
    lemma_rows_styled_update_last(st.rows, tr.0);
    lemma_vis_add(rows_styled(st.rows.drop_last()), row_styled(tr.0));
    lemma_vis_add(rows_styled(st.rows.drop_last()), row_styled(st.rows[last]));
}

proof fn lemma_break_row_style(st: WrapState, placed: Seq<(char, TextStyle)>)
    requires
        style_inv(st, placed),
    ensures
        style_inv(break_row(st), placed),
        break_row(st).rows.last().len() == 0,
{
    lemma_trim_last_style(st, placed);
    lemma_break_row_inv(st, rows_text(st.rows));
    let t = trim_last(st);
    let b = break_row(st);
    assert(b.rows.drop_last() == t.rows);
    assert(row_styled(b.rows.last()) == Seq::<(char, TextStyle)>::empty());
    assert(rows_styled(b.rows) =~= rows_styled(t.rows));
}

/// While a word is hard-broken, the rows plus the pending piece hold what was placed before and
/// the part of the word taken so far, in the word's style.
proof fn lemma_chunk_style(st: WrapState, placed: Seq<(char, TextStyle)>, text: Seq<char>, style: TextStyle, width: nat)
    requires
        style_inv(st, placed),
        forall|i: int| 0 <= i < text.len() ==> !is_ws(text[i]),
    ensures
        ({
            let ch = chunk_chars(st, text, style, width);
            &&& style_inv(ch.st, rows_styled(ch.st.rows))
            &&& vis(rows_styled(ch.st.rows)) + tag(ch.chunk, style) == vis(placed) + tag(text, style)
            &&& forall|i: int| 0 <= i < ch.chunk.len() ==> !is_ws(ch.chunk[i])
        }),
    decreases text.len(),
{
    if text.len() == 0 {
        assert(tag(text, style) =~= Seq::<(char, TextStyle)>::empty());
        assert(tag(Seq::<char>::empty(), style) =~= Seq::<(char, TextStyle)>::empty());
        lemma_vis_idem(rows_styled(st.rows));
        assert(vis(rows_styled(st.rows)) + Seq::<(char, TextStyle)>::empty() =~= vis(rows_styled(st.rows)));
        assert(vis(placed) + Seq::<(char, TextStyle)>::empty() =~= vis(placed));
    } else {
        let prev = text.drop_last();
        assert forall|i: int| 0 <= i < prev.len() implies !is_ws(prev[i]) by {
            assert(prev[i] == text[i]);
        }
        lemma_chunk_style(st, placed, prev, style, width);
        let ch = chunk_chars(st, prev, style, width);
        let c = text.last();
        let w = crate::unicode::char_columns(c);
        let done = vis(rows_styled(ch.st.rows));
        assert(text == prev + seq![c]);
        lemma_tag_add(prev, seq![c], style);
        lemma_tag_add(ch.chunk, seq![c], style);
        assert(ch.chunk.push(c) == ch.chunk + seq![c]);
        let n = chunk_chars(st, text, style, width);
        assert(vis(placed) + tag(text, style) =~= (vis(placed) + tag(prev, style)) + tag(seq![c], style));
        if w == 0 && ch.chunk.len() > 0 {
            assert(n.st == ch.st);
            assert(done + tag(n.chunk, style) =~= (done + tag(ch.chunk, style)) + tag(seq![c], style));
        } else if ch.cw + w > width && ch.chunk.len() > 0 {
            lemma_vis_idem(rows_styled(ch.st.rows));
            assert forall|i: int| 0 <= i < ch.chunk.len() implies ch.chunk[i] != '\n' by {
                assert(!is_ws(ch.chunk[i]));
            }
            lemma_push_text_style(ch.st, rows_styled(ch.st.rows), ch.chunk, style, ch.cw);
            let p = push_text_state(ch.st, ch.chunk, style, ch.cw);
            let pl = rows_styled(ch.st.rows) + tag(ch.chunk, style);
            lemma_break_row_style(p, pl);
            let b = break_row(p);
            lemma_vis_add(rows_styled(ch.st.rows), tag(ch.chunk, style));
            assert forall|i: int| 0 <= i < tag(ch.chunk, style).len() implies !is_ws(tag(ch.chunk, style)[i].0) by {
            }
            lemma_vis_no_ws(tag(ch.chunk, style));
            lemma_vis_idem(rows_styled(b.rows));
            assert(vis(rows_styled(b.rows)) == done + tag(ch.chunk, style));
            assert(n.st == b);
            assert(n.chunk == seq![c]);
            assert(vis(rows_styled(n.st.rows)) + tag(n.chunk, style) =~= (done + tag(ch.chunk, style)) + tag(seq![c], style));
        } else {
            assert(n.st == ch.st);
            assert(done + tag(n.chunk, style) =~= (done + tag(ch.chunk, style)) + tag(seq![c], style));
        }
    }
}

/// Placing an atom keeps the styled visible characters, with the atom's own added.
proof fn lemma_wrap_atom_style(st: WrapState, placed: Seq<(char, TextStyle)>, atom: AtomView, width: nat)
    requires
        style_inv(st, placed),
        atom_ok(atom),
    ensures
        style_inv(wrap_atom(st, atom, width), placed + tag(atom.text, atom.style)),
{
    let sty = atom.style;
    if atom.newline || atom.is_space {
        lemma_vis_ws(atom.text, sty);
        lemma_vis_add(placed, tag(atom.text, sty));
        assert(vis(placed) + Seq::<(char, TextStyle)>::empty() =~= vis(placed));
        if atom.newline {
            lemma_break_row_style(st, placed);
        } else if st.rows.last().len() > 0 {
            lemma_push_text_style(st, placed, atom.text, sty, atom.width);
        }
    } else {
        let lw = st.widths.last();
        let st1 = if lw > 0 && lw + atom.width > width {
            break_row(st)
        } else {
            st
        };
        if lw > 0 && lw + atom.width > width {
            lemma_break_row_style(st, placed);
        }
        assert(style_inv(st1, placed));
        if atom.width > width {
            lemma_chunk_style(st1, placed, atom.text, sty, width);
            let ch = chunk_chars(st1, atom.text, sty, width);
            lemma_chunk_nonempty(st1, atom.text, sty, width);
            let rw = ch.st.widths.last();
            let st2 = if rw > 0 && rw + ch.cw > width {
                break_row(ch.st)
            } else {
                ch.st
            };
            let done = rows_styled(ch.st.rows);
            if rw > 0 && rw + ch.cw > width {
                lemma_break_row_style(ch.st, done);
            }
            assert(style_inv(st2, done));
            assert forall|i: int| 0 <= i < ch.chunk.len() implies ch.chunk[i] != '\n' by {
                assert(!is_ws(ch.chunk[i]));
            }
            lemma_push_text_style(st2, done, ch.chunk, sty, ch.cw);
            lemma_vis_add(done, tag(ch.chunk, sty));
            lemma_vis_no_ws(tag(ch.chunk, sty));
            lemma_vis_no_ws(tag(atom.text, sty));
            lemma_vis_add(placed, tag(atom.text, sty));
        } else {
            lemma_push_text_style(st1, placed, atom.text, sty, atom.width);
        }
    }
}

proof fn lemma_wrap_atoms_style(st: WrapState, placed: Seq<(char, TextStyle)>, atoms: Seq<AtomView>, width: nat)
    requires
        style_inv(st, placed),
        forall|i: int| 0 <= i < atoms.len() ==> atom_ok(#[trigger] atoms[i]),
    ensures
        style_inv(wrap_atoms(st, atoms, width), placed + atoms_styled(atoms)),
    decreases atoms.len(),
{
    if atoms.len() == 0 {
        assert(placed + atoms_styled(atoms) =~= placed);
    } else {
        let prev = atoms.drop_last();
        assert forall|i: int| 0 <= i < prev.len() implies atom_ok(#[trigger] prev[i]) by {
            assert(prev[i] == atoms[i]);
        }
        lemma_wrap_atoms_style(st, placed, prev, width);
        assert(atom_ok(atoms[atoms.len() - 1]));
        lemma_wrap_atom_style(wrap_atoms(st, prev, width), placed + atoms_styled(prev), atoms.last(), width);
        assert(placed + atoms_styled(atoms) =~= (placed + atoms_styled(prev)) + tag(atoms.last().text, atoms.last().style));
    }
}

proof fn lemma_wrap_span_seq_style(spans: Seq<SpanView>, width: nat)
    ensures
        style_inv(wrap_span_seq(spans, width), row_styled(spans)),
    decreases spans.len(),
{
    crate::wrap_laws::lemma_wrap_span_seq_inv(spans, width);
    if spans.len() == 0 {
        let st = initial_wrap_state();
        assert(st.rows.drop_last() =~= Seq::<Seq<SpanView>>::empty());
        assert(st.rows.last() == Seq::<SpanView>::empty());
        assert(row_styled(Seq::<SpanView>::empty()) == Seq::<(char, TextStyle)>::empty());
        assert(rows_styled(st.rows) == rows_styled(st.rows.drop_last()) + row_styled(st.rows.last()));
        assert(rows_styled(st.rows) =~= Seq::<(char, TextStyle)>::empty());
    } else {
        let prev = spans.drop_last();
        lemma_wrap_span_seq_style(prev, width);
        let atoms = spec_atoms_of(spans.last());
        lemma_atoms_of(spans.last());
        lemma_atoms_of_style(spans.last());
        lemma_wrap_atoms_style(wrap_span_seq(prev, width), row_styled(prev), atoms, width);
        lemma_vis_add(row_styled(prev), atoms_styled(atoms));
        lemma_vis_add(row_styled(prev), tag(spans.last().text, spans.last().style));
    }
}

/// Every visible character keeps its style: the non-whitespace characters of the rows, each with
/// the style of the row span that holds it, are exactly those of the spans, each with the style of
/// the span it came from, in the same order.
pub proof fn law_wrap_keeps_styles(spans: Seq<SpanView>, width: nat)
    requires
        width > 0,
    ensures
        vis(rows_styled(spec_wrap(spans, width))) == vis(row_styled(spans)),
{
    lemma_wrap_span_seq_style(spans, width);
    lemma_trim_last_style(wrap_span_seq(spans, width), row_styled(spans));
}

} // verus!
