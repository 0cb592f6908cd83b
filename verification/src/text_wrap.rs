//! Span-aware greedy word wrapping.
//!
//! Both the article content pane (which interleaves image rows) and the article list (which caps
//! summaries at two lines) need to know exact line boundaries, so the wrapping is done here.

use vstd::prelude::*;

use crate::style::{SpanView, StyledSpan, TextStyle};
use crate::unicode::{
    char_columns, char_width, chars_of, is_whitespace, is_ws, push_char, push_str,
    str_display_width, str_width, string_of, string_of_range,
};

verus! {

/// A tab is expanded to this many columns before measuring.
pub const TAB_WIDTH: usize = 4;

/// The abstract value of an atom: one indivisible piece of a line.
pub struct AtomView {
    pub text: Seq<char>,
    pub style: TextStyle,
    pub width: nat,
    pub is_space: bool,
    pub newline: bool,
}

/// One indivisible piece of a line: a run of whitespace, a run of non-whitespace, or a hard
/// line break.
pub struct Atom {
    pub text: String,
    pub style: TextStyle,
    pub width: usize,
    pub is_space: bool,
    pub newline: bool,
}

impl View for Atom {
    type V = AtomView;

    open spec fn view(&self) -> AtomView {
        AtomView {
            text: self.text@,
            style: self.style,
            width: self.width as nat,
            is_space: self.is_space,
            newline: self.newline,
        }
    }
}

impl DeepView for Atom {
    type V = AtomView;

    open spec fn deep_view(&self) -> AtomView {
        self@
    }
}

/// Progress of splitting a span into atoms: the atoms so far and the run being collected.
pub struct AtomScan {
    pub atoms: Seq<AtomView>,
    pub text: Seq<char>,
    pub kind: Option<bool>,
}

/// Ends the run being collected, turning it into an atom if it is not empty.
pub open spec fn scan_flush(st: AtomScan, style: TextStyle) -> AtomScan {
    if st.text.len() == 0 {
        st
    } else {
        AtomScan {
            atoms: st.atoms.push(
                AtomView {
                    text: st.text,
                    style,
                    width: str_display_width(st.text) as nat,
                    is_space: match st.kind {
                        Some(b) => b,
                        None => false,
                    },
                    newline: false,
                },
            ),
            text: Seq::empty(),
            kind: None,
        }
    }
}

/// What a character becomes before measuring: a tab is four spaces.
pub open spec fn expand_char(c: char) -> Seq<char> {
    if c == '\t' {
        seq![' ', ' ', ' ', ' ']
    } else {
        seq![c]
    }
}

/// The atom that stands for a hard line break.
pub open spec fn newline_atom(style: TextStyle) -> AtomView {
    AtomView { text: seq!['\n'], style, width: 0, is_space: true, newline: true }
}

/// One character of a span taken into the scan.
pub open spec fn scan_char(st: AtomScan, c: char, style: TextStyle) -> AtomScan {
    if c == '\n' {
        let f = scan_flush(st, style);
        AtomScan { atoms: f.atoms.push(newline_atom(style)), ..f }
    } else {
        let sp = is_ws(c);
        let f = if st.kind == Some(!sp) {
            scan_flush(st, style)
        } else {
            st
        };
        AtomScan { atoms: f.atoms, text: f.text + expand_char(c), kind: Some(sp) }
    }
}

/// The scan after taking in all of `chars`.
pub open spec fn scan_chars(chars: Seq<char>, style: TextStyle) -> AtomScan
    decreases chars.len(),
{
    if chars.len() == 0 {
        AtomScan { atoms: Seq::empty(), text: Seq::empty(), kind: None }
    } else {
        scan_char(scan_chars(chars.drop_last(), style), chars.last(), style)
    }
}

/// The atoms of a span: maximal runs of whitespace and of non-whitespace, with every newline
/// an atom of its own and tabs expanded to four spaces.
pub open spec fn spec_atoms_of(span: SpanView) -> Seq<AtomView> {
    scan_flush(scan_chars(span.text, span.style), span.style).atoms
}

/// Ends the run being collected (`text`, of kind `kind`), turning it into an atom.
fn flush_run(atoms: &mut Vec<Atom>, text: &mut Vec<char>, kind: &mut Option<bool>, style: TextStyle)
    ensures
        ({
            let after = scan_flush(
                AtomScan { atoms: old(atoms).deep_view(), text: old(text)@, kind: *old(kind) },
                style,
            );
            &&& final(atoms).deep_view() == after.atoms
            &&& final(text)@ == after.text
            &&& *final(kind) == after.kind
        }),
{
    if text.len() == 0 {
        return;
    }
    let content = string_of(text.as_slice());
    let width = str_width(content.as_str());
    let is_space = match *kind {
        Some(b) => b,
        None => false,
    };
    let ghost before = atoms.deep_view();
    atoms.push(Atom { text: content, style, width, is_space, newline: false });
    assert(atoms.deep_view() =~= before.push(atoms@[atoms@.len() - 1].deep_view()));
    *text = Vec::new();
    *kind = None;
}

/// Splits a span into its atoms.
pub fn atoms_of(span: &StyledSpan) -> (atoms: Vec<Atom>)
    ensures
        atoms.deep_view() == spec_atoms_of(span@),
{
    let style = span.style;
    let chars = chars_of(span.content.as_str());
    let mut atoms: Vec<Atom> = Vec::new();
    let mut text: Vec<char> = Vec::new();
    let mut kind: Option<bool> = None;
    let mut i: usize = 0;
    assert(atoms.deep_view() =~= Seq::<AtomView>::empty());
    while i < chars.len()
        invariant
            i <= chars.len(),
            chars@ == span.content@,
            ({
                let st = scan_chars(chars@.take(i as int), style);
                &&& atoms.deep_view() == st.atoms
                &&& text@ == st.text
                &&& kind == st.kind
            }),
        decreases chars.len() - i,
    {
        let c = chars[i];
        assert(chars@.take(i + 1).drop_last() == chars@.take(i as int));
        if c == '\n' {
            flush_run(&mut atoms, &mut text, &mut kind, style);
            let mut nl = String::new();
            push_char(&mut nl, '\n');
            let ghost before = atoms.deep_view();
            atoms.push(Atom { text: nl, style, width: 0, is_space: true, newline: true });
            assert(atoms.deep_view() =~= before.push(newline_atom(style)));
        } else {
            let sp = is_whitespace(c);
            if kind == Some(!sp) {
                flush_run(&mut atoms, &mut text, &mut kind, style);
            }
            if c == '\t' {
                let ghost t0 = text@;
                text.push(' ');
                text.push(' ');
                text.push(' ');
                text.push(' ');
                assert(text@ =~= t0 + expand_char(c));
            } else {
                let ghost t0 = text@;
                text.push(c);
                assert(text@ =~= t0 + expand_char(c));
            }
            kind = Some(sp);
        }
        i += 1;
    }
    assert(chars@.take(chars.len() as int) == chars@);
    flush_run(&mut atoms, &mut text, &mut kind, style);
    atoms
}


/// The rows built so far, as spans, and the width counted for each row.
pub struct WrapState {
    pub rows: Seq<Seq<SpanView>>,
    pub widths: Seq<nat>,
}

/// There is always a current row, and a width for every row.
pub open spec fn wrap_wf(st: WrapState) -> bool {
    st.rows.len() == st.widths.len() && st.rows.len() >= 1
}

/// The state before anything has been placed: one empty row.
pub open spec fn initial_wrap_state() -> WrapState {
    WrapState { rows: seq![Seq::empty()], widths: seq![0nat] }
}

/// The widths of the rows, as natural numbers.
pub open spec fn widths_view(widths: Seq<usize>) -> Seq<nat> {
    widths.map_values(|w: usize| w as nat)
}

/// `text` in `style` appended to the current row, counting `w` columns; it joins the row's last
/// span when that span has the same style.
pub open spec fn push_text_state(st: WrapState, text: Seq<char>, style: TextStyle, w: nat) -> WrapState {
    let last = st.rows.len() - 1;
    let row = st.rows[last];
    let new_row = if row.len() > 0 && row.last().style == style {
        row.update(row.len() - 1, SpanView { text: row.last().text + text, style })
    } else {
        row.push(SpanView { text, style })
    };
    WrapState {
        rows: st.rows.update(last, new_row),
        widths: st.widths.update(last, st.widths[last] + w),
    }
}

/// The length of `s` without its trailing whitespace.
pub open spec fn trim_end_len(s: Seq<char>) -> nat
    decreases s.len(),
{
    if s.len() == 0 {
        0
    } else if is_ws(s.last()) {
        trim_end_len(s.drop_last())
    } else {
        s.len()
    }
}

/// `a - b`, or 0 when `b` is larger.
pub open spec fn sat_sub(a: nat, b: nat) -> nat {
    if a >= b {
        (a - b) as nat
    } else {
        0
    }
}

/// A row with the whitespace at its end removed, and its width reduced by the width of what was
/// removed.
pub open spec fn trim_row(row: Seq<SpanView>, w: nat) -> (Seq<SpanView>, nat)
    decreases row.len(),
{
    if row.len() == 0 {
        (row, w)
    } else {
        let c = row.last().text;
        let t = trim_end_len(c);
        if t == c.len() {
            (row, w)
        } else {
            let w2 = sat_sub(w, str_display_width(c.subrange(t as int, c.len() as int)) as nat);
            if t == 0 {
                trim_row(row.drop_last(), w2)
            } else {
                (row.update(row.len() - 1, SpanView { text: c.subrange(0, t as int), style: row.last().style }), w2)
            }
        }
    }
}

/// The state with the whitespace at the end of the current row dropped.
pub open spec fn trim_last(st: WrapState) -> WrapState {
    let last = st.rows.len() - 1;
    let r = trim_row(st.rows[last], st.widths[last]);
    WrapState { rows: st.rows.update(last, r.0), widths: st.widths.update(last, r.1) }
}

/// The current row ended (its trailing whitespace dropped) and a new empty row begun.
pub open spec fn break_row(st: WrapState) -> WrapState {
    let t = trim_last(st);
    WrapState { rows: t.rows.push(Seq::empty()), widths: t.widths.push(0) }
}

/// Progress of hard-breaking a word: the rows so far and the piece not yet placed.
pub struct Chunking {
    pub st: WrapState,
    pub chunk: Seq<char>,
    pub cw: nat,
}

/// One more character of a word that is being hard-broken into rows of `width` columns.
pub open spec fn chunk_char(ch: Chunking, c: char, style: TextStyle, width: nat) -> Chunking {
    let w = char_columns(c);
    if w == 0 && ch.chunk.len() > 0 {
        Chunking { chunk: ch.chunk.push(c), ..ch }
    } else {
        let ch2 = if ch.cw + w > width && ch.chunk.len() > 0 {
            Chunking {
                st: break_row(push_text_state(ch.st, ch.chunk, style, ch.cw)),
                chunk: Seq::empty(),
                cw: 0,
            }
        } else {
            ch
        };
        Chunking { st: ch2.st, chunk: ch2.chunk.push(c), cw: ch2.cw + w }
    }
}

/// The characters `text` of a word taken, one by one, into the hard-breaking.
pub open spec fn chunk_chars(st: WrapState, text: Seq<char>, style: TextStyle, width: nat) -> Chunking
    decreases text.len(),
{
    if text.len() == 0 {
        Chunking { st, chunk: Seq::empty(), cw: 0 }
    } else {
        chunk_char(chunk_chars(st, text.drop_last(), style, width), text.last(), style, width)
    }
}

/// A word wider than a row, placed by breaking it across rows.
pub open spec fn push_broken_state(st: WrapState, atom: AtomView, width: nat) -> WrapState {
    let ch = chunk_chars(st, atom.text, atom.style, width);
    if ch.chunk.len() > 0 {
        let rw = ch.st.widths.last();
        let st2 = if rw > 0 && rw + ch.cw > width {
            break_row(ch.st)
        } else {
            ch.st
        };
        push_text_state(st2, ch.chunk, atom.style, ch.cw)
    } else {
        ch.st
    }
}

/// One atom placed: a newline ends the row, whitespace is dropped at the start of a row, and a
/// word goes to a new row when it does not fit on the current one.
pub open spec fn wrap_atom(st: WrapState, atom: AtomView, width: nat) -> WrapState {
    if atom.newline {
        break_row(st)
    } else if atom.is_space {
        if st.rows.last().len() == 0 {
            st
        } else {
            push_text_state(st, atom.text, atom.style, atom.width)
        }
    } else {
        let lw = st.widths.last();
        let st1 = if lw > 0 && lw + atom.width > width {
            break_row(st)
        } else {
            st
        };
        if atom.width > width {
            push_broken_state(st1, atom, width)
        } else {
            push_text_state(st1, atom.text, atom.style, atom.width)
        }
    }
}

/// The atoms `atoms` placed one after another.
pub open spec fn wrap_atoms(st: WrapState, atoms: Seq<AtomView>, width: nat) -> WrapState
    decreases atoms.len(),
{
    if atoms.len() == 0 {
        st
    } else {
        wrap_atom(wrap_atoms(st, atoms.drop_last(), width), atoms.last(), width)
    }
}

/// The atoms of all of `spans` placed one after another.
pub open spec fn wrap_span_seq(spans: Seq<SpanView>, width: nat) -> WrapState
    decreases spans.len(),
{
    if spans.len() == 0 {
        initial_wrap_state()
    } else {
        wrap_atoms(wrap_span_seq(spans.drop_last(), width), spec_atoms_of(spans.last()), width)
    }
}

/// The rows into which `spans` wrap at `width` columns.
pub open spec fn spec_wrap(spans: Seq<SpanView>, width: nat) -> Seq<Seq<SpanView>> {
    if width == 0 {
        Seq::empty()
    } else {
        trim_last(wrap_span_seq(spans, width)).rows
    }
}

/// The columns of the characters of `s`, added up.
pub open spec fn cols_sum(s: Seq<char>) -> nat
    decreases s.len(),
{
    if s.len() == 0 {
        0
    } else {
        cols_sum(s.drop_last()) + char_columns(s.last())
    }
}

/// An upper bound on the columns an atom can add to a row's count.
pub open spec fn atom_budget(a: AtomView) -> nat {
    a.width + cols_sum(a.text)
}

/// The budgets of `atoms`, added up.
pub open spec fn atoms_budget(atoms: Seq<AtomView>) -> nat
    decreases atoms.len(),
{
    if atoms.len() == 0 {
        0
    } else {
        atoms_budget(atoms.drop_last()) + atom_budget(atoms.last())
    }
}

/// The budgets of the atoms of all of `spans`, added up: no row's count can exceed it.
pub open spec fn spans_budget(spans: Seq<SpanView>) -> nat
    decreases spans.len(),
{
    if spans.len() == 0 {
        0
    } else {
        spans_budget(spans.drop_last()) + atoms_budget(spec_atoms_of(spans.last()))
    }
}


/// The abstract state of the rows under construction and their widths.
pub open spec fn st_of(rows: Vec<Vec<StyledSpan>>, widths: Vec<usize>) -> WrapState {
    WrapState { rows: rows.deep_view(), widths: widths_view(widths@) }
}

/// Appends `text` to the current row, merging it into the row's last span when the styles match,
/// so that a long paragraph does not turn into hundreds of single-word spans.
fn push_text(
    rows: &mut Vec<Vec<StyledSpan>>,
    row_widths: &mut Vec<usize>,
    text: String,
    style: TextStyle,
    width: usize,
)
    requires
        wrap_wf(st_of(*old(rows), *old(row_widths))),
        old(row_widths)@.last() + width <= usize::MAX,
    ensures
        st_of(*final(rows), *final(row_widths)) == push_text_state(
            st_of(*old(rows), *old(row_widths)),
            text@,
            style,
            width as nat,
        ),
{
    let ghost st0 = st_of(*rows, *row_widths);
    let ghost last_i = st0.rows.len() - 1;
    let mut row = rows.pop().unwrap();
    assert(row.deep_view() == st0.rows[last_i]);
    assert(rows.deep_view() =~= st0.rows.take(last_i));
    let n = row.len();
    if n > 0 && row[n - 1].style == style {
        let mut last = row.pop().unwrap();
        push_str(&mut last.content, text.as_str());
        row.push(last);
    } else {
        row.push(StyledSpan { content: text, style });
    }
    let ghost row_want = push_text_state(st0, text@, style, width as nat).rows[last_i];
    assert(row.deep_view() =~= row_want);
    rows.push(row);
    let k = row_widths.len() - 1;
    let w = row_widths[k];
    row_widths.set(k, w + width);
    let ghost want = push_text_state(st0, text@, style, width as nat);
    assert(rows.deep_view() =~= want.rows);
    assert(widths_view(row_widths@) =~= want.widths);
}


/// Cutting off trailing whitespace never lengthens a sequence.
pub proof fn lemma_trim_end_len_le(s: Seq<char>)
    ensures
        trim_end_len(s) <= s.len(),
        trim_end_len(s) < s.len() ==> is_ws(s.last()),
    decreases s.len(),
{
    if s.len() > 0 && is_ws(s.last()) {
        lemma_trim_end_len_le(s.drop_last());
    }
}

/// The number of characters of `chars` left when its trailing whitespace is cut off.
pub fn trim_end_index(chars: &[char]) -> (t: usize)
    ensures
        t == trim_end_len(chars@),
{
    let mut t = chars.len();
    assert(chars@.take(t as int) == chars@);
    while t > 0 && is_whitespace(chars[t - 1])
        invariant
            t <= chars@.len(),
            trim_end_len(chars@) == trim_end_len(chars@.take(t as int)),
        decreases t,
    {
        assert(chars@.take(t as int).drop_last() == chars@.take(t - 1));
        t -= 1;
    }
    proof {
        if t > 0 {
            assert(chars@.take(t as int).last() == chars@[t - 1]);
        }
    }
    t
}

/// Drops the whitespace run at the end of the current row, and its width from the row's count.
fn trim_trailing_space(rows: &mut Vec<Vec<StyledSpan>>, row_widths: &mut Vec<usize>)
    requires
        wrap_wf(st_of(*old(rows), *old(row_widths))),
    ensures
        st_of(*final(rows), *final(row_widths)) == trim_last(st_of(*old(rows), *old(row_widths))),
{
    let ghost st0 = st_of(*rows, *row_widths);
    let ghost last_i = st0.rows.len() - 1;
    let mut row = rows.pop().unwrap();
    assert(rows.deep_view() =~= st0.rows.take(last_i));
    let k = row_widths.len() - 1;
    let mut row_width = row_widths[k];
    let ghost want = trim_row(st0.rows[last_i], st0.widths[last_i]);
    loop
        invariant_except_break
            trim_row(row.deep_view(), row_width as nat) == want,
        ensures
            row.deep_view() == want.0,
            row_width as nat == want.1,
        decreases row.len(),
    {
        if row.len() == 0 {
            break;
        }
        let index = row.len() - 1;
        let chars = chars_of(row[index].content.as_str());
        let trimmed_end = trim_end_index(chars.as_slice());
        proof {
            lemma_trim_end_len_le(chars@);
        }
        assert(row.deep_view().last().text == chars@);
        if trimmed_end == chars.len() {
            break;
        }
        let tail = string_of_range(chars.as_slice(), trimmed_end, chars.len());
        let removed = str_width(tail.as_str());
        row_width = row_width.saturating_sub(removed);
        if trimmed_end == 0 {
            let ghost before = row.deep_view();
            row.pop();
            assert(row.deep_view() =~= before.drop_last());
        } else {
            let style = row[index].style;
            let kept = string_of_range(chars.as_slice(), 0, trimmed_end);
            let ghost before = row.deep_view();
            row.set(index, StyledSpan { content: kept, style });
            assert(row.deep_view() =~= before.update(index as int, SpanView { text: chars@.subrange(0, trimmed_end as int), style }));
            break;
        }
    }
    rows.push(row);
    row_widths.set(k, row_width);
    assert(rows.deep_view() =~= trim_last(st0).rows);
    assert(widths_view(row_widths@) =~= trim_last(st0).widths);
}

/// Ends the current row and begins a new, empty one.
fn break_row_exec(rows: &mut Vec<Vec<StyledSpan>>, row_widths: &mut Vec<usize>)
    requires
        wrap_wf(st_of(*old(rows), *old(row_widths))),
    ensures
        st_of(*final(rows), *final(row_widths)) == break_row(st_of(*old(rows), *old(row_widths))),
{
    trim_trailing_space(rows, row_widths);
    let ghost t = st_of(*rows, *row_widths);
    let fresh: Vec<StyledSpan> = Vec::new();
    assert(fresh.deep_view() =~= Seq::<SpanView>::empty());
    rows.push(fresh);
    row_widths.push(0);
    assert(rows.deep_view() =~= t.rows.push(Seq::empty()));
    assert(widths_view(row_widths@) =~= t.widths.push(0));
}


/// Every row's count is at most `b`.
pub open spec fn widths_at_most(widths: Seq<nat>, b: nat) -> bool {
    forall|i: int| 0 <= i < widths.len() ==> widths[i] <= b
}

/// Trimming a row never raises its count.
pub proof fn lemma_trim_row_width(row: Seq<SpanView>, w: nat)
    ensures
        trim_row(row, w).1 <= w,
    decreases row.len(),
{
    if row.len() > 0 {
        let c = row.last().text;
        let t = trim_end_len(c);
        if t != c.len() && t == 0 {
            let w2 = sat_sub(w, str_display_width(c.subrange(t as int, c.len() as int)) as nat);
            lemma_trim_row_width(row.drop_last(), w2);
        }
    }
}

/// Ending a row keeps the state well formed and every count within its bound.
pub proof fn lemma_break_row_bounds(st: WrapState, b: nat)
    requires
        wrap_wf(st),
        widths_at_most(st.widths, b),
    ensures
        wrap_wf(break_row(st)),
        widths_at_most(break_row(st).widths, b),
        break_row(st).widths.last() == 0,
        wrap_wf(trim_last(st)),
        widths_at_most(trim_last(st).widths, b),
{
    let last = st.rows.len() - 1;
    lemma_trim_row_width(st.rows[last], st.widths[last]);
    let t = trim_last(st);
    assert forall|i: int| 0 <= i < break_row(st).widths.len() implies break_row(st).widths[i] <= b by {
        if i < t.widths.len() {
            assert(break_row(st).widths[i] == t.widths[i]);
        }
    }
}

/// Appending `w` columns to the current row raises the bound by at most `w`.
pub proof fn lemma_push_text_bounds(st: WrapState, text: Seq<char>, style: TextStyle, w: nat, b: nat)
    requires
        wrap_wf(st),
        widths_at_most(st.widths, b),
    ensures
        wrap_wf(push_text_state(st, text, style, w)),
        widths_at_most(push_text_state(st, text, style, w).widths, b + w),
        push_text_state(st, text, style, w).widths.last() == st.widths.last() + w,
{
}

/// The columns of a prefix are at most those of the whole.
pub proof fn lemma_cols_sum_prefix(s: Seq<char>, i: int)
    requires
        0 <= i <= s.len(),
    ensures
        cols_sum(s.take(i)) <= cols_sum(s),
    decreases s.len(),
{
    if i < s.len() {
        assert(s.take(i) == s.drop_last().take(i));
        lemma_cols_sum_prefix(s.drop_last(), i);
    } else {
        assert(s.take(i) == s);
    }
}

/// Breaks a word that is wider than a row across rows.
fn push_broken_word(
    rows: &mut Vec<Vec<StyledSpan>>,
    row_widths: &mut Vec<usize>,
    atom: &Atom,
    width: usize,
    Ghost(b): Ghost<nat>,
)
    requires
        wrap_wf(st_of(*old(rows), *old(row_widths))),
        widths_at_most(st_of(*old(rows), *old(row_widths)).widths, b),
        b + cols_sum(atom.text@) <= usize::MAX,
    ensures
        st_of(*final(rows), *final(row_widths)) == push_broken_state(
            st_of(*old(rows), *old(row_widths)),
            atom@,
            width as nat,
        ),
        wrap_wf(st_of(*final(rows), *final(row_widths))),
        widths_at_most(st_of(*final(rows), *final(row_widths)).widths, b + cols_sum(atom.text@)),
{
    let ghost st0 = st_of(*rows, *row_widths);
    let style = atom.style;
    let chars = chars_of(atom.text.as_str());
    let mut chunk: Vec<char> = Vec::new();
    let mut chunk_width: usize = 0;
    let mut i: usize = 0;
    assert(chars@.take(0) =~= Seq::<char>::empty());
    while i < chars.len()
        invariant
            i <= chars@.len(),
            chars@ == atom.text@,
            b + cols_sum(chars@) <= usize::MAX,
            ({
                let ch = chunk_chars(st0, chars@.take(i as int), style, width as nat);
                &&& st_of(*rows, *row_widths) == ch.st
                &&& chunk@ == ch.chunk
                &&& chunk_width as nat == ch.cw
                &&& wrap_wf(ch.st)
                &&& widths_at_most(ch.st.widths, b + cols_sum(chars@.take(i as int)))
                &&& ch.st.widths.last() + ch.cw <= b + cols_sum(chars@.take(i as int))
            }),
        decreases chars.len() - i,
    {
        let c = chars[i];
        let ghost prev = chars@.take(i as int);
        assert(chars@.take(i + 1).drop_last() == prev);
        assert(chars@.take(i + 1).last() == c);
        proof {
            lemma_cols_sum_prefix(chars@, i + 1);
        }
        let ghost bi = b + cols_sum(prev);
        let character_width = match char_width(c) {
            Some(w) => w,
            None => 0,
        };
        if character_width == 0 && chunk.len() > 0 {
            chunk.push(c);
        } else {
            if chunk_width + character_width > width && chunk.len() > 0 {
                let taken = string_of(chunk.as_slice());
                proof {
                    lemma_push_text_bounds(st_of(*rows, *row_widths), chunk@, style, chunk_width as nat, bi);
                }
                push_text(rows, row_widths, taken, style, chunk_width);
                chunk_width = 0;
                proof {
                    lemma_break_row_bounds(st_of(*rows, *row_widths), bi);
                }
                break_row_exec(rows, row_widths);
                chunk = Vec::new();
            }
            chunk.push(c);
            chunk_width = chunk_width + character_width;
        }
        i += 1;
    }
    assert(chars@.take(chars.len() as int) == chars@);
    if chunk.len() > 0 {
        let k = row_widths.len() - 1;
        let row_width = row_widths[k];
        let ghost bn = b + cols_sum(chars@);
        if row_width > 0 && row_width + chunk_width > width {
            proof {
                lemma_break_row_bounds(st_of(*rows, *row_widths), bn);
            }
            break_row_exec(rows, row_widths);
        }
        let taken = string_of(chunk.as_slice());
        proof {
            lemma_push_text_bounds(st_of(*rows, *row_widths), chunk@, style, chunk_width as nat, bn);
        }
        push_text(rows, row_widths, taken, style, chunk_width);
    }
}


/// Places one atom on the rows.
fn place_atom(
    rows: &mut Vec<Vec<StyledSpan>>,
    row_widths: &mut Vec<usize>,
    atom: &Atom,
    width: usize,
    Ghost(b): Ghost<nat>,
)
    requires
        wrap_wf(st_of(*old(rows), *old(row_widths))),
        widths_at_most(st_of(*old(rows), *old(row_widths)).widths, b),
        b + atom_budget(atom@) <= usize::MAX,
    ensures
        st_of(*final(rows), *final(row_widths)) == wrap_atom(
            st_of(*old(rows), *old(row_widths)),
            atom@,
            width as nat,
        ),
        wrap_wf(st_of(*final(rows), *final(row_widths))),
        widths_at_most(st_of(*final(rows), *final(row_widths)).widths, b + atom_budget(atom@)),
{
    let ghost st0 = st_of(*rows, *row_widths);
    if atom.newline {
        proof {
            lemma_break_row_bounds(st0, b);
        }
        break_row_exec(rows, row_widths);
        return;
    }
    if atom.is_space {
        // Leading whitespace of a row is trimmed.
        if rows[rows.len() - 1].len() == 0 {
            return;
        }
        proof {
            lemma_push_text_bounds(st0, atom.text@, atom.style, atom.width as nat, b);
        }
        push_text(rows, row_widths, atom.text.clone(), atom.style, atom.width);
        return;
    }
    let k = row_widths.len() - 1;
    let row_width = row_widths[k];
    assert(st0.widths[k as int] == row_width as nat);
    if row_width > 0 && row_width + atom.width > width {
        proof {
            lemma_break_row_bounds(st0, b);
        }
        break_row_exec(rows, row_widths);
    }
    if atom.width > width {
        push_broken_word(rows, row_widths, atom, width, Ghost(b));
    } else {
        proof {
            lemma_push_text_bounds(st_of(*rows, *row_widths), atom.text@, atom.style, atom.width as nat, b);
        }
        push_text(rows, row_widths, atom.text.clone(), atom.style, atom.width);
    }
}

/// The budget of a prefix of atoms is at most that of them all.
pub proof fn lemma_atoms_budget_prefix(atoms: Seq<AtomView>, i: int)
    requires
        0 <= i <= atoms.len(),
    ensures
        atoms_budget(atoms.take(i)) <= atoms_budget(atoms),
    decreases atoms.len(),
{
    if i < atoms.len() {
        assert(atoms.take(i) == atoms.drop_last().take(i));
        lemma_atoms_budget_prefix(atoms.drop_last(), i);
    } else {
        assert(atoms.take(i) == atoms);
    }
}

/// The budget of a prefix of spans is at most that of them all.
pub proof fn lemma_spans_budget_prefix(spans: Seq<SpanView>, i: int)
    requires
        0 <= i <= spans.len(),
    ensures
        spans_budget(spans.take(i)) <= spans_budget(spans),
    decreases spans.len(),
{
    if i < spans.len() {
        assert(spans.take(i) == spans.drop_last().take(i));
        lemma_spans_budget_prefix(spans.drop_last(), i);
    } else {
        assert(spans.take(i) == spans);
    }
}

/// Greedy word-wrap of a single styled line into rows of at most `width` display columns.
///
/// Whitespace at the start of a row is dropped, and the whitespace run at a break point is
/// consumed by the break. An empty input yields one empty row, so that blank lines survive. A
/// `width` of 0 yields nothing. The counts of the rows must fit in a `usize`, which the bound
/// on `spans_budget` ensures. That the rows fit the width, keep every visible character with
/// its style, and start anew at every newline is proved of `spec_wrap` in `wrap_fit_laws` and
/// `wrap_style_laws`.
pub fn wrap_spans(spans: &[StyledSpan], width: u16) -> (rows: Vec<Vec<StyledSpan>>)
    requires
        spans_budget(spans.deep_view()) <= usize::MAX,
    ensures
        rows.deep_view() == spec_wrap(spans.deep_view(), width as nat),
{
    let width = width as usize;

    // A collapsed area has no room for anything; wrapping here would emit one row per character.
    if width == 0 {
        let none: Vec<Vec<StyledSpan>> = Vec::new();
        assert(none.deep_view() =~= Seq::<Seq<SpanView>>::empty());
        return none;
    }

    let mut rows: Vec<Vec<StyledSpan>> = Vec::new();
    let first: Vec<StyledSpan> = Vec::new();
    assert(first.deep_view() =~= Seq::<SpanView>::empty());
    rows.push(first);
    let mut row_widths: Vec<usize> = Vec::new();
    row_widths.push(0);
    let ghost all = spans.deep_view();
    assert(st_of(rows, row_widths).rows =~= initial_wrap_state().rows);
    assert(st_of(rows, row_widths).widths =~= initial_wrap_state().widths);
    assert(all.take(0) =~= Seq::<SpanView>::empty());

    let mut j: usize = 0;
    while j < spans.len()
        invariant
            j <= spans.len(),
            all == spans.deep_view(),
            spans_budget(all) <= usize::MAX,
            width > 0,
            st_of(rows, row_widths) == wrap_span_seq(all.take(j as int), width as nat),
            wrap_wf(st_of(rows, row_widths)),
            widths_at_most(st_of(rows, row_widths).widths, spans_budget(all.take(j as int))),
        decreases spans.len() - j,
    {
        let atoms = atoms_of(&spans[j]);
        let ghost aview = atoms.deep_view();
        let ghost done = spans_budget(all.take(j as int));
        let ghost st_j = st_of(rows, row_widths);
        assert(all.take(j + 1).drop_last() == all.take(j as int));
        assert(all.take(j + 1).last() == all[j as int]);
        assert(spans[j as int].deep_view() == all[j as int]);
        proof {
            lemma_spans_budget_prefix(all, j + 1);
        }
        assert(aview.take(0) =~= Seq::<AtomView>::empty());
        let mut k: usize = 0;
        while k < atoms.len()
            invariant
                k <= atoms.len(),
                aview == atoms.deep_view(),
                aview == spec_atoms_of(all[j as int]),
                done + atoms_budget(aview) <= usize::MAX,
                width > 0,
                st_of(rows, row_widths) == wrap_atoms(st_j, aview.take(k as int), width as nat),
                wrap_wf(st_of(rows, row_widths)),
                widths_at_most(st_of(rows, row_widths).widths, done + atoms_budget(aview.take(k as int))),
            decreases atoms.len() - k,
        {
            assert(aview.take(k + 1).drop_last() == aview.take(k as int));
            assert(aview.take(k + 1).last() == atoms[k as int]@);
            proof {
                lemma_atoms_budget_prefix(aview, k + 1);
            }
            place_atom(&mut rows, &mut row_widths, &atoms[k], width, Ghost(done + atoms_budget(aview.take(k as int))));
            k += 1;
        }
        assert(aview.take(atoms.len() as int) == aview);
        j += 1;
    }
    assert(all.take(spans.len() as int) == all);
    trim_trailing_space(&mut rows, &mut row_widths);
    rows
}


/// The columns of the characters of `text`, added up, or `None` when the sum does not fit in a
/// `usize`.
fn cols_sum_exec(text: &str) -> (r: Option<usize>)
    ensures
        r matches Some(v) ==> v as nat == cols_sum(text@),
        r is None ==> cols_sum(text@) > usize::MAX,
{
    let chars = chars_of(text);
    let mut total: usize = 0;
    let mut i: usize = 0;
    assert(chars@.take(0) =~= Seq::<char>::empty());
    while i < chars.len()
        invariant
            i <= chars@.len(),
            chars@ == text@,
            total as nat == cols_sum(chars@.take(i as int)),
        decreases chars.len() - i,
    {
        assert(chars@.take(i + 1).drop_last() == chars@.take(i as int));
        let w = match char_width(chars[i]) {
            Some(w) => w,
            None => 0,
        };
        match total.checked_add(w) {
            Some(t) => total = t,
            None => {
                proof {
                    lemma_cols_sum_prefix(chars@, i + 1);
                }
                return None;
            },
        }
        i += 1;
    }
    assert(chars@.take(chars.len() as int) == chars@);
    Some(total)
}

/// `spans_budget` of `spans`, or `None` when it does not fit in a `usize`.
pub fn spans_budget_exec(spans: &[StyledSpan]) -> (r: Option<usize>)
    ensures
        r matches Some(v) ==> v as nat == spans_budget(spans.deep_view()),
        r is None ==> spans_budget(spans.deep_view()) > usize::MAX,
{
    let ghost all = spans.deep_view();
    let mut total: usize = 0;
    let mut j: usize = 0;
    assert(all.take(0) =~= Seq::<SpanView>::empty());
    while j < spans.len()
        invariant
            j <= spans.len(),
            all == spans.deep_view(),
            total as nat == spans_budget(all.take(j as int)),
        decreases spans.len() - j,
    {
        assert(all.take(j + 1).drop_last() == all.take(j as int));
        assert(all.take(j + 1).last() == all[j as int]);
        assert(spans[j as int].deep_view() == all[j as int]);
        let atoms = atoms_of(&spans[j]);
        let ghost aview = atoms.deep_view();
        let ghost before = total as nat;
        let mut k: usize = 0;
        assert(aview.take(0) =~= Seq::<AtomView>::empty());
        while k < atoms.len()
            invariant
                k <= atoms.len(),
                aview == atoms.deep_view(),
                total as nat == before + atoms_budget(aview.take(k as int)),
                before == spans_budget(all.take(j as int)),
                aview == spec_atoms_of(all[j as int]),
                all == spans.deep_view(),
                j < spans.len(),
                all.take(j + 1).drop_last() == all.take(j as int),
                all.take(j + 1).last() == all[j as int],
            decreases atoms.len() - k,
        {
            assert(aview.take(k + 1).drop_last() == aview.take(k as int));
            assert(aview.take(k + 1).last() == atoms[k as int]@);
            let cols = cols_sum_exec(atoms[k].text.as_str());
            let step = match cols {
                Some(c) => c.checked_add(atoms[k].width),
                None => None,
            };
            let next = match step {
                Some(st) => total.checked_add(st),
                None => None,
            };
            match next {
                Some(t) => total = t,
                None => {
                    proof {
                        lemma_atoms_budget_prefix(aview, k + 1);
                        lemma_spans_budget_prefix(all, j + 1);
                        assert(atoms_budget(aview.take(k + 1)) == atoms_budget(aview.take(k as int))
                            + atom_budget(aview[k as int]));
                        assert(total + atom_budget(aview[k as int]) > usize::MAX);
                        assert(spans_budget(all.take(j + 1)) == before + atoms_budget(aview));
                    }
                    return None;
                },
            }
            k += 1;
        }
        assert(aview.take(atoms.len() as int) == aview);
        j += 1;
    }
    assert(all.take(spans.len() as int) == all);
    Some(total)
}

/// Wraps `spans` like [`wrap_spans`], or gives `None` when the column counts of the rows could
/// exceed what a `usize` holds.
pub fn try_wrap_spans(spans: &[StyledSpan], width: u16) -> (rows: Option<Vec<Vec<StyledSpan>>>)
    ensures
        rows is Some <==> spans_budget(spans.deep_view()) <= usize::MAX,
        rows matches Some(r) ==> r.deep_view() == spec_wrap(spans.deep_view(), width as nat),
{
    match spans_budget_exec(spans) {
        Some(_) => Some(wrap_spans(spans, width)),
        None => None,
    }
}

} // verus!
