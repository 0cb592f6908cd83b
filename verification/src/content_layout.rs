//! Row-based layout for article content that mixes wrapped text with inline images.
//!
//! A text row is always exactly one terminal row, while an image row occupies as many rows as
//! the image needs. That makes the scroll range exact and lets an image sit at a known offset in
//! the document rather than being an overlay.

use vstd::prelude::*;

use crate::style::{SpanView, StyledSpan};
use crate::text_wrap::{
    atoms_budget, lemma_spans_budget_prefix, spans_budget, spans_budget_exec, spec_atoms_of, spec_wrap,
    wrap_spans,
};
use crate::unicode::chars_of;

verus! {

/// The character that the markdown image hook emits, as a span of its own, in place of an image
/// that is ready to be drawn. NUL is used because it cannot occur in article text.
pub const IMAGE_SENTINEL: char = '\0';

/// A row of the laid-out content.
#[derive(Debug)]
pub enum ContentRow {
    /// One terminal row of text.
    Text(Vec<StyledSpan>),
    /// An image; `index` refers to the caller's ordered list of images.
    Image { index: usize, height: u16 },
}

/// The abstract value of a content row.
pub enum RowView {
    Text(Seq<SpanView>),
    Image { index: nat, height: nat },
}

impl View for ContentRow {
    type V = RowView;

    open spec fn view(&self) -> RowView {
        match self {
            ContentRow::Text(spans) => RowView::Text(spans.deep_view()),
            ContentRow::Image { index, height } => RowView::Image {
                index: *index as nat,
                height: *height as nat,
            },
        }
    }
}

impl DeepView for ContentRow {
    type V = RowView;

    open spec fn deep_view(&self) -> RowView {
        self@
    }
}

/// The number of terminal rows a content row occupies.
pub open spec fn row_height(r: RowView) -> nat {
    match r {
        RowView::Text(_) => 1,
        RowView::Image { height, .. } => height,
    }
}

impl ContentRow {
    /// The number of terminal rows this row occupies.
    pub fn height(&self) -> (h: u16)
        ensures
            h as nat == row_height(self@),
    {
        match self {
            ContentRow::Text(_) => 1,
            ContentRow::Image { height, .. } => *height,
        }
    }
}

/// An image the markdown hook asked to be drawn, in document order.
#[derive(Debug, Clone)]
pub struct ContentImageRef {
    /// The URL exactly as it appeared in the markdown; this is the cache key everywhere.
    pub url: String,
    pub px_width: u32,
    pub px_height: u32,
}

/// Whether a span is the image sentinel: exactly the one character NUL.
pub open spec fn is_sentinel(s: SpanView) -> bool {
    s.text == seq![IMAGE_SENTINEL]
}

/// Layout progress: the rows so far and the number of sentinels met.
pub struct LayoutState {
    pub rows: Seq<RowView>,
    pub image_index: nat,
}

/// Progress within one line: the layout, the text spans not yet wrapped, and whether the line
/// has held a sentinel.
pub struct LineState {
    pub layout: LayoutState,
    pub pending: Seq<SpanView>,
    pub saw_image: bool,
}

/// Spans wrapped into text rows.
pub open spec fn text_rows(spans: Seq<SpanView>, width: nat) -> Seq<RowView> {
    spec_wrap(spans, width).map_values(|r: Seq<SpanView>| RowView::Text(r))
}

/// One span of a line taken in: text is kept for wrapping; a sentinel wraps the pending text
/// and places the next image, unless it has no known height.
pub open spec fn layout_span(ls: LineState, span: SpanView, heights: Seq<u16>, width: nat) -> LineState {
    if !is_sentinel(span) {
        LineState { pending: ls.pending.push(span), ..ls }
    } else {
        let rows1 = if ls.pending.len() > 0 {
            ls.layout.rows + text_rows(ls.pending, width)
        } else {
            ls.layout.rows
        };
        let i = ls.layout.image_index;
        let rows2 = if i < heights.len() && heights[i as int] > 0 {
            rows1.push(RowView::Image { index: i, height: heights[i as int] as nat })
        } else {
            rows1
        };
        LineState {
            layout: LayoutState { rows: rows2, image_index: i + 1 },
            pending: Seq::empty(),
            saw_image: true,
        }
    }
}

/// The spans `spans` of a line taken in one after another.
pub open spec fn layout_spans(ls: LineState, spans: Seq<SpanView>, heights: Seq<u16>, width: nat) -> LineState
    decreases spans.len(),
{
    if spans.len() == 0 {
        ls
    } else {
        layout_span(layout_spans(ls, spans.drop_last(), heights, width), spans.last(), heights, width)
    }
}

/// One line laid out: its spans taken in, then the remaining text wrapped; a line without a
/// sentinel always yields rows, so that blank lines are preserved.
pub open spec fn layout_line(st: LayoutState, line: Seq<SpanView>, heights: Seq<u16>, width: nat) -> LayoutState {
    let ls = layout_spans(LineState { layout: st, pending: Seq::empty(), saw_image: false }, line, heights, width);
    if ls.pending.len() > 0 || !ls.saw_image {
        LayoutState { rows: ls.layout.rows + text_rows(ls.pending, width), ..ls.layout }
    } else {
        ls.layout
    }
}

/// The lines laid out one after another.
pub open spec fn layout_lines(lines: Seq<Seq<SpanView>>, heights: Seq<u16>, width: nat) -> LayoutState
    decreases lines.len(),
{
    if lines.len() == 0 {
        LayoutState { rows: Seq::empty(), image_index: 0 }
    } else {
        layout_line(layout_lines(lines.drop_last(), heights, width), lines.last(), heights, width)
    }
}

/// The heights of the rows, added up.
pub open spec fn rows_height(rows: Seq<RowView>) -> nat
    decreases rows.len(),
{
    if rows.len() == 0 {
        0
    } else {
        rows_height(rows.drop_last()) + row_height(rows.last())
    }
}

/// `a`, but at most `b`.
pub open spec fn min_nat(a: nat, b: nat) -> nat {
    if a <= b {
        a
    } else {
        b
    }
}

/// The lines of a document as sequences of span views.
pub open spec fn lines_view(lines: Seq<Vec<StyledSpan>>) -> Seq<Seq<SpanView>> {
    lines.map_values(|l: Vec<StyledSpan>| l.deep_view())
}

/// No line's text could make the count of a wrapped row overflow.
pub open spec fn lines_within_budget(lines: Seq<Seq<SpanView>>) -> bool {
    forall|i: int| 0 <= i < lines.len() ==> spans_budget(#[trigger] lines[i]) <= usize::MAX
}

/// The number of spans in all the lines.
pub open spec fn spans_count(lines: Seq<Seq<SpanView>>) -> nat
    decreases lines.len(),
{
    if lines.len() == 0 {
        0
    } else {
        spans_count(lines.drop_last()) + lines.last().len()
    }
}

/// The spans of a prefix of the lines are at most those of them all.
pub proof fn lemma_spans_count_prefix(lines: Seq<Seq<SpanView>>, i: int)
    requires
        0 <= i <= lines.len(),
    ensures
        spans_count(lines.take(i)) <= spans_count(lines),
    decreases lines.len(),
{
    if i < lines.len() {
        assert(lines.take(i) == lines.drop_last().take(i));
        lemma_spans_count_prefix(lines.drop_last(), i);
    } else {
        assert(lines.take(i) == lines);
    }
}

/// The elements of `v` in reverse order.
fn reversed<T>(v: Vec<T>) -> (r: Vec<T>)
    ensures
        r@ == v@.reverse(),
{
    let mut v = v;
    let ghost orig = v@;
    let mut r: Vec<T> = Vec::new();
    while v.len() > 0
        invariant
            v@.len() <= orig.len(),
            v@ == orig.take(v@.len() as int),
            r@ == orig.skip(v@.len() as int).reverse(),
        decreases v.len(),
    {
        let ghost n = v@.len();
        let x = v.pop().unwrap();
        r.push(x);
        assert(orig.take(n - 1) == orig.take(n as int).drop_last());
        assert(orig.skip(n - 1).reverse() =~= orig.skip(n as int).reverse().push(orig[n - 1]));
    }
    assert(orig.skip(0) == orig);
    r
}


/// Appends the wrapped form of `pending` to `rows` as text rows, clearing it. An empty
/// `pending` still yields one empty row (when `width` is positive), which is what preserves
/// blank lines.
fn flush_text(rows: &mut Vec<ContentRow>, pending: &mut Vec<StyledSpan>, width: u16)
    requires
        spans_budget(old(pending).deep_view()) <= usize::MAX,
    ensures
        final(rows).deep_view() == old(rows).deep_view() + text_rows(old(pending).deep_view(), width as nat),
        final(pending)@.len() == 0,
{
    let mut spans: Vec<StyledSpan> = Vec::new();
    std::mem::swap(&mut spans, pending);
    let wrapped = wrap_spans(spans.as_slice(), width);
    let ghost start = rows.deep_view();
    let ghost want = text_rows(spans.deep_view(), width as nat);
    let ghost wv = wrapped.deep_view();
    let mut rest = reversed(wrapped);
    let ghost n = wv.len();
    while rest.len() > 0
        invariant
            rest@.len() <= n,
            n == wv.len(),
            forall|i: int| 0 <= i < rest@.len() ==> #[trigger] rest@[i].deep_view() == wv[n - 1 - i],
            rows.deep_view() == start + want.take(n - rest@.len()),
            want == wv.map_values(|r: Seq<SpanView>| RowView::Text(r)),
        decreases rest.len(),
    {
        let ghost m = rest@.len();
        let row = rest.pop().unwrap();
        assert(row.deep_view() == wv[n - m]);
        let ghost before = rows.deep_view();
        rows.push(ContentRow::Text(row));
        assert(want.take(n - m + 1) == want.take(n - m).push(want[n - m]));
        assert(rows.deep_view() =~= before.push(RowView::Text(wv[n - m])));
    }
    assert(want.take(n as int) == want);
}

/// Turns rendered markdown, given as its lines of spans, into rows of known height, and gives
/// the total height as well (at most `u16::MAX`).
///
/// A span that is exactly [`IMAGE_SENTINEL`] stands for the next image of the document;
/// `image_heights[i]` is the number of rows image `i` occupies (derived with the same cell size
/// the caller uses to draw it). An image without a height, or with height 0, is dropped rather
/// than reserving an empty gap; the sentinel itself never reaches a text row.
pub fn build_rows(lines: Vec<Vec<StyledSpan>>, image_heights: &[u16], width: u16) -> (res: (Vec<ContentRow>, u16))
    requires
        lines_within_budget(lines_view(lines@)),
        spans_count(lines_view(lines@)) <= usize::MAX,
    ensures
        res.0.deep_view() == layout_lines(lines_view(lines@), image_heights@, width as nat).rows,
        res.1 as nat == min_nat(rows_height(res.0.deep_view()), u16::MAX as nat),
{
    let ghost all = lines_view(lines@);
    let ghost heights = image_heights@;
    let mut rows: Vec<ContentRow> = Vec::new();
    let mut image_index: usize = 0;
    let line_count = lines.len();
    let ghost n = all.len();
    assert(n == line_count);
    let mut rest = reversed(lines);
    let mut done: usize = 0;
    assert(rows.deep_view() =~= Seq::<RowView>::empty());
    assert(all.take(0) =~= Seq::<Seq<SpanView>>::empty());
    while rest.len() > 0
        invariant
            rest@.len() + done == n,
            n == all.len(),
            n == line_count,
            lines_within_budget(all),
            forall|i: int| 0 <= i < rest@.len() ==> #[trigger] rest@[i].deep_view() == all[n - 1 - i],
            ({
                let st = layout_lines(all.take(done as int), heights, width as nat);
                &&& rows.deep_view() == st.rows
                &&& image_index as nat == st.image_index
            }),
            image_index <= spans_count(all.take(done as int)),
            spans_count(all) <= usize::MAX,
            heights == image_heights@,
        decreases rest.len(),
    {
        let line = rest.pop().unwrap();
        let ghost lv = line.deep_view();
        assert(lv == all[done as int]);
        assert(all.take(done + 1).drop_last() == all.take(done as int));
        assert(all.take(done + 1).last() == lv);
        assert(spans_budget(lv) <= usize::MAX);
        proof {
            lemma_spans_count_prefix(all, done + 1);
        }
        let ghost st0 = layout_lines(all.take(done as int), heights, width as nat);
        let mut pending: Vec<StyledSpan> = Vec::new();
        let mut saw_image = false;
        let mut spans = reversed(line);
        let ghost m = lv.len();
        let mut k: usize = 0;
        assert(lv.take(0) =~= Seq::<SpanView>::empty());
        assert(pending.deep_view() =~= Seq::<SpanView>::empty());
        while spans.len() > 0
            invariant
                spans@.len() + k == m,
                m == lv.len(),
                spans_budget(lv) <= usize::MAX,
                forall|i: int| 0 <= i < spans@.len() ==> #[trigger] spans@[i].deep_view() == lv[m - 1 - i],
                ({
                    let ls = layout_spans(
                        LineState { layout: st0, pending: Seq::empty(), saw_image: false },
                        lv.take(k as int),
                        heights,
                        width as nat,
                    );
                    &&& rows.deep_view() == ls.layout.rows
                    &&& image_index as nat == ls.layout.image_index
                    &&& pending.deep_view() == ls.pending
                    &&& saw_image == ls.saw_image
                }),
                spans_budget(pending.deep_view()) <= spans_budget(lv.take(k as int)),
                heights == image_heights@,
                image_index <= spans_count(all.take(done as int)) + k,
                spans_count(all.take(done as int)) + m <= spans_count(all),
                spans_count(all) <= usize::MAX,
            decreases spans.len(),
        {
            let span = spans.pop().unwrap();
            let ghost sv = span.deep_view();
            assert(sv == lv[k as int]);
            assert(lv.take(k + 1).drop_last() == lv.take(k as int));
            assert(lv.take(k + 1).last() == sv);
            proof {
                lemma_spans_budget_prefix(lv, k + 1);
            }
            let content = chars_of(span.content.as_str());
            let sentinel = content.len() == 1 && content[0] == IMAGE_SENTINEL;
            assert(sentinel == is_sentinel(sv)) by {
                if content@.len() == 1 && content@[0] == IMAGE_SENTINEL {
                    assert(content@ =~= seq![IMAGE_SENTINEL]);
                }
            }
            if !sentinel {
                let ghost pv = pending.deep_view();
                pending.push(span);
                assert(pending.deep_view() =~= pv.push(sv));
                assert(pending.deep_view().drop_last() == pv);
            } else {
                saw_image = true;
                if pending.len() > 0 {
                    flush_text(&mut rows, &mut pending, width);
                }
                pending = Vec::new();
                assert(pending.deep_view() =~= Seq::<SpanView>::empty());
                if image_index < image_heights.len() {
                    let height = image_heights[image_index];
                    if height > 0 {
                        let ghost before = rows.deep_view();
                        rows.push(ContentRow::Image { index: image_index, height });
                        assert(rows.deep_view() =~= before.push(RowView::Image { index: image_index as nat, height: height as nat }));
                    }
                }
                image_index += 1;
            }
            k += 1;
        }
        assert(lv.take(m as int) == lv);
        if pending.len() > 0 || !saw_image {
            flush_text(&mut rows, &mut pending, width);
        }
        done += 1;
    }
    assert(all.take(n as int) == all);

    let mut total: u32 = 0;
    let mut i: usize = 0;
    let ghost rv = rows.deep_view();
    assert(rv.take(0) =~= Seq::<RowView>::empty());
    while i < rows.len()
        invariant
            i <= rows@.len(),
            rv == rows.deep_view(),
            total as nat == min_nat(rows_height(rv.take(i as int)), u32::MAX as nat),
        decreases rows.len() - i,
    {
        assert(rv.take(i + 1).drop_last() == rv.take(i as int));
        assert(rv.take(i + 1).last() == rows@[i as int]@);
        total = total.saturating_add(rows[i].height() as u32);
        i += 1;
    }
    assert(rv.take(rows@.len() as int) == rv);
    let total_height: u16 = if total > 65535 {
        65535
    } else {
        total as u16
    };
    (rows, total_height)
}


/// Lays out `lines` like [`build_rows`], or gives `None` when a line is so long that the column
/// count of a wrapped row, or the count of spans, could exceed what a `usize` holds.
pub fn try_build_rows(lines: Vec<Vec<StyledSpan>>, image_heights: &[u16], width: u16) -> (res: Option<(Vec<ContentRow>, u16)>)
    ensures
        res is Some <==> lines_within_budget(lines_view(lines@)) && spans_count(lines_view(lines@)) <= usize::MAX,
        res matches Some(r) ==> r.0.deep_view() == layout_lines(lines_view(lines@), image_heights@, width as nat).rows
            && r.1 as nat == min_nat(rows_height(r.0.deep_view()), u16::MAX as nat),
{
    let ghost all = lines_view(lines@);
    let mut count: usize = 0;
    let mut i: usize = 0;
    assert(all.take(0) =~= Seq::<Seq<SpanView>>::empty());
    while i < lines.len()
        invariant
            i <= lines@.len(),
            all == lines_view(lines@),
            count as nat == spans_count(all.take(i as int)),
            forall|l: int| 0 <= l < i ==> spans_budget(#[trigger] all[l]) <= usize::MAX,
        decreases lines.len() - i,
    {
        assert(all.take(i + 1).drop_last() == all.take(i as int));
        assert(all[i as int] == lines@[i as int].deep_view());
        match spans_budget_exec(lines[i].as_slice()) {
            Some(_) => {},
            None => {
                return None;
            },
        }
        match count.checked_add(lines[i].len()) {
            Some(c) => count = c,
            None => {
                proof {
                    lemma_spans_count_prefix(all, i + 1);
                }
                return None;
            },
        }
        i += 1;
    }
    assert(all.take(lines@.len() as int) == all);
    Some(build_rows(lines, image_heights, width))
}

} // verus!
