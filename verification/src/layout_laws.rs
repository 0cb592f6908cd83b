//! What every layout keeps: the image sentinel never reaches a text row, image rows appear in
//! document order with their heights, and every line without an image yields rows.

use vstd::prelude::*;

use crate::content_layout::{
    IMAGE_SENTINEL, LayoutState, LineState, RowView, is_sentinel, layout_line, layout_lines,
    layout_span, layout_spans, text_rows,
};
use crate::style::SpanView;
use crate::text_wrap::spec_wrap;
use crate::unicode::is_ws;
use crate::wrap_laws::{law_wrap_keeps_visible_text, nonws, row_text, rows_text};

verus! {

/// The text holds no NUL character.
pub open spec fn nul_free(s: Seq<char>) -> bool {
    forall|i: int| 0 <= i < s.len() ==> s[i] != IMAGE_SENTINEL
}

/// Every span of the row is free of NUL characters.
pub open spec fn spans_nul_free(row: Seq<SpanView>) -> bool {
    forall|i: int| 0 <= i < row.len() ==> nul_free(#[trigger] row[i].text)
}

/// A text row with a NUL-free text; image rows trivially qualify.
pub open spec fn row_nul_free(r: RowView) -> bool {
    match r {
        RowView::Text(spans) => spans_nul_free(spans),
        RowView::Image { .. } => true,
    }
}

/// Every span of every line that is not the sentinel is free of NUL characters: NUL only ever
/// occurs as the sentinel span itself.
pub open spec fn nul_only_in_sentinels(lines: Seq<Seq<SpanView>>) -> bool {
    forall|l: int, s: int|
        0 <= l < lines.len() && 0 <= s < lines[l].len() && !is_sentinel(#[trigger] lines[l][s])
            ==> nul_free(lines[l][s].text)
}

pub proof fn lemma_nul_free_add(a: Seq<char>, b: Seq<char>)
    ensures
        nul_free(a + b) <==> nul_free(a) && nul_free(b),
{
    if nul_free(a) && nul_free(b) {
        assert forall|i: int| 0 <= i < (a + b).len() implies (a + b)[i] != IMAGE_SENTINEL by {
            if i >= a.len() {
                assert((a + b)[i] == b[i - a.len()]);
            }
        }
    }
    if nul_free(a + b) {
        assert forall|i: int| 0 <= i < b.len() implies b[i] != IMAGE_SENTINEL by {
            assert((a + b)[a.len() + i] == b[i]);
        }
        assert forall|i: int| 0 <= i < a.len() implies a[i] != IMAGE_SENTINEL by {
            assert((a + b)[i] == a[i]);
        }
    }
}

pub proof fn lemma_nonws_nul_free(s: Seq<char>)
    ensures
        nul_free(nonws(s)) <==> nul_free(s),
    decreases s.len(),
{
    if s.len() > 0 {
        lemma_nonws_nul_free(s.drop_last());
        let tail = if is_ws(s.last()) {
            Seq::<char>::empty()
        } else {
            seq![s.last()]
        };
        lemma_nul_free_add(nonws(s.drop_last()), tail);
        lemma_nul_free_add(s.drop_last(), seq![s.last()]);
        assert(s.drop_last() + seq![s.last()] == s);
        assert(!is_ws(IMAGE_SENTINEL));
    }
}

pub proof fn lemma_row_text_nul_free(row: Seq<SpanView>)
    ensures
        nul_free(row_text(row)) <==> spans_nul_free(row),
    decreases row.len(),
{
    if row.len() > 0 {
        lemma_row_text_nul_free(row.drop_last());
        lemma_nul_free_add(row_text(row.drop_last()), row.last().text);
        if spans_nul_free(row) {
            assert forall|i: int| 0 <= i < row.drop_last().len() implies nul_free(#[trigger] row.drop_last()[i].text) by {
                assert(row.drop_last()[i] == row[i]);
            }
        }
        if spans_nul_free(row.drop_last()) && nul_free(row.last().text) {
            assert forall|i: int| 0 <= i < row.len() implies nul_free(#[trigger] row[i].text) by {
                if i < row.len() - 1 {
                    assert(row[i] == row.drop_last()[i]);
                }
            }
        }
    }
}

pub proof fn lemma_rows_text_nul_free(rows: Seq<Seq<SpanView>>)
    ensures
        nul_free(rows_text(rows)) ==> forall|r: int| 0 <= r < rows.len() ==> spans_nul_free(#[trigger] rows[r]),
    decreases rows.len(),
{
    if rows.len() > 0 {
        lemma_rows_text_nul_free(rows.drop_last());
        lemma_nul_free_add(rows_text(rows.drop_last()), row_text(rows.last()));
        lemma_row_text_nul_free(rows.last());
        if nul_free(rows_text(rows)) {
            assert forall|r: int| 0 <= r < rows.len() implies spans_nul_free(#[trigger] rows[r]) by {
                if r < rows.len() - 1 {
                    assert(rows[r] == rows.drop_last()[r]);
                }
            }
        }
    }
}

/// Wrapping NUL-free spans yields NUL-free text rows.
pub proof fn lemma_text_rows_nul_free(spans: Seq<SpanView>, width: nat)
    requires
        spans_nul_free(spans),
    ensures
        forall|r: int| 0 <= r < text_rows(spans, width).len() ==> row_nul_free(#[trigger] text_rows(spans, width)[r]),
{
    if width > 0 {
        law_wrap_keeps_visible_text(spans, width);
        let w = spec_wrap(spans, width);
        lemma_row_text_nul_free(spans);
        lemma_nonws_nul_free(row_text(spans));
        lemma_nonws_nul_free(rows_text(w));
        lemma_rows_text_nul_free(w);
        assert forall|r: int| 0 <= r < text_rows(spans, width).len() implies row_nul_free(#[trigger] text_rows(spans, width)[r]) by {
            assert(text_rows(spans, width)[r] == RowView::Text(w[r]));
        }
    }
}


/// Image rows name images that exist, with their own heights, below `bound`, in strictly
/// increasing order.
pub open spec fn images_ordered(rows: Seq<RowView>, heights: Seq<u16>, bound: nat) -> bool {
    &&& forall|r: int|
        0 <= r < rows.len() ==> match #[trigger] rows[r] {
            RowView::Image { index, height } => index < bound && index < heights.len() && height
                == heights[index as int] && height > 0,
            RowView::Text(_) => true,
        }
    &&& forall|r1: int, r2: int|
        0 <= r1 < r2 < rows.len() && (#[trigger] rows[r1]) is Image && (#[trigger] rows[r2]) is Image
            ==> rows[r1]->index < rows[r2]->index
}

/// What the layout keeps.
pub open spec fn layout_inv(st: LayoutState, heights: Seq<u16>) -> bool {
    &&& forall|r: int| 0 <= r < st.rows.len() ==> row_nul_free(#[trigger] st.rows[r])
    &&& images_ordered(st.rows, heights, st.image_index)
}

/// Text rows appended after the layout keep it.
pub proof fn lemma_append_text_rows(st: LayoutState, heights: Seq<u16>, spans: Seq<SpanView>, width: nat)
    requires
        layout_inv(st, heights),
        spans_nul_free(spans),
    ensures
        layout_inv(LayoutState { rows: st.rows + text_rows(spans, width), ..st }, heights),
{
    lemma_text_rows_nul_free(spans, width);
    let t = text_rows(spans, width);
    let rows = st.rows + t;
    assert forall|r: int| 0 <= r < rows.len() implies row_nul_free(#[trigger] rows[r]) by {
        if r >= st.rows.len() {
            assert(rows[r] == t[r - st.rows.len()]);
        }
    }
    assert forall|r: int| 0 <= r < rows.len() && st.rows.len() <= r implies (#[trigger] rows[r]) is Text by {
        assert(rows[r] == t[r - st.rows.len()]);
    }
    assert forall|r: int|
        0 <= r < rows.len() implies match #[trigger] rows[r] {
            RowView::Image { index, height } => index < st.image_index && index < heights.len()
                && height == heights[index as int] && height > 0,
            RowView::Text(_) => true,
        } by {
        if r < st.rows.len() {
            assert(rows[r] == st.rows[r]);
        }
    }
    assert forall|r1: int, r2: int|
        0 <= r1 < r2 < rows.len() && (#[trigger] rows[r1]) is Image && (#[trigger] rows[r2]) is Image
            implies rows[r1]->index < rows[r2]->index by {
        if r2 < st.rows.len() {
            assert(rows[r1] == st.rows[r1]);
            assert(rows[r2] == st.rows[r2]);
        }
    }
}

/// What the layout within a line keeps: the pending spans are text free of NUL.
pub open spec fn line_inv(ls: LineState, heights: Seq<u16>) -> bool {
    &&& layout_inv(ls.layout, heights)
    &&& spans_nul_free(ls.pending)
}

pub proof fn lemma_layout_span_inv(ls: LineState, span: SpanView, heights: Seq<u16>, width: nat)
    requires
        line_inv(ls, heights),
        !is_sentinel(span) ==> nul_free(span.text),
    ensures
        line_inv(layout_span(ls, span, heights, width), heights),
        layout_span(ls, span, heights, width).layout.image_index >= ls.layout.image_index,
{
    let n = layout_span(ls, span, heights, width);
    if !is_sentinel(span) {
        assert forall|i: int| 0 <= i < n.pending.len() implies nul_free(#[trigger] n.pending[i].text) by {
            if i < ls.pending.len() {
                assert(n.pending[i] == ls.pending[i]);
            }
        }
    } else {
        let st1 = if ls.pending.len() > 0 {
            LayoutState { rows: ls.layout.rows + text_rows(ls.pending, width), ..ls.layout }
        } else {
            ls.layout
        };
        if ls.pending.len() > 0 {
            lemma_append_text_rows(ls.layout, heights, ls.pending, width);
        }
        assert(layout_inv(st1, heights));
        let i = ls.layout.image_index;
        let rows2 = n.layout.rows;
        if i < heights.len() && heights[i as int] > 0 {
            let img = RowView::Image { index: i, height: heights[i as int] as nat };
            assert(rows2 == st1.rows.push(img));
            assert forall|r: int| 0 <= r < rows2.len() implies row_nul_free(#[trigger] rows2[r]) by {
                if r < st1.rows.len() {
                    assert(rows2[r] == st1.rows[r]);
                }
            }
            assert forall|r: int|
                0 <= r < rows2.len() implies match #[trigger] rows2[r] {
                    RowView::Image { index, height } => index < i + 1 && index < heights.len()
                        && height == heights[index as int] && height > 0,
                    RowView::Text(_) => true,
                } by {
                if r < st1.rows.len() {
                    assert(rows2[r] == st1.rows[r]);
                }
            }
            assert forall|r1: int, r2: int|
                0 <= r1 < r2 < rows2.len() && (#[trigger] rows2[r1]) is Image && (#[trigger] rows2[r2]) is Image
                    implies rows2[r1]->index < rows2[r2]->index by {
                assert(rows2[r1] == st1.rows[r1]);
                if r2 < st1.rows.len() {
                    assert(rows2[r2] == st1.rows[r2]);
                }
            }
        } else {
            assert forall|r: int|
                0 <= r < rows2.len() implies match #[trigger] rows2[r] {
                    RowView::Image { index, height } => index < i + 1 && index < heights.len()
                        && height == heights[index as int] && height > 0,
                    RowView::Text(_) => true,
                } by {
                assert(rows2[r] == st1.rows[r]);
            }
        }
    }
}

pub proof fn lemma_layout_spans_inv(ls: LineState, spans: Seq<SpanView>, heights: Seq<u16>, width: nat)
    requires
        line_inv(ls, heights),
        forall|s: int| 0 <= s < spans.len() && !is_sentinel(#[trigger] spans[s]) ==> nul_free(spans[s].text),
    ensures
        line_inv(layout_spans(ls, spans, heights, width), heights),
    decreases spans.len(),
{
    if spans.len() > 0 {
        let prev = spans.drop_last();
        assert forall|s: int| 0 <= s < prev.len() && !is_sentinel(#[trigger] prev[s]) implies nul_free(prev[s].text) by {
            assert(prev[s] == spans[s]);
        }
        lemma_layout_spans_inv(ls, prev, heights, width);
        assert(spans.last() == spans[spans.len() - 1]);
        lemma_layout_span_inv(layout_spans(ls, prev, heights, width), spans.last(), heights, width);
    }
}

pub proof fn lemma_layout_lines_inv(lines: Seq<Seq<SpanView>>, heights: Seq<u16>, width: nat)
    requires
        nul_only_in_sentinels(lines),
    ensures
        layout_inv(layout_lines(lines, heights, width), heights),
    decreases lines.len(),
{
    if lines.len() > 0 {
        let prev = lines.drop_last();
        assert forall|l: int, s: int|
            0 <= l < prev.len() && 0 <= s < prev[l].len() && !is_sentinel(#[trigger] prev[l][s])
                implies nul_free(prev[l][s].text) by {
            assert(prev[l] == lines[l]);
        }
        lemma_layout_lines_inv(prev, heights, width);
        let st = layout_lines(prev, heights, width);
        let line = lines.last();
        assert forall|s: int| 0 <= s < line.len() && !is_sentinel(#[trigger] line[s]) implies nul_free(line[s].text) by {
            assert(line == lines[lines.len() - 1]);
        }
        let ls0 = LineState { layout: st, pending: Seq::empty(), saw_image: false };
        lemma_layout_spans_inv(ls0, line, heights, width);
        let ls = layout_spans(ls0, line, heights, width);
        if ls.pending.len() > 0 || !ls.saw_image {
            lemma_append_text_rows(ls.layout, heights, ls.pending, width);
        }
    }
}

/// The image sentinel never reaches a text row: when NUL occurs in the document only as the
/// sentinel spans themselves, no span of any text row of the layout holds a NUL. Image rows
/// appear in document order, each naming an existing image with its own, non-zero, height.
pub proof fn law_layout_sentinel_and_images(lines: Seq<Seq<SpanView>>, heights: Seq<u16>, width: nat)
    requires
        nul_only_in_sentinels(lines),
    ensures
        forall|r: int|
            0 <= r < layout_lines(lines, heights, width).rows.len()
                ==> row_nul_free(#[trigger] layout_lines(lines, heights, width).rows[r]),
        images_ordered(
            layout_lines(lines, heights, width).rows,
            heights,
            layout_lines(lines, heights, width).image_index,
        ),
{
    lemma_layout_lines_inv(lines, heights, width);
}

/// A line without a sentinel keeps its spans pending and places nothing.
pub proof fn lemma_layout_spans_no_sentinel(ls: LineState, spans: Seq<SpanView>, heights: Seq<u16>, width: nat)
    requires
        forall|s: int| 0 <= s < spans.len() ==> !is_sentinel(#[trigger] spans[s]),
    ensures
        layout_spans(ls, spans, heights, width).layout == ls.layout,
        layout_spans(ls, spans, heights, width).saw_image == ls.saw_image,
        layout_spans(ls, spans, heights, width).pending == ls.pending + spans,
    decreases spans.len(),
{
    if spans.len() == 0 {
        assert(ls.pending + spans == ls.pending);
    } else {
        let prev = spans.drop_last();
        assert forall|s: int| 0 <= s < prev.len() implies !is_sentinel(#[trigger] prev[s]) by {
            assert(prev[s] == spans[s]);
        }
        lemma_layout_spans_no_sentinel(ls, prev, heights, width);
        assert(!is_sentinel(spans[spans.len() - 1]));
        assert((ls.pending + prev).push(spans.last()) == ls.pending + spans);
    }
}

/// Blank lines survive: a line without an image becomes exactly its wrapped rows, which at a
/// positive width are at least one, even when the line is empty.
pub proof fn law_layout_line_without_image(st: LayoutState, line: Seq<SpanView>, heights: Seq<u16>, width: nat)
    requires
        forall|s: int| 0 <= s < line.len() ==> !is_sentinel(#[trigger] line[s]),
    ensures
        layout_line(st, line, heights, width).rows == st.rows + text_rows(line, width),
        layout_line(st, line, heights, width).image_index == st.image_index,
        width > 0 ==> layout_line(st, line, heights, width).rows.len() > st.rows.len(),
{
    let ls0 = LineState { layout: st, pending: Seq::empty(), saw_image: false };
    lemma_layout_spans_no_sentinel(ls0, line, heights, width);
    assert(Seq::<SpanView>::empty() + line == line);
    if width > 0 {
        law_wrap_keeps_visible_text(line, width);
    }
}

} // verus!
