//! The text of the cells of the article table: ages, icons, and summaries collapsed onto a line
//! and cut to the room they have.

use vstd::prelude::*;

use crate::style::{SpanView, StyledSpan, TextStyle};
use crate::text_wrap::{sat_sub, spans_budget, spans_budget_exec, spec_wrap, wrap_spans};
use crate::unicode::{
    char_columns, char_width, chars_of, is_whitespace, is_ws, push_char, push_str,
    str_display_width, str_width,
};
use crate::article_table::{
    column_constraints, max_tag_count, row_height, seq_max, spec_column_constraint, spec_summary_width,
    summary_width, total_weight, used_width, ColumnContext, ColumnKind, TableLayout, SUMMARY_ROW_HEIGHT,
};
use crate::dimension::LayoutConstraint;
use crate::utils::{html_sanitize, option_chars, spec_html_sanitize};
use crate::wrap_laws::row_text;

verus! {

/// The decimal digit `d` as a character.
pub open spec fn digit_char(d: nat) -> char {
    ((48 + d) as u8) as char
}

/// The decimal digits of `n`, most significant first.
pub open spec fn decimal(n: nat) -> Seq<char>
    decreases n,
{
    if n < 10 {
        seq![digit_char(n)]
    } else {
        decimal(n / 10).push(digit_char(n % 10))
    }
}

/// The decimal form of `n`, with a minus sign when it is negative.
pub open spec fn signed_decimal(n: int) -> Seq<char> {
    if n < 0 {
        seq!['-'] + decimal((-n) as nat)
    } else {
        decimal(n as nat)
    }
}

/// `s` right-aligned in a field of two characters, as `{:>2}` formats it.
pub open spec fn pad2(s: Seq<char>) -> Seq<char> {
    if s.len() == 0 {
        seq![' ', ' ']
    } else if s.len() == 1 {
        seq![' '] + s
    } else {
        s
    }
}

/// Appends the decimal digits of `n` to `s`.
pub fn push_decimal(s: &mut String, n: u64)
    ensures
        final(s)@ == old(s)@ + decimal(n as nat),
    decreases n,
{
    if n >= 10 {
        push_decimal(s, n / 10);
    }
    let d: u8 = (n % 10) as u8;
    push_char(s, (48u8 + d) as char);
    proof {
        if n >= 10 {
            assert(decimal(n as nat) == decimal((n / 10) as nat).push(digit_char((n % 10) as nat)));
        }
    }
}

/// The decimal form of `n` right-aligned in two characters.
fn padded_decimal(n: u64) -> (s: String)
    ensures
        s@ == pad2(decimal(n as nat)),
{
    let mut digits = String::new();
    push_decimal(&mut digits, n);
    assert(digits@ == decimal(n as nat));
    if n < 10 {
        let mut s = String::new();
        push_char(&mut s, ' ');
        push_str(&mut s, digits.as_str());
        s
    } else {
        assert(decimal(n as nat).len() >= 2) by {
            assert(decimal((n / 10) as nat).len() >= 1);
        }
        digits
    }
}

/// Seconds in a minute, an hour, a day and a week.
pub const SECONDS_PER_MINUTE: i64 = 60;
pub const SECONDS_PER_HOUR: i64 = 3600;
pub const SECONDS_PER_DAY: i64 = 86400;
pub const SECONDS_PER_WEEK: i64 = 604800;

/// The age column's text for an article `seconds` old: whole weeks, days, hours or minutes,
/// the largest unit that is not zero, or else the seconds themselves.
pub open spec fn spec_age_label(seconds: int) -> Seq<char> {
    if seconds >= SECONDS_PER_WEEK {
        pad2(decimal((seconds / SECONDS_PER_WEEK as int) as nat)) + "w"@
    } else if seconds >= SECONDS_PER_DAY {
        pad2(decimal((seconds / SECONDS_PER_DAY as int) as nat)) + "d"@
    } else if seconds >= SECONDS_PER_HOUR {
        pad2(decimal((seconds / SECONDS_PER_HOUR as int) as nat)) + "h  "@
    } else if seconds >= SECONDS_PER_MINUTE {
        pad2(decimal((seconds / SECONDS_PER_MINUTE as int) as nat)) + "m"@
    } else {
        pad2(signed_decimal(seconds)) + "s"@
    }
}

/// The age column's text for an article `seconds` old (the whole seconds since it was
/// published; negative for a date in the future).
pub fn age_label(seconds: i64) -> (s: String)
    ensures
        s@ == spec_age_label(seconds as int),
{
    proof {
        reveal_strlit("w");
        reveal_strlit("d");
        reveal_strlit("h  ");
        reveal_strlit("m");
        reveal_strlit("s");
    }
    if seconds >= SECONDS_PER_WEEK {
        let mut s = padded_decimal((seconds as u64) / (SECONDS_PER_WEEK as u64));
        push_str(&mut s, "w");
        s
    } else if seconds >= SECONDS_PER_DAY {
        let mut s = padded_decimal((seconds as u64) / (SECONDS_PER_DAY as u64));
        push_str(&mut s, "d");
        s
    } else if seconds >= SECONDS_PER_HOUR {
        let mut s = padded_decimal((seconds as u64) / (SECONDS_PER_HOUR as u64));
        push_str(&mut s, "h  ");
        s
    } else if seconds >= SECONDS_PER_MINUTE {
        let mut s = padded_decimal((seconds as u64) / (SECONDS_PER_MINUTE as u64));
        push_str(&mut s, "m");
        s
    } else if seconds >= 0 {
        let mut s = padded_decimal(seconds as u64);
        push_str(&mut s, "s");
        s
    } else {
        let magnitude: u64 = (0i128 - seconds as i128) as u64;
        let mut s = String::new();
        push_char(&mut s, '-');
        push_decimal(&mut s, magnitude);
        assert(s@ == signed_decimal(seconds as int));
        assert(s@.len() >= 2) by {
            assert(decimal(magnitude as nat).len() >= 1);
        }
        push_str(&mut s, "s");
        s
    }
}

/// The words of `s`: its maximal runs of characters that are not white space.
pub open spec fn words(s: Seq<char>) -> Seq<Seq<char>>
    decreases s.len(),
{
    if s.len() == 0 {
        Seq::empty()
    } else {
        let w = words(s.drop_last());
        let c = s.last();
        if is_ws(c) {
            w
        } else if s.len() >= 2 && !is_ws(s[s.len() - 2]) {
            w.update(w.len() - 1, w.last().push(c))
        } else {
            w.push(seq![c])
        }
    }
}

/// `ws` joined by single spaces.
pub open spec fn join_spaced(ws: Seq<Seq<char>>) -> Seq<char>
    decreases ws.len(),
{
    if ws.len() == 0 {
        Seq::empty()
    } else if ws.len() == 1 {
        ws[0]
    } else {
        join_spaced(ws.drop_last()) + seq![' '] + ws.last()
    }
}

/// `s` with its white space collapsed: its words joined by single spaces.
pub open spec fn spec_collapse_whitespace(s: Seq<char>) -> Seq<char> {
    join_spaced(words(s))
}

/// Extending the last of the joined words extends the joined text.
proof fn lemma_join_extend_last(ws: Seq<Seq<char>>, c: char)
    requires
        ws.len() >= 1,
    ensures
        join_spaced(ws.update(ws.len() - 1, ws.last().push(c))) == join_spaced(ws).push(c),
{
    let u = ws.update(ws.len() - 1, ws.last().push(c));
    if ws.len() > 1 {
        assert(u.drop_last() == ws.drop_last());
    }
}

/// A word after the joined ones is joined with a space before it, unless it is the first.
proof fn lemma_join_push(ws: Seq<Seq<char>>, w: Seq<char>)
    ensures
        join_spaced(ws.push(w)) == (if ws.len() == 0 { w } else { join_spaced(ws) + seq![' '] + w }),
{
    assert(ws.push(w).drop_last() == ws);
}

/// The words of `s` joined by single spaces, as `split_whitespace` and `join(" ")` give them.
pub fn collapse_whitespace(s: &str) -> (r: String)
    ensures
        r@ == spec_collapse_whitespace(s@),
{
    let mut out = String::new();
    let mut in_word = false;
    let mut started = false;
    assert(s@.take(s@.len() as int) == s@);
    for c in it: s.chars()
        invariant
            it.seq() == s@,
            s@.take(s@.len() as int) == s@,
            out@ == join_spaced(words(it.seq().take(it.index() as int))),
            in_word == (it.index() > 0 && !is_ws(it.seq()[it.index() - 1])),
            in_word ==> words(it.seq().take(it.index() as int)).len() > 0,
            started == (words(it.seq().take(it.index() as int)).len() > 0),
    {
        let ghost i = it.index();
        let ghost pre = it.seq().take(i as int);
        let ghost post = it.seq().take(i + 1);
        assert(post.drop_last() == pre);
        assert(post.last() == c);
        proof {
            if i > 0 {
                assert(post[post.len() - 2] == it.seq()[i - 1]);
            }
        }
        if is_whitespace(c) {
            in_word = false;
        } else if in_word {
            push_char(&mut out, c);
            proof {
                lemma_join_extend_last(words(pre), c);
            }
        } else {
            if !started {
                push_char(&mut out, c);
            } else {
                push_char(&mut out, ' ');
                push_char(&mut out, c);
            }
            started = true;
            in_word = true;
            proof {
                lemma_join_push(words(pre), seq![c]);
                assert(seq![c].len() == 1);
            }
        }
    }
    out
}

/// The text shown as an article's summary: its entities decoded and its white space
/// collapsed onto one line; empty when it has none.
pub open spec fn spec_summary_of(summary: Option<Seq<char>>) -> Seq<char> {
    match summary {
        Some(s) => spec_collapse_whitespace(spec_html_sanitize(s)),
        None => Seq::empty(),
    }
}

/// The characters of an optional string slice.
pub open spec fn option_str_chars(s: Option<&str>) -> Option<Seq<char>> {
    match s {
        Some(t) => Some(t@),
        None => None,
    }
}

/// The text shown as an article's summary: its entities decoded and its white space
/// collapsed onto one line; empty when it has none.
pub fn summary_of(summary: Option<&str>) -> (r: String)
    ensures
        r@ == spec_summary_of(option_str_chars(summary)),
{
    match summary {
        Some(s) => {
            let sanitized = html_sanitize(s);
            collapse_whitespace(sanitized.as_str())
        },
        None => String::new(),
    }
}

/// The longest prefix of `s` whose columns add up to at most `budget`.
pub open spec fn fitting_prefix(s: Seq<char>, budget: nat) -> Seq<char>
    decreases s.len(),
{
    if s.len() == 0 || char_columns(s[0]) > budget {
        Seq::empty()
    } else {
        seq![s[0]] + fitting_prefix(s.drop_first(), (budget - char_columns(s[0])) as nat)
    }
}

/// The columns left for text in a line of `width` columns that ends with an ellipsis.
pub open spec fn ellipsis_budget(width: nat) -> nat {
    sat_sub(width, str_display_width("\u{2026}"@) as nat)
}

/// `text` cut back to fit a line of `width` columns together with a closing ellipsis.
pub open spec fn spec_ellipsized(text: Seq<char>, width: nat) -> Seq<char> {
    fitting_prefix(text, ellipsis_budget(width)).push('\u{2026}')
}

/// Cuts the line back to `width` columns and ends it with an ellipsis; the line becomes a single
/// span in `style`.
pub fn ellipsize(line: &mut Vec<StyledSpan>, style: TextStyle, width: u16)
    ensures
        final(line).deep_view() == seq![SpanView {
            text: spec_ellipsized(row_text(old(line).deep_view()), width as nat),
            style,
        }],
{
    let ghost spans = line.deep_view();
    let ellipsis_width = str_width("\u{2026}");
    let budget: usize = if (width as usize) >= ellipsis_width {
        width as usize - ellipsis_width
    } else {
        0
    };
    let mut text = String::new();
    let mut j: usize = 0;
    while j < line.len()
        invariant
            j <= line@.len(),
            spans == line.deep_view(),
            text@ == row_text(spans.take(j as int)),
        decreases line@.len() - j,
    {
        assert(spans.take(j + 1).drop_last() == spans.take(j as int));
        assert(spans.take(j + 1).last() == line@[j as int]@);
        push_str(&mut text, line[j].content.as_str());
        j = j + 1;
    }
    assert(spans.take(spans.len() as int) == spans);
    let chars = chars_of(text.as_str());
    let ghost all = chars@;
    let mut kept = String::new();
    let mut used: usize = 0;
    let mut i: usize = 0;
    assert(all.skip(0) =~= all);
    assert(all.take(0) + all =~= all);
    while i < chars.len()
        invariant_except_break
            chars@ == all,
            i <= all.len(),
            used <= budget,
            kept@ == all.take(i as int),
            fitting_prefix(all, budget as nat) == all.take(i as int) + fitting_prefix(all.skip(i as int), (budget - used) as nat),
        ensures
            kept@ == fitting_prefix(all, budget as nat),
        decreases all.len() - i,
    {
        let c = chars[i];
        let cw = match char_width(c) {
            Some(w) => w,
            None => 0,
        };
        let ghost rest = all.skip(i as int);
        assert(rest[0] == c);
        assert(cw == char_columns(c));
        if cw > budget - used {
            assert(fitting_prefix(rest, (budget - used) as nat) == Seq::<char>::empty());
            assert(all.take(i as int) + Seq::<char>::empty() == all.take(i as int));
            break;
        }
        push_char(&mut kept, c);
        proof {
            assert(rest.drop_first() =~= all.skip(i + 1));
            assert(all.take(i + 1) =~= all.take(i as int).push(c));
            assert(fitting_prefix(rest, (budget - used) as nat) == seq![c] + fitting_prefix(all.skip(i + 1), (budget - used - cw) as nat));
            assert(all.take(i as int) + (seq![c] + fitting_prefix(all.skip(i + 1), (budget - used - cw) as nat))
                =~= all.take(i + 1) + fitting_prefix(all.skip(i + 1), (budget - used - cw) as nat));
        }
        used = used + cw;
        i = i + 1;
    }
    proof {
        if i == all.len() {
            assert(all.skip(i as int).len() == 0);
            assert(all.take(i as int) == all);
            assert(all + Seq::<char>::empty() == all);
        }
    }
    push_char(&mut kept, '\u{2026}');
    let mut out: Vec<StyledSpan> = Vec::new();
    out.push(StyledSpan::styled(kept, style));
    *line = out;
    assert(line.deep_view() =~= seq![SpanView { text: spec_ellipsized(row_text(spans), width as nat), style }]);
}

/// How many lines a summary may take underneath the title.
pub const SUMMARY_LINES: usize = 2;

/// The single span of a summary.
pub open spec fn summary_span(summary: Option<Seq<char>>, style: TextStyle) -> Seq<SpanView> {
    seq![SpanView { text: spec_summary_of(summary), style }]
}

/// The lines of an article's summary in a column `width` wide: wrapped, at most
/// `SUMMARY_LINES` of them, the last one ellipsized if the text did not fit; none when there is
/// no summary.
pub open spec fn spec_summary_lines(summary: Option<Seq<char>>, width: nat, style: TextStyle) -> Seq<Seq<SpanView>> {
    let s = spec_summary_of(summary);
    if s.len() == 0 {
        Seq::empty()
    } else {
        let rows = spec_wrap(summary_span(summary, style), width);
        if rows.len() <= SUMMARY_LINES {
            rows
        } else {
            rows.take(SUMMARY_LINES as int).update(
                SUMMARY_LINES - 1,
                seq![SpanView { text: spec_ellipsized(row_text(rows[SUMMARY_LINES - 1]), width), style }],
            )
        }
    }
}

/// The summary lines of an article: its summary wrapped to `width` columns, at most two lines,
/// the last one ellipsized if the text did not fit.
pub fn summary_lines(summary: Option<&str>, width: u16, style: TextStyle) -> (lines: Vec<Vec<StyledSpan>>)
    requires
        spans_budget(summary_span(option_str_chars(summary), style)) <= usize::MAX,
    ensures
        lines.deep_view() == spec_summary_lines(option_str_chars(summary), width as nat, style),
{
    let text = summary_of(summary);
    if text.as_str().is_empty() {
        let none: Vec<Vec<StyledSpan>> = Vec::new();
        assert(none.deep_view() =~= Seq::<Seq<SpanView>>::empty());
        return none;
    }
    let mut spans: Vec<StyledSpan> = Vec::new();
    spans.push(StyledSpan::styled(text, style));
    assert(spans.deep_view() =~= summary_span(option_str_chars(summary), style));
    let mut lines = wrap_spans(spans.as_slice(), width);
    let ghost rows = lines.deep_view();
    if lines.len() <= SUMMARY_LINES {
        return lines;
    }
    lines.truncate(SUMMARY_LINES);
    let mut last = lines.pop().unwrap();
    assert(last.deep_view() == rows[SUMMARY_LINES - 1]);
    ellipsize(&mut last, style, width);
    lines.push(last);
    assert(lines.deep_view() =~= rows.take(SUMMARY_LINES as int).update(
        SUMMARY_LINES - 1,
        seq![SpanView { text: spec_ellipsized(row_text(rows[SUMMARY_LINES - 1]), width as nat), style }],
    ));
    lines
}

/// The summary lines of an article, or `None` when the widths of its characters add up to more
/// than a `usize` can count.
pub fn try_summary_lines(summary: Option<&str>, width: u16, style: TextStyle) -> (lines: Option<Vec<Vec<StyledSpan>>>)
    ensures
        lines is Some <==> spans_budget(summary_span(option_str_chars(summary), style)) <= usize::MAX,
        lines matches Some(l) ==> l.deep_view() == spec_summary_lines(option_str_chars(summary), width as nat, style),
{
    let text = summary_of(summary);
    let mut spans: Vec<StyledSpan> = Vec::new();
    spans.push(StyledSpan::styled(text, style));
    assert(spans.deep_view() =~= summary_span(option_str_chars(summary), style));
    match spans_budget_exec(spans.as_slice()) {
        Some(_) => Some(summary_lines(summary, width, style)),
        None => None,
    }
}

/// What the cells of an article's row are made of, taken from the article, its feed and its
/// tags.
pub struct ArticleFields {
    pub title: Option<String>,
    pub summary: Option<String>,
    pub author: Option<String>,
    /// The label of the article's feed, if the feed is known.
    pub feed_label: Option<String>,
    pub url: Option<String>,
    /// The article's date, already formatted as configured.
    pub date_text: String,
    /// The whole seconds since the article was published.
    pub age_seconds: i64,
    pub read: bool,
    pub marked: bool,
    pub flagged: bool,
    /// The style of the icon of each of the article's tags (`None` for a tag that is not
    /// known), or `None` when the article has no tag list.
    pub tags: Option<Vec<Option<TextStyle>>>,
}

/// The icons and settings the cells are drawn with.
#[derive(Clone, Copy, Debug)]
pub struct CellConfig {
    pub read_icon: char,
    pub unread_icon: char,
    pub marked_icon: char,
    pub unmarked_icon: char,
    pub flagged_icon: char,
    pub tag_icon: char,
    /// Whether any article of the list is flagged.
    pub any_flagged: bool,
    /// Whether summaries are shown at all.
    pub show_summary: bool,
    /// Whether the summary has a column of its own rather than sitting under the title.
    pub summary_is_column: bool,
    /// The width summaries are wrapped to.
    pub summary_width: u16,
    /// The style of summary lines.
    pub summary_style: TextStyle,
}

/// The content of a cell: a plain string, or lines of styled spans.
pub enum CellText {
    Plain(String),
    Lines(Vec<Vec<StyledSpan>>),
}

/// The abstract content of a cell.
pub enum CellView {
    Plain(Seq<char>),
    Lines(Seq<Seq<SpanView>>),
}

impl CellText {
    /// The abstract content of this cell.
    pub open spec fn view(&self) -> CellView {
        match self {
            CellText::Plain(s) => CellView::Plain(s@),
            CellText::Lines(l) => CellView::Lines(l.deep_view()),
        }
    }
}

/// A space followed by `icon`.
pub open spec fn icon_text(icon: char) -> Seq<char> {
    seq![' ', icon]
}

/// `s`, or `default` when it is `None`.
pub open spec fn chars_or(s: Option<Seq<char>>, default: Seq<char>) -> Seq<char> {
    match s {
        Some(t) => t,
        None => default,
    }
}

/// The span of a tag icon: the icon in the tag's style, or nothing for an unknown tag.
pub open spec fn tag_span(style: Option<TextStyle>, icon: char) -> SpanView {
    match style {
        Some(st) => SpanView { text: seq![icon], style: st },
        None => SpanView { text: Seq::empty(), style: plain_style() },
    }
}

/// The style that sets nothing.
pub open spec fn plain_style() -> TextStyle {
    TextStyle { fg: None, bg: None, underline_color: None, add_modifier: 0, sub_modifier: 0 }
}

/// The line of tag icons of an article.
pub open spec fn spec_tag_line(tags: Option<Seq<Option<TextStyle>>>, icon: char) -> Seq<SpanView> {
    match tags {
        Some(t) => Seq::new(t.len(), |i: int| tag_span(t[i], icon)),
        None => seq![SpanView { text: Seq::empty(), style: plain_style() }],
    }
}

/// The tag styles of an article, if it has a tag list.
pub open spec fn tags_view(tags: Option<Vec<Option<TextStyle>>>) -> Option<Seq<Option<TextStyle>>> {
    match tags {
        Some(t) => Some(t@),
        None => None,
    }
}

/// Whether the cell of kind `kind` carries summary lines.
pub open spec fn cell_has_summary(kind: ColumnKind, f: ArticleFields, cfg: CellConfig) -> bool {
    ||| kind == ColumnKind::Summary
    ||| (kind == ColumnKind::Title && cfg.show_summary && !cfg.summary_is_column && f.title is Some)
}

/// The title line of an article: its title, or its summary when it has none.
pub open spec fn title_line(f: ArticleFields) -> Seq<SpanView> {
    let text = match option_chars(f.title) {
        Some(t) => t,
        None => chars_or(option_chars(f.summary), "no title and summary"@),
    };
    seq![SpanView { text: spec_html_sanitize(text), style: plain_style() }]
}

/// The content of the cell of kind `kind` (named in the configuration by `placeholder`) for
/// the article `f`.
pub open spec fn spec_article_cell(kind: ColumnKind, placeholder: Seq<char>, f: ArticleFields, cfg: CellConfig) -> CellView {
    let summary = spec_summary_lines(option_chars(f.summary), cfg.summary_width as nat, cfg.summary_style);
    match kind {
        ColumnKind::Title => CellView::Lines(
            if cfg.show_summary && !cfg.summary_is_column && f.title is Some {
                seq![title_line(f)] + summary
            } else {
                seq![title_line(f)]
            },
        ),
        ColumnKind::Summary => CellView::Lines(summary),
        ColumnKind::TagIcons => CellView::Lines(seq![spec_tag_line(tags_view(f.tags), cfg.tag_icon)]),
        ColumnKind::Author => CellView::Plain(spec_html_sanitize(chars_or(option_chars(f.author), "no author"@))),
        ColumnKind::Feed => CellView::Plain(spec_html_sanitize(chars_or(option_chars(f.feed_label), "unknown feed"@))),
        ColumnKind::Date => CellView::Plain(f.date_text@),
        ColumnKind::Age => CellView::Plain(spec_age_label(f.age_seconds as int)),
        ColumnKind::Read => CellView::Plain(icon_text(if f.read { cfg.read_icon } else { cfg.unread_icon })),
        ColumnKind::Marked => CellView::Plain(icon_text(if f.marked { cfg.marked_icon } else { cfg.unmarked_icon })),
        ColumnKind::Url => CellView::Plain(chars_or(option_chars(f.url), "?"@)),
        ColumnKind::Flagged => CellView::Plain(
            if !cfg.any_flagged {
                Seq::empty()
            } else if f.flagged {
                icon_text(cfg.flagged_icon)
            } else {
                seq![' ', ' ']
            },
        ),
        ColumnKind::Unknown => CellView::Plain(placeholder.push('?')),
    }
}

/// A space followed by `icon`.
fn icon_string(icon: char) -> (s: String)
    ensures
        s@ == icon_text(icon),
{
    let mut s = String::new();
    push_char(&mut s, ' ');
    push_char(&mut s, icon);
    s
}

/// The characters of an optional string, as a slice.
fn as_str_option(s: &Option<String>) -> (r: Option<&str>)
    ensures
        option_str_chars(r) == option_chars(*s),
{
    match s {
        Some(t) => Some(t.as_str()),
        None => None,
    }
}

/// A copy of an optional string, or of `default` when it is `None`.
fn string_or(s: &Option<String>, default: &str) -> (r: String)
    ensures
        r@ == chars_or(option_chars(*s), default@),
{
    match s {
        Some(t) => t.clone(),
        None => default.to_owned(),
    }
}

/// The line of tag icons of an article.
fn tag_line(tags: &Option<Vec<Option<TextStyle>>>, icon: char) -> (line: Vec<StyledSpan>)
    ensures
        line.deep_view() == spec_tag_line(tags_view(*tags), icon),
{
    let mut line: Vec<StyledSpan> = Vec::new();
    match tags {
        Some(t) => {
            for i in 0..t.len()
                invariant
                    line@.len() == i,
                    forall|j: int| 0 <= j < i ==> (#[trigger] line@[j])@ == tag_span(t@[j], icon),
            {
                let span = match t[i] {
                    Some(st) => {
                        let mut s = String::new();
                        push_char(&mut s, icon);
                        StyledSpan::styled(s, st)
                    },
                    None => StyledSpan::styled(String::new(), TextStyle::new()),
                };
                line.push(span);
            }
            assert(line.deep_view() =~= spec_tag_line(tags_view(*tags), icon));
        },
        None => {
            line.push(StyledSpan::styled(String::new(), TextStyle::new()));
            assert(line.deep_view() =~= spec_tag_line(tags_view(*tags), icon));
        },
    }
    line
}

/// The content of the cell of kind `kind` (named in the configuration by `placeholder`) for
/// the article `f`; `None` exactly when the cell carries summary lines whose character widths add
/// up to more than a `usize` can count.
pub fn article_cell(kind: ColumnKind, placeholder: &[char], f: &ArticleFields, cfg: &CellConfig) -> (cell: Option<CellText>)
    ensures
        cell is None <==> (cell_has_summary(kind, *f, *cfg) && spans_budget(
            summary_span(option_chars(f.summary), cfg.summary_style),
        ) > usize::MAX),
        cell matches Some(c) ==> c.view() == spec_article_cell(kind, placeholder@, *f, *cfg),
{
    proof {
        reveal_strlit("no title and summary");
        reveal_strlit("no author");
        reveal_strlit("unknown feed");
        reveal_strlit("?");
    }
    match kind {
        ColumnKind::Title => {
            let base = match &f.title {
                Some(t) => t.clone(),
                None => string_or(&f.summary, "no title and summary"),
            };
            let text = html_sanitize(base.as_str());
            let mut first: Vec<StyledSpan> = Vec::new();
            first.push(StyledSpan::styled(text, TextStyle::new()));
            assert(first.deep_view() =~= title_line(*f));
            let mut lines: Vec<Vec<StyledSpan>> = Vec::new();
            lines.push(first);
            assert(lines.deep_view() =~= seq![title_line(*f)]);
            if cfg.show_summary && !cfg.summary_is_column && f.title.is_some() {
                match try_summary_lines(as_str_option(&f.summary), cfg.summary_width, cfg.summary_style) {
                    Some(mut more) => {
                        let ghost head = lines.deep_view();
                        let ghost tail = more.deep_view();
                        lines.append(&mut more);
                        assert(lines.deep_view() =~= head + tail);
                        assert(tail == spec_summary_lines(option_chars(f.summary), cfg.summary_width as nat, cfg.summary_style));
                    },
                    None => {
                        return None;
                    },
                }
            } else {
                assert(lines.deep_view() =~= seq![title_line(*f)]);
            }
            let c = CellText::Lines(lines);
            assert(c.view() == spec_article_cell(kind, placeholder@, *f, *cfg));
            Some(c)
        },
        ColumnKind::Summary => match try_summary_lines(as_str_option(&f.summary), cfg.summary_width, cfg.summary_style) {
            Some(lines) => {
                let c = CellText::Lines(lines);
                assert(c.view() == spec_article_cell(kind, placeholder@, *f, *cfg));
                Some(c)
            },
            None => None,
        },
        ColumnKind::TagIcons => {
            let line = tag_line(&f.tags, cfg.tag_icon);
            let mut lines: Vec<Vec<StyledSpan>> = Vec::new();
            lines.push(line);
            assert(lines.deep_view() =~= seq![spec_tag_line(tags_view(f.tags), cfg.tag_icon)]);
            let c = CellText::Lines(lines);
            assert(c.view() == spec_article_cell(kind, placeholder@, *f, *cfg));
            Some(c)
        },
        ColumnKind::Author => {
            let a = string_or(&f.author, "no author");
            let c = CellText::Plain(html_sanitize(a.as_str()));
            assert(c.view() == spec_article_cell(kind, placeholder@, *f, *cfg));
            Some(c)
        },
        ColumnKind::Feed => {
            let l = string_or(&f.feed_label, "unknown feed");
            let c = CellText::Plain(html_sanitize(l.as_str()));
            assert(c.view() == spec_article_cell(kind, placeholder@, *f, *cfg));
            Some(c)
        },
        ColumnKind::Date => Some(CellText::Plain(f.date_text.clone())),
        ColumnKind::Age => Some(CellText::Plain(age_label(f.age_seconds))),
        ColumnKind::Read => Some(CellText::Plain(icon_string(if f.read { cfg.read_icon } else { cfg.unread_icon }))),
        ColumnKind::Marked => Some(CellText::Plain(icon_string(if f.marked { cfg.marked_icon } else { cfg.unmarked_icon }))),
        ColumnKind::Url => Some(CellText::Plain(string_or(&f.url, "?"))),
        ColumnKind::Flagged => {
            let s = if !cfg.any_flagged {
                let none = String::new();
                assert(none@ =~= Seq::<char>::empty());
                none
            } else if f.flagged {
                icon_string(cfg.flagged_icon)
            } else {
                let mut two = String::new();
                push_char(&mut two, ' ');
                push_char(&mut two, ' ');
                assert(two@ =~= seq![' ', ' ']);
                two
            };
            let c = CellText::Plain(s);
            assert(c.view() == spec_article_cell(kind, placeholder@, *f, *cfg));
            Some(c)
        },
        ColumnKind::Unknown => {
            let mut s = String::new();
            let mut i: usize = 0;
            while i < placeholder.len()
                invariant
                    i <= placeholder.len(),
                    s@ == placeholder@.take(i as int),
                decreases placeholder.len() - i,
            {
                push_char(&mut s, placeholder[i]);
                assert(placeholder@.take(i + 1) == placeholder@.take(i as int).push(placeholder@[i as int]));
                i = i + 1;
            }
            assert(placeholder@.take(placeholder.len() as int) == placeholder@);
            push_char(&mut s, '?');
            let c = CellText::Plain(s);
            assert(c.view() == spec_article_cell(kind, placeholder@, *f, *cfg));
            Some(c)
        },
    }
}

/// Whether an article has a title and a summary that is not empty once collapsed.
pub open spec fn has_titled_summary(f: ArticleFields) -> bool {
    f.title is Some && spec_summary_of(option_chars(f.summary)).len() > 0
}

/// Whether some article of the list has a title and a summary, so that rows need room for
/// summary lines.
pub fn some_titled_summary(articles: &[ArticleFields]) -> (b: bool)
    ensures
        b == exists|i: int| 0 <= i < articles@.len() && has_titled_summary(#[trigger] articles@[i]),
{
    let mut i: usize = 0;
    while i < articles.len()
        invariant
            i <= articles.len(),
            forall|j: int| 0 <= j < i ==> !has_titled_summary(#[trigger] articles@[j]),
        decreases articles.len() - i,
    {
        if articles[i].title.is_some() {
            let s = summary_of(as_str_option(&articles[i].summary));
            if !s.as_str().is_empty() {
                assert(has_titled_summary(articles@[i as int]));
                return true;
            }
        }
        i = i + 1;
    }
    false
}

/// Whether the summary cell of column kind `kind` is too long to lay out.
pub open spec fn cell_overflows(kind: ColumnKind, f: ArticleFields, cfg: CellConfig) -> bool {
    cell_has_summary(kind, f, cfg) && spans_budget(summary_span(option_chars(f.summary), cfg.summary_style))
        > usize::MAX
}

/// The row of an article in the list: one cell per shown column, in order, column `i` having
/// the placeholder `columns[i]` and the kind `kinds[i]`; `None` when a summary cell is too long
/// to lay out.
pub fn article_row(columns: &Vec<Vec<char>>, kinds: &Vec<ColumnKind>, f: &ArticleFields, cfg: &CellConfig) -> (row: Option<Vec<CellText>>)
    ensures
        ({
            let n = if columns@.len() < kinds@.len() { columns@.len() } else { kinds@.len() };
            &&& row is None <==> exists|i: int| 0 <= i < n && cell_overflows(#[trigger] kinds@[i], *f, *cfg)
            &&& row matches Some(r) ==> r@.len() == n && forall|i: int|
                0 <= i < n ==> (#[trigger] r@[i]).view() == spec_article_cell(kinds@[i], columns@[i]@, *f, *cfg)
        }),
{
    let n = if columns.len() < kinds.len() { columns.len() } else { kinds.len() };
    let mut cells: Vec<CellText> = Vec::new();
    let mut i: usize = 0;
    while i < n
        invariant
            n == (if columns@.len() < kinds@.len() { columns@.len() } else { kinds@.len() }),
            i <= n,
            cells@.len() == i,
            forall|k: int| 0 <= k < i ==> !cell_overflows(#[trigger] kinds@[k], *f, *cfg),
            forall|k: int|
                0 <= k < i ==> (#[trigger] cells@[k]).view() == spec_article_cell(kinds@[k], columns@[k]@, *f, *cfg),
        decreases n - i,
    {
        match article_cell(kinds[i], columns[i].as_slice(), f, cfg) {
            Some(c) => {
                cells.push(c);
            },
            None => {
                assert(cell_overflows(kinds@[i as int], *f, *cfg));
                return None;
            },
        }
        i = i + 1;
    }
    Some(cells)
}

/// Whether `row` is the row `article_row` builds for `f`: one cell per column, each the cell
/// of its column.
pub open spec fn row_matches(row: Seq<CellText>, columns: Seq<Vec<char>>, kinds: Seq<ColumnKind>, f: ArticleFields, cfg: CellConfig) -> bool {
    let n = if columns.len() < kinds.len() { columns.len() } else { kinds.len() };
    &&& row.len() == n
    &&& forall|j: int| 0 <= j < n ==> (#[trigger] row[j]).view() == spec_article_cell(kinds[j], columns[j]@, f, cfg)
}

/// The number of tags of each article (0 for one without a tag list).
pub open spec fn tag_counts(articles: Seq<ArticleFields>) -> Seq<usize> {
    Seq::new(articles.len(), |i: int| match articles[i].tags {
        Some(v) => v.len(),
        None => 0usize,
    })
}

/// What the column widths of the table depend on.
pub open spec fn table_context(layout: TableLayout, date_format_len: usize, articles: Seq<ArticleFields>, cfg: CellConfig) -> ColumnContext {
    ColumnContext {
        any_flagged: cfg.any_flagged,
        date_format_len,
        max_tags: seq_max(tag_counts(articles)) as u16,
        summary_in_title: layout.summary_in_title,
    }
}

/// The width summaries are wrapped to: that of the title column when the summary sits under
/// the title, that of the summary column when it has one, and 0 when no summary is shown.
pub open spec fn table_summary_width(layout: TableLayout, ctx: ColumnContext, table_width: Option<u16>) -> u16 {
    if layout.show_summary {
        spec_summary_width(
            layout.kinds@,
            ctx,
            table_width,
            if layout.summary_in_title { ColumnKind::Title } else { ColumnKind::Summary },
        )
    } else {
        0
    }
}

/// The settings of the cells once the summary's place and width are known.
pub open spec fn table_cell_config(layout: TableLayout, cfg: CellConfig, width: u16) -> CellConfig {
    CellConfig {
        show_summary: layout.show_summary,
        summary_is_column: layout.show_summary && !layout.summary_in_title,
        summary_width: width,
        ..cfg
    }
}

/// The article table, ready to be drawn.
pub struct TablePlan {
    /// The width summaries are wrapped to.
    pub summary_width: u16,
    /// The height of every row.
    pub row_height: u16,
    /// The width constraint of each column.
    pub constraints: Vec<LayoutConstraint>,
    /// The cells of each article's row, in the order of the articles; `None` when a summary is
    /// too long to lay out.
    pub rows: Option<Vec<Vec<CellText>>>,
    /// The number of rows, which is also the length of the scrollbar's content.
    pub article_count: usize,
}

/// Builds the article table for `articles` under `layout`: the summary's width, the common row
/// height, the column constraints and a row of cells per article, with the icons and summary
/// style of `cfg`; `table_width` is the width of the table, when it is known.
#[verifier::loop_isolation(false)]
pub fn article_table_plan(
    layout: &TableLayout,
    date_format_len: usize,
    table_width: Option<u16>,
    articles: &[ArticleFields],
    cfg: &CellConfig,
) -> (plan: TablePlan)
    requires
        layout.show_summary ==> used_width(layout.kinds@, table_context(*layout, date_format_len, articles@, *cfg))
            <= u32::MAX,
        layout.show_summary ==> total_weight(layout.kinds@, table_context(*layout, date_format_len, articles@, *cfg))
            <= u32::MAX,
    ensures
        ({
            let ctx = table_context(*layout, date_format_len, articles@, *cfg);
            let sw = table_summary_width(*layout, ctx, table_width);
            let c2 = table_cell_config(*layout, *cfg, sw);
            let n = if layout.columns@.len() < layout.kinds@.len() { layout.columns@.len() } else { layout.kinds@.len() };
            &&& plan.summary_width == sw
            &&& plan.row_height == (if sw > 0 && exists|i: int| 0 <= i < articles@.len() && has_titled_summary(
                #[trigger] articles@[i],
            ) {
                SUMMARY_ROW_HEIGHT
            } else {
                1u16
            })
            &&& plan.constraints@.len() == layout.kinds@.len()
            &&& forall|i: int| 0 <= i < layout.kinds@.len() ==> plan.constraints@[i] == spec_column_constraint(
                #[trigger] layout.kinds@[i],
                ctx,
            )
            &&& plan.article_count == articles@.len()
            &&& plan.rows is None <==> exists|i: int, j: int|
                0 <= i < articles@.len() && 0 <= j < n && cell_overflows(#[trigger] layout.kinds@[j], #[trigger] articles@[i], c2)
            &&& plan.rows matches Some(rows) ==> rows@.len() == articles@.len() && forall|i: int|
                0 <= i < articles@.len() ==> row_matches(
                    (#[trigger] rows@[i])@,
                    layout.columns@,
                    layout.kinds@,
                    articles@[i],
                    c2,
                )
        }),
{
    let mut counts: Vec<usize> = Vec::new();
    let mut i: usize = 0;
    while i < articles.len()
        invariant
            i <= articles@.len(),
            counts@.len() == i,
            forall|k: int| 0 <= k < i ==> counts@[k] == tag_counts(articles@)[k],
        decreases articles.len() - i,
    {
        let c = match &articles[i].tags {
            Some(v) => v.len(),
            None => 0,
        };
        counts.push(c);
        i = i + 1;
    }
    assert(counts@ =~= tag_counts(articles@));
    let ctx = ColumnContext {
        any_flagged: cfg.any_flagged,
        date_format_len,
        max_tags: max_tag_count(counts.as_slice()),
        summary_in_title: layout.summary_in_title,
    };
    let sw = if layout.show_summary {
        let target = if layout.summary_in_title { ColumnKind::Title } else { ColumnKind::Summary };
        summary_width(layout.kinds.as_slice(), ctx, table_width, target)
    } else {
        0
    };
    let rh = row_height(sw, some_titled_summary(articles));
    let constraints = column_constraints(layout.kinds.as_slice(), ctx);
    let c2 = CellConfig {
        show_summary: layout.show_summary,
        summary_is_column: layout.show_summary && !layout.summary_in_title,
        summary_width: sw,
        ..*cfg
    };
    let ghost n = if layout.columns@.len() < layout.kinds@.len() { layout.columns@.len() } else { layout.kinds@.len() };
    let mut rows: Vec<Vec<CellText>> = Vec::new();
    let mut k: usize = 0;
    while k < articles.len()
        invariant
            k <= articles@.len(),
            rows@.len() == k,
            c2 == table_cell_config(*layout, *cfg, sw),
            n == (if layout.columns@.len() < layout.kinds@.len() { layout.columns@.len() } else { layout.kinds@.len() }),
            forall|a: int, j: int| 0 <= a < k && 0 <= j < n ==> !cell_overflows(#[trigger] layout.kinds@[j], #[trigger] articles@[a], c2),
            forall|a: int| 0 <= a < k ==> row_matches((#[trigger] rows@[a])@, layout.columns@, layout.kinds@, articles@[a], c2),
        decreases articles.len() - k,
    {
        match article_row(&layout.columns, &layout.kinds, &articles[k], &c2) {
            Some(r) => {
                rows.push(r);
            },
            None => {
                let ghost j = choose|j: int| 0 <= j < n && cell_overflows(#[trigger] layout.kinds@[j], articles@[k as int], c2);
                assert(cell_overflows(layout.kinds@[j], articles@[k as int], c2));
                return TablePlan { summary_width: sw, row_height: rh, constraints, rows: None, article_count: articles.len() };
            },
        }
        k = k + 1;
    }
    TablePlan { summary_width: sw, row_height: rh, constraints, rows: Some(rows), article_count: articles.len() }
}

/// A step in styling an article's row, applied in order to the theme's article style.
#[derive(Debug, Clone, Copy, PartialEq, Eq, Structural)]
pub enum RowStyleStep {
    /// The theme's highlight, for an article the search matches.
    Highlighted,
    /// The theme's look of a read article.
    Read,
    /// The theme's look of an unread article.
    Unread,
    /// The theme's look of a flagged article.
    Flagged,
}

/// The steps that style an article's row: highlighted when the search matches it, then read or
/// unread, then flagged when it is flagged.
pub open spec fn spec_row_style_steps(search_matches: bool, read: bool, flagged: bool) -> Seq<RowStyleStep> {
    (if search_matches { seq![RowStyleStep::Highlighted] } else { Seq::empty() })
        + seq![if read { RowStyleStep::Read } else { RowStyleStep::Unread }]
        + (if flagged { seq![RowStyleStep::Flagged] } else { Seq::empty() })
}

/// The steps that style an article's row, in order.
pub fn row_style_steps(search_matches: bool, read: bool, flagged: bool) -> (steps: Vec<RowStyleStep>)
    ensures
        steps@ == spec_row_style_steps(search_matches, read, flagged),
{
    let mut steps: Vec<RowStyleStep> = Vec::new();
    if search_matches {
        steps.push(RowStyleStep::Highlighted);
    }
    steps.push(if read { RowStyleStep::Read } else { RowStyleStep::Unread });
    if flagged {
        steps.push(RowStyleStep::Flagged);
    }
    assert(steps@ =~= spec_row_style_steps(search_matches, read, flagged));
    steps
}

} // verus!
