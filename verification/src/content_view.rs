//! The article pane: its header, which content it shows, and which rows of the laid-out
//! content are painted where.

use vstd::prelude::*;

use crate::base16_theme::Base16ThemeEntry;
use crate::content_layout::{row_height, rows_height, ContentRow, RowView};
use crate::style::{spec_add_modifier, SpanView, StyledSpan, TextStyle, MODIFIER_REVERSED};
use crate::unicode::{push_char, push_str};
use crate::utils::{bubble_edge_style, html_sanitize, option_chars, spec_html_sanitize, to_bubble};

verus! {

/// A line of the header: spans, or a text drawn in a style (split at its line breaks when it is
/// drawn).
pub enum HeaderLine {
    Spans(Vec<StyledSpan>),
    Text(String, TextStyle),
}

/// The abstract value of a header line.
pub enum HeaderLineView {
    Spans(Seq<SpanView>),
    Text(Seq<char>, TextStyle),
}

impl HeaderLine {
    /// The abstract value of this line.
    pub open spec fn view(&self) -> HeaderLineView {
        match self {
            HeaderLine::Spans(s) => HeaderLineView::Spans(s.deep_view()),
            HeaderLine::Text(t, st) => HeaderLineView::Text(t@, *st),
        }
    }
}

/// What the header of an article is made of.
pub struct HeaderFields {
    pub title: Option<String>,
    /// The label of the article's feed, when the feed is known.
    pub feed_label: Option<String>,
    pub feed_id: String,
    /// The line of each of the article's tags.
    pub tag_lines: Vec<Vec<StyledSpan>>,
    pub has_video: bool,
    pub has_image: bool,
    pub has_audio: bool,
    pub author: Option<String>,
    /// The article's date, formatted as configured.
    pub date_text: String,
    /// Whether the content shown is the output of a pipe command.
    pub piped: bool,
}

/// The styles and icons the header is drawn with.
#[derive(Clone, Copy, Debug)]
pub struct HeaderLook {
    pub header: TextStyle,
    pub paragraph: TextStyle,
    pub highlighted: TextStyle,
    pub video_icon: char,
    pub image_icon: char,
    pub audio_icon: char,
    pub piped_icon: char,
    pub bubble_left: char,
    pub bubble_right: char,
}

/// The style that sets nothing.
pub open spec fn no_style() -> TextStyle {
    TextStyle { fg: None, bg: None, underline_color: None, add_modifier: 0, sub_modifier: 0 }
}

/// The spans of a bubble around the single character `icon` in `style`.
pub open spec fn bubble_spans(icon: char, style: TextStyle, left: char, right: char) -> Seq<SpanView> {
    seq![
        SpanView { text: seq![left], style: bubble_edge_style(style, left) },
        SpanView { text: seq![icon], style: spec_add_modifier(style, MODIFIER_REVERSED) },
        SpanView { text: seq![right], style: bubble_edge_style(style, right) },
    ]
}

/// The spans of the tags, each followed by a space.
pub open spec fn tag_spans(tags: Seq<Seq<SpanView>>) -> Seq<SpanView>
    decreases tags.len(),
{
    if tags.len() == 0 {
        Seq::empty()
    } else {
        tag_spans(tags.drop_last()) + tags.last() + seq![SpanView { text: seq![' '], style: no_style() }]
    }
}

/// The bubble of an enclosure kind, when the article has one.
pub open spec fn enclosure_spans(present: bool, icon: char, look: HeaderLook) -> Seq<SpanView> {
    if present { bubble_spans(icon, look.paragraph, look.bubble_left, look.bubble_right) } else { Seq::empty() }
}

/// The header of an article: its date and feed (with the pipe bubble when the content is a
/// pipe's output), its title, its author, and its tags and enclosure bubbles.
pub open spec fn spec_header(f: HeaderFields, look: HeaderLook) -> Seq<HeaderLineView> {
    let feed = match option_chars(f.feed_label) {
        Some(l) => spec_html_sanitize(l),
        None => f.feed_id@,
    };
    let first = seq![
        SpanView { text: f.date_text@, style: look.header },
        SpanView { text: seq![' ', ' '], style: look.header },
        SpanView { text: feed, style: look.header },
    ] + if f.piped {
        seq![SpanView { text: seq![' '], style: no_style() }] + bubble_spans(look.piped_icon, look.highlighted, look.bubble_left, look.bubble_right)
    } else {
        Seq::empty()
    };
    let title = spec_html_sanitize(match option_chars(f.title) { Some(t) => t, None => "unknown title"@ });
    let author = spec_html_sanitize(match option_chars(f.author) { Some(a) => " by "@ + a, None => Seq::empty() });
    let tags = tag_spans(f.tag_lines@.map_values(|l: Vec<StyledSpan>| l.deep_view()))
        + enclosure_spans(f.has_video, look.video_icon, look)
        + enclosure_spans(f.has_image, look.image_icon, look)
        + enclosure_spans(f.has_audio, look.audio_icon, look);
    seq![
        HeaderLineView::Spans(first),
        HeaderLineView::Text(title, look.paragraph),
        HeaderLineView::Text(author, look.paragraph),
        HeaderLineView::Spans(tags),
    ]
}

/// A span of the single character `c`.
fn char_span(c: char, style: TextStyle) -> (s: StyledSpan)
    ensures
        s@ == (SpanView { text: seq![c], style }),
{
    let mut t = String::new();
    push_char(&mut t, c);
    StyledSpan::styled(t, style)
}

/// Appends the bubble around `icon` to `spans`.
fn push_bubble(spans: &mut Vec<StyledSpan>, icon: char, style: TextStyle, left: char, right: char)
    ensures
        final(spans).deep_view() == old(spans).deep_view() + bubble_spans(icon, style, left, right),
{
    let ghost before = spans.deep_view();
    let mut bubble = to_bubble(char_span(icon, style), left, right);
    let ghost b = bubble.deep_view();
    assert(b =~= bubble_spans(icon, style, left, right));
    spans.append(&mut bubble);
    assert(spans.deep_view() =~= before + b);
}

/// The header of the article shown, or no lines when no article is selected.
pub fn generate_header(fields: Option<&HeaderFields>, look: &HeaderLook) -> (lines: Vec<HeaderLine>)
    ensures
        match fields {
            None => lines@.len() == 0,
            Some(f) => lines@.map_values(|l: HeaderLine| l.view()) == spec_header(*f, *look),
        },
{
    let f = match fields {
        Some(f) => f,
        None => {
            return Vec::new();
        },
    };
    proof {
        reveal_strlit("unknown title");
        reveal_strlit(" by ");
    }
    let feed = match &f.feed_label {
        Some(l) => html_sanitize(l.as_str()),
        None => f.feed_id.clone(),
    };
    let mut first: Vec<StyledSpan> = Vec::new();
    first.push(StyledSpan::styled(f.date_text.clone(), look.header));
    let mut gap = String::new();
    push_char(&mut gap, ' ');
    push_char(&mut gap, ' ');
    assert(gap@ =~= seq![' ', ' ']);
    first.push(StyledSpan::styled(gap, look.header));
    first.push(StyledSpan::styled(feed, look.header));
    let ghost head = first.deep_view();
    let ghost feed_text = match option_chars(f.feed_label) {
        Some(l) => spec_html_sanitize(l),
        None => f.feed_id@,
    };
    assert(head =~= seq![
        SpanView { text: f.date_text@, style: look.header },
        SpanView { text: seq![' ', ' '], style: look.header },
        SpanView { text: feed_text, style: look.header },
    ]);
    if f.piped {
        first.push(char_span(' ', TextStyle::new()));
        let ghost with_space = first.deep_view();
        push_bubble(&mut first, look.piped_icon, look.highlighted, look.bubble_left, look.bubble_right);
        assert(first.deep_view() =~= head + (seq![SpanView { text: seq![' '], style: no_style() }]
            + bubble_spans(look.piped_icon, look.highlighted, look.bubble_left, look.bubble_right)));
    } else {
        assert(first.deep_view() =~= head + Seq::<SpanView>::empty());
    }
    let title = match &f.title {
        Some(t) => html_sanitize(t.as_str()),
        None => html_sanitize("unknown title"),
    };
    let mut by = String::new();
    match &f.author {
        Some(a) => {
            push_str(&mut by, " by ");
            push_str(&mut by, a.as_str());
        },
        None => {},
    }
    assert(by@ =~= match option_chars(f.author) { Some(a) => " by "@ + a, None => Seq::<char>::empty() });
    let author = html_sanitize(by.as_str());
    let mut tags: Vec<StyledSpan> = Vec::new();
    let ghost tag_views = f.tag_lines@.map_values(|l: Vec<StyledSpan>| l.deep_view());
    let mut i: usize = 0;
    while i < f.tag_lines.len()
        invariant
            i <= f.tag_lines@.len(),
            tag_views == f.tag_lines@.map_values(|l: Vec<StyledSpan>| l.deep_view()),
            tags.deep_view() == tag_spans(tag_views.take(i as int)),
        decreases f.tag_lines.len() - i,
    {
        let ghost before = tags.deep_view();
        let line = &f.tag_lines[i];
        let mut j: usize = 0;
        while j < line.len()
            invariant
                j <= line@.len(),
                tags.deep_view() == before + line.deep_view().take(j as int),
            decreases line.len() - j,
        {
            let s = StyledSpan::styled(line[j].content.clone(), line[j].style);
            assert(line.deep_view()[j as int] == line@[j as int]@);
            let ghost old_tags = tags.deep_view();
            tags.push(s);
            assert(tags.deep_view() =~= old_tags.push(s@));
            assert(tags.deep_view() =~= before + line.deep_view().take(j + 1));
            j = j + 1;
        }
        tags.push(char_span(' ', TextStyle::new()));
        assert(tag_views.take(i + 1).drop_last() =~= tag_views.take(i as int));
        assert(line.deep_view().take(line@.len() as int) =~= line.deep_view());
        assert(tags.deep_view() =~= tag_spans(tag_views.take(i + 1)));
        i = i + 1;
    }
    assert(tag_views.take(f.tag_lines@.len() as int) =~= tag_views);
    let ghost t0 = tags.deep_view();
    if f.has_video {
        push_bubble(&mut tags, look.video_icon, look.paragraph, look.bubble_left, look.bubble_right);
    }
    assert(tags.deep_view() =~= t0 + enclosure_spans(f.has_video, look.video_icon, *look));
    let ghost t1 = tags.deep_view();
    if f.has_image {
        push_bubble(&mut tags, look.image_icon, look.paragraph, look.bubble_left, look.bubble_right);
    }
    assert(tags.deep_view() =~= t1 + enclosure_spans(f.has_image, look.image_icon, *look));
    let ghost t2 = tags.deep_view();
    if f.has_audio {
        push_bubble(&mut tags, look.audio_icon, look.paragraph, look.bubble_left, look.bubble_right);
    }
    assert(tags.deep_view() =~= t2 + enclosure_spans(f.has_audio, look.audio_icon, *look));
    let ghost fv = first.deep_view();
    let ghost tv = tags.deep_view();
    let ghost expected = spec_header(*f, *look);
    assert(HeaderLineView::Spans(fv) == expected[0]);
    assert(HeaderLineView::Text(title@, look.paragraph) == expected[1]);
    assert(HeaderLineView::Text(author@, look.paragraph) == expected[2]);
    assert(HeaderLineView::Spans(tv) == expected[3]);
    let mut lines: Vec<HeaderLine> = Vec::new();
    lines.push(HeaderLine::Spans(first));
    lines.push(HeaderLine::Text(title, look.paragraph));
    lines.push(HeaderLine::Text(author, look.paragraph));
    lines.push(HeaderLine::Spans(tags));
    assert(lines@.map_values(|l: HeaderLine| l.view()) =~= spec_header(*f, *look));
    lines
}

/// Which content the article pane shows.
#[derive(Debug, Clone, Copy, PartialEq, Eq, Structural)]
pub enum ContentChoice {
    /// The output of a pipe command, as markdown.
    Filtered,
    /// The markdown made from the scraped content.
    Markdown,
    /// The scraped content turned into plain text, while no markdown has been made.
    HtmlAsText,
    /// The article's plain text.
    PlainText,
    /// Nothing: the pane says that no content is available.
    NoContent,
}

/// Chooses the content of the article pane: a pipe's output first; then, when markdown is
/// preferred and there is scraped content, its markdown (or the content as plain text while
/// there is none yet); then the plain text; else nothing.
pub fn choose_content(has_filtered: bool, prefers_markdown: bool, has_scraped: bool, has_markdown: bool, has_plain_text: bool) -> (c: ContentChoice)
    ensures
        c == if has_filtered {
            ContentChoice::Filtered
        } else if prefers_markdown && has_scraped {
            if has_markdown { ContentChoice::Markdown } else { ContentChoice::HtmlAsText }
        } else if has_plain_text {
            ContentChoice::PlainText
        } else {
            ContentChoice::NoContent
        },
{
    if has_filtered {
        ContentChoice::Filtered
    } else if prefers_markdown && has_scraped {
        if has_markdown { ContentChoice::Markdown } else { ContentChoice::HtmlAsText }
    } else if has_plain_text {
        ContentChoice::PlainText
    } else {
        ContentChoice::NoContent
    }
}

/// What is painted for one row of the content.
#[derive(Debug, Clone, Copy, PartialEq, Eq, Structural)]
pub enum PaintStep {
    /// Text row `row`, at `offset` rows below the top of the pane.
    Text { row: usize, offset: u16 },
    /// Image row `row` showing image `image`, `columns` wide and `rows` high, at column `x` of
    /// the pane and `y` rows below its top (negative when it is partly scrolled off).
    Image { row: usize, image: usize, columns: u16, rows: u16, x: u16, y: i32 },
}

/// The painting of rows `first..` of `rows` whose first starts `top` rows into the content,
/// for a pane scrolled by `scroll` whose bottom is at `bottom`; `columns[i]` is the width image
/// `i` is drawn at, 0 for one that cannot be drawn.
pub open spec fn paint_from(
    rows: Seq<RowView>,
    first: int,
    top: int,
    scroll: int,
    bottom: int,
    columns: Seq<u16>,
    width: u16,
) -> Seq<PaintStep>
    decreases rows.len() - first,
{
    if first < 0 || first >= rows.len() {
        Seq::empty()
    } else {
        let h = row_height(rows[first]);
        if top + h <= scroll {
            paint_from(rows, first + 1, top + h, scroll, bottom, columns, width)
        } else if top >= bottom {
            Seq::empty()
        } else {
            let step = match rows[first] {
                RowView::Text(_) => seq![PaintStep::Text { row: first as usize, offset: (top - scroll) as u16 }],
                RowView::Image { index, height } => if index < columns.len() && columns[index as int] > 0 {
                    let c = columns[index as int];
                    seq![PaintStep::Image {
                        row: first as usize,
                        image: index as usize,
                        columns: c,
                        rows: height as u16,
                        x: ((if width >= c { width - c } else { 0 }) / 2) as u16,
                        y: (top - scroll) as i32,
                    }]
                } else {
                    Seq::empty()
                },
            };
            step + paint_from(rows, first + 1, top + h, scroll, bottom, columns, width)
        }
    }
}

/// The height of the first `n` rows.
proof fn lemma_rows_height_prefix(rows: Seq<RowView>, n: int)
    requires
        0 <= n <= rows.len(),
    ensures
        rows_height(rows.take(n)) <= rows_height(rows),
        n < rows.len() ==> rows_height(rows.take(n + 1)) == rows_height(rows.take(n)) + row_height(rows[n]),
    decreases rows.len() - n,
{
    if n < rows.len() {
        assert(rows.take(n + 1).drop_last() == rows.take(n));
        lemma_rows_height_prefix(rows, n + 1);
    } else {
        assert(rows.take(n) == rows);
    }
}

/// The rows to paint in a pane `width` columns wide and `height` rows high, scrolled down by
/// `scroll` rows: the rows above the pane are skipped, painting stops at its bottom, and an image
/// that has no width to be drawn at is left out.
pub fn paint_plan(rows: &[ContentRow], columns: &[u16], scroll: u16, width: u16, height: u16) -> (steps: Vec<PaintStep>)
    ensures
        steps@ == paint_from(rows@.map_values(|r: ContentRow| r@), 0, 0, scroll as int, scroll + height, columns@, width),
{
    let ghost all = rows@.map_values(|r: ContentRow| r@);
    let scroll_i: i32 = scroll as i32;
    let bottom: i32 = scroll_i + height as i32;
    let mut top: i32 = 0;
    let mut steps: Vec<PaintStep> = Vec::new();
    let mut i: usize = 0;
    proof {
        assert(all.take(0) =~= Seq::<RowView>::empty());
        assert(steps@ + paint_from(all, 0, 0, scroll as int, bottom as int, columns@, width)
            =~= paint_from(all, 0, 0, scroll as int, bottom as int, columns@, width));
    }
    while i < rows.len()
        invariant_except_break
            all == rows@.map_values(|r: ContentRow| r@),
            i <= rows@.len(),
            top as int == rows_height(all.take(i as int)),
            0 <= top <= bottom + 65535,
            scroll_i == scroll as i32,
            bottom as int == scroll + height,
            steps@ + paint_from(all, i as int, top as int, scroll as int, bottom as int, columns@, width)
                == paint_from(all, 0, 0, scroll as int, bottom as int, columns@, width),
        ensures
            steps@ == paint_from(all, 0, 0, scroll as int, bottom as int, columns@, width),
        decreases rows.len() - i,
    {
        proof {
            lemma_rows_height_prefix(all, i as int);
            lemma_rows_height_prefix(all, i as int + 1);
        }
        assert(rows@[i as int]@ == all[i as int]);
        let h: i32 = rows[i].height() as i32;
        let ghost rest = paint_from(all, i as int + 1, top + h, scroll as int, bottom as int, columns@, width);
        if top + h <= scroll_i {
            top = top + h;
            i = i + 1;
            continue;
        }
        if top >= bottom {
            assert(steps@ + Seq::<PaintStep>::empty() =~= steps@);
            break;
        }
        let ghost before = steps@;
        match &rows[i] {
            ContentRow::Text(_) => {
                steps.push(PaintStep::Text { row: i, offset: (top - scroll_i) as u16 });
            },
            ContentRow::Image { index, height: image_rows } => {
                if *index < columns.len() && columns[*index] > 0 {
                    let c = columns[*index];
                    let x = width.saturating_sub(c) / 2;
                    steps.push(PaintStep::Image { row: i, image: *index, columns: c, rows: *image_rows, x, y: top - scroll_i });
                }
            },
        }
        proof {
            let step = steps@.skip(before.len() as int);
            assert(steps@ =~= before + step);
            assert(before + (step + rest) =~= steps@ + rest);
        }
        top = top + h;
        i = i + 1;
    }
    proof {
        if i == rows@.len() {
            assert(steps@ + Seq::<PaintStep>::empty() =~= steps@);
        }
    }
    steps
}

/// Whether an encoded image is the one to draw: encoded at this size for the current cell size.
pub fn protocol_ready(built: Option<(u16, u16, u64)>, columns: u16, rows: u16, generation: u64) -> (b: bool)
    ensures
        b == (built matches Some((c, r, g)) && c == columns && r == rows && g == generation),
{
    match built {
        Some((c, r, g)) => c == columns && r == rows && g == generation,
        None => false,
    }
}

/// What to do for an image row in the pane: draw it from its encoded image, or ask for the
/// image to be encoded at this size first.
#[derive(Debug, Clone, Copy, PartialEq, Eq, Structural)]
pub enum ImageAction {
    /// Draw the image step with the encoded image at hand.
    Draw(PaintStep),
    /// Encode image `image` at `columns` by `rows` cells; it is drawn on a later paint.
    Request { image: usize, columns: u16, rows: u16 },
}

/// Whether image `image` is encoded at `columns` by `rows` cells for the cell size of
/// `generation`; `built[i]` is the size and generation image `i` was last encoded at, if any.
pub open spec fn built_ready(built: Seq<Option<(u16, u16, u64)>>, image: usize, columns: u16, rows: u16, generation: u64) -> bool {
    image < built.len() && (built[image as int] matches Some((c, r, g)) && c == columns && r == rows && g == generation)
}

/// The actions for the image steps among `steps`, in order: a text step needs none, an image
/// step is drawn when its encoding is ready and requested otherwise.
pub open spec fn spec_image_actions(steps: Seq<PaintStep>, built: Seq<Option<(u16, u16, u64)>>, generation: u64) -> Seq<ImageAction>
    decreases steps.len(),
{
    if steps.len() == 0 {
        Seq::empty()
    } else {
        let before = spec_image_actions(steps.drop_last(), built, generation);
        match steps.last() {
            PaintStep::Text { .. } => before,
            PaintStep::Image { image, columns, rows, .. } => if built_ready(built, image, columns, rows, generation) {
                before.push(ImageAction::Draw(steps.last()))
            } else {
                before.push(ImageAction::Request { image, columns, rows })
            },
        }
    }
}

/// Decides, for the image rows of a painting, which are drawn now and which are first encoded at
/// the size they are shown at, for the cell size of `generation`.
pub fn image_actions(steps: &Vec<PaintStep>, built: &Vec<Option<(u16, u16, u64)>>, generation: u64) -> (actions: Vec<ImageAction>)
    ensures
        actions@ == spec_image_actions(steps@, built@, generation),
{
    let mut actions: Vec<ImageAction> = Vec::new();
    let mut i: usize = 0;
    while i < steps.len()
        invariant
            i <= steps@.len(),
            actions@ == spec_image_actions(steps@.take(i as int), built@, generation),
        decreases steps.len() - i,
    {
        proof {
            assert(steps@.take(i + 1).drop_last() =~= steps@.take(i as int));
            assert(steps@.take(i + 1).last() == steps@[i as int]);
        }
        match steps[i] {
            PaintStep::Text { .. } => {},
            PaintStep::Image { image, columns, rows, .. } => {
                let state = if image < built.len() {
                    built[image]
                } else {
                    None
                };
                if protocol_ready(state, columns, rows, generation) {
                    actions.push(ImageAction::Draw(steps[i]));
                } else {
                    actions.push(ImageAction::Request { image, columns, rows });
                }
            },
        }
        i = i + 1;
    }
    proof {
        assert(steps@.take(steps@.len() as int) =~= steps@);
    }
    actions
}

/// The message when no theme has the name `name`.
pub open spec fn unknown_theme_message(name: Seq<char>) -> Seq<char> {
    "theme with name "@ + name + " does not exist"@
}

/// The theme named `name` among `entries`: the index of the first with that name, or the message
/// that there is none.
pub fn find_theme(entries: &[Base16ThemeEntry], name: &str) -> (r: Result<usize, String>)
    ensures
        match r {
            Ok(i) => i < entries@.len() && entries@[i as int].name@ == name@
                && forall|j: int| 0 <= j < i ==> entries@[j].name@ != name@,
            Err(m) => m@ == unknown_theme_message(name@) && forall|j: int| 0 <= j < entries@.len() ==> entries@[j].name@ != name@,
        },
{
    proof {
        reveal_strlit("theme with name ");
        reveal_strlit(" does not exist");
    }
    let mut i: usize = 0;
    while i < entries.len()
        invariant
            i <= entries@.len(),
            forall|j: int| 0 <= j < i ==> entries@[j].name@ != name@,
        decreases entries.len() - i,
    {
        let chars = crate::unicode::chars_of(entries[i].name.as_str());
        if crate::article_table::same_chars(chars.as_slice(), name) {
            return Ok(i);
        }
        i = i + 1;
    }
    let mut m = String::new();
    push_str(&mut m, "theme with name ");
    push_str(&mut m, name);
    push_str(&mut m, " does not exist");
    Err(m)
}

/// Whether every image row of `rows` is at most `u16::MAX` high.
pub open spec fn heights_fit(rows: Seq<RowView>) -> bool {
    forall|i: int| 0 <= i < rows.len() ==> row_height(#[trigger] rows[i]) <= u16::MAX
}

/// What `paint_from` paints from row `first` on lies in the pane.
proof fn lemma_painted_from_visible(
    rows: Seq<RowView>,
    first: int,
    scroll: u16,
    height: u16,
    columns: Seq<u16>,
    width: u16,
)
    requires
        0 <= first <= rows.len(),
        heights_fit(rows),
    ensures
        forall|k: int| 0 <= k < paint_from(rows, first, rows_height(rows.take(first)) as int, scroll as int, scroll + height, columns, width).len() ==>
            match #[trigger] paint_from(rows, first, rows_height(rows.take(first)) as int, scroll as int, scroll + height, columns, width)[k] {
                PaintStep::Text { offset, .. } => offset < height,
                PaintStep::Image { y, rows: h, .. } => y < height && y + h > 0,
            },
    decreases rows.len() - first,
{
    if first < rows.len() {
        let top = rows_height(rows.take(first)) as int;
        let h = row_height(rows[first]);
        assert(row_height(rows[first]) <= u16::MAX);
        lemma_rows_height_prefix(rows, first);
        lemma_rows_height_prefix(rows, first + 1);
        lemma_painted_from_visible(rows, first + 1, scroll, height, columns, width);
    }
}

/// Only rows that are at least partly inside the pane are painted: a text row lies within the
/// pane's height, and an image row starts above the pane's bottom and ends below its top.
pub proof fn law_painted_rows_are_visible(rows: Seq<RowView>, scroll: u16, height: u16, columns: Seq<u16>, width: u16)
    requires
        heights_fit(rows),
    ensures
        forall|k: int| 0 <= k < paint_from(rows, 0, 0, scroll as int, scroll + height, columns, width).len() ==>
            match #[trigger] paint_from(rows, 0, 0, scroll as int, scroll + height, columns, width)[k] {
                PaintStep::Text { offset, .. } => offset < height,
                PaintStep::Image { y, rows: h, .. } => y < height && y + h > 0,
            },
{
    assert(rows.take(0) =~= Seq::<RowView>::empty());
    lemma_painted_from_visible(rows, 0, scroll, height, columns, width);
}

} // verus!
