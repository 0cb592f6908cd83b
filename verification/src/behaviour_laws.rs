//! Laws of the article list, the colour scheme, the mouse and piped commands: what each of these
//! operations is for, over all inputs.

use vstd::prelude::*;

use crate::article_cells::decimal;
use crate::article_content_logic::{or_empty, spec_pipe_command};
use crate::article_table::{spec_fixed_width, spec_position_label, ColumnContext, ColumnKind};
use crate::base16_theme::{palette_at, Base16Index, Base16Palette};
use crate::mouse::{
    spec_mouse_outcome, spec_on_vertical_border, spec_panel_at, spec_state_for_panel, AppState, MouseAction, MouseContext,
    MouseKind, Panel,
};
use crate::notify::replace_all;
use crate::style::TermColor;

verus! {

/// The flag column is as wide as the read and marked columns, two columns, whenever some article
/// is flagged, so that flag icons show; it takes no room only when no article is flagged.
pub proof fn law_flag_column_shows_when_something_is_flagged(ctx: ColumnContext)
    ensures
        spec_fixed_width(ColumnKind::Read, ctx) == Some(2u16),
        spec_fixed_width(ColumnKind::Marked, ctx) == Some(2u16),
        ctx.any_flagged ==> spec_fixed_width(ColumnKind::Flagged, ctx) == spec_fixed_width(ColumnKind::Read, ctx),
        !ctx.any_flagged ==> spec_fixed_width(ColumnKind::Flagged, ctx) == Some(0u16),
{
}

/// The other fixed widths: the age takes four columns, the date as many as its format has
/// bytes, the tag icons as many as the most tags of any article; the title, summary, author,
/// feed, URL and unknown columns have no fixed width and share what is left.
pub proof fn law_fixed_widths(ctx: ColumnContext)
    ensures
        spec_fixed_width(ColumnKind::Age, ctx) == Some(4u16),
        spec_fixed_width(ColumnKind::Date, ctx) == Some(ctx.date_format_len as u16),
        spec_fixed_width(ColumnKind::TagIcons, ctx) == Some(ctx.max_tags),
        spec_fixed_width(ColumnKind::Title, ctx) is None,
        spec_fixed_width(ColumnKind::Summary, ctx) is None,
        spec_fixed_width(ColumnKind::Author, ctx) is None,
        spec_fixed_width(ColumnKind::Feed, ctx) is None,
        spec_fixed_width(ColumnKind::Url, ctx) is None,
        spec_fixed_width(ColumnKind::Unknown, ctx) is None,
{
}

/// The position of the selection is shown only when the configuration asks for it and the list
/// is not empty: with the flag off there is no label, whatever the count and the selection.
pub proof fn law_position_hidden_unless_asked(count: usize, show: bool, selected: Option<usize>)
    ensures
        !show ==> spec_position_label(count, show, selected) is None,
        count == 0 ==> spec_position_label(count, show, selected) is None,
        show && count > 0 ==> spec_position_label(count, show, selected) is Some,
{
}

/// A shown position ends with the number of articles: ` k/count `, and without a selection it
/// counts from the first article, as a selection of the first does.
pub proof fn law_position_counts_the_articles(count: usize, selected: Option<usize>)
    requires
        count > 0,
    ensures
        spec_position_label(count, true, selected) matches Some(l) && l.len() >= decimal(count as nat).len() + 3
            && l[0] == ' ' && l.last() == ' ' && l.subrange(l.len() - 1 - decimal(count as nat).len(), l.len() - 1)
            == decimal(count as nat) && l[l.len() - 2 - decimal(count as nat).len()] == '/',
        spec_position_label(count, true, None) == spec_position_label(count, true, Some(0usize)),
{
    let l = spec_position_label(count, true, selected)->0;
    let sel: nat = match selected {
        Some(s) => if s < usize::MAX { (s + 1) as nat } else { s as nat },
        None => 1,
    };
    let dc = decimal(count as nat);
    let ds = decimal(sel);
    assert(l == seq![' '] + ds + seq!['/'] + dc + seq![' ']);
    assert(l.subrange(l.len() - 1 - dc.len(), l.len() - 1) =~= dc);
    assert(l[l.len() - 2 - dc.len()] == '/');
}

/// Each base colour of the scheme is read from its own field: setting field `base0x` of the
/// palette to `c` makes the colour at `Base0X` be `c` and leaves the colour at every other index
/// as it was.
pub proof fn law_each_index_reads_its_own_field(p: Base16Palette, c: TermColor)
    ensures
        palette_at(Base16Palette { base00: c, ..p }, Base16Index::Base00) == c,
        forall|j: Base16Index| j != Base16Index::Base00 ==> palette_at(Base16Palette { base00: c, ..p }, j) == palette_at(p, j),
        palette_at(Base16Palette { base01: c, ..p }, Base16Index::Base01) == c,
        forall|j: Base16Index| j != Base16Index::Base01 ==> palette_at(Base16Palette { base01: c, ..p }, j) == palette_at(p, j),
        palette_at(Base16Palette { base02: c, ..p }, Base16Index::Base02) == c,
        forall|j: Base16Index| j != Base16Index::Base02 ==> palette_at(Base16Palette { base02: c, ..p }, j) == palette_at(p, j),
        palette_at(Base16Palette { base03: c, ..p }, Base16Index::Base03) == c,
        forall|j: Base16Index| j != Base16Index::Base03 ==> palette_at(Base16Palette { base03: c, ..p }, j) == palette_at(p, j),
        palette_at(Base16Palette { base04: c, ..p }, Base16Index::Base04) == c,
        forall|j: Base16Index| j != Base16Index::Base04 ==> palette_at(Base16Palette { base04: c, ..p }, j) == palette_at(p, j),
        palette_at(Base16Palette { base05: c, ..p }, Base16Index::Base05) == c,
        forall|j: Base16Index| j != Base16Index::Base05 ==> palette_at(Base16Palette { base05: c, ..p }, j) == palette_at(p, j),
        palette_at(Base16Palette { base06: c, ..p }, Base16Index::Base06) == c,
        forall|j: Base16Index| j != Base16Index::Base06 ==> palette_at(Base16Palette { base06: c, ..p }, j) == palette_at(p, j),
        palette_at(Base16Palette { base07: c, ..p }, Base16Index::Base07) == c,
        forall|j: Base16Index| j != Base16Index::Base07 ==> palette_at(Base16Palette { base07: c, ..p }, j) == palette_at(p, j),
        palette_at(Base16Palette { base08: c, ..p }, Base16Index::Base08) == c,
        forall|j: Base16Index| j != Base16Index::Base08 ==> palette_at(Base16Palette { base08: c, ..p }, j) == palette_at(p, j),
        palette_at(Base16Palette { base09: c, ..p }, Base16Index::Base09) == c,
        forall|j: Base16Index| j != Base16Index::Base09 ==> palette_at(Base16Palette { base09: c, ..p }, j) == palette_at(p, j),
        palette_at(Base16Palette { base0a: c, ..p }, Base16Index::Base0A) == c,
        forall|j: Base16Index| j != Base16Index::Base0A ==> palette_at(Base16Palette { base0a: c, ..p }, j) == palette_at(p, j),
        palette_at(Base16Palette { base0b: c, ..p }, Base16Index::Base0B) == c,
        forall|j: Base16Index| j != Base16Index::Base0B ==> palette_at(Base16Palette { base0b: c, ..p }, j) == palette_at(p, j),
        palette_at(Base16Palette { base0c: c, ..p }, Base16Index::Base0C) == c,
        forall|j: Base16Index| j != Base16Index::Base0C ==> palette_at(Base16Palette { base0c: c, ..p }, j) == palette_at(p, j),
        palette_at(Base16Palette { base0d: c, ..p }, Base16Index::Base0D) == c,
        forall|j: Base16Index| j != Base16Index::Base0D ==> palette_at(Base16Palette { base0d: c, ..p }, j) == palette_at(p, j),
        palette_at(Base16Palette { base0e: c, ..p }, Base16Index::Base0E) == c,
        forall|j: Base16Index| j != Base16Index::Base0E ==> palette_at(Base16Palette { base0e: c, ..p }, j) == palette_at(p, j),
        palette_at(Base16Palette { base0f: c, ..p }, Base16Index::Base0F) == c,
        forall|j: Base16Index| j != Base16Index::Base0F ==> palette_at(Base16Palette { base0f: c, ..p }, j) == palette_at(p, j),
{
}

/// The wheel scrolls the panel under the pointer in the direction it turns: outside a modal, a
/// turn up over a panel asks exactly to scroll that panel up and redraw, a turn down to scroll
/// it down and redraw; nothing else changes, and over no panel nothing happens.
pub proof fn law_wheel_scrolls_in_its_direction(ctx: MouseContext, col: u16, row: u16)
    requires
        !ctx.modal_active,
    ensures
        ({
            let up = spec_mouse_outcome(ctx, MouseKind::ScrollUp, col, row);
            let down = spec_mouse_outcome(ctx, MouseKind::ScrollDown, col, row);
            &&& up.0 == ctx.state && up.1 == ctx.drag_resize_active && up.2 == ctx.articles_width_override
            &&& down.0 == ctx.state && down.1 == ctx.drag_resize_active && down.2 == ctx.articles_width_override
            &&& match spec_panel_at(ctx.areas, col, row) {
                Some(p) => up.3 == seq![MouseAction::ScrollUp(p), MouseAction::Redraw]
                    && down.3 == seq![MouseAction::ScrollDown(p), MouseAction::Redraw],
                None => up.3.len() == 0 && down.3.len() == 0,
            }
        }),
{
}

/// While a modal is open, no mouse event changes anything or asks for anything.
pub proof fn law_modal_swallows_the_mouse(ctx: MouseContext, kind: MouseKind, col: u16, row: u16)
    requires
        ctx.modal_active,
    ensures
        spec_mouse_outcome(ctx, kind, col, row) == (ctx.state, ctx.drag_resize_active, ctx.articles_width_override, Seq::<MouseAction>::empty()),
{
}

/// Releasing the button ends a drag of the border, and asks for nothing.
pub proof fn law_release_ends_the_drag(ctx: MouseContext, col: u16, row: u16)
    requires
        !ctx.modal_active,
    ensures
        spec_mouse_outcome(ctx, MouseKind::LeftUp, col, row).0 == ctx.state,
        !spec_mouse_outcome(ctx, MouseKind::LeftUp, col, row).1,
        spec_mouse_outcome(ctx, MouseKind::LeftUp, col, row).3.len() == 0,
{
}

/// Outside the distraction-free view, a click on a panel (away from the border) focuses that
/// panel, announcing the change exactly when the focus moves, and ends by asking for a redraw.
pub proof fn law_click_focuses_the_panel(ctx: MouseContext, col: u16, row: u16, p: Panel)
    requires
        !ctx.modal_active,
        ctx.state != AppState::ArticleContentDistractionFree,
        !spec_on_vertical_border(ctx.areas, col, row),
        spec_panel_at(ctx.areas, col, row) == Some(p),
    ensures
        ({
            let o = spec_mouse_outcome(ctx, MouseKind::LeftDown, col, row);
            &&& o.0 == spec_state_for_panel(p)
            &&& o.3.len() > 0 && o.3.last() == MouseAction::Redraw
            &&& (o.3[0] == MouseAction::SwitchState(spec_state_for_panel(p))) == (ctx.state != spec_state_for_panel(p))
        }),
{
    let o = spec_mouse_outcome(ctx, MouseKind::LeftDown, col, row);
    let target = spec_state_for_panel(p);
    if ctx.state == target {
        assert(o.3[0] != MouseAction::SwitchState(target));
    }
}

/// Whether `s` holds no opening brace.
pub open spec fn no_brace(s: Seq<char>) -> bool {
    forall|i: int| 0 <= i < s.len() ==> s[i] != '{'
}

/// A placeholder, which begins with an opening brace, is not found in text without one.
proof fn lemma_replace_absent(s: Seq<char>, pattern: Seq<char>, with: Seq<char>)
    requires
        no_brace(s),
        pattern.len() > 0,
        pattern[0] == '{',
    ensures
        replace_all(s, pattern, with) == s,
    decreases s.len(),
{
    if s.len() >= pattern.len() && s.len() > 0 {
        assert(s.take(pattern.len() as int)[0] == s[0]);
        assert(s.take(pattern.len() as int) != pattern);
        assert forall|i: int| 0 <= i < s.drop_first().len() implies s.drop_first()[i] != '{' by {
            assert(s.drop_first()[i] == s[i + 1]);
        }
        lemma_replace_absent(s.drop_first(), pattern, with);
        assert(seq![s[0]] + s.drop_first() =~= s);
    }
}

/// Text without braces before a placeholder `q` is kept, and so is `q` with what follows when
/// `q` is not the placeholder `pattern` and holds no other brace.
proof fn lemma_replace_other(a: Seq<char>, q: Seq<char>, b: Seq<char>, pattern: Seq<char>, with: Seq<char>)
    requires
        no_brace(a),
        no_brace(b),
        q.len() >= 2,
        no_brace(q.drop_first()),
        pattern.len() >= 2,
        pattern[0] == '{',
        q[1] != pattern[1],
    ensures
        replace_all(a + q + b, pattern, with) == a + q + b,
    decreases a.len(),
{
    let s = a + q + b;
    if a.len() == 0 {
        assert(s =~= q + b);
        if s.len() >= pattern.len() {
            assert(s.take(pattern.len() as int)[1] == q[1]);
            assert(s.take(pattern.len() as int) != pattern);
        }
        let rest = q.drop_first() + b;
        assert(s.drop_first() =~= rest);
        assert forall|i: int| 0 <= i < rest.len() implies rest[i] != '{' by {
            if i < q.drop_first().len() {
                assert(rest[i] == q.drop_first()[i]);
            } else {
                assert(rest[i] == b[i - q.drop_first().len()]);
            }
        }
        lemma_replace_absent(rest, pattern, with);
        assert(seq![s[0]] + rest =~= s);
    } else if s.len() >= pattern.len() {
        assert(s.take(pattern.len() as int)[0] == a[0]);
        assert(s.take(pattern.len() as int) != pattern);
        let a2 = a.drop_first();
        assert forall|i: int| 0 <= i < a2.len() implies a2[i] != '{' by {
            assert(a2[i] == a[i + 1]);
        }
        lemma_replace_other(a2, q, b, pattern, with);
        assert(s.drop_first() =~= a2 + q + b);
        assert(seq![s[0]] + (a2 + q + b) =~= s);
    }
}

/// The placeholder itself, between text without braces, is replaced.
proof fn lemma_replace_one(a: Seq<char>, b: Seq<char>, pattern: Seq<char>, with: Seq<char>)
    requires
        no_brace(a),
        no_brace(b),
        pattern.len() > 0,
        pattern[0] == '{',
    ensures
        replace_all(a + pattern + b, pattern, with) == a + with + b,
    decreases a.len(),
{
    let s = a + pattern + b;
    if a.len() == 0 {
        assert(s =~= pattern + b);
        assert(s.take(pattern.len() as int) =~= pattern);
        assert(s.skip(pattern.len() as int) =~= b);
        lemma_replace_absent(b, pattern, with);
        assert(with + b =~= a + with + b);
    } else {
        assert(s.take(pattern.len() as int)[0] == a[0]);
        assert(s.take(pattern.len() as int) != pattern);
        let a2 = a.drop_first();
        assert forall|i: int| 0 <= i < a2.len() implies a2[i] != '{' by {
            assert(a2[i] == a[i + 1]);
        }
        lemma_replace_one(a2, b, pattern, with);
        assert(s.drop_first() =~= a2 + pattern + b);
        assert(seq![s[0]] + (a2 + with + b) =~= a + with + b);
    }
}

/// The placeholder `{date}` alone among text without braces becomes its field.
proof fn lemma_fill_date(
    a: Seq<char>,
    b: Seq<char>,
    date: Seq<char>,
    title: Option<Seq<char>>,
    url: Option<Seq<char>>,
    author: Option<Seq<char>>,
    feed: Option<Seq<char>>,
)
    requires
        no_brace(a),
        no_brace(b),
        no_brace(date),
    ensures
        spec_pipe_command(a + "{date}"@ + b, date, title, url, author, feed) == a + date + b,
{
    reveal_strlit("{author}");
    reveal_strlit("{date}");
    reveal_strlit("{title}");
    reveal_strlit("{url}");
    reveal_strlit("{feed}");
    let q = "{date}"@;
    let w = date;
    assert forall|i: int| 0 <= i < q.drop_first().len() implies q.drop_first()[i] != '{' by {
        assert(q.drop_first()[i] == q[i + 1]);
    }
    let d = a + w + b;
    assert forall|i: int| 0 <= i < d.len() implies d[i] != '{' by {
        if i < a.len() {
            assert(d[i] == a[i]);
        } else if i < a.len() + w.len() {
            assert(d[i] == w[i - a.len()]);
        } else {
            assert(d[i] == b[i - a.len() - w.len()]);
        }
    }
    lemma_replace_one(a, b, q, w);
    lemma_replace_absent(d, "{title}"@, or_empty(title));
    lemma_replace_absent(d, "{url}"@, or_empty(url));
    lemma_replace_absent(d, "{author}"@, or_empty(author));
    lemma_replace_absent(d, "{feed}"@, or_empty(feed));
}

/// The placeholder `{title}` alone among text without braces becomes its field.
proof fn lemma_fill_title(
    a: Seq<char>,
    b: Seq<char>,
    date: Seq<char>,
    title: Option<Seq<char>>,
    url: Option<Seq<char>>,
    author: Option<Seq<char>>,
    feed: Option<Seq<char>>,
)
    requires
        no_brace(a),
        no_brace(b),
        no_brace(or_empty(title)),
    ensures
        spec_pipe_command(a + "{title}"@ + b, date, title, url, author, feed) == a + or_empty(title) + b,
{
    reveal_strlit("{author}");
    reveal_strlit("{date}");
    reveal_strlit("{title}");
    reveal_strlit("{url}");
    reveal_strlit("{feed}");
    let q = "{title}"@;
    let w = or_empty(title);
    assert forall|i: int| 0 <= i < q.drop_first().len() implies q.drop_first()[i] != '{' by {
        assert(q.drop_first()[i] == q[i + 1]);
    }
    let d = a + w + b;
    assert forall|i: int| 0 <= i < d.len() implies d[i] != '{' by {
        if i < a.len() {
            assert(d[i] == a[i]);
        } else if i < a.len() + w.len() {
            assert(d[i] == w[i - a.len()]);
        } else {
            assert(d[i] == b[i - a.len() - w.len()]);
        }
    }
    lemma_replace_other(a, q, b, "{date}"@, date);
    lemma_replace_one(a, b, q, w);
    lemma_replace_absent(d, "{url}"@, or_empty(url));
    lemma_replace_absent(d, "{author}"@, or_empty(author));
    lemma_replace_absent(d, "{feed}"@, or_empty(feed));
}

/// The placeholder `{url}` alone among text without braces becomes its field.
proof fn lemma_fill_url(
    a: Seq<char>,
    b: Seq<char>,
    date: Seq<char>,
    title: Option<Seq<char>>,
    url: Option<Seq<char>>,
    author: Option<Seq<char>>,
    feed: Option<Seq<char>>,
)
    requires
        no_brace(a),
        no_brace(b),
        no_brace(or_empty(url)),
    ensures
        spec_pipe_command(a + "{url}"@ + b, date, title, url, author, feed) == a + or_empty(url) + b,
{
    reveal_strlit("{author}");
    reveal_strlit("{date}");
    reveal_strlit("{title}");
    reveal_strlit("{url}");
    reveal_strlit("{feed}");
    let q = "{url}"@;
    let w = or_empty(url);
    assert forall|i: int| 0 <= i < q.drop_first().len() implies q.drop_first()[i] != '{' by {
        assert(q.drop_first()[i] == q[i + 1]);
    }
    let d = a + w + b;
    assert forall|i: int| 0 <= i < d.len() implies d[i] != '{' by {
        if i < a.len() {
            assert(d[i] == a[i]);
        } else if i < a.len() + w.len() {
            assert(d[i] == w[i - a.len()]);
        } else {
            assert(d[i] == b[i - a.len() - w.len()]);
        }
    }
    lemma_replace_other(a, q, b, "{date}"@, date);
    lemma_replace_other(a, q, b, "{title}"@, or_empty(title));
    lemma_replace_one(a, b, q, w);
    lemma_replace_absent(d, "{author}"@, or_empty(author));
    lemma_replace_absent(d, "{feed}"@, or_empty(feed));
}

/// The placeholder `{author}` alone among text without braces becomes its field.
proof fn lemma_fill_author(
    a: Seq<char>,
    b: Seq<char>,
    date: Seq<char>,
    title: Option<Seq<char>>,
    url: Option<Seq<char>>,
    author: Option<Seq<char>>,
    feed: Option<Seq<char>>,
)
    requires
        no_brace(a),
        no_brace(b),
        no_brace(or_empty(author)),
    ensures
        spec_pipe_command(a + "{author}"@ + b, date, title, url, author, feed) == a + or_empty(author) + b,
{
    reveal_strlit("{author}");
    reveal_strlit("{date}");
    reveal_strlit("{title}");
    reveal_strlit("{url}");
    reveal_strlit("{feed}");
    let q = "{author}"@;
    let w = or_empty(author);
    assert forall|i: int| 0 <= i < q.drop_first().len() implies q.drop_first()[i] != '{' by {
        assert(q.drop_first()[i] == q[i + 1]);
    }
    let d = a + w + b;
    assert forall|i: int| 0 <= i < d.len() implies d[i] != '{' by {
        if i < a.len() {
            assert(d[i] == a[i]);
        } else if i < a.len() + w.len() {
            assert(d[i] == w[i - a.len()]);
        } else {
            assert(d[i] == b[i - a.len() - w.len()]);
        }
    }
    lemma_replace_other(a, q, b, "{date}"@, date);
    lemma_replace_other(a, q, b, "{title}"@, or_empty(title));
    lemma_replace_other(a, q, b, "{url}"@, or_empty(url));
    lemma_replace_one(a, b, q, w);
    lemma_replace_absent(d, "{feed}"@, or_empty(feed));
}

/// The placeholder `{feed}` alone among text without braces becomes its field.
proof fn lemma_fill_feed(
    a: Seq<char>,
    b: Seq<char>,
    date: Seq<char>,
    title: Option<Seq<char>>,
    url: Option<Seq<char>>,
    author: Option<Seq<char>>,
    feed: Option<Seq<char>>,
)
    requires
        no_brace(a),
        no_brace(b),
        no_brace(or_empty(feed)),
    ensures
        spec_pipe_command(a + "{feed}"@ + b, date, title, url, author, feed) == a + or_empty(feed) + b,
{
    reveal_strlit("{author}");
    reveal_strlit("{date}");
    reveal_strlit("{title}");
    reveal_strlit("{url}");
    reveal_strlit("{feed}");
    let q = "{feed}"@;
    let w = or_empty(feed);
    assert forall|i: int| 0 <= i < q.drop_first().len() implies q.drop_first()[i] != '{' by {
        assert(q.drop_first()[i] == q[i + 1]);
    }
    let d = a + w + b;
    assert forall|i: int| 0 <= i < d.len() implies d[i] != '{' by {
        if i < a.len() {
            assert(d[i] == a[i]);
        } else if i < a.len() + w.len() {
            assert(d[i] == w[i - a.len()]);
        } else {
            assert(d[i] == b[i - a.len() - w.len()]);
        }
    }
    lemma_replace_other(a, q, b, "{date}"@, date);
    lemma_replace_other(a, q, b, "{title}"@, or_empty(title));
    lemma_replace_other(a, q, b, "{url}"@, or_empty(url));
    lemma_replace_other(a, q, b, "{author}"@, or_empty(author));
    lemma_replace_one(a, b, q, w);
}

/// The text a field of the article puts in a piped command.
pub open spec fn field_text(f: Option<Seq<char>>) -> Seq<char> {
    match f {
        Some(t) => t,
        None => Seq::empty(),
    }
}


/// Each placeholder of a piped command is filled in with its own field: in a template whose
/// only brace opens one placeholder, that placeholder becomes the article's date, title, URL,
/// author or feed (nothing for a field it lacks), and the rest of the template stays as it is.
pub proof fn law_placeholders_are_filled_in(
    a: Seq<char>,
    b: Seq<char>,
    date: Seq<char>,
    title: Option<Seq<char>>,
    url: Option<Seq<char>>,
    author: Option<Seq<char>>,
    feed: Option<Seq<char>>,
)
    requires
        no_brace(a),
        no_brace(b),
        no_brace(date),
        no_brace(field_text(title)),
        no_brace(field_text(url)),
        no_brace(field_text(author)),
        no_brace(field_text(feed)),
    ensures
        spec_pipe_command(a + "{date}"@ + b, date, title, url, author, feed) == a + date + b,
        spec_pipe_command(a + "{title}"@ + b, date, title, url, author, feed) == a + field_text(title) + b,
        spec_pipe_command(a + "{url}"@ + b, date, title, url, author, feed) == a + field_text(url) + b,
        spec_pipe_command(a + "{author}"@ + b, date, title, url, author, feed) == a + field_text(author) + b,
        spec_pipe_command(a + "{feed}"@ + b, date, title, url, author, feed) == a + field_text(feed) + b,
{
    reveal_strlit("{author}");
    reveal_strlit("{date}");
    reveal_strlit("{title}");
    reveal_strlit("{url}");
    reveal_strlit("{feed}");
    lemma_fill_date(a, b, date, title, url, author, feed);
    lemma_fill_title(a, b, date, title, url, author, feed);
    lemma_fill_url(a, b, date, title, url, author, feed);
    lemma_fill_author(a, b, date, title, url, author, feed);
    lemma_fill_feed(a, b, date, title, url, author, feed);
}

} // verus!
