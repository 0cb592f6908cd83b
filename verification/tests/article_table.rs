use eilmeldung::article_cells::{row_style_steps, RowStyleStep};
use eilmeldung::article_cells::article_table_plan;
use eilmeldung::article_cells::article_row;
use eilmeldung::article_cells::{
    age_label, article_cell, collapse_whitespace, ellipsize, some_titled_summary, summary_lines,
    summary_of, ArticleFields, CellConfig, CellText,
};
use eilmeldung::article_table::{
    column_constraints, fixed_width, list_title, max_tag_count, parse_table_layout,
    position_label, row_height, summary_width, ColumnContext, ColumnKind, ListTitleParts,
};
use eilmeldung::config::{ArticleScope, ScopeIcons};
use eilmeldung::dimension::LayoutConstraint;
use eilmeldung::filter_state::{ArticleQuery, FilterState};
use eilmeldung::style::{StyledSpan, TextStyle, MODIFIER_DIM};

fn columns(layout: &eilmeldung::article_table::TableLayout) -> Vec<String> {
    layout.columns.iter().map(|c| c.iter().collect()).collect()
}

#[test]
fn the_summary_goes_under_the_title() {
    let layout = parse_table_layout("{read}, {title} ,{summary},{age}");
    assert_eq!(vec!["{read}", "{title}", "{age}"], columns(&layout));
    assert_eq!(vec![ColumnKind::Read, ColumnKind::Title, ColumnKind::Age], layout.kinds);
    assert!(layout.show_summary);
    assert!(layout.summary_in_title);
}

#[test]
fn the_summary_is_a_column_without_a_title() {
    let layout = parse_table_layout("{summary},{url}, {bogus}");
    assert_eq!(vec!["{summary}", "{url}", "{bogus}"], columns(&layout));
    assert_eq!(vec![ColumnKind::Summary, ColumnKind::Url, ColumnKind::Unknown], layout.kinds);
    assert!(layout.show_summary);
    assert!(!layout.summary_in_title);
}

#[test]
fn fixed_widths_and_weights() {
    let ctx = ColumnContext { any_flagged: false, date_format_len: 10, max_tags: 3, summary_in_title: true };
    assert_eq!(Some(2), fixed_width(ColumnKind::Read, ctx));
    assert_eq!(Some(0), fixed_width(ColumnKind::Flagged, ctx));
    assert_eq!(Some(4), fixed_width(ColumnKind::Age, ctx));
    assert_eq!(Some(10), fixed_width(ColumnKind::Date, ctx));
    assert_eq!(Some(3), fixed_width(ColumnKind::TagIcons, ctx));
    assert_eq!(None, fixed_width(ColumnKind::Title, ctx));
    assert_eq!(5, max_tag_count(&[1, 5, 2]));
    assert_eq!(0, max_tag_count(&[]));
    assert_eq!(
        vec![LayoutConstraint::Length(2), LayoutConstraint::Fill(3), LayoutConstraint::Fill(1)],
        column_constraints(&[ColumnKind::Read, ColumnKind::Title, ColumnKind::Feed], ctx)
    );
}

#[test]
fn the_summary_width_shares_the_leftover_columns() {
    let ctx = ColumnContext { any_flagged: true, date_format_len: 10, max_tags: 0, summary_in_title: true };
    let kinds = [ColumnKind::Read, ColumnKind::Title, ColumnKind::Feed, ColumnKind::Age];
    // 100 columns, 2 + 4 fixed, 94 shared 3:1, one kept free: 94 * 3 / 4 - 1 = 69.
    assert_eq!(69, summary_width(&kinds, ctx, Some(100), ColumnKind::Title));
    // Before the first render the table is taken to be 80 wide: 74 * 3 / 4 - 1 = 54.
    assert_eq!(54, summary_width(&kinds, ctx, None, ColumnKind::Title));
    assert_eq!(3, row_height(54, true));
    assert_eq!(1, row_height(0, true));
    assert_eq!(1, row_height(54, false));
}

#[test]
fn ages_use_the_largest_unit() {
    assert_eq!(" 2w", age_label(2 * 604800 + 5));
    assert_eq!(" 3d", age_label(3 * 86400));
    assert_eq!("13h  ", age_label(13 * 3600 + 59));
    assert_eq!(" 5m", age_label(330));
    assert_eq!(" 7s", age_label(7));
    assert_eq!("-5s", age_label(-5));
    assert_eq!("-120s", age_label(-120));
}

#[test]
fn summaries_are_collapsed_onto_one_line() {
    assert_eq!("a b c", collapse_whitespace("  a \n b\t\tc  "));
    assert_eq!("", collapse_whitespace(" \n "));
    assert_eq!("Tom & Jerry run", summary_of(Some("Tom &amp; Jerry\n  run")));
    assert_eq!("", summary_of(None));
}

#[test]
fn long_summaries_end_in_an_ellipsis() {
    let style = TextStyle::new().add_modifier(MODIFIER_DIM);
    let lines = summary_lines(Some("one two three four five six"), 8, style);
    let texts: Vec<String> = lines.iter().map(|l| l.iter().map(|s| s.content.as_str()).collect()).collect();
    assert_eq!(vec!["one two", "three\u{2026}"], texts);
    let short = summary_lines(Some("short"), 8, style);
    assert_eq!(1, short.len());
    assert!(summary_lines(None, 8, style).is_empty());
}

#[test]
fn ellipsizing_cuts_to_the_width() {
    let mut line = vec![StyledSpan::styled("abc".to_owned(), TextStyle::new()), StyledSpan::styled("defgh".to_owned(), TextStyle::new())];
    ellipsize(&mut line, TextStyle::new(), 5);
    assert_eq!(1, line.len());
    assert_eq!("abcd\u{2026}", line[0].content);
}

fn fields() -> ArticleFields {
    ArticleFields {
        title: Some("A &amp; B".to_owned()),
        summary: Some("first   second".to_owned()),
        author: None,
        feed_label: Some("Feed".to_owned()),
        url: None,
        date_text: "2026-01-01".to_owned(),
        age_seconds: 90,
        read: false,
        marked: true,
        flagged: false,
        tags: Some(vec![Some(TextStyle::new()), None]),
    }
}

fn cfg() -> CellConfig {
    CellConfig {
        read_icon: 'r',
        unread_icon: 'u',
        marked_icon: 'm',
        unmarked_icon: 'n',
        flagged_icon: 'f',
        tag_icon: 't',
        any_flagged: true,
        show_summary: true,
        summary_is_column: false,
        summary_width: 40,
        summary_style: TextStyle::new(),
    }
}

fn plain(c: Option<CellText>) -> String {
    match c {
        Some(CellText::Plain(s)) => s,
        _ => panic!("expected a plain cell"),
    }
}

fn lines(c: Option<CellText>) -> Vec<String> {
    match c {
        Some(CellText::Lines(l)) => l.iter().map(|l| l.iter().map(|s| s.content.as_str()).collect()).collect(),
        _ => panic!("expected a cell of lines"),
    }
}

#[test]
fn cells_of_an_article_row() {
    let f = fields();
    let c = cfg();
    assert_eq!(vec!["A & B", "first second"], lines(article_cell(ColumnKind::Title, &[], &f, &c)));
    assert_eq!("no author", plain(article_cell(ColumnKind::Author, &[], &f, &c)));
    assert_eq!("Feed", plain(article_cell(ColumnKind::Feed, &[], &f, &c)));
    assert_eq!("2026-01-01", plain(article_cell(ColumnKind::Date, &[], &f, &c)));
    assert_eq!(" 1m", plain(article_cell(ColumnKind::Age, &[], &f, &c)));
    assert_eq!(" u", plain(article_cell(ColumnKind::Read, &[], &f, &c)));
    assert_eq!(" m", plain(article_cell(ColumnKind::Marked, &[], &f, &c)));
    assert_eq!("?", plain(article_cell(ColumnKind::Url, &[], &f, &c)));
    assert_eq!("  ", plain(article_cell(ColumnKind::Flagged, &[], &f, &c)));
    assert_eq!(vec!["t"], lines(article_cell(ColumnKind::TagIcons, &[], &f, &c)));
    let p: Vec<char> = "{nope}".chars().collect();
    assert_eq!("{nope}?", plain(article_cell(ColumnKind::Unknown, &p, &f, &c)));
    assert!(some_titled_summary(&[f]));
}

#[test]
fn the_title_of_the_list() {
    let mut f: FilterState<u8> = FilterState::new(ArticleScope::Unread);
    f.article_adhoc_filter = Some(ArticleQuery { sort_order: None });
    let header = TextStyle::new().add_modifier(MODIFIER_DIM);
    let parts = ListTitleParts {
        scope_icons: ScopeIcons { all: 'A', unread: 'U', marked: 'M' },
        header,
        inactive: TextStyle::new(),
        sort_normal_icon: 'v',
        sort_reversed_icon: '^',
        sort_label: "date".to_owned(),
        hide_default_sort_order: false,
    };
    let spans = list_title(&f, &parts);
    let text: String = spans.iter().map(|s| s.content.as_str()).collect();
    assert_eq!(" A U M  \u{eaf1}  v date ", text);
    assert_eq!(header, spans[3].style);
    assert_eq!(Some(" 3/10 ".to_owned()), position_label(10, true, Some(2)));
    assert_eq!(None, position_label(0, true, Some(2)));
}

#[test]
fn an_article_row_has_one_cell_per_column() {
    let f = fields();
    let c = cfg();
    let columns: Vec<Vec<char>> = vec!["{title}".chars().collect(), "{feed}".chars().collect(), "{read}".chars().collect()];
    let kinds = vec![ColumnKind::Title, ColumnKind::Feed, ColumnKind::Read];
    let row = article_row(&columns, &kinds, &f, &c).unwrap();
    assert_eq!(3, row.len());
    let mut it = row.into_iter();
    assert_eq!(vec!["A & B", "first second"], lines(it.next()));
    assert_eq!("Feed", plain(it.next()));
    assert_eq!(" u", plain(it.next()));
}

#[test]
fn the_whole_table_is_planned_from_its_pieces() {
    let layout = parse_table_layout("{read},{title},{summary},{feed},{age}");
    let f = fields();
    let plan = article_table_plan(&layout, 10, Some(100), &[f], &cfg());
    // Read 2 and age 4 are fixed; 94 columns shared 3:1 between title and feed, one kept free.
    assert_eq!(69, plan.summary_width);
    assert_eq!(3, plan.row_height);
    assert_eq!(1, plan.article_count);
    assert_eq!(4, plan.constraints.len());
    let rows = plan.rows.unwrap();
    assert_eq!(1, rows.len());
    assert_eq!(4, rows[0].len());
    let without = parse_table_layout("{read},{title}");
    let plan = article_table_plan(&without, 10, Some(100), &[fields()], &cfg());
    assert_eq!(0, plan.summary_width);
    assert_eq!(1, plan.row_height);
}

#[test]
fn rows_are_styled_by_search_read_state_and_flag() {
    assert_eq!(vec![RowStyleStep::Unread], row_style_steps(false, false, false));
    assert_eq!(
        vec![RowStyleStep::Highlighted, RowStyleStep::Read, RowStyleStep::Flagged],
        row_style_steps(true, true, true)
    );
}
