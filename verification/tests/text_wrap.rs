use eilmeldung::style::{StyledSpan, TermColor, TextStyle, MODIFIER_BOLD};
use eilmeldung::text_wrap::wrap_spans;

fn plain(content: &str) -> Vec<StyledSpan> {
    vec![StyledSpan::styled(content.to_owned(), TextStyle::new())]
}

fn wrapped(content: &str, width: u16) -> Vec<String> {
    wrap_spans(&plain(content), width)
        .into_iter()
        .map(|line| line.iter().map(|span| span.content.as_str()).collect())
        .collect()
}

#[test]
fn wraps_greedily_at_word_boundaries() {
    assert_eq!(vec!["the quick", "brown fox"], wrapped("the quick brown fox", 9));
}

#[test]
fn a_word_that_exactly_fills_the_row_does_not_break() {
    assert_eq!(vec!["abcd", "efgh"], wrapped("abcd efgh", 4));
}

#[test]
fn trims_leading_whitespace_of_continuation_rows() {
    assert_eq!(vec!["one", "two"], wrapped("one     two", 3));
}

#[test]
fn trims_trailing_whitespace_before_a_break() {
    assert_eq!(vec!["one", "two"], wrapped("one   \ntwo", 10));
}

#[test]
fn keeps_single_line_content_on_one_row() {
    assert_eq!(vec!["short"], wrapped("short", 80));
}

#[test]
fn empty_input_yields_one_empty_row() {
    assert_eq!(vec![""], wrapped("", 10));
}

#[test]
fn zero_width_yields_nothing() {
    assert!(wrap_spans(&plain("anything"), 0).is_empty());
}

#[test]
fn hard_breaks_a_word_wider_than_the_row() {
    assert_eq!(
        vec!["https://", "example.", "com/long"],
        wrapped("https://example.com/long", 8)
    );
}

#[test]
fn counts_wide_characters_as_two_columns() {
    assert_eq!(vec!["日本", "語"], wrapped("日本語", 4));
    assert_eq!(vec!["日", "本", "語"], wrapped("日本語", 2));
}

#[test]
fn a_two_column_character_does_not_straddle_the_boundary() {
    assert_eq!(vec!["ab", "日"], wrapped("ab日", 2));
}

#[test]
fn expands_tabs() {
    assert_eq!(vec!["a", "b"], wrapped("a\tb", 4));
}

#[test]
fn preserves_span_styles_across_a_break() {
    let bold = TextStyle::new().add_modifier(MODIFIER_BOLD);
    let spans = vec![
        StyledSpan::styled("bold text here".to_owned(), bold),
        StyledSpan::styled(" and plain".to_owned(), TextStyle::new()),
    ];

    let rows = wrap_spans(&spans, 12);
    let texts: Vec<String> = rows
        .iter()
        .map(|line| line.iter().map(|span| span.content.as_str()).collect())
        .collect();

    assert_eq!(vec!["bold text", "here and", "plain"], texts);
    assert_eq!(bold, rows[1][0].style);
}

#[test]
fn merges_adjacent_spans_with_the_same_style() {
    let spans = vec![
        StyledSpan::styled("one ".to_owned(), TextStyle::new()),
        StyledSpan::styled("two".to_owned(), TextStyle::new()),
    ];

    let rows = wrap_spans(&spans, 40);
    assert_eq!(1, rows.len());
    assert_eq!(1, rows[0].len());
    assert_eq!("one two", rows[0][0].content.as_str());
}

#[test]
fn coloured_spans_are_not_merged() {
    let spans = vec![
        StyledSpan::styled("red".to_owned(), TextStyle::new().fg(TermColor::Red)),
        StyledSpan::styled("blue".to_owned(), TextStyle::new().fg(TermColor::Blue)),
    ];

    let rows = wrap_spans(&spans, 40);
    assert_eq!(2, rows[0].len());
}

#[test]
fn every_wrapped_row_keeps_the_visible_text() {
    let rows = wrapped("  a quick   brown fox  jumps over  ", 7);
    let joined: String = rows.concat();
    let visible: String = joined.chars().filter(|c| !c.is_whitespace()).collect();
    assert_eq!("aquickbrownfoxjumpsover", visible);
    for row in &rows {
        assert_eq!(row.trim(), row.as_str());
    }
}

#[test]
fn every_newline_starts_a_row_even_between_blank_lines() {
    assert_eq!(vec!["a", "", "", "b"], wrapped("a\n\n\nb", 10));
}

#[test]
fn rows_never_exceed_the_width_counted_per_character() {
    for width in 1..12u16 {
        for row in wrapped("lorem ipsum dolor sit amet, consectetur adipiscing elit", width) {
            assert!(row.chars().count() <= width as usize, "{row:?} is wider than {width}");
        }
    }
}
