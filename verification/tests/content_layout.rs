use eilmeldung::content_layout::{build_rows, ContentRow, IMAGE_SENTINEL};
use eilmeldung::style::{StyledSpan, TextStyle};

fn span(s: &str) -> StyledSpan {
    StyledSpan::styled(s.to_owned(), TextStyle::new())
}

fn sentinel() -> StyledSpan {
    span(&IMAGE_SENTINEL.to_string())
}

fn row_texts(rows: &[ContentRow]) -> Vec<String> {
    rows.iter()
        .map(|row| match row {
            ContentRow::Text(line) => line.iter().map(|s| s.content.as_str()).collect(),
            ContentRow::Image { index, height } => format!("<image {index} {height}>"),
        })
        .collect()
}

// The image heights below are what the image cell size gives for the test images with 8x16
// pixel cells: a 100x100 image in 40 columns takes 7 rows, an 80x32 image 2 rows.

#[test]
fn build_rows_places_an_image_between_the_surrounding_text() {
    let text = vec![vec![span("before the picture")], vec![sentinel()], vec![span("after the picture")]];
    let (rows, total_height) = build_rows(text, &[7], 40);
    assert_eq!(
        vec!["before the picture", "<image 0 7>", "after the picture"],
        row_texts(&rows)
    );
    assert_eq!(1 + 7 + 1, total_height);
}

#[test]
fn build_rows_splits_a_paragraph_around_an_inline_image() {
    let text = vec![vec![span("words before "), sentinel(), span(" words after")]];
    let (rows, _) = build_rows(text, &[2], 40);
    assert_eq!(vec!["words before", "<image 0 2>", "words after"], row_texts(&rows));
}

#[test]
fn build_rows_preserves_blank_lines() {
    let text = vec![vec![span("one")], vec![span("")], vec![span("two")]];
    let (rows, total_height) = build_rows(text, &[], 40);
    assert_eq!(vec!["one", "", "two"], row_texts(&rows));
    assert_eq!(3, total_height);
}

#[test]
fn build_rows_wraps_text_and_counts_the_wrapped_rows() {
    let text = vec![vec![span("the quick brown fox jumps")]];
    let (rows, total_height) = build_rows(text, &[], 9);
    assert_eq!(vec!["the quick", "brown fox", "jumps"], row_texts(&rows));
    assert_eq!(3, total_height);
}

#[test]
fn build_rows_numbers_images_in_document_order() {
    let text = vec![vec![sentinel()], vec![span("between")], vec![sentinel()]];
    let (rows, _) = build_rows(text, &[2, 2], 40);
    assert_eq!(vec!["<image 0 2>", "between", "<image 1 2>"], row_texts(&rows));
}

#[test]
fn build_rows_drops_an_image_that_has_no_size() {
    let text = vec![vec![span("before")], vec![sentinel()], vec![span("after")]];
    let (rows, _) = build_rows(text, &[], 40);
    assert_eq!(vec!["before", "after"], row_texts(&rows));
}

#[test]
fn build_rows_leaves_an_unknown_image_index_unrendered_but_harmless() {
    let text = vec![vec![sentinel()]];
    let (rows, total_height) = build_rows(text, &[], 40);
    assert!(rows.is_empty());
    assert_eq!(0, total_height);
}

#[test]
fn the_sentinel_never_reaches_a_rendered_row() {
    for height in [0u16, 3] {
        let text = vec![vec![span("a"), sentinel(), span("b")]];
        let (rows, _) = build_rows(text, &[height], 40);
        let rendered = row_texts(&rows);
        assert!(
            !rendered.iter().any(|row| row.contains(IMAGE_SENTINEL)),
            "sentinel leaked at height {height}: {rendered:?}"
        );
    }
}

// The page is extracted and converted as in the article pane; the markdown renderer (not part of
// this library) is stood in for line by line, its image hook turning the image into the sentinel.
// A 400x200 image with 8x16 pixel cells in 60 columns takes 13 rows.
#[test]
fn extracted_html_becomes_text_rows_and_an_image_row_in_place() {
    let page = r#"<html><body><article>
<h1>Headline</h1>
<p>First paragraph of the story, long enough that the readability scoring treats this
   container as the dominant text block on the page rather than any surrounding chrome.</p>
<img src="/media/photo.jpg" alt="A photograph">
<p>Second paragraph of the story, which continues after the picture and is also long
   enough to keep the extraction anchored on the article body rather than the sidebar.</p>
</article></body></html>"#;
    let extracted = eilmeldung::extraction::extract_article("a".to_owned(), "https://example.com/story", page)
        .expect("extractable");
    assert!(
        extracted.content.contains("https://example.com/media/photo.jpg"),
        "the image URL should have been made absolute: {}",
        extracted.content
    );
    let markdown = eilmeldung::markdown::markdown_content(None, true, Some(&extracted.content))
        .expect("convertible")
        .unwrap();
    assert!(markdown.contains("![A photograph]"), "got {markdown:?}");

    let text: Vec<Vec<StyledSpan>> = markdown
        .lines()
        .map(|line| if line.contains("![A photograph]") { vec![sentinel()] } else { vec![span(line)] })
        .collect();
    let (rows, total_height) = build_rows(text, &[13], 60);

    let rendered = row_texts(&rows);
    let position_of = |needle: &str| {
        rendered
            .iter()
            .position(|row| row.contains(needle))
            .unwrap_or_else(|| panic!("{needle:?} missing from {rendered:?}"))
    };
    let image_row = position_of("<image 0 ");
    assert!(
        position_of("First paragraph") < image_row && image_row < position_of("Second paragraph"),
        "image should sit between the paragraphs: {rendered:?}"
    );
    assert!(total_height > rendered.len() as u16, "the image should occupy several rows: {rendered:?} total {total_height}");
    assert!(!rendered.iter().any(|row| row.contains(IMAGE_SENTINEL)), "sentinel leaked: {rendered:?}");
}
