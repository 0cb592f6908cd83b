use eilmeldung::extraction::{extract_article, extracted_from, ExtractError, ExtractedArticle, ReadableArticle};

const PAGE_URL: &str = "https://example.com/news/story";

const ARTICLE_PAGE: &str = r#"<!DOCTYPE html>
<html lang="en"><head><title>Site Name - Article Title</title>
<style>body{font-family:sans-serif}.ad{background:#eee}</style>
<script>window.tracking = {id: 42};</script></head>
<body>
<header><nav><a href="/">Home</a><a href="/world">World</a><a href="/tech">Tech</a>
<form action="/search"><input name="q"><button>Search</button></form></nav></header>
<div class="ad">ADVERTISEMENT - buy things now</div>
<article>
  <h1>The Real Article Headline</h1>
  <p class="byline">By Jane Reporter</p>
  <p>First paragraph of the actual story, which needs to be long enough that the
     readability scoring algorithm considers this container to be the dominant
     text block on the page rather than the navigation or the sidebar.</p>
  <figure><img src="/media/photo-1234.jpg" alt="A protester holds a sign">
    <figcaption>Protesters gathered outside the ministry. Photograph: AP</figcaption></figure>
  <p>Second paragraph continues the story with more detail about what happened
     and who was involved, adding enough weight for the extraction to lock on.</p>
  <blockquote><p>A quote from an official who spoke on condition of anonymity.</p></blockquote>
  <p>Third paragraph wraps up the reporting and points to what happens next in
     the coming weeks, according to people familiar with the matter.</p>
  <img src="https://cdn.example.com/inline-chart.png" alt="Chart of results">
  <p>Final paragraph of the story proper.</p>
</article>
<aside><h2>Related articles</h2><ul><li><a href="/a">Teaser one</a></li>
<li><a href="/b">Teaser two</a></li><li><a href="/c">Teaser three</a></li></ul></aside>
<div class="ad">MORE ADVERTISEMENTS</div>
<footer><p>Copyright 2026 Site Name</p><nav><a href="/privacy">Privacy</a>
<a href="/terms">Terms</a></nav></footer>
<script>console.log("analytics");</script>
</body></html>"#;

fn extract(html: &str) -> Result<ExtractedArticle, ExtractError> {
    extract_article("article-1".to_owned(), PAGE_URL, html)
}

#[test]
fn extracts_the_story_and_drops_site_chrome() {
    let extracted = extract(ARTICLE_PAGE).expect("extraction succeeds");
    assert!(extracted.content.contains("First paragraph of the actual story"));
    assert!(extracted.content.contains("Final paragraph of the story proper"));
    for chrome in [
        "ADVERTISEMENT",
        "Teaser one",
        "Copyright 2026",
        "window.tracking",
        "console.log",
        "font-family",
        "<nav",
        "<form",
        "<aside",
        "<script",
        "<style",
    ] {
        assert!(
            !extracted.content.contains(chrome),
            "{chrome:?} should have been stripped, content was {}",
            extracted.content
        );
    }
}

#[test]
fn keeps_images_and_makes_their_urls_absolute() {
    let extracted = extract(ARTICLE_PAGE).expect("extraction succeeds");
    assert_eq!(2, extracted.content.matches("<img").count());
    assert!(
        extracted.content.contains("https://example.com/media/photo-1234.jpg"),
        "relative src should be resolved against the page URL, content was {}",
        extracted.content
    );
    assert!(extracted.content.contains("https://cdn.example.com/inline-chart.png"));
    assert!(extracted.content.contains(r#"alt="A protester holds a sign""#));
}

#[test]
fn extracts_byline_and_plain_text() {
    let extracted = extract(ARTICLE_PAGE).expect("extraction succeeds");
    assert_eq!(Some("By Jane Reporter".to_owned()), extracted.byline);
    assert!(extracted.text_content.contains("First paragraph of the actual story"));
    assert!(!extracted.text_content.contains('<'), "plain text had markup");
    assert_eq!("article-1", extracted.article_id);
}

#[test]
fn fails_on_a_client_side_rendered_shell() {
    let shell = r#"<html><head><title>Empty</title></head><body><div id="app"></div>
<script>renderApp();</script></body></html>"#;
    assert!(matches!(extract(shell), Err(_)));
}

#[test]
fn fails_when_nothing_readable_is_found() {
    let gallery = r#"<html><head><title>Gallery</title></head><body>
<div id="content"><img src="https://cdn.example.com/1.jpg" alt="One">
<img src="https://cdn.example.com/2.jpg" alt="Two"></div></body></html>"#;
    assert!(matches!(extract(gallery), Err(_)));
}

#[test]
fn fails_on_unparseable_input() {
    assert!(matches!(extract(""), Err(_)));
}

fn readable(title: &str, byline: &str, length: usize) -> ReadableArticle {
    ReadableArticle {
        title: title.to_owned(),
        byline: byline.to_owned(),
        content: "<p>body</p>".to_owned(),
        text_content: "body".to_owned(),
        length,
    }
}

#[test]
fn an_empty_extraction_names_the_page() {
    match extracted_from("id".to_owned(), "https://example.com/x", Ok(readable("t", "b", 0))) {
        Err(ExtractError::NothingReadable(m)) => {
            assert_eq!("no readable content could be extracted from https://example.com/x", m)
        }
        _ => panic!("expected nothing readable"),
    }
}

#[test]
fn blank_titles_and_bylines_are_left_out() {
    let e = extracted_from("id".to_owned(), "u", Ok(readable("  \t", "By Someone", 4))).unwrap();
    assert_eq!(None, e.title);
    assert_eq!(Some("By Someone".to_owned()), e.byline);
    assert_eq!("<p>body</p>", e.content);
    assert_eq!("body", e.text_content);
}
