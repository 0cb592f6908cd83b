use eilmeldung::article_content_logic::fallback_scrape_plan;
use eilmeldung::service::{download_step, DownloadAction, DownloadEvent, DownloadFailure};
use eilmeldung::article_content_logic::content_image_debounce_elapsed;
use eilmeldung::article_content_logic::{
    clean_string, enclosure_command, merge_field, on_thumbnail_fetch_failed,
    on_thumbnail_fetch_finished, pipe_command, pipe_output, scrape_plan, should_fetch_thumbnail,
    start_fetch_thumbnail, take_extract_fallback_notification, EnclosureCommands, EnclosureKind,
    ScrapePlan, ThumbnailState, ThumbnailTiming,
};
use eilmeldung::config::{ContentFetcher, HintType};
use eilmeldung::image_url::{resolve_image_url, ImageUrlError};
use eilmeldung::markdown_hooks::{HookStyles, MarkdownHooks};
use eilmeldung::style::TextStyle;

fn styles() -> HookStyles {
    HookStyles {
        hint: TextStyle::new(),
        link_alt: TextStyle::new(),
        link_url: TextStyle::new(),
        image_alt: TextStyle::new(),
        image_url: TextStyle::new(),
    }
}

fn texts(spans: &[eilmeldung::style::StyledSpan]) -> Vec<String> {
    spans.iter().map(|s| s.content.clone()).collect()
}

#[test]
fn links_get_distinct_hints() {
    let mut hooks = MarkdownHooks::new(HintType::Letters.iter(), vec![], true, true, '@', '#', styles());
    assert_eq!(vec!["F@", "home", "(https://a/)"], texts(&hooks.on_link("home", "https://a/")));
    assert_eq!(vec!["J@", "blog", "(https://b/)"], texts(&hooks.on_link("blog", "https://b/")));
    assert_eq!(Some("https://b/".to_owned()), hooks.url_for_hint("J"));
    assert_eq!(None, hooks.url_for_hint("G"));
}

#[test]
fn loaded_images_become_the_sentinel() {
    let loaded = vec![("https://a/p.png".to_owned(), 640, 480)];
    let mut hooks = MarkdownHooks::new(HintType::Numbers.iter(), loaded, false, true, '@', '#', styles());
    assert_eq!(vec!["\0"], texts(&hooks.on_image("pic", "https://a/p.png")));
    assert_eq!(1, hooks.ordered.len());
    assert_eq!(640, hooks.ordered[0].px_width);
    assert_eq!(vec!["0#", "other"], texts(&hooks.on_image("other", "https://a/q.png")));
    assert_eq!(2, hooks.discovered.len());
    assert_eq!(Some("https://a/q.png".to_owned()), hooks.url_for_hint("0"));
}

#[test]
fn images_are_hints_when_not_drawn() {
    let loaded = vec![("https://a/p.png".to_owned(), 640, 480)];
    let mut hooks = MarkdownHooks::new(HintType::Numbers.iter(), loaded, false, false, '@', '#', styles());
    assert_eq!(vec!["0#", "pic"], texts(&hooks.on_image("pic", "https://a/p.png")));
    assert!(hooks.discovered.is_empty());
    assert!(hooks.ordered.is_empty());
}

#[test]
fn line_breaks_are_cleaned() {
    assert_eq!("ab c", clean_string("a\r\nb c\n"));
}

#[test]
fn the_article_title_wins_and_blank_ones_go() {
    assert_eq!(Some("own".to_owned()), merge_field(Some("own".to_owned()), Some("x".to_owned())));
    assert_eq!(Some("x".to_owned()), merge_field(None, Some("x".to_owned())));
    assert_eq!(None, merge_field(Some("  ".to_owned()), Some("x".to_owned())));
    assert_eq!(None, merge_field(None, None));
}

#[test]
fn the_fallback_notice_is_given_once() {
    let mut notified = false;
    assert!(take_extract_fallback_notification(&mut notified));
    assert!(!take_extract_fallback_notification(&mut notified));
}

#[test]
fn which_scraper_fetches_the_content() {
    assert_eq!(
        ScrapePlan::FetchHtml("https://a/".to_owned()),
        scrape_plan(true, false, ContentFetcher::Readability, Some("https://a/"))
    );
    assert_eq!(ScrapePlan::FetchFull, scrape_plan(true, false, ContentFetcher::Readability, None));
    assert_eq!(ScrapePlan::FetchFull, scrape_plan(true, false, ContentFetcher::Newsflash, Some("u")));
    assert_eq!(ScrapePlan::Nothing, scrape_plan(true, true, ContentFetcher::Readability, Some("u")));
    assert_eq!(ScrapePlan::Nothing, scrape_plan(false, false, ContentFetcher::Readability, Some("u")));
}

fn timing() -> ThumbnailTiming {
    ThumbnailTiming {
        thumbnail_show: true,
        has_article: true,
        has_thumbnail_url: true,
        since_selected_nanos: Some(100_000_000),
        previous_stay_nanos: Some(50_000_000),
        debounce_millis: 200,
    }
}

#[test]
fn thumbnails_wait_for_the_debounce() {
    let mut s = ThumbnailState { fetch_successful: None, fetch_running: false };
    assert!(!should_fetch_thumbnail(&mut s, timing()));
    let mut t = timing();
    t.since_selected_nanos = Some(200_000_000);
    assert!(should_fetch_thumbnail(&mut s, t));
    t.previous_stay_nanos = None;
    t.since_selected_nanos = Some(0);
    assert!(should_fetch_thumbnail(&mut s, t));
    t.has_thumbnail_url = false;
    assert!(!should_fetch_thumbnail(&mut s, t));
    assert_eq!(Some(false), s.fetch_successful);
    assert!(!should_fetch_thumbnail(&mut s, timing()));
}

#[test]
fn thumbnail_fetch_lifecycle() {
    let mut s = ThumbnailState { fetch_successful: None, fetch_running: false };
    assert!(start_fetch_thumbnail(&mut s, true, true));
    assert!(s.fetch_running);
    on_thumbnail_fetch_finished(&mut s, true);
    assert_eq!(ThumbnailState { fetch_successful: Some(true), fetch_running: false }, s);
    on_thumbnail_fetch_failed(&mut s);
    assert_eq!(Some(false), s.fetch_successful);
    assert!(!start_fetch_thumbnail(&mut s, true, false));
}

#[test]
fn pipe_commands_get_the_article_fields() {
    assert_eq!(
        "tool --title 'T' --url  --feed F --date D",
        pipe_command("tool --title '{title}' --url {url} --feed {feed} --date {date}", "D", Some("T"), None, None, Some("F"))
    );
}

#[test]
fn pipe_output_reports_failures() {
    assert_eq!(None, pipe_output(None, true, Some(0), Some("")));
    assert_eq!(Some("md".to_owned()), pipe_output(Some("md"), true, Some(0), None));
    assert_eq!(
        Some("\n---\n\nProcess returned with error (-2)\n                ".to_owned()),
        pipe_output(None, false, Some(-2), None)
    );
    assert_eq!(
        Some("x\n---\n\nProcess returned with error (unknown error code)\n                \n---\n \n# stderr output\n\noops\n                ".to_owned()),
        pipe_output(Some("x"), false, None, Some("oops"))
    );
}

#[test]
fn enclosures_open_with_the_command_of_their_kind() {
    let cmds = EnclosureCommands {
        audio: Some("mpv {url}".to_owned()),
        image: None,
        video: None,
        default: "open {url} --type {type} --mime {mime}".to_owned(),
    };
    let (program, args) = enclosure_command(&cmds, EnclosureKind::Audio, "audio", "https://a/x.mp3", None, &eilmeldung::utils::ShellEnv { vars: Vec::new(), home: None }).unwrap();
    assert_eq!("mpv", program);
    assert_eq!(vec!["https://a/x.mp3"], args);
    let (program, args) = enclosure_command(&cmds, EnclosureKind::Image, "image", "https://a/x.png", None, &eilmeldung::utils::ShellEnv { vars: Vec::new(), home: None }).unwrap();
    assert_eq!("open", program);
    assert_eq!(vec!["https://a/x.png", "--type", "image", "--mime", "*/*"], args);
}

#[test]
fn image_urls_are_resolved_against_the_page() {
    let r = resolve_image_url(Some("https://example.com/news/story"), "/media/p.jpg").unwrap();
    assert_eq!("https://example.com/media/p.jpg", r.as_text());
    assert_eq!("https", r.scheme());
    let r = resolve_image_url(None, "http://cdn.example.com/x.png").unwrap();
    assert_eq!("http://cdn.example.com/x.png", r.as_text());
    assert!(matches!(resolve_image_url(None, "/media/p.jpg"), Err(ImageUrlError::RelativeWithoutBase)));
    match resolve_image_url(None, "data:image/png;base64,AAAA") {
        Err(ImageUrlError::UnsupportedScheme(s)) => assert_eq!("data", s),
        _ => panic!("data URIs are not downloaded"),
    }
    assert!(matches!(resolve_image_url(Some("not a url"), "/x"), Err(ImageUrlError::InvalidBase(_))));
    assert!(matches!(resolve_image_url(None, "http://[bad"), Err(ImageUrlError::Invalid(_))));
}

#[test]
fn content_images_wait_for_the_debounce() {
    assert!(content_image_debounce_elapsed(None, 500));
    assert!(!content_image_debounce_elapsed(Some(499_999_999), 500));
    assert!(content_image_debounce_elapsed(Some(500_000_000), 500));
    assert!(content_image_debounce_elapsed(Some(0), 0));
}

#[test]
fn a_download_goes_from_request_to_measured_image() {
    let url = "https://example.org/a.png";
    let resolved = resolve_image_url(None, url);
    match download_step(url, DownloadEvent::Resolved(resolved)) {
        DownloadAction::Request(u) => assert_eq!(url, u),
        _ => panic!("expected a request"),
    }
    assert!(matches!(
        download_step(url, DownloadEvent::Answered { success: true, status: "200 OK".to_owned(), declared: Some(10) }),
        DownloadAction::ReadBody
    ));
    match download_step(url, DownloadEvent::Answered { success: false, status: "404 Not Found".to_owned(), declared: None }) {
        DownloadAction::Done(Err(DownloadFailure::Rejected(m))) => {
            assert_eq!("https://example.org/a.png returned HTTP status 404 Not Found", m)
        }
        _ => panic!("expected a refusal"),
    }
    match download_step(url, DownloadEvent::Body(vec![1, 2, 3])) {
        DownloadAction::Measure(d) => assert_eq!(vec![1, 2, 3], d),
        _ => panic!("expected measuring"),
    }
    match download_step(url, DownloadEvent::Measured { data: vec![1, 2, 3], size: Ok((40, 30)) }) {
        DownloadAction::Done(Ok((d, w, h))) => assert_eq!((vec![1, 2, 3], 40, 30), (d, w, h)),
        _ => panic!("expected an image"),
    }
    assert!(matches!(
        download_step(url, DownloadEvent::Resolved(resolve_image_url(None, "data:x"))),
        DownloadAction::Done(Err(DownloadFailure::Url(_)))
    ));
}

#[test]
fn the_service_scraper_is_the_fallback() {
    assert_eq!(ScrapePlan::FetchFull, fallback_scrape_plan(true, false));
    assert_eq!(ScrapePlan::Nothing, fallback_scrape_plan(true, true));
    assert_eq!(ScrapePlan::Nothing, fallback_scrape_plan(false, false));
}
