use eilmeldung::content_view::{image_actions, ImageAction};
use eilmeldung::service::check_image_response;
use eilmeldung::app_logic::TooltipFlavor;
use eilmeldung::base16_theme::{Base16ThemeEntry, Base16ThemeSource};
use eilmeldung::content_layout::ContentRow;
use eilmeldung::content_view::{
    choose_content, find_theme, generate_header, paint_plan, protocol_ready, ContentChoice,
    HeaderFields, HeaderLine, HeaderLook, PaintStep,
};
use eilmeldung::dimension::{Dimension, LayoutConstraint};
use eilmeldung::markdown::{markdown_content, pipe_error_output, pipe_input, pipe_markdown, PipeTarget};
use eilmeldung::mouse::AppState;
use eilmeldung::service::{check_image_size, error_message, ServiceError};
use eilmeldung::style::{StyledSpan, TextStyle, MODIFIER_BOLD};
use eilmeldung::ui_logic::{
    can_process_batch, caused_model_update, frame_millis, loop_start, loop_step, panel_constraints,
    status_bar_plan, validate_sync_interval, EventKind, LoopAction, LoopEvent, PanelWidths,
    StatusCell, StatusIcons,
};

fn widths() -> PanelWidths {
    PanelWidths {
        feed_list: Dimension::Percentage(20),
        article_list: Dimension::Percentage(30),
        article_content: Dimension::Length(0),
    }
}

#[test]
fn the_focused_panel_takes_its_width() {
    assert_eq!(
        Some((LayoutConstraint::Percentage(20), LayoutConstraint::Fill(30), LayoutConstraint::Fill(1))),
        panel_constraints(AppState::FeedSelection, widths(), None)
    );
    assert_eq!(
        Some((LayoutConstraint::Fill(20), LayoutConstraint::Fill(30), LayoutConstraint::Length(0))),
        panel_constraints(AppState::ArticleContent, widths(), None)
    );
    assert_eq!(
        Some((LayoutConstraint::Fill(20), LayoutConstraint::Length(44), LayoutConstraint::Min(0))),
        panel_constraints(AppState::ArticleSelection, widths(), Some(44))
    );
    assert_eq!(None, panel_constraints(AppState::ArticleContentDistractionFree, widths(), None));
}

#[test]
fn the_status_bar_in_distraction_free_mode() {
    let icons = StatusIcons { left: ' ', right: '>', offline: 'x' };
    let style = TextStyle::new();
    assert!(status_bar_plan(AppState::ArticleContentDistractionFree, TooltipFlavor::Info, false, false, icons, style).is_none());
    let plan = status_bar_plan(AppState::ArticleContentDistractionFree, TooltipFlavor::Error, true, false, icons, style).unwrap();
    match plan.status {
        StatusCell::Offline(s) => assert_eq!("x ", s.content),
        _ => panic!("expected the offline icon"),
    }
    assert_eq!(" ", plan.left.content);
    assert_ne!(0, plan.left.style.add_modifier);
    let plan = status_bar_plan(AppState::FeedSelection, TooltipFlavor::Info, false, true, icons, style).unwrap();
    assert!(matches!(plan.status, StatusCell::Spinner(_)));
}

#[test]
fn the_message_loop_redraws_and_clears_on_request() {
    assert_eq!(100, frame_millis(10));
    let s = loop_start(10);
    let (s, a) = loop_step(s, LoopEvent::Round { fps: 10 });
    assert!(a.is_empty());
    let (s, a) = loop_step(s, LoopEvent::Round { fps: 20 });
    assert_eq!(vec![LoopAction::RestartRenderClock(50)], a);
    let (s, _) = loop_step(s, LoopEvent::Message { is_redraw: true, is_clear: false });
    let (s, a) = loop_step(s, LoopEvent::RenderTick);
    assert_eq!(vec![LoopAction::SendTick, LoopAction::Draw], a);
    let (s, _) = loop_step(s, LoopEvent::Message { is_redraw: false, is_clear: true });
    let (s, a) = loop_step(s, LoopEvent::ClearTick);
    assert_eq!(vec![LoopAction::ClearTerminal], a);
    assert!(s.redraw);
    assert!(can_process_batch(false, true));
    assert!(!can_process_batch(true, true));
}

#[test]
fn model_updates_and_sync_intervals() {
    assert!(caused_model_update(EventKind::SyncFinished));
    assert!(!caused_model_update(EventKind::Other));
    assert_eq!(Err("sync_every_minutes must at least be 1".to_owned()), validate_sync_interval(Some(0)));
    assert_eq!(Ok(()), validate_sync_interval(None));
    assert_eq!(Ok(()), validate_sync_interval(Some(5)));
}

#[test]
fn the_header_of_an_article() {
    let look = HeaderLook {
        header: TextStyle::new().add_modifier(MODIFIER_BOLD),
        paragraph: TextStyle::new(),
        highlighted: TextStyle::new(),
        video_icon: 'v',
        image_icon: 'i',
        audio_icon: 'a',
        piped_icon: 'p',
        bubble_left: '(',
        bubble_right: ')',
    };
    let fields = HeaderFields {
        title: Some("News &amp; more".to_owned()),
        feed_label: None,
        feed_id: "feed-7".to_owned(),
        tag_lines: vec![vec![StyledSpan::styled("tag".to_owned(), TextStyle::new())]],
        has_video: false,
        has_image: true,
        has_audio: false,
        author: Some("Ann".to_owned()),
        date_text: "2026-02-03".to_owned(),
        piped: true,
    };
    let lines = generate_header(Some(&fields), &look);
    assert_eq!(4, lines.len());
    let text = |l: &HeaderLine| -> String {
        match l {
            HeaderLine::Spans(s) => s.iter().map(|s| s.content.as_str()).collect(),
            HeaderLine::Text(t, _) => t.clone(),
        }
    };
    assert_eq!("2026-02-03  feed-7 (p)", text(&lines[0]));
    assert_eq!("News & more", text(&lines[1]));
    assert_eq!(" by Ann", text(&lines[2]));
    assert_eq!("tag (i)", text(&lines[3]));
    assert!(generate_header(None, &look).is_empty());
}

#[test]
fn the_content_shown() {
    assert_eq!(ContentChoice::Filtered, choose_content(true, true, true, true, true));
    assert_eq!(ContentChoice::Markdown, choose_content(false, true, true, true, true));
    assert_eq!(ContentChoice::HtmlAsText, choose_content(false, true, true, false, true));
    assert_eq!(ContentChoice::PlainText, choose_content(false, false, true, true, true));
    assert_eq!(ContentChoice::NoContent, choose_content(false, false, false, false, false));
}

#[test]
fn only_visible_rows_are_painted() {
    let text = || ContentRow::Text(vec![StyledSpan::styled("x".to_owned(), TextStyle::new())]);
    let rows = vec![text(), text(), ContentRow::Image { index: 0, height: 4 }, text(), text(), text()];
    let steps = paint_plan(&rows, &[10], 3, 40, 3);
    assert_eq!(vec![PaintStep::Image { row: 2, image: 0, columns: 10, rows: 4, x: 15, y: -1 }], steps);
    let steps = paint_plan(&rows, &[0], 0, 40, 10);
    assert_eq!(5, steps.len());
    assert_eq!(PaintStep::Text { row: 3, offset: 6 }, steps[2]);
    assert!(protocol_ready(Some((10, 4, 2)), 10, 4, 2));
    assert!(!protocol_ready(Some((10, 4, 1)), 10, 4, 2));
    assert!(!protocol_ready(None, 10, 4, 2));
}

#[test]
fn themes_are_found_by_name() {
    let entries = vec![
        Base16ThemeEntry { name: "ayu".to_owned(), source: Base16ThemeSource::Library { file: "a".to_owned() } },
        Base16ThemeEntry { name: "nord".to_owned(), source: Base16ThemeSource::Library { file: "n".to_owned() } },
    ];
    assert_eq!(Ok(1), find_theme(&entries, "nord"));
    assert_eq!(Err("theme with name x does not exist".to_owned()), find_theme(&entries, "x"));
}

#[test]
fn markdown_for_content_and_pipes() {
    let md = markdown_content(None, true, Some("<h1>Hello</h1>")).unwrap();
    assert_eq!(Some("# Hello".to_owned()), md);
    assert_eq!(Ok(Some("kept".to_owned())), markdown_content(Some("kept".to_owned()), true, Some("<p>x</p>")));
    assert_eq!(Ok(None), markdown_content(None, false, Some("<p>x</p>")));
    assert_eq!(Ok("".to_owned()), pipe_input(PipeTarget::Null, Some("<p>x</p>")));
    assert_eq!(Ok("no scraped content available".to_owned()), pipe_input(PipeTarget::Html, None));
    assert_eq!(Ok("# Hi".to_owned()), pipe_input(PipeTarget::Markdown, Some("<h1>Hi</h1>")));
    assert_eq!(Ok(None), pipe_markdown(PipeTarget::Null, "x".to_owned()));
    assert_eq!(Ok(Some("plain".to_owned())), pipe_markdown(PipeTarget::Markdown, "plain".to_owned()));
    assert_eq!(Ok(Some("**b**".to_owned())), pipe_markdown(PipeTarget::Html, "<b>b</b>".to_owned()));
    assert_eq!(None, pipe_error_output(String::new()));
    assert_eq!(Some("e".to_owned()), pipe_error_output("e".to_owned()));
}

#[test]
fn service_error_messages() {
    assert_eq!("Database error (locked).", error_message(&ServiceError::Database("locked".to_owned())));
    assert_eq!("Invalid URL format: bad", error_message(&ServiceError::Url("bad".to_owned())));
    assert_eq!("Cannot perform this operation while offline.", error_message(&ServiceError::Offline));
    assert_eq!(Ok(()), check_image_size("u", 8388608));
    assert_eq!(
        Err("u is 8388609 bytes, over the limit of 8388608".to_owned()),
        check_image_size("u", 8388609)
    );
}

#[test]
fn ready_images_are_drawn_and_the_others_requested() {
    let steps = vec![
        PaintStep::Text { row: 0, offset: 0 },
        PaintStep::Image { row: 1, image: 0, columns: 20, rows: 5, x: 10, y: 1 },
        PaintStep::Image { row: 2, image: 1, columns: 30, rows: 6, x: 5, y: 6 },
        PaintStep::Image { row: 3, image: 2, columns: 30, rows: 6, x: 5, y: 12 },
    ];
    let built = vec![Some((20, 5, 3)), Some((30, 6, 2))];
    let actions = image_actions(&steps, &built, 3);
    assert_eq!(
        vec![
            ImageAction::Draw(steps[1]),
            ImageAction::Request { image: 1, columns: 30, rows: 6 },
            ImageAction::Request { image: 2, columns: 30, rows: 6 },
        ],
        actions
    );
}

#[test]
fn image_responses_are_checked_before_reading() {
    assert_eq!(Ok(()), check_image_response("https://a/i.png", true, "200 OK", None));
    assert_eq!(Ok(()), check_image_response("https://a/i.png", true, "200 OK", Some(8_388_608)));
    assert_eq!(
        Err("https://a/i.png returned HTTP status 404 Not Found".to_owned()),
        check_image_response("https://a/i.png", false, "404 Not Found", Some(10))
    );
    assert_eq!(
        Err("https://a/i.png is 8388609 bytes, over the limit of 8388608".to_owned()),
        check_image_response("https://a/i.png", true, "200 OK", Some(8_388_609))
    );
}

#[test]
fn very_tall_documents_are_painted_too() {
    let mut rows: Vec<ContentRow> = (0..40_000).map(|_| ContentRow::Image { index: 0, height: 65_535 }).collect();
    rows.insert(0, ContentRow::Text(vec![StyledSpan::styled("top".to_owned(), TextStyle::new())]));
    let steps = paint_plan(&rows, &[10], 0, 40, 5);
    assert_eq!(2, steps.len());
    assert_eq!(PaintStep::Text { row: 0, offset: 0 }, steps[0]);
}
