//! The default configuration: every setting a configuration file may leave out, with its value.

use vstd::prelude::*;

use crate::config::{ArticleContentType, ArticleScope, ContentFetcher, HintType};
use crate::dimension::Dimension;

verus! {

/// The family of operating systems the program runs on, which decides how enclosures are opened.
#[derive(Debug, Clone, Copy, PartialEq, Eq, Structural)]
pub enum TargetOs {
    MacOs,
    /// Linux and NetBSD.
    Linux,
    Windows,
}

/// The command that opens an enclosure by default on `os`.
pub open spec fn spec_default_enclosure_command(os: TargetOs) -> Seq<char> {
    match os {
        TargetOs::MacOs => "open {url}"@,
        TargetOs::Linux => "xdg-open {url}"@,
        TargetOs::Windows => "cmd /c start {url}"@,
    }
}

/// The command that opens an enclosure by default on `os`.
pub fn default_enclosure_command(os: TargetOs) -> (c: String)
    ensures
        c@ == spec_default_enclosure_command(os),
{
    match os {
        TargetOs::MacOs => "open {url}".to_owned(),
        TargetOs::Linux => "xdg-open {url}".to_owned(),
        TargetOs::Windows => "cmd /c start {url}".to_owned(),
    }
}

/// The settings of the configuration that are plain values. The theme, icons, borders, key
/// bindings (see `key_bindings`), sort order, feed list, share targets and statistics formats
/// have their own defaults.
pub struct ConfigDefaults {
    /// How many frames are drawn per second.
    pub refresh_fps: u64,
    /// How long a network request may take.
    pub network_timeout_seconds: u64,
    /// How long articles are kept.
    pub keep_articles_days: u16,
    /// How many articles stay visible below the selected one.
    pub articles_after_selection: usize,
    /// How long the selection must rest before a thumbnail is fetched.
    pub thumbnail_fetch_debounce_millis: u64,
    /// The widest the article text is laid out.
    pub text_max_width: u16,
    /// The most rows an inline image takes.
    pub content_image_max_height: u16,
    /// How long the selection must rest before content images are fetched.
    pub content_image_debounce_millis: u64,
    /// How often to sync on its own; never by default.
    pub sync_every_minutes: Option<u64>,
    /// Whether a notification follows a sync.
    pub notify_after_sync: bool,
    /// Whether the mouse is captured.
    pub mouse_support: bool,
    /// Whether the configuration is reloaded when its file changes.
    pub auto_reload_config: bool,
    /// Whether panels cast shadows.
    pub shadows: bool,
    /// Whether the article list shows the selected position.
    pub article_list_show_position: bool,
    /// Whether the content shows the scroll position.
    pub content_show_position: bool,
    /// Whether full content is fetched when an article is opened.
    pub auto_scrape: bool,
    /// Whether thumbnails are shown.
    pub thumbnail_show: bool,
    /// Whether thumbnails are resized to their box.
    pub thumbnail_resize: bool,
    /// Whether images are shown inside the content.
    pub content_show_images: bool,
    /// Whether the distraction-free view shows the header.
    pub zen_mode_show_header: bool,
    /// Whether link URLs are shown in the content.
    pub content_show_urls: bool,
    /// Whether the default sort order is left out of the list title.
    pub hide_default_sort_order: bool,
    pub feeds_label: String,
    pub feed_label: String,
    pub last_synced_label: String,
    pub category_label: String,
    pub categories_label: String,
    pub tags_label: String,
    pub tag_label: String,
    pub query_label: String,
    pub article_table: String,
    pub date_format: String,
    /// The scope of the article list.
    pub article_scope: ArticleScope,
    /// The scope of the feed list counts.
    pub feed_list_scope: ArticleScope,
    /// The form content is preferably shown in.
    pub content_preferred_type: ArticleContentType,
    /// What fetches full content.
    pub content_fetcher: ContentFetcher,
    /// The kind of link hints.
    pub hint_type: HintType,
    /// The width of thumbnails.
    pub thumbnail_width: Dimension,
    /// The height of thumbnails.
    pub thumbnail_height: Dimension,
    /// The width of the focused feed list.
    pub feed_list_focused_width: Dimension,
    /// The width of the focused article list.
    pub article_list_focused_width: Dimension,
    /// The height of the focused article list.
    pub article_list_focused_height: Dimension,
    /// The height of the focused content.
    pub article_content_focused_height: Dimension,
    /// The command that opens enclosures of any kind.
    pub enclosure_command: String,
    /// A command run after a sync in place of the notification.
    pub notify_after_sync_cmd: Option<String>,
    /// The command that opens video enclosures.
    pub video_enclosure_command: Option<String>,
    /// The command that opens audio enclosures.
    pub audio_enclosure_command: Option<String>,
    /// The command that opens image enclosures.
    pub image_enclosure_command: Option<String>,
    /// The commands run at start-up, as command lines.
    pub startup_commands: Vec<String>,
    /// The commands run after a sync, as command lines.
    pub after_sync_commands: Vec<String>,
}

/// The default configuration on `os`: what every setting is when the configuration file does
/// not set it. Mouse support is off, link hints are letters, the article list shows unread
/// articles, and there is no automatic sync.
pub fn config_defaults(os: TargetOs) -> (c: ConfigDefaults)
    ensures
        c.refresh_fps == 10,
        c.network_timeout_seconds == 60,
        c.keep_articles_days == 30,
        c.articles_after_selection == 3,
        c.thumbnail_fetch_debounce_millis == 500,
        c.text_max_width == 66,
        c.content_image_max_height == 12,
        c.content_image_debounce_millis == 500,
        c.sync_every_minutes is None,
        c.notify_after_sync,
        !c.mouse_support,
        c.auto_reload_config,
        c.shadows,
        c.article_list_show_position,
        c.content_show_position,
        c.auto_scrape,
        c.thumbnail_show,
        c.thumbnail_resize,
        c.content_show_images,
        !c.zen_mode_show_header,
        !c.content_show_urls,
        c.hide_default_sort_order,
        c.feeds_label@ == "{icon} All {unread_count}"@,
        c.feed_label@ == "{icon} {label} {unread_count}"@,
        c.last_synced_label@ == "{icon} Last Synced"@,
        c.category_label@ == "{icon} {label} {unread_count}"@,
        c.categories_label@ == "{icon} Categories {unread_count}"@,
        c.tags_label@ == "{icon} Tags {unread_count}"@,
        c.tag_label@ == "{icon} {label} {unread_count}"@,
        c.query_label@ == "{icon} {label}"@,
        c.article_table@ == "{flagged},{read},{marked},{tag_icons},{age},{title}"@,
        c.date_format@ == "%m/%d %H:%M"@,
        c.article_scope == ArticleScope::Unread,
        c.feed_list_scope == ArticleScope::All,
        c.content_preferred_type == ArticleContentType::Markdown,
        c.content_fetcher == ContentFetcher::Readability,
        c.hint_type == HintType::Letters,
        c.thumbnail_width == Dimension::Length(14),
        c.thumbnail_height == Dimension::Length(5),
        c.feed_list_focused_width == Dimension::Percentage(25),
        c.article_list_focused_width == Dimension::Percentage(75),
        c.article_list_focused_height == Dimension::Percentage(20),
        c.article_content_focused_height == Dimension::Percentage(80),
        c.enclosure_command@ == spec_default_enclosure_command(os),
        c.notify_after_sync_cmd is None,
        c.video_enclosure_command is None,
        c.audio_enclosure_command is None,
        c.image_enclosure_command is None,
        c.startup_commands@.len() == 0,
        c.after_sync_commands@.len() == 0,
{
    ConfigDefaults {
        refresh_fps: 10,
        network_timeout_seconds: 60,
        keep_articles_days: 30,
        articles_after_selection: 3,
        thumbnail_fetch_debounce_millis: 500,
        text_max_width: 66,
        content_image_max_height: 12,
        content_image_debounce_millis: 500,
        sync_every_minutes: None,
        notify_after_sync: true,
        mouse_support: false,
        auto_reload_config: true,
        shadows: true,
        article_list_show_position: true,
        content_show_position: true,
        auto_scrape: true,
        thumbnail_show: true,
        thumbnail_resize: true,
        content_show_images: true,
        zen_mode_show_header: false,
        content_show_urls: false,
        hide_default_sort_order: true,
        feeds_label: "{icon} All {unread_count}".to_owned(),
        feed_label: "{icon} {label} {unread_count}".to_owned(),
        last_synced_label: "{icon} Last Synced".to_owned(),
        category_label: "{icon} {label} {unread_count}".to_owned(),
        categories_label: "{icon} Categories {unread_count}".to_owned(),
        tags_label: "{icon} Tags {unread_count}".to_owned(),
        tag_label: "{icon} {label} {unread_count}".to_owned(),
        query_label: "{icon} {label}".to_owned(),
        article_table: "{flagged},{read},{marked},{tag_icons},{age},{title}".to_owned(),
        date_format: "%m/%d %H:%M".to_owned(),
        article_scope: ArticleScope::Unread,
        feed_list_scope: ArticleScope::All,
        content_preferred_type: ArticleContentType::Markdown,
        content_fetcher: ContentFetcher::Readability,
        hint_type: HintType::Letters,
        thumbnail_width: Dimension::Length(14),
        thumbnail_height: Dimension::Length(5),
        feed_list_focused_width: Dimension::Percentage(25),
        article_list_focused_width: Dimension::Percentage(75),
        article_list_focused_height: Dimension::Percentage(20),
        article_content_focused_height: Dimension::Percentage(80),
        enclosure_command: default_enclosure_command(os),
        notify_after_sync_cmd: None,
        video_enclosure_command: None,
        audio_enclosure_command: None,
        image_enclosure_command: None,
        startup_commands: Vec::new(),
        after_sync_commands: Vec::new(),
    }
}

} // verus!
