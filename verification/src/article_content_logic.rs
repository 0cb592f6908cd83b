//! The decisions around the article shown: which extractor fetches its content, when its
//! thumbnail is fetched, and the commands and texts made from its fields.

use vstd::prelude::*;

use crate::article_cells::decimal;
use crate::config::ContentFetcher;
use crate::notify::{replace_all, replace_str};
use crate::unicode::{is_whitespace, is_ws, push_char, push_str};
use crate::utils::{command_prepared, option_chars, plain_words_stay, prepare_command, vars_view, CommandError, ShellEnv};

verus! {

/// `s` without carriage returns and line feeds.
pub open spec fn spec_clean_string(s: Seq<char>) -> Seq<char> {
    replace_all(replace_all(s, "\r"@, ""@), "\n"@, ""@)
}

/// Removes the carriage returns and line feeds of `s`.
pub fn clean_string(s: &str) -> (r: String)
    ensures
        r@ == spec_clean_string(s@),
{
    proof {
        reveal_strlit("\r");
        reveal_strlit("\n");
        reveal_strlit("");
    }
    let without_cr = replace_str(s, "\r", "");
    replace_str(without_cr.as_str(), "\n", "")
}

/// Whether every character of `s` is white space (so that it trims to nothing).
pub open spec fn is_blank(s: Seq<char>) -> bool {
    forall|i: int| 0 <= i < s.len() ==> is_ws(#[trigger] s[i])
}

/// Whether `s` is only white space.
pub fn blank(s: &str) -> (b: bool)
    ensures
        b == is_blank(s@),
{
    let mut all = true;
    for c in it: s.chars()
        invariant
            it.seq() == s@,
            all == (forall|j: int| 0 <= j < it.index() ==> is_ws(#[trigger] s@[j])),
    {
        if !is_whitespace(c) {
            all = false;
        }
    }
    all
}

/// The article's own value if it has one, else the extracted one, and nothing when that is
/// blank.
pub open spec fn spec_merge_field(own: Option<Seq<char>>, extracted: Option<Seq<char>>) -> Option<Seq<char>> {
    let chosen = match own {
        Some(t) => Some(t),
        None => extracted,
    };
    match chosen {
        Some(t) => if is_blank(t) { None } else { Some(t) },
        None => None,
    }
}

/// The title (or author) of an article once its content is extracted: the article's own, else
/// the one the extractor found, left out when it is blank.
pub fn merge_field(own: Option<String>, extracted: Option<String>) -> (r: Option<String>)
    ensures
        option_chars(r) == spec_merge_field(option_chars(own), option_chars(extracted)),
{
    let chosen = match own {
        Some(t) => Some(t),
        None => extracted,
    };
    match chosen {
        Some(t) => if blank(t.as_str()) { None } else { Some(t) },
        None => None,
    }
}

/// Whether the user has yet to be told that extraction fell back to the other scraper: true
/// exactly once, after which the flag is set.
pub fn take_extract_fallback_notification(notified: &mut bool) -> (tell: bool)
    ensures
        tell == !*old(notified),
        *final(notified),
        *final(notified) == notified_after(*old(notified), 1),
{
    let was = *notified;
    *notified = true;
    !was
}

/// The flag after `calls` calls of `take_extract_fallback_notification`, starting from `start`:
/// each call leaves it set, whatever it was.
pub open spec fn notified_after(start: bool, calls: nat) -> bool {
    if calls == 0 {
        start
    } else {
        true
    }
}

/// The user is told of the fallback once: from a fresh model, whose flag is not set, the call
/// made after `j` earlier calls answers `true` exactly when `j` is 0 (one more call from the flag
/// after `j` calls gives the flag after `j + 1`).
pub proof fn law_fallback_told_once(j: nat)
    ensures
        notified_after(notified_after(false, j), 1) == notified_after(false, j + 1),
        !notified_after(false, j) == (j == 0),
{
}

/// How the content of the selected article is fetched.
#[derive(Debug, PartialEq, Eq)]
pub enum ScrapePlan {
    /// Nothing: there is no article, or its content is already there.
    Nothing,
    /// Fetch the page at this URL and extract its readable part.
    FetchHtml(String),
    /// Let the news service's scraper fetch it.
    FetchFull,
}

/// Decides how the content of the selected article is fetched: with the Readability extractor
/// when it is configured and the article has a URL, else with the news service's scraper.
pub fn scrape_plan(has_article: bool, has_content: bool, fetcher: ContentFetcher, url: Option<&str>) -> (p: ScrapePlan)
    ensures
        !has_article || has_content ==> p == ScrapePlan::Nothing,
        has_article && !has_content ==> match p {
            ScrapePlan::FetchHtml(u) => fetcher == ContentFetcher::Readability && (url matches Some(v) && u@ == v@),
            ScrapePlan::FetchFull => !(fetcher == ContentFetcher::Readability && url is Some),
            ScrapePlan::Nothing => false,
        },
{
    if !has_article || has_content {
        return ScrapePlan::Nothing;
    }
    match url {
        Some(u) => {
            if fetcher == ContentFetcher::Readability {
                ScrapePlan::FetchHtml(u.to_owned())
            } else {
                ScrapePlan::FetchFull
            }
        },
        None => ScrapePlan::FetchFull,
    }
}

/// Decides the retry with the news service's scraper after the Readability extractor failed:
/// the full article is fetched when an article is selected and its content is not there yet,
/// and nothing is done otherwise.
pub fn fallback_scrape_plan(has_article: bool, has_content: bool) -> (p: ScrapePlan)
    ensures
        p == (if has_article && !has_content { ScrapePlan::FetchFull } else { ScrapePlan::Nothing }),
{
    if has_content || !has_article {
        ScrapePlan::Nothing
    } else {
        ScrapePlan::FetchFull
    }
}

/// What is known about the thumbnail of the selected article.
#[derive(Debug, Clone, Copy, PartialEq, Eq, Structural)]
pub struct ThumbnailState {
    /// Whether the last fetch succeeded, if there was one.
    pub fetch_successful: Option<bool>,
    pub fetch_running: bool,
}

/// Whether the content images of the selected article may be fetched: no article has been
/// selected yet, or the time since the selection (`since_selected_nanos`, in nanoseconds) has
/// reached the debounce of `debounce_millis` milliseconds.
pub fn content_image_debounce_elapsed(since_selected_nanos: Option<u128>, debounce_millis: u64) -> (b: bool)
    ensures
        b == match since_selected_nanos {
            Some(d) => d >= debounce_millis as int * 1000000,
            None => true,
        },
{
    match since_selected_nanos {
        Some(d) => d >= debounce_millis as u128 * 1000000,
        None => true,
    }
}

/// What the thumbnail decision reads besides the state.
#[derive(Debug, Clone, Copy)]
pub struct ThumbnailTiming {
    /// Whether thumbnails are shown at all.
    pub thumbnail_show: bool,
    pub has_article: bool,
    pub has_thumbnail_url: bool,
    /// How long ago (in nanoseconds) the current article was selected, if it was.
    pub since_selected_nanos: Option<u128>,
    /// How long (in nanoseconds) the previous article stayed selected, if there was one.
    pub previous_stay_nanos: Option<u128>,
    /// The debounce of thumbnail fetches, in milliseconds.
    pub debounce_millis: u64,
}

/// Whether the thumbnail of the selected article is to be fetched now, and the success flag
/// afterwards: not while thumbnails are hidden, a fetch runs, no article is selected, the article
/// has no thumbnail (which counts as a failure) or the last fetch failed; otherwise once the user
/// has stayed on an article longer than the debounce, the previous or the current one.
pub open spec fn spec_should_fetch_thumbnail(s: ThumbnailState, t: ThumbnailTiming) -> (bool, Option<bool>) {
    let debounce: int = t.debounce_millis as int * 1000000;
    if !t.thumbnail_show || s.fetch_running || !t.has_article {
        (false, s.fetch_successful)
    } else if !t.has_thumbnail_url {
        (false, Some(false))
    } else if s.fetch_successful == Some(false) {
        (false, s.fetch_successful)
    } else {
        let long_enough_current = match t.since_selected_nanos {
            Some(d) => d >= debounce,
            None => true,
        };
        (match t.previous_stay_nanos {
            None => true,
            Some(d) => d > debounce || long_enough_current,
        }, s.fetch_successful)
    }
}

/// Decides whether to fetch the thumbnail of the selected article now.
pub fn should_fetch_thumbnail(s: &mut ThumbnailState, t: ThumbnailTiming) -> (fetch: bool)
    ensures
        fetch == spec_should_fetch_thumbnail(*old(s), t).0,
        final(s).fetch_successful == spec_should_fetch_thumbnail(*old(s), t).1,
        final(s).fetch_running == old(s).fetch_running,
{
    if !t.thumbnail_show || s.fetch_running || !t.has_article {
        return false;
    }
    if !t.has_thumbnail_url {
        s.fetch_successful = Some(false);
        return false;
    }
    let failed = match s.fetch_successful {
        Some(ok) => !ok,
        None => false,
    };
    if failed {
        return false;
    }
    let debounce: u128 = t.debounce_millis as u128 * 1000000;
    let long_enough_current = match t.since_selected_nanos {
        Some(d) => d >= debounce,
        None => true,
    };
    match t.previous_stay_nanos {
        None => true,
        Some(d) => d > debounce || long_enough_current,
    }
}

/// Starts a thumbnail fetch when the article has a thumbnail, and notes a failure otherwise;
/// whether a fetch was started.
pub fn start_fetch_thumbnail(s: &mut ThumbnailState, has_article: bool, has_thumbnail_url: bool) -> (started: bool)
    ensures
        started == (has_article && has_thumbnail_url),
        started ==> final(s).fetch_running && final(s).fetch_successful == old(s).fetch_successful,
        !started ==> final(s).fetch_successful == Some(false) && final(s).fetch_running == old(s).fetch_running,
{
    if !has_article || !has_thumbnail_url {
        s.fetch_successful = Some(false);
        return false;
    }
    s.fetch_running = true;
    true
}

/// Notes that the thumbnail fetch ended, with or without a thumbnail.
pub fn on_thumbnail_fetch_finished(s: &mut ThumbnailState, got_thumbnail: bool)
    ensures
        !final(s).fetch_running,
        final(s).fetch_successful == Some(got_thumbnail),
{
    s.fetch_running = false;
    s.fetch_successful = Some(got_thumbnail);
}

/// Notes that the thumbnail fetch failed.
pub fn on_thumbnail_fetch_failed(s: &mut ThumbnailState)
    ensures
        !final(s).fetch_running,
        final(s).fetch_successful == Some(false),
{
    s.fetch_successful = Some(false);
    s.fetch_running = false;
}

/// `s`, or nothing when it is `None`.
pub open spec fn or_empty(s: Option<Seq<char>>) -> Seq<char> {
    match s {
        Some(t) => t,
        None => Seq::empty(),
    }
}

/// The characters of an optional string slice.
pub open spec fn opt_chars(s: Option<&str>) -> Option<Seq<char>> {
    match s {
        Some(t) => Some(t@),
        None => None,
    }
}

/// The command an article is piped through: the configured one with `{date}`, `{title}`,
/// `{url}`, `{author}` and `{feed}` replaced, in that order, by the article's fields (nothing
/// for a field it lacks).
pub open spec fn spec_pipe_command(
    template: Seq<char>,
    date: Seq<char>,
    title: Option<Seq<char>>,
    url: Option<Seq<char>>,
    author: Option<Seq<char>>,
    feed: Option<Seq<char>>,
) -> Seq<char> {
    let a = replace_all(template, "{date}"@, date);
    let b = replace_all(a, "{title}"@, or_empty(title));
    let c = replace_all(b, "{url}"@, or_empty(url));
    let d = replace_all(c, "{author}"@, or_empty(author));
    replace_all(d, "{feed}"@, or_empty(feed))
}

/// `s`, or the empty string.
fn str_or_empty<'a>(s: Option<&'a str>) -> (r: &'a str)
    ensures
        r@ == or_empty(opt_chars(s)),
{
    match s {
        Some(t) => t,
        None => {
            proof {
                reveal_strlit("");
            }
            ""
        },
    }
}

/// The command an article is piped through, with its fields filled in.
pub fn pipe_command(
    template: &str,
    date: &str,
    title: Option<&str>,
    url: Option<&str>,
    author: Option<&str>,
    feed: Option<&str>,
) -> (r: String)
    ensures
        r@ == spec_pipe_command(template@, date@, opt_chars(title), opt_chars(url), opt_chars(author), opt_chars(feed)),
{
    proof {
        reveal_strlit("{date}");
        reveal_strlit("{title}");
        reveal_strlit("{url}");
        reveal_strlit("{author}");
        reveal_strlit("{feed}");
    }
    let a = replace_str(template, "{date}", date);
    let b = replace_str(a.as_str(), "{title}", str_or_empty(title));
    let c = replace_str(b.as_str(), "{url}", str_or_empty(url));
    let d = replace_str(c.as_str(), "{author}", str_or_empty(author));
    replace_str(d.as_str(), "{feed}", str_or_empty(feed))
}

/// The kind of an enclosure.
#[derive(Debug, Clone, Copy, PartialEq, Eq, Structural)]
pub enum EnclosureKind {
    Audio,
    Image,
    Video,
}

/// The configured commands that open enclosures.
pub struct EnclosureCommands {
    pub audio: Option<String>,
    pub image: Option<String>,
    pub video: Option<String>,
    /// The command for a kind that has none of its own.
    pub default: String,
}

/// The command line that opens an enclosure: the command of its kind (else the default one),
/// with `{url}`, `{type}` and `{mime}` replaced, in that order (`*/*` for an unknown MIME type).
pub open spec fn spec_enclosure_command(
    cmds: EnclosureCommands,
    kind: EnclosureKind,
    kind_label: Seq<char>,
    url: Seq<char>,
    mime: Option<Seq<char>>,
) -> Seq<char> {
    let own = match kind {
        EnclosureKind::Audio => option_chars(cmds.audio),
        EnclosureKind::Image => option_chars(cmds.image),
        EnclosureKind::Video => option_chars(cmds.video),
    };
    let template = match own {
        Some(c) => c,
        None => cmds.default@,
    };
    let mime_text = match mime {
        Some(m) => m,
        None => "*/*"@,
    };
    replace_all(replace_all(replace_all(template, "{url}"@, url), "{type}"@, kind_label), "{mime}"@, mime_text)
}

/// The program and arguments that open an enclosure of kind `kind` (written `kind_label`) at
/// `url`, its command line expanded in `env`.
pub fn enclosure_command(
    cmds: &EnclosureCommands,
    kind: EnclosureKind,
    kind_label: &str,
    url: &str,
    mime: Option<&str>,
    env: &ShellEnv,
) -> (r: Result<(String, Vec<String>), CommandError>)
    ensures
        command_prepared(spec_enclosure_command(*cmds, kind, kind_label@, url@, opt_chars(mime)), vars_view(env.vars@), option_chars(env.home), r),
        plain_words_stay(spec_enclosure_command(*cmds, kind, kind_label@, url@, opt_chars(mime)), r),
{
    proof {
        reveal_strlit("{url}");
        reveal_strlit("{type}");
        reveal_strlit("{mime}");
        reveal_strlit("*/*");
    }
    let own = match kind {
        EnclosureKind::Audio => &cmds.audio,
        EnclosureKind::Image => &cmds.image,
        EnclosureKind::Video => &cmds.video,
    };
    let template: &str = match own {
        Some(c) => c.as_str(),
        None => cmds.default.as_str(),
    };
    let mime_text: &str = match mime {
        Some(m) => m,
        None => "*/*",
    };
    let a = replace_str(template, "{url}", url);
    let b = replace_str(a.as_str(), "{type}", kind_label);
    let line = replace_str(b.as_str(), "{mime}", mime_text);
    prepare_command(line.as_str(), env)
}

/// The integer `n` in decimal, with a minus sign when it is negative.
pub open spec fn i32_text(n: i32) -> Seq<char> {
    if n < 0 { seq!['-'] + decimal((-(n as int)) as nat) } else { decimal(n as nat) }
}

/// The text shown after a pipe command ended: nothing new when it printed no markdown,
/// succeeded and wrote nothing to its error output; otherwise its markdown, followed by the exit
/// code when it failed and by its error output when it wrote any.
pub open spec fn spec_pipe_output(markdown: Option<Seq<char>>, success: bool, code: Option<i32>, error: Option<Seq<char>>) -> Option<Seq<char>> {
    let error_empty = match error {
        Some(e) => e.len() == 0,
        None => true,
    };
    if markdown is None && success && error_empty {
        None
    } else {
        let base = or_empty(markdown);
        let with_code = if !success {
            let code_text = match code {
                Some(c) => i32_text(c),
                None => "unknown error code"@,
            };
            base + "\n---\n\nProcess returned with error ("@ + code_text + ")\n                "@
        } else {
            base
        };
        Some(match error {
            Some(e) => with_code + "\n---\n \n# stderr output\n\n"@ + e + "\n                "@,
            None => with_code,
        })
    }
}

/// The text shown after a pipe command ended, or `None` when there is nothing to show.
pub fn pipe_output(markdown: Option<&str>, success: bool, code: Option<i32>, error: Option<&str>) -> (r: Option<String>)
    ensures
        option_chars(r) == spec_pipe_output(opt_chars(markdown), success, code, opt_chars(error)),
{
    proof {
        reveal_strlit("unknown error code");
        reveal_strlit("\n---\n\nProcess returned with error (");
        reveal_strlit(")\n                ");
        reveal_strlit("\n---\n \n# stderr output\n\n");
        reveal_strlit("\n                ");
    }
    let error_empty = match error {
        Some(e) => e.is_empty(),
        None => true,
    };
    if markdown.is_none() && success && error_empty {
        return None;
    }
    let mut out = String::new();
    match markdown {
        Some(m) => push_str(&mut out, m),
        None => {},
    }
    assert(out@ =~= or_empty(opt_chars(markdown)));
    if !success {
        push_str(&mut out, "\n---\n\nProcess returned with error (");
        match code {
            Some(c) => {
                if c < 0 {
                    push_char(&mut out, '-');
                    let magnitude: u64 = (0i64 - c as i64) as u64;
                    crate::article_cells::push_decimal(&mut out, magnitude);
                } else {
                    crate::article_cells::push_decimal(&mut out, c as u64);
                }
            },
            None => push_str(&mut out, "unknown error code"),
        }
        push_str(&mut out, ")\n                ");
    }
    match error {
        Some(e) => {
            push_str(&mut out, "\n---\n \n# stderr output\n\n");
            push_str(&mut out, e);
            push_str(&mut out, "\n                ");
        },
        None => {},
    }
    Some(out)
}

} // verus!
