//! Markdown made from article HTML, for the content pane and for pipe commands.

use vstd::prelude::*;

use crate::utils::option_chars;

verus! {

/// What `htmd::convert` makes of `html`: its markdown, or `None` where it fails.
pub uninterp spec fn html_to_markdown(html: Seq<char>) -> Option<Seq<char>>;

/// Calls `htmd::convert` (a converter with the default options); its result depends on `html`
/// alone, and nothing more is claimed of it.
#[verifier::external_body]
fn convert_html(html: &str) -> (r: Option<String>)
    ensures
        option_chars(r) == html_to_markdown(html@),
{
    match htmd::convert(html) {
        Ok(md) => Some(md),
        Err(_) => None,
    }
}

/// The HTML could not be turned into markdown.
#[derive(Debug, PartialEq, Eq)]
pub struct MarkdownError;

/// The markdown of the article shown: what is there already, or, when there is none, markdown
/// is preferred and there is scraped content, that content converted.
pub fn markdown_content(current: Option<String>, prefers_markdown: bool, scraped: Option<&str>) -> (r: Result<Option<String>, MarkdownError>)
    ensures
        match scraped {
            Some(html) if current is None && prefers_markdown => match html_to_markdown(html@) {
                Some(md) => r matches Ok(Some(m)) && m@ == md,
                None => r is Err,
            },
            _ => r matches Ok(c) && option_chars(c) == option_chars(current),
        },
{
    match (&current, scraped) {
        (None, Some(html)) if prefers_markdown => match convert_html(html) {
            Some(md) => Ok(Some(md)),
            None => Err(MarkdownError),
        },
        _ => Ok(current),
    }
}

/// What a pipe command is given or what its output is taken as.
#[derive(Debug, Clone, Copy, PartialEq, Eq, Structural)]
pub enum PipeTarget {
    Null,
    Html,
    Markdown,
}

/// The text put in front of a pipe command for an article whose scraped content is `scraped`:
/// nothing, the HTML (a notice when there is none), or the HTML as markdown.
pub open spec fn spec_pipe_input(target: PipeTarget, scraped: Option<Seq<char>>) -> Option<Seq<char>> {
    let html = match scraped {
        Some(h) => h,
        None => "no scraped content available"@,
    };
    match target {
        PipeTarget::Null => Some(Seq::empty()),
        PipeTarget::Html => Some(html),
        PipeTarget::Markdown => html_to_markdown(html),
    }
}

/// The text put in front of a pipe command, or `MarkdownError` when the HTML cannot be
/// converted.
pub fn pipe_input(target: PipeTarget, scraped: Option<&str>) -> (r: Result<String, MarkdownError>)
    ensures
        match spec_pipe_input(target, match scraped { Some(s) => Some(s@), None => None }) {
            Some(t) => r matches Ok(s) && s@ == t,
            None => r is Err,
        },
{
    proof {
        reveal_strlit("no scraped content available");
    }
    let html: &str = match scraped {
        Some(h) => h,
        None => "no scraped content available",
    };
    match target {
        PipeTarget::Null => Ok(String::new()),
        PipeTarget::Html => Ok(html.to_owned()),
        PipeTarget::Markdown => match convert_html(html) {
            Some(md) => Ok(md),
            None => Err(MarkdownError),
        },
    }
}

/// How the output of a pipe command is shown: not at all, converted from HTML, or as the
/// markdown it is.
pub open spec fn spec_pipe_markdown(target: PipeTarget, output: Seq<char>) -> Result<Option<Seq<char>>, ()> {
    match target {
        PipeTarget::Null => Ok(None),
        PipeTarget::Html => match html_to_markdown(output) {
            Some(md) => Ok(Some(md)),
            None => Err(()),
        },
        PipeTarget::Markdown => Ok(Some(output)),
    }
}

/// The markdown shown for the output of a pipe command.
pub fn pipe_markdown(target: PipeTarget, output: String) -> (r: Result<Option<String>, MarkdownError>)
    ensures
        match spec_pipe_markdown(target, output@) {
            Ok(m) => r matches Ok(s) && option_chars(s) == m,
            Err(_) => r is Err,
        },
{
    match target {
        PipeTarget::Null => Ok(None),
        PipeTarget::Html => match convert_html(output.as_str()) {
            Some(md) => Ok(Some(md)),
            None => Err(MarkdownError),
        },
        PipeTarget::Markdown => Ok(Some(output)),
    }
}

/// The error output of a pipe command, unless it is empty.
pub fn pipe_error_output(stderr: String) -> (r: Option<String>)
    ensures
        option_chars(r) == if stderr@.len() == 0 { None } else { Some(stderr@) },
{
    if stderr.as_str().is_empty() {
        None
    } else {
        Some(stderr)
    }
}

} // verus!
