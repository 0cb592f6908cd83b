//! Extracting the readable body of a fetched article page.

use vstd::prelude::*;

use crate::article_content_logic::{blank, is_blank};
use crate::unicode::push_str;
use crate::utils::option_chars;

verus! {

/// The error of the crate `libreadability`, carried as is.
#[verifier::external_type_specification]
#[verifier::external_body]
pub struct ExReadabilityError(libreadability::Error);

/// What the Readability extractor found in a page, as far as this library reads it.
pub struct ReadableArticle {
    pub title: String,
    pub byline: String,
    /// The cleaned article HTML, with absolute image URLs.
    pub content: String,
    /// The article's text without markup.
    pub text_content: String,
    /// The length of the text, as the extractor counts it.
    pub length: usize,
}

/// The abstract value of what the extractor found.
pub struct ReadableView {
    pub title: Seq<char>,
    pub byline: Seq<char>,
    pub content: Seq<char>,
    pub text_content: Seq<char>,
    pub length: usize,
}

impl ReadableArticle {
    /// The abstract value of what the extractor found.
    pub open spec fn view(&self) -> ReadableView {
        ReadableView {
            title: self.title@,
            byline: self.byline@,
            content: self.content@,
            text_content: self.text_content@,
            length: self.length,
        }
    }
}

/// What `libreadability::extract` makes of the page `html` found at `url`: what it extracted,
/// or `None` where it fails.
pub uninterp spec fn readability_extract(html: Seq<char>, url: Seq<char>) -> Option<ReadableView>;

/// Calls `libreadability::extract` on the page `html` found at `url`; its result depends on the
/// two alone. The error is passed on as it is.
#[verifier::external_body]
fn extract_readable(html: &str, url: &str) -> (r: Result<ReadableArticle, libreadability::Error>)
    ensures
        match r {
            Ok(a) => readability_extract(html@, url@) == Some(a.view()),
            Err(_) => readability_extract(html@, url@) is None,
        },
{
    match libreadability::extract(html, Some(url)) {
        Ok(a) => Ok(ReadableArticle {
            title: a.title,
            byline: a.byline,
            content: a.content,
            text_content: a.text_content,
            length: a.length,
        }),
        Err(e) => Err(e),
    }
}

/// The readable body of an article, ready for the rendering of its content.
pub struct ExtractedArticle {
    pub article_id: String,
    pub content: String,
    pub text_content: String,
    pub title: Option<String>,
    pub byline: Option<String>,
}

/// Why no readable body came out of a page.
#[derive(Debug)]
pub enum ExtractError {
    /// The extractor failed on the page at this URL.
    Unreadable { url: String, cause: libreadability::Error },
    /// The extractor found nothing worth reading; the message names the URL.
    NothingReadable(String),
}

/// The message when the extractor found nothing worth reading at `url`.
pub open spec fn nothing_readable_message(url: Seq<char>) -> Seq<char> {
    "no readable content could be extracted from "@ + url
}

/// `s`, unless it is blank.
pub open spec fn non_blank(s: Seq<char>) -> Option<Seq<char>> {
    if is_blank(s) { None } else { Some(s) }
}

/// `s`, unless it is blank.
fn non_blank_string(s: String) -> (r: Option<String>)
    ensures
        option_chars(r) == non_blank(s@),
{
    if blank(s.as_str()) { None } else { Some(s) }
}

/// The article that what the extractor found makes: an error when it found nothing worth
/// reading (a text of length 0, since the extractor can report success while finding nothing),
/// else its content and text, with the title and byline left out where they are blank.
pub fn extracted_from(article_id: String, url: &str, found: Result<ReadableArticle, libreadability::Error>) -> (r: Result<ExtractedArticle, ExtractError>)
    ensures
        match found {
            Err(_) => r matches Err(ExtractError::Unreadable { url: u, .. }) && u@ == url@,
            Ok(a) => if a.length == 0 {
                r matches Err(ExtractError::NothingReadable(m)) && m@ == nothing_readable_message(url@)
            } else {
                r matches Ok(e) && e.article_id == article_id && e.content@ == a.content@
                    && e.text_content@ == a.text_content@ && option_chars(e.title) == non_blank(a.title@)
                    && option_chars(e.byline) == non_blank(a.byline@)
            },
        },
{
    proof {
        reveal_strlit("no readable content could be extracted from ");
    }
    match found {
        Err(cause) => Err(ExtractError::Unreadable { url: url.to_owned(), cause }),
        Ok(a) => {
            if a.length == 0 {
                let mut m = String::new();
                push_str(&mut m, "no readable content could be extracted from ");
                push_str(&mut m, url);
                Err(ExtractError::NothingReadable(m))
            } else {
                Ok(ExtractedArticle {
                    article_id,
                    content: a.content,
                    text_content: a.text_content,
                    title: non_blank_string(a.title),
                    byline: non_blank_string(a.byline),
                })
            }
        },
    }
}

/// Extracts the readable body of the page `html` fetched for an article from `url`.
pub fn extract_article(article_id: String, url: &str, html: &str) -> (r: Result<ExtractedArticle, ExtractError>)
    ensures
        match readability_extract(html@, url@) {
            None => r matches Err(ExtractError::Unreadable { url: u, .. }) && u@ == url@,
            Some(a) => if a.length == 0 {
                r matches Err(ExtractError::NothingReadable(m)) && m@ == nothing_readable_message(url@)
            } else {
                r matches Ok(e) && e.article_id == article_id && e.content@ == a.content
                    && e.text_content@ == a.text_content && option_chars(e.title) == non_blank(a.title)
                    && option_chars(e.byline) == non_blank(a.byline)
            },
        },
{
    let found = extract_readable(html, url);
    extracted_from(article_id, url, found)
}

} // verus!
