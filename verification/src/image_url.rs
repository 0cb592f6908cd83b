//! Resolving the URL of a content image against the URL of the article's page.

use vstd::prelude::*;

use crate::article_table::same_chars;
use crate::unicode::chars_of;

verus! {

/// The URL type of the crate `url`, carried as is.
#[verifier::external_type_specification]
#[verifier::external_body]
pub struct ExUrl(url::Url);

/// What parsing a string as an absolute URL gives, as far as this library reads it.
pub enum UrlOutcome {
    /// A URL with this serialization and this scheme.
    Parsed { text: Seq<char>, scheme: Seq<char> },
    /// The string is a relative reference and there is no base to resolve it against.
    RelativeWithoutBase,
    /// The string is not a URL.
    Invalid,
}

/// What `url::Url::parse` makes of `s`.
pub uninterp spec fn url_parse_outcome(s: Seq<char>) -> UrlOutcome;

/// What `url::Url::join` makes of `input` against the URL serialized as `base`: the
/// serialization and scheme of the result, or `None` where it fails.
pub uninterp spec fn url_join_outcome(base: Seq<char>, input: Seq<char>) -> Option<(Seq<char>, Seq<char>)>;

/// A parsed URL with its serialization and scheme.
pub struct ParsedUrl {
    url: url::Url,
    text: String,
    scheme: String,
}

impl ParsedUrl {
    /// The serialization of the URL.
    pub closed spec fn text_view(&self) -> Seq<char> {
        self.text@
    }

    /// The scheme of the URL.
    pub closed spec fn scheme_view(&self) -> Seq<char> {
        self.scheme@
    }

    /// The serialization of the URL.
    pub fn as_text(&self) -> (t: &str)
        ensures
            t@ == self.text_view(),
    {
        self.text.as_str()
    }

    /// The scheme of the URL.
    pub fn scheme(&self) -> (t: &str)
        ensures
            t@ == self.scheme_view(),
    {
        self.scheme.as_str()
    }

    /// The parsed URL held, the one whose serialization and scheme these are.
    pub closed spec fn url_value(&self) -> url::Url {
        self.url
    }

    /// The URL itself.
    pub fn url(&self) -> (u: &url::Url)
        ensures
            *u == self.url_value(),
    {
        &self.url
    }
}

/// Why a string could not be parsed as an absolute URL.
#[derive(Debug)]
pub enum UrlParseFailure {
    RelativeWithoutBase,
    Other(url::ParseError),
}

/// Calls `url::Url::parse`; its result depends on `s` alone. The URL is kept with its
/// serialization and scheme; a relative reference is told apart from other errors.
#[verifier::external_body]
fn parse_url(s: &str) -> (r: Result<ParsedUrl, UrlParseFailure>)
    ensures
        match r {
            Ok(p) => url_parse_outcome(s@) == (UrlOutcome::Parsed { text: p.text_view(), scheme: p.scheme_view() }),
            Err(UrlParseFailure::RelativeWithoutBase) => url_parse_outcome(s@) is RelativeWithoutBase,
            Err(UrlParseFailure::Other(_)) => url_parse_outcome(s@) is Invalid,
        },
{
    match url::Url::parse(s) {
        Ok(u) => {
            let text = u.as_str().to_owned();
            let scheme = u.scheme().to_owned();
            Ok(ParsedUrl { url: u, text, scheme })
        },
        Err(url::ParseError::RelativeUrlWithoutBase) => Err(UrlParseFailure::RelativeWithoutBase),
        Err(e) => Err(UrlParseFailure::Other(e)),
    }
}

/// Calls `url::Url::join`, which resolves `input` against `base`; its result depends on the
/// base URL (which its serialization determines) and `input` alone.
#[verifier::external_body]
fn join_url(base: &ParsedUrl, input: &str) -> (r: Result<ParsedUrl, url::ParseError>)
    ensures
        match r {
            Ok(p) => url_join_outcome(base.text_view(), input@) == Some((p.text_view(), p.scheme_view())),
            Err(_) => url_join_outcome(base.text_view(), input@) is None,
        },
{
    match base.url.join(input) {
        Ok(u) => {
            let text = u.as_str().to_owned();
            let scheme = u.scheme().to_owned();
            Ok(ParsedUrl { url: u, text, scheme })
        },
        Err(e) => Err(e),
    }
}

/// Why the URL of a content image cannot be used.
#[derive(Debug)]
pub enum ImageUrlError {
    /// The URL is relative and no base URL is known.
    RelativeWithoutBase,
    /// The base URL is not a URL.
    InvalidBase(UrlParseFailure),
    /// The URL cannot be resolved against the base URL.
    JoinFailed(url::ParseError),
    /// The URL is not a URL.
    Invalid(url::ParseError),
    /// The URL has a scheme other than `http` or `https`; this is it.
    UnsupportedScheme(String),
}

/// Whether a scheme is one that images are downloaded with.
pub open spec fn is_web_scheme(scheme: Seq<char>) -> bool {
    scheme == "http"@ || scheme == "https"@
}

/// The serialization and scheme of an image URL resolved against the page URL `base`: the URL
/// itself when it is absolute, else resolved against the base; `None` where that fails.
pub open spec fn spec_resolved(base: Option<Seq<char>>, url: Seq<char>) -> Option<(Seq<char>, Seq<char>)> {
    match url_parse_outcome(url) {
        UrlOutcome::Parsed { text, scheme } => Some((text, scheme)),
        UrlOutcome::RelativeWithoutBase => match base {
            Some(b) => match url_parse_outcome(b) {
                UrlOutcome::Parsed { text, .. } => url_join_outcome(text, url),
                _ => None,
            },
            None => None,
        },
        UrlOutcome::Invalid => None,
    }
}

/// Whether the characters of `a` are those of `b`.
fn str_eq(a: &str, b: &str) -> (r: bool)
    ensures
        r == (a@ == b@),
{
    let ac = chars_of(a);
    same_chars(ac.as_slice(), b)
}

/// Resolves the URL of a content image: an absolute URL stands, a relative one is resolved
/// against the page URL `base_url`; only `http` and `https` URLs are accepted, which leaves out
/// `data:` URIs.
pub fn resolve_image_url(base_url: Option<&str>, url: &str) -> (r: Result<ParsedUrl, ImageUrlError>)
    ensures
        match r {
            Ok(p) => spec_resolved(match base_url { Some(b) => Some(b@), None => None }, url@)
                == Some((p.text_view(), p.scheme_view())) && is_web_scheme(p.scheme_view()),
            Err(ImageUrlError::UnsupportedScheme(s)) => spec_resolved(match base_url { Some(b) => Some(b@), None => None }, url@)
                matches Some((_, scheme)) && scheme == s@ && !is_web_scheme(s@),
            Err(ImageUrlError::RelativeWithoutBase) => url_parse_outcome(url@) is RelativeWithoutBase && base_url is None,
            Err(_) => spec_resolved(match base_url { Some(b) => Some(b@), None => None }, url@) is None,
        },
{
    let absolute = match parse_url(url) {
        Ok(a) => a,
        Err(UrlParseFailure::RelativeWithoutBase) => {
            let base = match base_url {
                Some(b) => b,
                None => {
                    return Err(ImageUrlError::RelativeWithoutBase);
                },
            };
            let parsed_base = match parse_url(base) {
                Ok(p) => p,
                Err(e) => {
                    return Err(ImageUrlError::InvalidBase(e));
                },
            };
            match join_url(&parsed_base, url) {
                Ok(j) => j,
                Err(e) => {
                    return Err(ImageUrlError::JoinFailed(e));
                },
            }
        },
        Err(UrlParseFailure::Other(e)) => {
            return Err(ImageUrlError::Invalid(e));
        },
    };
    proof {
        reveal_strlit("http");
        reveal_strlit("https");
    }
    if !str_eq(absolute.scheme(), "http") && !str_eq(absolute.scheme(), "https") {
        return Err(ImageUrlError::UnsupportedScheme(absolute.scheme().to_owned()));
    }
    Ok(absolute)
}

} // verus!
