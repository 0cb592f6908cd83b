//! Configuration enumerations and the error type of configuration parsing.

use vstd::prelude::*;

use crate::lex_ordering::LexOrdering;

verus! {

/// The outside error of URL parsing, carried as is.
#[verifier::external_type_specification]
#[verifier::external_body]
pub struct ExUrlParseError(url::ParseError);

/// The outside error of shell-word splitting, carried as is.
#[verifier::external_type_specification]
#[verifier::external_body]
pub struct ExShellWordsParseError(shell_words::ParseError);

/// Errors of reading and validating the configuration.
#[derive(Debug)]
pub enum ConfigError {
    ValidationError(String),
    FeedListContentIdentifierParseError(String),
    ShareTargetParseError(String),
    DimensionParseError(String),
    ShareTargetInvalidUrlError(url::ParseError),
    ShareTargetInvalid,
    ShareTargetInvalidCommand(shell_words::ParseError),
    SecretParseError,
    SecretCommandParseError(String),
    SecretCommandExecutionError(String),
    LoginConfigurationInvalid(String),
}

/// The form in which article content is preferably shown.
#[derive(Debug, Clone, Copy, PartialEq, Eq, Structural)]
pub enum ArticleContentType {
    PlainText,
    Markdown,
}

/// Which extractor produces the full content of an article.
#[derive(Debug, Copy, Clone, PartialEq, Eq, Structural)]
pub enum ContentFetcher {
    /// Fetch the page with the built-in HTTP client and extract the article body with the
    /// Readability algorithm.
    Readability,
    /// The news service library's own scraper.
    Newsflash,
}

impl ContentFetcher {
    /// The default extractor: Readability.
    pub fn default_fetcher() -> (f: ContentFetcher)
        ensures
            f == ContentFetcher::Readability,
    {
        ContentFetcher::Readability
    }
}

/// The kind of labels used as link hints.
#[derive(Debug, Copy, Clone, PartialEq, Eq, Structural)]
pub enum HintType {
    Letters,
    Numbers,
}

/// The alphabet of letter hints.
pub open spec fn hint_letters() -> Seq<char> {
    seq!['F', 'J', 'G', 'H', 'D', 'K']
}

/// The alphabet of number hints.
pub open spec fn hint_numbers() -> Seq<char> {
    seq!['0', '1', '2', '3', '4', '5', '6', '7', '8', '9']
}

/// The alphabet of a hint type.
pub open spec fn hint_symbols(t: HintType) -> Seq<char> {
    match t {
        HintType::Letters => hint_letters(),
        HintType::Numbers => hint_numbers(),
    }
}

impl HintType {
    /// The hint labels of this type, in shortlex order over its alphabet.
    pub fn iter(self) -> (l: LexOrdering)
        ensures
            l.symbols() == hint_symbols(self),
            l.digits() == Seq::<usize>::empty(),
            l.wf(),
    {
        let symbols = match self {
            HintType::Letters => vec!['F', 'J', 'G', 'H', 'D', 'K'],
            HintType::Numbers => vec!['0', '1', '2', '3', '4', '5', '6', '7', '8', '9'],
        };
        assert(symbols@ =~= hint_symbols(self));
        LexOrdering::new(symbols)
    }
}

/// Which articles are shown.
#[derive(Copy, Clone, Debug, PartialEq, Eq, Structural)]
pub enum ArticleScope {
    All,
    Unread,
    Marked,
}

/// The icons that stand for the article scopes.
pub struct ScopeIcons {
    pub all: char,
    pub unread: char,
    pub marked: char,
}

impl ArticleScope {
    /// The default scope: all articles.
    pub fn default_scope() -> (s: ArticleScope)
        ensures
            s == ArticleScope::All,
    {
        ArticleScope::All
    }

    /// All scopes, in their order of display.
    pub fn all_scopes() -> (v: Vec<ArticleScope>)
        ensures
            v@ == seq![ArticleScope::All, ArticleScope::Unread, ArticleScope::Marked],
    {
        let v = vec![ArticleScope::All, ArticleScope::Unread, ArticleScope::Marked];
        assert(v@ =~= seq![ArticleScope::All, ArticleScope::Unread, ArticleScope::Marked]);
        v
    }

    /// The configured icon of this scope.
    pub fn to_icon(self, icons: &ScopeIcons) -> (c: char)
        ensures
            c == match self {
                ArticleScope::All => icons.all,
                ArticleScope::Unread => icons.unread,
                ArticleScope::Marked => icons.marked,
            },
    {
        match self {
            ArticleScope::All => icons.all,
            ArticleScope::Unread => icons.unread,
            ArticleScope::Marked => icons.marked,
        }
    }

    /// The name under which a scope is written in the configuration and in commands.
    pub fn name(self) -> (s: &'static str)
        ensures
            s@ == scope_name(self),
    {
        match self {
            ArticleScope::All => "all",
            ArticleScope::Unread => "unread",
            ArticleScope::Marked => "marked",
        }
    }
}

/// The name of a scope.
pub open spec fn scope_name(s: ArticleScope) -> Seq<char> {
    match s {
        ArticleScope::All => "all"@,
        ArticleScope::Unread => "unread"@,
        ArticleScope::Marked => "marked"@,
    }
}

} // verus!
