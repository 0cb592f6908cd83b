//! The filter and sort state of the article list.

use vstd::prelude::*;

use crate::config::ArticleScope;

verus! {

/// The read state an article filter asks for.
#[derive(Debug, Clone, Copy, PartialEq, Eq, Structural)]
pub enum ReadFilter {
    Read,
    Unread,
}

/// The marked state an article filter asks for.
#[derive(Debug, Clone, Copy, PartialEq, Eq, Structural)]
pub enum MarkedFilter {
    Marked,
    Unmarked,
}

/// The read and marked conditions of an article filter.
#[derive(Debug, Clone, Copy, PartialEq, Eq, Structural)]
pub struct ReadMarkedFilter {
    pub unread: Option<ReadFilter>,
    pub marked: Option<MarkedFilter>,
}

/// A query of the article list, as far as the filter state reads it: the sort order it asks
/// for, if any.
pub struct ArticleQuery<S> {
    pub sort_order: Option<S>,
}

/// The filter of the selected feed list entry, as far as the filter state reads it: its read
/// and marked conditions, whether its query itself decides read/unread/marked, and the sort
/// order its query asks for.
pub struct AugmentedArticleFilter<S> {
    pub filter: ReadMarkedFilter,
    pub defines_scope: bool,
    pub query: ArticleQuery<S>,
}

/// Which articles the list shows and how it orders them.
pub struct FilterState<S> {
    pub augmented_article_filter: Option<AugmentedArticleFilter<S>>,
    pub article_scope: ArticleScope,
    pub article_search_query: Option<ArticleQuery<S>>,
    pub article_adhoc_filter: Option<ArticleQuery<S>>,
    pub adhoc_sort_order: Option<S>,
    pub reverse_sort_order: bool,
    pub apply_article_adhoc_filter: bool,
    pub sticky_adhoc_filter: bool,
}

/// The read and marked conditions once the scope is applied: the scope decides them unless
/// the filter's own query already does.
pub open spec fn spec_effective_filter(f: ReadMarkedFilter, defines_scope: bool, scope: ArticleScope) -> ReadMarkedFilter {
    if defines_scope {
        f
    } else {
        match scope {
            ArticleScope::All => f,
            ArticleScope::Unread => ReadMarkedFilter { unread: Some(ReadFilter::Unread), marked: None },
            ArticleScope::Marked => ReadMarkedFilter { unread: None, marked: Some(MarkedFilter::Marked) },
        }
    }
}

impl<S> FilterState<S> {
    /// Nothing selected yet, showing `article_scope`.
    pub fn new(article_scope: ArticleScope) -> (f: Self)
        ensures
            f.article_scope == article_scope,
            f.augmented_article_filter is None,
            f.article_search_query is None,
            f.article_adhoc_filter is None,
            f.adhoc_sort_order is None,
            !f.apply_article_adhoc_filter,
            !f.reverse_sort_order,
            !f.sticky_adhoc_filter,
    {
        FilterState {
            article_scope,
            augmented_article_filter: None,
            article_search_query: None,
            article_adhoc_filter: None,
            adhoc_sort_order: None,
            apply_article_adhoc_filter: false,
            reverse_sort_order: false,
            sticky_adhoc_filter: false,
        }
    }

    /// The read and marked conditions of the selected filter with the scope applied, or `None`
    /// when nothing is selected.
    pub fn generate_effective_filter(&self) -> (r: Option<ReadMarkedFilter>)
        ensures
            r == match self.augmented_article_filter {
                Some(a) => Some(spec_effective_filter(a.filter, a.defines_scope, self.article_scope)),
                None => None::<ReadMarkedFilter>,
            },
    {
        match &self.augmented_article_filter {
            None => None,
            Some(augmented) => {
                let mut filter = augmented.filter;
                if !augmented.defines_scope {
                    match self.article_scope {
                        ArticleScope::All => {},
                        ArticleScope::Unread => {
                            filter.unread = Some(ReadFilter::Unread);
                            filter.marked = None;
                        },
                        ArticleScope::Marked => {
                            filter.marked = Some(MarkedFilter::Marked);
                            filter.unread = None;
                        },
                    }
                }
                Some(filter)
            },
        }
    }

    /// The scope in effect, or `None` when the selected filter's query decides it.
    pub fn get_effective_scope(&self) -> (r: Option<ArticleScope>)
        ensures
            r == (if self.augmented_article_filter matches Some(a) && a.defines_scope {
                None
            } else {
                Some(self.article_scope)
            }),
    {
        match &self.augmented_article_filter {
            Some(augmented) => {
                if augmented.defines_scope {
                    return None;
                }
            },
            None => {},
        }
        Some(self.article_scope)
    }

    /// Whether the configured default sort order is in effect: no ad-hoc order, no order from
    /// the selected query, and not reversed.
    pub fn uses_default_sort_order(&self) -> (b: bool)
        ensures
            b == spec_uses_default_sort_order(*self),
    {
        let query_order_none = match &self.augmented_article_filter {
            Some(augmented) => augmented.query.sort_order.is_none(),
            None => true,
        };
        self.adhoc_sort_order.is_none() && query_order_none && !self.reverse_sort_order
    }

    /// The sort order in effect and whether it is reversed: the ad-hoc order, else the ad-hoc
    /// filter's, else the selected query's, else `default`.
    pub fn get_effective_sort_order<'a>(&'a self, default: &'a S) -> (r: (&'a S, bool))
        ensures
            r.1 == self.reverse_sort_order,
            *r.0 == (match self.adhoc_sort_order {
                Some(o) => o,
                None => match self.article_adhoc_filter {
                    Some(q) if q.sort_order is Some => q.sort_order->0,
                    _ => match self.augmented_article_filter {
                        Some(a) if a.query.sort_order is Some => a.query.sort_order->0,
                        _ => *default,
                    },
                },
            }),
    {
        if let Some(order) = &self.adhoc_sort_order {
            return (order, self.reverse_sort_order);
        }
        if let Some(filter) = &self.article_adhoc_filter {
            if let Some(order) = &filter.sort_order {
                return (order, self.reverse_sort_order);
            }
        }
        if let Some(augmented) = &self.augmented_article_filter {
            if let Some(order) = &augmented.query.sort_order {
                return (order, self.reverse_sort_order);
            }
        }
        (default, self.reverse_sort_order)
    }

    /// A new filter was selected: the ad-hoc filter stays applied only when it is sticky.
    pub fn on_new_article_filter(&mut self, article_filter: AugmentedArticleFilter<S>)
        ensures
            *final(self) == spec_on_new_article_filter(*old(self), article_filter),
    {
        self.augmented_article_filter = Some(article_filter);
        self.apply_article_adhoc_filter = self.sticky_adhoc_filter;
    }

    /// A new ad-hoc filter was given: it is applied, sticky or not as asked.
    pub fn on_new_article_adhoc_filter(&mut self, article_adhoc_filter: ArticleQuery<S>, sticky: bool)
        ensures
            *final(self) == spec_on_new_article_adhoc_filter(*old(self), article_adhoc_filter, sticky),
    {
        self.article_adhoc_filter = Some(article_adhoc_filter);
        self.apply_article_adhoc_filter = true;
        self.sticky_adhoc_filter = sticky;
    }

    /// Forgets the ad-hoc sort order and its reversal.
    pub fn clear_sort_order(&mut self)
        ensures
            *final(self) == spec_clear_sort_order(*old(self)),
    {
        self.adhoc_sort_order = None;
        self.reverse_sort_order = false;
    }
}

/// Whether the configured default sort order is in effect.
pub open spec fn spec_uses_default_sort_order<S>(f: FilterState<S>) -> bool {
    f.adhoc_sort_order is None && (match f.augmented_article_filter {
        Some(a) => a.query.sort_order is None,
        None => true,
    }) && !f.reverse_sort_order
}

/// The state once a new filter is selected: the ad-hoc filter stays applied only when sticky.
pub open spec fn spec_on_new_article_filter<S>(f: FilterState<S>, a: AugmentedArticleFilter<S>) -> FilterState<S> {
    FilterState { augmented_article_filter: Some(a), apply_article_adhoc_filter: f.sticky_adhoc_filter, ..f }
}

/// The state once an ad-hoc filter is given: it is applied, sticky or not as asked.
pub open spec fn spec_on_new_article_adhoc_filter<S>(f: FilterState<S>, q: ArticleQuery<S>, sticky: bool) -> FilterState<S> {
    FilterState { article_adhoc_filter: Some(q), apply_article_adhoc_filter: true, sticky_adhoc_filter: sticky, ..f }
}

/// The state once the ad-hoc sort order is forgotten.
pub open spec fn spec_clear_sort_order<S>(f: FilterState<S>) -> FilterState<S> {
    FilterState { adhoc_sort_order: None, reverse_sort_order: false, ..f }
}

/// An ad-hoc filter survives the selection of a new filter exactly when it was given as
/// sticky, and it stays the ad-hoc filter either way.
pub proof fn law_sticky_adhoc_filter_survives<S>(
    f: FilterState<S>,
    q: ArticleQuery<S>,
    sticky: bool,
    a: AugmentedArticleFilter<S>,
)
    ensures
        spec_on_new_article_filter(spec_on_new_article_adhoc_filter(f, q, sticky), a).apply_article_adhoc_filter == sticky,
        spec_on_new_article_filter(spec_on_new_article_adhoc_filter(f, q, sticky), a).article_adhoc_filter == Some(q),
{
}

/// After the sort order is cleared, the default sort order is in effect exactly when the
/// selected query asks for none.
pub proof fn law_cleared_sort_order_is_default<S>(f: FilterState<S>)
    ensures
        spec_uses_default_sort_order(spec_clear_sort_order(f)) == (match f.augmented_article_filter {
            Some(a) => a.query.sort_order is None,
            None => true,
        }),
{
}

} // verus!
