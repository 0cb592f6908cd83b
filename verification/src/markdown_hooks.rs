//! What the markdown renderer draws for links and images: a hint label the reader can type to
//! open the URL, or, for an image that can be drawn, the sentinel that the row layout replaces
//! by the image.

use vstd::prelude::*;

use crate::content_layout::{ContentImageRef, IMAGE_SENTINEL};
use crate::lex_ordering::{lex_succ, max_symbol, render, LexOrdering};
use crate::style::{SpanView, StyledSpan, TextStyle};
use crate::unicode::{push_char, push_str};

verus! {

/// The styles of link and image hints.
#[derive(Clone, Copy, Debug)]
pub struct HookStyles {
    /// The hint label of a link or an image.
    pub hint: TextStyle,
    pub link_alt: TextStyle,
    pub link_url: TextStyle,
    pub image_alt: TextStyle,
    pub image_url: TextStyle,
}

/// What the renderer's link and image hooks share while one markdown text is rendered.
pub struct MarkdownHooks {
    /// The supply of hint labels.
    pub hints: LexOrdering,
    /// The URL of each hint given out, in order.
    pub hint_urls: Vec<(String, String)>,
    /// The images that are loaded, with their pixel dimensions.
    pub loaded: Vec<(String, u32, u32)>,
    /// The images drawn in place, in document order.
    pub ordered: Vec<ContentImageRef>,
    /// Every image URL met, in document order.
    pub discovered: Vec<String>,
    pub show_url: bool,
    pub draw_images: bool,
    pub url_icon: char,
    pub image_icon: char,
    pub styles: HookStyles,
}

/// The index of the first pair whose first string is `key`, or -1.
pub open spec fn find_key(pairs: Seq<(String, String)>, key: Seq<char>) -> int
    decreases pairs.len(),
{
    if pairs.len() == 0 {
        -1
    } else {
        let prev = find_key(pairs.drop_last(), key);
        if prev >= 0 { prev } else if pairs.last().0@ == key { pairs.len() - 1 } else { -1 }
    }
}

/// The index of the first loaded image with the URL `url`, or -1.
pub open spec fn find_loaded(loaded: Seq<(String, u32, u32)>, url: Seq<char>) -> int
    decreases loaded.len(),
{
    if loaded.len() == 0 {
        -1
    } else {
        let prev = find_loaded(loaded.drop_last(), url);
        if prev >= 0 { prev } else if loaded.last().0@ == url { loaded.len() - 1 } else { -1 }
    }
}

/// The hint label given out next.
pub open spec fn next_hint(h: LexOrdering) -> Seq<char> {
    render(lex_succ(h.digits(), max_symbol(h.symbols())), h.symbols())
}

/// The spans of a hint: the label with its icon, the alternative text, and the URL in
/// parentheses when URLs are shown.
pub open spec fn hint_spans(
    hint: Seq<char>,
    icon: char,
    alt: Seq<char>,
    url: Seq<char>,
    show_url: bool,
    hint_style: TextStyle,
    alt_style: TextStyle,
    url_style: TextStyle,
) -> Seq<SpanView> {
    seq![SpanView { text: hint.push(icon), style: hint_style }, SpanView { text: alt, style: alt_style }] + if show_url {
        seq![SpanView { text: seq!['('] + url + seq![')'], style: url_style }]
    } else {
        Seq::empty()
    }
}

/// The pairs after the hint `hint` is recorded for `url`, unless the hint already has a URL.
pub open spec fn record_hint(pairs: Seq<(String, String)>, hint: Seq<char>, url: Seq<char>) -> Seq<(Seq<char>, Seq<char>)> {
    let v = pairs.map_values(|p: (String, String)| (p.0@, p.1@));
    if find_key(pairs, hint) >= 0 { v } else { v.push((hint, url)) }
}

/// The pairs as characters.
pub open spec fn pairs_view(pairs: Seq<(String, String)>) -> Seq<(Seq<char>, Seq<char>)> {
    pairs.map_values(|p: (String, String)| (p.0@, p.1@))
}

impl MarkdownHooks {
    /// Hooks that start with the first hint label of `hints`.
    pub fn new(hints: LexOrdering, loaded: Vec<(String, u32, u32)>, show_url: bool, draw_images: bool, url_icon: char, image_icon: char, styles: HookStyles) -> (h: MarkdownHooks)
        ensures
            h.hints == hints,
            h.hint_urls@.len() == 0,
            h.loaded == loaded,
            h.ordered@.len() == 0,
            h.discovered@.len() == 0,
            h.show_url == show_url,
            h.draw_images == draw_images,
            h.url_icon == url_icon,
            h.image_icon == image_icon,
            h.styles == styles,
    {
        MarkdownHooks {
            hints,
            hint_urls: Vec::new(),
            loaded,
            ordered: Vec::new(),
            discovered: Vec::new(),
            show_url,
            draw_images,
            url_icon,
            image_icon,
            styles,
        }
    }

    /// Gives out the next hint label for `url` and records the URL under it.
    fn take_hint(&mut self, url: &str) -> (hint: String)
        requires
            old(self).hints.wf(),
            old(self).hints.digits().len() < usize::MAX,
        ensures
            hint@ == next_hint(old(self).hints),
            final(self).hints.wf(),
            final(self).hints.symbols() == old(self).hints.symbols(),
            final(self).hints.digits() == lex_succ(old(self).hints.digits(), max_symbol(old(self).hints.symbols())),
            pairs_view(final(self).hint_urls@) == record_hint(old(self).hint_urls@, hint@, url@),
            final(self).loaded == old(self).loaded,
            final(self).ordered == old(self).ordered,
            final(self).discovered == old(self).discovered,
            final(self).show_url == old(self).show_url,
            final(self).draw_images == old(self).draw_images,
            final(self).url_icon == old(self).url_icon,
            final(self).image_icon == old(self).image_icon,
            final(self).styles == old(self).styles,
    {
        let hint = match self.hints.next() {
            Some(h) => h,
            None => String::new(),
        };
        let ghost pairs = self.hint_urls@;
        let mut found = false;
        let mut i: usize = 0;
        while i < self.hint_urls.len()
            invariant
                i <= self.hint_urls@.len(),
                pairs == self.hint_urls@,
                found == (find_key(pairs.take(i as int), hint@) >= 0),
            decreases self.hint_urls.len() - i,
        {
            assert(pairs.take(i + 1).drop_last() == pairs.take(i as int));
            if equal_strings(self.hint_urls[i].0.as_str(), hint.as_str()) {
                found = true;
            }
            i = i + 1;
        }
        assert(pairs.take(pairs.len() as int) == pairs);
        if !found {
            self.hint_urls.push((hint.clone(), url.to_owned()));
            assert(pairs_view(self.hint_urls@) =~= pairs_view(pairs).push((hint@, url@)));
        }
        hint
    }

    /// What the renderer draws for a link with alternative text `alt` to `url`: a hint label
    /// with the URL icon, the text, and the URL when URLs are shown.
    pub fn on_link(&mut self, alt: &str, url: &str) -> (spans: Vec<StyledSpan>)
        requires
            old(self).hints.wf(),
            old(self).hints.digits().len() < usize::MAX,
        ensures
            spans.deep_view() == hint_spans(next_hint(old(self).hints), old(self).url_icon, alt@, url@, old(self).show_url,
                old(self).styles.hint, old(self).styles.link_alt, old(self).styles.link_url),
            final(self).hints.wf(),
            final(self).hints.digits() == lex_succ(old(self).hints.digits(), max_symbol(old(self).hints.symbols())),
            pairs_view(final(self).hint_urls@) == record_hint(old(self).hint_urls@, next_hint(old(self).hints), url@),
            final(self).ordered == old(self).ordered,
            final(self).discovered == old(self).discovered,
    {
        let hint = self.take_hint(url);
        let icon = self.url_icon;
        let styles = self.styles;
        let show = self.show_url;
        hint_span_list(hint, icon, alt, url, show, styles.hint, styles.link_alt, styles.link_url)
    }

    /// What the renderer draws for an image with alternative text `alt` at `url`: when images
    /// are drawn and this one is loaded, the sentinel that the row layout replaces by the image
    /// (and the image is noted in document order); otherwise a hint label with the image icon, the
    /// text, and the URL when URLs are shown. Every image URL is noted while images are drawn.
    pub fn on_image(&mut self, alt: &str, url: &str) -> (spans: Vec<StyledSpan>)
        requires
            old(self).hints.wf(),
            old(self).hints.digits().len() < usize::MAX,
        ensures
            ({
                let i = find_loaded(old(self).loaded@, url@);
                if old(self).draw_images && i >= 0 {
                    &&& spans.deep_view() == seq![SpanView { text: seq![IMAGE_SENTINEL], style: TextStyle { fg: None, bg: None, underline_color: None, add_modifier: 0, sub_modifier: 0 } }]
                    &&& final(self).ordered@.len() == old(self).ordered@.len() + 1
                    &&& final(self).ordered@.last().url@ == url@
                    &&& final(self).ordered@.last().px_width == old(self).loaded@[i].1
                    &&& final(self).ordered@.last().px_height == old(self).loaded@[i].2
                    &&& final(self).ordered@.drop_last() == old(self).ordered@
                    &&& final(self).hints == old(self).hints
                    &&& final(self).hint_urls == old(self).hint_urls
                } else {
                    &&& spans.deep_view() == hint_spans(next_hint(old(self).hints), old(self).image_icon, alt@, url@, old(self).show_url,
                        old(self).styles.hint, old(self).styles.image_alt, old(self).styles.image_url)
                    &&& final(self).ordered == old(self).ordered
                    &&& final(self).hints.wf()
                    &&& final(self).hints.digits() == lex_succ(old(self).hints.digits(), max_symbol(old(self).hints.symbols()))
                    &&& pairs_view(final(self).hint_urls@) == record_hint(old(self).hint_urls@, next_hint(old(self).hints), url@)
                }
            }),
            old(self).draw_images ==> final(self).discovered@.len() == old(self).discovered@.len() + 1
                && final(self).discovered@.last()@ == url@ && final(self).discovered@.drop_last() == old(self).discovered@,
            !old(self).draw_images ==> final(self).discovered == old(self).discovered,
    {
        let mut dims: Option<(u32, u32)> = None;
        if self.draw_images {
            self.discovered.push(url.to_owned());
            let ghost loaded = self.loaded@;
            let mut k: usize = 0;
            while k < self.loaded.len()
                invariant
                    k <= self.loaded@.len(),
                    loaded == self.loaded@,
                    match dims {
                        Some((w, h)) => find_loaded(loaded.take(k as int), url@) >= 0
                            && loaded[find_loaded(loaded.take(k as int), url@)].1 == w
                            && loaded[find_loaded(loaded.take(k as int), url@)].2 == h,
                        None => find_loaded(loaded.take(k as int), url@) < 0,
                    },
                    find_loaded(loaded.take(k as int), url@) < k,
                decreases self.loaded.len() - k,
            {
                assert(loaded.take(k + 1).drop_last() == loaded.take(k as int));
                assert(loaded.take(k + 1).last() == loaded[k as int]);
                if dims.is_none() && equal_strings(self.loaded[k].0.as_str(), url) {
                    dims = Some((self.loaded[k].1, self.loaded[k].2));
                }
                k = k + 1;
            }
            assert(loaded.take(loaded.len() as int) == loaded);
            match dims {
                Some((w, h)) => {
                    self.ordered.push(ContentImageRef { url: url.to_owned(), px_width: w, px_height: h });
                },
                None => {},
            }
        }
        match dims {
            Some(_) => {
                let mut s = String::new();
                push_char(&mut s, IMAGE_SENTINEL);
                let mut v: Vec<StyledSpan> = Vec::new();
                v.push(StyledSpan::styled(s, TextStyle::new()));
                assert(v.deep_view() =~= seq![SpanView { text: seq![IMAGE_SENTINEL], style: TextStyle { fg: None, bg: None, underline_color: None, add_modifier: 0, sub_modifier: 0 } }]);
                v
            },
            None => {
                let hint = self.take_hint(url);
                let icon = self.image_icon;
                let styles = self.styles;
                let show = self.show_url;
                hint_span_list(hint, icon, alt, url, show, styles.hint, styles.image_alt, styles.image_url)
            },
        }
    }

    /// The URL recorded under the hint `hint`, if any.
    pub fn url_for_hint(&self, hint: &str) -> (url: Option<String>)
        ensures
            ({
                let i = find_key(self.hint_urls@, hint@);
                match url {
                    Some(u) => i >= 0 && u@ == self.hint_urls@[i].1@,
                    None => i < 0,
                }
            }),
    {
        let ghost pairs = self.hint_urls@;
        let mut i: usize = 0;
        while i < self.hint_urls.len()
            invariant
                i <= pairs.len(),
                pairs == self.hint_urls@,
                find_key(pairs.take(i as int), hint@) < 0,
            decreases self.hint_urls.len() - i,
        {
            assert(pairs.take(i + 1).drop_last() == pairs.take(i as int));
            if equal_strings(self.hint_urls[i].0.as_str(), hint) {
                proof {
                    lemma_find_key_prefix(pairs, hint@, i as int);
                }
                return Some(self.hint_urls[i].1.clone());
            }
            i = i + 1;
        }
        assert(pairs.take(pairs.len() as int) == pairs);
        None
    }
}

/// Once a key is found in a prefix, it is found at the same place in the whole.
proof fn lemma_find_key_prefix(pairs: Seq<(String, String)>, key: Seq<char>, i: int)
    requires
        0 <= i < pairs.len(),
        find_key(pairs.take(i), key) < 0,
        pairs[i].0@ == key,
    ensures
        find_key(pairs, key) == i,
    decreases pairs.len(),
{
    assert(pairs.take(i + 1).drop_last() == pairs.take(i));
    assert(find_key(pairs.take(i + 1), key) == i);
    lemma_find_key_extend(pairs, key, i + 1);
}

/// A key found in a prefix is found at the same place in the whole.
proof fn lemma_find_key_extend(pairs: Seq<(String, String)>, key: Seq<char>, n: int)
    requires
        0 <= n <= pairs.len(),
        find_key(pairs.take(n), key) >= 0,
    ensures
        find_key(pairs, key) == find_key(pairs.take(n), key),
    decreases pairs.len() - n,
{
    if n < pairs.len() {
        assert(pairs.take(n + 1).drop_last() == pairs.take(n));
        lemma_find_key_extend(pairs, key, n + 1);
    } else {
        assert(pairs.take(n) == pairs);
    }
}

/// Whether the characters of `a` are those of `b`.
fn equal_strings(a: &str, b: &str) -> (r: bool)
    ensures
        r == (a@ == b@),
{
    let ac = crate::unicode::chars_of(a);
    crate::article_table::same_chars(ac.as_slice(), b)
}

/// The spans of a hint.
fn hint_span_list(
    hint: String,
    icon: char,
    alt: &str,
    url: &str,
    show_url: bool,
    hint_style: TextStyle,
    alt_style: TextStyle,
    url_style: TextStyle,
) -> (spans: Vec<StyledSpan>)
    ensures
        spans.deep_view() == hint_spans(hint@, icon, alt@, url@, show_url, hint_style, alt_style, url_style),
{
    let mut label = hint;
    push_char(&mut label, icon);
    let mut spans: Vec<StyledSpan> = Vec::new();
    spans.push(StyledSpan::styled(label, hint_style));
    spans.push(StyledSpan::styled(alt.to_owned(), alt_style));
    let ghost head = spans.deep_view();
    assert(head =~= seq![SpanView { text: hint@.push(icon), style: hint_style }, SpanView { text: alt@, style: alt_style }]);
    if show_url {
        let mut u = String::new();
        push_char(&mut u, '(');
        push_str(&mut u, url);
        push_char(&mut u, ')');
        assert(u@ =~= seq!['('] + url@ + seq![')']);
        spans.push(StyledSpan::styled(u, url_style));
        assert(spans.deep_view() =~= head + seq![SpanView { text: seq!['('] + url@ + seq![')'], style: url_style }]);
    } else {
        assert(spans.deep_view() =~= head + Seq::<SpanView>::empty());
    }
    spans
}

} // verus!
