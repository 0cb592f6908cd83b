//! The cache of the images that article contents refer to, keyed by URL: bounded in count and in
//! bytes, oldest first out, and never asking twice for an image whose state is known.

use vstd::prelude::*;

use indexmap::IndexMap;

verus! {

/// The insertion-ordered map of the crate `indexmap`, carried as is.
#[verifier::external_type_specification]
#[verifier::external_body]
#[verifier::reject_recursive_types(K)]
#[verifier::reject_recursive_types(V)]
#[verifier::reject_recursive_types(S)]
pub struct ExIndexMap<K, V, S>(IndexMap<K, V, S>);

/// What is known about one content image URL. Every state other than `Pending` is final while
/// the URL stays in the cache; an evicted URL may be fetched again.
#[derive(Debug)]
pub enum ContentImageState {
    Pending,
    Loaded { data: Vec<u8>, width: u32, height: u32 },
    /// Download or decode failed, or the image is too small to be worth drawing.
    Unusable,
}

/// The abstract value of an image state.
pub enum ImageStateView {
    Pending,
    Loaded { data: Seq<u8>, width: u32, height: u32 },
    Unusable,
}

impl ContentImageState {
    /// The abstract value of this state.
    pub open spec fn view(&self) -> ImageStateView {
        match self {
            ContentImageState::Pending => ImageStateView::Pending,
            ContentImageState::Loaded { data, width, height } => ImageStateView::Loaded {
                data: data@,
                width: *width,
                height: *height,
            },
            ContentImageState::Unusable => ImageStateView::Unusable,
        }
    }

    /// The number of bytes this state holds: those of a loaded image, none otherwise.
    pub fn byte_len(&self) -> (n: usize)
        ensures
            n == state_bytes(self.view()),
    {
        match self {
            ContentImageState::Loaded { data, .. } => data.len(),
            ContentImageState::Pending | ContentImageState::Unusable => 0,
        }
    }
}

/// The number of bytes an image state holds.
pub open spec fn state_bytes(s: ImageStateView) -> nat {
    match s {
        ImageStateView::Loaded { data, .. } => data.len(),
        _ => 0,
    }
}

/// The entries of an image map, in order: each URL with the state of its image.
pub uninterp spec fn image_map_entries(m: IndexMap<String, ContentImageState>) -> Seq<(Seq<char>, ImageStateView)>;

/// The index of the first entry of `entries` with the URL `url`, or -1 when there is none.
pub open spec fn find_url(entries: Seq<(Seq<char>, ImageStateView)>, url: Seq<char>) -> int
    decreases entries.len(),
{
    if entries.len() == 0 {
        -1
    } else if entries[0].0 == url {
        0
    } else {
        let rest = find_url(entries.drop_first(), url);
        if rest < 0 { -1 } else { rest + 1 }
    }
}

/// `find_url` finds an entry with the URL exactly when there is one, and finds the first.
pub proof fn lemma_find_url(entries: Seq<(Seq<char>, ImageStateView)>, url: Seq<char>)
    ensures
        -1 <= find_url(entries, url) < entries.len(),
        find_url(entries, url) >= 0 ==> entries[find_url(entries, url)].0 == url,
        forall|j: int| 0 <= j < entries.len() && (find_url(entries, url) < 0 || j < find_url(entries, url))
            ==> entries[j].0 != url,
    decreases entries.len(),
{
    if entries.len() > 0 && entries[0].0 != url {
        lemma_find_url(entries.drop_first(), url);
        assert forall|j: int| 0 <= j < entries.len() && (find_url(entries, url) < 0 || j < find_url(entries, url))
            implies entries[j].0 != url by {
            if j > 0 {
                assert(entries[j] == entries.drop_first()[j - 1]);
            }
        }
    }
}

/// A new, empty map (`IndexMap::new`).
#[verifier::external_body]
fn map_new() -> (m: IndexMap<String, ContentImageState>)
    ensures
        image_map_entries(m) == Seq::<(Seq<char>, ImageStateView)>::empty(),
{
    IndexMap::new()
}

/// The number of entries (`IndexMap::len`).
#[verifier::external_body]
fn map_len(m: &IndexMap<String, ContentImageState>) -> (n: usize)
    ensures
        n == image_map_entries(*m).len(),
{
    m.len()
}

/// `IndexMap::insert`: an entry with an equal URL keeps its place and takes the new state, whose
/// old one is returned; otherwise the entry is added last.
#[verifier::external_body]
fn map_insert(m: &mut IndexMap<String, ContentImageState>, url: String, state: ContentImageState) -> (previous: Option<ContentImageState>)
    ensures
        ({
            let before = image_map_entries(*old(m));
            let i = find_url(before, url@);
            if i >= 0 {
                &&& image_map_entries(*final(m)) == before.update(i, (before[i].0, state@))
                &&& previous matches Some(p) && p@ == before[i].1
            } else {
                &&& image_map_entries(*final(m)) == before.push((url@, state@))
                &&& previous is None
            }
        }),
{
    m.insert(url, state)
}

/// `IndexMap::shift_remove_entry`: the entry with an equal URL, if any, is taken out and the
/// entries after it move up.
#[verifier::external_body]
fn map_shift_remove_entry(m: &mut IndexMap<String, ContentImageState>, url: &str) -> (removed: Option<(String, ContentImageState)>)
    ensures
        ({
            let before = image_map_entries(*old(m));
            let i = find_url(before, url@);
            if i >= 0 {
                &&& image_map_entries(*final(m)) == before.remove(i)
                &&& removed matches Some((k, v)) && k@ == before[i].0 && v@ == before[i].1
            } else {
                &&& image_map_entries(*final(m)) == before
                &&& removed is None
            }
        }),
{
    m.shift_remove_entry(url)
}

/// `IndexMap::shift_remove_index`: the entry at `index`, if there is one, is taken out and the
/// entries after it move up.
#[verifier::external_body]
fn map_shift_remove_index(m: &mut IndexMap<String, ContentImageState>, index: usize) -> (removed: Option<(String, ContentImageState)>)
    ensures
        ({
            let before = image_map_entries(*old(m));
            if index < before.len() {
                &&& image_map_entries(*final(m)) == before.remove(index as int)
                &&& removed matches Some((k, v)) && k@ == before[index as int].0 && v@ == before[index as int].1
            } else {
                &&& image_map_entries(*final(m)) == before
                &&& removed is None
            }
        }),
{
    m.shift_remove_index(index)
}

/// `IndexMap::get_index`: the entry at `index`, if there is one.
#[verifier::external_body]
fn map_get_index(m: &IndexMap<String, ContentImageState>, index: usize) -> (entry: Option<(&String, &ContentImageState)>)
    ensures
        ({
            let entries = image_map_entries(*m);
            if index < entries.len() {
                entry matches Some((k, v)) && k@ == entries[index as int].0 && v@ == entries[index as int].1
            } else {
                entry is None
            }
        }),
{
    m.get_index(index)
}

/// `IndexMap::get`: the state of the entry with an equal URL, if any.
#[verifier::external_body]
fn map_get<'a>(m: &'a IndexMap<String, ContentImageState>, url: &str) -> (state: Option<&'a ContentImageState>)
    ensures
        ({
            let entries = image_map_entries(*m);
            let i = find_url(entries, url@);
            if i >= 0 {
                state matches Some(v) && v@ == entries[i].1
            } else {
                state is None
            }
        }),
{
    m.get(url)
}

/// `IndexMap::contains_key`: whether an entry has an equal URL.
#[verifier::external_body]
fn map_contains_key(m: &IndexMap<String, ContentImageState>, url: &str) -> (b: bool)
    ensures
        b == (find_url(image_map_entries(*m), url@) >= 0),
{
    m.contains_key(url)
}

/// How many content images are remembered across articles.
pub const CONTENT_IMAGE_CACHE_LIMIT: usize = 64;

/// The combined size, in bytes, of the remembered content images.
pub const CONTENT_IMAGE_CACHE_BYTES: usize = 50331648;

/// How many content image downloads are started for one article at a time.
pub const CONTENT_IMAGE_BATCH_LIMIT: usize = 24;

/// Images smaller than this in either dimension are icons or tracking pixels, not worth drawing.
pub const CONTENT_IMAGE_MIN_PIXELS: u32 = 64;

/// The bytes of all entries, added up.
pub open spec fn total_bytes(entries: Seq<(Seq<char>, ImageStateView)>) -> nat
    decreases entries.len(),
{
    if entries.len() == 0 {
        0
    } else {
        total_bytes(entries.drop_last()) + state_bytes(entries.last().1)
    }
}

/// Whether no two entries have the same URL.
pub open spec fn urls_distinct(entries: Seq<(Seq<char>, ImageStateView)>) -> bool {
    forall|i: int, j: int| 0 <= i < j < entries.len() ==> entries[i].0 != entries[j].0
}

/// Whether the entries are more, or hold more bytes, than the cache keeps.
pub open spec fn over_limits(entries: Seq<(Seq<char>, ImageStateView)>) -> bool {
    entries.len() > CONTENT_IMAGE_CACHE_LIMIT || total_bytes(entries) > CONTENT_IMAGE_CACHE_BYTES
}

/// The entries left once the oldest are dropped until the limits hold.
pub open spec fn evicted(entries: Seq<(Seq<char>, ImageStateView)>) -> Seq<(Seq<char>, ImageStateView)>
    decreases entries.len(),
{
    if entries.len() > 0 && over_limits(entries) {
        evicted(entries.drop_first())
    } else {
        entries
    }
}

/// The entries without the one for `url`, if there is one.
pub open spec fn without_url(entries: Seq<(Seq<char>, ImageStateView)>, url: Seq<char>) -> Seq<(Seq<char>, ImageStateView)> {
    let i = find_url(entries, url);
    if i >= 0 { entries.remove(i) } else { entries }
}

/// The entries after `url` is recorded with `state`: it moves to the back (newest), and the
/// oldest entries are dropped until the limits hold again.
pub open spec fn spec_record(entries: Seq<(Seq<char>, ImageStateView)>, url: Seq<char>, state: ImageStateView) -> Seq<(Seq<char>, ImageStateView)> {
    evicted(without_url(entries, url).push((url, state)))
}

/// Taking out entry `i` takes out its bytes.
pub proof fn lemma_total_remove(entries: Seq<(Seq<char>, ImageStateView)>, i: int)
    requires
        0 <= i < entries.len(),
    ensures
        total_bytes(entries.remove(i)) + state_bytes(entries[i].1) == total_bytes(entries),
    decreases entries.len(),
{
    if i < entries.len() - 1 {
        lemma_total_remove(entries.drop_last(), i);
        assert(entries.remove(i).drop_last() == entries.drop_last().remove(i));
        assert(entries.remove(i).last() == entries.last());
    } else {
        assert(entries.remove(i) == entries.drop_last());
    }
}

/// Taking out an entry keeps the URLs distinct.
pub proof fn lemma_distinct_remove(entries: Seq<(Seq<char>, ImageStateView)>, i: int)
    requires
        0 <= i < entries.len(),
        urls_distinct(entries),
    ensures
        urls_distinct(entries.remove(i)),
{
    let r = entries.remove(i);
    assert forall|a: int, b: int| 0 <= a < b < r.len() implies r[a].0 != r[b].0 by {
        let a2 = if a < i { a } else { a + 1 };
        let b2 = if b < i { b } else { b + 1 };
        assert(r[a] == entries[a2]);
        assert(r[b] == entries[b2]);
    }
}

/// The cache of content images.
pub struct ContentImageCache {
    images: IndexMap<String, ContentImageState>,
    bytes: usize,
    fetch_running: bool,
}

impl View for ContentImageCache {
    type V = Seq<(Seq<char>, ImageStateView)>;

    closed spec fn view(&self) -> Seq<(Seq<char>, ImageStateView)> {
        image_map_entries(self.images)
    }
}

impl ContentImageCache {
    /// Whether a batch of downloads is running.
    pub closed spec fn fetching(&self) -> bool {
        self.fetch_running
    }

    /// Whether a batch of downloads is running.
    pub fn fetch_running(&self) -> (b: bool)
        ensures
            b == self.fetching(),
    {
        self.fetch_running
    }

    /// The cache is consistent: URLs are distinct, the byte count is that of the entries, and
    /// the limits hold.
    pub closed spec fn wf(&self) -> bool {
        &&& urls_distinct(self@)
        &&& self.bytes as nat == total_bytes(self@)
        &&& !over_limits(self@)
    }

    /// An empty cache, with no download running.
    pub fn new() -> (c: ContentImageCache)
        ensures
            c.wf(),
            c@ == Seq::<(Seq<char>, ImageStateView)>::empty(),
            !c.fetching(),
    {
        ContentImageCache { images: map_new(), bytes: 0, fetch_running: false }
    }

    /// The bytes held by the cache.
    pub fn byte_count(&self) -> (n: usize)
        requires
            self.wf(),
        ensures
            n == total_bytes(self@),
    {
        self.bytes
    }

    /// The number of URLs the cache knows.
    pub fn len(&self) -> (n: usize)
        ensures
            n == self@.len(),
    {
        map_len(&self.images)
    }

    /// Records `state` for `url`: the entry moves to the back, and the oldest entries are
    /// dropped while the cache holds more than its limits allow.
    pub fn record(&mut self, url: String, state: ContentImageState)
        requires
            old(self).wf(),
            state_bytes(state@) <= usize::MAX - CONTENT_IMAGE_CACHE_BYTES,
        ensures
            final(self).wf(),
            final(self)@ == spec_record(old(self)@, url@, state@),
            final(self).fetching() == old(self).fetching(),
    {
        let ghost start = self@;
        let ghost u = url@;
        let ghost st = state@;
        let ghost running = self.fetch_running;
        let added = state.byte_len();
        let mut bytes = self.bytes + added;
        proof {
            lemma_find_url(start, u);
        }
        match map_shift_remove_entry(&mut self.images, url.as_str()) {
            Some((_, previous)) => {
                proof {
                    lemma_total_remove(start, find_url(start, u));
                }
                let gone = previous.byte_len();
                bytes = if bytes >= gone { bytes - gone } else { 0 };
            },
            None => {},
        }
        let ghost removed = self@;
        assert(removed == without_url(start, u));
        proof {
            if find_url(start, u) >= 0 {
                lemma_distinct_remove(start, find_url(start, u));
                assert forall|j: int| 0 <= j < removed.len() implies removed[j].0 != u by {
                    let i = find_url(start, u);
                    let j2 = if j < i { j } else { j + 1 };
                    assert(removed[j] == start[j2]);
                }
            }
            lemma_find_url(removed, u);
        }
        let _ = map_insert(&mut self.images, url, state);
        let ghost inserted = self@;
        assert(inserted == removed.push((u, st)));
        assert(total_bytes(inserted) == total_bytes(removed) + state_bytes(st)) by {
            assert(inserted.drop_last() == removed);
        }
        assert(urls_distinct(inserted));
        loop
            invariant
                evicted(self@) == evicted(inserted),
                self.fetch_running == running,
                urls_distinct(self@),
                bytes as nat == total_bytes(self@),
            ensures
                self@ == evicted(inserted),
                urls_distinct(self@),
                bytes as nat == total_bytes(self@),
                !over_limits(self@),
            decreases self@.len(),
        {
            let n = map_len(&self.images);
            if !(n > CONTENT_IMAGE_CACHE_LIMIT || bytes > CONTENT_IMAGE_CACHE_BYTES) {
                break;
            }
            let ghost current = self@;
            match map_shift_remove_index(&mut self.images, 0) {
                Some((_, gone)) => {
                    proof {
                        lemma_total_remove(current, 0);
                        lemma_distinct_remove(current, 0);
                        assert(current.remove(0) == current.drop_first());
                    }
                    let g = gone.byte_len();
                    bytes = if bytes >= g { bytes - g } else { 0 };
                },
                None => {
                    assert(current.len() == 0);
                    break;
                },
            }
        }
        self.bytes = bytes;
    }
}

/// The candidate URLs nothing is known about yet, in order.
pub open spec fn unknown_urls(candidates: Seq<Seq<char>>, entries: Seq<(Seq<char>, ImageStateView)>) -> Seq<Seq<char>>
    decreases candidates.len(),
{
    if candidates.len() == 0 {
        Seq::empty()
    } else {
        let prev = unknown_urls(candidates.drop_last(), entries);
        if find_url(entries, candidates.last()) < 0 { prev.push(candidates.last()) } else { prev }
    }
}

/// At most the first `CONTENT_IMAGE_BATCH_LIMIT` of `urls`.
pub open spec fn batch_of(urls: Seq<Seq<char>>) -> Seq<Seq<char>> {
    if urls.len() > CONTENT_IMAGE_BATCH_LIMIT { urls.take(CONTENT_IMAGE_BATCH_LIMIT as int) } else { urls }
}

/// The entries without those still pending, in order.
pub open spec fn without_pending(entries: Seq<(Seq<char>, ImageStateView)>) -> Seq<(Seq<char>, ImageStateView)>
    decreases entries.len(),
{
    if entries.len() == 0 {
        entries
    } else {
        let prev = without_pending(entries.drop_last());
        if entries.last().1 is Pending { prev } else { prev.push(entries.last()) }
    }
}

/// The loaded images of the entries, in order, with their pixel dimensions.
pub open spec fn loaded_list(entries: Seq<(Seq<char>, ImageStateView)>) -> Seq<(Seq<char>, u32, u32)>
    decreases entries.len(),
{
    if entries.len() == 0 {
        Seq::empty()
    } else {
        let prev = loaded_list(entries.drop_last());
        match entries.last().1 {
            ImageStateView::Loaded { width, height, .. } => prev.push((entries.last().0, width, height)),
            _ => prev,
        }
    }
}

/// The state an image download ends in: loaded when it brought data and the image is at least
/// `CONTENT_IMAGE_MIN_PIXELS` in both dimensions, unusable otherwise.
pub open spec fn downloaded_state(data: Option<Seq<u8>>, width: u32, height: u32) -> ImageStateView {
    match data {
        Some(d) => if width >= CONTENT_IMAGE_MIN_PIXELS && height >= CONTENT_IMAGE_MIN_PIXELS {
            ImageStateView::Loaded { data: d, width, height }
        } else {
            ImageStateView::Unusable
        },
        None => ImageStateView::Unusable,
    }
}

/// The entries after each of `urls` is recorded as pending, in order.
pub open spec fn record_pending(entries: Seq<(Seq<char>, ImageStateView)>, urls: Seq<Seq<char>>) -> Seq<(Seq<char>, ImageStateView)>
    decreases urls.len(),
{
    if urls.len() == 0 {
        entries
    } else {
        spec_record(record_pending(entries, urls.drop_last()), urls.last(), ImageStateView::Pending)
    }
}

/// The strings of each of `v`.
pub open spec fn string_chars(v: Seq<String>) -> Seq<Seq<char>> {
    v.map_values(|s: String| s@)
}

/// Leaving out the pending entries keeps the bytes, and URLs distinct.
pub proof fn lemma_without_pending_step(entries: Seq<(Seq<char>, ImageStateView)>, k: int)
    requires
        0 <= k < entries.len(),
    ensures
        without_pending(entries.take(k + 1)) == if entries[k].1 is Pending {
            without_pending(entries.take(k))
        } else {
            without_pending(entries.take(k)).push(entries[k])
        },
{
    assert(entries.take(k + 1).drop_last() == entries.take(k));
}

/// Entries with the same bytes as pending ones removed: the pending hold none.
pub proof fn lemma_total_without_pending(entries: Seq<(Seq<char>, ImageStateView)>)
    ensures
        total_bytes(without_pending(entries)) == total_bytes(entries),
        without_pending(entries).len() <= entries.len(),
    decreases entries.len(),
{
    if entries.len() > 0 {
        lemma_total_without_pending(entries.drop_last());
        let prev = without_pending(entries.drop_last());
        if !(entries.last().1 is Pending) {
            assert(prev.push(entries.last()).drop_last() == prev);
        }
    }
}

impl ContentImageCache {
    /// Of the URLs the content refers to, those nothing is known about yet, at most a batch of
    /// them: a URL that is pending, loaded or unusable is never asked for again.
    pub fn pending_urls(&self, candidates: &[String]) -> (urls: Vec<String>)
        ensures
            string_chars(urls@) == batch_of(unknown_urls(string_chars(candidates@), self@)),
    {
        let ghost cands = string_chars(candidates@);
        let mut urls: Vec<String> = Vec::new();
        let mut i: usize = 0;
        while i < candidates.len()
            invariant
                cands == string_chars(candidates@),
                i <= candidates@.len(),
                string_chars(urls@) == batch_of(unknown_urls(cands.take(i as int), self@)),
                urls@.len() == if unknown_urls(cands.take(i as int), self@).len() > CONTENT_IMAGE_BATCH_LIMIT {
                    CONTENT_IMAGE_BATCH_LIMIT as nat
                } else {
                    unknown_urls(cands.take(i as int), self@).len()
                },
            decreases candidates.len() - i,
        {
            let ghost prev = unknown_urls(cands.take(i as int), self@);
            assert(cands.take(i + 1).drop_last() == cands.take(i as int));
            assert(cands.take(i + 1).last() == candidates@[i as int]@);
            if !map_contains_key(&self.images, candidates[i].as_str()) {
                if urls.len() < CONTENT_IMAGE_BATCH_LIMIT {
                    let ghost before = string_chars(urls@);
                    urls.push(candidates[i].clone());
                    assert(string_chars(urls@) =~= before.push(candidates@[i as int]@));
                    assert(batch_of(prev.push(candidates@[i as int]@)) =~= before.push(candidates@[i as int]@));
                } else {
                    assert(batch_of(prev.push(candidates@[i as int]@)) =~= batch_of(prev));
                }
            }
            i = i + 1;
        }
        assert(cands.take(candidates@.len() as int) == cands);
        urls
    }

    /// Cancels the running batch: forgets the URLs it had claimed, so that whichever article
    /// refers to them next asks for them again.
    pub fn abort(&mut self)
        requires
            old(self).wf(),
        ensures
            final(self).wf(),
            final(self)@ == without_pending(old(self)@),
            !final(self).fetching(),
    {
        let ghost start = self@;
        let mut i: usize = 0;
        let ghost mut k: int = 0;
        proof {
            assert(start.take(0) =~= Seq::<(Seq<char>, ImageStateView)>::empty());
            assert(start.skip(0) =~= start);
            assert(without_pending(start.take(0)) + start.skip(0) =~= start);
        }
        loop
            invariant
                0 <= k <= start.len(),
                self@ == without_pending(start.take(k)) + start.skip(k),
                i == without_pending(start.take(k)).len(),
                urls_distinct(self@),
                self.bytes as nat == total_bytes(self@),
                total_bytes(self@) == total_bytes(start),
                self@.len() <= start.len(),
            ensures
                self@ == without_pending(start),
                urls_distinct(self@),
                self.bytes as nat == total_bytes(self@),
                total_bytes(self@) == total_bytes(start),
                self@.len() <= start.len(),
            decreases start.len() - k,
        {
            let ghost current = self@;
            let n = map_len(&self.images);
            match map_get_index(&self.images, i) {
                None => {
                    proof {
                        assert(k == start.len());
                        assert(start.take(k) == start);
                        assert(current =~= without_pending(start));
                    }
                    break;
                },
                Some((_, state)) => {
                    let pending = match state {
                        ContentImageState::Pending => true,
                        _ => false,
                    };
                    proof {
                        assert(k < start.len());
                        assert(current[i as int] == start[k]);
                        lemma_without_pending_step(start, k);
                    }
                    if pending {
                        let _ = map_shift_remove_index(&mut self.images, i);
                        proof {
                            lemma_total_remove(current, i as int);
                            lemma_distinct_remove(current, i as int);
                            assert(self@ =~= without_pending(start.take(k + 1)) + start.skip(k + 1));
                        }
                    } else {
                        i = i + 1;
                        proof {
                            assert(self@ =~= without_pending(start.take(k + 1)) + start.skip(k + 1));
                        }
                    }
                    proof {
                        k = k + 1;
                    }
                },
            }
        }
        proof {
            lemma_total_without_pending(start);
        }
        self.fetch_running = false;
    }

    /// Every image that is ready to be drawn, with its pixel dimensions, oldest first.
    pub fn loaded_images(&self) -> (images: Vec<(String, u32, u32)>)
        ensures
            images@.map_values(|e: (String, u32, u32)| (e.0@, e.1, e.2)) == loaded_list(self@),
    {
        let mut images: Vec<(String, u32, u32)> = Vec::new();
        let n = map_len(&self.images);
        let mut i: usize = 0;
        while i < n
            invariant
                n == self@.len(),
                i <= n,
                images@.map_values(|e: (String, u32, u32)| (e.0@, e.1, e.2)) == loaded_list(self@.take(i as int)),
            decreases n - i,
        {
            assert(self@.take(i + 1).drop_last() == self@.take(i as int));
            let ghost before = images@.map_values(|e: (String, u32, u32)| (e.0@, e.1, e.2));
            match map_get_index(&self.images, i) {
                Some((url, state)) => {
                    match state {
                        ContentImageState::Loaded { width, height, .. } => {
                            images.push((url.clone(), *width, *height));
                            assert(images@.map_values(|e: (String, u32, u32)| (e.0@, e.1, e.2))
                                =~= before.push((self@[i as int].0, *width, *height)));
                        },
                        _ => {},
                    }
                },
                None => {},
            }
            i = i + 1;
        }
        assert(self@.take(n as int) == self@);
        images
    }

    /// The bytes of the loaded image at `url`, if there is one.
    pub fn image_data(&self, url: &str) -> (data: Option<&[u8]>)
        ensures
            ({
                let i = find_url(self@, url@);
                match data {
                    Some(d) => i >= 0 && (self@[i].1 matches ImageStateView::Loaded { data: bytes, .. } && d@ == bytes),
                    None => !(i >= 0 && self@[i].1 is Loaded),
                }
            }),
    {
        match map_get(&self.images, url) {
            Some(ContentImageState::Loaded { data, .. }) => Some(data.as_slice()),
            _ => None,
        }
    }

    /// Records what a finished download of `url` brought, when it belongs to the article that
    /// is shown; whether anything was recorded.
    pub fn on_image_finished(&mut self, is_current: bool, url: String, data: Option<Vec<u8>>, width: u32, height: u32) -> (changed: bool)
        requires
            old(self).wf(),
            data matches Some(d) ==> d@.len() <= usize::MAX - CONTENT_IMAGE_CACHE_BYTES,
        ensures
            final(self).wf(),
            changed == is_current,
            final(self).fetching() == old(self).fetching(),
            final(self)@ == if is_current {
                spec_record(old(self)@, url@, downloaded_state(match data { Some(d) => Some(d@), None => None }, width, height))
            } else {
                old(self)@
            },
    {
        if !is_current {
            return false;
        }
        let state = match data {
            Some(d) => {
                if width >= CONTENT_IMAGE_MIN_PIXELS && height >= CONTENT_IMAGE_MIN_PIXELS {
                    ContentImageState::Loaded { data: d, width, height }
                } else {
                    ContentImageState::Unusable
                }
            },
            None => ContentImageState::Unusable,
        };
        self.record(url, state);
        true
    }

    /// Marks the URLs of a new batch pending, so that they are not selected again, and notes
    /// that a batch is running.
    pub fn start_fetch(&mut self, urls: &[String])
        requires
            old(self).wf(),
        ensures
            final(self).wf(),
            final(self)@ == record_pending(old(self)@, string_chars(urls@)),
            final(self).fetching(),
    {
        let ghost start = self@;
        let ghost all = string_chars(urls@);
        let mut i: usize = 0;
        while i < urls.len()
            invariant
                all == string_chars(urls@),
                i <= urls@.len(),
                self.wf(),
                self@ == record_pending(start, all.take(i as int)),
            decreases urls.len() - i,
        {
            assert(all.take(i + 1).drop_last() == all.take(i as int));
            assert(all.take(i + 1).last() == urls@[i as int]@);
            self.record(urls[i].clone(), ContentImageState::Pending);
            i = i + 1;
        }
        assert(all.take(urls@.len() as int) == all);
        self.fetch_running = true;
    }

    /// Notes that the running batch ended, when it belongs to the article that is shown.
    pub fn on_images_finished(&mut self, is_current: bool)
        ensures
            final(self)@ == old(self)@,
            final(self).fetching() == (old(self).fetching() && !is_current),
            old(self).wf() ==> final(self).wf(),
    {
        if is_current {
            self.fetch_running = false;
        }
    }
}

} // verus!
