//! What the content image cache promises across its operations.

use vstd::prelude::*;

use crate::content_images::{
    batch_of, evicted, find_url, lemma_find_url, over_limits, spec_record, state_bytes,
    total_bytes, unknown_urls, urls_distinct, without_pending, without_url, ImageStateView,
    CONTENT_IMAGE_CACHE_BYTES,
};

verus! {

/// Dropping the oldest entries never drops the newest one when it fits the limits on its own.
proof fn lemma_evicted_keeps_last(s: Seq<(Seq<char>, ImageStateView)>)
    requires
        s.len() > 0,
        state_bytes(s.last().1) <= CONTENT_IMAGE_CACHE_BYTES,
    ensures
        evicted(s).len() > 0,
        evicted(s).last() == s.last(),
        exists|k: int| 0 <= k < s.len() && evicted(s) == s.skip(k),
    decreases s.len(),
{
    if over_limits(s) {
        if s.len() == 1 {
            assert(s.drop_last().len() == 0);
            assert(total_bytes(s.drop_last()) == 0);
            assert(total_bytes(s) == state_bytes(s.last().1));
            assert(false);
        }
        let rest = s.drop_first();
        assert(rest.last() == s.last());
        lemma_evicted_keeps_last(rest);
        let k = choose|k: int| 0 <= k < rest.len() && evicted(rest) == rest.skip(k);
        assert(rest.skip(k) =~= s.skip(k + 1));
    } else {
        assert(s.skip(0) =~= s);
    }
}

/// A recorded image can be found again: after `url` is recorded with a state whose bytes fit
/// the cache on their own, the entry for `url` is the newest one and holds that state.
pub proof fn law_recorded_image_is_found(entries: Seq<(Seq<char>, ImageStateView)>, url: Seq<char>, state: ImageStateView)
    requires
        urls_distinct(entries),
        state_bytes(state) <= CONTENT_IMAGE_CACHE_BYTES,
    ensures
        find_url(spec_record(entries, url, state), url) == spec_record(entries, url, state).len() - 1,
        spec_record(entries, url, state).last() == (url, state),
{
    let removed = without_url(entries, url);
    lemma_find_url(entries, url);
    assert forall|j: int| 0 <= j < removed.len() implies removed[j].0 != url by {
        let i = find_url(entries, url);
        if i >= 0 {
            let j2 = if j < i { j } else { j + 1 };
            assert(removed[j] == entries[j2]);
        }
    }
    let pushed = removed.push((url, state));
    lemma_evicted_keeps_last(pushed);
    let r = evicted(pushed);
    let k = choose|k: int| 0 <= k < pushed.len() && r == pushed.skip(k);
    assert forall|j: int| 0 <= j < r.len() - 1 implies r[j].0 != url by {
        assert(r[j] == pushed[j + k]);
        assert(pushed[j + k] == removed[j + k]);
    }
    lemma_find_url(r, url);
}

/// An image whose state is known is never asked for again: no URL of a batch is in the cache.
pub proof fn law_batch_urls_are_unknown(candidates: Seq<Seq<char>>, entries: Seq<(Seq<char>, ImageStateView)>)
    ensures
        forall|i: int| 0 <= i < batch_of(unknown_urls(candidates, entries)).len()
            ==> find_url(entries, #[trigger] batch_of(unknown_urls(candidates, entries))[i]) < 0,
    decreases candidates.len(),
{
    if candidates.len() > 0 {
        law_batch_urls_are_unknown(candidates.drop_last(), entries);
        let prev = unknown_urls(candidates.drop_last(), entries);
        assert forall|i: int| 0 <= i < prev.len() implies find_url(entries, prev[i]) < 0 by {
            lemma_unknown_prefix(candidates.drop_last(), entries, i);
        }
    }
    assert forall|i: int| 0 <= i < batch_of(unknown_urls(candidates, entries)).len()
        implies find_url(entries, #[trigger] batch_of(unknown_urls(candidates, entries))[i]) < 0 by {
        lemma_unknown_prefix(candidates, entries, i);
    }
}

/// Every URL of `unknown_urls` is unknown to the cache.
proof fn lemma_unknown_prefix(candidates: Seq<Seq<char>>, entries: Seq<(Seq<char>, ImageStateView)>, i: int)
    requires
        0 <= i < unknown_urls(candidates, entries).len(),
    ensures
        find_url(entries, unknown_urls(candidates, entries)[i]) < 0,
    decreases candidates.len(),
{
    if candidates.len() > 0 {
        let prev = unknown_urls(candidates.drop_last(), entries);
        if i < prev.len() {
            lemma_unknown_prefix(candidates.drop_last(), entries, i);
        }
    }
}

/// Cancelling a batch keeps every image that was loaded or found unusable, and the bytes held:
/// only pending entries go, and nothing pending is left.
pub proof fn law_abort_forgets_only_pending(entries: Seq<(Seq<char>, ImageStateView)>)
    ensures
        total_bytes(without_pending(entries)) == total_bytes(entries),
        forall|i: int| 0 <= i < without_pending(entries).len() ==> (#[trigger] without_pending(entries)[i]).1 !is Pending,
        forall|i: int| 0 <= i < entries.len() && (#[trigger] entries[i]).1 !is Pending ==> without_pending(entries).contains(entries[i]),
    decreases entries.len(),
{
    if entries.len() > 0 {
        law_abort_forgets_only_pending(entries.drop_last());
        let prev = without_pending(entries.drop_last());
        if !(entries.last().1 is Pending) {
            assert(prev.push(entries.last()).drop_last() == prev);
        }
        assert forall|i: int| 0 <= i < entries.len() && (#[trigger] entries[i]).1 !is Pending implies without_pending(entries).contains(entries[i]) by {
            if i < entries.len() - 1 {
                assert(entries[i] == entries.drop_last()[i]);
                assert(prev.contains(entries[i]));
                let j = choose|j: int| 0 <= j < prev.len() && prev[j] == entries[i];
                if !(entries.last().1 is Pending) {
                    assert(without_pending(entries)[j] == entries[i]);
                }
            } else {
                assert(without_pending(entries)[prev.len() as int] == entries[i]);
            }
        }
    }
}

/// Dropping the oldest entries leaves a suffix within the limits.
proof fn lemma_evicted_suffix(s: Seq<(Seq<char>, ImageStateView)>)
    ensures
        exists|k: int| 0 <= k <= s.len() && evicted(s) == s.skip(k),
        !over_limits(evicted(s)) || evicted(s).len() == 0,
    decreases s.len(),
{
    if s.len() > 0 && over_limits(s) {
        let rest = s.drop_first();
        lemma_evicted_suffix(rest);
        let k = choose|k: int| 0 <= k <= rest.len() && evicted(rest) == rest.skip(k);
        assert(rest.skip(k) =~= s.skip(k + 1));
    } else {
        assert(s.skip(0) =~= s);
    }
}

/// Recording an image evicts only the oldest entries: what is left is the entries without the
/// one for `url`, in their old order and with their old states, followed by `url` with `state`,
/// less some entries at the front; and the cache is then within its limits (or empty).
pub proof fn law_record_evicts_only_the_oldest(entries: Seq<(Seq<char>, ImageStateView)>, url: Seq<char>, state: ImageStateView)
    ensures
        exists|k: int|
            0 <= k <= without_url(entries, url).len() + 1 && spec_record(entries, url, state) == without_url(
                entries,
                url,
            ).push((url, state)).skip(k),
        !over_limits(spec_record(entries, url, state)) || spec_record(entries, url, state).len() == 0,
{
    lemma_evicted_suffix(without_url(entries, url).push((url, state)));
}

} // verus!
