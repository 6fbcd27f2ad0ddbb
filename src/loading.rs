//! Decisions of the load-and-display routine: what to decode ahead of use, and
//! how a fresh decode enters the cache.

use vstd::prelude::*;
use crate::cache::{
    Entries,
    ImageCache,
    LoadedImageData,
    has_key,
    promoted,
    put_entries,
};
use crate::navigation::{peek_next_of, peek_prev_of};
use crate::services::navigation_service::NavigationService;

verus! {

/// The entries after a cache lookup of `k`, when there is a `k`.
pub open spec fn looked_up(e: Entries, k: Option<Seq<char>>) -> Entries {
    match k {
        Some(p) => promoted(e, p),
        None => e,
    }
}

/// `k`, as a list, when it is given and `e` lacks it.
pub open spec fn missing_from(e: Entries, k: Option<Seq<char>>) -> Seq<Seq<char>> {
    match k {
        Some(p) => if has_key(e, p) {
            Seq::empty()
        } else {
            seq![p]
        },
        None => Seq::empty(),
    }
}

/// The neighbours of the current image to decode ahead of use: the next image,
/// then the previous one (neither wrapping), each only when the cache lacks it.
/// Each lookup counts as a use of a cached neighbour.
pub fn prefetch_targets(navigation: &NavigationService, cache: &mut ImageCache) -> (r: Vec<String>)
    requires
        navigation.wf(),
        old(cache).wf(),
    ensures
        final(cache).wf(),
        final(cache)@.capacity == old(cache)@.capacity,
        final(cache)@.entries == looked_up(
            looked_up(old(cache)@.entries, peek_next_of(navigation@)),
            peek_prev_of(navigation@),
        ),
        r@.map_values(|s: String| s@) == missing_from(old(cache)@.entries, peek_next_of(navigation@))
            + missing_from(
            looked_up(old(cache)@.entries, peek_next_of(navigation@)),
            peek_prev_of(navigation@),
        ),
{
    let (next, prev) = navigation.get_adjacent_paths();
    let mut targets: Vec<String> = Vec::new();
    if let Some(p) = next {
        if !cache.contains(&p) {
            targets.push(p);
        }
    }
    if let Some(p) = prev {
        if !cache.contains(&p) {
            targets.push(p);
        }
    }
    assert(targets@.map_values(|s: String| s@) =~= missing_from(
        old(cache)@.entries,
        peek_next_of(navigation@),
    ) + missing_from(
        looked_up(old(cache)@.entries, peek_next_of(navigation@)),
        peek_prev_of(navigation@),
    ));
    targets
}

/// Stores a fresh decode of `path` in the cache, as the most recently used
/// entry, and returns a copy of the stored image.
pub fn store_decoded(cache: &mut ImageCache, path: String, data: LoadedImageData) -> (r:
    LoadedImageData)
    requires
        old(cache).wf(),
    ensures
        final(cache).wf(),
        final(cache)@.capacity == old(cache)@.capacity,
        final(cache)@.entries == put_entries(old(cache)@.entries, path@, data@, old(cache)@.capacity),
        r@ == data@,
{
    let copy = data.duplicate();
    cache.put(path, data);
    copy
}

} // verus!
