//! A bounded least-recently-used cache of decoded images, keyed by path.

use vstd::prelude::*;
use lru::LruCache;

verus! {

/// A decoded image with the metadata shown beside it.
pub struct LoadedImageData {
    /// RGB pixels, 8 bits per channel.
    pub data: Vec<u8>,
    pub width: u32,
    pub height: u32,
    /// The rating stored in the file's metadata, if any.
    pub rating: Option<u8>,
    /// The generation-parameters text embedded in the file, if any.
    pub sd_parameters: Option<String>,
    pub file_name: String,
    pub file_size_formatted: String,
    pub created_date: String,
    pub modified_date: String,
}

/// What a `LoadedImageData` holds, as mathematical values.
pub struct ImageDataView {
    pub data: Seq<u8>,
    pub width: u32,
    pub height: u32,
    pub rating: Option<u8>,
    pub sd_parameters: Option<Seq<char>>,
    pub file_name: Seq<char>,
    pub file_size_formatted: Seq<char>,
    pub created_date: Seq<char>,
    pub modified_date: Seq<char>,
}

impl View for LoadedImageData {
    type V = ImageDataView;

    open spec fn view(&self) -> ImageDataView {
        ImageDataView {
            data: self.data@,
            width: self.width,
            height: self.height,
            rating: self.rating,
            sd_parameters: match self.sd_parameters {
                Some(s) => Some(s@),
                None => None,
            },
            file_name: self.file_name@,
            file_size_formatted: self.file_size_formatted@,
            created_date: self.created_date@,
            modified_date: self.modified_date@,
        }
    }
}

impl LoadedImageData {
    /// A copy of the image and its metadata.
    pub fn duplicate(&self) -> (r: Self)
        ensures
            r@ == self@,
    {
        LoadedImageData {
            data: self.data.clone(),
            width: self.width,
            height: self.height,
            rating: self.rating,
            sd_parameters: match &self.sd_parameters {
                Some(s) => Some(s.clone()),
                None => None,
            },
            file_name: self.file_name.clone(),
            file_size_formatted: self.file_size_formatted.clone(),
            created_date: self.created_date.clone(),
            modified_date: self.modified_date.clone(),
        }
    }
}

/// The cached entries, least recently used first.
pub type Entries = Seq<(Seq<char>, ImageDataView)>;

pub open spec fn has_key(e: Entries, k: Seq<char>) -> bool {
    exists|i: int| 0 <= i < e.len() && #[trigger] e[i].0 == k
}

pub open spec fn key_index(e: Entries, k: Seq<char>) -> int {
    choose|i: int| 0 <= i < e.len() && #[trigger] e[i].0 == k
}

/// No key occurs twice.
pub open spec fn keys_unique(e: Entries) -> bool {
    forall|i: int, j: int| 0 <= i < e.len() && 0 <= j < e.len() && i != j ==> #[trigger] e[i].0 != #[trigger] e[j].0
}

/// The keys, least recently used first.
pub open spec fn keys_of(e: Entries) -> Seq<Seq<char>> {
    e.map_values(|p: (Seq<char>, ImageDataView)| p.0)
}

/// The entries after a use of `k`: its entry becomes the most recent one.
pub open spec fn promoted(e: Entries, k: Seq<char>) -> Entries {
    if has_key(e, k) {
        let i = key_index(e, k);
        e.remove(i).push(e[i])
    } else {
        e
    }
}

/// The entries after storing `v` under `k` with room for `cap` entries: a present
/// key gets the new value and becomes the most recent; a new key is added as the
/// most recent, after the least recent entry leaves a full cache.
pub open spec fn put_entries(e: Entries, k: Seq<char>, v: ImageDataView, cap: nat) -> Entries {
    if has_key(e, k) {
        e.remove(key_index(e, k)).push((k, v))
    } else if e.len() >= cap {
        e.drop_first().push((k, v))
    } else {
        e.push((k, v))
    }
}

/// The entries after the value under `k`, if there is one, became `v`; the order
/// stays.
pub open spec fn replaced(e: Entries, k: Seq<char>, v: ImageDataView) -> Entries {
    if has_key(e, k) {
        e.update(key_index(e, k), (k, v))
    } else {
        e
    }
}

/// The entries after the rating under `k`, if there is one, became `rating`.
pub open spec fn with_rating(e: Entries, k: Seq<char>, rating: Option<u8>) -> Entries {
    if has_key(e, k) {
        let v = e[key_index(e, k)].1;
        e.update(key_index(e, k), (k, ImageDataView { rating, ..v }))
    } else {
        e
    }
}

/// Updating a rating leaves the order of use exactly as it was: the entry is
/// neither promoted nor demoted, and no entry comes or goes.
pub proof fn lemma_update_rating_keeps_order(e: Entries, k: Seq<char>, rating: Option<u8>)
    ensures
        keys_of(with_rating(e, k, rating)) == keys_of(e),
{
    if has_key(e, k) {
        assert(keys_of(with_rating(e, k, rating)) =~= keys_of(e));
    }
}

/// Storing a new key in a full cache evicts exactly the least recently used
/// entry; the others keep their order and the new key becomes the most recent.
pub proof fn lemma_put_evicts_least_recent(
    e: Entries,
    k: Seq<char>,
    v: ImageDataView,
    cap: nat,
)
    requires
        keys_unique(e),
        e.len() == cap,
        cap > 0,
        !has_key(e, k),
    ensures
        keys_of(put_entries(e, k, v, cap)) == keys_of(e).drop_first().push(k),
        !has_key(put_entries(e, k, v, cap), e[0].0),
{
    let p = put_entries(e, k, v, cap);
    assert(keys_of(p) =~= keys_of(e).drop_first().push(k));
    if has_key(p, e[0].0) {
        let i = choose|i: int| 0 <= i < p.len() && #[trigger] p[i].0 == e[0].0;
        if i < p.len() - 1 {
            assert(p[i] == e[i + 1]);
        }
    }
}

#[verifier::external_type_specification]
#[verifier::external_body]
#[verifier::reject_recursive_types(K)]
#[verifier::reject_recursive_types(V)]
#[verifier::reject_recursive_types(S)]
pub struct ExLruCache<K, V, S>(LruCache<K, V, S>);

#[verifier::external_type_specification]
#[verifier::external_body]
pub struct ExDefaultHasher(lru::DefaultHasher);

/// The entries of an LRU cache, least recently used first.
pub uninterp spec fn lru_entries(c: LruCache<String, LoadedImageData>) -> Entries;

/// The number of entries an LRU cache was made to hold.
pub uninterp spec fn lru_capacity(c: LruCache<String, LoadedImageData>) -> nat;

/// Relies on lru::LruCache::new: an empty cache that holds at most `capacity`
/// entries.
#[verifier::external_body]
fn lru_new(capacity: usize) -> (r: LruCache<String, LoadedImageData>)
    requires
        capacity > 0,
    ensures
        lru_entries(r) == Seq::<(Seq<char>, ImageDataView)>::empty(),
        lru_capacity(r) == capacity,
{
    LruCache::new(std::num::NonZeroUsize::new(capacity).unwrap())
}

/// Relies on lru::LruCache::put: replaces the value of a present key and makes
/// it the most recent; adds a new key as the most recent, first evicting the least
/// recent entry when the cache is full.
#[verifier::external_body]
fn lru_put(c: &mut LruCache<String, LoadedImageData>, k: String, v: LoadedImageData)
    ensures
        lru_entries(*final(c)) == put_entries(lru_entries(*old(c)), k@, v@, lru_capacity(*old(c))),
        lru_capacity(*final(c)) == lru_capacity(*old(c)),
{
    c.put(k, v);
}

/// Relies on lru::LruCache::promote: makes the entry of `k`, if any, the most
/// recent.
#[verifier::external_body]
fn lru_promote(c: &mut LruCache<String, LoadedImageData>, k: &String)
    ensures
        lru_entries(*final(c)) == promoted(lru_entries(*old(c)), k@),
        lru_capacity(*final(c)) == lru_capacity(*old(c)),
{
    c.promote(k);
}

/// Relies on lru::LruCache::peek: the value of `k`, without a change of order.
#[verifier::external_body]
fn lru_peek<'a>(c: &'a LruCache<String, LoadedImageData>, k: &String) -> (r: Option<
    &'a LoadedImageData,
>)
    ensures
        r is Some <==> has_key(lru_entries(*c), k@),
        r matches Some(v) ==> v@ == lru_entries(*c)[key_index(lru_entries(*c), k@)].1,
{
    c.peek(k)
}

/// Relies on lru::LruCache::peek_mut: the value of `k`, if present, is replaced
/// in place, without a change of order.
#[verifier::external_body]
fn lru_replace_in_place(c: &mut LruCache<String, LoadedImageData>, k: &String, v: LoadedImageData)
    ensures
        lru_entries(*final(c)) == replaced(lru_entries(*old(c)), k@, v@),
        lru_capacity(*final(c)) == lru_capacity(*old(c)),
{
    if let Some(slot) = c.peek_mut(k) {
        *slot = v;
    }
}

/// What an image cache holds: its entries, least recently used first, and how
/// many it may hold.
pub struct CacheView {
    pub entries: Entries,
    pub capacity: nat,
}

/// A least-recently-used cache of decoded images, keyed by absolute path.
pub struct ImageCache {
    cache: LruCache<String, LoadedImageData>,
}

impl View for ImageCache {
    type V = CacheView;

    closed spec fn view(&self) -> CacheView {
        CacheView { entries: lru_entries(self.cache), capacity: lru_capacity(self.cache) }
    }
}

/// Keys stay unique when every entry of `p` takes its key from a different
/// entry of `e`, as `m` maps them.
proof fn lemma_unique_via(e: Entries, p: Entries, m: spec_fn(int) -> int)
    requires
        keys_unique(e),
        forall|a: int| 0 <= a < p.len() ==> 0 <= #[trigger] m(a) < e.len() && p[a].0 == e[m(a)].0,
        forall|a: int, b: int|
            0 <= a < p.len() && 0 <= b < p.len() && a != b ==> #[trigger] m(a) != #[trigger] m(b),
    ensures
        keys_unique(p),
{
    assert forall|a: int, b: int| 0 <= a < p.len() && 0 <= b < p.len() && a != b implies #[trigger] p[a].0
        != #[trigger] p[b].0 by {
        assert(p[a].0 == e[m(a)].0 && p[b].0 == e[m(b)].0);
    }
}

/// Adding a key that is not there keeps the keys unique.
proof fn lemma_push_fresh_unique(e: Entries, k: Seq<char>, v: ImageDataView)
    requires
        keys_unique(e),
        !has_key(e, k),
    ensures
        keys_unique(e.push((k, v))),
{
    let p = e.push((k, v));
    assert forall|a: int, b: int| 0 <= a < p.len() && 0 <= b < p.len() && a != b implies #[trigger] p[a].0
        != #[trigger] p[b].0 by {
        if a < e.len() && b < e.len() {
            assert(p[a] == e[a] && p[b] == e[b]);
        } else if a < e.len() {
            assert(p[a] == e[a]);
        } else {
            assert(p[b] == e[b]);
        }
    }
}

/// The index map of moving entry `i` of a list of `n` entries to the end.
pub open spec fn moved_last(i: int, n: int) -> spec_fn(int) -> int {
    |a: int| if a == n - 1 { i } else if a < i { a } else { a + 1 }
}

impl ImageCache {
    /// At most `capacity` entries, each key once.
    pub open spec fn wf(&self) -> bool {
        &&& self@.capacity > 0
        &&& self@.entries.len() <= self@.capacity
        &&& keys_unique(self@.entries)
    }

    /// An empty cache for at most `capacity` images.
    pub fn new(capacity: usize) -> (r: Self)
        requires
            capacity > 0,
        ensures
            r.wf(),
            r@.entries.len() == 0,
            r@.capacity == capacity,
    {
        ImageCache { cache: lru_new(capacity) }
    }

    /// A copy of the image cached under `path`, if any; a hit makes it the most
    /// recently used entry.
    pub fn get(&mut self, path: &String) -> (r: Option<LoadedImageData>)
        requires
            old(self).wf(),
        ensures
            final(self).wf(),
            final(self)@.capacity == old(self)@.capacity,
            final(self)@.entries == promoted(old(self)@.entries, path@),
            r is Some <==> has_key(old(self)@.entries, path@),
            r matches Some(d) ==> d@ == old(self)@.entries[key_index(old(self)@.entries, path@)].1,
    {
        let ghost e = self@.entries;
        lru_promote(&mut self.cache, path);
        proof {
            if has_key(e, path@) {
                self.lemma_promoted_keeps(e, path@);
            }
        }
        match lru_peek(&self.cache, path) {
            Some(d) => Some(d.duplicate()),
            None => None,
        }
    }

    proof fn lemma_promoted_keeps(&self, e: Entries, k: Seq<char>)
        requires
            has_key(e, k),
            keys_unique(e),
            self@.entries == promoted(e, k),
        ensures
            keys_unique(self@.entries),
            self@.entries.len() == e.len(),
            has_key(self@.entries, k),
            self@.entries[key_index(self@.entries, k)].1 == e[key_index(e, k)].1,
    {
        let i = key_index(e, k);
        let p = self@.entries;
        let last = (p.len() - 1) as int;
        assert(p[last] == e[i]);
        let m = moved_last(i, p.len() as int);
        assert forall|a: int| 0 <= a < p.len() implies 0 <= #[trigger] m(a) < e.len() && p[a].0 == e[m(
            a,
        )].0 by {
            if a != last {
                assert(p[a] == e[m(a)]);
            }
        }
        lemma_unique_via(e, p, m);
        assert(p[last].0 == k);
    }

    /// Stores `image_data` under `path` as the most recently used entry, evicting
    /// the least recently used one when a new path finds the cache full.
    pub fn put(&mut self, path: String, image_data: LoadedImageData)
        requires
            old(self).wf(),
        ensures
            final(self).wf(),
            final(self)@.capacity == old(self)@.capacity,
            final(self)@.entries == put_entries(
                old(self)@.entries,
                path@,
                image_data@,
                old(self)@.capacity,
            ),
    {
        let ghost e = self@.entries;
        let ghost k = path@;
        let ghost image_data_view = image_data@;
        lru_put(&mut self.cache, path, image_data);
        proof {
            let p = self@.entries;
            let last = (p.len() - 1) as int;
            if has_key(e, k) {
                let i = key_index(e, k);
                let m = moved_last(i, p.len() as int);
                assert forall|a: int| 0 <= a < p.len() implies 0 <= #[trigger] m(a) < e.len() && p[a].0
                    == e[m(a)].0 by {
                    if a != last {
                        assert(p[a] == e[m(a)]);
                    }
                }
                lemma_unique_via(e, p, m);
            } else {
                let v = image_data_view;
                let e2 = e.push((k, v));
                lemma_push_fresh_unique(e, k, v);
                let m = if e.len() >= self@.capacity {
                    |a: int| a + 1
                } else {
                    |a: int| a
                };
                assert forall|a: int| 0 <= a < p.len() implies 0 <= #[trigger] m(a) < e2.len() && p[a].0
                    == e2[m(a)].0 by {
                    assert(p[a] == e2[m(a)]);
                }
                lemma_unique_via(e2, p, m);
            }
        }
    }

    /// Sets the rating of the image cached under `path`, if any, leaving the
    /// order of use unchanged.
    pub fn update_rating(&mut self, path: &String, rating: Option<u8>)
        requires
            old(self).wf(),
        ensures
            final(self).wf(),
            final(self)@.capacity == old(self)@.capacity,
            final(self)@.entries == with_rating(old(self)@.entries, path@, rating),
    {
        let ghost e = self@.entries;
        let updated = match lru_peek(&self.cache, path) {
            Some(d) => {
                let mut u = d.duplicate();
                u.rating = rating;
                u
            },
            None => {
                return;
            },
        };
        lru_replace_in_place(&mut self.cache, path, updated);
        proof {
            assert(self@.entries =~= with_rating(e, path@, rating));
            let p = self@.entries;
            let m = |a: int| a;
            assert forall|a: int| 0 <= a < p.len() implies 0 <= #[trigger] m(a) < e.len() && p[a].0
                == e[m(a)].0 by {
                assert(p[a].0 == e[a].0);
            }
            lemma_unique_via(e, p, m);
        }
    }

    /// Whether an image is cached under `path`; like `get`, a hit counts as a use
    /// and makes the entry the most recently used.
    pub fn contains(&mut self, path: &String) -> (r: bool)
        requires
            old(self).wf(),
        ensures
            final(self).wf(),
            final(self)@.capacity == old(self)@.capacity,
            final(self)@.entries == promoted(old(self)@.entries, path@),
            r == has_key(old(self)@.entries, path@),
    {
        let ghost e = self@.entries;
        lru_promote(&mut self.cache, path);
        proof {
            if has_key(e, path@) {
                self.lemma_promoted_keeps(e, path@);
            }
        }
        lru_peek(&self.cache, path).is_some()
    }
}

} // verus!
