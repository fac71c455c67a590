//! A least-recently-used cache of prepared images, keyed by the SHA-1 digest of
//! the file bytes and the mode they were prepared in.
use vstd::prelude::*;

use crate::bindings::{sha1_digest, sha1_digest_of};
use crate::error::ImageProcessingError;
use crate::prompt_image::{
    load_for_prompt_bytes, prompt_image_outcome, EncodedImage, ImageContent, PromptImageMode,
};

verus! {

/// The number of prepared images kept by `PromptImageCache::new_default`.
pub const IMAGE_CACHE_CAPACITY: usize = 32;

/// What an entry is found by: the digest of the file bytes and the mode.
pub type CacheKey = (Seq<u8>, PromptImageMode);

/// The key of a cached image.
#[derive(Debug, Clone, Copy)]
pub struct ImageCacheKey {
    pub digest: [u8; 20],
    pub mode: PromptImageMode,
}

impl ImageCacheKey {
    /// The digest and mode as values.
    pub open spec fn key(&self) -> CacheKey {
        (self.digest@, self.mode)
    }

    /// Whether the two keys are the same.
    pub fn same_as(&self, other: &ImageCacheKey) -> (r: bool)
        ensures
            r == (self.key() == other.key()),
    {
        if self.mode != other.mode {
            return false;
        }
        let mut i: usize = 0;
        while i < 20
            invariant
                i <= 20,
                self.digest@.len() == 20,
                other.digest@.len() == 20,
                forall|j: int| 0 <= j < i ==> self.digest@[j] == other.digest@[j],
            decreases 20 - i,
        {
            if self.digest[i] != other.digest[i] {
                return false;
            }
            i += 1;
        }
        assert(self.digest@ =~= other.digest@);
        true
    }
}

struct CacheEntry {
    key: ImageCacheKey,
    image: EncodedImage,
}

impl CacheEntry {
    spec fn view_entry(self) -> (CacheKey, ImageContent) {
        (self.key.key(), self.image.content())
    }
}

/// The position of `key` among `entries`, if it is there.
pub open spec fn position_of(entries: Seq<(CacheKey, ImageContent)>, key: CacheKey) -> Option<int> {
    if exists|i: int| 0 <= i < entries.len() && #[trigger] entries[i].0 == key {
        Some(choose|i: int| 0 <= i < entries.len() && #[trigger] entries[i].0 == key)
    } else {
        None
    }
}

/// No key occurs twice.
pub open spec fn keys_distinct(entries: Seq<(CacheKey, ImageContent)>) -> bool {
    forall|i: int, j: int|
        0 <= i < entries.len() && 0 <= j < entries.len() && i != j ==> #[trigger] entries[i].0
            != #[trigger] entries[j].0
}

/// The entries after the one at `i` was used: it moves to the most recent end.
pub open spec fn touched(entries: Seq<(CacheKey, ImageContent)>, i: int) -> Seq<(CacheKey, ImageContent)> {
    entries.remove(i).push(entries[i])
}

/// The entries after `content` is stored under `key` in a cache holding at most
/// `capacity`: an entry with that key is replaced; otherwise, when the cache is
/// full, the least recently used entry leaves. The new entry is the most recent.
pub open spec fn stored(
    entries: Seq<(CacheKey, ImageContent)>,
    key: CacheKey,
    content: ImageContent,
    capacity: nat,
) -> Seq<(CacheKey, ImageContent)> {
    match position_of(entries, key) {
        Some(i) => entries.remove(i).push((key, content)),
        None => if entries.len() >= capacity {
            entries.drop_first().push((key, content))
        } else {
            entries.push((key, content))
        },
    }
}

/// A cache of prepared images, least recently used first.
pub struct PromptImageCache {
    capacity: usize,
    entries: Vec<CacheEntry>,
}

spec fn entries_view(entries: Seq<CacheEntry>) -> Seq<(CacheKey, ImageContent)> {
    entries.map_values(|e: CacheEntry| e.view_entry())
}

impl View for PromptImageCache {
    type V = Seq<(CacheKey, ImageContent)>;

    closed spec fn view(&self) -> Seq<(CacheKey, ImageContent)> {
        entries_view(self.entries@)
    }
}

impl PromptImageCache {
    /// The most entries the cache keeps.
    pub closed spec fn capacity_spec(&self) -> nat {
        self.capacity as nat
    }

    /// The cache is well formed: a positive capacity that it does not exceed,
    /// and no key twice.
    pub open spec fn wf(&self) -> bool {
        &&& 1 <= self.capacity_spec()
        &&& self@.len() <= self.capacity_spec()
        &&& keys_distinct(self@)
    }

    /// Every cache is well formed.
    #[verifier::type_invariant]
    closed spec fn always_well_formed(&self) -> bool {
        self.wf()
    }

    /// An empty cache that keeps at most `capacity` images.
    pub fn new(capacity: usize) -> (r: PromptImageCache)
        requires
            capacity >= 1,
        ensures
            r.wf(),
            r@ == Seq::<(CacheKey, ImageContent)>::empty(),
            r.capacity_spec() == capacity,
    {
        let r = PromptImageCache { capacity, entries: Vec::new() };
        assert(r@ =~= Seq::<(CacheKey, ImageContent)>::empty());
        r
    }

    /// An empty cache of `IMAGE_CACHE_CAPACITY` images.
    pub fn new_default() -> (r: PromptImageCache)
        ensures
            r.wf(),
            r@ == Seq::<(CacheKey, ImageContent)>::empty(),
            r.capacity_spec() == IMAGE_CACHE_CAPACITY,
    {
        PromptImageCache::new(IMAGE_CACHE_CAPACITY)
    }

    /// The number of cached images.
    pub fn len(&self) -> (r: usize)
        ensures
            r == self@.len(),
    {
        self.entries.len()
    }

    /// Forgets every cached image.
    pub fn clear(&mut self)
        ensures
            final(self).wf(),
            final(self)@ == Seq::<(CacheKey, ImageContent)>::empty(),
            final(self).capacity_spec() == old(self).capacity_spec(),
    {
        proof {
            use_type_invariant(&*self);
        }
        self.entries = Vec::new();
        assert(self@ =~= Seq::<(CacheKey, ImageContent)>::empty());
    }

    fn find(&self, key: &ImageCacheKey) -> (r: Option<usize>)
        requires
            self.wf(),
        ensures
            match r {
                Some(i) => i < self@.len() && position_of(self@, key.key()) == Some(i as int),
                None => position_of(self@, key.key()) is None,
            },
    {
        let mut i: usize = 0;
        while i < self.entries.len()
            invariant
                i <= self.entries@.len(),
                self.wf(),
                forall|j: int| 0 <= j < i ==> #[trigger] self@[j].0 != key.key(),
            decreases self.entries@.len() - i,
        {
            if self.entries[i].key.same_as(key) {
                assert(self@[i as int].0 == key.key());
                return Some(i);
            }
            assert(self@[i as int].0 != key.key());
            i += 1;
        }
        None
    }

    /// The image cached under `key`, if any; it becomes the most recently used.
    pub fn get(&mut self, key: &ImageCacheKey) -> (r: Option<EncodedImage>)
        ensures
            final(self).wf(),
            final(self).capacity_spec() == old(self).capacity_spec(),
            match position_of(old(self)@, key.key()) {
                Some(i) => r matches Some(img) && img.content() == old(self)@[i].1 && final(self)@
                    == touched(old(self)@, i),
                None => r is None && final(self)@ == old(self)@,
            },
            r is Some ==> final(self)@.len() == old(self)@.len() && final(self)@.last().0 == key.key(),
    {
        proof {
            use_type_invariant(&*self);
        }
        match self.find(key) {
            Some(i) => {
                let ghost before = self@;
                let mut entries: Vec<CacheEntry> = Vec::new();
                std::mem::swap(&mut entries, &mut self.entries);
                assert(entries_view(entries@) == before);
                let entry = entries.remove(i);
                let copy = entry.image.copy_image();
                entries.push(entry);
                proof {
                    assert(entries_view(entries@) =~= touched(before, i as int));
                    lemma_touched_keeps_keys_distinct(before, i as int);
                }
                self.entries = entries;
                Some(copy)
            },
            None => None,
        }
    }

    /// Stores `image` under `key` as the most recently used entry, replacing an
    /// entry with that key, or else, when the cache is full, dropping the least
    /// recently used one.
    pub fn insert(&mut self, key: ImageCacheKey, image: EncodedImage)
        ensures
            final(self).wf(),
            final(self).capacity_spec() == old(self).capacity_spec(),
            final(self)@ == stored(old(self)@, key.key(), image.content(), old(self).capacity_spec()),
    {
        proof {
            use_type_invariant(&*self);
        }
        let ghost before = self@;
        let ghost entry_view = (key.key(), image.content());
        let position = self.find(&key);
        let capacity = self.capacity;
        let mut entries: Vec<CacheEntry> = Vec::new();
        std::mem::swap(&mut entries, &mut self.entries);
        assert(entries_view(entries@) == before);
        match position {
            Some(i) => {
                entries.remove(i);
                proof {
                    assert(entries_view(entries@) =~= before.remove(i as int));
                }
            },
            None => {
                if entries.len() >= capacity {
                    entries.remove(0);
                    proof {
                        assert(entries_view(entries@) =~= before.drop_first());
                    }
                }
            },
        }
        let ghost middle = entries_view(entries@);
        entries.push(CacheEntry { key, image });
        proof {
            assert(entries_view(entries@) =~= middle.push(entry_view));
            lemma_stored_keeps_keys_distinct(before, key.key(), image.content(), capacity as nat);
        }
        self.entries = entries;
    }

    /// Prepares `file_bytes` as `load_for_prompt_bytes` does, through the cache:
    /// an image already prepared from bytes with the same SHA-1 digest in the
    /// same mode is returned as cached; otherwise the bytes are prepared and, on
    /// success, the result is stored. Errors are not cached.
    pub fn get_or_load(
        &mut self,
        path: &std::path::Path,
        file_bytes: Vec<u8>,
        mode: PromptImageMode,
    ) -> (r: Result<EncodedImage, ImageProcessingError>)
        ensures
            final(self).wf(),
            final(self).capacity_spec() == old(self).capacity_spec(),
            ({
                let key = (sha1_digest_of(file_bytes@), mode);
                match position_of(old(self)@, key) {
                    Some(i) => r matches Ok(img) && img.content() == old(self)@[i].1 && final(self)@
                        == touched(old(self)@, i),
                    None => prompt_image_outcome(r, file_bytes@, mode) && match r {
                        Ok(img) => final(self)@ == stored(
                            old(self)@,
                            key,
                            img.content(),
                            old(self).capacity_spec(),
                        ),
                        Err(_) => final(self)@ == old(self)@,
                    },
                }
            }),
    {
        proof {
            use_type_invariant(&*self);
        }
        let key = ImageCacheKey { digest: sha1_digest(file_bytes.as_slice()), mode };
        if let Some(image) = self.get(&key) {
            return Ok(image);
        }
        let image = load_for_prompt_bytes(path, file_bytes, mode)?;
        let copy = image.copy_image();
        self.insert(key, copy);
        Ok(image)
    }
}

/// The entries after each of `inserted` is stored in turn, first to last.
pub open spec fn stored_all(
    entries: Seq<(CacheKey, ImageContent)>,
    inserted: Seq<(CacheKey, ImageContent)>,
    capacity: nat,
) -> Seq<(CacheKey, ImageContent)>
    decreases inserted.len(),
{
    if inserted.len() == 0 {
        entries
    } else {
        stored_all(
            stored(entries, inserted[0].0, inserted[0].1, capacity),
            inserted.drop_first(),
            capacity,
        )
    }
}

/// Storing another key moves a kept entry at most one place away from the
/// most recent end, and never evicts it unless it is the least recently used
/// entry of a full cache.
proof fn lemma_stored_keeps_other_entry(
    entries: Seq<(CacheKey, ImageContent)>,
    p: int,
    key: CacheKey,
    content: ImageContent,
    capacity: nat,
) -> (q: int)
    requires
        keys_distinct(entries),
        entries.len() <= capacity,
        capacity >= 1,
        0 <= p < entries.len(),
        entries[p].0 != key,
        !(position_of(entries, key) is None && entries.len() >= capacity && p == 0),
    ensures
        ({
            let s = stored(entries, key, content, capacity);
            &&& 0 <= q < s.len()
            &&& s[q] == entries[p]
            &&& s.len() - 1 - q <= entries.len() - 1 - p + 1
        }),
{
    let s = stored(entries, key, content, capacity);
    match position_of(entries, key) {
        Some(i) => {
            assert(entries[i].0 == key);
            if i < p {
                assert(s[p - 1] == entries.remove(i)[p - 1]);
                p - 1
            } else {
                assert(s[p] == entries.remove(i)[p]);
                p
            }
        },
        None => {
            if entries.len() >= capacity {
                assert(s[p - 1] == entries.drop_first()[p - 1]);
                p - 1
            } else {
                assert(s[p] == entries[p]);
                p
            }
        },
    }
}

/// An entry with `d` entries more recent than it survives any fewer than
/// `capacity - d` insertions of other keys.
proof fn lemma_entry_survives_insertions(
    entries: Seq<(CacheKey, ImageContent)>,
    p: int,
    inserted: Seq<(CacheKey, ImageContent)>,
    capacity: nat,
)
    requires
        keys_distinct(entries),
        entries.len() <= capacity,
        capacity >= 1,
        0 <= p < entries.len(),
        (entries.len() - 1 - p) + inserted.len() < capacity,
        forall|j: int| 0 <= j < inserted.len() ==> (#[trigger] inserted[j]).0 != entries[p].0,
    ensures
        position_of(stored_all(entries, inserted, capacity), entries[p].0) is Some,
    decreases inserted.len(),
{
    if inserted.len() == 0 {
        assert(entries[p].0 == entries[p].0);
    } else {
        let (key, content) = inserted[0];
        assert(inserted[0].0 != entries[p].0);
        let q = lemma_stored_keeps_other_entry(entries, p, key, content, capacity);
        let s = stored(entries, key, content, capacity);
        lemma_stored_keeps_keys_distinct(entries, key, content, capacity);
        let rest = inserted.drop_first();
        assert forall|j: int| 0 <= j < rest.len() implies (#[trigger] rest[j]).0 != s[q].0 by {
            assert(rest[j] == inserted[j + 1]);
        }
        lemma_entry_survives_insertions(s, q, rest, capacity);
    }
}

/// A key just read by `get` is not evicted by the next `capacity - 1`
/// insertions of other keys: `get` makes it the most recently used entry.
pub proof fn lemma_read_key_survives_insertions(
    entries: Seq<(CacheKey, ImageContent)>,
    i: int,
    inserted: Seq<(CacheKey, ImageContent)>,
    capacity: nat,
)
    requires
        keys_distinct(entries),
        entries.len() <= capacity,
        capacity >= 1,
        0 <= i < entries.len(),
        inserted.len() < capacity,
        forall|j: int| 0 <= j < inserted.len() ==> (#[trigger] inserted[j]).0 != entries[i].0,
    ensures
        position_of(stored_all(touched(entries, i), inserted, capacity), entries[i].0) is Some,
{
    lemma_touched_keeps_keys_distinct(entries, i);
    let t = touched(entries, i);
    let last = t.len() - 1;
    assert(t[last] == entries[i]);
    lemma_entry_survives_insertions(t, last, inserted, capacity);
}

/// Right after `content` is stored under `key`, looking `key` up finds that
/// content, as the most recently used entry.
pub proof fn lemma_stored_then_found(
    entries: Seq<(CacheKey, ImageContent)>,
    key: CacheKey,
    content: ImageContent,
    capacity: nat,
)
    requires
        keys_distinct(entries),
        entries.len() <= capacity,
        capacity >= 1,
    ensures
        ({
            let s = stored(entries, key, content, capacity);
            &&& position_of(s, key) == Some((s.len() - 1) as int)
            &&& s[s.len() - 1].1 == content
        }),
{
    lemma_stored_keeps_keys_distinct(entries, key, content, capacity);
    let s = stored(entries, key, content, capacity);
    let last: int = s.len() - 1;
    assert(s[last].0 == key);
    let p: int = position_of(s, key)->0;
    assert(s[p].0 == key);
    if p != last {
        assert(s[p].0 != s[last].0);
    }
}

/// Moving one entry to the most recent end keeps the keys distinct.
proof fn lemma_touched_keeps_keys_distinct(entries: Seq<(CacheKey, ImageContent)>, i: int)
    requires
        keys_distinct(entries),
        0 <= i < entries.len(),
    ensures
        keys_distinct(touched(entries, i)),
        touched(entries, i).len() == entries.len(),
{
    let t = touched(entries, i);
    let n: int = entries.len() as int;
    assert forall|a: int| 0 <= a < n implies #[trigger] t[a] == (if a < i {
        entries[a]
    } else if a < n - 1 {
        entries[a + 1]
    } else {
        entries[i]
    }) by {}
    assert forall|a: int, b: int| 0 <= a < n && 0 <= b < n && a != b implies #[trigger] t[a].0
        != #[trigger] t[b].0 by {
        let ia: int = if a < i { a } else if a < n - 1 { a + 1 } else { i };
        let ib: int = if b < i { b } else if b < n - 1 { b + 1 } else { i };
        assert(t[a] == entries[ia]);
        assert(t[b] == entries[ib]);
        assert(entries[ia].0 != entries[ib].0);
    }
}

/// Storing an entry keeps the keys distinct and the cache within capacity.
proof fn lemma_stored_keeps_keys_distinct(
    entries: Seq<(CacheKey, ImageContent)>,
    key: CacheKey,
    content: ImageContent,
    capacity: nat,
)
    requires
        keys_distinct(entries),
        entries.len() <= capacity,
        capacity >= 1,
    ensures
        keys_distinct(stored(entries, key, content, capacity)),
        stored(entries, key, content, capacity).len() <= capacity,
{
    let n: int = entries.len() as int;
    let (rest, skip): (Seq<(CacheKey, ImageContent)>, int) = match position_of(entries, key) {
        Some(i) => (entries.remove(i), i),
        None => if entries.len() >= capacity {
            (entries.drop_first(), 0)
        } else {
            (entries, n)
        },
    };
    let s = stored(entries, key, content, capacity);
    assert(s == rest.push((key, content)));
    // `rest` is `entries` without the entry at `skip` (if any).
    assert forall|a: int| 0 <= a < rest.len() implies #[trigger] rest[a] == entries[if a < skip {
        a
    } else {
        a + 1
    }] by {}
    assert forall|a: int| 0 <= a < rest.len() implies #[trigger] rest[a].0 != key by {
        let ia: int = if a < skip { a } else { a + 1 };
        assert(rest[a] == entries[ia]);
        if entries[ia].0 == key {
            assert(exists|j: int| 0 <= j < entries.len() && #[trigger] entries[j].0 == key);
            if let Some(i) = position_of(entries, key) {
                assert(entries[i].0 == key);
                assert(ia != i);
            }
        }
    }
    assert forall|a: int, b: int|
        0 <= a < s.len() && 0 <= b < s.len() && a != b implies #[trigger] s[a].0 != #[trigger] s[b].0 by {
        if a < rest.len() && b < rest.len() {
            let ia: int = if a < skip { a } else { a + 1 };
            let ib: int = if b < skip { b } else { b + 1 };
            assert(rest[a] == entries[ia]);
            assert(rest[b] == entries[ib]);
        } else if a < rest.len() {
            assert(s[a] == rest[a]);
        } else if b < rest.len() {
            assert(s[b] == rest[b]);
        }
    }
}

} // verus!
