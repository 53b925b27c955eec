//! The in-memory placeholder cache: a process-wide mapping from
//! blur-preview requests to their small vector-graphic payloads, consulted
//! before any disk access.  Lookups are pure reads; warming is an
//! idempotent, first-writer-wins insert, and only blur-preview requests
//! are ever stored.
use crate::request::{CachedImage, CachedImageModel, CachedImageOption};
use vstd::prelude::*;

verus! {

/// The mapping denoted by an association list, later entries winning.
pub open spec fn entries_map(s: Seq<(CachedImage, String)>) -> Map<CachedImageModel, Seq<char>>
    decreases s.len(),
{
    if s.len() == 0 {
        Map::empty()
    } else {
        entries_map(s.drop_last()).insert(s.last().0@, s.last().1@)
    }
}

/// A key is in the mapping exactly when some entry holds it.
proof fn lemma_entries_map_mem(s: Seq<(CachedImage, String)>, k: CachedImageModel)
    ensures
        entries_map(s).contains_key(k) <==> exists|i: int| 0 <= i < s.len() && s[i].0@ == k,
    decreases s.len(),
{
    if s.len() > 0 {
        lemma_entries_map_mem(s.drop_last(), k);
        if entries_map(s).contains_key(k) {
            if s.last().0@ == k {
                assert(s[s.len() - 1].0@ == k);
            } else {
                let i = choose|i: int| 0 <= i < s.len() - 1 && s.drop_last()[i].0@ == k;
                assert(s[i].0@ == k);
            }
        }
        if exists|i: int| 0 <= i < s.len() && s[i].0@ == k {
            let i = choose|i: int| 0 <= i < s.len() && s[i].0@ == k;
            if i < s.len() - 1 {
                assert(s.drop_last()[i].0@ == k);
            }
        }
    }
}

/// The value of a key held by an entry no later entry shadows.
proof fn lemma_entries_map_get(s: Seq<(CachedImage, String)>, i: int)
    requires
        0 <= i < s.len(),
        forall|j: int| i < j < s.len() ==> s[j].0@ != s[i].0@,
    ensures
        entries_map(s).contains_key(s[i].0@),
        entries_map(s)[s[i].0@] == s[i].1@,
    decreases s.len(),
{
    if i == s.len() - 1 {
    } else {
        assert(forall|j: int| i < j < s.len() - 1 ==> s.drop_last()[j].0@ != s.drop_last()[i].0@);
        lemma_entries_map_get(s.drop_last(), i);
        assert(s.last().0@ != s[i].0@);
        assert(s.drop_last()[i] == s[i]);
    }
}

/// The placeholder cache.
pub struct PlaceholderCache {
    entries: Vec<(CachedImage, String)>,
}

impl View for PlaceholderCache {
    type V = Map<CachedImageModel, Seq<char>>;

    closed spec fn view(&self) -> Map<CachedImageModel, Seq<char>> {
        entries_map(self.entries@)
    }
}

impl PlaceholderCache {
    /// Entries hold pairwise distinct keys, and only blur-preview requests.
    pub closed spec fn wf(&self) -> bool {
        &&& forall|i: int, j: int|
            0 <= i < j < self.entries@.len() ==> self.entries@[i].0@ != self.entries@[j].0@
        &&& forall|i: int|
            0 <= i < self.entries@.len() ==> (#[trigger] self.entries@[i].0@.option) is Blur
    }

    /// An empty cache.
    pub fn new() -> (r: PlaceholderCache)
        ensures
            r.wf(),
            r@ == Map::<CachedImageModel, Seq<char>>::empty(),
    {
        PlaceholderCache { entries: Vec::new() }
    }

    /// The index of the entry holding `img`, if any.
    fn find(&self, img: &CachedImage) -> (r: Option<usize>)
        ensures
            r matches Some(i) ==> i < self.entries@.len() && self.entries@[i as int].0@ == img@,
            r is None ==> forall|i: int| 0 <= i < self.entries@.len() ==> self.entries@[i].0@
                != img@,
    {
        let n = self.entries.len();
        let mut i: usize = 0;
        while i < n
            invariant
                i <= n,
                n == self.entries@.len(),
                forall|j: int| 0 <= j < i ==> self.entries@[j].0@ != img@,
            decreases n - i,
        {
            if self.entries[i].0.eq(img) {
                return Some(i);
            }
            i = i + 1;
        }
        None
    }

    /// Pure read: the cached payload for `img`, or `None` on a miss.
    pub fn lookup(&self, img: &CachedImage) -> (r: Option<String>)
        requires
            self.wf(),
        ensures
            r matches Some(p) ==> self@.contains_key(img@) && p@ == self@[img@],
            r is None ==> !self@.contains_key(img@),
    {
        match self.find(img) {
            Some(i) => {
                proof {
                    lemma_entries_map_get(self.entries@, i as int);
                }
                Some(self.entries[i].1.clone())
            },
            None => {
                proof {
                    lemma_entries_map_mem(self.entries@, img@);
                }
                None
            },
        }
    }

    /// Whether `img` has a cached payload.
    pub fn contains(&self, img: &CachedImage) -> (r: bool)
        requires
            self.wf(),
        ensures
            r == self@.contains_key(img@),
    {
        proof {
            lemma_entries_map_mem(self.entries@, img@);
        }
        self.find(img).is_some()
    }

    /// Idempotent insert: caches `payload` for a blur-preview request not
    /// yet present; a request already present, or a resize request, leaves
    /// the cache unchanged (first writer wins).
    pub fn warm(&mut self, img: &CachedImage, payload: String)
        requires
            old(self).wf(),
        ensures
            final(self).wf(),
            !(img@.option is Blur) ==> final(self)@ == old(self)@,
            img@.option is Blur && old(self)@.contains_key(img@) ==> final(self)@ == old(self)@,
            img@.option is Blur && !old(self)@.contains_key(img@) ==> final(self)@ == old(
                self,
            )@.insert(img@, payload@),
    {
        match img.option {
            CachedImageOption::Blur(_) => {},
            CachedImageOption::Resize(_) => {
                return ;
            },
        }
        proof {
            lemma_entries_map_mem(self.entries@, img@);
        }
        match self.find(img) {
            Some(_) => {},
            None => {
                let ghost pre = self.entries@;
                self.entries.push((img.duplicate(), payload));
                proof {
                    assert(self.entries@.drop_last() =~= pre);
                }
            },
        }
    }
}

/// Warm then hit: a payload warmed for a request is what a lookup of that
/// request returns, with no disk access in between — warming makes the
/// mapping hold the payload, and `lookup` returns exactly the mapping's
/// entry.
pub proof fn lemma_warm_then_hit(
    cache: Map<CachedImageModel, Seq<char>>,
    k: CachedImageModel,
    payload: Seq<char>,
)
    ensures
        cache.insert(k, payload).contains_key(k),
        cache.insert(k, payload)[k] == payload,
{
}

} // verus!
