//! The single-flight registry: the set of requests whose creation is in
//! progress.  A resolver registers a request before transforming and
//! removes it when the result has been delivered; a second resolver for
//! the same request finds it registered and attaches to the first's
//! outcome instead of transforming again.
use crate::request::{CachedImage, CachedImageModel};
use vstd::prelude::*;

verus! {

/// The set of request models held by a run of registry entries.
pub open spec fn keys_set(s: Seq<CachedImage>) -> Set<CachedImageModel>
    decreases s.len(),
{
    if s.len() == 0 {
        Set::empty()
    } else {
        keys_set(s.drop_last()).insert(s.last()@)
    }
}

/// A key is in the set exactly when some entry holds it.
proof fn lemma_keys_set_mem(s: Seq<CachedImage>, k: CachedImageModel)
    ensures
        keys_set(s).contains(k) <==> exists|i: int| 0 <= i < s.len() && s[i]@ == k,
    decreases s.len(),
{
    if s.len() > 0 {
        lemma_keys_set_mem(s.drop_last(), k);
        if keys_set(s).contains(k) {
            if s.last()@ == k {
                assert(s[s.len() - 1]@ == k);
            } else {
                let i = choose|i: int| 0 <= i < s.len() - 1 && s.drop_last()[i]@ == k;
                assert(s[i]@ == k);
            }
        }
        if exists|i: int| 0 <= i < s.len() && s[i]@ == k {
            let i = choose|i: int| 0 <= i < s.len() && s[i]@ == k;
            if i < s.len() - 1 {
                assert(s.drop_last()[i]@ == k);
            }
        }
    }
}

/// The in-flight registry.
pub struct InFlight {
    keys: Vec<CachedImage>,
}

impl View for InFlight {
    type V = Set<CachedImageModel>;

    closed spec fn view(&self) -> Set<CachedImageModel> {
        keys_set(self.keys@)
    }
}

impl InFlight {
    /// Entries hold pairwise distinct requests.
    pub closed spec fn wf(&self) -> bool {
        forall|i: int, j: int| 0 <= i < j < self.keys@.len() ==> self.keys@[i]@ != self.keys@[j]@
    }

    /// An empty registry.
    pub fn new() -> (r: InFlight)
        ensures
            r.wf(),
            r@ == Set::<CachedImageModel>::empty(),
    {
        InFlight { keys: Vec::new() }
    }

    /// The index of the entry holding `img`, if any.
    fn find(&self, img: &CachedImage) -> (r: Option<usize>)
        ensures
            r matches Some(i) ==> i < self.keys@.len() && self.keys@[i as int]@ == img@,
            r is None ==> forall|i: int| 0 <= i < self.keys@.len() ==> self.keys@[i]@ != img@,
    {
        let n = self.keys.len();
        let mut i: usize = 0;
        while i < n
            invariant
                i <= n,
                n == self.keys@.len(),
                forall|j: int| 0 <= j < i ==> self.keys@[j]@ != img@,
            decreases n - i,
        {
            if self.keys[i].eq(img) {
                return Some(i);
            }
            i = i + 1;
        }
        None
    }

    /// Whether a creation for `img` is in flight.
    pub fn contains(&self, img: &CachedImage) -> (r: bool)
        ensures
            r == self@.contains(img@),
    {
        proof {
            lemma_keys_set_mem(self.keys@, img@);
        }
        self.find(img).is_some()
    }

    /// Registers `img` unless a creation for it is already in flight.
    /// Reports `true` exactly when the caller won the flight and must
    /// perform the creation itself.
    pub fn try_begin(&mut self, img: &CachedImage) -> (r: bool)
        requires
            old(self).wf(),
        ensures
            final(self).wf(),
            r == !old(self)@.contains(img@),
            r ==> final(self)@ == old(self)@.insert(img@),
            !r ==> final(self)@ == old(self)@,
    {
        proof {
            lemma_keys_set_mem(self.keys@, img@);
        }
        match self.find(img) {
            Some(_) => false,
            None => {
                let ghost pre = self.keys@;
                self.keys.push(img.duplicate());
                proof {
                    assert(self.keys@.drop_last() =~= pre);
                }
                true
            },
        }
    }

    /// Removes `img` from the registry once its outcome has been
    /// delivered to every waiter.
    pub fn finish(&mut self, img: &CachedImage)
        requires
            old(self).wf(),
        ensures
            final(self).wf(),
            final(self)@ == old(self)@.remove(img@),
    {
        let ghost pre = self.keys@;
        let n = self.keys.len();
        let mut out: Vec<CachedImage> = Vec::new();
        let mut i: usize = 0;
        while i < n
            invariant
                i <= n,
                n == pre.len(),
                self.keys@ == pre,
                old(self).wf(),
                keys_set(out@) == keys_set(pre.subrange(0, i as int)).remove(img@),
                forall|a: int, b: int| 0 <= a < b < out@.len() ==> out@[a]@ != out@[b]@,
                forall|a: int|
                    0 <= a < out@.len() ==> keys_set(pre.subrange(0, i as int)).contains(
                        #[trigger] out@[a]@,
                    ),
            decreases n - i,
        {
            let ghost done = pre.subrange(0, i as int);
            let ghost done2 = pre.subrange(0, i + 1);
            proof {
                assert(done2.drop_last() =~= done);
                assert(done2.last() == pre[i as int]);
                lemma_keys_set_mem(done, pre[i as int]@);
                assert(forall|j: int| 0 <= j < i ==> done[j] == pre[j]);
            }
            if !self.keys[i].eq(img) {
                let entry = self.keys[i].duplicate();
                let ghost outpre = out@;
                out.push(entry);
                proof {
                    assert(out@.drop_last() =~= outpre);
                    assert(keys_set(out@) =~= keys_set(done2).remove(img@));
                }
            } else {
                proof {
                    assert(keys_set(out@) =~= keys_set(done2).remove(img@));
                }
            }
            i = i + 1;
        }
        proof {
            assert(pre.subrange(0, n as int) =~= pre);
        }
        self.keys = out;
    }
}

/// Single flight: registering a request keeps it registered, so a further
/// `try_begin` for the same request reports `false` until `finish`; a
/// request for any other key is unaffected and proceeds in parallel.
pub proof fn lemma_single_flight(
    flight: Set<CachedImageModel>,
    k: CachedImageModel,
    other: CachedImageModel,
)
    requires
        other != k,
    ensures
        flight.insert(k).contains(k),
        flight.insert(k).contains(other) == flight.contains(other),
{
}

} // verus!
