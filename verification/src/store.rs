//! The derivative store: turns a request into a guaranteed-present file
//! under the cache root, or a typed failure.  The file system itself is
//! outside the store; its contents are modelled as the set of relative
//! paths already created, and the resolve step is verified as a transition
//! on that model.  The surrounding process performs the actual reads,
//! transform and atomic write, and drives this transition with their
//! outcomes.
use crate::cache::PlaceholderCache;
use crate::codec::{encode, token_spec};
use crate::flight::InFlight;
use crate::paths::{full_path_spec, rel_path_spec};
use crate::request::{valid_model, CachedImage, CachedImageModel};
use vstd::prelude::*;

verus! {

/// Failure of derivative creation, distinct for each stage: the source
/// asset was absent, the source could not be decoded as an image, the
/// transform engine failed, or the result could not be written.
#[derive(Clone, Copy, Debug, PartialEq, Eq, Structural)]
pub enum CreateImageError {
    SourceNotFound,
    DecodeImageError,
    TransformError,
    IoError,
}

/// The set of paths held by a run of directory entries.
pub open spec fn paths_set(s: Seq<String>) -> Set<Seq<char>>
    decreases s.len(),
{
    if s.len() == 0 {
        Set::empty()
    } else {
        paths_set(s.drop_last()).insert(s.last()@)
    }
}

/// A path is in the set exactly when some entry holds it.
proof fn lemma_paths_set_mem(s: Seq<String>, p: Seq<char>)
    ensures
        paths_set(s).contains(p) <==> exists|i: int| 0 <= i < s.len() && s[i]@ == p,
    decreases s.len(),
{
    if s.len() > 0 {
        lemma_paths_set_mem(s.drop_last(), p);
        if paths_set(s).contains(p) {
            if s.last()@ == p {
                assert(s[s.len() - 1]@ == p);
            } else {
                let i = choose|i: int| 0 <= i < s.len() - 1 && s.drop_last()[i]@ == p;
                assert(s[i]@ == p);
            }
        }
        if exists|i: int| 0 <= i < s.len() && s[i]@ == p {
            let i = choose|i: int| 0 <= i < s.len() && s[i]@ == p;
            if i < s.len() - 1 {
                assert(s.drop_last()[i]@ == p);
            }
        }
    }
}

/// A model of the cache root directory: the relative paths of the
/// derivatives present, each published atomically, so a path is either
/// absent or names a complete file.
pub struct CacheDir {
    files: Vec<String>,
}

impl View for CacheDir {
    type V = Set<Seq<char>>;

    closed spec fn view(&self) -> Set<Seq<char>> {
        paths_set(self.files@)
    }
}

impl CacheDir {
    /// An empty directory.
    pub fn new() -> (r: CacheDir)
        ensures
            r@ == Set::<Seq<char>>::empty(),
    {
        CacheDir { files: Vec::new() }
    }

    /// Whether a complete file is present at `p`.
    pub fn contains_file(&self, p: &str) -> (r: bool)
        ensures
            r == self@.contains(p@),
    {
        proof {
            lemma_paths_set_mem(self.files@, p@);
        }
        let n = self.files.len();
        let mut i: usize = 0;
        while i < n
            invariant
                i <= n,
                n == self.files@.len(),
                forall|j: int| 0 <= j < i ==> self.files@[j]@ != p@,
            decreases n - i,
        {
            if crate::request::str_eq(self.files[i].as_str(), p) {
                proof {
                    assert(self.files@[i as int]@ == p@);
                    assert(exists|j: int| 0 <= j < self.files@.len() && self.files@[j]@ == p@);
                    lemma_paths_set_mem(self.files@, p@);
                }
                return true;
            }
            i = i + 1;
        }
        false
    }

    /// Records that a complete file was published at `p`.
    pub fn record(&mut self, p: String)
        ensures
            final(self)@ == old(self)@.insert(p@),
    {
        let ghost pre = self.files@;
        self.files.push(p);
        proof {
            assert(self.files@.drop_last() =~= pre);
        }
    }
}

/// One `resolve` step over the directory model: a present file is served
/// as is and nothing is read or transformed; an absent one is created
/// exactly when the load-decode-transform pipeline, whose outcome is
/// `transform`, succeeded, and its failure is reported unchanged.
/// The resulting pair is the directory afterwards and the result: the
/// relative path with a flag telling whether a transform ran, or the
/// creation failure.
pub open spec fn resolve_transition(
    dir: Set<Seq<char>>,
    m: CachedImageModel,
    transform: Result<(), CreateImageError>,
) -> (Set<Seq<char>>, Result<(Seq<char>, bool), CreateImageError>) {
    let p = rel_path_spec(m);
    if dir.contains(p) {
        (dir, Ok((p, false)))
    } else {
        match transform {
            Result::Ok(()) => (dir.insert(p), Ok((p, true))),
            Result::Err(e) => (dir, Err(e)),
        }
    }
}

/// Resolves `img` against the directory model, the outcome of the external
/// load-decode-transform pipeline given as `transform`.
pub fn resolve_in_dir(
    dir: &mut CacheDir,
    img: &CachedImage,
    transform: Result<(), CreateImageError>,
) -> (r: Result<(String, bool), CreateImageError>)
    requires
        valid_model(img@),
    ensures
        final(dir)@ == resolve_transition(old(dir)@, img@, transform).0,
        (match (r, resolve_transition(old(dir)@, img@, transform).1) {
            (Result::Ok((p, created)), Result::Ok((ps, cs))) => p@ == ps && created == cs,
            (Result::Err(e), Result::Err(es)) => e == es,
            _ => false,
        }),
{
    let path = img.get_file_path();
    if dir.contains_file(path.as_str()) {
        return Ok((path, false));
    }
    match transform {
        Result::Ok(()) => {
            dir.record(path.clone());
            Ok((path, true))
        },
        Result::Err(e) => Err(e),
    }
}

/// Idempotent creation: once a resolve for `m` has succeeded, a second
/// resolve for `m` returns the same path, runs no transform, and leaves
/// the directory unchanged — whatever the transform pipeline would have
/// reported the second time.
pub proof fn lemma_idempotent_creation(
    dir: Set<Seq<char>>,
    m: CachedImageModel,
    t1: Result<(), CreateImageError>,
    t2: Result<(), CreateImageError>,
)
    requires
        resolve_transition(dir, m, t1).1 is Ok,
    ensures
        ({
            let (d1, r1) = resolve_transition(dir, m, t1);
            let (d2, r2) = resolve_transition(d1, m, t2);
            &&& d2 == d1
            &&& r2 == Result::<(Seq<char>, bool), CreateImageError>::Ok((r1.unwrap().0, false))
        }),
{
}

/// The shared optimizer: the handler path tokens are built for, the site
/// root derivatives are stored under, the placeholder cache, and the
/// single-flight registry.
pub struct ImageOptimizer {
    pub api_handler_path: String,
    pub root_dir: String,
    pub cache: PlaceholderCache,
    pub in_flight: InFlight,
}

impl ImageOptimizer {
    /// The placeholder cache's mapping.
    pub closed spec fn cache_view(&self) -> Map<CachedImageModel, Seq<char>> {
        self.cache@
    }

    /// The requests whose creation is in flight.
    pub closed spec fn flight_view(&self) -> Set<CachedImageModel> {
        self.in_flight@
    }

    /// The component invariants.
    pub closed spec fn wf(&self) -> bool {
        self.cache.wf() && self.in_flight.wf()
    }

    /// A fresh optimizer with an empty cache and no flight in progress.
    pub fn new(api_handler_path: String, root_dir: String) -> (r: ImageOptimizer)
        ensures
            r.wf(),
            r.api_handler_path@ == api_handler_path@,
            r.root_dir@ == root_dir@,
            r.cache_view() == Map::<CachedImageModel, Seq<char>>::empty(),
            r.flight_view() == Set::<CachedImageModel>::empty(),
    {
        ImageOptimizer {
            api_handler_path,
            root_dir,
            cache: PlaceholderCache::new(),
            in_flight: InFlight::new(),
        }
    }

    /// The URL the rendering layer embeds for `img`: the handler path, a
    /// query separator, and the canonical token.
    pub fn get_url_encoded(&self, img: &CachedImage) -> (r: String)
        requires
            valid_model(img@),
        ensures
            r@ == self.api_handler_path@ + seq!['?'] + token_spec(img@),
    {
        let mut out = self.api_handler_path.clone();
        crate::strutil::push_char(&mut out, '?');
        let tok = encode(img);
        out.append(tok.as_str());
        proof {
            assert(out@ =~= self.api_handler_path@ + seq!['?'] + token_spec(img@));
        }
        out
    }

    /// The path of `img`'s derivative under the site root.
    pub fn get_file_path_from_root(&self, img: &CachedImage) -> (r: String)
        requires
            valid_model(img@),
        ensures
            r@ == full_path_spec(self.root_dir@, img@),
    {
        img.get_file_path_from_root(self.root_dir.as_str())
    }

    /// Pure read of the placeholder cache.
    pub fn cache_lookup(&self, img: &CachedImage) -> (r: Option<String>)
        requires
            self.wf(),
        ensures
            r matches Some(p) ==> self.cache_view().contains_key(img@) && p@
                == self.cache_view()[img@],
            r is None ==> !self.cache_view().contains_key(img@),
    {
        self.cache.lookup(img)
    }

    /// Idempotent insert into the placeholder cache.
    pub fn cache_warm(&mut self, img: &CachedImage, payload: String)
        requires
            old(self).wf(),
        ensures
            final(self).wf(),
            final(self).flight_view() == old(self).flight_view(),
            final(self).api_handler_path == old(self).api_handler_path,
            final(self).root_dir == old(self).root_dir,
            !(img@.option is Blur) ==> final(self).cache_view() == old(self).cache_view(),
            img@.option is Blur && old(self).cache_view().contains_key(img@)
                ==> final(self).cache_view() == old(self).cache_view(),
            img@.option is Blur && !old(self).cache_view().contains_key(img@)
                ==> final(self).cache_view() == old(self).cache_view().insert(img@, payload@),
    {
        self.cache.warm(img, payload)
    }

    /// Whether the startup bulk-warming path wants to read `img`'s
    /// derivative from disk: only blur previews not already cached.
    pub fn wants_placeholder(&self, img: &CachedImage) -> (r: bool)
        requires
            self.wf(),
        ensures
            r == (img@.option is Blur && !self.cache_view().contains_key(img@)),
    {
        let blur = match img.option {
            crate::request::CachedImageOption::Blur(_) => true,
            crate::request::CachedImageOption::Resize(_) => false,
        };
        blur && !self.cache.contains(img)
    }

    /// Registers `img` for creation; `true` means the caller won the
    /// flight and must create the derivative itself, `false` that a
    /// creation is already in progress to whose outcome it should attach.
    pub fn begin_create(&mut self, img: &CachedImage) -> (r: bool)
        requires
            old(self).wf(),
        ensures
            final(self).wf(),
            final(self).cache_view() == old(self).cache_view(),
            final(self).api_handler_path == old(self).api_handler_path,
            final(self).root_dir == old(self).root_dir,
            r == !old(self).flight_view().contains(img@),
            r ==> final(self).flight_view() == old(self).flight_view().insert(img@),
            !r ==> final(self).flight_view() == old(self).flight_view(),
    {
        self.in_flight.try_begin(img)
    }

    /// Whether a creation for `img` is in flight.
    pub fn in_flight_contains(&self, img: &CachedImage) -> (r: bool)
        requires
            self.wf(),
        ensures
            r == self.flight_view().contains(img@),
    {
        self.in_flight.contains(img)
    }

    /// Unregisters `img` once its outcome has been delivered to every
    /// waiter; a later resolve for the same request starts a fresh flight
    /// (failures are not cached).
    pub fn finish_create(&mut self, img: &CachedImage)
        requires
            old(self).wf(),
        ensures
            final(self).wf(),
            final(self).cache_view() == old(self).cache_view(),
            final(self).api_handler_path == old(self).api_handler_path,
            final(self).root_dir == old(self).root_dir,
            final(self).flight_view() == old(self).flight_view().remove(img@),
    {
        self.in_flight.finish(img)
    }
}

} // verus!
