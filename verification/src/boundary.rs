//! The boundary with the HTTP routing layer: extracting a token from an
//! inbound URL, and the response decision.  An undecodable token is a
//! "not found" outcome — never a server error — so garbage paths are
//! distinguished from valid requests whose creation failed.
use crate::codec::{decode, decode_spec, lemma_token_round_trip, token_spec, DecodeError};
use crate::request::{valid_model, CachedImage, CachedImageModel};
use crate::store::CreateImageError;
use vstd::prelude::*;

verus! {

/// The position of the first query separator, if any.
pub open spec fn first_qmark(s: Seq<char>) -> Option<int>
    decreases s.len(),
{
    if s.len() == 0 {
        None
    } else if s[0] == '?' {
        Some(0int)
    } else {
        match first_qmark(s.skip(1)) {
            Option::None => None,
            Option::Some(i) => Some(i + 1),
        }
    }
}

/// The request encoded in a URL: the token after the first query
/// separator, decoded; `None` when there is no separator or the token is
/// not canonical.
pub open spec fn url_decode_spec(u: Seq<char>) -> Option<CachedImageModel> {
    match first_qmark(u) {
        Option::None => None,
        Option::Some(i) => decode_spec(u.subrange(i + 1, u.len() as int)),
    }
}

/// `first_qmark` finds exactly the first separator.
proof fn lemma_first_qmark_found(s: Seq<char>, i: int)
    requires
        0 <= i < s.len(),
        s[i] == '?',
        forall|j: int| 0 <= j < i ==> s[j] != '?',
    ensures
        first_qmark(s) == Some(i),
    decreases i,
{
    if i > 0 {
        assert(forall|j: int| 0 <= j < i - 1 ==> s.skip(1)[j] == s[j + 1]);
        lemma_first_qmark_found(s.skip(1), i - 1);
    }
}

/// A URL without a separator has no token.
proof fn lemma_first_qmark_none(s: Seq<char>)
    requires
        forall|j: int| 0 <= j < s.len() ==> s[j] != '?',
    ensures
        first_qmark(s) is None,
    decreases s.len(),
{
    if s.len() > 0 {
        assert(forall|j: int| 0 <= j < s.skip(1).len() ==> s.skip(1)[j] == s[j + 1]);
        lemma_first_qmark_none(s.skip(1));
    }
}

/// Extracts and decodes the token of an inbound URL.  Succeeds exactly
/// when the URL carries a canonical token of a valid request after its
/// first query separator.
pub fn from_url_encoded(url: &str) -> (r: Result<CachedImage, DecodeError>)
    ensures
        r matches Ok(img) ==> url_decode_spec(url@) == Some(img@) && valid_model(img@),
        r is Err ==> url_decode_spec(url@) is None,
{
    let n = url.unicode_len();
    let mut i: usize = 0;
    while i < n
        invariant
            i <= n,
            n == url@.len(),
            forall|j: int| 0 <= j < i ==> url@[j] != '?',
        decreases n - i,
    {
        if url.get_char(i) == '?' {
            proof {
                lemma_first_qmark_found(url@, i as int);
            }
            let tail = url.substring_char(i + 1, n);
            return decode(tail);
        }
        i = i + 1;
    }
    proof {
        lemma_first_qmark_none(url@);
    }
    Err(DecodeError::Malformed)
}

/// The URL the rendering layer builds round-trips: decoding a handler
/// path (itself free of query separators) joined to the canonical token
/// of a valid request yields that request back.
pub proof fn lemma_url_round_trip(path: Seq<char>, m: CachedImageModel)
    requires
        valid_model(m),
        forall|j: int| 0 <= j < path.len() ==> path[j] != '?',
    ensures
        url_decode_spec(path + seq!['?'] + token_spec(m)) == Some(m),
{
    let u = path + seq!['?'] + token_spec(m);
    assert(u[path.len() as int] == '?');
    assert(forall|j: int| 0 <= j < path.len() ==> u[j] == path[j]);
    lemma_first_qmark_found(u, path.len() as int);
    assert(u.subrange(path.len() as int + 1, u.len() as int) =~= token_spec(m));
    lemma_token_round_trip(m);
}

/// The response of the boundary adapter.
pub enum HttpOutcome {
    /// Stream the file at this URI with static-file semantics.
    ServeFile(String),
    /// A 404-class outcome: the path names no derivative.
    NotFound,
    /// A 500-class outcome: a valid request whose creation failed.
    ServerError(CreateImageError),
}

/// The boundary decision.  An undecodable URL is "not found" and no
/// creation is attempted; a decoded request is served at `/` joined to
/// its resolved relative path, and its creation failure is a server
/// error carrying the typed cause.
pub fn handle_request_outcome(
    decoded: &Result<CachedImage, DecodeError>,
    resolved: &Result<String, CreateImageError>,
) -> (r: HttpOutcome)
    ensures
        decoded is Err ==> r is NotFound,
        decoded is Ok ==> (match (resolved, r) {
            (Result::Ok(p), HttpOutcome::ServeFile(u)) => u@ == seq!['/'] + p@,
            (Result::Err(e), HttpOutcome::ServerError(c)) => c == *e,
            _ => false,
        }),
{
    match decoded {
        Result::Err(_) => HttpOutcome::NotFound,
        Result::Ok(_) => match resolved {
            Result::Ok(p) => {
                let mut uri = String::new();
                crate::strutil::push_char(&mut uri, '/');
                uri.append(p.as_str());
                proof {
                    assert(uri@ =~= seq!['/'] + p@);
                }
                HttpOutcome::ServeFile(uri)
            },
            Result::Err(e) => HttpOutcome::ServerError(*e),
        },
    }
}

/// Marks router types that can mount the image cache handler, so the
/// handler cannot be attached at a mismatched route.
pub trait ImageCacheRoute<S> where S: Clone + Send + Sync {
    /// Adds the route serving cached images; the state must carry the
    /// process-wide optimizer.
    fn image_cache_route(self, state: &S) -> Self;
}

} // verus!
