//! A verified core for an on-demand image-derivative cache: a canonical,
//! reversible codec for derivative-request tokens, deterministic output
//! paths, a single-flight registry, and an in-memory placeholder cache.
use vstd::prelude::*;

pub mod boundary;
pub mod cache;
pub mod codec;
pub mod flight;
pub mod hex;
pub mod paths;
pub mod request;
pub mod store;
pub mod strutil;
pub mod style;

pub use boundary::{from_url_encoded, HttpOutcome, ImageCacheRoute};
pub use cache::PlaceholderCache;
pub use codec::{decode, encode, DecodeError};
pub use request::{
    Blur, CachedImage, CachedImageOption, Filter, Resize, ResizeType, Ruleset,
};
pub use store::{CacheDir, CreateImageError, ImageOptimizer};
pub use style::SvgImage;

