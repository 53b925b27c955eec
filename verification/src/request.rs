//! Derivative requests: the identity of one wanted artifact.  A request
//! names a source asset and either a resize or a blur-preview transform;
//! two requests denote the same cache entry exactly when every field
//! matches.
use vstd::prelude::*;

verus! {

/// Resampling filter used by the resize transform.
#[derive(Clone, Copy, Debug, PartialEq, Eq, Structural)]
pub enum Filter {
    Nearest,
    Triangle,
    CatmullRom,
    Gaussian,
    Lanczos3,
}

/// How the source is fitted into the requested dimensions.
#[derive(Clone, Copy, Debug, PartialEq, Eq, Structural)]
pub enum ResizeType {
    Fit,
    Cover,
    Thumbnail,
}

/// Parameters of a resize transform.  `quality` ranges over `0..=100`.
#[derive(Clone, Copy, Debug, PartialEq, Eq, Structural)]
pub struct Resize {
    pub width: u32,
    pub height: u32,
    pub quality: u8,
    pub filter: Filter,
    pub resize_type: ResizeType,
}

/// Parameters of a blur-preview transform: a low-resolution render blown up
/// to the given vector-graphic dimensions.
#[derive(Clone, Copy, Debug, PartialEq, Eq, Structural)]
pub struct Blur {
    pub width: u32,
    pub height: u32,
    pub svg_width: u32,
    pub svg_height: u32,
    pub sigma: u32,
}

/// The transform half of a request.
#[derive(Clone, Copy, Debug, PartialEq, Eq, Structural)]
pub enum CachedImageOption {
    Resize(Resize),
    Blur(Blur),
}

/// One derivative request: a relative source path plus a transform.
#[derive(Clone, Debug)]
pub struct CachedImage {
    pub src: String,
    pub option: CachedImageOption,
}

/// Mathematical model of a request: the source path as a character
/// sequence, with the transform unchanged.
pub struct CachedImageModel {
    pub src: Seq<char>,
    pub option: CachedImageOption,
}

impl View for CachedImage {
    type V = CachedImageModel;

    open spec fn view(&self) -> CachedImageModel {
        CachedImageModel { src: self.src@, option: self.option }
    }
}

impl PartialEq for CachedImage {
    fn eq(&self, other: &Self) -> (r: bool) {
        self.src == other.src && self.option == other.option
    }
}

impl Eq for CachedImage {

}

impl vstd::std_specs::cmp::PartialEqSpecImpl for CachedImage {
    open spec fn obeys_eq_spec() -> bool {
        true
    }

    open spec fn eq_spec(&self, other: &Self) -> bool {
        self@ == other@
    }
}

/// Whether the path begins with `http`, marking it as a remote URL rather
/// than a relative static asset.
pub open spec fn starts_with_http(s: Seq<char>) -> bool {
    s.len() >= 4 && s[0] == 'h' && s[1] == 't' && s[2] == 't' && s[3] == 'p'
}

/// A request the cache accepts: a non-empty, non-remote source path, and a
/// quality within `0..=100` when resizing.
pub open spec fn valid_model(m: CachedImageModel) -> bool {
    &&& m.src.len() > 0
    &&& !starts_with_http(m.src)
    &&& match m.option {
        CachedImageOption::Resize(r) => r.quality <= 100,
        CachedImageOption::Blur(_) => true,
    }
}

impl CachedImage {
    /// An equal, independently owned copy of the request.
    pub fn duplicate(&self) -> (r: CachedImage)
        ensures
            r@ == self@,
    {
        CachedImage { src: self.src.clone(), option: self.option }
    }

    /// Whether the cache accepts this request.
    pub fn is_valid(&self) -> (r: bool)
        ensures
            r == valid_model(self@),
    {
        let s = self.src.as_str();
        let n = s.unicode_len();
        if n == 0 {
            return false;
        }
        if n >= 4 && s.get_char(0) == 'h' && s.get_char(1) == 't' && s.get_char(2) == 't'
            && s.get_char(3) == 'p' {
            return false;
        }
        match self.option {
            CachedImageOption::Resize(r) => r.quality <= 100,
            CachedImageOption::Blur(_) => true,
        }
    }

    /// The blur-preview request the rendering layer pairs with `src`: a
    /// 20x20 render, blown up to a 100x100 vector graphic with sigma 15.
    pub fn blur_placeholder(src: String) -> (r: CachedImage)
        ensures
            r@.src == src@,
            r@.option == CachedImageOption::Blur(
                Blur { width: 20, height: 20, svg_width: 100, svg_height: 100, sigma: 15 },
            ),
    {
        CachedImage {
            src,
            option: CachedImageOption::Blur(
                Blur { width: 20, height: 20, svg_width: 100, svg_height: 100, sigma: 15 },
            ),
        }
    }
}

/// Compares two string slices character by character.
pub fn str_eq(a: &str, b: &str) -> (r: bool)
    ensures
        r == (a@ == b@),
{
    let na = a.unicode_len();
    let nb = b.unicode_len();
    if na != nb {
        return false;
    }
    let mut i: usize = 0;
    while i < na
        invariant
            i <= na,
            na == a@.len(),
            na == b@.len(),
            forall|j: int| 0 <= j < i ==> a@[j] == b@[j],
        decreases na - i,
    {
        if a.get_char(i) != b.get_char(i) {
            return false;
        }
        i = i + 1;
    }
    proof {
        assert(a@ =~= b@);
    }
    true
}

/// The filter named by `s`, if any; names follow the rendering layer's
/// lowercase convention.
pub fn parse_filter(s: &str) -> (r: Option<Filter>)
    ensures
        r == spec_parse_filter(s@),
{
    proof {
        reveal_strlit("nearest");
        reveal_strlit("triangle");
        reveal_strlit("catmullrom");
        reveal_strlit("gaussian");
        reveal_strlit("lanczos3");
    }
    if str_eq(s, "nearest") {
        Some(Filter::Nearest)
    } else if str_eq(s, "triangle") {
        Some(Filter::Triangle)
    } else if str_eq(s, "catmullrom") {
        Some(Filter::CatmullRom)
    } else if str_eq(s, "gaussian") {
        Some(Filter::Gaussian)
    } else if str_eq(s, "lanczos3") {
        Some(Filter::Lanczos3)
    } else {
        None
    }
}

/// The filter named by `s`.
pub open spec fn spec_parse_filter(s: Seq<char>) -> Option<Filter> {
    if s == "nearest"@ {
        Some(Filter::Nearest)
    } else if s == "triangle"@ {
        Some(Filter::Triangle)
    } else if s == "catmullrom"@ {
        Some(Filter::CatmullRom)
    } else if s == "gaussian"@ {
        Some(Filter::Gaussian)
    } else if s == "lanczos3"@ {
        Some(Filter::Lanczos3)
    } else {
        None
    }
}

/// As [`parse_filter`], falling back to the rendering layer's default,
/// `CatmullRom`, on an unknown name.
pub fn parse_filter_or_default(s: &str) -> (r: Filter)
    ensures
        r == match spec_parse_filter(s@) {
            Some(f) => f,
            None => Filter::CatmullRom,
        },
{
    match parse_filter(s) {
        Some(f) => f,
        None => Filter::CatmullRom,
    }
}

/// The resize mode named by `s`, if any.
pub fn parse_resize_type(s: &str) -> (r: Option<ResizeType>)
    ensures
        r == spec_parse_resize_type(s@),
{
    proof {
        reveal_strlit("fit");
        reveal_strlit("cover");
        reveal_strlit("thumbnail");
    }
    if str_eq(s, "fit") {
        Some(ResizeType::Fit)
    } else if str_eq(s, "cover") {
        Some(ResizeType::Cover)
    } else if str_eq(s, "thumbnail") {
        Some(ResizeType::Thumbnail)
    } else {
        None
    }
}

/// The resize mode named by `s`.
pub open spec fn spec_parse_resize_type(s: Seq<char>) -> Option<ResizeType> {
    if s == "fit"@ {
        Some(ResizeType::Fit)
    } else if s == "cover"@ {
        Some(ResizeType::Cover)
    } else if s == "thumbnail"@ {
        Some(ResizeType::Thumbnail)
    } else {
        None
    }
}

/// As [`parse_resize_type`], falling back to the rendering layer's default,
/// `Fit`, on an unknown name.
pub fn parse_resize_type_or_default(s: &str) -> (r: ResizeType)
    ensures
        r == match spec_parse_resize_type(s@) {
            Some(t) => t,
            None => ResizeType::Fit,
        },
{
    match parse_resize_type(s) {
        Some(t) => t,
        None => ResizeType::Fit,
    }
}

/// A sizing rule the rendering layer computes from the screen dimensions:
/// the resize parameters with the filter and mode still by name.
pub struct Ruleset {
    pub width: u32,
    pub height: u32,
    pub quality: u8,
    pub filter: String,
    pub resize_type: String,
}

impl Ruleset {
    /// The resize transform this rule names, unknown filter or mode names
    /// falling back to the rendering layer's defaults.
    pub fn to_resize(&self) -> (r: Resize)
        ensures
            r.width == self.width,
            r.height == self.height,
            r.quality == self.quality,
            r.filter == (match spec_parse_filter(self.filter@) {
                Some(f) => f,
                None => Filter::CatmullRom,
            }),
            r.resize_type == (match spec_parse_resize_type(self.resize_type@) {
                Some(t) => t,
                None => ResizeType::Fit,
            }),
    {
        Resize {
            width: self.width,
            height: self.height,
            quality: self.quality,
            filter: parse_filter_or_default(self.filter.as_str()),
            resize_type: parse_resize_type_or_default(self.resize_type.as_str()),
        }
    }
}

/// The pair of requests the rendering layer derives from one image tag:
/// the resize derivative it displays, and the blur placeholder it pairs
/// with it.  Unknown filter or mode names fall back to the defaults.
pub fn image_request_pair(
    src: &str,
    width: u32,
    height: u32,
    quality: u8,
    filter: &str,
    resize_type: &str,
) -> (r: (CachedImage, CachedImage))
    ensures
        r.0@.src == src@,
        r.0@.option == CachedImageOption::Resize(
            Resize {
                width,
                height,
                quality,
                filter: (match spec_parse_filter(filter@) {
                    Some(f) => f,
                    None => Filter::CatmullRom,
                }),
                resize_type: (match spec_parse_resize_type(resize_type@) {
                    Some(t) => t,
                    None => ResizeType::Fit,
                }),
            },
        ),
        r.1@.src == src@,
        r.1@.option == CachedImageOption::Blur(
            Blur { width: 20, height: 20, svg_width: 100, svg_height: 100, sigma: 15 },
        ),
{
    let opt_image = CachedImage {
        src: String::from_str(src),
        option: CachedImageOption::Resize(
            Resize {
                width,
                height,
                quality,
                filter: parse_filter_or_default(filter),
                resize_type: parse_resize_type_or_default(resize_type),
            },
        ),
    };
    let blur_image = CachedImage::blur_placeholder(String::from_str(src));
    (opt_image, blur_image)
}

} // verus!
