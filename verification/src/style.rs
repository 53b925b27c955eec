//! The inline style the rendering layer gives an image while its blur
//! placeholder is showing: the placeholder, either an in-memory vector
//! graphic inlined as a base64 data URL or a URL to request it from,
//! becomes the background the full image loads over.
use base64::Engine;
use vstd::prelude::*;

verus! {

/// A blur placeholder as the rendering layer sees it: already in memory,
/// or to be requested from the cache handler.
pub enum SvgImage {
    InMemory(String),
    Request(String),
}

/// Mathematical model of a placeholder source.
pub enum SvgImageModel {
    InMemory(Seq<char>),
    Request(Seq<char>),
}

impl View for SvgImage {
    type V = SvgImageModel;

    open spec fn view(&self) -> SvgImageModel {
        match self {
            SvgImage::InMemory(s) => SvgImageModel::InMemory(s@),
            SvgImage::Request(s) => SvgImageModel::Request(s@),
        }
    }
}

/// What base64 renders a byte string as, under the standard alphabet with
/// padding.
pub uninterp spec fn base64_standard_of(bytes: Seq<u8>) -> Seq<char>;

/// Relies on base64's `Engine::encode` with the `STANDARD` engine: the
/// rendering depends on the input bytes alone.
#[verifier::external_body]
fn base64_encode(s: &str) -> (r: String)
    ensures
        r@ == base64_standard_of(vstd::utf8::encode_utf8(s@)),
{
    base64::engine::general_purpose::STANDARD.encode(s.as_bytes())
}

/// The CSS url() term of a placeholder: an in-memory graphic is inlined
/// as a base64 data URL, one not in memory is requested by its URL.
pub open spec fn background_image_spec(m: SvgImageModel) -> Seq<char> {
    match m {
        SvgImageModel::InMemory(data) => "url('data:image/svg+xml;base64,"@
            + base64_standard_of(vstd::utf8::encode_utf8(data)) + "')"@,
        SvgImageModel::Request(url) => "url('"@ + url + "')"@,
    }
}

/// The whole inline style of a placeholder-backed image.
pub open spec fn placeholder_style_spec(m: SvgImageModel) -> Seq<char> {
    "color:transparent;background-size:cover;background-position:50% 50%;background-repeat:no-repeat;background-image:"@
        + background_image_spec(m) + ";"@
}

/// Builds the inline style carrying `svg` as the image's background.
pub fn placeholder_style(svg: &SvgImage) -> (r: String)
    ensures
        r@ == placeholder_style_spec(svg@),
{
    let mut out = String::from_str(
        "color:transparent;background-size:cover;background-position:50% 50%;background-repeat:no-repeat;background-image:",
    );
    match svg {
        SvgImage::InMemory(data) => {
            out.append("url('data:image/svg+xml;base64,");
            let enc = base64_encode(data.as_str());
            out.append(enc.as_str());
            out.append("')");
        },
        SvgImage::Request(url) => {
            out.append("url('");
            out.append(url.as_str());
            out.append("')");
        },
    }
    out.append(";");
    out
}

/// The placeholder the rendering layer uses: the cached payload when the
/// placeholder cache holds one, else a request to the cache handler.
pub fn choose_placeholder(cached: Option<String>, request_url: String) -> (r: SvgImage)
    ensures
        (match cached {
            Some(data) => r@ == SvgImageModel::InMemory(data@),
            None => r@ == SvgImageModel::Request(request_url@),
        }),
{
    match cached {
        Some(data) => SvgImage::InMemory(data),
        None => SvgImage::Request(request_url),
    }
}

/// The loading attribute of an image tag.
pub fn loading_attr(lazy: bool) -> (r: &'static str)
    ensures
        lazy ==> r@ == "lazy"@,
        !lazy ==> r@ == "eager"@,
{
    if lazy {
        "lazy"
    } else {
        "eager"
    }
}

} // verus!
