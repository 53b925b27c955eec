use image_cache::{decode, encode, Blur, CachedImage, CachedImageOption, Filter, Resize, ResizeType};

fn cat_resize() -> CachedImage {
    CachedImage {
        src: String::from("cat.png"),
        option: CachedImageOption::Resize(Resize {
            width: 300,
            height: 200,
            quality: 75,
            filter: Filter::CatmullRom,
            resize_type: ResizeType::Fit,
        }),
    }
}

fn cat_blur() -> CachedImage {
    CachedImage::blur_placeholder(String::from("cat.png"))
}

const CAT_TOKEN: &str = "r0000012c000000c84bcf00006300006100007400002e00007000006e000067";

#[test]
fn encode_cat_resize_is_canonical() {
    assert_eq!(encode(&cat_resize()), CAT_TOKEN);
}

#[test]
fn encode_is_deterministic() {
    assert_eq!(encode(&cat_resize()), encode(&cat_resize()));
    assert_eq!(encode(&cat_blur()), encode(&cat_blur()));
}

#[test]
fn round_trip_resize() {
    let req = cat_resize();
    let tok = encode(&req);
    let back = decode(&tok).expect("canonical token must decode");
    assert_eq!(back, req);
}

#[test]
fn round_trip_blur() {
    let req = cat_blur();
    let tok = encode(&req);
    let back = decode(&tok).expect("canonical token must decode");
    assert_eq!(back, req);
}

#[test]
fn round_trip_extreme_fields() {
    let req = CachedImage {
        src: String::from("a/b c\u{00e9}\u{4e2d}.webp"),
        option: CachedImageOption::Resize(Resize {
            width: u32::MAX,
            height: 0,
            quality: 100,
            filter: Filter::Lanczos3,
            resize_type: ResizeType::Thumbnail,
        }),
    };
    let tok = encode(&req);
    assert_eq!(decode(&tok).expect("must decode"), req);
}

#[test]
fn decode_rejects_empty() {
    assert!(decode("").is_err());
}

#[test]
fn decode_rejects_truncated() {
    let tok = encode(&cat_resize());
    for cut in [1, 10, 20, tok.len() - 1] {
        assert!(decode(&tok[..cut]).is_err(), "truncation at {cut} must fail");
    }
    let tok = encode(&cat_blur());
    assert!(decode(&tok[..tok.len() - 6]).is_ok());
    assert!(decode(&tok[..tok.len() - 7]).is_err());
}

#[test]
fn decode_rejects_mutated() {
    let tok = encode(&cat_resize());
    // a non-hexadecimal character in a numeric field
    let mut bad = tok.clone();
    bad.replace_range(2..3, "z");
    assert!(decode(&bad).is_err());
    // an uppercase digit is not canonical
    let mut bad = tok.clone();
    bad.replace_range(2..3, "A");
    assert!(decode(&bad).is_err());
    // an unknown transform kind
    let mut bad = tok.clone();
    bad.replace_range(0..1, "x");
    assert!(decode(&bad).is_err());
    // an unknown filter code
    let mut bad = tok.clone();
    bad.replace_range(19..20, "q");
    assert!(decode(&bad).is_err());
}

#[test]
fn decode_rejects_reordered() {
    let tok = encode(&cat_resize());
    // rotate the token by one character
    let rotated = format!("{}{}", &tok[1..], &tok[..1]);
    assert!(decode(&rotated).is_err());
}

#[test]
fn decode_rejects_surrogate_source() {
    // a source chunk naming a surrogate code point is no character
    let tok = "r0000012c000000c84bcf00d800";
    assert!(decode(tok).is_err());
}

#[test]
fn decode_rejects_empty_source() {
    // a well-formed header with no source characters at all
    let tok = "r0000012c000000c84bcf";
    assert!(decode(tok).is_err());
}

#[test]
fn decode_rejects_remote_source() {
    // a token whose source decodes to "http": rejected as a remote URL
    let tok = "r0000012c000000c84bcf000068000074000074000070";
    assert!(decode(tok).is_err());
}

#[test]
fn decode_rejects_quality_over_100() {
    // quality field ff = 255 is out of range
    let tok = "r0000012c000000c8ffcf000063";
    assert!(decode(tok).is_err());
}

#[test]
fn decode_survives_garbage() {
    for garbage in [
        "hello world",
        "r",
        "b",
        "?????",
        "r\u{00e9}\u{00e9}\u{00e9}\u{00e9}\u{00e9}\u{00e9}\u{00e9}\u{00e9}\u{00e9}\u{00e9}\u{00e9}\u{00e9}\u{00e9}\u{00e9}\u{00e9}\u{00e9}\u{00e9}\u{00e9}\u{00e9}\u{00e9}\u{00e9}",
        "//cache/image",
        "r0000012c",
        "b0000001400000014000000640000006400000",
    ] {
        assert!(decode(garbage).is_err(), "{garbage:?} must be rejected");
    }
}

#[test]
fn token_is_url_safe() {
    let tok = encode(&CachedImage {
        src: String::from("dir with spaces/\u{4e2d}\u{6587} & ?#%.png"),
        option: CachedImageOption::Blur(Blur {
            width: 20,
            height: 20,
            svg_width: 100,
            svg_height: 100,
            sigma: 15,
        }),
    });
    assert!(tok.chars().all(|c| c.is_ascii_alphanumeric()));
}
