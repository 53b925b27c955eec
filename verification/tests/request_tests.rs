use image_cache::{
    Blur, CachedImage, CachedImageOption, Filter, Resize, ResizeType, Ruleset,
};
use image_cache::request::{parse_filter, parse_resize_type};

fn resize_req(quality: u8, src: &str) -> CachedImage {
    CachedImage {
        src: String::from(src),
        option: CachedImageOption::Resize(Resize {
            width: 300,
            height: 200,
            quality,
            filter: Filter::CatmullRom,
            resize_type: ResizeType::Fit,
        }),
    }
}

#[test]
fn filter_names_parse() {
    assert_eq!(parse_filter("nearest"), Some(Filter::Nearest));
    assert_eq!(parse_filter("triangle"), Some(Filter::Triangle));
    assert_eq!(parse_filter("catmullrom"), Some(Filter::CatmullRom));
    assert_eq!(parse_filter("gaussian"), Some(Filter::Gaussian));
    assert_eq!(parse_filter("lanczos3"), Some(Filter::Lanczos3));
    assert_eq!(parse_filter("boxcar"), None);
    assert_eq!(parse_filter(""), None);
}

#[test]
fn resize_type_names_parse() {
    assert_eq!(parse_resize_type("fit"), Some(ResizeType::Fit));
    assert_eq!(parse_resize_type("cover"), Some(ResizeType::Cover));
    assert_eq!(parse_resize_type("thumbnail"), Some(ResizeType::Thumbnail));
    assert_eq!(parse_resize_type("stretch"), None);
}

#[test]
fn ruleset_falls_back_to_defaults() {
    let rule = Ruleset {
        width: 640,
        height: 480,
        quality: 80,
        filter: String::from("no-such-filter"),
        resize_type: String::from("no-such-mode"),
    };
    let r = rule.to_resize();
    assert_eq!(r.width, 640);
    assert_eq!(r.height, 480);
    assert_eq!(r.quality, 80);
    assert_eq!(r.filter, Filter::CatmullRom);
    assert_eq!(r.resize_type, ResizeType::Fit);
}

#[test]
fn ruleset_keeps_named_choices() {
    let rule = Ruleset {
        width: 640,
        height: 480,
        quality: 80,
        filter: String::from("lanczos3"),
        resize_type: String::from("cover"),
    };
    let r = rule.to_resize();
    assert_eq!(r.filter, Filter::Lanczos3);
    assert_eq!(r.resize_type, ResizeType::Cover);
}

#[test]
fn validity_matches_the_request_invariant() {
    assert!(resize_req(75, "cat.png").is_valid());
    assert!(resize_req(100, "cat.png").is_valid());
    assert!(!resize_req(101, "cat.png").is_valid());
    assert!(!resize_req(75, "").is_valid());
    assert!(!resize_req(75, "http://example.com/cat.png").is_valid());
    assert!(!resize_req(75, "https://example.com/cat.png").is_valid());
    assert!(CachedImage::blur_placeholder(String::from("cat.png")).is_valid());
}

#[test]
fn equality_is_structural_over_every_field() {
    let a = resize_req(75, "cat.png");
    assert_eq!(a, resize_req(75, "cat.png"));
    assert_ne!(a, resize_req(74, "cat.png"));
    assert_ne!(a, resize_req(75, "dog.png"));
    let blur = CachedImage {
        src: String::from("cat.png"),
        option: CachedImageOption::Blur(Blur {
            width: 300,
            height: 200,
            svg_width: 100,
            svg_height: 100,
            sigma: 15,
        }),
    };
    assert_ne!(a, blur);
    assert_eq!(a.duplicate(), a);
}
