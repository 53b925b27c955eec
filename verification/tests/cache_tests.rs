use image_cache::{CachedImage, CachedImageOption, Filter, PlaceholderCache, Resize, ResizeType};

fn blur(src: &str) -> CachedImage {
    CachedImage::blur_placeholder(String::from(src))
}

#[test]
fn warm_then_hit() {
    let mut cache = PlaceholderCache::new();
    let r = blur("cat.png");
    assert_eq!(cache.lookup(&r), None);
    cache.warm(&r, String::from("<svg>cat</svg>"));
    assert_eq!(cache.lookup(&r), Some(String::from("<svg>cat</svg>")));
}

#[test]
fn warm_is_idempotent_first_writer_wins() {
    let mut cache = PlaceholderCache::new();
    let r = blur("cat.png");
    cache.warm(&r, String::from("first"));
    cache.warm(&r, String::from("second"));
    assert_eq!(cache.lookup(&r), Some(String::from("first")));
}

#[test]
fn resize_requests_are_never_cached() {
    let mut cache = PlaceholderCache::new();
    let r = CachedImage {
        src: String::from("cat.png"),
        option: CachedImageOption::Resize(Resize {
            width: 300,
            height: 200,
            quality: 75,
            filter: Filter::CatmullRom,
            resize_type: ResizeType::Fit,
        }),
    };
    cache.warm(&r, String::from("payload"));
    assert_eq!(cache.lookup(&r), None);
}

#[test]
fn lookup_discriminates_keys() {
    let mut cache = PlaceholderCache::new();
    cache.warm(&blur("cat.png"), String::from("cat"));
    cache.warm(&blur("dog.png"), String::from("dog"));
    assert_eq!(cache.lookup(&blur("cat.png")), Some(String::from("cat")));
    assert_eq!(cache.lookup(&blur("dog.png")), Some(String::from("dog")));
    assert_eq!(cache.lookup(&blur("fox.png")), None);
}
