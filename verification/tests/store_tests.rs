use image_cache::store::resolve_in_dir;
use image_cache::{
    decode, encode, CacheDir, CachedImage, CachedImageOption, CreateImageError, Filter,
    ImageOptimizer, Resize, ResizeType,
};

fn req(src: &str, width: u32) -> CachedImage {
    CachedImage {
        src: String::from(src),
        option: CachedImageOption::Resize(Resize {
            width,
            height: 200,
            quality: 75,
            filter: Filter::CatmullRom,
            resize_type: ResizeType::Fit,
        }),
    }
}

#[test]
fn paths_discriminate_on_every_field() {
    let base = req("cat.png", 300);
    let mut variants: Vec<CachedImage> = Vec::new();
    variants.push(req("cat.png", 301));
    variants.push(req("dog.png", 300));
    let mut v = req("cat.png", 300);
    if let CachedImageOption::Resize(ref mut r) = v.option {
        r.height = 201;
    }
    variants.push(v);
    let mut v = req("cat.png", 300);
    if let CachedImageOption::Resize(ref mut r) = v.option {
        r.quality = 74;
    }
    variants.push(v);
    let mut v = req("cat.png", 300);
    if let CachedImageOption::Resize(ref mut r) = v.option {
        r.filter = Filter::Gaussian;
    }
    variants.push(v);
    let mut v = req("cat.png", 300);
    if let CachedImageOption::Resize(ref mut r) = v.option {
        r.resize_type = ResizeType::Cover;
    }
    variants.push(v);
    variants.push(CachedImage::blur_placeholder(String::from("cat.png")));
    let base_path = base.get_file_path();
    for other in &variants {
        assert_ne!(base_path, other.get_file_path());
    }
}

#[test]
fn path_layout() {
    let r = req("cat.png", 300);
    let p = r.get_file_path();
    assert!(p.starts_with("cache/image/"));
    assert!(p.ends_with(".webp"));
    let b = CachedImage::blur_placeholder(String::from("cat.png"));
    assert!(b.get_file_path().ends_with(".svg"));
    assert_eq!(
        r.get_file_path_from_root("/srv/site"),
        format!("/srv/site/{p}"),
    );
}

#[test]
fn resolve_creates_once_then_hits() {
    let mut dir = CacheDir::new();
    let r = req("cat.png", 300);
    let (p1, created1) = resolve_in_dir(&mut dir, &r, Ok(())).expect("first resolve");
    assert!(created1, "first resolve must run the transform");
    let (p2, created2) = resolve_in_dir(&mut dir, &r, Ok(())).expect("second resolve");
    assert!(!created2, "second resolve must not run the transform");
    assert_eq!(p1, p2);
    // even a transform that would fail is never consulted on a hit
    let (p3, created3) = resolve_in_dir(&mut dir, &r, Err(CreateImageError::TransformError))
        .expect("hit ignores the pipeline");
    assert!(!created3);
    assert_eq!(p1, p3);
}

#[test]
fn resolve_propagates_each_failure() {
    for e in [
        CreateImageError::SourceNotFound,
        CreateImageError::DecodeImageError,
        CreateImageError::TransformError,
        CreateImageError::IoError,
    ] {
        let mut dir = CacheDir::new();
        let r = req("cat.png", 300);
        assert_eq!(resolve_in_dir(&mut dir, &r, Err(e)), Err(e));
        // failures are not cached: the path is still absent
        assert!(!dir.contains_file(&r.get_file_path()));
    }
}

#[test]
fn scenario_cat_png() {
    let r = req("cat.png", 300);
    let token = encode(&r);
    assert_eq!(decode(&token).expect("token decodes"), r);
    let mut dir = CacheDir::new();
    let (p1, created1) = resolve_in_dir(&mut dir, &r, Ok(())).expect("resolve");
    assert!(created1);
    let (p2, created2) = resolve_in_dir(&mut dir, &r, Ok(())).expect("resolve again");
    assert!(!created2, "second call must not read or transform the source");
    assert_eq!(p1, p2);
}

#[test]
fn optimizer_singleflight_and_cache() {
    let mut opt = ImageOptimizer::new(String::from("/cache/image"), String::from("/srv/site"));
    let b = CachedImage::blur_placeholder(String::from("cat.png"));
    // the first resolver wins the flight; a concurrent one attaches
    assert!(opt.begin_create(&b));
    assert!(!opt.begin_create(&b));
    // a distinct key proceeds in parallel
    let other = CachedImage::blur_placeholder(String::from("dog.png"));
    assert!(opt.begin_create(&other));
    opt.finish_create(&b);
    // failures are not cached: a fresh resolve retries from scratch
    assert!(opt.begin_create(&b));
    // bulk warming wants only blur previews not yet cached
    assert!(opt.wants_placeholder(&b));
    assert!(!opt.wants_placeholder(&req("cat.png", 300)));
    opt.cache_warm(&b, String::from("<svg/>"));
    assert!(!opt.wants_placeholder(&b));
    assert_eq!(opt.cache_lookup(&b), Some(String::from("<svg/>")));
}
