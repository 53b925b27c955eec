use image_cache::request::image_request_pair;
use image_cache::style::{choose_placeholder, loading_attr};
use image_cache::{Blur, CachedImageOption, Filter, ResizeType, SvgImage};

#[test]
fn image_request_pair_builds_both_derivatives() {
    let (opt, blur) = image_request_pair("cat.png", 300, 200, 75, "catmullrom", "fit");
    assert_eq!(opt.src, "cat.png");
    match opt.option {
        CachedImageOption::Resize(r) => {
            assert_eq!(r.width, 300);
            assert_eq!(r.height, 200);
            assert_eq!(r.quality, 75);
            assert_eq!(r.filter, Filter::CatmullRom);
            assert_eq!(r.resize_type, ResizeType::Fit);
        },
        _ => panic!("expected a resize request"),
    }
    assert_eq!(blur.src, "cat.png");
    assert_eq!(
        blur.option,
        CachedImageOption::Blur(Blur {
            width: 20,
            height: 20,
            svg_width: 100,
            svg_height: 100,
            sigma: 15,
        }),
    );
}

#[test]
fn image_request_pair_defaults_unknown_names() {
    let (opt, _) = image_request_pair("cat.png", 300, 200, 75, "sinc", "tile");
    match opt.option {
        CachedImageOption::Resize(r) => {
            assert_eq!(r.filter, Filter::CatmullRom);
            assert_eq!(r.resize_type, ResizeType::Fit);
        },
        _ => panic!("expected a resize request"),
    }
}

#[test]
fn placeholder_prefers_the_cache() {
    let chosen = choose_placeholder(Some(String::from("<svg/>")), String::from("/cache?tok"));
    match chosen {
        SvgImage::InMemory(data) => assert_eq!(data, "<svg/>"),
        _ => panic!("expected the cached payload"),
    }
    let chosen = choose_placeholder(None, String::from("/cache?tok"));
    match chosen {
        SvgImage::Request(url) => assert_eq!(url, "/cache?tok"),
        _ => panic!("expected a request"),
    }
}

#[test]
fn loading_attribute() {
    assert_eq!(loading_attr(true), "lazy");
    assert_eq!(loading_attr(false), "eager");
}
