use image_cache::style::placeholder_style;
use image_cache::SvgImage;

#[test]
fn in_memory_placeholder_is_inlined_as_base64() {
    let style = placeholder_style(&SvgImage::InMemory(String::from("abc")));
    // "abc" in the standard base64 alphabet
    assert!(style.contains("url('data:image/svg+xml;base64,YWJj')"));
    assert!(!style.contains("base64,abc"));
    assert!(style.starts_with("color:transparent;"));
    assert!(style.ends_with(";"));
}

#[test]
fn requested_placeholder_is_referenced_by_url() {
    let style = placeholder_style(&SvgImage::Request(String::from("/cache/image?tok")));
    assert_eq!(
        style,
        "color:transparent;background-size:cover;background-position:50% 50%;\
         background-repeat:no-repeat;background-image:url('/cache/image?tok');",
    );
}
