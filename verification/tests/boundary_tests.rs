use image_cache::{
    from_url_encoded, CachedImage, CachedImageOption, CreateImageError, DecodeError, Filter,
    HttpOutcome, ImageOptimizer, Resize, ResizeType,
};

fn cat() -> CachedImage {
    CachedImage {
        src: String::from("cat.png"),
        option: CachedImageOption::Resize(Resize {
            width: 300,
            height: 200,
            quality: 75,
            filter: Filter::CatmullRom,
            resize_type: ResizeType::Fit,
        }),
    }
}

#[test]
fn url_round_trip() {
    let opt = ImageOptimizer::new(String::from("/cache/image"), String::from("/srv/site"));
    let url = opt.get_url_encoded(&cat());
    assert!(url.starts_with("/cache/image?"));
    assert_eq!(from_url_encoded(&url).expect("built URL decodes"), cat());
}

#[test]
fn url_without_query_is_rejected() {
    assert!(from_url_encoded("/cache/image").is_err());
    assert!(from_url_encoded("").is_err());
}

#[test]
fn url_with_garbage_token_is_rejected() {
    assert!(from_url_encoded("/cache/image?notatoken").is_err());
    assert!(from_url_encoded("/cache/image?").is_err());
}

#[test]
fn bad_token_maps_to_not_found_not_server_error() {
    let decoded: Result<CachedImage, DecodeError> = from_url_encoded("/cache/image?garbage");
    let outcome = image_cache::boundary::handle_request_outcome(
        &decoded,
        &Err(CreateImageError::IoError),
    );
    assert!(matches!(outcome, HttpOutcome::NotFound));
}

#[test]
fn resolved_file_is_served_at_root_relative_uri() {
    let decoded: Result<CachedImage, DecodeError> = Ok(cat());
    let resolved: Result<String, CreateImageError> = Ok(cat().get_file_path());
    let outcome = image_cache::boundary::handle_request_outcome(&decoded, &resolved);
    match outcome {
        HttpOutcome::ServeFile(uri) => {
            assert_eq!(uri, format!("/{}", cat().get_file_path()));
        },
        _ => panic!("expected a served file"),
    }
}

#[test]
fn creation_failure_is_a_server_error_with_its_cause() {
    let decoded: Result<CachedImage, DecodeError> = Ok(cat());
    let resolved: Result<String, CreateImageError> = Err(CreateImageError::SourceNotFound);
    let outcome = image_cache::boundary::handle_request_outcome(&decoded, &resolved);
    match outcome {
        HttpOutcome::ServerError(e) => assert_eq!(e, CreateImageError::SourceNotFound),
        _ => panic!("expected a server error"),
    }
}
