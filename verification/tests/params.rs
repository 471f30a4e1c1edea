use mpv_handler::error::ExtractError;
use mpv_handler::error::Field;
use mpv_handler::extractor::extract_params;

#[test]
fn full_url_yields_all_four_params() {
    let m4 = extract_params(b"http://host/emby/videos/42/stream?api_key=ABC&MediaSourceId=XYZ")
        .expect("all parameters present");
    assert_eq!(m4.host, b"http://host".to_vec());
    assert_eq!(m4.item_id, b"42".to_vec());
    assert_eq!(m4.api_key, b"ABC".to_vec());
    assert_eq!(m4.media_source_id, b"XYZ".to_vec());
}

#[test]
fn host_agrees_with_reference_parser() {
    let raw = "http://host/emby/videos/42/stream?api_key=ABC&MediaSourceId=XYZ";
    let m4 = extract_params(raw.as_bytes()).expect("all parameters present");
    let parsed = url::Url::parse(raw).expect("well-formed URL");
    let expected = format!("{}://{}", parsed.scheme(), parsed.host_str().unwrap());
    assert_eq!(m4.host, expected.into_bytes());
}

#[test]
fn port_is_preserved_in_host() {
    let m4 = extract_params(
        b"http://host:8096/emby/videos/42/stream?api_key=ABC&MediaSourceId=XYZ",
    )
    .expect("all parameters present");
    assert_eq!(m4.host, b"http://host:8096".to_vec());
}

#[test]
fn missing_api_key_fails() {
    assert_eq!(
        extract_params(b"http://host/emby/videos/42/stream?MediaSourceId=XYZ"),
        Err(ExtractError::MissingField(Field::ApiKey))
    );
}

#[test]
fn empty_api_key_fails() {
    assert_eq!(
        extract_params(b"http://host/emby/videos/42/stream?api_key=&MediaSourceId=XYZ"),
        Err(ExtractError::MissingField(Field::ApiKey))
    );
}

#[test]
fn missing_media_source_id_fails() {
    assert_eq!(
        extract_params(b"http://host/emby/videos/42/stream?api_key=ABC"),
        Err(ExtractError::MissingField(Field::MediaSourceId))
    );
}

#[test]
fn missing_item_id_fails() {
    assert_eq!(
        extract_params(b"http://host/emby/movies/42/stream?api_key=ABC&MediaSourceId=XYZ"),
        Err(ExtractError::MissingField(Field::ItemId))
    );
    // digits must be followed by another path separator
    assert_eq!(
        extract_params(b"http://host/emby/videos/42?api_key=ABC&MediaSourceId=XYZ"),
        Err(ExtractError::MissingField(Field::ItemId))
    );
}

#[test]
fn missing_host_fails() {
    assert_eq!(
        extract_params(b"no scheme at all"),
        Err(ExtractError::MissingField(Field::Host))
    );
    assert_eq!(
        extract_params(b"http:///emby/videos/42/s?api_key=A&MediaSourceId=B"),
        Err(ExtractError::MissingField(Field::Host))
    );
}

#[test]
fn last_videos_segment_wins() {
    let m4 = extract_params(
        b"http://h/emby/videos/1/videos/2/stream?api_key=A&MediaSourceId=B",
    )
    .expect("all parameters present");
    assert_eq!(m4.item_id, b"2".to_vec());
}

#[test]
fn query_markers_in_path_are_not_query_values() {
    // `api_key` appearing in the path does not count; only the query does
    assert_eq!(
        extract_params(b"http://h/emby/videos/7/api_key=A/stream?MediaSourceId=B"),
        Err(ExtractError::MissingField(Field::ApiKey))
    );
}
