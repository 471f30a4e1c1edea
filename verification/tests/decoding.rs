use base64::engine::general_purpose::URL_SAFE_NO_PAD;
use base64::Engine;
use mpv_handler::codec;
use mpv_handler::error::DecodeError;
use mpv_handler::extractor::extract_urls;

fn handler_url(media: &str) -> Vec<u8> {
    let mut v = b"mpv://play/".to_vec();
    v.extend_from_slice(codec::encode(media.as_bytes()).as_slice());
    v
}

#[test]
fn codec_matches_reference_encoder() {
    let samples: Vec<&[u8]> = vec![
        b"",
        b"f",
        b"fo",
        b"foo",
        b"foob",
        b"fooba",
        b"foobar",
        b"http://host/emby/videos/42/stream?api_key=ABC&MediaSourceId=XYZ",
        &[0u8, 255, 254, 1, 127, 128],
    ];
    for s in samples {
        let ours = codec::encode(s);
        let reference = URL_SAFE_NO_PAD.encode(s);
        assert_eq!(ours, reference.as_bytes().to_vec());
        let back = codec::decode(ours.as_slice()).expect("canonical encoding must decode");
        assert_eq!(back, s.to_vec());
    }
}

#[test]
fn codec_round_trip() {
    let data = b"some arbitrary payload \x00\x01\xfe";
    let enc = codec::encode(data);
    assert_eq!(codec::decode(enc.as_slice()), Some(data.to_vec()));
}

#[test]
fn codec_round_trip_backwards() {
    // every accepted string is the canonical encoding of its decoding
    for s in ["", "AA", "AAA", "AAAA", "abcd-_09", "SGVsbG8"] {
        let decoded = codec::decode(s.as_bytes()).expect("canonical input");
        assert_eq!(codec::encode(decoded.as_slice()), s.as_bytes().to_vec());
    }
}

#[test]
fn codec_rejects_what_reference_rejects() {
    let bad: Vec<&[u8]> = vec![
        b"A",    // a lone character encodes nothing
        b"A!",   // not of the alphabet
        b"AB",   // non-zero trailing bits
        b"AAAB", // a full group of four, accepted by both
    ];
    assert_eq!(codec::decode(bad[0]), None);
    assert!(URL_SAFE_NO_PAD.decode("A").is_err());
    assert_eq!(codec::decode(bad[1]), None);
    assert!(URL_SAFE_NO_PAD.decode("A!").is_err());
    assert_eq!(codec::decode(bad[2]), None);
    assert!(URL_SAFE_NO_PAD.decode("AB").is_err());
    // and agreement on the accepted side as well
    assert_eq!(
        codec::decode(bad[3]),
        URL_SAFE_NO_PAD.decode("AAAB").ok(),
    );
}

#[test]
fn single_segment_decodes() {
    let url = handler_url("http://host/emby/videos/42/stream?api_key=ABC&MediaSourceId=XYZ");
    let (media, sub) = extract_urls(url.as_slice()).expect("valid handler URL");
    assert_eq!(
        media,
        b"http://host/emby/videos/42/stream?api_key=ABC&MediaSourceId=XYZ".to_vec()
    );
    assert_eq!(sub, Vec::<u8>::new());
}

#[test]
fn subtitle_segment_decodes_and_trailing_params_are_ignored() {
    let mut url = handler_url("http://host/video.mkv");
    url.extend_from_slice(b"/?subfile=");
    url.extend_from_slice(codec::encode(b"http://host/sub.ass").as_slice());
    url.extend_from_slice(b"&extra=1");
    let (media, sub) = extract_urls(url.as_slice()).expect("valid handler URL");
    assert_eq!(media, b"http://host/video.mkv".to_vec());
    assert_eq!(sub, b"http://host/sub.ass".to_vec());
}

#[test]
fn missing_scheme_is_invalid_scheme() {
    assert_eq!(
        extract_urls(b"https://play/abcd"),
        Err(DecodeError::InvalidScheme)
    );
    assert_eq!(extract_urls(b""), Err(DecodeError::InvalidScheme));
    assert_eq!(extract_urls(b"mpv://pause/abcd"), Err(DecodeError::InvalidScheme));
}

#[test]
fn trailing_padding_is_ignored() {
    let mut url = handler_url("http://host/v");
    url.extend_from_slice(b"==");
    let (media, _) = extract_urls(url.as_slice()).expect("padding must be tolerated");
    assert_eq!(media, b"http://host/v".to_vec());
}

#[test]
fn garbage_payload_is_decode_failed() {
    assert_eq!(
        extract_urls(b"mpv://play/!!!!"),
        Err(DecodeError::DecodeFailed)
    );
}

#[test]
fn non_utf8_payload_is_encoding_failed() {
    let mut url = b"mpv://play/".to_vec();
    url.extend_from_slice(codec::encode(&[0xff, 0xfe]).as_slice());
    assert_eq!(extract_urls(url.as_slice()), Err(DecodeError::EncodingFailed));
}
