use mpv_handler::session::construct_headers;
use mpv_handler::session::get_chapter_info;
use mpv_handler::session::get_start_position;
use mpv_handler::session::get_user_id;
use mpv_handler::session::items_url;
use mpv_handler::session::playing_status;
use mpv_handler::session::sessions_url;
use mpv_handler::session::user_items_url;
use mpv_handler::session::PlayStatus;
use mpv_handler::session::SessionContext;

#[test]
fn device_id_is_a_fresh_uuid_text() {
    let ctx = SessionContext::new(Some(b"myhost".to_vec()));
    assert_eq!(ctx.device_id.len(), 36);
    assert_eq!(ctx.device_name, b"myhost".to_vec());
}

#[test]
fn device_name_falls_back_to_unknown() {
    let ctx = SessionContext::new(None);
    assert_eq!(ctx.device_name, b"Unknown".to_vec());
}

#[test]
fn headers_carry_the_identity_contract() {
    let ctx = SessionContext {
        device_id: b"dev-1".to_vec(),
        device_name: b"box".to_vec(),
    };
    let headers = construct_headers(b"KEY", &ctx, b"user-9");
    assert_eq!(headers.len(), 5);
    assert_eq!(headers[0], (b"X-Emby-Token".to_vec(), b"KEY".to_vec()));
    assert_eq!(headers[1], (b"X-Emby-Device-Id".to_vec(), b"dev-1".to_vec()));
    assert_eq!(headers[2], (b"X-Emby-Device-Name".to_vec(), b"box".to_vec()));
    assert_eq!(headers[3], (b"X-Emby-Client".to_vec(), b"Emby".to_vec()));
    assert_eq!(headers[4], (b"X-Emby-User-Id".to_vec(), b"user-9".to_vec()));
}

#[test]
fn identity_strips_coerced_quotes() {
    let id = get_user_id(b"\"user-1\"", b"\"session-2\"");
    assert_eq!(id.user_id, b"user-1".to_vec());
    assert_eq!(id.play_session_id, b"session-2".to_vec());
    let id = get_user_id(b"bare", b"values");
    assert_eq!(id.user_id, b"bare".to_vec());
    assert_eq!(id.play_session_id, b"values".to_vec());
}

#[test]
fn endpoint_addresses() {
    assert_eq!(sessions_url(b"http://h:1"), b"http://h:1/emby/Sessions".to_vec());
    assert_eq!(items_url(b"http://h", b"42"), b"http://h/emby/Items?Ids=42".to_vec());
    assert_eq!(
        user_items_url(b"http://h", b"u7", b"42"),
        b"http://h/emby/Users/u7/Items?Ids=42".to_vec()
    );
}

#[test]
fn resume_position_defaults_to_zero() {
    assert_eq!(get_start_position(Some(77)), 77);
    assert_eq!(get_start_position(None), 0);
}

#[test]
fn chapter_title_formats() {
    assert_eq!(
        get_chapter_info(b"Episode", b"Show", b"2", b"5", b"Pilot"),
        b"Show - S2E5 - Pilot".to_vec()
    );
    assert_eq!(
        get_chapter_info(b"Movie", b"", b"", b"", b"Heat"),
        b"Heat".to_vec()
    );
    assert_eq!(
        get_chapter_info(b"Audio", b"x", b"y", b"z", b"w"),
        Vec::<u8>::new()
    );
}

#[test]
fn status_reports_pick_the_phase_endpoint() {
    let r = playing_status(5, b"http://h", b"42", b"MS", b"PS", PlayStatus::Play);
    assert_eq!(r.url, b"http://h/emby/Sessions/Playing".to_vec());
    let r = playing_status(5, b"http://h", b"42", b"MS", b"PS", PlayStatus::Progress);
    assert_eq!(r.url, b"http://h/emby/Sessions/Playing/Progress".to_vec());
    let r = playing_status(5, b"http://h", b"42", b"MS", b"PS", PlayStatus::Stop);
    assert_eq!(r.url, b"http://h/emby/Sessions/Playing/Stopped".to_vec());
}

#[test]
fn status_reports_carry_fixed_flags_and_the_position() {
    let r = playing_status(987, b"http://h", b"42", b"MS", b"PS", PlayStatus::Progress);
    assert!(!r.is_muted);
    assert!(!r.is_paused);
    assert_eq!(r.repeat_mode, b"RepeatNone".to_vec());
    assert_eq!(r.subtitle_offset, 0);
    assert_eq!(r.playback_rate, 1);
    assert_eq!(r.max_streaming_bitrate, 1_000_000_000);
    assert_eq!(r.play_method, b"DirectStream".to_vec());
    assert_eq!(r.play_session_id, b"PS".to_vec());
    assert_eq!(r.media_source_id, b"MS".to_vec());
    assert!(r.can_seek);
    assert_eq!(r.item_id, b"42".to_vec());
    assert_eq!(r.position_ticks, 987);
}
