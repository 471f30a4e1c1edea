//! The session client's verifiable half: the identity and header material
//! every remote call carries, the endpoint addresses, the status payload of
//! the three lifecycle reports, and the reading of what the server answers.
//! The HTTP transport itself lives outside the library and hands plain
//! values in and out.
use vstd::prelude::*;

use crate::text;

verus! {

/// The resolved identity of this session: the user and the play session the
/// server knows this process as.
pub struct Id {
    pub user_id: Vec<u8>,
    pub play_session_id: Vec<u8>,
}

/// The identifying material sent with every remote call, fixed once per
/// process: a fresh random device identifier and the local host's name.
pub struct SessionContext {
    pub device_id: Vec<u8>,
    pub device_name: Vec<u8>,
}

/// Relies on `uuid::Uuid::new_v4` and its `Display` form: a fresh random
/// UUID, hyphenated, is exactly 36 ASCII bytes. Nothing is assumed about
/// which value comes back.
#[verifier::external_body]
pub(crate) fn deviceid_gen() -> (r: Vec<u8>)
    ensures
        r@.len() == 36,
{
    uuid::Uuid::new_v4().to_string().into_bytes()
}

/// The device name used when the local host name is unavailable: `Unknown`.
pub open spec fn unknown_device_name() -> Seq<u8> {
    seq![85u8, 110u8, 107u8, 110u8, 111u8, 119u8, 110u8]
}

/// The device name reported to the server: the local host name, or the
/// fixed fallback when none is available.
pub fn get_device_name(hostname: Option<Vec<u8>>) -> (r: Vec<u8>)
    ensures
        r@ == match hostname {
            Some(h) => h@,
            None => unknown_device_name(),
        },
{
    match hostname {
        Some(h) => h,
        None => {
            let u: [u8; 7] = [85, 110, 107, 110, 111, 119, 110];
            let v = vstd::slice::slice_to_vec(u.as_slice());
            proof {
                assert(v@ =~= unknown_device_name());
            }
            v
        },
    }
}

impl SessionContext {
    /// A fresh context: a 36-byte random device identifier, and the given
    /// host name or its fallback.
    pub fn new(hostname: Option<Vec<u8>>) -> (ctx: SessionContext)
        ensures
            ctx.device_id@.len() == 36,
            ctx.device_name@ == match hostname {
                Some(h) => h@,
                None => unknown_device_name(),
            },
    {
        SessionContext { device_id: deviceid_gen(), device_name: get_device_name(hostname) }
    }
}

/// The access-token header name: `X-Emby-Token`.
pub open spec fn token_header() -> Seq<u8> {
    seq![88u8, 45u8, 69u8, 109u8, 98u8, 121u8, 45u8, 84u8, 111u8, 107u8, 101u8, 110u8]
}

/// The device-identifier header name: `X-Emby-Device-Id`.
pub open spec fn device_id_header() -> Seq<u8> {
    seq![
        88u8, 45u8, 69u8, 109u8, 98u8, 121u8, 45u8, 68u8, 101u8, 118u8, 105u8, 99u8, 101u8, 45u8,
        73u8, 100u8,
    ]
}

/// The device-name header name: `X-Emby-Device-Name`.
pub open spec fn device_name_header() -> Seq<u8> {
    seq![
        88u8, 45u8, 69u8, 109u8, 98u8, 121u8, 45u8, 68u8, 101u8, 118u8, 105u8, 99u8, 101u8, 45u8,
        78u8, 97u8, 109u8, 101u8,
    ]
}

/// The client header name: `X-Emby-Client`.
pub open spec fn client_header() -> Seq<u8> {
    seq![88u8, 45u8, 69u8, 109u8, 98u8, 121u8, 45u8, 67u8, 108u8, 105u8, 101u8, 110u8, 116u8]
}

/// The user header name: `X-Emby-User-Id`.
pub open spec fn user_id_header() -> Seq<u8> {
    seq![88u8, 45u8, 69u8, 109u8, 98u8, 121u8, 45u8, 85u8, 115u8, 101u8, 114u8, 45u8, 73u8, 100u8]
}

/// The fixed client name: `Emby`.
pub open spec fn client_name() -> Seq<u8> {
    seq![69u8, 109u8, 98u8, 121u8]
}

/// The headers every authenticated call carries: access token, device
/// identity, client name and the resolved user, in this order.
pub fn construct_headers(api_key: &[u8], ctx: &SessionContext, user_id: &[u8]) -> (r: Vec<
    (Vec<u8>, Vec<u8>),
>)
    ensures
        r@.len() == 5,
        r@[0].0@ == token_header() && r@[0].1@ == api_key@,
        r@[1].0@ == device_id_header() && r@[1].1@ == ctx.device_id@,
        r@[2].0@ == device_name_header() && r@[2].1@ == ctx.device_name@,
        r@[3].0@ == client_header() && r@[3].1@ == client_name(),
        r@[4].0@ == user_id_header() && r@[4].1@ == user_id@,
{
    let mut r: Vec<(Vec<u8>, Vec<u8>)> = Vec::new();
    let h0: [u8; 12] = [88, 45, 69, 109, 98, 121, 45, 84, 111, 107, 101, 110];
    let h1: [u8; 16] = [88, 45, 69, 109, 98, 121, 45, 68, 101, 118, 105, 99, 101, 45, 73, 100];
    let h2: [u8; 18] = [
        88,
        45,
        69,
        109,
        98,
        121,
        45,
        68,
        101,
        118,
        105,
        99,
        101,
        45,
        78,
        97,
        109,
        101,
    ];
    let h3: [u8; 13] = [88, 45, 69, 109, 98, 121, 45, 67, 108, 105, 101, 110, 116];
    let h4: [u8; 14] = [88, 45, 69, 109, 98, 121, 45, 85, 115, 101, 114, 45, 73, 100];
    let cn: [u8; 4] = [69, 109, 98, 121];
    proof {
        assert(h0@ =~= token_header());
        assert(h1@ =~= device_id_header());
        assert(h2@ =~= device_name_header());
        assert(h3@ =~= client_header());
        assert(h4@ =~= user_id_header());
        assert(cn@ =~= client_name());
    }
    r.push((vstd::slice::slice_to_vec(h0.as_slice()), vstd::slice::slice_to_vec(api_key)));
    r.push(
        (
            vstd::slice::slice_to_vec(h1.as_slice()),
            vstd::slice::slice_to_vec(ctx.device_id.as_slice()),
        ),
    );
    r.push(
        (
            vstd::slice::slice_to_vec(h2.as_slice()),
            vstd::slice::slice_to_vec(ctx.device_name.as_slice()),
        ),
    );
    r.push((vstd::slice::slice_to_vec(h3.as_slice()), vstd::slice::slice_to_vec(cn.as_slice())));
    r.push((vstd::slice::slice_to_vec(h4.as_slice()), vstd::slice::slice_to_vec(user_id)));
    r
}

/// The identity-resolution endpoint path: `/emby/Sessions`.
pub open spec fn sessions_path() -> Seq<u8> {
    seq![47u8, 101u8, 109u8, 98u8, 121u8, 47u8, 83u8, 101u8, 115u8, 115u8, 105u8, 111u8, 110u8,
        115u8]
}

/// The address of the active-sessions endpoint on `host`.
pub fn sessions_url(host: &[u8]) -> (r: Vec<u8>)
    ensures
        r@ == host@ + sessions_path(),
{
    let p: [u8; 14] = [47, 101, 109, 98, 121, 47, 83, 101, 115, 115, 105, 111, 110, 115];
    proof {
        assert(p@ =~= sessions_path());
    }
    text::concat_bytes(host, p.as_slice())
}

/// The session list's first entry names this caller: its raw `UserId` and
/// session `Id` values become the identity, with any quote characters a
/// naive JSON-value-to-text coercion leaves stripped from both ends.
pub fn get_user_id(user_id_raw: &[u8], play_session_id_raw: &[u8]) -> (id: Id)
    ensures
        id.user_id@ == text::trim_both(user_id_raw@, 34),
        id.play_session_id@ == text::trim_both(play_session_id_raw@, 34),
{
    Id {
        user_id: text::trim_both_bytes(user_id_raw, 34),
        play_session_id: text::trim_both_bytes(play_session_id_raw, 34),
    }
}

/// The first piece of the per-user items path: `/emby/Users/`.
pub open spec fn users_path() -> Seq<u8> {
    seq![47u8, 101u8, 109u8, 98u8, 121u8, 47u8, 85u8, 115u8, 101u8, 114u8, 115u8, 47u8]
}

/// The second piece of the per-user items path: `/Items?Ids=`.
pub open spec fn user_items_path() -> Seq<u8> {
    seq![47u8, 73u8, 116u8, 101u8, 109u8, 115u8, 63u8, 73u8, 100u8, 115u8, 61u8]
}

/// The address of the per-user item endpoint supplying the resume position.
pub fn user_items_url(host: &[u8], user_id: &[u8], item_id: &[u8]) -> (r: Vec<u8>)
    ensures
        r@ == host@ + users_path() + user_id@ + user_items_path() + item_id@,
{
    let p1: [u8; 12] = [47, 101, 109, 98, 121, 47, 85, 115, 101, 114, 115, 47];
    let p2: [u8; 11] = [47, 73, 116, 101, 109, 115, 63, 73, 100, 115, 61];
    proof {
        assert(p1@ =~= users_path());
        assert(p2@ =~= user_items_path());
    }
    let mut r = text::concat_bytes(host, p1.as_slice());
    let mut tail = text::concat_bytes(user_id, p2.as_slice());
    r.append(&mut tail);
    let mut item = vstd::slice::slice_to_vec(item_id);
    r.append(&mut item);
    proof {
        assert(r@ =~= host@ + users_path() + user_id@ + user_items_path() + item_id@);
    }
    r
}

/// The item-metadata path: `/emby/Items?Ids=`.
pub open spec fn items_path() -> Seq<u8> {
    seq![47u8, 101u8, 109u8, 98u8, 121u8, 47u8, 73u8, 116u8, 101u8, 109u8, 115u8, 63u8, 73u8,
        100u8, 115u8, 61u8]
}

/// The address of the item-metadata endpoint supplying the chapter title.
pub fn items_url(host: &[u8], item_id: &[u8]) -> (r: Vec<u8>)
    ensures
        r@ == host@ + items_path() + item_id@,
{
    let p: [u8; 16] = [47, 101, 109, 98, 121, 47, 73, 116, 101, 109, 115, 63, 73, 100, 115, 61];
    proof {
        assert(p@ =~= items_path());
    }
    let mut r = text::concat_bytes(host, p.as_slice());
    let mut item = vstd::slice::slice_to_vec(item_id);
    r.append(&mut item);
    proof {
        assert(r@ =~= host@ + items_path() + item_id@);
    }
    r
}

/// The resume position the server reports: the stored playback position, or
/// zero for an item never played.
pub fn get_start_position(playback_position_ticks: Option<u64>) -> (r: u64)
    ensures
        r == match playback_position_ticks {
            Some(t) => t,
            None => 0u64,
        },
{
    match playback_position_ticks {
        Some(t) => t,
        None => 0,
    }
}

/// The item type value naming an episode: `Episode`.
pub open spec fn episode_type() -> Seq<u8> {
    seq![69u8, 112u8, 105u8, 115u8, 111u8, 100u8, 101u8]
}

/// The item type value naming a movie: `Movie`.
pub open spec fn movie_type() -> Seq<u8> {
    seq![77u8, 111u8, 118u8, 105u8, 101u8]
}

/// The window title an item's metadata yields: for an episode,
/// `{series} - S{season}E{episode} - {title}`; for a movie, its name; empty
/// for anything else.
pub open spec fn chapter_title(
    item_type: Seq<u8>,
    series_name: Seq<u8>,
    season: Seq<u8>,
    episode: Seq<u8>,
    name: Seq<u8>,
) -> Seq<u8> {
    if item_type == episode_type() {
        series_name + seq![32u8, 45u8, 32u8, 83u8] + season + seq![69u8] + episode + seq![32u8,
            45u8, 32u8] + name
    } else if item_type == movie_type() {
        name
    } else {
        Seq::empty()
    }
}

/// Format the window title from an item's metadata fields, handed over as
/// the raw texts the server answered with.
pub fn get_chapter_info(
    item_type: &[u8],
    series_name: &[u8],
    season: &[u8],
    episode: &[u8],
    name: &[u8],
) -> (r: Vec<u8>)
    ensures
        r@ == chapter_title(item_type@, series_name@, season@, episode@, name@),
{
    let ep: [u8; 7] = [69, 112, 105, 115, 111, 100, 101];
    let mv: [u8; 5] = [77, 111, 118, 105, 101];
    proof {
        assert(ep@ =~= episode_type());
        assert(mv@ =~= movie_type());
    }
    if text::bytes_eq(item_type, ep.as_slice()) {
        let s1: [u8; 4] = [32, 45, 32, 83];
        let s2: [u8; 1] = [69];
        let s3: [u8; 3] = [32, 45, 32];
        let mut r = text::concat_bytes(series_name, s1.as_slice());
        let mut mid = text::concat_bytes(season, s2.as_slice());
        r.append(&mut mid);
        let mut tail = text::concat_bytes(episode, s3.as_slice());
        r.append(&mut tail);
        let mut last = vstd::slice::slice_to_vec(name);
        r.append(&mut last);
        proof {
            assert(r@ =~= chapter_title(item_type@, series_name@, season@, episode@, name@));
        }
        r
    } else if text::bytes_eq(item_type, mv.as_slice()) {
        vstd::slice::slice_to_vec(name)
    } else {
        let r: Vec<u8> = Vec::new();
        proof {
            assert(r@ =~= Seq::<u8>::empty());
        }
        r
    }
}

/// The three lifecycle report phases.
#[derive(Clone, Copy, Debug, PartialEq, Eq, Structural)]
pub enum PlayStatus {
    Play,
    Progress,
    Stop,
}

/// The endpoint path a phase reports to.
pub open spec fn status_path(status: PlayStatus) -> Seq<u8> {
    match status {
        PlayStatus::Play => seq![47u8, 101u8, 109u8, 98u8, 121u8, 47u8, 83u8, 101u8, 115u8, 115u8,
            105u8, 111u8, 110u8, 115u8, 47u8, 80u8, 108u8, 97u8, 121u8, 105u8, 110u8, 103u8],
        PlayStatus::Progress => seq![47u8, 101u8, 109u8, 98u8, 121u8, 47u8, 83u8, 101u8, 115u8,
            115u8, 105u8, 111u8, 110u8, 115u8, 47u8, 80u8, 108u8, 97u8, 121u8, 105u8, 110u8, 103u8,
            47u8, 80u8, 114u8, 111u8, 103u8, 114u8, 101u8, 115u8, 115u8],
        PlayStatus::Stop => seq![47u8, 101u8, 109u8, 98u8, 121u8, 47u8, 83u8, 101u8, 115u8, 115u8,
            105u8, 111u8, 110u8, 115u8, 47u8, 80u8, 108u8, 97u8, 121u8, 105u8, 110u8, 103u8, 47u8,
            83u8, 116u8, 111u8, 112u8, 112u8, 101u8, 100u8],
    }
}

/// One status report, ready for the transport: where to post, and every
/// field of the payload. The flags are fixed: this client never pauses,
/// mutes or repeats, reports direct streaming, and can seek.
pub struct StatusRequest {
    pub url: Vec<u8>,
    pub is_muted: bool,
    pub is_paused: bool,
    pub repeat_mode: Vec<u8>,
    pub subtitle_offset: i64,
    pub playback_rate: u64,
    pub max_streaming_bitrate: u64,
    pub play_method: Vec<u8>,
    pub play_session_id: Vec<u8>,
    pub media_source_id: Vec<u8>,
    pub can_seek: bool,
    pub item_id: Vec<u8>,
    pub position_ticks: u64,
}

/// The fixed repeat mode value: `RepeatNone`.
pub open spec fn repeat_none() -> Seq<u8> {
    seq![82u8, 101u8, 112u8, 101u8, 97u8, 116u8, 78u8, 111u8, 110u8, 101u8]
}

/// The fixed play method value: `DirectStream`.
pub open spec fn direct_stream() -> Seq<u8> {
    seq![68u8, 105u8, 114u8, 101u8, 99u8, 116u8, 83u8, 116u8, 114u8, 101u8, 97u8, 109u8]
}

/// Build one lifecycle report: the phase picks the endpoint, the payload
/// carries the position and identifiers with the fixed flags.
pub fn playing_status(
    ticks: u64,
    host: &[u8],
    item_id: &[u8],
    media_source_id: &[u8],
    play_session_id: &[u8],
    status: PlayStatus,
) -> (r: StatusRequest)
    ensures
        r.url@ == host@ + status_path(status),
        r.is_muted == false,
        r.is_paused == false,
        r.repeat_mode@ == repeat_none(),
        r.subtitle_offset == 0i64,
        r.playback_rate == 1u64,
        r.max_streaming_bitrate == 1_000_000_000u64,
        r.play_method@ == direct_stream(),
        r.play_session_id@ == play_session_id@,
        r.media_source_id@ == media_source_id@,
        r.can_seek == true,
        r.item_id@ == item_id@,
        r.position_ticks == ticks,
{
    let url = match status {
        PlayStatus::Play => {
            let p: [u8; 22] = [
                47,
                101,
                109,
                98,
                121,
                47,
                83,
                101,
                115,
                115,
                105,
                111,
                110,
                115,
                47,
                80,
                108,
                97,
                121,
                105,
                110,
                103,
            ];
            proof {
                assert(p@ =~= status_path(PlayStatus::Play));
            }
            text::concat_bytes(host, p.as_slice())
        },
        PlayStatus::Progress => {
            let p: [u8; 31] = [
                47,
                101,
                109,
                98,
                121,
                47,
                83,
                101,
                115,
                115,
                105,
                111,
                110,
                115,
                47,
                80,
                108,
                97,
                121,
                105,
                110,
                103,
                47,
                80,
                114,
                111,
                103,
                114,
                101,
                115,
                115,
            ];
            proof {
                assert(p@ =~= status_path(PlayStatus::Progress));
            }
            text::concat_bytes(host, p.as_slice())
        },
        PlayStatus::Stop => {
            let p: [u8; 30] = [
                47,
                101,
                109,
                98,
                121,
                47,
                83,
                101,
                115,
                115,
                105,
                111,
                110,
                115,
                47,
                80,
                108,
                97,
                121,
                105,
                110,
                103,
                47,
                83,
                116,
                111,
                112,
                112,
                101,
                100,
            ];
            proof {
                assert(p@ =~= status_path(PlayStatus::Stop));
            }
            text::concat_bytes(host, p.as_slice())
        },
    };
    let rm: [u8; 10] = [82, 101, 112, 101, 97, 116, 78, 111, 110, 101];
    let dsm: [u8; 12] = [68, 105, 114, 101, 99, 116, 83, 116, 114, 101, 97, 109];
    proof {
        assert(rm@ =~= repeat_none());
        assert(dsm@ =~= direct_stream());
    }
    StatusRequest {
        url,
        is_muted: false,
        is_paused: false,
        repeat_mode: vstd::slice::slice_to_vec(rm.as_slice()),
        subtitle_offset: 0,
        playback_rate: 1,
        max_streaming_bitrate: 1_000_000_000,
        play_method: vstd::slice::slice_to_vec(dsm.as_slice()),
        play_session_id: vstd::slice::slice_to_vec(play_session_id),
        media_source_id: vstd::slice::slice_to_vec(media_source_id),
        can_seek: true,
        item_id: vstd::slice::slice_to_vec(item_id),
        position_ticks: ticks,
    }
}

} // verus!
