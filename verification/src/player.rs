//! The player supervisor's verifiable half: choosing the player command,
//! assembling the argument list for one playback, and the fixed command the
//! position query writes to the player's control channel. Spawning and the
//! channel I/O live outside the library.
use vstd::prelude::*;

use crate::config::Config;
use crate::config::default_mpv;
use crate::config::default_mpv_name;
use crate::text;

verus! {

/// The player invocation under construction: the command to run and its
/// arguments, in order.
pub struct MPVClient {
    pub program: Vec<u8>,
    pub args: Vec<Vec<u8>>,
}

impl MPVClient {
    /// The player command the configuration calls for: its `mpv` entry, or
    /// the bare default name when the entry is empty.
    pub fn build(config: &Config) -> (c: MPVClient)
        ensures
            c.program@ == if config.mpv@.len() == 0 {
                default_mpv_name()
            } else {
                config.mpv@
            },
            c.args@.len() == 0,
    {
        let program = if config.mpv.len() == 0 {
            default_mpv()
        } else {
            vstd::slice::slice_to_vec(config.mpv.as_slice())
        };
        MPVClient { program, args: Vec::new() }
    }

    /// Append one argument.
    pub fn arg(&mut self, a: Vec<u8>)
        ensures
            final(self).program == old(self).program,
            final(self).args@ == old(self).args@.push(a),
    {
        self.args.push(a);
    }
}

/// The fixed volume argument: `--volume=85`.
pub open spec fn volume_arg() -> Seq<u8> {
    seq![45u8, 45u8, 118u8, 111u8, 108u8, 117u8, 109u8, 101u8, 61u8, 56u8, 53u8]
}

/// The control-channel argument: `--input-ipc-server=/tmp/mpvsocket`. The
/// channel's name is a configuration detail fixed at spawn time; on other
/// platforms it would be a named pipe instead of a socket path.
pub open spec fn ipc_server_arg() -> Seq<u8> {
    seq![45u8, 45u8, 105u8, 110u8, 112u8, 117u8, 116u8, 45u8, 105u8, 112u8, 99u8, 45u8, 115u8, 101u8, 114u8, 118u8, 101u8, 114u8, 61u8, 47u8, 116u8, 109u8, 112u8, 47u8, 109u8, 112u8, 118u8, 115u8, 111u8, 99u8, 107u8, 101u8, 116u8]
}

/// The log-level argument: `--msg-level=all=error`.
pub open spec fn msg_level_arg() -> Seq<u8> {
    seq![45u8, 45u8, 109u8, 115u8, 103u8, 45u8, 108u8, 101u8, 118u8, 101u8, 108u8, 61u8, 97u8, 108u8, 108u8, 61u8, 101u8, 114u8, 114u8, 111u8, 114u8]
}

/// The forced-window argument: `--force-window=immediate`.
pub open spec fn force_window_arg() -> Seq<u8> {
    seq![45u8, 45u8, 102u8, 111u8, 114u8, 99u8, 101u8, 45u8, 119u8, 105u8, 110u8, 100u8, 111u8, 119u8, 61u8, 105u8, 109u8, 109u8, 101u8, 100u8, 105u8, 97u8, 116u8, 101u8]
}

/// The prefix of the subtitle argument: `--sub-file=`.
pub open spec fn sub_file_prefix() -> Seq<u8> {
    seq![45u8, 45u8, 115u8, 117u8, 98u8, 45u8, 102u8, 105u8, 108u8, 101u8, 61u8]
}

/// The prefix of the user-agent argument: `--user-agent=`.
pub open spec fn user_agent_prefix() -> Seq<u8> {
    seq![45u8, 45u8, 117u8, 115u8, 101u8, 114u8, 45u8, 97u8, 103u8, 101u8, 110u8, 116u8, 61u8]
}

/// The prefix of the window-title argument: `--force-media-title=`.
pub open spec fn title_prefix() -> Seq<u8> {
    seq![45u8, 45u8, 102u8, 111u8, 114u8, 99u8, 101u8, 45u8, 109u8, 101u8, 100u8, 105u8, 97u8, 45u8, 116u8, 105u8, 116u8, 108u8, 101u8, 61u8]
}

/// The prefix of the start-position argument: `--start=`.
pub open spec fn start_prefix() -> Seq<u8> {
    seq![45u8, 45u8, 115u8, 116u8, 97u8, 114u8, 116u8, 61u8]
}

/// The prefix of the proxy argument: `--http-proxy=`.
pub open spec fn proxy_prefix() -> Seq<u8> {
    seq![45u8, 45u8, 104u8, 116u8, 116u8, 112u8, 45u8, 112u8, 114u8, 111u8, 120u8, 121u8, 61u8]
}

/// The argument list of one playback: the media address first, the
/// subtitle-file argument only when a subtitle address is present, then the
/// user agent, the fixed flags, the window title, the start position in
/// whole seconds, and the proxy.
pub open spec fn player_args(
    video_url: Seq<u8>,
    subfile_url: Seq<u8>,
    ua: Seq<u8>,
    proxy: Seq<u8>,
    title: Seq<u8>,
    start_ticks: u64,
) -> Seq<Seq<u8>> {
    let tail = seq![
        user_agent_prefix() + ua,
        volume_arg(),
        ipc_server_arg(),
        msg_level_arg(),
        force_window_arg(),
        title_prefix() + title,
        start_prefix() + text::dec_digits((start_ticks / 10_000_000) as nat),
        proxy_prefix() + proxy,
    ];
    if subfile_url.len() > 0 {
        seq![video_url, sub_file_prefix() + subfile_url] + tail
    } else {
        seq![video_url] + tail
    }
}

/// Assemble the argument list of one playback.
pub fn build_player_args(
    video_url: &[u8],
    subfile_url: &[u8],
    ua: &[u8],
    proxy: &[u8],
    title: &[u8],
    start_ticks: u64,
) -> (r: Vec<Vec<u8>>)
    ensures
        r.deep_view() == player_args(video_url@, subfile_url@, ua@, proxy@, title@, start_ticks),
{
    let vol: [u8; 11] = [45, 45, 118, 111, 108, 117, 109, 101, 61, 56, 53];
    let ipc: [u8; 33] = [45, 45, 105, 110, 112, 117, 116, 45, 105, 112, 99, 45, 115, 101, 114, 118, 101, 114, 61, 47, 116, 109, 112, 47, 109, 112, 118, 115, 111, 99, 107, 101, 116];
    let msg: [u8; 21] = [45, 45, 109, 115, 103, 45, 108, 101, 118, 101, 108, 61, 97, 108, 108, 61, 101, 114, 114, 111, 114];
    let fw: [u8; 24] = [45, 45, 102, 111, 114, 99, 101, 45, 119, 105, 110, 100, 111, 119, 61, 105, 109, 109, 101, 100, 105, 97, 116, 101];
    let subp: [u8; 11] = [45, 45, 115, 117, 98, 45, 102, 105, 108, 101, 61];
    let uap: [u8; 13] = [45, 45, 117, 115, 101, 114, 45, 97, 103, 101, 110, 116, 61];
    let titlep: [u8; 20] = [45, 45, 102, 111, 114, 99, 101, 45, 109, 101, 100, 105, 97, 45, 116, 105, 116, 108, 101, 61];
    let startp: [u8; 8] = [45, 45, 115, 116, 97, 114, 116, 61];
    let proxyp: [u8; 13] = [45, 45, 104, 116, 116, 112, 45, 112, 114, 111, 120, 121, 61];
    proof {
        assert(vol@ =~= volume_arg());
        assert(ipc@ =~= ipc_server_arg());
        assert(msg@ =~= msg_level_arg());
        assert(fw@ =~= force_window_arg());
        assert(subp@ =~= sub_file_prefix());
        assert(uap@ =~= user_agent_prefix());
        assert(titlep@ =~= title_prefix());
        assert(startp@ =~= start_prefix());
        assert(proxyp@ =~= proxy_prefix());
    }
    let mut r: Vec<Vec<u8>> = Vec::new();
    r.push(vstd::slice::slice_to_vec(video_url));
    if subfile_url.len() > 0 {
        r.push(text::concat_bytes(subp.as_slice(), subfile_url));
    }
    r.push(text::concat_bytes(uap.as_slice(), ua));
    r.push(vstd::slice::slice_to_vec(vol.as_slice()));
    r.push(vstd::slice::slice_to_vec(ipc.as_slice()));
    r.push(vstd::slice::slice_to_vec(msg.as_slice()));
    r.push(vstd::slice::slice_to_vec(fw.as_slice()));
    r.push(text::concat_bytes(titlep.as_slice(), title));
    let seconds = crate::ticks::ticks_to_seconds(start_ticks);
    let digits = text::u64_to_dec(seconds);
    r.push(text::concat_bytes(startp.as_slice(), digits.as_slice()));
    r.push(text::concat_bytes(proxyp.as_slice(), proxy));
    proof {
        assert(r.deep_view() =~~= player_args(
            video_url@,
            subfile_url@,
            ua@,
            proxy@,
            title@,
            start_ticks,
        ));
    }
    r
}

/// The line the position query writes to the player's control channel: a
/// JSON command asking for the `time-pos` property, newline terminated.
pub open spec fn ipc_command_line() -> Seq<u8> {
    seq![123u8, 32u8, 34u8, 99u8, 111u8, 109u8, 109u8, 97u8, 110u8, 100u8, 34u8, 58u8, 32u8, 91u8, 34u8, 103u8, 101u8, 116u8, 95u8, 112u8, 114u8, 111u8, 112u8, 101u8, 114u8, 116u8, 121u8, 34u8, 44u8, 32u8, 34u8, 116u8, 105u8, 109u8, 101u8, 45u8, 112u8, 111u8, 115u8, 34u8, 93u8, 32u8, 125u8, 10u8]
}

/// The position-query command, ready to write to the control channel.
pub fn ipc_command() -> (r: Vec<u8>)
    ensures
        r@ == ipc_command_line(),
{
    let c: [u8; 44] = [123, 32, 34, 99, 111, 109, 109, 97, 110, 100, 34, 58, 32, 91, 34, 103, 101, 116, 95, 112, 114, 111, 112, 101, 114, 116, 121, 34, 44, 32, 34, 116, 105, 109, 101, 45, 112, 111, 115, 34, 93, 32, 125, 10];
    let v = vstd::slice::slice_to_vec(c.as_slice());
    proof {
        assert(v@ =~= ipc_command_line());
    }
    v
}

} // verus!
