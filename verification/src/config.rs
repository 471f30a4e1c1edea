//! The handler's configuration surface: the player command, an optional
//! proxy and an optional user agent, with the defaults that apply when the
//! configuration file names nothing. Reading the file is the caller's
//! business; the defaulting rules live here.
use vstd::prelude::*;

verus! {

/// The user agent used when the configuration names none:
/// `Emby/3.2.32-17.32 (Linux;Android 13) ExoPlayerLib/2.13.2`.
pub open spec fn default_ua() -> Seq<u8> {
    seq![69u8, 109u8, 98u8, 121u8, 47u8, 51u8, 46u8, 50u8, 46u8, 51u8, 50u8, 45u8, 49u8, 55u8, 46u8, 51u8, 50u8, 32u8, 40u8, 76u8, 105u8, 110u8, 117u8, 120u8, 59u8, 65u8, 110u8, 100u8, 114u8, 111u8, 105u8, 100u8, 32u8, 49u8, 51u8, 41u8, 32u8, 69u8, 120u8, 111u8, 80u8, 108u8, 97u8, 121u8, 101u8, 114u8, 76u8, 105u8, 98u8, 47u8, 50u8, 46u8, 49u8, 51u8, 46u8, 50u8]
}

/// The player command used when the configuration names none: the bare
/// name `mpv`, resolved through the search path.
pub open spec fn default_mpv_name() -> Seq<u8> {
    seq![109u8, 112u8, 118u8]
}

/// The default player command.
pub fn default_mpv() -> (r: Vec<u8>)
    ensures
        r@ == default_mpv_name(),
{
    let p: [u8; 3] = [109, 112, 118];
    let v = vstd::slice::slice_to_vec(p.as_slice());
    proof {
        assert(v@ =~= default_mpv_name());
    }
    v
}

/// The key-value configuration the handler reads once at startup.
pub struct Config {
    pub mpv: Vec<u8>,
    pub proxy: Option<Vec<u8>>,
    pub useragent: Option<Vec<u8>>,
}

impl Default for Config {
    /// The configuration that applies when no file exists: the default
    /// player, no proxy, the default user agent.
    fn default() -> (c: Config)
        ensures
            c.mpv@ == default_mpv_name(),
            c.proxy is None,
            c.useragent matches Some(u) && u@ == default_ua(),
    {
    let ua: [u8; 56] = [69, 109, 98, 121, 47, 51, 46, 50, 46, 51, 50, 45, 49, 55, 46, 51, 50, 32, 40, 76, 105, 110, 117, 120, 59, 65, 110, 100, 114, 111, 105, 100, 32, 49, 51, 41, 32, 69, 120, 111, 80, 108, 97, 121, 101, 114, 76, 105, 98, 47, 50, 46, 49, 51, 46, 50];
        let uav = vstd::slice::slice_to_vec(ua.as_slice());
        proof {
            assert(uav@ =~= default_ua());
        }
        Config { mpv: default_mpv(), proxy: None, useragent: Some(uav) }
    }
}

/// The user agent the session uses: the configured one, or the default
/// when none is configured or it is empty.
pub fn get_ua(config: &Config) -> (r: Vec<u8>)
    ensures
        r@ == match config.useragent {
            Some(ua) => if ua@.len() == 0 {
                default_ua()
            } else {
                ua@
            },
            None => default_ua(),
        },
{
    let d: [u8; 56] = [69, 109, 98, 121, 47, 51, 46, 50, 46, 51, 50, 45, 49, 55, 46, 51, 50, 32, 40, 76, 105, 110, 117, 120, 59, 65, 110, 100, 114, 111, 105, 100, 32, 49, 51, 41, 32, 69, 120, 111, 80, 108, 97, 121, 101, 114, 76, 105, 98, 47, 50, 46, 49, 51, 46, 50];
    match &config.useragent {
        Some(ua) => {
            if ua.len() == 0 {
                let v = vstd::slice::slice_to_vec(d.as_slice());
                proof {
                    assert(v@ =~= default_ua());
                }
                v
            } else {
                vstd::slice::slice_to_vec(ua.as_slice())
            }
        },
        None => {
            let v = vstd::slice::slice_to_vec(d.as_slice());
            proof {
                assert(v@ =~= default_ua());
            }
            v
        },
    }
}

/// The proxy address the session uses: the configured one, or empty for a
/// direct connection.
pub fn get_proxy(config: &Config) -> (r: Vec<u8>)
    ensures
        r@ == match config.proxy {
            Some(p) => p@,
            None => Seq::<u8>::empty(),
        },
{
    match &config.proxy {
        Some(p) => vstd::slice::slice_to_vec(p.as_slice()),
        None => {
            let v: Vec<u8> = Vec::new();
            proof {
                assert(v@ =~= Seq::<u8>::empty());
            }
            v
        },
    }
}

} // verus!
