use mpv_handler::config::default_mpv;
use mpv_handler::config::get_proxy;
use mpv_handler::config::get_ua;
use mpv_handler::config::Config;
use mpv_handler::player::build_player_args;
use mpv_handler::player::ipc_command;
use mpv_handler::player::MPVClient;
use mpv_handler::registry::add_reg;
use mpv_handler::registry::del_reg;

const DEFAULT_UA: &str = "Emby/3.2.32-17.32 (Linux;Android 13) ExoPlayerLib/2.13.2";

#[test]
fn defaults_apply_when_no_file_exists() {
    let c = Config::default();
    assert_eq!(c.mpv, b"mpv".to_vec());
    assert!(c.proxy.is_none());
    assert_eq!(c.useragent, Some(DEFAULT_UA.as_bytes().to_vec()));
    assert_eq!(default_mpv(), b"mpv".to_vec());
}

#[test]
fn user_agent_defaulting() {
    let mut c = Config::default();
    c.useragent = None;
    assert_eq!(get_ua(&c), DEFAULT_UA.as_bytes().to_vec());
    c.useragent = Some(Vec::new());
    assert_eq!(get_ua(&c), DEFAULT_UA.as_bytes().to_vec());
    c.useragent = Some(b"custom/1.0".to_vec());
    assert_eq!(get_ua(&c), b"custom/1.0".to_vec());
}

#[test]
fn proxy_defaults_to_empty() {
    let mut c = Config::default();
    assert_eq!(get_proxy(&c), Vec::<u8>::new());
    c.proxy = Some(b"http://proxy:8080".to_vec());
    assert_eq!(get_proxy(&c), b"http://proxy:8080".to_vec());
}

#[test]
fn player_command_choice() {
    let mut c = Config::default();
    c.mpv = Vec::new();
    let p = MPVClient::build(&c);
    assert_eq!(p.program, b"mpv".to_vec());
    assert!(p.args.is_empty());
    c.mpv = b"/opt/mpv/bin/mpv".to_vec();
    let mut p = MPVClient::build(&c);
    assert_eq!(p.program, b"/opt/mpv/bin/mpv".to_vec());
    p.arg(b"--fs".to_vec());
    assert_eq!(p.args, vec![b"--fs".to_vec()]);
}

#[test]
fn argument_list_with_subtitle() {
    let args = build_player_args(
        b"http://h/v.mkv",
        b"http://h/s.ass",
        b"ua/1",
        b"http://p:1",
        b"My Title",
        123_450_000_000,
    );
    let expected: Vec<Vec<u8>> = vec![
        b"http://h/v.mkv".to_vec(),
        b"--sub-file=http://h/s.ass".to_vec(),
        b"--user-agent=ua/1".to_vec(),
        b"--volume=85".to_vec(),
        b"--input-ipc-server=/tmp/mpvsocket".to_vec(),
        b"--msg-level=all=error".to_vec(),
        b"--force-window=immediate".to_vec(),
        b"--force-media-title=My Title".to_vec(),
        b"--start=12345".to_vec(),
        b"--http-proxy=http://p:1".to_vec(),
    ];
    assert_eq!(args, expected);
}

#[test]
fn argument_list_without_subtitle() {
    let args = build_player_args(b"http://h/v.mkv", b"", b"ua/1", b"", b"", 9_999_999);
    let expected: Vec<Vec<u8>> = vec![
        b"http://h/v.mkv".to_vec(),
        b"--user-agent=ua/1".to_vec(),
        b"--volume=85".to_vec(),
        b"--input-ipc-server=/tmp/mpvsocket".to_vec(),
        b"--msg-level=all=error".to_vec(),
        b"--force-window=immediate".to_vec(),
        b"--force-media-title=".to_vec(),
        b"--start=0".to_vec(),
        b"--http-proxy=".to_vec(),
    ];
    assert_eq!(args, expected);
}

#[test]
fn ipc_command_is_the_fixed_query() {
    assert_eq!(
        ipc_command(),
        b"{ \"command\": [\"get_property\", \"time-pos\"] }\n".to_vec()
    );
}

#[test]
fn registry_argument_lists() {
    assert_eq!(
        del_reg(),
        vec![b"delete".to_vec(), b"HKCR\\mpv".to_vec(), b"/f".to_vec()]
    );
    let cmds = add_reg(b"C:\\tools\\mpv-handler.exe");
    assert_eq!(cmds.len(), 3);
    assert_eq!(
        cmds[0],
        vec![
            b"add".to_vec(),
            b"HKCR\\mpv".to_vec(),
            b"/d".to_vec(),
            b"URL:mpv".to_vec(),
            b"/f".to_vec()
        ]
    );
    assert_eq!(
        cmds[1],
        vec![
            b"add".to_vec(),
            b"HKCR\\mpv".to_vec(),
            b"/v".to_vec(),
            b"URL Protocol".to_vec(),
            b"/f".to_vec()
        ]
    );
    assert_eq!(
        cmds[2],
        vec![
            b"add".to_vec(),
            b"HKCR\\mpv\\shell\\open\\command".to_vec(),
            b"/d".to_vec(),
            b"\"C:\\tools\\mpv-handler.exe\" \"%1\"".to_vec(),
            b"/f".to_vec()
        ]
    );
}
