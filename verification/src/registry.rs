//! The registry material of the protocol handler: the argument lists the
//! installer and uninstaller hand to the system's registry tool. Running
//! the tool is the caller's business.
use vstd::prelude::*;

use crate::text;

verus! {

/// The protocol key (`mpv` under the class root).
pub open spec fn protocol_key() -> Seq<u8> {
    seq![72u8, 75u8, 67u8, 82u8, 92u8, 109u8, 112u8, 118u8]
}

/// The open-command key under the protocol key.
pub open spec fn command_key() -> Seq<u8> {
    seq![72u8, 75u8, 67u8, 82u8, 92u8, 109u8, 112u8, 118u8, 92u8, 115u8, 104u8, 101u8, 108u8, 108u8, 92u8, 111u8, 112u8, 101u8, 110u8, 92u8, 99u8, 111u8, 109u8, 109u8, 97u8, 110u8, 100u8]
}

/// The arguments that remove the protocol registration.
pub open spec fn del_reg_args() -> Seq<Seq<u8>> {
    seq![seq![100u8, 101u8, 108u8, 101u8, 116u8, 101u8], protocol_key(), seq![47u8, 102u8]]
}

/// The handler invocation stored under the command key: the handler's path
/// quoted, then the quoted placeholder for the clicked URL.
pub open spec fn handler_command(handler_path: Seq<u8>) -> Seq<u8> {
    seq![34u8] + handler_path + seq![34u8, 32u8, 34u8, 37u8, 49u8, 34u8]
}

/// The three argument lists that install the protocol registration: the
/// protocol key with its display name, the protocol marker value, and the
/// handler command.
pub open spec fn add_reg_args(handler_path: Seq<u8>) -> Seq<Seq<Seq<u8>>> {
    seq![
        seq![seq![97u8, 100u8, 100u8], protocol_key(), seq![47u8, 100u8], seq![85u8, 82u8, 76u8, 58u8, 109u8, 112u8, 118u8], seq![47u8, 102u8]],
        seq![seq![97u8, 100u8, 100u8], protocol_key(), seq![47u8, 118u8], seq![85u8, 82u8, 76u8, 32u8, 80u8, 114u8, 111u8, 116u8, 111u8, 99u8, 111u8, 108u8], seq![47u8, 102u8]],
        seq![seq![97u8, 100u8, 100u8], command_key(), seq![47u8, 100u8], handler_command(handler_path), seq![47u8, 102u8]],
    ]
}

/// The registry-tool arguments that remove the protocol registration.
pub fn del_reg() -> (r: Vec<Vec<u8>>)
    ensures
        r.deep_view() == del_reg_args(),
{
    let w0: [u8; 6] = [100, 101, 108, 101, 116, 101];
    let w1: [u8; 8] = [72, 75, 67, 82, 92, 109, 112, 118];
    let w2: [u8; 2] = [47, 102];
    let mut r: Vec<Vec<u8>> = Vec::new();
    r.push(vstd::slice::slice_to_vec(w0.as_slice()));
    r.push(vstd::slice::slice_to_vec(w1.as_slice()));
    r.push(vstd::slice::slice_to_vec(w2.as_slice()));
    proof {
        assert(r.deep_view() =~~= del_reg_args());
    }
    r
}

/// The registry-tool argument lists that install the protocol registration
/// for the handler at `handler_path`.
pub fn add_reg(handler_path: &[u8]) -> (r: Vec<Vec<Vec<u8>>>)
    ensures
        r.deep_view() == add_reg_args(handler_path@),
{
    let add_w: [u8; 3] = [97, 100, 100];
    let key_w: [u8; 8] = [72, 75, 67, 82, 92, 109, 112, 118];
    let cmdkey_w: [u8; 27] = [72, 75, 67, 82, 92, 109, 112, 118, 92, 115, 104, 101, 108, 108, 92, 111, 112, 101, 110, 92, 99, 111, 109, 109, 97, 110, 100];
    let dflag_w: [u8; 2] = [47, 100];
    let vflag_w: [u8; 2] = [47, 118];
    let fflag_w: [u8; 2] = [47, 102];
    let urlname_w: [u8; 7] = [85, 82, 76, 58, 109, 112, 118];
    let urlproto_w: [u8; 12] = [85, 82, 76, 32, 80, 114, 111, 116, 111, 99, 111, 108];
    let quote_w: [u8; 1] = [34];
    let tail_w: [u8; 6] = [34, 32, 34, 37, 49, 34];
    let mut c0: Vec<Vec<u8>> = Vec::new();
    c0.push(vstd::slice::slice_to_vec(add_w.as_slice()));
    c0.push(vstd::slice::slice_to_vec(key_w.as_slice()));
    c0.push(vstd::slice::slice_to_vec(dflag_w.as_slice()));
    c0.push(vstd::slice::slice_to_vec(urlname_w.as_slice()));
    c0.push(vstd::slice::slice_to_vec(fflag_w.as_slice()));
    let mut c1: Vec<Vec<u8>> = Vec::new();
    c1.push(vstd::slice::slice_to_vec(add_w.as_slice()));
    c1.push(vstd::slice::slice_to_vec(key_w.as_slice()));
    c1.push(vstd::slice::slice_to_vec(vflag_w.as_slice()));
    c1.push(vstd::slice::slice_to_vec(urlproto_w.as_slice()));
    c1.push(vstd::slice::slice_to_vec(fflag_w.as_slice()));
    let mut cmd = text::concat_bytes(quote_w.as_slice(), handler_path);
    let mut tail = vstd::slice::slice_to_vec(tail_w.as_slice());
    cmd.append(&mut tail);
    proof {
        assert(cmd@ =~= handler_command(handler_path@));
    }
    let mut c2: Vec<Vec<u8>> = Vec::new();
    c2.push(vstd::slice::slice_to_vec(add_w.as_slice()));
    c2.push(vstd::slice::slice_to_vec(cmdkey_w.as_slice()));
    c2.push(vstd::slice::slice_to_vec(dflag_w.as_slice()));
    c2.push(cmd);
    c2.push(vstd::slice::slice_to_vec(fflag_w.as_slice()));
    let mut r: Vec<Vec<Vec<u8>>> = Vec::new();
    r.push(c0);
    r.push(c1);
    r.push(c2);
    proof {
        assert(r.deep_view() =~~= add_reg_args(handler_path@));
    }
    r
}

} // verus!
