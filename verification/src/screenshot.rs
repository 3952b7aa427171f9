//! Screenshot capture planning: the three bridge-tool invocations that take
//! a screenshot on the device, pull it to the host, and remove the remote
//! copy.
//!
//! Each argument vector starts with the device selector pair exactly when a
//! device identifier is given.  The capture always goes through the same
//! fixed remote path.

use vstd::prelude::*;

use crate::config::arg_views;
use crate::text::with_detail;

verus! {

/// The fixed path the screenshot is captured to on the device.
pub open spec fn remote_capture_path() -> Seq<char> {
    "/sdcard/screenshot.png"@
}

/// The device selector pair, present exactly when a device is named.
pub open spec fn select_args(device_id: Seq<char>) -> Seq<Seq<char>> {
    if device_id.len() > 0 {
        seq!["-s"@, device_id]
    } else {
        Seq::empty()
    }
}

/// The capture invocation: a shell screencap to the remote path.
pub open spec fn screencap_args_spec(device_id: Seq<char>) -> Seq<Seq<char>> {
    select_args(device_id) + seq!["shell"@, "screencap"@, "-p"@, remote_capture_path()]
}

/// The pull invocation: the remote file brought to `save_path` on the
/// host.
pub open spec fn pull_args_spec(device_id: Seq<char>, save_path: Seq<char>) -> Seq<Seq<char>> {
    select_args(device_id) + seq!["pull"@, remote_capture_path(), save_path]
}

/// The cleanup invocation: the remote file removed, best-effort.
pub open spec fn rm_args_spec(device_id: Seq<char>) -> Seq<Seq<char>> {
    select_args(device_id) + seq!["shell"@, "rm"@, remote_capture_path()]
}

fn push_select(r: &mut Vec<String>, device_id: &str)
    ensures
        arg_views(final(r)@) == arg_views(old(r)@) + select_args(device_id@),
{
    let ghost m = arg_views(r@);
    if !device_id.is_empty() {
        r.push(String::from_str("-s"));
        r.push(String::from_str(device_id));
    }
    proof {
        assert(arg_views(r@) =~= m + select_args(device_id@));
    }
}

/// The argument vector that captures a screenshot on the device.
pub fn screencap_args(device_id: &str) -> (r: Vec<String>)
    ensures
        arg_views(r@) == screencap_args_spec(device_id@),
{
    let mut r: Vec<String> = Vec::new();
    proof {
        assert(arg_views(r@) =~= Seq::<Seq<char>>::empty());
        assert(Seq::<Seq<char>>::empty() + select_args(device_id@) =~= select_args(device_id@));
    }
    push_select(&mut r, device_id);
    r.push(String::from_str("shell"));
    r.push(String::from_str("screencap"));
    r.push(String::from_str("-p"));
    r.push(String::from_str("/sdcard/screenshot.png"));
    proof {
        assert(arg_views(r@) =~= screencap_args_spec(device_id@));
    }
    r
}

/// The argument vector that pulls the captured file to the host.
pub fn pull_args(device_id: &str, save_path: &str) -> (r: Vec<String>)
    ensures
        arg_views(r@) == pull_args_spec(device_id@, save_path@),
{
    let mut r: Vec<String> = Vec::new();
    proof {
        assert(arg_views(r@) =~= Seq::<Seq<char>>::empty());
        assert(Seq::<Seq<char>>::empty() + select_args(device_id@) =~= select_args(device_id@));
    }
    push_select(&mut r, device_id);
    r.push(String::from_str("pull"));
    r.push(String::from_str("/sdcard/screenshot.png"));
    r.push(String::from_str(save_path));
    proof {
        assert(arg_views(r@) =~= pull_args_spec(device_id@, save_path@));
    }
    r
}

/// The argument vector that removes the remote file afterwards.
pub fn rm_args(device_id: &str) -> (r: Vec<String>)
    ensures
        arg_views(r@) == rm_args_spec(device_id@),
{
    let mut r: Vec<String> = Vec::new();
    proof {
        assert(arg_views(r@) =~= Seq::<Seq<char>>::empty());
        assert(Seq::<Seq<char>>::empty() + select_args(device_id@) =~= select_args(device_id@));
    }
    push_select(&mut r, device_id);
    r.push(String::from_str("shell"));
    r.push(String::from_str("rm"));
    r.push(String::from_str("/sdcard/screenshot.png"));
    proof {
        assert(arg_views(r@) =~= rm_args_spec(device_id@));
    }
    r
}

/// The failure text when the capture subprocess cannot be launched.
pub fn capture_error_message(detail: &str) -> (r: String)
    ensures
        r@ == "Ekran görüntüsü alınamadı: "@ + detail@,
{
    with_detail("Ekran görüntüsü alınamadı: ", detail)
}

/// The failure text when the pull subprocess cannot be launched.
pub fn pull_error_message(detail: &str) -> (r: String)
    ensures
        r@ == "Dosya aktarılamadı: "@ + detail@,
{
    with_detail("Dosya aktarılamadı: ", detail)
}

} // verus!
