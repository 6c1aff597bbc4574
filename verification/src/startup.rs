//! What the program is to do, from its arguments and environment.
use crate::display::CaptureMode;
use crate::display_mode::{restore_flag, switch_flag};
use crate::text::{chars_of, text_is};
use vstd::prelude::*;

verus! {

/// The program was started as the helper that switches display modes.
pub fn is_helper(args: &Vec<String>) -> (r: bool)
    ensures
        r == (args@.len() >= 5 && (args@[1]@ == switch_flag() || args@[1]@ == restore_flag())),
{
    if args.len() < 5 {
        return false;
    }
    let flag: Vec<char> = chars_of(args[1].as_str());
    text_is(&flag, "--display-mode-switch") || text_is(&flag, "--display-mode-restore")
}

/// The address to listen on, from the value of `OSXRDP_ADDR` if it is set.
pub fn listen_address(value: Option<&str>) -> (addr: String)
    ensures
        addr@ == match value {
            Some(s) => s@,
            None => "0.0.0.0:3389"@,
        },
{
    match value {
        Some(s) => s.to_string(),
        None => "0.0.0.0:3389".to_string(),
    }
}

/// The capture mode, from the value of `OSXRDP_H264` if it is set. H.264 is
/// enabled by default, and by `1`; any other value disables it.
pub fn capture_mode_from_env(value: Option<&str>) -> (mode: CaptureMode)
    ensures
        mode == match value {
            None => CaptureMode::H264,
            Some(s) => if s@ == "1"@ {
                CaptureMode::H264
            } else {
                CaptureMode::Bgra
            },
        },
{
    match value {
        None => CaptureMode::H264,
        Some(s) => if text_is(&chars_of(s), "1") {
            CaptureMode::H264
        } else {
            CaptureMode::Bgra
        },
    }
}

} // verus!
