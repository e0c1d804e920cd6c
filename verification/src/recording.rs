//! Recording launch: the exact recorder command lines for full-screen and
//! region capture, and the rule that region capture aborts — the recorder is
//! never started — when the region-selection helper exits non-zero.

use vstd::prelude::*;
use vstd::string::StringSliceAdditionalSpecFns;

use crate::errors::RecorderError;
use crate::text::{bytes_of_str, seq_views, trim_ascii_ws, trim_spec};

verus! {

/// The full-screen recorder command line: fixed muxer, raw-video codec and
/// pixel format around the discovered device argument.
pub open spec fn fullscreen_command_spec(device_argument: Seq<u8>) -> Seq<Seq<u8>> {
    seq![
        "wf-recorder".spec_bytes(),
        "--muxer=v4l2".spec_bytes(),
        "--codec=rawvideo".spec_bytes(),
        device_argument,
        "-x".spec_bytes(),
        "yuv420p".spec_bytes(),
    ]
}

/// The region recorder command line: the selected geometry ahead of the same
/// muxer, codec, device and pixel-format arguments.
pub open spec fn region_command_spec(geometry: Seq<u8>, device_argument: Seq<u8>) -> Seq<Seq<u8>> {
    seq![
        "wf-recorder".spec_bytes(),
        "-g".spec_bytes(),
        geometry,
        "--muxer=v4l2".spec_bytes(),
        "--codec=rawvideo".spec_bytes(),
        device_argument,
        "-x".spec_bytes(),
        "yuv420p".spec_bytes(),
    ]
}

/// The command line that runs the interactive region-selection helper.
pub open spec fn selector_command_spec() -> Seq<Seq<u8>> {
    seq!["slurp".spec_bytes()]
}

/// Builds the full-screen recorder command line.
pub fn plan_full_screen(device_argument: &[u8]) -> (r: Vec<Vec<u8>>)
    ensures
        seq_views(r@) == fullscreen_command_spec(device_argument@),
{
    let mut r: Vec<Vec<u8>> = Vec::new();
    r.push(bytes_of_str("wf-recorder"));
    r.push(bytes_of_str("--muxer=v4l2"));
    r.push(bytes_of_str("--codec=rawvideo"));
    r.push(vstd::slice::slice_to_vec(device_argument));
    r.push(bytes_of_str("-x"));
    r.push(bytes_of_str("yuv420p"));
    proof {
        assert(seq_views(r@) =~= fullscreen_command_spec(device_argument@));
    }
    r
}

/// Builds the region-selection command line.
pub fn selector_command() -> (r: Vec<Vec<u8>>)
    ensures
        seq_views(r@) == selector_command_spec(),
{
    let mut r: Vec<Vec<u8>> = Vec::new();
    r.push(bytes_of_str("slurp"));
    proof {
        assert(seq_views(r@) =~= selector_command_spec());
    }
    r
}

/// Decides region capture from the selection helper's result. When the helper
/// exited non-zero the plan is the error — never a recorder command line; when
/// it succeeded, the recorder runs with the helper's output trimmed of
/// whitespace as the geometry.
pub fn plan_region(
    selector_success: bool,
    selector_exit_code: Option<i32>,
    raw_geometry: &[u8],
    device_argument: &[u8],
) -> (r: Result<Vec<Vec<u8>>, RecorderError>)
    ensures
        r is Ok <==> selector_success,
        !selector_success ==> r == Result::<Vec<Vec<u8>>, RecorderError>::Err(
            RecorderError::RegionSelectionFailed { exit_code: selector_exit_code },
        ),
        r matches Ok(cmd) ==> seq_views(cmd@) == region_command_spec(
            trim_spec(raw_geometry@),
            device_argument@,
        ),
{
    if !selector_success {
        return Err(RecorderError::RegionSelectionFailed { exit_code: selector_exit_code });
    }
    let mut r: Vec<Vec<u8>> = Vec::new();
    r.push(bytes_of_str("wf-recorder"));
    r.push(bytes_of_str("-g"));
    r.push(trim_ascii_ws(raw_geometry));
    r.push(bytes_of_str("--muxer=v4l2"));
    r.push(bytes_of_str("--codec=rawvideo"));
    r.push(vstd::slice::slice_to_vec(device_argument));
    r.push(bytes_of_str("-x"));
    r.push(bytes_of_str("yuv420p"));
    proof {
        assert(seq_views(r@) =~= region_command_spec(trim_spec(raw_geometry@), device_argument@));
    }
    Ok(r)
}

} // verus!
