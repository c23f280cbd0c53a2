//! The volume operation requested by the caller, and the argument record the
//! command-line front end fills in.
//!
//! Percentages are in milli-percent (thousandths of a percent), the unit used
//! throughout [`crate::volume`].

use vstd::prelude::*;

verus! {

/// One mutation request against a matched sink input.
#[derive(Clone, Copy, PartialEq, Eq, Structural, Debug)]
pub enum VolumeOp {
    /// Invert the stream's mute flag.
    ToggleMute,
    /// Add the given amount (milli-percent, possibly negative) to every
    /// channel's volume.
    ChangeVolume(i64),
    /// Set every channel's volume to the given amount (milli-percent).
    SetVolume(i64),
}

/// Everything the caller decides: what to do, to which process, whether to
/// fall back to the process's descendants, and whether to narrate progress.
#[derive(Clone, Copy, Debug)]
pub struct Arguments {
    pub debug: bool,
    pub operation: VolumeOp,
    pub pid: Option<u32>,
    pub traverse_children: bool,
}

/// The operation selected by the command-line flags: mute wins over a
/// relative change, which wins over an absolute set; with no flag at all the
/// result is a relative change of zero.
pub open spec fn spec_select_operation(
    mute: bool,
    volume: Option<i64>,
    set_volume: Option<i64>,
) -> VolumeOp {
    if mute {
        VolumeOp::ToggleMute
    } else if volume is Some {
        VolumeOp::ChangeVolume(volume->0)
    } else if set_volume is Some {
        VolumeOp::SetVolume(set_volume->0)
    } else {
        VolumeOp::ChangeVolume(0)
    }
}

/// Picks the operation from the parsed command-line values.
pub fn select_operation(mute: bool, volume: Option<i64>, set_volume: Option<i64>) -> (op: VolumeOp)
    ensures
        op == spec_select_operation(mute, volume, set_volume),
{
    if mute {
        VolumeOp::ToggleMute
    } else if let Some(delta) = volume {
        VolumeOp::ChangeVolume(delta)
    } else if let Some(percent) = set_volume {
        VolumeOp::SetVolume(percent)
    } else {
        VolumeOp::ChangeVolume(0)
    }
}

} // verus!
