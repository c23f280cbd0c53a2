//! Turns a requested operation and a matched sink input into the concrete
//! mutation to submit to the server.
//!
//! A mute toggle inverts the snapshot's mute flag; a volume change rewrites
//! the whole channel vector (the server takes no partial updates), each
//! channel through [`crate::volume`].

use vstd::prelude::*;

use crate::operations::VolumeOp;
use crate::sinkinput::{SinkInput, SinkInputView};
use crate::volume::{
    percent_to_volume, spec_percent_to_volume, spec_volume_with_delta, volume_with_delta,
};

verus! {

/// One request against the server: set a stream's mute flag, or replace its
/// whole per-channel volume vector.
#[derive(Debug, Clone, PartialEq, Eq)]
pub enum Mutation {
    SetMute { index: u32, mute: bool },
    SetVolumes { index: u32, volumes: Vec<u32> },
}

/// Mathematical image of a [`Mutation`].
#[verifier::ext_equal]
pub enum MutationView {
    SetMute { index: u32, mute: bool },
    SetVolumes { index: u32, volumes: Seq<u32> },
}

impl View for Mutation {
    type V = MutationView;

    open spec fn view(&self) -> MutationView {
        match self {
            Mutation::SetMute { index, mute } => MutationView::SetMute {
                index: *index,
                mute: *mute,
            },
            Mutation::SetVolumes { index, volumes } => MutationView::SetVolumes {
                index: *index,
                volumes: volumes@,
            },
        }
    }
}

/// Every channel moved by the same relative change.
pub open spec fn spec_volumes_with_delta(vs: Seq<u32>, d: int) -> Seq<u32> {
    vs.map_values(|v: u32| spec_volume_with_delta(d, v as int) as u32)
}

/// Every channel set to the same absolute percentage.
pub open spec fn spec_volumes_set_to(vs: Seq<u32>, p: int) -> Seq<u32> {
    vs.map_values(|v: u32| spec_percent_to_volume(p) as u32)
}

/// Applies a relative change of `delta_percent` milli-percent to every
/// channel of the vector.
pub fn volumes_with_delta(volumes: &Vec<u32>, delta_percent: i64) -> (r: Vec<u32>)
    ensures
        r@ == spec_volumes_with_delta(volumes@, delta_percent as int),
{
    let mut out: Vec<u32> = Vec::new();
    let mut i: usize = 0;
    while i < volumes.len()
        invariant
            i <= volumes@.len(),
            out@ =~= spec_volumes_with_delta(volumes@.take(i as int), delta_percent as int),
        decreases volumes@.len() - i,
    {
        let v = volumes[i];
        out.push(volume_with_delta(delta_percent, v));
        proof {
            assert(out@ =~= spec_volumes_with_delta(
                volumes@.take(i + 1),
                delta_percent as int,
            ));
        }
        i = i + 1;
    }
    proof {
        assert(volumes@.take(i as int) =~= volumes@);
    }
    out
}

/// Sets every channel of the vector to the volume for `percent`
/// milli-percent, whatever it held before.
pub fn volumes_set_to(volumes: &Vec<u32>, percent: i64) -> (r: Vec<u32>)
    ensures
        r@ == spec_volumes_set_to(volumes@, percent as int),
{
    let fill = percent_to_volume(percent);
    let mut out: Vec<u32> = Vec::new();
    let mut i: usize = 0;
    while i < volumes.len()
        invariant
            i <= volumes@.len(),
            fill == spec_percent_to_volume(percent as int),
            out@ =~= spec_volumes_set_to(volumes@.take(i as int), percent as int),
        decreases volumes@.len() - i,
    {
        out.push(fill);
        proof {
            assert(out@ =~= spec_volumes_set_to(volumes@.take(i + 1), percent as int));
        }
        i = i + 1;
    }
    proof {
        assert(volumes@.take(i as int) =~= volumes@);
    }
    out
}

/// The mutation submitted for one matched sink input: a mute toggle inverts
/// the snapshot's flag; volume operations rewrite the full channel vector.
pub open spec fn spec_plan_mutation(op: VolumeOp, m: SinkInputView) -> MutationView {
    match op {
        VolumeOp::ToggleMute => MutationView::SetMute { index: m.index, mute: !m.mute },
        VolumeOp::ChangeVolume(d) => MutationView::SetVolumes {
            index: m.index,
            volumes: spec_volumes_with_delta(m.volumes, d as int),
        },
        VolumeOp::SetVolume(p) => MutationView::SetVolumes {
            index: m.index,
            volumes: spec_volumes_set_to(m.volumes, p as int),
        },
    }
}

/// Computes the mutation for one matched sink input.
pub fn plan_mutation(op: &VolumeOp, info: &SinkInput) -> (r: Mutation)
    ensures
        r@ == spec_plan_mutation(*op, info@),
{
    match op {
        VolumeOp::ToggleMute => Mutation::SetMute { index: info.index, mute: !info.mute },
        VolumeOp::ChangeVolume(delta) => Mutation::SetVolumes {
            index: info.index,
            volumes: volumes_with_delta(&info.volumes, *delta),
        },
        VolumeOp::SetVolume(percent) => Mutation::SetVolumes {
            index: info.index,
            volumes: volumes_set_to(&info.volumes, *percent),
        },
    }
}

} // verus!
