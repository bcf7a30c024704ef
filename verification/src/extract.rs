//! Extraction of prepass-enabled views from the scene's cameras.

use vstd::prelude::*;
use crate::ids::{EntityId, TargetId};
use crate::textures::{PrepassSettings, SurfaceSize};

verus! {

/// What extraction reads of one camera of the scene.
#[derive(PartialEq, Eq, Structural, Clone, Copy, Debug)]
pub struct CameraInfo {
    pub entity: EntityId,
    /// Inactive cameras take no part in the frame.
    pub is_active: bool,
    /// The camera's prepass settings.
    pub settings: PrepassSettings,
    /// The render target the camera draws into.
    pub target: TargetId,
    /// The camera's resolved physical target size, if any.
    pub physical_size: Option<SurfaceSize>,
}

/// An active camera becomes one prepass view for the frame.
pub open spec fn spec_camera_active(c: CameraInfo) -> bool {
    c.is_active
}

/// Keeps the active cameras, in order: those are the frame's prepass views,
/// each of which will carry the two (initially empty) draw phases.
pub fn extract_core_3d_camera_prepass_phase(cameras: &Vec<CameraInfo>) -> (out: Vec<CameraInfo>)
    ensures
        out@ == cameras@.filter(|c: CameraInfo| spec_camera_active(c)),
        forall|k: int| 0 <= k < out@.len() ==> (#[trigger] out@[k]).is_active,
{
    let mut out: Vec<CameraInfo> = Vec::new();
    let mut i: usize = 0;
    proof {
        reveal_with_fuel(Seq::filter, 2);
        assert(cameras@.take(0) =~= Seq::<CameraInfo>::empty());
        assert(out@ =~= cameras@.take(0).filter(|c: CameraInfo| spec_camera_active(c)));
    }
    while i < cameras.len()
        invariant
            i <= cameras@.len(),
            out@ == cameras@.take(i as int).filter(|c: CameraInfo| spec_camera_active(c)),
            forall|k: int| 0 <= k < out@.len() ==> (#[trigger] out@[k]).is_active,
        decreases cameras@.len() - i,
    {
        let c = cameras[i];
        proof {
            reveal_with_fuel(Seq::filter, 2);
            assert(cameras@.take(i + 1).drop_last() =~= cameras@.take(i as int));
            assert(cameras@.take(i + 1).last() == cameras@[i as int]);
        }
        if c.is_active {
            out.push(c);
        }
        i += 1;
    }
    proof {
        assert(cameras@.take(cameras@.len() as int) =~= cameras@);
    }
    out
}

} // verus!
