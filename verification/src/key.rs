//! Feature keys identifying a requested pipeline variant.

use vstd::prelude::*;

verus! {

/// How a mesh's vertices are assembled into primitives.
#[derive(PartialEq, Eq, Structural, Clone, Copy, Debug, Hash)]
pub enum PrimitiveTopology {
    PointList,
    LineList,
    LineStrip,
    TriangleList,
    TriangleStrip,
}

/// The feature combination a pipeline variant is specialized for.
///
/// Two equal keys always yield identical configurations; two keys that differ
/// in any field yield observably different configurations (see
/// `specialize::lemma_specialize_injective`).
#[derive(PartialEq, Eq, Structural, Clone, Copy, Debug, Hash)]
pub struct PrepassKey {
    /// Depth output is requested. The prepass always sets this.
    pub depth: bool,
    /// View-space normal output is requested by the view.
    pub normals: bool,
    /// The material discards fragments below an alpha cutoff.
    pub alpha_mask: bool,
    /// Multisample count of the view (1, 2, 4 or 8).
    pub msaa_samples: u32,
    /// Primitive topology of the mesh.
    pub topology: PrimitiveTopology,
}

impl PrepassKey {
    /// The per-view base key: depth always requested, normals per the view's
    /// settings, sample count from the view, topology filled in per mesh.
    pub fn view_key(output_normals: bool, msaa_samples: u32) -> (r: Self)
        ensures
            r == (PrepassKey {
                depth: true,
                normals: output_normals,
                alpha_mask: false,
                msaa_samples,
                topology: PrimitiveTopology::TriangleList,
            }),
    {
        PrepassKey {
            depth: true,
            normals: output_normals,
            alpha_mask: false,
            msaa_samples,
            topology: PrimitiveTopology::TriangleList,
        }
    }

    /// The key for one drawable: the view key with the mesh's topology.
    pub fn with_topology(self, topology: PrimitiveTopology) -> (r: Self)
        ensures
            r == (PrepassKey { topology, ..self }),
    {
        PrepassKey { topology, ..self }
    }

    /// The key with the alpha-mask flag set.
    pub fn with_alpha_mask(self) -> (r: Self)
        ensures
            r == (PrepassKey { alpha_mask: true, ..self }),
    {
        PrepassKey { alpha_mask: true, ..self }
    }
}

/// What a cached pipeline entry is keyed by: the feature key, the material's
/// opaque sub-key and the identity of the mesh's vertex layout. Distinct
/// material types get distinct cache instances, so sub-keys never collide
/// across materials.
#[derive(PartialEq, Eq, Structural, Clone, Copy, Debug, Hash)]
pub struct CacheKey {
    pub mesh_key: PrepassKey,
    pub material_subkey: u64,
    pub layout_id: u64,
}

} // verus!
