//! Opaque handles for resources owned by external collaborators.
//!
//! The renderer that embeds this crate owns the actual GPU objects, assets and
//! scene entities; the library only routes their identities.

use vstd::prelude::*;

verus! {

/// A scene entity carrying a drawable.
#[derive(PartialEq, Eq, Structural, Clone, Copy, Debug, Hash)]
pub struct EntityId(pub u64);

/// A shader module resolved by the external asset loader.
#[derive(PartialEq, Eq, Structural, Clone, Copy, Debug, Hash)]
pub struct ShaderHandle(pub u64);

/// A bind-group layout created by the external device.
#[derive(PartialEq, Eq, Structural, Clone, Copy, Debug, Hash)]
pub struct LayoutHandle(pub u64);

/// A compiled (possibly still compiling) pipeline object.
#[derive(PartialEq, Eq, Structural, Clone, Copy, Debug, Hash)]
pub struct PipelineId(pub u64);

/// A registered draw function.
#[derive(PartialEq, Eq, Structural, Clone, Copy, Debug, Hash)]
pub struct DrawFunctionId(pub u64);

/// An attachment texture handed out by the external texture cache.
#[derive(PartialEq, Eq, Structural, Clone, Copy, Debug, Hash)]
pub struct TextureHandle(pub u64);

/// The identity of a render target (the surface a view renders into).
#[derive(PartialEq, Eq, Structural, Clone, Copy, Debug, Hash)]
pub struct TargetId(pub u64);

/// A buffer binding for the view uniform.
#[derive(PartialEq, Eq, Structural, Clone, Copy, Debug, Hash)]
pub struct BindingId(pub u64);

/// A material asset reference.
#[derive(PartialEq, Eq, Structural, Clone, Copy, Debug, Hash)]
pub struct MaterialHandle(pub u64);

/// A mesh asset reference.
#[derive(PartialEq, Eq, Structural, Clone, Copy, Debug, Hash)]
pub struct MeshHandle(pub u64);

} // verus!
