//! Pipeline configurations derived by the specializer.

use vstd::prelude::*;
use crate::ids::{LayoutHandle, ShaderHandle};
use crate::key::PrimitiveTopology;
use crate::vertex::{AttributeRequest, VertexBufferLayout};

verus! {

/// A shader define enabled for a variant.
#[derive(PartialEq, Eq, Structural, Clone, Copy, Debug)]
pub enum ShaderDef {
    PrepassDepth,
    AlphaMask,
    PrepassNormals,
    VertexPositions,
    VertexUvs,
    VertexTangents,
    Skinned,
}

/// Texture formats this pass reads or writes.
#[derive(PartialEq, Eq, Structural, Clone, Copy, Debug)]
pub enum TextureFormat {
    /// 32-bit float depth, the fixed depth attachment format.
    Depth32Float,
    /// 10-10-10-2 unsigned normalized, the normal output format.
    Rgb10a2Unorm,
}

/// How a color target blends fragment output.
#[derive(PartialEq, Eq, Structural, Clone, Copy, Debug)]
pub enum BlendMode {
    /// Opaque: fragment output replaces the target.
    Replace,
}

/// One color attachment of the fragment stage.
#[derive(PartialEq, Eq, Structural, Clone, Copy, Debug)]
pub struct ColorTarget {
    pub format: TextureFormat,
    pub blend: BlendMode,
}

/// Comparison used by the depth test.
#[derive(PartialEq, Eq, Structural, Clone, Copy, Debug)]
pub enum CompareFunction {
    GreaterEqual,
}

/// Winding that counts as front-facing.
#[derive(PartialEq, Eq, Structural, Clone, Copy, Debug)]
pub enum FrontFace {
    Ccw,
}

/// How primitives are rasterized.
#[derive(PartialEq, Eq, Structural, Clone, Copy, Debug)]
pub enum PolygonMode {
    Fill,
}

/// The fixed depth-stencil state of the pass: always-on depth writes with a
/// reversed-depth compare, no stencil, no depth bias.
#[derive(PartialEq, Eq, Structural, Clone, Copy, Debug)]
pub struct DepthStencilConfig {
    pub format: TextureFormat,
    pub depth_write_enabled: bool,
    pub depth_compare: CompareFunction,
    pub stencil_read_mask: u32,
    pub stencil_write_mask: u32,
    pub bias_constant: i32,
}

/// The depth-stencil state every prepass configuration carries.
pub open spec fn spec_fixed_depth_stencil() -> DepthStencilConfig {
    DepthStencilConfig {
        format: TextureFormat::Depth32Float,
        depth_write_enabled: true,
        depth_compare: CompareFunction::GreaterEqual,
        stencil_read_mask: 0,
        stencil_write_mask: 0,
        bias_constant: 0,
    }
}

/// Builds the fixed depth-stencil state.
pub fn fixed_depth_stencil() -> (r: DepthStencilConfig)
    ensures
        r == spec_fixed_depth_stencil(),
{
    DepthStencilConfig {
        format: TextureFormat::Depth32Float,
        depth_write_enabled: true,
        depth_compare: CompareFunction::GreaterEqual,
        stencil_read_mask: 0,
        stencil_write_mask: 0,
        bias_constant: 0,
    }
}

/// Multisample state of a variant.
#[derive(PartialEq, Eq, Structural, Clone, Copy, Debug)]
pub struct MultisampleConfig {
    pub count: u32,
    pub alpha_to_coverage: bool,
}

/// Primitive assembly state of a variant.
#[derive(PartialEq, Eq, Structural, Clone, Copy, Debug)]
pub struct PrimitiveConfig {
    pub topology: PrimitiveTopology,
    pub front_face: FrontFace,
    pub culling: bool,
    pub polygon_mode: PolygonMode,
    pub unclipped_depth: bool,
    pub conservative: bool,
}

/// The vertex stage of a configuration.
#[derive(PartialEq, Eq, Clone, Debug)]
pub struct VertexStage {
    pub shader: ShaderHandle,
    pub defs: Vec<ShaderDef>,
    pub buffer: VertexBufferLayout,
}

/// The fragment stage of a configuration, present only when the pass writes
/// more than depth.
#[derive(PartialEq, Eq, Clone, Debug)]
pub struct FragmentStage {
    pub shader: ShaderHandle,
    pub defs: Vec<ShaderDef>,
    pub targets: Vec<ColorTarget>,
}

/// A complete derived pipeline configuration.
#[derive(PartialEq, Eq, Clone, Debug)]
pub struct PipelineConfig {
    pub vertex: VertexStage,
    pub fragment: Option<FragmentStage>,
    /// Bind-group layouts in slot order: view at 0, material at 1, mesh (or
    /// skinned mesh) at 2. The order is fixed; shaders hard-code it.
    pub layouts: Vec<LayoutHandle>,
    pub depth_stencil: DepthStencilConfig,
    pub multisample: MultisampleConfig,
    pub primitive: PrimitiveConfig,
}

/// Mathematical model of a vertex stage.
pub ghost struct VertexStageModel {
    pub shader: ShaderHandle,
    pub defs: Seq<ShaderDef>,
    pub attributes: Seq<AttributeRequest>,
}

/// Mathematical model of a fragment stage.
pub ghost struct FragmentStageModel {
    pub shader: ShaderHandle,
    pub defs: Seq<ShaderDef>,
    pub targets: Seq<ColorTarget>,
}

/// Mathematical model of a pipeline configuration; contracts speak of this.
pub ghost struct ConfigModel {
    pub vertex: VertexStageModel,
    pub fragment: Option<FragmentStageModel>,
    pub layouts: Seq<LayoutHandle>,
    pub depth_stencil: DepthStencilConfig,
    pub multisample: MultisampleConfig,
    pub primitive: PrimitiveConfig,
}

impl View for VertexStage {
    type V = VertexStageModel;

    open spec fn view(&self) -> VertexStageModel {
        VertexStageModel {
            shader: self.shader,
            defs: self.defs@,
            attributes: self.buffer.attributes@,
        }
    }
}

impl View for FragmentStage {
    type V = FragmentStageModel;

    open spec fn view(&self) -> FragmentStageModel {
        FragmentStageModel { shader: self.shader, defs: self.defs@, targets: self.targets@ }
    }
}

impl View for PipelineConfig {
    type V = ConfigModel;

    open spec fn view(&self) -> ConfigModel {
        ConfigModel {
            vertex: self.vertex@,
            fragment: match self.fragment {
                Some(f) => Some(f@),
                None => None,
            },
            layouts: self.layouts@,
            depth_stencil: self.depth_stencil,
            multisample: self.multisample,
            primitive: self.primitive,
        }
    }
}

} // verus!
