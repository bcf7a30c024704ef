//! Deriving a pipeline configuration from a feature key and a vertex layout.

use vstd::prelude::*;
use crate::config::{
    ColorTarget, ConfigModel, BlendMode, FragmentStage, FragmentStageModel, FrontFace,
    MultisampleConfig, PipelineConfig, PolygonMode, PrimitiveConfig, ShaderDef, TextureFormat,
    VertexStage, VertexStageModel, fixed_depth_stencil, spec_fixed_depth_stencil,
};
use crate::error::ConfigError;
use crate::ids::{LayoutHandle, ShaderHandle};
use crate::key::{CacheKey, PrepassKey};
use crate::material::Material;
use crate::vertex::{
    AttributeRequest, VertexAttributeKind, VertexLayoutDescriptor, first_missing, resolve_layout,
    spec_resolve,
};

verus! {

/// A mesh is drawn skinned exactly when it carries both joint attributes.
pub open spec fn spec_skinned(attrs: Seq<VertexAttributeKind>) -> bool {
    attrs.contains(VertexAttributeKind::JointIndex) && attrs.contains(
        VertexAttributeKind::JointWeight,
    )
}

/// The attributes a variant asks to bind, in slot order: position at 0 and
/// uv0 at 1 when the mesh has them; normal at 2 whenever normals are
/// requested (even if the mesh lacks it, which then fails resolution), with
/// tangent at 3 when present; both joint attributes at 4 and 5 exactly when
/// the mesh has both.
pub open spec fn spec_requested(key: PrepassKey, attrs: Seq<VertexAttributeKind>) -> Seq<
    AttributeRequest,
> {
    (if attrs.contains(VertexAttributeKind::Position) {
        seq![AttributeRequest { kind: VertexAttributeKind::Position, location: 0 }]
    } else {
        Seq::<AttributeRequest>::empty()
    }) + (if attrs.contains(VertexAttributeKind::Uv0) {
        seq![AttributeRequest { kind: VertexAttributeKind::Uv0, location: 1 }]
    } else {
        Seq::<AttributeRequest>::empty()
    }) + (if key.normals {
        seq![AttributeRequest { kind: VertexAttributeKind::Normal, location: 2 }]
    } else {
        Seq::<AttributeRequest>::empty()
    }) + (if key.normals && attrs.contains(VertexAttributeKind::Tangent) {
        seq![AttributeRequest { kind: VertexAttributeKind::Tangent, location: 3 }]
    } else {
        Seq::<AttributeRequest>::empty()
    }) + (if spec_skinned(attrs) {
        seq![
            AttributeRequest { kind: VertexAttributeKind::JointIndex, location: 4 },
            AttributeRequest { kind: VertexAttributeKind::JointWeight, location: 5 },
        ]
    } else {
        Seq::<AttributeRequest>::empty()
    })
}

/// The shader defines of a variant, in the order the specializer emits them.
pub open spec fn spec_defines(key: PrepassKey, attrs: Seq<VertexAttributeKind>) -> Seq<ShaderDef> {
    (if key.depth {
        seq![ShaderDef::PrepassDepth]
    } else {
        Seq::<ShaderDef>::empty()
    }) + (if key.alpha_mask {
        seq![ShaderDef::AlphaMask]
    } else {
        Seq::<ShaderDef>::empty()
    }) + (if attrs.contains(VertexAttributeKind::Position) {
        seq![ShaderDef::VertexPositions]
    } else {
        Seq::<ShaderDef>::empty()
    }) + (if attrs.contains(VertexAttributeKind::Uv0) {
        seq![ShaderDef::VertexUvs]
    } else {
        Seq::<ShaderDef>::empty()
    }) + (if key.normals {
        seq![ShaderDef::PrepassNormals]
    } else {
        Seq::<ShaderDef>::empty()
    }) + (if key.normals && attrs.contains(VertexAttributeKind::Tangent) {
        seq![ShaderDef::VertexTangents]
    } else {
        Seq::<ShaderDef>::empty()
    }) + (if spec_skinned(attrs) {
        seq![ShaderDef::Skinned]
    } else {
        Seq::<ShaderDef>::empty()
    })
}

/// The color targets of a variant: one normal output in the 10-10-10-2
/// format with opaque blending when normals are requested, none otherwise.
pub open spec fn spec_color_targets(key: PrepassKey) -> Seq<ColorTarget> {
    if key.normals {
        seq![ColorTarget { format: TextureFormat::Rgb10a2Unorm, blend: BlendMode::Replace }]
    } else {
        Seq::<ColorTarget>::empty()
    }
}

/// How a material names one of its prepass shaders. A shader loaded from a
/// path resolves to a handle before it reaches this crate: loading is the
/// external asset loader's work.
#[derive(PartialEq, Eq, Structural, Clone, Copy, Debug)]
pub enum MaterialShaderRef {
    /// The material supplies no shader of its own; the built-in prepass
    /// shader is used.
    UseFallback,
    /// The material supplies this shader.
    Handle(ShaderHandle),
}

/// The specializer: derives a pipeline configuration for a feature key and a
/// mesh vertex layout, then lets the injected material capability adjust it.
pub struct PrepassPipeline<M: Material> {
    /// Bind-group layout of the view uniform, at slot 0.
    pub view_layout: LayoutHandle,
    /// Bind-group layout of a static mesh, at slot 2.
    pub mesh_layout: LayoutHandle,
    /// Bind-group layout of a skinned mesh, replacing slot 2 when skinned.
    pub skinned_mesh_layout: LayoutHandle,
    /// Bind-group layout of the material, at slot 1.
    pub material_layout: LayoutHandle,
    /// Vertex shader the material supplies, if any.
    pub material_vertex_shader: Option<ShaderHandle>,
    /// Fragment shader the material supplies, if any.
    pub material_fragment_shader: Option<ShaderHandle>,
    /// The built-in prepass shader, used where the material supplies none.
    pub fallback_shader: ShaderHandle,
    /// The injected material capability whose hook runs last.
    pub material: M,
}

impl<M: Material> PrepassPipeline<M> {
    /// Assembles the specializer from the layouts the device created and the
    /// material's shader choices: a material shader reference becomes the
    /// stage's shader, and where none is supplied the built-in prepass
    /// shader stands in.
    pub fn from_parts(
        view_layout: LayoutHandle,
        mesh_layout: LayoutHandle,
        skinned_mesh_layout: LayoutHandle,
        material_layout: LayoutHandle,
        material_vertex_shader: MaterialShaderRef,
        material_fragment_shader: MaterialShaderRef,
        fallback_shader: ShaderHandle,
        material: M,
    ) -> (r: Self)
        ensures
            r.view_layout == view_layout,
            r.mesh_layout == mesh_layout,
            r.skinned_mesh_layout == skinned_mesh_layout,
            r.material_layout == material_layout,
            r.material_vertex_shader == (match material_vertex_shader {
                MaterialShaderRef::UseFallback => None::<ShaderHandle>,
                MaterialShaderRef::Handle(h) => Some(h),
            }),
            r.material_fragment_shader == (match material_fragment_shader {
                MaterialShaderRef::UseFallback => None::<ShaderHandle>,
                MaterialShaderRef::Handle(h) => Some(h),
            }),
            r.fallback_shader == fallback_shader,
            r.material == material,
    {
        PrepassPipeline {
            view_layout,
            mesh_layout,
            skinned_mesh_layout,
            material_layout,
            material_vertex_shader: match material_vertex_shader {
                MaterialShaderRef::UseFallback => None,
                MaterialShaderRef::Handle(h) => Some(h),
            },
            material_fragment_shader: match material_fragment_shader {
                MaterialShaderRef::UseFallback => None,
                MaterialShaderRef::Handle(h) => Some(h),
            },
            fallback_shader,
            material,
        }
    }

    /// Bind-group layouts in slot order; the mesh slot depends on skinning.
    pub open spec fn spec_layouts(&self, attrs: Seq<VertexAttributeKind>) -> Seq<LayoutHandle> {
        seq![
            self.view_layout,
            self.material_layout,
            if spec_skinned(attrs) {
                self.skinned_mesh_layout
            } else {
                self.mesh_layout
            },
        ]
    }

    /// The vertex shader of every variant of this specializer.
    pub open spec fn spec_vertex_shader(&self) -> ShaderHandle {
        match self.material_vertex_shader {
            Some(h) => h,
            None => self.fallback_shader,
        }
    }

    /// The fragment shader of variants that have a fragment stage.
    pub open spec fn spec_fragment_shader(&self) -> ShaderHandle {
        match self.material_fragment_shader {
            Some(h) => h,
            None => self.fallback_shader,
        }
    }

    /// The configuration the common specialization derives, before the
    /// material hook runs; an error names the first attribute the mesh lacks.
    pub open spec fn spec_base(&self, key: CacheKey, attrs: Seq<VertexAttributeKind>) -> Result<
        ConfigModel,
        ConfigError,
    > {
        match first_missing(attrs, spec_requested(key.mesh_key, attrs)) {
            Some(kind) => Err(ConfigError::MissingVertexAttribute(kind)),
            None => Ok(
                ConfigModel {
                    vertex: VertexStageModel {
                        shader: self.spec_vertex_shader(),
                        defs: spec_defines(key.mesh_key, attrs),
                        attributes: spec_requested(key.mesh_key, attrs),
                    },
                    fragment: if key.mesh_key.normals || key.mesh_key.alpha_mask {
                        Some(
                            FragmentStageModel {
                                shader: self.spec_fragment_shader(),
                                defs: spec_defines(key.mesh_key, attrs),
                                targets: spec_color_targets(key.mesh_key),
                            },
                        )
                    } else {
                        None
                    },
                    layouts: self.spec_layouts(attrs),
                    depth_stencil: spec_fixed_depth_stencil(),
                    multisample: MultisampleConfig {
                        count: key.mesh_key.msaa_samples,
                        alpha_to_coverage: false,
                    },
                    primitive: PrimitiveConfig {
                        topology: key.mesh_key.topology,
                        front_face: FrontFace::Ccw,
                        culling: false,
                        polygon_mode: PolygonMode::Fill,
                        unclipped_depth: false,
                        conservative: false,
                    },
                },
            ),
        }
    }

    /// What `specialize` returns: the base configuration passed through the
    /// material's hook, with either failure propagated.
    pub open spec fn spec_specialize(&self, key: CacheKey, attrs: Seq<VertexAttributeKind>) -> Result<
        ConfigModel,
        ConfigError,
    > {
        match self.spec_base(key, attrs) {
            Err(e) => Err(e),
            Ok(m) => self.material.hook_spec(m, key),
        }
    }

    /// Derives the pipeline configuration for one feature-key/layout pair.
    #[verifier::rlimit(100)]
    #[verifier::spinoff_prover]
    pub fn specialize(&self, key: &CacheKey, layout: &VertexLayoutDescriptor) -> (r: Result<
        PipelineConfig,
        ConfigError,
    >)
        ensures
            match r {
                Ok(c) => self.spec_specialize(*key, layout.attrs@) == Ok::<
                    ConfigModel,
                    ConfigError,
                >(c@),
                Err(e) => self.spec_specialize(*key, layout.attrs@) == Err::<
                    ConfigModel,
                    ConfigError,
                >(e),
            },
    {
        let mesh_key = key.mesh_key;
        let mut group_layouts: Vec<LayoutHandle> = Vec::new();
        group_layouts.push(self.view_layout);
        group_layouts.push(self.material_layout);

        let mut defs: Vec<ShaderDef> = Vec::new();
        let mut requested: Vec<AttributeRequest> = Vec::new();

        if mesh_key.depth {
            defs.push(ShaderDef::PrepassDepth);
        }
        if mesh_key.alpha_mask {
            defs.push(ShaderDef::AlphaMask);
        }
        if layout.contains(VertexAttributeKind::Position) {
            defs.push(ShaderDef::VertexPositions);
            requested.push(AttributeRequest { kind: VertexAttributeKind::Position, location: 0 });
        }
        if layout.contains(VertexAttributeKind::Uv0) {
            defs.push(ShaderDef::VertexUvs);
            requested.push(AttributeRequest { kind: VertexAttributeKind::Uv0, location: 1 });
        }
        if mesh_key.normals {
            requested.push(AttributeRequest { kind: VertexAttributeKind::Normal, location: 2 });
            defs.push(ShaderDef::PrepassNormals);
            if layout.contains(VertexAttributeKind::Tangent) {
                defs.push(ShaderDef::VertexTangents);
                requested.push(
                    AttributeRequest { kind: VertexAttributeKind::Tangent, location: 3 },
                );
            }
        }
        let skinned = layout.contains(VertexAttributeKind::JointIndex) && layout.contains(
            VertexAttributeKind::JointWeight,
        );
        if skinned {
            defs.push(ShaderDef::Skinned);
            requested.push(AttributeRequest { kind: VertexAttributeKind::JointIndex, location: 4 });
            requested.push(
                AttributeRequest { kind: VertexAttributeKind::JointWeight, location: 5 },
            );
            group_layouts.push(self.skinned_mesh_layout);
        } else {
            group_layouts.push(self.mesh_layout);
        }
        assert(requested@ =~= spec_requested(mesh_key, layout.attrs@));
        assert(defs@ =~= spec_defines(mesh_key, layout.attrs@));
        assert(group_layouts@ =~= self.spec_layouts(layout.attrs@));

        let buffer = match resolve_layout(layout, &requested) {
            Ok(b) => b,
            Err(e) => {
                return Err(e);
            },
        };

        let fragment = if mesh_key.normals || mesh_key.alpha_mask {
            let shader = match self.material_fragment_shader {
                Some(h) => h,
                None => self.fallback_shader,
            };
            let mut targets: Vec<ColorTarget> = Vec::new();
            if mesh_key.normals {
                targets.push(
                    ColorTarget { format: TextureFormat::Rgb10a2Unorm, blend: BlendMode::Replace },
                );
            }
            assert(targets@ =~= spec_color_targets(mesh_key));
            Some(FragmentStage { shader, defs: defs.clone(), targets })
        } else {
            None
        };

        let vertex_shader = match self.material_vertex_shader {
            Some(h) => h,
            None => self.fallback_shader,
        };

        let config = PipelineConfig {
            vertex: VertexStage { shader: vertex_shader, defs, buffer },
            fragment,
            layouts: group_layouts,
            depth_stencil: fixed_depth_stencil(),
            multisample: MultisampleConfig {
                count: mesh_key.msaa_samples,
                alpha_to_coverage: false,
            },
            primitive: PrimitiveConfig {
                topology: mesh_key.topology,
                front_face: FrontFace::Ccw,
                culling: false,
                polygon_mode: PolygonMode::Fill,
                unclipped_depth: false,
                conservative: false,
            },
        };
        assert(self.spec_base(*key, layout.attrs@) == Ok::<ConfigModel, ConfigError>(config@));

        self.material.specialize_hook(config, key)
    }
}

/// What a conditionally emitted single element contributes to membership.
proof fn lemma_opt_singleton_contains<A>(cond: bool, x: A, y: A)
    ensures
        (if cond {
            seq![x]
        } else {
            Seq::<A>::empty()
        }).contains(y) <==> (cond && x == y),
{
    let s = if cond {
        seq![x]
    } else {
        Seq::<A>::empty()
    };
    if cond {
        assert(s[0] == x);
    }
}

/// What a conditionally emitted pair contributes to membership.
proof fn lemma_opt_pair_contains<A>(cond: bool, x0: A, x1: A, y: A)
    ensures
        (if cond {
            seq![x0, x1]
        } else {
            Seq::<A>::empty()
        }).contains(y) <==> (cond && (x0 == y || x1 == y)),
{
    let s = if cond {
        seq![x0, x1]
    } else {
        Seq::<A>::empty()
    };
    if cond {
        assert(s[0] == x0);
        assert(s[1] == x1);
    }
}

/// Membership in the define list, segment by segment.
proof fn lemma_defines_decompose(key: PrepassKey, attrs: Seq<VertexAttributeKind>, d: ShaderDef)
    ensures
        spec_defines(key, attrs).contains(d) <==> {
            ||| (key.depth && d == ShaderDef::PrepassDepth)
            ||| (key.alpha_mask && d == ShaderDef::AlphaMask)
            ||| (attrs.contains(VertexAttributeKind::Position) && d == ShaderDef::VertexPositions)
            ||| (attrs.contains(VertexAttributeKind::Uv0) && d == ShaderDef::VertexUvs)
            ||| (key.normals && d == ShaderDef::PrepassNormals)
            ||| (key.normals && attrs.contains(VertexAttributeKind::Tangent) && d
                == ShaderDef::VertexTangents)
            ||| (spec_skinned(attrs) && d == ShaderDef::Skinned)
        },
{
    broadcast use vstd::seq_lib::lemma_seq_concat_contains_all_elements;

    lemma_opt_singleton_contains(key.depth, ShaderDef::PrepassDepth, d);
    lemma_opt_singleton_contains(key.alpha_mask, ShaderDef::AlphaMask, d);
    lemma_opt_singleton_contains(
        attrs.contains(VertexAttributeKind::Position),
        ShaderDef::VertexPositions,
        d,
    );
    lemma_opt_singleton_contains(
        attrs.contains(VertexAttributeKind::Uv0),
        ShaderDef::VertexUvs,
        d,
    );
    lemma_opt_singleton_contains(key.normals, ShaderDef::PrepassNormals, d);
    lemma_opt_singleton_contains(
        key.normals && attrs.contains(VertexAttributeKind::Tangent),
        ShaderDef::VertexTangents,
        d,
    );
    lemma_opt_singleton_contains(spec_skinned(attrs), ShaderDef::Skinned, d);
}

/// Membership in the requested attribute list, segment by segment.
proof fn lemma_requested_decompose(
    key: PrepassKey,
    attrs: Seq<VertexAttributeKind>,
    a: AttributeRequest,
)
    ensures
        spec_requested(key, attrs).contains(a) <==> {
            ||| (attrs.contains(VertexAttributeKind::Position) && a == (AttributeRequest {
                kind: VertexAttributeKind::Position,
                location: 0,
            }))
            ||| (attrs.contains(VertexAttributeKind::Uv0) && a == (AttributeRequest {
                kind: VertexAttributeKind::Uv0,
                location: 1,
            }))
            ||| (key.normals && a == (AttributeRequest {
                kind: VertexAttributeKind::Normal,
                location: 2,
            }))
            ||| (key.normals && attrs.contains(VertexAttributeKind::Tangent) && a
                == (AttributeRequest { kind: VertexAttributeKind::Tangent, location: 3 }))
            ||| (spec_skinned(attrs) && (a == (AttributeRequest {
                kind: VertexAttributeKind::JointIndex,
                location: 4,
            }) || a == (AttributeRequest { kind: VertexAttributeKind::JointWeight, location: 5 })))
        },
{
    broadcast use vstd::seq_lib::lemma_seq_concat_contains_all_elements;

    lemma_opt_singleton_contains(
        attrs.contains(VertexAttributeKind::Position),
        AttributeRequest { kind: VertexAttributeKind::Position, location: 0 },
        a,
    );
    lemma_opt_singleton_contains(
        attrs.contains(VertexAttributeKind::Uv0),
        AttributeRequest { kind: VertexAttributeKind::Uv0, location: 1 },
        a,
    );
    lemma_opt_singleton_contains(
        key.normals,
        AttributeRequest { kind: VertexAttributeKind::Normal, location: 2 },
        a,
    );
    lemma_opt_singleton_contains(
        key.normals && attrs.contains(VertexAttributeKind::Tangent),
        AttributeRequest { kind: VertexAttributeKind::Tangent, location: 3 },
        a,
    );
    lemma_opt_pair_contains(
        spec_skinned(attrs),
        AttributeRequest { kind: VertexAttributeKind::JointIndex, location: 4 },
        AttributeRequest { kind: VertexAttributeKind::JointWeight, location: 5 },
        a,
    );
}

/// Which defines a derived configuration carries, field by field of the key
/// and attribute by attribute of the mesh. In particular a masked variant
/// always carries the alpha-mask define and an unmasked one never does.
pub proof fn lemma_defines_membership(key: PrepassKey, attrs: Seq<VertexAttributeKind>)
    ensures
        spec_defines(key, attrs).contains(ShaderDef::PrepassDepth) <==> key.depth,
        spec_defines(key, attrs).contains(ShaderDef::AlphaMask) <==> key.alpha_mask,
        spec_defines(key, attrs).contains(ShaderDef::PrepassNormals) <==> key.normals,
        spec_defines(key, attrs).contains(ShaderDef::VertexPositions) <==> attrs.contains(
            VertexAttributeKind::Position,
        ),
        spec_defines(key, attrs).contains(ShaderDef::VertexUvs) <==> attrs.contains(
            VertexAttributeKind::Uv0,
        ),
        spec_defines(key, attrs).contains(ShaderDef::VertexTangents) <==> (key.normals
            && attrs.contains(VertexAttributeKind::Tangent)),
        spec_defines(key, attrs).contains(ShaderDef::Skinned) <==> spec_skinned(attrs),
{
    lemma_defines_decompose(key, attrs, ShaderDef::PrepassDepth);
    lemma_defines_decompose(key, attrs, ShaderDef::AlphaMask);
    lemma_defines_decompose(key, attrs, ShaderDef::PrepassNormals);
    lemma_defines_decompose(key, attrs, ShaderDef::VertexPositions);
    lemma_defines_decompose(key, attrs, ShaderDef::VertexUvs);
    lemma_defines_decompose(key, attrs, ShaderDef::VertexTangents);
    lemma_defines_decompose(key, attrs, ShaderDef::Skinned);
}

/// The common specialization succeeds for every key and layout except when
/// normals are requested of a mesh that has no normal attribute; in that
/// case, and only then, it reports that attribute as missing.
pub proof fn lemma_base_success<M: Material>(
    pipeline: PrepassPipeline<M>,
    key: CacheKey,
    attrs: Seq<VertexAttributeKind>,
)
    ensures
        pipeline.spec_base(key, attrs) is Ok <==> (!key.mesh_key.normals || attrs.contains(
            VertexAttributeKind::Normal,
        )),
        pipeline.spec_base(key, attrs) is Err ==> pipeline.spec_base(key, attrs) == Err::<
            ConfigModel,
            ConfigError,
        >(ConfigError::MissingVertexAttribute(VertexAttributeKind::Normal)),
{
    let req = spec_requested(key.mesh_key, attrs);
    crate::vertex::lemma_first_missing_none(attrs, req);
    let normal_req = AttributeRequest { kind: VertexAttributeKind::Normal, location: 2 };

    // Every requested attribute other than the normal is present by
    // construction; the normal is requested exactly when normals are on.
    assert forall|i: int| 0 <= i < req.len() && req[i] != normal_req implies attrs.contains(
        #[trigger] req[i].kind,
    ) by {
        assert(req.contains(req[i]));
        lemma_requested_decompose(key.mesh_key, attrs, req[i]);
    }
    if key.mesh_key.normals {
        lemma_requested_decompose(key.mesh_key, attrs, normal_req);
        assert(req.contains(normal_req));
        if first_missing(attrs, req) is None {
            let i = choose|i: int| 0 <= i < req.len() && req[i] == normal_req;
            assert(attrs.contains(req[i].kind));
        }
        if attrs.contains(VertexAttributeKind::Normal) {
            assert forall|i: int| 0 <= i < req.len() implies attrs.contains(
                #[trigger] req[i].kind,
            ) by {
                assert(req.contains(req[i]));
                lemma_requested_decompose(key.mesh_key, attrs, req[i]);
            }
        }
    } else {
        assert forall|i: int| 0 <= i < req.len() implies attrs.contains(#[trigger] req[i].kind) by {
            assert(req.contains(req[i]));
            lemma_requested_decompose(key.mesh_key, attrs, req[i]);
        }
    }
    if !(first_missing(attrs, req) is None) {
        lemma_first_missing_is_normal(attrs, req);
    }
}

/// When resolution fails, the missing attribute is one whose kind the mesh
/// lacks; under `spec_requested` that can only be the normal.
proof fn lemma_first_missing_is_normal(
    attrs: Seq<VertexAttributeKind>,
    req: Seq<AttributeRequest>,
)
    requires
        first_missing(attrs, req) is Some,
        forall|i: int|
            0 <= i < req.len() && req[i] != (AttributeRequest {
                kind: VertexAttributeKind::Normal,
                location: 2,
            }) ==> attrs.contains(#[trigger] req[i].kind),
    ensures
        first_missing(attrs, req) == Some(VertexAttributeKind::Normal),
    decreases req.len(),
{
    if req.len() > 0 {
        if !attrs.contains(req[0].kind) {
            assert(req[0] == (AttributeRequest { kind: VertexAttributeKind::Normal, location: 2 }));
        } else {
            assert forall|i: int|
                0 <= i < req.drop_first().len() && req.drop_first()[i] != (AttributeRequest {
                    kind: VertexAttributeKind::Normal,
                    location: 2,
                }) implies attrs.contains(#[trigger] req.drop_first()[i].kind) by {
                assert(req.drop_first()[i] == req[i + 1]);
            }
            lemma_first_missing_is_normal(attrs, req.drop_first());
        }
    }
}

/// No two distinct feature keys collapse to identical configurations: when
/// the common specialization succeeds for both, the derived configurations
/// differ in an observable field (a define, the multisample state or the
/// primitive state).
pub proof fn lemma_specialize_injective<M: Material>(
    pipeline: PrepassPipeline<M>,
    k1: CacheKey,
    k2: CacheKey,
    attrs: Seq<VertexAttributeKind>,
    m1: ConfigModel,
    m2: ConfigModel,
)
    requires
        k1.mesh_key != k2.mesh_key,
        pipeline.spec_base(k1, attrs) == Ok::<ConfigModel, ConfigError>(m1),
        pipeline.spec_base(k2, attrs) == Ok::<ConfigModel, ConfigError>(m2),
    ensures
        m1 != m2,
{
    if m1 == m2 {
        lemma_defines_membership(k1.mesh_key, attrs);
        lemma_defines_membership(k2.mesh_key, attrs);
        assert(m1.vertex.defs == spec_defines(k1.mesh_key, attrs));
        assert(m2.vertex.defs == spec_defines(k2.mesh_key, attrs));
        assert(k1.mesh_key.depth == k2.mesh_key.depth);
        assert(k1.mesh_key.normals == k2.mesh_key.normals);
        assert(k1.mesh_key.alpha_mask == k2.mesh_key.alpha_mask);
        assert(k1.mesh_key.msaa_samples == k2.mesh_key.msaa_samples);
        assert(k1.mesh_key.topology == k2.mesh_key.topology);
        assert(k1.mesh_key == (PrepassKey {
            depth: k2.mesh_key.depth,
            normals: k2.mesh_key.normals,
            alpha_mask: k2.mesh_key.alpha_mask,
            msaa_samples: k2.mesh_key.msaa_samples,
            topology: k2.mesh_key.topology,
        }));
    }
}

/// A derived configuration has a fragment stage exactly when normals are
/// requested or the material is alpha-masked, and color targets (a single
/// 10-10-10-2 target with opaque blending) exactly when normals are
/// requested; a depth-only opaque configuration has no fragment stage and
/// zero color targets.
pub proof fn lemma_fragment_and_targets<M: Material>(
    pipeline: PrepassPipeline<M>,
    key: CacheKey,
    attrs: Seq<VertexAttributeKind>,
    m: ConfigModel,
)
    requires
        pipeline.spec_base(key, attrs) == Ok::<ConfigModel, ConfigError>(m),
    ensures
        m.fragment is Some <==> (key.mesh_key.normals || key.mesh_key.alpha_mask),
        match m.fragment {
            Some(f) => {
                &&& f.targets == spec_color_targets(key.mesh_key)
                &&& (f.targets.len() > 0 <==> key.mesh_key.normals)
                &&& (key.mesh_key.normals ==> f.targets == seq![
                    ColorTarget { format: TextureFormat::Rgb10a2Unorm, blend: BlendMode::Replace },
                ])
            },
            None => !key.mesh_key.normals && !key.mesh_key.alpha_mask,
        },
{
}

} // verus!
