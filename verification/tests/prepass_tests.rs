use prepass::bindgroup::{queue_prepass_view_bind_group, PrepassViewBindGroup, SetPrepassViewBindGroup};
use prepass::cache::{PipelineRegistry, SpecializedPipelines};
use prepass::config::{BlendMode, CompareFunction, ShaderDef, TextureFormat};
use prepass::error::ConfigError;
use prepass::extract::{extract_core_3d_camera_prepass_phase, CameraInfo};
use prepass::ids::{
    BindingId, DrawFunctionId, EntityId, LayoutHandle, MaterialHandle, MeshHandle, ShaderHandle,
    TargetId,
};
use prepass::key::{CacheKey, PrepassKey, PrimitiveTopology};
use prepass::material::{AlphaMode, BasicPrepassMaterial, PreparedMaterial};
use prepass::phase::{PhaseItem, RenderPhase};
use prepass::queue::{
    biased_distance, queue_prepass_material_meshes, queue_prepass_view, DrawableInfo, MeshAsset,
    VisibleDrawable,
};
use prepass::specialize::PrepassPipeline;
use prepass::textures::{
    prepare_core_3d_prepass_textures, FrameTextureCache, PrepassSettings, SurfaceSize, ViewTargetInfo,
};
use prepass::vertex::{VertexAttributeKind, VertexLayoutDescriptor};

fn test_pipeline() -> PrepassPipeline<BasicPrepassMaterial> {
    PrepassPipeline {
        view_layout: LayoutHandle(10),
        mesh_layout: LayoutHandle(11),
        skinned_mesh_layout: LayoutHandle(12),
        material_layout: LayoutHandle(13),
        material_vertex_shader: None,
        material_fragment_shader: None,
        fallback_shader: ShaderHandle(99),
        material: BasicPrepassMaterial,
    }
}

fn key(depth: bool, normals: bool, alpha_mask: bool, msaa: u32, topo: PrimitiveTopology) -> CacheKey {
    CacheKey {
        mesh_key: PrepassKey {
            depth,
            normals,
            alpha_mask,
            msaa_samples: msaa,
            topology: topo,
        },
        material_subkey: 0,
        layout_id: 1,
    }
}

fn layout(attrs: &[VertexAttributeKind]) -> VertexLayoutDescriptor {
    VertexLayoutDescriptor { attrs: attrs.to_vec() }
}

#[test]
fn depth_only_opaque_has_no_fragment_and_two_attributes() {
    // A view requesting depth only, an opaque mesh with position and uv.
    let p = test_pipeline();
    let k = key(true, false, false, 1, PrimitiveTopology::TriangleList);
    let l = layout(&[VertexAttributeKind::Position, VertexAttributeKind::Uv0]);
    let config = p.specialize(&k, &l).expect("depth-only specialization succeeds");
    assert!(config.fragment.is_none());
    assert_eq!(config.vertex.buffer.attributes.len(), 2);
    assert_eq!(config.vertex.buffer.attributes[0].kind, VertexAttributeKind::Position);
    assert_eq!(config.vertex.buffer.attributes[0].location, 0);
    assert_eq!(config.vertex.buffer.attributes[1].kind, VertexAttributeKind::Uv0);
    assert_eq!(config.vertex.buffer.attributes[1].location, 1);
    assert_eq!(config.depth_stencil.format, TextureFormat::Depth32Float);
    assert!(config.depth_stencil.depth_write_enabled);
    assert_eq!(config.depth_stencil.depth_compare, CompareFunction::GreaterEqual);
    assert_eq!(config.vertex.defs, vec![ShaderDef::PrepassDepth, ShaderDef::VertexPositions, ShaderDef::VertexUvs]);
}

#[test]
fn normals_with_tangent_has_one_color_target() {
    let p = test_pipeline();
    let k = key(true, true, false, 1, PrimitiveTopology::TriangleList);
    let l = layout(&[
        VertexAttributeKind::Position,
        VertexAttributeKind::Uv0,
        VertexAttributeKind::Normal,
        VertexAttributeKind::Tangent,
    ]);
    let config = p.specialize(&k, &l).expect("normals specialization succeeds");
    let fragment = config.fragment.expect("normals request a fragment stage");
    assert_eq!(fragment.targets.len(), 1);
    assert_eq!(fragment.targets[0].format, TextureFormat::Rgb10a2Unorm);
    assert_eq!(fragment.targets[0].blend, BlendMode::Replace);
    assert!(config.vertex.defs.contains(&ShaderDef::VertexTangents));
    assert!(config.vertex.defs.contains(&ShaderDef::PrepassNormals));
    // normal at 2, tangent at 3
    assert!(config.vertex.buffer.attributes.iter().any(|a| a.kind == VertexAttributeKind::Normal && a.location == 2));
    assert!(config.vertex.buffer.attributes.iter().any(|a| a.kind == VertexAttributeKind::Tangent && a.location == 3));
}

#[test]
fn skinned_only_when_both_joint_attributes_present() {
    let p = test_pipeline();
    let k = key(true, false, false, 1, PrimitiveTopology::TriangleList);
    let both = layout(&[
        VertexAttributeKind::Position,
        VertexAttributeKind::JointIndex,
        VertexAttributeKind::JointWeight,
    ]);
    let config = p.specialize(&k, &both).expect("skinned specialization succeeds");
    assert!(config.vertex.defs.contains(&ShaderDef::Skinned));
    assert_eq!(config.layouts, vec![LayoutHandle(10), LayoutHandle(13), LayoutHandle(12)]);

    let index_only = layout(&[VertexAttributeKind::Position, VertexAttributeKind::JointIndex]);
    let config = p.specialize(&k, &index_only).expect("static specialization succeeds");
    assert!(!config.vertex.defs.contains(&ShaderDef::Skinned));
    assert_eq!(config.layouts, vec![LayoutHandle(10), LayoutHandle(13), LayoutHandle(11)]);
}

#[test]
fn missing_normal_attribute_fails_specialization() {
    let p = test_pipeline();
    let k = key(true, true, false, 1, PrimitiveTopology::TriangleList);
    let l = layout(&[VertexAttributeKind::Position, VertexAttributeKind::Uv0]);
    let err = p.specialize(&k, &l).expect_err("normals need the normal attribute");
    assert_eq!(err, ConfigError::MissingVertexAttribute(VertexAttributeKind::Normal));
    assert_eq!(err.describe(), "missing vertex attribute: normal");
    assert_eq!(
        ConfigError::MaterialHook(3).describe(),
        "material specialization hook failed"
    );
}

#[test]
fn distinct_keys_give_distinct_configs() {
    let p = test_pipeline();
    let l = layout(&[VertexAttributeKind::Position]);
    let k1 = key(true, false, false, 1, PrimitiveTopology::TriangleList);
    let k2 = key(true, false, false, 4, PrimitiveTopology::TriangleList);
    let c1 = p.specialize(&k1, &l).unwrap();
    let c2 = p.specialize(&k2, &l).unwrap();
    assert_ne!(c1, c2);
    assert_eq!(c1.multisample.count, 1);
    assert_eq!(c2.multisample.count, 4);

    let k3 = key(true, false, true, 1, PrimitiveTopology::TriangleList);
    let c3 = p.specialize(&k3, &l).unwrap();
    assert_ne!(c1, c3);
    assert!(c3.vertex.defs.contains(&ShaderDef::AlphaMask));
    assert!(!c1.vertex.defs.contains(&ShaderDef::AlphaMask));
}

#[test]
fn cache_returns_same_handle_without_respecializing() {
    let p = test_pipeline();
    let mut cache = SpecializedPipelines::new();
    let mut registry = PipelineRegistry::new();
    let k = key(true, false, false, 1, PrimitiveTopology::TriangleList);
    let l = layout(&[VertexAttributeKind::Position]);

    let first = cache.get_or_specialize(&mut registry, &p, &k, &l).unwrap();
    assert_eq!(registry.configs.len(), 1);
    assert_eq!(cache.entries.len(), 1);

    let second = cache.get_or_specialize(&mut registry, &p, &k, &l).unwrap();
    assert_eq!(first, second);
    // no new specialization, no new entry
    assert_eq!(registry.configs.len(), 1);
    assert_eq!(cache.entries.len(), 1);

    // a different key gets a different handle
    let k4 = key(true, false, false, 4, PrimitiveTopology::TriangleList);
    let other = cache.get_or_specialize(&mut registry, &p, &k4, &l).unwrap();
    assert_ne!(first, other);
    assert_eq!(registry.configs.len(), 2);
}

#[test]
fn failures_are_memoized_too() {
    let p = test_pipeline();
    let mut cache = SpecializedPipelines::new();
    let mut registry = PipelineRegistry::new();
    let k = key(true, true, false, 1, PrimitiveTopology::TriangleList);
    let l = layout(&[VertexAttributeKind::Position]);
    let e1 = cache.get_or_specialize(&mut registry, &p, &k, &l).unwrap_err();
    let e2 = cache.get_or_specialize(&mut registry, &p, &k, &l).unwrap_err();
    assert_eq!(e1, e2);
    assert_eq!(registry.configs.len(), 0);
    assert_eq!(cache.entries.len(), 1);
}

fn scene() -> (
    Vec<(MeshHandle, MeshAsset)>,
    Vec<(MaterialHandle, PreparedMaterial)>,
    Vec<(EntityId, DrawableInfo)>,
) {
    let meshes = vec![(
        MeshHandle(1),
        MeshAsset {
            layout: layout(&[VertexAttributeKind::Position, VertexAttributeKind::Uv0]),
            layout_id: 1,
            topology: PrimitiveTopology::TriangleList,
        },
    )];
    let materials = vec![
        (MaterialHandle(1), PreparedMaterial { subkey: 0, alpha_mode: AlphaMode::Opaque, depth_bias: 0 }),
        (MaterialHandle(2), PreparedMaterial { subkey: 0, alpha_mode: AlphaMode::Mask, depth_bias: 0 }),
        (MaterialHandle(3), PreparedMaterial { subkey: 0, alpha_mode: AlphaMode::Blend, depth_bias: 0 }),
    ];
    let entities = vec![
        (EntityId(1), DrawableInfo { material: MaterialHandle(1), mesh: MeshHandle(1) }),
        (EntityId(2), DrawableInfo { material: MaterialHandle(2), mesh: MeshHandle(1) }),
        (EntityId(3), DrawableInfo { material: MaterialHandle(3), mesh: MeshHandle(1) }),
    ];
    (meshes, materials, entities)
}

#[test]
fn blend_drawables_never_reach_a_phase() {
    let p = test_pipeline();
    let mut cache = SpecializedPipelines::new();
    let mut registry = PipelineRegistry::new();
    let mut skipped = Vec::new();
    let (meshes, materials, entities) = scene();
    let visible = vec![VisibleDrawable { entity: EntityId(3), distance: 5 }];
    let phases = queue_prepass_view(
        DrawFunctionId(100),
        DrawFunctionId(101),
        &p,
        &mut cache,
        &mut registry,
        1,
        &meshes,
        &materials,
        &entities,
        PrepassSettings { output_depth: true, output_normals: false },
        &visible,
        &mut skipped,
    );
    assert!(phases.opaque.items.is_empty());
    assert!(phases.alpha_mask.items.is_empty());
    assert!(skipped.is_empty());
}

#[test]
fn masked_drawables_join_the_alpha_mask_phase_with_the_define() {
    let p = test_pipeline();
    let mut cache = SpecializedPipelines::new();
    let mut registry = PipelineRegistry::new();
    let mut skipped = Vec::new();
    let (meshes, materials, entities) = scene();
    let visible = vec![
        VisibleDrawable { entity: EntityId(1), distance: 7 },
        VisibleDrawable { entity: EntityId(2), distance: 9 },
    ];
    let phases = queue_prepass_view(
        DrawFunctionId(100),
        DrawFunctionId(101),
        &p,
        &mut cache,
        &mut registry,
        1,
        &meshes,
        &materials,
        &entities,
        PrepassSettings { output_depth: true, output_normals: false },
        &visible,
        &mut skipped,
    );
    assert_eq!(phases.opaque.items.len(), 1);
    assert_eq!(phases.alpha_mask.items.len(), 1);
    assert!(skipped.is_empty());

    let opaque_item = phases.opaque.items[0];
    let masked_item = phases.alpha_mask.items[0];
    assert_eq!(opaque_item.entity, EntityId(1));
    assert_eq!(opaque_item.draw_function, DrawFunctionId(100));
    assert_eq!(opaque_item.distance, 7);
    assert_eq!(masked_item.entity, EntityId(2));
    assert_eq!(masked_item.draw_function, DrawFunctionId(101));
    assert_eq!(masked_item.distance, 9);

    let opaque_config = registry.get_config(opaque_item.pipeline).unwrap();
    let masked_config = registry.get_config(masked_item.pipeline).unwrap();
    assert!(!opaque_config.vertex.defs.contains(&ShaderDef::AlphaMask));
    assert!(masked_config.vertex.defs.contains(&ShaderDef::AlphaMask));
    // depth-only opaque, non-normals: zero color targets
    assert!(opaque_config.fragment.is_none());
    // masked: fragment stage present, but still no color target without normals
    let masked_fragment = masked_config.fragment.as_ref().unwrap();
    assert!(masked_fragment.targets.is_empty());
}

#[test]
fn failed_drawables_are_reported_with_their_key() {
    let p = test_pipeline();
    let mut cache = SpecializedPipelines::new();
    let mut registry = PipelineRegistry::new();
    let mut skipped = Vec::new();
    let (meshes, materials, entities) = scene();
    let visible = vec![VisibleDrawable { entity: EntityId(1), distance: 7 }];
    // normals requested of a mesh without a normal attribute
    let phases = queue_prepass_view(
        DrawFunctionId(100),
        DrawFunctionId(101),
        &p,
        &mut cache,
        &mut registry,
        1,
        &meshes,
        &materials,
        &entities,
        PrepassSettings { output_depth: true, output_normals: true },
        &visible,
        &mut skipped,
    );
    assert!(phases.opaque.items.is_empty());
    assert!(phases.alpha_mask.items.is_empty());
    assert_eq!(skipped.len(), 1);
    assert_eq!(skipped[0].entity, EntityId(1));
    assert!(skipped[0].key.mesh_key.normals);
    assert_eq!(
        skipped[0].error,
        ConfigError::MissingVertexAttribute(VertexAttributeKind::Normal)
    );
}

#[test]
fn unresolved_assets_skip_silently() {
    let p = test_pipeline();
    let mut cache = SpecializedPipelines::new();
    let mut registry = PipelineRegistry::new();
    let mut skipped = Vec::new();
    let (meshes, materials, entities) = scene();
    let visible = vec![VisibleDrawable { entity: EntityId(42), distance: 7 }];
    let phases = queue_prepass_view(
        DrawFunctionId(100),
        DrawFunctionId(101),
        &p,
        &mut cache,
        &mut registry,
        1,
        &meshes,
        &materials,
        &entities,
        PrepassSettings { output_depth: true, output_normals: false },
        &visible,
        &mut skipped,
    );
    assert!(phases.opaque.items.is_empty());
    assert!(phases.alpha_mask.items.is_empty());
    assert!(skipped.is_empty());
}

#[test]
fn each_view_queues_into_its_own_phases() {
    let p = test_pipeline();
    let mut cache = SpecializedPipelines::new();
    let mut registry = PipelineRegistry::new();
    let mut skipped = Vec::new();
    let (meshes, materials, entities) = scene();
    let settings = vec![
        PrepassSettings { output_depth: true, output_normals: false },
        PrepassSettings { output_depth: true, output_normals: false },
    ];
    let visible = vec![
        vec![VisibleDrawable { entity: EntityId(1), distance: 7 }],
        vec![VisibleDrawable { entity: EntityId(2), distance: 9 }],
    ];
    let phases = queue_prepass_material_meshes(
        DrawFunctionId(100),
        DrawFunctionId(101),
        &p,
        &mut cache,
        &mut registry,
        1,
        &meshes,
        &materials,
        &entities,
        &settings,
        &visible,
        &mut skipped,
    );
    assert_eq!(phases.len(), 2);
    assert_eq!(phases[0].opaque.items.len(), 1);
    assert!(phases[0].alpha_mask.items.is_empty());
    assert_eq!(phases[0].opaque.items[0].entity, EntityId(1));
    assert!(phases[1].opaque.items.is_empty());
    assert_eq!(phases[1].alpha_mask.items.len(), 1);
    assert_eq!(phases[1].alpha_mask.items[0].entity, EntityId(2));
    assert!(skipped.is_empty());
}

#[test]
fn each_qualifying_drawable_yields_exactly_one_item() {
    let p = test_pipeline();
    let mut cache = SpecializedPipelines::new();
    let mut registry = PipelineRegistry::new();
    let mut skipped = Vec::new();
    let (meshes, materials, entities) = scene();
    // the same entity visible twice is queued once per occurrence, in order
    let visible = vec![
        VisibleDrawable { entity: EntityId(1), distance: 7 },
        VisibleDrawable { entity: EntityId(1), distance: 8 },
    ];
    let phases = queue_prepass_view(
        DrawFunctionId(100),
        DrawFunctionId(101),
        &p,
        &mut cache,
        &mut registry,
        1,
        &meshes,
        &materials,
        &entities,
        PrepassSettings { output_depth: true, output_normals: false },
        &visible,
        &mut skipped,
    );
    assert_eq!(phases.opaque.items.len(), 2);
    assert_eq!(phases.opaque.items[0].distance, 7);
    assert_eq!(phases.opaque.items[1].distance, 8);
    assert!(phases.alpha_mask.items.is_empty());
    assert!(skipped.is_empty());
}

#[test]
fn sort_is_stable_for_equal_distances() {
    let mut phase = RenderPhase::new();
    for (entity, distance) in [(1u64, 20i64), (2, 10), (3, 20), (4, 10)] {
        phase.add(PhaseItem {
            entity: EntityId(entity),
            draw_function: DrawFunctionId(0),
            pipeline: prepass::ids::PipelineId(0),
            distance,
        });
    }
    phase.sort();
    // equal distances keep their insertion order
    let entities: Vec<u64> = phase.items.iter().map(|i| i.entity.0).collect();
    assert_eq!(entities, vec![2, 4, 1, 3]);
}

#[test]
fn sort_orders_ascending_by_distance() {
    let mut phase = RenderPhase::new();
    for (entity, distance) in [(1u64, 30i64), (2, 10), (3, 20), (4, -5)] {
        phase.add(PhaseItem {
            entity: EntityId(entity),
            draw_function: DrawFunctionId(0),
            pipeline: prepass::ids::PipelineId(0),
            distance,
        });
    }
    phase.sort();
    let distances: Vec<i64> = phase.items.iter().map(|i| i.distance).collect();
    assert_eq!(distances, vec![-5, 10, 20, 30]);
    let entities: Vec<u64> = phase.items.iter().map(|i| i.entity.0).collect();
    assert_eq!(entities, vec![4, 2, 3, 1]);
}

#[test]
fn depth_bias_shifts_the_sort_distance_and_saturates() {
    assert_eq!(biased_distance(10, 5), 15);
    assert_eq!(biased_distance(10, -25), -15);
    assert_eq!(biased_distance(i64::MAX, 1), i64::MAX);
    assert_eq!(biased_distance(i64::MIN, -1), i64::MIN);
}

#[test]
fn views_sharing_a_target_share_attachments() {
    let settings = PrepassSettings { output_depth: true, output_normals: true };
    let size = SurfaceSize { width: 800, height: 600 };
    let views = vec![
        ViewTargetInfo { target: TargetId(1), physical_size: Some(size), settings },
        ViewTargetInfo { target: TargetId(1), physical_size: Some(size), settings },
        ViewTargetInfo { target: TargetId(2), physical_size: Some(size), settings },
        ViewTargetInfo { target: TargetId(3), physical_size: None, settings },
    ];
    let mut cache = FrameTextureCache::new();
    let out = prepare_core_3d_prepass_textures(&views, 4, &mut cache);
    assert_eq!(out.len(), 4);
    let a = out[0].unwrap();
    let b = out[1].unwrap();
    let c = out[2].unwrap();
    assert_eq!(a.depth, b.depth);
    assert_eq!(a.normals, b.normals);
    assert_ne!(a.depth, c.depth);
    assert!(out[3].is_none());
    assert_eq!(a.size, size);
    // descriptor shape of the depth attachment
    let depth_desc = cache.allocations[a.depth.unwrap().0 as usize];
    assert_eq!(depth_desc.format, TextureFormat::Depth32Float);
    assert_eq!(depth_desc.sample_count, 4);
    assert_eq!(depth_desc.mip_level_count, 1);
    let normals_desc = cache.allocations[a.normals.unwrap().0 as usize];
    assert_eq!(normals_desc.format, TextureFormat::Rgb10a2Unorm);
}

#[test]
fn depth_and_normals_follow_the_view_settings() {
    let size = SurfaceSize { width: 64, height: 64 };
    let views = vec![ViewTargetInfo {
        target: TargetId(1),
        physical_size: Some(size),
        settings: PrepassSettings { output_depth: true, output_normals: false },
    }];
    let mut cache = FrameTextureCache::new();
    let out = prepare_core_3d_prepass_textures(&views, 1, &mut cache);
    let t = out[0].unwrap();
    assert!(t.depth.is_some());
    assert!(t.normals.is_none());
}

#[test]
fn extraction_keeps_only_active_cameras() {
    let settings = PrepassSettings { output_depth: true, output_normals: false };
    let cameras = vec![
        CameraInfo { entity: EntityId(1), is_active: true, settings, target: TargetId(1), physical_size: None },
        CameraInfo { entity: EntityId(2), is_active: false, settings, target: TargetId(2), physical_size: None },
        CameraInfo { entity: EntityId(3), is_active: true, settings, target: TargetId(3), physical_size: None },
    ];
    let views = extract_core_3d_camera_prepass_phase(&cameras);
    assert_eq!(views.len(), 2);
    assert_eq!(views[0].entity, EntityId(1));
    assert_eq!(views[1].entity, EntityId(3));
}

#[test]
fn view_bind_group_rebuilds_only_with_a_binding() {
    let mut bg = PrepassViewBindGroup { bind_group: None };
    queue_prepass_view_bind_group(&mut bg, LayoutHandle(10), None);
    assert!(bg.bind_group.is_none());
    queue_prepass_view_bind_group(&mut bg, LayoutHandle(10), Some(BindingId(5)));
    let built = bg.bind_group.unwrap();
    assert_eq!(built.layout, LayoutHandle(10));
    assert_eq!(built.binding, BindingId(5));
    // without a new binding the prior value stays
    queue_prepass_view_bind_group(&mut bg, LayoutHandle(10), None);
    assert_eq!(bg.bind_group, Some(built));

    let cmd = SetPrepassViewBindGroup::<0>::render(&bg, 256);
    assert_eq!(cmd.slot, 0);
    assert_eq!(cmd.bind_group, built);
    assert_eq!(cmd.offset, 256);
}
