use prepass::bindgroup::BindGroup;
use prepass::extract::CameraInfo;
use prepass::ids::{
    BindingId, DrawFunctionId, EntityId, LayoutHandle, MaterialHandle, MeshHandle, ShaderHandle,
    TargetId,
};
use prepass::key::PrimitiveTopology;
use prepass::material::{AlphaMode, BasicPrepassMaterial, PreparedMaterial};
use prepass::plugin::PrepassPlugin;
use prepass::queue::{DrawableInfo, MeshAsset, VisibleDrawable};
use prepass::specialize::{MaterialShaderRef, PrepassPipeline};
use prepass::textures::{PrepassSettings, SurfaceSize};
use prepass::vertex::{VertexAttributeKind, VertexLayoutDescriptor};

fn plugin() -> PrepassPlugin<BasicPrepassMaterial> {
    let pipeline = PrepassPipeline::from_parts(
        LayoutHandle(10),
        LayoutHandle(11),
        LayoutHandle(12),
        LayoutHandle(13),
        MaterialShaderRef::UseFallback,
        MaterialShaderRef::Handle(ShaderHandle(55)),
        ShaderHandle(99),
        BasicPrepassMaterial,
    );
    assert_eq!(pipeline.material_vertex_shader, None);
    assert_eq!(pipeline.material_fragment_shader, Some(ShaderHandle(55)));
    PrepassPlugin::new(pipeline, DrawFunctionId(100), DrawFunctionId(101))
}

#[test]
fn one_frame_extracts_prepares_queues_and_sorts() {
    let mut plugin = plugin();
    let settings = PrepassSettings { output_depth: true, output_normals: false };
    let size = SurfaceSize { width: 320, height: 200 };
    let cameras = vec![
        CameraInfo {
            entity: EntityId(10),
            is_active: true,
            settings,
            target: TargetId(1),
            physical_size: Some(size),
        },
        CameraInfo {
            entity: EntityId(11),
            is_active: false,
            settings,
            target: TargetId(1),
            physical_size: Some(size),
        },
    ];
    let meshes = vec![(
        MeshHandle(1),
        MeshAsset {
            layout: VertexLayoutDescriptor {
                attrs: vec![VertexAttributeKind::Position, VertexAttributeKind::Uv0],
            },
            layout_id: 1,
            topology: PrimitiveTopology::TriangleList,
        },
    )];
    let materials = vec![(
        MaterialHandle(1),
        PreparedMaterial { subkey: 0, alpha_mode: AlphaMode::Opaque, depth_bias: 1 },
    )];
    let entities = vec![
        (EntityId(1), DrawableInfo { material: MaterialHandle(1), mesh: MeshHandle(1) }),
        (EntityId(2), DrawableInfo { material: MaterialHandle(1), mesh: MeshHandle(1) }),
    ];
    // two drawables, farther one first: sorting must reorder them
    let visible = vec![vec![
        VisibleDrawable { entity: EntityId(2), distance: 50 },
        VisibleDrawable { entity: EntityId(1), distance: 20 },
    ]];

    let out = plugin.run_frame(
        &cameras,
        1,
        Some(BindingId(7)),
        &meshes,
        &materials,
        &entities,
        &visible,
    );

    // only the active camera became a view
    assert_eq!(out.views.len(), 1);
    assert_eq!(out.views[0].entity, EntityId(10));
    assert_eq!(out.textures.len(), 1);
    let textures = out.textures[0].unwrap();
    assert!(textures.depth.is_some());
    assert!(textures.normals.is_none());

    // both drawables queued into the opaque phase, front to back
    assert_eq!(out.phases.len(), 1);
    let opaque = &out.phases[0].opaque.items;
    assert_eq!(opaque.len(), 2);
    assert_eq!(opaque[0].entity, EntityId(1));
    assert_eq!(opaque[0].distance, 21);
    assert_eq!(opaque[1].entity, EntityId(2));
    assert_eq!(opaque[1].distance, 51);
    // both resolve to the same cached pipeline variant
    assert_eq!(opaque[0].pipeline, opaque[1].pipeline);
    assert!(out.phases[0].alpha_mask.items.is_empty());
    assert!(out.skipped.is_empty());

    // the view bind group was rebuilt for the frame
    assert_eq!(
        plugin.view_bind_group.bind_group,
        Some(BindGroup { layout: LayoutHandle(10), binding: BindingId(7) })
    );
}
