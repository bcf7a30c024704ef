//! Per-view queuing of visible drawables into the two prepass draw phases.

use vstd::prelude::*;
use crate::cache::{
    cache_coherent, lemma_cache_lookup_stable, spec_lookup, CacheEntry, PipelineRegistry,
    SpecializedPipelines,
};
use crate::error::ConfigError;
use crate::ids::{DrawFunctionId, EntityId, MaterialHandle, MeshHandle};
use crate::key::{CacheKey, PrepassKey, PrimitiveTopology};
use crate::material::{AlphaMode, Material, PreparedMaterial};
use crate::phase::{PhaseItem, RenderPhase};
use crate::specialize::PrepassPipeline;
use crate::textures::PrepassSettings;
use crate::vertex::VertexLayoutDescriptor;

verus! {

/// A mesh asset as the render world sees it.
#[derive(PartialEq, Eq, Clone, Debug)]
pub struct MeshAsset {
    /// The attribute slots the mesh carries.
    pub layout: VertexLayoutDescriptor,
    /// The identity of that layout, part of the cache key. The embedding
    /// renderer interns layouts so equal identities mean equal layouts.
    pub layout_id: u64,
    /// How the mesh's vertices are assembled.
    pub topology: PrimitiveTopology,
}

/// The renderable components of one entity: its material and its mesh.
#[derive(PartialEq, Eq, Structural, Clone, Copy, Debug)]
pub struct DrawableInfo {
    pub material: MaterialHandle,
    pub mesh: MeshHandle,
}

/// One entity visible in a view, with its view-space distance (the view's
/// rangefinder applied to the entity's transform, in the embedding
/// renderer's fixed-point distance scale).
#[derive(PartialEq, Eq, Structural, Clone, Copy, Debug)]
pub struct VisibleDrawable {
    pub entity: EntityId,
    pub distance: i64,
}

/// The two draw phases produced for one view.
pub struct ViewPhases {
    pub opaque: RenderPhase,
    pub alpha_mask: RenderPhase,
}

/// One drawable skipped because its variant could not be specialized; the
/// embedding renderer logs these (the skip is non-fatal and per drawable).
#[derive(PartialEq, Eq, Structural, Clone, Copy, Debug)]
pub struct QueueSkip {
    pub entity: EntityId,
    /// The failing key, for diagnosing asset or shader mismatches.
    pub key: CacheKey,
    pub error: ConfigError,
}

/// The prepared material an entity resolves to, if all its assets are loaded.
pub open spec fn spec_material_of(
    entities: Seq<(EntityId, DrawableInfo)>,
    materials: Seq<(MaterialHandle, PreparedMaterial)>,
    entity: EntityId,
) -> Option<PreparedMaterial> {
    match spec_assoc_entity(entities, entity) {
        None => None,
        Some(info) => spec_assoc_material(materials, info.material),
    }
}

/// The mesh an entity resolves to, if all its assets are loaded.
pub open spec fn spec_mesh_of(
    entities: Seq<(EntityId, DrawableInfo)>,
    meshes: Seq<(MeshHandle, MeshAsset)>,
    entity: EntityId,
) -> Option<MeshAsset> {
    match spec_assoc_entity(entities, entity) {
        None => None,
        Some(info) => spec_assoc_mesh(meshes, info.mesh),
    }
}

/// First-match association of an entity with its drawable components.
pub open spec fn spec_assoc_entity(s: Seq<(EntityId, DrawableInfo)>, k: EntityId) -> Option<
    DrawableInfo,
>
    decreases s.len(),
{
    if s.len() == 0 {
        None
    } else if s[0].0 == k {
        Some(s[0].1)
    } else {
        spec_assoc_entity(s.drop_first(), k)
    }
}

/// First-match association of a material handle with its prepared material.
pub open spec fn spec_assoc_material(
    s: Seq<(MaterialHandle, PreparedMaterial)>,
    k: MaterialHandle,
) -> Option<PreparedMaterial>
    decreases s.len(),
{
    if s.len() == 0 {
        None
    } else if s[0].0 == k {
        Some(s[0].1)
    } else {
        spec_assoc_material(s.drop_first(), k)
    }
}

/// First-match association of a mesh handle with its mesh asset.
pub open spec fn spec_assoc_mesh(s: Seq<(MeshHandle, MeshAsset)>, k: MeshHandle) -> Option<
    MeshAsset,
>
    decreases s.len(),
{
    if s.len() == 0 {
        None
    } else if s[0].0 == k {
        Some(s[0].1)
    } else {
        spec_assoc_mesh(s.drop_first(), k)
    }
}

/// The per-view base key: depth always set, normals per the view's settings,
/// the frame's sample count; topology is filled in per mesh.
pub open spec fn spec_view_key(settings: PrepassSettings, msaa_samples: u32) -> PrepassKey {
    PrepassKey {
        depth: true,
        normals: settings.output_normals,
        alpha_mask: false,
        msaa_samples,
        topology: PrimitiveTopology::TriangleList,
    }
}

/// The cache key of one drawable: the view key with the mesh's topology, the
/// mask flag per the material's alpha mode, the material's sub-key and the
/// layout's identity.
pub open spec fn spec_drawable_key(
    settings: PrepassSettings,
    msaa_samples: u32,
    mat: PreparedMaterial,
    mesh: MeshAsset,
) -> CacheKey {
    CacheKey {
        mesh_key: PrepassKey {
            topology: mesh.topology,
            alpha_mask: mat.alpha_mode is Mask,
            ..spec_view_key(settings, msaa_samples)
        },
        material_subkey: mat.subkey,
        layout_id: mesh.layout_id,
    }
}

/// The sort distance of a drawable: its view-space distance plus the
/// material's static depth bias, saturating at the distance scale's ends.
pub open spec fn spec_biased_distance(d: i64, bias: i64) -> i64 {
    let s = d + bias;
    if s > i64::MAX {
        i64::MAX
    } else if s < i64::MIN {
        i64::MIN
    } else {
        s as i64
    }
}

/// Adds the material's depth bias to a view-space distance, saturating.
pub fn biased_distance(d: i64, bias: i64) -> (r: i64)
    ensures
        r == spec_biased_distance(d, bias),
{
    if bias >= 0 {
        if d > i64::MAX - bias {
            i64::MAX
        } else {
            d + bias
        }
    } else {
        if d < i64::MIN - bias {
            i64::MIN
        } else {
            d + bias
        }
    }
}

/// What a queued phase item says of the drawable it came from: the item
/// belongs to a visible drawable whose material has the phase's alpha mode,
/// carries the phase's draw function, the biased distance, and a pipeline
/// handle the cache memoized for the drawable's key.
pub open spec fn spec_item_from_drawable(
    item: PhaseItem,
    vd: VisibleDrawable,
    entities: Seq<(EntityId, DrawableInfo)>,
    materials: Seq<(MaterialHandle, PreparedMaterial)>,
    meshes: Seq<(MeshHandle, MeshAsset)>,
    cache_entries: Seq<CacheEntry>,
    settings: PrepassSettings,
    msaa_samples: u32,
    draw_function: DrawFunctionId,
    masked: bool,
) -> bool {
    &&& item.entity == vd.entity
    &&& item.draw_function == draw_function
    &&& match (
        spec_material_of(entities, materials, vd.entity),
        spec_mesh_of(entities, meshes, vd.entity),
    ) {
        (Some(mat), Some(mesh)) => {
            &&& if masked {
                mat.alpha_mode is Mask
            } else {
                mat.alpha_mode is Opaque
            }
            &&& item.distance == spec_biased_distance(vd.distance, mat.depth_bias)
            &&& spec_lookup(
                cache_entries,
                spec_drawable_key(settings, msaa_samples, mat, mesh),
            ) == Some(Ok::<_, ConfigError>(item.pipeline))
        },
        _ => false,
    }
}

/// The item at one position of a phase came from some visible drawable.
pub open spec fn spec_item_sound(
    items: Seq<PhaseItem>,
    x: int,
    visible: Seq<VisibleDrawable>,
    entities: Seq<(EntityId, DrawableInfo)>,
    materials: Seq<(MaterialHandle, PreparedMaterial)>,
    meshes: Seq<(MeshHandle, MeshAsset)>,
    cache_entries: Seq<CacheEntry>,
    settings: PrepassSettings,
    msaa_samples: u32,
    draw_function: DrawFunctionId,
    masked: bool,
) -> bool {
    exists|d: int|
        0 <= d < visible.len() && spec_item_from_drawable(
            items[x],
            #[trigger] visible[d],
            entities,
            materials,
            meshes,
            cache_entries,
            settings,
            msaa_samples,
            draw_function,
            masked,
        )
}

/// A phase of a view holds only items its visible drawables produced.
pub open spec fn spec_phase_sound(
    items: Seq<PhaseItem>,
    visible: Seq<VisibleDrawable>,
    entities: Seq<(EntityId, DrawableInfo)>,
    materials: Seq<(MaterialHandle, PreparedMaterial)>,
    meshes: Seq<(MeshHandle, MeshAsset)>,
    cache_entries: Seq<CacheEntry>,
    settings: PrepassSettings,
    msaa_samples: u32,
    draw_function: DrawFunctionId,
    masked: bool,
) -> bool {
    forall|x: int|
        0 <= x < items.len() ==> #[trigger] spec_item_sound(
            items,
            x,
            visible,
            entities,
            materials,
            meshes,
            cache_entries,
            settings,
            msaa_samples,
            draw_function,
            masked,
        )
}

/// An item for the entity stands in the phase.
pub open spec fn spec_entity_queued(entity: EntityId, items: Seq<PhaseItem>) -> bool {
    exists|x: int| 0 <= x < items.len() && (#[trigger] items[x]).entity == entity
}

/// A skip record for the entity stands in the list, carrying the failing
/// key and the given error.
pub open spec fn spec_skip_recorded(
    entity: EntityId,
    key: CacheKey,
    err: ConfigError,
    skipped: Seq<QueueSkip>,
) -> bool {
    exists|x: int|
        0 <= x < skipped.len() && #[trigger] skipped[x] == (QueueSkip { entity, key, error: err })
}

/// Equal layout identities name equal layouts: the embedding renderer
/// interns vertex layouts, so the identity in a cache key stands for one
/// layout across the loaded meshes.
pub open spec fn spec_meshes_interned(meshes: Seq<(MeshHandle, MeshAsset)>) -> bool {
    forall|i: int, j: int|
        0 <= i < meshes.len() && 0 <= j < meshes.len() && (#[trigger] meshes[i]).1.layout_id == (
        #[trigger] meshes[j]).1.layout_id ==> meshes[i].1.layout.attrs@
            == meshes[j].1.layout.attrs@
}

/// A memoized outcome is the specializer's genuine outcome on the given
/// attributes: a handle to a registered configuration the specializer
/// derives, or exactly the specializer's own error.
pub open spec fn spec_outcome_genuine<M: Material>(
    pipeline: PrepassPipeline<M>,
    key: CacheKey,
    attrs: Seq<crate::vertex::VertexAttributeKind>,
    r: Result<crate::ids::PipelineId, ConfigError>,
    configs: Seq<crate::config::PipelineConfig>,
) -> bool {
    match r {
        Ok(id) => id.0 < configs.len() && pipeline.spec_specialize(key, attrs) == Ok::<
            crate::config::ConfigModel,
            ConfigError,
        >(configs[id.0 as int]@),
        Err(e) => pipeline.spec_specialize(key, attrs) == Err::<
            crate::config::ConfigModel,
            ConfigError,
        >(e),
    }
}

/// Every cache entry holds the specializer's genuine outcome for the vertex
/// layout its key's layout identity names among the loaded meshes.
pub open spec fn cache_faithful<M: Material>(
    entries: Seq<CacheEntry>,
    configs: Seq<crate::config::PipelineConfig>,
    pipeline: PrepassPipeline<M>,
    meshes: Seq<(MeshHandle, MeshAsset)>,
) -> bool {
    forall|e: int, m: int|
        0 <= e < entries.len() && 0 <= m < meshes.len() && (#[trigger] meshes[m]).1.layout_id == (
        #[trigger] entries[e]).0.layout_id ==> spec_outcome_genuine(
            pipeline,
            entries[e].0,
            meshes[m].1.layout.attrs@,
            entries[e].1,
            configs,
        )
}

/// Every visible drawable is decisively accounted for. When its assets
/// resolve and its mode is not blend, it stands in the phase its alpha mode
/// selects exactly when the specializer derives its variant; otherwise a
/// skip record carrying the specializer's own error stands in the list.
/// Success is owed: a drawable the specializer can serve is queued, and a
/// failure record exists only for a genuine failure.
pub open spec fn spec_drawable_accounted<M: Material>(
    vd: VisibleDrawable,
    opaque_items: Seq<PhaseItem>,
    alpha_items: Seq<PhaseItem>,
    skipped: Seq<QueueSkip>,
    entities: Seq<(EntityId, DrawableInfo)>,
    materials: Seq<(MaterialHandle, PreparedMaterial)>,
    meshes: Seq<(MeshHandle, MeshAsset)>,
    pipeline: PrepassPipeline<M>,
    settings: PrepassSettings,
    msaa_samples: u32,
) -> bool {
    match (
        spec_material_of(entities, materials, vd.entity),
        spec_mesh_of(entities, meshes, vd.entity),
    ) {
        (Some(mat), Some(mesh)) => {
            let key = spec_drawable_key(settings, msaa_samples, mat, mesh);
            match mat.alpha_mode {
                AlphaMode::Blend => true,
                AlphaMode::Mask => match pipeline.spec_specialize(key, mesh.layout.attrs@) {
                    Ok(_) => spec_entity_queued(vd.entity, alpha_items),
                    Err(er) => spec_skip_recorded(vd.entity, key, er, skipped),
                },
                AlphaMode::Opaque => match pipeline.spec_specialize(key, mesh.layout.attrs@) {
                    Ok(_) => spec_entity_queued(vd.entity, opaque_items),
                    Err(er) => spec_skip_recorded(vd.entity, key, er, skipped),
                },
            }
        },
        _ => true,
    }
}

/// A skip record is genuine: it names a visible drawable whose assets
/// resolve, whose mode is not blend, whose key is the record's, and whose
/// specialization fails with exactly the recorded error. Unresolved and
/// blend drawables are skipped silently, never logged.
pub open spec fn spec_skip_genuine<M: Material>(
    sk: QueueSkip,
    visible: Seq<VisibleDrawable>,
    entities: Seq<(EntityId, DrawableInfo)>,
    materials: Seq<(MaterialHandle, PreparedMaterial)>,
    meshes: Seq<(MeshHandle, MeshAsset)>,
    pipeline: PrepassPipeline<M>,
    settings: PrepassSettings,
    msaa_samples: u32,
) -> bool {
    exists|d: int|
        0 <= d < visible.len() && (#[trigger] visible[d]).entity == sk.entity && match (
            spec_material_of(entities, materials, sk.entity),
            spec_mesh_of(entities, meshes, sk.entity),
        ) {
            (Some(mat), Some(mesh)) => !(mat.alpha_mode is Blend) && sk.key == spec_drawable_key(
                settings,
                msaa_samples,
                mat,
                mesh,
            ) && pipeline.spec_specialize(sk.key, mesh.layout.attrs@) == Err::<
                crate::config::ConfigModel,
                ConfigError,
            >(sk.error),
            _ => false,
        }
}

/// The (entity, distance, draw function) projection of a phase, in order.
pub open spec fn spec_item_keys(items: Seq<PhaseItem>) -> Seq<(EntityId, i64, DrawFunctionId)>
    decreases items.len(),
{
    if items.len() == 0 {
        Seq::empty()
    } else {
        spec_item_keys(items.drop_last()).push(
            (items.last().entity, items.last().distance, items.last().draw_function),
        )
    }
}

/// What one view's queuing appends to a phase, drawable by drawable in
/// visible order: exactly one entry per drawable whose assets resolve to
/// the phase's alpha mode and whose variant the specializer derives, with
/// the biased distance and the phase's draw function.
pub open spec fn spec_expected_keys<M: Material>(
    visible: Seq<VisibleDrawable>,
    entities: Seq<(EntityId, DrawableInfo)>,
    materials: Seq<(MaterialHandle, PreparedMaterial)>,
    meshes: Seq<(MeshHandle, MeshAsset)>,
    pipeline: PrepassPipeline<M>,
    settings: PrepassSettings,
    msaa_samples: u32,
    draw_function: DrawFunctionId,
    masked: bool,
) -> Seq<(EntityId, i64, DrawFunctionId)>
    decreases visible.len(),
{
    if visible.len() == 0 {
        Seq::empty()
    } else {
        let rest = spec_expected_keys(
            visible.drop_last(),
            entities,
            materials,
            meshes,
            pipeline,
            settings,
            msaa_samples,
            draw_function,
            masked,
        );
        let vd = visible.last();
        match (
            spec_material_of(entities, materials, vd.entity),
            spec_mesh_of(entities, meshes, vd.entity),
        ) {
            (Some(mat), Some(mesh)) => {
                let key = spec_drawable_key(settings, msaa_samples, mat, mesh);
                if (if masked {
                    mat.alpha_mode is Mask
                } else {
                    mat.alpha_mode is Opaque
                }) && pipeline.spec_specialize(key, mesh.layout.attrs@) is Ok {
                    rest.push(
                        (
                            vd.entity,
                            spec_biased_distance(vd.distance, mat.depth_bias),
                            draw_function,
                        ),
                    )
                } else {
                    rest
                }
            },
            _ => rest,
        }
    }
}

/// The record is a genuine failure of one of the first `hi` views, with
/// that view's settings.
pub open spec fn spec_skip_genuine_for_view<M: Material>(
    sk: QueueSkip,
    hi: int,
    visible: Seq<Vec<VisibleDrawable>>,
    view_settings: Seq<PrepassSettings>,
    entities: Seq<(EntityId, DrawableInfo)>,
    materials: Seq<(MaterialHandle, PreparedMaterial)>,
    meshes: Seq<(MeshHandle, MeshAsset)>,
    pipeline: PrepassPipeline<M>,
    msaa_samples: u32,
) -> bool {
    exists|j: int|
        0 <= j < hi && #[trigger] spec_skip_genuine(
            sk,
            visible[j]@,
            entities,
            materials,
            meshes,
            pipeline,
            view_settings[j],
            msaa_samples,
        )
}

/// Widening the view range keeps a record genuine.
pub proof fn lemma_skip_genuine_widen<M: Material>(
    sk: QueueSkip,
    hi1: int,
    hi2: int,
    visible: Seq<Vec<VisibleDrawable>>,
    view_settings: Seq<PrepassSettings>,
    entities: Seq<(EntityId, DrawableInfo)>,
    materials: Seq<(MaterialHandle, PreparedMaterial)>,
    meshes: Seq<(MeshHandle, MeshAsset)>,
    pipeline: PrepassPipeline<M>,
    msaa_samples: u32,
)
    requires
        hi1 <= hi2,
        spec_skip_genuine_for_view(
            sk,
            hi1,
            visible,
            view_settings,
            entities,
            materials,
            meshes,
            pipeline,
            msaa_samples,
        ),
    ensures
        spec_skip_genuine_for_view(
            sk,
            hi2,
            visible,
            view_settings,
            entities,
            materials,
            meshes,
            pipeline,
            msaa_samples,
        ),
{
    let j = choose|j: int|
        0 <= j < hi1 && #[trigger] spec_skip_genuine(
            sk,
            visible[j]@,
            entities,
            materials,
            meshes,
            pipeline,
            view_settings[j],
            msaa_samples,
        );
    assert(spec_skip_genuine(
        sk,
        visible[j]@,
        entities,
        materials,
        meshes,
        pipeline,
        view_settings[j],
        msaa_samples,
    ));
}

/// Queues one view's visible drawables into fresh opaque and alpha-mask
/// phases.
///
/// Per drawable: unresolved assets skip it silently; blend mode excludes it
/// from the prepass; otherwise its variant is resolved through the cache and
/// the drawable is appended to the phase its alpha mode selects, or a skip
/// record with the failing key is returned. The cache must be faithful to
/// the loaded meshes on entry (trivially so when empty); it stays faithful,
/// so every drawable the specializer can serve is queued and every skip
/// record carries a genuine failure.
pub fn queue_prepass_view<M: Material>(
    opaque_draw_function: DrawFunctionId,
    alpha_mask_draw_function: DrawFunctionId,
    pipeline: &PrepassPipeline<M>,
    pipelines: &mut SpecializedPipelines,
    registry: &mut PipelineRegistry,
    msaa_samples: u32,
    meshes: &Vec<(MeshHandle, MeshAsset)>,
    materials: &Vec<(MaterialHandle, PreparedMaterial)>,
    entities: &Vec<(EntityId, DrawableInfo)>,
    settings: PrepassSettings,
    visible: &Vec<VisibleDrawable>,
    skipped: &mut Vec<QueueSkip>,
) -> (phases: ViewPhases)
    requires
        old(pipelines).wf(),
        spec_meshes_interned(meshes@),
        cache_faithful(old(pipelines).entries@, old(registry).configs@, *pipeline, meshes@),
    ensures
        final(pipelines).wf(),
        cache_coherent(old(pipelines).entries@, old(registry).configs@, *pipeline)
            ==> cache_coherent(final(pipelines).entries@, final(registry).configs@, *pipeline),
        // Every cache entry still holds the specializer's genuine outcome.
        cache_faithful(final(pipelines).entries@, final(registry).configs@, *pipeline, meshes@),
        // The phases hold exactly what this view's drawables produced.
        spec_phase_sound(
            phases.opaque.items@,
            visible@,
            entities@,
            materials@,
            meshes@,
            final(pipelines).entries@,
            settings,
            msaa_samples,
            opaque_draw_function,
            false,
        ),
        spec_phase_sound(
            phases.alpha_mask.items@,
            visible@,
            entities@,
            materials@,
            meshes@,
            final(pipelines).entries@,
            settings,
            msaa_samples,
            alpha_mask_draw_function,
            true,
        ),
        // Each phase holds exactly one item per qualifying drawable, in
        // visible order, with the biased distance and the phase's draw
        // function: the projection of the items equals the expected list.
        spec_item_keys(phases.opaque.items@) == spec_expected_keys(
            visible@,
            entities@,
            materials@,
            meshes@,
            *pipeline,
            settings,
            msaa_samples,
            opaque_draw_function,
            false,
        ),
        spec_item_keys(phases.alpha_mask.items@) == spec_expected_keys(
            visible@,
            entities@,
            materials@,
            meshes@,
            *pipeline,
            settings,
            msaa_samples,
            alpha_mask_draw_function,
            true,
        ),
        // Success is owed: every visible drawable whose variant the
        // specializer derives stands in its phase; a failing one is
        // recorded with the specializer's own error.
        forall|d: int|
            0 <= d < visible@.len() ==> spec_drawable_accounted(
                #[trigger] visible@[d],
                phases.opaque.items@,
                phases.alpha_mask.items@,
                final(skipped)@,
                entities@,
                materials@,
                meshes@,
                *pipeline,
                settings,
                msaa_samples,
            ),
        final(skipped)@.len() >= old(skipped)@.len(),
        forall|x: int| 0 <= x < old(skipped)@.len() ==> final(skipped)@[x] == old(skipped)@[x],
        // Skip records arise only from genuine specialization failures.
        forall|x: int|
            old(skipped)@.len() <= x < final(skipped)@.len() ==> spec_skip_genuine(
                #[trigger] final(skipped)@[x],
                visible@,
                entities@,
                materials@,
                meshes@,
                *pipeline,
                settings,
                msaa_samples,
            ),
        // The registry only grows: previously queued configurations keep
        // their handles and contents.
        old(registry).configs@.is_prefix_of(final(registry).configs@),
        // Memoized outcomes never change: every lookup that succeeded before
        // still gives the same outcome.
        forall|kk: CacheKey|
            spec_lookup(old(pipelines).entries@, kk) is Some ==> #[trigger] spec_lookup(
                final(pipelines).entries@,
                kk,
            ) == spec_lookup(old(pipelines).entries@, kk),
{
    let mut opaque = RenderPhase::new();
    let mut alpha_mask = RenderPhase::new();
    let mut di: usize = 0;
    while di < visible.len()
        invariant
            di <= visible@.len(),
            pipelines.wf(),
            spec_meshes_interned(meshes@),
            cache_coherent(old(pipelines).entries@, old(registry).configs@, *pipeline)
                ==> cache_coherent(pipelines.entries@, registry.configs@, *pipeline),
            cache_faithful(pipelines.entries@, registry.configs@, *pipeline, meshes@),
            registry.configs@.len() >= old(registry).configs@.len(),
            forall|i: int|
                0 <= i < old(registry).configs@.len() ==> #[trigger] registry.configs@[i] == old(
                    registry,
                ).configs@[i],
            spec_phase_sound(
                opaque.items@,
                visible@,
                entities@,
                materials@,
                meshes@,
                pipelines.entries@,
                settings,
                msaa_samples,
                opaque_draw_function,
                false,
            ),
            spec_phase_sound(
                alpha_mask.items@,
                visible@,
                entities@,
                materials@,
                meshes@,
                pipelines.entries@,
                settings,
                msaa_samples,
                alpha_mask_draw_function,
                true,
            ),
            spec_item_keys(opaque.items@) == spec_expected_keys(
                visible@.take(di as int),
                entities@,
                materials@,
                meshes@,
                *pipeline,
                settings,
                msaa_samples,
                opaque_draw_function,
                false,
            ),
            spec_item_keys(alpha_mask.items@) == spec_expected_keys(
                visible@.take(di as int),
                entities@,
                materials@,
                meshes@,
                *pipeline,
                settings,
                msaa_samples,
                alpha_mask_draw_function,
                true,
            ),
            forall|d: int|
                0 <= d < di ==> spec_drawable_accounted(
                    #[trigger] visible@[d],
                    opaque.items@,
                    alpha_mask.items@,
                    skipped@,
                    entities@,
                    materials@,
                    meshes@,
                    *pipeline,
                    settings,
                    msaa_samples,
                ),
            skipped@.len() >= old(skipped)@.len(),
            forall|x: int| 0 <= x < old(skipped)@.len() ==> skipped@[x] == old(skipped)@[x],
            forall|x: int|
                old(skipped)@.len() <= x < skipped@.len() ==> spec_skip_genuine(
                    #[trigger] skipped@[x],
                    visible@,
                    entities@,
                    materials@,
                    meshes@,
                    *pipeline,
                    settings,
                    msaa_samples,
                ),
            forall|kk: CacheKey|
                spec_lookup(old(pipelines).entries@, kk) is Some ==> #[trigger] spec_lookup(
                    pipelines.entries@,
                    kk,
                ) == spec_lookup(old(pipelines).entries@, kk),
        decreases visible@.len() - di,
    {
        let ghost opaque0 = opaque.items@;
        let ghost alpha0 = alpha_mask.items@;
        let ghost skipped0 = skipped@;
        let vd = visible[di];
        let info = match assoc_entity(entities, vd.entity) {
            Some(info) => info,
            None => {
                proof {
                    lemma_take_step(visible@, di as int);
                }
                di += 1;
                continue ;
            },
        };
        let mat = match assoc_material(materials, info.material) {
            Some(mat) => mat,
            None => {
                proof {
                    lemma_take_step(visible@, di as int);
                }
                di += 1;
                continue ;
            },
        };
        let mesh = match assoc_mesh(meshes, info.mesh) {
            Some(mesh) => mesh,
            None => {
                proof {
                    lemma_take_step(visible@, di as int);
                }
                di += 1;
                continue ;
            },
        };
        if mat.alpha_mode == AlphaMode::Blend {
            proof {
                lemma_take_step(visible@, di as int);
            }
            di += 1;
            continue ;
        }
        let masked = match mat.alpha_mode {
            AlphaMode::Mask => true,
            _ => false,
        };
        let view_key = PrepassKey::view_key(settings.output_normals, msaa_samples);
        let mesh_key = view_key.with_topology(mesh.topology);
        let mesh_key = if masked {
            mesh_key.with_alpha_mask()
        } else {
            mesh_key
        };
        let key = CacheKey {
            mesh_key,
            material_subkey: mat.subkey,
            layout_id: mesh.layout_id,
        };
        assert(key == spec_drawable_key(settings, msaa_samples, mat, *mesh));
        let ghost entries0 = pipelines.entries@;
        let ghost configs0 = registry.configs@;
        let outcome = pipelines.get_or_specialize(registry, pipeline, &key, &mesh.layout);
        proof {
            lemma_lookups_preserved(entries0, pipelines.entries@, key, outcome);
            assert forall|i: int| 0 <= i < configs0.len() implies #[trigger] registry.configs@[i]
                == configs0[i] by {
                if registry.configs@.len() > configs0.len() {
                    assert(registry.configs@.drop_last() =~= registry.configs@.subrange(
                        0,
                        configs0.len() as int,
                    ));
                    assert(registry.configs@.drop_last()[i] == registry.configs@[i]);
                }
            }
            lemma_assoc_mesh_member(meshes@, info.mesh, *mesh);
            let m_self = choose|m2: int|
                0 <= m2 < meshes@.len() && #[trigger] meshes@[m2] == (info.mesh, *mesh);

            // The outcome is the specializer's genuine one for this mesh's
            // layout: on a miss by the cache's own contract, on a hit by the
            // cache's faithfulness to the interned layouts.
            if spec_lookup(entries0, key) is Some {
                crate::cache::lemma_cache_lookup_member(entries0, key, outcome);
                let e = choose|e: int|
                    0 <= e < entries0.len() && #[trigger] entries0[e] == (key, outcome);
                assert(meshes@[m_self].1.layout_id == entries0[e].0.layout_id);
            }
            assert(spec_outcome_genuine(
                *pipeline,
                key,
                mesh.layout.attrs@,
                outcome,
                registry.configs@,
            ));

            // The cache stays faithful: old entries keep their registered
            // configurations, and the new entry's outcome is genuine for
            // every mesh that shares its layout identity.
            assert forall|e: int, m: int|
                0 <= e < pipelines.entries@.len() && 0 <= m < meshes@.len() && (
                #[trigger] meshes@[m]).1.layout_id == (
            #[trigger] pipelines.entries@[e]).0.layout_id implies spec_outcome_genuine(
                *pipeline,
                pipelines.entries@[e].0,
                meshes@[m].1.layout.attrs@,
                pipelines.entries@[e].1,
                registry.configs@,
            ) by {
                if e < entries0.len() {
                    assert(pipelines.entries@[e] == entries0[e]);
                    match entries0[e].1 {
                        Ok(id) => {
                            assert(registry.configs@[id.0 as int] == configs0[id.0 as int]);
                        },
                        Err(_) => {},
                    }
                } else {
                    assert(pipelines.entries@[e] == (key, outcome));
                    assert(meshes@[m].1.layout.attrs@ == meshes@[m_self].1.layout.attrs@);
                }
            }
        }
        match outcome {
            Ok(id) => {
                let item = PhaseItem {
                    entity: vd.entity,
                    draw_function: if masked {
                        alpha_mask_draw_function
                    } else {
                        opaque_draw_function
                    },
                    pipeline: id,
                    distance: biased_distance(vd.distance, mat.depth_bias),
                };
                if masked {
                    alpha_mask.add(item);
                } else {
                    opaque.add(item);
                }
            },
            Err(error) => {
                skipped.push(QueueSkip { entity: vd.entity, key, error });
            },
        }
        proof {
            let entries1 = pipelines.entries@;
            assert forall|kk: CacheKey|
                spec_lookup(old(pipelines).entries@, kk) is Some implies #[trigger] spec_lookup(
                entries1,
                kk,
            ) == spec_lookup(old(pipelines).entries@, kk) by {
                assert(spec_lookup(entries0, kk) == spec_lookup(old(pipelines).entries@, kk));
            }
            assert(spec_lookup(entries1, key) == Some(outcome));
            assert(spec_material_of(entities@, materials@, vd.entity) == Some(mat));
            assert(spec_mesh_of(entities@, meshes@, vd.entity) == Some(*mesh));

            // The drawable of this iteration is decisively accounted: the
            // outcome being genuine, it was queued exactly when the
            // specializer derives its variant, else recorded with the
            // specializer's own error.
            match outcome {
                Ok(id) => {
                    assert(pipeline.spec_specialize(key, mesh.layout.attrs@) is Ok);
                    if masked {
                        assert(alpha_mask.items@[alpha0.len() as int].entity == vd.entity);
                    } else {
                        assert(opaque.items@[opaque0.len() as int].entity == vd.entity);
                    }
                },
                Err(error) => {
                    assert(pipeline.spec_specialize(key, mesh.layout.attrs@) == Err::<
                        crate::config::ConfigModel,
                        ConfigError,
                    >(error));
                    assert(skipped@[skipped0.len() as int] == (QueueSkip {
                        entity: vd.entity,
                        key,
                        error,
                    }));
                    assert(spec_skip_recorded(vd.entity, key, error, skipped@));
                },
            }
            assert(spec_drawable_accounted(
                vd,
                opaque.items@,
                alpha_mask.items@,
                skipped@,
                entities@,
                materials@,
                meshes@,
                *pipeline,
                settings,
                msaa_samples,
            ));

            // The projections advance by exactly this drawable's entry (or
            // not at all, on failure).
            lemma_take_step(visible@, di as int);
            assert(opaque.items@ == opaque0 || opaque.items@.drop_last() =~= opaque0);
            assert(alpha_mask.items@ == alpha0 || alpha_mask.items@.drop_last() =~= alpha0);
            assert(spec_item_keys(opaque.items@) == spec_expected_keys(
                visible@.take(di + 1),
                entities@,
                materials@,
                meshes@,
                *pipeline,
                settings,
                msaa_samples,
                opaque_draw_function,
                false,
            ));
            assert(spec_item_keys(alpha_mask.items@) == spec_expected_keys(
                visible@.take(di + 1),
                entities@,
                materials@,
                meshes@,
                *pipeline,
                settings,
                msaa_samples,
                alpha_mask_draw_function,
                true,
            ));

            // A record appended this iteration is genuine; earlier records
            // keep their values.
            assert forall|x: int|
                old(skipped)@.len() <= x < skipped@.len() implies spec_skip_genuine(
                #[trigger] skipped@[x],
                visible@,
                entities@,
                materials@,
                meshes@,
                *pipeline,
                settings,
                msaa_samples,
            ) by {
                if x < skipped0.len() {
                    assert(skipped@[x] == skipped0[x]);
                } else {
                    assert(visible@[di as int] == vd);
                    assert(spec_skip_genuine(
                        skipped@[x],
                        visible@,
                        entities@,
                        materials@,
                        meshes@,
                        *pipeline,
                        settings,
                        msaa_samples,
                    ));
                }
            }

            // Everything established for earlier drawables carries over:
            // the phases and the skip list only grew.
            assert forall|d: int| 0 <= d < di implies spec_drawable_accounted(
                #[trigger] visible@[d],
                opaque.items@,
                alpha_mask.items@,
                skipped@,
                entities@,
                materials@,
                meshes@,
                *pipeline,
                settings,
                msaa_samples,
            ) by {
                let vd_d = visible@[d];
                match (
                    spec_material_of(entities@, materials@, vd_d.entity),
                    spec_mesh_of(entities@, meshes@, vd_d.entity),
                ) {
                    (Some(mat_d), Some(mesh_d)) => {
                        if !(mat_d.alpha_mode is Blend) {
                            let key_d = spec_drawable_key(settings, msaa_samples, mat_d, mesh_d);
                            let items0 = if mat_d.alpha_mode is Mask {
                                alpha0
                            } else {
                                opaque0
                            };
                            let items1 = if mat_d.alpha_mode is Mask {
                                alpha_mask.items@
                            } else {
                                opaque.items@
                            };
                            match pipeline.spec_specialize(key_d, mesh_d.layout.attrs@) {
                                Ok(_) => {
                                    let x = choose|x: int|
                                        0 <= x < items0.len() && (#[trigger] items0[x]).entity
                                            == vd_d.entity;
                                    assert(items1[x] == items0[x]);
                                    assert(spec_entity_queued(vd_d.entity, items1));
                                },
                                Err(er) => {
                                    let x = choose|x: int|
                                        0 <= x < skipped0.len() && #[trigger] skipped0[x] == (
                                        QueueSkip { entity: vd_d.entity, key: key_d, error: er });
                                    assert(skipped@[x] == skipped0[x]);
                                    assert(spec_skip_recorded(vd_d.entity, key_d, er, skipped@));
                                },
                            }
                        }
                    },
                    _ => {},
                }
            }

            // Phase soundness carries over likewise, and holds of the new
            // item by construction.
            assert forall|x: int| 0 <= x < opaque.items@.len() implies #[trigger] spec_item_sound(
                opaque.items@,
                x,
                visible@,
                entities@,
                materials@,
                meshes@,
                entries1,
                settings,
                msaa_samples,
                opaque_draw_function,
                false,
            ) by {
                if x < opaque0.len() {
                    assert(opaque.items@[x] == opaque0[x]);
                    assert(spec_item_sound(
                        opaque0,
                        x,
                        visible@,
                        entities@,
                        materials@,
                        meshes@,
                        entries0,
                        settings,
                        msaa_samples,
                        opaque_draw_function,
                        false,
                    ));
                    let d = choose|d: int|
                        0 <= d < visible@.len() && spec_item_from_drawable(
                            opaque0[x],
                            visible@[d],
                            entities@,
                            materials@,
                            meshes@,
                            entries0,
                            settings,
                            msaa_samples,
                            opaque_draw_function,
                            false,
                        );
                    assert(spec_item_from_drawable(
                        opaque.items@[x],
                        visible@[d],
                        entities@,
                        materials@,
                        meshes@,
                        entries1,
                        settings,
                        msaa_samples,
                        opaque_draw_function,
                        false,
                    ));
                } else {
                    assert(spec_item_from_drawable(
                        opaque.items@[x],
                        visible@[di as int],
                        entities@,
                        materials@,
                        meshes@,
                        entries1,
                        settings,
                        msaa_samples,
                        opaque_draw_function,
                        false,
                    ));
                }
            }
            assert forall|x: int| 0 <= x < alpha_mask.items@.len() implies #[trigger] spec_item_sound(
                alpha_mask.items@,
                x,
                visible@,
                entities@,
                materials@,
                meshes@,
                entries1,
                settings,
                msaa_samples,
                alpha_mask_draw_function,
                true,
            ) by {
                if x < alpha0.len() {
                    assert(alpha_mask.items@[x] == alpha0[x]);
                    assert(spec_item_sound(
                        alpha0,
                        x,
                        visible@,
                        entities@,
                        materials@,
                        meshes@,
                        entries0,
                        settings,
                        msaa_samples,
                        alpha_mask_draw_function,
                        true,
                    ));
                    let d = choose|d: int|
                        0 <= d < visible@.len() && spec_item_from_drawable(
                            alpha0[x],
                            visible@[d],
                            entities@,
                            materials@,
                            meshes@,
                            entries0,
                            settings,
                            msaa_samples,
                            alpha_mask_draw_function,
                            true,
                        );
                    assert(spec_item_from_drawable(
                        alpha_mask.items@[x],
                        visible@[d],
                        entities@,
                        materials@,
                        meshes@,
                        entries1,
                        settings,
                        msaa_samples,
                        alpha_mask_draw_function,
                        true,
                    ));
                } else {
                    assert(spec_item_from_drawable(
                        alpha_mask.items@[x],
                        visible@[di as int],
                        entities@,
                        materials@,
                        meshes@,
                        entries1,
                        settings,
                        msaa_samples,
                        alpha_mask_draw_function,
                        true,
                    ));
                }
            }
        }
        di += 1;
    }
    proof {
        assert(old(registry).configs@ =~= registry.configs@.subrange(
            0,
            old(registry).configs@.len() as int,
        ));
        assert(visible@.take(visible@.len() as int) =~= visible@);
    }
    ViewPhases { opaque, alpha_mask }
}

/// One step of a prefix: taking one more element appends it.
proof fn lemma_take_step(s: Seq<VisibleDrawable>, i: int)
    requires
        0 <= i < s.len(),
    ensures
        s.take(i + 1).drop_last() =~= s.take(i),
        s.take(i + 1).last() == s[i],
{
}

/// A mesh found by handle lookup is an entry of the asset list.
proof fn lemma_assoc_mesh_member(s: Seq<(MeshHandle, MeshAsset)>, k: MeshHandle, m: MeshAsset)
    requires
        spec_assoc_mesh(s, k) == Some(m),
    ensures
        exists|i: int| 0 <= i < s.len() && #[trigger] s[i] == (k, m),
    decreases s.len(),
{
    if s[0].0 == k {
        assert(s[0] == (k, m));
    } else {
        lemma_assoc_mesh_member(s.drop_first(), k, m);
        let i = choose|i: int|
            0 <= i < s.drop_first().len() && #[trigger] s.drop_first()[i] == (k, m);
        assert(s[i + 1] == (k, m));
    }
}

/// Queues the visible drawables of every view: the queue stage over the
/// whole frame. `settings` and `visible` run in parallel, one entry per
/// view; the returned phases do too. Each view's phases are filled by that
/// view's own queuing alone and are unsorted: the sort stage follows.
pub fn queue_prepass_material_meshes<M: Material>(
    opaque_draw_function: DrawFunctionId,
    alpha_mask_draw_function: DrawFunctionId,
    pipeline: &PrepassPipeline<M>,
    pipelines: &mut SpecializedPipelines,
    registry: &mut PipelineRegistry,
    msaa_samples: u32,
    meshes: &Vec<(MeshHandle, MeshAsset)>,
    materials: &Vec<(MaterialHandle, PreparedMaterial)>,
    entities: &Vec<(EntityId, DrawableInfo)>,
    settings: &Vec<PrepassSettings>,
    visible: &Vec<Vec<VisibleDrawable>>,
    skipped: &mut Vec<QueueSkip>,
) -> (phases: Vec<ViewPhases>)
    requires
        old(pipelines).wf(),
        settings@.len() == visible@.len(),
        spec_meshes_interned(meshes@),
        cache_faithful(old(pipelines).entries@, old(registry).configs@, *pipeline, meshes@),
    ensures
        final(pipelines).wf(),
        phases@.len() == visible@.len(),
        cache_coherent(old(pipelines).entries@, old(registry).configs@, *pipeline)
            ==> cache_coherent(final(pipelines).entries@, final(registry).configs@, *pipeline),
        cache_faithful(final(pipelines).entries@, final(registry).configs@, *pipeline, meshes@),
        // The registry only grows: previously queued configurations keep
        // their handles and contents.
        old(registry).configs@.is_prefix_of(final(registry).configs@),
        final(skipped)@.len() >= old(skipped)@.len(),
        forall|x: int| 0 <= x < old(skipped)@.len() ==> final(skipped)@[x] == old(skipped)@[x],
        // Skip records arise only from genuine specialization failures of
        // some view's drawable.
        forall|x: int|
            old(skipped)@.len() <= x < final(skipped)@.len()
                ==> spec_skip_genuine_for_view(
                #[trigger] final(skipped)@[x],
                visible@.len() as int,
                visible@,
                settings@,
                entities@,
                materials@,
                meshes@,
                *pipeline,
                msaa_samples,
            ),
        // Each view's phases hold exactly one item per qualifying drawable
        // of that view, in visible order.
        forall|j: int|
            0 <= j < visible@.len() ==> spec_item_keys(
                (#[trigger] phases@[j]).opaque.items@,
            ) == spec_expected_keys(
                visible@[j]@,
                entities@,
                materials@,
                meshes@,
                *pipeline,
                settings@[j],
                msaa_samples,
                opaque_draw_function,
                false,
            ) && spec_item_keys(phases@[j].alpha_mask.items@) == spec_expected_keys(
                visible@[j]@,
                entities@,
                materials@,
                meshes@,
                *pipeline,
                settings@[j],
                msaa_samples,
                alpha_mask_draw_function,
                true,
            ),
        // Each view's phases hold exactly what that view's own drawables
        // produced, and each of its drawables is decisively accounted for.
        forall|j: int|
            0 <= j < visible@.len() ==> spec_phase_sound(
                (#[trigger] phases@[j]).opaque.items@,
                visible@[j]@,
                entities@,
                materials@,
                meshes@,
                final(pipelines).entries@,
                settings@[j],
                msaa_samples,
                opaque_draw_function,
                false,
            ) && spec_phase_sound(
                phases@[j].alpha_mask.items@,
                visible@[j]@,
                entities@,
                materials@,
                meshes@,
                final(pipelines).entries@,
                settings@[j],
                msaa_samples,
                alpha_mask_draw_function,
                true,
            ),
        forall|j: int, d: int|
            0 <= j < visible@.len() && 0 <= d < visible@[j]@.len() ==> spec_drawable_accounted(
                #[trigger] visible@[j]@[d],
                (#[trigger] phases@[j]).opaque.items@,
                phases@[j].alpha_mask.items@,
                final(skipped)@,
                entities@,
                materials@,
                meshes@,
                *pipeline,
                settings@[j],
                msaa_samples,
            ),
{
    let mut phases: Vec<ViewPhases> = Vec::new();
    let mut k: usize = 0;
    while k < visible.len()
        invariant
            k <= visible@.len(),
            settings@.len() == visible@.len(),
            phases@.len() == k,
            pipelines.wf(),
            spec_meshes_interned(meshes@),
            cache_coherent(old(pipelines).entries@, old(registry).configs@, *pipeline)
                ==> cache_coherent(pipelines.entries@, registry.configs@, *pipeline),
            cache_faithful(pipelines.entries@, registry.configs@, *pipeline, meshes@),
            registry.configs@.len() >= old(registry).configs@.len(),
            forall|i: int|
                0 <= i < old(registry).configs@.len() ==> #[trigger] registry.configs@[i] == old(
                    registry,
                ).configs@[i],
            skipped@.len() >= old(skipped)@.len(),
            forall|x: int| 0 <= x < old(skipped)@.len() ==> skipped@[x] == old(skipped)@[x],
            forall|x: int|
                old(skipped)@.len() <= x < skipped@.len() ==> spec_skip_genuine_for_view(
                    #[trigger] skipped@[x],
                    k as int,
                    visible@,
                    settings@,
                    entities@,
                    materials@,
                    meshes@,
                    *pipeline,
                    msaa_samples,
                ),
            forall|j: int|
                0 <= j < k ==> spec_item_keys(
                    (#[trigger] phases@[j]).opaque.items@,
                ) == spec_expected_keys(
                    visible@[j]@,
                    entities@,
                    materials@,
                    meshes@,
                    *pipeline,
                    settings@[j],
                    msaa_samples,
                    opaque_draw_function,
                    false,
                ) && spec_item_keys(phases@[j].alpha_mask.items@) == spec_expected_keys(
                    visible@[j]@,
                    entities@,
                    materials@,
                    meshes@,
                    *pipeline,
                    settings@[j],
                    msaa_samples,
                    alpha_mask_draw_function,
                    true,
                ),
            forall|j: int|
                0 <= j < k ==> spec_phase_sound(
                    (#[trigger] phases@[j]).opaque.items@,
                    visible@[j]@,
                    entities@,
                    materials@,
                    meshes@,
                    pipelines.entries@,
                    settings@[j],
                    msaa_samples,
                    opaque_draw_function,
                    false,
                ) && spec_phase_sound(
                    phases@[j].alpha_mask.items@,
                    visible@[j]@,
                    entities@,
                    materials@,
                    meshes@,
                    pipelines.entries@,
                    settings@[j],
                    msaa_samples,
                    alpha_mask_draw_function,
                    true,
                ),
            forall|j: int, d: int|
                0 <= j < k && 0 <= d < visible@[j]@.len() ==> spec_drawable_accounted(
                    #[trigger] visible@[j]@[d],
                    (#[trigger] phases@[j]).opaque.items@,
                    phases@[j].alpha_mask.items@,
                    skipped@,
                    entities@,
                    materials@,
                    meshes@,
                    *pipeline,
                    settings@[j],
                    msaa_samples,
                ),
        decreases visible@.len() - k,
    {
        let ghost entries_before = pipelines.entries@;
        let ghost configs_before = registry.configs@;
        let ghost skipped_before = skipped@;
        let ghost phases_before = phases@;
        let view_phases = queue_prepass_view(
            opaque_draw_function,
            alpha_mask_draw_function,
            pipeline,
            pipelines,
            registry,
            msaa_samples,
            meshes,
            materials,
            entities,
            settings[k],
            &visible[k],
            skipped,
        );
        phases.push(view_phases);
        proof {
            let entries_now = pipelines.entries@;

            // The registry kept its earlier configurations.
            assert(configs_before =~= registry.configs@.subrange(
                0,
                configs_before.len() as int,
            ));
            assert forall|i: int|
                0 <= i < old(registry).configs@.len() implies #[trigger] registry.configs@[i]
                == old(registry).configs@[i] by {
                assert(registry.configs@[i] == configs_before[i]);
            }

            // Records of this view are genuine for it; earlier records keep
            // their views.
            assert forall|x: int|
                old(skipped)@.len() <= x < skipped@.len() implies spec_skip_genuine_for_view(
                #[trigger] skipped@[x],
                k + 1 as int,
                visible@,
                settings@,
                entities@,
                materials@,
                meshes@,
                *pipeline,
                msaa_samples,
            ) by {
                if x < skipped_before.len() {
                    assert(skipped@[x] == skipped_before[x]);
                    lemma_skip_genuine_widen(
                        skipped@[x],
                        k as int,
                        k + 1 as int,
                        visible@,
                        settings@,
                        entities@,
                        materials@,
                        meshes@,
                        *pipeline,
                        msaa_samples,
                    );
                } else {
                    assert(spec_skip_genuine(
                        skipped@[x],
                        visible@[k as int]@,
                        entities@,
                        materials@,
                        meshes@,
                        *pipeline,
                        settings@[k as int],
                        msaa_samples,
                    ));
                }
            }

            assert forall|j: int| 0 <= j < k + 1 implies spec_item_keys(
                (#[trigger] phases@[j]).opaque.items@,
            ) == spec_expected_keys(
                visible@[j]@,
                entities@,
                materials@,
                meshes@,
                *pipeline,
                settings@[j],
                msaa_samples,
                opaque_draw_function,
                false,
            ) && spec_item_keys(phases@[j].alpha_mask.items@) == spec_expected_keys(
                visible@[j]@,
                entities@,
                materials@,
                meshes@,
                *pipeline,
                settings@[j],
                msaa_samples,
                alpha_mask_draw_function,
                true,
            ) by {
                if j < k {
                    assert(phases@[j] == phases_before[j]);
                } else {
                    assert(phases@[j] == view_phases);
                }
            }
            assert forall|j: int| 0 <= j < k + 1 implies spec_phase_sound(
                (#[trigger] phases@[j]).opaque.items@,
                visible@[j]@,
                entities@,
                materials@,
                meshes@,
                entries_now,
                settings@[j],
                msaa_samples,
                opaque_draw_function,
                false,
            ) && spec_phase_sound(
                phases@[j].alpha_mask.items@,
                visible@[j]@,
                entities@,
                materials@,
                meshes@,
                entries_now,
                settings@[j],
                msaa_samples,
                alpha_mask_draw_function,
                true,
            ) by {
                if j < k {
                    assert(phases@[j] == phases_before[j]);
                    lemma_phase_sound_monotonic(
                        phases_before[j].opaque.items@,
                        visible@[j]@,
                        entities@,
                        materials@,
                        meshes@,
                        entries_before,
                        entries_now,
                        settings@[j],
                        msaa_samples,
                        opaque_draw_function,
                        false,
                    );
                    lemma_phase_sound_monotonic(
                        phases_before[j].alpha_mask.items@,
                        visible@[j]@,
                        entities@,
                        materials@,
                        meshes@,
                        entries_before,
                        entries_now,
                        settings@[j],
                        msaa_samples,
                        alpha_mask_draw_function,
                        true,
                    );
                } else {
                    assert(phases@[j] == view_phases);
                }
            }
            assert forall|j: int, d: int|
                0 <= j < k + 1 && 0 <= d < visible@[j]@.len() implies spec_drawable_accounted(
                #[trigger] visible@[j]@[d],
                (#[trigger] phases@[j]).opaque.items@,
                phases@[j].alpha_mask.items@,
                skipped@,
                entities@,
                materials@,
                meshes@,
                *pipeline,
                settings@[j],
                msaa_samples,
            ) by {
                if j < k {
                    assert(phases@[j] == phases_before[j]);
                    lemma_accounted_monotonic(
                        visible@[j]@[d],
                        phases_before[j].opaque.items@,
                        phases_before[j].alpha_mask.items@,
                        skipped_before,
                        skipped@,
                        entities@,
                        materials@,
                        meshes@,
                        *pipeline,
                        settings@[j],
                        msaa_samples,
                    );
                } else {
                    assert(phases@[j] == view_phases);
                }
            }
        }
        k += 1;
    }
    proof {
        assert(old(registry).configs@ =~= registry.configs@.subrange(
            0,
            old(registry).configs@.len() as int,
        ));
    }
    phases
}

/// Phase soundness survives reordering: it speaks of the items, not of
/// their positions.
pub proof fn lemma_phase_sound_permutation(
    items1: Seq<PhaseItem>,
    items2: Seq<PhaseItem>,
    visible: Seq<VisibleDrawable>,
    entities: Seq<(EntityId, DrawableInfo)>,
    materials: Seq<(MaterialHandle, PreparedMaterial)>,
    meshes: Seq<(MeshHandle, MeshAsset)>,
    cache_entries: Seq<CacheEntry>,
    settings: PrepassSettings,
    msaa_samples: u32,
    draw_function: DrawFunctionId,
    masked: bool,
)
    requires
        items1.to_multiset() == items2.to_multiset(),
        spec_phase_sound(
            items1,
            visible,
            entities,
            materials,
            meshes,
            cache_entries,
            settings,
            msaa_samples,
            draw_function,
            masked,
        ),
    ensures
        spec_phase_sound(
            items2,
            visible,
            entities,
            materials,
            meshes,
            cache_entries,
            settings,
            msaa_samples,
            draw_function,
            masked,
        ),
{
    broadcast use vstd::seq_lib::group_to_multiset_ensures;

    assert forall|x: int| 0 <= x < items2.len() implies #[trigger] spec_item_sound(
        items2,
        x,
        visible,
        entities,
        materials,
        meshes,
        cache_entries,
        settings,
        msaa_samples,
        draw_function,
        masked,
    ) by {
        assert(items2.contains(items2[x]));
        assert(items2.to_multiset().count(items2[x]) > 0);
        assert(items1.to_multiset().count(items2[x]) > 0);
        assert(items1.contains(items2[x]));
        let y = choose|y: int| 0 <= y < items1.len() && items1[y] == items2[x];
        assert(spec_item_sound(
            items1,
            y,
            visible,
            entities,
            materials,
            meshes,
            cache_entries,
            settings,
            msaa_samples,
            draw_function,
            masked,
        ));
        let d = choose|d: int|
            0 <= d < visible.len() && spec_item_from_drawable(
                items1[y],
                #[trigger] visible[d],
                entities,
                materials,
                meshes,
                cache_entries,
                settings,
                msaa_samples,
                draw_function,
                masked,
            );
        assert(spec_item_from_drawable(
            items2[x],
            visible[d],
            entities,
            materials,
            meshes,
            cache_entries,
            settings,
            msaa_samples,
            draw_function,
            masked,
        ));
    }
}

/// Whether an entity has an item in a phase survives reordering too.
pub proof fn lemma_entity_queued_permutation(
    entity: EntityId,
    items1: Seq<PhaseItem>,
    items2: Seq<PhaseItem>,
)
    requires
        items1.to_multiset() == items2.to_multiset(),
        spec_entity_queued(entity, items1),
    ensures
        spec_entity_queued(entity, items2),
{
    broadcast use vstd::seq_lib::group_to_multiset_ensures;

    let x = choose|x: int| 0 <= x < items1.len() && (#[trigger] items1[x]).entity == entity;
    assert(items1.contains(items1[x]));
    assert(items1.to_multiset().count(items1[x]) > 0);
    assert(items2.to_multiset().count(items1[x]) > 0);
    assert(items2.contains(items1[x]));
    let y = choose|y: int| 0 <= y < items2.len() && items2[y] == items1[x];
    assert(items2[y].entity == entity);
}

/// A drawable stays accounted when both phases are reordered.
pub proof fn lemma_accounted_permutation<M: Material>(
    vd: VisibleDrawable,
    opaque1: Seq<PhaseItem>,
    opaque2: Seq<PhaseItem>,
    alpha1: Seq<PhaseItem>,
    alpha2: Seq<PhaseItem>,
    skipped: Seq<QueueSkip>,
    entities: Seq<(EntityId, DrawableInfo)>,
    materials: Seq<(MaterialHandle, PreparedMaterial)>,
    meshes: Seq<(MeshHandle, MeshAsset)>,
    pipeline: PrepassPipeline<M>,
    settings: PrepassSettings,
    msaa_samples: u32,
)
    requires
        opaque1.to_multiset() == opaque2.to_multiset(),
        alpha1.to_multiset() == alpha2.to_multiset(),
        spec_drawable_accounted(
            vd,
            opaque1,
            alpha1,
            skipped,
            entities,
            materials,
            meshes,
            pipeline,
            settings,
            msaa_samples,
        ),
    ensures
        spec_drawable_accounted(
            vd,
            opaque2,
            alpha2,
            skipped,
            entities,
            materials,
            meshes,
            pipeline,
            settings,
            msaa_samples,
        ),
{
    match (
        spec_material_of(entities, materials, vd.entity),
        spec_mesh_of(entities, meshes, vd.entity),
    ) {
        (Some(mat), Some(mesh)) => {
            if mat.alpha_mode is Mask && spec_entity_queued(vd.entity, alpha1) {
                lemma_entity_queued_permutation(vd.entity, alpha1, alpha2);
            }
            if mat.alpha_mode is Opaque && spec_entity_queued(vd.entity, opaque1) {
                lemma_entity_queued_permutation(vd.entity, opaque1, opaque2);
            }
        },
        _ => {},
    }
}

/// Phase soundness survives later cache growth: memoized outcomes never
/// change.
proof fn lemma_phase_sound_monotonic(
    items: Seq<PhaseItem>,
    visible: Seq<VisibleDrawable>,
    entities: Seq<(EntityId, DrawableInfo)>,
    materials: Seq<(MaterialHandle, PreparedMaterial)>,
    meshes: Seq<(MeshHandle, MeshAsset)>,
    entries_before: Seq<CacheEntry>,
    entries_now: Seq<CacheEntry>,
    settings: PrepassSettings,
    msaa_samples: u32,
    draw_function: DrawFunctionId,
    masked: bool,
)
    requires
        spec_phase_sound(
            items,
            visible,
            entities,
            materials,
            meshes,
            entries_before,
            settings,
            msaa_samples,
            draw_function,
            masked,
        ),
        forall|kk: CacheKey|
            spec_lookup(entries_before, kk) is Some ==> #[trigger] spec_lookup(entries_now, kk)
                == spec_lookup(entries_before, kk),
    ensures
        spec_phase_sound(
            items,
            visible,
            entities,
            materials,
            meshes,
            entries_now,
            settings,
            msaa_samples,
            draw_function,
            masked,
        ),
{
    assert forall|x: int| 0 <= x < items.len() implies #[trigger] spec_item_sound(
        items,
        x,
        visible,
        entities,
        materials,
        meshes,
        entries_now,
        settings,
        msaa_samples,
        draw_function,
        masked,
    ) by {
        assert(spec_item_sound(
            items,
            x,
            visible,
            entities,
            materials,
            meshes,
            entries_before,
            settings,
            msaa_samples,
            draw_function,
            masked,
        ));
        let d = choose|d: int|
            0 <= d < visible.len() && spec_item_from_drawable(
                items[x],
                #[trigger] visible[d],
                entities,
                materials,
                meshes,
                entries_before,
                settings,
                msaa_samples,
                draw_function,
                masked,
            );
        assert(spec_item_from_drawable(
            items[x],
            visible[d],
            entities,
            materials,
            meshes,
            entries_now,
            settings,
            msaa_samples,
            draw_function,
            masked,
        ));
    }
}

/// A drawable stays accounted when the skip list grows by appending: both
/// arms of the accounting speak of values, not positions.
proof fn lemma_accounted_monotonic<M: Material>(
    vd: VisibleDrawable,
    opaque_items: Seq<PhaseItem>,
    alpha_items: Seq<PhaseItem>,
    skipped_before: Seq<QueueSkip>,
    skipped_now: Seq<QueueSkip>,
    entities: Seq<(EntityId, DrawableInfo)>,
    materials: Seq<(MaterialHandle, PreparedMaterial)>,
    meshes: Seq<(MeshHandle, MeshAsset)>,
    pipeline: PrepassPipeline<M>,
    settings: PrepassSettings,
    msaa_samples: u32,
)
    requires
        spec_drawable_accounted(
            vd,
            opaque_items,
            alpha_items,
            skipped_before,
            entities,
            materials,
            meshes,
            pipeline,
            settings,
            msaa_samples,
        ),
        skipped_now.len() >= skipped_before.len(),
        forall|x: int| 0 <= x < skipped_before.len() ==> skipped_now[x] == skipped_before[x],
    ensures
        spec_drawable_accounted(
            vd,
            opaque_items,
            alpha_items,
            skipped_now,
            entities,
            materials,
            meshes,
            pipeline,
            settings,
            msaa_samples,
        ),
{
    match (
        spec_material_of(entities, materials, vd.entity),
        spec_mesh_of(entities, meshes, vd.entity),
    ) {
        (Some(mat), Some(mesh)) => {
            if !(mat.alpha_mode is Blend) {
                let key = spec_drawable_key(settings, msaa_samples, mat, mesh);
                match pipeline.spec_specialize(key, mesh.layout.attrs@) {
                    Ok(_) => {},
                    Err(er) => {
                        let x = choose|x: int|
                            0 <= x < skipped_before.len() && #[trigger] skipped_before[x] == (
                            QueueSkip { entity: vd.entity, key, error: er });
                        assert(skipped_now[x] == skipped_before[x]);
                        assert(spec_skip_recorded(vd.entity, key, er, skipped_now));
                    },
                }
            }
        },
        _ => {},
    }
}

/// The define list of a queued item's pipeline follows its key: for a
/// material whose hook keeps the derived configuration unchanged, the
/// configuration a memoized handle names carries the alpha-mask define
/// exactly when the key is masked, and the normals define exactly when the
/// key requests normals. With phase soundness this says a masked drawable's
/// resolved configuration always carries the alpha-mask define and an opaque
/// drawable's never does.
pub proof fn lemma_queued_pipeline_defines<M: Material>(
    entries: Seq<CacheEntry>,
    configs: Seq<crate::config::PipelineConfig>,
    pipeline: PrepassPipeline<M>,
    key: CacheKey,
    id: crate::ids::PipelineId,
)
    requires
        cache_coherent(entries, configs, pipeline),
        spec_lookup(entries, key) == Some(Ok::<_, ConfigError>(id)),
        forall|m: crate::config::ConfigModel, k: CacheKey|
            pipeline.material.hook_spec(m, k) == Ok::<crate::config::ConfigModel, ConfigError>(m),
    ensures
        id.0 < configs.len(),
        configs[id.0 as int]@.vertex.defs.contains(crate::config::ShaderDef::AlphaMask)
            <==> key.mesh_key.alpha_mask,
        configs[id.0 as int]@.vertex.defs.contains(crate::config::ShaderDef::PrepassNormals)
            <==> key.mesh_key.normals,
        configs[id.0 as int]@.multisample.count == key.mesh_key.msaa_samples,
        configs[id.0 as int]@.primitive.topology == key.mesh_key.topology,
{
    crate::cache::lemma_cache_lookup_member(entries, key, Ok(id));
    let e = choose|e: int|
        0 <= e < entries.len() && #[trigger] entries[e] == (
            key,
            Ok::<crate::ids::PipelineId, ConfigError>(id),
        );
    let attrs = choose|attrs: Seq<crate::vertex::VertexAttributeKind>|
        pipeline.spec_specialize(entries[e].0, attrs) == Ok::<
            crate::config::ConfigModel,
            ConfigError,
        >(configs[id.0 as int]@);
    assert(pipeline.spec_base(key, attrs) == Ok::<crate::config::ConfigModel, ConfigError>(
        configs[id.0 as int]@,
    ));
    crate::specialize::lemma_defines_membership(key.mesh_key, attrs);
}

/// Lookups that existed before a cache operation still give the same
/// outcome after it, and the operated key's lookup gives its outcome.
proof fn lemma_lookups_preserved(
    before: Seq<CacheEntry>,
    after: Seq<CacheEntry>,
    key: CacheKey,
    outcome: Result<crate::ids::PipelineId, ConfigError>,
)
    requires
        after == before || after == before.push((key, outcome)),
    ensures
        forall|k: CacheKey|
            spec_lookup(before, k) is Some ==> #[trigger] spec_lookup(after, k) == spec_lookup(
                before,
                k,
            ),
{
    if after == before.push((key, outcome)) {
        assert forall|k: CacheKey|
            spec_lookup(before, k) is Some implies #[trigger] spec_lookup(after, k)
            == spec_lookup(before, k) by {
            let r = spec_lookup(before, k)->0;
            lemma_cache_lookup_stable(before, k, (key, outcome), r);
        }
    }
}

/// Looks an entity up in the drawable components.
fn assoc_entity(s: &Vec<(EntityId, DrawableInfo)>, k: EntityId) -> (r: Option<DrawableInfo>)
    ensures
        r == spec_assoc_entity(s@, k),
{
    let ghost s0 = s@;
    let mut i: usize = 0;
    assert(s0.skip(0) =~= s0);
    while i < s.len()
        invariant
            s@ == s0,
            i <= s0.len(),
            spec_assoc_entity(s0, k) == spec_assoc_entity(s0.skip(i as int), k),
        decreases s0.len() - i,
    {
        assert(s0.skip(i as int)[0] == s0[i as int]);
        assert(s0.skip(i as int).drop_first() =~= s0.skip(i + 1));
        if s[i].0 == k {
            return Some(s[i].1);
        }
        i += 1;
    }
    assert(s0.skip(i as int) =~= Seq::<(EntityId, DrawableInfo)>::empty());
    None
}

/// Looks a material handle up in the prepared materials.
fn assoc_material(s: &Vec<(MaterialHandle, PreparedMaterial)>, k: MaterialHandle) -> (r: Option<
    PreparedMaterial,
>)
    ensures
        r == spec_assoc_material(s@, k),
{
    let ghost s0 = s@;
    let mut i: usize = 0;
    assert(s0.skip(0) =~= s0);
    while i < s.len()
        invariant
            s@ == s0,
            i <= s0.len(),
            spec_assoc_material(s0, k) == spec_assoc_material(s0.skip(i as int), k),
        decreases s0.len() - i,
    {
        assert(s0.skip(i as int)[0] == s0[i as int]);
        assert(s0.skip(i as int).drop_first() =~= s0.skip(i + 1));
        if s[i].0 == k {
            return Some(s[i].1);
        }
        i += 1;
    }
    assert(s0.skip(i as int) =~= Seq::<(MaterialHandle, PreparedMaterial)>::empty());
    None
}

/// Looks a mesh handle up in the mesh assets.
fn assoc_mesh(s: &Vec<(MeshHandle, MeshAsset)>, k: MeshHandle) -> (r: Option<&MeshAsset>)
    ensures
        match r {
            Some(m) => spec_assoc_mesh(s@, k) == Some(*m),
            None => spec_assoc_mesh(s@, k) is None,
        },
{
    let ghost s0 = s@;
    let mut i: usize = 0;
    assert(s0.skip(0) =~= s0);
    while i < s.len()
        invariant
            s@ == s0,
            i <= s0.len(),
            spec_assoc_mesh(s0, k) == spec_assoc_mesh(s0.skip(i as int), k),
        decreases s0.len() - i,
    {
        assert(s0.skip(i as int)[0] == s0[i as int]);
        assert(s0.skip(i as int).drop_first() =~= s0.skip(i + 1));
        if s[i].0 == k {
            return Some(&s[i].1);
        }
        i += 1;
    }
    assert(s0.skip(i as int) =~= Seq::<(MeshHandle, MeshAsset)>::empty());
    None
}

} // verus!
