//! The explicit frame driver: runs the prepass stages in their fixed order.

use vstd::prelude::*;
use crate::bindgroup::{queue_prepass_view_bind_group, BindGroup, PrepassViewBindGroup};
use crate::cache::{PipelineRegistry, SpecializedPipelines};
use crate::extract::{extract_core_3d_camera_prepass_phase, spec_camera_active, CameraInfo};
use crate::ids::{BindingId, DrawFunctionId, EntityId, MaterialHandle, MeshHandle};
use crate::material::{Material, PreparedMaterial};
use crate::phase::spec_sorted;
use crate::queue::{
    cache_faithful, queue_prepass_material_meshes, spec_drawable_accounted, spec_meshes_interned,
    spec_phase_sound, spec_skip_genuine_for_view, DrawableInfo, MeshAsset, QueueSkip, ViewPhases,
    VisibleDrawable,
};
use crate::specialize::PrepassPipeline;
use crate::textures::{
    prepare_core_3d_prepass_textures, FrameTextureCache, PrepassSettings, ViewPrepassTextures,
    ViewTargetInfo,
};

verus! {

/// What one frame produces: the active views in order, their attachments,
/// their two sorted draw phases, and the drawables skipped with errors.
pub struct FrameOutput {
    pub views: Vec<CameraInfo>,
    pub textures: Vec<Option<ViewPrepassTextures>>,
    pub phases: Vec<ViewPhases>,
    pub skipped: Vec<QueueSkip>,
}

/// The per-view prepass settings of extracted views, in view order.
pub open spec fn spec_view_settings(views: Seq<CameraInfo>) -> Seq<PrepassSettings> {
    views.map(|i: int, c: CameraInfo| c.settings)
}

/// The prepass subsystem: its process-lifetime state, driven once per frame
/// through the fixed stage order extract, prepare, queue, sort.
///
/// Driving the stages from one place makes the ordering an invariant of the
/// code: the view bind group is rebuilt before any phase is handed out, so a
/// draw that runs over this frame's output never finds it missing.
pub struct PrepassPlugin<M: Material> {
    /// The specializer for this material type.
    pub pipeline: PrepassPipeline<M>,
    /// The memoized variants, kept across frames and never evicted.
    pub pipelines: SpecializedPipelines,
    /// The configurations queued for compilation, in handle order.
    pub registry: PipelineRegistry,
    /// The per-view uniform bind group.
    pub view_bind_group: PrepassViewBindGroup,
    /// Draw function for the opaque phase's items.
    pub opaque_draw_function: DrawFunctionId,
    /// Draw function for the alpha-mask phase's items.
    pub alpha_mask_draw_function: DrawFunctionId,
}

impl<M: Material> PrepassPlugin<M> {
    /// A fresh subsystem around a specializer and its two draw functions.
    pub fn new(
        pipeline: PrepassPipeline<M>,
        opaque_draw_function: DrawFunctionId,
        alpha_mask_draw_function: DrawFunctionId,
    ) -> (r: Self)
        ensures
            r.pipeline == pipeline,
            r.pipelines.entries@.len() == 0,
            r.pipelines.wf(),
            r.registry.configs@.len() == 0,
            r.view_bind_group.bind_group is None,
            r.opaque_draw_function == opaque_draw_function,
            r.alpha_mask_draw_function == alpha_mask_draw_function,
    {
        PrepassPlugin {
            pipeline,
            pipelines: SpecializedPipelines::new(),
            registry: PipelineRegistry::new(),
            view_bind_group: PrepassViewBindGroup { bind_group: None },
            opaque_draw_function,
            alpha_mask_draw_function,
        }
    }

    /// Runs one frame: extracts the active cameras, prepares their
    /// attachment textures grouped by render target, rebuilds the view bind
    /// group, queues every view's visible drawables, and sorts both phases
    /// of every view front to back.
    ///
    /// `visible` holds the visible drawables of each active camera, in the
    /// cameras' order. The embedding renderer interns vertex layouts, so
    /// equal layout identities name equal layouts, and keeps them stable
    /// across frames: then the cache's faithfulness to the meshes, trivial
    /// for the fresh subsystem `new` builds, is maintained by this call
    /// frame over frame.
    pub fn run_frame(
        &mut self,
        cameras: &Vec<CameraInfo>,
        msaa_samples: u32,
        view_layout_binding: Option<BindingId>,
        meshes: &Vec<(MeshHandle, MeshAsset)>,
        materials: &Vec<(MaterialHandle, PreparedMaterial)>,
        entities: &Vec<(EntityId, DrawableInfo)>,
        visible: &Vec<Vec<VisibleDrawable>>,
    ) -> (out: FrameOutput)
        requires
            old(self).pipelines.wf(),
            visible@.len() == cameras@.filter(|c: CameraInfo| spec_camera_active(c)).len(),
            spec_meshes_interned(meshes@),
            cache_faithful(
                old(self).pipelines.entries@,
                old(self).registry.configs@,
                old(self).pipeline,
                meshes@,
            ),
        ensures
            final(self).pipelines.wf(),
            out.views@ == cameras@.filter(|c: CameraInfo| spec_camera_active(c)),
            out.textures@.len() == out.views@.len(),
            out.phases@.len() == out.views@.len(),
            forall|k: int|
                0 <= k < out.phases@.len() ==> spec_sorted(
                    (#[trigger] out.phases@[k]).opaque.items@,
                ) && spec_sorted(out.phases@[k].alpha_mask.items@),
            match view_layout_binding {
                Some(binding) => final(self).view_bind_group.bind_group == Some(
                    BindGroup { layout: final(self).pipeline.view_layout, binding },
                ),
                None => final(self).view_bind_group == old(self).view_bind_group,
            },
            final(self).pipeline == old(self).pipeline,
            // Every cache entry still holds the specializer's genuine
            // outcome, and the registry only grows.
            cache_faithful(
                final(self).pipelines.entries@,
                final(self).registry.configs@,
                old(self).pipeline,
                meshes@,
            ),
            old(self).registry.configs@.is_prefix_of(final(self).registry.configs@),
            // Skip records arise only from genuine specialization failures
            // of some view's drawable.
            forall|x: int|
                0 <= x < out.skipped@.len() ==> spec_skip_genuine_for_view(
                    #[trigger] out.skipped@[x],
                    visible@.len() as int,
                    visible@,
                    spec_view_settings(out.views@),
                    entities@,
                    materials@,
                    meshes@,
                    old(self).pipeline,
                    msaa_samples,
                ),
            // Each view's sorted phases hold exactly what that view's own
            // drawables produced, and each drawable is decisively
            // accounted for: one the specializer can serve is queued.
            forall|j: int|
                0 <= j < out.phases@.len() ==> spec_phase_sound(
                    (#[trigger] out.phases@[j]).opaque.items@,
                    visible@[j]@,
                    entities@,
                    materials@,
                    meshes@,
                    final(self).pipelines.entries@,
                    out.views@[j].settings,
                    msaa_samples,
                    old(self).opaque_draw_function,
                    false,
                ) && spec_phase_sound(
                    out.phases@[j].alpha_mask.items@,
                    visible@[j]@,
                    entities@,
                    materials@,
                    meshes@,
                    final(self).pipelines.entries@,
                    out.views@[j].settings,
                    msaa_samples,
                    old(self).alpha_mask_draw_function,
                    true,
                ),
            forall|j: int, d: int|
                0 <= j < out.phases@.len() && 0 <= d < visible@[j]@.len()
                    ==> spec_drawable_accounted(
                    #[trigger] visible@[j]@[d],
                    (#[trigger] out.phases@[j]).opaque.items@,
                    out.phases@[j].alpha_mask.items@,
                    out.skipped@,
                    entities@,
                    materials@,
                    meshes@,
                    old(self).pipeline,
                    out.views@[j].settings,
                    msaa_samples,
                ),
    {
        // Extract: the active cameras become the frame's views.
        let views = extract_core_3d_camera_prepass_phase(cameras);

        // Prepare: allocate or reuse attachments, grouped by render target.
        let mut targets: Vec<ViewTargetInfo> = Vec::new();
        let mut settings_list: Vec<PrepassSettings> = Vec::new();
        let mut k: usize = 0;
        while k < views.len()
            invariant
                k <= views@.len(),
                targets@.len() == k,
                settings_list@.len() == k,
                forall|i: int|
                    0 <= i < k ==> #[trigger] settings_list@[i] == views@[i].settings,
            decreases views@.len() - k,
        {
            let c = views[k];
            targets.push(
                ViewTargetInfo {
                    target: c.target,
                    physical_size: c.physical_size,
                    settings: c.settings,
                },
            );
            settings_list.push(c.settings);
            k += 1;
        }
        let mut frame_textures = FrameTextureCache::new();
        let textures = prepare_core_3d_prepass_textures(&targets, msaa_samples, &mut frame_textures);

        // Queue the view bind group before any drawable is queued.
        queue_prepass_view_bind_group(
            &mut self.view_bind_group,
            self.pipeline.view_layout,
            view_layout_binding,
        );

        // Queue: every view's visible drawables into its two phases.
        let ghost bind_group1 = self.view_bind_group;
        let mut skipped: Vec<QueueSkip> = Vec::new();
        let mut unsorted = queue_prepass_material_meshes(
            self.opaque_draw_function,
            self.alpha_mask_draw_function,
            &self.pipeline,
            &mut self.pipelines,
            &mut self.registry,
            msaa_samples,
            meshes,
            materials,
            entities,
            &settings_list,
            visible,
            &mut skipped,
        );
        let ghost unsorted0 = unsorted@;
        let ghost entries_fin = self.pipelines.entries@;
        let ghost configs_fin = self.registry.configs@;
        let ghost skipped_fin = skipped@;

        // Sort: both phases of every view front to back for submission.
        let mut phases: Vec<ViewPhases> = Vec::new();
        while unsorted.len() > 0
            invariant
                phases@.len() + unsorted@.len() == unsorted0.len(),
                unsorted0.len() == visible@.len(),
                settings_list@.len() == visible@.len(),
                self.pipelines.wf(),
                self.pipelines.entries@ == entries_fin,
                self.registry.configs@ == configs_fin,
                cache_faithful(entries_fin, configs_fin, old(self).pipeline, meshes@),
                old(self).registry.configs@.is_prefix_of(configs_fin),
                forall|i: int|
                    0 <= i < settings_list@.len() ==> #[trigger] settings_list@[i]
                        == views@[i].settings,
                views@.len() == visible@.len(),
                forall|x: int|
                    0 <= x < skipped_fin.len() ==> spec_skip_genuine_for_view(
                        #[trigger] skipped_fin[x],
                        visible@.len() as int,
                        visible@,
                        settings_list@,
                        entities@,
                        materials@,
                        meshes@,
                        old(self).pipeline,
                        msaa_samples,
                    ),
                self.pipeline == old(self).pipeline,
                self.view_bind_group == bind_group1,
                bind_group1 == (match view_layout_binding {
                    Some(binding) => PrepassViewBindGroup {
                        bind_group: Some(
                            BindGroup { layout: old(self).pipeline.view_layout, binding },
                        ),
                    },
                    None => old(self).view_bind_group,
                }),
                self.opaque_draw_function == old(self).opaque_draw_function,
                self.alpha_mask_draw_function == old(self).alpha_mask_draw_function,
                skipped@ == skipped_fin,
                forall|i: int|
                    0 <= i < unsorted@.len() ==> #[trigger] unsorted@[i] == unsorted0[phases@.len()
                        + i],
                forall|j: int|
                    0 <= j < phases@.len() ==> spec_sorted((#[trigger] phases@[j]).opaque.items@)
                        && spec_sorted(phases@[j].alpha_mask.items@) && spec_phase_sound(
                        phases@[j].opaque.items@,
                        visible@[j]@,
                        entities@,
                        materials@,
                        meshes@,
                        entries_fin,
                        settings_list@[j],
                        msaa_samples,
                        old(self).opaque_draw_function,
                        false,
                    ) && spec_phase_sound(
                        phases@[j].alpha_mask.items@,
                        visible@[j]@,
                        entities@,
                        materials@,
                        meshes@,
                        entries_fin,
                        settings_list@[j],
                        msaa_samples,
                        old(self).alpha_mask_draw_function,
                        true,
                    ),
                forall|j: int, d: int|
                    0 <= j < phases@.len() && 0 <= d < visible@[j]@.len()
                        ==> spec_drawable_accounted(
                        #[trigger] visible@[j]@[d],
                        (#[trigger] phases@[j]).opaque.items@,
                        phases@[j].alpha_mask.items@,
                        skipped_fin,
                        entities@,
                        materials@,
                        meshes@,
                        old(self).pipeline,
                        settings_list@[j],
                        msaa_samples,
                    ),
                forall|j: int, d: int|
                    0 <= j < unsorted0.len() && 0 <= d < visible@[j]@.len()
                        ==> spec_drawable_accounted(
                        #[trigger] visible@[j]@[d],
                        (#[trigger] unsorted0[j]).opaque.items@,
                        unsorted0[j].alpha_mask.items@,
                        skipped_fin,
                        entities@,
                        materials@,
                        meshes@,
                        old(self).pipeline,
                        settings_list@[j],
                        msaa_samples,
                    ),
                forall|j: int|
                    0 <= j < unsorted0.len() ==> spec_phase_sound(
                        (#[trigger] unsorted0[j]).opaque.items@,
                        visible@[j]@,
                        entities@,
                        materials@,
                        meshes@,
                        entries_fin,
                        settings_list@[j],
                        msaa_samples,
                        old(self).opaque_draw_function,
                        false,
                    ) && spec_phase_sound(
                        unsorted0[j].alpha_mask.items@,
                        visible@[j]@,
                        entities@,
                        materials@,
                        meshes@,
                        entries_fin,
                        settings_list@[j],
                        msaa_samples,
                        old(self).alpha_mask_draw_function,
                        true,
                    ),
            decreases unsorted@.len(),
        {
            let ghost j = phases@.len() as int;
            let mut p = unsorted.remove(0);
            assert(p == unsorted0[j]);
            let ghost op0 = p.opaque.items@;
            let ghost al0 = p.alpha_mask.items@;
            p.opaque.sort();
            p.alpha_mask.sort();
            proof {
                crate::queue::lemma_phase_sound_permutation(
                    op0,
                    p.opaque.items@,
                    visible@[j]@,
                    entities@,
                    materials@,
                    meshes@,
                    entries_fin,
                    settings_list@[j],
                    msaa_samples,
                    old(self).opaque_draw_function,
                    false,
                );
                crate::queue::lemma_phase_sound_permutation(
                    al0,
                    p.alpha_mask.items@,
                    visible@[j]@,
                    entities@,
                    materials@,
                    meshes@,
                    entries_fin,
                    settings_list@[j],
                    msaa_samples,
                    old(self).alpha_mask_draw_function,
                    true,
                );
                assert forall|d: int| 0 <= d < visible@[j]@.len() implies spec_drawable_accounted(
                    #[trigger] visible@[j]@[d],
                    p.opaque.items@,
                    p.alpha_mask.items@,
                    skipped_fin,
                    entities@,
                    materials@,
                    meshes@,
                    old(self).pipeline,
                    settings_list@[j],
                    msaa_samples,
                ) by {
                    crate::queue::lemma_accounted_permutation(
                        visible@[j]@[d],
                        op0,
                        p.opaque.items@,
                        al0,
                        p.alpha_mask.items@,
                        skipped_fin,
                        entities@,
                        materials@,
                        meshes@,
                        old(self).pipeline,
                        settings_list@[j],
                        msaa_samples,
                    );
                }
            }
            phases.push(p);
        }
        proof {
            assert(settings_list@ =~= spec_view_settings(views@));
            assert forall|x: int|
                0 <= x < skipped@.len() implies spec_skip_genuine_for_view(
                #[trigger] skipped@[x],
                visible@.len() as int,
                visible@,
                spec_view_settings(views@),
                entities@,
                materials@,
                meshes@,
                old(self).pipeline,
                msaa_samples,
            ) by {
                assert(skipped@[x] == skipped_fin[x]);
                assert(spec_skip_genuine_for_view(
                    skipped_fin[x],
                    visible@.len() as int,
                    visible@,
                    settings_list@,
                    entities@,
                    materials@,
                    meshes@,
                    old(self).pipeline,
                    msaa_samples,
                ));
            }
        }

        FrameOutput { views, textures, phases, skipped }
    }
}

} // verus!
