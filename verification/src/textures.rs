//! Per-frame attachment allocation, grouped by render-target identity.

use vstd::prelude::*;
use crate::config::TextureFormat;
use crate::ids::{TargetId, TextureHandle};

verus! {

/// A physical size in pixels.
#[derive(PartialEq, Eq, Structural, Clone, Copy, Debug)]
pub struct SurfaceSize {
    pub width: u32,
    pub height: u32,
}

/// Per-view prepass settings, supplied by the camera.
#[derive(PartialEq, Eq, Structural, Clone, Copy, Debug)]
pub struct PrepassSettings {
    /// Whether the view wants the depth attachment written.
    pub output_depth: bool,
    /// Whether the view wants the view-space normal attachment written.
    pub output_normals: bool,
}

/// The descriptor handed to the external texture cache for one attachment.
#[derive(PartialEq, Eq, Structural, Clone, Copy, Debug)]
pub struct AttachmentDescriptor {
    pub size: SurfaceSize,
    pub depth_or_array_layers: u32,
    pub mip_level_count: u32,
    pub sample_count: u32,
    pub format: TextureFormat,
    pub usage_copy_dst: bool,
    pub usage_render_attachment: bool,
    pub usage_texture_binding: bool,
}

/// The depth attachment descriptor: fixed depth format, single mip, the
/// view's sample count, usable as copy destination, render attachment and
/// texture binding.
pub open spec fn spec_depth_descriptor(size: SurfaceSize, msaa_samples: u32) -> AttachmentDescriptor {
    AttachmentDescriptor {
        size,
        depth_or_array_layers: 1,
        mip_level_count: 1,
        sample_count: msaa_samples,
        format: TextureFormat::Depth32Float,
        usage_copy_dst: true,
        usage_render_attachment: true,
        usage_texture_binding: true,
    }
}

/// The normal attachment descriptor: 10-10-10-2 format, single mip, the
/// view's sample count, usable as render attachment and texture binding.
pub open spec fn spec_normals_descriptor(size: SurfaceSize, msaa_samples: u32) -> AttachmentDescriptor {
    AttachmentDescriptor {
        size,
        depth_or_array_layers: 1,
        mip_level_count: 1,
        sample_count: msaa_samples,
        format: TextureFormat::Rgb10a2Unorm,
        usage_copy_dst: false,
        usage_render_attachment: true,
        usage_texture_binding: true,
    }
}

/// The attachments resolved for one view, for downstream passes to sample.
#[derive(PartialEq, Eq, Structural, Clone, Copy, Debug)]
pub struct ViewPrepassTextures {
    /// Depth attachment, present when the view requested depth output.
    pub depth: Option<TextureHandle>,
    /// Normal attachment, present when the view requested normal output.
    pub normals: Option<TextureHandle>,
    /// The attachment size: the camera's physical target size.
    pub size: SurfaceSize,
}

/// What the texture stage reads of one extracted view.
#[derive(PartialEq, Eq, Structural, Clone, Copy, Debug)]
pub struct ViewTargetInfo {
    /// The render target the view draws into.
    pub target: TargetId,
    /// The camera's resolved physical target size; absent for a camera with
    /// no resolved target this frame, which is then skipped entirely.
    pub physical_size: Option<SurfaceSize>,
    /// The view's prepass settings.
    pub settings: PrepassSettings,
}

/// The frame's allocation requests to the external texture cache, in handle
/// order: handle `i` was allocated with `allocations[i]`. The external cache
/// may satisfy a request by transparently reusing a prior frame's freed
/// texture; within the frame each handle is one attachment instance.
pub struct FrameTextureCache {
    pub allocations: Vec<AttachmentDescriptor>,
}

impl FrameTextureCache {
    /// An empty per-frame cache; built fresh each frame.
    pub fn new() -> (r: Self)
        ensures
            r.allocations@.len() == 0,
    {
        FrameTextureCache { allocations: Vec::new() }
    }

    /// Requests one attachment and returns its fresh handle.
    pub fn allocate(&mut self, desc: AttachmentDescriptor) -> (h: TextureHandle)
        ensures
            final(self).allocations@ == old(self).allocations@.push(desc),
            h.0 == old(self).allocations@.len(),
    {
        let h = TextureHandle(self.allocations.len() as u64);
        self.allocations.push(desc);
        h
    }
}

/// The handle a target was assigned, if any: the first entry carrying it.
pub open spec fn spec_target_lookup(s: Seq<(TargetId, TextureHandle)>, t: TargetId) -> Option<
    TextureHandle,
>
    decreases s.len(),
{
    if s.len() == 0 {
        None
    } else if s[0].0 == t {
        Some(s[0].1)
    } else {
        spec_target_lookup(s.drop_first(), t)
    }
}

/// Appending an assignment for a new target makes lookups of that target
/// find it and leaves every other target's assignment unchanged.
proof fn lemma_target_lookup_push(
    s: Seq<(TargetId, TextureHandle)>,
    t: TargetId,
    e: (TargetId, TextureHandle),
)
    requires
        spec_target_lookup(s, t) is None,
    ensures
        e.0 == t ==> spec_target_lookup(s.push(e), t) == Some(e.1),
        e.0 != t ==> spec_target_lookup(s.push(e), t) is None,
    decreases s.len(),
{
    assert(spec_target_lookup(Seq::<(TargetId, TextureHandle)>::empty(), t) is None);
    if s.len() == 0 {
        assert(s.push(e)[0] == e);
        assert(s.push(e).drop_first() =~= Seq::<(TargetId, TextureHandle)>::empty());
        assert(spec_target_lookup(s.push(e).drop_first(), t) is None);
    } else {
        assert(s.push(e)[0] == s[0]);
        assert(s.push(e).drop_first() =~= s.drop_first().push(e));
        lemma_target_lookup_push(s.drop_first(), t, e);
        assert(spec_target_lookup(s.push(e), t) == spec_target_lookup(s.drop_first().push(e), t));
    }
}

/// Unchanged lookups under pushes of other targets, lifted to every target
/// at once: pushing never changes an assignment that exists.
proof fn lemma_target_lookup_stable(
    s: Seq<(TargetId, TextureHandle)>,
    t: TargetId,
    e: (TargetId, TextureHandle),
    h: TextureHandle,
)
    requires
        spec_target_lookup(s, t) == Some(h),
    ensures
        spec_target_lookup(s.push(e), t) == Some(h),
    decreases s.len(),
{
    assert(s.push(e)[0] == s[0]);
    assert(s.push(e).drop_first() =~= s.drop_first().push(e));
    if s[0].0 != t {
        lemma_target_lookup_stable(s.drop_first(), t, e, h);
        assert(spec_target_lookup(s.push(e), t) == spec_target_lookup(s.drop_first().push(e), t));
    }
}

/// Looks a target up in the frame's assignment list.
fn target_lookup(map: &Vec<(TargetId, TextureHandle)>, t: TargetId) -> (r: Option<TextureHandle>)
    ensures
        r == spec_target_lookup(map@, t),
{
    let ghost m0 = map@;
    let mut i: usize = 0;
    assert(m0.skip(0) =~= m0);
    while i < map.len()
        invariant
            map@ == m0,
            i <= m0.len(),
            spec_target_lookup(m0, t) == spec_target_lookup(m0.skip(i as int), t),
        decreases m0.len() - i,
    {
        assert(m0.skip(i as int)[0] == m0[i as int]);
        assert(m0.skip(i as int).drop_first() =~= m0.skip(i + 1));
        if map[i].0 == t {
            return Some(map[i].1);
        }
        i += 1;
    }
    assert(m0.skip(i as int) =~= Seq::<(TargetId, TextureHandle)>::empty());
    None
}

/// An assignment found by lookup is an entry of the list.
proof fn lemma_target_lookup_member(
    s: Seq<(TargetId, TextureHandle)>,
    t: TargetId,
    h: TextureHandle,
)
    requires
        spec_target_lookup(s, t) == Some(h),
    ensures
        s.contains((t, h)),
    decreases s.len(),
{
    if s[0].0 == t {
        assert(s[0] == (t, h));
    } else {
        lemma_target_lookup_member(s.drop_first(), t, h);
        let i = choose|i: int| 0 <= i < s.drop_first().len() && s.drop_first()[i] == (t, h);
        assert(s[i + 1] == (t, h));
    }
}

/// A depth attachment of the frame: the fixed depth descriptor at the view's
/// sample count, whatever its size.
pub open spec fn is_depth_attachment(desc: AttachmentDescriptor, msaa_samples: u32) -> bool {
    desc == spec_depth_descriptor(desc.size, msaa_samples)
}

/// A normal attachment of the frame, likewise.
pub open spec fn is_normals_attachment(desc: AttachmentDescriptor, msaa_samples: u32) -> bool {
    desc == spec_normals_descriptor(desc.size, msaa_samples)
}

/// The depth handle of a view's resolved attachments, if any, names an
/// allocation of the fixed depth shape.
pub open spec fn depth_handle_valid(
    o: Option<ViewPrepassTextures>,
    allocs: Seq<AttachmentDescriptor>,
    msaa_samples: u32,
) -> bool {
    match o {
        Some(t) => match t.depth {
            Some(h) => h.0 < allocs.len() && is_depth_attachment(allocs[h.0 as int], msaa_samples),
            None => true,
        },
        None => true,
    }
}

/// The normal handle of a view's resolved attachments, if any, names an
/// allocation of the fixed normal shape.
pub open spec fn normals_handle_valid(
    o: Option<ViewPrepassTextures>,
    allocs: Seq<AttachmentDescriptor>,
    msaa_samples: u32,
) -> bool {
    match o {
        Some(t) => match t.normals {
            Some(h) => h.0 < allocs.len() && is_normals_attachment(
                allocs[h.0 as int],
                msaa_samples,
            ),
            None => true,
        },
        None => true,
    }
}


/// Every assignment of the frame's map names an allocation satisfying the
/// given shape check at the frame's sample count.
pub open spec fn map_allocations_ok(
    map: Seq<(TargetId, TextureHandle)>,
    allocs: Seq<AttachmentDescriptor>,
    depth_kind: bool,
    msaa_samples: u32,
) -> bool {
    forall|e: int|
        0 <= e < map.len() ==> (#[trigger] map[e]).1.0 < allocs.len() && if depth_kind {
            is_depth_attachment(allocs[map[e].1.0 as int], msaa_samples)
        } else {
            is_normals_attachment(allocs[map[e].1.0 as int], msaa_samples)
        }
}

/// Returns the attachment already assigned to the target, or allocates one
/// with the given descriptor and assigns it.
fn get_or_allocate(
    map: &mut Vec<(TargetId, TextureHandle)>,
    cache: &mut FrameTextureCache,
    target: TargetId,
    desc: AttachmentDescriptor,
) -> (h: TextureHandle)
    ensures
        spec_target_lookup(final(map)@, target) == Some(h),
        forall|t: TargetId|
            #![trigger spec_target_lookup(old(map)@, t)]
            spec_target_lookup(old(map)@, t) is Some ==> spec_target_lookup(final(map)@, t)
                == spec_target_lookup(old(map)@, t),
        final(cache).allocations@.len() >= old(cache).allocations@.len(),
        forall|x: int|
            0 <= x < old(cache).allocations@.len() ==> final(cache).allocations@[x] == old(
                cache,
            ).allocations@[x],
        match spec_target_lookup(old(map)@, target) {
            Some(h0) => h == h0 && final(map)@ == old(map)@ && final(cache).allocations@ == old(
                cache,
            ).allocations@,
            None => final(map)@ == old(map)@.push((target, h)) && final(cache).allocations@ == old(
                cache,
            ).allocations@.push(desc) && h.0 == old(cache).allocations@.len()
                && final(cache).allocations@[h.0 as int] == desc,
        },
{
    match target_lookup(map, target) {
        Some(h) => h,
        None => {
            let ghost map0 = map@;
            let h = cache.allocate(desc);
            proof {
                lemma_target_lookup_push(map0, target, (target, h));
                assert forall|t: TargetId|
                    spec_target_lookup(map0, t) is Some implies spec_target_lookup(
                    map0.push((target, h)),
                    t,
                ) == spec_target_lookup(map0, t) by {
                    if t != target {
                        let h0 = spec_target_lookup(map0, t)->0;
                        lemma_target_lookup_stable(map0, t, (target, h), h0);
                    }
                }
            }
            map.push((target, h));
            assert(cache.allocations@[h.0 as int] == desc);
            h
        },
    }
}

/// The allocation at one handle index is referenced by some view's output.
pub open spec fn spec_allocation_referenced(a: int, out: Seq<Option<ViewPrepassTextures>>) -> bool {
    exists|k: int|
        0 <= k < out.len() && match #[trigger] out[k] {
            Some(t) => (match t.depth {
                Some(h) => h.0 == a,
                None => false,
            }) || (match t.normals {
                Some(h) => h.0 == a,
                None => false,
            }),
            None => false,
        }
}

/// Some view drawing into the target has this physical size.
pub open spec fn spec_target_has_size(
    views: Seq<ViewTargetInfo>,
    target: TargetId,
    size: SurfaceSize,
) -> bool {
    exists|k: int|
        0 <= k < views.len() && (#[trigger] views[k]).target == target && views[k].physical_size
            == Some(size)
}

/// Allocates or reuses the attachments of every view that has a resolved
/// target size, grouping by render-target identity.
///
/// For each view: skipped entirely (no attachments) when its camera has no
/// physical target size; otherwise it receives a depth attachment exactly
/// when its settings request depth output and a normal attachment exactly
/// when they request normal output. Views sharing a render target receive
/// the same attachment instance, never independent allocations; every
/// handle names an allocation of the fixed attachment shape at the frame's
/// sample count.
pub fn prepare_core_3d_prepass_textures(
    views: &Vec<ViewTargetInfo>,
    msaa_samples: u32,
    cache: &mut FrameTextureCache,
) -> (out: Vec<Option<ViewPrepassTextures>>)
    ensures
        out@.len() == views@.len(),
        forall|k: int|
            0 <= k < views@.len() ==> ((#[trigger] out@[k]) is Some <==> views@[k].physical_size
                is Some),
        forall|k: int|
            0 <= k < views@.len() ==> match (#[trigger] out@[k], views@[k].physical_size) {
                (Some(t), Some(size)) => {
                    &&& t.size == size
                    &&& (t.depth is Some <==> views@[k].settings.output_depth)
                    &&& (t.normals is Some <==> views@[k].settings.output_normals)
                },
                (None, None) => true,
                _ => false,
            },
        // Attachment sharing: views targeting the same render target receive
        // the same attachment instances.
        forall|i: int, j: int|
            0 <= i < views@.len() && 0 <= j < views@.len() && views@[i].target == views@[j].target
                ==> match (#[trigger] out@[i], #[trigger] out@[j]) {
                (Some(a), Some(b)) => {
                    &&& (a.depth is Some && b.depth is Some ==> a.depth == b.depth)
                    &&& (a.normals is Some && b.normals is Some ==> a.normals == b.normals)
                },
                _ => true,
            },
        // Every handle names an allocation of the right shape.
        forall|k: int|
            0 <= k < views@.len() ==> depth_handle_valid(
                #[trigger] out@[k],
                final(cache).allocations@,
                msaa_samples,
            ) && normals_handle_valid(out@[k], final(cache).allocations@, msaa_samples),
        // Old allocations persist, and the frame requests only attachments
        // the output references: with sharing, at most one depth and one
        // normals allocation per distinct render target per call.
        old(cache).allocations@.is_prefix_of(final(cache).allocations@),
        forall|a: int|
            old(cache).allocations@.len() <= a < final(cache).allocations@.len()
                ==> spec_allocation_referenced(a, out@),
        // Each attachment is sized to the physical target size of a view
        // drawing into its render target.
        forall|k: int|
            0 <= k < views@.len() ==> match #[trigger] out@[k] {
                Some(t) => {
                    &&& match t.depth {
                        Some(h) => spec_target_has_size(
                            views@,
                            views@[k].target,
                            final(cache).allocations@[h.0 as int].size,
                        ),
                        None => true,
                    }
                    &&& match t.normals {
                        Some(h) => spec_target_has_size(
                            views@,
                            views@[k].target,
                            final(cache).allocations@[h.0 as int].size,
                        ),
                        None => true,
                    }
                },
                None => true,
            },
{
    let mut out: Vec<Option<ViewPrepassTextures>> = Vec::new();
    let mut depth_map: Vec<(TargetId, TextureHandle)> = Vec::new();
    let mut normal_map: Vec<(TargetId, TextureHandle)> = Vec::new();
    let mut vi: usize = 0;
    while vi < views.len()
        invariant
            vi <= views@.len(),
            out@.len() == vi,
            forall|k: int|
                0 <= k < vi ==> ((#[trigger] out@[k]) is Some <==> views@[k].physical_size
                    is Some),
            forall|k: int|
                0 <= k < vi ==> match (#[trigger] out@[k], views@[k].physical_size) {
                    (Some(t), Some(size)) => {
                        &&& t.size == size
                        &&& (t.depth is Some <==> views@[k].settings.output_depth)
                        &&& (t.normals is Some <==> views@[k].settings.output_normals)
                    },
                    (None, None) => true,
                    _ => false,
                },
            forall|k: int|
                0 <= k < vi ==> match #[trigger] out@[k] {
                    Some(t) => {
                        &&& match t.depth {
                            Some(h) => spec_target_lookup(depth_map@, views@[k].target) == Some(h),
                            None => true,
                        }
                        &&& match t.normals {
                            Some(h) => spec_target_lookup(normal_map@, views@[k].target) == Some(
                                h,
                            ),
                            None => true,
                        }
                    },
                    None => true,
                },
            map_allocations_ok(depth_map@, cache.allocations@, true, msaa_samples),
            map_allocations_ok(normal_map@, cache.allocations@, false, msaa_samples),
            cache.allocations@.len() >= old(cache).allocations@.len(),
            forall|i: int|
                0 <= i < old(cache).allocations@.len() ==> #[trigger] cache.allocations@[i] == old(
                    cache,
                ).allocations@[i],
            forall|a: int|
                old(cache).allocations@.len() <= a < cache.allocations@.len()
                    ==> spec_allocation_referenced(a, out@),
            forall|e: int|
                0 <= e < depth_map@.len() ==> spec_target_has_size(
                    views@,
                    (#[trigger] depth_map@[e]).0,
                    cache.allocations@[depth_map@[e].1.0 as int].size,
                ),
            forall|e: int|
                0 <= e < normal_map@.len() ==> spec_target_has_size(
                    views@,
                    (#[trigger] normal_map@[e]).0,
                    cache.allocations@[normal_map@[e].1.0 as int].size,
                ),
        decreases views@.len() - vi,
    {
        let ghost out0 = out@;
        let v = views[vi];
        match v.physical_size {
            None => {
                out.push(None);
                proof {
                    assert forall|a: int|
                        old(cache).allocations@.len() <= a
                            < cache.allocations@.len() implies spec_allocation_referenced(
                        a,
                        out@,
                    ) by {
                        assert(spec_allocation_referenced(a, out0));
                        let k = choose|k: int|
                            0 <= k < out0.len() && match #[trigger] out0[k] {
                                Some(t) => (match t.depth {
                                    Some(h) => h.0 == a,
                                    None => false,
                                }) || (match t.normals {
                                    Some(h) => h.0 == a,
                                    None => false,
                                }),
                                None => false,
                            };
                        assert(out@[k] == out0[k]);
                    }
                }
            },
            Some(size) => {
                let ghost depth_map0 = depth_map@;
                let ghost normal_map0 = normal_map@;
                let ghost allocs0 = cache.allocations@;
                let depth = if v.settings.output_depth {
                    let desc = AttachmentDescriptor {
                        size,
                        depth_or_array_layers: 1,
                        mip_level_count: 1,
                        sample_count: msaa_samples,
                        format: TextureFormat::Depth32Float,
                        usage_copy_dst: true,
                        usage_render_attachment: true,
                        usage_texture_binding: true,
                    };
                    Some(get_or_allocate(&mut depth_map, cache, v.target, desc))
                } else {
                    None
                };
                let ghost allocs1 = cache.allocations@;
                proof {
                    assert(is_depth_attachment(spec_depth_descriptor(size, msaa_samples), msaa_samples));
                    assert(map_allocations_ok(depth_map@, cache.allocations@, true, msaa_samples));
                    assert(map_allocations_ok(normal_map@, cache.allocations@, false, msaa_samples));
                    assert(views@[vi as int] == v);
                    assert forall|e: int| 0 <= e < depth_map@.len() implies spec_target_has_size(
                        views@,
                        (#[trigger] depth_map@[e]).0,
                        cache.allocations@[depth_map@[e].1.0 as int].size,
                    ) by {
                        if e < depth_map0.len() {
                            assert(depth_map@[e] == depth_map0[e]);
                            assert(cache.allocations@[depth_map0[e].1.0 as int] == allocs0[
                                depth_map0[e].1.0 as int]);
                        } else {
                            assert(spec_target_has_size(views@, v.target, size));
                        }
                    }
                    assert forall|e: int| 0 <= e < normal_map@.len() implies spec_target_has_size(
                        views@,
                        (#[trigger] normal_map@[e]).0,
                        cache.allocations@[normal_map@[e].1.0 as int].size,
                    ) by {
                        assert(normal_map@[e] == normal_map0[e]);
                        assert(cache.allocations@[normal_map0[e].1.0 as int] == allocs0[
                            normal_map0[e].1.0 as int]);
                    }
                }
                let normals = if v.settings.output_normals {
                    let desc = AttachmentDescriptor {
                        size,
                        depth_or_array_layers: 1,
                        mip_level_count: 1,
                        sample_count: msaa_samples,
                        format: TextureFormat::Rgb10a2Unorm,
                        usage_copy_dst: false,
                        usage_render_attachment: true,
                        usage_texture_binding: true,
                    };
                    Some(get_or_allocate(&mut normal_map, cache, v.target, desc))
                } else {
                    None
                };
                proof {
                    assert(is_normals_attachment(
                        spec_normals_descriptor(size, msaa_samples),
                        msaa_samples,
                    ));
                    assert(map_allocations_ok(depth_map@, cache.allocations@, true, msaa_samples));
                    assert(map_allocations_ok(
                        normal_map@,
                        cache.allocations@,
                        false,
                        msaa_samples,
                    ));
                    assert(views@[vi as int] == v);
                    assert forall|e: int| 0 <= e < depth_map@.len() implies spec_target_has_size(
                        views@,
                        (#[trigger] depth_map@[e]).0,
                        cache.allocations@[depth_map@[e].1.0 as int].size,
                    ) by {
                        assert(cache.allocations@[depth_map@[e].1.0 as int] == allocs1[
                            depth_map@[e].1.0 as int]);
                    }
                    assert forall|e: int| 0 <= e < normal_map@.len() implies spec_target_has_size(
                        views@,
                        (#[trigger] normal_map@[e]).0,
                        cache.allocations@[normal_map@[e].1.0 as int].size,
                    ) by {
                        if e < normal_map0.len() {
                            assert(normal_map@[e] == normal_map0[e]);
                            assert(cache.allocations@[normal_map0[e].1.0 as int] == allocs1[
                                normal_map0[e].1.0 as int]);
                        } else {
                            assert(spec_target_has_size(views@, v.target, size));
                        }
                    }
                }
                out.push(Some(ViewPrepassTextures { depth, normals, size }));
                proof {
                    assert forall|a: int|
                        old(cache).allocations@.len() <= a
                            < cache.allocations@.len() implies spec_allocation_referenced(
                        a,
                        out@,
                    ) by {
                        if a < allocs0.len() {
                            assert(spec_allocation_referenced(a, out0));
                            let k = choose|k: int|
                                0 <= k < out0.len() && match #[trigger] out0[k] {
                                    Some(t) => (match t.depth {
                                        Some(h) => h.0 == a,
                                        None => false,
                                    }) || (match t.normals {
                                        Some(h) => h.0 == a,
                                        None => false,
                                    }),
                                    None => false,
                                };
                            assert(out@[k] == out0[k]);
                        } else {
                            assert(out@[vi as int] == Some(
                                ViewPrepassTextures { depth, normals, size },
                            ));
                        }
                    }
                }
            },
        }
        vi += 1;
    }
    proof {
        assert(old(cache).allocations@ =~= cache.allocations@.subrange(
            0,
            old(cache).allocations@.len() as int,
        ));
        assert forall|k: int| 0 <= k < views@.len() implies match #[trigger] out@[k] {
            Some(t) => {
                &&& match t.depth {
                    Some(h) => spec_target_has_size(
                        views@,
                        views@[k].target,
                        cache.allocations@[h.0 as int].size,
                    ),
                    None => true,
                }
                &&& match t.normals {
                    Some(h) => spec_target_has_size(
                        views@,
                        views@[k].target,
                        cache.allocations@[h.0 as int].size,
                    ),
                    None => true,
                }
            },
            None => true,
        } by {
            if out@[k] is Some {
                let t = out@[k]->0;
                if t.depth is Some {
                    let h = t.depth->0;
                    lemma_target_lookup_member(depth_map@, views@[k].target, h);
                    let e = choose|e: int|
                        0 <= e < depth_map@.len() && depth_map@[e] == (views@[k].target, h);
                    assert(depth_map@[e].1 == h);
                }
                if t.normals is Some {
                    let h = t.normals->0;
                    lemma_target_lookup_member(normal_map@, views@[k].target, h);
                    let e = choose|e: int|
                        0 <= e < normal_map@.len() && normal_map@[e] == (views@[k].target, h);
                    assert(normal_map@[e].1 == h);
                }
            }
        }
        assert forall|k: int| 0 <= k < views@.len() implies depth_handle_valid(
            #[trigger] out@[k],
            cache.allocations@,
            msaa_samples,
        ) && normals_handle_valid(out@[k], cache.allocations@, msaa_samples) by {
            if out@[k] is Some {
                let t = out@[k]->0;
                if t.depth is Some {
                    let h = t.depth->0;
                    lemma_target_lookup_member(depth_map@, views@[k].target, h);
                    let e = choose|e: int|
                        0 <= e < depth_map@.len() && depth_map@[e] == (views@[k].target, h);
                    assert(depth_map@[e].1 == h);
                }
                if t.normals is Some {
                    let h = t.normals->0;
                    lemma_target_lookup_member(normal_map@, views@[k].target, h);
                    let e = choose|e: int|
                        0 <= e < normal_map@.len() && normal_map@[e] == (views@[k].target, h);
                    assert(normal_map@[e].1 == h);
                }
            }
        }
    }
    out
}

} // verus!
