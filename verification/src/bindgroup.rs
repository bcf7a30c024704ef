//! The per-view uniform bind group and the draw command that binds it.

use vstd::prelude::*;
use crate::ids::{BindingId, LayoutHandle};

verus! {

/// A bind group wrapping the view-uniform binding at binding index 0.
#[derive(PartialEq, Eq, Structural, Clone, Copy, Debug)]
pub struct BindGroup {
    pub layout: LayoutHandle,
    pub binding: BindingId,
}

/// The frame's view bind group, rebuilt whenever the view-uniform buffer has
/// a valid binding.
#[derive(PartialEq, Eq, Structural, Clone, Copy, Debug)]
pub struct PrepassViewBindGroup {
    pub bind_group: Option<BindGroup>,
}

impl Default for PrepassViewBindGroup {
    /// Before the first frame no bind group exists.
    fn default() -> (r: Self)
        ensures
            r.bind_group is None,
    {
        PrepassViewBindGroup { bind_group: None }
    }
}

/// Rebuilds the view bind group for the frame when the view-uniform buffer
/// has a binding; otherwise leaves the prior value in place, and draws that
/// would need it must not run (the view extraction stage did not run first).
pub fn queue_prepass_view_bind_group(
    prepass_view_bind_group: &mut PrepassViewBindGroup,
    view_layout: LayoutHandle,
    view_binding: Option<BindingId>,
)
    ensures
        match view_binding {
            Some(binding) => final(prepass_view_bind_group).bind_group == Some(
                BindGroup { layout: view_layout, binding },
            ),
            None => *final(prepass_view_bind_group) == *old(prepass_view_bind_group),
        },
{
    if let Some(binding) = view_binding {
        prepass_view_bind_group.bind_group = Some(BindGroup { layout: view_layout, binding });
    }
}

/// The command a draw function issues to bind a bind group at a slot with
/// one dynamic offset.
#[derive(PartialEq, Eq, Structural, Clone, Copy, Debug)]
pub struct BindGroupCommand {
    pub slot: usize,
    pub bind_group: BindGroup,
    pub offset: u32,
}

/// The draw-function step binding the view bind group at slot `I`.
///
/// A missing bind group here is a stage-ordering violation upstream, not a
/// recoverable condition, so callers must establish that it exists.
pub struct SetPrepassViewBindGroup<const I: usize>;

impl<const I: usize> SetPrepassViewBindGroup<I> {
    /// Emits the bind command for one drawable of the view.
    pub fn render(
        prepass_view_bind_group: &PrepassViewBindGroup,
        view_uniform_offset: u32,
    ) -> (r: BindGroupCommand)
        requires
            prepass_view_bind_group.bind_group is Some,
        ensures
            r == (BindGroupCommand {
                slot: I,
                bind_group: prepass_view_bind_group.bind_group->0,
                offset: view_uniform_offset,
            }),
    {
        let bind_group = match prepass_view_bind_group.bind_group {
            Some(b) => b,
            None => unreached(),
        };
        BindGroupCommand { slot: I, bind_group, offset: view_uniform_offset }
    }
}

} // verus!
