//! The per-entity side tables this crate works over: optional gating data,
//! the active marker, an optional animation, and an optional render target.

use vstd::prelude::*;

use crate::animation::{durations_positive, AnimationState, Frame, PlayPolicy};
use crate::load_state::{is_eligible, spec_is_eligible, Loadable, Loaded};

verus! {

/// The externally owned render target: an object exposing a mutable numeric
/// sprite index. The valid range of the index is defined by the externally
/// loaded sprite sheet and is not validated here.
#[derive(Debug, Clone, Copy, PartialEq, Eq, Structural)]
pub struct SpriteRender {
    /// Index of the sprite currently handed to the renderer.
    pub sprite_number: usize,
}

/// One entity's components, arena-style: each gated per-frame system reads
/// or writes a subset of these side tables.
#[derive(Clone)]
pub struct EntityData {
    /// Present when the entity is subject to streaming activation gating.
    pub loadable: Option<Loadable>,
    /// Present when the entity is currently inside the active region.
    /// Attached and removed by external streaming logic only.
    pub loaded: Option<Loaded>,
    /// Present when an animation is assigned to the entity.
    pub animation: Option<AnimationState>,
    /// Present when the entity has a render target.
    pub sprite_render: Option<SpriteRender>,
}

impl EntityData {
    /// Any assigned animation is well-formed.
    pub open spec fn wf(self) -> bool {
        self.animation is Some ==> self.animation->0.wf()
    }

    /// A fresh entity with no components attached.
    pub fn new() -> (r: Self)
        ensures
            r.loadable is None,
            r.loaded is None,
            r.animation is None,
            r.sprite_render is None,
            r.wf(),
    {
        EntityData { loadable: None, loaded: None, animation: None, sprite_render: None }
    }

    /// Declare the entity subject to streaming activation, with the given
    /// per-axis padding margins.
    pub fn declare_gated(&mut self, padding: (Option<u32>, Option<u32>))
        ensures
            final(self).loadable == Some(Loadable { padding }),
            final(self).loaded == old(self).loaded,
            final(self).animation == old(self).animation,
            final(self).sprite_render == old(self).sprite_render,
    {
        self.loadable = Some(Loadable { padding });
    }

    /// Attach the active marker: external streaming logic calls this when
    /// the entity enters the active window.
    pub fn activate(&mut self)
        ensures
            final(self).loaded == Some(Loaded),
            final(self).loadable == old(self).loadable,
            final(self).animation == old(self).animation,
            final(self).sprite_render == old(self).sprite_render,
    {
        self.loaded = Some(Loaded);
    }

    /// Remove the active marker: external streaming logic calls this when
    /// the entity leaves the active window.
    pub fn deactivate(&mut self)
        ensures
            final(self).loaded is None,
            final(self).loadable == old(self).loadable,
            final(self).animation == old(self).animation,
            final(self).sprite_render == old(self).sprite_render,
    {
        self.loaded = None;
    }

    /// Assign a new animation sequence, replacing any current one and
    /// (re-)entering playback from its first frame.
    pub fn assign_animation(&mut self, frames: Vec<Frame>, policy: PlayPolicy)
        requires
            durations_positive(frames@),
        ensures
            final(self).animation is Some,
            ({
                let a = final(self).animation->0;
                &&& a.frames == frames
                &&& a.policy == policy
                &&& a.index == 0
                &&& a.time_into_frame == 0
                &&& a.state is Playing
                &&& !a.frame_changed
                &&& a.wf()
            }),
            final(self).loadable == old(self).loadable,
            final(self).loaded == old(self).loaded,
            final(self).sprite_render == old(self).sprite_render,
    {
        self.animation = Some(AnimationState::new(frames, policy));
    }

    /// Clear any assigned animation.
    pub fn clear_animation(&mut self)
        ensures
            final(self).animation is None,
            final(self).loadable == old(self).loadable,
            final(self).loaded == old(self).loaded,
            final(self).sprite_render == old(self).sprite_render,
    {
        self.animation = None;
    }

    /// Does this entity take part in the current frame's gated systems?
    pub fn is_eligible(&self) -> (r: bool)
        ensures
            r == spec_is_eligible(self.loadable, self.loaded),
    {
        is_eligible(&self.loadable, &self.loaded)
    }
}

} // verus!
