//! The per-tick animation pass: for every eligible entity that has both an
//! animation and a render target, advance playback once and write the
//! resulting sprite index into the render target — only when it changed.

use vstd::prelude::*;

use crate::entity::{EntityData, SpriteRender};
use crate::load_state::spec_is_eligible;

verus! {

/// Does the player touch this entity at all this tick? It must be eligible
/// under the streaming gate and carry both an animation and a render target.
pub open spec fn spec_ticks(e: EntityData) -> bool {
    spec_is_eligible(e.loadable, e.loaded) && e.animation is Some && e.sprite_render is Some
}

/// Does this tick write into the entity's render target? Only when the
/// advanced animation reports a sprite index different from the one already
/// in the target: the write-on-change policy.
pub open spec fn spec_writes(e: EntityData, delta_ms: u64) -> bool {
    spec_ticks(e) && {
        let a2 = e.animation->0.spec_updated(delta_ms);
        &&& a2.spec_current_sprite_id() is Some
        &&& a2.spec_current_sprite_id()->0 != e.sprite_render->0.sprite_number
    }
}

/// One entity after the player's pass: the animation advanced by the tick
/// delta and the render target updated exactly when the frame index changed.
pub open spec fn spec_ticked(e: EntityData, delta_ms: u64) -> EntityData {
    if spec_ticks(e) {
        let a2 = e.animation->0.spec_updated(delta_ms);
        let sr = e.sprite_render->0;
        let sr2 = if a2.spec_current_sprite_id() is Some && a2.spec_current_sprite_id()->0
            != sr.sprite_number {
            SpriteRender { sprite_number: a2.spec_current_sprite_id()->0 }
        } else {
            sr
        };
        EntityData { animation: Some(a2), sprite_render: Some(sr2), ..e }
    } else {
        e
    }
}

/// How many render-target writes a pass over `s` performs.
pub open spec fn spec_write_count(s: Seq<EntityData>, delta_ms: u64) -> nat
    decreases s.len(),
{
    if s.len() == 0 {
        0
    } else {
        spec_write_count(s.drop_last(), delta_ms) + if spec_writes(s.last(), delta_ms) {
            1nat
        } else {
            0nat
        }
    }
}

/// The write-on-change policy: a pass leaves an entity's render target
/// untouched unless the advanced animation's frame index differs from what
/// the target already holds, and every counted write changes the index.
pub proof fn lemma_write_only_on_change(e: EntityData, delta_ms: u64)
    ensures
        !spec_writes(e, delta_ms) ==> spec_ticked(e, delta_ms).sprite_render == e.sprite_render,
        spec_writes(e, delta_ms) ==> spec_ticked(e, delta_ms).sprite_render->0.sprite_number
            != e.sprite_render->0.sprite_number,
{
}

/// Handles the playing of animations for entities with an `AnimationState`.
#[derive(Default)]
pub struct PlayAnimationsSystem;

impl PlayAnimationsSystem {
    /// One tick over all entities. Skips entities the eligibility filter
    /// rejects and entities lacking an animation or a render target;
    /// advances every other entity's animation by `delta_ms` and writes the
    /// new sprite index into its render target only if it differs from the
    /// previously written value. Returns how many such writes happened, so
    /// hosts can observe that unchanged frames cause no render churn.
    pub fn run(&mut self, entities: &mut Vec<EntityData>, delta_ms: u64) -> (writes: usize)
        requires
            forall|k: int| 0 <= k < old(entities)@.len() ==> (#[trigger] old(entities)@[k]).wf(),
            forall|k: int|
                0 <= k < old(entities)@.len() ==> ((#[trigger] old(entities)@[k]).animation
                    is Some ==> old(entities)@[k].animation->0.time_into_frame + delta_ms
                    <= u64::MAX),
        ensures
            final(entities)@.len() == old(entities)@.len(),
            forall|k: int|
                0 <= k < old(entities)@.len() ==> final(entities)@[k] == spec_ticked(
                    old(entities)@[k],
                    delta_ms,
                ),
            forall|k: int| 0 <= k < final(entities)@.len() ==> (#[trigger] final(entities)@[k]).wf(),
            writes == spec_write_count(old(entities)@, delta_ms),
    {
        let n = entities.len();
        let mut j: usize = 0;
        let mut writes: usize = 0;
        while j < n
            invariant
                j <= n,
                n == entities@.len(),
                entities@.len() == old(entities)@.len(),
                forall|k: int| 0 <= k < n ==> (#[trigger] old(entities)@[k]).wf(),
                forall|k: int|
                    0 <= k < n ==> ((#[trigger] old(entities)@[k]).animation is Some ==> old(
                        entities,
                    )@[k].animation->0.time_into_frame + delta_ms <= u64::MAX),
                forall|k: int| j <= k < n ==> entities@[k] == old(entities)@[k],
                forall|k: int|
                    0 <= k < j ==> entities@[k] == spec_ticked(old(entities)@[k], delta_ms),
                forall|k: int| 0 <= k < j ==> (#[trigger] entities@[k]).wf(),
                writes <= j,
                writes == spec_write_count(old(entities)@.subrange(0, j as int), delta_ms),
            decreases n - j,
        {
            let ghost e0 = entities@[j as int];
            let e = &mut entities[j];
            let eligible = e.is_eligible();
            let mut wrote = false;
            if eligible {
                match (&mut e.animation, &mut e.sprite_render) {
                    (Some(anim), Some(sr)) => {
                        anim.update(delta_ms);
                        if let Some(id) = anim.current_sprite_id() {
                            if id != sr.sprite_number {
                                sr.sprite_number = id;
                                wrote = true;
                            }
                        }
                    },
                    _ => {},
                }
            }
            proof {
                assert(*e == spec_ticked(e0, delta_ms));
                assert(wrote == spec_writes(e0, delta_ms));
            }
            if wrote {
                writes = writes + 1;
            }
            j = j + 1;
            proof {
                assert(old(entities)@.subrange(0, j as int).drop_last() =~= old(
                    entities,
                )@.subrange(0, j - 1));
                assert(old(entities)@.subrange(0, j as int).last() == e0);
            }
        }
        proof {
            assert(old(entities)@.subrange(0, n as int) =~= old(entities)@);
        }
        writes
    }
}

} // verus!
