//! Per-entity sprite animation playback: an ordered sequence of frames, an
//! elapsed-time accumulator, and a loop policy, advanced once per tick.

use vstd::prelude::*;

verus! {

/// One frame of an animation: which sprite to show and for how long.
#[derive(Debug, Clone, Copy, PartialEq, Eq, Structural)]
pub struct Frame {
    /// Index into the externally loaded sprite sheet.
    pub sprite_id: usize,
    /// How long this frame stays on screen, in milliseconds. Always >= 1.
    pub duration_ms: u64,
}

/// What happens when playback runs past the last frame.
#[derive(Debug, Clone, Copy, PartialEq, Eq, Structural)]
pub enum PlayPolicy {
    /// Wrap around to the first frame and keep playing.
    Loop,
    /// Clamp to the last frame and hold it.
    Once,
}

/// The playback state machine's two states.
#[derive(Debug, Clone, Copy, PartialEq, Eq, Structural)]
pub enum PlaybackState {
    Playing,
    /// Terminal for `Once` animations that have reached their last frame;
    /// further ticks change nothing.
    Holding,
}

/// Every frame duration in the sequence is at least one millisecond, so a
/// tick always makes progress through the sequence.
pub open spec fn durations_positive(frames: Seq<Frame>) -> bool {
    forall|i: int| 0 <= i < frames.len() ==> #[trigger] frames[i].duration_ms >= 1
}

/// Where playback lands after pouring `acc` milliseconds into the frame at
/// `index`: consume whole frame durations while they fit, advancing per the
/// policy. Returns the landing frame index, the time already spent inside
/// that frame, and whether playback is now holding on the last frame.
pub open spec fn settle(policy: PlayPolicy, frames: Seq<Frame>, index: int, acc: int) -> (
    int,
    int,
    bool,
)
    decreases acc,
    when 0 <= index < frames.len() && 0 <= acc && durations_positive(frames)
{
    if acc < frames[index].duration_ms {
        (index, acc, false)
    } else if policy is Once && index == frames.len() - 1 {
        (index, 0, true)
    } else {
        settle(
            policy,
            frames,
            if index + 1 == frames.len() { 0 } else { index + 1 },
            acc - frames[index].duration_ms,
        )
    }
}

/// The landing spot of `settle` is always a frame of the sequence, with the
/// in-frame time strictly inside that frame's duration while playing, and
/// holding only ever happens on the last frame of a `Once` animation.
pub proof fn lemma_settle_bounds(policy: PlayPolicy, frames: Seq<Frame>, index: int, acc: int)
    requires
        0 <= index < frames.len(),
        0 <= acc,
        durations_positive(frames),
    ensures
        ({
            let (i2, a2, h) = settle(policy, frames, index, acc);
            &&& 0 <= i2 < frames.len()
            &&& 0 <= a2
            &&& (!h ==> a2 < frames[i2].duration_ms)
            &&& (h ==> policy is Once && i2 == frames.len() - 1 && a2 == 0)
        }),
    decreases acc,
{
    if acc < frames[index].duration_ms {
    } else if policy is Once && index == frames.len() - 1 {
    } else {
        lemma_settle_bounds(
            policy,
            frames,
            if index + 1 == frames.len() { 0 } else { index + 1 },
            acc - frames[index].duration_ms,
        );
    }
}

/// Pouring time in two pours lands where one combined pour does; once the
/// first pour reaches the hold, more time changes nothing.
proof fn lemma_settle_add(policy: PlayPolicy, frames: Seq<Frame>, index: int, acc: int, b: int)
    requires
        0 <= index < frames.len(),
        0 <= acc,
        0 <= b,
        durations_positive(frames),
    ensures
        ({
            let (i1, a1, h1) = settle(policy, frames, index, acc);
            if !h1 {
                settle(policy, frames, i1, a1 + b) == settle(policy, frames, index, acc + b)
            } else {
                settle(policy, frames, index, acc + b) == (i1, a1, h1)
            }
        }),
    decreases acc,
{
    if acc < frames[index].duration_ms {
    } else if policy is Once && index == frames.len() - 1 {
    } else {
        lemma_settle_add(
            policy,
            frames,
            if index + 1 == frames.len() { 0 } else { index + 1 },
            acc - frames[index].duration_ms,
            b,
        );
    }
}

/// Ticking twice accumulates: two updates land playback (frame index,
/// in-frame time, playing-or-holding) exactly where one update by the
/// summed delta does. Only the per-update changed flag may differ.
pub proof fn lemma_update_accumulates(s: AnimationState, a: u64, b: u64)
    requires
        s.wf(),
        s.time_into_frame + a + b <= u64::MAX,
    ensures
        ({
            let split = s.spec_updated(a).spec_updated(b);
            let whole = s.spec_updated((a + b) as u64);
            split.index == whole.index && split.time_into_frame == whole.time_into_frame
                && split.state == whole.state
        }),
{
    if s.frames@.len() == 0 || s.state is Holding {
    } else {
        broadcast use vstd::std_specs::vec::axiom_spec_len;

        assert(s.frames.len() == s.frames@.len());
        lemma_settle_bounds(s.policy, s.frames@, s.index as int, s.time_into_frame + a);
        lemma_settle_add(s.policy, s.frames@, s.index as int, s.time_into_frame + a, b as int);
        let (i1, a1, h1) = settle(s.policy, s.frames@, s.index as int, s.time_into_frame + a);
        let s1 = s.spec_updated(a);
        assert(s1.index == i1 && s1.time_into_frame == a1);
        if !h1 {
            assert(settle(s.policy, s.frames@, i1, a1 + b) == settle(
                s.policy,
                s.frames@,
                s.index as int,
                s.time_into_frame + a + b,
            ));
        } else {
            assert(settle(s.policy, s.frames@, s.index as int, s.time_into_frame + a + b) == (
                i1,
                a1,
                h1,
            ));
        }
    }
}

/// A well-formed player never invents indices: the current frame is always
/// one of the frames of the sequence.
pub proof fn lemma_index_always_valid(a: AnimationState)
    requires
        a.wf(),
        a.frames@.len() > 0,
    ensures
        a.index < a.frames@.len(),
        a.spec_current_sprite_id() == Some(a.frames@[a.index as int].sprite_id),
{
}

/// Per-entity playback state. An entity with no animation assigned simply
/// has no `AnimationState` at all; see `EntityData`.
#[derive(Debug, Clone)]
pub struct AnimationState {
    /// The ordered frame sequence being played.
    pub frames: Vec<Frame>,
    /// Index of the frame currently shown.
    pub index: usize,
    /// Elapsed-time accumulator: milliseconds already spent in the current
    /// frame.
    pub time_into_frame: u64,
    /// What to do past the last frame.
    pub policy: PlayPolicy,
    /// Playing or holding on the last frame.
    pub state: PlaybackState,
    /// Cached flag: did the latest `update` land on a different frame index
    /// than the one it started from?
    pub frame_changed: bool,
}

impl AnimationState {
    /// The whole effect of `update` as a function of the starting state:
    /// holding or empty animations only clear the changed flag, playing
    /// ones land where `settle` says.
    pub open spec fn spec_updated(self, delta_ms: u64) -> AnimationState {
        if self.frames@.len() == 0 || self.state is Holding {
            AnimationState { frame_changed: false, ..self }
        } else {
            let (i2, a2, h) = settle(
                self.policy,
                self.frames@,
                self.index as int,
                self.time_into_frame + delta_ms,
            );
            AnimationState {
                index: i2 as usize,
                time_into_frame: a2 as u64,
                state: if h {
                    PlaybackState::Holding
                } else {
                    PlaybackState::Playing
                },
                frame_changed: i2 != self.index,
                ..self
            }
        }
    }

    /// Well-formedness: the current index names a real frame, durations are
    /// positive, the accumulator sits strictly inside the current frame
    /// while playing, and holding only happens at the end of a `Once`
    /// animation. An empty frame sequence is the degenerate, inert state.
    pub open spec fn wf(self) -> bool {
        &&& durations_positive(self.frames@)
        &&& (self.frames@.len() == 0 ==> self.index == 0 && self.time_into_frame == 0
            && self.state is Playing)
        &&& (self.frames@.len() > 0 ==> {
            &&& self.index < self.frames@.len()
            &&& (self.state is Playing ==> self.time_into_frame < self.frames@[
                self.index as int].duration_ms)
            &&& (self.state is Holding ==> self.policy is Once && self.index == self.frames@.len()
                - 1 && self.time_into_frame == 0)
        })
    }

    /// Start playing `frames` from the beginning under `policy`. Assigning
    /// a new sequence to an entity means replacing its `AnimationState`
    /// with a fresh one, which re-enters `Playing`.
    pub fn new(frames: Vec<Frame>, policy: PlayPolicy) -> (r: Self)
        requires
            durations_positive(frames@),
        ensures
            r.frames == frames,
            r.policy == policy,
            r.index == 0,
            r.time_into_frame == 0,
            r.state is Playing,
            !r.frame_changed,
            r.wf(),
    {
        AnimationState {
            frames,
            index: 0,
            time_into_frame: 0,
            policy,
            state: PlaybackState::Playing,
            frame_changed: false,
        }
    }

    /// The sprite index of the current frame, or `None` for the degenerate
    /// empty animation.
    pub open spec fn spec_current_sprite_id(self) -> Option<usize> {
        if self.frames@.len() == 0 {
            None
        } else {
            Some(self.frames@[self.index as int].sprite_id)
        }
    }

    /// Returns the sprite index of the current frame.
    pub fn current_sprite_id(&self) -> (r: Option<usize>)
        requires
            self.wf(),
        ensures
            r == self.spec_current_sprite_id(),
    {
        if self.frames.len() == 0 {
            None
        } else {
            Some(self.frames[self.index].sprite_id)
        }
    }

    /// Did the latest `update` produce a new frame index?
    pub fn has_new_frame(&self) -> (r: bool)
        ensures
            r == self.frame_changed,
    {
        self.frame_changed
    }

    /// Advance playback by `delta_ms`: add the tick delta to the elapsed
    /// accumulator, then, while the accumulator covers the current frame's
    /// duration, consume it and advance to the next frame — wrapping for
    /// `Loop`, clamping into `Holding` for `Once`. A holding or empty
    /// animation is left untouched apart from clearing the changed flag.
    pub fn update(&mut self, delta_ms: u64)
        requires
            old(self).wf(),
            old(self).time_into_frame + delta_ms <= u64::MAX,
        ensures
            final(self).wf(),
            final(self).frames == old(self).frames,
            final(self).policy == old(self).policy,
            old(self).state is Holding || old(self).frames@.len() == 0 ==> {
                &&& final(self).index == old(self).index
                &&& final(self).time_into_frame == old(self).time_into_frame
                &&& final(self).state == old(self).state
                &&& !final(self).frame_changed
            },
            old(self).state is Playing && old(self).frames@.len() > 0 ==> {
                let (i2, a2, h) = settle(
                    old(self).policy,
                    old(self).frames@,
                    old(self).index as int,
                    old(self).time_into_frame + delta_ms,
                );
                &&& final(self).index == i2
                &&& final(self).time_into_frame == a2
                &&& final(self).state == (if h {
                    PlaybackState::Holding
                } else {
                    PlaybackState::Playing
                })
                &&& final(self).frame_changed == (i2 != old(self).index)
            },
            final(self).spec_current_sprite_id() is Some <==> old(self).spec_current_sprite_id()
                is Some,
            *final(self) == old(self).spec_updated(delta_ms),
    {
        self.frame_changed = false;
        if self.frames.len() == 0 {
            return ;
        }
        match self.state {
            PlaybackState::Holding => {
                return ;
            },
            PlaybackState::Playing => {},
        }
        let start_index: usize = self.index;
        let len: usize = self.frames.len();
        let mut idx: usize = self.index;
        let mut acc: u64 = self.time_into_frame + delta_ms;
        let mut holding: bool = false;
        let ghost acc0 = self.time_into_frame + delta_ms;
        loop
            invariant_except_break
                !holding,
                settle(self.policy, self.frames@, start_index as int, acc0) == settle(
                    self.policy,
                    self.frames@,
                    idx as int,
                    acc as int,
                ),
            invariant
                0 <= idx < len,
                len == self.frames@.len(),
                len >= 1,
                start_index < len,
                0 <= acc0,
                durations_positive(self.frames@),
                self.frames == old(self).frames,
                self.policy == old(self).policy,
                self.index == old(self).index,
                self.time_into_frame == old(self).time_into_frame,
                start_index == old(self).index,
                acc0 == old(self).time_into_frame + delta_ms,
            ensures
                settle(self.policy, self.frames@, start_index as int, acc0) == (
                    idx as int,
                    acc as int,
                    holding,
                ),
            decreases acc,
        {
            let dur = self.frames[idx].duration_ms;
            if acc < dur {
                break ;
            }
            let once = match self.policy {
                PlayPolicy::Once => true,
                PlayPolicy::Loop => false,
            };
            if once && idx + 1 == len {
                holding = true;
                acc = 0;
                break ;
            }
            idx = if idx + 1 == len {
                0
            } else {
                idx + 1
            };
            acc = acc - dur;
        }
        proof {
            lemma_settle_bounds(self.policy, self.frames@, start_index as int, acc0);
        }
        self.index = idx;
        self.time_into_frame = acc;
        self.state = if holding {
            PlaybackState::Holding
        } else {
            PlaybackState::Playing
        };
        self.frame_changed = idx != start_index;
    }
}

} // verus!
