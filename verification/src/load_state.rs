//! Streaming-activation data: entities carrying `Loadable` opt in to being
//! gated by the host's streaming logic, and `Loaded` marks the ones that are
//! currently inside the active region.

use vstd::prelude::*;

verus! {

/// Entities which have `Loadable` may be loaded or unloaded
/// (get or remove the `Loaded` component) later on.
///
/// The padding is a per-axis distance margin stored for the external
/// streaming logic; this crate stores it and never interprets it.
#[derive(Clone, Copy)]
pub struct Loadable {
    pub padding: (Option<u32>, Option<u32>),
}

impl Default for Loadable {
    /// No padding on either axis.
    fn default() -> (r: Self)
        ensures
            r.padding == (Option::<u32>::None, Option::<u32>::None),
    {
        Loadable { padding: (None, None) }
    }
}

impl Loadable {
    /// A `Loadable` with no padding on either axis.
    pub fn new() -> (r: Self)
        ensures
            r.padding == (Option::<u32>::None, Option::<u32>::None),
    {
        Loadable { padding: (None, None) }
    }

    /// Replace the padding margins, builder-style.
    pub fn with_padding(self, padding: (Option<u32>, Option<u32>)) -> (r: Self)
        ensures
            r.padding == padding,
    {
        Loadable { padding }
    }

    /// The stored per-axis padding margins.
    pub fn padding(&self) -> (r: (Option<u32>, Option<u32>))
        ensures
            r == self.padding,
    {
        self.padding
    }
}

/// Entities which have `Loadable` and `Loaded` will be included in the
/// per-frame gated systems (animation playback, collision detection).
/// Presence-only marker: attached and removed by external streaming logic.
#[derive(Clone, Copy, PartialEq, Eq, Structural)]
pub struct Loaded;

impl Default for Loaded {
    fn default() -> (r: Self)
        ensures
            r == Loaded,
    {
        Loaded
    }
}

/// Whether an entity takes part in this frame's gated systems.
///
/// An entity with no `Loadable` is not subject to gating at all and is
/// always eligible; one with `Loadable` is eligible exactly when the
/// `Loaded` marker is present.
pub open spec fn spec_is_eligible(loadable: Option<Loadable>, loaded: Option<Loaded>) -> bool {
    loadable is None || loaded is Some
}

/// The single predicate every gated per-frame system consults before doing
/// per-entity work.
pub fn is_eligible(loadable: &Option<Loadable>, loaded: &Option<Loaded>) -> (r: bool)
    ensures
        r == spec_is_eligible(*loadable, *loaded),
{
    match loadable {
        None => true,
        Some(_) => loaded.is_some(),
    }
}

/// An entity without `Loadable` is eligible whatever the marker state is.
pub proof fn lemma_ungated_always_eligible(loaded: Option<Loaded>)
    ensures
        spec_is_eligible(None, loaded),
{
}

/// An entity with `Loadable` is eligible exactly when `Loaded` is present.
pub proof fn lemma_gated_eligible_iff_loaded(gate: Loadable, loaded: Option<Loaded>)
    ensures
        spec_is_eligible(Some(gate), loaded) <==> loaded is Some,
{
}

} // verus!
