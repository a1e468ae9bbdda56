//! The collision-tag matching protocol: a per-entity category value and a
//! pluggable, pure predicate deciding whether two categories interact.

use vstd::prelude::*;

verus! {

/// This tag is used for collision checking and when moving with solids.
/// Implement this trait for your own type to use with the external
/// broad/narrow-phase collision step: `collides_with` decides whether two
/// entities' categories should produce a contact at all.
///
/// Implementors state what their matcher returns through `collides_spec`;
/// custom matchers (asymmetric, many-to-many, hierarchical) are welcome, as
/// long as the executable answer agrees with the stated one.
pub trait CollisionTag: Send + Sync {
    /// What `collides_with` returns for this tag type.
    spec fn collides_spec(&self, other: &Self) -> bool;

    /// Pure matcher: `true` when the two categories interact.
    fn collides_with(&self, other: &Self) -> (r: bool)
        ensures
            r == self.collides_spec(other),
    ;
}

/// The "no category" tag: gameplay code has not opted into categorization,
/// so every pair of entities interacts.
impl CollisionTag for () {
    open spec fn collides_spec(&self, other: &Self) -> bool {
        true
    }

    fn collides_with(&self, other: &Self) -> (r: bool) {
        true
    }
}

/// A concrete equality-based category: two entities interact exactly when
/// they carry the same category number.
#[derive(Debug, Clone, Copy, PartialEq, Eq, Structural)]
pub struct CategoryTag {
    pub category: u64,
}

impl CollisionTag for CategoryTag {
    open spec fn collides_spec(&self, other: &Self) -> bool {
        self.category == other.category
    }

    fn collides_with(&self, other: &Self) -> (r: bool) {
        self.category == other.category
    }
}

/// The uncategorized tag matches every pair of instances.
pub proof fn lemma_default_tag_matches_all(a: (), b: ())
    ensures
        a.collides_spec(&b),
{
}

/// The equality tag matches exactly the equal category values.
pub proof fn lemma_category_tag_matches_iff_equal(a: CategoryTag, b: CategoryTag)
    ensures
        a.collides_spec(&b) <==> a.category == b.category,
{
}

} // verus!
