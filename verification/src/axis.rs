//! A plain two-variant axis enum used by the surrounding geometry code.

use vstd::prelude::*;

verus! {

/// Just a plain `Axis` enum with `X` and `Y` variants.
#[derive(Debug, Clone, Copy, PartialEq, Eq, Hash, Structural)]
pub enum Axis {
    X,
    Y,
}

impl Axis {
    /// This iterator-like method simply executes the passed closure with
    /// the `X` variant and then for the `Y` variant.
    pub fn for_each<C>(iterate: C) where
        C: Fn(Axis),

        requires
            call_requires(iterate, (Axis::X,)),
            call_requires(iterate, (Axis::Y,)),
    {
        iterate(Axis::X);
        iterate(Axis::Y);
    }

    /// Returns `true` if this is the `X` variant.
    pub fn is_x(&self) -> (r: bool)
        ensures
            r == (*self == Axis::X),
    {
        Axis::X == *self
    }

    /// Returns `true` if this is the `Y` variant.
    pub fn is_y(&self) -> (r: bool)
        ensures
            r == (*self == Axis::Y),
    {
        Axis::Y == *self
    }

    /// The axis's lower-case name, as the surrounding code prints it.
    pub fn name(&self) -> (r: &'static str)
        ensures
            *self == Axis::X ==> r@ == "x"@,
            *self == Axis::Y ==> r@ == "y"@,
    {
        match self {
            Axis::X => "x",
            Axis::Y => "y",
        }
    }
}

} // verus!
