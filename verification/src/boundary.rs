//! Boundaries: whether a nesting point lets a forwarded bundle through.

use vstd::prelude::*;
use crate::bundle::AttributeBundle;

verus! {

/// The tag of a nesting point.
#[derive(Clone, Copy, Debug, PartialEq, Eq, Structural)]
pub enum Boundary {
    /// The concrete shape is kept: a bundle passes inward.
    Transparent,
    /// The shape was erased: a bundle that arrives is dropped.
    Opaque,
}

/// The statically known shape of a node's children or output slot.
#[derive(Clone, Copy, Debug, PartialEq, Eq, Structural)]
pub enum SlotShape {
    /// A concrete type, addressable all the way to the element that renders.
    Typed,
    /// A uniform representation that is dispatched at run time.
    Erased,
    /// A choice between two branches. With `unified`, both were erased into
    /// one shared type before the choice; without, both keep their shape.
    Conditional { unified: bool },
}

/// The tag that a slot of the given shape gets.
pub open spec fn classified(shape: SlotShape) -> Boundary {
    match shape {
        SlotShape::Typed => Boundary::Transparent,
        SlotShape::Erased => Boundary::Opaque,
        SlotShape::Conditional { unified } => if unified {
            Boundary::Opaque
        } else {
            Boundary::Transparent
        },
    }
}

/// Classifies a slot. A conditional whose branches were unified is opaque
/// whichever branch is chosen, since the erasure comes before the choice.
pub fn classify(shape: SlotShape) -> (tag: Boundary)
    ensures
        tag == classified(shape),
{
    match shape {
        SlotShape::Typed => Boundary::Transparent,
        SlotShape::Erased => Boundary::Opaque,
        SlotShape::Conditional { unified } => if unified {
            Boundary::Opaque
        } else {
            Boundary::Transparent
        },
    }
}

/// Every boundary of the path is transparent.
pub open spec fn all_transparent(path: Seq<Boundary>) -> bool {
    forall|i: int| 0 <= i < path.len() ==> path[i] == Boundary::Transparent
}

/// What arrives of `bundle` behind the boundaries of `path`: all of it where
/// every boundary is transparent, nothing otherwise.
pub open spec fn delivered(bundle: AttributeBundle, path: Seq<Boundary>) -> Option<
    AttributeBundle,
> {
    if all_transparent(path) {
        Some(bundle)
    } else {
        None
    }
}

/// Whether a bundle gets through every boundary of `path`.
pub fn passes(path: &Vec<Boundary>) -> (ok: bool)
    ensures
        ok == all_transparent(path@),
{
    let mut i: usize = 0;
    while i < path.len()
        invariant
            i <= path.len(),
            forall|j: int| 0 <= j < i ==> path@[j] == Boundary::Transparent,
        decreases path.len() - i,
    {
        match path[i] {
            Boundary::Opaque => {
                return false;
            },
            Boundary::Transparent => {},
        }
        i = i + 1;
    }
    true
}

/// Sends `bundle` inward through the boundaries of `path`, outermost first.
pub fn deliver(bundle: AttributeBundle, path: &Vec<Boundary>) -> (out: Option<AttributeBundle>)
    ensures
        out == delivered(bundle, path@),
{
    if passes(path) {
        Some(bundle)
    } else {
        None
    }
}

} // verus!
