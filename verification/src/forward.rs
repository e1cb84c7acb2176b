//! The way of a bundle from a component's call site to the node that renders:
//! judged at the call site, carried through the boundaries in between, taken
//! in or dropped at the node.

use vstd::prelude::*;
use crate::boundary::{all_transparent, classified, classify, deliver, Boundary, SlotShape};
use crate::bundle::AttributeBundle;
use crate::compose::{check, composed, CompositionError, Target, CAPACITY};
use crate::interceptor::InterceptorHandle;
use crate::node::RenderNode;

verus! {

/// Where the bundle addressed to a component goes.
#[derive(Debug)]
pub enum Routed {
    /// On to the component's root, to be merged there.
    ToRoot(AttributeBundle),
    /// Into a handle, for the component's body to place by hand.
    Captured(InterceptorHandle),
    /// Nowhere: the component's output is erased.
    Dropped,
}

/// Decides where the bundle addressed to a component goes. A component that
/// declares a capturing parameter gets it in a handle; otherwise it passes to
/// the root if the component's output slot keeps its shape, and is dropped if
/// the slot is erased.
pub fn route(bundle: AttributeBundle, captures: bool, shape: SlotShape) -> (r: Routed)
    ensures
        match r {
            Routed::Captured(handle) => captures && handle.pending() == Some(bundle),
            Routed::ToRoot(passed) => !captures && classified(shape) == Boundary::Transparent
                && passed == bundle,
            Routed::Dropped => !captures && classified(shape) == Boundary::Opaque,
        },
{
    if captures {
        Routed::Captured(InterceptorHandle::capture(bundle))
    } else {
        match classify(shape) {
            Boundary::Transparent => Routed::ToRoot(bundle),
            Boundary::Opaque => Routed::Dropped,
        }
    }
}

/// Whether a bundle sent along `path` arrives at a node with the tag `tag`:
/// every boundary on the way and the node itself must be transparent.
pub open spec fn arrives(path: Seq<Boundary>, tag: Boundary) -> bool {
    all_transparent(path) && tag == Boundary::Transparent
}

/// Sends the bundle of a component call inward to `node`, through the
/// boundaries of `path`.
///
/// A bundle that the call site may not compose is refused and the node stays
/// as it was. A bundle that meets an opaque boundary is dropped without an
/// error, and the node stays as it was too. Otherwise the node holds the
/// bundle as forwarded, after what was forwarded to it before.
pub fn forward(bundle: AttributeBundle, path: &Vec<Boundary>, node: &mut RenderNode) -> (r: Result<
    bool,
    CompositionError,
>)
    ensures
        final(node).tag() == old(node).tag(),
        final(node).live() == old(node).live(),
        final(node).local() == old(node).local(),
        match composed(bundle@, Target::Component, CAPACITY) {
            Err(e) => r == Err::<bool, CompositionError>(e) && final(node).forwarded() == old(node).forwarded(),
            Ok(_) => r == Ok::<bool, CompositionError>(arrives(path@, old(node).tag())) && final(node).forwarded() == if arrives(path@, old(node).tag()) {
                old(node).forwarded() + bundle.flat()
            } else {
                old(node).forwarded()
            },
        },
        !all_transparent(path@) ==> final(node).snapshot() == old(node).snapshot(),
{
    match check(&bundle, Target::Component) {
        Err(e) => Err(e),
        Ok(()) => match deliver(bundle, path) {
            Some(arrived) => Ok(node.receive(arrived)),
            None => Ok(false),
        },
    }
}

} // verus!
