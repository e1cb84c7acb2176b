//! Interceptor handles: a bundle captured at a component, to be placed by
//! hand on one node of the component's body.
//!
//! A handle is spent by its first spread. A handle that is never spread is
//! simply dropped, and its directives with it: a wrapper may choose to ignore
//! what its caller supplied.

use vstd::prelude::*;
use crate::bundle::AttributeBundle;
use crate::compose::CompositionError;
use crate::node::RenderNode;

verus! {

/// A single-use token that holds the bundle addressed to a component.
#[derive(Debug)]
pub struct InterceptorHandle {
    captured: Option<AttributeBundle>,
}

impl InterceptorHandle {
    /// The bundle that waits in the handle; none once it was spread.
    pub closed spec fn pending(&self) -> Option<AttributeBundle> {
        self.captured
    }

    /// Binds the bundle addressed to a component into a handle, in place of
    /// forwarding it to the component's root.
    pub fn capture(bundle: AttributeBundle) -> (handle: InterceptorHandle)
        ensures
            handle.pending() == Some(bundle),
    {
        InterceptorHandle { captured: Some(bundle) }
    }

    /// Whether the handle was spread already.
    pub fn is_consumed(&self) -> (spent: bool)
        ensures
            spent == (self.pending() is None),
    {
        self.captured.is_none()
    }

    /// Places the captured bundle on `target`, which merges it with its own
    /// directives as it would a forwarded bundle. The second spread of one
    /// handle is refused and leaves the target as it was.
    pub fn spread(&mut self, target: &mut RenderNode) -> (r: Result<(), CompositionError>)
        ensures
            final(self).pending() is None,
            final(target).tag() == old(target).tag(),
            final(target).live() == old(target).live(),
            final(target).local() == old(target).local(),
            match old(self).pending() {
                Some(bundle) => r == Ok::<(), CompositionError>(()) && final(target).forwarded()
                    == old(target).forwarded() + bundle.flat(),
                None => r == Err::<(), CompositionError>(CompositionError::AlreadyConsumed)
                    && final(target).forwarded() == old(target).forwarded(),
            },
    {
        match self.captured.take() {
            Some(bundle) => {
                target.place(bundle);
                Ok(())
            },
            None => Err(CompositionError::AlreadyConsumed),
        }
    }
}

} // verus!
