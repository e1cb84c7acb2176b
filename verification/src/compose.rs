//! Composition-time checks: what a call site may hand to its target.
//!
//! A bundle that crosses a typed component boundary has a bounded number of
//! directives, a spread counting as one. A class list can only be composed
//! onto a leaf element, never onto a component call, whether it stands in the
//! bundle itself or inside a spread.

use vstd::prelude::*;
use vstd::string::*;
use crate::bundle::{AttributeBundle, AttributeDirective, Kind};
use crate::decimal::{digits, push_digits};

verus! {

/// The number of directives that one typed boundary accepts. Every boundary
/// uses this one bound unless a caller states another.
pub const CAPACITY: usize = 26;

/// Why a composition is refused.
#[derive(Clone, Copy, Debug, PartialEq, Eq, Structural)]
pub enum CompositionError {
    /// The bundle holds `count` directives, more than the boundary's
    /// `capacity`.
    CapacityExceeded { count: usize, capacity: usize },
    /// A class list was composed onto a component call.
    NonLeafTarget,
    /// An interceptor handle was spread a second time.
    AlreadyConsumed,
}

impl CompositionError {
    /// The diagnostic in words; for a bundle that is too long it names the
    /// number of directives and the capacity.
    pub open spec fn spec_message(self) -> Seq<char> {
        match self {
            CompositionError::CapacityExceeded { count, capacity } => "capacity exceeded: "@
                + digits(count as nat) + " directives, at most "@ + digits(capacity as nat)
                + " cross one typed boundary"@,
            CompositionError::NonLeafTarget =>
                "non-leaf target: a class list cannot be composed onto a component"@,
            CompositionError::AlreadyConsumed =>
                "already consumed: an interceptor handle is spread once"@,
        }
    }

    /// The diagnostic in words.
    pub fn message(&self) -> (text: String)
        ensures
            text@ == self.spec_message(),
    {
        match self {
            CompositionError::CapacityExceeded { count, capacity } => {
                let mut text: String = String::from_str("capacity exceeded: ");
                push_digits(*count as u64, &mut text);
                text.append(" directives, at most ");
                push_digits(*capacity as u64, &mut text);
                text.append(" cross one typed boundary");
                text
            },
            CompositionError::NonLeafTarget => String::from_str(
                "non-leaf target: a class list cannot be composed onto a component",
            ),
            CompositionError::AlreadyConsumed => String::from_str(
                "already consumed: an interceptor handle is spread once",
            ),
        }
    }
}

/// What a bundle is composed onto.
#[derive(Clone, Copy, Debug, PartialEq, Eq, Structural)]
pub enum Target {
    /// A concrete element that renders.
    Leaf,
    /// A component call, which relays the bundle further inward.
    Component,
}

/// Whether `d` is a class list or spreads a bundle that holds one.
pub open spec fn holds_class_list(d: AttributeDirective) -> bool
    decreases d,
{
    match d.kind {
        Kind::ClassListToggle(_, _) => true,
        Kind::Spread(b) => any_class_list(b.directives@),
        _ => false,
    }
}

/// Whether a class list stands among `ds`, at any depth of spreading.
pub open spec fn any_class_list(ds: Seq<AttributeDirective>) -> bool
    decreases ds,
{
    if ds.len() == 0 {
        false
    } else {
        any_class_list(ds.drop_last()) || holds_class_list(ds.last())
    }
}

/// The verdict on composing `ds` onto `target` through a boundary that
/// accepts `capacity` directives. The count is judged first.
pub open spec fn composed(ds: Seq<AttributeDirective>, target: Target, capacity: usize) -> Result<
    (),
    CompositionError,
> {
    if ds.len() > capacity {
        Err(CompositionError::CapacityExceeded { count: ds.len() as usize, capacity })
    } else if target == Target::Component && any_class_list(ds) {
        Err(CompositionError::NonLeafTarget)
    } else {
        Ok(())
    }
}

/// Whether a class list stands among `ds`, at any depth of spreading.
pub fn has_class_list(ds: &Vec<AttributeDirective>) -> (found: bool)
    ensures
        found == any_class_list(ds@),
    decreases ds,
{
    let mut i: usize = 0;
    assert(ds@.take(0) =~= Seq::<AttributeDirective>::empty());
    while i < ds.len()
        invariant
            i <= ds.len(),
            !any_class_list(ds@.take(i as int)),
        decreases ds.len() - i,
    {
        proof {
            assert(ds@.take(i + 1).drop_last() =~= ds@.take(i as int));
            assert(ds@.take(i + 1).last() == ds@[i as int]);
        }
        let holds: bool = match &ds[i].kind {
            Kind::ClassListToggle(_, _) => true,
            Kind::Spread(inner) => has_class_list(&inner.directives),
            _ => false,
        };
        assert(holds == holds_class_list(ds@[i as int]));
        assert(any_class_list(ds@.take(i + 1)) == (any_class_list(ds@.take(i as int))
            || holds_class_list(ds@[i as int])));
        if holds {
            proof {
                lemma_class_list_stays(ds@, i + 1);
            }
            return true;
        }
        i = i + 1;
    }
    assert(ds@.take(ds.len() as int) =~= ds@);
    false
}

/// A class list among the first `n` directives is one among all of them.
pub proof fn lemma_class_list_stays(ds: Seq<AttributeDirective>, n: int)
    requires
        0 <= n <= ds.len(),
        any_class_list(ds.take(n)),
    ensures
        any_class_list(ds),
    decreases ds.len() - n,
{
    if n < ds.len() {
        assert(ds.take(n + 1).drop_last() =~= ds.take(n));
        lemma_class_list_stays(ds, n + 1);
    } else {
        assert(ds.take(n) =~= ds);
    }
}

/// Judges the composition of `bundle` onto `target` through a boundary that
/// accepts `capacity` directives.
pub fn check_with_capacity(bundle: &AttributeBundle, target: Target, capacity: usize) -> (r: Result<
    (),
    CompositionError,
>)
    ensures
        r == composed(bundle@, target, capacity),
{
    let count: usize = bundle.len();
    if count > capacity {
        return Err(CompositionError::CapacityExceeded { count, capacity });
    }
    match target {
        Target::Component => {
            if has_class_list(&bundle.directives) {
                Err(CompositionError::NonLeafTarget)
            } else {
                Ok(())
            }
        },
        Target::Leaf => Ok(()),
    }
}

/// Judges the composition of `bundle` onto `target` at the common capacity.
pub fn check(bundle: &AttributeBundle, target: Target) -> (r: Result<(), CompositionError>)
    ensures
        r == composed(bundle@, target, CAPACITY),
{
    check_with_capacity(bundle, target, CAPACITY)
}

/// Hands `bundle` over to `target`: the bundle itself where the composition
/// is sound, the reason where it is not.
pub fn compose(bundle: AttributeBundle, target: Target) -> (r: Result<
    AttributeBundle,
    CompositionError,
>)
    ensures
        match r {
            Ok(b) => composed(bundle@, target, CAPACITY) is Ok && b == bundle,
            Err(e) => composed(bundle@, target, CAPACITY) == Err::<(), CompositionError>(e),
        },
{
    match check(&bundle, target) {
        Ok(()) => Ok(bundle),
        Err(e) => Err(e),
    }
}

} // verus!
