//! Independent copies of bundles, for a caller that sends one set of
//! directives to several targets.

use vstd::prelude::*;
use crate::bundle::{
    class_list, flat_directive, flat_seq, AttributeBundle, AttributeDirective, Kind, ValueSource,
};
use crate::compose::{any_class_list, holds_class_list};

verus! {

/// A copy of a text source.
fn copy_text(source: &ValueSource<String>) -> (copy: ValueSource<String>)
    ensures
        copy == *source,
{
    match source {
        ValueSource::Static(v) => ValueSource::Static(v.clone()),
        ValueSource::Reactive { signal, current } => ValueSource::Reactive {
            signal: *signal,
            current: current.clone(),
        },
    }
}

/// A copy of a condition source.
fn copy_flag(source: &ValueSource<bool>) -> (copy: ValueSource<bool>)
    ensures
        copy == *source,
{
    match source {
        ValueSource::Static(v) => ValueSource::Static(*v),
        ValueSource::Reactive { signal, current } => ValueSource::Reactive {
            signal: *signal,
            current: *current,
        },
    }
}

/// A copy of a list of names.
fn copy_names(names: &Vec<String>) -> (copy: Vec<String>)
    ensures
        copy@ == names@,
{
    let mut copy: Vec<String> = Vec::new();
    let mut i: usize = 0;
    while i < names.len()
        invariant
            i <= names.len(),
            copy@ == names@.take(i as int),
        decreases names.len() - i,
    {
        copy.push(names[i].clone());
        assert(copy@ =~= names@.take(i + 1));
        i = i + 1;
    }
    assert(names@.take(names.len() as int) =~= names@);
    copy
}

/// A copy of one directive: it stands for the same entries at every depth.
fn copy_directive(d: &AttributeDirective) -> (copy: AttributeDirective)
    ensures
        copy.origin_depth == d.origin_depth,
        forall|depth: u32| #[trigger] flat_directive(copy, depth) == flat_directive(*d, depth),
        holds_class_list(copy) == holds_class_list(*d),
    decreases d,
{
    let kind: Kind = match &d.kind {
        Kind::FullAttr(v) => Kind::FullAttr(copy_text(v)),
        Kind::ClassToggle(c) => Kind::ClassToggle(copy_flag(c)),
        Kind::ClassListToggle(names, c) => Kind::ClassListToggle(copy_names(names), copy_flag(c)),
        Kind::StyleProp(v) => Kind::StyleProp(copy_text(v)),
        Kind::EventHandler(callback) => Kind::EventHandler(*callback),
        Kind::Spread(inner) => Kind::Spread(
            AttributeBundle { directives: copy_directives(&inner.directives) },
        ),
    };
    let copy = AttributeDirective { name: d.name.clone(), kind, origin_depth: d.origin_depth };
    assert forall|depth: u32| #[trigger]
        flat_directive(copy, depth) == flat_directive(*d, depth) by {
        match d.kind {
            Kind::FullAttr(v) => {
                assert(copy.kind == Kind::FullAttr(v));
            },
            Kind::ClassToggle(c) => {
                assert(copy.kind == Kind::ClassToggle(c));
            },
            Kind::ClassListToggle(names, c) => {
                assert(copy.kind is ClassListToggle);
                assert(flat_directive(copy, depth) =~= class_list(
                    names@,
                    c.spec_current(),
                    c.spec_signal(),
                    depth,
                ));
            },
            Kind::StyleProp(v) => {
                assert(copy.kind == Kind::StyleProp(v));
            },
            Kind::EventHandler(callback) => {
                assert(copy.kind == Kind::EventHandler(callback));
            },
            Kind::Spread(inner) => {
                assert(copy.kind is Spread);
                assert(flat_directive(copy, depth) == flat_seq(
                    copy.kind->Spread_0.directives@,
                    Some(depth),
                ));
                assert(flat_seq(copy.kind->Spread_0.directives@, Some(depth)) == flat_seq(
                    inner.directives@,
                    Some(depth),
                ));
            },
        }
    }
    copy
}

/// A copy of a run of directives: it stands for the same entries, has the
/// same length, and holds a class list exactly if `ds` does.
fn copy_directives(ds: &Vec<AttributeDirective>) -> (copy: Vec<AttributeDirective>)
    ensures
        copy@.len() == ds@.len(),
        forall|within: Option<u32>| #[trigger] flat_seq(copy@, within) == flat_seq(ds@, within),
        any_class_list(copy@) == any_class_list(ds@),
    decreases ds,
{
    let mut copy: Vec<AttributeDirective> = Vec::new();
    let mut i: usize = 0;
    assert(ds@.take(0) =~= copy@);
    while i < ds.len()
        invariant
            i <= ds.len(),
            copy@.len() == i,
            forall|within: Option<u32>| #[trigger]
                flat_seq(copy@, within) == flat_seq(ds@.take(i as int), within),
            any_class_list(copy@) == any_class_list(ds@.take(i as int)),
        decreases ds.len() - i,
    {
        let one = copy_directive(&ds[i]);
        let ghost before = copy@;
        copy.push(one);
        proof {
            let taken = ds@.take(i + 1);
            assert(taken.drop_last() =~= ds@.take(i as int));
            assert(taken.last() == ds@[i as int]);
            assert(copy@.drop_last() =~= before);
            assert(copy@.last() == one);
            assert forall|within: Option<u32>| #[trigger]
                flat_seq(copy@, within) == flat_seq(taken, within) by {
                assert(flat_seq(before, within) == flat_seq(ds@.take(i as int), within));
                match within {
                    Some(depth) => {
                        assert(flat_directive(one, depth) == flat_directive(ds@[i as int], depth));
                    },
                    None => {
                        assert(flat_directive(one, one.origin_depth) == flat_directive(
                            ds@[i as int],
                            one.origin_depth,
                        ));
                    },
                }
            }
        }
        i = i + 1;
    }
    assert(ds@.take(ds.len() as int) =~= ds@);
    copy
}

/// An independent copy of `bundle`. Wherever a bundle is used, the copy does
/// what `bundle` does: it stands for the same entries, on its own and inside a
/// spread, counts as many directives, and holds a class list exactly if
/// `bundle` does.
pub fn duplicate(bundle: &AttributeBundle) -> (copy: AttributeBundle)
    ensures
        copy@.len() == bundle@.len(),
        copy.flat() == bundle.flat(),
        forall|within: Option<u32>| #[trigger]
            flat_seq(copy@, within) == flat_seq(bundle@, within),
        any_class_list(copy@) == any_class_list(bundle@),
{
    AttributeBundle { directives: copy_directives(&bundle.directives) }
}

} // verus!
