//! Flattening: from the directives of a bundle to the entries that the merge
//! works on.

use vstd::prelude::*;
use crate::bundle::{class_list, flat_directive, flat_seq, AttributeBundle, AttributeDirective, Callback, Entry, Kind};

verus! {

/// An entry in executable form: one directive that is neither a spread nor a
/// class list, with the value it holds now.
#[derive(Debug)]
pub enum Resolved {
    Attr { name: String, value: String, signal: Option<u64>, depth: u32 },
    Class { name: String, active: bool, signal: Option<u64>, depth: u32 },
    Style { property: String, value: String, signal: Option<u64>, depth: u32 },
    Handler { event: String, callback: Callback, depth: u32 },
}

impl View for Resolved {
    type V = Entry;

    open spec fn view(&self) -> Entry {
        match *self {
            Resolved::Attr { name, value, signal, depth } => Entry::Attr {
                name: name@,
                value: value@,
                signal,
                depth,
            },
            Resolved::Class { name, active, signal, depth } => Entry::Class {
                name: name@,
                active,
                signal,
                depth,
            },
            Resolved::Style { property, value, signal, depth } => Entry::Style {
                property: property@,
                value: value@,
                signal,
                depth,
            },
            Resolved::Handler { event, callback, depth } => Entry::Handler {
                event: event@,
                callback,
                depth,
            },
        }
    }
}

/// The entries that a vector of resolved directives stands for.
pub open spec fn entries(v: Seq<Resolved>) -> Seq<Entry> {
    v.map_values(|r: Resolved| r@)
}

impl Resolved {
    /// A copy that stands for the same entry.
    pub fn duplicate(&self) -> (r: Resolved)
        ensures
            r@ == self@,
    {
        match self {
            Resolved::Attr { name, value, signal, depth } => Resolved::Attr {
                name: name.clone(),
                value: value.clone(),
                signal: *signal,
                depth: *depth,
            },
            Resolved::Class { name, active, signal, depth } => Resolved::Class {
                name: name.clone(),
                active: *active,
                signal: *signal,
                depth: *depth,
            },
            Resolved::Style { property, value, signal, depth } => Resolved::Style {
                property: property.clone(),
                value: value.clone(),
                signal: *signal,
                depth: *depth,
            },
            Resolved::Handler { event, callback, depth } => Resolved::Handler {
                event: event.clone(),
                callback: *callback,
                depth: *depth,
            },
        }
    }
}

/// Appends to `out` one class entry per name of a class list.
fn push_class_list(
    names: &Vec<String>,
    active: bool,
    signal: Option<u64>,
    depth: u32,
    out: &mut Vec<Resolved>,
)
    ensures
        entries(final(out)@) == entries(old(out)@) + class_list(names@, active, signal, depth),
{
    let mut j: usize = 0;
    assert(entries(out@) =~= entries(old(out)@) + class_list(names@.take(0), active, signal, depth));
    while j < names.len()
        invariant
            j <= names.len(),
            entries(out@) == entries(old(out)@) + class_list(
                names@.take(j as int),
                active,
                signal,
                depth,
            ),
        decreases names.len() - j,
    {
        let ghost before = out@;
        out.push(Resolved::Class { name: names[j].clone(), active, signal, depth });
        assert(entries(out@) =~= entries(before).push(
            Entry::Class { name: names@[j as int]@, active, signal, depth },
        ));
        assert(class_list(names@.take(j + 1), active, signal, depth) =~= class_list(
            names@.take(j as int),
            active,
            signal,
            depth,
        ).push(Entry::Class { name: names@[j as int]@, active, signal, depth }));
        j = j + 1;
    }
    assert(names@.take(names.len() as int) =~= names@);
}

/// Appends to `out` the entries of `ds`, in order.
fn flatten_into(ds: &Vec<AttributeDirective>, within: Option<u32>, out: &mut Vec<Resolved>)
    ensures
        entries(final(out)@) == entries(old(out)@) + flat_seq(ds@, within),
    decreases ds,
{
    let mut i: usize = 0;
    assert(ds@.take(0) =~= Seq::<AttributeDirective>::empty());
    assert(entries(out@) =~= entries(old(out)@) + flat_seq(ds@.take(0), within));
    while i < ds.len()
        invariant
            i <= ds.len(),
            entries(out@) == entries(old(out)@) + flat_seq(ds@.take(i as int), within),
        decreases ds.len() - i,
    {
        let d = &ds[i];
        let depth: u32 = match within {
            Some(fixed) => fixed,
            None => d.origin_depth,
        };
        let ghost before = out@;
        proof {
            assert(ds@.take(i + 1).drop_last() =~= ds@.take(i as int));
            assert(ds@.take(i + 1).last() == ds@[i as int]);
        }
        match &d.kind {
            Kind::FullAttr(v) => {
                out.push(
                    Resolved::Attr {
                        name: d.name.clone(),
                        value: v.current().clone(),
                        signal: v.signal(),
                        depth,
                    },
                );
                assert(entries(out@) =~= entries(before) + flat_directive(*d, depth));
            },
            Kind::ClassToggle(c) => {
                out.push(
                    Resolved::Class {
                        name: d.name.clone(),
                        active: *c.current(),
                        signal: c.signal(),
                        depth,
                    },
                );
                assert(entries(out@) =~= entries(before) + flat_directive(*d, depth));
            },
            Kind::ClassListToggle(names, c) => {
                push_class_list(names, *c.current(), c.signal(), depth, out);
            },
            Kind::StyleProp(v) => {
                out.push(
                    Resolved::Style {
                        property: d.name.clone(),
                        value: v.current().clone(),
                        signal: v.signal(),
                        depth,
                    },
                );
                assert(entries(out@) =~= entries(before) + flat_directive(*d, depth));
            },
            Kind::EventHandler(callback) => {
                out.push(Resolved::Handler { event: d.name.clone(), callback: *callback, depth });
                assert(entries(out@) =~= entries(before) + flat_directive(*d, depth));
            },
            Kind::Spread(inner) => {
                flatten_into(&inner.directives, Some(depth), out);
            },
        }
        assert(entries(out@) =~= entries(old(out)@) + flat_seq(ds@.take(i + 1), within));
        i = i + 1;
    }
    assert(ds@.take(ds.len() as int) =~= ds@);
}

/// The entries of a bundle: spreads opened, class lists expanded, each value
/// as its source holds it now.
pub fn flatten(bundle: &AttributeBundle) -> (out: Vec<Resolved>)
    ensures
        entries(out@) == bundle.flat(),
{
    let mut out: Vec<Resolved> = Vec::new();
    flatten_into(&bundle.directives, None, &mut out);
    assert(entries(Seq::<Resolved>::empty()) =~= Seq::<Entry>::empty());
    out
}

} // verus!
