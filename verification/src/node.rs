//! Render nodes: the elements that own a merged attribute set, and the
//! rebinding of their reactive entries.
//!
//! A node resolves its directives once, when it is built or when a bundle
//! arrives. Afterwards the reactive runtime reports new values signal by
//! signal; the node takes each in, and its snapshot is always the merge of the
//! entries as they stand.

use vstd::prelude::*;
use crate::boundary::{classified, classify, Boundary, SlotShape};
use crate::bundle::{AttributeBundle, Entry};
use crate::changes::{changes, is_update, updates, Change, Update};
use crate::merge::{merge_entries, merged, EffectiveAttributes, Snapshot};
use crate::resolve::{entries, flatten, Resolved};

verus! {

/// `e` after the signal `signal` reported the condition `value`.
pub open spec fn with_flag(e: Entry, signal: u64, value: bool) -> Entry {
    match e {
        Entry::Class { name, active, signal: s, depth } => if s == Some(signal) {
            Entry::Class { name, active: value, signal: s, depth }
        } else {
            e
        },
        _ => e,
    }
}

/// `e` after the signal `signal` reported the text `value`.
pub open spec fn with_text(e: Entry, signal: u64, value: Seq<char>) -> Entry {
    match e {
        Entry::Attr { name, value: v, signal: s, depth } => if s == Some(signal) {
            Entry::Attr { name, value, signal: s, depth }
        } else {
            e
        },
        Entry::Style { property, value: v, signal: s, depth } => if s == Some(signal) {
            Entry::Style { property, value, signal: s, depth }
        } else {
            e
        },
        _ => e,
    }
}

/// The entries after the signal reported a condition.
pub open spec fn flag_rebound(es: Seq<Entry>, signal: u64, value: bool) -> Seq<Entry> {
    es.map_values(|e: Entry| with_flag(e, signal, value))
}

/// The entries after the signal reported a text.
pub open spec fn text_rebound(es: Seq<Entry>, signal: u64, value: Seq<char>) -> Seq<Entry> {
    es.map_values(|e: Entry| with_text(e, signal, value))
}

/// The signal that `e` listens to, if its value is reactive.
pub open spec fn signal_of(e: Entry) -> Option<u64> {
    match e {
        Entry::Attr { signal, .. } => signal,
        Entry::Class { signal, .. } => signal,
        Entry::Style { signal, .. } => signal,
        Entry::Handler { .. } => None,
    }
}

/// The signals that the entries listen to, one per reactive entry, in order.
pub open spec fn signals_of(es: Seq<Entry>) -> Seq<u64>
    decreases es.len(),
{
    if es.len() == 0 {
        Seq::empty()
    } else {
        match signal_of(es.last()) {
            Some(s) => signals_of(es.drop_last()).push(s),
            None => signals_of(es.drop_last()),
        }
    }
}

/// The signals of two runs are those of the first, then those of the second.
pub proof fn lemma_signals_concat(a: Seq<Entry>, b: Seq<Entry>)
    ensures
        signals_of(a + b) == signals_of(a) + signals_of(b),
    decreases b.len(),
{
    if b.len() == 0 {
        assert(a + b =~= a);
        assert(signals_of(a) + signals_of(b) =~= signals_of(a));
    } else {
        assert((a + b).drop_last() =~= a + b.drop_last());
        lemma_signals_concat(a, b.drop_last());
        assert(signals_of(a + b) =~= signals_of(a) + signals_of(b));
    }
}

/// Takes a reported condition into the entries; says whether any changed.
fn rebind_flag(es: &mut Vec<Resolved>, signal: u64, value: bool) -> (changed: bool)
    ensures
        entries(final(es)@) == flag_rebound(entries(old(es)@), signal, value),
        changed == (entries(final(es)@) != entries(old(es)@)),
{
    let ghost before = entries(es@);
    let mut changed: bool = false;
    let mut i: usize = 0;
    while i < es.len()
        invariant
            i <= es.len(),
            es@.len() == before.len(),
            forall|j: int| 0 <= j < i ==> es@[j]@ == with_flag(before[j], signal, value),
            forall|j: int| i <= j < es@.len() ==> es@[j]@ == before[j],
            changed == exists|j: int| 0 <= j < i && with_flag(before[j], signal, value) != before[j],
        decreases es.len() - i,
    {
        let ghost was = changed;
        let mut replacement: Option<Resolved> = None;
        match &es[i] {
            Resolved::Class { name, active, signal: s, depth } => {
                if *s == Some(signal) {
                    if *active != value {
                        changed = true;
                    }
                    replacement = Some(
                        Resolved::Class {
                            name: name.clone(),
                            active: value,
                            signal: *s,
                            depth: *depth,
                        },
                    );
                }
            },
            _ => {},
        }
        match replacement {
            Some(entry) => {
                es.set(i, entry);
            },
            None => {},
        }
        proof {
            let idx = i as int;
            assert(es@[idx]@ == with_flag(before[idx], signal, value));
            if changed && !was {
                assert(with_flag(before[idx], signal, value) != before[idx]);
            }
            if !changed {
                assert(with_flag(before[idx], signal, value) == before[idx]);
            }
        }
        i = i + 1;
    }
    proof {
        assert(entries(es@) =~= flag_rebound(before, signal, value));
        if changed {
            let j = choose|j: int| 0 <= j < before.len() && with_flag(before[j], signal, value) != before[j];
            assert(entries(es@)[j] != before[j]);
        } else {
            assert(entries(es@) =~= before);
        }
    }
    changed
}

/// Takes a reported text into the entries; says whether any changed.
fn rebind_text(es: &mut Vec<Resolved>, signal: u64, value: &String) -> (changed: bool)
    ensures
        entries(final(es)@) == text_rebound(entries(old(es)@), signal, value@),
        changed == (entries(final(es)@) != entries(old(es)@)),
{
    let ghost before = entries(es@);
    let mut changed: bool = false;
    let mut i: usize = 0;
    while i < es.len()
        invariant
            i <= es.len(),
            es@.len() == before.len(),
            forall|j: int| 0 <= j < i ==> es@[j]@ == with_text(before[j], signal, value@),
            forall|j: int| i <= j < es@.len() ==> es@[j]@ == before[j],
            changed == exists|j: int|
                0 <= j < i && with_text(before[j], signal, value@) != before[j],
        decreases es.len() - i,
    {
        let ghost was = changed;
        let mut replacement: Option<Resolved> = None;
        match &es[i] {
            Resolved::Attr { name, value: v, signal: s, depth } => {
                if *s == Some(signal) {
                    if *v != *value {
                        changed = true;
                    }
                    replacement = Some(
                        Resolved::Attr {
                            name: name.clone(),
                            value: value.clone(),
                            signal: *s,
                            depth: *depth,
                        },
                    );
                }
            },
            Resolved::Style { property, value: v, signal: s, depth } => {
                if *s == Some(signal) {
                    if *v != *value {
                        changed = true;
                    }
                    replacement = Some(
                        Resolved::Style {
                            property: property.clone(),
                            value: value.clone(),
                            signal: *s,
                            depth: *depth,
                        },
                    );
                }
            },
            _ => {},
        }
        match replacement {
            Some(entry) => {
                es.set(i, entry);
            },
            None => {},
        }
        proof {
            let idx = i as int;
            assert(es@[idx]@ == with_text(before[idx], signal, value@));
            if changed && !was {
                assert(with_text(before[idx], signal, value@) != before[idx]);
            }
            if !changed {
                assert(with_text(before[idx], signal, value@) == before[idx]);
            }
        }
        i = i + 1;
    }
    proof {
        assert(entries(es@) =~= text_rebound(before, signal, value@));
        if changed {
            let j = choose|j: int|
                0 <= j < before.len() && with_text(before[j], signal, value@) != before[j];
            assert(entries(es@)[j] != before[j]);
        } else {
            assert(entries(es@) =~= before);
        }
    }
    changed
}

/// Appends to `out` the signals that the entries listen to.
fn collect_signals(es: &Vec<Resolved>, out: &mut Vec<u64>)
    ensures
        final(out)@ == old(out)@ + signals_of(entries(es@)),
{
    let mut i: usize = 0;
    assert(entries(es@).take(0) =~= Seq::<Entry>::empty());
    assert(out@ =~= old(out)@ + signals_of(entries(es@).take(0)));
    while i < es.len()
        invariant
            i <= es.len(),
            out@ == old(out)@ + signals_of(entries(es@).take(i as int)),
        decreases es.len() - i,
    {
        proof {
            assert(entries(es@).take(i + 1).drop_last() =~= entries(es@).take(i as int));
            assert(entries(es@).take(i + 1).last() == es@[i as int]@);
        }
        let signal: Option<u64> = match &es[i] {
            Resolved::Attr { signal, .. } => *signal,
            Resolved::Class { signal, .. } => *signal,
            Resolved::Style { signal, .. } => *signal,
            Resolved::Handler { .. } => None,
        };
        match signal {
            Some(s) => {
                out.push(s);
                assert(out@ =~= old(out)@ + signals_of(entries(es@).take(i + 1)));
            },
            None => {},
        }
        i = i + 1;
    }
    assert(entries(es@).take(es.len() as int) =~= entries(es@));
}

/// An element that renders: its own entries, the entries forwarded to it,
/// and the tag it got when it was built.
#[derive(Debug)]
pub struct RenderNode {
    tag: Boundary,
    local: Vec<Resolved>,
    forwarded: Vec<Resolved>,
    live: bool,
}

impl RenderNode {
    /// The tag the node was built with.
    pub closed spec fn tag(&self) -> Boundary {
        self.tag
    }

    /// The entries the node declares itself.
    pub closed spec fn local(&self) -> Seq<Entry> {
        entries(self.local@)
    }

    /// The entries that were forwarded to the node, in order of arrival.
    pub closed spec fn forwarded(&self) -> Seq<Entry> {
        entries(self.forwarded@)
    }

    /// Whether the node is still in the tree.
    pub closed spec fn live(&self) -> bool {
        self.live
    }

    /// What the node renders with.
    pub open spec fn snapshot(&self) -> Snapshot {
        merged(self.local(), self.forwarded())
    }

    /// A node reached through a slot of the given shape, with the directives
    /// it declares. Nothing is forwarded to it yet.
    pub fn new(shape: SlotShape, local: &AttributeBundle) -> (node: RenderNode)
        ensures
            node.tag() == classified(shape),
            node.local() == local.flat(),
            node.forwarded() == Seq::<Entry>::empty(),
            node.live(),
    {
        let node = RenderNode {
            tag: classify(shape),
            local: flatten(local),
            forwarded: Vec::new(),
            live: true,
        };
        assert(node.forwarded() =~= Seq::<Entry>::empty());
        node
    }

    /// The tag the node was built with.
    pub fn boundary(&self) -> (tag: Boundary)
        ensures
            tag == self.tag(),
    {
        self.tag
    }

    /// Whether the node is still in the tree.
    pub fn is_live(&self) -> (live: bool)
        ensures
            live == self.live(),
    {
        self.live
    }

    /// Attaches `bundle` to the node as forwarded, after what was forwarded
    /// before. This is how a component body places a bundle by hand.
    pub fn place(&mut self, bundle: AttributeBundle)
        ensures
            final(self).tag() == old(self).tag(),
            final(self).live() == old(self).live(),
            final(self).local() == old(self).local(),
            final(self).forwarded() == old(self).forwarded() + bundle.flat(),
    {
        let mut arrived = flatten(&bundle);
        let ghost before = self.forwarded@;
        let ghost added = arrived@;
        self.forwarded.append(&mut arrived);
        assert(entries(self.forwarded@) =~= entries(before) + entries(added));
    }

    /// Forwards `bundle` to the node. A transparent node takes it; an opaque
    /// node drops it and stays as it was.
    pub fn receive(&mut self, bundle: AttributeBundle) -> (taken: bool)
        ensures
            taken == (old(self).tag() == Boundary::Transparent),
            final(self).tag() == old(self).tag(),
            final(self).live() == old(self).live(),
            final(self).local() == old(self).local(),
            final(self).forwarded() == if taken {
                old(self).forwarded() + bundle.flat()
            } else {
                old(self).forwarded()
            },
    {
        match self.tag {
            Boundary::Transparent => {
                self.place(bundle);
                true
            },
            Boundary::Opaque => false,
        }
    }

    /// The attributes the node ends up with.
    pub fn effective(&self) -> (r: EffectiveAttributes)
        ensures
            r@ == self.snapshot(),
    {
        merge_entries(&self.local, &self.forwarded)
    }

    /// The signals the node has to be subscribed to: one per reactive entry,
    /// local entries first. A node that left the tree has none.
    pub fn subscriptions(&self) -> (signals: Vec<u64>)
        ensures
            signals@ == if self.live() {
                signals_of(self.local() + self.forwarded())
            } else {
                Seq::<u64>::empty()
            },
    {
        let mut signals: Vec<u64> = Vec::new();
        if self.live {
            collect_signals(&self.local, &mut signals);
            collect_signals(&self.forwarded, &mut signals);
            proof {
                lemma_signals_concat(self.local(), self.forwarded());
            }
        }
        signals
    }

    /// Takes in the condition that `signal` reported. A node that left the
    /// tree ignores it. Says whether an entry changed.
    pub fn notify_flag(&mut self, signal: u64, value: bool) -> (changed: bool)
        ensures
            final(self).tag() == old(self).tag(),
            final(self).live() == old(self).live(),
            old(self).live() ==> final(self).local() == flag_rebound(
                old(self).local(),
                signal,
                value,
            ) && final(self).forwarded() == flag_rebound(old(self).forwarded(), signal, value),
            !old(self).live() ==> final(self).local() == old(self).local() && final(self).forwarded() == old(self).forwarded(),
            changed == (final(self).local() != old(self).local() || final(self).forwarded() != old(self).forwarded()),
    {
        if !self.live {
            return false;
        }
        let here = rebind_flag(&mut self.local, signal, value);
        let there = rebind_flag(&mut self.forwarded, signal, value);
        here || there
    }

    /// Takes in the text that `signal` reported. A node that left the tree
    /// ignores it. Says whether an entry changed.
    pub fn notify_text(&mut self, signal: u64, value: &str) -> (changed: bool)
        ensures
            final(self).tag() == old(self).tag(),
            final(self).live() == old(self).live(),
            old(self).live() ==> final(self).local() == text_rebound(
                old(self).local(),
                signal,
                value@,
            ) && final(self).forwarded() == text_rebound(old(self).forwarded(), signal, value@),
            !old(self).live() ==> final(self).local() == old(self).local() && final(self).forwarded() == old(self).forwarded(),
            changed == (final(self).local() != old(self).local() || final(self).forwarded() != old(self).forwarded()),
    {
        if !self.live {
            return false;
        }
        let text: String = value.to_owned();
        let here = rebind_text(&mut self.local, signal, &text);
        let there = rebind_text(&mut self.forwarded, signal, &text);
        here || there
    }

    /// Takes in the condition that `signal` reported and hands back the
    /// updates that lead from the snapshot before to the snapshot after:
    /// every update that is needed, and no other. A node that left the tree
    /// hands back none.
    pub fn report_flag(&mut self, signal: u64, value: bool) -> (out: Vec<Change>)
        ensures
            final(self).tag() == old(self).tag(),
            final(self).live() == old(self).live(),
            old(self).live() ==> final(self).local() == flag_rebound(
                old(self).local(),
                signal,
                value,
            ) && final(self).forwarded() == flag_rebound(old(self).forwarded(), signal, value),
            !old(self).live() ==> final(self).local() == old(self).local() && final(self).forwarded()
                == old(self).forwarded(),
            forall|u: Update| #[trigger]
                updates(out@).contains(u) <==> is_update(
                    old(self).snapshot(),
                    final(self).snapshot(),
                    u,
                ),
    {
        let before = self.effective();
        let _ = self.notify_flag(signal, value);
        let after = self.effective();
        changes(&before, &after)
    }

    /// Takes in the text that `signal` reported and hands back the updates
    /// that lead from the snapshot before to the snapshot after: every update
    /// that is needed, and no other. A node that left the tree hands back
    /// none.
    pub fn report_text(&mut self, signal: u64, value: &str) -> (out: Vec<Change>)
        ensures
            final(self).tag() == old(self).tag(),
            final(self).live() == old(self).live(),
            old(self).live() ==> final(self).local() == text_rebound(
                old(self).local(),
                signal,
                value@,
            ) && final(self).forwarded() == text_rebound(old(self).forwarded(), signal, value@),
            !old(self).live() ==> final(self).local() == old(self).local() && final(self).forwarded()
                == old(self).forwarded(),
            forall|u: Update| #[trigger]
                updates(out@).contains(u) <==> is_update(
                    old(self).snapshot(),
                    final(self).snapshot(),
                    u,
                ),
    {
        let before = self.effective();
        let _ = self.notify_text(signal, value);
        let after = self.effective();
        changes(&before, &after)
    }

    /// Takes the node out of the tree and hands back the signals to release:
    /// those it was subscribed to. A second call releases nothing.
    pub fn teardown(&mut self) -> (released: Vec<u64>)
        ensures
            !final(self).live(),
            final(self).tag() == old(self).tag(),
            final(self).local() == old(self).local(),
            final(self).forwarded() == old(self).forwarded(),
            released@ == if old(self).live() {
                signals_of(old(self).local() + old(self).forwarded())
            } else {
                Seq::<u64>::empty()
            },
    {
        let released = self.subscriptions();
        self.live = false;
        released
    }
}

} // verus!
