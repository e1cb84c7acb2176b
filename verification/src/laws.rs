//! What holds of the engine as a whole, proved from the definitions that the
//! functions' contracts use.

use vstd::prelude::*;
use crate::boundary::{all_transparent, delivered, Boundary};
use crate::bundle::{flat_directive, flat_seq, AttributeBundle, AttributeDirective, Entry};
use crate::compose::{any_class_list, composed, CompositionError, Target};
use crate::merge::{
    active_classes, adds_class, attr_value, attributes_of, class_attr, class_base, classes_of, handler_for,
    handlers_of, kept_for_class, kept_for_style, lemma_attr_value_concat,
    lemma_handler_for_concat, lemma_style_value_concat, merged, style_attr, style_value,
    styles_of,
};
use crate::node::{flag_rebound, text_rebound};
use crate::text::{
    distinct, join, lemma_distinct_keeps_a_set, lemma_split_undoes_join, proper_token, tokens,
};

verus! {

/// The classes of a node are decided by four things alone: the `class`
/// attribute that the node sets last, its toggles whose condition holds, the
/// `class` attribute that is forwarded last, and the forwarded toggles whose
/// condition holds. Neither signals nor depths nor any other entry matter, nor
/// where among the toggles the `class` attribute was declared.
pub proof fn lemma_classes_determined(
    local: Seq<Entry>,
    forwarded: Seq<Entry>,
    other_local: Seq<Entry>,
    other_forwarded: Seq<Entry>,
)
    requires
        attr_value(local, class_attr()) == attr_value(other_local, class_attr()),
        active_classes(local) == active_classes(other_local),
        attr_value(forwarded, class_attr()) == attr_value(other_forwarded, class_attr()),
        active_classes(forwarded) == active_classes(other_forwarded),
    ensures
        classes_of(local, forwarded) == classes_of(other_local, other_forwarded),
{
    lemma_attr_value_concat(local, forwarded, class_attr());
    lemma_attr_value_concat(other_local, other_forwarded, class_attr());
}

/// Toggles keep their order, and what comes first stays first: the classes
/// that two runs of entries contribute are those of the first run, then those
/// of the second.
pub proof fn lemma_active_classes_concat(a: Seq<Entry>, b: Seq<Entry>)
    ensures
        active_classes(a + b) == active_classes(a) + active_classes(b),
    decreases b.len(),
{
    if b.len() == 0 {
        assert(a + b =~= a);
        assert(active_classes(a) + active_classes(b) =~= active_classes(a));
    } else {
        assert((a + b).drop_last() =~= a + b.drop_last());
        lemma_active_classes_concat(a, b.drop_last());
        match adds_class(b.last()) {
            Some(name) => {
                assert(active_classes(a + b) =~= active_classes(a) + active_classes(b));
            },
            None => {},
        }
    }
}

/// With nothing forwarded, a node has what its own entries give: the merge
/// adds nothing and takes nothing away.
pub proof fn lemma_nothing_forwarded(local: Seq<Entry>)
    ensures
        merged(local, Seq::empty()).attributes == attributes_of(local),
        merged(local, Seq::empty()).classes == distinct(class_base(local) + active_classes(local)),
        merged(local, Seq::empty()).styles == styles_of(local),
        merged(local, Seq::empty()).handlers == handlers_of(local),
{
    let none = Seq::<Entry>::empty();
    assert(local + none =~= local);
    assert(kept_for_class(local, none) == local);
    assert(kept_for_style(local, none) == local);
    assert(class_base(local) + active_classes(local) + active_classes(none) =~= class_base(local)
        + active_classes(local));
}

/// A forwarded value for a whole attribute replaces the local one: the node
/// has the forwarded value, whatever it declares itself.
pub proof fn lemma_forwarded_attribute_wins(
    local: Seq<Entry>,
    forwarded: Seq<Entry>,
    name: Seq<char>,
    literal: Seq<char>,
)
    requires
        attr_value(forwarded, name) == Some(literal),
        name != class_attr(),
    ensures
        merged(local, forwarded).attributes.contains_key(name),
        merged(local, forwarded).attributes[name] == literal,
{
    lemma_attr_value_concat(local, forwarded, name);
}

/// Where nothing forwarded sets an attribute, the local value stands.
pub proof fn lemma_local_attribute_stands(
    local: Seq<Entry>,
    forwarded: Seq<Entry>,
    name: Seq<char>,
)
    requires
        attr_value(forwarded, name) is None,
        name != class_attr(),
    ensures
        merged(local, forwarded).attributes.contains_key(name) == (attr_value(local, name)
            is Some),
        attr_value(local, name) is Some ==> merged(local, forwarded).attributes[name]
            == attr_value(local, name).unwrap(),
{
    lemma_attr_value_concat(local, forwarded, name);
}

/// A forwarded `class` attribute replaces every local contribution to the
/// classes: they are the tokens of the forwarded value and the forwarded
/// toggles, the same as for a node that declares nothing.
pub proof fn lemma_forwarded_class_replaces(
    local: Seq<Entry>,
    forwarded: Seq<Entry>,
    literal: Seq<char>,
)
    requires
        attr_value(forwarded, class_attr()) == Some(literal),
    ensures
        merged(local, forwarded).classes == distinct(tokens(literal) + active_classes(forwarded)),
        merged(local, forwarded).classes == merged(Seq::empty(), forwarded).classes,
        active_classes(forwarded).len() == 0 ==> merged(local, forwarded).classes == distinct(
            tokens(literal),
        ),
{
    let none = Seq::<Entry>::empty();
    lemma_attr_value_concat(local, forwarded, class_attr());
    lemma_attr_value_concat(none, forwarded, class_attr());
    assert(active_classes(none) =~= Seq::<Seq<char>>::empty());
    assert(tokens(literal) + active_classes(none) + active_classes(forwarded) =~= tokens(literal)
        + active_classes(forwarded));
    if active_classes(forwarded).len() == 0 {
        assert(tokens(literal) + active_classes(forwarded) =~= tokens(literal));
    }
}

/// A forwarded `class` attribute comes out as it was written, never joined
/// with anything local: where the forwarded value is a run of different
/// tokens with single spaces between them, and no forwarded toggle adds to it,
/// the class string of the node is that value, whatever the node declares.
pub proof fn lemma_forwarded_class_verbatim(
    local: Seq<Entry>,
    forwarded: Seq<Entry>,
    written: Seq<Seq<char>>,
)
    requires
        forall|i: int| 0 <= i < written.len() ==> proper_token(#[trigger] written[i]),
        written.no_duplicates(),
        attr_value(forwarded, class_attr()) == Some(join(written)),
        active_classes(forwarded).len() == 0,
    ensures
        merged(local, forwarded).classes == written,
        join(merged(local, forwarded).classes) == join(written),
{
    lemma_forwarded_class_replaces(local, forwarded, join(written));
    lemma_split_undoes_join(written);
    lemma_distinct_keeps_a_set(written);
}

/// A forwarded `style` attribute sets aside every local style property: the
/// node has the forwarded properties only.
pub proof fn lemma_forwarded_style_replaces(local: Seq<Entry>, forwarded: Seq<Entry>)
    requires
        attr_value(forwarded, style_attr()) is Some,
    ensures
        merged(local, forwarded).styles == styles_of(forwarded),
{
    assert(Seq::<Entry>::empty() + forwarded =~= forwarded);
}

/// A forwarded style property replaces the local one of the same name.
pub proof fn lemma_forwarded_style_property_wins(
    local: Seq<Entry>,
    forwarded: Seq<Entry>,
    property: Seq<char>,
    value: Seq<char>,
)
    requires
        style_value(forwarded, property) == Some(value),
    ensures
        merged(local, forwarded).styles.contains_key(property),
        merged(local, forwarded).styles[property] == value,
{
    lemma_style_value_concat(kept_for_style(local, forwarded), forwarded, property);
}

/// A forwarded handler replaces the local one for the same event, so that a
/// node has at most one handler for each event.
pub proof fn lemma_forwarded_handler_wins(
    local: Seq<Entry>,
    forwarded: Seq<Entry>,
    event: Seq<char>,
)
    requires
        handler_for(forwarded, event) is Some,
    ensures
        merged(local, forwarded).handlers.contains_key(event),
        merged(local, forwarded).handlers[event] == handler_for(forwarded, event).unwrap(),
{
    lemma_handler_for_concat(local, forwarded, event);
}

/// One opaque boundary anywhere on the way is enough: nothing of the bundle
/// arrives, however many boundaries the path has.
pub proof fn lemma_opaque_blocks(bundle: AttributeBundle, path: Seq<Boundary>, at: int)
    requires
        0 <= at < path.len(),
        path[at] == Boundary::Opaque,
    ensures
        delivered(bundle, path) is None,
{
    assert(!all_transparent(path));
}

/// Through transparent boundaries alone the whole bundle arrives.
pub proof fn lemma_transparent_delivers(bundle: AttributeBundle, path: Seq<Boundary>)
    requires
        all_transparent(path),
    ensures
        delivered(bundle, path) == Some(bundle),
{
}

/// One directive more than the capacity is always refused, with the count in
/// the error; exactly the capacity is accepted, unless a class list is composed
/// onto a component.
pub proof fn lemma_capacity_is_sharp(ds: Seq<AttributeDirective>, target: Target, capacity: usize)
    ensures
        ds.len() == capacity + 1 ==> composed(ds, target, capacity) == Err::<
            (),
            CompositionError,
        >(CompositionError::CapacityExceeded { count: ds.len() as usize, capacity }),
        ds.len() == capacity && (target == Target::Leaf || !any_class_list(ds)) ==> composed(
            ds,
            target,
            capacity,
        ) == Ok::<(), CompositionError>(()),
{
}

/// Reports of different signals can be taken in either order: the entries,
/// and with them the snapshot, come out the same.
pub proof fn lemma_flag_reports_commute(
    es: Seq<Entry>,
    first: u64,
    first_value: bool,
    second: u64,
    second_value: bool,
)
    requires
        first != second,
    ensures
        flag_rebound(flag_rebound(es, first, first_value), second, second_value) == flag_rebound(
            flag_rebound(es, second, second_value),
            first,
            first_value,
        ),
{
    assert(flag_rebound(flag_rebound(es, first, first_value), second, second_value)
        =~= flag_rebound(flag_rebound(es, second, second_value), first, first_value));
}

/// A report of a condition and a report of a text can be taken in either
/// order, even from one signal: they touch different entries.
pub proof fn lemma_flag_and_text_reports_commute(
    es: Seq<Entry>,
    flag_signal: u64,
    flag_value: bool,
    text_signal: u64,
    text_value: Seq<char>,
)
    ensures
        text_rebound(flag_rebound(es, flag_signal, flag_value), text_signal, text_value)
            == flag_rebound(text_rebound(es, text_signal, text_value), flag_signal, flag_value),
{
    assert(text_rebound(flag_rebound(es, flag_signal, flag_value), text_signal, text_value)
        =~= flag_rebound(text_rebound(es, text_signal, text_value), flag_signal, flag_value));
}

/// Of two reports of one signal the later one counts: the entries are as if
/// the earlier had never come.
pub proof fn lemma_last_report_counts(es: Seq<Entry>, signal: u64, earlier: bool, later: bool)
    ensures
        flag_rebound(flag_rebound(es, signal, earlier), signal, later) == flag_rebound(
            es,
            signal,
            later,
        ),
{
    assert(flag_rebound(flag_rebound(es, signal, earlier), signal, later) =~= flag_rebound(
        es,
        signal,
        later,
    ));
}

/// A report changes the classes only through the conditions of the toggles
/// that listen to its signal: entries without that signal stay as they are.
pub proof fn lemma_report_spares_other_entries(es: Seq<Entry>, signal: u64, value: bool, i: int)
    requires
        0 <= i < es.len(),
        !(es[i] matches Entry::Class { signal: s, .. } && s == Some(signal)),
    ensures
        flag_rebound(es, signal, value)[i] == es[i],
{
}

/// Directives keep their order when sequences are joined: the entries of the
/// whole are the entries of the first part, then those of the second.
pub proof fn lemma_flat_concat(
    a: Seq<AttributeDirective>,
    b: Seq<AttributeDirective>,
    within: Option<u32>,
)
    ensures
        flat_seq(a + b, within) == flat_seq(a, within) + flat_seq(b, within),
    decreases b.len(),
{
    if b.len() == 0 {
        assert(a + b =~= a);
        assert(flat_seq(a, within) + flat_seq(b, within) =~= flat_seq(a, within));
    } else {
        assert((a + b).drop_last() =~= a + b.drop_last());
        assert((a + b).last() == b.last());
        lemma_flat_concat(a, b.drop_last(), within);
        assert(flat_seq(a + b, within) =~= flat_seq(a, within) + flat_seq(b, within));
    }
}

/// A spread acts as if its directives had been declared in its place: the
/// entries of a sequence with a spread in it are those before the spread, then
/// those of the spread bundle at the depth of the spread, then those after it.
pub proof fn lemma_spread_in_place(
    before: Seq<AttributeDirective>,
    spread: AttributeDirective,
    after: Seq<AttributeDirective>,
)
    requires
        spread.kind is Spread,
    ensures
        flat_seq(before + seq![spread] + after, None) == flat_seq(before, None) + flat_seq(
            spread.kind->Spread_0.directives@,
            Some(spread.origin_depth),
        ) + flat_seq(after, None),
{
    let one = seq![spread];
    lemma_flat_concat(before + one, after, None);
    lemma_flat_concat(before, one, None);
    let none = Seq::<AttributeDirective>::empty();
    assert(one.drop_last() =~= none);
    assert(one.last() == spread);
    assert(flat_seq(none, None) =~= Seq::<Entry>::empty());
    assert(flat_seq(one, None) =~= flat_directive(spread, spread.origin_depth));
}

} // verus!
