//! Attribute directives and the ordered bundles that carry them.

use vstd::prelude::*;
use vstd::string::*;

verus! {

/// An event callback, known to the engine only by the identifier under which
/// the rendering side keeps it.
#[derive(Clone, Copy, Debug, PartialEq, Eq, Structural)]
pub struct Callback {
    pub id: u64,
}

/// Where a directive's value comes from: a literal, or a signal of the
/// reactive runtime together with the value it held when last read.
#[derive(Debug)]
pub enum ValueSource<V> {
    Static(V),
    Reactive { signal: u64, current: V },
}

impl<V> ValueSource<V> {
    /// The value the source holds now.
    pub open spec fn spec_current(self) -> V {
        match self {
            ValueSource::Static(v) => v,
            ValueSource::Reactive { current, .. } => current,
        }
    }

    /// The signal behind the source, if it has one.
    pub open spec fn spec_signal(self) -> Option<u64> {
        match self {
            ValueSource::Static(_) => None,
            ValueSource::Reactive { signal, .. } => Some(signal),
        }
    }

    /// A source that always holds `value`.
    pub fn fixed(value: V) -> (source: ValueSource<V>)
        ensures
            source == ValueSource::Static(value),
    {
        ValueSource::Static(value)
    }

    /// A source fed by `signal`, which holds `current` for now.
    pub fn reactive(signal: u64, current: V) -> (source: ValueSource<V>)
        ensures
            source == (ValueSource::Reactive { signal, current }),
    {
        ValueSource::Reactive { signal, current }
    }

    /// The value the source holds now.
    pub fn current(&self) -> (v: &V)
        ensures
            *v == self.spec_current(),
    {
        match self {
            ValueSource::Static(v) => v,
            ValueSource::Reactive { current, .. } => current,
        }
    }

    /// The signal behind the source, if it has one.
    pub fn signal(&self) -> (s: Option<u64>)
        ensures
            s == self.spec_signal(),
    {
        match self {
            ValueSource::Static(_) => None,
            ValueSource::Reactive { signal, .. } => Some(*signal),
        }
    }
}

/// What a directive does to the node that receives it.
#[derive(Debug)]
pub enum Kind {
    /// Sets the whole value of the attribute `name`.
    FullAttr(ValueSource<String>),
    /// Adds the class `name` while the condition holds.
    ClassToggle(ValueSource<bool>),
    /// Adds each of the listed classes while the one condition holds.
    ClassListToggle(Vec<String>, ValueSource<bool>),
    /// Sets the style property `name`.
    StyleProp(ValueSource<String>),
    /// Attaches a handler for the event `name`.
    EventHandler(Callback),
    /// Stands for every directive of the wrapped bundle, in order.
    Spread(AttributeBundle),
}

/// One attribute-affecting instruction of a call site.
#[derive(Debug)]
pub struct AttributeDirective {
    pub name: String,
    pub kind: Kind,
    /// How many component boundaries lie between the declaring call site and
    /// the node: 0 for what the node declares itself. The call site states
    /// it; the engine carries it along and decides nothing by it.
    pub origin_depth: u32,
}

/// An ordered, append-only collection of directives from one call site.
#[derive(Debug)]
pub struct AttributeBundle {
    pub directives: Vec<AttributeDirective>,
}

/// A directive as the merge sees it: no spread, no class list, values as
/// they are now.
pub enum Entry {
    Attr { name: Seq<char>, value: Seq<char>, signal: Option<u64>, depth: u32 },
    Class { name: Seq<char>, active: bool, signal: Option<u64>, depth: u32 },
    Style { property: Seq<char>, value: Seq<char>, signal: Option<u64>, depth: u32 },
    Handler { event: Seq<char>, callback: Callback, depth: u32 },
}

/// One class entry per name, in the order of the list, all under one
/// condition.
pub open spec fn class_list(
    names: Seq<String>,
    active: bool,
    signal: Option<u64>,
    depth: u32,
) -> Seq<Entry> {
    Seq::new(names.len(), |i: int| Entry::Class { name: names[i]@, active, signal, depth })
}

/// The entries of one directive declared at `depth`. A class list gives one
/// entry per name; a spread gives the entries of its bundle, all at `depth`.
pub open spec fn flat_directive(d: AttributeDirective, depth: u32) -> Seq<Entry>
    decreases d,
{
    match d.kind {
        Kind::FullAttr(v) => seq![
            Entry::Attr {
                name: d.name@,
                value: v.spec_current()@,
                signal: v.spec_signal(),
                depth,
            },
        ],
        Kind::ClassToggle(c) => seq![
            Entry::Class {
                name: d.name@,
                active: c.spec_current(),
                signal: c.spec_signal(),
                depth,
            },
        ],
        Kind::ClassListToggle(names, c) => class_list(
            names@,
            c.spec_current(),
            c.spec_signal(),
            depth,
        ),
        Kind::StyleProp(v) => seq![
            Entry::Style {
                property: d.name@,
                value: v.spec_current()@,
                signal: v.spec_signal(),
                depth,
            },
        ],
        Kind::EventHandler(cb) => seq![Entry::Handler { event: d.name@, callback: cb, depth }],
        Kind::Spread(b) => flat_seq(b.directives@, Some(depth)),
    }
}

/// The entries of a sequence of directives, in order. With `within` set, all
/// are taken as declared at that depth; else each at its own.
pub open spec fn flat_seq(ds: Seq<AttributeDirective>, within: Option<u32>) -> Seq<Entry>
    decreases ds,
{
    if ds.len() == 0 {
        Seq::empty()
    } else {
        flat_seq(ds.drop_last(), within) + flat_directive(
            ds.last(),
            match within {
                Some(depth) => depth,
                None => ds.last().origin_depth,
            },
        )
    }
}

impl AttributeDirective {
    /// Sets the whole value of the attribute `name`.
    pub fn full_attr(name: &str, value: ValueSource<String>) -> (d: AttributeDirective)
        ensures
            d.name@ == name@,
            d.kind == Kind::FullAttr(value),
            d.origin_depth == 0,
    {
        AttributeDirective { name: name.to_owned(), kind: Kind::FullAttr(value), origin_depth: 0 }
    }

    /// Adds the class `name` while `when` holds.
    pub fn class_toggle(name: &str, when: ValueSource<bool>) -> (d: AttributeDirective)
        ensures
            d.name@ == name@,
            d.kind == Kind::ClassToggle(when),
            d.origin_depth == 0,
    {
        AttributeDirective { name: name.to_owned(), kind: Kind::ClassToggle(when), origin_depth: 0 }
    }

    /// Adds each class of `names`, in order, while `when` holds.
    pub fn class_list_toggle(names: Vec<String>, when: ValueSource<bool>) -> (d:
        AttributeDirective)
        ensures
            d.name@ == "class"@,
            d.kind == Kind::ClassListToggle(names, when),
            d.origin_depth == 0,
    {
        AttributeDirective {
            name: "class".to_owned(),
            kind: Kind::ClassListToggle(names, when),
            origin_depth: 0,
        }
    }

    /// Sets the style property `property`.
    pub fn style_prop(property: &str, value: ValueSource<String>) -> (d: AttributeDirective)
        ensures
            d.name@ == property@,
            d.kind == Kind::StyleProp(value),
            d.origin_depth == 0,
    {
        AttributeDirective {
            name: property.to_owned(),
            kind: Kind::StyleProp(value),
            origin_depth: 0,
        }
    }

    /// Attaches `callback` to the event `event`.
    pub fn event_handler(event: &str, callback: Callback) -> (d: AttributeDirective)
        ensures
            d.name@ == event@,
            d.kind == Kind::EventHandler(callback),
            d.origin_depth == 0,
    {
        AttributeDirective {
            name: event.to_owned(),
            kind: Kind::EventHandler(callback),
            origin_depth: 0,
        }
    }

    /// Stands for every directive of `bundle`, as if each had been declared
    /// where the spread is.
    pub fn spread(bundle: AttributeBundle) -> (d: AttributeDirective)
        ensures
            d.name@ == Seq::<char>::empty(),
            d.kind == Kind::Spread(bundle),
            d.origin_depth == 0,
    {
        AttributeDirective { name: String::new(), kind: Kind::Spread(bundle), origin_depth: 0 }
    }

    /// The same directive, declared `depth` boundaries away from the node.
    pub fn at_depth(self, depth: u32) -> (d: AttributeDirective)
        ensures
            d.name == self.name,
            d.kind == self.kind,
            d.origin_depth == depth,
    {
        AttributeDirective { name: self.name, kind: self.kind, origin_depth: depth }
    }
}

impl AttributeBundle {
    /// The directives, in declaration order.
    pub open spec fn view(&self) -> Seq<AttributeDirective> {
        self.directives@
    }

    /// The entries the bundle stands for.
    pub open spec fn flat(&self) -> Seq<Entry> {
        flat_seq(self.directives@, None)
    }

    /// A bundle without directives.
    pub fn new() -> (b: AttributeBundle)
        ensures
            b@ == Seq::<AttributeDirective>::empty(),
    {
        AttributeBundle { directives: Vec::new() }
    }

    /// The number of directives, a spread counting as one.
    pub fn len(&self) -> (n: usize)
        ensures
            n == self@.len(),
    {
        self.directives.len()
    }

    /// Whether the bundle holds no directive.
    pub fn is_empty(&self) -> (e: bool)
        ensures
            e == (self@.len() == 0),
    {
        self.directives.len() == 0
    }

    /// Appends one directive.
    pub fn push(&mut self, directive: AttributeDirective)
        ensures
            final(self)@ == old(self)@.push(directive),
    {
        self.directives.push(directive);
    }

    /// Both bundles as one: the directives of `self`, then those of `other`.
    pub fn concat(self, other: AttributeBundle) -> (b: AttributeBundle)
        ensures
            b@ == self@ + other@,
    {
        let mut directives = self.directives;
        let mut rest = other.directives;
        directives.append(&mut rest);
        AttributeBundle { directives }
    }
}

} // verus!
