//! The merge resolver: from a node's local entries and the entries forwarded
//! to it, the attributes the node ends up with.
//!
//! Override, then accumulate. A value that sets a whole attribute, a style
//! property or an event handler is replaced by a later one of the same name,
//! and what is forwarded counts as later than what is local: the outer caller
//! wins. Class toggles accumulate into an ordered set. A forwarded value for
//! the whole `class` or `style` attribute sets aside what the node itself
//! contributes to that attribute, toggles and properties included.
//!
//! That a forwarded style property or handler replaces the local one of the
//! same name is a choice made here by analogy with whole attributes.

use vstd::prelude::*;
use vstd::string::*;
use crate::bundle::{AttributeBundle, Callback, Entry};
use crate::resolve::{entries, flatten, Resolved};
use crate::table::Table;
use crate::text::{distinct, join, join_tokens, push_distinct, split_tokens, tokens, views};

verus! {

impl View for Callback {
    type V = Callback;

    open spec fn view(&self) -> Callback {
        *self
    }
}

/// The name of the attribute that class toggles address.
pub open spec fn class_attr() -> Seq<char> {
    "class"@
}

/// The name of the attribute that style properties address.
pub open spec fn style_attr() -> Seq<char> {
    "style"@
}

/// The value that `e` gives the attribute `name`, if it sets that attribute.
pub open spec fn sets_attr(e: Entry, name: Seq<char>) -> Option<Seq<char>> {
    match e {
        Entry::Attr { name: n, value, .. } => if n == name {
            Some(value)
        } else {
            None
        },
        _ => None,
    }
}

/// The value that `e` gives the style property `property`, if it sets it.
pub open spec fn sets_style(e: Entry, property: Seq<char>) -> Option<Seq<char>> {
    match e {
        Entry::Style { property: p, value, .. } => if p == property {
            Some(value)
        } else {
            None
        },
        _ => None,
    }
}

/// The handler that `e` attaches to `event`, if it attaches one.
pub open spec fn sets_handler(e: Entry, event: Seq<char>) -> Option<Callback> {
    match e {
        Entry::Handler { event: n, callback, .. } => if n == event {
            Some(callback)
        } else {
            None
        },
        _ => None,
    }
}

/// The class that `e` contributes: that of a toggle whose condition holds.
pub open spec fn adds_class(e: Entry) -> Option<Seq<char>> {
    match e {
        Entry::Class { name, active, .. } => if active {
            Some(name)
        } else {
            None
        },
        _ => None,
    }
}

/// The value of the last entry of `es` that sets the attribute `name`.
pub open spec fn attr_value(es: Seq<Entry>, name: Seq<char>) -> Option<Seq<char>>
    decreases es.len(),
{
    if es.len() == 0 {
        None
    } else {
        match sets_attr(es.last(), name) {
            Some(v) => Some(v),
            None => attr_value(es.drop_last(), name),
        }
    }
}

/// The value of the last entry of `es` that sets the style property.
pub open spec fn style_value(es: Seq<Entry>, property: Seq<char>) -> Option<Seq<char>>
    decreases es.len(),
{
    if es.len() == 0 {
        None
    } else {
        match sets_style(es.last(), property) {
            Some(v) => Some(v),
            None => style_value(es.drop_last(), property),
        }
    }
}

/// The handler of the last entry of `es` that attaches one to `event`.
pub open spec fn handler_for(es: Seq<Entry>, event: Seq<char>) -> Option<Callback>
    decreases es.len(),
{
    if es.len() == 0 {
        None
    } else {
        match sets_handler(es.last(), event) {
            Some(c) => Some(c),
            None => handler_for(es.drop_last(), event),
        }
    }
}

/// The classes of the toggles of `es` whose condition holds, in order.
pub open spec fn active_classes(es: Seq<Entry>) -> Seq<Seq<char>>
    decreases es.len(),
{
    if es.len() == 0 {
        Seq::empty()
    } else {
        match adds_class(es.last()) {
            Some(name) => active_classes(es.drop_last()).push(name),
            None => active_classes(es.drop_last()),
        }
    }
}

/// Every attribute but `class`, each with the value that was set last.
pub open spec fn attributes_of(es: Seq<Entry>) -> Map<Seq<char>, Seq<char>> {
    Map::new(
        |name: Seq<char>| name != class_attr() && attr_value(es, name) is Some,
        |name: Seq<char>| attr_value(es, name).unwrap(),
    )
}

/// Every style property, each with the value that was set last.
pub open spec fn styles_of(es: Seq<Entry>) -> Map<Seq<char>, Seq<char>> {
    Map::new(
        |property: Seq<char>| style_value(es, property) is Some,
        |property: Seq<char>| style_value(es, property).unwrap(),
    )
}

/// Every event, each with the handler that was attached last.
pub open spec fn handlers_of(es: Seq<Entry>) -> Map<Seq<char>, Callback> {
    Map::new(
        |event: Seq<char>| handler_for(es, event) is Some,
        |event: Seq<char>| handler_for(es, event).unwrap(),
    )
}

/// The local entries whose class toggles count: none once a forwarded entry
/// sets the whole `class` attribute.
pub open spec fn kept_for_class(local: Seq<Entry>, forwarded: Seq<Entry>) -> Seq<Entry> {
    if attr_value(forwarded, class_attr()) is Some {
        Seq::empty()
    } else {
        local
    }
}

/// The local entries whose style properties count: none once a forwarded
/// entry sets the whole `style` attribute.
pub open spec fn kept_for_style(local: Seq<Entry>, forwarded: Seq<Entry>) -> Seq<Entry> {
    if attr_value(forwarded, style_attr()) is Some {
        Seq::empty()
    } else {
        local
    }
}

/// The tokens of the `class` attribute as it was set last, if it was set.
pub open spec fn class_base(es: Seq<Entry>) -> Seq<Seq<char>> {
    match attr_value(es, class_attr()) {
        Some(literal) => tokens(literal),
        None => Seq::empty(),
    }
}

/// The classes of the node: the tokens of the `class` attribute, then the
/// local toggles that count, then the forwarded toggles, each class once.
pub open spec fn classes_of(local: Seq<Entry>, forwarded: Seq<Entry>) -> Seq<Seq<char>> {
    distinct(
        class_base(local + forwarded) + active_classes(kept_for_class(local, forwarded))
            + active_classes(forwarded),
    )
}

/// What a node renders with.
pub struct Snapshot {
    /// Attribute name to value, for every attribute but `class`.
    pub attributes: Map<Seq<char>, Seq<char>>,
    /// The classes, in order, none twice.
    pub classes: Seq<Seq<char>>,
    /// Style property to value.
    pub styles: Map<Seq<char>, Seq<char>>,
    /// Event name to handler.
    pub handlers: Map<Seq<char>, Callback>,
}

/// The snapshot of a node with the entries `local` that receives the entries
/// `forwarded`.
pub open spec fn merged(local: Seq<Entry>, forwarded: Seq<Entry>) -> Snapshot {
    Snapshot {
        attributes: attributes_of(local + forwarded),
        classes: classes_of(local, forwarded),
        styles: styles_of(kept_for_style(local, forwarded) + forwarded),
        handlers: handlers_of(local + forwarded),
    }
}

/// Over two runs of entries, the second decides where it sets the attribute.
pub proof fn lemma_attr_value_concat(a: Seq<Entry>, b: Seq<Entry>, name: Seq<char>)
    ensures
        attr_value(a + b, name) == match attr_value(b, name) {
            Some(v) => Some(v),
            None => attr_value(a, name),
        },
    decreases b.len(),
{
    if b.len() == 0 {
        assert(a + b =~= a);
    } else {
        assert((a + b).drop_last() =~= a + b.drop_last());
        lemma_attr_value_concat(a, b.drop_last(), name);
    }
}

/// Over two runs of entries, the second decides where it sets the property.
pub proof fn lemma_style_value_concat(a: Seq<Entry>, b: Seq<Entry>, property: Seq<char>)
    ensures
        style_value(a + b, property) == match style_value(b, property) {
            Some(v) => Some(v),
            None => style_value(a, property),
        },
    decreases b.len(),
{
    if b.len() == 0 {
        assert(a + b =~= a);
    } else {
        assert((a + b).drop_last() =~= a + b.drop_last());
        lemma_style_value_concat(a, b.drop_last(), property);
    }
}

/// Over two runs of entries, the second decides where it attaches a handler.
pub proof fn lemma_handler_for_concat(a: Seq<Entry>, b: Seq<Entry>, event: Seq<char>)
    ensures
        handler_for(a + b, event) == match handler_for(b, event) {
            Some(c) => Some(c),
            None => handler_for(a, event),
        },
    decreases b.len(),
{
    if b.len() == 0 {
        assert(a + b =~= a);
    } else {
        assert((a + b).drop_last() =~= a + b.drop_last());
        lemma_handler_for_concat(a, b.drop_last(), event);
    }
}

/// The attributes a node ends up with.
#[derive(Debug)]
pub struct EffectiveAttributes {
    pub attributes: Table<String>,
    pub classes: Vec<String>,
    pub styles: Table<String>,
    pub handlers: Table<Callback>,
}

impl View for EffectiveAttributes {
    type V = Snapshot;

    open spec fn view(&self) -> Snapshot {
        Snapshot {
            attributes: self.attributes@,
            classes: views(self.classes@),
            styles: self.styles@,
            handlers: self.handlers@,
        }
    }
}

/// The value of the last entry that sets the attribute `name`.
pub fn find_attr<'a>(es: &'a Vec<Resolved>, name: &String) -> (found: Option<&'a String>)
    ensures
        match found {
            Some(v) => attr_value(entries(es@), name@) == Some(v@),
            None => attr_value(entries(es@), name@) is None,
        },
{
    let mut found: Option<&'a String> = None;
    let mut i: usize = 0;
    assert(entries(es@).take(0) =~= Seq::<Entry>::empty());
    while i < es.len()
        invariant
            i <= es.len(),
            match found {
                Some(v) => attr_value(entries(es@).take(i as int), name@) == Some(v@),
                None => attr_value(entries(es@).take(i as int), name@) is None,
            },
        decreases es.len() - i,
    {
        proof {
            assert(entries(es@).take(i + 1).drop_last() =~= entries(es@).take(i as int));
            assert(entries(es@).take(i + 1).last() == es@[i as int]@);
        }
        match &es[i] {
            Resolved::Attr { name: n, value, .. } => {
                if *n == *name {
                    found = Some(value);
                }
            },
            _ => {},
        }
        i = i + 1;
    }
    assert(entries(es@).take(es.len() as int) =~= entries(es@));
    found
}

/// Puts into `table` what the entries `es` set, but for the `class`
/// attribute.
fn absorb_attrs(es: &Vec<Resolved>, table: Table<String>, Ghost(before): Ghost<Seq<Entry>>) -> (t:
    Table<String>)
    requires
        table@ == attributes_of(before),
    ensures
        t@ == attributes_of(before + entries(es@)),
{
    let class_key: String = String::from_str("class");
    let mut table = table;
    let mut i: usize = 0;
    assert(before + entries(es@).take(0) =~= before);
    while i < es.len()
        invariant
            i <= es.len(),
            class_key@ == class_attr(),
            table@ == attributes_of(before + entries(es@).take(i as int)),
        decreases es.len() - i,
    {
        let ghost done = before + entries(es@).take(i as int);
        let ghost next = before + entries(es@).take(i + 1);
        proof {
            assert(next.drop_last() =~= done);
            assert(next.last() == es@[i as int]@);
        }
        match &es[i] {
            Resolved::Attr { name, value, .. } => {
                if *name == class_key {
                    assert(attributes_of(next) =~= attributes_of(done));
                } else {
                    table = table.insert(name.clone(), value.clone());
                    assert(attributes_of(next) =~= attributes_of(done).insert(name@, value@));
                }
            },
            _ => {
                assert(attributes_of(next) =~= attributes_of(done));
            },
        }
        i = i + 1;
    }
    assert(entries(es@).take(es.len() as int) =~= entries(es@));
    table
}

/// Puts into `table` the style properties that the entries `es` set.
fn absorb_styles(es: &Vec<Resolved>, table: Table<String>, Ghost(before): Ghost<Seq<Entry>>) -> (t:
    Table<String>)
    requires
        table@ == styles_of(before),
    ensures
        t@ == styles_of(before + entries(es@)),
{
    let mut table = table;
    let mut i: usize = 0;
    assert(before + entries(es@).take(0) =~= before);
    while i < es.len()
        invariant
            i <= es.len(),
            table@ == styles_of(before + entries(es@).take(i as int)),
        decreases es.len() - i,
    {
        let ghost done = before + entries(es@).take(i as int);
        let ghost next = before + entries(es@).take(i + 1);
        proof {
            assert(next.drop_last() =~= done);
            assert(next.last() == es@[i as int]@);
        }
        match &es[i] {
            Resolved::Style { property, value, .. } => {
                table = table.insert(property.clone(), value.clone());
                assert(styles_of(next) =~= styles_of(done).insert(property@, value@));
            },
            _ => {
                assert(styles_of(next) =~= styles_of(done));
            },
        }
        i = i + 1;
    }
    assert(entries(es@).take(es.len() as int) =~= entries(es@));
    table
}

/// Puts into `table` the handlers that the entries `es` attach.
fn absorb_handlers(
    es: &Vec<Resolved>,
    table: Table<Callback>,
    Ghost(before): Ghost<Seq<Entry>>,
) -> (t: Table<Callback>)
    requires
        table@ == handlers_of(before),
    ensures
        t@ == handlers_of(before + entries(es@)),
{
    let mut table = table;
    let mut i: usize = 0;
    assert(before + entries(es@).take(0) =~= before);
    while i < es.len()
        invariant
            i <= es.len(),
            table@ == handlers_of(before + entries(es@).take(i as int)),
        decreases es.len() - i,
    {
        let ghost done = before + entries(es@).take(i as int);
        let ghost next = before + entries(es@).take(i + 1);
        proof {
            assert(next.drop_last() =~= done);
            assert(next.last() == es@[i as int]@);
        }
        match &es[i] {
            Resolved::Handler { event, callback, .. } => {
                table = table.insert(event.clone(), *callback);
                assert(handlers_of(next) =~= handlers_of(done).insert(event@, *callback));
            },
            _ => {
                assert(handlers_of(next) =~= handlers_of(done));
            },
        }
        i = i + 1;
    }
    assert(entries(es@).take(es.len() as int) =~= entries(es@));
    table
}

/// Adds to the ordered set `acc` the tokens `ts`, in order.
fn absorb_tokens(ts: &Vec<String>, acc: &mut Vec<String>, Ghost(before): Ghost<Seq<Seq<char>>>)
    requires
        views(old(acc)@) == distinct(before),
    ensures
        views(final(acc)@) == distinct(before + views(ts@)),
{
    let mut i: usize = 0;
    assert(before + views(ts@).take(0) =~= before);
    while i < ts.len()
        invariant
            i <= ts.len(),
            views(acc@) == distinct(before + views(ts@).take(i as int)),
        decreases ts.len() - i,
    {
        let ghost done = before + views(ts@).take(i as int);
        let ghost next = before + views(ts@).take(i + 1);
        proof {
            assert(next.drop_last() =~= done);
            assert(next.last() == ts@[i as int]@);
        }
        push_distinct(acc, &ts[i]);
        i = i + 1;
    }
    assert(views(ts@).take(ts.len() as int) =~= views(ts@));
}

/// Adds to the ordered set `acc` the classes of the toggles of `es` whose
/// condition holds, in order.
fn absorb_toggles(es: &Vec<Resolved>, acc: &mut Vec<String>, Ghost(before): Ghost<Seq<Seq<char>>>)
    requires
        views(old(acc)@) == distinct(before),
    ensures
        views(final(acc)@) == distinct(before + active_classes(entries(es@))),
{
    let mut i: usize = 0;
    assert(entries(es@).take(0) =~= Seq::<Entry>::empty());
    assert(before + active_classes(entries(es@).take(0)) =~= before);
    while i < es.len()
        invariant
            i <= es.len(),
            views(acc@) == distinct(before + active_classes(entries(es@).take(i as int))),
        decreases es.len() - i,
    {
        let ghost done = entries(es@).take(i as int);
        let ghost next = entries(es@).take(i + 1);
        proof {
            assert(next.drop_last() =~= done);
            assert(next.last() == es@[i as int]@);
        }
        match &es[i] {
            Resolved::Class { name, active, .. } => {
                if *active {
                    proof {
                        assert((before + active_classes(next)).drop_last() =~= before
                            + active_classes(done));
                        assert((before + active_classes(next)).last() == name@);
                    }
                    push_distinct(acc, name);
                }
            },
            _ => {},
        }
        i = i + 1;
    }
    assert(entries(es@).take(es.len() as int) =~= entries(es@));
}

/// Merges the entries a node declares with the entries forwarded to it.
pub fn merge_entries(local: &Vec<Resolved>, forwarded: &Vec<Resolved>) -> (r: EffectiveAttributes)
    ensures
        r@ == merged(entries(local@), entries(forwarded@)),
{
    let ghost l = entries(local@);
    let ghost f = entries(forwarded@);
    let ghost none = Seq::<Entry>::empty();
    let class_key: String = String::from_str("class");
    let style_key: String = String::from_str("style");

    let attributes: Table<String> = Table::new();
    assert(attributes@ =~= attributes_of(none));
    let attributes = absorb_attrs(local, attributes, Ghost(none));
    assert(none + l =~= l);
    let attributes = absorb_attrs(forwarded, attributes, Ghost(l));

    let handlers: Table<Callback> = Table::new();
    assert(handlers@ =~= handlers_of(none));
    let handlers = absorb_handlers(local, handlers, Ghost(none));
    let handlers = absorb_handlers(forwarded, handlers, Ghost(l));

    let styles: Table<String> = Table::new();
    assert(styles@ =~= styles_of(none));
    let styles = if find_attr(forwarded, &style_key).is_some() {
        styles
    } else {
        absorb_styles(local, styles, Ghost(none))
    };
    let styles = absorb_styles(forwarded, styles, Ghost(kept_for_style(l, f)));

    let mut classes: Vec<String> = Vec::new();
    let ghost no_tokens = Seq::<Seq<char>>::empty();
    assert(views(classes@) =~= distinct(no_tokens));
    proof {
        lemma_attr_value_concat(l, f, class_attr());
    }
    match find_attr(forwarded, &class_key) {
        Some(literal) => {
            let base = split_tokens(literal.as_str());
            absorb_tokens(&base, &mut classes, Ghost(no_tokens));
            assert(no_tokens + views(base@) =~= class_base(l + f) + active_classes(
                kept_for_class(l, f),
            ));
        },
        None => {
            let ghost mut base_tokens = no_tokens;
            match find_attr(local, &class_key) {
                Some(literal) => {
                    let base = split_tokens(literal.as_str());
                    absorb_tokens(&base, &mut classes, Ghost(no_tokens));
                    proof {
                        base_tokens = views(base@);
                        assert(no_tokens + views(base@) =~= base_tokens);
                    }
                },
                None => {},
            }
            assert(base_tokens == class_base(l + f));
            absorb_toggles(local, &mut classes, Ghost(base_tokens));
        },
    }
    absorb_toggles(
        forwarded,
        &mut classes,
        Ghost(class_base(l + f) + active_classes(kept_for_class(l, f))),
    );
    EffectiveAttributes { attributes, classes, styles, handlers }
}

/// Merges the directives a node declares with the bundle forwarded to it, if
/// one is.
pub fn merge(local: &AttributeBundle, forwarded: Option<&AttributeBundle>) -> (r:
    EffectiveAttributes)
    ensures
        r@ == merged(
            local.flat(),
            match forwarded {
                Some(bundle) => bundle.flat(),
                None => Seq::empty(),
            },
        ),
{
    let own = flatten(local);
    let received: Vec<Resolved> = match forwarded {
        Some(bundle) => flatten(bundle),
        None => Vec::new(),
    };
    assert(forwarded is None ==> entries(received@) =~= Seq::<Entry>::empty());
    merge_entries(&own, &received)
}

impl EffectiveAttributes {
    /// The value of the `class` attribute: the classes, single-spaced.
    pub fn class_string(&self) -> (s: String)
        ensures
            s@ == join(self@.classes),
    {
        join_tokens(&self.classes)
    }

    /// The value of the attribute `name`, if the node has it.
    pub fn attribute(&self, name: &str) -> (value: Option<&String>)
        ensures
            match value {
                Some(v) => self@.attributes.contains_key(name@) && self@.attributes[name@] == v@,
                None => !self@.attributes.contains_key(name@),
            },
    {
        let key: String = String::from_str(name);
        self.attributes.get(&key)
    }

    /// The value of the style property `property`, if the node has it.
    pub fn style(&self, property: &str) -> (value: Option<&String>)
        ensures
            match value {
                Some(v) => self@.styles.contains_key(property@) && self@.styles[property@] == v@,
                None => !self@.styles.contains_key(property@),
            },
    {
        let key: String = String::from_str(property);
        self.styles.get(&key)
    }

    /// The handler attached to `event`, if the node has one.
    pub fn handler(&self, event: &str) -> (callback: Option<Callback>)
        ensures
            match callback {
                Some(c) => self@.handlers.contains_key(event@) && self@.handlers[event@] == c,
                None => !self@.handlers.contains_key(event@),
            },
    {
        let key: String = String::from_str(event);
        match self.handlers.get(&key) {
            Some(c) => Some(*c),
            None => None,
        }
    }

    /// Whether `class` is among the classes.
    pub fn has_class(&self, class: &str) -> (found: bool)
        ensures
            found == self@.classes.contains(class@),
    {
        let key: String = String::from_str(class);
        crate::text::has_token(&self.classes, &key)
    }
}

} // verus!
