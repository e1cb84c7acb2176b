//! Incremental updates: what a renderer has to do to get from one snapshot
//! of a node to the next.

use vstd::prelude::*;
use crate::bundle::Callback;
use crate::merge::{EffectiveAttributes, Snapshot};
use crate::table::Table;
use crate::text::{has_token, views};

verus! {

/// One update of a rendered element.
#[derive(Debug, PartialEq, Eq)]
pub enum Change {
    ClassAdded(String),
    ClassRemoved(String),
    AttributeSet(String, String),
    AttributeRemoved(String),
    StyleSet(String, String),
    StyleRemoved(String),
    HandlerSet(String, Callback),
    HandlerRemoved(String),
}

/// One update, as contracts speak of it.
pub enum Update {
    ClassAdded(Seq<char>),
    ClassRemoved(Seq<char>),
    AttributeSet(Seq<char>, Seq<char>),
    AttributeRemoved(Seq<char>),
    StyleSet(Seq<char>, Seq<char>),
    StyleRemoved(Seq<char>),
    HandlerSet(Seq<char>, Callback),
    HandlerRemoved(Seq<char>),
}

impl View for Change {
    type V = Update;

    open spec fn view(&self) -> Update {
        match *self {
            Change::ClassAdded(c) => Update::ClassAdded(c@),
            Change::ClassRemoved(c) => Update::ClassRemoved(c@),
            Change::AttributeSet(n, v) => Update::AttributeSet(n@, v@),
            Change::AttributeRemoved(n) => Update::AttributeRemoved(n@),
            Change::StyleSet(p, v) => Update::StyleSet(p@, v@),
            Change::StyleRemoved(p) => Update::StyleRemoved(p@),
            Change::HandlerSet(e, c) => Update::HandlerSet(e@, c),
            Change::HandlerRemoved(e) => Update::HandlerRemoved(e@),
        }
    }
}

/// The updates that a vector of changes stands for.
pub open spec fn updates(v: Seq<Change>) -> Seq<Update> {
    v.map_values(|c: Change| c@)
}

/// `after` has `value` under `name`, and `before` has not.
pub open spec fn put_needed<V>(
    before: Map<Seq<char>, V>,
    after: Map<Seq<char>, V>,
    name: Seq<char>,
    value: V,
) -> bool {
    after.contains_key(name) && after[name] == value && !(before.contains_key(name) && before[name]
        == value)
}

/// `before` has the name, and `after` has not.
pub open spec fn removal_needed<V>(
    before: Map<Seq<char>, V>,
    after: Map<Seq<char>, V>,
    name: Seq<char>,
) -> bool {
    before.contains_key(name) && !after.contains_key(name)
}

/// Whether `u` is needed to get from `before` to `after`.
pub open spec fn is_update(before: Snapshot, after: Snapshot, u: Update) -> bool {
    match u {
        Update::ClassAdded(c) => after.classes.contains(c) && !before.classes.contains(c),
        Update::ClassRemoved(c) => before.classes.contains(c) && !after.classes.contains(c),
        Update::AttributeSet(n, v) => put_needed(before.attributes, after.attributes, n, v),
        Update::AttributeRemoved(n) => removal_needed(before.attributes, after.attributes, n),
        Update::StyleSet(p, v) => put_needed(before.styles, after.styles, p, v),
        Update::StyleRemoved(p) => removal_needed(before.styles, after.styles, p),
        Update::HandlerSet(e, c) => put_needed(before.handlers, after.handlers, e, c),
        Update::HandlerRemoved(e) => removal_needed(before.handlers, after.handlers, e),
    }
}

/// Which kind of update a helper writes.
#[derive(Clone, Copy, PartialEq, Eq, Structural)]
enum Part {
    Attribute,
    Style,
}

/// The update that puts `value` under `name`.
spec fn put(part: Part, name: Seq<char>, value: Seq<char>) -> Update {
    match part {
        Part::Attribute => Update::AttributeSet(name, value),
        Part::Style => Update::StyleSet(name, value),
    }
}

/// The update that takes `name` away.
spec fn removal(part: Part, name: Seq<char>) -> Update {
    match part {
        Part::Attribute => Update::AttributeRemoved(name),
        Part::Style => Update::StyleRemoved(name),
    }
}

/// The update that attaches `callback` to `event`.
spec fn handler_put(event: Seq<char>, callback: Callback) -> Update {
    Update::HandlerSet(event, callback)
}

/// The update that detaches the handler of `event`.
spec fn handler_removal(event: Seq<char>) -> Update {
    Update::HandlerRemoved(event)
}

/// The update for a class that is in `to` and not in `from`.
spec fn class_update(added: bool, c: Seq<char>) -> Update {
    if added {
        Update::ClassAdded(c)
    } else {
        Update::ClassRemoved(c)
    }
}

/// What one more element adds to what a sequence contains.
proof fn lemma_push_contains<T>(s: Seq<T>, x: T, u: T)
    ensures
        s.push(x).contains(u) <==> s.contains(u) || u == x,
{
    if s.contains(u) {
        let i = choose|i: int| 0 <= i < s.len() && s[i] == u;
        assert(s.push(x)[i] == u);
    }
    if u == x {
        assert(s.push(x)[s.len() as int] == u);
    }
    if s.push(x).contains(u) {
        let i = choose|i: int| 0 <= i < s.push(x).len() && s.push(x)[i] == u;
        if i < s.len() {
            assert(s[i] == u);
        }
    }
}

/// Appends one change and says what the vector then contains.
fn record(out: &mut Vec<Change>, change: Change)
    ensures
        forall|u: Update| #[trigger]
            updates(final(out)@).contains(u) <==> updates(old(out)@).contains(u) || u == change@,
{
    let ghost before = updates(out@);
    out.push(change);
    proof {
        assert(updates(out@) =~= before.push(change@));
        assert forall|u: Update| #[trigger]
            updates(out@).contains(u) <==> before.contains(u) || u == change@ by {
            lemma_push_contains(before, change@, u);
        }
    }
}

/// Appends a class update for every class of `to` that `from` lacks.
fn class_changes(from: &Vec<String>, to: &Vec<String>, added: bool, out: &mut Vec<Change>)
    ensures
        forall|u: Update| #[trigger]
            updates(final(out)@).contains(u) <==> updates(old(out)@).contains(u) || exists|c: Seq<char>|
                u == class_update(added, c) && views(to@).contains(c) && !views(from@).contains(c),
{
    let mut i: usize = 0;
    while i < to.len()
        invariant
            i <= to.len(),
            forall|u: Update| #[trigger]
                updates(out@).contains(u) <==> updates(old(out)@).contains(u) || exists|c: Seq<char>|
                    u == class_update(added, c) && views(to@).take(i as int).contains(c) && !views(from@).contains(c),
        decreases to.len() - i,
    {
        let ghost seen = views(to@).take(i as int);
        let ghost next = views(to@).take(i + 1);
        let ghost this = to@[i as int]@;
        let ghost held = updates(out@);
        proof {
            assert(next =~= seen.push(this));
            assert forall|c: Seq<char>| next.contains(c) <==> seen.contains(c) || c == this by {
                lemma_push_contains(seen, this, c);
            }
        }
        if !has_token(from, &to[i]) {
            let change = if added {
                Change::ClassAdded(to[i].clone())
            } else {
                Change::ClassRemoved(to[i].clone())
            };
            record(out, change);
            proof {
                assert forall|u: Update| #[trigger]
                    updates(out@).contains(u) <==> updates(old(out)@).contains(u) || exists|c: Seq<char>|
                        u == class_update(added, c) && next.contains(c) && !views(from@).contains(
                            c,
                        ) by {
                    if u == class_update(added, this) {
                        assert(next.contains(this));
                    }
                    if exists|c: Seq<char>|
                        u == class_update(added, c) && next.contains(c) && !views(from@).contains(
                            c,
                        ) {
                        let c = choose|c: Seq<char>|
                            u == class_update(added, c) && next.contains(c) && !views(from@).contains(c);
                        if c != this {
                            assert(seen.contains(c));
                        }
                    }
                    if held.contains(u) && !updates(old(out)@).contains(u) {
                        let c = choose|c: Seq<char>|
                            u == class_update(added, c) && seen.contains(c) && !views(from@).contains(c);
                        assert(next.contains(c));
                    }
                }
            }
        } else {
            proof {
                assert forall|u: Update| #[trigger]
                    updates(out@).contains(u) <==> updates(old(out)@).contains(u) || exists|c: Seq<char>|
                        u == class_update(added, c) && next.contains(c) && !views(from@).contains(
                            c,
                        ) by {
                    if exists|c: Seq<char>|
                        u == class_update(added, c) && next.contains(c) && !views(from@).contains(
                            c,
                        ) {
                        let c = choose|c: Seq<char>|
                            u == class_update(added, c) && next.contains(c) && !views(from@).contains(c);
                        assert(c != this);
                        assert(seen.contains(c));
                    }
                    if held.contains(u) && !updates(old(out)@).contains(u) {
                        let c = choose|c: Seq<char>|
                            u == class_update(added, c) && seen.contains(c) && !views(from@).contains(c);
                        assert(next.contains(c));
                    }
                }
            }
        }
        i = i + 1;
    }
    assert(views(to@).take(to.len() as int) =~= views(to@));
}

/// Whether `name` stands at a position below `i` of the table.
spec fn named_below<V>(t: Table<V>, i: int, name: Seq<char>) -> bool {
    exists|j: int| 0 <= j < i && #[trigger] t.pairs()[j].0@ == name
}

/// Appends an update for every name of `after` whose value `before` lacks.
fn put_changes(before: &Table<String>, after: &Table<String>, part: Part, out: &mut Vec<Change>)
    ensures
        forall|u: Update| #[trigger]
            updates(final(out)@).contains(u) <==> updates(old(out)@).contains(u) || exists|n: Seq<char>, v: Seq<char>|
                u == #[trigger] put(part, n, v) && put_needed(before@, after@, n, v),
{
    let count: usize = after.len();
    let mut i: usize = 0;
    while i < count
        invariant
            i <= count,
            count == after.pairs().len(),
            forall|u: Update| #[trigger]
                updates(out@).contains(u) <==> updates(old(out)@).contains(u) || exists|n: Seq<char>, v: Seq<char>|
                    u == #[trigger] put(part, n, v) && put_needed(before@, after@, n, v)
                        && named_below(*after, i as int, n),
        decreases count - i,
    {
        let name = after.name_at(i);
        let value = after.value_at(i);
        let needed: bool = match before.get(name) {
            Some(v) => !(*v == *value),
            None => true,
        };
        let ghost held = updates(out@);
        assert(needed == put_needed(before@, after@, name@, value@));
        assert(after.pairs()[i as int].0@ == name@);
        if needed {
            let change = match part {
                Part::Attribute => Change::AttributeSet(name.clone(), value.clone()),
                Part::Style => Change::StyleSet(name.clone(), value.clone()),
            };
            assert(change@ == put(part, name@, value@));
            record(out, change);
        }
        proof {
            assert forall|u: Update| #[trigger]
                updates(out@).contains(u) <==> updates(old(out)@).contains(u) || exists|n: Seq<char>, v: Seq<char>|
                    u == #[trigger] put(part, n, v) && put_needed(before@, after@, n, v)
                        && named_below(*after, i + 1, n) by {
                if needed && u == put(part, name@, value@) {
                    assert(named_below(*after, i + 1, name@));
                }
                if held.contains(u) && !updates(old(out)@).contains(u) {
                    let (n, v) = choose|n: Seq<char>, v: Seq<char>|
                        u == #[trigger] put(part, n, v) && put_needed(before@, after@, n, v)
                            && named_below(*after, i as int, n);
                    assert(named_below(*after, i + 1, n));
                }
                if exists|n: Seq<char>, v: Seq<char>|
                    u == #[trigger] put(part, n, v) && put_needed(before@, after@, n, v)
                        && named_below(*after, i + 1, n) {
                    let (n, v) = choose|n: Seq<char>, v: Seq<char>|
                        u == #[trigger] put(part, n, v) && put_needed(before@, after@, n, v)
                            && named_below(*after, i + 1, n);
                    if !named_below(*after, i as int, n) {
                        assert(n == name@);
                        assert(v == value@);
                    }
                }
            }
        }
        i = i + 1;
    }
}

/// Appends an update for every name of `before` that `after` lacks.
fn removal_changes(
    before: &Table<String>,
    after: &Table<String>,
    part: Part,
    out: &mut Vec<Change>,
)
    ensures
        forall|u: Update| #[trigger]
            updates(final(out)@).contains(u) <==> updates(old(out)@).contains(u) || exists|n: Seq<char>|
                u == #[trigger] removal(part, n) && removal_needed(before@, after@, n),
{
    let count: usize = before.len();
    let mut i: usize = 0;
    while i < count
        invariant
            i <= count,
            count == before.pairs().len(),
            forall|u: Update| #[trigger]
                updates(out@).contains(u) <==> updates(old(out)@).contains(u) || exists|n: Seq<char>|
                    u == #[trigger] removal(part, n) && removal_needed(before@, after@, n)
                        && named_below(*before, i as int, n),
        decreases count - i,
    {
        let name = before.name_at(i);
        let needed: bool = !after.contains_key(name);
        let ghost held = updates(out@);
        assert(needed == removal_needed(before@, after@, name@));
        assert(before.pairs()[i as int].0@ == name@);
        if needed {
            let change = match part {
                Part::Attribute => Change::AttributeRemoved(name.clone()),
                Part::Style => Change::StyleRemoved(name.clone()),
            };
            assert(change@ == removal(part, name@));
            record(out, change);
        }
        proof {
            assert forall|u: Update| #[trigger]
                updates(out@).contains(u) <==> updates(old(out)@).contains(u) || exists|n: Seq<char>|
                    u == #[trigger] removal(part, n) && removal_needed(before@, after@, n)
                        && named_below(*before, i + 1, n) by {
                if needed && u == removal(part, name@) {
                    assert(named_below(*before, i + 1, name@));
                }
                if held.contains(u) && !updates(old(out)@).contains(u) {
                    let n = choose|n: Seq<char>|
                        u == #[trigger] removal(part, n) && removal_needed(before@, after@, n)
                            && named_below(*before, i as int, n);
                    assert(named_below(*before, i + 1, n));
                }
                if exists|n: Seq<char>|
                    u == #[trigger] removal(part, n) && removal_needed(before@, after@, n)
                        && named_below(*before, i + 1, n) {
                    let n = choose|n: Seq<char>|
                        u == #[trigger] removal(part, n) && removal_needed(before@, after@, n)
                            && named_below(*before, i + 1, n);
                    if !named_below(*before, i as int, n) {
                        assert(n == name@);
                    }
                }
            }
        }
        i = i + 1;
    }
}

/// Appends an update for every event of `after` whose handler `before` lacks.
fn handler_put_changes(before: &Table<Callback>, after: &Table<Callback>, out: &mut Vec<Change>)
    ensures
        forall|u: Update| #[trigger]
            updates(final(out)@).contains(u) <==> updates(old(out)@).contains(u) || exists|e: Seq<char>, c: Callback|
                u == #[trigger] handler_put(e, c) && put_needed(before@, after@, e, c),
{
    let count: usize = after.len();
    let mut i: usize = 0;
    while i < count
        invariant
            i <= count,
            count == after.pairs().len(),
            forall|u: Update| #[trigger]
                updates(out@).contains(u) <==> updates(old(out)@).contains(u) || exists|e: Seq<char>, c: Callback|
                    u == #[trigger] handler_put(e, c) && put_needed(before@, after@, e, c)
                        && named_below(*after, i as int, e),
        decreases count - i,
    {
        let name = after.name_at(i);
        let value = after.value_at(i);
        let needed: bool = match before.get(name) {
            Some(v) => !(*v == *value),
            None => true,
        };
        let ghost held = updates(out@);
        assert(needed == put_needed(before@, after@, name@, *value));
        assert(after.pairs()[i as int].0@ == name@);
        if needed {
            record(out, Change::HandlerSet(name.clone(), *value));
        }
        proof {
            assert forall|u: Update| #[trigger]
                updates(out@).contains(u) <==> updates(old(out)@).contains(u) || exists|e: Seq<char>, c: Callback|
                    u == #[trigger] handler_put(e, c) && put_needed(before@, after@, e, c)
                        && named_below(*after, i + 1, e) by {
                if needed && u == handler_put(name@, *value) {
                    assert(named_below(*after, i + 1, name@));
                }
                if held.contains(u) && !updates(old(out)@).contains(u) {
                    let (e, c) = choose|e: Seq<char>, c: Callback|
                        u == #[trigger] handler_put(e, c) && put_needed(
                            before@,
                            after@,
                            e,
                            c,
                        ) && named_below(*after, i as int, e);
                    assert(named_below(*after, i + 1, e));
                }
                if exists|e: Seq<char>, c: Callback|
                    u == #[trigger] handler_put(e, c) && put_needed(before@, after@, e, c)
                        && named_below(*after, i + 1, e) {
                    let (e, c) = choose|e: Seq<char>, c: Callback|
                        u == #[trigger] handler_put(e, c) && put_needed(
                            before@,
                            after@,
                            e,
                            c,
                        ) && named_below(*after, i + 1, e);
                    if !named_below(*after, i as int, e) {
                        assert(e == name@);
                        assert(c == *value);
                    }
                }
            }
        }
        i = i + 1;
    }
}

/// Appends an update for every event of `before` that `after` lacks.
fn handler_removal_changes(
    before: &Table<Callback>,
    after: &Table<Callback>,
    out: &mut Vec<Change>,
)
    ensures
        forall|u: Update| #[trigger]
            updates(final(out)@).contains(u) <==> updates(old(out)@).contains(u) || exists|e: Seq<char>|
                u == #[trigger] handler_removal(e) && removal_needed(before@, after@, e),
{
    let count: usize = before.len();
    let mut i: usize = 0;
    while i < count
        invariant
            i <= count,
            count == before.pairs().len(),
            forall|u: Update| #[trigger]
                updates(out@).contains(u) <==> updates(old(out)@).contains(u) || exists|e: Seq<char>|
                    u == #[trigger] handler_removal(e) && removal_needed(
                        before@,
                        after@,
                        e,
                    ) && named_below(*before, i as int, e),
        decreases count - i,
    {
        let name = before.name_at(i);
        let needed: bool = !after.contains_key(name);
        let ghost held = updates(out@);
        assert(needed == removal_needed(before@, after@, name@));
        assert(before.pairs()[i as int].0@ == name@);
        if needed {
            record(out, Change::HandlerRemoved(name.clone()));
        }
        proof {
            assert forall|u: Update| #[trigger]
                updates(out@).contains(u) <==> updates(old(out)@).contains(u) || exists|e: Seq<char>|
                    u == #[trigger] handler_removal(e) && removal_needed(
                        before@,
                        after@,
                        e,
                    ) && named_below(*before, i + 1, e) by {
                if needed && u == handler_removal(name@) {
                    assert(named_below(*before, i + 1, name@));
                }
                if held.contains(u) && !updates(old(out)@).contains(u) {
                    let e = choose|e: Seq<char>|
                        u == #[trigger] handler_removal(e) && removal_needed(
                            before@,
                            after@,
                            e,
                        ) && named_below(*before, i as int, e);
                    assert(named_below(*before, i + 1, e));
                }
                if exists|e: Seq<char>|
                    u == #[trigger] handler_removal(e) && removal_needed(
                        before@,
                        after@,
                        e,
                    ) && named_below(*before, i + 1, e) {
                    let e = choose|e: Seq<char>|
                        u == #[trigger] handler_removal(e) && removal_needed(
                            before@,
                            after@,
                            e,
                        ) && named_below(*before, i + 1, e);
                    if !named_below(*before, i as int, e) {
                        assert(e == name@);
                    }
                }
            }
        }
        i = i + 1;
    }
}

/// The updates that lead from the snapshot `before` to the snapshot `after`:
/// every update that is needed, and no other.
pub fn changes(before: &EffectiveAttributes, after: &EffectiveAttributes) -> (out: Vec<Change>)
    ensures
        forall|u: Update| #[trigger] updates(out@).contains(u) <==> is_update(before@, after@, u),
{
    let mut out: Vec<Change> = Vec::new();
    assert(updates(out@) =~= Seq::<Update>::empty());
    class_changes(&before.classes, &after.classes, true, &mut out);
    let ghost s1 = updates(out@);
    class_changes(&after.classes, &before.classes, false, &mut out);
    let ghost s2 = updates(out@);
    put_changes(&before.attributes, &after.attributes, Part::Attribute, &mut out);
    let ghost s3 = updates(out@);
    removal_changes(&before.attributes, &after.attributes, Part::Attribute, &mut out);
    let ghost s4 = updates(out@);
    put_changes(&before.styles, &after.styles, Part::Style, &mut out);
    let ghost s5 = updates(out@);
    removal_changes(&before.styles, &after.styles, Part::Style, &mut out);
    let ghost s6 = updates(out@);
    handler_put_changes(&before.handlers, &after.handlers, &mut out);
    let ghost s7 = updates(out@);
    handler_removal_changes(&before.handlers, &after.handlers, &mut out);
    proof {
        assert forall|u: Update| #[trigger]
            updates(out@).contains(u) <==> is_update(before@, after@, u) by {
            assert(!Seq::<Update>::empty().contains(u));
            match u {
                Update::ClassAdded(c) => {
                    assert(u == class_update(true, c));
                    assert(s1.contains(u) <==> is_update(before@, after@, u));
                },
                Update::ClassRemoved(c) => {
                    assert(u == class_update(false, c));
                    assert(!s1.contains(u));
                    assert(s2.contains(u) <==> is_update(before@, after@, u));
                },
                Update::AttributeSet(n, v) => {
                    assert(u == put(Part::Attribute, n, v));
                    assert(!s2.contains(u));
                    assert(s3.contains(u) <==> is_update(before@, after@, u));
                },
                Update::AttributeRemoved(n) => {
                    assert(u == removal(Part::Attribute, n));
                    assert(!s3.contains(u));
                    assert(s4.contains(u) <==> is_update(before@, after@, u));
                },
                Update::StyleSet(p, v) => {
                    assert(u == put(Part::Style, p, v));
                    assert(!s4.contains(u));
                    assert(s5.contains(u) <==> is_update(before@, after@, u));
                },
                Update::StyleRemoved(p) => {
                    assert(u == removal(Part::Style, p));
                    assert(!s5.contains(u));
                    assert(s6.contains(u) <==> is_update(before@, after@, u));
                },
                Update::HandlerSet(e, c) => {
                    assert(u == handler_put(e, c));
                    assert(!s6.contains(u));
                    assert(s7.contains(u) <==> is_update(before@, after@, u));
                },
                Update::HandlerRemoved(e) => {
                    assert(u == handler_removal(e));
                    assert(!s7.contains(u));
                },
            }
        }
    }
    out
}

} // verus!
