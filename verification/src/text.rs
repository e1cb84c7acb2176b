//! Class strings: splitting on ASCII whitespace, ordered sets of tokens, joining.

use vstd::prelude::*;
use vstd::string::*;

verus! {

/// ASCII whitespace, the separators of a class string.
pub open spec fn is_space(c: char) -> bool {
    c == ' ' || c == '\t' || c == '\n' || c == '\r' || c == '\x0c'
}

/// The views of a vector of strings, element by element.
pub open spec fn views(v: Seq<String>) -> Seq<Seq<char>> {
    v.map_values(|s: String| s@)
}

/// The whitespace-separated tokens of `s`, left to right.
///
/// Defined on the last character: a separator changes nothing, a character
/// that follows a token character extends the last token, and any other
/// character opens a new token.
pub open spec fn tokens(s: Seq<char>) -> Seq<Seq<char>>
    decreases s.len(),
{
    if s.len() == 0 {
        Seq::empty()
    } else {
        let front = s.drop_last();
        let t = tokens(front);
        if is_space(s.last()) {
            t
        } else if front.len() > 0 && !is_space(front.last()) && t.len() > 0 {
            t.drop_last().push(t.last().push(s.last()))
        } else {
            t.push(seq![s.last()])
        }
    }
}

/// The tokens separated by single spaces.
pub open spec fn join(ts: Seq<Seq<char>>) -> Seq<char>
    decreases ts.len(),
{
    if ts.len() == 0 {
        Seq::empty()
    } else if ts.len() == 1 {
        ts[0]
    } else {
        join(ts.drop_last()) + seq![' '] + ts.last()
    }
}

/// `ts` without repetitions: of equal tokens the first stays, in its place.
pub open spec fn distinct(ts: Seq<Seq<char>>) -> Seq<Seq<char>>
    decreases ts.len(),
{
    if ts.len() == 0 {
        Seq::empty()
    } else {
        let d = distinct(ts.drop_last());
        if d.contains(ts.last()) {
            d
        } else {
            d.push(ts.last())
        }
    }
}

/// `distinct` holds a token exactly where `ts` holds it.
pub proof fn lemma_distinct_member(ts: Seq<Seq<char>>, t: Seq<char>)
    ensures
        distinct(ts).contains(t) <==> ts.contains(t),
    decreases ts.len(),
{
    if ts.len() > 0 {
        let front = ts.drop_last();
        let d = distinct(front);
        lemma_distinct_member(front, t);
        lemma_distinct_member(front, ts.last());
        if ts.contains(t) {
            let i = choose|i: int| 0 <= i < ts.len() && ts[i] == t;
            if i < ts.len() - 1 {
                assert(front[i] == t);
                assert(front.contains(t));
                if !d.contains(ts.last()) {
                    let j = choose|j: int| 0 <= j < d.len() && d[j] == t;
                    assert(d.push(ts.last())[j] == t);
                }
            } else if !d.contains(ts.last()) {
                assert(d.push(ts.last())[d.len() as int] == t);
            }
        }
        if distinct(ts).contains(t) {
            let j = choose|j: int| 0 <= j < distinct(ts).len() && distinct(ts)[j] == t;
            if j < d.len() {
                assert(d[j] == t);
                assert(d.contains(t));
                assert(front.contains(t));
                let i = choose|i: int| 0 <= i < front.len() && front[i] == t;
                assert(ts[i] == t);
            } else {
                assert(ts[ts.len() - 1] == t);
            }
        }
    }
}

/// An ordered set: nothing stands twice in `distinct`.
pub proof fn lemma_distinct_is_a_set(ts: Seq<Seq<char>>)
    ensures
        distinct(ts).no_duplicates(),
    decreases ts.len(),
{
    if ts.len() > 0 {
        lemma_distinct_is_a_set(ts.drop_last());
    }
}

/// A token as a class string can hold it: not empty, no whitespace in it.
pub open spec fn proper_token(t: Seq<char>) -> bool {
    t.len() > 0 && forall|i: int| 0 <= i < t.len() ==> !is_space(#[trigger] t[i])
}

/// After nothing or after a separator, a run of token characters is one more
/// token.
proof fn lemma_tokens_extend(a: Seq<char>, t: Seq<char>)
    requires
        proper_token(t),
        a.len() == 0 || is_space(a.last()),
    ensures
        tokens(a + t) == tokens(a).push(t),
    decreases t.len(),
{
    let s = a + t;
    let shorter = t.drop_last();
    assert(s.drop_last() =~= a + shorter);
    assert(s.last() == t.last());
    assert(!is_space(t[t.len() - 1]));
    if shorter.len() == 0 {
        assert(a + shorter =~= a);
        assert(seq![t.last()] =~= t);
    } else {
        assert forall|i: int| 0 <= i < shorter.len() implies !is_space(#[trigger] shorter[i]) by {
            assert(shorter[i] == t[i]);
        }
        lemma_tokens_extend(a, shorter);
        assert((a + shorter).last() == shorter.last());
        assert(shorter.last() == t[t.len() - 2]);
        assert(tokens(a).push(shorter).drop_last() =~= tokens(a));
        assert(shorter.push(t.last()) =~= t);
    }
}

/// Splitting undoes joining: the tokens of a joined string are the tokens
/// that were joined.
pub proof fn lemma_split_undoes_join(ts: Seq<Seq<char>>)
    requires
        forall|i: int| 0 <= i < ts.len() ==> proper_token(#[trigger] ts[i]),
    ensures
        tokens(join(ts)) == ts,
    decreases ts.len(),
{
    let nothing = Seq::<char>::empty();
    if ts.len() == 0 {
        assert(ts =~= Seq::<Seq<char>>::empty());
    } else if ts.len() == 1 {
        lemma_tokens_extend(nothing, ts[0]);
        assert(nothing + ts[0] =~= ts[0]);
        assert(tokens(nothing).push(ts[0]) =~= ts);
    } else {
        let front = ts.drop_last();
        assert forall|i: int| 0 <= i < front.len() implies proper_token(#[trigger] front[i]) by {
            assert(front[i] == ts[i]);
        }
        lemma_split_undoes_join(front);
        let a = join(front) + seq![' '];
        assert(a.drop_last() =~= join(front));
        assert(a.last() == ' ');
        assert(tokens(a) == front);
        assert(proper_token(ts[ts.len() - 1]));
        lemma_tokens_extend(a, ts.last());
        assert(front.push(ts.last()) =~= ts);
    }
}

/// Every token of a string is proper.
pub proof fn lemma_tokens_are_proper(s: Seq<char>)
    ensures
        forall|i: int| 0 <= i < tokens(s).len() ==> proper_token(#[trigger] tokens(s)[i]),
    decreases s.len(),
{
    if s.len() > 0 {
        let front = s.drop_last();
        let t = tokens(front);
        lemma_tokens_are_proper(front);
        if !is_space(s.last()) {
            if front.len() > 0 && !is_space(front.last()) && t.len() > 0 {
                let grown = t.last().push(s.last());
                assert(proper_token(t[t.len() - 1]));
                assert forall|k: int| 0 <= k < grown.len() implies !is_space(#[trigger] grown[k]) by {
                    if k < t.last().len() {
                        assert(grown[k] == t.last()[k]);
                    }
                }
                assert forall|i: int| 0 <= i < tokens(s).len() implies proper_token(
                    #[trigger] tokens(s)[i],
                ) by {
                    if i < t.len() - 1 {
                        assert(tokens(s)[i] == t[i]);
                    }
                }
            } else {
                assert forall|i: int| 0 <= i < tokens(s).len() implies proper_token(
                    #[trigger] tokens(s)[i],
                ) by {
                    if i < t.len() {
                        assert(tokens(s)[i] == t[i]);
                    }
                }
            }
        }
    }
}

/// What is already an ordered set stays as it is.
pub proof fn lemma_distinct_keeps_a_set(ts: Seq<Seq<char>>)
    requires
        ts.no_duplicates(),
    ensures
        distinct(ts) == ts,
    decreases ts.len(),
{
    if ts.len() > 0 {
        let front = ts.drop_last();
        lemma_distinct_keeps_a_set(front);
        if front.contains(ts.last()) {
            let i = choose|i: int| 0 <= i < front.len() && front[i] == ts.last();
            assert(ts[i] == ts[ts.len() - 1]);
        }
        assert(front.push(ts.last()) =~= ts);
    } else {
        assert(ts =~= Seq::<Seq<char>>::empty());
    }
}

/// Whether `c` separates class tokens.
pub fn is_separator(c: char) -> (b: bool)
    ensures
        b == is_space(c),
{
    c == ' ' || c == '\t' || c == '\n' || c == '\r' || c == '\x0c'
}

/// Splits a class string into its tokens.
pub fn split_tokens(s: &str) -> (out: Vec<String>)
    ensures
        views(out@) == tokens(s@),
{
    let n: usize = s.unicode_len();
    let mut out: Vec<String> = Vec::new();
    let mut start: usize = 0;
    let mut in_token: bool = false;
    let mut i: usize = 0;
    assert(s@.take(0) =~= Seq::<char>::empty());
    assert(views(out@) =~= Seq::<Seq<char>>::empty());
    while i < n
        invariant
            n == s@.len(),
            i <= n,
            in_token ==> start < i && !is_space(s@[i - 1]),
            in_token ==> tokens(s@.take(i as int)) == views(out@).push(
                s@.subrange(start as int, i as int),
            ),
            !in_token ==> tokens(s@.take(i as int)) == views(out@),
            !in_token ==> i == 0 || is_space(s@[i - 1]),
        decreases n - i,
    {
        let c: char = s.get_char(i);
        let ghost before = s@.take(i as int);
        let ghost after = s@.take(i + 1);
        assert(after.drop_last() =~= before);
        assert(after.last() == c);
        if is_separator(c) {
            if in_token {
                let piece: String = String::from_str(s.substring_char(start, i));
                let ghost old_out = out@;
                out.push(piece);
                assert(views(out@) =~= views(old_out).push(s@.subrange(start as int, i as int)));
                in_token = false;
            }
        } else if in_token {
            assert(before.last() == s@[i - 1]);
            let ghost t = tokens(before);
            assert(t.drop_last() =~= views(out@));
            assert(t.last().push(c) =~= s@.subrange(start as int, i + 1));
        } else {
            assert(seq![c] =~= s@.subrange(i as int, i + 1));
            assert(i > 0 ==> before.last() == s@[i - 1]);
            start = i;
            in_token = true;
        }
        i = i + 1;
    }
    assert(s@.take(n as int) =~= s@);
    if in_token {
        let piece: String = String::from_str(s.substring_char(start, n));
        let ghost old_out = out@;
        out.push(piece);
        assert(views(out@) =~= views(old_out).push(s@.subrange(start as int, n as int)));
    }
    out
}

/// Joins tokens with single spaces.
pub fn join_tokens(ts: &Vec<String>) -> (out: String)
    ensures
        out@ == join(views(ts@)),
{
    let mut out: String = String::new();
    let mut i: usize = 0;
    assert(views(ts@).take(0) =~= Seq::<Seq<char>>::empty());
    while i < ts.len()
        invariant
            i <= ts.len(),
            out@ == join(views(ts@).take(i as int)),
        decreases ts.len() - i,
    {
        let ghost before = views(ts@).take(i as int);
        let ghost after = views(ts@).take(i + 1);
        assert(after.drop_last() =~= before);
        assert(after.last() == ts@[i as int]@);
        if i > 0 {
            proof {
                reveal_strlit(" ");
            }
            out.append(" ");
            assert(" "@ =~= seq![' ']);
        } else {
            assert(after[0] == ts@[0]@);
        }
        out.append(ts[i].as_str());
        i = i + 1;
    }
    assert(views(ts@).take(ts.len() as int) =~= views(ts@));
    out
}

/// Whether `t` is among `list`.
pub fn has_token(list: &Vec<String>, t: &String) -> (found: bool)
    ensures
        found == views(list@).contains(t@),
{
    let mut i: usize = 0;
    while i < list.len()
        invariant
            i <= list.len(),
            forall|j: int| 0 <= j < i ==> views(list@)[j] != t@,
        decreases list.len() - i,
    {
        if list[i] == *t {
            assert(views(list@)[i as int] == t@);
            return true;
        }
        i = i + 1;
    }
    false
}

/// Adds `t` at the end of `list` unless it is already there.
pub fn push_distinct(list: &mut Vec<String>, t: &String) -> (added: bool)
    ensures
        added == !views(old(list)@).contains(t@),
        added ==> views(final(list)@) == views(old(list)@).push(t@),
        !added ==> final(list)@ == old(list)@,
{
    if has_token(list, t) {
        false
    } else {
        let ghost before = list@;
        list.push(t.clone());
        assert(views(list@) =~= views(before).push(t@));
        true
    }
}

} // verus!
