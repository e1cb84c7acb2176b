//! Recursive nesting of a component within itself: what each level looks
//! like, and what it hands to the level below.
//!
//! Every level but the innermost wraps its content in a component and
//! addresses two attributes to it; the innermost level is a plain element.

use vstd::prelude::*;
use vstd::string::*;
use crate::bundle::{flat_directive, flat_seq, AttributeBundle, AttributeDirective, Entry, ValueSource};
use crate::decimal::{decimal, signed_decimal};

verus! {

/// The remainder of `level` by six, with the sign of `level`.
pub open spec fn remainder_of_six(level: int) -> int {
    if level >= 0 {
        level % 6
    } else {
        -((-level) % 6)
    }
}

/// The background colour of a level: six colours in turn.
pub open spec fn background_of(level: int) -> Seq<char> {
    let r = remainder_of_six(level);
    if r == 0 {
        "#fafaff"@
    } else if r == 1 {
        "#fffaf0"@
    } else if r == 2 {
        "#f5fff5"@
    } else if r == 3 {
        "#f9f9ff"@
    } else if r == 4 {
        "#fdf5f5"@
    } else {
        "#f5ffff"@
    }
}

/// The style of a level without its border: padding and margin grow by one
/// pixel per level.
pub open spec fn base_style(level: int) -> Seq<char> {
    "padding: "@ + decimal(4 + level) + "px 0; margin: "@ + decimal(2 + level)
        + "px 0; background-color: "@ + background_of(level) + "; border-radius: 4px"@
}

/// The style of a level with its border: solid at the innermost level,
/// dashed at the others.
pub open spec fn framed_style(level: int, innermost: bool) -> Seq<char> {
    base_style(level) + (if innermost {
        "; border: 1px solid "@
    } else {
        "; border: 1px dashed "@
    }) + background_of(level)
}

/// A literal attribute declared at the node itself.
pub open spec fn literal_attr(name: Seq<char>, value: Seq<char>) -> Entry {
    Entry::Attr { name, value, signal: None, depth: 0 }
}

/// The background colour of a level.
pub fn level_background(level: i32) -> (colour: &'static str)
    ensures
        colour@ == background_of(level as int),
{
    let wide: i64 = level as i64;
    let r: i64 = if wide >= 0 {
        wide % 6
    } else {
        -((-wide) % 6)
    };
    if r == 0 {
        "#fafaff"
    } else if r == 1 {
        "#fffaf0"
    } else if r == 2 {
        "#f5fff5"
    } else if r == 3 {
        "#f9f9ff"
    } else if r == 4 {
        "#fdf5f5"
    } else {
        "#f5ffff"
    }
}

/// The style of a level without its border.
pub fn level_style(level: i32) -> (style: String)
    ensures
        style@ == base_style(level as int),
{
    let wide: i64 = level as i64;
    let mut style: String = String::from_str("padding: ");
    style.append(signed_decimal(4 + wide).as_str());
    style.append("px 0; margin: ");
    style.append(signed_decimal(2 + wide).as_str());
    style.append("px 0; background-color: ");
    style.append(level_background(level));
    style.append("; border-radius: 4px");
    style
}

/// The style of a level with its border.
pub fn framed_level_style(level: i32, innermost: bool) -> (style: String)
    ensures
        style@ == framed_style(level as int, innermost),
{
    let mut style: String = level_style(level);
    if innermost {
        style.append("; border: 1px solid ");
    } else {
        style.append("; border: 1px dashed ");
    }
    style.append(level_background(level));
    style
}

/// Whether `level` is the innermost one.
pub fn reached_max(level: i32, max: i32) -> (innermost: bool)
    ensures
        innermost == (level >= max),
{
    level >= max
}

/// What one level of the nesting renders.
#[derive(Debug)]
pub enum NestingStep {
    /// A plain element with this style.
    Innermost { style: String },
    /// A wrapping component that is offered `outer`, around the next level,
    /// which is offered `inner`.
    Wrapped { outer: AttributeBundle, inner: AttributeBundle, next_level: i32 },
}

/// The entries of a bundle after one more directive.
pub proof fn lemma_flat_push(ds: Seq<AttributeDirective>, d: AttributeDirective)
    ensures
        flat_seq(ds.push(d), None) == flat_seq(ds, None) + flat_directive(d, d.origin_depth),
{
    assert(ds.push(d).drop_last() =~= ds);
}

/// Decides what the level `level` of a nesting that ends at `max` renders.
pub fn nesting_step(level: i32, max: i32) -> (step: NestingStep)
    ensures
        match step {
            NestingStep::Innermost { style } => level >= max && style@ == framed_style(
                level as int,
                true,
            ),
            NestingStep::Wrapped { outer, inner, next_level } => level < max && next_level == level
                + 1 && outer.flat() == seq![
                literal_attr("data-level-outer"@, decimal(level as int)),
                literal_attr("style"@, framed_style(level as int, false)),
            ] && inner.flat() == seq![literal_attr("data-level-inner"@, decimal(level as int))],
        },
{
    if reached_max(level, max) {
        return NestingStep::Innermost { style: framed_level_style(level, true) };
    }
    let none = Ghost(Seq::<AttributeDirective>::empty());
    let first = AttributeDirective::full_attr(
        "data-level-outer",
        ValueSource::fixed(signed_decimal(level as i64)),
    );
    let second = AttributeDirective::full_attr(
        "style",
        ValueSource::fixed(framed_level_style(level, false)),
    );
    let third = AttributeDirective::full_attr(
        "data-level-inner",
        ValueSource::fixed(signed_decimal(level as i64)),
    );
    let mut outer = AttributeBundle::new();
    let mut inner = AttributeBundle::new();
    proof {
        lemma_flat_push(none@, first);
        lemma_flat_push(none@.push(first), second);
        lemma_flat_push(none@, third);
    }
    outer.push(first);
    outer.push(second);
    inner.push(third);
    assert(outer.flat() =~= seq![
        literal_attr("data-level-outer"@, decimal(level as int)),
        literal_attr("style"@, framed_style(level as int, false)),
    ]);
    assert(inner.flat() =~= seq![literal_attr("data-level-inner"@, decimal(level as int))]);
    NestingStep::Wrapped { outer, inner, next_level: level + 1 }
}

} // verus!
