use attr_engine::boundary::{classify, deliver, passes, Boundary, SlotShape};
use attr_engine::bundle::{AttributeBundle, AttributeDirective, ValueSource};
use attr_engine::compose::{
    check, check_with_capacity, compose, has_class_list, CompositionError, Target, CAPACITY,
};

fn toggles(count: usize) -> AttributeBundle {
    let mut bundle = AttributeBundle::new();
    for i in 0..count {
        bundle.push(AttributeDirective::class_toggle(&format!("t{}", i), ValueSource::Static(true)));
    }
    bundle
}

fn class_list() -> AttributeDirective {
    AttributeDirective::class_list_toggle(
        vec!["foo".to_string(), "qux".to_string(), "quux".to_string()],
        ValueSource::Static(true),
    )
}

#[test]
fn capacity_is_twenty_six() {
    assert_eq!(CAPACITY, 26);
}

#[test]
fn capacity_bound_is_sharp_for_other_capacities() {
    for capacity in [0usize, 1, 3, 26, 40] {
        assert_eq!(check_with_capacity(&toggles(capacity), Target::Component, capacity), Ok(()));
        assert_eq!(
            check_with_capacity(&toggles(capacity + 1), Target::Component, capacity),
            Err(CompositionError::CapacityExceeded { count: capacity + 1, capacity })
        );
    }
}

#[test]
fn capacity_holds_at_a_leaf_too() {
    assert_eq!(check(&toggles(26), Target::Leaf), Ok(()));
    assert_eq!(
        check(&toggles(30), Target::Leaf),
        Err(CompositionError::CapacityExceeded { count: 30, capacity: 26 })
    );
}

#[test]
fn empty_bundle_composes_anywhere() {
    assert_eq!(check(&AttributeBundle::new(), Target::Component), Ok(()));
    assert_eq!(check(&AttributeBundle::new(), Target::Leaf), Ok(()));
}

#[test]
fn class_list_on_a_component_is_rejected() {
    let mut bundle = AttributeBundle::new();
    bundle.push(class_list());
    assert_eq!(check(&bundle, Target::Component), Err(CompositionError::NonLeafTarget));
}

#[test]
fn class_list_on_a_leaf_is_accepted() {
    let mut bundle = AttributeBundle::new();
    bundle.push(class_list());
    assert_eq!(check(&bundle, Target::Leaf), Ok(()));
}

#[test]
fn class_list_inside_a_spread_is_found() {
    let mut innermost = AttributeBundle::new();
    innermost.push(class_list());
    let mut inner = AttributeBundle::new();
    inner.push(AttributeDirective::class_toggle("a", ValueSource::Static(true)));
    inner.push(AttributeDirective::spread(innermost));
    let mut bundle = AttributeBundle::new();
    bundle.push(AttributeDirective::spread(inner));
    bundle.push(AttributeDirective::class_toggle("b", ValueSource::Static(true)));
    assert!(has_class_list(&bundle.directives));
    assert_eq!(check(&bundle, Target::Component), Err(CompositionError::NonLeafTarget));
    assert_eq!(check(&bundle, Target::Leaf), Ok(()));
}

#[test]
fn bundle_without_class_list_has_none() {
    let mut inner = AttributeBundle::new();
    inner.push(AttributeDirective::class_toggle("a", ValueSource::Static(true)));
    let mut bundle = toggles(3);
    bundle.push(AttributeDirective::spread(inner));
    assert!(!has_class_list(&bundle.directives));
    assert!(!has_class_list(&AttributeBundle::new().directives));
}

#[test]
fn count_is_judged_before_the_class_list() {
    let mut bundle = toggles(26);
    bundle.push(class_list());
    assert_eq!(
        check(&bundle, Target::Component),
        Err(CompositionError::CapacityExceeded { count: 27, capacity: 26 })
    );
}

#[test]
fn spread_counts_as_one_directive() {
    let mut bundle = toggles(25);
    bundle.push(AttributeDirective::spread(toggles(10)));
    assert_eq!(bundle.len(), 26);
    assert_eq!(check(&bundle, Target::Component), Ok(()));
}

#[test]
fn compose_hands_the_bundle_over() {
    let composed = compose(toggles(2), Target::Component).expect("two directives fit");
    assert_eq!(composed.len(), 2);
    assert_eq!(composed.directives[0].name, "t0");
    assert_eq!(composed.directives[1].name, "t1");
    let refused = compose(toggles(27), Target::Leaf);
    assert_eq!(
        refused.err(),
        Some(CompositionError::CapacityExceeded { count: 27, capacity: 26 })
    );
}

#[test]
fn slot_shapes_classify_as_documented() {
    assert_eq!(classify(SlotShape::Typed), Boundary::Transparent);
    assert_eq!(classify(SlotShape::Erased), Boundary::Opaque);
    assert_eq!(classify(SlotShape::Conditional { unified: true }), Boundary::Opaque);
    assert_eq!(classify(SlotShape::Conditional { unified: false }), Boundary::Transparent);
}

#[test]
fn one_opaque_boundary_blocks_at_any_depth() {
    for depth in 1..8usize {
        for at in 0..depth {
            let mut path = vec![Boundary::Transparent; depth];
            path[at] = Boundary::Opaque;
            assert!(!passes(&path));
            assert!(deliver(toggles(1), &path).is_none());
        }
        let clear = vec![Boundary::Transparent; depth];
        assert!(passes(&clear));
        let arrived = deliver(toggles(2), &clear).expect("typed all the way");
        assert_eq!(arrived.len(), 2);
    }
}

#[test]
fn empty_path_delivers() {
    let arrived = deliver(toggles(1), &Vec::new()).expect("nothing in the way");
    assert_eq!(arrived.directives[0].name, "t0");
}

#[test]
fn messages_name_the_fault() {
    assert_eq!(
        CompositionError::CapacityExceeded { count: 27, capacity: 26 }.message(),
        "capacity exceeded: 27 directives, at most 26 cross one typed boundary"
    );
    assert_eq!(
        CompositionError::NonLeafTarget.message(),
        "non-leaf target: a class list cannot be composed onto a component"
    );
    assert_eq!(
        CompositionError::AlreadyConsumed.message(),
        "already consumed: an interceptor handle is spread once"
    );
}
