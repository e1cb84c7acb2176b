use attr_engine::bundle::{AttributeBundle, AttributeDirective, Callback, ValueSource};
use attr_engine::merge::{find_attr, merge, merge_entries};
use attr_engine::resolve::{flatten, Resolved};

fn text(value: &str) -> ValueSource<String> {
    ValueSource::Static(value.to_string())
}

fn flag(value: bool) -> ValueSource<bool> {
    ValueSource::Static(value)
}

fn collect(directives: Vec<AttributeDirective>) -> AttributeBundle {
    let mut bundle = AttributeBundle::new();
    for directive in directives {
        bundle.push(directive);
    }
    bundle
}

#[test]
fn empty_forwarded_bundle_changes_nothing() {
    let local = collect(vec![
        AttributeDirective::full_attr("class", text("bar baz")),
        AttributeDirective::class_toggle("foo", flag(true)),
        AttributeDirective::full_attr("id", text("main")),
        AttributeDirective::style_prop("color", text("red")),
        AttributeDirective::event_handler("click", Callback { id: 7 }),
    ]);
    let alone = merge(&local, None);
    let with_empty = merge(&local, Some(&AttributeBundle::new()));
    assert_eq!(alone.class_string(), "bar baz foo");
    assert_eq!(with_empty.class_string(), alone.class_string());
    assert_eq!(with_empty.classes, alone.classes);
    assert_eq!(with_empty.attribute("id"), alone.attribute("id"));
    assert_eq!(alone.attribute("id").map(|s| s.as_str()), Some("main"));
    assert_eq!(with_empty.style("color").map(|s| s.as_str()), Some("red"));
    assert_eq!(with_empty.handler("click"), Some(Callback { id: 7 }));
    assert_eq!(with_empty.attributes.len(), alone.attributes.len());
    assert_eq!(with_empty.styles.len(), alone.styles.len());
    assert_eq!(with_empty.handlers.len(), alone.handlers.len());
}

#[test]
fn forwarded_literal_replaces_local_toggles_and_literal() {
    let local = collect(vec![
        AttributeDirective::class_toggle("a", flag(true)),
        AttributeDirective::full_attr("class", text("own")),
        AttributeDirective::class_toggle("b", flag(true)),
        AttributeDirective::class_toggle("c", flag(false)),
    ]);
    let forwarded = collect(vec![AttributeDirective::full_attr("class", text("x y"))]);
    let merged = merge(&local, Some(&forwarded));
    assert_eq!(merged.class_string(), "x y");
    assert_eq!(merged.classes, vec!["x", "y"]);
}

#[test]
fn forwarded_literal_replaces_generic_attribute() {
    let local = collect(vec![AttributeDirective::full_attr("role", text("table"))]);
    let forwarded = collect(vec![AttributeDirective::full_attr("role", text("grid"))]);
    let merged = merge(&local, Some(&forwarded));
    assert_eq!(merged.attribute("role").map(|s| s.as_str()), Some("grid"));
    assert_eq!(merged.attributes.len(), 1);
}

#[test]
fn local_attribute_stands_without_forwarded_one() {
    let local = collect(vec![AttributeDirective::full_attr("role", text("table"))]);
    let forwarded = collect(vec![AttributeDirective::full_attr("data-test-id", text("t1"))]);
    let merged = merge(&local, Some(&forwarded));
    assert_eq!(merged.attribute("role").map(|s| s.as_str()), Some("table"));
    assert_eq!(merged.attribute("data-test-id").map(|s| s.as_str()), Some("t1"));
    assert!(merged.attribute("class").is_none());
}

#[test]
fn class_attribute_lives_in_the_classes_only() {
    let local = collect(vec![AttributeDirective::full_attr("class", text("wrapper"))]);
    let merged = merge(&local, None);
    assert!(merged.attribute("class").is_none());
    assert_eq!(merged.attributes.len(), 0);
    assert!(merged.has_class("wrapper"));
}

#[test]
fn classes_do_not_depend_on_signals_or_depths() {
    let plain = collect(vec![
        AttributeDirective::full_attr("class", text("bar baz")),
        AttributeDirective::class_toggle("foo", flag(true)),
    ]);
    let reactive = collect(vec![
        AttributeDirective::class_toggle("foo", ValueSource::Reactive { signal: 3, current: true })
            .at_depth(5),
        AttributeDirective::class_toggle("gone", ValueSource::Reactive { signal: 4, current: false }),
        AttributeDirective::full_attr("id", text("other")),
        AttributeDirective::full_attr(
            "class",
            ValueSource::Reactive { signal: 9, current: "bar baz".to_string() },
        ),
    ]);
    let forwarded = collect(vec![AttributeDirective::class_toggle("qux", flag(true))]);
    let first = merge(&plain, Some(&forwarded));
    let second = merge(&reactive, Some(&forwarded));
    assert_eq!(first.classes, second.classes);
    assert_eq!(first.class_string(), "bar baz foo qux");
}

#[test]
fn inactive_toggle_contributes_nothing() {
    let local = collect(vec![
        AttributeDirective::class_toggle("on", flag(true)),
        AttributeDirective::class_toggle("off", flag(false)),
    ]);
    let merged = merge(&local, None);
    assert_eq!(merged.class_string(), "on");
    assert!(!merged.has_class("off"));
}

#[test]
fn repeated_classes_appear_once_at_their_first_place() {
    let local = collect(vec![
        AttributeDirective::full_attr("class", text("a b a")),
        AttributeDirective::class_toggle("b", flag(true)),
        AttributeDirective::class_toggle("c", flag(true)),
    ]);
    let forwarded = collect(vec![
        AttributeDirective::class_toggle("c", flag(true)),
        AttributeDirective::class_toggle("a", flag(true)),
        AttributeDirective::class_toggle("d", flag(true)),
    ]);
    let merged = merge(&local, Some(&forwarded));
    assert_eq!(merged.class_string(), "a b c d");
}

#[test]
fn static_class_comes_first_wherever_it_is_declared() {
    let local = collect(vec![
        AttributeDirective::class_toggle("foo", flag(true)),
        AttributeDirective::full_attr("class", text("bar baz")),
    ]);
    assert_eq!(merge(&local, None).class_string(), "bar baz foo");
}

#[test]
fn forwarded_toggles_stay_beside_a_forwarded_literal() {
    let local = collect(vec![AttributeDirective::class_toggle("mine", flag(true))]);
    let forwarded = collect(vec![
        AttributeDirective::class_toggle("extra", flag(true)),
        AttributeDirective::full_attr("class", text("base")),
    ]);
    assert_eq!(merge(&local, Some(&forwarded)).class_string(), "base extra");
}

#[test]
fn later_literal_of_one_bundle_wins() {
    let local = collect(vec![
        AttributeDirective::full_attr("title", text("first")),
        AttributeDirective::full_attr("title", text("second")),
    ]);
    let merged = merge(&local, None);
    assert_eq!(merged.attribute("title").map(|s| s.as_str()), Some("second"));
    assert_eq!(merged.attributes.len(), 1);
}

#[test]
fn style_properties_of_different_names_coexist() {
    let local = collect(vec![AttributeDirective::style_prop("padding", text("1rem"))]);
    let forwarded = collect(vec![AttributeDirective::style_prop("border", text("2px solid blue"))]);
    let merged = merge(&local, Some(&forwarded));
    assert_eq!(merged.style("padding").map(|s| s.as_str()), Some("1rem"));
    assert_eq!(merged.style("border").map(|s| s.as_str()), Some("2px solid blue"));
    assert_eq!(merged.styles.len(), 2);
}

#[test]
fn forwarded_style_property_overrides_local_one() {
    let local = collect(vec![
        AttributeDirective::style_prop("color", text("red")),
        AttributeDirective::style_prop("width", text("50px")),
    ]);
    let forwarded = collect(vec![AttributeDirective::style_prop("color", text("blue"))]);
    let merged = merge(&local, Some(&forwarded));
    assert_eq!(merged.style("color").map(|s| s.as_str()), Some("blue"));
    assert_eq!(merged.style("width").map(|s| s.as_str()), Some("50px"));
    assert_eq!(merged.styles.len(), 2);
}

#[test]
fn forwarded_full_style_sets_local_properties_aside() {
    let local = collect(vec![
        AttributeDirective::style_prop("color", text("red")),
        AttributeDirective::full_attr("style", text("margin: 0")),
    ]);
    let forwarded = collect(vec![
        AttributeDirective::full_attr("style", text("padding: 4px 0")),
        AttributeDirective::style_prop("overflow", text("auto")),
    ]);
    let merged = merge(&local, Some(&forwarded));
    assert_eq!(merged.attribute("style").map(|s| s.as_str()), Some("padding: 4px 0"));
    assert!(merged.style("color").is_none());
    assert_eq!(merged.style("overflow").map(|s| s.as_str()), Some("auto"));
    assert_eq!(merged.styles.len(), 1);
}

#[test]
fn local_full_style_keeps_local_properties() {
    let local = collect(vec![
        AttributeDirective::style_prop("color", text("red")),
        AttributeDirective::full_attr("style", text("margin: 0")),
    ]);
    let merged = merge(&local, None);
    assert_eq!(merged.attribute("style").map(|s| s.as_str()), Some("margin: 0"));
    assert_eq!(merged.style("color").map(|s| s.as_str()), Some("red"));
}

#[test]
fn forwarded_handler_replaces_local_one_for_the_same_event() {
    let local = collect(vec![
        AttributeDirective::event_handler("click", Callback { id: 1 }),
        AttributeDirective::event_handler("focus", Callback { id: 2 }),
    ]);
    let forwarded = collect(vec![AttributeDirective::event_handler("click", Callback { id: 3 })]);
    let merged = merge(&local, Some(&forwarded));
    assert_eq!(merged.handler("click"), Some(Callback { id: 3 }));
    assert_eq!(merged.handler("focus"), Some(Callback { id: 2 }));
    assert_eq!(merged.handler("blur"), None);
    assert_eq!(merged.handlers.len(), 2);
}

#[test]
fn spread_acts_as_if_declared_in_place() {
    let inner = collect(vec![
        AttributeDirective::class_toggle("two", flag(true)),
        AttributeDirective::full_attr("role", text("grid")),
    ]);
    let with_spread = collect(vec![
        AttributeDirective::class_toggle("one", flag(true)),
        AttributeDirective::spread(inner),
        AttributeDirective::class_toggle("three", flag(true)),
    ]);
    let written_out = collect(vec![
        AttributeDirective::class_toggle("one", flag(true)),
        AttributeDirective::class_toggle("two", flag(true)),
        AttributeDirective::full_attr("role", text("grid")),
        AttributeDirective::class_toggle("three", flag(true)),
    ]);
    let a = merge(&with_spread, None);
    let b = merge(&written_out, None);
    assert_eq!(a.class_string(), "one two three");
    assert_eq!(a.classes, b.classes);
    assert_eq!(a.attribute("role"), b.attribute("role"));
}

#[test]
fn flatten_opens_spreads_and_class_lists_in_order() {
    let inner = collect(vec![
        AttributeDirective::class_list_toggle(
            vec!["x".to_string(), "y".to_string()],
            ValueSource::Reactive { signal: 11, current: true },
        )
        .at_depth(9),
        AttributeDirective::event_handler("click", Callback { id: 5 }).at_depth(9),
    ]);
    let bundle = collect(vec![
        AttributeDirective::full_attr("id", text("n")).at_depth(1),
        AttributeDirective::spread(inner).at_depth(2),
    ]);
    let flat = flatten(&bundle);
    assert_eq!(flat.len(), 4);
    match &flat[0] {
        Resolved::Attr { name, value, signal, depth } => {
            assert_eq!(name, "id");
            assert_eq!(value, "n");
            assert_eq!(*signal, None);
            assert_eq!(*depth, 1);
        }
        other => panic!("unexpected entry {:?}", other),
    }
    match &flat[1] {
        Resolved::Class { name, active, signal, depth } => {
            assert_eq!(name, "x");
            assert!(*active);
            assert_eq!(*signal, Some(11));
            assert_eq!(*depth, 2);
        }
        other => panic!("unexpected entry {:?}", other),
    }
    match &flat[2] {
        Resolved::Class { name, depth, .. } => {
            assert_eq!(name, "y");
            assert_eq!(*depth, 2);
        }
        other => panic!("unexpected entry {:?}", other),
    }
    match &flat[3] {
        Resolved::Handler { event, callback, depth } => {
            assert_eq!(event, "click");
            assert_eq!(*callback, Callback { id: 5 });
            assert_eq!(*depth, 2);
        }
        other => panic!("unexpected entry {:?}", other),
    }
}

#[test]
fn merge_entries_agrees_with_merge() {
    let local = collect(vec![AttributeDirective::full_attr("class", text("bar baz"))]);
    let forwarded = collect(vec![AttributeDirective::class_toggle("foo", flag(true))]);
    let direct = merge(&local, Some(&forwarded));
    let stepwise = merge_entries(&flatten(&local), &flatten(&forwarded));
    assert_eq!(direct.classes, stepwise.classes);
    assert_eq!(stepwise.class_string(), "bar baz foo");
}

#[test]
fn find_attr_gives_the_last_value() {
    let bundle = collect(vec![
        AttributeDirective::full_attr("lang", text("en")),
        AttributeDirective::style_prop("lang", text("ignored")),
        AttributeDirective::full_attr("lang", text("de")),
        AttributeDirective::full_attr("dir", text("ltr")),
    ]);
    let flat = flatten(&bundle);
    assert_eq!(find_attr(&flat, &"lang".to_string()).map(|s| s.as_str()), Some("de"));
    assert_eq!(find_attr(&flat, &"dir".to_string()).map(|s| s.as_str()), Some("ltr"));
    assert_eq!(find_attr(&flat, &"id".to_string()), None);
}

#[test]
fn bundle_operations_keep_order() {
    let mut first = AttributeBundle::new();
    assert!(first.is_empty());
    assert_eq!(first.len(), 0);
    first.push(AttributeDirective::class_toggle("a", flag(true)));
    first.push(AttributeDirective::class_toggle("b", flag(true)));
    assert!(!first.is_empty());
    let second = collect(vec![AttributeDirective::class_toggle("c", flag(true))]);
    let both = first.concat(second);
    assert_eq!(both.len(), 3);
    assert_eq!(both.directives[0].name, "a");
    assert_eq!(both.directives[1].name, "b");
    assert_eq!(both.directives[2].name, "c");
    assert_eq!(merge(&both, None).class_string(), "a b c");
}

#[test]
fn value_source_reports_value_and_signal() {
    let fixed = ValueSource::fixed(true);
    assert_eq!(*fixed.current(), true);
    assert_eq!(fixed.signal(), None);
    let live = ValueSource::reactive(42, "now".to_string());
    assert_eq!(live.current(), "now");
    assert_eq!(live.signal(), Some(42));
}

#[test]
fn resolved_entry_copies_equal() {
    let bundle = collect(vec![
        AttributeDirective::full_attr("id", ValueSource::Reactive { signal: 2, current: "n".to_string() })
            .at_depth(4),
        AttributeDirective::class_toggle("c", flag(true)),
    ]);
    let flat = flatten(&bundle);
    for entry in &flat {
        assert_eq!(format!("{:?}", entry.duplicate()), format!("{:?}", entry));
    }
    match flat[0].duplicate() {
        Resolved::Attr { name, value, signal, depth } => {
            assert_eq!(name, "id");
            assert_eq!(value, "n");
            assert_eq!(signal, Some(2));
            assert_eq!(depth, 4);
        }
        other => panic!("unexpected entry {:?}", other),
    }
}
