use attr_engine::boundary::SlotShape;
use attr_engine::bundle::{AttributeBundle, AttributeDirective, Callback, ValueSource};
use attr_engine::changes::{changes, Change};
use attr_engine::merge::merge;
use attr_engine::node::RenderNode;

fn fixed(value: &str) -> ValueSource<String> {
    ValueSource::Static(value.to_string())
}

fn live(signal: u64, value: &str) -> ValueSource<String> {
    ValueSource::Reactive { signal, current: value.to_string() }
}

fn stack(directives: Vec<AttributeDirective>) -> AttributeBundle {
    let mut bundle = AttributeBundle::new();
    for directive in directives {
        bundle.push(directive);
    }
    bundle
}

fn sorted(mut list: Vec<Change>) -> Vec<String> {
    let mut words: Vec<String> = list.drain(..).map(|c| format!("{:?}", c)).collect();
    words.sort();
    words
}

#[test]
fn equal_snapshots_need_no_update() {
    let bundle = stack(vec![
        AttributeDirective::full_attr("class", fixed("a b")),
        AttributeDirective::full_attr("id", fixed("x")),
        AttributeDirective::style_prop("color", fixed("red")),
        AttributeDirective::event_handler("click", Callback { id: 1 }),
    ]);
    let first = merge(&bundle, None);
    let second = merge(&bundle, None);
    assert_eq!(changes(&first, &second), Vec::new());
}

#[test]
fn toggled_condition_gives_one_class_update() {
    let local = stack(vec![
        AttributeDirective::full_attr("class", fixed("bar baz")),
        AttributeDirective::class_toggle("foo", ValueSource::Reactive { signal: 1, current: false }),
    ]);
    let mut node = RenderNode::new(SlotShape::Typed, &local);
    let before = node.effective();
    assert!(node.notify_flag(1, true));
    let shown = node.effective();
    assert_eq!(changes(&before, &shown), vec![Change::ClassAdded("foo".to_string())]);
    assert!(node.notify_flag(1, false));
    let hidden = node.effective();
    assert_eq!(changes(&shown, &hidden), vec![Change::ClassRemoved("foo".to_string())]);
    assert_eq!(changes(&before, &hidden), Vec::new());
}

#[test]
fn toggle_of_a_class_that_is_also_static_changes_nothing() {
    let local = stack(vec![
        AttributeDirective::full_attr("class", fixed("foo")),
        AttributeDirective::class_toggle("foo", ValueSource::Reactive { signal: 1, current: true }),
    ]);
    let mut node = RenderNode::new(SlotShape::Typed, &local);
    let before = node.effective();
    assert!(node.notify_flag(1, false));
    assert_eq!(changes(&before, &node.effective()), Vec::new());
}

#[test]
fn reported_text_gives_set_updates() {
    let local = stack(vec![
        AttributeDirective::full_attr("data-level", live(2, "0")),
        AttributeDirective::style_prop("width", live(2, "0")),
        AttributeDirective::style_prop("height", fixed("50px")),
    ]);
    let mut node = RenderNode::new(SlotShape::Typed, &local);
    let before = node.effective();
    assert!(node.notify_text(2, "7"));
    let after = node.effective();
    assert_eq!(
        changes(&before, &after),
        vec![
            Change::AttributeSet("data-level".to_string(), "7".to_string()),
            Change::StyleSet("width".to_string(), "7".to_string()),
        ]
    );
}

#[test]
fn reactive_class_literal_adds_and_removes_classes() {
    let local = stack(vec![AttributeDirective::full_attr("class", live(3, "a b"))]);
    let mut node = RenderNode::new(SlotShape::Typed, &local);
    let before = node.effective();
    assert!(node.notify_text(3, "b c"));
    let after = node.effective();
    assert_eq!(
        sorted(changes(&before, &after)),
        vec!["ClassAdded(\"c\")".to_string(), "ClassRemoved(\"a\")".to_string()]
    );
}

#[test]
fn arrival_of_a_bundle_shows_in_every_part() {
    let local = stack(vec![
        AttributeDirective::full_attr("class", fixed("own")),
        AttributeDirective::class_toggle("mine", ValueSource::Static(true)),
        AttributeDirective::full_attr("role", fixed("table")),
        AttributeDirective::full_attr("title", fixed("t")),
        AttributeDirective::style_prop("color", fixed("red")),
        AttributeDirective::full_attr("style", fixed("margin: 0")),
        AttributeDirective::event_handler("click", Callback { id: 1 }),
        AttributeDirective::event_handler("focus", Callback { id: 2 }),
    ]);
    let mut node = RenderNode::new(SlotShape::Typed, &local);
    let before = node.effective();
    assert!(node.receive(stack(vec![
        AttributeDirective::full_attr("class", fixed("given")),
        AttributeDirective::full_attr("role", fixed("grid")),
        AttributeDirective::full_attr("style", fixed("padding: 0")),
        AttributeDirective::style_prop("border", fixed("none")),
        AttributeDirective::event_handler("click", Callback { id: 3 }),
        AttributeDirective::event_handler("blur", Callback { id: 4 }),
    ])));
    let after = node.effective();
    assert_eq!(
        sorted(changes(&before, &after)),
        vec![
            "AttributeSet(\"role\", \"grid\")".to_string(),
            "AttributeSet(\"style\", \"padding: 0\")".to_string(),
            "ClassAdded(\"given\")".to_string(),
            "ClassRemoved(\"mine\")".to_string(),
            "ClassRemoved(\"own\")".to_string(),
            "HandlerSet(\"blur\", Callback { id: 4 })".to_string(),
            "HandlerSet(\"click\", Callback { id: 3 })".to_string(),
            "StyleRemoved(\"color\")".to_string(),
            "StyleSet(\"border\", \"none\")".to_string(),
        ]
    );
    assert_eq!(
        sorted(changes(&after, &before)),
        vec![
            "AttributeSet(\"role\", \"table\")".to_string(),
            "AttributeSet(\"style\", \"margin: 0\")".to_string(),
            "ClassAdded(\"mine\")".to_string(),
            "ClassAdded(\"own\")".to_string(),
            "ClassRemoved(\"given\")".to_string(),
            "HandlerRemoved(\"blur\")".to_string(),
            "HandlerSet(\"click\", Callback { id: 1 })".to_string(),
            "StyleRemoved(\"border\")".to_string(),
            "StyleSet(\"color\", \"red\")".to_string(),
        ]
    );
}

#[test]
fn removed_attribute_is_reported() {
    let with = merge(&stack(vec![AttributeDirective::full_attr("id", fixed("x"))]), None);
    let without = merge(&AttributeBundle::new(), None);
    assert_eq!(changes(&with, &without), vec![Change::AttributeRemoved("id".to_string())]);
    assert_eq!(
        changes(&without, &with),
        vec![Change::AttributeSet("id".to_string(), "x".to_string())]
    );
}

#[test]
fn stale_report_after_teardown_gives_no_update() {
    let local = stack(vec![AttributeDirective::class_toggle(
        "foo",
        ValueSource::Reactive { signal: 1, current: true },
    )]);
    let mut node = RenderNode::new(SlotShape::Typed, &local);
    let before = node.effective();
    node.teardown();
    assert!(!node.notify_flag(1, false));
    assert_eq!(changes(&before, &node.effective()), Vec::new());
}

#[test]
fn report_hands_back_the_updates() {
    let local = stack(vec![
        AttributeDirective::full_attr("class", fixed("bar baz")),
        AttributeDirective::class_toggle("foo", ValueSource::Reactive { signal: 1, current: true }),
        AttributeDirective::style_prop("width", live(2, "1px")),
    ]);
    let mut node = RenderNode::new(SlotShape::Typed, &local);
    assert_eq!(node.report_flag(1, true), Vec::new());
    assert_eq!(node.report_flag(1, false), vec![Change::ClassRemoved("foo".to_string())]);
    assert_eq!(node.effective().class_string(), "bar baz");
    assert_eq!(
        node.report_text(2, "2px"),
        vec![Change::StyleSet("width".to_string(), "2px".to_string())]
    );
    assert_eq!(node.report_text(2, "2px"), Vec::new());
    node.teardown();
    assert_eq!(node.report_flag(1, true), Vec::new());
    assert_eq!(node.report_text(2, "9px"), Vec::new());
    assert_eq!(node.effective().style("width").map(|s| s.as_str()), Some("2px"));
}
