use attr_engine::table::Table;
use attr_engine::text::{has_token, is_separator, join_tokens, push_distinct, split_tokens};

fn strings(items: &[&str]) -> Vec<String> {
    items.iter().map(|s| s.to_string()).collect()
}

#[test]
fn split_on_single_spaces() {
    assert_eq!(split_tokens("bar baz"), strings(&["bar", "baz"]));
}

#[test]
fn split_ignores_extra_whitespace() {
    assert_eq!(split_tokens("  a\t\tb \n c\r\x0c"), strings(&["a", "b", "c"]));
    assert_eq!(split_tokens("one"), strings(&["one"]));
    assert_eq!(split_tokens(" lead"), strings(&["lead"]));
    assert_eq!(split_tokens("trail "), strings(&["trail"]));
}

#[test]
fn split_of_nothing_is_nothing() {
    assert_eq!(split_tokens(""), Vec::<String>::new());
    assert_eq!(split_tokens(" \t\n"), Vec::<String>::new());
}

#[test]
fn split_keeps_repetitions_and_other_scripts() {
    assert_eq!(split_tokens("a a b"), strings(&["a", "a", "b"]));
    assert_eq!(split_tokens("gr\u{fc}n \u{4e2d}\u{6587}"), strings(&["gr\u{fc}n", "\u{4e2d}\u{6587}"]));
    assert_eq!(split_tokens("a\u{a0}b"), strings(&["a\u{a0}b"]));
}

#[test]
fn separators_are_ascii_whitespace() {
    for c in [' ', '\t', '\n', '\r', '\x0c'] {
        assert!(is_separator(c));
    }
    for c in ['a', '-', '_', '\u{a0}', '\x0b', '0'] {
        assert!(!is_separator(c));
    }
}

#[test]
fn join_puts_single_spaces_between() {
    assert_eq!(join_tokens(&strings(&["bar", "baz", "foo"])), "bar baz foo");
    assert_eq!(join_tokens(&strings(&["only"])), "only");
    assert_eq!(join_tokens(&Vec::new()), "");
}

#[test]
fn join_after_split_normalises() {
    assert_eq!(join_tokens(&split_tokens("  x   y ")), "x y");
}

#[test]
fn push_distinct_adds_only_new_tokens() {
    let mut list = strings(&["a", "b"]);
    assert!(!push_distinct(&mut list, &"a".to_string()));
    assert_eq!(list, strings(&["a", "b"]));
    assert!(push_distinct(&mut list, &"c".to_string()));
    assert_eq!(list, strings(&["a", "b", "c"]));
    assert!(has_token(&list, &"c".to_string()));
    assert!(!has_token(&list, &"d".to_string()));
    assert!(!has_token(&Vec::new(), &"a".to_string()));
}

#[test]
fn table_insert_replaces_in_place() {
    let table: Table<String> = Table::new();
    assert_eq!(table.len(), 0);
    let table = table.insert("a".to_string(), "1".to_string());
    let table = table.insert("b".to_string(), "2".to_string());
    let table = table.insert("a".to_string(), "3".to_string());
    assert_eq!(table.len(), 2);
    assert_eq!(table.get(&"a".to_string()).map(|s| s.as_str()), Some("3"));
    assert_eq!(table.get(&"b".to_string()).map(|s| s.as_str()), Some("2"));
    assert_eq!(table.get(&"c".to_string()), None);
    assert!(table.contains_key(&"b".to_string()));
    assert!(!table.contains_key(&"".to_string()));
    assert_eq!(table.name_at(0), "a");
    assert_eq!(table.value_at(0), "3");
    assert_eq!(table.name_at(1), "b");
    assert_eq!(table.value_at(1), "2");
}
