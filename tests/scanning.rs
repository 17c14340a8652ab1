use galadriel::codelyzer::{Codelyzer, StyleValue};
use galadriel::intaker::Intaker;

#[test]
fn imports_are_collected_in_order() {
    let code = "import x from './a';\nconst y = require(\"../b/c\");\nimport z from '@/d/e';\n";
    let r = Intaker::new().process_code(code.to_string());
    assert_eq!(r, vec!["./a".to_string(), "../b/c".to_string(), "@/d/e".to_string()]);
}

#[test]
fn non_path_specifiers_are_skipped() {
    let code = "import React from 'react';\nimport x from './x';";
    let r = Intaker::new().process_code(code.to_string());
    assert_eq!(r, vec!["./x".to_string()]);
}

#[test]
fn duplicates_are_kept() {
    let code = "import a from './a'; import b from './a';";
    let r = Intaker::new().process_code(code.to_string());
    assert_eq!(r, vec!["./a".to_string(), "./a".to_string()]);
}

#[test]
fn unrecognised_characters_do_not_stop_the_scan() {
    let code = "#!~ ¿ import a from './a'";
    let r = Intaker::new().process_code(code.to_string());
    assert_eq!(r, vec!["./a".to_string()]);
}

#[test]
fn empty_source_has_no_imports() {
    assert!(Intaker::new().process_code(String::new()).is_empty());
}

const TWO_CALLS: &str = "const a = createStyles(() => ({ identifier: \"button\", color: \"red\", hover: { color: \"blue\" } }));\nconst b = createStyles(() => ({ identifier: \"card\", padding: \"4px\", targetChildren: () => ({ div: { color: \"red\" } }) }));\n";

#[test]
fn two_calls_give_two_declarations() {
    let scan = Codelyzer::new(TWO_CALLS.to_string()).parser_code();
    assert_eq!(scan.declarations.len(), 2);
    assert_eq!(scan.missing_identifier, 0);

    let a = &scan.declarations[0];
    assert_eq!(a.identifier, "button");
    assert_eq!(a.properties.len(), 2);
    assert_eq!(a.properties[0].0, "color");
    assert!(matches!(&a.properties[0].1, StyleValue::Leaf(v) if v == "red"));
    assert_eq!(a.properties[1].0, "hover");
    match &a.properties[1].1 {
        StyleValue::Nested(v) => assert_eq!(v, &vec![("color".to_string(), "blue".to_string())]),
        StyleValue::Leaf(_) => panic!("hover should be a block"),
    }
    assert!(a.children.is_empty());

    let b = &scan.declarations[1];
    assert_eq!(b.identifier, "card");
    assert_eq!(b.properties.len(), 1);
    assert_eq!(b.properties[0].0, "padding");
    assert!(matches!(&b.properties[0].1, StyleValue::Leaf(v) if v == "4px"));
    assert_eq!(b.children.len(), 1);
    assert_eq!(b.children[0].0, "div");
    match &b.children[0].1 {
        StyleValue::Nested(v) => assert_eq!(v, &vec![("color".to_string(), "red".to_string())]),
        StyleValue::Leaf(_) => panic!("div should be a block"),
    }
}

#[test]
fn call_without_identifier_is_dropped() {
    let code = "const a = createStyles(() => ({ color: \"red\" }));";
    let scan = Codelyzer::new(code.to_string()).parser_code();
    assert_eq!(scan.declarations.len(), 0);
    assert_eq!(scan.missing_identifier, 1);
}

#[test]
fn later_call_with_same_identifier_replaces_earlier() {
    let code = "x = createStyles(() => ({ identifier: \"a\", color: \"red\" }));\ny = createStyles(() => ({ identifier: \"a\", color: \"blue\" }));";
    let scan = Codelyzer::new(code.to_string()).parser_code();
    assert_eq!(scan.declarations.len(), 1);
    assert!(matches!(&scan.declarations[0].properties[0].1, StyleValue::Leaf(v) if v == "blue"));
}

#[test]
fn text_without_calls_gives_nothing() {
    let scan = Codelyzer::new("function f() { return 1; }".to_string()).parser_code();
    assert!(scan.declarations.is_empty());
    assert_eq!(scan.missing_identifier, 0);
}

#[test]
fn call_at_start_of_text_is_found() {
    let code = "createStyles(() => ({ identifier: \"top\", color: \"red\" }))";
    let scan = Codelyzer::new(code.to_string()).parser_code();
    assert_eq!(scan.declarations.len(), 1);
    assert_eq!(scan.declarations[0].identifier, "top");
}

#[test]
fn marker_inside_a_word_is_not_a_call() {
    let code = "xcreateStyles(() => ({ identifier: \"no\" }))";
    let scan = Codelyzer::new(code.to_string()).parser_code();
    assert!(scan.declarations.is_empty());
}
