use galadriel::classinator::classinator;
use galadriel::pathify::pathify;
use std::collections::HashSet;

#[test]
fn classinator_known_values() {
    assert_eq!(classinator(""), "f");
    assert_eq!(classinator("a"), "yKRl");
    assert_eq!(classinator("color:red"), "jY3mipLRlKC");
    assert_eq!(classinator("hello world"), "nm0la2dbTME");
}

#[test]
fn classinator_is_deterministic() {
    for s in ["", "x", "color:red", "padding:4px", "ünïcödé"] {
        assert_eq!(classinator(s), classinator(s));
    }
}

#[test]
fn classinator_names_are_alphanumeric() {
    for s in ["", "x", "margin:0 auto", "/src/app.tsx"] {
        let n = classinator(s);
        assert!(!n.is_empty());
        assert!(n.chars().all(|c| c.is_ascii_alphanumeric()));
    }
}

#[test]
fn classinator_no_collisions_in_sample() {
    let mut seen = HashSet::new();
    for i in 0..10_000u32 {
        let s = format!("property{}:value{}", i % 97, i);
        assert!(seen.insert(classinator(&s)), "collision for {}", s);
    }
    assert_eq!(seen.len(), 10_000);
}

#[test]
fn pathify_relative_same_directory() {
    assert_eq!(pathify(&"/a/b/c.js".to_string(), &"./d".to_string()), "a/b/d");
}

#[test]
fn pathify_relative_parent_directory() {
    assert_eq!(pathify(&"/a/b/c.js".to_string(), &"../d".to_string()), "a/d");
}

#[test]
fn pathify_alias() {
    assert_eq!(pathify(&"/a/b/c.js".to_string(), &"@/d".to_string()), "/d");
}

#[test]
fn pathify_bare_specifier_is_rooted() {
    assert_eq!(pathify(&"/a/b/c.js".to_string(), &"lib/x".to_string()), "/lib/x");
}

#[test]
fn pathify_absolute_is_kept() {
    assert_eq!(pathify(&"/a/b/c.js".to_string(), &"/abs/x".to_string()), "/abs/x");
}

#[test]
fn pathify_dot_relative_containing_path() {
    assert_eq!(pathify(&"./src/app.js".to_string(), &"./d".to_string()), "./src/d");
}

#[test]
fn pathify_walks_up_past_root() {
    assert_eq!(pathify(&"/a/c.js".to_string(), &"../../d".to_string()), "d");
}

#[test]
fn pathify_no_directory_kept() {
    assert_eq!(pathify(&"/a.js".to_string(), &"./d".to_string()), "d");
}

#[test]
fn pathify_dot_then_parent_walks_up() {
    assert_eq!(pathify(&"a/b".to_string(), &"./../d".to_string()), "d");
    assert_eq!(pathify(&"/a/b/c.js".to_string(), &"./../d".to_string()), "a/d");
}

#[test]
fn classinator_empty_is_one_symbol() {
    let n = classinator("");
    assert_eq!(n.chars().count(), 1);
    assert!(n.chars().all(|c| c.is_ascii_alphanumeric()));
}
