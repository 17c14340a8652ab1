use galadriel::blueprint::{Blueprint, Level};
use galadriel::gatekeeper::Gatekeeper;
use galadriel::registry::{Bucket, StyleRegistry};
use galadriel::trailblazer::Trailblazer;

#[test]
fn grouping_follows_imports() {
    let mut g = Gatekeeper::new();
    g.add_import("A", "B");
    g.add_import("B", "C");
    g.add_import("D", "E");
    let eligible = vec!["A".to_string(), "B".to_string(), "C".to_string(), "D".to_string()];
    let mut groups = g.group_paths(&eligible);
    assert_eq!(groups.len(), 2);
    groups[0].sort();
    assert_eq!(groups[0], vec!["A".to_string(), "B".to_string(), "C".to_string()]);
    assert_eq!(groups[1], vec!["D".to_string()]);
}

#[test]
fn empty_graph_has_no_groups() {
    let g = Gatekeeper::new();
    assert!(g.group_paths(&vec!["A".to_string()]).is_empty());
}

#[test]
fn groups_without_eligible_files_are_dropped() {
    let mut g = Gatekeeper::new();
    g.add_import("A", "B");
    g.add_import("X", "Y");
    let groups = g.group_paths(&vec!["Y".to_string()]);
    assert_eq!(groups, vec![vec!["Y".to_string()]]);
}

#[test]
fn appends_from_many_writers_are_all_kept() {
    let mut reg = StyleRegistry::new();
    let writers = 8;
    let per_writer = 25;
    for round in 0..per_writer {
        for w in 0..writers {
            reg.append(Bucket::Properties, "color".to_string(), format!(".w{}_{}", w, round));
        }
    }
    for w in 0..writers {
        reg.append(Bucket::Properties, "color".to_string(), format!(".w{}_0", w));
    }
    let list = &reg.rules(Bucket::Properties)[0].1;
    assert_eq!(list.len(), writers * per_writer);
}

#[test]
fn clearing_rules_keeps_keys_and_names() {
    let mut reg = StyleRegistry::new();
    reg.append(Bucket::Properties, "color".to_string(), ".a{color:red}".to_string());
    reg.record("id".to_string(), "color".to_string(), "red".to_string(), "name".to_string(), "a".to_string());
    let t = Trailblazer::new();
    t.clear_stylitron(&mut reg);
    assert_eq!(reg.rules(Bucket::Properties).len(), 1);
    assert!(reg.rules(Bucket::Properties)[0].1.is_empty());
    assert_eq!(reg.names().len(), 1);
    t.clear_stylometric(&mut reg);
    assert!(reg.names().is_empty());
}

#[test]
fn format_path_outputs() {
    let t = Trailblazer::new();
    assert_eq!(
        t.format_path("./src/app.js"),
        Ok((".galadriel/src/app.css".to_string(), ".galadriel/src/app.html".to_string()))
    );
    assert_eq!(
        t.format_path("@/components/button.tsx"),
        Ok((".galadriel/components/button.css".to_string(), ".galadriel/components/button.html".to_string()))
    );
}

#[test]
fn config_tag() {
    let t = Trailblazer::new();
    let groups = vec![vec!["a".to_string(), "b".to_string()], vec!["c".to_string()]];
    assert_eq!(
        t.generates_config(&groups),
        "<script id=\"galadriel-config\" type=\"application/json\">[[\"a\", \"b\"], [\"c\"]]</script>"
    );
}

#[test]
fn names_script() {
    let mut reg = StyleRegistry::new();
    reg.record("btn".to_string(), "color".to_string(), "red".to_string(), "name".to_string(), "g1".to_string());
    reg.record("btn".to_string(), "color".to_string(), "blue".to_string(), "name".to_string(), "g2".to_string());
    let t = Trailblazer::new();
    assert_eq!(
        t.generates_cls_name(&reg),
        "<script id=\"btn\" type=\"application/json\">{\"color\": {\"red\": {\"name\": \"g1\"}, \"blue\": {\"name\": \"g2\"}}}</script>"
    );
}

#[test]
fn stylesheet_order() {
    let mut reg = StyleRegistry::new();
    reg.append(Bucket::MediaQueries, "max4K".to_string(), ".m{a:b}".to_string());
    reg.append(Bucket::TargetChildren, "children".to_string(), ".c{a:b}".to_string());
    reg.append(Bucket::PseudoSelectors, "hover".to_string(), ".p:hover{a:b}".to_string());
    reg.append(Bucket::Properties, "a".to_string(), ".x{a:b}".to_string());
    reg.append(Bucket::MediaQueries, "unknownScreen".to_string(), ".u{a:b}".to_string());
    let css = Trailblazer::new().generates_css(&reg);
    assert_eq!(css, ".x{a:b}.p:hover{a:b}.c{a:b}@media only screen and (max-width: 2559px){.m{a:b}}");
}

#[test]
fn blueprint_formats() {
    let b = Blueprint::new();
    assert_eq!(b.bold("hi".to_string()), "\x1b[1mhi\x1b[0m");
    assert_eq!(
        b.line(Level::Warning, "[01:02:03]", "careful"),
        " \x1b[1;38;5;11m•\x1b[0m [01:02:03] \x1b[0;33mwarning\x1b[0m careful"
    );
}

#[test]
fn names_script_escapes_json() {
    let mut reg = StyleRegistry::new();
    reg.record("q".to_string(), "a\"b".to_string(), "x\\y".to_string(), "t\tn\n".to_string(), "\u{1}".to_string());
    let t = Trailblazer::new();
    assert_eq!(
        t.generates_cls_name(&reg),
        "<script id=\"q\" type=\"application/json\">{\"a\\\"b\": {\"x\\\\y\": {\"t\\tn\\n\": \"\\u0001\"}}}</script>"
    );
}
