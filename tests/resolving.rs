use galadriel::alchemist::Alchemist;
use galadriel::classinator::classinator;
use galadriel::codelyzer::{Codelyzer, Declaration, StyleValue};
use galadriel::registry::{Bucket, StyleRegistry};
use galadriel::trailblazer::Trailblazer;

fn middle(x: usize, s: &str) -> String {
    if s.len() >= x {
        let start = s.len() / 2 - x / 2;
        s[start..start + x].to_string()
    } else {
        s.to_string()
    }
}

fn plain_name(property: &str, value: &str) -> String {
    format!("galadriel_{}", middle(6, &classinator(&format!("{}:{}", property, value))))
}

fn leaf_decl(id: &str, key: &str, value: &str) -> Declaration {
    Declaration {
        identifier: id.to_string(),
        properties: vec![(key.to_string(), StyleValue::Leaf(value.to_string()))],
        children: vec![],
    }
}

fn fragments(reg: &StyleRegistry, b: Bucket, key: &str) -> Vec<String> {
    reg.rules(b).iter().find(|e| e.0 == key).map(|e| e.1.clone()).unwrap_or_default()
}

fn name_at(reg: &StyleRegistry, path: [&str; 4]) -> Option<String> {
    let l1 = &reg.names().iter().find(|e| e.0 == path[0])?.1;
    let l2 = &l1.iter().find(|e| e.0 == path[1])?.1;
    let l3 = &l2.iter().find(|e| e.0 == path[2])?.1;
    l3.iter().find(|e| e.0 == path[3]).map(|e| e.1.clone())
}

#[test]
fn plain_property_gives_one_rule_and_name() {
    let mut reg = StyleRegistry::new();
    Alchemist::new(false).process_objects("/src/a.js", &vec![leaf_decl("button", "color", "red")], &mut reg);
    let n = plain_name("color", "red");
    assert_eq!(n, "galadriel_3mipLR");
    assert_eq!(fragments(&reg, Bucket::Properties, "color"), vec![format!(".{}{{color:red}}", n)]);
    assert_eq!(name_at(&reg, ["button", "color", "red", "name"]), Some(n));
    assert_eq!(name_at(&reg, ["button", "targetChildren", "cls", "name"]), Some("children_button".to_string()));
}

#[test]
fn same_pair_twice_is_stored_once() {
    let mut reg = StyleRegistry::new();
    let alc = Alchemist::new(false);
    let decls = vec![leaf_decl("button", "color", "red")];
    alc.process_objects("/src/a.js", &decls, &mut reg);
    alc.process_objects("/src/a.js", &decls, &mut reg);
    assert_eq!(fragments(&reg, Bucket::Properties, "color").len(), 1);
}

#[test]
fn ternary_value_gives_two_rules_and_two_names() {
    let mut reg = StyleRegistry::new();
    let decl = leaf_decl("button", "color", "${cond ? 'red' : 'blue'}");
    Alchemist::new(false).process_objects("/src/a.js", &vec![decl], &mut reg);
    let red = plain_name("color", "red");
    let blue = plain_name("color", "blue");
    assert_eq!(
        fragments(&reg, Bucket::Properties, "color"),
        vec![format!(".{}{{color:red}}", red), format!(".{}{{color:blue}}", blue)]
    );
    assert_eq!(name_at(&reg, ["button", "color", "red", "name"]), Some(red));
    assert_eq!(name_at(&reg, ["button", "color", "blue", "name"]), Some(blue));
    let color_names = &reg.names()[0].1.iter().find(|e| e.0 == "color").unwrap().1;
    assert_eq!(color_names.len(), 2);
}

#[test]
fn modular_names_carry_the_path() {
    let mut reg = StyleRegistry::new();
    Alchemist::new(true).process_objects("/src/a.js", &vec![leaf_decl("button", "color", "red")], &mut reg);
    let expected = format!("{}{}", plain_name("color", "red"), middle(4, &classinator("/src/a.js")));
    assert_eq!(name_at(&reg, ["button", "color", "red", "name"]), Some(expected));
}

#[test]
fn pseudo_selector_block() {
    let mut reg = StyleRegistry::new();
    let decl = Declaration {
        identifier: "button".to_string(),
        properties: vec![(
            "hover".to_string(),
            StyleValue::Nested(vec![("color".to_string(), "blue".to_string())]),
        )],
        children: vec![],
    };
    Alchemist::new(false).process_objects("/src/a.js", &vec![decl], &mut reg);
    let n = format!("{}{}", plain_name("color", "blue"), middle(4, &classinator(":hover")));
    assert_eq!(fragments(&reg, Bucket::PseudoSelectors, "hover"), vec![format!(".{}:hover{{color:blue}}", n)]);
    assert_eq!(name_at(&reg, ["button", "hover", "color", "blue"]), Some(n));
}

#[test]
fn breakpoint_block_and_stylesheet() {
    let mut reg = StyleRegistry::new();
    let decl = Declaration {
        identifier: "card".to_string(),
        properties: vec![(
            "minSmallPhone".to_string(),
            StyleValue::Nested(vec![("width".to_string(), "100%".to_string())]),
        )],
        children: vec![],
    };
    Alchemist::new(false).process_objects("/src/a.js", &vec![decl], &mut reg);
    let n = format!("{}{}", plain_name("width", "100%"), middle(4, &classinator("min-width: 320px")));
    let frag = format!(".{}{{width:100%}}", n);
    assert_eq!(fragments(&reg, Bucket::MediaQueries, "minSmallPhone"), vec![frag.clone()]);
    let css = Trailblazer::new().generates_css(&reg);
    assert_eq!(css, format!("@media only screen and (min-width: 320px){{{}}}", frag));
}

#[test]
fn unknown_block_key_is_dropped() {
    let mut reg = StyleRegistry::new();
    let decl = Declaration {
        identifier: "card".to_string(),
        properties: vec![("nonsense".to_string(), StyleValue::Nested(vec![("a".to_string(), "b".to_string())]))],
        children: vec![],
    };
    Alchemist::new(false).process_objects("/src/a.js", &vec![decl], &mut reg);
    assert!(reg.rules(Bucket::PseudoSelectors).is_empty());
    assert!(reg.rules(Bucket::MediaQueries).is_empty());
    assert!(reg.rules(Bucket::Properties).is_empty());
}

#[test]
fn children_handlers_from_source() {
    let code = "const c = createStyles(() => ({ identifier: \"card\", targetChildren: () => ({ \"nextSibling(hover, ['div', 'p'])\": { color: \"red\" }, \"typeOf(input, ['text'])\": { margin: \"0\" }, \"nthChild(li, ['2'])\": { color: \"blue\" }, span: { color: \"green\" } }) }));";
    let scan = Codelyzer::new(code.to_string()).parser_code();
    assert_eq!(scan.declarations.len(), 1);
    let mut reg = StyleRegistry::new();
    Alchemist::new(false).process_objects("/src/a.js", &scan.declarations, &mut reg);
    assert_eq!(
        fragments(&reg, Bucket::TargetChildren, "children"),
        vec![
            ".children_carddiv + p:hover{color:red}".to_string(),
            ".children_cardinput[type='text'] {margin:0}".to_string(),
            ".children_cardli:nth-child(2){color:blue}".to_string(),
            ".children_cardspan{color:green}".to_string(),
        ]
    );
}

#[test]
fn children_handler_under_breakpoint() {
    let decl = Declaration {
        identifier: "card".to_string(),
        properties: vec![],
        children: vec![(
            "directChildren(['ul'], minSmallPhone)".to_string(),
            StyleValue::Nested(vec![("color".to_string(), "red".to_string())]),
        )],
    };
    let mut reg = StyleRegistry::new();
    Alchemist::new(false).process_objects("/src/a.js", &vec![decl], &mut reg);
    assert_eq!(fragments(&reg, Bucket::MediaQueries, "minSmallPhone"), vec![".children_cardul{color:red}".to_string()]);
}

#[test]
fn handler_without_tag_is_skipped() {
    let decl = Declaration {
        identifier: "card".to_string(),
        properties: vec![],
        children: vec![(
            "attrStartsWith(div, ['href'])".to_string(),
            StyleValue::Nested(vec![("color".to_string(), "red".to_string())]),
        )],
    };
    let mut reg = StyleRegistry::new();
    Alchemist::new(false).process_objects("/src/a.js", &vec![decl], &mut reg);
    assert!(reg.rules(Bucket::TargetChildren).is_empty());
}

#[test]
fn attribute_handler() {
    let decl = Declaration {
        identifier: "card".to_string(),
        properties: vec![],
        children: vec![(
            "attrStartsWith(a, ['href', 'https'])".to_string(),
            StyleValue::Nested(vec![("color".to_string(), "red".to_string())]),
        )],
    };
    let mut reg = StyleRegistry::new();
    Alchemist::new(false).process_objects("/src/a.js", &vec![decl], &mut reg);
    assert_eq!(
        fragments(&reg, Bucket::TargetChildren, "children"),
        vec![".children_carda[href^='https'] {color:red}".to_string()]
    );
}

#[test]
fn unresolved_children_are_reported() {
    let decl = Declaration {
        identifier: "card".to_string(),
        properties: vec![],
        children: vec![
            (
                "attrStartsWith(div, ['href'])".to_string(),
                StyleValue::Nested(vec![("color".to_string(), "red".to_string())]),
            ),
            ("span".to_string(), StyleValue::Nested(vec![("color".to_string(), "red".to_string())])),
        ],
    };
    let r = Alchemist::new(false).unresolved_children(&vec![decl]);
    assert_eq!(r, vec![("card".to_string(), "attrStartsWith(div, ['href'])".to_string())]);
}
