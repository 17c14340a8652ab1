//! Output assembly: the CSS text of the rule store, the script tags that carry
//! the generated names, the configuration tag of file groups, and the output
//! paths of a source file.
use vstd::prelude::*;
use crate::cores::{screen_lookup, screen_of};
use crate::handlers::{join_sep, join_sep_x};
use crate::registry::{
    level1_view, level2_view, names_view, rules_view, strings_view, Bucket, LeavesModel, Level1Model, Level2Model,
    NameLeaves, NameLevel1, NameLevel2, NameMap, RegistryModel, RuleList, StyleRegistry,
};
use crate::entries::pairs_view;
use crate::text::{chars_of, push_all, slice_chars, string_of};
use crate::pathify::{dot_slash, at_slash, remove_all, remove_all_exec};

verus! {

pub open spec fn lit_media_open() -> Seq<char> {
    seq!['@', 'm', 'e', 'd', 'i', 'a', ' ', 'o', 'n', 'l', 'y', ' ', 's', 'c', 'r', 'e', 'e', 'n', ' ', 'a', 'n', 'd', ' ', '(']
}

pub open spec fn lit_media_mid() -> Seq<char> {
    seq![')', '{']
}

pub open spec fn lit_script_open() -> Seq<char> {
    seq!['<', 's', 'c', 'r', 'i', 'p', 't', ' ', 'i', 'd', '=', '"']
}

pub open spec fn lit_script_mid() -> Seq<char> {
    seq!['"', ' ', 't', 'y', 'p', 'e', '=', '"', 'a', 'p', 'p', 'l', 'i', 'c', 'a', 't', 'i', 'o', 'n', '/', 'j', 's', 'o', 'n', '"', '>']
}

pub open spec fn lit_script_close() -> Seq<char> {
    seq!['<', '/', 's', 'c', 'r', 'i', 'p', 't', '>']
}

pub open spec fn lit_config_open() -> Seq<char> {
    seq!['<', 's', 'c', 'r', 'i', 'p', 't', ' ', 'i', 'd', '=', '"', 'g', 'a', 'l', 'a', 'd', 'r', 'i', 'e', 'l', '-', 'c', 'o', 'n', 'f', 'i', 'g', '"', ' ', 't', 'y', 'p', 'e', '=', '"', 'a', 'p', 'p', 'l', 'i', 'c', 'a', 't', 'i', 'o', 'n', '/', 'j', 's', 'o', 'n', '"', '>']
}

pub open spec fn lit_colon_space() -> Seq<char> {
    seq![':', ' ']
}

pub open spec fn lit_comma_space() -> Seq<char> {
    seq![',', ' ']
}

pub open spec fn lit_out_dir() -> Seq<char> {
    seq!['.', 'g', 'a', 'l', 'a', 'd', 'r', 'i', 'e', 'l', '/']
}

pub open spec fn lit_css_ext() -> Seq<char> {
    seq!['.', 'c', 's', 's']
}

pub open spec fn lit_html_ext() -> Seq<char> {
    seq!['.', 'h', 't', 'm', 'l']
}

fn lit_media_open_x() -> (r: Vec<char>)
    ensures
        r@ == lit_media_open(),
{
    let r = vec!['@', 'm', 'e', 'd', 'i', 'a', ' ', 'o', 'n', 'l', 'y', ' ', 's', 'c', 'r', 'e', 'e', 'n', ' ', 'a', 'n', 'd', ' ', '('];
    assert(r@ =~= lit_media_open());
    r
}

fn lit_media_mid_x() -> (r: Vec<char>)
    ensures
        r@ == lit_media_mid(),
{
    let r = vec![')', '{'];
    assert(r@ =~= lit_media_mid());
    r
}

fn lit_script_open_x() -> (r: Vec<char>)
    ensures
        r@ == lit_script_open(),
{
    let r = vec!['<', 's', 'c', 'r', 'i', 'p', 't', ' ', 'i', 'd', '=', '"'];
    assert(r@ =~= lit_script_open());
    r
}

fn lit_script_mid_x() -> (r: Vec<char>)
    ensures
        r@ == lit_script_mid(),
{
    let r = vec!['"', ' ', 't', 'y', 'p', 'e', '=', '"', 'a', 'p', 'p', 'l', 'i', 'c', 'a', 't', 'i', 'o', 'n', '/', 'j', 's', 'o', 'n', '"', '>'];
    assert(r@ =~= lit_script_mid());
    r
}

fn lit_script_close_x() -> (r: Vec<char>)
    ensures
        r@ == lit_script_close(),
{
    let r = vec!['<', '/', 's', 'c', 'r', 'i', 'p', 't', '>'];
    assert(r@ =~= lit_script_close());
    r
}

fn lit_config_open_x() -> (r: Vec<char>)
    ensures
        r@ == lit_config_open(),
{
    let r = vec!['<', 's', 'c', 'r', 'i', 'p', 't', ' ', 'i', 'd', '=', '"', 'g', 'a', 'l', 'a', 'd', 'r', 'i', 'e', 'l', '-', 'c', 'o', 'n', 'f', 'i', 'g', '"', ' ', 't', 'y', 'p', 'e', '=', '"', 'a', 'p', 'p', 'l', 'i', 'c', 'a', 't', 'i', 'o', 'n', '/', 'j', 's', 'o', 'n', '"', '>'];
    assert(r@ =~= lit_config_open());
    r
}

fn lit_colon_space_x() -> (r: Vec<char>)
    ensures
        r@ == lit_colon_space(),
{
    let r = vec![':', ' '];
    assert(r@ =~= lit_colon_space());
    r
}

fn lit_comma_space_x() -> (r: Vec<char>)
    ensures
        r@ == lit_comma_space(),
{
    let r = vec![',', ' '];
    assert(r@ =~= lit_comma_space());
    r
}

fn lit_out_dir_x() -> (r: Vec<char>)
    ensures
        r@ == lit_out_dir(),
{
    let r = vec!['.', 'g', 'a', 'l', 'a', 'd', 'r', 'i', 'e', 'l', '/'];
    assert(r@ =~= lit_out_dir());
    r
}

fn lit_css_ext_x() -> (r: Vec<char>)
    ensures
        r@ == lit_css_ext(),
{
    let r = vec!['.', 'c', 's', 's'];
    assert(r@ =~= lit_css_ext());
    r
}

fn lit_html_ext_x() -> (r: Vec<char>)
    ensures
        r@ == lit_html_ext(),
{
    let r = vec!['.', 'h', 't', 'm', 'l'];
    assert(r@ =~= lit_html_ext());
    r
}

/// A hexadecimal digit, lower case.
pub open spec fn hex_digit(n: u32) -> char {
    if n < 10 {
        ((48 + n) as u8) as char
    } else {
        ((87 + n) as u8) as char
    }
}

/// How JSON writes one character inside a string: quote and backslash are
/// escaped with a backslash, backspace, tab, line feed, form feed and carriage
/// return by their letter, other control characters below 0x20 as `\u00XX`;
/// every other character stands as it is.
pub open spec fn json_escape(c: char) -> Seq<char> {
    if c == '"' {
        seq!['\\', '"']
    } else if c == '\\' {
        seq!['\\', '\\']
    } else if c == '\u{8}' {
        seq!['\\', 'b']
    } else if c == '\t' {
        seq!['\\', 't']
    } else if c == '\n' {
        seq!['\\', 'n']
    } else if c == '\u{c}' {
        seq!['\\', 'f']
    } else if c == '\r' {
        seq!['\\', 'r']
    } else if (c as u32) < 0x20 {
        seq!['\\', 'u', '0', '0', hex_digit((c as u32) / 16), hex_digit((c as u32) % 16)]
    } else {
        seq![c]
    }
}

/// The escaped characters of a string.
pub open spec fn json_body(s: Seq<char>) -> Seq<char>
    decreases s.len(),
{
    if s.len() == 0 {
        seq![]
    } else {
        json_body(s.drop_last()) + json_escape(s.last())
    }
}

/// The JSON text of a string: quoted, with JSON's escapes.
pub open spec fn json_string(s: Seq<char>) -> Seq<char> {
    seq!['"'] + json_body(s) + seq!['"']
}

/// Relies on `serde_json::to_string` on a `str`: the JSON string literal of
/// the text, which serialising a string into memory always yields.
#[verifier::external_body]
fn json_quote(s: &str) -> (r: String)
    ensures
        r@ == json_string(s@),
{
    serde_json::to_string(s).unwrap_or_default()
}

fn json_quote_x(s: &String) -> (r: Vec<char>)
    ensures
        r@ == json_string(s@),
{
    let q = json_quote(s.as_str());
    chars_of(q.as_str())
}

/// The fragments of one key, joined.
pub open spec fn joined(frs: Seq<Seq<char>>) -> Seq<char> {
    join_sep(frs, seq![])
}

/// All fragments of a bucket, key after key.
pub open spec fn flat_rules(m: Seq<(Seq<char>, Seq<Seq<char>>)>) -> Seq<char>
    decreases m.len(),
{
    if m.len() == 0 {
        seq![]
    } else {
        flat_rules(m.drop_last()) + joined(m.last().1)
    }
}

/// The media block of one breakpoint: empty when it holds no rule or is unknown.
pub open spec fn media_block(k: Seq<char>, frs: Seq<Seq<char>>) -> Seq<char> {
    let body = joined(frs);
    match screen_of(k) {
        Some(m) => if body.len() > 0 {
            lit_media_open() + m + lit_media_mid() + body + seq!['}']
        } else {
            seq![]
        },
        None => seq![],
    }
}

/// The media blocks of the breakpoint bucket, in order.
pub open spec fn media_rules(m: Seq<(Seq<char>, Seq<Seq<char>>)>) -> Seq<char>
    decreases m.len(),
{
    if m.len() == 0 {
        seq![]
    } else {
        media_rules(m.drop_last()) + media_block(m.last().0, m.last().1)
    }
}

/// The stylesheet of a registry: plain, pseudo-selector and target-children
/// rules, then one media block per breakpoint.
pub open spec fn css_text(r: RegistryModel) -> Seq<char> {
    flat_rules(r.properties) + flat_rules(r.pseudo_selectors) + flat_rules(r.target_children) + media_rules(
        r.media_queries,
    )
}

fn strings_chars(v: &Vec<String>) -> (r: Vec<Vec<char>>)
    ensures
        r@.map_values(|x: Vec<char>| x@) == strings_view(v@),
{
    let mut r: Vec<Vec<char>> = Vec::new();
    let mut i: usize = 0;
    while i < v.len()
        invariant
            i <= v.len(),
            r@.map_values(|x: Vec<char>| x@) == strings_view(v@).take(i as int),
        decreases v.len() - i,
    {
        let ghost before = r@.map_values(|x: Vec<char>| x@);
        let c = chars_of(v[i].as_str());
        let ghost cv = c@;
        r.push(c);
        assert(strings_view(v@)[i as int] == cv);
        assert(r@.map_values(|x: Vec<char>| x@) =~= before.push(cv));
        assert(r@.map_values(|x: Vec<char>| x@) =~= strings_view(v@).take(i + 1));
        i += 1;
    }
    assert(strings_view(v@).take(v@.len() as int) =~= strings_view(v@));
    r
}

fn joined_x(v: &Vec<String>) -> (r: Vec<char>)
    ensures
        r@ == joined(strings_view(v@)),
{
    let none: Vec<char> = Vec::new();
    assert(none@ =~= seq![]);
    join_sep_x(&strings_chars(v), &none)
}

fn flat_rules_x(m: &RuleList, out: &mut Vec<char>)
    ensures
        final(out)@ == old(out)@ + flat_rules(rules_view(m@)),
{
    let ghost mv = rules_view(m@);
    let ghost start = out@;
    let mut i: usize = 0;
    assert(mv.take(0) =~= seq![]);
    assert(start + seq![] =~= start);
    while i < m.len()
        invariant
            i <= m.len(),
            mv == rules_view(m@),
            start == old(out)@,
            out@ == start + flat_rules(mv.take(i as int)),
        decreases m.len() - i,
    {
        let j = joined_x(&m[i].1);
        push_all(out, &j);
        assert(mv.take(i + 1).drop_last() =~= mv.take(i as int));
        assert(mv.take(i + 1).last() == mv[i as int]);
        assert(out@ =~= start + flat_rules(mv.take(i + 1)));
        i += 1;
    }
    assert(mv.take(m@.len() as int) =~= mv);
}

fn media_rules_x(m: &RuleList, out: &mut Vec<char>)
    ensures
        final(out)@ == old(out)@ + media_rules(rules_view(m@)),
{
    let ghost mv = rules_view(m@);
    let ghost start = out@;
    let mut i: usize = 0;
    assert(mv.take(0) =~= seq![]);
    assert(start + seq![] =~= start);
    while i < m.len()
        invariant
            i <= m.len(),
            mv == rules_view(m@),
            start == old(out)@,
            out@ == start + media_rules(mv.take(i as int)),
        decreases m.len() - i,
    {
        let key = chars_of(m[i].0.as_str());
        let body = joined_x(&m[i].1);
        let ghost before = out@;
        assert(mv[i as int] == (key@, strings_view(m@[i as int].1@)));
        match screen_lookup(&key) {
            Some(media) => {
                if body.len() > 0 {
                    push_all(out, &lit_media_open_x());
                    push_all(out, &media);
                    push_all(out, &lit_media_mid_x());
                    push_all(out, &body);
                    out.push('}');
                    assert(out@ =~= before + media_block(key@, mv[i as int].1));
                } else {
                    assert(out@ =~= before + media_block(key@, mv[i as int].1));
                }
            },
            None => {
                assert(out@ =~= before + media_block(key@, mv[i as int].1));
            },
        }
        assert(mv.take(i + 1).drop_last() =~= mv.take(i as int));
        assert(mv.take(i + 1).last() == mv[i as int]);
        assert(out@ =~= start + media_rules(mv.take(i + 1)));
        i += 1;
    }
    assert(mv.take(m@.len() as int) =~= mv);
}

/// A JSON object from its `"key": value` items.
pub open spec fn json_object(items: Seq<Seq<char>>) -> Seq<char> {
    seq!['{'] + join_sep(items, lit_comma_space()) + seq!['}']
}

fn json_object_x(items: &Vec<Vec<char>>) -> (r: Vec<char>)
    ensures
        r@ == json_object(items@.map_values(|x: Vec<char>| x@)),
{
    let mut r = vec!['{'];
    push_all(&mut r, &join_sep_x(items, &lit_comma_space_x()));
    r.push('}');
    r
}

pub open spec fn leaves_view_of(m: Seq<(String, String)>) -> LeavesModel {
    pairs_view(m)
}

pub open spec fn l2_view_of(m: Seq<(String, NameLeaves)>) -> Level2Model {
    level2_view(m)
}

pub open spec fn l1_view_of(m: Seq<(String, NameLevel2)>) -> Level1Model {
    level1_view(m)
}

fn json_string_x(s: &String) -> (r: Vec<char>)
    ensures
        r@ == json_string(s@),
{
    json_quote_x(s)
}

pub open spec fn leaves_items(m: LeavesModel) -> Seq<Seq<char>> {
    m.map_values(|e: (Seq<char>, Seq<char>)| json_string(e.0) + lit_colon_space() + json_string(e.1))
}

pub open spec fn json_leaves(m: LeavesModel) -> Seq<char> {
    json_object(leaves_items(m))
}

fn json_leaves_x(m: &NameLeaves) -> (r: Vec<char>)
    ensures
        r@ == json_leaves(leaves_view_of(m@)),
{
    let ghost mv = leaves_view_of(m@);
    let mut items: Vec<Vec<char>> = Vec::new();
    let mut i: usize = 0;
    while i < m.len()
        invariant
            i <= m.len(),
            mv == leaves_view_of(m@),
            items@.map_values(|x: Vec<char>| x@) == leaves_items(mv).take(i as int),
        decreases m.len() - i,
    {
        let ghost before = items@.map_values(|x: Vec<char>| x@);
        let mut item = json_quote_x(&m[i].0);
        push_all(&mut item, &lit_colon_space_x());
        let inner = json_string_x(&m[i].1);
        push_all(&mut item, &inner);
        let ghost iv = item@;
        assert(mv[i as int].0 == m@[i as int].0@);
        items.push(item);
        assert(leaves_items(mv)[i as int] == iv);
        assert(items@.map_values(|x: Vec<char>| x@) =~= before.push(iv));
        assert(items@.map_values(|x: Vec<char>| x@) =~= leaves_items(mv).take(i + 1));
        i += 1;
    }
    assert(leaves_items(mv).take(m@.len() as int) =~= leaves_items(mv));
    json_object_x(&items)
}

pub open spec fn l2_items(m: Level2Model) -> Seq<Seq<char>> {
    m.map_values(|e: (Seq<char>, LeavesModel)| json_string(e.0) + lit_colon_space() + json_leaves(e.1))
}

pub open spec fn json_l2(m: Level2Model) -> Seq<char> {
    json_object(l2_items(m))
}

fn json_l2_x(m: &NameLevel2) -> (r: Vec<char>)
    ensures
        r@ == json_l2(l2_view_of(m@)),
{
    let ghost mv = l2_view_of(m@);
    let mut items: Vec<Vec<char>> = Vec::new();
    let mut i: usize = 0;
    while i < m.len()
        invariant
            i <= m.len(),
            mv == l2_view_of(m@),
            items@.map_values(|x: Vec<char>| x@) == l2_items(mv).take(i as int),
        decreases m.len() - i,
    {
        let ghost before = items@.map_values(|x: Vec<char>| x@);
        let mut item = json_quote_x(&m[i].0);
        push_all(&mut item, &lit_colon_space_x());
        let inner = json_leaves_x(&m[i].1);
        push_all(&mut item, &inner);
        let ghost iv = item@;
        assert(mv[i as int].0 == m@[i as int].0@);
        items.push(item);
        assert(l2_items(mv)[i as int] == iv);
        assert(items@.map_values(|x: Vec<char>| x@) =~= before.push(iv));
        assert(items@.map_values(|x: Vec<char>| x@) =~= l2_items(mv).take(i + 1));
        i += 1;
    }
    assert(l2_items(mv).take(m@.len() as int) =~= l2_items(mv));
    json_object_x(&items)
}

pub open spec fn l1_items(m: Level1Model) -> Seq<Seq<char>> {
    m.map_values(|e: (Seq<char>, Level2Model)| json_string(e.0) + lit_colon_space() + json_l2(e.1))
}

pub open spec fn json_l1(m: Level1Model) -> Seq<char> {
    json_object(l1_items(m))
}

fn json_l1_x(m: &NameLevel1) -> (r: Vec<char>)
    ensures
        r@ == json_l1(l1_view_of(m@)),
{
    let ghost mv = l1_view_of(m@);
    let mut items: Vec<Vec<char>> = Vec::new();
    let mut i: usize = 0;
    while i < m.len()
        invariant
            i <= m.len(),
            mv == l1_view_of(m@),
            items@.map_values(|x: Vec<char>| x@) == l1_items(mv).take(i as int),
        decreases m.len() - i,
    {
        let ghost before = items@.map_values(|x: Vec<char>| x@);
        let mut item = json_quote_x(&m[i].0);
        push_all(&mut item, &lit_colon_space_x());
        let inner = json_l2_x(&m[i].1);
        push_all(&mut item, &inner);
        let ghost iv = item@;
        assert(mv[i as int].0 == m@[i as int].0@);
        items.push(item);
        assert(l1_items(mv)[i as int] == iv);
        assert(items@.map_values(|x: Vec<char>| x@) =~= before.push(iv));
        assert(items@.map_values(|x: Vec<char>| x@) =~= l1_items(mv).take(i + 1));
        i += 1;
    }
    assert(l1_items(mv).take(m@.len() as int) =~= l1_items(mv));
    json_object_x(&items)
}

/// One script tag per identifier, holding its names as JSON.
pub open spec fn script_items(m: Seq<(Seq<char>, Level1Model)>) -> Seq<Seq<char>> {
    m.map_values(|e: (Seq<char>, Level1Model)| lit_script_open() + e.0 + lit_script_mid() + json_l1(e.1) + lit_script_close())
}

/// The script tags of all recorded names.
pub open spec fn names_text(m: Seq<(Seq<char>, Level1Model)>) -> Seq<char> {
    joined(script_items(m))
}

fn names_text_x(m: &NameMap) -> (r: Vec<char>)
    ensures
        r@ == names_text(names_view(m@)),
{
    let ghost mv = names_view(m@);
    let mut items: Vec<Vec<char>> = Vec::new();
    let mut i: usize = 0;
    while i < m.len()
        invariant
            i <= m.len(),
            mv == names_view(m@),
            items@.map_values(|x: Vec<char>| x@) == script_items(mv).take(i as int),
        decreases m.len() - i,
    {
        let ghost before = items@.map_values(|x: Vec<char>| x@);
        let mut item = lit_script_open_x();
        push_all(&mut item, &chars_of(m[i].0.as_str()));
        push_all(&mut item, &lit_script_mid_x());
        push_all(&mut item, &json_l1_x(&m[i].1));
        push_all(&mut item, &lit_script_close_x());
        let ghost iv = item@;
        assert(mv[i as int].0 == m@[i as int].0@);
        items.push(item);
        assert(script_items(mv)[i as int] == iv);
        assert(items@.map_values(|x: Vec<char>| x@) =~= before.push(iv));
        assert(items@.map_values(|x: Vec<char>| x@) =~= script_items(mv).take(i + 1));
        i += 1;
    }
    assert(script_items(mv).take(m@.len() as int) =~= script_items(mv));
    let none: Vec<char> = Vec::new();
    assert(none@ =~= seq![]);
    join_sep_x(&items, &none)
}

/// A group of files as a JSON array of strings.
pub open spec fn group_json(g: Seq<Seq<char>>) -> Seq<char> {
    seq!['['] + join_sep(g.map_values(|x: Seq<char>| json_string(x)), lit_comma_space()) + seq![']']
}

/// The configuration tag that lists the file groups.
pub open spec fn config_text(groups: Seq<Seq<Seq<char>>>) -> Seq<char> {
    lit_config_open() + seq!['['] + join_sep(groups.map_values(|g: Seq<Seq<char>>| group_json(g)), lit_comma_space())
        + seq![']'] + lit_script_close()
}

pub open spec fn groups_view(groups: Seq<Vec<String>>) -> Seq<Seq<Seq<char>>> {
    groups.map_values(|g: Vec<String>| strings_view(g@))
}

fn group_json_x(g: &Vec<String>) -> (r: Vec<char>)
    ensures
        r@ == group_json(strings_view(g@)),
{
    let ghost gv = strings_view(g@);
    let mut items: Vec<Vec<char>> = Vec::new();
    let mut i: usize = 0;
    while i < g.len()
        invariant
            i <= g.len(),
            gv == strings_view(g@),
            items@.map_values(|x: Vec<char>| x@) == gv.map_values(|x: Seq<char>| json_string(x)).take(i as int),
        decreases g.len() - i,
    {
        let ghost before = items@.map_values(|x: Vec<char>| x@);
        let item = json_quote_x(&g[i]);
        let ghost iv = item@;
        items.push(item);
        assert(items@.map_values(|x: Vec<char>| x@) =~= before.push(iv));
        assert(items@.map_values(|x: Vec<char>| x@) =~= gv.map_values(|x: Seq<char>| json_string(x)).take(i + 1));
        i += 1;
    }
    assert(gv.map_values(|x: Seq<char>| json_string(x)).take(g@.len() as int) =~= gv.map_values(|x: Seq<char>| json_string(x)));
    let mut r = vec!['['];
    push_all(&mut r, &join_sep_x(&items, &lit_comma_space_x()));
    r.push(']');
    r
}

fn config_text_x(groups: &Vec<Vec<String>>) -> (r: Vec<char>)
    ensures
        r@ == config_text(groups_view(groups@)),
{
    let ghost gv = groups_view(groups@);
    let mut items: Vec<Vec<char>> = Vec::new();
    let mut i: usize = 0;
    while i < groups.len()
        invariant
            i <= groups.len(),
            gv == groups_view(groups@),
            items@.map_values(|x: Vec<char>| x@) == gv.map_values(|g: Seq<Seq<char>>| group_json(g)).take(i as int),
        decreases groups.len() - i,
    {
        let ghost before = items@.map_values(|x: Vec<char>| x@);
        let item = group_json_x(&groups[i]);
        let ghost iv = item@;
        items.push(item);
        assert(items@.map_values(|x: Vec<char>| x@) =~= before.push(iv));
        assert(items@.map_values(|x: Vec<char>| x@) =~= gv.map_values(|g: Seq<Seq<char>>| group_json(g)).take(i + 1));
        i += 1;
    }
    assert(gv.map_values(|g: Seq<Seq<char>>| group_json(g)).take(groups@.len() as int) =~= gv.map_values(
        |g: Seq<Seq<char>>| group_json(g),
    ));
    let mut r = lit_config_open_x();
    r.push('[');
    push_all(&mut r, &join_sep_x(&items, &lit_comma_space_x()));
    r.push(']');
    push_all(&mut r, &lit_script_close_x());
    r
}

/// The non-empty `.`-separated pieces of `s[i..]`, the current one starting with `cur`.
pub open spec fn dot_segs(s: Seq<char>, i: int, cur: Seq<char>) -> Seq<Seq<char>>
    decreases s.len() - i,
{
    if i < 0 || i >= s.len() {
        if cur.len() > 0 {
            seq![cur]
        } else {
            seq![]
        }
    } else if s[i] == '.' {
        (if cur.len() > 0 {
            seq![cur]
        } else {
            seq![]
        }) + dot_segs(s, i + 1, seq![])
    } else {
        dot_segs(s, i + 1, cur.push(s[i]))
    }
}

/// The output path of a source file without extension: under `.galadriel/`,
/// the path without `./` and `@/` tokens, without dots and without its last
/// dot-separated piece (the extension).
pub open spec fn output_base(input: Seq<char>) -> Seq<char> {
    let path = remove_all(remove_all(input, dot_slash()), at_slash());
    let parts = dot_segs(path, 0, seq![]);
    let keep: int = if parts.len() > 1 {
        parts.len() - 1
    } else {
        0
    };
    lit_out_dir() + joined(parts.take(keep))
}

fn dot_segments_x(s: &Vec<char>) -> (r: Vec<Vec<char>>)
    ensures
        r@.map_values(|v: Vec<char>| v@) == dot_segs(s@, 0, seq![]),
{
    let mut r: Vec<Vec<char>> = Vec::new();
    let mut cur: Vec<char> = Vec::new();
    let mut i: usize = 0;
    assert(cur@ =~= seq![]);
    while i < s.len()
        invariant
            i <= s.len(),
            r@.map_values(|v: Vec<char>| v@) + dot_segs(s@, i as int, cur@) == dot_segs(s@, 0, seq![]),
        decreases s.len() - i,
    {
        if s[i] == '.' {
            if cur.len() > 0 {
                let ghost before = r@.map_values(|v: Vec<char>| v@);
                let ghost c = cur@;
                r.push(cur);
                assert(r@.map_values(|v: Vec<char>| v@) =~= before.push(c));
                assert(before + (seq![c] + dot_segs(s@, i + 1, seq![])) =~= before.push(c) + dot_segs(s@, i + 1, seq![]));
            } else {
                assert(seq![] + dot_segs(s@, i + 1, seq![]) =~= dot_segs(s@, i + 1, seq![]));
            }
            cur = Vec::new();
            assert(cur@ =~= seq![]);
        } else {
            cur.push(s[i]);
        }
        i += 1;
    }
    if cur.len() > 0 {
        let ghost before = r@.map_values(|v: Vec<char>| v@);
        let ghost c = cur@;
        r.push(cur);
        assert(r@.map_values(|v: Vec<char>| v@) =~= before.push(c));
        assert(before + seq![c] =~= before.push(c));
    } else {
        assert(r@.map_values(|v: Vec<char>| v@) + seq![] =~= r@.map_values(|v: Vec<char>| v@));
    }
    r
}

/// Writes the output files of the compiler from the registry's contents.
pub struct Trailblazer;

impl Trailblazer {
    pub fn new() -> (r: Self) {
        Trailblazer
    }

    /// The stylesheet and page paths that a source file's output goes to.
    pub fn format_path(&self, input: &str) -> (r: Result<(String, String), String>)
        ensures
            r matches Ok(p) && p.0@ == output_base(input@) + lit_css_ext() && p.1@ == output_base(input@)
                + lit_html_ext(),
    {
        let src = chars_of(input);
        let ds = vec!['.', '/'];
        assert(ds@ =~= dot_slash());
        let ats = vec!['@', '/'];
        assert(ats@ =~= at_slash());
        let path = remove_all_exec(&remove_all_exec(&src, &ds), &ats);
        let parts = dot_segments_x(&path);
        let ghost pv = parts@.map_values(|v: Vec<char>| v@);
        let keep: usize = if parts.len() > 1 {
            parts.len() - 1
        } else {
            0
        };
        let mut kept: Vec<Vec<char>> = Vec::new();
        let mut i: usize = 0;
        while i < keep
            invariant
                i <= keep,
                keep <= parts.len(),
                pv == parts@.map_values(|v: Vec<char>| v@),
                kept@.map_values(|v: Vec<char>| v@) == pv.take(i as int),
            decreases keep - i,
        {
            let ghost before = kept@.map_values(|v: Vec<char>| v@);
            let piece = slice_chars(&parts[i], 0, parts[i].len());
            assert(pv[i as int] == parts@[i as int]@);
            assert(piece@ =~= pv[i as int]);
            let ghost pc = piece@;
            kept.push(piece);
            assert(kept@.map_values(|v: Vec<char>| v@) =~= before.push(pc));
            assert(kept@.map_values(|v: Vec<char>| v@) =~= pv.take(i + 1));
            i += 1;
        }
        let none: Vec<char> = Vec::new();
        assert(none@ =~= seq![]);
        let mut base = lit_out_dir_x();
        push_all(&mut base, &join_sep_x(&kept, &none));
        let mut css = slice_chars(&base, 0, base.len());
        push_all(&mut css, &lit_css_ext_x());
        let mut html = slice_chars(&base, 0, base.len());
        push_all(&mut html, &lit_html_ext_x());
        assert(base@.subrange(0, base@.len() as int) =~= base@);
        Ok((string_of(&css), string_of(&html)))
    }

    /// Empties every rule list of the registry, keeping its keys.
    pub fn clear_stylitron(&self, registry: &mut StyleRegistry)
        ensures
            final(registry)@.properties == crate::registry::cleared(old(registry)@.properties),
            final(registry)@.pseudo_selectors == crate::registry::cleared(old(registry)@.pseudo_selectors),
            final(registry)@.media_queries == crate::registry::cleared(old(registry)@.media_queries),
            final(registry)@.target_children == crate::registry::cleared(old(registry)@.target_children),
            final(registry)@.names == old(registry)@.names,
    {
        registry.clear_rules();
    }

    /// Removes every recorded name from the registry.
    pub fn clear_stylometric(&self, registry: &mut StyleRegistry)
        ensures
            final(registry)@ == (RegistryModel { names: seq![], ..old(registry)@ }),
    {
        registry.clear_names();
    }

    /// The configuration tag that lists the file groups.
    pub fn generates_config(&self, groups: &Vec<Vec<String>>) -> (r: String)
        ensures
            r@ == config_text(groups_view(groups@)),
    {
        string_of(&config_text_x(groups))
    }

    /// The script tags that carry the recorded names, one per identifier.
    pub fn generates_cls_name(&self, registry: &StyleRegistry) -> (r: String)
        ensures
            r@ == names_text(registry@.names),
    {
        string_of(&names_text_x(registry.names()))
    }

    /// The stylesheet of the registry's rules.
    pub fn generates_css(&self, registry: &StyleRegistry) -> (r: String)
        ensures
            r@ == css_text(registry@),
    {
        let mut out: Vec<char> = Vec::new();
        assert(out@ =~= seq![]);
        flat_rules_x(registry.rules(Bucket::Properties), &mut out);
        flat_rules_x(registry.rules(Bucket::PseudoSelectors), &mut out);
        flat_rules_x(registry.rules(Bucket::TargetChildren), &mut out);
        media_rules_x(registry.rules(Bucket::MediaQueries), &mut out);
        assert(out@ =~= css_text(registry@));
        string_of(&out)
    }
}

} // verus!
