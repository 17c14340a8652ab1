//! Rule resolution: turns extracted declarations into atomic CSS rules with
//! generated class names, and records both in a style registry.
use vstd::prelude::*;
use crate::classinator::{classinator, name_of};
use crate::codelyzer::{values_view, Declaration, StyleValue, ValueModel};
use crate::cores::{screen_lookup, screen_of, selector_lookup, selector_of};
use crate::entries::pairs_view;
use crate::registry::{Bucket, RegistryModel, StyleRegistry};
use crate::handlers::{child_rule, process_children_objects};
use crate::text::{
    at, chars_of, contains_seq, find_char, find_from, is_word,
    is_word_char, lemma_find_from, lemma_word_end, occurs, push_all, slice_chars, string_of,
    word_end, word_end_at,
};

verus! {

/// The `x` characters in the middle of `s`, or all of `s` when it is shorter.
pub open spec fn middle(x: int, s: Seq<char>) -> Seq<char> {
    if s.len() >= x {
        s.subrange(s.len() / 2 - x / 2, s.len() / 2 - x / 2 + x)
    } else {
        s
    }
}

pub open spec fn prefix_galadriel() -> Seq<char> {
    seq!['g', 'a', 'l', 'a', 'd', 'r', 'i', 'e', 'l', '_']
}

pub open spec fn prefix_children() -> Seq<char> {
    seq!['c', 'h', 'i', 'l', 'd', 'r', 'e', 'n', '_']
}

/// The class name of a rule: `galadriel_`, six characters of the name of
/// `property:value`, four of the name of the selector text when there is one,
/// and four of the name of the file path in modular mode.
pub open spec fn class_name_for(
    modular: bool,
    path: Seq<char>,
    property: Seq<char>,
    value: Seq<char>,
    selector: Seq<char>,
) -> Seq<char> {
    prefix_galadriel() + middle(6, name_of(property + seq![':'] + value)) + (if selector.len() > 0 {
        middle(4, name_of(selector))
    } else {
        seq![]
    }) + (if modular {
        middle(4, name_of(path))
    } else {
        seq![]
    })
}

/// Whether a value is a conditional `${cond ? a : b}`.
pub open spec fn is_ternary(v: Seq<char>) -> bool {
    occurs(v, seq!['$', '{']) && occurs(v, seq!['}'])
}

pub open spec fn is_ternary_punct(c: char) -> bool {
    c == ' ' || c == '$' || c == '{' || c == '?' || c == ':' || c == '}'
}

/// The token of a conditional at `i`: (end, start of text, end of text); an end
/// equal to `i` means none. Quoted strings yield their contents.
pub open spec fn ternary_token(s: Seq<char>, i: int) -> (int, int, int) {
    if (s[i] == '"' || s[i] == '\'') && find_from(s, i + 1, s[i]) >= 0 {
        (find_from(s, i + 1, s[i]) + 1, i + 1, find_from(s, i + 1, s[i]))
    } else if is_word_char(s[i]) {
        (word_end(s, i), i, word_end(s, i))
    } else if is_ternary_punct(s[i]) {
        (i + 1, i, i + 1)
    } else {
        (i, i, i)
    }
}

/// The two branches of a conditional, read from position `i` on: after `?`,
/// the first two tokens that are not a space, colon or closing brace.
pub open spec fn ternary_scan(s: Seq<char>, i: int, cond: bool, first: Seq<char>, second: Seq<char>) -> (Seq<char>, Seq<char>)
    decreases s.len() - i,
{
    if i < 0 || i >= s.len() {
        (first, second)
    } else {
        let t = ternary_token(s, i);
        if !(i < t.0 <= s.len()) {
            (first, second)
        } else {
            let text = s.subrange(t.1, t.2);
            if text == seq!['?'] {
                ternary_scan(s, t.0, true, first, second)
            } else if cond && text != seq![' '] && text != seq![':'] && text != seq!['}'] {
                if first.len() == 0 {
                    ternary_scan(s, t.0, cond, text, second)
                } else if second.len() == 0 {
                    ternary_scan(s, t.0, cond, first, text)
                } else {
                    ternary_scan(s, t.0, cond, first, second)
                }
            } else {
                ternary_scan(s, t.0, cond, first, second)
            }
        }
    }
}

pub open spec fn ternary_branches(v: Seq<char>) -> (Seq<char>, Seq<char>) {
    ternary_scan(v, 0, false, seq![], seq![])
}

/// The fragment of a plain property rule: `.{name}{property:value}`.
pub open spec fn plain_fragment(name: Seq<char>, property: Seq<char>, value: Seq<char>) -> Seq<char> {
    seq!['.'] + name + seq!['{'] + property + seq![':'] + value + seq!['}']
}

/// The fragment of a rule under a selector: `.{name}{pseudo}{property:value}`.
pub open spec fn nested_fragment(name: Seq<char>, pseudo: Seq<char>, property: Seq<char>, value: Seq<char>) -> Seq<char> {
    seq!['.'] + name + pseudo + seq!['{'] + property + seq![':'] + value + seq!['}']
}

pub open spec fn name_key() -> Seq<char> {
    seq!['n', 'a', 'm', 'e']
}

/// One plain property rule and its name, when both property and value are non-empty.
pub open spec fn resolve_plain(
    r: RegistryModel,
    modular: bool,
    path: Seq<char>,
    id: Seq<char>,
    key: Seq<char>,
    v: Seq<char>,
) -> RegistryModel {
    if key.len() > 0 && v.len() > 0 {
        let n = class_name_for(modular, path, key, v, seq![]);
        r.append(Bucket::Properties, key, plain_fragment(n, key, v)).record(id, key, v, name_key(), n)
    } else {
        r
    }
}

/// A top-level plain value; a conditional yields one rule per branch.
pub open spec fn resolve_leaf(
    r: RegistryModel,
    modular: bool,
    path: Seq<char>,
    id: Seq<char>,
    key: Seq<char>,
    v: Seq<char>,
) -> RegistryModel {
    if is_ternary(v) {
        let b = ternary_branches(v);
        resolve_plain(resolve_plain(r, modular, path, id, key, b.0), modular, path, id, key, b.1)
    } else {
        resolve_plain(r, modular, path, id, key, v)
    }
}

/// The context of a nested block: its bucket, the selector text used for the
/// name, and the pseudo-selector written into the rule.
pub struct BlockContext {
    pub bucket: Bucket,
    pub selector: Seq<char>,
    pub pseudo: Seq<char>,
}

/// A pseudo-selector key or a breakpoint key gives a block context; any other
/// key gives none and its block is dropped.
pub open spec fn block_context(key: Seq<char>) -> Option<BlockContext> {
    match selector_of(key) {
        Some(sel) => Some(BlockContext { bucket: Bucket::PseudoSelectors, selector: sel, pseudo: sel }),
        None => match screen_of(key) {
            Some(media) => Some(BlockContext { bucket: Bucket::MediaQueries, selector: media, pseudo: seq![] }),
            None => None,
        },
    }
}

/// One rule inside a nested block.
pub open spec fn resolve_nested_value(
    r: RegistryModel,
    modular: bool,
    path: Seq<char>,
    id: Seq<char>,
    key: Seq<char>,
    ctx: BlockContext,
    p: Seq<char>,
    v: Seq<char>,
) -> RegistryModel {
    let n = class_name_for(modular, path, p, v, ctx.selector);
    r.append(ctx.bucket, key, nested_fragment(n, ctx.pseudo, p, v)).record(id, key, p, v, n)
}

/// One `property: value` pair of a nested block; a conditional yields one rule per branch.
pub open spec fn resolve_nested_pair(
    r: RegistryModel,
    modular: bool,
    path: Seq<char>,
    id: Seq<char>,
    key: Seq<char>,
    ctx: BlockContext,
    p: Seq<char>,
    v: Seq<char>,
) -> RegistryModel {
    if p.len() == 0 || v.len() == 0 {
        r
    } else if is_ternary(v) {
        let b = ternary_branches(v);
        resolve_nested_value(
            resolve_nested_value(r, modular, path, id, key, ctx, p, b.0),
            modular,
            path,
            id,
            key,
            ctx,
            p,
            b.1,
        )
    } else {
        resolve_nested_value(r, modular, path, id, key, ctx, p, v)
    }
}

/// The pairs of a nested block from position `i` on.
pub open spec fn resolve_block(
    r: RegistryModel,
    modular: bool,
    path: Seq<char>,
    id: Seq<char>,
    key: Seq<char>,
    ctx: BlockContext,
    entries: Seq<(Seq<char>, Seq<char>)>,
    i: int,
) -> RegistryModel
    decreases entries.len() - i,
{
    if i < 0 || i >= entries.len() {
        r
    } else {
        resolve_block(
            resolve_nested_pair(r, modular, path, id, key, ctx, entries[i].0, entries[i].1),
            modular,
            path,
            id,
            key,
            ctx,
            entries,
            i + 1,
        )
    }
}

/// One top-level property of a declaration.
pub open spec fn resolve_property(
    r: RegistryModel,
    modular: bool,
    path: Seq<char>,
    id: Seq<char>,
    key: Seq<char>,
    v: ValueModel,
) -> RegistryModel {
    match v {
        ValueModel::Leaf(s) => resolve_leaf(r, modular, path, id, key, s),
        ValueModel::Nested(entries) => match block_context(key) {
            Some(ctx) => resolve_block(r, modular, path, id, key, ctx, entries, 0),
            None => r,
        },
    }
}

/// The properties of a declaration from position `i` on.
pub open spec fn resolve_properties(
    r: RegistryModel,
    modular: bool,
    path: Seq<char>,
    id: Seq<char>,
    props: Seq<(Seq<char>, ValueModel)>,
    i: int,
) -> RegistryModel
    decreases props.len() - i,
{
    if i < 0 || i >= props.len() {
        r
    } else {
        resolve_properties(resolve_property(r, modular, path, id, props[i].0, props[i].1), modular, path, id, props, i + 1)
    }
}

fn get_middle_x(x: usize, input: &Vec<char>) -> (r: Vec<char>)
    ensures
        r@ == middle(x as int, input@),
{
    let len = input.len();
    if len >= x {
        let start = len / 2 - x / 2;
        slice_chars(input, start, start + x)
    } else {
        slice_chars(input, 0, len)
    }
}

fn name_chars(s: &Vec<char>) -> (r: Vec<char>)
    ensures
        r@ == name_of(s@),
{
    let st = string_of(s);
    let n = classinator(st.as_str());
    chars_of(n.as_str())
}

fn concat(a: &Vec<char>, b: &Vec<char>) -> (r: Vec<char>)
    ensures
        r@ == a@ + b@,
{
    let mut r = slice_chars(a, 0, a.len());
    assert(a@.subrange(0, a@.len() as int) =~= a@);
    push_all(&mut r, b);
    r
}

fn generates_class_name(
    is_modular: bool,
    path: &Vec<char>,
    property: &Vec<char>,
    value: &Vec<char>,
    selector: &Vec<char>,
) -> (r: Vec<char>)
    ensures
        r@ == class_name_for(is_modular, path@, property@, value@, selector@),
{
    let mut pv = concat(property, &vec![':']);
    push_all(&mut pv, value);
    assert(pv@ =~= property@ + seq![':'] + value@);
    let mut r = vec!['g', 'a', 'l', 'a', 'd', 'r', 'i', 'e', 'l', '_'];
    assert(r@ =~= prefix_galadriel());
    let main = get_middle_x(6, &name_chars(&pv));
    push_all(&mut r, &main);
    let ghost r1 = r@;
    if selector.len() > 0 {
        push_all(&mut r, &get_middle_x(4, &name_chars(selector)));
    } else {
        assert(r@ =~= r1 + seq![]);
    }
    let ghost r2 = r@;
    if is_modular {
        push_all(&mut r, &get_middle_x(4, &name_chars(path)));
    } else {
        assert(r@ =~= r2 + seq![]);
    }
    r
}

proof fn lemma_ternary_token(s: Seq<char>, i: int)
    requires
        0 <= i < s.len(),
    ensures
        i <= ternary_token(s, i).0 <= s.len(),
        i <= ternary_token(s, i).1 <= ternary_token(s, i).2 <= ternary_token(s, i).0,
{
    lemma_find_from(s, i + 1, s[i]);
    lemma_word_end(s, i);
}

fn ternary_token_at(s: &Vec<char>, i: usize) -> (r: (usize, usize, usize))
    requires
        i < s.len(),
    ensures
        r.0 as int == ternary_token(s@, i as int).0,
        r.1 as int == ternary_token(s@, i as int).1,
        r.2 as int == ternary_token(s@, i as int).2,
{
    proof {
        lemma_ternary_token(s@, i as int);
    }
    let c = s[i];
    if (c == '"' || c == '\'') && find_char(s, i + 1, c).is_some() {
        let q = find_char(s, i + 1, c).unwrap();
        (q + 1, i + 1, q)
    } else if is_word(c) {
        let w = word_end_at(s, i);
        (w, i, w)
    } else if c == ' ' || c == '$' || c == '{' || c == '?' || c == ':' || c == '}' {
        (i + 1, i, i + 1)
    } else {
        (i, i, i)
    }
}

fn is_single(t: &Vec<char>, c: char) -> (r: bool)
    ensures
        r == (t@ == seq![c]),
{
    let r = t.len() == 1 && t[0] == c;
    assert(r == (t@ == seq![c])) by {
        if t@.len() == 1 && t@[0] == c {
            assert(t@ =~= seq![c]);
        }
    }
    r
}

/// The two branches of a conditional value `${cond ? a : b}`.
fn process_ternary(input: &Vec<char>) -> (r: (Vec<char>, Vec<char>))
    ensures
        r.0@ == ternary_branches(input@).0,
        r.1@ == ternary_branches(input@).1,
{
    let mut first: Vec<char> = Vec::new();
    let mut second: Vec<char> = Vec::new();
    let mut is_cond = false;
    let mut i: usize = 0;
    assert(first@ =~= seq![]);
    assert(second@ =~= seq![]);
    while i < input.len()
        invariant
            i <= input.len(),
            ternary_branches(input@) == ternary_scan(input@, i as int, is_cond, first@, second@),
        decreases input.len() - i,
    {
        proof {
            lemma_ternary_token(input@, i as int);
        }
        let (e, a, b) = ternary_token_at(input, i);
        if e == i {
            return (first, second);
        }
        let text = slice_chars(input, a, b);
        if is_single(&text, '?') {
            is_cond = true;
        } else if is_cond && !is_single(&text, ' ') && !is_single(&text, ':') && !is_single(&text, '}') {
            if first.len() == 0 {
                first = text;
            } else if second.len() == 0 {
                second = text;
            }
        }
        i = e;
    }
    (first, second)
}

fn ternary_value(v: &Vec<char>) -> (r: bool)
    ensures
        r == is_ternary(v@),
{
    let open = vec!['$', '{'];
    assert(open@ =~= seq!['$', '{']);
    let close = vec!['}'];
    assert(close@ =~= seq!['}']);
    contains_seq(v, &open) && contains_seq(v, &close)
}

fn resolve_plain_x(
    reg: &mut StyleRegistry,
    modular: bool,
    path: &Vec<char>,
    id: &Vec<char>,
    key: &Vec<char>,
    v: &Vec<char>,
)
    ensures
        old(reg)@.wf() ==> final(reg)@.wf(),
        final(reg)@ == resolve_plain(old(reg)@, modular, path@, id@, key@, v@),
{
    if key.len() > 0 && v.len() > 0 {
        let none: Vec<char> = Vec::new();
        assert(none@ =~= seq![]);
        let n = generates_class_name(modular, path, key, v, &none);
        let mut frag = vec!['.'];
        push_all(&mut frag, &n);
        frag.push('{');
        push_all(&mut frag, key);
        frag.push(':');
        push_all(&mut frag, v);
        frag.push('}');
        assert(frag@ =~= plain_fragment(n@, key@, v@));
        reg.append(Bucket::Properties, string_of(key), string_of(&frag));
        let nk = vec!['n', 'a', 'm', 'e'];
        assert(nk@ =~= name_key());
        reg.record(string_of(id), string_of(key), string_of(v), string_of(&nk), string_of(&n));
    }
}

fn resolve_leaf_x(
    reg: &mut StyleRegistry,
    modular: bool,
    path: &Vec<char>,
    id: &Vec<char>,
    key: &Vec<char>,
    v: &Vec<char>,
)
    ensures
        old(reg)@.wf() ==> final(reg)@.wf(),
        final(reg)@ == resolve_leaf(old(reg)@, modular, path@, id@, key@, v@),
{
    if ternary_value(v) {
        let (a, b) = process_ternary(v);
        resolve_plain_x(reg, modular, path, id, key, &a);
        resolve_plain_x(reg, modular, path, id, key, &b);
    } else {
        resolve_plain_x(reg, modular, path, id, key, v);
    }
}

struct BlockCtx {
    bucket: Bucket,
    selector: Vec<char>,
    pseudo: Vec<char>,
}

impl View for BlockCtx {
    type V = BlockContext;

    closed spec fn view(&self) -> BlockContext {
        BlockContext { bucket: self.bucket, selector: self.selector@, pseudo: self.pseudo@ }
    }
}

fn block_context_x(key: &Vec<char>) -> (r: Option<BlockCtx>)
    ensures
        match r {
            Some(c) => block_context(key@) == Some(c@),
            None => block_context(key@).is_none(),
        },
{
    match selector_lookup(key) {
        Some(sel) => {
            let pseudo = slice_chars(&sel, 0, sel.len());
            assert(sel@.subrange(0, sel@.len() as int) =~= sel@);
            Some(BlockCtx { bucket: Bucket::PseudoSelectors, selector: sel, pseudo })
        },
        None => match screen_lookup(key) {
            Some(media) => {
                let pseudo: Vec<char> = Vec::new();
                assert(pseudo@ =~= seq![]);
                Some(BlockCtx { bucket: Bucket::MediaQueries, selector: media, pseudo })
            },
            None => None,
        },
    }
}

fn resolve_nested_value_x(
    reg: &mut StyleRegistry,
    modular: bool,
    path: &Vec<char>,
    id: &Vec<char>,
    key: &Vec<char>,
    ctx: &BlockCtx,
    p: &Vec<char>,
    v: &Vec<char>,
)
    ensures
        old(reg)@.wf() ==> final(reg)@.wf(),
        final(reg)@ == resolve_nested_value(old(reg)@, modular, path@, id@, key@, ctx@, p@, v@),
{
    let n = generates_class_name(modular, path, p, v, &ctx.selector);
    let mut frag = vec!['.'];
    push_all(&mut frag, &n);
    push_all(&mut frag, &ctx.pseudo);
    frag.push('{');
    push_all(&mut frag, p);
    frag.push(':');
    push_all(&mut frag, v);
    frag.push('}');
    assert(frag@ =~= nested_fragment(n@, ctx@.pseudo, p@, v@));
    reg.append(ctx.bucket, string_of(key), string_of(&frag));
    reg.record(string_of(id), string_of(key), string_of(p), string_of(v), string_of(&n));
}

fn resolve_nested_pair_x(
    reg: &mut StyleRegistry,
    modular: bool,
    path: &Vec<char>,
    id: &Vec<char>,
    key: &Vec<char>,
    ctx: &BlockCtx,
    p: &Vec<char>,
    v: &Vec<char>,
)
    ensures
        old(reg)@.wf() ==> final(reg)@.wf(),
        final(reg)@ == resolve_nested_pair(old(reg)@, modular, path@, id@, key@, ctx@, p@, v@),
{
    if p.len() == 0 || v.len() == 0 {
    } else if ternary_value(v) {
        let (a, b) = process_ternary(v);
        resolve_nested_value_x(reg, modular, path, id, key, ctx, p, &a);
        resolve_nested_value_x(reg, modular, path, id, key, ctx, p, &b);
    } else {
        resolve_nested_value_x(reg, modular, path, id, key, ctx, p, v);
    }
}

fn resolve_block_x(
    reg: &mut StyleRegistry,
    modular: bool,
    path: &Vec<char>,
    id: &Vec<char>,
    key: &Vec<char>,
    ctx: &BlockCtx,
    entries: &Vec<(String, String)>,
)
    ensures
        old(reg)@.wf() ==> final(reg)@.wf(),
        final(reg)@ == resolve_block(old(reg)@, modular, path@, id@, key@, ctx@, pairs_view(entries@), 0),
{
    let ghost ev = pairs_view(entries@);
    let mut i: usize = 0;
    while i < entries.len()
        invariant
            old(reg)@.wf() ==> reg@.wf(),
            i <= entries.len(),
            ev == pairs_view(entries@),
            resolve_block(old(reg)@, modular, path@, id@, key@, ctx@, ev, 0) == resolve_block(
                reg@,
                modular,
                path@,
                id@,
                key@,
                ctx@,
                ev,
                i as int,
            ),
        decreases entries.len() - i,
    {
        let p = chars_of(entries[i].0.as_str());
        let v = chars_of(entries[i].1.as_str());
        assert(ev[i as int] == (p@, v@));
        resolve_nested_pair_x(reg, modular, path, id, key, ctx, &p, &v);
        i += 1;
    }
}

fn resolve_property_x(
    reg: &mut StyleRegistry,
    modular: bool,
    path: &Vec<char>,
    id: &Vec<char>,
    key: &Vec<char>,
    v: &StyleValue,
)
    ensures
        old(reg)@.wf() ==> final(reg)@.wf(),
        final(reg)@ == resolve_property(old(reg)@, modular, path@, id@, key@, v@),
{
    match v {
        StyleValue::Leaf(s) => {
            let sv = chars_of(s.as_str());
            resolve_leaf_x(reg, modular, path, id, key, &sv);
        },
        StyleValue::Nested(entries) => match block_context_x(key) {
            Some(ctx) => resolve_block_x(reg, modular, path, id, key, &ctx, entries),
            None => {},
        },
    }
}

fn resolve_properties_x(
    reg: &mut StyleRegistry,
    modular: bool,
    path: &Vec<char>,
    id: &Vec<char>,
    props: &Vec<(String, StyleValue)>,
)
    ensures
        old(reg)@.wf() ==> final(reg)@.wf(),
        final(reg)@ == resolve_properties(old(reg)@, modular, path@, id@, values_view(props@), 0),
{
    let ghost pv = values_view(props@);
    let mut i: usize = 0;
    while i < props.len()
        invariant
            old(reg)@.wf() ==> reg@.wf(),
            i <= props.len(),
            pv == values_view(props@),
            resolve_properties(old(reg)@, modular, path@, id@, pv, 0) == resolve_properties(
                reg@,
                modular,
                path@,
                id@,
                pv,
                i as int,
            ),
        decreases props.len() - i,
    {
        let key = chars_of(props[i].0.as_str());
        assert(pv[i as int] == (key@, props@[i as int].1@));
        resolve_property_x(reg, modular, path, id, &key, &props[i].1);
        i += 1;
    }
}

pub open spec fn children_key() -> Seq<char> {
    seq!['c', 'h', 'i', 'l', 'd', 'r', 'e', 'n']
}

pub open spec fn target_children_key() -> Seq<char> {
    seq!['t', 'a', 'r', 'g', 'e', 't', 'C', 'h', 'i', 'l', 'd', 'r', 'e', 'n']
}

pub open spec fn cls_key() -> Seq<char> {
    seq!['c', 'l', 's']
}

/// The shared class of a declaration's children rules: `children_{identifier}`,
/// with four characters of the name of the file path in modular mode.
pub open spec fn children_class(modular: bool, path: Seq<char>, id: Seq<char>) -> Seq<char> {
    prefix_children() + id + (if modular {
        middle(4, name_of(path))
    } else {
        seq![]
    })
}

/// One children entry: its rule goes under its breakpoint, or to the
/// target-children bucket; an entry that is not a block, or whose handler
/// cannot be resolved, is dropped.
pub open spec fn resolve_child(r: RegistryModel, cls: Seq<char>, key: Seq<char>, v: ValueModel) -> RegistryModel {
    match v {
        ValueModel::Nested(entries) => match child_rule(key, entries) {
            Some(rule) => match rule.0 {
                Some(media) => r.append(Bucket::MediaQueries, media, seq!['.'] + cls + rule.1),
                None => r.append(Bucket::TargetChildren, children_key(), seq!['.'] + cls + rule.1),
            },
            None => r,
        },
        ValueModel::Leaf(_) => r,
    }
}

/// The children entries from position `i` on.
pub open spec fn resolve_children(
    r: RegistryModel,
    cls: Seq<char>,
    children: Seq<(Seq<char>, ValueModel)>,
    i: int,
) -> RegistryModel
    decreases children.len() - i,
{
    if i < 0 || i >= children.len() {
        r
    } else {
        resolve_children(resolve_child(r, cls, children[i].0, children[i].1), cls, children, i + 1)
    }
}

/// One declaration: its properties, then its children, then the name of its
/// children class.
pub open spec fn resolve_declaration(
    r: RegistryModel,
    modular: bool,
    path: Seq<char>,
    id: Seq<char>,
    properties: Seq<(Seq<char>, ValueModel)>,
    children: Seq<(Seq<char>, ValueModel)>,
) -> RegistryModel {
    let cls = children_class(modular, path, id);
    resolve_children(resolve_properties(r, modular, path, id, properties, 0), cls, children, 0).record(
        id,
        target_children_key(),
        cls_key(),
        name_key(),
        cls,
    )
}

/// The declarations from position `i` on.
pub open spec fn resolve_all(
    r: RegistryModel,
    modular: bool,
    path: Seq<char>,
    decls: Seq<Declaration>,
    i: int,
) -> RegistryModel
    decreases decls.len() - i,
{
    if i < 0 || i >= decls.len() {
        r
    } else {
        resolve_all(
            resolve_declaration(
                r,
                modular,
                path,
                decls[i].identifier@,
                values_view(decls[i].properties@),
                values_view(decls[i].children@),
            ),
            modular,
            path,
            decls,
            i + 1,
        )
    }
}

fn resolve_children_x(reg: &mut StyleRegistry, cls: &Vec<char>, children: &Vec<(String, StyleValue)>)
    ensures
        old(reg)@.wf() ==> final(reg)@.wf(),
        final(reg)@ == resolve_children(old(reg)@, cls@, values_view(children@), 0),
{
    let ghost cv = values_view(children@);
    let mut i: usize = 0;
    while i < children.len()
        invariant
            old(reg)@.wf() ==> reg@.wf(),
            i <= children.len(),
            cv == values_view(children@),
            resolve_children(old(reg)@, cls@, cv, 0) == resolve_children(reg@, cls@, cv, i as int),
        decreases children.len() - i,
    {
        let key = chars_of(children[i].0.as_str());
        assert(cv[i as int] == (key@, children@[i as int].1@));
        match &children[i].1 {
            StyleValue::Nested(entries) => {
                match process_children_objects(&key, entries) {
                    Some((media, css)) => {
                        let mut frag = vec!['.'];
                        push_all(&mut frag, cls);
                        push_all(&mut frag, &css);
                        assert(frag@ =~= seq!['.'] + cls@ + css@);
                        match media {
                            Some(m) => reg.append(Bucket::MediaQueries, string_of(&m), string_of(&frag)),
                            None => {
                                let ck = vec!['c', 'h', 'i', 'l', 'd', 'r', 'e', 'n'];
                                assert(ck@ =~= children_key());
                                reg.append(Bucket::TargetChildren, string_of(&ck), string_of(&frag));
                            },
                        }
                    },
                    None => {},
                }
            },
            StyleValue::Leaf(_) => {},
        }
        i += 1;
    }
}

/// The children entries of a declaration, from position `i` on, that are
/// blocks yielding no rule: (identifier, key) pairs.
pub open spec fn unresolved_in(id: Seq<char>, children: Seq<(Seq<char>, ValueModel)>, i: int) -> Seq<(Seq<char>, Seq<char>)>
    decreases children.len() - i,
{
    if i < 0 || i >= children.len() {
        seq![]
    } else {
        let rest = unresolved_in(id, children, i + 1);
        match children[i].1 {
            ValueModel::Nested(entries) => if child_rule(children[i].0, entries).is_none() {
                seq![(id, children[i].0)] + rest
            } else {
                rest
            },
            ValueModel::Leaf(_) => rest,
        }
    }
}

/// The unresolved children entries of declarations `i..`.
pub open spec fn unresolved_all(decls: Seq<Declaration>, i: int) -> Seq<(Seq<char>, Seq<char>)>
    decreases decls.len() - i,
{
    if i < 0 || i >= decls.len() {
        seq![]
    } else {
        unresolved_in(decls[i].identifier@, values_view(decls[i].children@), 0) + unresolved_all(decls, i + 1)
    }
}

pub open spec fn pair_views(v: Seq<(String, String)>) -> Seq<(Seq<char>, Seq<char>)> {
    pairs_view(v)
}

/// Compiles declarations into atomic rules and class names.
pub struct Alchemist {
    modular: bool,
}

impl Alchemist {
    /// A resolver; in modular mode class names also depend on the file path.
    pub fn new(modular: bool) -> (r: Self)
        ensures
            r.is_modular() == modular,
    {
        Alchemist { modular }
    }

    pub closed spec fn is_modular(&self) -> bool {
        self.modular
    }

    /// The children entries that are skipped because their handler cannot be
    /// resolved, as (identifier, key) pairs, so that they can be reported.
    pub fn unresolved_children(&self, input: &Vec<Declaration>) -> (r: Vec<(String, String)>)
        ensures
            pair_views(r@) == unresolved_all(input@, 0),
    {
        let mut r: Vec<(String, String)> = Vec::new();
        let mut i: usize = 0;
        assert(pair_views(r@) + unresolved_all(input@, 0) =~= unresolved_all(input@, 0));
        while i < input.len()
            invariant
                i <= input.len(),
                pair_views(r@) + unresolved_all(input@, i as int) == unresolved_all(input@, 0),
            decreases input.len() - i,
        {
            let d = &input[i];
            let ghost id = d.identifier@;
            let ghost cv = values_view(d.children@);
            let ghost base = pair_views(r@);
            let mut j: usize = 0;
            assert(base + unresolved_in(id, cv, 0) =~= pair_views(r@) + unresolved_in(id, cv, 0));
            while j < d.children.len()
                invariant
                    j <= d.children.len(),
                    d == &input[i as int],
                    id == d.identifier@,
                    cv == values_view(d.children@),
                    pair_views(r@) + unresolved_in(id, cv, j as int) == base + unresolved_in(id, cv, 0),
                decreases d.children.len() - j,
            {
                let key = chars_of(d.children[j].0.as_str());
                assert(cv[j as int] == (key@, d.children@[j as int].1@));
                match &d.children[j].1 {
                    StyleValue::Nested(entries) => {
                        if process_children_objects(&key, entries).is_none() {
                            let ghost before = pair_views(r@);
                            let e = (d.identifier.clone(), d.children[j].0.clone());
                            let ghost ev = (e.0@, e.1@);
                            r.push(e);
                            assert(pair_views(r@) =~= before.push(ev));
                            assert(before + (seq![ev] + unresolved_in(id, cv, j + 1)) =~= before.push(ev) + unresolved_in(id, cv, j + 1));
                        }
                    },
                    StyleValue::Leaf(_) => {},
                }
                j += 1;
            }
            assert(pair_views(r@) + unresolved_all(input@, i + 1) =~= base + (unresolved_in(id, cv, 0) + unresolved_all(input@, i + 1)));
            i += 1;
        }
        assert(pair_views(r@) + unresolved_all(input@, i as int) =~= pair_views(r@));
        r
    }

    /// Resolves the declarations of the file at `path` into the registry.
    pub fn process_objects(&self, path: &str, input: &Vec<Declaration>, registry: &mut StyleRegistry)
        ensures
            old(registry)@.wf() ==> final(registry)@.wf(),
            final(registry)@ == resolve_all(old(registry)@, self.is_modular(), path@, input@, 0),
    {
        let p = chars_of(path);
        let mut i: usize = 0;
        while i < input.len()
            invariant
                old(registry)@.wf() ==> registry@.wf(),
                i <= input.len(),
                p@ == path@,
                resolve_all(old(registry)@, self.is_modular(), path@, input@, 0) == resolve_all(
                    registry@,
                    self.is_modular(),
                    path@,
                    input@,
                    i as int,
                ),
            decreases input.len() - i,
        {
            let d = &input[i];
            let id = chars_of(d.identifier.as_str());
            resolve_properties_x(registry, self.modular, &p, &id, &d.properties);
            let mut cls = vec!['c', 'h', 'i', 'l', 'd', 'r', 'e', 'n', '_'];
            push_all(&mut cls, &id);
            let ghost c1 = cls@;
            if self.modular {
                push_all(&mut cls, &get_middle_x(4, &name_chars(&p)));
            } else {
                assert(cls@ =~= c1 + seq![]);
            }
            assert(cls@ =~= children_class(self.modular, p@, id@));
            resolve_children_x(registry, &cls, &d.children);
            let tk = vec!['t', 'a', 'r', 'g', 'e', 't', 'C', 'h', 'i', 'l', 'd', 'r', 'e', 'n'];
            assert(tk@ =~= target_children_key());
            let ck = vec!['c', 'l', 's'];
            assert(ck@ =~= cls_key());
            let nk = vec!['n', 'a', 'm', 'e'];
            assert(nk@ =~= name_key());
            registry.record(string_of(&id), string_of(&tk), string_of(&ck), string_of(&nk), string_of(&cls));
            i += 1;
        }
    }
}

/// Resolving the same property and value twice, for the same identifier and
/// path, leaves the registry as resolving it once: the rule is stored once and
/// the name recorded once.
pub proof fn lemma_resolve_plain_idempotent(
    r: RegistryModel,
    modular: bool,
    path: Seq<char>,
    id: Seq<char>,
    key: Seq<char>,
    v: Seq<char>,
)
    ensures
        resolve_plain(resolve_plain(r, modular, path, id, key, v), modular, path, id, key, v) == resolve_plain(
            r,
            modular,
            path,
            id,
            key,
            v,
        ),
{
    if key.len() > 0 && v.len() > 0 {
        let n = class_name_for(modular, path, key, v, seq![]);
        let f = plain_fragment(n, key, v);
        crate::registry::lemma_append_idempotent(r.properties, key, f);
        crate::registry::lemma_put_name_idempotent(r.names, id, key, v, name_key(), n);
    }
}

/// Resolving the same declaration twice for the same path, when its only
/// property is one plain (non-conditional) pair and it has no children, leaves
/// every rule bucket as resolving it once: the pair adds one fragment, not two.
pub proof fn lemma_process_twice_same_rules(
    r: RegistryModel,
    modular: bool,
    path: Seq<char>,
    decls: Seq<Declaration>,
    key: Seq<char>,
    v: Seq<char>,
)
    requires
        decls.len() == 1,
        values_view(decls[0].properties@) == seq![(key, ValueModel::Leaf(v))],
        decls[0].children@.len() == 0,
        !is_ternary(v),
    ensures
        resolve_all(resolve_all(r, modular, path, decls, 0), modular, path, decls, 0).properties == resolve_all(
            r,
            modular,
            path,
            decls,
            0,
        ).properties,
        resolve_all(resolve_all(r, modular, path, decls, 0), modular, path, decls, 0).pseudo_selectors
            == resolve_all(r, modular, path, decls, 0).pseudo_selectors,
        resolve_all(resolve_all(r, modular, path, decls, 0), modular, path, decls, 0).media_queries
            == resolve_all(r, modular, path, decls, 0).media_queries,
        resolve_all(resolve_all(r, modular, path, decls, 0), modular, path, decls, 0).target_children
            == resolve_all(r, modular, path, decls, 0).target_children,
{
    let id = decls[0].identifier@;
    let props = values_view(decls[0].properties@);
    let kids = values_view(decls[0].children@);
    assert(kids.len() == 0);
    let cls = children_class(modular, path, id);
    assert forall|x: RegistryModel| #[trigger] resolve_declaration(x, modular, path, id, props, kids) == resolve_plain(
        x,
        modular,
        path,
        id,
        key,
        v,
    ).record(id, target_children_key(), cls_key(), name_key(), cls) by {
        assert(props[0] == (key, ValueModel::Leaf(v)));
        assert(resolve_properties(x, modular, path, id, props, 0) == resolve_properties(
            resolve_property(x, modular, path, id, key, ValueModel::Leaf(v)),
            modular,
            path,
            id,
            props,
            1,
        ));
        let y = resolve_properties(x, modular, path, id, props, 0);
        assert(resolve_children(y, cls, kids, 0) == y);
    }
    assert forall|x: RegistryModel| #[trigger] resolve_all(x, modular, path, decls, 0) == resolve_declaration(
        x,
        modular,
        path,
        id,
        props,
        kids,
    ) by {
        let y = resolve_declaration(x, modular, path, id, props, kids);
        assert(resolve_all(y, modular, path, decls, 1) == y);
    }
    if key.len() > 0 && v.len() > 0 {
        let n = class_name_for(modular, path, key, v, seq![]);
        crate::registry::lemma_append_idempotent(r.properties, key, plain_fragment(n, key, v));
    }
}

} // verus!
