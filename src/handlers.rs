//! Target-children handlers: a children key such as
//! `nextSibling(hover, ['div', 'p'], minSmallPhone)` names a relational
//! selector and its parameters; its block of styles becomes one rule.
use vstd::prelude::*;
use crate::cores::{screen_lookup, screen_of, selector_lookup, selector_of};
use crate::pathify::remove_all;
use crate::text::{
    at, blank, find_char, find_from, is_blank, is_whitespace, is_word, is_word_char, lemma_find_from,
    lemma_word_end, matches_at, occurs, push_all, skip_ws, skip_ws_at, slice_chars, unicode_whitespace,
    word_end, word_end_at, starts,
};

verus! {

/// The kinds of target-children handler.
#[derive(PartialEq, Eq, Structural, Clone, Copy)]
pub enum ChildHandler {
    NextSibling,
    SubseqSibling,
    TypeOf,
    DirectChildren,
    AttrStartsWith,
    AttrContains,
    AttrEndsWith,
    NthChild,
    NthOfType,
    Empty,
    Checked,
    Disabled,
    Focus,
    Active,
    Not,
    Visited,
    LastChild,
    FirstChild,
    Descendent,
    HtmlTag,
}

/// The first position after a run of two characters `c1 c2` found at or after `from`, or -1.
pub open spec fn find_pair(s: Seq<char>, from: int, c1: char, c2: char) -> int
    decreases s.len() - from,
{
    if from < 0 || from + 1 >= s.len() {
        -1
    } else if s[from] == c1 && s[from + 1] == c2 {
        from
    } else {
        find_pair(s, from + 1, c1, c2)
    }
}

proof fn lemma_find_pair(s: Seq<char>, from: int, c1: char, c2: char)
    ensures
        find_pair(s, from, c1, c2) == -1 || (from <= find_pair(s, from, c1, c2) && find_pair(s, from, c1, c2) + 1 < s.len()),
    decreases s.len() - from,
{
    if from >= 0 && from + 1 < s.len() && !(s[from] == c1 && s[from + 1] == c2) {
        lemma_find_pair(s, from + 1, c1, c2);
    }
}

fn find_pair_at(s: &Vec<char>, from: usize, c1: char, c2: char) -> (r: Option<usize>)
    ensures
        match r {
            Some(j) => j as int == find_pair(s@, from as int, c1, c2),
            None => find_pair(s@, from as int, c1, c2) == -1,
        },
{
    let mut k: usize = from;
    while k < s.len() && k + 1 < s.len()
        invariant
            from <= k,
            find_pair(s@, from as int, c1, c2) == find_pair(s@, k as int, c1, c2),
        decreases s.len() - k,
    {
        if s[k] == c1 && s[k + 1] == c2 {
            return Some(k);
        }
        k += 1;
    }
    None
}

/// The token of a handler's parameter list at `i`: (end, start of text, end of
/// text); an end equal to `i` means none. `(word,` or `(word)` yields the word;
/// `([...])` and `[...]` yield their contents; a word yields itself; quotes,
/// commas, spaces and parentheses stand alone.
pub open spec fn param_token(s: Seq<char>, i: int) -> (int, int, int) {
    if at(s, i, '(') && i + 1 < s.len() && is_word_char(s[i + 1]) && (at(s, word_end(s, i + 1), ',') || at(
        s,
        word_end(s, i + 1),
        ')',
    )) {
        (word_end(s, i + 1) + 1, i + 1, word_end(s, i + 1))
    } else if at(s, i, '(') && at(s, i + 1, '[') && find_pair(s, i + 2, ']', ')') >= 0 {
        (find_pair(s, i + 2, ']', ')') + 2, i + 2, find_pair(s, i + 2, ']', ')'))
    } else if at(s, i, '[') && find_from(s, i + 1, ']') >= 0 {
        (find_from(s, i + 1, ']') + 1, i + 1, find_from(s, i + 1, ']'))
    } else if is_word_char(s[i]) {
        (word_end(s, i), i, word_end(s, i))
    } else if s[i] == '\'' || s[i] == '"' || s[i] == ',' || s[i] == ' ' || s[i] == '(' || s[i] == ')' {
        (i + 1, i, i + 1)
    } else {
        (i, i, i)
    }
}

proof fn lemma_param_token(s: Seq<char>, i: int)
    requires
        0 <= i < s.len(),
    ensures
        i <= param_token(s, i).0 <= s.len(),
        i <= param_token(s, i).1 <= param_token(s, i).2 <= param_token(s, i).0,
{
    lemma_word_end(s, i);
    if i + 1 <= s.len() {
        lemma_word_end(s, i + 1);
    }
    lemma_find_pair(s, i + 2, ']', ')');
    lemma_find_from(s, i + 1, ']');
}

fn param_token_at(s: &Vec<char>, i: usize) -> (r: (usize, usize, usize))
    requires
        i < s.len(),
    ensures
        r.0 as int == param_token(s@, i as int).0,
        r.1 as int == param_token(s@, i as int).1,
        r.2 as int == param_token(s@, i as int).2,
{
    proof {
        lemma_param_token(s@, i as int);
    }
    let c = s[i];
    if c == '(' && i + 1 < s.len() && is_word(s[i + 1]) {
        let w = word_end_at(s, i + 1);
        if w < s.len() && (s[w] == ',' || s[w] == ')') {
            return (w + 1, i + 1, w);
        }
    }
    if c == '(' && i + 1 < s.len() && s[i + 1] == '[' {
        if let Some(f) = find_pair_at(s, i + 2, ']', ')') {
            return (f + 2, i + 2, f);
        }
    }
    if c == '[' {
        if let Some(f) = find_char(s, i + 1, ']') {
            return (f + 1, i + 1, f);
        }
    }
    if is_word(c) {
        let w = word_end_at(s, i);
        return (w, i, w);
    }
    if c == '\'' || c == '"' || c == ',' || c == ' ' || c == '(' || c == ')' {
        return (i + 1, i, i + 1);
    }
    (i, i, i)
}

/// The end of `t` without its trailing white space, looking back from `j`.
pub open spec fn trail_ws(t: Seq<char>, j: int) -> int
    decreases j,
{
    if 0 < j <= t.len() && unicode_whitespace(t[j - 1]) {
        trail_ws(t, j - 1)
    } else {
        j
    }
}

/// `t` without leading and trailing white space.
pub open spec fn trim(t: Seq<char>) -> Seq<char> {
    let a = skip_ws(t, 0);
    let b = trail_ws(t, t.len() as int);
    if a < b {
        t.subrange(a, b)
    } else {
        seq![]
    }
}

proof fn lemma_skip_ws(s: Seq<char>, e: int)
    requires
        0 <= e,
    ensures
        e <= skip_ws(s, e),
        e <= s.len() ==> skip_ws(s, e) <= s.len(),
    decreases s.len() - e,
{
    if 0 <= e < s.len() && unicode_whitespace(s[e]) {
        lemma_skip_ws(s, e + 1);
    }
}

proof fn lemma_trail_ws(t: Seq<char>, j: int)
    requires
        0 <= j <= t.len(),
    ensures
        0 <= trail_ws(t, j) <= j,
    decreases j,
{
    if 0 < j && unicode_whitespace(t[j - 1]) {
        lemma_trail_ws(t, j - 1);
    }
}

fn trim_x(t: &Vec<char>) -> (r: Vec<char>)
    ensures
        r@ == trim(t@),
{
    let a = skip_ws_at(t, 0);
    proof {
        lemma_skip_ws(t@, 0);
        lemma_trail_ws(t@, t@.len() as int);
    }
    let mut b: usize = t.len();
    while b > 0 && is_whitespace(t[b - 1])
        invariant
            b <= t.len(),
            trail_ws(t@, t@.len() as int) == trail_ws(t@, b as int),
        decreases b,
    {
        b -= 1;
    }
    if a < b {
        slice_chars(t, a, b)
    } else {
        let r: Vec<char> = Vec::new();
        assert(r@ =~= seq![]);
        r
    }
}

/// `t` without its quote characters.
pub open spec fn strip_quotes(t: Seq<char>) -> Seq<char>
    decreases t.len(),
{
    if t.len() == 0 {
        seq![]
    } else if t.last() == '"' || t.last() == '\'' {
        strip_quotes(t.drop_last())
    } else {
        strip_quotes(t.drop_last()).push(t.last())
    }
}

fn strip_quotes_x(t: &Vec<char>) -> (r: Vec<char>)
    ensures
        r@ == strip_quotes(t@),
{
    let mut r: Vec<char> = Vec::new();
    let mut i: usize = 0;
    while i < t.len()
        invariant
            i <= t.len(),
            r@ == strip_quotes(t@.subrange(0, i as int)),
        decreases t.len() - i,
    {
        let c = t[i];
        assert(t@.subrange(0, i + 1).drop_last() =~= t@.subrange(0, i as int));
        if c != '"' && c != '\'' {
            r.push(c);
        }
        i += 1;
    }
    assert(t@.subrange(0, t@.len() as int) =~= t@);
    r
}

/// The comma-separated pieces of `s[i..]`, the current one starting with `cur`;
/// empty pieces are kept.
pub open spec fn pieces(s: Seq<char>, i: int, cur: Seq<char>) -> Seq<Seq<char>>
    decreases s.len() - i,
{
    if i < 0 || i >= s.len() {
        seq![cur]
    } else if s[i] == ',' {
        seq![cur] + pieces(s, i + 1, seq![])
    } else {
        pieces(s, i + 1, cur.push(s[i]))
    }
}

/// The trimmed comma-separated pieces of `s`; there is always at least one.
pub open spec fn split_list(s: Seq<char>) -> Seq<Seq<char>> {
    pieces(s, 0, seq![]).map_values(|p: Seq<char>| trim(p))
}

fn split_list_x(s: &Vec<char>) -> (r: Vec<Vec<char>>)
    ensures
        r@.map_values(|v: Vec<char>| v@) == split_list(s@),
{
    let mut raw: Vec<Vec<char>> = Vec::new();
    let mut cur: Vec<char> = Vec::new();
    let mut i: usize = 0;
    assert(cur@ =~= seq![]);
    while i < s.len()
        invariant
            i <= s.len(),
            raw@.map_values(|v: Vec<char>| v@) + pieces(s@, i as int, cur@) == pieces(s@, 0, seq![]),
        decreases s.len() - i,
    {
        if s[i] == ',' {
            let ghost before = raw@.map_values(|v: Vec<char>| v@);
            let ghost c = cur@;
            raw.push(cur);
            assert(raw@.map_values(|v: Vec<char>| v@) =~= before.push(c));
            assert(before + (seq![c] + pieces(s@, i + 1, seq![])) =~= before.push(c) + pieces(s@, i + 1, seq![]));
            cur = Vec::new();
            assert(cur@ =~= seq![]);
        } else {
            cur.push(s[i]);
        }
        i += 1;
    }
    let ghost before = raw@.map_values(|v: Vec<char>| v@);
    let ghost c = cur@;
    raw.push(cur);
    assert(raw@.map_values(|v: Vec<char>| v@) =~= before.push(c));
    assert(before + seq![c] =~= before.push(c));
    let ghost all = raw@.map_values(|v: Vec<char>| v@);
    let mut r: Vec<Vec<char>> = Vec::new();
    let mut k: usize = 0;
    while k < raw.len()
        invariant
            k <= raw.len(),
            all == raw@.map_values(|v: Vec<char>| v@),
            r@.map_values(|v: Vec<char>| v@) == all.subrange(0, k as int).map_values(|p: Seq<char>| trim(p)),
        decreases raw.len() - k,
    {
        let ghost before_r = r@.map_values(|v: Vec<char>| v@);
        let t = trim_x(&raw[k]);
        assert(all[k as int] == raw@[k as int]@);
        let ghost tv = t@;
        r.push(t);
        assert(r@.map_values(|v: Vec<char>| v@) =~= before_r.push(tv));
        assert(all.subrange(0, k + 1).map_values(|p: Seq<char>| trim(p)) =~= all.subrange(0, k as int).map_values(
            |p: Seq<char>| trim(p),
        ).push(trim(all[k as int])));
        assert(r@.map_values(|v: Vec<char>| v@) =~= all.subrange(0, k + 1).map_values(|p: Seq<char>| trim(p)));
        k += 1;
    }
    assert(all.subrange(0, all.len() as int) =~= all);
    r
}

/// The parameters read from `s[i..]`: the first, the raw second, the third.
pub open spec fn params_scan(s: Seq<char>, i: int, first: Seq<char>, second: Seq<char>, third: Seq<char>) -> (Seq<char>, Seq<char>, Seq<char>)
    decreases s.len() - i,
{
    if i < 0 || i >= s.len() {
        (first, second, third)
    } else {
        let t = param_token(s, i);
        if !(i < t.0 <= s.len()) {
            (first, second, third)
        } else {
            let r = s.subrange(t.1, t.2);
            let comma = occurs(r, seq![',']);
            let quote = occurs(r, seq!['\'']) || occurs(r, seq!['"']);
            if blank(r) {
                params_scan(s, t.0, first, second, third)
            } else if !comma && !quote && first.len() == 0 {
                params_scan(s, t.0, trim(r), second, third)
            } else if quote {
                params_scan(s, t.0, first, strip_quotes(r), third)
            } else if first.len() > 0 && !comma && !occurs(r, seq!['(']) && !occurs(r, seq![')']) {
                params_scan(s, t.0, first, second, trim(r))
            } else {
                params_scan(s, t.0, first, second, third)
            }
        }
    }
}

/// The parameters of a handler: a first identifier (a lone `(` counts as none),
/// the list of the bracketed second parameter, and a trailing identifier.
pub open spec fn params_of(s: Seq<char>) -> (Seq<char>, Seq<Seq<char>>, Seq<char>) {
    let p = params_scan(s, 0, seq![], seq![], seq![]);
    (if p.0 == seq!['('] {
        seq![]
    } else {
        p.0
    }, split_list(p.1), p.2)
}

fn has_char(t: &Vec<char>, c: char) -> (r: bool)
    ensures
        r == occurs(t@, seq![c]),
{
    let v = vec![c];
    assert(v@ =~= seq![c]);
    crate::text::contains_seq(t, &v)
}

/// Reads the parameters of a handler.
pub fn collects_properties(s: &Vec<char>) -> (r: (Vec<char>, Vec<Vec<char>>, Vec<char>))
    ensures
        r.0@ == params_of(s@).0,
        r.1@.map_values(|v: Vec<char>| v@) == params_of(s@).1,
        r.2@ == params_of(s@).2,
{
    let mut first: Vec<char> = Vec::new();
    let mut second: Vec<char> = Vec::new();
    let mut third: Vec<char> = Vec::new();
    assert(first@ =~= seq![]);
    assert(second@ =~= seq![]);
    assert(third@ =~= seq![]);
    let mut i: usize = 0;
    while i < s.len()
        invariant
            i <= s.len(),
            params_scan(s@, 0, seq![], seq![], seq![]) == params_scan(s@, i as int, first@, second@, third@),
        decreases s.len() - i,
    {
        proof {
            lemma_param_token(s@, i as int);
        }
        let (e, a, b) = param_token_at(s, i);
        if e == i {
            i = s.len();
            continue;
        }
        let r = slice_chars(s, a, b);
        let comma = has_char(&r, ',');
        let quote = has_char(&r, '\'') || has_char(&r, '"');
        if is_blank(&r) {
        } else if !comma && !quote && first.len() == 0 {
            first = trim_x(&r);
        } else if quote {
            second = strip_quotes_x(&r);
        } else if first.len() > 0 && !comma && !has_char(&r, '(') && !has_char(&r, ')') {
            third = trim_x(&r);
        }
        i = e;
    }
    if first.len() == 1 && first[0] == '(' {
        assert(first@ =~= seq!['(']);
        first = Vec::new();
        assert(first@ =~= seq![]);
    } else {
        assert(first@ != seq!['(']) by {
            if first@ == seq!['('] {
                assert(first@.len() == 1 && first@[0] == '(');
            }
        }
    }
    (first, split_list_x(&second), third)
}

/// The name that opens a key of each prefixed handler.
pub open spec fn handler_name(h: ChildHandler) -> Seq<char> {
    match h {
        ChildHandler::NextSibling => seq!['n', 'e', 'x', 't', 'S', 'i', 'b', 'l', 'i', 'n', 'g'],
        ChildHandler::SubseqSibling => seq!['s', 'u', 'b', 's', 'e', 'q', 'S', 'i', 'b', 'l', 'i', 'n', 'g'],
        ChildHandler::TypeOf => seq!['t', 'y', 'p', 'e', 'O', 'f'],
        ChildHandler::DirectChildren => seq!['d', 'i', 'r', 'e', 'c', 't', 'C', 'h', 'i', 'l', 'd', 'r', 'e', 'n'],
        ChildHandler::AttrStartsWith => seq!['a', 't', 't', 'r', 'S', 't', 'a', 'r', 't', 's', 'W', 'i', 't', 'h'],
        ChildHandler::AttrContains => seq!['a', 't', 't', 'r', 'C', 'o', 'n', 't', 'a', 'i', 'n', 's'],
        ChildHandler::AttrEndsWith => seq!['a', 't', 't', 'r', 'E', 'n', 'd', 's', 'W', 'i', 't', 'h'],
        ChildHandler::NthChild => seq!['n', 't', 'h', 'C', 'h', 'i', 'l', 'd'],
        ChildHandler::NthOfType => seq!['n', 't', 'h', 'O', 'f', 'T', 'y', 'p', 'e'],
        ChildHandler::Empty => seq!['e', 'm', 'p', 't', 'y'],
        ChildHandler::Checked => seq!['c', 'h', 'e', 'c', 'k', 'e', 'd'],
        ChildHandler::Disabled => seq!['d', 'i', 's', 'a', 'b', 'l', 'e', 'd'],
        ChildHandler::Focus => seq!['f', 'o', 'c', 'u', 's'],
        ChildHandler::Active => seq!['a', 'c', 't', 'i', 'v', 'e'],
        ChildHandler::Not => seq!['n', 'o', 't'],
        ChildHandler::Visited => seq!['v', 'i', 's', 'i', 't', 'e', 'd'],
        ChildHandler::LastChild => seq!['l', 'a', 's', 't', 'C', 'h', 'i', 'l', 'd'],
        ChildHandler::FirstChild => seq!['f', 'i', 'r', 's', 't', 'C', 'h', 'i', 'l', 'd'],
        _ => seq![],
    }
}

/// The separator, pseudo-class or function name that a handler writes.
pub open spec fn handler_text(h: ChildHandler) -> Seq<char> {
    match h {
        ChildHandler::NextSibling => seq![' ', '+', ' '],
        ChildHandler::SubseqSibling => seq![' ', '~', ' '],
        ChildHandler::DirectChildren => seq![' ', '>', ' '],
        ChildHandler::Descendent => seq![' '],
        ChildHandler::TypeOf => seq!['='],
        ChildHandler::AttrStartsWith => seq!['^', '='],
        ChildHandler::AttrContains => seq!['*', '='],
        ChildHandler::AttrEndsWith => seq!['$', '='],
        ChildHandler::NthChild => seq!['n', 't', 'h', '-', 'c', 'h', 'i', 'l', 'd'],
        ChildHandler::NthOfType => seq!['n', 't', 'h', '-', 'o', 'f', '-', 't', 'y', 'p', 'e'],
        ChildHandler::Not => seq!['n', 'o', 't'],
        ChildHandler::Empty => seq!['e', 'm', 'p', 't', 'y'],
        ChildHandler::Checked => seq!['c', 'h', 'e', 'c', 'k', 'e', 'd'],
        ChildHandler::Disabled => seq!['d', 'i', 's', 'a', 'b', 'l', 'e', 'd'],
        ChildHandler::Focus => seq!['f', 'o', 'c', 'u', 's'],
        ChildHandler::Active => seq!['a', 'c', 't', 'i', 'v', 'e'],
        ChildHandler::Visited => seq!['v', 'i', 's', 'i', 't', 'e', 'd'],
        ChildHandler::LastChild => seq!['l', 'a', 's', 't', '-', 'c', 'h', 'i', 'l', 'd'],
        ChildHandler::FirstChild => seq!['f', 'i', 'r', 's', 't', '-', 'c', 'h', 'i', 'l', 'd'],
        ChildHandler::HtmlTag => seq![],
    }
}

/// The handler that a children key names, by its leading name; a key in
/// parentheses is a descendant list, and any other key is an HTML tag.
pub open spec fn classify(key: Seq<char>) -> ChildHandler {
    if starts(key, seq!['n', 'e', 'x', 't', 'S', 'i', 'b', 'l', 'i', 'n', 'g']) {
        ChildHandler::NextSibling
    } else if starts(key, seq!['s', 'u', 'b', 's', 'e', 'q', 'S', 'i', 'b', 'l', 'i', 'n', 'g']) {
        ChildHandler::SubseqSibling
    } else if starts(key, seq!['t', 'y', 'p', 'e', 'O', 'f']) {
        ChildHandler::TypeOf
    } else if starts(key, seq!['d', 'i', 'r', 'e', 'c', 't', 'C', 'h', 'i', 'l', 'd', 'r', 'e', 'n']) {
        ChildHandler::DirectChildren
    } else if starts(key, seq!['a', 't', 't', 'r', 'S', 't', 'a', 'r', 't', 's', 'W', 'i', 't', 'h']) {
        ChildHandler::AttrStartsWith
    } else if starts(key, seq!['a', 't', 't', 'r', 'C', 'o', 'n', 't', 'a', 'i', 'n', 's']) {
        ChildHandler::AttrContains
    } else if starts(key, seq!['a', 't', 't', 'r', 'E', 'n', 'd', 's', 'W', 'i', 't', 'h']) {
        ChildHandler::AttrEndsWith
    } else if starts(key, seq!['n', 't', 'h', 'C', 'h', 'i', 'l', 'd']) {
        ChildHandler::NthChild
    } else if starts(key, seq!['n', 't', 'h', 'O', 'f', 'T', 'y', 'p', 'e']) {
        ChildHandler::NthOfType
    } else if starts(key, seq!['e', 'm', 'p', 't', 'y']) {
        ChildHandler::Empty
    } else if starts(key, seq!['c', 'h', 'e', 'c', 'k', 'e', 'd']) {
        ChildHandler::Checked
    } else if starts(key, seq!['d', 'i', 's', 'a', 'b', 'l', 'e', 'd']) {
        ChildHandler::Disabled
    } else if starts(key, seq!['f', 'o', 'c', 'u', 's']) {
        ChildHandler::Focus
    } else if starts(key, seq!['a', 'c', 't', 'i', 'v', 'e']) {
        ChildHandler::Active
    } else if starts(key, seq!['n', 'o', 't']) {
        ChildHandler::Not
    } else if starts(key, seq!['v', 'i', 's', 'i', 't', 'e', 'd']) {
        ChildHandler::Visited
    } else if starts(key, seq!['l', 'a', 's', 't', 'C', 'h', 'i', 'l', 'd']) {
        ChildHandler::LastChild
    } else if starts(key, seq!['f', 'i', 'r', 's', 't', 'C', 'h', 'i', 'l', 'd']) {
        ChildHandler::FirstChild
    } else if key.len() > 0 && key[0] == '(' && key.last() == ')' {
        ChildHandler::Descendent
    } else {
        ChildHandler::HtmlTag
    }
}

fn handler_name_x(h: ChildHandler) -> (r: Vec<char>)
    ensures
        r@ == handler_name(h),
{
    match h {
        ChildHandler::NextSibling => {
            let v = vec!['n', 'e', 'x', 't', 'S', 'i', 'b', 'l', 'i', 'n', 'g'];
            assert(v@ =~= seq!['n', 'e', 'x', 't', 'S', 'i', 'b', 'l', 'i', 'n', 'g']);
            v
        },
        ChildHandler::SubseqSibling => {
            let v = vec!['s', 'u', 'b', 's', 'e', 'q', 'S', 'i', 'b', 'l', 'i', 'n', 'g'];
            assert(v@ =~= seq!['s', 'u', 'b', 's', 'e', 'q', 'S', 'i', 'b', 'l', 'i', 'n', 'g']);
            v
        },
        ChildHandler::TypeOf => {
            let v = vec!['t', 'y', 'p', 'e', 'O', 'f'];
            assert(v@ =~= seq!['t', 'y', 'p', 'e', 'O', 'f']);
            v
        },
        ChildHandler::DirectChildren => {
            let v = vec!['d', 'i', 'r', 'e', 'c', 't', 'C', 'h', 'i', 'l', 'd', 'r', 'e', 'n'];
            assert(v@ =~= seq!['d', 'i', 'r', 'e', 'c', 't', 'C', 'h', 'i', 'l', 'd', 'r', 'e', 'n']);
            v
        },
        ChildHandler::AttrStartsWith => {
            let v = vec!['a', 't', 't', 'r', 'S', 't', 'a', 'r', 't', 's', 'W', 'i', 't', 'h'];
            assert(v@ =~= seq!['a', 't', 't', 'r', 'S', 't', 'a', 'r', 't', 's', 'W', 'i', 't', 'h']);
            v
        },
        ChildHandler::AttrContains => {
            let v = vec!['a', 't', 't', 'r', 'C', 'o', 'n', 't', 'a', 'i', 'n', 's'];
            assert(v@ =~= seq!['a', 't', 't', 'r', 'C', 'o', 'n', 't', 'a', 'i', 'n', 's']);
            v
        },
        ChildHandler::AttrEndsWith => {
            let v = vec!['a', 't', 't', 'r', 'E', 'n', 'd', 's', 'W', 'i', 't', 'h'];
            assert(v@ =~= seq!['a', 't', 't', 'r', 'E', 'n', 'd', 's', 'W', 'i', 't', 'h']);
            v
        },
        ChildHandler::NthChild => {
            let v = vec!['n', 't', 'h', 'C', 'h', 'i', 'l', 'd'];
            assert(v@ =~= seq!['n', 't', 'h', 'C', 'h', 'i', 'l', 'd']);
            v
        },
        ChildHandler::NthOfType => {
            let v = vec!['n', 't', 'h', 'O', 'f', 'T', 'y', 'p', 'e'];
            assert(v@ =~= seq!['n', 't', 'h', 'O', 'f', 'T', 'y', 'p', 'e']);
            v
        },
        ChildHandler::Empty => {
            let v = vec!['e', 'm', 'p', 't', 'y'];
            assert(v@ =~= seq!['e', 'm', 'p', 't', 'y']);
            v
        },
        ChildHandler::Checked => {
            let v = vec!['c', 'h', 'e', 'c', 'k', 'e', 'd'];
            assert(v@ =~= seq!['c', 'h', 'e', 'c', 'k', 'e', 'd']);
            v
        },
        ChildHandler::Disabled => {
            let v = vec!['d', 'i', 's', 'a', 'b', 'l', 'e', 'd'];
            assert(v@ =~= seq!['d', 'i', 's', 'a', 'b', 'l', 'e', 'd']);
            v
        },
        ChildHandler::Focus => {
            let v = vec!['f', 'o', 'c', 'u', 's'];
            assert(v@ =~= seq!['f', 'o', 'c', 'u', 's']);
            v
        },
        ChildHandler::Active => {
            let v = vec!['a', 'c', 't', 'i', 'v', 'e'];
            assert(v@ =~= seq!['a', 'c', 't', 'i', 'v', 'e']);
            v
        },
        ChildHandler::Not => {
            let v = vec!['n', 'o', 't'];
            assert(v@ =~= seq!['n', 'o', 't']);
            v
        },
        ChildHandler::Visited => {
            let v = vec!['v', 'i', 's', 'i', 't', 'e', 'd'];
            assert(v@ =~= seq!['v', 'i', 's', 'i', 't', 'e', 'd']);
            v
        },
        ChildHandler::LastChild => {
            let v = vec!['l', 'a', 's', 't', 'C', 'h', 'i', 'l', 'd'];
            assert(v@ =~= seq!['l', 'a', 's', 't', 'C', 'h', 'i', 'l', 'd']);
            v
        },
        ChildHandler::FirstChild => {
            let v = vec!['f', 'i', 'r', 's', 't', 'C', 'h', 'i', 'l', 'd'];
            assert(v@ =~= seq!['f', 'i', 'r', 's', 't', 'C', 'h', 'i', 'l', 'd']);
            v
        },
        _ => {
            let v: Vec<char> = Vec::new();
            assert(v@ =~= seq![]);
            v
        },
    }
}

fn handler_text_x(h: ChildHandler) -> (r: Vec<char>)
    ensures
        r@ == handler_text(h),
{
    match h {
        ChildHandler::NextSibling => {
            let v = vec![' ', '+', ' '];
            assert(v@ =~= seq![' ', '+', ' ']);
            v
        },
        ChildHandler::SubseqSibling => {
            let v = vec![' ', '~', ' '];
            assert(v@ =~= seq![' ', '~', ' ']);
            v
        },
        ChildHandler::DirectChildren => {
            let v = vec![' ', '>', ' '];
            assert(v@ =~= seq![' ', '>', ' ']);
            v
        },
        ChildHandler::Descendent => {
            let v = vec![' '];
            assert(v@ =~= seq![' ']);
            v
        },
        ChildHandler::TypeOf => {
            let v = vec!['='];
            assert(v@ =~= seq!['=']);
            v
        },
        ChildHandler::AttrStartsWith => {
            let v = vec!['^', '='];
            assert(v@ =~= seq!['^', '=']);
            v
        },
        ChildHandler::AttrContains => {
            let v = vec!['*', '='];
            assert(v@ =~= seq!['*', '=']);
            v
        },
        ChildHandler::AttrEndsWith => {
            let v = vec!['$', '='];
            assert(v@ =~= seq!['$', '=']);
            v
        },
        ChildHandler::NthChild => {
            let v = vec!['n', 't', 'h', '-', 'c', 'h', 'i', 'l', 'd'];
            assert(v@ =~= seq!['n', 't', 'h', '-', 'c', 'h', 'i', 'l', 'd']);
            v
        },
        ChildHandler::NthOfType => {
            let v = vec!['n', 't', 'h', '-', 'o', 'f', '-', 't', 'y', 'p', 'e'];
            assert(v@ =~= seq!['n', 't', 'h', '-', 'o', 'f', '-', 't', 'y', 'p', 'e']);
            v
        },
        ChildHandler::Not => {
            let v = vec!['n', 'o', 't'];
            assert(v@ =~= seq!['n', 'o', 't']);
            v
        },
        ChildHandler::Empty => {
            let v = vec!['e', 'm', 'p', 't', 'y'];
            assert(v@ =~= seq!['e', 'm', 'p', 't', 'y']);
            v
        },
        ChildHandler::Checked => {
            let v = vec!['c', 'h', 'e', 'c', 'k', 'e', 'd'];
            assert(v@ =~= seq!['c', 'h', 'e', 'c', 'k', 'e', 'd']);
            v
        },
        ChildHandler::Disabled => {
            let v = vec!['d', 'i', 's', 'a', 'b', 'l', 'e', 'd'];
            assert(v@ =~= seq!['d', 'i', 's', 'a', 'b', 'l', 'e', 'd']);
            v
        },
        ChildHandler::Focus => {
            let v = vec!['f', 'o', 'c', 'u', 's'];
            assert(v@ =~= seq!['f', 'o', 'c', 'u', 's']);
            v
        },
        ChildHandler::Active => {
            let v = vec!['a', 'c', 't', 'i', 'v', 'e'];
            assert(v@ =~= seq!['a', 'c', 't', 'i', 'v', 'e']);
            v
        },
        ChildHandler::Visited => {
            let v = vec!['v', 'i', 's', 'i', 't', 'e', 'd'];
            assert(v@ =~= seq!['v', 'i', 's', 'i', 't', 'e', 'd']);
            v
        },
        ChildHandler::LastChild => {
            let v = vec!['l', 'a', 's', 't', '-', 'c', 'h', 'i', 'l', 'd'];
            assert(v@ =~= seq!['l', 'a', 's', 't', '-', 'c', 'h', 'i', 'l', 'd']);
            v
        },
        ChildHandler::FirstChild => {
            let v = vec!['f', 'i', 'r', 's', 't', '-', 'c', 'h', 'i', 'l', 'd'];
            assert(v@ =~= seq!['f', 'i', 'r', 's', 't', '-', 'c', 'h', 'i', 'l', 'd']);
            v
        },
        ChildHandler::HtmlTag => {
            let v: Vec<char> = Vec::new();
            assert(v@ =~= seq![]);
            v
        },
    }
}

/// Classifies a children key.
pub fn classify_x(key: &Vec<char>) -> (r: ChildHandler)
    ensures
        r == classify(key@),
{
    let v = vec!['n', 'e', 'x', 't', 'S', 'i', 'b', 'l', 'i', 'n', 'g'];
    assert(v@ =~= seq!['n', 'e', 'x', 't', 'S', 'i', 'b', 'l', 'i', 'n', 'g']);
    if matches_at(key, 0, &v) {
        return ChildHandler::NextSibling;
    }
    let v = vec!['s', 'u', 'b', 's', 'e', 'q', 'S', 'i', 'b', 'l', 'i', 'n', 'g'];
    assert(v@ =~= seq!['s', 'u', 'b', 's', 'e', 'q', 'S', 'i', 'b', 'l', 'i', 'n', 'g']);
    if matches_at(key, 0, &v) {
        return ChildHandler::SubseqSibling;
    }
    let v = vec!['t', 'y', 'p', 'e', 'O', 'f'];
    assert(v@ =~= seq!['t', 'y', 'p', 'e', 'O', 'f']);
    if matches_at(key, 0, &v) {
        return ChildHandler::TypeOf;
    }
    let v = vec!['d', 'i', 'r', 'e', 'c', 't', 'C', 'h', 'i', 'l', 'd', 'r', 'e', 'n'];
    assert(v@ =~= seq!['d', 'i', 'r', 'e', 'c', 't', 'C', 'h', 'i', 'l', 'd', 'r', 'e', 'n']);
    if matches_at(key, 0, &v) {
        return ChildHandler::DirectChildren;
    }
    let v = vec!['a', 't', 't', 'r', 'S', 't', 'a', 'r', 't', 's', 'W', 'i', 't', 'h'];
    assert(v@ =~= seq!['a', 't', 't', 'r', 'S', 't', 'a', 'r', 't', 's', 'W', 'i', 't', 'h']);
    if matches_at(key, 0, &v) {
        return ChildHandler::AttrStartsWith;
    }
    let v = vec!['a', 't', 't', 'r', 'C', 'o', 'n', 't', 'a', 'i', 'n', 's'];
    assert(v@ =~= seq!['a', 't', 't', 'r', 'C', 'o', 'n', 't', 'a', 'i', 'n', 's']);
    if matches_at(key, 0, &v) {
        return ChildHandler::AttrContains;
    }
    let v = vec!['a', 't', 't', 'r', 'E', 'n', 'd', 's', 'W', 'i', 't', 'h'];
    assert(v@ =~= seq!['a', 't', 't', 'r', 'E', 'n', 'd', 's', 'W', 'i', 't', 'h']);
    if matches_at(key, 0, &v) {
        return ChildHandler::AttrEndsWith;
    }
    let v = vec!['n', 't', 'h', 'C', 'h', 'i', 'l', 'd'];
    assert(v@ =~= seq!['n', 't', 'h', 'C', 'h', 'i', 'l', 'd']);
    if matches_at(key, 0, &v) {
        return ChildHandler::NthChild;
    }
    let v = vec!['n', 't', 'h', 'O', 'f', 'T', 'y', 'p', 'e'];
    assert(v@ =~= seq!['n', 't', 'h', 'O', 'f', 'T', 'y', 'p', 'e']);
    if matches_at(key, 0, &v) {
        return ChildHandler::NthOfType;
    }
    let v = vec!['e', 'm', 'p', 't', 'y'];
    assert(v@ =~= seq!['e', 'm', 'p', 't', 'y']);
    if matches_at(key, 0, &v) {
        return ChildHandler::Empty;
    }
    let v = vec!['c', 'h', 'e', 'c', 'k', 'e', 'd'];
    assert(v@ =~= seq!['c', 'h', 'e', 'c', 'k', 'e', 'd']);
    if matches_at(key, 0, &v) {
        return ChildHandler::Checked;
    }
    let v = vec!['d', 'i', 's', 'a', 'b', 'l', 'e', 'd'];
    assert(v@ =~= seq!['d', 'i', 's', 'a', 'b', 'l', 'e', 'd']);
    if matches_at(key, 0, &v) {
        return ChildHandler::Disabled;
    }
    let v = vec!['f', 'o', 'c', 'u', 's'];
    assert(v@ =~= seq!['f', 'o', 'c', 'u', 's']);
    if matches_at(key, 0, &v) {
        return ChildHandler::Focus;
    }
    let v = vec!['a', 'c', 't', 'i', 'v', 'e'];
    assert(v@ =~= seq!['a', 'c', 't', 'i', 'v', 'e']);
    if matches_at(key, 0, &v) {
        return ChildHandler::Active;
    }
    let v = vec!['n', 'o', 't'];
    assert(v@ =~= seq!['n', 'o', 't']);
    if matches_at(key, 0, &v) {
        return ChildHandler::Not;
    }
    let v = vec!['v', 'i', 's', 'i', 't', 'e', 'd'];
    assert(v@ =~= seq!['v', 'i', 's', 'i', 't', 'e', 'd']);
    if matches_at(key, 0, &v) {
        return ChildHandler::Visited;
    }
    let v = vec!['l', 'a', 's', 't', 'C', 'h', 'i', 'l', 'd'];
    assert(v@ =~= seq!['l', 'a', 's', 't', 'C', 'h', 'i', 'l', 'd']);
    if matches_at(key, 0, &v) {
        return ChildHandler::LastChild;
    }
    let v = vec!['f', 'i', 'r', 's', 't', 'C', 'h', 'i', 'l', 'd'];
    assert(v@ =~= seq!['f', 'i', 'r', 's', 't', 'C', 'h', 'i', 'l', 'd']);
    if matches_at(key, 0, &v) {
        return ChildHandler::FirstChild;
    }
    if key.len() > 0 && key[0] == '(' && key[key.len() - 1] == ')' {
        ChildHandler::Descendent
    } else {
        ChildHandler::HtmlTag
    }
}

/// Parts joined with a separator.
pub open spec fn join_sep(parts: Seq<Seq<char>>, sep: Seq<char>) -> Seq<char>
    decreases parts.len(),
{
    if parts.len() == 0 {
        seq![]
    } else if parts.len() == 1 {
        parts[0]
    } else {
        join_sep(parts.drop_last(), sep) + sep + parts.last()
    }
}

pub fn join_sep_x(parts: &Vec<Vec<char>>, sep: &Vec<char>) -> (r: Vec<char>)
    ensures
        r@ == join_sep(parts@.map_values(|v: Vec<char>| v@), sep@),
{
    let ghost all = parts@.map_values(|v: Vec<char>| v@);
    let mut r: Vec<char> = Vec::new();
    let mut k: usize = 0;
    assert(all.take(0) =~= seq![]);
    while k < parts.len()
        invariant
            k <= parts.len(),
            all == parts@.map_values(|v: Vec<char>| v@),
            r@ == join_sep(all.take(k as int), sep@),
        decreases parts.len() - k,
    {
        let ghost before = r@;
        if k > 0 {
            push_all(&mut r, sep);
        }
        push_all(&mut r, &parts[k]);
        assert(all.take(k + 1).drop_last() =~= all.take(k as int));
        assert(all[k as int] == parts@[k as int]@);
        if k > 0 {
            assert(r@ =~= before + sep@ + all[k as int]);
        } else {
            assert(r@ =~= all[k as int]);
        }
        k += 1;
    }
    assert(all.take(all.len() as int) =~= all);
    r
}

/// Whether a value may stand in a children rule: not a conditional.
pub open spec fn plain_style_value(v: Seq<char>) -> bool {
    !occurs(v, seq!['$', '{']) && !occurs(v, seq!['}'])
}

/// The `property:value` items of a block from position `i` on, skipping empty
/// properties or values and conditional values.
pub open spec fn style_items(entries: Seq<(Seq<char>, Seq<char>)>, i: int) -> Seq<Seq<char>>
    decreases entries.len() - i,
{
    if i < 0 || i >= entries.len() {
        seq![]
    } else if entries[i].0.len() > 0 && entries[i].1.len() > 0 && plain_style_value(entries[i].1) {
        seq![entries[i].0 + seq![':'] + entries[i].1] + style_items(entries, i + 1)
    } else {
        style_items(entries, i + 1)
    }
}

/// The declaration block `{color:red;margin:0}` of a children rule, or empty when no item remains.
pub open spec fn styles_block(entries: Seq<(Seq<char>, Seq<char>)>) -> Seq<char> {
    let items = style_items(entries, 0);
    if items.len() > 0 {
        seq!['{'] + join_sep(items, seq![';']) + seq!['}']
    } else {
        seq![]
    }
}

fn styles_block_x(entries: &Vec<(String, String)>) -> (r: Vec<char>)
    ensures
        r@ == styles_block(crate::entries::pairs_view(entries@)),
{
    let ghost ev = crate::entries::pairs_view(entries@);
    let mut items: Vec<Vec<char>> = Vec::new();
    let mut i: usize = 0;
    let open = vec!['$', '{'];
    assert(open@ =~= seq!['$', '{']);
    let close = vec!['}'];
    assert(close@ =~= seq!['}']);
    assert(items@.map_values(|v: Vec<char>| v@) + style_items(ev, 0) =~= style_items(ev, 0));
    while i < entries.len()
        invariant
            i <= entries.len(),
            ev == crate::entries::pairs_view(entries@),
            open@ == seq!['$', '{'],
            close@ == seq!['}'],
            items@.map_values(|v: Vec<char>| v@) + style_items(ev, i as int) == style_items(ev, 0),
        decreases entries.len() - i,
    {
        let p = crate::text::chars_of(entries[i].0.as_str());
        let v = crate::text::chars_of(entries[i].1.as_str());
        assert(ev[i as int] == (p@, v@));
        if p.len() > 0 && v.len() > 0 && !crate::text::contains_seq(&v, &open) && !crate::text::contains_seq(&v, &close) {
            let mut item = p;
            item.push(':');
            push_all(&mut item, &v);
            let ghost before = items@.map_values(|x: Vec<char>| x@);
            let ghost iv = item@;
            assert(iv =~= p@ + seq![':'] + v@);
            items.push(item);
            assert(items@.map_values(|x: Vec<char>| x@) =~= before.push(iv));
            assert(before + (seq![iv] + style_items(ev, i + 1)) =~= before.push(iv) + style_items(ev, i + 1));
        }
        i += 1;
    }
    assert(items@.map_values(|v: Vec<char>| v@) + style_items(ev, i as int) =~= items@.map_values(|v: Vec<char>| v@));
    if items.len() > 0 {
        let semi = vec![';'];
        assert(semi@ =~= seq![';']);
        let mut r = vec!['{'];
        push_all(&mut r, &join_sep_x(&items, &semi));
        r.push('}');
        assert(r@ =~= seq!['{'] + join_sep(style_items(ev, 0), seq![';']) + seq!['}']);
        r
    } else {
        let r: Vec<char> = Vec::new();
        assert(r@ =~= seq![]);
        r
    }
}

/// The CSS text of a pseudo-selector name, or nothing for an unknown one.
pub open spec fn selector_text(name: Seq<char>) -> Seq<char> {
    match selector_of(name) {
        Some(s) => s,
        None => seq![],
    }
}

pub open spec fn is_array_kind(h: ChildHandler) -> bool {
    h == ChildHandler::NextSibling || h == ChildHandler::SubseqSibling || h == ChildHandler::DirectChildren
        || h == ChildHandler::Descendent
}

pub open spec fn is_tag_kind(h: ChildHandler) -> bool {
    h == ChildHandler::Empty || h == ChildHandler::Checked || h == ChildHandler::Disabled || h
        == ChildHandler::Focus || h == ChildHandler::Active || h == ChildHandler::Visited || h
        == ChildHandler::LastChild || h == ChildHandler::FirstChild
}

pub open spec fn is_attr_kind(h: ChildHandler) -> bool {
    h == ChildHandler::AttrStartsWith || h == ChildHandler::AttrContains || h == ChildHandler::AttrEndsWith
}

/// The selector and block of a handler with parameters `first`, `list`, or none
/// when a required parameter is missing:
/// lists give `a + b`, `a ~ b`, `a > b` or `a b` followed by the pseudo-selector;
/// tags give `tag:pseudo`; attributes give `tag[attr^='val'] `; functions give
/// `tag:nth-child(n)`; a bare tag gives itself.
pub open spec fn handler_css(h: ChildHandler, first: Seq<char>, list: Seq<Seq<char>>, styles: Seq<char>) -> Option<Seq<char>> {
    let t = handler_text(h);
    if is_array_kind(h) {
        if list.len() > 0 && list[0].len() > 0 {
            Some(join_sep(list, t) + selector_text(first) + styles)
        } else {
            None
        }
    } else if h == ChildHandler::HtmlTag {
        if first.len() > 0 {
            Some(first + styles)
        } else {
            None
        }
    } else if is_tag_kind(h) {
        if first.len() > 0 {
            Some(first + seq![':'] + t + styles)
        } else {
            None
        }
    } else if h == ChildHandler::TypeOf {
        if first.len() > 0 && list.len() > 0 && list[0].len() > 0 {
            Some(first + seq!['[', 't', 'y', 'p', 'e'] + t + seq!['\''] + list[0] + seq!['\'', ']', ' '] + styles)
        } else {
            None
        }
    } else if is_attr_kind(h) {
        if first.len() > 0 && list.len() > 1 && list[0].len() > 0 && list[1].len() > 0 {
            Some(first + seq!['['] + list[0] + t + seq!['\''] + list[1] + seq!['\'', ']', ' '] + styles)
        } else {
            None
        }
    } else {
        if first.len() > 0 && list.len() > 0 && list[0].len() > 0 {
            Some(first + seq![':'] + t + seq!['('] + list[0] + seq![')'] + styles)
        } else {
            None
        }
    }
}

/// The parameter text of a key: without the handler's name, or the whole key
/// for a descendant list or a bare tag.
pub open spec fn controller(key: Seq<char>, h: ChildHandler) -> Seq<char> {
    if h == ChildHandler::Descendent || h == ChildHandler::HtmlTag {
        key
    } else {
        remove_all(key, handler_name(h))
    }
}

/// The rule of a children entry: the breakpoint it is under (when its last
/// parameter names one) and its selector with its block. None when the block has
/// no usable item or a required parameter is missing.
pub open spec fn child_rule(key: Seq<char>, entries: Seq<(Seq<char>, Seq<char>)>) -> Option<(Option<Seq<char>>, Seq<char>)> {
    let h = classify(key);
    let params = params_of(controller(key, h));
    let styles = styles_block(entries);
    let media = if screen_of(params.2).is_some() {
        Some(params.2)
    } else {
        None
    };
    if styles.len() == 0 {
        None
    } else {
        match handler_css(h, params.0, params.1, styles) {
            Some(css) => Some((media, css)),
            None => None,
        }
    }
}

fn cat(a: &Vec<char>, b: &Vec<char>) -> (r: Vec<char>)
    ensures
        r@ == a@ + b@,
{
    let mut r = slice_chars(a, 0, a.len());
    assert(a@.subrange(0, a@.len() as int) =~= a@);
    push_all(&mut r, b);
    r
}

fn handler_css_x(h: ChildHandler, first: &Vec<char>, list: &Vec<Vec<char>>, styles: &Vec<char>) -> (r: Option<Vec<char>>)
    ensures
        match r {
            Some(c) => handler_css(h, first@, list@.map_values(|v: Vec<char>| v@), styles@) == Some(c@),
            None => handler_css(h, first@, list@.map_values(|v: Vec<char>| v@), styles@).is_none(),
        },
{
    let ghost lv = list@.map_values(|v: Vec<char>| v@);
    let t = handler_text_x(h);
    let l0 = list.len() > 0 && list[0].len() > 0;
    assert(l0 == (lv.len() > 0 && lv[0].len() > 0)) by {
        if list.len() > 0 {
            assert(lv[0] == list@[0]@);
        }
    }
    let l1 = list.len() > 1 && list[1].len() > 0;
    assert(l1 == (lv.len() > 1 && lv[1].len() > 0)) by {
        if list.len() > 1 {
            assert(lv[1] == list@[1]@);
        }
    }
    match h {
        ChildHandler::NextSibling | ChildHandler::SubseqSibling | ChildHandler::DirectChildren
        | ChildHandler::Descendent => {
            if l0 {
                let mut r = join_sep_x(list, &t);
                match selector_lookup(first) {
                    Some(sel) => push_all(&mut r, &sel),
                    None => {},
                }
                let ghost mid = r@;
                push_all(&mut r, styles);
                assert(r@ =~= join_sep(lv, t@) + selector_text(first@) + styles@);
                Some(r)
            } else {
                None
            }
        },
        ChildHandler::HtmlTag => {
            if first.len() > 0 {
                Some(cat(first, styles))
            } else {
                None
            }
        },
        ChildHandler::Empty | ChildHandler::Checked | ChildHandler::Disabled | ChildHandler::Focus
        | ChildHandler::Active | ChildHandler::Visited | ChildHandler::LastChild | ChildHandler::FirstChild => {
            if first.len() > 0 {
                let mut r = cat(first, &vec![':']);
                push_all(&mut r, &t);
                push_all(&mut r, styles);
                assert(r@ =~= first@ + seq![':'] + t@ + styles@);
                Some(r)
            } else {
                None
            }
        },
        ChildHandler::TypeOf => {
            if first.len() > 0 && l0 {
                let mut r = cat(first, &vec!['[', 't', 'y', 'p', 'e']);
                push_all(&mut r, &t);
                r.push('\'');
                push_all(&mut r, &list[0]);
                r.push('\'');
                r.push(']');
                r.push(' ');
                push_all(&mut r, styles);
                assert(lv[0] == list@[0]@);
                assert(r@ =~= first@ + seq!['[', 't', 'y', 'p', 'e'] + t@ + seq!['\''] + lv[0] + seq!['\'', ']', ' '] + styles@);
                Some(r)
            } else {
                None
            }
        },
        ChildHandler::AttrStartsWith | ChildHandler::AttrContains | ChildHandler::AttrEndsWith => {
            if first.len() > 0 && l0 && l1 {
                let mut r = cat(first, &vec!['[']);
                push_all(&mut r, &list[0]);
                push_all(&mut r, &t);
                r.push('\'');
                push_all(&mut r, &list[1]);
                r.push('\'');
                r.push(']');
                r.push(' ');
                push_all(&mut r, styles);
                assert(lv[0] == list@[0]@);
                assert(lv[1] == list@[1]@);
                assert(r@ =~= first@ + seq!['['] + lv[0] + t@ + seq!['\''] + lv[1] + seq!['\'', ']', ' '] + styles@);
                Some(r)
            } else {
                None
            }
        },
        ChildHandler::NthChild | ChildHandler::NthOfType | ChildHandler::Not => {
            if first.len() > 0 && l0 {
                let mut r = cat(first, &vec![':']);
                push_all(&mut r, &t);
                r.push('(');
                push_all(&mut r, &list[0]);
                r.push(')');
                push_all(&mut r, styles);
                assert(lv[0] == list@[0]@);
                assert(r@ =~= first@ + seq![':'] + t@ + seq!['('] + lv[0] + seq![')'] + styles@);
                Some(r)
            } else {
                None
            }
        },
    }
}

/// Resolves one children entry into its breakpoint (if any) and rule text.
pub fn process_children_objects(key: &Vec<char>, entries: &Vec<(String, String)>) -> (r: Option<(Option<Vec<char>>, Vec<char>)>)
    ensures
        match r {
            Some((m, c)) => child_rule(key@, crate::entries::pairs_view(entries@)) == Some(
                (
                    match m {
                        Some(x) => Some(x@),
                        None => None,
                    },
                    c@,
                ),
            ),
            None => child_rule(key@, crate::entries::pairs_view(entries@)).is_none(),
        },
{
    let h = classify_x(key);
    let ctrl = if matches!(h, ChildHandler::Descendent | ChildHandler::HtmlTag) {
        slice_chars(key, 0, key.len())
    } else {
        crate::pathify::remove_all_exec(key, &handler_name_x(h))
    };
    assert(key@.subrange(0, key@.len() as int) =~= key@);
    let (first, list, third) = collects_properties(&ctrl);
    let styles = styles_block_x(entries);
    let media = if screen_lookup(&third).is_some() {
        Some(third)
    } else {
        None
    };
    if styles.len() == 0 {
        return None;
    }
    match handler_css_x(h, &first, &list, &styles) {
        Some(css) => Some((media, css)),
        None => None,
    }
}

} // verus!
