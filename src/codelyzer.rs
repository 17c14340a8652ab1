//! Style-block extraction: finds each `createStyles(...)` call in source text
//! and collects, per declared identifier, its top-level properties and its
//! `targetChildren` entries. The scan is a state machine over a small set of
//! tokens and tolerates any surrounding code.
use vstd::prelude::*;
use crate::entries::{lemma_put_unique, lemma_remove_key, unique_keys, find_key, key_pos, lemma_key_pos, lemma_key_pos_same_keys, pairs_view, put, put_pair};
use crate::text::{
    at, blank, char_at, chars_of, find_char, find_from, has_at, is_blank, is_word, is_word_char,
    lemma_find_from, lemma_word_end, matches_at, occurs, contains_seq, skip_ws, skip_ws_at,
    slice_chars, string_of, unicode_alphanumeric, word_end, word_end_at, is_alphanumeric,
};

verus! {

/// A property value: a plain string, or a nested block of `key: value` pairs
/// (a pseudo-selector, breakpoint or children block).
pub enum StyleValue {
    Leaf(String),
    Nested(Vec<(String, String)>),
}

/// The mathematical value of a `StyleValue`.
pub enum ValueModel {
    Leaf(Seq<char>),
    Nested(Seq<(Seq<char>, Seq<char>)>),
}

impl View for StyleValue {
    type V = ValueModel;

    open spec fn view(&self) -> ValueModel {
        match self {
            StyleValue::Leaf(s) => ValueModel::Leaf(s@),
            StyleValue::Nested(v) => ValueModel::Nested(pairs_view(v@)),
        }
    }
}

/// The view of a list of property entries.
pub open spec fn values_view(m: Seq<(String, StyleValue)>) -> Seq<(Seq<char>, ValueModel)> {
    m.map_values(|e: (String, StyleValue)| (e.0@, e.1@))
}

/// One style-definition call: its identifier, its top-level properties and its
/// target-children entries.
pub struct Declaration {
    pub identifier: String,
    pub properties: Vec<(String, StyleValue)>,
    pub children: Vec<(String, StyleValue)>,
}

/// The properties and children of a declaration, as mathematical values.
pub struct DeclModel {
    pub properties: Seq<(Seq<char>, ValueModel)>,
    pub children: Seq<(Seq<char>, ValueModel)>,
}

pub open spec fn decl_view(d: Declaration) -> (Seq<char>, DeclModel) {
    (d.identifier@, DeclModel { properties: values_view(d.properties@), children: values_view(d.children@) })
}

pub open spec fn decls_view(m: Seq<Declaration>) -> Seq<(Seq<char>, DeclModel)> {
    m.map_values(|d: Declaration| decl_view(d))
}

/// What a scan of source text yields: one declaration per identifier (a later
/// call with the same identifier replaces an earlier one), and the number of
/// calls that were dropped for want of an identifier.
pub struct StyleScan {
    pub declarations: Vec<Declaration>,
    pub missing_identifier: usize,
}

pub open spec fn kw_create_styles() -> Seq<char> {
    seq!['c', 'r', 'e', 'a', 't', 'e', 'S', 't', 'y', 'l', 'e', 's']
}

pub open spec fn kw_target_children() -> Seq<char> {
    seq!['t', 'a', 'r', 'g', 'e', 't', 'C', 'h', 'i', 'l', 'd', 'r', 'e', 'n']
}

pub open spec fn kw_function() -> Seq<char> {
    seq!['f', 'u', 'n', 'c', 't', 'i', 'o', 'n']
}

pub open spec fn kw_identifier() -> Seq<char> {
    seq!['i', 'd', 'e', 'n', 't', 'i', 'f', 'i', 'e', 'r']
}

pub open spec fn kw_import() -> Seq<char> {
    seq!['i', 'm', 'p', 'o', 'r', 't']
}

pub open spec fn kw_arrow() -> Seq<char> {
    seq!['=', '>']
}

pub open spec fn kw_comment() -> Seq<char> {
    seq!['/', '/']
}

/// Characters that form a token on their own inside a call body.
pub open spec fn is_body_punct(c: char) -> bool {
    c == ' ' || c == '(' || c == ')' || c == '\n' || c == '\t' || c == ':' || c == ','
        || c == '{' || c == '}' || c == ';'
}

pub open spec fn is_quote(c: char) -> bool {
    c == '"' || c == '\'' || c == '`'
}

/// The token of a call body that starts at `j`: (end, start of its text, end of
/// its text). An end equal to `j` means that no token starts there, which ends
/// the body. A line comment yields the text after `//`; a quoted string yields
/// its contents.
pub open spec fn body_token(s: Seq<char>, j: int) -> (int, int, int) {
    if has_at(s, j, kw_create_styles()) {
        (j + 12, j, j + 12)
    } else if has_at(s, j, kw_target_children()) {
        (j + 14, j, j + 14)
    } else if has_at(s, j, kw_function()) {
        (j + 8, j, j + 8)
    } else if is_body_punct(s[j]) {
        (j + 1, j, j + 1)
    } else if has_at(s, j, kw_arrow()) {
        (j + 2, j, j + 2)
    } else if has_at(s, j, kw_comment()) && find_from(s, j + 2, '\n') >= 0 {
        (find_from(s, j + 2, '\n') + 1, j + 2, find_from(s, j + 2, '\n'))
    } else if s[j] == '=' {
        (j + 1, j, j + 1)
    } else if is_word_char(s[j]) {
        (word_end(s, j), j, word_end(s, j))
    } else if is_quote(s[j]) && find_from(s, j + 1, s[j]) >= 0 {
        (find_from(s, j + 1, s[j]) + 1, j + 1, find_from(s, j + 1, s[j]))
    } else {
        (j, j, j)
    }
}

/// The state of the scan of one call body.
pub struct BodyModel {
    pub key_env: bool,
    pub nested_env: bool,
    pub processing: bool,
    pub children_env: bool,
    pub parens: int,
    pub braces: int,
    pub key: Seq<char>,
    pub nested_key: Seq<char>,
    pub map: Seq<(Seq<char>, ValueModel)>,
    pub nested: Seq<(Seq<char>, Seq<char>)>,
    pub children: Seq<(Seq<char>, ValueModel)>,
}

pub open spec fn initial_body() -> BodyModel {
    BodyModel {
        key_env: false,
        nested_env: false,
        processing: false,
        children_env: false,
        parens: 0,
        braces: 0,
        key: seq![],
        nested_key: seq![],
        map: seq![],
        nested: seq![],
        children: seq![],
    }
}

/// Whether the white-space-trimmed rest of the text starts with a colon.
pub open spec fn colon_ahead(s: Seq<char>, e: int) -> bool {
    at(s, skip_ws(s, e), ':')
}

/// A token that can be a key or a value: not a lone colon or comma, not blank.
pub open spec fn fill(t: Seq<char>) -> bool {
    t != seq![':'] && t != seq![','] && !blank(t)
}

/// Parenthesis depth, read from the character after the token; the body ends
/// when a closing parenthesis brings the depth back to zero.
pub open spec fn phase_parens(m: BodyModel, s: Seq<char>, e: int) -> (BodyModel, bool) {
    if at(s, e, '(') {
        (BodyModel { parens: m.parens + 1, ..m }, false)
    } else if at(s, e, ')') {
        (BodyModel { parens: m.parens - 1, ..m }, m.parens - 1 == 0)
    } else {
        (m, false)
    }
}

/// Entering and leaving the `targetChildren` region, by brace depth.
pub open spec fn phase_children(m: BodyModel, s: Seq<char>, e: int, t: Seq<char>) -> BodyModel {
    if t == kw_target_children() {
        BodyModel { children_env: true, ..m }
    } else if at(s, e, '{') && m.children_env {
        BodyModel { braces: m.braces + 1, ..m }
    } else if at(s, e, '}') && m.children_env {
        BodyModel { braces: m.braces - 1, children_env: m.braces - 1 != 0, ..m }
    } else {
        m
    }
}

/// A closing brace after a value: store the pending pair, then the nested block
/// (into the children when inside `targetChildren`), and reset the pending state.
pub open spec fn close_value(m: BodyModel, t: Seq<char>) -> BodyModel {
    let m1 = if !blank(m.nested_key) && fill(t) && m.nested_env {
        BodyModel { nested: put(m.nested, m.nested_key, t), ..m }
    } else if !blank(m.key) && fill(t) && !m.nested_env {
        BodyModel { map: put(m.map, m.key, ValueModel::Leaf(t)), ..m }
    } else {
        m
    };
    let m2 = if m1.nested_env && m1.children_env {
        BodyModel { children: put(m1.children, m1.key, ValueModel::Nested(m1.nested)), ..m1 }
    } else if m1.nested_env {
        BodyModel { map: put(m1.map, m1.key, ValueModel::Nested(m1.nested)), ..m1 }
    } else {
        m1
    };
    BodyModel {
        key_env: false,
        nested_env: false,
        processing: false,
        nested_key: seq![],
        key: seq![],
        nested: seq![],
        ..m2
    }
}

/// A plain value for the pending key. Inside `targetChildren`, function values
/// and the `targetChildren` key itself are skipped.
pub open spec fn store_leaf(m: BodyModel, t: Seq<char>) -> BodyModel {
    let m1 = if m.children_env {
        if !occurs(t, kw_function()) && !occurs(m.key, kw_target_children()) {
            BodyModel { children: put(m.children, m.key, ValueModel::Leaf(t)), ..m }
        } else {
            m
        }
    } else {
        BodyModel { map: put(m.map, m.key, ValueModel::Leaf(t)), ..m }
    };
    BodyModel { key_env: false, key: seq![], ..m1 }
}

/// Keys, nested blocks and values.
pub open spec fn phase_main(m: BodyModel, s: Seq<char>, e: int, t: Seq<char>) -> BodyModel {
    if colon_ahead(s, e) && !m.key_env {
        BodyModel { key_env: true, key: t, ..m }
    } else if at(s, e, '{') && m.key_env {
        BodyModel { nested_env: true, ..m }
    } else if at(s, e, '}') && m.key_env {
        close_value(m, t)
    } else if m.key_env && fill(t) && !blank(m.key) && !m.nested_env {
        store_leaf(m, t)
    } else if colon_ahead(s, e) && m.key_env && m.nested_env && !m.processing {
        BodyModel { nested_key: t, processing: true, ..m }
    } else if m.nested_env && fill(t) && !blank(m.nested_key) && m.key_env && m.processing {
        BodyModel { nested: put(m.nested, m.nested_key, t), processing: false, nested_key: seq![], ..m }
    } else {
        m
    }
}

/// A comma ahead drops the pending key (or nested key).
pub open spec fn phase_comma(m: BodyModel, s: Seq<char>, e: int) -> BodyModel {
    if at(s, e, ',') {
        if m.key_env && !m.nested_env {
            BodyModel { key: seq![], key_env: false, ..m }
        } else {
            BodyModel { nested_key: seq![], processing: false, ..m }
        }
    } else {
        m
    }
}

/// One step of the body scan on the token with text `t` that ends at `e`;
/// the flag says whether the body ends here.
pub open spec fn body_step(m: BodyModel, s: Seq<char>, e: int, t: Seq<char>) -> (BodyModel, bool) {
    let (m1, stop) = phase_parens(m, s, e);
    if stop {
        (m1, true)
    } else {
        (phase_comma(phase_main(phase_children(m1, s, e, t), s, e, t), s, e), false)
    }
}

/// The state at the end of the body scan from `j`, and where the scan stopped.
pub open spec fn body_run(s: Seq<char>, j: int, m: BodyModel) -> (BodyModel, int)
    decreases s.len() - j,
{
    if j < 0 || j >= s.len() {
        (m, j)
    } else {
        let tok = body_token(s, j);
        if !(j < tok.0 <= s.len()) {
            (m, j)
        } else {
            let r = body_step(m, s, tok.0, s.subrange(tok.1, tok.2));
            if r.1 {
                (r.0, tok.0)
            } else {
                body_run(s, tok.0, r.0)
            }
        }
    }
}

/// The list without the entry of key `k`.
pub open spec fn without<V>(m: Seq<(Seq<char>, V)>, k: Seq<char>) -> Seq<(Seq<char>, V)> {
    let p = key_pos(m, k, 0);
    if p >= 0 {
        m.remove(p)
    } else {
        m
    }
}

/// The declaration that a finished body yields: present when the properties
/// hold a plain `identifier` value.
pub open spec fn decl_of(m: BodyModel) -> Option<(Seq<char>, DeclModel)> {
    let p = key_pos(m.map, kw_identifier(), 0);
    if p >= 0 {
        match m.map[p].1 {
            ValueModel::Leaf(id) => Some(
                (id, DeclModel { properties: without(m.map, kw_identifier()), children: m.children }),
            ),
            ValueModel::Nested(_) => None,
        }
    } else {
        None
    }
}

/// The end of the token that starts at `i` outside any call: an import
/// statement (to the next `;`, else line end, else space), a line comment, a
/// run of identifier characters that starts with an alphanumeric one, or one
/// character.
pub open spec fn outer_end(s: Seq<char>, i: int) -> int {
    if has_at(s, i, kw_import()) && find_from(s, i + 6, ';') >= 0 {
        find_from(s, i + 6, ';') + 1
    } else if has_at(s, i, kw_import()) && find_from(s, i + 6, '\n') >= 0 {
        find_from(s, i + 6, '\n') + 1
    } else if has_at(s, i, kw_import()) && find_from(s, i + 6, ' ') >= 0 {
        find_from(s, i + 6, ' ') + 1
    } else if has_at(s, i, kw_comment()) && find_from(s, i + 2, '\n') >= 0 {
        find_from(s, i + 2, '\n') + 1
    } else if unicode_alphanumeric(s[i]) {
        word_end(s, i)
    } else {
        i + 1
    }
}

/// The declarations found from position `i` on, given those found so far and
/// the count of calls dropped so far. A call is recognised where `createStyles`
/// starts a token.
pub open spec fn scan_styles(
    s: Seq<char>,
    i: int,
    acc: Seq<(Seq<char>, DeclModel)>,
    missing: nat,
) -> (Seq<(Seq<char>, DeclModel)>, nat)
    decreases s.len() - i,
{
    if i < 0 || i >= s.len() {
        (acc, missing)
    } else if has_at(s, i, kw_create_styles()) {
        let run = body_run(s, i, initial_body());
        let next = if i < run.1 <= s.len() {
            run.1
        } else {
            i + 1
        };
        match decl_of(run.0) {
            Some(d) => scan_styles(s, next, put(acc, d.0, d.1), missing),
            None => scan_styles(s, next, acc, missing + 1),
        }
    } else {
        let e0 = outer_end(s, i);
        let e = if i < e0 <= s.len() {
            e0
        } else {
            i + 1
        };
        scan_styles(s, e, acc, missing)
    }
}

/// Puts a value into a list of property entries.
pub fn put_value(m: &mut Vec<(String, StyleValue)>, k: String, v: StyleValue)
    ensures
        values_view(final(m)@) == put(values_view(old(m)@), k@, v@),
{
    let ghost old_v = values_view(m@);
    let p = find_key(m, &k);
    let ghost k_view = k@;
    let ghost v_view = v@;
    assert(m@.map_values(|e: (String, StyleValue)| (e.0@, e.1)).map_values(|e: (Seq<char>, StyleValue)| e.0)
        =~= old_v.map_values(|e: (Seq<char>, ValueModel)| e.0));
    proof {
        lemma_key_pos_same_keys(m@.map_values(|e: (String, StyleValue)| (e.0@, e.1)), old_v, k@, 0);
        lemma_key_pos(old_v, k@, 0);
    }
    match p {
        Some(i) => {
            m[i] = (k, v);
            assert(values_view(m@) =~= old_v.update(i as int, (k_view, v_view)));
        },
        None => {
            m.push((k, v));
            assert(values_view(m@) =~= old_v.push((k_view, v_view)));
        },
    }
}

/// Puts a declaration into the list, keyed by its identifier.
fn put_decl(m: &mut Vec<Declaration>, d: Declaration)
    ensures
        decls_view(final(m)@) == put(decls_view(old(m)@), d.identifier@, decl_view(d).1),
{
    let ghost old_v = decls_view(m@);
    let mut i: usize = 0;
    while i < m.len()
        invariant
            i <= m.len(),
            m@.len() == old_v.len(),
            old_v == decls_view(m@),
            old_v == decls_view(old(m)@),
            key_pos(old_v, d.identifier@, 0) == key_pos(old_v, d.identifier@, i as int),
        decreases m.len() - i,
    {
        assert(old_v[i as int].0 == m@[i as int].identifier@);
        if m[i].identifier == d.identifier {
            let ghost dv = decl_view(d);
            assert(key_pos(old_v, d.identifier@, i as int) == i as int);
            m[i] = d;
            assert(decls_view(m@) =~= old_v.update(i as int, dv));
            assert(dv == (dv.0, dv.1));
            assert(put(old_v, dv.0, dv.1) == old_v.update(i as int, dv));
            return;
        }
        i += 1;
    }
    let ghost dv = decl_view(d);
    m.push(d);
    assert(decls_view(m@) =~= old_v.push(dv));
}

/// The scan state of one call body.
pub struct BodyState {
    key_env: bool,
    nested_env: bool,
    processing: bool,
    children_env: bool,
    parens: i128,
    braces: i128,
    key: Vec<char>,
    nested_key: Vec<char>,
    map: Vec<(String, StyleValue)>,
    nested: Vec<(String, String)>,
    children: Vec<(String, StyleValue)>,
}

impl View for BodyState {
    type V = BodyModel;

    closed spec fn view(&self) -> BodyModel {
        BodyModel {
            key_env: self.key_env,
            nested_env: self.nested_env,
            processing: self.processing,
            children_env: self.children_env,
            parens: self.parens as int,
            braces: self.braces as int,
            key: self.key@,
            nested_key: self.nested_key@,
            map: values_view(self.map@),
            nested: pairs_view(self.nested@),
            children: values_view(self.children@),
        }
    }
}

/// The depths stay within `n` in absolute value.
pub open spec fn bounded(m: BodyModel, n: int) -> bool {
    -n <= m.parens <= n && -n <= m.braces <= n
}

impl BodyState {
    fn new() -> (r: Self)
        ensures
            r@ == initial_body(),
    {
        let r = BodyState {
            key_env: false,
            nested_env: false,
            processing: false,
            children_env: false,
            parens: 0,
            braces: 0,
            key: Vec::new(),
            nested_key: Vec::new(),
            map: Vec::new(),
            nested: Vec::new(),
            children: Vec::new(),
        };
        assert(r@.map =~= seq![]);
        assert(r@.nested =~= seq![]);
        assert(r@.children =~= seq![]);
        assert(r@.key =~= seq![]);
        assert(r@.nested_key =~= seq![]);
        r
    }

    fn phase_parens(&mut self, s: &Vec<char>, e: usize) -> (stop: bool)
        requires
            -(e - 1) <= old(self)@.parens <= e - 1,
            e <= s.len(),
        ensures
            (final(self)@, stop) == phase_parens(old(self)@, s@, e as int),
            -e <= final(self)@.parens <= e,
            final(self).braces == old(self).braces,
    {
        if char_at(s, e, '(') {
            self.parens = self.parens + 1;
            false
        } else if char_at(s, e, ')') {
            self.parens = self.parens - 1;
            self.parens == 0
        } else {
            false
        }
    }

    fn phase_children(&mut self, s: &Vec<char>, e: usize, t: &Vec<char>)
        requires
            -(e - 1) <= old(self)@.braces <= e - 1,
            e <= s.len(),
        ensures
            final(self)@ == phase_children(old(self)@, s@, e as int, t@),
            final(self).parens == old(self).parens,
            -e <= final(self)@.braces <= e,
    {
        let tc = vec!['t', 'a', 'r', 'g', 'e', 't', 'C', 'h', 'i', 'l', 'd', 'r', 'e', 'n'];
        assert(tc@ =~= kw_target_children());
        if crate::text::eq_chars(t, &tc) {
            self.children_env = true;
        } else if char_at(s, e, '{') && self.children_env {
            self.braces = self.braces + 1;
        } else if char_at(s, e, '}') && self.children_env {
            self.braces = self.braces - 1;
            if self.braces == 0 {
                self.children_env = false;
            }
        }
    }

    fn close_value(&mut self, t: &Vec<char>)
        ensures
            final(self)@ == close_value(old(self)@, t@),
            final(self).parens == old(self).parens,
            final(self).braces == old(self).braces,
    {
        let tf = is_fill(t);
        if !is_blank(&self.nested_key) && tf && self.nested_env {
            put_pair(&mut self.nested, string_of(&self.nested_key), string_of(t));
        } else if !is_blank(&self.key) && tf && !self.nested_env {
            put_value(&mut self.map, string_of(&self.key), StyleValue::Leaf(string_of(t)));
        }
        let mut taken: Vec<(String, String)> = Vec::new();
        std::mem::swap(&mut self.nested, &mut taken);
        if self.nested_env && self.children_env {
            put_value(&mut self.children, string_of(&self.key), StyleValue::Nested(taken));
        } else if self.nested_env {
            put_value(&mut self.map, string_of(&self.key), StyleValue::Nested(taken));
        }
        self.key_env = false;
        self.nested_env = false;
        self.processing = false;
        self.nested_key = Vec::new();
        self.key = Vec::new();
        assert(self@.nested =~= seq![]);
        assert(self@.key =~= seq![]);
        assert(self@.nested_key =~= seq![]);
    }

    fn store_leaf(&mut self, t: &Vec<char>)
        ensures
            final(self)@ == store_leaf(old(self)@, t@),
            final(self).parens == old(self).parens,
            final(self).braces == old(self).braces,
    {
        if self.children_env {
            let f = vec!['f', 'u', 'n', 'c', 't', 'i', 'o', 'n'];
            assert(f@ =~= kw_function());
            let tc = vec!['t', 'a', 'r', 'g', 'e', 't', 'C', 'h', 'i', 'l', 'd', 'r', 'e', 'n'];
            assert(tc@ =~= kw_target_children());
            if !contains_seq(t, &f) && !contains_seq(&self.key, &tc) {
                put_value(&mut self.children, string_of(&self.key), StyleValue::Leaf(string_of(t)));
            }
        } else {
            put_value(&mut self.map, string_of(&self.key), StyleValue::Leaf(string_of(t)));
        }
        self.key_env = false;
        self.key = Vec::new();
        assert(self@.key =~= seq![]);
    }

    fn phase_main(&mut self, s: &Vec<char>, e: usize, t: &Vec<char>)
        ensures
            final(self)@ == phase_main(old(self)@, s@, e as int, t@),
            final(self).parens == old(self).parens,
            final(self).braces == old(self).braces,
    {
        let colon = char_at(s, skip_ws_at(s, e), ':');
        let tf = is_fill(t);
        if colon && !self.key_env {
            self.key_env = true;
            self.key = t.clone();
            assert(self.key@ =~= t@);
        } else if char_at(s, e, '{') && self.key_env {
            self.nested_env = true;
        } else if char_at(s, e, '}') && self.key_env {
            self.close_value(t);
        } else if self.key_env && tf && !is_blank(&self.key) && !self.nested_env {
            self.store_leaf(t);
        } else if colon && self.key_env && self.nested_env && !self.processing {
            self.nested_key = t.clone();
            assert(self.nested_key@ =~= t@);
            self.processing = true;
        } else if self.nested_env && tf && !is_blank(&self.nested_key) && self.key_env && self.processing {
            put_pair(&mut self.nested, string_of(&self.nested_key), string_of(t));
            self.processing = false;
            self.nested_key = Vec::new();
            assert(self@.nested_key =~= seq![]);
        }
    }

    fn phase_comma(&mut self, s: &Vec<char>, e: usize)
        ensures
            final(self)@ == phase_comma(old(self)@, s@, e as int),
            final(self).parens == old(self).parens,
            final(self).braces == old(self).braces,
    {
        if char_at(s, e, ',') {
            if self.key_env && !self.nested_env {
                self.key = Vec::new();
                self.key_env = false;
                assert(self@.key =~= seq![]);
            } else {
                self.nested_key = Vec::new();
                self.processing = false;
                assert(self@.nested_key =~= seq![]);
            }
        }
    }

    fn step(&mut self, s: &Vec<char>, e: usize, t: &Vec<char>) -> (stop: bool)
        requires
            bounded(old(self)@, e - 1),
            e <= s.len(),
        ensures
            (final(self)@, stop) == body_step(old(self)@, s@, e as int, t@),
            bounded(final(self)@, e as int),
    {
        if self.phase_parens(s, e) {
            return true;
        }
        self.phase_children(s, e, t);
        self.phase_main(s, e, t);
        self.phase_comma(s, e);
        false
    }
}

fn is_fill(t: &Vec<char>) -> (r: bool)
    ensures
        r == fill(t@),
{
    let is_sep = t.len() == 1 && (t[0] == ':' || t[0] == ',');
    assert(is_sep == (t@ == seq![':'] || t@ == seq![','])) by {
        if t@.len() == 1 {
            if t@[0] == ':' {
                assert(t@ =~= seq![':']);
            }
            if t@[0] == ',' {
                assert(t@ =~= seq![',']);
            }
        }
    }
    !is_sep && !is_blank(t)
}

proof fn lemma_body_token(s: Seq<char>, j: int)
    requires
        0 <= j < s.len(),
    ensures
        j <= body_token(s, j).0 <= s.len(),
        j <= body_token(s, j).1 <= body_token(s, j).2 <= body_token(s, j).0,
{
    lemma_find_from(s, j + 1, s[j]);
    lemma_find_from(s, j + 2, '\n');
    lemma_word_end(s, j);
    assert(kw_create_styles().len() == 12);
    assert(kw_target_children().len() == 14);
    assert(kw_function().len() == 8);
    assert(kw_arrow().len() == 2);
    assert(kw_comment().len() == 2);
}

fn body_token_at(s: &Vec<char>, j: usize) -> (r: (usize, usize, usize))
    requires
        j < s.len(),
    ensures
        r.0 as int == body_token(s@, j as int).0,
        r.1 as int == body_token(s@, j as int).1,
        r.2 as int == body_token(s@, j as int).2,
{
    proof {
        lemma_body_token(s@, j as int);
    }
    let cs = vec!['c', 'r', 'e', 'a', 't', 'e', 'S', 't', 'y', 'l', 'e', 's'];
    assert(cs@ =~= kw_create_styles());
    let tc = vec!['t', 'a', 'r', 'g', 'e', 't', 'C', 'h', 'i', 'l', 'd', 'r', 'e', 'n'];
    assert(tc@ =~= kw_target_children());
    let f = vec!['f', 'u', 'n', 'c', 't', 'i', 'o', 'n'];
    assert(f@ =~= kw_function());
    let arrow = vec!['=', '>'];
    assert(arrow@ =~= kw_arrow());
    let comment = vec!['/', '/'];
    assert(comment@ =~= kw_comment());
    let c = s[j];
    if matches_at(s, j, &cs) {
        (j + 12, j, j + 12)
    } else if matches_at(s, j, &tc) {
        (j + 14, j, j + 14)
    } else if matches_at(s, j, &f) {
        (j + 8, j, j + 8)
    } else if c == ' ' || c == '(' || c == ')' || c == '\n' || c == '\t' || c == ':' || c == ','
        || c == '{' || c == '}' || c == ';' {
        (j + 1, j, j + 1)
    } else if matches_at(s, j, &arrow) {
        (j + 2, j, j + 2)
    } else if matches_at(s, j, &comment) && find_char(s, j + 2, '\n').is_some() {
        let n = find_char(s, j + 2, '\n').unwrap();
        (n + 1, j + 2, n)
    } else if c == '=' {
        (j + 1, j, j + 1)
    } else if is_word(c) {
        let w = word_end_at(s, j);
        (w, j, w)
    } else if (c == '"' || c == '\'' || c == '`') && find_char(s, j + 1, c).is_some() {
        let q = find_char(s, j + 1, c).unwrap();
        (q + 1, j + 1, q)
    } else {
        (j, j, j)
    }
}

proof fn lemma_outer_end(s: Seq<char>, i: int)
    requires
        0 <= i < s.len(),
    ensures
        i < outer_end(s, i) <= s.len(),
{
    lemma_find_from(s, i + 6, ';');
    lemma_find_from(s, i + 6, '\n');
    lemma_find_from(s, i + 6, ' ');
    lemma_find_from(s, i + 2, '\n');
    lemma_word_end(s, i + 1);
    assert(kw_import().len() == 6);
    assert(kw_comment().len() == 2);
}

fn outer_end_at(s: &Vec<char>, i: usize) -> (r: usize)
    requires
        i < s.len(),
    ensures
        r as int == outer_end(s@, i as int),
{
    proof {
        lemma_outer_end(s@, i as int);
    }
    let imp = vec!['i', 'm', 'p', 'o', 'r', 't'];
    assert(imp@ =~= kw_import());
    let comment = vec!['/', '/'];
    assert(comment@ =~= kw_comment());
    let is_imp = matches_at(s, i, &imp);
    if is_imp && find_char(s, i + 6, ';').is_some() {
        find_char(s, i + 6, ';').unwrap() + 1
    } else if is_imp && find_char(s, i + 6, '\n').is_some() {
        find_char(s, i + 6, '\n').unwrap() + 1
    } else if is_imp && find_char(s, i + 6, ' ').is_some() {
        find_char(s, i + 6, ' ').unwrap() + 1
    } else if matches_at(s, i, &comment) && find_char(s, i + 2, '\n').is_some() {
        find_char(s, i + 2, '\n').unwrap() + 1
    } else if is_alphanumeric(s[i]) {
        word_end_at(s, i)
    } else {
        i + 1
    }
}

/// Scans one call body that starts at `start`; returns the final state and the
/// position where the scan stopped.
fn run_body(s: &Vec<char>, start: usize) -> (r: (BodyState, usize))
    requires
        start <= s.len(),
    ensures
        r.0@ == body_run(s@, start as int, initial_body()).0,
        r.1 as int == body_run(s@, start as int, initial_body()).1,
{
    let mut st = BodyState::new();
    let mut j: usize = start;
    while j < s.len()
        invariant
            start <= j <= s.len(),
            bounded(st@, j as int),
            body_run(s@, start as int, initial_body()) == body_run(s@, j as int, st@),
        decreases s.len() - j,
    {
        proof {
            lemma_body_token(s@, j as int);
        }
        let (e, a, b) = body_token_at(s, j);
        if e == j {
            return (st, j);
        }
        let text = slice_chars(s, a, b);
        if st.step(s, e, &text) {
            return (st, e);
        }
        j = e;
    }
    (st, j)
}

/// The declaration of a finished body, if it holds a plain identifier.
fn take_declaration(st: BodyState) -> (r: Option<Declaration>)
    ensures
        match r {
            Some(d) => decl_of(st@) == Some(decl_view(d)),
            None => decl_of(st@).is_none(),
        },
{
    let ghost model = st@;
    let BodyState { map, children, .. } = st;
    let mut map = map;
    let ident = vec!['i', 'd', 'e', 'n', 't', 'i', 'f', 'i', 'e', 'r'];
    assert(ident@ =~= kw_identifier());
    let key = string_of(&ident);
    let p = find_key(&map, &key);
    let ghost mv = values_view(map@);
    assert(map@.map_values(|e: (String, StyleValue)| (e.0@, e.1)).map_values(|e: (Seq<char>, StyleValue)| e.0)
        =~= mv.map_values(|e: (Seq<char>, ValueModel)| e.0));
    proof {
        lemma_key_pos_same_keys(map@.map_values(|e: (String, StyleValue)| (e.0@, e.1)), mv, key@, 0);
        lemma_key_pos(mv, key@, 0);
    }
    match p {
        Some(i) => {
            assert(mv[i as int] == (map@[i as int].0@, map@[i as int].1@));
            let entry = map.remove(i);
            assert(values_view(map@) =~= mv.remove(i as int));
            match entry.1 {
                StyleValue::Leaf(id) => Some(Declaration { identifier: id, properties: map, children }),
                StyleValue::Nested(_) => None,
            }
        },
        None => None,
    }
}

/// Extracts the style-definition calls of a source text.
pub struct Codelyzer {
    code: String,
}

impl View for Codelyzer {
    type V = Seq<char>;

    closed spec fn view(&self) -> Seq<char> {
        self.code@
    }
}

impl Codelyzer {
    pub fn new(code: String) -> (r: Self)
        ensures
            r@ == code@,
    {
        Codelyzer { code }
    }

    /// Scans the whole text. Each `createStyles(...)` call yields a declaration
    /// under its `identifier` value, or counts as dropped when that key is missing.
    pub fn parser_code(&self) -> (r: StyleScan)
        ensures
            decls_view(r.declarations@) == scan_styles(self@, 0, seq![], 0).0,
            r.missing_identifier as nat == scan_styles(self@, 0, seq![], 0).1,
    {
        let s = chars_of(self.code.as_str());
        let cs = vec!['c', 'r', 'e', 'a', 't', 'e', 'S', 't', 'y', 'l', 'e', 's'];
        assert(cs@ =~= kw_create_styles());
        let mut declarations: Vec<Declaration> = Vec::new();
        let mut missing: usize = 0;
        let mut i: usize = 0;
        assert(decls_view(declarations@) =~= seq![]);
        while i < s.len()
            invariant
                i <= s.len(),
                s@ == self@,
                missing <= i,
                cs@ == kw_create_styles(),
                scan_styles(s@, 0, seq![], 0) == scan_styles(s@, i as int, decls_view(declarations@), missing as nat),
            decreases s.len() - i,
        {
            if matches_at(&s, i, &cs) {
                let (st, stop) = run_body(&s, i);
                proof {
                    lemma_body_run_end(s@, i as int, initial_body());
                }
                let next = if i < stop {
                    stop
                } else {
                    i + 1
                };
                match take_declaration(st) {
                    Some(d) => put_decl(&mut declarations, d),
                    None => missing = missing + 1,
                }
                i = next;
            } else {
                proof {
                    lemma_outer_end(s@, i as int);
                }
                i = outer_end_at(&s, i);
            }
        }
        StyleScan { declarations, missing_identifier: missing }
    }
}

proof fn lemma_body_run_end(s: Seq<char>, j: int, m: BodyModel)
    requires
        0 <= j <= s.len(),
    ensures
        j <= body_run(s, j, m).1 <= s.len(),
    decreases s.len() - j,
{
    if j < s.len() {
        let tok = body_token(s, j);
        if j < tok.0 <= s.len() {
            let r = body_step(m, s, tok.0, s.subrange(tok.1, tok.2));
            if !r.1 {
                lemma_body_run_end(s, tok.0, r.0);
            }
        }
    }
}

/// The properties and children of a body state have distinct keys.
pub open spec fn body_keys_distinct(m: BodyModel) -> bool {
    unique_keys(m.map) && unique_keys(m.children)
}

proof fn lemma_step_keys(m: BodyModel, s: Seq<char>, e: int, t: Seq<char>)
    requires
        body_keys_distinct(m),
    ensures
        body_keys_distinct(body_step(m, s, e, t).0),
{
    broadcast use lemma_put_unique;

    let m1 = phase_parens(m, s, e).0;
    let m2 = phase_children(m1, s, e, t);
    assert(body_keys_distinct(m2));
    let m3 = phase_main(m2, s, e, t);
    assert(body_keys_distinct(close_value(m2, t)));
    assert(body_keys_distinct(store_leaf(m2, t)));
    assert(body_keys_distinct(m3));
}

proof fn lemma_run_keys(s: Seq<char>, j: int, m: BodyModel)
    requires
        body_keys_distinct(m),
    ensures
        body_keys_distinct(body_run(s, j, m).0),
    decreases s.len() - j,
{
    if 0 <= j < s.len() {
        let tok = body_token(s, j);
        if j < tok.0 <= s.len() {
            let t = s.subrange(tok.1, tok.2);
            lemma_step_keys(m, s, tok.0, t);
            if !body_step(m, s, tok.0, t).1 {
                lemma_run_keys(s, tok.0, body_step(m, s, tok.0, t).0);
            }
        }
    }
}

/// A declaration whose properties hold no `identifier` key and whose
/// properties and children each have distinct keys.
pub open spec fn decl_shaped(d: DeclModel) -> bool {
    &&& unique_keys(d.properties)
    &&& unique_keys(d.children)
    &&& forall|i: int| 0 <= i < d.properties.len() ==> (#[trigger] d.properties[i]).0 != kw_identifier()
}

/// Declarations with distinct identifiers, each shaped as above.
pub open spec fn decls_shaped(acc: Seq<(Seq<char>, DeclModel)>) -> bool {
    unique_keys(acc) && forall|i: int| 0 <= i < acc.len() ==> decl_shaped(#[trigger] acc[i].1)
}

proof fn lemma_decl_of_shaped(m: BodyModel)
    requires
        body_keys_distinct(m),
        decl_of(m).is_some(),
    ensures
        decl_shaped(decl_of(m).unwrap().1),
{
    lemma_key_pos(m.map, kw_identifier(), 0);
    lemma_remove_key(m.map, kw_identifier(), key_pos(m.map, kw_identifier(), 0));
}

proof fn lemma_put_shaped(acc: Seq<(Seq<char>, DeclModel)>, k: Seq<char>, d: DeclModel)
    requires
        decls_shaped(acc),
        decl_shaped(d),
    ensures
        decls_shaped(put(acc, k, d)),
{
    lemma_put_unique(acc, k, d);
    lemma_key_pos(acc, k, 0);
    let r = put(acc, k, d);
    assert forall|i: int| 0 <= i < r.len() implies decl_shaped(#[trigger] r[i].1) by {
        if i < acc.len() && i != key_pos(acc, k, 0) {
            assert(r[i] == acc[i]);
        }
    }
}

proof fn lemma_scan_shaped(s: Seq<char>, i: int, acc: Seq<(Seq<char>, DeclModel)>, missing: nat)
    requires
        decls_shaped(acc),
    ensures
        decls_shaped(scan_styles(s, i, acc, missing).0),
    decreases s.len() - i,
{
    if 0 <= i < s.len() {
        if has_at(s, i, kw_create_styles()) {
            let run = body_run(s, i, initial_body());
            let next = if i < run.1 <= s.len() {
                run.1
            } else {
                i + 1
            };
            assert(initial_body().map =~= seq![]);
            lemma_run_keys(s, i, initial_body());
            match decl_of(run.0) {
                Some(d) => {
                    lemma_decl_of_shaped(run.0);
                    lemma_put_shaped(acc, d.0, d.1);
                    lemma_scan_shaped(s, next, put(acc, d.0, d.1), missing);
                },
                None => lemma_scan_shaped(s, next, acc, missing + 1),
            }
        } else {
            let e0 = outer_end(s, i);
            let e = if i < e0 <= s.len() {
                e0
            } else {
                i + 1
            };
            lemma_scan_shaped(s, e, acc, missing);
        }
    }
}

/// Extraction keeps declarations apart and well formed: the identifiers found
/// in a text are distinct; in each declaration the `identifier` key no longer
/// stands among the properties, and the properties and the children each have
/// distinct keys.
pub proof fn lemma_extraction_shaped(code: Seq<char>)
    ensures
        decls_shaped(scan_styles(code, 0, seq![], 0).0),
{
    lemma_scan_shaped(code, 0, seq![], 0);
}

} // verus!
