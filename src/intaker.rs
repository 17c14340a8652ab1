//! Import extraction: a lenient scan of source text that collects the path
//! specifiers named after `require`, `import` or `from`.
use vstd::prelude::*;
use crate::text::{
    chars_of, contains_seq, eq_chars, find_char, find_from, has_at, is_word, is_word_char, lemma_find_from,
    lemma_word_end, matches_at, occurs, slice_chars, string_of, word_end, word_end_at,
};

verus! {

pub open spec fn kw_require() -> Seq<char> {
    seq!['r', 'e', 'q', 'u', 'i', 'r', 'e']
}

pub open spec fn kw_import() -> Seq<char> {
    seq!['i', 'm', 'p', 'o', 'r', 't']
}

pub open spec fn kw_from() -> Seq<char> {
    seq!['f', 'r', 'o', 'm']
}

pub open spec fn comment_open() -> Seq<char> {
    seq!['/', '/']
}

pub open spec fn slash() -> Seq<char> {
    seq!['/']
}

/// The token that starts at `i`: (end of the token, start of its text, end of its text).
/// A quoted string (double or single quotes) yields its contents; a line comment
/// yields the text after `//`; the keywords, identifier runs and any other
/// single character yield themselves.
pub open spec fn import_token(s: Seq<char>, i: int) -> (int, int, int) {
    let c = s[i];
    if (c == '"' || c == '\'') && find_from(s, i + 1, c) >= 0 {
        (find_from(s, i + 1, c) + 1, i + 1, find_from(s, i + 1, c))
    } else if has_at(s, i, kw_require()) {
        (i + 7, i, i + 7)
    } else if has_at(s, i, kw_import()) {
        (i + 6, i, i + 6)
    } else if has_at(s, i, kw_from()) {
        (i + 4, i, i + 4)
    } else if is_word_char(c) {
        (word_end(s, i), i, word_end(s, i))
    } else if has_at(s, i, comment_open()) && find_from(s, i + 2, '\n') >= 0 {
        (find_from(s, i + 2, '\n') + 1, i + 2, find_from(s, i + 2, '\n'))
    } else {
        (i + 1, i, i + 1)
    }
}

/// Whether a token's text names an import keyword.
pub open spec fn is_import_keyword(t: Seq<char>) -> bool {
    t == kw_require() || t == kw_import() || t == kw_from()
}

/// Whether a token's text can be a path: it holds a `/` (this covers the
/// forms `./`, `../`, `@/` and `/` at its start).
pub open spec fn is_path_like(t: Seq<char>) -> bool {
    occurs(t, slash())
}

/// The specifiers collected from position `i` on, given whether a keyword is
/// waiting for its specifier.
pub open spec fn scan_imports(s: Seq<char>, i: int, waiting: bool) -> Seq<Seq<char>>
    decreases s.len() - i,
{
    if i < 0 || i >= s.len() {
        seq![]
    } else {
        let t = import_token(s, i);
        let next = if i < t.0 <= s.len() { t.0 } else { i + 1 };
        let text = s.subrange(t.1, t.2);
        if is_import_keyword(text) {
            scan_imports(s, next, true)
        } else if waiting && is_path_like(text) {
            seq![text] + scan_imports(s, next, false)
        } else {
            scan_imports(s, next, waiting)
        }
    }
}

proof fn lemma_import_token(s: Seq<char>, i: int)
    requires
        0 <= i < s.len(),
    ensures
        i < import_token(s, i).0 <= s.len(),
        0 <= import_token(s, i).1 <= import_token(s, i).2 <= s.len(),
{
    lemma_find_from(s, i + 1, s[i]);
    lemma_find_from(s, i + 2, '\n');
    lemma_word_end(s, i);
    if is_word_char(s[i]) {
        lemma_word_end(s, i + 1);
    }
    assert(kw_require().len() == 7);
    assert(kw_import().len() == 6);
    assert(kw_from().len() == 4);
    assert(comment_open().len() == 2);
}

fn keyword(k: u8) -> (r: Vec<char>)
    ensures
        k == 0 ==> r@ == kw_require(),
        k == 1 ==> r@ == kw_import(),
        k == 2 ==> r@ == kw_from(),
        k > 2 ==> r@ == comment_open(),
{
    if k == 0 {
        vec!['r', 'e', 'q', 'u', 'i', 'r', 'e']
    } else if k == 1 {
        vec!['i', 'm', 'p', 'o', 'r', 't']
    } else if k == 2 {
        vec!['f', 'r', 'o', 'm']
    } else {
        vec!['/', '/']
    }
}

fn next_token(s: &Vec<char>, i: usize) -> (r: (usize, usize, usize))
    requires
        i < s.len(),
    ensures
        r.0 as int == import_token(s@, i as int).0,
        r.1 as int == import_token(s@, i as int).1,
        r.2 as int == import_token(s@, i as int).2,
{
    proof {
        lemma_import_token(s@, i as int);
    }
    let c = s[i];
    if c == '"' || c == '\'' {
        if let Some(j) = find_char(s, i + 1, c) {
            return (j + 1, i + 1, j);
        }
    }
    if matches_at(s, i, &keyword(0)) {
        return (i + 7, i, i + 7);
    }
    if matches_at(s, i, &keyword(1)) {
        return (i + 6, i, i + 6);
    }
    if matches_at(s, i, &keyword(2)) {
        return (i + 4, i, i + 4);
    }
    if is_word(c) {
        let e = word_end_at(s, i);
        return (e, i, e);
    }
    if matches_at(s, i, &keyword(3)) {
        if let Some(j) = find_char(s, i + 2, '\n') {
            return (j + 1, i + 2, j);
        }
    }
    (i + 1, i, i + 1)
}

fn is_keyword_text(t: &Vec<char>) -> (r: bool)
    ensures
        r == is_import_keyword(t@),
{
    eq_chars(t, &keyword(0)) || eq_chars(t, &keyword(1)) || eq_chars(t, &keyword(2))
}

/// Collects the import specifiers of source files.
pub struct Intaker;

impl Intaker {
    pub fn new() -> (r: Self) {
        Intaker
    }

    /// The specifiers that the source text imports, in source order, duplicates kept.
    /// After `require`, `import` or `from`, the next token whose text holds a `/`
    /// is taken as the specifier; other tokens are passed over.
    pub fn process_code(&self, code: String) -> (r: Vec<String>)
        ensures
            r@.len() == scan_imports(code@, 0, false).len(),
            forall|k: int| 0 <= k < r@.len() ==> #[trigger] r@[k]@ == scan_imports(code@, 0, false)[k],
    {
        let s = chars_of(code.as_str());
        let mut imports: Vec<String> = Vec::new();
        let mut is_import = false;
        let mut i: usize = 0;
        let ghost found: Seq<Seq<char>> = seq![];
        while i < s.len()
            invariant
                i <= s.len(),
                s@ == code@,
                imports@.len() == found.len(),
                forall|k: int| 0 <= k < found.len() ==> #[trigger] imports@[k]@ == found[k],
                found + scan_imports(s@, i as int, is_import) == scan_imports(s@, 0, false),
            decreases s.len() - i,
        {
            proof {
                lemma_import_token(s@, i as int);
            }
            let (e, a, b) = next_token(&s, i);
            let text = slice_chars(&s, a, b);
            let sl = vec!['/'];
            assert(sl@ =~= slash());
            if is_keyword_text(&text) {
                is_import = true;
            } else if is_import && contains_seq(&text, &sl) {
                imports.push(string_of(&text));
                proof {
                    assert(scan_imports(s@, i as int, true) == seq![text@] + scan_imports(s@, e as int, false));
                    assert(found + (seq![text@] + scan_imports(s@, e as int, false)) =~= found.push(text@) + scan_imports(s@, e as int, false));
                    found = found.push(text@);
                }
                is_import = false;
            }
            i = e;
        }
        assert(found + scan_imports(s@, i as int, is_import) =~= found);
        imports
    }
}

} // verus!
