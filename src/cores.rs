//! The fixed tables of the compiler: pseudo-selector names and breakpoint names
//! with the CSS text each stands for.
use vstd::prelude::*;
use crate::text::eq_chars;

verus! {

/// The CSS pseudo-selector that a declared selector name stands for.
pub open spec fn selector_of(k: Seq<char>) -> Option<Seq<char>> {
    if k == seq!['h', 'o', 'v', 'e', 'r'] {
        Some(seq![':', 'h', 'o', 'v', 'e', 'r'])
    } else if k == seq!['a', 'c', 't', 'i', 'v', 'e'] {
        Some(seq![':', 'a', 'c', 't', 'i', 'v', 'e'])
    } else if k == seq!['f', 'o', 'c', 'u', 's'] {
        Some(seq![':', 'f', 'o', 'c', 'u', 's'])
    } else if k == seq!['f', 'i', 'r', 's', 't', 'C', 'h', 'i', 'l', 'd'] {
        Some(seq![':', 'f', 'i', 'r', 's', 't', '-', 'c', 'h', 'i', 'l', 'd'])
    } else if k == seq!['l', 'a', 's', 't', 'C', 'h', 'i', 'l', 'd'] {
        Some(seq![':', 'l', 'a', 's', 't', '-', 'c', 'h', 'i', 'l', 'd'])
    } else if k == seq!['f', 'i', 'r', 's', 't', 'O', 'f', 'T', 'y', 'p', 'e'] {
        Some(seq![':', 'f', 'i', 'r', 's', 't', '-', 'o', 'f', '-', 't', 'y', 'p', 'e'])
    } else if k == seq!['l', 'a', 's', 't', 'O', 'f', 'T', 'y', 'p', 'e'] {
        Some(seq![':', 'l', 'a', 's', 't', '-', 'o', 'f', '-', 't', 'y', 'p', 'e'])
    } else if k == seq!['o', 'n', 'l', 'y', 'C', 'h', 'i', 'l', 'd'] {
        Some(seq![':', 'o', 'n', 'l', 'y', '-', 'c', 'h', 'i', 'l', 'd'])
    } else if k == seq!['o', 'n', 'l', 'y', 'O', 'f', 'T', 'y', 'p', 'e'] {
        Some(seq![':', 'o', 'n', 'l', 'y', '-', 'o', 'f', '-', 't', 'y', 'p', 'e'])
    } else if k == seq!['t', 'a', 'r', 'g', 'e', 't', 'P', 's', 'e', 'u', 'd', 'o', 'C', 'l', 'a', 's', 's'] {
        Some(seq![':', 't', 'a', 'r', 'g', 'e', 't'])
    } else if k == seq!['v', 'i', 's', 'i', 't', 'e', 'd'] {
        Some(seq![':', 'v', 'i', 's', 'i', 't', 'e', 'd'])
    } else if k == seq!['c', 'h', 'e', 'c', 'k', 'e', 'd'] {
        Some(seq![':', 'c', 'h', 'e', 'c', 'k', 'e', 'd'])
    } else if k == seq!['d', 'i', 's', 'a', 'b', 'l', 'e', 'd'] {
        Some(seq![':', 'd', 'i', 's', 'a', 'b', 'l', 'e', 'd'])
    } else if k == seq!['e', 'n', 'a', 'b', 'l', 'e', 'd'] {
        Some(seq![':', 'e', 'n', 'a', 'b', 'l', 'e', 'd'])
    } else if k == seq!['r', 'e', 'a', 'd', 'O', 'n', 'l', 'y'] {
        Some(seq![':', 'r', 'e', 'a', 'd', '-', 'o', 'n', 'l', 'y'])
    } else if k == seq!['r', 'e', 'a', 'd', 'W', 'r', 'i', 't', 'e'] {
        Some(seq![':', 'r', 'e', 'a', 'd', '-', 'w', 'r', 'i', 't', 'e'])
    } else if k == seq!['p', 'l', 'a', 'c', 'e', 'h', 'o', 'l', 'd', 'e', 'r', 'S', 'h', 'o', 'w', 'n'] {
        Some(seq![':', 'p', 'l', 'a', 'c', 'e', 'h', 'o', 'l', 'd', 'e', 'r', '-', 's', 'h', 'o', 'w', 'n'])
    } else if k == seq!['v', 'a', 'l', 'i', 'd'] {
        Some(seq![':', 'v', 'a', 'l', 'i', 'd'])
    } else if k == seq!['i', 'n', 'v', 'a', 'l', 'i', 'd'] {
        Some(seq![':', 'i', 'n', 'v', 'a', 'l', 'i', 'd'])
    } else if k == seq!['r', 'e', 'q', 'u', 'i', 'r', 'e', 'd'] {
        Some(seq![':', 'r', 'e', 'q', 'u', 'i', 'r', 'e', 'd'])
    } else if k == seq!['o', 'p', 't', 'i', 'o', 'n', 'a', 'l'] {
        Some(seq![':', 'o', 'p', 't', 'i', 'o', 'n', 'a', 'l'])
    } else if k == seq!['f', 'u', 'l', 'l', 's', 'c', 'r', 'e', 'e', 'n'] {
        Some(seq![':', 'f', 'u', 'l', 'l', 's', 'c', 'r', 'e', 'e', 'n'])
    } else if k == seq!['f', 'o', 'c', 'u', 's', 'W', 'i', 't', 'h', 'i', 'n'] {
        Some(seq![':', 'f', 'o', 'c', 'u', 's', '-', 'w', 'i', 't', 'h', 'i', 'n'])
    } else if k == seq!['f', 'i', 'r', 's', 't', 'L', 'i', 'n', 'e'] {
        Some(seq![':', ':', 'f', 'i', 'r', 's', 't', '-', 'l', 'i', 'n', 'e'])
    } else if k == seq!['f', 'i', 'r', 's', 't', 'L', 'e', 't', 't', 'e', 'r'] {
        Some(seq![':', ':', 'f', 'i', 'r', 's', 't', '-', 'l', 'e', 't', 't', 'e', 'r'])
    } else if k == seq!['b', 'e', 'f', 'o', 'r', 'e'] {
        Some(seq![':', ':', 'b', 'e', 'f', 'o', 'r', 'e'])
    } else if k == seq!['a', 'f', 't', 'e', 'r'] {
        Some(seq![':', ':', 'a', 'f', 't', 'e', 'r'])
    } else if k == seq!['o', 'u', 't', 'O', 'f', 'R', 'a', 'n', 'g', 'e'] {
        Some(seq![':', 'o', 'u', 't', '-', 'o', 'f', '-', 'r', 'a', 'n', 'g', 'e'])
    } else if k == seq!['r', 'o', 'o', 't'] {
        Some(seq![':', 'r', 'o', 'o', 't'])
    } else if k == seq!['f', 'i', 'r', 's', 't', 'P', 'a', 'g', 'e'] {
        Some(seq![':', 'f', 'i', 'r', 's', 't', '-', 'p', 'a', 'g', 'e'])
    } else if k == seq!['l', 'e', 'f', 't', 'P', 'a', 'g', 'e'] {
        Some(seq![':', 'l', 'e', 'f', 't', '-', 'p', 'a', 'g', 'e'])
    } else if k == seq!['r', 'i', 'g', 'h', 't', 'P', 'a', 'g', 'e'] {
        Some(seq![':', 'r', 'i', 'g', 'h', 't', '-', 'p', 'a', 'g', 'e'])
    } else if k == seq!['e', 'm', 'p', 't', 'y'] {
        Some(seq![':', 'e', 'm', 'p', 't', 'y'])
    } else {
        None
    }
}

pub fn selector_lookup(k: &Vec<char>) -> (r: Option<Vec<char>>)
    ensures
        match r {
            Some(v) => selector_of(k@) == Some(v@),
            None => selector_of(k@).is_none(),
        },
{
    let key = vec!['h', 'o', 'v', 'e', 'r'];
    assert(key@ =~= seq!['h', 'o', 'v', 'e', 'r']);
    if eq_chars(k, &key) {
        let v = vec![':', 'h', 'o', 'v', 'e', 'r'];
        assert(v@ =~= seq![':', 'h', 'o', 'v', 'e', 'r']);
        return Some(v);
    }
    let key = vec!['a', 'c', 't', 'i', 'v', 'e'];
    assert(key@ =~= seq!['a', 'c', 't', 'i', 'v', 'e']);
    if eq_chars(k, &key) {
        let v = vec![':', 'a', 'c', 't', 'i', 'v', 'e'];
        assert(v@ =~= seq![':', 'a', 'c', 't', 'i', 'v', 'e']);
        return Some(v);
    }
    let key = vec!['f', 'o', 'c', 'u', 's'];
    assert(key@ =~= seq!['f', 'o', 'c', 'u', 's']);
    if eq_chars(k, &key) {
        let v = vec![':', 'f', 'o', 'c', 'u', 's'];
        assert(v@ =~= seq![':', 'f', 'o', 'c', 'u', 's']);
        return Some(v);
    }
    let key = vec!['f', 'i', 'r', 's', 't', 'C', 'h', 'i', 'l', 'd'];
    assert(key@ =~= seq!['f', 'i', 'r', 's', 't', 'C', 'h', 'i', 'l', 'd']);
    if eq_chars(k, &key) {
        let v = vec![':', 'f', 'i', 'r', 's', 't', '-', 'c', 'h', 'i', 'l', 'd'];
        assert(v@ =~= seq![':', 'f', 'i', 'r', 's', 't', '-', 'c', 'h', 'i', 'l', 'd']);
        return Some(v);
    }
    let key = vec!['l', 'a', 's', 't', 'C', 'h', 'i', 'l', 'd'];
    assert(key@ =~= seq!['l', 'a', 's', 't', 'C', 'h', 'i', 'l', 'd']);
    if eq_chars(k, &key) {
        let v = vec![':', 'l', 'a', 's', 't', '-', 'c', 'h', 'i', 'l', 'd'];
        assert(v@ =~= seq![':', 'l', 'a', 's', 't', '-', 'c', 'h', 'i', 'l', 'd']);
        return Some(v);
    }
    let key = vec!['f', 'i', 'r', 's', 't', 'O', 'f', 'T', 'y', 'p', 'e'];
    assert(key@ =~= seq!['f', 'i', 'r', 's', 't', 'O', 'f', 'T', 'y', 'p', 'e']);
    if eq_chars(k, &key) {
        let v = vec![':', 'f', 'i', 'r', 's', 't', '-', 'o', 'f', '-', 't', 'y', 'p', 'e'];
        assert(v@ =~= seq![':', 'f', 'i', 'r', 's', 't', '-', 'o', 'f', '-', 't', 'y', 'p', 'e']);
        return Some(v);
    }
    let key = vec!['l', 'a', 's', 't', 'O', 'f', 'T', 'y', 'p', 'e'];
    assert(key@ =~= seq!['l', 'a', 's', 't', 'O', 'f', 'T', 'y', 'p', 'e']);
    if eq_chars(k, &key) {
        let v = vec![':', 'l', 'a', 's', 't', '-', 'o', 'f', '-', 't', 'y', 'p', 'e'];
        assert(v@ =~= seq![':', 'l', 'a', 's', 't', '-', 'o', 'f', '-', 't', 'y', 'p', 'e']);
        return Some(v);
    }
    let key = vec!['o', 'n', 'l', 'y', 'C', 'h', 'i', 'l', 'd'];
    assert(key@ =~= seq!['o', 'n', 'l', 'y', 'C', 'h', 'i', 'l', 'd']);
    if eq_chars(k, &key) {
        let v = vec![':', 'o', 'n', 'l', 'y', '-', 'c', 'h', 'i', 'l', 'd'];
        assert(v@ =~= seq![':', 'o', 'n', 'l', 'y', '-', 'c', 'h', 'i', 'l', 'd']);
        return Some(v);
    }
    let key = vec!['o', 'n', 'l', 'y', 'O', 'f', 'T', 'y', 'p', 'e'];
    assert(key@ =~= seq!['o', 'n', 'l', 'y', 'O', 'f', 'T', 'y', 'p', 'e']);
    if eq_chars(k, &key) {
        let v = vec![':', 'o', 'n', 'l', 'y', '-', 'o', 'f', '-', 't', 'y', 'p', 'e'];
        assert(v@ =~= seq![':', 'o', 'n', 'l', 'y', '-', 'o', 'f', '-', 't', 'y', 'p', 'e']);
        return Some(v);
    }
    let key = vec!['t', 'a', 'r', 'g', 'e', 't', 'P', 's', 'e', 'u', 'd', 'o', 'C', 'l', 'a', 's', 's'];
    assert(key@ =~= seq!['t', 'a', 'r', 'g', 'e', 't', 'P', 's', 'e', 'u', 'd', 'o', 'C', 'l', 'a', 's', 's']);
    if eq_chars(k, &key) {
        let v = vec![':', 't', 'a', 'r', 'g', 'e', 't'];
        assert(v@ =~= seq![':', 't', 'a', 'r', 'g', 'e', 't']);
        return Some(v);
    }
    let key = vec!['v', 'i', 's', 'i', 't', 'e', 'd'];
    assert(key@ =~= seq!['v', 'i', 's', 'i', 't', 'e', 'd']);
    if eq_chars(k, &key) {
        let v = vec![':', 'v', 'i', 's', 'i', 't', 'e', 'd'];
        assert(v@ =~= seq![':', 'v', 'i', 's', 'i', 't', 'e', 'd']);
        return Some(v);
    }
    let key = vec!['c', 'h', 'e', 'c', 'k', 'e', 'd'];
    assert(key@ =~= seq!['c', 'h', 'e', 'c', 'k', 'e', 'd']);
    if eq_chars(k, &key) {
        let v = vec![':', 'c', 'h', 'e', 'c', 'k', 'e', 'd'];
        assert(v@ =~= seq![':', 'c', 'h', 'e', 'c', 'k', 'e', 'd']);
        return Some(v);
    }
    let key = vec!['d', 'i', 's', 'a', 'b', 'l', 'e', 'd'];
    assert(key@ =~= seq!['d', 'i', 's', 'a', 'b', 'l', 'e', 'd']);
    if eq_chars(k, &key) {
        let v = vec![':', 'd', 'i', 's', 'a', 'b', 'l', 'e', 'd'];
        assert(v@ =~= seq![':', 'd', 'i', 's', 'a', 'b', 'l', 'e', 'd']);
        return Some(v);
    }
    let key = vec!['e', 'n', 'a', 'b', 'l', 'e', 'd'];
    assert(key@ =~= seq!['e', 'n', 'a', 'b', 'l', 'e', 'd']);
    if eq_chars(k, &key) {
        let v = vec![':', 'e', 'n', 'a', 'b', 'l', 'e', 'd'];
        assert(v@ =~= seq![':', 'e', 'n', 'a', 'b', 'l', 'e', 'd']);
        return Some(v);
    }
    let key = vec!['r', 'e', 'a', 'd', 'O', 'n', 'l', 'y'];
    assert(key@ =~= seq!['r', 'e', 'a', 'd', 'O', 'n', 'l', 'y']);
    if eq_chars(k, &key) {
        let v = vec![':', 'r', 'e', 'a', 'd', '-', 'o', 'n', 'l', 'y'];
        assert(v@ =~= seq![':', 'r', 'e', 'a', 'd', '-', 'o', 'n', 'l', 'y']);
        return Some(v);
    }
    let key = vec!['r', 'e', 'a', 'd', 'W', 'r', 'i', 't', 'e'];
    assert(key@ =~= seq!['r', 'e', 'a', 'd', 'W', 'r', 'i', 't', 'e']);
    if eq_chars(k, &key) {
        let v = vec![':', 'r', 'e', 'a', 'd', '-', 'w', 'r', 'i', 't', 'e'];
        assert(v@ =~= seq![':', 'r', 'e', 'a', 'd', '-', 'w', 'r', 'i', 't', 'e']);
        return Some(v);
    }
    let key = vec!['p', 'l', 'a', 'c', 'e', 'h', 'o', 'l', 'd', 'e', 'r', 'S', 'h', 'o', 'w', 'n'];
    assert(key@ =~= seq!['p', 'l', 'a', 'c', 'e', 'h', 'o', 'l', 'd', 'e', 'r', 'S', 'h', 'o', 'w', 'n']);
    if eq_chars(k, &key) {
        let v = vec![':', 'p', 'l', 'a', 'c', 'e', 'h', 'o', 'l', 'd', 'e', 'r', '-', 's', 'h', 'o', 'w', 'n'];
        assert(v@ =~= seq![':', 'p', 'l', 'a', 'c', 'e', 'h', 'o', 'l', 'd', 'e', 'r', '-', 's', 'h', 'o', 'w', 'n']);
        return Some(v);
    }
    let key = vec!['v', 'a', 'l', 'i', 'd'];
    assert(key@ =~= seq!['v', 'a', 'l', 'i', 'd']);
    if eq_chars(k, &key) {
        let v = vec![':', 'v', 'a', 'l', 'i', 'd'];
        assert(v@ =~= seq![':', 'v', 'a', 'l', 'i', 'd']);
        return Some(v);
    }
    let key = vec!['i', 'n', 'v', 'a', 'l', 'i', 'd'];
    assert(key@ =~= seq!['i', 'n', 'v', 'a', 'l', 'i', 'd']);
    if eq_chars(k, &key) {
        let v = vec![':', 'i', 'n', 'v', 'a', 'l', 'i', 'd'];
        assert(v@ =~= seq![':', 'i', 'n', 'v', 'a', 'l', 'i', 'd']);
        return Some(v);
    }
    let key = vec!['r', 'e', 'q', 'u', 'i', 'r', 'e', 'd'];
    assert(key@ =~= seq!['r', 'e', 'q', 'u', 'i', 'r', 'e', 'd']);
    if eq_chars(k, &key) {
        let v = vec![':', 'r', 'e', 'q', 'u', 'i', 'r', 'e', 'd'];
        assert(v@ =~= seq![':', 'r', 'e', 'q', 'u', 'i', 'r', 'e', 'd']);
        return Some(v);
    }
    let key = vec!['o', 'p', 't', 'i', 'o', 'n', 'a', 'l'];
    assert(key@ =~= seq!['o', 'p', 't', 'i', 'o', 'n', 'a', 'l']);
    if eq_chars(k, &key) {
        let v = vec![':', 'o', 'p', 't', 'i', 'o', 'n', 'a', 'l'];
        assert(v@ =~= seq![':', 'o', 'p', 't', 'i', 'o', 'n', 'a', 'l']);
        return Some(v);
    }
    let key = vec!['f', 'u', 'l', 'l', 's', 'c', 'r', 'e', 'e', 'n'];
    assert(key@ =~= seq!['f', 'u', 'l', 'l', 's', 'c', 'r', 'e', 'e', 'n']);
    if eq_chars(k, &key) {
        let v = vec![':', 'f', 'u', 'l', 'l', 's', 'c', 'r', 'e', 'e', 'n'];
        assert(v@ =~= seq![':', 'f', 'u', 'l', 'l', 's', 'c', 'r', 'e', 'e', 'n']);
        return Some(v);
    }
    let key = vec!['f', 'o', 'c', 'u', 's', 'W', 'i', 't', 'h', 'i', 'n'];
    assert(key@ =~= seq!['f', 'o', 'c', 'u', 's', 'W', 'i', 't', 'h', 'i', 'n']);
    if eq_chars(k, &key) {
        let v = vec![':', 'f', 'o', 'c', 'u', 's', '-', 'w', 'i', 't', 'h', 'i', 'n'];
        assert(v@ =~= seq![':', 'f', 'o', 'c', 'u', 's', '-', 'w', 'i', 't', 'h', 'i', 'n']);
        return Some(v);
    }
    let key = vec!['f', 'i', 'r', 's', 't', 'L', 'i', 'n', 'e'];
    assert(key@ =~= seq!['f', 'i', 'r', 's', 't', 'L', 'i', 'n', 'e']);
    if eq_chars(k, &key) {
        let v = vec![':', ':', 'f', 'i', 'r', 's', 't', '-', 'l', 'i', 'n', 'e'];
        assert(v@ =~= seq![':', ':', 'f', 'i', 'r', 's', 't', '-', 'l', 'i', 'n', 'e']);
        return Some(v);
    }
    let key = vec!['f', 'i', 'r', 's', 't', 'L', 'e', 't', 't', 'e', 'r'];
    assert(key@ =~= seq!['f', 'i', 'r', 's', 't', 'L', 'e', 't', 't', 'e', 'r']);
    if eq_chars(k, &key) {
        let v = vec![':', ':', 'f', 'i', 'r', 's', 't', '-', 'l', 'e', 't', 't', 'e', 'r'];
        assert(v@ =~= seq![':', ':', 'f', 'i', 'r', 's', 't', '-', 'l', 'e', 't', 't', 'e', 'r']);
        return Some(v);
    }
    let key = vec!['b', 'e', 'f', 'o', 'r', 'e'];
    assert(key@ =~= seq!['b', 'e', 'f', 'o', 'r', 'e']);
    if eq_chars(k, &key) {
        let v = vec![':', ':', 'b', 'e', 'f', 'o', 'r', 'e'];
        assert(v@ =~= seq![':', ':', 'b', 'e', 'f', 'o', 'r', 'e']);
        return Some(v);
    }
    let key = vec!['a', 'f', 't', 'e', 'r'];
    assert(key@ =~= seq!['a', 'f', 't', 'e', 'r']);
    if eq_chars(k, &key) {
        let v = vec![':', ':', 'a', 'f', 't', 'e', 'r'];
        assert(v@ =~= seq![':', ':', 'a', 'f', 't', 'e', 'r']);
        return Some(v);
    }
    let key = vec!['o', 'u', 't', 'O', 'f', 'R', 'a', 'n', 'g', 'e'];
    assert(key@ =~= seq!['o', 'u', 't', 'O', 'f', 'R', 'a', 'n', 'g', 'e']);
    if eq_chars(k, &key) {
        let v = vec![':', 'o', 'u', 't', '-', 'o', 'f', '-', 'r', 'a', 'n', 'g', 'e'];
        assert(v@ =~= seq![':', 'o', 'u', 't', '-', 'o', 'f', '-', 'r', 'a', 'n', 'g', 'e']);
        return Some(v);
    }
    let key = vec!['r', 'o', 'o', 't'];
    assert(key@ =~= seq!['r', 'o', 'o', 't']);
    if eq_chars(k, &key) {
        let v = vec![':', 'r', 'o', 'o', 't'];
        assert(v@ =~= seq![':', 'r', 'o', 'o', 't']);
        return Some(v);
    }
    let key = vec!['f', 'i', 'r', 's', 't', 'P', 'a', 'g', 'e'];
    assert(key@ =~= seq!['f', 'i', 'r', 's', 't', 'P', 'a', 'g', 'e']);
    if eq_chars(k, &key) {
        let v = vec![':', 'f', 'i', 'r', 's', 't', '-', 'p', 'a', 'g', 'e'];
        assert(v@ =~= seq![':', 'f', 'i', 'r', 's', 't', '-', 'p', 'a', 'g', 'e']);
        return Some(v);
    }
    let key = vec!['l', 'e', 'f', 't', 'P', 'a', 'g', 'e'];
    assert(key@ =~= seq!['l', 'e', 'f', 't', 'P', 'a', 'g', 'e']);
    if eq_chars(k, &key) {
        let v = vec![':', 'l', 'e', 'f', 't', '-', 'p', 'a', 'g', 'e'];
        assert(v@ =~= seq![':', 'l', 'e', 'f', 't', '-', 'p', 'a', 'g', 'e']);
        return Some(v);
    }
    let key = vec!['r', 'i', 'g', 'h', 't', 'P', 'a', 'g', 'e'];
    assert(key@ =~= seq!['r', 'i', 'g', 'h', 't', 'P', 'a', 'g', 'e']);
    if eq_chars(k, &key) {
        let v = vec![':', 'r', 'i', 'g', 'h', 't', '-', 'p', 'a', 'g', 'e'];
        assert(v@ =~= seq![':', 'r', 'i', 'g', 'h', 't', '-', 'p', 'a', 'g', 'e']);
        return Some(v);
    }
    let key = vec!['e', 'm', 'p', 't', 'y'];
    assert(key@ =~= seq!['e', 'm', 'p', 't', 'y']);
    if eq_chars(k, &key) {
        let v = vec![':', 'e', 'm', 'p', 't', 'y'];
        assert(v@ =~= seq![':', 'e', 'm', 'p', 't', 'y']);
        return Some(v);
    }
    None
}

/// The CSS media feature that a breakpoint name stands for.
pub open spec fn screen_of(k: Seq<char>) -> Option<Seq<char>> {
    if k == seq!['m', 'i', 'n', '4', 'K'] {
        Some(seq!['m', 'i', 'n', '-', 'w', 'i', 'd', 't', 'h', ':', ' ', '2', '5', '6', '0', 'p', 'x'])
    } else if k == seq!['m', 'i', 'n', 'X', 'L', 'D', 'e', 's', 'k', 't', 'o', 'p'] {
        Some(seq!['m', 'i', 'n', '-', 'w', 'i', 'd', 't', 'h', ':', ' ', '1', '4', '4', '0', 'p', 'x'])
    } else if k == seq!['m', 'i', 'n', 'L', 'a', 'r', 'g', 'e', 'D', 'e', 's', 'k', 't', 'o', 'p'] {
        Some(seq!['m', 'i', 'n', '-', 'w', 'i', 'd', 't', 'h', ':', ' ', '1', '2', '0', '0', 'p', 'x'])
    } else if k == seq!['m', 'i', 'n', 'S', 't', 'a', 'n', 'd', 'a', 'r', 'd', 'D', 'e', 's', 'k', 't', 'o', 'p'] {
        Some(seq!['m', 'i', 'n', '-', 'w', 'i', 'd', 't', 'h', ':', ' ', '9', '9', '2', 'p', 'x'])
    } else if k == seq!['m', 'i', 'n', 'S', 'm', 'a', 'l', 'l', 'T', 'a', 'b', 'l', 'e', 't', 'P', 'o', 'r', 't', 'r', 'a', 'i', 't'] {
        Some(seq!['m', 'i', 'n', '-', 'w', 'i', 'd', 't', 'h', ':', ' ', '7', '6', '8', 'p', 'x'])
    } else if k == seq!['m', 'i', 'n', 'M', 'e', 'd', 'i', 'u', 'm', 'P', 'h', 'o', 'n', 'e'] {
        Some(seq!['m', 'i', 'n', '-', 'w', 'i', 'd', 't', 'h', ':', ' ', '4', '2', '6', 'p', 'x'])
    } else if k == seq!['m', 'i', 'n', 'S', 'm', 'a', 'l', 'l', 'P', 'h', 'o', 'n', 'e'] {
        Some(seq!['m', 'i', 'n', '-', 'w', 'i', 'd', 't', 'h', ':', ' ', '3', '2', '0', 'p', 'x'])
    } else if k == seq!['m', 'a', 'x', '4', 'K'] {
        Some(seq!['m', 'a', 'x', '-', 'w', 'i', 'd', 't', 'h', ':', ' ', '2', '5', '5', '9', 'p', 'x'])
    } else if k == seq!['m', 'a', 'x', 'X', 'L', 'D', 'e', 's', 'k', 't', 'o', 'p'] {
        Some(seq!['m', 'a', 'x', '-', 'w', 'i', 'd', 't', 'h', ':', ' ', '1', '4', '3', '9', 'p', 'x'])
    } else if k == seq!['m', 'a', 'x', 'L', 'a', 'r', 'g', 'e', 'D', 'e', 's', 'k', 't', 'o', 'p'] {
        Some(seq!['m', 'a', 'x', '-', 'w', 'i', 'd', 't', 'h', ':', ' ', '1', '1', '9', '9', 'p', 'x'])
    } else if k == seq!['m', 'a', 'x', 'S', 't', 'a', 'n', 'd', 'a', 'r', 'd', 'D', 'e', 's', 'k', 't', 'o', 'p'] {
        Some(seq!['m', 'a', 'x', '-', 'w', 'i', 'd', 't', 'h', ':', ' ', '9', '9', '1', 'p', 'x'])
    } else if k == seq!['m', 'a', 'x', 'S', 'm', 'a', 'l', 'l', 'T', 'a', 'b', 'l', 'e', 't', 'P', 'o', 'r', 't', 'r', 'a', 'i', 't'] {
        Some(seq!['m', 'a', 'x', '-', 'w', 'i', 'd', 't', 'h', ':', ' ', '7', '6', '7', 'p', 'x'])
    } else if k == seq!['m', 'a', 'x', 'M', 'e', 'd', 'i', 'u', 'm', 'P', 'h', 'o', 'n', 'e'] {
        Some(seq!['m', 'a', 'x', '-', 'w', 'i', 'd', 't', 'h', ':', ' ', '4', '8', '0', 'p', 'x'])
    } else if k == seq!['m', 'a', 'x', 'S', 'm', 'a', 'l', 'l', 'P', 'h', 'o', 'n', 'e'] {
        Some(seq!['m', 'a', 'x', '-', 'w', 'i', 'd', 't', 'h', ':', ' ', '4', '2', '5', 'p', 'x'])
    } else {
        None
    }
}

pub fn screen_lookup(k: &Vec<char>) -> (r: Option<Vec<char>>)
    ensures
        match r {
            Some(v) => screen_of(k@) == Some(v@),
            None => screen_of(k@).is_none(),
        },
{
    let key = vec!['m', 'i', 'n', '4', 'K'];
    assert(key@ =~= seq!['m', 'i', 'n', '4', 'K']);
    if eq_chars(k, &key) {
        let v = vec!['m', 'i', 'n', '-', 'w', 'i', 'd', 't', 'h', ':', ' ', '2', '5', '6', '0', 'p', 'x'];
        assert(v@ =~= seq!['m', 'i', 'n', '-', 'w', 'i', 'd', 't', 'h', ':', ' ', '2', '5', '6', '0', 'p', 'x']);
        return Some(v);
    }
    let key = vec!['m', 'i', 'n', 'X', 'L', 'D', 'e', 's', 'k', 't', 'o', 'p'];
    assert(key@ =~= seq!['m', 'i', 'n', 'X', 'L', 'D', 'e', 's', 'k', 't', 'o', 'p']);
    if eq_chars(k, &key) {
        let v = vec!['m', 'i', 'n', '-', 'w', 'i', 'd', 't', 'h', ':', ' ', '1', '4', '4', '0', 'p', 'x'];
        assert(v@ =~= seq!['m', 'i', 'n', '-', 'w', 'i', 'd', 't', 'h', ':', ' ', '1', '4', '4', '0', 'p', 'x']);
        return Some(v);
    }
    let key = vec!['m', 'i', 'n', 'L', 'a', 'r', 'g', 'e', 'D', 'e', 's', 'k', 't', 'o', 'p'];
    assert(key@ =~= seq!['m', 'i', 'n', 'L', 'a', 'r', 'g', 'e', 'D', 'e', 's', 'k', 't', 'o', 'p']);
    if eq_chars(k, &key) {
        let v = vec!['m', 'i', 'n', '-', 'w', 'i', 'd', 't', 'h', ':', ' ', '1', '2', '0', '0', 'p', 'x'];
        assert(v@ =~= seq!['m', 'i', 'n', '-', 'w', 'i', 'd', 't', 'h', ':', ' ', '1', '2', '0', '0', 'p', 'x']);
        return Some(v);
    }
    let key = vec!['m', 'i', 'n', 'S', 't', 'a', 'n', 'd', 'a', 'r', 'd', 'D', 'e', 's', 'k', 't', 'o', 'p'];
    assert(key@ =~= seq!['m', 'i', 'n', 'S', 't', 'a', 'n', 'd', 'a', 'r', 'd', 'D', 'e', 's', 'k', 't', 'o', 'p']);
    if eq_chars(k, &key) {
        let v = vec!['m', 'i', 'n', '-', 'w', 'i', 'd', 't', 'h', ':', ' ', '9', '9', '2', 'p', 'x'];
        assert(v@ =~= seq!['m', 'i', 'n', '-', 'w', 'i', 'd', 't', 'h', ':', ' ', '9', '9', '2', 'p', 'x']);
        return Some(v);
    }
    let key = vec!['m', 'i', 'n', 'S', 'm', 'a', 'l', 'l', 'T', 'a', 'b', 'l', 'e', 't', 'P', 'o', 'r', 't', 'r', 'a', 'i', 't'];
    assert(key@ =~= seq!['m', 'i', 'n', 'S', 'm', 'a', 'l', 'l', 'T', 'a', 'b', 'l', 'e', 't', 'P', 'o', 'r', 't', 'r', 'a', 'i', 't']);
    if eq_chars(k, &key) {
        let v = vec!['m', 'i', 'n', '-', 'w', 'i', 'd', 't', 'h', ':', ' ', '7', '6', '8', 'p', 'x'];
        assert(v@ =~= seq!['m', 'i', 'n', '-', 'w', 'i', 'd', 't', 'h', ':', ' ', '7', '6', '8', 'p', 'x']);
        return Some(v);
    }
    let key = vec!['m', 'i', 'n', 'M', 'e', 'd', 'i', 'u', 'm', 'P', 'h', 'o', 'n', 'e'];
    assert(key@ =~= seq!['m', 'i', 'n', 'M', 'e', 'd', 'i', 'u', 'm', 'P', 'h', 'o', 'n', 'e']);
    if eq_chars(k, &key) {
        let v = vec!['m', 'i', 'n', '-', 'w', 'i', 'd', 't', 'h', ':', ' ', '4', '2', '6', 'p', 'x'];
        assert(v@ =~= seq!['m', 'i', 'n', '-', 'w', 'i', 'd', 't', 'h', ':', ' ', '4', '2', '6', 'p', 'x']);
        return Some(v);
    }
    let key = vec!['m', 'i', 'n', 'S', 'm', 'a', 'l', 'l', 'P', 'h', 'o', 'n', 'e'];
    assert(key@ =~= seq!['m', 'i', 'n', 'S', 'm', 'a', 'l', 'l', 'P', 'h', 'o', 'n', 'e']);
    if eq_chars(k, &key) {
        let v = vec!['m', 'i', 'n', '-', 'w', 'i', 'd', 't', 'h', ':', ' ', '3', '2', '0', 'p', 'x'];
        assert(v@ =~= seq!['m', 'i', 'n', '-', 'w', 'i', 'd', 't', 'h', ':', ' ', '3', '2', '0', 'p', 'x']);
        return Some(v);
    }
    let key = vec!['m', 'a', 'x', '4', 'K'];
    assert(key@ =~= seq!['m', 'a', 'x', '4', 'K']);
    if eq_chars(k, &key) {
        let v = vec!['m', 'a', 'x', '-', 'w', 'i', 'd', 't', 'h', ':', ' ', '2', '5', '5', '9', 'p', 'x'];
        assert(v@ =~= seq!['m', 'a', 'x', '-', 'w', 'i', 'd', 't', 'h', ':', ' ', '2', '5', '5', '9', 'p', 'x']);
        return Some(v);
    }
    let key = vec!['m', 'a', 'x', 'X', 'L', 'D', 'e', 's', 'k', 't', 'o', 'p'];
    assert(key@ =~= seq!['m', 'a', 'x', 'X', 'L', 'D', 'e', 's', 'k', 't', 'o', 'p']);
    if eq_chars(k, &key) {
        let v = vec!['m', 'a', 'x', '-', 'w', 'i', 'd', 't', 'h', ':', ' ', '1', '4', '3', '9', 'p', 'x'];
        assert(v@ =~= seq!['m', 'a', 'x', '-', 'w', 'i', 'd', 't', 'h', ':', ' ', '1', '4', '3', '9', 'p', 'x']);
        return Some(v);
    }
    let key = vec!['m', 'a', 'x', 'L', 'a', 'r', 'g', 'e', 'D', 'e', 's', 'k', 't', 'o', 'p'];
    assert(key@ =~= seq!['m', 'a', 'x', 'L', 'a', 'r', 'g', 'e', 'D', 'e', 's', 'k', 't', 'o', 'p']);
    if eq_chars(k, &key) {
        let v = vec!['m', 'a', 'x', '-', 'w', 'i', 'd', 't', 'h', ':', ' ', '1', '1', '9', '9', 'p', 'x'];
        assert(v@ =~= seq!['m', 'a', 'x', '-', 'w', 'i', 'd', 't', 'h', ':', ' ', '1', '1', '9', '9', 'p', 'x']);
        return Some(v);
    }
    let key = vec!['m', 'a', 'x', 'S', 't', 'a', 'n', 'd', 'a', 'r', 'd', 'D', 'e', 's', 'k', 't', 'o', 'p'];
    assert(key@ =~= seq!['m', 'a', 'x', 'S', 't', 'a', 'n', 'd', 'a', 'r', 'd', 'D', 'e', 's', 'k', 't', 'o', 'p']);
    if eq_chars(k, &key) {
        let v = vec!['m', 'a', 'x', '-', 'w', 'i', 'd', 't', 'h', ':', ' ', '9', '9', '1', 'p', 'x'];
        assert(v@ =~= seq!['m', 'a', 'x', '-', 'w', 'i', 'd', 't', 'h', ':', ' ', '9', '9', '1', 'p', 'x']);
        return Some(v);
    }
    let key = vec!['m', 'a', 'x', 'S', 'm', 'a', 'l', 'l', 'T', 'a', 'b', 'l', 'e', 't', 'P', 'o', 'r', 't', 'r', 'a', 'i', 't'];
    assert(key@ =~= seq!['m', 'a', 'x', 'S', 'm', 'a', 'l', 'l', 'T', 'a', 'b', 'l', 'e', 't', 'P', 'o', 'r', 't', 'r', 'a', 'i', 't']);
    if eq_chars(k, &key) {
        let v = vec!['m', 'a', 'x', '-', 'w', 'i', 'd', 't', 'h', ':', ' ', '7', '6', '7', 'p', 'x'];
        assert(v@ =~= seq!['m', 'a', 'x', '-', 'w', 'i', 'd', 't', 'h', ':', ' ', '7', '6', '7', 'p', 'x']);
        return Some(v);
    }
    let key = vec!['m', 'a', 'x', 'M', 'e', 'd', 'i', 'u', 'm', 'P', 'h', 'o', 'n', 'e'];
    assert(key@ =~= seq!['m', 'a', 'x', 'M', 'e', 'd', 'i', 'u', 'm', 'P', 'h', 'o', 'n', 'e']);
    if eq_chars(k, &key) {
        let v = vec!['m', 'a', 'x', '-', 'w', 'i', 'd', 't', 'h', ':', ' ', '4', '8', '0', 'p', 'x'];
        assert(v@ =~= seq!['m', 'a', 'x', '-', 'w', 'i', 'd', 't', 'h', ':', ' ', '4', '8', '0', 'p', 'x']);
        return Some(v);
    }
    let key = vec!['m', 'a', 'x', 'S', 'm', 'a', 'l', 'l', 'P', 'h', 'o', 'n', 'e'];
    assert(key@ =~= seq!['m', 'a', 'x', 'S', 'm', 'a', 'l', 'l', 'P', 'h', 'o', 'n', 'e']);
    if eq_chars(k, &key) {
        let v = vec!['m', 'a', 'x', '-', 'w', 'i', 'd', 't', 'h', ':', ' ', '4', '2', '5', 'p', 'x'];
        assert(v@ =~= seq!['m', 'a', 'x', '-', 'w', 'i', 'd', 't', 'h', ':', ' ', '4', '2', '5', 'p', 'x']);
        return Some(v);
    }
    None
}

} // verus!
