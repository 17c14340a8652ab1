//! Normalisation of import specifiers into project-relative paths.
use vstd::prelude::*;
use crate::text::{chars_of, has_at, matches_at, starts, string_of};

verus! {

/// `s` with every occurrence of `p` removed, scanning left to right without overlap.
pub open spec fn remove_all(s: Seq<char>, p: Seq<char>) -> Seq<char>
    recommends
        p.len() > 0,
    decreases s.len(),
{
    if s.len() == 0 || p.len() == 0 {
        s
    } else if has_at(s, 0, p) {
        remove_all(s.subrange(p.len() as int, s.len() as int), p)
    } else {
        seq![s[0]] + remove_all(s.subrange(1, s.len() as int), p)
    }
}

/// The number of non-overlapping occurrences of `p` in `s`, left to right.
pub open spec fn count_occ(s: Seq<char>, p: Seq<char>) -> nat
    decreases s.len(),
{
    if s.len() == 0 || p.len() == 0 {
        0
    } else if has_at(s, 0, p) {
        1 + count_occ(s.subrange(p.len() as int, s.len() as int), p)
    } else {
        count_occ(s.subrange(1, s.len() as int), p)
    }
}

/// The non-empty `/`-separated segments of `s[i..]`, the current one starting with `cur`.
pub open spec fn segs(s: Seq<char>, i: int, cur: Seq<char>) -> Seq<Seq<char>>
    decreases s.len() - i,
{
    if i < 0 || i >= s.len() {
        if cur.len() > 0 {
            seq![cur]
        } else {
            seq![]
        }
    } else if s[i] == '/' {
        (if cur.len() > 0 {
            seq![cur]
        } else {
            seq![]
        }) + segs(s, i + 1, seq![])
    } else {
        segs(s, i + 1, cur.push(s[i]))
    }
}

/// The non-empty segments of a path.
pub open spec fn segments(s: Seq<char>) -> Seq<Seq<char>> {
    segs(s, 0, seq![])
}

/// Segments joined with `/`.
pub open spec fn join(parts: Seq<Seq<char>>) -> Seq<char>
    decreases parts.len(),
{
    if parts.len() == 0 {
        seq![]
    } else if parts.len() == 1 {
        parts[0]
    } else {
        join(parts.drop_last()) + seq!['/'] + parts.last()
    }
}

pub open spec fn dot_slash() -> Seq<char> {
    seq!['.', '/']
}

pub open spec fn dot_dot_slash() -> Seq<char> {
    seq!['.', '.', '/']
}

pub open spec fn at_slash() -> Seq<char> {
    seq!['@', '/']
}

pub open spec fn slash_at() -> Seq<char> {
    seq!['/', '@']
}

/// The normalised form of `import` as seen from the file at `path`.
/// A relative specifier walks up one directory per `../`, drops the file's own
/// segment, and joins the directories kept and the specifier without its `./`
/// and `../` tokens with `/`, with no leading `/`. An aliased or bare specifier becomes
/// rooted at `/` without its `@/` tokens. Any other is kept.
pub open spec fn normalize(path: Seq<char>, import: Seq<char>) -> Seq<char> {
    if starts(import, dot_dot_slash()) || starts(import, dot_slash()) {
        let parts = segments(path);
        let ups: int = count_occ(import, dot_dot_slash()) as int;
        let keep: int = if parts.len() - ups - 1 > 0 {
            parts.len() - ups - 1
        } else {
            0
        };
        join(parts.take(keep).push(remove_all(remove_all(import, dot_dot_slash()), dot_slash())))
    } else if starts(import, slash_at()) || !starts(import, seq!['/']) {
        seq!['/'] + remove_all(import, at_slash())
    } else {
        import
    }
}

pub fn remove_all_exec(s: &Vec<char>, p: &Vec<char>) -> (r: Vec<char>)
    requires
        p.len() > 0,
    ensures
        r@ == remove_all(s@, p@),
{
    let mut r: Vec<char> = Vec::new();
    let mut i: usize = 0;
    assert(s@.subrange(0, s.len() as int) =~= s@);
    assert(r@ + s@ =~= s@);
    while i < s.len()
        invariant
            i <= s.len(),
            p.len() > 0,
            r@ + remove_all(s@.subrange(i as int, s.len() as int), p@) == remove_all(s@, p@),
        decreases s.len() - i,
    {
        let ghost rest = s@.subrange(i as int, s.len() as int);
        if matches_at(s, i, p) {
            assert(has_at(rest, 0, p@)) by {
                assert(rest.subrange(0, p@.len() as int) =~= s@.subrange(i as int, i + p@.len()));
            }
            assert(rest.subrange(p.len() as int, rest.len() as int) =~= s@.subrange(i + p.len(), s.len() as int));
            i = i + p.len();
        } else {
            assert(!has_at(rest, 0, p@)) by {
                if has_at(rest, 0, p@) {
                    assert(rest.subrange(0, p@.len() as int) =~= s@.subrange(i as int, i + p@.len()));
                }
            }
            assert(rest.subrange(1, rest.len() as int) =~= s@.subrange(i + 1, s.len() as int));
            let ghost before = r@;
            r.push(s[i]);
            assert(before + (seq![rest[0]] + remove_all(rest.subrange(1, rest.len() as int), p@)) =~= r@
                + remove_all(rest.subrange(1, rest.len() as int), p@));
            i = i + 1;
        }
    }
    assert(r@ + remove_all(s@.subrange(i as int, s.len() as int), p@) =~= r@);
    r
}

fn count_occ_exec(s: &Vec<char>, p: &Vec<char>) -> (r: usize)
    requires
        p.len() > 0,
    ensures
        r as nat == count_occ(s@, p@),
{
    let mut r: usize = 0;
    let mut i: usize = 0;
    assert(s@.subrange(0, s.len() as int) =~= s@);
    while i < s.len()
        invariant
            i <= s.len(),
            r <= i,
            p.len() > 0,
            r + count_occ(s@.subrange(i as int, s.len() as int), p@) == count_occ(s@, p@),
        decreases s.len() - i,
    {
        let ghost rest = s@.subrange(i as int, s.len() as int);
        if matches_at(s, i, p) {
            assert(has_at(rest, 0, p@)) by {
                assert(rest.subrange(0, p@.len() as int) =~= s@.subrange(i as int, i + p@.len()));
            }
            assert(rest.subrange(p.len() as int, rest.len() as int) =~= s@.subrange(i + p.len(), s.len() as int));
            i = i + p.len();
            r = r + 1;
        } else {
            assert(!has_at(rest, 0, p@)) by {
                if has_at(rest, 0, p@) {
                    assert(rest.subrange(0, p@.len() as int) =~= s@.subrange(i as int, i + p@.len()));
                }
            }
            assert(rest.subrange(1, rest.len() as int) =~= s@.subrange(i + 1, s.len() as int));
            i = i + 1;
        }
    }
    r
}

fn segments_exec(s: &Vec<char>) -> (r: Vec<Vec<char>>)
    ensures
        r@.map_values(|v: Vec<char>| v@) == segments(s@),
{
    let mut r: Vec<Vec<char>> = Vec::new();
    let mut cur: Vec<char> = Vec::new();
    let mut i: usize = 0;
    while i < s.len()
        invariant
            i <= s.len(),
            r@.map_values(|v: Vec<char>| v@) + segs(s@, i as int, cur@) == segments(s@),
        decreases s.len() - i,
    {
        if s[i] == '/' {
            if cur.len() > 0 {
                let ghost before = r@.map_values(|v: Vec<char>| v@);
                let ghost c = cur@;
                r.push(cur);
                assert(r@.map_values(|v: Vec<char>| v@) =~= before.push(c));
                assert(before + (seq![c] + segs(s@, i + 1, seq![])) =~= before.push(c) + segs(s@, i + 1, seq![]));
            } else {
                assert(seq![] + segs(s@, i + 1, seq![]) =~= segs(s@, i + 1, seq![]));
            }
            cur = Vec::new();
            assert(cur@ =~= seq![]);
        } else {
            cur.push(s[i]);
        }
        i += 1;
    }
    if cur.len() > 0 {
        let ghost before = r@.map_values(|v: Vec<char>| v@);
        let ghost c = cur@;
        r.push(cur);
        assert(r@.map_values(|v: Vec<char>| v@) =~= before.push(c));
        assert(before + seq![c] =~= before.push(c));
    } else {
        assert(r@.map_values(|v: Vec<char>| v@) + seq![] =~= r@.map_values(|v: Vec<char>| v@));
    }
    r
}

fn join_exec(parts: &Vec<Vec<char>>, n: usize) -> (r: Vec<char>)
    requires
        n <= parts.len(),
    ensures
        r@ == join(parts@.map_values(|v: Vec<char>| v@).take(n as int)),
{
    let ghost all = parts@.map_values(|v: Vec<char>| v@);
    let mut r: Vec<char> = Vec::new();
    let mut k: usize = 0;
    while k < n
        invariant
            k <= n <= parts.len(),
            all == parts@.map_values(|v: Vec<char>| v@),
            r@ == join(all.take(k as int)),
        decreases n - k,
    {
        let ghost before = r@;
        if k > 0 {
            r.push('/');
        }
        let part = &parts[k];
        let mut j: usize = 0;
        let ghost mid = r@;
        while j < part.len()
            invariant
                j <= part.len(),
                r@ == mid + part@.subrange(0, j as int),
            decreases part.len() - j,
        {
            r.push(part[j]);
            assert(r@ =~= mid + part@.subrange(0, j + 1));
            j += 1;
        }
        assert(part@.subrange(0, part@.len() as int) =~= part@);
        assert(all.take(k + 1).drop_last() =~= all.take(k as int));
        assert(all[k as int] == part@);
        if k > 0 {
            assert(r@ =~= before + seq!['/'] + part@);
        } else {
            assert(r@ =~= part@);
        }
        k += 1;
    }
    r
}

/// Normalises an import specifier relative to the file that contains it.
pub fn pathify(path: &String, import: &String) -> (r: String)
    ensures
        r@ == normalize(path@, import@),
{
    let p = chars_of(path.as_str());
    let im = chars_of(import.as_str());
    let dds = vec!['.', '.', '/'];
    assert(dds@ =~= dot_dot_slash());
    let ds = vec!['.', '/'];
    assert(ds@ =~= dot_slash());
    let ats = vec!['@', '/'];
    assert(ats@ =~= at_slash());
    let sat = vec!['/', '@'];
    assert(sat@ =~= slash_at());
    let sl = vec!['/'];
    assert(sl@ =~= seq!['/']);
    let up = matches_at(&im, 0, &dds);
    if up || matches_at(&im, 0, &ds) {
        let parts = segments_exec(&p);
        let ghost pv = parts@.map_values(|v: Vec<char>| v@);
        assert(pv.len() == parts@.len());
        let ups: usize = count_occ_exec(&im, &dds);
        let keep: usize = if parts.len() > ups && parts.len() - ups > 1 {
            parts.len() - ups - 1
        } else {
            0
        };
        let mut joined = join_exec(&parts, keep);
        let tail = remove_all_exec(&remove_all_exec(&im, &dds), &ds);
        let ghost head = joined@;
        proof {
            let kept = pv.take(keep as int);
            let all = kept.push(tail@);
            assert(all.drop_last() =~= kept);
            assert(all.last() == tail@);
            if keep == 0 {
                assert(kept.len() == 0);
                assert(head =~= seq![]);
            }
        }
        if keep > 0 {
            joined.push('/');
        }
        let ghost head2 = joined@;
        let mut k: usize = 0;
        while k < tail.len()
            invariant
                k <= tail.len(),
                joined@ == head2 + tail@.subrange(0, k as int),
            decreases tail.len() - k,
        {
            joined.push(tail[k]);
            assert(joined@ =~= head2 + tail@.subrange(0, k + 1));
            k += 1;
        }
        assert(tail@.subrange(0, tail@.len() as int) =~= tail@);
        proof {
            let kept = pv.take(keep as int);
            let all = kept.push(tail@);
            if keep > 0 {
                assert(joined@ =~= join(kept) + seq!['/'] + tail@);
            } else {
                assert(all =~= seq![tail@]);
                assert(joined@ =~= tail@);
            }
        }
        string_of(&joined)
    } else if matches_at(&im, 0, &sat) || !matches_at(&im, 0, &sl) {
        let mut out: Vec<char> = vec!['/'];
        let tail = remove_all_exec(&im, &ats);
        let mut k: usize = 0;
        while k < tail.len()
            invariant
                k <= tail.len(),
                out@ == seq!['/'] + tail@.subrange(0, k as int),
            decreases tail.len() - k,
        {
            out.push(tail[k]);
            assert(out@ =~= seq!['/'] + tail@.subrange(0, k + 1));
            k += 1;
        }
        assert(tail@.subrange(0, tail@.len() as int) =~= tail@);
        string_of(&out)
    } else {
        string_of(&im)
    }
}

} // verus!
