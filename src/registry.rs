//! The style registry: the store of generated atomic rules, by bucket and key,
//! and the map of generated class names, by identifier.
use vstd::prelude::*;
use crate::entries::{find_key, get, key_pos, lemma_key_pos, lemma_key_pos_same_keys, lemma_put_put, pairs_view, put, put_pair};

verus! {

/// The bucket of the rule store that a rule goes to.
#[derive(PartialEq, Eq, Structural, Clone, Copy)]
pub enum Bucket {
    /// Plain property rules, keyed by property name.
    Properties,
    /// Pseudo-selector rules, keyed by the declared selector name.
    PseudoSelectors,
    /// Breakpoint rules, keyed by the breakpoint name.
    MediaQueries,
    /// Target-children rules, under the single key `children`.
    TargetChildren,
}

/// A list of rule fragments per key.
pub type RuleList = Vec<(String, Vec<String>)>;

pub open spec fn strings_view(v: Seq<String>) -> Seq<Seq<char>> {
    v.map_values(|s: String| s@)
}

pub open spec fn rules_view(m: Seq<(String, Vec<String>)>) -> Seq<(Seq<char>, Seq<Seq<char>>)> {
    m.map_values(|e: (String, Vec<String>)| (e.0@, strings_view(e.1@)))
}

/// Appends fragment `f` under key `k`, unless that key already holds it.
pub open spec fn append_rule(
    m: Seq<(Seq<char>, Seq<Seq<char>>)>,
    k: Seq<char>,
    f: Seq<char>,
) -> Seq<(Seq<char>, Seq<Seq<char>>)> {
    let p = key_pos(m, k, 0);
    if p >= 0 {
        if m[p].1.contains(f) {
            m
        } else {
            m.update(p, (k, m[p].1.push(f)))
        }
    } else {
        m.push((k, seq![f]))
    }
}

/// The fragments held under a key.
pub open spec fn fragments(m: Seq<(Seq<char>, Seq<Seq<char>>)>, k: Seq<char>) -> Seq<Seq<char>> {
    match get(m, k) {
        Some(v) => v,
        None => seq![],
    }
}

/// No key holds the same fragment twice.
pub open spec fn no_duplicate_fragments(m: Seq<(Seq<char>, Seq<Seq<char>>)>) -> bool {
    forall|i: int| 0 <= i < m.len() ==> (#[trigger] m[i]).1.no_duplicates()
}

/// Names by key path: identifier, key, sub-key, leaf key.
pub type NameLeaves = Vec<(String, String)>;

pub type LeavesModel = Seq<(Seq<char>, Seq<char>)>;

pub type Level2Model = Seq<(Seq<char>, LeavesModel)>;

pub type Level1Model = Seq<(Seq<char>, Level2Model)>;

pub type NameLevel2 = Vec<(String, NameLeaves)>;

pub type NameLevel1 = Vec<(String, NameLevel2)>;

pub type NameMap = Vec<(String, NameLevel1)>;

pub open spec fn level2_view(m: Seq<(String, NameLeaves)>) -> Seq<(Seq<char>, Seq<(Seq<char>, Seq<char>)>)> {
    m.map_values(|e: (String, NameLeaves)| (e.0@, pairs_view(e.1@)))
}

pub open spec fn level1_view(m: Seq<(String, NameLevel2)>) -> Seq<(Seq<char>, Seq<(Seq<char>, Seq<(Seq<char>, Seq<char>)>)>)> {
    m.map_values(|e: (String, NameLevel2)| (e.0@, level2_view(e.1@)))
}

pub open spec fn names_view(m: Seq<(String, NameLevel1)>) -> Seq<(Seq<char>, Seq<(Seq<char>, Seq<(Seq<char>, Seq<(Seq<char>, Seq<char>)>)>)>)> {
    m.map_values(|e: (String, NameLevel1)| (e.0@, level1_view(e.1@)))
}

/// The inner list under `k`, or an empty one.
pub open spec fn inner<V>(m: Seq<(Seq<char>, Seq<V>)>, k: Seq<char>) -> Seq<V> {
    match get(m, k) {
        Some(v) => v,
        None => seq![],
    }
}

pub open spec fn put2(
    m: Seq<(Seq<char>, Seq<(Seq<char>, Seq<char>)>)>,
    b: Seq<char>,
    c: Seq<char>,
    v: Seq<char>,
) -> Seq<(Seq<char>, Seq<(Seq<char>, Seq<char>)>)> {
    put(m, b, put(inner(m, b), c, v))
}

pub open spec fn put3(
    m: Seq<(Seq<char>, Seq<(Seq<char>, Seq<(Seq<char>, Seq<char>)>)>)>,
    a: Seq<char>,
    b: Seq<char>,
    c: Seq<char>,
    v: Seq<char>,
) -> Seq<(Seq<char>, Seq<(Seq<char>, Seq<(Seq<char>, Seq<char>)>)>)> {
    put(m, a, put2(inner(m, a), b, c, v))
}

/// Records name `v` under the path `id / a / b / c`.
pub open spec fn put_name(
    m: Seq<(Seq<char>, Seq<(Seq<char>, Seq<(Seq<char>, Seq<(Seq<char>, Seq<char>)>)>)>)>,
    id: Seq<char>,
    a: Seq<char>,
    b: Seq<char>,
    c: Seq<char>,
    v: Seq<char>,
) -> Seq<(Seq<char>, Seq<(Seq<char>, Seq<(Seq<char>, Seq<(Seq<char>, Seq<char>)>)>)>)> {
    put(m, id, put3(inner(m, id), a, b, c, v))
}

/// The registry as mathematical values.
pub struct RegistryModel {
    pub properties: Seq<(Seq<char>, Seq<Seq<char>>)>,
    pub pseudo_selectors: Seq<(Seq<char>, Seq<Seq<char>>)>,
    pub media_queries: Seq<(Seq<char>, Seq<Seq<char>>)>,
    pub target_children: Seq<(Seq<char>, Seq<Seq<char>>)>,
    pub names: Seq<(Seq<char>, Seq<(Seq<char>, Seq<(Seq<char>, Seq<(Seq<char>, Seq<char>)>)>)>)>,
}

impl RegistryModel {
    pub open spec fn bucket(self, b: Bucket) -> Seq<(Seq<char>, Seq<Seq<char>>)> {
        match b {
            Bucket::Properties => self.properties,
            Bucket::PseudoSelectors => self.pseudo_selectors,
            Bucket::MediaQueries => self.media_queries,
            Bucket::TargetChildren => self.target_children,
        }
    }

    /// The registry after appending fragment `f` under key `k` of bucket `b`.
    pub open spec fn append(self, b: Bucket, k: Seq<char>, f: Seq<char>) -> RegistryModel {
        match b {
            Bucket::Properties => RegistryModel { properties: append_rule(self.properties, k, f), ..self },
            Bucket::PseudoSelectors => RegistryModel {
                pseudo_selectors: append_rule(self.pseudo_selectors, k, f),
                ..self
            },
            Bucket::MediaQueries => RegistryModel { media_queries: append_rule(self.media_queries, k, f), ..self },
            Bucket::TargetChildren => RegistryModel {
                target_children: append_rule(self.target_children, k, f),
                ..self
            },
        }
    }

    /// The registry after recording a generated name.
    pub open spec fn record(self, id: Seq<char>, a: Seq<char>, b: Seq<char>, c: Seq<char>, v: Seq<char>) -> RegistryModel {
        RegistryModel { names: put_name(self.names, id, a, b, c, v), ..self }
    }

    /// Every bucket is free of duplicate fragments under each key.
    pub open spec fn wf(self) -> bool {
        no_duplicate_fragments(self.properties) && no_duplicate_fragments(self.pseudo_selectors)
            && no_duplicate_fragments(self.media_queries) && no_duplicate_fragments(self.target_children)
    }
}

/// Process-wide style state: generated rules and generated names. Callers that
/// share it between threads guard it with a lock.
pub struct StyleRegistry {
    properties: RuleList,
    pseudo_selectors: RuleList,
    media_queries: RuleList,
    target_children: RuleList,
    names: NameMap,
}

impl View for StyleRegistry {
    type V = RegistryModel;

    closed spec fn view(&self) -> RegistryModel {
        RegistryModel {
            properties: rules_view(self.properties@),
            pseudo_selectors: rules_view(self.pseudo_selectors@),
            media_queries: rules_view(self.media_queries@),
            target_children: rules_view(self.target_children@),
            names: names_view(self.names@),
        }
    }
}

fn append_to_list(m: &mut RuleList, k: String, f: String)
    ensures
        rules_view(final(m)@) == append_rule(rules_view(old(m)@), k@, f@),
        no_duplicate_fragments(rules_view(old(m)@)) ==> no_duplicate_fragments(rules_view(final(m)@)),
{
    let ghost old_v = rules_view(m@);
    let ghost kv = k@;
    let ghost fv = f@;
    let p = find_key(m, &k);
    assert(m@.map_values(|e: (String, Vec<String>)| (e.0@, e.1)).map_values(|e: (Seq<char>, Vec<String>)| e.0)
        =~= old_v.map_values(|e: (Seq<char>, Seq<Seq<char>>)| e.0));
    proof {
        lemma_key_pos_same_keys(m@.map_values(|e: (String, Vec<String>)| (e.0@, e.1)), old_v, k@, 0);
        lemma_key_pos(old_v, k@, 0);
    }
    match p {
        Some(i) => {
            let (key, mut list) = m.remove(i);
            assert(old_v[i as int] == (key@, strings_view(list@)));
            let mut found = false;
            let mut j: usize = 0;
            while j < list.len() && !found
                invariant
                    j <= list.len(),
                    fv == f@,
                    !found ==> forall|q: int| 0 <= q < j ==> list@[q]@ != fv,
                    found ==> 0 < j && list@[j - 1]@ == fv,
                decreases list.len() - j,
            {
                if list[j] == f {
                    found = true;
                }
                j += 1;
            }
            let ghost sv = strings_view(list@);
            assert(found == sv.contains(fv)) by {
                if found {
                    assert(sv[j - 1] == fv);
                }
                if sv.contains(fv) {
                    let q = choose|q: int| 0 <= q < sv.len() && sv[q] == fv;
                    assert(list@[q]@ == fv);
                }
            }
            if !found {
                list.push(f);
                assert(strings_view(list@) =~= sv.push(fv));
            }
            m.insert(i, (key, list));
            if found {
                assert(rules_view(m@) =~= old_v);
            } else {
                assert(rules_view(m@) =~= old_v.update(i as int, (kv, sv.push(fv))));
            }
        },
        None => {
            let mut list: Vec<String> = Vec::new();
            list.push(f);
            assert(strings_view(list@) =~= seq![fv]);
            m.push((k, list));
            assert(rules_view(m@) =~= old_v.push((kv, seq![fv])));
        },
    }
    proof {
        let nv = rules_view(m@);
        if no_duplicate_fragments(old_v) {
            assert forall|q: int| 0 <= q < nv.len() implies (#[trigger] nv[q]).1.no_duplicates() by {
                if q < old_v.len() {
                    assert(old_v[q].1.no_duplicates());
                }
                if q == key_pos(old_v, kv, 0) && q >= 0 && !old_v[q].1.contains(fv) {
                    let s2 = old_v[q].1.push(fv);
                    assert forall|x: int, y: int| 0 <= x < s2.len() && 0 <= y < s2.len() && x != y implies s2[x] != s2[y] by {
                        if x == s2.len() - 1 {
                            assert(old_v[q].1[y] == s2[y]);
                        }
                        if y == s2.len() - 1 {
                            assert(old_v[q].1[x] == s2[x]);
                        }
                    }
                }
            }
        }
    }
}

fn put_level2(m: &mut NameLevel2, a: String, b: String, v: String)
    ensures
        level2_view(final(m)@) == put(level2_view(old(m)@), a@, put(inner(level2_view(old(m)@), a@), b@, v@)),
{
    let ghost old_v = level2_view(m@);
    let ghost av = a@;
    let p = find_key(m, &a);
    assert(m@.map_values(|e: (String, NameLeaves)| (e.0@, e.1)).map_values(|e: (Seq<char>, NameLeaves)| e.0)
        =~= old_v.map_values(|e: (Seq<char>, LeavesModel)| e.0));
    proof {
        lemma_key_pos_same_keys(m@.map_values(|e: (String, NameLeaves)| (e.0@, e.1)), old_v, a@, 0);
        lemma_key_pos(old_v, a@, 0);
    }
    match p {
        Some(i) => {
            let (key, mut sub) = m.remove(i);
            assert(old_v[i as int] == (key@, pairs_view(sub@)));
            let ghost sub_old = pairs_view(sub@);
            put_pair(&mut sub, b, v);
            let ghost sub_new = pairs_view(sub@);
            m.insert(i, (key, sub));
            assert(level2_view(m@) =~= old_v.update(i as int, (av, sub_new)));
        },
        None => {
            let mut sub: NameLeaves = Vec::new();
            assert(pairs_view(sub@) =~= seq![]);
            put_pair(&mut sub, b, v);
            let ghost sub_new = pairs_view(sub@);
            m.push((a, sub));
            assert(level2_view(m@) =~= old_v.push((av, sub_new)));
        },
    }
}

fn put_level1(m: &mut NameLevel1, a: String, b: String, c: String, v: String)
    ensures
        level1_view(final(m)@) == put(level1_view(old(m)@), a@, put2(inner(level1_view(old(m)@), a@), b@, c@, v@)),
{
    let ghost old_v = level1_view(m@);
    let ghost av = a@;
    let p = find_key(m, &a);
    assert(m@.map_values(|e: (String, NameLevel2)| (e.0@, e.1)).map_values(|e: (Seq<char>, NameLevel2)| e.0)
        =~= old_v.map_values(|e: (Seq<char>, Level2Model)| e.0));
    proof {
        lemma_key_pos_same_keys(m@.map_values(|e: (String, NameLevel2)| (e.0@, e.1)), old_v, a@, 0);
        lemma_key_pos(old_v, a@, 0);
    }
    match p {
        Some(i) => {
            let (key, mut sub) = m.remove(i);
            assert(old_v[i as int] == (key@, level2_view(sub@)));
            let ghost sub_old = level2_view(sub@);
            put_level2(&mut sub, b, c, v);
            let ghost sub_new = level2_view(sub@);
            m.insert(i, (key, sub));
            assert(level1_view(m@) =~= old_v.update(i as int, (av, sub_new)));
        },
        None => {
            let mut sub: NameLevel2 = Vec::new();
            assert(level2_view(sub@) =~= seq![]);
            put_level2(&mut sub, b, c, v);
            let ghost sub_new = level2_view(sub@);
            m.push((a, sub));
            assert(level1_view(m@) =~= old_v.push((av, sub_new)));
        },
    }
}

fn put_names(m: &mut NameMap, a: String, b: String, c: String, d: String, v: String)
    ensures
        names_view(final(m)@) == put(names_view(old(m)@), a@, put3(inner(names_view(old(m)@), a@), b@, c@, d@, v@)),
{
    let ghost old_v = names_view(m@);
    let ghost av = a@;
    let p = find_key(m, &a);
    assert(m@.map_values(|e: (String, NameLevel1)| (e.0@, e.1)).map_values(|e: (Seq<char>, NameLevel1)| e.0)
        =~= old_v.map_values(|e: (Seq<char>, Level1Model)| e.0));
    proof {
        lemma_key_pos_same_keys(m@.map_values(|e: (String, NameLevel1)| (e.0@, e.1)), old_v, a@, 0);
        lemma_key_pos(old_v, a@, 0);
    }
    match p {
        Some(i) => {
            let (key, mut sub) = m.remove(i);
            assert(old_v[i as int] == (key@, level1_view(sub@)));
            let ghost sub_old = level1_view(sub@);
            put_level1(&mut sub, b, c, d, v);
            let ghost sub_new = level1_view(sub@);
            m.insert(i, (key, sub));
            assert(names_view(m@) =~= old_v.update(i as int, (av, sub_new)));
        },
        None => {
            let mut sub: NameLevel1 = Vec::new();
            assert(level1_view(sub@) =~= seq![]);
            put_level1(&mut sub, b, c, d, v);
            let ghost sub_new = level1_view(sub@);
            m.push((a, sub));
            assert(names_view(m@) =~= old_v.push((av, sub_new)));
        },
    }
}

/// The empty registry.
pub open spec fn empty_registry() -> RegistryModel {
    RegistryModel {
        properties: seq![],
        pseudo_selectors: seq![],
        media_queries: seq![],
        target_children: seq![],
        names: seq![],
    }
}

/// The same keys, each with no fragment.
pub open spec fn cleared(m: Seq<(Seq<char>, Seq<Seq<char>>)>) -> Seq<(Seq<char>, Seq<Seq<char>>)> {
    m.map_values(|e: (Seq<char>, Seq<Seq<char>>)| (e.0, Seq::<Seq<char>>::empty()))
}

fn clear_list(m: &mut RuleList)
    ensures
        rules_view(final(m)@) == cleared(rules_view(old(m)@)),
{
    let ghost old_v = rules_view(m@);
    let mut i: usize = 0;
    while i < m.len()
        invariant
            i <= m.len(),
            m@.len() == old_v.len(),
            old_v == rules_view(old(m)@),
            forall|q: int| 0 <= q < i ==> #[trigger] rules_view(m@)[q] == (old_v[q].0, Seq::<Seq<char>>::empty()),
            forall|q: int| i <= q < m@.len() ==> #[trigger] rules_view(m@)[q] == old_v[q],
        decreases m.len() - i,
    {
        let ghost prev = m@;
        let (key, mut list) = m.remove(i);
        assert(key@ == old_v[i as int].0) by {
            assert(rules_view(prev)[i as int] == old_v[i as int]);
        }
        list.clear();
        assert(strings_view(list@) =~= Seq::<Seq<char>>::empty());
        m.insert(i, (key, list));
        assert(m@ =~= prev.update(i as int, m@[i as int]));
        assert forall|q: int| 0 <= q < m@.len() && q != i implies #[trigger] rules_view(m@)[q] == rules_view(prev)[q] by {
            assert(m@[q] == prev[q]);
        }
        i += 1;
    }
    assert(rules_view(m@) =~= cleared(old_v));
}

impl StyleRegistry {
    /// An empty registry.
    pub fn new() -> (r: Self)
        ensures
            r@ == empty_registry(),
            r@.wf(),
    {
        let r = StyleRegistry {
            properties: Vec::new(),
            pseudo_selectors: Vec::new(),
            media_queries: Vec::new(),
            target_children: Vec::new(),
            names: Vec::new(),
        };
        assert(r@.properties =~= seq![]);
        assert(r@.pseudo_selectors =~= seq![]);
        assert(r@.media_queries =~= seq![]);
        assert(r@.target_children =~= seq![]);
        assert(r@.names =~= seq![]);
        r
    }

    /// Appends a rule fragment under a key of a bucket; a fragment that the key
    /// already holds is not stored again.
    pub fn append(&mut self, b: Bucket, k: String, f: String)
        ensures
            final(self)@ == old(self)@.append(b, k@, f@),
            old(self)@.wf() ==> final(self)@.wf(),
    {
        match b {
            Bucket::Properties => append_to_list(&mut self.properties, k, f),
            Bucket::PseudoSelectors => append_to_list(&mut self.pseudo_selectors, k, f),
            Bucket::MediaQueries => append_to_list(&mut self.media_queries, k, f),
            Bucket::TargetChildren => append_to_list(&mut self.target_children, k, f),
        }
    }

    /// Records a generated name under the path `id / a / b / c`, replacing an
    /// earlier one there.
    pub fn record(&mut self, id: String, a: String, b: String, c: String, v: String)
        ensures
            final(self)@ == old(self)@.record(id@, a@, b@, c@, v@),
    {
        put_names(&mut self.names, id, a, b, c, v);
    }

    /// Empties every fragment list, keeping the keys; names are kept.
    pub fn clear_rules(&mut self)
        ensures
            final(self)@.properties == cleared(old(self)@.properties),
            final(self)@.pseudo_selectors == cleared(old(self)@.pseudo_selectors),
            final(self)@.media_queries == cleared(old(self)@.media_queries),
            final(self)@.target_children == cleared(old(self)@.target_children),
            final(self)@.names == old(self)@.names,
    {
        clear_list(&mut self.properties);
        clear_list(&mut self.pseudo_selectors);
        clear_list(&mut self.media_queries);
        clear_list(&mut self.target_children);
    }

    /// Removes every recorded name; rules are kept.
    pub fn clear_names(&mut self)
        ensures
            final(self)@ == (RegistryModel { names: seq![], ..old(self)@ }),
    {
        self.names = Vec::new();
        assert(names_view(self.names@) =~= seq![]);
    }

    /// The rule lists of a bucket.
    pub fn rules(&self, b: Bucket) -> (r: &RuleList)
        ensures
            rules_view(r@) == self@.bucket(b),
    {
        match b {
            Bucket::Properties => &self.properties,
            Bucket::PseudoSelectors => &self.pseudo_selectors,
            Bucket::MediaQueries => &self.media_queries,
            Bucket::TargetChildren => &self.target_children,
        }
    }

    /// The recorded names.
    pub fn names(&self) -> (r: &NameMap)
        ensures
            names_view(r@) == self@.names,
    {
        &self.names
    }
}

/// Appends fragments one after another under one key.
pub open spec fn append_all(
    m: Seq<(Seq<char>, Seq<Seq<char>>)>,
    k: Seq<char>,
    fs: Seq<Seq<char>>,
) -> Seq<(Seq<char>, Seq<Seq<char>>)>
    decreases fs.len(),
{
    if fs.len() == 0 {
        m
    } else {
        append_all(append_rule(m, k, fs[0]), k, fs.drop_first())
    }
}

/// Appending a fragment that a key already holds changes nothing, so appending
/// the same fragment twice stores it once.
pub proof fn lemma_append_idempotent(m: Seq<(Seq<char>, Seq<Seq<char>>)>, k: Seq<char>, f: Seq<char>)
    ensures
        append_rule(append_rule(m, k, f), k, f) == append_rule(m, k, f),
        fragments(append_rule(m, k, f), k).contains(f),
{
    lemma_key_pos(m, k, 0);
    let m1 = append_rule(m, k, f);
    lemma_key_pos(m1, k, 0);
    let p = key_pos(m, k, 0);
    if p >= 0 {
        assert(forall|j: int| 0 <= j < p ==> m[j].0 != k) by {
            lemma_key_pos_prefix(m, k, 0);
        }
        assert(forall|j: int| 0 <= j < p ==> m1[j].0 != k);
        lemma_key_pos_at(m1, k, p);
        if !m[p].1.contains(f) {
            assert(m1[p].1[m1[p].1.len() - 1] == f);
        }
    } else {
        assert(forall|j: int| 0 <= j < m.len() ==> m1[j].0 != k);
        lemma_key_pos_at(m1, k, m.len() as int);
        assert(m1[m.len() as int].1[0] == f);
    }
}

/// Writers that append fragments to one key, none of them held already and no
/// two the same, lose none of them: the key ends up with its old fragments
/// followed by all the new ones, in order.
pub proof fn lemma_appends_keep_all(m: Seq<(Seq<char>, Seq<Seq<char>>)>, k: Seq<char>, fs: Seq<Seq<char>>)
    requires
        fs.no_duplicates(),
        forall|i: int| 0 <= i < fs.len() ==> !fragments(m, k).contains(#[trigger] fs[i]),
    ensures
        fragments(append_all(m, k, fs), k) == fragments(m, k) + fs,
    decreases fs.len(),
{
    if fs.len() == 0 {
        assert(fragments(m, k) + fs =~= fragments(m, k));
    } else {
        let m1 = append_rule(m, k, fs[0]);
        lemma_fragments_after_append(m, k, fs[0]);
        assert(!fragments(m, k).contains(fs[0]));
        let rest = fs.drop_first();
        assert forall|i: int| 0 <= i < rest.len() implies !fragments(m1, k).contains(#[trigger] rest[i]) by {
            assert(rest[i] == fs[i + 1]);
            assert(fs[i + 1] != fs[0]);
            if fragments(m1, k).contains(rest[i]) {
                let q = choose|q: int| 0 <= q < fragments(m1, k).len() && fragments(m1, k)[q] == rest[i];
                if q < fragments(m, k).len() {
                    assert(fragments(m, k)[q] == rest[i]);
                }
            }
        }
        lemma_appends_keep_all(m1, k, rest);
        assert(fragments(m, k).push(fs[0]) + rest =~= fragments(m, k) + fs);
    }
}

/// A new fragment goes to the end of its key's list.
pub proof fn lemma_fragments_after_append(m: Seq<(Seq<char>, Seq<Seq<char>>)>, k: Seq<char>, f: Seq<char>)
    ensures
        !fragments(m, k).contains(f) ==> fragments(append_rule(m, k, f), k) == fragments(m, k).push(f),
{
    lemma_key_pos(m, k, 0);
    let m1 = append_rule(m, k, f);
    let p = key_pos(m, k, 0);
    if !fragments(m, k).contains(f) {
        if p >= 0 {
            lemma_key_pos_prefix(m, k, 0);
            assert(forall|j: int| 0 <= j < p ==> m1[j].0 != k);
            lemma_key_pos_at(m1, k, p);
        } else {
            assert(forall|j: int| 0 <= j < m.len() ==> m1[j].0 != k);
            lemma_key_pos_at(m1, k, m.len() as int);
            assert(seq![f] =~= Seq::<Seq<char>>::empty().push(f));
        }
    }
}

proof fn lemma_key_pos_prefix(m: Seq<(Seq<char>, Seq<Seq<char>>)>, k: Seq<char>, from: int)
    requires
        0 <= from,
    ensures
        forall|j: int| from <= j < key_pos(m, k, from) ==> m[j].0 != k,
    decreases m.len() - from,
{
    if from < m.len() && m[from].0 != k {
        lemma_key_pos_prefix(m, k, from + 1);
    }
}

proof fn lemma_key_pos_at(m: Seq<(Seq<char>, Seq<Seq<char>>)>, k: Seq<char>, p: int)
    requires
        0 <= p < m.len(),
        m[p].0 == k,
        forall|j: int| 0 <= j < p ==> m[j].0 != k,
    ensures
        key_pos(m, k, 0) == p,
{
    lemma_key_pos_walk(m, k, 0, p);
}

proof fn lemma_key_pos_walk(m: Seq<(Seq<char>, Seq<Seq<char>>)>, k: Seq<char>, from: int, p: int)
    requires
        0 <= from <= p < m.len(),
        m[p].0 == k,
        forall|j: int| from <= j < p ==> m[j].0 != k,
    ensures
        key_pos(m, k, from) == p,
    decreases p - from,
{
    if from < p {
        lemma_key_pos_walk(m, k, from + 1, p);
    }
}

/// Recording the same name twice under the same path is recording it once.
pub proof fn lemma_put_name_idempotent(
    m: Seq<(Seq<char>, Seq<(Seq<char>, Seq<(Seq<char>, Seq<(Seq<char>, Seq<char>)>)>)>)>,
    id: Seq<char>,
    a: Seq<char>,
    b: Seq<char>,
    c: Seq<char>,
    v: Seq<char>,
)
    ensures
        put_name(put_name(m, id, a, b, c, v), id, a, b, c, v) == put_name(m, id, a, b, c, v),
{
    let x3 = put3(inner(m, id), a, b, c, v);
    let i3 = inner(m, id);
    let x2 = put2(inner(i3, a), b, c, v);
    let i2 = inner(i3, a);
    let x1 = put(inner(i2, b), c, v);
    let i1 = inner(i2, b);
    lemma_put_put(i1, c, v, v);
    lemma_put_put(i2, b, x1, x1);
    lemma_put_put(i3, a, x2, x2);
    lemma_put_put(m, id, x3, x3);
}

} // verus!
