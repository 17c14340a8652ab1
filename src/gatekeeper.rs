//! Dependency grouping: a directed graph of file-to-import edges, split into
//! groups of files that reach one another through imports.
use vstd::prelude::*;
use petgraph::graph::DiGraph;

verus! {

#[verifier::external_type_specification]
#[verifier::external_body]
#[verifier::reject_recursive_types(N)]
#[verifier::reject_recursive_types(E)]
#[verifier::reject_recursive_types(Ty)]
#[verifier::reject_recursive_types(Ix)]
pub struct ExGraph<N, E, Ty, Ix>(petgraph::graph::Graph<N, E, Ty, Ix>);

#[verifier::external_type_specification]
#[verifier::external_body]
pub struct ExDirected(petgraph::Directed);

/// The node weights of a module graph, by node index.
pub uninterp spec fn graph_nodes(g: DiGraph<String, ()>) -> Seq<Seq<char>>;

/// The edges of a module graph, as (from, to) node indices in insertion order.
pub uninterp spec fn graph_edges(g: DiGraph<String, ()>) -> Seq<(int, int)>;

/// Relies on `petgraph::Graph::new`: a graph with no nodes and no edges.
#[verifier::external_body]
fn new_graph() -> (r: DiGraph<String, ()>)
    ensures
        graph_nodes(r) == Seq::<Seq<char>>::empty(),
        graph_edges(r) == Seq::<(int, int)>::empty(),
{
    DiGraph::new()
}

/// Relies on `petgraph::Graph::node_count`: the number of nodes.
#[verifier::external_body]
fn node_count(g: &DiGraph<String, ()>) -> (r: usize)
    ensures
        r as int == graph_nodes(*g).len(),
{
    g.node_count()
}

/// Relies on `petgraph::Graph::edge_count`: the number of edges.
#[verifier::external_body]
fn edge_count(g: &DiGraph<String, ()>) -> (r: usize)
    ensures
        r as int == graph_edges(*g).len(),
{
    g.edge_count()
}

/// Relies on `petgraph::Graph::add_node`: the node goes last and its index is
/// returned; it panics when the `u32` index space is used up.
#[verifier::external_body]
fn add_node(g: &mut DiGraph<String, ()>, w: String) -> (r: usize)
    requires
        graph_nodes(*old(g)).len() < u32::MAX,
    ensures
        r as int == graph_nodes(*old(g)).len(),
        graph_nodes(*final(g)) == graph_nodes(*old(g)).push(w@),
        graph_edges(*final(g)) == graph_edges(*old(g)),
{
    g.add_node(w).index()
}

/// Relies on `petgraph::Graph::add_edge`: the edge goes last; it panics when a
/// node does not exist or the `u32` index space is used up.
#[verifier::external_body]
fn add_edge(g: &mut DiGraph<String, ()>, a: usize, b: usize)
    requires
        a < graph_nodes(*old(g)).len(),
        b < graph_nodes(*old(g)).len(),
        graph_edges(*old(g)).len() < u32::MAX,
    ensures
        graph_nodes(*final(g)) == graph_nodes(*old(g)),
        graph_edges(*final(g)) == graph_edges(*old(g)).push((a as int, b as int)),
{
    g.add_edge(petgraph::graph::NodeIndex::new(a), petgraph::graph::NodeIndex::new(b), ());
}

/// Relies on indexing a `petgraph::Graph` by node: the weight of node `i`.
#[verifier::external_body]
fn node_weight(g: &DiGraph<String, ()>, i: usize) -> (r: String)
    requires
        i < graph_nodes(*g).len(),
    ensures
        r@ == graph_nodes(*g)[i as int],
{
    g[petgraph::graph::NodeIndex::new(i)].clone()
}

/// Relies on `petgraph::Graph::neighbors`: for a directed graph, the targets of
/// the edges that leave node `i`.
#[verifier::external_body]
fn neighbors(g: &DiGraph<String, ()>, i: usize) -> (r: Vec<usize>)
    requires
        i < graph_nodes(*g).len(),
    ensures
        forall|j: usize| r@.contains(j) <==> graph_edges(*g).contains((i as int, j as int)),
{
    g.neighbors(petgraph::graph::NodeIndex::new(i)).map(|n| n.index()).collect()
}

/// The views of a list of strings.
pub open spec fn names_of(v: Seq<String>) -> Seq<Seq<char>> {
    v.map_values(|p: String| p@)
}

/// The module graph as mathematical values.
pub struct GraphModel {
    pub nodes: Seq<Seq<char>>,
    pub edges: Seq<(int, int)>,
}

/// Node names are distinct and every edge joins existing nodes.
pub open spec fn graph_wf(g: GraphModel) -> bool {
    g.nodes.no_duplicates() && forall|k: int|
        0 <= k < g.edges.len() ==> 0 <= (#[trigger] g.edges[k]).0 < g.nodes.len() && 0 <= g.edges[k].1
            < g.nodes.len()
}

/// The nodes after adding a module name that is not there yet.
pub open spec fn with_module(nodes: Seq<Seq<char>>, name: Seq<char>) -> Seq<Seq<char>> {
    if nodes.contains(name) {
        nodes
    } else {
        nodes.push(name)
    }
}

/// The indices that a boolean vector marks.
pub open spec fn marked(v: Seq<bool>) -> Set<int> {
    Set::new(|i: int| 0 <= i < v.len() && v[i])
}

/// No edge leaves `s` for a node outside both `s` and `avoid`.
pub open spec fn closed_from(edges: Seq<(int, int)>, avoid: Set<int>, s: Set<int>) -> bool {
    forall|u: int, w: int|
        #![trigger s.contains(u), edges.contains((u, w))]
        s.contains(u) && edges.contains((u, w)) && !avoid.contains(w) ==> s.contains(w)
}

/// `c` is the group of `r` among the nodes outside `avoid`: the least set that
/// holds `r` and is closed under following edges to nodes outside `avoid`.
pub open spec fn is_component(edges: Seq<(int, int)>, avoid: Set<int>, r: int, c: Set<int>) -> bool {
    &&& c.contains(r)
    &&& c.disjoint(avoid)
    &&& closed_from(edges, avoid, c)
    &&& forall|s: Set<int>| s.contains(r) && closed_from(edges, avoid, s) ==> #[trigger] c.subset_of(s)
}

/// The group of `r` among the nodes outside `avoid`.
pub open spec fn component(edges: Seq<(int, int)>, avoid: Set<int>, r: int) -> Set<int> {
    choose|c: Set<int>| is_component(edges, avoid, r, c)
}

/// The groups found by visiting nodes `i..n` in index order, each one started
/// at the first node that no earlier group holds.
pub open spec fn components(edges: Seq<(int, int)>, n: int, i: int, avoid: Set<int>) -> Seq<Set<int>>
    decreases n - i,
{
    if i < 0 || i >= n {
        seq![]
    } else if avoid.contains(i) {
        components(edges, n, i + 1, avoid)
    } else {
        let c = component(edges, avoid, i);
        seq![c] + components(edges, n, i + 1, avoid.union(c))
    }
}

/// The names of a group that are among the processed files.
pub open spec fn kept_names(nodes: Seq<Seq<char>>, c: Set<int>, processed: Seq<Seq<char>>) -> Set<Seq<char>> {
    Set::new(|s: Seq<char>| processed.contains(s) && exists|u: int| c.contains(u) && 0 <= u < nodes.len() && nodes[u] == s)
}

/// The kept names of each group, leaving out groups with none.
pub open spec fn expected_groups(nodes: Seq<Seq<char>>, cs: Seq<Set<int>>, processed: Seq<Seq<char>>) -> Seq<Set<Seq<char>>>
    decreases cs.len(),
{
    if cs.len() == 0 {
        seq![]
    } else {
        let k = kept_names(nodes, cs[0], processed);
        (if k.is_empty() {
            seq![]
        } else {
            seq![k]
        }) + expected_groups(nodes, cs.drop_first(), processed)
    }
}

pub proof fn lemma_component_unique(edges: Seq<(int, int)>, avoid: Set<int>, r: int, c: Set<int>)
    requires
        is_component(edges, avoid, r, c),
    ensures
        component(edges, avoid, r) == c,
{
    let d = component(edges, avoid, r);
    assert(is_component(edges, avoid, r, d));
    assert(c.subset_of(d));
    assert(d.subset_of(c));
    assert(c =~= d);
}

/// The number of unmarked entries.
pub open spec fn count_unmarked(v: Seq<bool>) -> nat
    decreases v.len(),
{
    if v.len() == 0 {
        0
    } else {
        count_unmarked(v.drop_last()) + if v.last() {
            0nat
        } else {
            1nat
        }
    }
}

proof fn lemma_count_unmarked(a: Seq<bool>, b: Seq<bool>)
    requires
        a.len() == b.len(),
        forall|i: int| 0 <= i < a.len() && a[i] ==> b[i],
    ensures
        count_unmarked(b) <= count_unmarked(a),
        (exists|i: int| 0 <= i < a.len() && !a[i] && b[i]) ==> count_unmarked(b) < count_unmarked(a),
    decreases a.len(),
{
    if a.len() > 0 {
        lemma_count_unmarked(a.drop_last(), b.drop_last());
        if exists|i: int| 0 <= i < a.len() && !a[i] && b[i] {
            let i = choose|i: int| 0 <= i < a.len() && !a[i] && b[i];
            if i < a.len() - 1 {
                assert(!a.drop_last()[i] && b.drop_last()[i]);
            }
        }
    }
}

/// Relates source files through their imports.
pub struct Gatekeeper {
    graph: DiGraph<String, ()>,
}

impl View for Gatekeeper {
    type V = GraphModel;

    closed spec fn view(&self) -> GraphModel {
        GraphModel { nodes: graph_nodes(self.graph), edges: graph_edges(self.graph) }
    }
}

impl Gatekeeper {
    /// An empty graph.
    pub fn new() -> (r: Self)
        ensures
            r@.nodes == Seq::<Seq<char>>::empty(),
            r@.edges == Seq::<(int, int)>::empty(),
            graph_wf(r@),
    {
        Gatekeeper { graph: new_graph() }
    }

    /// The number of modules in the graph.
    pub fn module_count(&self) -> (r: usize)
        ensures
            r as int == self@.nodes.len(),
    {
        node_count(&self.graph)
    }

    /// The number of import edges in the graph.
    pub fn import_count(&self) -> (r: usize)
        ensures
            r as int == self@.edges.len(),
    {
        edge_count(&self.graph)
    }

    /// The name of module `i`.
    pub fn module(&self, i: usize) -> (r: String)
        requires
            i < self@.nodes.len(),
        ensures
            r@ == self@.nodes[i as int],
    {
        node_weight(&self.graph, i)
    }

    /// The modules that module `i` imports.
    pub fn imports_of(&self, i: usize) -> (r: Vec<usize>)
        requires
            i < self@.nodes.len(),
        ensures
            forall|j: usize| r@.contains(j) <==> self@.edges.contains((i as int, j as int)),
    {
        neighbors(&self.graph, i)
    }

    /// The index of the node named `name`, added last when there is none.
    fn find_or_add_module(&mut self, name: &str) -> (r: usize)
        requires
            graph_wf(old(self)@),
            old(self)@.nodes.len() < u32::MAX,
        ensures
            graph_wf(final(self)@),
            final(self)@.nodes == with_module(old(self)@.nodes, name@),
            final(self)@.edges == old(self)@.edges,
            r < final(self)@.nodes.len(),
            final(self)@.nodes[r as int] == name@,
    {
        let n = node_count(&self.graph);
        let owned = String::from_str(name);
        let mut i: usize = 0;
        while i < n
            invariant
                i <= n,
                self@ == old(self)@,
                graph_wf(self@),
                owned@ == name@,
                n as int == self@.nodes.len(),
                forall|j: int| 0 <= j < i ==> self@.nodes[j] != name@,
            decreases n - i,
        {
            let w = node_weight(&self.graph, i);
            if w == owned {
                assert(self@.nodes.contains(name@));
                return i;
            }
            i += 1;
        }
        let r = add_node(&mut self.graph, owned);
        proof {
            assert(!old(self)@.nodes.contains(name@));
            let ns = self@.nodes;
            assert forall|x: int, y: int| 0 <= x < ns.len() && 0 <= y < ns.len() && x != y implies ns[x] != ns[y] by {
                if x < ns.len() - 1 && y < ns.len() - 1 {
                    assert(old(self)@.nodes[x] != old(self)@.nodes[y]);
                }
            }
            assert forall|k: int| 0 <= k < self@.edges.len() implies 0 <= (#[trigger] self@.edges[k]).0 < self@.nodes.len()
                && 0 <= self@.edges[k].1 < self@.nodes.len() by {
                assert(old(self)@.edges[k] == self@.edges[k]);
            }
        }
        r
    }

    /// Records that `from_module` imports `to_module`, adding either as a node
    /// when it is new.
    pub fn add_import(&mut self, from_module: &str, to_module: &str)
        requires
            graph_wf(old(self)@),
            old(self)@.nodes.len() + 2 <= u32::MAX,
            old(self)@.edges.len() < u32::MAX,
        ensures
            graph_wf(final(self)@),
            final(self)@.nodes == with_module(with_module(old(self)@.nodes, from_module@), to_module@),
            final(self)@.edges.len() == old(self)@.edges.len() + 1,
            final(self)@.edges.drop_last() == old(self)@.edges,
            final(self)@.nodes[final(self)@.edges.last().0] == from_module@,
            final(self)@.nodes[final(self)@.edges.last().1] == to_module@,
    {
        let a = self.find_or_add_module(from_module);
        let b = self.find_or_add_module(to_module);
        let ghost before = self@;
        add_edge(&mut self.graph, a, b);
        proof {
            assert(self@.edges.drop_last() =~= before.edges);
            assert forall|k: int| 0 <= k < self@.edges.len() implies 0 <= (#[trigger] self@.edges[k]).0 < self@.nodes.len()
                && 0 <= self@.edges[k].1 < self@.nodes.len() by {
                if k < before.edges.len() {
                    assert(before.edges[k] == self@.edges[k]);
                }
            }
        }
    }

    /// Groups the files of the graph: one group per set of files that reach one
    /// another through imports (visiting nodes in the order they were added),
    /// each holding only the files of `processed_paths`; groups left empty are dropped.
    pub fn group_paths(&self, processed_paths: &Vec<String>) -> (r: Vec<Vec<String>>)
        requires
            graph_wf(self@),
        ensures
            r@.len() == expected_groups(
                self@.nodes,
                components(self@.edges, self@.nodes.len() as int, 0, Set::empty()),
                names_of(processed_paths@),
            ).len(),
            forall|k: int| 0 <= k < r@.len() ==> names_of((#[trigger] r@[k])@).no_duplicates(),
            forall|k: int, x: Seq<char>| 0 <= k < r@.len() ==> (#[trigger] names_of(r@[k]@).contains(x)
                <==> expected_groups(
                self@.nodes,
                components(self@.edges, self@.nodes.len() as int, 0, Set::empty()),
                names_of(processed_paths@),
            )[k].contains(x)),
    {
        let ghost pv = names_of(processed_paths@);
        let ghost nodes = self@.nodes;
        let ghost edges = self@.edges;
        let n = node_count(&self.graph);
        let ghost all = expected_groups(nodes, components(edges, n as int, 0, Set::empty()), pv);
        let mut visited: Vec<bool> = Vec::new();
        let mut i: usize = 0;
        while i < n
            invariant
                i <= n,
                visited@.len() == i,
                forall|j: int| 0 <= j < i ==> !visited@[j],
            decreases n - i,
        {
            visited.push(false);
            i += 1;
        }
        assert(marked(visited@) =~= Set::empty());
        let mut groups: Vec<Vec<String>> = Vec::new();
        let ghost mut done: Seq<Set<Seq<char>>> = seq![];
        let mut node: usize = 0;
        while node < n
            invariant
                graph_wf(self@),
                nodes == self@.nodes,
                edges == self@.edges,
                n as int == nodes.len(),
                pv == names_of(processed_paths@),
                node <= n,
                visited@.len() == n,
                all == done + expected_groups(nodes, components(edges, n as int, node as int, marked(visited@)), pv),
                groups@.len() == done.len(),
                forall|k: int| 0 <= k < groups@.len() ==> names_of((#[trigger] groups@[k])@).no_duplicates(),
                forall|k: int, x: Seq<char>| 0 <= k < groups@.len() ==> (#[trigger] names_of(groups@[k]@).contains(x)
                    <==> done[k].contains(x)),
            decreases n - node,
        {
            let ghost before = marked(visited@);
            if !visited[node] {
                let mut g: Vec<usize> = Vec::new();
                self.dfs(node, &mut visited, &mut g);
                let ghost fresh = marked(visited@).difference(before);
                proof {
                    assert(is_component(edges, before, node as int, fresh)) by {
                        assert(fresh.contains(node as int));
                        assert(fresh.disjoint(before));
                        assert forall|u: int, w: int|
                            #![trigger fresh.contains(u), edges.contains((u, w))]
                            fresh.contains(u) && edges.contains((u, w)) && !before.contains(w) implies fresh.contains(w) by {
                            assert(marked(visited@).contains(u));
                        }
                        assert forall|s: Set<int>| s.contains(node as int) && closed_from(edges, before, s)
                            implies #[trigger] fresh.subset_of(s) by {
                            assert forall|u: int| fresh.contains(u) implies s.contains(u) by {
                                assert(marked(visited@).contains(u));
                            }
                        }
                    }
                    lemma_component_unique(edges, before, node as int, fresh);
                    assert(marked(visited@) =~= before.union(fresh));
                }
                let names = self.kept(&g, processed_paths, Ghost(fresh));
                let ghost kset = kept_names(nodes, fresh, pv);
                proof {
                    let cs = components(edges, n as int, node as int, before);
                    let rest = components(edges, n as int, node + 1, marked(visited@));
                    assert(cs == seq![fresh] + rest);
                    assert(cs[0] == fresh);
                    assert(cs.drop_first() =~= rest);
                }
                if names.len() > 0 {
                    proof {
                        assert(names_of(names@)[0] == names@[0]@);
                        assert(names_of(names@).contains(names@[0]@));
                        assert(kset.contains(names@[0]@));
                    }
                    let ghost gb = groups@;
                    groups.push(names);
                    proof {
                        assert(all == done.push(kset) + expected_groups(nodes, components(edges, n as int, node + 1, marked(visited@)), pv)) by {
                            assert(done + (seq![kset] + expected_groups(nodes, components(edges, n as int, node + 1, marked(visited@)), pv))
                                =~= done.push(kset) + expected_groups(nodes, components(edges, n as int, node + 1, marked(visited@)), pv));
                        }
                        done = done.push(kset);
                        assert forall|k: int| 0 <= k < groups@.len() - 1 implies groups@[k] == gb[k] by {}
                    }
                } else {
                    proof {
                        assert(kset =~= Set::empty()) by {
                            assert forall|x: Seq<char>| !kset.contains(x) by {
                                assert(!names_of(names@).contains(x));
                            }
                        }
                        assert(done + (seq![] + expected_groups(nodes, components(edges, n as int, node + 1, marked(visited@)), pv))
                            =~= done + expected_groups(nodes, components(edges, n as int, node + 1, marked(visited@)), pv));
                    }
                }
            }
            node += 1;
        }
        assert(all =~= done);
        groups
    }

    /// The names of the visited nodes `g` that are among `processed`, in visit order.
    fn kept(&self, g: &Vec<usize>, processed: &Vec<String>, fresh: Ghost<Set<int>>) -> (r: Vec<String>)
        requires
            graph_wf(self@),
            g@.no_duplicates(),
            forall|k: int| 0 <= k < g@.len() ==> (g@[k] as int) < self@.nodes.len(),
            forall|u: int| fresh@.contains(u) <==> exists|k: int| 0 <= k < g@.len() && g@[k] as int == u,
        ensures
            names_of(r@).no_duplicates(),
            forall|x: Seq<char>| #[trigger] names_of(r@).contains(x) <==> kept_names(
                self@.nodes,
                fresh@,
                names_of(processed@),
            ).contains(x),
    {
        let ghost pv = names_of(processed@);
        let ghost nodes = self@.nodes;
        let mut r: Vec<String> = Vec::new();
        let ghost mut picked: Seq<int> = seq![];
        let mut q: usize = 0;
        while q < g.len()
            invariant
                q <= g.len(),
                graph_wf(self@),
                nodes == self@.nodes,
                pv == names_of(processed@),
                g@.no_duplicates(),
                forall|k: int| 0 <= k < g@.len() ==> (g@[k] as int) < nodes.len(),
                r@.len() == picked.len(),
                forall|t: int| 0 <= t < picked.len() ==> 0 <= #[trigger] picked[t] < q,
                forall|t1: int, t2: int| 0 <= t1 < t2 < picked.len() ==> picked[t1] < picked[t2],
                forall|t: int| 0 <= t < picked.len() ==> (#[trigger] r@[t])@ == nodes[g@[picked[t]] as int],
                forall|t: int| 0 <= t < picked.len() ==> pv.contains(#[trigger] r@[t]@),
                forall|k: int| 0 <= k < q && pv.contains(nodes[g@[k] as int]) ==> exists|t: int| 0 <= t < picked.len() && picked[t] == k,
            decreases g.len() - q,
        {
            let w = node_weight(&self.graph, g[q]);
            let ghost old_picked = picked;
            let mut found = false;
            let mut j: usize = 0;
            while j < processed.len() && !found
                invariant
                    j <= processed.len(),
                    pv == names_of(processed@),
                    !found ==> forall|t: int| 0 <= t < j ==> pv[t] != w@,
                    found ==> pv.contains(w@),
                decreases processed.len() - j,
            {
                if processed[j] == w {
                    found = true;
                    assert(pv[j as int] == w@);
                }
                j += 1;
            }
            if found {
                proof {
                    picked = picked.push(q as int);
                }
                r.push(w);
            } else {
                assert(!pv.contains(w@));
            }
            proof {
                assert forall|k: int| 0 <= k < q + 1 && pv.contains(nodes[g@[k] as int]) implies exists|t: int|
                    0 <= t < picked.len() && picked[t] == k by {
                    if k == q {
                        if found {
                            assert(picked[picked.len() - 1] == q);
                        }
                    } else {
                        let t = choose|t: int| 0 <= t < old_picked.len() && old_picked[t] == k;
                        assert(picked[t] == k);
                    }
                }
            }
            q += 1;
        }
        proof {
            let rv = names_of(r@);
            assert forall|a: int, b: int| 0 <= a < rv.len() && 0 <= b < rv.len() && a != b implies rv[a] != rv[b] by {
                assert(rv[a] == r@[a]@);
                assert(rv[b] == r@[b]@);
                if a < b {
                    assert(picked[a] < picked[b]);
                } else {
                    assert(picked[b] < picked[a]);
                }
                assert(g@[picked[a]] != g@[picked[b]]);
            }
            assert forall|x: Seq<char>| rv.contains(x) <==> kept_names(nodes, fresh@, pv).contains(x) by {
                if rv.contains(x) {
                    let t = choose|t: int| 0 <= t < rv.len() && rv[t] == x;
                    assert(rv[t] == r@[t]@);
                    let u = g@[picked[t]] as int;
                    assert(fresh@.contains(u));
                    assert(fresh@.contains(u) && 0 <= u < nodes.len() && nodes[u] == x);
                }
                if kept_names(nodes, fresh@, pv).contains(x) {
                    let u = choose|u: int| fresh@.contains(u) && 0 <= u < nodes.len() && nodes[u] == x;
                    let k = choose|k: int| 0 <= k < g@.len() && g@[k] as int == u;
                    let t = choose|t: int| 0 <= t < picked.len() && picked[t] == k;
                    assert(rv[t] == r@[t]@);
                }
            }
        }
        r
    }

    /// Visits every node reachable from `v` through unvisited nodes, marking
    /// each and appending its index to `group`.
    fn dfs(&self, v: usize, visited: &mut Vec<bool>, group: &mut Vec<usize>)
        requires
            graph_wf(self@),
            old(visited)@.len() == self@.nodes.len(),
            v < self@.nodes.len(),
            !old(visited)@[v as int],
            forall|k: int| 0 <= k < old(group)@.len() ==> marked(old(visited)@).contains(old(group)@[k] as int),
            old(group)@.no_duplicates(),
        ensures
            final(visited)@.len() == old(visited)@.len(),
            marked(old(visited)@).subset_of(marked(final(visited)@)),
            final(visited)@[v as int],
            final(group)@.len() >= old(group)@.len(),
            final(group)@.subrange(0, old(group)@.len() as int) == old(group)@,
            final(group)@.no_duplicates(),
            forall|k: int| 0 <= k < final(group)@.len() ==> marked(final(visited)@).contains(final(group)@[k] as int),
            forall|k: int| old(group)@.len() <= k < final(group)@.len() ==> !marked(old(visited)@).contains(final(group)@[k] as int),
            forall|u: int| #[trigger] marked(final(visited)@).contains(u) && !marked(old(visited)@).contains(u)
                ==> exists|k: int| old(group)@.len() <= k < final(group)@.len() && final(group)@[k] == u,
            forall|u: int, w: int|
                #![trigger marked(final(visited)@).contains(u), self@.edges.contains((u, w))]
                marked(final(visited)@).contains(u) && !marked(old(visited)@).contains(u) && self@.edges.contains((u, w))
                    ==> marked(final(visited)@).contains(w),
            forall|s: Set<int>|
                s.contains(v as int) && closed_from(self@.edges, marked(old(visited)@), s) ==> forall|u: int|
                    #[trigger] marked(final(visited)@).contains(u) && !marked(old(visited)@).contains(u) ==> s.contains(u),
        decreases count_unmarked(old(visited)@),
    {
        let ghost v0 = visited@;
        let ghost g0 = group@;
        let total = visited.len();
        visited.set(v, true);
        group.push(v);
        let ghost v1 = visited@;
        proof {
            assert(marked(v1) =~= marked(v0).insert(v as int));
        }
        let nbrs = neighbors(&self.graph, v);
        proof {
            assert forall|u: int| #[trigger] marked(visited@).contains(u) && !marked(v0).contains(u)
                implies exists|q: int| g0.len() <= q < group@.len() && group@[q] == u by {
                assert(u == v);
                assert(group@[g0.len() as int] == v);
            }
        }
        let mut k: usize = 0;
        while k < nbrs.len()
            invariant
                graph_wf(self@),
                visited@.len() == v0.len(),
                v0.len() == self@.nodes.len(),
                total as int == v0.len(),
                v0 == old(visited)@,
                v < v0.len(),
                marked(v1).subset_of(marked(visited@)),
                marked(v1) == marked(v0).insert(v as int),
                !marked(v0).contains(v as int),
                forall|j: usize| nbrs@.contains(j) <==> self@.edges.contains((v as int, j as int)),
                forall|q: int| 0 <= q < k ==> marked(visited@).contains(nbrs@[q] as int),
                group@.len() > g0.len(),
                group@.subrange(0, g0.len() as int) == g0,
                group@[g0.len() as int] == v,
                group@.no_duplicates(),
                forall|q: int| 0 <= q < group@.len() ==> marked(visited@).contains(group@[q] as int),
                forall|q: int| g0.len() <= q < group@.len() ==> !marked(v0).contains(group@[q] as int),
                forall|u: int| #[trigger] marked(visited@).contains(u) && !marked(v0).contains(u)
                    ==> exists|q: int| g0.len() <= q < group@.len() && group@[q] == u,
                forall|u: int, w: int|
                    #![trigger marked(visited@).contains(u), self@.edges.contains((u, w))]
                    marked(visited@).contains(u) && !marked(v0).contains(u) && u != v && self@.edges.contains((u, w))
                        ==> marked(visited@).contains(w),
                forall|s: Set<int>|
                    s.contains(v as int) && closed_from(self@.edges, marked(v0), s) ==> forall|u: int|
                        #[trigger] marked(visited@).contains(u) && !marked(v0).contains(u) ==> s.contains(u),
            decreases nbrs.len() - k,
        {
            let w = nbrs[k];
            assert(nbrs@.contains(w));
            assert(self@.edges.contains((v as int, w as int)));
            assert(w < self@.nodes.len()) by {
                let e = choose|e: int| 0 <= e < self@.edges.len() && self@.edges[e] == (v as int, w as int);
                assert(self@.edges[e].1 < self@.nodes.len());
            }
            if !visited[w] {
                let ghost vb = visited@;
                let ghost gb = group@;
                proof {
                    assert forall|i: int| 0 <= i < v0.len() && v0[i] implies vb[i] by {
                        assert(marked(v0).contains(i));
                        assert(marked(v1).contains(i));
                    }
                    assert(marked(v1).contains(v as int));
                    assert(!v0[v as int] && vb[v as int]);
                    assert(exists|i: int| 0 <= i < v0.len() && !v0[i] && vb[i]);
                    lemma_count_unmarked(v0, vb);
                    assert(!marked(v0).contains(w as int)) by {
                        if marked(v0).contains(w as int) {
                            assert(marked(vb).contains(w as int));
                        }
                    }
                }
                self.dfs(w, visited, group);
                proof {
                    assert(group@.subrange(0, g0.len() as int) =~= gb.subrange(0, g0.len() as int));
                    assert(group@[g0.len() as int] == gb[g0.len() as int]);
                    assert forall|s: Set<int>| s.contains(v as int) && closed_from(self@.edges, marked(v0), s)
                        implies forall|u: int| #[trigger] marked(visited@).contains(u) && !marked(v0).contains(u) ==> s.contains(u) by {
                        assert(s.contains(w as int));
                        assert forall|u: int, x: int|
                            #![trigger s.contains(u), self@.edges.contains((u, x))]
                            s.contains(u) && self@.edges.contains((u, x)) && !marked(vb).contains(x) implies s.contains(x) by {
                            if marked(v0).contains(x) {
                                assert(marked(vb).contains(x));
                            }
                        }
                        assert(closed_from(self@.edges, marked(vb), s));
                    }
                    assert forall|u: int| #[trigger] marked(visited@).contains(u) && !marked(v0).contains(u)
                        implies exists|q: int| g0.len() <= q < group@.len() && group@[q] == u by {
                        if marked(vb).contains(u) {
                            let q = choose|q: int| g0.len() <= q < gb.len() && gb[q] == u;
                            assert(group@[q] == gb[q]);
                        }
                    }
                    assert forall|q: int| g0.len() <= q < group@.len() implies !marked(v0).contains(group@[q] as int) by {
                        if q < gb.len() {
                            assert(group@[q] == gb[q]);
                        } else {
                            if marked(v0).contains(group@[q] as int) {
                                assert(marked(vb).contains(group@[q] as int));
                            }
                        }
                    }
                    assert forall|q: int| 0 <= q < k + 1 implies marked(visited@).contains(nbrs@[q] as int) by {
                        if q < k {
                            assert(marked(vb).contains(nbrs@[q] as int));
                        }
                    }
                }
            }
            k += 1;
        }
        proof {
            assert forall|u: int, w: int|
                #![trigger marked(visited@).contains(u), self@.edges.contains((u, w))]
                marked(visited@).contains(u) && !marked(v0).contains(u) && self@.edges.contains((u, w))
                    implies marked(visited@).contains(w) by {
                if u == v {
                    assert(0 <= w < self@.nodes.len()) by {
                        let e = choose|e: int| 0 <= e < self@.edges.len() && self@.edges[e] == (u, w);
                        assert(0 <= self@.edges[e].1 < self@.nodes.len());
                    }
                    let wu: usize = w as usize;
                    assert(wu as int == w);
                    assert(self@.edges.contains((v as int, wu as int)));
                    assert(nbrs@.contains(wu));
                    let q = choose|q: int| 0 <= q < nbrs@.len() && nbrs@[q] == wu;
                    assert(marked(visited@).contains(nbrs@[q] as int));
                }
            }
        }
    }
}

} // verus!
