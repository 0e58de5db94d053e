//! The graph of declared dependencies, and the shortest way from one pack to another.

use crate::graph::{
    add_edge, add_node, empty_graph, graph_edges, graph_node_count, is_walk, shortest_walk,
    walk_found,
};
use crate::pack::{
    all_known, declared, dependency_total, fits, lemma_dependency_total_of_prefix, lemma_position,
    pack_names, position, Configuration, Pack,
};
use crate::paths::{
    declares, depends_on, first_index, is_path, is_shortest_path, lemma_first_index, Declared,
};
use crate::text::{has_text, texts};
use petgraph::graph::DiGraph;
use vstd::hash_map::StringHashMap;
use vstd::prelude::*;

verus! {

/// A pack declares a dependency that is no known pack.
#[derive(Debug)]
pub struct UnknownDependency {
    pub pack_name: String,
    pub dependency_name: String,
}

/// The declared dependencies as a graph with a node for each pack.
pub struct OwnedDependencyGraph {
    graph: DiGraph<(), ()>,
    pack_to_node: StringHashMap<usize>,
    node_to_pack: Vec<String>,
}

/// What a dependency graph holds: the names of its nodes in their order, and its edges from node
/// to node in their order.
#[verifier::ext_equal]
pub struct GraphView {
    pub names: Seq<Seq<char>>,
    pub edges: Seq<(usize, usize)>,
}

impl GraphView {
    /// The node that a name stands for: the first that bears it.
    pub open spec fn node(self, name: Seq<char>) -> Option<int> {
        first_index(self.names, name)
    }

    /// The known names, each with the names that the edges of its node lead to.
    pub open spec fn declared(self) -> Declared {
        Map::new(
            |name: Seq<char>| self.node(name) is Some,
            |name: Seq<char>|
                Set::new(
                    |other: Seq<char>|
                        self.node(other) is Some && self.edges.contains(
                            (self.node(name)->0 as usize, self.node(other)->0 as usize),
                        ),
                ),
        )
    }

    /// The path that the search finds from one name to another, where there is one.
    pub open spec fn route(self, from: Seq<char>, to: Seq<char>) -> Seq<Seq<char>> {
        walk_found(
            self.names.len(),
            self.edges,
            self.node(from)->0 as usize,
            self.node(to)->0 as usize,
        ).map_values(|node: usize| self.names[node as int])
    }
}

/// The edges from the node of a pack: one for each dependency in its order, to the pack that the
/// dependency stands for.
pub open spec fn edges_from(packs: Seq<Pack>, i: int) -> Seq<(usize, usize)> {
    packs[i].dependencies@.map_values(
        |dependency: String| (i as usize, position(packs, dependency@)->0 as usize),
    )
}

/// The edges from the nodes of the first `count` packs.
pub open spec fn edges_of(packs: Seq<Pack>, count: nat) -> Seq<(usize, usize)>
    decreases count,
{
    if count == 0 {
        Seq::empty()
    } else {
        edges_of(packs, (count - 1) as nat) + edges_from(packs, count - 1)
    }
}

/// The graph of the packs: a node for each pack and an edge for each dependency.
pub open spec fn graph_of(packs: Seq<Pack>) -> GraphView {
    GraphView { names: pack_names(packs), edges: edges_of(packs, packs.len()) }
}

/// Whether `pack_to_node` leads from each name to the first node that bears it.
spec fn leads_to_first(
    pack_to_node: Map<Seq<char>, usize>,
    names: Seq<Seq<char>>,
) -> bool {
    &&& forall|name: Seq<char>| #[trigger]
        pack_to_node.contains_key(name) <==> first_index(names, name) is Some
    &&& forall|name: Seq<char>| #[trigger]
        pack_to_node.contains_key(name) ==> first_index(names, name) == Some(
            pack_to_node[name] as int,
        )
}

/// Whether each edge starts at a node and ends at a node that its name leads to.
spec fn edges_end_at_named_nodes(view: GraphView) -> bool {
    forall|k: int|
        0 <= k < view.edges.len() ==> {
            let (source, target) = #[trigger] view.edges[k];
            &&& source < view.names.len()
            &&& target < view.names.len()
            &&& view.node(view.names[target as int]) == Some(target as int)
        }
}

/// Whether every node has a name that leads to a node, and to that very node where no two nodes
/// have the same name.
spec fn nodes_are_named(pack_to_node: Map<Seq<char>, usize>, names: Seq<Seq<char>>) -> bool {
    &&& forall|i: int| 0 <= i < names.len() ==> pack_to_node.contains_key(#[trigger] names[i])
    &&& names.no_duplicates() ==> forall|i: int|
        0 <= i < names.len() ==> pack_to_node[#[trigger] names[i]] == i
}

impl View for OwnedDependencyGraph {
    type V = GraphView;

    closed spec fn view(&self) -> GraphView {
        GraphView { names: texts(self.node_to_pack@), edges: graph_edges(self.graph) }
    }
}

impl OwnedDependencyGraph {
    #[verifier::type_invariant]
    spec fn well_formed(self) -> bool {
        &&& graph_node_count(self.graph) == self.node_to_pack@.len()
        &&& leads_to_first(self.pack_to_node@, texts(self.node_to_pack@))
        &&& nodes_are_named(self.pack_to_node@, texts(self.node_to_pack@))
        &&& edges_end_at_named_nodes(self@)
    }

    /// Builds the graph of what the packs of `configuration` declare, where all that they
    /// declare is known; else there is none.
    pub fn build(configuration: &Configuration) -> (built: Option<Self>)
        requires
            fits(configuration.packs@),
        ensures
            built is Some <==> all_known(configuration.packs@),
            built matches Some(graph) ==> graph@ == graph_of(configuration.packs@),
            built matches Some(graph) ==> graph@.declared() == declared(configuration.packs@),
    {
        match build_dependency_graph(configuration) {
            Ok(graph) => Some(graph),
            Err(_) => None,
        }
    }

    /// The shortest path from the pack `from` to the pack `to` along declared dependencies, with
    /// both of them included. There is none where `to` cannot be reached or either is unknown.
    /// Where several are equally short, the graph settles which one it is.
    #[verifier::spinoff_prover]
    pub fn shortest_path(&self, from: &str, to: &str) -> (found: Option<Vec<String>>)
        ensures
            found is Some <==> depends_on(self@.declared(), from@, to@),
            found matches Some(path) ==> is_shortest_path(
                self@.declared(),
                texts(path@),
                from@,
                to@,
            ),
            found matches Some(path) ==> texts(path@) == self@.route(from@, to@),
    {
        proof {
            use_type_invariant(self);
        }
        let from_node: usize = match self.pack_to_node.get(from) {
            Some(node) => *node,
            None => return None,
        };
        let to_node: usize = match self.pack_to_node.get(to) {
            Some(node) => *node,
            None => return None,
        };
        proof {
            lemma_first_index(self@.names, from@);
            lemma_first_index(self@.names, to@);
        }
        let walk: Vec<usize> = match shortest_walk(&self.graph, from_node, to_node) {
            Some(walk) => walk,
            None => {
                proof {
                    if depends_on(self@.declared(), from@, to@) {
                        let path = choose|path: Seq<Seq<char>>|
                            is_path(self@.declared(), path, from@, to@);
                        lemma_path_is_walk(self@, path, from@, to@);
                    }
                }
                return None;
            },
        };
        let mut path: Vec<String> = Vec::new();
        proof {
            assert(self@.names.len() == self.node_to_pack.len());
            lemma_walk_is_path(self@, walk@, from@, to@);
        }
        for i in 0..walk.len()
            invariant
                path@.len() == i,
                forall|j: int|
                    0 <= j < walk@.len() ==> #[trigger] walk@[j] < self.node_to_pack@.len(),
                forall|j: int|
                    0 <= j < i ==> (#[trigger] path@[j])@ == self.node_to_pack@[walk@[j] as int]@,
        {
            path.push(self.node_to_pack[walk[i]].clone());
        }
        proof {
            assert(texts(path@) =~= names_of(self@, walk@));
            assert(self@.route(from@, to@) =~= names_of(self@, walk@));
            assert forall|other: Seq<Seq<char>>| #[trigger]
                is_path(self@.declared(), other, from@, to@) implies texts(path@).len()
                <= other.len() by {
                lemma_path_is_walk(self@, other, from@, to@);
            }
        }
        Some(path)
    }
}

/// The names of the nodes of a walk.
spec fn names_of(view: GraphView, walk: Seq<usize>) -> Seq<Seq<char>> {
    walk.map_values(|node: usize| view.names[node as int])
}

/// The nodes of the names of a path.
spec fn nodes_of(view: GraphView, path: Seq<Seq<char>>) -> Seq<usize> {
    path.map_values(|name: Seq<char>| view.node(name)->0 as usize)
}

/// A walk between the nodes of two names visits the names of a path between them.
proof fn lemma_walk_is_path(
    view: GraphView,
    walk: Seq<usize>,
    from: Seq<char>,
    to: Seq<char>,
)
    requires
        view.names.len() <= usize::MAX,
        edges_end_at_named_nodes(view),
        view.node(from) is Some,
        view.node(to) is Some,
        is_walk(view.edges, walk, view.node(from)->0 as usize, view.node(to)->0 as usize),
    ensures
        is_path(view.declared(), names_of(view, walk), from, to),
        forall|i: int| 0 <= i < walk.len() ==> #[trigger] walk[i] < view.names.len(),
{
    let names = names_of(view, walk);
    lemma_first_index(view.names, from);
    lemma_first_index(view.names, to);
    assert forall|i: int| 0 <= i < walk.len() implies #[trigger] walk[i] < view.names.len()
        && view.node(names[i]) == Some(walk[i] as int) by {
        if i > 0 {
            assert(view.edges.contains((walk[i - 1], walk[i])));
        }
    }
    assert forall|i: int| 0 <= i < names.len() implies view.declared().contains_key(
        #[trigger] names[i],
    ) by {
        assert(walk[i] < view.names.len());
    }
    assert forall|i: int, j: int| 0 <= i && j == i + 1 && j < names.len() implies declares(
        view.declared(),
        #[trigger] names[i],
        #[trigger] names[j],
    ) by {
        assert(walk[i] < view.names.len());
        assert(walk[j] < view.names.len());
        assert(view.edges.contains((walk[i], walk[j])));
    }
}

/// A path visits the names of a walk as long as itself.
proof fn lemma_path_is_walk(
    view: GraphView,
    path: Seq<Seq<char>>,
    from: Seq<char>,
    to: Seq<char>,
)
    requires
        is_path(view.declared(), path, from, to),
    ensures
        is_walk(
            view.edges,
            nodes_of(view, path),
            view.node(from)->0 as usize,
            view.node(to)->0 as usize,
        ),
        nodes_of(view, path).len() == path.len(),
{
    let walk = nodes_of(view, path);
    assert forall|i: int, j: int| 0 <= i && j == i + 1 && j < walk.len() implies view.edges.contains(
        (#[trigger] walk[i], #[trigger] walk[j]),
    ) by {
        assert(declares(view.declared(), path[i], path[j]));
    }
}

/// Whether what the first `count` packs declare is known.
spec fn first_known(packs: Seq<Pack>, count: int) -> bool {
    forall|i: int, name: Seq<char>|
        0 <= i < count && #[trigger] has_text(packs[i].dependencies@, name) ==> position(
            packs,
            name,
        ) is Some
}

/// The edges of the first packs are as many as their dependencies. Each leads from one of these
/// packs to the pack that one of its dependencies stands for, and each dependency has its edge.
proof fn lemma_edges_of(packs: Seq<Pack>, count: nat)
    requires
        count <= packs.len() <= usize::MAX,
        first_known(packs, count as int),
    ensures
        edges_of(packs, count).len() == dependency_total(packs.take(count as int)),
        forall|k: int|
            0 <= k < edges_of(packs, count).len() ==> {
                let (source, target) = #[trigger] edges_of(packs, count)[k];
                &&& source < count
                &&& target < packs.len()
                &&& has_text(packs[source as int].dependencies@, packs[target as int].name@)
                &&& position(packs, packs[target as int].name@) == Some(target as int)
            },
        forall|i: int, name: Seq<char>|
            0 <= i < count && #[trigger] has_text(packs[i].dependencies@, name) ==> edges_of(
                packs,
                count,
            ).contains((i as usize, position(packs, name)->0 as usize)),
    decreases count,
{
    if count > 0 {
        let less = (count - 1) as nat;
        let i = count - 1;
        let before = edges_of(packs, less);
        let from = edges_from(packs, i);
        let edges = edges_of(packs, count);
        lemma_edges_of(packs, less);
        assert(packs.take(count as int).drop_last() =~= packs.take(i));
        assert forall|k: int| 0 <= k < edges.len() implies {
            let (source, target) = #[trigger] edges[k];
            &&& source < count
            &&& target < packs.len()
            &&& has_text(packs[source as int].dependencies@, packs[target as int].name@)
            &&& position(packs, packs[target as int].name@) == Some(target as int)
        } by {
            if k < before.len() {
                assert(edges[k] == before[k]);
            } else {
                let d = k - before.len();
                let name = packs[i].dependencies@[d]@;
                assert(edges[k] == from[d]);
                assert(has_text(packs[i].dependencies@, name));
                lemma_position(packs, name);
            }
        }
        assert forall|j: int, name: Seq<char>|
            0 <= j < count && #[trigger] has_text(
                packs[j].dependencies@,
                name,
            ) implies edges.contains((j as usize, position(packs, name)->0 as usize)) by {
            let edge = (j as usize, position(packs, name)->0 as usize);
            if j < i {
                assert(before.contains(edge));
                let k = choose|k: int| 0 <= k < before.len() && before[k] == edge;
                assert(edges[k] == edge);
            } else {
                let d = choose|d: int|
                    0 <= d < packs[i].dependencies@.len() && (
                    #[trigger] packs[i].dependencies@[d])@ == name;
                assert(from[d] == edge);
                assert(edges[before.len() + d] == edge);
            }
        }
    } else {
        assert(packs.take(0).len() == 0);
    }
}

/// The edges of the graph of packs whose dependencies are all known end at nodes that their names
/// lead to.
proof fn lemma_edges_end_at_named_nodes(packs: Seq<Pack>)
    requires
        packs.len() <= usize::MAX,
        all_known(packs),
    ensures
        edges_end_at_named_nodes(graph_of(packs)),
{
    let view = graph_of(packs);
    lemma_edges_of(packs, packs.len());
    assert(forall|i: int| 0 <= i < packs.len() ==> #[trigger] view.names[i] == packs[i].name@);
}

/// The graph of packs whose dependencies are all known shows what they declare.
pub(crate) proof fn lemma_graph_of(packs: Seq<Pack>)
    requires
        packs.len() <= usize::MAX,
        all_known(packs),
    ensures
        graph_of(packs).declared() == declared(packs),
{
    let view = graph_of(packs);
    let edges = view.edges;
    lemma_edges_of(packs, packs.len());
    assert(forall|i: int| 0 <= i < packs.len() ==> #[trigger] view.names[i] == packs[i].name@);
    assert forall|name: Seq<char>, other: Seq<char>|
        position(packs, name) is Some implies #[trigger] view.declared()[name].contains(other)
        == declared(packs)[name].contains(other) by {
        let i = position(packs, name)->0;
        lemma_position(packs, name);
        lemma_position(packs, other);
        if view.declared()[name].contains(other) {
            let edge = (i as usize, view.node(other)->0 as usize);
            let k = choose|k: int| 0 <= k < edges.len() && edges[k] == edge;
            assert(edges[k] == edge);
            assert(has_text(packs[i].dependencies@, other));
        }
        if has_text(packs[i].dependencies@, other) {
            assert(edges.contains((i as usize, position(packs, other)->0 as usize)));
        }
    }
    assert(view.declared() =~~= declared(packs));
}

/// Where each name leads to the first node that bears it, every node's name leads to a node.
proof fn lemma_nodes_are_named(pack_to_node: Map<Seq<char>, usize>, names: Seq<Seq<char>>)
    requires
        leads_to_first(pack_to_node, names),
    ensures
        nodes_are_named(pack_to_node, names),
{
    assert forall|i: int| 0 <= i < names.len() implies pack_to_node.contains_key(
        #[trigger] names[i],
    ) && (names.no_duplicates() ==> pack_to_node[names[i]] == i) by {
        lemma_first_index(names, names[i]);
        assert(pack_to_node.contains_key(names[i]));
        let first = first_index(names, names[i])->0;
        assert(names[first] == names[i]);
    }
}

/// Builds the graph of what the packs of `configuration` declare. It fails where a pack declares
/// a dependency that is no known pack, and names the two.
#[verifier::spinoff_prover]
pub fn build_dependency_graph(configuration: &Configuration) -> (built: Result<
    OwnedDependencyGraph,
    UnknownDependency,
>)
    requires
        fits(configuration.packs@),
    ensures
        built is Ok <==> all_known(configuration.packs@),
        built matches Ok(graph) ==> graph@ == graph_of(configuration.packs@),
        built matches Ok(graph) ==> graph@.declared() == declared(configuration.packs@),
        built matches Err(unknown) ==> exists|i: int|
            0 <= i < configuration.packs@.len() && #[trigger] configuration.packs@[i].name@
                == unknown.pack_name@ && has_text(
                configuration.packs@[i].dependencies@,
                unknown.dependency_name@,
            ) && position(configuration.packs@, unknown.dependency_name@) is None,
{
    let packs = &configuration.packs;
    let ghost names = pack_names(packs@);
    let mut graph = empty_graph();
    let mut pack_to_node: StringHashMap<usize> = StringHashMap::new();
    let mut node_to_pack: Vec<String> = Vec::new();

    for i in 0..packs.len()
        invariant
            packs@.len() <= u32::MAX,
            names == pack_names(packs@),
            graph_edges(graph) == edges_of(packs@, 0),
            graph_node_count(graph) == i,
            texts(node_to_pack@) == names.take(i as int),
            leads_to_first(pack_to_node@, names.take(i as int)),
    {
        let name = &packs[i].name;
        proof {
            assert(names.take(i + 1).drop_last() =~= names.take(i as int));
            assert(names.take(i + 1).last() == name@);
            assert(texts(node_to_pack@.push(*name)) =~= names.take(i + 1));
            lemma_first_index(names.take(i as int), name@);
        }
        let node = add_node(&mut graph);
        node_to_pack.push(name.clone());
        if !pack_to_node.contains_key(name.as_str()) {
            pack_to_node.insert(name.clone(), node);
        }
    }
    proof {
        assert(names.take(packs@.len() as int) =~= names);
    }

    for i in 0..packs.len()
        invariant
            packs == configuration.packs,
            packs@.len() <= u32::MAX,
            dependency_total(packs@) <= u32::MAX,
            names == pack_names(packs@),
            graph_node_count(graph) == packs@.len(),
            leads_to_first(pack_to_node@, names),
            graph_edges(graph) == edges_of(packs@, i as nat),
            first_known(packs@, i as int),
    {
        let dependencies = &packs[i].dependencies;
        let ghost from = edges_from(packs@, i as int);
        proof {
            lemma_edges_of(packs@, i as nat);
            assert(packs@.take(i + 1).drop_last() =~= packs@.take(i as int));
            lemma_dependency_total_of_prefix(packs@, i + 1);
            assert(edges_of(packs@, i as nat) + from.take(0) =~= edges_of(packs@, i as nat));
        }
        for d in 0..dependencies.len()
            invariant
                packs == configuration.packs,
                i < packs@.len(),
                dependencies == packs@[i as int].dependencies,
                names == pack_names(packs@),
                from == edges_from(packs@, i as int),
                edges_of(packs@, i as nat).len() + dependencies@.len() <= u32::MAX,
                graph_node_count(graph) == packs@.len(),
                leads_to_first(pack_to_node@, names),
                graph_edges(graph) == edges_of(packs@, i as nat) + from.take(d as int),
                forall|e: int|
                    0 <= e < d ==> position(packs@, (#[trigger] dependencies@[e])@) is Some,
        {
            proof {
                lemma_position(packs@, dependencies@[d as int]@);
            }
            match pack_to_node.get(dependencies[d].as_str()) {
                Some(target) => {
                    add_edge(&mut graph, i, *target);
                    proof {
                        assert(from[d as int] == (i, *target));
                        assert(graph_edges(graph) =~= edges_of(packs@, i as nat) + from.take(
                            d + 1,
                        ));
                    }
                },
                None => {
                    assert(has_text(packs@[i as int].dependencies@, dependencies@[d as int]@));
                    return Err(
                        UnknownDependency {
                            pack_name: packs[i].name.clone(),
                            dependency_name: dependencies[d].clone(),
                        },
                    );
                },
            }
        }
        proof {
            assert(from.take(dependencies@.len() as int) =~= from);
        }
    }
    proof {
        lemma_graph_of(packs@);
        lemma_edges_end_at_named_nodes(packs@);
        lemma_nodes_are_named(pack_to_node@, names);
    }
    Ok(OwnedDependencyGraph { graph, pack_to_node, node_to_pack })
}

} // verus!
