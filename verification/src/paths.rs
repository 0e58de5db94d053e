//! Declared dependencies as a mathematical graph, and the paths through it.

use vstd::prelude::*;

verus! {

/// For the name of each known pack, the names of the packs that it declares as dependencies.
pub type Declared = Map<Seq<char>, Set<Seq<char>>>;

/// Whether the pack `from` declares the pack `to` as a dependency.
pub open spec fn declares(declared: Declared, from: Seq<char>, to: Seq<char>) -> bool {
    declared.contains_key(from) && declared[from].contains(to)
}

/// Whether `path` leads from `from` to `to` through known packs along declared dependencies,
/// both ends included. A known pack leads to itself in no hops.
pub open spec fn is_path(
    declared: Declared,
    path: Seq<Seq<char>>,
    from: Seq<char>,
    to: Seq<char>,
) -> bool {
    &&& path.len() > 0
    &&& path.first() == from
    &&& path.last() == to
    &&& forall|i: int| 0 <= i < path.len() ==> declared.contains_key(#[trigger] path[i])
    &&& forall|i: int, j: int|
        0 <= i && j == i + 1 && j < path.len() ==> declares(
            declared,
            #[trigger] path[i],
            #[trigger] path[j],
        )
}

/// Whether `path` is a path from `from` to `to`, and none has fewer hops.
pub open spec fn is_shortest_path(
    declared: Declared,
    path: Seq<Seq<char>>,
    from: Seq<char>,
    to: Seq<char>,
) -> bool {
    &&& is_path(declared, path, from, to)
    &&& forall|other: Seq<Seq<char>>|
        #[trigger] is_path(declared, other, from, to) ==> path.len() <= other.len()
}

/// Whether `from` depends on `to`, directly or through other packs.
pub open spec fn depends_on(declared: Declared, from: Seq<char>, to: Seq<char>) -> bool {
    exists|path: Seq<Seq<char>>| is_path(declared, path, from, to)
}

/// The dependencies once the pack `from` declares the pack `to` as well.
pub open spec fn with_dependency(declared: Declared, from: Seq<char>, to: Seq<char>) -> Declared {
    declared.insert(from, declared[from].insert(to))
}

/// Whether `cycle` goes from a pack along declared dependencies back to the same pack, in at
/// least one hop.
pub open spec fn is_cycle(declared: Declared, cycle: Seq<Seq<char>>) -> bool {
    &&& cycle.len() > 1
    &&& is_path(declared, cycle, cycle[0], cycle[0])
}

/// Whether `cycle` takes the hop from the pack `from` straight to the pack `to`.
pub open spec fn takes_hop(cycle: Seq<Seq<char>>, from: Seq<char>, to: Seq<char>) -> bool {
    exists|i: int, j: int|
        0 <= i && j == i + 1 && j < cycle.len() && #[trigger] cycle[i] == from
            && #[trigger] cycle[j] == to
}

/// Whether no cycle goes through the declared dependencies.
pub open spec fn is_acyclic(declared: Declared) -> bool {
    forall|cycle: Seq<Seq<char>>| !is_cycle(declared, cycle)
}

/// The index of the first of the names that reads `name`.
pub open spec fn first_index(names: Seq<Seq<char>>, name: Seq<char>) -> Option<int>
    decreases names.len(),
{
    if names.len() == 0 {
        None
    } else if first_index(names.drop_last(), name) is Some {
        first_index(names.drop_last(), name)
    } else if names.last() == name {
        Some(names.len() - 1)
    } else {
        None
    }
}

/// The first index is that of a name that reads so, with none before it.
pub proof fn lemma_first_index(names: Seq<Seq<char>>, name: Seq<char>)
    ensures
        match first_index(names, name) {
            Some(i) => 0 <= i < names.len() && names[i] == name && forall|j: int|
                0 <= j < i ==> #[trigger] names[j] != name,
            None => forall|j: int| 0 <= j < names.len() ==> #[trigger] names[j] != name,
        },
    decreases names.len(),
{
    if names.len() > 0 {
        lemma_first_index(names.drop_last(), name);
        assert(forall|j: int|
            0 <= j < names.len() - 1 ==> #[trigger] names[j] == names.drop_last()[j]);
    }
}

} // verus!
