//! What holds of the checker as a whole.

use crate::cycle::{answer, buildable, cycle_path, kept_after, outcome, Checker};
use crate::dependency::{graph_of, lemma_graph_of, GraphView};
use crate::pack::{all_known, declared, fits, lemma_position, position, Pack, Reference};
use crate::pack_checker::{connected_packs, implicit_dependency, CheckErrorView, PackRules};
use crate::paths::{
    declares, depends_on, is_acyclic, is_cycle, is_path, is_shortest_path, takes_hop,
    with_dependency, Declared,
};
use crate::text::has_text;
use vstd::prelude::*;

verus! {

/// A shortest path visits no pack twice.
pub proof fn law_shortest_path_visits_each_pack_once(
    dependencies: Declared,
    path: Seq<Seq<char>>,
    from: Seq<char>,
    to: Seq<char>,
)
    requires
        is_shortest_path(dependencies, path, from, to),
    ensures
        path.no_duplicates(),
{
    assert forall|i: int, j: int| 0 <= i < j < path.len() implies path[i] != path[j] by {
        if path[i] == path[j] {
            let shorter = path.take(i) + path.skip(j);
            assert forall|k: int| 0 <= k < shorter.len() implies dependencies.contains_key(
                #[trigger] shorter[k],
            ) by {
                if k < i {
                    assert(shorter[k] == path[k]);
                } else {
                    assert(shorter[k] == path[k - i + j]);
                }
            }
            assert forall|k: int, l: int|
                0 <= k && l == k + 1 && l < shorter.len() implies declares(
                dependencies,
                #[trigger] shorter[k],
                #[trigger] shorter[l],
            ) by {
                if l < i {
                    assert(declares(dependencies, path[k], path[l]));
                } else if k < i {
                    assert(declares(dependencies, path[k], path[i]));
                } else {
                    assert(declares(dependencies, path[k - i + j], path[l - i + j]));
                }
            }
            assert(is_path(dependencies, shorter, from, to));
        }
    }
}

/// Dependency carries over from pack to pack.
pub proof fn law_depending_is_transitive(
    dependencies: Declared,
    first: Seq<char>,
    second: Seq<char>,
    third: Seq<char>,
)
    requires
        depends_on(dependencies, first, second),
        depends_on(dependencies, second, third),
    ensures
        depends_on(dependencies, first, third),
{
    let a = choose|path: Seq<Seq<char>>| is_path(dependencies, path, first, second);
    let b = choose|path: Seq<Seq<char>>| is_path(dependencies, path, second, third);
    lemma_paths_join(dependencies, a, b, first, second, third);
}

/// A known pack depends on itself, and on all that the known packs that it declares depend on.
pub proof fn law_depending_follows_declarations(
    dependencies: Declared,
    first: Seq<char>,
    second: Seq<char>,
    third: Seq<char>,
)
    requires
        dependencies.contains_key(first),
    ensures
        depends_on(dependencies, first, first),
        dependencies[first].contains(second) && depends_on(dependencies, second, third)
            ==> depends_on(dependencies, first, third),
{
    assert(is_path(dependencies, seq![first], first, first));
    if dependencies[first].contains(second) && depends_on(dependencies, second, third) {
        let tail = choose|path: Seq<Seq<char>>| is_path(dependencies, path, second, third);
        let path = seq![first] + tail;
        assert forall|k: int| 0 <= k < path.len() implies dependencies.contains_key(
            #[trigger] path[k],
        ) by {
            if k > 0 {
                assert(path[k] == tail[k - 1]);
            }
        }
        assert forall|k: int, l: int| 0 <= k && l == k + 1 && l < path.len() implies declares(
            dependencies,
            #[trigger] path[k],
            #[trigger] path[l],
        ) by {
            if k > 0 {
                assert(declares(dependencies, tail[k - 1], tail[l - 1]));
            }
        }
        assert(path.last() == tail.last());
        assert(is_path(dependencies, path, first, third));
    }
}

/// A pack depends on no more than declarations lead to: any set of names that holds it, and with
/// each known pack the known packs that it declares, holds all that it depends on.
pub proof fn law_depending_goes_no_further_than_declarations(
    dependencies: Declared,
    reached: Set<Seq<char>>,
    from: Seq<char>,
    to: Seq<char>,
)
    requires
        depends_on(dependencies, from, to),
        reached.contains(from),
        forall|a: Seq<char>, b: Seq<char>|
            reached.contains(a) && dependencies.contains_key(a) && dependencies.contains_key(b)
                && #[trigger] dependencies[a].contains(b) ==> reached.contains(b),
    ensures
        reached.contains(to),
        dependencies.contains_key(from),
        dependencies.contains_key(to),
{
    let path = choose|path: Seq<Seq<char>>| is_path(dependencies, path, from, to);
    assert(dependencies.contains_key(path[0]));
    assert(dependencies.contains_key(path[path.len() - 1]));
    lemma_path_stays_within(dependencies, reached, path, path.len() - 1);
}

/// A path that starts in such a set stays in it.
proof fn lemma_path_stays_within(
    dependencies: Declared,
    reached: Set<Seq<char>>,
    path: Seq<Seq<char>>,
    i: int,
)
    requires
        0 <= i < path.len(),
        is_path(dependencies, path, path[0], path.last()),
        reached.contains(path[0]),
        forall|a: Seq<char>, b: Seq<char>|
            reached.contains(a) && dependencies.contains_key(a) && dependencies.contains_key(b)
                && #[trigger] dependencies[a].contains(b) ==> reached.contains(b),
    ensures
        reached.contains(path[i]),
    decreases i,
{
    if i > 0 {
        lemma_path_stays_within(dependencies, reached, path, i - 1);
        assert(declares(dependencies, path[i - 1], path[i]));
        assert(dependencies.contains_key(path[i]));
    }
}

/// A shortest path starts and ends where it should, each of its hops is declared, and whatever
/// else goes from the one pack to the other through known packs by declared hops is no shorter.
pub proof fn law_shortest_path_is_declared_and_shortest(
    dependencies: Declared,
    path: Seq<Seq<char>>,
    other: Seq<Seq<char>>,
    from: Seq<char>,
    to: Seq<char>,
)
    requires
        is_shortest_path(dependencies, path, from, to),
    ensures
        path.len() > 0,
        path[0] == from,
        path[path.len() - 1] == to,
        forall|i: int| 0 <= i < path.len() ==> dependencies.contains_key(#[trigger] path[i]),
        forall|i: int, j: int|
            0 <= i && j == i + 1 && j < path.len() ==> dependencies[#[trigger] path[i]].contains(
                #[trigger] path[j],
            ),
        other.len() > 0 && other[0] == from && other[other.len() - 1] == to && (forall|i: int|
            0 <= i < other.len() ==> dependencies.contains_key(#[trigger] other[i])) && (forall|
            i: int,
            j: int,
        |
            0 <= i && j == i + 1 && j < other.len() ==> dependencies[#[trigger] other[i]].contains(
                #[trigger] other[j],
            )) ==> path.len() <= other.len(),
{
    assert forall|i: int, j: int| 0 <= i && j == i + 1 && j < path.len() implies dependencies[
    #[trigger] path[i]].contains(#[trigger] path[j]) by {
        assert(declares(dependencies, path[i], path[j]));
    }
    if other.len() > 0 && other[0] == from && other[other.len() - 1] == to && (forall|i: int|
        0 <= i < other.len() ==> dependencies.contains_key(#[trigger] other[i])) && (forall|
        i: int,
        j: int,
    |
        0 <= i && j == i + 1 && j < other.len() ==> dependencies[#[trigger] other[i]].contains(
            #[trigger] other[j],
        )) {
        assert(is_path(dependencies, other, from, to));
    }
}

/// A path to a pack and a path from it make one path.
proof fn lemma_paths_join(
    dependencies: Declared,
    a: Seq<Seq<char>>,
    b: Seq<Seq<char>>,
    first: Seq<char>,
    second: Seq<char>,
    third: Seq<char>,
)
    requires
        is_path(dependencies, a, first, second),
        is_path(dependencies, b, second, third),
    ensures
        is_path(dependencies, a + b.skip(1), first, third),
{
    let path = a + b.skip(1);
    assert forall|k: int| 0 <= k < path.len() implies dependencies.contains_key(
        #[trigger] path[k],
    ) by {
        if k < a.len() {
            assert(path[k] == a[k]);
        } else {
            assert(path[k] == b[k - a.len() + 1]);
        }
    }
    assert forall|k: int, l: int| 0 <= k && l == k + 1 && l < path.len() implies declares(
        dependencies,
        #[trigger] path[k],
        #[trigger] path[l],
    ) by {
        if l < a.len() {
            assert(declares(dependencies, a[k], a[l]));
        } else {
            assert(path[k] == b[k - a.len() + 1]);
            assert(declares(dependencies, b[k - a.len() + 1], b[l - a.len() + 1]));
        }
    }
    if b.len() == 1 {
        assert(path.last() == a.last());
    } else {
        assert(path.last() == b.last());
    }
}

/// A path to a pack, over a new dependency of that pack or not, shows a path that does without it
/// and is no longer: up to where it first comes to the pack.
proof fn lemma_path_up_to(
    dependencies: Declared,
    path: Seq<Seq<char>>,
    from: Seq<char>,
    to: Seq<char>,
) -> (found: Seq<Seq<char>>)
    requires
        dependencies.contains_key(to),
        is_path(with_dependency(dependencies, to, from), path, from, to),
    ensures
        is_path(dependencies, found, from, to),
        found.len() <= path.len(),
    decreases path.len(),
{
    let adopted = with_dependency(dependencies, to, from);
    if exists|i: int| 0 <= i < path.len() - 1 && #[trigger] path[i] == to {
        let i = choose|i: int| 0 <= i < path.len() - 1 && #[trigger] path[i] == to;
        let shorter = path.take(i + 1);
        assert forall|k: int, l: int| 0 <= k && l == k + 1 && l < shorter.len() implies declares(
            adopted,
            #[trigger] shorter[k],
            #[trigger] shorter[l],
        ) by {
            assert(declares(adopted, path[k], path[l]));
        }
        assert forall|k: int| 0 <= k < shorter.len() implies adopted.contains_key(
            #[trigger] shorter[k],
        ) by {
            assert(adopted.contains_key(path[k]));
        }
        assert(is_path(adopted, shorter, from, to));
        lemma_path_up_to(dependencies, shorter, from, to)
    } else {
        assert forall|k: int, l: int| 0 <= k && l == k + 1 && l < path.len() implies declares(
            dependencies,
            #[trigger] path[k],
            #[trigger] path[l],
        ) by {
            assert(declares(adopted, path[k], path[l]));
            assert(path[k] != to);
        }
        assert forall|k: int| 0 <= k < path.len() implies dependencies.contains_key(
            #[trigger] path[k],
        ) by {
            assert(adopted.contains_key(path[k]));
        }
        path
    }
}

/// A cycle over a new dependency leads back along the old ones, in at most as many hops.
proof fn lemma_cycle_leads_back(
    dependencies: Declared,
    cycle: Seq<Seq<char>>,
    referencing: Seq<char>,
    defining: Seq<char>,
) -> (path: Seq<Seq<char>>)
    requires
        dependencies.contains_key(referencing),
        is_cycle(with_dependency(dependencies, referencing, defining), cycle),
        takes_hop(cycle, referencing, defining),
    ensures
        is_path(dependencies, path, defining, referencing),
        path.len() < cycle.len(),
{
    let adopted = with_dependency(dependencies, referencing, defining);
    let (i, j) = choose|i: int, j: int|
        0 <= i && j == i + 1 && j < cycle.len() && #[trigger] cycle[i] == referencing
            && #[trigger] cycle[j] == defining;
    let after = cycle.skip(j);
    let before = cycle.take(j);
    assert forall|k: int, l: int| 0 <= k && l == k + 1 && l < after.len() implies declares(
        adopted,
        #[trigger] after[k],
        #[trigger] after[l],
    ) by {
        assert(declares(adopted, cycle[k + j], cycle[l + j]));
    }
    assert forall|k: int| 0 <= k < after.len() implies adopted.contains_key(
        #[trigger] after[k],
    ) by {
        assert(adopted.contains_key(cycle[k + j]));
    }
    assert forall|k: int, l: int| 0 <= k && l == k + 1 && l < before.len() implies declares(
        adopted,
        #[trigger] before[k],
        #[trigger] before[l],
    ) by {
        assert(declares(adopted, cycle[k], cycle[l]));
    }
    assert forall|k: int| 0 <= k < before.len() implies adopted.contains_key(
        #[trigger] before[k],
    ) by {
        assert(adopted.contains_key(cycle[k]));
    }
    assert(is_path(adopted, after, defining, cycle[0]));
    assert(is_path(adopted, before, cycle[0], referencing));
    lemma_paths_join(adopted, after, before, defining, cycle[0], referencing);
    lemma_path_up_to(dependencies, after + before.skip(1), defining, referencing)
}

/// A path back from the defining pack makes a cycle with the new dependency.
proof fn lemma_path_closes_cycle(
    dependencies: Declared,
    path: Seq<Seq<char>>,
    referencing: Seq<char>,
    defining: Seq<char>,
)
    requires
        is_path(dependencies, path, defining, referencing),
    ensures
        is_cycle(
            with_dependency(dependencies, referencing, defining),
            cycle_path(referencing, path),
        ),
        takes_hop(cycle_path(referencing, path), referencing, defining),
{
    let adopted = with_dependency(dependencies, referencing, defining);
    let cycle = cycle_path(referencing, path);
    assert(dependencies.contains_key(path[path.len() - 1]));
    assert forall|k: int| 0 <= k < cycle.len() implies adopted.contains_key(
        #[trigger] cycle[k],
    ) by {
        if k > 0 {
            assert(cycle[k] == path[k - 1]);
        }
    }
    assert forall|k: int, l: int| 0 <= k && l == k + 1 && l < cycle.len() implies declares(
        adopted,
        #[trigger] cycle[k],
        #[trigger] cycle[l],
    ) by {
        if k > 0 {
            assert(declares(dependencies, path[k - 1], path[l - 1]));
        }
    }
    assert(cycle[0] == referencing && cycle[1] == defining);
    assert(cycle.last() == path.last());
}

/// Declaring an implicit dependency closes a cycle over it exactly where the defining pack
/// already depends on the referencing pack.
pub proof fn law_cycle_closes_where_defining_depends_on_referencing(
    dependencies: Declared,
    referencing: Seq<char>,
    defining: Seq<char>,
)
    requires
        dependencies.contains_key(referencing),
    ensures
        (exists|cycle: Seq<Seq<char>>| #[trigger]
            is_cycle(with_dependency(dependencies, referencing, defining), cycle) && takes_hop(
                cycle,
                referencing,
                defining,
            )) <==> depends_on(dependencies, defining, referencing),
{
    let adopted = with_dependency(dependencies, referencing, defining);
    if exists|cycle: Seq<Seq<char>>| #[trigger]
        is_cycle(adopted, cycle) && takes_hop(cycle, referencing, defining) {
        let cycle = choose|cycle: Seq<Seq<char>>| #[trigger]
            is_cycle(adopted, cycle) && takes_hop(cycle, referencing, defining);
        let path = lemma_cycle_leads_back(dependencies, cycle, referencing, defining);
    }
    if depends_on(dependencies, defining, referencing) {
        let path = choose|path: Seq<Seq<char>>|
            is_path(dependencies, path, defining, referencing);
        lemma_path_closes_cycle(dependencies, path, referencing, defining);
    }
}

/// The reported cycle is one that declaring the implicit dependency closes: it starts at the
/// referencing pack, takes the implicit dependency first, comes back to the referencing pack, and
/// passes through no pack twice on the way. No other cycle over the implicit dependency is
/// shorter.
pub proof fn law_reported_cycle_is_a_shortest_cycle(
    dependencies: Declared,
    declared_path: Seq<Seq<char>>,
    referencing: Seq<char>,
    defining: Seq<char>,
)
    requires
        is_shortest_path(dependencies, declared_path, defining, referencing),
    ensures
        is_cycle(
            with_dependency(dependencies, referencing, defining),
            cycle_path(referencing, declared_path),
        ),
        cycle_path(referencing, declared_path)[0] == referencing,
        cycle_path(referencing, declared_path)[1] == defining,
        cycle_path(referencing, declared_path).last() == referencing,
        cycle_path(referencing, declared_path).skip(1).no_duplicates(),
        forall|cycle: Seq<Seq<char>>| #[trigger]
            is_cycle(with_dependency(dependencies, referencing, defining), cycle) && takes_hop(
                cycle,
                referencing,
                defining,
            ) ==> cycle_path(referencing, declared_path).len() <= cycle.len(),
{
    let adopted = with_dependency(dependencies, referencing, defining);
    let reported = cycle_path(referencing, declared_path);
    lemma_path_closes_cycle(dependencies, declared_path, referencing, defining);
    law_shortest_path_visits_each_pack_once(dependencies, declared_path, defining, referencing);
    assert(reported.skip(1) =~= declared_path);
    assert(dependencies.contains_key(declared_path[declared_path.len() - 1]));
    assert forall|cycle: Seq<Seq<char>>| #[trigger]
        is_cycle(adopted, cycle) && takes_hop(cycle, referencing, defining) implies reported.len()
        <= cycle.len() by {
        let path = lemma_cycle_leads_back(dependencies, cycle, referencing, defining);
    }
}

/// Where the declared dependencies hold no cycle, declaring an implicit dependency keeps them so
/// exactly where the defining pack does not depend on the referencing pack.
pub proof fn law_unreported_dependency_keeps_packs_acyclic(
    dependencies: Declared,
    referencing: Seq<char>,
    defining: Seq<char>,
)
    requires
        is_acyclic(dependencies),
        dependencies.contains_key(referencing),
    ensures
        is_acyclic(with_dependency(dependencies, referencing, defining)) <==> !depends_on(
            dependencies,
            defining,
            referencing,
        ),
{
    let adopted = with_dependency(dependencies, referencing, defining);
    law_cycle_closes_where_defining_depends_on_referencing(dependencies, referencing, defining);
    if !depends_on(dependencies, defining, referencing) {
        assert forall|cycle: Seq<Seq<char>>| !is_cycle(adopted, cycle) by {
            if is_cycle(adopted, cycle) {
                assert(!takes_hop(cycle, referencing, defining));
                assert forall|k: int, l: int|
                    0 <= k && l == k + 1 && l < cycle.len() implies declares(
                    dependencies,
                    #[trigger] cycle[k],
                    #[trigger] cycle[l],
                ) by {
                    assert(declares(adopted, cycle[k], cycle[l]));
                }
                assert forall|k: int| 0 <= k < cycle.len() implies dependencies.contains_key(
                    #[trigger] cycle[k],
                ) by {
                    assert(adopted.contains_key(cycle[k]));
                }
                assert(is_cycle(dependencies, cycle));
            }
        }
    }
}

/// Of packs whose dependencies are all known, a first check reports an implicit dependency exactly
/// where declaring it closes a cycle over it.
pub proof fn law_violation_is_reported_exactly_where_a_cycle_closes(
    packs: Seq<Pack>,
    reference: Reference,
    rules: PackRules,
    referencing: Seq<char>,
    defining: Seq<char>,
)
    requires
        fits(packs),
        all_known(packs),
        implicit_dependency(packs, reference, rules) == Ok::<
            Option<(Seq<char>, Seq<char>)>,
            CheckErrorView,
        >(Some((referencing, defining))),
    ensures
        (outcome(None, packs, reference, rules) matches Ok(Some(_))) <==> exists|
            cycle: Seq<Seq<char>>,
        | #[trigger]
            is_cycle(with_dependency(declared(packs), referencing, defining), cycle) && takes_hop(
                cycle,
                referencing,
                defining,
            ),
{
    lemma_graph_of(packs);
    lemma_position(packs, reference.referencing_pack_name@);
    law_cycle_closes_where_defining_depends_on_referencing(
        declared(packs),
        referencing,
        defining,
    );
}

/// The graph of packs whose dependencies are all known shows exactly what they declare.
pub proof fn law_graph_shows_what_packs_declare(packs: Seq<Pack>)
    requires
        fits(packs),
        all_known(packs),
    ensures
        graph_of(packs).declared() == declared(packs),
{
    lemma_graph_of(packs);
}

/// Names and nodes belong to each other: the node that a name stands for bears that name, every
/// node bears a known name, and where no two packs have the same name, the name of a node stands
/// for that very node.
pub proof fn law_names_and_nodes_are_inverse(packs: Seq<Pack>)
    ensures
        graph_of(packs).names.len() == packs.len(),
        forall|name: Seq<char>| #[trigger]
            graph_of(packs).node(name) is Some <==> exists|i: int|
                0 <= i < packs.len() && (#[trigger] packs[i]).name@ == name,
        forall|name: Seq<char>| #[trigger]
            graph_of(packs).node(name) matches Some(node) ==> 0 <= node < packs.len() && graph_of(
                packs,
            ).names[node] == name,
        forall|node: int|
            0 <= node < packs.len() ==> graph_of(packs).node(
                #[trigger] graph_of(packs).names[node],
            ) is Some,
        distinctly_named(packs) ==> forall|node: int|
            0 <= node < packs.len() ==> graph_of(packs).node(
                #[trigger] graph_of(packs).names[node],
            ) == Some(node),
{
    let view = graph_of(packs);
    assert(forall|i: int|
        0 <= i < packs.len() ==> #[trigger] view.names[i] == packs[i].name@);
    assert forall|name: Seq<char>|
        (#[trigger] view.node(name) is Some <==> exists|i: int|
            0 <= i < packs.len() && (#[trigger] packs[i]).name@ == name) && (view.node(
            name,
        ) matches Some(node) ==> 0 <= node < packs.len() && view.names[node] == name) by {
        lemma_position(packs, name);
    }
    assert forall|node: int| 0 <= node < packs.len() implies view.node(
        #[trigger] view.names[node],
    ) is Some && (distinctly_named(packs) ==> view.node(view.names[node]) == Some(node)) by {
        lemma_position(packs, view.names[node]);
    }
}

/// The graph is built once: the packs of the first check that needs it settle the graph that every
/// later check goes by. The packs and the rules of the later check settle only whether it makes
/// an implicit dependency, and of which packs.
pub proof fn law_later_checks_go_by_the_first_graph(
    packs: Seq<Pack>,
    reference: Reference,
    rules: PackRules,
    later_packs: Seq<Pack>,
    later_reference: Reference,
    later_rules: PackRules,
)
    requires
        implicit_dependency(packs, reference, rules) matches Ok(Some(_)),
    ensures
        kept_after(None, packs, reference, rules) == Some(buildable(packs)),
        kept_after(
            kept_after(None, packs, reference, rules),
            later_packs,
            later_reference,
            later_rules,
        ) == Some(buildable(packs)),
        outcome(
            kept_after(None, packs, reference, rules),
            later_packs,
            later_reference,
            later_rules,
        ) == match implicit_dependency(later_packs, later_reference, later_rules) {
            Err(error) => Err(error),
            Ok(None) => Ok(None),
            Ok(Some((referencing, defining))) => Ok(
                answer(buildable(packs), later_reference, later_rules, referencing, defining),
            ),
        },
{
}

/// A check that is repeated gives the same result, down to the reported path, and changes nothing
/// more.
pub proof fn law_repeated_check_gives_the_same_result(
    kept: Option<Option<GraphView>>,
    packs: Seq<Pack>,
    reference: Reference,
    rules: PackRules,
)
    ensures
        outcome(kept_after(kept, packs, reference, rules), packs, reference, rules) == outcome(
            kept,
            packs,
            reference,
            rules,
        ),
        kept_after(kept_after(kept, packs, reference, rules), packs, reference, rules)
            == kept_after(kept, packs, reference, rules),
{
}

/// Checkers that have not needed the graph yet, however they were made, give the same results on
/// their first checks of the same reference, down to the reported path.
pub proof fn law_fresh_checkers_agree(
    checker: Checker,
    other: Checker,
    packs: Seq<Pack>,
    reference: Reference,
    rules: PackRules,
)
    requires
        checker@ is None,
        other@ is None,
    ensures
        outcome(checker@, packs, reference, rules) == outcome(other@, packs, reference, rules),
        kept_after(checker@, packs, reference, rules) == kept_after(
            other@,
            packs,
            reference,
            rules,
        ),
{
}

/// A dependency that the referencing pack declares or ignores is never implicit, so no cycle is
/// reported of it.
pub proof fn law_declared_or_ignored_dependency_is_not_implicit(
    packs: Seq<Pack>,
    reference: Reference,
    rules: PackRules,
    referencing: int,
    defining: int,
)
    requires
        connected_packs(packs, reference) == Ok::<(int, Option<int>), CheckErrorView>(
            (referencing, Some(defining)),
        ),
        has_text(packs[referencing].dependencies@, packs[defining].name@) || has_text(
            packs[referencing].ignored_dependencies@,
            packs[defining].name@,
        ),
        rules.checkable is Ok,
    ensures
        implicit_dependency(packs, reference, rules) == Ok::<
            Option<(Seq<char>, Seq<char>)>,
            CheckErrorView,
        >(None),
{
}

/// Whether no two packs have the same name.
pub open spec fn distinctly_named(packs: Seq<Pack>) -> bool {
    forall|i: int, j: int|
        0 <= i < j < packs.len() ==> (#[trigger] packs[i]).name@ != (#[trigger] packs[j]).name@
}

/// Whether each pack of `some` is matched in `others` by one of the same name that declares the
/// same dependencies, in whatever order.
pub open spec fn matched_in(some: Seq<Pack>, others: Seq<Pack>) -> bool {
    forall|i: int|
        0 <= i < some.len() ==> exists|j: int|
            0 <= j < others.len() && #[trigger] others[j].name@ == (#[trigger] some[i]).name@
                && same_dependencies(some[i], others[j])
}

/// Whether the packs declare the same dependencies, in whatever order.
pub open spec fn same_dependencies(pack: Pack, other: Pack) -> bool {
    forall|name: Seq<char>| #[trigger]
        has_text(pack.dependencies@, name) == has_text(other.dependencies@, name)
}

/// The order in which packs and their dependencies are listed does not matter, nor does it
/// matter whether a dependency is listed twice: the same graph comes of them, or none.
pub proof fn law_order_of_listing_does_not_matter(packs: Seq<Pack>, others: Seq<Pack>)
    requires
        distinctly_named(packs),
        distinctly_named(others),
        matched_in(packs, others),
        matched_in(others, packs),
    ensures
        declared(packs) == declared(others),
        all_known(packs) == all_known(others),
{
    assert forall|name: Seq<char>|
        (#[trigger] position(packs, name) is Some) == (position(others, name) is Some) by {
        lemma_position(packs, name);
        lemma_position(others, name);
    }
    assert forall|name: Seq<char>, other: Seq<char>|
        position(packs, name) is Some implies #[trigger] declared(packs)[name].contains(other)
        == declared(others)[name].contains(other) by {
        lemma_position(packs, name);
        lemma_position(others, name);
        let i = position(packs, name)->0;
        let j = choose|j: int|
            0 <= j < others.len() && #[trigger] others[j].name@ == packs[i].name@
                && same_dependencies(packs[i], others[j]);
        assert(position(others, name) == Some(j));
        assert(has_text(packs[i].dependencies@, other) == has_text(
            others[j].dependencies@,
            other,
        ));
    }
    assert(declared(packs) =~~= declared(others));
    lemma_known_as_matched(packs, others);
    lemma_known_as_matched(others, packs);
}

/// If all that `packs` declare is known to them, so is all that their matches declare.
proof fn lemma_known_as_matched(packs: Seq<Pack>, others: Seq<Pack>)
    requires
        matched_in(packs, others),
        matched_in(others, packs),
    ensures
        all_known(packs) ==> all_known(others),
{
    if all_known(packs) {
        assert forall|i: int, name: Seq<char>|
            0 <= i < others.len() && #[trigger] has_text(
                others[i].dependencies@,
                name,
            ) implies position(others, name) is Some by {
            let j = choose|j: int|
                0 <= j < packs.len() && #[trigger] packs[j].name@ == others[i].name@
                    && same_dependencies(others[i], packs[j]);
            assert(has_text(packs[j].dependencies@, name));
            lemma_position(packs, name);
            lemma_position(others, name);
            let k = position(packs, name)->0;
            let l = choose|l: int|
                0 <= l < others.len() && #[trigger] others[l].name@ == packs[k].name@
                    && same_dependencies(packs[k], others[l]);
            assert(others[l].name@ == name);
        }
    }
}

} // verus!
