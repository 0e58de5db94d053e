//! What holds of packs, of what they declare, and of which references are implicit dependencies.

use crate::dependency::{graph_of, GraphView};
use crate::pack::{
    all_known, declared, dependency_total, fits, lemma_position, position, Pack, Reference,
};
use crate::pack_checker::{
    connected_packs, has_pack_to_check, implicit_dependency, is_implicit_dependency,
    CheckErrorView, PackRules,
};
use crate::paths::{first_index, lemma_first_index};
use crate::text::has_text;
use vstd::prelude::*;

verus! {

/// Whether pack `i` is the first that bears `name`.
pub open spec fn stands_for(packs: Seq<Pack>, name: Seq<char>, i: int) -> bool {
    &&& 0 <= i < packs.len()
    &&& packs[i].name@ == name
    &&& forall|j: int| 0 <= j < i ==> (#[trigger] packs[j]).name@ != name
}

/// Whether some pack bears `name`.
pub open spec fn is_borne(packs: Seq<Pack>, name: Seq<char>) -> bool {
    exists|i: int| 0 <= i < packs.len() && (#[trigger] packs[i]).name@ == name
}

/// Whether one of the strings reads `name`.
pub open spec fn lists(strings: Seq<String>, name: Seq<char>) -> bool {
    exists|i: int| 0 <= i < strings.len() && (#[trigger] strings[i])@ == name
}

/// A name has the position of the first pack that bears it, and none if no pack does.
pub proof fn law_name_stands_for_the_first_pack(packs: Seq<Pack>, name: Seq<char>, i: int)
    ensures
        position(packs, name) == Some(i) <==> stands_for(packs, name, i),
        position(packs, name) is None <==> !is_borne(packs, name),
{
    lemma_position(packs, name);
}

/// What the packs declare is what they list: the names are those of the packs, and a name has the
/// dependencies of the pack that it stands for.
pub proof fn law_declared_is_what_packs_list(
    packs: Seq<Pack>,
    name: Seq<char>,
    dependency: Seq<char>,
)
    ensures
        declared(packs).contains_key(name) <==> is_borne(packs, name),
        forall|i: int| #[trigger]
            stands_for(packs, name, i) ==> (declared(packs)[name].contains(dependency) <==> lists(
                packs[i].dependencies@,
                dependency,
            )),
{
    lemma_position(packs, name);
}

/// All dependencies are known exactly where each that is listed is borne by a pack.
pub proof fn law_all_known_where_each_dependency_is_a_pack(packs: Seq<Pack>)
    ensures
        all_known(packs) <==> forall|i: int, d: int|
            #![trigger packs[i].dependencies@[d]]
            0 <= i < packs.len() && 0 <= d < packs[i].dependencies@.len() ==> is_borne(
                packs,
                packs[i].dependencies@[d]@,
            ),
{
    if all_known(packs) {
        assert forall|i: int, d: int|
            #![trigger packs[i].dependencies@[d]]
            0 <= i < packs.len() && 0 <= d < packs[i].dependencies@.len() implies is_borne(
            packs,
            packs[i].dependencies@[d]@,
        ) by {
            let name = packs[i].dependencies@[d]@;
            assert(has_text(packs[i].dependencies@, name));
            lemma_position(packs, name);
        }
    }
    if forall|i: int, d: int|
        #![trigger packs[i].dependencies@[d]]
        0 <= i < packs.len() && 0 <= d < packs[i].dependencies@.len() ==> is_borne(
            packs,
            packs[i].dependencies@[d]@,
        ) {
        assert forall|i: int, name: Seq<char>|
            0 <= i < packs.len() && #[trigger] has_text(
                packs[i].dependencies@,
                name,
            ) implies position(packs, name) is Some by {
            let d = choose|d: int|
                0 <= d < packs[i].dependencies@.len() && (#[trigger] packs[i].dependencies@[d])@
                    == name;
            assert(is_borne(packs, packs[i].dependencies@[d]@));
            lemma_position(packs, name);
        }
    }
}

/// The dependencies of packs are counted pack by pack, and packs fit a graph exactly where neither
/// they nor their dependencies are more than a `u32` can number.
pub proof fn law_dependencies_are_counted_pack_by_pack(
    pack: Pack,
    front: Seq<Pack>,
    back: Seq<Pack>,
)
    ensures
        dependency_total(Seq::empty()) == 0,
        dependency_total(seq![pack]) == pack.dependencies@.len(),
        dependency_total(front + back) == dependency_total(front) + dependency_total(back),
        fits(front) <==> front.len() <= 0xffff_ffff && dependency_total(front) <= 0xffff_ffff,
    decreases back.len(),
{
    assert(seq![pack].drop_last() =~= Seq::<Pack>::empty());
    assert(dependency_total(Seq::<Pack>::empty()) == 0);
    assert(seq![pack].last() == pack);
    if back.len() == 0 {
        assert(front + back =~= front);
    } else {
        law_dependencies_are_counted_pack_by_pack(pack, front, back.drop_last());
        assert((front + back).drop_last() =~= front + back.drop_last());
        assert((front + back).last() == back.last());
    }
}

/// A graph declares between names what its edges lead to between the first nodes that bear them.
pub proof fn law_graph_declares_its_edges(graph: GraphView, name: Seq<char>, other: Seq<char>)
    requires
        graph.names.len() <= usize::MAX,
    ensures
        graph.declared().contains_key(name) <==> graph.names.contains(name),
        forall|i: usize, j: usize|
            i < graph.names.len() && j < graph.names.len() && graph.names[i as int] == name
                && graph.names[j as int] == other && (forall|k: int|
                0 <= k < i ==> #[trigger] graph.names[k] != name) && (forall|k: int|
                0 <= k < j ==> #[trigger] graph.names[k] != other) ==> (
            graph.declared()[name].contains(other) <==> #[trigger] graph.edges.contains((i, j))),
{
    lemma_first_index(graph.names, name);
    lemma_first_index(graph.names, other);
    assert(graph.node(name) == first_index(graph.names, name));
}

/// The graph of packs has a node for each pack, in their order and under their names.
pub proof fn law_graph_of_packs_has_their_names(packs: Seq<Pack>, i: int)
    requires
        0 <= i < packs.len(),
    ensures
        graph_of(packs).names.len() == packs.len(),
        graph_of(packs).names[i] == packs[i].name@,
{
}

/// A reference connects the packs that its names stand for. It is an error exactly where one of
/// them is borne by no pack: the referencing name before the defining one.
pub proof fn law_reference_connects_the_packs_it_names(
    packs: Seq<Pack>,
    reference: Reference,
    referencing: int,
    defining: int,
    name: Seq<char>,
)
    ensures
        connected_packs(packs, reference) == Ok::<(int, Option<int>), CheckErrorView>(
            (referencing, None),
        ) <==> stands_for(packs, reference.referencing_pack_name@, referencing)
            && reference.defining_pack_name is None,
        connected_packs(packs, reference) == Ok::<(int, Option<int>), CheckErrorView>(
            (referencing, Some(defining)),
        ) <==> stands_for(packs, reference.referencing_pack_name@, referencing) && (
        reference.defining_pack_name matches Some(n) && stands_for(packs, n@, defining)),
        connected_packs(packs, reference) == Err::<(int, Option<int>), CheckErrorView>(
            CheckErrorView::UnknownPack { name },
        ) <==> if is_borne(packs, reference.referencing_pack_name@) {
            reference.defining_pack_name matches Some(n) && n@ == name && !is_borne(packs, name)
        } else {
            name == reference.referencing_pack_name@
        },
        connected_packs(packs, reference) matches Err(error) ==> error is UnknownPack,
{
    lemma_position(packs, reference.referencing_pack_name@);
    if let Some(n) = reference.defining_pack_name {
        lemma_position(packs, n@);
    }
}

/// Between two packs, a reference is an implicit dependency exactly where it is to be checked, the
/// dependency is neither declared nor ignored, the defining file is known, and it is not ignored.
/// Each error has its cause: rules without an answer that is needed, or no defining file.
pub proof fn law_implicit_between_packs(
    referencing: Pack,
    defining: Pack,
    reference: Reference,
    rules: PackRules,
    text: Seq<char>,
)
    ensures
        is_implicit_dependency(referencing, defining, reference, rules) == Ok::<
            bool,
            CheckErrorView,
        >(true) <==> {
            &&& rules.checkable == Ok::<bool, String>(true)
            &&& !lists(referencing.dependencies@, defining.name@)
            &&& !lists(referencing.ignored_dependencies@, defining.name@)
            &&& reference.relative_defining_file is Some
            &&& rules.ignored == Ok::<bool, String>(false)
        },
        is_implicit_dependency(referencing, defining, reference, rules) == Err::<
            bool,
            CheckErrorView,
        >(CheckErrorView::MissingDefiningFile { defining_pack_name: text }) <==> {
            &&& rules.checkable == Ok::<bool, String>(true)
            &&& !lists(referencing.dependencies@, defining.name@)
            &&& !lists(referencing.ignored_dependencies@, defining.name@)
            &&& reference.relative_defining_file is None
            &&& defining.name@ == text
        },
        is_implicit_dependency(referencing, defining, reference, rules) == Err::<
            bool,
            CheckErrorView,
        >(CheckErrorView::Rules { message: text }) <==> {
            ||| rules.checkable matches Err(message) && message@ == text
            ||| {
                &&& rules.checkable == Ok::<bool, String>(true)
                &&& !lists(referencing.dependencies@, defining.name@)
                &&& !lists(referencing.ignored_dependencies@, defining.name@)
                &&& reference.relative_defining_file is Some
                &&& rules.ignored matches Err(message) && message@ == text
            }
        },
        !(is_implicit_dependency(referencing, defining, reference, rules) matches Err(
            CheckErrorView::UnknownPack { .. },
        )),
{
    assert(has_text(referencing.dependencies@, defining.name@) == lists(
        referencing.dependencies@,
        defining.name@,
    ));
    assert(has_text(referencing.ignored_dependencies@, defining.name@) == lists(
        referencing.ignored_dependencies@,
        defining.name@,
    ));
}

/// A reference that is to be checked, to a known file that is not ignored, makes an implicit
/// dependency between the packs that it names, if the referencing pack neither declares nor
/// ignores the defining pack, whatever else it declares or ignores.
pub proof fn law_undeclared_reference_is_implicit(
    packs: Seq<Pack>,
    reference: Reference,
    rules: PackRules,
    referencing: int,
    defining: int,
)
    requires
        stands_for(packs, reference.referencing_pack_name@, referencing),
        reference.defining_pack_name matches Some(name) && stands_for(packs, name@, defining),
        rules.checkable == Ok::<bool, String>(true),
        reference.relative_defining_file is Some,
        rules.ignored == Ok::<bool, String>(false),
        !lists(packs[referencing].dependencies@, packs[defining].name@),
        !lists(packs[referencing].ignored_dependencies@, packs[defining].name@),
    ensures
        implicit_dependency(packs, reference, rules) == Ok::<
            Option<(Seq<char>, Seq<char>)>,
            CheckErrorView,
        >(Some((packs[referencing].name@, packs[defining].name@))),
{
    lemma_position(packs, reference.referencing_pack_name@);
    lemma_position(packs, reference.defining_pack_name->0@);
    law_implicit_between_packs(
        packs[referencing],
        packs[defining],
        reference,
        rules,
        Seq::empty(),
    );
}

/// An implicit dependency is between the packs that the reference names, and only where it is to
/// be checked, neither declared nor ignored by the referencing pack, and made to a known file that
/// is not ignored.
pub proof fn law_implicit_dependency_is_undeclared(
    packs: Seq<Pack>,
    reference: Reference,
    rules: PackRules,
    referencing: Seq<char>,
    defining: Seq<char>,
)
    requires
        implicit_dependency(packs, reference, rules) == Ok::<
            Option<(Seq<char>, Seq<char>)>,
            CheckErrorView,
        >(Some((referencing, defining))),
    ensures
        referencing == reference.referencing_pack_name@,
        reference.defining_pack_name matches Some(name) && defining == name@,
        is_borne(packs, referencing),
        is_borne(packs, defining),
        rules.checkable == Ok::<bool, String>(true),
        reference.relative_defining_file is Some,
        rules.ignored == Ok::<bool, String>(false),
        forall|i: int| #[trigger]
            stands_for(packs, referencing, i) ==> !lists(packs[i].dependencies@, defining)
                && !lists(packs[i].ignored_dependencies@, defining),
{
    lemma_position(packs, reference.referencing_pack_name@);
    if let Some(name) = reference.defining_pack_name {
        lemma_position(packs, name@);
        if let (Some(i), Some(j)) = (
            position(packs, reference.referencing_pack_name@),
            position(packs, name@),
        ) {
            law_implicit_between_packs(packs[i], packs[j], reference, rules, Seq::empty());
        }
    }
}

/// A reference that is not to be checked makes no implicit dependency.
pub proof fn law_unchecked_reference_is_let_pass(
    packs: Seq<Pack>,
    reference: Reference,
    rules: PackRules,
)
    requires
        is_borne(packs, reference.referencing_pack_name@),
        reference.defining_pack_name matches Some(name) ==> is_borne(packs, name@),
        rules.checkable == Ok::<bool, String>(false),
    ensures
        implicit_dependency(packs, reference, rules) == Ok::<
            Option<(Seq<char>, Seq<char>)>,
            CheckErrorView,
        >(None),
{
    lemma_position(packs, reference.referencing_pack_name@);
    if let Some(name) = reference.defining_pack_name {
        lemma_position(packs, name@);
    }
}

/// A reference to a known file that the referencing pack ignores makes no implicit dependency,
/// however strict the rules are.
pub proof fn law_ignored_file_is_let_pass(packs: Seq<Pack>, reference: Reference, rules: PackRules)
    requires
        is_borne(packs, reference.referencing_pack_name@),
        reference.defining_pack_name matches Some(name) && is_borne(packs, name@),
        reference.relative_defining_file is Some,
        rules.checkable is Ok,
        rules.ignored == Ok::<bool, String>(true),
    ensures
        implicit_dependency(packs, reference, rules) == Ok::<
            Option<(Seq<char>, Seq<char>)>,
            CheckErrorView,
        >(None),
{
    lemma_position(packs, reference.referencing_pack_name@);
    lemma_position(packs, reference.defining_pack_name->0@);
}

/// Each error has its cause, and no other: a name that no pack bears, the referencing name first;
/// rules that gave no answer where one was needed; or a defining file that is not known where the
/// dependency is neither declared nor ignored.
pub proof fn law_each_error_has_its_cause(
    packs: Seq<Pack>,
    reference: Reference,
    rules: PackRules,
    text: Seq<char>,
)
    requires
        has_pack_to_check(reference, rules),
    ensures
        implicit_dependency(packs, reference, rules) == Err::<
            Option<(Seq<char>, Seq<char>)>,
            CheckErrorView,
        >(CheckErrorView::UnknownPack { name: text }) <==> if is_borne(
            packs,
            reference.referencing_pack_name@,
        ) {
            reference.defining_pack_name matches Some(n) && n@ == text && !is_borne(packs, text)
        } else {
            text == reference.referencing_pack_name@
        },
        implicit_dependency(packs, reference, rules) == Err::<
            Option<(Seq<char>, Seq<char>)>,
            CheckErrorView,
        >(CheckErrorView::MissingDefiningFile { defining_pack_name: text }) <==> {
            &&& reference.relative_defining_file is None
            &&& rules.checkable == Ok::<bool, String>(true)
            &&& reference.defining_pack_name matches Some(n) && n@ == text && is_borne(packs, text)
            &&& exists|i: int| #[trigger]
                stands_for(packs, reference.referencing_pack_name@, i) && !lists(
                    packs[i].dependencies@,
                    text,
                ) && !lists(packs[i].ignored_dependencies@, text)
        },
        implicit_dependency(packs, reference, rules) == Err::<
            Option<(Seq<char>, Seq<char>)>,
            CheckErrorView,
        >(CheckErrorView::Rules { message: text }) <==> {
            &&& is_borne(packs, reference.referencing_pack_name@)
            &&& reference.defining_pack_name matches Some(n) ==> is_borne(packs, n@)
            &&& {
                ||| rules.checkable matches Err(message) && message@ == text
                ||| {
                    &&& rules.checkable == Ok::<bool, String>(true)
                    &&& reference.relative_defining_file is Some
                    &&& rules.ignored matches Err(message) && message@ == text
                    &&& exists|i: int| #[trigger]
                        stands_for(packs, reference.referencing_pack_name@, i) && (
                        reference.defining_pack_name matches Some(n) && !lists(
                            packs[i].dependencies@,
                            n@,
                        ) && !lists(packs[i].ignored_dependencies@, n@))
                }
            }
        },
{
    lemma_position(packs, reference.referencing_pack_name@);
    if let Some(i) = position(packs, reference.referencing_pack_name@) {
        assert(stands_for(packs, reference.referencing_pack_name@, i));
        assert forall|k: int| #[trigger]
            stands_for(packs, reference.referencing_pack_name@, k) implies k == i by {
            if k < i {
                assert(packs[k].name@ == reference.referencing_pack_name@);
            } else if i < k {
                assert(packs[i].name@ == reference.referencing_pack_name@);
            }
        }
        if let Some(name) = reference.defining_pack_name {
            lemma_position(packs, name@);
            if let Some(j) = position(packs, name@) {
                law_implicit_between_packs(packs[i], packs[j], reference, rules, text);
            }
        }
    }
}

/// There is a pack to check against unless the rules want a reference checked that has no defining
/// pack.
pub proof fn law_only_a_checked_reference_needs_a_defining_pack(
    reference: Reference,
    rules: PackRules,
)
    ensures
        has_pack_to_check(reference, rules) <==> !(rules.checkable == Ok::<bool, String>(true)
            && reference.defining_pack_name is None),
{
}

} // verus!
