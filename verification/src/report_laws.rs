//! What holds of the result of a check, and of what is kept after it.

use crate::cycle::{
    answer, buildable, consulted, cycle_report, kept_after, kept_view, outcome, report_view,
    result_view,
};
use crate::dependency::{graph_of, lemma_graph_of, GraphView, OwnedDependencyGraph};
use crate::laws::{
    law_shortest_path_is_declared_and_shortest, law_shortest_path_visits_each_pack_once,
};
use crate::pack::{all_known, declared, fits, Pack, Reference};
use crate::pack_checker::{
    implicit_dependency, location, CheckError, CheckErrorView, PackRules, Violation,
    ViolationIdentifier, ViolationView,
};
use crate::pack_laws::{
    is_borne, law_all_known_where_each_dependency_is_a_pack, law_ignored_file_is_let_pass,
    law_implicit_dependency_is_undeclared,
};
use crate::paths::{depends_on, is_shortest_path, Declared};
use crate::text::{decimal, joined};
use crate::text_laws::{is_numeral, law_decimal_reads_back, law_join_keeps_every_part};
use vstd::prelude::*;

verus! {

/// Whether `place` is the file of the reference, the number of its line and the number of its
/// column, with colons in between and a line break at the end.
pub open spec fn is_place(place: Seq<char>, reference: Reference) -> bool {
    exists|line: Seq<char>, column: Seq<char>|
        is_numeral(line, reference.source_location.line as int) && is_numeral(
            column,
            reference.source_location.column as int,
        ) && place == reference.relative_referencing_file@ + seq![':'] + #[trigger] (line + seq![
            ':',
        ] + column) + seq!['\n']
}

/// Whether `cycle` leaves `referencing` for `defining` and comes back to it by declared hops.
pub open spec fn comes_back(
    dependencies: Declared,
    cycle: Seq<Seq<char>>,
    referencing: Seq<char>,
    defining: Seq<char>,
) -> bool {
    &&& cycle.len() > 1
    &&& cycle[0] == referencing
    &&& cycle[1] == defining
    &&& cycle[cycle.len() - 1] == referencing
    &&& forall|i: int| 0 < i < cycle.len() ==> dependencies.contains_key(#[trigger] cycle[i])
    &&& forall|i: int, j: int|
        0 < i && j == i + 1 && j < cycle.len() ==> dependencies[#[trigger] cycle[i]].contains(
            #[trigger] cycle[j],
        )
}

/// The place of a reference is its file, line and column.
pub proof fn law_location_gives_file_line_and_column(reference: Reference)
    ensures
        is_place(location(reference), reference),
{
    reveal_strlit(":");
    reveal_strlit("\n");
    let line = decimal(reference.source_location.line as nat);
    let column = decimal(reference.source_location.column as nat);
    law_decimal_reads_back(reference.source_location.line as nat);
    law_decimal_reads_back(reference.source_location.column as nat);
    assert(":"@ =~= seq![':']);
    assert("\n"@ =~= seq!['\n']);
    assert(location(reference) =~= reference.relative_referencing_file@ + seq![':'] + (line + seq![
        ':',
    ] + column) + seq!['\n']);
}

/// Every error says in words what it is about.
pub proof fn law_error_words_name_the_cause(text: Seq<char>)
    ensures
        (CheckErrorView::MissingDefiningFile { defining_pack_name: text }).words()
            == "expected a relative defining file for defining pack: "@ + text,
        (CheckErrorView::UnknownPack { name: text }).words() == "no pack is named: "@ + text,
        (CheckErrorView::Rules { message: text }).words() == text,
{
}

/// What is said of a violation, an error or a result by its texts is said of each of its fields.
pub proof fn law_views_show_every_field(
    identifier: ViolationIdentifier,
    violation: Violation,
    text: String,
)
    ensures
        identifier@.violation_type == identifier.violation_type@,
        identifier@.strict == identifier.strict,
        identifier@.file == identifier.file@,
        identifier@.constant_name == identifier.constant_name@,
        identifier@.referencing_pack_name == identifier.referencing_pack_name@,
        identifier@.defining_pack_name == identifier.defining_pack_name@,
        identifier.details is None <==> identifier@.details is None,
        identifier.details matches Some(details) ==> identifier@.details == Some(details@),
        violation@.message == violation.message@,
        violation@.identifier == violation.identifier@,
        violation@.source_location == violation.source_location,
        (CheckError::UnknownPack { name: text })@ == (CheckErrorView::UnknownPack { name: text@ }),
        (CheckError::Rules { message: text })@ == (CheckErrorView::Rules { message: text@ }),
        (CheckError::MissingDefiningFile { defining_pack_name: text })@ == (
        CheckErrorView::MissingDefiningFile { defining_pack_name: text@ }),
        report_view(None) is None,
        report_view(Some(violation)) == Some(violation@),
{
}

/// A result shows by its texts as what it is, and so does what is kept.
pub proof fn law_results_show_as_they_are(
    reported: Option<Violation>,
    error: CheckError,
    graph: OwnedDependencyGraph,
)
    ensures
        result_view(Ok(reported)) == Ok::<Option<ViolationView>, CheckErrorView>(
            report_view(reported),
        ),
        result_view(Err(error)) == Err::<Option<ViolationView>, CheckErrorView>(error@),
        kept_view(None) is None,
        kept_view(Some(None)) == Some(None::<GraphView>),
        kept_view(Some(Some(graph))) == Some(Some(graph@)),
{
}

/// A report has the place, the identity and the strictness of the reference. Its details are the
/// referencing pack and then the declared path, all of it, with arrows in between. Its message
/// says the place, both packs in their roles, and the details.
pub proof fn law_report_tells_all_of_the_path(
    reference: Reference,
    rules: PackRules,
    referencing: Seq<char>,
    defining: Seq<char>,
    declared_path: Seq<Seq<char>>,
)
    ensures
        ({
            let report = cycle_report(reference, rules, referencing, defining, declared_path);
            &&& report.source_location == reference.source_location
            &&& report.identifier.violation_type == "cycle"@
            &&& report.identifier.strict == rules.strict
            &&& report.identifier.file == reference.relative_referencing_file@
            &&& report.identifier.constant_name == reference.constant_name@
            &&& report.identifier.referencing_pack_name == referencing
            &&& report.identifier.defining_pack_name == defining
            &&& report.identifier.details matches Some(details) && {
                &&& declared_path.len() == 0 ==> details == referencing
                &&& declared_path.len() > 0 ==> details == referencing + " -> "@ + joined(
                    declared_path,
                    " -> "@,
                )
                &&& exists|place: Seq<char>| #[trigger]
                    is_place(place, reference) && report.message == place
                        + "Cycle violation: adding `"@ + defining + "` as a dependency of `"@
                        + referencing + "` would close a cycle: "@ + details
            }
        }),
{
    law_join_keeps_every_part(referencing, seq![referencing], declared_path, " -> "@);
    if declared_path.len() == 0 {
        assert(seq![referencing] + declared_path =~= seq![referencing]);
    }
    law_location_gives_file_line_and_column(reference);
    assert(is_place(location(reference), reference));
}

/// A graph answers with a report exactly where it leads from the defining pack to the referencing
/// pack, and then with the path that is found in it. No graph answers with none.
pub proof fn law_answer_reports_where_the_graph_leads_back(
    graph: GraphView,
    reference: Reference,
    rules: PackRules,
    referencing: Seq<char>,
    defining: Seq<char>,
)
    ensures
        answer(None, reference, rules, referencing, defining) is None,
        answer(Some(graph), reference, rules, referencing, defining) is Some <==> depends_on(
            graph.declared(),
            defining,
            referencing,
        ),
        answer(Some(graph), reference, rules, referencing, defining) matches Some(report)
            ==> report == cycle_report(
            reference,
            rules,
            referencing,
            defining,
            graph.route(defining, referencing),
        ),
{
}

/// A reported violation is recorded under the reference: its packs in their roles, its file, its
/// constant and its line and column, with the strictness of the rules, whatever graph was kept.
pub proof fn law_violation_is_recorded_under_the_reference(
    kept: Option<Option<GraphView>>,
    packs: Seq<Pack>,
    reference: Reference,
    rules: PackRules,
    violation: ViolationView,
)
    requires
        outcome(kept, packs, reference, rules) == Ok::<Option<ViolationView>, CheckErrorView>(
            Some(violation),
        ),
    ensures
        violation.source_location == reference.source_location,
        violation.identifier.violation_type == "cycle"@,
        violation.identifier.referencing_pack_name == reference.referencing_pack_name@,
        reference.defining_pack_name matches Some(name)
            && violation.identifier.defining_pack_name == name@,
        violation.identifier.file == reference.relative_referencing_file@,
        violation.identifier.constant_name == reference.constant_name@,
        violation.identifier.strict == rules.strict,
{
    let (referencing, defining) = implicit_dependency(packs, reference, rules)->Ok_0->0;
    law_implicit_dependency_is_undeclared(packs, reference, rules, referencing, defining);
}

/// The message of a reported violation says where the reference is, which dependency of which pack
/// it would add, and the cycle of the details.
pub proof fn law_message_says_place_packs_and_cycle(
    kept: Option<Option<GraphView>>,
    packs: Seq<Pack>,
    reference: Reference,
    rules: PackRules,
    violation: ViolationView,
)
    requires
        outcome(kept, packs, reference, rules) == Ok::<Option<ViolationView>, CheckErrorView>(
            Some(violation),
        ),
    ensures
        reference.defining_pack_name matches Some(defining) && (
        violation.identifier.details matches Some(details) && exists|place: Seq<char>| #[trigger]
            is_place(place, reference) && violation.message == place
                + "Cycle violation: adding `"@ + defining@ + "` as a dependency of `"@
                + reference.referencing_pack_name@ + "` would close a cycle: "@ + details),
{
    let (referencing, defining) = implicit_dependency(packs, reference, rules)->Ok_0->0;
    law_implicit_dependency_is_undeclared(packs, reference, rules, referencing, defining);
    let graph = consulted(kept, packs)->0;
    law_report_tells_all_of_the_path(
        reference,
        rules,
        referencing,
        defining,
        graph.route(defining, referencing),
    );
}

/// The details of a reported violation are the names of a cycle, all of them in order, with arrows
/// in between: the referencing pack, the defining pack, and on by declared hops back to the
/// referencing pack. It passes through no pack twice on the way, and no shorter way comes back.
/// This is so wherever the path that the graph gives is a shortest one, as a check ensures.
pub proof fn law_details_show_the_whole_shortest_cycle(
    kept: Option<Option<GraphView>>,
    packs: Seq<Pack>,
    reference: Reference,
    rules: PackRules,
    violation: ViolationView,
    graph: GraphView,
    referencing: Seq<char>,
    defining: Seq<char>,
)
    requires
        outcome(kept, packs, reference, rules) == Ok::<Option<ViolationView>, CheckErrorView>(
            Some(violation),
        ),
        kept_after(kept, packs, reference, rules) == Some(Some(graph)),
        referencing == reference.referencing_pack_name@,
        reference.defining_pack_name matches Some(name) && defining == name@,
        is_shortest_path(
            graph.declared(),
            graph.route(defining, referencing),
            defining,
            referencing,
        ),
    ensures
        exists|cycle: Seq<Seq<char>>| #[trigger]
            comes_back(graph.declared(), cycle, referencing, defining)
                && violation.identifier.details == Some(joined(cycle, " -> "@))
                && cycle.skip(1).no_duplicates() && (forall|other: Seq<Seq<char>>| #[trigger]
                comes_back(graph.declared(), other, referencing, defining) ==> cycle.len()
                    <= other.len()),
{
    let (r, d) = implicit_dependency(packs, reference, rules)->Ok_0->0;
    law_implicit_dependency_is_undeclared(packs, reference, rules, r, d);
    let path = graph.route(defining, referencing);
    lemma_shown_cycle_comes_back(
        graph.declared(),
        path,
        reference,
        rules,
        referencing,
        defining,
    );
}

/// The cycle that a report shows of a shortest path comes back, and no other is shorter.
pub(crate) proof fn lemma_shown_cycle_comes_back(
    dependencies: Declared,
    path: Seq<Seq<char>>,
    reference: Reference,
    rules: PackRules,
    referencing: Seq<char>,
    defining: Seq<char>,
)
    requires
        is_shortest_path(dependencies, path, defining, referencing),
    ensures
        exists|cycle: Seq<Seq<char>>| #[trigger]
            comes_back(dependencies, cycle, referencing, defining) && cycle_report(
                reference,
                rules,
                referencing,
                defining,
                path,
            ).identifier.details == Some(joined(cycle, " -> "@)) && cycle.skip(1).no_duplicates()
                && (forall|other: Seq<Seq<char>>| #[trigger]
                comes_back(dependencies, other, referencing, defining) ==> cycle.len()
                    <= other.len()),
{
    let cycle = seq![referencing] + path;
    law_shortest_path_is_declared_and_shortest(dependencies, path, path, defining, referencing);
    law_shortest_path_visits_each_pack_once(dependencies, path, defining, referencing);
    law_report_tells_all_of_the_path(reference, rules, referencing, defining, path);
    law_join_keeps_every_part(referencing, seq![referencing], path, " -> "@);
    assert(cycle.skip(1) =~= path);
    assert forall|i: int| 0 < i < cycle.len() implies dependencies.contains_key(
        #[trigger] cycle[i],
    ) by {
        assert(cycle[i] == path[i - 1]);
    }
    assert forall|i: int, j: int| 0 < i && j == i + 1 && j < cycle.len() implies dependencies[
    #[trigger] cycle[i]].contains(#[trigger] cycle[j]) by {
        assert(cycle[i] == path[i - 1]);
        assert(cycle[j] == path[j - 1]);
    }
    assert(comes_back(dependencies, cycle, referencing, defining));
    assert forall|other: Seq<Seq<char>>| #[trigger]
        comes_back(dependencies, other, referencing, defining) implies cycle.len()
        <= other.len() by {
        let rest = other.skip(1);
        assert forall|i: int| 0 <= i < rest.len() implies dependencies.contains_key(
            #[trigger] rest[i],
        ) by {
            assert(rest[i] == other[i + 1]);
        }
        assert forall|i: int, j: int| 0 <= i && j == i + 1 && j < rest.len() implies dependencies[
        #[trigger] rest[i]].contains(#[trigger] rest[j]) by {
            assert(rest[i] == other[i + 1]);
            assert(rest[j] == other[j + 1]);
        }
        law_shortest_path_is_declared_and_shortest(
            dependencies,
            path,
            rest,
            defining,
            referencing,
        );
    }
}

/// What is kept decides: a check of an implicit dependency reports exactly where the kept graph
/// leads from the defining pack back to the referencing pack, and never where no graph could be
/// built.
pub proof fn law_kept_graph_decides(
    graph: GraphView,
    packs: Seq<Pack>,
    reference: Reference,
    rules: PackRules,
    referencing: Seq<char>,
    defining: Seq<char>,
)
    requires
        implicit_dependency(packs, reference, rules) == Ok::<
            Option<(Seq<char>, Seq<char>)>,
            CheckErrorView,
        >(Some((referencing, defining))),
    ensures
        outcome(Some(None), packs, reference, rules) == Ok::<
            Option<ViolationView>,
            CheckErrorView,
        >(None),
        outcome(Some(Some(graph)), packs, reference, rules) is Ok,
        (outcome(Some(Some(graph)), packs, reference, rules) matches Ok(Some(_))) <==> depends_on(
            graph.declared(),
            defining,
            referencing,
        ),
{
}

/// A first check of packs of which one declares an unknown pack reports nothing and fails no more
/// than any other: the error, if there is one, is that of the reference and its rules.
pub proof fn law_unknown_dependency_disables_reports(
    packs: Seq<Pack>,
    reference: Reference,
    rules: PackRules,
    i: int,
    d: int,
)
    requires
        0 <= i < packs.len(),
        0 <= d < packs[i].dependencies@.len(),
        !is_borne(packs, packs[i].dependencies@[d]@),
    ensures
        buildable(packs) is None,
        match implicit_dependency(packs, reference, rules) {
            Ok(_) => outcome(None, packs, reference, rules) == Ok::<
                Option<ViolationView>,
                CheckErrorView,
            >(None),
            Err(error) => outcome(None, packs, reference, rules) == Err::<
                Option<ViolationView>,
                CheckErrorView,
            >(error),
        },
{
    law_all_known_where_each_dependency_is_a_pack(packs);
}

/// A graph can be built exactly where each dependency is borne by a pack, and then it declares
/// what the packs declare.
pub proof fn law_graph_is_built_where_each_dependency_is_a_pack(packs: Seq<Pack>)
    requires
        fits(packs),
    ensures
        buildable(packs) is Some <==> forall|i: int, d: int|
            #![trigger packs[i].dependencies@[d]]
            0 <= i < packs.len() && 0 <= d < packs[i].dependencies@.len() ==> is_borne(
                packs,
                packs[i].dependencies@[d]@,
            ),
        buildable(packs) matches Some(graph) ==> graph == graph_of(packs) && graph.declared()
            == declared(packs),
{
    law_all_known_where_each_dependency_is_a_pack(packs);
    if all_known(packs) {
        lemma_graph_of(packs);
    }
}

/// A check that makes no implicit dependency says so, or gives its error, whatever was kept, and
/// changes nothing. One that does keeps the graph of its packs if none was kept, and leaves alone
/// what was.
pub proof fn law_graph_is_built_by_the_first_check_that_needs_it(
    kept: Option<Option<GraphView>>,
    packs: Seq<Pack>,
    reference: Reference,
    rules: PackRules,
)
    ensures
        kept is Some ==> kept_after(kept, packs, reference, rules) == kept,
        match implicit_dependency(packs, reference, rules) {
            Err(error) => {
                &&& outcome(kept, packs, reference, rules) == Err::<
                    Option<ViolationView>,
                    CheckErrorView,
                >(error)
                &&& kept_after(kept, packs, reference, rules) == kept
            },
            Ok(None) => {
                &&& outcome(kept, packs, reference, rules) == Ok::<
                    Option<ViolationView>,
                    CheckErrorView,
                >(None)
                &&& kept_after(kept, packs, reference, rules) == kept
            },
            Ok(Some(_)) => {
                &&& outcome(kept, packs, reference, rules) is Ok
                &&& kept is None ==> kept_after(kept, packs, reference, rules) == Some(
                    buildable(packs),
                )
                &&& outcome(kept, packs, reference, rules) == outcome(
                    kept_after(kept, packs, reference, rules),
                    packs,
                    reference,
                    rules,
                )
            },
        },
{
}

/// Once a graph is kept, the packs settle only whether a reference is an implicit dependency, and
/// of which packs: where they settle it alike, the results are alike.
pub proof fn law_later_packs_settle_only_the_dependency(
    graph: Option<GraphView>,
    packs: Seq<Pack>,
    other_packs: Seq<Pack>,
    reference: Reference,
    rules: PackRules,
)
    requires
        implicit_dependency(packs, reference, rules) == implicit_dependency(
            other_packs,
            reference,
            rules,
        ),
    ensures
        outcome(Some(graph), packs, reference, rules) == outcome(
            Some(graph),
            other_packs,
            reference,
            rules,
        ),
{
}

/// A reference to a file that the referencing pack ignores is never reported, however strict the
/// rules are and whatever graph was kept.
pub proof fn law_ignored_file_is_never_reported(
    kept: Option<Option<GraphView>>,
    packs: Seq<Pack>,
    reference: Reference,
    rules: PackRules,
)
    requires
        is_borne(packs, reference.referencing_pack_name@),
        reference.defining_pack_name matches Some(name) && is_borne(packs, name@),
        reference.relative_defining_file is Some,
        rules.checkable is Ok,
        rules.ignored == Ok::<bool, String>(true),
    ensures
        outcome(kept, packs, reference, rules) == Ok::<Option<ViolationView>, CheckErrorView>(None),
        kept_after(kept, packs, reference, rules) == kept,
{
    law_ignored_file_is_let_pass(packs, reference, rules);
}

/// Strictness marks the report and does nothing else: under rules that differ in it alone, the
/// same references fail or are reported, with the same text, and the same graph is kept.
pub proof fn law_strictness_only_marks_the_report(
    kept: Option<Option<GraphView>>,
    packs: Seq<Pack>,
    reference: Reference,
    rules: PackRules,
    other_rules: PackRules,
)
    requires
        rules.checkable == other_rules.checkable,
        rules.ignored == other_rules.ignored,
    ensures
        implicit_dependency(packs, reference, rules) == implicit_dependency(
            packs,
            reference,
            other_rules,
        ),
        kept_after(kept, packs, reference, rules) == kept_after(
            kept,
            packs,
            reference,
            other_rules,
        ),
        match (
            outcome(kept, packs, reference, rules),
            outcome(kept, packs, reference, other_rules),
        ) {
            (Err(a), Err(b)) => a == b,
            (Ok(None), Ok(None)) => true,
            (Ok(Some(a)), Ok(Some(b))) => {
                &&& a.message == b.message
                &&& a.source_location == b.source_location
                &&& a.identifier.violation_type == b.identifier.violation_type
                &&& a.identifier.file == b.identifier.file
                &&& a.identifier.constant_name == b.identifier.constant_name
                &&& a.identifier.referencing_pack_name == b.identifier.referencing_pack_name
                &&& a.identifier.defining_pack_name == b.identifier.defining_pack_name
                &&& a.identifier.details == b.identifier.details
            },
            _ => false,
        },
{
}

} // verus!
