//! Cycle violations: an *implicit* dependency, one that no pack declares, that would close a
//! dependency cycle if it were declared.

use crate::dependency::{graph_of, GraphView, OwnedDependencyGraph};
use crate::pack::{all_known, declared, fits, Configuration, Pack, Reference};
use crate::pack_checker::{
    connected_packs, has_pack_to_check, implicit_dependency, location, print_reference_location,
    CheckError, CheckErrorView, PackChecker, PackRules, Violation, ViolationIdentifierView,
    ViolationView,
};
use crate::pack_laws::law_implicit_dependency_is_undeclared;
use crate::paths::{depends_on, is_shortest_path};
use crate::report_laws::{comes_back, lemma_shown_cycle_comes_back};
use crate::text::{join, joined, texts};
use vstd::prelude::*;

verus! {

/// Reports the implicit dependencies that would close a cycle.
pub struct Checker {
    /// The graph, built when it is first needed and kept from then on. The inner `None` stands
    /// for a graph that could not be built, as where a pack declares an unknown pack: there are
    /// then no cycles to report, so that one mistake in the packs does not stop every check.
    graph: Option<Option<OwnedDependencyGraph>>,
}

/// What a kept graph holds.
pub open spec fn kept_view(graph: Option<Option<OwnedDependencyGraph>>) -> Option<
    Option<GraphView>,
> {
    match graph {
        None => None,
        Some(None) => Some(None),
        Some(Some(graph)) => Some(Some(graph@)),
    }
}

impl View for Checker {
    type V = Option<Option<GraphView>>;

    /// What the kept graph holds.
    closed spec fn view(&self) -> Option<Option<GraphView>> {
        kept_view(self.graph)
    }
}

/// The graph of `packs`, where it can be built.
pub open spec fn buildable(packs: Seq<Pack>) -> Option<GraphView> {
    if all_known(packs) {
        Some(graph_of(packs))
    } else {
        None
    }
}

/// The graph that a check goes by: the one that was kept, else that of `packs`.
pub open spec fn consulted(kept: Option<Option<GraphView>>, packs: Seq<Pack>) -> Option<
    GraphView,
> {
    match kept {
        Some(graph) => graph,
        None => buildable(packs),
    }
}

/// The cycle that an implicit dependency would close: from the referencing pack over the implicit
/// dependency, then back along the declared path.
pub open spec fn cycle_path(referencing: Seq<char>, declared_path: Seq<Seq<char>>) -> Seq<
    Seq<char>,
> {
    seq![referencing] + declared_path
}

/// The cycle as it is shown.
pub open spec fn cycle_detail(referencing: Seq<char>, declared_path: Seq<Seq<char>>) -> Seq<char> {
    joined(cycle_path(referencing, declared_path), " -> "@)
}

/// The message of a cycle violation.
pub open spec fn cycle_message(
    reference: Reference,
    referencing: Seq<char>,
    defining: Seq<char>,
    detail: Seq<char>,
) -> Seq<char> {
    location(reference) + "Cycle violation: adding `"@ + defining + "` as a dependency of `"@
        + referencing + "` would close a cycle: "@ + detail
}

/// The report that the implicit dependency of `referencing` on `defining` would close a cycle with
/// `declared_path`.
pub open spec fn cycle_report(
    reference: Reference,
    rules: PackRules,
    referencing: Seq<char>,
    defining: Seq<char>,
    declared_path: Seq<Seq<char>>,
) -> ViolationView {
    let detail = cycle_detail(referencing, declared_path);
    ViolationView {
        message: cycle_message(reference, referencing, defining, detail),
        identifier: ViolationIdentifierView {
            violation_type: "cycle"@,
            strict: rules.strict,
            file: reference.relative_referencing_file@,
            constant_name: reference.constant_name@,
            referencing_pack_name: referencing,
            defining_pack_name: defining,
            details: Some(detail),
        },
        source_location: reference.source_location,
    }
}

/// The answer on an implicit dependency of `referencing` on `defining`: a cycle is reported
/// exactly where the defining pack already depends on the referencing pack. Without a graph, none
/// is.
pub open spec fn answer(
    graph: Option<GraphView>,
    reference: Reference,
    rules: PackRules,
    referencing: Seq<char>,
    defining: Seq<char>,
) -> Option<ViolationView> {
    match graph {
        None => None,
        Some(graph) => if depends_on(graph.declared(), defining, referencing) {
            Some(
                cycle_report(
                    reference,
                    rules,
                    referencing,
                    defining,
                    graph.route(defining, referencing),
                ),
            )
        } else {
            None
        },
    }
}

/// The result of a check, by the graph that was kept before it.
pub open spec fn outcome(
    kept: Option<Option<GraphView>>,
    packs: Seq<Pack>,
    reference: Reference,
    rules: PackRules,
) -> Result<Option<ViolationView>, CheckErrorView> {
    match implicit_dependency(packs, reference, rules) {
        Err(error) => Err(error),
        Ok(None) => Ok(None),
        Ok(Some((referencing, defining))) => Ok(
            answer(consulted(kept, packs), reference, rules, referencing, defining),
        ),
    }
}

/// The graph that is kept after a check: only a check of an implicit dependency needs it.
pub open spec fn kept_after(
    kept: Option<Option<GraphView>>,
    packs: Seq<Pack>,
    reference: Reference,
    rules: PackRules,
) -> Option<Option<GraphView>> {
    if implicit_dependency(packs, reference, rules) matches Ok(Some(_)) {
        Some(consulted(kept, packs))
    } else {
        kept
    }
}

/// A reported violation with its texts.
pub open spec fn report_view(reported: Option<Violation>) -> Option<ViolationView> {
    match reported {
        Some(violation) => Some(violation@),
        None => None,
    }
}

/// The result of a check with its texts.
pub open spec fn result_view(result: Result<Option<Violation>, CheckError>) -> Result<
    Option<ViolationView>,
    CheckErrorView,
> {
    match result {
        Ok(reported) => Ok(report_view(reported)),
        Err(error) => Err(error@),
    }
}

/// Describes the cycle that the implicit dependency on `defining_pack` would close with
/// `declared_path`.
pub fn cycle_violation(
    pack_checker: &PackChecker,
    defining_pack: &Pack,
    declared_path: Vec<String>,
) -> (violation: Violation)
    requires
        pack_checker.violation_type@ == "cycle"@,
    ensures
        violation@ == cycle_report(
            *pack_checker.reference,
            *pack_checker.rules,
            pack_checker.referencing_pack.name@,
            defining_pack.name@,
            texts(declared_path@),
        ),
{
    let ghost declared_names = texts(declared_path@);
    let referencing_pack = pack_checker.referencing_pack;
    let mut cycle: Vec<String> = vec![referencing_pack.name.clone()];
    let mut declared_path = declared_path;
    cycle.append(&mut declared_path);
    assert(texts(cycle@) =~= cycle_path(referencing_pack.name@, declared_names));
    let detail = join(&cycle, " -> ");

    let mut message = print_reference_location(pack_checker.reference);
    message.append("Cycle violation: adding `");
    message.append(defining_pack.name.as_str());
    message.append("` as a dependency of `");
    message.append(referencing_pack.name.as_str());
    message.append("` would close a cycle: ");
    message.append(detail.as_str());

    Violation {
        message,
        identifier: pack_checker.violation_identifier_with_details(defining_pack, Some(detail)),
        source_location: pack_checker.reference.source_location,
    }
}

/// Looks for the cycle that the implicit dependency on `defining_pack` would close in `graph`. It
/// is shown along a shortest path.
pub fn find_cycle(
    graph: &OwnedDependencyGraph,
    pack_checker: &PackChecker,
    defining_pack: &Pack,
) -> (reported: Option<Violation>)
    requires
        pack_checker.violation_type@ == "cycle"@,
    ensures
        report_view(reported) == answer(
            Some(graph@),
            *pack_checker.reference,
            *pack_checker.rules,
            pack_checker.referencing_pack.name@,
            defining_pack.name@,
        ),
        reported is Some ==> is_shortest_path(
            graph@.declared(),
            graph@.route(defining_pack.name@, pack_checker.referencing_pack.name@),
            defining_pack.name@,
            pack_checker.referencing_pack.name@,
        ),
{
    let referencing_pack = pack_checker.referencing_pack;
    match graph.shortest_path(defining_pack.name.as_str(), referencing_pack.name.as_str()) {
        Some(path) => Some(cycle_violation(pack_checker, defining_pack, path)),
        None => None,
    }
}

impl Checker {
    /// A checker that has not needed the graph yet.
    pub fn new() -> (checker: Self)
        ensures
            checker@ is None,
    {
        Checker { graph: None }
    }

    /// The kind of violation that is reported.
    pub fn violation_type(&self) -> (kind: String)
        ensures
            kind@ == "cycle"@,
    {
        "cycle".to_owned()
    }

    /// The graph, if it was needed: the inner `None` says that it could not be built.
    pub fn kept_graph(&self) -> (kept: &Option<Option<OwnedDependencyGraph>>)
        ensures
            self@ == kept_view(*kept),
    {
        &self.graph
    }

    /// Reports the cycle that the reference would close, if it makes an implicit dependency and
    /// the defining pack already depends on the referencing pack. The cycle is shown along a
    /// shortest path. Where the graph is needed for the first time, it is built of what the packs
    /// of `configuration` declare.
    pub fn check(
        &mut self,
        reference: &Reference,
        configuration: &Configuration,
        rules: &PackRules,
    ) -> (result: Result<Option<Violation>, CheckError>)
        requires
            connected_packs(configuration.packs@, *reference) is Ok ==> has_pack_to_check(
                *reference,
                *rules,
            ),
            old(self)@ is None && (implicit_dependency(
                configuration.packs@,
                *reference,
                *rules,
            ) matches Ok(Some(_))) ==> fits(configuration.packs@),
        ensures
            result_view(result) == outcome(old(self)@, configuration.packs@, *reference, *rules),
            final(self)@ == kept_after(old(self)@, configuration.packs@, *reference, *rules),
            old(self)@ is None ==> (final(self)@ matches Some(Some(graph)) ==> graph.declared()
                == declared(configuration.packs@)),
            result matches Ok(Some(_)) ==> (implicit_dependency(
                configuration.packs@,
                *reference,
                *rules,
            ) matches Ok(Some((referencing, defining))) && final(self)@ matches Some(Some(graph))
                && is_shortest_path(
                graph.declared(),
                graph.route(defining, referencing),
                defining,
                referencing,
            )),
            result matches Ok(Some(violation)) ==> {
                &&& violation.source_location == reference.source_location
                &&& violation.identifier.violation_type@ == "cycle"@
                &&& violation.identifier.strict == rules.strict
                &&& violation.identifier.file@ == reference.relative_referencing_file@
                &&& violation.identifier.constant_name@ == reference.constant_name@
                &&& violation.identifier.referencing_pack_name@ == reference.referencing_pack_name@
                &&& reference.defining_pack_name matches Some(name)
                    && violation.identifier.defining_pack_name@ == name@
            },
            result matches Ok(Some(violation)) ==> (final(self)@ matches Some(Some(graph))
                && violation.identifier.details matches Some(details) && (
            reference.defining_pack_name matches Some(name) && exists|cycle: Seq<Seq<char>>| #[trigger]
                comes_back(
                    graph.declared(),
                    cycle,
                    reference.referencing_pack_name@,
                    name@,
                ) && details@ == joined(cycle, " -> "@))),
    {
        let pack_checker = match PackChecker::new(
            configuration,
            reference,
            self.violation_type(),
            rules,
        ) {
            Ok(pack_checker) => pack_checker,
            Err(error) => {
                return Err(error);
            },
        };
        let defining_pack = match pack_checker.implicit_dependency() {
            Ok(Some(pack)) => pack,
            Ok(None) => {
                return Ok(None);
            },
            Err(error) => {
                return Err(error);
            },
        };
        if self.graph.is_none() {
            self.graph = Some(OwnedDependencyGraph::build(configuration));
        }
        let graph = match &self.graph {
            Some(Some(graph)) => graph,
            _ => {
                return Ok(None);
            },
        };
        let reported = find_cycle(graph, &pack_checker, defining_pack);
        proof {
            let referencing = pack_checker.referencing_pack.name@;
            let defining = defining_pack.name@;
            law_implicit_dependency_is_undeclared(
                configuration.packs@,
                *reference,
                *rules,
                referencing,
                defining,
            );
            if reported is Some {
                lemma_shown_cycle_comes_back(
                    graph@.declared(),
                    graph@.route(defining, referencing),
                    *reference,
                    *rules,
                    referencing,
                    defining,
                );
            }
        }
        Ok(reported)
    }
}

impl Default for Checker {
    fn default() -> (checker: Self)
        ensures
            checker@ is None,
    {
        Checker::new()
    }
}

} // verus!
