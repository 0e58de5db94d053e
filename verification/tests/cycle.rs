use cycle_checker::cycle::{cycle_violation, find_cycle, Checker};
use cycle_checker::dependency::OwnedDependencyGraph;
use cycle_checker::pack::{Configuration, Pack, Reference, SourceLocation};
use cycle_checker::pack_checker::{
    CheckError, PackChecker, PackRules, Violation, ViolationIdentifier,
};

fn pack(name: &str, dependencies: &[&str]) -> Pack {
    Pack {
        name: name.to_owned(),
        dependencies: dependencies.iter().map(|d| d.to_string()).collect(),
        ignored_dependencies: vec![],
    }
}

fn configuration(packs: Vec<Pack>) -> Configuration {
    Configuration { packs }
}

/// A mention of `::Bar` of `packs/bar` in `packs/foo`.
fn foo_refers_to_bar() -> Reference {
    Reference {
        constant_name: "::Bar".to_owned(),
        referencing_pack_name: "packs/foo".to_owned(),
        relative_referencing_file: "packs/foo/app/services/foo.rb".to_owned(),
        source_location: SourceLocation { line: 3, column: 1 },
        defining_pack_name: Some("packs/bar".to_owned()),
        relative_defining_file: Some("packs/bar/app/services/bar.rb".to_owned()),
    }
}

fn checked() -> PackRules {
    PackRules {
        checkable: Ok(true),
        ignored: Ok(false),
        strict: false,
    }
}

fn expected_violation(message: &str, details: &str) -> Violation {
    Violation {
        message: message.to_owned(),
        identifier: ViolationIdentifier {
            violation_type: "cycle".to_owned(),
            strict: false,
            file: "packs/foo/app/services/foo.rb".to_owned(),
            constant_name: "::Bar".to_owned(),
            referencing_pack_name: "packs/foo".to_owned(),
            defining_pack_name: "packs/bar".to_owned(),
            details: Some(details.to_owned()),
        },
        source_location: SourceLocation { line: 3, column: 1 },
    }
}

fn mutual() -> Configuration {
    configuration(vec![
        pack(".", &[]),
        pack("packs/foo", &[]),
        pack("packs/bar", &["packs/foo"]),
    ])
}

/// Three packs in a closed cycle: foo declares bar, bar declares baz, baz declares foo.
fn cycle_configuration() -> Configuration {
    configuration(vec![
        pack(".", &[]),
        pack("packs/foo", &["packs/bar"]),
        pack("packs/bar", &["packs/baz"]),
        pack("packs/baz", &["packs/foo"]),
    ])
}

#[test]
fn direct_mutual_dep_emits_cycle() {
    // packs/bar declares packs/foo. packs/foo refers to packs/bar without declaring it: declaring
    // it closes the cycle foo -> bar -> foo.
    let result = Checker::new().check(&foo_refers_to_bar(), &mutual(), &checked());
    assert_eq!(
        result,
        Ok(Some(expected_violation(
            "packs/foo/app/services/foo.rb:3:1\nCycle violation: adding `packs/bar` as a dependency of `packs/foo` would close a cycle: packs/foo -> packs/bar -> packs/foo",
            "packs/foo -> packs/bar -> packs/foo",
        )))
    );
}

#[test]
fn transitive_cycle_emits_full_path() {
    // Without foo's declared dependency on bar, the reference is implicit: declaring it closes
    // foo -> bar -> baz -> foo.
    let mut packs = cycle_configuration().packs;
    packs.retain(|p| p.name != "packs/foo");
    packs.push(pack("packs/foo", &[]));
    let result = Checker::new().check(&foo_refers_to_bar(), &configuration(packs), &checked());
    assert_eq!(
        result,
        Ok(Some(expected_violation(
            "packs/foo/app/services/foo.rb:3:1\nCycle violation: adding `packs/bar` as a dependency of `packs/foo` would close a cycle: packs/foo -> packs/bar -> packs/baz -> packs/foo",
            "packs/foo -> packs/bar -> packs/baz -> packs/foo",
        )))
    );
}

#[test]
fn no_cycle_emits_nothing() {
    // Nothing depends back on foo, so declaring the dependency closes no cycle.
    let packs = vec![
        pack(".", &[]),
        pack("packs/foo", &[]),
        pack("packs/bar", &[]),
    ];
    let result = Checker::new().check(&foo_refers_to_bar(), &configuration(packs), &checked());
    assert_eq!(result, Ok(None));
}

#[test]
fn already_declared_dependency_emits_nothing() {
    // foo declares bar and bar declares foo. The reference is not implicit, so the cycle that is
    // already declared is not reported of it.
    let packs = vec![
        pack(".", &[]),
        pack("packs/foo", &["packs/bar"]),
        pack("packs/bar", &["packs/foo"]),
    ];
    let result = Checker::new().check(&foo_refers_to_bar(), &configuration(packs), &checked());
    assert_eq!(result, Ok(None));
}

#[test]
fn cycle_configuration_smoke() {
    let graph = OwnedDependencyGraph::build(&cycle_configuration()).unwrap();
    assert_eq!(
        graph.shortest_path("packs/foo", "packs/baz"),
        Some(vec![
            "packs/foo".to_owned(),
            "packs/bar".to_owned(),
            "packs/baz".to_owned()
        ])
    );
}

#[test]
fn todo_detail_of_cycle_from_baz() {
    let packs = vec![
        pack("packs/foo", &["packs/bar"]),
        pack("packs/bar", &["packs/baz"]),
        pack("packs/baz", &[]),
    ];
    let reference = Reference {
        constant_name: "::Foo".to_owned(),
        referencing_pack_name: "packs/baz".to_owned(),
        relative_referencing_file: "packs/baz/app/services/baz.rb".to_owned(),
        source_location: SourceLocation { line: 120, column: 0 },
        defining_pack_name: Some("packs/foo".to_owned()),
        relative_defining_file: Some("packs/foo/app/services/foo.rb".to_owned()),
    };
    let violation = Checker::default()
        .check(&reference, &configuration(packs), &checked())
        .unwrap()
        .unwrap();
    assert_eq!(
        violation.identifier.details.as_deref(),
        Some("packs/baz -> packs/foo -> packs/bar -> packs/baz")
    );
    assert_eq!(violation.identifier.constant_name, "::Foo");
    assert_eq!(violation.identifier.file, "packs/baz/app/services/baz.rb");
    assert!(violation
        .message
        .starts_with("packs/baz/app/services/baz.rb:120:0\nCycle violation: "));
}

#[test]
fn ignored_dependency_emits_nothing() {
    let mut packs = mutual().packs;
    packs[1].ignored_dependencies.push("packs/bar".to_owned());
    let result = Checker::new().check(&foo_refers_to_bar(), &configuration(packs), &checked());
    assert_eq!(result, Ok(None));
}

#[test]
fn reference_that_is_not_checkable_emits_nothing() {
    let rules = PackRules {
        checkable: Ok(false),
        ..checked()
    };
    let mut reference = foo_refers_to_bar();
    assert_eq!(
        Checker::new().check(&reference, &mutual(), &rules),
        Ok(None)
    );
    reference.defining_pack_name = None;
    assert_eq!(
        Checker::new().check(&reference, &mutual(), &rules),
        Ok(None)
    );
}

#[test]
fn ignored_file_emits_nothing() {
    let rules = PackRules {
        ignored: Ok(true),
        ..checked()
    };
    let mut checker = Checker::new();
    assert_eq!(
        checker.check(&foo_refers_to_bar(), &mutual(), &rules),
        Ok(None)
    );
    assert!(checker.kept_graph().is_none());
}

#[test]
fn strictness_is_recorded() {
    let rules = PackRules {
        strict: true,
        ..checked()
    };
    let violation = Checker::new()
        .check(&foo_refers_to_bar(), &mutual(), &rules)
        .unwrap()
        .unwrap();
    assert!(violation.identifier.strict);
}

#[test]
fn rules_without_an_answer_are_errors() {
    let rules = PackRules {
        checkable: Err("no setting".to_owned()),
        ..checked()
    };
    let error = Checker::new()
        .check(&foo_refers_to_bar(), &mutual(), &rules)
        .unwrap_err();
    assert_eq!(error.message(), "no setting");

    let rules = PackRules {
        ignored: Err("bad glob".to_owned()),
        ..checked()
    };
    let error = Checker::new()
        .check(&foo_refers_to_bar(), &mutual(), &rules)
        .unwrap_err();
    assert_eq!(
        error,
        CheckError::Rules {
            message: "bad glob".to_owned()
        }
    );
}

#[test]
fn missing_defining_file_is_an_error() {
    let mut reference = foo_refers_to_bar();
    reference.relative_defining_file = None;
    let rules = PackRules {
        ignored: Err("bad glob".to_owned()),
        ..checked()
    };
    let error = Checker::new()
        .check(&reference, &mutual(), &rules)
        .unwrap_err();
    assert_eq!(
        error,
        CheckError::MissingDefiningFile {
            defining_pack_name: "packs/bar".to_owned()
        }
    );
    assert_eq!(
        error.message(),
        "expected a relative defining file for defining pack: packs/bar"
    );
}

#[test]
fn unknown_packs_are_errors() {
    let mut reference = foo_refers_to_bar();
    reference.defining_pack_name = Some("packs/qux".to_owned());
    let error = Checker::new()
        .check(&reference, &mutual(), &checked())
        .unwrap_err();
    assert_eq!(
        error,
        CheckError::UnknownPack {
            name: "packs/qux".to_owned()
        }
    );
    assert_eq!(error.message(), "no pack is named: packs/qux");

    reference.referencing_pack_name = "packs/quux".to_owned();
    let error = Checker::new()
        .check(&reference, &mutual(), &checked())
        .unwrap_err();
    assert_eq!(
        error,
        CheckError::UnknownPack {
            name: "packs/quux".to_owned()
        }
    );
}

#[test]
fn unknown_dependency_disables_the_checker() {
    let mut packs = mutual().packs;
    packs[0].dependencies.push("packs/missing".to_owned());
    let mut checker = Checker::new();
    assert_eq!(
        checker.check(&foo_refers_to_bar(), &configuration(packs), &checked()),
        Ok(None)
    );
    assert!(matches!(checker.kept_graph(), Some(None)));
    assert_eq!(
        checker.check(&foo_refers_to_bar(), &mutual(), &checked()),
        Ok(None)
    );
}

#[test]
fn graph_is_kept_from_the_first_check() {
    let acyclic = configuration(vec![pack("packs/foo", &[]), pack("packs/bar", &[])]);
    let mut checker = Checker::new();
    let reported = checker
        .check(&foo_refers_to_bar(), &mutual(), &checked())
        .unwrap();
    assert!(reported.is_some());
    assert_eq!(
        checker.check(&foo_refers_to_bar(), &acyclic, &checked()),
        Ok(reported)
    );
    assert_eq!(
        Checker::new().check(&foo_refers_to_bar(), &acyclic, &checked()),
        Ok(None)
    );
}

/// Two ways of two hops lead back from bar to foo.
fn two_ways_back() -> Configuration {
    configuration(vec![
        pack("packs/foo", &[]),
        pack("packs/bar", &["packs/one", "packs/two"]),
        pack("packs/one", &["packs/foo"]),
        pack("packs/two", &["packs/foo"]),
    ])
}

#[test]
fn repeated_check_gives_the_same_report() {
    let mut checker = Checker::new();
    let first = checker.check(&foo_refers_to_bar(), &two_ways_back(), &checked());
    let details = first
        .as_ref()
        .unwrap()
        .as_ref()
        .unwrap()
        .identifier
        .details
        .clone()
        .unwrap();
    assert!(
        details == "packs/foo -> packs/bar -> packs/one -> packs/foo"
            || details == "packs/foo -> packs/bar -> packs/two -> packs/foo"
    );
    for _ in 0..20 {
        assert_eq!(
            checker.check(&foo_refers_to_bar(), &two_ways_back(), &checked()),
            first
        );
    }
}

#[test]
fn fresh_checkers_give_the_same_report() {
    let made = Checker::new().check(&foo_refers_to_bar(), &two_ways_back(), &checked());
    assert!(matches!(made, Ok(Some(_))));
    for _ in 0..20 {
        assert_eq!(
            Checker::default().check(&foo_refers_to_bar(), &two_ways_back(), &checked()),
            made
        );
    }
}

#[test]
fn later_packs_settle_the_guards_only() {
    let mut checker = Checker::new();
    checker
        .check(&foo_refers_to_bar(), &mutual(), &checked())
        .unwrap();
    let declaring = configuration(vec![
        pack("packs/foo", &["packs/bar"]),
        pack("packs/bar", &["packs/foo"]),
    ]);
    assert_eq!(
        checker.check(&foo_refers_to_bar(), &declaring, &checked()),
        Ok(None)
    );
    let broken = configuration(vec![
        pack("packs/foo", &["packs/missing"]),
        pack("packs/bar", &[]),
    ]);
    assert!(matches!(
        checker.check(&foo_refers_to_bar(), &broken, &checked()),
        Ok(Some(_))
    ));
}

#[test]
fn shorter_of_two_cycles_is_reported() {
    let packs = vec![
        pack("packs/foo", &[]),
        pack("packs/bar", &["packs/one", "packs/three"]),
        pack("packs/one", &["packs/two"]),
        pack("packs/two", &["packs/foo"]),
        pack("packs/three", &["packs/foo"]),
    ];
    let violation = Checker::new()
        .check(&foo_refers_to_bar(), &configuration(packs), &checked())
        .unwrap()
        .unwrap();
    assert_eq!(
        violation.identifier.details.as_deref(),
        Some("packs/foo -> packs/bar -> packs/three -> packs/foo")
    );
}

#[test]
fn pack_that_refers_to_itself_closes_a_cycle_of_one_hop() {
    let mut reference = foo_refers_to_bar();
    reference.defining_pack_name = Some("packs/foo".to_owned());
    let violation = Checker::new()
        .check(&reference, &mutual(), &checked())
        .unwrap()
        .unwrap();
    assert_eq!(
        violation.identifier.details.as_deref(),
        Some("packs/foo -> packs/foo")
    );
}

#[test]
fn find_cycle_goes_by_the_graph_it_is_given() {
    let packs = mutual();
    let reference = foo_refers_to_bar();
    let rules = checked();
    let checker = PackChecker::new(&packs, &reference, "cycle".to_owned(), &rules)
        .ok()
        .unwrap();
    let defining = checker.implicit_dependency().unwrap().unwrap();
    assert_eq!(defining.name, "packs/bar");
    let graph = OwnedDependencyGraph::build(&packs).unwrap();
    let found = find_cycle(&graph, &checker, defining);
    let path = vec!["packs/bar".to_owned(), "packs/foo".to_owned()];
    assert_eq!(found, Some(cycle_violation(&checker, defining, path)));

    let unrelated = OwnedDependencyGraph::build(&configuration(vec![])).unwrap();
    assert_eq!(find_cycle(&unrelated, &checker, defining), None);
}

#[test]
fn violation_type_is_cycle() {
    assert_eq!(Checker::new().violation_type(), "cycle");
}
