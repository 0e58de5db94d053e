use cycle_checker::dependency::{build_dependency_graph, OwnedDependencyGraph};
use cycle_checker::pack::{Configuration, Pack};

fn pack(name: &str, dependencies: &[&str]) -> Pack {
    Pack {
        name: name.to_owned(),
        dependencies: dependencies.iter().map(|d| d.to_string()).collect(),
        ignored_dependencies: vec![],
    }
}

fn graph(packs: Vec<Pack>) -> OwnedDependencyGraph {
    OwnedDependencyGraph::build(&Configuration { packs }).unwrap()
}

fn names(path: &[&str]) -> Option<Vec<String>> {
    Some(path.iter().map(|name| name.to_string()).collect())
}

#[test]
fn path_takes_the_fewest_hops() {
    let graph = graph(vec![
        pack("a", &["b", "c"]),
        pack("b", &["c"]),
        pack("c", &["d"]),
        pack("d", &["a"]),
    ]);
    assert_eq!(graph.shortest_path("a", "d"), names(&["a", "c", "d"]));
    assert_eq!(graph.shortest_path("d", "c"), names(&["d", "a", "c"]));
    assert_eq!(
        graph.shortest_path("b", "a"),
        names(&["b", "c", "d", "a"])
    );
}

#[test]
fn dependencies_lead_one_way() {
    let graph = graph(vec![pack("a", &["b"]), pack("b", &[])]);
    assert_eq!(graph.shortest_path("a", "b"), names(&["a", "b"]));
    assert_eq!(graph.shortest_path("b", "a"), None);
}

#[test]
fn pack_reaches_itself_in_no_hops() {
    let graph = graph(vec![pack("a", &["a"]), pack("b", &[])]);
    assert_eq!(graph.shortest_path("a", "a"), names(&["a"]));
    assert_eq!(graph.shortest_path("b", "b"), names(&["b"]));
}

#[test]
fn unknown_packs_have_no_path() {
    let graph = graph(vec![pack("a", &[])]);
    assert_eq!(graph.shortest_path("a", "x"), None);
    assert_eq!(graph.shortest_path("x", "a"), None);
    assert_eq!(graph.shortest_path("x", "x"), None);
}

#[test]
fn unknown_dependency_is_named() {
    let configuration = Configuration {
        packs: vec![pack("a", &["b"]), pack("b", &["a", "x"])],
    };
    assert!(OwnedDependencyGraph::build(&configuration).is_none());
    let unknown = build_dependency_graph(&configuration).err().unwrap();
    assert_eq!(unknown.pack_name, "b");
    assert_eq!(unknown.dependency_name, "x");
}

#[test]
fn order_of_listing_does_not_matter() {
    let listed = graph(vec![
        pack("a", &["b", "c"]),
        pack("b", &["c"]),
        pack("c", &["d"]),
        pack("d", &[]),
    ]);
    let shuffled = graph(vec![
        pack("d", &[]),
        pack("c", &["d", "d"]),
        pack("a", &["c", "b"]),
        pack("b", &["c"]),
    ]);
    for from in ["a", "b", "c", "d"] {
        for to in ["a", "b", "c", "d"] {
            assert_eq!(
                listed.shortest_path(from, to),
                shuffled.shortest_path(from, to)
            );
        }
    }
}

#[test]
fn name_stands_for_the_first_pack_that_bears_it() {
    let configuration = Configuration {
        packs: vec![pack("a", &["b"]), pack("b", &[]), pack("a", &[])],
    };
    let found = configuration.for_pack(&"a".to_owned()).unwrap();
    assert_eq!(found.dependencies, vec!["b".to_owned()]);
    assert!(configuration.for_pack(&"c".to_owned()).is_none());
    let graph = OwnedDependencyGraph::build(&configuration).unwrap();
    assert_eq!(graph.shortest_path("a", "b"), names(&["a", "b"]));
}

#[test]
fn small_configurations_fit() {
    let configuration = Configuration {
        packs: vec![pack("a", &["b"]), pack("b", &[])],
    };
    assert!(configuration.fits_graph());
    assert!(Configuration { packs: vec![] }.fits_graph());
}

#[test]
fn closing_dependency_makes_the_reported_cycle_walkable() {
    let mut packs = vec![
        pack("a", &[]),
        pack("b", &["c"]),
        pack("c", &["a"]),
    ];
    let before = graph(packs.clone());
    assert_eq!(before.shortest_path("a", "b"), None);
    assert_eq!(before.shortest_path("b", "a"), names(&["b", "c", "a"]));
    packs[0].dependencies.push("b".to_owned());
    let after = graph(packs);
    assert_eq!(after.shortest_path("a", "b"), names(&["a", "b"]));
    assert_eq!(after.shortest_path("b", "a"), names(&["b", "c", "a"]));
}
