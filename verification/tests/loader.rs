use lambda_cicle::modules::loader::{detect_cycles, CycleInfo, ImportGraph};

#[test]
fn test_detect_simple_cycle() {
    let mut graph = ImportGraph::new();
    graph.add_module("A");
    graph.add_module("B");
    graph.add_import("A", "B");
    graph.add_import("B", "A");

    let cycle = detect_cycles(&graph);
    assert!(cycle.is_some());
    let cycle = cycle.unwrap();
    assert!(cycle.modules.contains(&"A".to_string()));
    assert!(cycle.modules.contains(&"B".to_string()));
}

#[test]
fn test_detect_three_way_cycle() {
    let mut graph = ImportGraph::new();
    graph.add_module("A");
    graph.add_module("B");
    graph.add_module("C");
    graph.add_import("A", "B");
    graph.add_import("B", "C");
    graph.add_import("C", "A");

    let cycle = detect_cycles(&graph);
    assert!(cycle.is_some());
}

#[test]
fn test_diamond_dependency_no_cycle() {
    let mut graph = ImportGraph::new();
    graph.add_module("A");
    graph.add_module("B");
    graph.add_module("C");
    graph.add_module("D");
    graph.add_import("A", "B");
    graph.add_import("A", "C");
    graph.add_import("B", "D");
    graph.add_import("C", "D");

    let cycle = detect_cycles(&graph);
    assert!(cycle.is_none());
}

#[test]
fn test_self_import() {
    let mut graph = ImportGraph::new();
    graph.add_module("A");
    graph.add_import("A", "A");

    let cycle = detect_cycles(&graph);
    assert!(cycle.is_some());
}

#[test]
fn only_importers_and_added_modules_are_listed() {
    let mut graph = ImportGraph::new();
    graph.add_import("A", "B");
    assert_eq!(graph.get_modules(), vec!["A"]);
    assert_eq!(graph.get_imports("A"), vec!["B"]);
    assert!(graph.get_imports("B").is_empty());
    graph.add_module("B");
    let mut modules = graph.get_modules();
    modules.sort();
    assert_eq!(modules, vec!["A", "B"]);
}

#[test]
fn cycle_message() {
    let info = CycleInfo { modules: vec!["A".to_string(), "A".to_string()] };
    assert_eq!(info.display(), "Cycle detected: A -> A");
}
