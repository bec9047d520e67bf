use lambda_cicle::ast::terms::UseMode;
use lambda_cicle::name_resolver::{check_cycles, CycleError, Import, ImportGraph, NameResolutionError};

#[test]
fn test_import_graph_add() {
    let mut graph = ImportGraph::new();
    graph.add_module("Main");
    graph.add_dependency("Main", "Std");

    let modules = graph.modules();
    assert!(modules.contains(&"Main".to_string()));
    assert!(modules.contains(&"Std".to_string()));
    assert_eq!(graph.get_dependencies("Main"), vec!["Std"]);
}

#[test]
fn test_cycle_detection_simple() {
    let mut graph = ImportGraph::new();
    graph.add_module("A");
    graph.add_module("B");
    graph.add_dependency("A", "B");
    graph.add_dependency("B", "A");

    let cycle = graph.detect_cycle();
    assert!(cycle.is_some());
}

#[test]
fn test_no_cycle() {
    let mut graph = ImportGraph::new();
    graph.add_module("Main");
    graph.add_module("Std");
    graph.add_module("List");
    graph.add_dependency("Main", "Std");
    graph.add_dependency("Main", "List");
    graph.add_dependency("List", "Std");

    assert!(graph.detect_cycle().is_none());
}

#[test]
fn test_topological_sort() {
    let mut graph = ImportGraph::new();
    graph.add_module("Main");
    graph.add_module("Std");
    graph.add_module("List");
    graph.add_dependency("Main", "Std");
    graph.add_dependency("Main", "List");
    graph.add_dependency("List", "Std");

    let sorted = graph.topological_sort();
    assert!(sorted.is_ok());
    let order = sorted.unwrap();
    let std_idx = order.iter().position(|m| m == "Std").unwrap();
    let list_idx = order.iter().position(|m| m == "List").unwrap();
    let main_idx = order.iter().position(|m| m == "Main").unwrap();

    assert!(std_idx < list_idx);
    assert!(list_idx < main_idx);
}

#[test]
fn cycle_is_reported_from_and_back_to_one_module() {
    let mut graph = ImportGraph::new();
    graph.add_dependency("A", "B");
    graph.add_dependency("B", "C");
    graph.add_dependency("C", "A");
    let cycle = graph.detect_cycle().unwrap();
    assert!(cycle.len() >= 2);
    assert_eq!(cycle.first(), cycle.last());
    let sorted = graph.topological_sort();
    assert!(sorted.is_err());
    let err = sorted.unwrap_err();
    assert_eq!(err.modules.first(), err.modules.last());
}

#[test]
fn dependencies_of_unknown_module_are_empty() {
    let graph = ImportGraph::new();
    assert!(graph.get_dependencies("Nowhere").is_empty());
    assert!(graph.modules().is_empty());
}

#[test]
fn import_names() {
    let import = Import {
        path: vec!["Std".to_string(), "List".to_string()],
        mode: UseMode::Qualified,
        alias: None,
    };
    assert_eq!(import.module_name(), "Std.List");
    assert_eq!(import.qualifier(), "List");
    let aliased = Import {
        path: vec!["Std".to_string(), "List".to_string()],
        mode: UseMode::Aliased("L".to_string()),
        alias: Some("L".to_string()),
    };
    assert_eq!(aliased.qualifier(), "L");
}

#[test]
fn check_cycles_reports_the_cycle() {
    let mut graph = ImportGraph::new();
    graph.add_dependency("A", "A");
    match check_cycles(&graph) {
        Err(NameResolutionError::CycleDetected(c)) => assert_eq!(c, vec!["A", "A"]),
        _ => panic!("expected a cycle"),
    }
    let mut ok = ImportGraph::new();
    ok.add_dependency("A", "B");
    assert!(check_cycles(&ok).is_ok());
}

#[test]
fn error_messages() {
    let e = CycleError { modules: vec!["A".to_string(), "B".to_string(), "A".to_string()] };
    assert_eq!(e.message(), "Cycle detected: A -> B -> A");
    let n: NameResolutionError = e.into();
    assert_eq!(n.message(), "Cyclic dependency: A -> B -> A");
    assert_eq!(
        NameResolutionError::ModuleNotFound("M".to_string()).message(),
        "Module not found: M"
    );
    assert_eq!(
        NameResolutionError::NameNotFound { module: "M".to_string(), name: "x".to_string() }.message(),
        "Name 'x' not found in module 'M'"
    );
}

#[test]
fn modules_are_listed_once() {
    let mut graph = ImportGraph::new();
    graph.add_module("A");
    graph.add_dependency("A", "B");
    graph.add_dependency("B", "A");
    graph.add_module("B");
    let mut ms = graph.modules();
    ms.sort();
    assert_eq!(ms, vec!["A".to_string(), "B".to_string()]);
}
