use kern::semantic::dependency_graph::{DependencyError, DependencyGraph};
use kern::semantic::resolver::Resolver;
use kern::semantic::symbol::SourceLocation;

fn graph(edges: &[(&str, &[&str])]) -> DependencyGraph {
    let mut g = DependencyGraph::new(Resolver::new());
    for (name, _) in edges {
        g.create_node(name);
    }
    for (name, deps) in edges {
        g.add_dependencies(name, deps.iter().map(|d| d.to_string()).collect());
    }
    g
}

fn position(order: &[String], name: &str) -> usize {
    order.iter().position(|x| x == name).unwrap()
}

#[test]
fn topological_order_puts_dependents_first() {
    let g = graph(&[("a", &["b", "c"]), ("b", &["c"]), ("c", &[]), ("d", &["a", "x"])]);
    let order = g.topological_sort().unwrap();
    assert_eq!(order.len(), 5);
    assert!(position(&order, "a") < position(&order, "b"));
    assert!(position(&order, "b") < position(&order, "c"));
    assert!(position(&order, "d") < position(&order, "a"));
    assert!(position(&order, "d") < position(&order, "x"));
}

#[test]
fn acyclic_graph_passes_cycle_check() {
    let mut g = graph(&[("a", &["b"]), ("b", &[])]);
    assert!(g.check_cycles().is_ok());
    assert!(g.topological_sort().is_ok());
    assert_eq!(g.get_dependencies("a").unwrap().to_vec(), vec!["b".to_string()]);
    assert!(g.get_dependencies("zzz").is_none());
}

#[test]
fn cycle_is_reported_and_blocks_sorting() {
    let mut g = graph(&[("a", &["b"]), ("b", &["c"]), ("c", &["a"])]);
    let errors = g.check_cycles().unwrap_err();
    assert_eq!(errors, vec!["Cyclic dependency detected: a -> b -> c -> a at unknown:0".to_string()]);
    assert_eq!(g.topological_sort().unwrap_err(), "Cannot perform topological sort on cyclic graph");
}

#[test]
fn self_dependency_is_a_cycle() {
    let mut g = graph(&[("a", &["a"])]);
    let errors = g.check_cycles().unwrap_err();
    assert_eq!(errors[0], "Cyclic dependency detected: a -> a at unknown:0");
}

#[test]
fn dependency_error_messages() {
    let e = DependencyError::CyclicDependency {
        cycle: vec!["x".to_string(), "y".to_string(), "x".to_string()],
        location: SourceLocation::new("m.kern".to_string(), 4, 2),
    };
    assert_eq!(e.message(), "Cyclic dependency detected: x -> y -> x at m.kern:4");
    let e = DependencyError::SelfDependency { symbol: "z".to_string(), location: SourceLocation::new("m.kern".to_string(), 7, 1) };
    assert_eq!(e.message(), "Symbol 'z' depends on itself at m.kern:7");
}
