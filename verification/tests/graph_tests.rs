use std::rc::Rc;

use ink_runtime::path::Path;
use ink_runtime::runtime::container::Container;
use ink_runtime::runtime::divert::Divert;
use ink_runtime::runtime::divert::TargetType;
use ink_runtime::runtime::value::Value;
use ink_runtime::runtime::RuntimeObject;
use ink_runtime::runtime_graph::version_supported;
use ink_runtime::runtime_graph::RuntimeGraph;

#[test]
fn resolve_path_by_name_test() {
    let path = Path::from_str("a.b.c");

    let mut root_container = Container::new();

    let mut child_level_1 = Container::new();
    child_level_1.name = Some("a".to_owned());

    let mut child_level_2 = Container::new();
    child_level_2.name = Some("b".to_owned());

    let mut child_level_3 = Container::new();
    child_level_3.name = Some("c".to_owned());

    child_level_2.add_child(RuntimeObject::Container(Rc::new(child_level_3)));
    child_level_1.add_child(RuntimeObject::Container(Rc::new(child_level_2)));
    root_container.add_child(RuntimeObject::Container(Rc::new(child_level_1)));

    let graph = RuntimeGraph {
        ink_version: 17,
        root_container: root_container.into(),
    };

    match graph.resolve_path(&path.unwrap()) {
        Some(&RuntimeObject::Container(ref container)) => {
            assert_eq!(container.name.as_ref().unwrap(), "c")
        }
        _ => assert!(false),
    }
}

#[test]
fn resolve_path_by_index_test() {
    let path = Path::from_str("a.b.1");

    let mut root_container = Container::new();

    let mut child_level_1 = Container::new();
    child_level_1.name = Some("a".to_owned());

    let mut child_level_2 = Container::new();
    child_level_2.name = Some("b".to_owned());

    let mut child_level_3_1 = Container::new();
    child_level_3_1.name = Some("c".to_owned());

    let child_level_3_2 = Divert::new(TargetType::VarName("mytarget".to_owned()));

    child_level_2.add_child(RuntimeObject::Container(Rc::new(child_level_3_1)));
    child_level_2.add_child(RuntimeObject::Divert(child_level_3_2));
    child_level_1.add_child(RuntimeObject::Container(Rc::new(child_level_2)));
    root_container.add_child(RuntimeObject::Container(Rc::new(child_level_1)));

    let graph = RuntimeGraph {
        ink_version: 17,
        root_container: root_container.into(),
    };

    match graph.resolve_path(&path.unwrap()) {
        Some(&RuntimeObject::Divert(ref divert)) => match &divert.target {
            &TargetType::VarName(ref name) => assert_eq!(name, "mytarget"),
            _ => assert!(false),
        },
        _ => assert!(false),
    }
}

fn small_graph() -> RuntimeGraph {
    let mut inner = Container::new();
    inner.name = Some("a".to_owned());
    inner.add_child(RuntimeObject::Value(Value::Int(7)));
    let mut root = Container::new();
    root.add_child(RuntimeObject::Container(Rc::new(inner)));
    RuntimeGraph { ink_version: 17, root_container: Rc::new(root) }
}

#[test]
fn resolve_out_of_range_index_returns_none() {
    let graph = small_graph();
    assert!(graph.resolve_path(&Path::from_str("5").unwrap()).is_none());
    assert!(graph.resolve_path(&Path::from_str("a.3").unwrap()).is_none());
}

#[test]
fn resolve_unmatched_name_returns_none() {
    let graph = small_graph();
    assert!(graph.resolve_path(&Path::from_str("missing").unwrap()).is_none());
    assert!(graph.resolve_path(&Path::from_str("a.nothere").unwrap()).is_none());
}

#[test]
fn resolve_through_non_container_returns_none() {
    let graph = small_graph();
    // a.0 is a value; descending further through it is an addressing error.
    assert!(graph.resolve_path(&Path::from_str("a.0.0").unwrap()).is_none());
}

#[test]
fn resolve_parent_steps_back_up() {
    let graph = small_graph();
    // Step down into a, back up to the root, and down again by index.
    match graph.resolve_path(&Path::from_str("a.^.0").unwrap()) {
        Some(RuntimeObject::Container(c)) => assert_eq!(c.name.as_deref(), Some("a")),
        _ => panic!("expected the container named a"),
    }
    // A parent step above the root has no referent.
    assert!(graph.resolve_path(&Path::from_str("^").unwrap()).is_none());
}

#[test]
fn version_support_is_a_closed_span() {
    assert!(version_supported(17));
    assert!(version_supported(21));
    assert!(!version_supported(16));
    assert!(!version_supported(22));
    assert!(!version_supported(0));
}
