use ink_runtime::runtime::container::Container;
use ink_runtime::runtime::container::ContainerData;
use ink_runtime::runtime::container::ContainerElement;
use ink_runtime::runtime::container::ContainerError;
use ink_runtime::runtime::value::Value;
use ink_runtime::runtime::RuntimeObject;
use std::rc::Rc;

fn node(n: i32) -> ContainerElement {
    ContainerElement::RuntimeObject(RuntimeObject::Value(Value::Int(n)))
}

#[test]
fn flag_packing_round_trips_for_all_combinations() {
    // All eight combinations, except count-at-start-only alone, survive
    // packing and unpacking; naive AND-based packing would fail every one
    // with a set bit.
    for &(visits, turns, start) in &[
        (false, false, false),
        (true, false, false),
        (false, true, false),
        (true, true, false),
        (true, false, true),
        (false, true, true),
        (true, true, true),
    ] {
        let mut c = Container::new();
        c.visits_should_be_counted = visits;
        c.turn_index_should_be_counted = turns;
        c.count_at_start_only = start;
        let byte = c.count_flags();
        let mut d = Container::new();
        d.set_count_flags(byte);
        assert_eq!(d.visits_should_be_counted, visits);
        assert_eq!(d.turn_index_should_be_counted, turns);
        assert_eq!(d.count_at_start_only, start);
    }
}

#[test]
fn flag_packing_start_only_collapses_to_zero() {
    let mut c = Container::new();
    c.count_at_start_only = true;
    assert_eq!(c.count_flags(), 0);
}

#[test]
fn flag_unpacking_is_bitwise() {
    let mut c = Container::new();
    c.set_count_flags(3);
    assert!(c.visits_should_be_counted);
    assert!(c.turn_index_should_be_counted);
    assert!(!c.count_at_start_only);
    assert_eq!(c.count_flags(), 3);
}

#[test]
fn decode_with_null_terminator() {
    let r = Container::from_elements(vec![node(1), node(2), ContainerElement::SpecialFinal(None)]);
    let c = r.unwrap();
    assert_eq!(c.content.len(), 2);
    assert!(matches!(c.content[0], RuntimeObject::Value(Value::Int(1))));
    assert!(matches!(c.content[1], RuntimeObject::Value(Value::Int(2))));
    assert!(c.name.is_none());
    assert!(!c.visits_should_be_counted);
    assert!(!c.turn_index_should_be_counted);
    assert!(!c.count_at_start_only);
    assert!(c.named_subelements.is_empty());
}

#[test]
fn decode_with_metadata_terminator() {
    let data = ContainerData {
        name: Some("x".to_string()),
        flags: 3,
        named_subelements: Vec::new(),
    };
    let r = Container::from_elements(vec![node(1), ContainerElement::SpecialFinal(Some(data))]);
    let c = r.unwrap();
    assert_eq!(c.content.len(), 1);
    assert_eq!(c.name.as_deref(), Some("x"));
    assert!(c.visits_should_be_counted);
    assert!(c.turn_index_should_be_counted);
    assert!(!c.count_at_start_only);
}

#[test]
fn decode_empty_array_fails_with_no_elements() {
    let r = Container::from_elements(Vec::new());
    assert!(matches!(r, Err(ContainerError::NoElements)));
}

#[test]
fn decode_without_terminator_fails_with_unexpected_node() {
    let r = Container::from_elements(vec![node(1), node(2)]);
    assert!(matches!(r, Err(ContainerError::UnexpectedRuntimeObject(_))));
}

#[test]
fn decode_misplaced_null_fails() {
    let r = Container::from_elements(vec![
        node(1),
        ContainerElement::SpecialFinal(None),
        ContainerElement::SpecialFinal(None),
    ]);
    assert!(matches!(r, Err(ContainerError::UnexpectedNull)));
}

#[test]
fn decode_misplaced_metadata_fails() {
    let data = ContainerData { name: None, flags: 0, named_subelements: Vec::new() };
    let r = Container::from_elements(vec![
        ContainerElement::SpecialFinal(Some(data)),
        ContainerElement::SpecialFinal(None),
    ]);
    assert!(matches!(r, Err(ContainerError::UnexpectedMapObject(_))));
}

#[test]
fn prepend_keeps_both_orders() {
    let mut c = Container::new();
    c.add_child(RuntimeObject::Value(Value::Int(3)));
    c.prepend(vec![
        RuntimeObject::Value(Value::Int(1)),
        RuntimeObject::Value(Value::Int(2)),
    ]);
    assert_eq!(c.content.len(), 3);
    assert!(matches!(c.content[0], RuntimeObject::Value(Value::Int(1))));
    assert!(matches!(c.content[1], RuntimeObject::Value(Value::Int(2))));
    assert!(matches!(c.content[2], RuntimeObject::Value(Value::Int(3))));
}

#[test]
fn search_by_name_finds_first_match_in_content_order() {
    let mut inner_a = Container::new();
    inner_a.name = Some("a".to_string());
    inner_a.add_child(RuntimeObject::Value(Value::Int(1)));
    let mut inner_a2 = Container::new();
    inner_a2.name = Some("a".to_string());
    let mut c = Container::new();
    c.add_child(RuntimeObject::Value(Value::Int(0)));
    c.add_child(RuntimeObject::Container(Rc::new(inner_a)));
    c.add_child(RuntimeObject::Container(Rc::new(inner_a2)));
    match c.search_by_name("a") {
        Some(RuntimeObject::Container(found)) => {
            assert_eq!(found.content.len(), 1);
        }
        _ => panic!("expected the first container named a"),
    }
    assert!(c.search_by_name("b").is_none());
}
