use dispatch_tree::container::Container;
use dispatch_tree::dispatch::{dispatch, DispatchError};
use dispatch_tree::handler::{endpoint, filter, node, parser, Handler, Outcome};
use dispatch_tree::inject::DependencyMissing;

const EVENT: u64 = 1;
const NARROW: u64 = 2;

#[test]
fn filter_rejecting_hands_container_on() {
    let h = filter(|c: &Container<i32>| c.get(EVENT) == Some(&1)).end_point(vec![EVENT], |a: Vec<&i32>| *a[0] * 10);
    let c = Container::new().insert(EVENT, 2).insert(9, 90);
    match h.handle(c) {
        Ok(Outcome::Continue(d)) => {
            assert_eq!(d.get(EVENT), Some(&2));
            assert_eq!(d.get(9), Some(&90));
            assert_eq!(d.len(), 2);
        },
        _ => panic!("a rejecting filter must hand the container on"),
    }
}

#[test]
fn filter_accepting_gives_inner_outcome() {
    let h = filter(|c: &Container<i32>| c.get(EVENT) == Some(&1)).end_point(vec![EVENT], |a: Vec<&i32>| *a[0] * 10);
    assert_eq!(dispatch(&h, Container::new().insert(EVENT, 1)), Ok(10));
}

#[test]
fn filter_accepting_passes_inner_failure() {
    let h = filter(|_c: &Container<i32>| true).end_point(vec![7], |a: Vec<&i32>| *a[0]);
    match h.handle(Container::new().insert(EVENT, 1)) {
        Err(e) => assert_eq!(e, DependencyMissing { tag: 7 }),
        _ => panic!("inner failure must come through"),
    }
}

#[test]
fn empty_node_declines() {
    let root = node().build();
    assert_eq!(dispatch::<i32, i32, _>(&root, Container::new().insert(EVENT, 1)), Err(DispatchError::NoHandlerMatched));
}

#[test]
fn node_first_break_wins_and_order_matters() {
    let ab = node()
        .and(endpoint(vec![], |_a: Vec<&i32>| "a"))
        .and(endpoint(vec![], |_a: Vec<&i32>| "b"))
        .build();
    let ba = node()
        .and(endpoint(vec![], |_a: Vec<&i32>| "b"))
        .and(endpoint(vec![], |_a: Vec<&i32>| "a"))
        .build();
    assert_eq!(dispatch(&ab, Container::<i32>::new()), Ok("a"));
    assert_eq!(dispatch(&ba, Container::<i32>::new()), Ok("b"));
}

#[test]
fn node_skips_declining_handlers() {
    let root = node()
        .and(filter(|c: &Container<i32>| c.get(EVENT) == Some(&1)).end_point(vec![], |_a: Vec<&i32>| 1))
        .and(filter(|c: &Container<i32>| c.get(EVENT) == Some(&2)).end_point(vec![], |_a: Vec<&i32>| 2))
        .and(filter(|c: &Container<i32>| c.get(EVENT) == Some(&3)).end_point(vec![], |_a: Vec<&i32>| 3))
        .build();
    assert_eq!(dispatch(&root, Container::new().insert(EVENT, 1)), Ok(1));
    assert_eq!(dispatch(&root, Container::new().insert(EVENT, 2)), Ok(2));
    assert_eq!(dispatch(&root, Container::new().insert(EVENT, 3)), Ok(3));
    assert_eq!(dispatch(&root, Container::new().insert(EVENT, 4)), Err(DispatchError::NoHandlerMatched));
}

#[test]
fn nested_nodes() {
    let inner = node().and(filter(|c: &Container<i32>| c.get(EVENT) == Some(&5)).end_point(vec![], |_a: Vec<&i32>| 50));
    let root = node().and(inner).and(endpoint(vec![EVENT], |a: Vec<&i32>| *a[0])).build();
    assert_eq!(dispatch(&root, Container::new().insert(EVENT, 5)), Ok(50));
    assert_eq!(dispatch(&root, Container::new().insert(EVENT, 6)), Ok(6));
}

// Events are numbers; an even number narrows to its half, with the remainder 0.
fn halve(e: i32) -> Result<(i32, i32), i32> {
    if e % 2 == 0 {
        Ok((e / 2, 0))
    } else {
        Err(e)
    }
}

fn double(n: i32, rest: i32) -> i32 {
    n * 2 + rest
}

#[test]
fn parser_narrows_for_inner() {
    let h = parser(EVENT, NARROW, halve, double).end_point(vec![NARROW], |a: Vec<&i32>| *a[0]);
    assert_eq!(dispatch(&h, Container::new().insert(EVENT, 42)), Ok(21));
}

#[test]
fn parser_inner_sees_narrowed_not_event() {
    let h = parser(EVENT, NARROW, halve, double).end_point(vec![EVENT], |a: Vec<&i32>| *a[0]);
    assert_eq!(dispatch(&h, Container::new().insert(EVENT, 42)), Err(DispatchError::DependencyMissing(EVENT)));
}

#[test]
fn parser_round_trip_restores_event() {
    let declining = filter(|_c: &Container<i32>| false).end_point(vec![], |_a: Vec<&i32>| 0);
    let h = parser(EVENT, NARROW, halve, double).chain(declining);
    match h.handle(Container::new().insert(EVENT, 42).insert(7, 70)) {
        Ok(Outcome::Continue(d)) => {
            assert_eq!(d.get(EVENT), Some(&42));
            assert_eq!(d.get(NARROW), None);
            assert_eq!(d.get(7), Some(&70));
        },
        _ => panic!("the inner handler declined"),
    }
}

#[test]
fn parser_failure_leaves_container() {
    let h = parser(EVENT, NARROW, halve, double).end_point(vec![NARROW], |a: Vec<&i32>| *a[0]);
    match h.handle(Container::new().insert(EVENT, 43)) {
        Ok(Outcome::Continue(d)) => {
            assert_eq!(d.get(EVENT), Some(&43));
            assert_eq!(d.len(), 1);
        },
        _ => panic!("an odd event does not narrow"),
    }
}

#[test]
fn parser_without_event_declines() {
    let h = parser(EVENT, NARROW, halve, double).end_point(vec![NARROW], |a: Vec<&i32>| *a[0]);
    assert_eq!(dispatch(&h, Container::new().insert(9, 2)), Err(DispatchError::NoHandlerMatched));
}

#[test]
fn later_sibling_sees_restored_event() {
    let root = node()
        .and(parser(EVENT, NARROW, halve, double).chain(filter(|_c: &Container<i32>| false).end_point(vec![], |_a: Vec<&i32>| 0)))
        .and(endpoint(vec![EVENT], |a: Vec<&i32>| *a[0] + 1))
        .build();
    assert_eq!(dispatch(&root, Container::new().insert(EVENT, 42)), Ok(43));
}

#[test]
fn signatures_of_combinators() {
    let chained = node()
        .and(endpoint(vec![1, 2], |_a: Vec<&i32>| 0))
        .and(filter(|_c: &Container<i32>| true).end_point(vec![3], |_a: Vec<&i32>| 0))
        .build();
    let s = chained.signature();
    assert_eq!(s.input_types, vec![1, 2, 3]);
    assert_eq!(s.obligations, vec![1, 2, 3]);
    assert!(s.output_types.is_empty());

    let narrowing = parser(EVENT, NARROW, halve, double).end_point(vec![NARROW, 3], |_a: Vec<&i32>| 0);
    let s = narrowing.signature();
    assert_eq!(s.input_types, vec![3, EVENT]);
    assert_eq!(s.obligations, vec![3]);
    assert!(s.output_types.is_empty());

    let empty = Handler::<i32, i32>::signature(&node().build());
    assert!(empty.input_types.is_empty());
    assert!(empty.obligations.is_empty());
}
