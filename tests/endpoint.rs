use dispatch_tree::container::Container;
use dispatch_tree::dispatch::{dispatch, DispatchError};
use dispatch_tree::handler::{endpoint, Handler, Outcome};
use dispatch_tree::inject::DependencyMissing;

const NUM: u64 = 1;
const NAME: u64 = 2;

#[test]
fn test_endpoint() {
    let input = 123;
    let output = 7;

    let h = endpoint(vec![NUM], move |args: Vec<&i32>| {
        assert_eq!(*args[0], input);
        output
    });
    let result = dispatch(&h, Container::new().insert(NUM, input));

    let result = match result {
        Ok(b) => b,
        _ => panic!("Unexpected: handler return ControlFlow::Break"),
    };
    assert_eq!(result, output);
}

#[test]
fn endpoint_gets_values_in_declared_order() {
    let h = endpoint(vec![NAME, NUM, NAME], |args: Vec<&String>| {
        format!("{}-{}-{}", args[0], args[1], args[2])
    });
    let c = Container::new()
        .insert(NUM, "one".to_string())
        .insert(NAME, "name".to_string());
    match h.handle(c) {
        Ok(Outcome::Break(s)) => assert_eq!(s, "name-one-name"),
        _ => panic!("endpoint must answer"),
    }
}

#[test]
fn endpoint_with_no_tags_answers_on_empty_container() {
    let h = endpoint(vec![], |args: Vec<&i32>| args.len() as i32 + 40);
    assert_eq!(dispatch(&h, Container::<i32>::new()), Ok(40));
}

#[test]
fn endpoint_reports_first_missing_tag() {
    let h = endpoint(vec![NUM, 5, 6], |_args: Vec<&i32>| 0);
    let c = Container::new().insert(NUM, 1).insert(6, 3);
    match h.handle(c) {
        Err(e) => assert_eq!(e, DependencyMissing { tag: 5 }),
        _ => panic!("a missing tag must fail"),
    }
}

#[test]
fn missing_dependency_is_reported_by_dispatch() {
    let h = endpoint(vec![NUM], |args: Vec<&i32>| *args[0]);
    assert_eq!(dispatch(&h, Container::<i32>::new()), Err(DispatchError::DependencyMissing(NUM)));
}

#[test]
fn signature_of_endpoint() {
    let h = endpoint(vec![NUM, NAME], |_args: Vec<&i32>| 0);
    let s = h.signature();
    assert_eq!(s.input_types, vec![NUM, NAME]);
    assert!(s.output_types.is_empty());
    assert_eq!(s.obligations, vec![NUM, NAME]);
    let full = Container::new().insert(NAME, 1).insert(NUM, 2);
    let partial = Container::new().insert(NAME, 1);
    assert!(s.satisfied_by(&full));
    assert!(!s.satisfied_by(&partial));
}
