use rune::error::{Expectation, VmError, VmErrorKind};
use rune::join::{start, IndexedTask, JoinEngine, Start, Step};
use rune::module::module;
use rune::stack::{raw_join, Stack};
use rune::value::{FutureHandle, TypeKind, Value};

fn task(id: u64) -> Value {
    Value::Future(FutureHandle::Task(id))
}

fn running(value: Value) -> (JoinEngine, Vec<IndexedTask>) {
    match start(value) {
        Ok(Start::Running(engine, tasks)) => (engine, tasks),
        _ => panic!("expected a running join"),
    }
}

fn task_id(t: &IndexedTask) -> u64 {
    match t.handle {
        FutureHandle::Task(id) => id,
        _ => panic!("expected a host task"),
    }
}

fn ints(v: &[Value]) -> Vec<i64> {
    v.iter()
        .map(|x| match x {
            Value::Integer(i) => *i,
            _ => panic!("expected an integer"),
        })
        .collect()
}

/// Completes each task in `order` with the value `10 * position`.
fn run(mut engine: JoinEngine, order: &[usize]) -> Value {
    for (n, &index) in order.iter().enumerate() {
        assert!(engine.is_open(index));
        match engine.complete(index, Ok(Value::Integer(10 * index as i64))) {
            Step::Pending(next) => {
                assert!(n + 1 < order.len());
                engine = next;
            }
            Step::Done(v) => {
                assert_eq!(n + 1, order.len());
                return v;
            }
            Step::Failed(_) => panic!("no task failed"),
        }
    }
    panic!("the join did not finish")
}

fn panic_error(reason: &str) -> VmError {
    VmError { kinds: vec![VmErrorKind::Panic { reason: reason.to_string() }] }
}

#[test]
fn tasks_remember_their_positions() {
    let (engine, tasks) = running(Value::Tuple(vec![task(7), task(8), task(9)]));
    assert_eq!(engine.len(), 3);
    let mut seen: Vec<(usize, u64)> = tasks.iter().map(|t| (t.index, task_id(t))).collect();
    seen.sort();
    assert_eq!(seen, vec![(0, 7), (1, 8), (2, 9)]);
}

#[test]
fn join_in_order_gives_values_by_position() {
    for n in 1..6usize {
        let input: Vec<Value> = (0..n as u64).map(task).collect();
        let (engine, _) = running(Value::List(input));
        let order: Vec<usize> = (0..n).collect();
        match run(engine, &order) {
            Value::List(vals) => {
                assert_eq!(ints(&vals), (0..n as i64).map(|i| 10 * i).collect::<Vec<_>>());
            }
            _ => panic!("expected a list"),
        }
    }
}

#[test]
fn join_out_of_order_completion() {
    let (engine, _) = running(Value::Tuple(vec![task(0), task(1), task(2)]));
    match run(engine, &[1, 0, 2]) {
        Value::Tuple(vals) => assert_eq!(ints(&vals), vec![0, 10, 20]),
        _ => panic!("expected a tuple"),
    }
}

#[test]
fn join_reverse_completion() {
    let (engine, _) = running(Value::List(vec![task(0), task(1), task(2), task(3)]));
    match run(engine, &[3, 2, 1, 0]) {
        Value::List(vals) => assert_eq!(ints(&vals), vec![0, 10, 20, 30]),
        _ => panic!("expected a list"),
    }
}

#[test]
fn empty_tuple_is_ready_at_once() {
    assert!(matches!(start(Value::Empty), Ok(Start::Ready(Value::Empty))));
}

#[test]
fn empty_list_is_ready_at_once() {
    match start(Value::List(vec![])) {
        Ok(Start::Ready(Value::List(vals))) => assert!(vals.is_empty()),
        _ => panic!("expected an empty list at once"),
    }
}

#[test]
fn tuple_without_elements_is_ready_at_once() {
    match start(Value::Tuple(vec![])) {
        Ok(Start::Ready(Value::Tuple(vals))) => assert!(vals.is_empty()),
        _ => panic!("expected an empty tuple at once"),
    }
}

#[test]
fn non_future_element_is_reported_with_its_position() {
    let r = start(Value::List(vec![task(0), Value::Integer(5), task(2), Value::Other(3)]));
    match r {
        Err(e) => {
            assert_eq!(e.kinds.len(), 2);
            assert!(matches!(e.kinds[0], VmErrorKind::BadArgument { index: 0 }));
            assert!(matches!(
                e.kinds[1],
                VmErrorKind::TypeMismatch { index: 1, expected: Expectation::Future, actual: TypeKind::Integer }
            ));
        }
        Ok(_) => panic!("expected an error, and no task to run"),
    }
}

#[test]
fn argument_that_is_not_a_collection_is_refused() {
    match start(Value::Integer(1)) {
        Err(e) => {
            assert_eq!(e.kinds.len(), 2);
            assert!(matches!(e.kinds[0], VmErrorKind::BadArgument { index: 0 }));
            assert!(matches!(
                e.kinds[1],
                VmErrorKind::TypeMismatch { index: 0, expected: Expectation::TupleOrList, actual: TypeKind::Integer }
            ));
        }
        Ok(_) => panic!("expected an error"),
    }
}

#[test]
fn failing_task_ends_the_join_with_its_failure() {
    let (engine, _) = running(Value::Tuple(vec![task(0), task(1), task(2)]));
    let engine = match engine.complete(2, Ok(Value::Integer(2))) {
        Step::Pending(e) => e,
        _ => panic!("two tasks are still running"),
    };
    match engine.complete(0, Err(panic_error("boom"))) {
        Step::Failed(e) => {
            assert_eq!(e.kinds.len(), 1);
            assert!(matches!(&e.kinds[0], VmErrorKind::Panic { reason } if reason == "boom"));
        }
        _ => panic!("expected the failure"),
    }
}

#[test]
fn completed_slot_is_no_longer_open() {
    let (engine, _) = running(Value::List(vec![task(0), task(1)]));
    assert!(engine.is_open(0) && engine.is_open(1) && !engine.is_open(2));
    match engine.complete(0, Ok(Value::Empty)) {
        Step::Pending(e) => {
            assert!(!e.is_open(0));
            assert!(e.is_open(1));
        }
        _ => panic!("one task is still running"),
    }
}

#[test]
fn join_keeps_shape() {
    let (tuple, _) = running(Value::Tuple(vec![task(0)]));
    assert!(matches!(run(tuple, &[0]), Value::Tuple(_)));
    let (list, _) = running(Value::List(vec![task(0)]));
    assert!(matches!(run(list, &[0]), Value::List(_)));
}

#[test]
fn raw_join_needs_exactly_one_argument() {
    for args in [0usize, 2, 3] {
        let mut stack = Stack::new();
        stack.push(Value::Empty);
        stack.push(Value::Empty);
        match raw_join(&mut stack, args) {
            Err(e) => {
                assert_eq!(e.kinds.len(), 1);
                assert!(matches!(e.kinds[0], VmErrorKind::BadArgumentCount { actual, expected: 1 } if actual == args));
            }
            Ok(()) => panic!("expected an arity error"),
        }
        assert_eq!(stack.len(), 2);
    }
}

#[test]
fn raw_join_pushes_a_deferred_join() {
    let mut stack = Stack::new();
    stack.push(Value::Integer(1));
    stack.push(Value::List(vec![task(4)]));
    assert!(raw_join(&mut stack, 1).is_ok());
    assert_eq!(stack.len(), 2);
    match stack.pop() {
        Ok(Value::Future(FutureHandle::Join(inner))) => match *inner {
            Value::List(es) => assert!(matches!(es[0], Value::Future(FutureHandle::Task(4)))),
            _ => panic!("expected the argument inside the join"),
        },
        _ => panic!("expected a deferred join"),
    }
    assert!(matches!(stack.pop(), Ok(Value::Integer(1))));
}

#[test]
fn raw_join_on_empty_stack_underflows() {
    let mut stack = Stack::new();
    match raw_join(&mut stack, 1) {
        Err(e) => assert!(matches!(e.kinds[0], VmErrorKind::StackUnderflow)),
        Ok(()) => panic!("expected an underflow"),
    }
    assert_eq!(stack.len(), 0);
}

#[test]
fn module_exposes_join() {
    let m = module();
    assert_eq!(m.crate_name, "std");
    assert_eq!(m.item, vec!["future"]);
    assert_eq!(m.types, vec![TypeKind::Future]);
    assert_eq!(m.functions.len(), 1);
    assert_eq!(m.functions[0].name, "join");
    assert_eq!(m.functions[0].args, 1);
    assert!(m.functions[0].is_async);
}
