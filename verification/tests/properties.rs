//! Sequential evaluation, nested and empty inputs, agreement between
//! the two evaluation modes, and failure propagation.

use broadcaster::apply::run1;
use broadcaster::apply::run2;
use broadcaster::apply::run3;
use broadcaster::value::EvalMode;
use broadcaster::value::Value;

fn s(n: usize) -> Value<usize> {
    Value::Scalar(n)
}

fn c(elems: Vec<Value<usize>>) -> Value<usize> {
    Value::Collection(elems)
}

fn add_one(num: usize) -> Result<usize, String> {
    Ok(num + 1)
}

fn add(left: usize, right: usize) -> Result<usize, String> {
    Ok(left + right)
}

fn tri_add(first: usize, second: usize, third: usize) -> Result<usize, String> {
    Ok(first + second + third)
}

fn small_double(num: usize) -> Result<usize, String> {
    if num > 10 {
        Err(format!("too large: {}", num))
    } else {
        Ok(num * 2)
    }
}

#[test]
fn sequential_monadic_array() {
    let result = run1(&add_one, &c(vec![s(2), s(3)]), EvalMode::Sequential);
    assert_eq!(result, Ok(c(vec![s(3), s(4)])));
}

#[test]
fn sequential_dyadic_2d_array() {
    let result = run2(&add, &c(vec![s(2), s(3)]), &c(vec![s(4), s(5)]), EvalMode::Sequential);
    assert_eq!(
        result,
        Ok(c(vec![c(vec![s(6), s(7)]), c(vec![s(7), s(8)])]))
    );
}

#[test]
fn sequential_triadic_scalar() {
    let result = run3(&tri_add, &s(1), &s(2), &s(3), EvalMode::Sequential);
    assert_eq!(result, Ok(s(6)));
}

#[test]
fn parallel_matches_sequential() {
    let a = c(vec![s(2), s(3), s(5), s(7)]);
    let b = c(vec![s(10), s(20)]);
    let seq = run2(&add, &a, &b, EvalMode::Sequential);
    let par = run2(&add, &a, &b, EvalMode::Parallel);
    assert_eq!(seq, par);
}

#[test]
fn nested_input_is_mapped_at_every_level() {
    let v = c(vec![c(vec![s(1), s(2)]), c(vec![s(3)]), s(4)]);
    let result = run1(&add_one, &v, EvalMode::Sequential);
    assert_eq!(
        result,
        Ok(c(vec![c(vec![s(2), s(3)]), c(vec![s(4)]), s(5)]))
    );
}

#[test]
fn empty_collection_monadic() {
    let result = run1(&add_one, &c(vec![]), EvalMode::Parallel);
    assert_eq!(result, Ok(c(vec![])));
}

#[test]
fn empty_collection_dyadic_first_arg() {
    let result = run2(&add, &c(vec![]), &c(vec![s(1), s(2)]), EvalMode::Sequential);
    assert_eq!(result, Ok(c(vec![])));
}

#[test]
fn length_preserved_per_level() {
    let a = c(vec![s(1), s(2), s(3)]);
    let b = c(vec![s(4), s(5)]);
    let result = run2(&add, &a, &b, EvalMode::Sequential).unwrap();
    match result {
        Value::Collection(outer) => {
            assert_eq!(outer.len(), 3);
            for inner in outer {
                match inner {
                    Value::Collection(elems) => assert_eq!(elems.len(), 2),
                    Value::Scalar(_) => panic!("expected an inner collection"),
                }
            }
        }
        Value::Scalar(_) => panic!("expected a collection"),
    }
}

#[test]
fn failure_aborts_scalar() {
    let result = run1(&small_double, &s(11), EvalMode::Sequential);
    assert_eq!(result, Err("too large: 11".to_string()));
}

#[test]
fn failure_aborts_collection_sequential() {
    let result = run1(&small_double, &c(vec![s(1), s(42), s(2)]), EvalMode::Sequential);
    assert_eq!(result, Err("too large: 42".to_string()));
}

#[test]
fn failure_aborts_collection_parallel() {
    let result = run1(&small_double, &c(vec![s(1), s(42), s(2)]), EvalMode::Parallel);
    assert_eq!(result, Err("too large: 42".to_string()));
}

#[test]
fn failure_aborts_dyadic() {
    let f = |left: usize, right: usize| -> Result<usize, String> {
        left.checked_add(right).ok_or_else(|| "overflow".to_string())
    };
    let result = run2(&f, &c(vec![s(1), s(usize::MAX)]), &s(2), EvalMode::Sequential);
    assert_eq!(result, Err("overflow".to_string()));
}

#[test]
fn success_when_no_element_fails() {
    let result = run1(&small_double, &c(vec![s(1), s(5), s(10)]), EvalMode::Parallel);
    assert_eq!(result, Ok(c(vec![s(2), s(10), s(20)])));
}

#[test]
fn parallel_triadic_array_second_arg() {
    let result = run3(&tri_add, &s(2), &c(vec![s(0), s(1)]), &s(5), EvalMode::Parallel);
    assert_eq!(result, Ok(c(vec![s(7), s(8)])));
}

#[test]
fn parallel_triadic_array_third_arg() {
    let result = run3(&tri_add, &s(2), &s(3), &c(vec![s(4), s(6)]), EvalMode::Parallel);
    assert_eq!(result, Ok(c(vec![s(9), s(11)])));
}
