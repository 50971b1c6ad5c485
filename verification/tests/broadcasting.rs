//! The behavior of the three entry points on scalars, flat arrays and
//! nested arrays, under parallel element evaluation.

use broadcaster::apply::run1;
use broadcaster::apply::run2;
use broadcaster::apply::run3;
use broadcaster::value::EvalMode;
use broadcaster::value::Value;

fn s(n: usize) -> Value<usize> {
    Value::Scalar(n)
}

fn c(elems: Vec<Value<usize>>) -> Value<usize> {
    Value::Collection(elems)
}

fn add_one(num: usize) -> Result<usize, String> {
    Ok(num + 1)
}

fn add(left: usize, right: usize) -> Result<usize, String> {
    Ok(left + right)
}

fn tri_add(first: usize, second: usize, third: usize) -> Result<usize, String> {
    Ok(first + second + third)
}

#[test]
fn monadic() {
    let result = run1(&add_one, &s(2), EvalMode::Parallel);
    assert_eq!(result, Ok(s(3)));
}

#[test]
fn monadic_array() {
    let result = run1(&add_one, &c(vec![s(2), s(3)]), EvalMode::Parallel);
    assert_eq!(result, Ok(c(vec![s(3), s(4)])));
}

#[test]
fn dyadic() {
    let result = run2(&add, &s(2), &s(3), EvalMode::Parallel);
    assert_eq!(result, Ok(s(5)));
}

#[test]
fn dyadic_1d_array_first_arg() {
    let result = run2(&add, &c(vec![s(2), s(3)]), &s(2), EvalMode::Parallel);
    assert_eq!(result, Ok(c(vec![s(4), s(5)])));
}

#[test]
fn dyadic_1d_array_second_arg() {
    let result = run2(&add, &s(2), &c(vec![s(2), s(3)]), EvalMode::Parallel);
    assert_eq!(result, Ok(c(vec![s(4), s(5)])));
}

#[test]
fn dyadic_2d_array() {
    let result = run2(&add, &c(vec![s(2), s(3)]), &c(vec![s(4), s(5)]), EvalMode::Parallel);
    assert_eq!(
        result,
        Ok(c(vec![c(vec![s(6), s(7)]), c(vec![s(7), s(8)])]))
    );
}

#[test]
fn triadic() {
    let result = run3(&tri_add, &s(2), &s(3), &s(10), EvalMode::Parallel);
    assert_eq!(result, Ok(s(15)));
}

#[test]
fn triadic_1d_array_first_arg() {
    let result = run3(&tri_add, &c(vec![s(2), s(3)]), &s(2), &s(5), EvalMode::Parallel);
    assert_eq!(result, Ok(c(vec![s(9), s(10)])));
}

#[test]
fn triadic_3d_array() {
    let result = run3(
        &tri_add,
        &c(vec![s(2), s(3)]),
        &c(vec![s(0), s(1)]),
        &c(vec![s(4), s(6)]),
        EvalMode::Parallel,
    );
    assert_eq!(
        result,
        Ok(c(vec![
            c(vec![c(vec![s(6), s(8)]), c(vec![s(7), s(9)])]),
            c(vec![c(vec![s(7), s(9)]), c(vec![s(8), s(10)])]),
        ]))
    );
}
