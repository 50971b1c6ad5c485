//! The broadcasting applier itself: for each arity, a public entry
//! point that dispatches every argument on its shape — one application
//! for a scalar, an element-wise map for a collection — and composes
//! collection arguments as a full cross product. A failure of the
//! supplied function for any one element aborts the whole broadcast.

use vstd::prelude::*;
use crate::value::Value;
use crate::value::EvalMode;
use crate::model::has_scalar;
use crate::model::scalar_pair;
use crate::model::pre1;
use crate::model::maps1;
use crate::model::fails1;
use crate::model::lemma_collect1;
use crate::model::lemma_pre1_elem;
use crate::model::lemma_fails1_elem;
use crate::model::pre2;
use crate::model::maps2;
use crate::model::fails2;
use crate::model::scalar_pair2;
use crate::model::cross_shape2;
use crate::model::lemma_pre2_elem_a;
use crate::model::lemma_pre2_elem_b;
use crate::model::lemma_fails2_elem_a;
use crate::model::lemma_fails2_elem_b;
use crate::model::lemma_collect2_a;
use crate::model::lemma_collect2_b;
use crate::model::pre3;
use crate::model::maps3;
use crate::model::fails3;
use crate::model::scalar_pair3;
use crate::model::cross_shape3;
use crate::model::lemma_pre3_elem_a;
use crate::model::lemma_pre3_elem_b;
use crate::model::lemma_pre3_elem_c;
use crate::model::lemma_fails3_elem_a;
use crate::model::lemma_fails3_elem_b;
use crate::model::lemma_fails3_elem_c;
use crate::model::lemma_collect3_a;
use crate::model::lemma_collect3_b;
use crate::model::lemma_collect3_c;

verus! {

fn seq1<T: Copy, O, E, F: Fn(T) -> Result<O, E>>(f: &F, v: &Value<T>) -> (r: Result<Value<O>, E>)
    requires
        pre1(*f, *v),
    ensures
        r matches Ok(out) ==> maps1(*f, *v, out),
        r matches Err(e) ==> fails1(*f, *v, e),
    decreases *v,
{
    match v {
        Value::Scalar(x) => {
            proof {
                assert(has_scalar(*v, *x));
            }
            match f(*x) {
                Ok(y) => {
                    proof {
                        assert forall|x1: T, y1: O|
                            scalar_pair(*v, Value::Scalar(y), x1, y1)
                            implies #[trigger] call_ensures(f, (x1,), Ok(y1)) by {
                        }
                    }
                    Ok(Value::Scalar(y))
                },
                Err(e) => Err(e),
            }
        },
        Value::Collection(vs) => {
            let mut out: Vec<Value<O>> = Vec::new();
            let mut idx: usize = 0;
            while idx < vs.len()
                invariant
                    *v == Value::Collection(*vs),
                    pre1(*f, *v),
                    idx <= vs.len(),
                    out@.len() == idx,
                    forall|j: int| 0 <= j < idx ==> maps1(*f, vs@[j], #[trigger] out@[j]),
                decreases vs@.len() - idx,
            {
                proof {
                    lemma_pre1_elem(*f, *vs, idx as int);
                    assert(decreases_to!(*v => v->Collection_0));
                    assert(decreases_to!(v->Collection_0 => vs@));
                    assert(decreases_to!(vs@ => vs@[idx as int]));
                }
                match seq1(f, &vs[idx]) {
                    Ok(rv) => out.push(rv),
                    Err(e) => {
                        proof {
                            lemma_fails1_elem(*f, *vs, idx as int, e);
                        }
                        return Err(e);
                    },
                }
                idx += 1;
            }
            proof {
                lemma_collect1(*f, *vs, out);
            }
            Ok(Value::Collection(out))
        },
    }
}

/// Relies on rayon: `items.into_par_iter().map(..).collect()` into a
/// `Result` applies the closure to every element, keeps the outputs in
/// element order when all succeed, and otherwise returns the error of
/// some failed element (which one is unspecified when several fail).
/// The closure only calls the verified `seq1`.
#[verifier::external_body]
fn par1<T, O, E, F>(f: &F, items: &Vec<Value<T>>) -> (r: Result<Vec<Value<O>>, E>) where
    T: Copy + Sync,
    O: Send,
    E: Send,
    F: Fn(T) -> Result<O, E> + Sync,

    requires
        forall|i: int| 0 <= i < items@.len() ==> pre1(*f, #[trigger] items@[i]),
    ensures
        r matches Ok(out) ==> out@.len() == items@.len() && forall|i: int|
            0 <= i < items@.len() ==> maps1(*f, #[trigger] items@[i], out@[i]),
        r matches Err(e) ==> exists|i: int|
            0 <= i < items@.len() && fails1(*f, #[trigger] items@[i], e),
{
    rayon::iter::ParallelIterator::collect(rayon::iter::ParallelIterator::map(
        rayon::iter::IntoParallelIterator::into_par_iter(items),
        |it: &Value<T>| seq1(f, it),
    ))
}

/// Broadcast the 1-ary function `f` over `v`: apply it to the one
/// scalar, or map it over every element, sequentially or on parallel
/// workers. The result has the shape of `v` with each scalar replaced
/// by the function's output for it; a failure of `f` for any one
/// element aborts the broadcast and is returned instead.
pub fn run1<T, O, E, F>(f: &F, v: &Value<T>, mode: EvalMode) -> (r: Result<Value<O>, E>) where
    T: Copy + Sync,
    O: Send,
    E: Send,
    F: Fn(T) -> Result<O, E> + Sync,

    requires
        pre1(*f, *v),
    ensures
        r matches Ok(out) ==> maps1(*f, *v, out),
        r matches Err(e) ==> fails1(*f, *v, e),
        (forall|x: T, o: Result<O, E>|
            has_scalar(*v, x) && #[trigger] call_ensures(*f, (x,), o) ==> o is Ok) ==> r is Ok,
{
    match mode {
        EvalMode::Sequential => seq1(f, v),
        EvalMode::Parallel => match v {
            Value::Scalar(_) => seq1(f, v),
            Value::Collection(vs) => {
                proof {
                    assert forall|i: int| 0 <= i < vs@.len()
                        implies pre1(*f, #[trigger] vs@[i]) by {
                        lemma_pre1_elem(*f, *vs, i);
                    }
                }
                match par1(f, vs) {
                    Ok(out) => {
                        proof {
                            lemma_collect1(*f, *vs, out);
                        }
                        Ok(Value::Collection(out))
                    },
                    Err(e) => {
                        proof {
                            let i = choose|i: int|
                                0 <= i < vs@.len() && fails1(*f, #[trigger] vs@[i], e);
                            lemma_fails1_elem(*f, *vs, i, e);
                        }
                        Err(e)
                    },
                }
            },
        },
    }
}

fn seq2<T: Copy, O, E, F: Fn(T, T) -> Result<O, E>>(f: &F, a: &Value<T>, b: &Value<T>) -> (r:
    Result<Value<O>, E>)
    requires
        pre2(*f, *a, *b),
    ensures
        r matches Ok(out) ==> maps2(*f, *a, *b, out),
        r matches Err(e) ==> fails2(*f, *a, *b, e),
    decreases *a, *b,
{
    match a {
        Value::Scalar(x) => match b {
            Value::Scalar(y) => {
                proof {
                    assert(has_scalar(*a, *x));
                    assert(has_scalar(*b, *y));
                }
                match f(*x, *y) {
                    Ok(z) => {
                        proof {
                            assert forall|x1: T, y1: T, z1: O|
                                scalar_pair2(*a, *b, Value::Scalar(z), x1, y1, z1)
                                implies #[trigger] call_ensures(*f, (x1, y1), Ok(z1)) by {
                            }
                            assert(cross_shape2(*a, *b, Value::Scalar(z)));
                        }
                        Ok(Value::Scalar(z))
                    },
                    Err(e) => Err(e),
                }
            },
            Value::Collection(bs) => {
                let mut out: Vec<Value<O>> = Vec::new();
                let mut jdx: usize = 0;
                while jdx < bs.len()
                    invariant
                        *b == Value::Collection(*bs),
                        a is Scalar,
                        pre2(*f, *a, *b),
                        jdx <= bs.len(),
                        out@.len() == jdx,
                        forall|j: int| 0 <= j < jdx ==> maps2(*f, *a, bs@[j], #[trigger] out@[j]),
                    decreases bs@.len() - jdx,
                {
                    proof {
                        lemma_pre2_elem_b(*f, *a, *bs, jdx as int);
                        assert(decreases_to!(*b => b->Collection_0));
                        assert(decreases_to!(b->Collection_0 => bs@));
                        assert(decreases_to!(bs@ => bs@[jdx as int]));
                    }
                    match seq2(f, a, &bs[jdx]) {
                        Ok(rv) => out.push(rv),
                        Err(e) => {
                            proof {
                                lemma_fails2_elem_b(*f, *a, *bs, jdx as int, e);
                            }
                            return Err(e);
                        },
                    }
                    jdx += 1;
                }
                proof {
                    lemma_collect2_b(*f, *a, *bs, out);
                }
                Ok(Value::Collection(out))
            },
        },
        Value::Collection(as_) => {
            let mut out: Vec<Value<O>> = Vec::new();
            let mut idx: usize = 0;
            while idx < as_.len()
                invariant
                    *a == Value::Collection(*as_),
                    pre2(*f, *a, *b),
                    idx <= as_.len(),
                    out@.len() == idx,
                    forall|i: int| 0 <= i < idx ==> maps2(*f, as_@[i], *b, #[trigger] out@[i]),
                decreases as_@.len() - idx,
            {
                proof {
                    lemma_pre2_elem_a(*f, *as_, *b, idx as int);
                    assert(decreases_to!(*a => a->Collection_0));
                    assert(decreases_to!(a->Collection_0 => as_@));
                    assert(decreases_to!(as_@ => as_@[idx as int]));
                }
                match seq2(f, &as_[idx], b) {
                    Ok(rv) => out.push(rv),
                    Err(e) => {
                        proof {
                            lemma_fails2_elem_a(*f, *as_, *b, idx as int, e);
                        }
                        return Err(e);
                    },
                }
                idx += 1;
            }
            proof {
                lemma_collect2_a(*f, *as_, *b, out);
            }
            Ok(Value::Collection(out))
        },
    }
}

/// Relies on rayon, as `par1` does; the closure only calls the
/// verified `seq2`, with each element in the first position.
#[verifier::external_body]
fn par2_first<T, O, E, F>(f: &F, items: &Vec<Value<T>>, b: &Value<T>) -> (r: Result<
    Vec<Value<O>>,
    E,
>) where T: Copy + Sync, O: Send, E: Send, F: Fn(T, T) -> Result<O, E> + Sync
    requires
        forall|i: int| 0 <= i < items@.len() ==> pre2(*f, #[trigger] items@[i], *b),
    ensures
        r matches Ok(out) ==> out@.len() == items@.len() && forall|i: int|
            0 <= i < items@.len() ==> maps2(*f, #[trigger] items@[i], *b, out@[i]),
        r matches Err(e) ==> exists|i: int|
            0 <= i < items@.len() && fails2(*f, #[trigger] items@[i], *b, e),
{
    rayon::iter::ParallelIterator::collect(rayon::iter::ParallelIterator::map(
        rayon::iter::IntoParallelIterator::into_par_iter(items),
        |it: &Value<T>| seq2(f, it, b),
    ))
}

/// Relies on rayon, as `par1` does; the closure only calls the
/// verified `seq2`, with each element in the second position.
#[verifier::external_body]
fn par2_second<T, O, E, F>(f: &F, a: &Value<T>, items: &Vec<Value<T>>) -> (r: Result<
    Vec<Value<O>>,
    E,
>) where T: Copy + Sync, O: Send, E: Send, F: Fn(T, T) -> Result<O, E> + Sync
    requires
        forall|j: int| 0 <= j < items@.len() ==> pre2(*f, *a, #[trigger] items@[j]),
    ensures
        r matches Ok(out) ==> out@.len() == items@.len() && forall|j: int|
            0 <= j < items@.len() ==> maps2(*f, *a, #[trigger] items@[j], out@[j]),
        r matches Err(e) ==> exists|j: int|
            0 <= j < items@.len() && fails2(*f, *a, #[trigger] items@[j], e),
{
    rayon::iter::ParallelIterator::collect(rayon::iter::ParallelIterator::map(
        rayon::iter::IntoParallelIterator::into_par_iter(items),
        |it: &Value<T>| seq2(f, a, it),
    ))
}

/// Broadcast the 2-ary function `f` over `a` and `b`. A scalar
/// argument is passed as it is; collection arguments combine as a
/// full cross product, `a` forming the outer nesting level. Under
/// parallel evaluation the elements of the outermost collection are
/// handed to parallel workers, in input order.
pub fn run2<T, O, E, F>(f: &F, a: &Value<T>, b: &Value<T>, mode: EvalMode) -> (r: Result<
    Value<O>,
    E,
>) where T: Copy + Sync, O: Send, E: Send, F: Fn(T, T) -> Result<O, E> + Sync
    requires
        pre2(*f, *a, *b),
    ensures
        r matches Ok(out) ==> maps2(*f, *a, *b, out),
        r matches Err(e) ==> fails2(*f, *a, *b, e),
        (forall|x: T, y: T, o: Result<O, E>|
            has_scalar(*a, x) && has_scalar(*b, y) && #[trigger] call_ensures(*f, (x, y), o)
                ==> o is Ok) ==> r is Ok,
{
    match mode {
        EvalMode::Sequential => seq2(f, a, b),
        EvalMode::Parallel => match a {
            Value::Collection(as_) => {
                proof {
                    assert forall|i: int| 0 <= i < as_@.len()
                        implies pre2(*f, #[trigger] as_@[i], *b) by {
                        lemma_pre2_elem_a(*f, *as_, *b, i);
                    }
                }
                match par2_first(f, as_, b) {
                    Ok(out) => {
                        proof {
                            lemma_collect2_a(*f, *as_, *b, out);
                        }
                        Ok(Value::Collection(out))
                    },
                    Err(e) => {
                        proof {
                            let i = choose|i: int|
                                0 <= i < as_@.len() && fails2(*f, #[trigger] as_@[i], *b, e);
                            lemma_fails2_elem_a(*f, *as_, *b, i, e);
                        }
                        Err(e)
                    },
                }
            },
            Value::Scalar(_) => match b {
                Value::Collection(bs) => {
                    proof {
                        assert forall|j: int| 0 <= j < bs@.len()
                            implies pre2(*f, *a, #[trigger] bs@[j]) by {
                            lemma_pre2_elem_b(*f, *a, *bs, j);
                        }
                    }
                    match par2_second(f, a, bs) {
                        Ok(out) => {
                            proof {
                                lemma_collect2_b(*f, *a, *bs, out);
                            }
                            Ok(Value::Collection(out))
                        },
                        Err(e) => {
                            proof {
                                let j = choose|j: int|
                                    0 <= j < bs@.len() && fails2(*f, *a, #[trigger] bs@[j], e);
                                lemma_fails2_elem_b(*f, *a, *bs, j, e);
                            }
                            Err(e)
                        },
                    }
                },
                Value::Scalar(_) => seq2(f, a, b),
            },
        },
    }
}

fn seq3<T: Copy, O, E, F: Fn(T, T, T) -> Result<O, E>>(
    f: &F,
    a: &Value<T>,
    b: &Value<T>,
    c: &Value<T>,
) -> (r: Result<Value<O>, E>)
    requires
        pre3(*f, *a, *b, *c),
    ensures
        r matches Ok(out) ==> maps3(*f, *a, *b, *c, out),
        r matches Err(e) ==> fails3(*f, *a, *b, *c, e),
    decreases *a, *b, *c,
{
    match a {
        Value::Collection(as_) => {
            let mut out: Vec<Value<O>> = Vec::new();
            let mut idx: usize = 0;
            while idx < as_.len()
                invariant
                    *a == Value::Collection(*as_),
                    pre3(*f, *a, *b, *c),
                    idx <= as_.len(),
                    out@.len() == idx,
                    forall|i: int| 0 <= i < idx ==> maps3(*f, as_@[i], *b, *c, #[trigger] out@[i]),
                decreases as_@.len() - idx,
            {
                proof {
                    lemma_pre3_elem_a(*f, *as_, *b, *c, idx as int);
                    assert(decreases_to!(*a => a->Collection_0));
                    assert(decreases_to!(a->Collection_0 => as_@));
                    assert(decreases_to!(as_@ => as_@[idx as int]));
                }
                match seq3(f, &as_[idx], b, c) {
                    Ok(rv) => out.push(rv),
                    Err(e) => {
                        proof {
                            lemma_fails3_elem_a(*f, *as_, *b, *c, idx as int, e);
                        }
                        return Err(e);
                    },
                }
                idx += 1;
            }
            proof {
                lemma_collect3_a(*f, *as_, *b, *c, out);
            }
            Ok(Value::Collection(out))
        },
        Value::Scalar(x) => match b {
            Value::Collection(bs) => {
                let mut out: Vec<Value<O>> = Vec::new();
                let mut jdx: usize = 0;
                while jdx < bs.len()
                    invariant
                        *b == Value::Collection(*bs),
                        a is Scalar,
                        pre3(*f, *a, *b, *c),
                        jdx <= bs.len(),
                        out@.len() == jdx,
                        forall|j: int| 0 <= j < jdx ==> maps3(*f, *a, bs@[j], *c, #[trigger] out@[j]),
                    decreases bs@.len() - jdx,
                {
                    proof {
                        lemma_pre3_elem_b(*f, *a, *bs, *c, jdx as int);
                        assert(decreases_to!(*b => b->Collection_0));
                        assert(decreases_to!(b->Collection_0 => bs@));
                        assert(decreases_to!(bs@ => bs@[jdx as int]));
                    }
                    match seq3(f, a, &bs[jdx], c) {
                        Ok(rv) => out.push(rv),
                        Err(e) => {
                            proof {
                                lemma_fails3_elem_b(*f, *a, *bs, *c, jdx as int, e);
                            }
                            return Err(e);
                        },
                    }
                    jdx += 1;
                }
                proof {
                    lemma_collect3_b(*f, *a, *bs, *c, out);
                }
                Ok(Value::Collection(out))
            },
            Value::Scalar(y) => match c {
                Value::Collection(cs) => {
                    let mut out: Vec<Value<O>> = Vec::new();
                    let mut kdx: usize = 0;
                    while kdx < cs.len()
                        invariant
                            *c == Value::Collection(*cs),
                            a is Scalar,
                            b is Scalar,
                            pre3(*f, *a, *b, *c),
                            kdx <= cs.len(),
                            out@.len() == kdx,
                            forall|k: int| 0 <= k < kdx
                                ==> maps3(*f, *a, *b, cs@[k], #[trigger] out@[k]),
                        decreases cs@.len() - kdx,
                    {
                        proof {
                            lemma_pre3_elem_c(*f, *a, *b, *cs, kdx as int);
                            assert(decreases_to!(*c => c->Collection_0));
                            assert(decreases_to!(c->Collection_0 => cs@));
                            assert(decreases_to!(cs@ => cs@[kdx as int]));
                        }
                        match seq3(f, a, b, &cs[kdx]) {
                            Ok(rv) => out.push(rv),
                            Err(e) => {
                                proof {
                                    lemma_fails3_elem_c(*f, *a, *b, *cs, kdx as int, e);
                                }
                                return Err(e);
                            },
                        }
                        kdx += 1;
                    }
                    proof {
                        lemma_collect3_c(*f, *a, *b, *cs, out);
                    }
                    Ok(Value::Collection(out))
                },
                Value::Scalar(z) => {
                    proof {
                        assert(has_scalar(*a, *x));
                        assert(has_scalar(*b, *y));
                        assert(has_scalar(*c, *z));
                    }
                    match f(*x, *y, *z) {
                        Ok(w) => {
                            proof {
                                assert forall|x1: T, y1: T, z1: T, w1: O|
                                    scalar_pair3(*a, *b, *c, Value::Scalar(w), x1, y1, z1, w1)
                                    implies #[trigger] call_ensures(*f, (x1, y1, z1), Ok(w1)) by {
                                }
                                assert(cross_shape3(*a, *b, *c, Value::Scalar(w)));
                            }
                            Ok(Value::Scalar(w))
                        },
                        Err(e) => Err(e),
                    }
                },
            },
        },
    }
}

/// Relies on rayon, as `par1` does; the closure only calls the
/// verified `seq3`, with each element in the first position.
#[verifier::external_body]
fn par3_first<T, O, E, F>(f: &F, items: &Vec<Value<T>>, b: &Value<T>, c: &Value<T>) -> (r: Result<
    Vec<Value<O>>,
    E,
>) where T: Copy + Sync, O: Send, E: Send, F: Fn(T, T, T) -> Result<O, E> + Sync
    requires
        forall|i: int| 0 <= i < items@.len() ==> pre3(*f, #[trigger] items@[i], *b, *c),
    ensures
        r matches Ok(out) ==> out@.len() == items@.len() && forall|i: int|
            0 <= i < items@.len() ==> maps3(*f, #[trigger] items@[i], *b, *c, out@[i]),
        r matches Err(e) ==> exists|i: int|
            0 <= i < items@.len() && fails3(*f, #[trigger] items@[i], *b, *c, e),
{
    rayon::iter::ParallelIterator::collect(rayon::iter::ParallelIterator::map(
        rayon::iter::IntoParallelIterator::into_par_iter(items),
        |it: &Value<T>| seq3(f, it, b, c),
    ))
}

/// Relies on rayon, as `par1` does; the closure only calls the
/// verified `seq3`, with each element in the second position.
#[verifier::external_body]
fn par3_second<T, O, E, F>(f: &F, a: &Value<T>, items: &Vec<Value<T>>, c: &Value<T>) -> (r: Result<
    Vec<Value<O>>,
    E,
>) where T: Copy + Sync, O: Send, E: Send, F: Fn(T, T, T) -> Result<O, E> + Sync
    requires
        forall|j: int| 0 <= j < items@.len() ==> pre3(*f, *a, #[trigger] items@[j], *c),
    ensures
        r matches Ok(out) ==> out@.len() == items@.len() && forall|j: int|
            0 <= j < items@.len() ==> maps3(*f, *a, #[trigger] items@[j], *c, out@[j]),
        r matches Err(e) ==> exists|j: int|
            0 <= j < items@.len() && fails3(*f, *a, #[trigger] items@[j], *c, e),
{
    rayon::iter::ParallelIterator::collect(rayon::iter::ParallelIterator::map(
        rayon::iter::IntoParallelIterator::into_par_iter(items),
        |it: &Value<T>| seq3(f, a, it, c),
    ))
}

/// Relies on rayon, as `par1` does; the closure only calls the
/// verified `seq3`, with each element in the third position.
#[verifier::external_body]
fn par3_third<T, O, E, F>(f: &F, a: &Value<T>, b: &Value<T>, items: &Vec<Value<T>>) -> (r: Result<
    Vec<Value<O>>,
    E,
>) where T: Copy + Sync, O: Send, E: Send, F: Fn(T, T, T) -> Result<O, E> + Sync
    requires
        forall|k: int| 0 <= k < items@.len() ==> pre3(*f, *a, *b, #[trigger] items@[k]),
    ensures
        r matches Ok(out) ==> out@.len() == items@.len() && forall|k: int|
            0 <= k < items@.len() ==> maps3(*f, *a, *b, #[trigger] items@[k], out@[k]),
        r matches Err(e) ==> exists|k: int|
            0 <= k < items@.len() && fails3(*f, *a, *b, #[trigger] items@[k], e),
{
    rayon::iter::ParallelIterator::collect(rayon::iter::ParallelIterator::map(
        rayon::iter::IntoParallelIterator::into_par_iter(items),
        |it: &Value<T>| seq3(f, a, b, it),
    ))
}

/// Broadcast the 3-ary function `f` over `a`, `b` and `c`. Scalar
/// arguments are passed as they are; collection arguments combine as
/// a full cross product in argument order, `a` outermost. Under
/// parallel evaluation the elements of the outermost collection are
/// handed to parallel workers, in input order.
pub fn run3<T, O, E, F>(
    f: &F,
    a: &Value<T>,
    b: &Value<T>,
    c: &Value<T>,
    mode: EvalMode,
) -> (r: Result<Value<O>, E>) where
    T: Copy + Sync,
    O: Send,
    E: Send,
    F: Fn(T, T, T) -> Result<O, E> + Sync,

    requires
        pre3(*f, *a, *b, *c),
    ensures
        r matches Ok(out) ==> maps3(*f, *a, *b, *c, out),
        r matches Err(e) ==> fails3(*f, *a, *b, *c, e),
        (forall|x: T, y: T, z: T, o: Result<O, E>|
            has_scalar(*a, x) && has_scalar(*b, y) && has_scalar(*c, z)
                && #[trigger] call_ensures(*f, (x, y, z), o) ==> o is Ok) ==> r is Ok,
{
    match mode {
        EvalMode::Sequential => seq3(f, a, b, c),
        EvalMode::Parallel => match a {
            Value::Collection(as_) => {
                proof {
                    assert forall|i: int| 0 <= i < as_@.len()
                        implies pre3(*f, #[trigger] as_@[i], *b, *c) by {
                        lemma_pre3_elem_a(*f, *as_, *b, *c, i);
                    }
                }
                match par3_first(f, as_, b, c) {
                    Ok(out) => {
                        proof {
                            lemma_collect3_a(*f, *as_, *b, *c, out);
                        }
                        Ok(Value::Collection(out))
                    },
                    Err(e) => {
                        proof {
                            let i = choose|i: int|
                                0 <= i < as_@.len() && fails3(*f, #[trigger] as_@[i], *b, *c, e);
                            lemma_fails3_elem_a(*f, *as_, *b, *c, i, e);
                        }
                        Err(e)
                    },
                }
            },
            Value::Scalar(_) => match b {
                Value::Collection(bs) => {
                    proof {
                        assert forall|j: int| 0 <= j < bs@.len()
                            implies pre3(*f, *a, #[trigger] bs@[j], *c) by {
                            lemma_pre3_elem_b(*f, *a, *bs, *c, j);
                        }
                    }
                    match par3_second(f, a, bs, c) {
                        Ok(out) => {
                            proof {
                                lemma_collect3_b(*f, *a, *bs, *c, out);
                            }
                            Ok(Value::Collection(out))
                        },
                        Err(e) => {
                            proof {
                                let j = choose|j: int|
                                    0 <= j < bs@.len() && fails3(*f, *a, #[trigger] bs@[j], *c, e);
                                lemma_fails3_elem_b(*f, *a, *bs, *c, j, e);
                            }
                            Err(e)
                        },
                    }
                },
                Value::Scalar(_) => match c {
                    Value::Collection(cs) => {
                        proof {
                            assert forall|k: int| 0 <= k < cs@.len()
                                implies pre3(*f, *a, *b, #[trigger] cs@[k]) by {
                                lemma_pre3_elem_c(*f, *a, *b, *cs, k);
                            }
                        }
                        match par3_third(f, a, b, cs) {
                            Ok(out) => {
                                proof {
                                    lemma_collect3_c(*f, *a, *b, *cs, out);
                                }
                                Ok(Value::Collection(out))
                            },
                            Err(e) => {
                                proof {
                                    let k = choose|k: int|
                                        0 <= k < cs@.len()
                                            && fails3(*f, *a, *b, #[trigger] cs@[k], e);
                                    lemma_fails3_elem_c(*f, *a, *b, *cs, k, e);
                                }
                                Err(e)
                            },
                        }
                    },
                    Value::Scalar(_) => seq3(f, a, b, c),
                },
            },
        },
    }
}

} // verus!
