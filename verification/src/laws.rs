//! General laws of the broadcasting relations, stated once and proved
//! for every input. The public functions' contracts speak in terms of
//! `maps1`, `maps2` and `maps3`; the laws here spell out what those
//! relations come to: a scalar broadcast is one plain application, a
//! collection broadcast is an element-wise map, shapes and lengths are
//! preserved level by level, a deterministic function admits exactly
//! one result whatever the evaluation mode, and a function that can
//! only fail on a reachable scalar admits no result at all.

use vstd::prelude::*;
use crate::value::Value;
use crate::model::has_scalar;
use crate::model::same_shape;
use crate::model::scalar_pair;
use crate::model::value_eq;
use crate::model::maps1;
use crate::model::maps2;
use crate::model::maps3;
use crate::model::cross_shape2;
use crate::model::cross_shape3;
use crate::model::scalar_pair2;
use crate::model::scalar_pair3;
use crate::model::lemma_collect1;

verus! {

/// Scalar identity: broadcasting a 1-ary function over a scalar is
/// exactly one application of the function, `r == Scalar(f(x))`.
pub proof fn lemma_scalar_identity<T, O, E, F: Fn(T) -> Result<O, E>>(f: F, x: T, r: Value<O>)
    ensures
        maps1(f, Value::Scalar(x), r) <==> (r matches Value::Scalar(y) && call_ensures(
            f,
            (x,),
            Ok(y),
        )),
{
    if maps1(f, Value::Scalar(x), r) {
        assert(scalar_pair(Value::Scalar(x), r, x, r->Scalar_0));
    }
    if r is Scalar && call_ensures(f, (x,), Ok(r->Scalar_0)) {
        assert(same_shape(Value::Scalar(x), r));
        assert forall|x1: T, y1: O| scalar_pair(Value::Scalar(x), r, x1, y1)
            implies #[trigger] call_ensures(f, (x1,), Ok(y1)) by {
        }
    }
}

/// Collection map law: broadcasting a 1-ary function over a
/// collection `[x1, ..., xn]` yields exactly `[f(x1), ..., f(xn)]` —
/// a collection of the same length whose element `i` is a broadcast
/// of `f` over element `i` of the input.
pub proof fn lemma_collection_map<T, O, E, F: Fn(T) -> Result<O, E>>(
    f: F,
    vs: Vec<Value<T>>,
    r: Value<O>,
)
    ensures
        maps1(f, Value::Collection(vs), r) <==> (r matches Value::Collection(rs) && rs@.len()
            == vs@.len() && forall|i: int| 0 <= i < vs@.len() ==> maps1(
            f,
            vs@[i],
            #[trigger] rs@[i],
        )),
{
    assert(Value::Collection(vs)->Collection_0 == vs);
    if maps1(f, Value::Collection(vs), r) {
        let rs = r->Collection_0;
        assert forall|i: int| 0 <= i < vs@.len() implies maps1(f, vs@[i], #[trigger] rs@[i]) by {
            assert(same_shape(vs@[i], rs@[i]));
            assert forall|x: T, y: O| scalar_pair(vs@[i], rs@[i], x, y)
                implies #[trigger] call_ensures(f, (x,), Ok(y)) by {
                assert(scalar_pair(Value::Collection(vs), r, x, y));
            }
        }
    }
    if r is Collection && r->Collection_0@.len() == vs@.len() && (forall|i: int|
        0 <= i < vs@.len() ==> maps1(f, vs@[i], #[trigger] r->Collection_0@[i])) {
        lemma_collect1(f, vs, r->Collection_0);
        assert(Value::Collection(r->Collection_0) == r);
    }
}

/// Length preservation for 1-ary broadcasts: the result has the shape
/// of the input — a scalar for a scalar, and at every nesting level a
/// collection of the same length as the input's.
pub proof fn lemma_length_preservation1<T, O, E, F: Fn(T) -> Result<O, E>>(
    f: F,
    v: Value<T>,
    r: Value<O>,
)
    requires
        maps1(f, v, r),
    ensures
        same_shape(v, r),
{
}

/// Length preservation for 2-ary broadcasts: the result has the
/// cross-product shape of the two inputs — each collection argument
/// contributes its own length at its own nesting level, in argument
/// order, and scalar arguments contribute no level.
pub proof fn lemma_length_preservation2<T, O, E, F: Fn(T, T) -> Result<O, E>>(
    f: F,
    a: Value<T>,
    b: Value<T>,
    r: Value<O>,
)
    requires
        maps2(f, a, b, r),
    ensures
        cross_shape2(a, b, r),
{
}

/// Length preservation for 3-ary broadcasts, as for 2-ary ones.
pub proof fn lemma_length_preservation3<T, O, E, F: Fn(T, T, T) -> Result<O, E>>(
    f: F,
    a: Value<T>,
    b: Value<T>,
    c: Value<T>,
    r: Value<O>,
)
    requires
        maps3(f, a, b, c, r),
    ensures
        cross_shape3(a, b, c, r),
{
}

/// Order preservation across evaluation modes: when the supplied
/// function admits only one output for each input, any two results of
/// broadcasting it over the same value — in particular one computed
/// sequentially and one computed on parallel workers, which meet the
/// same relation — agree element for element, in the same order.
pub proof fn lemma_mode_independent1<T, O, E, F: Fn(T) -> Result<O, E>>(
    f: F,
    v: Value<T>,
    r1: Value<O>,
    r2: Value<O>,
)
    requires
        maps1(f, v, r1),
        maps1(f, v, r2),
        forall|x: T, o1: Result<O, E>, o2: Result<O, E>|
            #[trigger] call_ensures(f, (x,), o1) && #[trigger] call_ensures(f, (x,), o2) ==> o1
                == o2,
    ensures
        value_eq(r1, r2),
    decreases v,
{
    match v {
        Value::Scalar(x) => {
            assert(scalar_pair(v, r1, x, r1->Scalar_0));
            assert(scalar_pair(v, r2, x, r2->Scalar_0));
            assert(call_ensures(f, (x,), Ok::<O, E>(r1->Scalar_0)));
            assert(call_ensures(f, (x,), Ok::<O, E>(r2->Scalar_0)));
        },
        Value::Collection(vs) => {
            lemma_collection_map(f, vs, r1);
            lemma_collection_map(f, vs, r2);
            let rs1 = r1->Collection_0;
            let rs2 = r2->Collection_0;
            assert forall|i: int| 0 <= i < vs@.len()
                implies value_eq(#[trigger] rs1@[i], rs2@[i]) by {
                assert(decreases_to!(v => v->Collection_0));
                assert(decreases_to!(v->Collection_0 => vs@));
                assert(decreases_to!(vs@ => vs@[i]));
                lemma_mode_independent1(f, vs@[i], rs1@[i], rs2@[i]);
            }
            assert(value_eq(r1, r2));
        },
    }
}

/// Every scalar reachable in the input is paired with some scalar of
/// the result of a broadcast of matching shape.
proof fn lemma_pair_exists<T, O>(v: Value<T>, r: Value<O>, x: T)
    requires
        has_scalar(v, x),
        same_shape(v, r),
    ensures
        exists|y: O| scalar_pair(v, r, x, y),
    decreases v,
{
    match v {
        Value::Scalar(_) => {
            assert(scalar_pair(v, r, x, r->Scalar_0));
        },
        Value::Collection(vs) => {
            let i = choose|i: int| 0 <= i < vs@.len() && has_scalar(#[trigger] vs@[i], x);
            let rs = r->Collection_0;
            assert(decreases_to!(v => v->Collection_0));
            assert(decreases_to!(v->Collection_0 => vs@));
            assert(decreases_to!(vs@ => vs@[i]));
            lemma_pair_exists(vs@[i], rs@[i], x);
            let y = choose|y: O| scalar_pair(vs@[i], rs@[i], x, y);
            assert(scalar_pair(v, r, x, y));
        },
    }
}

/// Failure propagation: if the supplied function cannot succeed on
/// some scalar that the input holds, then no result value satisfies
/// the broadcast relation — the broadcast can only fail.
pub proof fn lemma_failure_propagation1<T, O, E, F: Fn(T) -> Result<O, E>>(
    f: F,
    v: Value<T>,
    x: T,
    r: Value<O>,
)
    requires
        has_scalar(v, x),
        forall|y: O| !(#[trigger] call_ensures(f, (x,), Ok::<O, E>(y))),
    ensures
        !maps1(f, v, r),
{
    if maps1(f, v, r) {
        lemma_pair_exists(v, r, x);
        let y = choose|y: O| scalar_pair(v, r, x, y);
        assert(call_ensures(f, (x,), Ok(y)));
        assert(false);
    }
}

/// Cross-product map law, first position: broadcasting a 2-ary
/// function over a collection `[a1, ..., an]` and `b` yields a
/// collection of the same length whose element `i` is the broadcast
/// over `ai` and `b`.
pub proof fn lemma_cross_map_first<T, O, E, F: Fn(T, T) -> Result<O, E>>(
    f: F,
    as_: Vec<Value<T>>,
    b: Value<T>,
    r: Value<O>,
)
    requires
        maps2(f, Value::Collection(as_), b, r),
    ensures
        r is Collection,
        r->Collection_0@.len() == as_@.len(),
        forall|i: int| 0 <= i < as_@.len() ==> maps2(f, as_@[i], b, #[trigger] r->Collection_0@[i]),
    decreases Value::Collection(as_),
{
    assert(Value::Collection(as_)->Collection_0 == as_);
    let rs = r->Collection_0;
    assert forall|i: int| 0 <= i < as_@.len() implies maps2(f, as_@[i], b, #[trigger] rs@[i]) by {
        assert(cross_shape2(as_@[i], b, rs@[i]));
        assert forall|x: T, y: T, z: O| scalar_pair2(as_@[i], b, rs@[i], x, y, z)
            implies #[trigger] call_ensures(f, (x, y), Ok(z)) by {
            assert(scalar_pair2(Value::Collection(as_), b, r, x, y, z));
        }
    }
}

/// Cross-product map law, second position: broadcasting a 2-ary
/// function over a scalar `a` and a collection `[b1, ..., bn]` yields
/// a collection of the same length whose element `j` is the broadcast
/// over `a` and `bj`.
pub proof fn lemma_cross_map_second<T, O, E, F: Fn(T, T) -> Result<O, E>>(
    f: F,
    a: Value<T>,
    bs: Vec<Value<T>>,
    r: Value<O>,
)
    requires
        a is Scalar,
        maps2(f, a, Value::Collection(bs), r),
    ensures
        r is Collection,
        r->Collection_0@.len() == bs@.len(),
        forall|j: int| 0 <= j < bs@.len() ==> maps2(f, a, bs@[j], #[trigger] r->Collection_0@[j]),
{
    assert(Value::Collection(bs)->Collection_0 == bs);
    let rs = r->Collection_0;
    assert forall|j: int| 0 <= j < bs@.len() implies maps2(f, a, bs@[j], #[trigger] rs@[j]) by {
        assert(same_shape(bs@[j], rs@[j]));
        assert(cross_shape2(a, bs@[j], rs@[j]));
        assert forall|x: T, y: T, z: O| scalar_pair2(a, bs@[j], rs@[j], x, y, z)
            implies #[trigger] call_ensures(f, (x, y), Ok(z)) by {
            assert(scalar_pair(Value::Collection(bs), r, y, z));
            assert(scalar_pair2(a, Value::Collection(bs), r, x, y, z));
        }
    }
}

/// As `lemma_mode_independent1`, for 2-ary broadcasts: a
/// deterministic function admits exactly one cross-product result,
/// whatever the evaluation mode.
pub proof fn lemma_mode_independent2<T, O, E, F: Fn(T, T) -> Result<O, E>>(
    f: F,
    a: Value<T>,
    b: Value<T>,
    r1: Value<O>,
    r2: Value<O>,
)
    requires
        maps2(f, a, b, r1),
        maps2(f, a, b, r2),
        forall|x: T, y: T, o1: Result<O, E>, o2: Result<O, E>|
            #[trigger] call_ensures(f, (x, y), o1) && #[trigger] call_ensures(f, (x, y), o2)
                ==> o1 == o2,
    ensures
        value_eq(r1, r2),
    decreases a, b,
{
    match a {
        Value::Collection(as_) => {
            lemma_cross_map_first(f, as_, b, r1);
            lemma_cross_map_first(f, as_, b, r2);
            let rs1 = r1->Collection_0;
            let rs2 = r2->Collection_0;
            assert forall|i: int| 0 <= i < as_@.len()
                implies value_eq(#[trigger] rs1@[i], rs2@[i]) by {
                assert(decreases_to!(a => a->Collection_0));
                assert(decreases_to!(a->Collection_0 => as_@));
                assert(decreases_to!(as_@ => as_@[i]));
                lemma_mode_independent2(f, as_@[i], b, rs1@[i], rs2@[i]);
            }
            assert(value_eq(r1, r2));
        },
        Value::Scalar(x) => match b {
            Value::Collection(bs) => {
                lemma_cross_map_second(f, a, bs, r1);
                lemma_cross_map_second(f, a, bs, r2);
                let rs1 = r1->Collection_0;
                let rs2 = r2->Collection_0;
                assert forall|j: int| 0 <= j < bs@.len()
                    implies value_eq(#[trigger] rs1@[j], rs2@[j]) by {
                    assert(decreases_to!(b => b->Collection_0));
                    assert(decreases_to!(b->Collection_0 => bs@));
                    assert(decreases_to!(bs@ => bs@[j]));
                    lemma_mode_independent2(f, a, bs@[j], rs1@[j], rs2@[j]);
                }
                assert(value_eq(r1, r2));
            },
            Value::Scalar(y) => {
                assert(scalar_pair2(a, b, r1, x, y, r1->Scalar_0));
                assert(scalar_pair2(a, b, r2, x, y, r2->Scalar_0));
                assert(call_ensures(f, (x, y), Ok::<O, E>(r1->Scalar_0)));
                assert(call_ensures(f, (x, y), Ok::<O, E>(r2->Scalar_0)));
            },
        },
    }
}

/// Every pair of scalars reachable in the two inputs is paired with
/// some scalar of a result of matching cross-product shape.
proof fn lemma_pair_exists2<T, O>(a: Value<T>, b: Value<T>, r: Value<O>, x: T, y: T)
    requires
        has_scalar(a, x),
        has_scalar(b, y),
        cross_shape2(a, b, r),
    ensures
        exists|z: O| scalar_pair2(a, b, r, x, y, z),
    decreases a,
{
    match a {
        Value::Scalar(_) => {
            lemma_pair_exists(b, r, y);
            let z = choose|z: O| scalar_pair(b, r, y, z);
            assert(scalar_pair2(a, b, r, x, y, z));
        },
        Value::Collection(as_) => {
            let i = choose|i: int| 0 <= i < as_@.len() && has_scalar(#[trigger] as_@[i], x);
            let rs = r->Collection_0;
            assert(decreases_to!(a => a->Collection_0));
            assert(decreases_to!(a->Collection_0 => as_@));
            assert(decreases_to!(as_@ => as_@[i]));
            lemma_pair_exists2(as_@[i], b, rs@[i], x, y);
            let z = choose|z: O| scalar_pair2(as_@[i], b, rs@[i], x, y, z);
            assert(scalar_pair2(a, b, r, x, y, z));
        },
    }
}

/// Failure propagation for 2-ary broadcasts: if the supplied function
/// cannot succeed on some reachable pair of scalars, no result value
/// satisfies the broadcast relation.
pub proof fn lemma_failure_propagation2<T, O, E, F: Fn(T, T) -> Result<O, E>>(
    f: F,
    a: Value<T>,
    b: Value<T>,
    x: T,
    y: T,
    r: Value<O>,
)
    requires
        has_scalar(a, x),
        has_scalar(b, y),
        forall|z: O| !(#[trigger] call_ensures(f, (x, y), Ok::<O, E>(z))),
    ensures
        !maps2(f, a, b, r),
{
    if maps2(f, a, b, r) {
        lemma_pair_exists2(a, b, r, x, y);
        let z = choose|z: O| scalar_pair2(a, b, r, x, y, z);
        assert(call_ensures(f, (x, y), Ok(z)));
        assert(false);
    }
}

/// Cross-product map law for 3-ary broadcasts, first position.
pub proof fn lemma_cross_map3_first<T, O, E, F: Fn(T, T, T) -> Result<O, E>>(
    f: F,
    as_: Vec<Value<T>>,
    b: Value<T>,
    c: Value<T>,
    r: Value<O>,
)
    requires
        maps3(f, Value::Collection(as_), b, c, r),
    ensures
        r is Collection,
        r->Collection_0@.len() == as_@.len(),
        forall|i: int|
            0 <= i < as_@.len() ==> maps3(f, as_@[i], b, c, #[trigger] r->Collection_0@[i]),
{
    assert(Value::Collection(as_)->Collection_0 == as_);
    let rs = r->Collection_0;
    assert forall|i: int| 0 <= i < as_@.len() implies maps3(f, as_@[i], b, c, #[trigger] rs@[i]) by {
        assert(cross_shape3(as_@[i], b, c, rs@[i]));
        assert forall|x: T, y: T, z: T, w: O| scalar_pair3(as_@[i], b, c, rs@[i], x, y, z, w)
            implies #[trigger] call_ensures(f, (x, y, z), Ok(w)) by {
            assert(scalar_pair3(Value::Collection(as_), b, c, r, x, y, z, w));
        }
    }
}

/// Cross-product map law for 3-ary broadcasts, second position.
pub proof fn lemma_cross_map3_second<T, O, E, F: Fn(T, T, T) -> Result<O, E>>(
    f: F,
    a: Value<T>,
    bs: Vec<Value<T>>,
    c: Value<T>,
    r: Value<O>,
)
    requires
        a is Scalar,
        maps3(f, a, Value::Collection(bs), c, r),
    ensures
        r is Collection,
        r->Collection_0@.len() == bs@.len(),
        forall|j: int|
            0 <= j < bs@.len() ==> maps3(f, a, bs@[j], c, #[trigger] r->Collection_0@[j]),
{
    assert(Value::Collection(bs)->Collection_0 == bs);
    let rs = r->Collection_0;
    assert forall|j: int| 0 <= j < bs@.len() implies maps3(f, a, bs@[j], c, #[trigger] rs@[j]) by {
        assert(cross_shape2(bs@[j], c, rs@[j]));
        assert(cross_shape3(a, bs@[j], c, rs@[j]));
        assert forall|x: T, y: T, z: T, w: O| scalar_pair3(a, bs@[j], c, rs@[j], x, y, z, w)
            implies #[trigger] call_ensures(f, (x, y, z), Ok(w)) by {
            assert(scalar_pair2(bs@[j], c, rs@[j], y, z, w));
            assert(scalar_pair2(Value::Collection(bs), c, r, y, z, w));
            assert(scalar_pair3(a, Value::Collection(bs), c, r, x, y, z, w));
        }
    }
}

/// Cross-product map law for 3-ary broadcasts, third position.
pub proof fn lemma_cross_map3_third<T, O, E, F: Fn(T, T, T) -> Result<O, E>>(
    f: F,
    a: Value<T>,
    b: Value<T>,
    cs: Vec<Value<T>>,
    r: Value<O>,
)
    requires
        a is Scalar,
        b is Scalar,
        maps3(f, a, b, Value::Collection(cs), r),
    ensures
        r is Collection,
        r->Collection_0@.len() == cs@.len(),
        forall|k: int|
            0 <= k < cs@.len() ==> maps3(f, a, b, cs@[k], #[trigger] r->Collection_0@[k]),
{
    assert(Value::Collection(cs)->Collection_0 == cs);
    let rs = r->Collection_0;
    assert forall|k: int| 0 <= k < cs@.len() implies maps3(f, a, b, cs@[k], #[trigger] rs@[k]) by {
        assert(same_shape(cs@[k], rs@[k]));
        assert(cross_shape2(b, cs@[k], rs@[k]));
        assert(cross_shape3(a, b, cs@[k], rs@[k]));
        assert forall|x: T, y: T, z: T, w: O| scalar_pair3(a, b, cs@[k], rs@[k], x, y, z, w)
            implies #[trigger] call_ensures(f, (x, y, z), Ok(w)) by {
            assert(scalar_pair(cs@[k], rs@[k], z, w));
            assert(scalar_pair(Value::Collection(cs), r, z, w));
            assert(scalar_pair2(b, Value::Collection(cs), r, y, z, w));
            assert(scalar_pair3(a, b, Value::Collection(cs), r, x, y, z, w));
        }
    }
}

/// As `lemma_mode_independent1`, for 3-ary broadcasts.
pub proof fn lemma_mode_independent3<T, O, E, F: Fn(T, T, T) -> Result<O, E>>(
    f: F,
    a: Value<T>,
    b: Value<T>,
    c: Value<T>,
    r1: Value<O>,
    r2: Value<O>,
)
    requires
        maps3(f, a, b, c, r1),
        maps3(f, a, b, c, r2),
        forall|x: T, y: T, z: T, o1: Result<O, E>, o2: Result<O, E>|
            #[trigger] call_ensures(f, (x, y, z), o1) && #[trigger] call_ensures(f, (x, y, z), o2)
                ==> o1 == o2,
    ensures
        value_eq(r1, r2),
    decreases a, b, c,
{
    match a {
        Value::Collection(as_) => {
            lemma_cross_map3_first(f, as_, b, c, r1);
            lemma_cross_map3_first(f, as_, b, c, r2);
            let rs1 = r1->Collection_0;
            let rs2 = r2->Collection_0;
            assert forall|i: int| 0 <= i < as_@.len()
                implies value_eq(#[trigger] rs1@[i], rs2@[i]) by {
                assert(decreases_to!(a => a->Collection_0));
                assert(decreases_to!(a->Collection_0 => as_@));
                assert(decreases_to!(as_@ => as_@[i]));
                lemma_mode_independent3(f, as_@[i], b, c, rs1@[i], rs2@[i]);
            }
            assert(value_eq(r1, r2));
        },
        Value::Scalar(x) => match b {
            Value::Collection(bs) => {
                lemma_cross_map3_second(f, a, bs, c, r1);
                lemma_cross_map3_second(f, a, bs, c, r2);
                let rs1 = r1->Collection_0;
                let rs2 = r2->Collection_0;
                assert forall|j: int| 0 <= j < bs@.len()
                    implies value_eq(#[trigger] rs1@[j], rs2@[j]) by {
                    assert(decreases_to!(b => b->Collection_0));
                    assert(decreases_to!(b->Collection_0 => bs@));
                    assert(decreases_to!(bs@ => bs@[j]));
                    lemma_mode_independent3(f, a, bs@[j], c, rs1@[j], rs2@[j]);
                }
                assert(value_eq(r1, r2));
            },
            Value::Scalar(y) => match c {
                Value::Collection(cs) => {
                    lemma_cross_map3_third(f, a, b, cs, r1);
                    lemma_cross_map3_third(f, a, b, cs, r2);
                    let rs1 = r1->Collection_0;
                    let rs2 = r2->Collection_0;
                    assert forall|k: int| 0 <= k < cs@.len()
                        implies value_eq(#[trigger] rs1@[k], rs2@[k]) by {
                        assert(decreases_to!(c => c->Collection_0));
                        assert(decreases_to!(c->Collection_0 => cs@));
                        assert(decreases_to!(cs@ => cs@[k]));
                        lemma_mode_independent3(f, a, b, cs@[k], rs1@[k], rs2@[k]);
                    }
                    assert(value_eq(r1, r2));
                },
                Value::Scalar(z) => {
                    assert(scalar_pair3(a, b, c, r1, x, y, z, r1->Scalar_0));
                    assert(scalar_pair3(a, b, c, r2, x, y, z, r2->Scalar_0));
                    assert(call_ensures(f, (x, y, z), Ok::<O, E>(r1->Scalar_0)));
                    assert(call_ensures(f, (x, y, z), Ok::<O, E>(r2->Scalar_0)));
                },
            },
        },
    }
}

/// Every triple of scalars reachable in the three inputs is paired
/// with some scalar of a result of matching cross-product shape.
proof fn lemma_pair_exists3<T, O>(
    a: Value<T>,
    b: Value<T>,
    c: Value<T>,
    r: Value<O>,
    x: T,
    y: T,
    z: T,
)
    requires
        has_scalar(a, x),
        has_scalar(b, y),
        has_scalar(c, z),
        cross_shape3(a, b, c, r),
    ensures
        exists|w: O| scalar_pair3(a, b, c, r, x, y, z, w),
    decreases a,
{
    match a {
        Value::Scalar(_) => {
            lemma_pair_exists2(b, c, r, y, z);
            let w = choose|w: O| scalar_pair2(b, c, r, y, z, w);
            assert(scalar_pair3(a, b, c, r, x, y, z, w));
        },
        Value::Collection(as_) => {
            let i = choose|i: int| 0 <= i < as_@.len() && has_scalar(#[trigger] as_@[i], x);
            let rs = r->Collection_0;
            assert(decreases_to!(a => a->Collection_0));
            assert(decreases_to!(a->Collection_0 => as_@));
            assert(decreases_to!(as_@ => as_@[i]));
            lemma_pair_exists3(as_@[i], b, c, rs@[i], x, y, z);
            let w = choose|w: O| scalar_pair3(as_@[i], b, c, rs@[i], x, y, z, w);
            assert(scalar_pair3(a, b, c, r, x, y, z, w));
        },
    }
}

/// Failure propagation for 3-ary broadcasts, as for 2-ary ones.
pub proof fn lemma_failure_propagation3<T, O, E, F: Fn(T, T, T) -> Result<O, E>>(
    f: F,
    a: Value<T>,
    b: Value<T>,
    c: Value<T>,
    x: T,
    y: T,
    z: T,
    r: Value<O>,
)
    requires
        has_scalar(a, x),
        has_scalar(b, y),
        has_scalar(c, z),
        forall|w: O| !(#[trigger] call_ensures(f, (x, y, z), Ok::<O, E>(w))),
    ensures
        !maps3(f, a, b, c, r),
{
    if maps3(f, a, b, c, r) {
        lemma_pair_exists3(a, b, c, r, x, y, z);
        let w = choose|w: O| scalar_pair3(a, b, c, r, x, y, z, w);
        assert(call_ensures(f, (x, y, z), Ok(w)));
        assert(false);
    }
}

} // verus!
