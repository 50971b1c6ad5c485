//! The mathematical model of broadcasting. Recursive predicates
//! describe the structure: which scalars a value holds, when two
//! values have the same shape, when an output value has the shape of
//! the cross product of several inputs, and which scalars stand at
//! corresponding positions. On top of them, one predicate per arity
//! relates the supplied function's contract to the inputs and to the
//! produced value (or to the error it failed with); the public
//! functions' contracts are stated over these.

use vstd::prelude::*;
use crate::value::Value;

verus! {

/// `x` is one of the scalars found somewhere inside `v`.
pub open spec fn has_scalar<T>(v: Value<T>, x: T) -> bool
    decreases v,
{
    match v {
        Value::Scalar(y) => y == x,
        Value::Collection(vs) => exists|i: int|
            0 <= i < vs@.len() && has_scalar(#[trigger] vs@[i], x),
    }
}

/// `r` has exactly the shape of `v`: scalar against scalar, and at
/// each nesting level a collection of the same length. This is the
/// shape of the result of a 1-ary broadcast over `v`.
pub open spec fn same_shape<T, O>(v: Value<T>, r: Value<O>) -> bool
    decreases v,
{
    match v {
        Value::Scalar(_) => r is Scalar,
        Value::Collection(vs) => r matches Value::Collection(rs) && rs@.len() == vs@.len()
            && forall|i: int| 0 <= i < vs@.len() ==> same_shape(#[trigger] vs@[i], rs@[i]),
    }
}

/// The scalar `x` of `v` and the scalar `y` of `r` stand at the same
/// position: the same index path leads to both.
pub open spec fn scalar_pair<T, O>(v: Value<T>, r: Value<O>, x: T, y: O) -> bool
    decreases v,
{
    match v {
        Value::Scalar(x0) => r matches Value::Scalar(y0) && x0 == x && y0 == y,
        Value::Collection(vs) => r matches Value::Collection(rs) && exists|i: int|
            0 <= i < vs@.len() && i < rs@.len() && scalar_pair(#[trigger] vs@[i], rs@[i], x, y),
    }
}

/// `a` and `b` are the same mathematical value: the same scalar, or
/// collections of the same length whose elements agree position by
/// position, recursively.
pub open spec fn value_eq<T>(a: Value<T>, b: Value<T>) -> bool
    decreases a,
{
    match a {
        Value::Scalar(x) => b matches Value::Scalar(y) && x == y,
        Value::Collection(vs) => b matches Value::Collection(ws) && ws@.len() == vs@.len()
            && forall|i: int| 0 <= i < vs@.len() ==> value_eq(#[trigger] vs@[i], ws@[i]),
    }
}

/// `r` has the shape of the cross product of `a` and `b`: the nesting
/// levels of `a` come outermost, each scalar of `a` contributing one
/// copy of the shape of `b`. A scalar argument contributes no level.
pub open spec fn cross_shape2<T, O>(a: Value<T>, b: Value<T>, r: Value<O>) -> bool
    decreases a,
{
    match a {
        Value::Scalar(_) => same_shape(b, r),
        Value::Collection(as_) => r matches Value::Collection(rs) && rs@.len() == as_@.len()
            && forall|i: int| 0 <= i < as_@.len() ==> cross_shape2(#[trigger] as_@[i], b, rs@[i]),
    }
}

/// The scalars `x` of `a` and `y` of `b`, taken together, lead to the
/// position of the scalar `z` of `r` in the cross-product shape.
pub open spec fn scalar_pair2<T, O>(a: Value<T>, b: Value<T>, r: Value<O>, x: T, y: T, z: O) -> bool
    decreases a,
{
    match a {
        Value::Scalar(x0) => x0 == x && scalar_pair(b, r, y, z),
        Value::Collection(as_) => r matches Value::Collection(rs) && exists|i: int|
            0 <= i < as_@.len() && i < rs@.len() && scalar_pair2(#[trigger] as_@[i], b, rs@[i], x, y, z),
    }
}

/// `r` has the shape of the cross product of `a`, `b` and `c`, in
/// argument order, the first argument outermost.
pub open spec fn cross_shape3<T, O>(a: Value<T>, b: Value<T>, c: Value<T>, r: Value<O>) -> bool
    decreases a,
{
    match a {
        Value::Scalar(_) => cross_shape2(b, c, r),
        Value::Collection(as_) => r matches Value::Collection(rs) && rs@.len() == as_@.len()
            && forall|i: int| 0 <= i < as_@.len() ==> cross_shape3(#[trigger] as_@[i], b, c, rs@[i]),
    }
}

/// The scalars `x` of `a`, `y` of `b` and `z` of `c`, taken together,
/// lead to the position of the scalar `w` of `r`.
pub open spec fn scalar_pair3<T, O>(
    a: Value<T>,
    b: Value<T>,
    c: Value<T>,
    r: Value<O>,
    x: T,
    y: T,
    z: T,
    w: O,
) -> bool
    decreases a,
{
    match a {
        Value::Scalar(x0) => x0 == x && scalar_pair2(b, c, r, y, z, w),
        Value::Collection(as_) => r matches Value::Collection(rs) && exists|i: int|
            0 <= i < as_@.len() && i < rs@.len()
                && scalar_pair3(#[trigger] as_@[i], b, c, rs@[i], x, y, z, w),
    }
}

/// A scalar of an element of a collection is a scalar of the
/// collection itself.
pub proof fn lemma_has_scalar_elem<T>(vs: Vec<Value<T>>, i: int, x: T)
    requires
        0 <= i < vs@.len(),
        has_scalar(vs@[i], x),
    ensures
        has_scalar(Value::Collection(vs), x),
{
    assert(Value::Collection(vs)->Collection_0 == vs);
}

/// The supplied 1-ary function may be called on every scalar of `v`.
#[verifier::inline]
pub open spec fn pre1<T, O, E, F: Fn(T) -> Result<O, E>>(f: F, v: Value<T>) -> bool {
    forall|x: T| has_scalar(v, x) ==> #[trigger] call_requires(f, (x,))
}

/// `r` is a result of broadcasting the 1-ary function `f` over `v`:
/// `r` has the shape of `v`, and the scalar of `r` at each position is
/// an output `f` admits for the scalar of `v` at that position.
#[verifier::inline]
pub open spec fn maps1<T, O, E, F: Fn(T) -> Result<O, E>>(f: F, v: Value<T>, r: Value<O>) -> bool {
    same_shape(v, r) && forall|x: T, y: O|
        scalar_pair(v, r, x, y) ==> #[trigger] call_ensures(f, (x,), Ok(y))
}

/// Broadcasting the 1-ary function `f` over `v` may fail with the
/// error `e`: some scalar of `v` admits `Err(e)` as an outcome of `f`.
#[verifier::inline]
pub open spec fn fails1<T, O, E, F: Fn(T) -> Result<O, E>>(f: F, v: Value<T>, e: E) -> bool {
    exists|x: T| #[trigger] has_scalar(v, x) && call_ensures(f, (x,), Err(e))
}

/// The supplied 2-ary function may be called on every combination of
/// a scalar of `a` and a scalar of `b`.
#[verifier::inline]
pub open spec fn pre2<T, O, E, F: Fn(T, T) -> Result<O, E>>(f: F, a: Value<T>, b: Value<T>) -> bool {
    forall|x: T, y: T|
        has_scalar(a, x) && has_scalar(b, y) ==> #[trigger] call_requires(f, (x, y))
}

/// `r` is a result of broadcasting the 2-ary function `f` over `a`
/// and `b`: `r` has their cross-product shape, and the scalar at each
/// position is an output `f` admits for the pair of scalars that lead
/// there.
#[verifier::inline]
pub open spec fn maps2<T, O, E, F: Fn(T, T) -> Result<O, E>>(
    f: F,
    a: Value<T>,
    b: Value<T>,
    r: Value<O>,
) -> bool {
    cross_shape2(a, b, r) && forall|x: T, y: T, z: O|
        scalar_pair2(a, b, r, x, y, z) ==> #[trigger] call_ensures(f, (x, y), Ok(z))
}

/// Broadcasting the 2-ary function `f` over `a` and `b` may fail with
/// the error `e`: some combination of scalars admits `Err(e)`.
#[verifier::inline]
pub open spec fn fails2<T, O, E, F: Fn(T, T) -> Result<O, E>>(
    f: F,
    a: Value<T>,
    b: Value<T>,
    e: E,
) -> bool {
    exists|x: T, y: T|
        #[trigger] has_scalar(a, x) && #[trigger] has_scalar(b, y)
            && call_ensures(f, (x, y), Err(e))
}

/// The supplied 3-ary function may be called on every combination of
/// scalars of `a`, `b` and `c`.
#[verifier::inline]
pub open spec fn pre3<T, O, E, F: Fn(T, T, T) -> Result<O, E>>(
    f: F,
    a: Value<T>,
    b: Value<T>,
    c: Value<T>,
) -> bool {
    forall|x: T, y: T, z: T|
        has_scalar(a, x) && has_scalar(b, y) && has_scalar(c, z)
            ==> #[trigger] call_requires(f, (x, y, z))
}

/// `r` is a result of broadcasting the 3-ary function `f` over `a`,
/// `b` and `c`: `r` has their cross-product shape, and the scalar at
/// each position is an output `f` admits for the three scalars that
/// lead there.
#[verifier::inline]
pub open spec fn maps3<T, O, E, F: Fn(T, T, T) -> Result<O, E>>(
    f: F,
    a: Value<T>,
    b: Value<T>,
    c: Value<T>,
    r: Value<O>,
) -> bool {
    cross_shape3(a, b, c, r) && forall|x: T, y: T, z: T, w: O|
        scalar_pair3(a, b, c, r, x, y, z, w) ==> #[trigger] call_ensures(f, (x, y, z), Ok(w))
}

/// Broadcasting the 3-ary function `f` over `a`, `b` and `c` may fail
/// with the error `e`: some combination of scalars admits `Err(e)`.
#[verifier::inline]
pub open spec fn fails3<T, O, E, F: Fn(T, T, T) -> Result<O, E>>(
    f: F,
    a: Value<T>,
    b: Value<T>,
    c: Value<T>,
    e: E,
) -> bool {
    exists|x: T, y: T, z: T|
        #[trigger] has_scalar(a, x) && #[trigger] has_scalar(b, y)
            && #[trigger] has_scalar(c, z) && call_ensures(f, (x, y, z), Err(e))
}

/// A function applicable to every scalar of a collection is
/// applicable to every scalar of each of its elements.
pub proof fn lemma_pre1_elem<T, O, E, F: Fn(T) -> Result<O, E>>(f: F, vs: Vec<Value<T>>, i: int)
    requires
        pre1(f, Value::Collection(vs)),
        0 <= i < vs@.len(),
    ensures
        pre1(f, vs@[i]),
{
    assert forall|x: T| has_scalar(vs@[i], x) implies #[trigger] call_requires(f, (x,)) by {
        lemma_has_scalar_elem(vs, i, x);
    }
}

/// A failure on an element of a collection is a failure on the
/// collection itself.
pub proof fn lemma_fails1_elem<T, O, E, F: Fn(T) -> Result<O, E>>(
    f: F,
    vs: Vec<Value<T>>,
    i: int,
    e: E,
)
    requires
        0 <= i < vs@.len(),
        fails1(f, vs@[i], e),
    ensures
        fails1(f, Value::Collection(vs), e),
{
    let x0 = choose|x: T| #[trigger] has_scalar(vs@[i], x) && call_ensures(f, (x,), Err(e));
    lemma_has_scalar_elem(vs, i, x0);
}

/// From results for every element of a collection to a result for the
/// collection itself.
pub proof fn lemma_collect1<T, O, E, F: Fn(T) -> Result<O, E>>(f: F, vs: Vec<Value<T>>, rs: Vec<Value<O>>)
    requires
        rs@.len() == vs@.len(),
        forall|i: int| 0 <= i < vs@.len() ==> maps1(f, vs@[i], #[trigger] rs@[i]),
    ensures
        maps1(f, Value::Collection(vs), Value::Collection(rs)),
{
    assert forall|i: int| 0 <= i < vs@.len() implies same_shape(#[trigger] vs@[i], rs@[i]) by {
        assert(maps1(f, vs@[i], rs@[i]));
    }
    assert(same_shape(Value::Collection(vs), Value::Collection(rs)));
    assert forall|x: T, y: O|
        scalar_pair(Value::Collection(vs), Value::Collection(rs), x, y)
        implies #[trigger] call_ensures(f, (x,), Ok(y)) by {
        let i = choose|i: int|
            0 <= i < vs@.len() && i < rs@.len() && scalar_pair(#[trigger] vs@[i], rs@[i], x, y);
        assert(maps1(f, vs@[i], rs@[i]));
    }
}

/// A 2-ary function applicable to all scalar combinations of a
/// collection and `b` is so applicable for each of its elements.
pub proof fn lemma_pre2_elem_a<T, O, E, F: Fn(T, T) -> Result<O, E>>(
    f: F,
    as_: Vec<Value<T>>,
    b: Value<T>,
    i: int,
)
    requires
        pre2(f, Value::Collection(as_), b),
        0 <= i < as_@.len(),
    ensures
        pre2(f, as_@[i], b),
{
    assert forall|x: T, y: T| has_scalar(as_@[i], x) && has_scalar(b, y)
        implies #[trigger] call_requires(f, (x, y)) by {
        lemma_has_scalar_elem(as_, i, x);
    }
}

/// As above, for an element of a collection in the second position.
pub proof fn lemma_pre2_elem_b<T, O, E, F: Fn(T, T) -> Result<O, E>>(
    f: F,
    a: Value<T>,
    bs: Vec<Value<T>>,
    j: int,
)
    requires
        pre2(f, a, Value::Collection(bs)),
        0 <= j < bs@.len(),
    ensures
        pre2(f, a, bs@[j]),
{
    assert forall|x: T, y: T| has_scalar(a, x) && has_scalar(bs@[j], y)
        implies #[trigger] call_requires(f, (x, y)) by {
        lemma_has_scalar_elem(bs, j, y);
    }
}

/// A failure against an element of a first-position collection is a
/// failure against the collection.
pub proof fn lemma_fails2_elem_a<T, O, E, F: Fn(T, T) -> Result<O, E>>(
    f: F,
    as_: Vec<Value<T>>,
    b: Value<T>,
    i: int,
    e: E,
)
    requires
        0 <= i < as_@.len(),
        fails2(f, as_@[i], b, e),
    ensures
        fails2(f, Value::Collection(as_), b, e),
{
    let (x0, y0) = choose|x: T, y: T|
        #[trigger] has_scalar(as_@[i], x) && #[trigger] has_scalar(b, y)
            && call_ensures(f, (x, y), Err(e));
    lemma_has_scalar_elem(as_, i, x0);
}

/// As above, for an element of a collection in the second position.
pub proof fn lemma_fails2_elem_b<T, O, E, F: Fn(T, T) -> Result<O, E>>(
    f: F,
    a: Value<T>,
    bs: Vec<Value<T>>,
    j: int,
    e: E,
)
    requires
        0 <= j < bs@.len(),
        fails2(f, a, bs@[j], e),
    ensures
        fails2(f, a, Value::Collection(bs), e),
{
    let (x0, y0) = choose|x: T, y: T|
        #[trigger] has_scalar(a, x) && #[trigger] has_scalar(bs@[j], y)
            && call_ensures(f, (x, y), Err(e));
    lemma_has_scalar_elem(bs, j, y0);
}

/// From 2-ary results for every element of a first-position collection
/// to a result for the collection itself.
pub proof fn lemma_collect2_a<T, O, E, F: Fn(T, T) -> Result<O, E>>(
    f: F,
    as_: Vec<Value<T>>,
    b: Value<T>,
    rs: Vec<Value<O>>,
)
    requires
        rs@.len() == as_@.len(),
        forall|i: int| 0 <= i < as_@.len() ==> maps2(f, as_@[i], b, #[trigger] rs@[i]),
    ensures
        maps2(f, Value::Collection(as_), b, Value::Collection(rs)),
{
    assert forall|i: int| 0 <= i < as_@.len()
        implies cross_shape2(#[trigger] as_@[i], b, rs@[i]) by {
        assert(maps2(f, as_@[i], b, rs@[i]));
    }
    assert(cross_shape2(Value::Collection(as_), b, Value::Collection(rs)));
    assert forall|x: T, y: T, z: O|
        scalar_pair2(Value::Collection(as_), b, Value::Collection(rs), x, y, z)
        implies #[trigger] call_ensures(f, (x, y), Ok(z)) by {
        let i = choose|i: int|
            0 <= i < as_@.len() && i < rs@.len()
                && scalar_pair2(#[trigger] as_@[i], b, rs@[i], x, y, z);
        assert(maps2(f, as_@[i], b, rs@[i]));
    }
}

/// From 2-ary results against every element of a second-position
/// collection, the first argument being a scalar, to a result against
/// the collection itself.
pub proof fn lemma_collect2_b<T, O, E, F: Fn(T, T) -> Result<O, E>>(
    f: F,
    a: Value<T>,
    bs: Vec<Value<T>>,
    rs: Vec<Value<O>>,
)
    requires
        a is Scalar,
        rs@.len() == bs@.len(),
        forall|j: int| 0 <= j < bs@.len() ==> maps2(f, a, bs@[j], #[trigger] rs@[j]),
    ensures
        maps2(f, a, Value::Collection(bs), Value::Collection(rs)),
{
    assert forall|j: int| 0 <= j < bs@.len()
        implies same_shape(#[trigger] bs@[j], rs@[j]) by {
        assert(maps2(f, a, bs@[j], rs@[j]));
    }
    assert(same_shape(Value::Collection(bs), Value::Collection(rs)));
    assert forall|x: T, y: T, z: O|
        scalar_pair2(a, Value::Collection(bs), Value::Collection(rs), x, y, z)
        implies #[trigger] call_ensures(f, (x, y), Ok(z)) by {
        let j = choose|j: int|
            0 <= j < bs@.len() && j < rs@.len() && scalar_pair(#[trigger] bs@[j], rs@[j], y, z);
        assert(maps2(f, a, bs@[j], rs@[j]));
        assert(scalar_pair2(a, bs@[j], rs@[j], x, y, z));
    }
}

/// A 3-ary function applicable to all scalar combinations of a
/// collection, `b` and `c` is so applicable for each of its elements.
pub proof fn lemma_pre3_elem_a<T, O, E, F: Fn(T, T, T) -> Result<O, E>>(
    f: F,
    as_: Vec<Value<T>>,
    b: Value<T>,
    c: Value<T>,
    i: int,
)
    requires
        pre3(f, Value::Collection(as_), b, c),
        0 <= i < as_@.len(),
    ensures
        pre3(f, as_@[i], b, c),
{
    assert forall|x: T, y: T, z: T|
        has_scalar(as_@[i], x) && has_scalar(b, y) && has_scalar(c, z)
        implies #[trigger] call_requires(f, (x, y, z)) by {
        lemma_has_scalar_elem(as_, i, x);
    }
}

/// As above, for an element of a collection in the second position.
pub proof fn lemma_pre3_elem_b<T, O, E, F: Fn(T, T, T) -> Result<O, E>>(
    f: F,
    a: Value<T>,
    bs: Vec<Value<T>>,
    c: Value<T>,
    j: int,
)
    requires
        pre3(f, a, Value::Collection(bs), c),
        0 <= j < bs@.len(),
    ensures
        pre3(f, a, bs@[j], c),
{
    assert forall|x: T, y: T, z: T|
        has_scalar(a, x) && has_scalar(bs@[j], y) && has_scalar(c, z)
        implies #[trigger] call_requires(f, (x, y, z)) by {
        lemma_has_scalar_elem(bs, j, y);
    }
}

/// As above, for an element of a collection in the third position.
pub proof fn lemma_pre3_elem_c<T, O, E, F: Fn(T, T, T) -> Result<O, E>>(
    f: F,
    a: Value<T>,
    b: Value<T>,
    cs: Vec<Value<T>>,
    k: int,
)
    requires
        pre3(f, a, b, Value::Collection(cs)),
        0 <= k < cs@.len(),
    ensures
        pre3(f, a, b, cs@[k]),
{
    assert forall|x: T, y: T, z: T|
        has_scalar(a, x) && has_scalar(b, y) && has_scalar(cs@[k], z)
        implies #[trigger] call_requires(f, (x, y, z)) by {
        lemma_has_scalar_elem(cs, k, z);
    }
}

/// A 3-ary failure against an element of a first-position collection
/// is a failure against the collection.
pub proof fn lemma_fails3_elem_a<T, O, E, F: Fn(T, T, T) -> Result<O, E>>(
    f: F,
    as_: Vec<Value<T>>,
    b: Value<T>,
    c: Value<T>,
    i: int,
    e: E,
)
    requires
        0 <= i < as_@.len(),
        fails3(f, as_@[i], b, c, e),
    ensures
        fails3(f, Value::Collection(as_), b, c, e),
{
    let (x0, y0, z0) = choose|x: T, y: T, z: T|
        #[trigger] has_scalar(as_@[i], x) && #[trigger] has_scalar(b, y)
            && #[trigger] has_scalar(c, z) && call_ensures(f, (x, y, z), Err(e));
    lemma_has_scalar_elem(as_, i, x0);
}

/// As above, for an element of a collection in the second position.
pub proof fn lemma_fails3_elem_b<T, O, E, F: Fn(T, T, T) -> Result<O, E>>(
    f: F,
    a: Value<T>,
    bs: Vec<Value<T>>,
    c: Value<T>,
    j: int,
    e: E,
)
    requires
        0 <= j < bs@.len(),
        fails3(f, a, bs@[j], c, e),
    ensures
        fails3(f, a, Value::Collection(bs), c, e),
{
    let (x0, y0, z0) = choose|x: T, y: T, z: T|
        #[trigger] has_scalar(a, x) && #[trigger] has_scalar(bs@[j], y)
            && #[trigger] has_scalar(c, z) && call_ensures(f, (x, y, z), Err(e));
    lemma_has_scalar_elem(bs, j, y0);
}

/// As above, for an element of a collection in the third position.
pub proof fn lemma_fails3_elem_c<T, O, E, F: Fn(T, T, T) -> Result<O, E>>(
    f: F,
    a: Value<T>,
    b: Value<T>,
    cs: Vec<Value<T>>,
    k: int,
    e: E,
)
    requires
        0 <= k < cs@.len(),
        fails3(f, a, b, cs@[k], e),
    ensures
        fails3(f, a, b, Value::Collection(cs), e),
{
    let (x0, y0, z0) = choose|x: T, y: T, z: T|
        #[trigger] has_scalar(a, x) && #[trigger] has_scalar(b, y)
            && #[trigger] has_scalar(cs@[k], z) && call_ensures(f, (x, y, z), Err(e));
    lemma_has_scalar_elem(cs, k, z0);
}

/// From 3-ary results for every element of a first-position collection
/// to a result for the collection itself.
pub proof fn lemma_collect3_a<T, O, E, F: Fn(T, T, T) -> Result<O, E>>(
    f: F,
    as_: Vec<Value<T>>,
    b: Value<T>,
    c: Value<T>,
    rs: Vec<Value<O>>,
)
    requires
        rs@.len() == as_@.len(),
        forall|i: int| 0 <= i < as_@.len() ==> maps3(f, as_@[i], b, c, #[trigger] rs@[i]),
    ensures
        maps3(f, Value::Collection(as_), b, c, Value::Collection(rs)),
{
    assert forall|i: int| 0 <= i < as_@.len()
        implies cross_shape3(#[trigger] as_@[i], b, c, rs@[i]) by {
        assert(maps3(f, as_@[i], b, c, rs@[i]));
    }
    assert(cross_shape3(Value::Collection(as_), b, c, Value::Collection(rs)));
    assert forall|x: T, y: T, z: T, w: O|
        scalar_pair3(Value::Collection(as_), b, c, Value::Collection(rs), x, y, z, w)
        implies #[trigger] call_ensures(f, (x, y, z), Ok(w)) by {
        let i = choose|i: int|
            0 <= i < as_@.len() && i < rs@.len()
                && scalar_pair3(#[trigger] as_@[i], b, c, rs@[i], x, y, z, w);
        assert(maps3(f, as_@[i], b, c, rs@[i]));
    }
}

/// From 3-ary results against every element of a second-position
/// collection, the first argument being a scalar, to a result against
/// the collection itself.
pub proof fn lemma_collect3_b<T, O, E, F: Fn(T, T, T) -> Result<O, E>>(
    f: F,
    a: Value<T>,
    bs: Vec<Value<T>>,
    c: Value<T>,
    rs: Vec<Value<O>>,
)
    requires
        a is Scalar,
        rs@.len() == bs@.len(),
        forall|j: int| 0 <= j < bs@.len() ==> maps3(f, a, bs@[j], c, #[trigger] rs@[j]),
    ensures
        maps3(f, a, Value::Collection(bs), c, Value::Collection(rs)),
{
    assert forall|j: int| 0 <= j < bs@.len()
        implies cross_shape2(#[trigger] bs@[j], c, rs@[j]) by {
        assert(maps3(f, a, bs@[j], c, rs@[j]));
    }
    assert(cross_shape2(Value::Collection(bs), c, Value::Collection(rs)));
    assert(cross_shape3(a, Value::Collection(bs), c, Value::Collection(rs)));
    assert forall|x: T, y: T, z: T, w: O|
        scalar_pair3(a, Value::Collection(bs), c, Value::Collection(rs), x, y, z, w)
        implies #[trigger] call_ensures(f, (x, y, z), Ok(w)) by {
        let j = choose|j: int|
            0 <= j < bs@.len() && j < rs@.len()
                && scalar_pair2(#[trigger] bs@[j], c, rs@[j], y, z, w);
        assert(maps3(f, a, bs@[j], c, rs@[j]));
        assert(scalar_pair3(a, bs@[j], c, rs@[j], x, y, z, w));
    }
}

/// From 3-ary results against every element of a third-position
/// collection, the first two arguments being scalars, to a result
/// against the collection itself.
pub proof fn lemma_collect3_c<T, O, E, F: Fn(T, T, T) -> Result<O, E>>(
    f: F,
    a: Value<T>,
    b: Value<T>,
    cs: Vec<Value<T>>,
    rs: Vec<Value<O>>,
)
    requires
        a is Scalar,
        b is Scalar,
        rs@.len() == cs@.len(),
        forall|k: int| 0 <= k < cs@.len() ==> maps3(f, a, b, cs@[k], #[trigger] rs@[k]),
    ensures
        maps3(f, a, b, Value::Collection(cs), Value::Collection(rs)),
{
    assert forall|k: int| 0 <= k < cs@.len()
        implies same_shape(#[trigger] cs@[k], rs@[k]) by {
        assert(maps3(f, a, b, cs@[k], rs@[k]));
    }
    assert(same_shape(Value::Collection(cs), Value::Collection(rs)));
    assert(cross_shape3(a, b, Value::Collection(cs), Value::Collection(rs)));
    assert forall|x: T, y: T, z: T, w: O|
        scalar_pair3(a, b, Value::Collection(cs), Value::Collection(rs), x, y, z, w)
        implies #[trigger] call_ensures(f, (x, y, z), Ok(w)) by {
        let k = choose|k: int|
            0 <= k < cs@.len() && k < rs@.len() && scalar_pair(#[trigger] cs@[k], rs@[k], z, w);
        assert(maps3(f, a, b, cs@[k], rs@[k]));
        assert(scalar_pair3(a, b, cs@[k], rs@[k], x, y, z, w));
    }
}

} // verus!
