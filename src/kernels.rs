use vstd::prelude::*;

verus! {

/// The affine map `a * x + b`.
pub open spec fn affine(a: int, b: int, x: int) -> int {
    a * x + b
}

/// The scalar affine kernel body on integers.
pub fn affine_scalar(a: i64, b: i64, x: i64) -> (r: i64)
    requires
        i64::MIN <= a * x <= i64::MAX,
        i64::MIN <= affine(a as int, b as int, x as int) <= i64::MAX,
    ensures
        r == affine(a as int, b as int, x as int),
{
    a * x + b
}

} // verus!
