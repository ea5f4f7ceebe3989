//! Arithmetic that stays in range.

use vstd::prelude::*;

verus! {

/// A product, or the largest number where the product is beyond it.
pub open spec fn bounded_product(a: u64, b: u64) -> int {
    if a * b > u64::MAX {
        u64::MAX as int
    } else {
        a * b
    }
}

/// A product, or the largest number where the product is beyond it.
pub fn saturating_product(a: u64, b: u64) -> (product: u64)
    ensures
        product == bounded_product(a, b),
{
    match a.checked_mul(b) {
        Some(product) => product,
        None => u64::MAX,
    }
}

/// A product is exact where it is in range and the largest number where it is
/// not; it never exceeds the true product.
pub proof fn lemma_products_stay_in_range(a: u64, b: u64)
    ensures
        0 <= bounded_product(a, b) <= u64::MAX,
        bounded_product(a, b) <= a * b,
        bounded_product(a, b) < a * b ==> bounded_product(a, b) == u64::MAX,
{
    assert(0 <= a * b) by (nonlinear_arith)
        requires
            0 <= a,
            0 <= b,
    ;
}

} // verus!
