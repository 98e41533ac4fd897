//! Checked conversions between integer types.

use vstd::prelude::*;

verus! {

/// Converts to `i32` with `num_traits::ToPrimitive::to_i32`.
///
/// The conversion succeeds exactly when the value lies in the range of `i32`,
/// and then keeps the value.
#[verifier::external_body]
pub(crate) fn to_i32(value: i64) -> (r: Option<i32>)
    ensures
        r == (if i32::MIN <= value <= i32::MAX {
            Some(value as i32)
        } else {
            None
        }),
{
    num_traits::ToPrimitive::to_i32(&value)
}

/// Converts to `u32` with `num_traits::ToPrimitive::to_u32`.
///
/// The conversion succeeds exactly when the value lies in the range of `u32`,
/// and then keeps the value.
#[verifier::external_body]
pub(crate) fn to_u32(value: i64) -> (r: Option<u32>)
    ensures
        r == (if 0 <= value <= u32::MAX {
            Some(value as u32)
        } else {
            None
        }),
{
    num_traits::ToPrimitive::to_u32(&value)
}

/// Converts to `usize` with `num_traits::ToPrimitive::to_usize`.
///
/// The conversion succeeds exactly when the value lies in the range of
/// `usize`, and then keeps the value.
#[verifier::external_body]
pub(crate) fn to_usize(value: i64) -> (r: Option<usize>)
    ensures
        r == (if 0 <= value <= usize::MAX {
            Some(value as usize)
        } else {
            None
        }),
{
    num_traits::ToPrimitive::to_usize(&value)
}

} // verus!
