//! Overflow-aware addition on `u8`, under every policy the standard library
//! offers, and a range-checked narrowing conversion.

use vstd::prelude::*;

verus! {

/// What one addition yields under each overflow policy.
pub struct AdditionOutcomes {
    /// `None` exactly when the sum does not fit.
    pub checked: Option<u8>,
    /// The sum reduced modulo 256.
    pub wrapping: u8,
    /// The sum capped at `u8::MAX`.
    pub saturating: u8,
    /// The wrapped sum, again.
    pub overflowing: u8,
    /// Whether the sum overflowed.
    pub overflowed: bool,
}

/// Adds `a` and `b` under every overflow policy at once.
pub fn add_with_all_policies(a: u8, b: u8) -> (r: AdditionOutcomes)
    ensures
        r.checked == if a + b <= u8::MAX {
            Some((a + b) as u8)
        } else {
            None::<u8>
        },
        r.wrapping == (a + b) % 256,
        r.saturating == if a + b <= u8::MAX {
            (a + b) as u8
        } else {
            u8::MAX
        },
        r.overflowing == r.wrapping,
        r.overflowed <==> a + b > u8::MAX,
{
    let checked = a.checked_add(b);
    let wrapping = a.wrapping_add(b);
    let saturating = a.saturating_add(b);
    let (overflowing, overflowed) = match checked {
        Some(v) => (v, false),
        None => (wrapping, true),
    };
    AdditionOutcomes { checked, wrapping, saturating, overflowing, overflowed }
}

/// Narrows an `i32` to a `u8`; `None` exactly when the value is out of range.
pub fn u8_from_i32(n: i32) -> (r: Option<u8>)
    ensures
        r is Some <==> 0 <= n <= u8::MAX,
        r is Some ==> r->0 == n,
{
    match u8::try_from(n) {
        Ok(v) => Some(v),
        Err(_) => None,
    }
}

/// Adds `a` and `b` by checking first and substituting `u8::MAX` on
/// overflow; agrees with the saturating policy.
pub fn add_or_max(a: u8, b: u8) -> (r: u8)
    ensures
        r == if a + b <= u8::MAX {
            (a + b) as u8
        } else {
            u8::MAX
        },
{
    if let Some(sum) = a.checked_add(b) {
        sum
    } else {
        u8::MAX
    }
}

} // verus!
