//! The values that successive shadowed rebindings of one name take.

use vstd::prelude::*;

verus! {

/// One rebinding: the name now holds its old value plus one.
pub fn shadowing(x: i32) -> (r: i32)
    requires
        x < i32::MAX,
    ensures
        r == x + 1,
{
    x + 1
}

/// The values a name takes across nested rebindings, outermost first: plus
/// one in the first scope, times ten in the second, back to plus one when
/// that scope ends, and the original value at the end.
pub fn multi_shadow(x: i32) -> (r: (i32, i32, i32, i32))
    requires
        i32::MIN <= 10 * (x + 1),
        10 * (x + 1) <= i32::MAX,
    ensures
        r.0 == x + 1,
        r.1 == 10 * (x + 1),
        r.2 == x + 1,
        r.3 == x,
{
    let level1 = x + 1;
    let level2 = level1 * 10;
    (level1, level2, level1, x)
}

} // verus!
