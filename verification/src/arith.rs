use vstd::prelude::*;

verus! {

/// The value of `x.wrapping_add(y)`: the sum reduced modulo 2^64.
pub open spec fn wrapping_add_u64(x: u64, y: u64) -> u64 {
    if x + y > u64::MAX {
        (x + y - 0x1_0000_0000_0000_0000) as u64
    } else {
        (x + y) as u64
    }
}

/// The value of `x.saturating_sub(y)`.
pub open spec fn saturating_sub_u64(x: u64, y: u64) -> u64 {
    if x >= y {
        (x - y) as u64
    } else {
        0
    }
}

/// The value of `x.saturating_add(y)`.
pub open spec fn saturating_add_u64(x: u64, y: u64) -> u64 {
    if x + y > u64::MAX {
        u64::MAX
    } else {
        (x + y) as u64
    }
}

/// The smaller of two integers.
pub open spec fn min_u64(x: u64, y: u64) -> u64 {
    if x <= y {
        x
    } else {
        y
    }
}

} // verus!
