use vstd::prelude::*;

pub mod errors;
pub mod order;
pub mod limit_value;
pub mod interval_limit;
pub mod interval;
pub mod laws;
pub mod interval_seq;

pub use crate::errors::Error;
pub use crate::limit_value::LimitValue;
pub use crate::interval_limit::IntervalLimit;
pub use crate::interval::Interval;
pub use crate::interval_seq::{IntervalSeq, Ordered};

verus! {

/// Turns a sign (-1, 0 or 1) into an `Ordering`.
pub fn to_ordering(n: i8) -> (r: std::cmp::Ordering)
    requires
        -1 <= n <= 1,
    ensures
        n == -1 ==> r == std::cmp::Ordering::Less,
        n == 0 ==> r == std::cmp::Ordering::Equal,
        n == 1 ==> r == std::cmp::Ordering::Greater,
{
    if n < 0 {
        std::cmp::Ordering::Less
    } else if n == 0 {
        std::cmp::Ordering::Equal
    } else {
        std::cmp::Ordering::Greater
    }
}

} // verus!
