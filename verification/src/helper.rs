//! Small helpers for front ends.

use vstd::prelude::*;

verus! {

/// The English name of a line-clear count, as used in T-Spin
/// announcements: "Zero" through "Triple", and empty beyond.
pub fn tspin_num_to_en_str_long(n: u8) -> (r: &'static str)
    ensures
        n == 0 ==> r@ == "Zero"@,
        n == 1 ==> r@ == "Single"@,
        n == 2 ==> r@ == "Double"@,
        n == 3 ==> r@ == "Triple"@,
        n > 3 ==> r@ == ""@,
{
    match n {
        0 => "Zero",
        1 => "Single",
        2 => "Double",
        3 => "Triple",
        _ => "",
    }
}

} // verus!
