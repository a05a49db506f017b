//! Totals over lists of counts.

use vstd::prelude::*;

verus! {

/// The sum of the successors of the entries of `s`: every entry counts for
/// itself and one more.
pub open spec fn successor_sum(s: Seq<i32>) -> int
    decreases s.len(),
{
    if s.len() == 0 {
        0
    } else {
        successor_sum(s.drop_last()) + s.last() + 1
    }
}

/// Every entry has a successor in `i32`, and so has every running total
/// met while adding the successors up from the front.
pub open spec fn sum_fits(s: Seq<i32>) -> bool {
    &&& forall|i: int| 0 <= i < s.len() ==> #[trigger] s[i] < i32::MAX
    &&& forall|k: int|
        0 <= k <= s.len() ==> i32::MIN <= #[trigger] successor_sum(s.take(k)) <= i32::MAX
}

/// Adds up the successors of the entries of `input`, front to back.
pub fn sum(input: Vec<i32>) -> (total: i32)
    requires
        sum_fits(input@),
    ensures
        total == successor_sum(input@),
{
    let mut total: i32 = 0;
    let mut i: usize = 0;
    while i < input.len()
        invariant
            0 <= i <= input.len(),
            sum_fits(input@),
            total == successor_sum(input@.take(i as int)),
        decreases input.len() - i,
    {
        proof {
            let next = input@.take(i + 1);
            assert(next.drop_last() =~= input@.take(i as int));
            assert(next.last() == input@[i as int]);
            assert(successor_sum(next) == total + input@[i as int] + 1);
        }
        total = total + (input[i] + 1);
        i = i + 1;
    }
    proof {
        assert(input@.take(input.len() as int) =~= input@);
    }
    total
}

} // verus!
