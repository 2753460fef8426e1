//! The mean of whole numbers.

use vstd::prelude::*;

verus! {

/// The numbers added up.
pub open spec fn sum(values: Seq<i32>) -> int
    decreases values.len(),
{
    if values.len() == 0 {
        0
    } else {
        sum(values.drop_last()) + values.last()
    }
}

/// The sum of the first numbers, however many are taken, fits in 32 bits.
pub open spec fn sums_fit(values: Seq<i32>) -> bool {
    forall|k: int| 0 <= k <= values.len() ==> i32::MIN <= #[trigger] sum(values.take(k)) <= i32::MAX
}

/// The mean of the numbers, rounded towards zero.
pub fn avg(values: &Vec<i32>) -> (mean: i32)
    requires
        0 < values@.len() <= i32::MAX,
        sums_fit(values@),
    ensures
        mean == if sum(values@) >= 0 {
            sum(values@) / (values@.len() as int)
        } else {
            -((-sum(values@)) / (values@.len() as int))
        },
{
    let mut count: i32 = 0;
    let mut total: i32 = 0;
    let mut i: usize = 0;
    proof {
        assert(sum(values@.take(0)) == 0);
    }
    while i < values.len()
        invariant
            i <= values@.len() <= i32::MAX,
            sums_fit(values@),
            count == i,
            total == sum(values@.take(i as int)),
        decreases values@.len() - i,
    {
        proof {
            assert(values@.take(i + 1).drop_last() == values@.take(i as int));
            assert(values@.take(i + 1).last() == values@[i as int]);
            assert(i32::MIN <= sum(values@.take(i + 1)) <= i32::MAX);
        }
        count += 1;
        total += values[i];
        i += 1;
    }
    proof {
        assert(values@.take(values@.len() as int) == values@);
    }
    total / count
}

} // verus!
