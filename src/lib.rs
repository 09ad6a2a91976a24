//! Geometry core for shadow rendering: exact value types for points, segments
//! and transforms, and the extraction of a mesh's unique edges together with the
//! triangles that own them.
pub mod edges;
pub mod math;

pub use edges::{calculate_edges, Caster, IndexedLine};
pub use math::{Line3, Mat4, Triangle3, Vec3};

use vstd::prelude::*;

verus! {

/// The sum of the integers in `s`.
pub open spec fn sum_of(s: Seq<i32>) -> int
    decreases s.len(),
{
    if s.len() == 0 {
        0
    } else {
        sum_of(s.drop_last()) + s.last()
    }
}

/// Every running total of `s`, from the left, fits in an `i32`.
pub open spec fn partial_sums_fit(s: Seq<i32>) -> bool {
    forall|k: int| 0 <= k <= s.len() ==> i32::MIN <= #[trigger] sum_of(s.take(k)) <= i32::MAX
}

/// Sums a buffer of integers.
pub fn test_sum(arr: &[i32]) -> (r: i32)
    requires
        partial_sums_fit(arr@),
    ensures
        r == sum_of(arr@),
{
    let mut total: i32 = 0;
    let mut i: usize = 0;
    while i < arr.len()
        invariant
            0 <= i <= arr@.len(),
            partial_sums_fit(arr@),
            total == sum_of(arr@.take(i as int)),
        decreases arr@.len() - i,
    {
        assert(arr@.take(i + 1).drop_last() =~= arr@.take(i as int));
        assert(i32::MIN <= sum_of(arr@.take(i + 1)) <= i32::MAX);
        total = total + arr[i];
        i = i + 1;
    }
    assert(arr@.take(arr@.len() as int) =~= arr@);
    total
}

/// A freshly allocated buffer holding `1, 2, 3, 4, 5`, for a host to take over.
pub fn generate_dynamic_array() -> (r: Vec<i32>)
    ensures
        r@ == seq![1i32, 2, 3, 4, 5],
{
    let r = vec![1i32, 2, 3, 4, 5];
    assert(r@ =~= seq![1i32, 2, 3, 4, 5]);
    r
}

} // verus!
