//! The periodic image offsets of the minimum-image convention.
//!
//! A periodic force sum visits, for every pair of particles, the 27 images of
//! the second particle: the zero offset and the 26 combinations of -1, 0 and
//! +1 per axis, each to be scaled by the boundary extent of its axis.

use vstd::prelude::*;

verus! {

/// The `k`-th image offset, with the first axis slowest: each component runs
/// over -1, 0, +1.
pub open spec fn spec_offset(k: int) -> (int, int, int) {
    (k / 9 - 1, (k / 3) % 3 - 1, k % 3 - 1)
}

/// Every entry of `s` is the image offset of its index.
pub open spec fn offsets_ok(s: Seq<(i64, i64, i64)>) -> bool {
    forall|k: int|
        0 <= k < s.len() ==> ((#[trigger] s[k]).0 as int, s[k].1 as int, s[k].2 as int)
            == spec_offset(k)
}

/// The 27 periodic image offsets, in order.
pub fn neighbour_offsets() -> (r: Vec<(i64, i64, i64)>)
    ensures
        r@.len() == 27,
        offsets_ok(r@),
{
    let mut r: Vec<(i64, i64, i64)> = Vec::new();
    let mut xi: usize = 0;
    while xi < 3
        invariant
            xi <= 3,
            r@.len() == 9 * xi,
            offsets_ok(r@),
        decreases 3 - xi,
    {
        let mut yi: usize = 0;
        while yi < 3
            invariant
                xi < 3,
                yi <= 3,
                r@.len() == 9 * xi + 3 * yi,
                offsets_ok(r@),
            decreases 3 - yi,
        {
            let mut zi: usize = 0;
            while zi < 3
                invariant
                    xi < 3,
                    yi < 3,
                    zi <= 3,
                    r@.len() == 9 * xi + 3 * yi + zi,
                    offsets_ok(r@),
                decreases 3 - zi,
            {
                let x = (xi as i64) - 1;
                let y = (yi as i64) - 1;
                let z = (zi as i64) - 1;
                proof {
                    let k = 9 * (xi as int) + 3 * (yi as int) + zi as int;
                    assert(k / 9 == xi as int && (k / 3) % 3 == yi as int && k % 3 == zi as int)
                        by (nonlinear_arith)
                        requires
                            0 <= xi < 3,
                            0 <= yi < 3,
                            0 <= zi < 3,
                            k == 9 * (xi as int) + 3 * (yi as int) + zi as int,
                    ;
                }
                r.push((x, y, z));
                zi += 1;
            }
            yi += 1;
        }
        xi += 1;
    }
    r
}

} // verus!
