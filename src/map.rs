//! Terrain geometry handed to the physics engine.

use vstd::prelude::*;

verus! {

/// Groups a mesh's index list into triangles, three indices each, in order;
/// indices left over after the last whole triangle are dropped.
pub fn group_triangles(indices: &Vec<u32>) -> (r: Vec<[u32; 3]>)
    ensures
        r@.len() == indices@.len() / 3,
        forall|k: int|
            0 <= k < r@.len() ==> (#[trigger] r@[k])@ == seq![indices@[3 * k], indices@[3 * k + 1], indices@[3 * k + 2]],
{
    let n = indices.len() / 3;
    let mut out: Vec<[u32; 3]> = Vec::new();
    let mut i: usize = 0;
    while i < n
        invariant
            n == indices@.len() / 3,
            i <= n,
            out@.len() == i,
            forall|k: int|
                0 <= k < i ==> (#[trigger] out@[k])@ == seq![indices@[3 * k], indices@[3 * k + 1], indices@[3 * k + 2]],
        decreases n - i,
    {
        let len = indices.len();
        assert(3 * i + 2 < len) by (nonlinear_arith)
            requires
                i < n,
                n == len / 3,
        ;
        let tri = [indices[3 * i], indices[3 * i + 1], indices[3 * i + 2]];
        assert(tri@ =~= seq![indices@[3 * i], indices@[3 * i + 1], indices@[3 * i + 2]]);
        out.push(tri);
        i += 1;
    }
    out
}

} // verus!
