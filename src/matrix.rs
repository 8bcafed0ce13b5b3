//! How the entries of square matrices move: transposition, and the submatrices
//! that cofactor expansion takes. The entries themselves are never combined
//! here, so these work for entries of any type.
use vstd::prelude::*;

verus! {

/// The index in the full matrix of row (or column) `i` of the submatrix that
/// leaves out row (or column) `skipped`.
pub open spec fn source_index(i: int, skipped: int) -> int {
    if i < skipped {
        i
    } else {
        i + 1
    }
}

fn source(i: usize, skipped: usize) -> (s: usize)
    requires
        i < 4,
    ensures
        s == source_index(i as int, skipped as int),
{
    if i < skipped {
        i
    } else {
        i + 1
    }
}

/// The transpose of a 4×4 matrix: row `r`, column `c` of the result is row `c`,
/// column `r` of `m`.
pub fn transpose<T: Copy>(m: &[[T; 4]; 4]) -> (t: [[T; 4]; 4])
    ensures
        forall|r: int, c: int| 0 <= r < 4 && 0 <= c < 4 ==> t[r][c] == m[c][r],
{
    [
        [m[0][0], m[1][0], m[2][0], m[3][0]],
        [m[0][1], m[1][1], m[2][1], m[3][1]],
        [m[0][2], m[1][2], m[2][2], m[3][2]],
        [m[0][3], m[1][3], m[2][3], m[3][3]],
    ]
}

/// The 3×3 matrix left when row `r` and column `c` are taken out of a 4×4
/// matrix.
pub fn submatrix4<T: Copy>(m: &[[T; 4]; 4], r: usize, c: usize) -> (s: [[T; 3]; 3])
    requires
        r < 4,
        c < 4,
    ensures
        forall|i: int, j: int|
            0 <= i < 3 && 0 <= j < 3 ==> s[i][j] == m[source_index(i, r as int)][source_index(
                j,
                c as int,
            )],
{
    let r0 = source(0, r);
    let r1 = source(1, r);
    let r2 = source(2, r);
    let c0 = source(0, c);
    let c1 = source(1, c);
    let c2 = source(2, c);
    [
        [m[r0][c0], m[r0][c1], m[r0][c2]],
        [m[r1][c0], m[r1][c1], m[r1][c2]],
        [m[r2][c0], m[r2][c1], m[r2][c2]],
    ]
}

/// The 2×2 matrix left when row `r` and column `c` are taken out of a 3×3
/// matrix.
pub fn submatrix3<T: Copy>(m: &[[T; 3]; 3], r: usize, c: usize) -> (s: [[T; 2]; 2])
    requires
        r < 3,
        c < 3,
    ensures
        forall|i: int, j: int|
            0 <= i < 2 && 0 <= j < 2 ==> s[i][j] == m[source_index(i, r as int)][source_index(
                j,
                c as int,
            )],
{
    let r0 = source(0, r);
    let r1 = source(1, r);
    let c0 = source(0, c);
    let c1 = source(1, c);
    [[m[r0][c0], m[r0][c1]], [m[r1][c0], m[r1][c1]]]
}

} // verus!
