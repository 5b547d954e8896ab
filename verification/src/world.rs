//! The terrain mesh's index buffer.
//!
//! The terrain is a `GRID × GRID` grid of quads over a `(GRID + 1)²` grid of
//! vertices stored row by row (vertex `(ix, iz)` at `iz · (GRID + 1) + ix`).
//! Each quad is drawn as two triangles sharing its diagonal, both wound the
//! same way.

use vstd::prelude::*;

verus! {

/// Number of quads per side of the terrain grid.
pub const GRID: usize = 200;

/// Position in the index buffer where quad `(ix, iz)` of a `grid`-wide mesh
/// starts: quads are stored row by row, six indices each.
pub open spec fn quad_start(grid: int, iz: int, ix: int) -> int {
    6 * (iz * grid + ix)
}

/// Index `c` (`0..6`) of quad `(ix, iz)`: with top-left `tl`, the triangles
/// are `(tl, bl, tr)` and `(tr, bl, br)`, where `tr = tl + 1`,
/// `bl = tl + grid + 1` and `br = bl + 1`.
pub open spec fn corner(grid: int, iz: int, ix: int, c: int) -> int {
    let tl = iz * (grid + 1) + ix;
    let tr = tl + 1;
    let bl = tl + grid + 1;
    let br = bl + 1;
    if c == 0 {
        tl
    } else if c == 1 {
        bl
    } else if c == 2 {
        tr
    } else if c == 3 {
        tr
    } else if c == 4 {
        bl
    } else {
        br
    }
}

/// A buffer laid out quad by quad as `corner` gives it holds each quad's
/// corners at the positions and in the order that `terrain_indices` states.
proof fn lemma_indices_explicit(indices: Seq<u32>, grid: int)
    requires
        forall|iz: int, ix: int, c: int|
            0 <= iz < grid && 0 <= ix < grid && 0 <= c < 6 ==> indices[quad_start(grid, iz, ix) + c]
                as int == #[trigger] corner(grid, iz, ix, c),
    ensures
        forall|iz: int, ix: int|
            #![trigger indices[6 * (iz * grid + ix)]]
            0 <= iz && iz < grid && 0 <= ix && ix < grid ==> (
                indices[6 * (iz * grid + ix)] as int == iz * (grid + 1) + ix &&
                indices[6 * (iz * grid + ix) + 1] as int == iz * (grid + 1) + ix + grid + 1 &&
                indices[6 * (iz * grid + ix) + 2] as int == iz * (grid + 1) + ix + 1 &&
                indices[6 * (iz * grid + ix) + 3] as int == iz * (grid + 1) + ix + 1 &&
                indices[6 * (iz * grid + ix) + 4] as int == iz * (grid + 1) + ix + grid + 1 &&
                indices[6 * (iz * grid + ix) + 5] as int == iz * (grid + 1) + ix + grid + 2
            ),
{
    assert forall|iz: int, ix: int|
        #![trigger indices[6 * (iz * grid + ix)]]
        0 <= iz && iz < grid && 0 <= ix && ix < grid implies (
            indices[6 * (iz * grid + ix)] as int == iz * (grid + 1) + ix &&
            indices[6 * (iz * grid + ix) + 1] as int == iz * (grid + 1) + ix + grid + 1 &&
            indices[6 * (iz * grid + ix) + 2] as int == iz * (grid + 1) + ix + 1 &&
            indices[6 * (iz * grid + ix) + 3] as int == iz * (grid + 1) + ix + 1 &&
            indices[6 * (iz * grid + ix) + 4] as int == iz * (grid + 1) + ix + grid + 1 &&
            indices[6 * (iz * grid + ix) + 5] as int == iz * (grid + 1) + ix + grid + 2
        ) by {
        assert(indices[quad_start(grid, iz, ix) + 0] as int == corner(grid, iz, ix, 0));
        assert(indices[quad_start(grid, iz, ix) + 1] as int == corner(grid, iz, ix, 1));
        assert(indices[quad_start(grid, iz, ix) + 2] as int == corner(grid, iz, ix, 2));
        assert(indices[quad_start(grid, iz, ix) + 3] as int == corner(grid, iz, ix, 3));
        assert(indices[quad_start(grid, iz, ix) + 4] as int == corner(grid, iz, ix, 4));
        assert(indices[quad_start(grid, iz, ix) + 5] as int == corner(grid, iz, ix, 5));
    }
}

proof fn lemma_quad_order(grid: int, iz2: int, ix2: int, iz: int, ix: int)
    by (nonlinear_arith)
    requires
        0 <= ix2 < grid,
        0 <= ix <= grid,
        0 <= iz2,
        0 <= iz,
        iz2 < iz || (iz2 == iz && ix2 < ix),
    ensures
        iz2 * grid + ix2 + 1 <= iz * grid + ix,
{
}

/// The quads' indices, row by row, six per quad.
fn quad_list(grid: usize) -> (indices: Vec<u32>)
    requires
        (grid + 1) * (grid + 1) <= 0x1_0000_0000,
    ensures
        indices@.len() == quad_start(grid as int, grid as int, 0),
        forall|iz: int, ix: int, c: int|
            0 <= iz < grid && 0 <= ix < grid && 0 <= c < 6 ==> indices@[quad_start(
                grid as int,
                iz,
                ix,
            ) + c] as int == #[trigger] corner(grid as int, iz, ix, c),
{
    proof {
        assert(grid < 0x10000) by (nonlinear_arith)
            requires
                (grid + 1) * (grid + 1) <= 0x1_0000_0000,
        ;
    }
    let vps = grid + 1;
    let ghost g = grid as int;
    let mut quads: Vec<u32> = Vec::new();
    let mut iz: usize = 0;
    while iz < grid
        invariant
            vps == grid + 1,
            g == grid,
            (grid + 1) * (grid + 1) <= 0x1_0000_0000,
            iz <= grid,
            quads@.len() == quad_start(g, iz as int, 0),
            forall|iz2: int, ix2: int, c: int|
                0 <= iz2 < iz && 0 <= ix2 < grid && 0 <= c < 6 ==> quads@[quad_start(
                    g,
                    iz2,
                    ix2,
                ) + c] as int == #[trigger] corner(g, iz2, ix2, c),
        decreases grid - iz,
    {
        let mut ix: usize = 0;
        while ix < grid
            invariant
                vps == grid + 1,
                g == grid,
                (grid + 1) * (grid + 1) <= 0x1_0000_0000,
                iz < grid,
                ix <= grid,
                quads@.len() == quad_start(g, iz as int, ix as int),
                forall|iz2: int, ix2: int, c: int|
                    (iz2 < iz || (iz2 == iz && ix2 < ix)) && 0 <= iz2 && 0 <= ix2 < grid && 0 <= c
                        < 6 ==> quads@[quad_start(g, iz2, ix2) + c] as int == #[trigger] corner(
                        g,
                        iz2,
                        ix2,
                        c,
                    ),
            decreases grid - ix,
        {
            proof {
                assert(iz * vps + ix + vps + 1 <= vps * vps - 1) by (nonlinear_arith)
                    requires
                        iz < grid,
                        ix < grid,
                        vps == grid + 1,
                ;
                assert(vps * vps <= 0x1_0000_0000) by (nonlinear_arith)
                    requires
                        vps == grid + 1,
                        (grid + 1) * (grid + 1) <= 0x1_0000_0000,
                ;
                assert(0 <= iz * vps) by (nonlinear_arith);
            }
            let tl = (iz * vps + ix) as u32;
            let tr = tl + 1;
            let bl = tl + vps as u32;
            let br = bl + 1;
            let ghost old_indices = quads@;
            quads.push(tl);
            quads.push(bl);
            quads.push(tr);
            quads.push(tr);
            quads.push(bl);
            quads.push(br);
            proof {
                let q = quad_start(g, iz as int, ix as int);
                assert(quad_start(g, iz as int, ix as int + 1) == q + 6);
                assert(quads@.len() == q + 6);
                assert forall|iz2: int, ix2: int, c: int|
                    (iz2 < iz || (iz2 == iz && ix2 < ix + 1)) && 0 <= iz2 && 0 <= ix2 < grid && 0
                        <= c < 6 implies quads@[quad_start(g, iz2, ix2) + c] as int == #[trigger] corner(
                    g,
                    iz2,
                    ix2,
                    c,
                ) by {
                    if iz2 == iz && ix2 == ix {
                        assert(quad_start(g, iz2, ix2) == q);
                    } else {
                        lemma_quad_order(g, iz2, ix2, iz as int, ix as int);
                        assert(quad_start(g, iz2, ix2) + 6 <= q);
                        assert(quads@[quad_start(g, iz2, ix2) + c] == old_indices[quad_start(
                            g,
                            iz2,
                            ix2,
                        ) + c]);
                    }
                }
            }
            ix = ix + 1;
        }
        proof {
            assert(quad_start(g, iz as int, g) == quad_start(g, iz as int + 1, 0)) by (
            nonlinear_arith);
        }
        iz = iz + 1;
    }
    quads
}

/// The triangle-list index buffer of a `grid × grid` terrain mesh: six
/// indices per quad, quads row by row. Every index names a vertex of the
/// `(grid + 1)²` grid, which must be addressable by a `u32` index.
pub fn terrain_indices(grid: usize) -> (indices: Vec<u32>)
    requires
        (grid + 1) * (grid + 1) <= 0x1_0000_0000,
    ensures
        indices@.len() == quad_start(grid as int, grid as int, 0),
        forall|iz: int, ix: int, c: int|
            0 <= iz < grid && 0 <= ix < grid && 0 <= c < 6 ==> indices@[quad_start(
                grid as int,
                iz,
                ix,
            ) + c] as int == #[trigger] corner(grid as int, iz, ix, c),
        forall|iz: int, ix: int|
            #![trigger indices@[6 * (iz * (grid as int) + ix)]]
            0 <= iz && iz < (grid as int) && 0 <= ix && ix < (grid as int) ==> (
                indices@[6 * (iz * (grid as int) + ix)] as int == iz * (grid as int + 1) + ix &&
                indices@[6 * (iz * (grid as int) + ix) + 1] as int == iz * (grid as int + 1) + ix + (grid as int) + 1 &&
                indices@[6 * (iz * (grid as int) + ix) + 2] as int == iz * (grid as int + 1) + ix + 1 &&
                indices@[6 * (iz * (grid as int) + ix) + 3] as int == iz * (grid as int + 1) + ix + 1 &&
                indices@[6 * (iz * (grid as int) + ix) + 4] as int == iz * (grid as int + 1) + ix + (grid as int) + 1 &&
                indices@[6 * (iz * (grid as int) + ix) + 5] as int == iz * (grid as int + 1) + ix + (grid as int) + 2
            ),
{
    let indices = quad_list(grid);
    proof {
        lemma_indices_explicit(indices@, grid as int);
    }
    indices
}

/// Each quad `(ix, iz)` of a `grid`-wide mesh holds, from position
/// `6 · (iz · grid + ix)` on, the triangles `(tl, bl, tr)` and `(tr, bl, br)`
/// over its corners `tl = iz · (grid + 1) + ix`, `tr = tl + 1`,
/// `bl = tl + grid + 1` and `br = bl + 1`: seen from above, both run
/// counter-clockwise, so the ground faces up.
pub proof fn lemma_quad_winding(grid: int, iz: int, ix: int)
    ensures
        quad_start(grid, iz, ix) == 6 * (iz * grid + ix),
        corner(grid, iz, ix, 0) == iz * (grid + 1) + ix,
        corner(grid, iz, ix, 1) == iz * (grid + 1) + ix + grid + 1,
        corner(grid, iz, ix, 2) == iz * (grid + 1) + ix + 1,
        corner(grid, iz, ix, 3) == iz * (grid + 1) + ix + 1,
        corner(grid, iz, ix, 4) == iz * (grid + 1) + ix + grid + 1,
        corner(grid, iz, ix, 5) == iz * (grid + 1) + ix + grid + 2,
{
}

/// Every index of the buffer names a vertex of the `(grid + 1)²` vertex grid,
/// and each quad's two triangles share its diagonal `(bl, tr)`.
pub proof fn lemma_indices_in_range(grid: int, iz: int, ix: int, c: int)
    requires
        0 <= iz < grid,
        0 <= ix < grid,
        0 <= c < 6,
    ensures
        0 <= corner(grid, iz, ix, c) < (grid + 1) * (grid + 1),
        corner(grid, iz, ix, 1) == corner(grid, iz, ix, 4),
        corner(grid, iz, ix, 2) == corner(grid, iz, ix, 3),
{
    assert(0 <= iz * (grid + 1)) by (nonlinear_arith)
        requires
            0 <= iz,
            0 <= grid,
    ;
    assert(iz * (grid + 1) + ix + grid + 2 <= (grid + 1) * (grid + 1) - 1) by (nonlinear_arith)
        requires
            0 <= iz < grid,
            0 <= ix < grid,
    ;
}

} // verus!
