//! Terrain geometry: a paged square window of fixed-size ground patches
//! around a moving reference position, each patch carrying three index
//! buffers of decreasing detail that a renderer picks from by distance.
//!
//! The patches' vertex data (heights and normals sampled from the embedder's
//! height function) is floating-point work that lives with the embedder; this
//! core owns the paging of the window, the index-buffer tessellations and the
//! level-of-detail choice.

use vstd::prelude::*;
use vstd::arithmetic::div_mod::lemma_fundamental_div_mod;
use vstd::arithmetic::div_mod::lemma_fundamental_div_mod_converse;
use vstd::arithmetic::div_mod::lemma_mod_bound;
use vstd::set_lib::set_int_range;
use vstd::set_lib::lemma_int_range;
use vstd::set_lib::lemma_map_size;
use vstd::relations::injective_on;

verus! {

/// Width of one ground patch, in world units.
pub const PATCH_SIZE: i64 = 16;

/// Patches per side of the window of live patches.
pub const PATCHES_PER_SIDE: i32 = 33;

/// How far the window reaches from its center patch, per axis.
pub const HALF_PATCHES_PER_SIDE: i32 = 16;

/// Vertex samples per world unit when a patch's vertex data is generated.
pub const VERTICES_PER_UNIT: usize = 4;

/// Vertex samples per side of one patch: one patch width plus one unit,
/// sampled at [`VERTICES_PER_UNIT`].
pub const VERTICES_PER_SIDE: usize = (16 + 1) * VERTICES_PER_UNIT;

/// A position in the world, in whole world units. The embedder rounds its
/// scalar position down to one of these; the fractional part never affects
/// which patch a position falls in.
#[derive(Clone, Copy, Debug, PartialEq, Eq, Structural)]
pub struct Position {
    pub x: i64,
    pub y: i64,
    pub z: i64,
}

impl Position {
    /// Positions this core accepts: far beyond any plausible world, but
    /// bounded so patch coordinates stay well inside `i32`.
    pub open spec fn in_range(self) -> bool {
        -0x2_0000_0000 <= self.x <= 0x2_0000_0000 && -0x2_0000_0000 <= self.z <= 0x2_0000_0000
    }
}

/// How many quads the tessellation of one patch has per side when every
/// `resolution`-th vertex is used.
pub open spec fn grid_quads_spec(resolution: int) -> int {
    (VERTICES_PER_SIDE - 1) as int / resolution
}

/// The vertex index that entry `j` of the quad at grid cell `(r, c)`
/// contributes: the two triangles of the quad, counter-clockwise.
pub open spec fn quad_index_val(r: int, c: int, resolution: int, j: int) -> int {
    let stride = VERTICES_PER_SIDE as int;
    if j == 0 {
        r * resolution + c * resolution * stride
    } else if j == 1 {
        r * resolution + resolution + c * resolution * stride
    } else if j == 2 {
        r * resolution + (c * resolution + resolution) * stride
    } else if j == 3 {
        r * resolution + (c * resolution + resolution) * stride
    } else if j == 4 {
        r * resolution + resolution + c * resolution * stride
    } else {
        r * resolution + resolution + (c * resolution + resolution) * stride
    }
}

/// The index buffer tessellating one patch at the given vertex decimation:
/// two triangles for each quad of the decimated grid, row by row.
pub open spec fn indices_spec(resolution: int) -> Seq<u32> {
    let max = grid_quads_spec(resolution);
    Seq::new(
        (6 * max * max) as nat,
        |k: int| quad_index_val((k / 6) / max, (k / 6) % max, resolution, k % 6) as u32,
    )
}

/// One fixed-size terrain tile at patch-grid coordinate `(ix, iy)`, immutable
/// once constructed: three precomputed index buffers at decreasing detail.
/// Its vertex buffers (positions, normals) live with the embedder, which
/// samples them from its height function over the patch's footprint.
pub struct GroundPatch {
    /// Patch-grid x coordinate.
    pub ix: i32,
    /// Patch-grid y coordinate (along the world's z axis).
    pub iy: i32,
    /// Full-detail tessellation: every vertex.
    pub index_buffer: Vec<u32>,
    /// Coarse tessellation: every fourth vertex.
    pub coarse_index_buffer: Vec<u32>,
    /// Very coarse tessellation: every eighth vertex.
    pub very_coarse_index_buffer: Vec<u32>,
}

impl GroundPatch {
    /// A patch as constructed: the three buffers hold the three
    /// tessellations.
    pub open spec fn wf(self) -> bool {
        &&& self.index_buffer@ == indices_spec(1)
        &&& self.coarse_index_buffer@ == indices_spec(4)
        &&& self.very_coarse_index_buffer@ == indices_spec(8)
    }

    /// Build the patch at grid cell `(ix, iy)`, with its three index buffers.
    pub fn new(ix: i32, iy: i32) -> (r: GroundPatch)
        ensures
            r.ix == ix,
            r.iy == iy,
            r.wf(),
    {
        GroundPatch {
            ix,
            iy,
            index_buffer: Self::indices(1),
            coarse_index_buffer: Self::indices(4),
            very_coarse_index_buffer: Self::indices(8),
        }
    }

    /// The distance from this patch to the camera's patch cell that the
    /// level-of-detail choice goes by: the sum of the coordinate distances.
    pub open spec fn lod_distance_spec(self, x0: int, y0: int) -> int {
        (if self.ix >= x0 {
            self.ix - x0
        } else {
            x0 - self.ix
        }) + (if self.iy >= y0 {
            self.iy - y0
        } else {
            y0 - self.iy
        })
    }

    /// The index buffer to draw this patch with, given the camera's patch
    /// cell: very coarse beyond distance 8, coarse beyond distance 4, full
    /// detail otherwise.
    pub fn index_buffer(&self, x0: i32, y0: i32) -> (r: &Vec<u32>)
        ensures
            self.lod_distance_spec(x0 as int, y0 as int) > 8 ==> r@
                == self.very_coarse_index_buffer@,
            4 < self.lod_distance_spec(x0 as int, y0 as int) <= 8 ==> r@
                == self.coarse_index_buffer@,
            self.lod_distance_spec(x0 as int, y0 as int) <= 4 ==> r@ == self.index_buffer@,
    {
        let dx = self.ix as i64 - x0 as i64;
        let dx = if dx < 0 {
            -dx
        } else {
            dx
        };
        let dy = self.iy as i64 - y0 as i64;
        let dy = if dy < 0 {
            -dy
        } else {
            dy
        };
        let dist = dx + dy;
        if dist > 8 {
            &self.very_coarse_index_buffer
        } else if dist > 4 {
            &self.coarse_index_buffer
        } else {
            &self.index_buffer
        }
    }

    /// The index buffer tessellating a patch when every `resolution`-th
    /// vertex is used: the quads of the decimated grid, row by row, two
    /// counter-clockwise triangles each.
    pub fn indices(resolution: u32) -> (r: Vec<u32>)
        requires
            1 <= resolution,
        ensures
            r@ == indices_spec(resolution as int),
            r@.len() == 2 * grid_quads_spec(resolution as int) * grid_quads_spec(
                resolution as int,
            ) * 3,
    {
        let stride: u32 = 68;
        let max: u32 = (stride - 1) / resolution;
        let ghost ispec = indices_spec(resolution as int);
        proof {
            lemma_fundamental_div_mod(67, resolution as int);
            lemma_mod_bound(67, resolution as int);
            assert(max * resolution <= 67 && 6 * (max * max) == 6 * max * max && 6 * (max * max)
                == 2 * (max as int) * (max as int) * 3) by (nonlinear_arith)
                requires
                    67 == (resolution as int) * (67 as int / resolution as int) + 67 as int
                        % resolution as int,
                    0 <= 67 as int % resolution as int,
                    max == 67 as int / resolution as int,
            ;
        }
        let mut out: Vec<u32> = Vec::new();
        let mut r: u32 = 0;
        while r < max
            invariant
                r <= max,
                1 <= resolution,
                stride == 68,
                max == 67 as int / resolution as int,
                max * resolution <= 67,
                ispec == indices_spec(resolution as int),
                out@.len() == 6 * ((r as int) * (max as int)),
                forall|k: int| 0 <= k < out@.len() ==> out@[k] == ispec[k],
            decreases max - r,
        {
            let mut c: u32 = 0;
            while c < max
                invariant
                    r < max,
                    c <= max,
                    1 <= resolution,
                    stride == 68,
                    max == 67 as int / resolution as int,
                    max * resolution <= 67,
                    ispec == indices_spec(resolution as int),
                    out@.len() == 6 * ((r as int) * (max as int) + c),
                    forall|k: int| 0 <= k < out@.len() ==> out@[k] == ispec[k],
                decreases max - c,
            {
                proof {
                    let q = (r as int) * (max as int) + c;
                    assert(0 <= q && q < (max as int) * (max as int) && r * resolution + resolution
                        <= 67 && c * resolution + resolution <= 67) by (nonlinear_arith)
                        requires
                            0 <= r < max,
                            0 <= c < max,
                            1 <= resolution,
                            max * resolution <= 67,
                            q == (r as int) * (max as int) + c,
                    ;
                    assert(6 * ((max as int) * (max as int)) == 6 * (max as int) * (max as int))
                        by (nonlinear_arith);
                    lemma_fundamental_div_mod_converse(q, max as int, r as int, c as int);
                    lemma_fundamental_div_mod_converse(6 * q + 0, 6, q, 0);
                    lemma_fundamental_div_mod_converse(6 * q + 1, 6, q, 1);
                    lemma_fundamental_div_mod_converse(6 * q + 2, 6, q, 2);
                    lemma_fundamental_div_mod_converse(6 * q + 3, 6, q, 3);
                    lemma_fundamental_div_mod_converse(6 * q + 4, 6, q, 4);
                    lemma_fundamental_div_mod_converse(6 * q + 5, 6, q, 5);
                }
                let base = r * resolution;
                let right = base + resolution;
                let col0 = c * resolution * stride;
                let col1 = (c * resolution + resolution) * stride;
                out.push(base + col0);
                out.push(right + col0);
                out.push(base + col1);
                out.push(base + col1);
                out.push(right + col0);
                out.push(right + col1);
                c += 1;
            }
            proof {
                assert(6 * ((r as int) * (max as int) + max) == 6 * (((r + 1) as int) * (
                max as int))) by (nonlinear_arith);
            }
            r += 1;
        }
        proof {
            assert(out@ =~= ispec);
        }
        out
    }
}

/// Whether patch cell `c` lies inside the axis-aligned box of cells.
pub open spec fn in_box(c: (int, int), x_lo: int, x_hi: int, y_lo: int, y_hi: int) -> bool {
    x_lo <= c.0 <= x_hi && y_lo <= c.1 <= y_hi
}

/// Whether patch cell `c` lies inside the window centered at cell `(cx, cy)`:
/// at most [`HALF_PATCHES_PER_SIDE`] away along each axis independently.
pub open spec fn in_window(c: (int, int), cx: int, cy: int) -> bool {
    in_box(
        c,
        cx - HALF_PATCHES_PER_SIDE as int,
        cx + HALF_PATCHES_PER_SIDE as int,
        cy - HALF_PATCHES_PER_SIDE as int,
        cy + HALF_PATCHES_PER_SIDE as int,
    )
}

/// The set of cells of the window centered at `(cx, cy)`.
pub open spec fn window_set(cx: int, cy: int) -> Set<(int, int)> {
    Set::new(|c: (int, int)| in_window(c, cx, cy))
}

/// The cells of one vertical run of patches: `(x, y)` for `y_lo <= y <= y_hi`.
pub open spec fn col_seq(x: int, y_lo: int, y_hi: int) -> Seq<(int, int)> {
    Seq::new(
        if y_hi + 1 - y_lo >= 0 {
            (y_hi + 1 - y_lo) as nat
        } else {
            0
        },
        |k: int| (x, y_lo + k),
    )
}

/// The cells of one horizontal run of patches: `(x, y)` for `x_lo <= x <= x_hi`.
pub open spec fn row_seq(y: int, x_lo: int, x_hi: int) -> Seq<(int, int)> {
    Seq::new(
        if x_hi + 1 - x_lo >= 0 {
            (x_hi + 1 - x_lo) as nat
        } else {
            0
        },
        |k: int| (x_lo + k, y),
    )
}

/// The grid cells of a sequence of patches, in the same order.
pub open spec fn patch_coords(s: Seq<GroundPatch>) -> Seq<(int, int)> {
    s.map_values(|p: GroundPatch| (p.ix as int, p.iy as int))
}

/// What a vertical run holds: exactly the cells with that `x` and a `y` in
/// the run.
pub proof fn lemma_col_seq_contains(x: int, y_lo: int, y_hi: int, c: (int, int))
    ensures
        col_seq(x, y_lo, y_hi).contains(c) <==> (c.0 == x && y_lo <= c.1 <= y_hi),
{
    if c.0 == x && y_lo <= c.1 <= y_hi {
        assert(col_seq(x, y_lo, y_hi)[c.1 - y_lo] == c);
    }
    if col_seq(x, y_lo, y_hi).contains(c) {
        let i = choose|i: int|
            0 <= i < col_seq(x, y_lo, y_hi).len() && col_seq(x, y_lo, y_hi)[i] == c;
        assert(col_seq(x, y_lo, y_hi)[i] == (x, y_lo + i));
    }
}

/// What a horizontal run holds: exactly the cells with that `y` and an `x`
/// in the run.
pub proof fn lemma_row_seq_contains(y: int, x_lo: int, x_hi: int, c: (int, int))
    ensures
        row_seq(y, x_lo, x_hi).contains(c) <==> (c.1 == y && x_lo <= c.0 <= x_hi),
{
    if c.1 == y && x_lo <= c.0 <= x_hi {
        assert(row_seq(y, x_lo, x_hi)[c.0 - x_lo] == c);
    }
    if row_seq(y, x_lo, x_hi).contains(c) {
        let i = choose|i: int|
            0 <= i < row_seq(y, x_lo, x_hi).len() && row_seq(y, x_lo, x_hi)[i] == c;
        assert(row_seq(y, x_lo, x_hi)[i] == (x_lo + i, y));
    }
}

/// An element of either part is an element of the concatenation.
pub proof fn lemma_contains_concat<A>(a: Seq<A>, b: Seq<A>, x: A)
    requires
        a.contains(x) || b.contains(x),
    ensures
        (a + b).contains(x),
{
    if a.contains(x) {
        let i = choose|i: int| 0 <= i < a.len() && a[i] == x;
        assert((a + b)[i] == x);
    } else {
        let i = choose|i: int| 0 <= i < b.len() && b[i] == x;
        assert((a + b)[a.len() + i] == x);
    }
}

/// A vertical run of `n` cells, as a set, holds exactly `n` cells.
pub proof fn lemma_column_set_card(x: int, y_lo: int, n: int)
    requires
        n >= 0,
    ensures
        Set::new(|c: (int, int)| c.0 == x && y_lo <= c.1 < y_lo + n).finite(),
        Set::new(|c: (int, int)| c.0 == x && y_lo <= c.1 < y_lo + n).len() == n,
{
    let col = Set::new(|c: (int, int)| c.0 == x && y_lo <= c.1 < y_lo + n);
    let f = |k: int| (x, y_lo + k);
    let rng = set_int_range(0, n);
    lemma_int_range(0, n);
    assert forall|c: (int, int)| col.contains(c) implies rng.map(f).contains(c) by {
        assert(rng.contains(c.1 - y_lo) && f(c.1 - y_lo) == c);
        assert(rng.map(f).contains(c));
    }
    assert(rng.map(f) =~= col);
    lemma_map_size(rng, col, f);
}

/// Moving the window one cell along an axis changes it by exactly one run of
/// cells each way: the cells entering are the new leading column, the cells
/// leaving the old trailing column, `PATCHES_PER_SIDE` cells each.
pub proof fn lemma_window_shift_one_column(cx: int, cy: int)
    ensures
        forall|c: (int, int)|
            (in_window(c, cx + 1, cy) && !in_window(c, cx, cy)) <==> (c.0 == cx + 1
                + HALF_PATCHES_PER_SIDE as int && cy - HALF_PATCHES_PER_SIDE as int <= c.1 <= cy
                + HALF_PATCHES_PER_SIDE as int),
        forall|c: (int, int)|
            (in_window(c, cx, cy) && !in_window(c, cx + 1, cy)) <==> (c.0 == cx
                - HALF_PATCHES_PER_SIDE as int && cy - HALF_PATCHES_PER_SIDE as int <= c.1 <= cy
                + HALF_PATCHES_PER_SIDE as int),
        window_set(cx + 1, cy).difference(window_set(cx, cy)).len() == PATCHES_PER_SIDE,
        window_set(cx, cy).difference(window_set(cx + 1, cy)).len() == PATCHES_PER_SIDE,
{
    let h = HALF_PATCHES_PER_SIDE as int;
    let side = PATCHES_PER_SIDE as int;
    let entering = Set::new(|c: (int, int)| c.0 == cx + 1 + h && cy - h <= c.1 < cy - h + side);
    let leaving = Set::new(|c: (int, int)| c.0 == cx - h && cy - h <= c.1 < cy - h + side);
    lemma_column_set_card(cx + 1 + h, cy - h, side);
    lemma_column_set_card(cx - h, cy - h, side);
    assert(window_set(cx + 1, cy).difference(window_set(cx, cy)) =~= entering);
    assert(window_set(cx, cy).difference(window_set(cx + 1, cy)) =~= leaving);
}

/// The window holds exactly `PATCHES_PER_SIDE` squared cells.
pub proof fn lemma_window_set_card(cx: int, cy: int)
    ensures
        window_set(cx, cy).finite(),
        window_set(cx, cy).len() == PATCHES_PER_SIDE * PATCHES_PER_SIDE,
{
    let h = HALF_PATCHES_PER_SIDE as int;
    let side = PATCHES_PER_SIDE as int;
    let f = |k: int| ((cx - h) + k / side, (cy - h) + k % side);
    let rng = set_int_range(0, side * side);
    lemma_int_range(0, side * side);
    assert forall|c: (int, int)| window_set(cx, cy).contains(c) implies rng.map(f).contains(
        c,
    ) by {
        let k = (c.0 - (cx - h)) * side + (c.1 - (cy - h));
        lemma_fundamental_div_mod_converse(k, side, c.0 - (cx - h), c.1 - (cy - h));
        assert(rng.contains(k) && f(k) == c);
        assert(rng.map(f).contains(c));
    }
    assert forall|c: (int, int)| rng.map(f).contains(c) implies window_set(cx, cy).contains(
        c,
    ) by {
        let k = choose|k: int| rng.contains(k) && f(k) == c;
        lemma_fundamental_div_mod(k, side);
        lemma_mod_bound(k, side);
        assert(0 <= k / side <= h * 2) by {
            assert(k < side * side);
        }
        assert(in_window(c, cx, cy));
    }
    assert(rng.map(f) =~= window_set(cx, cy));
    assert(injective_on(f, rng)) by {
        assert forall|k1: int, k2: int|
            rng.contains(k1) && rng.contains(k2) && #[trigger] f(k1) == #[trigger] f(k2) implies k1
            == k2 by {
            lemma_fundamental_div_mod(k1, side);
            lemma_fundamental_div_mod(k2, side);
        }
    }
    lemma_map_size(rng, window_set(cx, cy), f);
}

/// A run of distinct cells that all lie in the window, jointly covering it,
/// holds exactly `PATCHES_PER_SIDE` squared cells.
pub proof fn lemma_window_exact_count(coords: Seq<(int, int)>, cx: int, cy: int)
    requires
        coords.no_duplicates(),
        forall|i: int| 0 <= i < coords.len() ==> in_window(#[trigger] coords[i], cx, cy),
        forall|c: (int, int)| in_window(c, cx, cy) ==> #[trigger] coords.contains(c),
    ensures
        coords.len() == PATCHES_PER_SIDE * PATCHES_PER_SIDE,
{
    coords.unique_seq_to_set();
    assert forall|c: (int, int)| coords.to_set().contains(c) implies window_set(cx, cy).contains(
        c,
    ) by {
        let i = choose|i: int| 0 <= i < coords.len() && coords[i] == c;
        assert(in_window(coords[i], cx, cy));
    }
    assert forall|c: (int, int)| window_set(cx, cy).contains(c) implies coords.to_set().contains(
        c,
    ) by {
        assert(coords.contains(c));
    }
    assert(coords.to_set() =~= window_set(cx, cy));
    lemma_window_set_card(cx, cy);
}

/// Append one vertical run of freshly built patches, `(x, y_lo) ..= (x, y_hi)`,
/// to a collection that holds no patch with that `x` yet.
fn push_column(patches: &mut Vec<GroundPatch>, x: i32, y_lo: i32, y_hi: i32)
    requires
        -0x2100_0000 <= x <= 0x2100_0000,
        -0x2100_0000 <= y_lo <= y_hi <= 0x2100_0000,
        patch_coords(old(patches)@).no_duplicates(),
        forall|i: int|
            0 <= i < old(patches)@.len() ==> (#[trigger] patch_coords(old(patches)@)[i]).0
                != x as int,
    ensures
        final(patches)@.len() == old(patches)@.len() + (y_hi - y_lo + 1),
        forall|i: int| 0 <= i < old(patches)@.len() ==> final(patches)@[i] == old(patches)@[i],
        forall|i: int|
            old(patches)@.len() <= i < final(patches)@.len()
                ==> (#[trigger] final(patches)@[i]).wf(),
        patch_coords(final(patches)@) == patch_coords(old(patches)@) + col_seq(
            x as int,
            y_lo as int,
            y_hi as int,
        ),
        patch_coords(final(patches)@).no_duplicates(),
{
    let ghost orig = patches@;
    let mut iy = y_lo;
    while iy <= y_hi
        invariant
            y_lo <= iy <= y_hi + 1,
            -0x2100_0000 <= y_lo <= y_hi <= 0x2100_0000,
            patches@.len() == orig.len() + (iy - y_lo),
            forall|i: int| 0 <= i < orig.len() ==> patches@[i] == orig[i],
            forall|i: int| orig.len() <= i < patches@.len() ==> (#[trigger] patches@[i]).wf(),
            patch_coords(patches@) == patch_coords(orig) + col_seq(
                x as int,
                y_lo as int,
                iy as int - 1,
            ),
        decreases y_hi + 1 - iy,
    {
        let p = GroundPatch::new(x, iy);
        let ghost prev = patches@;
        patches.push(p);
        proof {
            let target = patch_coords(orig) + col_seq(x as int, y_lo as int, iy as int);
            assert forall|k: int|
                0 <= k < patch_coords(patches@).len() implies patch_coords(patches@)[k]
                == target[k] by {
                if k < prev.len() {
                    assert(patches@[k] == prev[k]);
                    assert(patch_coords(prev)[k] == (patch_coords(orig) + col_seq(
                        x as int,
                        y_lo as int,
                        iy as int - 1,
                    ))[k]);
                    if k >= orig.len() {
                        assert(col_seq(x as int, y_lo as int, iy as int - 1)[k - orig.len()] == (
                        x as int,
                        y_lo + (k - orig.len()),
                        ));
                        assert(col_seq(x as int, y_lo as int, iy as int)[k - orig.len()] == (
                        x as int,
                        y_lo + (k - orig.len()),
                        ));
                    }
                } else {
                    assert(patches@[k] == p);
                }
            }
            assert(patch_coords(patches@) =~= target);
        }
        iy += 1;
    }
    proof {
        let col = col_seq(x as int, y_lo as int, y_hi as int);
        assert(col.no_duplicates()) by {
            assert(forall|i: int, j: int|
                0 <= i < col.len() && 0 <= j < col.len() && i != j ==> col[i] != col[j]);
        }
        vstd::seq_lib::lemma_no_dup_in_concat(patch_coords(orig), col);
    }
}

/// Append one horizontal run of freshly built patches, `(x_lo, y) ..=
/// (x_hi, y)`, to a collection that holds no patch with that `y` yet.
fn push_row(patches: &mut Vec<GroundPatch>, y: i32, x_lo: i32, x_hi: i32)
    requires
        -0x2100_0000 <= y <= 0x2100_0000,
        -0x2100_0000 <= x_lo <= x_hi <= 0x2100_0000,
        patch_coords(old(patches)@).no_duplicates(),
        forall|i: int|
            0 <= i < old(patches)@.len() ==> (#[trigger] patch_coords(old(patches)@)[i]).1
                != y as int,
    ensures
        final(patches)@.len() == old(patches)@.len() + (x_hi - x_lo + 1),
        forall|i: int| 0 <= i < old(patches)@.len() ==> final(patches)@[i] == old(patches)@[i],
        forall|i: int|
            old(patches)@.len() <= i < final(patches)@.len()
                ==> (#[trigger] final(patches)@[i]).wf(),
        patch_coords(final(patches)@) == patch_coords(old(patches)@) + row_seq(
            y as int,
            x_lo as int,
            x_hi as int,
        ),
        patch_coords(final(patches)@).no_duplicates(),
{
    let ghost orig = patches@;
    let mut ix = x_lo;
    while ix <= x_hi
        invariant
            x_lo <= ix <= x_hi + 1,
            -0x2100_0000 <= x_lo <= x_hi <= 0x2100_0000,
            patches@.len() == orig.len() + (ix - x_lo),
            forall|i: int| 0 <= i < orig.len() ==> patches@[i] == orig[i],
            forall|i: int| orig.len() <= i < patches@.len() ==> (#[trigger] patches@[i]).wf(),
            patch_coords(patches@) == patch_coords(orig) + row_seq(
                y as int,
                x_lo as int,
                ix as int - 1,
            ),
        decreases x_hi + 1 - ix,
    {
        let p = GroundPatch::new(ix, y);
        let ghost prev = patches@;
        patches.push(p);
        proof {
            let target = patch_coords(orig) + row_seq(y as int, x_lo as int, ix as int);
            assert forall|k: int|
                0 <= k < patch_coords(patches@).len() implies patch_coords(patches@)[k]
                == target[k] by {
                if k < prev.len() {
                    assert(patches@[k] == prev[k]);
                    assert(patch_coords(prev)[k] == (patch_coords(orig) + row_seq(
                        y as int,
                        x_lo as int,
                        ix as int - 1,
                    ))[k]);
                    if k >= orig.len() {
                        assert(row_seq(y as int, x_lo as int, ix as int - 1)[k - orig.len()] == (
                        x_lo + (k - orig.len()),
                        y as int,
                        ));
                        assert(row_seq(y as int, x_lo as int, ix as int)[k - orig.len()] == (
                        x_lo + (k - orig.len()),
                        y as int,
                        ));
                    }
                } else {
                    assert(patches@[k] == p);
                }
            }
            assert(patch_coords(patches@) =~= target);
        }
        ix += 1;
    }
    proof {
        let row = row_seq(y as int, x_lo as int, x_hi as int);
        assert(row.no_duplicates()) by {
            assert(forall|i: int, j: int|
                0 <= i < row.len() && 0 <= j < row.len() && i != j ==> row[i] != row[j]);
        }
        vstd::seq_lib::lemma_no_dup_in_concat(patch_coords(orig), row);
    }
}

/// A sliding window of terrain patches around a moving reference position:
/// after construction or any update, the live patches are exactly the
/// `PATCHES_PER_SIDE` by `PATCHES_PER_SIDE` window of cells centered on the
/// patch the position falls in, one patch per cell.
pub struct Terrain {
    /// The patch cell the reference position falls in.
    pub center: (i32, i32),
    /// The live patches.
    pub patches: Vec<GroundPatch>,
}

impl Terrain {
    /// The grid cells of the live patches, in collection order.
    pub open spec fn coords(self) -> Seq<(int, int)> {
        patch_coords(self.patches@)
    }

    /// The pager's invariant: the center is a patch cell a position in range
    /// can map to, and the live patches are distinct, well formed, and cover
    /// the window around the center exactly.
    pub open spec fn wf(self) -> bool {
        &&& -0x2000_0000 <= self.center.0 <= 0x2000_0000
        &&& -0x2000_0000 <= self.center.1 <= 0x2000_0000
        &&& self.coords().no_duplicates()
        &&& forall|i: int|
            0 <= i < self.coords().len() ==> in_window(
                #[trigger] self.coords()[i],
                self.center.0 as int,
                self.center.1 as int,
            )
        &&& forall|i: int| 0 <= i < self.patches@.len() ==> (#[trigger] self.patches@[i]).wf()
        &&& forall|c: (int, int)|
            in_window(c, self.center.0 as int, self.center.1 as int)
                ==> #[trigger] self.coords().contains(c)
    }

    /// The patch cell a position falls in, along each horizontal axis: the
    /// position divided by the patch width, rounded towards negative
    /// infinity.
    pub fn pos2patch(position: Position) -> (r: (i32, i32))
        requires
            position.in_range(),
        ensures
            r.0 == position.x as int / PATCH_SIZE as int,
            r.1 == position.z as int / PATCH_SIZE as int,
            -0x2000_0000 <= r.0 <= 0x2000_0000,
            -0x2000_0000 <= r.1 <= 0x2000_0000,
    {
        let qx = position.x.checked_div_euclid(PATCH_SIZE).unwrap();
        let qz = position.z.checked_div_euclid(PATCH_SIZE).unwrap();
        (qx as i32, qz as i32)
    }

    /// Build the pager around a starting position: eagerly creates the full
    /// window of patches around the patch cell the position falls in.
    pub fn new(position: Position) -> (r: Terrain)
        requires
            position.in_range(),
        ensures
            r.wf(),
            r.center.0 == position.x as int / PATCH_SIZE as int,
            r.center.1 == position.z as int / PATCH_SIZE as int,
            r.patches@.len() == PATCHES_PER_SIDE * PATCHES_PER_SIDE,
    {
        let (x0, y0) = Self::pos2patch(position);
        let mut patches: Vec<GroundPatch> = Vec::new();
        let mut ix = x0 - HALF_PATCHES_PER_SIDE;
        while ix <= x0 + HALF_PATCHES_PER_SIDE
        invariant
            -0x2000_0000 <= x0 <= 0x2000_0000,
            -0x2000_0000 <= y0 <= 0x2000_0000,
            x0 - 16 <= ix <= x0 + 17,
            patch_coords(patches@).no_duplicates(),
            forall|i: int| 0 <= i < patches@.len() ==> (#[trigger] patches@[i]).wf(),
            forall|i: int|
                0 <= i < patch_coords(patches@).len() ==> in_box(
                    #[trigger] patch_coords(patches@)[i],
                    x0 - 16,
                    ix - 1,
                    y0 - 16,
                    y0 + 16,
                ),
            forall|c: (int, int)|
                in_box(c, x0 - 16, ix - 1, y0 - 16, y0 + 16) ==> #[trigger] patch_coords(
                    patches@,
                ).contains(c),
        decreases x0 + 17 - ix,
        {
            let ghost before = patches@;
            push_column(
                &mut patches,
                ix,
                y0 - HALF_PATCHES_PER_SIDE,
                y0 + HALF_PATCHES_PER_SIDE,
            );
            proof {
                let col = col_seq(ix as int, y0 - 16, y0 + 16);
                assert forall|i: int| 0 <= i < patch_coords(patches@).len() implies in_box(
                    #[trigger] patch_coords(patches@)[i],
                    x0 - 16,
                    ix as int,
                    y0 - 16,
                    y0 + 16,
                ) by {
                    if i < before.len() {
                        assert(patch_coords(patches@)[i] == patch_coords(before)[i]);
                    } else {
                        assert(patch_coords(patches@)[i] == col[i - before.len()]);
                    }
                }
                assert forall|c: (int, int)|
                    in_box(c, x0 - 16, ix as int, y0 - 16, y0 + 16) implies #[trigger] patch_coords(
                    patches@,
                ).contains(c) by {
                    if c.0 <= ix - 1 {
                        assert(patch_coords(before).contains(c));
                        lemma_contains_concat(patch_coords(before), col, c);
                    } else {
                        lemma_col_seq_contains(ix as int, y0 - 16, y0 + 16, c);
                        lemma_contains_concat(patch_coords(before), col, c);
                    }
                }
            }
            ix += 1;
        }
        let t = Terrain { center: (x0, y0), patches };
        proof {
            lemma_window_exact_count(t.coords(), x0 as int, y0 as int);
        }
        t
    }

    /// Every live patch, for the renderer to traverse and draw.
    pub fn to_geometries(&self) -> (r: &Vec<GroundPatch>)
        ensures
            r@ == self.patches@,
    {
        &self.patches
    }

    /// Move the reference position: walks the center one patch cell at a time
    /// toward the cell the position falls in, creating the patches of each
    /// newly reached edge (a whole column or row per step), then evicts every
    /// patch that fell out of the window.
    pub fn update(&mut self, position: Position)
        requires
            old(self).wf(),
            position.in_range(),
        ensures
            final(self).wf(),
            final(self).center.0 == position.x as int / PATCH_SIZE as int,
            final(self).center.1 == position.z as int / PATCH_SIZE as int,
            final(self).patches@.len() == PATCHES_PER_SIDE * PATCHES_PER_SIDE,
    {
        let (x0, y0) = Self::pos2patch(position);
        let ghost cx0 = self.center.0 as int;
        let ghost cy0 = self.center.1 as int;

        if x0 > self.center.0 {
            while x0 > self.center.0
                invariant
                    self.center.1 as int == cy0,
                    cx0 <= self.center.0 <= x0,
                    -0x2000_0000 <= x0 <= 0x2000_0000,
                    -0x2000_0000 <= y0 <= 0x2000_0000,
                    -0x2000_0000 <= cx0,
                    -0x2000_0000 <= cy0 <= 0x2000_0000,
                    patch_coords(self.patches@).no_duplicates(),
                    forall|i: int|
                        0 <= i < self.patches@.len() ==> (#[trigger] self.patches@[i]).wf(),
                    forall|i: int|
                        0 <= i < patch_coords(self.patches@).len() ==> (#[trigger] patch_coords(
                            self.patches@,
                        )[i]).0 <= self.center.0 + 16 && cy0 - 16 <= patch_coords(
                            self.patches@,
                        )[i].1 <= cy0 + 16,
                    forall|c: (int, int)|
                        in_window(c, self.center.0 as int, cy0) ==> #[trigger] patch_coords(
                            self.patches@,
                        ).contains(c),
                decreases x0 - self.center.0,
            {
                let new_cx = self.center.0 + 1;
                self.center = (new_cx, self.center.1);
                let ghost before = self.patches@;
                push_column(
                    &mut self.patches,
                    new_cx + HALF_PATCHES_PER_SIDE,
                    self.center.1 - HALF_PATCHES_PER_SIDE,
                    self.center.1 + HALF_PATCHES_PER_SIDE,
                );
                proof {
                    let col = col_seq(new_cx as int + 16, cy0 - 16, cy0 + 16);
                    assert forall|i: int|
                        0 <= i < patch_coords(self.patches@).len() implies (#[trigger] patch_coords(
                        self.patches@,
                    )[i]).0 <= new_cx + 16 && cy0 - 16 <= patch_coords(self.patches@)[i].1 <= cy0
                        + 16 by {
                        if i < before.len() {
                            assert(patch_coords(self.patches@)[i] == patch_coords(before)[i]);
                        } else {
                            assert(patch_coords(self.patches@)[i] == col[i - before.len()]);
                        }
                    }
                    assert forall|c: (int, int)|
                        in_window(c, new_cx as int, cy0) implies #[trigger] patch_coords(
                        self.patches@,
                    ).contains(c) by {
                        if c.0 <= new_cx + 15 {
                            assert(in_window(c, new_cx as int - 1, cy0));
                            assert(patch_coords(before).contains(c));
                        } else {
                            lemma_col_seq_contains(new_cx as int + 16, cy0 - 16, cy0 + 16, c);
                        }
                        lemma_contains_concat(patch_coords(before), col, c);
                    }
                }
            }
        } else if x0 < self.center.0 {
            while x0 < self.center.0
                invariant
                    self.center.1 as int == cy0,
                    x0 <= self.center.0 <= cx0,
                    -0x2000_0000 <= x0 <= 0x2000_0000,
                    -0x2000_0000 <= y0 <= 0x2000_0000,
                    cx0 <= 0x2000_0000,
                    -0x2000_0000 <= cy0 <= 0x2000_0000,
                    patch_coords(self.patches@).no_duplicates(),
                    forall|i: int|
                        0 <= i < self.patches@.len() ==> (#[trigger] self.patches@[i]).wf(),
                    forall|i: int|
                        0 <= i < patch_coords(self.patches@).len() ==> (#[trigger] patch_coords(
                            self.patches@,
                        )[i]).0 >= self.center.0 - 16 && cy0 - 16 <= patch_coords(
                            self.patches@,
                        )[i].1 <= cy0 + 16,
                    forall|c: (int, int)|
                        in_window(c, self.center.0 as int, cy0) ==> #[trigger] patch_coords(
                            self.patches@,
                        ).contains(c),
                decreases self.center.0 - x0,
            {
                let new_cx = self.center.0 - 1;
                self.center = (new_cx, self.center.1);
                let ghost before = self.patches@;
                push_column(
                    &mut self.patches,
                    new_cx - HALF_PATCHES_PER_SIDE,
                    self.center.1 - HALF_PATCHES_PER_SIDE,
                    self.center.1 + HALF_PATCHES_PER_SIDE,
                );
                proof {
                    let col = col_seq(new_cx as int - 16, cy0 - 16, cy0 + 16);
                    assert forall|i: int|
                        0 <= i < patch_coords(self.patches@).len() implies (#[trigger] patch_coords(
                        self.patches@,
                    )[i]).0 >= new_cx - 16 && cy0 - 16 <= patch_coords(self.patches@)[i].1 <= cy0
                        + 16 by {
                        if i < before.len() {
                            assert(patch_coords(self.patches@)[i] == patch_coords(before)[i]);
                        } else {
                            assert(patch_coords(self.patches@)[i] == col[i - before.len()]);
                        }
                    }
                    assert forall|c: (int, int)|
                        in_window(c, new_cx as int, cy0) implies #[trigger] patch_coords(
                        self.patches@,
                    ).contains(c) by {
                        if c.0 >= new_cx - 15 {
                            assert(in_window(c, new_cx as int + 1, cy0));
                            assert(patch_coords(before).contains(c));
                        } else {
                            lemma_col_seq_contains(new_cx as int - 16, cy0 - 16, cy0 + 16, c);
                        }
                        lemma_contains_concat(patch_coords(before), col, c);
                    }
                }
            }
        }

        if y0 > self.center.1 {
            while y0 > self.center.1
                invariant
                    self.center.0 == x0,
                    cy0 <= self.center.1 <= y0,
                    -0x2000_0000 <= x0 <= 0x2000_0000,
                    -0x2000_0000 <= y0 <= 0x2000_0000,
                    -0x2000_0000 <= cy0,
                    patch_coords(self.patches@).no_duplicates(),
                    forall|i: int|
                        0 <= i < self.patches@.len() ==> (#[trigger] self.patches@[i]).wf(),
                    forall|i: int|
                        0 <= i < patch_coords(self.patches@).len() ==> (#[trigger] patch_coords(
                            self.patches@,
                        )[i]).1 <= self.center.1 + 16,
                    forall|c: (int, int)|
                        in_window(c, x0 as int, self.center.1 as int) ==> #[trigger] patch_coords(
                            self.patches@,
                        ).contains(c),
                decreases y0 - self.center.1,
            {
                let new_cy = self.center.1 + 1;
                self.center = (self.center.0, new_cy);
                let ghost before = self.patches@;
                push_row(
                    &mut self.patches,
                    new_cy + HALF_PATCHES_PER_SIDE,
                    self.center.0 - HALF_PATCHES_PER_SIDE,
                    self.center.0 + HALF_PATCHES_PER_SIDE,
                );
                proof {
                    let row = row_seq(new_cy as int + 16, x0 as int - 16, x0 as int + 16);
                    assert forall|i: int|
                        0 <= i < patch_coords(self.patches@).len() implies (#[trigger] patch_coords(
                        self.patches@,
                    )[i]).1 <= new_cy + 16 by {
                        if i < before.len() {
                            assert(patch_coords(self.patches@)[i] == patch_coords(before)[i]);
                        } else {
                            assert(patch_coords(self.patches@)[i] == row[i - before.len()]);
                        }
                    }
                    assert forall|c: (int, int)|
                        in_window(c, x0 as int, new_cy as int) implies #[trigger] patch_coords(
                        self.patches@,
                    ).contains(c) by {
                        if c.1 <= new_cy + 15 {
                            assert(in_window(c, x0 as int, new_cy as int - 1));
                            assert(patch_coords(before).contains(c));
                        } else {
                            lemma_row_seq_contains(new_cy as int + 16, x0 as int - 16, x0 as int + 16, c);
                        }
                        lemma_contains_concat(patch_coords(before), row, c);
                    }
                }
            }
        } else if y0 < self.center.1 {
            while y0 < self.center.1
                invariant
                    self.center.0 == x0,
                    y0 <= self.center.1 <= cy0,
                    -0x2000_0000 <= x0 <= 0x2000_0000,
                    -0x2000_0000 <= y0 <= 0x2000_0000,
                    cy0 <= 0x2000_0000,
                    patch_coords(self.patches@).no_duplicates(),
                    forall|i: int|
                        0 <= i < self.patches@.len() ==> (#[trigger] self.patches@[i]).wf(),
                    forall|i: int|
                        0 <= i < patch_coords(self.patches@).len() ==> (#[trigger] patch_coords(
                            self.patches@,
                        )[i]).1 >= self.center.1 - 16,
                    forall|c: (int, int)|
                        in_window(c, x0 as int, self.center.1 as int) ==> #[trigger] patch_coords(
                            self.patches@,
                        ).contains(c),
                decreases self.center.1 - y0,
            {
                let new_cy = self.center.1 - 1;
                self.center = (self.center.0, new_cy);
                let ghost before = self.patches@;
                push_row(
                    &mut self.patches,
                    new_cy - HALF_PATCHES_PER_SIDE,
                    self.center.0 - HALF_PATCHES_PER_SIDE,
                    self.center.0 + HALF_PATCHES_PER_SIDE,
                );
                proof {
                    let row = row_seq(new_cy as int - 16, x0 as int - 16, x0 as int + 16);
                    assert forall|i: int|
                        0 <= i < patch_coords(self.patches@).len() implies (#[trigger] patch_coords(
                        self.patches@,
                    )[i]).1 >= new_cy - 16 by {
                        if i < before.len() {
                            assert(patch_coords(self.patches@)[i] == patch_coords(before)[i]);
                        } else {
                            assert(patch_coords(self.patches@)[i] == row[i - before.len()]);
                        }
                    }
                    assert forall|c: (int, int)|
                        in_window(c, x0 as int, new_cy as int) implies #[trigger] patch_coords(
                        self.patches@,
                    ).contains(c) by {
                        if c.1 >= new_cy - 15 {
                            assert(in_window(c, x0 as int, new_cy as int + 1));
                            assert(patch_coords(before).contains(c));
                        } else {
                            lemma_row_seq_contains(new_cy as int - 16, x0 as int - 16, x0 as int + 16, c);
                        }
                        lemma_contains_concat(patch_coords(before), row, c);
                    }
                }
            }
        }

        let ghost all = patch_coords(self.patches@);
        proof {
            assert(self.center.0 == x0 && self.center.1 == y0);
            assert(forall|c: (int, int)|
                in_window(c, x0 as int, y0 as int) ==> #[trigger] all.contains(c));
            assert(all.skip(0) =~= all);
        }
        let mut kept: Vec<GroundPatch> = Vec::new();
        while self.patches.len() > 0
            invariant
                -0x2000_0000 <= x0 <= 0x2000_0000,
                -0x2000_0000 <= y0 <= 0x2000_0000,
                self.center.0 == x0,
                self.center.1 == y0,
                all.no_duplicates(),
                self.patches@.len() <= all.len(),
                patch_coords(self.patches@) == all.skip(all.len() - self.patches@.len()),
                forall|i: int| 0 <= i < self.patches@.len() ==> (#[trigger] self.patches@[i]).wf(),
                patch_coords(kept@).no_duplicates(),
                forall|i: int| 0 <= i < kept@.len() ==> (#[trigger] kept@[i]).wf(),
                forall|i: int|
                    0 <= i < patch_coords(kept@).len() ==> in_window(
                        #[trigger] patch_coords(kept@)[i],
                        x0 as int,
                        y0 as int,
                    ),
                forall|c: (int, int)|
                    #[trigger] patch_coords(kept@).contains(c) ==> !patch_coords(
                        self.patches@,
                    ).contains(c),
                forall|c: (int, int)|
                    in_window(c, x0 as int, y0 as int) && #[trigger] all.contains(c)
                        ==> (patch_coords(self.patches@).contains(c) || patch_coords(
                        kept@,
                    ).contains(c)),
            decreases self.patches.len(),
        {
            let ghost rem_before = self.patches@;
            let ghost kept_before = kept@;
            let ghost k0 = all.len() - rem_before.len();
            let p = self.patches.remove(0);
            let ghost cp = (p.ix as int, p.iy as int);
            proof {
                assert(patch_coords(rem_before)[0] == cp);
                assert(patch_coords(rem_before) == all.skip(k0 as int));
                assert(all.skip(k0 as int)[0] == all[k0 as int]);
                assert(cp == all[k0 as int]);
                assert forall|j: int|
                    0 <= j < patch_coords(self.patches@).len() implies patch_coords(
                    self.patches@,
                )[j] == all.skip(k0 as int + 1)[j] by {
                    assert(self.patches@[j] == rem_before[j + 1]);
                    assert(patch_coords(rem_before)[j + 1] == all.skip(k0 as int)[j + 1]);
                    assert(all.skip(k0 as int)[j + 1] == all[k0 as int + j + 1]);
                    assert(all.skip(k0 as int + 1)[j] == all[k0 as int + j + 1]);
                }
                assert(patch_coords(self.patches@) =~= all.skip(k0 as int + 1));
            }
            let dx = x0 as i64 - p.ix as i64;
            let dx = if dx < 0 {
                -dx
            } else {
                dx
            };
            let dy = y0 as i64 - p.iy as i64;
            let dy = if dy < 0 {
                -dy
            } else {
                dy
            };
            if dx <= 16 && dy <= 16 {
                proof {
                    assert(in_window(cp, x0 as int, y0 as int));
                    assert(!patch_coords(kept_before).contains(cp)) by {
                        assert(patch_coords(rem_before).contains(cp)) by {
                            assert(patch_coords(rem_before)[0] == cp);
                        }
                    }
                }
                kept.push(p);
                proof {
                    assert forall|k: int|
                        0 <= k < patch_coords(kept@).len() implies patch_coords(kept@)[k] == (
                    patch_coords(kept_before).push(cp))[k] by {
                        if k < kept_before.len() {
                            assert(kept@[k] == kept_before[k]);
                        } else {
                            assert(kept@[k] == p);
                        }
                    }
                    assert(patch_coords(kept@) =~= patch_coords(kept_before).push(cp));
                    assert(patch_coords(kept@).no_duplicates()) by {
                        assert forall|i: int, j: int|
                            0 <= i < patch_coords(kept@).len() && 0 <= j < patch_coords(
                                kept@,
                            ).len() && i != j implies patch_coords(kept@)[i] != patch_coords(
                            kept@,
                        )[j] by {
                            if i < kept_before.len() && j < kept_before.len() {
                            } else if i < kept_before.len() {
                                if patch_coords(kept_before)[i] == cp {
                                    assert(patch_coords(kept_before).contains(cp));
                                }
                            } else {
                                if patch_coords(kept_before)[j] == cp {
                                    assert(patch_coords(kept_before).contains(cp));
                                }
                            }
                        }
                    }
                }
            }
            proof {
                assert forall|c: (int, int)|
                    #[trigger] patch_coords(kept@).contains(c) implies !patch_coords(
                    self.patches@,
                ).contains(c) by {
                    if patch_coords(self.patches@).contains(c) {
                        let j = choose|j: int|
                            0 <= j < patch_coords(self.patches@).len() && patch_coords(
                                self.patches@,
                            )[j] == c;
                        assert(patch_coords(self.patches@)[j] == all[k0 as int + 1 + j]);
                        assert(patch_coords(rem_before)[j + 1] == c);
                        assert(patch_coords(rem_before).contains(c));
                        if patch_coords(kept_before).contains(c) {
                        } else {
                            assert(c == cp);
                            assert(all[k0 as int] == all[k0 as int + 1 + j]);
                        }
                    }
                }
                assert forall|c: (int, int)|
                    in_window(c, x0 as int, y0 as int) && #[trigger] all.contains(c) implies (
                patch_coords(self.patches@).contains(c) || patch_coords(kept@).contains(c)) by {
                    if patch_coords(kept_before).contains(c) {
                        let i = choose|i: int|
                            0 <= i < patch_coords(kept_before).len() && patch_coords(
                                kept_before,
                            )[i] == c;
                        assert(patch_coords(kept@)[i] == c);
                        assert(patch_coords(kept@).contains(c));
                    } else if patch_coords(rem_before).contains(c) {
                        let i = choose|i: int|
                            0 <= i < patch_coords(rem_before).len() && patch_coords(
                                rem_before,
                            )[i] == c;
                        if i >= 1 {
                            assert(patch_coords(rem_before)[i] == all.skip(k0 as int)[i]);
                            assert(all.skip(k0 as int)[i] == all[k0 as int + i]);
                            assert(all.skip(k0 as int + 1)[i - 1] == all[k0 as int + i]);
                            assert(patch_coords(self.patches@)[i - 1] == c);
                            assert(patch_coords(self.patches@).contains(c));
                        } else {
                            assert(c == cp);
                            assert(in_window(cp, x0 as int, y0 as int));
                            assert(patch_coords(kept@)[patch_coords(kept@).len() - 1] == cp);
                            assert(patch_coords(kept@).contains(c));
                        }
                    }
                }
            }
        }
        self.patches = kept;
        proof {
            assert forall|c: (int, int)|
                in_window(c, x0 as int, y0 as int) implies #[trigger] patch_coords(
                self.patches@,
            ).contains(c) by {
                assert(all.contains(c));
            }
            lemma_window_exact_count(patch_coords(self.patches@), x0 as int, y0 as int);
        }
    }
}

} // verus!
