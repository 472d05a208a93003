//! Displacement schedules for the diamond-square and midpoint displacement
//! generators.
//!
//! Both generators work on a square grid of side `size = 2^n + 1`, stored row
//! by row (cell `(x, y)` is at `y * size + x`). The four corners are seeded
//! first; then, for each step size `d` (from `size - 1`, halving while above
//! one), a list of displacements is applied in order. A displacement sets its
//! target cell to the mean of its source cells plus a uniform perturbation in
//! `[-spread, spread]`. This module computes those lists exactly; the caller
//! supplies the cell values and the random perturbations.
use vstd::prelude::*;
use vstd::arithmetic::div_mod::lemma_fundamental_div_mod_converse;
use vstd::arithmetic::div_mod::lemma_fundamental_div_mod;

verus! {

/// Largest width or height that a generated map may have.
pub const MAX_EXTENT: u32 = 32768;

/// Largest side of a working grid: `MAX_EXTENT + 1`.
pub const MAX_SIDE: usize = 32769;

/// One displacement: `target` becomes the mean of `sources` plus a uniform
/// perturbation in `[-spread, spread]`.
#[derive(Debug)]
pub struct Displacement {
    pub target: usize,
    pub sources: Vec<usize>,
    pub spread: usize,
}

/// Whether the target and every source of `s` are cells of a grid of side
/// `size`.
pub open spec fn in_grid(size: int, s: Displacement) -> bool {
    &&& s.target < size * size
    &&& forall|k: int| 0 <= k < s.sources.len() ==> #[trigger] s.sources[k] < size * size
}

/// Index of cell `(x, y)` in a square grid of side `size`.
pub open spec fn cell(size: int, x: int, y: int) -> int {
    y * size + x
}

/// Smallest `p * 2^k` that is at least `n` (for `p >= 1`).
pub open spec fn pow2_from(n: nat, p: nat) -> nat
    decreases (if p < n { n - p } else { 0 }),
{
    if p == 0 || p >= n {
        p
    } else {
        pow2_from(n, 2 * p)
    }
}

/// Side of the working grid for a requested map:
/// the smallest power of two at least `max(width, height) - 1`, plus one.
pub open spec fn grid_side_of(width: nat, height: nat) -> nat {
    let m = if width > height { width } else { height };
    pow2_from((m - 1) as nat, 1) + 1
}

/// The step sizes, starting at `d` and halving while above one.
pub open spec fn level_seq(d: nat) -> Seq<usize>
    decreases d,
{
    if d <= 1 {
        Seq::empty()
    } else {
        seq![d as usize] + level_seq(d / 2)
    }
}

/// Whether `c` is one of the four corner cells of a grid of side `size`.
pub open spec fn is_corner(size: int, c: int) -> bool {
    c == cell(size, 0, 0) || c == cell(size, size - 1, 0) || c == cell(size, 0, size - 1) || c
        == cell(size, size - 1, size - 1)
}

/// Number of blocks of side `d` along one side of the grid.
pub open spec fn blocks(size: int, d: int) -> int {
    (size - 1) / d
}

/// Coordinate of the centre of the `i`-th block of side `d`.
pub open spec fn centre(d: int, i: int) -> int {
    d / 2 + i * d
}

/// The four corners of the block centred on `(x, y)`, in the order
/// `(x-h, y-h)`, `(x-h, y+h)`, `(x+h, y-h)`, `(x+h, y+h)`, with `h = d / 2`.
pub open spec fn block_corners(size: int, d: int, x: int, y: int) -> Seq<usize> {
    let h = d / 2;
    seq![
        cell(size, x - h, y - h) as usize,
        cell(size, x - h, y + h) as usize,
        cell(size, x + h, y - h) as usize,
        cell(size, x + h, y + h) as usize,
    ]
}

/// The `k`-th cell set around the block centre `(x, y)`: the centre itself
/// (`k == 0`), then `(x-h, y)`, `(x+h, y)`, `(x, y-h)` and `(x, y+h)`.
pub open spec fn around_x(d: int, x: int, k: int) -> int {
    if k == 1 {
        x - d / 2
    } else if k == 2 {
        x + d / 2
    } else {
        x
    }
}

pub open spec fn around_y(d: int, y: int, k: int) -> int {
    if k == 3 {
        y - d / 2
    } else if k == 4 {
        y + d / 2
    } else {
        y
    }
}

/// The neighbours at distance `h` of `(x, y)` that lie inside the grid, in
/// the order left, right, up, down.
pub open spec fn diamond_sources(size: int, h: int, x: int, y: int) -> Seq<usize> {
    (if x - h >= 0 { seq![cell(size, x - h, y) as usize] } else { Seq::empty() }) + (if x + h
        < size {
        seq![cell(size, x + h, y) as usize]
    } else {
        Seq::empty()
    }) + (if y - h >= 0 { seq![cell(size, x, y - h) as usize] } else { Seq::empty() }) + (if y
        + h < size {
        seq![cell(size, x, y + h) as usize]
    } else {
        Seq::empty()
    })
}

/// Sources of the `k`-th midpoint displacement around the block centre
/// `(x, y)`: the centre takes the mean of the four block corners, each edge
/// midpoint the mean of the two corners of its edge.
pub open spec fn midpoint_sources(size: int, d: int, x: int, y: int, k: int) -> Seq<usize> {
    let c = block_corners(size, d, x, y);
    if k == 0 {
        c
    } else if k == 1 {
        seq![c[0], c[1]]
    } else if k == 2 {
        seq![c[2], c[3]]
    } else if k == 3 {
        seq![c[0], c[2]]
    } else {
        seq![c[1], c[3]]
    }
}

/// The `n`-th displacement of the midpoint level with step `d`: blocks are
/// taken with `x` outer and `y` inner, five displacements per block.
pub open spec fn midpoint_step(size: int, d: int, n: int, s: Displacement) -> bool {
    let m = blocks(size, d);
    let b = n / 5;
    let k = n % 5;
    let x = centre(d, b / m);
    let y = centre(d, b % m);
    &&& s.target == cell(size, around_x(d, x, k), around_y(d, y, k))
    &&& s.sources@ == midpoint_sources(size, d, x, y, k)
    &&& s.spread == d
}

/// The `n`-th displacement of the diamond-square level with step `d`: first
/// one square displacement per block (block centre from the block corners),
/// then four diamond displacements per block (each edge midpoint from its
/// neighbours inside the grid); blocks with `x` outer and `y` inner.
pub open spec fn diamond_square_step(size: int, d: int, n: int, s: Displacement) -> bool {
    let m = blocks(size, d);
    if n < m * m {
        let x = centre(d, n / m);
        let y = centre(d, n % m);
        &&& s.target == cell(size, x, y)
        &&& s.sources@ == block_corners(size, d, x, y)
        &&& s.spread == d
    } else {
        let b = (n - m * m) / 4;
        let k = (n - m * m) % 4 + 1;
        let x = centre(d, b / m);
        let y = centre(d, b % m);
        let tx = around_x(d, x, k);
        let ty = around_y(d, y, k);
        &&& s.target == cell(size, tx, ty)
        &&& s.sources@ == diamond_sources(size, d / 2, tx, ty)
        &&& s.spread == d
    }
}

proof fn lemma_decode(n: int, per: int, m: int, i: int, j: int, k: int)
    requires
        per > 0,
        m > 0,
        i >= 0,
        0 <= j < m,
        0 <= k < per,
        n == per * (i * m + j) + k,
    ensures
        n / per == i * m + j,
        n % per == k,
        (n / per) / m == i,
        (n / per) % m == j,
{
    assert(n == (i * m + j) * per + k) by (nonlinear_arith)
        requires
            n == per * (i * m + j) + k,
    ;
    lemma_fundamental_div_mod_converse(n, per, i * m + j, k);
    lemma_fundamental_div_mod_converse(i * m + j, m, i, j);
}

/// A block centre and its half step stay inside the grid, away from its edges.
proof fn lemma_centre_bounds(size: int, d: int, i: int)
    requires
        2 <= d < size,
        0 <= i < blocks(size, d),
    ensures
        d / 2 >= 1,
        centre(d, i) - d / 2 >= 0,
        centre(d, i) + d / 2 <= size - 1,
        centre(d, i) + d / 2 <= (i + 1) * d,
        centre(d, i) - d / 2 == i * d,
        blocks(size, d) * d <= size - 1,
        blocks(size, d) >= 1,
{
    let m = blocks(size, d);
    lemma_fundamental_div_mod(size - 1, d);
    assert((i + 1) * d <= m * d) by (nonlinear_arith)
        requires
            i + 1 <= m,
            d >= 0,
    ;
    assert((i + 1) * d == i * d + d) by (nonlinear_arith);
    assert(d * m == m * d) by (nonlinear_arith);
}

proof fn lemma_cell_bound(size: int, x: int, y: int)
    requires
        0 <= x < size,
        0 <= y < size,
        size <= MAX_SIDE,
    ensures
        0 <= cell(size, x, y) < size * size,
        size * size <= MAX_SIDE * MAX_SIDE,
{
    assert(0 <= y * size + x < size * size) by (nonlinear_arith)
        requires
            0 <= x < size,
            0 <= y < size,
    ;
    assert(size * size <= MAX_SIDE * MAX_SIDE) by (nonlinear_arith)
        requires
            0 <= size <= MAX_SIDE,
    ;
}

/// Index of cell `(x, y)` in a square grid of side `size`.
pub fn cell_index(size: usize, x: usize, y: usize) -> (c: usize)
    requires
        x < size,
        y < size,
        size <= MAX_SIDE,
    ensures
        c == cell(size as int, x as int, y as int),
        c < size * size,
{
    proof {
        lemma_cell_bound(size as int, x as int, y as int);
    }
    y * size + x
}

proof fn lemma_pow2_from_bounds(n: nat, p: nat)
    requires
        p >= 1,
    ensures
        pow2_from(n, p) >= n,
        pow2_from(n, p) >= p,
    decreases (if p < n { n - p } else { 0 }),
{
    if p < n {
        lemma_pow2_from_bounds(n, 2 * p);
    }
}

/// Side of the working grid for a map of `width` by `height` cells: the
/// smallest power of two at least `max(width, height) - 1`, plus one. It is
/// at least the larger dimension, so the map is a sub-region of the grid.
pub fn grid_side(width: u32, height: u32) -> (size: usize)
    requires
        1 <= width <= MAX_EXTENT,
        1 <= height <= MAX_EXTENT,
    ensures
        size == grid_side_of(width as nat, height as nat),
        size >= 2,
        size >= width,
        size >= height,
        size <= MAX_SIDE,
{
    let m: u32 = if width > height {
        width - 1
    } else {
        height - 1
    };
    let mut p: u32 = 1;
    assert(p & ((p - 1) as u32) == 0) by (bit_vector)
        requires
            p == 1u32,
    ;
    while p < m
        invariant
            1 <= p <= MAX_EXTENT,
            p & ((p - 1) as u32) == 0,
            m < MAX_EXTENT,
            pow2_from(m as nat, p as nat) == pow2_from(m as nat, 1),
        decreases (if p < m { m - p } else { 0 }),
    {
        assert((p * 2) as u32 <= 32768u32 && ((p * 2) as u32) & (((p * 2) as u32 - 1) as u32) == 0 && (p * 2) as u32 == p * 2) by (bit_vector)
            requires
                1 <= p,
                p < m,
                m < 32768u32,
                p & ((p - 1) as u32) == 0,
        ;
        p = p * 2;
    }
    proof {
        lemma_pow2_from_bounds(m as nat, p as nat);
    }
    (p + 1) as usize
}

/// Cells of the four corners, in the order in which they are seeded:
/// `(0, 0)`, `(size-1, 0)`, `(0, size-1)`, `(size-1, size-1)`.
pub fn corner_cells(size: usize) -> (c: [usize; 4])
    requires
        1 <= size <= MAX_SIDE,
    ensures
        c[0] == cell(size as int, 0, 0),
        c[1] == cell(size as int, size - 1, 0),
        c[2] == cell(size as int, 0, size - 1),
        c[3] == cell(size as int, size - 1, size - 1),
        forall|k: int| 0 <= k < 4 ==> is_corner(size as int, #[trigger] c[k] as int),
{
    [
        cell_index(size, 0, 0),
        cell_index(size, size - 1, 0),
        cell_index(size, 0, size - 1),
        cell_index(size, size - 1, size - 1),
    ]
}

/// Step sizes of a grid of side `size`: `size - 1`, then halving while the
/// step is above one.
pub fn step_sizes(size: usize) -> (r: Vec<usize>)
    requires
        size >= 1,
    ensures
        r@ == level_seq((size - 1) as nat),
        forall|k: int| 0 <= k < r.len() ==> 2 <= #[trigger] r[k] < size,
{
    let mut r: Vec<usize> = Vec::new();
    let mut d: usize = size - 1;
    while d > 1
        invariant
            d < size,
            r@ + level_seq(d as nat) == level_seq((size - 1) as nat),
            forall|k: int| 0 <= k < r.len() ==> 2 <= #[trigger] r[k] < size,
        decreases d,
    {
        let ghost before = r@;
        r.push(d);
        proof {
            assert(level_seq(d as nat) == seq![d as usize] + level_seq((d / 2) as nat));
            assert(before + level_seq(d as nat) =~= r@ + level_seq((d / 2) as nat));
        }
        d = d / 2;
    }
    proof {
        assert(level_seq(d as nat) == Seq::<usize>::empty());
        assert(r@ =~= r@ + level_seq(d as nat));
    }
    r
}

/// Builds the displacement of `target` from `sources` with spread `d`.
fn displacement(target: usize, sources: Vec<usize>, d: usize) -> (s: Displacement)
    ensures
        s.target == target,
        s.sources@ == sources@,
        s.spread == d,
{
    Displacement { target, sources, spread: d }
}

/// The midpoint displacement generator.
pub struct Midpoint2d {}

impl Midpoint2d {
    pub fn new() -> (g: Midpoint2d) {
        Midpoint2d {  }
    }

    /// The displacements of the level with step `d` on a grid of side `size`.
    /// For each block (centre `x` outer, `y` inner) it sets, in order, the
    /// centre from the four block corners, then `(x-h, y)`, `(x+h, y)`,
    /// `(x, y-h)` and `(x, y+h)` each from the two corners of its edge.
    pub fn level_steps(&self, size: usize, d: usize) -> (r: Vec<Displacement>)
        requires
            2 <= d < size,
            size <= MAX_SIDE,
        ensures
            r.len() == 5 * blocks(size as int, d as int) * blocks(size as int, d as int),
            forall|n: int| 0 <= n < r.len() ==> midpoint_step(size as int, d as int, n, #[trigger] r[n]),
            forall|n: int| 0 <= n < r.len() ==> in_grid(size as int, #[trigger] r[n]),
    {
        let m = (size - 1) / d;
        let h = d / 2;
        let mut r: Vec<Displacement> = Vec::new();
        let mut i: usize = 0;
        while i < m
            invariant
                m == blocks(size as int, d as int),
                h == d / 2,
                2 <= d < size <= MAX_SIDE,
                i <= m,
                r.len() == 5 * (i * m),
                forall|n: int| 0 <= n < r.len() ==> midpoint_step(size as int, d as int, n, #[trigger] r[n]),
                forall|n: int| 0 <= n < r.len() ==> in_grid(size as int, #[trigger] r[n]),
            decreases m - i,
        {
            proof {
                lemma_centre_bounds(size as int, d as int, i as int);
            }
            let x = h + i * d;
            let mut j: usize = 0;
            while j < m
                invariant
                    m == blocks(size as int, d as int),
                    h == d / 2,
                    2 <= d < size <= MAX_SIDE,
                    i < m,
                    j <= m,
                    x == centre(d as int, i as int),
                    x - h >= 0,
                    x + h < size,
                    r.len() == 5 * (i * m + j),
                    forall|n: int| 0 <= n < r.len() ==> midpoint_step(size as int, d as int, n, #[trigger] r[n]),
                    forall|n: int| 0 <= n < r.len() ==> in_grid(size as int, #[trigger] r[n]),
                decreases m - j,
            {
                proof {
                    lemma_centre_bounds(size as int, d as int, j as int);
                }
                let y = h + j * d;
                let tl = cell_index(size, x - h, y - h);
                let tr = cell_index(size, x - h, y + h);
                let bl = cell_index(size, x + h, y - h);
                let br = cell_index(size, x + h, y + h);
                let ghost corners = block_corners(size as int, d as int, x as int, y as int);
                let ghost base = r.len() as int;
                r.push(displacement(cell_index(size, x, y), vec![tl, tr, bl, br], d));
                r.push(displacement(cell_index(size, x - h, y), vec![tl, tr], d));
                r.push(displacement(cell_index(size, x + h, y), vec![bl, br], d));
                r.push(displacement(cell_index(size, x, y - h), vec![tl, bl], d));
                r.push(displacement(cell_index(size, x, y + h), vec![tr, br], d));
                proof {
                    assert forall|n: int| 0 <= n < r.len() implies midpoint_step(
                        size as int,
                        d as int,
                        n,
                        #[trigger] r[n],
                    ) by {
                        if n >= base {
                            lemma_decode(n, 5, m as int, i as int, j as int, n - base);
                            assert(r[n].sources@ =~= midpoint_sources(
                                size as int,
                                d as int,
                                x as int,
                                y as int,
                                n - base,
                            ));
                        }
                    }
                    assert(5 * (i * m + j) + 5 == 5 * (i * m + (j + 1))) by (nonlinear_arith);
                }
                j = j + 1;
            }
            proof {
                assert(i * m + m == (i + 1) * m) by (nonlinear_arith);
            }
            i = i + 1;
        }
        proof {
            assert(5 * (m * m) == 5 * m * m) by (nonlinear_arith);
        }
        r
    }
}

/// The diamond-square generator.
pub struct Diamond2d {}

impl Diamond2d {
    pub fn new() -> (g: Diamond2d) {
        Diamond2d {  }
    }

    /// Neighbours at distance `h` of `(x, y)` inside the grid: left, right,
    /// up, down. Cells outside the grid are left out, so an edge cell has
    /// three and a corner cell two.
    fn neighbours(size: usize, h: usize, x: usize, y: usize) -> (v: Vec<usize>)
        requires
            x < size,
            y < size,
            size <= MAX_SIDE,
            h < size,
        ensures
            v@ == diamond_sources(size as int, h as int, x as int, y as int),
            forall|k: int| 0 <= k < v.len() ==> #[trigger] v[k] < size * size,
    {
        let mut v: Vec<usize> = Vec::new();
        let ghost s = size as int;
        if x >= h {
            v.push(cell_index(size, x - h, y));
        }
        let ghost v1 = v@;
        if x + h < size {
            v.push(cell_index(size, x + h, y));
        }
        let ghost v2 = v@;
        if y >= h {
            v.push(cell_index(size, x, y - h));
        }
        let ghost v3 = v@;
        if y + h < size {
            v.push(cell_index(size, x, y + h));
        }
        proof {
            let a = if x - h >= 0 { seq![cell(s, x - h, y as int) as usize] } else { Seq::empty() };
            let b = if x + h < s { seq![cell(s, x + h, y as int) as usize] } else { Seq::empty() };
            let c = if y - h >= 0 { seq![cell(s, x as int, y - h) as usize] } else { Seq::empty() };
            let e = if y + h < s { seq![cell(s, x as int, y + h) as usize] } else { Seq::empty() };
            assert(v1 =~= a);
            assert(v2 =~= a + b);
            assert(v3 =~= a + b + c);
            assert(v@ =~= a + b + c + e);
        }
        v
    }

    /// The displacements of the level with step `d` on a grid of side `size`.
    /// First the square pass: for each block (centre `x` outer, `y` inner)
    /// the centre from the four block corners. Then the diamond pass: for
    /// each block, in order, `(x-h, y)`, `(x+h, y)`, `(x, y-h)` and
    /// `(x, y+h)`, each from its neighbours at distance `h` inside the grid.
    pub fn level_steps(&self, size: usize, d: usize) -> (r: Vec<Displacement>)
        requires
            2 <= d < size,
            size <= MAX_SIDE,
        ensures
            r.len() == 5 * blocks(size as int, d as int) * blocks(size as int, d as int),
            forall|n: int| 0 <= n < r.len() ==> diamond_square_step(size as int, d as int, n, #[trigger] r[n]),
            forall|n: int| 0 <= n < r.len() ==> in_grid(size as int, #[trigger] r[n]),
    {
        let m = (size - 1) / d;
        let h = d / 2;
        let mut r: Vec<Displacement> = Vec::new();
        let mut i: usize = 0;
        while i < m
            invariant
                m == blocks(size as int, d as int),
                h == d / 2,
                2 <= d < size <= MAX_SIDE,
                i <= m,
                r.len() == i * m,
                forall|n: int| 0 <= n < r.len() ==> diamond_square_step(size as int, d as int, n, #[trigger] r[n]),
                forall|n: int| 0 <= n < r.len() ==> in_grid(size as int, #[trigger] r[n]),
            decreases m - i,
        {
            proof {
                lemma_centre_bounds(size as int, d as int, i as int);
            }
            let x = h + i * d;
            let mut j: usize = 0;
            while j < m
                invariant
                    m == blocks(size as int, d as int),
                    h == d / 2,
                    2 <= d < size <= MAX_SIDE,
                    i < m,
                    j <= m,
                    x == centre(d as int, i as int),
                    x - h >= 0,
                    x + h < size,
                    r.len() == i * m + j,
                    forall|n: int| 0 <= n < r.len() ==> diamond_square_step(size as int, d as int, n, #[trigger] r[n]),
                    forall|n: int| 0 <= n < r.len() ==> in_grid(size as int, #[trigger] r[n]),
                decreases m - j,
            {
                proof {
                    lemma_centre_bounds(size as int, d as int, j as int);
                }
                let y = h + j * d;
                let tl = cell_index(size, x - h, y - h);
                let tr = cell_index(size, x - h, y + h);
                let bl = cell_index(size, x + h, y - h);
                let br = cell_index(size, x + h, y + h);
                let ghost base = r.len() as int;
                r.push(displacement(cell_index(size, x, y), vec![tl, tr, bl, br], d));
                proof {
                    assert forall|n: int| 0 <= n < r.len() implies diamond_square_step(
                        size as int,
                        d as int,
                        n,
                        #[trigger] r[n],
                    ) by {
                        if n == base {
                            lemma_decode(n, 1, m as int, i as int, j as int, 0);
                            assert(i * m + j < m * m) by (nonlinear_arith)
                                requires
                                    i < m,
                                    j < m,
                            ;
                            assert(r[n].sources@ =~= block_corners(
                                size as int,
                                d as int,
                                x as int,
                                y as int,
                            ));
                        }
                    }
                }
                j = j + 1;
            }
            proof {
                assert(i * m + m == (i + 1) * m) by (nonlinear_arith);
            }
            i = i + 1;
        }
        let ghost sq = r.len() as int;
        assert(sq == m * m);
        let mut i: usize = 0;
        while i < m
            invariant
                m == blocks(size as int, d as int),
                h == d / 2,
                2 <= d < size <= MAX_SIDE,
                i <= m,
                sq == m * m,
                r.len() == sq + 4 * (i * m),
                forall|n: int| 0 <= n < r.len() ==> diamond_square_step(size as int, d as int, n, #[trigger] r[n]),
                forall|n: int| 0 <= n < r.len() ==> in_grid(size as int, #[trigger] r[n]),
            decreases m - i,
        {
            proof {
                lemma_centre_bounds(size as int, d as int, i as int);
            }
            let x = h + i * d;
            let mut j: usize = 0;
            while j < m
                invariant
                    m == blocks(size as int, d as int),
                    h == d / 2,
                    2 <= d < size <= MAX_SIDE,
                    i < m,
                    j <= m,
                    sq == m * m,
                    x == centre(d as int, i as int),
                    x - h >= 0,
                    x + h < size,
                    r.len() == sq + 4 * (i * m + j),
                    forall|n: int| 0 <= n < r.len() ==> diamond_square_step(size as int, d as int, n, #[trigger] r[n]),
                    forall|n: int| 0 <= n < r.len() ==> in_grid(size as int, #[trigger] r[n]),
                decreases m - j,
            {
                proof {
                    lemma_centre_bounds(size as int, d as int, j as int);
                }
                let y = h + j * d;
                let ghost base = r.len() as int;
                r.push(displacement(cell_index(size, x - h, y), Self::neighbours(size, h, x - h, y), d));
                r.push(displacement(cell_index(size, x + h, y), Self::neighbours(size, h, x + h, y), d));
                r.push(displacement(cell_index(size, x, y - h), Self::neighbours(size, h, x, y - h), d));
                r.push(displacement(cell_index(size, x, y + h), Self::neighbours(size, h, x, y + h), d));
                proof {
                    assert forall|n: int| 0 <= n < r.len() implies diamond_square_step(
                        size as int,
                        d as int,
                        n,
                        #[trigger] r[n],
                    ) by {
                        if n >= base {
                            lemma_decode(n - sq, 4, m as int, i as int, j as int, n - base);
                        }
                    }
                    assert(4 * (i * m + j) + 4 == 4 * (i * m + (j + 1))) by (nonlinear_arith);
                }
                j = j + 1;
            }
            proof {
                assert(i * m + m == (i + 1) * m) by (nonlinear_arith);
            }
            i = i + 1;
        }
        proof {
            assert(sq + 4 * (m * m) == 5 * m * m) by (nonlinear_arith)
                requires
                    sq == m * m,
            ;
        }
        r
    }
}

proof fn lemma_cell_injective(size: int, x1: int, y1: int, x2: int, y2: int)
    requires
        size > 0,
        0 <= x1 < size,
        0 <= x2 < size,
        y1 >= 0,
        y2 >= 0,
        cell(size, x1, y1) == cell(size, x2, y2),
    ensures
        x1 == x2,
        y1 == y2,
{
    let c = cell(size, x1, y1);
    lemma_fundamental_div_mod_converse(c, size, y1, x1);
    lemma_fundamental_div_mod_converse(c, size, y2, x2);
}

proof fn lemma_quotient_below(b: int, m: int)
    requires
        m > 0,
        0 <= b < m * m,
    ensures
        0 <= b / m < m,
        0 <= b % m < m,
{
    lemma_fundamental_div_mod(b, m);
    let q = b / m;
    let r = b % m;
    assert(q < m) by (nonlinear_arith)
        requires
            b == m * q + r,
            0 <= r,
            b < m * m,
            m > 0,
    ;
    assert(q >= 0) by (nonlinear_arith)
        requires
            b == m * q + r,
            r < m,
            b >= 0,
            m > 0,
    ;
}

proof fn lemma_target_not_corner(size: int, d: int, i: int, j: int, k: int)
    requires
        2 <= d < size <= MAX_SIDE,
        0 <= i < blocks(size, d),
        0 <= j < blocks(size, d),
        0 <= k <= 4,
    ensures
        !is_corner(
            size,
            cell(size, around_x(d, centre(d, i), k), around_y(d, centre(d, j), k)),
        ),
{
    lemma_centre_bounds(size, d, i);
    lemma_centre_bounds(size, d, j);
    let tx = around_x(d, centre(d, i), k);
    let ty = around_y(d, centre(d, j), k);
    if cell(size, tx, ty) == cell(size, 0, 0) {
        lemma_cell_injective(size, tx, ty, 0, 0);
    }
    if cell(size, tx, ty) == cell(size, size - 1, 0) {
        lemma_cell_injective(size, tx, ty, size - 1, 0);
    }
    if cell(size, tx, ty) == cell(size, 0, size - 1) {
        lemma_cell_injective(size, tx, ty, 0, size - 1);
    }
    if cell(size, tx, ty) == cell(size, size - 1, size - 1) {
        lemma_cell_injective(size, tx, ty, size - 1, size - 1);
    }
}

/// Corners are never displaced by the midpoint generator: no displacement of
/// any level targets one of the four corner cells, so they keep the values
/// drawn when the grid was seeded. Every displacement also has sources to
/// take a mean of.
pub proof fn lemma_midpoint_spares_corners(size: int, d: int, n: int, s: Displacement)
    requires
        2 <= d < size <= MAX_SIDE,
        0 <= n < 5 * blocks(size, d) * blocks(size, d),
        midpoint_step(size, d, n, s),
    ensures
        !is_corner(size, s.target as int),
        s.sources@.len() >= 2,
{
    let m = blocks(size, d);
    lemma_centre_bounds(size, d, 0);
    assert(n / 5 < m * m) by (nonlinear_arith)
        requires
            0 <= n < 5 * m * m,
    ;
    lemma_quotient_below(n / 5, m);
    lemma_target_not_corner(size, d, (n / 5) / m, (n / 5) % m, n % 5);
}

/// Corners are never displaced by the diamond-square generator: no
/// displacement of any level targets one of the four corner cells, so they
/// keep the values drawn when the grid was seeded. Every displacement also
/// has sources to take a mean of.
pub proof fn lemma_diamond_square_spares_corners(size: int, d: int, n: int, s: Displacement)
    requires
        2 <= d < size <= MAX_SIDE,
        0 <= n < 5 * blocks(size, d) * blocks(size, d),
        diamond_square_step(size, d, n, s),
    ensures
        !is_corner(size, s.target as int),
        s.sources@.len() >= 2,
{
    let m = blocks(size, d);
    lemma_centre_bounds(size, d, 0);
    if n < m * m {
        lemma_quotient_below(n, m);
        lemma_target_not_corner(size, d, n / m, n % m, 0);
    } else {
        assert((n - m * m) / 4 < m * m) by (nonlinear_arith)
            requires
                m * m <= n < 5 * m * m,
        ;
        let b = (n - m * m) / 4;
        lemma_quotient_below(b, m);
        let k = (n - m * m) % 4 + 1;
        lemma_target_not_corner(size, d, b / m, b % m, k);
        lemma_centre_bounds(size, d, b / m);
        lemma_centre_bounds(size, d, b % m);
    }
}

} // verus!
