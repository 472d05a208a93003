//! A rectangular grid of cells stored row by row.
use vstd::prelude::*;

verus! {

/// A `width` by `height` grid of cells, stored row by row: cell `(x, y)` is
/// at `y * width + x`. Its dimensions never change; only a sub-region
/// extraction makes a grid of another shape.
pub struct Heightmap<T> {
    width: u32,
    height: u32,
    data: Vec<T>,
}

/// A requested region does not fit inside the grid.
#[derive(Clone, Copy, Debug, PartialEq, Eq, Structural)]
pub enum OutOfBounds {
    /// `x + width` exceeds the grid's width.
    Width,
    /// `y + height` exceeds the grid's height.
    Height,
}

/// Whether `out` is the `w` by `h` region of `src` whose top-left cell is
/// `(x, y)`.
pub open spec fn is_region<T>(src: Heightmap<T>, x: int, y: int, w: int, h: int, out: Heightmap<T>) -> bool {
    &&& out.wf()
    &&& out.spec_width() == w
    &&& out.spec_height() == h
    &&& forall|r: int, c: int|
        0 <= r < h && 0 <= c < w ==> #[trigger] out.cell(c, r) == src.cell(x + c, y + r)
}

impl<T> Heightmap<T> {
    /// The cells fill the grid exactly.
    pub closed spec fn wf(&self) -> bool {
        self.data.len() == self.width * self.height
    }

    pub closed spec fn spec_width(&self) -> nat {
        self.width as nat
    }

    pub closed spec fn spec_height(&self) -> nat {
        self.height as nat
    }

    /// The cells, row by row.
    pub closed spec fn cells(&self) -> Seq<T> {
        self.data@
    }

    /// The cell at column `x` of row `y`.
    pub open spec fn cell(&self, x: int, y: int) -> T {
        self.cells()[y * self.spec_width() + x]
    }

    pub proof fn lemma_wf(&self)
        requires
            self.wf(),
        ensures
            self.cells().len() == self.spec_width() * self.spec_height(),
    {
    }

    pub fn width(&self) -> (w: u32)
        ensures
            w == self.spec_width(),
    {
        self.width
    }

    pub fn height(&self) -> (h: u32)
        ensures
            h == self.spec_height(),
    {
        self.height
    }

    /// The cells, row by row.
    pub fn heights(&self) -> (s: &[T])
        ensures
            s@ == self.cells(),
    {
        self.data.as_slice()
    }
}

proof fn lemma_index_in_grid(w: int, h: int, x: int, y: int)
    requires
        0 <= x < w,
        0 <= y < h,
    ensures
        0 <= y * w + x < w * h,
{
    assert(0 <= y * w + x < w * h) by (nonlinear_arith)
        requires
            0 <= x < w,
            0 <= y < h,
    ;
}

impl<T: Copy> Heightmap<T> {
    /// The cell at column `x` of row `y`.
    pub fn get(&self, x: u32, y: u32) -> (v: T)
        requires
            self.wf(),
            x < self.spec_width(),
            y < self.spec_height(),
        ensures
            v == self.cell(x as int, y as int),
    {
        proof {
            lemma_index_in_grid(self.width as int, self.height as int, x as int, y as int);
        }
        let i = y as usize * self.width as usize + x as usize;
        self.data[i]
    }

    /// The `w` by `h` region whose top-left cell is `(x, y)`, copied row by
    /// row. Fails when the region does not fit: `Width` when
    /// `x + w > width`, otherwise `Height` when `y + h > height`.
    pub fn submap(&self, x: u32, y: u32, w: u32, h: u32) -> (r: Result<Heightmap<T>, OutOfBounds>)
        requires
            self.wf(),
        ensures
            x + w > self.spec_width() <==> r == Err::<Heightmap<T>, OutOfBounds>(OutOfBounds::Width),
            x + w <= self.spec_width() && y + h > self.spec_height() <==> r == Err::<
                Heightmap<T>,
                OutOfBounds,
            >(OutOfBounds::Height),
            r is Ok ==> is_region(*self, x as int, y as int, w as int, h as int, r->Ok_0),
    {
        if x as u64 + w as u64 > self.width as u64 {
            return Err(OutOfBounds::Width);
        }
        if y as u64 + h as u64 > self.height as u64 {
            return Err(OutOfBounds::Height);
        }
        let mut data: Vec<T> = Vec::new();
        let mut r: u32 = 0;
        while r < h
            invariant
                self.data.len() == self.width * self.height,
                x + w <= self.width,
                y + h <= self.height,
                r <= h,
                data.len() == r * w,
                forall|n: int|
                    0 <= n < data.len() ==> #[trigger] data@[n] == self.cell(x + n % (w as int), y + n / (w as int)),
            decreases h - r,
        {
            let mut c: u32 = 0;
            while c < w
                invariant
                    self.data.len() == self.width * self.height,
                    x + w <= self.width,
                    y + h <= self.height,
                    r < h,
                    c <= w,
                    data.len() == r * w + c,
                    forall|n: int|
                        0 <= n < data.len() ==> #[trigger] data@[n] == self.cell(
                            x + n % (w as int),
                            y + n / (w as int),
                        ),
                decreases w - c,
            {
                proof {
                    lemma_index_in_grid(
                        self.width as int,
                        self.height as int,
                        (x + c) as int,
                        (y + r) as int,
                    );
                    vstd::arithmetic::div_mod::lemma_fundamental_div_mod_converse(
                        r * w + c,
                        w as int,
                        r as int,
                        c as int,
                    );
                }
                let i = (y + r) as usize * self.width as usize + (x + c) as usize;
                data.push(self.data[i]);
                c = c + 1;
            }
            proof {
                assert(r * w + w == (r + 1) * w) by (nonlinear_arith);
            }
            r = r + 1;
        }
        let out = Heightmap { width: w, height: h, data };
        proof {
            assert forall|i: int, c: int| 0 <= i < h && 0 <= c < w implies #[trigger] out.cell(
                c,
                i,
            ) == self.cell(x + c, y + i) by {
                lemma_index_in_grid(w as int, h as int, c, i);
                vstd::arithmetic::div_mod::lemma_fundamental_div_mod_converse(
                    i * w + c,
                    w as int,
                    i,
                    c,
                );
                assert(h * w == w * h) by (nonlinear_arith);
                assert(out.data@[i * w + c] == self.cell(x + c, y + i));
            }
        }
        Ok(out)
    }
}

/// A grid of `width` by `height` cells from its cells, row by row.
pub fn heightmap_from_vec<T>(width: u32, height: u32, data: Vec<T>) -> (m: Heightmap<T>)
    requires
        data.len() == width * height,
    ensures
        m.wf(),
        m.spec_width() == width,
        m.spec_height() == height,
        m.cells() == data@,
{
    Heightmap { width, height, data }
}

/// Extracting the region that covers the whole grid gives the grid back,
/// cell for cell.
pub proof fn lemma_full_region_is_identity<T>(src: Heightmap<T>, out: Heightmap<T>)
    requires
        src.wf(),
        is_region(src, 0, 0, src.spec_width() as int, src.spec_height() as int, out),
    ensures
        out.spec_width() == src.spec_width(),
        out.spec_height() == src.spec_height(),
        out.cells() == src.cells(),
{
    src.lemma_wf();
    out.lemma_wf();
    let w = src.spec_width() as int;
    let h = src.spec_height() as int;
    assert forall|i: int| 0 <= i < out.cells().len() implies out.cells()[i] == src.cells()[i] by {
        assert(w > 0) by (nonlinear_arith)
            requires
                0 <= i < w * h,
                w >= 0,
                h >= 0,
        ;
        vstd::arithmetic::div_mod::lemma_fundamental_div_mod(i, w);
        let r = i / w;
        let c = i % w;
        assert(r < h) by (nonlinear_arith)
            requires
                i == w * r + c,
                0 <= c,
                i < w * h,
                w > 0,
        ;
        assert(r >= 0) by (nonlinear_arith)
            requires
                i == w * r + c,
                c < w,
                i >= 0,
                w > 0,
        ;
        assert(out.cell(c, r) == src.cell(0 + c, 0 + r));
        assert(r * w + c == i) by (nonlinear_arith)
            requires
                i == w * r + c,
        ;
    }
    assert(out.cells() =~= src.cells());
}

} // verus!
