//! Grid layout calculation: for a given image count and cell size, the
//! collage uses the smallest near-square grid, `columns = ceil(sqrt(count))`
//! and `rows = ceil(count / columns)`.

use vstd::prelude::*;
use crate::CollageError;

verus! {

/// The layout of one collage: a near-square grid of square cells.
#[derive(Clone, Copy, Debug)]
pub struct GridSpec {
    pub columns: u32,
    pub rows: u32,
    pub cell_size: u32,
    pub canvas_width: u32,
    pub canvas_height: u32,
}

/// `c` is the ceiling of the square root of `n`: the smallest non-negative
/// value whose square reaches `n`.
pub open spec fn is_ceil_sqrt(n: int, c: int) -> bool {
    c >= 0 && c * c >= n && (c - 1) * (c - 1) < n
}

/// Ceiling division of `a` by `b`.
pub open spec fn ceil_div(a: int, b: int) -> int {
    (a + b - 1) / b
}

/// The column count the layout demands for `count` images.
pub open spec fn spec_columns(count: int) -> int {
    choose|c: int| is_ceil_sqrt(count, c)
}

/// The grid's dimensions are internally consistent and its byte buffer
/// fits the machine's address space.
pub open spec fn grid_dims_ok(g: GridSpec) -> bool {
    &&& g.cell_size >= 1
    &&& g.columns >= 1
    &&& g.rows >= 1
    &&& g.canvas_width == g.columns * g.cell_size
    &&& g.canvas_height == g.rows * g.cell_size
    &&& 4 * (g.canvas_width as int) * (g.canvas_height as int) <= usize::MAX as int
}

/// `g` is the grid the layout demands for `count` images.
pub open spec fn grid_for(g: GridSpec, count: int) -> bool {
    &&& grid_dims_ok(g)
    &&& count >= 1
    &&& is_ceil_sqrt(count, g.columns as int)
    &&& g.rows == ceil_div(count, g.columns as int)
}

/// The grid for `count` images at `cell` pixels per cell fits the
/// machine's integer limits.
pub open spec fn grid_fits(count: int, cell: int) -> bool {
    let c = spec_columns(count);
    let r = ceil_div(count, c);
    &&& c * cell <= u32::MAX as int
    &&& r * cell <= u32::MAX as int
    &&& 4 * (c * cell) * (r * cell) <= usize::MAX as int
}

/// The grid the layout demands for `count` images at `cell` pixels per
/// cell, as a value; its fields are meaningful when
/// `grid_fits(count, cell)` holds.
pub open spec fn spec_grid(count: int, cell: int) -> GridSpec {
    let c = spec_columns(count);
    let r = ceil_div(count, c);
    GridSpec {
        columns: c as u32,
        rows: r as u32,
        cell_size: cell as u32,
        canvas_width: (c * cell) as u32,
        canvas_height: (r * cell) as u32,
    }
}

/// The ceiling square root is unique.
pub proof fn lemma_ceil_sqrt_unique(n: int, a: int, b: int)
    requires
        is_ceil_sqrt(n, a),
        is_ceil_sqrt(n, b),
    ensures
        a == b,
{
    assert(a == b) by (nonlinear_arith)
        requires
            a >= 0 && a * a >= n && (a - 1) * (a - 1) < n,
            b >= 0 && b * b >= n && (b - 1) * (b - 1) < n,
    ;
}

/// The square of a small value, widened so that it cannot overflow.
fn square(c: u32) -> (r: u64)
    requires
        c <= 65536,
    ensures
        r == (c as int) * (c as int),
{
    proof {
        assert((c as int) * (c as int) <= 65536 * 65536) by (nonlinear_arith)
            requires 0 <= c <= 65536,
        ;
    }
    (c as u64) * (c as u64)
}

/// The smallest `c` with `c * c >= n`, for `n >= 1`.
fn ceil_sqrt(n: u32) -> (c: u32)
    requires
        n >= 1,
    ensures
        is_ceil_sqrt(n as int, c as int),
        1 <= c <= 65536,
{
    let mut c: u32 = 1;
    while square(c) < (n as u64)
        invariant
            1 <= c <= 65536,
            ((c - 1) as int) * ((c - 1) as int) < n,
        decreases 65536 - c,
    {
        assert(c < 65536) by (nonlinear_arith)
            requires (c as int) * (c as int) < n && n <= u32::MAX as int && c >= 1,
        ;
        c = c + 1;
    }
    c
}

/// Computes the grid layout for `image_count` images at `cell_size` pixels
/// per cell: `columns = ceil(sqrt(image_count))`, `rows = ceil(image_count /
/// columns)`, and the canvas spans `columns * cell_size` by `rows *
/// cell_size` pixels. Zero images is reported as `EmptyInput`; a canvas
/// beyond the machine's integer limits as `CanvasTooLarge`. The grid always
/// has at least as many cells as images.
pub fn compute_grid(image_count: u32, cell_size: u32) -> (r: Result<GridSpec, CollageError>)
    requires
        cell_size >= 1,
    ensures
        image_count == 0 <==> r == Result::<GridSpec, CollageError>::Err(CollageError::EmptyInput),
        image_count >= 1 ==> (r is Ok <==> grid_fits(image_count as int, cell_size as int)),
        r is Err ==> r->Err_0 == CollageError::EmptyInput || r->Err_0 == CollageError::CanvasTooLarge,
        r matches Ok(g) ==> {
            &&& grid_for(g, image_count as int)
            &&& g.cell_size == cell_size
            &&& g.columns * g.rows >= image_count
            &&& g == spec_grid(image_count as int, cell_size as int)
        },
{
    if image_count == 0 {
        return Err(CollageError::EmptyInput);
    }
    let columns = ceil_sqrt(image_count);
    proof {
        lemma_ceil_sqrt_unique(image_count as int, columns as int, spec_columns(image_count as int));
    }
    let rows64: u64 = ((image_count as u64) + (columns as u64) - 1) / (columns as u64);
    proof {
        assert(rows64 <= image_count && rows64 >= 1 && rows64 * columns >= image_count
            && rows64 <= columns)
            by (nonlinear_arith)
            requires
                1 <= columns <= 65536,
                image_count >= 1,
                (columns as int) * (columns as int) >= image_count,
                rows64 == ((image_count as int) + (columns as int) - 1) / (columns as int),
        ;
        assert((columns as int) * (cell_size as int) <= 65536 * 0xffff_ffffu64)
            by (nonlinear_arith)
            requires 0 <= columns <= 65536 && 0 <= cell_size <= u32::MAX as int,
        ;
        assert((rows64 as int) * (cell_size as int) <= 65536 * 0xffff_ffffu64)
            by (nonlinear_arith)
            requires 0 <= rows64 <= 65536 && 0 <= cell_size <= u32::MAX as int,
        ;
    }
    let rows: u32 = rows64 as u32;
    proof {
        assert((columns as int) * (rows as int) >= image_count as int) by (nonlinear_arith)
            requires
                rows == rows64,
                (rows64 as int) * (columns as int) >= image_count as int,
        ;
    }
    let cw64: u64 = (columns as u64) * (cell_size as u64);
    let ch64: u64 = (rows as u64) * (cell_size as u64);
    if cw64 > (u32::MAX as u64) || ch64 > (u32::MAX as u64) {
        return Err(CollageError::CanvasTooLarge);
    }
    proof {
        assert((cw64 as int) * (ch64 as int) <= 0xffff_ffffu64 * 0xffff_ffffu64)
            by (nonlinear_arith)
            requires 0 <= cw64 <= u32::MAX as int && 0 <= ch64 <= u32::MAX as int,
        ;
    }
    let pixels: u64 = cw64 * ch64;
    if pixels > (usize::MAX as u64) / 4 {
        proof {
            assert(4 * (cw64 as int) * (ch64 as int) > usize::MAX as int) by (nonlinear_arith)
                requires
                    pixels == (cw64 as int) * (ch64 as int),
                    pixels > (usize::MAX as u64) as int / 4,
            ;
        }
        return Err(CollageError::CanvasTooLarge);
    }
    proof {
        assert(4 * (cw64 as int) * (ch64 as int) <= usize::MAX as int) by (nonlinear_arith)
            requires
                pixels == (cw64 as int) * (ch64 as int),
                pixels <= (usize::MAX as u64) as int / 4,
        ;
    }
    Ok(GridSpec {
        columns,
        rows,
        cell_size,
        canvas_width: cw64 as u32,
        canvas_height: ch64 as u32,
    })
}

/// The exact byte length of the canvas buffer: four bytes per pixel.
pub fn buffer_len(g: &GridSpec) -> (n: usize)
    requires
        grid_dims_ok(*g),
    ensures
        n == 4 * (g.canvas_width as int) * (g.canvas_height as int),
{
    proof {
        assert((g.canvas_width as int) * (g.canvas_height as int)
            <= 0xffff_ffffu64 * 0xffff_ffffu64) by (nonlinear_arith)
            requires
                0 <= g.canvas_width <= u32::MAX as int,
                0 <= g.canvas_height <= u32::MAX as int,
        ;
    }
    let pixels: u64 = (g.canvas_width as u64) * (g.canvas_height as u64);
    proof {
        assert(4 * (pixels as int) == 4 * (g.canvas_width as int) * (g.canvas_height as int))
            by (nonlinear_arith)
            requires pixels == (g.canvas_width as int) * (g.canvas_height as int),
        ;
    }
    (pixels * 4) as usize
}

} // verus!
