//! Cell placement: an image's grid index picks its cell; the image is
//! scaled so that its longer side exactly fills the cell while the aspect
//! ratio is kept, and it is centered within the cell.

use vstd::prelude::*;
use vstd::arithmetic::div_mod::{
    lemma_div_is_ordered, lemma_fundamental_div_mod, lemma_fundamental_div_mod_converse,
};
use crate::grid::{GridSpec, grid_dims_ok};

verus! {

/// Where one image lands on the canvas: its cell's top-left corner, its
/// scaled dimensions, and the top-left pixel at which it is composited.
pub struct Placement {
    pub cell_x: u32,
    pub cell_y: u32,
    pub scaled_w: u32,
    pub scaled_h: u32,
    pub offset_x: u32,
    pub offset_y: u32,
}

/// The larger of two values.
pub open spec fn spec_max(a: int, b: int) -> int {
    if a >= b {
        a
    } else {
        b
    }
}

/// `a / b` rounded to the nearest integer, halves rounded up, for
/// non-negative `a` and positive `b`. For such arguments this equals
/// rounding half away from zero.
pub open spec fn round_div(a: int, b: int) -> int {
    (2 * a + b) / (2 * b)
}

/// The scaled length of one side: the source side times `cell / longest`,
/// rounded to nearest, and never below one pixel.
pub open spec fn spec_scaled(side: int, cell: int, longest: int) -> int {
    spec_max(1, round_div(side * cell, longest))
}

/// The column of the cell at `index`.
pub open spec fn spec_col(index: int, columns: int) -> int {
    index % columns
}

/// The row of the cell at `index`.
pub open spec fn spec_row(index: int, columns: int) -> int {
    index / columns
}

/// The placement the layout demands for the image at `index` with source
/// dimensions `w` by `h` on grid `g`.
pub open spec fn placement_for(p: Placement, g: GridSpec, index: int, w: int, h: int) -> bool {
    let m = spec_max(w, h);
    &&& p.cell_x == spec_col(index, g.columns as int) * g.cell_size
    &&& p.cell_y == spec_row(index, g.columns as int) * g.cell_size
    &&& p.scaled_w == spec_scaled(w, g.cell_size as int, m)
    &&& p.scaled_h == spec_scaled(h, g.cell_size as int, m)
    &&& p.offset_x == p.cell_x + (g.cell_size - p.scaled_w) / 2
    &&& p.offset_y == p.cell_y + (g.cell_size - p.scaled_h) / 2
}

/// A scaled side never exceeds the cell, and the longer side fills it
/// exactly.
pub proof fn lemma_scaled_bounds(side: int, cell: int, longest: int)
    requires
        1 <= side <= longest,
        cell >= 1,
    ensures
        1 <= spec_scaled(side, cell, longest) <= cell,
        side == longest ==> spec_scaled(side, cell, longest) == cell,
{
    let a = side * cell;
    let d = 2 * longest;
    assert(2 * a + longest <= cell * d + longest) by (nonlinear_arith)
        requires 1 <= side <= longest && cell >= 1 && a == side * cell && d == 2 * longest,
    ;
    lemma_fundamental_div_mod_converse(cell * d + longest, d, cell, longest);
    lemma_div_is_ordered(2 * a + longest, cell * d + longest, d);
    if side == longest {
        assert(2 * a + longest == cell * d + longest) by (nonlinear_arith)
            requires side == longest && a == side * cell && d == 2 * longest,
        ;
    }
}

/// Resolves the placement of image `index` with source dimensions `src_w`
/// by `src_h` on grid `g`: the cell is taken row-major (`index mod columns`,
/// `index div columns`); the image is scaled so that its longer side equals
/// the cell size exactly, with nearest-integer rounding (halves away from
/// zero) and a one-pixel floor; and it is centered within the cell, the
/// slack split by floored halving. The scaled image always lies within its
/// cell, and the cell within the canvas.
pub fn resolve_placement(index: u32, src_w: u32, src_h: u32, g: &GridSpec) -> (p: Placement)
    requires
        grid_dims_ok(*g),
        src_w >= 1,
        src_h >= 1,
        index < g.columns * g.rows,
    ensures
        placement_for(p, *g, index as int, src_w as int, src_h as int),
        p.scaled_w <= g.cell_size,
        p.scaled_h <= g.cell_size,
        spec_max(p.scaled_w as int, p.scaled_h as int) == g.cell_size,
        p.offset_x - p.cell_x == ((g.cell_size - p.scaled_w) as int) / 2,
        p.offset_y - p.cell_y == ((g.cell_size - p.scaled_h) as int) / 2,
        p.cell_x + g.cell_size <= g.canvas_width,
        p.cell_y + g.cell_size <= g.canvas_height,
        p.offset_x + p.scaled_w <= p.cell_x + g.cell_size,
        p.offset_y + p.scaled_h <= p.cell_y + g.cell_size,
{
    let col = index % g.columns;
    let row = index / g.columns;
    proof {
        lemma_fundamental_div_mod(index as int, g.columns as int);
        assert(row < g.rows && (col as int) * g.cell_size + g.cell_size
            <= (g.columns as int) * g.cell_size
            && (row as int) * g.cell_size + g.cell_size <= (g.rows as int) * g.cell_size)
            by (nonlinear_arith)
            requires
                g.columns >= 1 && g.rows >= 1 && g.cell_size >= 1,
                index < (g.columns as int) * (g.rows as int),
                col == (index as int) % (g.columns as int),
                row == (index as int) / (g.columns as int),
                0 <= col < g.columns,
                index as int == (g.columns as int) * (row as int) + col,
        ;
    }
    let cell_x = col * g.cell_size;
    let cell_y = row * g.cell_size;
    let m = if src_w >= src_h { src_w } else { src_h };
    let sw = scale_side(src_w, g.cell_size, m);
    let sh = scale_side(src_h, g.cell_size, m);
    let offset_x = cell_x + (g.cell_size - sw) / 2;
    let offset_y = cell_y + (g.cell_size - sh) / 2;
    Placement { cell_x, cell_y, scaled_w: sw, scaled_h: sh, offset_x, offset_y }
}

/// One side scaled by `cell / longest`, rounded to nearest with halves
/// away from zero, floored at one pixel.
fn scale_side(side: u32, cell: u32, longest: u32) -> (r: u32)
    requires
        1 <= side <= longest,
        cell >= 1,
    ensures
        r == spec_scaled(side as int, cell as int, longest as int),
        1 <= r <= cell,
        side == longest ==> r == cell,
{
    proof {
        lemma_scaled_bounds(side as int, cell as int, longest as int);
        assert(2 * (side as int) * (cell as int) + longest <= 0x2_0000_0000_0000_0000i128)
            by (nonlinear_arith)
            requires
                0 <= side <= 0xffff_ffffu64,
                0 <= cell <= 0xffff_ffffu64,
                0 <= longest <= 0xffff_ffffu64,
        ;
    }
    let num: u128 = 2 * (side as u128) * (cell as u128) + (longest as u128);
    let den: u128 = 2 * (longest as u128);
    let q: u128 = num / den;
    proof {
        let a = (side as int) * (cell as int);
        assert(num as int == 2 * a + longest as int) by (nonlinear_arith)
            requires
                num == 2 * (side as int) * (cell as int) + (longest as int),
                a == (side as int) * (cell as int),
        ;
        assert(q == round_div(a, longest as int));
    }
    let scaled = if q < 1 {
        1u32
    } else {
        q as u32
    };
    scaled
}

} // verus!
