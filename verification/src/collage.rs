//! The collage compositor: bounded pixel copies from each resized source
//! image into its cell of the canvas, over either backing store, and the
//! collage writer that encodes the finished canvas as WebP.

use vstd::prelude::*;
use vstd::arithmetic::div_mod::{
    lemma_fundamental_div_mod, lemma_fundamental_div_mod_converse, lemma_mod_bound,
};
use crate::CollageError;
use crate::canvas::{
    TransientCanvas, background_byte, background_bytes, lemma_pixel_base_bounds, pixel_base,
    updated_pixel,
};
use crate::codec::{decode_rgba, decode_spec, encode_webp, resize_lanczos, resize_spec, webp_spec};
use memmap2::MmapMut;
use crate::grid::{GridSpec, buffer_len, compute_grid, grid_dims_ok, grid_fits, spec_grid};
use crate::mmapbuf::{PersistentCanvas, mmap_bytes};
use crate::placement::{
    lemma_scaled_bounds, resolve_placement, spec_col, spec_max, spec_row, spec_scaled,
};

verus! {

/// The pixel a canvas byte belongs to.
pub open spec fn byte_px(j: int) -> int {
    j / 4
}

/// The channel of a canvas byte within its pixel.
pub open spec fn byte_ch(j: int) -> int {
    j % 4
}

/// The x coordinate of a canvas byte, on a canvas `cw` pixels wide.
pub open spec fn px_x(cw: int, j: int) -> int {
    byte_px(j) % cw
}

/// The y coordinate of a canvas byte, on a canvas `cw` pixels wide.
pub open spec fn px_y(cw: int, j: int) -> int {
    byte_px(j) / cw
}

/// Whether canvas byte `j` lies in the paste rectangle at `(ox, oy)` of
/// size `sw` by `sh`.
pub open spec fn in_paste(cw: int, ox: int, oy: int, sw: int, sh: int, j: int) -> bool {
    &&& ox <= px_x(cw, j) < ox + sw
    &&& oy <= px_y(cw, j) < oy + sh
}

/// The row-major rank, among the source pixels, of the source pixel that
/// lands on canvas byte `j`.
pub open spec fn paste_rank(cw: int, ox: int, oy: int, sw: int, j: int) -> int {
    (px_y(cw, j) - oy) * sw + (px_x(cw, j) - ox)
}

/// The source byte that lands on canvas byte `j`.
pub open spec fn paste_src_byte(cw: int, ox: int, oy: int, sw: int, src: Seq<u8>, j: int) -> u8 {
    src[4 * paste_rank(cw, ox, oy, sw, j) + byte_ch(j)]
}

/// The canvas bytes after the first `done` source pixels (in row-major
/// order) have been copied in; source pixels that fall outside the canvas
/// are silently dropped.
pub open spec fn pasted_upto(
    canvas: Seq<u8>,
    cw: int,
    ox: int,
    oy: int,
    sw: int,
    sh: int,
    src: Seq<u8>,
    done: int,
) -> Seq<u8> {
    Seq::new(
        canvas.len(),
        |j: int|
            if in_paste(cw, ox, oy, sw, sh, j) && paste_rank(cw, ox, oy, sw, j) < done {
                paste_src_byte(cw, ox, oy, sw, src, j)
            } else {
                canvas[j]
            },
    )
}

/// The canvas bytes after a full `sw` by `sh` source buffer is pasted at
/// `(ox, oy)`: every source pixel overwrites its target pixel, except
/// those falling outside the canvas, which are dropped.
pub open spec fn pasted(
    canvas: Seq<u8>,
    cw: int,
    ox: int,
    oy: int,
    sw: int,
    sh: int,
    src: Seq<u8>,
) -> Seq<u8> {
    pasted_upto(canvas, cw, ox, oy, sw, sh, src, sw * sh)
}

/// Decomposes a byte index into channel, x and y coordinates.
proof fn lemma_byte_decomp(cw: int, ch: int, j: int)
    requires
        cw >= 1,
        ch >= 1,
        0 <= j < 4 * cw * ch,
    ensures
        0 <= byte_ch(j) < 4,
        j == 4 * byte_px(j) + byte_ch(j),
        0 <= px_x(cw, j) < cw,
        byte_px(j) == px_y(cw, j) * cw + px_x(cw, j),
        0 <= px_y(cw, j) < ch,
{
    lemma_fundamental_div_mod(j, 4);
    lemma_mod_bound(j, 4);
    let p = byte_px(j);
    assert(p < cw * ch) by (nonlinear_arith)
        requires 0 <= j < 4 * cw * ch && 4 * p <= j && cw >= 1 && ch >= 1,
    ;
    lemma_fundamental_div_mod(p, cw);
    lemma_mod_bound(p, cw);
    assert(cw * (p / cw) == (p / cw) * cw) by (nonlinear_arith);
    assert(px_y(cw, j) < ch) by (nonlinear_arith)
        requires
            p < cw * ch,
            cw >= 1,
            p == px_y(cw, j) * cw + px_x(cw, j),
            0 <= px_x(cw, j) < cw,
            px_y(cw, j) >= 0,
    ;
    assert(px_y(cw, j) >= 0) by (nonlinear_arith)
        requires p >= 0 && cw >= 1 && px_y(cw, j) == p / cw,
    ;
}

/// A row-major rank determines its coordinates.
proof fn lemma_rank_coords(sw: int, rx: int, ry: int)
    requires
        sw >= 1,
        0 <= rx < sw,
        0 <= ry,
    ensures
        (ry * sw + rx) / sw == ry,
        (ry * sw + rx) % sw == rx,
{
    lemma_fundamental_div_mod_converse(ry * sw + rx, sw, ry, rx);
}

/// Before any source pixel is copied, the canvas is unchanged.
proof fn lemma_pasted_upto_zero(
    canvas: Seq<u8>,
    cw: int,
    ch: int,
    ox: int,
    oy: int,
    sw: int,
    sh: int,
    src: Seq<u8>,
)
    requires
        cw >= 1,
        ch >= 1,
        sw >= 1,
        0 <= ox,
        0 <= oy,
        canvas.len() == 4 * cw * ch,
    ensures
        pasted_upto(canvas, cw, ox, oy, sw, sh, src, 0) == canvas,
{
    assert forall|j: int| 0 <= j < canvas.len() implies pasted_upto(
        canvas, cw, ox, oy, sw, sh, src, 0,
    )[j] == canvas[j] by {
        if in_paste(cw, ox, oy, sw, sh, j) {
            assert(paste_rank(cw, ox, oy, sw, j) >= 0) by (nonlinear_arith)
                requires
                    px_y(cw, j) - oy >= 0,
                    px_x(cw, j) - ox >= 0,
                    sw >= 1,
                    paste_rank(cw, ox, oy, sw, j)
                        == (px_y(cw, j) - oy) * sw + (px_x(cw, j) - ox),
            ;
        }
    }
    assert(pasted_upto(canvas, cw, ox, oy, sw, sh, src, 0) =~= canvas);
}

/// Copying source pixel `(x, y)` onto its in-canvas target is one pixel
/// overwrite.
proof fn lemma_paste_step(
    canvas: Seq<u8>,
    cw: int,
    ch: int,
    ox: int,
    oy: int,
    sw: int,
    sh: int,
    src: Seq<u8>,
    x: int,
    y: int,
)
    requires
        cw >= 1,
        ch >= 1,
        sw >= 1,
        sh >= 1,
        0 <= ox,
        0 <= oy,
        0 <= x < sw,
        0 <= y < sh,
        ox + x < cw,
        oy + y < ch,
        canvas.len() == 4 * cw * ch,
        src.len() == 4 * sw * sh,
    ensures
        pasted_upto(canvas, cw, ox, oy, sw, sh, src, y * sw + x + 1) == updated_pixel(
            pasted_upto(canvas, cw, ox, oy, sw, sh, src, y * sw + x),
            cw,
            ox + x,
            oy + y,
            src[4 * (y * sw + x)],
            src[4 * (y * sw + x) + 1],
            src[4 * (y * sw + x) + 2],
            src[4 * (y * sw + x) + 3],
        ),
{
    let done = y * sw + x;
    let tx = ox + x;
    let ty = oy + y;
    let base = pixel_base(cw, tx, ty);
    let prev = pasted_upto(canvas, cw, ox, oy, sw, sh, src, done);
    let lhs = pasted_upto(canvas, cw, ox, oy, sw, sh, src, done + 1);
    let rhs = updated_pixel(prev, cw, tx, ty, src[4 * done], src[4 * done + 1],
        src[4 * done + 2], src[4 * done + 3]);
    lemma_pixel_base_bounds(cw, ch, tx, ty);
    lemma_rank_coords(sw, x, y);
    lemma_rank_coords(cw, tx, ty);
    assert(done >= 0 && 4 * done + 3 < 4 * sw * sh) by (nonlinear_arith)
        requires 0 <= x < sw && 0 <= y < sh && done == y * sw + x,
    ;
    assert forall|j: int| 0 <= j < canvas.len() implies lhs[j] == rhs[j] by {
        lemma_byte_decomp(cw, ch, j);
        let p = byte_px(j);
        let c = byte_ch(j);
        let txj = px_x(cw, j);
        let tyj = px_y(cw, j);
        let pbase = ty * cw + tx;
        if p == pbase {
            lemma_rank_coords(cw, tx, ty);
            assert(txj == tx && tyj == ty);
            assert(j == base + c);
            assert(in_paste(cw, ox, oy, sw, sh, j));
            assert(paste_rank(cw, ox, oy, sw, j) == done);
            assert(lhs[j] == src[4 * done + c]);
            assert(rhs[j] == src[4 * done + c]);
        } else {
            assert(j < base || j > base + 3);
            assert(rhs[j] == prev[j]);
            if in_paste(cw, ox, oy, sw, sh, j) {
                let rxj = txj - ox;
                let ryj = tyj - oy;
                if paste_rank(cw, ox, oy, sw, j) == done {
                    lemma_rank_coords(sw, rxj, ryj);
                    assert(rxj == done % sw && ryj == done / sw);
                    assert(x == done % sw && y == done / sw);
                    assert(txj == tx && tyj == ty);
                    assert(p == pbase);
                    assert(false);
                }
            }
        }
    }
    assert(lhs =~= rhs);
}

/// A source pixel whose target lies outside the canvas is dropped: the
/// canvas is unchanged.
proof fn lemma_paste_step_dropped(
    canvas: Seq<u8>,
    cw: int,
    ch: int,
    ox: int,
    oy: int,
    sw: int,
    sh: int,
    src: Seq<u8>,
    x: int,
    y: int,
)
    requires
        cw >= 1,
        ch >= 1,
        sw >= 1,
        sh >= 1,
        0 <= ox,
        0 <= oy,
        0 <= x < sw,
        0 <= y < sh,
        ox + x >= cw || oy + y >= ch,
        canvas.len() == 4 * cw * ch,
    ensures
        pasted_upto(canvas, cw, ox, oy, sw, sh, src, y * sw + x + 1) == pasted_upto(
            canvas, cw, ox, oy, sw, sh, src, y * sw + x,
        ),
{
    let done = y * sw + x;
    let lhs = pasted_upto(canvas, cw, ox, oy, sw, sh, src, done + 1);
    let rhs = pasted_upto(canvas, cw, ox, oy, sw, sh, src, done);
    lemma_rank_coords(sw, x, y);
    assert forall|j: int| 0 <= j < canvas.len() implies lhs[j] == rhs[j] by {
        lemma_byte_decomp(cw, ch, j);
        if in_paste(cw, ox, oy, sw, sh, j) {
            if paste_rank(cw, ox, oy, sw, j) == done {
                let rxj = px_x(cw, j) - ox;
                let ryj = px_y(cw, j) - oy;
                lemma_rank_coords(sw, rxj, ryj);
                assert(rxj == done % sw && ryj == done / sw);
                assert(x == done % sw && y == done / sw);
                assert(px_x(cw, j) == ox + x && px_y(cw, j) == oy + y);
                assert(false);
            }
        }
    }
    assert(lhs =~= rhs);
}

/// The destination pixel buffer, in either of its two lifecycle variants:
/// heap-resident, or backed by a memory-mapped temporary file.
pub enum Canvas {
    Transient(TransientCanvas),
    Persistent(PersistentCanvas),
}

impl Canvas {
    /// The canvas holds exactly four bytes per pixel.
    pub open spec fn wf(self) -> bool {
        match self {
            Canvas::Transient(c) => c.wf(),
            Canvas::Persistent(c) => c.wf(),
        }
    }

    /// The canvas width in pixels.
    pub open spec fn spec_width(self) -> u32 {
        match self {
            Canvas::Transient(c) => c.width,
            Canvas::Persistent(c) => c.width,
        }
    }

    /// The canvas height in pixels.
    pub open spec fn spec_height(self) -> u32 {
        match self {
            Canvas::Transient(c) => c.height,
            Canvas::Persistent(c) => c.height,
        }
    }

    /// The bytes of the canvas.
    pub open spec fn bytes(self) -> Seq<u8> {
        match self {
            Canvas::Transient(c) => c.data@,
            Canvas::Persistent(c) => c.bytes(),
        }
    }

    /// The canvas width in pixels.
    pub fn width(&self) -> (w: u32)
        ensures
            w == self.spec_width(),
    {
        match self {
            Canvas::Transient(c) => c.width,
            Canvas::Persistent(c) => c.width,
        }
    }

    /// The canvas height in pixels.
    pub fn height(&self) -> (h: u32)
        ensures
            h == self.spec_height(),
    {
        match self {
            Canvas::Transient(c) => c.height,
            Canvas::Persistent(c) => c.height,
        }
    }

    /// Overwrites the pixel at `(x, y)` with the given RGBA value.
    fn set_pixel(&mut self, x: u32, y: u32, r: u8, g: u8, b: u8, a: u8)
        requires
            old(self).wf(),
            x < old(self).spec_width(),
            y < old(self).spec_height(),
        ensures
            final(self).wf(),
            (*final(self)) is Transient <==> (*old(self)) is Transient,
            final(self).spec_width() == old(self).spec_width(),
            final(self).spec_height() == old(self).spec_height(),
            final(self).bytes() == updated_pixel(
                old(self).bytes(),
                old(self).spec_width() as int,
                x as int,
                y as int,
                r,
                g,
                b,
                a,
            ),
    {
        match self {
            Canvas::Transient(c) => c.set_pixel(x, y, r, g, b, a),
            Canvas::Persistent(c) => c.set_pixel(x, y, r, g, b, a),
        }
    }
}

/// Copies every pixel of an `sw` by `sh` RGBA8 source buffer onto the
/// canvas at `(ox + x, oy + y)`, bounds-checked: target coordinates
/// beyond the canvas are silently dropped. Later pastes overwrite
/// earlier pixel values; nothing is blended.
pub fn paste_image(canvas: &mut Canvas, ox: u32, oy: u32, sw: u32, sh: u32, src: &Vec<u8>)
    requires
        old(canvas).wf(),
        old(canvas).spec_width() >= 1,
        old(canvas).spec_height() >= 1,
        sw >= 1,
        sh >= 1,
        src@.len() == 4 * (sw as int) * (sh as int),
    ensures
        final(canvas).wf(),
        (*final(canvas)) is Transient <==> (*old(canvas)) is Transient,
        final(canvas).spec_width() == old(canvas).spec_width(),
        final(canvas).spec_height() == old(canvas).spec_height(),
        final(canvas).bytes() == pasted(
            old(canvas).bytes(),
            old(canvas).spec_width() as int,
            ox as int,
            oy as int,
            sw as int,
            sh as int,
            src@,
        ),
{
    let cw = canvas.width();
    let chh = canvas.height();
    let srclen = src.len();
    let ghost start = canvas.bytes();
    let ghost was_t = (*canvas) is Transient;
    proof {
        lemma_pasted_upto_zero(
            start, cw as int, chh as int, ox as int, oy as int, sw as int, sh as int, src@,
        );
    }
    let mut y: u32 = 0;
    while y < sh
        invariant
            y <= sh,
            canvas.wf(),
            ((*canvas) is Transient) == was_t,
            canvas.spec_width() == cw,
            canvas.spec_height() == chh,
            cw >= 1,
            chh >= 1,
            sw >= 1,
            sh >= 1,
            srclen == src@.len(),
            src@.len() == 4 * (sw as int) * (sh as int),
            start.len() == 4 * (cw as int) * (chh as int),
            canvas.bytes() == pasted_upto(
                start, cw as int, ox as int, oy as int, sw as int, sh as int, src@,
                (y as int) * (sw as int),
            ),
        decreases sh - y,
    {
        let mut x: u32 = 0;
        while x < sw
            invariant
                x <= sw,
                y < sh,
                canvas.wf(),
                ((*canvas) is Transient) == was_t,
                canvas.spec_width() == cw,
                canvas.spec_height() == chh,
                cw >= 1,
                chh >= 1,
                sw >= 1,
                sh >= 1,
                srclen == src@.len(),
                src@.len() == 4 * (sw as int) * (sh as int),
                start.len() == 4 * (cw as int) * (chh as int),
                canvas.bytes() == pasted_upto(
                    start, cw as int, ox as int, oy as int, sw as int, sh as int, src@,
                    (y as int) * (sw as int) + (x as int),
                ),
            decreases sw - x,
        {
            proof {
                assert(0 <= 4 * ((y as int) * (sw as int) + (x as int))
                    && 4 * ((y as int) * (sw as int) + (x as int)) + 4
                        <= 4 * (sw as int) * (sh as int)) by (nonlinear_arith)
                    requires 0 <= x < sw && 0 <= y < sh,
                ;
            }
            let si: usize = 4 * ((y as usize) * (sw as usize) + (x as usize));
            let pr = src[si];
            let pg = src[si + 1];
            let pb = src[si + 2];
            let pa = src[si + 3];
            let tx64: u64 = (ox as u64) + (x as u64);
            let ty64: u64 = (oy as u64) + (y as u64);
            if tx64 < (cw as u64) && ty64 < (chh as u64) {
                proof {
                    lemma_paste_step(
                        start, cw as int, chh as int, ox as int, oy as int, sw as int,
                        sh as int, src@, x as int, y as int,
                    );
                }
                canvas.set_pixel(tx64 as u32, ty64 as u32, pr, pg, pb, pa);
            } else {
                proof {
                    lemma_paste_step_dropped(
                        start, cw as int, chh as int, ox as int, oy as int, sw as int,
                        sh as int, src@, x as int, y as int,
                    );
                }
            }
            x = x + 1;
        }
        proof {
            assert((y as int) * (sw as int) + (sw as int)
                == ((y as int) + 1) * (sw as int)) by (nonlinear_arith);
        }
        y = y + 1;
    }
    proof {
        assert((sh as int) * (sw as int) == (sw as int) * (sh as int));
    }
}

/// The paste of one source file onto the canvas bytes, as the compositor
/// performs it for the image at `index`: decode, scale so the longer side
/// fills the cell, center. A file whose decode fails (or yields an empty
/// image) leaves its cell untouched, so the cell stays fully transparent
/// background.
pub open spec fn step_bytes(bytes: Seq<u8>, g: GridSpec, index: int, file: Seq<u8>) -> Seq<u8> {
    match decode_spec(file) {
        Option::None => bytes,
        Option::Some(d) => if d.0 == 0 || d.1 == 0 {
            bytes
        } else {
            let cell = g.cell_size as int;
            let m = spec_max(d.0 as int, d.1 as int);
            let sw = spec_scaled(d.0 as int, cell, m);
            let sh = spec_scaled(d.1 as int, cell, m);
            let ox = spec_col(index, g.columns as int) * cell + (cell - sw) / 2;
            let oy = spec_row(index, g.columns as int) * cell + (cell - sh) / 2;
            pasted(
                bytes,
                g.canvas_width as int,
                ox,
                oy,
                sw,
                sh,
                resize_spec(d.0, d.1, d.2, sw as u32, sh as u32),
            )
        },
    }
}

/// The canvas bytes after the first `n` files are composited, starting
/// from the transparent-white background canvas.
pub open spec fn collage_upto(files: Seq<Seq<u8>>, g: GridSpec, n: int) -> Seq<u8>
    decreases n,
{
    if n <= 0 {
        background_bytes(4 * (g.canvas_width as int) * (g.canvas_height as int))
    } else {
        step_bytes(collage_upto(files, g, n - 1), g, n - 1, files[n - 1])
    }
}

/// The finished canvas bytes for the given files on grid `g`.
pub open spec fn collage_bytes(files: Seq<Seq<u8>>, g: GridSpec) -> Seq<u8> {
    collage_upto(files, g, files.len() as int)
}

/// Composites every file onto the canvas in order: each is decoded,
/// scaled to its cell and centered there; a file that does not decode is
/// skipped and its cell keeps the transparent background, without
/// aborting the rest of the batch.
pub fn composite_all(canvas: &mut Canvas, files: &Vec<Vec<u8>>, g: &GridSpec)
    requires
        old(canvas).wf(),
        grid_dims_ok(*g),
        old(canvas).spec_width() == g.canvas_width,
        old(canvas).spec_height() == g.canvas_height,
        old(canvas).bytes() == background_bytes(
            4 * (g.canvas_width as int) * (g.canvas_height as int),
        ),
        files@.len() <= (g.columns as int) * (g.rows as int),
        files@.len() <= u32::MAX as int,
    ensures
        final(canvas).wf(),
        (*final(canvas)) is Transient <==> (*old(canvas)) is Transient,
        final(canvas).spec_width() == old(canvas).spec_width(),
        final(canvas).spec_height() == old(canvas).spec_height(),
        final(canvas).bytes() == collage_bytes(files.deep_view(), *g),
{
    proof {
        assert(g.canvas_width >= 1 && g.canvas_height >= 1) by (nonlinear_arith)
            requires
                g.columns >= 1 && g.rows >= 1 && g.cell_size >= 1,
                g.canvas_width == (g.columns as int) * (g.cell_size as int),
                g.canvas_height == (g.rows as int) * (g.cell_size as int),
        ;
    }
    let ghost fdv = files.deep_view();
    let ghost was_t = (*canvas) is Transient;
    let n = files.len();
    let mut i: usize = 0;
    while i < n
        invariant
            i <= n,
            n == files@.len(),
            fdv == files.deep_view(),
            canvas.wf(),
            ((*canvas) is Transient) == was_t,
            grid_dims_ok(*g),
            g.canvas_width >= 1,
            g.canvas_height >= 1,
            canvas.spec_width() == g.canvas_width,
            canvas.spec_height() == g.canvas_height,
            files@.len() <= (g.columns as int) * (g.rows as int),
            files@.len() <= u32::MAX as int,
            canvas.bytes() == collage_upto(fdv, *g, i as int),
        decreases n - i,
    {
        let ghost prev = canvas.bytes();
        proof {
            assert(fdv[i as int] == files@[i as int]@);
        }
        match decode_rgba(&files[i]) {
            Option::None => {
                assert(canvas.bytes() == collage_upto(fdv, *g, i as int + 1));
            },
            Option::Some(d) => {
                if d.width == 0 || d.height == 0 {
                    assert(canvas.bytes() == collage_upto(fdv, *g, i as int + 1));
                } else {
                    let p = resolve_placement(i as u32, d.width, d.height, g);
                    let resized = resize_lanczos(&d, p.scaled_w, p.scaled_h);
                    paste_image(canvas, p.offset_x, p.offset_y, p.scaled_w, p.scaled_h, &resized);
                    assert(canvas.bytes() == collage_upto(fdv, *g, i as int + 1));
                }
            },
        }
        i = i + 1;
    }
}

/// Hands the finished buffer to the writer: a heap canvas gives up its
/// bytes directly; a disk-backed canvas is flushed to stable storage
/// first and fails with `FlushFailed` when the flush is refused.
pub fn take_bytes(canvas: Canvas) -> (r: Result<Vec<u8>, CollageError>)
    ensures
        r matches Ok(v) ==> v@ == canvas.bytes(),
        r matches Err(e) ==> e == CollageError::FlushFailed && !(canvas is Transient),
{
    match canvas {
        Canvas::Transient(c) => Ok(c.data),
        Canvas::Persistent(c) => c.finish(),
    }
}

/// Wraps a finished buffer as an RGBA8 image of the recorded canvas
/// dimensions and encodes it as lossless WebP. A buffer whose length is
/// not exactly `4 * width * height`, or dimensions the encoder refuses
/// (zero, or beyond 16384), fail with `EncodeFailed`.
pub fn write_webp(width: u32, height: u32, data: &Vec<u8>) -> (r: Result<Vec<u8>, CollageError>)
    ensures
        r is Ok <==> {
            &&& data@.len() == 4 * (width as int) * (height as int)
            &&& 1 <= width <= 16384
            &&& 1 <= height <= 16384
        },
        r matches Ok(v) ==> v@ == webp_spec(width, height, data@),
        r matches Err(e) ==> e == CollageError::EncodeFailed,
{
    proof {
        assert(4 * (width as int) * (height as int) < 0x1_0000_0000_0000_0000_0000i128)
            by (nonlinear_arith)
            requires 0 <= width <= 0xffff_ffffu64 && 0 <= height <= 0xffff_ffffu64,
        ;
    }
    let expected: u128 = 4 * (width as u128) * (height as u128);
    let actual = data.len();
    if (actual as u128) != expected {
        return Err(CollageError::EncodeFailed);
    }
    if width == 0 || height == 0 || width > 16384 || height > 16384 {
        return Err(CollageError::EncodeFailed);
    }
    match encode_webp(width, height, data) {
        Option::Some(v) => Ok(v),
        Option::None => Err(CollageError::EncodeFailed),
    }
}

/// The finished collage for the given files and cell size, encoded as
/// lossless WebP, on the grid the layout demands.
pub open spec fn collage_webp_spec(files: Seq<Seq<u8>>, cell: int) -> Seq<u8> {
    let g = spec_grid(files.len() as int, cell);
    webp_spec(g.canvas_width, g.canvas_height, collage_bytes(files, g))
}

/// The canvas dimensions fit the WebP encoder's limits.
pub open spec fn webp_encodable(count: int, cell: int) -> bool {
    let g = spec_grid(count, cell);
    &&& 1 <= g.canvas_width <= 16384
    &&& 1 <= g.canvas_height <= 16384
}

/// Builds the whole collage in process memory: computes the grid,
/// composites every file onto a heap canvas, and encodes the result as
/// lossless WebP. No file means no collage: `EmptyInput` is returned and
/// the caller writes nothing.
pub fn collage_webp_transient(files: &Vec<Vec<u8>>, cell_size: u32) -> (r: Result<
    Vec<u8>,
    CollageError,
>)
    requires
        cell_size >= 1,
        files@.len() <= u32::MAX as int,
    ensures
        files@.len() == 0 <==> r == Result::<Vec<u8>, CollageError>::Err(
            CollageError::EmptyInput,
        ),
        files@.len() >= 1 ==> (r == Result::<Vec<u8>, CollageError>::Err(
            CollageError::CanvasTooLarge,
        ) <==> !grid_fits(files@.len() as int, cell_size as int)),
        files@.len() >= 1 && grid_fits(files@.len() as int, cell_size as int) ==> (r is Ok
            <==> webp_encodable(files@.len() as int, cell_size as int)),
        r matches Ok(v) ==> v@ == collage_webp_spec(files.deep_view(), cell_size as int),
        r matches Err(e) ==> (e == CollageError::EmptyInput || e == CollageError::CanvasTooLarge
            || e == CollageError::EncodeFailed),
{
    let count = files.len();
    let g = match compute_grid(count as u32, cell_size) {
        Result::Ok(g) => g,
        Result::Err(e) => {
            return Err(e);
        },
    };
    let len = buffer_len(&g);
    let tc = TransientCanvas::new(g.canvas_width, g.canvas_height, len);
    let mut canvas = Canvas::Transient(tc);
    composite_all(&mut canvas, files, &g);
    let data = match take_bytes(canvas) {
        Result::Ok(d) => d,
        Result::Err(e) => {
            return Err(e);
        },
    };
    write_webp(g.canvas_width, g.canvas_height, &data)
}

/// Builds the whole collage through a disk-backed byte store: the caller
/// hands in a mutable memory mapping (normally of a pre-extended
/// temporary file of exactly the length `compute_grid` and `buffer_len`
/// give); every compositing write goes through the mapping, which is
/// flushed to stable storage before the finished bytes are handed to the
/// encoder. For the same files and cell size the output bytes equal the
/// transient variant's.
pub fn collage_webp_persistent(map: MmapMut, files: &Vec<Vec<u8>>, cell_size: u32) -> (r: Result<
    Vec<u8>,
    CollageError,
>)
    requires
        cell_size >= 1,
        files@.len() <= u32::MAX as int,
    ensures
        files@.len() == 0 <==> r == Result::<Vec<u8>, CollageError>::Err(
            CollageError::EmptyInput,
        ),
        files@.len() >= 1 ==> (r == Result::<Vec<u8>, CollageError>::Err(
            CollageError::CanvasTooLarge,
        ) <==> !grid_fits(files@.len() as int, cell_size as int)),
        files@.len() >= 1 && grid_fits(files@.len() as int, cell_size as int) ==> (r
            == Result::<Vec<u8>, CollageError>::Err(CollageError::BufferSizeMismatch)
            <==> mmap_bytes(map).len() != 4 * (spec_grid(
            files@.len() as int,
            cell_size as int,
        ).canvas_width as int) * (spec_grid(files@.len() as int, cell_size as int).canvas_height as int)),
        r matches Ok(v) ==> v@ == collage_webp_spec(files.deep_view(), cell_size as int),
        r == Result::<Vec<u8>, CollageError>::Err(CollageError::EncodeFailed)
            ==> !webp_encodable(files@.len() as int, cell_size as int),
        files@.len() >= 1 && grid_fits(files@.len() as int, cell_size as int)
            && webp_encodable(files@.len() as int, cell_size as int) && mmap_bytes(map).len()
            == 4 * (spec_grid(files@.len() as int, cell_size as int).canvas_width as int) * (
        spec_grid(files@.len() as int, cell_size as int).canvas_height as int) ==> (r is Ok || r
            == Result::<Vec<u8>, CollageError>::Err(CollageError::FlushFailed)),
{
    let count = files.len();
    let g = match compute_grid(count as u32, cell_size) {
        Result::Ok(g) => g,
        Result::Err(e) => {
            return Err(e);
        },
    };
    let len = buffer_len(&g);
    let pc = match PersistentCanvas::new(map, g.canvas_width, g.canvas_height, len) {
        Result::Ok(c) => c,
        Result::Err(e) => {
            return Err(e);
        },
    };
    let mut canvas = Canvas::Persistent(pc);
    composite_all(&mut canvas, files, &g);
    let data = match take_bytes(canvas) {
        Result::Ok(d) => d,
        Result::Err(e) => {
            return Err(e);
        },
    };
    write_webp(g.canvas_width, g.canvas_height, &data)
}

/// Law: the transient and the persistent compositor variants produce
/// byte-identical output for the same input set. Each successful run's
/// bytes are pinned to `collage_webp_spec(files, cell)` by the two
/// builders' contracts, so any two such runs agree byte for byte,
/// whichever variant produced each.
pub proof fn lemma_variants_byte_identical(files: Seq<Seq<u8>>, cell: int, a: Seq<u8>, b: Seq<u8>)
    requires
        a == collage_webp_spec(files, cell),
        b == collage_webp_spec(files, cell),
    ensures
        a == b,
{
}

/// Compositing never changes the canvas length.
pub proof fn lemma_collage_upto_len(files: Seq<Seq<u8>>, g: GridSpec, n: int)
    ensures
        collage_upto(files, g, n).len() == 4 * (g.canvas_width as int) * (
        g.canvas_height as int),
    decreases n,
{
    if n > 0 {
        lemma_collage_upto_len(files, g, n - 1);
    }
}

/// Two cells of width `s` that share a coordinate are the same cell.
proof fn lemma_cell_coord_unique(s: int, c1: int, c2: int, a: int)
    requires
        s >= 1,
        0 <= c1,
        0 <= c2,
        c1 * s <= a < c1 * s + s,
        c2 * s <= a < c2 * s + s,
    ensures
        c1 == c2,
{
    lemma_fundamental_div_mod_converse(a, s, c1, a - c1 * s);
    lemma_fundamental_div_mod_converse(a, s, c2, a - c2 * s);
}

/// The cell of image `k` lies within the canvas.
proof fn lemma_cell_in_canvas(g: GridSpec, k: int, x: int, y: int)
    requires
        grid_dims_ok(g),
        0 <= k < (g.columns as int) * (g.rows as int),
        spec_col(k, g.columns as int) * (g.cell_size as int) <= x < spec_col(
            k,
            g.columns as int,
        ) * (g.cell_size as int) + g.cell_size,
        spec_row(k, g.columns as int) * (g.cell_size as int) <= y < spec_row(
            k,
            g.columns as int,
        ) * (g.cell_size as int) + g.cell_size,
    ensures
        0 <= x < g.canvas_width,
        0 <= y < g.canvas_height,
{
    let cols = g.columns as int;
    let cell = g.cell_size as int;
    let col = spec_col(k, cols);
    let row = spec_row(k, cols);
    lemma_mod_bound(k, cols);
    lemma_fundamental_div_mod(k, cols);
    assert(0 <= row < g.rows && col * cell >= 0 && row * cell >= 0
        && col * cell + cell <= cols * cell && row * cell + cell <= (g.rows as int) * cell)
        by (nonlinear_arith)
        requires
            cols >= 1 && cell >= 1 && g.rows >= 1,
            0 <= col < cols,
            0 <= k < cols * (g.rows as int),
            k == cols * row + col,
    ;
}

/// The heart of the failure-isolation law: compositing the first `n`
/// files never writes into the cell of an image whose decode fails.
proof fn lemma_untouched(files: Seq<Seq<u8>>, g: GridSpec, k: int, x: int, y: int, c: int, n: int)
    requires
        grid_dims_ok(g),
        files.len() <= (g.columns as int) * (g.rows as int),
        0 <= k < files.len(),
        decode_spec(files[k]) is None,
        spec_col(k, g.columns as int) * (g.cell_size as int) <= x < spec_col(
            k,
            g.columns as int,
        ) * (g.cell_size as int) + g.cell_size,
        spec_row(k, g.columns as int) * (g.cell_size as int) <= y < spec_row(
            k,
            g.columns as int,
        ) * (g.cell_size as int) + g.cell_size,
        0 <= c < 4,
        0 <= n <= files.len(),
    ensures
        collage_upto(files, g, n)[4 * (y * (g.canvas_width as int) + x) + c]
            == background_byte(4 * (y * (g.canvas_width as int) + x) + c),
    decreases n,
{
    let cw = g.canvas_width as int;
    let ch = g.canvas_height as int;
    let cell = g.cell_size as int;
    let cols = g.columns as int;
    let j = 4 * (y * cw + x) + c;
    lemma_cell_in_canvas(g, k, x, y);
    assert(0 <= y * cw + x && 4 * (y * cw + x) + 4 <= 4 * cw * ch) by (nonlinear_arith)
        requires 0 <= x < cw && 0 <= y < ch,
    ;
    lemma_fundamental_div_mod_converse(j, 4, y * cw + x, c);
    lemma_rank_coords(cw, x, y);
    assert(px_x(cw, j) == x && px_y(cw, j) == y);
    if n <= 0 {
        assert(collage_upto(files, g, 0)[j] == background_byte(j));
    } else {
        lemma_untouched(files, g, k, x, y, c, n - 1);
        lemma_collage_upto_len(files, g, n - 1);
        let prev = collage_upto(files, g, n - 1);
        let i = n - 1;
        if i != k {
            match decode_spec(files[i]) {
                Option::None => {},
                Option::Some(d) => {
                    if d.0 == 0 || d.1 == 0 {
                    } else {
                        let m = spec_max(d.0 as int, d.1 as int);
                        let sw = spec_scaled(d.0 as int, cell, m);
                        let sh = spec_scaled(d.1 as int, cell, m);
                        let coli = spec_col(i, cols);
                        let rowi = spec_row(i, cols);
                        let ox = coli * cell + (cell - sw) / 2;
                        let oy = rowi * cell + (cell - sh) / 2;
                        lemma_scaled_bounds(d.0 as int, cell, m);
                        lemma_scaled_bounds(d.1 as int, cell, m);
                        lemma_mod_bound(i, cols);
                        lemma_fundamental_div_mod(i, cols);
                        lemma_mod_bound(k, cols);
                        lemma_fundamental_div_mod(k, cols);
                        assert(rowi >= 0 && spec_row(k, cols) >= 0) by (nonlinear_arith)
                            requires
                                cols >= 1,
                                0 <= i,
                                0 <= k,
                                rowi == i / cols,
                                spec_row(k, cols) == k / cols,
                        ;
                        if in_paste(cw, ox, oy, sw, sh, j) {
                            assert(coli * cell <= x < coli * cell + cell);
                            assert(rowi * cell <= y < rowi * cell + cell);
                            lemma_cell_coord_unique(cell, coli, spec_col(k, cols), x);
                            lemma_cell_coord_unique(cell, rowi, spec_row(k, cols), y);
                            assert(i == cols * rowi + coli);
                            assert(k == cols * spec_row(k, cols) + spec_col(k, cols));
                            assert(false);
                        }
                        assert(step_bytes(prev, g, i, files[i])[j] == prev[j]);
                    }
                },
            }
        }
    }
}

/// Law: a decode failure on one of the images yields a collage of
/// unchanged dimensions whose cell stays entirely at the transparent
/// background (alpha zero), while every other image is composited as
/// usual: the failure never aborts the batch.
pub proof fn lemma_decode_failure_cell_transparent(
    files: Seq<Seq<u8>>,
    g: GridSpec,
    k: int,
    x: int,
    y: int,
    c: int,
)
    requires
        grid_dims_ok(g),
        files.len() <= (g.columns as int) * (g.rows as int),
        0 <= k < files.len(),
        decode_spec(files[k]) is None,
        spec_col(k, g.columns as int) * (g.cell_size as int) <= x < spec_col(
            k,
            g.columns as int,
        ) * (g.cell_size as int) + g.cell_size,
        spec_row(k, g.columns as int) * (g.cell_size as int) <= y < spec_row(
            k,
            g.columns as int,
        ) * (g.cell_size as int) + g.cell_size,
        0 <= c < 4,
    ensures
        collage_bytes(files, g).len() == 4 * (g.canvas_width as int) * (g.canvas_height as int),
        collage_bytes(files, g)[4 * (y * (g.canvas_width as int) + x) + c] == background_byte(
            4 * (y * (g.canvas_width as int) + x) + c,
        ),
        c == 3 ==> collage_bytes(files, g)[4 * (y * (g.canvas_width as int) + x) + c] == 0,
{
    lemma_collage_upto_len(files, g, files.len() as int);
    lemma_untouched(files, g, k, x, y, c, files.len() as int);
    let j = 4 * (y * (g.canvas_width as int) + x) + c;
    if c == 3 {
        lemma_cell_in_canvas(g, k, x, y);
        lemma_fundamental_div_mod_converse(j, 4, y * (g.canvas_width as int) + x, c);
    }
}

} // verus!
