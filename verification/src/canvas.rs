//! The in-memory canvas: an RGBA8 pixel buffer initialized to a
//! transparent-white background (R = G = B = 255, alpha = 0).

use vstd::prelude::*;

verus! {

/// The background value of byte `j` of the canvas: every pixel is
/// transparent white, so alpha bytes are 0 and color bytes are 255.
pub open spec fn background_byte(j: int) -> u8 {
    if j % 4 == 3 {
        0u8
    } else {
        255u8
    }
}

/// A background canvas of `len` bytes.
pub open spec fn background_bytes(len: int) -> Seq<u8> {
    Seq::new(len as nat, |j: int| background_byte(j))
}

/// The index of the first byte of pixel `(x, y)` on a canvas `width`
/// pixels wide.
pub open spec fn pixel_base(width: int, x: int, y: int) -> int {
    4 * (y * width + x)
}

/// A pixel write stays within the buffer.
pub proof fn lemma_pixel_base_bounds(width: int, height: int, x: int, y: int)
    requires
        0 <= x < width,
        0 <= y < height,
    ensures
        0 <= pixel_base(width, x, y),
        pixel_base(width, x, y) + 4 <= 4 * width * height,
{
    assert(0 <= 4 * (y * width + x) && 4 * (y * width + x) + 4 <= 4 * width * height)
        by (nonlinear_arith)
        requires 0 <= x < width && 0 <= y < height,
    ;
}

/// A heap-resident canvas of `width * height` RGBA8 pixels.
pub struct TransientCanvas {
    pub width: u32,
    pub height: u32,
    pub data: Vec<u8>,
}

impl TransientCanvas {
    /// The canvas holds exactly four bytes per pixel, and fits the
    /// machine's address space.
    pub open spec fn wf(self) -> bool {
        &&& self.data@.len() == 4 * (self.width as int) * (self.height as int)
        &&& 4 * (self.width as int) * (self.height as int) <= usize::MAX as int
    }

    /// A fresh canvas, every pixel transparent white.
    pub fn new(width: u32, height: u32, len: usize) -> (c: Self)
        requires
            len == 4 * (width as int) * (height as int),
        ensures
            c.wf(),
            c.width == width,
            c.height == height,
            c.data@ == background_bytes(4 * (width as int) * (height as int)),
    {
        let mut data: Vec<u8> = Vec::new();
        let mut j: usize = 0;
        while j < len
            invariant
                j <= len,
                data@.len() == j,
                forall|k: int| 0 <= k < j ==> data@[k] == background_byte(k),
            decreases len - j,
        {
            if j % 4 == 3 {
                data.push(0u8);
            } else {
                data.push(255u8);
            }
            j = j + 1;
        }
        let c = TransientCanvas { width, height, data };
        proof {
            assert(c.data@ =~= background_bytes(len as int));
        }
        c
    }

    /// Overwrites the pixel at `(x, y)` with the given RGBA value.
    pub fn set_pixel(&mut self, x: u32, y: u32, r: u8, g: u8, b: u8, a: u8)
        requires
            old(self).wf(),
            x < old(self).width,
            y < old(self).height,
        ensures
            final(self).wf(),
            final(self).width == old(self).width,
            final(self).height == old(self).height,
            final(self).data@ == updated_pixel(
                old(self).data@,
                old(self).width as int,
                x as int,
                y as int,
                r,
                g,
                b,
                a,
            ),
    {
        proof {
            lemma_pixel_base_bounds(
                self.width as int,
                self.height as int,
                x as int,
                y as int,
            );
            assert((y as int) * (self.width as int) + x
                < (self.width as int) * (self.height as int)) by (nonlinear_arith)
                requires 0 <= x < self.width && 0 <= y < self.height,
            ;
        }
        let base: usize = 4 * ((y as usize) * (self.width as usize) + (x as usize));
        self.data.set(base, r);
        self.data.set(base + 1, g);
        self.data.set(base + 2, b);
        self.data.set(base + 3, a);
    }
}

/// The canvas bytes after the pixel at `(x, y)` is overwritten with the
/// RGBA value `(r, g, b, a)`.
pub open spec fn updated_pixel(
    bytes: Seq<u8>,
    width: int,
    x: int,
    y: int,
    r: u8,
    g: u8,
    b: u8,
    a: u8,
) -> Seq<u8> {
    let base = pixel_base(width, x, y);
    bytes.update(base, r).update(base + 1, g).update(base + 2, b).update(base + 3, a)
}

} // verus!
