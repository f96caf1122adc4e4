//! The disk-backed canvas: the pixel buffer lives in a mutable memory
//! mapping (normally of a pre-extended temporary file), so the full
//! collage never has to sit in process memory. The mapping is treated as
//! an opaque byte store; every access goes through a small trusted
//! wrapper over memmap2.

use vstd::prelude::*;
use memmap2::MmapMut;
use crate::CollageError;
use crate::canvas::{background_byte, background_bytes, lemma_pixel_base_bounds, updated_pixel};

verus! {

/// memmap2's mutable memory map, held as an opaque byte store.
#[verifier::external_type_specification]
#[verifier::external_body]
pub struct ExMmapMut(MmapMut);

/// The bytes a memory map holds.
pub uninterp spec fn mmap_bytes(m: MmapMut) -> Seq<u8>;

/// Relies on memmap2's `MmapMut` dereferencing to the full mapped `[u8]`
/// slice (via `AsRef<[u8]>`): its length is the mapping's byte length.
#[verifier::external_body]
fn mmap_len(m: &MmapMut) -> (n: usize)
    ensures
        n == mmap_bytes(*m).len(),
{
    m.as_ref().len()
}

/// Relies on memmap2's `MmapMut` dereferencing mutably to the mapped
/// `[u8]` slice: writing one byte in place changes that byte and no other.
#[verifier::external_body]
fn mmap_set(m: &mut MmapMut, i: usize, v: u8)
    requires
        i < mmap_bytes(*old(m)).len(),
    ensures
        mmap_bytes(*final(m)) == mmap_bytes(*old(m)).update(i as int, v),
{
    m[i] = v;
}

/// Relies on memmap2's `MmapMut` dereferencing to the mapped `[u8]`
/// slice: `to_vec` copies the mapped bytes out unchanged.
#[verifier::external_body]
fn mmap_to_vec(m: &MmapMut) -> (r: Vec<u8>)
    ensures
        r@ == mmap_bytes(*m),
{
    m.to_vec()
}

/// Relies on memmap2's `MmapMut::flush`: when it returns without error,
/// all outstanding writes are durably stored. Whether it succeeds depends
/// on the machine; the mapped bytes are not changed either way.
#[verifier::external_body]
fn mmap_flush(m: &MmapMut) -> bool {
    m.flush().is_ok()
}

/// A disk-backed canvas of `width * height` RGBA8 pixels.
pub struct PersistentCanvas {
    pub map: MmapMut,
    pub width: u32,
    pub height: u32,
}

impl PersistentCanvas {
    /// The mapping holds exactly four bytes per pixel, and fits the
    /// machine's address space.
    pub open spec fn wf(self) -> bool {
        &&& mmap_bytes(self.map).len() == 4 * (self.width as int) * (self.height as int)
        &&& 4 * (self.width as int) * (self.height as int) <= usize::MAX as int
    }

    /// The bytes of the canvas.
    pub open spec fn bytes(self) -> Seq<u8> {
        mmap_bytes(self.map)
    }

    /// Wraps a pre-extended mapping as a canvas and paints the background,
    /// every pixel transparent white. A mapping whose length is not exactly
    /// four bytes per pixel is refused with `BufferSizeMismatch`.
    pub fn new(map: MmapMut, width: u32, height: u32, len: usize) -> (r: Result<
        Self,
        CollageError,
    >)
        requires
            len == 4 * (width as int) * (height as int),
        ensures
            mmap_bytes(map).len() == len <==> r is Ok,
            r matches Err(e) ==> e == CollageError::BufferSizeMismatch,
            r matches Ok(c) ==> {
                &&& c.wf()
                &&& c.width == width
                &&& c.height == height
                &&& c.bytes() == background_bytes(len as int)
            },
    {
        let mut map = map;
        if mmap_len(&map) != len {
            return Err(CollageError::BufferSizeMismatch);
        }
        let mut j: usize = 0;
        while j < len
            invariant
                j <= len,
                mmap_bytes(map).len() == len,
                forall|k: int| 0 <= k < j ==> mmap_bytes(map)[k] == background_byte(k),
            decreases len - j,
        {
            if j % 4 == 3 {
                mmap_set(&mut map, j, 0u8);
            } else {
                mmap_set(&mut map, j, 255u8);
            }
            j = j + 1;
        }
        let c = PersistentCanvas { map, width, height };
        proof {
            assert(c.bytes() =~= background_bytes(len as int));
        }
        Ok(c)
    }

    /// Overwrites the pixel at `(x, y)` with the given RGBA value, writing
    /// through the mapping.
    pub fn set_pixel(&mut self, x: u32, y: u32, r: u8, g: u8, b: u8, a: u8)
        requires
            old(self).wf(),
            x < old(self).width,
            y < old(self).height,
        ensures
            final(self).wf(),
            final(self).width == old(self).width,
            final(self).height == old(self).height,
            final(self).bytes() == updated_pixel(
                old(self).bytes(),
                old(self).width as int,
                x as int,
                y as int,
                r,
                g,
                b,
                a,
            ),
    {
        proof {
            lemma_pixel_base_bounds(
                self.width as int,
                self.height as int,
                x as int,
                y as int,
            );
            assert((y as int) * (self.width as int) + x
                < (self.width as int) * (self.height as int)) by (nonlinear_arith)
                requires 0 <= x < self.width && 0 <= y < self.height,
            ;
        }
        let base: usize = 4 * ((y as usize) * (self.width as usize) + (x as usize));
        mmap_set(&mut self.map, base, r);
        mmap_set(&mut self.map, base + 1, g);
        mmap_set(&mut self.map, base + 2, b);
        mmap_set(&mut self.map, base + 3, a);
    }

    /// Flushes the mapping to stable storage and copies the finished bytes
    /// out for the writer. Fails with `FlushFailed` when the operating
    /// system refuses the flush.
    pub fn finish(self) -> (r: Result<Vec<u8>, CollageError>)
        ensures
            r matches Ok(v) ==> v@ == self.bytes(),
            r matches Err(e) ==> e == CollageError::FlushFailed,
    {
        if !mmap_flush(&self.map) {
            return Err(CollageError::FlushFailed);
        }
        Ok(mmap_to_vec(&self.map))
    }
}

} // verus!
