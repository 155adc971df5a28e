use vstd::prelude::*;
use crate::error::PixelWarError;
use crate::pixel::{Pixel, pixel_valid, batch_check, check_batch, lemma_batch_check_ok};

verus! {

/// Bytes in a subsection's packed pixel buffer: 100 pixels, two to a byte.
pub const PIXEL_BYTES: usize = 50;

/// One stored canvas partition, identified by `(quadrant, x, y)` and holding
/// its densely packed pixel buffer. The buffer is always exactly
/// [`PIXEL_BYTES`] bytes long; each nibble of it is one pixel's color.
pub struct Subsection {
    pub quadrant: u8,
    pub x: u8,
    pub y: u8,
    pub pixels: Vec<u8>,
}

/// The linear index of a pixel inside a subsection: row-major over `(x, y)`,
/// in `0 .. 100` for in-range coordinates.
pub open spec fn pixel_index(x: u8, y: u8) -> int {
    x * 10 + y
}

/// The linear pixel index adjacent to `i`: the other nibble of the same byte.
pub open spec fn adjacent_index(i: int) -> int {
    if i % 2 == 1 {
        i - 1
    } else {
        i + 1
    }
}

/// The color stored at linear pixel index `i` of a packed buffer: even
/// indices live in the low nibble of byte `i / 2`, odd indices in the high
/// nibble.
pub open spec fn nibble_at(buf: Seq<u8>, i: int) -> u8 {
    if i % 2 == 1 {
        buf[i / 2] >> 4
    } else {
        buf[i / 2] & 0x0F
    }
}

/// Whatever a draw has written, a nibble read is always a color in `0 .. 16`.
pub proof fn lemma_nibble_in_range(buf: Seq<u8>, i: int)
    ensures
        nibble_at(buf, i) < 16,
{
    let b = buf[i / 2];
    assert(b >> 4 < 16) by (bit_vector);
    assert(b & 0x0F < 16) by (bit_vector);
}

/// One read/modify/write step on a byte: keep the untouched nibble, overwrite
/// the selected one with `color`.
pub open spec fn byte_with_nibble(b: u8, high: bool, color: u8) -> u8 {
    if high {
        (b & 0x0F) | (color << 4)
    } else {
        (b & 0xF0) | color
    }
}

/// The buffer after one pixel write.
pub open spec fn apply_pixel(buf: Seq<u8>, p: Pixel) -> Seq<u8> {
    let i = pixel_index(p.x, p.y);
    buf.update(i / 2, byte_with_nibble(buf[i / 2], i % 2 == 1, p.color))
}

/// The buffer after a whole batch of writes, in input order: a later entry at
/// the same coordinate overwrites an earlier one.
pub open spec fn apply_batch(buf: Seq<u8>, pixels: Seq<Pixel>) -> Seq<u8>
    decreases pixels.len(),
{
    if pixels.len() == 0 {
        buf
    } else {
        apply_pixel(apply_batch(buf, pixels.drop_last()), pixels.last())
    }
}

/// Round-trip packing law: writing one in-range pixel and reading the same
/// position back yields exactly its color, while the adjacent nibble of the
/// same byte and every other byte of the buffer are unchanged.
pub proof fn lemma_pixel_round_trip(buf: Seq<u8>, p: Pixel)
    requires
        buf.len() == PIXEL_BYTES,
        pixel_valid(p),
    ensures
        nibble_at(apply_pixel(buf, p), pixel_index(p.x, p.y)) == p.color,
        nibble_at(apply_pixel(buf, p), adjacent_index(pixel_index(p.x, p.y)))
            == nibble_at(buf, adjacent_index(pixel_index(p.x, p.y))),
        forall|j: int|
            0 <= j < buf.len() && j != pixel_index(p.x, p.y) / 2
                ==> apply_pixel(buf, p)[j] == buf[j],
        apply_pixel(buf, p).len() == PIXEL_BYTES,
{
    let i = pixel_index(p.x, p.y);
    let b = buf[i / 2];
    let c = p.color;
    if i % 2 == 1 {
        assert(((b & 0x0F) | (c << 4)) >> 4 == c) by (bit_vector)
            requires
                c < 16,
        ;
        assert(((b & 0x0F) | (c << 4)) & 0x0F == b & 0x0F) by (bit_vector);
        assert(adjacent_index(i) / 2 == i / 2);
    } else {
        assert(((b & 0xF0) | c) & 0x0F == c) by (bit_vector)
            requires
                c < 16,
        ;
        assert(((b & 0xF0) | c) >> 4 == b >> 4) by (bit_vector)
            requires
                c < 16,
        ;
        assert(adjacent_index(i) / 2 == i / 2);
    }
}

impl Subsection {
    /// A subsection is well formed when its identifying coordinates are in
    /// range and its buffer has its fixed size.
    pub open spec fn wf(self) -> bool {
        self.quadrant < 4 && self.x < 10 && self.y < 10 && self.pixels@.len() == PIXEL_BYTES
    }

    /// The draw engine: validate the whole batch first, then apply every
    /// write in input order. A rejected batch leaves the buffer untouched;
    /// an accepted one rewrites exactly the addressed nibbles.
    pub fn apply_pixels(&mut self, pixels: &Vec<Pixel>) -> (r: Result<(), PixelWarError>)
        requires
            old(self).pixels@.len() == PIXEL_BYTES,
        ensures
            r == batch_check(pixels@),
            final(self).quadrant == old(self).quadrant,
            final(self).x == old(self).x,
            final(self).y == old(self).y,
            final(self).pixels@.len() == PIXEL_BYTES,
            r is Ok ==> final(self).pixels@ == apply_batch(old(self).pixels@, pixels@),
            r is Err ==> final(self).pixels@ == old(self).pixels@,
    {
        match check_batch(pixels) {
            Err(e) => Err(e),
            Ok(()) => {
                proof {
                    lemma_batch_check_ok(pixels@);
                }
                let n = pixels.len();
                let mut k: usize = 0;
                proof {
                    assert(pixels@.take(0) =~= Seq::<Pixel>::empty());
                }
                while k < n
                    invariant
                        n == pixels@.len(),
                        k <= n,
                        batch_check(pixels@) is Ok,
                        forall|j: int| 0 <= j < n ==> pixel_valid(pixels@[j]),
                        self.pixels@.len() == PIXEL_BYTES,
                        self.pixels@ == apply_batch(old(self).pixels@, pixels@.take(k as int)),
                        self.quadrant == old(self).quadrant,
                        self.x == old(self).x,
                        self.y == old(self).y,
                    decreases n - k,
                {
                    let p = pixels[k];
                    assert(pixel_valid(pixels@[k as int]));
                    let index: usize = (p.x as usize) * 10 + (p.y as usize);
                    let bi: usize = index / 2;
                    let b = self.pixels[bi];
                    let nb: u8 = if index % 2 == 1 {
                        (b & 0x0F) | (p.color << 4)
                    } else {
                        (b & 0xF0) | p.color
                    };
                    self.pixels[bi] = nb;
                    proof {
                        assert(index as int == pixel_index(p.x, p.y));
                        assert(pixels@.take(k + 1).drop_last() =~= pixels@.take(k as int));
                        assert(pixels@.take(k + 1).last() == pixels@[k as int]);
                    }
                    k = k + 1;
                }
                proof {
                    assert(pixels@.take(n as int) =~= pixels@);
                    match batch_check(pixels@) {
                        Ok(u) => {
                            assert(batch_check(pixels@) == Ok::<(), PixelWarError>(u));
                        },
                        Err(_) => {
                            assert(false);
                        },
                    }
                }
                Ok(())
            },
        }
    }

    /// Reads one pixel's color back out of the packed buffer.
    pub fn get_pixel(&self, x: u8, y: u8) -> (c: u8)
        requires
            x < 10,
            y < 10,
            self.pixels@.len() == PIXEL_BYTES,
        ensures
            c == nibble_at(self.pixels@, pixel_index(x, y)),
    {
        let index: usize = (x as usize) * 10 + (y as usize);
        let b = self.pixels[index / 2];
        if index % 2 == 1 {
            b >> 4
        } else {
            b & 0x0F
        }
    }
}

} // verus!
