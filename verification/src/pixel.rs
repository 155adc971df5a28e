use vstd::prelude::*;
use crate::error::PixelWarError;

verus! {

/// A transient pixel-update request: one element of the ordered batch handed
/// to a draw call. Not stored; the packed subsection buffer is the only
/// durable pixel representation.
#[derive(Clone, Copy, Debug, PartialEq, Eq, Structural)]
pub struct Pixel {
    pub x: u8,
    pub y: u8,
    pub color: u8,
}

/// A pixel is in range when its coordinates are below 10 and its color fits
/// in one nibble.
pub open spec fn pixel_valid(p: Pixel) -> bool {
    p.x < 10 && p.y < 10 && p.color < 16
}

/// The error an out-of-range pixel draws: coordinates are checked before
/// color.
pub open spec fn pixel_error(p: Pixel) -> PixelWarError {
    if !(p.x < 10 && p.y < 10) {
        PixelWarError::InvalidPixelCoordinates
    } else {
        PixelWarError::InvalidColor
    }
}

/// Whole-batch validation, in input order: the first out-of-range pixel
/// decides the error, and a batch with none is accepted.
pub open spec fn batch_check(pixels: Seq<Pixel>) -> Result<(), PixelWarError>
    decreases pixels.len(),
{
    if pixels.len() == 0 {
        Ok(())
    } else if !pixel_valid(pixels[0]) {
        Err(pixel_error(pixels[0]))
    } else {
        batch_check(pixels.drop_first())
    }
}

/// A batch passes validation exactly when every pixel of it is in range.
pub proof fn lemma_batch_check_ok(pixels: Seq<Pixel>)
    ensures
        batch_check(pixels) is Ok <==> forall|j: int| 0 <= j < pixels.len() ==> pixel_valid(pixels[j]),
    decreases pixels.len(),
{
    if pixels.len() > 0 && pixel_valid(pixels[0]) {
        lemma_batch_check_ok(pixels.drop_first());
        assert(forall|j: int|
            1 <= j < pixels.len() ==> pixels[j] == pixels.drop_first()[j - 1]);
    }
}

/// Validates a batch ahead of any mutation, so that a rejected batch leaves
/// the target buffer untouched.
pub fn check_batch(pixels: &Vec<Pixel>) -> (r: Result<(), PixelWarError>)
    ensures
        r == batch_check(pixels@),
{
    let n = pixels.len();
    let mut i: usize = 0;
    proof {
        assert(pixels@.skip(0) =~= pixels@);
    }
    while i < n
        invariant
            n == pixels@.len(),
            i <= n,
            batch_check(pixels@) == batch_check(pixels@.skip(i as int)),
        decreases n - i,
    {
        let p = pixels[i];
        proof {
            assert(pixels@.skip(i as int)[0] == pixels@[i as int]);
        }
        if !(p.x < 10 && p.y < 10) {
            return Err(PixelWarError::InvalidPixelCoordinates);
        }
        if !(p.color < 16) {
            return Err(PixelWarError::InvalidColor);
        }
        proof {
            assert(pixels@.skip(i as int).drop_first() =~= pixels@.skip(i + 1));
        }
        i = i + 1;
    }
    proof {
        assert(pixels@.skip(n as int) =~= Seq::<Pixel>::empty());
    }
    Ok(())
}

} // verus!
