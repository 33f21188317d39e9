//! Binary PPM (P6) encoding of an RGB raster.
use vstd::prelude::*;

verus! {

/// ASCII `0`.
pub const DIGIT_ZERO: u8 = 48;

/// ASCII `P`, the first byte of a PPM header.
pub const MAGIC_LETTER: u8 = 80;

/// The binary-RGB PPM variant, written after the `P`.
pub const MAGIC_VARIANT: usize = 6;

/// The largest value of a colour sample: one byte per sample.
pub const MAX_SAMPLE: usize = 255;

/// ASCII space, the header's separator.
pub const SPACE: u8 = 32;

/// ASCII line feed, which ends the header.
pub const NEWLINE: u8 = 10;

/// The ASCII decimal digits of `n`, most significant first, with no leading
/// zero.
pub open spec fn decimal(n: nat) -> Seq<u8>
    decreases n,
{
    if n < 10 {
        seq![(DIGIT_ZERO + n) as u8]
    } else {
        decimal(n / 10).push((DIGIT_ZERO + n % 10) as u8)
    }
}

/// The header `P6 {width} {height} 255\n`.
pub open spec fn header(width: nat, height: nat) -> Seq<u8> {
    seq![MAGIC_LETTER] + decimal(MAGIC_VARIANT as nat) + seq![SPACE] + decimal(width) + seq![SPACE]
        + decimal(height) + seq![SPACE] + decimal(MAX_SAMPLE as nat) + seq![NEWLINE]
}

/// The number of bytes of a `width` by `height` raster, three per pixel.
pub open spec fn raster_len(width: nat, height: nat) -> nat {
    width * height * 3
}

/// Appends the decimal digits of `n` to `out`.
fn push_decimal(out: &mut Vec<u8>, n: usize)
    ensures
        final(out)@ == old(out)@ + decimal(n as nat),
    decreases n,
{
    if n >= 10 {
        push_decimal(out, n / 10);
    }
    out.push(DIGIT_ZERO + (n % 10) as u8);
}

/// The PPM header for a `width` by `height` image.
pub fn ppm_header(width: usize, height: usize) -> (r: Vec<u8>)
    ensures
        r@ == header(width as nat, height as nat),
{
    let mut out: Vec<u8> = Vec::new();
    out.push(MAGIC_LETTER);
    push_decimal(&mut out, MAGIC_VARIANT);
    out.push(SPACE);
    push_decimal(&mut out, width);
    out.push(SPACE);
    push_decimal(&mut out, height);
    out.push(SPACE);
    push_decimal(&mut out, MAX_SAMPLE);
    out.push(NEWLINE);
    assert(out@ =~= header(width as nat, height as nat));
    out
}

/// The pixel buffer handed to [`encode_ppm`] does not hold one RGB triplet
/// per pixel of the stated size.
#[derive(Clone, Copy, Debug, PartialEq, Eq, Structural)]
pub struct SizeMismatch {
    pub width: usize,
    pub height: usize,
    pub actual: usize,
}

/// Serialises a row-major RGB raster as a binary PPM file: the header,
/// then the pixel bytes as they are. A buffer whose length is not
/// `width * height * 3` is refused.
pub fn encode_ppm(width: usize, height: usize, pixels: &Vec<u8>) -> (r: Result<
    Vec<u8>,
    SizeMismatch,
>)
    ensures
        pixels@.len() == raster_len(width as nat, height as nat) ==> (r matches Ok(bytes)
            && bytes@ == header(width as nat, height as nat) + pixels@),
        pixels@.len() != raster_len(width as nat, height as nat) ==> r == Err::<Vec<u8>, _>(
            SizeMismatch { width, height, actual: pixels.len() },
        ),
{
    let expected = width.checked_mul(height);
    let expected = match expected {
        Some(n) => n.checked_mul(3),
        None => None,
    };
    proof {
        assert(raster_len(width as nat, height as nat) == (width as nat * height as nat) * 3);
    }
    match expected {
        Some(n) if n == pixels.len() => {
            let mut out = ppm_header(width, height);
            let ghost head = out@;
            let mut i: usize = 0;
            while i < pixels.len()
                invariant
                    0 <= i <= pixels.len(),
                    out@ =~= head + pixels@.take(i as int),
                decreases pixels.len() - i,
            {
                out.push(pixels[i]);
                i += 1;
            }
            assert(pixels@.take(i as int) =~= pixels@);
            Ok(out)
        },
        _ => {
            proof {
                if pixels@.len() == raster_len(width as nat, height as nat) {
                    assert(width as nat * height as nat <= usize::MAX) by (nonlinear_arith)
                        requires
                            (width as nat * height as nat) * 3 == pixels@.len(),
                            pixels@.len() <= usize::MAX,
                    ;
                }
            }
            Err(SizeMismatch { width, height, actual: pixels.len() })
        },
    }
}

} // verus!
