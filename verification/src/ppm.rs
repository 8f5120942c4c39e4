//! ASCII P3 PPM image writer.

use vstd::prelude::*;
use crate::decimal::{decimal_bytes, push_decimal};

verus! {

/// An 8-bit-per-channel pixel: red, green, blue.
pub type Rgb8 = (u8, u8, u8);

/// ASCII line feed.
pub const NEWLINE: u8 = 10;

/// ASCII space.
pub const SPACE: u8 = 32;

/// ASCII `P`.
pub const LETTER_P: u8 = 80;

/// ASCII `2`.
pub const DIGIT_2: u8 = 50;

/// ASCII `3`.
pub const DIGIT_3: u8 = 51;

/// ASCII `5`.
pub const DIGIT_5: u8 = 53;

/// `P3`, then `width height`, then the maximum sample value `255`, one per line.
pub open spec fn ppm_header(width: nat, height: nat) -> Seq<u8> {
    seq![LETTER_P, DIGIT_3, NEWLINE] + decimal_bytes(width) + seq![SPACE] + decimal_bytes(height)
        + seq![NEWLINE] + seq![DIGIT_2, DIGIT_5, DIGIT_5, NEWLINE]
}

/// One `R G B` line.
pub open spec fn pixel_line(p: Rgb8) -> Seq<u8> {
    decimal_bytes(p.0 as nat) + seq![SPACE] + decimal_bytes(p.1 as nat) + seq![SPACE]
        + decimal_bytes(p.2 as nat) + seq![NEWLINE]
}

/// One line per pixel, in the order given.
pub open spec fn pixel_lines(pixels: Seq<Rgb8>) -> Seq<u8>
    decreases pixels.len(),
{
    if pixels.len() == 0 {
        Seq::empty()
    } else {
        pixel_lines(pixels.drop_last()) + pixel_line(pixels.last())
    }
}

/// The whole P3 file for a `width` x `height` image.
pub open spec fn ppm_p3(width: nat, height: nat, pixels: Seq<Rgb8>) -> Seq<u8> {
    ppm_header(width, height) + pixel_lines(pixels)
}

/// Appends a P3 PPM image to `out`: header `P3` / `width height` / `255`, then
/// one `R G B` line per pixel. Pixels are row-major, top-left to bottom-right.
/// The buffer must hold exactly `width * height` pixels.
pub fn write_ppm_p3(out: &mut Vec<u8>, width: u32, height: u32, pixels: &[Rgb8])
    requires
        pixels@.len() == width as int * height as int,
    ensures
        final(out)@ == old(out)@ + ppm_p3(width as nat, height as nat, pixels@),
{
    let ghost start = out@;
    out.push(LETTER_P);
    out.push(DIGIT_3);
    out.push(NEWLINE);
    push_decimal(out, width);
    out.push(SPACE);
    push_decimal(out, height);
    out.push(NEWLINE);
    out.push(DIGIT_2);
    out.push(DIGIT_5);
    out.push(DIGIT_5);
    out.push(NEWLINE);
    assert(out@ =~= start + ppm_header(width as nat, height as nat));
    let mut i: usize = 0;
    while i < pixels.len()
        invariant
            i <= pixels@.len(),
            out@ == start + ppm_header(width as nat, height as nat) + pixel_lines(
                pixels@.take(i as int),
            ),
        decreases pixels@.len() - i,
    {
        let (r, g, b) = pixels[i];
        let ghost before = out@;
        push_decimal(out, r as u32);
        out.push(SPACE);
        push_decimal(out, g as u32);
        out.push(SPACE);
        push_decimal(out, b as u32);
        out.push(NEWLINE);
        assert(pixels@.take(i + 1).drop_last() =~= pixels@.take(i as int));
        assert(out@ =~= before + pixel_line(pixels@[i as int]));
        i = i + 1;
    }
    assert(pixels@.take(i as int) =~= pixels@);
}

/// The written file, byte by byte: `P3`, a newline, `width` in decimal, a
/// space, `height` in decimal, a newline, `255`, a newline, then the pixel
/// lines; each pixel line is its red, green and blue values in decimal,
/// separated by spaces and ended by a newline, in buffer order.
pub proof fn lemma_ppm_bytes(width: nat, height: nat, pixels: Seq<Rgb8>)
    ensures
        ppm_p3(width, height, pixels) == seq![LETTER_P, DIGIT_3, NEWLINE] + decimal_bytes(width)
            + seq![SPACE] + decimal_bytes(height) + seq![NEWLINE, DIGIT_2, DIGIT_5, DIGIT_5, NEWLINE]
            + pixel_lines(pixels),
        pixels.len() == 0 ==> pixel_lines(pixels) == Seq::<u8>::empty(),
        pixels.len() > 0 ==> pixel_lines(pixels) == pixel_lines(pixels.drop_last())
            + decimal_bytes(pixels.last().0 as nat) + seq![SPACE] + decimal_bytes(
            pixels.last().1 as nat,
        ) + seq![SPACE] + decimal_bytes(pixels.last().2 as nat) + seq![NEWLINE],
{
    assert(ppm_p3(width, height, pixels) =~= seq![LETTER_P, DIGIT_3, NEWLINE] + decimal_bytes(
        width,
    ) + seq![SPACE] + decimal_bytes(height) + seq![NEWLINE, DIGIT_2, DIGIT_5, DIGIT_5, NEWLINE]
        + pixel_lines(pixels));
    if pixels.len() > 0 {
        assert(pixel_lines(pixels) =~= pixel_lines(pixels.drop_last()) + decimal_bytes(
            pixels.last().0 as nat,
        ) + seq![SPACE] + decimal_bytes(pixels.last().1 as nat) + seq![SPACE] + decimal_bytes(
            pixels.last().2 as nat,
        ) + seq![NEWLINE]);
    }
}

} // verus!
