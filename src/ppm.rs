//! The plain-text image format: a header `P3 <width> <height> 255` and one
//! line `r g b` per pixel, each channel a decimal integer in `0..=255`.

use vstd::prelude::*;

verus! {

/// ASCII code of the decimal digit `d` (`d < 10`).
pub open spec fn digit_byte(d: nat) -> u8 {
    (d + 48) as u8
}

/// Decimal digits of `n`, most significant first, without leading zeros
/// (`"0"` for zero), as ASCII bytes.
pub open spec fn decimal(n: nat) -> Seq<u8>
    decreases n,
{
    if n < 10 {
        seq![digit_byte(n)]
    } else {
        decimal(n / 10).push(digit_byte(n % 10))
    }
}

/// Appends the decimal digits of `n` to `out`.
pub fn push_decimal(out: &mut Vec<u8>, n: u64)
    ensures
        final(out)@ == old(out)@ + decimal(n as nat),
    decreases n,
{
    if n >= 10 {
        push_decimal(out, n / 10);
    }
    out.push((n % 10) as u8 + 48);
    proof {
        assert(decimal(n as nat) =~= if n < 10 {
            seq![digit_byte(n as nat)]
        } else {
            decimal((n / 10) as nat).push(digit_byte((n % 10) as nat))
        });
    }
}


/// The byte sequence of the header line `P3 <width> <height> 255`.
pub open spec fn header_text(width: nat, height: nat) -> Seq<u8> {
    seq![80u8, 51u8, 32u8] + decimal(width) + seq![32u8] + decimal(height) + seq![
        32u8,
        50u8,
        53u8,
        53u8,
        10u8,
    ]
}

/// The byte sequence of one pixel line `r g b`.
pub open spec fn pixel_text(r: u8, g: u8, b: u8) -> Seq<u8> {
    decimal(r as nat) + seq![32u8] + decimal(g as nat) + seq![32u8] + decimal(b as nat) + seq![
        10u8,
    ]
}

/// Appends the header line of a `width` by `height` image to `out`.
pub fn push_header(out: &mut Vec<u8>, width: u64, height: u64)
    ensures
        final(out)@ == old(out)@ + header_text(width as nat, height as nat),
{
    let ghost start = out@;
    out.push(80);
    out.push(51);
    out.push(32);
    push_decimal(out, width);
    out.push(32);
    push_decimal(out, height);
    out.push(32);
    out.push(50);
    out.push(53);
    out.push(53);
    out.push(10);
    assert(out@ =~= start + header_text(width as nat, height as nat));
}

/// Appends the line of one pixel with channels `r`, `g`, `b` to `out`.
pub fn push_pixel(out: &mut Vec<u8>, r: u8, g: u8, b: u8)
    ensures
        final(out)@ == old(out)@ + pixel_text(r, g, b),
{
    let ghost start = out@;
    push_decimal(out, r as u64);
    out.push(32);
    push_decimal(out, g as u64);
    out.push(32);
    push_decimal(out, b as u64);
    out.push(10);
    assert(out@ =~= start + pixel_text(r, g, b));
}

/// The channel level `level` brought into the displayable range `0..=255`.
pub open spec fn clamped_level(level: int) -> int {
    if level < 0 {
        0
    } else if level > 255 {
        255
    } else {
        level
    }
}

/// Brings a quantized channel level into `0..=255`: values from light
/// brighter than full intensity become 255, negative ones become 0.
pub fn channel_byte(level: i64) -> (r: u8)
    ensures
        r as int == clamped_level(level as int),
{
    if level < 0 {
        0
    } else if level > 255 {
        255
    } else {
        level as u8
    }
}

} // verus!
