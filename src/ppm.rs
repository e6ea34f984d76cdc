//! Plain-text PPM (P3) encoding of the rendered raster.
//!
//! The file starts with the header `P3`, the width, the height and the
//! maximum channel value 255, each on its own line, followed by one line
//! `R G B` in decimal for every pixel, top row first.
use crate::image::{is_grid, Rgb8};
use vstd::prelude::*;

verus! {

/// ASCII `0`; the digit `d` is written as `ASCII_ZERO + d`.
pub const ASCII_ZERO: u8 = 48;
/// ASCII `P`.
pub const ASCII_P: u8 = 80;
/// ASCII space, between the channels of a pixel.
pub const SPACE: u8 = 32;
/// ASCII line feed, after each header field and each pixel.
pub const NEWLINE: u8 = 10;
/// The maximum channel value, written in the header.
pub const MAX_CHANNEL: usize = 255;

/// The ASCII decimal digits of `n`, most significant first, without
/// leading zeros.
pub open spec fn decimal(n: nat) -> Seq<u8>
    decreases n,
{
    if n < 10 {
        seq![(ASCII_ZERO + n) as u8]
    } else {
        decimal(n / 10) + seq![(ASCII_ZERO + n % 10) as u8]
    }
}

/// The header of a PPM file for an image of `width` by `height` pixels.
pub open spec fn ppm_header(width: nat, height: nat) -> Seq<u8> {
    seq![ASCII_P] + decimal(3) + seq![NEWLINE] + decimal(width) + seq![NEWLINE] + decimal(height) + seq![NEWLINE]
        + decimal(MAX_CHANNEL as nat) + seq![NEWLINE]
}

/// The line `R G B` of one pixel.
pub open spec fn ppm_pixel(p: Rgb8) -> Seq<u8> {
    decimal(p.r as nat) + seq![SPACE] + decimal(p.g as nat) + seq![SPACE] + decimal(p.b as nat) + seq![NEWLINE]
}

/// The lines of the first `i` pixels of `row`.
pub open spec fn ppm_row(row: Seq<Rgb8>, i: nat) -> Seq<u8>
    decreases i,
{
    if i == 0 {
        Seq::empty()
    } else {
        ppm_row(row, (i - 1) as nat) + ppm_pixel(row[i - 1])
    }
}

/// The lines of the top `k` rows of `rows`, which are stored bottom first.
pub open spec fn ppm_rows(rows: Seq<Vec<Rgb8>>, k: nat) -> Seq<u8>
    decreases k,
{
    if k == 0 {
        Seq::empty()
    } else {
        let row = rows[rows.len() - k]@;
        ppm_rows(rows, (k - 1) as nat) + ppm_row(row, row.len())
    }
}

/// The whole PPM file of rows rendered bottom first, `width` pixels each.
pub open spec fn ppm_file(rows: Seq<Vec<Rgb8>>, width: nat) -> Seq<u8> {
    ppm_header(width, rows.len()) + ppm_rows(rows, rows.len())
}

fn push_decimal(out: &mut Vec<u8>, n: usize)
    ensures
        final(out)@ == old(out)@ + decimal(n as nat),
    decreases n,
{
    if n >= 10 {
        push_decimal(out, n / 10);
    }
    out.push(ASCII_ZERO + (n % 10) as u8);
    assert(final(out)@ =~= old(out)@ + decimal(n as nat));
}

/// Encodes rows rendered bottom first, `width` pixels each, as a PPM file.
pub fn to_ppm_bytes(rows: &Vec<Vec<Rgb8>>, width: usize) -> (bytes: Vec<u8>)
    requires
        is_grid(rows@, width as int),
    ensures
        bytes@ == ppm_file(rows@, width as nat),
{
    let height = rows.len();
    let mut bytes: Vec<u8> = Vec::new();
    bytes.push(ASCII_P);
    push_decimal(&mut bytes, 3);
    bytes.push(NEWLINE);
    push_decimal(&mut bytes, width);
    bytes.push(NEWLINE);
    push_decimal(&mut bytes, height);
    bytes.push(NEWLINE);
    push_decimal(&mut bytes, MAX_CHANNEL);
    bytes.push(NEWLINE);
    assert(bytes@ =~= ppm_header(width as nat, height as nat) + ppm_rows(rows@, 0));
    let mut k: usize = 0;
    while k < height
        invariant
            k <= height,
            height == rows.len(),
            bytes@ == ppm_header(width as nat, height as nat) + ppm_rows(rows@, k as nat),
        decreases height - k,
    {
        let row = &rows[height - 1 - k];
        let ghost before = bytes@;
        let mut i: usize = 0;
        while i < row.len()
            invariant
                i <= row.len(),
                bytes@ == before + ppm_row(row@, i as nat),
            decreases row.len() - i,
        {
            let p = row[i];
            let ghost at_start = bytes@;
            push_decimal(&mut bytes, p.r as usize);
            bytes.push(SPACE);
            push_decimal(&mut bytes, p.g as usize);
            bytes.push(SPACE);
            push_decimal(&mut bytes, p.b as usize);
            bytes.push(NEWLINE);
            assert(bytes@ =~= at_start + ppm_pixel(p));
            assert(bytes@ =~= before + ppm_row(row@, (i + 1) as nat));
            i = i + 1;
        }
        assert(rows@[rows.len() - (k + 1)] == *row);
        assert(bytes@ =~= ppm_header(width as nat, height as nat) + ppm_rows(rows@, (k + 1) as nat));
        k = k + 1;
    }
    bytes
}

} // verus!
