//! Laying out the rendered raster as RGBA bytes.
//!
//! The renderer produces rows bottom first: row `j` holds the pixels whose
//! vertical image-plane coordinate is `j`. An image file lists lines top
//! first, four bytes per pixel, with alpha always opaque.
use vstd::arithmetic::div_mod::lemma_fundamental_div_mod_converse;
use vstd::prelude::*;

verus! {

/// A pixel after gamma correction and quantisation to 8 bits per channel.
#[derive(Clone, Copy, Debug, PartialEq, Eq, Structural)]
pub struct Rgb8 {
    pub r: u8,
    pub g: u8,
    pub b: u8,
}

/// The alpha byte written for every pixel.
pub const OPAQUE: u8 = 255;

/// Every row holds `width` pixels.
pub open spec fn is_grid(rows: Seq<Vec<Rgb8>>, width: int) -> bool {
    forall|j: int| 0 <= j < rows.len() ==> (#[trigger] rows[j]).len() == width
}

/// The pixel shown in column `i` of output line `k`, counting lines from the
/// top of the image.
pub open spec fn displayed(rows: Seq<Vec<Rgb8>>, k: int, i: int) -> Rgb8 {
    rows[rows.len() - 1 - k]@[i]
}

/// Byte `c` (red, green, blue, then alpha) of pixel `p` in RGBA form.
pub open spec fn rgba_channel(p: Rgb8, c: int) -> u8 {
    if c == 0 {
        p.r
    } else if c == 1 {
        p.g
    } else if c == 2 {
        p.b
    } else {
        OPAQUE
    }
}

/// Byte `n` of the RGBA image of `rows`, lines top first, `width` pixels a line.
pub open spec fn rgba_byte(rows: Seq<Vec<Rgb8>>, width: int, n: int) -> u8 {
    rgba_channel(displayed(rows, (n / 4) / width, (n / 4) % width), n % 4)
}

/// `bytes` is the RGBA image of `rows`: four bytes for each of the
/// `rows.len() * width` pixels, lines top first.
pub open spec fn is_rgba_image(rows: Seq<Vec<Rgb8>>, width: int, bytes: Seq<u8>) -> bool {
    &&& bytes.len() == rows.len() * width * 4
    &&& forall|n: int| 0 <= n < bytes.len() ==> #[trigger] bytes[n] == rgba_byte(rows, width, n)
}

/// The same pixels always lay out as the same bytes: an RGBA image of a grid
/// is unique.
pub proof fn lemma_rgba_image_unique(rows: Seq<Vec<Rgb8>>, width: int, a: Seq<u8>, b: Seq<u8>)
    requires
        is_rgba_image(rows, width, a),
        is_rgba_image(rows, width, b),
    ensures
        a == b,
{
    assert(a =~= b);
}

proof fn lemma_byte_position(k: int, i: int, c: int, width: int)
    requires
        0 <= k,
        0 <= i < width,
        0 <= c < 4,
    ensures
        ((k * width + i) * 4 + c) / 4 == k * width + i,
        ((k * width + i) * 4 + c) % 4 == c,
        (k * width + i) / width == k,
        (k * width + i) % width == i,
{
    lemma_fundamental_div_mod_converse((k * width + i) * 4 + c, 4, k * width + i, c);
    lemma_fundamental_div_mod_converse(k * width + i, width, k, i);
}

/// Turns rows rendered bottom first into the bytes of an RGBA image whose
/// lines run top first, each pixel as red, green, blue and an opaque alpha.
pub fn to_rgba_bytes(rows: &Vec<Vec<Rgb8>>, width: usize) -> (bytes: Vec<u8>)
    requires
        is_grid(rows@, width as int),
        rows.len() * width * 4 <= usize::MAX,
    ensures
        is_rgba_image(rows@, width as int, bytes@),
{
    let height = rows.len();
    let mut bytes: Vec<u8> = Vec::new();
    let mut k: usize = 0;
    while k < height
        invariant
            k <= height,
            height == rows.len(),
            is_grid(rows@, width as int),
            height * width * 4 <= usize::MAX,
            bytes.len() == k * width * 4,
            forall|n: int| 0 <= n < bytes.len() ==> #[trigger] bytes@[n] == rgba_byte(rows@, width as int, n),
        decreases height - k,
    {
        let row = &rows[height - 1 - k];
        assert(row.len() == width);
        let mut i: usize = 0;
        while i < width
            invariant
                k < height,
                i <= width,
                height == rows.len(),
                row.len() == width,
                row == rows@[height - 1 - k],
                height * width * 4 <= usize::MAX,
                bytes.len() == (k * width + i) * 4,
                forall|n: int| 0 <= n < bytes.len() ==> #[trigger] bytes@[n] == rgba_byte(rows@, width as int, n),
            decreases width - i,
        {
            proof {
                assert((k * width + i) * 4 + 4 <= height * width * 4) by (nonlinear_arith)
                    requires k < height, i < width;
                lemma_byte_position(k as int, i as int, 0, width as int);
                lemma_byte_position(k as int, i as int, 1, width as int);
                lemma_byte_position(k as int, i as int, 2, width as int);
                lemma_byte_position(k as int, i as int, 3, width as int);
            }
            let p = row[i];
            bytes.push(p.r);
            bytes.push(p.g);
            bytes.push(p.b);
            bytes.push(OPAQUE);
            i = i + 1;
        }
        proof {
            assert((k * width + width) * 4 == (k + 1) * width * 4) by (nonlinear_arith);
        }
        k = k + 1;
    }
    bytes
}

} // verus!
