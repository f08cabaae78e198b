//! Colour legalizer: brings RGBA8 pixels into the Rec.709 broadcast-legal
//! range (luma 16–235, chroma 16–240) through integer YCbCr.
//!
//! Each pixel goes to YCbCr, each component through a legalizing table (a
//! hard clamp, or a soft clip with a knee that callers compute in floating
//! point), and back to RGB by the inverse conversion, clamped to 0–255, so
//! that the luma of the result lies in the legal range. Alpha is kept.

use vstd::prelude::*;
use vstd::arithmetic::div_mod::lemma_fundamental_div_mod_converse;

verus! {

/// `v` limited to `[lo, hi]`.
pub open spec fn clamp_to(v: int, lo: int, hi: int) -> int {
    if v < lo {
        lo
    } else if v > hi {
        hi
    } else {
        v
    }
}

/// Luma of an RGB pixel: `(54 R + 183 G + 19 B) >> 8`.
pub open spec fn luma_of(r: int, g: int, b: int) -> int {
    (54 * r + 183 * g + 19 * b) / 256
}

/// Blue-difference chroma: `(-43 R - 85 G + 128 B + 32768) >> 8`.
pub open spec fn cb_of(r: int, g: int, b: int) -> int {
    (-43 * r - 85 * g + 128 * b + 128 * 256) / 256
}

/// Red-difference chroma: `(128 R - 107 G - 21 B + 32768) >> 8`.
pub open spec fn cr_of(r: int, g: int, b: int) -> int {
    (128 * r - 107 * g - 21 * b + 128 * 256) / 256
}

/// The red byte of `(y, cb, cr)` by the inverse of the conversion above:
/// `Y + ((30 (Cb - 128) + 414 (Cr - 128)) >> 8)`, clamped to a byte.
pub open spec fn red_of(y: int, cb: int, cr: int) -> int {
    clamp_to((256 * y + 30 * (cb - 128) + 414 * (cr - 128)) / 256, 0, 255)
}

/// The green byte: `Y + ((-59 (Cb - 128) - 128 (Cr - 128)) >> 8)`, clamped.
pub open spec fn green_of(y: int, cb: int, cr: int) -> int {
    clamp_to((256 * y - 59 * (cb - 128) - 128 * (cr - 128)) / 256, 0, 255)
}

/// The blue byte: `Y + ((483 (Cb - 128) + 54 (Cr - 128)) >> 8)`, clamped.
pub open spec fn blue_of(y: int, cb: int, cr: int) -> int {
    clamp_to((256 * y + 483 * (cb - 128) + 54 * (cr - 128)) / 256, 0, 255)
}

/// Byte `i` of the legalized frame: in each whole pixel, R, G and B are
/// rebuilt from the luma and chroma sent through their tables; alpha and
/// the bytes after the last whole pixel stay.
pub open spec fn legalized_at(src: Seq<u8>, luma_map: Seq<i32>, chroma_map: Seq<i32>, i: int) -> int {
    let base = i - i % 4;
    let r = src[base] as int;
    let g = src[base + 1] as int;
    let b = src[base + 2] as int;
    let y = luma_map[luma_of(r, g, b)] as int;
    let cb = chroma_map[cb_of(r, g, b)] as int;
    let cr = chroma_map[cr_of(r, g, b)] as int;
    if i >= src.len() / 4 * 4 || i % 4 == 3 {
        src[i] as int
    } else if i % 4 == 0 {
        red_of(y, cb, cr)
    } else if i % 4 == 1 {
        green_of(y, cb, cr)
    } else {
        blue_of(y, cb, cr)
    }
}

/// `x >> 8` on an `i32`: division by 256 rounding down.
fn shr8(x: i32) -> (r: i32)
    ensures
        r == x as int / 256,
{
    if x >= 0 {
        x / 256
    } else {
        let m: i64 = -(x as i64);
        let t: i64 = (m + 255) / 256;
        proof {
            lemma_fundamental_div_mod_converse((m + 255) as int, 256, t as int, ((m + 255) % 256) as int);
            lemma_fundamental_div_mod_converse(x as int, 256, -(t as int), 255 - ((m + 255) % 256) as int);
        }
        (-t) as i32
    }
}

/// A component in `[0, 255]` after the tables.
fn lookup(table: &Vec<i32>, v: i32) -> (r: i32)
    requires
        table@.len() == 256,
        0 <= v < 256,
        forall|k: int| 0 <= k < 256 ==> 0 <= #[trigger] table@[k] <= 255,
    ensures
        r == table@[v as int],
        0 <= r <= 255,
{
    table[v as usize]
}

/// `v` limited to `[0, 255]`, as a byte.
fn to_byte(v: i32) -> (r: u8)
    ensures
        r == clamp_to(v as int, 0, 255),
{
    if v < 0 {
        0
    } else if v > 255 {
        255
    } else {
        v as u8
    }
}

/// The table of a hard clamp to `[lo, hi]`, for component values 0–255.
pub fn hard_clamp_table(lo: i32, hi: i32) -> (r: Vec<i32>)
    requires
        lo <= hi,
    ensures
        r@.len() == 256,
        forall|k: int| 0 <= k < 256 ==> #[trigger] r@[k] == clamp_to(k, lo as int, hi as int),
{
    let mut out: Vec<i32> = Vec::new();
    let mut v: i32 = 0;
    while v < 256
        invariant
            0 <= v <= 256,
            lo <= hi,
            out@.len() == v,
            forall|k: int| 0 <= k < v ==> #[trigger] out@[k] == clamp_to(k, lo as int, hi as int),
        decreases 256 - v,
    {
        let c = if v < lo { lo } else if v > hi { hi } else { v };
        out.push(c);
        v = v + 1;
    }
    out
}

/// Positions inside the pixel that starts at byte `k`.
proof fn lemma_in_chunk(k: int, i: int)
    requires
        k % 4 == 0,
        0 <= k <= i < k + 4,
    ensures
        i % 4 == i - k,
        i - i % 4 == k,
{
    lemma_fundamental_div_mod_converse(k, 4, k / 4, 0);
    lemma_fundamental_div_mod_converse(i, 4, k / 4, i - k);
}

/// The legalized R, G and B of a pixel.
fn legal_pixel(r: u8, g: u8, b: u8, luma_map: &Vec<i32>, chroma_map: &Vec<i32>) -> (out: (u8, u8, u8))
    requires
        luma_map@.len() == 256,
        chroma_map@.len() == 256,
        forall|k: int| 0 <= k < 256 ==> 0 <= #[trigger] luma_map@[k] <= 255,
        forall|k: int| 0 <= k < 256 ==> 0 <= #[trigger] chroma_map@[k] <= 255,
    ensures
        ({
            let y = luma_map@[luma_of(r as int, g as int, b as int)] as int;
            let cb = chroma_map@[cb_of(r as int, g as int, b as int)] as int;
            let cr = chroma_map@[cr_of(r as int, g as int, b as int)] as int;
            out.0 == red_of(y, cb, cr) && out.1 == green_of(y, cb, cr) && out.2 == blue_of(y, cb, cr)
        }),
{
    let r = r as i32;
    let g = g as i32;
    let b = b as i32;
    let y_val = shr8(54 * r + 183 * g + 19 * b);
    let cb = shr8(-43 * r - 85 * g + 128 * b + 128 * 256);
    let cr = shr8(128 * r - 107 * g - 21 * b + 128 * 256);
    proof {
        assert(0 <= y_val < 256) by (nonlinear_arith)
            requires
                y_val == (54 * r + 183 * g + 19 * b) / 256,
                0 <= r <= 255,
                0 <= g <= 255,
                0 <= b <= 255,
        ;
        assert(0 <= cb < 256) by (nonlinear_arith)
            requires
                cb == (-43 * r - 85 * g + 128 * b + 128 * 256) / 256,
                0 <= r <= 255,
                0 <= g <= 255,
                0 <= b <= 255,
        ;
        assert(0 <= cr < 256) by (nonlinear_arith)
            requires
                cr == (128 * r - 107 * g - 21 * b + 128 * 256) / 256,
                0 <= r <= 255,
                0 <= g <= 255,
                0 <= b <= 255,
        ;
    }
    let y_new = lookup(luma_map, y_val);
    let cb_new = lookup(chroma_map, cb) - 128;
    let cr_new = lookup(chroma_map, cr) - 128;
    let r_new = to_byte(shr8(256 * y_new + 30 * cb_new + 414 * cr_new));
    let g_new = to_byte(shr8(256 * y_new - 59 * cb_new - 128 * cr_new));
    let b_new = to_byte(shr8(256 * y_new + 483 * cb_new + 54 * cr_new));
    (r_new, g_new, b_new)
}

/// Legalizes a packed RGBA8 frame in place with the given luma and chroma
/// tables (each maps a component value 0–255 to its legal value).
pub fn legalize_pixels(pixels: &mut Vec<u8>, luma_map: &Vec<i32>, chroma_map: &Vec<i32>)
    requires
        luma_map@.len() == 256,
        chroma_map@.len() == 256,
        forall|k: int| 0 <= k < 256 ==> 0 <= #[trigger] luma_map@[k] <= 255,
        forall|k: int| 0 <= k < 256 ==> 0 <= #[trigger] chroma_map@[k] <= 255,
    ensures
        final(pixels)@.len() == old(pixels)@.len(),
        forall|i: int| 0 <= i < old(pixels)@.len() ==> #[trigger] final(pixels)@[i]
            == legalized_at(old(pixels)@, luma_map@, chroma_map@, i),
{
    let ghost src = pixels@;
    let len = pixels.len();
    let whole = len / 4 * 4;
    let mut k: usize = 0;
    while k < whole
        invariant
            len == pixels@.len(),
            len == src.len(),
            whole == len / 4 * 4,
            whole <= len,
            k <= whole,
            k % 4 == 0,
            luma_map@.len() == 256,
            chroma_map@.len() == 256,
            forall|j: int| 0 <= j < 256 ==> 0 <= #[trigger] luma_map@[j] <= 255,
            forall|j: int| 0 <= j < 256 ==> 0 <= #[trigger] chroma_map@[j] <= 255,
            forall|i: int| 0 <= i < k ==> #[trigger] pixels@[i] == legalized_at(src, luma_map@, chroma_map@, i),
            forall|i: int| k <= i < len ==> #[trigger] pixels@[i] == src[i],
        decreases whole - k,
    {
        let (r_new, g_new, b_new) = legal_pixel(pixels[k], pixels[k + 1], pixels[k + 2], luma_map, chroma_map);
        let ghost before = pixels@;
        pixels.set(k, r_new);
        pixels.set(k + 1, g_new);
        pixels.set(k + 2, b_new);
        proof {
            assert forall|i: int| k <= i < k + 4 implies #[trigger] pixels@[i] == legalized_at(src, luma_map@, chroma_map@, i) by {
                lemma_in_chunk(k as int, i);
            }
        }
        k = k + 4;
    }
    proof {
        assert forall|i: int| whole <= i < len implies #[trigger] pixels@[i] == legalized_at(src, luma_map@, chroma_map@, i) by {}
    }
}

} // verus!
