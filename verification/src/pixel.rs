//! Per-pixel colour arithmetic for the capture path: the BGRA-to-RGBA
//! swizzle and the integer BT.601-style approximations that turn a pixel
//! into its luma and chroma samples. The scaling loops that pick source
//! coordinates stay with the caller; the arithmetic here is exact.

use vstd::prelude::*;

verus! {

/// Pixel `g` of `out` is pixel `g` of `raw` with its first and third
/// bytes exchanged: blue-first becomes red-first.
pub open spec fn rgba_pixel_ok(raw: Seq<u8>, out: Seq<u8>, g: int) -> bool {
    &&& out[4 * g] == raw[4 * g + 2]
    &&& out[4 * g + 1] == raw[4 * g + 1]
    &&& out[4 * g + 2] == raw[4 * g]
    &&& out[4 * g + 3] == raw[4 * g + 3]
}

/// Swizzles BGRA bytes to RGBA, four at a time; a trailing partial pixel
/// is dropped, as the four-byte walk drops it.
pub fn bgra_to_rgba(raw: &[u8]) -> (out: Vec<u8>)
    ensures
        out@.len() == 4 * (raw@.len() / 4),
        forall|g: int| 0 <= g < raw@.len() / 4 ==> #[trigger] rgba_pixel_ok(raw@, out@, g),
{
    let n = raw.len();
    let pixels = n / 4;
    proof {
        vstd::arithmetic::div_mod::lemma_fundamental_div_mod(n as int, 4);
        vstd::arithmetic::div_mod::lemma_mod_bound(n as int, 4);
    }
    let mut out: Vec<u8> = Vec::new();
    let mut g: usize = 0;
    while g < pixels
        invariant
            n == raw@.len(),
            pixels == n as int / 4,
            4 * pixels <= n,
            g <= pixels,
            out@.len() == 4 * g,
            forall|p: int| 0 <= p < g ==> #[trigger] rgba_pixel_ok(raw@, out@, p),
        decreases pixels - g,
    {
        let ghost before = out@;
        let i = 4 * g;
        out.push(*vstd::slice::slice_index_get(raw, i + 2));
        out.push(*vstd::slice::slice_index_get(raw, i + 1));
        out.push(*vstd::slice::slice_index_get(raw, i));
        out.push(*vstd::slice::slice_index_get(raw, i + 3));
        proof {
            assert forall|p: int| 0 <= p < g + 1 implies rgba_pixel_ok(raw@, out@, p) by {
                if p < g {
                    assert(rgba_pixel_ok(raw@, before, p));
                    assert(out@[4 * p] == before[4 * p]);
                    assert(out@[4 * p + 1] == before[4 * p + 1]);
                    assert(out@[4 * p + 2] == before[4 * p + 2]);
                    assert(out@[4 * p + 3] == before[4 * p + 3]);
                } else {
                    assert(out@[4 * p] == raw@[4 * p + 2]);
                }
            }
        }
        g = g + 1;
    }
    out
}

/// The integer luma of one pixel: `(66 r + 129 g + 25 b + 128) / 256 + 16`,
/// which lies in `16 ..= 235` for any channel values.
pub open spec fn spec_luma(r: u8, g: u8, b: u8) -> int {
    (66 * r + 129 * g + 25 * b + 128) / 256 + 16
}

/// The integer blue-difference chroma of one pixel:
/// `(112 b - 38 r - 74 g + 128) / 256 + 128` (flooring division), which
/// lies in `16 ..= 240` for any channel values.
pub open spec fn spec_chroma_u(r: u8, g: u8, b: u8) -> int {
    (112 * b - 38 * r - 74 * g + 128) / 256 + 128
}

/// The integer red-difference chroma of one pixel:
/// `(112 r - 94 g - 18 b + 128) / 256 + 128` (flooring division), which
/// lies in `16 ..= 240` for any channel values.
pub open spec fn spec_chroma_v(r: u8, g: u8, b: u8) -> int {
    (112 * r - 94 * g - 18 * b + 128) / 256 + 128
}

/// Luma sample of one pixel.
pub fn yuv_luma(r: u8, g: u8, b: u8) -> (y: u8)
    ensures
        y == spec_luma(r, g, b),
        16 <= y <= 235,
{
    let t: u32 = 66 * (r as u32) + 129 * (g as u32) + 25 * (b as u32) + 128;
    (t / 256 + 16) as u8
}

/// Signed flooring division by 256, computed on a value shifted up by
/// `256 * 256` so the machine arithmetic never leaves the naturals.
fn floor_div_256_shifted(t: u32) -> (q: i32)
    requires
        t < 0x2000000,
    ensures
        q == (t - 65536) / 256,
{
    let ghost x = t - 65536;
    proof {
        vstd::arithmetic::div_mod::lemma_fundamental_div_mod(x as int, 256);
        vstd::arithmetic::div_mod::lemma_mod_bound(x as int, 256);
        vstd::arithmetic::div_mod::lemma_fundamental_div_mod_converse(
            t as int,
            256,
            x / 256 + 256,
            x % 256,
        );
    }
    (t / 256) as i32 - 256
}

/// Blue-difference chroma sample of one pixel.
pub fn yuv_chroma_u(r: u8, g: u8, b: u8) -> (u: u8)
    ensures
        u == spec_chroma_u(r, g, b),
        16 <= u <= 240,
{
    let plus: u32 = 112 * (b as u32) + 128 + 65536;
    let minus: u32 = 38 * (r as u32) + 74 * (g as u32);
    let q = floor_div_256_shifted(plus - minus);
    (q + 128) as u8
}

/// Red-difference chroma sample of one pixel.
pub fn yuv_chroma_v(r: u8, g: u8, b: u8) -> (v: u8)
    ensures
        v == spec_chroma_v(r, g, b),
        16 <= v <= 240,
{
    let plus: u32 = 112 * (r as u32) + 128 + 65536;
    let minus: u32 = 94 * (g as u32) + 18 * (b as u32);
    let q = floor_div_256_shifted(plus - minus);
    (q + 128) as u8
}

} // verus!
