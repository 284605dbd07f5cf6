//! Building an output picture: a background fill, then decoded layers
//! alpha-blended on top, each centred and clipped to the output.
use vstd::prelude::*;
use vstd::arithmetic::div_mod::{lemma_fundamental_div_mod, lemma_mod_pos_bound};

use crate::decoder::{VideoFormat, VideoFrame};

verus! {

/// One channel of `src` blended over `dst` with opacity `alpha` (0..=255).
pub open spec fn blend(dst: int, src: int, alpha: int) -> int {
    ((255 - alpha) * dst + alpha * src) / 255
}

/// Where the smaller of two extents starts when centred in the larger,
/// seen from the larger (0 when `outer` is not the larger).
pub open spec fn centre_offset(outer: int, inner: int) -> int {
    if outer > inner { (outer - inner) / 2 } else { 0 }
}

pub open spec fn min(a: int, b: int) -> int {
    if a <= b { a } else { b }
}

/// Index of channel 0 of pixel `(row, col)` in a packed RGBA picture `w` wide.
pub open spec fn px(row: int, col: int, w: int) -> int {
    (row * w + col) * 4
}

/// Output pixel `(row, col)` is covered by the centred input.
pub open spec fn placed(row: int, col: int, ow: int, oh: int, iw: int, ih: int) -> bool {
    &&& centre_offset(oh, ih) <= row < centre_offset(oh, ih) + min(ih, oh)
    &&& centre_offset(ow, iw) <= col < centre_offset(ow, iw) + min(iw, ow)
}

/// Index of channel 0 of the input pixel shown at output `(row, col)`.
pub open spec fn source_index(row: int, col: int, ow: int, oh: int, iw: int, ih: int, stride: int) -> int {
    let ir = row - centre_offset(oh, ih) + centre_offset(ih, oh);
    let ic = col - centre_offset(ow, iw) + centre_offset(iw, ow);
    ir * stride + ic * 4
}

/// Channel `c` of output pixel `(row, col)` after compositing input `inp`
/// (`iw` x `ih`, rows `stride` bytes apart) over output `out` (`ow` x `oh`):
/// blended where the input covers the pixel, with alpha made opaque, and
/// unchanged elsewhere.
pub open spec fn composited(
    out: Seq<u8>,
    ow: int,
    oh: int,
    inp: Seq<u8>,
    iw: int,
    ih: int,
    stride: int,
    row: int,
    col: int,
    c: int,
) -> int {
    let d = out[px(row, col, ow) + c] as int;
    if placed(row, col, ow, oh, iw, ih) {
        let s = source_index(row, col, ow, oh, iw, ih, stride);
        if c == 3 {
            255
        } else {
            blend(d, inp[s + c] as int, inp[s + 3] as int)
        }
    } else {
        d
    }
}

/// An input that can be blended: RGBA rows of `stride >= 4 * width` bytes,
/// `height` of them in the buffer.
pub open spec fn blendable(f: VideoFrame) -> bool {
    &&& f.format == VideoFormat::RGBA32
    &&& f.stride >= 4 * f.width
    &&& f.buffer@.len() >= f.stride * f.height
}

/// The whole picture `out` after compositing `f` over it; unchanged when
/// `f` is not blendable.
pub open spec fn composite_seq(out: Seq<u8>, ow: int, oh: int, f: VideoFrame) -> Seq<u8> {
    if blendable(f) {
        Seq::new(out.len(), |p: int| composited(out, ow, oh, f.buffer@, f.width as int, f.height as int, f.stride as int,
            (p / 4) / ow, (p / 4) % ow, p % 4) as u8)
    } else {
        out
    }
}

/// A packed RGBA picture of `width * height` pixels, all `color`.
pub open spec fn background_seq(width: int, height: int, color: [u8; 4]) -> Seq<u8> {
    Seq::new((width * height * 4) as nat, |p: int| color@[p % 4])
}

proof fn lemma_index_split(p: int, ow: int, oh: int)
    requires
        0 <= p < ow * oh * 4,
        ow > 0,
    ensures
        0 <= (p / 4) / ow < oh,
        0 <= (p / 4) % ow < ow,
        0 <= p % 4 < 4,
        px((p / 4) / ow, (p / 4) % ow, ow) + p % 4 == p,
{
    let q = p / 4;
    lemma_fundamental_div_mod(p, 4);
    lemma_mod_pos_bound(p, 4);
    lemma_fundamental_div_mod(q, ow);
    lemma_mod_pos_bound(q, ow);
    let row = q / ow;
    let col = q % ow;
    assert(q < ow * oh);
    assert(0 <= row < oh) by (nonlinear_arith)
        requires q == ow * row + col, 0 <= col < ow, 0 <= q < ow * oh, ow > 0;
    assert(px(row, col, ow) == (row * ow + col) * 4);
    assert(row * ow == ow * row) by (nonlinear_arith);
}

pub fn blend_channel(dst: u8, src: u8, alpha: u8) -> (r: u8)
    ensures
        r == blend(dst as int, src as int, alpha as int),
{
    let a = alpha as u32;
    proof {
        assert((255 - a) * (dst as u32) <= (255 - a) * 255) by (nonlinear_arith)
            requires a <= 255, dst <= 255;
        assert(a * (src as u32) <= a * 255) by (nonlinear_arith)
            requires a <= 255, src <= 255;
    }
    let v = (255 - a) * (dst as u32) + a * (src as u32);
    (v / 255) as u8
}

proof fn lemma_px_distinct(r1: int, c1: int, k1: int, r2: int, c2: int, k2: int, w: int)
    requires
        0 <= r1 && 0 <= r2,
        0 <= c1 < w && 0 <= c2 < w,
        0 <= k1 < 4 && 0 <= k2 < 4,
        px(r1, c1, w) + k1 == px(r2, c2, w) + k2,
    ensures
        r1 == r2 && c1 == c2 && k1 == k2,
{
    let a1 = r1 * w + c1;
    let a2 = r2 * w + c2;
    assert(a1 == a2 && k1 == k2);
    if r1 < r2 {
        assert(r1 * w + w <= r2 * w) by (nonlinear_arith) requires r1 < r2, w >= 0;
    } else if r2 < r1 {
        assert(r2 * w + w <= r1 * w) by (nonlinear_arith) requires r2 < r1, w >= 0;
    }
}

proof fn lemma_px_bound(row: int, col: int, w: int, h: int)
    requires
        0 <= row < h,
        0 <= col < w,
    ensures
        0 <= px(row, col, w),
        px(row, col, w) + 4 <= w * h * 4,
{
    assert(row * w + col + 1 <= w * h) by (nonlinear_arith) requires 0 <= row < h, 0 <= col < w;
    assert(0 <= row * w) by (nonlinear_arith) requires 0 <= row, 0 <= w;
}

proof fn lemma_source_bound(ir: int, ic: int, stride: int, w: int, h: int)
    requires
        0 <= ir < h,
        0 <= ic < w,
        stride >= 4 * w,
    ensures
        0 <= ir * stride + ic * 4,
        ir * stride + ic * 4 + 4 <= h * stride,
{
    assert(ir * stride + stride <= h * stride) by (nonlinear_arith) requires ir < h, stride >= 0;
    assert(0 <= ir * stride) by (nonlinear_arith) requires 0 <= ir, 0 <= stride;
}

/// A packed RGBA picture `width` x `height` filled with `color`.
pub fn background_frame(width: u32, height: u32, color: [u8; 4]) -> (r: Vec<u8>)
    requires
        width * height * 4 <= usize::MAX,
    ensures
        r@ == background_seq(width as int, height as int, color),
{
    let n = (width as usize) * (height as usize);
    let mut r: Vec<u8> = Vec::new();
    let mut i: usize = 0;
    while i < n
        invariant
            n == width * height,
            n * 4 <= usize::MAX,
            i <= n,
            r@ =~= Seq::new((i * 4) as nat, |p: int| color@[p % 4]),
        decreases n - i,
    {
        r.push(color[0]);
        r.push(color[1]);
        r.push(color[2]);
        r.push(color[3]);
        i = i + 1;
        assert(r@ =~= Seq::new((i * 4) as nat, |p: int| color@[p % 4]));
    }
    r
}

/// Blends the input pixel at `ip` over the output pixel at `op` and makes
/// the output pixel opaque.
fn blend_pixel(output: &mut Vec<u8>, op: usize, inp: &Vec<u8>, ip: usize)
    requires
        op + 4 <= old(output)@.len(),
        ip + 4 <= inp@.len(),
    ensures
        final(output)@.len() == old(output)@.len(),
        forall|c: int| 0 <= c < 3 ==> #[trigger] final(output)@[op + c] == blend(old(output)@[op + c] as int, inp@[ip + c] as int, inp@[ip + 3] as int),
        final(output)@[op + 3] == 255,
        forall|q: int| 0 <= q < old(output)@.len() && !(op <= q < op + 4) ==> #[trigger] final(output)@[q] == old(output)@[q],
{
    let _n = inp.len();
    let _m = output.len();
    let alpha = inp[ip + 3];
    let r = blend_channel(output[op], inp[ip], alpha);
    output.set(op, r);
    let g = blend_channel(output[op + 1], inp[ip + 1], alpha);
    output.set(op + 1, g);
    let b = blend_channel(output[op + 2], inp[ip + 2], alpha);
    output.set(op + 2, b);
    output.set(op + 3, 255);
}

/// Blends `input` over the packed RGBA picture `output` (`out_width` x
/// `out_height`), centred and clipped, and makes the covered pixels opaque.
/// An input that is not blendable is refused and `output` left alone.
pub fn composite_frame(output: &mut Vec<u8>, out_width: u32, out_height: u32, input: &VideoFrame) -> (r: bool)
    requires
        old(output)@.len() == out_width * out_height * 4,
    ensures
        r == blendable(*input),
        final(output)@ == composite_seq(old(output)@, out_width as int, out_height as int, *input),
        final(output)@.len() == old(output)@.len(),
        r ==> forall|row: int, col: int, c: int| 0 <= row < out_height && 0 <= col < out_width && 0 <= c < 4
            ==> #[trigger] final(output)@[px(row, col, out_width as int) + c] == composited(
                old(output)@, out_width as int, out_height as int, input.buffer@, input.width as int,
                input.height as int, input.stride as int, row, col, c),
{
    proof {
        assert((input.stride as u64) * (input.height as u64) <= u32::MAX * u32::MAX) by (nonlinear_arith)
            requires input.stride <= u32::MAX, input.height <= u32::MAX;
    }
    if input.format != VideoFormat::RGBA32 || (input.stride as u64) < 4 * (input.width as u64)
        || (input.buffer.len() as u64) < (input.stride as u64) * (input.height as u64)
    {
        return false;
    }
    let ghost orig = output@;
    let olen = output.len();
    let ilen = input.buffer.len();
    let ow = out_width as usize;
    let oh = out_height as usize;
    let iw = input.width as usize;
    let ih = input.height as usize;
    let stride = input.stride as usize;
    let ox = if ow > iw { (ow - iw) / 2 } else { 0 };
    let oy = if oh > ih { (oh - ih) / 2 } else { 0 };
    let ix = if iw > ow { (iw - ow) / 2 } else { 0 };
    let iy = if ih > oh { (ih - oh) / 2 } else { 0 };
    let w = if iw < ow { iw } else { ow };
    let h = if ih < oh { ih } else { oh };
    let ghost owi = ow as int;
    let ghost ohi = oh as int;
    let ghost done = |row: int, col: int, y: int, x: int|
        placed(row, col, owi, ohi, iw as int, ih as int) && (row - oy < y || (row - oy == y && col - ox < x));
    let mut y: usize = 0;
    while y < h
        invariant
            output@.len() == orig.len(),
            orig.len() == ow * oh * 4,
            olen == orig.len(),
            ilen == input.buffer@.len(),
            blendable(*input),
            ow == out_width && oh == out_height && iw == input.width && ih == input.height && stride == input.stride,
            owi == ow && ohi == oh,
            ox == centre_offset(ow as int, iw as int) && oy == centre_offset(oh as int, ih as int),
            ix == centre_offset(iw as int, ow as int) && iy == centre_offset(ih as int, oh as int),
            w == min(iw as int, ow as int) && h == min(ih as int, oh as int),
            y <= h,
            done == (|row: int, col: int, y: int, x: int|
                placed(row, col, owi, ohi, iw as int, ih as int) && (row - oy < y || (row - oy == y && col - ox < x))),
            forall|row: int, col: int, c: int| 0 <= row < oh && 0 <= col < ow && 0 <= c < 4
                ==> #[trigger] output@[px(row, col, ow as int) + c] == (if done(row, col, y as int, 0) {
                    composited(orig, ow as int, oh as int, input.buffer@, iw as int, ih as int, stride as int, row, col, c)
                } else {
                    orig[px(row, col, ow as int) + c] as int
                }),
        decreases h - y,
    {
        let mut x: usize = 0;
        while x < w
            invariant
                output@.len() == orig.len(),
                orig.len() == ow * oh * 4,
                olen == orig.len(),
                ilen == input.buffer@.len(),
                blendable(*input),
                ow == out_width && oh == out_height && iw == input.width && ih == input.height && stride == input.stride,
                owi == ow && ohi == oh,
                ox == centre_offset(ow as int, iw as int) && oy == centre_offset(oh as int, ih as int),
                ix == centre_offset(iw as int, ow as int) && iy == centre_offset(ih as int, oh as int),
                w == min(iw as int, ow as int) && h == min(ih as int, oh as int),
                y < h,
                x <= w,
                done == (|row: int, col: int, y: int, x: int|
                    placed(row, col, owi, ohi, iw as int, ih as int) && (row - oy < y || (row - oy == y && col - ox < x))),
                forall|row: int, col: int, c: int| 0 <= row < oh && 0 <= col < ow && 0 <= c < 4
                    ==> #[trigger] output@[px(row, col, ow as int) + c] == (if done(row, col, y as int, x as int) {
                        composited(orig, ow as int, oh as int, input.buffer@, iw as int, ih as int, stride as int, row, col, c)
                    } else {
                        orig[px(row, col, ow as int) + c] as int
                    }),
            decreases w - x,
        {
            let row = y + oy;
            let col = x + ox;
            proof {
                lemma_px_bound(row as int, col as int, ow as int, oh as int);
                lemma_source_bound((y + iy) as int, (x + ix) as int, stride as int, iw as int, ih as int);
                assert(input.stride * input.height <= input.buffer@.len());
            }
            let op = (row * ow + col) * 4;
            let ip = (y + iy) * stride + (x + ix) * 4;
            let ghost before = output@;
            blend_pixel(output, op, &input.buffer, ip);
            proof {
                assert forall|r2: int, c2: int, k: int| 0 <= r2 < oh && 0 <= c2 < ow && 0 <= k < 4
                    implies #[trigger] output@[px(r2, c2, ow as int) + k] == (if done(r2, c2, y as int, x + 1) {
                        composited(orig, ow as int, oh as int, input.buffer@, iw as int, ih as int, stride as int, r2, c2, k)
                    } else {
                        orig[px(r2, c2, ow as int) + k] as int
                    }) by {
                    lemma_px_bound(r2, c2, ow as int, oh as int);
                    if r2 == row && c2 == col {
                        assert(px(r2, c2, ow as int) == op);
                        assert(source_index(r2, c2, ow as int, oh as int, iw as int, ih as int, stride as int) == ip);
                        assert(!done(r2, c2, y as int, x as int));
                        assert(before[op + k] == orig[op + k]);
                    } else {
                        if op <= px(r2, c2, ow as int) + k < op + 4 {
                            let kk = px(r2, c2, ow as int) + k - op;
                            lemma_px_distinct(r2, c2, k, row as int, col as int, kk, ow as int);
                        }
                    }
                }
            }
            x = x + 1;
        }
        proof {
            assert forall|r2: int, c2: int, k: int| 0 <= r2 < oh && 0 <= c2 < ow && 0 <= k < 4
                implies #[trigger] output@[px(r2, c2, ow as int) + k] == (if done(r2, c2, y + 1, 0) {
                    composited(orig, ow as int, oh as int, input.buffer@, iw as int, ih as int, stride as int, r2, c2, k)
                } else {
                    orig[px(r2, c2, ow as int) + k] as int
                }) by {
                assert(done(r2, c2, y + 1, 0) == done(r2, c2, y as int, w as int));
            }
        }
        y = y + 1;
    }
    proof {
        assert forall|r2: int, c2: int, k: int| 0 <= r2 < oh && 0 <= c2 < ow && 0 <= k < 4
            implies #[trigger] output@[px(r2, c2, ow as int) + k] == composited(orig, ow as int, oh as int, input.buffer@,
                iw as int, ih as int, stride as int, r2, c2, k) by {
            assert(done(r2, c2, h as int, 0) == placed(r2, c2, owi, ohi, iw as int, ih as int));
        }
        let target = composite_seq(orig, ow as int, oh as int, *input);
        assert forall|p: int| 0 <= p < orig.len() implies output@[p] == target[p] by {
            lemma_index_split(p, ow as int, oh as int);
            let row = (p / 4) / (ow as int);
            let col = (p / 4) % (ow as int);
            let c = p % 4;
            assert(output@[px(row, col, ow as int) + c] == composited(orig, ow as int, oh as int, input.buffer@,
                iw as int, ih as int, stride as int, row, col, c));
        }
        assert(output@ =~= target);
    }
    true
}

} // verus!
