//! The plasma color field and the buffer writer.
//!
//! `plasma` maps pixel coordinates, raster dimensions and a frame counter to
//! one packed 32-bit color, alpha | blue | green | red from the top byte
//! down.  `update_texture_data` fills a caller-provided buffer with one such
//! color per pixel in row-major order.  The visual constants below (the wave
//! frequencies, the channel multipliers and the frames-per-time-unit
//! divisor) are part of the contract: changing any of them changes the
//! animation.

use vstd::prelude::*;
use vstd::arithmetic::div_mod::lemma_div_pos_is_pos;
use vstd::arithmetic::div_mod::lemma_fundamental_div_mod_converse_div;
use vstd::arithmetic::div_mod::lemma_fundamental_div_mod_converse_mod;
use vstd::arithmetic::div_mod::lemma_multiply_divide_le;
use vstd::arithmetic::div_mod::lemma_multiply_divide_lt;
use crate::trig::FRAC;
use crate::trig::lemma_sin_fx_bounds;
use crate::trig::sin_fx;
use crate::trig::sin_fx_spec;

verus! {

/// Frames per unit of animation time.
pub const FRAME_DIV: i64 = 60;

/// Frequency of the time wave, 1.3 in Q16.16.
pub const TIME_FREQ: i64 = 85197;

/// Frequency of the vertical spatial wave.
pub const SPACE_FREQ: i64 = 4;

/// Sampling frequency of the red channel.
pub const RED_FREQ: i64 = 6;

/// Sampling frequency of the green channel.
pub const GREEN_FREQ: i64 = 7;

/// Sampling frequency of the blue channel.
pub const BLUE_FREQ: i64 = 10;

/// The largest animation time: the largest frame count, scaled to Q16.16
/// and divided by `FRAME_DIV`.
pub const TIME_MAX: i64 = 4691249610752;

/// Truncating division, the rounding used when a Q16.16 product is scaled
/// back: the quotient is rounded toward zero.
pub open spec fn tdiv(p: int, d: int) -> int
    recommends
        0 < d,
{
    if p >= 0 {
        p / d
    } else {
        -((-p) / d)
    }
}

/// The Q16.16 product of two fixed-point values.
pub open spec fn fx_mul(a: int, b: int) -> int {
    tdiv(a * b, FRAC as int)
}

/// One color channel: the field value `l` sampled at frequency `k` and
/// remapped from [-1, 1] to [0, 254].
pub open spec fn spec_channel(l: int, k: int) -> int {
    tdiv(sin_fx_spec(l * k) * 127, FRAC as int) + 127
}

/// The scalar field of the effect: a superposition of sinusoids in both
/// spatial axes and in time, evaluated in Q16.16 fixed point.
pub open spec fn spec_field(x: int, y: int, width: int, height: int, frame: int) -> int
    recommends
        0 <= x < width,
        0 <= y < height,
{
    let px = (x * FRAC) / width;
    let py = (y * FRAC) / height;
    let time = (frame * FRAC) / (FRAME_DIV as int);
    let s1 = sin_fx_spec(fx_mul(time, TIME_FREQ as int));
    let s2 = sin_fx_spec(py * (SPACE_FREQ as int) + time);
    let s3 = sin_fx_spec(time);
    sin_fx_spec(fx_mul(px, s1) + fx_mul(s2, s3))
}

/// The packed color of one pixel: the three channels sample the field at
/// their frequencies, and the alpha byte is 0xFF.
pub open spec fn spec_plasma(x: int, y: int, width: int, height: int, frame: int) -> u32
    recommends
        0 <= x < width,
        0 <= y < height,
{
    let l = spec_field(x, y, width, height, frame);
    let r = spec_channel(l, RED_FREQ as int);
    let g = spec_channel(l, GREEN_FREQ as int);
    let b = spec_channel(l, BLUE_FREQ as int);
    (r + g * 256 + b * 65536 + 0xFF000000) as u32
}

/// The red byte of a packed color.
pub open spec fn red_of(c: u32) -> int {
    (c as int) % 256
}

/// The green byte of a packed color.
pub open spec fn green_of(c: u32) -> int {
    ((c as int) / 256) % 256
}

/// The blue byte of a packed color.
pub open spec fn blue_of(c: u32) -> int {
    ((c as int) / 65536) % 256
}

/// The alpha byte of a packed color.
pub open spec fn alpha_of(c: u32) -> int {
    (c as int) / 16777216
}

/// A quotient by `FRAC` of a product bounded by `bound * FRAC` is bounded
/// by `bound`.
pub proof fn lemma_tdiv_bound(p: int, bound: int)
    requires
        0 <= bound,
        -bound * 65536 <= p <= bound * 65536,
    ensures
        -bound <= tdiv(p, FRAC as int) <= bound,
{
    if p >= 0 {
        lemma_multiply_divide_le(p, 65536, bound);
        lemma_div_pos_is_pos(p, 65536);
    } else {
        lemma_multiply_divide_le(-p, 65536, bound);
        lemma_div_pos_is_pos(-p, 65536);
    }
}

/// Every channel lies in [0, 254]: the sine stays within the encodings of
/// -1 and 1, so the remapping stays within the byte range, with 255 never
/// reached.
pub proof fn lemma_channel_bounds(l: int, k: int)
    ensures
        0 <= spec_channel(l, k) <= 254,
{
    lemma_sin_fx_bounds(l * k);
    lemma_tdiv_bound(sin_fx_spec(l * k) * 127, 127);
}

/// How the bytes of a produced color decompose: the alpha byte is always
/// 0xFF, and each of the red, green and blue bytes is exactly its channel,
/// which lies in [0, 254].
pub proof fn lemma_plasma_bytes(x: int, y: int, width: int, height: int, frame: int)
    ensures
        alpha_of(spec_plasma(x, y, width, height, frame)) == 255,
        red_of(spec_plasma(x, y, width, height, frame)) == spec_channel(
            spec_field(x, y, width, height, frame),
            RED_FREQ as int,
        ),
        green_of(spec_plasma(x, y, width, height, frame)) == spec_channel(
            spec_field(x, y, width, height, frame),
            GREEN_FREQ as int,
        ),
        blue_of(spec_plasma(x, y, width, height, frame)) == spec_channel(
            spec_field(x, y, width, height, frame),
            BLUE_FREQ as int,
        ),
        0 <= red_of(spec_plasma(x, y, width, height, frame)) <= 254,
        0 <= green_of(spec_plasma(x, y, width, height, frame)) <= 254,
        0 <= blue_of(spec_plasma(x, y, width, height, frame)) <= 254,
{
    let l = spec_field(x, y, width, height, frame);
    let r = spec_channel(l, RED_FREQ as int);
    let g = spec_channel(l, GREEN_FREQ as int);
    let b = spec_channel(l, BLUE_FREQ as int);
    lemma_channel_bounds(l, RED_FREQ as int);
    lemma_channel_bounds(l, GREEN_FREQ as int);
    lemma_channel_bounds(l, BLUE_FREQ as int);
    let v = r + g * 256 + b * 65536 + 0xFF000000;
    assert(spec_plasma(x, y, width, height, frame) as int == v);
    lemma_fundamental_div_mod_converse_mod(v, 256, g + b * 256 + 255 * 65536, r);
    lemma_fundamental_div_mod_converse_div(v, 256, g + b * 256 + 255 * 65536, r);
    lemma_fundamental_div_mod_converse_mod(g + b * 256 + 255 * 65536, 256, b + 255 * 256, g);
    lemma_fundamental_div_mod_converse_div(v, 65536, b + 255 * 256, r + g * 256);
    lemma_fundamental_div_mod_converse_mod(b + 255 * 256, 256, 255, b);
    lemma_fundamental_div_mod_converse_div(v, 16777216, 255, r + g * 256 + b * 65536);
}

fn tdiv_frac(p: i64) -> (r: i64)
    requires
        -400000000000000000 <= p <= 400000000000000000,
    ensures
        r == tdiv(p as int, FRAC as int),
{
    if p >= 0 {
        ((p as u64) / 65536) as i64
    } else {
        let m: i64 = -p;
        let q: i64 = ((m as u64) / 65536) as i64;
        -q
    }
}

fn mul_fx(a: i64, b: i64) -> (r: i64)
    requires
        -FRAC <= a <= FRAC,
        -FRAC <= b <= FRAC,
    ensures
        r == fx_mul(a as int, b as int),
        -FRAC <= r <= FRAC,
{
    proof {
        assert(-4294967296 <= a * b && a * b <= 4294967296) by (nonlinear_arith)
            requires
                -65536 <= a <= 65536,
                -65536 <= b <= 65536;
        lemma_tdiv_bound(a as int * b as int, 65536);
    }
    let p: i64 = a * b;
    tdiv_frac(p)
}

fn channel(l: i64, k: i64) -> (c: i64)
    requires
        -FRAC <= l <= FRAC,
        1 <= k <= 10,
    ensures
        c == spec_channel(l as int, k as int),
        0 <= c <= 254,
{
    proof {
        assert(-655360 <= l * k && l * k <= 655360) by (nonlinear_arith)
            requires
                -65536 <= l <= 65536,
                1 <= k <= 10;
    }
    let s: i64 = sin_fx(l * k);
    proof {
        lemma_tdiv_bound(s as int * 127, 127);
    }
    let t: i64 = tdiv_frac(s * 127);
    t + 127
}

/// The packed color of the pixel at `(x, y)` in a `width` by `height`
/// raster, at animation frame `frame`.
///
/// The result is pinned to `spec_plasma`, a function of the five arguments
/// alone: two calls with equal arguments return bit-identical colors.
pub fn plasma(x: i32, y: i32, width: i32, height: i32, frame: u32) -> (color: u32)
    requires
        0 <= x < width,
        0 <= y < height,
    ensures
        color == spec_plasma(x as int, y as int, width as int, height as int, frame as int),
        alpha_of(color) == 255,
        0 <= red_of(color) <= 254,
        0 <= green_of(color) <= 254,
        0 <= blue_of(color) <= 254,
{
    proof {
        lemma_multiply_divide_lt(x as int * 65536, width as int, 65536);
        lemma_multiply_divide_lt(y as int * 65536, height as int, 65536);
        lemma_div_pos_is_pos(x as int * 65536, width as int);
        lemma_div_pos_is_pos(y as int * 65536, height as int);
        lemma_multiply_divide_le(frame as int * 65536, 60, TIME_MAX as int);
    }
    let px: i64 = (((x as u64) * 65536) / (width as u64)) as i64;
    let py: i64 = (((y as u64) * 65536) / (height as u64)) as i64;
    let time: i64 = (((frame as u64) * 65536) / 60) as i64;
    let targ: i64 = time * TIME_FREQ;
    proof {
        lemma_multiply_divide_le(targ as int, 65536, crate::trig::SIN_ARG_MAX as int);
        lemma_div_pos_is_pos(targ as int, 65536);
    }
    let t13: i64 = tdiv_frac(targ);
    let s1: i64 = sin_fx(t13);
    let a2: i64 = py * SPACE_FREQ + time;
    let s2: i64 = sin_fx(a2);
    let s3: i64 = sin_fx(time);
    let larg: i64 = mul_fx(px, s1) + mul_fx(s2, s3);
    let l: i64 = sin_fx(larg);
    let r: i64 = channel(l, RED_FREQ);
    let g: i64 = channel(l, GREEN_FREQ);
    let b: i64 = channel(l, BLUE_FREQ);
    let v: i64 = r + g * 256 + b * 65536 + 4278190080;
    proof {
        lemma_plasma_bytes(x as int, y as int, width as int, height as int, frame as int);
        assert(l as int == spec_field(
            x as int,
            y as int,
            width as int,
            height as int,
            frame as int,
        ));
    }
    v as u32
}

/// Overwrites the first `width * height` slots of `data` with the colors of
/// the raster, in row-major order: slot `i` holds the pixel at column
/// `i % width` of row `i / width`.  Slots past `width * height` are left
/// untouched, and a zero dimension writes nothing at all.
pub fn update_texture_data(data: &mut Vec<u32>, width: i32, height: i32, frame: u32)
    requires
        0 <= width,
        0 <= height,
        width * height <= old(data).len(),
    ensures
        final(data).len() == old(data).len(),
        forall|i: int|
            0 <= i < width * height ==> final(data)@[i] == spec_plasma(
                i % (width as int),
                i / (width as int),
                width as int,
                height as int,
                frame as int,
            ),
        forall|i: int| width * height <= i < final(data).len() ==> final(data)@[i] == old(data)@[i],
        (width == 0 || height == 0) ==> final(data)@ == old(data)@,
{
    let mut y: i32 = 0;
    while y < height
        invariant
            0 <= y <= height,
            0 <= width,
            width * height <= data.len(),
            data.len() == old(data).len(),
            forall|i: int|
                0 <= i < y * width ==> data@[i] == spec_plasma(
                    i % (width as int),
                    i / (width as int),
                    width as int,
                    height as int,
                    frame as int,
                ),
            forall|i: int| y * width <= i < data.len() ==> data@[i] == old(data)@[i],
        decreases height - y,
    {
        let mut x: i32 = 0;
        while x < width
            invariant
                0 <= x <= width,
                0 <= y < height,
                width * height <= data.len(),
                data.len() == old(data).len(),
                forall|i: int|
                    0 <= i < y * width + x ==> data@[i] == spec_plasma(
                        i % (width as int),
                        i / (width as int),
                        width as int,
                        height as int,
                        frame as int,
                    ),
                forall|i: int| y * width + x <= i < data.len() ==> data@[i] == old(data)@[i],
            decreases width - x,
        {
            proof {
                assert(0 <= y * width && y * width + x < width * height) by (nonlinear_arith)
                    requires
                        0 <= x < width,
                        0 <= y < height;
            }
            let idx: usize = (y as usize) * (width as usize) + (x as usize);
            let c: u32 = plasma(x, y, width, height, frame);
            data.set(idx, c);
            proof {
                lemma_fundamental_div_mod_converse_mod(
                    idx as int,
                    width as int,
                    y as int,
                    x as int,
                );
                lemma_fundamental_div_mod_converse_div(
                    idx as int,
                    width as int,
                    y as int,
                    x as int,
                );
            }
            x = x + 1;
        }
        proof {
            assert((y + 1) * width == y * width + width) by (nonlinear_arith);
        }
        y = y + 1;
    }
    proof {
        assert(height * width == width * height) by (nonlinear_arith);
        if width == 0 || height == 0 {
            assert(data@ =~= old(data)@);
        }
    }
}

} // verus!
