//! Integer HSV to RGB conversion on a 1536-step colour wheel.
//!
//! The wheel has six sextants of 256 steps each. Within a sextant one channel
//! holds the value, one holds the minimum, and the third ramps between them.

use vstd::prelude::*;

verus! {

/// The smallest channel of a colour with saturation `s` and value `v`:
/// `v * (255 - s) / 255`, rounded down.
pub open spec fn channel_min(s: u8, v: u8) -> int {
    (v * (255 - s)) / 255
}

/// Position of a hue inside its sextant, `0..=255`.
pub open spec fn hue_fraction(h: u16) -> int {
    h as int % 256
}

/// The sextant bits of a hue that select the channel roles, `0..=7`.
/// A colour wheel uses `0..=5`; 6 and 7 are reached only by hues of 1536
/// and more.
pub open spec fn hue_sextant(h: u16) -> int {
    (h as int / 256) % 8
}

/// How far the ramping channel is from the minimum, scaled to `0..=65280`.
/// In an even sextant the channel rises with the hue, in an odd one it falls.
pub open spec fn ramp(h: u16, s: u8) -> int {
    if hue_sextant(h) % 2 == 0 {
        65280 - s * (256 - hue_fraction(h))
    } else {
        65280 - s * hue_fraction(h)
    }
}

/// The ramping channel: `v * ramp / 65280` in 16.16 fixed point, with the
/// bias that makes a full ramp give exactly `v`.
pub open spec fn channel_mid(h: u16, s: u8, v: u8) -> int {
    let d = v * ramp(h, s);
    (d + d / 256 + v) / 65536
}

/// The red, green and blue channels of the colour `(h, s, v)`.
pub open spec fn hsv_channels(h: u16, s: u8, v: u8) -> (int, int, int) {
    let max = v as int;
    let mid = channel_mid(h, s, v);
    let min = channel_min(s, v);
    if s == 0 {
        (max, max, max)
    } else if hue_sextant(h) == 0 {
        (max, mid, min)
    } else if hue_sextant(h) == 1 {
        (mid, max, min)
    } else if hue_sextant(h) == 2 {
        (min, max, mid)
    } else if hue_sextant(h) == 3 {
        (min, mid, max)
    } else if hue_sextant(h) == 4 {
        (mid, min, max)
    } else if hue_sextant(h) == 5 {
        (max, min, mid)
    } else if hue_sextant(h) == 6 {
        (max, min, mid)
    } else {
        (mid, min, max)
    }
}

/// The colour `(h, s, v)` as three bytes.
pub open spec fn rgb_of(h: u16, s: u8, v: u8) -> (u8, u8, u8) {
    let c = hsv_channels(h, s, v);
    (c.0 as u8, c.1 as u8, c.2 as u8)
}

/// The ramp factor lies between the one that gives the minimum channel and
/// the one that gives the value.
pub proof fn lemma_ramp_bounds(h: u16, s: u8)
    ensures
        256 * (255 - s) <= ramp(h, s) <= 65280,
{
    let f = hue_fraction(h);
    assert(0 <= s * f <= s * 256 && 0 <= s * (256 - f) <= s * 256) by (nonlinear_arith)
        requires
            0 <= f < 256,
            0 <= s,
    ;
}

/// The three roles are ordered: the minimum channel is at most the ramping
/// channel, which is at most the value. Every channel of a converted colour
/// therefore lies in `0..=255`.
pub proof fn lemma_channel_order(h: u16, s: u8, v: u8)
    ensures
        0 <= channel_min(s, v) <= channel_mid(h, s, v) <= v,
        0 <= hsv_channels(h, s, v).0 <= 255,
        0 <= hsv_channels(h, s, v).1 <= 255,
        0 <= hsv_channels(h, s, v).2 <= 255,
{
    lemma_ramp_bounds(h, s);
    let k = ramp(h, s);
    let m = v * (255 - s);
    let d = v * k;
    let q = m / 255;
    assert(0 <= m <= 255 * v && 256 * m <= d <= 65280 * v) by (nonlinear_arith)
        requires
            m == v * (255 - s),
            d == v * k,
            0 <= v,
            0 <= 255 - s <= 255,
            256 * (255 - s) <= k <= 65280,
    ;
    // mid <= v: d + d / 256 + v <= 65536 * v
    // min <= mid: 65536 * q <= 257 * m + v <= d + d / 256 + v
}

/// Adding one and then the high byte before dropping the low byte divides a
/// product of two bytes by 255.
proof fn lemma_div_255(x: u16)
    by (bit_vector)
    requires
        x <= 65025,
    ensures
        ((x + 1) as u16 + (((x + 1) as u16) >> 8)) as u16 >> 8 == x / 255,
        (x + 1) as u16 + (((x + 1) as u16) >> 8) <= 65535,
{
}

proof fn lemma_hue_bits(h: u16)
    by (bit_vector)
    ensures
        h >> 8 <= 255,
        h >> 8 == h / 256,
        h & 0xff == h % 256,
        ((h >> 8) as u8) & 1 == ((h / 256) % 8) % 2,
        (((h >> 8) as u8) & 2 != 0) == (((h / 256) % 8) / 2 % 2 == 1),
        (((h >> 8) as u8) & 4 != 0) == (((h / 256) % 8) / 4 == 1),
        (((h >> 8) as u8) & 6 == 0) == (((h / 256) % 8) / 2 == 0),
{
}

proof fn lemma_shifts(d: u32)
    by (bit_vector)
    ensures
        d >> 8 == d / 256,
        d >> 16 == d / 65536,
{
}

/// Converts a hue on the 1536-step wheel, a saturation and a value to
/// 8-bit red, green and blue.
pub fn hsv2rgb(h: u16, s: u8, v: u8) -> (rgb: (u8, u8, u8))
    ensures
        (rgb.0 as int, rgb.1 as int, rgb.2 as int) == hsv_channels(h, s, v),
        rgb == rgb_of(h, s, v),
        s == 0 ==> rgb == (v, v, v),
{
    if s == 0 {
        return (v, v, v);
    }
    proof {
        lemma_hue_bits(h);
    }
    let sextant: u8 = (h >> 8) as u8;
    // Which output channel (0 red, 1 green, 2 blue) each role writes.
    let mut x: usize = 0;
    let mut y: usize = 1;
    let mut z: usize = 2;
    if sextant & 0b0010 != 0 {
        let t: usize = x;
        x = z;
        z = t;
    }
    if sextant & 0b0100 != 0 {
        let t: usize = y;
        y = z;
        z = t;
    }
    if sextant & 0b0110 == 0 {
        if sextant & 0b0001 == 0 {
            let t: usize = x;
            x = y;
            y = t;
        }
    } else if sextant & 0b0001 != 0 {
        let t: usize = x;
        x = y;
        y = t;
    }

    let mut out: [u8; 3] = [0, 0, 0];
    out[y] = v;

    assert(v * (255 - s) <= 65025) by (nonlinear_arith)
        requires
            v <= 255,
            0 <= 255 - s <= 255,
    ;
    let mut ww: u16 = v as u16 * (255 - s as u16);
    proof {
        lemma_div_255(ww);
    }
    ww += 1;
    ww += ww >> 8;
    out[z] = (ww >> 8) as u8;

    let h_fraction: u8 = (h & 0xff) as u8;
    let span: u16 = if sextant & 0b0001 == 0 {
        256 - h_fraction as u16
    } else {
        h_fraction as u16
    };
    assert(s * span <= 65280) by (nonlinear_arith)
        requires
            s <= 255,
            span <= 256,
    ;
    let scale: u16 = 65280 - s as u16 * span;
    assert(v * scale <= 16646400) by (nonlinear_arith)
        requires
            v <= 255,
            scale <= 65280,
    ;
    let mut d: u32 = v as u32 * scale as u32;
    proof {
        lemma_shifts(d);
    }
    d += d >> 8;
    d += v as u32;
    proof {
        lemma_shifts(d);
    }
    out[x] = (d >> 16) as u8;

    (out[0], out[1], out[2])
}

} // verus!
