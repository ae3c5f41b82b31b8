//! The arithmetic of the status LED: brightness scaling of a color and the
//! split of a blink period into its on and off halves. Driving the pixel
//! hardware itself is outside the library.

use vstd::prelude::*;

verus! {

/// An RGB color, one byte per channel.
#[derive(Clone, Copy, Debug, PartialEq, Eq, Structural)]
pub struct Rgb {
    pub r: u8,
    pub g: u8,
    pub b: u8,
}

/// One channel scaled to a brightness: `c * (brightness + 1) / 256`,
/// which keeps 255 at full brightness and 0 at brightness 0 for any input.
pub open spec fn scaled_channel(c: u8, brightness: u8) -> int {
    c * (brightness + 1) / 256
}

/// Scales a color down to a brightness level.
pub fn apply_brightness(color: Rgb, brightness: u8) -> (out: Rgb)
    ensures
        out.r == scaled_channel(color.r, brightness),
        out.g == scaled_channel(color.g, brightness),
        out.b == scaled_channel(color.b, brightness),
        out.r <= color.r && out.g <= color.g && out.b <= color.b,
{
    proof {
        lemma_scaled_product_fits(color.r, brightness);
        lemma_scaled_product_fits(color.g, brightness);
        lemma_scaled_product_fits(color.b, brightness);
        lemma_scaled_channel_bound(color.r, brightness);
        lemma_scaled_channel_bound(color.g, brightness);
        lemma_scaled_channel_bound(color.b, brightness);
    }
    Rgb {
        r: (color.r as u16 * (brightness as u16 + 1) / 256) as u8,
        g: (color.g as u16 * (brightness as u16 + 1) / 256) as u8,
        b: (color.b as u16 * (brightness as u16 + 1) / 256) as u8,
    }
}

proof fn lemma_scaled_product_fits(c: u8, brightness: u8)
    ensures
        c * (brightness + 1) <= 65280,
{
    assert(c * (brightness + 1) <= 255 * 256) by (nonlinear_arith)
        requires
            c <= 255,
            brightness + 1 <= 256,
    ;
}

proof fn lemma_scaled_channel_bound(c: u8, brightness: u8)
    ensures
        0 <= scaled_channel(c, brightness) <= c,
{
    assert(c * (brightness + 1) <= c * 256) by (nonlinear_arith)
        requires
            brightness + 1 <= 256,
    ;
    assert(c * 256 / 256 == c);
}

/// Splits a blink period into the lit and dark halves that a duty cycle
/// (a percentage) prescribes.
pub fn blink_halves(period_ms: u64, duty_cycle: u8) -> (halves: (u64, u64))
    requires
        duty_cycle <= 100,
        period_ms <= u64::MAX / 100,
    ensures
        halves.0 == period_ms * duty_cycle / 100,
        halves.1 == period_ms * (100 - duty_cycle) / 100,
        halves.0 + halves.1 <= period_ms,
{
    proof {
        lemma_halves_fit(period_ms, duty_cycle);
    }
    let lit = period_ms * duty_cycle as u64 / 100;
    let dark = period_ms * (100 - duty_cycle) as u64 / 100;
    (lit, dark)
}

proof fn lemma_halves_fit(period_ms: u64, duty_cycle: u8)
    requires
        duty_cycle <= 100,
        period_ms <= u64::MAX / 100,
    ensures
        period_ms * duty_cycle <= u64::MAX,
        period_ms * (100 - duty_cycle) <= u64::MAX,
        period_ms * duty_cycle / 100 + period_ms * (100 - duty_cycle) / 100 <= period_ms,
{
    let d = duty_cycle as int;
    let p = period_ms as int;
    assert(p * d <= p * 100 && p * (100 - d) <= p * 100) by (nonlinear_arith)
        requires
            0 <= d <= 100,
            0 <= p,
    ;
    assert(p * 100 <= u64::MAX) by (nonlinear_arith)
        requires
            0 <= p <= u64::MAX as int / 100,
    ;
    assert(p * d / 100 + p * (100 - d) / 100 <= (p * d + p * (100 - d)) / 100) by (nonlinear_arith)
        requires
            0 <= d <= 100,
            0 <= p,
    ;
    assert(p * d + p * (100 - d) == p * 100) by (nonlinear_arith);
    assert(p * 100 / 100 == p);
}

} // verus!
