use vstd::arithmetic::div_mod::{
    lemma_div_is_ordered, lemma_div_is_ordered_by_denominator, lemma_div_multiples_vanish,
    lemma_div_pos_is_pos, lemma_fundamental_div_mod, lemma_multiply_divide_le,
    lemma_multiply_divide_lt,
};
use vstd::arithmetic::mul::{lemma_mul_inequality, lemma_mul_upper_bound};
use vstd::prelude::*;

verus! {

#[derive(Debug, Clone, Copy, PartialEq, Eq, Structural)]
pub struct Rgb(pub u8, pub u8, pub u8);

/// How a color is painted across a light surface. The renderer picks the
/// fill; surfaces without spatial resolution (a single LED) map any fill to
/// the same color.
#[derive(Debug, Clone, Copy, PartialEq, Eq, Structural)]
pub enum Fill {
    /// The whole surface carries the same color.
    Uniform,
    /// A vertical brightness ramp, full at the top fading to black at the
    /// bottom, over a constant hue/saturation.
    VerticalGradient,
}

/// Abstraction over a light surface that accepts an RGB color.
pub trait RgbLight {
    /// What the surface shows: the fill and color it was last painted with,
    /// or nothing before its first paint.
    spec fn shows(&self) -> Option<(Fill, Rgb)>;

    /// Paints the surface flat.
    fn set_rgb(&mut self, color: Rgb)
        ensures
            final(self).shows() == Some((Fill::Uniform, color)),
    {
        self.set_fill(Fill::Uniform, color);
    }

    /// Paints the surface in the chosen [`Fill`].
    fn set_fill(&mut self, fill: Fill, color: Rgb)
        ensures
            final(self).shows() == Some((fill, color)),
    ;

    /// Drives a backlight channel to a percentage of full brightness. Surfaces
    /// with no separate backlight (a bare WS2812) keep the default no-op.
    fn set_backlight(&mut self, level_pct: u8) {
    }

    /// Minimum per-channel delta that warrants a repaint. Slow-refresh
    /// surfaces (panel RAM rewritten over SPI) return a step > 0 to skip
    /// imperceptible drift; instant LEDs keep the default 0.
    fn repaint_step(&self) -> (r: u8)
        default_ensures
            r == 0,
    {
        0
    }
}

/// Fixed-point unit of the brightness envelope (`1 << 16`).
pub const FIXED_POINT: u64 = 65536;

/// Max color waypoints a `group` array can carry; unused slots pad with `0`.
pub const GROUP_CAPACITY: usize = 7;

// ---------------------------------------------------------------------------
// Mathematical model
// ---------------------------------------------------------------------------

/// The smaller of two integers.
pub open spec fn min_int(a: int, b: int) -> int {
    if a <= b {
        a
    } else {
        b
    }
}

/// A period of zero behaves as a period of one millisecond.
pub open spec fn nonzero_period(period_ms: u32) -> int {
    if period_ms == 0 {
        1
    } else {
        period_ms as int
    }
}

/// `u·(1−u)` on the fixed-point scale.
pub open spec fn parabola(u: int) -> int {
    u * (FIXED_POINT - u) / FIXED_POINT as int
}

/// Bhaskara's rational approximation of `sin(π·u)` on the fixed-point scale.
pub open spec fn bhaskara_sin(u: int) -> int {
    16 * FIXED_POINT * parabola(u) / (5 * FIXED_POINT - 4 * parabola(u))
}

/// The squared Bhaskara sine: an approximation of `sin²(π·u)`.
pub open spec fn hann_weight_of(u: int) -> int {
    bhaskara_sin(u) * bhaskara_sin(u) / FIXED_POINT as int
}

/// Position within the current period on the fixed-point scale.
pub open spec fn phase_fraction(elapsed_ms: u32, period_ms: u32) -> int {
    (elapsed_ms as int % nonzero_period(period_ms)) * FIXED_POINT / nonzero_period(period_ms)
}

/// The trough of the brightness envelope: the smaller of the two bounds.
pub open spec fn envelope_floor(min_brightness: u8, max_brightness: u8) -> int {
    min_int(min_brightness as int, max_brightness as int)
}

/// The `sin²` breathing envelope, scaled into `[floor, max_brightness]`.
pub open spec fn smooth_brightness_of(
    elapsed_ms: u32,
    period_ms: u32,
    min_brightness: u8,
    max_brightness: u8,
) -> int {
    let lo = envelope_floor(min_brightness, max_brightness);
    let scale = max_brightness - lo;
    if scale == 0 {
        lo
    } else {
        lo + scale * hann_weight_of(phase_fraction(elapsed_ms, period_ms)) / FIXED_POINT as int
    }
}

/// Hue tick on the 256-step wheel at `elapsed_ms`, wrapping every period.
pub open spec fn hue_phase_of(elapsed_ms: u32, period_ms: u32) -> int {
    (elapsed_ms as int % nonzero_period(period_ms)) * 256 / nonzero_period(period_ms)
}

/// The channel that sits at the bottom of the HSV hexcone.
pub open spec fn hsv_floor(saturation: int, value: int) -> int {
    value * (255 - saturation) / 255
}

/// The channel rising across a hue region.
pub open spec fn hsv_ascending(saturation: int, value: int, remainder: int) -> int {
    value * (255 - saturation * (255 - remainder) / 256) / 255
}

/// The channel falling across a hue region.
pub open spec fn hsv_descending(saturation: int, value: int, remainder: int) -> int {
    value * (255 - saturation * remainder / 256) / 255
}

/// HSV to RGB on a 256-step hue wheel split into six regions.
pub open spec fn hsv_to_rgb_of(hue: u8, saturation: u8, value: u8) -> Rgb {
    let x = hue * 6;
    let region = x / 256;
    let rem = x % 256;
    let v = value;
    let f = hsv_floor(saturation as int, value as int) as u8;
    let a = hsv_ascending(saturation as int, value as int, rem) as u8;
    let d = hsv_descending(saturation as int, value as int, rem) as u8;
    if region == 0 {
        Rgb(v, a, f)
    } else if region == 1 {
        Rgb(d, v, f)
    } else if region == 2 {
        Rgb(f, v, a)
    } else if region == 3 {
        Rgb(f, d, v)
    } else if region == 4 {
        Rgb(a, f, v)
    } else {
        Rgb(v, f, d)
    }
}

/// One channel scaled toward black by `brightness / 255`.
pub open spec fn scale_channel(channel: u8, brightness: u8) -> u8 {
    (channel * brightness / 255) as u8
}

pub open spec fn scale_brightness_of(color: Rgb, brightness: u8) -> Rgb {
    Rgb(
        scale_channel(color.0, brightness),
        scale_channel(color.1, brightness),
        scale_channel(color.2, brightness),
    )
}

/// Row brightness of the vertical ramp: `255` on the top row, `0` on the last.
pub open spec fn vertical_brightness_of(row: u16, height: u16) -> int {
    if height <= 1 {
        255
    } else {
        let bottom = height - 1;
        255 * (bottom - min_int(row as int, bottom)) / bottom
    }
}

/// Hue sweep offset in `[0, hue_span]`, replayed over `hue_period_ms`.
pub open spec fn hue_offset_of(hue_span: u8, hue_period_ms: u32, elapsed_ms: u32) -> int {
    if hue_span == 0 || hue_period_ms == 0 {
        0
    } else {
        hue_span * hue_phase_of(elapsed_ms, hue_period_ms) / 256
    }
}

/// Integer division rounding toward zero, as Rust's `/` on signed integers.
pub open spec fn div_toward_zero(a: int, d: int) -> int {
    if a >= 0 {
        a / d
    } else {
        -((-a) / d)
    }
}

/// Shortest signed arc from `from` to `to` around the 256-step wheel.
pub open spec fn hue_arc(from: int, to: int) -> int {
    (to - from + 384) % 256 - 128
}

/// Leg length of a waypoint rotation: the hue period split across the
/// waypoints, never shorter than one millisecond.
pub open spec fn leg_ms(hue_period_ms: u32, group_len: u8) -> int {
    let leg = hue_period_ms as int / group_len as int;
    if leg >= 1 {
        leg
    } else {
        1
    }
}

/// Hue of a waypoint rotation: index of the current leg within the cycle.
pub open spec fn rotation_waypoint(elapsed_ms: u32, hue_period_ms: u32, group_len: u8) -> int {
    let leg = leg_ms(hue_period_ms, group_len);
    (elapsed_ms as int % (leg * group_len)) / leg
}

/// Progress through the current leg, on a 256-step scale.
pub open spec fn rotation_fraction(elapsed_ms: u32, hue_period_ms: u32, group_len: u8) -> int {
    let leg = leg_ms(hue_period_ms, group_len);
    ((elapsed_ms as int % (leg * group_len)) % leg) * 256 / leg
}

/// Hue of the waypoint rotation at `elapsed_ms`: interpolated along the
/// shortest arc from the current waypoint to the next (wrapping to the first).
pub open spec fn rotation_hue(
    elapsed_ms: u32,
    hue_period_ms: u32,
    group: Seq<u8>,
    group_len: u8,
) -> int {
    let waypoint = rotation_waypoint(elapsed_ms, hue_period_ms, group_len);
    let fraction = rotation_fraction(elapsed_ms, hue_period_ms, group_len);
    let from = group[waypoint] as int;
    let to = group[(waypoint + 1) % (group_len as int)] as int;
    (from + div_toward_zero(hue_arc(from, to) * fraction, 256)) % 256
}

/// Hue along the configured path: sweep (`group_len == 0`), static waypoint
/// (`group_len == 1`) or waypoint rotation (`group_len >= 2`).
pub open spec fn group_hue_of(
    elapsed_ms: u32,
    hue_period_ms: u32,
    hue_span: u8,
    base_hue: u8,
    group: Seq<u8>,
    group_len: u8,
) -> int {
    if group_len == 0 {
        (base_hue + hue_offset_of(hue_span, hue_period_ms, elapsed_ms)) % 256
    } else if group_len == 1 {
        group[0] as int
    } else {
        rotation_hue(elapsed_ms, hue_period_ms, group, group_len)
    }
}

/// Backlight percentage following the envelope, remapped to `[floor, 100]`.
pub open spec fn backlight_level_of(
    elapsed_ms: u32,
    period_ms: u32,
    min_brightness: u8,
    max_brightness: u8,
    floor_pct: u8,
) -> int {
    let lo = envelope_floor(min_brightness, max_brightness);
    let span = max_brightness - lo;
    if span == 0 {
        100
    } else {
        let floor = min_int(floor_pct as int, 100);
        let value = smooth_brightness_of(elapsed_ms, period_ms, min_brightness, max_brightness);
        floor + (value - lo) * (100 - floor) / span
    }
}

/// Absolute difference of two channels.
pub open spec fn channel_delta(a: u8, b: u8) -> int {
    if a >= b {
        a - b
    } else {
        b - a
    }
}

/// Whether `next` differs from `last` by at least `step` in some channel.
pub open spec fn should_repaint_of(last: Rgb, next: Rgb, step: u8) -> bool {
    last != next && (channel_delta(last.0, next.0) >= step || channel_delta(last.1, next.1) >= step
        || channel_delta(last.2, next.2) >= step)
}

// ---------------------------------------------------------------------------
// Arithmetic facts
// ---------------------------------------------------------------------------

/// Each stage of the envelope stays on the fixed-point scale.
proof fn lemma_hann_bounds(u: int)
    requires
        0 <= u <= FIXED_POINT,
    ensures
        0 <= u * (FIXED_POINT - u) <= 1073741824,
        0 <= parabola(u) <= 16384,
        0 <= bhaskara_sin(u) <= FIXED_POINT,
        0 <= bhaskara_sin(u) * bhaskara_sin(u) <= 4294967296,
        0 <= hann_weight_of(u) <= FIXED_POINT,
{
    let a = u * (65536 - u);
    assert(0 <= a <= 1073741824) by (nonlinear_arith)
        requires
            0 <= u <= 65536,
            a == u * (65536 - u),
    ;
    lemma_div_is_ordered(a, 1073741824, 65536);
    lemma_div_pos_is_pos(a, 65536);
    assert(1073741824int / 65536 == 16384) by (nonlinear_arith);
    let p = parabola(u);
    assert(p == a / 65536);
    assert(0 <= p <= 16384);
    let d = 5 * 65536 - 4 * p;
    let n = 16 * 65536 * p;
    assert(n <= d * 65536) by (nonlinear_arith)
        requires
            0 <= p <= 16384,
            d == 5 * 65536 - 4 * p,
            n == 16 * 65536 * p,
    ;
    lemma_multiply_divide_le(n, d, 65536);
    lemma_div_pos_is_pos(n, d);
    let b = bhaskara_sin(u);
    lemma_mul_upper_bound(b, 65536, b, 65536);
    assert(0 <= b * b) by (nonlinear_arith)
        requires
            0 <= b,
    ;
    lemma_multiply_divide_le(b * b, 65536, 65536);
    lemma_div_pos_is_pos(b * b, 65536);
}

/// The envelope never leaves `[floor, max_brightness]`.
pub proof fn lemma_smooth_brightness_bounds(
    elapsed_ms: u32,
    period_ms: u32,
    min_brightness: u8,
    max_brightness: u8,
)
    ensures
        envelope_floor(min_brightness, max_brightness) <= smooth_brightness_of(
            elapsed_ms,
            period_ms,
            min_brightness,
            max_brightness,
        ) <= max_brightness,
{
    let lo = envelope_floor(min_brightness, max_brightness);
    let scale = max_brightness - lo;
    if scale != 0 {
        let p = nonzero_period(period_ms);
        let phase = elapsed_ms as int % p;
        lemma_fundamental_div_mod(elapsed_ms as int, p);
        lemma_multiply_divide_lt(phase * 65536, p, 65536);
        lemma_div_pos_is_pos(phase * 65536, p);
        let u = phase_fraction(elapsed_ms, period_ms);
        lemma_hann_bounds(u);
        let w = hann_weight_of(u);
        lemma_mul_inequality(w, 65536, scale);
        assert(w * scale == scale * w) by (nonlinear_arith);
        assert(65536 * scale == scale * 65536);
        lemma_multiply_divide_le(scale * w, 65536, scale);
        assert(0 <= scale * w) by (nonlinear_arith)
            requires
                0 <= scale,
                0 <= w,
        ;
        lemma_div_pos_is_pos(scale * w, 65536);
    }
}

/// Every HSV channel lies between black and `value`.
proof fn lemma_hsv_channels(saturation: int, value: int, remainder: int)
    requires
        0 <= saturation <= 255,
        0 <= value <= 255,
        0 <= remainder < 256,
    ensures
        0 <= hsv_floor(saturation, value) <= value,
        0 <= hsv_ascending(saturation, value, remainder) <= value,
        0 <= hsv_descending(saturation, value, remainder) <= value,
        0 <= saturation * (255 - remainder) <= 65025,
        0 <= saturation * remainder <= 65280,
        0 <= saturation * (255 - remainder) / 256 <= 254,
        0 <= saturation * remainder / 256 <= 255,
{
    lemma_scaled_by_at_most_255(value, 255 - saturation);
    assert(0 <= saturation * (255 - remainder) <= 65025) by (nonlinear_arith)
        requires
            0 <= saturation <= 255,
            0 <= remainder < 256,
    ;
    assert(0 <= saturation * remainder <= 65280) by (nonlinear_arith)
        requires
            0 <= saturation <= 255,
            0 <= remainder < 256,
    ;
    lemma_div_is_ordered(saturation * (255 - remainder), 65025, 256);
    lemma_div_pos_is_pos(saturation * (255 - remainder), 256);
    lemma_div_is_ordered(saturation * remainder, 65280, 256);
    lemma_div_pos_is_pos(saturation * remainder, 256);
    lemma_scaled_by_at_most_255(value, 255 - saturation * (255 - remainder) / 256);
    lemma_scaled_by_at_most_255(value, 255 - saturation * remainder / 256);
}

/// `value * k / 255` stays within `[0, value]` for `k` in `[0, 255]`.
proof fn lemma_scaled_by_at_most_255(value: int, k: int)
    requires
        0 <= value <= 255,
        0 <= k <= 255,
    ensures
        0 <= value * k <= 65025,
        0 <= value * k / 255 <= value,
{
    lemma_mul_upper_bound(value, 255, k, 255);
    lemma_mul_inequality(k, 255, value);
    assert(value * k == k * value) by (nonlinear_arith);
    assert(0 <= value * k) by (nonlinear_arith)
        requires
            0 <= value,
            0 <= k,
    ;
    lemma_multiply_divide_le(value * k, 255, value);
    lemma_div_pos_is_pos(value * k, 255);
}

/// The hue tick of a phase stays on the 256-step wheel.
proof fn lemma_hue_phase_bounds(elapsed_ms: u32, period_ms: u32)
    ensures
        0 <= hue_phase_of(elapsed_ms, period_ms) < 256,
{
    let p = nonzero_period(period_ms);
    lemma_fundamental_div_mod(elapsed_ms as int, p);
    let phase = elapsed_ms as int % p;
    lemma_multiply_divide_lt(phase * 256, p, 256);
    lemma_div_pos_is_pos(phase * 256, p);
}

/// A sweep offset never exceeds the span.
proof fn lemma_hue_offset_bounds(hue_span: u8, hue_period_ms: u32, elapsed_ms: u32)
    ensures
        0 <= hue_offset_of(hue_span, hue_period_ms, elapsed_ms) <= hue_span,
{
    if hue_span != 0 && hue_period_ms != 0 {
        lemma_hue_phase_bounds(elapsed_ms, hue_period_ms);
        let h = hue_phase_of(elapsed_ms, hue_period_ms);
        lemma_mul_inequality(h, 256, hue_span as int);
        assert(h * hue_span == hue_span * h) by (nonlinear_arith);
        assert(0 <= hue_span * h) by (nonlinear_arith)
            requires
                0 <= h,
                0 <= hue_span,
        ;
        lemma_multiply_divide_le(hue_span * h, 256, hue_span as int);
        lemma_div_pos_is_pos(hue_span * h, 256);
    }
}

// ---------------------------------------------------------------------------
// Laws of the light model
// ---------------------------------------------------------------------------

/// The envelope weight grows with the parabola it is built from.
proof fn lemma_hann_follows_parabola(u1: int, u2: int)
    requires
        0 <= u1 <= FIXED_POINT,
        0 <= u2 <= FIXED_POINT,
        parabola(u1) <= parabola(u2),
    ensures
        hann_weight_of(u1) <= hann_weight_of(u2),
{
    lemma_hann_bounds(u1);
    lemma_hann_bounds(u2);
    let p1 = parabola(u1);
    let p2 = parabola(u2);
    let n1 = 16 * 65536 * p1;
    let n2 = 16 * 65536 * p2;
    let d1 = 5 * 65536 - 4 * p1;
    let d2 = 5 * 65536 - 4 * p2;
    lemma_div_is_ordered_by_denominator(n1, d2, d1);
    lemma_div_is_ordered(n1, n2, d2);
    let b1 = bhaskara_sin(u1);
    let b2 = bhaskara_sin(u2);
    lemma_mul_upper_bound(b1, b2, b1, b2);
    lemma_div_is_ordered(b1 * b1, b2 * b2, 65536);
}

/// Position within the period, on the fixed-point scale, is ordered like the
/// phase itself and stays on the scale.
proof fn lemma_phase_fraction_ordered(e1: u32, e2: u32, period_ms: u32)
    requires
        e1 as int % nonzero_period(period_ms) <= e2 as int % nonzero_period(period_ms),
    ensures
        0 <= phase_fraction(e1, period_ms) <= phase_fraction(e2, period_ms) < FIXED_POINT,
{
    let p = nonzero_period(period_ms);
    lemma_fundamental_div_mod(e1 as int, p);
    lemma_fundamental_div_mod(e2 as int, p);
    let ph1 = e1 as int % p;
    let ph2 = e2 as int % p;
    lemma_div_is_ordered(ph1 * 65536, ph2 * 65536, p);
    lemma_div_pos_is_pos(ph1 * 65536, p);
    lemma_multiply_divide_lt(ph2 * 65536, p, 65536);
}

/// Brightness follows the envelope weight.
proof fn lemma_brightness_follows_weight(
    e1: u32,
    e2: u32,
    period_ms: u32,
    min_brightness: u8,
    max_brightness: u8,
)
    requires
        hann_weight_of(phase_fraction(e1, period_ms)) <= hann_weight_of(
            phase_fraction(e2, period_ms),
        ),
        0 <= hann_weight_of(phase_fraction(e1, period_ms)),
    ensures
        smooth_brightness_of(e1, period_ms, min_brightness, max_brightness)
            <= smooth_brightness_of(e2, period_ms, min_brightness, max_brightness),
{
    let lo = envelope_floor(min_brightness, max_brightness);
    let scale = max_brightness - lo;
    let w1 = hann_weight_of(phase_fraction(e1, period_ms));
    let w2 = hann_weight_of(phase_fraction(e2, period_ms));
    if scale != 0 {
        lemma_mul_inequality(w1, w2, scale);
        assert(w1 * scale == scale * w1 && w2 * scale == scale * w2) by (nonlinear_arith);
        lemma_div_is_ordered(scale * w1, scale * w2, 65536);
    }
}

/// At the start of every period the envelope sits at its trough.
pub proof fn lemma_smooth_brightness_trough(
    elapsed_ms: u32,
    period_ms: u32,
    min_brightness: u8,
    max_brightness: u8,
)
    requires
        elapsed_ms as int % nonzero_period(period_ms) == 0,
    ensures
        smooth_brightness_of(elapsed_ms, period_ms, min_brightness, max_brightness)
            == envelope_floor(min_brightness, max_brightness),
{
    assert(phase_fraction(elapsed_ms, period_ms) == 0);
    assert(parabola(0) == 0);
    assert(bhaskara_sin(0) == 0);
    assert(hann_weight_of(0) == 0);
}

/// Halfway through an even period the envelope reaches `max_brightness`.
pub proof fn lemma_smooth_brightness_peak(
    elapsed_ms: u32,
    period_ms: u32,
    min_brightness: u8,
    max_brightness: u8,
)
    requires
        nonzero_period(period_ms) % 2 == 0,
        2 * (elapsed_ms as int % nonzero_period(period_ms)) == nonzero_period(period_ms),
    ensures
        smooth_brightness_of(elapsed_ms, period_ms, min_brightness, max_brightness)
            == max_brightness,
{
    let p = nonzero_period(period_ms);
    let ph = elapsed_ms as int % p;
    assert(ph * 65536 == p * 32768);
    lemma_div_multiples_vanish(32768, p);
    assert(phase_fraction(elapsed_ms, period_ms) == 32768);
    assert(parabola(32768) == 16384) by (nonlinear_arith);
    assert(bhaskara_sin(32768) == 65536) by (nonlinear_arith)
        requires
            parabola(32768) == 16384,
    ;
    assert(hann_weight_of(32768) == 65536) by (nonlinear_arith)
        requires
            bhaskara_sin(32768) == 65536,
    ;
    let lo = envelope_floor(min_brightness, max_brightness);
    let scale = max_brightness - lo;
    lemma_div_multiples_vanish(scale, 65536);
    assert(scale * 65536 == 65536 * scale) by (nonlinear_arith);
}

/// Over the first half of a period the envelope never falls.
pub proof fn lemma_smooth_brightness_rises(
    e1: u32,
    e2: u32,
    period_ms: u32,
    min_brightness: u8,
    max_brightness: u8,
)
    requires
        e1 as int % nonzero_period(period_ms) <= e2 as int % nonzero_period(period_ms),
        2 * (e2 as int % nonzero_period(period_ms)) <= nonzero_period(period_ms),
    ensures
        smooth_brightness_of(e1, period_ms, min_brightness, max_brightness)
            <= smooth_brightness_of(e2, period_ms, min_brightness, max_brightness),
{
    let p = nonzero_period(period_ms);
    let ph2 = e2 as int % p;
    lemma_phase_fraction_ordered(e1, e2, period_ms);
    let u1 = phase_fraction(e1, period_ms);
    let u2 = phase_fraction(e2, period_ms);
    assert(ph2 * 65536 <= p * 32768);
    lemma_multiply_divide_le(ph2 * 65536, p, 32768);
    assert(u1 * (65536 - u1) <= u2 * (65536 - u2)) by (nonlinear_arith)
        requires
            0 <= u1 <= u2 <= 32768,
    ;
    lemma_div_is_ordered(u1 * (65536 - u1), u2 * (65536 - u2), 65536);
    lemma_hann_follows_parabola(u1, u2);
    lemma_hann_bounds(u1);
    lemma_brightness_follows_weight(e1, e2, period_ms, min_brightness, max_brightness);
}

/// Over the second half of a period the envelope never rises.
pub proof fn lemma_smooth_brightness_falls(
    e1: u32,
    e2: u32,
    period_ms: u32,
    min_brightness: u8,
    max_brightness: u8,
)
    requires
        e1 as int % nonzero_period(period_ms) <= e2 as int % nonzero_period(period_ms),
        nonzero_period(period_ms) <= 2 * (e1 as int % nonzero_period(period_ms)),
    ensures
        smooth_brightness_of(e2, period_ms, min_brightness, max_brightness)
            <= smooth_brightness_of(e1, period_ms, min_brightness, max_brightness),
{
    let p = nonzero_period(period_ms);
    let ph1 = e1 as int % p;
    lemma_phase_fraction_ordered(e1, e2, period_ms);
    let u1 = phase_fraction(e1, period_ms);
    let u2 = phase_fraction(e2, period_ms);
    assert(p * 32768 <= ph1 * 65536);
    lemma_div_is_ordered(p * 32768, ph1 * 65536, p);
    lemma_div_multiples_vanish(32768, p);
    assert(u2 * (65536 - u2) <= u1 * (65536 - u1)) by (nonlinear_arith)
        requires
            32768 <= u1 <= u2 <= 65536,
    ;
    lemma_div_is_ordered(u2 * (65536 - u2), u1 * (65536 - u1), 65536);
    lemma_hann_follows_parabola(u2, u1);
    lemma_hann_bounds(u2);
    lemma_brightness_follows_weight(e2, e1, period_ms, min_brightness, max_brightness);
}

/// Without saturation every channel carries the value: a gray.
pub proof fn lemma_hsv_unsaturated_is_gray(hue: u8, value: u8)
    ensures
        hsv_to_rgb_of(hue, 0, value) == Rgb(value, value, value),
{
    let rem = (hue * 6) % 256;
    assert(value * 255 / 255 == value) by {
        lemma_div_multiples_vanish(value as int, 255);
    }
    assert(0 * (255 - rem) / 256 == 0);
    assert(0 * rem / 256 == 0);
}

/// At zero value every hue is black.
pub proof fn lemma_hsv_zero_value_is_black(hue: u8, saturation: u8)
    ensures
        hsv_to_rgb_of(hue, saturation, 0) == Rgb(0, 0, 0),
{
}

/// The brightest channel carries the value exactly and no channel exceeds it.
pub proof fn lemma_hsv_value_is_brightest_channel(hue: u8, saturation: u8, value: u8)
    ensures
        ({
            let c = hsv_to_rgb_of(hue, saturation, value);
            &&& c.0 <= value && c.1 <= value && c.2 <= value
            &&& c.0 == value || c.1 == value || c.2 == value
        }),
{
    let x = hue * 6;
    lemma_fundamental_div_mod(x, 256);
    lemma_hsv_channels(saturation as int, value as int, x % 256);
}

/// Full brightness leaves a color unchanged.
pub proof fn lemma_scale_brightness_full_is_identity(color: Rgb)
    ensures
        scale_brightness_of(color, 255) == color,
{
    lemma_div_multiples_vanish(color.0 as int, 255);
    lemma_div_multiples_vanish(color.1 as int, 255);
    lemma_div_multiples_vanish(color.2 as int, 255);
    assert(color.0 * 255 == 255 * color.0 && color.1 * 255 == 255 * color.1 && color.2 * 255 == 255
        * color.2) by (nonlinear_arith);
}

/// Zero brightness is black.
pub proof fn lemma_scale_brightness_zero_is_black(color: Rgb)
    ensures
        scale_brightness_of(color, 0) == Rgb(0, 0, 0),
{
}

/// The vertical ramp starts full on the top row and reaches black on the last.
pub proof fn lemma_vertical_brightness_ends(height: u16)
    requires
        height >= 2,
    ensures
        vertical_brightness_of(0, height) == 255,
        vertical_brightness_of((height - 1) as u16, height) == 0,
{
    lemma_div_multiples_vanish(255, (height - 1) as int);
    assert(255 * (height - 1) == (height - 1) * 255) by (nonlinear_arith);
}

/// The vertical ramp never brightens toward the bottom.
pub proof fn lemma_vertical_brightness_fades(row1: u16, row2: u16, height: u16)
    requires
        row1 <= row2,
    ensures
        vertical_brightness_of(row2, height) <= vertical_brightness_of(row1, height),
{
    if height > 1 {
        let d = height - 1;
        let n1 = d - min_int(row1 as int, d);
        let n2 = d - min_int(row2 as int, d);
        lemma_mul_inequality(n2, n1, 255);
        assert(255 * n1 == n1 * 255 && 255 * n2 == n2 * 255) by (nonlinear_arith);
        lemma_div_is_ordered(255 * n2, 255 * n1, d);
    }
}

/// A single waypoint is a static color, whatever the clock.
pub proof fn lemma_group_hue_single_waypoint(
    elapsed_ms: u32,
    hue_period_ms: u32,
    hue_span: u8,
    base_hue: u8,
    group: Seq<u8>,
)
    ensures
        group_hue_of(elapsed_ms, hue_period_ms, hue_span, base_hue, group, 1) == group[0],
{
}

/// A sweep with a zero span holds the base hue.
pub proof fn lemma_group_hue_zero_span_holds_base(
    elapsed_ms: u32,
    hue_period_ms: u32,
    base_hue: u8,
    group: Seq<u8>,
)
    ensures
        group_hue_of(elapsed_ms, hue_period_ms, 0, base_hue, group, 0) == base_hue,
{
}

/// A waypoint rotation shows each waypoint's exact hue at the start of its leg.
pub proof fn lemma_group_hue_hits_waypoints(
    elapsed_ms: u32,
    hue_period_ms: u32,
    hue_span: u8,
    base_hue: u8,
    group: Seq<u8>,
    group_len: u8,
)
    requires
        2 <= group_len <= group.len(),
        (elapsed_ms as int % (leg_ms(hue_period_ms, group_len) * group_len)) % leg_ms(
            hue_period_ms,
            group_len,
        ) == 0,
    ensures
        group_hue_of(elapsed_ms, hue_period_ms, hue_span, base_hue, group, group_len)
            == group[rotation_waypoint(elapsed_ms, hue_period_ms, group_len)],
{
    let leg = leg_ms(hue_period_ms, group_len);
    assert(rotation_fraction(elapsed_ms, hue_period_ms, group_len) == 0);
    let waypoint = rotation_waypoint(elapsed_ms, hue_period_ms, group_len);
    let from = group[waypoint] as int;
    let to = group[(waypoint + 1) % (group_len as int)] as int;
    assert(hue_arc(from, to) * 0 == 0);
    lemma_small_mod_256(from);
}

/// Hues already on the wheel are their own residue.
proof fn lemma_small_mod_256(h: int)
    requires
        0 <= h < 256,
    ensures
        h % 256 == h,
{
    vstd::arithmetic::div_mod::lemma_small_mod(h as nat, 256);
}

/// The backlight stays within `[floor, 100]` percent (the floor capped at 100).
pub proof fn lemma_backlight_level_bounds(
    elapsed_ms: u32,
    period_ms: u32,
    min_brightness: u8,
    max_brightness: u8,
    floor_pct: u8,
)
    ensures
        min_int(floor_pct as int, 100) <= backlight_level_of(
            elapsed_ms,
            period_ms,
            min_brightness,
            max_brightness,
            floor_pct,
        ) <= 100,
{
    let lo = envelope_floor(min_brightness, max_brightness);
    let span = max_brightness - lo;
    if span != 0 {
        lemma_smooth_brightness_bounds(elapsed_ms, period_ms, min_brightness, max_brightness);
        let floor = min_int(floor_pct as int, 100);
        let value = smooth_brightness_of(elapsed_ms, period_ms, min_brightness, max_brightness);
        let room = 100 - floor;
        lemma_mul_inequality(value - lo, span, room);
        assert(span * room == room * span) by (nonlinear_arith);
        lemma_multiply_divide_le((value - lo) * room, span, room);
        assert(0 <= (value - lo) * room) by (nonlinear_arith)
            requires
                value >= lo,
                room >= 0,
        ;
        lemma_div_pos_is_pos((value - lo) * room, span);
    }
}

/// On a breathing envelope the backlight follows the envelope in proportion:
/// its rise above the floor, out of the room between the floor and 100, is
/// the envelope's rise above its trough out of the envelope's span, rounded
/// down to a whole percent.
pub proof fn lemma_backlight_level_follows_envelope(
    elapsed_ms: u32,
    period_ms: u32,
    min_brightness: u8,
    max_brightness: u8,
    floor_pct: u8,
)
    requires
        min_brightness < max_brightness,
    ensures
        ({
            let level = backlight_level_of(
                elapsed_ms,
                period_ms,
                min_brightness,
                max_brightness,
                floor_pct,
            );
            let value = smooth_brightness_of(elapsed_ms, period_ms, min_brightness, max_brightness);
            let floor = min_int(floor_pct as int, 100);
            let rise = (value - min_brightness) * (100 - floor);
            let span = max_brightness - min_brightness;
            &&& (level - floor) * span <= rise
            &&& rise < (level - floor + 1) * span
        }),
{
    let level = backlight_level_of(elapsed_ms, period_ms, min_brightness, max_brightness, floor_pct);
    let value = smooth_brightness_of(elapsed_ms, period_ms, min_brightness, max_brightness);
    let floor = min_int(floor_pct as int, 100);
    let rise = (value - min_brightness) * (100 - floor);
    let span = max_brightness - min_brightness;
    let q = rise / span;
    assert(level == floor + q);
    lemma_fundamental_div_mod(rise, span);
    vstd::arithmetic::div_mod::lemma_mod_bound(rise, span);
    assert((level - floor) * span == span * q) by (nonlinear_arith)
        requires
            level - floor == q,
    ;
    assert((level - floor + 1) * span == span * q + span) by (nonlinear_arith)
        requires
            level - floor == q,
    ;
}

/// The backlight rises with the envelope: of two readings of the same
/// breath, the brighter envelope never gives the dimmer backlight.
pub proof fn lemma_backlight_level_monotone(
    t1: u32,
    t2: u32,
    period_ms: u32,
    min_brightness: u8,
    max_brightness: u8,
    floor_pct: u8,
)
    requires
        smooth_brightness_of(t1, period_ms, min_brightness, max_brightness) <= smooth_brightness_of(
            t2,
            period_ms,
            min_brightness,
            max_brightness,
        ),
    ensures
        backlight_level_of(t1, period_ms, min_brightness, max_brightness, floor_pct)
            <= backlight_level_of(t2, period_ms, min_brightness, max_brightness, floor_pct),
{
    let lo = envelope_floor(min_brightness, max_brightness);
    let span = max_brightness - lo;
    if span != 0 {
        lemma_smooth_brightness_bounds(t1, period_ms, min_brightness, max_brightness);
        lemma_smooth_brightness_bounds(t2, period_ms, min_brightness, max_brightness);
        let floor = min_int(floor_pct as int, 100);
        let v1 = smooth_brightness_of(t1, period_ms, min_brightness, max_brightness);
        let v2 = smooth_brightness_of(t2, period_ms, min_brightness, max_brightness);
        let room = 100 - floor;
        assert((v1 - lo) * room <= (v2 - lo) * room) by (nonlinear_arith)
            requires
                v1 <= v2,
                room >= 0,
        ;
        lemma_div_is_ordered((v1 - lo) * room, (v2 - lo) * room, span);
    }
}

/// The backlight reaches full brightness exactly at the envelope's peak:
/// below the peak it stays under 100 (unless its floor is already 100), and
/// at the peak it is 100.
pub proof fn lemma_backlight_level_full_only_at_peak(
    elapsed_ms: u32,
    period_ms: u32,
    min_brightness: u8,
    max_brightness: u8,
    floor_pct: u8,
)
    requires
        min_brightness < max_brightness,
    ensures
        ({
            let level = backlight_level_of(
                elapsed_ms,
                period_ms,
                min_brightness,
                max_brightness,
                floor_pct,
            );
            let value = smooth_brightness_of(elapsed_ms, period_ms, min_brightness, max_brightness);
            &&& value < max_brightness && floor_pct < 100 ==> level < 100
            &&& value == max_brightness ==> level == 100
        }),
{
    lemma_backlight_level_follows_envelope(
        elapsed_ms,
        period_ms,
        min_brightness,
        max_brightness,
        floor_pct,
    );
    let level = backlight_level_of(elapsed_ms, period_ms, min_brightness, max_brightness, floor_pct);
    let value = smooth_brightness_of(elapsed_ms, period_ms, min_brightness, max_brightness);
    let floor = min_int(floor_pct as int, 100);
    let room = 100 - floor;
    let span = max_brightness - min_brightness;
    let rise = (value - min_brightness) * room;
    lemma_smooth_brightness_bounds(elapsed_ms, period_ms, min_brightness, max_brightness);
    if value < max_brightness && floor_pct < 100 {
        assert(rise < span * room) by (nonlinear_arith)
            requires
                value - min_brightness < span,
                room > 0,
                rise == (value - min_brightness) * room,
        ;
        assert(level - floor < room) by (nonlinear_arith)
            requires
                (level - floor) * span <= rise,
                rise < span * room,
                span > 0,
        ;
    }
    if value == max_brightness {
        assert(rise == span * room) by (nonlinear_arith)
            requires
                value - min_brightness == span,
                rise == (value - min_brightness) * room,
        ;
        assert(level - floor == room) by (nonlinear_arith)
            requires
                (level - floor) * span <= rise,
                rise < (level - floor + 1) * span,
                rise == span * room,
                span > 0,
        ;
    }
}

/// A flat envelope holds the backlight at full brightness.
pub proof fn lemma_backlight_level_flat_is_full(
    elapsed_ms: u32,
    period_ms: u32,
    brightness: u8,
    floor_pct: u8,
)
    ensures
        backlight_level_of(elapsed_ms, period_ms, brightness, brightness, floor_pct) == 100,
{
}

/// An unchanged color never repaints; with a zero step any change does.
pub proof fn lemma_should_repaint_changes(last: Rgb, next: Rgb, step: u8)
    ensures
        !should_repaint_of(last, last, step),
        should_repaint_of(last, next, 0) == (last != next),
{
}

// ---------------------------------------------------------------------------
// Executable functions
// ---------------------------------------------------------------------------

/// Smooth sin² brightness envelope scaled to `[min_brightness, max_brightness]`.
/// A nonzero floor keeps the trough lit instead of fading fully to black.
pub fn smooth_brightness(elapsed_ms: u32, period_ms: u32, min_brightness: u8, max_brightness: u8) -> (r:
    u8)
    ensures
        r == smooth_brightness_of(elapsed_ms, period_ms, min_brightness, max_brightness),
{
    proof {
        lemma_smooth_brightness_bounds(elapsed_ms, period_ms, min_brightness, max_brightness);
    }
    let lo: u8 = if min_brightness <= max_brightness {
        min_brightness
    } else {
        max_brightness
    };
    let min = lo as u64;
    let scale = max_brightness as u64 - min;
    if scale == 0 {
        return lo;
    }
    let period: u64 = if period_ms >= 1 {
        period_ms as u64
    } else {
        1
    };
    let phase = (elapsed_ms as u64) % period;
    proof {
        lemma_fundamental_div_mod(elapsed_ms as int, period as int);
        lemma_multiply_divide_lt(phase * 65536, period as int, 65536);
        lemma_div_pos_is_pos(phase * 65536, period as int);
    }
    let fraction = phase * FIXED_POINT / period;
    let weight = hann_weight(fraction);
    proof {
        lemma_mul_upper_bound(scale as int, 255, weight as int, 65536);
    }
    (min + scale * weight / FIXED_POINT) as u8
}

/// Bhaskara approximation of sin²(π·u), fixed point at `FIXED_POINT`.
fn hann_weight(phase_fraction: u64) -> (r: u64)
    requires
        phase_fraction <= FIXED_POINT,
    ensures
        r == hann_weight_of(phase_fraction as int),
        r <= FIXED_POINT,
{
    proof {
        lemma_hann_bounds(phase_fraction as int);
    }
    let parabola = phase_fraction * (FIXED_POINT - phase_fraction) / FIXED_POINT;
    let bhaskara_sin = 16 * FIXED_POINT * parabola / (5 * FIXED_POINT - 4 * parabola);
    bhaskara_sin * bhaskara_sin / FIXED_POINT
}

/// Hue on a 256-step wheel, advancing linearly and wrapping every `period_ms`.
pub fn hue_phase(elapsed_ms: u32, period_ms: u32) -> (r: u8)
    ensures
        r == hue_phase_of(elapsed_ms, period_ms),
{
    proof {
        lemma_hue_phase_bounds(elapsed_ms, period_ms);
    }
    let period: u64 = if period_ms >= 1 {
        period_ms as u64
    } else {
        1
    };
    let phase = (elapsed_ms as u64) % period;
    proof {
        lemma_fundamental_div_mod(elapsed_ms as int, period as int);
    }
    let hue_tick = phase * 256 / period;
    hue_tick as u8
}

/// Convert HSV to RGB (256-step hue, 8-bit saturation/value).
pub fn hsv_to_rgb(hue: u8, saturation: u8, value: u8) -> (r: Rgb)
    ensures
        r == hsv_to_rgb_of(hue, saturation, value),
{
    let sat = saturation as u32;
    let val = value as u32;
    let x = hue as u32 * 6;
    let region = x / 256;
    let remainder = x % 256;
    proof {
        lemma_hsv_channels(sat as int, val as int, remainder as int);
    }
    let floor = val * (255 - sat) / 255;
    let ascending = val * (255 - sat * (255 - remainder) / 256) / 255;
    let descending = val * (255 - sat * remainder / 256) / 255;
    if region == 0 {
        Rgb(val as u8, ascending as u8, floor as u8)
    } else if region == 1 {
        Rgb(descending as u8, val as u8, floor as u8)
    } else if region == 2 {
        Rgb(floor as u8, val as u8, ascending as u8)
    } else if region == 3 {
        Rgb(floor as u8, descending as u8, val as u8)
    } else if region == 4 {
        Rgb(ascending as u8, floor as u8, val as u8)
    } else {
        Rgb(val as u8, floor as u8, descending as u8)
    }
}

/// Scale every `color` channel toward black by `brightness`/255.
pub fn scale_brightness(color: Rgb, brightness: u8) -> (r: Rgb)
    ensures
        r == scale_brightness_of(color, brightness),
{
    Rgb(
        scale_one(color.0, brightness),
        scale_one(color.1, brightness),
        scale_one(color.2, brightness),
    )
}

/// One channel of [`scale_brightness`].
fn scale_one(channel: u8, brightness: u8) -> (r: u8)
    ensures
        r == scale_channel(channel, brightness),
        r <= channel,
{
    proof {
        lemma_scaled_by_at_most_255(channel as int, brightness as int);
    }
    let scale = brightness as u16;
    (channel as u16 * scale / 255) as u8
}

/// Per-row brightness scale for [`Fill::VerticalGradient`]: `255` at the top
/// row fading to `0` at the bottom.
pub fn vertical_brightness(row: u16, height: u16) -> (r: u8)
    ensures
        r == vertical_brightness_of(row, height),
{
    if height <= 1 {
        return 255;
    }
    let denominator = height as u32 - 1;
    let clamped = if (row as u32) <= denominator {
        row as u32
    } else {
        denominator
    };
    let numerator = denominator - clamped;
    proof {
        lemma_mul_inequality(numerator as int, denominator as int, 255);
        assert(255 * numerator == numerator * 255) by (nonlinear_arith);
        assert(255 * denominator == denominator * 255) by (nonlinear_arith);
        lemma_multiply_divide_le(255 * numerator, denominator as int, 255);
        lemma_div_pos_is_pos(255 * numerator, denominator as int);
    }
    (255u32 * numerator / denominator) as u8
}

/// Soft color-graduated breathing light at `elapsed_ms`. The hue path is picked
/// by `group_len`, see `group_hue`; `base_hue`/`hue_span` drive the sweep when
/// the group is unused. `hue_span == 0` holds a static color, making standalone
/// a parameter value rather than a branch.
pub fn breathe(
    elapsed_ms: u32,
    breath_period_ms: u32,
    hue_period_ms: u32,
    hue_span: u8,
    min_brightness: u8,
    max_brightness: u8,
    saturation: u8,
    base_hue: u8,
    group: [u8; GROUP_CAPACITY],
    group_len: u8,
) -> (r: Rgb)
    requires
        group_len <= GROUP_CAPACITY,
    ensures
        r == hsv_to_rgb_of(
            group_hue_of(elapsed_ms, hue_period_ms, hue_span, base_hue, group@, group_len) as u8,
            saturation,
            smooth_brightness_of(elapsed_ms, breath_period_ms, min_brightness, max_brightness)
                as u8,
        ),
{
    let value = smooth_brightness(elapsed_ms, breath_period_ms, min_brightness, max_brightness);
    let hue = group_hue(elapsed_ms, hue_period_ms, hue_span, base_hue, group, group_len);
    hsv_to_rgb(hue, saturation, value)
}

/// Hue at `elapsed_ms` along the configured path:
/// `group_len == 0` walks the `hue`/`hue_span` sweep (`0` span holds
/// `base_hue`); `group_len == 1` holds `group[0]`; `group_len >= 2` rotates
/// through the waypoints, walking each adjacent pair over
/// `hue_period_ms / group_len` and wrapping the last back to the first.
pub fn group_hue(
    elapsed_ms: u32,
    hue_period_ms: u32,
    hue_span: u8,
    base_hue: u8,
    group: [u8; GROUP_CAPACITY],
    group_len: u8,
) -> (r: u8)
    requires
        group_len <= GROUP_CAPACITY,
    ensures
        r == group_hue_of(elapsed_ms, hue_period_ms, hue_span, base_hue, group@, group_len),
{
    if group_len == 0 {
        let offset = hue_offset(hue_span, hue_period_ms, elapsed_ms);
        return ((base_hue as u16 + offset as u16) % 256) as u8;
    }
    if group_len == 1 {
        return group[0];
    }
    let (waypoint, fraction) = rotation_position(elapsed_ms, hue_period_ms, group_len);
    let next = (waypoint + 1) % group_len;
    arc_step(group[waypoint as usize], group[next as usize], fraction)
}

/// Current leg and 256-step progress through it of a waypoint rotation.
fn rotation_position(elapsed_ms: u32, hue_period_ms: u32, group_len: u8) -> (r: (u8, u32))
    requires
        2 <= group_len <= GROUP_CAPACITY,
    ensures
        r.0 == rotation_waypoint(elapsed_ms, hue_period_ms, group_len),
        r.1 == rotation_fraction(elapsed_ms, hue_period_ms, group_len),
        r.0 < group_len,
        r.1 < 256,
{
    let len = group_len as u32;
    let quotient = hue_period_ms / len;
    let leg: u32 = if quotient >= 1 {
        quotient
    } else {
        1
    };
    proof {
        lemma_fundamental_div_mod(hue_period_ms as int, len as int);
        let rem = hue_period_ms as int % len as int;
        assert(quotient * len <= hue_period_ms) by (nonlinear_arith)
            requires
                hue_period_ms == len * quotient + rem,
                0 <= rem,
        ;
        assert((leg * len <= hue_period_ms || leg * len <= 7) && leg * len >= 2) by (nonlinear_arith)
            requires
                quotient * len <= hue_period_ms,
                leg == quotient || (leg == 1 && quotient == 0),
                leg >= 1,
                2 <= len <= 7,
        ;
    }
    let cycle_ms = leg * len;
    let t = elapsed_ms % cycle_ms;
    proof {
        lemma_fundamental_div_mod(elapsed_ms as int, cycle_ms as int);
        lemma_multiply_divide_lt(t as int, leg as int, len as int);
        lemma_div_pos_is_pos(t as int, leg as int);
    }
    let waypoint = t / leg;
    let segment_ms = t % leg;
    proof {
        lemma_fundamental_div_mod(t as int, leg as int);
        lemma_multiply_divide_lt(segment_ms * 256, leg as int, 256);
        lemma_div_pos_is_pos(segment_ms * 256, leg as int);
    }
    let fraction = (segment_ms as u64) * 256 / (leg as u64);
    (waypoint as u8, fraction as u32)
}

/// Walk `fraction / 256` of the shortest arc from hue `from` to hue `to`.
fn arc_step(from: u8, to: u8, fraction: u32) -> (r: u8)
    requires
        fraction < 256,
    ensures
        r == (from + div_toward_zero(hue_arc(from as int, to as int) * fraction, 256)) % 256,
{
    let from = from as i32;
    let to = to as i32;
    let delta = (to - from + 384) % 256 - 128;
    let hue: i32 = if delta >= 0 {
        proof {
            lemma_mul_upper_bound(delta as int, 127, fraction as int, 255);
        }
        from + ((delta as u32) * fraction / 256) as i32
    } else {
        proof {
            lemma_mul_upper_bound(-delta, 128, fraction as int, 255);
            assert((-delta) * fraction == -(delta * fraction)) by (nonlinear_arith);
        }
        from - (((0 - delta) as u32) * fraction / 256) as i32
    };
    (((hue + 256) as u32) % 256) as u8
}

/// Hue sweep offset in `[0, hue_span]`, replaying the span over `hue_period_ms`.
/// A zero span or a degenerate period holds the offset still.
pub fn hue_offset(hue_span: u8, hue_period_ms: u32, elapsed_ms: u32) -> (r: u8)
    ensures
        r == hue_offset_of(hue_span, hue_period_ms, elapsed_ms),
{
    proof {
        lemma_hue_offset_bounds(hue_span, hue_period_ms, elapsed_ms);
    }
    if hue_span == 0 || hue_period_ms == 0 {
        return 0;
    }
    let phase = hue_phase(elapsed_ms, hue_period_ms);
    proof {
        lemma_mul_upper_bound(hue_span as int, 255, phase as int, 255);
    }
    (hue_span as u32 * phase as u32 / 256) as u8
}

/// Backlight duty for the breathing envelope at `elapsed_ms`: the same
/// `[min_brightness, max_brightness]` wave the pixels ride, remapped to
/// `[floor_pct, 100]` percent so the panel follows the pixels instead of
/// switching binary on/off. A degenerate flat envelope holds full brightness.
pub fn backlight_level(
    elapsed_ms: u32,
    period_ms: u32,
    min_brightness: u8,
    max_brightness: u8,
    floor_pct: u8,
) -> (r: u8)
    ensures
        r == backlight_level_of(elapsed_ms, period_ms, min_brightness, max_brightness, floor_pct),
{
    let min: u32 = if min_brightness <= max_brightness {
        min_brightness as u32
    } else {
        max_brightness as u32
    };
    let max = max_brightness as u32;
    let span = max - min;
    if span == 0 {
        return 100;
    }
    let value = smooth_brightness(elapsed_ms, period_ms, min_brightness, max_brightness) as u32;
    proof {
        lemma_smooth_brightness_bounds(elapsed_ms, period_ms, min_brightness, max_brightness);
    }
    let floor: u32 = if floor_pct <= 100 {
        floor_pct as u32
    } else {
        100
    };
    let room = 100 - floor;
    proof {
        lemma_mul_inequality((value - min) as int, span as int, room as int);
        assert(span * room == room * span) by (nonlinear_arith);
        lemma_multiply_divide_le((value - min) * room, span as int, room as int);
        assert(0 <= (value - min) * room) by (nonlinear_arith)
            requires
                value >= min,
                room >= 0,
        ;
        lemma_div_pos_is_pos((value - min) * room, span as int);
        lemma_mul_upper_bound((value - min) as int, 255, room as int, 100);
    }
    (floor + (value - min) * room / span) as u8
}

/// Absolute difference of two channels.
fn abs_diff(a: u8, b: u8) -> (r: u8)
    ensures
        r == channel_delta(a, b),
{
    if a >= b {
        a - b
    } else {
        b - a
    }
}

/// Whether `next` differs from `last` enough to repaint a slow refresh surface.
/// Any channel moving by at least `step` counts as a visible change; `step == 0`
/// repaints on every difference, so an Off-to-idle transition always goes out.
pub fn should_repaint(last: Rgb, next: Rgb, step: u8) -> (r: bool)
    ensures
        r == should_repaint_of(last, next, step),
{
    if last == next {
        return false;
    }
    abs_diff(last.0, next.0) >= step || abs_diff(last.1, next.1) >= step || abs_diff(last.2, next.2)
        >= step
}

} // verus!
