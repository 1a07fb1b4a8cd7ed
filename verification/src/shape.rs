//! Shaping an averaged color into the color a light is set to.
//!
//! With the averaged channels `a` taken as fractions of 255, intensity `i`
//! and brightness `b`, the light's channel is
//!
//! ```text
//!     255 · b · (i·a)^1.5 / sqrt((i·red)³ + (i·green)³ + (i·blue)³)
//! ```
//!
//! rounded down and cut to 0..=255; a color without any weight stays black.
//! The exponent 1.5 deepens the contrast between dim and bright channels, and
//! the division brings the curved color to unit length, so that a light shows
//! the hue of its cell at full strength whatever the cell's brightness was.
//!
//! Nothing here takes a root. The square of the value above is a quotient of
//! two integers, and the largest `k` whose square does not exceed that
//! quotient is the value rounded down.

use vstd::prelude::*;
use crate::color::Color;
use crate::config::Level;

verus! {

/// A channel average after the input-side multiplier, in units of
/// 1/(255 · 1000).
pub open spec fn intensified(average: int, intensity: Level) -> int {
    intensity.thousandths * average
}

/// The square of `x` raised to one and a half: its cube.
pub open spec fn curved_square(x: int) -> int {
    x * x * x
}

/// The squared weight of one channel after intensity and curve.
pub open spec fn channel_weight(average: int, intensity: Level) -> int {
    curved_square(intensified(average, intensity))
}

/// The squared length of the curved color.
pub open spec fn norm_square(c: Color, intensity: Level) -> int {
    channel_weight(c.red as int, intensity) + channel_weight(c.green as int, intensity)
        + channel_weight(c.blue as int, intensity)
}

/// Numerator of the squared output of a channel with squared weight `weight`.
pub open spec fn output_numerator(weight: int, brightness: Level) -> int {
    65025 * (brightness.thousandths * brightness.thousandths) * weight
}

/// Denominator of the squared output of every channel of a color with
/// squared length `norm`.
pub open spec fn output_denominator(norm: int) -> int {
    1000000 * norm
}

/// The square of `k` does not exceed `num / den`.
pub open spec fn square_within(k: int, num: int, den: int) -> bool {
    k * k * den <= num
}

/// The largest `k` in `0..=limit` whose square does not exceed `num / den`.
pub open spec fn highest_root(limit: nat, num: int, den: int) -> nat
    decreases limit,
{
    if limit == 0 {
        0
    } else if square_within(limit as int, num, den) {
        limit
    } else {
        highest_root((limit - 1) as nat, num, den)
    }
}

/// What one channel of a light is set to, for a cell averaging to `c`, where
/// `average` is that channel of `c`.
pub open spec fn shaped_channel(average: int, c: Color, brightness: Level, intensity: Level) -> u8 {
    if norm_square(c, intensity) == 0 {
        0
    } else {
        highest_root(
            255,
            output_numerator(channel_weight(average, intensity), brightness),
            output_denominator(norm_square(c, intensity)),
        ) as u8
    }
}

/// What a light is set to for a cell averaging to `c`.
pub open spec fn shaped(c: Color, brightness: Level, intensity: Level) -> Color {
    Color {
        red: shaped_channel(c.red as int, c, brightness, intensity),
        green: shaped_channel(c.green as int, c, brightness, intensity),
        blue: shaped_channel(c.blue as int, c, brightness, intensity),
    }
}

/// If the square of `k + 1` is within a quotient, so is the square of `k`.
pub proof fn square_within_is_downward_closed(k: int, num: int, den: int)
    requires
        k >= 0,
        den >= 0,
        square_within(k + 1, num, den),
    ensures
        square_within(k, num, den),
{
    assert(k * k * den <= (k + 1) * (k + 1) * den) by (nonlinear_arith)
        requires
            k >= 0,
            den >= 0,
    ;
}

/// Above a root whose successor is too large, every root is too large.
pub proof fn nothing_within_above(k: int, j: int, num: int, den: int)
    requires
        0 <= k < j,
        den >= 0,
        !square_within(k + 1, num, den),
    ensures
        !square_within(j, num, den),
    decreases j - k,
{
    if j > k + 1 {
        nothing_within_above(k, j - 1, num, den);
        if square_within(j, num, den) {
            square_within_is_downward_closed(j - 1, num, den);
        }
    }
}

/// A root within the quotient whose successor is not, or which is the limit
/// itself, is the highest root.
pub proof fn highest_root_found(limit: nat, k: int, num: int, den: int)
    requires
        0 <= k <= limit,
        den >= 0,
        square_within(k, num, den),
        k == limit || !square_within(k + 1, num, den),
    ensures
        highest_root(limit, num, den) == k,
    decreases limit,
{
    if limit > k {
        nothing_within_above(k, limit as int, num, den);
        highest_root_found((limit - 1) as nat, k, num, den);
    }
}

/// Finds the largest channel value whose square does not exceed
/// `num / den`.
pub fn highest_channel_level(num: u128, den: u128) -> (level: u8)
    requires
        65025 * den <= u128::MAX,
    ensures
        level as nat == highest_root(255, num as int, den as int),
{
    let mut low: u128 = 0;
    let mut high: u128 = 256;
    assert(square_within(0, num as int, den as int)) by (nonlinear_arith);
    while high - low > 1
        invariant
            65025 * den <= u128::MAX,
            0 <= low < high <= 256,
            square_within(low as int, num as int, den as int),
            high == 256 || !square_within(high as int, num as int, den as int),
        decreases high - low,
    {
        let mid: u128 = (low + high) / 2;
        assert(mid * mid <= 65025 && mid * mid * den <= 65025 * den) by (nonlinear_arith)
            requires
                0 <= mid <= 255,
                den >= 0,
        ;
        if mid * mid * den <= num {
            low = mid;
        } else {
            high = mid;
        }
    }
    proof {
        highest_root_found(255, low as int, num as int, den as int);
    }
    low as u8
}

/// The bounds within which the shaping arithmetic stays.
pub proof fn shaping_stays_in_bounds(average: int, c: Color, brightness: Level, intensity: Level)
    requires
        brightness.wf(),
        intensity.wf(),
        0 <= average <= 255,
    ensures
        0 <= intensified(average, intensity) <= 255000,
        0 <= channel_weight(average, intensity) <= 16581375000000000,
        0 <= norm_square(c, intensity) <= 49744125000000000,
        0 <= output_numerator(channel_weight(average, intensity), brightness)
            <= 1078203909375000000000000000,
        0 <= output_denominator(norm_square(c, intensity)) <= 49744125000000000000000,
        0 <= brightness.thousandths * brightness.thousandths <= 1000000,
{
    weight_is_bounded(average, intensity);
    weight_is_bounded(c.red as int, intensity);
    weight_is_bounded(c.green as int, intensity);
    weight_is_bounded(c.blue as int, intensity);
    let w = channel_weight(average, intensity);
    let b = brightness.thousandths as int;
    assert(0 <= b * b <= 1000000) by (nonlinear_arith)
        requires
            0 <= b <= 1000,
    ;
    let bb = b * b;
    assert(0 <= 65025 * bb * w <= 1078203909375000000000000000) by (nonlinear_arith)
        requires
            0 <= bb <= 1000000,
            0 <= w <= 16581375000000000,
    ;
}

/// The squared weight of a channel is at most that of a full channel at full
/// intensity.
pub proof fn weight_is_bounded(average: int, intensity: Level)
    requires
        intensity.wf(),
        0 <= average <= 255,
    ensures
        0 <= intensified(average, intensity) <= 255000,
        0 <= channel_weight(average, intensity) <= 16581375000000000,
{
    let i = intensity.thousandths as int;
    let x = i * average;
    assert(0 <= x <= 255000) by (nonlinear_arith)
        requires
            x == i * average,
            0 <= i <= 1000,
            0 <= average <= 255,
    ;
    assert(0 <= x * x * x <= 16581375000000000) by (nonlinear_arith)
        requires
            0 <= x <= 255000,
    ;
}

/// Computes the squared weight of one channel.
pub fn weigh_channel(average: u8, intensity: Level) -> (w: u128)
    requires
        intensity.wf(),
    ensures
        w as int == channel_weight(average as int, intensity),
{
    proof {
        weight_is_bounded(average as int, intensity);
    }
    let x: u128 = intensity.thousandths as u128 * average as u128;
    assert(x * x <= 255000 * 255000) by (nonlinear_arith)
        requires
            0 <= x <= 255000,
    ;
    x * x * x
}

/// Shapes the averaged color of a cell into the color of its light.
pub fn shape_color(average: Color, brightness: Level, intensity: Level) -> (out: Color)
    requires
        brightness.wf(),
        intensity.wf(),
    ensures
        out == shaped(average, brightness, intensity),
        average == Color::black() ==> out == Color::black(),
{
    proof {
        black_stays_black(brightness, intensity);
    }
    let red = weigh_channel(average.red, intensity);
    let green = weigh_channel(average.green, intensity);
    let blue = weigh_channel(average.blue, intensity);
    proof {
        shaping_stays_in_bounds(average.red as int, average, brightness, intensity);
        shaping_stays_in_bounds(average.green as int, average, brightness, intensity);
        shaping_stays_in_bounds(average.blue as int, average, brightness, intensity);
    }
    let norm: u128 = red + green + blue;
    if norm == 0 {
        return Color { red: 0, green: 0, blue: 0 };
    }
    let den: u128 = 1000000 * norm;
    let gain: u128 = 65025 * (brightness.thousandths as u128 * brightness.thousandths as u128);
    Color {
        red: highest_channel_level(gain * red, den),
        green: highest_channel_level(gain * green, den),
        blue: highest_channel_level(gain * blue, den),
    }
}

/// A cell whose samples are all black gives a dark light: no division by the
/// zero length is attempted.
pub proof fn black_stays_black(brightness: Level, intensity: Level)
    ensures
        shaped(Color::black(), brightness, intensity) == Color::black(),
{
    assert(intensified(0, intensity) == 0) by (nonlinear_arith)
        requires
            intensified(0, intensity) == intensity.thousandths * 0,
    ;
    assert(channel_weight(0, intensity) == 0);
}

/// No channel ever leaves the 8-bit range: for every color with some weight,
/// already the value before the cut is below 256, so that the cut changes
/// nothing and nothing wraps.
pub proof fn output_never_exceeds_full_channel(
    average: int,
    c: Color,
    brightness: Level,
    intensity: Level,
)
    requires
        brightness.wf(),
        intensity.wf(),
        average == c.red || average == c.green || average == c.blue,
        norm_square(c, intensity) > 0,
    ensures
        forall|k: int|
            k > 255 ==> !#[trigger] square_within(
                k,
                output_numerator(channel_weight(average, intensity), brightness),
                output_denominator(norm_square(c, intensity)),
            ),
{
    let w = channel_weight(average, intensity);
    let norm = norm_square(c, intensity);
    let num = output_numerator(w, brightness);
    let den = output_denominator(norm);
    weight_is_bounded(c.red as int, intensity);
    weight_is_bounded(c.green as int, intensity);
    weight_is_bounded(c.blue as int, intensity);
    assert(0 <= w <= norm);
    let b = brightness.thousandths as int;
    assert(65025 * (b * b) * w <= 65025 * (1000000 * norm)) by (nonlinear_arith)
        requires
            0 <= b <= 1000,
            0 <= w <= norm,
    ;
    assert(!square_within(256, num, den));
    assert forall|k: int| k > 255 implies !#[trigger] square_within(k, num, den) by {
        if k > 256 {
            nothing_within_above(255, k, num, den);
        }
    }
}

/// Scaling numerator and denominator alike changes no comparison.
pub proof fn square_within_scales(k: int, num: int, den: int, factor: int)
    requires
        factor > 0,
    ensures
        square_within(k, factor * num, factor * den) == square_within(k, num, den),
{
    assert(k * k * (factor * den) == factor * (k * k * den)) by (nonlinear_arith);
    assert((factor * (k * k * den) <= factor * num) == (k * k * den <= num)) by (nonlinear_arith)
        requires
            factor > 0,
    ;
}

/// Quotients that admit the same squares have the same highest root.
pub proof fn highest_root_agrees(limit: nat, num_a: int, den_a: int, num_b: int, den_b: int)
    requires
        forall|k: int|
            0 < k <= limit ==> #[trigger] square_within(k, num_a, den_a) == square_within(
                k,
                num_b,
                den_b,
            ),
    ensures
        highest_root(limit, num_a, den_a) == highest_root(limit, num_b, den_b),
    decreases limit,
{
    if limit > 0 {
        assert(square_within(limit as int, num_a, den_a) == square_within(
            limit as int,
            num_b,
            den_b,
        ));
        highest_root_agrees((limit - 1) as nat, num_a, den_a, num_b, den_b);
    }
}

/// The squared channel weight is the cube of the intensity times the cube of
/// the average.
pub proof fn weight_factors(average: int, intensity: Level)
    ensures
        channel_weight(average, intensity) == curved_square(intensity.thousandths as int)
            * curved_square(average),
{
    let i = intensity.thousandths as int;
    assert((i * average) * (i * average) * (i * average) == (i * i * i) * (average * average
        * average)) by (nonlinear_arith);
}

/// Any intensity above zero gives the same light: bringing the color to unit
/// length undoes a factor that all channels share.
pub proof fn intensity_cancels(c: Color, brightness: Level, intensity: Level)
    requires
        intensity.thousandths > 0,
    ensures
        shaped(c, brightness, intensity) == shaped(c, brightness, Level::full_level()),
{
    shaped_channel_ignores_intensity(c.red as int, c, brightness, intensity);
    shaped_channel_ignores_intensity(c.green as int, c, brightness, intensity);
    shaped_channel_ignores_intensity(c.blue as int, c, brightness, intensity);
}

/// One channel of `intensity_cancels`.
pub proof fn shaped_channel_ignores_intensity(
    average: int,
    c: Color,
    brightness: Level,
    intensity: Level,
)
    requires
        intensity.thousandths > 0,
    ensures
        shaped_channel(average, c, brightness, intensity) == shaped_channel(
            average,
            c,
            brightness,
            Level::full_level(),
        ),
{
    channel_scales_from_unit(average, c, brightness, intensity);
    channel_scales_from_unit(average, c, brightness, Level::full_level());
}

/// A channel shaped at some intensity above zero equals the channel shaped at
/// the smallest intensity above zero.
pub proof fn channel_scales_from_unit(average: int, c: Color, brightness: Level, intensity: Level)
    requires
        intensity.thousandths > 0,
    ensures
        shaped_channel(average, c, brightness, intensity) == shaped_channel(
            average,
            c,
            brightness,
            Level { thousandths: 1 },
        ),
{
    let unit = Level { thousandths: 1 };
    let i = intensity.thousandths as int;
    let f = curved_square(i);
    assert(f > 0) by (nonlinear_arith)
        requires
            f == i * i * i,
            i > 0,
    ;
    assert(curved_square(1) == 1);
    weight_factors(average, intensity);
    weight_factors(c.red as int, intensity);
    weight_factors(c.green as int, intensity);
    weight_factors(c.blue as int, intensity);
    weight_factors(average, unit);
    weight_factors(c.red as int, unit);
    weight_factors(c.green as int, unit);
    weight_factors(c.blue as int, unit);
    let w1 = channel_weight(average, unit);
    let n1 = norm_square(c, unit);
    let w = channel_weight(average, intensity);
    let n = norm_square(c, intensity);
    assert(w1 == curved_square(average));
    assert(w == f * w1);
    assert(n == f * n1) by (nonlinear_arith)
        requires
            n == f * curved_square(c.red as int) + f * curved_square(c.green as int) + f
                * curved_square(c.blue as int),
            n1 == curved_square(c.red as int) + curved_square(c.green as int) + curved_square(
                c.blue as int,
            ),
    ;
    assert((n == 0) == (n1 == 0)) by (nonlinear_arith)
        requires
            n == f * n1,
            f > 0,
    ;
    if n != 0 {
        let b = brightness.thousandths as int;
        let num1 = output_numerator(w1, brightness);
        let den1 = output_denominator(n1);
        assert(output_numerator(w, brightness) == f * num1) by (nonlinear_arith)
            requires
                output_numerator(w, brightness) == 65025 * (b * b) * w,
                num1 == 65025 * (b * b) * w1,
                w == f * w1,
        ;
        assert(output_denominator(n) == f * den1) by (nonlinear_arith)
            requires
                output_denominator(n) == 1000000 * n,
                den1 == 1000000 * n1,
                n == f * n1,
        ;
        assert forall|k: int| 0 < k <= 255 implies #[trigger] square_within(
            k,
            f * num1,
            f * den1,
        ) == square_within(k, num1, den1) by {
            square_within_scales(k, num1, den1, f);
        }
        highest_root_agrees(255, f * num1, f * den1, num1, den1);
    }
}

/// The squares of the three channels of a light never add up to more than
/// the square of a full channel: the shaped color has at most unit length.
pub proof fn shaped_color_is_at_most_unit_length(c: Color, brightness: Level, intensity: Level)
    requires
        brightness.wf(),
        intensity.wf(),
    ensures
        ({
            let out = shaped(c, brightness, intensity);
            out.red * out.red + out.green * out.green + out.blue * out.blue <= 65025
        }),
{
    let out = shaped(c, brightness, intensity);
    let norm = norm_square(c, intensity);
    weight_is_bounded(c.red as int, intensity);
    weight_is_bounded(c.green as int, intensity);
    weight_is_bounded(c.blue as int, intensity);
    if norm > 0 {
        let den = output_denominator(norm);
        let wr = channel_weight(c.red as int, intensity);
        let wg = channel_weight(c.green as int, intensity);
        let wb = channel_weight(c.blue as int, intensity);
        let r = out.red as int;
        let g = out.green as int;
        let bl = out.blue as int;
        highest_root_is_within(255, output_numerator(wr, brightness), den);
        highest_root_is_within(255, output_numerator(wg, brightness), den);
        highest_root_is_within(255, output_numerator(wb, brightness), den);
        let b = brightness.thousandths as int;
        let bb = b * b;
        assert(0 <= bb <= 1000000) by (nonlinear_arith)
            requires
                bb == b * b,
                0 <= b <= 1000,
        ;
        assert(r * r + g * g + bl * bl <= 65025) by (nonlinear_arith)
            requires
                r * r * (1000000 * norm) <= 65025 * bb * wr,
                g * g * (1000000 * norm) <= 65025 * bb * wg,
                bl * bl * (1000000 * norm) <= 65025 * bb * wb,
                norm == wr + wg + wb,
                norm > 0,
                0 <= bb <= 1000000,
        ;
    }
}

/// The highest root is bounded by the limit and its square is within the
/// quotient, whenever the quotient is not negative.
pub proof fn highest_root_is_within(limit: nat, num: int, den: int)
    requires
        num >= 0,
    ensures
        highest_root(limit, num, den) <= limit,
        square_within(highest_root(limit, num, den) as int, num, den),
    decreases limit,
{
    if limit > 0 {
        highest_root_is_within((limit - 1) as nat, num, den);
    } else {
        assert(0 * 0 * den == 0) by (nonlinear_arith);
    }
}

} // verus!
