//! The hue of an image: the angle of its mean colour on the colour wheel,
//! kept in millionths of a degree and always within one full turn.

use crate::error::InvalidInput;
use crate::order::Comparison;
use crate::raster::{all_pixels_are, lemma_pixel_channels, RasterImage};
use std::cmp::Ordering;
use vstd::arithmetic::div_mod::{lemma_fundamental_div_mod, lemma_fundamental_div_mod_converse};
use vstd::prelude::*;

verus! {

/// Millionths of a degree in one degree.
pub const UNITS_PER_DEGREE: u32 = 1_000_000;

/// Millionths of a degree in a full turn.
pub const FULL_TURN: u32 = 360_000_000;

/// The largest channel total that [`Hue::from_channel_sums`] takes: what
/// 2^64 pixels of full intensity add up to.
pub const MAX_CHANNEL_SUM: u128 = 0xff_0000_0000_0000_0000;

/// The largest of three numbers.
pub open spec fn max3(a: int, b: int, c: int) -> int {
    if a >= b && a >= c {
        a
    } else if b >= c {
        b
    } else {
        c
    }
}

/// The smallest of three numbers.
pub open spec fn min3(a: int, b: int, c: int) -> int {
    if a <= b && a <= c {
        a
    } else if b <= c {
        b
    } else {
        c
    }
}

/// The hue angle of the colour `(r, g, b)` by the hexagonal formula, in
/// millionths of a degree rounded down, before normalization: between
/// -60° and 300°. A colour without chroma has hue 0. Only the ratios of
/// the channels matter, so totals stand for means.
pub open spec fn raw_hue(r: int, g: int, b: int) -> int {
    let hi = max3(r, g, b);
    let d = hi - min3(r, g, b);
    if d == 0 {
        0
    } else if hi == r {
        (60_000_000 * (g - b)) / d
    } else if hi == g {
        120_000_000 + (60_000_000 * (b - r)) / d
    } else {
        240_000_000 + (60_000_000 * (r - g)) / d
    }
}

/// An angle in millionths of a degree, wrapped into one full turn.
pub open spec fn normalized(raw: int) -> int {
    raw % 360_000_000
}

/// The total of channel `c` (0 red, 1 green, 2 blue) over the first `n`
/// pixels of an RGB buffer.
pub open spec fn channel_sum(rgb: Seq<u8>, c: int, n: nat) -> int
    decreases n,
{
    if n == 0 {
        0
    } else {
        channel_sum(rgb, c, (n - 1) as nat) + rgb[3 * (n - 1) + c]
    }
}

/// The hue of an RGB buffer: the normalized hue of its mean colour.
pub open spec fn hue_of(rgb: Seq<u8>) -> int {
    let n = (rgb.len() / 3) as nat;
    normalized(raw_hue(channel_sum(rgb, 0, n), channel_sum(rgb, 1, n), channel_sum(rgb, 2, n)))
}

/// Normalization yields an angle within one full turn, ignores whole
/// turns, and leaves an angle that is already within one turn as it is.
pub proof fn lemma_normalized_wraps(raw: int, turns: int)
    ensures
        0 <= normalized(raw) < 360_000_000,
        normalized(raw + turns * 360_000_000) == normalized(raw),
        0 <= raw < 360_000_000 ==> normalized(raw) == raw,
{
    lemma_fundamental_div_mod(raw, 360_000_000);
    let q = raw / 360_000_000;
    let m = raw % 360_000_000;
    assert(raw + turns * 360_000_000 == (q + turns) * 360_000_000 + m) by (nonlinear_arith)
        requires
            raw == 360_000_000 * q + m,
    ;
    lemma_fundamental_div_mod_converse(raw + turns * 360_000_000, 360_000_000, q + turns, m);
    if 0 <= raw < 360_000_000 {
        lemma_fundamental_div_mod_converse(raw, 360_000_000, 0, raw);
    }
}

/// A quotient keeps its value when both sides are scaled alike.
pub proof fn lemma_div_scaled(a: int, d: int, k: int)
    requires
        d > 0,
        k > 0,
    ensures
        (k * a) / (k * d) == a / d,
{
    lemma_fundamental_div_mod(a, d);
    let q = a / d;
    let m = a % d;
    assert(k * a == q * (k * d) + k * m && 0 <= k * m < k * d) by (nonlinear_arith)
        requires
            a == d * q + m,
            0 <= m < d,
            k > 0,
    ;
    lemma_fundamental_div_mod_converse(k * a, k * d, q, k * m);
}

/// The quotient of the hue formula lies between -60° and 60°.
pub proof fn lemma_sector_offset_range(x: int, y: int, d: int)
    requires
        d > 0,
        x - y <= d,
        y - x <= d,
    ensures
        -60_000_000 <= (60_000_000 * (x - y)) / d <= 60_000_000,
{
    let a = 60_000_000 * (x - y);
    lemma_fundamental_div_mod(a, d);
    let q = a / d;
    let m = a % d;
    assert(-60_000_000 <= q <= 60_000_000) by (nonlinear_arith)
        requires
            a == d * q + m,
            0 <= m < d,
            -60_000_000 * d <= a <= 60_000_000 * d,
    ;
}

/// The hue of a colour lies between -60° and 300° before normalization.
pub proof fn lemma_raw_hue_range(r: int, g: int, b: int)
    ensures
        -60_000_000 <= raw_hue(r, g, b) <= 300_000_000,
{
    let hi = max3(r, g, b);
    let d = hi - min3(r, g, b);
    if d != 0 {
        if hi == r {
            lemma_sector_offset_range(g, b, d);
        } else if hi == g {
            lemma_sector_offset_range(b, r, d);
        } else {
            lemma_sector_offset_range(r, g, d);
        }
    }
}

/// The hue depends on the proportion of the channels only: scaling all
/// three by the same positive factor leaves it unchanged. So the hue of
/// the channel totals is the hue of the channel means.
pub proof fn lemma_hue_scale_invariant(r: int, g: int, b: int, k: int)
    requires
        k > 0,
    ensures
        raw_hue(k * r, k * g, k * b) == raw_hue(r, g, b),
{
    assert(((k * r >= k * g) <==> (r >= g)) && ((k * r >= k * b) <==> (r >= b)) && ((k * g >= k
        * b) <==> (g >= b))) by (nonlinear_arith)
        requires
            k > 0,
    ;
    let hi = max3(r, g, b);
    let lo = min3(r, g, b);
    let d = hi - lo;
    assert(max3(k * r, k * g, k * b) == k * hi);
    assert(min3(k * r, k * g, k * b) == k * lo);
    assert(k * hi - k * lo == k * d && ((k * d == 0) <==> (d == 0)) && ((k * hi == k * r) <==> (hi
        == r)) && ((k * hi == k * g) <==> (hi == g))) by (nonlinear_arith)
        requires
            k > 0,
            d == hi - lo,
    ;
    if d != 0 {
        assert(d > 0);
        assert(60_000_000 * (k * g - k * b) == k * (60_000_000 * (g - b)) && 60_000_000 * (k * b
            - k * r) == k * (60_000_000 * (b - r)) && 60_000_000 * (k * r - k * g) == k * (
        60_000_000 * (r - g))) by (nonlinear_arith);
        lemma_div_scaled(60_000_000 * (g - b), d, k);
        lemma_div_scaled(60_000_000 * (b - r), d, k);
        lemma_div_scaled(60_000_000 * (r - g), d, k);
    }
}

/// The primary colours lie a third of a turn apart: red at 0°, green at
/// 120° and blue at 240°, at any intensity.
pub proof fn lemma_primary_hues(k: int)
    requires
        k > 0,
    ensures
        normalized(raw_hue(k, 0, 0)) == 0,
        normalized(raw_hue(0, k, 0)) == 120_000_000,
        normalized(raw_hue(0, 0, k)) == 240_000_000,
{
    lemma_hue_scale_invariant(1, 0, 0, k);
    lemma_hue_scale_invariant(0, 1, 0, k);
    lemma_hue_scale_invariant(0, 0, 1, k);
    assert(k * 1 == k && k * 0 == 0) by (nonlinear_arith);
    assert(raw_hue(1, 0, 0) == 0);
    assert(raw_hue(0, 1, 0) == 120_000_000) by {
        lemma_fundamental_div_mod_converse(60_000_000 * (0 - 0), 1, 0, 0);
    }
    assert(raw_hue(0, 0, 1) == 240_000_000) by {
        lemma_fundamental_div_mod_converse(60_000_000 * (0 - 0), 1, 0, 0);
    }
    lemma_normalized_wraps(0, 0);
    lemma_normalized_wraps(120_000_000, 0);
    lemma_normalized_wraps(240_000_000, 0);
}

/// In a buffer of one colour each channel totals the colour's channel
/// times the number of pixels.
pub proof fn lemma_channel_sum_uniform(rgb: Seq<u8>, r: u8, g: u8, b: u8, n: nat)
    requires
        all_pixels_are(rgb, r, g, b),
        3 * n <= rgb.len(),
    ensures
        channel_sum(rgb, 0, n) == n * r,
        channel_sum(rgb, 1, n) == n * g,
        channel_sum(rgb, 2, n) == n * b,
    decreases n,
{
    if n == 0 {
        assert(n * r == 0 && n * g == 0 && n * b == 0) by (nonlinear_arith)
            requires
                n == 0,
        ;
    } else {
        let m = (n - 1) as nat;
        let p: int = m as int;
        lemma_channel_sum_uniform(rgb, r, g, b, m);
        lemma_pixel_channels(rgb, r, g, b, p);
        assert(channel_sum(rgb, 0, n) == channel_sum(rgb, 0, m) + rgb[3 * p + 0]);
        assert(channel_sum(rgb, 1, n) == channel_sum(rgb, 1, m) + rgb[3 * p + 1]);
        assert(channel_sum(rgb, 2, n) == channel_sum(rgb, 2, m) + rgb[3 * p + 2]);
        assert(n * r == m * r + r && n * g == m * g + g && n * b == m * b + b)
            by (nonlinear_arith)
            requires
                n == m + 1,
        ;
        assert(channel_sum(rgb, 0, n) == n * r);
        assert(channel_sum(rgb, 1, n) == n * g);
        assert(channel_sum(rgb, 2, n) == n * b);
    }
}

/// An image of one colour has the hue of that colour, whatever its size.
pub proof fn lemma_uniform_raster_hue(rgb: Seq<u8>, r: u8, g: u8, b: u8)
    requires
        rgb.len() >= 3,
        all_pixels_are(rgb, r, g, b),
    ensures
        hue_of(rgb) == normalized(raw_hue(r as int, g as int, b as int)),
{
    let n = (rgb.len() / 3) as nat;
    lemma_channel_sum_uniform(rgb, r, g, b, n);
    lemma_hue_scale_invariant(r as int, g as int, b as int, n as int);
}

/// Hue of an image, in millionths of a degree, normalized.
///
/// The angle is always at least 0° and less than 360°, so the hue can
/// serve as an ordinary sorting key.
#[derive(Debug, Clone, Copy, PartialEq, Eq, Structural)]
pub struct Hue {
    microdegrees: u32,
}

impl View for Hue {
    type V = int;

    closed spec fn view(&self) -> int {
        self.microdegrees as int
    }
}

/// Two hues are the same value exactly when their angles are the same.
pub proof fn lemma_same_angle_same_hue(a: Hue, b: Hue)
    ensures
        (a@ == b@) <==> (a == b),
{
}

/// `60_000_000 * (x - y) / d`, rounded down, for channels whose difference
/// does not exceed `d`.
fn scaled_difference(x: u128, y: u128, d: u128) -> (q: i64)
    requires
        d > 0,
        x <= MAX_CHANNEL_SUM,
        y <= MAX_CHANNEL_SUM,
        d <= MAX_CHANNEL_SUM,
        x - y <= d,
        y - x <= d,
    ensures
        q == (60_000_000 * (x - y)) / (d as int),
        -60_000_000 <= q <= 60_000_000,
{
    if x >= y {
        let t: u128 = 60_000_000 * (x - y);
        let q: u128 = t / d;
        assert(q <= 60_000_000) by (nonlinear_arith)
            requires
                q == t / d,
                t <= 60_000_000 * d,
                d > 0,
        ;
        q as i64
    } else {
        let t: u128 = 60_000_000 * (y - x);
        let up: u128 = t + (d - 1);
        let q: u128 = up / d;
        let rem: u128 = up % d;
        assert(q <= 60_000_000) by (nonlinear_arith)
            requires
                q == up / d,
                up <= 60_000_000 * d + d - 1,
                d > 0,
        ;
        proof {
            assert(up == q * d + rem) by (nonlinear_arith)
                requires
                    q == up / d,
                    rem == up % d,
                    d > 0,
            ;
            let back: int = d - 1 - rem;
            assert(60_000_000 * (x - y) == (-(q as int)) * d + back) by (nonlinear_arith)
                requires
                    up == q * d + rem,
                    up == t + (d - 1),
                    t == 60_000_000 * (y - x),
                    back == d - 1 - rem,
            ;
            lemma_fundamental_div_mod_converse(60_000_000 * (x - y), d as int, -(q as int), back);
        }
        -(q as i64)
    }
}

impl Hue {
    /// Every hue lies within one full turn.
    #[verifier::type_invariant]
    pub open spec fn is_normalized(&self) -> bool {
        0 <= self@ < 360_000_000
    }

    /// How `self` relates to `other`: the order of the angles.
    pub open spec fn compare_spec(self, other: Hue) -> Comparison {
        if self@ < other@ {
            Comparison::Less
        } else if self@ > other@ {
            Comparison::Greater
        } else {
            Comparison::Equal
        }
    }

    /// Wraps an angle in millionths of a degree into one full turn: the
    /// result is the angle that differs from `raw` by whole turns and lies
    /// between 0° and 360°, the latter excluded.
    pub fn new(raw: i64) -> (h: Self)
        ensures
            h@ == normalized(raw as int),
            h.is_normalized(),
    {
        if raw >= 0 {
            let m: u64 = (raw as u64) % (FULL_TURN as u64);
            Hue { microdegrees: m as u32 }
        } else {
            let t: u64 = (-(raw + 1)) as u64;
            let k: u64 = t % (FULL_TURN as u64);
            let m: u64 = FULL_TURN as u64 - 1 - k;
            proof {
                let q: int = (t / (FULL_TURN as u64)) as int;
                assert(t == q * 360_000_000 + k) by (nonlinear_arith)
                    requires
                        q == t / 360_000_000,
                        k == t % 360_000_000,
                ;
                assert(raw == (-q - 1) * 360_000_000 + m) by (nonlinear_arith)
                    requires
                        t == q * 360_000_000 + k,
                        t == -(raw + 1),
                        m == 360_000_000 - 1 - k,
                ;
                lemma_fundamental_div_mod_converse(raw as int, 360_000_000, -q - 1, m as int);
            }
            Hue { microdegrees: m as u32 }
        }
    }

    /// The angle in millionths of a degree.
    pub fn microdegrees(&self) -> (m: u32)
        ensures
            m == self@,
            m < FULL_TURN,
    {
        proof {
            use_type_invariant(self);
        }
        self.microdegrees
    }

    /// The hue of the colour whose channels are in the proportion
    /// `r : g : b`, such as the totals of each channel over all pixels of
    /// an image.
    pub fn from_channel_sums(r: u128, g: u128, b: u128) -> (h: Self)
        requires
            r <= MAX_CHANNEL_SUM,
            g <= MAX_CHANNEL_SUM,
            b <= MAX_CHANNEL_SUM,
        ensures
            h@ == normalized(raw_hue(r as int, g as int, b as int)),
            h.is_normalized(),
    {
        let hi: u128 = if r >= g && r >= b {
            r
        } else if g >= b {
            g
        } else {
            b
        };
        let lo: u128 = if r <= g && r <= b {
            r
        } else if g <= b {
            g
        } else {
            b
        };
        let d: u128 = hi - lo;
        let raw: i64 = if d == 0 {
            0
        } else if hi == r {
            scaled_difference(g, b, d)
        } else if hi == g {
            120_000_000 + scaled_difference(b, r, d)
        } else {
            240_000_000 + scaled_difference(r, g, d)
        };
        Self::new(raw)
    }

    /// Finds the hue of an image: the hue of the colour that has, in each
    /// channel, the mean of that channel over all pixels. A raster that is
    /// not valid is refused.
    pub fn find(original: &RasterImage) -> (r: Result<Self, InvalidInput>)
        ensures
            r is Ok <==> original.valid(),
            r matches Ok(h) ==> h@ == hue_of(original.pixels@) && h.is_normalized(),
    {
        if !original.is_valid() {
            return Err(InvalidInput);
        }
        let len: usize = original.pixels.len();
        let count: usize = len / 3;
        let mut red: u128 = 0;
        let mut green: u128 = 0;
        let mut blue: u128 = 0;
        let mut i: usize = 0;
        while i < count
            invariant
                len == original.pixels@.len(),
                count == len / 3,
                i <= count,
                red == channel_sum(original.pixels@, 0, i as nat),
                green == channel_sum(original.pixels@, 1, i as nat),
                blue == channel_sum(original.pixels@, 2, i as nat),
                red <= 255 * i,
                green <= 255 * i,
                blue <= 255 * i,
            decreases count - i,
        {
            red += original.pixels[3 * i] as u128;
            green += original.pixels[3 * i + 1] as u128;
            blue += original.pixels[3 * i + 2] as u128;
            i += 1;
        }
        Ok(Self::from_channel_sums(red, green, blue))
    }

    /// Compares two hues by their angles. The order is total: the result
    /// is never [`Comparison::Incomparable`].
    pub fn compare(&self, other: &Self) -> (c: Comparison)
        ensures
            c == self.compare_spec(*other),
            c != Comparison::Incomparable,
    {
        if self.microdegrees < other.microdegrees {
            Comparison::Less
        } else if self.microdegrees > other.microdegrees {
            Comparison::Greater
        } else {
            Comparison::Equal
        }
    }
}

/// The order of hues is total: comparing from the other side reverses the
/// outcome, which is never unordered, and only the same hue compares as
/// equal.
pub proof fn lemma_hue_order_total(a: Hue, b: Hue)
    ensures
        a.compare_spec(b) != Comparison::Incomparable,
        b.compare_spec(a) == a.compare_spec(b).reversed(),
        a.compare_spec(b) == Comparison::Equal <==> a == b,
{
}

impl PartialOrd for Hue {
    /// The standard library's view of [`Hue::compare`].
    fn partial_cmp(&self, other: &Self) -> (o: Option<Ordering>) {
        self.compare(other).to_ordering()
    }
}

impl vstd::std_specs::cmp::PartialOrdSpecImpl for Hue {
    open spec fn obeys_partial_cmp_spec() -> bool {
        true
    }

    open spec fn partial_cmp_spec(&self, other: &Hue) -> Option<Ordering> {
        self.compare_spec(*other).ordering()
    }
}

} // verus!
