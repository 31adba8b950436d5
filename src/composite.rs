//! The depth-independent compositing of RGBA samples over white.

use vstd::prelude::*;

verus! {

/// `n / d` rounded to the nearest integer (for positive `d`).
pub open spec fn round_div(n: int, d: int) -> int {
    (2 * n + d) / (2 * d)
}

/// Channel value `c` under alpha `a`, blended over opaque white, at full
/// scale `max`: `round((1 - a / max) * max + (a / max) * c)`.
pub open spec fn composite(c: int, a: int, max: int) -> int {
    round_div(max * (max - a) + a * c, max)
}

/// The flattened form of interleaved RGBA samples: three composited samples
/// per complete group of four.
pub open spec fn flatten_samples(s: Seq<int>, max: int) -> Seq<int> {
    Seq::new(
        (s.len() / 4 * 3) as nat,
        |i: int| composite(s[4 * (i / 3) + i % 3], s[4 * (i / 3) + 3], max),
    )
}

/// Every sample of `s` lies in `[0, max]`.
pub open spec fn samples_within(s: Seq<int>, max: int) -> bool {
    forall|i: int| 0 <= i < s.len() ==> 0 <= #[trigger] s[i] <= max
}

/// The samples of a `u16` sequence, as integers.
pub open spec fn samples_of(v: Seq<u16>) -> Seq<int> {
    v.map_values(|x: u16| x as int)
}

/// A composited sample stays in `[0, max]`.
pub proof fn lemma_composite_in_range(c: int, a: int, max: int)
    requires
        0 < max,
        0 <= c <= max,
        0 <= a <= max,
    ensures
        0 <= composite(c, a, max) <= max,
{
    let n = max * (max - a) + a * c;
    assert(0 <= n <= max * max) by (nonlinear_arith)
        requires
            n == max * (max - a) + a * c,
            0 < max,
            0 <= c <= max,
            0 <= a <= max,
    ;
    assert(0 <= (2 * n + max) / (2 * max) <= max) by (nonlinear_arith)
        requires
            0 <= n <= max * max,
            0 < max,
    {
        assert(2 * n + max < (max + 1) * (2 * max));
    }
}

/// A fully opaque sample keeps its value.
pub proof fn lemma_composite_opaque(c: int, max: int)
    requires
        0 < max,
        0 <= c <= max,
    ensures
        composite(c, max, max) == c,
{
    assert(max * (max - max) + max * c == max * c) by (nonlinear_arith);
    assert((2 * (max * c) + max) / (2 * max) == c) by (nonlinear_arith)
        requires
            0 < max,
            0 <= c,
    {
        assert(2 * (max * c) + max == c * (2 * max) + max);
    }
}

/// A fully transparent sample becomes white.
pub proof fn lemma_composite_transparent(c: int, max: int)
    requires
        0 < max,
    ensures
        composite(c, 0, max) == max,
{
    assert(max * (max - 0) + 0 * c == max * max) by (nonlinear_arith);
    assert((2 * (max * max) + max) / (2 * max) == max) by (nonlinear_arith)
        requires
            0 < max,
    {
        assert(2 * (max * max) + max == max * (2 * max) + max);
    }
}

/// The colour samples of interleaved RGBA samples, alpha left out.
pub open spec fn rgb_channels(s: Seq<int>) -> Seq<int> {
    Seq::new((s.len() / 4 * 3) as nat, |i: int| s[4 * (i / 3) + i % 3])
}

/// Where every pixel is fully opaque, flattening only drops the alpha
/// samples: the colour samples come out unchanged.
pub proof fn lemma_flatten_opaque(s: Seq<int>, max: int)
    requires
        0 < max,
        samples_within(s, max),
        forall|p: int| 0 <= p < s.len() / 4 ==> #[trigger] s[4 * p + 3] == max,
    ensures
        flatten_samples(s, max) == rgb_channels(s),
{
    assert forall|i: int| 0 <= i < s.len() / 4 * 3 implies #[trigger] flatten_samples(s, max)[i]
        == rgb_channels(s)[i] by {
        let p = i / 3;
        assert(s[4 * p + 3] == max);
        assert(0 <= s[4 * p + i % 3] <= max);
        lemma_composite_opaque(s[4 * p + i % 3], max);
    }
    assert(flatten_samples(s, max) =~= rgb_channels(s));
}

/// A fully transparent pixel flattens to white, whatever its colour.
pub proof fn lemma_flatten_transparent(s: Seq<int>, max: int, p: int)
    requires
        0 < max,
        0 <= p < s.len() / 4,
        s[4 * p + 3] == 0,
    ensures
        flatten_samples(s, max)[3 * p] == max,
        flatten_samples(s, max)[3 * p + 1] == max,
        flatten_samples(s, max)[3 * p + 2] == max,
{
    assert((3 * p) / 3 == p && (3 * p) % 3 == 0);
    assert((3 * p + 1) / 3 == p && (3 * p + 1) % 3 == 1);
    assert((3 * p + 2) / 3 == p && (3 * p + 2) % 3 == 2);
    lemma_composite_transparent(s[4 * p], max);
    lemma_composite_transparent(s[4 * p + 1], max);
    lemma_composite_transparent(s[4 * p + 2], max);
}

/// Flattening samples that lie in `[0, max]` gives samples in `[0, max]`.
pub proof fn lemma_flatten_in_range(s: Seq<int>, max: int)
    requires
        0 < max,
        samples_within(s, max),
    ensures
        samples_within(flatten_samples(s, max), max),
{
    assert forall|i: int| 0 <= i < flatten_samples(s, max).len() implies 0
        <= #[trigger] flatten_samples(s, max)[i] <= max by {
        let k = 4 * (i / 3);
        assert(0 <= s[k + i % 3] <= max);
        assert(0 <= s[k + 3] <= max);
        lemma_composite_in_range(s[k + i % 3], s[k + 3], max);
    }
}

/// Composites one channel sample `c` under alpha `a` over white at full
/// scale `max`, rounding to the nearest value.
pub fn composite_sample(c: u16, a: u16, max: u16) -> (r: u16)
    requires
        0 < max,
        c <= max,
        a <= max,
    ensures
        r as int == composite(c as int, a as int, max as int),
        r <= max,
{
    proof {
        lemma_composite_in_range(c as int, a as int, max as int);
    }
    let m: u64 = max as u64;
    let alpha: u64 = a as u64;
    let w: u64 = m - alpha;
    assert(m * w <= 65535 * 65535) by (nonlinear_arith)
        requires
            m <= 65535,
            w <= 65535,
    ;
    assert(alpha * (c as u64) <= 65535 * 65535) by (nonlinear_arith)
        requires
            alpha <= 65535,
            c <= 65535,
    ;
    let n: u64 = m * w + alpha * (c as u64);
    let q: u64 = (2 * n + m) / (2 * m);
    q as u16
}

/// Flattens interleaved RGBA samples of full scale `max_value` into RGB
/// samples composited over white.
pub fn remove_alpha_from_4_channel(image_data: &[u16], max_value: u16) -> (r: Vec<u16>)
    requires
        0 < max_value,
        image_data@.len() % 4 == 0,
        samples_within(samples_of(image_data@), max_value as int),
    ensures
        samples_of(r@) == flatten_samples(samples_of(image_data@), max_value as int),
        r@.len() == image_data@.len() / 4 * 3,
        samples_within(samples_of(r@), max_value as int),
{
    let ghost s = samples_of(image_data@);
    let mut r: Vec<u16> = Vec::new();
    let mut p: usize = 0;
    while p < image_data.len()
        invariant
            0 < max_value,
            s == samples_of(image_data@),
            image_data@.len() % 4 == 0,
            samples_within(s, max_value as int),
            p % 4 == 0,
            p <= image_data@.len(),
            r@.len() == p / 4 * 3,
            forall|j: int|
                0 <= j < r@.len() ==> #[trigger] r@[j] as int == flatten_samples(
                    s,
                    max_value as int,
                )[j],
        decreases image_data@.len() - p,
    {
        assert(0 <= s[p as int] <= max_value && 0 <= s[p + 1] <= max_value);
        assert(0 <= s[p + 2] <= max_value && 0 <= s[p + 3] <= max_value);
        let alpha = image_data[p + 3];
        let red = composite_sample(image_data[p], alpha, max_value);
        let green = composite_sample(image_data[p + 1], alpha, max_value);
        let blue = composite_sample(image_data[p + 2], alpha, max_value);
        r.push(red);
        r.push(green);
        r.push(blue);
        p = p + 4;
    }
    assert(samples_of(r@) =~= flatten_samples(s, max_value as int));
    proof {
        lemma_flatten_in_range(s, max_value as int);
    }
    r
}

} // verus!
