//! The normaliser: linear rescaling of 16-bit samples into 8 bits.

use vstd::prelude::*;
use crate::range::{Range, lemma_sample_range_is_tight, sample_range};
use crate::raster::{Raster16, Raster8};

verus! {

/// Position of `sample` within `range` on a scale of 0 to 255, rounded
/// towards zero: `(sample - min) / (max - min) * 255`, taken exactly.
///
/// Only meaningful when `range.max > range.min`.
pub open spec fn scaled(sample: u16, range: Range) -> int {
    (sample - range.min) * 255 / (range.max - range.min)
}

/// The 8-bit value of one sample under `range`.
///
/// Within a range that is not flat this is `scaled`; a sample below the range
/// gives 0 and one above it gives 255. Under a flat range every sample gives 0.
pub open spec fn normalize_sample(sample: u16, range: Range) -> u8 {
    if range.max > range.min {
        if scaled(sample, range) < 0 {
            0u8
        } else if scaled(sample, range) > 255 {
            255u8
        } else {
            scaled(sample, range) as u8
        }
    } else {
        0u8
    }
}

/// The samples of the normalised raster.
pub open spec fn normalized(samples: Seq<u16>, range: Range) -> Seq<u8> {
    Seq::new(samples.len(), |i: int| normalize_sample(samples[i], range))
}

/// A sequence of 8-bit samples read as 16-bit samples of the same values.
pub open spec fn widened(samples: Seq<u8>) -> Seq<u16> {
    Seq::new(samples.len(), |i: int| samples[i] as u16)
}

/// Where `scaled` falls for a sample below, inside and above a range that is
/// not flat.
pub proof fn lemma_scaled_bounds(sample: u16, range: Range)
    requires
        range.min < range.max,
    ensures
        sample <= range.min ==> scaled(sample, range) <= 0,
        sample == range.min ==> scaled(sample, range) == 0,
        range.min <= sample <= range.max ==> 0 <= scaled(sample, range) <= 255,
        range.min <= sample < range.max ==> scaled(sample, range) < 255,
        sample == range.max ==> scaled(sample, range) == 255,
        sample >= range.max ==> scaled(sample, range) >= 255,
{
    let n: int = (sample - range.min) * 255;
    let d: int = range.max - range.min;
    let q: int = n / d;
    assert(q * d <= n < q * d + d && (n == 255 * d ==> q == 255)) by (nonlinear_arith)
        requires
            d > 0,
            q == n / d,
    ;
    assert(n <= 0 ==> q <= 0) by (nonlinear_arith)
        requires
            d > 0,
            q * d <= n,
            n < q * d + d,
    ;
    assert(n >= 0 ==> q >= 0) by (nonlinear_arith)
        requires
            d > 0,
            q * d <= n,
            n < q * d + d,
    ;
    assert(n <= 255 * d ==> q <= 255) by (nonlinear_arith)
        requires
            d > 0,
            q * d <= n,
            n < q * d + d,
    ;
    assert(n < 255 * d ==> q < 255) by (nonlinear_arith)
        requires
            d > 0,
            q * d <= n,
            n < q * d + d,
    ;
    assert(n >= 255 * d ==> q >= 255) by (nonlinear_arith)
        requires
            d > 0,
            q * d <= n,
            n < q * d + d,
    ;
}

/// Rescales one sample: see `normalize_sample`.
pub fn normalize_value(sample: u16, range: Range) -> (out: u8)
    ensures
        out == normalize_sample(sample, range),
{
    if range.max > range.min {
        proof {
            lemma_scaled_bounds(sample, range);
        }
        if sample <= range.min {
            0
        } else if sample >= range.max {
            255
        } else {
            let offset: u32 = (sample - range.min) as u32;
            let span: u32 = (range.max - range.min) as u32;
            let q: u32 = offset * 255 / span;
            q as u8
        }
    } else {
        0
    }
}

/// Produces the 8-bit raster of the same dimensions in which every sample is
/// the input's sample rescaled under `range`.
pub fn normalize(raster: &Raster16, range: Range) -> (out: Raster8)
    ensures
        out.spec_width() == raster.spec_width(),
        out.spec_height() == raster.spec_height(),
        out@ == normalized(raster@, range),
{
    let samples = raster.samples();
    let n: usize = samples.len();
    let mut result: Vec<u8> = Vec::with_capacity(n);
    let mut i: usize = 0;
    while i < n
        invariant
            i <= n,
            n == samples@.len(),
            result@.len() == i,
            forall|k: int| 0 <= k < i ==> result@[k] == normalize_sample(samples@[k], range),
        decreases n - i,
    {
        result.push(normalize_value(samples[i], range));
        i += 1;
    }
    assert(result@ =~= normalized(raster@, range));
    Raster8::from_parts(raster.width(), raster.height(), result)
}

/// Under the range of its own samples, when that range is not flat, every
/// sample of a raster is rescaled without saturation to a value from 0 to 255:
/// the smallest samples to exactly 0 and the largest to exactly 255.
pub proof fn lemma_normalized_spans_full_scale(samples: Seq<u16>)
    requires
        samples.len() > 0,
        sample_range(samples).max > sample_range(samples).min,
    ensures
        forall|i: int|
            0 <= i < samples.len() ==> 0 <= #[trigger] normalized(
                samples,
                sample_range(samples),
            )[i] == scaled(samples[i], sample_range(samples)) <= 255,
        forall|i: int|
            0 <= i < samples.len() && samples[i] == sample_range(samples).min
                ==> #[trigger] normalized(samples, sample_range(samples))[i] == 0,
        forall|i: int|
            0 <= i < samples.len() && samples[i] == sample_range(samples).max
                ==> #[trigger] normalized(samples, sample_range(samples))[i] == 255,
        exists|i: int|
            0 <= i < samples.len() && normalized(samples, sample_range(samples))[i] == 0,
        exists|j: int|
            0 <= j < samples.len() && normalized(samples, sample_range(samples))[j] == 255,
{
    let range = sample_range(samples);
    lemma_sample_range_is_tight(samples);
    assert forall|i: int| 0 <= i < samples.len() implies {
        &&& 0 <= #[trigger] normalized(samples, range)[i] == scaled(samples[i], range) <= 255
        &&& samples[i] == range.min ==> normalized(samples, range)[i] == 0
        &&& samples[i] == range.max ==> normalized(samples, range)[i] == 255
    } by {
        lemma_scaled_bounds(samples[i], range);
    }
    let lo = choose|i: int| 0 <= i < samples.len() && samples[i] == range.min;
    let hi = choose|j: int| 0 <= j < samples.len() && samples[j] == range.max;
    lemma_scaled_bounds(samples[lo], range);
    lemma_scaled_bounds(samples[hi], range);
    assert(normalized(samples, range)[lo] == 0);
    assert(normalized(samples, range)[hi] == 255);
}

/// A raster whose samples all have one value `v` has the flat range `(v, v)`,
/// and every sample of it is normalised to 0, whatever `v` is.
pub proof fn lemma_flat_raster_normalizes_to_zero(samples: Seq<u16>, v: u16)
    requires
        samples.len() > 0,
        forall|i: int| 0 <= i < samples.len() ==> samples[i] == v,
    ensures
        sample_range(samples) == (Range { min: v, max: v }),
        forall|i: int|
            0 <= i < samples.len() ==> #[trigger] normalized(samples, sample_range(samples))[i]
                == 0,
{
    lemma_sample_range_is_tight(samples);
}

/// Normalising under the range `(0, 255)` a raster whose samples are 8-bit
/// values gives those values back; so does normalising it under the range of
/// its own samples when both 0 and 255 are among them.
pub proof fn lemma_full_scale_is_identity(samples: Seq<u8>)
    ensures
        normalized(widened(samples), Range { min: 0, max: 255 }) == samples,
        sample_range(widened(samples)) == (Range { min: 0, max: 255 }) ==> normalized(
            widened(samples),
            sample_range(widened(samples)),
        ) == samples,
{
    let range = Range { min: 0, max: 255 };
    assert forall|i: int| 0 <= i < samples.len() implies normalize_sample(
        #[trigger] widened(samples)[i],
        range,
    ) == samples[i] by {
        let w = widened(samples)[i];
        assert((w - 0) * 255 / 255 == w);
        assert(scaled(w, range) == (w - 0) * 255 / (255 - 0));
    }
    assert(normalized(widened(samples), range) =~= samples);
}

/// Normalising twice is normalising once: the output of the normaliser, read
/// as a 16-bit raster and normalised under the range of its own samples, is
/// that output again.
pub proof fn lemma_normalize_is_idempotent(samples: Seq<u16>)
    requires
        samples.len() > 0,
    ensures
        ({
            let once = normalized(samples, sample_range(samples));
            normalized(widened(once), sample_range(widened(once))) == once
        }),
{
    let range = sample_range(samples);
    let once = normalized(samples, range);
    let again = widened(once);
    lemma_sample_range_is_tight(again);
    let observed = sample_range(again);
    if range.max > range.min {
        lemma_normalized_spans_full_scale(samples);
        let lo = choose|i: int| 0 <= i < samples.len() && normalized(samples, range)[i] == 0;
        let hi = choose|j: int| 0 <= j < samples.len() && normalized(samples, range)[j] == 255;
        assert(again[lo] == 0);
        assert(again[hi] == 255);
        let top = choose|j: int| 0 <= j < again.len() && again[j] == observed.max;
        assert(again[top] == once[top]);
        assert(observed == Range { min: 0, max: 255 });
        lemma_full_scale_is_identity(once);
    } else {
        assert forall|i: int| 0 <= i < again.len() implies again[i] == 0 by {
            assert(once[i] == 0);
        }
        lemma_flat_raster_normalizes_to_zero(again, 0);
        assert(normalized(again, observed) =~= once);
    }
}

} // verus!
