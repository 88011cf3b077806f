//! The range finder: smallest and largest sample of a depth raster.

use vstd::prelude::*;
use crate::error::{DepthMapError, ErrorKind, empty_raster_message};
use crate::raster::Raster16;

verus! {

/// The smallest and the largest sample of a raster.
#[derive(Clone, Copy, Debug, PartialEq, Eq, Structural)]
pub struct Range {
    pub min: u16,
    pub max: u16,
}

impl Range {
    /// A range is well formed when its ends are in order; the two may coincide.
    pub open spec fn wf(self) -> bool {
        self.min <= self.max
    }

    /// Both ends occur among `samples`, and every sample lies between them.
    pub open spec fn is_range_of(self, samples: Seq<u16>) -> bool {
        &&& exists|i: int| 0 <= i < samples.len() && samples[i] == self.min
        &&& exists|j: int| 0 <= j < samples.len() && samples[j] == self.max
        &&& forall|k: int| 0 <= k < samples.len() ==> self.min <= #[trigger] samples[k] <= self.max
    }
}

/// The smallest sample; `u16::MAX` for no samples.
pub open spec fn min_sample(samples: Seq<u16>) -> u16
    decreases samples.len(),
{
    if samples.len() == 0 {
        u16::MAX
    } else {
        let rest = min_sample(samples.drop_last());
        if samples.last() < rest {
            samples.last()
        } else {
            rest
        }
    }
}

/// The largest sample; `0` for no samples.
pub open spec fn max_sample(samples: Seq<u16>) -> u16
    decreases samples.len(),
{
    if samples.len() == 0 {
        0
    } else {
        let rest = max_sample(samples.drop_last());
        if samples.last() > rest {
            samples.last()
        } else {
            rest
        }
    }
}

/// The range of a sequence of samples.
pub open spec fn sample_range(samples: Seq<u16>) -> Range {
    Range { min: min_sample(samples), max: max_sample(samples) }
}

/// The range of a non-empty sequence is well formed, both of its ends are
/// samples of the sequence, and no sample lies outside it.
pub proof fn lemma_sample_range_is_tight(samples: Seq<u16>)
    requires
        samples.len() > 0,
    ensures
        sample_range(samples).wf(),
        sample_range(samples).is_range_of(samples),
    decreases samples.len(),
{
    let front = samples.drop_last();
    let last = samples.last();
    let r = sample_range(samples);
    if front.len() == 0 {
        assert(min_sample(front) == u16::MAX);
        assert(max_sample(front) == 0);
        assert(r.min == last && r.max == last);
        assert(samples[samples.len() - 1] == last);
    } else {
        lemma_sample_range_is_tight(front);
        let fr = sample_range(front);
        let i = choose|i: int| 0 <= i < front.len() && front[i] == fr.min;
        let j = choose|j: int| 0 <= j < front.len() && front[j] == fr.max;
        assert(samples[i] == front[i]);
        assert(samples[j] == front[j]);
        assert(samples[samples.len() - 1] == last);
        assert forall|k: int| 0 <= k < samples.len() implies r.min <= #[trigger] samples[k]
            <= r.max by {
            if k < front.len() {
                assert(samples[k] == front[k]);
            }
        }
    }
}

/// A sequence has at most one range.
pub proof fn lemma_range_is_unique(a: Range, b: Range, samples: Seq<u16>)
    requires
        a.is_range_of(samples),
        b.is_range_of(samples),
    ensures
        a == b,
{
}

/// The range does not depend on the order of the samples: two sequences
/// that hold the same samples the same number of times have the same range.
pub proof fn lemma_sample_range_ignores_order(a: Seq<u16>, b: Seq<u16>)
    requires
        a.to_multiset() == b.to_multiset(),
    ensures
        sample_range(a) == sample_range(b),
{
    a.to_multiset_ensures();
    b.to_multiset_ensures();
    assert(a.len() == b.len());
    if a.len() == 0 {
        assert(a =~= b);
    } else {
        lemma_sample_range_is_tight(a);
        lemma_sample_range_is_tight(b);
        let ra = sample_range(a);
        let rb = sample_range(b);
        assert forall|k: int| 0 <= k < b.len() implies ra.min <= #[trigger] b[k] <= ra.max by {
            assert(b.contains(b[k]));
            assert(b.to_multiset().count(b[k]) > 0);
            assert(a.to_multiset().count(b[k]) > 0);
            assert(a.contains(b[k]));
            let i = choose|i: int| 0 <= i < a.len() && a[i] == b[k];
            assert(ra.min <= a[i] <= ra.max);
        }
        let lo = choose|i: int| 0 <= i < a.len() && a[i] == ra.min;
        let hi = choose|j: int| 0 <= j < a.len() && a[j] == ra.max;
        assert(a.contains(a[lo]) && a.contains(a[hi]));
        assert(a.to_multiset().count(ra.min) > 0 && a.to_multiset().count(ra.max) > 0);
        assert(b.to_multiset().count(ra.min) > 0 && b.to_multiset().count(ra.max) > 0);
        assert(b.contains(ra.min) && b.contains(ra.max));
        let lo_b = choose|i: int| 0 <= i < b.len() && b[i] == ra.min;
        let hi_b = choose|j: int| 0 <= j < b.len() && b[j] == ra.max;
        assert(b[lo_b] == ra.min && b[hi_b] == ra.max);
        assert(ra.is_range_of(b));
        lemma_range_is_unique(ra, rb, b);
    }
}

/// Scans the raster once for its smallest and largest sample.
///
/// A raster without samples has no range: that is a precondition violation.
pub fn find_range(raster: &Raster16) -> (res: Result<Range, DepthMapError>)
    ensures
        res is Err <==> raster@.len() == 0,
        res matches Err(e) ==> e.kind == ErrorKind::PreconditionViolation && e.message@
            == empty_raster_message(),
        res matches Ok(r) ==> r == sample_range(raster@) && r.wf() && r.is_range_of(raster@),
{
    let samples = raster.samples();
    let n: usize = samples.len();
    if n == 0 {
        return Err(DepthMapError::empty_raster());
    }
    let mut min: u16 = u16::MAX;
    let mut max: u16 = 0;
    let mut i: usize = 0;
    while i < n
        invariant
            i <= n,
            n == samples@.len(),
            min == min_sample(samples@.take(i as int)),
            max == max_sample(samples@.take(i as int)),
        decreases n - i,
    {
        let v: u16 = samples[i];
        proof {
            assert(samples@.take(i + 1).drop_last() =~= samples@.take(i as int));
        }
        if v < min {
            min = v;
        }
        if v > max {
            max = v;
        }
        i += 1;
    }
    proof {
        assert(samples@.take(n as int) =~= samples@);
        lemma_sample_range_is_tight(raster@);
    }
    Ok(Range { min, max })
}

} // verus!
