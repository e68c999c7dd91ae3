//! Feature extraction: the intensity histogram of a face region.
//!
//! The region arrives already resized to the canonical 64x64 size and converted
//! to single-channel intensity, one byte per pixel in row order. The feature is
//! the 256-bin histogram of those bytes. It is kept as counts: cosine
//! similarity does not change when a vector is scaled, so L2-normalizing the
//! histogram would not change any comparison made with it.
use vstd::prelude::*;

verus! {

/// Pixels in a canonical face region (64 x 64).
pub const CANONICAL_PIXELS: usize = 4096;

/// Bins of the intensity histogram.
pub const HISTOGRAM_BINS: usize = 256;

/// Why a region gave no feature vector.
#[derive(Debug, PartialEq, Eq, Structural)]
pub enum FeatureExtractionError {
    /// The region does not hold exactly one canonical image.
    WrongRegionSize,
}

/// Number of the first `n` pixels whose intensity is `v`.
pub open spec fn count_upto(gray: Seq<u8>, v: int, n: int) -> int
    decreases n,
{
    if n <= 0 {
        0
    } else {
        count_upto(gray, v, n - 1) + if gray[n - 1] == v {
            1int
        } else {
            0int
        }
    }
}

/// The 256-bin histogram of the pixels.
pub open spec fn histogram(gray: Seq<u8>) -> Seq<i16> {
    Seq::new(HISTOGRAM_BINS as nat, |v: int| count_upto(gray, v, gray.len() as int) as i16)
}

/// The feature vector of a region, or `None` where none can be computed.
pub open spec fn features_of(gray: Seq<u8>) -> Option<Seq<i16>> {
    if gray.len() == CANONICAL_PIXELS {
        Some(histogram(gray))
    } else {
        None
    }
}

proof fn lemma_count_upto_bound(gray: Seq<u8>, v: int, n: int)
    requires
        0 <= n <= gray.len(),
    ensures
        0 <= count_upto(gray, v, n) <= n,
    decreases n,
{
    if n > 0 {
        lemma_count_upto_bound(gray, v, n - 1);
    }
}

/// The feature vector of a canonical intensity region.
pub fn extract_features(gray: &[u8]) -> (r: Result<Vec<i16>, FeatureExtractionError>)
    ensures
        match r {
            Ok(f) => features_of(gray@) == Some(f@),
            Err(_) => features_of(gray@) is None,
        },
{
    if gray.len() != CANONICAL_PIXELS {
        return Err(FeatureExtractionError::WrongRegionSize);
    }
    let mut bins: Vec<i16> = Vec::new();
    while bins.len() < HISTOGRAM_BINS
        invariant
            bins.len() <= HISTOGRAM_BINS,
            forall|v: int| 0 <= v < bins.len() ==> bins@[v] == 0,
        decreases HISTOGRAM_BINS - bins.len(),
    {
        bins.push(0);
    }
    let mut i: usize = 0;
    while i < gray.len()
        invariant
            gray.len() == CANONICAL_PIXELS,
            bins.len() == HISTOGRAM_BINS,
            0 <= i <= gray.len(),
            forall|v: int| 0 <= v < HISTOGRAM_BINS ==> bins@[v] == count_upto(gray@, v, i as int),
        decreases gray.len() - i,
    {
        let p = gray[i] as usize;
        proof {
            lemma_count_upto_bound(gray@, p as int, i as int);
            assert forall|v: int| 0 <= v < HISTOGRAM_BINS implies count_upto(gray@, v, i + 1)
                == count_upto(gray@, v, i as int) + if gray@[i as int] == v {
                1int
            } else {
                0int
            } by {}
        }
        bins.set(p, bins[p] + 1);
        i = i + 1;
    }
    proof {
        assert forall|v: int| 0 <= v < HISTOGRAM_BINS implies bins@[v] == histogram(gray@)[v] by {
            lemma_count_upto_bound(gray@, v, gray.len() as int);
        }
        assert(bins@ =~= histogram(gray@));
    }
    Ok(bins)
}

} // verus!
