//! The recognition engine: first match of a detected face against the registry.
use crate::features::{extract_features, features_of};
use crate::monitor::RecognitionResponse;
use crate::registry::FaceRecord;
use crate::similarity::{cosine_of, exceeds_match_threshold, is_match, similarity};
use vstd::prelude::*;

verus! {

/// The canonical intensity images of the regions, as byte sequences.
pub open spec fn region_views(regions: Seq<Vec<u8>>) -> Seq<Seq<u8>> {
    regions.map_values(|r: Vec<u8>| r@)
}

/// The reference images of the entries, as byte sequences (`None`: missing).
pub open spec fn reference_views(refs: Seq<Option<Vec<u8>>>) -> Seq<Option<Seq<u8>>> {
    refs.map_values(
        |r: Option<Vec<u8>>|
            match r {
                Some(v) => Some(v@),
                None => None,
            },
    )
}

/// Region `i` matches entry `j`: both give a feature vector, and their
/// similarity exceeds the threshold. Entries without a reference image, and
/// those at or past `entries`, match nothing.
pub open spec fn pair_matches(
    regions: Seq<Seq<u8>>,
    refs: Seq<Option<Seq<u8>>>,
    entries: int,
    i: int,
    j: int,
) -> bool {
    &&& 0 <= i < regions.len()
    &&& 0 <= j < entries
    &&& j < refs.len()
    &&& refs[j] is Some
    &&& features_of(regions[i]) is Some
    &&& features_of(refs[j]->0) is Some
    &&& is_match(cosine_of(features_of(regions[i])->0, features_of(refs[j]->0)->0))
}

/// Pair `(i1, j1)` comes before `(i2, j2)`: regions first, then entries.
pub open spec fn pair_before(i1: int, j1: int, i2: int, j2: int) -> bool {
    i1 < i2 || (i1 == i2 && j1 < j2)
}

/// `(i, j)` is the first matching pair.
pub open spec fn is_first_match(
    regions: Seq<Seq<u8>>,
    refs: Seq<Option<Seq<u8>>>,
    entries: int,
    i: int,
    j: int,
) -> bool {
    &&& pair_matches(regions, refs, entries, i, j)
    &&& forall|i2: int, j2: int|
        #![trigger pair_matches(regions, refs, entries, i2, j2)]
        pair_before(i2, j2, i, j) ==> !pair_matches(regions, refs, entries, i2, j2)
}

/// Recognizes a frame's detected faces against a registry snapshot.
///
/// `regions` holds the canonical intensity image of each detected region, in
/// detection order; `references[j]` that of entry `j`'s reference photo, or
/// `None` where the photo is missing or unreadable. Regions are scanned in
/// order, and for each the entries in registry order; the first pair whose
/// similarity exceeds `0.7` decides, and its entry's name is reported. A region
/// or reference that gives no feature vector is skipped.
pub fn recognize(
    regions: &Vec<Vec<u8>>,
    snapshot: &Vec<FaceRecord>,
    references: &Vec<Option<Vec<u8>>>,
) -> (r: RecognitionResponse)
    ensures
        r.wf(),
        r.recognized <==> exists|i: int, j: int|
            pair_matches(
                region_views(regions@),
                reference_views(references@),
                snapshot@.len() as int,
                i,
                j,
            ),
        r.recognized ==> exists|i: int, j: int|
            is_first_match(
                region_views(regions@),
                reference_views(references@),
                snapshot@.len() as int,
                i,
                j,
            ) && r.name == Some(snapshot@[j].name),
        snapshot@.len() == 0 ==> !r.recognized && r.name is None,
{
    let ghost rv = region_views(regions@);
    let ghost fv = reference_views(references@);
    let ghost entries = snapshot@.len() as int;
    let n_entries = if snapshot.len() < references.len() {
        snapshot.len()
    } else {
        references.len()
    };
    let mut i: usize = 0;
    while i < regions.len()
        invariant
            0 <= i <= regions.len(),
            rv == region_views(regions@),
            fv == reference_views(references@),
            entries == snapshot@.len(),
            n_entries <= snapshot.len(),
            n_entries <= references.len(),
            n_entries == snapshot.len() || n_entries == references.len(),
            forall|i2: int, j2: int|
                #![trigger pair_matches(rv, fv, entries, i2, j2)]
                i2 < i ==> !pair_matches(rv, fv, entries, i2, j2),
        decreases regions.len() - i,
    {
        let region = extract_features(regions[i].as_slice());
        assert(rv[i as int] == regions@[i as int]@);
        match region {
            Ok(f) => {
                let mut j: usize = 0;
                while j < n_entries
                    invariant
                        0 <= i < regions.len(),
                        0 <= j <= n_entries,
                        rv == region_views(regions@),
                        fv == reference_views(references@),
                        entries == snapshot@.len(),
                        n_entries <= snapshot.len(),
                        n_entries <= references.len(),
                        features_of(rv[i as int]) == Some(f@),
                        forall|i2: int, j2: int|
                            #![trigger pair_matches(rv, fv, entries, i2, j2)]
                            i2 < i ==> !pair_matches(rv, fv, entries, i2, j2),
                        forall|j2: int|
                            #![trigger pair_matches(rv, fv, entries, i as int, j2)]
                            j2 < j ==> !pair_matches(rv, fv, entries, i as int, j2),
                    decreases n_entries - j,
                {
                    let ghost jj = j as int;
                    assert(fv[jj] == match references@[jj] {
                        Some(v) => Some(v@),
                        None => None,
                    });
                    match &references[j] {
                        Some(img) => {
                            match extract_features(img.as_slice()) {
                                Ok(g) => {
                                    let c = similarity(f.as_slice(), g.as_slice());
                                    if exceeds_match_threshold(&c) {
                                        assert(pair_matches(rv, fv, entries, i as int, jj));
                                        assert(is_first_match(rv, fv, entries, i as int, jj));
                                        return RecognitionResponse {
                                            name: Some(snapshot[j].name.clone()),
                                            recognized: true,
                                        };
                                    }
                                },
                                Err(_) => {},
                            }
                        },
                        None => {},
                    }
                    j = j + 1;
                }
                assert forall|j2: int| #![auto] !pair_matches(rv, fv, entries, i as int, j2) by {
                    if j2 >= n_entries && pair_matches(rv, fv, entries, i as int, j2) {
                        assert(j2 < entries && j2 < references.len());
                    }
                }
            },
            Err(_) => {},
        }
        i = i + 1;
    }
    RecognitionResponse { name: None, recognized: false }
}

} // verus!
