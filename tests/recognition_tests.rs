use facial_recognition::features::{extract_features, FeatureExtractionError, CANONICAL_PIXELS};
use facial_recognition::recognition::recognize;
use facial_recognition::registry::FaceRecord;

fn record(id: &str, name: &str) -> FaceRecord {
    FaceRecord {
        id: id.to_string(),
        name: name.to_string(),
        photo_path: format!("database/{}.jpg", name),
        created_at: 0,
    }
}

/// A canonical region whose first `zeros` pixels have intensity 0 and the rest `other`.
fn region(zeros: usize, other: u8) -> Vec<u8> {
    let mut v = vec![0u8; CANONICAL_PIXELS];
    for p in v.iter_mut().skip(zeros) {
        *p = other;
    }
    v
}

#[test]
fn test_extract_features_consistency() {
    let face = region(1000, 200);
    let first = extract_features(&face).unwrap();
    let second = extract_features(&face).unwrap();
    assert_eq!(first, second);
    assert_eq!(first.len(), 256);
    assert_eq!(first[0], 1000);
    assert_eq!(first[200], 3096);
    assert_eq!(first.iter().map(|&c| c as i64).sum::<i64>(), 4096);
}

#[test]
fn histogram_counts_every_intensity() {
    let gray: Vec<u8> = (0..CANONICAL_PIXELS).map(|i| (i % 256) as u8).collect();
    let h = extract_features(&gray).unwrap();
    assert!(h.iter().all(|&c| c == 16));
}

#[test]
fn region_of_wrong_size_gives_no_features() {
    assert_eq!(extract_features(&[]), Err(FeatureExtractionError::WrongRegionSize));
    assert_eq!(
        extract_features(&vec![7u8; CANONICAL_PIXELS + 1]),
        Err(FeatureExtractionError::WrongRegionSize)
    );
}

#[test]
fn empty_registry_is_never_recognized() {
    let regions = vec![region(2048, 1), region(0, 9)];
    let r = recognize(&regions, &vec![], &vec![]);
    assert!(!r.recognized);
    assert_eq!(r.name, None);
}

#[test]
fn missing_reference_photo_is_skipped() {
    let regions = vec![region(2048, 1)];
    let r = recognize(&regions, &vec![record("a", "Alice")], &vec![None]);
    assert!(!r.recognized);
    assert_eq!(r.name, None);
}

#[test]
fn identical_features_are_recognized() {
    let regions = vec![region(2048, 1)];
    let r = recognize(&regions, &vec![record("a", "Alice")], &vec![Some(region(2048, 1))]);
    assert!(r.recognized);
    assert_eq!(r.name, Some("Alice".to_string()));
}

#[test]
fn first_entry_over_threshold_wins_over_a_better_one() {
    // entry 1: histogram (3072, 1024) against (2048, 2048): cos = 0.894
    // entry 2: identical histogram: cos = 1
    let regions = vec![region(2048, 1)];
    let snapshot = vec![record("a", "First"), record("b", "Second")];
    let refs = vec![Some(region(3072, 1)), Some(region(2048, 1))];
    let r = recognize(&regions, &snapshot, &refs);
    assert!(r.recognized);
    assert_eq!(r.name, Some("First".to_string()));
}

#[test]
fn regions_are_scanned_before_entries() {
    // region 1 matches only entry 2; region 2 matches entry 1: region order decides
    let regions = vec![region(0, 255), region(4096, 0)];
    let snapshot = vec![record("a", "Dark"), record("b", "Bright")];
    let refs = vec![Some(region(4096, 0)), Some(region(0, 255))];
    let r = recognize(&regions, &snapshot, &refs);
    assert_eq!(r.name, Some("Bright".to_string()));
}

#[test]
fn dissimilar_faces_are_not_recognized() {
    let regions = vec![region(4096, 0)];
    let r = recognize(&regions, &vec![record("a", "Alice")], &vec![Some(region(0, 255))]);
    assert!(!r.recognized);
    assert_eq!(r.name, None);
}

#[test]
fn unusable_region_and_reference_are_skipped() {
    let regions = vec![vec![1u8; 10], region(2048, 1)];
    let snapshot = vec![record("a", "Broken"), record("b", "Bob")];
    let refs = vec![Some(vec![0u8; 3]), Some(region(2048, 1))];
    let r = recognize(&regions, &snapshot, &refs);
    assert_eq!(r.name, Some("Bob".to_string()));
}

#[test]
fn entries_without_reference_list_slot_match_nothing() {
    let regions = vec![region(2048, 1)];
    let snapshot = vec![record("a", "Alice"), record("b", "Bob")];
    let r = recognize(&regions, &snapshot, &vec![None]);
    assert!(!r.recognized);
}
