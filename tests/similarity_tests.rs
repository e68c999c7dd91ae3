use facial_recognition::similarity::{exceeds_match_threshold, similarity, Cosine};

fn value(c: &Cosine) -> f64 {
    if c.dot == 0 {
        0.0
    } else {
        c.dot as f64 / ((c.norm_sq_a as f64).sqrt() * (c.norm_sq_b as f64).sqrt())
    }
}

fn is_one(c: &Cosine) -> bool {
    c.dot > 0 && c.dot * c.dot == c.norm_sq_a * c.norm_sq_b
}

#[test]
fn test_compare_faces() {
    let features1 = vec![1, 0, 0];
    let features2 = vec![1, 0, 0];
    let similarity1 = value(&similarity(&features1, &features2));
    assert!((similarity1 - 1.0).abs() < 0.001);

    let features3 = vec![1, 0, 0];
    let features4 = vec![0, 1, 0];
    let similarity2 = value(&similarity(&features3, &features4));
    assert!(similarity2 < 0.001);

    let features5 = vec![1, 0, 0];
    let features6 = vec![-1, 0, 0];
    let similarity3 = value(&similarity(&features5, &features6));
    assert!(similarity3 < 0.001);

    let features7 = vec![1, 0];
    let features8 = vec![1, 0, 0];
    let similarity4 = value(&similarity(&features7, &features8));
    assert_eq!(similarity4, 0.0);

    let features9 = vec![0, 0, 0];
    let features10 = vec![0, 0, 0];
    let similarity5 = value(&similarity(&features9, &features10));
    assert_eq!(similarity5, 0.0);

    let features11 = vec![1, 1, 0];
    let features12 = vec![1, 0, 1];
    let similarity6 = value(&similarity(&features11, &features12));
    assert!((similarity6 - 0.5).abs() < 0.001);
}

#[test]
fn self_similarity_is_exactly_one() {
    let v = vec![3, -4, 12, 0, 7];
    let c = similarity(&v, &v);
    assert!(is_one(&c));
    assert_eq!(c.dot, 9 + 16 + 144 + 49);
    assert_eq!(value(&c), 1.0);
}

#[test]
fn orthogonal_vectors_give_zero() {
    let c = similarity(&[1, 0, 0], &[0, 1, 0]);
    assert_eq!(c.dot, 0);
    assert_eq!(value(&c), 0.0);
}

#[test]
fn negation_gives_minus_one() {
    let c = similarity(&[1, 0, 0], &[-1, 0, 0]);
    assert!(c.dot < 0);
    assert_eq!(c.dot * c.dot, c.norm_sq_a * c.norm_sq_b);
    assert_eq!(value(&c), -1.0);
}

#[test]
fn forty_five_degree_pair_gives_one_half() {
    let c = similarity(&[1, 1, 0], &[1, 0, 1]);
    assert_eq!((c.dot, c.norm_sq_a, c.norm_sq_b), (1, 2, 2));
    assert_eq!(4 * c.dot * c.dot, c.norm_sq_a * c.norm_sq_b);
}

#[test]
fn mismatched_lengths_give_zero() {
    let c = similarity(&[5, 1], &[5, 1, 0]);
    assert_eq!((c.dot, c.norm_sq_a, c.norm_sq_b), (0, 0, 0));
    assert_eq!(value(&c), 0.0);
    let e = similarity(&[], &[1]);
    assert_eq!(e.dot, 0);
}

#[test]
fn zero_vector_gives_zero_on_either_side() {
    let z = vec![0, 0, 0, 0];
    let v = vec![9, -2, 5, 1];
    assert_eq!(similarity(&z, &v).dot, 0);
    assert_eq!(similarity(&v, &z).dot, 0);
    assert_eq!(value(&similarity(&z, &v)), 0.0);
}

#[test]
fn threshold_is_strictly_above_seven_tenths() {
    // cos = 7/10 exactly: 7 / sqrt(1 * 100)
    let at = Cosine { dot: 7, norm_sq_a: 1, norm_sq_b: 100 };
    assert!(!exceeds_match_threshold(&at));
    let above = Cosine { dot: 71, norm_sq_a: 100, norm_sq_b: 100 };
    assert!(exceeds_match_threshold(&above));
    let below = Cosine { dot: 69, norm_sq_a: 100, norm_sq_b: 100 };
    assert!(!exceeds_match_threshold(&below));
    let negative = Cosine { dot: -90, norm_sq_a: 100, norm_sq_b: 100 };
    assert!(!exceeds_match_threshold(&negative));
}

#[test]
fn threshold_on_large_components() {
    // components near the top of their range, where the squares need 256 bits
    let big: i128 = 1 << 100;
    let c = Cosine { dot: big, norm_sq_a: big, norm_sq_b: big };
    assert!(exceeds_match_threshold(&c));
    let d = Cosine { dot: big / 2, norm_sq_a: big, norm_sq_b: big };
    assert!(!exceeds_match_threshold(&d));
    let e = Cosine { dot: (big / 10) * 7 + 1000, norm_sq_a: big, norm_sq_b: big };
    assert!(exceeds_match_threshold(&e));
    let f = Cosine { dot: (big / 10) * 7 - 1000, norm_sq_a: big, norm_sq_b: big };
    assert!(!exceeds_match_threshold(&f));
}
