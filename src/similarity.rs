//! Cosine similarity of feature vectors, held exactly.
//!
//! A feature vector is a sequence of bin counts (`i16`). Cosine similarity is
//! invariant under scaling of either vector, so it is the same on the raw
//! counts as on their L2-normalized form. The similarity is kept as the exact
//! triple `(a.b, |a|^2, |b|^2)`: its value is `dot / sqrt(norm_sq_a * norm_sq_b)`,
//! and `0` whenever `dot` is `0`.
use vstd::arithmetic::mul::{
    lemma_mul_is_associative, lemma_mul_is_commutative, lemma_mul_is_distributive_add,
    lemma_mul_is_distributive_add_other_way,
};
use vstd::prelude::*;

verus! {

/// Upper bound on every component of a well-formed [`Cosine`].
pub const COSINE_BOUND: u128 = 0x1_0000_0000_0000_0000_0000_0000_0000;

/// `2^64`, the base of the limbs in a wide product.
const LIMB: u128 = 0x1_0000_0000_0000_0000;

/// Sum of `a[i] * b[i]` for `i < n`.
pub open spec fn dot_upto(a: Seq<i16>, b: Seq<i16>, n: int) -> int
    decreases n,
{
    if n <= 0 {
        0
    } else {
        dot_upto(a, b, n - 1) + a[n - 1] * b[n - 1]
    }
}

/// Dot product of two vectors of one length.
pub open spec fn dot(a: Seq<i16>, b: Seq<i16>) -> int {
    dot_upto(a, b, a.len() as int)
}

/// Squared Euclidean norm.
pub open spec fn norm_sq(a: Seq<i16>) -> int {
    dot(a, a)
}

/// Every entry is zero.
pub open spec fn is_zero_vector(a: Seq<i16>) -> bool {
    forall|i: int| 0 <= i < a.len() ==> a[i] == 0
}

/// The entry-wise negation, where every entry has one.
pub open spec fn negated(a: Seq<i16>) -> Seq<i16> {
    Seq::new(a.len(), |i: int| (-a[i]) as i16)
}

/// Exact cosine similarity: `dot / sqrt(norm_sq_a * norm_sq_b)`, `0` when `dot` is `0`.
pub struct Cosine {
    pub dot: i128,
    pub norm_sq_a: i128,
    pub norm_sq_b: i128,
}

impl Cosine {
    /// Components are in range for exact comparison.
    pub open spec fn wf(&self) -> bool {
        &&& -(COSINE_BOUND as int) < self.dot < COSINE_BOUND as int
        &&& 0 <= self.norm_sq_a < COSINE_BOUND as int
        &&& 0 <= self.norm_sq_b < COSINE_BOUND as int
    }

    /// The similarity is `0.0`.
    pub open spec fn is_zero(&self) -> bool {
        self.dot == 0
    }

    /// The similarity is `1.0`.
    pub open spec fn is_one(&self) -> bool {
        self.dot > 0 && self.dot * self.dot == self.norm_sq_a * self.norm_sq_b
    }

    /// The similarity is `-1.0`.
    pub open spec fn is_minus_one(&self) -> bool {
        self.dot < 0 && self.dot * self.dot == self.norm_sq_a * self.norm_sq_b
    }

    /// The similarity is greater than `num / den` (a non-negative threshold).
    pub open spec fn exceeds(&self, num: int, den: int) -> bool {
        self.dot > 0 && den * den * (self.dot * self.dot) > num * num * (self.norm_sq_a
            * self.norm_sq_b)
    }
}

/// The cosine similarity that [`similarity`] gives for `a` and `b`.
pub open spec fn cosine_of(a: Seq<i16>, b: Seq<i16>) -> Cosine {
    if a.len() != b.len() {
        Cosine { dot: 0, norm_sq_a: 0, norm_sq_b: 0 }
    } else {
        Cosine { dot: dot(a, b) as i128, norm_sq_a: norm_sq(a) as i128, norm_sq_b: norm_sq(b) as i128 }
    }
}

proof fn lemma_dot_upto_bound(a: Seq<i16>, b: Seq<i16>, n: int)
    requires
        0 <= n <= a.len(),
        n <= b.len(),
    ensures
        -n * 0x4000_0000 <= dot_upto(a, b, n) <= n * 0x4000_0000,
    decreases n,
{
    if n > 0 {
        lemma_dot_upto_bound(a, b, n - 1);
        lemma_entry_products(a[n - 1] as int, b[n - 1] as int);
    }
}

proof fn lemma_entry_products(x: int, y: int)
    requires
        -0x8000 <= x < 0x8000,
        -0x8000 <= y < 0x8000,
    ensures
        -0x4000_0000 <= x * y <= 0x4000_0000,
        0 <= x * x <= 0x4000_0000,
        0 <= y * y <= 0x4000_0000,
{
    assert(-0x4000_0000 <= x * y <= 0x4000_0000) by (nonlinear_arith)
        requires
            -0x8000 <= x < 0x8000,
            -0x8000 <= y < 0x8000,
    ;
    assert(0 <= x * x <= 0x4000_0000) by (nonlinear_arith)
        requires
            -0x8000 <= x < 0x8000,
    ;
    assert(0 <= y * y <= 0x4000_0000) by (nonlinear_arith)
        requires
            -0x8000 <= y < 0x8000,
    ;
}

proof fn lemma_norm_upto_nonneg(a: Seq<i16>, n: int)
    requires
        0 <= n <= a.len(),
    ensures
        dot_upto(a, a, n) >= 0,
        dot_upto(a, a, n) == 0 ==> forall|i: int| 0 <= i < n ==> a[i] == 0,
    decreases n,
{
    if n > 0 {
        lemma_norm_upto_nonneg(a, n - 1);
        let x = a[n - 1] as int;
        assert(x * x >= 0) by (nonlinear_arith);
        assert(x * x == 0 ==> x == 0) by (nonlinear_arith);
    }
}

proof fn lemma_dot_upto_zero(a: Seq<i16>, b: Seq<i16>, n: int)
    requires
        0 <= n <= a.len(),
        n <= b.len(),
        forall|i: int| 0 <= i < n ==> a[i] == 0,
    ensures
        dot_upto(a, b, n) == 0,
    decreases n,
{
    if n > 0 {
        lemma_dot_upto_zero(a, b, n - 1);
        assert(a[n - 1] == 0);
    }
}

/// A vector whose squared norm is zero is the zero vector.
pub proof fn lemma_norm_sq_zero(a: Seq<i16>)
    ensures
        norm_sq(a) >= 0,
        norm_sq(a) == 0 <==> is_zero_vector(a),
{
    lemma_norm_upto_nonneg(a, a.len() as int);
    if is_zero_vector(a) {
        lemma_dot_upto_zero(a, a, a.len() as int);
    }
}

/// The dot product with a zero vector is zero, on either side.
pub proof fn lemma_dot_zero(a: Seq<i16>, b: Seq<i16>)
    requires
        a.len() == b.len(),
        is_zero_vector(a) || is_zero_vector(b),
    ensures
        dot(a, b) == 0,
{
    if is_zero_vector(a) {
        lemma_dot_upto_zero(a, b, a.len() as int);
    } else {
        lemma_dot_upto_swap(a, b, a.len() as int);
        lemma_dot_upto_zero(b, a, a.len() as int);
    }
}

proof fn lemma_dot_upto_swap(a: Seq<i16>, b: Seq<i16>, n: int)
    requires
        0 <= n <= a.len(),
        n <= b.len(),
    ensures
        dot_upto(a, b, n) == dot_upto(b, a, n),
    decreases n,
{
    if n > 0 {
        lemma_dot_upto_swap(a, b, n - 1);
        let x = a[n - 1] as int;
        let y = b[n - 1] as int;
        assert(x * y == y * x) by (nonlinear_arith);
    }
}

/// Cosine similarity of two feature vectors.
///
/// Vectors of different lengths are not comparable and give `0`; so does a
/// zero vector, whose `dot` is `0`.
pub fn similarity(a: &[i16], b: &[i16]) -> (r: Cosine)
    ensures
        r == cosine_of(a@, b@),
        r.wf(),
{
    if a.len() != b.len() {
        return Cosine { dot: 0, norm_sq_a: 0, norm_sq_b: 0 };
    }
    let n = a.len();
    let mut d: i128 = 0;
    let mut na: i128 = 0;
    let mut nb: i128 = 0;
    let mut i: usize = 0;
    while i < n
        invariant
            n == a.len(),
            n == b.len(),
            0 <= i <= n,
            d == dot_upto(a@, b@, i as int),
            na == dot_upto(a@, a@, i as int),
            nb == dot_upto(b@, b@, i as int),
        decreases n - i,
    {
        proof {
            lemma_dot_upto_bound(a@, b@, i + 1);
            lemma_dot_upto_bound(a@, a@, i + 1);
            lemma_dot_upto_bound(b@, b@, i + 1);
            assert(i + 1 <= usize::MAX);
            assert(dot_upto(a@, b@, i + 1) == d + a@[i as int] * b@[i as int]);
            assert(dot_upto(a@, a@, i + 1) == na + a@[i as int] * a@[i as int]);
            assert(dot_upto(b@, b@, i + 1) == nb + b@[i as int] * b@[i as int]);
        }
        let x = a[i] as i128;
        let y = b[i] as i128;
        proof {
            lemma_entry_products(x as int, y as int);
        }
        d = d + x * y;
        na = na + x * x;
        nb = nb + y * y;
        i = i + 1;
    }
    proof {
        lemma_dot_upto_bound(a@, b@, n as int);
        lemma_norm_upto_nonneg(a@, n as int);
        lemma_norm_upto_nonneg(b@, n as int);
        lemma_dot_upto_bound(a@, a@, n as int);
        lemma_dot_upto_bound(b@, b@, n as int);
    }
    Cosine { dot: d, norm_sq_a: na, norm_sq_b: nb }
}

proof fn lemma_cosine_exact(a: Seq<i16>, b: Seq<i16>)
    requires
        a.len() == b.len(),
        a.len() <= usize::MAX,
    ensures
        cosine_of(a, b).dot == dot(a, b),
        cosine_of(a, b).norm_sq_a == norm_sq(a),
        cosine_of(a, b).norm_sq_b == norm_sq(b),
{
    lemma_dot_upto_bound(a, b, a.len() as int);
    lemma_dot_upto_bound(a, a, a.len() as int);
    lemma_dot_upto_bound(b, b, b.len() as int);
}

proof fn lemma_dot_upto_negated(v: Seq<i16>, n: int)
    requires
        0 <= n <= v.len(),
        forall|i: int| 0 <= i < v.len() ==> v[i] != i16::MIN,
    ensures
        dot_upto(v, negated(v), n) == -dot_upto(v, v, n),
        dot_upto(negated(v), negated(v), n) == dot_upto(v, v, n),
    decreases n,
{
    if n > 0 {
        lemma_dot_upto_negated(v, n - 1);
        let x = v[n - 1] as int;
        assert(negated(v)[n - 1] == -x);
        assert(x * (-x) == -(x * x)) by (nonlinear_arith);
        assert((-x) * (-x) == x * x) by (nonlinear_arith);
    }
}

/// A non-zero vector has similarity `1.0` with itself.
pub proof fn lemma_self_similarity(v: Seq<i16>)
    requires
        v.len() <= usize::MAX,
        !is_zero_vector(v),
    ensures
        cosine_of(v, v).is_one(),
{
    lemma_cosine_exact(v, v);
    lemma_norm_sq_zero(v);
}

/// Vectors of different lengths have similarity `0.0`.
pub proof fn lemma_mismatched_lengths(a: Seq<i16>, b: Seq<i16>)
    requires
        a.len() != b.len(),
    ensures
        cosine_of(a, b).is_zero(),
{
}

/// A zero vector has similarity `0.0` with any vector, on either side.
pub proof fn lemma_zero_vector_similarity(z: Seq<i16>, v: Seq<i16>)
    requires
        z.len() <= usize::MAX,
        v.len() <= usize::MAX,
        is_zero_vector(z),
    ensures
        cosine_of(z, v).is_zero(),
        cosine_of(v, z).is_zero(),
{
    if z.len() == v.len() {
        lemma_cosine_exact(z, v);
        lemma_cosine_exact(v, z);
        lemma_dot_zero(z, v);
        lemma_dot_zero(v, z);
    }
}

/// A non-zero vector has similarity `-1.0` with its negation.
pub proof fn lemma_negation_similarity(v: Seq<i16>)
    requires
        v.len() <= usize::MAX,
        !is_zero_vector(v),
        forall|i: int| 0 <= i < v.len() ==> v[i] != i16::MIN,
    ensures
        cosine_of(v, negated(v)).is_minus_one(),
{
    lemma_cosine_exact(v, negated(v));
    lemma_dot_upto_negated(v, v.len() as int);
    lemma_norm_sq_zero(v);
    let n = norm_sq(v);
    assert((-n) * (-n) == n * n) by (nonlinear_arith);
}

/// Value of the 256-bit number with high and low halves `hi` and `lo`.
pub open spec fn wide_value(w: (u128, u128)) -> int {
    w.0 * 0x1_0000_0000_0000_0000_0000_0000_0000_0000 + w.1
}

proof fn lemma_limb_product(x: int, y: int)
    requires
        0 <= x < 0x1_0000_0000_0000_0000,
        0 <= y < 0x1_0000_0000_0000_0000,
    ensures
        0 <= x * y <= 0xffff_ffff_ffff_fffe_0000_0000_0000_0001,
{
    assert(0 <= x * y <= 0xffff_ffff_ffff_fffe_0000_0000_0000_0001) by (nonlinear_arith)
        requires
            0 <= x <= 0xffff_ffff_ffff_ffff,
            0 <= y <= 0xffff_ffff_ffff_ffff,
    ;
}

proof fn lemma_expand_limbs(a1: int, a0: int, b1: int, b0: int, l: int)
    ensures
        (a1 * l + a0) * (b1 * l + b0) == (a1 * b1) * (l * l) + (a0 * b1 + a1 * b0) * l + a0
            * b0,
{
    let x = a1 * l;
    let y = b1 * l;
    lemma_mul_is_distributive_add(x + a0, y, b0);
    lemma_mul_is_distributive_add_other_way(y, x, a0);
    lemma_mul_is_distributive_add_other_way(b0, x, a0);
    lemma_mul_is_associative(a1, l, b1 * l);
    lemma_mul_is_associative(l, b1, l);
    lemma_mul_is_commutative(l, b1);
    lemma_mul_is_associative(b1, l, l);
    lemma_mul_is_associative(a1, b1, l * l);
    lemma_mul_is_associative(a0, b1, l);
    lemma_mul_is_commutative(a0, b1 * l);
    lemma_mul_is_associative(a1, l, b0);
    lemma_mul_is_commutative(l, b0);
    lemma_mul_is_associative(a1, b0, l);
    lemma_mul_is_distributive_add_other_way(l, a0 * b1, a1 * b0);
    lemma_mul_is_commutative(b0, a0);
}

/// The full product of two `u128`, as high and low halves.
fn mul_wide(a: u128, b: u128) -> (r: (u128, u128))
    ensures
        wide_value(r) == a * b,
{
    let a0 = a % LIMB;
    let a1 = a / LIMB;
    let b0 = b % LIMB;
    let b1 = b / LIMB;
    proof {
        lemma_limb_product(a0 as int, b0 as int);
        lemma_limb_product(a0 as int, b1 as int);
        lemma_limb_product(a1 as int, b0 as int);
        lemma_limb_product(a1 as int, b1 as int);
    }
    let lo_lo = a0 * b0;
    let lo_hi = a0 * b1;
    let hi_lo = a1 * b0;
    let hi_hi = a1 * b1;
    let mid = lo_hi % LIMB + hi_lo % LIMB + lo_lo / LIMB;
    let lo = lo_lo % LIMB + (mid % LIMB) * LIMB;
    let hi = hi_hi + lo_hi / LIMB + hi_lo / LIMB + mid / LIMB;
    proof {
        let l: int = 0x1_0000_0000_0000_0000;
        lemma_expand_limbs(a1 as int, a0 as int, b1 as int, b0 as int, l);
        assert(a == a1 * l + a0);
        assert(b == b1 * l + b0);
        assert(lo_hi == (lo_hi / LIMB) * l + lo_hi % LIMB);
        assert(hi_lo == (hi_lo / LIMB) * l + hi_lo % LIMB);
        assert(lo_lo == (lo_lo / LIMB) * l + lo_lo % LIMB);
        assert(mid == (mid / LIMB) * l + mid % LIMB);
        assert(l * l == 0x1_0000_0000_0000_0000_0000_0000_0000_0000);
    }
    (hi, lo)
}

/// Whether one 256-bit number exceeds another.
fn wide_gt(x: (u128, u128), y: (u128, u128)) -> (r: bool)
    ensures
        r == (wide_value(x) > wide_value(y)),
{
    x.0 > y.0 || (x.0 == y.0 && x.1 > y.1)
}

/// The similarity exceeds the match threshold of `0.7`.
pub open spec fn is_match(c: Cosine) -> bool {
    c.exceeds(7, 10)
}

/// Whether the similarity exceeds the match threshold of `0.7`, decided exactly.
pub fn exceeds_match_threshold(c: &Cosine) -> (r: bool)
    requires
        c.wf(),
    ensures
        r == is_match(*c),
{
    if c.dot <= 0 {
        return false;
    }
    let d = (c.dot as u128) * 10;
    let lhs = mul_wide(d, d);
    let rhs = mul_wide((c.norm_sq_a as u128) * 7, (c.norm_sq_b as u128) * 7);
    proof {
        let x = c.dot as int;
        let na = c.norm_sq_a as int;
        let nb = c.norm_sq_b as int;
        assert((x * 10) * (x * 10) == 100 * (x * x)) by (nonlinear_arith);
        assert((na * 7) * (nb * 7) == 49 * (na * nb)) by (nonlinear_arith);
    }
    wide_gt(lhs, rhs)
}

} // verus!
