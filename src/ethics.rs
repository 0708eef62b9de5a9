//! The Genesis filter: an immutable ethical embedding that gates actions.
use vstd::prelude::*;
use crate::error::Error;
use crate::sys::now_seconds;
use crate::vector::{dot, dot_product, norm_sq, lemma_dot_zero};
use crate::wide::{at_least, from_u128, mul_small, mul_wide};

verus! {

/// Thresholds are fractions of `THRESHOLD_SCALE`.
pub const THRESHOLD_SCALE: u32 = 10000;

/// The default threshold, 0.95.
pub const DEFAULT_ETHICAL_THRESHOLD: u32 = 9500;

/// The cosine similarity `dot / sqrt(na * ne)` (zero when a norm is zero)
/// reaches `t / THRESHOLD_SCALE`, compared exactly by squaring.
pub open spec fn similarity_meets(dot: int, na: int, ne: int, t: int) -> bool {
    if na == 0 || ne == 0 {
        t <= 0
    } else {
        dot >= 0 && dot * dot * (THRESHOLD_SCALE * THRESHOLD_SCALE) >= t * t * na * ne
    }
}

impl Error {
    pub open spec fn is_ethics_violation(&self, dot: int, na: int, ne: int, t: int) -> bool {
        match self {
            Error::EthicsViolation { dot: d, action_norm_sq: a, ethical_norm_sq: e, threshold: th } =>
                d == dot && a == na && e == ne && th == t,
            _ => false,
        }
    }
}

/// The outcome of evaluating `action` against `ethical` at threshold `t`.
pub open spec fn evaluation(ethical: Seq<i32>, action: Seq<i32>, t: u32, r: Result<bool, Error>) -> bool {
    let d = dot(ethical, action);
    let na = dot(action, action);
    let ne = dot(ethical, ethical);
    if action.len() != ethical.len() {
        r is Err && r->Err_0.is_dimension_mismatch(ethical.len(), action.len())
    } else if similarity_meets(d, na, ne, t as int) {
        r == Ok::<bool, Error>(true)
    } else {
        r is Err && r->Err_0.is_ethics_violation(d, na, ne, t as int)
    }
}

/// The ethical baseline all actions are compared with.
#[derive(Debug, Clone)]
pub struct GenesisBlock {
    /// Fixed-point embedding of the baseline.
    pub ethical_vector: Vec<i32>,
    /// Cosine similarity threshold, in units of `1 / THRESHOLD_SCALE`.
    pub threshold: u32,
    /// Seconds since the Unix epoch.
    pub created_at: i64,
    pub version: String,
}

impl GenesisBlock {
    /// A baseline with the default threshold, version `1.0.0`, stamped now.
    pub fn new(ethical_vector: Vec<i32>) -> (r: Self)
        ensures
            r.ethical_vector@ == ethical_vector@,
            r.threshold == DEFAULT_ETHICAL_THRESHOLD,
            r.version@ == "1.0.0"@,
    {
        GenesisBlock {
            ethical_vector,
            threshold: DEFAULT_ETHICAL_THRESHOLD,
            created_at: now_seconds(),
            version: String::from_str("1.0.0"),
        }
    }

    /// The baseline with another threshold, at most `THRESHOLD_SCALE`.
    pub fn with_threshold(self, threshold: u32) -> (r: Self)
        requires
            threshold <= THRESHOLD_SCALE,
        ensures
            r.ethical_vector@ == self.ethical_vector@,
            r.threshold == threshold,
            r.created_at == self.created_at,
            r.version@ == self.version@,
    {
        let mut g = self;
        g.threshold = threshold;
        g
    }

    /// Accepts `action_vector` (`Ok(true)`) when its cosine similarity with
    /// the baseline reaches the threshold; otherwise fails with
    /// `EthicsViolation`. Fails with `DimensionMismatch` on a vector of
    /// another length. The comparison is exact, in as many bits as it needs.
    pub fn evaluate_intention(&self, action_vector: &Vec<i32>) -> (r: Result<bool, Error>)
        ensures
            evaluation(self.ethical_vector@, action_vector@, self.threshold, r),
    {
        if action_vector.len() != self.ethical_vector.len() {
            return Err(
                Error::DimensionMismatch {
                    expected: self.ethical_vector.len(),
                    got: action_vector.len(),
                },
            );
        }
        let d = dot_product(&self.ethical_vector, action_vector);
        let na = norm_sq(action_vector);
        let ne = norm_sq(&self.ethical_vector);
        let t = self.threshold;
        let violation = Error::EthicsViolation {
            dot: d,
            action_norm_sq: na,
            ethical_norm_sq: ne,
            threshold: t,
        };
        if na == 0 || ne == 0 {
            if t == 0 {
                return Ok(true);
            }
            return Err(violation);
        }
        if d < 0 {
            return Err(violation);
        }
        let scale2: u64 = (THRESHOLD_SCALE as u64) * (THRESHOLD_SCALE as u64);
        assert((t as int) * (t as int) < 0x1_0000_0000_0000_0000) by (nonlinear_arith)
            requires
                t < 0x1_0000_0000,
        ;
        let t2: u64 = (t as u64) * (t as u64);
        let du = d as u128;
        let lhs = mul_small(&mul_wide(&from_u128(du), du), scale2);
        let rhs = mul_small(&mul_wide(&from_u128(na), ne), t2);
        proof {
            assert(du * du * scale2 == d * d * (THRESHOLD_SCALE * THRESHOLD_SCALE));
            assert(na * ne * t2 == (t as int) * (t as int) * na * ne) by (nonlinear_arith)
                requires
                    t2 == (t as int) * (t as int),
            ;
        }
        if at_least(&lhs, &rhs) {
            Ok(true)
        } else {
            Err(violation)
        }
    }
}

impl Default for GenesisBlock {
    /// A zero baseline of the default dimension: it accepts no action at a
    /// positive threshold.
    fn default() -> (r: Self)
        ensures
            r.ethical_vector@.len() == 384,
            forall|i: int| 0 <= i < 384 ==> r.ethical_vector@[i] == 0,
            r.threshold == DEFAULT_ETHICAL_THRESHOLD,
    {
        let mut v: Vec<i32> = Vec::new();
        let mut i: usize = 0;
        while i < 384
            invariant
                i <= 384,
                v@.len() == i,
                forall|j: int| 0 <= j < i ==> v@[j] == 0,
            decreases 384 - i,
        {
            v.push(0);
            i = i + 1;
        }
        Self::new(v)
    }
}

/// Evaluating against, or with, a vector of zeros is a violation at any
/// positive threshold: the similarity is then zero.
pub proof fn lemma_zero_vector_is_violation(ethical: Seq<i32>, action: Seq<i32>, t: u32, r: Result<bool, Error>)
    requires
        action.len() == ethical.len(),
        (forall|i: int| 0 <= i < action.len() ==> action[i] == 0) || (forall|i: int|
            0 <= i < ethical.len() ==> ethical[i] == 0),
        t > 0,
        evaluation(ethical, action, t, r),
    ensures
        r is Err && r->Err_0.is_ethics_violation(0, dot(action, action), dot(ethical, ethical), t as int),
        dot(action, action) == 0 || dot(ethical, ethical) == 0,
{
    if forall|i: int| 0 <= i < action.len() ==> action[i] == 0 {
        lemma_dot_zero(action, ethical);
        lemma_dot_zero(action, action);
    } else {
        lemma_dot_zero(ethical, action);
        lemma_dot_zero(ethical, ethical);
    }
}

} // verus!
