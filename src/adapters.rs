//! Built-in providers: deterministic stand-ins for the language model and
//! the embedder, and a name-based process scanner.
use vstd::prelude::*;
use vstd::wrapping::u64_specs;
use crate::error::Error;
use crate::node::EMBEDDING_SCALE;
use crate::ports::{EmbeddingPort, ImmunePort, LlmPort, ThreatLevel, ThreatReport};
use crate::vector::{dot, norm_sq};

verus! {

/// A language model that answers every prompt by quoting it.
pub struct MockLlmAdapter;

impl MockLlmAdapter {
    pub fn new() -> (r: Self) {
        MockLlmAdapter
    }

    /// The canned answer to `prompt`: `Mock response to: {prompt}`.
    pub fn respond(&self, prompt: &str) -> (r: String)
        ensures
            r@ == "Mock response to: "@ + prompt@,
    {
        let mut s = String::from_str("Mock response to: ");
        s.append(prompt);
        s
    }
}

impl LlmPort for MockLlmAdapter {
    fn generate(&self, prompt: &str, max_tokens: usize) -> (r: Result<String, Error>)
        ensures
            r is Ok && r->Ok_0@ == "Mock response to: "@ + prompt@,
    {
        Ok(self.respond(prompt))
    }
}

/// Default dimension of embeddings.
pub const DEFAULT_DIMENSION: usize = 384;

/// Multiplier that spreads the text hash over components.
pub const SPREAD: u64 = 0x517cc1b727220a95;

/// Position-weighted wrapping sum of the character codes of `s`.
pub open spec fn text_hash(s: Seq<char>) -> u64
    decreases s.len(),
{
    if s.len() == 0 {
        0
    } else {
        u64_specs::wrapping_add(
            text_hash(s.drop_last()),
            u64_specs::wrapping_mul(s.last() as u32 as u64, s.len() as u64),
        )
    }
}

/// Component `i` before normalisation, in thousandths: in `[-1000, 999]`.
pub open spec fn raw_component(h: u64, i: int) -> int {
    (u64_specs::wrapping_mul(u64_specs::wrapping_add(h, i as u64), SPREAD) % 2000) as int - 1000
}

pub open spec fn raw_vector(h: u64, dim: nat) -> Seq<i32> {
    Seq::new(dim, |i: int| raw_component(h, i) as i32)
}

/// `v` divided by `norm` and scaled to fixed point, rounding toward zero;
/// all zeros when `norm` is zero.
pub open spec fn normalized(v: Seq<i32>, norm: int) -> Seq<i32> {
    Seq::new(
        v.len(),
        |i: int|
            if norm == 0 {
                0i32
            } else if v[i] >= 0 {
                ((v[i] * EMBEDDING_SCALE) / norm) as i32
            } else {
                (-((-v[i] * EMBEDDING_SCALE) / norm)) as i32
            },
    )
}

/// `v` is the mock embedding of `text` with `dim` components: the hashed
/// raw vector scaled to unit length by its integer norm.
pub open spec fn is_mock_embedding(text: Seq<char>, dim: nat, v: Seq<i32>) -> bool {
    let raw = raw_vector(text_hash(text), dim);
    &&& v.len() == dim
    &&& exists|n: int| is_isqrt(dot(raw, raw), n) && v == #[trigger] normalized(raw, n)
}

/// `r` is the integer square root of `x`.
pub open spec fn is_isqrt(x: int, r: int) -> bool {
    0 <= r && r * r <= x < (r + 1) * (r + 1)
}

/// The integer square root of `x`.
pub fn isqrt(x: u128) -> (r: u128)
    ensures
        is_isqrt(x as int, r as int),
{
    let mut lo: u128 = 0;
    let mut hi: u128 = 0x1_0000_0000_0000_0000;
    assert(x < hi * hi);
    while hi - lo > 1
        invariant
            lo < hi <= 0x1_0000_0000_0000_0000,
            lo * lo <= x < hi * hi,
        decreases hi - lo,
    {
        let mid = lo + (hi - lo) / 2;
        assert(mid * mid < 0x1_0000_0000_0000_0000_0000_0000_0000_0000) by (nonlinear_arith)
            requires
                mid < 0x1_0000_0000_0000_0000,
        ;
        if mid * mid <= x {
            lo = mid;
        } else {
            hi = mid;
        }
    }
    assert(hi == lo + 1);
    lo
}

/// A deterministic embedder: the embedding is a unit vector derived from a
/// hash of the text.
pub struct MockEmbeddingAdapter {
    dimension: usize,
}

impl MockEmbeddingAdapter {
    pub closed spec fn spec_dimension(&self) -> usize {
        self.dimension
    }

    /// An embedder of the default dimension.
    pub fn new() -> (r: Self)
        ensures
            r.spec_dimension() == DEFAULT_DIMENSION,
    {
        MockEmbeddingAdapter { dimension: DEFAULT_DIMENSION }
    }

    /// An embedder of `dimension` components.
    pub fn with_dimension(dimension: usize) -> (r: Self)
        ensures
            r.spec_dimension() == dimension,
    {
        MockEmbeddingAdapter { dimension }
    }

    /// The position-weighted hash of `text`.
    pub fn hash_text(text: &str) -> (r: u64)
        ensures
            r == text_hash(text@),
    {
        let n = text.unicode_len();
        let mut h: u64 = 0;
        let mut i: usize = 0;
        while i < n
            invariant
                n == text@.len(),
                i <= n,
                h == text_hash(text@.take(i as int)),
            decreases n - i,
        {
            let c = text.get_char(i);
            proof {
                assert(text@.take(i + 1).drop_last() =~= text@.take(i as int));
            }
            h = h.wrapping_add((c as u32 as u64).wrapping_mul((i + 1) as u64));
            i = i + 1;
        }
        assert(text@.take(n as int) =~= text@);
        h
    }

    /// The embedding of `text`: the hashed raw vector scaled to unit length.
    pub fn embedding_of(&self, text: &str) -> (r: Vec<i32>)
        ensures
            is_mock_embedding(text@, self.spec_dimension() as nat, r@),
    {
        let h = Self::hash_text(text);
        let ghost raw = raw_vector(h, self.dimension as nat);
        let mut v: Vec<i32> = Vec::new();
        let mut i: usize = 0;
        while i < self.dimension
            invariant
                i <= self.dimension,
                raw == raw_vector(h, self.dimension as nat),
                v@ == raw.take(i as int),
            decreases self.dimension - i,
        {
            let seed = h.wrapping_add(i as u64).wrapping_mul(SPREAD);
            let c: i32 = (seed % 2000) as i32 - 1000;
            v.push(c);
            proof {
                assert(v@ =~= raw.take(i + 1));
            }
            i = i + 1;
        }
        assert(v@ =~= raw);
        let norm = isqrt(norm_sq(&v));
        let mut out: Vec<i32> = Vec::new();
        let mut j: usize = 0;
        let ghost target = normalized(raw, norm as int);
        while j < v.len()
            invariant
                v@ == raw,
                raw == raw_vector(h, self.dimension as nat),
                j <= v@.len(),
                target == normalized(raw, norm as int),
                is_isqrt(dot(raw, raw), norm as int),
                out@ == target.take(j as int),
            decreases v.len() - j,
        {
            let x = v[j] as i64;
            let c: i32 = if norm == 0 {
                0
            } else {
                assert(raw[j as int] == raw_component(h, j as int) as i32);
                assert(-1000 <= x < 1000);
                assert(norm >= 1);
                let a: u128 = if x >= 0 { x as u128 } else { (-x) as u128 };
                let prod: u128 = a * (EMBEDDING_SCALE as u128);
                let q: u128 = prod / norm;
                assert(q <= prod) by (nonlinear_arith)
                    requires
                        norm >= 1,
                        q == prod / norm,
                ;
                if x >= 0 {
                    q as i32
                } else {
                    -(q as i32)
                }
            };
            out.push(c);
            proof {
                assert(out@ =~= target.take(j + 1));
            }
            j = j + 1;
        }
        assert(out@ =~= target);
        assert(raw == raw_vector(text_hash(text@), self.spec_dimension() as nat));
        assert(is_isqrt(dot(raw, raw), norm as int));
        out
    }
}

impl Default for MockEmbeddingAdapter {
    fn default() -> (r: Self)
        ensures
            r.spec_dimension() == DEFAULT_DIMENSION,
    {
        Self::new()
    }
}

impl EmbeddingPort for MockEmbeddingAdapter {
    fn embed(&self, text: &str) -> (r: Result<Vec<i32>, Error>)
        ensures
            r is Ok && is_mock_embedding(text@, self.spec_dimension() as nat, r->Ok_0@),
    {
        Ok(self.embedding_of(text))
    }

    fn dimension(&self) -> (r: usize)
        ensures
            r == self.spec_dimension(),
    {
        self.dimension
    }

    fn provider_name(&self) -> (r: String)
        ensures
            r@ == "mock"@,
    {
        String::from_str("mock")
    }
}

/// `pat` occurs in `s`.
pub open spec fn occurs_in(s: Seq<char>, pat: Seq<char>) -> bool {
    exists|i: int| 0 <= i && i + pat.len() <= s.len() && #[trigger] s.subrange(i, i + pat.len()) == pat
}

fn chars_of(s: &str) -> (r: Vec<char>)
    ensures
        r@ == s@,
{
    let n = s.unicode_len();
    let mut r: Vec<char> = Vec::new();
    let mut i: usize = 0;
    while i < n
        invariant
            n == s@.len(),
            i <= n,
            r@ == s@.take(i as int),
        decreases n - i,
    {
        r.push(s.get_char(i));
        proof {
            assert(r@ =~= s@.take(i + 1));
        }
        i = i + 1;
    }
    assert(r@ =~= s@);
    r
}

/// Whether `pat` occurs in `s`.
pub fn contains_text(s: &str, pat: &str) -> (r: bool)
    ensures
        r == occurs_in(s@, pat@),
{
    let sv = chars_of(s);
    let pv = chars_of(pat);
    if pv.len() > sv.len() {
        return false;
    }
    let mut i: usize = 0;
    while i <= sv.len() - pv.len()
        invariant
            sv@ == s@,
            pv@ == pat@,
            pv@.len() <= sv@.len(),
            i <= sv@.len() - pv@.len() + 1,
            forall|k: int| 0 <= k < i ==> #[trigger] sv@.subrange(k, k + pv@.len()) != pv@,
        decreases sv.len() - i,
    {
        let mut j: usize = 0;
        let mut same = true;
        while j < pv.len()
            invariant
                sv@ == s@,
                pv@ == pat@,
                i + pv.len() <= sv.len(),
                j <= pv.len(),
                same == (forall|m: int| 0 <= m < j ==> sv@[i + m] == #[trigger] pv@[m]),
            decreases pv.len() - j,
        {
            if sv[i + j] != pv[j] {
                same = false;
            }
            j = j + 1;
        }
        if same {
            assert(sv@.subrange(i as int, i + pv@.len()) =~= pv@);
            return true;
        }
        proof {
            let m = choose|m: int| 0 <= m < pv@.len() && sv@[i + m] != pv@[m];
            assert(sv@.subrange(i as int, i + pv@.len())[m] != pv@[m]);
        }
        i = i + 1;
    }
    proof {
        assert forall|k: int| 0 <= k && k + pat@.len() <= s@.len() implies #[trigger] s@.subrange(
            k,
            k + pat@.len(),
        ) != pat@ by {
            assert(k < i);
        }
    }
    false
}

/// A scanner that flags processes by name.
pub struct BasicImmuneAdapter;

impl BasicImmuneAdapter {
    pub fn new() -> (r: Self) {
        BasicImmuneAdapter
    }

    /// `Critical` for a process whose name contains `malware`, else `Safe`.
    pub fn threat_level(&self, process_name: &str) -> (r: ThreatLevel)
        ensures
            r == (if occurs_in(process_name@, "malware"@) {
                ThreatLevel::Critical
            } else {
                ThreatLevel::Safe
            }),
    {
        if contains_text(process_name, "malware") {
            ThreatLevel::Critical
        } else {
            ThreatLevel::Safe
        }
    }
}

impl ImmunePort for BasicImmuneAdapter {
    fn check_integrity(&self) -> (r: Result<bool, Error>)
        ensures
            r == Ok::<bool, Error>(true),
    {
        Ok(true)
    }

    fn scan_process(&self, process_name: &str) -> (r: Result<ThreatLevel, Error>)
        ensures
            r is Ok && r->Ok_0 == (if occurs_in(process_name@, "malware"@) {
                ThreatLevel::Critical
            } else {
                ThreatLevel::Safe
            }),
    {
        Ok(self.threat_level(process_name))
    }

    fn report_threat(&self, report: ThreatReport) -> Result<(), Error> {
        Ok(())
    }
}

} // verus!
