//! Natural numbers of several 64-bit limbs, least significant first: just
//! enough to compare products of 128-bit values exactly.
use vstd::prelude::*;

verus! {

pub open spec fn base() -> nat {
    0x1_0000_0000_0000_0000
}

pub open spec fn pow64(n: nat) -> nat
    decreases n,
{
    if n == 0 {
        1
    } else {
        pow64((n - 1) as nat) * base()
    }
}

/// The value of a little-endian limb sequence.
pub open spec fn limbs_value(s: Seq<u64>) -> nat
    decreases s.len(),
{
    if s.len() == 0 {
        0
    } else {
        limbs_value(s.drop_last()) + (s.last() as nat) * pow64((s.len() - 1) as nat)
    }
}

proof fn lemma_value_push(s: Seq<u64>, v: u64)
    ensures
        limbs_value(s.push(v)) == limbs_value(s) + v * pow64(s.len()),
{
    assert(s.push(v).drop_last() =~= s);
}

proof fn lemma_value_take(s: Seq<u64>, i: int)
    requires
        0 <= i < s.len(),
    ensures
        limbs_value(s.take(i + 1)) == limbs_value(s.take(i)) + s[i] * pow64(i as nat),
{
    assert(s.take(i + 1) =~= s.take(i).push(s[i]));
    lemma_value_push(s.take(i), s[i]);
}

proof fn lemma_value_bound(s: Seq<u64>)
    ensures
        limbs_value(s) < pow64(s.len()),
    decreases s.len(),
{
    if s.len() > 0 {
        lemma_value_bound(s.drop_last());
        let p = pow64((s.len() - 1) as nat);
        let v = limbs_value(s.drop_last());
        let l = s.last();
        assert(v + l * p < p * base()) by (nonlinear_arith)
            requires
                v < p,
                l < base(),
        ;
    }
}

proof fn lemma_value_shift(s: Seq<u64>)
    ensures
        limbs_value(seq![0u64] + s) == limbs_value(s) * base(),
    decreases s.len(),
{
    if s.len() > 0 {
        lemma_value_shift(s.drop_last());
        let t = seq![0u64] + s;
        assert(t.drop_last() =~= seq![0u64] + s.drop_last());
        let p = pow64((s.len() - 1) as nat);
        let v = limbs_value(s.drop_last());
        let l = s.last();
        assert(t.last() == l);
        assert(t.len() == s.len() + 1);
        assert(pow64(s.len()) == p * base());
        assert(limbs_value(t) == limbs_value(t.drop_last()) + (l as nat) * pow64(s.len()));
        assert(v * base() + l * (p * base()) == (v + l * p) * base()) by (nonlinear_arith);
    } else {
        assert(seq![0u64] + s =~= seq![0u64]);
        assert(seq![0u64].drop_last() =~= Seq::<u64>::empty());
        assert(limbs_value(Seq::<u64>::empty()) == 0);
        assert(seq![0u64].len() == 1);
        assert(seq![0u64].last() == 0);
        assert(limbs_value(seq![0u64]) == limbs_value(seq![0u64].drop_last()) + 0 * pow64(0));
        assert(limbs_value(seq![0u64]) == 0);
    }
}

/// The two limbs of `a`.
pub fn from_u128(a: u128) -> (r: Vec<u64>)
    ensures
        r@.len() == 2,
        limbs_value(r@) == a,
{
    let lo = (a % 0x1_0000_0000_0000_0000) as u64;
    let hi = (a / 0x1_0000_0000_0000_0000) as u64;
    let mut r: Vec<u64> = Vec::new();
    r.push(lo);
    r.push(hi);
    proof {
        assert(pow64(0) == 1);
        assert(pow64(1) == base());
        assert(limbs_value(Seq::<u64>::empty()) == 0);
        lemma_value_push(Seq::<u64>::empty(), lo);
        assert(Seq::<u64>::empty().len() == 0);
        assert(seq![lo] =~= Seq::<u64>::empty().push(lo));
        assert(limbs_value(seq![lo]) == lo);
        lemma_value_push(seq![lo], hi);
        assert(r@ =~= seq![lo].push(hi));
        assert(limbs_value(r@) == lo + hi * base());
    }
    r
}

/// `x` times `m`.
pub fn mul_small(x: &Vec<u64>, m: u64) -> (r: Vec<u64>)
    ensures
        r@.len() == x@.len() + 1,
        limbs_value(r@) == limbs_value(x@) * m,
{
    let mut r: Vec<u64> = Vec::new();
    let mut carry: u64 = 0;
    let mut i: usize = 0;
    proof {
        assert(x@.take(0).len() == 0);
        assert(limbs_value(x@.take(0)) == 0);
        assert(limbs_value(r@) == 0);
        assert(limbs_value(x@.take(0)) * m == 0);
    }
    while i < x.len()
        invariant
            i <= x@.len(),
            r@.len() == i,
            limbs_value(r@) + carry * pow64(i as nat) == limbs_value(x@.take(i as int)) * m,
        decreases x.len() - i,
    {
        let xi = x[i];
        assert((xi as int) * (m as int) + carry <= 0xffff_ffff_ffff_ffff_ffff_ffff_ffff_ffff) by (nonlinear_arith)
            requires
                xi < base(),
                m < base(),
                carry < base(),
        ;
        let t: u128 = (xi as u128) * (m as u128) + (carry as u128);
        let lo = (t % 0x1_0000_0000_0000_0000) as u64;
        let hi = (t / 0x1_0000_0000_0000_0000) as u64;
        proof {
            let p = pow64(i as nat);
            lemma_value_push(r@, lo);
            lemma_value_take(x@, i as int);
            assert(pow64((i + 1) as nat) == p * base());
            assert(t == hi * base() + lo);
            assert(limbs_value(r@) + lo * p + hi * (p * base()) == limbs_value(r@) + carry * p + xi * m * p)
                by (nonlinear_arith)
                requires
                    t == hi * base() + lo,
                    t == xi * m + carry,
            ;
            assert(limbs_value(x@.take(i + 1)) * m == limbs_value(x@.take(i as int)) * m + xi * m * p)
                by (nonlinear_arith)
                requires
                    limbs_value(x@.take(i + 1)) == limbs_value(x@.take(i as int)) + xi * p,
            ;
        }
        r.push(lo);
        carry = hi;
        i = i + 1;
    }
    proof {
        lemma_value_push(r@, carry);
        assert(x@.take(x@.len() as int) =~= x@);
    }
    r.push(carry);
    r
}

/// `x` with a zero limb on top: the same value.
pub fn pad(x: &Vec<u64>) -> (r: Vec<u64>)
    ensures
        r@.len() == x@.len() + 1,
        limbs_value(r@) == limbs_value(x@),
{
    let mut r: Vec<u64> = Vec::new();
    let mut i: usize = 0;
    while i < x.len()
        invariant
            i <= x@.len(),
            r@ == x@.take(i as int),
        decreases x.len() - i,
    {
        r.push(x[i]);
        proof {
            assert(r@ =~= x@.take(i + 1));
        }
        i = i + 1;
    }
    proof {
        assert(r@ =~= x@);
        lemma_value_push(r@, 0);
    }
    r.push(0);
    r
}

/// `x` times `2^64`.
pub fn shift(x: &Vec<u64>) -> (r: Vec<u64>)
    ensures
        r@.len() == x@.len() + 1,
        limbs_value(r@) == limbs_value(x@) * base(),
{
    let mut r: Vec<u64> = Vec::new();
    r.push(0);
    let mut i: usize = 0;
    while i < x.len()
        invariant
            i <= x@.len(),
            r@ == seq![0u64] + x@.take(i as int),
        decreases x.len() - i,
    {
        r.push(x[i]);
        proof {
            assert(r@ =~= seq![0u64] + x@.take(i + 1));
        }
        i = i + 1;
    }
    proof {
        assert(x@.take(x@.len() as int) =~= x@);
        lemma_value_shift(x@);
    }
    r
}

/// `x + y` for limb sequences of equal length.
pub fn add_limbs(x: &Vec<u64>, y: &Vec<u64>) -> (r: Vec<u64>)
    requires
        x@.len() == y@.len(),
    ensures
        r@.len() == x@.len() + 1,
        limbs_value(r@) == limbs_value(x@) + limbs_value(y@),
{
    let mut r: Vec<u64> = Vec::new();
    let mut carry: u64 = 0;
    let mut i: usize = 0;
    proof {
        assert(limbs_value(x@.take(0)) == 0);
        assert(limbs_value(y@.take(0)) == 0);
        assert(limbs_value(r@) == 0);
    }
    while i < x.len()
        invariant
            x@.len() == y@.len(),
            i <= x@.len(),
            r@.len() == i,
            carry <= 1,
            limbs_value(r@) + carry * pow64(i as nat) == limbs_value(x@.take(i as int)) + limbs_value(
                y@.take(i as int),
            ),
        decreases x.len() - i,
    {
        let t: u128 = (x[i] as u128) + (y[i] as u128) + (carry as u128);
        let lo = (t % 0x1_0000_0000_0000_0000) as u64;
        let hi = (t / 0x1_0000_0000_0000_0000) as u64;
        proof {
            let p = pow64(i as nat);
            lemma_value_push(r@, lo);
            lemma_value_take(x@, i as int);
            lemma_value_take(y@, i as int);
            assert(pow64((i + 1) as nat) == p * base());
            assert(t == hi * base() + lo);
            assert(hi <= 1);
            assert(lo * p + hi * (p * base()) == (x@[i as int] + y@[i as int] + carry) * p) by (nonlinear_arith)
                requires
                    t == hi * base() + lo,
                    t == x@[i as int] + y@[i as int] + carry,
            ;
            assert((x@[i as int] + y@[i as int] + carry) * p == x@[i as int] * p + y@[i as int] * p + carry * p)
                by (nonlinear_arith);
        }
        r.push(lo);
        carry = hi;
        i = i + 1;
    }
    proof {
        lemma_value_push(r@, carry);
        assert(x@.take(x@.len() as int) =~= x@);
        assert(y@.take(y@.len() as int) =~= y@);
    }
    r.push(carry);
    r
}

/// `x` times `m`.
pub fn mul_wide(x: &Vec<u64>, m: u128) -> (r: Vec<u64>)
    ensures
        r@.len() == x@.len() + 3,
        limbs_value(r@) == limbs_value(x@) * m,
{
    let lo = (m % 0x1_0000_0000_0000_0000) as u64;
    let hi = (m / 0x1_0000_0000_0000_0000) as u64;
    let a = pad(&mul_small(x, lo));
    let b = shift(&mul_small(x, hi));
    let r = add_limbs(&a, &b);
    proof {
        let v = limbs_value(x@);
        assert(m == hi * base() + lo);
        assert(v * lo + v * hi * base() == v * m) by (nonlinear_arith)
            requires
                m == hi * base() + lo,
        ;
    }
    r
}

/// Whether `x` is at least `y`, for limb sequences of equal length.
pub fn at_least(x: &Vec<u64>, y: &Vec<u64>) -> (r: bool)
    requires
        x@.len() == y@.len(),
    ensures
        r == (limbs_value(x@) >= limbs_value(y@)),
{
    let mut i: usize = x.len();
    proof {
        assert(x@.take(x@.len() as int) =~= x@);
        assert(y@.take(y@.len() as int) =~= y@);
    }
    while i > 0
        invariant
            x@.len() == y@.len(),
            i <= x@.len(),
            limbs_value(x@) - limbs_value(x@.take(i as int)) == limbs_value(y@) - limbs_value(
                y@.take(i as int),
            ),
        decreases i,
    {
        let k = i - 1;
        proof {
            lemma_value_take(x@, k as int);
            lemma_value_take(y@, k as int);
            lemma_value_bound(x@.take(k as int));
            lemma_value_bound(y@.take(k as int));
        }
        if x[k] != y[k] {
            proof {
                let p = pow64(k as nat);
                let vx = limbs_value(x@.take(k as int));
                let vy = limbs_value(y@.take(k as int));
                let a = x@[k as int];
                let b = y@[k as int];
                if a > b {
                    assert(vx + a * p > vy + b * p) by (nonlinear_arith)
                        requires
                            a > b,
                            vy < p,
                            vx >= 0,
                    ;
                } else {
                    assert(vy + b * p > vx + a * p) by (nonlinear_arith)
                        requires
                            b > a,
                            vx < p,
                            vy >= 0,
                    ;
                }
            }
            return x[k] > y[k];
        }
        i = k;
    }
    proof {
        assert(x@.take(0) =~= Seq::<u64>::empty());
        assert(y@.take(0) =~= Seq::<u64>::empty());
    }
    true
}

} // verus!
