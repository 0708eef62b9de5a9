//! Fixed-point vector arithmetic: squared distances and dot products.
use vstd::prelude::*;

verus! {

/// Squared Euclidean distance of two fixed-point vectors of equal length.
pub open spec fn sq_dist(a: Seq<i32>, b: Seq<i32>) -> int
    decreases a.len(),
{
    if a.len() == 0 || b.len() == 0 {
        0
    } else {
        let d = a.last() - b.last();
        sq_dist(a.drop_last(), b.drop_last()) + d * d
    }
}

/// Dot product of two fixed-point vectors of equal length.
pub open spec fn dot(a: Seq<i32>, b: Seq<i32>) -> int
    decreases a.len(),
{
    if a.len() == 0 || b.len() == 0 {
        0
    } else {
        dot(a.drop_last(), b.drop_last()) + a.last() * b.last()
    }
}

/// `2^64`, the bound of one squared difference.
pub open spec fn two64() -> int {
    0x1_0000_0000_0000_0000
}

/// The squared Euclidean distance of `a` and `b`.
pub fn squared_distance(a: &Vec<i32>, b: &Vec<i32>) -> (r: u128)
    requires
        a@.len() == b@.len(),
    ensures
        r as int == sq_dist(a@, b@),
{
    let mut acc: u128 = 0;
    let mut i: usize = 0;
    while i < a.len()
        invariant
            a@.len() == b@.len(),
            i <= a@.len(),
            acc as int == sq_dist(a@.take(i as int), b@.take(i as int)),
            acc as int <= i * two64(),
        decreases a.len() - i,
    {
        let d: i64 = a[i] as i64 - b[i] as i64;
        assert(0 <= d * d < two64()) by (nonlinear_arith)
            requires
                -0x1_0000_0000 < d < 0x1_0000_0000,
        ;
        let sq: u128 = ((d as i128) * (d as i128)) as u128;
        assert(acc + sq <= (i + 1) * two64()) by (nonlinear_arith)
            requires
                acc <= i * two64(),
                sq < two64(),
        ;
        assert((i + 1) * two64() <= 0x1_0000_0000_0000_0000_0000_0000_0000_0000) by (nonlinear_arith)
            requires
                i < 0x1_0000_0000_0000_0000,
        ;
        proof {
            let ai = a@.take(i + 1);
            let bi = b@.take(i + 1);
            assert(ai.drop_last() =~= a@.take(i as int));
            assert(bi.drop_last() =~= b@.take(i as int));
        }
        acc = acc + sq;
        i = i + 1;
    }
    assert(a@.take(a@.len() as int) =~= a@);
    assert(b@.take(b@.len() as int) =~= b@);
    acc
}


/// `2^62`, the bound of one product of two components.
pub open spec fn two62() -> int {
    0x4000_0000_0000_0000
}

/// The dot product of `a` and `b`.
pub fn dot_product(a: &Vec<i32>, b: &Vec<i32>) -> (r: i128)
    requires
        a@.len() == b@.len(),
    ensures
        r as int == dot(a@, b@),
{
    let mut acc: i128 = 0;
    let mut i: usize = 0;
    while i < a.len()
        invariant
            a@.len() == b@.len(),
            i <= a@.len(),
            acc as int == dot(a@.take(i as int), b@.take(i as int)),
            -(i * two62()) <= acc <= i * two62(),
        decreases a.len() - i,
    {
        let x: i64 = a[i] as i64;
        let y: i64 = b[i] as i64;
        assert(-two62() <= x * y <= two62()) by (nonlinear_arith)
            requires
                -0x8000_0000 <= x < 0x8000_0000,
                -0x8000_0000 <= y < 0x8000_0000,
        ;
        let p: i128 = (x as i128) * (y as i128);
        assert(-((i + 1) * two62()) <= acc + p <= (i + 1) * two62()) by (nonlinear_arith)
            requires
                -(i * two62()) <= acc <= i * two62(),
                -two62() <= p <= two62(),
        ;
        assert((i + 1) * two62() <= 0x4000_0000_0000_0000_0000_0000_0000_0000) by (nonlinear_arith)
            requires
                i < 0x1_0000_0000_0000_0000,
        ;
        proof {
            assert(a@.take(i + 1).drop_last() =~= a@.take(i as int));
            assert(b@.take(i + 1).drop_last() =~= b@.take(i as int));
        }
        acc = acc + p;
        i = i + 1;
    }
    assert(a@.take(a@.len() as int) =~= a@);
    assert(b@.take(b@.len() as int) =~= b@);
    acc
}

/// The squared Euclidean norm of `a`.
pub fn norm_sq(a: &Vec<i32>) -> (r: u128)
    ensures
        r as int == dot(a@, a@),
{
    let mut acc: u128 = 0;
    let mut i: usize = 0;
    while i < a.len()
        invariant
            i <= a@.len(),
            acc as int == dot(a@.take(i as int), a@.take(i as int)),
            acc <= i * two62(),
        decreases a.len() - i,
    {
        let x: i64 = a[i] as i64;
        assert(0 <= x * x <= two62()) by (nonlinear_arith)
            requires
                -0x8000_0000 <= x < 0x8000_0000,
        ;
        let p: u128 = ((x as i128) * (x as i128)) as u128;
        assert(acc + p <= (i + 1) * two62()) by (nonlinear_arith)
            requires
                acc <= i * two62(),
                p <= two62(),
        ;
        assert((i + 1) * two62() <= 0x4000_0000_0000_0000_0000_0000_0000_0000) by (nonlinear_arith)
            requires
                i < 0x1_0000_0000_0000_0000,
        ;
        proof {
            assert(a@.take(i + 1).drop_last() =~= a@.take(i as int));
        }
        acc = acc + p;
        i = i + 1;
    }
    assert(a@.take(a@.len() as int) =~= a@);
    acc
}

/// A vector of zeros has a zero dot product with any vector.
pub proof fn lemma_dot_zero(a: Seq<i32>, b: Seq<i32>)
    requires
        forall|i: int| 0 <= i < a.len() ==> a[i] == 0,
    ensures
        dot(a, b) == 0,
        dot(b, a) == 0,
    decreases a.len(),
{
    if a.len() > 0 && b.len() > 0 {
        lemma_dot_zero(a.drop_last(), b.drop_last());
    }
}

} // verus!
