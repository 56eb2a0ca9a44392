//! Unit chunking. A requested count may be far beyond any machine integer;
//! generation therefore splits it into an ordered run of chunks, each at
//! most the configured unit, that sum exactly to the count: `n / unit`
//! chunks of the full unit, then the remainder if it is nonzero. This
//! bounds the memory any single unit of work may touch.

use vstd::prelude::*;

use crate::big::{big_div, big_eq, big_from_u64, big_rem, big_sub, nat_of};
use num_bigint::BigUint;
use vstd::arithmetic::div_mod::{
    lemma_basic_div, lemma_fundamental_div_mod, lemma_small_mod,
};

verus! {

/// Sum of a sequence of naturals.
pub open spec fn sum_of(s: Seq<nat>) -> nat
    decreases s.len(),
{
    if s.len() == 0 {
        0
    } else {
        sum_of(s.drop_last()) + s.last()
    }
}

/// The numbers a sequence of counts holds.
pub open spec fn values_of(s: Seq<BigUint>) -> Seq<nat> {
    s.map_values(|b: BigUint| nat_of(b))
}

/// Appending one element adds its value to the sum.
pub proof fn lemma_sum_push(s: Seq<nat>, v: nat)
    ensures
        sum_of(s.push(v)) == sum_of(s) + v,
{
    assert(s.push(v).drop_last() =~= s);
}

/// Splits a count into chunks bounded by `unit`: first `n / unit` chunks
/// holding the full unit, then the remainder `n % unit` if it is nonzero.
/// The chunks sum exactly to `n`, and a zero count yields no chunks.
pub fn chunk_counts(n: &BigUint, unit: &BigUint) -> (chunks: Vec<BigUint>)
    requires
        nat_of(*unit) > 0,
    ensures
        sum_of(values_of(chunks@)) == nat_of(*n),
        forall|i: int|
            0 <= i < chunks@.len() ==> 0 < nat_of(#[trigger] chunks@[i]) <= nat_of(*unit),
        chunks@.len() == nat_of(*n) / nat_of(*unit) + (if nat_of(*n) % nat_of(*unit) > 0 {
            1nat
        } else {
            0nat
        }),
        forall|i: int|
            0 <= i < nat_of(*n) / nat_of(*unit) ==> nat_of(#[trigger] chunks@[i]) == nat_of(
                *unit,
            ),
        nat_of(*n) % nat_of(*unit) > 0 ==> nat_of(chunks@.last()) == nat_of(*n) % nat_of(*unit),
{
    let ghost nv = nat_of(*n);
    let ghost uv = nat_of(*unit);
    let ghost qv = nv / uv;
    let ghost rv = nv % uv;
    let q = big_div(n, unit);
    let r = big_rem(n, unit);
    let zero = big_from_u64(0);
    let one = big_from_u64(1);
    let mut chunks: Vec<BigUint> = Vec::new();
    let mut left = q;
    while !big_eq(&left, &zero)
        invariant
            nat_of(zero) == 0,
            nat_of(one) == 1,
            nat_of(*unit) == uv,
            uv > 0,
            nat_of(left) + chunks@.len() == qv,
            forall|i: int|
                0 <= i < chunks@.len() ==> nat_of(#[trigger] chunks@[i]) == uv,
            sum_of(values_of(chunks@)) == chunks@.len() * uv,
        decreases nat_of(left),
    {
        let ghost old_chunks = chunks@;
        chunks.push(unit.clone());
        left = big_sub(&left, &one);
        proof {
            assert(values_of(chunks@) =~= values_of(old_chunks).push(uv));
            lemma_sum_push(values_of(old_chunks), uv);
            assert((old_chunks.len() + 1) * uv == old_chunks.len() * uv + uv)
                by (nonlinear_arith);
        }
    }
    proof {
        assert(chunks@.len() == qv);
        lemma_fundamental_div_mod(nv as int, uv as int);
        assert(qv * uv + rv == nv) by (nonlinear_arith)
            requires
                nv == uv * qv + rv,
        ;
    }
    if !big_eq(&r, &zero) {
        proof {
            lemma_sum_push(values_of(chunks@), rv);
            assert(values_of(chunks@.push(r)) =~= values_of(chunks@).push(rv));
        }
        chunks.push(r);
    }
    chunks
}

/// With a unit too large for a `usize`, a count that fits one is below the
/// unit, so the split is a single chunk holding the whole count.
pub proof fn lemma_small_count_single_chunk(n: nat, u: nat)
    requires
        0 < u,
        n < u,
    ensures
        n / u == 0,
        n % u == n,
{
    lemma_basic_div(n as int, u as int);
    lemma_small_mod(n, u);
}

} // verus!
