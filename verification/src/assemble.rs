//! Unit assembly. Each chunk is one independent unit of work: draw that
//! many uniform random indices into the class pool (with replacement) and
//! collect the characters in draw order. Chunks carry no shared mutable
//! state, so they run as parallel tasks; their outputs are collected back
//! in chunk order and concatenated.

use vstd::prelude::*;

use crate::big::{big_from_u64, big_eq, big_to_usize, nat_of};
use crate::chunk::{chunk_counts, lemma_small_count_single_chunk, sum_of, values_of};
use num_bigint::BigUint;
use rand::Rng;
use rayon::iter::{IntoParallelRefIterator, ParallelIterator};

verus! {

/// Relies on rand's thread-local generator and `Rng::gen_range`: the draw
/// lies below `len`; nothing more is assumed of a random value.
#[verifier::external_body]
pub(crate) fn rand_index(len: usize) -> (r: usize)
    requires
        len > 0,
    ensures
        r < len,
{
    rand::thread_rng().gen_range(0..len)
}

/// Every character of `s` occurs in `pool`.
pub open spec fn all_from(s: Seq<char>, pool: Seq<char>) -> bool {
    forall|i: int| 0 <= i < s.len() ==> pool.contains(#[trigger] s[i])
}

/// One unit of work: `c` uniform random draws from the pool, with
/// replacement (repeats are expected), concatenated in draw order.
pub fn assemble_unit(c: usize, pool: &Vec<char>) -> (out: Vec<char>)
    requires
        pool@.len() > 0,
    ensures
        out@.len() == c,
        all_from(out@, pool@),
{
    let mut out: Vec<char> = Vec::new();
    let mut k: usize = 0;
    while k < c
        invariant
            pool@.len() > 0,
            k <= c,
            out@.len() == k,
            all_from(out@, pool@),
        decreases c - k,
    {
        let idx = rand_index(pool.len());
        out.push(pool[idx]);
        k = k + 1;
        proof {
            assert(pool@.contains(out@.last()));
        }
    }
    out
}

/// Relies on rayon's `par_iter().map(..).collect()`, which applies the
/// closure to every chunk and collects the results in chunk order. The
/// closure only calls the verified `assemble_unit`, whose contract this
/// one restates pointwise.
#[verifier::external_body]
fn par_assemble(chunks: &Vec<usize>, pool: &Vec<char>) -> (parts: Vec<Vec<char>>)
    requires
        pool@.len() > 0,
    ensures
        parts@.len() == chunks@.len(),
        forall|i: int|
            0 <= i < parts@.len() ==> (#[trigger] parts@[i])@.len() == chunks@[i] as nat,
        forall|i: int| 0 <= i < parts@.len() ==> all_from(#[trigger] parts@[i]@, pool@),
{
    chunks.par_iter().map(|c| assemble_unit(*c, pool)).collect()
}

/// Taking one more element adds its value to a prefix sum.
proof fn lemma_sum_take_step(s: Seq<nat>, i: int)
    requires
        0 <= i < s.len(),
    ensures
        sum_of(s.take(i + 1)) == sum_of(s.take(i)) + s[i],
{
    assert(s.take(i + 1).drop_last() =~= s.take(i));
}

/// All the characters generated for one class: the requested count is split
/// into bounded chunks, every chunk is filled with random draws from the
/// class pool in parallel, and the chunk outputs are concatenated in chunk
/// order. The result holds exactly `n` characters, all from the pool.
pub fn class_chars(n: &BigUint, unit: &BigUint, pool: &Vec<char>) -> (out: Vec<char>)
    requires
        nat_of(*unit) > 0,
        nat_of(*n) > 0 ==> pool@.len() > 0,
        nat_of(*n) <= usize::MAX || nat_of(*unit) <= usize::MAX,
    ensures
        out@.len() == nat_of(*n),
        all_from(out@, pool@),
{
    let ghost nv = nat_of(*n);
    let ghost uv = nat_of(*unit);
    let zero = big_from_u64(0);
    if big_eq(n, &zero) {
        let out: Vec<char> = Vec::new();
        return out;
    }
    let big_chunks = chunk_counts(n, unit);
    let ghost chunk_vals = values_of(big_chunks@);
    let mut chunks: Vec<usize> = Vec::new();
    let mut i: usize = 0;
    while i < big_chunks.len()
        invariant
            nv > 0,
            nat_of(*n) == nv,
            nat_of(*unit) == uv,
            uv > 0,
            nv <= usize::MAX || uv <= usize::MAX,
            chunk_vals == values_of(big_chunks@),
            sum_of(chunk_vals) == nv,
            forall|j: int| 0 <= j < chunk_vals.len() ==> 0 < #[trigger] chunk_vals[j] <= uv,
            big_chunks@.len() == nv / uv + (if nv % uv > 0 {
                1nat
            } else {
                0nat
            }),
            nv % uv > 0 ==> chunk_vals.last() == nv % uv,
            i <= big_chunks@.len(),
            chunks@.len() == i,
            forall|j: int| 0 <= j < i ==> #[trigger] chunks@[j] as nat == chunk_vals[j],
        decreases big_chunks@.len() - i,
    {
        proof {
            if uv > usize::MAX {
                lemma_small_count_single_chunk(nv, uv);
                assert(big_chunks@.len() == 1);
                assert(chunk_vals[i as int] == nv % uv);
            }
            assert(chunk_vals[i as int] <= usize::MAX);
        }
        let c = match big_to_usize(&big_chunks[i]) {
            Some(x) => x,
            None => {
                proof {
                    assert(false);
                }
                0
            },
        };
        chunks.push(c);
        i = i + 1;
    }
    proof {
        assert(chunks@.map_values(|x: usize| x as nat) =~= chunk_vals);
    }
    let parts = par_assemble(&chunks, pool);
    let mut out: Vec<char> = Vec::new();
    let mut p: usize = 0;
    while p < parts.len()
        invariant
            chunk_vals.len() == parts@.len(),
            sum_of(chunk_vals) == nv,
            forall|j: int|
                0 <= j < parts@.len() ==> (#[trigger] parts@[j])@.len() == chunk_vals[j],
            forall|j: int| 0 <= j < parts@.len() ==> all_from(#[trigger] parts@[j]@, pool@),
            p <= parts@.len(),
            out@.len() == sum_of(chunk_vals.take(p as int)),
            all_from(out@, pool@),
        decreases parts@.len() - p,
    {
        let part = &parts[p];
        let mut q: usize = 0;
        while q < part.len()
            invariant
                chunk_vals.len() == parts@.len(),
                forall|j: int|
                    0 <= j < parts@.len() ==> (#[trigger] parts@[j])@.len() == chunk_vals[j],
                forall|j: int| 0 <= j < parts@.len() ==> all_from(#[trigger] parts@[j]@, pool@),
                p < parts@.len(),
                part == &parts[p as int],
                q <= part@.len(),
                out@.len() == sum_of(chunk_vals.take(p as int)) + q,
                all_from(out@, pool@),
            decreases part@.len() - q,
        {
            out.push(part[q]);
            proof {
                assert(all_from(parts@[p as int]@, pool@));
                assert(pool@.contains(part@[q as int]));
            }
            q = q + 1;
        }
        proof {
            lemma_sum_take_step(chunk_vals, p as int);
        }
        p = p + 1;
    }
    proof {
        assert(chunk_vals.take(parts@.len() as int) =~= chunk_vals);
    }
    out
}

} // verus!
