//! Random rolls: uniform over an inclusive range, and the average of two such rolls.

use vstd::prelude::*;
use rand::rngs::ThreadRng;

verus! {

#[verifier::external_type_specification]
#[verifier::external_body]
pub struct ExThreadRng(ThreadRng);

/// `rand::Rng::gen_range(lo..=hi)` on a thread-local generator: rand draws a value of
/// `lo..=hi` (and panics on an empty range, which `lo <= hi` rules out). Which value
/// comes out is left open.
#[verifier::external_body]
pub(crate) fn gen_range_inclusive(rng: &mut ThreadRng, lo: i32, hi: i32) -> (r: i32)
    requires
        lo <= hi,
    ensures
        lo <= r <= hi,
{
    rand::Rng::gen_range(rng, lo..=hi)
}

pub open spec fn low_of(a: i32, b: i32) -> i32 {
    if a <= b { a } else { b }
}

pub open spec fn high_of(a: i32, b: i32) -> i32 {
    if a <= b { b } else { a }
}

/// A uniform roll between `min_n` and `max_n` (in either order, both included); exactly
/// `min_n` when they are equal.
pub fn uniform_random(rng: &mut ThreadRng, min_n: i32, max_n: i32) -> (r: i32)
    ensures
        min_n == max_n ==> r == min_n,
        low_of(min_n, max_n) <= r <= high_of(min_n, max_n),
{
    if min_n == max_n {
        return min_n;
    }
    let (lo, hi) = if min_n <= max_n { (min_n, max_n) } else { (max_n, min_n) };
    gen_range_inclusive(rng, lo, hi)
}

/// The roll used for "normal" melee damage: uniform.
pub fn normal_random(rng: &mut ThreadRng, min_n: i32, max_n: i32) -> (r: i32)
    ensures
        min_n == max_n ==> r == min_n,
        low_of(min_n, max_n) <= r <= high_of(min_n, max_n),
{
    uniform_random(rng, min_n, max_n)
}

/// The average (rounded toward 0) of two uniform rolls; exactly `min_n` when the bounds
/// are equal.
pub fn triangular_random(rng: &mut ThreadRng, min_n: i32, max_n: i32) -> (r: i32)
    ensures
        min_n == max_n ==> r == min_n,
        low_of(min_n, max_n) <= r <= high_of(min_n, max_n),
{
    if min_n == max_n {
        return min_n;
    }
    let r1 = normal_random(rng, min_n, max_n);
    let r2 = normal_random(rng, min_n, max_n);
    average_toward_zero(r1, r2)
}

/// `(a + b) / 2` rounded toward 0, computed without overflow.
pub fn average_toward_zero(a: i32, b: i32) -> (r: i32)
    ensures
        r as int == if a + b >= 0 { (a + b) / 2 } else { -((-(a + b)) / 2) },
        a <= b ==> a <= r <= b,
        b <= a ==> b <= r <= a,
{
    let s: i64 = a as i64 + b as i64;
    let h: i64 = if s >= 0 { s / 2 } else { -((-s) / 2) };
    h as i32
}

} // verus!
