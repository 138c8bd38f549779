use vstd::prelude::*;

verus! {

/// The first `count` words of rand's standard generator (ChaCha with twelve
/// rounds, in the rand release this crate is locked to) seeded with `seed`.
pub uninterp spec fn seeded_words(seed: u64, count: nat) -> Seq<u64>;

/// Relies on rand's `StdRng::seed_from_u64` and `Rng::fill`: the generator is
/// deterministic, so the words depend on the seed and their number alone.
#[verifier::external_body]
pub(crate) fn draw_seeded(seed: u64, count: usize) -> (r: Vec<u64>)
    ensures
        r@ == seeded_words(seed, count as nat),
        r@.len() == count,
{
    let mut rng = <rand::rngs::StdRng as rand::SeedableRng>::seed_from_u64(seed);
    let mut words = vec![0u64; count];
    rand::Rng::fill(&mut rng, &mut words[..]);
    words
}

/// Relies on rand's `thread_rng` and `Rng::fill`: `count` words from the
/// operating system seeded thread-local generator; nothing is known of them.
#[verifier::external_body]
pub(crate) fn draw_fresh(count: usize) -> (r: Vec<u64>)
    ensures
        r@.len() == count,
{
    let mut words = vec![0u64; count];
    rand::Rng::fill(&mut rand::thread_rng(), &mut words[..]);
    words
}

/// Relies on rand's `Rng::gen_range` over an inclusive range, drawn from
/// `thread_rng`: the value lies in `[lo, hi]` (the range must not be empty).
#[verifier::external_body]
pub(crate) fn random_between(lo: i64, hi: i64) -> (r: i64)
    requires
        lo <= hi,
    ensures
        lo <= r <= hi,
{
    rand::Rng::gen_range(&mut rand::thread_rng(), lo..=hi)
}

/// The word at position `k`, or zero past the end.
pub open spec fn word_at(ws: Seq<u64>, k: int) -> u64 {
    if 0 <= k < ws.len() {
        ws[k]
    } else {
        0
    }
}

/// The value in `[lo, hi]` that the word at position `k` selects.
pub open spec fn pick(ws: Seq<u64>, k: int, lo: int, hi: int) -> int {
    lo + (word_at(ws, k) as int) % (hi - lo + 1)
}

/// Reduces the word at position `k` into `[lo, hi]`.
pub fn pick_in(ws: &Vec<u64>, k: usize, lo: u64, hi: u64) -> (r: u64)
    requires
        lo <= hi,
    ensures
        r == pick(ws@, k as int, lo as int, hi as int),
        lo <= r <= hi,
{
    let w: u64 = if k < ws.len() {
        ws[k]
    } else {
        0
    };
    let span: u64 = hi - lo;
    if span == u64::MAX {
        assert(w as int % (u64::MAX as int + 1) == w as int) by {
            vstd::arithmetic::div_mod::lemma_small_mod(w as nat, u64::MAX as nat + 1);
        }
        proof {
            assert(lo == 0);
        }
        w
    } else {
        lo + w % (span + 1)
    }
}

} // verus!
