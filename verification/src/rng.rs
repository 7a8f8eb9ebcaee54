//! Randomness for the engine: a small deterministic pseudo-random generator
//! and a text hash for the seeded derivation (both fully specified, so the
//! same seed provably reproduces the same configuration), and one trusted
//! entry to the system entropy source for the unseeded paths.

use rand::Rng;
use vstd::prelude::*;

verus! {

/// The SplitMix64 state after one advance.
pub open spec fn sm_next_state_spec(s: u64) -> u64 {
    s.wrapping_add(0x9E3779B97F4A7C15)
}

/// One output of the SplitMix64 stream: the advanced state, scrambled.
pub open spec fn sm_mix_spec(z0: u64) -> u64 {
    let z1 = (z0 ^ (z0 >> 30)).wrapping_mul(0xBF58476D1CE4E5B9);
    let z2 = (z1 ^ (z1 >> 27)).wrapping_mul(0x94D049BB133111EB);
    z2 ^ (z2 >> 31)
}

/// The ranged draw taken from one advance: `lo + output % span`.
pub open spec fn sm_range_spec(s: u64, lo: u64, hi: u64) -> u64 {
    (lo + sm_mix_spec(sm_next_state_spec(s)) % ((hi - lo + 1) as u64)) as u64
}

/// A small deterministic pseudo-random generator (the SplitMix64 scheme).
/// Seeded from a 64-bit value; every draw is a pure function of the state,
/// which is what makes a text seed reproduce its configuration exactly.
#[derive(Clone, Copy, PartialEq, Eq, Structural, Debug)]
pub struct SeededRng {
    pub state: u64,
}

impl SeededRng {
    pub fn seed_from_u64(seed: u64) -> (r: SeededRng)
        ensures
            r.state == seed,
    {
        SeededRng { state: seed }
    }

    /// The next pseudo-random value; advances the state.
    pub fn next_u64(&mut self) -> (r: u64)
        ensures
            final(self).state == sm_next_state_spec(old(self).state),
            r == sm_mix_spec(final(self).state),
    {
        self.state = self.state.wrapping_add(0x9E3779B97F4A7C15);
        let z0: u64 = self.state;
        let z1: u64 = (z0 ^ (z0 >> 30)).wrapping_mul(0xBF58476D1CE4E5B9);
        let z2: u64 = (z1 ^ (z1 >> 27)).wrapping_mul(0x94D049BB133111EB);
        z2 ^ (z2 >> 31)
    }

    /// A draw in `[lo, hi]`; advances the state once.
    pub fn next_in(&mut self, lo: u64, hi: u64) -> (r: u64)
        requires
            lo <= hi,
            hi - lo < u64::MAX,
        ensures
            final(self).state == sm_next_state_spec(old(self).state),
            r == sm_range_spec(old(self).state, lo, hi),
            lo <= r <= hi,
    {
        let span: u64 = hi - lo + 1;
        let v: u64 = self.next_u64();
        lo + v % span
    }
}

/// The generator's state after `k` draws from the given seed.
pub open spec fn rng_after(s0: u64, k: nat) -> u64
    decreases k,
{
    if k == 0 {
        s0
    } else {
        sm_next_state_spec(rng_after(s0, (k - 1) as nat))
    }
}

pub proof fn lemma_rng_after_succ(s0: u64, k: nat)
    ensures
        rng_after(s0, k + 1) == sm_next_state_spec(rng_after(s0, k)),
{
}

/// One character folded into the hash (the FNV-1a scheme).
pub open spec fn fnv_update_spec(h: u64, c: char) -> u64 {
    (h ^ (c as u64)).wrapping_mul(0x100000001b3)
}

/// Hash of the first `i` characters.
pub open spec fn fnv_partial_spec(cs: Seq<char>, i: int) -> u64
    decreases i,
{
    if i <= 0 {
        0xcbf29ce484222325
    } else {
        fnv_update_spec(fnv_partial_spec(cs, i - 1), cs[i - 1])
    }
}

/// The 64-bit hash a text seed is reduced to before it seeds the
/// pseudo-random generator.
pub open spec fn seed_hash_spec(cs: Seq<char>) -> u64 {
    fnv_partial_spec(cs, cs.len() as int)
}

/// Hashes a seed text (as characters) to a 64-bit value, deterministically.
pub fn seed_hash(cs: &Vec<char>) -> (r: u64)
    ensures
        r == seed_hash_spec(cs@),
{
    let mut h: u64 = 0xcbf29ce484222325;
    let mut i: usize = 0;
    while i < cs.len()
        invariant
            i <= cs@.len(),
            h == fnv_partial_spec(cs@, i as int),
        decreases cs@.len() - i,
    {
        h = (h ^ (cs[i] as u64)).wrapping_mul(0x100000001b3);
        i = i + 1;
    }
    h
}

/// Relies on rand's `Rng::gen_range` on an inclusive range: the sample lies
/// within the range (the range is non-empty by the precondition). This is
/// the fresh, unseeded source; nothing can be promised about which value
/// comes back.
#[verifier::external_body]
pub(crate) fn entropy_in(lo: u64, hi: u64) -> (r: u64)
    requires
        lo <= hi,
    ensures
        lo <= r <= hi,
{
    rand::thread_rng().gen_range(lo..=hi)
}

} // verus!
