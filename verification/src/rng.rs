use vstd::prelude::*;

verus! {

/// The pseudo-random generator of the rand crate that backs a
/// [`RandomStream`].  The type is opaque to verification; every draw goes
/// through the trusted `stream_next` wrapper below.
#[verifier::external_type_specification]
#[verifier::external_body]
pub struct ExStdRng(rand::rngs::StdRng);

/// The raw 64-bit draw a stream built from `seed` yields at position
/// `idx`: for one seed, the whole draw sequence is one fixed function.
pub uninterp spec fn rng_stream(seed: u64, idx: int) -> u64;

/// Relies on rand::rngs::StdRng and rand::SeedableRng::seed_from_u64:
/// builds a deterministic generator from a 64-bit seed.
#[verifier::external_body]
fn std_rng_from_seed(seed: u64) -> rand::rngs::StdRng {
    rand::SeedableRng::seed_from_u64(seed)
}

/// Relies on rand::rngs::StdRng and rand::SeedableRng::from_entropy:
/// builds a generator seeded from system entropy.
#[verifier::external_body]
fn std_rng_from_entropy() -> rand::rngs::StdRng {
    rand::SeedableRng::from_entropy()
}

/// A single ordered stream of pseudo-random draws.  One stream is
/// constructed per generation request and is consumed left to right by
/// palette resolution first, then by each requested pattern generator.
/// A seeded stream carries its seed and draw position as ghost state,
/// tying every raw draw to the named `rng_stream`.
pub struct RandomStream {
    inner: rand::rngs::StdRng,
    seed: Ghost<Option<u64>>,
    drawn: Ghost<int>,
}

/// Relies on rand::RngCore::next_u64 on StdRng: the generator is a
/// deterministic function of its seed, so a seeded stream's draw at
/// each position is the fixed value `rng_stream` names.  The ghost seed
/// and position are maintained solely by this module's constructors and
/// this wrapper, so they always describe the carried generator.
#[verifier::external_body]
fn stream_next(s: &mut RandomStream) -> (r: u64)
    ensures
        final(s).spec_seed() == old(s).spec_seed(),
        final(s).spec_drawn() == old(s).spec_drawn() + 1,
        old(s).spec_seed() matches Some(sd) ==> r == rng_stream(sd, old(s).spec_drawn()),
{
    // The ghost seed and position are compile-time fictions; only the
    // ensures above gives them their post-state.
    rand::RngCore::next_u64(&mut s.inner)
}

impl RandomStream {
    /// Which seed fixed this stream's draw sequence, if one did.
    pub closed spec fn spec_seed(&self) -> Option<u64> {
        self.seed@
    }

    /// How many raw draws the stream has yielded.
    pub closed spec fn spec_drawn(&self) -> int {
        self.drawn@
    }

    /// A stream whose draw sequence is fixed by `seed`.
    pub fn from_seed(seed: u64) -> (r: RandomStream)
        ensures
            r.spec_seed() == Some(seed),
            r.spec_drawn() == 0,
    {
        RandomStream {
            inner: std_rng_from_seed(seed),
            seed: Ghost(Some(seed)),
            drawn: Ghost(0),
        }
    }

    /// A stream seeded from system entropy; every run differs.
    pub fn from_entropy() -> (r: RandomStream)
        ensures
            r.spec_seed() is None,
    {
        RandomStream { inner: std_rng_from_entropy(), seed: Ghost(None), drawn: Ghost(0) }
    }

    /// The next draw, reduced below `n`.
    pub fn below_u64(&mut self, n: u64) -> (r: u64)
        requires
            n >= 1,
        ensures
            r < n,
            final(self).spec_seed() == old(self).spec_seed(),
            final(self).spec_drawn() == old(self).spec_drawn() + 1,
            old(self).spec_seed() matches Some(sd) ==> r == rng_stream(
                sd,
                old(self).spec_drawn(),
            ) % n,
    {
        stream_next(self) % n
    }

    /// The next draw, reduced below `n`.
    pub fn below_usize(&mut self, n: usize) -> (r: usize)
        requires
            n >= 1,
        ensures
            r < n,
            final(self).spec_seed() == old(self).spec_seed(),
            final(self).spec_drawn() == old(self).spec_drawn() + 1,
            old(self).spec_seed() matches Some(sd) ==> r == rng_stream(
                sd,
                old(self).spec_drawn(),
            ) % (n as u64),
    {
        (self.below_u64(n as u64)) as usize
    }

    /// A draw from the half-open range `lo..hi`.
    pub fn range_i64(&mut self, lo: i64, hi: i64) -> (r: i64)
        requires
            lo < hi,
            hi - lo <= u32::MAX,
        ensures
            lo <= r < hi,
            final(self).spec_seed() == old(self).spec_seed(),
            final(self).spec_drawn() == old(self).spec_drawn() + 1,
            old(self).spec_seed() matches Some(sd) ==> r == lo + rng_stream(
                sd,
                old(self).spec_drawn(),
            ) % ((hi - lo) as u64),
    {
        let span = (hi - lo) as u64;
        lo + (self.below_u64(span) as i64)
    }

    /// A draw from `lo..hi` when that range is non-empty, and `lo` itself
    /// when it is not.  Total for every pair of bounds, which keeps the
    /// pattern generators total on degenerate canvas sizes.
    pub fn range_or_lo(&mut self, lo: i64, hi: i64) -> (r: i64)
        requires
            -0x4000_0000_0000 <= lo <= 0x4000_0000_0000,
            -0x4000_0000_0000 <= hi <= 0x4000_0000_0000,
        ensures
            r >= lo,
            lo < hi ==> r < hi,
            lo >= hi ==> r == lo,
            final(self).spec_seed() == old(self).spec_seed(),
            lo < hi ==> final(self).spec_drawn() == old(self).spec_drawn() + 1,
            lo >= hi ==> final(self).spec_drawn() == old(self).spec_drawn(),
            old(self).spec_seed() matches Some(sd) ==> (lo < hi && hi - lo <= u32::MAX ==> r == lo
                + rng_stream(sd, old(self).spec_drawn()) % ((hi - lo) as u64)),
            old(self).spec_seed() matches Some(sd) ==> (lo < hi && hi - lo > u32::MAX ==> r == lo
                + rng_stream(sd, old(self).spec_drawn()) % (u32::MAX as u64)),
    {
        if lo < hi {
            if hi - lo <= u32::MAX as i64 {
                self.range_i64(lo, hi)
            } else {
                // Ranges this wide never arise from the generators' bounded
                // geometry; fall back to the low half of the span.
                lo + (self.below_u64(u32::MAX as u64) as i64)
            }
        } else {
            lo
        }
    }
}

/// Determinism of a seeded stream: the draw at each position is one
/// fixed value, so two streams built from the same seed yield identical
/// draw sequences, and a request replayed with the same seed consumes
/// identical randomness.
pub proof fn lemma_stream_deterministic(seed: u64, idx: int, a: u64, b: u64)
    requires
        a == rng_stream(seed, idx),
        b == rng_stream(seed, idx),
    ensures
        a == b,
{
}

} // verus!
