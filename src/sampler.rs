use vstd::prelude::*;
use vstd::string::*;
use crate::chain::TransformChain;

verus! {

/// Forwards a copy of a share `numerator / denominator` of the request
/// batches through a side chain.
pub struct Sampler {
    pub numerator: u32,
    pub denominator: u32,
    pub sample_chain: TransformChain,
}

/// `c` is below `n`.
pub open spec fn below(c: u32, n: u32) -> bool {
    c < n
}

/// Relies on tokio's `macros::support::thread_rng_n`, which draws from the
/// thread's generator a value below `n` (the high word of a 32-bit draw times `n`).
#[verifier::external_body]
fn draw_below(n: u32) -> (r: u32)
    requires
        n > 0,
    ensures
        r < n,
{
    tokio::macros::support::thread_rng_n(n)
}

impl Sampler {
    /// Samples one batch in a hundred into an empty side chain.
    pub fn new() -> (r: Sampler)
        ensures
            r.numerator == 1,
            r.denominator == 100,
            r.sample_chain.name@ == "dummy"@,
            r.sample_chain.chain@.len() == 0,
    {
        Sampler {
            numerator: 1,
            denominator: 100,
            sample_chain: TransformChain { name: String::from_str("dummy"), chain: Vec::new() },
        }
    }

    pub fn get_name(&self) -> (r: &'static str)
        ensures
            r@ == "Sampler"@,
    {
        "Sampler"
    }

    /// `sampled` is a decision this sampler can take: some draw below a
    /// non-zero denominator is below the numerator exactly when the batch is
    /// sampled; a zero denominator samples where the numerator is not zero.
    pub open spec fn may_decide(&self, sampled: bool) -> bool {
        if self.denominator == 0 {
            sampled == (self.numerator > 0)
        } else {
            exists|c: u32| #[trigger] below(c, self.denominator) && sampled == (c < self.numerator)
        }
    }

    /// Whether the batch whose draw is `chance` is sampled.
    pub fn decide(&self, chance: u32) -> (r: bool)
        ensures
            r == (chance < self.numerator),
    {
        chance < self.numerator
    }

    /// Draws a value below the denominator and decides on it. A zero
    /// denominator draws nothing: the batch is sampled where the numerator is
    /// not zero.
    pub fn should_sample(&self) -> (r: bool)
        ensures
            self.may_decide(r),
            self.numerator == 0 ==> !r,
            self.numerator >= self.denominator && self.numerator > 0 ==> r,
    {
        if self.denominator == 0 {
            return self.numerator > 0;
        }
        let chance = draw_below(self.denominator);
        let r = self.decide(chance);
        assert(below(chance, self.denominator) && r == (chance < self.numerator));
        r
    }
}

impl Default for Sampler {
    fn default() -> (r: Sampler)
        ensures
            r.numerator == 1,
            r.denominator == 100,
    {
        Sampler::new()
    }
}

} // verus!
