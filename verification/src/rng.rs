//! A small xorshift pseudo-random generator, used to pick the banner
//! text shown around the dashboard.

use vstd::arithmetic::div_mod::lemma_mod_division_less_than_divisor;
use vstd::prelude::*;

verus! {

/// One xorshift round.
pub open spec fn spec_xorshift_step(x: u64) -> u64 {
    let a = x ^ (x << 13);
    let b = a ^ (a >> 17);
    b ^ (b << 5)
}

/// A xorshift generator; its whole state is the last value produced.
pub struct XorShift32 {
    state: u64,
}

impl XorShift32 {
    pub closed spec fn spec_state(&self) -> u64 {
        self.state
    }

    /// A generator starting from the given seed.
    pub fn new(seed: u64) -> (r: Self)
        ensures
            r.spec_state() == seed,
    {
        XorShift32 { state: seed }
    }

    /// The next value: one xorshift round over the state.
    pub fn next(&mut self) -> (r: u64)
        ensures
            r == spec_xorshift_step(old(self).spec_state()),
            final(self).spec_state() == r,
    {
        let mut x = self.state;
        x = x ^ (x << 13u64);
        x = x ^ (x >> 17u64);
        x = x ^ (x << 5u64);
        self.state = x;
        x
    }

    /// A value below `n`, from the next state.
    pub fn gen_range(&mut self, n: usize) -> (r: usize)
        requires
            n >= 1,
        ensures
            r == (spec_xorshift_step(old(self).spec_state()) as usize) % n,
            r < n,
            final(self).spec_state() == spec_xorshift_step(old(self).spec_state()),
    {
        let v = self.next();
        proof {
            lemma_mod_division_less_than_divisor((v as usize) as int, n as int);
        }
        #[verifier::truncate]
        let t = v as usize;
        t % n
    }
}

} // verus!
