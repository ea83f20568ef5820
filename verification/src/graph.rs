//! The serial effect chain: an ordered, owned sequence of effects applied
//! left to right, each transforming one interleaved block in place.

use vstd::prelude::*;

verus! {

/// A unit of real-time-safe block processing. A block is an interleaved
/// sequence of samples, each carried as the opaque 32-bit word of its
/// machine representation. An implementation transforms the block in place
/// and hands back one of the same length.
pub trait Effect: Send {
    /// One-time preparation with the session's sample rate and channel
    /// count, called once before the first `process`.
    fn prepare(&mut self, _sample_rate: u32, _channels: u16) {
    }

    /// A named parameter update; the value is a decibel figure carried as
    /// its 32-bit word. Unknown keys are ignored.
    fn set_param_db(&mut self, _key: &str, _db_bits: u32) {
    }

    /// In-place transform of one interleaved block.
    fn process(&mut self, block: &mut Vec<u32>)
        ensures
            final(block)@.len() == old(block)@.len(),
    ;
}

/// A serial chain of effects. Owns the effects and the resolved session
/// parameters each one is prepared with as it is pushed. A single effect
/// type instantiates the chain; a caller mixing several kinds wraps them in
/// one enumeration that implements the capability.
pub struct Chain<E: Effect> {
    effects: Vec<E>,
    channels: u16,
    sample_rate: u32,
}

impl<E: Effect> Chain<E> {
    /// The owned effects, in processing order.
    pub closed spec fn effects_seq(self) -> Seq<E> {
        self.effects@
    }

    /// How many effects the chain holds.
    pub open spec fn effect_count(self) -> int {
        self.effects_seq().len() as int
    }

    /// The sample rate effects are prepared with.
    pub closed spec fn rate_spec(self) -> u32 {
        self.sample_rate
    }

    /// The channel count effects are prepared with.
    pub closed spec fn channels_spec(self) -> u16 {
        self.channels
    }

    /// An empty chain for a session resolved to the given rate and channels.
    pub fn new(sample_rate: u32, channels: u16) -> (r: Chain<E>)
        ensures
            r.effect_count() == 0,
            r.rate_spec() == sample_rate,
            r.channels_spec() == channels,
    {
        Chain { effects: Vec::new(), channels, sample_rate }
    }

    /// Prepares the effect with the chain's resolved parameters and appends
    /// it: the effects already owned keep their places and the new one
    /// stands last, so effects process in the order they were pushed.
    pub fn push(&mut self, fx: E)
        ensures
            final(self).effect_count() == old(self).effect_count() + 1,
            final(self).effects_seq().take(old(self).effect_count()) == old(self).effects_seq(),
            final(self).rate_spec() == old(self).rate_spec(),
            final(self).channels_spec() == old(self).channels_spec(),
    {
        let mut fx = fx;
        fx.prepare(self.sample_rate, self.channels);
        self.effects.push(fx);
        proof {
            assert(self.effects@.take(old(self).effects@.len() as int) =~= old(self).effects@);
        }
    }

    /// Applies every effect in order, each consuming the previous one's
    /// output; the block keeps its length throughout, and a chain holding
    /// no effects leaves it untouched.
    pub fn process(&mut self, block: &mut Vec<u32>)
        ensures
            final(self).effect_count() == old(self).effect_count(),
            final(self).rate_spec() == old(self).rate_spec(),
            final(self).channels_spec() == old(self).channels_spec(),
            final(block)@.len() == old(block)@.len(),
            old(self).effect_count() == 0 ==> final(block)@ == old(block)@,
    {
        let n = self.effects.len();
        // unstack the owned effects into a scratch vector, then take them
        // back in pushed order: every move is an end operation, so one pass
        // costs a bounded, linear amount of work
        let mut rev: Vec<E> = Vec::new();
        let mut i: usize = 0;
        while i < n
            invariant
                i <= n,
                n == old(self).effects@.len(),
                i == rev@.len(),
                self.effects@.len() + rev@.len() == n,
                self.channels == old(self).channels,
                self.sample_rate == old(self).sample_rate,
                block@.len() == old(block)@.len(),
                n == 0 ==> block@ == old(block)@,
            decreases n - i,
        {
            let fx = self.effects.pop().unwrap();
            rev.push(fx);
            i += 1;
        }
        let mut j: usize = 0;
        while j < n
            invariant
                j <= n,
                n == old(self).effects@.len(),
                self.effects@.len() == j,
                rev@.len() + j == n,
                self.channels == old(self).channels,
                self.sample_rate == old(self).sample_rate,
                block@.len() == old(block)@.len(),
                n == 0 ==> block@ == old(block)@,
            decreases n - j,
        {
            let mut fx = rev.pop().unwrap();
            fx.process(block);
            self.effects.push(fx);
            j += 1;
        }
    }
}

} // verus!
