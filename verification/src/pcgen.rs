use vstd::prelude::*;

verus! {

/// The multiplier of the generator's linear congruential step.
pub const PCG_MULTIPLIER: u64 = 6364136223846793005;

/// A pseudo-random number generator based on the technique of
/// M.E. O'Neill. See pcg-random.org for a lengthy description of the benefits
/// of this generator over other possible techniques.
#[derive(Debug, PartialEq, Eq, Structural, Clone, Copy)]
pub struct PCGen {
    /// Our "position" within the number sequence.
    pub state: u64,
    /// The number sequence that we're within. This value must be odd.
    pub inc: u64,
}

/// The generator's linear congruential step, wrapping on 64 bits.
pub open spec fn next_state_spec(state: u64, inc: u64) -> u64 {
    vstd::wrapping::u64_specs::wrapping_add(
        vstd::wrapping::u64_specs::wrapping_mul(state, PCG_MULTIPLIER),
        inc,
    )
}

/// The 32 bits of output drawn from a state: an xorshift fold, then a
/// rotation picked by the state's top five bits.
pub open spec fn output_spec(state: u64) -> u32 {
    let xorshifted = (((state >> 18u64) ^ state) >> 27u64) as u32;
    let rot = (state >> 59u64) as u32;
    (xorshifted >> rot) | (xorshifted << (vstd::wrapping::u32_specs::wrapping_sub(0u32, rot)
        & 31u32))
}

/// What `new` builds: the requested increment forced odd, and the state
/// stepped once.
pub open spec fn new_gen_spec(new_state: u64, new_inc: u64) -> PCGen {
    let inc = new_inc | 1u64;
    PCGen { state: next_state_spec(new_state, inc), inc }
}

impl PCGen {
    /// Given a state and increment value, creates for you a new PCGen
    /// value.
    ///
    /// The basic idea is that the `state` determines *where* in a number
    /// stream that you are, and then the `inc` value determines *which*
    /// number stream you're actually within.
    ///
    /// For the generator to work properly, the `inc` value must always be an
    /// odd value. As a result, any even input given for `inc` will be bumped
    /// up to the next odd value. Most state and inc values that humans pick
    /// by hand end up having 0 as the first result of `next()`, so `next()`
    /// is called once for you and that's the generator that you get.
    pub fn new(new_state: u64, new_inc: u64) -> (g: PCGen)
        ensures
            g == new_gen_spec(new_state, new_inc),
            g.inc % 2 == 1,
    {
        proof {
            assert((new_inc | 1u64) % 2 == 1) by (bit_vector);
        }
        let mut result = PCGen { state: new_state, inc: new_inc | 1 };
        result.next();
        result
    }

    /// Produces the next 32 bits of output from this generator. Of course,
    /// for some data types, you may need to call this more than once (such as
    /// two calls to form a u64), or you could even break up this 32 bit
    /// sequence into more than one value (such as making a 32 element array
    /// of bools).
    pub fn next(&mut self) -> (r: u32)
        ensures
            final(self).state == next_state_spec(old(self).state, old(self).inc),
            final(self).inc == old(self).inc,
            r == output_spec(old(self).state),
    {
        let oldstate = self.state;
        self.state = oldstate.wrapping_mul(PCG_MULTIPLIER).wrapping_add(self.inc);
        let xorshifted_sixfour: u64 = ((oldstate >> 18) ^ oldstate) >> 27;
        let rot_sixfour: u64 = oldstate >> 59;
        proof {
            assert(oldstate >> 59u64 < 32) by (bit_vector);
        }
        let xorshifted: u32 = #[verifier::truncate] (xorshifted_sixfour as u32);
        let rot: u32 = rot_sixfour as u32;
        let negated_rot: u32 = 0u32.wrapping_sub(rot);
        let masked: u32 = negated_rot & 31;
        proof {
            assert(negated_rot & 31u32 < 32) by (bit_vector);
        }
        (xorshifted >> rot) | (xorshifted << masked)
    }

    /// A helper method that produces a value in the range
    ///
    /// `low <= result < high`
    ///
    /// The `low` value must be less than the `high` value.
    ///
    /// The output uses `%`, so the distribution is only even when the range
    /// (high-low) is some power of 2. Otherwise some part of the output range
    /// will be slightly more likely than the rest.
    pub fn in_range(&mut self, low: i32, high: i32) -> (r: i32)
        requires
            low < high,
        ensures
            low <= r < high,
            r == low + output_spec(old(self).state) as int % (high - low),
            final(self).state == next_state_spec(old(self).state, old(self).inc),
            final(self).inc == old(self).inc,
    {
        let out: u32 = self.next();
        let range: u32 = (high as i64 - low as i64) as u32;
        let rem: u32 = out % range;
        (low as i64 + rem as i64) as i32
    }

    /// Constructs a new PCGen value by using the current system time to seed
    /// the generator. For cryptographic work this isn't very good, because
    /// the system time can be guessed of course. However, for most other
    /// purposes this is probably sufficient.
    pub fn from_time() -> (g: PCGen)
        ensures
            exists|s: u64| g == new_gen_spec(s, s),
            g.inc % 2 == 1,
    {
        let seconds = unix_seconds_now();
        let g = PCGen::new(seconds, seconds);
        proof {
            assert(g == new_gen_spec(seconds, seconds));
        }
        g
    }
}

/// Relies on std::time::SystemTime::now and duration_since: the whole
/// seconds between the system clock and the epoch, whichever side of the
/// epoch the clock sits. Nothing can be promised of a clock reading.
#[verifier::external_body]
fn unix_seconds_now() -> u64 {
    match std::time::SystemTime::now().duration_since(std::time::UNIX_EPOCH) {
        Ok(elapsed) => elapsed.as_secs(),
        Err(elapsed_error) => elapsed_error.duration().as_secs(),
    }
}

} // verus!
