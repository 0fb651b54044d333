use vstd::prelude::*;

verus! {

/// One step of the 64-bit xorshift generator with shifts 13, 7 and 17.
pub open spec fn xorshift_step(x: u64) -> u64 {
    let a = x ^ (x << 13u64);
    let b = a ^ (a >> 7u64);
    b ^ (b << 17u64)
}

/// The state a seed starts the generator in: zero would be a fixed point, so
/// it is replaced by one.
pub open spec fn seed_state(seed: u64) -> u64 {
    if seed == 0 {
        1
    } else {
        seed
    }
}

/// The sixteen most significant bits of a state.
pub open spec fn top_bits(x: u64) -> u16 {
    (x >> 48u64) as u16
}

/// The state after `n` steps from `x`.
pub open spec fn state_after(x: u64, n: nat) -> u64
    decreases n,
{
    if n == 0 {
        x
    } else {
        xorshift_step(state_after(x, (n - 1) as nat))
    }
}

/// Each xorshift stage keeps a non-zero word non-zero.
proof fn lemma_step_nonzero(x: u64)
    requires
        x != 0,
    ensures
        xorshift_step(x) != 0,
{
    let a = x ^ (x << 13u64);
    assert(a != 0) by (bit_vector)
        requires
            x != 0,
            a == x ^ (x << 13u64),
    ;
    let b = a ^ (a >> 7u64);
    assert(b != 0) by (bit_vector)
        requires
            a != 0,
            b == a ^ (a >> 7u64),
    ;
    let c = b ^ (b << 17u64);
    assert(c != 0) by (bit_vector)
        requires
            b != 0,
            c == b ^ (b << 17u64),
    ;
}

/// The pseudo-random source of a session. Its state is never zero, so the
/// sequence never collapses to a constant.
pub struct XorShift {
    state: u64,
}

impl View for XorShift {
    type V = u64;

    closed spec fn view(&self) -> u64 {
        self.state
    }
}

impl XorShift {
    pub fn new(seed: u64) -> (r: XorShift)
        ensures
            r@ == seed_state(seed),
            r@ != 0,
    {
        XorShift { state: if seed == 0 { 1 } else { seed } }
    }

    /// Advances the state one step and returns its top sixteen bits; the
    /// caller scales them into the range it needs.
    pub fn next_bits(&mut self) -> (r: u16)
        requires
            old(self)@ != 0,
        ensures
            final(self)@ == xorshift_step(old(self)@),
            r == top_bits(final(self)@),
            final(self)@ != 0,
    {
        proof {
            lemma_step_nonzero(self.state);
        }
        let mut x = self.state;
        x = x ^ (x << 13u64);
        x = x ^ (x >> 7u64);
        x = x ^ (x << 17u64);
        self.state = x;
        (x >> 48u64) as u16
    }
}

/// From any non-zero state, every later state is non-zero: the generator
/// never gets stuck at zero.
pub proof fn lemma_never_zero(x: u64, n: nat)
    requires
        x != 0,
    ensures
        state_after(x, n) != 0,
    decreases n,
{
    if n > 0 {
        lemma_never_zero(x, (n - 1) as nat);
        lemma_step_nonzero(state_after(x, (n - 1) as nat));
    }
}

/// The same seed gives the same sequence; seeds zero and one coincide.
pub proof fn lemma_seeds_determine_sequence(seed: u64, n: nat)
    ensures
        state_after(seed_state(seed), n) != 0,
        seed == 0 ==> state_after(seed_state(seed), n) == state_after(seed_state(1), n),
{
    lemma_never_zero(seed_state(seed), n);
}

} // verus!
