//! A deterministic xorshift source of sample draws.
use vstd::prelude::*;

verus! {

/// One step of the generator's state: xor with itself shifted right by 12, then left by 25,
/// then right by 27.
pub open spec fn xorshift(s: u64) -> u64 {
    let a = s ^ (s >> 12u64);
    let b = a ^ ((a << 25u64) as u64);
    b ^ (b >> 27u64)
}

/// The draw that a state yields: its low 31 bits.
pub open spec fn draw_of(s: u64) -> u32 {
    (s & 0x7fff_ffffu64) as u32
}

/// The state after `n` steps from `seed`.
pub open spec fn state_after(seed: u64, n: nat) -> u64
    decreases n,
{
    if n == 0 {
        seed
    } else {
        xorshift(state_after(seed, (n - 1) as nat))
    }
}

/// The first `n` draws of a generator seeded with `seed`.
pub open spec fn draws(seed: u64, n: nat) -> Seq<u32>
    decreases n,
{
    if n == 0 {
        Seq::empty()
    } else {
        draws(seed, (n - 1) as nat).push(draw_of(state_after(seed, n)))
    }
}

/// Draws are determined by the seed and their position alone: draw `i` is the one that the
/// state after `i + 1` steps yields, and a shorter run is a prefix of a longer one.
pub proof fn lemma_draws_deterministic(seed: u64, m: nat, n: nat)
    requires
        m <= n,
    ensures
        draws(seed, n).len() == n,
        forall|i: int| 0 <= i < n ==> #[trigger] draws(seed, n)[i] == draw_of(
            state_after(seed, (i + 1) as nat),
        ),
        draws(seed, m) == draws(seed, n).subrange(0, m as int),
    decreases n,
{
    if n > 0 {
        lemma_draws_deterministic(seed, 0, (n - 1) as nat);
        if m < n {
            lemma_draws_deterministic(seed, m, (n - 1) as nat);
        }
        assert(draws(seed, n).subrange(0, n as int) =~= draws(seed, n));
    } else {
        assert(draws(seed, 0) =~= draws(seed, 0).subrange(0, 0));
    }
}

/// Marsaglia's xorshift generator over a 64-bit state. Not for cryptography or statistics:
/// it makes reproducible synthetic samples.
#[derive(Clone, Copy, Debug, PartialEq, Eq, Structural)]
pub struct XorShiftRng {
    pub state: u64,
}

impl XorShiftRng {
    /// A generator whose state is `seed`.
    pub fn new(seed: u64) -> (r: XorShiftRng)
        ensures
            r.state == seed,
    {
        XorShiftRng { state: seed }
    }

    /// Advances the state one step and returns the draw of the new state, in `0 .. 2^31`.
    pub fn next(&mut self) -> (r: u32)
        ensures
            final(self).state == xorshift(old(self).state),
            r == draw_of(final(self).state),
            r < 0x8000_0000,
    {
        self.state = self.state ^ (self.state >> 12u64);
        self.state = self.state ^ (self.state << 25u64);
        self.state = self.state ^ (self.state >> 27u64);
        let s: u64 = self.state;
        assert(s & 0x7fff_ffffu64 < 0x8000_0000u64) by (bit_vector);
        (s & 0x7fff_ffffu64) as u32
    }

    /// The first `n` draws of a generator seeded with `seed`.
    pub fn first_draws(seed: u64, n: usize) -> (r: Vec<u32>)
        ensures
            r@ == draws(seed, n as nat),
    {
        let mut g = XorShiftRng::new(seed);
        let mut out: Vec<u32> = Vec::new();
        let mut i: usize = 0;
        while i < n
            invariant
                0 <= i <= n,
                g.state == state_after(seed, i as nat),
                out@ == draws(seed, i as nat),
            decreases n - i,
        {
            let d = g.next();
            out.push(d);
            i = i + 1;
        }
        out
    }
}

} // verus!
