//! The deterministic pseudo-random generator behind the hand-drawn look:
//! rough.js's seeded `mulberry32`, so sketchy output is stable run to run.

use vstd::prelude::*;

verus! {

/// Generator state.
pub struct Rng {
    pub state: u32,
}

/// mulberry32's output mix of a state.
pub open spec fn mix(a: u32) -> u32 {
    let t = (a ^ (a >> 15u32)).wrapping_mul(a | 1u32);
    let t2 = t ^ t.wrapping_add((t ^ (t >> 7u32)).wrapping_mul(t | 0x3Du32));
    t2 ^ (t2 >> 14u32)
}

/// mulberry32's state increment.
pub open spec fn advance(s: u32) -> u32 {
    s.wrapping_add(0x6D2B_79F5u32)
}

impl Rng {
    /// A generator seeded with `seed`.
    pub fn new(seed: u32) -> (r: Self)
        ensures
            r.state == seed,
    {
        Rng { state: seed }
    }

    /// One step: the state advances and the 32 output bits are the mix of
    /// the new state (rough.js divides them by 2^32 for `next()`).
    pub fn next_bits(&mut self) -> (r: u32)
        ensures
            final(self).state == advance(old(self).state),
            r == mix(final(self).state),
    {
        self.state = self.state.wrapping_add(0x6D2B_79F5);
        let a = self.state;
        let t = (a ^ (a >> 15)).wrapping_mul(a | 1);
        let t2 = t ^ t.wrapping_add((t ^ (t >> 7)).wrapping_mul(t | 0x3D));
        t2 ^ (t2 >> 14)
    }
}

/// The outputs of `n` steps from `state`.
pub open spec fn outputs(state: u32, n: nat) -> Seq<u32>
    decreases n,
{
    if n == 0 {
        Seq::empty()
    } else {
        seq![mix(advance(state))] + outputs(advance(state), (n - 1) as nat)
    }
}

/// The generator's state after `k` steps from `state`.
pub open spec fn state_after(state: u32, k: nat) -> u32 {
    ((state + k * 0x6D2B_79F5) % 0x1_0000_0000) as u32
}

proof fn lemma_advance(state: u32)
    ensures
        advance(state) == state_after(state, 1),
{
}

/// Law: the generator counts. After `k` calls of [`Rng::next_bits`] from
/// seed `s` the state is `s + k·0x6D2B79F5` (mod 2^32), and call `i`
/// returns the mix of the state after `i + 1` steps, so the outputs depend
/// on the seed and the call's position alone.
pub proof fn outputs_follow_the_counter(s: u32, n: nat)
    ensures
        outputs(s, n).len() == n,
        forall|i: int| 0 <= i < n ==> #[trigger] outputs(s, n)[i] == mix(state_after(s, (i + 1) as nat)),
    decreases n,
{
    if n > 0 {
        let a = advance(s);
        lemma_advance(s);
        outputs_follow_the_counter(a, (n - 1) as nat);
        assert forall|i: int| 0 <= i < n implies #[trigger] outputs(s, n)[i] == mix(
            state_after(s, (i + 1) as nat),
        ) by {
            if i > 0 {
                assert(outputs(s, n)[i] == outputs(a, (n - 1) as nat)[i - 1]);
                let m: int = 0x1_0000_0000;
                let c: int = 0x6D2B_79F5;
                assert(a as int == (s + c) % m);
                vstd::arithmetic::div_mod::lemma_add_mod_noop(s + c, i * c, m);
                vstd::arithmetic::div_mod::lemma_mod_twice(i * c, m);
                assert(((s + c) % m + i * c) % m == (s + c + i * c) % m) by {
                    vstd::arithmetic::div_mod::lemma_add_mod_noop(s + c, i * c, m);
                    vstd::arithmetic::div_mod::lemma_add_mod_noop((s + c) % m, i * c, m);
                    vstd::arithmetic::div_mod::lemma_mod_twice(s + c, m);
                }
                assert(s + c + i * c == s + (i + 1) * c) by (nonlinear_arith);
            }
        }
    }
}

} // verus!
