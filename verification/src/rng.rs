//! The linear congruential generator that all randomness of a prefix comes from.

use std::time::SystemTime;
use vstd::prelude::*;

use crate::clock::{epoch_nanos, nanos_at, ClockError};

verus! {

/// Multiplier of the generator; its increment is 1 and its modulus 2^64.
pub const MULTIPLIER: u64 = 6364136223846793005;

/// The state that follows `state`.
pub open spec fn next_state(state: u64) -> u64 {
    ((state * MULTIPLIER + 1) % 0x1_0000_0000_0000_0000) as u64
}

/// The number in `min..=max` that a generator in `state` gives: the high half of
/// the state, brought into the range.
pub open spec fn pick(state: u64, min: u32, max: u32) -> u32 {
    (min + (state / 0x1_0000_0000) as int % (max - min + 1)) as u32
}

/// The state of a generator that was seeded with `seed`, after `n` numbers.
pub open spec fn state_after(seed: u64, n: nat) -> u64
    decreases n,
{
    if n == 0 {
        seed
    } else {
        next_state(state_after(seed, (n - 1) as nat))
    }
}

/// The number at index `n` (from 0) of those that a generator seeded with `seed`
/// gives, when `min..=max` is asked for.
pub open spec fn draw(seed: u64, n: nat, min: u32, max: u32) -> u32 {
    pick(state_after(seed, n + 1), min, max)
}

/// A generator of random numbers. Its view is the state.
pub struct SimpleRng {
    state: u64,
}

impl View for SimpleRng {
    type V = u64;

    closed spec fn view(&self) -> u64 {
        self.state
    }
}

impl SimpleRng {
    /// A generator seeded with the low 64 bits of the nanoseconds since the epoch.
    /// Which seed that is rests on the clock; the error comes exactly where the
    /// clock stands before the epoch.
    pub fn new() -> (rng: Result<SimpleRng, ClockError>)
        ensures
            exists|time: SystemTime|
                call_ensures(SystemTime::now, (), time) && match #[trigger] nanos_at(time) {
                    Ok(seed) => rng matches Ok(r) && r@ == seed,
                    Err(e) => rng == Err::<SimpleRng, ClockError>(e),
                },
    {
        match epoch_nanos() {
            Ok(seed) => Ok(SimpleRng::from_seed(seed)),
            Err(e) => Err(e),
        }
    }

    /// A generator in the state `seed`.
    pub fn from_seed(seed: u64) -> (rng: SimpleRng)
        ensures
            rng@ == seed,
    {
        SimpleRng { state: seed }
    }

    /// A number in `min..=max`.
    pub fn next_range(&mut self, min: u32, max: u32) -> (number: u32)
        requires
            min <= max,
            max - min < u32::MAX,
        ensures
            final(self)@ == next_state(old(self)@),
            number == pick(final(self)@, min, max),
            min <= number <= max,
            final(self)@ == (old(self)@ * 6364136223846793005 + 1) % 0x1_0000_0000_0000_0000,
            number - min == (final(self)@ / 0x1_0000_0000) as int % (max - min + 1),
    {
        let ghost before = self.state;
        self.state = self.state.wrapping_mul(MULTIPLIER).wrapping_add(1);
        proof {
            lemma_wrapped_increment(before as nat * MULTIPLIER as nat);
            lemma_pick_range(self.state, min, max);
        }
        let state: u64 = self.state;
        assert(state >> 32 == state / 0x1_0000_0000) by (bit_vector);
        assert(state / 0x1_0000_0000 <= u32::MAX) by (bit_vector);
        let value: u32 = (state >> 32) as u32;
        let offset: u32 = value % (max - min + 1);
        assert(offset == (state / 0x1_0000_0000) as int % (max - min + 1));
        min + offset
    }
}

/// A number asked for in `min..=max` is in that range.
pub(crate) proof fn lemma_pick_range(state: u64, min: u32, max: u32)
    requires
        min <= max,
    ensures
        min <= pick(state, min, max) <= max,
        pick(state, min, max) == min + (state / 0x1_0000_0000) as int % (max - min + 1),
{
    let value = (state / 0x1_0000_0000) as int;
    let range = max - min + 1;
    assert(0 <= value % range < range) by (nonlinear_arith)
        requires
            0 < range,
    ;
}

/// Adding one to a wrapped number wraps as adding one to the number does.
proof fn lemma_wrapped_increment(n: nat)
    ensures
        (n + 1) % 0x1_0000_0000_0000_0000 == if n % 0x1_0000_0000_0000_0000 == u64::MAX {
            0nat
        } else {
            n % 0x1_0000_0000_0000_0000 + 1
        },
{
}

/// Law: each state is 6364136223846793005 times the one before it, and one more, up
/// to a multiple of 2^64.
pub proof fn law_states_follow_each_other(state: u64) -> (wraps: int)
    ensures
        state * 6364136223846793005 + 1 == wraps * 0x1_0000_0000_0000_0000 + next_state(state),
{
    (state * 6364136223846793005 + 1) / 0x1_0000_0000_0000_0000
}

/// Law: every state follows some state, so a generator passes through all of them.
pub proof fn law_every_state_has_one_before(state: u64) -> (before: u64)
    ensures
        next_state(before) == state,
{
    let n: int = 0x1_0000_0000_0000_0000;
    let x: int = state - 1 + n;
    let product: int = x * 13877824140714322085;
    let wraps: int = product / n;
    let before = (product - wraps * n) as u64;
    let rest: int = 1 + x * 4787856489426250814 - wraps * 6364136223846793005;
    assert(before * 6364136223846793005 + 1 == n * rest + state);
    vstd::arithmetic::div_mod::lemma_mod_multiples_vanish(rest, state as int, n);
    before
}

/// Law: a generator can be brought to any state after any number of numbers.
pub proof fn law_every_state_is_reached(n: nat, state: u64) -> (seed: u64)
    ensures
        state_after(seed, n) == state,
    decreases n,
{
    if n == 0 {
        state
    } else {
        let before = law_every_state_has_one_before(state);
        law_every_state_is_reached((n - 1) as nat, before)
    }
}

/// Law: a generator that stops after some numbers and one that is seeded with its
/// state then go on alike; no number is asked for without moving on.
pub proof fn law_generator_is_resumed(seed: u64, first: nat, more: nat)
    ensures
        state_after(seed, 0) == seed,
        state_after(seed, 1) == next_state(seed),
        state_after(seed, first + more) == state_after(state_after(seed, first), more),
    decreases more,
{
    reveal_with_fuel(state_after, 2);
    if more > 0 {
        law_generator_is_resumed(seed, first, (more - 1) as nat);
    }
}

/// Law: a number lies in the range that was asked for, and its distance from the
/// range's start differs from the high half of the state by full ranges.
pub proof fn law_number_is_high_half_in_range(state: u64, min: u32, max: u32) -> (full: int)
    requires
        min <= max,
    ensures
        min <= pick(state, min, max) <= max,
        0 <= full,
        (state / 0x1_0000_0000) as int == full * (max - min + 1) + (pick(state, min, max) - min),
{
    lemma_pick_range(state, min, max);
    let high = (state / 0x1_0000_0000) as int;
    let range = max - min + 1;
    vstd::arithmetic::div_mod::lemma_fundamental_div_mod(high, range);
    assert(range * (high / range) == (high / range) * range) by (nonlinear_arith);
    assert(0 <= high / range) by (nonlinear_arith)
        requires
            0 <= high,
            0 < range,
    ;
    high / range
}

/// Law: every number of a range comes up under some state.
pub proof fn law_every_number_comes_up(min: u32, max: u32, number: u32) -> (state: u64)
    requires
        min <= number <= max,
    ensures
        pick(state, min, max) == number,
{
    let state = ((number - min) * 0x1_0000_0000) as u64;
    assert(state / 0x1_0000_0000 == number - min);
    lemma_pick_range(state, min, max);
    vstd::arithmetic::div_mod::lemma_small_mod((number - min) as nat, (max - min + 1) as nat);
    state
}

/// Law: the number at an index is what a generator in the state before it gives next.
pub proof fn law_draw_is_the_next_number(seed: u64, n: nat, min: u32, max: u32)
    ensures
        draw(seed, n, min, max) == pick(next_state(state_after(seed, n)), min, max),
        draw(seed, n, min, max) == draw(state_after(seed, n), 0, min, max),
{
    law_generator_is_resumed(seed, n, 1);
}

} // verus!
