//! How the opening side draws a prefix from its random numbers.
//!
//! The first ten numbers shape the header: how many digits it has, the digits
//! themselves, the places where they stand (the head of a shuffle of all five
//! places), and the fillers of the other places. Every number after those is a
//! byte of garbage.

use std::time::SystemTime;
use vstd::prelude::*;

use crate::clock::{nanos_at, ClockError};
use crate::prefix::{
    announced_len, apply_key, are_length_digits, collect_digits, decimal, decimal_value, digits_in,
    is_digit, keyed, law_announced_len_bounds, law_keyed_twice, lemma_digits_push,
};
use crate::rng::{
    draw, law_every_number_comes_up, law_every_state_is_reached, lemma_pick_range, state_after,
    SimpleRng,
};

verus! {

/// The number of digits of the header that `seed` gives.
pub open spec fn digit_count(seed: u64) -> nat {
    if draw(seed, 0, 0, 1) == 0 {
        2
    } else {
        3
    }
}

/// The digits of the header that `seed` gives, in ASCII. The number that they
/// write is never below ten.
pub open spec fn length_digits(seed: u64) -> Seq<u8> {
    if digit_count(seed) == 2 {
        seq![(draw(seed, 1, 1, 9) + 0x30) as u8, (draw(seed, 2, 0, 9) + 0x30) as u8]
    } else {
        let first = draw(seed, 1, 0, 9);
        let least: u32 = if first == 0 {
            1
        } else {
            0
        };
        seq![
            (first + 0x30) as u8,
            (draw(seed, 2, least, 9) + 0x30) as u8,
            (draw(seed, 3, 0, 9) + 0x30) as u8,
        ]
    }
}

/// `places` with the entries at `i` and `j` exchanged.
pub open spec fn swapped(places: Seq<usize>, i: int, j: int) -> Seq<usize> {
    places.update(i, places[j]).update(j, places[i])
}

/// The five places of a header after `steps` steps of the shuffle whose numbers
/// start at index `start`. Step `i` brings one of the entries from `i` on to `i`.
pub open spec fn shuffled(seed: u64, start: nat, steps: nat) -> Seq<usize>
    decreases steps,
{
    if steps == 0 {
        seq![0usize, 1usize, 2usize, 3usize, 4usize]
    } else {
        let i = (steps - 1) as nat;
        swapped(shuffled(seed, start, i), i as int, draw(seed, start + i, i as u32, 4) as int)
    }
}

/// The places of the digits in the header that `seed` gives, in no order.
pub open spec fn digit_places(seed: u64) -> Seq<usize> {
    shuffled(seed, 1 + digit_count(seed), 4).take(digit_count(seed) as int)
}

/// How many of `places` stand before place `i`.
pub open spec fn places_before(places: Seq<usize>, i: nat) -> nat
    decreases i,
{
    if i == 0 {
        0
    } else {
        places_before(places, (i - 1) as nat) + if places.contains((i - 1) as usize) {
            1nat
        } else {
            0nat
        }
    }
}

/// The byte that fills a place without a digit: the bytes that are no digits, in
/// order.
pub open spec fn filler(number: u32) -> u8 {
    if number < 0x30 {
        number as u8
    } else {
        (number + 10) as u8
    }
}

/// The byte at place `i` of the header that `seed` gives, before the key.
pub open spec fn header_byte(seed: u64, i: nat) -> u8 {
    let places = digit_places(seed);
    let digits_before = places_before(places, i);
    if places.contains(i as usize) {
        length_digits(seed)[digits_before as int]
    } else {
        filler(draw(seed, (5 + digit_count(seed) + i - digits_before) as nat, 0, 245))
    }
}

/// The header that `seed` gives, before the key.
pub open spec fn plain_header(seed: u64) -> Seq<u8> {
    Seq::new(5, |i: int| header_byte(seed, i as nat))
}

/// The number of garbage bytes behind the header that `seed` gives.
pub open spec fn garbage_len(seed: u64) -> nat {
    decimal(length_digits(seed))
}

/// The first `len` bytes of garbage that `seed` gives.
pub open spec fn garbage(seed: u64, len: nat) -> Seq<u8> {
    Seq::new(len, |i: int| draw(seed, (10 + i) as nat, 0, 255) as u8)
}

/// The prefix that `seed` gives under `key`.
pub open spec fn prefix_of(seed: u64, key: Seq<u8>) -> Seq<u8> {
    keyed(plain_header(seed), key) + garbage(seed, garbage_len(seed))
}

/// A number asked for in `min..=max` is in that range.
proof fn lemma_draw_range(seed: u64, n: nat, min: u32, max: u32)
    requires
        min <= max,
    ensures
        min <= draw(seed, n, min, max) <= max,
{
    lemma_pick_range(state_after(seed, n + 1), min, max);
}

/// The shuffle keeps each place once.
proof fn lemma_shuffled(seed: u64, start: nat, steps: nat)
    requires
        steps <= 4,
    ensures
        shuffled(seed, start, steps).len() == 5,
        shuffled(seed, start, steps).no_duplicates(),
        forall|i: int| 0 <= i < 5 ==> #[trigger] shuffled(seed, start, steps)[i] < 5,
    decreases steps,
{
    if steps > 0 {
        let i = (steps - 1) as nat;
        lemma_shuffled(seed, start, i);
        lemma_draw_range(seed, start + i, i as u32, 4);
    }
}

/// Two or three distinct places of five are counted once each.
proof fn lemma_places_before(places: Seq<usize>)
    requires
        2 <= places.len() <= 3,
        places.no_duplicates(),
        forall|k: int| 0 <= k < places.len() ==> #[trigger] places[k] < 5,
    ensures
        places_before(places, 5) == places.len(),
        forall|i: nat|
            i < 5 && places.contains(i as usize) ==> #[trigger] places_before(places, i)
                < places.len(),
        forall|i: nat| i < 5 ==> #[trigger] places_before(places, i) <= i,
        forall|i: nat|
            i < 5 && !places.contains(i as usize) ==> i - #[trigger] places_before(places, i) < 5
                - places.len(),
{
    assert forall|x: usize| #[trigger] places.contains(x) <==> (x == places[0] || x == places[1] || (
    places.len() == 3 && x == places[2])) by {
        assert(places.contains(places[0]));
        assert(places.contains(places[1]));
        if places.len() == 3 {
            assert(places.contains(places[2]));
        }
    }
    assert(places[0] != places[1]);
    assert(places.len() == 3 ==> places[0] != places[2] && places[1] != places[2]);
    assert(places_before(places, 0) == 0);
    assert(places_before(places, 1) <= 1);
    assert(places_before(places, 2) <= 2);
    assert(places_before(places, 3) <= 3);
    assert(places_before(places, 4) <= 4);
    assert(places_before(places, 5) == places.len());
}

/// The digits fill exactly their places, in order.
proof fn lemma_places(seed: u64)
    ensures
        digit_places(seed).len() == digit_count(seed),
        length_digits(seed).len() == digit_count(seed),
        places_before(digit_places(seed), 5) == digit_count(seed),
        forall|i: nat|
            i < 5 && digit_places(seed).contains(i as usize) ==> #[trigger] places_before(
                digit_places(seed),
                i,
            ) < digit_count(seed),
        forall|i: nat| i < 5 ==> #[trigger] places_before(digit_places(seed), i) <= i,
        forall|i: nat|
            i < 5 && !digit_places(seed).contains(i as usize) ==> i - #[trigger] places_before(
                digit_places(seed),
                i,
            ) < 5 - digit_count(seed),
{
    let start = 1 + digit_count(seed);
    lemma_shuffled(seed, start, 4);
    assert forall|k: int| 0 <= k < digit_places(seed).len() implies #[trigger] digit_places(
        seed,
    )[k] < 5 by {
        assert(digit_places(seed)[k] == shuffled(seed, start, 4)[k]);
    }
    lemma_places_before(digit_places(seed));
}

/// The header's digits, taken up to place `i`, are the first of those chosen.
proof fn lemma_header_digits(seed: u64, i: nat)
    requires
        i <= 5,
    ensures
        digits_in(plain_header(seed).take(i as int)) == length_digits(seed).take(
            places_before(digit_places(seed), i) as int,
        ),
        places_before(digit_places(seed), i) <= digit_count(seed),
    decreases i,
{
    lemma_places(seed);
    let header = plain_header(seed);
    if i == 0 {
        reveal(Seq::filter);
        assert(digits_in(header.take(0)) =~= length_digits(seed).take(0));
    } else {
        let j = (i - 1) as nat;
        lemma_header_digits(seed, j);
        let byte = header_byte(seed, j);
        assert(header.take(i as int) =~= header.take(j as int).push(byte));
        lemma_digits_push(header.take(j as int), byte);
        let before = places_before(digit_places(seed), j);
        if digit_places(seed).contains(j as usize) {
            lemma_length_digits(seed);
            assert(is_digit(byte));
            assert(length_digits(seed).take(before as int + 1) =~= length_digits(seed).take(
                before as int,
            ).push(byte));
        } else {
            lemma_draw_range(seed, (5 + digit_count(seed) + j - before) as nat, 0, 245);
            assert(!is_digit(byte));
        }
    }
}

/// The chosen digits are digits, and those of a header that a peer sends.
proof fn lemma_length_digits(seed: u64)
    ensures
        forall|i: int|
            0 <= i < length_digits(seed).len() ==> is_digit(#[trigger] length_digits(seed)[i]),
        are_length_digits(length_digits(seed)),
{
    lemma_draw_range(seed, 1, 1, 9);
    lemma_draw_range(seed, 1, 0, 9);
    lemma_draw_range(seed, 2, 0, 9);
    lemma_draw_range(seed, 2, 1, 9);
    lemma_draw_range(seed, 3, 0, 9);
}

/// Law: the header of every prefix announces, under the key that it was drawn
/// for, exactly the garbage that follows it. So whoever reads a header and then
/// the length that it announces has read the prefix to its end, and no more.
pub proof fn law_prefix_announces_its_garbage(seed: u64, key: Seq<u8>)
    ensures
        prefix_of(seed, key).len() == 5 + garbage_len(seed),
        announced_len(prefix_of(seed, key).take(5), key) == Some(garbage_len(seed)),
        10 <= garbage_len(seed) <= 999,
{
    let header = keyed(plain_header(seed), key);
    assert(prefix_of(seed, key).take(5) =~= header);
    law_keyed_twice(plain_header(seed), key);
    lemma_header_digits(seed, 5);
    lemma_places(seed);
    lemma_length_digits(seed);
    assert(plain_header(seed).take(5) =~= plain_header(seed));
    assert(length_digits(seed).take(digit_count(seed) as int) =~= length_digits(seed));
    law_announced_len_bounds(header, key);
}

/// Law: behind the header every byte of a prefix is random: the byte at `i` is the
/// low byte of the high half of the generator's state after `i + 6` numbers.
pub proof fn law_garbage_is_random(seed: u64, key: Seq<u8>, i: int)
    requires
        5 <= i < prefix_of(seed, key).len(),
    ensures
        prefix_of(seed, key)[i] == (state_after(seed, (i + 6) as nat) / 0x1_0000_0000) % 256,
{
    law_prefix_announces_its_garbage(seed, key);
    lemma_pick_range(state_after(seed, (i + 6) as nat), 0, 255);
    assert(prefix_of(seed, key)[i] == garbage(seed, garbage_len(seed))[i - 5]);
}

/// Law: at every place behind the header each of the 256 bytes comes up under some
/// seed.
pub proof fn law_every_garbage_byte_comes_up(i: nat, byte: u8) -> (seed: u64)
    ensures
        garbage(seed, i + 1)[i as int] == byte,
        (state_after(seed, i + 11) / 0x1_0000_0000) % 256 == byte,
{
    let state = law_every_number_comes_up(0, 255, byte as u32);
    let seed = law_every_state_is_reached(i + 11, state);
    lemma_pick_range(state, 0, 255);
    seed
}

/// Law: the key changes the header alone, each byte by one of its own in turn.
pub proof fn law_key_changes_the_header_alone(seed: u64, key: Seq<u8>, i: int)
    requires
        0 <= i < prefix_of(seed, Seq::empty()).len(),
    ensures
        prefix_of(seed, key).len() == prefix_of(seed, Seq::empty()).len(),
        i >= 5 || key.len() == 0 ==> prefix_of(seed, key)[i] == prefix_of(seed, Seq::empty())[i],
        i < 5 && key.len() > 0 ==> prefix_of(seed, key)[i] == prefix_of(seed, Seq::empty())[i]
            ^ key[i % key.len() as int],
{
    law_prefix_announces_its_garbage(seed, key);
    law_prefix_announces_its_garbage(seed, Seq::empty());
}

/// Where the shuffle brings three of the five places first, from the numbers that it
/// was given.
proof fn lemma_shuffled_head(seed: u64, start: nat)
    ensures
        ({
            let x0 = draw(seed, start, 0, 4);
            let x1 = draw(seed, start + 1, 1, 4);
            let x2 = draw(seed, start + 2, 2, 4);
            let all = shuffled(seed, start, 4);
            &&& all.len() == 5
            &&& all[0] == x0
            &&& all[1] == if x1 == x0 {
                0
            } else {
                x1
            }
            &&& all[2] == if x2 == x1 {
                if x0 == 1 {
                    0
                } else {
                    1
                }
            } else if x2 == x0 {
                0
            } else {
                x2
            }
        }),
{
    let x0 = draw(seed, start, 0, 4) as int;
    let x1 = draw(seed, start + 1, 1, 4) as int;
    let x2 = draw(seed, start + 2, 2, 4) as int;
    let x3 = draw(seed, start + 3, 3, 4) as int;
    lemma_draw_range(seed, start, 0, 4);
    lemma_draw_range(seed, start + 1, 1, 4);
    lemma_draw_range(seed, start + 2, 2, 4);
    lemma_draw_range(seed, start + 3, 3, 4);
    let s0 = seq![0usize, 1usize, 2usize, 3usize, 4usize];
    let s1 = swapped(s0, 0, x0);
    let s2 = swapped(s1, 1, x1);
    let s3 = swapped(s2, 2, x2);
    assert(shuffled(seed, start, 0) == s0);
    assert(shuffled(seed, start, 1) == s1);
    assert(shuffled(seed, start, 2) == s2);
    assert(shuffled(seed, start, 3) == s3);
    assert(shuffled(seed, start, 4) == swapped(s3, 3, x3));
}

/// The count of places before another is the sum over the places.
proof fn lemma_places_counted(places: Seq<usize>, i: nat)
    requires
        2 <= places.len() <= 3,
        places.no_duplicates(),
        i <= 5,
    ensures
        places_before(places, i) == (if places[0] < i {
            1int
        } else {
            0
        }) + (if places[1] < i {
            1int
        } else {
            0
        }) + (if places.len() == 3 && places[2] < i {
            1int
        } else {
            0
        }),
    decreases i,
{
    if i > 0 {
        lemma_places_counted(places, (i - 1) as nat);
        let x = (i - 1) as usize;
        assert(places.contains(x) <==> (x == places[0] || x == places[1] || (places.len() == 3 && x
            == places[2]))) by {
            assert(places.contains(places[0]));
            assert(places.contains(places[1]));
            if places.len() == 3 {
                assert(places.contains(places[2]));
            }
        }
        assert(places[0] != places[1]);
        assert(places.len() == 3 ==> places[0] != places[2] && places[1] != places[2]);
    }
}

/// Law: how the generator's states make a header. With `h(n)` the high half of the
/// state after `n` numbers, `h(1)` decides between two and three digits; the next
/// ones give the digits, of which a first zero is followed by no other; then come the
/// places where they stand, each free place being as good as any other, and the
/// digits fill them from left to right; every other place holds a byte that is no
/// digit, chosen among all of those. The number that the digits write is the number
/// of bytes behind the header.
#[verifier::rlimit(40)]
pub proof fn law_header_comes_from_the_states(seed: u64, i: int)
    requires
        0 <= i < 5,
    ensures
        ({
            let header = prefix_of(seed, Seq::empty());
            let h = |n: int| (state_after(seed, n as nat) / 0x1_0000_0000) as int;
            let three = h(1) % 2 == 1;
            let d0 = if three {
                h(2) % 10
            } else {
                1 + h(2) % 9
            };
            let d1 = if three && d0 == 0 {
                1 + h(3) % 9
            } else {
                h(3) % 10
            };
            let d2 = h(4) % 10;
            let start: int = if three {
                5
            } else {
                4
            };
            let x0 = h(start) % 5;
            let x1 = 1 + h(start + 1) % 4;
            let x2 = 2 + h(start + 2) % 3;
            let p0 = x0;
            let p1 = if x1 == x0 {
                0
            } else {
                x1
            };
            let p2 = if x2 == x1 {
                if x0 == 1 {
                    0int
                } else {
                    1
                }
            } else if x2 == x0 {
                0
            } else {
                x2
            };
            let rank = (if p0 < i {
                1int
            } else {
                0
            }) + (if p1 < i {
                1int
            } else {
                0
            }) + (if three && p2 < i {
                1int
            } else {
                0
            });
            let number = h(start + 4 + i - rank) % 246;
            &&& p0 != p1 && p0 != p2 && p1 != p2
            &&& header.len() - 5 == if three {
                d0 * 100 + d1 * 10 + d2
            } else {
                d0 * 10 + d1
            }
            &&& if i == p0 || i == p1 || (three && i == p2) {
                header[i] - 0x30 == if rank == 0 {
                    d0
                } else if rank == 1 {
                    d1
                } else {
                    d2
                }
            } else {
                ||| header[i] < 0x30 && header[i] == number
                ||| header[i] > 0x39 && header[i] - 10 == number
            }
        }),
{
    let count = digit_count(seed);
    let start = 1 + count;
    let places = digit_places(seed);
    law_prefix_announces_its_garbage(seed, Seq::empty());
    lemma_shuffled(seed, start, 4);
    lemma_shuffled_head(seed, start);
    lemma_places(seed);
    lemma_places_counted(places, i as nat);
    lemma_length_digits(seed);
    lemma_numbers_of_header(seed);
    crate::prefix::lemma_decimal_three(length_digits(seed));
    assert(places[0] == shuffled(seed, start, 4)[0]);
    assert(places[1] == shuffled(seed, start, 4)[1]);
    assert(count == 3 ==> places[2] == shuffled(seed, start, 4)[2]);
    assert(places.contains(i as usize) <==> (i == places[0] || i == places[1] || (count == 3 && i
        == places[2]))) by {
        assert(places.contains(places[0]));
        assert(places.contains(places[1]));
        if count == 3 {
            assert(places.contains(places[2]));
        }
    }
    let before = places_before(places, i as nat);
    lemma_pick_range(state_after(seed, (6 + count + i - before) as nat), 0, 245);
    assert(prefix_of(seed, Seq::empty())[i] == header_byte(seed, i as nat));
}

/// The numbers that a header is made of, over the states that give them.
proof fn lemma_numbers_of_header(seed: u64)
    ensures
        ({
            let h = |n: int| (state_after(seed, n as nat) / 0x1_0000_0000) as int;
            &&& draw(seed, 0, 0, 1) == h(1) % 2
            &&& draw(seed, 1, 1, 9) == 1 + h(2) % 9
            &&& draw(seed, 1, 0, 9) == h(2) % 10
            &&& draw(seed, 2, 0, 9) == h(3) % 10
            &&& draw(seed, 2, 1, 9) == 1 + h(3) % 9
            &&& draw(seed, 3, 0, 9) == h(4) % 10
            &&& draw(seed, 3, 0, 4) == h(4) % 5
            &&& draw(seed, 4, 1, 4) == 1 + h(5) % 4
            &&& draw(seed, 5, 2, 4) == 2 + h(6) % 3
            &&& draw(seed, 4, 0, 4) == h(5) % 5
            &&& draw(seed, 5, 1, 4) == 1 + h(6) % 4
            &&& draw(seed, 6, 2, 4) == 2 + h(7) % 3
        }),
{
    lemma_pick_range(state_after(seed, 1), 0, 1);
    lemma_pick_range(state_after(seed, 2), 1, 9);
    lemma_pick_range(state_after(seed, 2), 0, 9);
    lemma_pick_range(state_after(seed, 3), 0, 9);
    lemma_pick_range(state_after(seed, 3), 1, 9);
    lemma_pick_range(state_after(seed, 4), 0, 9);
    lemma_pick_range(state_after(seed, 4), 0, 4);
    lemma_pick_range(state_after(seed, 5), 1, 4);
    lemma_pick_range(state_after(seed, 6), 2, 4);
    lemma_pick_range(state_after(seed, 5), 0, 4);
    lemma_pick_range(state_after(seed, 6), 1, 4);
    lemma_pick_range(state_after(seed, 7), 2, 4);
}

/// Draws the digits of a header; `rng` has given the number of digits already.
fn draw_digits(rng: &mut SimpleRng, count: usize, Ghost(seed): Ghost<u64>) -> (digits: Vec<u8>)
    requires
        old(rng)@ == state_after(seed, 1),
        count == digit_count(seed),
    ensures
        digits@ == length_digits(seed),
        final(rng)@ == state_after(seed, 1 + digit_count(seed)),
{
    let mut digits: Vec<u8> = Vec::new();
    if count == 2 {
        digits.push(rng.next_range(1, 9) as u8 + 0x30);
        digits.push(rng.next_range(0, 9) as u8 + 0x30);
    } else {
        let first: u8 = rng.next_range(0, 9) as u8;
        digits.push(first + 0x30);
        let least: u32 = if first == 0 {
            1
        } else {
            0
        };
        digits.push(rng.next_range(least, 9) as u8 + 0x30);
        digits.push(rng.next_range(0, 9) as u8 + 0x30);
    }
    assert(digits@ =~= length_digits(seed));
    digits
}

/// Shuffles the five places of a header.
fn draw_places(rng: &mut SimpleRng, Ghost(seed): Ghost<u64>, Ghost(start): Ghost<nat>) -> (places:
    Vec<usize>)
    requires
        old(rng)@ == state_after(seed, start),
    ensures
        places@ == shuffled(seed, start, 4),
        final(rng)@ == state_after(seed, start + 4),
{
    let mut places: Vec<usize> = vec![0, 1, 2, 3, 4];
    assert(places@ =~= shuffled(seed, start, 0));
    for i in 0..4usize
        invariant
            places@ == shuffled(seed, start, i as nat),
            places@.len() == 5,
            rng@ == state_after(seed, start + i as nat),
    {
        let j: usize = rng.next_range(i as u32, 4) as usize;
        let at_i: usize = places[i];
        let at_j: usize = places[j];
        places.set(i, at_j);
        places.set(j, at_i);
        assert(places@ =~= shuffled(seed, start, (i + 1) as nat));
    }
    places
}

/// Whether `place` is among the first `count` of `places`.
fn is_among(places: &Vec<usize>, count: usize, place: usize) -> (among: bool)
    requires
        count <= places@.len(),
    ensures
        among == places@.take(count as int).contains(place),
{
    let ghost head = places@.take(count as int);
    for i in 0..count
        invariant
            count <= places@.len(),
            head == places@.take(count as int),
            forall|j: int| 0 <= j < i ==> head[j] != place,
    {
        if places[i] == place {
            assert(head[i as int] == place);
            return true;
        }
    }
    false
}

/// Draws a header, before the key. Returns it with the number of garbage bytes
/// that it announces.
fn draw_header(rng: &mut SimpleRng) -> (header: (Vec<u8>, usize))
    ensures
        header.0@ == plain_header(old(rng)@),
        header.1 == garbage_len(old(rng)@),
        final(rng)@ == state_after(old(rng)@, 10),
{
    let ghost seed = rng@;
    let count: usize = if rng.next_range(0, 1) == 0 {
        2
    } else {
        3
    };
    assert(rng@ == state_after(seed, 1)) by {
        reveal_with_fuel(state_after, 2);
    }
    let digits = draw_digits(rng, count, Ghost(seed));
    let places = draw_places(rng, Ghost(seed), Ghost(1 + digit_count(seed)));
    proof {
        lemma_shuffled(seed, 1 + digit_count(seed), 4);
        lemma_places(seed);
    }
    let mut header: Vec<u8> = Vec::new();
    let mut used: usize = 0;
    for i in 0..5usize
        invariant
            count == digit_count(seed),
            2 <= count <= 3,
            digits@ == length_digits(seed),
            digits@.len() == count,
            places@ == shuffled(seed, 1 + digit_count(seed), 4),
            places@.len() == 5,
            used == places_before(digit_places(seed), i as nat),
            used <= i,
            header@.len() == i,
            header@ =~= plain_header(seed).take(i as int),
            rng@ == state_after(seed, (5 + count + i - used) as nat),
    {
        proof {
            lemma_places(seed);
        }
        if is_among(&places, count, i) {
            header.push(digits[used]);
            used = used + 1;
        } else {
            let number: u8 = rng.next_range(0, 245) as u8;
            header.push(
                if number < 0x30 {
                    number
                } else {
                    number + 10
                },
            );
        }
        assert(header@[i as int] == header_byte(seed, i as nat));
    }
    proof {
        lemma_places(seed);
        lemma_length_digits(seed);
        lemma_header_digits(seed, 5);
        assert(plain_header(seed).take(5) =~= plain_header(seed));
        assert(length_digits(seed).take(digit_count(seed) as int) =~= length_digits(seed));
    }
    let announced = collect_digits(&header);
    let len: usize = decimal_value(&announced);
    (header, len)
}

/// Draws the prefix of a connection from `rng`.
pub fn draw_prefix(rng: &mut SimpleRng, key: &str) -> (prefix: Vec<u8>)
    ensures
        prefix@ == prefix_of(old(rng)@, vstd::utf8::encode_utf8(key@)),
        final(rng)@ == state_after(old(rng)@, prefix@.len() + 5),
        forall|i: int|
            5 <= i < prefix@.len() ==> #[trigger] prefix@[i] == (state_after(
                old(rng)@,
                (i + 6) as nat,
            ) / 0x1_0000_0000) % 256,
{
    let ghost seed = rng@;
    let ghost key_bytes = vstd::utf8::encode_utf8(key@);
    let (header, len) = draw_header(rng);
    let mut prefix = apply_key(&header, key.as_bytes());
    let ghost keyed_header = prefix@;
    for i in 0..len
        invariant
            keyed_header.len() == 5,
            prefix@ =~= keyed_header + garbage(seed, i as nat),
            rng@ == state_after(seed, (10 + i) as nat),
    {
        prefix.push(rng.next_range(0, 255) as u8);
    }
    proof {
        assert forall|i: int| 5 <= i < prefix@.len() implies #[trigger] prefix@[i] == (state_after(
            seed,
            (i + 6) as nat,
        ) / 0x1_0000_0000) % 256 by {
            law_garbage_is_random(seed, key_bytes, i);
        }
    }
    prefix
}

/// The prefix of a new connection: the one that the time of the clock gives as a
/// seed. The error comes exactly where that time is before the epoch.
pub fn generate_dynamic_obfs(key: &str) -> (prefix: Result<Vec<u8>, ClockError>)
    ensures
        exists|time: SystemTime|
            call_ensures(SystemTime::now, (), time) && match #[trigger] nanos_at(time) {
                Ok(seed) => prefix matches Ok(bytes) && bytes@ == prefix_of(
                    seed,
                    vstd::utf8::encode_utf8(key@),
                ),
                Err(e) => prefix == Err::<Vec<u8>, ClockError>(e),
            },
{
    match SimpleRng::new() {
        Ok(rng) => {
            let mut rng = rng;
            Ok(draw_prefix(&mut rng, key))
        },
        Err(e) => Err(e),
    }
}

} // verus!
