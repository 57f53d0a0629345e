//! Seeded shuffling shared by both rule sets, on top of the ChaCha20 stream generator.

use rand_chacha::ChaCha20Rng;
use rand_core::{RngCore, SeedableRng};
use vstd::prelude::*;

verus! {

/// The ChaCha20 generator of `rand_chacha`; its state is opaque here.
#[verifier::external_type_specification]
#[verifier::external_body]
pub struct ExChaCha20Rng(ChaCha20Rng);

/// The error type of `getrandom`.
#[verifier::external_type_specification]
#[verifier::external_body]
pub struct ExGetrandomError(getrandom::Error);

/// The 64-bit word at `index` (counting from zero) of the stream that a ChaCha20 generator
/// seeded with `seed` hands out through `next_u64`.
pub uninterp spec fn chacha20_word(seed: Seq<u8>, index: nat) -> u64;

/// A ChaCha20 generator together with the seed it was made from and how many 64-bit words it
/// has handed out.
pub struct SeededRandom {
    generator: ChaCha20Rng,
    seed: Ghost<Seq<u8>>,
    position: Ghost<nat>,
}

impl SeededRandom {
    pub closed spec fn spec_seed(&self) -> Seq<u8> {
        self.seed@
    }

    pub closed spec fn spec_position(&self) -> nat {
        self.position@
    }
}

/// Calls `ChaCha20Rng::from_seed`: a generator whose stream is determined by the 32-byte seed.
/// Nothing about the generator's state is stated here; `seeded_random` records the seed.
#[verifier::external_body]
fn seeded_generator(seed: [u8; 32]) -> (r: ChaCha20Rng) {
    ChaCha20Rng::from_seed(seed)
}

/// A generator seeded with the bytes, at the start of its stream.
pub(crate) fn seeded_random(seed: [u8; 32]) -> (r: SeededRandom)
    ensures
        r.spec_seed() == seed@,
        r.spec_position() == 0,
{
    SeededRandom { generator: seeded_generator(seed), seed: Ghost(seed@), position: Ghost(0) }
}

/// Calls `RngCore::next_u64` on the generator: the next 64-bit word of the stream of its
/// seed, the word at its position, which then moves on by one. The generator is only ever
/// read through this call, so its position counts the words it has handed out.
#[verifier::external_body]
pub(crate) fn next_u64(random: &mut SeededRandom) -> (r: u64)
    ensures
        r == chacha20_word(old(random).spec_seed(), old(random).spec_position()),
        final(random).spec_seed() == old(random).spec_seed(),
        final(random).spec_position() == old(random).spec_position() + 1,
{
    random.generator.next_u64()
}

/// The value below `bound` that rejection sampling draws from the stream of `seed` from
/// `position` on, with `budget` redraws left, and the position after it: the first word at
/// or above the rejection threshold (the last one once the budget is spent), reduced modulo
/// `bound`.
pub open spec fn draw_below(seed: Seq<u8>, position: nat, bound: u64, budget: nat) -> (u64, nat)
    decreases budget,
{
    let value = chacha20_word(seed, position);
    let threshold = ((u64::MAX - bound + 1) % (bound as int)) as u64;
    if value >= threshold || budget == 0 {
        ((value % bound) as u64, position + 1)
    } else {
        draw_below(seed, position + 1, bound, (budget - 1) as nat)
    }
}

/// The Fisher-Yates shuffle of `values` driven by the stream of `seed` from `position` on,
/// swapping from index `upper` down to index 1, and the position after it.
pub open spec fn shuffled<T>(values: Seq<T>, seed: Seq<u8>, position: nat, upper: int) -> (Seq<T>, nat)
    decreases upper,
{
    if upper < 1 {
        (values, position)
    } else {
        let (selected, next) = draw_below(seed, position, (upper + 1) as u64, u64::MAX as nat);
        let swapped = values.update(upper, values[selected as int]).update(selected as int, values[upper]);
        shuffled(swapped, seed, next, upper - 1)
    }
}

/// Calls `getrandom::fill` on a 32-byte buffer: on success the buffer holds bytes from the
/// operating system's random source. Which bytes come back is not stated.
#[verifier::external_body]
pub(crate) fn fill_from_os(bytes: &mut [u8; 32]) -> (r: Result<(), getrandom::Error>) {
    getrandom::fill(bytes)
}

/// A value drawn uniformly below `bound` by rejection sampling from the generator.
/// The retry budget (2^64 draws, each rejected with probability below `bound / 2^64`) is
/// never exhausted in practice; should it be, the last draw is reduced modulo `bound`.
pub(crate) fn uniform_below(random: &mut SeededRandom, bound: u64) -> (r: u64)
    requires
        bound > 0,
    ensures
        r < bound,
        (r, final(random).spec_position()) == draw_below(
            old(random).spec_seed(),
            old(random).spec_position(),
            bound,
            u64::MAX as nat,
        ),
        final(random).spec_seed() == old(random).spec_seed(),
{
    let rejection_threshold = (u64::MAX - bound + 1) % bound;
    let mut budget: u64 = u64::MAX;
    loop
        invariant
            bound > 0,
            rejection_threshold == ((u64::MAX - bound + 1) % (bound as int)) as u64,
            random.spec_seed() == old(random).spec_seed(),
            draw_below(old(random).spec_seed(), old(random).spec_position(), bound, u64::MAX as nat) == draw_below(
                random.spec_seed(),
                random.spec_position(),
                bound,
                budget as nat,
            ),
        decreases budget,
    {
        let value = next_u64(random);
        if value >= rejection_threshold || budget == 0 {
            return value % bound;
        }
        budget = budget - 1;
    }
}

/// Swapping two positions keeps the multiset of values.
proof fn lemma_swap_to_multiset<T>(s: Seq<T>, i: int, j: int)
    requires
        0 <= i < s.len(),
        0 <= j < s.len(),
    ensures
        s.update(i, s[j]).update(j, s[i]).to_multiset() == s.to_multiset(),
{
    broadcast use {
        vstd::seq_lib::to_multiset_update,
        vstd::seq_lib::to_multiset_contains,
        vstd::seq::group_seq_axioms,
        vstd::multiset::group_multiset_axioms,
        vstd::multiset::group_multiset_properties,
    };

    let m = s.to_multiset();
    let s1 = s.update(i, s[j]);
    assert(s1.to_multiset() == m.insert(s[j]).remove(s[i]));
    if i == j {
        assert(s1.update(j, s[i]) =~= s);
    } else {
        assert(s1[j] == s[j]);
        assert(s1.update(j, s[i]).to_multiset() == s1.to_multiset().insert(s[i]).remove(s[j]));
        assert(s.contains(s[i]));
        assert(m.count(s[i]) > 0);
        assert(m.insert(s[j]).remove(s[i]).insert(s[i]).remove(s[j]) =~= m);
    }
}

/// Shuffles `values` in place with the Fisher-Yates algorithm driven by the generator.
/// Whatever the generator returns, the result is a rearrangement of the input.
pub(crate) fn fisher_yates_shuffle<T: Copy>(values: &mut Vec<T>, random: &mut SeededRandom)
    ensures
        final(values)@.len() == old(values)@.len(),
        final(values)@.to_multiset() == old(values)@.to_multiset(),
        (final(values)@, final(random).spec_position()) == shuffled(
            old(values)@,
            old(random).spec_seed(),
            old(random).spec_position(),
            old(values)@.len() - 1,
        ),
        final(random).spec_seed() == old(random).spec_seed(),
{
    let len = values.len();
    if len <= 1 {
        return;
    }
    let mut upper_index = len - 1;
    while upper_index >= 1
        invariant
            values@.len() == len,
            upper_index < len,
            values@.to_multiset() == old(values)@.to_multiset(),
            random.spec_seed() == old(random).spec_seed(),
            shuffled(old(values)@, old(random).spec_seed(), old(random).spec_position(), len - 1) == shuffled(
                values@,
                random.spec_seed(),
                random.spec_position(),
                upper_index as int,
            ),
        decreases upper_index,
    {
        let bound = (upper_index + 1) as u64;
        let selected = uniform_below(random, bound) as usize;
        let upper_value = values[upper_index];
        let selected_value = values[selected];
        proof {
            lemma_swap_to_multiset(values@, upper_index as int, selected as int);
        }
        values.set(upper_index, selected_value);
        values.set(selected, upper_value);
        upper_index = upper_index - 1;
    }
}

} // verus!
