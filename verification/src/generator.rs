//! The generator: a seed, and draws that are functions of seed and key.

use crate::hasher::hash_bytes;
use crate::key::{key_digest, Key, Part};
use crate::mix::{add64, lemma_mix64_injective, mix64, split_mix_64};
use vstd::prelude::*;

verus! {

/// The number of steps in the unit interval: a unit draw is a whole number
/// of millionths.
pub const UNIT_STEPS: u64 = 1_000_000;

/// A generator. It is its seed: two generators with one seed draw alike.
#[derive(Debug, Copy, Clone)]
pub struct FroggyRand {
    pub seed: u64,
}

/// What a caller got wrong.
#[derive(Debug, Clone, Copy, PartialEq, Eq, Structural)]
pub enum InvalidArgument {
    /// There was nothing to choose from.
    EmptyChoices,
    /// The upper end of a range lay below its lower end.
    InvertedRange,
}

/// The value drawn under `key` from the list that `seed` names.
pub open spec fn gen_of(seed: u64, key: Seq<Part>) -> u64 {
    mix64(add64(seed, key_digest(key)))
}

/// The seed of the sub-stream that `key` names under `seed`: the digest of
/// the key followed by the seed.
pub open spec fn subrand_seed(seed: u64, key: Seq<Part>) -> u64 {
    key_digest(key.push(Part::Index(seed)))
}

/// The draw under `key` brought into `min ..= max`.
pub open spec fn range_of(seed: u64, key: Seq<Part>, min: int, max: int) -> int {
    min + gen_of(seed, key) as int % (max - min + 1)
}

/// The position chosen under `key` among `len` choices: the draw reduced
/// to 32 bits first, then by the number of choices.
pub open spec fn choice_of(seed: u64, key: Seq<Part>, len: int) -> int {
    (gen_of(seed, key) as int % 0x1_0000_0000) % len
}

/// The draw under `key` as a number of millionths.
pub open spec fn unit_steps_of(seed: u64, key: Seq<Part>) -> int {
    gen_of(seed, key) as int % UNIT_STEPS as int
}

/// `seed + i` modulo 2^64, for a signed `i`.
pub open spec fn perf_index(seed: u64, i: i32) -> u64 {
    if seed + i > u64::MAX {
        (seed + i - 0x1_0000_0000_0000_0000) as u64
    } else if seed + i < 0 {
        (seed + i + 0x1_0000_0000_0000_0000) as u64
    } else {
        (seed + i) as u64
    }
}

/// The draw under a single integer: the integer is added to the seed as it
/// is, and the sum is mixed.
pub open spec fn perf_of(seed: u64, i: i32) -> u64 {
    mix64(perf_index(seed, i))
}

/// `xs` with the elements at `i` and `j` exchanged.
pub open spec fn swapped<X>(xs: Seq<X>, i: int, j: int) -> Seq<X> {
    xs.update(i, xs[j]).update(j, xs[i])
}

/// What the shuffle under `key` makes of `xs` once the positions before `i`
/// are settled: position `i` takes the element at a position drawn from
/// `i ..= len - 1` under the key followed by `i`, and so on up to the last
/// position but one.
pub open spec fn shuffled_from<X>(seed: u64, key: Seq<Part>, xs: Seq<X>, i: int) -> Seq<X>
    decreases xs.len() - i,
{
    if 0 <= i && i + 1 < xs.len() {
        let j = range_of(seed, key.push(Part::Index(i as u64)), i, xs.len() - 1);
        shuffled_from(seed, key, swapped(xs, i, j), i + 1)
    } else {
        xs
    }
}

/// What the shuffle under `key` makes of `xs`.
pub open spec fn shuffled<X>(seed: u64, key: Seq<Part>, xs: Seq<X>) -> Seq<X> {
    shuffled_from(seed, key, xs, 0)
}

/// Exchanging two elements keeps the elements.
pub proof fn lemma_swapped_keeps_elements<X>(xs: Seq<X>, i: int, j: int)
    requires
        0 <= i < xs.len(),
        0 <= j < xs.len(),
    ensures
        swapped(xs, i, j).len() == xs.len(),
        swapped(xs, i, j).to_multiset() == xs.to_multiset(),
{
    let mid = xs.update(i, xs[j]);
    vstd::seq_lib::to_multiset_update(xs, i, xs[j]);
    vstd::seq_lib::to_multiset_update(mid, j, xs[i]);
    vstd::seq_lib::to_multiset_contains(xs, xs[i]);
    vstd::seq_lib::to_multiset_contains(xs, xs[j]);
    assert(xs.contains(xs[i]));
    assert(xs.contains(xs[j]));
    assert(swapped(xs, i, j).to_multiset() =~= xs.to_multiset());
}

/// Two generators with one seed draw the same value under every key.
pub proof fn lemma_equal_seeds_draw_alike(a: FroggyRand, b: FroggyRand, key: Seq<Part>)
    requires
        a.seed == b.seed,
    ensures
        gen_of(a.seed, key) == gen_of(b.seed, key),
{
}

/// Under one key, different seeds never draw the same value: adding the
/// key's digest and mixing are both one-to-one.
pub proof fn lemma_seeds_draw_apart(s1: u64, s2: u64, key: Seq<Part>)
    requires
        s1 != s2,
    ensures
        gen_of(s1, key) != gen_of(s2, key),
{
    let digest = key_digest(key);
    if gen_of(s1, key) == gen_of(s2, key) {
        lemma_mix64_injective(add64(s1, digest), add64(s2, digest));
    }
}

/// A ranged draw lies in its range, both ends included.
pub proof fn lemma_range_within_bounds(seed: u64, key: Seq<Part>, min: int, max: int)
    requires
        min <= max,
    ensures
        min <= range_of(seed, key, min, max) <= max,
{
}

/// The chosen position is a position among the choices.
pub proof fn lemma_choice_within_bounds(seed: u64, key: Seq<Part>, len: int)
    requires
        len > 0,
    ensures
        0 <= choice_of(seed, key, len) < len,
{
}

/// From any position on, the shuffle keeps the length and the elements,
/// each as often as before; with fewer than two elements left to settle it
/// changes nothing.
pub proof fn lemma_shuffled_from_keeps_elements<X>(seed: u64, key: Seq<Part>, xs: Seq<X>, i: int)
    requires
        0 <= i,
    ensures
        shuffled_from(seed, key, xs, i).len() == xs.len(),
        shuffled_from(seed, key, xs, i).to_multiset() == xs.to_multiset(),
        i + 1 >= xs.len() ==> shuffled_from(seed, key, xs, i) == xs,
    decreases xs.len() - i,
{
    if i + 1 < xs.len() {
        let j = range_of(seed, key.push(Part::Index(i as u64)), i, xs.len() - 1);
        lemma_range_within_bounds(seed, key.push(Part::Index(i as u64)), i, xs.len() - 1);
        lemma_swapped_keeps_elements(xs, i, j);
        lemma_shuffled_from_keeps_elements(seed, key, swapped(xs, i, j), i + 1);
    }
}

/// A shuffle is a permutation: it keeps the length and the elements, each
/// as often as before. Of a sequence of no or one element it changes
/// nothing.
pub proof fn lemma_shuffled_is_permutation<X>(seed: u64, key: Seq<Part>, xs: Seq<X>)
    ensures
        shuffled(seed, key, xs).len() == xs.len(),
        shuffled(seed, key, xs).to_multiset() == xs.to_multiset(),
        xs.len() <= 1 ==> shuffled(seed, key, xs) == xs,
{
    lemma_shuffled_from_keeps_elements(seed, key, xs, 0);
}

/// Exchanges the elements at `i` and `j`: the slice is parted at the
/// later of the two, and the earlier, in the first part, changes places
/// with the first element of the second.
fn exchange<X>(xs: &mut [X], i: usize, j: usize)
    requires
        i < old(xs)@.len(),
        j < old(xs)@.len(),
    ensures
        final(xs)@ == swapped(old(xs)@, i as int, j as int),
{
    if i == j {
        assert(xs@ =~= swapped(xs@, i as int, j as int));
    } else {
        let lo: usize = if i < j { i } else { j };
        let hi: usize = if i < j { j } else { i };
        let (head, tail) = xs.split_at_mut(hi);
        let (_, rest) = head.split_at_mut(lo);
        match (rest.first_mut(), tail.first_mut()) {
            (Some(a), Some(b)) => {
                core::mem::swap(a, b);
            },
            _ => {},
        }
        assert(xs@ =~= swapped(old(xs)@, i as int, j as int));
    }
}

/// The digest of a key.
pub fn hash(key: &Key) -> (digest: u64)
    ensures
        digest == key_digest(key@),
{
    hash_bytes(key.as_bytes())
}

impl FroggyRand {
    /// The generator with the given seed.
    pub fn new(seed: u64) -> (rand: Self)
        ensures
            rand.seed == seed,
    {
        Self { seed }
    }

    /// The generator whose seed is the digest of `key`.
    pub fn from_hash(key: &Key) -> (rand: Self)
        ensures
            rand.seed == key_digest(key@),
    {
        Self::new(hash(key))
    }

    /// The generator of the sub-stream that `key` names under this one.
    pub fn subrand(&self, key: &Key) -> (rand: Self)
        ensures
            rand.seed == subrand_seed(self.seed, key@),
    {
        Self::from_hash(&key.indexed(self.seed))
    }

    /// The draw under `key`: any 64-bit value.
    pub fn gen(&self, key: &Key) -> (value: u64)
        ensures
            value == gen_of(self.seed, key@),
    {
        let digest: u64 = hash(key);
        let index: u64 = self.seed.wrapping_add(digest);
        split_mix_64(index)
    }

    /// The draw under `key` as a number of millionths, from 0 to 999,999.
    pub fn gen_unit_steps(&self, key: &Key) -> (steps: u32)
        ensures
            steps == unit_steps_of(self.seed, key@),
            steps < UNIT_STEPS,
    {
        (self.gen(key) % UNIT_STEPS) as u32
    }

    /// The unit draws that a bell-shaped draw sums: `n` of them, the
    /// `i`-th drawn under `key` followed by `i`, each as a number of
    /// millionths.
    pub fn gen_froggy_steps(&self, key: &Key, n: u32) -> (steps: Vec<u32>)
        ensures
            steps@.len() == n,
            forall|i: int|
                0 <= i < n ==> #[trigger] steps@[i] == unit_steps_of(
                    self.seed,
                    key@.push(Part::Index(i as u64)),
                ),
    {
        let mut steps: Vec<u32> = Vec::new();
        let mut i: u32 = 0;
        while i < n
            invariant
                i <= n,
                steps@.len() == i,
                forall|k: int|
                    0 <= k < i ==> #[trigger] steps@[k] == unit_steps_of(
                        self.seed,
                        key@.push(Part::Index(k as u64)),
                    ),
            decreases n - i,
        {
            steps.push(self.gen_unit_steps(&key.indexed(i as u64)));
            i = i + 1;
        }
        steps
    }

    /// One of `choices`, picked by the draw under `key`.
    ///
    /// There must be a choice: with none the position would be a remainder
    /// by zero. `try_choose` takes any slice and reports an empty one.
    pub fn choose_from<'a, X>(&self, key: &Key, choices: &'a [X]) -> (chosen: &'a X)
        requires
            choices@.len() > 0,
        ensures
            *chosen == choices@[choice_of(self.seed, key@, choices@.len() as int)],
            choices@.contains(*chosen),
    {
        let low: u64 = self.gen(key) % 0x1_0000_0000;
        let i: usize = (low % (choices.len() as u64)) as usize;
        &choices[i]
    }

    /// One of `choices`, picked by the draw under `key`, or the error
    /// `EmptyChoices` where there is none.
    pub fn try_choose<'a, X>(&self, key: &Key, choices: &'a [X]) -> (chosen: Result<
        &'a X,
        InvalidArgument,
    >)
        ensures
            match chosen {
                Ok(x) => choices@.len() > 0 && *x == choices@[choice_of(
                    self.seed,
                    key@,
                    choices@.len() as int,
                )],
                Err(e) => choices@.len() == 0 && e == InvalidArgument::EmptyChoices,
            },
    {
        if choices.len() == 0 {
            Err(InvalidArgument::EmptyChoices)
        } else {
            Ok(self.choose_from(key, choices))
        }
    }

    /// The draw under `key` brought into `min ..= max`.
    ///
    /// The range must not be inverted: its width would wrap around.
    /// `try_gen_usize_range` takes any two ends and reports an inverted
    /// range. Every range with `min <= max` is served, the full range of
    /// `usize` too.
    pub fn gen_usize_range(&self, key: &Key, min: usize, max: usize) -> (value: usize)
        requires
            min <= max,
        ensures
            value == range_of(self.seed, key@, min as int, max as int),
            min <= value <= max,
    {
        let width: u128 = (max - min) as u128 + 1;
        let offset: u128 = (self.gen(key) as u128) % width;
        min + (offset as usize)
    }

    /// The draw under `key` brought into `min ..= max`, or the error
    /// `InvertedRange` where `max` is below `min`.
    pub fn try_gen_usize_range(&self, key: &Key, min: usize, max: usize) -> (value: Result<
        usize,
        InvalidArgument,
    >)
        ensures
            match value {
                Ok(v) => min <= max && v == range_of(self.seed, key@, min as int, max as int),
                Err(e) => max < min && e == InvalidArgument::InvertedRange,
            },
    {
        if max < min {
            Err(InvalidArgument::InvertedRange)
        } else {
            Ok(self.gen_usize_range(key, min, max))
        }
    }

    /// Shuffles `xs` in place, every exchange drawn under `key` followed by
    /// the position it settles. A slice of no or one element is left as it
    /// is.
    pub fn shuffle<X>(&self, key: &Key, xs: &mut [X])
        ensures
            final(xs)@ == shuffled(self.seed, key@, old(xs)@),
            final(xs)@.len() == old(xs)@.len(),
            final(xs)@.to_multiset() == old(xs)@.to_multiset(),
            old(xs)@.len() <= 1 ==> final(xs)@ == old(xs)@,
    {
        let n: usize = xs.len();
        let mut i: usize = 0;
        while n - i > 1
            invariant
                n == xs@.len(),
                i <= n,
                shuffled_from(self.seed, key@, xs@, i as int) == shuffled(
                    self.seed,
                    key@,
                    old(xs)@,
                ),
            decreases n - i,
        {
            let j: usize = self.gen_usize_range(&key.indexed(i as u64), i, n - 1);
            exchange(xs, i, j);
            i = i + 1;
        }
        proof {
            lemma_shuffled_is_permutation(self.seed, key@, old(xs)@);
        }
    }

    /// The draw under `key` brought into a byte. The modulus is 255, so the
    /// byte 255 never comes.
    pub fn gen_byte(&self, key: &Key) -> (value: u8)
        ensures
            value == gen_of(self.seed, key@) % 255,
            value < 255,
    {
        (self.gen(key) % 255) as u8
    }

    /// The draw under a single integer, which is added to the seed as it
    /// is, without hashing.
    pub fn gen_perf(&self, seed: i32) -> (value: u64)
        ensures
            value == perf_of(self.seed, seed),
    {
        let index: u64 = self.seed.wrapping_add_signed(seed as i64);
        split_mix_64(index)
    }

    /// The draw under a single integer as a number of millionths, from 0 to
    /// 999,999.
    pub fn gen_unit_perf_steps(&self, seed: i32) -> (steps: u32)
        ensures
            steps == perf_of(self.seed, seed) % UNIT_STEPS,
            steps < UNIT_STEPS,
    {
        (self.gen_perf(seed) % UNIT_STEPS) as u32
    }
}

} // verus!
