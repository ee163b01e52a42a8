//! The seeded random stream. The generator is `rand_xorshift`'s; what it
//! holds and what it draws are named here, so that everything drawn is
//! stated as a function of the seed and of the draws made before.

use rand::rngs::OsRng;
use rand::{Rng, SeedableRng};
use rand_xorshift::XorShiftRng;
use vstd::prelude::*;

verus! {

/// `rand_xorshift::XorShiftRng`, the generator behind the stream. Its
/// fields are its own; this library speaks of them through
/// `generator_words` only.
#[verifier::external_type_specification]
#[verifier::external_body]
pub struct ExXorShiftRng(XorShiftRng);

/// The four words that a generator holds, in the order `x`, `y`, `z`, `w`.
pub uninterp spec fn generator_words(rng: XorShiftRng) -> Seq<u32>;

/// What `Rng::gen_range` does with a generator that holds `words`, asked for
/// a `u64` from `low` up to and without `high`: the number it returns and the
/// words that the generator holds afterwards.
pub uninterp spec fn range_draw(words: Seq<u32>, low: u64, high: u64) -> (u64, Seq<u32>);

/// The word that four bytes write, least significant first.
pub open spec fn le_word(bytes: Seq<u8>, at: int) -> u32 {
    (bytes[at] as int + bytes[at + 1] as int * 0x100 + bytes[at + 2] as int * 0x1_0000 + bytes[at
        + 3] as int * 0x100_0000) as u32
}

/// The words that a generator holds when made from a seed of sixteen bytes:
/// the four words that the seed writes, or a fixed value where all are zero.
pub open spec fn seed_words(seed: Seq<u8>) -> Seq<u32> {
    let words = seq![le_word(seed, 0), le_word(seed, 4), le_word(seed, 8), le_word(seed, 12)];
    if words[0] == 0 && words[1] == 0 && words[2] == 0 && words[3] == 0 {
        seq![0xBAD_5EEDu32, 0xBAD_5EEDu32, 0xBAD_5EEDu32, 0xBAD_5EEDu32]
    } else {
        words
    }
}

/// The words of a generator whose seed repeats one byte sixteen times.
pub open spec fn seeded_words(seed: u8) -> Seq<u32> {
    seed_words(Seq::new(16, |i: int| seed))
}

/// Whether words can drive a generator: there are four of them, and they
/// are not all zero. A generator that held four zeros would draw zeros
/// for ever.
pub open spec fn live_words(words: Seq<u32>) -> bool {
    words.len() == 4 && !(words[0] == 0 && words[1] == 0 && words[2] == 0 && words[3] == 0)
}

/// `XorShiftRng::from_seed`. The generator starts from the four words that
/// the seed writes, least significant byte first; an all-zero seed is
/// replaced by the word `0xBAD5EED` four times.
#[verifier::external_body]
fn generator_from_seed(seed: [u8; 16]) -> (rng: XorShiftRng)
    ensures
        generator_words(rng) == seed_words(seed@),
{
    XorShiftRng::from_seed(seed)
}

/// `XorShiftRng::from_rng` on `OsRng`: a generator seeded by the operating
/// system, or nothing where that source fails. Which words it holds is the
/// system's choice; `from_rng` asks again until they are not all zero, and
/// no more than that is claimed of them.
#[verifier::external_body]
fn generator_from_os() -> (rng: Option<XorShiftRng>)
    ensures
        rng matches Some(made) ==> live_words(generator_words(made)),
{
    XorShiftRng::from_rng(OsRng).ok()
}

/// `Rng::gen_range` for `u64` on an `XorShiftRng`. The number lies in the
/// range, and it and the generator's next words depend on nothing but the
/// words held before and the two bounds.
#[verifier::external_body]
fn generator_gen_range(rng: &mut XorShiftRng, low: u64, high: u64) -> (r: u64)
    requires
        low < high,
    ensures
        low <= r < high,
        r == range_draw(generator_words(*old(rng)), low, high).0,
        generator_words(*final(rng)) == range_draw(generator_words(*old(rng)), low, high).1,
{
    rng.gen_range(low, high)
}

/// A deterministic stream of random numbers.
pub struct RandomStream {
    rng: XorShiftRng,
}

impl RandomStream {
    /// The words that the generator of the stream holds. Two streams that
    /// hold the same words draw the same numbers from then on.
    pub closed spec fn words(&self) -> Seq<u32> {
        generator_words(self.rng)
    }

    /// A stream that is fixed by its seed.
    pub fn seeded(seed: u8) -> (r: RandomStream)
        ensures
            r.words() == seeded_words(seed),
    {
        let bytes: [u8; 16] = [seed; 16];
        assert(bytes@ =~= Seq::new(16, |i: int| seed));
        RandomStream { rng: generator_from_seed(bytes) }
    }

    /// The stream that draws from a given generator, from the words that
    /// the generator holds.
    pub fn from_generator(rng: XorShiftRng) -> (r: RandomStream)
        ensures
            r.words() == generator_words(rng),
    {
        RandomStream { rng }
    }

    /// A stream seeded by the operating system, for runs that are not
    /// scored; nothing where the system gives no seed. Whether one comes
    /// back, and with which words, is the system's to decide; one that
    /// comes back is live.
    pub fn from_entropy() -> (r: Option<RandomStream>)
        ensures
            r matches Some(stream) ==> live_words(stream.words()),
    {
        match generator_from_os() {
            Some(rng) => Some(RandomStream::from_generator(rng)),
            None => None,
        }
    }

    /// Draws a number from `low` up to and without `high`. An empty range
    /// draws nothing and leaves the stream as it was.
    pub fn uniform(&mut self, low: u64, high: u64) -> (r: Option<u64>)
        ensures
            low < high ==> r == Some(range_draw(old(self).words(), low, high).0) && low <= r->0
                < high && final(self).words() == range_draw(old(self).words(), low, high).1,
            low >= high ==> r is None && final(self).words() == old(self).words(),
    {
        if low < high {
            Some(generator_gen_range(&mut self.rng, low, high))
        } else {
            None
        }
    }
}

} // verus!
