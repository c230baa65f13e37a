//! The generator that decides where things go: the ChaCha stream of one seed, read word by word.

use rand::seq::SliceRandom;
use rand::{Rng, SeedableRng};
use rand_chacha::ChaChaRng;
use vstd::prelude::*;

verus! {

/// The number of words after which a stream starts over.
pub const STREAM_WORDS: u128 = 0x10_0000_0000_0000_0000;

/// The position in a stream `n` words after `pos`.
pub open spec fn word_after(pos: u128, n: int) -> u128 {
    ((pos + n) % (STREAM_WORDS as int)) as u128
}

/// The word at position `pos` of the ChaCha stream of `seed`.
pub uninterp spec fn chacha_word(seed: Seq<u8>, pos: u128) -> u32;

/// What a uniform draw from `lo..hi` gives at position `pos` of the stream of `seed`, and the
/// position after it.
pub uninterp spec fn uniform_draw(seed: Seq<u8>, pos: u128, lo: i32, hi: i32) -> (i32, u128);

/// The index that choosing from `len` items gives at position `pos` of the stream of `seed`,
/// and the position after it.
pub uninterp spec fn chosen_index(seed: Seq<u8>, pos: u128, len: nat) -> (nat, u128);

/// `Rng::gen::<u32>` on the `ChaChaRng` made by `from_seed` and moved by `set_word_pos`. The
/// generator's outputs are fixed by its seed and word position; this draw takes one word.
#[verifier::external_body]
fn chacha_u32(seed: &[u8; 32], pos: u128) -> (r: (u32, u128))
    ensures
        r.0 == chacha_word(seed@, pos),
        r.1 == word_after(pos, 1),
{
    let mut rng = ChaChaRng::from_seed(*seed);
    rng.set_word_pos(pos);
    let word = rng.gen::<u32>();
    (word, rng.get_word_pos())
}

/// `Rng::gen::<bool>` on the same generator: the top bit of one word.
#[verifier::external_body]
fn chacha_bool(seed: &[u8; 32], pos: u128) -> (r: (bool, u128))
    ensures
        r.0 == (chacha_word(seed@, pos) >= 0x8000_0000),
        r.1 == word_after(pos, 1),
{
    let mut rng = ChaChaRng::from_seed(*seed);
    rng.set_word_pos(pos);
    let flag = rng.gen::<bool>();
    (flag, rng.get_word_pos())
}

/// `Rng::gen::<[u8; 32]>` on the same generator: the low byte of each of the next 32 words.
#[verifier::external_body]
fn chacha_bytes(seed: &[u8; 32], pos: u128) -> (r: ([u8; 32], u128))
    ensures
        forall|i: int|
            0 <= i < 32 ==> (#[trigger] r.0@[i]) == chacha_word(seed@, word_after(pos, i)) % 256,
        r.1 == word_after(pos, 32),
{
    let mut rng = ChaChaRng::from_seed(*seed);
    rng.set_word_pos(pos);
    let bytes = rng.gen::<[u8; 32]>();
    (bytes, rng.get_word_pos())
}

/// `Rng::gen_range` of an `i32` on the same generator. It panics on an empty range, and its
/// result lies in the range; which number comes out is named by [`uniform_draw`].
#[verifier::external_body]
fn chacha_range(seed: &[u8; 32], pos: u128, lo: i32, hi: i32) -> (r: (i32, u128))
    requires
        lo < hi,
    ensures
        r == uniform_draw(seed@, pos, lo, hi),
        lo <= r.0 < hi,
{
    let mut rng = ChaChaRng::from_seed(*seed);
    rng.set_word_pos(pos);
    let value = rng.gen_range(lo..hi);
    (value, rng.get_word_pos())
}

/// `SliceRandom::choose` on the same generator. An empty slice gives nothing and draws nothing;
/// otherwise one item is picked by an index that depends on the number of items alone, and is
/// named by [`chosen_index`].
#[verifier::external_body]
fn chacha_choose<T: Copy>(seed: &[u8; 32], pos: u128, items: &Vec<T>) -> (r: (Option<T>, u128))
    ensures
        r.0 is Some <==> items@.len() > 0,
        r.0 is Some ==> chosen_index(seed@, pos, items@.len()).0 < items@.len(),
        r.0 is Some ==> r == (
            Some(items@[chosen_index(seed@, pos, items@.len()).0 as int]),
            chosen_index(seed@, pos, items@.len()).1,
        ),
        r.0 is None ==> r.1 == word_after(pos, 0),
{
    let mut rng = ChaChaRng::from_seed(*seed);
    rng.set_word_pos(pos);
    let item = items.choose(&mut rng).copied();
    (item, rng.get_word_pos())
}

/// A place in the ChaCha stream of a seed.
#[derive(Clone, Copy, PartialEq, Eq, Debug)]
pub struct SiteRng {
    pub seed: [u8; 32],
    pub pos: u128,
}

impl SiteRng {
    /// The start of the stream of `seed`.
    pub fn from_seed(seed: [u8; 32]) -> (r: SiteRng)
        ensures
            r.seed == seed,
            r.pos == 0,
    {
        SiteRng { seed, pos: 0 }
    }

    /// The word that the next draw of one word gives.
    pub open spec fn word(self) -> u32 {
        chacha_word(self.seed@, self.pos)
    }

    /// The same stream at another position.
    pub open spec fn at_pos(self, pos: u128) -> SiteRng {
        SiteRng { seed: self.seed, pos }
    }

    /// The same stream `n` words on.
    pub open spec fn skip(self, n: int) -> SiteRng {
        self.at_pos(word_after(self.pos, n))
    }

    /// What a uniform draw from `lo..hi` gives here.
    pub open spec fn range_value(self, lo: i32, hi: i32) -> i32 {
        uniform_draw(self.seed@, self.pos, lo, hi).0
    }

    /// The generator after a uniform draw from `lo..hi`.
    pub open spec fn after_range(self, lo: i32, hi: i32) -> SiteRng {
        self.at_pos(uniform_draw(self.seed@, self.pos, lo, hi).1)
    }

    /// The index that choosing among `len` items gives here.
    pub open spec fn choice(self, len: nat) -> int {
        chosen_index(self.seed@, self.pos, len).0 as int
    }

    /// The generator after choosing among `len` items.
    pub open spec fn after_choice(self, len: nat) -> SiteRng {
        if len == 0 {
            self.skip(0)
        } else {
            self.at_pos(chosen_index(self.seed@, self.pos, len).1)
        }
    }

    /// Whether this is the start of the stream that is seeded from `parent`: by the low bytes of
    /// the words that come next there.
    pub open spec fn is_child(self, parent: SiteRng) -> bool {
        &&& self.pos == 0
        &&& forall|i: int|
            0 <= i < 32 ==> (#[trigger] self.seed@[i]) == parent.skip(i).word() % 256
    }

    /// Draws one word.
    pub fn next_u32(&mut self) -> (r: u32)
        ensures
            r == old(self).word(),
            *final(self) == old(self).skip(1),
    {
        let (word, pos) = chacha_u32(&self.seed, self.pos);
        self.pos = pos;
        word
    }

    /// Draws a flag.
    pub fn next_bool(&mut self) -> (r: bool)
        ensures
            r == (old(self).word() >= 0x8000_0000),
            *final(self) == old(self).skip(1),
    {
        let (flag, pos) = chacha_bool(&self.seed, self.pos);
        self.pos = pos;
        flag
    }

    /// Draws a number of `lo..hi`.
    pub fn next_range(&mut self, lo: i32, hi: i32) -> (r: i32)
        requires
            lo < hi,
        ensures
            r == old(self).range_value(lo, hi),
            lo <= r < hi,
            *final(self) == old(self).after_range(lo, hi),
    {
        let (value, pos) = chacha_range(&self.seed, self.pos, lo, hi);
        self.pos = pos;
        value
    }

    /// Picks one of `items`, or nothing if there are none.
    pub fn pick<T: Copy>(&mut self, items: &Vec<T>) -> (r: Option<T>)
        ensures
            r is None <==> items@.len() == 0,
            items@.len() > 0 ==> 0 <= old(self).choice(items@.len()) < items@.len() && r == Some(
                items@[old(self).choice(items@.len())],
            ),
            *final(self) == old(self).after_choice(items@.len()),
    {
        let (item, pos) = chacha_choose(&self.seed, self.pos, items);
        self.pos = pos;
        item
    }

    /// Seeds a new generator from this one. Whatever is later drawn from the new generator, this
    /// one goes on in the same way, so that a change in how a part is generated leaves everything
    /// generated after it as it was.
    pub fn reseed(&mut self) -> (r: SiteRng)
        ensures
            r.is_child(*old(self)),
            *final(self) == old(self).skip(32),
    {
        let (seed, pos) = chacha_bytes(&self.seed, self.pos);
        self.pos = pos;
        SiteRng { seed, pos: 0 }
    }
}

} // verus!
