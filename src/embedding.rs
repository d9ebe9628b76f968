use vstd::prelude::*;
use rand_chacha::ChaCha8Rng;
use rand_chacha::rand_core::{RngCore, SeedableRng};

verus! {

/// The 64-bit hash of a text under std's `DefaultHasher` with its fixed keys.
pub uninterp spec fn text_hash(s: Seq<char>) -> u64;

/// Word `pos` of the ChaCha8 stream seeded from `seed`.
pub uninterp spec fn chacha8_word(seed: u64, pos: nat) -> u32;

/// Relies on `BuildHasher::hash_one` with `BuildHasherDefault<DefaultHasher>`:
/// every such hasher starts from the same fixed keys, so the hash depends on
/// the characters of the text alone.
#[verifier::external_body]
fn text_seed(text: &str) -> (r: u64)
    ensures
        r == text_hash(text@),
{
    std::hash::BuildHasher::hash_one(
        &std::hash::BuildHasherDefault::<std::collections::hash_map::DefaultHasher>::default(),
        text,
    )
}

/// Relies on `ChaCha8Rng::seed_from_u64`, `ChaCha8Rng::set_word_pos` and
/// `RngCore::next_u32`: the word at offset `pos` of the stream that `seed`
/// fixes, which is also the `pos`-th word a freshly seeded generator draws.
#[verifier::external_body]
fn stream_word(seed: u64, pos: u64) -> (r: u32)
    ensures
        r == chacha8_word(seed, pos as nat),
{
    let mut rng = ChaCha8Rng::seed_from_u64(seed);
    rng.set_word_pos(pos as u128);
    rng.next_u32()
}

/// The draws behind the placeholder embedding of `text`: the first `dim`
/// words of the ChaCha8 stream seeded by the hash of the text.
pub open spec fn draws_of(text: Seq<char>, dim: nat) -> Seq<u32> {
    Seq::new(dim, |i: int| chacha8_word(text_hash(text), i as nat))
}

/// The `dim` uniform 32-bit draws from which the placeholder embedding of
/// `text` is formed. Component `i` of the embedding is
/// `draws[i] / u32::MAX * 2 - 1`, scaled to unit length. Equal texts give
/// equal draws.
pub fn embedding_draws(text: &str, dim: usize) -> (r: Vec<u32>)
    ensures
        r@ == draws_of(text@, dim as nat),
{
    let seed = text_seed(text);
    let mut r: Vec<u32> = Vec::new();
    let mut i: usize = 0;
    while i < dim
        invariant
            i <= dim,
            seed == text_hash(text@),
            r@ == draws_of(text@, dim as nat).take(i as int),
        decreases dim - i,
    {
        r.push(stream_word(seed, i as u64));
        i = i + 1;
        assert(r@ =~= draws_of(text@, dim as nat).take(i as int));
    }
    assert(r@ =~= draws_of(text@, dim as nat));
    r
}

} // verus!
