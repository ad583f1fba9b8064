//! Seeded choice of one endpoint out of a pool.
//!
//! A ledger node sets aside a transaction that arrives before an earlier one
//! of the same sender. So within one retry round every transaction of a
//! sender must go to the same endpoint: the choice is made from a hash of the
//! round, the run and the sender, and from nothing else.

use rand::seq::SliceRandom;
use rand::Rng;
use rand::SeedableRng;
use vstd::prelude::*;

verus! {

/// The SHA3-256 digest of `data`.
pub uninterp spec fn sha3_256_digest(data: Seq<u8>) -> Seq<u8>;

/// The place that a generator seeded with `seed` picks first in a slice of
/// `len` items.
pub uninterp spec fn seeded_index(seed: Seq<u8>, len: nat) -> nat;

/// The item at place `index` of `pool`, if there is one.
pub open spec fn item_at<T>(pool: Seq<T>, index: nat) -> Option<T> {
    if index < pool.len() {
        Some(pool[index as int])
    } else {
        None
    }
}

/// `aptos_sdk::HashValue::sha3_256`, read out as bytes: the SHA3-256 digest
/// of `data`. The digest depends on the bytes of `data` alone.
#[verifier::external_body]
fn sha3_256(data: &[u8]) -> (digest: [u8; 32])
    ensures
        digest@ == sha3_256_digest(data@),
{
    aptos_sdk::HashValue::sha3_256(data).to_bytes()
}

/// `rand::seq::SliceRandom::choose` on `pool`, with a `rand::rngs::StdRng`
/// fresh from `rand::SeedableRng::from_seed(seed)`.
///
/// An empty slice gives `None`. Otherwise the item at one place of the slice
/// comes back, and the place depends on the seed and on the length of the
/// slice alone: the generator is a stream cipher keyed by the seed, and the
/// place is drawn from its first words by the length, in 32-bit words
/// wherever the length fits in one. (For the target emscripten `rand` builds
/// the generator on another cipher; the places there are not those of the
/// other targets.)
#[verifier::external_body]
fn choose_seeded<T>(pool: &[T], seed: [u8; 32]) -> (picked: Option<&T>)
    ensures
        picked is Some <==> pool@.len() > 0,
        picked matches Some(item) ==> item_at(pool@, seeded_index(seed@, pool@.len())) == Some(
            *item,
        ),
{
    let mut rng = rand::rngs::StdRng::from_seed(seed);
    pool.choose(&mut rng)
}

/// `rand::seq::SliceRandom::choose` on `pool`, with `rand::thread_rng()`.
///
/// An empty slice gives `None`, any other slice one of its items. Which one
/// is left to chance.
#[verifier::external_body]
fn choose_random<T>(pool: &[T]) -> (picked: Option<&T>)
    ensures
        picked is Some <==> pool@.len() > 0,
        picked matches Some(item) ==> pool@.contains(*item),
{
    let mut rng = rand::thread_rng();
    pool.choose(&mut rng)
}

/// `rand::Rng::gen` for `u64`, on `rand::thread_rng()`: any value may come.
#[verifier::external_body]
fn random_u64() -> u64 {
    rand::thread_rng().gen()
}

/// The `width` low-order bytes of `value`, least significant first.
pub open spec fn le_bytes(value: nat, width: nat) -> Seq<u8>
    decreases width,
{
    if width == 0 {
        Seq::empty()
    } else {
        seq![(value % 256) as u8] + le_bytes(value / 256, (width - 1) as nat)
    }
}

/// The number of bytes in a `usize` on the machine at hand.
pub open spec fn usize_width() -> nat {
    (usize::BITS / 8) as nat
}

/// The bytes that the choice for a retry round is hashed from: the attempt
/// index, the run seed and the sender's address, one after the other, the
/// two numbers least significant byte first.
pub open spec fn seed_bytes(attempt: usize, run_seed: u64, sender: Seq<u8>) -> Seq<u8> {
    le_bytes(attempt as nat, usize_width()) + le_bytes(run_seed as nat, 8) + sender
}

/// The place in a pool of `len` endpoints that is chosen for `sender` in
/// attempt `attempt` of the run with seed `run_seed`.
pub open spec fn selected_index(len: nat, attempt: usize, run_seed: u64, sender: Seq<u8>) -> nat {
    seeded_index(sha3_256_digest(seed_bytes(attempt, run_seed, sender)), len)
}

/// Appends the `width` low-order bytes of `value` to `out`, least
/// significant first.
fn push_le_bytes(out: &mut Vec<u8>, value: u64, width: usize)
    ensures
        final(out)@ == old(out)@ + le_bytes(value as nat, width as nat),
{
    let mut rest: u64 = value;
    let mut i: usize = 0;
    while i < width
        invariant
            i <= width,
            out@ + le_bytes(rest as nat, (width - i) as nat) == old(out)@ + le_bytes(
                value as nat,
                width as nat,
            ),
        decreases width - i,
    {
        let byte: u8 = (rest % 256) as u8;
        proof {
            let tail = le_bytes(rest as nat / 256, (width - i - 1) as nat);
            assert(le_bytes(rest as nat, (width - i) as nat) == seq![byte] + tail);
            assert(out@.push(byte) + tail == out@ + (seq![byte] + tail));
        }
        out.push(byte);
        rest = rest / 256;
        i = i + 1;
    }
    assert(le_bytes(rest as nat, 0) == Seq::<u8>::empty());
    assert(out@ + Seq::<u8>::empty() == out@);
}

/// The bytes that the choice for a retry round is hashed from.
pub fn selection_seed(attempt: usize, run_seed: u64, sender: &[u8; 32]) -> (seed: Vec<u8>)
    ensures
        seed@ == seed_bytes(attempt, run_seed, sender@),
{
    let mut seed: Vec<u8> = Vec::new();
    let width: usize = (usize::BITS / 8) as usize;
    push_le_bytes(&mut seed, attempt as u64, width);
    push_le_bytes(&mut seed, run_seed, 8);
    let mut i: usize = 0;
    let ghost head = seed@;
    while i < 32
        invariant
            i <= 32,
            sender@.len() == 32,
            seed@ == head + sender@.take(i as int),
        decreases 32 - i,
    {
        seed.push(sender[i]);
        i = i + 1;
    }
    assert(sender@.take(32) == sender@);
    seed
}

/// The endpoint of `pool` that is chosen for `sender` in attempt `attempt`
/// of the run with seed `run_seed`.
///
/// The same attempt, run seed and sender give the same place in every pool
/// of the same length.
pub fn select<'a, T>(pool: &'a [T], attempt: usize, run_seed: u64, sender: &[u8; 32]) -> (picked:
    &'a T)
    requires
        pool@.len() > 0,
    ensures
        selected_index(pool@.len(), attempt, run_seed, sender@) < pool@.len(),
        *picked == pool@[selected_index(pool@.len(), attempt, run_seed, sender@) as int],
{
    let seed = selection_seed(attempt, run_seed, sender);
    let digest = sha3_256(seed.as_slice());
    choose_seeded(pool, digest).unwrap()
}

/// Some endpoint of `pool`, picked by chance.
pub fn select_random<'a, T>(pool: &'a [T]) -> (picked: &'a T)
    requires
        pool@.len() > 0,
    ensures
        pool@.contains(*picked),
{
    choose_random(pool).unwrap()
}

/// A seed for one run of a batch, drawn by chance.
pub fn new_run_seed() -> u64 {
    random_u64()
}

} // verus!
