//! Canonical digests over the data model: a deterministic mixing function on
//! 64-bit words, folded over a canonical word encoding of validators and
//! headers, and the sign-bytes digest that commit signatures are checked
//! against.

use vstd::prelude::*;
use crate::types::{Header, Validator};

verus! {

/// Multiplier of the mixing step.
pub const MIX_MUL: u64 = 0x9E3779B97F4A7C15;
/// Seed of every digest.
pub const MIX_SEED: u64 = 0x243F6A8885A308D3;

/// One mixing step: fold the word `x` into the state `h`, truncated to 64 bits.
#[verifier::opaque]
pub open spec fn mix(h: u64, x: u64) -> u64 {
    (((h * MIX_MUL) + x) % 0x1_0000_0000_0000_0000) as u64
}

/// Executable mixing step.
pub fn mix_exec(h: u64, x: u64) -> (r: u64)
    ensures
        r == mix(h, x),
{
    proof {
        assert((h as u128) * (MIX_MUL as u128) <= (u64::MAX as u128) * (u64::MAX as u128))
            by (nonlinear_arith)
            requires h <= u64::MAX && MIX_MUL <= u64::MAX,
        ;
    }
    let wide: u128 = (h as u128) * (MIX_MUL as u128) + (x as u128);
    let r = (wide % 0x1_0000_0000_0000_0000u128) as u64;
    proof {
        reveal(mix);
        assert(r == mix(h, x));
    }
    r
}

/// Digest of a word sequence: the mixing step folded left over the words,
/// starting from the seed.
pub open spec fn digest_spec(s: Seq<u64>) -> u64
    decreases s.len(),
{
    if s.len() == 0 {
        MIX_SEED
    } else {
        mix(digest_spec(s.drop_last()), s.last())
    }
}

/// Executable digest of a word sequence.
pub fn digest(words: &Vec<u64>) -> (r: u64)
    ensures
        r == digest_spec(words@),
{
    let mut acc: u64 = MIX_SEED;
    let mut i: usize = 0;
    while i < words.len()
        invariant
            i <= words.len(),
            acc == digest_spec(words@.take(i as int)),
        decreases words.len() - i,
    {
        proof {
            assert(words@.take(i + 1).drop_last() =~= words@.take(i as int));
            assert(words@.take(i + 1).last() == words@[i as int]);
        }
        acc = mix_exec(acc, words[i]);
        i = i + 1;
    }
    proof {
        assert(words@.take(words@.len() as int) =~= words@);
    }
    acc
}

/// Spread a word digest into a 32-byte digest value.
pub open spec fn hash_of_digest(d: u64) -> crate::types::Hash {
    crate::types::Hash { w0: d, w1: mix(d, 1), w2: mix(d, 2), w3: mix(d, 3) }
}

/// Executable form of `hash_of_digest`.
pub fn hash_of_digest_exec(d: u64) -> (r: crate::types::Hash)
    ensures
        r == hash_of_digest(d),
{
    crate::types::Hash { w0: d, w1: mix_exec(d, 1), w2: mix_exec(d, 2), w3: mix_exec(d, 3) }
}

/// Canonical word encoding of a validator sequence.
pub open spec fn validator_words_spec(vs: Seq<Validator>) -> Seq<u64>
    decreases vs.len(),
{
    if vs.len() == 0 {
        Seq::empty()
    } else {
        validator_words_spec(vs.drop_last())
            + seq![vs.last().address, vs.last().public_key, vs.last().voting_power]
    }
}

/// Canonical digest of a validator sequence: the Merkle-root stand-in that a
/// `ValidatorSet` caches in its `hash` field.
pub open spec fn hash_validators_spec(vs: Seq<Validator>) -> crate::types::Hash {
    hash_of_digest(digest_spec(validator_words_spec(vs)))
}

/// Executable canonical digest of a validator slice.
pub fn hash_validators(vs: &Vec<Validator>) -> (r: crate::types::Hash)
    ensures
        r == hash_validators_spec(vs@),
{
    let mut words: Vec<u64> = Vec::new();
    let mut i: usize = 0;
    while i < vs.len()
        invariant
            i <= vs.len(),
            words@ == validator_words_spec(vs@.take(i as int)),
        decreases vs.len() - i,
    {
        words.push(vs[i].address);
        words.push(vs[i].public_key);
        words.push(vs[i].voting_power);
        proof {
            assert(vs@.take(i + 1).drop_last() =~= vs@.take(i as int));
            assert(vs@.take(i + 1).last() == vs@[i as int]);
            assert(words@ =~= validator_words_spec(vs@.take(i + 1)));
        }
        i = i + 1;
    }
    proof {
        assert(vs@.take(vs@.len() as int) =~= vs@);
    }
    let d = digest(&words);
    hash_of_digest_exec(d)
}

/// Byte-string equality, decided element by element.
pub fn bytes_eq(a: &Vec<u8>, b: &Vec<u8>) -> (r: bool)
    ensures
        r == (a@ == b@),
{
    if a.len() != b.len() {
        proof {
            assert(a@ != b@);
        }
        return false;
    }
    let mut i: usize = 0;
    while i < a.len()
        invariant
            i <= a.len(),
            a@.len() == b@.len(),
            forall|j: int| 0 <= j < i ==> a@[j] == b@[j],
        decreases a.len() - i,
    {
        if a[i] != b[i] {
            proof {
                assert(a@[i as int] != b@[i as int]);
            }
            return false;
        }
        i = i + 1;
    }
    proof {
        assert(a@ =~= b@);
    }
    true
}

/// Canonical word encoding of a byte string (one word per byte).
pub open spec fn byte_words_spec(bs: Seq<u8>) -> Seq<u64>
    decreases bs.len(),
{
    if bs.len() == 0 {
        Seq::empty()
    } else {
        byte_words_spec(bs.drop_last()) + seq![bs.last() as u64]
    }
}

/// Canonical word encoding of a header: chain id bytes, then the scalar
/// fields, then the digests it carries.
#[verifier::opaque]
pub open spec fn header_words_spec(h: Header) -> Seq<u64> {
    byte_words_spec(h.chain_id@) + seq![
        h.chain_id@.len() as u64,
        h.height,
        h.time.nanos,
        match h.last_block_id_hash {
            Some(lh) => 1u64,
            None => 0u64,
        },
        match h.last_block_id_hash {
            Some(lh) => lh.w0,
            None => 0u64,
        },
        match h.last_block_id_hash {
            Some(lh) => lh.w1,
            None => 0u64,
        },
        match h.last_block_id_hash {
            Some(lh) => lh.w2,
            None => 0u64,
        },
        match h.last_block_id_hash {
            Some(lh) => lh.w3,
            None => 0u64,
        },
        h.validators_hash.w0,
        h.validators_hash.w1,
        h.validators_hash.w2,
        h.validators_hash.w3,
        h.next_validators_hash.w0,
        h.next_validators_hash.w1,
        h.next_validators_hash.w2,
        h.next_validators_hash.w3,
        h.app_hash.w0,
        h.app_hash.w1,
        h.app_hash.w2,
        h.app_hash.w3,
        h.proposer_address,
    ]
}

/// Canonical digest of a header.
pub open spec fn hash_header_spec(h: Header) -> crate::types::Hash {
    hash_of_digest(digest_spec(header_words_spec(h)))
}

/// Push the canonical words of a byte string onto `words`.
fn push_byte_words(words: &mut Vec<u64>, bs: &Vec<u8>)
    ensures
        final(words)@ == old(words)@ + byte_words_spec(bs@),
{
    let mut i: usize = 0;
    while i < bs.len()
        invariant
            i <= bs.len(),
            words@ == old(words)@ + byte_words_spec(bs@.take(i as int)),
        decreases bs.len() - i,
    {
        words.push(bs[i] as u64);
        proof {
            assert(bs@.take(i + 1).drop_last() =~= bs@.take(i as int));
            assert(bs@.take(i + 1).last() == bs@[i as int]);
            assert(words@ =~= old(words)@ + byte_words_spec(bs@.take(i + 1)));
        }
        i = i + 1;
    }
    proof {
        assert(bs@.take(bs@.len() as int) =~= bs@);
    }
}

/// Executable canonical digest of a header.
#[verifier::rlimit(60)]
#[verifier::spinoff_prover]
pub fn hash_header(h: &Header) -> (r: crate::types::Hash)
    ensures
        r == hash_header_spec(*h),
{
    let mut words: Vec<u64> = Vec::new();
    push_byte_words(&mut words, &h.chain_id);
    words.push(h.chain_id.len() as u64);
    words.push(h.height);
    words.push(h.time.nanos);
    match h.last_block_id_hash {
        Some(lh) => {
            words.push(1u64);
            words.push(lh.w0);
            words.push(lh.w1);
            words.push(lh.w2);
            words.push(lh.w3);
        },
        None => {
            words.push(0u64);
            words.push(0u64);
            words.push(0u64);
            words.push(0u64);
            words.push(0u64);
        },
    }
    words.push(h.validators_hash.w0);
    words.push(h.validators_hash.w1);
    words.push(h.validators_hash.w2);
    words.push(h.validators_hash.w3);
    words.push(h.next_validators_hash.w0);
    words.push(h.next_validators_hash.w1);
    words.push(h.next_validators_hash.w2);
    words.push(h.next_validators_hash.w3);
    words.push(h.app_hash.w0);
    words.push(h.app_hash.w1);
    words.push(h.app_hash.w2);
    words.push(h.app_hash.w3);
    words.push(h.proposer_address);
    proof {
        reveal(header_words_spec);
        assert(words@ =~= header_words_spec(*h));
    }
    let d = digest(&words);
    hash_of_digest_exec(d)
}

/// Canonical sign-bytes digest for `(chain_id, height, block_id_hash)` under
/// the given public key: the value a valid commit signature must equal.
#[verifier::opaque]
pub open spec fn sign_digest_spec(public_key: u64, chain_id: Seq<u8>, height: u64, block_id_hash: crate::types::Hash) -> u64 {
    digest_spec(
        seq![public_key] + byte_words_spec(chain_id) + seq![
            chain_id.len() as u64,
            height,
            block_id_hash.w0,
            block_id_hash.w1,
            block_id_hash.w2,
            block_id_hash.w3,
        ],
    )
}

/// Executable sign-bytes digest.
pub fn sign_digest(public_key: u64, chain_id: &Vec<u8>, height: u64, block_id_hash: crate::types::Hash) -> (r: u64)
    ensures
        r == sign_digest_spec(public_key, chain_id@, height, block_id_hash),
{
    let mut words: Vec<u64> = Vec::new();
    words.push(public_key);
    push_byte_words(&mut words, chain_id);
    words.push(chain_id.len() as u64);
    words.push(height);
    words.push(block_id_hash.w0);
    words.push(block_id_hash.w1);
    words.push(block_id_hash.w2);
    words.push(block_id_hash.w3);
    proof {
        reveal(sign_digest_spec);
        assert(words@ =~= seq![public_key] + byte_words_spec(chain_id@) + seq![
            chain_id@.len() as u64,
            height,
            block_id_hash.w0,
            block_id_hash.w1,
            block_id_hash.w2,
            block_id_hash.w3,
        ]);
    }
    let d = digest(&words);
    proof {
        reveal(sign_digest_spec);
        assert(d == sign_digest_spec(public_key, chain_id@, height, block_id_hash));
    }
    d
}

} // verus!
