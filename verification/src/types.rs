//! Data model of the light client: heights, times, hashes, validators,
//! headers, commits and light blocks, with their well-formedness predicates.

use vstd::prelude::*;

verus! {

/// A block height: strictly positive along a chain.
pub type Height = u64;

/// Identifier of a remote peer (primary or witness).
pub type PeerId = u64;

/// A wall-clock instant, in nanoseconds. Supports checked subtraction of a
/// `Duration`, which rejects underflow.
#[derive(Clone, Copy, PartialEq, Eq, Structural, Debug)]
pub struct Time {
    pub nanos: u64,
}

/// A non-negative span of time, in nanoseconds.
#[derive(Clone, Copy, PartialEq, Eq, Structural, Debug)]
pub struct Duration {
    pub nanos: u64,
}

impl Time {
    /// `self - d`, or `None` if the result would lie before the epoch.
    pub fn checked_sub(self, d: Duration) -> (r: Option<Time>)
        ensures
            self.nanos >= d.nanos ==> r == Some(Time { nanos: (self.nanos - d.nanos) as u64 }),
            self.nanos < d.nanos ==> r == None::<Time>,
    {
        if self.nanos >= d.nanos {
            Some(Time { nanos: self.nanos - d.nanos })
        } else {
            None
        }
    }

    /// `self + d`, or `None` on overflow.
    pub fn checked_add(self, d: Duration) -> (r: Option<Time>)
        ensures
            self.nanos + d.nanos <= u64::MAX ==> r == Some(Time { nanos: (self.nanos + d.nanos) as u64 }),
            self.nanos + d.nanos > u64::MAX ==> r == None::<Time>,
    {
        match self.nanos.checked_add(d.nanos) {
            Some(n) => Some(Time { nanos: n }),
            None => None,
        }
    }
}

/// A 32-byte digest, held as four 64-bit words; equality is word equality.
#[derive(Clone, Copy, PartialEq, Eq, Structural, Debug)]
pub struct Hash {
    pub w0: u64,
    pub w1: u64,
    pub w2: u64,
    pub w3: u64,
}

/// One member of a validator set.
#[derive(Clone, Copy, PartialEq, Eq, Structural, Debug)]
pub struct Validator {
    pub address: u64,
    pub public_key: u64,
    pub voting_power: u64,
}

/// The sum of the voting powers of a sequence of validators.
pub open spec fn total_power_spec(vs: Seq<Validator>) -> int
    decreases vs.len(),
{
    if vs.len() == 0 {
        0
    } else {
        total_power_spec(vs.drop_last()) + vs.last().voting_power
    }
}

/// A prefix of a validator sequence never outweighs the whole.
pub proof fn lemma_total_take_le(vs: Seq<Validator>, i: int)
    requires
        0 <= i <= vs.len(),
    ensures
        total_power_spec(vs.take(i)) <= total_power_spec(vs),
    decreases vs.len() - i,
{
    if i == vs.len() {
        assert(vs.take(i) =~= vs);
    } else {
        assert(vs.take(i + 1).drop_last() =~= vs.take(i));
        assert(vs.take(i + 1).last() == vs[i]);
        lemma_total_take_le(vs, i + 1);
    }
}

/// Whether all addresses in a validator sequence are distinct.
pub open spec fn distinct_addresses(vs: Seq<Validator>) -> bool {
    forall|i: int, j: int|
        0 <= i < vs.len() && 0 <= j < vs.len() && i != j ==> vs[i].address != vs[j].address
}

/// An ordered sequence of validators with its precomputed digest and total
/// voting power.
#[derive(Clone, Debug)]
pub struct ValidatorSet {
    pub validators: Vec<Validator>,
    pub hash: Hash,
    pub total_voting_power: u64,
}

impl ValidatorSet {
    /// Well-formed: the cached total is the true sum (so the sum fits in
    /// 64 bits), addresses are distinct, and the cached digest is the digest
    /// of the members.
    pub open spec fn wf(self) -> bool {
        &&& self.total_voting_power == total_power_spec(self.validators@)
        &&& distinct_addresses(self.validators@)
        &&& self.hash == crate::hashing::hash_validators_spec(self.validators@)
    }

    /// Build a set from its members: the digest and the total power are
    /// computed here. A duplicate address, or a total beyond 64 bits, is
    /// refused.
    pub fn new(validators: Vec<Validator>) -> (r: Option<ValidatorSet>)
        ensures
            r is Some <==> (distinct_addresses(validators@)
                && total_power_spec(validators@) <= u64::MAX),
            r matches Some(s) ==> s.wf() && s.validators@ == validators@,
    {
        let n = validators.len();
        let mut i: usize = 0;
        while i < n
            invariant
                n == validators@.len(),
                i <= n,
                forall|a: int, b: int| 0 <= a < b < i
                    ==> validators@[a].address != validators@[b].address,
            decreases n - i,
        {
            let mut j: usize = 0;
            while j < i
                invariant
                    n == validators@.len(),
                    j <= i < n,
                    forall|b: int| 0 <= b < j
                        ==> validators@[b].address != validators@[i as int].address,
                decreases i - j,
            {
                if validators[j].address == validators[i].address {
                    proof {
                        assert(!distinct_addresses(validators@));
                    }
                    return None;
                }
                j = j + 1;
            }
            i = i + 1;
        }
        proof {
            assert forall|a: int, b: int|
                0 <= a < validators@.len() && 0 <= b < validators@.len() && a != b
                implies validators@[a].address != validators@[b].address by {
                if a < b {
                } else {
                    assert(validators@[b].address != validators@[a].address);
                }
            }
        }
        let mut total: u64 = 0;
        let mut k: usize = 0;
        while k < n
            invariant
                n == validators@.len(),
                k <= n,
                total == total_power_spec(validators@.take(k as int)),
            decreases n - k,
        {
            proof {
                assert(validators@.take(k + 1).drop_last() =~= validators@.take(k as int));
                assert(validators@.take(k + 1).last() == validators@[k as int]);
            }
            total = match total.checked_add(validators[k].voting_power) {
                Some(t) => t,
                None => {
                    proof {
                        lemma_total_take_le(validators@, k + 1);
                    }
                    return None;
                },
            };
            k = k + 1;
        }
        proof {
            assert(validators@.take(validators@.len() as int) =~= validators@);
        }
        let hash = crate::hashing::hash_validators(&validators);
        Some(ValidatorSet { validators, hash, total_voting_power: total })
    }
}

/// A block header. The chain id is an opaque byte string; hashes of the
/// validator sets and of the previous block are carried as digests.
#[derive(Clone, Debug)]
pub struct Header {
    pub chain_id: Vec<u8>,
    pub height: Height,
    pub time: Time,
    pub last_block_id_hash: Option<Hash>,
    pub validators_hash: Hash,
    pub next_validators_hash: Hash,
    pub app_hash: Hash,
    pub proposer_address: u64,
}

/// One signature inside a commit.
#[derive(Clone, Copy, PartialEq, Eq, Structural, Debug)]
pub struct CommitSig {
    pub validator_address: u64,
    pub signature: u64,
}

/// The signatures collected for one block: each entry claims that the named
/// validator signed the canonical sign-bytes for `(chain_id, height, block_id)`.
#[derive(Clone, Debug)]
pub struct Commit {
    pub height: Height,
    pub block_id_hash: Hash,
    pub signatures: Vec<CommitSig>,
}

/// A header together with the commit for it.
#[derive(Clone, Debug)]
pub struct SignedHeader {
    pub header: Header,
    pub commit: Commit,
}

impl SignedHeader {
    /// Well-formed: the commit is for this header's height and for this
    /// header's canonical digest.
    pub open spec fn wf(self) -> bool {
        &&& self.commit.height == self.header.height
        &&& self.commit.block_id_hash == crate::hashing::hash_header_spec(self.header)
    }
}

/// A signed header bundled with the validator sets needed to verify it and
/// its successor, and the peer it came from.
#[derive(Clone, Debug)]
pub struct LightBlock {
    pub signed_header: SignedHeader,
    pub validators: ValidatorSet,
    pub next_validators: ValidatorSet,
    pub provider: PeerId,
}

impl LightBlock {
    pub open spec fn height(self) -> Height {
        self.signed_header.header.height
    }

    pub open spec fn time(self) -> Time {
        self.signed_header.header.time
    }

    /// What the fetch boundary establishes of every block it hands out: the
    /// carried validator sets are internally well-formed, the commit is for
    /// the header's height, and the height is positive. Whether the sets and
    /// the commit actually belong to the header is the verifier's question.
    pub open spec fn basic_wf(self) -> bool {
        &&& self.validators.wf()
        &&& self.next_validators.wf()
        &&& self.signed_header.commit.height == self.signed_header.header.height
        &&& self.height() >= 1
    }

    /// Well-formed: the parts are well-formed, the height is positive, and the
    /// carried validator sets are the ones the header names.
    pub open spec fn wf(self) -> bool {
        &&& self.signed_header.wf()
        &&& self.validators.wf()
        &&& self.next_validators.wf()
        &&& self.height() >= 1
        &&& self.validators.hash == self.signed_header.header.validators_hash
        &&& self.next_validators.hash == self.signed_header.header.next_validators_hash
    }
}

/// Whether two headers agree field for field (byte strings compared by
/// content).
pub open spec fn same_header(a: Header, b: Header) -> bool {
    &&& a.chain_id@ == b.chain_id@
    &&& a.height == b.height
    &&& a.time == b.time
    &&& a.last_block_id_hash == b.last_block_id_hash
    &&& a.validators_hash == b.validators_hash
    &&& a.next_validators_hash == b.next_validators_hash
    &&& a.app_hash == b.app_hash
    &&& a.proposer_address == b.proposer_address
}

/// Whether two validator sets agree member for member.
pub open spec fn same_validator_set(a: ValidatorSet, b: ValidatorSet) -> bool {
    &&& a.validators@ == b.validators@
    &&& a.hash == b.hash
    &&& a.total_voting_power == b.total_voting_power
}

/// Whether two light blocks agree in every observable field: the relation an
/// explicit copy establishes.
pub open spec fn same_block(a: LightBlock, b: LightBlock) -> bool {
    &&& same_header(a.signed_header.header, b.signed_header.header)
    &&& a.signed_header.commit.height == b.signed_header.commit.height
    &&& a.signed_header.commit.block_id_hash == b.signed_header.commit.block_id_hash
    &&& a.signed_header.commit.signatures@ == b.signed_header.commit.signatures@
    &&& same_validator_set(a.validators, b.validators)
    &&& same_validator_set(a.next_validators, b.next_validators)
    &&& a.provider == b.provider
}

/// An explicit copy of a byte string.
pub fn copy_bytes(bs: &Vec<u8>) -> (r: Vec<u8>)
    ensures
        r@ == bs@,
{
    let mut out: Vec<u8> = Vec::new();
    let mut i: usize = 0;
    while i < bs.len()
        invariant
            i <= bs.len(),
            out@ == bs@.take(i as int),
        decreases bs.len() - i,
    {
        out.push(bs[i]);
        proof {
            assert(out@ =~= bs@.take(i + 1));
        }
        i = i + 1;
    }
    proof {
        assert(bs@.take(bs@.len() as int) =~= bs@);
    }
    out
}

/// An explicit copy of a validator list.
pub fn copy_validators(vs: &Vec<Validator>) -> (r: Vec<Validator>)
    ensures
        r@ == vs@,
{
    let mut out: Vec<Validator> = Vec::new();
    let mut i: usize = 0;
    while i < vs.len()
        invariant
            i <= vs.len(),
            out@ == vs@.take(i as int),
        decreases vs.len() - i,
    {
        out.push(vs[i]);
        proof {
            assert(out@ =~= vs@.take(i + 1));
        }
        i = i + 1;
    }
    proof {
        assert(vs@.take(vs@.len() as int) =~= vs@);
    }
    out
}

/// An explicit copy of a signature list.
pub fn copy_signatures(sigs: &Vec<CommitSig>) -> (r: Vec<CommitSig>)
    ensures
        r@ == sigs@,
{
    let mut out: Vec<CommitSig> = Vec::new();
    let mut i: usize = 0;
    while i < sigs.len()
        invariant
            i <= sigs.len(),
            out@ == sigs@.take(i as int),
        decreases sigs.len() - i,
    {
        out.push(sigs[i]);
        proof {
            assert(out@ =~= sigs@.take(i + 1));
        }
        i = i + 1;
    }
    proof {
        assert(sigs@.take(sigs@.len() as int) =~= sigs@);
    }
    out
}

/// An explicit copy of a validator set.
pub fn copy_validator_set(s: &ValidatorSet) -> (r: ValidatorSet)
    ensures
        same_validator_set(r, *s),
{
    ValidatorSet {
        validators: copy_validators(&s.validators),
        hash: s.hash,
        total_voting_power: s.total_voting_power,
    }
}

/// An explicit copy of a light block, agreeing with the original in every
/// observable field.
pub fn copy_block(b: &LightBlock) -> (r: LightBlock)
    ensures
        same_block(r, *b),
{
    LightBlock {
        signed_header: SignedHeader {
            header: Header {
                chain_id: copy_bytes(&b.signed_header.header.chain_id),
                height: b.signed_header.header.height,
                time: b.signed_header.header.time,
                last_block_id_hash: b.signed_header.header.last_block_id_hash,
                validators_hash: b.signed_header.header.validators_hash,
                next_validators_hash: b.signed_header.header.next_validators_hash,
                app_hash: b.signed_header.header.app_hash,
                proposer_address: b.signed_header.header.proposer_address,
            },
            commit: Commit {
                height: b.signed_header.commit.height,
                block_id_hash: b.signed_header.commit.block_id_hash,
                signatures: copy_signatures(&b.signed_header.commit.signatures),
            },
        },
        validators: copy_validator_set(&b.validators),
        next_validators: copy_validator_set(&b.next_validators),
        provider: b.provider,
    }
}

/// Lifecycle label of a stored block.
#[derive(Clone, Copy, PartialEq, Eq, Structural, Debug)]
pub enum Status {
    Unverified,
    Verified,
    Trusted,
    Failed,
}

} // verus!
