//! The verifier: a pure predicate over (trusted block, candidate block,
//! options, now) deciding whether the candidate may be trusted, together with
//! the voting-power tally it rests on and the laws that hold of it.

use vstd::prelude::*;
use crate::types::{Commit, CommitSig, Duration, LightBlock, Time, Validator, ValidatorSet};
use crate::types::{distinct_addresses, total_power_spec, same_block};
use crate::types::lemma_total_take_le;
use crate::hashing::{hash_header_spec, sign_digest_spec};

verus! {

/// Minimum voting-power fraction of the trusted next-validator set that must
/// sign a non-adjacent candidate. Constrained to `[1/3, 1]`.
#[derive(Clone, Copy, PartialEq, Eq, Structural, Debug)]
pub struct TrustThreshold {
    pub numerator: u64,
    pub denominator: u64,
}

impl TrustThreshold {
    /// Both parts positive and `1/3 <= numerator/denominator <= 1`.
    pub open spec fn wf(self) -> bool {
        &&& self.numerator >= 1
        &&& self.denominator >= 1
        &&& 3 * self.numerator >= self.denominator
        &&& self.numerator <= self.denominator
    }

    /// Construct a threshold, rejecting any fraction outside `[1/3, 1]`.
    pub fn new(numerator: u64, denominator: u64) -> (r: Option<TrustThreshold>)
        ensures
            (TrustThreshold { numerator, denominator }).wf()
                ==> r == Some(TrustThreshold { numerator, denominator }),
            !(TrustThreshold { numerator, denominator }).wf() ==> r == None::<TrustThreshold>,
    {
        if numerator >= 1 && denominator >= 1 && numerator <= denominator
            && 3u128 * (numerator as u128) >= denominator as u128
        {
            Some(TrustThreshold { numerator, denominator })
        } else {
            None
        }
    }

    /// The default threshold, one third.
    pub fn one_third() -> (r: TrustThreshold)
        ensures
            r == (TrustThreshold { numerator: 1u64, denominator: 3u64 }),
            r.wf(),
    {
        TrustThreshold { numerator: 1, denominator: 3 }
    }
}

/// Operator options of one light-client instance.
#[derive(Clone, Copy, PartialEq, Eq, Structural, Debug)]
pub struct Options {
    pub trust_threshold: TrustThreshold,
    pub trusting_period: Duration,
    pub clock_drift: Duration,
}

impl Options {
    /// The threshold is well-formed and the trusting period is positive.
    pub open spec fn wf(self) -> bool {
        &&& self.trust_threshold.wf()
        &&& self.trusting_period.nanos >= 1
    }

    /// Construct options, rejecting a zero trusting period.
    pub fn new(trust_threshold: TrustThreshold, trusting_period: Duration, clock_drift: Duration) -> (r: Option<Options>)
        requires
            trust_threshold.wf(),
        ensures
            trusting_period.nanos >= 1
                ==> r == Some(Options { trust_threshold, trusting_period, clock_drift }),
            trusting_period.nanos == 0 ==> r == None::<Options>,
    {
        if trusting_period.nanos >= 1 {
            Some(Options { trust_threshold, trusting_period, clock_drift })
        } else {
            None
        }
    }
}

/// The outcome of a voting-power tally, kept for reporting.
#[derive(Clone, Copy, PartialEq, Eq, Structural, Debug)]
pub struct VotingPowerTally {
    pub tally: u64,
    pub total: u64,
}

/// Reason a candidate block is rejected outright.
#[derive(Clone, Copy, PartialEq, Eq, Structural, Debug)]
pub enum VerificationErrorDetail {
    NonIncreasingHeight { candidate_height: u64, trusted_height: u64 },
    NonMonotonicTime { candidate_time: Time, trusted_time: Time },
    HeaderFromFuture { header_time: Time, now: Time },
    ChainIdMismatch,
    InvalidValidatorSetHash,
    InvalidNextValidatorSetHash,
    InvalidCommitHash,
    InvalidSignature,
    InsufficientVotingPower(VotingPowerTally),
    InvalidNextValidatorSet,
}

/// The verifier's verdict.
#[derive(Clone, Copy, PartialEq, Eq, Structural, Debug)]
pub enum Verdict {
    Success,
    NotEnoughTrust(VotingPowerTally),
    Invalid(VerificationErrorDetail),
    Expired,
}

/// Whether `a * b > c * d`, computed in 128 bits so that nothing overflows.
fn mul_cmp_gt(a: u64, b: u64, c: u64, d: u64) -> (r: bool)
    ensures
        r == (a * b > c * d),
{
    proof {
        assert((a as u128) * (b as u128) == (a as int) * (b as int)
            && (a as int) * (b as int) <= (u64::MAX as int) * (u64::MAX as int))
            by (nonlinear_arith)
            requires a <= u64::MAX && b <= u64::MAX,
        ;
        assert((c as u128) * (d as u128) == (c as int) * (d as int)
            && (c as int) * (d as int) <= (u64::MAX as int) * (u64::MAX as int))
            by (nonlinear_arith)
            requires c <= u64::MAX && d <= u64::MAX,
        ;
    }
    (a as u128) * (b as u128) > (c as u128) * (d as u128)
}

/// Whether some member of `vs` bears the address `addr`.
pub open spec fn has_address(vs: Seq<Validator>, addr: u64) -> bool {
    exists|i: int| 0 <= i < vs.len() && vs[i].address == addr
}

/// The member of `vs` bearing the address `addr` (meaningful when
/// `has_address(vs, addr)` and addresses are distinct).
pub open spec fn validator_at(vs: Seq<Validator>, addr: u64) -> Validator {
    vs[choose|i: int| 0 <= i < vs.len() && vs[i].address == addr]
}

pub proof fn lemma_validator_at(vs: Seq<Validator>, i: int)
    requires
        distinct_addresses(vs),
        0 <= i < vs.len(),
    ensures
        validator_at(vs, vs[i].address) == vs[i],
{
    let addr = vs[i].address;
    assert(0 <= i < vs.len() && vs[i].address == addr);
    let j = choose|j: int| 0 <= j < vs.len() && vs[j].address == addr;
    assert(0 <= j < vs.len() && vs[j].address == addr);
    if i != j {
        assert(vs[i].address != vs[j].address);
    }
}

/// Whether `sigs` holds a signature by validator `v` that validates over the
/// canonical sign-bytes for `(chain_id, height, block_id_hash)`.
pub open spec fn signed_by(sigs: Seq<CommitSig>, v: Validator, chain_id: Seq<u8>, height: u64, block_id_hash: crate::types::Hash) -> bool {
    exists|k: int|
        0 <= k < sigs.len() && sigs[k].validator_address == v.address
            && sigs[k].signature == sign_digest_spec(v.public_key, chain_id, height, block_id_hash)
}

/// Voting power, measured against the members of `vs`, of the validators that
/// validly signed in `sigs`. Each member contributes at most once; signatures
/// from addresses outside `vs` contribute nothing.
pub open spec fn tally_spec(vs: Seq<Validator>, sigs: Seq<CommitSig>, chain_id: Seq<u8>, height: u64, block_id_hash: crate::types::Hash) -> int
    decreases vs.len(),
{
    if vs.len() == 0 {
        0
    } else {
        tally_spec(vs.drop_last(), sigs, chain_id, height, block_id_hash)
            + if signed_by(sigs, vs.last(), chain_id, height, block_id_hash) {
                vs.last().voting_power as int
            } else {
                0
            }
    }
}

pub proof fn lemma_tally_le_total(vs: Seq<Validator>, sigs: Seq<CommitSig>, chain_id: Seq<u8>, height: u64, block_id_hash: crate::types::Hash)
    ensures
        0 <= tally_spec(vs, sigs, chain_id, height, block_id_hash) <= total_power_spec(vs),
    decreases vs.len(),
{
    if vs.len() > 0 {
        lemma_tally_le_total(vs.drop_last(), sigs, chain_id, height, block_id_hash);
    }
}

/// Whether `sigs` holds a signature by validator `v`.
fn find_signature(sigs: &Vec<CommitSig>, v: Validator, chain_id: &Vec<u8>, height: u64, block_id_hash: crate::types::Hash) -> (r: bool)
    ensures
        r == signed_by(sigs@, v, chain_id@, height, block_id_hash),
{
    let expected = crate::hashing::sign_digest(v.public_key, chain_id, height, block_id_hash);
    let mut k: usize = 0;
    while k < sigs.len()
        invariant
            k <= sigs.len(),
            expected == sign_digest_spec(v.public_key, chain_id@, height, block_id_hash),
            forall|j: int|
                0 <= j < k ==> !(sigs@[j].validator_address == v.address
                    && sigs@[j].signature == expected),
        decreases sigs.len() - k,
    {
        if sigs[k].validator_address == v.address && sigs[k].signature == expected {
            proof {
                assert(sigs@[k as int].validator_address == v.address
                    && sigs@[k as int].signature == sign_digest_spec(v.public_key, chain_id@, height, block_id_hash));
            }
            return true;
        }
        k = k + 1;
    }
    false
}

/// Executable voting-power tally of `commit`'s signatures against the members
/// of `vset`.
pub fn voting_power_in(vset: &ValidatorSet, commit: &Commit, chain_id: &Vec<u8>) -> (r: u64)
    requires
        vset.wf(),
    ensures
        r == tally_spec(vset.validators@, commit.signatures@, chain_id@, commit.height, commit.block_id_hash),
        r <= vset.total_voting_power,
{
    let vs = &vset.validators;
    let mut acc: u64 = 0;
    let mut i: usize = 0;
    while i < vs.len()
        invariant
            i <= vs.len(),
            vset.wf(),
            vs == &vset.validators,
            acc == tally_spec(vs@.take(i as int), commit.signatures@, chain_id@, commit.height, commit.block_id_hash),
            acc <= vset.total_voting_power,
        decreases vs.len() - i,
    {
        let signed = find_signature(&commit.signatures, vs[i], chain_id, commit.height, commit.block_id_hash);
        proof {
            assert(vs@.take(i + 1).drop_last() =~= vs@.take(i as int));
            assert(vs@.take(i + 1).last() == vs@[i as int]);
            lemma_tally_le_total(vs@.take(i + 1), commit.signatures@, chain_id@, commit.height, commit.block_id_hash);
            lemma_total_take_le(vs@, i + 1);
        }
        if signed {
            acc = acc + vs[i].voting_power;
        }
        i = i + 1;
    }
    proof {
        assert(vs@.take(vs@.len() as int) =~= vs@);
    }
    acc
}

/// Whether `sig` is either from an address outside `vs`, or validates under
/// the named member's public key.
pub open spec fn sig_valid(sig: CommitSig, vs: Seq<Validator>, chain_id: Seq<u8>, height: u64, block_id_hash: crate::types::Hash) -> bool {
    has_address(vs, sig.validator_address)
        ==> sig.signature == sign_digest_spec(
            validator_at(vs, sig.validator_address).public_key, chain_id, height, block_id_hash)
}

/// Whether every signature of the commit that names a member of `vs`
/// validates under that member's public key.
pub open spec fn all_sigs_valid(sigs: Seq<CommitSig>, vs: Seq<Validator>, chain_id: Seq<u8>, height: u64, block_id_hash: crate::types::Hash) -> bool {
    forall|k: int| 0 <= k < sigs.len() ==> sig_valid(sigs[k], vs, chain_id, height, block_id_hash)
}

/// The member of `vs` bearing `addr`, if any.
fn lookup_validator(vs: &Vec<Validator>, addr: u64) -> (r: Option<Validator>)
    ensures
        match r {
            Some(v) => has_address(vs@, addr)
                && exists|i: int| 0 <= i < vs@.len() && vs@[i] == v && vs@[i].address == addr,
            None => !has_address(vs@, addr),
        },
{
    let mut i: usize = 0;
    while i < vs.len()
        invariant
            i <= vs.len(),
            forall|j: int| 0 <= j < i ==> vs@[j].address != addr,
        decreases vs.len() - i,
    {
        if vs[i].address == addr {
            proof {
                assert(vs@[i as int].address == addr);
            }
            return Some(vs[i]);
        }
        i = i + 1;
    }
    None
}

/// Executable check that every commit signature naming a member of `vset`
/// validates under that member's public key.
fn all_signatures_valid(sigs: &Vec<CommitSig>, vset: &ValidatorSet, chain_id: &Vec<u8>, height: u64, block_id_hash: crate::types::Hash) -> (r: bool)
    requires
        vset.wf(),
    ensures
        r == all_sigs_valid(sigs@, vset.validators@, chain_id@, height, block_id_hash),
{
    let vs = &vset.validators;
    let mut k: usize = 0;
    while k < sigs.len()
        invariant
            k <= sigs.len(),
            vset.wf(),
            vs == &vset.validators,
            forall|j: int| 0 <= j < k ==> sig_valid(sigs@[j], vs@, chain_id@, height, block_id_hash),
        decreases sigs.len() - k,
    {
        match lookup_validator(vs, sigs[k].validator_address) {
            Some(v) => {
                proof {
                    let i = choose|i: int| 0 <= i < vs@.len() && vs@[i] == v && vs@[i].address == sigs@[k as int].validator_address;
                    lemma_validator_at(vs@, i);
                }
                let expected = crate::hashing::sign_digest(v.public_key, chain_id, height, block_id_hash);
                if sigs[k].signature != expected {
                    proof {
                        assert(!sig_valid(sigs@[k as int], vs@, chain_id@, height, block_id_hash));
                    }
                    return false;
                }
            },
            None => {},
        }
        k = k + 1;
    }
    true
}

/// Check 1a: the candidate itself has aged out of the trusting period
/// (widened by the clock drift) relative to `now`.
pub open spec fn candidate_expired(candidate: LightBlock, options: Options, now: Time) -> bool {
    candidate.time().nanos + options.trusting_period.nanos + options.clock_drift.nanos <= now.nanos
}

/// Check 1b: the trusted state has aged out of the trusting period.
pub open spec fn trusted_expired(trusted: LightBlock, options: Options, now: Time) -> bool {
    trusted.time().nanos + options.trusting_period.nanos <= now.nanos
}

/// Checks 2-5: monotonic height, monotonic time, not from the future, same
/// chain id. Each failure with its reason.
pub open spec fn header_checks_pass(trusted: LightBlock, candidate: LightBlock, options: Options, now: Time) -> bool {
    let t = trusted.signed_header.header;
    let c = candidate.signed_header.header;
    &&& c.height > t.height
    &&& c.time.nanos > t.time.nanos
    &&& c.time.nanos < now.nanos + options.clock_drift.nanos
    &&& c.chain_id@ == t.chain_id@
}

/// Check 6: the candidate is internally consistent: the carried validator
/// sets are the ones its header names, and the commit is for this header.
/// (That each naming signature validates is `all_sigs_valid`.)
pub open spec fn internally_consistent(candidate: LightBlock) -> bool {
    let c = candidate.signed_header.header;
    &&& candidate.validators.hash == c.validators_hash
    &&& candidate.next_validators.hash == c.next_validators_hash
    &&& candidate.signed_header.commit.block_id_hash == hash_header_spec(c)
}

/// The candidate's own tally: power of valid signers of its commit measured
/// against its own validator set.
pub open spec fn own_tally(candidate: LightBlock) -> int {
    tally_spec(
        candidate.validators.validators@,
        candidate.signed_header.commit.signatures@,
        candidate.signed_header.header.chain_id@,
        candidate.signed_header.commit.height,
        candidate.signed_header.commit.block_id_hash,
    )
}

/// Check 7: the candidate's own commit clears two thirds of its validator
/// set's total power.
pub open spec fn own_commit_sufficient(candidate: LightBlock) -> bool {
    3 * own_tally(candidate) > 2 * candidate.validators.total_voting_power
}

/// The cross tally: power of valid signers of the candidate's commit measured
/// against the trusted block's next validator set.
pub open spec fn cross_tally(trusted: LightBlock, candidate: LightBlock) -> int {
    tally_spec(
        trusted.next_validators.validators@,
        candidate.signed_header.commit.signatures@,
        candidate.signed_header.header.chain_id@,
        candidate.signed_header.commit.height,
        candidate.signed_header.commit.block_id_hash,
    )
}

/// Check 8 (skipping): the cross tally exceeds the trust threshold's share of
/// the trusted next validator set's total power.
pub open spec fn cross_trust_sufficient(trusted: LightBlock, candidate: LightBlock, options: Options) -> bool {
    cross_tally(trusted, candidate) * options.trust_threshold.denominator
        > options.trust_threshold.numerator * trusted.next_validators.total_voting_power
}

/// The verifier as a mathematical function: the checks in order, the first
/// failure's verdict, `Success` when all pass.
#[verifier::opaque]
pub open spec fn verify_spec(trusted: LightBlock, candidate: LightBlock, options: Options, now: Time) -> Verdict {
    let t = trusted.signed_header.header;
    let c = candidate.signed_header.header;
    if candidate_expired(candidate, options, now) || trusted_expired(trusted, options, now) {
        Verdict::Expired
    } else if !(c.height > t.height) {
        Verdict::Invalid(VerificationErrorDetail::NonIncreasingHeight {
            candidate_height: c.height,
            trusted_height: t.height,
        })
    } else if !(c.time.nanos > t.time.nanos) {
        Verdict::Invalid(VerificationErrorDetail::NonMonotonicTime {
            candidate_time: c.time,
            trusted_time: t.time,
        })
    } else if !(c.time.nanos < now.nanos + options.clock_drift.nanos) {
        Verdict::Invalid(VerificationErrorDetail::HeaderFromFuture { header_time: c.time, now })
    } else if c.chain_id@ != t.chain_id@ {
        Verdict::Invalid(VerificationErrorDetail::ChainIdMismatch)
    } else if candidate.validators.hash != c.validators_hash {
        Verdict::Invalid(VerificationErrorDetail::InvalidValidatorSetHash)
    } else if candidate.next_validators.hash != c.next_validators_hash {
        Verdict::Invalid(VerificationErrorDetail::InvalidNextValidatorSetHash)
    } else if candidate.signed_header.commit.block_id_hash != hash_header_spec(c) {
        Verdict::Invalid(VerificationErrorDetail::InvalidCommitHash)
    } else if !all_sigs_valid(
        candidate.signed_header.commit.signatures@,
        candidate.validators.validators@,
        c.chain_id@,
        candidate.signed_header.commit.height,
        candidate.signed_header.commit.block_id_hash,
    ) {
        Verdict::Invalid(VerificationErrorDetail::InvalidSignature)
    } else if !own_commit_sufficient(candidate) {
        Verdict::Invalid(VerificationErrorDetail::InsufficientVotingPower(VotingPowerTally {
            tally: own_tally(candidate) as u64,
            total: candidate.validators.total_voting_power,
        }))
    } else if c.height == t.height + 1 {
        if c.validators_hash == t.next_validators_hash {
            Verdict::Success
        } else {
            Verdict::Invalid(VerificationErrorDetail::InvalidNextValidatorSet)
        }
    } else if cross_trust_sufficient(trusted, candidate, options) {
        Verdict::Success
    } else {
        Verdict::NotEnoughTrust(VotingPowerTally {
            tally: cross_tally(trusted, candidate) as u64,
            total: trusted.next_validators.total_voting_power,
        })
    }
}

/// The verifier. Pure and deterministic: the verdict is exactly
/// `verify_spec` of the arguments.
#[verifier::rlimit(100)]
#[verifier::spinoff_prover]
pub fn verify(trusted: &LightBlock, candidate: &LightBlock, options: &Options, now: Time) -> (r: Verdict)
    requires
        trusted.wf(),
        candidate.basic_wf(),
        options.wf(),
    ensures
        r == verify_spec(*trusted, *candidate, *options, now),
{
    proof {
        reveal(verify_spec);
    }
    let t = &trusted.signed_header.header;
    let c = &candidate.signed_header.header;
    let cand_time_widened: u128 = (c.time.nanos as u128) + (options.trusting_period.nanos as u128)
        + (options.clock_drift.nanos as u128);
    if cand_time_widened <= now.nanos as u128 {
        return Verdict::Expired;
    }
    let trusted_age: u128 = (t.time.nanos as u128) + (options.trusting_period.nanos as u128);
    if trusted_age <= now.nanos as u128 {
        return Verdict::Expired;
    }
    if !(c.height > t.height) {
        return Verdict::Invalid(VerificationErrorDetail::NonIncreasingHeight {
            candidate_height: c.height,
            trusted_height: t.height,
        });
    }
    if !(c.time.nanos > t.time.nanos) {
        return Verdict::Invalid(VerificationErrorDetail::NonMonotonicTime {
            candidate_time: c.time,
            trusted_time: t.time,
        });
    }
    if !((c.time.nanos as u128) < (now.nanos as u128) + (options.clock_drift.nanos as u128)) {
        return Verdict::Invalid(VerificationErrorDetail::HeaderFromFuture {
            header_time: c.time,
            now,
        });
    }
    if !crate::hashing::bytes_eq(&c.chain_id, &t.chain_id) {
        return Verdict::Invalid(VerificationErrorDetail::ChainIdMismatch);
    }
    if !(candidate.validators.hash == c.validators_hash) {
        return Verdict::Invalid(VerificationErrorDetail::InvalidValidatorSetHash);
    }
    if !(candidate.next_validators.hash == c.next_validators_hash) {
        return Verdict::Invalid(VerificationErrorDetail::InvalidNextValidatorSetHash);
    }
    let header_hash = crate::hashing::hash_header(c);
    if !(candidate.signed_header.commit.block_id_hash == header_hash) {
        return Verdict::Invalid(VerificationErrorDetail::InvalidCommitHash);
    }
    if !all_signatures_valid(
        &candidate.signed_header.commit.signatures,
        &candidate.validators,
        &c.chain_id,
        candidate.signed_header.commit.height,
        candidate.signed_header.commit.block_id_hash,
    ) {
        return Verdict::Invalid(VerificationErrorDetail::InvalidSignature);
    }
    let own = voting_power_in(&candidate.validators, &candidate.signed_header.commit, &c.chain_id);
    if !mul_cmp_gt(3, own, 2, candidate.validators.total_voting_power) {
        return Verdict::Invalid(VerificationErrorDetail::InsufficientVotingPower(VotingPowerTally {
            tally: own,
            total: candidate.validators.total_voting_power,
        }));
    }
    if c.height == t.height + 1 {
        if c.validators_hash == t.next_validators_hash {
            return Verdict::Success;
        } else {
            return Verdict::Invalid(VerificationErrorDetail::InvalidNextValidatorSet);
        }
    }
    let cross = voting_power_in(&trusted.next_validators, &candidate.signed_header.commit, &c.chain_id);
    if mul_cmp_gt(cross, options.trust_threshold.denominator,
        options.trust_threshold.numerator, trusted.next_validators.total_voting_power)
    {
        Verdict::Success
    } else {
        Verdict::NotEnoughTrust(VotingPowerTally {
            tally: cross,
            total: trusted.next_validators.total_voting_power,
        })
    }
}

/// A copy of a block is as (ill-)formed as the original, and its header
/// bears the same canonical digest.
pub proof fn lemma_same_block_props(a: LightBlock, b: LightBlock)
    requires
        same_block(a, b),
    ensures
        a.basic_wf() == b.basic_wf(),
        a.wf() == b.wf(),
        a.height() == b.height(),
        a.time() == b.time(),
        crate::hashing::hash_header_spec(a.signed_header.header)
            == crate::hashing::hash_header_spec(b.signed_header.header),
{
    reveal(crate::hashing::header_words_spec);
    assert(crate::hashing::header_words_spec(a.signed_header.header)
        =~= crate::hashing::header_words_spec(b.signed_header.header));
}

/// The verdict depends only on the observable fields of the candidate: a copy
/// of the candidate draws the same verdict.
pub proof fn lemma_same_candidate_verify(trusted: LightBlock, a: LightBlock, b: LightBlock, options: Options, now: Time)
    requires
        same_block(a, b),
    ensures
        verify_spec(trusted, a, options, now) == verify_spec(trusted, b, options, now),
{
    reveal(verify_spec);
    reveal(crate::hashing::header_words_spec);
    assert(crate::hashing::header_words_spec(a.signed_header.header)
        =~= crate::hashing::header_words_spec(b.signed_header.header));
    assert(own_tally(a) == own_tally(b));
    assert(cross_tally(trusted, a) == cross_tally(trusted, b));
}

/// The verdict depends only on the observable fields of the trusted block: a
/// copy of the trusted block draws the same verdict.
pub proof fn lemma_same_trusted_verify(a: LightBlock, b: LightBlock, candidate: LightBlock, options: Options, now: Time)
    requires
        same_block(a, b),
    ensures
        verify_spec(a, candidate, options, now) == verify_spec(b, candidate, options, now),
{
    reveal(verify_spec);
    assert(cross_tally(a, candidate) == cross_tally(b, candidate));
}

/// A candidate that draws `Success` is fully well-formed and lies strictly
/// above the trusted block.
pub proof fn lemma_success_wf(trusted: LightBlock, candidate: LightBlock, options: Options, now: Time)
    requires
        candidate.basic_wf(),
        verify_spec(trusted, candidate, options, now) == Verdict::Success,
    ensures
        candidate.wf(),
        candidate.height() > trusted.height(),
{
    reveal(verify_spec);
}

/// A verdict of `NotEnoughTrust` only arises for a candidate at least two
/// heights above the trusted block.
pub proof fn lemma_not_enough_trust_gap(trusted: LightBlock, candidate: LightBlock, options: Options, now: Time)
    requires
        verify_spec(trusted, candidate, options, now) is NotEnoughTrust,
    ensures
        candidate.height() >= trusted.height() + 2,
{
    reveal(verify_spec);
}

/// Adjacency soundness: for a candidate exactly one height above the trusted
/// block, verification succeeds exactly when the candidate names the trusted
/// next validator set, its own commit clears two thirds of its validator set,
/// every naming signature validates, and all time, height and chain-id checks
/// pass.
pub proof fn lemma_adjacency_soundness(trusted: LightBlock, candidate: LightBlock, options: Options, now: Time)
    requires
        candidate.height() == trusted.height() + 1,
    ensures
        verify_spec(trusted, candidate, options, now) == Verdict::Success <==> ({
            &&& !candidate_expired(candidate, options, now)
            &&& !trusted_expired(trusted, options, now)
            &&& header_checks_pass(trusted, candidate, options, now)
            &&& internally_consistent(candidate)
            &&& all_sigs_valid(
                candidate.signed_header.commit.signatures@,
                candidate.validators.validators@,
                candidate.signed_header.header.chain_id@,
                candidate.signed_header.commit.height,
                candidate.signed_header.commit.block_id_hash,
            )
            &&& own_commit_sufficient(candidate)
            &&& candidate.signed_header.header.validators_hash
                == trusted.signed_header.header.next_validators_hash
        }),
{
    reveal(verify_spec);
}

/// Skipping monotonicity: for a non-adjacent candidate, raising the trust
/// threshold can only turn `Success` into `NotEnoughTrust`, never the
/// reverse.
pub proof fn lemma_skipping_monotonicity(trusted: LightBlock, candidate: LightBlock, weaker: Options, stronger: Options, now: Time)
    requires
        weaker.wf(),
        stronger.wf(),
        weaker.trusting_period == stronger.trusting_period,
        weaker.clock_drift == stronger.clock_drift,
        stronger.trust_threshold.numerator * weaker.trust_threshold.denominator
            >= weaker.trust_threshold.numerator * stronger.trust_threshold.denominator,
        candidate.height() != trusted.height() + 1,
    ensures
        verify_spec(trusted, candidate, stronger, now) == Verdict::Success
            ==> verify_spec(trusted, candidate, weaker, now) == Verdict::Success,
        verify_spec(trusted, candidate, weaker, now) == Verdict::Success
            ==> (verify_spec(trusted, candidate, stronger, now) == Verdict::Success
                || verify_spec(trusted, candidate, stronger, now) is NotEnoughTrust),
{
    reveal(verify_spec);
    let tally = cross_tally(trusted, candidate);
    let total = trusted.next_validators.total_voting_power as int;
    let nw = weaker.trust_threshold.numerator as int;
    let dw = weaker.trust_threshold.denominator as int;
    let ns = stronger.trust_threshold.numerator as int;
    let ds = stronger.trust_threshold.denominator as int;
    if cross_trust_sufficient(trusted, candidate, stronger) {
        assert(tally * dw > nw * total) by (nonlinear_arith)
            requires
                tally * ds > ns * total,
                ns * dw >= nw * ds,
                dw >= 1,
                ds >= 1,
                total >= 0,
                tally * ds > ns * total,
        ;
    }
}

/// Trusting-period boundary, first half: the moment `now` reaches the trusted
/// block's time plus the trusting period, the verdict is `Expired`, whatever
/// the candidate.
pub proof fn lemma_trusting_period_boundary_expired(trusted: LightBlock, candidate: LightBlock, options: Options, now: Time)
    requires
        now.nanos == trusted.time().nanos + options.trusting_period.nanos,
    ensures
        verify_spec(trusted, candidate, options, now) == Verdict::Expired,
{
    reveal(verify_spec);
}

/// Trusting-period boundary, second half: one nanosecond before the boundary
/// the verdict is the same as at the trusted block's own time. This holds for
/// candidates whose time lies strictly between the trusted time and the
/// trusted time plus the clock drift; outside that band the future-time check
/// itself depends on `now`.
pub proof fn lemma_trusting_period_boundary_unchanged(trusted: LightBlock, candidate: LightBlock, options: Options)
    requires
        options.wf(),
        trusted.time().nanos + options.trusting_period.nanos - 1 <= u64::MAX,
        candidate.time().nanos > trusted.time().nanos,
        candidate.time().nanos < trusted.time().nanos + options.clock_drift.nanos,
    ensures
        verify_spec(trusted, candidate, options,
            (Time { nanos: (trusted.time().nanos + options.trusting_period.nanos - 1) as u64 }))
            == verify_spec(trusted, candidate, options, trusted.time()),
{
    reveal(verify_spec);
}

} // verus!
