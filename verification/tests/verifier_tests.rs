use light_client_core::hashing::{hash_header, hash_validators, sign_digest};
use light_client_core::types::{
    Commit, CommitSig, Duration, Header, LightBlock, SignedHeader, Time, Validator,
    ValidatorSet,
};
use light_client_core::verification::{
    verify, Options, TrustThreshold, Verdict, VerificationErrorDetail,
};

fn val(address: u64, power: u64) -> Validator {
    Validator { address, public_key: address * 1000 + 7, voting_power: power }
}

fn valset(vals: Vec<Validator>) -> ValidatorSet {
    let hash = hash_validators(&vals);
    let total: u64 = vals.iter().map(|v| v.voting_power).sum();
    ValidatorSet { validators: vals, hash, total_voting_power: total }
}

fn plain_hash(tag: u64) -> light_client_core::types::Hash {
    light_client_core::types::Hash { w0: tag, w1: 0, w2: 0, w3: 0 }
}

fn block(
    chain: &[u8],
    height: u64,
    time_ns: u64,
    vals: &ValidatorSet,
    next_vals: &ValidatorSet,
    signers: &[Validator],
    app_tag: u64,
    provider: u64,
) -> LightBlock {
    let header = Header {
        chain_id: chain.to_vec(),
        height,
        time: Time { nanos: time_ns },
        last_block_id_hash: None,
        validators_hash: vals.hash,
        next_validators_hash: next_vals.hash,
        app_hash: plain_hash(app_tag),
        proposer_address: vals.validators[0].address,
    };
    let bid = hash_header(&header);
    let chain_vec = chain.to_vec();
    let signatures: Vec<CommitSig> = signers
        .iter()
        .map(|v| CommitSig {
            validator_address: v.address,
            signature: sign_digest(v.public_key, &chain_vec, height, bid),
        })
        .collect();
    LightBlock {
        signed_header: SignedHeader {
            header,
            commit: Commit { height, block_id_hash: bid, signatures },
        },
        validators: vals.clone(),
        next_validators: next_vals.clone(),
        provider,
    }
}

fn options(num: u64, den: u64, period_ns: u64, drift_ns: u64) -> Options {
    Options {
        trust_threshold: TrustThreshold { numerator: num, denominator: den },
        trusting_period: Duration { nanos: period_ns },
        clock_drift: Duration { nanos: drift_ns },
    }
}

const T0: u64 = 1_000_000_000_000;
const HOUR: u64 = 3_600_000_000_000;
const CHAIN: &[u8] = b"test-chain";

#[test]
fn adjacent_success() {
    let vs = valset(vec![val(1, 50), val(2, 50)]);
    let trusted = block(CHAIN, 1, T0, &vs, &vs, &vs.validators.clone(), 1, 9);
    let cand = block(CHAIN, 2, T0 + 10, &vs, &vs, &vs.validators.clone(), 2, 9);
    let opts = options(1, 3, HOUR, 0);
    let v = verify(&trusted, &cand, &opts, Time { nanos: T0 + 100 });
    assert_eq!(v, Verdict::Success);
}

#[test]
fn adjacent_wrong_next_validator_set() {
    let vs = valset(vec![val(1, 50), val(2, 50)]);
    let other = valset(vec![val(3, 100)]);
    let trusted = block(CHAIN, 1, T0, &vs, &vs, &vs.validators.clone(), 1, 9);
    // candidate carries a validator set the trusted block did not announce
    let cand = block(CHAIN, 2, T0 + 10, &other, &other, &other.validators.clone(), 2, 9);
    let opts = options(1, 3, HOUR, 0);
    let v = verify(&trusted, &cand, &opts, Time { nanos: T0 + 100 });
    assert_eq!(
        v,
        Verdict::Invalid(VerificationErrorDetail::InvalidNextValidatorSet)
    );
}

#[test]
fn adjacent_insufficient_own_commit() {
    let vs = valset(vec![val(1, 50), val(2, 50)]);
    let trusted = block(CHAIN, 1, T0, &vs, &vs, &vs.validators.clone(), 1, 9);
    // only one of two equal-powered validators signed: 50/100 does not exceed 2/3
    let cand = block(CHAIN, 2, T0 + 10, &vs, &vs, &vs.validators[0..1].to_vec(), 2, 9);
    let opts = options(1, 3, HOUR, 0);
    let v = verify(&trusted, &cand, &opts, Time { nanos: T0 + 100 });
    match v {
        Verdict::Invalid(VerificationErrorDetail::InsufficientVotingPower(t)) => {
            assert_eq!(t.tally, 50);
            assert_eq!(t.total, 100);
        },
        other => panic!("expected insufficient voting power, got {:?}", other),
    }
}

#[test]
fn non_increasing_height_rejected() {
    let vs = valset(vec![val(1, 100)]);
    let trusted = block(CHAIN, 5, T0, &vs, &vs, &vs.validators.clone(), 1, 9);
    let cand = block(CHAIN, 5, T0 + 10, &vs, &vs, &vs.validators.clone(), 2, 9);
    let opts = options(1, 3, HOUR, 0);
    let v = verify(&trusted, &cand, &opts, Time { nanos: T0 + 100 });
    assert_eq!(
        v,
        Verdict::Invalid(VerificationErrorDetail::NonIncreasingHeight {
            candidate_height: 5,
            trusted_height: 5
        })
    );
}

#[test]
fn non_monotonic_time_rejected() {
    let vs = valset(vec![val(1, 100)]);
    let trusted = block(CHAIN, 1, T0, &vs, &vs, &vs.validators.clone(), 1, 9);
    let cand = block(CHAIN, 2, T0, &vs, &vs, &vs.validators.clone(), 2, 9);
    let opts = options(1, 3, HOUR, 0);
    let v = verify(&trusted, &cand, &opts, Time { nanos: T0 + 100 });
    assert!(matches!(
        v,
        Verdict::Invalid(VerificationErrorDetail::NonMonotonicTime { .. })
    ));
}

#[test]
fn header_from_future_rejected() {
    let vs = valset(vec![val(1, 100)]);
    let trusted = block(CHAIN, 1, T0, &vs, &vs, &vs.validators.clone(), 1, 9);
    let cand = block(CHAIN, 2, T0 + 500, &vs, &vs, &vs.validators.clone(), 2, 9);
    let opts = options(1, 3, HOUR, 0);
    // now lies before the candidate's header time and drift is zero
    let v = verify(&trusted, &cand, &opts, Time { nanos: T0 + 100 });
    assert!(matches!(
        v,
        Verdict::Invalid(VerificationErrorDetail::HeaderFromFuture { .. })
    ));
}

#[test]
fn chain_id_mismatch_rejected() {
    let vs = valset(vec![val(1, 100)]);
    let trusted = block(CHAIN, 1, T0, &vs, &vs, &vs.validators.clone(), 1, 9);
    let cand = block(b"other-chain", 2, T0 + 10, &vs, &vs, &vs.validators.clone(), 2, 9);
    let opts = options(1, 3, HOUR, 0);
    let v = verify(&trusted, &cand, &opts, Time { nanos: T0 + 100 });
    assert_eq!(v, Verdict::Invalid(VerificationErrorDetail::ChainIdMismatch));
}

#[test]
fn bad_signature_rejected() {
    let vs = valset(vec![val(1, 100)]);
    let trusted = block(CHAIN, 1, T0, &vs, &vs, &vs.validators.clone(), 1, 9);
    let mut cand = block(CHAIN, 2, T0 + 10, &vs, &vs, &vs.validators.clone(), 2, 9);
    cand.signed_header.commit.signatures[0].signature ^= 1;
    let opts = options(1, 3, HOUR, 0);
    let v = verify(&trusted, &cand, &opts, Time { nanos: T0 + 100 });
    assert_eq!(v, Verdict::Invalid(VerificationErrorDetail::InvalidSignature));
}

#[test]
fn skipping_with_one_third_overlap_succeeds() {
    // trusted next validators: four, powers [25, 25, 25, 25]
    let four = valset(vec![val(1, 25), val(2, 25), val(3, 25), val(4, 25)]);
    let trusted = block(CHAIN, 1, T0, &four, &four, &four.validators.clone(), 1, 9);
    // candidate at height 100 signed by two of those four: tally 50/100 > 1/3
    let two = valset(vec![val(1, 25), val(2, 25)]);
    let cand = block(CHAIN, 100, T0 + 100, &two, &two, &two.validators.clone(), 2, 9);
    let opts = options(1, 3, HOUR, 0);
    let v = verify(&trusted, &cand, &opts, Time { nanos: T0 + 200 });
    assert_eq!(v, Verdict::Success);
}

#[test]
fn skipping_insufficient_overlap_needs_more_trust() {
    let four = valset(vec![val(1, 25), val(2, 25), val(3, 25), val(4, 25)]);
    let trusted = block(CHAIN, 1, T0, &four, &four, &four.validators.clone(), 1, 9);
    // only one overlapping validator: tally 25/100 <= 1/3
    let mixed = valset(vec![val(1, 25), val(9, 75)]);
    let cand = block(CHAIN, 100, T0 + 100, &mixed, &mixed, &mixed.validators.clone(), 2, 9);
    let opts = options(1, 3, HOUR, 0);
    let v = verify(&trusted, &cand, &opts, Time { nanos: T0 + 200 });
    match v {
        Verdict::NotEnoughTrust(t) => {
            assert_eq!(t.tally, 25);
            assert_eq!(t.total, 100);
        },
        other => panic!("expected not enough trust, got {:?}", other),
    }
}

#[test]
fn skipping_monotone_in_threshold() {
    // the same skipping candidate under 1/3 succeeds and under 2/3 lacks trust
    let four = valset(vec![val(1, 25), val(2, 25), val(3, 25), val(4, 25)]);
    let trusted = block(CHAIN, 1, T0, &four, &four, &four.validators.clone(), 1, 9);
    let two = valset(vec![val(1, 25), val(2, 25)]);
    let cand = block(CHAIN, 100, T0 + 100, &two, &two, &two.validators.clone(), 2, 9);
    let weaker = options(1, 3, HOUR, 0);
    let stronger = options(2, 3, HOUR, 0);
    let now = Time { nanos: T0 + 200 };
    assert_eq!(verify(&trusted, &cand, &weaker, now), Verdict::Success);
    assert!(matches!(
        verify(&trusted, &cand, &stronger, now),
        Verdict::NotEnoughTrust(_)
    ));
}

#[test]
fn trusting_period_boundary() {
    let vs = valset(vec![val(1, 100)]);
    let trusted = block(CHAIN, 1, T0, &vs, &vs, &vs.validators.clone(), 1, 9);
    let cand = block(CHAIN, 2, T0 + 5, &vs, &vs, &vs.validators.clone(), 2, 9);
    let opts = options(1, 3, HOUR, 10);
    // at now = trusted.time + trusting_period the verdict is Expired
    let at_boundary = Time { nanos: T0 + HOUR };
    assert_eq!(verify(&trusted, &cand, &opts, at_boundary), Verdict::Expired);
    // one nanosecond earlier the verdict equals the one at the trusted time
    let just_before = Time { nanos: T0 + HOUR - 1 };
    let at_trusted_time = Time { nanos: T0 };
    assert_eq!(
        verify(&trusted, &cand, &opts, just_before),
        verify(&trusted, &cand, &opts, at_trusted_time)
    );
}

#[test]
fn expired_candidate_gives_expired() {
    let vs = valset(vec![val(1, 100)]);
    let trusted = block(CHAIN, 1, T0, &vs, &vs, &vs.validators.clone(), 1, 9);
    let cand = block(CHAIN, 2, T0 + 10, &vs, &vs, &vs.validators.clone(), 2, 9);
    let opts = options(1, 3, HOUR, 0);
    let v = verify(&trusted, &cand, &opts, Time { nanos: T0 + 3 * HOUR });
    assert_eq!(v, Verdict::Expired);
}

#[test]
fn trust_threshold_bounds() {
    assert_eq!(
        TrustThreshold::new(1, 3),
        Some(TrustThreshold { numerator: 1, denominator: 3 })
    );
    assert_eq!(
        TrustThreshold::new(2, 3),
        Some(TrustThreshold { numerator: 2, denominator: 3 })
    );
    assert_eq!(
        TrustThreshold::new(1, 1),
        Some(TrustThreshold { numerator: 1, denominator: 1 })
    );
    assert_eq!(TrustThreshold::new(1, 4), None);
    assert_eq!(TrustThreshold::new(0, 3), None);
    assert_eq!(TrustThreshold::new(3, 0), None);
    assert_eq!(TrustThreshold::new(2, 1), None);
    assert_eq!(TrustThreshold::one_third(), TrustThreshold { numerator: 1, denominator: 3 });
}

#[test]
fn options_reject_zero_period() {
    let th = TrustThreshold::one_third();
    assert!(Options::new(th, Duration { nanos: 0 }, Duration { nanos: 0 }).is_none());
    assert!(Options::new(th, Duration { nanos: 1 }, Duration { nanos: 0 }).is_some());
}

#[test]
fn verifier_is_deterministic() {
    let vs = valset(vec![val(1, 100)]);
    let trusted = block(CHAIN, 1, T0, &vs, &vs, &vs.validators.clone(), 1, 9);
    let cand = block(CHAIN, 2, T0 + 10, &vs, &vs, &vs.validators.clone(), 2, 9);
    let opts = options(1, 3, HOUR, 0);
    let now = Time { nanos: T0 + 100 };
    assert_eq!(verify(&trusted, &cand, &opts, now), verify(&trusted, &cand, &opts, now));
}

#[test]
fn hashing_is_deterministic_and_field_sensitive() {
    let a = vec![val(1, 10), val(2, 20)];
    let b = vec![val(1, 10), val(2, 21)];
    assert_eq!(hash_validators(&a), hash_validators(&a));
    assert_ne!(hash_validators(&a), hash_validators(&b));
    let vs = valset(a);
    let blk = block(CHAIN, 3, T0, &vs, &vs, &vs.validators.clone(), 7, 9);
    let mut h2 = blk.signed_header.header.clone();
    assert_eq!(hash_header(&blk.signed_header.header), hash_header(&h2));
    h2.app_hash = plain_hash(8);
    assert_ne!(hash_header(&blk.signed_header.header), hash_header(&h2));
}

#[test]
fn time_checked_arithmetic() {
    let t = Time { nanos: 100 };
    assert_eq!(t.checked_sub(Duration { nanos: 40 }), Some(Time { nanos: 60 }));
    assert_eq!(t.checked_sub(Duration { nanos: 101 }), None);
    assert_eq!(t.checked_add(Duration { nanos: 1 }), Some(Time { nanos: 101 }));
    assert_eq!(Time { nanos: u64::MAX }.checked_add(Duration { nanos: 1 }), None);
}

#[test]
fn validator_set_constructor() {
    let good = ValidatorSet::new(vec![val(1, 10), val(2, 20)]).expect("distinct members fit");
    assert_eq!(good.total_voting_power, 30);
    assert_eq!(good.hash, hash_validators(&good.validators));
    assert!(ValidatorSet::new(vec![val(1, 10), val(1, 20)]).is_none());
    assert!(ValidatorSet::new(vec![val(1, u64::MAX), val(2, 1)]).is_none());
}
