use light_client_core::bisection::verify_to_height_with_source;
use light_client_core::contracts::{
    is_within_trust_period, light_store_contains_block_within_trusting_period,
    trusted_store_contains_block_at_target_height,
};
use light_client_core::client::{ClientBuilder, DEFAULT_CLIENT_READ_BUF_SIZE};
use light_client_core::errors::Error;
use light_client_core::hashing::{hash_header, hash_validators, sign_digest};
use light_client_core::io::{BlockSource, IoErrorKind};
use light_client_core::scheduler::midpoint;
use light_client_core::store::LightStore;
use light_client_core::supervisor::Supervisor;
use light_client_core::types::{
    Commit, CommitSig, Duration, Header, LightBlock, SignedHeader, Status, Time, Validator,
    ValidatorSet,
};
use light_client_core::verification::{Options, TrustThreshold};

fn val(address: u64, power: u64) -> Validator {
    Validator { address, public_key: address * 1000 + 7, voting_power: power }
}

fn valset(vals: Vec<Validator>) -> ValidatorSet {
    let hash = hash_validators(&vals);
    let total: u64 = vals.iter().map(|v| v.voting_power).sum();
    ValidatorSet { validators: vals, hash, total_voting_power: total }
}

fn plain_hash(tag: u64) -> light_client_core::types::Hash {
    light_client_core::types::Hash { w0: tag, w1: 0, w2: 0, w3: 0 }
}

fn block(
    chain: &[u8],
    height: u64,
    time_ns: u64,
    vals: &ValidatorSet,
    next_vals: &ValidatorSet,
    signers: &[Validator],
    app_tag: u64,
    provider: u64,
) -> LightBlock {
    let header = Header {
        chain_id: chain.to_vec(),
        height,
        time: Time { nanos: time_ns },
        last_block_id_hash: None,
        validators_hash: vals.hash,
        next_validators_hash: next_vals.hash,
        app_hash: plain_hash(app_tag),
        proposer_address: vals.validators[0].address,
    };
    let bid = hash_header(&header);
    let chain_vec = chain.to_vec();
    let signatures: Vec<CommitSig> = signers
        .iter()
        .map(|v| CommitSig {
            validator_address: v.address,
            signature: sign_digest(v.public_key, &chain_vec, height, bid),
        })
        .collect();
    LightBlock {
        signed_header: SignedHeader {
            header,
            commit: Commit { height, block_id_hash: bid, signatures },
        },
        validators: vals.clone(),
        next_validators: next_vals.clone(),
        provider,
    }
}

fn options(num: u64, den: u64, period_ns: u64, drift_ns: u64) -> Options {
    Options {
        trust_threshold: TrustThreshold { numerator: num, denominator: den },
        trusting_period: Duration { nanos: period_ns },
        clock_drift: Duration { nanos: drift_ns },
    }
}

const T0: u64 = 1_000_000_000_000;
const HOUR: u64 = 3_600_000_000_000;
const CHAIN: &[u8] = b"test-chain";

#[test]
fn trivial_adjacent_commits_to_store() {
    // trusted at height 1, target 2; the primary serves block 2 whose
    // validators equal trusted's next validators, commit at full power
    let vs = valset(vec![val(1, 100)]);
    let trusted = block(CHAIN, 1, T0, &vs, &vs, &vs.validators.clone(), 1, 9);
    let b2 = block(CHAIN, 2, T0 + 10, &vs, &vs, &vs.validators.clone(), 2, 9);
    let mut store = LightStore::new();
    store.insert(trusted, Status::Trusted);
    let src = BlockSource { peer_id: 9, blocks: vec![b2], fail: None };
    let opts = options(1, 3, HOUR, 0);
    let r = verify_to_height_with_source(&mut store, &src, &opts, Time { nanos: T0 + 100 }, 2, 3);
    let got = r.expect("adjacent verification should succeed");
    assert_eq!(got.signed_header.header.height, 2);
    assert!(store.get(1, Status::Trusted).is_some());
    assert!(store.get(2, Status::Verified).is_some());
}

#[test]
fn skipping_succeeds_without_bisection() {
    let four = valset(vec![val(1, 25), val(2, 25), val(3, 25), val(4, 25)]);
    let trusted = block(CHAIN, 1, T0, &four, &four, &four.validators.clone(), 1, 9);
    let two = valset(vec![val(1, 25), val(2, 25)]);
    let b100 = block(CHAIN, 100, T0 + 100, &two, &two, &two.validators.clone(), 2, 9);
    let mut store = LightStore::new();
    store.insert(trusted, Status::Trusted);
    // the source serves only the target: any bisection attempt would fail
    let src = BlockSource { peer_id: 9, blocks: vec![b100], fail: None };
    let opts = options(1, 3, HOUR, 0);
    let r = verify_to_height_with_source(&mut store, &src, &opts, Time { nanos: T0 + 200 }, 100, 3);
    let got = r.expect("one-third overlap should skip straight to the target");
    assert_eq!(got.signed_header.header.height, 100);
    assert!(store.get(100, Status::Verified).is_some());
    assert!(store.get(50, Status::Verified).is_none());
}

#[test]
fn insufficient_overlap_bisects_through_midpoint() {
    let four = valset(vec![val(1, 25), val(2, 25), val(3, 25), val(4, 25)]);
    let trusted = block(CHAIN, 1, T0, &four, &four, &four.validators.clone(), 1, 9);
    // block 50: two of trusted's four validators (tally 50/100 > 1/3)
    let two = valset(vec![val(1, 25), val(2, 25)]);
    let b50 = block(CHAIN, 50, T0 + 50, &two, &two, &two.validators.clone(), 3, 9);
    // block 100: only one overlap with trusted's four (tally 25/100 <= 1/3),
    // but full overlap with block 50's next validators
    let mixed = valset(vec![val(1, 25), val(9, 75)]);
    let b100 = block(CHAIN, 100, T0 + 100, &mixed, &mixed, &mixed.validators.clone(), 2, 9);
    let mut store = LightStore::new();
    store.insert(trusted, Status::Trusted);
    let src = BlockSource { peer_id: 9, blocks: vec![b50, b100], fail: None };
    let opts = options(1, 3, HOUR, 0);
    let r = verify_to_height_with_source(&mut store, &src, &opts, Time { nanos: T0 + 200 }, 100, 3);
    let got = r.expect("bisection through height 50 should succeed");
    assert_eq!(got.signed_header.header.height, 100);
    assert!(store.get(50, Status::Verified).is_some());
    assert!(store.get(100, Status::Verified).is_some());
}

#[test]
fn expired_trust_aborts_without_writes() {
    let vs = valset(vec![val(1, 100)]);
    let trusted = block(CHAIN, 1, T0, &vs, &vs, &vs.validators.clone(), 1, 9);
    let b2 = block(CHAIN, 2, T0 + 10, &vs, &vs, &vs.validators.clone(), 2, 9);
    let mut store = LightStore::new();
    store.insert(trusted, Status::Trusted);
    let src = BlockSource { peer_id: 9, blocks: vec![b2], fail: None };
    // trusting period one hour, now two hours past the trusted time
    let opts = options(1, 3, HOUR, 0);
    let r = verify_to_height_with_source(&mut store, &src, &opts, Time { nanos: T0 + 2 * HOUR }, 2, 3);
    assert!(matches!(r, Err(Error::TrustedStateOutsideTrustingPeriod)));
    assert!(store.get(2, Status::Verified).is_none());
    assert!(store.get(2, Status::Failed).is_none());
}

#[test]
fn second_call_is_idempotent() {
    let vs = valset(vec![val(1, 100)]);
    let trusted = block(CHAIN, 1, T0, &vs, &vs, &vs.validators.clone(), 1, 9);
    let b2 = block(CHAIN, 2, T0 + 10, &vs, &vs, &vs.validators.clone(), 2, 9);
    let mut store = LightStore::new();
    store.insert(trusted, Status::Trusted);
    let src = BlockSource { peer_id: 9, blocks: vec![b2], fail: None };
    let opts = options(1, 3, HOUR, 0);
    let now = Time { nanos: T0 + 100 };
    let r1 = verify_to_height_with_source(&mut store, &src, &opts, now, 2, 3);
    let h1 = r1.expect("first call should succeed").signed_header.header.height;
    let entries_after_first = store.entries.len();
    let r2 = verify_to_height_with_source(&mut store, &src, &opts, now, 2, 3);
    let h2 = r2.expect("second call should succeed").signed_header.header.height;
    assert_eq!(h1, h2);
    assert_eq!(store.entries.len(), entries_after_first);
}

#[test]
fn invalid_candidate_marked_failed() {
    let vs = valset(vec![val(1, 100)]);
    let trusted = block(CHAIN, 1, T0, &vs, &vs, &vs.validators.clone(), 1, 9);
    let mut b2 = block(CHAIN, 2, T0 + 10, &vs, &vs, &vs.validators.clone(), 2, 9);
    b2.signed_header.commit.signatures[0].signature ^= 1;
    let mut store = LightStore::new();
    store.insert(trusted, Status::Trusted);
    let src = BlockSource { peer_id: 9, blocks: vec![b2], fail: None };
    let opts = options(1, 3, HOUR, 0);
    let r = verify_to_height_with_source(&mut store, &src, &opts, Time { nanos: T0 + 100 }, 2, 3);
    assert!(matches!(r, Err(Error::InvalidLightBlock(_))));
    assert!(store.get(2, Status::Failed).is_some());
    assert!(store.get(2, Status::Verified).is_none());
}

#[test]
fn missing_target_height_is_io_error() {
    let vs = valset(vec![val(1, 100)]);
    let trusted = block(CHAIN, 1, T0, &vs, &vs, &vs.validators.clone(), 1, 9);
    let mut store = LightStore::new();
    store.insert(trusted, Status::Trusted);
    let src = BlockSource { peer_id: 9, blocks: vec![], fail: None };
    let opts = options(1, 3, HOUR, 0);
    let r = verify_to_height_with_source(&mut store, &src, &opts, Time { nanos: T0 + 100 }, 5, 3);
    assert!(matches!(r, Err(Error::Io(IoErrorKind::HeightTooHigh))));
}

#[test]
fn target_lower_than_trusted_state() {
    let vs = valset(vec![val(1, 100)]);
    let trusted = block(CHAIN, 5, T0, &vs, &vs, &vs.validators.clone(), 1, 9);
    let mut store = LightStore::new();
    store.insert(trusted, Status::Trusted);
    let src = BlockSource { peer_id: 9, blocks: vec![], fail: None };
    let opts = options(1, 3, HOUR, 0);
    let r = verify_to_height_with_source(&mut store, &src, &opts, Time { nanos: T0 + 100 }, 3, 3);
    assert!(matches!(
        r,
        Err(Error::TargetLowerThanTrustedState { target_height: 3, trusted_height: 5 })
    ));
}

#[test]
fn empty_store_has_no_initial_trusted_state() {
    let mut store = LightStore::new();
    let src = BlockSource { peer_id: 9, blocks: vec![], fail: None };
    let opts = options(1, 3, HOUR, 0);
    let r = verify_to_height_with_source(&mut store, &src, &opts, Time { nanos: T0 }, 2, 3);
    assert!(matches!(r, Err(Error::NoInitialTrustedState)));
}

#[test]
fn fork_detected_with_divergent_witness() {
    let four = valset(vec![val(1, 25), val(2, 25), val(3, 25), val(4, 25)]);
    let trusted = block(CHAIN, 1, T0, &four, &four, &four.validators.clone(), 1, 9);
    // primary and witness both serve internally valid blocks at 100 whose
    // header hashes differ (different app hashes)
    let p100 = block(CHAIN, 100, T0 + 100, &four, &four, &four.validators.clone(), 2, 9);
    let w100 = block(CHAIN, 100, T0 + 100, &four, &four, &four.validators.clone(), 3, 8);
    let mut store = LightStore::new();
    store.insert(trusted, Status::Trusted);
    let primary = BlockSource { peer_id: 9, blocks: vec![p100], fail: None };
    let witness = BlockSource { peer_id: 8, blocks: vec![w100], fail: None };
    let mut sup = Supervisor {
        store,
        primary,
        witnesses: vec![witness],
        options: options(1, 3, HOUR, 0),
        max_retries: 3,
        reported: vec![],
        evidence_outbox: vec![],
    };
    let r = sup.verify_to_height(100, Time { nanos: T0 + 200 });
    match r {
        Err(Error::ForkDetected(peers)) => assert_eq!(peers, vec![8]),
        other => panic!("expected a detected fork, got {:?}", other),
    }
    assert_eq!(sup.evidence_outbox.len(), 1);
    assert_eq!(sup.evidence_outbox[0].witness_id, 8);
    assert_eq!(sup.evidence_outbox[0].conflict_height, 100);
    // the disputed trace is not committed
    assert!(sup.store.get(100, Status::Verified).is_none());
}

#[test]
fn witness_timeout_leaves_no_witnesses() {
    let vs = valset(vec![val(1, 100)]);
    let trusted = block(CHAIN, 1, T0, &vs, &vs, &vs.validators.clone(), 1, 9);
    let p2 = block(CHAIN, 2, T0 + 10, &vs, &vs, &vs.validators.clone(), 2, 9);
    let mut store = LightStore::new();
    store.insert(trusted, Status::Trusted);
    let primary = BlockSource { peer_id: 9, blocks: vec![p2], fail: None };
    let witness = BlockSource {
        peer_id: 8,
        blocks: vec![],
        fail: Some(IoErrorKind::Timeout(Duration { nanos: 1_000_000 })),
    };
    let mut sup = Supervisor {
        store,
        primary,
        witnesses: vec![witness],
        options: options(1, 3, HOUR, 0),
        max_retries: 3,
        reported: vec![],
        evidence_outbox: vec![],
    };
    let r = sup.verify_to_height(2, Time { nanos: T0 + 100 });
    assert!(matches!(r, Err(Error::NoWitnessesLeft)));
    // the primary's trace is not committed
    assert!(sup.store.get(2, Status::Verified).is_none());
}

#[test]
fn agreeing_witness_commits_trace() {
    let vs = valset(vec![val(1, 100)]);
    let trusted = block(CHAIN, 1, T0, &vs, &vs, &vs.validators.clone(), 1, 9);
    let b2 = block(CHAIN, 2, T0 + 10, &vs, &vs, &vs.validators.clone(), 2, 9);
    let mut store = LightStore::new();
    store.insert(trusted, Status::Trusted);
    let primary = BlockSource { peer_id: 9, blocks: vec![b2.clone()], fail: None };
    let witness = BlockSource { peer_id: 8, blocks: vec![b2], fail: None };
    let mut sup = Supervisor {
        store,
        primary,
        witnesses: vec![witness],
        options: options(1, 3, HOUR, 0),
        max_retries: 3,
        reported: vec![],
        evidence_outbox: vec![],
    };
    let r = sup.verify_to_height(2, Time { nanos: T0 + 100 });
    let got = r.expect("an agreeing witness should let the trace commit");
    assert_eq!(got.signed_header.header.height, 2);
    assert!(sup.store.get(2, Status::Verified).is_some());
    let latest = sup.latest_trusted().expect("a trusted block exists");
    assert_eq!(latest.signed_header.header.height, 2);
}

#[test]
fn no_witnesses_is_refused() {
    let vs = valset(vec![val(1, 100)]);
    let trusted = block(CHAIN, 1, T0, &vs, &vs, &vs.validators.clone(), 1, 9);
    let b2 = block(CHAIN, 2, T0 + 10, &vs, &vs, &vs.validators.clone(), 2, 9);
    let mut store = LightStore::new();
    store.insert(trusted, Status::Trusted);
    let primary = BlockSource { peer_id: 9, blocks: vec![b2], fail: None };
    let mut sup = Supervisor {
        store,
        primary,
        witnesses: vec![],
        options: options(1, 3, HOUR, 0),
        max_retries: 3,
        reported: vec![],
        evidence_outbox: vec![],
    };
    let r = sup.verify_to_height(2, Time { nanos: T0 + 100 });
    assert!(matches!(r, Err(Error::NoWitnesses)));
}

#[test]
fn evidence_reporting_deduplicates() {
    let four = valset(vec![val(1, 25), val(2, 25), val(3, 25), val(4, 25)]);
    let trusted = block(CHAIN, 1, T0, &four, &four, &four.validators.clone(), 1, 9);
    let p100 = block(CHAIN, 100, T0 + 100, &four, &four, &four.validators.clone(), 2, 9);
    let w100 = block(CHAIN, 100, T0 + 100, &four, &four, &four.validators.clone(), 3, 8);
    let mut store = LightStore::new();
    store.insert(trusted, Status::Trusted);
    let primary = BlockSource { peer_id: 9, blocks: vec![p100], fail: None };
    let witness = BlockSource { peer_id: 8, blocks: vec![w100], fail: None };
    let mut sup = Supervisor {
        store,
        primary,
        witnesses: vec![witness],
        options: options(1, 3, HOUR, 0),
        max_retries: 3,
        reported: vec![],
        evidence_outbox: vec![],
    };
    let now = Time { nanos: T0 + 200 };
    let _ = sup.verify_to_height(100, now);
    assert_eq!(sup.evidence_outbox.len(), 1);
    // the same fork reported again adds nothing
    let _ = sup.verify_to_height(100, now);
    assert_eq!(sup.evidence_outbox.len(), 1);
}

#[test]
fn store_get_insert_update_highest() {
    let vs = valset(vec![val(1, 100)]);
    let b1 = block(CHAIN, 1, T0, &vs, &vs, &vs.validators.clone(), 1, 9);
    let b3 = block(CHAIN, 3, T0 + 30, &vs, &vs, &vs.validators.clone(), 3, 9);
    let b2 = block(CHAIN, 2, T0 + 20, &vs, &vs, &vs.validators.clone(), 2, 9);
    let mut store = LightStore::new();
    store.insert(b1, Status::Trusted);
    store.insert(b3, Status::Verified);
    store.insert(b2.clone(), Status::Unverified);
    assert!(store.get(1, Status::Trusted).is_some());
    assert!(store.get(2, Status::Unverified).is_some());
    assert!(store.get(2, Status::Verified).is_none());
    let highest = store.highest_trusted_or_verified().expect("store is seeded");
    assert_eq!(highest.signed_header.header.height, 3);
    store.update(b2, Status::Verified);
    assert!(store.get(2, Status::Verified).is_some());
    assert!(store.get(2, Status::Unverified).is_none());
    let heights = store.all_heights(Status::Verified);
    assert_eq!(heights, vec![2, 3]);
}

#[test]
fn contract_predicates() {
    let vs = valset(vec![val(1, 100)]);
    let b1 = block(CHAIN, 1, T0, &vs, &vs, &vs.validators.clone(), 1, 9);
    let mut store = LightStore::new();
    assert!(!trusted_store_contains_block_at_target_height(&store, 1));
    store.insert(b1.clone(), Status::Trusted);
    assert!(trusted_store_contains_block_at_target_height(&store, 1));
    assert!(!trusted_store_contains_block_at_target_height(&store, 2));
    let period = Duration { nanos: HOUR };
    assert!(is_within_trust_period(&b1, period, Time { nanos: T0 + 100 }));
    assert!(!is_within_trust_period(&b1, period, Time { nanos: T0 + HOUR }));
    assert!(light_store_contains_block_within_trusting_period(&store, period, Time { nanos: T0 + 100 }));
    assert!(!light_store_contains_block_within_trusting_period(&store, period, Time { nanos: T0 + 2 * HOUR }));
}

#[test]
fn fetch_retries_and_errors() {
    let vs = valset(vec![val(1, 100)]);
    let b1 = block(CHAIN, 1, T0, &vs, &vs, &vs.validators.clone(), 1, 9);
    let healthy = BlockSource { peer_id: 9, blocks: vec![b1], fail: None };
    assert!(healthy.fetch_with_retries(1, 3).is_ok());
    assert!(matches!(
        healthy.fetch_with_retries(7, 3),
        Err(IoErrorKind::HeightTooHigh)
    ));
    let broken = BlockSource { peer_id: 9, blocks: vec![], fail: Some(IoErrorKind::Transport) };
    assert!(matches!(broken.fetch_with_retries(1, 3), Err(IoErrorKind::Transport)));
    assert!(IoErrorKind::Transport.is_retryable());
    assert!(IoErrorKind::Timeout(Duration { nanos: 5 }).is_retryable());
    assert!(!IoErrorKind::HeightTooHigh.is_retryable());
    assert!(!IoErrorKind::InvalidResponse.is_retryable());
}

#[test]
fn error_inspection_methods() {
    let timeout = Error::Io(IoErrorKind::Timeout(Duration { nanos: 42 }));
    assert_eq!(timeout.is_timeout(), Some(Duration { nanos: 42 }));
    assert!(timeout.is_io());
    assert!(!timeout.has_expired());
    let expired = Error::TrustedStateOutsideTrustingPeriod;
    assert!(expired.has_expired());
    assert!(expired.is_timeout().is_none());
    let high = Error::HeightTooHigh { height: 10, latest_height: 5 };
    assert!(high.is_height_too_high());
    assert!(!high.is_io());
}

#[test]
fn midpoint_is_strictly_between() {
    assert_eq!(midpoint(1, 100), 50);
    assert_eq!(midpoint(1, 3), 2);
    assert_eq!(midpoint(10, 12), 11);
    let m = midpoint(7, 93);
    assert!(7 < m && m < 93);
}

#[test]
fn client_builder_holds_buffer_size() {
    let b = ClientBuilder::new(4096);
    assert_eq!(b.read_buf_size, 4096);
    let d = ClientBuilder::default();
    assert_eq!(d.read_buf_size, DEFAULT_CLIENT_READ_BUF_SIZE);
}

#[test]
fn channel_errors_map_to_disconnected() {
    let (tx, rx) = crossbeam_channel::bounded::<u32>(0);
    drop(rx);
    let send_err = tx.send(5).unwrap_err();
    assert!(matches!(Error::send(send_err), Error::ChannelDisconnected));
    let (tx2, rx2) = crossbeam_channel::bounded::<u32>(0);
    drop(tx2);
    let recv_err = rx2.recv().unwrap_err();
    assert!(matches!(Error::recv(recv_err), Error::ChannelDisconnected));
}

#[test]
fn expired_trusted_root_blocks_despite_live_verified_frontier() {
    let vs = valset(vec![val(1, 100)]);
    let trusted = block(CHAIN, 1, T0, &vs, &vs, &vs.validators.clone(), 1, 9);
    let v2 = block(CHAIN, 2, T0 + 2 * HOUR, &vs, &vs, &vs.validators.clone(), 2, 9);
    let mut store = LightStore::new();
    store.insert(trusted, Status::Trusted);
    store.insert(v2, Status::Verified);
    let b3 = block(CHAIN, 3, T0 + 2 * HOUR + 10, &vs, &vs, &vs.validators.clone(), 3, 9);
    let src = BlockSource { peer_id: 9, blocks: vec![b3], fail: None };
    let opts = options(1, 3, HOUR, 0);
    // the Verified frontier at height 2 is still fresh, but every Trusted
    // block has aged out: the trust root must be re-seeded
    let now = Time { nanos: T0 + 2 * HOUR + 100 };
    let r = verify_to_height_with_source(&mut store, &src, &opts, now, 3, 3);
    assert!(matches!(r, Err(Error::TrustedStateOutsideTrustingPeriod)));
    assert!(store.get(3, Status::Verified).is_none());
    assert!(store.get(3, Status::Failed).is_none());
}

#[test]
fn verified_only_store_has_no_initial_trusted_state() {
    let vs = valset(vec![val(1, 100)]);
    let v1 = block(CHAIN, 1, T0, &vs, &vs, &vs.validators.clone(), 1, 9);
    let b2 = block(CHAIN, 2, T0 + 10, &vs, &vs, &vs.validators.clone(), 2, 9);
    let mut store = LightStore::new();
    store.insert(v1, Status::Verified);
    let src = BlockSource { peer_id: 9, blocks: vec![b2], fail: None };
    let opts = options(1, 3, HOUR, 0);
    let r = verify_to_height_with_source(&mut store, &src, &opts, Time { nanos: T0 + 100 }, 2, 3);
    assert!(matches!(r, Err(Error::NoInitialTrustedState)));
}

#[test]
fn verify_to_latest_reaches_primary_latest_height() {
    let vs = valset(vec![val(1, 100)]);
    let trusted = block(CHAIN, 1, T0, &vs, &vs, &vs.validators.clone(), 1, 9);
    let b2 = block(CHAIN, 2, T0 + 10, &vs, &vs, &vs.validators.clone(), 2, 9);
    let b3 = block(CHAIN, 3, T0 + 20, &vs, &vs, &vs.validators.clone(), 3, 9);
    let mut store = LightStore::new();
    store.insert(trusted, Status::Trusted);
    let primary = BlockSource { peer_id: 9, blocks: vec![b2.clone(), b3.clone()], fail: None };
    let witness = BlockSource { peer_id: 8, blocks: vec![b2, b3], fail: None };
    let mut sup = Supervisor {
        store,
        primary,
        witnesses: vec![witness],
        options: options(1, 3, HOUR, 0),
        max_retries: 3,
        reported: vec![],
        evidence_outbox: vec![],
    };
    let got = sup.verify_to_latest(Time { nanos: T0 + 100 }).expect("latest should verify");
    assert_eq!(got.signed_header.header.height, 3);
    assert!(sup.store.get(3, Status::Verified).is_some());
}

#[test]
fn latest_trusted_is_the_frontier() {
    let vs = valset(vec![val(1, 100)]);
    let b1 = block(CHAIN, 1, T0, &vs, &vs, &vs.validators.clone(), 1, 9);
    let b5 = block(CHAIN, 5, T0 + 50, &vs, &vs, &vs.validators.clone(), 5, 9);
    let mut store = LightStore::new();
    store.insert(b1, Status::Trusted);
    store.insert(b5, Status::Verified);
    let sup = Supervisor {
        store,
        primary: BlockSource { peer_id: 9, blocks: vec![], fail: None },
        witnesses: vec![],
        options: options(1, 3, HOUR, 0),
        max_retries: 3,
        reported: vec![],
        evidence_outbox: vec![],
    };
    let latest = sup.latest_trusted().expect("the store is seeded");
    assert_eq!(latest.signed_header.header.height, 5);
}
