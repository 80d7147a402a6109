//! The supervisor: composes the bisection driver, the fork detector and the
//! evidence reporter over one primary and a set of witnesses. Witness
//! cross-checking runs on ephemeral traces; the primary's trace is committed
//! to the store only when no witness disagrees.

use vstd::prelude::*;
use crate::bisection::{bisect_trace, commit_trace, lemma_same_root_source_conditions, serves_direct_success, serves_verifiable_range};
use crate::errors::Error;
use crate::io::BlockSource;
use crate::store::LightStore;
use crate::types::{Height, LightBlock, PeerId, Status, Time, same_block};
use crate::verification::{Options, lemma_same_block_props};

verus! {

/// A record proving a fork: the two internally valid blocks claiming the same
/// height, and the trusted height both descend from.
pub struct Evidence {
    pub common_height: Height,
    pub conflict_height: Height,
    pub primary_block: LightBlock,
    pub witness_block: LightBlock,
    pub witness_id: PeerId,
}

/// What deduplicates evidence within a process lifetime. One supervisor
/// serves one chain, so the chain id is not part of the key.
#[derive(Clone, Copy, PartialEq, Eq, Structural, Debug)]
pub struct EvidenceKey {
    pub conflict_height: Height,
    pub primary_hash: crate::types::Hash,
    pub witness_hash: crate::types::Hash,
}

/// The fork detector's answer when it does not abort.
pub enum Detection {
    NoForks,
    Forks(Vec<Evidence>),
}

/// Whether this witness serves, at the primary target's height, a block
/// whose header bears the same canonical digest.
pub open spec fn witness_agrees(w: BlockSource, primary_target: LightBlock) -> bool {
    &&& w.fail is None
    &&& w.has_block(primary_target.height())
    &&& crate::hashing::hash_header_spec(w.block_at(primary_target.height()).signed_header.header)
        == crate::hashing::hash_header_spec(primary_target.signed_header.header)
}

/// Whether this witness serves a different header at that height and can
/// back its own chain from the shared root: the condition under which a fork
/// is owed.
pub open spec fn witness_diverges(w: BlockSource, primary_target: LightBlock, root: LightBlock, options: Options, now: Time) -> bool {
    &&& w.fail is None
    &&& w.has_block(primary_target.height())
    &&& crate::hashing::hash_header_spec(w.block_at(primary_target.height()).signed_header.header)
        != crate::hashing::hash_header_spec(primary_target.signed_header.header)
    &&& (serves_direct_success(w, root, primary_target.height(), options, now)
        || serves_verifiable_range(w, root, primary_target.height(), options, now))
}

/// Cross-check the primary's block at the target height against every
/// witness. A witness that serves the same header hash agrees; one that
/// serves a different hash and can verify its own chain from the same trusted
/// root proves a fork; one whose chain fails verification is faulty; one that
/// cannot be reached is dropped. With no witness at all the check is refused;
/// with every witness faulty or dropped nothing was cross-checked. Evidence
/// pairs the conflicting headers at the target height — the first height this
/// detector examines for divergence — over the shared root height.
pub fn detect_forks(
    primary_target: &LightBlock,
    trusted_root: &LightBlock,
    witnesses: &Vec<BlockSource>,
    options: &Options,
    now: Time,
    max_retries: u64,
) -> (r: Result<Detection, Error>)
    requires
        trusted_root.wf(),
        options.wf(),
        primary_target.height() > trusted_root.height(),
        forall|i: int| 0 <= i < witnesses@.len() ==> (#[trigger] witnesses@[i]).wf(),
    ensures
        witnesses@.len() == 0 ==> (r matches Err(e) && e is NoWitnesses),
        r matches Ok(d) ==> match d {
            Detection::NoForks => true,
            Detection::Forks(evs) => evs@.len() > 0
                && forall|k: int| 0 <= k < evs@.len() ==> ({
                    &&& (#[trigger] evs@[k]).witness_block.basic_wf()
                    &&& evs@[k].conflict_height == primary_target.height()
                    &&& evs@[k].common_height == trusted_root.height()
                    &&& crate::hashing::hash_header_spec(evs@[k].witness_block.signed_header.header)
                        != crate::hashing::hash_header_spec(primary_target.signed_header.header)
                }),
        },
        r matches Err(e) ==> (e is NoWitnesses || e is NoWitnessesLeft),
        // an agreeing witness rules out aborting
        (exists|i: int| 0 <= i < witnesses@.len()
            && witness_agrees(#[trigger] witnesses@[i], *primary_target)) ==> r is Ok,
        // every witness agreeing or unreachable, and at least one agreeing:
        // no fork is raised
        ((forall|i: int| 0 <= i < witnesses@.len()
            ==> witness_agrees(#[trigger] witnesses@[i], *primary_target)
                || witnesses@[i].fail is Some)
            && (exists|i: int| 0 <= i < witnesses@.len()
                && witness_agrees(#[trigger] witnesses@[i], *primary_target)))
            ==> (r matches Ok(d) && d is NoForks),
        // every witness unreachable: nothing was cross-checked
        (witnesses@.len() > 0
            && forall|i: int| 0 <= i < witnesses@.len()
                ==> (#[trigger] witnesses@[i]).fail is Some)
            ==> (r matches Err(e) && e is NoWitnessesLeft),
        // a divergent witness able to back its chain forces a fork naming it
        forall|i: int|
            (0 <= i < witnesses@.len()
                && witness_diverges(#[trigger] witnesses@[i], *primary_target, *trusted_root, *options, now))
            ==> (r matches Ok(d) && d matches Detection::Forks(evs)
                && exists|k: int| 0 <= k < evs@.len()
                    && evs@[k].witness_id == witnesses@[i].peer_id),
{
    if witnesses.len() == 0 {
        return Err(Error::NoWitnesses);
    }
    let target_height = primary_target.signed_header.header.height;
    let primary_hash = crate::hashing::hash_header(&primary_target.signed_header.header);
    let mut forks: Vec<Evidence> = Vec::new();
    let mut agreed: u64 = 0;
    let mut w: usize = 0;
    while w < witnesses.len()
        invariant
            w <= witnesses@.len(),
            trusted_root.wf(),
            options.wf(),
            primary_target.height() > trusted_root.height(),
            forall|i: int| 0 <= i < witnesses@.len() ==> (#[trigger] witnesses@[i]).wf(),
            target_height == primary_target.height(),
            primary_hash == crate::hashing::hash_header_spec(primary_target.signed_header.header),
            forall|k: int| 0 <= k < forks@.len() ==> ({
                &&& (#[trigger] forks@[k]).witness_block.basic_wf()
                &&& forks@[k].conflict_height == primary_target.height()
                &&& forks@[k].common_height == trusted_root.height()
                &&& crate::hashing::hash_header_spec(forks@[k].witness_block.signed_header.header)
                    != crate::hashing::hash_header_spec(primary_target.signed_header.header)
            }),
            agreed > 0 || forall|i: int| 0 <= i < w
                ==> !witness_agrees(#[trigger] witnesses@[i], *primary_target),
            (forall|i: int| 0 <= i < witnesses@.len()
                ==> (#[trigger] witnesses@[i]).fail is Some)
                ==> agreed == 0 && forks@.len() == 0,
            (forall|i: int| 0 <= i < witnesses@.len()
                ==> witness_agrees(#[trigger] witnesses@[i], *primary_target)
                    || witnesses@[i].fail is Some)
                ==> forks@.len() == 0,
            forall|i: int| (0 <= i < w
                && witness_diverges(#[trigger] witnesses@[i], *primary_target, *trusted_root, *options, now))
                ==> exists|k: int| 0 <= k < forks@.len()
                    && forks@[k].witness_id == witnesses@[i].peer_id,
        decreases witnesses@.len() - w,
    {
        let witness = &witnesses[w];
        let ghost old_forks = forks@;
        match witness.fetch_with_retries(target_height, max_retries) {
            Err(_) => {
                // unreachable or failing witness: dropped from this round
                proof {
                    assert(!witness_agrees(witnesses@[w as int], *primary_target));
                    assert(!witness_diverges(witnesses@[w as int], *primary_target, *trusted_root, *options, now));
                }
            },
            Ok(wb) => {
                proof {
                    lemma_same_block_props(wb, witnesses@[w as int].block_at(target_height));
                }
                let wb_hash = crate::hashing::hash_header(&wb.signed_header.header);
                if wb_hash == primary_hash {
                    proof {
                        assert(witness_agrees(witnesses@[w as int], *primary_target));
                        assert(!witness_diverges(witnesses@[w as int], *primary_target, *trusted_root, *options, now));
                    }
                    agreed = if agreed < u64::MAX { agreed + 1 } else { agreed };
                } else {
                    // the witness disagrees: can it back its own chain?
                    proof {
                        assert(!witness_agrees(witnesses@[w as int], *primary_target));
                    }
                    let root_copy = crate::types::copy_block(trusted_root);
                    proof {
                        lemma_same_block_props(root_copy, *trusted_root);
                        lemma_same_root_source_conditions(root_copy, *trusted_root, witnesses@[w as int], target_height, *options, now);
                    }
                    match bisect_trace(root_copy, witness, options, now, target_height, max_retries) {
                        Ok(_wtrace) => {
                            // the witness backed its chain: the fetched block
                            // at the target is the conflicting header
                            forks.push(Evidence {
                                common_height: trusted_root.signed_header.header.height,
                                conflict_height: target_height,
                                primary_block: crate::types::copy_block(primary_target),
                                witness_block: wb,
                                witness_id: witness.peer_id,
                            });
                            proof {
                                assert(forks@[forks@.len() - 1].witness_id == witnesses@[w as int].peer_id);
                                assert forall|i: int| (0 <= i < w + 1
                                    && witness_diverges(#[trigger] witnesses@[i], *primary_target, *trusted_root, *options, now))
                                    implies exists|k: int| 0 <= k < forks@.len()
                                        && forks@[k].witness_id == witnesses@[i].peer_id by {
                                    if i < w {
                                        let k = choose|k: int| 0 <= k < old_forks.len()
                                            && old_forks[k].witness_id == witnesses@[i].peer_id;
                                        assert(forks@[k].witness_id == witnesses@[i].peer_id);
                                    } else {
                                        assert(forks@[forks@.len() - 1].witness_id == witnesses@[i].peer_id);
                                    }
                                }
                            }
                        },
                        Err(_) => {
                            // verifiable fault on the witness side: not a fork
                            proof {
                                assert(!witness_diverges(witnesses@[w as int], *primary_target, *trusted_root, *options, now));
                            }
                        },
                    }
                }
            },
        }
        w = w + 1;
    }
    if forks.len() > 0 {
        Ok(Detection::Forks(forks))
    } else if agreed > 0 {
        Ok(Detection::NoForks)
    } else {
        Err(Error::NoWitnessesLeft)
    }
}

/// The store's frontier: `hb` is the greatest height holding a `Trusted` or
/// `Verified` block, that block is still within the trusting period, and some
/// `Trusted` block is too.
pub open spec fn live_frontier(s: LightStore, hb: Height, options: Options, now: Time) -> bool {
    &&& crate::contracts::has_live_trusted(s, options.trusting_period, now)
    &&& crate::bisection::tv_at(s, hb)
    &&& forall|h2: Height| h2 > hb ==> !crate::bisection::tv_at(s, h2)
    &&& crate::contracts::within_trust_period(crate::bisection::tv_block(s, hb), options.trusting_period, now)
}

/// Whether the primary can supply what bisection needs from this root: a
/// direct answer the root accepts, or a fully served verifiable range.
pub open spec fn primary_can_answer(p: BlockSource, root: LightBlock, target: Height, options: Options, now: Time) -> bool {
    serves_direct_success(p, root, target, options, now)
        || serves_verifiable_range(p, root, target, options, now)
}

/// One light-client instance: its store, its peers, its options, and the
/// evidence it has reported so far.
pub struct Supervisor {
    pub store: LightStore,
    pub primary: BlockSource,
    pub witnesses: Vec<BlockSource>,
    pub options: Options,
    pub max_retries: u64,
    pub reported: Vec<EvidenceKey>,
    pub evidence_outbox: Vec<Evidence>,
}

impl Supervisor {
    pub open spec fn wf(self) -> bool {
        &&& self.store.wf()
        &&& self.primary.wf()
        &&& forall|i: int| 0 <= i < self.witnesses@.len() ==> (#[trigger] self.witnesses@[i]).wf()
        &&& self.options.wf()
    }

    /// The highest block the store holds as `Trusted` or `Verified`, copied
    /// out.
    pub fn latest_trusted(&self) -> (r: Option<LightBlock>)
        requires
            self.wf(),
        ensures
            match r {
                Some(b) => ({
                    &&& b.wf()
                    &&& crate::bisection::tv_at(self.store, b.height())
                    &&& same_block(b, crate::bisection::tv_block(self.store, b.height()))
                    &&& forall|h: Height| h > b.height() ==> !crate::bisection::tv_at(self.store, h)
                }),
                None => forall|h: Height| !crate::bisection::tv_at(self.store, h),
            },
    {
        match self.store.highest_trusted_or_verified() {
            Some(b) => {
                let out = crate::types::copy_block(b);
                proof {
                    lemma_same_block_props(out, *b);
                }
                Some(out)
            },
            None => None,
        }
    }

    /// Record one piece of evidence for the transport, once: a second report
    /// with the same conflicting hash pair at the same height changes
    /// nothing.
    pub fn report_evidence(&mut self, ev: Evidence) -> (r: Result<(), Error>)
        ensures
            r is Ok,
            final(self).store == old(self).store,
            final(self).primary == old(self).primary,
            final(self).witnesses == old(self).witnesses,
            final(self).options == old(self).options,
            final(self).max_retries == old(self).max_retries,
            final(self).reported@.contains(evidence_key(ev)),
            old(self).reported@.contains(evidence_key(ev))
                ==> final(self).reported@ == old(self).reported@
                    && final(self).evidence_outbox@ == old(self).evidence_outbox@,
            !old(self).reported@.contains(evidence_key(ev))
                ==> final(self).reported@ == old(self).reported@.push(evidence_key(ev))
                    && final(self).evidence_outbox@ == old(self).evidence_outbox@.push(ev),
    {
        let key = EvidenceKey {
            conflict_height: ev.conflict_height,
            primary_hash: ev.primary_block.signed_header.commit.block_id_hash,
            witness_hash: ev.witness_block.signed_header.commit.block_id_hash,
        };
        proof {
            assert(key == evidence_key(ev));
        }
        let mut i: usize = 0;
        while i < self.reported.len()
            invariant
                i <= self.reported@.len(),
                key == evidence_key(ev),
                forall|j: int| 0 <= j < i ==> self.reported@[j] != key,
                *self == *old(self),
            decreases self.reported@.len() - i,
        {
            if self.reported[i] == key {
                proof {
                    assert(self.reported@[i as int] == key);
                    assert(self.reported@.contains(key));
                }
                return Ok(());
            }
            i = i + 1;
        }
        self.reported.push(key);
        self.evidence_outbox.push(ev);
        proof {
            assert(self.reported@[self.reported@.len() - 1] == key);
            assert(self.reported@.contains(key));
        }
        Ok(())
    }

    /// Establish verified trust in the primary's block at `target_height`,
    /// then cross-check it against every witness; commit the newly verified
    /// chain only when no witness proves a fork. Detected forks are recorded
    /// as evidence and reported as an error naming the forking peers.
    #[verifier::rlimit(100)]
    #[verifier::spinoff_prover]
    pub fn verify_to_height(&mut self, target_height: Height, now: Time) -> (r: Result<LightBlock, Error>)
        requires
            old(self).wf(),
            target_height >= 1,
        ensures
            final(self).wf(),
            final(self).primary == old(self).primary,
            final(self).witnesses == old(self).witnesses,
            final(self).options == old(self).options,
            forall|h: Height, s: Status|
                final(self).store.get_spec(h, s) != old(self).store.get_spec(h, s)
                    ==> (s is Verified || s is Failed) && h <= target_height,
            r matches Ok(b) ==> b.wf() && b.height() == target_height
                && (final(self).store.get_spec(target_height, Status::Verified) is Some
                    || final(self).store.get_spec(target_height, Status::Trusted) is Some),
            // with no witness nothing can be cross-checked: refused up front
            old(self).witnesses@.len() == 0
                ==> (r matches Err(e) && e is NoWitnesses)
                    && final(self).store == old(self).store,
            // without a Trusted block within the trusting period, refused
            // before any fetch or write
            old(self).witnesses@.len() > 0
                && !crate::contracts::has_live_trusted(old(self).store, old(self).options.trusting_period, now)
                ==> (r matches Err(e)
                    && (e is NoInitialTrustedState || e is TrustedStateOutsideTrustingPeriod))
                    && final(self).store == old(self).store,
            // a target already at hand under a live frontier is answered from
            // the store with no write
            forall|hb: Height|
                (old(self).witnesses@.len() > 0
                    && live_frontier(old(self).store, hb, old(self).options, now)
                    && target_height <= hb
                    && crate::bisection::tv_at(old(self).store, target_height))
                ==> r is Ok && final(self).store == old(self).store,
            // success is owed: a live frontier, a primary able to answer, and
            // every witness agreeing or unreachable with one agreeing
            forall|hb: Height|
                (old(self).witnesses@.len() > 0
                    && live_frontier(old(self).store, hb, old(self).options, now)
                    && hb < target_height
                    && primary_can_answer(old(self).primary, crate::bisection::tv_block(old(self).store, hb), target_height, old(self).options, now)
                    && (forall|i: int| 0 <= i < old(self).witnesses@.len()
                        ==> witness_agrees(#[trigger] old(self).witnesses@[i], old(self).primary.block_at(target_height))
                            || old(self).witnesses@[i].fail is Some)
                    && (exists|i: int| 0 <= i < old(self).witnesses@.len()
                        && witness_agrees(#[trigger] old(self).witnesses@[i], old(self).primary.block_at(target_height))))
                ==> r is Ok
                    && final(self).store.get_spec(target_height, Status::Verified) is Some,
            // every witness unreachable: the primary's trace is not committed
            forall|hb: Height|
                (old(self).witnesses@.len() > 0
                    && live_frontier(old(self).store, hb, old(self).options, now)
                    && hb < target_height
                    && primary_can_answer(old(self).primary, crate::bisection::tv_block(old(self).store, hb), target_height, old(self).options, now)
                    && (forall|i: int| 0 <= i < old(self).witnesses@.len()
                        ==> (#[trigger] old(self).witnesses@[i]).fail is Some))
                ==> (r matches Err(e) && e is NoWitnessesLeft)
                    && final(self).store == old(self).store,
            // a fork is owed: a divergent witness able to back its chain from
            // the frontier makes the call fail naming that witness
            forall|hb: Height, i: int|
                (old(self).witnesses@.len() > 0
                    && live_frontier(old(self).store, hb, old(self).options, now)
                    && hb < target_height
                    && primary_can_answer(old(self).primary, crate::bisection::tv_block(old(self).store, hb), target_height, old(self).options, now)
                    && 0 <= i < old(self).witnesses@.len()
                    && witness_diverges(#[trigger] old(self).witnesses@[i], old(self).primary.block_at(target_height), #[trigger] crate::bisection::tv_block(old(self).store, hb), old(self).options, now))
                ==> (r matches Err(e) && e matches Error::ForkDetected(ps)
                    && ps@.contains(old(self).witnesses@[i].peer_id))
                    && final(self).reported@.len() >= 1,
    {
        if self.witnesses.len() == 0 {
            // nothing could cross-check the primary
            return Err(Error::NoWitnesses);
        }
        let latest = match self.store.highest_trusted_or_verified() {
            Some(b) => b,
            None => {
                proof {
                    assert forall|hb: Height| !crate::bisection::tv_at(old(self).store, hb) by {}
                }
                return Err(Error::NoInitialTrustedState);
            },
        };
        proof {
            assert forall|hb: Height|
                (crate::bisection::tv_at(old(self).store, hb)
                    && (forall|h2: Height| h2 > hb ==> !crate::bisection::tv_at(old(self).store, h2)))
                implies hb == latest.height()
                    && crate::bisection::tv_block(old(self).store, hb) == *latest by {
                if hb < latest.height() {
                    assert(crate::bisection::tv_at(old(self).store, latest.height()));
                }
            }
        }
        if !crate::contracts::is_within_trust_period(latest, self.options.trusting_period, now) {
            return Err(Error::TrustedStateOutsideTrustingPeriod);
        }
        if !crate::contracts::light_store_contains_block_within_trusting_period(&self.store, self.options.trusting_period, now) {
            let trusted_heights = self.store.all_heights(Status::Trusted);
            if trusted_heights.len() == 0 {
                return Err(Error::NoInitialTrustedState);
            }
            return Err(Error::TrustedStateOutsideTrustingPeriod);
        }
        let trusted = crate::types::copy_block(latest);
        proof {
            lemma_same_block_props(trusted, *latest);
        }
        if target_height <= trusted.signed_header.header.height {
            match self.store.get(target_height, Status::Verified) {
                Some(b) => {
                    let out = crate::types::copy_block(b);
                    proof {
                        lemma_same_block_props(out, *b);
                    }
                    return Ok(out);
                },
                None => {},
            }
            match self.store.get(target_height, Status::Trusted) {
                Some(b) => {
                    let out = crate::types::copy_block(b);
                    proof {
                        lemma_same_block_props(out, *b);
                    }
                    return Ok(out);
                },
                None => {},
            }
            return Err(Error::TargetLowerThanTrustedState {
                target_height,
                trusted_height: trusted.signed_header.header.height,
            });
        }
        let root = crate::types::copy_block(&trusted);
        proof {
            lemma_same_block_props(root, trusted);
        }
        let max_retries = self.max_retries;
        let options = self.options;
        proof {
            lemma_same_root_source_conditions(trusted, *latest, self.primary, target_height, options, now);
        }
        match bisect_trace(trusted, &self.primary, &options, now, target_height, max_retries) {
            Err(te) => {
                match te.failed {
                    Some(b) => {
                        self.store.insert(b, Status::Failed);
                    },
                    None => {},
                }
                Err(te.error)
            },
            Ok(trace) => {
                let target_block = &trace[trace.len() - 1];
                proof {
                    let tip = trace@[trace@.len() - 1];
                    let served = self.primary.block_at(target_height);
                    lemma_same_block_props(tip, served);
                    assert forall|i: int| 0 <= i < self.witnesses@.len()
                        implies witness_agrees(#[trigger] self.witnesses@[i], tip)
                            == witness_agrees(self.witnesses@[i], served) by {}
                    assert forall|i: int| 0 <= i < self.witnesses@.len()
                        implies witness_diverges(#[trigger] self.witnesses@[i], tip, root, options, now)
                            == witness_diverges(self.witnesses@[i], served, *latest, options, now) by {
                        lemma_same_root_source_conditions(root, *latest, self.witnesses@[i], target_height, options, now);
                    }
                }
                match detect_forks(target_block, &root, &self.witnesses, &options, now, max_retries) {
                    Err(e) => {
                        // no witness could be cross-checked: nothing committed
                        Err(e)
                    },
                    Ok(Detection::Forks(forks)) => {
                        let mut peers: Vec<PeerId> = Vec::new();
                        let mut k: usize = 0;
                        while k < forks.len()
                            invariant
                                k <= forks@.len(),
                                *self == *old(self),
                                peers@.len() == k,
                                forall|j: int| 0 <= j < k
                                    ==> peers@[j] == forks@[j].witness_id,
                            decreases forks@.len() - k,
                        {
                            peers.push(forks[k].witness_id);
                            k = k + 1;
                        }
                        proof {
                            assert forall|i: int|
                                (0 <= i < self.witnesses@.len()
                                    && witness_diverges(#[trigger] self.witnesses@[i], trace@[trace@.len() - 1], root, options, now))
                                implies peers@.contains(self.witnesses@[i].peer_id) by {
                                let kk = choose|kk: int| 0 <= kk < forks@.len()
                                    && forks@[kk].witness_id == self.witnesses@[i].peer_id;
                                assert(peers@[kk] == self.witnesses@[i].peer_id);
                            }
                        }
                        let ghost nforks = forks@.len();
                        let mut forks_left = forks;
                        while forks_left.len() > 0
                            invariant
                                self.store == old(self).store,
                                self.primary == old(self).primary,
                                self.witnesses == old(self).witnesses,
                                self.options == old(self).options,
                                self.wf(),
                                forks_left@.len() <= nforks,
                                forks_left@.len() < nforks ==> self.reported@.len() >= 1,
                            decreases forks_left@.len(),
                        {
                            match forks_left.pop() {
                                Some(ev) => {
                                    let _ = self.report_evidence(ev);
                                },
                                None => {},
                            }
                        }
                        Err(Error::ForkDetected(peers))
                    },
                    Ok(Detection::NoForks) => {
                        commit_trace(&mut self.store, &trace, target_height);
                        let out = crate::types::copy_block(&trace[trace.len() - 1]);
                        proof {
                            lemma_same_block_props(out, trace@[trace@.len() - 1]);
                        }
                        Ok(out)
                    },
                }
            },
        }
    }

    /// Establish verified trust in the primary's latest block: the target is
    /// the greatest height the primary serves.
    pub fn verify_to_latest(&mut self, now: Time) -> (r: Result<LightBlock, Error>)
        requires
            old(self).wf(),
        ensures
            final(self).wf(),
            final(self).primary == old(self).primary,
            final(self).witnesses == old(self).witnesses,
            final(self).options == old(self).options,
            forall|h: Height, s: Status|
                final(self).store.get_spec(h, s) != old(self).store.get_spec(h, s)
                    ==> (s is Verified || s is Failed),
            r matches Ok(b) ==> ({
                &&& b.wf()
                &&& old(self).primary.fail is None
                &&& old(self).primary.has_block(b.height())
                &&& forall|i: int| 0 <= i < old(self).primary.blocks@.len()
                    ==> (#[trigger] old(self).primary.blocks@[i]).height() <= b.height()
                &&& (final(self).store.get_spec(b.height(), Status::Verified) is Some
                    || final(self).store.get_spec(b.height(), Status::Trusted) is Some)
            }),
    {
        let target = match self.primary.fetch_latest() {
            Ok(b) => b.signed_header.header.height,
            Err(k) => {
                return Err(Error::Io(k));
            },
        };
        self.verify_to_height(target, now)
    }
}

/// The deduplication key of a piece of evidence.
pub open spec fn evidence_key(ev: Evidence) -> EvidenceKey {
    EvidenceKey {
        conflict_height: ev.conflict_height,
        primary_hash: ev.primary_block.signed_header.commit.block_id_hash,
        witness_hash: ev.witness_block.signed_header.commit.block_id_hash,
    }
}

} // verus!
