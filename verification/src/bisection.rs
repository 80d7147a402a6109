//! The bisection driver: advances trust from a trusted block to a target
//! height against one peer, fetching intermediate headers as the verifier
//! demands, in a number of steps Verus proves finite.

use vstd::prelude::*;
use crate::errors::Error;
use crate::io::BlockSource;
use crate::scheduler::midpoint;
use crate::store::LightStore;
use crate::types::{Height, LightBlock, Status, Time, same_block};
use crate::verification::{Options, Verdict, verify, verify_spec};
use crate::verification::{lemma_not_enough_trust_gap, lemma_same_block_props,
    lemma_same_candidate_verify, lemma_same_trusted_verify, lemma_success_wf};

verus! {

/// How a bisection attempt failed: the error to surface, and the candidate to
/// mark `Failed`, if one was rejected.
pub struct TraceError {
    pub error: Error,
    pub failed: Option<LightBlock>,
}

/// Whether `trace` is a verification chain out of `root`: ascending heights,
/// every block fully well-formed, and every block drawing `Success` against
/// the one before it (the first against `root`).
pub open spec fn is_trace(root: LightBlock, trace: Seq<LightBlock>, options: Options, now: Time) -> bool {
    &&& forall|i: int| 0 <= i < trace.len() ==> (#[trigger] trace[i]).wf()
    &&& forall|i: int, j: int| 0 <= i < j < trace.len() ==> trace[i].height() < trace[j].height()
    &&& trace.len() > 0 ==> verify_spec(root, trace[0], options, now) == Verdict::Success
    &&& forall|i: int| 1 <= i < trace.len()
        ==> verify_spec(trace[i - 1], #[trigger] trace[i], options, now) == Verdict::Success
}

/// A verdict that lets the driver go on: `Success` or `NotEnoughTrust`.
pub open spec fn benign_verdict(f: LightBlock, c: LightBlock, options: Options, now: Time) -> bool {
    verify_spec(f, c, options, now) is Success || verify_spec(f, c, options, now) is NotEnoughTrust
}

/// The source answers the target height directly with a block the root
/// accepts: bisection then succeeds in one step.
pub open spec fn serves_direct_success(source: BlockSource, root: LightBlock, target: Height, options: Options, now: Time) -> bool {
    &&& source.fail is None
    &&& source.has_block(target)
    &&& verify_spec(root, source.block_at(target), options, now) == Verdict::Success
}

/// The source serves every height from just above the root to the target,
/// and every pair the driver could ever compare draws `Success` or
/// `NotEnoughTrust` (never `Invalid` or `Expired`): bisection then succeeds.
pub open spec fn serves_verifiable_range(source: BlockSource, root: LightBlock, target: Height, options: Options, now: Time) -> bool {
    &&& source.fail is None
    &&& forall|h: Height| root.height() < h <= target ==> #[trigger] source.has_block(h)
    &&& forall|h: Height| root.height() < h <= target
        ==> benign_verdict(root, #[trigger] source.block_at(h), options, now)
    &&& forall|h1: Height, h2: Height| root.height() < h1 < h2 <= target
        ==> benign_verdict(#[trigger] source.block_at(h1), #[trigger] source.block_at(h2), options, now)
}

/// A copy of the root draws the same answers from a source.
pub proof fn lemma_same_root_source_conditions(a: LightBlock, b: LightBlock, source: BlockSource, target: Height, options: Options, now: Time)
    requires
        same_block(a, b),
    ensures
        serves_direct_success(source, a, target, options, now)
            == serves_direct_success(source, b, target, options, now),
        serves_verifiable_range(source, a, target, options, now)
            == serves_verifiable_range(source, b, target, options, now),
{
    lemma_same_block_props(a, b);
    assert forall|h: Height|
        verify_spec(a, #[trigger] source.block_at(h), options, now)
            == verify_spec(b, source.block_at(h), options, now) by {
        lemma_same_trusted_verify(a, b, source.block_at(h), options, now);
    }
}

/// Run bisection from `trusted0` towards `target_height` against one peer.
/// On success the returned trace is a verification chain out of `trusted0`
/// ending exactly at the target. The loop's termination is proved: the gap to
/// the target and the gap to the current candidate shrink lexicographically.
#[verifier::rlimit(100)]
#[verifier::spinoff_prover]
pub fn bisect_trace(
    trusted0: LightBlock,
    source: &BlockSource,
    options: &Options,
    now: Time,
    target_height: Height,
    max_retries: u64,
) -> (r: Result<Vec<LightBlock>, TraceError>)
    requires
        trusted0.wf(),
        source.wf(),
        options.wf(),
        target_height > trusted0.height(),
    ensures
        match r {
            Ok(trace) => {
                &&& trace@.len() >= 1
                &&& trace@[trace@.len() - 1].height() == target_height
                &&& is_trace(trusted0, trace@, *options, now)
                &&& forall|i: int| 0 <= i < trace@.len()
                    ==> source.has_block((#[trigger] trace@[i]).height())
                        && same_block(trace@[i], source.block_at(trace@[i].height()))
            },
            Err(te) => {
                &&& (te.error is Io || te.error is InvalidLightBlock
                    || te.error is TrustedStateOutsideTrustingPeriod)
                &&& match te.failed {
                    Some(b) => b.basic_wf()
                        && trusted0.height() < b.height() <= target_height,
                    None => true,
                }
            },
        },
        // success is owed when the source can supply it: a direct answer the
        // root accepts, or a fully served range free of rejectable blocks
        serves_direct_success(*source, trusted0, target_height, *options, now) ==> r is Ok,
        serves_verifiable_range(*source, trusted0, target_height, *options, now) ==> r is Ok,
{
    let current = match source.fetch_with_retries(target_height, max_retries) {
        Ok(b) => b,
        Err(k) => {
            proof {
                if serves_direct_success(*source, trusted0, target_height, *options, now)
                    || serves_verifiable_range(*source, trusted0, target_height, *options, now) {
                    assert(source.has_block(target_height));
                    assert(false);
                }
            }
            return Err(TraceError { error: Error::Io(k), failed: None });
        },
    };
    let mut trusted = trusted0;
    let ghost groot = trusted;
    let mut trace: Vec<LightBlock> = Vec::new();
    let mut stack: Vec<LightBlock> = Vec::new();
    stack.push(current);
    while stack.len() > 0
        invariant
            source.wf(),
            options.wf(),
            trusted.wf(),
            groot == trusted0,
            groot.height() <= trusted.height() <= target_height,
            // the frontier is the root or mirrors the last committed block
            trace@.len() == 0 ==> trusted == groot,
            trace@.len() > 0 ==> same_block(trusted, trace@[trace@.len() - 1]),
            is_trace(groot, trace@, *options, now),
            trace@.len() > 0 ==> trace@[trace@.len() - 1].height() == trusted.height(),
            forall|i: int| 0 <= i < trace@.len()
                ==> (#[trigger] trace@[i]).height() <= target_height,
            // pending candidates: internally sound, strictly between frontier
            // and target, strictly descending from the bottom of the stack
            forall|i: int| 0 <= i < stack@.len() ==> (#[trigger] stack@[i]).basic_wf(),
            forall|i: int| 0 <= i < stack@.len()
                ==> trusted.height() < (#[trigger] stack@[i]).height() <= target_height,
            forall|i: int, j: int| 0 <= i < j < stack@.len()
                ==> stack@[i].height() > stack@[j].height(),
            stack@.len() > 0 ==> stack@[0].height() == target_height,
            stack@.len() == 0 ==> trusted.height() == target_height,
            // pending and committed blocks mirror what the source serves
            forall|i: int| 0 <= i < stack@.len()
                ==> source.has_block((#[trigger] stack@[i]).height())
                    && same_block(stack@[i], source.block_at(stack@[i].height())),
            forall|i: int| 0 <= i < trace@.len()
                ==> source.has_block((#[trigger] trace@[i]).height())
                    && same_block(trace@[i], source.block_at(trace@[i].height())),
            trusted == groot || (source.has_block(trusted.height())
                && same_block(trusted, source.block_at(trusted.height()))),
            trace@.len() > 0 ==> trusted.height() > groot.height(),
            // a direct answer is resolved in the first step
            serves_direct_success(*source, groot, target_height, *options, now)
                ==> ((stack@.len() == 1 && trace@.len() == 0
                        && same_block(stack@[0], source.block_at(target_height)))
                    || stack@.len() == 0),
        decreases
            target_height - trusted.height(),
            (if stack@.len() > 0 { stack@[stack@.len() - 1].height() - trusted.height() } else { 0int }),
    {
        let candidate = stack.pop().unwrap();
        let ghost direct = serves_direct_success(*source, groot, target_height, *options, now);
        let ghost ranged = serves_verifiable_range(*source, groot, target_height, *options, now);
        let verdict = verify(&trusted, &candidate, options, now);
        proof {
            // under either guarantee the verdict on this candidate is benign
            if direct {
                // the only candidate is the direct answer, judged by the root
                lemma_same_candidate_verify(trusted, candidate, source.block_at(target_height), *options, now);
                assert(verdict == Verdict::Success);
            }
            if ranged {
                let ch = candidate.height();
                lemma_same_candidate_verify(trusted, candidate, source.block_at(ch), *options, now);
                if trace@.len() == 0 {
                    assert(benign_verdict(groot, source.block_at(ch), *options, now));
                } else {
                    let th = trusted.height();
                    lemma_same_trusted_verify(trusted, source.block_at(th), source.block_at(ch), *options, now);
                    assert(benign_verdict(source.block_at(th), source.block_at(ch), *options, now));
                }
                assert(verdict is Success || verdict is NotEnoughTrust);
            }
        }
        match verdict {
            Verdict::Success => {
                proof {
                    lemma_success_wf(trusted, candidate, *options, now);
                }
                let cp = crate::types::copy_block(&candidate);
                proof {
                    lemma_same_block_props(cp, candidate);
                    lemma_same_candidate_verify(trusted, candidate, cp, *options, now);
                    if trace@.len() > 0 {
                        lemma_same_trusted_verify(trusted, trace@[trace@.len() - 1], cp, *options, now);
                    }
                }
                trace.push(cp);
                trusted = candidate;
            },
            Verdict::NotEnoughTrust(_) => {
                proof {
                    lemma_not_enough_trust_gap(trusted, candidate, *options, now);
                }
                let pivot = midpoint(trusted.signed_header.header.height, candidate.signed_header.header.height);
                let mid = match source.fetch_with_retries(pivot, max_retries) {
                    Ok(b) => b,
                    Err(k) => {
                        proof {
                            if ranged {
                                assert(source.has_block(pivot));
                                assert(false);
                            }
                        }
                        return Err(TraceError { error: Error::Io(k), failed: None });
                    },
                };
                stack.push(candidate);
                stack.push(mid);
            },
            Verdict::Invalid(detail) => {
                return Err(TraceError {
                    error: Error::InvalidLightBlock(detail),
                    failed: Some(candidate),
                });
            },
            Verdict::Expired => {
                return Err(TraceError {
                    error: Error::TrustedStateOutsideTrustingPeriod,
                    failed: Some(candidate),
                });
            },
        }
    }
    proof {
        assert(trace@.len() >= 1);
    }
    Ok(trace)
}

/// Commit a verification chain ending at `target_height`: every block is
/// stored `Verified`, in ascending height order, touching nothing else.
pub fn commit_trace(store: &mut LightStore, trace: &Vec<LightBlock>, target_height: Height)
    requires
        old(store).wf(),
        trace@.len() >= 1,
        trace@[trace@.len() - 1].height() == target_height,
        forall|k: int| 0 <= k < trace@.len() ==> (#[trigger] trace@[k]).wf(),
        forall|k: int, l: int| 0 <= k < l < trace@.len()
            ==> trace@[k].height() < trace@[l].height(),
    ensures
        final(store).wf(),
        forall|h: Height, s: Status|
            final(store).get_spec(h, s) != old(store).get_spec(h, s)
                ==> s is Verified && h <= target_height,
        final(store).get_spec(target_height, Status::Verified) is Some,
{
    proof {
        assert forall|k: int| 0 <= k < trace@.len()
            implies (#[trigger] trace@[k]).height() <= target_height by {
            if k < trace@.len() - 1 {
                assert(trace@[k].height() < trace@[trace@.len() - 1].height());
            }
        }
    }
    let mut i: usize = 0;
    while i < trace.len()
        invariant
            store.wf(),
            trace@.len() >= 1,
            i <= trace@.len(),
            trace@[trace@.len() - 1].height() == target_height,
            forall|k: int| 0 <= k < trace@.len() ==> (#[trigger] trace@[k]).wf(),
            forall|k: int, l: int| 0 <= k < l < trace@.len()
                ==> trace@[k].height() < trace@[l].height(),
            forall|k: int| 0 <= k < trace@.len()
                ==> (#[trigger] trace@[k]).height() <= target_height,
            forall|h: Height, s: Status|
                store.get_spec(h, s) != old(store).get_spec(h, s)
                    ==> s is Verified && h <= target_height,
            i == trace@.len() ==> store.get_spec(target_height, Status::Verified) is Some,
        decreases trace@.len() - i,
    {
        let cp = crate::types::copy_block(&trace[i]);
        proof {
            lemma_same_block_props(cp, trace@[i as int]);
        }
        store.insert(cp, Status::Verified);
        i = i + 1;
    }
}

/// Advance trust in `store` to `target_height` against one peer, with no
/// witness cross-checking: the plain driver loop. Nothing is fetched unless
/// the store still holds a `Trusted` block within the trusting period.
/// Newly verified blocks are committed in ascending height order; a rejected
/// candidate is recorded as `Failed`; a target already at hand is returned
/// without any write or fetch.
pub fn verify_to_height_with_source(
    store: &mut LightStore,
    source: &BlockSource,
    options: &Options,
    now: Time,
    target_height: Height,
    max_retries: u64,
) -> (r: Result<LightBlock, Error>)
    requires
        old(store).wf(),
        source.wf(),
        options.wf(),
        target_height >= 1,
    ensures
        final(store).wf(),
        // writes are confined to the Verified and Failed labels, at heights
        // no greater than the target
        forall|h: Height, s: Status|
            final(store).get_spec(h, s) != old(store).get_spec(h, s)
                ==> (s is Verified || s is Failed) && h <= target_height,
        // success hands back the target block, fully verified and committed
        r matches Ok(b) ==> b.wf() && b.height() == target_height
            && (final(store).get_spec(target_height, Status::Verified) is Some
                || final(store).get_spec(target_height, Status::Trusted) is Some),
        // without a Trusted block still within the trusting period, the call
        // is refused before any fetch or write
        !crate::contracts::has_live_trusted(*old(store), options.trusting_period, now)
            ==> (r matches Err(e)
                && (e is NoInitialTrustedState || e is TrustedStateOutsideTrustingPeriod))
                && *final(store) == *old(store),
        // a target already at hand, under a live frontier, is answered from
        // the store with no write: the second of two identical calls changes
        // nothing
        forall|hb: Height|
            (crate::contracts::has_live_trusted(*old(store), options.trusting_period, now)
                && tv_at(*old(store), hb)
                && (forall|h2: Height| h2 > hb ==> !tv_at(*old(store), h2))
                && crate::contracts::within_trust_period(tv_block(*old(store), hb), options.trusting_period, now)
                && target_height <= hb
                && tv_at(*old(store), target_height))
            ==> r is Ok && *final(store) == *old(store),
        // success is owed: a live frontier and a source able to answer (a
        // direct answer the frontier accepts, or a fully served verifiable
        // range) force Ok with the target committed as Verified
        forall|hb: Height|
            (crate::contracts::has_live_trusted(*old(store), options.trusting_period, now)
                && tv_at(*old(store), hb)
                && (forall|h2: Height| h2 > hb ==> !tv_at(*old(store), h2))
                && crate::contracts::within_trust_period(tv_block(*old(store), hb), options.trusting_period, now)
                && hb < target_height
                && (serves_direct_success(*source, tv_block(*old(store), hb), target_height, *options, now)
                    || serves_verifiable_range(*source, tv_block(*old(store), hb), target_height, *options, now)))
            ==> r is Ok && final(store).get_spec(target_height, Status::Verified) is Some,
        // an expired frontier is reported before any write
        forall|hb: Height|
            (tv_at(*old(store), hb)
                && (forall|h2: Height| h2 > hb ==> !tv_at(*old(store), h2))
                && !crate::contracts::within_trust_period(tv_block(*old(store), hb), options.trusting_period, now))
            ==> (r matches Err(e) && e is TrustedStateOutsideTrustingPeriod)
                && *final(store) == *old(store),
{
    let latest = match store.highest_trusted_or_verified() {
        Some(b) => b,
        None => {
            proof {
                assert forall|hb: Height| !tv_at(*old(store), hb) by {}
            }
            return Err(Error::NoInitialTrustedState);
        },
    };
    proof {
        assert forall|hb: Height|
            (tv_at(*old(store), hb) && (forall|h2: Height| h2 > hb ==> !tv_at(*old(store), h2)))
            implies hb == latest.height() && tv_block(*old(store), hb) == *latest by {
            if hb < latest.height() {
                assert(tv_at(*old(store), latest.height()));
            }
        }
    }
    if !crate::contracts::is_within_trust_period(latest, options.trusting_period, now) {
        return Err(Error::TrustedStateOutsideTrustingPeriod);
    }
    if !crate::contracts::light_store_contains_block_within_trusting_period(store, options.trusting_period, now) {
        let trusted_heights = store.all_heights(Status::Trusted);
        if trusted_heights.len() == 0 {
            return Err(Error::NoInitialTrustedState);
        }
        return Err(Error::TrustedStateOutsideTrustingPeriod);
    }
    let trusted = crate::types::copy_block(latest);
    proof {
        lemma_same_block_props(trusted, *latest);
    }
    if target_height <= trusted.signed_header.header.height {
        match store.get(target_height, Status::Verified) {
            Some(b) => {
                let out = crate::types::copy_block(b);
                proof {
                    lemma_same_block_props(out, *b);
                }
                return Ok(out);
            },
            None => {},
        }
        match store.get(target_height, Status::Trusted) {
            Some(b) => {
                let out = crate::types::copy_block(b);
                proof {
                    lemma_same_block_props(out, *b);
                }
                return Ok(out);
            },
            None => {},
        }
        return Err(Error::TargetLowerThanTrustedState {
            target_height,
            trusted_height: trusted.signed_header.header.height,
        });
    }
    let ghost pre = *store;
    proof {
        lemma_same_root_source_conditions(trusted, *latest, *source, target_height, *options, now);
    }
    match bisect_trace(trusted, source, options, now, target_height, max_retries) {
        Ok(trace) => {
            commit_trace(store, &trace, target_height);
            let out = crate::types::copy_block(&trace[trace.len() - 1]);
            proof {
                lemma_same_block_props(out, trace@[trace@.len() - 1]);
            }
            Ok(out)
        },
        Err(te) => {
            match te.failed {
                Some(b) => {
                    store.insert(b, Status::Failed);
                },
                None => {},
            }
            Err(te.error)
        },
    }
}

/// Whether the store holds a `Trusted` or `Verified` block at `h`.
pub open spec fn tv_at(s: LightStore, h: Height) -> bool {
    s.get_spec(h, Status::Trusted) is Some || s.get_spec(h, Status::Verified) is Some
}

/// The `Trusted` (preferred) or `Verified` block the store holds at `h`.
pub open spec fn tv_block(s: LightStore, h: Height) -> LightBlock {
    if s.get_spec(h, Status::Trusted) is Some {
        s.get_spec(h, Status::Trusted).unwrap()
    } else {
        s.get_spec(h, Status::Verified).unwrap()
    }
}

} // verus!
