//! Predicates used in component contracts.

use vstd::prelude::*;
use crate::store::LightStore;
use crate::types::{Duration, Height, LightBlock, Status, Time};

verus! {

/// Whether a block's header time still lies within the trusting period
/// relative to `now`: its time plus the period lies strictly after `now`.
pub open spec fn within_trust_period(b: LightBlock, trusting_period: Duration, now: Time) -> bool {
    b.time().nanos + trusting_period.nanos > now.nanos
}

/// Whether the store holds at least one `Trusted` block still within the
/// trusting period: the precondition under which the bisection driver may
/// fetch at all.
pub open spec fn has_live_trusted(s: LightStore, trusting_period: Duration, now: Time) -> bool {
    exists|h: Height|
        #[trigger] s.get_spec(h, Status::Trusted) is Some
            && within_trust_period(s.get_spec(h, Status::Trusted).unwrap(), trusting_period, now)
}

/// Whether or not the given light store contains a verified or
/// trusted block at the given target height.
pub fn trusted_store_contains_block_at_target_height(
    light_store: &LightStore,
    target_height: Height,
) -> (r: bool)
    requires
        light_store.wf(),
    ensures
        r == (light_store.get_spec(target_height, Status::Verified) is Some
            || light_store.get_spec(target_height, Status::Trusted) is Some),
{
    light_store.get(target_height, Status::Verified).is_some()
        || light_store.get(target_height, Status::Trusted).is_some()
}

/// Whether or not the given block is within the given trusting period,
/// relative to the given time.
pub fn is_within_trust_period(
    light_block: &LightBlock,
    trusting_period: Duration,
    now: Time,
) -> (r: bool)
    ensures
        r == within_trust_period(*light_block, trusting_period, now),
{
    let header_time = light_block.signed_header.header.time;
    (header_time.nanos as u128) + (trusting_period.nanos as u128) > now.nanos as u128
}

/// Whether or not the given light store contains a trusted block
/// within the trusting period.
///
/// See `is_within_trust_period`.
pub fn light_store_contains_block_within_trusting_period(
    light_store: &LightStore,
    trusting_period: Duration,
    now: Time,
) -> (r: bool)
    requires
        light_store.wf(),
    ensures
        r == has_live_trusted(*light_store, trusting_period, now),
{
    let mut i: usize = 0;
    while i < light_store.entries.len()
        invariant
            i <= light_store.entries@.len(),
            light_store.wf(),
            forall|j: int| 0 <= j < i
                ==> ((#[trigger] light_store.entries@[j]).trusted matches Some(b)
                    ==> !within_trust_period(b, trusting_period, now)),
        decreases light_store.entries@.len() - i,
    {
        let e = &light_store.entries[i];
        proof {
            crate::store::lemma_index_entry(*light_store, i as int);
        }
        match &e.trusted {
            Some(b) => {
                if is_within_trust_period(b, trusting_period, now) {
                    proof {
                        let h = light_store.entries@[i as int].height;
                        assert(light_store.get_spec(h, Status::Trusted) is Some
                            && within_trust_period(light_store.get_spec(h, Status::Trusted).unwrap(), trusting_period, now));
                    }
                    return true;
                }
            },
            None => {},
        }
        i = i + 1;
    }
    proof {
        assert forall|h: Height|
            !(#[trigger] light_store.get_spec(h, Status::Trusted) is Some
                && within_trust_period(light_store.get_spec(h, Status::Trusted).unwrap(), trusting_period, now)) by {
            if light_store.get_spec(h, Status::Trusted) is Some {
                let j = choose|j: int|
                    0 <= j < light_store.entries@.len() && light_store.entries@[j].height == h;
                crate::store::lemma_index_entry(*light_store, j);
            }
        }
    }
    false
}

} // verus!
