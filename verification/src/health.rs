//! Health monitoring: the smoothed round-trip time of a node, its health
//! class, and what one status update does to a node.
//!
//! The health class is no stored history. It is computed afresh on every
//! update, from the time since the node's last contact and from its smoothed
//! round-trip time.

use vstd::prelude::*;

use crate::model::{HealthState, NodeContext};
use crate::scoring::{calculate_raw_opi, determine_tier, raw_score, tier_of};

verus! {

/// A node in contact whose smoothed round-trip time is above this many
/// microseconds is `Degraded`.
pub const DEGRADED_RTT_US: u64 = 150_000;

/// A node silent for more than this many microseconds is `Suspect`.
pub const SUSPECT_AFTER_US: u64 = 10_000_000;

/// A node silent for more than this many microseconds is `Quarantined`.
pub const QUARANTINE_AFTER_US: u64 = 30_000_000;

/// The round-trip estimate after a sample, in microseconds.
///
/// A sample of 0 stands for no sample and leaves the estimate as it is. The
/// first sample becomes the estimate. Every later one enters with weight 0.2,
/// the estimate keeping 0.8; the result is rounded down to a whole microsecond.
pub open spec fn smoothed_rtt(estimate: u64, sample: u64) -> int {
    if sample == 0 {
        estimate as int
    } else if estimate == 0 {
        sample as int
    } else {
        (sample + 4 * estimate) / 5
    }
}

/// The time from `last_seen` to `now` in microseconds, or 0 where `now` is the
/// earlier of the two.
pub open spec fn elapsed_us(last_seen: u64, now: u64) -> int {
    if now >= last_seen {
        now - last_seen
    } else {
        0
    }
}

/// The node with its health recomputed at time `now`.
///
/// * Silent for more than 30 s: `Quarantined`, and the quarantine flag set.
/// * Silent for more than 10 s: `Suspect`, the quarantine flag as it was.
/// * Else `Degraded` where the smoothed round-trip time is above 150 ms, and
///   `Healthy` where it is not; either way the quarantine flag is cleared.
pub open spec fn health_recomputed(node: NodeContext, now: u64) -> NodeContext {
    let elapsed = elapsed_us(node.last_seen, now);
    if elapsed > QUARANTINE_AFTER_US {
        NodeContext { health_state: HealthState::Quarantined, is_quarantined: true, ..node }
    } else if elapsed > SUSPECT_AFTER_US {
        NodeContext { health_state: HealthState::Suspect, ..node }
    } else if node.net_rtt_ema_us > DEGRADED_RTT_US {
        NodeContext { health_state: HealthState::Degraded, is_quarantined: false, ..node }
    } else {
        NodeContext { health_state: HealthState::Healthy, is_quarantined: false, ..node }
    }
}

/// The node after a status update that was received at `seen_at` and is
/// evaluated at `now`.
///
/// The update stores the reported fields and the time of contact, smooths the
/// round-trip time with the sample `rtt_us`, recomputes the health at `now`,
/// and sets the tier that the hardware score calls for.
pub open spec fn status_applied(
    node: NodeContext,
    cpu: u32,
    gpu: u32,
    charging: bool,
    net: String,
    allowed: bool,
    rtt_us: u64,
    seen_at: u64,
    now: u64,
) -> NodeContext {
    let reported = NodeContext {
        cpu_load: cpu,
        gpu_load: gpu,
        is_charging: charging,
        network_type: net,
        user_allowed: allowed,
        last_seen: seen_at,
        net_rtt_ema_us: smoothed_rtt(node.net_rtt_ema_us, rtt_us) as u64,
        ..node
    };
    let classified = health_recomputed(reported, now);
    NodeContext { current_tier: tier_of(raw_score(classified)), ..classified }
}

/// The round-trip estimate after the sample `sample`, in microseconds.
pub fn smooth_rtt(estimate: u64, sample: u64) -> (smoothed: u64)
    ensures
        smoothed == smoothed_rtt(estimate, sample),
        estimate > 0 ==> smoothed > 0,
{
    if sample == 0 {
        estimate
    } else if estimate == 0 {
        sample
    } else {
        let weighted: u128 = (sample as u128) + 4 * (estimate as u128);
        (weighted / 5) as u64
    }
}

/// Recomputes the health of a node at time `now`.
pub fn update_health_state(node: &mut NodeContext, now: u64)
    ensures
        *final(node) == health_recomputed(*old(node), now),
        final(node).health_state == HealthState::Quarantined ==> final(node).is_quarantined,
        final(node).health_state == HealthState::Suspect ==> final(node).is_quarantined == old(
            node,
        ).is_quarantined,
        final(node).health_state == HealthState::Healthy || final(node).health_state
            == HealthState::Degraded ==> !final(node).is_quarantined,
{
    let elapsed: u64 = if now >= node.last_seen {
        now - node.last_seen
    } else {
        0
    };
    if elapsed > QUARANTINE_AFTER_US {
        node.health_state = HealthState::Quarantined;
        node.is_quarantined = true;
    } else if elapsed > SUSPECT_AFTER_US {
        node.health_state = HealthState::Suspect;
    } else if node.net_rtt_ema_us > DEGRADED_RTT_US {
        node.health_state = HealthState::Degraded;
        node.is_quarantined = false;
    } else {
        node.health_state = HealthState::Healthy;
        node.is_quarantined = false;
    }
}

/// Applies one status update to a node: the update was received at `seen_at`
/// and is evaluated at `now`; `rtt_us` is its round-trip sample, 0 for none.
pub fn apply_status_update(
    node: &mut NodeContext,
    cpu: u32,
    gpu: u32,
    charging: bool,
    net: String,
    allowed: bool,
    rtt_us: u64,
    seen_at: u64,
    now: u64,
)
    ensures
        *final(node) == status_applied(
            *old(node),
            cpu,
            gpu,
            charging,
            net,
            allowed,
            rtt_us,
            seen_at,
            now,
        ),
{
    node.cpu_load = cpu;
    node.gpu_load = gpu;
    node.is_charging = charging;
    node.network_type = net;
    node.user_allowed = allowed;
    node.last_seen = seen_at;
    node.net_rtt_ema_us = smooth_rtt(node.net_rtt_ema_us, rtt_us);
    update_health_state(node, now);
    let score: u128 = calculate_raw_opi(node);
    let new_tier = determine_tier(score);
    if node.current_tier != new_tier {
        node.current_tier = new_tier;
    }
}

/// A status update without a round-trip sample leaves the estimate as it is.
pub proof fn lemma_no_sample_keeps_estimate(estimate: u64)
    ensures
        smoothed_rtt(estimate, 0) == estimate,
{
}

/// The smoothed estimate lies between the estimate before and the sample,
/// whichever of the two is the smaller.
pub proof fn lemma_smoothed_rtt_between(estimate: u64, sample: u64)
    requires
        estimate > 0,
        sample > 0,
    ensures
        estimate <= sample ==> estimate <= smoothed_rtt(estimate, sample) <= sample,
        sample <= estimate ==> sample <= smoothed_rtt(estimate, sample) <= estimate,
{
}

/// What the health class says of the time since the last contact and of the
/// quarantine flag, for every node and every time.
pub proof fn lemma_health_classes(node: NodeContext, now: u64)
    ensures
        ({
            let after = health_recomputed(node, now);
            let elapsed = elapsed_us(node.last_seen, now);
            &&& after.health_state == HealthState::Quarantined <==> elapsed > QUARANTINE_AFTER_US
            &&& after.health_state == HealthState::Suspect <==> SUSPECT_AFTER_US < elapsed
                <= QUARANTINE_AFTER_US
            &&& after.health_state == HealthState::Degraded <==> elapsed <= SUSPECT_AFTER_US
                && node.net_rtt_ema_us > DEGRADED_RTT_US
            &&& after.health_state == HealthState::Healthy <==> elapsed <= SUSPECT_AFTER_US
                && node.net_rtt_ema_us <= DEGRADED_RTT_US
            &&& after.health_state == HealthState::Quarantined ==> after.is_quarantined
            &&& after.health_state == HealthState::Suspect ==> after.is_quarantined
                == node.is_quarantined
            &&& after.health_state == HealthState::Healthy || after.health_state
                == HealthState::Degraded ==> !after.is_quarantined
        }),
{
}

/// A status update that is evaluated no more than 10 s after it was received
/// never leaves the node `Suspect` or `Quarantined`, and clears the quarantine
/// flag.
pub proof fn lemma_prompt_update_clears_quarantine(
    node: NodeContext,
    cpu: u32,
    gpu: u32,
    charging: bool,
    net: String,
    allowed: bool,
    rtt_us: u64,
    seen_at: u64,
    now: u64,
)
    requires
        elapsed_us(seen_at, now) <= SUSPECT_AFTER_US,
    ensures
        ({
            let after = status_applied(node, cpu, gpu, charging, net, allowed, rtt_us, seen_at, now);
            &&& !after.is_quarantined
            &&& after.health_state == HealthState::Healthy || after.health_state
                == HealthState::Degraded
        }),
{
}

/// What a status update leaves in a node, whenever it was received and
/// whenever it is evaluated: the reported fields, the smoothed round-trip
/// time, and the tier that the hardware score calls for. The identity of the
/// node, its hardware, and so its hardware score, stay as they were.
pub proof fn lemma_update_whatever_the_time(
    node: NodeContext,
    cpu: u32,
    gpu: u32,
    charging: bool,
    net: String,
    allowed: bool,
    rtt_us: u64,
    seen_at: u64,
    now: u64,
)
    ensures
        ({
            let after = status_applied(node, cpu, gpu, charging, net, allowed, rtt_us, seen_at, now);
            &&& after.cpu_load == cpu
            &&& after.gpu_load == gpu
            &&& after.is_charging == charging
            &&& after.network_type == net
            &&& after.user_allowed == allowed
            &&& after.last_seen == seen_at
            &&& after.net_rtt_ema_us == smoothed_rtt(node.net_rtt_ema_us, rtt_us)
            &&& after.node_id == node.node_id
            &&& after.device_model == node.device_model
            &&& after.failure_count == node.failure_count
            &&& raw_score(after) == raw_score(node)
            &&& after.current_tier == tier_of(raw_score(node))
        }),
{
}

} // verus!
