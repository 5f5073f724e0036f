//! Scoring: the hardware score of a node, the tier it falls in, the penalty
//! for network latency, the share of the node that is idle, and the effective
//! score by which candidates are ranked.
//!
//! Every function here reads a node and changes nothing.

use vstd::prelude::*;

use crate::model::{HealthState, NodeContext, NodeTier, RATIO_SCALE, SCORE_SCALE};

verus! {

/// Score units for one megabyte of RAM: 5 points for every 1024 MB.
pub const RAM_UNITS: u128 = 31_250;

/// Score units for one megabyte per second of memory bandwidth: a tenth of a
/// point for every 1000 MB/s.
pub const BANDWIDTH_UNITS: u128 = 640;

/// Score units for one PCIe lane of one generation: 2 points.
pub const PCIE_UNITS: u128 = 12_800_000;

/// Score units for one compute unit: half a point.
pub const COMPUTE_UNITS: u128 = 3_200_000;

/// The least score of the high-performance tier: 200 points.
pub const TIER1_MIN_SCORE: u128 = 1_280_000_000;

/// The least score of the standard tier: 80 points.
pub const TIER2_MIN_SCORE: u128 = 512_000_000;

/// No hardware score reaches this limit, which is 2 to the power 88.
pub const RAW_SCORE_LIMIT: u128 = 0x100_0000_0000_0000_0000_0000;

/// The round-trip time of an ordinary local network, in microseconds. A node
/// at or below it pays no penalty.
pub const BASE_RTT_US: u64 = 10_000;

/// The largest network factor, in ratio units: a tenfold slowdown.
pub const MAX_NET_FACTOR: u64 = 100_000;

/// The weighted sum of the hardware fields, in score units, before the ROCm
/// bonus.
pub open spec fn base_score(node: NodeContext) -> int {
    node.total_ram_mb * RAM_UNITS + node.memory_bandwidth_mbps * BANDWIDTH_UNITS + (node.pcie_lanes
        * node.pcie_gen) * PCIE_UNITS + node.compute_units * COMPUTE_UNITS
}

/// The hardware score of a node, in score units: the weighted sum, and a
/// tenth more where the node has ROCm. The sum is a multiple of 10, so the
/// division is exact (`lemma_rocm_bonus_is_exact`).
pub open spec fn raw_score(node: NodeContext) -> int {
    if node.has_rocm {
        base_score(node) / 10 * 11
    } else {
        base_score(node)
    }
}

/// The tier that a hardware score falls in. Both boundaries belong to the
/// higher tier.
pub open spec fn tier_of(score: int) -> NodeTier {
    if score >= TIER1_MIN_SCORE {
        NodeTier::Tier1HighPerformance
    } else if score >= TIER2_MIN_SCORE {
        NodeTier::Tier2Standard
    } else {
        NodeTier::Tier3Mobile
    }
}

/// The slowdown that the network imposes on a node, in ratio units: the
/// smoothed round-trip time over the base round-trip time, kept between 1 and
/// 10. A node without a sample counts as one at the base round-trip time.
pub open spec fn net_factor(node: NodeContext) -> int {
    let rtt: int = if node.net_rtt_ema_us == 0 {
        BASE_RTT_US as int
    } else {
        node.net_rtt_ema_us as int
    };
    let ratio = rtt * RATIO_SCALE / (BASE_RTT_US as int);
    if ratio < RATIO_SCALE {
        RATIO_SCALE as int
    } else if ratio > MAX_NET_FACTOR {
        MAX_NET_FACTOR as int
    } else {
        ratio
    }
}

/// The busier of the node's two loads, at most 1, in ratio units.
pub open spec fn peak_load(node: NodeContext) -> int {
    let load = if node.gpu_load >= node.cpu_load {
        node.gpu_load
    } else {
        node.cpu_load
    };
    if load > RATIO_SCALE {
        RATIO_SCALE as int
    } else {
        load as int
    }
}

/// The idle share of a node, in ratio units: 1 less the peak load.
pub open spec fn load_factor(node: NodeContext) -> int {
    RATIO_SCALE - peak_load(node)
}

/// Whether a node is left out of every ranking: it is quarantined, or its
/// health is `Quarantined` or `Suspect`.
pub open spec fn is_sidelined(node: NodeContext) -> bool {
    node.is_quarantined || node.health_state == HealthState::Quarantined || node.health_state
        == HealthState::Suspect
}

/// The numerator of a node's effective score: 0 for a sidelined node, else the
/// hardware score times the load factor.
pub open spec fn effective_num(node: NodeContext) -> int {
    if is_sidelined(node) {
        0
    } else {
        raw_score(node) * load_factor(node)
    }
}

/// The denominator of a node's effective score: the network factor, or that of
/// a node without penalty where the node is sidelined.
pub open spec fn effective_den(node: NodeContext) -> int {
    if is_sidelined(node) {
        RATIO_SCALE as int
    } else {
        net_factor(node)
    }
}

/// A score as an exact fraction: `num / den` score units.
///
/// The effective score of a node is its hardware score divided by its network
/// factor and multiplied by its load factor. With the two factors in ratio
/// units that is `raw * load / net` score units, which this type holds without
/// rounding.
#[derive(Debug, Clone, Copy)]
pub struct EffectiveScore {
    pub num: u128,
    pub den: u64,
}

impl EffectiveScore {
    /// The bounds that every effective score of a node keeps, and within which
    /// two scores can be compared in 128 bits.
    pub open spec fn wf(self) -> bool {
        &&& RATIO_SCALE <= self.den <= MAX_NET_FACTOR
        &&& self.num <= RAW_SCORE_LIMIT * RATIO_SCALE
    }

    /// Whether this is the effective score of `node`.
    pub open spec fn is_score_of(self, node: NodeContext) -> bool {
        self.num == effective_num(node) && self.den == effective_den(node)
    }

    /// Whether the score is greater than zero.
    pub open spec fn positive(self) -> bool {
        self.num > 0
    }

    /// Whether this score is at least `other`: the two fractions compared by
    /// cross multiplication.
    pub open spec fn at_least(self, other: EffectiveScore) -> bool {
        self.num * other.den >= other.num * self.den
    }

    /// Whether the score is greater than zero.
    pub fn is_positive(&self) -> (positive: bool)
        ensures
            positive == self.positive(),
    {
        self.num > 0
    }

    /// Whether this score is at least `other`.
    pub fn is_at_least(&self, other: &EffectiveScore) -> (holds: bool)
        requires
            self.wf(),
            other.wf(),
        ensures
            holds == self.at_least(*other),
    {
        proof {
            lemma_cross_product_fits(self.num, other.den);
            lemma_cross_product_fits(other.num, self.den);
        }
        self.num * (other.den as u128) >= other.num * (self.den as u128)
    }
}

/// Whether node `a` ranks at least as high as node `b`: the effective score of
/// `a` is at least that of `b`.
pub open spec fn ranks_at_least(a: NodeContext, b: NodeContext) -> bool {
    effective_num(a) * effective_den(b) >= effective_num(b) * effective_den(a)
}

proof fn lemma_cross_product_fits(num: u128, den: u64)
    requires
        num <= RAW_SCORE_LIMIT * RATIO_SCALE,
        den <= MAX_NET_FACTOR,
    ensures
        num * den <= u128::MAX,
{
    assert(num * den <= (RAW_SCORE_LIMIT * RATIO_SCALE) * MAX_NET_FACTOR) by (nonlinear_arith)
        requires
            0 <= num <= RAW_SCORE_LIMIT * RATIO_SCALE,
            0 <= den <= MAX_NET_FACTOR,
    ;
}

/// The hardware score of every node is below `RAW_SCORE_LIMIT`, and never
/// negative.
pub proof fn lemma_raw_score_bounds(node: NodeContext)
    ensures
        0 <= base_score(node) <= raw_score(node) < RAW_SCORE_LIMIT,
{
    let lane_gens = node.pcie_lanes * node.pcie_gen;
    assert(0 <= lane_gens <= 0xffff_ffff * 0xffff_ffff) by (nonlinear_arith)
        requires
            lane_gens == node.pcie_lanes * node.pcie_gen,
            0 <= node.pcie_lanes <= 0xffff_ffff,
            0 <= node.pcie_gen <= 0xffff_ffff,
    ;
}

/// The hardware score of a node, in score units.
///
/// It depends on the hardware fields alone: RAM, memory bandwidth, PCIe lanes
/// and generation, compute units and the ROCm flag.
pub fn calculate_raw_opi(node: &NodeContext) -> (score: u128)
    ensures
        score == raw_score(*node),
        score < RAW_SCORE_LIMIT,
{
    proof {
        lemma_raw_score_bounds(*node);
    }
    let lanes: u64 = node.pcie_lanes as u64;
    let generation: u64 = node.pcie_gen as u64;
    assert(lanes * generation <= 0xffff_ffff * 0xffff_ffff) by (nonlinear_arith)
        requires
            0 <= lanes <= 0xffff_ffff,
            0 <= generation <= 0xffff_ffff,
    ;
    let lane_gens: u64 = lanes * generation;
    let base: u128 = (node.total_ram_mb as u128) * RAM_UNITS + (node.memory_bandwidth_mbps as u128)
        * BANDWIDTH_UNITS + (lane_gens as u128) * PCIE_UNITS + (node.compute_units as u128)
        * COMPUTE_UNITS;
    if node.has_rocm {
        base / 10 * 11
    } else {
        base
    }
}

/// The tier that a hardware score falls in. `Offline` is never the result.
pub fn determine_tier(score: u128) -> (tier: NodeTier)
    ensures
        tier == tier_of(score as int),
        tier != NodeTier::Offline,
{
    if score >= TIER1_MIN_SCORE {
        NodeTier::Tier1HighPerformance
    } else if score >= TIER2_MIN_SCORE {
        NodeTier::Tier2Standard
    } else {
        NodeTier::Tier3Mobile
    }
}

/// The network factor of a node, in ratio units: never below 1, never above
/// 10.
pub fn calculate_net_factor(node: &NodeContext) -> (factor: u64)
    ensures
        factor == net_factor(*node),
        RATIO_SCALE <= factor <= MAX_NET_FACTOR,
{
    let rtt: u64 = if node.net_rtt_ema_us == 0 {
        BASE_RTT_US
    } else {
        node.net_rtt_ema_us
    };
    let ratio: u128 = (rtt as u128) * (RATIO_SCALE as u128) / (BASE_RTT_US as u128);
    if ratio < RATIO_SCALE as u128 {
        RATIO_SCALE as u64
    } else if ratio > MAX_NET_FACTOR as u128 {
        MAX_NET_FACTOR
    } else {
        ratio as u64
    }
}

/// The load factor of a node, in ratio units: 1 for an idle node, 0 for a
/// saturated one.
pub fn calculate_load_factor(node: &NodeContext) -> (factor: u32)
    ensures
        factor == load_factor(*node),
        factor <= RATIO_SCALE,
{
    let busier: u32 = if node.gpu_load >= node.cpu_load {
        node.gpu_load
    } else {
        node.cpu_load
    };
    let peak: u32 = if busier > RATIO_SCALE {
        RATIO_SCALE
    } else {
        busier
    };
    RATIO_SCALE - peak
}

/// The effective score of a node: zero for a sidelined node, else the
/// hardware score divided by the network factor and multiplied by the load
/// factor.
pub fn calculate_effective_opi(node: &NodeContext) -> (score: EffectiveScore)
    ensures
        score.is_score_of(*node),
        score.wf(),
        is_sidelined(*node) ==> score.num == 0,
{
    if node.is_quarantined || node.health_state == HealthState::Quarantined || node.health_state
        == HealthState::Suspect {
        return EffectiveScore { num: 0, den: RATIO_SCALE as u64 };
    }
    let hw: u128 = calculate_raw_opi(node);
    let net: u64 = calculate_net_factor(node);
    let load: u32 = calculate_load_factor(node);
    assert(hw * load <= RAW_SCORE_LIMIT * RATIO_SCALE) by (nonlinear_arith)
        requires
            0 <= hw <= RAW_SCORE_LIMIT,
            0 <= load <= RATIO_SCALE,
    ;
    EffectiveScore { num: hw * (load as u128), den: net }
}

/// The hardware score never falls when RAM, memory bandwidth, the product of
/// PCIe lanes and generation, or the compute units grow, the ROCm flag being
/// the same.
pub proof fn lemma_raw_score_monotonic(low: NodeContext, high: NodeContext)
    requires
        low.total_ram_mb <= high.total_ram_mb,
        low.memory_bandwidth_mbps <= high.memory_bandwidth_mbps,
        low.pcie_lanes * low.pcie_gen <= high.pcie_lanes * high.pcie_gen,
        low.compute_units <= high.compute_units,
        low.has_rocm == high.has_rocm,
    ensures
        raw_score(low) <= raw_score(high),
{
}

/// The ROCm flag multiplies the hardware score by exactly 1.1: ten times the
/// score with the flag is eleven times the score without it.
pub proof fn lemma_rocm_bonus_is_exact(node: NodeContext)
    ensures
        base_score(node) % 10 == 0,
        raw_score(NodeContext { has_rocm: true, ..node }) * 10 == raw_score(
            NodeContext { has_rocm: false, ..node },
        ) * 11,
{
}

/// The hardware score reads the hardware fields alone: two nodes that agree on
/// them have the same score, whatever their load, health or network state.
pub proof fn lemma_raw_score_reads_hardware_only(a: NodeContext, b: NodeContext)
    requires
        a.total_ram_mb == b.total_ram_mb,
        a.memory_bandwidth_mbps == b.memory_bandwidth_mbps,
        a.pcie_lanes == b.pcie_lanes,
        a.pcie_gen == b.pcie_gen,
        a.compute_units == b.compute_units,
        a.has_rocm == b.has_rocm,
    ensures
        raw_score(a) == raw_score(b),
{
}

/// A node whose health is `Suspect` or `Quarantined` has the effective score
/// zero, whatever its hardware.
pub proof fn lemma_unhealthy_scores_zero(node: NodeContext)
    requires
        node.health_state == HealthState::Suspect || node.health_state == HealthState::Quarantined,
    ensures
        effective_num(node) == 0,
        forall|other: NodeContext| ranks_at_least(other, node),
{
    assert forall|other: NodeContext| ranks_at_least(other, node) by {
        lemma_effective_score_bounds(other);
        assert(effective_num(other) * effective_den(node) >= 0) by (nonlinear_arith)
            requires
                effective_num(other) >= 0,
                effective_den(node) >= 0,
        ;
    }
}

/// The effective score of every node is a fraction within the bounds of
/// `EffectiveScore::wf`.
pub proof fn lemma_effective_score_bounds(node: NodeContext)
    ensures
        0 <= effective_num(node) <= RAW_SCORE_LIMIT * RATIO_SCALE,
        RATIO_SCALE <= effective_den(node) <= MAX_NET_FACTOR,
{
    lemma_raw_score_bounds(node);
    let hw = raw_score(node);
    let load = load_factor(node);
    assert(0 <= hw * load <= RAW_SCORE_LIMIT * RATIO_SCALE) by (nonlinear_arith)
        requires
            0 <= hw <= RAW_SCORE_LIMIT,
            0 <= load <= RATIO_SCALE,
    ;
}

/// Ranking is transitive: where `a` ranks at least as high as `b`, and `b` at
/// least as high as `c`, `a` ranks at least as high as `c`.
pub proof fn lemma_ranking_is_transitive(a: NodeContext, b: NodeContext, c: NodeContext)
    requires
        ranks_at_least(a, b),
        ranks_at_least(b, c),
    ensures
        ranks_at_least(a, c),
{
    lemma_effective_score_bounds(a);
    lemma_effective_score_bounds(b);
    lemma_effective_score_bounds(c);
    lemma_fraction_order_transitive(
        effective_num(a),
        effective_den(a),
        effective_num(b),
        effective_den(b),
        effective_num(c),
        effective_den(c),
    );
}

/// Any two nodes are ranked: one of them ranks at least as high as the other.
pub proof fn lemma_ranking_is_total(a: NodeContext, b: NodeContext)
    ensures
        ranks_at_least(a, b) || ranks_at_least(b, a),
{
}

proof fn lemma_fraction_order_transitive(an: int, ad: int, bn: int, bd: int, cn: int, cd: int)
    requires
        ad > 0,
        bd > 0,
        cd > 0,
        an * bd >= bn * ad,
        bn * cd >= cn * bd,
    ensures
        an * cd >= cn * ad,
{
    assert((an * bd) * cd >= (bn * ad) * cd) by (nonlinear_arith)
        requires
            an * bd >= bn * ad,
            cd > 0,
    ;
    assert((bn * cd) * ad >= (cn * bd) * ad) by (nonlinear_arith)
        requires
            bn * cd >= cn * bd,
            ad > 0,
    ;
    assert((an * cd) * bd >= (cn * ad) * bd) by (nonlinear_arith)
        requires
            (an * bd) * cd >= (bn * ad) * cd,
            (bn * cd) * ad >= (cn * bd) * ad,
    ;
    assert(an * cd >= cn * ad) by (nonlinear_arith)
        requires
            (an * cd) * bd >= (cn * ad) * bd,
            bd > 0,
    ;
}

} // verus!
