use stc_scheduler::model::{HealthState, NodeContext, NodeTier, RATIO_SCALE, SCORE_SCALE};
use stc_scheduler::scoring::{
    calculate_effective_opi, calculate_load_factor, calculate_net_factor, calculate_raw_opi,
    determine_tier, EffectiveScore, BASE_RTT_US, MAX_NET_FACTOR, RAW_SCORE_LIMIT, TIER1_MIN_SCORE,
    TIER2_MIN_SCORE,
};

fn workstation() -> NodeContext {
    NodeContext {
        node_id: "ws-1".to_string(),
        device_model: "Workstation".to_string(),
        cpu_cores: 16,
        total_ram_mb: 16_384,
        has_npu: false,
        has_cuda: true,
        has_rocm: false,
        has_intel_arc: false,
        pcie_lanes: 16,
        pcie_gen: 4,
        memory_bandwidth_mbps: 100_000,
        compute_units: 40,
        current_tier: NodeTier::Tier3Mobile,
        last_seen: 0,
        cpu_load: 0,
        gpu_load: 0,
        is_charging: true,
        network_type: "ethernet".to_string(),
        user_allowed: true,
        net_rtt_ema_us: 0,
        health_state: HealthState::Healthy,
        failure_count: 0,
        is_quarantined: false,
    }
}

/// The score formula in floating point, in points.
fn score_in_points(node: &NodeContext) -> f64 {
    let mut score = 0.0;
    score += (node.total_ram_mb as f64 / 1024.0) * 5.0;
    score += (node.memory_bandwidth_mbps as f64 / 1000.0) / 10.0;
    score += (node.pcie_lanes as f64 * node.pcie_gen as f64) * 2.0;
    score += node.compute_units as f64 * 0.5;
    if node.has_rocm {
        score *= 1.1;
    }
    score
}

fn points(units: u128) -> f64 {
    units as f64 / SCORE_SCALE as f64
}

#[test]
fn raw_score_of_a_workstation_is_238_points() {
    // 80 for RAM, 10 for bandwidth, 128 for PCIe, 20 for compute units.
    let node = workstation();
    assert_eq!(calculate_raw_opi(&node), 238 * SCORE_SCALE);
    assert_eq!(calculate_raw_opi(&node), 1_523_200_000);
}

#[test]
fn raw_score_counts_each_term_by_its_weight() {
    let mut node = workstation();
    node.total_ram_mb = 0;
    node.memory_bandwidth_mbps = 0;
    node.pcie_lanes = 0;
    node.pcie_gen = 0;
    node.compute_units = 0;
    assert_eq!(calculate_raw_opi(&node), 0);

    node.total_ram_mb = 1024;
    assert_eq!(calculate_raw_opi(&node), 5 * SCORE_SCALE);
    node.total_ram_mb = 1;
    assert_eq!(calculate_raw_opi(&node), 31_250);
    node.total_ram_mb = 0;

    node.memory_bandwidth_mbps = 10_000;
    assert_eq!(calculate_raw_opi(&node), SCORE_SCALE);
    node.memory_bandwidth_mbps = 1;
    assert_eq!(calculate_raw_opi(&node), 640);
    node.memory_bandwidth_mbps = 0;

    node.pcie_lanes = 8;
    node.pcie_gen = 3;
    assert_eq!(calculate_raw_opi(&node), 48 * SCORE_SCALE);
    node.pcie_lanes = 8;
    node.pcie_gen = 0;
    assert_eq!(calculate_raw_opi(&node), 0);
    node.pcie_lanes = 0;

    node.compute_units = 1;
    assert_eq!(calculate_raw_opi(&node), SCORE_SCALE / 2);
    node.compute_units = 7;
    assert_eq!(calculate_raw_opi(&node), 7 * SCORE_SCALE / 2);
}

#[test]
fn raw_score_agrees_with_the_formula_in_floating_point() {
    let mut node = workstation();
    for (ram, bandwidth, lanes, generation, units, rocm) in [
        (8_192u64, 51_200u64, 4u32, 3u32, 8u32, false),
        (65_536, 936_000, 16, 5, 128, true),
        (3_000, 17_000, 1, 1, 3, true),
        (1, 1, 0, 0, 1, false),
    ] {
        node.total_ram_mb = ram;
        node.memory_bandwidth_mbps = bandwidth;
        node.pcie_lanes = lanes;
        node.pcie_gen = generation;
        node.compute_units = units;
        node.has_rocm = rocm;
        let exact = points(calculate_raw_opi(&node));
        let float = score_in_points(&node);
        assert!((exact - float).abs() < 1e-6, "{} against {}", exact, float);
    }
}

#[test]
fn raw_score_never_falls_when_hardware_grows() {
    let base = workstation();
    let before = calculate_raw_opi(&base);

    let mut more_ram = workstation();
    more_ram.total_ram_mb += 1;
    assert!(calculate_raw_opi(&more_ram) > before);

    let mut more_bandwidth = workstation();
    more_bandwidth.memory_bandwidth_mbps += 1;
    assert!(calculate_raw_opi(&more_bandwidth) > before);

    let mut more_lanes = workstation();
    more_lanes.pcie_lanes += 1;
    assert!(calculate_raw_opi(&more_lanes) > before);

    let mut newer_pcie = workstation();
    newer_pcie.pcie_gen += 1;
    assert!(calculate_raw_opi(&newer_pcie) > before);

    let mut more_units = workstation();
    more_units.compute_units += 1;
    assert!(calculate_raw_opi(&more_units) > before);

    // The same product of lanes and generation gives the same score.
    let mut swapped = workstation();
    swapped.pcie_lanes = 4;
    swapped.pcie_gen = 16;
    assert_eq!(calculate_raw_opi(&swapped), before);
}

#[test]
fn rocm_multiplies_the_score_by_exactly_eleven_tenths() {
    let plain = workstation();
    let mut rocm = workstation();
    rocm.has_rocm = true;
    let without = calculate_raw_opi(&plain);
    let with = calculate_raw_opi(&rocm);
    assert_eq!(with * 10, without * 11);
    // 261.8 points.
    assert_eq!(with, 1_675_520_000);

    let mut odd = workstation();
    odd.total_ram_mb = 1;
    odd.memory_bandwidth_mbps = 1;
    odd.pcie_lanes = 1;
    odd.pcie_gen = 1;
    odd.compute_units = 1;
    let without = calculate_raw_opi(&odd);
    odd.has_rocm = true;
    assert_eq!(calculate_raw_opi(&odd) * 10, without * 11);
}

#[test]
fn raw_score_ignores_load_health_and_network() {
    let base = workstation();
    let mut busy = workstation();
    busy.cpu_load = 9_900;
    busy.gpu_load = 10_000;
    busy.net_rtt_ema_us = 400_000;
    busy.health_state = HealthState::Quarantined;
    busy.is_quarantined = true;
    busy.user_allowed = false;
    busy.has_cuda = false;
    busy.has_npu = true;
    busy.has_intel_arc = true;
    busy.cpu_cores = 1;
    assert_eq!(calculate_raw_opi(&busy), calculate_raw_opi(&base));
}

#[test]
fn raw_score_of_the_largest_node_is_below_the_limit() {
    let mut node = workstation();
    node.total_ram_mb = u64::MAX;
    node.memory_bandwidth_mbps = u64::MAX;
    node.pcie_lanes = u32::MAX;
    node.pcie_gen = u32::MAX;
    node.compute_units = u32::MAX;
    node.has_rocm = true;
    let score = calculate_raw_opi(&node);
    assert!(score < RAW_SCORE_LIMIT);
    assert_eq!(determine_tier(score), NodeTier::Tier1HighPerformance);
    let effective = calculate_effective_opi(&node);
    assert_eq!(effective.num, score * RATIO_SCALE as u128);
    assert!(effective.is_at_least(&effective));
}

#[test]
fn tier_boundaries_belong_to_the_higher_tier() {
    // 199.999, 200.0, 79.999 and 80.0 points.
    assert_eq!(determine_tier(1_279_993_600), NodeTier::Tier2Standard);
    assert_eq!(determine_tier(1_280_000_000), NodeTier::Tier1HighPerformance);
    assert_eq!(determine_tier(511_993_600), NodeTier::Tier3Mobile);
    assert_eq!(determine_tier(512_000_000), NodeTier::Tier2Standard);
    assert_eq!(TIER1_MIN_SCORE, 200 * SCORE_SCALE);
    assert_eq!(TIER2_MIN_SCORE, 80 * SCORE_SCALE);
}

#[test]
fn tier_next_to_the_boundaries_and_at_the_ends() {
    assert_eq!(determine_tier(TIER1_MIN_SCORE - 1), NodeTier::Tier2Standard);
    assert_eq!(determine_tier(TIER1_MIN_SCORE + 1), NodeTier::Tier1HighPerformance);
    assert_eq!(determine_tier(TIER2_MIN_SCORE - 1), NodeTier::Tier3Mobile);
    assert_eq!(determine_tier(TIER2_MIN_SCORE + 1), NodeTier::Tier2Standard);
    assert_eq!(determine_tier(0), NodeTier::Tier3Mobile);
    assert_eq!(determine_tier(u128::MAX), NodeTier::Tier1HighPerformance);
}

#[test]
fn tiers_are_ordered_from_offline_to_high_performance() {
    assert!(NodeTier::Offline < NodeTier::Tier3Mobile);
    assert!(NodeTier::Tier3Mobile < NodeTier::Tier2Standard);
    assert!(NodeTier::Tier2Standard < NodeTier::Tier1HighPerformance);
    assert_eq!(NodeTier::Offline.rank(), 0);
    assert_eq!(NodeTier::Tier3Mobile.rank(), 1);
    assert_eq!(NodeTier::Tier2Standard.rank(), 2);
    assert_eq!(NodeTier::Tier1HighPerformance.rank(), 3);
    let tiers = [
        NodeTier::Offline,
        NodeTier::Tier3Mobile,
        NodeTier::Tier2Standard,
        NodeTier::Tier1HighPerformance,
    ];
    for a in tiers {
        for b in tiers {
            assert_eq!(a < b, a.rank() < b.rank());
            assert_eq!(a == b, a.rank() == b.rank());
        }
    }
}

#[test]
fn net_factor_is_one_without_a_sample() {
    let node = workstation();
    assert_eq!(calculate_net_factor(&node), RATIO_SCALE as u64);
}

#[test]
fn net_factor_is_the_round_trip_over_ten_milliseconds() {
    let mut node = workstation();
    node.net_rtt_ema_us = 25_000;
    assert_eq!(calculate_net_factor(&node), 25_000);
    node.net_rtt_ema_us = 10_001;
    assert_eq!(calculate_net_factor(&node), 10_001);
    node.net_rtt_ema_us = 99_999;
    assert_eq!(calculate_net_factor(&node), 99_999);
}

#[test]
fn net_factor_is_never_a_speedup_and_at_most_tenfold() {
    let mut node = workstation();
    node.net_rtt_ema_us = 1;
    assert_eq!(calculate_net_factor(&node), 10_000);
    node.net_rtt_ema_us = 5_000;
    assert_eq!(calculate_net_factor(&node), 10_000);
    node.net_rtt_ema_us = BASE_RTT_US;
    assert_eq!(calculate_net_factor(&node), 10_000);
    node.net_rtt_ema_us = 100_000;
    assert_eq!(calculate_net_factor(&node), MAX_NET_FACTOR);
    node.net_rtt_ema_us = 100_001;
    assert_eq!(calculate_net_factor(&node), MAX_NET_FACTOR);
    node.net_rtt_ema_us = u64::MAX;
    assert_eq!(calculate_net_factor(&node), 100_000);
}

#[test]
fn load_factor_is_one_less_the_busier_load() {
    let mut node = workstation();
    assert_eq!(calculate_load_factor(&node), 10_000);
    node.cpu_load = 3_000;
    node.gpu_load = 7_000;
    assert_eq!(calculate_load_factor(&node), 3_000);
    node.cpu_load = 7_500;
    node.gpu_load = 2_000;
    assert_eq!(calculate_load_factor(&node), 2_500);
    node.cpu_load = 10_000;
    node.gpu_load = 0;
    assert_eq!(calculate_load_factor(&node), 0);
}

#[test]
fn load_factor_takes_a_load_above_one_as_one() {
    let mut node = workstation();
    node.cpu_load = 10_001;
    assert_eq!(calculate_load_factor(&node), 0);
    node.cpu_load = 0;
    node.gpu_load = u32::MAX;
    assert_eq!(calculate_load_factor(&node), 0);
}

#[test]
fn effective_score_is_raw_over_net_times_load() {
    let mut node = workstation();
    node.net_rtt_ema_us = 20_000;
    node.cpu_load = 2_500;
    node.gpu_load = 5_000;
    let score = calculate_effective_opi(&node);
    // 238 points, halved by the network and halved again by the load.
    assert_eq!(score.num, 238 * SCORE_SCALE * 5_000);
    assert_eq!(score.den, 20_000);
    assert_eq!(score.num / score.den as u128, 238 * SCORE_SCALE / 4);
    let float = score_in_points(&node) / 2.0 * 0.5;
    let exact = score.num as f64 / score.den as f64 / SCORE_SCALE as f64;
    assert!((exact - float).abs() < 1e-9);
    assert!((exact - 59.5).abs() < 1e-9);
}

#[test]
fn effective_score_of_an_idle_local_node_is_its_raw_score() {
    let node = workstation();
    let score = calculate_effective_opi(&node);
    assert_eq!(score.num, calculate_raw_opi(&node) * 10_000);
    assert_eq!(score.den, 10_000);
    assert!(score.is_positive());
}

#[test]
fn effective_score_is_zero_for_suspect_and_quarantined_nodes() {
    let mut suspect = workstation();
    suspect.health_state = HealthState::Suspect;
    let score = calculate_effective_opi(&suspect);
    assert_eq!(score.num, 0);
    assert!(!score.is_positive());

    let mut quarantined = workstation();
    quarantined.health_state = HealthState::Quarantined;
    assert_eq!(calculate_effective_opi(&quarantined).num, 0);

    let mut huge = workstation();
    huge.total_ram_mb = u64::MAX;
    huge.pcie_lanes = u32::MAX;
    huge.pcie_gen = u32::MAX;
    huge.health_state = HealthState::Suspect;
    assert_eq!(calculate_effective_opi(&huge).num, 0);
    huge.health_state = HealthState::Quarantined;
    assert_eq!(calculate_effective_opi(&huge).num, 0);
}

#[test]
fn effective_score_is_zero_under_the_quarantine_flag() {
    let mut node = workstation();
    node.is_quarantined = true;
    node.health_state = HealthState::Healthy;
    let score = calculate_effective_opi(&node);
    assert_eq!(score.num, 0);
    assert_eq!(score.den, 10_000);
}

#[test]
fn effective_score_of_a_degraded_node_is_not_zeroed() {
    let mut node = workstation();
    node.health_state = HealthState::Degraded;
    node.net_rtt_ema_us = 200_000;
    let score = calculate_effective_opi(&node);
    assert!(score.is_positive());
    // The round-trip time alone penalises it: tenfold.
    assert_eq!(score.num, 238 * SCORE_SCALE * 10_000);
    assert_eq!(score.den, 100_000);
}

#[test]
fn effective_score_of_a_saturated_node_is_zero() {
    let mut node = workstation();
    node.gpu_load = 10_000;
    let score = calculate_effective_opi(&node);
    assert_eq!(score.num, 0);
    assert!(!score.is_positive());
}

#[test]
fn scores_compare_as_fractions() {
    let half = EffectiveScore { num: 1, den: 20_000 };
    let third = EffectiveScore { num: 1, den: 30_000 };
    let two_quarters = EffectiveScore { num: 2, den: 40_000 };
    let zero = EffectiveScore { num: 0, den: 10_000 };
    assert!(half.is_at_least(&third));
    assert!(!third.is_at_least(&half));
    assert!(half.is_at_least(&two_quarters));
    assert!(two_quarters.is_at_least(&half));
    assert!(half.is_at_least(&zero));
    assert!(!zero.is_at_least(&half));
    assert!(zero.is_at_least(&zero));
}

#[test]
fn scores_at_the_bounds_compare_without_overflow() {
    let top = EffectiveScore { num: RAW_SCORE_LIMIT * 10_000, den: 10_000 };
    let slow = EffectiveScore { num: RAW_SCORE_LIMIT * 10_000, den: 100_000 };
    assert!(top.is_at_least(&slow));
    assert!(!slow.is_at_least(&top));
    assert!(top.is_at_least(&top));
}
