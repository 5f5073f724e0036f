//! The data model: node descriptors, health and tier classes, server status
//! and configuration.

use vstd::prelude::*;

verus! {

/// The number of ratio units that stand for 1.0.
pub const RATIO_SCALE: u32 = 10_000;

/// The number of score units in one point of hardware score.
///
/// It is the smallest scale at which every term of the score formula, and the
/// ROCm bonus on top of it, is a whole number.
pub const SCORE_SCALE: u128 = 6_400_000;

/// Coarse performance class of a node, lowest first.
#[derive(Debug, Clone, Copy, PartialEq, Eq, PartialOrd, Ord, Hash, Structural)]
pub enum NodeTier {
    Offline,
    Tier3Mobile,
    Tier2Standard,
    Tier1HighPerformance,
}

impl NodeTier {
    /// The position of the tier in the order, `Offline` being 0.
    pub open spec fn rank_of(self) -> int {
        match self {
            NodeTier::Offline => 0,
            NodeTier::Tier3Mobile => 1,
            NodeTier::Tier2Standard => 2,
            NodeTier::Tier1HighPerformance => 3,
        }
    }

    /// The position of the tier in the order, `Offline` being 0.
    pub fn rank(&self) -> (r: u8)
        ensures
            r == self.rank_of(),
    {
        match self {
            NodeTier::Offline => 0,
            NodeTier::Tier3Mobile => 1,
            NodeTier::Tier2Standard => 2,
            NodeTier::Tier1HighPerformance => 3,
        }
    }
}

/// Health class of a node, recomputed from scratch on every status update.
#[derive(Debug, Clone, Copy, PartialEq, Eq, Hash, Structural)]
pub enum HealthState {
    Healthy,
    Degraded,
    Suspect,
    Quarantined,
}

/// One entry of the container catalog.
#[derive(Debug, Clone)]
pub struct ContainerInfo {
    pub id: String,
    pub name: String,
    pub domain: String,
    pub ai_models: Vec<String>,
    pub description: String,
    pub status: String,
    pub required_vram_gb: u32,
}

/// Everything the scheduler knows about one registered node.
#[derive(Debug)]
pub struct NodeContext {
    pub node_id: String,
    pub device_model: String,
    pub cpu_cores: u32,
    pub total_ram_mb: u64,
    pub has_npu: bool,
    pub has_cuda: bool,
    pub has_rocm: bool,
    pub has_intel_arc: bool,
    pub pcie_lanes: u32,
    pub pcie_gen: u32,
    /// Memory bandwidth in megabytes per second.
    pub memory_bandwidth_mbps: u64,
    pub compute_units: u32,
    pub current_tier: NodeTier,
    /// Time of the last contact, in microseconds of the scheduler's clock.
    pub last_seen: u64,
    /// CPU load in ratio units.
    pub cpu_load: u32,
    /// GPU load in ratio units.
    pub gpu_load: u32,
    pub is_charging: bool,
    pub network_type: String,
    pub user_allowed: bool,
    /// Smoothed round-trip time in microseconds; 0 while no sample has come.
    pub net_rtt_ema_us: u64,
    pub health_state: HealthState,
    /// Consecutive failures; kept, and reset on registration.
    pub failure_count: u32,
    /// Whether the node is excluded from scheduling.
    pub is_quarantined: bool,
}

impl Clone for NodeContext {
    fn clone(&self) -> (copy: Self)
        ensures
            copy == *self,
    {
        NodeContext {
            node_id: self.node_id.clone(),
            device_model: self.device_model.clone(),
            cpu_cores: self.cpu_cores,
            total_ram_mb: self.total_ram_mb,
            has_npu: self.has_npu,
            has_cuda: self.has_cuda,
            has_rocm: self.has_rocm,
            has_intel_arc: self.has_intel_arc,
            pcie_lanes: self.pcie_lanes,
            pcie_gen: self.pcie_gen,
            memory_bandwidth_mbps: self.memory_bandwidth_mbps,
            compute_units: self.compute_units,
            current_tier: self.current_tier,
            last_seen: self.last_seen,
            cpu_load: self.cpu_load,
            gpu_load: self.gpu_load,
            is_charging: self.is_charging,
            network_type: self.network_type.clone(),
            user_allowed: self.user_allowed,
            net_rtt_ema_us: self.net_rtt_ema_us,
            health_state: self.health_state,
            failure_count: self.failure_count,
            is_quarantined: self.is_quarantined,
        }
    }
}

/// Limits above which the coordinating server counts as overloaded, in ratio
/// units.
#[derive(Debug, Clone, Copy)]
pub struct OverloadThresholds {
    pub cpu_max: u32,
    pub gpu_max: u32,
    pub vram_pressure_max: u32,
}

/// The coordinating server's own load, in ratio units.
#[derive(Debug, Clone, Copy)]
pub struct ServerStatus {
    pub cpu_load: u32,
    pub gpu_load: u32,
    pub vram_usage_ratio: u32,
}

impl Default for ServerStatus {
    fn default() -> (status: Self)
        ensures
            status.cpu_load == 0,
            status.gpu_load == 0,
            status.vram_usage_ratio == 0,
    {
        ServerStatus { cpu_load: 0, gpu_load: 0, vram_usage_ratio: 0 }
    }
}

} // verus!
