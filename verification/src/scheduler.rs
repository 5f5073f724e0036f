//! The scheduler: the node registry, the server's own status, and the
//! decisions taken on them.

use dashmap::DashMap;
use vstd::prelude::*;

use crate::clock::wall_clock_micros;
use crate::command::{
    acknowledgement,
    create_shard_command,
    is_acknowledgement,
    is_shard_task,
    is_uuid_text,
    AdminRequestPayload,
    AssistRequestPayload,
    BabelRequestPayload,
    CommandType,
    OffloadRequestPayload,
    ServerCommand,
};
use crate::health::{apply_status_update, status_applied};
use crate::model::{
    ContainerInfo,
    HealthState,
    NodeContext,
    OverloadThresholds,
    ServerStatus,
};
use crate::ranking::{eligible, is_ranking, rank_candidates};
use crate::registry::{
    no_nodes,
    node_entries,
    nodes_get,
    nodes_insert,
    nodes_keys,
    nodes_len,
    nodes_new,
};
use crate::scoring::{calculate_raw_opi, determine_tier, ranks_at_least, raw_score, tier_of};

verus! {

/// The number of candidates that receive a shard when the server is
/// overloaded.
pub const MAX_SHARD_TARGETS: usize = 3;

/// The admission-control and scheduling core.
///
/// A change takes an exclusive reference to the scheduler: callers that share
/// one put it behind a lock. Every scheduler that `new` made and that only the
/// methods of this type changed is well-formed.
#[derive(Debug)]
pub struct StcScheduler {
    pub master_id: String,
    pub nodes: DashMap<String, NodeContext>,
    pub thresholds: OverloadThresholds,
    pub server_status: ServerStatus,
    pub container_registry: Vec<ContainerInfo>,
}

/// The node as the registry takes it in: with no round-trip estimate, healthy,
/// without failures, not quarantined, and in the tier that its hardware score
/// calls for, whatever the caller put in these fields.
pub open spec fn registered(ctx: NodeContext) -> NodeContext {
    NodeContext {
        net_rtt_ema_us: 0,
        health_state: HealthState::Healthy,
        failure_count: 0,
        is_quarantined: false,
        current_tier: tier_of(raw_score(ctx)),
        ..ctx
    }
}

/// The registry after a status update for `id`: the entry of `id` with the
/// update applied, or the registry as it was where it has no such entry.
pub open spec fn status_recorded(
    registry: Map<Seq<char>, NodeContext>,
    id: Seq<char>,
    cpu: u32,
    gpu: u32,
    charging: bool,
    net: String,
    allowed: bool,
    rtt_us: u64,
    seen_at: u64,
    now: u64,
) -> Map<Seq<char>, NodeContext> {
    if registry.dom().contains(id) {
        registry.insert(
            id,
            status_applied(registry[id], cpu, gpu, charging, net, allowed, rtt_us, seen_at, now),
        )
    } else {
        registry
    }
}

/// Whether `ids` ranks the candidates of `registry`: it names the eligible
/// nodes, each of them once, the higher effective score first. Nodes with the
/// same effective score may stand in either order.
pub open spec fn is_candidate_ranking(
    registry: Map<Seq<char>, NodeContext>,
    ids: Seq<String>,
) -> bool {
    &&& forall|i: int|
        0 <= i < ids.len() ==> registry.dom().contains((#[trigger] ids[i])@) && eligible(
            registry[ids[i]@],
        )
    &&& forall|id: Seq<char>|
        registry.dom().contains(id) && eligible(#[trigger] registry[id]) ==> exists|i: int|
            0 <= i < ids.len() && (#[trigger] ids[i])@ == id
    &&& forall|i: int, j: int|
        0 <= i < j < ids.len() ==> (#[trigger] ids[i])@ != (#[trigger] ids[j])@
    &&& forall|i: int, j: int|
        0 <= i < j < ids.len() ==> ranks_at_least(
            registry[(#[trigger] ids[i])@],
            registry[(#[trigger] ids[j])@],
        )
}

/// Whether `commands` is the shard plan for `ranking`: one command for each of
/// the first three candidates, or for all of them where they are fewer, in the
/// order of the ranking; each command assigns one shard of its own, named by
/// the text of a UUID.
pub open spec fn is_shard_plan(ranking: Seq<String>, commands: Seq<(String, ServerCommand)>) -> bool {
    &&& commands.len() == if ranking.len() < MAX_SHARD_TARGETS {
        ranking.len()
    } else {
        MAX_SHARD_TARGETS as nat
    }
    &&& forall|i: int|
        0 <= i < commands.len() ==> {
            &&& (#[trigger] commands[i]).0@ == ranking[i]@
            &&& is_uuid_text(commands[i].1.task_id@)
            &&& is_shard_task(commands[i].1, commands[i].1.task_id@)
        }
}

/// One shard command for each of the first three of `candidates`.
pub fn plan_shards(candidates: &Vec<String>) -> (commands: Vec<(String, ServerCommand)>)
    ensures
        is_shard_plan(candidates@, commands@),
{
    let mut commands: Vec<(String, ServerCommand)> = Vec::new();
    let mut i: usize = 0;
    while i < candidates.len() && i < MAX_SHARD_TARGETS
        invariant
            i <= candidates.len(),
            i <= MAX_SHARD_TARGETS,
            commands.len() == i,
            forall|j: int|
                0 <= j < i ==> {
                    &&& (#[trigger] commands[j]).0@ == candidates[j]@
                    &&& is_uuid_text(commands[j].1.task_id@)
                    &&& is_shard_task(commands[j].1, commands[j].1.task_id@)
                },
        decreases candidates.len() - i,
    {
        commands.push((candidates[i].clone(), create_shard_command()));
        i += 1;
    }
    commands
}

impl StcScheduler {
    /// The registry: the node stored under each identifier.
    pub open spec fn registry(&self) -> Map<Seq<char>, NodeContext> {
        node_entries(self.nodes)
    }

    /// The registry holds finitely many nodes, each under its own identifier.
    pub open spec fn wf(&self) -> bool {
        &&& self.registry().dom().finite()
        &&& forall|id: Seq<char>|
            self.registry().dom().contains(id) ==> (#[trigger] self.registry()[id]).node_id@ == id
    }

    /// Whether the server is overloaded: its CPU load or its VRAM pressure is
    /// above the threshold. The GPU load is not consulted.
    pub open spec fn overloaded(&self) -> bool {
        self.server_status.cpu_load > self.thresholds.cpu_max || self.server_status.vram_usage_ratio
            > self.thresholds.vram_pressure_max
    }

    /// Whether `self` and `other` agree on everything but the registry.
    pub open spec fn same_settings(&self, other: &StcScheduler) -> bool {
        &&& self.master_id == other.master_id
        &&& self.thresholds == other.thresholds
        &&& self.server_status == other.server_status
        &&& self.container_registry == other.container_registry
    }

    /// A scheduler without nodes, whose own load is zero. `catalog` is the
    /// container catalog as it was loaded, or `None` where it could not be:
    /// the scheduler then starts with an empty catalog.
    pub fn new(
        master_id: String,
        thresholds: OverloadThresholds,
        catalog: Option<Vec<ContainerInfo>>,
    ) -> (scheduler: Self)
        ensures
            scheduler.wf(),
            scheduler.registry() == no_nodes(),
            scheduler.master_id == master_id,
            scheduler.thresholds == thresholds,
            scheduler.server_status.cpu_load == 0,
            scheduler.server_status.gpu_load == 0,
            scheduler.server_status.vram_usage_ratio == 0,
            catalog matches Some(entries) ==> scheduler.container_registry == entries,
            catalog is None ==> scheduler.container_registry@.len() == 0,
    {
        let container_registry = match catalog {
            Some(entries) => entries,
            None => Vec::new(),
        };
        StcScheduler {
            master_id,
            nodes: nodes_new(),
            thresholds,
            server_status: ServerStatus::default(),
            container_registry,
        }
    }

    /// Takes a node into the registry, in place of the node that was there
    /// under the same identifier, if any.
    pub fn register_node_ctx(&mut self, ctx: NodeContext)
        requires
            old(self).wf(),
        ensures
            final(self).wf(),
            final(self).same_settings(old(self)),
            final(self).registry() == old(self).registry().insert(ctx.node_id@, registered(ctx)),
    {
        let mut ctx = ctx;
        ctx.net_rtt_ema_us = 0;
        ctx.health_state = HealthState::Healthy;
        ctx.failure_count = 0;
        ctx.is_quarantined = false;
        let score: u128 = calculate_raw_opi(&ctx);
        ctx.current_tier = determine_tier(score);
        let node_id = ctx.node_id.clone();
        nodes_insert(&mut self.nodes, node_id, ctx);
    }

    /// The node registered under `id`, or `None` where there is none.
    pub fn lookup(&self, id: &str) -> (found: Option<NodeContext>)
        ensures
            found is Some <==> self.registry().dom().contains(id@),
            found matches Some(node) ==> node == self.registry()[id@],
    {
        nodes_get(&self.nodes, id)
    }

    /// The number of registered nodes.
    pub fn node_count(&self) -> (count: usize)
        requires
            self.wf(),
        ensures
            count == self.registry().dom().len(),
    {
        nodes_len(&self.nodes)
    }

    /// Records a status update for the node `id` that was received at
    /// `seen_at` and is evaluated at `now`. Without such a node nothing
    /// changes.
    pub fn update_node_status_at(
        &mut self,
        id: &str,
        cpu: u32,
        gpu: u32,
        charging: bool,
        net: String,
        allowed: bool,
        rtt_us: u64,
        seen_at: u64,
        now: u64,
    )
        requires
            old(self).wf(),
        ensures
            final(self).wf(),
            final(self).same_settings(old(self)),
            final(self).registry() == status_recorded(
                old(self).registry(),
                id@,
                cpu,
                gpu,
                charging,
                net,
                allowed,
                rtt_us,
                seen_at,
                now,
            ),
    {
        match nodes_get(&self.nodes, id) {
            None => {},
            Some(found) => {
                let mut node = found;
                apply_status_update(&mut node, cpu, gpu, charging, net, allowed, rtt_us, seen_at, now);
                nodes_insert(&mut self.nodes, id.to_owned(), node);
            },
        }
    }

    /// Records a status update for the node `id`, with the round-trip sample
    /// `rtt_us` (0 for none), at the time that the clock shows.
    pub fn update_node_status_with_rtt(
        &mut self,
        id: &str,
        cpu: u32,
        gpu: u32,
        charging: bool,
        net: String,
        allowed: bool,
        rtt_us: u64,
    )
        requires
            old(self).wf(),
        ensures
            final(self).wf(),
            final(self).same_settings(old(self)),
            exists|seen_at: u64, now: u64|
                final(self).registry() == #[trigger] status_recorded(
                    old(self).registry(),
                    id@,
                    cpu,
                    gpu,
                    charging,
                    net,
                    allowed,
                    rtt_us,
                    seen_at,
                    now,
                ),
    {
        let seen_at: u64 = wall_clock_micros();
        let now: u64 = wall_clock_micros();
        self.update_node_status_at(id, cpu, gpu, charging, net, allowed, rtt_us, seen_at, now);
    }

    /// Records a status update without a round-trip sample for the node `id`.
    pub fn update_node_status(
        &mut self,
        id: &str,
        cpu: u32,
        gpu: u32,
        charging: bool,
        net: String,
        allowed: bool,
    )
        requires
            old(self).wf(),
        ensures
            final(self).wf(),
            final(self).same_settings(old(self)),
            exists|seen_at: u64, now: u64|
                final(self).registry() == #[trigger] status_recorded(
                    old(self).registry(),
                    id@,
                    cpu,
                    gpu,
                    charging,
                    net,
                    allowed,
                    0,
                    seen_at,
                    now,
                ),
    {
        self.update_node_status_with_rtt(id, cpu, gpu, charging, net, allowed, 0);
    }

    /// Replaces the server's own status.
    pub fn update_master_status(&mut self, cpu: u32, gpu: u32, vram_ratio: u32)
        ensures
            final(self).server_status.cpu_load == cpu,
            final(self).server_status.gpu_load == gpu,
            final(self).server_status.vram_usage_ratio == vram_ratio,
            final(self).registry() == old(self).registry(),
            final(self).master_id == old(self).master_id,
            final(self).thresholds == old(self).thresholds,
            final(self).container_registry == old(self).container_registry,
    {
        self.server_status = ServerStatus { cpu_load: cpu, gpu_load: gpu, vram_usage_ratio: vram_ratio };
    }

    /// Whether the server is overloaded.
    pub fn is_overloaded(&self) -> (overloaded: bool)
        ensures
            overloaded == self.overloaded(),
    {
        self.server_status.cpu_load > self.thresholds.cpu_max || self.server_status.vram_usage_ratio
            > self.thresholds.vram_pressure_max
    }

    /// The identifiers of the candidates, the highest effective score first.
    pub fn find_smart_candidates(&self) -> (ids: Vec<String>)
        requires
            self.wf(),
        ensures
            is_candidate_ranking(self.registry(), ids@),
    {
        let keys: Vec<String> = nodes_keys(&self.nodes);
        let mut nodes: Vec<NodeContext> = Vec::new();
        let mut k: usize = 0;
        while k < keys.len()
            invariant
                k <= keys.len(),
                nodes.len() == k,
                forall|i: int|
                    0 <= i < keys.len() ==> self.registry().dom().contains((#[trigger] keys[i])@),
                forall|i: int|
                    0 <= i < k ==> (#[trigger] nodes[i]) == self.registry()[keys[i]@],
            decreases keys.len() - k,
        {
            match nodes_get(&self.nodes, keys[k].as_str()) {
                Some(node) => {
                    nodes.push(node);
                },
                None => {
                    // The key was listed, so the map holds a node under it.
                    assert(self.registry().dom().contains(keys[k as int]@));
                },
            }
            k += 1;
        }
        let order: Vec<usize> = rank_candidates(&nodes);
        let mut ids: Vec<String> = Vec::new();
        let mut r: usize = 0;
        while r < order.len()
            invariant
                r <= order.len(),
                ids.len() == r,
                nodes.len() == keys.len(),
                is_ranking(nodes@, order@),
                forall|i: int| 0 <= i < r ==> (#[trigger] ids[i])@ == nodes[order[i] as int].node_id@,
            decreases order.len() - r,
        {
            let position: usize = order[r];
            ids.push(nodes[position].node_id.clone());
            r += 1;
        }
        proof {
            let registry = self.registry();
            assert forall|i: int| 0 <= i < ids.len() implies (#[trigger] ids[i])@ == keys[order[i] as int]@
                && registry[ids[i]@] == nodes[order[i] as int] by {
                let m = order[i] as int;
                assert(nodes[m] == registry[keys[m]@]);
            }
            assert forall|id: Seq<char>|
                registry.dom().contains(id) && eligible(#[trigger] registry[id]) implies exists|i: int|
                0 <= i < ids.len() && (#[trigger] ids[i])@ == id by {
                let m = choose|m: int| 0 <= m < keys.len() && (#[trigger] keys[m])@ == id;
                assert(nodes[m] == registry[keys[m]@]);
                assert(eligible(nodes@[m]));
                let i0 = choose|i: int| 0 <= i < order.len() && #[trigger] order[i] == m;
                assert(ids[i0]@ == id);
            }
            assert forall|i: int, j: int| 0 <= i < j < ids.len() implies (#[trigger] ids[i])@
                != (#[trigger] ids[j])@ by {
                let a = order[i] as int;
                let b = order[j] as int;
                assert(ids[i]@ == keys[a]@ && ids[j]@ == keys[b]@);
                if a == b {
                    assert(ranks_at_least(nodes[order[j] as int], nodes[order[i] as int]));
                }
            }
            assert forall|i: int, j: int| 0 <= i < j < ids.len() implies ranks_at_least(
                registry[(#[trigger] ids[i])@],
                registry[(#[trigger] ids[j])@],
            ) by {
                assert(registry[ids[i]@] == nodes[order[i] as int]);
                assert(registry[ids[j]@] == nodes[order[j] as int]);
            }
        }
        ids
    }

    /// Where the server is overloaded, one shard command for each of the
    /// three highest-ranked candidates, paired with the identifier of the node
    /// that is to receive it. Where it is not, or where no node is eligible,
    /// no command.
    pub fn check_server_overload_and_shard(&self) -> (commands: Vec<(String, ServerCommand)>)
        requires
            self.wf(),
        ensures
            !self.overloaded() ==> commands@.len() == 0,
            (forall|id: Seq<char>|
                self.registry().dom().contains(id) ==> !eligible(#[trigger] self.registry()[id]))
                ==> commands@.len() == 0,
            self.overloaded() ==> exists|ranking: Seq<String>|
                is_candidate_ranking(self.registry(), ranking) && #[trigger] is_shard_plan(
                    ranking,
                    commands@,
                ),
    {
        if self.is_overloaded() {
            let candidates = self.find_smart_candidates();
            proof {
                if candidates.len() > 0 {
                    assert(eligible(self.registry()[candidates[0]@]));
                }
            }
            plan_shards(&candidates)
        } else {
            Vec::new()
        }
    }

    /// Accepts a request to offload a task: the acknowledgement names the task
    /// after the client.
    pub fn handle_offload_request(
        &self,
        client_id: &str,
        _req: &OffloadRequestPayload,
    ) -> (reply: Option<ServerCommand>)
        ensures
            reply matches Some(cmd) && is_acknowledgement(
                cmd,
                CommandType::OffloadAccepted,
                "offload_"@,
                client_id@,
            ),
    {
        Some(acknowledgement(CommandType::OffloadAccepted, "offload_", client_id))
    }

    /// Starts a streaming session: the command names the session after the
    /// client.
    pub fn handle_babel_request(
        &self,
        client_id: &str,
        _req: &BabelRequestPayload,
    ) -> (reply: Option<ServerCommand>)
        ensures
            reply matches Some(cmd) && is_acknowledgement(
                cmd,
                CommandType::StreamInit,
                "babel_"@,
                client_id@,
            ),
    {
        Some(acknowledgement(CommandType::StreamInit, "babel_", client_id))
    }

    /// Takes a request for assistance, to which there is no reply.
    pub fn handle_assist_request(
        &self,
        _client_id: &str,
        _req: &AssistRequestPayload,
    ) -> (reply: Option<ServerCommand>)
        ensures
            reply is None,
    {
        None
    }

    /// Takes an administrator's request and reports it as processed, whatever
    /// it asks.
    pub fn handle_admin_action(&self, _req: &AdminRequestPayload) -> (outcome: Result<String, String>)
        ensures
            outcome matches Ok(text) && text@ == "Processed"@,
    {
        Ok("Processed".to_owned())
    }
}

/// The registry after the nodes of `ctxs` were registered one after the other,
/// the first of them first.
pub open spec fn registered_all(
    registry: Map<Seq<char>, NodeContext>,
    ctxs: Seq<NodeContext>,
) -> Map<Seq<char>, NodeContext>
    decreases ctxs.len(),
{
    if ctxs.len() == 0 {
        registry
    } else {
        registered_all(registry, ctxs.drop_last()).insert(
            ctxs.last().node_id@,
            registered(ctxs.last()),
        )
    }
}

/// Registering nodes with distinct identifiers in an empty registry, one
/// after the other, leaves as many entries as there were nodes: none is lost
/// and none stands twice, and each node is found under its identifier as it
/// was taken in.
pub proof fn lemma_distinct_registrations_all_kept(ctxs: Seq<NodeContext>)
    requires
        forall|i: int, j: int|
            0 <= i < j < ctxs.len() ==> (#[trigger] ctxs[i]).node_id@ != (#[trigger] ctxs[j]).node_id@,
    ensures
        registered_all(no_nodes(), ctxs).dom().finite(),
        registered_all(no_nodes(), ctxs).dom().len() == ctxs.len(),
        forall|i: int|
            0 <= i < ctxs.len() ==> {
                &&& registered_all(no_nodes(), ctxs).dom().contains((#[trigger] ctxs[i]).node_id@)
                &&& registered_all(no_nodes(), ctxs)[ctxs[i].node_id@] == registered(ctxs[i])
            },
        forall|id: Seq<char>|
            registered_all(no_nodes(), ctxs).dom().contains(id) ==> exists|i: int|
                0 <= i < ctxs.len() && (#[trigger] ctxs[i]).node_id@ == id,
    decreases ctxs.len(),
{
    if ctxs.len() > 0 {
        let front = ctxs.drop_last();
        let last = ctxs.last();
        lemma_distinct_registrations_all_kept(front);
        let before = registered_all(no_nodes(), front);
        let after = registered_all(no_nodes(), ctxs);
        assert(after == before.insert(last.node_id@, registered(last)));
        assert(!before.dom().contains(last.node_id@)) by {
            if before.dom().contains(last.node_id@) {
                let i = choose|i: int| 0 <= i < front.len() && (#[trigger] front[i]).node_id@ == last.node_id@;
                assert(ctxs[i] == front[i]);
                assert(ctxs[ctxs.len() - 1] == last);
            }
        }
        assert forall|i: int| 0 <= i < ctxs.len() implies {
            &&& after.dom().contains((#[trigger] ctxs[i]).node_id@)
            &&& after[ctxs[i].node_id@] == registered(ctxs[i])
        } by {
            if i < front.len() {
                assert(ctxs[i] == front[i]);
                assert(ctxs[ctxs.len() - 1] == last);
            }
        }
        assert forall|id: Seq<char>| after.dom().contains(id) implies exists|i: int|
            0 <= i < ctxs.len() && (#[trigger] ctxs[i]).node_id@ == id by {
            if id == last.node_id@ {
                assert(ctxs[ctxs.len() - 1].node_id@ == id);
            } else {
                let i = choose|i: int| 0 <= i < front.len() && (#[trigger] front[i]).node_id@ == id;
                assert(ctxs[i] == front[i]);
            }
        }
    }
}

/// Registering a node again replaces its entry: the registry has as many
/// entries as before, and holds the node as it was taken in the second time.
pub proof fn lemma_reregistration_replaces(
    registry: Map<Seq<char>, NodeContext>,
    first: NodeContext,
    second: NodeContext,
)
    requires
        registry.dom().finite(),
        first.node_id@ == second.node_id@,
    ensures
        ({
            let once = registry.insert(first.node_id@, registered(first));
            let twice = once.insert(second.node_id@, registered(second));
            &&& twice.dom() == once.dom()
            &&& twice.dom().len() == once.dom().len()
            &&& twice[second.node_id@] == registered(second)
        }),
{
    let once = registry.insert(first.node_id@, registered(first));
    let twice = once.insert(second.node_id@, registered(second));
    assert(twice.dom() =~= once.dom());
}

/// The shard commands go to the top of the ranking. Their receivers are
/// eligible nodes, no two of them the same, the higher effective score first.
/// Every receiver ranks at least as high as every eligible node that receives
/// no command. Where fewer than three commands are planned, every eligible
/// node receives one.
pub proof fn lemma_shards_go_to_top_candidates(
    registry: Map<Seq<char>, NodeContext>,
    ranking: Seq<String>,
    commands: Seq<(String, ServerCommand)>,
)
    requires
        is_candidate_ranking(registry, ranking),
        is_shard_plan(ranking, commands),
    ensures
        commands.len() <= MAX_SHARD_TARGETS,
        forall|i: int|
            0 <= i < commands.len() ==> registry.dom().contains((#[trigger] commands[i]).0@)
                && eligible(registry[commands[i].0@]),
        forall|i: int, j: int|
            0 <= i < j < commands.len() ==> (#[trigger] commands[i]).0@ != (#[trigger] commands[j]).0@,
        forall|i: int, j: int|
            0 <= i < j < commands.len() ==> ranks_at_least(
                registry[(#[trigger] commands[i]).0@],
                registry[(#[trigger] commands[j]).0@],
            ),
        forall|i: int, id: Seq<char>|
            0 <= i < commands.len() && registry.dom().contains(id) && eligible(registry[id])
                && (forall|j: int| 0 <= j < commands.len() ==> (#[trigger] commands[j]).0@ != id)
                ==> ranks_at_least(registry[(#[trigger] commands[i]).0@], #[trigger] registry[id]),
        commands.len() < MAX_SHARD_TARGETS ==> forall|id: Seq<char>|
            registry.dom().contains(id) && eligible(#[trigger] registry[id]) ==> exists|i: int|
                0 <= i < commands.len() && (#[trigger] commands[i]).0@ == id,
{
    assert forall|i: int| 0 <= i < commands.len() implies registry.dom().contains(
        (#[trigger] commands[i]).0@,
    ) && eligible(registry[commands[i].0@]) by {
        assert(commands[i].0@ == ranking[i]@);
    }
    assert forall|i: int, j: int| 0 <= i < j < commands.len() implies (#[trigger] commands[i]).0@
        != (#[trigger] commands[j]).0@ && ranks_at_least(
        registry[commands[i].0@],
        registry[commands[j].0@],
    ) by {
        assert(commands[i].0@ == ranking[i]@);
        assert(commands[j].0@ == ranking[j]@);
    }
    assert forall|i: int, id: Seq<char>|
        0 <= i < commands.len() && registry.dom().contains(id) && eligible(registry[id])
            && (forall|j: int| 0 <= j < commands.len() ==> (#[trigger] commands[j]).0@ != id)
        implies ranks_at_least(registry[(#[trigger] commands[i]).0@], #[trigger] registry[id]) by {
        let r = choose|r: int| 0 <= r < ranking.len() && (#[trigger] ranking[r])@ == id;
        assert(commands[i].0@ == ranking[i]@);
        if r < commands.len() {
            assert(commands[r].0@ == ranking[r]@);
        }
    }
    if commands.len() < MAX_SHARD_TARGETS {
        assert forall|id: Seq<char>|
            registry.dom().contains(id) && eligible(#[trigger] registry[id]) implies exists|i: int|
            0 <= i < commands.len() && (#[trigger] commands[i]).0@ == id by {
            let r = choose|r: int| 0 <= r < ranking.len() && (#[trigger] ranking[r])@ == id;
            assert(commands[r].0@ == ranking[r]@);
        }
    }
}

} // verus!
