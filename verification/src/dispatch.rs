//! The fleet dispatcher's routing policy: per command kind, broadcast to
//! every node, resolve-then-route to exactly one node, or
//! resolve-then-fan-out to every matched candidate.  Resolution cardinality
//! drives the policy: zero candidates is a terminal error before any remote
//! execution; an ambiguous single-target command executes nowhere; a
//! multi-target command gets exactly one scoped call per matched candidate.
//! Aggregation is element-wise, so one call's failure never suppresses
//! another's success.

use vstd::prelude::*;

use crate::command::{clone_opt, clone_strings, cmd_equiv, opt_eq, InternalCommand};
use crate::directory::Client;
use crate::resolve::{spec_node_error_message, NodeError, ResolvedCandidate};
use crate::text::{join_strings, spec_join};

verus! {

/// Commands with no single owning node, sent to every fleet node.
pub open spec fn spec_is_broadcast(cmd: InternalCommand) -> bool {
    ||| cmd matches InternalCommand::Images { .. }
    ||| cmd matches InternalCommand::Ps { .. }
    ||| cmd matches InternalCommand::System(_)
}

/// Commands that name exactly one container and must run on exactly one
/// node.
pub open spec fn spec_is_single_target(cmd: InternalCommand) -> bool {
    ||| cmd matches InternalCommand::Exec { .. }
    ||| cmd matches InternalCommand::Logs { .. }
    ||| cmd matches InternalCommand::Stop { .. }
}

/// Commands that may address several containers and fan out to every match.
pub open spec fn spec_is_multi_target(cmd: InternalCommand) -> bool {
    ||| cmd matches InternalCommand::Restart { .. }
    ||| cmd matches InternalCommand::Rm { .. }
    ||| cmd matches InternalCommand::Start { .. }
}

/// The single target id of a single-target command.
pub open spec fn spec_single_target_id(cmd: InternalCommand) -> Seq<char> {
    match cmd {
        InternalCommand::Exec { container_id, .. } => container_id@,
        InternalCommand::Logs { container_id, .. } => container_id@,
        InternalCommand::Stop { container_id } => container_id@,
        _ => Seq::empty(),
    }
}

/// The ids a command asks to resolve, in input order; empty for broadcast
/// commands.
pub open spec fn spec_target_ids(cmd: InternalCommand) -> Seq<Seq<char>> {
    match cmd {
        InternalCommand::Exec { container_id, .. } => seq![container_id@],
        InternalCommand::Logs { container_id, .. } => seq![container_id@],
        InternalCommand::Stop { container_id } => seq![container_id@],
        InternalCommand::Restart { container_id, .. } => container_id.deep_view(),
        InternalCommand::Rm { container_id, .. } => container_id.deep_view(),
        InternalCommand::Start { container_id, .. } => container_id.deep_view(),
        _ => Seq::empty(),
    }
}

/// The terminal, user-facing failure of one routed command.
#[derive(Debug)]
pub enum CommandError {
    /// No node hosts the single requested container.
    NoNodesFound(String),
    /// No node hosts any of the requested containers.
    NoMultipleNodesFound(Vec<String>),
    /// Several candidates match a single-target command; nothing was run.
    MutlipleNodesFound(Vec<String>),
    /// A per-node failure, surfaced alongside the other nodes' outcomes.
    NodeError(NodeError),
}

/// The message text of a dispatch error.
pub open spec fn spec_command_error_message(e: CommandError) -> Seq<char> {
    match e {
        CommandError::NoNodesFound(id) => "No node found containing the following container: "@
            + id@,
        CommandError::NoMultipleNodesFound(ids) =>
            "No nodes found containing the following containers:\n"@ + spec_join(
            ids.deep_view(),
            "\n"@,
        ),
        CommandError::MutlipleNodesFound(nodes) => "Multiple nodes found with matching criteria:\n"@
            + spec_join(nodes.deep_view(), "\n"@),
        CommandError::NodeError(ne) => spec_node_error_message(ne),
    }
}

impl CommandError {
    /// Renders the error for display.
    pub fn message(&self) -> (r: String)
        ensures
            r@ == spec_command_error_message(*self),
    {
        match self {
            CommandError::NoNodesFound(id) => {
                let mut r = "No node found containing the following container: ".to_owned();
                r.append(id.as_str());
                r
            },
            CommandError::NoMultipleNodesFound(ids) => {
                let mut r = "No nodes found containing the following containers:\n".to_owned();
                let joined = join_strings(ids, "\n");
                r.append(joined.as_str());
                r
            },
            CommandError::MutlipleNodesFound(nodes) => {
                let mut r = "Multiple nodes found with matching criteria:\n".to_owned();
                let joined = join_strings(nodes, "\n");
                r.append(joined.as_str());
                r
            },
            CommandError::NodeError(ne) => ne.message(),
        }
    }
}

impl From<NodeError> for CommandError {
    fn from(node_error: NodeError) -> (r: Self) {
        CommandError::NodeError(node_error)
    }
}

impl vstd::std_specs::convert::FromSpecImpl<NodeError> for CommandError {
    open spec fn obeys_from_spec() -> bool {
        true
    }

    open spec fn from_spec(node_error: NodeError) -> Self {
        CommandError::NodeError(node_error)
    }
}

/// How a resolved command reaches one node: the command carried whole to the
/// owning node, or scoped to one matched container of that node.
#[derive(Debug)]
pub struct RemoteCall {
    pub node: String,
    pub command: InternalCommand,
}

/// What the dispatcher decided for a resolve-path command: the remote calls
/// to issue, or a terminal error with zero remote calls.
#[derive(Debug)]
pub enum RouteDecision {
    Calls(Vec<RemoteCall>),
    Fail(CommandError),
}

/// What the dispatcher must do for a command before any execution.
#[derive(Debug)]
pub enum DispatchPlan {
    /// Fan the command out to every fleet node; no resolution.
    Broadcast,
    /// Resolve these ids first, then route by the outcome.
    Resolve(Vec<String>),
}

/// Chooses the path of a command: broadcast commands skip resolution, every
/// other command first resolves its target ids.
pub fn plan_of(cmd: &InternalCommand) -> (p: DispatchPlan)
    ensures
        p is Broadcast <==> spec_is_broadcast(*cmd),
        p matches DispatchPlan::Resolve(ids) ==> ids.deep_view() == spec_target_ids(*cmd),
{
    match cmd {
        InternalCommand::Exec { container_id, .. } => {
            let mut ids: Vec<String> = Vec::new();
            ids.push(container_id.clone());
            proof {
                assert(ids.deep_view() =~= spec_target_ids(*cmd));
            }
            DispatchPlan::Resolve(ids)
        },
        InternalCommand::Logs { container_id, .. } => {
            let mut ids: Vec<String> = Vec::new();
            ids.push(container_id.clone());
            proof {
                assert(ids.deep_view() =~= spec_target_ids(*cmd));
            }
            DispatchPlan::Resolve(ids)
        },
        InternalCommand::Stop { container_id } => {
            let mut ids: Vec<String> = Vec::new();
            ids.push(container_id.clone());
            proof {
                assert(ids.deep_view() =~= spec_target_ids(*cmd));
            }
            DispatchPlan::Resolve(ids)
        },
        InternalCommand::Restart { container_id, .. } => DispatchPlan::Resolve(
            clone_strings(container_id),
        ),
        InternalCommand::Rm { container_id, .. } => DispatchPlan::Resolve(
            clone_strings(container_id),
        ),
        InternalCommand::Start { container_id, .. } => DispatchPlan::Resolve(
            clone_strings(container_id),
        ),
        InternalCommand::Images { .. } => DispatchPlan::Broadcast,
        InternalCommand::Ps { .. } => DispatchPlan::Broadcast,
        InternalCommand::System(_) => DispatchPlan::Broadcast,
    }
}

/// Whether `sub` is `cmd` scoped down to the one matched container `target`:
/// the same variant and flags, addressing exactly that container.
pub open spec fn scoped_call(cmd: InternalCommand, target: Seq<char>, sub: InternalCommand) -> bool {
    match (cmd, sub) {
        (
            InternalCommand::Restart { time: t0, .. },
            InternalCommand::Restart { time: t1, container_id: ids },
        ) => opt_eq(t0, t1) && ids.deep_view() == seq![target],
        (
            InternalCommand::Rm { force: f0, volumes: v0, .. },
            InternalCommand::Rm { container_id: ids, force: f1, volumes: v1 },
        ) => f0 == f1 && v0 == v1 && ids.deep_view() == seq![target],
        (
            InternalCommand::Start { attach: a0, .. },
            InternalCommand::Start { attach: a1, container_id: ids },
        ) => a0 == a1 && ids.deep_view() == seq![target],
        _ => false,
    }
}

/// Decides a resolve-path command from its resolution outcome.
///
/// Single-target commands: zero candidates is a terminal "no node found";
/// exactly one candidate routes the whole command to that node; two or more
/// candidates execute nowhere and surface the candidates' identifying rows.
/// Multi-target commands: zero candidates across all requested ids is
/// terminal; otherwise exactly one scoped call per matched candidate, in
/// candidate order.
pub fn route(cmd: InternalCommand, candidates: &Vec<ResolvedCandidate>) -> (r: RouteDecision)
    requires
        spec_is_single_target(cmd) || spec_is_multi_target(cmd),
    ensures
        spec_is_single_target(cmd) ==> match r {
            RouteDecision::Calls(calls) => candidates@.len() == 1 && calls@.len() == 1
                && calls@[0].node@ == candidates@[0].node_address@ && calls@[0].command == cmd,
            RouteDecision::Fail(e) => (candidates@.len() == 0 && (
            e matches CommandError::NoNodesFound(id) && id@ == spec_single_target_id(cmd))) || (
            candidates@.len() >= 2 && (e matches CommandError::MutlipleNodesFound(rows)
                && rows@.len() == candidates@.len() && forall|k: int|
                0 <= k < rows@.len() ==> (#[trigger] rows@[k])@
                    == candidates@[k].first_matching_line@)),
        },
        spec_is_multi_target(cmd) ==> match r {
            RouteDecision::Calls(calls) => candidates@.len() >= 1 && calls@.len()
                == candidates@.len() && forall|k: int|
                0 <= k < calls@.len() ==> (#[trigger] calls@[k]).node@
                    == candidates@[k].node_address@ && scoped_call(
                    cmd,
                    candidates@[k].container_id@,
                    calls@[k].command,
                ),
            RouteDecision::Fail(e) => candidates@.len() == 0 && (
            e matches CommandError::NoMultipleNodesFound(ids) && ids.deep_view() == spec_target_ids(
                cmd,
            )),
        },
{
    let single = match &cmd {
        InternalCommand::Exec { .. } => true,
        InternalCommand::Logs { .. } => true,
        InternalCommand::Stop { .. } => true,
        _ => false,
    };
    if single {
        if candidates.len() == 0 {
            let id = match &cmd {
                InternalCommand::Exec { container_id, .. } => container_id.clone(),
                InternalCommand::Logs { container_id, .. } => container_id.clone(),
                InternalCommand::Stop { container_id } => container_id.clone(),
                _ => unreached(),
            };
            RouteDecision::Fail(CommandError::NoNodesFound(id))
        } else if candidates.len() == 1 {
            let node = candidates[0].node_address.clone();
            let mut calls: Vec<RemoteCall> = Vec::new();
            calls.push(RemoteCall { node, command: cmd });
            RouteDecision::Calls(calls)
        } else {
            let mut rows: Vec<String> = Vec::new();
            let mut i: usize = 0;
            while i < candidates.len()
                invariant
                    i <= candidates@.len(),
                    rows@.len() == i,
                    forall|k: int|
                        0 <= k < rows@.len() ==> (#[trigger] rows@[k])@
                            == candidates@[k].first_matching_line@,
                decreases candidates@.len() - i,
            {
                rows.push(candidates[i].first_matching_line.clone());
                i = i + 1;
            }
            RouteDecision::Fail(CommandError::MutlipleNodesFound(rows))
        }
    } else {
        if candidates.len() == 0 {
            let ids = match &cmd {
                InternalCommand::Restart { container_id, .. } => clone_strings(container_id),
                InternalCommand::Rm { container_id, .. } => clone_strings(container_id),
                InternalCommand::Start { container_id, .. } => clone_strings(container_id),
                _ => unreached(),
            };
            RouteDecision::Fail(CommandError::NoMultipleNodesFound(ids))
        } else {
            let mut calls: Vec<RemoteCall> = Vec::new();
            let mut i: usize = 0;
            while i < candidates.len()
                invariant
                    i <= candidates@.len(),
                    spec_is_multi_target(cmd),
                    calls@.len() == i,
                    forall|k: int|
                        0 <= k < calls@.len() ==> (#[trigger] calls@[k]).node@
                            == candidates@[k].node_address@ && scoped_call(
                            cmd,
                            candidates@[k].container_id@,
                            calls@[k].command,
                        ),
                decreases candidates@.len() - i,
            {
                let target = candidates[i].container_id.clone();
                let mut tv: Vec<String> = Vec::new();
                tv.push(target);
                proof {
                    assert(tv.deep_view() =~= seq![candidates@[i as int].container_id@]);
                }
                let sub = match &cmd {
                    InternalCommand::Restart { time, .. } => InternalCommand::Restart {
                        time: clone_opt(time),
                        container_id: tv,
                    },
                    InternalCommand::Rm { force, volumes, .. } => InternalCommand::Rm {
                        container_id: tv,
                        force: *force,
                        volumes: *volumes,
                    },
                    InternalCommand::Start { attach, .. } => InternalCommand::Start {
                        attach: *attach,
                        container_id: tv,
                    },
                    _ => unreached(),
                };
                let node = candidates[i].node_address.clone();
                calls.push(RemoteCall { node, command: sub });
                i = i + 1;
            }
            RouteDecision::Calls(calls)
        }
    }
}

/// The calls of a broadcast command: one per fleet node, in fleet order,
/// each carrying the same command content.
pub fn broadcast_calls(client: &Client, cmd: &InternalCommand) -> (calls: Vec<RemoteCall>)
    ensures
        calls@.len() == client.nodes@.len(),
        forall|k: int|
            0 <= k < calls@.len() ==> (#[trigger] calls@[k]).node@ == client.nodes@[k].address@
                && cmd_equiv(*cmd, calls@[k].command),
{
    let mut calls: Vec<RemoteCall> = Vec::new();
    let mut i: usize = 0;
    while i < client.nodes.len()
        invariant
            i <= client.nodes@.len(),
            calls@.len() == i,
            forall|k: int|
                0 <= k < calls@.len() ==> (#[trigger] calls@[k]).node@ == client.nodes@[k].address@
                    && cmd_equiv(*cmd, calls@[k].command),
        decreases client.nodes@.len() - i,
    {
        let node = client.nodes[i].address.clone();
        calls.push(RemoteCall { node, command: cmd.clone() });
        i = i + 1;
    }
    calls
}

/// The outcome of one remote call: the captured result text, or the node's
/// typed failure.
#[derive(Debug)]
pub enum ExecutionOutcome {
    Success(String),
    Failure(NodeError),
}

/// The per-node result a caller receives for one outcome.
pub open spec fn spec_outcome_result(o: ExecutionOutcome) -> Result<String, CommandError> {
    match o {
        ExecutionOutcome::Success(s) => Ok(s),
        ExecutionOutcome::Failure(e) => Err(CommandError::NodeError(e)),
    }
}

/// Collects per-node outcomes into the caller's result list: one entry per
/// outcome, in the given order, successes and failures preserved
/// independently.
pub fn aggregate(outcomes: Vec<ExecutionOutcome>) -> (r: Vec<Result<String, CommandError>>)
    ensures
        r@.len() == outcomes@.len(),
        forall|k: int|
            0 <= k < r@.len() ==> #[trigger] r@[k] == spec_outcome_result(outcomes@[k]),
{
    let ghost ov = outcomes@;
    let mut outcomes = outcomes;
    let mut r: Vec<Result<String, CommandError>> = Vec::new();
    while outcomes.len() > 0
        invariant
            r@.len() + outcomes@.len() == ov.len(),
            outcomes@ =~= ov.skip(r@.len() as int),
            forall|k: int|
                0 <= k < r@.len() ==> #[trigger] r@[k] == spec_outcome_result(ov[k]),
        decreases outcomes@.len(),
    {
        let o = outcomes.remove(0);
        proof {
            assert(o == ov[r@.len() as int]);
            assert(outcomes@ =~= ov.skip(r@.len() as int + 1));
        }
        match o {
            ExecutionOutcome::Success(s) => r.push(Ok(s)),
            ExecutionOutcome::Failure(e) => r.push(Err(CommandError::NodeError(e))),
        }
    }
    r
}

/// Fan-out isolation: changing one call's outcome — forcing it to fail —
/// leaves every other call's aggregated result unchanged, and the aggregate
/// still reports one result per call.
pub proof fn lemma_fanout_isolation(a: Seq<ExecutionOutcome>, b: Seq<ExecutionOutcome>, i: int)
    requires
        a.len() == b.len(),
        forall|j: int| 0 <= j < a.len() && j != i ==> a[j] == b[j],
    ensures
        forall|j: int|
            0 <= j < a.len() && j != i ==> spec_outcome_result(a[j]) == spec_outcome_result(b[j]),
{
}

/// Broadcast idempotence: two broadcast rounds against an unchanged fleet
/// issue the same number of calls — one per fleet node — and so produce
/// outcome sets of identical cardinality, whatever each outcome's content.
pub proof fn lemma_broadcast_idempotent(
    fleet_len: int,
    calls1: Seq<RemoteCall>,
    calls2: Seq<RemoteCall>,
    out1: Seq<ExecutionOutcome>,
    out2: Seq<ExecutionOutcome>,
)
    requires
        calls1.len() == fleet_len,
        calls2.len() == fleet_len,
        out1.len() == calls1.len(),
        out2.len() == calls2.len(),
    ensures
        out1.len() == out2.len(),
        out1.len() == fleet_len,
{
}

} // verus!

