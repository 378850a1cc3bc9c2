//! What a reader of the monitor sees: the latest flows, each with its
//! owning process where one is known, and the processes whose executable
//! could be resolved.

use crate::connection::Connection;
use crate::process::{views, ProcessInfo, ProcessInfoView, ProcessInfos};
use std::collections::HashMap;
use vstd::prelude::*;
use vstd::std_specs::iter::IteratorSpec;

verus! {

/// The processes whose executable is known.
pub open spec fn resolved(processes: Map<i32, ProcessInfoView>) -> Map<i32, ProcessInfoView> {
    Map::new(
        |pid: i32| processes.contains_key(pid) && processes[pid].executable.len() > 0,
        |pid: i32| processes[pid],
    )
}

/// The flows that a reader goes on with: the latest published ones, or
/// its own where nothing was published.
pub open spec fn current_flows(held: Seq<Connection>, latest: Option<Vec<Connection>>) -> Seq<
    Connection,
> {
    match latest {
        Some(flows) => flows@,
        None => held,
    }
}

/// The processes that a reader goes on with: its own, overlaid with the
/// latest published ones where there are any.
pub open spec fn current_processes(
    held: Map<i32, ProcessInfo>,
    latest: Option<ProcessInfos>,
) -> Map<i32, ProcessInfoView> {
    match latest {
        Some(processes) => views(held).union_prefer_right(views(processes@)),
        None => views(held),
    }
}

/// Every flow of `flows` is the flow of `before` at its index with its
/// process settled against `processes`.
pub open spec fn all_bound(
    flows: Seq<Connection>,
    before: Seq<Connection>,
    processes: Map<i32, ProcessInfo>,
) -> bool {
    &&& flows.len() == before.len()
    &&& forall|i: int| 0 <= i < flows.len() ==> (#[trigger] flows[i]).bound_from(before[i], processes)
}

/// Overlays `processes` with the processes of `latest`.
pub fn absorb_processes(processes: &mut ProcessInfos, latest: &ProcessInfos)
    ensures
        views(final(processes)@) == views(old(processes)@).union_prefer_right(views(latest@)),
{
    broadcast use vstd::std_specs::hash::group_hash_axioms;

    let ghost mut seen: Set<i32> = Set::empty();
    let ghost walk = latest.iter().remaining();
    for pair in it: latest.iter()
        invariant
            it.seq() == walk,
            forall|k: int| 0 <= k < it.index() ==> seen.contains(*(#[trigger] walk[k]).0),
            forall|pid: i32| seen.contains(pid) ==> latest@.contains_key(pid),
            forall|pid: i32| #[trigger]
                seen.contains(pid) ==> processes@.contains_key(pid) && processes@[pid]@
                    == latest@[pid]@,
            forall|pid: i32|
                !seen.contains(pid) ==> (#[trigger] processes@.contains_key(pid)) == old(
                    processes,
                )@.contains_key(pid),
            forall|pid: i32|
                !seen.contains(pid) && old(processes)@.contains_key(pid) ==> (
                #[trigger] processes@[pid]) == old(processes)@[pid],
    {
        let (pid, info) = pair;
        assert(latest@.contains_key(*pid) && latest@[*pid] == *info);
        processes.insert(*pid, info.clone());
        proof {
            seen = seen.insert(*pid);
        }
    }
    assert forall|pid: i32| latest@.contains_key(pid) implies seen.contains(pid) by {
        let pair = (&pid, &latest@[pid]);
        assert(walk.contains(pair));
        let k = choose|k: int| 0 <= k < walk.len() && walk[k] == pair;
        assert(seen.contains(*walk[k].0));
    }
    assert(views(processes@) =~= views(old(processes)@).union_prefer_right(views(latest@)));
}

/// The processes of `processes` whose executable is known.
pub fn resolved_processes(processes: &ProcessInfos) -> (known: ProcessInfos)
    ensures
        views(known@) == resolved(views(processes@)),
{
    broadcast use vstd::std_specs::hash::group_hash_axioms;

    let mut known: ProcessInfos = HashMap::new();
    let ghost mut seen: Set<i32> = Set::empty();
    let ghost walk = processes.iter().remaining();
    for pair in it: processes.iter()
        invariant
            it.seq() == walk,
            forall|k: int| 0 <= k < it.index() ==> seen.contains(*(#[trigger] walk[k]).0),
            forall|pid: i32|
                (#[trigger] known@.contains_key(pid)) <==> seen.contains(pid)
                    && processes@.contains_key(pid) && processes@[pid].executable@.len() > 0,
            forall|pid: i32|
                known@.contains_key(pid) ==> (#[trigger] known@[pid])@ == processes@[pid]@,
    {
        let (pid, info) = pair;
        if !info.executable.as_str().is_empty() {
            known.insert(*pid, info.clone());
        }
        proof {
            seen = seen.insert(*pid);
        }
    }
    assert forall|pid: i32| processes@.contains_key(pid) implies seen.contains(pid) by {
        let pair = (&pid, &processes@[pid]);
        assert(walk.contains(pair));
        let k = choose|k: int| 0 <= k < walk.len() && walk[k] == pair;
        assert(seen.contains(*walk[k].0));
    }
    assert(views(known@) =~= resolved(views(processes@)));
    known
}

/// Settles the process of every flow against `processes`.
pub fn bind_processes(connections: &mut Vec<Connection>, processes: &ProcessInfos)
    ensures
        all_bound(final(connections)@, old(connections)@, processes@),
{
    let mut i: usize = 0;
    while i < connections.len()
        invariant
            i <= connections.len(),
            connections@.len() == old(connections)@.len(),
            forall|j: int|
                0 <= j < i ==> (#[trigger] connections@[j]).bound_from(
                    old(connections)@[j],
                    processes@,
                ),
            forall|j: int| i <= j < connections@.len() ==> connections@[j] == old(connections)@[j],
        decreases connections.len() - i,
    {
        let mut flow = connections[i];
        flow.bind_matching_process(processes);
        connections.set(i, flow);
        i += 1;
    }
}

/// A copy of a list of flows.
fn copy_of(flows: &Vec<Connection>) -> (copy: Vec<Connection>)
    ensures
        copy@ == flows@,
{
    let mut copy: Vec<Connection> = Vec::new();
    let mut i: usize = 0;
    while i < flows.len()
        invariant
            i <= flows.len(),
            copy@ == flows@.take(i as int),
        decreases flows.len() - i,
    {
        copy.push(flows[i]);
        assert(flows@.take(i + 1) == flows@.take(i as int).push(flows@[i as int]));
        i += 1;
    }
    assert(flows@.take(i as int) == flows@);
    copy
}

/// Brings a reader's view up to date: takes over the latest published
/// flows and processes where there are any, settles the process of every
/// flow, and answers with the processes whose executable is known.
pub fn refresh(
    connections: &mut Vec<Connection>,
    processes: &mut ProcessInfos,
    latest_connections: &Option<Vec<Connection>>,
    latest_processes: &Option<ProcessInfos>,
) -> (known: ProcessInfos)
    ensures
        views(final(processes)@) == current_processes(old(processes)@, *latest_processes),
        all_bound(
            final(connections)@,
            current_flows(old(connections)@, *latest_connections),
            final(processes)@,
        ),
        views(known@) == resolved(views(final(processes)@)),
{
    match latest_connections {
        Some(flows) => {
            *connections = copy_of(flows);
        },
        None => {},
    }
    match latest_processes {
        Some(latest) => {
            absorb_processes(processes, latest);
        },
        None => {},
    }
    bind_processes(connections, processes);
    resolved_processes(processes)
}

} // verus!
