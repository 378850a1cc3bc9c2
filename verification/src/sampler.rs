//! The socket sampler's side of flow tracking: turning rows of the
//! kernel's socket tables into flow records, and keeping the set of flows
//! that the kernel has reported within the idle window.

use crate::connection::{Connection, TransportType};
use crate::endpoint::Endpoint;
use crate::flow_table::{pruned, sighted, FlowTable};
use crate::timestamp::Timestamp;
use vstd::prelude::*;

verus! {

/// One row of a kernel socket table.
#[derive(Clone, Copy, Debug, PartialEq, Eq, Structural)]
pub struct SocketEntry {
    pub local_address: Endpoint,
    pub remote_address: Endpoint,
    pub inode: u64,
}

/// The flow record of a socket that the kernel reported at `now`: the
/// local endpoint as source, the socket's inode, nothing counted.
pub open spec fn sampled_flow(
    transport_type: TransportType,
    entry: SocketEntry,
    now: Timestamp,
) -> Connection {
    Connection {
        source: entry.local_address,
        destination: entry.remote_address,
        inode: entry.inode,
        process_id: 0,
        transport_type,
        bytes_uploaded: 0,
        bytes_downloaded: 0,
        first_seen: now,
        last_seen: now,
    }
}

/// The flow records of one socket table, row by row.
pub open spec fn sampled_flows(
    transport_type: TransportType,
    entries: Seq<SocketEntry>,
    now: Timestamp,
) -> Seq<Connection> {
    entries.map_values(|entry: SocketEntry| sampled_flow(transport_type, entry, now))
}

impl Connection {
    /// The flow record of a socket that the kernel reported at `now`.
    pub fn from_entry(transport_type: TransportType, entry: &SocketEntry, now: Timestamp) -> (flow:
        Connection)
        ensures
            flow == sampled_flow(transport_type, *entry, now),
    {
        Connection {
            source: entry.local_address,
            destination: entry.remote_address,
            inode: entry.inode,
            process_id: 0,
            transport_type,
            bytes_uploaded: 0,
            bytes_downloaded: 0,
            first_seen: now,
            last_seen: now,
        }
    }
}

/// Appends the flow records of one socket table to `flows`.
fn push_sampled(
    flows: &mut Vec<Connection>,
    transport_type: TransportType,
    entries: &Vec<SocketEntry>,
    now: Timestamp,
)
    ensures
        final(flows)@ == old(flows)@ + sampled_flows(transport_type, entries@, now),
{
    let mut i: usize = 0;
    while i < entries.len()
        invariant
            i <= entries.len(),
            flows@ == old(flows)@ + sampled_flows(transport_type, entries@.take(i as int), now),
        decreases entries.len() - i,
    {
        flows.push(Connection::from_entry(transport_type, &entries[i], now));
        assert(entries@.take(i + 1) == entries@.take(i as int).push(entries@[i as int]));
        i += 1;
    }
    assert(entries@.take(i as int) == entries@);
}

/// The flows that the kernel's socket tables report at `now`: the TCP
/// tables of IPv4 and IPv6 first, then the UDP ones.
pub fn get_tcp_connection_inodes(
    tcp: &Vec<SocketEntry>,
    tcp6: &Vec<SocketEntry>,
    udp: &Vec<SocketEntry>,
    udp6: &Vec<SocketEntry>,
    now: Timestamp,
) -> (connections: Vec<Connection>)
    ensures
        connections@ == sampled_flows(TransportType::Tcp, tcp@, now) + sampled_flows(
            TransportType::Tcp,
            tcp6@,
            now,
        ) + sampled_flows(TransportType::Udp, udp@, now) + sampled_flows(
            TransportType::Udp,
            udp6@,
            now,
        ),
{
    let mut connections: Vec<Connection> = Vec::new();
    push_sampled(&mut connections, TransportType::Tcp, tcp, now);
    push_sampled(&mut connections, TransportType::Tcp, tcp6, now);
    push_sampled(&mut connections, TransportType::Udp, udp, now);
    push_sampled(&mut connections, TransportType::Udp, udp6, now);
    connections
}

/// Takes note of the flows of one sampler pass: a flow already in the set
/// is marked as seen when the pass saw it, a new one is entered.
pub fn update_connections(connections: &mut FlowTable, current_connections: &Vec<Connection>)
    requires
        old(connections).wf(),
    ensures
        final(connections).wf(),
        final(connections)@ == sighted(old(connections)@, current_connections@),
{
    let mut i: usize = 0;
    while i < current_connections.len()
        invariant
            i <= current_connections.len(),
            connections.wf(),
            connections@ == sighted(old(connections)@, current_connections@.take(i as int)),
        decreases current_connections.len() - i,
    {
        connections.sight(&current_connections[i]);
        proof {
            let next = current_connections@.take(i + 1);
            assert(next.drop_last() == current_connections@.take(i as int));
            assert(next.last() == current_connections@[i as int]);
        }
        i += 1;
    }
    assert(current_connections@.take(i as int) == current_connections@);
}

/// Drops the flows that no sampler pass has seen within the idle window
/// before `now`.
pub fn prune_outdated_connections(connections: &mut FlowTable, now: Timestamp)
    requires
        old(connections).wf(),
    ensures
        final(connections).wf(),
        final(connections)@ == pruned(old(connections)@, now),
{
    connections.prune(now);
}

/// One pass of the socket sampler over the flows that the kernel reports
/// at `now`: notes them, drops what has gone idle and answers with the
/// copy of the set to publish.
pub fn sample_connections(
    connections: &mut FlowTable,
    current_connections: &Vec<Connection>,
    now: Timestamp,
) -> (published: Vec<Connection>)
    requires
        old(connections).wf(),
    ensures
        final(connections).wf(),
        final(connections)@ == pruned(sighted(old(connections)@, current_connections@), now),
        published@ == final(connections)@,
{
    update_connections(connections, current_connections);
    prune_outdated_connections(connections, now);
    connections.snapshot()
}

} // verus!
