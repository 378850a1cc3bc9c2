//! Laws of flow identity and of the flow table, each proved from the
//! definitions that the operations' contracts are stated with.

use crate::capture::Direction;
use crate::connection::Connection;
use crate::endpoint::{Endpoint, IpAddress};
use crate::flow_table::{
    entry, is_first_match, lemma_first_match, lemma_no_match, lemma_position,
    lemma_update_keeps_positions, merged, merged_one, position, recorded, recorded_all,
};
use vstd::prelude::*;
use vstd::std_specs::cmp::PartialEqSpec;

verus! {

/// Distinct addresses have distinct ranks.
pub proof fn lemma_address_rank_is_injective(a: IpAddress, b: IpAddress)
    requires
        a.rank() == b.rank(),
    ensures
        a == b,
{
}

/// Distinct endpoints have distinct ranks, so the order of endpoints is
/// total.
pub proof fn lemma_endpoint_rank_is_injective(a: Endpoint, b: Endpoint)
    requires
        a.rank() == b.rank(),
    ensures
        a == b,
{
    lemma_address_rank_is_injective(a.ip, b.ip);
}

/// Being the same flow is an equivalence relation.
pub proof fn lemma_same_flow_is_equivalence(a: Connection, b: Connection, c: Connection)
    ensures
        a.same_flow(a),
        a.same_flow(b) ==> b.same_flow(a),
        a.same_flow(b) && b.same_flow(c) ==> a.same_flow(c),
{
}

/// The canonical key decides identity: two records describe the same
/// flow exactly when their keys are equal.
pub proof fn lemma_key_decides_identity(a: Connection, b: Connection)
    ensures
        a.same_flow(b) <==> a.key() == b.key(),
{
    if a.source.rank() == a.destination.rank() {
        lemma_endpoint_rank_is_injective(a.source, a.destination);
    }
    if b.source.rank() == b.destination.rank() {
        lemma_endpoint_rank_is_injective(b.source, b.destination);
    }
}

/// Symmetry of identity: a flow recorded from A to B and one recorded
/// from B to A over the same transport are the same flow, share their
/// canonical key, and every table holds both at the same place or
/// neither.
pub proof fn lemma_identity_is_symmetric(
    forward: Connection,
    backward: Connection,
    flows: Seq<Connection>,
)
    requires
        forward.transport_type == backward.transport_type,
        forward.source == backward.destination,
        forward.destination == backward.source,
    ensures
        forward.same_flow(backward),
        forward.eq_spec(&backward),
        forward.key() == backward.key(),
        position(flows, forward) == position(flows, backward),
        entry(flows, forward) == entry(flows, backward),
{
    lemma_key_decides_identity(forward, backward);
    lemma_same_flow_finds_same_place(flows, forward, backward);
}

/// A table holds two records of the same flow at the same place.
pub proof fn lemma_same_flow_finds_same_place(flows: Seq<Connection>, a: Connection, b: Connection)
    requires
        a.same_flow(b),
    ensures
        position(flows, a) == position(flows, b),
        entry(flows, a) == entry(flows, b),
{
    lemma_position(flows, a);
    match position(flows, a) {
        Some(i) => {
            assert forall|j: int| 0 <= j < i implies !(#[trigger] flows[j].same_flow(b)) by {
                assert(!flows[j].same_flow(a));
            }
            assert(is_first_match(flows, b, i));
            lemma_first_match(flows, b, i);
        },
        None => {
            assert forall|j: int| 0 <= j < flows.len() implies !(#[trigger] flows[j].same_flow(
                b,
            )) by {
                assert(!flows[j].same_flow(a));
            }
            lemma_no_match(flows, b);
        },
    }
}

/// Turning a flow round keeps its total: what was uploaded counts as
/// downloaded and the other way round, and it stays the same flow.
pub proof fn lemma_reversal_keeps_total(flow: Connection)
    ensures
        flow.reversed().activity() == flow.activity(),
        flow.reversed().bytes_uploaded == flow.bytes_downloaded,
        flow.reversed().bytes_downloaded == flow.bytes_uploaded,
        flow.reversed().same_flow(flow),
        flow.reversed().reversed() == flow,
{
}

/// Entering a record at the end moves no flow that the table holds, and
/// is found itself where its flow was not held.
pub proof fn lemma_push_position(flows: Seq<Connection>, added: Connection, flow: Connection)
    ensures
        position(flows.push(added), flow) == match position(flows, flow) {
            Some(i) => Some(i),
            None => if added.same_flow(flow) {
                Some(flows.len() as int)
            } else {
                None
            },
        },
{
    let pushed = flows.push(added);
    lemma_position(flows, flow);
    match position(flows, flow) {
        Some(i) => {
            assert forall|j: int| 0 <= j < i implies !(#[trigger] pushed[j].same_flow(flow)) by {
                assert(!flows[j].same_flow(flow));
            }
            assert(is_first_match(pushed, flow, i));
            lemma_first_match(pushed, flow, i);
        },
        None => {
            assert forall|j: int| 0 <= j < flows.len() implies !(#[trigger] pushed[j].same_flow(
                flow,
            )) by {
                assert(!flows[j].same_flow(flow));
            }
            if added.same_flow(flow) {
                assert(is_first_match(pushed, flow, flows.len() as int));
                lemma_first_match(pushed, flow, flows.len() as int);
            } else {
                lemma_no_match(pushed, flow);
            }
        },
    }
}

/// What a table holds for a flow after a socket sample was merged in:
/// for the sample's own flow the entry with its inode filled in where it
/// was unknown, or the sample itself where the flow was new; for every
/// other flow what it held before.
pub proof fn lemma_merged_one_entry(flows: Seq<Connection>, sample: Connection, flow: Connection)
    ensures
        entry(merged_one(flows, sample), flow) == if flow.same_flow(sample) {
            match entry(flows, flow) {
                Some(held) => if held.inode == 0 {
                    Some(held.with_inode(sample.inode))
                } else {
                    Some(held)
                },
                None => Some(sample),
            }
        } else {
            entry(flows, flow)
        },
        position(flows, flow) is Some ==> position(merged_one(flows, sample), flow) == position(
            flows,
            flow,
        ),
{
    lemma_position(flows, sample);
    lemma_position(flows, flow);
    if flow.same_flow(sample) {
        lemma_same_flow_finds_same_place(flows, flow, sample);
    }
    match position(flows, sample) {
        Some(i) => {
            if flows[i].inode == 0 {
                lemma_update_keeps_positions(flows, i, flows[i].with_inode(sample.inode), flow);
            }
        },
        None => {
            lemma_push_position(flows, sample, flow);
        },
    }
}

/// What a table holds for a flow after a packet was accounted for: for
/// the packet's own flow the updated entry, or the entry that the packet
/// opens; for every other flow what it held before.
pub proof fn lemma_recorded_entry(
    flows: Seq<Connection>,
    packet: Connection,
    bytes: usize,
    direction: Direction,
    flow: Connection,
)
    ensures
        entry(recorded(flows, packet, bytes, direction), flow) == if flow.same_flow(packet) {
            match entry(flows, flow) {
                Some(held) => Some(held.after_packet(packet, bytes, direction)),
                None => Some(Connection::opened_by(packet, bytes, direction)),
            }
        } else {
            entry(flows, flow)
        },
{
    lemma_position(flows, packet);
    lemma_position(flows, flow);
    if flow.same_flow(packet) {
        lemma_same_flow_finds_same_place(flows, flow, packet);
    }
    match position(flows, packet) {
        Some(i) => {
            lemma_update_keeps_positions(
                flows,
                i,
                flows[i].after_packet(packet, bytes, direction),
                flow,
            );
        },
        None => {
            lemma_push_position(flows, Connection::opened_by(packet, bytes, direction), flow);
        },
    }
}

/// Inode write-once: whatever is merged in, the entry of a flow whose
/// inode is known stays exactly as it is, and the entry of any flow keeps
/// everything but its inode.
pub proof fn lemma_inode_is_written_once(
    flows: Seq<Connection>,
    samples: Seq<Connection>,
    flow: Connection,
)
    requires
        entry(flows, flow) is Some,
    ensures
        entry(merged(flows, samples), flow) is Some,
        entry(merged(flows, samples), flow)->0 == entry(flows, flow)->0.with_inode(
            entry(merged(flows, samples), flow)->0.inode,
        ),
        entry(flows, flow)->0.inode != 0 ==> entry(merged(flows, samples), flow) == entry(
            flows,
            flow,
        ),
    decreases samples.len(),
{
    if samples.len() > 0 {
        lemma_inode_is_written_once(flows, samples.drop_last(), flow);
        lemma_merged_one_entry(merged(flows, samples.drop_last()), samples.last(), flow);
    }
}

/// The table holds the flow of `sample` and has nothing left to learn
/// from it: the inode is known, or the sample knows none either.
pub open spec fn is_settled(flows: Seq<Connection>, sample: Connection) -> bool {
    match entry(flows, sample) {
        Some(held) => held.inode != 0 || sample.inode == 0,
        None => false,
    }
}

/// Merging a sample that is settled changes nothing.
pub proof fn lemma_settled_sample_changes_nothing(flows: Seq<Connection>, sample: Connection)
    requires
        is_settled(flows, sample),
    ensures
        merged_one(flows, sample) == flows,
{
    lemma_position(flows, sample);
    assert(merged_one(flows, sample) =~= flows);
}

/// A merge settles its own sample and leaves settled what was.
pub proof fn lemma_merge_settles(flows: Seq<Connection>, sample: Connection, other: Connection)
    ensures
        is_settled(merged_one(flows, sample), sample),
        is_settled(flows, other) ==> is_settled(merged_one(flows, sample), other),
{
    lemma_merged_one_entry(flows, sample, sample);
    lemma_merged_one_entry(flows, sample, other);
}

/// After a whole sample was merged, each of its sockets is settled.
pub proof fn lemma_merged_settles_all(flows: Seq<Connection>, samples: Seq<Connection>, k: int)
    requires
        0 <= k < samples.len(),
    ensures
        is_settled(merged(flows, samples), samples[k]),
    decreases samples.len(),
{
    let front = samples.drop_last();
    if k < samples.len() - 1 {
        lemma_merged_settles_all(flows, front, k);
    }
    lemma_merge_settles(merged(flows, front), samples.last(), samples[k]);
}

/// Merging sockets that are all settled changes nothing.
pub proof fn lemma_settled_samples_change_nothing(flows: Seq<Connection>, samples: Seq<Connection>)
    requires
        forall|k: int| 0 <= k < samples.len() ==> is_settled(flows, #[trigger] samples[k]),
    ensures
        merged(flows, samples) == flows,
    decreases samples.len(),
{
    if samples.len() > 0 {
        let front = samples.drop_last();
        assert forall|k: int| 0 <= k < front.len() implies is_settled(flows, #[trigger] front[k]) by {
            assert(front[k] == samples[k]);
        }
        lemma_settled_samples_change_nothing(flows, front);
        lemma_settled_sample_changes_nothing(flows, samples.last());
    }
}

/// Idempotent re-merge: merging the same sample of the kernel's sockets
/// a second time leaves the table as the first merge left it.
pub proof fn lemma_merge_is_idempotent(flows: Seq<Connection>, samples: Seq<Connection>)
    ensures
        merged(merged(flows, samples), samples) == merged(flows, samples),
{
    assert forall|k: int| 0 <= k < samples.len() implies is_settled(
        merged(flows, samples),
        #[trigger] samples[k],
    ) by {
        lemma_merged_settles_all(flows, samples, k);
    }
    lemma_settled_samples_change_nothing(merged(flows, samples), samples);
}

/// Counter monotonicity: over any sequence of packets, the entry of a
/// flow keeps its direction and neither of its counters decreases, as
/// long as the packets of that flow run in the direction that the entry
/// records.
pub proof fn lemma_counters_never_decrease(
    flows: Seq<Connection>,
    packets: Seq<(Connection, usize, Direction)>,
    flow: Connection,
)
    requires
        entry(flows, flow) is Some,
        forall|k: int|
            0 <= k < packets.len() && (#[trigger] packets[k]).0.same_flow(flow)
                ==> packets[k].0.same_orientation(entry(flows, flow)->0),
    ensures
        entry(recorded_all(flows, packets), flow) is Some,
        entry(recorded_all(flows, packets), flow)->0.same_orientation(entry(flows, flow)->0),
        entry(recorded_all(flows, packets), flow)->0.bytes_uploaded >= entry(
            flows,
            flow,
        )->0.bytes_uploaded,
        entry(recorded_all(flows, packets), flow)->0.bytes_downloaded >= entry(
            flows,
            flow,
        )->0.bytes_downloaded,
    decreases packets.len(),
{
    if packets.len() > 0 {
        let front = packets.drop_last();
        let (packet, bytes, direction) = packets.last();
        assert forall|k: int| 0 <= k < front.len() && (#[trigger] front[k]).0.same_flow(
            flow,
        ) implies front[k].0.same_orientation(entry(flows, flow)->0) by {
            assert(front[k] == packets[k]);
        }
        lemma_counters_never_decrease(flows, front, flow);
        lemma_recorded_entry(recorded_all(flows, front), packet, bytes, direction, flow);
        assert(packets[packets.len() - 1] == packets.last());
    }
}

/// Over any sequence of packets, whichever way they run, the total of a
/// flow's two counters never decreases: turning an entry round exchanges
/// the counters and loses nothing.
pub proof fn lemma_activity_never_decreases(
    flows: Seq<Connection>,
    packets: Seq<(Connection, usize, Direction)>,
    flow: Connection,
)
    requires
        entry(flows, flow) is Some,
    ensures
        entry(recorded_all(flows, packets), flow) is Some,
        entry(recorded_all(flows, packets), flow)->0.activity() >= entry(flows, flow)->0.activity(),
    decreases packets.len(),
{
    if packets.len() > 0 {
        let front = packets.drop_last();
        let (packet, bytes, direction) = packets.last();
        lemma_activity_never_decreases(flows, front, flow);
        lemma_recorded_entry(recorded_all(flows, front), packet, bytes, direction, flow);
    }
}

} // verus!
