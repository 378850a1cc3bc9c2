//! The flow table: the registry of observed flows, one entry for each
//! flow identity.
//!
//! The table is modelled as the sequence of its entries. Every operation
//! is stated as a function on such sequences, and keeps the entries
//! pairwise distinct in identity.

use crate::capture::Direction;
use crate::connection::Connection;
use crate::timestamp::{Timestamp, NANOS_PER_SECOND};
use vstd::prelude::*;

verus! {

/// Seconds without a sighting after which a flow counts as idle.
pub const IDLE_THRESHOLD_SECONDS: u128 = 60;

/// No two entries describe the same flow.
pub open spec fn distinct_flows(flows: Seq<Connection>) -> bool {
    forall|i: int, j: int|
        0 <= i < j < flows.len() ==> !(#[trigger] flows[i].same_flow(flows[j]))
}

/// `i` is the first index at which `flows` holds the flow of `flow`.
pub open spec fn is_first_match(flows: Seq<Connection>, flow: Connection, i: int) -> bool {
    &&& 0 <= i < flows.len()
    &&& flows[i].same_flow(flow)
    &&& forall|j: int| 0 <= j < i ==> !(#[trigger] flows[j].same_flow(flow))
}

/// Where `flows` holds the flow of `flow`, if it does.
pub open spec fn position(flows: Seq<Connection>, flow: Connection) -> Option<int> {
    if exists|i: int| is_first_match(flows, flow, i) {
        Some(choose|i: int| is_first_match(flows, flow, i))
    } else {
        None
    }
}

/// The entry that `flows` holds for the flow of `flow`, if any.
pub open spec fn entry(flows: Seq<Connection>, flow: Connection) -> Option<Connection> {
    match position(flows, flow) {
        Some(i) => Some(flows[i]),
        None => None,
    }
}

/// Two tables hold the same entries, whatever their order.
pub open spec fn same_entries(a: Seq<Connection>, b: Seq<Connection>) -> bool {
    &&& a.len() == b.len()
    &&& forall|flow: Connection| #[trigger] entry(a, flow) == entry(b, flow)
}

/// The entries stand in order of activity, the most active first.
pub open spec fn ordered_by_activity(flows: Seq<Connection>) -> bool {
    forall|i: int, j: int|
        0 <= i < j < flows.len() ==> (#[trigger] flows[i]).activity() >= (
        #[trigger] flows[j]).activity()
}

/// The table after one sampled socket was merged in: a known flow gets
/// the sample's inode where its own is still unknown and is otherwise
/// left alone, an unknown flow is entered as sampled.
pub open spec fn merged_one(flows: Seq<Connection>, sample: Connection) -> Seq<Connection> {
    match position(flows, sample) {
        Some(i) => if flows[i].inode == 0 {
            flows.update(i, flows[i].with_inode(sample.inode))
        } else {
            flows
        },
        None => flows.push(sample),
    }
}

/// The table after a whole sample was merged in, socket by socket.
pub open spec fn merged(flows: Seq<Connection>, samples: Seq<Connection>) -> Seq<Connection>
    decreases samples.len(),
{
    if samples.len() == 0 {
        flows
    } else {
        merged_one(merged(flows, samples.drop_last()), samples.last())
    }
}

/// The table after a packet of `bytes` bytes was accounted for: the entry
/// of its flow is updated, or opened where there was none.
pub open spec fn recorded(
    flows: Seq<Connection>,
    packet: Connection,
    bytes: usize,
    direction: Direction,
) -> Seq<Connection> {
    match position(flows, packet) {
        Some(i) => flows.update(i, flows[i].after_packet(packet, bytes, direction)),
        None => flows.push(Connection::opened_by(packet, bytes, direction)),
    }
}

/// The table after a sequence of packets was accounted for, one after
/// the other.
pub open spec fn recorded_all(
    flows: Seq<Connection>,
    packets: Seq<(Connection, usize, Direction)>,
) -> Seq<Connection>
    decreases packets.len(),
{
    if packets.len() == 0 {
        flows
    } else {
        recorded(
            recorded_all(flows, packets.drop_last()),
            packets.last().0,
            packets.last().1,
            packets.last().2,
        )
    }
}

/// The table after one sighting by the socket sampler: a known flow is
/// marked as seen when the sighting was, an unknown one is entered.
pub open spec fn sighted_one(flows: Seq<Connection>, sighting: Connection) -> Seq<Connection> {
    match position(flows, sighting) {
        Some(i) => flows.update(i, flows[i].seen_at(sighting.last_seen)),
        None => flows.push(sighting),
    }
}

/// The table after all sightings of one sampler pass.
pub open spec fn sighted(flows: Seq<Connection>, sightings: Seq<Connection>) -> Seq<Connection>
    decreases sightings.len(),
{
    if sightings.len() == 0 {
        flows
    } else {
        sighted_one(sighted(flows, sightings.drop_last()), sightings.last())
    }
}

/// A flow is idle at `now` once more time than the idle threshold has
/// passed since it was last seen, to the nanosecond. A flow last seen
/// after `now` is not idle.
pub open spec fn is_idle(flow: Connection, now: Timestamp) -> bool {
    now.nanos > flow.last_seen.nanos && now.nanos - flow.last_seen.nanos > IDLE_THRESHOLD_SECONDS
        * NANOS_PER_SECOND
}

/// The table without the flows that are idle at `now`.
pub open spec fn pruned(flows: Seq<Connection>, now: Timestamp) -> Seq<Connection> {
    flows.filter(|flow: Connection| !is_idle(flow, now))
}

/// `position` answers with the first match, and with `None` only where
/// nothing matches.
pub proof fn lemma_position(flows: Seq<Connection>, flow: Connection)
    ensures
        match position(flows, flow) {
            Some(i) => is_first_match(flows, flow, i),
            None => forall|j: int| 0 <= j < flows.len() ==> !(#[trigger] flows[j].same_flow(flow)),
        },
{
    if position(flows, flow) is None {
        assert forall|j: int| 0 <= j < flows.len() implies !(#[trigger] flows[j].same_flow(
            flow,
        )) by {
            if flows[j].same_flow(flow) {
                lemma_least_match(flows, flow, j);
            }
        }
    }
}

/// Below every match lies a first match.
proof fn lemma_least_match(flows: Seq<Connection>, flow: Connection, j: int)
    requires
        0 <= j < flows.len(),
        flows[j].same_flow(flow),
    ensures
        exists|i: int| is_first_match(flows, flow, i),
    decreases j,
{
    if exists|k: int| 0 <= k < j && #[trigger] flows[k].same_flow(flow) {
        let k = choose|k: int| 0 <= k < j && #[trigger] flows[k].same_flow(flow);
        lemma_least_match(flows, flow, k);
    } else {
        assert(is_first_match(flows, flow, j));
    }
}

/// A first match is what `position` answers.
pub proof fn lemma_first_match(flows: Seq<Connection>, flow: Connection, i: int)
    requires
        is_first_match(flows, flow, i),
    ensures
        position(flows, flow) == Some(i),
{
    let c = choose|c: int| is_first_match(flows, flow, c);
    assert(is_first_match(flows, flow, c));
    if c < i {
        assert(flows[c].same_flow(flow));
    } else if i < c {
        assert(flows[i].same_flow(flow));
    }
}

/// Where nothing matches, `position` answers `None`.
pub proof fn lemma_no_match(flows: Seq<Connection>, flow: Connection)
    requires
        forall|j: int| 0 <= j < flows.len() ==> !(#[trigger] flows[j].same_flow(flow)),
    ensures
        position(flows, flow) is None,
{
    if exists|i: int| is_first_match(flows, flow, i) {
        let c = choose|c: int| is_first_match(flows, flow, c);
        assert(flows[c].same_flow(flow));
    }
}

/// Replacing an entry by a record of the same flow moves no flow.
pub proof fn lemma_update_keeps_positions(
    flows: Seq<Connection>,
    i: int,
    replacement: Connection,
    flow: Connection,
)
    requires
        0 <= i < flows.len(),
        flows[i].same_flow(replacement),
    ensures
        position(flows.update(i, replacement), flow) == position(flows, flow),
{
    let updated = flows.update(i, replacement);
    lemma_position(flows, flow);
    match position(flows, flow) {
        Some(k) => {
            assert forall|j: int| 0 <= j < k implies !(#[trigger] updated[j].same_flow(flow)) by {
                assert(!flows[j].same_flow(flow));
            }
            assert(is_first_match(updated, flow, k));
            lemma_first_match(updated, flow, k);
        },
        None => {
            assert forall|j: int| 0 <= j < updated.len() implies !(#[trigger] updated[j].same_flow(
                flow,
            )) by {
                assert(!flows[j].same_flow(flow));
            }
            lemma_no_match(updated, flow);
        },
    }
}

/// Replacing an entry by a record of the same flow keeps the entries
/// distinct.
pub proof fn lemma_update_keeps_distinct(flows: Seq<Connection>, i: int, replacement: Connection)
    requires
        distinct_flows(flows),
        0 <= i < flows.len(),
        flows[i].same_flow(replacement),
    ensures
        distinct_flows(flows.update(i, replacement)),
{
    let updated = flows.update(i, replacement);
    assert forall|a: int, b: int| 0 <= a < b < updated.len() implies !(#[trigger] updated[a].same_flow(
        updated[b],
    )) by {
        assert(!flows[a].same_flow(flows[b]));
    }
}

/// Entering a flow that the table does not hold keeps the entries
/// distinct and moves no flow.
pub proof fn lemma_push_keeps_distinct(flows: Seq<Connection>, flow: Connection, added: Connection)
    requires
        distinct_flows(flows),
        position(flows, flow) is None,
        added.same_flow(flow),
    ensures
        distinct_flows(flows.push(added)),
        position(flows.push(added), flow) == Some(flows.len() as int),
{
    let pushed = flows.push(added);
    lemma_position(flows, flow);
    assert forall|a: int, b: int| 0 <= a < b < pushed.len() implies !(#[trigger] pushed[a].same_flow(
        pushed[b],
    )) by {
        if b < flows.len() {
            assert(!flows[a].same_flow(flows[b]));
        } else {
            assert(!flows[a].same_flow(flow));
        }
    }
    assert forall|j: int| 0 <= j < flows.len() implies !(#[trigger] pushed[j].same_flow(flow)) by {
        assert(!flows[j].same_flow(flow));
    }
    assert(is_first_match(pushed, flow, flows.len() as int));
    lemma_first_match(pushed, flow, flows.len() as int);
}

/// Merging a sampled socket keeps the entries distinct.
pub proof fn lemma_merged_one_distinct(flows: Seq<Connection>, sample: Connection)
    requires
        distinct_flows(flows),
    ensures
        distinct_flows(merged_one(flows, sample)),
{
    lemma_position(flows, sample);
    match position(flows, sample) {
        Some(i) => {
            lemma_update_keeps_distinct(flows, i, flows[i].with_inode(sample.inode));
        },
        None => {
            lemma_push_keeps_distinct(flows, sample, sample);
        },
    }
}

/// Merging a whole sample keeps the entries distinct.
pub proof fn lemma_merged_distinct(flows: Seq<Connection>, samples: Seq<Connection>)
    requires
        distinct_flows(flows),
    ensures
        distinct_flows(merged(flows, samples)),
    decreases samples.len(),
{
    if samples.len() > 0 {
        lemma_merged_distinct(flows, samples.drop_last());
        lemma_merged_one_distinct(merged(flows, samples.drop_last()), samples.last());
    }
}

/// Accounting for a packet keeps the entries distinct.
pub proof fn lemma_recorded_distinct(
    flows: Seq<Connection>,
    packet: Connection,
    bytes: usize,
    direction: Direction,
)
    requires
        distinct_flows(flows),
    ensures
        distinct_flows(recorded(flows, packet, bytes, direction)),
{
    lemma_position(flows, packet);
    match position(flows, packet) {
        Some(i) => {
            lemma_update_keeps_distinct(flows, i, flows[i].after_packet(packet, bytes, direction));
        },
        None => {
            lemma_push_keeps_distinct(
                flows,
                packet,
                Connection::opened_by(packet, bytes, direction),
            );
        },
    }
}

/// A sighting keeps the entries distinct.
pub proof fn lemma_sighted_one_distinct(flows: Seq<Connection>, sighting: Connection)
    requires
        distinct_flows(flows),
    ensures
        distinct_flows(sighted_one(flows, sighting)),
{
    lemma_position(flows, sighting);
    match position(flows, sighting) {
        Some(i) => {
            lemma_update_keeps_distinct(flows, i, flows[i].seen_at(sighting.last_seen));
        },
        None => {
            lemma_push_keeps_distinct(flows, sighting, sighting);
        },
    }
}

/// The table with the entries at `i` and `j` exchanged.
pub open spec fn exchanged(flows: Seq<Connection>, i: int, j: int) -> Seq<Connection> {
    flows.update(i, flows[j]).update(j, flows[i])
}

/// Exchanging two entries keeps them distinct and loses none.
pub proof fn lemma_exchanged(flows: Seq<Connection>, i: int, j: int)
    requires
        distinct_flows(flows),
        0 <= i < flows.len(),
        0 <= j < flows.len(),
    ensures
        distinct_flows(exchanged(flows, i, j)),
        same_entries(exchanged(flows, i, j), flows),
{
    let after = exchanged(flows, i, j);
    let origin = |k: int|
        if k == i {
            j
        } else if k == j {
            i
        } else {
            k
        };
    assert forall|a: int, b: int| 0 <= a < b < after.len() implies !(#[trigger] after[a].same_flow(
        after[b],
    )) by {
        let (x, y) = (origin(a), origin(b));
        if x < y {
            assert(!flows[x].same_flow(flows[y]));
        } else {
            assert(!flows[y].same_flow(flows[x]));
        }
    }
    assert forall|flow: Connection| #[trigger] entry(after, flow) == entry(flows, flow) by {
        lemma_position(flows, flow);
        match position(flows, flow) {
            Some(p) => {
                let q = origin(p);
                assert forall|k: int| 0 <= k < q implies !(#[trigger] after[k].same_flow(flow)) by {
                    let x = origin(k);
                    if x < p {
                        assert(!flows[x].same_flow(flows[p]));
                    } else {
                        assert(!flows[p].same_flow(flows[x]));
                    }
                }
                assert(is_first_match(after, flow, q));
                lemma_first_match(after, flow, q);
            },
            None => {
                assert forall|k: int| 0 <= k < after.len() implies !(#[trigger] after[k].same_flow(
                    flow,
                )) by {
                    assert(!flows[origin(k)].same_flow(flow));
                }
                lemma_no_match(after, flow);
            },
        }
    }
}

/// Dropping the idle flows keeps the entries distinct.
pub proof fn lemma_pruned_distinct(flows: Seq<Connection>, now: Timestamp)
    requires
        distinct_flows(flows),
    ensures
        distinct_flows(pruned(flows, now)),
    decreases flows.len(),
{
    let live = |flow: Connection| !is_idle(flow, now);
    reveal(Seq::filter);
    if flows.len() > 0 {
        let front = flows.drop_last();
        assert forall|a: int, b: int| 0 <= a < b < front.len() implies !(#[trigger] front[a].same_flow(
            front[b],
        )) by {
            assert(!flows[a].same_flow(flows[b]));
        }
        lemma_pruned_distinct(front, now);
        let kept = front.filter(live);
        if live(flows.last()) {
            let all = kept.push(flows.last());
            assert forall|a: int, b: int| 0 <= a < b < all.len() implies !(#[trigger] all[a].same_flow(
                all[b],
            )) by {
                if b < kept.len() {
                    assert(!kept[a].same_flow(kept[b]));
                } else {
                    assert(kept.contains(kept[a]));
                    front.lemma_filter_contains_rev(live, kept[a]);
                    let k = choose|k: int| 0 <= k < front.len() && front[k] == kept[a];
                    assert(!flows[k].same_flow(flows[flows.len() - 1]));
                }
            }
        }
    }
}

/// The registry of observed flows.
#[derive(Debug)]
pub struct FlowTable {
    flows: Vec<Connection>,
}

impl View for FlowTable {
    type V = Seq<Connection>;

    closed spec fn view(&self) -> Seq<Connection> {
        self.flows@
    }
}

impl FlowTable {
    /// The table holds at most one entry for each flow.
    pub open spec fn wf(&self) -> bool {
        distinct_flows(self@)
    }

    /// An empty table.
    pub fn new() -> (table: FlowTable)
        ensures
            table@ == Seq::<Connection>::empty(),
            table.wf(),
    {
        FlowTable { flows: Vec::new() }
    }

    /// Number of flows in the table.
    pub fn len(&self) -> (n: usize)
        ensures
            n == self@.len(),
    {
        self.flows.len()
    }

    /// The entry at index `i`.
    pub fn get(&self, i: usize) -> (flow: Connection)
        requires
            i < self@.len(),
        ensures
            flow == self@[i as int],
    {
        self.flows[i]
    }

    /// A copy of the entries, in the table's order, that later changes of
    /// the table do not reach.
    pub fn snapshot(&self) -> (flows: Vec<Connection>)
        ensures
            flows@ == self@,
    {
        let mut flows: Vec<Connection> = Vec::new();
        let mut i: usize = 0;
        while i < self.flows.len()
            invariant
                i <= self.flows.len(),
                flows@ == self.flows@.take(i as int),
            decreases self.flows.len() - i,
        {
            flows.push(self.flows[i]);
            assert(self.flows@.take(i + 1) == self.flows@.take(i as int).push(self.flows@[i as int]));
            i += 1;
        }
        assert(self.flows@.take(i as int) == self.flows@);
        flows
    }

    /// Looks a flow up by its identity.
    pub fn find(&self, flow: &Connection) -> (found: Option<usize>)
        ensures
            match found {
                Some(i) => position(self@, *flow) == Some(i as int),
                None => position(self@, *flow) is None,
            },
    {
        let mut i: usize = 0;
        while i < self.flows.len()
            invariant
                i <= self.flows.len(),
                forall|j: int| 0 <= j < i ==> !(#[trigger] self.flows@[j].same_flow(*flow)),
            decreases self.flows.len() - i,
        {
            if self.flows[i].is_same_flow(flow) {
                proof {
                    lemma_first_match(self.flows@, *flow, i as int);
                }
                return Some(i);
            }
            i += 1;
        }
        proof {
            lemma_no_match(self.flows@, *flow);
        }
        None
    }

    /// Merges one sampled socket into the table.
    pub fn merge_sample(&mut self, sample: &Connection)
        requires
            old(self).wf(),
        ensures
            final(self).wf(),
            final(self)@ == merged_one(old(self)@, *sample),
    {
        proof {
            lemma_merged_one_distinct(self@, *sample);
        }
        match self.find(sample) {
            Some(i) => {
                let mut flow = self.flows[i];
                if flow.inode == 0 {
                    flow.inode = sample.inode;
                    self.flows.set(i, flow);
                }
            },
            None => {
                self.flows.push(*sample);
            },
        }
    }

    /// Merges a sample of the kernel's sockets into the table, socket by
    /// socket in the sample's order.
    pub fn merge_samples(&mut self, samples: &Vec<Connection>)
        requires
            old(self).wf(),
        ensures
            final(self).wf(),
            final(self)@ == merged(old(self)@, samples@),
    {
        let mut i: usize = 0;
        while i < samples.len()
            invariant
                i <= samples.len(),
                self.wf(),
                self@ == merged(old(self)@, samples@.take(i as int)),
            decreases samples.len() - i,
        {
            self.merge_sample(&samples[i]);
            proof {
                let next = samples@.take(i + 1);
                assert(next.drop_last() == samples@.take(i as int));
                assert(next.last() == samples@[i as int]);
            }
            i += 1;
        }
        assert(samples@.take(i as int) == samples@);
    }

    /// Accounts for a packet of `bytes` bytes that travelled in
    /// `direction`: updates the entry of its flow, or opens one.
    pub fn record_packet(&mut self, packet: &Connection, bytes: usize, direction: Direction)
        requires
            old(self).wf(),
        ensures
            final(self).wf(),
            final(self)@ == recorded(old(self)@, *packet, bytes, direction),
    {
        proof {
            lemma_recorded_distinct(self@, *packet, bytes, direction);
        }
        match self.find(packet) {
            Some(i) => {
                let mut flow = self.flows[i];
                flow.record(packet, bytes, direction);
                self.flows.set(i, flow);
            },
            None => {
                self.flows.push(Connection::open(packet, bytes, direction));
            },
        }
    }

    /// Takes note of one sighting by the socket sampler.
    pub fn sight(&mut self, sighting: &Connection)
        requires
            old(self).wf(),
        ensures
            final(self).wf(),
            final(self)@ == sighted_one(old(self)@, *sighting),
    {
        proof {
            lemma_sighted_one_distinct(self@, *sighting);
        }
        match self.find(sighting) {
            Some(i) => {
                let mut flow = self.flows[i];
                flow.last_seen = sighting.last_seen;
                self.flows.set(i, flow);
            },
            None => {
                self.flows.push(*sighting);
            },
        }
    }

    /// Puts the flows in order of activity, the most active first. Which
    /// of two equally active flows comes first is left open.
    pub fn sort_by_activity(&mut self)
        requires
            old(self).wf(),
        ensures
            final(self).wf(),
            same_entries(final(self)@, old(self)@),
            ordered_by_activity(final(self)@),
    {
        let n = self.flows.len();
        let mut i: usize = 0;
        while i < n
            invariant
                i <= n,
                n == self.flows@.len(),
                distinct_flows(self.flows@),
                same_entries(self.flows@, old(self).flows@),
                forall|a: int, b: int|
                    0 <= a < b < i ==> (#[trigger] self.flows@[a]).activity() >= (
                    #[trigger] self.flows@[b]).activity(),
            decreases n - i,
        {
            let mut j: usize = i;
            while j > 0 && self.flows[j - 1].total_bytes() < self.flows[j].total_bytes()
                invariant
                    j <= i < n,
                    n == self.flows@.len(),
                    distinct_flows(self.flows@),
                    same_entries(self.flows@, old(self).flows@),
                    forall|a: int, b: int|
                        0 <= a < b <= i && a != j && b != j ==> (#[trigger] self.flows@[a]).activity()
                            >= (#[trigger] self.flows@[b]).activity(),
                    forall|b: int|
                        j < b <= i ==> self.flows@[j as int].activity() > (
                        #[trigger] self.flows@[b]).activity(),
                decreases j,
            {
                let ghost before = self.flows@;
                let lower = self.flows[j - 1];
                let upper = self.flows[j];
                self.flows.set(j - 1, upper);
                self.flows.set(j, lower);
                proof {
                    assert(self.flows@ == exchanged(before, j - 1, j as int));
                    lemma_exchanged(before, j - 1, j as int);
                }
                j -= 1;
            }
            i += 1;
        }
    }

    /// Drops the flows that are idle at `now`, keeping the others in
    /// their order.
    pub fn prune(&mut self, now: Timestamp)
        requires
            old(self).wf(),
        ensures
            final(self).wf(),
            final(self)@ == pruned(old(self)@, now),
    {
        let ghost live = |flow: Connection| !is_idle(flow, now);
        let mut kept: Vec<Connection> = Vec::new();
        let mut i: usize = 0;
        assert(self.flows@.take(0).filter(live) == Seq::<Connection>::empty()) by {
            reveal(Seq::filter);
        }
        while i < self.flows.len()
            invariant
                i <= self.flows.len(),
                self.flows@ == old(self).flows@,
                live == |flow: Connection| !is_idle(flow, now),
                kept@ == self.flows@.take(i as int).filter(live),
            decreases self.flows.len() - i,
        {
            let flow = self.flows[i];
            proof {
                assert(self.flows@.take(i + 1) == self.flows@.take(i as int).push(flow));
                self.flows@.take(i as int).lemma_filter_push(flow, live);
            }
            let idle = now.nanos > flow.last_seen.nanos && now.nanos - flow.last_seen.nanos
                > IDLE_THRESHOLD_SECONDS * NANOS_PER_SECOND;
            if !idle {
                kept.push(flow);
            }
            i += 1;
        }
        proof {
            assert(self.flows@.take(i as int) == self.flows@);
            lemma_pruned_distinct(self.flows@, now);
        }
        self.flows = kept;
    }
}

} // verus!
