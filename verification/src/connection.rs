//! Flows and their identity.
//!
//! A flow is identified by its transport protocol and the unordered pair
//! of its endpoints: which endpoint is recorded as the source is a label,
//! not part of the identity.

use crate::capture::Direction;
use crate::endpoint::Endpoint;
use crate::timestamp::Timestamp;
use vstd::prelude::*;
use vstd::std_specs::cmp::PartialEqSpecImpl;

verus! {

/// Transport protocol of a flow.
#[derive(Clone, Copy, Debug, PartialEq, Eq, Hash, Structural)]
pub enum TransportType {
    Tcp,
    Udp,
}

/// One observed flow.
#[derive(Clone, Copy, Debug)]
pub struct Connection {
    pub source: Endpoint,
    pub destination: Endpoint,
    /// Inode of the kernel socket; zero while unknown.
    pub inode: u64,
    /// Id of the owning process; zero while unknown.
    pub process_id: i32,
    pub transport_type: TransportType,
    pub bytes_uploaded: usize,
    pub bytes_downloaded: usize,
    pub first_seen: Timestamp,
    pub last_seen: Timestamp,
}

/// Canonical form of a flow's identity: the protocol and the two
/// endpoints, the one that comes first in the order of endpoints first.
#[derive(Clone, Copy, Debug, PartialEq, Eq, Hash, Structural)]
pub struct FlowKey {
    pub transport_type: TransportType,
    pub low: Endpoint,
    pub high: Endpoint,
}

impl Connection {
    /// Two records describe the same flow when the protocols agree and the
    /// endpoints agree as an unordered pair.
    pub open spec fn same_flow(self, other: Connection) -> bool {
        &&& self.transport_type == other.transport_type
        &&& ((self.source == other.source && self.destination == other.destination) || (self.source
            == other.destination && self.destination == other.source))
    }

    /// The recorded direction agrees with that of `other`.
    pub open spec fn same_orientation(self, other: Connection) -> bool {
        self.source == other.source && self.destination == other.destination
    }

    /// The canonical identity of the flow.
    pub open spec fn key(self) -> FlowKey {
        if self.source.rank() < self.destination.rank() {
            FlowKey {
                transport_type: self.transport_type,
                low: self.source,
                high: self.destination,
            }
        } else {
            FlowKey {
                transport_type: self.transport_type,
                low: self.destination,
                high: self.source,
            }
        }
    }

    /// Bytes seen on the flow in both directions together.
    pub open spec fn activity(self) -> int {
        self.bytes_uploaded + self.bytes_downloaded
    }

    /// The same flow seen from the other side: endpoints exchanged
    /// together with their counters.
    pub open spec fn reversed(self) -> Connection {
        Connection {
            source: self.destination,
            destination: self.source,
            bytes_uploaded: self.bytes_downloaded,
            bytes_downloaded: self.bytes_uploaded,
            ..self
        }
    }

    /// The record with `bytes` more on the counter of `direction`; a
    /// counter stops at the largest value it can hold.
    pub open spec fn credited(self, bytes: usize, direction: Direction) -> Connection {
        match direction {
            Direction::Outgoing => Connection {
                bytes_uploaded: saturating_sum(self.bytes_uploaded, bytes),
                ..self
            },
            Direction::Incoming => Connection {
                bytes_downloaded: saturating_sum(self.bytes_downloaded, bytes),
                ..self
            },
        }
    }

    /// The record with its inode set to `inode`.
    pub open spec fn with_inode(self, inode: u64) -> Connection {
        Connection { inode, ..self }
    }

    /// The record with its last sighting moved to `at`.
    pub open spec fn seen_at(self, at: Timestamp) -> Connection {
        Connection { last_seen: at, ..self }
    }

    /// The record of a flow after one more of its packets: turned round
    /// first where the packet runs against the recorded direction, then
    /// credited with the packet's bytes and marked as seen when the packet
    /// was.
    pub open spec fn after_packet(
        self,
        packet: Connection,
        bytes: usize,
        direction: Direction,
    ) -> Connection {
        let oriented = if self.same_orientation(packet) {
            self
        } else {
            self.reversed()
        };
        oriented.credited(bytes, direction).seen_at(packet.last_seen)
    }

    /// The record that the first packet of a flow opens: the packet's
    /// endpoints in the packet's direction, no inode, and nothing counted
    /// but the packet's own bytes.
    pub open spec fn opened_by(packet: Connection, bytes: usize, direction: Direction) -> Connection {
        Connection { inode: 0, bytes_uploaded: 0, bytes_downloaded: 0, ..packet }.credited(
            bytes,
            direction,
        )
    }

    /// Whether `self` and `other` describe the same flow.
    pub fn is_same_flow(&self, other: &Connection) -> (same: bool)
        ensures
            same == self.same_flow(*other),
    {
        self.transport_type == other.transport_type && ((self.source == other.source
            && self.destination == other.destination) || (self.source == other.destination
            && self.destination == other.source))
    }

    /// Computes the canonical identity of the flow.
    pub fn canonical_key(&self) -> (key: FlowKey)
        ensures
            key == self.key(),
    {
        if self.source.precedes(&self.destination) {
            FlowKey {
                transport_type: self.transport_type,
                low: self.source,
                high: self.destination,
            }
        } else {
            FlowKey {
                transport_type: self.transport_type,
                low: self.destination,
                high: self.source,
            }
        }
    }

    /// Exchanges source and destination together with their counters.
    pub fn reverse(&mut self)
        ensures
            *final(self) == old(self).reversed(),
    {
        let source = self.source;
        let uploaded = self.bytes_uploaded;
        self.source = self.destination;
        self.destination = source;
        self.bytes_uploaded = self.bytes_downloaded;
        self.bytes_downloaded = uploaded;
    }

    /// Adds `bytes` to the counter that `direction` selects.
    pub fn credit(&mut self, bytes: usize, direction: Direction)
        ensures
            *final(self) == old(self).credited(bytes, direction),
    {
        match direction {
            Direction::Outgoing => {
                self.bytes_uploaded = self.bytes_uploaded.saturating_add(bytes);
            },
            Direction::Incoming => {
                self.bytes_downloaded = self.bytes_downloaded.saturating_add(bytes);
            },
        }
    }

    /// Bytes seen on the flow in both directions together.
    pub fn total_bytes(&self) -> (total: u128)
        ensures
            total == self.activity(),
    {
        self.bytes_uploaded as u128 + self.bytes_downloaded as u128
    }

    /// Accounts for one more packet of this flow.
    pub fn record(&mut self, packet: &Connection, bytes: usize, direction: Direction)
        ensures
            *final(self) == old(self).after_packet(*packet, bytes, direction),
    {
        if !(self.source == packet.source && self.destination == packet.destination) {
            self.reverse();
        }
        self.credit(bytes, direction);
        self.last_seen = packet.last_seen;
    }

    /// Opens the record of a flow from its first packet.
    pub fn open(packet: &Connection, bytes: usize, direction: Direction) -> (flow: Connection)
        ensures
            flow == Connection::opened_by(*packet, bytes, direction),
    {
        let mut flow = *packet;
        flow.inode = 0;
        flow.bytes_uploaded = 0;
        flow.bytes_downloaded = 0;
        flow.credit(bytes, direction);
        flow
    }
}

/// The sum of two counters, held at the largest value a counter can take.
pub open spec fn saturating_sum(counter: usize, bytes: usize) -> usize {
    if counter + bytes > usize::MAX {
        usize::MAX
    } else {
        (counter + bytes) as usize
    }
}

impl PartialEq for Connection {
    /// `==` on flows is identity, not equality of every field.
    fn eq(&self, other: &Connection) -> (same: bool) {
        self.is_same_flow(other)
    }
}

impl PartialEqSpecImpl for Connection {
    open spec fn obeys_eq_spec() -> bool {
        true
    }

    open spec fn eq_spec(&self, other: &Connection) -> bool {
        self.same_flow(*other)
    }
}

impl Eq for Connection {

}

} // verus!
