//! Classification of captured frames: which flow a frame belongs to, how
//! many bytes it accounts for and in which direction it travelled.

use crate::connection::{Connection, TransportType};
use crate::endpoint::{Endpoint, IpAddress};
use crate::flow_table::{merged, ordered_by_activity, recorded, same_entries, FlowTable};
use crate::slicing::{
    ethernet_slicing, ip_slicing, slice_error_text, slice_ethernet, slice_ip, Headers,
    TransportHeader,
};
use crate::timestamp::Timestamp;
use vstd::prelude::*;
use vstd::string::*;

verus! {

/// Link-layer type of BSD loopback encapsulation.
pub const LINKTYPE_NULL: i32 = 0;

/// Link-layer type of Ethernet.
pub const LINKTYPE_ETHERNET: i32 = 1;

/// Link-layer type of frames that start with the IP header.
pub const LINKTYPE_RAW: i32 = 12;

/// Direction of a packet relative to the monitored interface.
#[derive(Clone, Copy, Debug, PartialEq, Eq, Structural)]
pub enum Direction {
    Incoming,
    Outgoing,
}

/// Why a frame was dropped.
#[derive(Debug, PartialEq, Eq)]
pub enum PacketError {
    /// The interface's link-layer type is none of the supported ones.
    UnsupportedLinkType(i32),
    /// The headers could not be sliced; holds the slicer's description.
    Malformed(String),
    /// The frame carries no IPv4 or IPv6 header.
    NonIp,
    /// The frame carries neither a TCP nor a UDP header.
    NonTransport,
    /// Neither address of the frame belongs to the monitored interface.
    NotMonitored,
}

impl PacketError {
    /// The text of the error.
    pub open spec fn text(self) -> Seq<char> {
        match self {
            PacketError::UnsupportedLinkType(_) => "Unsupported link type"@,
            PacketError::Malformed(detail) => "Error in parsing packet: "@ + detail@,
            PacketError::NonIp => "Received non-ip packet"@,
            PacketError::NonTransport => "Received non-tcp/udp packet"@,
            PacketError::NotMonitored => "Packet not from or to monitored device"@,
        }
    }

    /// Renders the error as text.
    pub fn message(&self) -> (message: String)
        ensures
            message@ == self.text(),
    {
        match self {
            PacketError::UnsupportedLinkType(_) => String::from_str("Unsupported link type"),
            PacketError::Malformed(detail) => String::from_str("Error in parsing packet: ").concat(
                detail.as_str(),
            ),
            PacketError::NonIp => String::from_str("Received non-ip packet"),
            PacketError::NonTransport => String::from_str("Received non-tcp/udp packet"),
            PacketError::NotMonitored => String::from_str("Packet not from or to monitored device"),
        }
    }
}

/// The link-layer types whose frames are sliced from the IP header on.
pub open spec fn starts_with_ip(link_type: i32) -> bool {
    link_type == LINKTYPE_RAW || link_type == LINKTYPE_NULL
}

/// The link-layer types that classification accepts.
pub open spec fn is_supported_link(link_type: i32) -> bool {
    starts_with_ip(link_type) || link_type == LINKTYPE_ETHERNET
}

/// The headers of a frame captured on a link of a supported type, `None`
/// where slicing rejects the frame.
pub open spec fn frame_headers(link_type: i32, frame: Seq<u8>) -> Option<Headers> {
    if starts_with_ip(link_type) {
        ip_slicing(frame)
    } else {
        ethernet_slicing(frame)
    }
}

/// Direction of a packet between `source` and `destination`, seen on an
/// interface bound to `addresses`: outgoing where the source is one of
/// them, else incoming where the destination is, else undetermined.
pub open spec fn resolved_direction(
    addresses: Seq<IpAddress>,
    source: IpAddress,
    destination: IpAddress,
) -> Option<Direction> {
    if addresses.contains(source) {
        Some(Direction::Outgoing)
    } else if addresses.contains(destination) {
        Some(Direction::Incoming)
    } else {
        None
    }
}

/// The flow record of a packet first seen at `now`: no inode, no process
/// and nothing counted yet.
pub open spec fn observed_flow(
    transport_type: TransportType,
    source: Endpoint,
    destination: Endpoint,
    now: Timestamp,
) -> Connection {
    Connection {
        source,
        destination,
        inode: 0,
        process_id: 0,
        transport_type,
        bytes_uploaded: 0,
        bytes_downloaded: 0,
        first_seen: now,
        last_seen: now,
    }
}

/// The flow that sliced headers describe, or the reason why they describe
/// none.
pub open spec fn described_flow(headers: Headers, now: Timestamp) -> Result<
    Connection,
    PacketError,
> {
    match headers.net {
        None => Err(PacketError::NonIp),
        Some((source, destination)) => match headers.transport {
            Some(TransportHeader::Tcp(source_port, destination_port)) => Ok(
                observed_flow(
                    TransportType::Tcp,
                    Endpoint { ip: source, port: source_port },
                    Endpoint { ip: destination, port: destination_port },
                    now,
                ),
            ),
            Some(TransportHeader::Udp(source_port, destination_port)) => Ok(
                observed_flow(
                    TransportType::Udp,
                    Endpoint { ip: source, port: source_port },
                    Endpoint { ip: destination, port: destination_port },
                    now,
                ),
            ),
            _ => Err(PacketError::NonTransport),
        },
    }
}

/// What a frame of `size` bytes with the given headers amounts to: its
/// flow, the bytes to account for, which are the whole frame, and its
/// direction.
pub open spec fn classification(
    headers: Headers,
    size: usize,
    addresses: Seq<IpAddress>,
    now: Timestamp,
) -> Result<(Connection, usize, Direction), PacketError> {
    match described_flow(headers, now) {
        Err(error) => Err(error),
        Ok(flow) => match resolved_direction(addresses, flow.source.ip, flow.destination.ip) {
            Some(direction) => Ok((flow, size, direction)),
            None => Err(PacketError::NotMonitored),
        },
    }
}

/// Whether `address` is one of `addresses`.
pub fn contains_address(addresses: &Vec<IpAddress>, address: IpAddress) -> (found: bool)
    ensures
        found == addresses@.contains(address),
{
    let mut i: usize = 0;
    while i < addresses.len()
        invariant
            i <= addresses.len(),
            forall|j: int| 0 <= j < i ==> addresses@[j] != address,
        decreases addresses.len() - i,
    {
        if addresses[i] == address {
            return true;
        }
        i += 1;
    }
    false
}

/// Resolves the direction of a packet on an interface bound to
/// `addresses`.
pub fn resolve_direction(
    addresses: &Vec<IpAddress>,
    source: IpAddress,
    destination: IpAddress,
) -> (direction: Option<Direction>)
    ensures
        direction == resolved_direction(addresses@, source, destination),
{
    if contains_address(addresses, source) {
        Some(Direction::Outgoing)
    } else if contains_address(addresses, destination) {
        Some(Direction::Incoming)
    } else {
        None
    }
}

/// Classifies a frame from its sliced headers.
pub fn classify(headers: &Headers, size: usize, addresses: &Vec<IpAddress>, now: Timestamp) -> (r:
    Result<(Connection, usize, Direction), PacketError>)
    ensures
        r == classification(*headers, size, addresses@, now),
{
    let (source_ip, destination_ip) = match headers.net {
        None => { return Err(PacketError::NonIp); },
        Some(pair) => pair,
    };
    let (transport_type, source_port, destination_port) = match headers.transport {
        Some(TransportHeader::Tcp(source_port, destination_port)) => (
            TransportType::Tcp,
            source_port,
            destination_port,
        ),
        Some(TransportHeader::Udp(source_port, destination_port)) => (
            TransportType::Udp,
            source_port,
            destination_port,
        ),
        _ => { return Err(PacketError::NonTransport); },
    };
    let flow = Connection {
        source: Endpoint { ip: source_ip, port: source_port },
        destination: Endpoint { ip: destination_ip, port: destination_port },
        inode: 0,
        process_id: 0,
        transport_type,
        bytes_uploaded: 0,
        bytes_downloaded: 0,
        first_seen: now,
        last_seen: now,
    };
    match resolve_direction(addresses, source_ip, destination_ip) {
        Some(direction) => Ok((flow, size, direction)),
        None => Err(PacketError::NotMonitored),
    }
}

/// Decodes one captured frame: slices its headers as the link-layer type
/// asks and classifies what they describe.
pub fn process_packet(
    frame: &[u8],
    link_type: i32,
    addresses: &Vec<IpAddress>,
    now: Timestamp,
) -> (r: Result<(Connection, usize, Direction), PacketError>)
    ensures
        !is_supported_link(link_type) ==> r == Err::<(Connection, usize, Direction), PacketError>(
            PacketError::UnsupportedLinkType(link_type),
        ),
        is_supported_link(link_type) ==> match frame_headers(link_type, frame@) {
            None => r matches Err(PacketError::Malformed(_)),
            Some(headers) => r == classification(headers, frame@.len() as usize, addresses@, now),
        },
{
    let sliced = if link_type == LINKTYPE_RAW || link_type == LINKTYPE_NULL {
        slice_ip(frame)
    } else if link_type == LINKTYPE_ETHERNET {
        slice_ethernet(frame)
    } else {
        return Err(PacketError::UnsupportedLinkType(link_type));
    };
    match sliced {
        Err(error) => Err(PacketError::Malformed(slice_error_text(&error))),
        Ok(headers) => classify(&headers, frame.len(), addresses, now),
    }
}

/// The table after the latest sample of the kernel's sockets, if there
/// is one, was merged in.
pub open spec fn drained(flows: Seq<Connection>, latest: Option<Vec<Connection>>) -> Seq<
    Connection,
> {
    match latest {
        Some(samples) => merged(flows, samples@),
        None => flows,
    }
}

/// Merges the latest sample of the kernel's sockets into the table; with
/// no sample yet the table stays as it is.
pub fn update_connections_with_inodes_from_receiver(
    connections: &mut FlowTable,
    latest: &Option<Vec<Connection>>,
)
    requires
        old(connections).wf(),
    ensures
        final(connections).wf(),
        final(connections)@ == drained(old(connections)@, *latest),
{
    match latest {
        Some(samples) => connections.merge_samples(samples),
        None => {},
    }
}

/// Accounts for a classified packet and puts the table back in order of
/// activity.
pub fn update_connections_with_bytes_transferred(
    connections: &mut FlowTable,
    connection: Connection,
    bytes_transferred: usize,
    direction: Direction,
)
    requires
        old(connections).wf(),
    ensures
        final(connections).wf(),
        same_entries(
            final(connections)@,
            recorded(old(connections)@, connection, bytes_transferred, direction),
        ),
        ordered_by_activity(final(connections)@),
{
    connections.record_packet(&connection, bytes_transferred, direction);
    connections.sort_by_activity();
}

/// The whole of a capture worker's work on one captured frame, for a
/// caller that holds the table throughout: merges the latest socket
/// sample into the table, decodes the frame and, where it belongs to a
/// flow, accounts for it. Answers with the copy of the table to publish,
/// which is the table after the whole update, or with the reason why the
/// frame was dropped.
pub fn handle_frame(
    connections: &mut FlowTable,
    latest: &Option<Vec<Connection>>,
    frame: &[u8],
    link_type: i32,
    addresses: &Vec<IpAddress>,
    now: Timestamp,
) -> (r: Result<Vec<Connection>, PacketError>)
    requires
        old(connections).wf(),
    ensures
        final(connections).wf(),
        !is_supported_link(link_type) ==> {
            &&& r == Err::<Vec<Connection>, PacketError>(PacketError::UnsupportedLinkType(link_type))
            &&& final(connections)@ == drained(old(connections)@, *latest)
        },
        is_supported_link(link_type) ==> match frame_headers(link_type, frame@) {
            None => {
                &&& r matches Err(PacketError::Malformed(_))
                &&& final(connections)@ == drained(old(connections)@, *latest)
            },
            Some(headers) => match classification(
                headers,
                frame@.len() as usize,
                addresses@,
                now,
            ) {
                Err(error) => {
                    &&& r == Err::<Vec<Connection>, PacketError>(error)
                    &&& final(connections)@ == drained(old(connections)@, *latest)
                },
                Ok((flow, bytes, direction)) => {
                    &&& r matches Ok(published)
                    &&& published@ == final(connections)@
                    &&& same_entries(
                        final(connections)@,
                        recorded(drained(old(connections)@, *latest), flow, bytes, direction),
                    )
                    &&& ordered_by_activity(final(connections)@)
                },
            },
        },
{
    update_connections_with_inodes_from_receiver(connections, latest);
    match process_packet(frame, link_type, addresses, now) {
        Err(error) => Err(error),
        Ok((flow, bytes, direction)) => {
            update_connections_with_bytes_transferred(connections, flow, bytes, direction);
            Ok(connections.snapshot())
        },
    }
}

} // verus!
