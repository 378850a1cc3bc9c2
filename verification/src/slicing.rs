//! Header slicing of captured frames, done by the `etherparse` crate.
//!
//! Nothing in this file is proved: each function states what the crate's
//! slicing returns, and the rest of the library reasons from that.

use crate::endpoint::IpAddress;
use crate::endpoint::IpAddress::{V4, V6};
use crate::slicing::TransportHeader::{Other, Tcp, Udp};
use etherparse::err::packet::SliceError;
use etherparse::{NetSlice, SlicedPacket, TransportSlice};
use vstd::prelude::*;

verus! {

/// What the transport layer of a frame turned out to be, with the source
/// and destination ports where it is TCP or UDP.
#[derive(Clone, Copy, Debug, PartialEq, Eq, Structural)]
pub enum TransportHeader {
    Tcp(u16, u16),
    Udp(u16, u16),
    Other,
}

/// The parts of a sliced frame that flow tracking reads.
#[derive(Clone, Copy, Debug, PartialEq, Eq)]
pub struct Headers {
    /// Source and destination address of the IP header, if there is one.
    pub net: Option<(IpAddress, IpAddress)>,
    /// The transport header, if one was recognised.
    pub transport: Option<TransportHeader>,
}

/// `etherparse::err::packet::SliceError`, the error of the slicing calls.
/// Nothing is known of a value of it; it is only carried to
/// `slice_error_text`.
#[verifier::external_type_specification]
#[verifier::external_body]
pub struct ExSliceError(SliceError);

/// The headers that `etherparse` finds in a frame that starts with an
/// Ethernet II header, or `None` where it rejects the frame.
pub uninterp spec fn ethernet_slicing(frame: Seq<u8>) -> Option<Headers>;

/// The headers that `etherparse` finds in a frame that starts with an
/// IPv4 or IPv6 header, or `None` where it rejects the frame.
pub uninterp spec fn ip_slicing(frame: Seq<u8>) -> Option<Headers>;

/// What a slicing call answered, without the error's detail.
pub open spec fn slicing_outcome(r: Result<Headers, SliceError>) -> Option<Headers> {
    match r {
        Ok(h) => Some(h),
        Err(_) => None,
    }
}

/// Calls `etherparse::SlicedPacket::from_ethernet` and keeps of what it
/// found the addresses of the IP header, each as the big-endian integer of
/// its octets, and the ports of a TCP or UDP header; any other transport
/// header becomes `Other`.
///
/// Believed, not proved: the call does not panic, and its result depends
/// on the frame's bytes alone. The contract claims no more than that: it
/// gives the result the name `ethernet_slicing`, and says nothing of
/// which frames are accepted or what is found in them.
#[verifier::external_body]
pub(crate) fn slice_ethernet(frame: &[u8]) -> (r: Result<Headers, SliceError>)
    ensures
        slicing_outcome(r) == ethernet_slicing(frame@),
{
    SlicedPacket::from_ethernet(frame).map(|p| Headers {
        net: p.net.map(|n| match n {
            NetSlice::Ipv4(s) => (V4(s.header().source_addr().into()), V4(s.header().destination_addr().into())),
            NetSlice::Ipv6(s) => (V6(s.header().source_addr().into()), V6(s.header().destination_addr().into())),
        }),
        transport: p.transport.map(|t| match t {
            TransportSlice::Tcp(h) => Tcp(h.source_port(), h.destination_port()),
            TransportSlice::Udp(h) => Udp(h.source_port(), h.destination_port()),
            _ => Other,
        }),
    })
}

/// Calls `etherparse::SlicedPacket::from_ip` and keeps of what it found
/// the addresses of the IP header, each as the big-endian integer of its
/// octets, and the ports of a TCP or UDP header; any other transport
/// header becomes `Other`.
///
/// Believed, not proved: the call does not panic, and its result depends
/// on the frame's bytes alone. The contract claims no more than that: it
/// gives the result the name `ip_slicing`, and says nothing of which
/// frames are accepted or what is found in them.
#[verifier::external_body]
pub(crate) fn slice_ip(frame: &[u8]) -> (r: Result<Headers, SliceError>)
    ensures
        slicing_outcome(r) == ip_slicing(frame@),
{
    SlicedPacket::from_ip(frame).map(|p| Headers {
        net: p.net.map(|n| match n {
            NetSlice::Ipv4(s) => (V4(s.header().source_addr().into()), V4(s.header().destination_addr().into())),
            NetSlice::Ipv6(s) => (V6(s.header().source_addr().into()), V6(s.header().destination_addr().into())),
        }),
        transport: p.transport.map(|t| match t {
            TransportSlice::Tcp(h) => Tcp(h.source_port(), h.destination_port()),
            TransportSlice::Udp(h) => Udp(h.source_port(), h.destination_port()),
            _ => Other,
        }),
    })
}

/// Formats an `etherparse` slicing error with its `Debug` impl. Nothing
/// is claimed of the text.
#[verifier::external_body]
pub(crate) fn slice_error_text(error: &SliceError) -> (text: String) {
    format!("{:?}", error)
}

} // verus!
