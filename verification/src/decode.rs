//! From a raw Ethernet frame to what the detectors read of it.
//!
//! The frame is sliced by `etherparse`; this module keeps the fields that the
//! detectors need and decides which projection, if any, a frame yields.

use crate::flow::TcpFlags;
use crate::identity::{FlowIdentity, IcmpKey, Ipv4Address};
use etherparse::{NetSlice, SlicedPacket, TransportSlice};
use vstd::prelude::*;

verus! {

/// The network layer of a sliced frame.
#[derive(Clone, Copy, Debug, PartialEq, Eq)]
pub enum NetLayer {
    /// An IPv4 header, with its source and its destination address.
    Ipv4([u8; 4], [u8; 4]),
    /// Anything else, or nothing.
    Other,
}

/// The transport layer of a sliced frame.
#[derive(Debug, PartialEq, Eq)]
pub enum TransportLayer {
    /// A TCP header: source port, destination port, the flags ACK, SYN and
    /// FIN, then the payload that follows the header.
    Tcp(u16, u16, bool, bool, bool, Vec<u8>),
    /// An ICMPv4 header: its message type, then the payload that follows
    /// the header.
    Icmpv4(u8, Vec<u8>),
    /// Anything else, or nothing.
    Other,
}

/// The transport layer of a sliced frame as a mathematical value.
pub enum TransportLayerView {
    Tcp(u16, u16, bool, bool, bool, Seq<u8>),
    Icmpv4(u8, Seq<u8>),
    Other,
}

impl View for TransportLayer {
    type V = TransportLayerView;

    open spec fn view(&self) -> TransportLayerView {
        match *self {
            TransportLayer::Tcp(source_port, destination_port, ack, syn, fin, payload) => {
                TransportLayerView::Tcp(source_port, destination_port, ack, syn, fin, payload@)
            },
            TransportLayer::Icmpv4(message_type, payload) => TransportLayerView::Icmpv4(
                message_type,
                payload@,
            ),
            TransportLayer::Other => TransportLayerView::Other,
        }
    }
}

/// What a frame holds once sliced.
#[derive(Debug, PartialEq, Eq)]
pub struct FrameLayers {
    pub net: NetLayer,
    pub transport: TransportLayer,
}

/// A sliced frame as a mathematical value.
pub struct FrameLayersView {
    pub net: NetLayer,
    pub transport: TransportLayerView,
}

impl View for FrameLayers {
    type V = FrameLayersView;

    open spec fn view(&self) -> FrameLayersView {
        FrameLayersView { net: self.net, transport: self.transport@ }
    }
}

/// What `etherparse::SlicedPacket::from_ethernet` makes of the bytes of a
/// frame, reduced to the layers above; `None` where it reports an error.
pub uninterp spec fn ethernet_layers(frame: Seq<u8>) -> Option<FrameLayersView>;

/// Slices a frame with `etherparse::SlicedPacket::from_ethernet` and reads
/// the addresses, ports, flags, message type and payload off the slices
/// through their accessors. Trusted: the answer depends on the bytes of the
/// frame alone.
#[verifier::external_body]
fn slice_ethernet(data: &[u8]) -> (layers: Option<FrameLayers>)
    ensures
        match layers {
            Some(l) => ethernet_layers(data@) == Some(l@),
            None => ethernet_layers(data@) is None,
        },
{
    let sliced = SlicedPacket::from_ethernet(data).ok()?;
    let net = match sliced.net {
        Some(NetSlice::Ipv4(ip)) => NetLayer::Ipv4(ip.header().source(), ip.header().destination()),
        _ => NetLayer::Other,
    };
    let transport = match sliced.transport {
        Some(TransportSlice::Tcp(t)) => TransportLayer::Tcp(
            t.source_port(), t.destination_port(), t.ack(), t.syn(), t.fin(), t.payload().to_vec(),
        ),
        Some(TransportSlice::Icmpv4(m)) => TransportLayer::Icmpv4(m.type_u8(), m.payload().to_vec()),
        _ => TransportLayer::Other,
    };
    Some(FrameLayers { net, transport })
}

/// The TCP projection of a sliced frame: the flow, the flags and the payload
/// of a TCP segment carried over IPv4, and nothing for any other frame.
pub open spec fn tcp_projection(layers: Option<FrameLayersView>) -> Option<
    (FlowIdentity, TcpFlags, Seq<u8>),
> {
    match layers {
        Some(
            FrameLayersView {
                net: NetLayer::Ipv4(source, destination),
                transport: TransportLayerView::Tcp(
                    source_port,
                    destination_port,
                    ack,
                    syn,
                    fin,
                    payload,
                ),
            },
        ) => Some(
            (
                FlowIdentity {
                    src: Ipv4Address::of_octets(source@),
                    src_port: source_port,
                    dst: Ipv4Address::of_octets(destination@),
                    dst_port: destination_port,
                },
                TcpFlags { ack, syn, fin },
                payload,
            ),
        ),
        _ => None,
    }
}

/// The ICMP projection of a sliced frame: sender, receiver, message type and
/// payload of an ICMPv4 message carried over IPv4, and nothing for any other
/// frame.
pub open spec fn icmp_projection(layers: Option<FrameLayersView>) -> Option<(IcmpKey, Seq<u8>)> {
    match layers {
        Some(
            FrameLayersView {
                net: NetLayer::Ipv4(source, destination),
                transport: TransportLayerView::Icmpv4(message_type, payload),
            },
        ) => Some(
            (
                IcmpKey {
                    src: Ipv4Address::of_octets(source@),
                    dst: Ipv4Address::of_octets(destination@),
                    message_type,
                },
                payload,
            ),
        ),
        _ => None,
    }
}

/// Reads the TCP projection off a sliced frame.
pub fn tcp_segment(layers: FrameLayers) -> (segment: Option<(FlowIdentity, TcpFlags, Vec<u8>)>)
    ensures
        match segment {
            Some((flow, flags, payload)) => tcp_projection(Some(layers@)) == Some(
                (flow, flags, payload@),
            ),
            None => tcp_projection(Some(layers@)) is None,
        },
{
    match (layers.net, layers.transport) {
        (
            NetLayer::Ipv4(source, destination),
            TransportLayer::Tcp(source_port, destination_port, ack, syn, fin, payload),
        ) => Some(
            (
                FlowIdentity {
                    src: Ipv4Address::from_octets(source),
                    src_port: source_port,
                    dst: Ipv4Address::from_octets(destination),
                    dst_port: destination_port,
                },
                TcpFlags { ack, syn, fin },
                payload,
            ),
        ),
        _ => None,
    }
}

/// Reads the ICMP projection off a sliced frame.
pub fn icmp_message(layers: FrameLayers) -> (message: Option<(IcmpKey, Vec<u8>)>)
    ensures
        match message {
            Some((key, payload)) => icmp_projection(Some(layers@)) == Some((key, payload@)),
            None => icmp_projection(Some(layers@)) is None,
        },
{
    match (layers.net, layers.transport) {
        (
            NetLayer::Ipv4(source, destination),
            TransportLayer::Icmpv4(message_type, payload),
        ) => Some(
            (
                IcmpKey {
                    src: Ipv4Address::from_octets(source),
                    dst: Ipv4Address::from_octets(destination),
                    message_type,
                },
                payload,
            ),
        ),
        _ => None,
    }
}

/// Decodes a frame as a TCP segment over IPv4 over Ethernet: the flow it
/// belongs to, its ACK, SYN and FIN flags and its payload. `None` for a
/// frame that cannot be sliced or that carries anything else.
pub fn parse_tcp_packet(data: &[u8]) -> (segment: Option<(FlowIdentity, TcpFlags, Vec<u8>)>)
    ensures
        match segment {
            Some((flow, flags, payload)) => tcp_projection(ethernet_layers(data@)) == Some(
                (flow, flags, payload@),
            ),
            None => tcp_projection(ethernet_layers(data@)) is None,
        },
{
    match slice_ethernet(data) {
        Some(layers) => tcp_segment(layers),
        None => None,
    }
}

/// Decodes a frame as an ICMPv4 message over IPv4 over Ethernet: sender,
/// receiver and message type, and its payload. `None` for a frame that
/// cannot be sliced or that carries anything else.
pub fn parse_icmp_packet(data: &[u8]) -> (message: Option<(IcmpKey, Vec<u8>)>)
    ensures
        match message {
            Some((key, payload)) => icmp_projection(ethernet_layers(data@)) == Some(
                (key, payload@),
            ),
            None => icmp_projection(ethernet_layers(data@)) is None,
        },
{
    match slice_ethernet(data) {
        Some(layers) => icmp_message(layers),
        None => None,
    }
}

} // verus!
