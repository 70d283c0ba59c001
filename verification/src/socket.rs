use vstd::prelude::*;

use crate::packet::{
    spec_acknowledgment_number, spec_checksum_valid, spec_data_offset, spec_destination_port,
    spec_flags, spec_payload, spec_sequence_number, spec_source_port, spec_urgent_pointer,
    spec_window_size, TcpPacket, TCP_HEADER_SIZE, TCP_MAX_SEGMENT_SIZE,
};

verus! {

/// Advertised receive window, also used as the initial peer window.
pub const TCP_SOCKET_BUFFER_SIZE: u16 = 4380;

/// Four-tuple uniquely identifying a TCP socket. Addresses are IPv4
/// addresses in host byte order. A listening socket carries the wildcard
/// values 0 for both remote fields.
#[derive(Debug, PartialEq, Eq, Structural, Clone, Copy)]
pub struct TcpSocketId {
    pub local_address: u32,
    pub local_port: u16,
    pub remote_address: u32,
    pub remote_port: u16,
}

/// Send Sequence Variables.
#[derive(Debug, PartialEq, Eq, Structural, Clone, Copy)]
pub struct SendSequenceVariables {
    /// Send unacknowledged.
    pub una: u32,
    /// Send next.
    pub nxt: u32,
    /// Send window.
    pub wnd: u16,
    /// Send urgent pointer.
    pub up: u16,
    /// Segment sequence number used for last window update.
    pub wl1: u32,
    /// Segment acknowledgment number used for last window update.
    pub wl2: u32,
    /// Initial send sequence number.
    pub iss: u32,
}

impl SendSequenceVariables {
    pub fn with_window_size(wnd: u16) -> (r: Self)
        ensures
            r == (SendSequenceVariables { una: 0, nxt: 0, wnd, up: 0, wl1: 0, wl2: 0, iss: 0 }),
    {
        Self { una: 0, nxt: 0, wnd, up: 0, wl1: 0, wl2: 0, iss: 0 }
    }
}

/// Receive Sequence Variables.
#[derive(Debug, PartialEq, Eq, Structural, Clone, Copy)]
pub struct ReceiveSequenceVariables {
    /// Receive next.
    pub nxt: u32,
    /// Receive window.
    pub wnd: u16,
    /// Receive urgent pointer.
    pub up: u16,
    /// Initial receive sequence number.
    pub irs: u32,
}

impl ReceiveSequenceVariables {
    pub fn with_window_size(wnd: u16) -> (r: Self)
        ensures
            r == (ReceiveSequenceVariables { nxt: 0, wnd, up: 0, irs: 0 }),
    {
        Self { nxt: 0, wnd, up: 0, irs: 0 }
    }
}

/// TCP state. Only the first five are reachable in this core; the rest are
/// declared for forward compatibility.
#[derive(Debug, PartialEq, Eq, Structural, Clone, Copy)]
pub enum TcpState {
    Listen,
    SynSent,
    SynReceived,
    Established,
    FinWait1,
    FinWait2,
    CloseWait,
    Closing,
    LastAck,
    TimeWait,
    Closed,
}

/// Per-connection record: the four-tuple, the two groups of sequence
/// variables, the handshake state, an optional back-reference to the parent
/// listening socket, and the FIFO queue of established children awaiting
/// accept (non-empty only on listening sockets). The raw-packet send handle
/// of the wire lives with the unverified transport shell, which transmits
/// the segments this record builds.
pub struct TcpSocket {
    pub local_address: u32,
    pub local_port: u16,
    pub remote_address: u32,
    pub remote_port: u16,
    pub snd: SendSequenceVariables,
    pub rcv: ReceiveSequenceVariables,
    pub state: TcpState,
    /// Identifier of the listening socket this one was spawned from, if any.
    pub listening_socket: Option<TcpSocketId>,
    /// Established child sockets not yet handed out by accept.
    pub connected_socket_queue: Vec<TcpSocketId>,
}

impl TcpSocket {
    pub fn new(local_address: u32, local_port: u16, remote_address: u32, remote_port: u16) -> (r: Self)
        ensures
            r.local_address == local_address,
            r.local_port == local_port,
            r.remote_address == remote_address,
            r.remote_port == remote_port,
            r.snd == SendSequenceVariables::spec_initial(),
            r.rcv == ReceiveSequenceVariables::spec_initial(),
            r.state == TcpState::Closed,
            r.listening_socket is None,
            r.connected_socket_queue@ == Seq::<TcpSocketId>::empty(),
    {
        Self {
            local_address,
            local_port,
            remote_address,
            remote_port,
            snd: SendSequenceVariables::with_window_size(TCP_SOCKET_BUFFER_SIZE),
            rcv: ReceiveSequenceVariables::with_window_size(TCP_SOCKET_BUFFER_SIZE),
            state: TcpState::Closed,
            listening_socket: None,
            connected_socket_queue: Vec::new(),
        }
    }

    /// The four-tuple uniquely identifying this socket.
    pub open spec fn spec_id(&self) -> TcpSocketId {
        TcpSocketId {
            local_address: self.local_address,
            local_port: self.local_port,
            remote_address: self.remote_address,
            remote_port: self.remote_port,
        }
    }

    /// Get a four-tuple uniquely identifying this socket.
    #[verifier::when_used_as_spec(spec_id)]
    pub fn id(&self) -> (r: TcpSocketId)
        ensures
            r == self.spec_id(),
    {
        TcpSocketId {
            local_address: self.local_address,
            local_port: self.local_port,
            remote_address: self.remote_address,
            remote_port: self.remote_port,
        }
    }

    /// Build a segment from this socket to its peer: ports from the
    /// four-tuple, window from our receive window, data offset 5, urgent
    /// pointer 0, and the checksum over the segment and the pseudo-header
    /// for this socket's pair of addresses. The transport shell writes the
    /// result to the raw handle destined for the remote address.
    pub fn build_tcp_packet(
        &self,
        sequence_number: u32,
        acknowledgment_number: u32,
        flags: u8,
        payload: &[u8],
    ) -> (p: TcpPacket)
        requires
            payload@.len() <= TCP_MAX_SEGMENT_SIZE - TCP_HEADER_SIZE,
        ensures
            p.wf(),
            p@.len() == TCP_HEADER_SIZE + payload@.len(),
            spec_source_port(p@) == self.local_port,
            spec_destination_port(p@) == self.remote_port,
            spec_sequence_number(p@) == sequence_number,
            spec_acknowledgment_number(p@) == acknowledgment_number,
            spec_data_offset(p@) == 5,
            spec_flags(p@) == flags,
            spec_window_size(p@) == self.rcv.wnd,
            spec_urgent_pointer(p@) == 0,
            spec_payload(p@) == payload@,
            spec_checksum_valid(p@, self.local_address, self.remote_address),
    {
        let mut packet = TcpPacket::new(payload.len());
        packet.set_source_port(self.local_port);
        packet.set_destination_port(self.remote_port);
        packet.set_sequence_number(sequence_number);
        packet.set_acknowledgment_number(acknowledgment_number);
        proof {
            // The offset nibble of the fresh buffer is zero.
            assert(0u8 >> 4 == 0u8) by (bit_vector);
        }
        packet.set_data_offset(5);
        packet.set_flags(flags);
        packet.set_window_size(self.rcv.wnd);
        packet.set_urgent_pointer(0);
        packet.set_payload(payload);
        packet.fill_checksum(self.local_address, self.remote_address);
        packet
    }
}

impl SendSequenceVariables {
    /// The variables of a freshly created socket.
    pub open spec fn spec_initial() -> Self {
        SendSequenceVariables {
            una: 0,
            nxt: 0,
            wnd: TCP_SOCKET_BUFFER_SIZE,
            up: 0,
            wl1: 0,
            wl2: 0,
            iss: 0,
        }
    }
}

impl ReceiveSequenceVariables {
    /// The variables of a freshly created socket.
    pub open spec fn spec_initial() -> Self {
        ReceiveSequenceVariables { nxt: 0, wnd: TCP_SOCKET_BUFFER_SIZE, up: 0, irs: 0 }
    }
}

} // verus!
