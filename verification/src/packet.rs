use vstd::prelude::*;
use vstd::assert_seqs_equal;
use vstd::pervasive::VecAdditionalExecFns;
use vstd::slice::slice_subrange;

verus! {

/// Header length in bytes; no options are supported.
pub const TCP_HEADER_SIZE: usize = 20;

/// Largest segment an IPv4 pseudo-header can describe: its length field is 16 bits.
pub const TCP_MAX_SEGMENT_SIZE: usize = 65535;

/// Big-endian value of two bytes.
pub open spec fn be16(b0: u8, b1: u8) -> u16 {
    (b0 as u16 * 0x100 + b1 as u16) as u16
}

/// Big-endian value of four bytes.
pub open spec fn be32(b0: u8, b1: u8, b2: u8, b3: u8) -> u32 {
    (b0 as u32 * 0x100_0000 + b1 as u32 * 0x1_0000 + b2 as u32 * 0x100 + b3 as u32) as u32
}

/// Source port, stored big-endian at bytes 0-1.
pub open spec fn spec_source_port(b: Seq<u8>) -> u16 {
    be16(b[0], b[1])
}

/// Destination port, stored big-endian at bytes 2-3.
pub open spec fn spec_destination_port(b: Seq<u8>) -> u16 {
    be16(b[2], b[3])
}

/// Sequence number, stored big-endian at bytes 4-7.
pub open spec fn spec_sequence_number(b: Seq<u8>) -> u32 {
    be32(b[4], b[5], b[6], b[7])
}

/// Acknowledgment number, stored big-endian at bytes 8-11.
pub open spec fn spec_acknowledgment_number(b: Seq<u8>) -> u32 {
    be32(b[8], b[9], b[10], b[11])
}

/// Data offset in 32-bit words, stored in the high nibble of byte 12.
pub open spec fn spec_data_offset(b: Seq<u8>) -> u8 {
    b[12] >> 4
}

/// Control bits, stored at byte 13.
pub open spec fn spec_flags(b: Seq<u8>) -> u8 {
    b[13]
}

/// Window size, stored big-endian at bytes 14-15.
pub open spec fn spec_window_size(b: Seq<u8>) -> u16 {
    be16(b[14], b[15])
}

/// Checksum, stored big-endian at bytes 16-17.
pub open spec fn spec_checksum(b: Seq<u8>) -> u16 {
    be16(b[16], b[17])
}

/// Urgent pointer, stored big-endian at bytes 18-19.
pub open spec fn spec_urgent_pointer(b: Seq<u8>) -> u16 {
    be16(b[18], b[19])
}

/// Payload: everything past the fixed 20-byte header.
pub open spec fn spec_payload(b: Seq<u8>) -> Seq<u8> {
    b.skip(20)
}

/// The RFC 793 checksum of a TCP segment over IPv4, taken together with the
/// pseudo-header (source address, destination address, zero, protocol 6, TCP
/// length), where the segment's own checksum field is zero. The computation
/// is done by an outside networking library; only the name is stated here.
pub uninterp spec fn tcp_checksum_of(data: Seq<u8>, source_address: u32, destination_address: u32) -> u16;

/// The stored checksum field matches the checksum computed over the segment
/// with that field zeroed, together with the pseudo-header for the given pair
/// of addresses.
pub open spec fn spec_checksum_valid(b: Seq<u8>, local_address: u32, remote_address: u32) -> bool {
    spec_checksum(b) == tcp_checksum_of(b.update(16, 0u8).update(17, 0u8), local_address, remote_address)
}

/// Relies on pnet::util::ipv4_checksum: it returns the ones'-complement
/// checksum of `data` plus the IPv4 pseudo-header for protocol 6 (TCP),
/// leaving the 16-bit word at word index `skipword` out of the sum, which
/// equals the checksum of `data` with that word zeroed, since a zero word
/// does not change a ones'-complement sum. The length bound keeps the
/// library's 32-bit accumulator from overflowing.
#[verifier::external_body]
fn pnet_tcp_checksum(data: &Vec<u8>, skipword: usize, source_address: u32, destination_address: u32) -> (r: u16)
    requires
        2 * skipword + 1 < data@.len(),
        data@.len() <= TCP_MAX_SEGMENT_SIZE,
    ensures
        r == tcp_checksum_of(
            data@.update(2 * (skipword as int), 0u8).update(2 * (skipword as int) + 1, 0u8),
            source_address,
            destination_address,
        ),
{
    pnet::util::ipv4_checksum(
        data,
        skipword,
        &[],
        &pnet::util::core_net::Ipv4Addr::from(source_address),
        &pnet::util::core_net::Ipv4Addr::from(destination_address),
        pnet::packet::ip::IpNextHeaderProtocols::Tcp,
    )
}

/// A TCP segment: the fixed 20-byte header followed by the payload bytes.
#[derive(Debug)]
pub struct TcpPacket {
    buffer: Vec<u8>,
}

impl View for TcpPacket {
    type V = Seq<u8>;

    closed spec fn view(&self) -> Seq<u8> {
        self.buffer@
    }
}

impl TcpPacket {
    /// A packet buffer is well formed when it holds the whole fixed header
    /// and fits the 16-bit length field of the pseudo-header.
    pub open spec fn wf(&self) -> bool {
        TCP_HEADER_SIZE <= self@.len() <= TCP_MAX_SEGMENT_SIZE
    }

    pub fn new(payload_size: usize) -> (r: Self)
        requires
            payload_size <= TCP_MAX_SEGMENT_SIZE - TCP_HEADER_SIZE,
        ensures
            r.wf(),
            r@ == Seq::new((TCP_HEADER_SIZE + payload_size) as nat, |i: int| 0u8),
    {
        Self { buffer: vec![0; TCP_HEADER_SIZE + payload_size] }
    }

    /// Wrap a received buffer as a packet.
    pub fn from_bytes(buffer: Vec<u8>) -> (r: Self)
        requires
            TCP_HEADER_SIZE <= buffer@.len() <= TCP_MAX_SEGMENT_SIZE,
        ensures
            r.wf(),
            r@ == buffer@,
    {
        Self { buffer }
    }

    /// The raw bytes of the segment.
    pub fn packet(&self) -> (r: &[u8])
        ensures
            r@ == self@,
    {
        self.buffer.as_slice()
    }

    /// The payload bytes behind the fixed header.
    pub fn payload(&self) -> (r: &[u8])
        requires
            self.wf(),
        ensures
            r@ == spec_payload(self@),
    {
        let r = slice_subrange(self.buffer.as_slice(), TCP_HEADER_SIZE, self.buffer.len());
        proof {
            assert(r@ =~= spec_payload(self@));
        }
        r
    }

    // Getters

    pub fn source_port(&self) -> (r: u16)
        requires
            self.wf(),
        ensures
            r == spec_source_port(self@),
    {
        self.buffer[0] as u16 * 0x100 + self.buffer[1] as u16
    }

    pub fn destination_port(&self) -> (r: u16)
        requires
            self.wf(),
        ensures
            r == spec_destination_port(self@),
    {
        self.buffer[2] as u16 * 0x100 + self.buffer[3] as u16
    }

    pub fn sequence_number(&self) -> (r: u32)
        requires
            self.wf(),
        ensures
            r == spec_sequence_number(self@),
    {
        self.buffer[4] as u32 * 0x100_0000 + self.buffer[5] as u32 * 0x1_0000
            + self.buffer[6] as u32 * 0x100 + self.buffer[7] as u32
    }

    pub fn acknowledgment_number(&self) -> (r: u32)
        requires
            self.wf(),
        ensures
            r == spec_acknowledgment_number(self@),
    {
        self.buffer[8] as u32 * 0x100_0000 + self.buffer[9] as u32 * 0x1_0000
            + self.buffer[10] as u32 * 0x100 + self.buffer[11] as u32
    }

    pub fn data_offset(&self) -> (r: u8)
        requires
            self.wf(),
        ensures
            r == spec_data_offset(self@),
    {
        self.buffer[12] >> 4
    }

    pub fn flags(&self) -> (r: u8)
        requires
            self.wf(),
        ensures
            r == spec_flags(self@),
    {
        self.buffer[13]
    }

    pub fn window_size(&self) -> (r: u16)
        requires
            self.wf(),
        ensures
            r == spec_window_size(self@),
    {
        self.buffer[14] as u16 * 0x100 + self.buffer[15] as u16
    }

    pub fn checksum(&self) -> (r: u16)
        requires
            self.wf(),
        ensures
            r == spec_checksum(self@),
    {
        self.buffer[16] as u16 * 0x100 + self.buffer[17] as u16
    }

    pub fn urgent_pointer(&self) -> (r: u16)
        requires
            self.wf(),
        ensures
            r == spec_urgent_pointer(self@),
    {
        self.buffer[18] as u16 * 0x100 + self.buffer[19] as u16
    }

    // Setters

    pub fn set_source_port(&mut self, source_port: u16)
        requires
            old(self).wf(),
        ensures
            final(self)@ == old(self)@
                .update(0, (source_port >> 8) as u8)
                .update(1, source_port as u8),
            spec_source_port(final(self)@) == source_port,
    {
        self.buffer.set(0, (source_port >> 8) as u8);
        self.buffer.set(1, source_port as u8);
        proof {
            lemma_be16_of_bytes(source_port);
        }
    }

    pub fn set_destination_port(&mut self, destination_port: u16)
        requires
            old(self).wf(),
        ensures
            final(self)@ == old(self)@
                .update(2, (destination_port >> 8) as u8)
                .update(3, destination_port as u8),
            spec_destination_port(final(self)@) == destination_port,
    {
        self.buffer.set(2, (destination_port >> 8) as u8);
        self.buffer.set(3, destination_port as u8);
        proof {
            lemma_be16_of_bytes(destination_port);
        }
    }

    pub fn set_sequence_number(&mut self, sequence_number: u32)
        requires
            old(self).wf(),
        ensures
            final(self)@ == old(self)@
                .update(4, (sequence_number >> 24) as u8)
                .update(5, (sequence_number >> 16) as u8)
                .update(6, (sequence_number >> 8) as u8)
                .update(7, sequence_number as u8),
            spec_sequence_number(final(self)@) == sequence_number,
    {
        self.buffer.set(4, (sequence_number >> 24) as u8);
        self.buffer.set(5, (sequence_number >> 16) as u8);
        self.buffer.set(6, (sequence_number >> 8) as u8);
        self.buffer.set(7, sequence_number as u8);
        proof {
            lemma_be32_of_bytes(sequence_number);
        }
    }

    pub fn set_acknowledgment_number(&mut self, acknowledgment_number: u32)
        requires
            old(self).wf(),
        ensures
            final(self)@ == old(self)@
                .update(8, (acknowledgment_number >> 24) as u8)
                .update(9, (acknowledgment_number >> 16) as u8)
                .update(10, (acknowledgment_number >> 8) as u8)
                .update(11, acknowledgment_number as u8),
            spec_acknowledgment_number(final(self)@) == acknowledgment_number,
    {
        self.buffer.set(8, (acknowledgment_number >> 24) as u8);
        self.buffer.set(9, (acknowledgment_number >> 16) as u8);
        self.buffer.set(10, (acknowledgment_number >> 8) as u8);
        self.buffer.set(11, acknowledgment_number as u8);
        proof {
            lemma_be32_of_bytes(acknowledgment_number);
        }
    }

    /// The high nibble of byte 12 is or-ed in, as the offset is the only
    /// field kept there.
    pub fn set_data_offset(&mut self, data_offset: u8)
        requires
            old(self).wf(),
        ensures
            final(self)@ == old(self)@.update(12, old(self)@[12] | (data_offset << 4)),
            spec_data_offset(old(self)@) == 0 && data_offset < 16
                ==> spec_data_offset(final(self)@) == data_offset,
    {
        let b = self.buffer[12] | (data_offset << 4);
        self.buffer.set(12, b);
        proof {
            let b0 = old(self)@[12];
            assert(b0 >> 4 == 0 && data_offset < 16
                ==> (b0 | (data_offset << 4)) >> 4 == data_offset) by (bit_vector);
        }
    }

    pub fn set_flags(&mut self, flags: u8)
        requires
            old(self).wf(),
        ensures
            final(self)@ == old(self)@.update(13, flags),
            spec_flags(final(self)@) == flags,
    {
        self.buffer.set(13, flags);
    }

    pub fn set_window_size(&mut self, window_size: u16)
        requires
            old(self).wf(),
        ensures
            final(self)@ == old(self)@
                .update(14, (window_size >> 8) as u8)
                .update(15, window_size as u8),
            spec_window_size(final(self)@) == window_size,
    {
        self.buffer.set(14, (window_size >> 8) as u8);
        self.buffer.set(15, window_size as u8);
        proof {
            lemma_be16_of_bytes(window_size);
        }
    }

    pub fn set_checksum(&mut self, checksum: u16)
        requires
            old(self).wf(),
        ensures
            final(self)@ == old(self)@
                .update(16, (checksum >> 8) as u8)
                .update(17, checksum as u8),
            spec_checksum(final(self)@) == checksum,
    {
        self.buffer.set(16, (checksum >> 8) as u8);
        self.buffer.set(17, checksum as u8);
        proof {
            lemma_be16_of_bytes(checksum);
        }
    }

    pub fn set_urgent_pointer(&mut self, urgent_pointer: u16)
        requires
            old(self).wf(),
        ensures
            final(self)@ == old(self)@
                .update(18, (urgent_pointer >> 8) as u8)
                .update(19, urgent_pointer as u8),
            spec_urgent_pointer(final(self)@) == urgent_pointer,
    {
        self.buffer.set(18, (urgent_pointer >> 8) as u8);
        self.buffer.set(19, urgent_pointer as u8);
        proof {
            lemma_be16_of_bytes(urgent_pointer);
        }
    }

    /// Copy the payload in behind the header; the buffer must have been
    /// sized for exactly this payload.
    pub fn set_payload(&mut self, payload: &[u8])
        requires
            old(self).wf(),
            old(self)@.len() == TCP_HEADER_SIZE + payload@.len(),
        ensures
            final(self)@.len() == old(self)@.len(),
            forall|i: int| 0 <= i < TCP_HEADER_SIZE ==> final(self)@[i] == old(self)@[i],
            spec_payload(final(self)@) == payload@,
    {
        let mut i: usize = 0;
        while i < payload.len()
            invariant
                self@.len() == old(self)@.len(),
                old(self)@.len() == TCP_HEADER_SIZE + payload@.len(),
                old(self)@.len() <= TCP_MAX_SEGMENT_SIZE,
                i <= payload@.len(),
                forall|j: int| 0 <= j < TCP_HEADER_SIZE ==> self@[j] == old(self)@[j],
                forall|j: int| 0 <= j < i ==> self@[TCP_HEADER_SIZE + j] == payload@[j],
            decreases payload@.len() - i,
        {
            let b = payload[i];
            self.buffer.set(TCP_HEADER_SIZE + i, b);
            i = i + 1;
        }
        proof {
            assert_seqs_equal!(spec_payload(self@), payload@);
        }
    }

    /// Compute the checksum over the segment and the pseudo-header for the
    /// given addresses and store it in the checksum field.
    pub fn fill_checksum(&mut self, local_address: u32, remote_address: u32)
        requires
            old(self).wf(),
        ensures
            final(self).wf(),
            final(self)@.len() == old(self)@.len(),
            forall|i: int| 0 <= i < final(self)@.len() && i != 16 && i != 17
                ==> final(self)@[i] == old(self)@[i],
            spec_checksum_valid(final(self)@, local_address, remote_address),
    {
        let c = pnet_tcp_checksum(&self.buffer, 8, local_address, remote_address);
        self.set_checksum(c);
        proof {
            assert_seqs_equal!(
                self@.update(16, 0u8).update(17, 0u8),
                old(self)@.update(16, 0u8).update(17, 0u8)
            );
        }
    }

    /// Recompute the checksum over the received segment with the same
    /// pseudo-header and compare it with the stored field.
    pub fn verify_packet(&self, local_address: u32, remote_address: u32) -> (r: bool)
        requires
            self.wf(),
        ensures
            r == spec_checksum_valid(self@, local_address, remote_address),
    {
        let c = pnet_tcp_checksum(&self.buffer, 8, local_address, remote_address);
        self.checksum() == c
    }
}

/// Splitting a 16-bit value into its big-endian bytes and recomposing them
/// gives the value back.
pub proof fn lemma_be16_of_bytes(v: u16)
    by (bit_vector)
    ensures
        be16((v >> 8) as u8, v as u8) == v,
{
}

/// Splitting a 32-bit value into its big-endian bytes and recomposing them
/// gives the value back.
pub proof fn lemma_be32_of_bytes(v: u32)
    by (bit_vector)
    ensures
        be32((v >> 24) as u8, (v >> 16) as u8, (v >> 8) as u8, v as u8) == v,
{
}

} // verus!
