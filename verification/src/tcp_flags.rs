use vstd::prelude::*;

verus! {

/// Urgent Pointer field significant.
pub const URG: u8 = 0x20;

/// Acknowledgment field significant.
pub const ACK: u8 = 0x10;

/// Push Function.
pub const PSH: u8 = 0x08;

/// Reset the connection.
pub const RST: u8 = 0x04;

/// Synchronize sequence numbers.
pub const SYN: u8 = 0x02;

/// No more data from sender.
pub const FIN: u8 = 0x01;

} // verus!
