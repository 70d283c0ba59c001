pub mod packet;
pub mod socket;
pub mod tcp;
pub mod tcp_flags;
