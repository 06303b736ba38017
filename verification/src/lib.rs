//! Construction and verification of Wake-on-LAN magic packets.
//!
//! The core of the library is [`packet::MagicPacket`]: a 102-byte payload
//! built from a 6-byte hardware address (six `0xFF` bytes followed by the
//! address repeated sixteen times). Around it stand the boundary concerns
//! that feed the core: parsing colon-separated hexadecimal MAC strings,
//! reading an ARP table dump to resolve a host name to its address, and the
//! error kinds a caller sees. Socket I/O itself is left to the embedding
//! program; the library hands it the exact bytes and endpoints to use.

pub mod arp;
pub mod endpoint;
pub mod error;
pub mod mac;
pub mod packet;
pub mod resolve;
