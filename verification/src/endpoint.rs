//! The endpoints of the UDP broadcast: where the datagram goes and where
//! the sending socket binds. The library only names them; opening and using
//! the socket is the embedding program's work.

use vstd::prelude::*;

verus! {

/// An IPv4 endpoint: four address octets and a UDP port.
#[derive(Clone, Copy, Debug)]
pub struct Endpoint {
    pub addr: [u8; 4],
    pub port: u16,
}

impl Endpoint {
    /// The conventional Wake-on-LAN destination: the limited broadcast
    /// address `255.255.255.255` on UDP port 9 (discard).
    pub fn default_destination() -> (e: Endpoint)
        ensures
            e.addr@ == seq![255u8, 255u8, 255u8, 255u8],
            e.port == 9,
    {
        let e = Endpoint { addr: [255; 4], port: 9 };
        proof {
            assert(e.addr@ =~= seq![255u8, 255u8, 255u8, 255u8]);
        }
        e
    }

    /// The default source: the unspecified address `0.0.0.0` with port 0,
    /// letting the system choose the interface and an ephemeral port.
    pub fn default_source() -> (e: Endpoint)
        ensures
            e.addr@ == seq![0u8, 0u8, 0u8, 0u8],
            e.port == 0,
    {
        let e = Endpoint { addr: [0; 4], port: 0 };
        proof {
            assert(e.addr@ =~= seq![0u8, 0u8, 0u8, 0u8]);
        }
        e
    }
}

} // verus!
