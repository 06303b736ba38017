//! The Wake-on-LAN magic packet: a 102-byte payload consisting of six
//! `0xFF` header bytes followed by the target's 6-byte hardware address
//! repeated sixteen times.

use vstd::prelude::*;
use vstd::arithmetic::div_mod::{lemma_mod_multiples_vanish, lemma_small_mod};

verus! {

/// The bytes of the magic packet for a 6-byte address `mac`: positions
/// `0..6` hold `0xFF`, and position `6 + k` holds `mac[k % 6]` for
/// `k` in `0..96`, i.e. sixteen back-to-back copies of `mac`.
pub open spec fn magic_payload(mac: Seq<u8>) -> Seq<u8> {
    Seq::new(102, |i: int| if i < 6 { 0xFFu8 } else { mac[(i - 6) % 6] })
}

/// A Wake-on-LAN magic packet.
pub struct MagicPacket {
    magic_bytes: [u8; 102],
}

impl View for MagicPacket {
    type V = Seq<u8>;

    closed spec fn view(&self) -> Seq<u8> {
        self.magic_bytes@
    }
}

impl MagicPacket {
    /// Creates a new `MagicPacket` intended for `mac_address` (but doesn't
    /// send it yet). The payload is a pure function of the address: six
    /// `0xFF` bytes, then the address repeated sixteen times.
    pub fn new(mac_address: &[u8; 6]) -> (packet: MagicPacket)
        ensures
            packet@ == magic_payload(mac_address@),
    {
        let mut magic_bytes: [u8; 102] = [0; 102];
        for i in 0..6usize
            invariant
                forall|j: int| 0 <= j < i ==> magic_bytes@[j] == 0xFFu8,
        {
            magic_bytes[i] = 0xFF;
        }
        for i in 0..96usize
            invariant
                forall|j: int| 0 <= j < 6 ==> magic_bytes@[j] == 0xFFu8,
                forall|j: int| 0 <= j < i ==> #[trigger] magic_bytes@[6 + j] == mac_address@[j % 6],
        {
            magic_bytes[6 + i] = mac_address[i % 6];
        }
        proof {
            assert forall|i: int| 0 <= i < 102 implies magic_bytes@[i] == magic_payload(
                mac_address@,
            )[i] by {
                if i >= 6 {
                    assert(magic_bytes@[6 + (i - 6)] == mac_address@[(i - 6) % 6]);
                }
            }
            assert(magic_bytes@ =~= magic_payload(mac_address@));
        }
        MagicPacket { magic_bytes }
    }

    /// Returns the magic packet's payload (6 repetitions of `0xFF` and 16
    /// repetitions of the target device's MAC address). Send these bytes
    /// yourself over the network if you want to do something more advanced
    /// (like reuse a single UDP socket when sending a large number of magic
    /// packets).
    pub fn magic_bytes(&self) -> (bytes: &[u8; 102])
        ensures
            bytes@ == self@,
    {
        &self.magic_bytes
    }
}

/// The payload of a magic packet has length exactly 102, whatever the
/// address.
pub proof fn lemma_payload_len(mac: Seq<u8>)
    ensures
        magic_payload(mac).len() == 102,
{
}

/// The first six bytes of a magic packet's payload are all `0xFF`.
pub proof fn lemma_payload_header(mac: Seq<u8>)
    ensures
        forall|i: int| 0 <= i < 6 ==> magic_payload(mac)[i] == 0xFFu8,
{
}

/// Each of the sixteen six-byte blocks that follow the header is
/// byte-for-byte the address itself: for `i` in `0..16`, bytes
/// `6 + 6*i .. 12 + 6*i` of the payload equal `mac`.
pub proof fn lemma_payload_repetitions(mac: Seq<u8>, i: int)
    requires
        mac.len() == 6,
        0 <= i < 16,
    ensures
        magic_payload(mac).subrange(6 + 6 * i, 12 + 6 * i) == mac,
{
    let p = magic_payload(mac);
    let rep = p.subrange(6 + 6 * i, 12 + 6 * i);
    assert forall|j: int| 0 <= j < 6 implies rep[j] == mac[j] by {
        assert(rep[j] == p[6 + 6 * i + j]);
        assert((6 * i + j) % 6 == j) by {
            lemma_mod_multiples_vanish(i, j, 6);
            lemma_small_mod(j as nat, 6nat);
        }
    }
    assert(rep =~= mac);
}

} // verus!
