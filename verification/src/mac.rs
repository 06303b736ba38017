//! Parsing of colon-separated hexadecimal MAC address strings.
//!
//! A well-formed address is six groups of one or two hexadecimal digits
//! (either case), separated by single colons, with nothing before, between
//! or after beyond that: `"AA:BB:CC:DD:EE:FF"`, `"0:1:2:3:4:5"`. Anything
//! else — wrong length, non-hex characters, a wrong separator — is rejected
//! at this boundary with [`WakeError::InvalidAddress`], before the packet
//! builder is ever reached.

use crate::error::WakeError;
use vstd::prelude::*;

verus! {

/// `b` is the ASCII code of a hexadecimal digit.
pub open spec fn is_hex_digit(b: u8) -> bool {
    (0x30u8 <= b <= 0x39u8) || (0x41u8 <= b <= 0x46u8) || (0x61u8 <= b <= 0x66u8)
}

/// The numeric value of the hexadecimal digit `b`.
pub open spec fn hex_value(b: u8) -> u8
    recommends
        is_hex_digit(b),
{
    if 0x30u8 <= b <= 0x39u8 {
        (b - 0x30u8) as u8
    } else if 0x41u8 <= b <= 0x46u8 {
        (b - 0x41u8 + 10) as u8
    } else {
        (b - 0x61u8 + 10) as u8
    }
}

/// The length of the hex-digit group that starts at position `p` of `s`:
/// 2 or 1 for a maximal run of that many digits, 0 if no digit starts there.
/// Groups are at most two digits, so a longer digit run is a group followed
/// by a stray digit, which the caller rejects.
pub open spec fn group_len_at(s: Seq<u8>, p: int) -> int {
    if 0 <= p < s.len() && is_hex_digit(s[p]) {
        if p + 1 < s.len() && is_hex_digit(s[p + 1]) {
            2
        } else {
            1
        }
    } else {
        0
    }
}

/// The byte value of the one- or two-digit group that starts at position
/// `p` of `s`.
pub open spec fn group_value_at(s: Seq<u8>, p: int) -> u8
    recommends
        group_len_at(s, p) > 0,
{
    if group_len_at(s, p) == 2 {
        (16 * hex_value(s[p]) + hex_value(s[p + 1])) as u8
    } else {
        hex_value(s[p])
    }
}

/// From position `p` on, `s` consists of exactly `n` colon-separated hex
/// groups and then ends.
pub open spec fn valid_mac_tail(s: Seq<u8>, p: int, n: nat) -> bool
    decreases n,
{
    if n == 0 {
        p == s.len()
    } else {
        let gl = group_len_at(s, p);
        gl != 0 && (if n > 1 {
            p + gl < s.len() && s[p + gl] == 0x3Au8 && valid_mac_tail(s, p + gl + 1, (n - 1) as nat)
        } else {
            valid_mac_tail(s, p + gl, 0)
        })
    }
}

/// The byte values of the `n` colon-separated groups that start at
/// position `p` of `s`.
pub open spec fn mac_tail_value(s: Seq<u8>, p: int, n: nat) -> Seq<u8>
    decreases n,
{
    if n == 0 {
        Seq::empty()
    } else {
        let gl = group_len_at(s, p);
        let next = if n > 1 {
            p + gl + 1
        } else {
            p + gl
        };
        seq![group_value_at(s, p)] + mac_tail_value(s, next, (n - 1) as nat)
    }
}

/// `s` is a well-formed MAC address string: six colon-separated groups of
/// one or two hexadecimal digits, and nothing else.
pub open spec fn is_valid_mac(s: Seq<u8>) -> bool {
    valid_mac_tail(s, 0, 6)
}

/// The six bytes that a well-formed MAC address string denotes.
pub open spec fn mac_value(s: Seq<u8>) -> Seq<u8>
    recommends
        is_valid_mac(s),
{
    mac_tail_value(s, 0, 6)
}

/// The numeric value of one hexadecimal digit, or `None` if `b` is not a
/// hex digit.
pub fn hex_digit_value(b: u8) -> (r: Option<u8>)
    ensures
        r is Some <==> is_hex_digit(b),
        r matches Some(v) ==> v == hex_value(b) && v <= 15,
{
    if 0x30u8 <= b && b <= 0x39u8 {
        Some(b - 0x30u8)
    } else if 0x41u8 <= b && b <= 0x46u8 {
        Some(b - 0x41u8 + 10)
    } else if 0x61u8 <= b && b <= 0x66u8 {
        Some(b - 0x61u8 + 10)
    } else {
        None
    }
}

/// Parses a colon-separated hexadecimal MAC address string into its six raw
/// bytes. Returns `Ok` exactly on well-formed input, and
/// [`WakeError::InvalidAddress`] on anything malformed: wrong number of
/// groups, non-hex characters, a wrong separator, or trailing junk.
pub fn parse_mac(s: &[u8]) -> (r: Result<[u8; 6], WakeError>)
    ensures
        r is Ok <==> is_valid_mac(s@),
        r matches Ok(mac) ==> mac@ == mac_value(s@),
        r matches Err(e) ==> e == WakeError::InvalidAddress,
{
    let mut mac: [u8; 6] = [0; 6];
    let mut pos: usize = 0;
    let mut k: usize = 0;
    while k < 6
        invariant
            k <= 6,
            pos <= s@.len(),
            is_valid_mac(s@) <==> valid_mac_tail(s@, pos as int, (6 - k) as nat),
            is_valid_mac(s@) ==> mac_value(s@) == mac@.subrange(0, k as int) + mac_tail_value(
                s@,
                pos as int,
                (6 - k) as nat,
            ),
            k == 6 ==> pos == s@.len(),
        decreases 6 - k,
    {
        let ghost p = pos as int;
        let ghost n = (6 - k) as nat;
        let ghost mac_before = mac@;
        if pos >= s.len() {
            proof {
                assert(!valid_mac_tail(s@, p, n));
            }
            return Err(WakeError::InvalidAddress);
        }
        let v0 = match hex_digit_value(s[pos]) {
            Some(v) => v,
            None => {
                proof {
                    assert(group_len_at(s@, p) == 0);
                    assert(!valid_mac_tail(s@, p, n));
                }
                return Err(WakeError::InvalidAddress);
            },
        };
        let gl: usize;
        let gv: u8;
        if pos + 1 < s.len() {
            match hex_digit_value(s[pos + 1]) {
                Some(v1) => {
                    gl = 2;
                    gv = 16 * v0 + v1;
                },
                None => {
                    gl = 1;
                    gv = v0;
                },
            }
        } else {
            gl = 1;
            gv = v0;
        }
        proof {
            assert(gl == group_len_at(s@, p));
            assert(gv == group_value_at(s@, p));
        }
        mac[k] = gv;
        if k < 5 {
            if pos + gl < s.len() && s[pos + gl] == 0x3Au8 {
                pos = pos + gl + 1;
            } else {
                proof {
                    assert(!valid_mac_tail(s@, p, n));
                }
                return Err(WakeError::InvalidAddress);
            }
        } else {
            if pos + gl == s.len() {
                pos = pos + gl;
            } else {
                proof {
                    assert(!valid_mac_tail(s@, p + gl, 0nat));
                    assert(!valid_mac_tail(s@, p, 1nat));
                }
                return Err(WakeError::InvalidAddress);
            }
        }
        k = k + 1;
        proof {
            assert(valid_mac_tail(s@, p, n) <==> valid_mac_tail(s@, pos as int, (6 - k) as nat));
            if is_valid_mac(s@) {
                assert(mac_tail_value(s@, p, n) == seq![gv] + mac_tail_value(
                    s@,
                    pos as int,
                    (6 - k) as nat,
                ));
                assert(mac@.subrange(0, k as int) =~= mac_before.subrange(0, k - 1) + seq![gv]);
                assert(mac_before.subrange(0, k - 1) + seq![gv] + mac_tail_value(
                    s@,
                    pos as int,
                    (6 - k) as nat,
                ) =~= mac_before.subrange(0, k - 1) + mac_tail_value(s@, p, n));
            }
        }
    }
    proof {
        assert(valid_mac_tail(s@, pos as int, 0nat));
        assert(mac@.subrange(0, 6) =~= mac@);
        assert(mac@ + mac_tail_value(s@, pos as int, 0nat) =~= mac@);
    }
    Ok(mac)
}

} // verus!
