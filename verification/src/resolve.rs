//! Resolving a host-name pattern against an ARP dump and building the
//! magic packet for the host it names.
//!
//! Whether an ambiguous table is an error is the caller's decision: the
//! loose reading — first substring match wins, no uniqueness check — is one
//! of three explicit [`MatchPolicy`] choices.

use crate::arp::{
    arp_table_ok, copy_bytes, data_lines, host_of_line, load_possible_hosts, mac_of_line, ArpEntry,
};
use crate::error::{ResolutionFailure, WakeError};
use crate::packet::{magic_payload, MagicPacket};
use vstd::prelude::*;

verus! {

/// `needle` occurs in `hay` starting at position `i`.
pub open spec fn contains_at(hay: Seq<u8>, needle: Seq<u8>, i: int) -> bool {
    0 <= i && i + needle.len() <= hay.len() && hay.subrange(i, i + needle.len()) == needle
}

/// `needle` occurs somewhere in `hay`. The empty needle occurs in
/// everything.
pub open spec fn contains_seq(hay: Seq<u8>, needle: Seq<u8>) -> bool {
    exists|i: int| contains_at(hay, needle, i)
}

/// How a host-name pattern is matched against the table's entries.
#[derive(Clone, Copy, Debug, PartialEq, Eq, Structural)]
pub enum MatchPolicy {
    /// The first entry whose name contains the pattern is used, however
    /// many match.
    FirstSubstring,
    /// Exactly one entry's name may contain the pattern; more than one is
    /// an ambiguity error.
    UniqueSubstring,
    /// An entry's name must equal the pattern outright; the first equal
    /// entry is used.
    Exact,
}

/// The pattern matches a host name under the given policy.
pub open spec fn name_matches(host: Seq<u8>, pattern: Seq<u8>, policy: MatchPolicy) -> bool {
    match policy {
        MatchPolicy::Exact => host == pattern,
        _ => contains_seq(host, pattern),
    }
}

/// Data line `i` of the dump names a host that the pattern matches.
pub open spec fn matching_index(
    output: Seq<u8>,
    pattern: Seq<u8>,
    policy: MatchPolicy,
    i: int,
) -> bool {
    0 <= i < data_lines(output).len() && name_matches(
        host_of_line(data_lines(output)[i]),
        pattern,
        policy,
    )
}

/// Some data line matches.
pub open spec fn has_match(output: Seq<u8>, pattern: Seq<u8>, policy: MatchPolicy) -> bool {
    exists|i: int| matching_index(output, pattern, policy, i)
}

/// Data line `i` matches and no other one does.
pub open spec fn sole_match(output: Seq<u8>, pattern: Seq<u8>, policy: MatchPolicy, i: int) -> bool {
    matching_index(output, pattern, policy, i) && (forall|j: int|
        matching_index(output, pattern, policy, j) ==> j == i)
}

/// Exactly one data line matches.
pub open spec fn has_unique_match(output: Seq<u8>, pattern: Seq<u8>, policy: MatchPolicy) -> bool {
    exists|i: int| sole_match(output, pattern, policy, i)
}

/// Resolution of the pattern against the dump succeeds: some line matches,
/// and, under [`MatchPolicy::UniqueSubstring`], no second one does.
pub open spec fn resolution_succeeds(output: Seq<u8>, pattern: Seq<u8>, policy: MatchPolicy) -> bool {
    if policy is UniqueSubstring {
        has_unique_match(output, pattern, policy)
    } else {
        has_match(output, pattern, policy)
    }
}

/// Byte-for-byte equality of two slices.
pub fn bytes_equal(a: &[u8], b: &[u8]) -> (r: bool)
    ensures
        r <==> a@ == b@,
{
    if a.len() != b.len() {
        return false;
    }
    let mut i: usize = 0;
    while i < a.len()
        invariant
            i <= a@.len(),
            a@.len() == b@.len(),
            forall|t: int| 0 <= t < i ==> a@[t] == b@[t],
        decreases a@.len() - i,
    {
        if a[i] != b[i] {
            return false;
        }
        i = i + 1;
    }
    proof {
        assert(a@ =~= b@);
    }
    true
}

/// Whether `needle` occurs as a contiguous run of bytes inside `hay`.
pub fn contains_bytes(hay: &[u8], needle: &[u8]) -> (found: bool)
    ensures
        found <==> contains_seq(hay@, needle@),
{
    if needle.len() > hay.len() {
        proof {
            assert forall|i: int| !contains_at(hay@, needle@, i) by {}
        }
        return false;
    }
    let mut i: usize = 0;
    while i <= hay.len() - needle.len()
        invariant
            needle@.len() <= hay@.len(),
            i <= hay@.len() - needle@.len() + 1,
            forall|t: int| 0 <= t < i ==> !contains_at(hay@, needle@, t),
        decreases hay@.len() - needle@.len() + 1 - i,
    {
        let mut j: usize = 0;
        while j < needle.len() && hay[i + j] == needle[j]
            invariant
                j <= needle@.len(),
                i + needle@.len() <= hay@.len(),
                hay@.len() <= usize::MAX,
                forall|t: int| 0 <= t < j ==> hay@[i + t] == needle@[t],
            decreases needle@.len() - j,
        {
            j = j + 1;
        }
        if j == needle.len() {
            proof {
                assert(hay@.subrange(i as int, i + needle@.len()) =~= needle@);
                assert(contains_at(hay@, needle@, i as int));
            }
            return true;
        }
        proof {
            assert(hay@.subrange(i as int, i + needle@.len())[j as int] == hay@[i + j]);
            assert(!contains_at(hay@, needle@, i as int));
        }
        i = i + 1;
    }
    proof {
        assert forall|t: int| !contains_at(hay@, needle@, t) by {
            if 0 <= t < i {
            } else {
                assert(!(0 <= t && t + needle@.len() <= hay@.len()) || t >= i);
            }
        }
    }
    false
}

/// Whether the pattern matches a host name under the given policy.
pub fn host_name_matches(host: &Vec<u8>, pattern: &[u8], policy: MatchPolicy) -> (r: bool)
    ensures
        r == name_matches(host@, pattern@, policy),
{
    match policy {
        MatchPolicy::Exact => bytes_equal(host.as_slice(), pattern),
        _ => contains_bytes(host.as_slice(), pattern),
    }
}

/// A fresh list of all host names in the table, for a descriptive
/// resolution error.
fn clone_hosts(entries: &Vec<ArpEntry>) -> (hosts: Vec<Vec<u8>>)
    ensures
        hosts@.len() == entries@.len(),
        forall|t: int| 0 <= t < hosts@.len() ==> hosts@[t]@ == entries@[t].host@,
{
    let mut hosts: Vec<Vec<u8>> = Vec::new();
    let mut i: usize = 0;
    while i < entries.len()
        invariant
            i <= entries@.len(),
            hosts@.len() == i,
            forall|t: int| 0 <= t < i ==> hosts@[t]@ == entries@[t].host@,
        decreases entries@.len() - i,
    {
        hosts.push(copy_bytes(entries[i].host.as_slice()));
        i = i + 1;
    }
    hosts
}

/// Reads an ARP dump, resolves the pattern to a host under the given
/// policy, and builds the magic packet for that host's address (but does
/// not send it — transmitting the returned bytes is the caller's side of
/// the work).
///
/// A malformed dump is [`WakeError::InvalidAddress`]. A pattern that no
/// entry matches — or, under [`MatchPolicy::UniqueSubstring`], that more
/// than one matches — is [`WakeError::ResolutionError`], carrying every
/// host name the table offered.
pub fn wake_inner(output: &[u8], pattern: &[u8], policy: MatchPolicy) -> (r: Result<
    MagicPacket,
    WakeError,
>)
    ensures
        r is Ok <==> arp_table_ok(output@) && resolution_succeeds(output@, pattern@, policy),
        !arp_table_ok(output@) ==> (r matches Err(e) && e == WakeError::InvalidAddress),
        r matches Ok(packet) ==> (exists|i: int|
            #[trigger] matching_index(output@, pattern@, policy, i) && (forall|j: int|
                0 <= j < i ==> !matching_index(output@, pattern@, policy, j)) && packet@
                == magic_payload(mac_of_line(data_lines(output@)[i]))),
        arp_table_ok(output@) && !resolution_succeeds(output@, pattern@, policy) ==> (r matches Err(
            e,
        ) && e matches WakeError::ResolutionError { failure, candidates } && failure == (
        if has_match(output@, pattern@, policy) {
            ResolutionFailure::Ambiguous
        } else {
            ResolutionFailure::NotFound
        }) && candidates@.len() == data_lines(output@).len() && (forall|k: int|
            0 <= k < candidates@.len() ==> candidates@[k]@ == host_of_line(
                data_lines(output@)[k],
            ))),
{
    let entries = match load_possible_hosts(output) {
        Ok(v) => v,
        Err(e) => {
            return Err(e);
        },
    };
    let ghost dl = data_lines(output@);
    proof {
        assert forall|j: int| 0 <= j < entries@.len() implies #[trigger] entries@[j].host@
            == host_of_line(dl[j]) && entries@[j].mac@ == mac_of_line(dl[j]) by {
            assert(entries@[j].host@ == host_of_line(data_lines(output@)[j]));
        }
    }
    let mut first: Option<usize> = None;
    let mut second_found: bool = false;
    let mut idx: usize = 0;
    while idx < entries.len()
        invariant
            idx <= entries@.len(),
            entries@.len() == dl.len(),
            dl == data_lines(output@),
            forall|j: int|
                0 <= j < entries@.len() ==> #[trigger] entries@[j].host@ == host_of_line(dl[j])
                    && entries@[j].mac@ == mac_of_line(dl[j]),
            first is None ==> forall|j: int|
                0 <= j < idx ==> !matching_index(output@, pattern@, policy, j),
            first matches Some(fi) ==> 0 <= fi < idx && matching_index(
                output@,
                pattern@,
                policy,
                fi as int,
            ) && (forall|j: int| 0 <= j < fi ==> !matching_index(output@, pattern@, policy, j)),
            second_found ==> (first matches Some(fi) && exists|j: int|
                fi < j < idx && matching_index(output@, pattern@, policy, j)),
            !second_found ==> (first matches Some(fi) ==> forall|j: int|
                fi < j < idx ==> !matching_index(output@, pattern@, policy, j)),
        decreases entries@.len() - idx,
    {
        let matches_here = host_name_matches(&entries[idx].host, pattern, policy);
        proof {
            assert(matching_index(output@, pattern@, policy, idx as int) == name_matches(
                entries@[idx as int].host@,
                pattern@,
                policy,
            ));
        }
        if matches_here {
            if first.is_none() {
                first = Some(idx);
            } else {
                second_found = true;
            }
        }
        idx = idx + 1;
    }
    match first {
        Some(fi) => {
            if policy == MatchPolicy::UniqueSubstring && second_found {
                proof {
                    let j0 = choose|j: int|
                        fi < j < idx && matching_index(output@, pattern@, policy, j);
                    assert(matching_index(output@, pattern@, policy, j0));
                    assert(matching_index(output@, pattern@, policy, fi as int));
                    if has_unique_match(output@, pattern@, policy) {
                        let i0 = choose|i: int| sole_match(output@, pattern@, policy, i);
                        assert(fi as int == i0);
                        assert(j0 == i0);
                        assert(false);
                    }
                }
                let candidates = clone_hosts(&entries);
                return Err(
                    WakeError::ResolutionError {
                        failure: ResolutionFailure::Ambiguous,
                        candidates,
                    },
                );
            }
            proof {
                if policy is UniqueSubstring {
                    assert forall|j: int|
                        matching_index(output@, pattern@, policy, j) implies j == fi as int by {
                        if j < fi {
                            assert(!matching_index(output@, pattern@, policy, j));
                        } else if fi < j {
                            assert(!matching_index(output@, pattern@, policy, j));
                        }
                    }
                    assert(sole_match(output@, pattern@, policy, fi as int));
                }
            }
            let packet = MagicPacket::new(&entries[fi].mac);
            proof {
                assert(matching_index(output@, pattern@, policy, fi as int));
                assert(has_match(output@, pattern@, policy));
                assert(entries@[fi as int].host@ == host_of_line(dl[fi as int]));
                assert(packet@ == magic_payload(mac_of_line(data_lines(output@)[fi as int])));
            }
            Ok(packet)
        },
        None => {
            proof {
                assert forall|i: int| !matching_index(output@, pattern@, policy, i) by {}
                assert forall|i: int| !sole_match(output@, pattern@, policy, i) by {
                    assert(!matching_index(output@, pattern@, policy, i));
                }
                assert(!has_match(output@, pattern@, policy));
                assert(!has_unique_match(output@, pattern@, policy));
            }
            let candidates = clone_hosts(&entries);
            Err(WakeError::ResolutionError { failure: ResolutionFailure::NotFound, candidates })
        },
    }
}

} // verus!
