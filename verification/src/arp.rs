//! Reading an ARP table dump into host entries.
//!
//! The input is the raw output of an `arp` invocation: a header line, then
//! one line per known host, whose whitespace-separated fields hold the host
//! name first and the hardware address third. This module splits that text
//! and parses each data line into an [`ArpEntry`]; a line whose address
//! field is malformed (or that has fewer than three fields) makes the whole
//! table invalid, surfaced as [`WakeError::InvalidAddress`].

use crate::error::WakeError;
use crate::mac::{is_valid_mac, mac_value, parse_mac};
use vstd::prelude::*;

verus! {

/// `b` is an ASCII whitespace byte: space, tab, line feed, vertical tab,
/// form feed or carriage return.
pub open spec fn is_space(b: u8) -> bool {
    b == 32 || (9 <= b <= 13)
}

/// The views of a sequence of byte vectors.
pub open spec fn views_of(vs: Seq<Vec<u8>>) -> Seq<Seq<u8>> {
    vs.map_values(|v: Vec<u8>| v@)
}

/// The length of the maximal run of non-whitespace bytes that starts at
/// position `p` of `s`.
pub open spec fn field_len_from(s: Seq<u8>, p: int) -> nat
    decreases s.len() - p,
{
    if 0 <= p < s.len() && !is_space(s[p]) {
        1 + field_len_from(s, p + 1)
    } else {
        0
    }
}

/// The whitespace-separated fields of `s`, from position `p` on.
pub open spec fn fields_from(s: Seq<u8>, p: int) -> Seq<Seq<u8>>
    decreases s.len() - p,
{
    if !(0 <= p < s.len()) {
        Seq::empty()
    } else if is_space(s[p]) {
        fields_from(s, p + 1)
    } else {
        let fl = field_len_from(s, p);
        let e = if p + fl <= s.len() {
            p + fl
        } else {
            s.len() as int
        };
        seq![s.subrange(p, e)] + fields_from(s, e)
    }
}

/// The whitespace-separated fields of `s`.
pub open spec fn fields_of(s: Seq<u8>) -> Seq<Seq<u8>> {
    fields_from(s, 0)
}

/// The length of the line that starts at position `p` of `s`: the number of
/// bytes before the next line feed, or before the end of `s`.
pub open spec fn line_len_from(s: Seq<u8>, p: int) -> nat
    decreases s.len() - p,
{
    if 0 <= p < s.len() && s[p] != 10u8 {
        1 + line_len_from(s, p + 1)
    } else {
        0
    }
}

/// The lines of `s` from position `p` on, split on line feeds. A final line
/// feed ends the last line rather than opening an empty one, as a line-based
/// reader would have it.
pub open spec fn lines_from(s: Seq<u8>, p: int) -> Seq<Seq<u8>>
    decreases s.len() - p,
{
    if !(0 <= p < s.len()) {
        Seq::empty()
    } else {
        let ll = line_len_from(s, p);
        if p + ll >= s.len() {
            seq![s.subrange(p, s.len() as int)]
        } else {
            seq![s.subrange(p, p + ll)] + lines_from(s, p + ll + 1)
        }
    }
}

/// The lines of an ARP dump that describe hosts: everything after the
/// header line.
pub open spec fn data_lines(output: Seq<u8>) -> Seq<Seq<u8>> {
    let ls = lines_from(output, 0);
    if ls.len() == 0 {
        Seq::empty()
    } else {
        ls.skip(1)
    }
}

/// A data line is well-formed when it has at least three fields and its
/// third field is a well-formed MAC address.
pub open spec fn line_ok(line: Seq<u8>) -> bool {
    fields_of(line).len() >= 3 && is_valid_mac(fields_of(line)[2])
}

/// Every data line of the dump is well-formed.
pub open spec fn arp_table_ok(output: Seq<u8>) -> bool {
    forall|i: int| 0 <= i < data_lines(output).len() ==> line_ok(#[trigger] data_lines(output)[i])
}

/// The host name a well-formed data line reports: its first field.
pub open spec fn host_of_line(line: Seq<u8>) -> Seq<u8> {
    fields_of(line)[0]
}

/// The hardware address a well-formed data line reports: the six bytes of
/// its third field.
pub open spec fn mac_of_line(line: Seq<u8>) -> Seq<u8> {
    mac_value(fields_of(line)[2])
}

/// One host known to the ARP table: its name and its hardware address.
pub struct ArpEntry {
    pub host: Vec<u8>,
    pub mac: [u8; 6],
}

/// True when `b` is an ASCII whitespace byte.
pub fn is_space_byte(b: u8) -> (r: bool)
    ensures
        r == is_space(b),
{
    b == 32 || (9 <= b && b <= 13)
}

/// A fresh copy of the given bytes.
pub fn copy_bytes(v: &[u8]) -> (out: Vec<u8>)
    ensures
        out@ == v@,
{
    let mut out: Vec<u8> = Vec::new();
    let mut i: usize = 0;
    while i < v.len()
        invariant
            i <= v@.len(),
            out@ == v@.subrange(0, i as int),
        decreases v@.len() - i,
    {
        out.push(v[i]);
        proof {
            assert(out@ =~= v@.subrange(0, i + 1));
        }
        i = i + 1;
    }
    proof {
        assert(v@.subrange(0, v@.len() as int) =~= v@);
    }
    out
}

/// Splits a line into its whitespace-separated fields, in order.
pub fn split_fields(line: &[u8]) -> (fields: Vec<Vec<u8>>)
    ensures
        fields@.len() == fields_of(line@).len(),
        forall|i: int| 0 <= i < fields@.len() ==> fields@[i]@ == fields_of(line@)[i],
{
    let mut fields: Vec<Vec<u8>> = Vec::new();
    let mut p: usize = 0;
    while p < line.len()
        invariant
            p <= line@.len(),
            fields_of(line@) == views_of(fields@) + fields_from(line@, p as int),
        decreases line@.len() - p,
    {
        if is_space_byte(line[p]) {
            proof {
                assert(fields_from(line@, p as int) == fields_from(line@, p as int + 1));
            }
            p = p + 1;
        } else {
            let ghost start = p as int;
            let mut field: Vec<u8> = Vec::new();
            while p < line.len() && !is_space_byte(line[p])
                invariant
                    start <= p <= line@.len(),
                    field@ == line@.subrange(start, p as int),
                    field_len_from(line@, start) == (p - start) + field_len_from(
                        line@,
                        p as int,
                    ),
                decreases line@.len() - p,
            {
                field.push(line[p]);
                proof {
                    assert(field@ =~= line@.subrange(start, p + 1));
                    assert(field_len_from(line@, p as int) == 1 + field_len_from(
                        line@,
                        p as int + 1,
                    ));
                }
                p = p + 1;
            }
            proof {
                assert(field_len_from(line@, p as int) == 0);
                let fl = field_len_from(line@, start);
                assert(fields_from(line@, start) == seq![line@.subrange(start, start + fl)]
                    + fields_from(line@, start + fl));
                assert(views_of(fields@.push(field)) =~= views_of(fields@) + seq![field@]);
                assert(views_of(fields@) + (seq![field@] + fields_from(line@, p as int)) =~= (
                views_of(fields@) + seq![field@]) + fields_from(line@, p as int));
            }
            fields.push(field);
        }
    }
    proof {
        assert(fields_from(line@, p as int) == Seq::<Seq<u8>>::empty());
        assert(views_of(fields@) + Seq::<Seq<u8>>::empty() =~= views_of(fields@));
    }
    fields
}

/// Splits a byte text into its lines, without the line feeds.
pub fn split_lines(text: &[u8]) -> (lines: Vec<Vec<u8>>)
    ensures
        lines@.len() == lines_from(text@, 0).len(),
        forall|i: int| 0 <= i < lines@.len() ==> lines@[i]@ == lines_from(text@, 0)[i],
{
    let mut lines: Vec<Vec<u8>> = Vec::new();
    let mut p: usize = 0;
    while p < text.len()
        invariant
            p <= text@.len(),
            lines_from(text@, 0) == views_of(lines@) + lines_from(text@, p as int),
        decreases text@.len() - p,
    {
        let ghost start = p as int;
        let mut line: Vec<u8> = Vec::new();
        while p < text.len() && text[p] != 10
            invariant
                start <= p <= text@.len(),
                line@ == text@.subrange(start, p as int),
                line_len_from(text@, start) == (p - start) + line_len_from(text@, p as int),
            decreases text@.len() - p,
        {
            line.push(text[p]);
            proof {
                assert(line@ =~= text@.subrange(start, p + 1));
                assert(line_len_from(text@, p as int) == 1 + line_len_from(text@, p as int + 1));
            }
            p = p + 1;
        }
        proof {
            assert(line_len_from(text@, p as int) == 0);
            let ll = line_len_from(text@, start);
            if start + ll >= text@.len() {
                assert(lines_from(text@, start) == seq![text@.subrange(start, text@.len() as int)]);
                assert(line@ == text@.subrange(start, text@.len() as int));
            } else {
                assert(lines_from(text@, start) == seq![text@.subrange(start, start + ll)]
                    + lines_from(text@, start + ll + 1));
            }
            assert(views_of(lines@.push(line)) =~= views_of(lines@) + seq![line@]);
            assert(views_of(lines@) + (seq![line@] + lines_from(text@, p as int + 1)) =~= (views_of(
                lines@,
            ) + seq![line@]) + lines_from(text@, p as int + 1));
            assert(views_of(lines@) + seq![line@] =~= (views_of(lines@) + seq![line@]) + Seq::<
                Seq<u8>,
            >::empty());
        }
        if p < text.len() {
            p = p + 1;
        }
        lines.push(line);
    }
    proof {
        assert(lines_from(text@, p as int) == Seq::<Seq<u8>>::empty());
        assert(views_of(lines@) + Seq::<Seq<u8>>::empty() =~= views_of(lines@));
    }
    lines
}

/// Parses an ARP dump into its host entries, one per data line, in order.
/// Returns `Ok` exactly when every data line is well-formed; a malformed
/// address field (or a line with fewer than three fields) is rejected with
/// [`WakeError::InvalidAddress`].
pub fn load_possible_hosts(output: &[u8]) -> (r: Result<Vec<ArpEntry>, WakeError>)
    ensures
        r is Ok <==> arp_table_ok(output@),
        r matches Ok(entries) ==> {
            &&& entries@.len() == data_lines(output@).len()
            &&& forall|j: int|
                0 <= j < entries@.len() ==> #[trigger] entries@[j].host@ == host_of_line(
                    data_lines(output@)[j],
                ) && entries@[j].mac@ == mac_of_line(data_lines(output@)[j])
        },
        r matches Err(e) ==> e == WakeError::InvalidAddress,
{
    let ghost dl = data_lines(output@);
    let lines = split_lines(output);
    let mut entries: Vec<ArpEntry> = Vec::new();
    if lines.len() == 0 {
        return Ok(entries);
    }
    let mut i: usize = 1;
    while i < lines.len()
        invariant
            1 <= i <= lines@.len(),
            lines@.len() == lines_from(output@, 0).len(),
            forall|t: int| 0 <= t < lines@.len() ==> lines@[t]@ == lines_from(output@, 0)[t],
            dl == data_lines(output@),
            dl.len() == lines@.len() - 1,
            entries@.len() == i - 1,
            forall|j: int|
                0 <= j < i - 1 ==> line_ok(#[trigger] dl[j]) && entries@[j].host@ == host_of_line(
                    dl[j],
                ) && entries@[j].mac@ == mac_of_line(dl[j]),
        decreases lines@.len() - i,
    {
        let ghost line_view = dl[i - 1];
        proof {
            assert(lines@[i as int]@ == line_view);
        }
        let fields = split_fields(lines[i].as_slice());
        if fields.len() < 3 {
            proof {
                assert(!line_ok(data_lines(output@)[i - 1]));
            }
            return Err(WakeError::InvalidAddress);
        }
        let mac = match parse_mac(fields[2].as_slice()) {
            Ok(m) => m,
            Err(_) => {
                proof {
                    assert(fields@[2]@ == fields_of(line_view)[2]);
                    assert(!line_ok(data_lines(output@)[i - 1]));
                }
                return Err(WakeError::InvalidAddress);
            },
        };
        let host = copy_bytes(fields[0].as_slice());
        entries.push(ArpEntry { host, mac });
        i = i + 1;
    }
    Ok(entries)
}

} // verus!
