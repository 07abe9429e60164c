//! Records on a byte stream. A byte stream keeps no message boundaries, so
//! each record travels behind its length: two octets, most significant
//! first, then the octets of the record.

use vstd::prelude::*;
use vstd::slice::{slice_subrange, slice_to_vec};

verus! {

/// Octets of the length in front of a record.
pub const PREFIX_LEN: usize = 2;

/// The longest record: what two octets of length can count.
pub const MAX_RECORD: usize = 65535;

/// The length that the first two octets of `buf` spell.
pub open spec fn spec_record_len(buf: Seq<u8>) -> int
    recommends
        buf.len() >= 2,
{
    256 * (buf[0] as int) + buf[1] as int
}

/// A record behind its length.
pub open spec fn spec_frame_record(record: Seq<u8>) -> Seq<u8> {
    seq![(record.len() / 256) as u8, (record.len() % 256) as u8] + record
}

/// The record at the start of `buf` and the number of octets that it and
/// its length take; `None` while `buf` does not hold all of it yet.
pub open spec fn spec_split_record(buf: Seq<u8>) -> Option<(Seq<u8>, int)> {
    if buf.len() < 2 || buf.len() < 2 + spec_record_len(buf) {
        None
    } else {
        Some((buf.subrange(2, 2 + spec_record_len(buf)), 2 + spec_record_len(buf)))
    }
}

/// Splitting what `frame_record` made gives the record back and takes all
/// of it, whatever follows: for every record of at most 65535 octets,
/// `split_record(frame_record(record) + rest) == (record, 2 + |record|)`.
pub proof fn lemma_split_inverts_frame(record: Seq<u8>, rest: Seq<u8>)
    requires
        record.len() <= MAX_RECORD,
    ensures
        spec_frame_record(record).len() == 2 + record.len(),
        spec_split_record(spec_frame_record(record) + rest) == Some(
            (record, 2 + record.len() as int),
        ),
{
    let unit = spec_frame_record(record) + rest;
    let n = record.len() as int;
    assert(0 <= n / 256 < 256 && 0 <= n % 256 < 256 && n == 256 * (n / 256) + n % 256);
    assert(unit[0] == (n / 256) as u8);
    assert(unit[1] == (n % 256) as u8);
    assert(unit.subrange(2, 2 + n) =~= record);
}

/// Puts a record behind its length, ready to be written in one piece.
/// `None` exactly for a record of more than 65535 octets.
pub fn frame_record(record: &[u8]) -> (r: Option<Vec<u8>>)
    ensures
        r is Some <==> record@.len() <= MAX_RECORD,
        r matches Some(unit) ==> unit@ == spec_frame_record(record@) && spec_split_record(unit@)
            == Some((record@, unit@.len() as int)),
{
    let n = record.len();
    if n > MAX_RECORD {
        return None;
    }
    let mut unit: Vec<u8> = Vec::new();
    unit.push((n / 256) as u8);
    unit.push((n % 256) as u8);
    unit.extend_from_slice(record);
    proof {
        assert(unit@ =~= spec_frame_record(record@));
        lemma_split_inverts_frame(record@, Seq::empty());
        assert(spec_frame_record(record@) + Seq::<u8>::empty() =~= spec_frame_record(record@));
    }
    Some(unit)
}

/// The length of the record whose two octets of length stand at the start
/// of `header`; `None` for fewer than two octets.
pub fn record_len(header: &[u8]) -> (n: Option<usize>)
    ensures
        n is Some <==> header@.len() >= 2,
        n matches Some(len) ==> len == spec_record_len(header@) && len <= MAX_RECORD,
{
    if header.len() < PREFIX_LEN {
        return None;
    }
    let high = header[0] as usize;
    let low = header[1] as usize;
    Some(256 * high + low)
}

/// Takes the record at the start of `buf` and says how many octets it and
/// its length took; `None` while `buf` does not hold all of it yet.
pub fn split_record(buf: &[u8]) -> (r: Option<(Vec<u8>, usize)>)
    ensures
        match spec_split_record(buf@) {
            Some((record, taken)) => r matches Some((got, n)) && got@ == record && n == taken,
            None => r is None,
        },
{
    let len = match record_len(buf) {
        Some(len) => len,
        None => {
            return None;
        },
    };
    if buf.len() - PREFIX_LEN < len {
        return None;
    }
    let record = slice_to_vec(slice_subrange(buf, PREFIX_LEN, PREFIX_LEN + len));
    Some((record, PREFIX_LEN + len))
}

} // verus!
