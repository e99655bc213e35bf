//! The fixed binary layout of a registry record, with a verified encoder and
//! decoder.
//!
//! Layout, little-endian, no padding: a 4-byte unsigned counter, then each
//! text field as a 4-byte length prefix followed by that many UTF-8 bytes.
//! The decoder rejects buffers that are too short, length prefixes that point
//! past the end, text that is not well-formed UTF-8, and trailing bytes.

use vstd::prelude::*;
use vstd::bytes::{
    lemma_auto_spec_u32_to_from_le_bytes, spec_u32_from_le_bytes, spec_u32_to_le_bytes,
    u32_from_le_bytes, u32_to_le_bytes,
};
use vstd::slice::{slice_subrange, slice_to_vec};
use vstd::utf8::valid_utf8;
use crate::record::{encoded_len, record_wf, RecordModel, RegistryAccount};
use crate::text::utf8_is_valid;
use crate::HandlerError;

verus! {

/// The encoding of one text field: a 4-byte little-endian length prefix
/// followed by the field's bytes.
pub open spec fn encode_field(f: Seq<u8>) -> Seq<u8>
    recommends
        f.len() <= u32::MAX,
{
    spec_u32_to_le_bytes(f.len() as u32) + f
}

/// The fixed-format encoding of a whole record.
pub open spec fn spec_encode(m: RecordModel) -> Seq<u8>
    recommends
        record_wf(m),
{
    spec_u32_to_le_bytes(m.uniqueid) + encode_field(m.bridename) + encode_field(m.groomname)
        + encode_field(m.timestamp)
}

/// Reads one length-prefixed field at offset `i`; yields the field's bytes
/// and the offset just past them, or nothing when the prefix is truncated or
/// declares a length that exceeds the remaining buffer.
pub open spec fn spec_parse_field(b: Seq<u8>, i: int) -> Option<(Seq<u8>, int)> {
    if i + 4 <= b.len() {
        let len = spec_u32_from_le_bytes(b.subrange(i, i + 4)) as int;
        if i + 4 + len <= b.len() {
            Some((b.subrange(i + 4, i + 4 + len), i + 4 + len))
        } else {
            None
        }
    } else {
        None
    }
}

/// Decodes a whole buffer as a record, or nothing when the buffer is not
/// exactly the well-formed encoding of one record.
pub open spec fn spec_decode(b: Seq<u8>) -> Option<RecordModel> {
    if b.len() >= 4 {
        let uniqueid = spec_u32_from_le_bytes(b.subrange(0, 4));
        match spec_parse_field(b, 4) {
            Some((bridename, i1)) => match spec_parse_field(b, i1) {
                Some((groomname, i2)) => match spec_parse_field(b, i2) {
                    Some((timestamp, i3)) => {
                        if i3 == b.len() && valid_utf8(bridename) && valid_utf8(groomname)
                            && valid_utf8(timestamp) {
                            Some(RecordModel { uniqueid, bridename, groomname, timestamp })
                        } else {
                            None
                        }
                    },
                    None => None,
                },
                None => None,
            },
            None => None,
        }
    } else {
        None
    }
}

/// The encoding of a record is 16 bytes of fixed fields plus the text bytes.
pub proof fn lemma_encode_len(m: RecordModel)
    requires
        record_wf(m),
    ensures
        spec_encode(m).len() == encoded_len(m),
{
    lemma_auto_spec_u32_to_from_le_bytes();
}

/// A buffer that carries `encode_field(f)` at offset `i` parses to exactly
/// `f`, ending just past it.
proof fn lemma_parse_encoded_field(b: Seq<u8>, i: int, f: Seq<u8>)
    requires
        f.len() <= u32::MAX,
        0 <= i,
        i + 4 + f.len() <= b.len(),
        b.subrange(i, i + 4 + f.len() as int) == encode_field(f),
    ensures
        spec_parse_field(b, i) == Some((f, i + 4 + f.len() as int)),
{
    lemma_auto_spec_u32_to_from_le_bytes();
    let piece = b.subrange(i, i + 4 + f.len() as int);
    assert(b.subrange(i, i + 4) =~= piece.subrange(0, 4));
    assert(piece.subrange(0, 4) =~= spec_u32_to_le_bytes(f.len() as u32));
    assert(spec_u32_from_le_bytes(b.subrange(i, i + 4)) == f.len() as u32);
    assert(b.subrange(i + 4, i + 4 + f.len() as int) =~= piece.subrange(4, piece.len() as int));
    assert(piece.subrange(4, piece.len() as int) =~= f);
}

/// Round-trip: decoding the bytes produced by encoding a well-formed record
/// yields that record again.
pub proof fn lemma_round_trip(m: RecordModel)
    requires
        record_wf(m),
    ensures
        spec_decode(spec_encode(m)) == Some(m),
{
    lemma_auto_spec_u32_to_from_le_bytes();
    let b = spec_encode(m);
    let nb = m.bridename.len() as int;
    let ng = m.groomname.len() as int;
    let nt = m.timestamp.len() as int;
    lemma_encode_len(m);
    assert(b.subrange(0, 4) =~= spec_u32_to_le_bytes(m.uniqueid));
    assert(spec_u32_from_le_bytes(b.subrange(0, 4)) == m.uniqueid);
    assert(b.subrange(4, 8 + nb) =~= encode_field(m.bridename));
    lemma_parse_encoded_field(b, 4, m.bridename);
    let i1 = 8 + nb;
    assert(b.subrange(i1, i1 + 4 + ng) =~= encode_field(m.groomname));
    lemma_parse_encoded_field(b, i1, m.groomname);
    let i2 = i1 + 4 + ng;
    assert(b.subrange(i2, i2 + 4 + nt) =~= encode_field(m.timestamp));
    lemma_parse_encoded_field(b, i2, m.timestamp);
    let i3 = i2 + 4 + nt;
    assert(i3 == b.len());
    assert(spec_decode(b) == Some(
        RecordModel {
            uniqueid: m.uniqueid,
            bridename: m.bridename,
            groomname: m.groomname,
            timestamp: m.timestamp,
        },
    ));
    assert(RecordModel {
        uniqueid: m.uniqueid,
        bridename: m.bridename,
        groomname: m.groomname,
        timestamp: m.timestamp,
    } =~= m);
}

/// A buffer that decodes at all is exactly the encoding of the well-formed
/// record it decodes to; in particular its length is that record's encoded
/// length.
pub proof fn lemma_decode_is_encode(b: Seq<u8>, m: RecordModel)
    requires
        spec_decode(b) == Some(m),
    ensures
        record_wf(m),
        b == spec_encode(m),
        b.len() == encoded_len(m),
{
    lemma_auto_spec_u32_to_from_le_bytes();
    let r1 = spec_parse_field(b, 4);
    let (bridename, i1) = r1->Some_0;
    let r2 = spec_parse_field(b, i1);
    let (groomname, i2) = r2->Some_0;
    let r3 = spec_parse_field(b, i2);
    let (timestamp, i3) = r3->Some_0;
    assert(m.bridename == bridename && m.groomname == groomname && m.timestamp == timestamp);
    assert(record_wf(m));
    assert(spec_u32_to_le_bytes(spec_u32_from_le_bytes(b.subrange(0, 4))) == b.subrange(0, 4));
    assert(spec_u32_to_le_bytes(spec_u32_from_le_bytes(b.subrange(4, 8))) == b.subrange(4, 8));
    assert(spec_u32_to_le_bytes(spec_u32_from_le_bytes(b.subrange(i1, i1 + 4))) == b.subrange(
        i1,
        i1 + 4,
    ));
    assert(spec_u32_to_le_bytes(spec_u32_from_le_bytes(b.subrange(i2, i2 + 4))) == b.subrange(
        i2,
        i2 + 4,
    ));
    assert(b =~= spec_encode(m));
    lemma_encode_len(m);
}

/// Appends the bytes of `b` to `out`.
fn append_bytes(out: &mut Vec<u8>, b: &[u8])
    requires
        old(out)@.len() + b@.len() <= usize::MAX,
    ensures
        final(out)@ == old(out)@ + b@,
{
    let n = b.len();
    for i in 0..n
        invariant
            n == b@.len(),
            out@ =~= old(out)@ + b@.subrange(0, i as int),
    {
        out.push(b[i]);
        assert(out@ =~= old(out)@ + b@.subrange(0, i + 1));
    }
    assert(b@.subrange(0, n as int) =~= b@);
}

/// Appends the length prefix and bytes of one text field to `out`.
fn append_field(out: &mut Vec<u8>, f: &Vec<u8>)
    requires
        f@.len() <= u32::MAX,
        old(out)@.len() + 4 + f@.len() <= usize::MAX,
    ensures
        final(out)@ == old(out)@ + encode_field(f@),
{
    proof {
        lemma_auto_spec_u32_to_from_le_bytes();
    }
    let prefix = u32_to_le_bytes(f.len() as u32);
    append_bytes(out, prefix.as_slice());
    append_bytes(out, f.as_slice());
    assert(out@ =~= old(out)@ + encode_field(f@));
}

impl RegistryAccount {
    /// Encodes `self` into the fixed binary layout.
    pub fn serialize(&self) -> (out: Vec<u8>)
        requires
            self.wf(),
            encoded_len(self@) <= usize::MAX,
        ensures
            out@ == spec_encode(self@),
            out@.len() == encoded_len(self@),
    {
        proof {
            lemma_auto_spec_u32_to_from_le_bytes();
        }
        let mut out = u32_to_le_bytes(self.uniqueid);
        append_field(&mut out, &self.bridename);
        append_field(&mut out, &self.groomname);
        append_field(&mut out, &self.timestamp);
        proof {
            assert(out@ =~= spec_encode(self@));
            lemma_encode_len(self@);
        }
        out
    }

    /// Decodes a buffer that holds exactly one encoded record. Returns
    /// `MalformedRecord` when the buffer is anything else: too short, a
    /// declared text length past the end, ill-formed UTF-8, or trailing
    /// bytes.
    pub fn try_from_slice(data: &[u8]) -> (r: Result<RegistryAccount, HandlerError>)
        ensures
            match r {
                Ok(rec) => spec_decode(data@) == Some(rec@) && rec.wf(),
                Err(e) => spec_decode(data@) is None && e == HandlerError::MalformedRecord,
            },
    {
        if data.len() < 4 {
            return Err(HandlerError::MalformedRecord);
        }
        let uniqueid = u32_from_le_bytes(slice_subrange(data, 0, 4));
        let (bridename, i1) = match parse_field(data, 4) {
            Some(p) => p,
            None => {
                return Err(HandlerError::MalformedRecord);
            },
        };
        let (groomname, i2) = match parse_field(data, i1) {
            Some(p) => p,
            None => {
                return Err(HandlerError::MalformedRecord);
            },
        };
        let (timestamp, i3) = match parse_field(data, i2) {
            Some(p) => p,
            None => {
                return Err(HandlerError::MalformedRecord);
            },
        };
        if i3 != data.len() {
            return Err(HandlerError::MalformedRecord);
        }
        if !utf8_is_valid(bridename.as_slice()) {
            return Err(HandlerError::MalformedRecord);
        }
        if !utf8_is_valid(groomname.as_slice()) {
            return Err(HandlerError::MalformedRecord);
        }
        if !utf8_is_valid(timestamp.as_slice()) {
            return Err(HandlerError::MalformedRecord);
        }
        let rec = RegistryAccount { uniqueid, bridename, groomname, timestamp };
        proof {
            let m = spec_decode(data@)->Some_0;
            assert(m =~= rec@);
        }
        Ok(rec)
    }
}

/// Reads one length-prefixed field at offset `i`, mirroring
/// `spec_parse_field`.
fn parse_field(data: &[u8], i: usize) -> (r: Option<(Vec<u8>, usize)>)
    requires
        i <= data@.len(),
    ensures
        match r {
            Some(p) => {
                &&& spec_parse_field(data@, i as int) == Some((p.0@, p.1 as int))
                &&& i + 4 <= p.1 <= data@.len()
            },
            None => spec_parse_field(data@, i as int) is None,
        },
{
    if data.len() - i < 4 {
        return None;
    }
    let len = u32_from_le_bytes(slice_subrange(data, i, i + 4));
    let len_us = len as usize;
    if data.len() - (i + 4) < len_us {
        return None;
    }
    let field = slice_to_vec(slice_subrange(data, i + 4, i + 4 + len_us));
    Some((field, i + 4 + len_us))
}

} // verus!
