//! Raw enumeration buffers and the decoder that turns one into file records.
//!
//! A buffer starts with an 8-byte continuation token. Records follow back to
//! back until the valid length is used up. Each record begins with a fixed
//! header of 60 bytes:
//!
//! | offset | width | field                        |
//! |--------|-------|------------------------------|
//! | 0      | 4     | record length                |
//! | 8      | 8     | file reference number        |
//! | 16     | 8     | parent file reference number |
//! | 56     | 2     | file name length, in bytes   |
//! | 58     | 2     | file name offset             |
//!
//! All integers are little-endian. The name span is relative to the start of
//! the record and must lie inside it.

use vstd::prelude::*;
use vstd::slice::slice_subrange;
use crate::wire::{le_u16, le_u32, le_u64, read_u16, read_u32, read_u64};

verus! {

/// Length of the continuation token that opens every buffer.
pub const TOKEN_LEN: usize = 8;

/// Length of the fixed part of a record.
pub const HEADER_LEN: usize = 60;

/// Offset of the file reference number inside a record.
pub const FILE_REF_AT: usize = 8;

/// Offset of the parent file reference number inside a record.
pub const PARENT_REF_AT: usize = 16;

/// Offset of the file name length inside a record.
pub const NAME_LEN_AT: usize = 56;

/// Offset of the file name offset inside a record.
pub const NAME_OFFSET_AT: usize = 58;

/// One response of the enumeration: the bytes of the output buffer and how
/// many of them the volume filled in. Only that prefix is ever read.
#[derive(Debug)]
pub struct RawBuffer {
    bytes: Vec<u8>,
    bytes_returned: u32,
}

impl View for RawBuffer {
    type V = Seq<u8>;

    /// The valid bytes: the first `bytes_returned` of the buffer.
    closed spec fn view(&self) -> Seq<u8> {
        self.bytes@.take(self.bytes_returned as int)
    }
}

impl RawBuffer {
    #[verifier::type_invariant]
    spec fn inv(self) -> bool {
        self.bytes_returned as int <= self.bytes@.len()
    }

    /// The size of the whole buffer, valid or not.
    pub closed spec fn capacity(&self) -> nat {
        self.bytes@.len()
    }

    /// Pairs a buffer with its valid length; refused when the length claims
    /// more than the buffer holds.
    pub fn new(bytes: Vec<u8>, bytes_returned: u32) -> (r: Option<RawBuffer>)
        ensures
            r is Some <==> bytes_returned as int <= bytes@.len(),
            r is Some ==> r.unwrap()@ == bytes@.take(bytes_returned as int),
            r is Some ==> r.unwrap()@.len() == bytes_returned,
            r is Some ==> r.unwrap().capacity() == bytes@.len(),
    {
        if bytes_returned as usize <= bytes.len() {
            Some(RawBuffer { bytes, bytes_returned })
        } else {
            None
        }
    }

    /// The number of valid bytes.
    pub fn bytes_returned(&self) -> (n: u32)
        ensures
            n as int == self@.len(),
    {
        proof {
            use_type_invariant(self);
        }
        self.bytes_returned
    }

    /// The valid bytes and nothing else.
    pub fn valid_bytes(&self) -> (s: &[u8])
        ensures
            s@ == self@,
    {
        proof {
            use_type_invariant(self);
        }
        slice_subrange(self.bytes.as_slice(), 0, self.bytes_returned as usize)
    }

    /// The continuation token: the first eight valid bytes as an integer.
    pub fn token(&self) -> (t: Option<u64>)
        ensures
            t is Some <==> self@.len() >= TOKEN_LEN,
            t is Some ==> t.unwrap() as int == le_u64(self@, 0),
    {
        read_u64(self.valid_bytes(), 0)
    }
}

/// One decoded record of the master file table.
#[derive(Debug)]
pub struct FileRecord {
    pub file_reference_number: u64,
    pub parent_file_reference_number: u64,
    pub record_length: u32,
    pub file_name_bytes: Vec<u8>,
}

/// What a `FileRecord` stands for in contracts.
pub struct FileRecordView {
    pub file_reference_number: u64,
    pub parent_file_reference_number: u64,
    pub record_length: u32,
    pub file_name_bytes: Seq<u8>,
}

impl View for FileRecord {
    type V = FileRecordView;

    open spec fn view(&self) -> FileRecordView {
        FileRecordView {
            file_reference_number: self.file_reference_number,
            parent_file_reference_number: self.parent_file_reference_number,
            record_length: self.record_length,
            file_name_bytes: self.file_name_bytes@,
        }
    }
}

/// The views of a list of records, in the same order.
pub open spec fn views(records: Seq<FileRecord>) -> Seq<FileRecordView> {
    Seq::new(records.len(), |i: int| records[i]@)
}

/// Why the bytes at some offset are no record.
#[derive(Clone, Copy, Debug, PartialEq, Eq, Structural)]
pub enum MalformedKind {
    /// The valid region is too short to hold the continuation token.
    MissingToken,
    /// Fewer than four bytes are left, so no record length can be read.
    TruncatedLength,
    /// The record declares a length of zero.
    ZeroLength,
    /// The declared length reaches past the valid region.
    Overrun,
    /// The declared length is smaller than the fixed header.
    ShortRecord,
    /// The file name span does not lie inside the record.
    NameOutsideRecord,
}

/// A record that could not be decoded, and where in the buffer it starts.
#[derive(Clone, Copy, Debug, PartialEq, Eq, Structural)]
pub struct MalformedRecordError {
    pub offset: usize,
    pub kind: MalformedKind,
}

/// What decoding one buffer gives: the records up to the first fault, and
/// that fault if there was one.
#[derive(Debug)]
pub struct Decoded {
    pub records: Vec<FileRecord>,
    pub error: Option<MalformedRecordError>,
}

/// What a `Decoded` stands for in contracts.
pub struct DecodedView {
    pub records: Seq<FileRecordView>,
    pub error: Option<MalformedRecordError>,
}

impl View for Decoded {
    type V = DecodedView;

    open spec fn view(&self) -> DecodedView {
        DecodedView { records: views(self.records@), error: self.error }
    }
}

/// The fault, if any, of the record that starts at `off` in the valid bytes
/// `s`. The conditions are tried in the order in which a decoder meets them.
pub open spec fn fault_at(s: Seq<u8>, off: int) -> Option<MalformedKind> {
    let len = le_u32(s, off);
    if s.len() - off < 4 {
        Some(MalformedKind::TruncatedLength)
    } else if len == 0 {
        Some(MalformedKind::ZeroLength)
    } else if off + len > s.len() {
        Some(MalformedKind::Overrun)
    } else if len < HEADER_LEN {
        Some(MalformedKind::ShortRecord)
    } else if le_u16(s, off + NAME_OFFSET_AT) + le_u16(s, off + NAME_LEN_AT) > len {
        Some(MalformedKind::NameOutsideRecord)
    } else {
        None
    }
}

/// The record that starts at `off`, read field by field.
pub open spec fn record_at(s: Seq<u8>, off: int) -> FileRecordView {
    let name_start = off + le_u16(s, off + NAME_OFFSET_AT);
    FileRecordView {
        file_reference_number: le_u64(s, off + FILE_REF_AT) as u64,
        parent_file_reference_number: le_u64(s, off + PARENT_REF_AT) as u64,
        record_length: le_u32(s, off) as u32,
        file_name_bytes: s.subrange(name_start, name_start + le_u16(s, off + NAME_LEN_AT)),
    }
}

/// Walks the records of `s` from `off` on: each record is followed by the one
/// that starts where it ends, until the valid bytes are used up exactly or a
/// record is at fault.
pub open spec fn decode_from(s: Seq<u8>, off: int) -> DecodedView
    decreases s.len() - off,
{
    if off >= s.len() {
        DecodedView { records: Seq::empty(), error: None }
    } else {
        match fault_at(s, off) {
            Some(kind) => DecodedView {
                records: Seq::empty(),
                error: Some(MalformedRecordError { offset: off as usize, kind }),
            },
            None => {
                let rest = decode_from(s, off + le_u32(s, off));
                DecodedView {
                    records: seq![record_at(s, off)] + rest.records,
                    error: rest.error,
                }
            },
        }
    }
}

/// What the valid bytes `s` of a buffer decode to.
pub open spec fn decode_spec(s: Seq<u8>) -> DecodedView {
    if s.len() < TOKEN_LEN {
        DecodedView {
            records: Seq::empty(),
            error: Some(MalformedRecordError { offset: 0, kind: MalformedKind::MissingToken }),
        }
    } else {
        decode_from(s, TOKEN_LEN as int)
    }
}

/// Copies `len` bytes of `bytes` starting at `start`.
fn copy_span(bytes: &[u8], start: usize, len: usize) -> (out: Vec<u8>)
    requires
        start + len <= usize::MAX,
        start + len <= bytes@.len(),
    ensures
        out@ == bytes@.subrange(start as int, start + len),
{
    let mut out: Vec<u8> = Vec::with_capacity(len);
    let mut i: usize = 0;
    while i < len
        invariant
            i <= len,
            start + len <= usize::MAX,
            start + len <= bytes@.len(),
            out@ == bytes@.subrange(start as int, start + i),
        decreases len - i,
    {
        out.push(bytes[start + i]);
        i += 1;
    }
    out
}

/// Decodes the record that starts at `off`, or says why there is none.
pub fn decode_record(bytes: &[u8], off: usize) -> (r: Result<FileRecord, MalformedKind>)
    ensures
        match r {
            Ok(record) => fault_at(bytes@, off as int) is None && record@ == record_at(
                bytes@,
                off as int,
            ),
            Err(kind) => fault_at(bytes@, off as int) == Some(kind),
        },
{
    let record_length: u32 = match read_u32(bytes, off) {
        Some(n) => n,
        None => {
            return Err(MalformedKind::TruncatedLength);
        },
    };
    let len: usize = record_length as usize;
    if len == 0 {
        return Err(MalformedKind::ZeroLength);
    }
    if len > bytes.len() - off {
        return Err(MalformedKind::Overrun);
    }
    if len < HEADER_LEN {
        return Err(MalformedKind::ShortRecord);
    }
    let file_reference_number: u64 = read_u64(bytes, off + FILE_REF_AT).unwrap();
    let parent_file_reference_number: u64 = read_u64(bytes, off + PARENT_REF_AT).unwrap();
    let name_len: usize = read_u16(bytes, off + NAME_LEN_AT).unwrap() as usize;
    let name_offset: usize = read_u16(bytes, off + NAME_OFFSET_AT).unwrap() as usize;
    if name_offset + name_len > len {
        return Err(MalformedKind::NameOutsideRecord);
    }
    let file_name_bytes = copy_span(bytes, off + name_offset, name_len);
    Ok(FileRecord { file_reference_number, parent_file_reference_number, record_length, file_name_bytes })
}

/// Decodes a buffer: skips the continuation token, then reads record after
/// record. Decoding ends without a fault only where a record ends exactly at
/// the end of the valid bytes; no byte beyond them is read.
pub fn decode(buffer: &RawBuffer) -> (out: Decoded)
    ensures
        out@ == decode_spec(buffer@),
{
    let bytes = buffer.valid_bytes();
    let mut records: Vec<FileRecord> = Vec::new();
    if bytes.len() < TOKEN_LEN {
        proof {
            assert(views(records@) =~= Seq::<FileRecordView>::empty());
        }
        return Decoded {
            records,
            error: Some(MalformedRecordError { offset: 0, kind: MalformedKind::MissingToken }),
        };
    }
    let mut off: usize = TOKEN_LEN;
    while off < bytes.len()
        invariant
            TOKEN_LEN <= off <= bytes@.len(),
            bytes@ == buffer@,
            decode_spec(bytes@) == (DecodedView {
                records: views(records@) + decode_from(bytes@, off as int).records,
                error: decode_from(bytes@, off as int).error,
            }),
        decreases bytes@.len() - off,
    {
        match decode_record(bytes, off) {
            Ok(record) => {
                proof {
                    assert(views(records@.push(record)) =~= views(records@).push(record@));
                    let rest = decode_from(bytes@, off + le_u32(bytes@, off as int));
                    assert(views(records@) + (seq![record@] + rest.records) =~= views(
                        records@,
                    ).push(record@) + rest.records);
                }
                off = off + record.record_length as usize;
                records.push(record);
            },
            Err(kind) => {
                proof {
                    assert(views(records@) + Seq::<FileRecordView>::empty() =~= views(records@));
                }
                return Decoded {
                    records,
                    error: Some(MalformedRecordError { offset: off, kind }),
                };
            },
        }
    }
    proof {
        assert(views(records@) + Seq::<FileRecordView>::empty() =~= views(records@));
    }
    Decoded { records, error: None }
}

/// A chunk of bytes that is one whole record and nothing else.
pub open spec fn is_record(chunk: Seq<u8>) -> bool {
    fault_at(chunk, 0) is None && le_u32(chunk, 0) == chunk.len()
}

/// The valid bytes of a buffer made of a token and then `chunks`, in order.
pub open spec fn laid_out(token: Seq<u8>, chunks: Seq<Seq<u8>>) -> Seq<u8>
    decreases chunks.len(),
{
    if chunks.len() == 0 {
        token
    } else {
        laid_out(token, chunks.drop_last()) + chunks.last()
    }
}

/// The records that `chunks` hold, one per chunk, in order.
pub open spec fn records_of(chunks: Seq<Seq<u8>>) -> Seq<FileRecordView> {
    Seq::new(chunks.len(), |i: int| record_at(chunks[i], 0))
}

/// A record read from the bytes after `s` in `s + t` is the record read from
/// `t`, as long as what is read of it lies inside `t`.
proof fn lemma_shifted_read(s: Seq<u8>, t: Seq<u8>)
    requires
        t.len() >= 4,
        le_u32(t, 0) >= HEADER_LEN ==> t.len() >= HEADER_LEN,
    ensures
        le_u32(s + t, s.len() as int) == le_u32(t, 0),
        fault_at(s + t, s.len() as int) == fault_at(t, 0),
        fault_at(t, 0) is None ==> record_at(s + t, s.len() as int) == record_at(t, 0),
{
    let st = s + t;
    let base = s.len() as int;
    assert(forall|k: int| 0 <= k < t.len() ==> st[base + k] == t[k]);
    assert(le_u32(st, base) == le_u32(t, 0));
    if le_u32(t, 0) >= HEADER_LEN {
        assert(le_u16(st, base + NAME_LEN_AT) == le_u16(t, NAME_LEN_AT as int));
        assert(le_u16(st, base + NAME_OFFSET_AT) == le_u16(t, NAME_OFFSET_AT as int));
        assert(le_u64(st, base + FILE_REF_AT) == le_u64(t, FILE_REF_AT as int));
        assert(le_u64(st, base + PARENT_REF_AT) == le_u64(t, PARENT_REF_AT as int));
    }
    if fault_at(t, 0) is None {
        let from = le_u16(t, NAME_OFFSET_AT as int);
        let to = from + le_u16(t, NAME_LEN_AT as int);
        assert(st.subrange(base + from, base + to) =~= t.subrange(from, to));
    }
}

/// Bytes that follow a buffer do not change how the buffer itself decodes:
/// where `s` decodes without a fault from `off` on, `s + t` decodes from
/// `off` to the same records, followed by whatever starts where `s` ends.
pub proof fn lemma_decode_extends(s: Seq<u8>, t: Seq<u8>, off: int)
    requires
        0 <= off <= s.len(),
        decode_from(s, off).error is None,
    ensures
        decode_from(s + t, off) == (DecodedView {
            records: decode_from(s, off).records + decode_from(s + t, s.len() as int).records,
            error: decode_from(s + t, s.len() as int).error,
        }),
    decreases s.len() - off,
{
    let st = s + t;
    let tail = decode_from(st, s.len() as int);
    if off >= s.len() {
        assert(Seq::<FileRecordView>::empty() + tail.records =~= tail.records);
    } else {
        let len = le_u32(s, off);
        assert(fault_at(s, off) is None);
        assert(forall|k: int| 0 <= k < s.len() ==> st[k] == s[k]);
        assert(le_u32(st, off) == len);
        assert(fault_at(st, off) is None);
        let from = off + le_u16(s, off + NAME_OFFSET_AT);
        let to = from + le_u16(s, off + NAME_LEN_AT);
        assert(st.subrange(from, to) =~= s.subrange(from, to));
        assert(record_at(st, off) == record_at(s, off));
        lemma_decode_extends(s, t, off + len);
        let rest = decode_from(s, off + len);
        assert(seq![record_at(s, off)] + (rest.records + tail.records) =~= (seq![
            record_at(s, off),
        ] + rest.records) + tail.records);
    }
}

/// A buffer made of a token and whole records decodes to exactly those
/// records, one for each and in the order in which they lie, without a fault.
pub proof fn lemma_decode_laid_out(token: Seq<u8>, chunks: Seq<Seq<u8>>)
    requires
        token.len() == TOKEN_LEN,
        forall|i: int| 0 <= i < chunks.len() ==> is_record(#[trigger] chunks[i]),
    ensures
        decode_spec(laid_out(token, chunks)) == (DecodedView {
            records: records_of(chunks),
            error: None,
        }),
        laid_out(token, chunks).len() >= TOKEN_LEN,
    decreases chunks.len(),
{
    if chunks.len() == 0 {
        assert(records_of(chunks) =~= Seq::<FileRecordView>::empty());
    } else {
        let earlier = chunks.drop_last();
        let chunk = chunks.last();
        let s = laid_out(token, earlier);
        assert(is_record(chunk));
        lemma_decode_laid_out(token, earlier);
        lemma_decode_extends(s, chunk, TOKEN_LEN as int);
        lemma_shifted_read(s, chunk);
        let st = s + chunk;
        assert(decode_from(st, st.len() as int).records =~= Seq::<FileRecordView>::empty());
        assert(decode_from(st, s.len() as int).records =~= seq![record_at(chunk, 0)]);
        assert(records_of(earlier) + seq![record_at(chunk, 0)] =~= records_of(chunks));
    }
}

/// Where a buffer ends in a record whose declared length reaches past the
/// valid bytes, the records before it are decoded, the fault is reported at
/// the offset of that record, and no record is made of it.
pub proof fn lemma_decode_overrun(token: Seq<u8>, chunks: Seq<Seq<u8>>, last: Seq<u8>)
    requires
        token.len() == TOKEN_LEN,
        forall|i: int| 0 <= i < chunks.len() ==> is_record(#[trigger] chunks[i]),
        last.len() >= 4,
        le_u32(last, 0) > last.len(),
    ensures
        decode_spec(laid_out(token, chunks) + last) == (DecodedView {
            records: records_of(chunks),
            error: Some(
                MalformedRecordError {
                    offset: laid_out(token, chunks).len() as usize,
                    kind: MalformedKind::Overrun,
                },
            ),
        }),
{
    let s = laid_out(token, chunks);
    lemma_decode_laid_out(token, chunks);
    lemma_decode_extends(s, last, TOKEN_LEN as int);
    let st = s + last;
    assert(forall|k: int| 0 <= k < last.len() ==> st[s.len() + k] == last[k]);
    assert(le_u32(st, s.len() as int) == le_u32(last, 0));
    assert(fault_at(st, s.len() as int) == Some(MalformedKind::Overrun));
    assert(records_of(chunks) + Seq::<FileRecordView>::empty() =~= records_of(chunks));
}

} // verus!
