//! Container demultiplexer.
//!
//! The container holds a 32-byte global header (skipped, not validated),
//! then a run of records, each `[4-byte little-endian payload length]
//! [8-byte timestamp][payload]`. The demultiplexer yields each record's
//! payload in order. A short read at any record boundary ends the
//! sequence cleanly: end of stream and a truncated trailing record are
//! indistinguishable by design.

use vstd::prelude::*;

use crate::error::StreamError;
use crate::lebytes::{le4_bytes, le_int, lemma_le4_bytes_roundtrip, lemma_le_int_subrange, read_le_u32};

verus! {

/// Bytes of the global file header, consumed at construction.
pub const FILE_HEADER_BYTES: usize = 32;

/// Bytes of one record header: a 4-byte payload length then an 8-byte
/// timestamp.
pub const RECORD_HEADER_BYTES: usize = 12;

/// The payload length announced by the record starting at `pos`.
pub open spec fn record_len(s: Seq<u8>, pos: int) -> nat {
    le_int(s, pos, 4)
}

/// Whether a whole record starts at `pos`: its 12 header bytes and the
/// payload they announce all lie within `s`.
pub open spec fn has_record(s: Seq<u8>, pos: int) -> bool {
    &&& 0 <= pos
    &&& pos + RECORD_HEADER_BYTES <= s.len()
    &&& pos + RECORD_HEADER_BYTES + record_len(s, pos) <= s.len()
}

/// The payload of the record starting at `pos`.
pub open spec fn record_payload(s: Seq<u8>, pos: int) -> Seq<u8> {
    s.subrange(pos + RECORD_HEADER_BYTES, pos + RECORD_HEADER_BYTES + record_len(s, pos))
}

/// The position just past the record starting at `pos`.
pub open spec fn record_end(s: Seq<u8>, pos: int) -> int {
    pos + RECORD_HEADER_BYTES + record_len(s, pos)
}

/// All record payloads readable from `pos` on, in stream order, up to
/// the first position where no whole record remains.
pub open spec fn chunks_from(s: Seq<u8>, pos: int) -> Seq<Seq<u8>>
    decreases s.len() - pos,
{
    if has_record(s, pos) {
        seq![record_payload(s, pos)] + chunks_from(s, record_end(s, pos))
    } else {
        Seq::empty()
    }
}

/// The serialized form of one record: the payload length as 4
/// little-endian bytes, the 8 timestamp bytes, then the payload.
pub open spec fn record_bytes(ts: Seq<u8>, payload: Seq<u8>) -> Seq<u8> {
    le4_bytes(payload.len() as int) + ts + payload
}

/// The serialized form of a run of records, in order.
pub open spec fn records_bytes(tss: Seq<Seq<u8>>, payloads: Seq<Seq<u8>>) -> Seq<u8>
    decreases payloads.len(),
{
    if payloads.len() == 0 {
        Seq::empty()
    } else {
        record_bytes(tss[0], payloads[0]) + records_bytes(tss.skip(1), payloads.skip(1))
    }
}

/// Reading records off a stream that carries a serialized run of them
/// at `pos` yields exactly the run's payloads, and goes on after the
/// run: whatever follows the run (`tail`) is reached at the run's end.
pub proof fn lemma_chunks_from_records(
    s: Seq<u8>,
    pos: int,
    tss: Seq<Seq<u8>>,
    payloads: Seq<Seq<u8>>,
    tail: Seq<u8>,
)
    requires
        0 <= pos,
        tss.len() == payloads.len(),
        forall|i: int| 0 <= i < tss.len() ==> #[trigger] tss[i].len() == 8,
        forall|i: int| 0 <= i < payloads.len() ==> #[trigger] payloads[i].len() < 4294967296,
        s.len() == pos + records_bytes(tss, payloads).len() + tail.len(),
        s.subrange(pos, s.len() as int) == records_bytes(tss, payloads) + tail,
    ensures
        chunks_from(s, pos) =~= payloads + chunks_from(
            s,
            pos + records_bytes(tss, payloads).len(),
        ),
    decreases payloads.len(),
{
    if payloads.len() == 0 {
        assert(chunks_from(s, pos) =~= Seq::<Seq<u8>>::empty() + chunks_from(s, pos));
    } else {
        let ts0 = tss[0];
        let p0 = payloads[0];
        let len0 = p0.len() as int;
        let r0 = record_bytes(ts0, p0);
        let rest = records_bytes(tss.skip(1), payloads.skip(1));
        let whole = records_bytes(tss, payloads) + tail;
        assert(r0.len() == RECORD_HEADER_BYTES + len0);

        // Each byte of the stream from `pos` on is a byte of the run.
        assert forall|i: int| 0 <= i < whole.len() implies s[pos + i] == whole[i] by {
            assert(s.subrange(pos, s.len() as int)[i] == whole[i]);
        }

        // The length field at `pos` reads back the payload's length.
        assert(s.subrange(pos, pos + 4) =~= le4_bytes(len0)) by {
            assert(forall|i: int|
                0 <= i < 4 ==> s[pos + i] == whole[i] && whole[i] == r0[i] && r0[i] == le4_bytes(
                    len0,
                )[i]);
        }
        lemma_le4_bytes_roundtrip(len0);
        assert(le4_bytes(len0).subrange(0, 4) =~= le4_bytes(len0));
        lemma_le_int_subrange(s, pos, le4_bytes(len0), 0, 4);
        assert(record_len(s, pos) == len0);
        assert(has_record(s, pos));

        // The payload at `pos` is the first payload of the run.
        assert(record_payload(s, pos) =~= p0) by {
            assert forall|i: int| 0 <= i < len0 implies record_payload(s, pos)[i] == p0[i] by {
                assert(record_payload(s, pos)[i] == s[pos + RECORD_HEADER_BYTES + i]);
                assert(s[pos + RECORD_HEADER_BYTES + i] == whole[RECORD_HEADER_BYTES + i]);
                assert(whole[RECORD_HEADER_BYTES + i] == r0[RECORD_HEADER_BYTES + i]);
                assert(r0[RECORD_HEADER_BYTES + i] == p0[i]);
            }
        }

        // Past the first record stands the rest of the run, then `tail`.
        let pos1 = pos + r0.len();
        assert(record_end(s, pos) == pos1);
        assert(s.subrange(pos1, s.len() as int) =~= rest + tail) by {
            assert forall|i: int| 0 <= i < rest.len() + tail.len() implies s.subrange(
                pos1,
                s.len() as int,
            )[i] == (rest + tail)[i] by {
                assert(s.subrange(pos1, s.len() as int)[i] == s[pos1 + i]);
                assert(s[pos1 + i] == whole[r0.len() + i]);
                assert(whole[r0.len() + i] == (rest + tail)[i]);
            }
        }
        lemma_chunks_from_records(s, pos1, tss.skip(1), payloads.skip(1), tail);
        assert(chunks_from(s, pos) =~= payloads + chunks_from(
            s,
            pos + records_bytes(tss, payloads).len(),
        )) by {
            assert(chunks_from(s, pos) == seq![record_payload(s, pos)] + chunks_from(s, pos1));
            assert(pos1 + rest.len() == pos + records_bytes(tss, payloads).len());
        }
    }
}

/// A well-formed container — a 32-byte header then a serialized run of
/// records — demultiplexes to exactly the run's payloads, in order, and
/// then terminates.
pub proof fn lemma_demux_yields_payloads(s: Seq<u8>, tss: Seq<Seq<u8>>, payloads: Seq<Seq<u8>>)
    requires
        tss.len() == payloads.len(),
        forall|i: int| 0 <= i < tss.len() ==> #[trigger] tss[i].len() == 8,
        forall|i: int| 0 <= i < payloads.len() ==> #[trigger] payloads[i].len() < 4294967296,
        s.len() == FILE_HEADER_BYTES + records_bytes(tss, payloads).len(),
        s.subrange(FILE_HEADER_BYTES as int, s.len() as int) == records_bytes(tss, payloads),
    ensures
        chunks_from(s, FILE_HEADER_BYTES as int) =~= payloads,
{
    let tail = Seq::<u8>::empty();
    assert(s.subrange(FILE_HEADER_BYTES as int, s.len() as int) =~= records_bytes(tss, payloads)
        + tail);
    lemma_chunks_from_records(s, FILE_HEADER_BYTES as int, tss, payloads, tail);
    assert(chunks_from(s, s.len() as int) =~= Seq::<Seq<u8>>::empty());
    assert(payloads + Seq::<Seq<u8>>::empty() =~= payloads);
}

/// A container whose final record lost its last byte demultiplexes to
/// the payloads of the earlier, intact records and then terminates
/// cleanly, exactly as if the truncated record were absent.
pub proof fn lemma_demux_truncated_final(
    s: Seq<u8>,
    tss: Seq<Seq<u8>>,
    payloads: Seq<Seq<u8>>,
    last_ts: Seq<u8>,
    last_payload: Seq<u8>,
)
    requires
        tss.len() == payloads.len(),
        forall|i: int| 0 <= i < tss.len() ==> #[trigger] tss[i].len() == 8,
        forall|i: int| 0 <= i < payloads.len() ==> #[trigger] payloads[i].len() < 4294967296,
        last_ts.len() == 8,
        last_payload.len() < 4294967296,
        s.len() == FILE_HEADER_BYTES + records_bytes(tss, payloads).len() + record_bytes(
            last_ts,
            last_payload,
        ).len() - 1,
        s.subrange(FILE_HEADER_BYTES as int, s.len() as int) == records_bytes(tss, payloads)
            + record_bytes(last_ts, last_payload).take(
            record_bytes(last_ts, last_payload).len() - 1,
        ),
    ensures
        chunks_from(s, FILE_HEADER_BYTES as int) =~= payloads,
{
    let full = record_bytes(last_ts, last_payload);
    let tail = full.take(full.len() - 1);
    let len_last = last_payload.len() as int;
    lemma_chunks_from_records(s, FILE_HEADER_BYTES as int, tss, payloads, tail);
    let pos_end = FILE_HEADER_BYTES + records_bytes(tss, payloads).len();
    // The truncated record never forms a whole one: its 11 + len_last
    // bytes are one too few.
    assert(s.len() - pos_end == RECORD_HEADER_BYTES + len_last - 1);
    if len_last > 0 {
        let run = records_bytes(tss, payloads);
        let whole = run + tail;
        assert forall|i: int| 0 <= i < tail.len() implies s[pos_end + i] == tail[i] by {
            assert(s.subrange(FILE_HEADER_BYTES as int, s.len() as int)[run.len() + i] == whole[
                run.len() + i
            ]);
            assert(whole[run.len() + i] == tail[i]);
        }
        assert forall|i: int| 0 <= i < 4 implies s.subrange(pos_end, pos_end + 4)[i] == le4_bytes(
            len_last,
        )[i] by {
            assert(s.subrange(pos_end, pos_end + 4)[i] == s[pos_end + i]);
            assert(s[pos_end + i] == tail[i]);
            assert(tail[i] == full[i]);
            assert(full[i] == le4_bytes(len_last)[i]);
        }
        assert(s.subrange(pos_end, pos_end + 4) =~= le4_bytes(len_last));
        lemma_le4_bytes_roundtrip(len_last);
        assert(le4_bytes(len_last).subrange(0, 4) =~= le4_bytes(len_last));
        lemma_le_int_subrange(s, pos_end, le4_bytes(len_last), 0, 4);
        assert(!has_record(s, pos_end));
    } else {
        assert(!has_record(s, pos_end));
    }
    assert(chunks_from(s, pos_end) =~= Seq::<Seq<u8>>::empty());
    assert(payloads + Seq::<Seq<u8>>::empty() =~= payloads);
}

/// Pulls one chunk after another out of a container stream.
pub struct IvfReader {
    data: Vec<u8>,
    pos: usize,
}

impl IvfReader {
    /// The whole underlying byte stream, header included.
    pub closed spec fn stream(self) -> Seq<u8> {
        self.data@
    }

    /// The read position: the start of the next record, if one remains.
    pub closed spec fn pos(self) -> int {
        self.pos as int
    }

    /// The chunks not yet handed out.
    pub open spec fn remaining_chunks(self) -> Seq<Seq<u8>> {
        chunks_from(self.stream(), self.pos())
    }

    /// Takes ownership of the stream bytes and consumes the global
    /// header. Fails with `HeaderError` when fewer than 32 bytes are
    /// available; the header is not otherwise validated.
    pub fn new(stream: Vec<u8>) -> (r: Result<IvfReader, StreamError>)
        ensures
            match r {
                Ok(reader) => {
                    &&& stream@.len() >= FILE_HEADER_BYTES
                    &&& reader.stream() == stream@
                    &&& reader.pos() == FILE_HEADER_BYTES
                },
                Err(e) => {
                    &&& stream@.len() < FILE_HEADER_BYTES
                    &&& e == StreamError::HeaderError
                },
            },
    {
        if stream.len() < FILE_HEADER_BYTES {
            Err(StreamError::HeaderError)
        } else {
            Ok(IvfReader { data: stream, pos: FILE_HEADER_BYTES })
        }
    }

    /// Yields the next chunk: reads the 4-byte payload length, skips the
    /// 8-byte timestamp, and copies out the payload. Returns `None`, and
    /// stays put, as soon as any of those reads would run past the end
    /// of the stream.
    pub fn next(&mut self) -> (r: Option<Vec<u8>>)
        ensures
            final(self).stream() == old(self).stream(),
            match r {
                Some(buf) => {
                    &&& has_record(old(self).stream(), old(self).pos())
                    &&& buf@ == record_payload(old(self).stream(), old(self).pos())
                    &&& final(self).pos() == record_end(old(self).stream(), old(self).pos())
                    &&& old(self).remaining_chunks() =~= seq![buf@]
                        + final(self).remaining_chunks()
                },
                None => {
                    &&& !has_record(old(self).stream(), old(self).pos())
                    &&& final(self).pos() == old(self).pos()
                    &&& final(self).remaining_chunks() =~= Seq::<Seq<u8>>::empty()
                },
            },
    {
        let n: usize = self.data.len();
        if n < RECORD_HEADER_BYTES || self.pos > n - RECORD_HEADER_BYTES {
            return None;
        }
        let len32 = read_le_u32(&self.data, self.pos);
        let len = len32 as usize;
        let start = self.pos + RECORD_HEADER_BYTES;
        if len > n - start {
            return None;
        }
        let mut buf: Vec<u8> = Vec::new();
        let mut k: usize = 0;
        while k < len
            invariant
                k <= len,
                start + len <= n == self.data@.len(),
                buf@ =~= self.data@.subrange(start as int, start + k),
                self.data@ == old(self).data@,
                self.pos == old(self).pos,
            decreases len - k,
        {
            buf.push(self.data[start + k]);
            k = k + 1;
        }
        self.pos = start + len;
        Some(buf)
    }
}

} // verus!
