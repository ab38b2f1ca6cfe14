//! Superframe splitter.
//!
//! A single container chunk may pack several coded frames behind a
//! trailing index (Annex B of the codec specification). The last byte of
//! the chunk is the marker byte: its top 3 bits must equal `0b110`, the
//! next 2 bits give the width in bytes of each size field, and the low 3
//! bits give the frame count, both biased by one. The index occupies the
//! final `2 + count * width` bytes of the chunk and opens with a
//! duplicate of the marker byte; between the two marker bytes sit
//! `count` little-endian frame sizes. A chunk that fails the marker test
//! or the duplicate test is a single frame. The splitter slices each
//! chunk into its frames, in index order.

use vstd::prelude::*;

use crate::error::StreamError;
use crate::ivf::{has_record, record_end, record_payload, IvfReader};
use crate::lebytes::{le_int, read_le_bytes};

verus! {

/// The value of a marker byte's top 3 bits that announces a superframe.
pub const SUPERFRAME_MARKER: u32 = 0x06;

/// How many of the marker byte's top bits hold the marker pattern.
pub const SUPERFRAME_MARKER_BITS: u32 = 3;

/// The most frames one superframe may pack.
pub const MAX_FRAMES_IN_SUPERFRAME: usize = 8;

/// The top 3 bits of the marker byte.
pub open spec fn marker_bits(b: u8) -> int {
    b as int / 32
}

/// The width in bytes of each frame-size field: the marker byte's next
/// 2 bits, plus one.
pub open spec fn size_width(b: u8) -> int {
    (b as int / 8) % 4 + 1
}

/// The number of frames in the superframe: the marker byte's low 3
/// bits, plus one.
pub open spec fn frame_count(b: u8) -> int {
    b as int % 8 + 1
}

/// Whether the chunk's last byte carries the superframe marker.
pub open spec fn has_marker(chunk: Seq<u8>) -> bool {
    chunk.len() >= 1 && marker_bits(chunk.last()) == SUPERFRAME_MARKER
}

/// The size in bytes of the superframe index the marker byte announces.
pub open spec fn index_len(chunk: Seq<u8>) -> int {
    2 + frame_count(chunk.last()) * size_width(chunk.last())
}

/// Whether the announced index fits inside the chunk.
pub open spec fn index_fits(chunk: Seq<u8>) -> bool {
    index_len(chunk) <= chunk.len()
}

/// Where the index starts: the position of the duplicate marker byte.
pub open spec fn index_offset(chunk: Seq<u8>) -> int {
    chunk.len() - index_len(chunk)
}

/// Whether the byte opening the index duplicates the chunk's last byte.
/// An arbitrary coded byte can collide with the marker pattern, so the
/// format repeats the marker byte at both ends of the index and a chunk
/// counts as a superframe only when the two agree.
pub open spec fn duplicate_marker_ok(chunk: Seq<u8>) -> bool {
    chunk[index_offset(chunk)] == chunk.last()
}

/// Whether the chunk is a superframe: marker present, index in bounds,
/// duplicate marker byte in agreement.
pub open spec fn is_superframe(chunk: Seq<u8>) -> bool {
    &&& has_marker(chunk)
    &&& index_fits(chunk)
    &&& duplicate_marker_ok(chunk)
}

/// Whether the chunk defeats parsing altogether: there is no last byte
/// to examine, or the announced index overruns the chunk.
pub open spec fn malformed_index(chunk: Seq<u8>) -> bool {
    chunk.len() == 0 || (has_marker(chunk) && !index_fits(chunk))
}

/// The frame sizes listed in the superframe index, in order.
pub open spec fn superframe_sizes(chunk: Seq<u8>) -> Seq<int> {
    Seq::new(
        frame_count(chunk.last()) as nat,
        |i: int|
            le_int(
                chunk,
                index_offset(chunk) + 1 + i * size_width(chunk.last()),
                size_width(chunk.last()) as nat,
            ) as int,
    )
}

/// The sizes of the frames the chunk decomposes into: the index's list
/// for a superframe, the whole chunk otherwise.
pub open spec fn frame_sizes_of(chunk: Seq<u8>) -> Seq<int> {
    if is_superframe(chunk) {
        superframe_sizes(chunk)
    } else {
        seq![chunk.len() as int]
    }
}

/// The size of the next frame to slice when `k` of the listed frames
/// are still pending: frame number `sizes.len() - k`.
pub open spec fn next_frame_size(sizes: Seq<int>, k: int) -> int {
    sizes[sizes.len() - k]
}

/// The superframe header: how many frames the chunk packs and how long
/// each one is.
pub struct SuperframeHeader {
    /// The number of frames within this superframe. A superframe may
    /// hold a single frame and have this equal to 1.
    pub frames_in_superframe: u32,
    /// The size in bytes of each frame, in index order.
    pub frame_sizes: Vec<usize>,
}

impl SuperframeHeader {
    /// The sizes as a mathematical sequence.
    pub open spec fn sizes(self) -> Seq<int> {
        self.frame_sizes@.map_values(|v: usize| v as int)
    }

    /// A header is coherent when its count matches its size list.
    pub open spec fn wf(self) -> bool {
        self.frame_sizes@.len() == self.frames_in_superframe
    }
}

impl Default for SuperframeHeader {
    /// An empty header: no frames pending.
    fn default() -> (r: Self)
        ensures
            r.frames_in_superframe == 0,
            r.frame_sizes@ =~= Seq::<usize>::empty(),
    {
        SuperframeHeader { frames_in_superframe: 0, frame_sizes: Vec::new() }
    }
}

/// Splits the chunks of a container stream into coded frames.
pub struct Vp9SuperframeParser {
    ivf: IvfReader,
    superframe_idx: usize,
    superframe_hdr: SuperframeHeader,
    offset: usize,
    data: Vec<u8>,
}

impl Vp9SuperframeParser {
    /// The whole underlying byte stream.
    pub closed spec fn stream(self) -> Seq<u8> {
        self.ivf.stream()
    }

    /// The demultiplexer's read position in the stream.
    pub closed spec fn pos(self) -> int {
        self.ivf.pos()
    }

    /// The chunk currently being sliced.
    pub closed spec fn chunk(self) -> Seq<u8> {
        self.data@
    }

    /// The sizes parsed from the current chunk's header.
    pub closed spec fn sizes(self) -> Seq<int> {
        self.superframe_hdr.sizes()
    }

    /// How many frames of the current chunk are still to be handed out.
    pub closed spec fn pending(self) -> int {
        self.superframe_idx as int
    }

    /// The offset in the current chunk where the next frame starts.
    pub closed spec fn offset(self) -> int {
        self.offset as int
    }

    /// The cursor invariant: the pending count never exceeds the size
    /// list, and the offset stays inside the current chunk.
    pub open spec fn wf(self) -> bool {
        &&& 0 <= self.pending() <= self.sizes().len()
        &&& 0 <= self.offset() <= self.chunk().len()
    }

    /// Wraps a demultiplexer around the stream with an empty cursor.
    /// Fails with `HeaderError` exactly when the demultiplexer does.
    pub fn new(stream: Vec<u8>) -> (r: Result<Vp9SuperframeParser, StreamError>)
        ensures
            match r {
                Ok(parser) => {
                    &&& stream@.len() >= crate::ivf::FILE_HEADER_BYTES
                    &&& parser.wf()
                    &&& parser.stream() == stream@
                    &&& parser.pos() == crate::ivf::FILE_HEADER_BYTES
                    &&& parser.pending() == 0
                },
                Err(e) => {
                    &&& stream@.len() < crate::ivf::FILE_HEADER_BYTES
                    &&& e == StreamError::HeaderError
                },
            },
    {
        let ivf = match IvfReader::new(stream) {
            Ok(ivf) => ivf,
            Err(e) => {
                return Err(e);
            },
        };
        Ok(
            Vp9SuperframeParser {
                ivf,
                superframe_idx: 0,
                superframe_hdr: Default::default(),
                offset: 0,
                data: Vec::new(),
            },
        )
    }

    /// Reads the superframe index off the end of one chunk.
    ///
    /// A chunk whose last byte fails the marker test, or whose duplicate
    /// marker byte disagrees with its last byte, is a single frame: the
    /// header then lists one size, the whole chunk. The parse fails with
    /// `MalformedSuperframeError` when the chunk is empty or the
    /// announced index is larger than the chunk.
    pub fn parse_superframe_hdr(data: &Vec<u8>) -> (r: Result<SuperframeHeader, StreamError>)
        ensures
            match r {
                Ok(hdr) => {
                    &&& !malformed_index(data@)
                    &&& hdr.wf()
                    &&& hdr.sizes() =~= frame_sizes_of(data@)
                },
                Err(e) => {
                    &&& malformed_index(data@)
                    &&& e == StreamError::MalformedSuperframeError
                },
            },
    {
        let n = data.len();
        if n == 0 {
            return Err(StreamError::MalformedSuperframeError);
        }
        let last = data[n - 1];

        // Try reading a superframe marker from the top 3 bits.
        let marker = (last / 32) as u32;
        if marker != SUPERFRAME_MARKER {
            // Not a superframe.
            return Ok(
                SuperframeHeader { frames_in_superframe: 1, frame_sizes: vec![n] },
            );
        }

        let bytes_per_framesize = ((last / 8) % 4 + 1) as usize;
        let frames_in_superframe = (last % 8 + 1) as usize;

        // The count is decoded from 3 bits, so it can never exceed 8;
        // the bound is checked all the same to keep the limit explicit.
        if frames_in_superframe > MAX_FRAMES_IN_SUPERFRAME {
            return Err(StreamError::MalformedSuperframeError);
        }

        proof {
            assert(frames_in_superframe * bytes_per_framesize <= 32) by (nonlinear_arith)
                requires
                    frames_in_superframe <= 8,
                    bytes_per_framesize <= 4,
            ;
        }
        let sz_index = 2 + frames_in_superframe * bytes_per_framesize;
        if sz_index > n {
            // The announced index does not fit in the chunk: reject it
            // rather than let the offset computation wrap.
            return Err(StreamError::MalformedSuperframeError);
        }
        let index_off = n - sz_index;

        if data[index_off] != last {
            // Also not a superframe: both tests must pass.
            return Ok(
                SuperframeHeader { frames_in_superframe: 1, frame_sizes: vec![n] },
            );
        }

        // Skip the duplicate marker byte, then read the sizes.
        let mut frame_sizes: Vec<usize> = Vec::new();
        let mut i: usize = 0;
        while i < frames_in_superframe
            invariant
                i <= frames_in_superframe,
                frames_in_superframe == frame_count(data@.last()),
                bytes_per_framesize == size_width(data@.last()),
                index_off == index_offset(data@),
                index_off + 1 + frames_in_superframe * bytes_per_framesize <= n == data@.len(),
                data@.len() >= 1,
                frame_sizes@.len() == i,
                forall|k: int|
                    0 <= k < i ==> frame_sizes@.map_values(|v: usize| v as int)[k]
                        == superframe_sizes(data@)[k],
            decreases frames_in_superframe - i,
        {
            proof {
                assert((i + 1) * bytes_per_framesize <= frames_in_superframe
                    * bytes_per_framesize) by (nonlinear_arith)
                    requires
                        i + 1 <= frames_in_superframe,
                        bytes_per_framesize >= 0,
                ;
                assert((i + 1) * bytes_per_framesize == i * bytes_per_framesize
                    + bytes_per_framesize) by (nonlinear_arith);
            }
            let sz = read_le_bytes(data, index_off + 1 + i * bytes_per_framesize,
                bytes_per_framesize);
            frame_sizes.push(sz as usize);
            i = i + 1;
        }
        Ok(
            SuperframeHeader {
                frames_in_superframe: frames_in_superframe as u32,
                frame_sizes,
            },
        )
    }

    /// Yields the next coded frame, pulling a fresh chunk from the
    /// demultiplexer whenever the cursor is empty. `Ok(None)` is the
    /// clean end of the sequence; the errors of `parse_superframe_hdr`
    /// are passed through, and a frame size that overruns the chunk
    /// gives `TruncatedFrameError` instead of reading out of bounds.
    #[verifier::loop_isolation(false)]
    pub fn next(&mut self) -> (r: Result<Option<Vec<u8>>, StreamError>)
        requires
            old(self).wf(),
        ensures
            final(self).wf(),
            final(self).stream() == old(self).stream(),
            next_post(*old(self), *final(self), r),
    {
        if self.superframe_idx == 0 {
            let data = match self.ivf.next() {
                None => {
                    return Ok(None);
                },
                Some(d) => d,
            };
            let hdr = match Self::parse_superframe_hdr(&data) {
                Err(e) => {
                    return Err(e);
                },
                Ok(h) => h,
            };
            self.superframe_idx = hdr.frames_in_superframe as usize;
            self.superframe_hdr = hdr;
            self.offset = 0;
            self.data = data;
        }
        let idx = self.superframe_hdr.frame_sizes.len() - self.superframe_idx;
        let frame_sz = self.superframe_hdr.frame_sizes[idx];
        let n = self.data.len();
        if frame_sz > n - self.offset {
            return Err(StreamError::TruncatedFrameError);
        }
        let start = self.offset;
        let mut out: Vec<u8> = Vec::new();
        let mut k: usize = 0;
        while k < frame_sz
            invariant
                k <= frame_sz,
                out@ =~= self.data@.subrange(start as int, start + k),
            decreases frame_sz - k,
        {
            out.push(self.data[start + k]);
            k = k + 1;
        }
        self.offset = start + frame_sz;
        self.superframe_idx = self.superframe_idx - 1;
        Ok(Some(out))
    }
}

/// How one slicing step leaves the cursor and what it returns, for a
/// cursor on chunk `c` with size list `zs`, `k` frames pending and the
/// next frame starting at `off`. A size that overruns the chunk leaves
/// the cursor as it stands and reports `TruncatedFrameError`.
pub open spec fn slice_post(
    c: Seq<u8>,
    zs: Seq<int>,
    k: int,
    off: int,
    post: Vp9SuperframeParser,
    r: Result<Option<Vec<u8>>, StreamError>,
) -> bool {
    let sz = next_frame_size(zs, k);
    if off + sz <= c.len() {
        &&& (r matches Ok(Some(buf)) && buf@ == c.subrange(off, off + sz))
        &&& post.pending() == k - 1
        &&& post.offset() == off + sz
    } else {
        &&& r == Err::<Option<Vec<u8>>, StreamError>(StreamError::TruncatedFrameError)
        &&& post.pending() == k
        &&& post.offset() == off
    }
}

/// The sum of a list of sizes.
pub open spec fn sum_of(sizes: Seq<int>) -> int
    decreases sizes.len(),
{
    if sizes.len() == 0 {
        0
    } else {
        sizes[0] + sum_of(sizes.skip(1))
    }
}

/// The frames sliced out of `c` at the running offsets that start at
/// `off` and advance by one listed size per frame.
pub open spec fn slice_frames(c: Seq<u8>, sizes: Seq<int>, off: int) -> Seq<Seq<u8>>
    decreases sizes.len(),
{
    if sizes.len() == 0 {
        Seq::empty()
    } else {
        seq![c.subrange(off, off + sizes[0])] + slice_frames(c, sizes.skip(1), off + sizes[0])
    }
}

/// All the frames of one chunk, in index order.
pub open spec fn frames_of(chunk: Seq<u8>) -> Seq<Seq<u8>> {
    slice_frames(chunk, frame_sizes_of(chunk), 0)
}

/// One buffer holding a run of frames, in order.
pub open spec fn concat_frames(frames: Seq<Seq<u8>>) -> Seq<u8>
    decreases frames.len(),
{
    if frames.len() == 0 {
        Seq::empty()
    } else {
        frames[0] + concat_frames(frames.skip(1))
    }
}

/// A sum of nonnegative sizes is nonnegative.
pub proof fn lemma_sum_of_nonneg(sizes: Seq<int>)
    requires
        forall|i: int| 0 <= i < sizes.len() ==> sizes[i] >= 0,
    ensures
        sum_of(sizes) >= 0,
    decreases sizes.len(),
{
    if sizes.len() > 0 {
        lemma_sum_of_nonneg(sizes.skip(1));
    }
}

/// Concatenating the frames sliced at running offsets gives back the
/// sliced region of the chunk in one piece.
pub proof fn lemma_concat_slice_frames(c: Seq<u8>, sizes: Seq<int>, off: int)
    requires
        0 <= off,
        forall|i: int| 0 <= i < sizes.len() ==> sizes[i] >= 0,
        off + sum_of(sizes) <= c.len(),
    ensures
        concat_frames(slice_frames(c, sizes, off)) =~= c.subrange(off, off + sum_of(sizes)),
    decreases sizes.len(),
{
    if sizes.len() == 0 {
        assert(c.subrange(off, off) =~= Seq::<u8>::empty());
    } else {
        let sz0 = sizes[0];
        lemma_sum_of_nonneg(sizes.skip(1));
        lemma_concat_slice_frames(c, sizes.skip(1), off + sz0);
        let frames = slice_frames(c, sizes, off);
        assert(frames[0] == c.subrange(off, off + sz0));
        assert(frames.skip(1) =~= slice_frames(c, sizes.skip(1), off + sz0));
        assert(concat_frames(frames) == frames[0] + concat_frames(frames.skip(1)));
        assert(c.subrange(off, off + sz0) + c.subrange(off + sz0, off + sum_of(sizes))
            =~= c.subrange(off, off + sum_of(sizes)));
    }
}

/// Round trip: when the listed frame sizes cover the chunk exactly,
/// concatenating all the frames produced from the chunk, in order,
/// reproduces the chunk byte for byte. A superframe whose sizes sum to
/// the whole chunk length, and any chunk that is not a superframe, both
/// satisfy the premise.
pub proof fn lemma_chunk_round_trip(chunk: Seq<u8>)
    requires
        sum_of(frame_sizes_of(chunk)) == chunk.len(),
    ensures
        concat_frames(frames_of(chunk)) =~= chunk,
{
    assert(forall|i: int|
        0 <= i < frame_sizes_of(chunk).len() ==> frame_sizes_of(chunk)[i] >= 0);
    lemma_concat_slice_frames(chunk, frame_sizes_of(chunk), 0);
    assert(chunk.subrange(0, chunk.len() as int) =~= chunk);
}

/// A chunk whose last byte does not carry the superframe marker is a
/// single frame: the whole chunk, and nothing else.
pub proof fn lemma_unmarked_chunk_is_single_frame(chunk: Seq<u8>)
    requires
        chunk.len() >= 1,
        marker_bits(chunk.last()) != SUPERFRAME_MARKER,
    ensures
        frame_sizes_of(chunk) =~= seq![chunk.len() as int],
        frames_of(chunk) =~= seq![chunk],
{
    lemma_single_size_single_frame(chunk);
}

/// A chunk whose marker matches but whose duplicate marker byte differs
/// from its last byte is likewise a single frame, not a split.
pub proof fn lemma_duplicate_mismatch_is_single_frame(chunk: Seq<u8>)
    requires
        has_marker(chunk),
        index_fits(chunk),
        chunk[index_offset(chunk)] != chunk.last(),
    ensures
        frame_sizes_of(chunk) =~= seq![chunk.len() as int],
        frames_of(chunk) =~= seq![chunk],
{
    lemma_single_size_single_frame(chunk);
}

/// A chunk whose size list is the whole chunk slices to the chunk
/// itself, alone.
proof fn lemma_single_size_single_frame(chunk: Seq<u8>)
    requires
        !is_superframe(chunk),
    ensures
        frames_of(chunk) =~= seq![chunk],
{
    let zs = frame_sizes_of(chunk);
    assert(zs.skip(1).len() == 0);
    assert(slice_frames(chunk, zs.skip(1), chunk.len() as int) =~= Seq::<Seq<u8>>::empty());
    assert(chunk.subrange(0, chunk.len() as int) =~= chunk);
    assert(frames_of(chunk)[0] == chunk);
}

/// A frame count decoded from the marker byte's 3 bits lies between 1
/// and the superframe maximum: the count bound the parser enforces can
/// never be exceeded by a decoded value.
pub proof fn lemma_frame_count_bounded(b: u8)
    ensures
        1 <= frame_count(b) <= MAX_FRAMES_IN_SUPERFRAME,
{
}

/// The full step relation of `Vp9SuperframeParser::next`.
///
/// With frames pending, one is sliced from the current chunk. With an
/// empty cursor, the next record's payload (if any) is parsed and its
/// first frame sliced at once; when no record remains the sequence ends
/// cleanly with everything unchanged, and a payload whose index is
/// malformed reports `MalformedSuperframeError` with the chunk consumed
/// and nothing yielded from it.
pub open spec fn next_post(
    pre: Vp9SuperframeParser,
    post: Vp9SuperframeParser,
    r: Result<Option<Vec<u8>>, StreamError>,
) -> bool {
    if pre.pending() > 0 {
        &&& post.pos() == pre.pos()
        &&& post.chunk() == pre.chunk()
        &&& post.sizes() == pre.sizes()
        &&& slice_post(pre.chunk(), pre.sizes(), pre.pending(), pre.offset(), post, r)
    } else if !has_record(pre.stream(), pre.pos()) {
        &&& (r matches Ok(frame) && frame is None)
        &&& post.pos() == pre.pos()
        &&& post.chunk() == pre.chunk()
        &&& post.sizes() == pre.sizes()
        &&& post.pending() == pre.pending()
        &&& post.offset() == pre.offset()
    } else {
        let c = record_payload(pre.stream(), pre.pos());
        &&& post.pos() == record_end(pre.stream(), pre.pos())
        &&& if malformed_index(c) {
            &&& r == Err::<Option<Vec<u8>>, StreamError>(StreamError::MalformedSuperframeError)
            &&& post.chunk() == pre.chunk()
            &&& post.sizes() == pre.sizes()
            &&& post.pending() == pre.pending()
            &&& post.offset() == pre.offset()
        } else {
            &&& post.chunk() == c
            &&& post.sizes() =~= frame_sizes_of(c)
            &&& slice_post(c, frame_sizes_of(c), frame_sizes_of(c).len() as int, 0, post, r)
        }
    }
}

} // verus!
