//! The rules of the firmware update: which image goes to which slot, what a
//! response to each request must echo, and how an image is cut into chunks.

use vstd::prelude::*;
use crate::wire::firmware::{
    SegmentIdentifier, UpdatePrepareResponse, WriteChunkResponse, RESULT_SUCCESS,
};

verus! {

/// One of the two firmware regions that are updated independently.
#[derive(Clone, Copy, Debug, PartialEq, Eq, Structural)]
pub enum Region {
    Ro,
    Rw,
}

/// One of the two copies of a region.
#[derive(Clone, Copy, Debug, PartialEq, Eq, Structural)]
pub enum Slot {
    A,
    B,
}

/// Why an update was abandoned.
#[derive(Clone, Copy, Debug, PartialEq, Eq, Structural)]
pub enum UpdateError {
    /// The device named an inactive slot that is none of the region's two.
    UnexpectedSegment { segment: SegmentIdentifier },
    /// The image is longer than the slot it is meant for.
    ImageTooLarge { segment: SegmentIdentifier, len: usize, capacity: u32 },
    /// A response echoed another slot than the request named.
    SegmentMismatch { expected_segment: SegmentIdentifier, actual_segment: SegmentIdentifier },
    /// A chunk-write response echoed another offset than the request named.
    OffsetMismatch { expected_offset: u32, actual_offset: u32 },
    /// The device refused to prepare the update, with this result code.
    PrepareRejected { result: u8 },
    /// The device refused a chunk, with this result code.
    WriteRejected { result: u8 },
    /// The device offered chunks of length zero, with which no image can be sent.
    ZeroChunkLength,
}

/// The progress of one transfer: the slot written to, the longest chunk that
/// the device takes, and the offset of the next byte to send.
#[derive(Clone, Copy, Debug, PartialEq, Eq, Structural)]
pub struct UpdateSession {
    pub segment: SegmentIdentifier,
    pub max_chunk_length: u16,
    pub cursor: u32,
}

/// The copy of `region` that `identifier` names, where it names one of them.
pub open spec fn slot_of_spec(region: Region, identifier: SegmentIdentifier) -> Result<
    Slot,
    UpdateError,
> {
    match (region, identifier) {
        (Region::Ro, SegmentIdentifier::RoA) => Ok(Slot::A),
        (Region::Ro, SegmentIdentifier::RoB) => Ok(Slot::B),
        (Region::Rw, SegmentIdentifier::RwA) => Ok(Slot::A),
        (Region::Rw, SegmentIdentifier::RwB) => Ok(Slot::B),
        _ => Err(UpdateError::UnexpectedSegment { segment: identifier }),
    }
}

/// What the response to an update-prepare request for `segment` is worth:
/// the longest chunk that the device takes, if the response echoes the slot
/// and reports success. The slot is looked at first.
pub open spec fn check_prepare_spec(segment: SegmentIdentifier, response: UpdatePrepareResponse)
    -> Result<u16, UpdateError> {
    if response.segment != segment {
        Err(
            UpdateError::SegmentMismatch {
                expected_segment: segment,
                actual_segment: response.segment,
            },
        )
    } else if response.result != RESULT_SUCCESS {
        Err(UpdateError::PrepareRejected { result: response.result })
    } else {
        Ok(response.max_chunk_length)
    }
}

/// Whether the response to a chunk written to `segment` at `offset` echoes
/// slot and offset and reports success. The fields are looked at in this
/// order, and the first that differs is named.
pub open spec fn check_chunk_spec(
    segment: SegmentIdentifier,
    offset: u32,
    response: WriteChunkResponse,
) -> Result<(), UpdateError> {
    if response.segment != segment {
        Err(
            UpdateError::SegmentMismatch {
                expected_segment: segment,
                actual_segment: response.segment,
            },
        )
    } else if response.offset != offset {
        Err(UpdateError::OffsetMismatch { expected_offset: offset, actual_offset: response.offset })
    } else if response.result != RESULT_SUCCESS {
        Err(UpdateError::WriteRejected { result: response.result })
    } else {
        Ok(())
    }
}

/// The number of chunks in which an image of `len` bytes is sent when no
/// chunk may be longer than `max_chunk`: `len / max_chunk`, rounded up.
pub open spec fn chunk_count(len: nat, max_chunk: nat) -> nat
    recommends
        max_chunk > 0,
{
    if len == 0 {
        0
    } else {
        ((len - 1) / (max_chunk as int) + 1) as nat
    }
}

/// The offset at which chunk number `index` starts.
pub open spec fn chunk_offset(max_chunk: nat, index: nat) -> nat {
    index * max_chunk
}

/// The length of chunk number `index`: `max_chunk`, or what is left of the
/// image where that is less.
pub open spec fn chunk_len(len: nat, max_chunk: nat, index: nat) -> nat
    recommends
        index * max_chunk < len,
{
    if len - index * max_chunk < max_chunk {
        (len - index * max_chunk) as nat
    } else {
        max_chunk
    }
}

/// The bytes of `image` that chunk number `index` carries.
pub open spec fn chunk_bytes(image: Seq<u8>, max_chunk: nat, index: nat) -> Seq<u8>
    recommends
        index * max_chunk < image.len(),
{
    image.subrange(
        chunk_offset(max_chunk, index) as int,
        (chunk_offset(max_chunk, index) + chunk_len(image.len(), max_chunk, index)) as int,
    )
}

/// The bytes that the first `count` chunks of `image` carry, in order.
pub open spec fn chunks_joined(image: Seq<u8>, max_chunk: nat, count: nat) -> Seq<u8>
    decreases count,
{
    if count == 0 {
        Seq::empty()
    } else {
        chunks_joined(image, max_chunk, (count - 1) as nat) + chunk_bytes(
            image,
            max_chunk,
            (count - 1) as nat,
        )
    }
}

/// Picks the copy of `region` that the device named as inactive.
pub fn slot_of(region: Region, identifier: SegmentIdentifier) -> (r: Result<Slot, UpdateError>)
    ensures
        r == slot_of_spec(region, identifier),
{
    match (region, identifier) {
        (Region::Ro, SegmentIdentifier::RoA) => Ok(Slot::A),
        (Region::Ro, SegmentIdentifier::RoB) => Ok(Slot::B),
        (Region::Rw, SegmentIdentifier::RwA) => Ok(Slot::A),
        (Region::Rw, SegmentIdentifier::RwB) => Ok(Slot::B),
        _ => Err(UpdateError::UnexpectedSegment { segment: identifier }),
    }
}

/// Judges the response to an update-prepare request for `segment`.
pub fn check_prepare(segment: SegmentIdentifier, response: &UpdatePrepareResponse) -> (r: Result<
    u16,
    UpdateError,
>)
    ensures
        r == check_prepare_spec(segment, *response),
{
    if response.segment != segment {
        Err(
            UpdateError::SegmentMismatch {
                expected_segment: segment,
                actual_segment: response.segment,
            },
        )
    } else if response.result != RESULT_SUCCESS {
        Err(UpdateError::PrepareRejected { result: response.result })
    } else {
        Ok(response.max_chunk_length)
    }
}

/// Judges the response to a chunk written to `segment` at `offset`.
pub fn check_chunk(segment: SegmentIdentifier, offset: u32, response: &WriteChunkResponse) -> (r:
    Result<(), UpdateError>)
    ensures
        r == check_chunk_spec(segment, offset, *response),
{
    if response.segment != segment {
        Err(
            UpdateError::SegmentMismatch {
                expected_segment: segment,
                actual_segment: response.segment,
            },
        )
    } else if response.offset != offset {
        Err(UpdateError::OffsetMismatch { expected_offset: offset, actual_offset: response.offset })
    } else if response.result != RESULT_SUCCESS {
        Err(UpdateError::WriteRejected { result: response.result })
    } else {
        Ok(())
    }
}

/// Checks that an image of `len` bytes fits the slot `segment` of `capacity` bytes.
pub fn check_capacity(segment: SegmentIdentifier, capacity: u32, len: usize) -> (r: Result<
    (),
    UpdateError,
>)
    ensures
        len <= capacity ==> r is Ok,
        len > capacity ==> r == Err::<(), UpdateError>(
            UpdateError::ImageTooLarge { segment, len, capacity },
        ),
{
    if len > capacity as usize {
        Err(UpdateError::ImageTooLarge { segment, len, capacity })
    } else {
        Ok(())
    }
}

/// The number of chunks in which an image of `len` bytes is sent.
pub fn count_chunks(len: u32, max_chunk: u16) -> (count: u32)
    requires
        max_chunk > 0,
    ensures
        count == chunk_count(len as nat, max_chunk as nat),
{
    if len == 0 {
        0
    } else {
        (len - 1) / (max_chunk as u32) + 1
    }
}

impl UpdateSession {
    /// A transfer to `segment` that has sent nothing yet.
    pub fn new(segment: SegmentIdentifier, max_chunk_length: u16) -> (session: UpdateSession)
        ensures
            session == (UpdateSession { segment, max_chunk_length, cursor: 0 }),
    {
        UpdateSession { segment, max_chunk_length, cursor: 0 }
    }

    /// The length of the next chunk of an image of `len` bytes: the longest
    /// that the device takes, or what is left of the image where that is
    /// less; zero only where nothing is left.
    pub fn next_chunk_len(&self, len: u32) -> (n: u16)
        requires
            self.cursor <= len,
        ensures
            n as int == if len - self.cursor < self.max_chunk_length {
                len - self.cursor
            } else {
                self.max_chunk_length as int
            },
    {
        let left = len - self.cursor;
        if left < self.max_chunk_length as u32 {
            left as u16
        } else {
            self.max_chunk_length
        }
    }

    /// Moves the cursor past a chunk of `n` bytes that the device took.
    pub fn advance(&mut self, n: u16)
        requires
            old(self).cursor + n <= u32::MAX,
        ensures
            final(self).segment == old(self).segment,
            final(self).max_chunk_length == old(self).max_chunk_length,
            final(self).cursor == old(self).cursor + n,
    {
        self.cursor = self.cursor + n as u32;
    }
}

/// A response to an update-prepare request is accepted exactly if it
/// echoes the slot and reports success; what is accepted gives the chunk
/// length that the response carries.
pub proof fn lemma_prepare_accepted(segment: SegmentIdentifier, response: UpdatePrepareResponse)
    ensures
        check_prepare_spec(segment, response) is Ok <==> response.segment == segment
            && response.result == RESULT_SUCCESS,
        check_prepare_spec(segment, response) matches Ok(max_chunk) ==> max_chunk
            == response.max_chunk_length,
{
}

/// A response to a chunk write is accepted exactly if it echoes slot and
/// offset and reports success.
pub proof fn lemma_chunk_accepted(
    segment: SegmentIdentifier,
    offset: u32,
    response: WriteChunkResponse,
)
    ensures
        check_chunk_spec(segment, offset, response) is Ok <==> response.segment == segment
            && response.offset == offset && response.result == RESULT_SUCCESS,
{
}

/// While chunk number `index` starts inside the image, it is one of the
/// image's chunks, it is not empty and no longer than `max_chunk`, and the
/// next chunk starts where it ends, or the image ends there.
pub proof fn lemma_chunk_bounds(len: nat, max_chunk: nat, index: nat)
    requires
        max_chunk > 0,
        index * max_chunk < len,
    ensures
        index < chunk_count(len, max_chunk),
        0 < chunk_len(len, max_chunk, index) <= max_chunk,
        index * max_chunk + chunk_len(len, max_chunk, index) <= len,
        (index + 1) * max_chunk == index * max_chunk + max_chunk,
        index + 1 < chunk_count(len, max_chunk) ==> chunk_len(len, max_chunk, index) == max_chunk,
        index + 1 == chunk_count(len, max_chunk) ==> index * max_chunk + chunk_len(
            len,
            max_chunk,
            index,
        ) == len,
{
    let count = chunk_count(len, max_chunk);
    let q = (len - 1) / (max_chunk as int);
    assert(q * max_chunk <= len - 1 < q * max_chunk + max_chunk && (index + 1) * max_chunk == index
        * max_chunk + max_chunk) by (nonlinear_arith)
        requires
            q == (len - 1) / (max_chunk as int),
            max_chunk > 0,
            len >= 1,
    ;
    assert(index <= q) by (nonlinear_arith)
        requires
            index * max_chunk <= len - 1,
            len - 1 < q * max_chunk + max_chunk,
            max_chunk > 0,
    ;
    if index < q {
        assert((index + 1) * max_chunk <= q * max_chunk) by (nonlinear_arith)
            requires
                index + 1 <= q,
                max_chunk > 0,
        ;
    }
}

/// Once `index` chunks reach the end of the image, `index` is at least the
/// number of chunks.
pub proof fn lemma_chunk_count_reached(len: nat, max_chunk: nat, index: nat)
    requires
        max_chunk > 0,
        index * max_chunk >= len,
    ensures
        index >= chunk_count(len, max_chunk),
{
    if len > 0 {
        let q = (len - 1) / (max_chunk as int);
        assert(q * max_chunk <= len - 1) by (nonlinear_arith)
            requires
                q == (len - 1) / (max_chunk as int),
                max_chunk > 0,
                len >= 1,
        ;
        assert(q < index) by (nonlinear_arith)
            requires
                q * max_chunk <= len - 1,
                index * max_chunk >= len,
                max_chunk > 0,
        ;
    }
}

/// The chunks partition the image. An image of `len` bytes, sent in chunks
/// of up to `max_chunk` bytes, goes out in `len / max_chunk` chunks,
/// rounded up. Chunk number `index` starts at `index * max_chunk`; none is
/// empty, none is longer than `max_chunk`, all but the last have that
/// length, each starts where the one before it ends, the first starts at
/// zero and the last ends where the image ends.
pub proof fn lemma_chunks_partition(len: nat, max_chunk: nat)
    requires
        max_chunk > 0,
    ensures
        chunk_count(len, max_chunk) * max_chunk >= len,
        len > 0 ==> (chunk_count(len, max_chunk) - 1) * max_chunk < len,
        chunk_offset(max_chunk, 0) == 0,
        forall|index: nat|
            index < chunk_count(len, max_chunk) ==> {
                &&& 0 < #[trigger] chunk_len(len, max_chunk, index) <= max_chunk
                &&& index + 1 < chunk_count(len, max_chunk) ==> chunk_len(len, max_chunk, index)
                    == max_chunk
                &&& index + 1 < chunk_count(len, max_chunk) ==> chunk_offset(max_chunk, index)
                    + chunk_len(len, max_chunk, index) == chunk_offset(max_chunk, index + 1)
                &&& index + 1 == chunk_count(len, max_chunk) ==> chunk_offset(max_chunk, index)
                    + chunk_len(len, max_chunk, index) == len
            },
{
    let count = chunk_count(len, max_chunk);
    if len > 0 {
        let q = (len - 1) / (max_chunk as int);
        assert(q * max_chunk <= len - 1 < q * max_chunk + max_chunk && (q + 1) * max_chunk == q
            * max_chunk + max_chunk) by (nonlinear_arith)
            requires
                q == (len - 1) / (max_chunk as int),
                max_chunk > 0,
                len >= 1,
        ;
    } else {
        assert(0 * max_chunk == 0) by (nonlinear_arith);
    }
    assert(0 * max_chunk == 0) by (nonlinear_arith);
    assert forall|index: nat| index < count implies {
        &&& 0 < #[trigger] chunk_len(len, max_chunk, index) <= max_chunk
        &&& index + 1 < count ==> chunk_len(len, max_chunk, index) == max_chunk
        &&& index + 1 < count ==> chunk_offset(max_chunk, index) + chunk_len(len, max_chunk, index)
            == chunk_offset(max_chunk, index + 1)
        &&& index + 1 == count ==> chunk_offset(max_chunk, index) + chunk_len(
            len,
            max_chunk,
            index,
        ) == len
    } by {
        let q = (len - 1) / (max_chunk as int);
        assert(q * max_chunk <= len - 1) by (nonlinear_arith)
            requires
                q == (len - 1) / (max_chunk as int),
                max_chunk > 0,
                len >= 1,
        ;
        assert(index * max_chunk <= q * max_chunk) by (nonlinear_arith)
            requires
                index <= q,
                max_chunk > 0,
        ;
        lemma_chunk_bounds(len, max_chunk, index);
    }
}

/// The chunks carry the image, each byte once and in order: the first
/// `count` chunks carry the image's bytes up to where chunk number `count`
/// starts, and all chunks together carry the image.
pub proof fn lemma_chunks_carry_image(image: Seq<u8>, max_chunk: nat, count: nat)
    requires
        max_chunk > 0,
        count <= chunk_count(image.len(), max_chunk),
    ensures
        count < chunk_count(image.len(), max_chunk) ==> chunks_joined(image, max_chunk, count)
            == image.take(chunk_offset(max_chunk, count) as int),
        count == chunk_count(image.len(), max_chunk) ==> chunks_joined(image, max_chunk, count)
            == image,
    decreases count,
{
    let total = chunk_count(image.len(), max_chunk);
    if count == 0 {
        assert(0 * max_chunk == 0) by (nonlinear_arith);
        assert(chunks_joined(image, max_chunk, 0) =~= image.take(0));
        if total == 0 {
            assert(image =~= Seq::<u8>::empty());
        }
    } else {
        let index = (count - 1) as nat;
        lemma_chunks_carry_image(image, max_chunk, index);
        lemma_chunks_partition(image.len(), max_chunk);
        let start = chunk_offset(max_chunk, index);
        let n = chunk_len(image.len(), max_chunk, index);
        assert(start + n <= image.len()) by {
            if index + 1 < total {
                assert((total - 1) * max_chunk < image.len());
                assert((index + 1) * max_chunk <= (total - 1) * max_chunk) by (nonlinear_arith)
                    requires
                        index + 1 <= total - 1,
                        max_chunk > 0,
                ;
            }
        }
        assert(chunks_joined(image, max_chunk, count) =~= image.take((start + n) as int));
        if count == total {
            assert(image.take((start + n) as int) =~= image);
        }
    }
}

} // verus!
