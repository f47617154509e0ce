//! The firmware update: discovery of the inactive slot, negotiation of the
//! chunk length, and the transfer of the image chunk by chunk. Whatever
//! fails, the workflow stops there: nothing is sent after a response that
//! was not accepted.

use vstd::prelude::*;
use crate::bytes::copy_range;
use crate::device::{exchange_spec, firmware_frame, firmware_reply, Device, Failure, Transfer};
use crate::spi::Interface;
use crate::update::{
    check_capacity, check_chunk, check_chunk_spec, check_prepare, check_prepare_spec, chunk_bytes,
    chunk_count, chunk_len, chunk_offset, lemma_chunk_bounds, lemma_chunk_count_reached, slot_of,
    slot_of_spec, Region, Slot, UpdateError, UpdateSession,
};
use crate::wire::firmware::{
    InactiveSegmentsInfoRequest, InactiveSegmentsInfoResponse, SegmentIdentifier, SegmentInfo,
    UpdatePrepareRequest, UpdatePrepareResponse, WriteChunk, WriteChunkRequest,
    WriteChunkResponse,
};

verus! {

/// What a window holds, taken as the answer to a discovery of the inactive
/// slot of `region`.
pub open spec fn inactive_reply(region: Region, window: Seq<u8>) -> Result<SegmentInfo, Failure> {
    match firmware_reply::<InactiveSegmentsInfoResponse>(window) {
        Ok(response) => Ok(
            match region {
                Region::Ro => response.ro,
                Region::Rw => response.rw,
            },
        ),
        Err(f) => Err(f),
    }
}

/// What a window holds, taken as the answer to an update-prepare request
/// for `segment`: the longest chunk that the device takes.
pub open spec fn prepare_reply(segment: SegmentIdentifier, window: Seq<u8>) -> Result<
    u16,
    Failure,
> {
    match firmware_reply::<UpdatePrepareResponse>(window) {
        Ok(response) => match check_prepare_spec(segment, response) {
            Ok(max_chunk) => Ok(max_chunk),
            Err(e) => Err(Failure::Update(e)),
        },
        Err(f) => Err(f),
    }
}

/// What a window holds, taken as the answer to a chunk written to `segment`
/// at `offset`.
pub open spec fn chunk_reply(segment: SegmentIdentifier, offset: u32, window: Seq<u8>) -> Result<
    (),
    Failure,
> {
    match firmware_reply::<WriteChunkResponse>(window) {
        Ok(response) => match check_chunk_spec(segment, offset, response) {
            Ok(()) => Ok(()),
            Err(e) => Err(Failure::Update(e)),
        },
        Err(f) => Err(f),
    }
}

/// The request that carries chunk number `index` of `image`.
pub open spec fn chunk_request(
    segment: SegmentIdentifier,
    image: Seq<u8>,
    max_chunk: u16,
    index: nat,
) -> WriteChunk {
    WriteChunk {
        segment,
        offset: chunk_offset(max_chunk as nat, index) as u32,
        data: chunk_bytes(image, max_chunk as nat, index),
    }
}

/// In `log`, the two entries from `base + 2 * index` on are the exchange of
/// chunk number `index` through the mailbox at `address`: its frame was
/// sent, and the window received for it was accepted.
pub open spec fn chunk_exchanged(
    address: u32,
    segment: SegmentIdentifier,
    image: Seq<u8>,
    max_chunk: u16,
    log: Seq<Transfer>,
    base: nat,
    index: nat,
) -> bool {
    let request = chunk_request(segment, image, max_chunk, index);
    &&& base + 2 * index + 2 <= log.len()
    &&& firmware_frame::<WriteChunkRequest>(request) matches Some(frame) && log[(base + 2
        * index) as int] == Transfer::Sent(address, frame)
    &&& log[(base + 2 * index + 1) as int] matches Transfer::Received(_, window) && chunk_reply(
        segment,
        request.offset,
        window,
    ) is Ok
}

/// From `base` on, `log` holds the exchanges of the first `count` chunks,
/// in order and each accepted.
pub open spec fn chunks_written(
    address: u32,
    segment: SegmentIdentifier,
    image: Seq<u8>,
    max_chunk: u16,
    log: Seq<Transfer>,
    base: nat,
    count: nat,
) -> bool {
    forall|index: nat|
        index < count ==> #[trigger] chunk_exchanged(
            address,
            segment,
            image,
            max_chunk,
            log,
            base,
            index,
        )
}

/// `log` ends with the exchange of chunk number `index`, which failed with `f`.
pub open spec fn stopped_at(
    address: u32,
    segment: SegmentIdentifier,
    image: Seq<u8>,
    max_chunk: u16,
    log: Seq<Transfer>,
    base: nat,
    index: nat,
    f: Failure,
) -> bool {
    let request = chunk_request(segment, image, max_chunk, index);
    &&& base + 2 * index <= log.len()
    &&& exchange_spec(
        log.take((base + 2 * index) as int),
        log,
        address,
        firmware_frame::<WriteChunkRequest>(request),
        |window: Seq<u8>| chunk_reply(segment, request.offset, window),
        Err::<(), Failure>(f),
    )
}

/// The transfer of `image` in chunks of up to `max_chunk` bytes, as it
/// shows in the log and in its result: the log grows by the exchanges of
/// the chunks, in order. With `Ok` all chunks were exchanged and the result
/// is their number; with `Err` the log ends with the exchange that failed,
/// all before it were accepted, and the result is that failure.
pub open spec fn transfer_spec(
    address: u32,
    segment: SegmentIdentifier,
    image: Seq<u8>,
    max_chunk: u16,
    before: Seq<Transfer>,
    after: Seq<Transfer>,
    r: Result<u32, Failure>,
) -> bool {
    let count = chunk_count(image.len(), max_chunk as nat);
    &&& before.len() <= after.len()
    &&& after.take(before.len() as int) == before
    &&& match r {
        Ok(written) => {
            &&& written == count
            &&& after.len() == before.len() + 2 * count
            &&& chunks_written(address, segment, image, max_chunk, after, before.len(), count)
        },
        Err(f) => exists|index: nat|
            {
                &&& index < count
                &&& chunks_written(address, segment, image, max_chunk, after, before.len(), index)
                &&& #[trigger] stopped_at(
                    address,
                    segment,
                    image,
                    max_chunk,
                    after,
                    before.len(),
                    index,
                    f,
                )
            },
    }
}

/// Writing `image` to the slot `segment` once the device has offered chunks
/// of up to `max_chunk` bytes. An image longer than the slot is refused,
/// and so is a chunk length of zero for an image that is not empty; both
/// before anything is sent. Else the image is transferred.
pub open spec fn write_image_spec(
    address: u32,
    segment: SegmentInfo,
    max_chunk: u16,
    image: Seq<u8>,
    before: Seq<Transfer>,
    after: Seq<Transfer>,
    r: Result<u32, Failure>,
) -> bool {
    if image.len() > segment.size {
        after == before && r == Err::<u32, Failure>(
            Failure::Update(
                UpdateError::ImageTooLarge {
                    segment: segment.identifier,
                    len: image.len() as usize,
                    capacity: segment.size,
                },
            ),
        )
    } else if image.len() > 0 && max_chunk == 0 {
        after == before && r == Err::<u32, Failure>(Failure::Update(UpdateError::ZeroChunkLength))
    } else {
        transfer_spec(address, segment.identifier, image, max_chunk, before, after, r)
    }
}

/// The update-prepare exchange for `segment`, through the mailbox at
/// `address`, took the log from `before` to `after` and gave `r`.
pub open spec fn prepared(
    address: u32,
    segment: SegmentIdentifier,
    before: Seq<Transfer>,
    after: Seq<Transfer>,
    r: Result<u16, Failure>,
) -> bool {
    exchange_spec(
        before,
        after,
        address,
        firmware_frame::<UpdatePrepareRequest>(UpdatePrepareRequest { segment }),
        |window: Seq<u8>| prepare_reply(segment, window),
        r,
    )
}

/// The discovery of the inactive slot of `region`, through the mailbox at
/// `address`, took the log from `before` to `after` and gave `r`.
pub open spec fn discovered(
    address: u32,
    region: Region,
    before: Seq<Transfer>,
    after: Seq<Transfer>,
    r: Result<SegmentInfo, Failure>,
) -> bool {
    exchange_spec(
        before,
        after,
        address,
        firmware_frame::<InactiveSegmentsInfoRequest>(InactiveSegmentsInfoRequest {  }),
        |window: Seq<u8>| inactive_reply(region, window),
        r,
    )
}

/// The update of the slot `segment` with `image`: the update-prepare
/// exchange, and, where it is accepted, the writing of the image with the
/// chunk length that it gave. A failure of the first ends the update.
pub open spec fn fw_update_spec(
    address: u32,
    segment: SegmentInfo,
    image: Seq<u8>,
    before: Seq<Transfer>,
    after: Seq<Transfer>,
    r: Result<u32, Failure>,
) -> bool {
    exists|mid: Seq<Transfer>, step: Result<u16, Failure>|
        {
            &&& #[trigger] prepared(address, segment.identifier, before, mid, step)
            &&& match step {
                Err(f) => after == mid && r == Err::<u32, Failure>(f),
                Ok(max_chunk) => write_image_spec(
                    address,
                    segment,
                    max_chunk,
                    image,
                    mid,
                    after,
                    r,
                ),
            }
        }
}

/// The update of `region`: the discovery of its inactive slot, the choice
/// between the image for copy A and the one for copy B, and the update of
/// that slot with the image chosen. A failure of the discovery ends the
/// update, and so does a slot that is none of the region's.
pub open spec fn region_update_spec(
    address: u32,
    region: Region,
    image_a: Seq<u8>,
    image_b: Seq<u8>,
    before: Seq<Transfer>,
    after: Seq<Transfer>,
    r: Result<u32, Failure>,
) -> bool {
    exists|mid: Seq<Transfer>, step: Result<SegmentInfo, Failure>|
        {
            &&& #[trigger] discovered(address, region, before, mid, step)
            &&& match step {
                Err(f) => after == mid && r == Err::<u32, Failure>(f),
                Ok(segment) => match slot_of_spec(region, segment.identifier) {
                    Err(e) => after == mid && r == Err::<u32, Failure>(Failure::Update(e)),
                    Ok(Slot::A) => fw_update_spec(address, segment, image_a, mid, after, r),
                    Ok(Slot::B) => fw_update_spec(address, segment, image_b, mid, after, r),
                },
            }
        }
}

/// An exchange only appends to the log: one entry or two, or none where
/// the request was refused.
pub proof fn lemma_exchange_appends<V>(
    before: Seq<Transfer>,
    after: Seq<Transfer>,
    address: u32,
    frame: Option<Seq<u8>>,
    judge: spec_fn(Seq<u8>) -> Result<V, Failure>,
    r: Result<V, Failure>,
)
    requires
        exchange_spec(before, after, address, frame, judge, r),
    ensures
        before.len() <= after.len() <= before.len() + 2,
        after.take(before.len() as int) == before,
        r is Ok ==> after.len() == before.len() + 2,
{
    assert(after.take(before.len() as int) =~= before);
}

/// A response that is not accepted ends the transfer. Where the window
/// received for chunk number `index` is refused, for its slot, its offset,
/// its result code or its framing, the log ends with that window, so no
/// further chunk was sent, and the transfer's result is that refusal.
pub proof fn lemma_refused_response_ends_transfer(
    address: u32,
    segment: SegmentIdentifier,
    image: Seq<u8>,
    max_chunk: u16,
    before: Seq<Transfer>,
    after: Seq<Transfer>,
    r: Result<u32, Failure>,
    index: nat,
)
    requires
        transfer_spec(address, segment, image, max_chunk, before, after, r),
        before.len() + 2 * index + 2 <= after.len(),
        after[(before.len() + 2 * index + 1) as int] matches Transfer::Received(_, window)
            && chunk_reply(
            segment,
            chunk_request(segment, image, max_chunk, index).offset,
            window,
        ) is Err,
    ensures
        after.len() == before.len() + 2 * index + 2,
        after[(before.len() + 2 * index + 1) as int] matches Transfer::Received(_, window) && r
            == Err::<u32, Failure>(
            chunk_reply(
                segment,
                chunk_request(segment, image, max_chunk, index).offset,
                window,
            )->Err_0,
        ),
{
    let base = before.len();
    let count = chunk_count(image.len(), max_chunk as nat);
    match r {
        Ok(written) => {
            assert(chunk_exchanged(address, segment, image, max_chunk, after, base, index));
        },
        Err(f) => {
            let last = choose|last: nat|
                {
                    &&& last < count
                    &&& chunks_written(address, segment, image, max_chunk, after, base, last)
                    &&& #[trigger] stopped_at(
                        address,
                        segment,
                        image,
                        max_chunk,
                        after,
                        base,
                        last,
                        f,
                    )
                };
            if index < last {
                assert(chunk_exchanged(address, segment, image, max_chunk, after, base, index));
            }
            let request = chunk_request(segment, image, max_chunk, last);
            lemma_exchange_appends(
                after.take((base + 2 * last) as int),
                after,
                address,
                firmware_frame::<WriteChunkRequest>(request),
                |window: Seq<u8>| chunk_reply(segment, request.offset, window),
                Err::<(), Failure>(f),
            );
        },
    }
}

/// A refused answer to the update-prepare request ends the update: where
/// the window received for it is not accepted, the log ends with that
/// window, so no chunk was sent, and the update's result is that refusal.
pub proof fn lemma_refused_preparation_ends_update(
    address: u32,
    segment: SegmentInfo,
    image: Seq<u8>,
    before: Seq<Transfer>,
    after: Seq<Transfer>,
    r: Result<u32, Failure>,
)
    requires
        fw_update_spec(address, segment, image, before, after, r),
        before.len() + 2 <= after.len(),
        after[before.len() as int + 1] matches Transfer::Received(_, window) && prepare_reply(
            segment.identifier,
            window,
        ) is Err,
    ensures
        after.len() == before.len() + 2,
        after[before.len() as int + 1] matches Transfer::Received(_, window) && r == Err::<
            u32,
            Failure,
        >(prepare_reply(segment.identifier, window)->Err_0),
{
    let (mid, step) = choose|mid: Seq<Transfer>, step: Result<u16, Failure>|
        {
            &&& #[trigger] prepared(address, segment.identifier, before, mid, step)
            &&& match step {
                Err(f) => after == mid && r == Err::<u32, Failure>(f),
                Ok(max_chunk) => write_image_spec(
                    address,
                    segment,
                    max_chunk,
                    image,
                    mid,
                    after,
                    r,
                ),
            }
        };
    if step is Ok {
        assert(after.take(mid.len() as int) == mid);
        assert(after[before.len() as int + 1] == after.take(mid.len() as int)[before.len() as int
            + 1]);
    }
}

/// An image longer than its slot is never sent, not even in part: the
/// update fails, and of the update only the update-prepare exchange shows
/// in the log.
pub proof fn lemma_oversized_image_sends_no_chunk(
    address: u32,
    segment: SegmentInfo,
    image: Seq<u8>,
    before: Seq<Transfer>,
    after: Seq<Transfer>,
    r: Result<u32, Failure>,
)
    requires
        fw_update_spec(address, segment, image, before, after, r),
        image.len() > segment.size,
    ensures
        r is Err,
        exists|step: Result<u16, Failure>| #[trigger]
            prepared(address, segment.identifier, before, after, step),
{
    let (mid, step) = choose|mid: Seq<Transfer>, step: Result<u16, Failure>|
        {
            &&& #[trigger] prepared(address, segment.identifier, before, mid, step)
            &&& match step {
                Err(f) => after == mid && r == Err::<u32, Failure>(f),
                Ok(max_chunk) => write_image_spec(
                    address,
                    segment,
                    max_chunk,
                    image,
                    mid,
                    after,
                    r,
                ),
            }
        };
    assert(after == mid);
    assert(prepared(address, segment.identifier, before, after, step));
}

impl<T: Interface> Device<T> {
    fn firmware_get_inactive(&mut self, region: Region) -> (r: Result<SegmentInfo, Failure>)
        ensures
            final(self).address() == old(self).address(),
            final(self).spi() == old(self).spi(),
            discovered(old(self).address(), region, old(self).log(), final(self).log(), r),
    {
        let request = InactiveSegmentsInfoRequest {  };
        match self.request_firmware::<InactiveSegmentsInfoRequest, InactiveSegmentsInfoResponse>(
            &request,
        ) {
            Ok(response) => Ok(
                match region {
                    Region::Ro => response.ro,
                    Region::Rw => response.rw,
                },
            ),
            Err(f) => Err(f),
        }
    }

    /// Asks the device which slot of RO is inactive, and how large it is.
    pub fn firmware_get_inactive_ro(&mut self) -> (r: Result<SegmentInfo, Failure>)
        ensures
            final(self).address() == old(self).address(),
            final(self).spi() == old(self).spi(),
            discovered(old(self).address(), Region::Ro, old(self).log(), final(self).log(), r),
    {
        self.firmware_get_inactive(Region::Ro)
    }

    /// Asks the device which slot of RW is inactive, and how large it is.
    pub fn firmware_get_inactive_rw(&mut self) -> (r: Result<SegmentInfo, Failure>)
        ensures
            final(self).address() == old(self).address(),
            final(self).spi() == old(self).spi(),
            discovered(old(self).address(), Region::Rw, old(self).log(), final(self).log(), r),
    {
        self.firmware_get_inactive(Region::Rw)
    }

    /// Announces an update of the slot `segment`. The response must echo
    /// the slot and report success; it then gives the longest chunk that
    /// the device takes.
    pub fn firmware_update_prepare(&mut self, segment: SegmentIdentifier) -> (r: Result<
        u16,
        Failure,
    >)
        ensures
            final(self).address() == old(self).address(),
            final(self).spi() == old(self).spi(),
            prepared(old(self).address(), segment, old(self).log(), final(self).log(), r),
    {
        let request = UpdatePrepareRequest { segment };
        match self.request_firmware::<UpdatePrepareRequest, UpdatePrepareResponse>(&request) {
            Ok(response) => match check_prepare(segment, &response) {
                Ok(max_chunk) => Ok(max_chunk),
                Err(e) => Err(Failure::Update(e)),
            },
            Err(f) => Err(f),
        }
    }

    /// Writes one chunk to the slot `segment` at `offset`. The response
    /// must echo slot and offset and report success.
    pub fn firmware_write_chunk(
        &mut self,
        segment: SegmentIdentifier,
        offset: u32,
        data: &[u8],
    ) -> (r: Result<(), Failure>)
        ensures
            final(self).address() == old(self).address(),
            final(self).spi() == old(self).spi(),
            exchange_spec(
                old(self).log(),
                final(self).log(),
                old(self).address(),
                firmware_frame::<WriteChunkRequest>(WriteChunk { segment, offset, data: data@ }),
                |window: Seq<u8>| chunk_reply(segment, offset, window),
                r,
            ),
    {
        let chunk = copy_range(data, 0, data.len());
        assert(chunk@ =~= data@);
        let request = WriteChunkRequest { segment, offset, data: chunk };
        match self.request_firmware::<WriteChunkRequest, WriteChunkResponse>(&request) {
            Ok(response) => match check_chunk(segment, offset, &response) {
                Ok(()) => Ok(()),
                Err(e) => Err(Failure::Update(e)),
            },
            Err(f) => Err(f),
        }
    }

    /// Writes `image` to the slot `segment` in chunks of up to
    /// `max_chunk_length` bytes, and returns the number of chunks written.
    /// The image is checked against the slot's capacity before anything is
    /// sent. Each chunk is as long as the device takes, or as what is left
    /// of the image; the first response that is not accepted ends the
    /// transfer.
    pub fn write_image(&mut self, segment: SegmentInfo, max_chunk_length: u16, image: &[u8]) -> (r:
        Result<u32, Failure>)
        ensures
            final(self).address() == old(self).address(),
            final(self).spi() == old(self).spi(),
            write_image_spec(
                old(self).address(),
                segment,
                max_chunk_length,
                image@,
                old(self).log(),
                final(self).log(),
                r,
            ),
    {
        match check_capacity(segment.identifier, segment.size, image.len()) {
            Ok(()) => {},
            Err(e) => {
                return Err(Failure::Update(e));
            },
        }
        let len: u32 = image.len() as u32;
        if len > 0 && max_chunk_length == 0 {
            return Err(Failure::Update(UpdateError::ZeroChunkLength));
        }
        let ghost before = self.log();
        let ghost base = before.len();
        let ghost total = chunk_count(image@.len(), max_chunk_length as nat);
        let mut session = UpdateSession::new(segment.identifier, max_chunk_length);
        let mut written: u32 = 0;
        assert(self.log().take(base as int) =~= before);
        assert(0 * (max_chunk_length as nat) == 0) by (nonlinear_arith);
        while session.cursor < len
            invariant
                self.address() == old(self).address(),
                self.spi() == old(self).spi(),
                len == image@.len(),
                image@.len() <= segment.size,
                before == old(self).log(),
                base == before.len(),
                total == chunk_count(image@.len(), max_chunk_length as nat),
                session.segment == segment.identifier,
                session.max_chunk_length == max_chunk_length,
                session.cursor <= len,
                session.cursor < len ==> max_chunk_length > 0 && session.cursor == written
                    * max_chunk_length,
                session.cursor == len ==> written == total,
                written <= total,
                self.log().len() == base + 2 * written,
                self.log().take(base as int) == before,
                chunks_written(
                    old(self).address(),
                    segment.identifier,
                    image@,
                    max_chunk_length,
                    self.log(),
                    base,
                    written as nat,
                ),
            decreases len - session.cursor,
        {
            let n = session.next_chunk_len(len);
            let offset = session.cursor;
            let ghost log_before = self.log();
            let ghost index = written as nat;
            let ghost request = chunk_request(segment.identifier, image@, max_chunk_length, index);
            proof {
                lemma_chunk_bounds(len as nat, max_chunk_length as nat, index);
                assert(n == chunk_len(len as nat, max_chunk_length as nat, index));
            }
            let step = self.firmware_write_chunk(
                segment.identifier,
                offset,
                vstd::slice::slice_subrange(image, offset as usize, offset as usize + n as usize),
            );
            proof {
                assert(request == WriteChunk {
                    segment: segment.identifier,
                    offset,
                    data: image@.subrange(offset as int, offset + n),
                });
                lemma_exchange_appends(
                    log_before,
                    self.log(),
                    old(self).address(),
                    firmware_frame::<WriteChunkRequest>(request),
                    |window: Seq<u8>| chunk_reply(segment.identifier, offset, window),
                    step,
                );
                assert(self.log().take(base as int) =~= log_before.take(base as int));
                assert forall|i: nat| i < index implies #[trigger] chunk_exchanged(
                    old(self).address(),
                    segment.identifier,
                    image@,
                    max_chunk_length,
                    self.log(),
                    base,
                    i,
                ) by {
                    assert(chunk_exchanged(
                        old(self).address(),
                        segment.identifier,
                        image@,
                        max_chunk_length,
                        log_before,
                        base,
                        i,
                    ));
                    assert(self.log()[(base + 2 * i) as int] == self.log().take(
                        log_before.len() as int,
                    )[(base + 2 * i) as int]);
                    assert(self.log()[(base + 2 * i + 1) as int] == self.log().take(
                        log_before.len() as int,
                    )[(base + 2 * i + 1) as int]);
                }
            }
            match step {
                Ok(()) => {
                    session.advance(n);
                    written = written + 1;
                    proof {
                        assert(chunk_exchanged(
                            old(self).address(),
                            segment.identifier,
                            image@,
                            max_chunk_length,
                            self.log(),
                            base,
                            index,
                        ));
                        if session.cursor < len {
                            assert(n == max_chunk_length);
                        } else {
                            if index + 1 < total {
                                assert((index + 1) * (max_chunk_length as nat) == len);
                                lemma_chunk_count_reached(
                                    len as nat,
                                    max_chunk_length as nat,
                                    index + 1,
                                );
                            }
                        }
                    }
                },
                Err(f) => {
                    proof {
                        assert(self.log().take((base + 2 * index) as int) == log_before);
                        assert(index < total);
                        assert(stopped_at(
                            old(self).address(),
                            segment.identifier,
                            image@,
                            max_chunk_length,
                            self.log(),
                            base,
                            index,
                            f,
                        ));
                    }
                    return Err(f);
                },
            }
        }
        Ok(written)
    }

    /// Updates the slot `segment` with `image`: prepares the update, then
    /// writes the image with the chunk length that the device gave.
    /// Returns the number of chunks written.
    pub fn fw_update(&mut self, segment: SegmentInfo, image: &[u8]) -> (r: Result<u32, Failure>)
        ensures
            final(self).address() == old(self).address(),
            final(self).spi() == old(self).spi(),
            fw_update_spec(
                old(self).address(),
                segment,
                image@,
                old(self).log(),
                final(self).log(),
                r,
            ),
    {
        let step = self.firmware_update_prepare(segment.identifier);
        let ghost mid = self.log();
        match step {
            Ok(max_chunk_length) => {
                let r = self.write_image(segment, max_chunk_length, image);
                assert(prepared(
                    old(self).address(),
                    segment.identifier,
                    old(self).log(),
                    mid,
                    step,
                ));
                r
            },
            Err(f) => {
                assert(prepared(
                    old(self).address(),
                    segment.identifier,
                    old(self).log(),
                    mid,
                    step,
                ));
                Err(f)
            },
        }
    }

    fn region_update(&mut self, region: Region, image_a: &[u8], image_b: &[u8]) -> (r: Result<
        u32,
        Failure,
    >)
        ensures
            final(self).address() == old(self).address(),
            final(self).spi() == old(self).spi(),
            region_update_spec(
                old(self).address(),
                region,
                image_a@,
                image_b@,
                old(self).log(),
                final(self).log(),
                r,
            ),
    {
        let step = self.firmware_get_inactive(region);
        let ghost mid = self.log();
        assert(discovered(old(self).address(), region, old(self).log(), mid, step));
        match step {
            Ok(segment) => match slot_of(region, segment.identifier) {
                Ok(Slot::A) => self.fw_update(segment, image_a),
                Ok(Slot::B) => self.fw_update(segment, image_b),
                Err(e) => Err(Failure::Update(e)),
            },
            Err(f) => Err(f),
        }
    }

    /// Updates RO: finds its inactive slot and writes to it the image meant
    /// for that slot, `image_a` for copy A and `image_b` for copy B.
    /// Returns the number of chunks written.
    pub fn ro_update(&mut self, image_a: &[u8], image_b: &[u8]) -> (r: Result<u32, Failure>)
        ensures
            final(self).address() == old(self).address(),
            final(self).spi() == old(self).spi(),
            region_update_spec(
                old(self).address(),
                Region::Ro,
                image_a@,
                image_b@,
                old(self).log(),
                final(self).log(),
                r,
            ),
    {
        self.region_update(Region::Ro, image_a, image_b)
    }

    /// Updates RW: finds its inactive slot and writes to it the image meant
    /// for that slot, `image_a` for copy A and `image_b` for copy B.
    /// Returns the number of chunks written.
    pub fn rw_update(&mut self, image_a: &[u8], image_b: &[u8]) -> (r: Result<u32, Failure>)
        ensures
            final(self).address() == old(self).address(),
            final(self).spi() == old(self).spi(),
            region_update_spec(
                old(self).address(),
                Region::Rw,
                image_a@,
                image_b@,
                old(self).log(),
                final(self).log(),
                r,
            ),
    {
        self.region_update(Region::Rw, image_a, image_b)
    }
}

} // verus!
