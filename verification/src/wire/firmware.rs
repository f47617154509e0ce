//! The firmware-control family: discovery of the inactive segments, update
//! negotiation, chunk writes and reboot. The inner header is one byte, the
//! command; a response carries the command of the request it answers.

use vstd::prelude::*;
use crate::bytes::{be32, be32_at, be16_at, copy_range, push_be32, push_bytes, read_be16, read_be32};
use crate::wire::{
    checksum_spec, decode_envelope, encode_envelope, frame_spec, lemma_envelope_round_trip,
    parse_envelope, ContentType, FromWire, Header, ProtocolError, ToWire, HEADER_LEN,
    MAX_CONTENT_LEN, TAG_FIRMWARE,
};

verus! {

/// Command code of the inactive-segments-info exchange.
pub const CMD_INACTIVE_SEGMENTS_INFO: u8 = 0x01;

/// Command code of the update-prepare exchange.
pub const CMD_UPDATE_PREPARE: u8 = 0x02;

/// Command code of the chunk-write exchange.
pub const CMD_WRITE_CHUNK: u8 = 0x03;

/// Command code of the reboot exchange.
pub const CMD_REBOOT: u8 = 0x04;

/// Result code with which the device reports success.
pub const RESULT_SUCCESS: u8 = 0x00;

/// One of the four updatable slots.
#[derive(Clone, Copy, Debug, PartialEq, Eq, Structural)]
pub enum SegmentIdentifier {
    RoA,
    RoB,
    RwA,
    RwB,
}

/// One slot and its capacity in bytes.
#[derive(Clone, Copy, Debug, PartialEq, Eq, Structural)]
pub struct SegmentInfo {
    pub identifier: SegmentIdentifier,
    pub size: u32,
}

/// When the device is to reboot.
#[derive(Clone, Copy, Debug, PartialEq, Eq, Structural)]
pub enum RebootTime {
    Immediate,
    Delayed,
}

impl SegmentIdentifier {
    /// The byte that stands for this slot.
    pub open spec fn code_spec(self) -> u8 {
        match self {
            SegmentIdentifier::RoA => 0x01,
            SegmentIdentifier::RoB => 0x02,
            SegmentIdentifier::RwA => 0x03,
            SegmentIdentifier::RwB => 0x04,
        }
    }

    /// The slot that `code` stands for, if any.
    pub open spec fn from_code_spec(code: u8) -> Option<SegmentIdentifier> {
        if code == 0x01 {
            Some(SegmentIdentifier::RoA)
        } else if code == 0x02 {
            Some(SegmentIdentifier::RoB)
        } else if code == 0x03 {
            Some(SegmentIdentifier::RwA)
        } else if code == 0x04 {
            Some(SegmentIdentifier::RwB)
        } else {
            None
        }
    }

    /// The byte that stands for this slot.
    pub fn code(self) -> (c: u8)
        ensures
            c == self.code_spec(),
    {
        match self {
            SegmentIdentifier::RoA => 0x01,
            SegmentIdentifier::RoB => 0x02,
            SegmentIdentifier::RwA => 0x03,
            SegmentIdentifier::RwB => 0x04,
        }
    }

    /// The slot that `code` stands for, if any.
    pub fn from_code(code: u8) -> (r: Option<SegmentIdentifier>)
        ensures
            r == SegmentIdentifier::from_code_spec(code),
    {
        if code == 0x01 {
            Some(SegmentIdentifier::RoA)
        } else if code == 0x02 {
            Some(SegmentIdentifier::RoB)
        } else if code == 0x03 {
            Some(SegmentIdentifier::RwA)
        } else if code == 0x04 {
            Some(SegmentIdentifier::RwB)
        } else {
            None
        }
    }
}

/// The five bytes of a segment description at `at`: slot, then capacity.
pub open spec fn segment_info_at(data: Seq<u8>, at: int) -> Option<SegmentInfo>
    recommends
        0 <= at,
        at + 5 <= data.len(),
{
    match SegmentIdentifier::from_code_spec(data[at]) {
        Some(identifier) => Some(SegmentInfo { identifier, size: be32_at(data, at + 1) }),
        None => None,
    }
}

fn read_segment_info(data: &[u8], at: usize) -> (r: Option<SegmentInfo>)
    requires
        at + 5 <= data.len(),
    ensures
        r == segment_info_at(data@, at as int),
{
    match SegmentIdentifier::from_code(data[at]) {
        Some(identifier) => Some(SegmentInfo { identifier, size: read_be32(data, at + 1) }),
        None => None,
    }
}

/// A message of this family: it knows its command code.
pub trait Message {
    /// The command code in the inner header of this message.
    spec fn command_spec() -> u8;

    /// The command code in the inner header of this message.
    fn command() -> (c: u8)
        ensures
            c == Self::command_spec(),
    ;
}

/// Asks which slot of RO and which of RW is inactive.
#[derive(Clone, Copy, Debug, PartialEq, Eq, Structural)]
pub struct InactiveSegmentsInfoRequest {}

/// Names the inactive slot of RO and of RW, each with its capacity.
#[derive(Clone, Copy, Debug, PartialEq, Eq, Structural)]
pub struct InactiveSegmentsInfoResponse {
    pub ro: SegmentInfo,
    pub rw: SegmentInfo,
}

/// Announces an update of one slot.
#[derive(Clone, Copy, Debug, PartialEq, Eq, Structural)]
pub struct UpdatePrepareRequest {
    pub segment: SegmentIdentifier,
}

/// Echoes the slot, and gives the longest chunk that the device will take.
#[derive(Clone, Copy, Debug, PartialEq, Eq, Structural)]
pub struct UpdatePrepareResponse {
    pub segment: SegmentIdentifier,
    pub max_chunk_length: u16,
    pub result: u8,
}

/// One chunk of an image, to be written at `offset` of the slot.
#[derive(Clone, Debug, PartialEq, Eq)]
pub struct WriteChunkRequest {
    pub segment: SegmentIdentifier,
    pub offset: u32,
    pub data: Vec<u8>,
}

/// What a `WriteChunkRequest` holds, as plain values.
pub struct WriteChunk {
    pub segment: SegmentIdentifier,
    pub offset: u32,
    pub data: Seq<u8>,
}

/// Echoes slot and offset of the chunk written.
#[derive(Clone, Copy, Debug, PartialEq, Eq, Structural)]
pub struct WriteChunkResponse {
    pub segment: SegmentIdentifier,
    pub offset: u32,
    pub result: u8,
}

/// Asks the device to reboot.
#[derive(Clone, Copy, Debug, PartialEq, Eq, Structural)]
pub struct RebootRequest {
    pub time: RebootTime,
}

/// Acknowledges a reboot request.
#[derive(Clone, Copy, Debug, PartialEq, Eq, Structural)]
pub struct RebootResponse {}

impl View for InactiveSegmentsInfoRequest {
    type V = InactiveSegmentsInfoRequest;

    open spec fn view(&self) -> InactiveSegmentsInfoRequest {
        *self
    }
}

impl View for InactiveSegmentsInfoResponse {
    type V = InactiveSegmentsInfoResponse;

    open spec fn view(&self) -> InactiveSegmentsInfoResponse {
        *self
    }
}

impl View for UpdatePrepareRequest {
    type V = UpdatePrepareRequest;

    open spec fn view(&self) -> UpdatePrepareRequest {
        *self
    }
}

impl View for UpdatePrepareResponse {
    type V = UpdatePrepareResponse;

    open spec fn view(&self) -> UpdatePrepareResponse {
        *self
    }
}

impl View for WriteChunkRequest {
    type V = WriteChunk;

    open spec fn view(&self) -> WriteChunk {
        WriteChunk { segment: self.segment, offset: self.offset, data: self.data@ }
    }
}

impl View for WriteChunkResponse {
    type V = WriteChunkResponse;

    open spec fn view(&self) -> WriteChunkResponse {
        *self
    }
}

impl View for RebootRequest {
    type V = RebootRequest;

    open spec fn view(&self) -> RebootRequest {
        *self
    }
}

impl View for RebootResponse {
    type V = RebootResponse;

    open spec fn view(&self) -> RebootResponse {
        *self
    }
}

impl Message for InactiveSegmentsInfoRequest {
    open spec fn command_spec() -> u8 {
        CMD_INACTIVE_SEGMENTS_INFO
    }

    fn command() -> (c: u8) {
        CMD_INACTIVE_SEGMENTS_INFO
    }
}

impl Message for InactiveSegmentsInfoResponse {
    open spec fn command_spec() -> u8 {
        CMD_INACTIVE_SEGMENTS_INFO
    }

    fn command() -> (c: u8) {
        CMD_INACTIVE_SEGMENTS_INFO
    }
}

impl Message for UpdatePrepareRequest {
    open spec fn command_spec() -> u8 {
        CMD_UPDATE_PREPARE
    }

    fn command() -> (c: u8) {
        CMD_UPDATE_PREPARE
    }
}

impl Message for UpdatePrepareResponse {
    open spec fn command_spec() -> u8 {
        CMD_UPDATE_PREPARE
    }

    fn command() -> (c: u8) {
        CMD_UPDATE_PREPARE
    }
}

impl Message for WriteChunkRequest {
    open spec fn command_spec() -> u8 {
        CMD_WRITE_CHUNK
    }

    fn command() -> (c: u8) {
        CMD_WRITE_CHUNK
    }
}

impl Message for WriteChunkResponse {
    open spec fn command_spec() -> u8 {
        CMD_WRITE_CHUNK
    }

    fn command() -> (c: u8) {
        CMD_WRITE_CHUNK
    }
}

impl Message for RebootRequest {
    open spec fn command_spec() -> u8 {
        CMD_REBOOT
    }

    fn command() -> (c: u8) {
        CMD_REBOOT
    }
}

impl Message for RebootResponse {
    open spec fn command_spec() -> u8 {
        CMD_REBOOT
    }

    fn command() -> (c: u8) {
        CMD_REBOOT
    }
}

impl ToWire for InactiveSegmentsInfoRequest {
    /// The request has no body.
    open spec fn encoding(v: InactiveSegmentsInfoRequest) -> Seq<u8> {
        Seq::empty()
    }

    fn to_wire(&self, out: &mut Vec<u8>) {
        assert(out@ =~= out@ + Seq::<u8>::empty());
    }
}

impl ToWire for UpdatePrepareRequest {
    /// One byte: the slot.
    open spec fn encoding(v: UpdatePrepareRequest) -> Seq<u8> {
        seq![v.segment.code_spec()]
    }

    fn to_wire(&self, out: &mut Vec<u8>) {
        out.push(self.segment.code());
        assert(out@ =~= old(out)@ + seq![self.segment.code_spec()]);
    }
}

impl ToWire for WriteChunkRequest {
    /// The slot, the offset as four bytes, then the chunk's bytes up to the
    /// end of the content.
    open spec fn encoding(v: WriteChunk) -> Seq<u8> {
        seq![v.segment.code_spec()] + be32(v.offset) + v.data
    }

    fn to_wire(&self, out: &mut Vec<u8>) {
        out.push(self.segment.code());
        push_be32(out, self.offset);
        push_bytes(out, self.data.as_slice());
        assert(out@ =~= old(out)@ + (seq![self.segment.code_spec()] + be32(self.offset)
            + self.data@));
    }
}

impl ToWire for RebootRequest {
    /// One byte: 0 for an immediate reboot, 1 for a delayed one.
    open spec fn encoding(v: RebootRequest) -> Seq<u8> {
        match v.time {
            RebootTime::Immediate => seq![0u8],
            RebootTime::Delayed => seq![1u8],
        }
    }

    fn to_wire(&self, out: &mut Vec<u8>) {
        match self.time {
            RebootTime::Immediate => out.push(0),
            RebootTime::Delayed => out.push(1),
        }
        assert(out@ =~= old(out)@ + Self::encoding(*self));
    }
}

impl FromWire for InactiveSegmentsInfoResponse {
    /// Ten bytes: the RO description, then the RW description.
    open spec fn decoding(data: Seq<u8>) -> Option<InactiveSegmentsInfoResponse> {
        if data.len() != 10 {
            None
        } else {
            match (segment_info_at(data, 0), segment_info_at(data, 5)) {
                (Some(ro), Some(rw)) => Some(InactiveSegmentsInfoResponse { ro, rw }),
                _ => None,
            }
        }
    }

    fn from_wire(data: &[u8]) -> (r: Option<Self>) {
        if data.len() != 10 {
            return None;
        }
        match (read_segment_info(data, 0), read_segment_info(data, 5)) {
            (Some(ro), Some(rw)) => Some(InactiveSegmentsInfoResponse { ro, rw }),
            _ => None,
        }
    }
}

impl FromWire for UpdatePrepareResponse {
    /// Four bytes: the slot, the longest chunk as two bytes, the result code.
    open spec fn decoding(data: Seq<u8>) -> Option<UpdatePrepareResponse> {
        if data.len() != 4 {
            None
        } else {
            match SegmentIdentifier::from_code_spec(data[0]) {
                Some(segment) => Some(
                    UpdatePrepareResponse {
                        segment,
                        max_chunk_length: be16_at(data, 1),
                        result: data[3],
                    },
                ),
                None => None,
            }
        }
    }

    fn from_wire(data: &[u8]) -> (r: Option<Self>) {
        if data.len() != 4 {
            return None;
        }
        match SegmentIdentifier::from_code(data[0]) {
            Some(segment) => Some(
                UpdatePrepareResponse {
                    segment,
                    max_chunk_length: read_be16(data, 1),
                    result: data[3],
                },
            ),
            None => None,
        }
    }
}

impl FromWire for WriteChunkResponse {
    /// Six bytes: the slot, the offset as four bytes, the result code.
    open spec fn decoding(data: Seq<u8>) -> Option<WriteChunkResponse> {
        if data.len() != 6 {
            None
        } else {
            match SegmentIdentifier::from_code_spec(data[0]) {
                Some(segment) => Some(
                    WriteChunkResponse { segment, offset: be32_at(data, 1), result: data[5] },
                ),
                None => None,
            }
        }
    }

    fn from_wire(data: &[u8]) -> (r: Option<Self>) {
        if data.len() != 6 {
            return None;
        }
        match SegmentIdentifier::from_code(data[0]) {
            Some(segment) => Some(
                WriteChunkResponse { segment, offset: read_be32(data, 1), result: data[5] },
            ),
            None => None,
        }
    }
}

impl FromWire for RebootResponse {
    /// The response has no body.
    open spec fn decoding(data: Seq<u8>) -> Option<RebootResponse> {
        if data.len() == 0 {
            Some(RebootResponse {  })
        } else {
            None
        }
    }

    fn from_wire(data: &[u8]) -> (r: Option<Self>) {
        if data.len() == 0 {
            Some(RebootResponse {  })
        } else {
            None
        }
    }
}

/// The content of the envelope that carries `v`: command, then body.
pub open spec fn content_spec<M: Message + ToWire>(v: M::V) -> Seq<u8> {
    seq![M::command_spec()] + M::encoding(v)
}

/// The frame that carries `v`.
pub open spec fn serialize_spec<M: Message + ToWire>(v: M::V) -> Seq<u8> {
    frame_spec(TAG_FIRMWARE, content_spec::<M>(v))
}

/// What a frame read from the device holds, taken as a message `M` of this
/// family. The checks come in this order: the envelope; its content type;
/// the command in the inner header; the body.
pub open spec fn deserialize_spec<M: Message + FromWire>(data: Seq<u8>) -> Result<
    M::V,
    ProtocolError,
> {
    match parse_envelope(data) {
        Err(e) => Err(e),
        Ok((header, content)) => if header.content != ContentType::Firmware {
            Err(
                ProtocolError::UnexpectedContentType {
                    expected_content: ContentType::Firmware,
                    actual_content: header.content,
                },
            )
        } else if content.len() == 0 {
            Err(ProtocolError::MalformedMessage)
        } else if content[0] != M::command_spec() {
            Err(
                ProtocolError::UnexpectedMessageType {
                    expected: M::command_spec(),
                    actual: content[0],
                },
            )
        } else {
            match M::decoding(content.skip(1)) {
                Some(v) => Ok(v),
                None => Err(ProtocolError::MalformedMessage),
            }
        },
    }
}

/// Frames `msg` for the device: inner header, body, and the envelope around
/// both. Fails where the frame would be longer than `capacity` bytes, or the
/// content longer than the envelope can describe.
pub fn serialize<M: Message + ToWire>(msg: &M, capacity: usize) -> (r: Result<
    Vec<u8>,
    ProtocolError,
>)
    ensures
        match r {
            Ok(frame) => frame@ == serialize_spec::<M>(msg@) && frame.len() <= capacity
                && content_spec::<M>(msg@).len() <= MAX_CONTENT_LEN,
            Err(e) => e == ProtocolError::FrameTooLarge && (content_spec::<M>(msg@).len()
                > MAX_CONTENT_LEN || HEADER_LEN + content_spec::<M>(msg@).len() > capacity),
        },
{
    let mut content: Vec<u8> = Vec::new();
    content.push(M::command());
    msg.to_wire(&mut content);
    assert(content@ =~= content_spec::<M>(msg@));
    match encode_envelope(ContentType::Firmware, content.as_slice()) {
        Ok(frame) => {
            if frame.len() > capacity {
                Err(ProtocolError::FrameTooLarge)
            } else {
                Ok(frame)
            }
        },
        Err(_) => Err(ProtocolError::FrameTooLarge),
    }
}

/// Checks a frame read from the device and decodes it as a message `M` of
/// this family.
pub fn deserialize<M: Message + FromWire>(data: &[u8]) -> (r: Result<M, ProtocolError>)
    ensures
        match r {
            Ok(msg) => deserialize_spec::<M>(data@) == Ok::<M::V, ProtocolError>(msg@),
            Err(e) => deserialize_spec::<M>(data@) == Err::<M::V, ProtocolError>(e),
        },
{
    let (header, content) = match decode_envelope(data) {
        Ok(parsed) => parsed,
        Err(e) => {
            return Err(e);
        },
    };
    if header.content != ContentType::Firmware {
        return Err(
            ProtocolError::UnexpectedContentType {
                expected_content: ContentType::Firmware,
                actual_content: header.content,
            },
        );
    }
    if content.len() == 0 {
        return Err(ProtocolError::MalformedMessage);
    }
    let actual = content[0];
    let expected = M::command();
    if actual != expected {
        return Err(ProtocolError::UnexpectedMessageType { expected, actual });
    }
    let body = copy_range(content.as_slice(), 1, content.len());
    assert(body@ =~= content@.skip(1));
    match M::from_wire(body.as_slice()) {
        Some(msg) => Ok(msg),
        None => Err(ProtocolError::MalformedMessage),
    }
}

/// The envelope of a framed request decodes to the firmware-control
/// content type and to the request's own content, byte for byte, whatever
/// padding follows the frame.
pub proof fn lemma_request_round_trip<M: Message + ToWire>(v: M::V, padding: Seq<u8>)
    requires
        content_spec::<M>(v).len() <= MAX_CONTENT_LEN,
    ensures
        parse_envelope(serialize_spec::<M>(v) + padding) == Ok::<
            (Header, Seq<u8>),
            ProtocolError,
        >(
            (
                Header {
                    content: ContentType::Firmware,
                    content_len: content_spec::<M>(v).len() as u16,
                    checksum: checksum_spec(TAG_FIRMWARE, content_spec::<M>(v)),
                },
                content_spec::<M>(v),
            ),
        ),
{
    lemma_envelope_round_trip(ContentType::Firmware, content_spec::<M>(v), padding);
}

} // verus!
