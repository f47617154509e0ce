//! The query family: device information and firmware version. The inner
//! header is two bytes: a flag byte whose top bit marks a request, and the
//! command.

use vstd::prelude::*;
use crate::bytes::copy_range;
use crate::wire::{
    checksum_spec, decode_envelope, encode_envelope, frame_spec, lemma_envelope_round_trip,
    parse_envelope, ContentType, FromWire, Header, ProtocolError, ToWire, HEADER_LEN,
    MAX_CONTENT_LEN, TAG_MANTICORE,
};

verus! {

/// Flag byte of a request; a response has a flag byte below it.
pub const REQUEST_FLAG: u8 = 0x80;

/// Command code of the firmware-version exchange.
pub const CMD_FIRMWARE_VERSION: u8 = 0x01;

/// Command code of the device-info exchange.
pub const CMD_DEVICE_INFO: u8 = 0x04;

/// Length of the version field of a firmware-version response.
pub const VERSION_LEN: usize = 32;

/// Which piece of device information is asked for.
#[derive(Clone, Copy, Debug, PartialEq, Eq, Structural)]
pub enum InfoIndex {
    /// The unique chip identifier.
    UniqueChipIndex,
}

/// Asks for a piece of device information.
#[derive(Clone, Copy, Debug, PartialEq, Eq, Structural)]
pub struct DeviceInfoRequest {
    pub index: InfoIndex,
}

/// The device information asked for.
#[derive(Clone, Debug, PartialEq, Eq)]
pub struct DeviceInfoResponse {
    pub info: Vec<u8>,
}

/// What a `DeviceInfoResponse` holds, as plain values.
pub struct DeviceInfo {
    pub info: Seq<u8>,
}

/// Asks for the firmware version with the given index.
#[derive(Clone, Copy, Debug, PartialEq, Eq, Structural)]
pub struct FirmwareVersionRequest {
    pub index: u8,
}

/// The version field, `VERSION_LEN` bytes long.
#[derive(Clone, Debug, PartialEq, Eq)]
pub struct FirmwareVersionResponse {
    pub version: Vec<u8>,
}

/// What a `FirmwareVersionResponse` holds, as plain values.
pub struct FirmwareVersion {
    pub version: Seq<u8>,
}

/// A request of this family: it knows its command code.
pub trait Request: ToWire {
    /// The command code in the inner header of this request.
    spec fn command_spec() -> u8;

    /// The command code in the inner header of this request.
    fn command() -> (c: u8)
        ensures
            c == Self::command_spec(),
    ;
}

/// A response of this family: it knows its command code.
pub trait Response: FromWire {
    /// The command code in the inner header of this response.
    spec fn command_spec() -> u8;

    /// The command code in the inner header of this response.
    fn command() -> (c: u8)
        ensures
            c == Self::command_spec(),
    ;
}

impl InfoIndex {
    /// The byte that stands for this index.
    pub open spec fn code_spec(self) -> u8 {
        0x00
    }

    /// The byte that stands for this index.
    pub fn code(self) -> (c: u8)
        ensures
            c == self.code_spec(),
    {
        0x00
    }
}

impl View for DeviceInfoRequest {
    type V = DeviceInfoRequest;

    open spec fn view(&self) -> DeviceInfoRequest {
        *self
    }
}

impl View for DeviceInfoResponse {
    type V = DeviceInfo;

    open spec fn view(&self) -> DeviceInfo {
        DeviceInfo { info: self.info@ }
    }
}

impl View for FirmwareVersionRequest {
    type V = FirmwareVersionRequest;

    open spec fn view(&self) -> FirmwareVersionRequest {
        *self
    }
}

impl View for FirmwareVersionResponse {
    type V = FirmwareVersion;

    open spec fn view(&self) -> FirmwareVersion {
        FirmwareVersion { version: self.version@ }
    }
}

impl ToWire for DeviceInfoRequest {
    /// One byte: the index.
    open spec fn encoding(v: DeviceInfoRequest) -> Seq<u8> {
        seq![v.index.code_spec()]
    }

    fn to_wire(&self, out: &mut Vec<u8>) {
        out.push(self.index.code());
        assert(out@ =~= old(out)@ + seq![self.index.code_spec()]);
    }
}

impl ToWire for FirmwareVersionRequest {
    /// One byte: the index.
    open spec fn encoding(v: FirmwareVersionRequest) -> Seq<u8> {
        seq![v.index]
    }

    fn to_wire(&self, out: &mut Vec<u8>) {
        out.push(self.index);
        assert(out@ =~= old(out)@ + seq![self.index]);
    }
}

impl FromWire for DeviceInfoResponse {
    /// The whole body is the information.
    open spec fn decoding(data: Seq<u8>) -> Option<DeviceInfo> {
        Some(DeviceInfo { info: data })
    }

    fn from_wire(data: &[u8]) -> (r: Option<Self>) {
        let info = copy_range(data, 0, data.len());
        assert(info@ =~= data@);
        Some(DeviceInfoResponse { info })
    }
}

impl FromWire for FirmwareVersionResponse {
    /// Exactly `VERSION_LEN` bytes: the version field.
    open spec fn decoding(data: Seq<u8>) -> Option<FirmwareVersion> {
        if data.len() == VERSION_LEN {
            Some(FirmwareVersion { version: data })
        } else {
            None
        }
    }

    fn from_wire(data: &[u8]) -> (r: Option<Self>) {
        if data.len() != VERSION_LEN {
            return None;
        }
        let version = copy_range(data, 0, data.len());
        assert(version@ =~= data@);
        Some(FirmwareVersionResponse { version })
    }
}

impl Request for DeviceInfoRequest {
    open spec fn command_spec() -> u8 {
        CMD_DEVICE_INFO
    }

    fn command() -> (c: u8) {
        CMD_DEVICE_INFO
    }
}

impl Response for DeviceInfoResponse {
    open spec fn command_spec() -> u8 {
        CMD_DEVICE_INFO
    }

    fn command() -> (c: u8) {
        CMD_DEVICE_INFO
    }
}

impl Request for FirmwareVersionRequest {
    open spec fn command_spec() -> u8 {
        CMD_FIRMWARE_VERSION
    }

    fn command() -> (c: u8) {
        CMD_FIRMWARE_VERSION
    }
}

impl Response for FirmwareVersionResponse {
    open spec fn command_spec() -> u8 {
        CMD_FIRMWARE_VERSION
    }

    fn command() -> (c: u8) {
        CMD_FIRMWARE_VERSION
    }
}

/// The content of the envelope that carries the request `v`: the request
/// flag, the command, then the body.
pub open spec fn content_spec<M: Request>(v: M::V) -> Seq<u8> {
    seq![REQUEST_FLAG, M::command_spec()] + M::encoding(v)
}

/// The frame that carries the request `v`.
pub open spec fn serialize_spec<M: Request>(v: M::V) -> Seq<u8> {
    frame_spec(TAG_MANTICORE, content_spec::<M>(v))
}

/// What a frame read from the device holds, taken as a response `M` of this
/// family. The checks come in this order: the envelope; its content type;
/// the command in the inner header; the direction; the body.
pub open spec fn deserialize_spec<M: Response>(data: Seq<u8>) -> Result<M::V, ProtocolError> {
    match parse_envelope(data) {
        Err(e) => Err(e),
        Ok((header, content)) => if header.content != ContentType::Manticore {
            Err(
                ProtocolError::UnexpectedContentType {
                    expected_content: ContentType::Manticore,
                    actual_content: header.content,
                },
            )
        } else if content.len() < 2 {
            Err(ProtocolError::MalformedMessage)
        } else if content[1] != M::command_spec() {
            Err(
                ProtocolError::UnexpectedMessageType {
                    expected: M::command_spec(),
                    actual: content[1],
                },
            )
        } else if content[0] >= REQUEST_FLAG {
            Err(ProtocolError::UnexpectedDirection)
        } else {
            match M::decoding(content.skip(2)) {
                Some(v) => Ok(v),
                None => Err(ProtocolError::MalformedMessage),
            }
        },
    }
}

/// Frames the request `msg` for the device: inner header, body, and the
/// envelope around both. Fails where the frame would be longer than
/// `capacity` bytes, or the content longer than the envelope can describe.
pub fn serialize<M: Request>(msg: &M, capacity: usize) -> (r: Result<Vec<u8>, ProtocolError>)
    ensures
        match r {
            Ok(frame) => frame@ == serialize_spec::<M>(msg@) && frame.len() <= capacity
                && content_spec::<M>(msg@).len() <= MAX_CONTENT_LEN,
            Err(e) => e == ProtocolError::FrameTooLarge && (content_spec::<M>(msg@).len()
                > MAX_CONTENT_LEN || HEADER_LEN + content_spec::<M>(msg@).len() > capacity),
        },
{
    let mut content: Vec<u8> = Vec::new();
    content.push(REQUEST_FLAG);
    content.push(M::command());
    msg.to_wire(&mut content);
    assert(content@ =~= content_spec::<M>(msg@));
    match encode_envelope(ContentType::Manticore, content.as_slice()) {
        Ok(frame) => {
            if frame.len() > capacity {
                Err(ProtocolError::FrameTooLarge)
            } else {
                Ok(frame)
            }
        },
        Err(_) => Err(ProtocolError::FrameTooLarge),
    }
}

/// Checks a frame read from the device and decodes it as a response `M` of
/// this family.
pub fn deserialize<M: Response>(data: &[u8]) -> (r: Result<M, ProtocolError>)
    ensures
        match r {
            Ok(msg) => deserialize_spec::<M>(data@) == Ok::<M::V, ProtocolError>(msg@),
            Err(e) => deserialize_spec::<M>(data@) == Err::<M::V, ProtocolError>(e),
        },
{
    let (header, content) = match decode_envelope(data) {
        Ok(parsed) => parsed,
        Err(e) => {
            return Err(e);
        },
    };
    if header.content != ContentType::Manticore {
        return Err(
            ProtocolError::UnexpectedContentType {
                expected_content: ContentType::Manticore,
                actual_content: header.content,
            },
        );
    }
    if content.len() < 2 {
        return Err(ProtocolError::MalformedMessage);
    }
    let actual = content[1];
    let expected = M::command();
    if actual != expected {
        return Err(ProtocolError::UnexpectedMessageType { expected, actual });
    }
    if content[0] >= REQUEST_FLAG {
        return Err(ProtocolError::UnexpectedDirection);
    }
    let body = copy_range(content.as_slice(), 2, content.len());
    assert(body@ =~= content@.skip(2));
    match M::from_wire(body.as_slice()) {
        Some(msg) => Ok(msg),
        None => Err(ProtocolError::MalformedMessage),
    }
}

/// The envelope of a framed request decodes to the query content type and
/// to the request's own content, byte for byte, whatever padding follows
/// the frame.
pub proof fn lemma_request_round_trip<M: Request>(v: M::V, padding: Seq<u8>)
    requires
        content_spec::<M>(v).len() <= MAX_CONTENT_LEN,
    ensures
        parse_envelope(serialize_spec::<M>(v) + padding) == Ok::<
            (Header, Seq<u8>),
            ProtocolError,
        >(
            (
                Header {
                    content: ContentType::Manticore,
                    content_len: content_spec::<M>(v).len() as u16,
                    checksum: checksum_spec(TAG_MANTICORE, content_spec::<M>(v)),
                },
                content_spec::<M>(v),
            ),
        ),
{
    lemma_envelope_round_trip(ContentType::Manticore, content_spec::<M>(v), padding);
}

/// A request is never taken for a response: read back as a response, a
/// framed request is refused for its command where that is another, and
/// for its direction where the command is the expected one.
pub proof fn lemma_request_is_no_response<Req: Request, Resp: Response>(
    v: Req::V,
    padding: Seq<u8>,
)
    requires
        content_spec::<Req>(v).len() <= MAX_CONTENT_LEN,
    ensures
        deserialize_spec::<Resp>(serialize_spec::<Req>(v) + padding) == Err::<
            Resp::V,
            ProtocolError,
        >(
            if Req::command_spec() != Resp::command_spec() {
                ProtocolError::UnexpectedMessageType {
                    expected: Resp::command_spec(),
                    actual: Req::command_spec(),
                }
            } else {
                ProtocolError::UnexpectedDirection
            },
        ),
{
    lemma_request_round_trip::<Req>(v, padding);
}

} // verus!
