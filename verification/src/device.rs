//! The device as the host sees it: one mailbox behind a transport, through
//! which requests are sent and responses read, one exchange at a time.

use vstd::prelude::*;
use crate::spi::{Error, Interface};
use crate::update::UpdateError;
use crate::version::{decode_version, decode_version_spec, Version, VersionView};
use crate::wire::firmware;
use crate::wire::firmware::{
    InactiveSegmentsInfoRequest, InactiveSegmentsInfoResponse, RebootRequest, RebootResponse,
    RebootTime,
};
use crate::wire::manticore;
use crate::wire::manticore::{
    DeviceInfoRequest, DeviceInfoResponse, FirmwareVersionRequest, FirmwareVersionResponse,
    InfoIndex,
};
use crate::wire::spiutils::{deserialize, BuildInfo, FIRMWARE_INFO_OFFSET};
use crate::wire::{
    checksum_spec, frame_spec, lemma_envelope_round_trip, parse_envelope, ContentType, FromWire,
    Header, ProtocolError, ToWire, HEADER_LEN,
};

verus! {

/// Mailbox address that the tool-backed transport uses unless told otherwise.
pub const HAVENTOOL_DEFAULT_MAILBOX_ADDR: u32 = 0x80000;

/// Mailbox address that the direct transport uses unless told otherwise.
pub const SPIDEVICE_DEFAULT_MAILBOX_ADDR: u32 = 0;

/// Longest frame that is written to the mailbox.
pub const SPI_MAX_WRITE: usize = 512;

/// Length of the window that is read from the mailbox for a response.
pub const SPI_MAX_READ: usize = 2048;

/// Why a command was abandoned.
#[derive(Clone, Debug, PartialEq, Eq)]
pub enum Failure {
    /// The transport failed.
    Transport(Error),
    /// A frame broke the rules of the protocol.
    Protocol(ProtocolError),
    /// The update workflow met a response that it may not go on from.
    Update(UpdateError),
}

/// One use of the mailbox, as the device's log records it.
pub enum Transfer {
    /// The transport was handed this frame, to be written at this address.
    Sent(u32, Seq<u8>),
    /// The transport was asked for `SPI_MAX_READ` bytes at this address,
    /// and this window was made of what it read.
    Received(u32, Seq<u8>),
    /// The transport was asked for `SPI_MAX_READ` bytes at this address,
    /// and failed.
    Unanswered(u32),
}

/// The answer to a firmware-version request: the version field as it came,
/// and what it holds.
#[derive(Clone, Debug, PartialEq, Eq)]
pub struct FirmwareInfo {
    pub version: Vec<u8>,
    pub decoded: Version,
}

/// What a `FirmwareInfo` holds, as plain values.
pub struct FirmwareInfoView {
    pub version: Seq<u8>,
    pub decoded: VersionView,
}

impl View for FirmwareInfo {
    type V = FirmwareInfoView;

    open spec fn view(&self) -> FirmwareInfoView {
        FirmwareInfoView { version: self.version@, decoded: self.decoded@ }
    }
}

/// A device behind the transport `spi`, with its mailbox at `mailbox_addr`.
pub struct Device<T: Interface> {
    spi: T,
    mailbox_addr: u32,
    log: Ghost<Seq<Transfer>>,
}

/// The window that a read of the mailbox yields when the transport hands
/// back `data`: its first `SPI_MAX_READ` bytes, followed by zeros where it
/// has fewer.
pub open spec fn window_spec(data: Seq<u8>) -> Seq<u8> {
    Seq::new(
        SPI_MAX_READ as nat,
        |i: int|
            if i < data.len() {
                data[i]
            } else {
                0u8
            },
    )
}

/// The frame of a request of the firmware-control family, where it fits the mailbox.
pub open spec fn firmware_frame<M: firmware::Message + ToWire>(v: M::V) -> Option<Seq<u8>> {
    if HEADER_LEN + firmware::content_spec::<M>(v).len() <= SPI_MAX_WRITE {
        Some(firmware::serialize_spec::<M>(v))
    } else {
        None
    }
}

/// The frame of a request of the query family, where it fits the mailbox.
pub open spec fn manticore_frame<M: manticore::Request>(v: M::V) -> Option<Seq<u8>> {
    if HEADER_LEN + manticore::content_spec::<M>(v).len() <= SPI_MAX_WRITE {
        Some(manticore::serialize_spec::<M>(v))
    } else {
        None
    }
}

/// What a window read from the mailbox holds, taken as a response `M` of
/// the firmware-control family.
pub open spec fn firmware_reply<M: firmware::Message + FromWire>(window: Seq<u8>) -> Result<
    M::V,
    Failure,
> {
    match firmware::deserialize_spec::<M>(window) {
        Ok(v) => Ok(v),
        Err(e) => Err(Failure::Protocol(e)),
    }
}

/// What a window read from the mailbox holds, taken as a response `M` of
/// the query family.
pub open spec fn manticore_reply<M: manticore::Response>(window: Seq<u8>) -> Result<M::V, Failure> {
    match manticore::deserialize_spec::<M>(window) {
        Ok(v) => Ok(v),
        Err(e) => Err(Failure::Protocol(e)),
    }
}

/// What a window read from the mailbox holds, taken as the answer to a
/// firmware-version request for `index`: the version field and what it
/// decodes to.
pub open spec fn firmware_info_reply(index: u8, window: Seq<u8>) -> Result<
    FirmwareInfoView,
    Failure,
> {
    match manticore_reply::<FirmwareVersionResponse>(window) {
        Ok(response) => match decode_version_spec(index, response.version) {
            Ok(decoded) => Ok(FirmwareInfoView { version: response.version, decoded }),
            Err(e) => Err(Failure::Protocol(e)),
        },
        Err(f) => Err(f),
    }
}

/// The build information in the firmware image `image`, where the image is
/// long enough to hold it at `FIRMWARE_INFO_OFFSET`.
pub open spec fn build_info_spec(image: Seq<u8>) -> Option<BuildInfo> {
    if image.len() < FIRMWARE_INFO_OFFSET {
        None
    } else {
        BuildInfo::decoding(image.skip(FIRMWARE_INFO_OFFSET as int))
    }
}

/// One exchange through the mailbox at `address`, as it shows in the log
/// and in its result `r`. A request that does not fit the mailbox (`frame`
/// is `None`) is refused and leaves no trace. Else the frame is sent. Where
/// the transport fails at the write, nothing more is done. Else a window is
/// asked for at the same address: where the transport fails at that, the
/// exchange has failed; where a window is received, `r` is what `judge`
/// makes of it.
pub open spec fn exchange_spec<V>(
    before: Seq<Transfer>,
    after: Seq<Transfer>,
    address: u32,
    frame: Option<Seq<u8>>,
    judge: spec_fn(Seq<u8>) -> Result<V, Failure>,
    r: Result<V, Failure>,
) -> bool {
    match frame {
        None => after == before && r == Err::<V, Failure>(
            Failure::Protocol(ProtocolError::FrameTooLarge),
        ),
        Some(frame) => {
            ||| after == before.push(Transfer::Sent(address, frame)) && r is Err && r->Err_0
                is Transport
            ||| after == before.push(Transfer::Sent(address, frame)).push(
                Transfer::Unanswered(address),
            ) && r is Err && r->Err_0 is Transport
            ||| {
                &&& after.len() == before.len() + 2
                &&& after.last() is Received
                &&& after.last()->Received_0 == address
                &&& after.last()->Received_1.len() == SPI_MAX_READ
                &&& after == before.push(Transfer::Sent(address, frame)).push(after.last())
                &&& r == judge(after.last()->Received_1)
            }
        },
    }
}

/// The result of an exchange with the message replaced by what it holds.
pub open spec fn viewed<M: View>(r: Result<M, Failure>) -> Result<M::V, Failure> {
    match r {
        Ok(m) => Ok(m@),
        Err(e) => Err(e),
    }
}

/// Cuts or pads what the transport read to the fixed window.
pub fn mailbox_window(data: &[u8]) -> (window: Vec<u8>)
    ensures
        window@ == window_spec(data@),
{
    let mut window: Vec<u8> = Vec::new();
    let mut i: usize = 0;
    while i < SPI_MAX_READ
        invariant
            i <= SPI_MAX_READ,
            window.len() == i,
            forall|j: int| 0 <= j < i ==> window[j] == window_spec(data@)[j],
        decreases SPI_MAX_READ - i,
    {
        if i < data.len() {
            window.push(data[i]);
        } else {
            window.push(0);
        }
        i += 1;
    }
    assert(window@ =~= window_spec(data@));
    window
}

/// A frame that fits the window survives the mailbox: read through the
/// window, with zeros after it, its envelope still decodes to the content
/// type and the content that it was made of.
pub proof fn lemma_window_keeps_frame(content_type: ContentType, content: Seq<u8>)
    requires
        content_type != ContentType::Error,
        HEADER_LEN + content.len() <= SPI_MAX_READ,
    ensures
        parse_envelope(window_spec(frame_spec(content_type.tag_spec(), content))) == Ok::<
            (Header, Seq<u8>),
            ProtocolError,
        >(
            (
                Header {
                    content: content_type,
                    content_len: content.len() as u16,
                    checksum: checksum_spec(content_type.tag_spec(), content),
                },
                content,
            ),
        ),
{
    let frame = frame_spec(content_type.tag_spec(), content);
    let zeros = Seq::new((SPI_MAX_READ - frame.len()) as nat, |i: int| 0u8);
    assert(window_spec(frame) =~= frame + zeros);
    lemma_envelope_round_trip(content_type, content, zeros);
}

/// What a read of the mailbox comes to, once the transport has answered it
/// with `read`: the window made of the bytes read, or the transport's
/// error as it is.
pub fn mailbox_reply(read: Result<Vec<u8>, Error>) -> (r: Result<Vec<u8>, Error>)
    ensures
        match read {
            Ok(data) => r matches Ok(window) && window@ == window_spec(data@),
            Err(e) => r == Err::<Vec<u8>, Error>(e),
        },
{
    match read {
        Ok(data) => Ok(mailbox_window(data.as_slice())),
        Err(e) => Err(e),
    }
}

impl<T: Interface> Device<T> {
    /// Every use of the mailbox since the device was made, in order.
    pub closed spec fn log(&self) -> Seq<Transfer> {
        self.log@
    }

    /// The address of the mailbox.
    pub closed spec fn address(&self) -> u32 {
        self.mailbox_addr
    }

    /// The transport behind the device.
    pub closed spec fn spi(&self) -> T {
        self.spi
    }

    /// A device behind `spi` whose mailbox is at `mailbox_addr`. Nothing is
    /// sent yet.
    pub fn new(spi: T, mailbox_addr: u32) -> (device: Device<T>)
        ensures
            device.spi() == spi,
            device.address() == mailbox_addr,
            device.log() == Seq::<Transfer>::empty(),
    {
        Device { spi, mailbox_addr, log: Ghost(Seq::empty()) }
    }

    /// The address of the mailbox.
    pub fn mailbox_addr(&self) -> (addr: u32)
        ensures
            addr == self.address(),
    {
        self.mailbox_addr
    }

    /// The transport behind the device.
    pub fn transport(&self) -> (spi: &T)
        ensures
            *spi == self.spi(),
    {
        &self.spi
    }

    /// Writes `data` to the mailbox. The attempt is logged whether or not
    /// the transport succeeds.
    pub fn write_mailbox(&mut self, data: &[u8]) -> (r: Result<(), Error>)
        ensures
            final(self).address() == old(self).address(),
            final(self).spi() == old(self).spi(),
            final(self).log() == old(self).log().push(
                Transfer::Sent(old(self).address(), data@),
            ),
    {
        let r = self.spi.write(self.mailbox_addr, data);
        proof {
            self.log@ = self.log@.push(Transfer::Sent(self.mailbox_addr, data@));
        }
        r
    }

    /// Asks the transport for the response window at the mailbox address.
    /// The request is logged whatever comes of it: with the window, where
    /// the transport succeeds, and as unanswered, where it fails.
    pub fn read_mailbox(&mut self) -> (r: Result<Vec<u8>, Error>)
        ensures
            final(self).address() == old(self).address(),
            final(self).spi() == old(self).spi(),
            match r {
                Ok(window) => window.len() == SPI_MAX_READ && final(self).log() == old(
                    self,
                ).log().push(Transfer::Received(old(self).address(), window@)),
                Err(_) => final(self).log() == old(self).log().push(
                    Transfer::Unanswered(old(self).address()),
                ),
            },
    {
        let r = mailbox_reply(self.spi.read(self.mailbox_addr, SPI_MAX_READ));
        proof {
            self.log@ = self.log@.push(
                if r is Ok {
                    Transfer::Received(self.mailbox_addr, r->Ok_0@)
                } else {
                    Transfer::Unanswered(self.mailbox_addr)
                },
            );
        }
        r
    }

    /// Frames a request of the query family and writes it to the mailbox.
    pub fn send_manticore<M: manticore::Request>(&mut self, msg: &M) -> (r: Result<(), Failure>)
        ensures
            final(self).address() == old(self).address(),
            final(self).spi() == old(self).spi(),
            match manticore_frame::<M>(msg@) {
                None => final(self).log() == old(self).log() && r == Err::<(), Failure>(
                    Failure::Protocol(ProtocolError::FrameTooLarge),
                ),
                Some(frame) => final(self).log() == old(self).log().push(
                    Transfer::Sent(old(self).address(), frame),
                ) && (r is Err ==> r->Err_0 is Transport),
            },
    {
        match manticore::serialize(msg, SPI_MAX_WRITE) {
            Ok(frame) => match self.write_mailbox(frame.as_slice()) {
                Ok(()) => Ok(()),
                Err(e) => Err(Failure::Transport(e)),
            },
            Err(e) => Err(Failure::Protocol(e)),
        }
    }

    /// Frames a message of the firmware-control family and writes it to the mailbox.
    pub fn send_firmware<M: firmware::Message + ToWire>(&mut self, msg: &M) -> (r: Result<
        (),
        Failure,
    >)
        ensures
            final(self).address() == old(self).address(),
            final(self).spi() == old(self).spi(),
            match firmware_frame::<M>(msg@) {
                None => final(self).log() == old(self).log() && r == Err::<(), Failure>(
                    Failure::Protocol(ProtocolError::FrameTooLarge),
                ),
                Some(frame) => final(self).log() == old(self).log().push(
                    Transfer::Sent(old(self).address(), frame),
                ) && (r is Err ==> r->Err_0 is Transport),
            },
    {
        match firmware::serialize(msg, SPI_MAX_WRITE) {
            Ok(frame) => match self.write_mailbox(frame.as_slice()) {
                Ok(()) => Ok(()),
                Err(e) => Err(Failure::Transport(e)),
            },
            Err(e) => Err(Failure::Protocol(e)),
        }
    }

    /// One exchange of the query family: sends `request`, reads the
    /// response window and decodes it as `Resp`.
    pub fn request_manticore<Req: manticore::Request, Resp: manticore::Response>(
        &mut self,
        request: &Req,
    ) -> (r: Result<Resp, Failure>)
        ensures
            final(self).address() == old(self).address(),
            final(self).spi() == old(self).spi(),
            exchange_spec(
                old(self).log(),
                final(self).log(),
                old(self).address(),
                manticore_frame::<Req>(request@),
                |window: Seq<u8>| manticore_reply::<Resp>(window),
                viewed(r),
            ),
    {
        match self.send_manticore(request) {
            Ok(()) => {},
            Err(e) => {
                return Err(e);
            },
        }
        let window = match self.read_mailbox() {
            Ok(window) => window,
            Err(e) => {
                return Err(Failure::Transport(e));
            },
        };
        match manticore::deserialize::<Resp>(window.as_slice()) {
            Ok(response) => Ok(response),
            Err(e) => Err(Failure::Protocol(e)),
        }
    }

    /// One exchange of the firmware-control family: sends `request`, reads
    /// the response window and decodes it as `Resp`.
    pub fn request_firmware<
        Req: firmware::Message + ToWire,
        Resp: firmware::Message + FromWire,
    >(&mut self, request: &Req) -> (r: Result<Resp, Failure>)
        ensures
            final(self).address() == old(self).address(),
            final(self).spi() == old(self).spi(),
            exchange_spec(
                old(self).log(),
                final(self).log(),
                old(self).address(),
                firmware_frame::<Req>(request@),
                |window: Seq<u8>| firmware_reply::<Resp>(window),
                viewed(r),
            ),
    {
        match self.send_firmware(request) {
            Ok(()) => {},
            Err(e) => {
                return Err(e);
            },
        }
        let window = match self.read_mailbox() {
            Ok(window) => window,
            Err(e) => {
                return Err(Failure::Transport(e));
            },
        };
        match firmware::deserialize::<Resp>(window.as_slice()) {
            Ok(response) => Ok(response),
            Err(e) => Err(Failure::Protocol(e)),
        }
    }

    /// Asks the device for its unique chip identifier.
    pub fn device_info(&mut self) -> (r: Result<DeviceInfoResponse, Failure>)
        ensures
            final(self).address() == old(self).address(),
            final(self).spi() == old(self).spi(),
            exchange_spec(
                old(self).log(),
                final(self).log(),
                old(self).address(),
                manticore_frame::<DeviceInfoRequest>(
                    DeviceInfoRequest { index: InfoIndex::UniqueChipIndex },
                ),
                |window: Seq<u8>| manticore_reply::<DeviceInfoResponse>(window),
                viewed(r),
            ),
    {
        let request = DeviceInfoRequest { index: InfoIndex::UniqueChipIndex };
        self.request_manticore::<DeviceInfoRequest, DeviceInfoResponse>(&request)
    }

    /// Asks the device for the firmware version with the given index, and
    /// decodes the version field as that index demands.
    pub fn fw_info(&mut self, index: u8) -> (r: Result<FirmwareInfo, Failure>)
        ensures
            final(self).address() == old(self).address(),
            final(self).spi() == old(self).spi(),
            exchange_spec(
                old(self).log(),
                final(self).log(),
                old(self).address(),
                manticore_frame::<FirmwareVersionRequest>(FirmwareVersionRequest { index }),
                |window: Seq<u8>| firmware_info_reply(index, window),
                viewed(r),
            ),
    {
        let request = FirmwareVersionRequest { index };
        match self.request_manticore::<FirmwareVersionRequest, FirmwareVersionResponse>(&request) {
            Ok(response) => match decode_version(index, response.version.as_slice()) {
                Ok(decoded) => Ok(FirmwareInfo { version: response.version, decoded }),
                Err(e) => Err(Failure::Protocol(e)),
            },
            Err(f) => Err(f),
        }
    }

    /// Asks the device for the inactive slot of RO and of RW.
    pub fn inactive_segments_info(&mut self) -> (r: Result<InactiveSegmentsInfoResponse, Failure>)
        ensures
            final(self).address() == old(self).address(),
            final(self).spi() == old(self).spi(),
            exchange_spec(
                old(self).log(),
                final(self).log(),
                old(self).address(),
                firmware_frame::<InactiveSegmentsInfoRequest>(InactiveSegmentsInfoRequest {  }),
                |window: Seq<u8>| firmware_reply::<InactiveSegmentsInfoResponse>(window),
                viewed(r),
            ),
    {
        let request = InactiveSegmentsInfoRequest {  };
        self.request_firmware::<InactiveSegmentsInfoRequest, InactiveSegmentsInfoResponse>(
            &request,
        )
    }

    /// Asks the device to reboot at once.
    pub fn reboot(&mut self) -> (r: Result<RebootResponse, Failure>)
        ensures
            final(self).address() == old(self).address(),
            final(self).spi() == old(self).spi(),
            exchange_spec(
                old(self).log(),
                final(self).log(),
                old(self).address(),
                firmware_frame::<RebootRequest>(RebootRequest { time: RebootTime::Immediate }),
                |window: Seq<u8>| firmware_reply::<RebootResponse>(window),
                viewed(r),
            ),
    {
        let request = RebootRequest { time: RebootTime::Immediate };
        self.request_firmware::<RebootRequest, RebootResponse>(&request)
    }

    /// Reads the build information out of the firmware image `image`. The
    /// device is not asked.
    pub fn build_info(&self, image: &[u8]) -> (r: Option<BuildInfo>)
        ensures
            r == build_info_spec(image@),
    {
        if image.len() < FIRMWARE_INFO_OFFSET {
            return None;
        }
        let record = vstd::slice::slice_subrange(image, FIRMWARE_INFO_OFFSET, image.len());
        assert(record@ =~= image@.skip(FIRMWARE_INFO_OFFSET as int));
        deserialize::<BuildInfo>(record)
    }
}

} // verus!
