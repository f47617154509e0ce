use std::cell::RefCell;

use otpilot_tool::device::{
    mailbox_reply, mailbox_window, Device, Failure, FirmwareInfo, HAVENTOOL_DEFAULT_MAILBOX_ADDR,
    SPI_MAX_READ, SPI_MAX_WRITE,
};
use otpilot_tool::spi::{Error, Interface};
use otpilot_tool::update::{check_chunk, slot_of, Region, Slot, UpdateError, UpdateSession};
use otpilot_tool::version::Version;
use otpilot_tool::wire::firmware::{
    deserialize, serialize, InactiveSegmentsInfoResponse, RebootRequest, RebootResponse,
    RebootTime, SegmentIdentifier, SegmentInfo, UpdatePrepareRequest, UpdatePrepareResponse,
    WriteChunkRequest, WriteChunkResponse,
};
use otpilot_tool::wire::manticore::{
    DeviceInfoRequest, DeviceInfoResponse, FirmwareVersionRequest, FirmwareVersionResponse,
    InfoIndex,
};
use otpilot_tool::wire::spiutils::BuildInfo;
use otpilot_tool::wire::{decode_envelope, encode_envelope, ContentType, ProtocolError};

/// What the simulated device does wrong, if anything, at one chunk.
#[derive(Clone, Copy)]
enum Fault {
    WrongSegment,
    WrongOffset,
    Result(u8),
    Damaged,
    WriteFails,
    ReadFails,
}

struct State {
    ro: (u8, u32),
    rw: (u8, u32),
    max_chunk: u16,
    prepare_echo: Option<u8>,
    prepare_result: u8,
    fault: Option<(usize, Fault)>,
    version: Vec<u8>,
    written: Vec<(u32, Vec<u8>)>,
    reads: Vec<(u32, usize)>,
    chunks: Vec<(u8, u32, Vec<u8>)>,
    pending: Vec<u8>,
    read_fails: bool,
}

struct Simulated {
    state: RefCell<State>,
}

impl Simulated {
    fn new(ro: (u8, u32), rw: (u8, u32), max_chunk: u16) -> Simulated {
        Simulated {
            state: RefCell::new(State {
                ro,
                rw,
                max_chunk,
                prepare_echo: None,
                prepare_result: 0,
                fault: None,
                version: vec![0x41; 32],
                written: Vec::new(),
                reads: Vec::new(),
                chunks: Vec::new(),
                pending: Vec::new(),
                read_fails: false,
            }),
        }
    }

    fn with_fault(self, chunk: usize, fault: Fault) -> Simulated {
        self.state.borrow_mut().fault = Some((chunk, fault));
        self
    }

    fn written(&self) -> usize {
        self.state.borrow().written.len()
    }

    fn chunks(&self) -> Vec<(u8, u32, Vec<u8>)> {
        self.state.borrow().chunks.clone()
    }
}

fn firmware_answer(state: &mut State, content: &[u8]) -> Result<Vec<u8>, Error> {
    let answer = match content[0] {
        0x01 => {
            let mut answer = vec![0x01, state.ro.0];
            answer.extend_from_slice(&state.ro.1.to_be_bytes());
            answer.push(state.rw.0);
            answer.extend_from_slice(&state.rw.1.to_be_bytes());
            answer
        }
        0x02 => {
            let mut answer = vec![0x02, state.prepare_echo.unwrap_or(content[1])];
            answer.extend_from_slice(&state.max_chunk.to_be_bytes());
            answer.push(state.prepare_result);
            answer
        }
        0x03 => {
            let index = state.chunks.len();
            let offset = u32::from_be_bytes([content[2], content[3], content[4], content[5]]);
            state.chunks.push((content[1], offset, content[6..].to_vec()));
            let fault = match state.fault {
                Some((at, fault)) if at == index => Some(fault),
                _ => None,
            };
            let mut segment = content[1];
            let mut echoed = offset;
            let mut result = 0u8;
            match fault {
                Some(Fault::WrongSegment) => segment = if segment == 1 { 2 } else { 1 },
                Some(Fault::WrongOffset) => echoed = offset + 1,
                Some(Fault::Result(code)) => result = code,
                Some(Fault::WriteFails) => {
                    return Err(Error::OperationFailed(String::from("write refused")));
                }
                Some(Fault::ReadFails) => state.read_fails = true,
                _ => {}
            }
            let mut answer = vec![0x03, segment];
            answer.extend_from_slice(&echoed.to_be_bytes());
            answer.push(result);
            let mut frame = encode_envelope(ContentType::Firmware, &answer).unwrap();
            if let Some(Fault::Damaged) = fault {
                frame[6] ^= 0x01;
            }
            return Ok(frame);
        }
        0x04 => vec![0x04],
        other => panic!("unexpected command {}", other),
    };
    Ok(encode_envelope(ContentType::Firmware, &answer).unwrap())
}

fn query_answer(state: &mut State, content: &[u8]) -> Vec<u8> {
    assert_eq!(content[0], 0x80);
    let answer = match content[1] {
        0x04 => vec![0x00, 0x04, 0xde, 0xad, 0xbe, 0xef],
        0x01 => {
            let mut answer = vec![0x00, 0x01];
            answer.extend_from_slice(&state.version);
            answer
        }
        other => panic!("unexpected command {}", other),
    };
    encode_envelope(ContentType::Manticore, &answer).unwrap()
}

impl Interface for Simulated {
    fn read(&self, address: u32, max_len: usize) -> Result<Vec<u8>, Error> {
        let mut state = self.state.borrow_mut();
        state.reads.push((address, max_len));
        if state.read_fails {
            return Err(Error::DeviceError(String::from("read refused")));
        }
        Ok(state.pending.clone())
    }

    fn write(&self, address: u32, data: &[u8]) -> Result<(), Error> {
        let mut state = self.state.borrow_mut();
        state.written.push((address, data.to_vec()));
        let (header, content) = decode_envelope(data).expect("the host sent a bad frame");
        assert_eq!(data.len(), 5 + content.len());
        state.pending = match header.content {
            ContentType::Firmware => firmware_answer(&mut state, &content)?,
            ContentType::Manticore => query_answer(&mut state, &content),
            ContentType::Error => panic!("the host sent an error"),
        };
        Ok(())
    }
}

fn image(len: usize, seed: u8) -> Vec<u8> {
    (0..len).map(|i| (i % 251) as u8 ^ seed).collect()
}

const RO_A: u8 = 1;
const RO_B: u8 = 2;
const RW_A: u8 = 3;
const RW_B: u8 = 4;

#[test]
fn update_of_ro_sends_the_image_for_the_inactive_slot() {
    let a = image(40000, 0x00);
    let b = image(50000, 0xff);
    let sim = Simulated::new((RO_B, 65536), (RW_A, 65536), 256);
    let mut device = Device::new(sim, 0x80000);
    assert_eq!(device.ro_update(&a, &b), Ok(196));

    let chunks = device.transport().chunks();
    assert_eq!(chunks.len(), 196);
    let mut sent: Vec<u8> = Vec::new();
    for (index, (segment, offset, data)) in chunks.iter().enumerate() {
        assert_eq!(*segment, RO_B);
        assert_eq!(*offset as usize, sent.len());
        assert_eq!(*offset as usize, index * 256);
        assert!(!data.is_empty() && data.len() <= 256);
        if index + 1 < chunks.len() {
            assert_eq!(data.len(), 256);
        }
        sent.extend_from_slice(data);
    }
    assert_eq!(chunks[195].2.len(), 50000 - 195 * 256);
    assert_eq!(chunks[195].2.len(), 80);
    assert_eq!(sent, b);

    let state = device.transport().state.borrow();
    assert_eq!(state.written.len(), 2 + 196);
    assert_eq!(state.reads.len(), 2 + 196);
    assert_eq!(state.written[0].1, vec![0x02, 0x00, 0x01, 0x00, 0x04, 0x01]);
    assert_eq!(state.written[1].1, vec![0x02, 0x00, 0x02, 0x00, 0x08, 0x02, 0x02]);
    for (address, frame) in state.written.iter() {
        assert_eq!(*address, 0x80000);
        assert!(frame.len() <= SPI_MAX_WRITE);
    }
    for read in state.reads.iter() {
        assert_eq!(*read, (0x80000, SPI_MAX_READ));
    }
}

#[test]
fn update_of_ro_takes_the_first_image_for_slot_a() {
    let a = image(1000, 0x00);
    let b = image(2000, 0xff);
    let sim = Simulated::new((RO_A, 65536), (RW_B, 65536), 501);
    let mut device = Device::new(sim, 0);
    assert_eq!(device.ro_update(&a, &b), Ok(2));
    let chunks = device.transport().chunks();
    assert_eq!(chunks[0], (RO_A, 0, a[..501].to_vec()));
    assert_eq!(chunks[1], (RO_A, 501, a[501..].to_vec()));
}

#[test]
fn update_of_rw_goes_by_the_inactive_slot_of_rw() {
    let a = image(300, 0x00);
    let b = image(700, 0xff);
    let sim = Simulated::new((RO_A, 65536), (RW_B, 4096), 300);
    let mut device = Device::new(sim, 0);
    assert_eq!(device.rw_update(&a, &b), Ok(3));
    let chunks = device.transport().chunks();
    assert_eq!(chunks.len(), 3);
    assert_eq!(chunks[0], (RW_B, 0, b[..300].to_vec()));
    assert_eq!(chunks[1], (RW_B, 300, b[300..600].to_vec()));
    assert_eq!(chunks[2], (RW_B, 600, b[600..].to_vec()));

    let sim = Simulated::new((RO_A, 65536), (RW_A, 4096), 300);
    let mut device = Device::new(sim, 0);
    assert_eq!(device.rw_update(&a, &b), Ok(1));
    assert_eq!(device.transport().chunks()[0], (RW_A, 0, a.clone()));
}

#[test]
fn the_longest_chunk_that_fits_the_mailbox() {
    let a = image(40000, 0x00);
    let b = image(50000, 0xff);
    let sim = Simulated::new((RO_B, 65536), (RW_A, 65536), 501);
    let mut device = Device::new(sim, 0x80000);
    assert_eq!(device.ro_update(&a, &b), Ok(100));
    let chunks = device.transport().chunks();
    assert_eq!(chunks[99].1, 99 * 501);
    assert_eq!(chunks[99].2.len(), 50000 - 99 * 501);
    let state = device.transport().state.borrow();
    assert_eq!(state.written[2].1.len(), 512);
}

#[test]
fn a_chunk_that_does_not_fit_the_mailbox_is_not_sent() {
    let a = image(40000, 0x00);
    let b = image(50000, 0xff);
    let sim = Simulated::new((RO_B, 65536), (RW_A, 65536), 512);
    let mut device = Device::new(sim, 0x80000);
    assert_eq!(
        device.ro_update(&a, &b),
        Err(Failure::Protocol(ProtocolError::FrameTooLarge))
    );
    assert_eq!(device.transport().written(), 2);
    assert!(device.transport().chunks().is_empty());
}

#[test]
fn an_image_larger_than_its_slot_is_never_sent() {
    let a = image(100, 0x00);
    let b = image(65537, 0xff);
    let sim = Simulated::new((RO_B, 65536), (RW_A, 65536), 256);
    let mut device = Device::new(sim, 0);
    assert_eq!(
        device.ro_update(&a, &b),
        Err(Failure::Update(UpdateError::ImageTooLarge {
            segment: SegmentIdentifier::RoB,
            len: 65537,
            capacity: 65536,
        }))
    );
    assert!(device.transport().chunks().is_empty());
    assert_eq!(device.transport().written(), 2);

    let sim = Simulated::new((RO_B, 65536), (RW_A, 65536), 256);
    let mut device = Device::new(sim, 0);
    let segment = SegmentInfo { identifier: SegmentIdentifier::RoB, size: 65536 };
    assert!(matches!(
        device.write_image(segment, 256, &b),
        Err(Failure::Update(UpdateError::ImageTooLarge { .. }))
    ));
    assert_eq!(device.transport().written(), 0);
}

#[test]
fn an_image_as_large_as_its_slot_is_sent() {
    let b = image(1024, 0xff);
    let sim = Simulated::new((RO_B, 1024), (RW_A, 65536), 256);
    let mut device = Device::new(sim, 0);
    assert_eq!(device.ro_update(&[], &b), Ok(4));
}

#[test]
fn an_empty_image_needs_no_chunk() {
    let sim = Simulated::new((RO_A, 1024), (RW_A, 65536), 0);
    let mut device = Device::new(sim, 0);
    assert_eq!(device.ro_update(&[], &[1, 2, 3]), Ok(0));
    assert_eq!(device.transport().written(), 2);
}

#[test]
fn a_slot_of_the_other_region_ends_the_update() {
    let sim = Simulated::new((RW_A, 65536), (RW_B, 65536), 256);
    let mut device = Device::new(sim, 0);
    assert_eq!(
        device.ro_update(&[1], &[2]),
        Err(Failure::Update(UpdateError::UnexpectedSegment { segment: SegmentIdentifier::RwA }))
    );
    assert_eq!(device.transport().written(), 1);

    let sim = Simulated::new((RO_A, 65536), (RO_B, 65536), 256);
    let mut device = Device::new(sim, 0);
    assert_eq!(
        device.rw_update(&[1], &[2]),
        Err(Failure::Update(UpdateError::UnexpectedSegment { segment: SegmentIdentifier::RoB }))
    );
    assert_eq!(device.transport().written(), 1);
}

#[test]
fn a_refused_preparation_ends_the_update() {
    let sim = Simulated::new((RO_B, 65536), (RW_A, 65536), 256);
    sim.state.borrow_mut().prepare_result = 2;
    let mut device = Device::new(sim, 0);
    assert_eq!(
        device.ro_update(&[1], &[2]),
        Err(Failure::Update(UpdateError::PrepareRejected { result: 2 }))
    );
    assert_eq!(device.transport().written(), 2);
    assert!(device.transport().chunks().is_empty());

    let sim = Simulated::new((RO_B, 65536), (RW_A, 65536), 256);
    sim.state.borrow_mut().prepare_echo = Some(RO_A);
    let mut device = Device::new(sim, 0);
    assert_eq!(
        device.ro_update(&[1], &[2]),
        Err(Failure::Update(UpdateError::SegmentMismatch {
            expected_segment: SegmentIdentifier::RoB,
            actual_segment: SegmentIdentifier::RoA,
        }))
    );
    assert!(device.transport().chunks().is_empty());
}

#[test]
fn chunks_of_length_zero_end_the_update() {
    let sim = Simulated::new((RO_B, 65536), (RW_A, 65536), 0);
    let mut device = Device::new(sim, 0);
    assert_eq!(
        device.ro_update(&[1], &[2]),
        Err(Failure::Update(UpdateError::ZeroChunkLength))
    );
    assert!(device.transport().chunks().is_empty());
}

fn faulty_update(fault: Fault) -> (Result<u32, Failure>, usize) {
    let b = image(1000, 0xff);
    let sim = Simulated::new((RO_B, 65536), (RW_A, 65536), 100).with_fault(3, fault);
    let mut device = Device::new(sim, 0);
    let r = device.ro_update(&[], &b);
    (r, device.transport().chunks().len())
}

#[test]
fn a_wrong_slot_in_a_response_ends_the_transfer() {
    let (r, chunks) = faulty_update(Fault::WrongSegment);
    assert_eq!(
        r,
        Err(Failure::Update(UpdateError::SegmentMismatch {
            expected_segment: SegmentIdentifier::RoB,
            actual_segment: SegmentIdentifier::RoA,
        }))
    );
    assert_eq!(chunks, 4);
}

#[test]
fn a_wrong_offset_in_a_response_ends_the_transfer() {
    let (r, chunks) = faulty_update(Fault::WrongOffset);
    assert_eq!(
        r,
        Err(Failure::Update(UpdateError::OffsetMismatch {
            expected_offset: 300,
            actual_offset: 301,
        }))
    );
    assert_eq!(chunks, 4);
}

#[test]
fn a_failed_write_ends_the_transfer() {
    let (r, chunks) = faulty_update(Fault::Result(9));
    assert_eq!(r, Err(Failure::Update(UpdateError::WriteRejected { result: 9 })));
    assert_eq!(chunks, 4);
}

#[test]
fn a_damaged_response_ends_the_transfer() {
    let (r, chunks) = faulty_update(Fault::Damaged);
    assert!(matches!(
        r,
        Err(Failure::Protocol(ProtocolError::ChecksumMismatch { .. }))
    ));
    assert_eq!(chunks, 4);
}

#[test]
fn a_failing_transport_ends_the_transfer() {
    let (r, chunks) = faulty_update(Fault::WriteFails);
    assert_eq!(
        r,
        Err(Failure::Transport(Error::OperationFailed(String::from("write refused"))))
    );
    assert_eq!(chunks, 4);
    let (r, chunks) = faulty_update(Fault::ReadFails);
    assert_eq!(
        r,
        Err(Failure::Transport(Error::DeviceError(String::from("read refused"))))
    );
    assert_eq!(chunks, 4);
}

#[test]
fn single_steps_of_the_update() {
    let sim = Simulated::new((RO_B, 65536), (RW_A, 4096), 128);
    let mut device = Device::new(sim, 0x1000);
    assert_eq!(device.mailbox_addr(), 0x1000);
    assert_eq!(
        device.firmware_get_inactive_ro(),
        Ok(SegmentInfo { identifier: SegmentIdentifier::RoB, size: 65536 })
    );
    assert_eq!(
        device.firmware_get_inactive_rw(),
        Ok(SegmentInfo { identifier: SegmentIdentifier::RwA, size: 4096 })
    );
    assert_eq!(device.firmware_update_prepare(SegmentIdentifier::RwA), Ok(128));
    assert_eq!(device.firmware_write_chunk(SegmentIdentifier::RwA, 64, &[1, 2, 3]), Ok(()));
    assert_eq!(device.transport().chunks(), vec![(RW_A, 64, vec![1, 2, 3])]);
    let segment = SegmentInfo { identifier: SegmentIdentifier::RwA, size: 4096 };
    assert_eq!(device.write_image(segment, 128, &image(300, 1)), Ok(3));
    assert_eq!(device.fw_update(segment, &image(129, 1)), Ok(2));
}

#[test]
fn simple_queries() {
    let sim = Simulated::new((RO_B, 65536), (RW_A, 4096), 128);
    let mut device = Device::new(sim, HAVENTOOL_DEFAULT_MAILBOX_ADDR);
    assert_eq!(
        device.device_info(),
        Ok(DeviceInfoResponse { info: vec![0xde, 0xad, 0xbe, 0xef] })
    );
    assert_eq!(
        device.inactive_segments_info(),
        Ok(InactiveSegmentsInfoResponse {
            ro: SegmentInfo { identifier: SegmentIdentifier::RoB, size: 65536 },
            rw: SegmentInfo { identifier: SegmentIdentifier::RwA, size: 4096 },
        })
    );
    assert_eq!(device.reboot(), Ok(RebootResponse {}));
    let state = device.transport().state.borrow();
    assert_eq!(state.written[0], (0x80000, vec![0x01, 0x00, 0x03, 0x00, 0x88, 0x80, 0x04, 0x00]));
    assert_eq!(state.written[2], (0x80000, vec![0x02, 0x00, 0x02, 0x00, 0x08, 0x04, 0x00]));
}

#[test]
fn firmware_version_goes_by_its_index() {
    let sim = Simulated::new((RO_B, 65536), (RW_A, 4096), 128);
    let mut version = b"1.0.7".to_vec();
    version.resize(32, b' ');
    sim.state.borrow_mut().version = version.clone();
    let mut device = Device::new(sim, 0);
    assert_eq!(
        device.fw_info(0),
        Ok(FirmwareInfo {
            version: version.clone(),
            decoded: Version::Text(format!("{:<32}", "1.0.7")),
        })
    );

    let mut record = vec![0, 0, 0, 1, 0, 0, 0, 2, 0, 0, 0, 3, 0, 0, 0, 0, 0x60, 0, 0, 0];
    record.resize(32, 0xff);
    device.transport().state.borrow_mut().version = record.clone();
    let info = BuildInfo { epoch: 1, major: 2, minor: 3, timestamp: 0x6000_0000 };
    assert_eq!(
        device.fw_info(1),
        Ok(FirmwareInfo { version: record.clone(), decoded: Version::Ro(info) })
    );
    assert_eq!(
        device.fw_info(2),
        Ok(FirmwareInfo { version: record.clone(), decoded: Version::Rw(info) })
    );
    assert_eq!(
        device.fw_info(7),
        Ok(FirmwareInfo { version: record.clone(), decoded: Version::Other })
    );
    // the record is no text
    assert_eq!(
        device.fw_info(0),
        Err(Failure::Protocol(ProtocolError::MalformedMessage))
    );
    let state = device.transport().state.borrow();
    assert_eq!(state.written[1].1, vec![0x01, 0x00, 0x03, 0x00, 0x86, 0x80, 0x01, 0x01]);
}

#[test]
fn build_info_is_read_from_an_image() {
    let sim = Simulated::new((RO_B, 65536), (RW_A, 4096), 128);
    let device = Device::new(sim, 0);
    let mut file = vec![0xeeu8; 860];
    file.extend_from_slice(&[0, 0, 0, 9, 0, 0, 0, 8, 0, 0, 0, 7, 0, 0, 0, 0, 0, 0, 0, 6]);
    assert_eq!(
        device.build_info(&file),
        Some(BuildInfo { epoch: 9, major: 8, minor: 7, timestamp: 6 })
    );
    file.extend_from_slice(&[1, 2, 3]);
    assert_eq!(
        device.build_info(&file),
        Some(BuildInfo { epoch: 9, major: 8, minor: 7, timestamp: 6 })
    );
    assert_eq!(device.build_info(&file[..879]), None);
    assert_eq!(device.build_info(&file[..860]), None);
    assert_eq!(device.build_info(&[]), None);
    assert_eq!(device.transport().written(), 0);
}

#[test]
fn the_window_is_cut_or_padded() {
    assert_eq!(mailbox_window(&[]), vec![0u8; 2048]);
    let window = mailbox_window(&[1, 2, 3]);
    assert_eq!(window.len(), 2048);
    assert_eq!(&window[..4], &[1, 2, 3, 0]);
    let long = image(3000, 0x5a);
    assert_eq!(mailbox_window(&long), long[..2048].to_vec());
}

#[test]
fn mailbox_transfers_are_handed_to_the_transport() {
    let sim = Simulated::new((RO_B, 65536), (RW_A, 4096), 128);
    let mut device = Device::new(sim, 0x40);
    let frame = encode_envelope(ContentType::Firmware, &[0x04, 0x00]).unwrap();
    assert_eq!(device.write_mailbox(&frame), Ok(()));
    let window = device.read_mailbox().unwrap();
    assert_eq!(window.len(), 2048);
    assert_eq!(&window[..6], &[0x02, 0x00, 0x01, 0x00, 0x07, 0x04]);
    let state = device.transport().state.borrow();
    assert_eq!(state.written[0], (0x40, frame));
    assert_eq!(state.reads[0], (0x40, 2048));
}

#[test]
fn fifty_thousand_bytes_framed_in_chunks_of_512() {
    let a = image(40000, 0x00);
    let b = image(50000, 0xff);
    let sim = Simulated::new((RO_B, 65536), (RW_A, 65536), 512);
    let mut device = Device::new(sim, 0x80000);
    let inactive = device.firmware_get_inactive_ro().unwrap();
    assert_eq!(inactive, SegmentInfo { identifier: SegmentIdentifier::RoB, size: 65536 });
    let chosen = match slot_of(Region::Ro, inactive.identifier) {
        Ok(Slot::A) => &a,
        Ok(Slot::B) => &b,
        Err(e) => panic!("{:?}", e),
    };
    assert_eq!(chosen.len(), 50000);
    let max_chunk = device.firmware_update_prepare(inactive.identifier).unwrap();
    assert_eq!(max_chunk, 512);

    // A chunk of 512 bytes makes a frame of 523, more than the mailbox
    // takes: the chunks are framed and answered past it.
    let len = chosen.len() as u32;
    let mut session = UpdateSession::new(inactive.identifier, max_chunk);
    let mut writes = 0;
    let mut last = 0;
    while session.cursor < len {
        let n = session.next_chunk_len(len);
        let from = session.cursor as usize;
        let request = WriteChunkRequest {
            segment: session.segment,
            offset: session.cursor,
            data: chosen[from..from + n as usize].to_vec(),
        };
        let frame = serialize(&request, 1024).unwrap();
        assert_eq!(frame.len(), 11 + n as usize);
        device.transport().write(0x80000, &frame).unwrap();
        let window = mailbox_window(&device.transport().read(0x80000, SPI_MAX_READ).unwrap());
        let response = deserialize::<WriteChunkResponse>(&window).unwrap();
        assert_eq!(check_chunk(session.segment, session.cursor, &response), Ok(()));
        session.advance(n);
        writes += 1;
        last = n;
    }
    assert_eq!(writes, 98);
    assert_eq!(last, 336);
    let chunks = device.transport().chunks();
    assert_eq!(chunks.len(), 98);
    assert_eq!(chunks[97], (RO_B, 97 * 512, b[97 * 512..].to_vec()));
    let sent: Vec<u8> = chunks.iter().flat_map(|chunk| chunk.2.clone()).collect();
    assert_eq!(sent, b);
}

#[test]
fn requests_are_framed_and_written() {
    let sim = Simulated::new((RO_B, 65536), (RW_A, 4096), 128);
    let mut device = Device::new(sim, 0x20);
    assert_eq!(device.send_firmware(&RebootRequest { time: RebootTime::Delayed }), Ok(()));
    assert_eq!(device.send_manticore(&FirmwareVersionRequest { index: 2 }), Ok(()));
    let state = device.transport().state.borrow();
    assert_eq!(state.written[0], (0x20, vec![0x02, 0x00, 0x02, 0x00, 0x09, 0x04, 0x01]));
    assert_eq!(state.written[1], (0x20, vec![0x01, 0x00, 0x03, 0x00, 0x87, 0x80, 0x01, 0x02]));
    assert!(state.reads.is_empty());
}

#[test]
fn a_request_that_does_not_fit_is_not_written() {
    let sim = Simulated::new((RO_B, 65536), (RW_A, 4096), 128);
    let mut device = Device::new(sim, 0);
    let request = WriteChunkRequest {
        segment: SegmentIdentifier::RoA,
        offset: 0,
        data: vec![0; 502],
    };
    assert_eq!(
        device.send_firmware(&request),
        Err(Failure::Protocol(ProtocolError::FrameTooLarge))
    );
    assert_eq!(
        device.request_firmware::<WriteChunkRequest, WriteChunkResponse>(&request),
        Err(Failure::Protocol(ProtocolError::FrameTooLarge))
    );
    assert_eq!(
        device.firmware_write_chunk(SegmentIdentifier::RoA, 0, &[0; 502]),
        Err(Failure::Protocol(ProtocolError::FrameTooLarge))
    );
    assert_eq!(device.transport().written(), 0);
    assert_eq!(device.firmware_write_chunk(SegmentIdentifier::RoA, 0, &[0; 501]), Ok(()));
    assert_eq!(device.transport().written(), 1);
}

#[test]
fn an_exchange_is_one_write_and_one_read() {
    let sim = Simulated::new((RO_B, 65536), (RW_A, 4096), 128);
    let mut device = Device::new(sim, 0x300);
    let response = device
        .request_firmware::<UpdatePrepareRequest, UpdatePrepareResponse>(&UpdatePrepareRequest {
            segment: SegmentIdentifier::RwB,
        });
    assert_eq!(
        response,
        Ok(UpdatePrepareResponse {
            segment: SegmentIdentifier::RwB,
            max_chunk_length: 128,
            result: 0,
        })
    );
    let response = device.request_manticore::<DeviceInfoRequest, DeviceInfoResponse>(
        &DeviceInfoRequest { index: InfoIndex::UniqueChipIndex },
    );
    assert_eq!(response, Ok(DeviceInfoResponse { info: vec![0xde, 0xad, 0xbe, 0xef] }));
    // the answer to one request is no answer to another
    let response = device.request_manticore::<DeviceInfoRequest, FirmwareVersionResponse>(
        &DeviceInfoRequest { index: InfoIndex::UniqueChipIndex },
    );
    assert_eq!(
        response,
        Err(Failure::Protocol(ProtocolError::UnexpectedMessageType {
            expected: 0x01,
            actual: 0x04,
        }))
    );
    let state = device.transport().state.borrow();
    assert_eq!(state.written.len(), 3);
    assert_eq!(state.reads, vec![(0x300, 2048); 3]);
}

#[test]
fn a_read_comes_to_a_window_or_to_the_error_of_the_transport() {
    let window = mailbox_reply(Ok(vec![5, 6, 7])).unwrap();
    assert_eq!(window.len(), 2048);
    assert_eq!(&window[..4], &[5, 6, 7, 0]);
    assert_eq!(mailbox_reply(Ok(image(4000, 3))), Ok(image(4000, 3)[..2048].to_vec()));
    assert_eq!(
        mailbox_reply(Err(Error::DeviceError(String::from("gone")))),
        Err(Error::DeviceError(String::from("gone")))
    );
    assert_eq!(
        mailbox_reply(Err(Error::OperationFailed(String::from("no")))),
        Err(Error::OperationFailed(String::from("no")))
    );
}

#[test]
fn a_failed_read_is_passed_on() {
    let sim = Simulated::new((RO_B, 65536), (RW_A, 4096), 128);
    sim.state.borrow_mut().read_fails = true;
    let mut device = Device::new(sim, 0x10);
    assert_eq!(
        device.read_mailbox(),
        Err(Error::DeviceError(String::from("read refused")))
    );
    assert_eq!(
        device.reboot(),
        Err(Failure::Transport(Error::DeviceError(String::from("read refused"))))
    );
    let state = device.transport().state.borrow();
    assert_eq!(state.reads, vec![(0x10, 2048); 2]);
    assert_eq!(state.written.len(), 1);
}
