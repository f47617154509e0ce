use otpilot_tool::update::{
    check_capacity, check_chunk, check_prepare, count_chunks, slot_of, Region, Slot, UpdateError,
    UpdateSession,
};
use otpilot_tool::wire::firmware::{
    SegmentIdentifier, UpdatePrepareResponse, WriteChunkResponse,
};

#[test]
fn the_inactive_slot_picks_the_image() {
    assert_eq!(slot_of(Region::Ro, SegmentIdentifier::RoA), Ok(Slot::A));
    assert_eq!(slot_of(Region::Ro, SegmentIdentifier::RoB), Ok(Slot::B));
    assert_eq!(slot_of(Region::Rw, SegmentIdentifier::RwA), Ok(Slot::A));
    assert_eq!(slot_of(Region::Rw, SegmentIdentifier::RwB), Ok(Slot::B));
}

#[test]
fn a_slot_of_the_other_region_is_unexpected() {
    assert_eq!(
        slot_of(Region::Ro, SegmentIdentifier::RwA),
        Err(UpdateError::UnexpectedSegment { segment: SegmentIdentifier::RwA })
    );
    assert_eq!(
        slot_of(Region::Ro, SegmentIdentifier::RwB),
        Err(UpdateError::UnexpectedSegment { segment: SegmentIdentifier::RwB })
    );
    assert_eq!(
        slot_of(Region::Rw, SegmentIdentifier::RoA),
        Err(UpdateError::UnexpectedSegment { segment: SegmentIdentifier::RoA })
    );
    assert_eq!(
        slot_of(Region::Rw, SegmentIdentifier::RoB),
        Err(UpdateError::UnexpectedSegment { segment: SegmentIdentifier::RoB })
    );
}

#[test]
fn prepare_response_must_echo_the_slot_and_succeed() {
    let good = UpdatePrepareResponse {
        segment: SegmentIdentifier::RoB,
        max_chunk_length: 512,
        result: 0,
    };
    assert_eq!(check_prepare(SegmentIdentifier::RoB, &good), Ok(512));
    assert_eq!(
        check_prepare(SegmentIdentifier::RoA, &good),
        Err(UpdateError::SegmentMismatch {
            expected_segment: SegmentIdentifier::RoA,
            actual_segment: SegmentIdentifier::RoB,
        })
    );
    let busy = UpdatePrepareResponse { result: 3, ..good };
    assert_eq!(
        check_prepare(SegmentIdentifier::RoB, &busy),
        Err(UpdateError::PrepareRejected { result: 3 })
    );
    // the slot is looked at first
    assert_eq!(
        check_prepare(SegmentIdentifier::RwA, &busy),
        Err(UpdateError::SegmentMismatch {
            expected_segment: SegmentIdentifier::RwA,
            actual_segment: SegmentIdentifier::RoB,
        })
    );
}

#[test]
fn chunk_response_must_echo_slot_and_offset_and_succeed() {
    let good = WriteChunkResponse { segment: SegmentIdentifier::RwB, offset: 1024, result: 0 };
    assert_eq!(check_chunk(SegmentIdentifier::RwB, 1024, &good), Ok(()));
    assert_eq!(
        check_chunk(SegmentIdentifier::RwA, 1024, &good),
        Err(UpdateError::SegmentMismatch {
            expected_segment: SegmentIdentifier::RwA,
            actual_segment: SegmentIdentifier::RwB,
        })
    );
    assert_eq!(
        check_chunk(SegmentIdentifier::RwB, 512, &good),
        Err(UpdateError::OffsetMismatch { expected_offset: 512, actual_offset: 1024 })
    );
    let failed = WriteChunkResponse { result: 1, ..good };
    assert_eq!(
        check_chunk(SegmentIdentifier::RwB, 1024, &failed),
        Err(UpdateError::WriteRejected { result: 1 })
    );
    // slot before offset before result
    assert_eq!(
        check_chunk(SegmentIdentifier::RwA, 0, &failed),
        Err(UpdateError::SegmentMismatch {
            expected_segment: SegmentIdentifier::RwA,
            actual_segment: SegmentIdentifier::RwB,
        })
    );
    assert_eq!(
        check_chunk(SegmentIdentifier::RwB, 0, &failed),
        Err(UpdateError::OffsetMismatch { expected_offset: 0, actual_offset: 1024 })
    );
}

#[test]
fn an_image_must_fit_its_slot() {
    assert_eq!(check_capacity(SegmentIdentifier::RoB, 65536, 50000), Ok(()));
    assert_eq!(check_capacity(SegmentIdentifier::RoB, 65536, 65536), Ok(()));
    assert_eq!(check_capacity(SegmentIdentifier::RoB, 0, 0), Ok(()));
    assert_eq!(
        check_capacity(SegmentIdentifier::RoB, 65536, 65537),
        Err(UpdateError::ImageTooLarge {
            segment: SegmentIdentifier::RoB,
            len: 65537,
            capacity: 65536,
        })
    );
}

#[test]
fn chunks_are_counted_rounding_up() {
    assert_eq!(count_chunks(50000, 512), 98);
    assert_eq!(count_chunks(0, 512), 0);
    assert_eq!(count_chunks(1, 512), 1);
    assert_eq!(count_chunks(512, 512), 1);
    assert_eq!(count_chunks(513, 512), 2);
    assert_eq!(count_chunks(1024, 512), 2);
    assert_eq!(count_chunks(u32::MAX, 1), u32::MAX);
    assert_eq!(count_chunks(u32::MAX, u16::MAX), 65537);
    assert_eq!(count_chunks(u32::MAX, u16::MAX - 1), 65539);
}

#[test]
fn fifty_thousand_bytes_in_chunks_of_512() {
    let len: u32 = 50000;
    let mut session = UpdateSession::new(SegmentIdentifier::RoB, 512);
    let mut chunks: Vec<(u32, u16)> = Vec::new();
    while session.cursor < len {
        let n = session.next_chunk_len(len);
        chunks.push((session.cursor, n));
        session.advance(n);
    }
    assert_eq!(chunks.len(), 98);
    assert_eq!(chunks.len() as u32, count_chunks(len, 512));
    assert_eq!(chunks[97], (97 * 512, 336));
    let mut end = 0u32;
    for (index, (offset, n)) in chunks.iter().enumerate() {
        assert_eq!(*offset, end);
        assert_eq!(*offset, index as u32 * 512);
        assert!(*n > 0 && *n <= 512);
        if index + 1 < chunks.len() {
            assert_eq!(*n, 512);
        }
        end = offset + *n as u32;
    }
    assert_eq!(end, len);
    assert_eq!(session.segment, SegmentIdentifier::RoB);
    assert_eq!(session.max_chunk_length, 512);
}

#[test]
fn next_chunk_is_what_is_left_at_the_end() {
    let session = UpdateSession { segment: SegmentIdentifier::RwA, max_chunk_length: 100, cursor: 900 };
    assert_eq!(session.next_chunk_len(1000), 100);
    assert_eq!(session.next_chunk_len(950), 50);
    assert_eq!(session.next_chunk_len(900), 0);
    let session = UpdateSession { segment: SegmentIdentifier::RwA, max_chunk_length: 0, cursor: 0 };
    assert_eq!(session.next_chunk_len(10), 0);
}

#[test]
fn inactive_slot_b_with_chunks_of_512() {
    // discovery names RoB with 65536 bytes; the images are 40000 and 50000 bytes
    let images: [usize; 2] = [40000, 50000];
    let chosen = match slot_of(Region::Ro, SegmentIdentifier::RoB) {
        Ok(Slot::A) => images[0],
        Ok(Slot::B) => images[1],
        Err(e) => panic!("{:?}", e),
    };
    assert_eq!(chosen, 50000);
    assert_eq!(check_capacity(SegmentIdentifier::RoB, 65536, chosen), Ok(()));
    assert_eq!(count_chunks(chosen as u32, 512), 98);

    let mut session = UpdateSession::new(SegmentIdentifier::RoB, 512);
    let mut writes = 0;
    let mut last = 0u16;
    while session.cursor < chosen as u32 {
        last = session.next_chunk_len(chosen as u32);
        session.advance(last);
        writes += 1;
    }
    assert_eq!(writes, 98);
    assert_eq!(last, 336);
    assert_eq!(last as usize, 50000 - 97 * 512);
    assert_eq!(session.cursor, 50000);
}
