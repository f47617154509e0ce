//! The envelope that wraps every message exchanged with the device: a
//! content-type tag, the content's length and a checksum, followed by the
//! content itself.

use vstd::prelude::*;
use crate::bytes::{
    be16, be16_at, copy_range, lemma_be16_round_trip, push_be16, push_bytes, read_be16,
};

pub mod firmware;
pub mod manticore;
pub mod spiutils;

verus! {

/// Length of the envelope header on the wire, in bytes.
pub const HEADER_LEN: usize = 5;

/// Largest content that the 16-bit length field can describe.
pub const MAX_CONTENT_LEN: usize = 0xffff;

/// Tag of a device-reported error.
pub const TAG_ERROR: u8 = 0x00;

/// Tag of the query family.
pub const TAG_MANTICORE: u8 = 0x01;

/// Tag of the firmware-control family.
pub const TAG_FIRMWARE: u8 = 0x02;

/// What an envelope carries.
#[derive(Clone, Copy, Debug, PartialEq, Eq, Structural)]
pub enum ContentType {
    /// An error reported by the device.
    Error,
    /// A message of the query family.
    Manticore,
    /// A message of the firmware-control family.
    Firmware,
}

/// The parsed envelope header.
#[derive(Clone, Copy, Debug, PartialEq, Eq, Structural)]
pub struct Header {
    /// The kind of content that follows the header.
    pub content: ContentType,
    /// The number of content bytes that follow the header.
    pub content_len: u16,
    /// Checksum over the header, its checksum field taken as zero, and the content.
    pub checksum: u16,
}

/// Why a frame was not accepted, or could not be built.
#[derive(Clone, Copy, Debug, PartialEq, Eq, Structural)]
pub enum ProtocolError {
    /// The frame ends before its header, or before the content that the header announces.
    Truncated,
    /// The checksum in the header is not the one computed over the frame.
    ChecksumMismatch { computed: u16, found: u16 },
    /// The content-type tag is none of the known ones.
    UnknownContentType { tag: u8 },
    /// The device answered with an error envelope carrying this code.
    DeviceReportedError { code: u8 },
    /// The envelope carries another family than the one asked for.
    UnexpectedContentType { expected_content: ContentType, actual_content: ContentType },
    /// The inner header names another message than the one expected.
    UnexpectedMessageType { expected: u8, actual: u8 },
    /// A request arrived where a response was expected.
    UnexpectedDirection,
    /// The content does not decode as the expected message.
    MalformedMessage,
    /// The message does not fit the frame it was to be written to.
    FrameTooLarge,
}

impl ContentType {
    /// The tag that stands for this content type on the wire.
    pub open spec fn tag_spec(self) -> u8 {
        match self {
            ContentType::Error => TAG_ERROR,
            ContentType::Manticore => TAG_MANTICORE,
            ContentType::Firmware => TAG_FIRMWARE,
        }
    }

    /// The content type that `tag` stands for, if any.
    pub open spec fn from_tag_spec(tag: u8) -> Option<ContentType> {
        if tag == TAG_ERROR {
            Some(ContentType::Error)
        } else if tag == TAG_MANTICORE {
            Some(ContentType::Manticore)
        } else if tag == TAG_FIRMWARE {
            Some(ContentType::Firmware)
        } else {
            None
        }
    }

    /// The tag that stands for this content type on the wire.
    pub fn tag(self) -> (t: u8)
        ensures
            t == self.tag_spec(),
    {
        match self {
            ContentType::Error => TAG_ERROR,
            ContentType::Manticore => TAG_MANTICORE,
            ContentType::Firmware => TAG_FIRMWARE,
        }
    }

    /// The content type that `tag` stands for, if any.
    pub fn from_tag(tag: u8) -> (r: Option<ContentType>)
        ensures
            r == ContentType::from_tag_spec(tag),
    {
        if tag == TAG_ERROR {
            Some(ContentType::Error)
        } else if tag == TAG_MANTICORE {
            Some(ContentType::Manticore)
        } else if tag == TAG_FIRMWARE {
            Some(ContentType::Firmware)
        } else {
            None
        }
    }
}

/// A value that can be written to the wire.
pub trait ToWire: View {
    /// The bytes that stand for the value.
    spec fn encoding(v: Self::V) -> Seq<u8>;

    /// Appends the bytes that stand for `self`.
    fn to_wire(&self, out: &mut Vec<u8>)
        ensures
            final(out)@ == old(out)@ + Self::encoding(self@),
    ;
}

/// A value that can be read from the wire.
pub trait FromWire: Sized + View {
    /// The value that `data` stands for, where it stands for one.
    spec fn decoding(data: Seq<u8>) -> Option<Self::V>;

    /// Reads the value that `data` stands for, where it stands for one.
    fn from_wire(data: &[u8]) -> (r: Option<Self>)
        ensures
            match r {
                Some(value) => Self::decoding(data@) == Some(value@),
                None => Self::decoding(data@).is_none(),
            },
    ;
}

/// The sum of all bytes of `s`.
pub open spec fn byte_sum(s: Seq<u8>) -> int
    decreases s.len(),
{
    if s.len() == 0 {
        0
    } else {
        byte_sum(s.drop_last()) + s.last() as int
    }
}

/// The five header bytes: tag, content length, checksum.
pub open spec fn header_bytes(tag: u8, content_len: u16, checksum: u16) -> Seq<u8> {
    seq![tag] + be16(content_len) + be16(checksum)
}

/// The checksum of an envelope with this tag and content: the sum, modulo
/// 2^16, of the header bytes with a zero checksum field and of the content bytes.
pub open spec fn checksum_spec(tag: u8, content: Seq<u8>) -> u16
    recommends
        content.len() <= MAX_CONTENT_LEN,
{
    (byte_sum(header_bytes(tag, content.len() as u16, 0) + content) % 0x1_0000) as u16
}

/// The frame that carries `content` under `tag`.
pub open spec fn frame_spec(tag: u8, content: Seq<u8>) -> Seq<u8>
    recommends
        content.len() <= MAX_CONTENT_LEN,
{
    header_bytes(tag, content.len() as u16, checksum_spec(tag, content)) + content
}

/// What decoding the envelope of `data` gives: the header and the content,
/// cut to the announced length, or the first fault found. The order of the
/// checks is: length, checksum, content type, device-reported error.
pub open spec fn parse_envelope(data: Seq<u8>) -> Result<(Header, Seq<u8>), ProtocolError> {
    if data.len() < HEADER_LEN {
        Err(ProtocolError::Truncated)
    } else {
        let tag = data[0];
        let content_len = be16_at(data, 1);
        let found = be16_at(data, 3);
        if data.len() < HEADER_LEN + content_len {
            Err(ProtocolError::Truncated)
        } else {
            let content = data.subrange(HEADER_LEN as int, HEADER_LEN + content_len);
            let computed = checksum_spec(tag, content);
            if found != computed {
                Err(ProtocolError::ChecksumMismatch { computed, found })
            } else {
                match ContentType::from_tag_spec(tag) {
                    None => Err(ProtocolError::UnknownContentType { tag }),
                    Some(ContentType::Error) => if content_len == 0 {
                        Err(ProtocolError::MalformedMessage)
                    } else {
                        Err(ProtocolError::DeviceReportedError { code: content[0] })
                    },
                    Some(content_type) => Ok(
                        (Header { content: content_type, content_len, checksum: found }, content),
                    ),
                }
            }
        }
    }
}

/// Appending a byte adds it to the sum.
pub proof fn lemma_byte_sum_push(s: Seq<u8>, b: u8)
    ensures
        byte_sum(s.push(b)) == byte_sum(s) + b as int,
{
    assert(s.push(b).drop_last() =~= s);
}

/// The sum of a concatenation is the sum of the sums.
pub proof fn lemma_byte_sum_concat(a: Seq<u8>, b: Seq<u8>)
    ensures
        byte_sum(a + b) == byte_sum(a) + byte_sum(b),
    decreases b.len(),
{
    if b.len() == 0 {
        assert(a + b =~= a);
    } else {
        assert((a + b).drop_last() =~= a + b.drop_last());
        lemma_byte_sum_concat(a, b.drop_last());
    }
}

/// No byte is above 255, so no sum is above 255 times the length.
pub proof fn lemma_byte_sum_bounds(s: Seq<u8>)
    ensures
        0 <= byte_sum(s) <= 255 * s.len(),
    decreases s.len(),
{
    if s.len() > 0 {
        lemma_byte_sum_bounds(s.drop_last());
    }
}

/// Computes the checksum of an envelope with this tag and content.
pub fn compute_checksum(tag: u8, content: &[u8]) -> (sum: u16)
    requires
        content.len() <= MAX_CONTENT_LEN,
    ensures
        sum == checksum_spec(tag, content@),
{
    let len: u16 = content.len() as u16;
    let head: u32 = tag as u32 + (len / 0x100) as u32 + (len % 0x100) as u32;
    let mut total: u32 = head;
    let mut i: usize = 0;
    assert(content@.take(0) =~= Seq::<u8>::empty());
    while i < content.len()
        invariant
            i <= content.len() <= MAX_CONTENT_LEN,
            head <= 765,
            total == head + byte_sum(content@.take(i as int)),
            total <= head + 255 * i,
        decreases content.len() - i,
    {
        proof {
            lemma_byte_sum_push(content@.take(i as int), content@[i as int]);
            assert(content@.take(i as int).push(content@[i as int]) =~= content@.take(i + 1));
        }
        total = total + content[i] as u32;
        i += 1;
    }
    proof {
        assert(content@.take(content.len() as int) =~= content@);
        lemma_checksum_terms(tag, content@);
    }
    (total % 0x1_0000) as u16
}

/// Wraps `payload` in an envelope of the given content type: header, then
/// payload. Fails only where the payload is longer than the length field
/// can say.
pub fn encode_envelope(content_type: ContentType, payload: &[u8]) -> (r: Result<
    Vec<u8>,
    ProtocolError,
>)
    ensures
        payload.len() > MAX_CONTENT_LEN ==> r == Err::<Vec<u8>, ProtocolError>(
            ProtocolError::FrameTooLarge,
        ),
        payload.len() <= MAX_CONTENT_LEN ==> r is Ok && r->Ok_0@ == frame_spec(
            content_type.tag_spec(),
            payload@,
        ),
{
    if payload.len() > MAX_CONTENT_LEN {
        return Err(ProtocolError::FrameTooLarge);
    }
    let tag = content_type.tag();
    let checksum = compute_checksum(tag, payload);
    let mut frame: Vec<u8> = Vec::new();
    frame.push(tag);
    push_be16(&mut frame, payload.len() as u16);
    push_be16(&mut frame, checksum);
    push_bytes(&mut frame, payload);
    assert(frame@ =~= frame_spec(tag, payload@));
    Ok(frame)
}

/// Parses the envelope at the start of `data`, checks it, and returns the
/// header with the content cut to the announced length; what follows the
/// content is ignored.
pub fn decode_envelope(data: &[u8]) -> (r: Result<(Header, Vec<u8>), ProtocolError>)
    ensures
        match r {
            Ok((header, content)) => parse_envelope(data@) == Ok::<
                (Header, Seq<u8>),
                ProtocolError,
            >((header, content@)),
            Err(e) => parse_envelope(data@) == Err::<(Header, Seq<u8>), ProtocolError>(e),
        },
{
    if data.len() < HEADER_LEN {
        return Err(ProtocolError::Truncated);
    }
    let tag = data[0];
    let content_len = read_be16(data, 1);
    let found = read_be16(data, 3);
    if data.len() - HEADER_LEN < content_len as usize {
        return Err(ProtocolError::Truncated);
    }
    let content = copy_range(data, HEADER_LEN, HEADER_LEN + content_len as usize);
    let computed = compute_checksum(tag, content.as_slice());
    if found != computed {
        return Err(ProtocolError::ChecksumMismatch { computed, found });
    }
    match ContentType::from_tag(tag) {
        None => Err(ProtocolError::UnknownContentType { tag }),
        Some(ContentType::Error) => {
            if content_len == 0 {
                Err(ProtocolError::MalformedMessage)
            } else {
                Err(ProtocolError::DeviceReportedError { code: content[0] })
            }
        },
        Some(content_type) => Ok(
            (Header { content: content_type, content_len, checksum: found }, content),
        ),
    }
}

/// The sum of the zero-checksum header and the content, term by term.
pub proof fn lemma_checksum_terms(tag: u8, content: Seq<u8>)
    requires
        content.len() <= MAX_CONTENT_LEN,
    ensures
        byte_sum(header_bytes(tag, content.len() as u16, 0) + content) == tag as int
            + content.len() / 0x100 + content.len() % 0x100 + byte_sum(content),
{
    let len = content.len() as u16;
    let head = header_bytes(tag, len, 0);
    lemma_byte_sum_concat(head, content);
    assert(head =~= seq![tag, (len / 0x100) as u8, (len % 0x100) as u8, 0u8, 0u8]);
    assert(head.drop_last() =~= seq![tag, (len / 0x100) as u8, (len % 0x100) as u8, 0u8]);
    assert(head.drop_last().drop_last() =~= seq![tag, (len / 0x100) as u8, (len % 0x100) as u8]);
    assert(head.drop_last().drop_last().drop_last() =~= seq![tag, (len / 0x100) as u8]);
    assert(head.drop_last().drop_last().drop_last().drop_last() =~= seq![tag]);
    assert(seq![tag].drop_last() =~= Seq::<u8>::empty());
    reveal_with_fuel(byte_sum, 6);
}

/// Replacing one byte moves the sum by the difference of the two bytes.
pub proof fn lemma_byte_sum_update(s: Seq<u8>, index: int, b: u8)
    requires
        0 <= index < s.len(),
    ensures
        byte_sum(s.update(index, b)) == byte_sum(s) - s[index] as int + b as int,
    decreases s.len(),
{
    let t = s.update(index, b);
    if index == s.len() - 1 {
        assert(t.drop_last() =~= s.drop_last());
    } else {
        assert(t.drop_last() =~= s.drop_last().update(index, b));
        lemma_byte_sum_update(s.drop_last(), index, b);
    }
}

/// How `parse_envelope` reads a frame laid out as header, content, padding.
pub proof fn lemma_parse_layout(
    tag: u8,
    content_len: u16,
    checksum: u16,
    content: Seq<u8>,
    padding: Seq<u8>,
)
    requires
        content.len() == content_len,
    ensures
        ({
            let data = header_bytes(tag, content_len, checksum) + content + padding;
            &&& data.len() == HEADER_LEN + content.len() + padding.len()
            &&& data[0] == tag
            &&& be16_at(data, 1) == content_len
            &&& be16_at(data, 3) == checksum
            &&& data.subrange(HEADER_LEN as int, HEADER_LEN + content_len) == content
        }),
{
    let data = header_bytes(tag, content_len, checksum) + content + padding;
    assert(data =~= seq![tag] + be16(content_len) + (be16(checksum) + content + padding));
    lemma_be16_round_trip(seq![tag], content_len, be16(checksum) + content + padding);
    assert(data =~= (seq![tag] + be16(content_len)) + be16(checksum) + (content + padding));
    lemma_be16_round_trip(seq![tag] + be16(content_len), checksum, content + padding);
    assert(data.subrange(HEADER_LEN as int, HEADER_LEN + content_len) =~= content);
}

/// Decoding inverts encoding: for a content type other than `Error` and a
/// payload that the length field can describe, the envelope of the encoded
/// frame decodes to that content type and that payload, whatever padding
/// follows the frame.
pub proof fn lemma_envelope_round_trip(
    content_type: ContentType,
    payload: Seq<u8>,
    padding: Seq<u8>,
)
    requires
        content_type != ContentType::Error,
        payload.len() <= MAX_CONTENT_LEN,
    ensures
        parse_envelope(frame_spec(content_type.tag_spec(), payload) + padding) == Ok::<
            (Header, Seq<u8>),
            ProtocolError,
        >(
            (
                Header {
                    content: content_type,
                    content_len: payload.len() as u16,
                    checksum: checksum_spec(content_type.tag_spec(), payload),
                },
                payload,
            ),
        ),
{
    let tag = content_type.tag_spec();
    lemma_parse_layout(tag, payload.len() as u16, checksum_spec(tag, payload), payload, padding);
}

/// An error envelope never decodes to content: it comes back as the error
/// that the device reported.
pub proof fn lemma_error_envelope_rejected(payload: Seq<u8>, padding: Seq<u8>)
    requires
        0 < payload.len() <= MAX_CONTENT_LEN,
    ensures
        parse_envelope(frame_spec(TAG_ERROR, payload) + padding) == Err::<
            (Header, Seq<u8>),
            ProtocolError,
        >(ProtocolError::DeviceReportedError { code: payload[0] }),
{
    lemma_parse_layout(
        TAG_ERROR,
        payload.len() as u16,
        checksum_spec(TAG_ERROR, payload),
        payload,
        padding,
    );
}

/// `data` with bit number `bit` of the byte at `index` inverted.
pub open spec fn flip_bit(data: Seq<u8>, index: int, bit: u8) -> Seq<u8>
    recommends
        0 <= index < data.len(),
        bit < 8,
{
    data.update(index, data[index] ^ (1u8 << bit))
}

/// A frame whose checksum field does not hold the checksum of its tag and
/// content is refused as such.
pub proof fn lemma_wrong_checksum_refused(tag: u8, found: u16, content: Seq<u8>)
    requires
        content.len() <= MAX_CONTENT_LEN,
        found != checksum_spec(tag, content),
    ensures
        parse_envelope(header_bytes(tag, content.len() as u16, found) + content) == Err::<
            (Header, Seq<u8>),
            ProtocolError,
        >(ProtocolError::ChecksumMismatch { computed: checksum_spec(tag, content), found }),
{
    let data = header_bytes(tag, content.len() as u16, found) + content;
    lemma_parse_layout(tag, content.len() as u16, found, content, Seq::<u8>::empty());
    assert(data + Seq::<u8>::empty() =~= data);
}

/// Two envelopes of one length whose tags or contents sum up differently,
/// by less than 2^16, have different checksums.
pub proof fn lemma_checksum_moves(tag: u8, content: Seq<u8>, other_tag: u8, other: Seq<u8>)
    requires
        content.len() == other.len() <= MAX_CONTENT_LEN,
        tag as int + byte_sum(content) != other_tag as int + byte_sum(other),
        -0x1_0000 < (tag as int + byte_sum(content)) - (other_tag as int + byte_sum(other))
            < 0x1_0000,
    ensures
        checksum_spec(tag, content) != checksum_spec(other_tag, other),
{
    lemma_checksum_terms(tag, content);
    lemma_checksum_terms(other_tag, other);
    lemma_byte_sum_bounds(content);
    lemma_byte_sum_bounds(other);
}

/// Inverting a bit of a byte gives another byte.
pub proof fn lemma_flip_changes_byte(b: u8, bit: u8)
    requires
        bit < 8,
    ensures
        b ^ (1u8 << bit) != b,
{
    assert(b ^ (1u8 << bit) != b) by (bit_vector)
        requires
            bit < 8,
    ;
}

/// Inverting any one bit of the content-type tag or of the content of an
/// encoded frame makes decoding fail with a checksum mismatch: the checksum
/// found is still the one of the frame as it was sent, the one computed is not.
pub proof fn lemma_bit_flip_detected(tag: u8, payload: Seq<u8>, index: int, bit: u8)
    requires
        payload.len() <= MAX_CONTENT_LEN,
        index == 0 || HEADER_LEN <= index < HEADER_LEN + payload.len(),
        bit < 8,
    ensures
        parse_envelope(flip_bit(frame_spec(tag, payload), index, bit)) matches Err(
            ProtocolError::ChecksumMismatch { computed, found },
        ) && found == checksum_spec(tag, payload) && computed != found,
{
    let len = payload.len() as u16;
    let stored = checksum_spec(tag, payload);
    let frame = frame_spec(tag, payload);
    let flipped = flip_bit(frame, index, bit);
    lemma_flip_changes_byte(frame[index], bit);
    if index == 0 {
        let after = tag ^ (1u8 << bit);
        assert(frame[0] == tag);
        assert(flipped =~= header_bytes(after, len, stored) + payload);
        lemma_checksum_moves(tag, payload, after, payload);
        lemma_wrong_checksum_refused(after, stored, payload);
    } else {
        let at = index - HEADER_LEN;
        let after = payload[at] ^ (1u8 << bit);
        assert(frame[index] == payload[at]);
        let changed = payload.update(at, after);
        assert(flipped =~= header_bytes(tag, len, stored) + changed);
        lemma_byte_sum_update(payload, at, after);
        lemma_checksum_moves(tag, payload, tag, changed);
        lemma_wrong_checksum_refused(tag, stored, changed);
    }
}

/// Inverting a bit of a byte adds or takes away that bit's weight.
pub proof fn lemma_flip_moves_byte(b: u8, bit: u8)
    requires
        bit < 8,
    ensures
        ({
            let weight = 1u8 << bit;
            let flipped = b ^ weight;
            &&& 1 <= weight <= 128
            &&& bit == 0 ==> weight == 1
            &&& flipped == b + weight || flipped == b - weight
        }),
{
    let weight = 1u8 << bit;
    let flipped = b ^ weight;
    assert(1 <= weight <= 128 && (bit == 0 ==> weight == 1) && ((flipped as u16) == (b as u16) + (
    weight as u16) || (b as u16) == (flipped as u16) + (weight as u16))) by (bit_vector)
        requires
            bit < 8,
            weight == 1u8 << bit,
            flipped == b ^ weight,
    ;
}

/// A frame whose length field announces more than follows the header is
/// refused as truncated.
pub proof fn lemma_long_length_refused(tag: u8, announced: u16, found: u16, rest: Seq<u8>)
    requires
        announced > rest.len(),
    ensures
        parse_envelope(header_bytes(tag, announced, found) + rest) == Err::<
            (Header, Seq<u8>),
            ProtocolError,
        >(ProtocolError::Truncated),
{
    let data = header_bytes(tag, announced, found) + rest;
    assert(data.len() == HEADER_LEN + rest.len());
    assert(data =~= seq![tag] + be16(announced) + (be16(found) + rest));
    lemma_be16_round_trip(seq![tag], announced, be16(found) + rest);
}

/// Cutting bytes off the end of the content changes the checksum, as long
/// as the length's two bytes sum up to less than before and the bytes cut
/// off cannot sum up to 2^16 less that difference.
pub proof fn lemma_shorter_content_moves_checksum(tag: u8, content: Seq<u8>, kept: int)
    requires
        content.len() <= MAX_CONTENT_LEN,
        0 <= kept < content.len(),
        kept / 0x100 + kept % 0x100 < content.len() / 0x100 + content.len() % 0x100,
        (content.len() / 0x100 + content.len() % 0x100) - (kept / 0x100 + kept % 0x100) + 255 * (
        content.len() - kept) < 0x1_0000,
    ensures
        checksum_spec(tag, content.take(kept)) != checksum_spec(tag, content),
{
    let head = content.take(kept);
    let cut = content.skip(kept);
    assert(content =~= head + cut);
    lemma_byte_sum_concat(head, cut);
    lemma_byte_sum_bounds(cut);
    lemma_byte_sum_bounds(head);
    lemma_checksum_terms(tag, content);
    lemma_checksum_terms(tag, head);
    let long = byte_sum(header_bytes(tag, content.len() as u16, 0) + content);
    let short = byte_sum(header_bytes(tag, head.len() as u16, 0) + head);
    assert(0 < long - short < 0x1_0000);
}

/// Inverting one bit of the length field of an encoded frame: the length
/// announced is then another. Where it is greater, the frame is refused as
/// truncated. Where it is less, the frame is refused for its checksum,
/// unless the checksum of the content that is left is the one of the whole;
/// and it never is where the bit is one of the low length byte or the
/// lowest of the high one. (A higher bit of the high byte cuts off 512
/// bytes or more, whose sum can make up for the difference.)
pub proof fn lemma_length_flip_detected(tag: u8, payload: Seq<u8>, index: int, bit: u8)
    requires
        payload.len() <= MAX_CONTENT_LEN,
        index == 1 || index == 2,
        bit < 8,
    ensures
        ({
            let damaged = flip_bit(frame_spec(tag, payload), index, bit);
            let announced = be16_at(damaged, 1);
            let computed = checksum_spec(tag, payload.take(announced as int));
            let found = checksum_spec(tag, payload);
            &&& announced != payload.len()
            &&& announced > payload.len() ==> parse_envelope(damaged) == Err::<
                (Header, Seq<u8>),
                ProtocolError,
            >(ProtocolError::Truncated)
            &&& announced < payload.len() && computed != found ==> parse_envelope(damaged)
                == Err::<(Header, Seq<u8>), ProtocolError>(
                ProtocolError::ChecksumMismatch { computed, found },
            )
            &&& announced < payload.len() && (index == 2 || bit == 0) ==> computed != found
        }),
{
    let len = payload.len() as u16;
    let stored = checksum_spec(tag, payload);
    let frame = frame_spec(tag, payload);
    let damaged = flip_bit(frame, index, bit);
    let hi = (len / 0x100) as u8;
    let lo = (len % 0x100) as u8;
    assert(frame[1] == hi && frame[2] == lo);
    lemma_flip_moves_byte(frame[index], bit);
    let weight = 1u8 << bit;
    let new_hi = if index == 1 {
        hi ^ weight
    } else {
        hi
    };
    let new_lo = if index == 2 {
        lo ^ weight
    } else {
        lo
    };
    let announced = (new_hi as int * 0x100 + new_lo as int) as u16;
    assert(be16(announced) =~= seq![new_hi, new_lo]);
    assert(damaged =~= header_bytes(tag, announced, stored) + payload);
    assert(be16_at(damaged, 1) == announced) by {
        assert(damaged[1] == new_hi && damaged[2] == new_lo);
    }
    if announced > len {
        lemma_long_length_refused(tag, announced, stored, payload);
    } else {
        let kept = payload.take(announced as int);
        let cut = payload.skip(announced as int);
        assert(damaged =~= header_bytes(tag, announced, stored) + kept + cut);
        lemma_parse_layout(tag, announced, stored, kept, cut);
        if index == 2 || bit == 0 {
            assert(announced / 0x100 == new_hi && announced % 0x100 == new_lo);
            assert(len / 0x100 == hi && len % 0x100 == lo);
            lemma_shorter_content_moves_checksum(tag, payload, announced as int);
        }
    }
}

} // verus!
