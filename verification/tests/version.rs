use otpilot_tool::version::{decode_version, Version};
use otpilot_tool::wire::spiutils::{deserialize, BuildInfo};
use otpilot_tool::wire::ProtocolError;

fn build_info_bytes() -> Vec<u8> {
    vec![
        0, 0, 0, 1, 0, 0, 0, 2, 0, 0, 0, 3, 1, 2, 3, 4, 5, 6, 7, 8,
    ]
}

fn build_info() -> BuildInfo {
    BuildInfo { epoch: 1, major: 2, minor: 3, timestamp: 0x0102_0304_0506_0708 }
}

#[test]
fn build_info_is_decoded() {
    assert_eq!(deserialize::<BuildInfo>(&build_info_bytes()), Some(build_info()));
}

#[test]
fn build_info_ignores_what_follows() {
    let mut bytes = build_info_bytes();
    bytes.extend_from_slice(&[0xff; 12]);
    assert_eq!(deserialize::<BuildInfo>(&bytes), Some(build_info()));
}

#[test]
fn short_build_info_is_refused() {
    let bytes = build_info_bytes();
    assert_eq!(deserialize::<BuildInfo>(&bytes[..19]), None);
    assert_eq!(deserialize::<BuildInfo>(&[]), None);
}

#[test]
fn index_zero_is_text() {
    let mut field = b"v1.2.3-rc1".to_vec();
    field.resize(32, 0);
    let mut text = String::from("v1.2.3-rc1");
    while text.len() < 32 {
        text.push('\0');
    }
    assert_eq!(decode_version(0, &field), Ok(Version::Text(text)));
}

#[test]
fn text_may_be_more_than_ascii() {
    let field = "grün ✓".as_bytes().to_vec();
    assert_eq!(decode_version(0, &field), Ok(Version::Text(String::from("grün ✓"))));
}

#[test]
fn text_must_be_utf8() {
    let mut field = vec![0x41u8; 32];
    field[7] = 0xff;
    assert_eq!(decode_version(0, &field), Err(ProtocolError::MalformedMessage));
    // a build-information record is no text
    let mut field = build_info_bytes();
    field[0] = 0xc0;
    field.resize(32, 0);
    assert_eq!(decode_version(0, &field), Err(ProtocolError::MalformedMessage));
}

#[test]
fn index_one_is_the_build_info_of_ro() {
    let mut field = build_info_bytes();
    field.resize(32, 0);
    assert_eq!(decode_version(1, &field), Ok(Version::Ro(build_info())));
}

#[test]
fn index_two_is_the_build_info_of_rw() {
    let mut field = build_info_bytes();
    field.resize(32, 0);
    assert_eq!(decode_version(2, &field), Ok(Version::Rw(build_info())));
}

#[test]
fn build_info_is_not_read_as_text() {
    // valid UTF-8 that is also a record: the index decides
    let field = vec![0x41u8; 32];
    assert_eq!(
        decode_version(1, &field),
        Ok(Version::Ro(BuildInfo {
            epoch: 0x4141_4141,
            major: 0x4141_4141,
            minor: 0x4141_4141,
            timestamp: 0x4141_4141_4141_4141,
        }))
    );
    assert_eq!(decode_version(0, &field), Ok(Version::Text("A".repeat(32))));
}

#[test]
fn short_build_info_field_is_malformed() {
    assert_eq!(decode_version(1, &[0u8; 19]), Err(ProtocolError::MalformedMessage));
    assert_eq!(decode_version(2, &[0u8; 19]), Err(ProtocolError::MalformedMessage));
}

#[test]
fn other_indices_are_left_alone() {
    assert_eq!(decode_version(3, &[0xff; 32]), Ok(Version::Other));
    assert_eq!(decode_version(255, &[]), Ok(Version::Other));
}
