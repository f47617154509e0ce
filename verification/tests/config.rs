use otpilot_tool::config::{
    choose_backend, default_mailbox_addr, parse_mailbox_addr, Backend, ConfigError,
};

#[test]
fn exactly_one_transport_must_be_named() {
    assert_eq!(choose_backend(true, false), Ok(Backend::Haventool));
    assert_eq!(choose_backend(false, true), Ok(Backend::SpiDevice));
    assert_eq!(choose_backend(false, false), Err(ConfigError::NoInterface));
    assert_eq!(choose_backend(true, true), Err(ConfigError::TwoInterfaces));
}

#[test]
fn each_transport_has_its_default_mailbox() {
    assert_eq!(default_mailbox_addr(Backend::Haventool), 0x80000);
    assert_eq!(default_mailbox_addr(Backend::SpiDevice), 0);
}

#[test]
fn mailbox_addresses_are_hexadecimal() {
    assert_eq!(parse_mailbox_addr("80000"), Ok(0x80000));
    assert_eq!(parse_mailbox_addr("0"), Ok(0));
    assert_eq!(parse_mailbox_addr("000"), Ok(0));
    assert_eq!(parse_mailbox_addr("ff"), Ok(255));
    assert_eq!(parse_mailbox_addr("AbCdEf"), Ok(0xabcdef));
    assert_eq!(parse_mailbox_addr("ffffffff"), Ok(u32::MAX));
    assert_eq!(parse_mailbox_addr("00000000ffffffff"), Ok(u32::MAX));
    assert_eq!(parse_mailbox_addr("+1f"), Ok(31));
}

#[test]
fn what_is_no_address_is_refused() {
    for text in ["", "+", "0x10", "g", "12 ", " 12", "-1", "100000000", "1ffffffff", "++1", "1+", "é"] {
        assert_eq!(
            parse_mailbox_addr(text),
            Err(ConfigError::BadMailboxAddress),
            "{:?}",
            text
        );
    }
}

#[test]
fn addresses_are_read_as_std_reads_them() {
    for text in ["80000", "0", "ffffffff", "100000000", "+7", "", "+", "7f7f", "zz", "DEADBEEF"] {
        assert_eq!(
            parse_mailbox_addr(text).ok(),
            u32::from_str_radix(text, 16).ok(),
            "{:?}",
            text
        );
    }
}
