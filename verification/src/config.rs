//! What the command line settles before a device is made: which transport
//! is used, and where the mailbox is.

use vstd::prelude::*;
use vstd::string::*;
use crate::device::{HAVENTOOL_DEFAULT_MAILBOX_ADDR, SPIDEVICE_DEFAULT_MAILBOX_ADDR};

verus! {

/// One of the two transports.
#[derive(Clone, Copy, Debug, PartialEq, Eq, Structural)]
pub enum Backend {
    /// The external flashing tool.
    Haventool,
    /// The device node.
    SpiDevice,
}

/// Why the settings are no configuration.
#[derive(Clone, Copy, Debug, PartialEq, Eq, Structural)]
pub enum ConfigError {
    /// Neither transport was named.
    NoInterface,
    /// Both transports were named.
    TwoInterfaces,
    /// The mailbox address is no hexadecimal number of 32 bits.
    BadMailboxAddress,
}

/// The value of a hexadecimal digit.
pub open spec fn hex_digit(c: char) -> Option<nat> {
    if '0' <= c <= '9' {
        Some((c as nat - '0' as nat) as nat)
    } else if 'a' <= c <= 'f' {
        Some((c as nat - 'a' as nat + 10) as nat)
    } else if 'A' <= c <= 'F' {
        Some((c as nat - 'A' as nat + 10) as nat)
    } else {
        None
    }
}

/// The number that `digits` spell in base 16, where all of them are digits.
pub open spec fn hex_value(digits: Seq<char>) -> Option<nat>
    decreases digits.len(),
{
    if digits.len() == 0 {
        Some(0)
    } else {
        match (hex_value(digits.drop_last()), hex_digit(digits.last())) {
            (Some(value), Some(digit)) => Some(value * 16 + digit),
            _ => None,
        }
    }
}

/// The digits of `text`: all of it but a plus sign at its start.
pub open spec fn unsigned_part(text: Seq<char>) -> Seq<char> {
    if text.len() > 0 && text[0] == '+' {
        text.skip(1)
    } else {
        text
    }
}

/// The 32-bit number that `text` spells in base 16: one or more hexadecimal
/// digits of either case, with no prefix; a plus sign may stand before them.
pub open spec fn parse_hex_spec(text: Seq<char>) -> Option<u32> {
    let digits = unsigned_part(text);
    if digits.len() == 0 {
        None
    } else {
        match hex_value(digits) {
            Some(value) => if value <= u32::MAX {
                Some(value as u32)
            } else {
                None
            },
            None => None,
        }
    }
}

/// The transport that the settings name: exactly one of the two must be given.
pub fn choose_backend(haventool: bool, spidevice: bool) -> (r: Result<Backend, ConfigError>)
    ensures
        r == (if haventool && spidevice {
            Err::<Backend, ConfigError>(ConfigError::TwoInterfaces)
        } else if haventool {
            Ok(Backend::Haventool)
        } else if spidevice {
            Ok(Backend::SpiDevice)
        } else {
            Err(ConfigError::NoInterface)
        }),
{
    if haventool && spidevice {
        Err(ConfigError::TwoInterfaces)
    } else if haventool {
        Ok(Backend::Haventool)
    } else if spidevice {
        Ok(Backend::SpiDevice)
    } else {
        Err(ConfigError::NoInterface)
    }
}

/// The mailbox address that a transport uses unless another is given.
pub fn default_mailbox_addr(backend: Backend) -> (addr: u32)
    ensures
        addr == match backend {
            Backend::Haventool => HAVENTOOL_DEFAULT_MAILBOX_ADDR,
            Backend::SpiDevice => SPIDEVICE_DEFAULT_MAILBOX_ADDR,
        },
{
    match backend {
        Backend::Haventool => HAVENTOOL_DEFAULT_MAILBOX_ADDR,
        Backend::SpiDevice => SPIDEVICE_DEFAULT_MAILBOX_ADDR,
    }
}

fn digit_of(c: char) -> (r: Option<u32>)
    ensures
        r matches Some(d) ==> d < 16,
        match r {
            Some(d) => hex_digit(c) == Some(d as nat),
            None => hex_digit(c).is_none(),
        },
{
    if '0' <= c && c <= '9' {
        Some(c as u32 - '0' as u32)
    } else if 'a' <= c && c <= 'f' {
        Some(c as u32 - 'a' as u32 + 10)
    } else if 'A' <= c && c <= 'F' {
        Some(c as u32 - 'A' as u32 + 10)
    } else {
        None
    }
}

/// Where a prefix of `digits` spells no number, or one above `bound`, so
/// does the whole.
proof fn lemma_hex_prefix(digits: Seq<char>, len: int, bound: nat)
    requires
        0 <= len <= digits.len(),
        match hex_value(digits.take(len)) {
            Some(value) => value > bound,
            None => true,
        },
    ensures
        match hex_value(digits) {
            Some(value) => value > bound,
            None => true,
        },
    decreases digits.len() - len,
{
    if len < digits.len() {
        let next = digits.take(len + 1);
        assert(next.drop_last() =~= digits.take(len));
        lemma_hex_prefix(digits, len + 1, bound);
    } else {
        assert(digits.take(len) =~= digits);
    }
}

/// Reads a mailbox address: a hexadecimal number of up to 32 bits.
pub fn parse_mailbox_addr(text: &str) -> (r: Result<u32, ConfigError>)
    ensures
        match parse_hex_spec(text@) {
            Some(addr) => r == Ok::<u32, ConfigError>(addr),
            None => r == Err::<u32, ConfigError>(ConfigError::BadMailboxAddress),
        },
{
    let len = text.unicode_len();
    let start: usize = if len > 0 && text.get_char(0) == '+' {
        1
    } else {
        0
    };
    let ghost digits = unsigned_part(text@);
    assert(digits =~= text@.subrange(start as int, len as int));
    if start == len {
        return Err(ConfigError::BadMailboxAddress);
    }
    let mut value: u64 = 0;
    let mut i: usize = start;
    assert(digits.take(0) =~= Seq::<char>::empty());
    while i < len
        invariant
            start <= i <= len == text@.len(),
            digits == text@.subrange(start as int, len as int),
            digits == unsigned_part(text@),
            value <= u32::MAX,
            hex_value(digits.take(i - start)) == Some(value as nat),
        decreases len - i,
    {
        let c = text.get_char(i);
        proof {
            assert(digits.take(i + 1 - start).drop_last() =~= digits.take(i - start));
            assert(digits.take(i + 1 - start).last() == c);
        }
        match digit_of(c) {
            Some(digit) => {
                value = value * 16 + digit as u64;
                if value > u32::MAX as u64 {
                    proof {
                        lemma_hex_prefix(digits, i + 1 - start, u32::MAX as nat);
                    }
                    return Err(ConfigError::BadMailboxAddress);
                }
            },
            None => {
                proof {
                    lemma_hex_prefix(digits, i + 1 - start, u32::MAX as nat);
                }
                return Err(ConfigError::BadMailboxAddress);
            },
        }
        i += 1;
    }
    assert(digits.take(len - start) =~= digits);
    Ok(value as u32)
}

} // verus!
