//! The version field of a firmware-version response. What it holds depends
//! on the index asked for: index 0 is text, indices 1 and 2 are the build
//! information of RO and of RW.

use vstd::prelude::*;
use vstd::utf8::{decode_utf8, valid_utf8};
use crate::wire::spiutils::{deserialize, BuildInfo};
use crate::wire::{FromWire, ProtocolError};

verus! {

/// Index of the version text.
pub const INDEX_TEXT: u8 = 0;

/// Index of the build information of RO.
pub const INDEX_RO: u8 = 1;

/// Index of the build information of RW.
pub const INDEX_RW: u8 = 2;

/// A decoded version field.
#[derive(Clone, Debug, PartialEq, Eq)]
pub enum Version {
    /// The version as text.
    Text(String),
    /// The build information of RO.
    Ro(BuildInfo),
    /// The build information of RW.
    Rw(BuildInfo),
    /// A field with an index of which nothing is known: it is left as it is.
    Other,
}

/// What a `Version` holds, as plain values.
pub enum VersionView {
    Text(Seq<char>),
    Ro(BuildInfo),
    Rw(BuildInfo),
    Other,
}

impl View for Version {
    type V = VersionView;

    open spec fn view(&self) -> VersionView {
        match *self {
            Version::Text(text) => VersionView::Text(text@),
            Version::Ro(info) => VersionView::Ro(info),
            Version::Rw(info) => VersionView::Rw(info),
            Version::Other => VersionView::Other,
        }
    }
}

/// What the version field `field` holds when it answers a request for
/// `index`. Text must be valid UTF-8, and build information must decode;
/// else the field is malformed.
pub open spec fn decode_version_spec(index: u8, field: Seq<u8>) -> Result<
    VersionView,
    ProtocolError,
> {
    if index == INDEX_TEXT {
        if valid_utf8(field) {
            Ok(VersionView::Text(decode_utf8(field)))
        } else {
            Err(ProtocolError::MalformedMessage)
        }
    } else if index == INDEX_RO {
        match BuildInfo::decoding(field) {
            Some(info) => Ok(VersionView::Ro(info)),
            None => Err(ProtocolError::MalformedMessage),
        }
    } else if index == INDEX_RW {
        match BuildInfo::decoding(field) {
            Some(info) => Ok(VersionView::Rw(info)),
            None => Err(ProtocolError::MalformedMessage),
        }
    } else {
        Ok(VersionView::Other)
    }
}

/// `core::str::from_utf8`: the text that `bytes` encode, where they are
/// valid UTF-8, and nothing where they are not.
#[verifier::external_body]
fn utf8_text(bytes: &[u8]) -> (r: Option<String>)
    ensures
        r is Some <==> valid_utf8(bytes@),
        r matches Some(text) ==> text@ == decode_utf8(bytes@),
{
    match core::str::from_utf8(bytes) {
        Ok(text) => Some(text.to_owned()),
        Err(_) => None,
    }
}

/// Decodes the version field `field` of the answer to a request for `index`.
pub fn decode_version(index: u8, field: &[u8]) -> (r: Result<Version, ProtocolError>)
    ensures
        match r {
            Ok(version) => decode_version_spec(index, field@) == Ok::<VersionView, ProtocolError>(
                version@,
            ),
            Err(e) => decode_version_spec(index, field@) == Err::<VersionView, ProtocolError>(e),
        },
{
    if index == INDEX_TEXT {
        match utf8_text(field) {
            Some(text) => Ok(Version::Text(text)),
            None => Err(ProtocolError::MalformedMessage),
        }
    } else if index == INDEX_RO {
        match deserialize::<BuildInfo>(field) {
            Some(info) => Ok(Version::Ro(info)),
            None => Err(ProtocolError::MalformedMessage),
        }
    } else if index == INDEX_RW {
        match deserialize::<BuildInfo>(field) {
            Some(info) => Ok(Version::Rw(info)),
            None => Err(ProtocolError::MalformedMessage),
        }
    } else {
        Ok(Version::Other)
    }
}

} // verus!
