//! Records that are decoded straight from bytes, with no envelope around
//! them: the build information of a firmware image.

use vstd::prelude::*;
use crate::bytes::{be32_at, be64_at, read_be32, read_be64};
use crate::wire::FromWire;

verus! {

/// Length of a build-information record on the wire, in bytes.
pub const BUILD_INFO_LEN: usize = 20;

/// Offset of the build-information record in a firmware image.
pub const FIRMWARE_INFO_OFFSET: usize = 860;

/// What a firmware image says of its build.
#[derive(Clone, Copy, Debug, PartialEq, Eq, Structural)]
pub struct BuildInfo {
    pub epoch: u32,
    pub major: u32,
    pub minor: u32,
    pub timestamp: u64,
}

impl View for BuildInfo {
    type V = BuildInfo;

    open spec fn view(&self) -> BuildInfo {
        *self
    }
}

impl FromWire for BuildInfo {
    /// The first `BUILD_INFO_LEN` bytes: epoch, major and minor as four
    /// bytes each, then the timestamp as eight. What follows is ignored.
    open spec fn decoding(data: Seq<u8>) -> Option<BuildInfo> {
        if data.len() < BUILD_INFO_LEN {
            None
        } else {
            Some(
                BuildInfo {
                    epoch: be32_at(data, 0),
                    major: be32_at(data, 4),
                    minor: be32_at(data, 8),
                    timestamp: be64_at(data, 12),
                },
            )
        }
    }

    fn from_wire(data: &[u8]) -> (r: Option<Self>) {
        if data.len() < BUILD_INFO_LEN {
            return None;
        }
        Some(
            BuildInfo {
                epoch: read_be32(data, 0),
                major: read_be32(data, 4),
                minor: read_be32(data, 8),
                timestamp: read_be64(data, 12),
            },
        )
    }
}

/// Decodes `data` as a value of type `M`; `None` where it is no such value.
pub fn deserialize<M: FromWire>(data: &[u8]) -> (r: Option<M>)
    ensures
        match r {
            Some(value) => M::decoding(data@) == Some(value@),
            None => M::decoding(data@).is_none(),
        },
{
    M::from_wire(data)
}

} // verus!
