//! The transport: a byte-addressed window through which frames reach the
//! device. Its two back ends do their reading and writing outside this
//! library; what each of them decides is here.

use vstd::prelude::*;
use vstd::string::*;

pub mod device;
pub mod haventool;

verus! {

/// Why a transfer failed.
#[derive(Clone, Debug, PartialEq, Eq)]
pub enum Error {
    /// The underlying device could not be opened or accessed.
    DeviceError(String),
    /// The operation failed; the text says how.
    OperationFailed(String),
}

/// A transport to the device. One owner at a time: an implementation need
/// not be safe to share.
pub trait Interface {
    /// Reads up to `max_len` bytes starting at `address`.
    fn read(&self, address: u32, max_len: usize) -> Result<Vec<u8>, Error>;

    /// Writes `data` starting at `address`.
    fn write(&self, address: u32, data: &[u8]) -> Result<(), Error>;
}

/// The text `what` followed by the text `why`.
pub fn describe(what: &str, why: &str) -> (text: String)
    ensures
        text@ == what@ + why@,
{
    what.to_owned().concat(why)
}

} // verus!
