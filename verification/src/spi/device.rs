//! The direct back end: a device node that is opened, positioned at the
//! address and then read or written, once per transfer.

use vstd::prelude::*;
use crate::spi::{describe, Error};

verus! {

/// The step of a transfer that can fail.
#[derive(Clone, Copy, Debug, PartialEq, Eq, Structural)]
pub enum Step {
    Open,
    Seek,
    Read,
    Write,
    Flush,
}

/// A device reached through a device node.
#[derive(Clone, Debug, PartialEq, Eq)]
pub struct Instance {
    device_path: String,
}

impl Step {
    /// How a failure of this step is introduced in an error's text.
    pub open spec fn prefix(self) -> Seq<char> {
        match self {
            Step::Open => "Could not open device file: "@,
            Step::Seek => "Could not seek into device file: "@,
            Step::Read => "Could not read from device file: "@,
            Step::Write => "Could not write to device file: "@,
            Step::Flush => "Could not flush device file: "@,
        }
    }
}

impl Instance {
    /// The path of the device node.
    pub closed spec fn path(&self) -> Seq<char> {
        self.device_path@
    }

    /// A device behind the node at `device_path`. Nothing is opened yet.
    pub fn new(device_path: &str) -> (instance: Instance)
        ensures
            instance.path() == device_path@,
    {
        Instance { device_path: device_path.to_owned() }
    }

    /// The path of the device node.
    pub fn device_path(&self) -> (path: &str)
        ensures
            path@ == self.path(),
    {
        self.device_path.as_str()
    }

    /// The position to seek to for a transfer at `address`.
    pub fn position(address: u32) -> (pos: u64)
        ensures
            pos == address,
    {
        address as u64
    }

    /// The error for a transfer whose step `step` failed for the reason `why`.
    pub fn fault(step: Step, why: &str) -> (e: Error)
        ensures
            e matches Error::DeviceError(text) && text@ == step.prefix() + why@,
    {
        let what = match step {
            Step::Open => "Could not open device file: ",
            Step::Seek => "Could not seek into device file: ",
            Step::Read => "Could not read from device file: ",
            Step::Write => "Could not write to device file: ",
            Step::Flush => "Could not flush device file: ",
        };
        Error::DeviceError(describe(what, why))
    }
}

} // verus!
