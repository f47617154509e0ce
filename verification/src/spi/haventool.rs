//! The tool-backed back end: every transfer is one run of an external
//! flashing tool, with a temporary file carrying the bytes. This module
//! plans each run and judges how it ended; running it is the caller's part.

use vstd::prelude::*;
use vstd::string::*;
use crate::bytes::copy_range;
use crate::spi::{describe, Error};

verus! {

/// The file through which bytes are handed to the tool and taken from it.
/// It is shared by all runs, so one owner at a time may use a device.
pub const TMP_FILE: &'static str = "/tmp/spitmp";

/// Opcode that switches the flash protocol to four-byte addresses.
pub const OPCODE_ENTER_4B: u8 = 0xb7;

/// The step of a run that can fail around the temporary file.
#[derive(Clone, Copy, Debug, PartialEq, Eq, Structural)]
pub enum Step {
    WriteTemp,
    OpenTemp,
    ReadTemp,
}

/// How a run of the tool ended.
#[derive(Clone, Debug, PartialEq, Eq)]
pub enum Status {
    /// The tool could not be started; the text says why.
    NotStarted(String),
    /// The tool ran and exited, with success or without.
    Exited { success: bool },
}

/// One run of the tool: what to put into the temporary file before it, the
/// arguments, and how many bytes to take from the temporary file after it.
#[derive(Clone, Debug, PartialEq, Eq)]
pub struct Invocation {
    pub stage: Option<Vec<u8>>,
    pub args: Vec<String>,
    pub collect: Option<usize>,
}

/// A device reached through the external tool.
#[derive(Clone, Debug, PartialEq, Eq)]
pub struct Instance {
    tool_path: String,
}

/// The character for the digit `d`.
pub open spec fn digit_char(d: nat) -> char
    recommends
        d < 10,
{
    if d == 0 {
        '0'
    } else if d == 1 {
        '1'
    } else if d == 2 {
        '2'
    } else if d == 3 {
        '3'
    } else if d == 4 {
        '4'
    } else if d == 5 {
        '5'
    } else if d == 6 {
        '6'
    } else if d == 7 {
        '7'
    } else if d == 8 {
        '8'
    } else {
        '9'
    }
}

/// `n` in decimal, without sign or leading zeros.
pub open spec fn decimal(n: nat) -> Seq<char>
    decreases n,
{
    if n < 10 {
        seq![digit_char(n)]
    } else {
        decimal(n / 10).push(digit_char(n % 10))
    }
}

/// The arguments that every run starts with: they keep the tool from
/// switching the addressing mode or probing the flash by itself.
pub open spec fn common_args() -> Seq<Seq<char>> {
    seq!["--enter4b=false"@, "--initial_address_size=4"@, "--query_sfdp=false"@, "spi"@]
}

/// The arguments of a raw write of the temporary file's bytes.
pub open spec fn raw_args() -> Seq<Seq<char>> {
    common_args() + seq!["raw"@, TMP_FILE@]
}

/// The arguments of a transfer of `len` bytes at `address`; `verb` is
/// `read` or `write`.
pub open spec fn transfer_args(verb: Seq<char>, address: u32, len: usize) -> Seq<Seq<char>> {
    common_args() + seq![
        verb,
        "--start"@,
        decimal(address as nat),
        "--length"@,
        decimal(len as nat),
        TMP_FILE@,
    ]
}

impl Step {
    /// How a failure of this step is introduced in an error's text.
    pub open spec fn prefix(self) -> Seq<char> {
        match self {
            Step::WriteTemp => "Could not write temp file: "@,
            Step::OpenTemp => "Could not open temp file: "@,
            Step::ReadTemp => "Could not read temp file: "@,
        }
    }
}

fn digit_str(d: u64) -> (s: &'static str)
    requires
        d < 10,
    ensures
        s@ == seq![digit_char(d as nat)],
{
    proof {
        reveal_strlit("0");
        reveal_strlit("1");
        reveal_strlit("2");
        reveal_strlit("3");
        reveal_strlit("4");
        reveal_strlit("5");
        reveal_strlit("6");
        reveal_strlit("7");
        reveal_strlit("8");
        reveal_strlit("9");
    }
    let s = if d == 0 {
        "0"
    } else if d == 1 {
        "1"
    } else if d == 2 {
        "2"
    } else if d == 3 {
        "3"
    } else if d == 4 {
        "4"
    } else if d == 5 {
        "5"
    } else if d == 6 {
        "6"
    } else if d == 7 {
        "7"
    } else if d == 8 {
        "8"
    } else {
        "9"
    };
    assert(s@ =~= seq![digit_char(d as nat)]);
    s
}

/// Writes `n` in decimal.
pub fn decimal_string(n: u64) -> (text: String)
    ensures
        text@ == decimal(n as nat),
    decreases n,
{
    if n < 10 {
        digit_str(n).to_owned()
    } else {
        let text = decimal_string(n / 10).concat(digit_str(n % 10));
        assert(text@ =~= decimal(n as nat));
        text
    }
}

fn push_arg(args: &mut Vec<String>, arg: String)
    ensures
        final(args).deep_view() == old(args).deep_view().push(arg@),
{
    args.push(arg);
    assert(args.deep_view() =~= old(args).deep_view().push(arg@));
}

fn common() -> (args: Vec<String>)
    ensures
        args.deep_view() == common_args(),
{
    let mut args: Vec<String> = Vec::new();
    assert(args.deep_view() =~= Seq::<Seq<char>>::empty());
    push_arg(&mut args, "--enter4b=false".to_owned());
    push_arg(&mut args, "--initial_address_size=4".to_owned());
    push_arg(&mut args, "--query_sfdp=false".to_owned());
    push_arg(&mut args, "spi".to_owned());
    assert(args.deep_view() =~= common_args());
    args
}

fn transfer(verb: &str, address: u32, len: usize) -> (args: Vec<String>)
    ensures
        args.deep_view() == transfer_args(verb@, address, len),
{
    let mut args = common();
    push_arg(&mut args, verb.to_owned());
    push_arg(&mut args, "--start".to_owned());
    push_arg(&mut args, decimal_string(address as u64));
    push_arg(&mut args, "--length".to_owned());
    push_arg(&mut args, decimal_string(len as u64));
    push_arg(&mut args, TMP_FILE.to_owned());
    assert(args.deep_view() =~= transfer_args(verb@, address, len));
    args
}

impl Instance {
    /// The path of the tool.
    pub closed spec fn path(&self) -> Seq<char> {
        self.tool_path@
    }

    /// A device behind the tool at `tool_path`, made once the run that
    /// `init` plans has ended as `handshake` says: where that run failed,
    /// no device is made, and its error is passed on.
    pub fn new(tool_path: &str, handshake: Result<(), Error>) -> (r: Result<Instance, Error>)
        ensures
            match handshake {
                Ok(()) => r matches Ok(instance) && instance.path() == tool_path@,
                Err(e) => r == Err::<Instance, Error>(e),
            },
    {
        match handshake {
            Ok(()) => Ok(Instance { tool_path: tool_path.to_owned() }),
            Err(e) => Err(e),
        }
    }

    /// The path of the tool.
    pub fn tool_path(&self) -> (path: &str)
        ensures
            path@ == self.path(),
    {
        self.tool_path.as_str()
    }

    /// The run that prepares the device for use: it enters four-byte
    /// addressing mode.
    pub fn init() -> (run: Invocation)
        ensures
            run.stage matches Some(frame) && frame@ == seq![OPCODE_ENTER_4B],
            run.args.deep_view() == raw_args(),
            run.collect.is_none(),
    {
        Instance::enter_4b()
    }

    /// The run that enters four-byte addressing mode: a raw write of the
    /// flash header for that opcode, which has no address and no payload.
    pub fn enter_4b() -> (run: Invocation)
        ensures
            run.stage matches Some(frame) && frame@ == seq![OPCODE_ENTER_4B],
            run.args.deep_view() == raw_args(),
            run.collect.is_none(),
    {
        let mut header: Vec<u8> = Vec::new();
        header.push(OPCODE_ENTER_4B);
        assert(header@ =~= seq![OPCODE_ENTER_4B]);
        Instance::raw(header.as_slice())
    }

    /// The run that hands `data` to the device as it is.
    pub fn raw(data: &[u8]) -> (run: Invocation)
        ensures
            run.stage matches Some(staged) && staged@ == data@,
            run.args.deep_view() == raw_args(),
            run.collect.is_none(),
    {
        let mut args = common();
        push_arg(&mut args, "raw".to_owned());
        push_arg(&mut args, TMP_FILE.to_owned());
        assert(args.deep_view() =~= raw_args());
        let staged = copy_range(data, 0, data.len());
        assert(staged@ =~= data@);
        Invocation { stage: Some(staged), args, collect: None }
    }

    /// The run that reads `len` bytes at `address` into the temporary file,
    /// from which up to `len` bytes are then taken.
    pub fn read(&self, address: u32, len: usize) -> (run: Invocation)
        ensures
            run.stage.is_none(),
            run.args.deep_view() == transfer_args("read"@, address, len),
            run.collect == Some(len),
    {
        Invocation { stage: None, args: transfer("read", address, len), collect: Some(len) }
    }

    /// The run that writes `data` at `address`, by way of the temporary file.
    pub fn write(&self, address: u32, data: &[u8]) -> (run: Invocation)
        ensures
            run.stage matches Some(staged) && staged@ == data@,
            run.args.deep_view() == transfer_args("write"@, address, data.len()),
            run.collect.is_none(),
    {
        let staged = copy_range(data, 0, data.len());
        assert(staged@ =~= data@);
        Invocation {
            stage: Some(staged),
            args: transfer("write", address, data.len()),
            collect: None,
        }
    }

    /// Judges a run of the tool: it succeeded only if the tool was started
    /// and exited with success.
    pub fn execute(status: &Status) -> (r: Result<(), Error>)
        ensures
            match *status {
                Status::Exited { success: true } => r is Ok,
                Status::Exited { success: false } => r matches Err(Error::OperationFailed(text))
                    && text@ == "Non-zero exit code"@,
                Status::NotStarted(why) => r matches Err(Error::OperationFailed(text)) && text@
                    == "Command invocation failed: "@ + why@,
            },
    {
        match status {
            Status::Exited { success } => {
                if *success {
                    Ok(())
                } else {
                    Err(Error::OperationFailed("Non-zero exit code".to_owned()))
                }
            },
            Status::NotStarted(why) => Err(
                Error::OperationFailed(describe("Command invocation failed: ", why.as_str())),
            ),
        }
    }

    /// The error for a run whose step `step` failed for the reason `why`.
    pub fn fault(step: Step, why: &str) -> (e: Error)
        ensures
            e matches Error::DeviceError(text) && text@ == step.prefix() + why@,
    {
        let what = match step {
            Step::WriteTemp => "Could not write temp file: ",
            Step::OpenTemp => "Could not open temp file: ",
            Step::ReadTemp => "Could not read temp file: ",
        };
        Error::DeviceError(describe(what, why))
    }
}

} // verus!
