//! Host-side control client for a root-of-trust module behind a mailbox
//! transport: message framing, request/response validation and the chunked
//! A/B firmware update workflow.
//!
//! - `wire` frames and checks what travels through the mailbox: the
//!   envelope, and inside it the query family and the firmware-control family.
//! - `device` is one mailbox behind a transport, and the exchanges through it.
//! - `update` holds the rules of an update, `workflow` carries one out.
//! - `spi` is the transport and what its two back ends decide.
//! - `version` and `config` decode version fields and settings.

pub mod bytes;
pub mod config;
pub mod device;
pub mod spi;
pub mod update;
pub mod version;
pub mod wire;
pub mod workflow;
