//! A capture-device abstraction over a kernel control interface: descriptor
//! ownership, capability and control discovery, control access, readiness
//! waiting and byte-stream transfers.
//!
//! The library holds the decisions; the system calls themselves are made by
//! the caller, which hands each outcome back as plain values.

pub mod sys;
pub mod error;
pub mod control;
pub mod discovery;
pub mod device;
pub mod handle;

pub use control::{Control, ControlType, Description, MenuItem, RawControl, RawMenuItem};
pub use device::{
    Capabilities, ControlWrite, Device, OpenFlags, OpenRequest, PollRequest, RawCapability,
};
pub use discovery::{ControlQuery, MenuScan};
pub use error::{DeviceError, WaitError};
pub use handle::Handle;
