//! Errors reported by device operations.
use vstd::prelude::*;

use crate::sys::EINVAL_CODE;

verus! {

/// A failed device operation.
#[derive(Debug, Clone, Copy, PartialEq, Eq, Structural)]
pub enum DeviceError {
    /// The system reported a failure with this platform error code.
    Os(i32),
    /// The caller asked for something this layer does not support; no request
    /// was issued.
    Unsupported,
}

impl DeviceError {
    /// Whether the error is of the "invalid input" class.
    pub open spec fn spec_is_invalid_input(self) -> bool {
        match self {
            DeviceError::Os(code) => code == EINVAL_CODE,
            DeviceError::Unsupported => true,
        }
    }

    /// Returns whether the error is of the "invalid input" class.
    pub fn is_invalid_input(&self) -> (r: bool)
        ensures
            r == self.spec_is_invalid_input(),
    {
        match self {
            DeviceError::Os(code) => *code == crate::sys::einval(),
            DeviceError::Unsupported => true,
        }
    }

    /// The platform error code, if the system reported one.
    pub fn os_code(&self) -> (r: Option<i32>)
        ensures
            r == (match *self {
                DeviceError::Os(code) => Some(code),
                DeviceError::Unsupported => None,
            }),
    {
        match self {
            DeviceError::Os(code) => Some(*code),
            DeviceError::Unsupported => None,
        }
    }
}

/// Why waiting for readiness did not end in "ready".
#[derive(Debug, Clone, Copy, PartialEq, Eq, Structural)]
pub enum WaitError {
    /// No event arrived before the timeout.
    Timeout,
    /// The poll call itself failed, with this platform error code.
    PollError(i32),
    /// The descriptor reported events without "input ready": the raw flags.
    DeviceError(i16),
}

} // verus!
