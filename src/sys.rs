//! Platform constants taken from `libc`, and the kernel protocol's own flags.
use vstd::prelude::*;

verus! {

/// Request flag: ask the driver for the next control after the given id.
pub const NEXT_CTRL: u32 = 0x8000_0000;

/// Request flag: include compound controls when advancing the cursor.
pub const NEXT_COMPOUND: u32 = 0x4000_0000;

/// Relies on libc::O_RDWR, which is 2 on Linux.
#[verifier::external_body]
pub(crate) fn o_rdwr() -> (r: i32)
    ensures
        r == 2,
{
    libc::O_RDWR
}

/// Relies on libc::O_NONBLOCK: a nonzero flag, whose value differs between
/// Linux targets (2048, 128, 0x4000), that never touches the access-mode bits.
#[verifier::external_body]
pub(crate) fn o_nonblock() -> (r: i32)
    ensures
        r != 0,
        r & 3 == 0,
{
    libc::O_NONBLOCK
}

/// Relies on libc::POLLIN, which is 0x1 on Linux.
#[verifier::external_body]
pub(crate) fn pollin() -> (r: i16)
    ensures
        r == 1,
{
    libc::POLLIN
}

/// Relies on libc::POLLPRI, which is 0x2 on Linux.
#[verifier::external_body]
pub(crate) fn pollpri() -> (r: i16)
    ensures
        r == 2,
{
    libc::POLLPRI
}

/// Relies on libc::EINVAL, the "invalid argument" error code, which is 22 on Linux.
#[verifier::external_body]
pub(crate) fn einval() -> (r: i32)
    ensures
        r == EINVAL_CODE,
{
    libc::EINVAL
}

/// The "invalid argument" error code on Linux.
pub const EINVAL_CODE: i32 = 22;

} // verus!
