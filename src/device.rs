//! The capture device: opening, capability and control requests, readiness
//! waiting and byte transfers, each decided from the outcome of one system call.
use vstd::prelude::*;
use vstd::slice::slice_to_vec;

use std::sync::Arc;

use crate::control::{c_name, name_from_bytes, Control};
use crate::discovery::ControlQuery;
use crate::error::{DeviceError, WaitError};
use crate::handle::Handle;
use crate::sys::{o_nonblock, o_rdwr, pollin, pollpri};

verus! {

/// Whether reads and waits on the opened device block.
#[derive(Debug, Clone, Copy, PartialEq, Eq, Structural)]
pub enum OpenFlags {
    Nonblocking,
    Blocking,
}

/// The ASCII decimal digits of `n`, most significant first.
pub open spec fn decimal(n: nat) -> Seq<u8>
    decreases n,
{
    if n < 10 {
        seq![(48 + n) as u8]
    } else {
        decimal(n / 10) + seq![(48 + n % 10) as u8]
    }
}

/// The bytes of "/dev/video", the prefix of indexed device nodes.
pub open spec fn video_prefix() -> Seq<u8> {
    seq![47u8, 100u8, 101u8, 118u8, 47u8, 118u8, 105u8, 100u8, 101u8, 111u8]
}

/// Relies on std's `usize::to_string`: the number's decimal digits, as the
/// bytes of the string.
#[verifier::external_body]
fn decimal_bytes(index: usize) -> (r: Vec<u8>)
    ensures
        r@ == decimal(index as nat),
{
    index.to_string().into_bytes()
}

/// Relies on std's `Arc::clone`: another owner of the same value.
#[verifier::external_body]
fn share(shared: &Arc<Handle>) -> (r: Arc<Handle>)
    ensures
        *r == **shared,
{
    Arc::clone(shared)
}

/// What to open, and how: the node's path and the open flags.
#[derive(Debug, Clone)]
pub struct OpenRequest {
    /// The node's path, as bytes: a path need not be valid UTF-8.
    pub path: Vec<u8>,
    pub flags: i32,
}

impl OpenRequest {
    /// Turns the outcome of the open call into a device: `fd` is what the call
    /// returned, `errno` the platform error code at that moment. A negative
    /// descriptor is a failure, never a device.
    pub fn complete(&self, fd: i32, errno: i32) -> (r: Result<Device, DeviceError>)
        ensures
            fd < 0 ==> r == Err::<Device, DeviceError>(DeviceError::Os(errno)),
            fd >= 0 ==> (r matches Ok(d) && d.wf() && d.spec_fd() == fd),
    {
        if fd < 0 {
            Err(DeviceError::Os(errno))
        } else {
            Ok(Device { handle: Arc::new(Handle::open(fd)) })
        }
    }
}

/// A driver's description of the device, taken when it was asked for.
#[derive(Debug, Clone, PartialEq, Eq)]
pub struct Capabilities {
    pub driver: Vec<u8>,
    pub card: Vec<u8>,
    pub bus: Vec<u8>,
    pub version: u32,
    pub capabilities: u32,
}

/// The capability record as the driver fills it in.
#[derive(Debug, Clone)]
pub struct RawCapability {
    pub driver: Vec<u8>,
    pub card: Vec<u8>,
    pub bus_info: Vec<u8>,
    pub version: u32,
    pub capabilities: u32,
}

/// A "set control value" request that may be issued.
#[derive(Debug, Clone, Copy, PartialEq, Eq, Structural)]
pub struct ControlWrite {
    pub id: u32,
    pub value: i32,
}

impl ControlWrite {
    /// The outcome of issuing the request: `Err(code)` where it failed.
    pub fn complete(&self, reply: Result<(), i32>) -> (r: Result<(), DeviceError>)
        ensures
            r == (match reply {
                Ok(()) => Ok::<(), DeviceError>(()),
                Err(code) => Err(DeviceError::Os(code)),
            }),
    {
        match reply {
            Ok(()) => Ok(()),
            Err(code) => Err(DeviceError::Os(code)),
        }
    }
}

/// A readiness poll to issue on one descriptor.
#[derive(Debug, Clone, Copy, PartialEq, Eq, Structural)]
pub struct PollRequest {
    pub fd: i32,
    pub events: i16,
    /// The timeout; -1 waits without end.
    pub timeout: i32,
}

/// What waiting yields once the poll call returned `ret` with the observed
/// event flags `revents`, `errno` being the platform error code at that moment.
pub open spec fn spec_wait_outcome(ret: i32, revents: i16, errno: i32) -> Result<(), WaitError> {
    if ret < 0 {
        Err(WaitError::PollError(errno))
    } else if ret == 0 {
        Err(WaitError::Timeout)
    } else if revents & 1 != 0 {
        Ok(())
    } else {
        Err(WaitError::DeviceError(revents))
    }
}

/// A capture device; it shares its handle with every clone of it.
pub struct Device {
    handle: Arc<Handle>,
}

impl Device {
    /// The descriptor of the shared handle.
    pub closed spec fn spec_fd(self) -> i32 {
        (*self.handle).spec_fd()
    }

    /// The device's handle is open.
    pub closed spec fn wf(self) -> bool {
        (*self.handle).is_open()
    }

    /// The node of the device with the given index: the first device the
    /// system enumerated has index zero.
    pub fn new(index: usize) -> (r: OpenRequest)
        ensures
            r.path@ == video_prefix() + decimal(index as nat),
            r.flags == 2,
    {
        let mut path: Vec<u8> = vec![47u8, 100, 101, 118, 47, 118, 105, 100, 101, 111];  // "/dev/video"
        let mut digits = decimal_bytes(index);
        path.append(&mut digits);
        assert(path@ =~= video_prefix() + decimal(index as nat));
        OpenRequest { path, flags: o_rdwr() }
    }

    /// The device node at `path`, opened for reading and writing (access mode 2).
    pub fn with_path(path: &[u8]) -> (r: OpenRequest)
        ensures
            r.path@ == path@,
            r.flags == 2,
    {
        OpenRequest { path: slice_to_vec(path), flags: o_rdwr() }
    }

    /// The device node at `path`, opened for reading and writing (access mode
    /// 2), with the non-blocking flag added where `open_flags` asks for it.
    pub fn with_path_and_flags(path: &[u8], open_flags: OpenFlags) -> (r: OpenRequest)
        ensures
            r.path@ == path@,
            open_flags == OpenFlags::Blocking ==> r.flags == 2,
            open_flags == OpenFlags::Nonblocking ==> r.flags & 3 == 2 && r.flags != 2,
    {
        let rdwr = o_rdwr();
        let flags = match open_flags {
            OpenFlags::Nonblocking => {
                let nonblock = o_nonblock();
                assert((rdwr | nonblock) & 3 == 2 && (rdwr | nonblock) != 2) by (bit_vector)
                    requires
                        rdwr == 2,
                        nonblock != 0,
                        nonblock & 3 == 0,
                ;
                rdwr | nonblock
            },
            OpenFlags::Blocking => rdwr,
        };
        OpenRequest { path: slice_to_vec(path), flags }
    }

    /// Another owner of the device's handle.
    pub fn handle(&self) -> (r: Arc<Handle>)
        ensures
            (*r).spec_fd() == self.spec_fd(),
    {
        share(&self.handle)
    }

    /// The descriptor that requests are issued on.
    pub fn fd(&self) -> (r: i32)
        ensures
            r == self.spec_fd(),
    {
        self.handle.fd()
    }

    /// The capabilities, from the reply to a capability request: the record
    /// the driver filled in, or `Err(code)` where the request failed.
    pub fn query_caps(&self, reply: Result<RawCapability, i32>) -> (r: Result<Capabilities, DeviceError>)
        ensures
            match reply {
                Ok(raw) => (r matches Ok(c) && c.driver@ == c_name(raw.driver@) && c.card@ == c_name(
                    raw.card@,
                ) && c.bus@ == c_name(raw.bus_info@) && c.version == raw.version && c.capabilities
                    == raw.capabilities),
                Err(code) => r == Err::<Capabilities, DeviceError>(DeviceError::Os(code)),
            },
    {
        match reply {
            Ok(raw) => Ok(
                Capabilities {
                    driver: name_from_bytes(raw.driver.as_slice()),
                    card: name_from_bytes(raw.card.as_slice()),
                    bus: name_from_bytes(raw.bus_info.as_slice()),
                    version: raw.version,
                    capabilities: raw.capabilities,
                },
            ),
            Err(code) => Err(DeviceError::Os(code)),
        }
    }

    /// Starts the enumeration of the device's controls.
    pub fn query_controls(&self) -> (r: ControlQuery)
        ensures
            r@.len() == 0,
            r.cursor() == 0,
            !r.pending(),
            r.requests() == 0,
            r.wf(),
    {
        ControlQuery::new()
    }

    /// The value of a control, from the reply to a "get control value"
    /// request: the value read, or `Err(code)` where the request failed.
    pub fn control(&self, reply: Result<i32, i32>) -> (r: Result<Control, DeviceError>)
        ensures
            r == (match reply {
                Ok(v) => Ok::<Control, DeviceError>(Control::Value(v)),
                Err(code) => Err(DeviceError::Os(code)),
            }),
    {
        match reply {
            Ok(v) => Ok(Control::Value(v)),
            Err(code) => Err(DeviceError::Os(code)),
        }
    }

    /// The request that sets control `id` to `val`. Only a single value can be
    /// written: any other kind is refused here, and no request is issued.
    pub fn set_control(&self, id: u32, val: Control) -> (r: Result<ControlWrite, DeviceError>)
        ensures
            match val {
                Control::Value(v) => r == Ok::<ControlWrite, DeviceError>(ControlWrite { id, value: v }),
                _ => r == Err::<ControlWrite, DeviceError>(DeviceError::Unsupported),
            },
    {
        match val {
            Control::Value(v) => Ok(ControlWrite { id, value: v }),
            _ => Err(DeviceError::Unsupported),
        }
    }

    /// The readiness poll to issue: input ready or priority input ready on the
    /// device's descriptor, for at most `timeout` (a timeout past the largest
    /// the poll takes is held to it), or without end where none is given.
    pub fn wait(&self, timeout: Option<usize>) -> (r: PollRequest)
        ensures
            r.fd == self.spec_fd(),
            r.events == 1 | 2,
            r.timeout == (match timeout {
                Some(t) => if t <= i32::MAX { t as i32 } else { i32::MAX },
                None => -1i32,
            }),
    {
        let timeout: i32 = match timeout {
            Some(t) => if t <= i32::MAX as usize { t as i32 } else { i32::MAX },
            None => -1,
        };
        PollRequest { fd: self.handle.fd(), events: pollin() | pollpri(), timeout }
    }

    /// Classifies what the poll call returned: an error, no event (timed out),
    /// or events, which are "ready" only where input is ready; otherwise the
    /// raw event flags are reported.
    pub fn wait_outcome(ret: i32, revents: i16, errno: i32) -> (r: Result<(), WaitError>)
        ensures
            r == spec_wait_outcome(ret, revents, errno),
    {
        if ret < 0 {
            Err(WaitError::PollError(errno))
        } else if ret == 0 {
            Err(WaitError::Timeout)
        } else if revents & pollin() != 0 {
            Ok(())
        } else {
            Err(WaitError::DeviceError(revents))
        }
    }

    /// What a read or a write transferred, from the transfer call's return
    /// value `ret` and the platform error code `errno` at that moment: a
    /// negative return is a failure, any other is the number of bytes moved.
    pub fn transfer_outcome(ret: isize, errno: i32) -> (r: Result<usize, DeviceError>)
        ensures
            ret < 0 ==> r == Err::<usize, DeviceError>(DeviceError::Os(errno)),
            ret >= 0 ==> r == Ok::<usize, DeviceError>(ret as usize),
    {
        if ret < 0 {
            Err(DeviceError::Os(errno))
        } else {
            Ok(ret as usize)
        }
    }

    /// Lets go of this owner of the handle. The last owner to let go gets the
    /// descriptor to close; every other owner gets `None`.
    pub fn close(self) -> (r: Option<i32>)
        requires
            self.wf(),
        ensures
            r matches Some(fd) ==> fd == self.spec_fd() && fd >= 0,
    {
        crate::handle::let_go(self.handle)
    }
}

} // verus!
