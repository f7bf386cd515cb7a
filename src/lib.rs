//! Timer-notification state machine, multi-descriptor readiness selection and
//! the adaptive file readahead window, with their contracts proved by Verus.
use vstd::prelude::*;

pub mod readahead;
pub mod timerfd;
pub mod select;

verus! {

/// Errors returned by the library's operations.
#[derive(Debug, Clone, Copy, PartialEq, Eq, Structural)]
pub enum SysError {
    /// Malformed argument.
    InvalidInput,
    /// A descriptor does not resolve to an open object.
    BadFileDescriptor,
    /// Nothing to consume yet; the caller may wait and retry.
    WouldBlock,
}

/// Readable.
pub const POLLIN: u32 = 0x1;

/// Writable.
pub const POLLOUT: u32 = 0x4;

/// Exceptional condition.
pub const POLLERR: u32 = 0x8;

/// Normal data readable.
pub const POLLRDNORM: u32 = 0x40;

} // verus!
