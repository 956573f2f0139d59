//! The error type shared by every operation of the crate.

use vstd::prelude::*;

verus! {

/// The platform's classification of a failed I/O operation, carried by
/// [`Error::Io`]. Declared with its variants so that contracts can name them.
#[verifier::external_type_specification]
pub struct ExErrorKind(std::io::ErrorKind);

/// Why an operation failed.
#[derive(Clone, Copy, Debug, PartialEq, Eq, PartialOrd, Ord)]
pub enum Error {
    /// The device has no entry in sysfs or devfs.
    NoDevice,
    /// The exclusive lock on the device file is held by someone else.
    DeviceLock,
    /// A mapping offset cannot be represented.
    Address,
    /// A numeric attribute holds malformed text.
    Parse,
    /// An access reaches beyond the end of the mapped region.
    OutOfBound,
    /// No device, or more than one, carries the requested name.
    NotFound,
    /// The platform refused a read, write, open or mapping request.
    Io(std::io::ErrorKind),
}

impl From<std::io::ErrorKind> for Error {
    fn from(kind: std::io::ErrorKind) -> (error: Error) {
        Error::Io(kind)
    }
}

impl vstd::std_specs::convert::FromSpecImpl<std::io::ErrorKind> for Error {
    open spec fn obeys_from_spec() -> bool {
        true
    }

    open spec fn from_spec(kind: std::io::ErrorKind) -> Error {
        Error::Io(kind)
    }
}

} // verus!
