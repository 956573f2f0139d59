//! The interrupt protocol of a UIO device file.
//!
//! Writing the 32-bit number 1 to the device file enables the device's
//! interrupt and writing 0 disables it. Reading four bytes blocks until the
//! next interrupt and yields the driver's count of interrupts so far. All
//! numbers are in the byte order of the host.

use crate::device::{opened_number, Device, OpenOutcome};
use crate::error::Error;
use crate::internal::{devfs_uio_file_path, spec_devfs_uio_file_path};
use crate::native::{
    lemma_native_round_trip, lemma_u32_fits, native_bytes, native_value, u32_from_native,
    u32_to_native,
};
use vstd::prelude::*;

verus! {

/// The four bytes that enable the interrupt, or disable it.
pub open spec fn spec_control_bytes(enable: bool) -> Seq<u8> {
    native_bytes(
        if enable {
            1
        } else {
            0
        },
        4,
    )
}

/// What a control write amounts to, given what the platform said of it: done,
/// however many bytes it reports, or refused.
pub open spec fn spec_control_result(written: Result<usize, std::io::ErrorKind>) -> Result<
    (),
    Error,
> {
    match written {
        Ok(_) => Ok(()),
        Err(kind) => Err(Error::Io(kind)),
    }
}

/// The interrupt count that a read delivered, given what the platform said of
/// it: the number in the buffer, or the failure.
pub open spec fn spec_event_count(read: Result<[u8; 4], std::io::ErrorKind>) -> Result<
    u32,
    Error,
> {
    match read {
        Ok(bytes) => Ok(native_value(bytes@) as u32),
        Err(kind) => Err(Error::Io(kind)),
    }
}

/// A read that delivers the four bytes of the driver's count yields that
/// count.
pub proof fn lemma_event_count_delivered(count: u32, bytes: [u8; 4])
    requires
        bytes@ == native_bytes(count as nat, 4),
    ensures
        spec_event_count(Ok(bytes)) == Ok::<u32, Error>(count),
{
    lemma_u32_fits(count);
    lemma_native_round_trip(count as nat, 4);
}

/// The four bytes to write to the device file to enable the interrupt, or to
/// disable it.
pub fn control_bytes(enable: bool) -> (bytes: [u8; 4])
    ensures
        bytes@ == spec_control_bytes(enable),
{
    if enable {
        u32_to_native(1)
    } else {
        u32_to_native(0)
    }
}

/// What a control write amounts to, given what the platform said of it.
pub fn control_result(written: Result<usize, std::io::ErrorKind>) -> (result: Result<(), Error>)
    ensures
        result == spec_control_result(written),
{
    match written {
        Ok(_) => Ok(()),
        Err(kind) => Err(Error::Io(kind)),
    }
}

/// The interrupt count that a read delivered, given what the platform said of
/// it. `read` holds the four-byte buffer as the read left it.
pub fn event_count(read: Result<[u8; 4], std::io::ErrorKind>) -> (count: Result<u32, Error>)
    ensures
        count == spec_event_count(read),
{
    match read {
        Ok(bytes) => Ok(u32_from_native(bytes)),
        Err(kind) => Err(Error::Io(kind)),
    }
}

/// The interrupt channel of one device.
pub struct Interrupt {
    uio_number: u16,
}

impl Interrupt {
    /// The number of the device that the channel belongs to.
    pub closed spec fn number(&self) -> u16 {
        self.uio_number
    }

    /// Opens the interrupt channel of device `uio_number`. `open` opens the
    /// device file at the path it is given and says how that went.
    pub fn new<F: FnOnce(String) -> OpenOutcome>(uio_number: u16, open: F) -> (channel: Result<
        Interrupt,
        Error,
    >)
        requires
            forall|path: String|
                path@ == spec_devfs_uio_file_path(uio_number) ==> open.requires((path,)),
        ensures
            exists|path: String, outcome: OpenOutcome|
                path@ == spec_devfs_uio_file_path(uio_number) && open.ensures((path,), outcome)
                    && match channel {
                    Ok(c) => opened_number(uio_number, outcome) == Ok::<u16, Error>(c.number()),
                    Err(e) => opened_number(uio_number, outcome) == Err::<u16, Error>(e),
                },
    {
        let path = devfs_uio_file_path(uio_number);
        match Device::opened(uio_number, open(path)) {
            Ok(device) => Ok(Interrupt { uio_number: device.uio() }),
            Err(e) => Err(e),
        }
    }

    /// Enables the interrupt. `write` writes the bytes it is given to the
    /// device file.
    pub fn enable<W: FnOnce([u8; 4]) -> Result<usize, std::io::ErrorKind>>(
        &mut self,
        write: W,
    ) -> (result: Result<(), Error>)
        requires
            forall|bytes: [u8; 4]| bytes@ == spec_control_bytes(true) ==> write.requires((bytes,)),
        ensures
            *final(self) == *old(self),
            exists|bytes: [u8; 4], written: Result<usize, std::io::ErrorKind>|
                bytes@ == spec_control_bytes(true) && write.ensures((bytes,), written) && result
                    == spec_control_result(written),
    {
        control_result(write(control_bytes(true)))
    }

    /// Disables the interrupt. `write` writes the bytes it is given to the
    /// device file.
    pub fn disable<W: FnOnce([u8; 4]) -> Result<usize, std::io::ErrorKind>>(
        &mut self,
        write: W,
    ) -> (result: Result<(), Error>)
        requires
            forall|bytes: [u8; 4]| bytes@ == spec_control_bytes(false) ==> write.requires((bytes,)),
        ensures
            *final(self) == *old(self),
            exists|bytes: [u8; 4], written: Result<usize, std::io::ErrorKind>|
                bytes@ == spec_control_bytes(false) && write.ensures((bytes,), written) && result
                    == spec_control_result(written),
    {
        control_result(write(control_bytes(false)))
    }

    /// Waits for the next interrupt and returns the driver's interrupt
    /// count. `read` reads from the device file into a four-byte buffer of
    /// zeros, which blocks until the interrupt, and returns the buffer.
    pub fn wait<R: FnOnce() -> Result<[u8; 4], std::io::ErrorKind>>(&mut self, read: R) -> (count:
        Result<u32, Error>)
        requires
            read.requires(()),
        ensures
            *final(self) == *old(self),
            exists|outcome: Result<[u8; 4], std::io::ErrorKind>|
                read.ensures((), outcome) && count == spec_event_count(outcome),
    {
        event_count(read())
    }
}

} // verus!
