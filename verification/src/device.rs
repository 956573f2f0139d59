//! The handle on an open UIO device.

use crate::description::{
    device_maps, device_maps_or_none, maps_view, unique_device, DeviceDescription,
    MapDescription, MapView,
};
use crate::error::Error;
use crate::internal::{devfs_uio_file_path, spec_devfs_uio_file_path};
use crate::interrupt::{
    control_bytes, control_result, event_count, spec_control_bytes, spec_control_result,
    spec_event_count,
};
use crate::sysfs::Sysfs;
use vstd::prelude::*;

verus! {

/// How opening a device file for reading and writing, and then trying once
/// for its exclusive advisory lock, went.
#[derive(Clone, Copy, Debug, PartialEq, Eq)]
pub enum OpenOutcome {
    /// The file is open and the lock is held.
    Locked,
    /// The file is open; someone else holds the lock.
    LockUnavailable,
    /// The file is open; trying for the lock failed, for the platform's
    /// reason.
    LockFailed(std::io::ErrorKind),
    /// The file could not be opened.
    Failed(std::io::ErrorKind),
}

/// What opening device `uio_number` amounts to, given how it went: the
/// device's number where the file is open and the lock is held, and also
/// where the platform has no advisory locks. A missing file is `NoDevice`; a
/// lock that is held elsewhere, or that could not be tried for any other
/// reason than missing support, is `DeviceLock`; and any other failure to open
/// is the platform's.
pub open spec fn opened_number(uio_number: u16, outcome: OpenOutcome) -> Result<u16, Error> {
    match outcome {
        OpenOutcome::Locked => Ok(uio_number),
        OpenOutcome::LockUnavailable => Err(Error::DeviceLock),
        OpenOutcome::LockFailed(kind) => if kind == std::io::ErrorKind::Unsupported {
            Ok(uio_number)
        } else {
            Err(Error::DeviceLock)
        },
        OpenOutcome::Failed(kind) => if kind == std::io::ErrorKind::NotFound {
            Err(Error::NoDevice)
        } else {
            Err(Error::Io(kind))
        },
    }
}

/// An open UIO device.
pub struct Device {
    uio_number: u16,
}

impl Device {
    /// The number of the device.
    pub closed spec fn number(&self) -> u16 {
        self.uio_number
    }

    /// The handle on device `uio_number`, given how opening its file went.
    pub fn opened(uio_number: u16, outcome: OpenOutcome) -> (device: Result<Device, Error>)
        ensures
            match device {
                Ok(d) => opened_number(uio_number, outcome) == Ok::<u16, Error>(d.number()),
                Err(e) => opened_number(uio_number, outcome) == Err::<u16, Error>(e),
            },
    {
        match outcome {
            OpenOutcome::Locked => Ok(Device { uio_number }),
            OpenOutcome::LockUnavailable => Err(Error::DeviceLock),
            OpenOutcome::LockFailed(kind) => match kind {
                std::io::ErrorKind::Unsupported => Ok(Device { uio_number }),
                _ => Err(Error::DeviceLock),
            },
            OpenOutcome::Failed(kind) => match kind {
                std::io::ErrorKind::NotFound => Err(Error::NoDevice),
                _ => Err(Error::Io(kind)),
            },
        }
    }

    /// Opens device `uio_number`. `open` opens the device file at the path it
    /// is given, tries once for the exclusive lock and says how that went.
    pub fn new<F: FnOnce(String) -> OpenOutcome>(uio_number: u16, open: F) -> (device: Result<
        Device,
        Error,
    >)
        requires
            forall|path: String|
                path@ == spec_devfs_uio_file_path(uio_number) ==> open.requires((path,)),
        ensures
            exists|path: String, outcome: OpenOutcome|
                path@ == spec_devfs_uio_file_path(uio_number) && open.ensures((path,), outcome)
                    && match device {
                    Ok(d) => opened_number(uio_number, outcome) == Ok::<u16, Error>(d.number()),
                    Err(e) => opened_number(uio_number, outcome) == Err::<u16, Error>(e),
                },
    {
        let path = devfs_uio_file_path(uio_number);
        let outcome = open(path);
        Device::opened(uio_number, outcome)
    }

    /// Opens the one device that carries `name`. Where no device or more than
    /// one carries it the result is `NotFound`, and `open` is not called.
    pub fn try_from_name<F: FnOnce(String) -> OpenOutcome>(fs: &Sysfs, name: &str, open: F) -> (device:
        Result<Device, Error>)
        requires
            forall|path: String|
                (unique_device(fs@, name@) matches Ok(found) && path@
                    == spec_devfs_uio_file_path(found.number)) ==> open.requires((path,)),
        ensures
            match unique_device(fs@, name@) {
                Err(e) => device matches Err(err) && err == e,
                Ok(found) => exists|path: String, outcome: OpenOutcome|
                    path@ == spec_devfs_uio_file_path(found.number) && open.ensures(
                        (path,),
                        outcome,
                    ) && match device {
                        Ok(d) => opened_number(found.number, outcome) == Ok::<u16, Error>(
                            d.number(),
                        ),
                        Err(e) => opened_number(found.number, outcome) == Err::<u16, Error>(e),
                    },
            },
    {
        match DeviceDescription::find_unique(fs, name) {
            Ok(description) => Device::new(description.uio(), open),
            Err(e) => Err(e),
        }
    }

    /// The device's number.
    pub fn uio(&self) -> (number: u16)
        ensures
            number == self.number(),
    {
        self.uio_number
    }

    /// The device's maps, and none where they cannot be listed.
    pub fn maps(&self, fs: &Sysfs) -> (maps: Vec<MapDescription>)
        ensures
            maps_view(maps@) == device_maps_or_none(fs@, self.number()),
    {
        match MapDescription::enumerate(fs, self.uio_number) {
            Ok(maps) => maps,
            Err(_) => {
                let maps: Vec<MapDescription> = Vec::new();
                assert(maps_view(maps@) =~= Seq::<MapView>::empty());
                maps
            },
        }
    }

    /// The device's maps, or why they cannot be listed.
    pub fn map_descriptors(&self, fs: &Sysfs) -> (maps: Result<Vec<MapDescription>, Error>)
        ensures
            match maps {
                Ok(m) => device_maps(fs@, self.number()) == Ok::<Seq<MapView>, Error>(
                    maps_view(m@),
                ),
                Err(e) => device_maps(fs@, self.number()) == Err::<Seq<MapView>, Error>(e),
            },
    {
        MapDescription::enumerate(fs, self.uio_number)
    }

    /// Enables the device's interrupt. `write` writes the bytes it is given
    /// to the device file.
    pub fn interrupt_enable<W: FnOnce([u8; 4]) -> Result<usize, std::io::ErrorKind>>(
        &mut self,
        write: W,
    ) -> (result: Result<(), Error>)
        requires
            forall|bytes: [u8; 4]| bytes@ == spec_control_bytes(true) ==> write.requires((bytes,)),
        ensures
            *final(self) == *old(self),
            exists|bytes: [u8; 4], written: Result<usize, std::io::ErrorKind>|
                bytes@ == spec_control_bytes(true) && write.ensures((bytes,), written) && result
                    == spec_control_result(written),
    {
        control_result(write(control_bytes(true)))
    }

    /// Disables the device's interrupt. `write` writes the bytes it is given
    /// to the device file.
    pub fn interrupt_disable<W: FnOnce([u8; 4]) -> Result<usize, std::io::ErrorKind>>(
        &mut self,
        write: W,
    ) -> (result: Result<(), Error>)
        requires
            forall|bytes: [u8; 4]| bytes@ == spec_control_bytes(false) ==> write.requires((bytes,)),
        ensures
            *final(self) == *old(self),
            exists|bytes: [u8; 4], written: Result<usize, std::io::ErrorKind>|
                bytes@ == spec_control_bytes(false) && write.ensures((bytes,), written) && result
                    == spec_control_result(written),
    {
        control_result(write(control_bytes(false)))
    }

    /// Waits for the next interrupt and returns the driver's interrupt
    /// count. `read` reads from the device file into a four-byte buffer of
    /// zeros, which blocks until the interrupt, and returns the buffer.
    pub fn interrupt_wait<R: FnOnce() -> Result<[u8; 4], std::io::ErrorKind>>(
        &mut self,
        read: R,
    ) -> (count: Result<u32, Error>)
        requires
            read.requires(()),
        ensures
            *final(self) == *old(self),
            exists|outcome: Result<[u8; 4], std::io::ErrorKind>|
                read.ensures((), outcome) && count == spec_event_count(outcome),
    {
        event_count(read())
    }
}

} // verus!
