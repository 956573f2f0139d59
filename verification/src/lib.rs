//! Userspace access to Linux UIO devices: device and map discovery from the
//! sysfs attribute tree, bounds-checked access to mapped register regions and
//! the interrupt protocol of the device file.
//!
//! The crate performs no I/O of its own. Attribute files are consulted through
//! a [`Sysfs`] snapshot, and the operations that touch the device file take the
//! caller's opener, mapper, reader or writer as an argument.

pub mod description;
pub mod device;
pub mod error;
pub mod internal;
pub mod interrupt;
pub mod map;
pub mod native;
pub mod sysfs;
pub mod text;

pub use crate::description::{DeviceDescription, MapDescription};
pub use crate::device::{Device, OpenOutcome};
pub use crate::error::Error;
pub use crate::interrupt::Interrupt;
pub use crate::map::MemoryMap;
pub use crate::sysfs::{DirEntry, Node, Sysfs};
