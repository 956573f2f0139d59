use std::cell::Cell;
use std::io::ErrorKind;
use uio_rs::interrupt::{control_bytes, control_result, event_count};
use uio_rs::{Device, DirEntry, Error, Interrupt, Node, OpenOutcome, Sysfs};

fn named_device(fs: &mut Sysfs, number: u16, name: &str) {
    let dir = format!("/sys/class/uio/uio{}", number);
    fs.insert(&dir, Node::Directory(vec![]));
    fs.insert(&format!("{}/name", dir), Node::File(format!("{}\n", name)));
    fs.insert(&format!("{}/version", dir), Node::File(String::from("1.0\n")));
}

#[test]
fn open_hands_the_device_file_to_the_opener() {
    let seen = Cell::new(String::new());
    let device = Device::new(5, |path| {
        seen.set(path);
        OpenOutcome::Locked
    })
    .ok()
    .unwrap();
    assert_eq!(seen.take(), "/dev/uio5");
    assert_eq!(device.uio(), 5);
}

#[test]
fn open_outcomes() {
    assert_eq!(Device::opened(3, OpenOutcome::Locked).ok().map(|d| d.uio()), Some(3));
    assert_eq!(
        Device::opened(3, OpenOutcome::LockFailed(ErrorKind::Unsupported)).ok().map(|d| d.uio()),
        Some(3)
    );
    assert_eq!(
        Device::opened(3, OpenOutcome::LockFailed(ErrorKind::PermissionDenied)).err(),
        Some(Error::DeviceLock)
    );
    assert_eq!(
        Device::opened(3, OpenOutcome::LockFailed(ErrorKind::NotFound)).err(),
        Some(Error::DeviceLock)
    );
    assert_eq!(Device::opened(3, OpenOutcome::LockUnavailable).err(), Some(Error::DeviceLock));
    assert_eq!(
        Device::opened(3, OpenOutcome::Failed(ErrorKind::NotFound)).err(),
        Some(Error::NoDevice)
    );
    assert_eq!(
        Device::opened(3, OpenOutcome::Failed(ErrorKind::PermissionDenied)).err(),
        Some(Error::Io(ErrorKind::PermissionDenied))
    );
}

#[test]
fn second_open_of_a_locked_device_fails() {
    let locked = Cell::new(false);
    let open = |_path: String| {
        if locked.get() {
            OpenOutcome::LockUnavailable
        } else {
            locked.set(true);
            OpenOutcome::Locked
        }
    };
    let first = Device::new(0, open).ok().unwrap();
    let second = Device::new(0, open);
    assert_eq!(second.err(), Some(Error::DeviceLock));
    assert_eq!(first.uio(), 0);
    assert!(locked.get());
}

#[test]
fn open_of_a_missing_device_file() {
    let device = Device::new(9, |_| OpenOutcome::Failed(ErrorKind::NotFound));
    assert_eq!(device.err(), Some(Error::NoDevice));
    let device = Device::new(9, |_| OpenOutcome::Failed(ErrorKind::PermissionDenied));
    assert_eq!(device.err(), Some(Error::Io(ErrorKind::PermissionDenied)));
}

#[test]
fn open_by_unique_name() {
    let mut fs = Sysfs::new();
    named_device(&mut fs, 0, "gpio");
    named_device(&mut fs, 1, "eth-dma");
    let seen = Cell::new(String::new());
    let device = Device::try_from_name(&fs, "eth-dma", |path| {
        seen.set(path);
        OpenOutcome::Locked
    })
    .ok()
    .unwrap();
    assert_eq!(device.uio(), 1);
    assert_eq!(seen.take(), "/dev/uio1");
    let busy = Device::try_from_name(&fs, "gpio", |_| OpenOutcome::LockUnavailable);
    assert_eq!(busy.err(), Some(Error::DeviceLock));
}

#[test]
fn open_by_ambiguous_or_unknown_name_opens_nothing() {
    let mut fs = Sysfs::new();
    named_device(&mut fs, 0, "eth-dma");
    named_device(&mut fs, 1, "eth-dma");
    let calls = Cell::new(0u32);
    let open = |_path: String| {
        calls.set(calls.get() + 1);
        OpenOutcome::Locked
    };
    assert_eq!(Device::try_from_name(&fs, "eth-dma", open).err(), Some(Error::NotFound));
    assert_eq!(Device::try_from_name(&fs, "timer", open).err(), Some(Error::NotFound));
    assert_eq!(calls.get(), 0);
}

#[test]
fn device_lists_its_maps() {
    let mut fs = Sysfs::new();
    let device = Device::opened(2, OpenOutcome::Locked).ok().unwrap();
    assert_eq!(device.maps(&fs).len(), 0);
    assert_eq!(device.map_descriptors(&fs).err(), Some(Error::Io(ErrorKind::NotFound)));
    fs.insert(
        "/sys/class/uio/uio2/maps",
        Node::Directory(vec![DirEntry { name: Some(String::from("map0")), is_dir: true }]),
    );
    fs.insert("/sys/class/uio/uio2/maps/map0/addr", Node::File(String::from("0xa000\n")));
    fs.insert("/sys/class/uio/uio2/maps/map0/size", Node::File(String::from("0x2000\n")));
    fs.insert("/sys/class/uio/uio2/maps/map0/offset", Node::File(String::from("0x0\n")));
    let maps = device.maps(&fs);
    assert_eq!(maps.len(), 1);
    assert_eq!(maps[0].map(), 0);
    assert_eq!(maps[0].size(), 0x2000);
    let described = device.map_descriptors(&fs).ok().unwrap();
    assert_eq!(described.len(), 1);
    assert_eq!(described[0].base_address(), 0xa000);
}

#[test]
fn control_words() {
    assert_eq!(control_bytes(true), 1u32.to_ne_bytes());
    assert_eq!(control_bytes(false), 0u32.to_ne_bytes());
    assert_eq!(control_bytes(false), [0, 0, 0, 0]);
    assert_ne!(control_bytes(true), [0, 0, 0, 0]);
}

#[test]
fn control_write_results() {
    assert_eq!(control_result(Ok(4)), Ok(()));
    assert_eq!(control_result(Ok(0)), Ok(()));
    assert_eq!(control_result(Err(ErrorKind::InvalidInput)), Err(Error::Io(ErrorKind::InvalidInput)));
}

#[test]
fn event_counts() {
    assert_eq!(event_count(Ok(7u32.to_ne_bytes())), Ok(7));
    assert_eq!(event_count(Ok(0x0102_0304u32.to_ne_bytes())), Ok(0x0102_0304));
    assert_eq!(event_count(Ok([0xff; 4])), Ok(u32::MAX));
    assert_eq!(event_count(Ok([0; 4])), Ok(0));
    assert_eq!(event_count(Err(ErrorKind::Interrupted)), Err(Error::Io(ErrorKind::Interrupted)));
}

#[test]
fn device_interrupt_protocol() {
    let mut device = Device::opened(0, OpenOutcome::Locked).ok().unwrap();
    let written = Cell::new([0xaau8; 4]);
    let write = |bytes: [u8; 4]| {
        written.set(bytes);
        Ok(4usize)
    };
    assert_eq!(device.interrupt_enable(write), Ok(()));
    assert_eq!(written.get(), 1u32.to_ne_bytes());
    assert_eq!(device.interrupt_disable(write), Ok(()));
    assert_eq!(written.get(), 0u32.to_ne_bytes());
    assert_eq!(
        device.interrupt_enable(|_| Err(ErrorKind::InvalidInput)),
        Err(Error::Io(ErrorKind::InvalidInput))
    );
    assert_eq!(device.interrupt_wait(|| Ok(41u32.to_ne_bytes())), Ok(41));
    assert_eq!(
        device.interrupt_wait(|| Err(ErrorKind::UnexpectedEof)),
        Err(Error::Io(ErrorKind::UnexpectedEof))
    );
    assert_eq!(device.uio(), 0);
}

#[test]
fn interrupt_channel_protocol() {
    let seen = Cell::new(String::new());
    let mut channel = Interrupt::new(12, |path| {
        seen.set(path);
        OpenOutcome::Locked
    })
    .ok()
    .unwrap();
    assert_eq!(seen.take(), "/dev/uio12");
    let written = Cell::new([0xaau8; 4]);
    let write = |bytes: [u8; 4]| {
        written.set(bytes);
        Ok(4usize)
    };
    assert_eq!(channel.enable(write), Ok(()));
    assert_eq!(written.get(), 1u32.to_ne_bytes());
    assert_eq!(channel.disable(write), Ok(()));
    assert_eq!(written.get(), 0u32.to_ne_bytes());
    assert_eq!(channel.disable(|_| Err(ErrorKind::BrokenPipe)), Err(Error::Io(ErrorKind::BrokenPipe)));
    assert_eq!(channel.wait(|| Ok(3u32.to_ne_bytes())), Ok(3));
    assert_eq!(channel.wait(|| Err(ErrorKind::Interrupted)), Err(Error::Io(ErrorKind::Interrupted)));
    assert_eq!(
        Interrupt::new(1, |_| OpenOutcome::Failed(ErrorKind::NotFound)).err(),
        Some(Error::NoDevice)
    );
    assert_eq!(Interrupt::new(1, |_| OpenOutcome::LockUnavailable).err(), Some(Error::DeviceLock));
}
