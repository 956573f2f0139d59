use std::io::ErrorKind;
use uio_rs::internal::{
    devfs_uio_file_path, device_attribute_paths, join, map_attribute_paths, read_hexadecimal_u64, read_hexadecimal_usize, read_string,
    read_u64, sysfs_uio_dir, sysfs_uio_map_dir, sysfs_uio_maps_dir,
};
use uio_rs::{DirEntry, Error, Node, Sysfs};

fn file(text: &str) -> Node {
    Node::File(String::from(text))
}

#[test]
fn paths_of_a_device() {
    assert_eq!(sysfs_uio_dir(0), "/sys/class/uio/uio0");
    assert_eq!(sysfs_uio_dir(12), "/sys/class/uio/uio12");
    assert_eq!(sysfs_uio_dir(65535), "/sys/class/uio/uio65535");
    assert_eq!(sysfs_uio_maps_dir(3), "/sys/class/uio/uio3/maps");
    assert_eq!(sysfs_uio_map_dir(3, 0), "/sys/class/uio/uio3/maps/map0");
    assert_eq!(sysfs_uio_map_dir(10, 250), "/sys/class/uio/uio10/maps/map250");
    assert_eq!(devfs_uio_file_path(7), "/dev/uio7");
    assert_eq!(devfs_uio_file_path(100), "/dev/uio100");
}

#[test]
fn join_puts_a_slash_between() {
    assert_eq!(join("/sys/class/uio/uio0", "name"), "/sys/class/uio/uio0/name");
    assert_eq!(join("", "x"), "/x");
}

#[test]
fn empty_snapshot_holds_nothing() {
    let fs = Sysfs::new();
    assert!(!fs.contains("/sys/class/uio/uio0"));
    assert_eq!(fs.read_to_string("/sys/class/uio/uio0/name"), Err(Error::Io(ErrorKind::NotFound)));
    assert_eq!(fs.read_dir("/sys/class/uio/uio0/maps").err(), Some(Error::Io(ErrorKind::NotFound)));
}

#[test]
fn snapshot_answers_what_was_recorded() {
    let mut fs = Sysfs::new();
    fs.insert("/a", Node::Directory(vec![DirEntry { name: Some(String::from("b")), is_dir: false }]));
    fs.insert("/a/b", file("text\n"));
    fs.insert("/a/c", Node::Unreadable(ErrorKind::PermissionDenied));
    assert!(fs.contains("/a"));
    assert!(fs.contains("/a/b"));
    assert!(fs.contains("/a/c"));
    assert!(!fs.contains("/a/d"));
    assert!(!fs.contains("/a/"));
    assert_eq!(fs.read_to_string("/a/b"), Ok(&String::from("text\n")));
    assert_eq!(fs.read_to_string("/a"), Err(Error::Io(ErrorKind::IsADirectory)));
    assert_eq!(fs.read_to_string("/a/c"), Err(Error::Io(ErrorKind::PermissionDenied)));
    assert_eq!(fs.read_to_string("/a/d"), Err(Error::Io(ErrorKind::NotFound)));
    let listing = fs.read_dir("/a").unwrap();
    assert_eq!(listing.len(), 1);
    assert_eq!(listing[0].name.as_deref(), Some("b"));
    assert!(!listing[0].is_dir);
    assert_eq!(fs.read_dir("/a/b").err(), Some(Error::Io(ErrorKind::NotADirectory)));
    assert_eq!(fs.read_dir("/a/c").err(), Some(Error::Io(ErrorKind::PermissionDenied)));
}

#[test]
fn insert_replaces_the_node_at_a_path() {
    let mut fs = Sysfs::new();
    fs.insert("/x", file("one"));
    fs.insert("/y", file("other"));
    fs.insert("/x", file("two"));
    assert_eq!(fs.read_to_string("/x"), Ok(&String::from("two")));
    assert_eq!(fs.read_to_string("/y"), Ok(&String::from("other")));
    fs.insert("/x", Node::Directory(vec![]));
    assert_eq!(fs.read_to_string("/x"), Err(Error::Io(ErrorKind::IsADirectory)));
    assert_eq!(fs.read_dir("/x").map(|l| l.len()), Ok(0));
}

#[test]
fn read_string_trims() {
    let mut fs = Sysfs::new();
    fs.insert("/n", file("  eth-dma \n"));
    fs.insert("/e", file(""));
    assert_eq!(read_string(&fs, "/n"), Ok(String::from("eth-dma")));
    assert_eq!(read_string(&fs, "/e"), Ok(String::new()));
    assert_eq!(read_string(&fs, "/missing"), Err(Error::Io(ErrorKind::NotFound)));
}

#[test]
fn read_numbers() {
    let mut fs = Sysfs::new();
    fs.insert("/event", file("17\n"));
    fs.insert("/addr", file("0x00000000fe200000\n"));
    fs.insert("/size", file("1000\n"));
    fs.insert("/bad", file("zz\n"));
    fs.insert("/locked", Node::Unreadable(ErrorKind::PermissionDenied));
    assert_eq!(read_u64(&fs, "/event"), Ok(17));
    assert_eq!(read_u64(&fs, "/addr"), Err(Error::Parse));
    assert_eq!(read_u64(&fs, "/missing"), Err(Error::Io(ErrorKind::NotFound)));
    assert_eq!(read_hexadecimal_u64(&fs, "/addr"), Ok(0xfe20_0000));
    assert_eq!(read_hexadecimal_u64(&fs, "/size"), Ok(4096));
    assert_eq!(read_hexadecimal_u64(&fs, "/event"), Ok(0x17));
    assert_eq!(read_hexadecimal_u64(&fs, "/bad"), Err(Error::Parse));
    assert_eq!(read_hexadecimal_u64(&fs, "/locked"), Err(Error::Io(ErrorKind::PermissionDenied)));
    assert_eq!(read_hexadecimal_usize(&fs, "/addr"), Ok(0xfe20_0000));
    assert_eq!(read_hexadecimal_usize(&fs, "/size"), Ok(4096));
    assert_eq!(read_hexadecimal_usize(&fs, "/bad"), Err(Error::Parse));
    assert_eq!(read_hexadecimal_usize(&fs, "/missing"), Err(Error::Io(ErrorKind::NotFound)));
}

#[test]
fn error_from_platform_kind() {
    assert_eq!(Error::from(ErrorKind::NotFound), Error::Io(ErrorKind::NotFound));
    assert_eq!(Error::from(ErrorKind::WouldBlock), Error::Io(ErrorKind::WouldBlock));
    assert_ne!(Error::from(ErrorKind::NotFound), Error::NotFound);
}

#[test]
fn attribute_files_of_devices_and_maps() {
    assert_eq!(
        device_attribute_paths(2),
        vec![
            "/sys/class/uio/uio2/name",
            "/sys/class/uio/uio2/version",
            "/sys/class/uio/uio2/event"
        ]
    );
    assert_eq!(
        map_attribute_paths("/sys/class/uio/uio2/maps/map1"),
        vec![
            "/sys/class/uio/uio2/maps/map1/addr",
            "/sys/class/uio/uio2/maps/map1/size",
            "/sys/class/uio/uio2/maps/map1/offset",
            "/sys/class/uio/uio2/maps/map1/name"
        ]
    );
}
