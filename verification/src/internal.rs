//! Where the attributes of a device are found, and how they are read.

use crate::error::Error;
use crate::sysfs::{read_file, Sysfs, Tree};
use crate::text::{
    append_decimal, decimal_text, decimal_u64, hexadecimal_u64, hexadecimal_usize,
    parse_decimal_u64, parse_hexadecimal_u64, parse_hexadecimal_usize, trim, trimmed,
};
use vstd::prelude::*;
use vstd::string::*;

verus! {

/// The path of `name` inside the directory `dir`.
pub open spec fn spec_join(dir: Seq<char>, name: Seq<char>) -> Seq<char> {
    dir + seq!['/'] + name
}

/// The sysfs directory of device `uio_number`: `/sys/class/uio/uio<N>`.
pub open spec fn spec_sysfs_uio_dir(uio_number: u16) -> Seq<char> {
    "/sys/class/uio/uio"@ + decimal_text(uio_number as nat)
}

/// The directory that lists the maps of device `uio_number`.
pub open spec fn spec_sysfs_uio_maps_dir(uio_number: u16) -> Seq<char> {
    spec_join(spec_sysfs_uio_dir(uio_number), "maps"@)
}

/// The name of the directory of map `map_number`: `map<M>`.
pub open spec fn spec_map_dir_name(map_number: u16) -> Seq<char> {
    "map"@ + decimal_text(map_number as nat)
}

/// The sysfs directory of map `map_number` of device `uio_number`.
pub open spec fn spec_sysfs_uio_map_dir(uio_number: u16, map_number: u16) -> Seq<char> {
    spec_join(spec_sysfs_uio_maps_dir(uio_number), spec_map_dir_name(map_number))
}

/// The device file of device `uio_number`: `/dev/uio<N>`.
pub open spec fn spec_devfs_uio_file_path(uio_number: u16) -> Seq<char> {
    "/dev/uio"@ + decimal_text(uio_number as nat)
}

/// The trimmed text of the file at `path`.
pub open spec fn spec_read_string(tree: Tree, path: Seq<char>) -> Result<Seq<char>, Error> {
    match read_file(tree, path) {
        Ok(text) => Ok(trimmed(text)),
        Err(e) => Err(e),
    }
}

/// The decimal number in the file at `path`.
pub open spec fn spec_read_u64(tree: Tree, path: Seq<char>) -> Result<u64, Error> {
    match spec_read_string(tree, path) {
        Ok(text) => decimal_u64(text),
        Err(e) => Err(e),
    }
}

/// The hexadecimal number in the file at `path`.
pub open spec fn spec_read_hexadecimal_u64(tree: Tree, path: Seq<char>) -> Result<u64, Error> {
    match spec_read_string(tree, path) {
        Ok(text) => hexadecimal_u64(text),
        Err(e) => Err(e),
    }
}

/// The hexadecimal number in the file at `path`, in the width of an address.
pub open spec fn spec_read_hexadecimal_usize(tree: Tree, path: Seq<char>) -> Result<
    usize,
    Error,
> {
    match spec_read_string(tree, path) {
        Ok(text) => hexadecimal_usize(text),
        Err(e) => Err(e),
    }
}

/// The attribute files of device `uio_number` that discovery reads: its
/// `name`, `version` and `event`.
pub open spec fn spec_device_attribute_paths(uio_number: u16) -> Seq<Seq<char>> {
    let dir = spec_sysfs_uio_dir(uio_number);
    seq![spec_join(dir, "name"@), spec_join(dir, "version"@), spec_join(dir, "event"@)]
}

/// The attribute files of the map directory `map_dir` that discovery reads:
/// its `addr`, `size`, `offset` and `name`.
pub open spec fn spec_map_attribute_paths(map_dir: Seq<char>) -> Seq<Seq<char>> {
    seq![
        spec_join(map_dir, "addr"@),
        spec_join(map_dir, "size"@),
        spec_join(map_dir, "offset"@),
        spec_join(map_dir, "name"@),
    ]
}

/// The texts of a list of paths.
pub open spec fn paths_view(paths: Seq<String>) -> Seq<Seq<char>> {
    Seq::new(paths.len(), |i: int| paths[i]@)
}

/// The path of `name` inside the directory `dir`.
pub fn join(dir: &str, name: &str) -> (path: String)
    ensures
        path@ == spec_join(dir@, name@),
{
    proof {
        reveal_strlit("/");
    }
    let mut path = String::from_str(dir);
    path.append("/");
    path.append(name);
    assert(path@ =~= spec_join(dir@, name@));
    path
}

/// The sysfs directory of device `uio_number`.
pub fn sysfs_uio_dir(uio_number: u16) -> (path: String)
    ensures
        path@ == spec_sysfs_uio_dir(uio_number),
{
    let mut path = String::from_str("/sys/class/uio/uio");
    append_decimal(&mut path, uio_number as u64);
    path
}

/// The directory that lists the maps of device `uio_number`.
pub fn sysfs_uio_maps_dir(uio_number: u16) -> (path: String)
    ensures
        path@ == spec_sysfs_uio_maps_dir(uio_number),
{
    let dir = sysfs_uio_dir(uio_number);
    join(dir.as_str(), "maps")
}

/// The sysfs directory of map `map_number` of device `uio_number`.
pub fn sysfs_uio_map_dir(uio_number: u16, map_number: u16) -> (path: String)
    ensures
        path@ == spec_sysfs_uio_map_dir(uio_number, map_number),
{
    let maps = sysfs_uio_maps_dir(uio_number);
    let mut name = String::from_str("map");
    append_decimal(&mut name, map_number as u64);
    join(maps.as_str(), name.as_str())
}

/// The device file of device `uio_number`.
pub fn devfs_uio_file_path(uio_number: u16) -> (path: String)
    ensures
        path@ == spec_devfs_uio_file_path(uio_number),
{
    let mut path = String::from_str("/dev/uio");
    append_decimal(&mut path, uio_number as u64);
    path
}

/// The attribute files of device `uio_number` that a snapshot has to record
/// for discovery to describe the device.
pub fn device_attribute_paths(uio_number: u16) -> (paths: Vec<String>)
    ensures
        paths_view(paths@) == spec_device_attribute_paths(uio_number),
{
    let dir = sysfs_uio_dir(uio_number);
    let mut paths: Vec<String> = Vec::new();
    paths.push(join(dir.as_str(), "name"));
    paths.push(join(dir.as_str(), "version"));
    paths.push(join(dir.as_str(), "event"));
    assert(paths_view(paths@) =~= spec_device_attribute_paths(uio_number));
    paths
}

/// The attribute files of the map directory `map_dir` that a snapshot has to
/// record for discovery to describe the map.
pub fn map_attribute_paths(map_dir: &str) -> (paths: Vec<String>)
    ensures
        paths_view(paths@) == spec_map_attribute_paths(map_dir@),
{
    let mut paths: Vec<String> = Vec::new();
    paths.push(join(map_dir, "addr"));
    paths.push(join(map_dir, "size"));
    paths.push(join(map_dir, "offset"));
    paths.push(join(map_dir, "name"));
    assert(paths_view(paths@) =~= spec_map_attribute_paths(map_dir@));
    paths
}

/// Reads the file at `path` and trims the text.
pub fn read_string(fs: &Sysfs, path: &str) -> (text: Result<String, Error>)
    ensures
        match text {
            Ok(t) => spec_read_string(fs@, path@) == Ok::<Seq<char>, Error>(t@),
            Err(e) => spec_read_string(fs@, path@) == Err::<Seq<char>, Error>(e),
        },
{
    match fs.read_to_string(path) {
        Ok(text) => Ok(trim(text.as_str())),
        Err(e) => Err(e),
    }
}

/// Reads the decimal number in the file at `path`.
pub fn read_u64(fs: &Sysfs, path: &str) -> (value: Result<u64, Error>)
    ensures
        value == spec_read_u64(fs@, path@),
{
    match read_string(fs, path) {
        Ok(text) => parse_decimal_u64(text.as_str()),
        Err(e) => Err(e),
    }
}

/// Reads the hexadecimal number in the file at `path`; a leading `0x` is
/// accepted and not required.
pub fn read_hexadecimal_u64(fs: &Sysfs, path: &str) -> (value: Result<u64, Error>)
    ensures
        value == spec_read_hexadecimal_u64(fs@, path@),
{
    match read_string(fs, path) {
        Ok(text) => parse_hexadecimal_u64(text.as_str()),
        Err(e) => Err(e),
    }
}

/// Reads the hexadecimal number in the file at `path`, in the width of an
/// address; a leading `0x` is accepted and not required.
pub fn read_hexadecimal_usize(fs: &Sysfs, path: &str) -> (value: Result<usize, Error>)
    ensures
        value == spec_read_hexadecimal_usize(fs@, path@),
{
    match read_string(fs, path) {
        Ok(text) => parse_hexadecimal_usize(text.as_str()),
        Err(e) => Err(e),
    }
}

} // verus!
