//! Descriptions of UIO devices and of their memory maps, as sysfs reports
//! them.

use crate::error::Error;
use crate::internal::{
    join, read_hexadecimal_u64, read_hexadecimal_usize, read_string, read_u64,
    spec_join, spec_map_dir_name, spec_read_hexadecimal_u64, spec_read_hexadecimal_usize,
    spec_read_string, spec_read_u64, spec_sysfs_uio_dir, spec_sysfs_uio_map_dir,
    spec_sysfs_uio_maps_dir, sysfs_uio_dir, sysfs_uio_map_dir, sysfs_uio_maps_dir,
};
use crate::sysfs::{entries_view, list_dir, path_exists, DirEntry, EntryView, Sysfs, Tree};
use crate::text::{
    all_digits, append_decimal, append_hex, chars_of, decimal_text, digits_value, hex_text,
    lemma_decimal_text_reads_back, parse_digits, parse_digits_from,
};
use vstd::prelude::*;
use vstd::string::*;

verus! {

/// The identity of a UIO device, as it was when the description was taken.
pub struct DeviceDescription {
    uio_number: u16,
    name: String,
    version: String,
    event_count: u64,
}

/// The mathematical value of a [`DeviceDescription`].
pub struct DeviceView {
    /// The `N` of `uioN`.
    pub number: u16,
    /// The name that the driver gave the device.
    pub name: Seq<char>,
    /// The version that the driver reports.
    pub version: Seq<char>,
    /// The driver's count of events when the description was taken.
    pub event_count: u64,
}

impl View for DeviceDescription {
    type V = DeviceView;

    closed spec fn view(&self) -> DeviceView {
        DeviceView {
            number: self.uio_number,
            name: self.name@,
            version: self.version@,
            event_count: self.event_count,
        }
    }
}

/// The values of a list of device descriptions.
pub open spec fn devices_view(devices: Seq<DeviceDescription>) -> Seq<DeviceView> {
    Seq::new(devices.len(), |i: int| devices[i]@)
}

/// What sysfs says of device `uio_number`: `NoDevice` where its directory is
/// absent, else its trimmed `name` and `version` with its event count, or the
/// error of the first of `name` and `version` that cannot be read. The event
/// count never makes the description fail.
pub open spec fn resolve_device(tree: Tree, uio_number: u16) -> Result<DeviceView, Error> {
    let dir = spec_sysfs_uio_dir(uio_number);
    if !path_exists(tree, dir) {
        Err(Error::NoDevice)
    } else {
        match spec_read_string(tree, spec_join(dir, "name"@)) {
            Err(e) => Err(e),
            Ok(name) => match spec_read_string(tree, spec_join(dir, "version"@)) {
                Err(e) => Err(e),
                Ok(version) => Ok(
                    DeviceView {
                        number: uio_number,
                        name,
                        version,
                        event_count: device_event_count(tree, uio_number),
                    },
                ),
            },
        }
    }
}

/// The event count of device `uio_number` in `tree`: the decimal number in
/// its `event` attribute, and 0 where the attribute cannot be read or holds no
/// number.
pub open spec fn device_event_count(tree: Tree, uio_number: u16) -> u64 {
    match spec_read_u64(tree, spec_join(spec_sysfs_uio_dir(uio_number), "event"@)) {
        Ok(count) => count,
        Err(_) => 0,
    }
}

/// The number of device numbers probed: counting up from `from`, the first
/// number that does not resolve, and 65535 where every number below it does.
pub open spec fn dense_count(tree: Tree, from: nat) -> nat
    decreases 65535 - from,
{
    if from < 65535 && resolve_device(tree, from as u16) is Ok {
        dense_count(tree, from + 1)
    } else {
        from
    }
}

/// The description of device `uio_number`, where it resolves.
pub open spec fn resolved_device(tree: Tree, uio_number: u16) -> DeviceView {
    match resolve_device(tree, uio_number) {
        Ok(device) => device,
        Err(_) => arbitrary(),
    }
}

/// The devices found by counting up from 0 to the first number that does not
/// resolve, in ascending order.
pub open spec fn enumerated(tree: Tree) -> Seq<DeviceView> {
    Seq::new(dense_count(tree, 0), |i: int| resolved_device(tree, i as u16))
}

/// The devices among `devices` that carry `name`.
pub open spec fn named(devices: Seq<DeviceView>, name: Seq<char>) -> Seq<DeviceView> {
    devices.filter(|device: DeviceView| device.name == name)
}

/// The one enumerated device that carries `name`; `NotFound` where none
/// does, and where more than one does.
pub open spec fn unique_device(tree: Tree, name: Seq<char>) -> Result<DeviceView, Error> {
    let matches = named(enumerated(tree), name);
    if matches.len() == 1 {
        Ok(matches[0])
    } else {
        Err(Error::NotFound)
    }
}

/// The geometry of one memory map of a UIO device.
pub struct MapDescription {
    uio_number: u16,
    map_number: u16,
    base_address: usize,
    size: usize,
    offset: u64,
}

/// The mathematical value of a [`MapDescription`].
pub struct MapView {
    /// The device that the map belongs to.
    pub uio_number: u16,
    /// The `M` of `mapM`.
    pub map_number: u16,
    /// The physical address of the region.
    pub base_address: usize,
    /// The length of the region in bytes.
    pub size: usize,
    /// The `offset` attribute, which takes no part in mapping the region.
    pub offset: u64,
}

impl View for MapDescription {
    type V = MapView;

    closed spec fn view(&self) -> MapView {
        MapView {
            uio_number: self.uio_number,
            map_number: self.map_number,
            base_address: self.base_address,
            size: self.size,
            offset: self.offset,
        }
    }
}

/// The values of a list of map descriptions.
pub open spec fn maps_view(maps: Seq<MapDescription>) -> Seq<MapView> {
    Seq::new(maps.len(), |i: int| maps[i]@)
}

/// What sysfs says of map `map_number` of device `uio_number`: its `addr`,
/// `size` and `offset` attributes, or the error of the first of the three that
/// cannot be read or is malformed.
pub open spec fn resolve_map(tree: Tree, uio_number: u16, map_number: u16) -> Result<
    MapView,
    Error,
> {
    let dir = spec_sysfs_uio_map_dir(uio_number, map_number);
    match spec_read_hexadecimal_usize(tree, spec_join(dir, "addr"@)) {
        Err(e) => Err(e),
        Ok(base_address) => match spec_read_hexadecimal_usize(tree, spec_join(dir, "size"@)) {
            Err(e) => Err(e),
            Ok(size) => match spec_read_hexadecimal_u64(tree, spec_join(dir, "offset"@)) {
                Err(e) => Err(e),
                Ok(offset) => Ok(
                    MapView { uio_number, map_number, base_address, size, offset },
                ),
            },
        },
    }
}

/// `name` starts with `map`.
pub open spec fn has_map_prefix(name: Seq<char>) -> bool {
    name.len() >= 3 && name[0] == 'm' && name[1] == 'a' && name[2] == 'p'
}

/// The map index that a directory entry stands for: the entry is a
/// directory, and its name is `map` followed by one or more decimal digits
/// and nothing else, which write a number up to 65535.
pub open spec fn entry_map_index(entry: EntryView) -> Option<u16> {
    match entry.name {
        Some(name) => if entry.is_dir && has_map_prefix(name) {
            match parse_digits(name.subrange(3, name.len() as int), 10, 65535) {
                Some(index) => Some(index as u16),
                None => None,
            }
        } else {
            None
        },
        None => None,
    }
}

/// The map that a directory entry contributes to the enumeration, if any.
pub open spec fn entry_map(tree: Tree, uio_number: u16, entry: EntryView) -> Option<MapView> {
    match entry_map_index(entry) {
        Some(index) => match resolve_map(tree, uio_number, index) {
            Ok(map) => Some(map),
            Err(_) => None,
        },
        None => None,
    }
}

/// The maps that the entries of a listing contribute, in the order of the
/// listing.
pub open spec fn listed_maps(tree: Tree, uio_number: u16, entries: Seq<EntryView>) -> Seq<
    MapView,
>
    decreases entries.len(),
{
    if entries.len() == 0 {
        Seq::empty()
    } else {
        let front = listed_maps(tree, uio_number, entries.drop_last());
        match entry_map(tree, uio_number, entries.last()) {
            Some(map) => front.push(map),
            None => front,
        }
    }
}

/// The maps of device `uio_number`: those that the listing of its `maps`
/// directory contributes, or the error of listing it.
pub open spec fn device_maps(tree: Tree, uio_number: u16) -> Result<Seq<MapView>, Error> {
    match list_dir(tree, spec_sysfs_uio_maps_dir(uio_number)) {
        Ok(entries) => Ok(listed_maps(tree, uio_number, entries)),
        Err(e) => Err(e),
    }
}

/// The maps of device `uio_number`, and none where its `maps` directory
/// cannot be listed.
pub open spec fn device_maps_or_none(tree: Tree, uio_number: u16) -> Seq<MapView> {
    match device_maps(tree, uio_number) {
        Ok(maps) => maps,
        Err(_) => Seq::empty(),
    }
}

/// The name of map `map_number` of device `uio_number`: its trimmed `name`
/// attribute.
pub open spec fn map_name(tree: Tree, uio_number: u16, map_number: u16) -> Result<
    Seq<char>,
    Error,
> {
    spec_read_string(tree, spec_join(spec_sysfs_uio_map_dir(uio_number, map_number), "name"@))
}

/// A device in one line: `uio<N> <name> <version>`.
pub open spec fn device_text(device: DeviceView) -> Seq<char> {
    "uio"@ + decimal_text(device.number as nat) + " "@ + device.name + " "@ + device.version
}

/// A map in one line: `uio<N> map<M> @<address> <size> +<offset>`, the three
/// numbers in sixteen hexadecimal digits each.
pub open spec fn map_text(map: MapView) -> Seq<char> {
    "uio"@ + decimal_text(map.uio_number as nat) + " map"@ + decimal_text(map.map_number as nat)
        + " @"@ + hex_text(map.base_address as nat, 16) + " "@ + hex_text(map.size as nat, 16)
        + " +"@ + hex_text(map.offset as nat, 16)
}

/// How `named` grows with the list of devices.
proof fn lemma_named_step(devices: Seq<DeviceView>, name: Seq<char>)
    requires
        devices.len() > 0,
    ensures
        named(devices, name) == if devices.last().name == name {
            named(devices.drop_last(), name).push(devices.last())
        } else {
            named(devices.drop_last(), name)
        },
{
    reveal(Seq::filter);
}

/// Device `i` of `devices` carries `name`.
pub open spec fn carries(devices: Seq<DeviceView>, i: int, name: Seq<char>) -> bool {
    0 <= i < devices.len() && devices[i].name == name
}

/// `named` is empty exactly where no device carries the name.
proof fn lemma_named_none(devices: Seq<DeviceView>, name: Seq<char>)
    ensures
        named(devices, name).len() == 0 <==> forall|i: int| !carries(devices, i, name),
    decreases devices.len(),
{
    if devices.len() == 0 {
        reveal(Seq::filter);
    } else {
        let front = devices.drop_last();
        let n = devices.len() - 1;
        lemma_named_none(front, name);
        lemma_named_step(devices, name);
        assert forall|i: int| carries(front, i, name) == (i < n && carries(devices, i, name)) by {}
        if devices.last().name == name {
            assert(carries(devices, n, name));
        } else if named(front, name).len() == 0 {
            assert forall|i: int| !carries(devices, i, name) by {
                assert(!carries(front, i, name));
            }
        } else {
            let i = choose|i: int| carries(front, i, name);
            assert(carries(devices, i, name));
        }
    }
}

/// The first device that `named` lists is the first that carries the name.
proof fn lemma_named_first(devices: Seq<DeviceView>, name: Seq<char>) -> (first: int)
    requires
        named(devices, name).len() >= 1,
    ensures
        carries(devices, first, name),
        named(devices, name)[0] == devices[first],
        forall|j: int| j < first ==> !carries(devices, j, name),
    decreases devices.len(),
{
    if devices.len() == 0 {
        reveal(Seq::filter);
        0
    } else {
        let front = devices.drop_last();
        let n = devices.len() - 1;
        lemma_named_step(devices, name);
        assert forall|i: int| carries(front, i, name) == (i < n && carries(devices, i, name)) by {}
        if named(front, name).len() >= 1 {
            let first = lemma_named_first(front, name);
            assert forall|j: int| j < first implies !carries(devices, j, name) by {
                assert(!carries(front, j, name));
            }
            first
        } else {
            lemma_named_none(front, name);
            assert forall|j: int| j < n implies !carries(devices, j, name) by {
                assert(!carries(front, j, name));
            }
            n
        }
    }
}

/// `named` lists two devices or more exactly where two devices carry the
/// name.
proof fn lemma_named_two(devices: Seq<DeviceView>, name: Seq<char>)
    ensures
        named(devices, name).len() >= 2 <==> exists|i: int, j: int|
            i < j && carries(devices, i, name) && carries(devices, j, name),
    decreases devices.len(),
{
    if devices.len() == 0 {
        reveal(Seq::filter);
    } else {
        let front = devices.drop_last();
        let n = devices.len() - 1;
        lemma_named_two(front, name);
        lemma_named_none(front, name);
        lemma_named_step(devices, name);
        assert forall|i: int| carries(front, i, name) == (i < n && carries(devices, i, name)) by {}
        if named(devices, name).len() >= 2 {
            if named(front, name).len() >= 2 {
                let (i, j) = choose|i: int, j: int|
                    i < j && carries(front, i, name) && carries(front, j, name);
                assert(i < j && carries(devices, i, name) && carries(devices, j, name));
            } else {
                let i = choose|i: int| carries(front, i, name);
                assert(i < n && carries(devices, i, name) && carries(devices, n, name));
            }
        }
        if exists|i: int, j: int| i < j && carries(devices, i, name) && carries(devices, j, name) {
            let (i, j) = choose|i: int, j: int|
                i < j && carries(devices, i, name) && carries(devices, j, name);
            assert(carries(front, i, name));
            if j < n {
                assert(i < j && carries(front, i, name) && carries(front, j, name));
            }
        }
    }
}

/// How many devices carry a name, told without `named`: none exactly where
/// no device carries it, and one exactly where one and only one device
/// carries it, which is then the one that `named` lists.
pub proof fn lemma_named_count(devices: Seq<DeviceView>, name: Seq<char>)
    ensures
        named(devices, name).len() == 0 <==> forall|i: int| !carries(devices, i, name),
        named(devices, name).len() == 1 <==> exists|i: int|
            carries(devices, i, name) && forall|j: int| j != i ==> !carries(devices, j, name),
        named(devices, name).len() == 1 ==> forall|i: int|
            carries(devices, i, name) ==> named(devices, name)[0] == devices[i],
{
    lemma_named_none(devices, name);
    lemma_named_two(devices, name);
    if named(devices, name).len() == 1 {
        let first = lemma_named_first(devices, name);
        assert forall|j: int| j != first implies !carries(devices, j, name) by {
            if carries(devices, j, name) {
                if j < first {
                } else {
                    assert(first < j && carries(devices, first, name) && carries(
                        devices,
                        j,
                        name,
                    ));
                }
            }
        }
    }
    if exists|i: int| carries(devices, i, name) && forall|j: int| j != i ==> !carries(devices, j, name) {
        let i = choose|i: int|
            carries(devices, i, name) && forall|j: int| j != i ==> !carries(devices, j, name);
        if named(devices, name).len() >= 2 {
            let (a, b) = choose|a: int, b: int|
                a < b && carries(devices, a, name) && carries(devices, b, name);
            assert(a != i || b != i);
        }
    }
}

/// The unique device of a name, told without `named`: the lookup succeeds
/// exactly where one and only one enumerated device carries the name, and
/// yields that device; otherwise it is `NotFound`, with no device of the name
/// and with several alike.
pub proof fn lemma_unique_device(tree: Tree, name: Seq<char>)
    ensures
        unique_device(tree, name) is Ok <==> exists|i: int|
            carries(enumerated(tree), i, name) && forall|j: int|
                j != i ==> !carries(enumerated(tree), j, name),
        unique_device(tree, name) matches Ok(device) ==> exists|i: int|
            carries(enumerated(tree), i, name) && enumerated(tree)[i] == device,
        unique_device(tree, name) matches Err(e) ==> e == Error::NotFound,
{
    let devices = enumerated(tree);
    lemma_named_count(devices, name);
    if named(devices, name).len() == 1 {
        let first = lemma_named_first(devices, name);
        assert(carries(devices, first, name) && devices[first] == named(devices, name)[0]);
    }
}

/// The maps of a listing, told entry by entry: a map is enumerated exactly
/// where some entry of the listing contributes it.
pub proof fn lemma_listed_maps(tree: Tree, uio_number: u16, entries: Seq<EntryView>, map: MapView)
    ensures
        listed_maps(tree, uio_number, entries).contains(map) <==> exists|i: int|
            0 <= i < entries.len() && entry_map(tree, uio_number, #[trigger] entries[i]) == Some(
                map,
            ),
        listed_maps(tree, uio_number, entries).len() <= entries.len(),
    decreases entries.len(),
{
    if entries.len() > 0 {
        let front = entries.drop_last();
        let n = entries.len() - 1;
        lemma_listed_maps(tree, uio_number, front, map);
        let before = listed_maps(tree, uio_number, front);
        let all = listed_maps(tree, uio_number, entries);
        assert forall|i: int| 0 <= i < n implies front[i] == entries[i] by {}
        if all.contains(map) {
            let k = choose|k: int| 0 <= k < all.len() && all[k] == map;
            if k < before.len() {
                assert(before[k] == map);
                assert(before.contains(map));
                let i = choose|i: int|
                    0 <= i < front.len() && entry_map(tree, uio_number, #[trigger] front[i])
                        == Some(map);
                assert(entry_map(tree, uio_number, entries[i]) == Some(map));
            } else {
                assert(entry_map(tree, uio_number, entries[n]) == Some(map));
            }
        }
        if exists|i: int|
            0 <= i < entries.len() && entry_map(tree, uio_number, #[trigger] entries[i]) == Some(
                map,
            ) {
            let i = choose|i: int|
                0 <= i < entries.len() && entry_map(tree, uio_number, #[trigger] entries[i])
                    == Some(map);
            if i < n {
                assert(entry_map(tree, uio_number, front[i]) == Some(map));
                assert(before.contains(map));
                let k = choose|k: int| 0 <= k < before.len() && before[k] == map;
                assert(all[k] == map);
            } else {
                assert(all[all.len() - 1] == map);
            }
        }
    }
}

/// `entry` is a directory whose name is `map` followed by one or more of the
/// digits `0` to `9` and nothing else, and the digits write `index`.
pub open spec fn is_map_dir(entry: EntryView, index: u16) -> bool {
    &&& entry.is_dir
    &&& entry.name matches Some(name)
    &&& has_map_prefix(name)
    &&& name.len() > 3
    &&& all_digits(name.subrange(3, name.len() as int), 10)
    &&& digits_value(name.subrange(3, name.len() as int), 10) == index
}

/// A directory entry stands for a map index exactly where it is a directory
/// whose name is `map` and then decimal digits that write the index; a sign,
/// a blank or any other character in the name rules the entry out.
pub proof fn lemma_entry_map_index(entry: EntryView, index: u16)
    ensures
        entry_map_index(entry) == Some(index) <==> is_map_dir(entry, index),
{
}

/// Map enumeration is sound: every enumerated map is the description of an
/// index that some listed directory writes in decimal digits after `map`.
pub proof fn lemma_device_maps_sound(tree: Tree, uio_number: u16, map: MapView)
    requires
        device_maps(tree, uio_number) matches Ok(maps) && maps.contains(map),
    ensures
        map.uio_number == uio_number,
        resolve_map(tree, uio_number, map.map_number) == Ok::<MapView, Error>(map),
        list_dir(tree, spec_sysfs_uio_maps_dir(uio_number)) matches Ok(entries) && exists|i: int|
            0 <= i < entries.len() && is_map_dir(#[trigger] entries[i], map.map_number),
{
    let entries = list_dir(tree, spec_sysfs_uio_maps_dir(uio_number))->Ok_0;
    lemma_listed_maps(tree, uio_number, entries, map);
    let i = choose|i: int|
        0 <= i < entries.len() && entry_map(tree, uio_number, #[trigger] entries[i]) == Some(map);
    let index = entry_map_index(entries[i])->Some_0;
    lemma_entry_map_index(entries[i], index);
    assert(is_map_dir(entries[i], map.map_number));
}

/// Map enumeration is complete: where the listing holds a directory named
/// `map<M>` and map `M` resolves, the map is enumerated, whatever else the
/// listing holds. This is so for every index, 65535 included.
pub proof fn lemma_device_maps_complete(tree: Tree, uio_number: u16, map_number: u16, i: int)
    requires
        list_dir(tree, spec_sysfs_uio_maps_dir(uio_number)) matches Ok(entries) && 0 <= i
            < entries.len() && entries[i] == (EntryView {
            name: Some(spec_map_dir_name(map_number)),
            is_dir: true,
        }),
        resolve_map(tree, uio_number, map_number) is Ok,
    ensures
        device_maps(tree, uio_number) matches Ok(maps) && resolve_map(
            tree,
            uio_number,
            map_number,
        ) matches Ok(map) && maps.contains(map),
{
    let entries = list_dir(tree, spec_sysfs_uio_maps_dir(uio_number))->Ok_0;
    let map = resolve_map(tree, uio_number, map_number)->Ok_0;
    lemma_map_dir_name_index(map_number);
    assert(entry_map(tree, uio_number, entries[i]) == Some(map));
    lemma_listed_maps(tree, uio_number, entries, map);
}

/// What `dense_count` counts: every number from `from` up to it resolves, and
/// it does not, unless it is 65535.
proof fn lemma_dense_count(tree: Tree, from: nat)
    requires
        from <= 65535,
    ensures
        from <= dense_count(tree, from) <= 65535,
        forall|i: int|
            from <= i < dense_count(tree, from) ==> (#[trigger] resolve_device(
                tree,
                i as u16,
            )) is Ok,
        dense_count(tree, from) < 65535 ==> resolve_device(
            tree,
            dense_count(tree, from) as u16,
        ) is Err,
    decreases 65535 - from,
{
    if from < 65535 && resolve_device(tree, from as u16) is Ok {
        lemma_dense_count(tree, from + 1);
    }
}

/// Enumeration is dense and ascending: it yields the descriptions of the
/// numbers 0, 1, 2 and so on, each at its own index, and ends at the first
/// number that does not resolve, or at 65535.
pub proof fn lemma_enumerated_dense(tree: Tree)
    ensures
        enumerated(tree).len() <= 65535,
        forall|i: int|
            0 <= i < enumerated(tree).len() ==> (#[trigger] resolve_device(tree, i as u16))
                == Ok::<DeviceView, Error>(enumerated(tree)[i]),
        forall|i: int|
            0 <= i < enumerated(tree).len() ==> (#[trigger] enumerated(tree)[i]).number == i,
        enumerated(tree).len() < 65535 ==> resolve_device(
            tree,
            enumerated(tree).len() as u16,
        ) is Err,
{
    lemma_dense_count(tree, 0);
}

/// Enumeration never looks beyond the first number that does not resolve:
/// two trees that say the same of every number up to such a gap enumerate the
/// same devices, whatever they hold beyond it.
pub proof fn lemma_enumeration_stops_at_gap(a: Tree, b: Tree, gap: u16)
    requires
        resolve_device(a, gap) is Err,
        forall|i: u16| i <= gap ==> #[trigger] resolve_device(a, i) == resolve_device(b, i),
    ensures
        enumerated(a) == enumerated(b),
{
    lemma_dense_count(a, 0);
    lemma_dense_count(b, 0);
    let ca = dense_count(a, 0);
    let cb = dense_count(b, 0);
    if ca > gap {
        assert(resolve_device(a, gap as int as u16) is Ok);
    }
    if cb > gap {
        assert(resolve_device(b, gap as int as u16) is Ok);
    }
    if ca < cb {
        assert(resolve_device(b, ca as int as u16) is Ok);
        assert(resolve_device(a, ca as u16) == resolve_device(b, ca as u16));
    }
    if cb < ca {
        assert(resolve_device(a, cb as int as u16) is Ok);
        assert(resolve_device(a, cb as u16) == resolve_device(b, cb as u16));
    }
    assert forall|i: int| 0 <= i < ca implies enumerated(a)[i] == enumerated(b)[i] by {
        assert(resolve_device(a, i as u16) == resolve_device(b, i as u16));
    }
    assert(enumerated(a) =~= enumerated(b));
}

/// A directory named `map<M>`, in the notation that the map's own path uses,
/// stands for map `M`.
pub proof fn lemma_map_dir_name_index(map_number: u16)
    ensures
        entry_map_index(EntryView { name: Some(spec_map_dir_name(map_number)), is_dir: true })
            == Some(map_number),
{
    reveal_strlit("map");
    let name = spec_map_dir_name(map_number);
    assert(name.subrange(3, name.len() as int) =~= decimal_text(map_number as nat));
    lemma_decimal_text_reads_back(map_number as nat, 65535);
}

/// The device number to look at after `number`, for whoever records the
/// devices of a running system: the next one where `number` was found and the
/// next one is below 65535, and none otherwise. Enumeration reads nothing
/// beyond the numbers that this yields from 0 on.
pub fn probe_after(number: u16, found: bool) -> (next: Option<u16>)
    ensures
        next == (if found && number < 65534 {
            Some((number + 1) as u16)
        } else {
            None::<u16>
        }),
{
    if found && number < 65534 {
        Some(number + 1)
    } else {
        None
    }
}

impl DeviceDescription {
    /// Describes device `uio_number` from its sysfs directory.
    pub fn new(fs: &Sysfs, uio_number: u16) -> (description: Result<DeviceDescription, Error>)
        ensures
            match description {
                Ok(d) => resolve_device(fs@, uio_number) == Ok::<DeviceView, Error>(d@),
                Err(e) => resolve_device(fs@, uio_number) == Err::<DeviceView, Error>(e),
            },
    {
        let dir = sysfs_uio_dir(uio_number);
        if !fs.contains(dir.as_str()) {
            return Err(Error::NoDevice);
        }
        let name = match read_string(fs, join(dir.as_str(), "name").as_str()) {
            Ok(name) => name,
            Err(e) => {
                return Err(e);
            },
        };
        let version = match read_string(fs, join(dir.as_str(), "version").as_str()) {
            Ok(version) => version,
            Err(e) => {
                return Err(e);
            },
        };
        let event_count = match read_u64(fs, join(dir.as_str(), "event").as_str()) {
            Ok(count) => count,
            Err(_) => 0,
        };
        Ok(DeviceDescription { uio_number, name, version, event_count })
    }

    /// The device's number.
    pub fn uio(&self) -> (number: u16)
        ensures
            number == self@.number,
    {
        self.uio_number
    }

    /// The device's name.
    pub fn name(&self) -> (name: &str)
        ensures
            name@ == self@.name,
    {
        self.name.as_str()
    }

    /// The device's version.
    pub fn version(&self) -> (version: &str)
        ensures
            version@ == self@.version,
    {
        self.version.as_str()
    }

    /// The driver's count of events when the description was taken: 0 where
    /// the count could not be read then. A later count takes a new
    /// description.
    pub fn event_count(&self) -> (count: u64)
        ensures
            count == self@.event_count,
    {
        self.event_count
    }

    /// The device's maps, and none where they cannot be listed.
    pub fn maps(&self, fs: &Sysfs) -> (maps: Vec<MapDescription>)
        ensures
            maps_view(maps@) == device_maps_or_none(fs@, self@.number),
    {
        match MapDescription::enumerate(fs, self.uio_number) {
            Ok(maps) => maps,
            Err(_) => {
                let maps: Vec<MapDescription> = Vec::new();
                assert(maps_view(maps@) =~= Seq::<MapView>::empty());
                maps
            },
        }
    }

    /// The description in one line.
    pub fn to_text(&self) -> (text: String)
        ensures
            text@ == device_text(self@),
    {
        let mut text = String::from_str("uio");
        append_decimal(&mut text, self.uio_number as u64);
        text.append(" ");
        text.append(self.name.as_str());
        text.append(" ");
        text.append(self.version.as_str());
        text
    }

    /// Describes the devices 0, 1, 2 and so on, up to the first number that
    /// cannot be described.
    pub fn enumerate(fs: &Sysfs) -> (devices: Vec<DeviceDescription>)
        ensures
            devices_view(devices@) == enumerated(fs@),
    {
        let mut devices: Vec<DeviceDescription> = Vec::new();
        let mut number: u16 = 0;
        while number < u16::MAX
            invariant
                devices@.len() == number,
                forall|k: int|
                    0 <= k < number ==> resolve_device(fs@, k as u16) == Ok::<DeviceView, Error>(
                        #[trigger] devices@[k]@,
                    ),
                dense_count(fs@, 0) == dense_count(fs@, number as nat),
            decreases u16::MAX - number,
        {
            match DeviceDescription::new(fs, number) {
                Ok(description) => {
                    devices.push(description);
                },
                Err(_) => {
                    assert(devices_view(devices@) =~= enumerated(fs@));
                    return devices;
                },
            }
            number += 1;
        }
        assert(devices_view(devices@) =~= enumerated(fs@));
        devices
    }

    /// Finds the one device that carries `name`. A name that no device
    /// carries, and a name that several carry, are both `NotFound`.
    pub fn find_unique(fs: &Sysfs, name: &str) -> (found: Result<DeviceDescription, Error>)
        ensures
            match found {
                Ok(d) => unique_device(fs@, name@) == Ok::<DeviceView, Error>(d@),
                Err(e) => unique_device(fs@, name@) == Err::<DeviceView, Error>(e),
            },
    {
        let mut devices = DeviceDescription::enumerate(fs);
        let key = String::from_str(name);
        let ghost all = devices_view(devices@);
        let mut matches: usize = 0;
        let mut first_match: Option<usize> = None;
        let mut i: usize = 0;
        assert(named(all.subrange(0, 0), name@).len() == 0) by {
            reveal(Seq::filter);
        }
        while i < devices.len()
            invariant
                i <= devices@.len(),
                all == devices_view(devices@),
                key@ == name@,
                matches == named(all.subrange(0, i as int), name@).len(),
                matches <= i,
                match first_match {
                    Some(k) => k < i && matches >= 1 && named(all.subrange(0, i as int), name@)[0]
                        == all[k as int],
                    None => matches == 0,
                },
            decreases devices@.len() - i,
        {
            proof {
                let longer = all.subrange(0, i + 1);
                assert(longer.drop_last() =~= all.subrange(0, i as int));
                assert(longer.last() == devices@[i as int]@);
                lemma_named_step(longer, name@);
            }
            if devices[i].name == key {
                if first_match.is_none() {
                    first_match = Some(i);
                }
                matches = matches + 1;
            }
            i += 1;
        }
        assert(all.subrange(0, i as int) =~= all);
        match first_match {
            Some(k) => {
                if matches == 1 {
                    Ok(devices.swap_remove(k))
                } else {
                    Err(Error::NotFound)
                }
            },
            None => Err(Error::NotFound),
        }
    }
}

/// Whether `chars` starts with `map`.
fn starts_with_map(chars: &Vec<char>) -> (b: bool)
    ensures
        b == has_map_prefix(chars@),
{
    chars.len() >= 3 && chars[0] == 'm' && chars[1] == 'a' && chars[2] == 'p'
}

/// The map index that a directory entry stands for, if it stands for one.
fn map_index_of(entry: &DirEntry) -> (index: Option<u16>)
    ensures
        index == entry_map_index(entry@),
{
    match &entry.name {
        None => None,
        Some(name) => {
            let chars = chars_of(name.as_str());
            if entry.is_dir && starts_with_map(&chars) {
                match parse_digits_from(&chars, 3, 10, 65535) {
                    Some(index) => Some(index as u16),
                    None => None,
                }
            } else {
                None
            }
        },
    }
}

impl MapDescription {
    /// Describes map `map_number` of device `uio_number` from its sysfs
    /// directory.
    pub fn from_numbers(fs: &Sysfs, uio_number: u16, map_number: u16) -> (description: Result<
        MapDescription,
        Error,
    >)
        ensures
            match description {
                Ok(d) => resolve_map(fs@, uio_number, map_number) == Ok::<MapView, Error>(d@),
                Err(e) => resolve_map(fs@, uio_number, map_number) == Err::<MapView, Error>(e),
            },
    {
        let dir = sysfs_uio_map_dir(uio_number, map_number);
        let base_address = match read_hexadecimal_usize(fs, join(dir.as_str(), "addr").as_str()) {
            Ok(value) => value,
            Err(e) => {
                return Err(e);
            },
        };
        let size = match read_hexadecimal_usize(fs, join(dir.as_str(), "size").as_str()) {
            Ok(value) => value,
            Err(e) => {
                return Err(e);
            },
        };
        let offset = match read_hexadecimal_u64(fs, join(dir.as_str(), "offset").as_str()) {
            Ok(value) => value,
            Err(e) => {
                return Err(e);
            },
        };
        Ok(MapDescription { uio_number, map_number, base_address, size, offset })
    }

    /// Describes the maps of device `uio_number`: one for each directory
    /// `map<M>` that its `maps` directory lists and that can be described, in
    /// the order of the listing. Other entries are passed over.
    pub fn enumerate(fs: &Sysfs, uio_number: u16) -> (maps: Result<Vec<MapDescription>, Error>)
        ensures
            match maps {
                Ok(m) => device_maps(fs@, uio_number) == Ok::<Seq<MapView>, Error>(
                    maps_view(m@),
                ),
                Err(e) => device_maps(fs@, uio_number) == Err::<Seq<MapView>, Error>(e),
            },
    {
        let maps_dir = sysfs_uio_maps_dir(uio_number);
        let entries = match fs.read_dir(maps_dir.as_str()) {
            Ok(entries) => entries,
            Err(e) => {
                return Err(e);
            },
        };
        let ghost listing = entries_view(entries@);
        let mut mappings: Vec<MapDescription> = Vec::new();
        let mut i: usize = 0;
        while i < entries.len()
            invariant
                i <= entries@.len(),
                listing == entries_view(entries@),
                maps_view(mappings@) == listed_maps(fs@, uio_number, listing.subrange(0, i as int)),
            decreases entries@.len() - i,
        {
            proof {
                let longer = listing.subrange(0, i + 1);
                assert(longer.drop_last() =~= listing.subrange(0, i as int));
                assert(longer.last() == entries@[i as int]@);
            }
            let ghost before = maps_view(mappings@);
            if let Some(index) = map_index_of(&entries[i]) {
                if let Ok(mapping) = MapDescription::from_numbers(fs, uio_number, index) {
                    mappings.push(mapping);
                    assert(maps_view(mappings@) =~= before.push(mapping@));
                }
            }
            i += 1;
        }
        assert(listing.subrange(0, i as int) =~= listing);
        Ok(mappings)
    }

    /// The number of the device that the map belongs to.
    pub fn uio(&self) -> (number: u16)
        ensures
            number == self@.uio_number,
    {
        self.uio_number
    }

    /// The map's index.
    pub fn map(&self) -> (index: u16)
        ensures
            index == self@.map_number,
    {
        self.map_number
    }

    /// The physical address of the region.
    pub fn base_address(&self) -> (address: usize)
        ensures
            address == self@.base_address,
    {
        self.base_address
    }

    /// The length of the region in bytes.
    pub fn size(&self) -> (size: usize)
        ensures
            size == self@.size,
    {
        self.size
    }

    /// The `offset` attribute of the map.
    pub fn offset(&self) -> (offset: u64)
        ensures
            offset == self@.offset,
    {
        self.offset
    }

    /// The description in one line.
    pub fn to_text(&self) -> (text: String)
        ensures
            text@ == map_text(self@),
    {
        let mut text = String::from_str("uio");
        append_decimal(&mut text, self.uio_number as u64);
        text.append(" map");
        append_decimal(&mut text, self.map_number as u64);
        text.append(" @");
        append_hex(&mut text, self.base_address as u64, 16);
        text.append(" ");
        append_hex(&mut text, self.size as u64, 16);
        text.append(" +");
        append_hex(&mut text, self.offset, 16);
        text
    }

    /// The map's name as `fs` holds it.
    pub fn name(&self, fs: &Sysfs) -> (name: Result<String, Error>)
        ensures
            match name {
                Ok(n) => map_name(fs@, self@.uio_number, self@.map_number) == Ok::<
                    Seq<char>,
                    Error,
                >(n@),
                Err(e) => map_name(fs@, self@.uio_number, self@.map_number) == Err::<
                    Seq<char>,
                    Error,
                >(e),
            },
    {
        let dir = sysfs_uio_map_dir(self.uio_number, self.map_number);
        read_string(fs, join(dir.as_str(), "name").as_str())
    }
}

} // verus!
