//! Bounds-checked access to a mapped region of device memory.

use crate::description::{resolve_map, MapDescription, MapView};
use crate::device::Device;
use crate::error::Error;
use crate::native::{
    fits, lemma_native_bytes_len, lemma_native_round_trip, lemma_u128_fits, lemma_u32_fits,
    lemma_u64_fits, native_bytes, native_read_u32, native_value, native_write_u128,
    native_write_u32, native_write_u64,
};
use crate::sysfs::Sysfs;
use memmap2::MmapMut;
use vstd::prelude::*;
use vstd::slice::slice_subrange;

verus! {

/// A writable memory mapping of `memmap2`. Nothing of it is visible but what
/// the functions below say.
#[verifier::external_type_specification]
#[verifier::external_body]
pub struct ExMmapMut(memmap2::MmapMut);

/// The bytes of a mapping: the slice that `MmapMut` dereferences to. As for
/// any value that hands out `&mut [u8]`, the bytes are taken to change only
/// through the mapping itself; whoever creates a mapping of a file promises as
/// much to `memmap2`.
pub uninterp spec fn mapped_bytes(region: MmapMut) -> Seq<u8>;

/// `<MmapMut as Deref>::deref`: the bytes of the mapping as a slice.
#[verifier::external_body]
fn region_bytes(region: &MmapMut) -> (bytes: &[u8])
    ensures
        bytes@ == mapped_bytes(*region),
{
    &region[..]
}

/// `<MmapMut as DerefMut>::deref_mut`: the bytes of the mapping as a mutable
/// slice, which is as long as the mapping and stays so. What is written to
/// the slice is written to the mapping. The call does not panic.
#[verifier::external_body]
fn region_bytes_mut(region: &mut MmapMut) -> (bytes: &mut [u8])
    ensures
        bytes@ == mapped_bytes(*old(region)),
        final(bytes)@.len() == bytes@.len(),
        mapped_bytes(*final(region)) == final(bytes)@,
    no_unwind
{
    &mut region[..]
}

/// `MmapMut::advise` with `Advice::Random`: asks the platform not to read
/// ahead in the mapping. The bytes of the mapping are not touched.
#[verifier::external_body]
fn advise_random(region: &MmapMut) -> (outcome: Result<(), std::io::ErrorKind>) {
    region.advise(memmap2::Advice::Random).map_err(|e| e.kind())
}

/// `memory` with `bytes` stored at `offset`.
pub open spec fn stored(memory: Seq<u8>, offset: int, bytes: Seq<u8>) -> Seq<u8> {
    memory.subrange(0, offset) + bytes + memory.subrange(offset + bytes.len(), memory.len() as int)
}

/// The offset in the device file at which map `map_number` is mapped: the
/// map's index in pages. `Address` where the offset cannot be represented.
pub open spec fn spec_mapping_offset(map_number: u16, page_size: u64) -> Result<u64, Error> {
    if map_number * page_size <= u64::MAX {
        Ok((map_number * page_size) as u64)
    } else {
        Err(Error::Address)
    }
}

/// The offset in the device file at which map `map_number` is mapped.
pub fn mapping_offset(map_number: u16, page_size: u64) -> (offset: Result<u64, Error>)
    ensures
        offset == spec_mapping_offset(map_number, page_size),
{
    match (map_number as u64).checked_mul(page_size) {
        Some(offset) => Ok(offset),
        None => Err(Error::Address),
    }
}

/// What becomes of a freshly mapped `region` of device `device_number` for
/// the map that `description` describes, given how advising the platform of
/// random access went. A description of another device is refused with
/// `Address`, and so is a region of another length than the map's; a region
/// that could not be advised is refused with the platform's error. Otherwise
/// the result holds the region's bytes under the description's numbers.
pub open spec fn region_assembled<'a>(
    device_number: u16,
    description: MapView,
    region: MmapMut,
    advised: Result<(), std::io::ErrorKind>,
    map: Result<MemoryMap<'a>, Error>,
) -> bool {
    if description.uio_number != device_number || mapped_bytes(region).len() != description.size {
        map matches Err(e) && e == Error::Address
    } else {
        match advised {
            Err(kind) => map matches Err(e) && e == Error::Io(kind),
            Ok(_) => {
                &&& map matches Ok(m)
                &&& m.bytes() == mapped_bytes(region)
                &&& m.uio_number() == device_number
                &&& m.map_number() == description.map_number
            },
        }
    }
}

/// What becomes of a freshly mapped `region` of device `device_number` for
/// the map that `description` describes: what [`region_assembled`] says for
/// the way advising the platform went.
pub open spec fn region_mapped<'a>(
    device_number: u16,
    description: MapView,
    region: MmapMut,
    map: Result<MemoryMap<'a>, Error>,
) -> bool {
    exists|advised: Result<(), std::io::ErrorKind>|
        region_assembled(device_number, description, region, advised, map)
}

/// What becomes of the request to map, on device `device_number`, the region
/// that `description` describes. A description of another device is refused
/// with `Address`, and so is a region whose offset in the device file cannot
/// be represented; in both cases `map_region` is not asked. Otherwise
/// `map_region` is asked for `description.size` bytes at that offset, and its
/// failure is the result, or its region is taken as [`region_mapped`] says.
pub open spec fn region_requested<'a, F: FnOnce(u64, usize) -> Result<MmapMut, std::io::ErrorKind>>(
    device_number: u16,
    description: MapView,
    page_size: u64,
    map_region: F,
    map: Result<MemoryMap<'a>, Error>,
) -> bool {
    if description.uio_number != device_number {
        map matches Err(e) && e == Error::Address
    } else {
        match spec_mapping_offset(description.map_number, page_size) {
            Err(e) => map matches Err(err) && err == e,
            Ok(offset) => exists|outcome: Result<MmapMut, std::io::ErrorKind>|
                map_region.ensures((offset, description.size), outcome) && match outcome {
                    Err(kind) => map matches Err(err) && err == Error::Io(kind),
                    Ok(region) => region_mapped(device_number, description, region, map),
                },
        }
    }
}

/// Storing bytes changes the bytes stored and no others.
pub proof fn lemma_stored(memory: Seq<u8>, offset: int, bytes: Seq<u8>)
    requires
        0 <= offset,
        offset + bytes.len() <= memory.len(),
    ensures
        stored(memory, offset, bytes).len() == memory.len(),
        stored(memory, offset, bytes).subrange(offset, offset + bytes.len()) == bytes,
        forall|i: int|
            0 <= i < memory.len() && !(offset <= i < offset + bytes.len()) ==> stored(
                memory,
                offset,
                bytes,
            )[i] == memory[i],
{
    assert(stored(memory, offset, bytes).subrange(offset, offset + bytes.len()) =~= bytes);
}

/// The round trip of a number through the region: after `value` is written
/// at `offset` in `width` bytes, these bytes are the bytes of `value` and read
/// back as `value`, and the region is as long as before.
pub proof fn lemma_write_read_round_trip(memory: Seq<u8>, offset: int, value: nat, width: nat)
    requires
        0 <= offset,
        offset + width <= memory.len(),
        fits(value, width),
    ensures
        stored(memory, offset, native_bytes(value, width)).len() == memory.len(),
        stored(memory, offset, native_bytes(value, width)).subrange(offset, offset + width)
            == native_bytes(value, width),
        native_value(
            stored(memory, offset, native_bytes(value, width)).subrange(offset, offset + width),
        ) == value,
{
    lemma_native_round_trip(value, width);
    lemma_stored(memory, offset, native_bytes(value, width));
}

/// The round trip of a 32-bit number: what `write_u32` stores at an offset,
/// `read_u32` reads back from that offset.
pub proof fn lemma_round_trip_u32(memory: Seq<u8>, offset: int, value: u32)
    requires
        0 <= offset,
        offset + 4 <= memory.len(),
    ensures
        stored(memory, offset, native_bytes(value as nat, 4)).len() == memory.len(),
        stored(memory, offset, native_bytes(value as nat, 4)).subrange(offset, offset + 4)
            == native_bytes(value as nat, 4),
        native_value(
            stored(memory, offset, native_bytes(value as nat, 4)).subrange(offset, offset + 4),
        ) == value,
{
    lemma_u32_fits(value);
    lemma_write_read_round_trip(memory, offset, value as nat, 4);
}

/// The round trip of a 64-bit number: the eight bytes at an offset after
/// `write_u64` are the bytes of the number written, and hold that number.
pub proof fn lemma_round_trip_u64(memory: Seq<u8>, offset: int, value: u64)
    requires
        0 <= offset,
        offset + 8 <= memory.len(),
    ensures
        stored(memory, offset, native_bytes(value as nat, 8)).len() == memory.len(),
        stored(memory, offset, native_bytes(value as nat, 8)).subrange(offset, offset + 8)
            == native_bytes(value as nat, 8),
        native_value(
            stored(memory, offset, native_bytes(value as nat, 8)).subrange(offset, offset + 8),
        ) == value,
{
    lemma_u64_fits(value);
    lemma_write_read_round_trip(memory, offset, value as nat, 8);
}

/// The round trip of a 128-bit number: the sixteen bytes at an offset after
/// `write_u128` are the bytes of the number written, and hold that number.
pub proof fn lemma_round_trip_u128(memory: Seq<u8>, offset: int, value: u128)
    requires
        0 <= offset,
        offset + 16 <= memory.len(),
    ensures
        stored(memory, offset, native_bytes(value as nat, 16)).len() == memory.len(),
        stored(memory, offset, native_bytes(value as nat, 16)).subrange(offset, offset + 16)
            == native_bytes(value as nat, 16),
        native_value(
            stored(memory, offset, native_bytes(value as nat, 16)).subrange(offset, offset + 16),
        ) == value,
{
    lemma_u128_fits(value);
    lemma_write_read_round_trip(memory, offset, value as nat, 16);
}

/// A mapped region of device memory.
pub struct MemoryMap<'a> {
    uio_number: u16,
    map_number: u16,
    map_size: usize,
    mem_map: MmapMut,
    _device: &'a Device,
}

impl<'a> MemoryMap<'a> {
    #[verifier::type_invariant]
    spec fn well_formed(&self) -> bool {
        &&& self.map_size == mapped_bytes(self.mem_map).len()
        &&& self.uio_number == self._device.number()
    }


    /// The bytes of the region.
    pub closed spec fn bytes(&self) -> Seq<u8> {
        mapped_bytes(self.mem_map)
    }

    /// The device that the region belongs to.
    pub closed spec fn uio_number(&self) -> u16 {
        self.uio_number
    }

    /// The index of the region among the device's maps.
    pub closed spec fn map_number(&self) -> u16 {
        self.map_number
    }

    /// The region for the map that `description` describes, given the fresh
    /// mapping of it on `device` and how advising the platform of random
    /// access to it went. The description must be of `device`, and the region
    /// as long as the map.
    pub fn assemble(
        device: &'a Device,
        description: &MapDescription,
        region: MmapMut,
        advised: Result<(), std::io::ErrorKind>,
    ) -> (map: Result<MemoryMap<'a>, Error>)
        ensures
            region_assembled(device.number(), description@, region, advised, map),
    {
        if description.uio() != device.uio() {
            return Err(Error::Address);
        }
        if region_bytes(&region).len() != description.size() {
            return Err(Error::Address);
        }
        match advised {
            Ok(_) => Ok(
                MemoryMap {
                    uio_number: device.uio(),
                    map_number: description.map(),
                    map_size: description.size(),
                    mem_map: region,
                    _device: device,
                },
            ),
            Err(kind) => Err(Error::Io(kind)),
        }
    }

    /// The region for the map that `description` describes, given the fresh
    /// mapping of it on `device`. The region is marked for random access, so
    /// that the platform reads and writes the device's registers only as the
    /// caller does.
    pub fn from_region(device: &'a Device, description: &MapDescription, region: MmapMut) -> (map:
        Result<MemoryMap<'a>, Error>)
        ensures
            region_mapped(device.number(), description@, region, map),
    {
        let advised = advise_random(&region);
        MemoryMap::assemble(device, description, region, advised)
    }

    /// Maps the region of `device` that `description` describes. `map_region`
    /// maps the given number of bytes of the device file, from the given
    /// offset on, for reading and writing. It is asked for the whole region,
    /// at the offset of as many pages of `page_size` bytes as the map's index
    /// says; the map's `offset` attribute plays no part.
    pub fn from_description<F: FnOnce(u64, usize) -> Result<MmapMut, std::io::ErrorKind>>(
        device: &'a Device,
        description: &MapDescription,
        page_size: u64,
        map_region: F,
    ) -> (map: Result<MemoryMap<'a>, Error>)
        requires
            forall|offset: u64, len: usize|
                (description@.uio_number == device.number() && spec_mapping_offset(
                    description@.map_number,
                    page_size,
                ) == Ok::<u64, Error>(offset) && len == description@.size)
                    ==> map_region.requires((offset, len)),
        ensures
            region_requested(device.number(), description@, page_size, map_region, map),
    {
        if description.uio() != device.uio() {
            return Err(Error::Address);
        }
        let offset = match mapping_offset(description.map(), page_size) {
            Ok(offset) => offset,
            Err(e) => {
                return Err(e);
            },
        };
        match map_region(offset, description.size()) {
            Ok(region) => MemoryMap::from_region(device, description, region),
            Err(kind) => Err(Error::Io(kind)),
        }
    }

    /// Maps region `map_number` of `device`, which `fs` describes, through
    /// `map_region`: see [`MemoryMap::from_description`].
    pub fn new<F: FnOnce(u64, usize) -> Result<MmapMut, std::io::ErrorKind>>(
        device: &'a Device,
        fs: &Sysfs,
        map_number: u16,
        page_size: u64,
        map_region: F,
    ) -> (map: Result<MemoryMap<'a>, Error>)
        requires
            forall|offset: u64, len: usize|
                (resolve_map(fs@, device.number(), map_number) matches Ok(description)
                    && spec_mapping_offset(map_number, page_size) == Ok::<u64, Error>(offset)
                    && len == description.size) ==> map_region.requires((offset, len)),
        ensures
            match resolve_map(fs@, device.number(), map_number) {
                Err(e) => map matches Err(err) && err == e,
                Ok(description) => region_requested(
                    device.number(),
                    description,
                    page_size,
                    map_region,
                    map,
                ),
            },
    {
        match MapDescription::from_numbers(fs, device.uio(), map_number) {
            Ok(description) => MemoryMap::from_description(
                device,
                &description,
                page_size,
                map_region,
            ),
            Err(e) => Err(e),
        }
    }

    /// The number of the device that the region belongs to.
    pub fn uio(&self) -> (number: u16)
        ensures
            number == self.uio_number(),
    {
        self.uio_number
    }

    /// The index of the region among the device's maps.
    pub fn map(&self) -> (index: u16)
        ensures
            index == self.map_number(),
    {
        self.map_number
    }

    /// The length of the region in bytes.
    pub fn size(&self) -> (size: usize)
        ensures
            size == self.bytes().len(),
    {
        proof {
            use_type_invariant(self);
        }
        self.map_size
    }

    /// Reads the 32-bit number at `byte_offset`, in the byte order of the
    /// host.
    pub fn read_u32(&self, byte_offset: usize) -> (value: Result<u32, Error>)
        ensures
            byte_offset + 4 <= self.bytes().len() ==> value == Ok::<u32, Error>(
                native_value(self.bytes().subrange(byte_offset as int, byte_offset + 4)) as u32,
            ),
            byte_offset + 4 > self.bytes().len() ==> value == Err::<u32, Error>(
                Error::OutOfBound,
            ),
    {
        match self.read_exact(byte_offset, 4) {
            Ok(chunk) => {
                assert(chunk@.subrange(0, 4) =~= chunk@);
                Ok(native_read_u32(chunk))
            },
            Err(e) => Err(e),
        }
    }

    /// The `bytes` bytes of the region from `byte_offset` on, for writing.
    fn map_slice_mut(&mut self, byte_offset: usize, bytes: usize) -> (chunk: Result<
        &mut [u8],
        Error,
    >)
        ensures
            byte_offset + bytes <= old(self).bytes().len() ==> chunk is Ok,
            byte_offset + bytes > old(self).bytes().len() ==> (chunk matches Err(e) && e
                == Error::OutOfBound) && final(self).bytes() == old(self).bytes(),
            match chunk {
                Ok(c) => c@ == old(self).bytes().subrange(
                    byte_offset as int,
                    byte_offset + bytes,
                ) && final(c)@.len() == bytes && final(self).bytes() == stored(
                    old(self).bytes(),
                    byte_offset as int,
                    final(c)@,
                ),
                Err(_) => true,
            },
            final(self).uio_number() == old(self).uio_number(),
            final(self).map_number() == old(self).map_number(),
    {
        proof {
            use_type_invariant(&*self);
        }
        if byte_offset > self.map_size || bytes > self.map_size - byte_offset {
            return Err(Error::OutOfBound);
        }
        let all = region_bytes_mut(&mut self.mem_map);
        let (_, rest) = all.split_at_mut(byte_offset);
        let (chunk, _) = rest.split_at_mut(bytes);
        Ok(chunk)
    }

    /// Writes `value` at `byte_offset`, in the byte order of the host.
    pub fn write_u32(&mut self, byte_offset: usize, value: u32) -> (result: Result<(), Error>)
        ensures
            byte_offset + 4 <= old(self).bytes().len() ==> result is Ok && final(self).bytes()
                == stored(old(self).bytes(), byte_offset as int, native_bytes(value as nat, 4)),
            byte_offset + 4 > old(self).bytes().len() ==> result == Err::<(), Error>(
                Error::OutOfBound,
            ) && final(self).bytes() == old(self).bytes(),
            final(self).uio_number() == old(self).uio_number(),
            final(self).map_number() == old(self).map_number(),
    {
        match self.map_slice_mut(byte_offset, 4) {
            Ok(destination) => {
                native_write_u32(destination, value);
                proof {
                    lemma_native_bytes_len(value as nat, 4);
                }
                Ok(())
            },
            Err(e) => Err(e),
        }
    }

    /// Writes `value` at `byte_offset`, in the byte order of the host.
    pub fn write_u64(&mut self, byte_offset: usize, value: u64) -> (result: Result<(), Error>)
        ensures
            byte_offset + 8 <= old(self).bytes().len() ==> result is Ok && final(self).bytes()
                == stored(old(self).bytes(), byte_offset as int, native_bytes(value as nat, 8)),
            byte_offset + 8 > old(self).bytes().len() ==> result == Err::<(), Error>(
                Error::OutOfBound,
            ) && final(self).bytes() == old(self).bytes(),
            final(self).uio_number() == old(self).uio_number(),
            final(self).map_number() == old(self).map_number(),
    {
        match self.map_slice_mut(byte_offset, 8) {
            Ok(destination) => {
                native_write_u64(destination, value);
                proof {
                    lemma_native_bytes_len(value as nat, 8);
                }
                Ok(())
            },
            Err(e) => Err(e),
        }
    }

    /// Writes `value` at `byte_offset`, in the byte order of the host.
    pub fn write_u128(&mut self, byte_offset: usize, value: u128) -> (result: Result<(), Error>)
        ensures
            byte_offset + 16 <= old(self).bytes().len() ==> result is Ok && final(self).bytes()
                == stored(old(self).bytes(), byte_offset as int, native_bytes(value as nat, 16)),
            byte_offset + 16 > old(self).bytes().len() ==> result == Err::<(), Error>(
                Error::OutOfBound,
            ) && final(self).bytes() == old(self).bytes(),
            final(self).uio_number() == old(self).uio_number(),
            final(self).map_number() == old(self).map_number(),
    {
        match self.map_slice_mut(byte_offset, 16) {
            Ok(destination) => {
                native_write_u128(destination, value);
                proof {
                    lemma_native_bytes_len(value as nat, 16);
                }
                Ok(())
            },
            Err(e) => Err(e),
        }
    }

    /// The `bytes` bytes of the region from `byte_offset` on.
    pub fn read_exact(&self, byte_offset: usize, bytes: usize) -> (chunk: Result<&[u8], Error>)
        ensures
            byte_offset + bytes <= self.bytes().len() ==> (chunk matches Ok(c) && c@
                == self.bytes().subrange(byte_offset as int, byte_offset + bytes)),
            byte_offset + bytes > self.bytes().len() ==> (chunk matches Err(e) && e
                == Error::OutOfBound),
    {
        proof {
            use_type_invariant(self);
        }
        if byte_offset > self.map_size || bytes > self.map_size - byte_offset {
            return Err(Error::OutOfBound);
        }
        Ok(slice_subrange(region_bytes(&self.mem_map), byte_offset, byte_offset + bytes))
    }

    /// All bytes of the region.
    pub fn read_all(&self) -> (chunk: &[u8])
        ensures
            chunk@ == self.bytes(),
    {
        region_bytes(&self.mem_map)
    }
}

} // verus!
