use vstd::prelude::*;
use vstd::bytes::{spec_u64_from_le_bytes, spec_u32_from_le_bytes, spec_u16_from_le_bytes,
    u64_from_le_bytes, u32_from_le_bytes, u16_from_le_bytes};
use vstd::slice::{slice_subrange, slice_to_vec};
use crate::error::EngineError;

verus! {

/// A handle to an opened target process. `Live` carries the OS handle value;
/// `File` marks a snapshot loaded from disk; `Unbound` marks a region not yet
/// attached to any source.
#[derive(Clone, Copy, Debug, PartialEq, Eq, Structural)]
pub enum ProcessHandle {
    Live(u32),
    File,
    Unbound,
}

impl Default for ProcessHandle {
    fn default() -> (r: Self)
        ensures
            r == ProcessHandle::Unbound,
    {
        ProcessHandle::Unbound
    }
}

/// The mathematical model of a memory region: its base address, its bytes,
/// and the handle it was read through.
pub struct RegionModel {
    pub start: u64,
    pub data: Seq<u8>,
    pub handle: ProcessHandle,
}

/// An immutable snapshot of one contiguous readable range of the target.
/// Invariant ([`MemoryRegion::wf`]): `data.len() == size`, and the range
/// `[start, start + size)` does not wrap around the address space.
#[derive(Debug, Clone)]
pub struct MemoryRegion {
    pub start: u64,
    pub size: usize,
    pub data: Vec<u8>,
    pub handle: ProcessHandle,
}

impl View for MemoryRegion {
    type V = RegionModel;

    open spec fn view(&self) -> RegionModel {
        RegionModel { start: self.start, data: self.data@, handle: self.handle }
    }
}

impl MemoryRegion {
    /// Well-formedness: the byte buffer matches the declared size and the
    /// address range fits in the 64-bit address space.
    pub open spec fn wf(self) -> bool {
        &&& self.data@.len() == self.size
        &&& self.start + self.size <= u64::MAX
    }

    /// True when `addr` lies inside this region.
    pub open spec fn contains_addr(self, addr: u64) -> bool {
        self.start <= addr < self.start + self.size
    }

    /// Creates a region; when no bytes are supplied the buffer is zeroed.
    pub fn new(start: u64, size: usize, handle: ProcessHandle, data: Option<Vec<u8>>) -> (r:
        Result<Self, EngineError>)
        ensures
            match r {
                Ok(reg) => {
                    &&& reg.wf()
                    &&& reg.start == start
                    &&& reg.size == size
                    &&& reg.handle == handle
                    &&& match data {
                        Some(d) => d.len() == size && reg.data@ == d@,
                        None => reg.data@ == Seq::new(size as nat, |i: int| 0u8),
                    }
                },
                Err(e) => {
                    &&& e == EngineError::InvalidAddr ==> start + size > u64::MAX
                    &&& e == EngineError::OutOfBounds ==> (data is Some
                        && data.unwrap().len() != size)
                    &&& (e == EngineError::InvalidAddr || e == EngineError::OutOfBounds)
                },
            },
    {
        if size as u64 > u64::MAX - start {
            return Err(EngineError::InvalidAddr);
        }
        match data {
            Some(d) => {
                if d.len() != size {
                    Err(EngineError::OutOfBounds)
                } else {
                    Ok(MemoryRegion { start, size, data: d, handle })
                }
            },
            None => {
                let buf: Vec<u8> = vec![0u8; size];
                assert(buf@ =~= Seq::new(size as nat, |i: int| 0u8));
                Ok(MemoryRegion { start, size, data: buf, handle })
            },
        }
    }

    /// Rebinds the region to another handle.
    pub fn bound(self, handle: ProcessHandle) -> (r: Self)
        ensures
            r.start == self.start,
            r.size == self.size,
            r.data@ == self.data@,
            r.handle == handle,
    {
        MemoryRegion { handle, ..self }
    }

    /// An owned copy of `size` bytes at `offset`, as a region of its own
    /// based at `start + offset`.
    pub fn read_bytes(&self, offset: usize, size: usize) -> (r: Result<Self, EngineError>)
        requires
            self.wf(),
        ensures
            match r {
                Ok(reg) => {
                    &&& offset + size <= self.size
                    &&& reg.wf()
                    &&& reg.start == self.start + offset
                    &&& reg.size == size
                    &&& reg.data@ == self.data@.subrange(offset as int, offset + size)
                    &&& reg.handle == self.handle
                },
                Err(e) => e == EngineError::OutOfBounds && offset + size > self.size,
            },
    {
        if offset > self.size || size > self.size - offset {
            Err(EngineError::OutOfBounds)
        } else {
            let slice = slice_subrange(self.data.as_slice(), offset, offset + size);
            let buf = slice_to_vec(slice);
            Ok(MemoryRegion {
                start: self.start + offset as u64,
                size,
                data: buf,
                handle: self.handle,
            })
        }
    }

    /// A borrowed view of `size` bytes at `offset`.
    pub fn view_bytes(&self, offset: usize, size: usize) -> (r: Result<&[u8], EngineError>)
        requires
            self.wf(),
        ensures
            match r {
                Ok(s) => offset + size <= self.size && s@ == self.data@.subrange(
                    offset as int,
                    offset + size,
                ),
                Err(e) => e == EngineError::OutOfBounds && offset + size > self.size,
            },
    {
        if offset > self.size || size > self.size - offset {
            Err(EngineError::OutOfBounds)
        } else {
            Ok(slice_subrange(self.data.as_slice(), offset, offset + size))
        }
    }

    /// The little-endian `u64` stored at `offset`.
    pub fn u64_at(&self, offset: usize) -> (r: Result<u64, EngineError>)
        requires
            self.wf(),
        ensures
            match r {
                Ok(v) => offset + 8 <= self.size && v == spec_u64_at(self.data@, offset as int),
                Err(e) => e == EngineError::OutOfBounds && offset + 8 > self.size,
            },
    {
        match self.view_bytes(offset, 8) {
            Ok(s) => Ok(u64_from_le_bytes(s)),
            Err(e) => Err(e),
        }
    }

    /// The little-endian `u32` stored at `offset`.
    pub fn u32_at(&self, offset: usize) -> (r: Result<u32, EngineError>)
        requires
            self.wf(),
        ensures
            match r {
                Ok(v) => offset + 4 <= self.size && v == spec_u32_at(self.data@, offset as int),
                Err(e) => e == EngineError::OutOfBounds && offset + 4 > self.size,
            },
    {
        match self.view_bytes(offset, 4) {
            Ok(s) => Ok(u32_from_le_bytes(s)),
            Err(e) => Err(e),
        }
    }

    /// The little-endian `u16` stored at `offset`.
    pub fn u16_at(&self, offset: usize) -> (r: Result<u16, EngineError>)
        requires
            self.wf(),
        ensures
            match r {
                Ok(v) => offset + 2 <= self.size && v == spec_u16_at(self.data@, offset as int),
                Err(e) => e == EngineError::OutOfBounds && offset + 2 > self.size,
            },
    {
        match self.view_bytes(offset, 2) {
            Ok(s) => Ok(u16_from_le_bytes(s)),
            Err(e) => Err(e),
        }
    }

    /// The little-endian two's-complement `i64` stored at `offset`.
    pub fn i64_at(&self, offset: usize) -> (r: Result<i64, EngineError>)
        requires
            self.wf(),
        ensures
            match r {
                Ok(v) => offset + 8 <= self.size && v as int == spec_i64_at(
                    self.data@,
                    offset as int,
                ),
                Err(e) => e == EngineError::OutOfBounds && offset + 8 > self.size,
            },
    {
        match self.u64_at(offset) {
            Ok(u) => Ok(i64_from_u64(u)),
            Err(e) => Err(e),
        }
    }

    /// The little-endian two's-complement `i32` stored at `offset`.
    pub fn i32_at(&self, offset: usize) -> (r: Result<i32, EngineError>)
        requires
            self.wf(),
        ensures
            match r {
                Ok(v) => offset + 4 <= self.size && v as int == spec_i32_at(
                    self.data@,
                    offset as int,
                ),
                Err(e) => e == EngineError::OutOfBounds && offset + 4 > self.size,
            },
    {
        match self.u32_at(offset) {
            Ok(u) => Ok(i32_from_u32(u)),
            Err(e) => Err(e),
        }
    }
}

/// The `u64` encoded little-endian by `data[off .. off + 8]`.
pub open spec fn spec_u64_at(data: Seq<u8>, off: int) -> u64 {
    spec_u64_from_le_bytes(data.subrange(off, off + 8))
}

/// The `u32` encoded little-endian by `data[off .. off + 4]`.
pub open spec fn spec_u32_at(data: Seq<u8>, off: int) -> u32 {
    spec_u32_from_le_bytes(data.subrange(off, off + 4))
}

/// The `u16` encoded little-endian by `data[off .. off + 2]`.
pub open spec fn spec_u16_at(data: Seq<u8>, off: int) -> u16 {
    spec_u16_from_le_bytes(data.subrange(off, off + 2))
}

/// The signed value of a `u64` bit pattern under two's complement.
pub open spec fn spec_i64_of(u: u64) -> int {
    if u < 0x8000_0000_0000_0000 {
        u as int
    } else {
        u - 0x1_0000_0000_0000_0000
    }
}

/// The signed value of a `u32` bit pattern under two's complement.
pub open spec fn spec_i32_of(u: u32) -> int {
    if u < 0x8000_0000 {
        u as int
    } else {
        u - 0x1_0000_0000
    }
}

/// The `i64` encoded little-endian by `data[off .. off + 8]`, as an integer.
pub open spec fn spec_i64_at(data: Seq<u8>, off: int) -> int {
    spec_i64_of(spec_u64_at(data, off))
}

/// The `i32` encoded little-endian by `data[off .. off + 4]`, as an integer.
pub open spec fn spec_i32_at(data: Seq<u8>, off: int) -> int {
    spec_i32_of(spec_u32_at(data, off))
}

/// Reinterprets a `u64` bit pattern as a two's-complement `i64`.
pub fn i64_from_u64(u: u64) -> (r: i64)
    ensures
        r as int == spec_i64_of(u),
{
    if u < 0x8000_0000_0000_0000 {
        u as i64
    } else {
        let mag: u64 = (u64::MAX - u) + 1;
        if mag == 0x8000_0000_0000_0000 {
            i64::MIN
        } else {
            -(mag as i64)
        }
    }
}

/// Reinterprets a `u32` bit pattern as a two's-complement `i32`.
pub fn i32_from_u32(u: u32) -> (r: i32)
    ensures
        r as int == spec_i32_of(u),
{
    if u < 0x8000_0000 {
        u as i32
    } else {
        let mag: u32 = (u32::MAX - u) + 1;
        if mag == 0x8000_0000 {
            i32::MIN
        } else {
            -(mag as i32)
        }
    }
}

} // verus!
