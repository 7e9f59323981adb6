use vstd::prelude::*;
use crate::error::EngineError;
use crate::region::{MemoryRegion, spec_u64_at, spec_i64_at, spec_i32_at, spec_u32_at};

verus! {

// Byte layouts of the target runtime's object headers, as laid out by its
// 64-bit LLP64 build: pointers and `ssize_t` are 8 bytes little-endian,
// `long` and `int` are 4 bytes, `wchar_t` is 2 bytes. Every struct below
// mirrors one fixed-size header; variable tails (string bytes, item-pointer
// arrays, digit arrays) are read separately by the decoders.

/// Size in bytes of the base object header (`ob_refcnt`, `ob_type`).
pub const CPY_OBJECT_SIZE: usize = 16;

/// Size in bytes of the variable-object header (base + `ob_size`).
pub const CPY_VAR_OBJECT_SIZE: usize = 24;

/// Size in bytes of a type-descriptor header (var header + `tp_name`).
pub const CPY_TYPE_OBJECT_SIZE: usize = 32;

/// Size in bytes of a string header; the inline byte payload starts at
/// [`CPY_STRING_SVAL_OFFSET`].
pub const CPY_STRING_OBJECT_SIZE: usize = 40;

/// Offset of the inline string payload `ob_sval`.
pub const CPY_STRING_SVAL_OFFSET: usize = 32;

/// Size in bytes of a byte-array header.
pub const CPY_BYTEARRAY_OBJECT_SIZE: usize = 48;

/// Size in bytes of one open-addressed dictionary entry.
pub const CPY_DICT_ENTRY_SIZE: usize = 24;

/// Size in bytes of a dictionary header, the inline small table included.
pub const CPY_DICT_OBJECT_SIZE: usize = 248;

/// Size in bytes of a float header.
pub const CPY_FLOAT_OBJECT_SIZE: usize = 24;

/// Size in bytes of an int (and bool) header.
pub const CPY_INT_OBJECT_SIZE: usize = 24;

/// Size in bytes of a list header; inline item pointers start at
/// [`CPY_LIST_ITEM_OFFSET`].
pub const CPY_LIST_OBJECT_SIZE: usize = 40;

/// Offset of the first inline item pointer of a list or tuple.
pub const CPY_LIST_ITEM_OFFSET: usize = 24;

/// Size in bytes of a long header; 30-bit digits in `u32` lanes start at
/// [`CPY_LONG_DIGIT_OFFSET`].
pub const CPY_LONG_OBJECT_SIZE: usize = 32;

/// Offset of the first digit of a long.
pub const CPY_LONG_DIGIT_OFFSET: usize = 24;

/// Size in bytes of one set entry.
pub const CPY_SET_ENTRY_SIZE: usize = 16;

/// Size in bytes of a set header.
pub const CPY_SET_OBJECT_SIZE: usize = 48;

/// Size in bytes of a tuple header.
pub const CPY_TUPLE_OBJECT_SIZE: usize = 32;

/// Size in bytes of a unicode header.
pub const CPY_UNICODE_OBJECT_SIZE: usize = 48;

/// Size in bytes of a custom-object header (base + `attributes`).
pub const CPY_CUSTOM_OBJECT_SIZE: usize = 24;

/// The base object header: reference count and type-descriptor address.
#[derive(Clone, Copy, Debug, PartialEq, Eq, Structural)]
pub struct CPyObject {
    pub ob_refcnt: i64,
    pub ob_type: u64,
}

/// The variable-object header: base header plus a signed item count.
#[derive(Clone, Copy, Debug, PartialEq, Eq, Structural)]
pub struct CPyVarObject {
    pub ob_base: CPyObject,
    pub ob_size: i64,
}

/// A type-descriptor header: variable header plus the address of the
/// zero-terminated type name.
#[derive(Clone, Copy, Debug, PartialEq, Eq, Structural)]
pub struct CPyTypeObject {
    pub ob_base: CPyVarObject,
    pub tp_name: u64,
}

/// A narrow-string header; `ob_size` bytes of payload follow inline at
/// [`CPY_STRING_SVAL_OFFSET`].
#[derive(Clone, Copy, Debug, PartialEq, Eq, Structural)]
pub struct CPyStringObject {
    pub ob_base: CPyVarObject,
    pub ob_shash: i32,
    pub ob_sstate: i32,
}

/// A bytes object shares the narrow-string layout.
pub type CPyBytesObject = CPyStringObject;

/// A byte-array header; the payload lives behind the `ob_bytes` pointer.
#[derive(Clone, Copy, Debug, PartialEq, Eq, Structural)]
pub struct CPyByteArrayObject {
    pub ob_base: CPyVarObject,
    pub ob_exports: i32,
    pub ob_alloc: i64,
    pub ob_bytes: u64,
}

/// One slot of an open-addressed dictionary table.
#[derive(Clone, Copy, Debug, PartialEq, Eq, Structural)]
pub struct CPyDictEntry {
    pub me_hash: i64,
    pub me_key: u64,
    pub me_value: u64,
}

/// A dictionary header. The entry table of `ma_mask + 1` slots lives behind
/// `ma_table`; the inline small table at the header's tail is not modeled.
#[derive(Clone, Copy, Debug, PartialEq, Eq, Structural)]
pub struct CPyDictObject {
    pub ob_base: CPyObject,
    pub ma_fill: i64,
    pub ma_used: i64,
    pub ma_mask: i64,
    pub ma_table: u64,
    pub ma_lookup: u64,
}

/// A float header; the payload is kept as raw IEEE-754 bits, since the
/// engine never does float arithmetic.
#[derive(Clone, Copy, Debug, PartialEq, Eq, Structural)]
pub struct CPyFloatObject {
    pub ob_base: CPyObject,
    pub ob_fval_bits: u64,
}

/// An int header; the value is the target's 4-byte `long`.
#[derive(Clone, Copy, Debug, PartialEq, Eq, Structural)]
pub struct CPyIntObject {
    pub ob_base: CPyObject,
    pub ob_ival: i32,
}

/// A bool shares the int layout; non-zero means true.
pub type CPyBoolObject = CPyIntObject;

/// A list header; `ob_size` inline item pointers follow at
/// [`CPY_LIST_ITEM_OFFSET`].
#[derive(Clone, Copy, Debug, PartialEq, Eq, Structural)]
pub struct CPyListObject {
    pub ob_base: CPyVarObject,
    pub allocated: i64,
}

/// A long header; `|ob_size|` 30-bit digits follow at
/// [`CPY_LONG_DIGIT_OFFSET`], and the sign of `ob_size` is the sign of the
/// value.
#[derive(Clone, Copy, Debug, PartialEq, Eq, Structural)]
pub struct CPyLongObject {
    pub ob_base: CPyVarObject,
}

/// One slot of a set table.
#[derive(Clone, Copy, Debug, PartialEq, Eq, Structural)]
pub struct CPySetEntry {
    pub hash: i64,
    pub key: u64,
}

/// A set header; the entry table lives behind `table`.
#[derive(Clone, Copy, Debug, PartialEq, Eq, Structural)]
pub struct CPySetObject {
    pub ob_base: CPyObject,
    pub fill: i64,
    pub used: i64,
    pub mask: i64,
    pub table: u64,
}

/// A tuple header; `ob_size` inline item pointers follow at
/// [`CPY_LIST_ITEM_OFFSET`].
#[derive(Clone, Copy, Debug, PartialEq, Eq, Structural)]
pub struct CPyTupleObject {
    pub ob_base: CPyVarObject,
}

/// A wide-string header; `length` 2-byte units live behind the `wstr`
/// pointer.
#[derive(Clone, Copy, Debug, PartialEq, Eq, Structural)]
pub struct CPyUnicodeObject {
    pub ob_base: CPyObject,
    pub length: i64,
    pub wstr: u64,
    pub hash: i32,
    pub defenc: u64,
}

/// A custom-object header: base header plus the address of the attribute
/// dictionary.
#[derive(Clone, Copy, Debug, PartialEq, Eq, Structural)]
pub struct CPyCustomObject {
    pub ob_base: CPyObject,
    pub attributes: u64,
}

/// The base header encoded at `data[off ..]`.
pub open spec fn spec_cpy_object_at(data: Seq<u8>, off: int) -> CPyObject {
    CPyObject {
        ob_refcnt: spec_i64_at(data, off) as i64,
        ob_type: spec_u64_at(data, off + 8),
    }
}

/// The variable-object header encoded at `data[off ..]`.
pub open spec fn spec_cpy_var_object_at(data: Seq<u8>, off: int) -> CPyVarObject {
    CPyVarObject {
        ob_base: spec_cpy_object_at(data, off),
        ob_size: spec_i64_at(data, off + 16) as i64,
    }
}

/// The type-descriptor header encoded at `data[off ..]`.
pub open spec fn spec_cpy_type_object_at(data: Seq<u8>, off: int) -> CPyTypeObject {
    CPyTypeObject {
        ob_base: spec_cpy_var_object_at(data, off),
        tp_name: spec_u64_at(data, off + 24),
    }
}

/// The narrow-string header encoded at `data[off ..]`.
pub open spec fn spec_cpy_string_object_at(data: Seq<u8>, off: int) -> CPyStringObject {
    CPyStringObject {
        ob_base: spec_cpy_var_object_at(data, off),
        ob_shash: spec_i32_at(data, off + 24) as i32,
        ob_sstate: spec_i32_at(data, off + 28) as i32,
    }
}

/// The byte-array header encoded at `data[off ..]`.
pub open spec fn spec_cpy_bytearray_object_at(data: Seq<u8>, off: int) -> CPyByteArrayObject {
    CPyByteArrayObject {
        ob_base: spec_cpy_var_object_at(data, off),
        ob_exports: spec_i32_at(data, off + 24) as i32,
        ob_alloc: spec_i64_at(data, off + 32) as i64,
        ob_bytes: spec_u64_at(data, off + 40),
    }
}

/// The dictionary entry encoded at `data[off ..]`.
pub open spec fn spec_cpy_dict_entry_at(data: Seq<u8>, off: int) -> CPyDictEntry {
    CPyDictEntry {
        me_hash: spec_i64_at(data, off) as i64,
        me_key: spec_u64_at(data, off + 8),
        me_value: spec_u64_at(data, off + 16),
    }
}

/// The dictionary header encoded at `data[off ..]`.
pub open spec fn spec_cpy_dict_object_at(data: Seq<u8>, off: int) -> CPyDictObject {
    CPyDictObject {
        ob_base: spec_cpy_object_at(data, off),
        ma_fill: spec_i64_at(data, off + 16) as i64,
        ma_used: spec_i64_at(data, off + 24) as i64,
        ma_mask: spec_i64_at(data, off + 32) as i64,
        ma_table: spec_u64_at(data, off + 40),
        ma_lookup: spec_u64_at(data, off + 48),
    }
}

/// The float header encoded at `data[off ..]`.
pub open spec fn spec_cpy_float_object_at(data: Seq<u8>, off: int) -> CPyFloatObject {
    CPyFloatObject {
        ob_base: spec_cpy_object_at(data, off),
        ob_fval_bits: spec_u64_at(data, off + 16),
    }
}

/// The int header encoded at `data[off ..]`.
pub open spec fn spec_cpy_int_object_at(data: Seq<u8>, off: int) -> CPyIntObject {
    CPyIntObject {
        ob_base: spec_cpy_object_at(data, off),
        ob_ival: spec_i32_at(data, off + 16) as i32,
    }
}

/// The list header encoded at `data[off ..]`.
pub open spec fn spec_cpy_list_object_at(data: Seq<u8>, off: int) -> CPyListObject {
    CPyListObject {
        ob_base: spec_cpy_var_object_at(data, off),
        allocated: spec_i64_at(data, off + 32) as i64,
    }
}

/// The unicode header encoded at `data[off ..]`.
pub open spec fn spec_cpy_unicode_object_at(data: Seq<u8>, off: int) -> CPyUnicodeObject {
    CPyUnicodeObject {
        ob_base: spec_cpy_object_at(data, off),
        length: spec_i64_at(data, off + 16) as i64,
        wstr: spec_u64_at(data, off + 24),
        hash: spec_i32_at(data, off + 32) as i32,
        defenc: spec_u64_at(data, off + 40),
    }
}

/// The custom-object header encoded at `data[off ..]`.
pub open spec fn spec_cpy_custom_object_at(data: Seq<u8>, off: int) -> CPyCustomObject {
    CPyCustomObject {
        ob_base: spec_cpy_object_at(data, off),
        attributes: spec_u64_at(data, off + 16),
    }
}

impl CPyObject {
    /// Reads the base header at `offset` of `region`.
    pub fn read(region: &MemoryRegion, offset: usize) -> (r: Result<Self, EngineError>)
        requires
            region.wf(),
        ensures
            match r {
                Ok(v) => offset + CPY_OBJECT_SIZE <= region.size && v == spec_cpy_object_at(
                    region.data@,
                    offset as int,
                ),
                Err(e) => e == EngineError::OutOfBounds && offset + CPY_OBJECT_SIZE > region.size,
            },
    {
        let ob_refcnt = region.i64_at(offset)?;
        let ob_type = region.u64_at(offset + 8)?;
        Ok(CPyObject { ob_refcnt, ob_type })
    }
}

impl CPyVarObject {
    /// Reads the variable-object header at `offset` of `region`.
    pub fn read(region: &MemoryRegion, offset: usize) -> (r: Result<Self, EngineError>)
        requires
            region.wf(),
        ensures
            match r {
                Ok(v) => offset + CPY_VAR_OBJECT_SIZE <= region.size && v
                    == spec_cpy_var_object_at(region.data@, offset as int),
                Err(e) => e == EngineError::OutOfBounds && offset + CPY_VAR_OBJECT_SIZE
                    > region.size,
            },
    {
        if offset > region.size || region.size - offset < CPY_VAR_OBJECT_SIZE {
            return Err(EngineError::OutOfBounds);
        }
        let ob_base = CPyObject::read(region, offset)?;
        let ob_size = region.i64_at(offset + 16)?;
        Ok(CPyVarObject { ob_base, ob_size })
    }
}

impl CPyTypeObject {
    /// Reads the type-descriptor header at `offset` of `region`.
    pub fn read(region: &MemoryRegion, offset: usize) -> (r: Result<Self, EngineError>)
        requires
            region.wf(),
        ensures
            match r {
                Ok(v) => offset + CPY_TYPE_OBJECT_SIZE <= region.size && v
                    == spec_cpy_type_object_at(region.data@, offset as int),
                Err(e) => e == EngineError::OutOfBounds && offset + CPY_TYPE_OBJECT_SIZE
                    > region.size,
            },
    {
        if offset > region.size || region.size - offset < CPY_TYPE_OBJECT_SIZE {
            return Err(EngineError::OutOfBounds);
        }
        let ob_base = CPyVarObject::read(region, offset)?;
        let tp_name = region.u64_at(offset + 24)?;
        Ok(CPyTypeObject { ob_base, tp_name })
    }
}

impl CPyStringObject {
    /// Reads the narrow-string header at `offset` of `region`.
    pub fn read(region: &MemoryRegion, offset: usize) -> (r: Result<Self, EngineError>)
        requires
            region.wf(),
        ensures
            match r {
                Ok(v) => offset + CPY_STRING_OBJECT_SIZE <= region.size && v
                    == spec_cpy_string_object_at(region.data@, offset as int),
                Err(e) => e == EngineError::OutOfBounds && offset + CPY_STRING_OBJECT_SIZE
                    > region.size,
            },
    {
        if offset > region.size || region.size - offset < CPY_STRING_OBJECT_SIZE {
            return Err(EngineError::OutOfBounds);
        }
        let ob_base = CPyVarObject::read(region, offset)?;
        let ob_shash = region.i32_at(offset + 24)?;
        let ob_sstate = region.i32_at(offset + 28)?;
        Ok(CPyStringObject { ob_base, ob_shash, ob_sstate })
    }
}

impl CPyByteArrayObject {
    /// Reads the byte-array header at `offset` of `region`.
    pub fn read(region: &MemoryRegion, offset: usize) -> (r: Result<Self, EngineError>)
        requires
            region.wf(),
        ensures
            match r {
                Ok(v) => offset + CPY_BYTEARRAY_OBJECT_SIZE <= region.size && v
                    == spec_cpy_bytearray_object_at(region.data@, offset as int),
                Err(e) => e == EngineError::OutOfBounds && offset + CPY_BYTEARRAY_OBJECT_SIZE
                    > region.size,
            },
    {
        if offset > region.size || region.size - offset < CPY_BYTEARRAY_OBJECT_SIZE {
            return Err(EngineError::OutOfBounds);
        }
        let ob_base = CPyVarObject::read(region, offset)?;
        let ob_exports = region.i32_at(offset + 24)?;
        let ob_alloc = region.i64_at(offset + 32)?;
        let ob_bytes = region.u64_at(offset + 40)?;
        Ok(CPyByteArrayObject { ob_base, ob_exports, ob_alloc, ob_bytes })
    }
}

impl CPyDictEntry {
    /// Reads one dictionary entry at `offset` of `region`.
    pub fn read(region: &MemoryRegion, offset: usize) -> (r: Result<Self, EngineError>)
        requires
            region.wf(),
        ensures
            match r {
                Ok(v) => offset + CPY_DICT_ENTRY_SIZE <= region.size && v
                    == spec_cpy_dict_entry_at(region.data@, offset as int),
                Err(e) => e == EngineError::OutOfBounds && offset + CPY_DICT_ENTRY_SIZE
                    > region.size,
            },
    {
        if offset > region.size || region.size - offset < CPY_DICT_ENTRY_SIZE {
            return Err(EngineError::OutOfBounds);
        }
        let me_hash = region.i64_at(offset)?;
        let me_key = region.u64_at(offset + 8)?;
        let me_value = region.u64_at(offset + 16)?;
        Ok(CPyDictEntry { me_hash, me_key, me_value })
    }
}

impl CPyDictObject {
    /// Reads the dictionary header at `offset` of `region`.
    pub fn read(region: &MemoryRegion, offset: usize) -> (r: Result<Self, EngineError>)
        requires
            region.wf(),
        ensures
            match r {
                Ok(v) => offset + CPY_DICT_OBJECT_SIZE <= region.size && v
                    == spec_cpy_dict_object_at(region.data@, offset as int),
                Err(e) => e == EngineError::OutOfBounds && offset + CPY_DICT_OBJECT_SIZE
                    > region.size,
            },
    {
        if offset > region.size || region.size - offset < CPY_DICT_OBJECT_SIZE {
            return Err(EngineError::OutOfBounds);
        }
        let ob_base = CPyObject::read(region, offset)?;
        let ma_fill = region.i64_at(offset + 16)?;
        let ma_used = region.i64_at(offset + 24)?;
        let ma_mask = region.i64_at(offset + 32)?;
        let ma_table = region.u64_at(offset + 40)?;
        let ma_lookup = region.u64_at(offset + 48)?;
        Ok(CPyDictObject { ob_base, ma_fill, ma_used, ma_mask, ma_table, ma_lookup })
    }
}

impl CPyFloatObject {
    /// Reads the float header at `offset` of `region`.
    pub fn read(region: &MemoryRegion, offset: usize) -> (r: Result<Self, EngineError>)
        requires
            region.wf(),
        ensures
            match r {
                Ok(v) => offset + CPY_FLOAT_OBJECT_SIZE <= region.size && v
                    == spec_cpy_float_object_at(region.data@, offset as int),
                Err(e) => e == EngineError::OutOfBounds && offset + CPY_FLOAT_OBJECT_SIZE
                    > region.size,
            },
    {
        if offset > region.size || region.size - offset < CPY_FLOAT_OBJECT_SIZE {
            return Err(EngineError::OutOfBounds);
        }
        let ob_base = CPyObject::read(region, offset)?;
        let ob_fval_bits = region.u64_at(offset + 16)?;
        Ok(CPyFloatObject { ob_base, ob_fval_bits })
    }
}

impl CPyIntObject {
    /// Reads the int header at `offset` of `region`.
    pub fn read(region: &MemoryRegion, offset: usize) -> (r: Result<Self, EngineError>)
        requires
            region.wf(),
        ensures
            match r {
                Ok(v) => offset + CPY_INT_OBJECT_SIZE <= region.size && v
                    == spec_cpy_int_object_at(region.data@, offset as int),
                Err(e) => e == EngineError::OutOfBounds && offset + CPY_INT_OBJECT_SIZE
                    > region.size,
            },
    {
        if offset > region.size || region.size - offset < CPY_INT_OBJECT_SIZE {
            return Err(EngineError::OutOfBounds);
        }
        let ob_base = CPyObject::read(region, offset)?;
        let ob_ival = region.i32_at(offset + 16)?;
        Ok(CPyIntObject { ob_base, ob_ival })
    }
}

impl CPyListObject {
    /// Reads the list header at `offset` of `region`.
    pub fn read(region: &MemoryRegion, offset: usize) -> (r: Result<Self, EngineError>)
        requires
            region.wf(),
        ensures
            match r {
                Ok(v) => offset + CPY_LIST_OBJECT_SIZE <= region.size && v
                    == spec_cpy_list_object_at(region.data@, offset as int),
                Err(e) => e == EngineError::OutOfBounds && offset + CPY_LIST_OBJECT_SIZE
                    > region.size,
            },
    {
        if offset > region.size || region.size - offset < CPY_LIST_OBJECT_SIZE {
            return Err(EngineError::OutOfBounds);
        }
        let ob_base = CPyVarObject::read(region, offset)?;
        let allocated = region.i64_at(offset + 32)?;
        Ok(CPyListObject { ob_base, allocated })
    }
}

impl CPyUnicodeObject {
    /// Reads the unicode header at `offset` of `region`.
    pub fn read(region: &MemoryRegion, offset: usize) -> (r: Result<Self, EngineError>)
        requires
            region.wf(),
        ensures
            match r {
                Ok(v) => offset + CPY_UNICODE_OBJECT_SIZE <= region.size && v
                    == spec_cpy_unicode_object_at(region.data@, offset as int),
                Err(e) => e == EngineError::OutOfBounds && offset + CPY_UNICODE_OBJECT_SIZE
                    > region.size,
            },
    {
        if offset > region.size || region.size - offset < CPY_UNICODE_OBJECT_SIZE {
            return Err(EngineError::OutOfBounds);
        }
        let ob_base = CPyObject::read(region, offset)?;
        let length = region.i64_at(offset + 16)?;
        let wstr = region.u64_at(offset + 24)?;
        let hash = region.i32_at(offset + 32)?;
        let defenc = region.u64_at(offset + 40)?;
        Ok(CPyUnicodeObject { ob_base, length, wstr, hash, defenc })
    }
}

impl CPyCustomObject {
    /// Reads the custom-object header at `offset` of `region`.
    pub fn read(region: &MemoryRegion, offset: usize) -> (r: Result<Self, EngineError>)
        requires
            region.wf(),
        ensures
            match r {
                Ok(v) => offset + CPY_CUSTOM_OBJECT_SIZE <= region.size && v
                    == spec_cpy_custom_object_at(region.data@, offset as int),
                Err(e) => e == EngineError::OutOfBounds && offset + CPY_CUSTOM_OBJECT_SIZE
                    > region.size,
            },
    {
        if offset > region.size || region.size - offset < CPY_CUSTOM_OBJECT_SIZE {
            return Err(EngineError::OutOfBounds);
        }
        let ob_base = CPyObject::read(region, offset)?;
        let attributes = region.u64_at(offset + 16)?;
        Ok(CPyCustomObject { ob_base, attributes })
    }
}

} // verus!
