use vstd::prelude::*;
use std::collections::HashMap;
use crate::error::EngineError;
use crate::process::{Process, spec_read, spec_is_mapped, spec_region_at, spec_filter};
use crate::region::{MemoryRegion, RegionModel, spec_u64_at, spec_i64_at};
use crate::scan::{ScanKind, ScanQuery, scan_all, spec_scan_all};
use vstd::string::StringSliceAdditionalSpecFns;
use vstd::slice::slice_to_vec;
use crate::py_struct::{CPyObject, CPyTypeObject, CPyVarObject, CPY_OBJECT_SIZE,
    CPY_VAR_OBJECT_SIZE, CPY_TYPE_OBJECT_SIZE, CPY_STRING_OBJECT_SIZE, CPY_BYTEARRAY_OBJECT_SIZE,
    CPY_DICT_OBJECT_SIZE, CPY_FLOAT_OBJECT_SIZE, CPY_INT_OBJECT_SIZE, CPY_LIST_OBJECT_SIZE,
    CPY_LONG_OBJECT_SIZE, CPY_SET_OBJECT_SIZE, CPY_TUPLE_OBJECT_SIZE, CPY_UNICODE_OBJECT_SIZE,
    CPY_CUSTOM_OBJECT_SIZE};

verus! {

broadcast use vstd::std_specs::hash::group_hash_axioms;

/// How many bytes of a type name the factory reads at most.
pub const MAX_TYPE_NAME_LEN: usize = 255;

/// The payload shape a type name selects in the closed dispatch table.
#[derive(Clone, Copy, Debug, PartialEq, Eq, Structural)]
pub enum ObjKind {
    Type,
    Str,
    Bytes,
    ByteArray,
    List,
    Tuple,
    Long,
    Dict,
    SetObj,
    Int,
    Bool,
    Float,
    Unicode,
    NoneType,
    Custom,
}

/// The result of decoding bytes as UTF-8, replacing invalid sequences.
///
/// Relies on `String::from_utf8_lossy`: the result is a function of the
/// bytes alone.
pub uninterp spec fn utf8_lossy(bytes: Seq<u8>) -> Seq<char>;

/// Decodes bytes as UTF-8, replacing invalid sequences with the replacement
/// character.
///
/// Relies on `String::from_utf8_lossy`. Valid UTF-8 decodes unchanged; in
/// particular a pure-ASCII input decodes to the characters with the same
/// code points, and an empty input gives an empty string.
#[verifier::external_body]
pub(crate) fn lossy_string(bytes: &[u8]) -> (r: String)
    ensures
        r@ == utf8_lossy(bytes@),
        (forall|i: int| 0 <= i < bytes@.len() ==> bytes@[i] < 128) ==> r@ == Seq::new(
            bytes@.len(),
            |i: int| bytes@[i] as char,
        ),
{
    String::from_utf8_lossy(bytes).into_owned()
}

/// The model of an attribute list: decoded key and child address, in scan
/// order.
pub open spec fn attrs_model(s: Seq<(String, u64)>) -> Seq<(Seq<char>, u64)> {
    Seq::new(s.len(), |i: int| (s[i].0@, s[i].1))
}

/// The mathematical model of a [`PyObjectNode`].
#[verifier::ext_equal]
pub struct NodeModel {
    pub base_addr: u64,
    pub ob_type: u64,
    pub tp_name: Seq<char>,
    pub kind: ObjKind,
    pub attrs: Seq<(Seq<char>, u64)>,
    pub items: Seq<u64>,
    pub extras: Seq<u64>,
    pub is_parsed: bool,
}

/// The engine's handle to one runtime object at one point in time.
///
/// `base_addr` is the unique key; `ob_type` the address of the type
/// descriptor (equal to `base_addr` exactly for the meta-type); `tp_name`
/// the resolved type name; `kind` the payload shape the name selects;
/// `attrs` key-to-child-address pairs in scan order, filled by the dict
/// decoder; `items` positional child addresses, filled by the list decoder;
/// `extras` keys of auxiliary regions snapshotted for this node alone;
/// `is_parsed` whether a decoder has populated the node.
#[derive(Debug)]
pub struct PyObjectNode {
    pub base_addr: u64,
    pub ob_type: u64,
    pub tp_name: String,
    pub kind: ObjKind,
    pub attrs: Vec<(String, u64)>,
    pub items: Vec<u64>,
    pub extras: Vec<u64>,
    pub is_parsed: bool,
}

impl View for PyObjectNode {
    type V = NodeModel;

    open spec fn view(&self) -> NodeModel {
        NodeModel {
            base_addr: self.base_addr,
            ob_type: self.ob_type,
            tp_name: self.tp_name@,
            kind: self.kind,
            attrs: attrs_model(self.attrs@),
            items: self.items@,
            extras: self.extras@,
            is_parsed: self.is_parsed,
        }
    }
}

/// The model of the object cache.
pub open spec fn objs_model(m: Map<u64, PyObjectNode>) -> Map<u64, NodeModel> {
    Map::new(|k: u64| m.contains_key(k), |k: u64| m[k]@)
}

/// The model of the per-object region cache.
pub open spec fn regs_model(m: Map<u64, MemoryRegion>) -> Map<u64, RegionModel> {
    Map::new(|k: u64| m.contains_key(k), |k: u64| m[k]@)
}

/// A target process under inspection: the snapshot, the object cache, the
/// per-object region cache, and the two distinguished addresses found by
/// `init` — the meta-type (`py_type`) and the root UI type (`ui_root`),
/// both zero until discovery succeeds.
pub struct EVEProcess {
    pub process: Process,
    pub objects: HashMap<u64, PyObjectNode>,
    pub regions: HashMap<u64, MemoryRegion>,
    pub py_type: u64,
    pub ui_root: u64,
}

/// The shape selected by a type name: the closed dispatch table.
pub open spec fn spec_kind_of(name: Seq<char>) -> ObjKind {
    if name == "type"@ {
        ObjKind::Type
    } else if name == "str"@ {
        ObjKind::Str
    } else if name == "bytes"@ {
        ObjKind::Bytes
    } else if name == "bytearray"@ {
        ObjKind::ByteArray
    } else if name == "list"@ {
        ObjKind::List
    } else if name == "tuple"@ {
        ObjKind::Tuple
    } else if name == "long"@ {
        ObjKind::Long
    } else if name == "dict"@ {
        ObjKind::Dict
    } else if name == "set"@ {
        ObjKind::SetObj
    } else if name == "int"@ {
        ObjKind::Int
    } else if name == "bool"@ {
        ObjKind::Bool
    } else if name == "float"@ {
        ObjKind::Float
    } else if name == "unicode"@ {
        ObjKind::Unicode
    } else if name == "NoneType"@ {
        ObjKind::NoneType
    } else {
        ObjKind::Custom
    }
}

/// Whether a string equals a literal.
pub(crate) fn str_matches(name: &String, lit: &str) -> (r: bool)
    ensures
        r == (name@ == lit@),
{
    let owned: String = lit.to_owned();
    name.eq(&owned)
}

/// The run-time dispatch on a resolved type name.
pub fn kind_of(name: &String) -> (r: ObjKind)
    ensures
        r == spec_kind_of(name@),
{
    if str_matches(name, "type") {
        ObjKind::Type
    } else if str_matches(name, "str") {
        ObjKind::Str
    } else if str_matches(name, "bytes") {
        ObjKind::Bytes
    } else if str_matches(name, "bytearray") {
        ObjKind::ByteArray
    } else if str_matches(name, "list") {
        ObjKind::List
    } else if str_matches(name, "tuple") {
        ObjKind::Tuple
    } else if str_matches(name, "long") {
        ObjKind::Long
    } else if str_matches(name, "dict") {
        ObjKind::Dict
    } else if str_matches(name, "set") {
        ObjKind::SetObj
    } else if str_matches(name, "int") {
        ObjKind::Int
    } else if str_matches(name, "bool") {
        ObjKind::Bool
    } else if str_matches(name, "float") {
        ObjKind::Float
    } else if str_matches(name, "unicode") {
        ObjKind::Unicode
    } else if str_matches(name, "NoneType") {
        ObjKind::NoneType
    } else {
        ObjKind::Custom
    }
}

/// The fixed header size of a shape.
pub open spec fn spec_header_size(k: ObjKind) -> int {
    match k {
        ObjKind::Type => CPY_TYPE_OBJECT_SIZE as int,
        ObjKind::Str => CPY_STRING_OBJECT_SIZE as int,
        ObjKind::Bytes => CPY_STRING_OBJECT_SIZE as int,
        ObjKind::ByteArray => CPY_BYTEARRAY_OBJECT_SIZE as int,
        ObjKind::List => CPY_LIST_OBJECT_SIZE as int,
        ObjKind::Tuple => CPY_TUPLE_OBJECT_SIZE as int,
        ObjKind::Long => CPY_LONG_OBJECT_SIZE as int,
        ObjKind::Dict => CPY_DICT_OBJECT_SIZE as int,
        ObjKind::SetObj => CPY_SET_OBJECT_SIZE as int,
        ObjKind::Int => CPY_INT_OBJECT_SIZE as int,
        ObjKind::Bool => CPY_INT_OBJECT_SIZE as int,
        ObjKind::Float => CPY_FLOAT_OBJECT_SIZE as int,
        ObjKind::Unicode => CPY_UNICODE_OBJECT_SIZE as int,
        ObjKind::NoneType => CPY_OBJECT_SIZE as int,
        ObjKind::Custom => CPY_CUSTOM_OBJECT_SIZE as int,
    }
}

/// Bytes of trailing payload per unit of `|ob_size|`: one byte per unit for
/// string-like shapes, one pointer per item for list and tuple, one 4-byte
/// digit lane for long, nothing otherwise.
pub open spec fn spec_tail_mult(k: ObjKind) -> int {
    match k {
        ObjKind::Str => 1,
        ObjKind::Bytes => 1,
        ObjKind::ByteArray => 1,
        ObjKind::List => 8,
        ObjKind::Tuple => 8,
        ObjKind::Long => 4,
        _ => 0,
    }
}

/// The run-time header size of a shape.
pub fn header_size_of(k: ObjKind) -> (r: usize)
    ensures
        r as int == spec_header_size(k),
{
    match k {
        ObjKind::Type => CPY_TYPE_OBJECT_SIZE,
        ObjKind::Str => CPY_STRING_OBJECT_SIZE,
        ObjKind::Bytes => CPY_STRING_OBJECT_SIZE,
        ObjKind::ByteArray => CPY_BYTEARRAY_OBJECT_SIZE,
        ObjKind::List => CPY_LIST_OBJECT_SIZE,
        ObjKind::Tuple => CPY_TUPLE_OBJECT_SIZE,
        ObjKind::Long => CPY_LONG_OBJECT_SIZE,
        ObjKind::Dict => CPY_DICT_OBJECT_SIZE,
        ObjKind::SetObj => CPY_SET_OBJECT_SIZE,
        ObjKind::Int => CPY_INT_OBJECT_SIZE,
        ObjKind::Bool => CPY_INT_OBJECT_SIZE,
        ObjKind::Float => CPY_FLOAT_OBJECT_SIZE,
        ObjKind::Unicode => CPY_UNICODE_OBJECT_SIZE,
        ObjKind::NoneType => CPY_OBJECT_SIZE,
        ObjKind::Custom => CPY_CUSTOM_OBJECT_SIZE,
    }
}

/// The run-time tail multiplier of a shape.
pub fn tail_mult_of(k: ObjKind) -> (r: usize)
    ensures
        r as int == spec_tail_mult(k),
{
    match k {
        ObjKind::Str => 1,
        ObjKind::Bytes => 1,
        ObjKind::ByteArray => 1,
        ObjKind::List => 8,
        ObjKind::Tuple => 8,
        ObjKind::Long => 4,
        _ => 0,
    }
}

/// The length of the zero-terminated prefix of `s`: the index of the first
/// zero byte, or `s.len()` when none occurs.
pub open spec fn spec_zterm_len(s: Seq<u8>) -> int
    decreases s.len(),
{
    if s.len() == 0 {
        0
    } else if s[0] == 0 {
        0
    } else {
        1 + spec_zterm_len(s.drop_first())
    }
}

/// Characterization of [`spec_zterm_len`] by its defining properties.
pub proof fn lemma_zterm_char(s: Seq<u8>, k: int)
    requires
        0 <= k <= s.len(),
        forall|i: int| 0 <= i < k ==> s[i] != 0,
        k == s.len() || s[k] == 0,
    ensures
        spec_zterm_len(s) == k,
    decreases s.len(),
{
    if s.len() == 0 {
    } else if s[0] == 0 {
        assert(k == 0);
    } else {
        assert(k > 0);
        lemma_zterm_char(s.drop_first(), k - 1);
    }
}

/// Finds the length of the zero-terminated prefix of `data`.
pub fn zterm_len(data: &Vec<u8>) -> (r: usize)
    ensures
        r as int == spec_zterm_len(data@),
        r <= data@.len(),
{
    let n = data.len();
    let mut k: usize = 0;
    while k < n
        invariant
            n == data@.len(),
            k <= n,
            forall|i: int| 0 <= i < k ==> data@[i] != 0,
        decreases n - k,
    {
        if data[k] == 0 {
            proof {
                lemma_zterm_char(data@, k as int);
            }
            return k;
        }
        k = k + 1;
    }
    proof {
        lemma_zterm_char(data@, n as int);
    }
    n
}

/// The error that a region-cache read of `[addr, addr + size)` reports when
/// it fails.
pub open spec fn spec_read_err(rs: Seq<MemoryRegion>, addr: u64) -> EngineError {
    if spec_is_mapped(rs, addr) {
        EngineError::OutOfBounds
    } else {
        EngineError::NotMapped
    }
}

/// The model of the region a successful cache read of `[addr, addr + size)`
/// returns.
pub open spec fn spec_read_region(rs: Seq<MemoryRegion>, addr: u64, size: int) -> RegionModel {
    RegionModel {
        start: addr,
        data: spec_read(rs, addr, size).unwrap(),
        handle: rs[spec_region_at(rs, addr)].handle,
    }
}

/// Removes the listed keys from a region map, first to last.
pub open spec fn spec_remove_all(m: Map<u64, RegionModel>, keys: Seq<u64>) -> Map<u64, RegionModel>
    decreases keys.len(),
{
    if keys.len() == 0 {
        m
    } else {
        spec_remove_all(m.remove(keys[0]), keys.drop_first())
    }
}

/// The node the factory creates for the self-typed meta-type.
pub open spec fn spec_meta_node(addr: u64) -> NodeModel {
    NodeModel {
        base_addr: addr,
        ob_type: addr,
        tp_name: "type"@,
        kind: ObjKind::Type,
        attrs: Seq::empty(),
        items: Seq::empty(),
        extras: Seq::empty(),
        is_parsed: true,
    }
}

/// The cached type-descriptor node for the type at `t`: `own_type` is the
/// type address read from its own header, `name` the name it gives its
/// instances, `name_ptr` the key of the name-buffer region recorded in
/// `extras`.
pub open spec fn spec_type_node(t: u64, own_type: u64, name: Seq<char>, name_ptr: u64) -> NodeModel {
    NodeModel {
        base_addr: t,
        ob_type: own_type,
        tp_name: name,
        kind: ObjKind::Type,
        attrs: Seq::empty(),
        items: Seq::empty(),
        extras: seq![name_ptr],
        is_parsed: true,
    }
}

/// A freshly created, not yet parsed object node.
pub open spec fn spec_fresh_node(addr: u64, t: u64, name: Seq<char>) -> NodeModel {
    NodeModel {
        base_addr: addr,
        ob_type: t,
        tp_name: name,
        kind: spec_kind_of(name),
        attrs: Seq::empty(),
        items: Seq::empty(),
        extras: Seq::empty(),
        is_parsed: false,
    }
}

/// Stage one of node creation for an object whose type address `t` differs
/// from its own: resolve the type name, caching the type descriptor and its
/// name buffer when they are not cached yet. Returns the updated caches and
/// the name, or the error that stops creation.
pub open spec fn spec_resolve_type(
    rs: Seq<MemoryRegion>,
    objs: Map<u64, NodeModel>,
    regs: Map<u64, RegionModel>,
    t: u64,
) -> (Map<u64, NodeModel>, Map<u64, RegionModel>, Result<Seq<char>, EngineError>) {
    if objs.contains_key(t) {
        (objs, regs, Ok(objs[t].tp_name))
    } else {
        match spec_read(rs, t, CPY_TYPE_OBJECT_SIZE as int) {
            Option::None => (objs, regs, Err(spec_read_err(rs, t))),
            Option::Some(treg) => {
                let name_ptr = spec_u64_at(treg, 24);
                match spec_read(rs, name_ptr, MAX_TYPE_NAME_LEN as int) {
                    Option::None => (objs, regs, Err(spec_read_err(rs, name_ptr))),
                    Option::Some(nb) => {
                        let zl = spec_zterm_len(nb);
                        if zl == 0 {
                            (objs, regs, Err(EngineError::DecodeFail))
                        } else {
                            let name = utf8_lossy(nb.take(zl));
                            (
                                objs.insert(
                                    t,
                                    spec_type_node(t, spec_u64_at(treg, 8), name, name_ptr),
                                ),
                                regs.insert(
                                    t,
                                    spec_read_region(rs, t, CPY_TYPE_OBJECT_SIZE as int),
                                ).insert(
                                    name_ptr,
                                    spec_read_region(rs, name_ptr, MAX_TYPE_NAME_LEN as int),
                                ),
                                Ok(name),
                            )
                        }
                    },
                }
            },
        }
    }
}

/// Eviction of a stale node: the node goes, with the regions its `extras`
/// list and the region keyed by its own address.
pub open spec fn spec_evict(
    objs: Map<u64, NodeModel>,
    regs: Map<u64, RegionModel>,
    addr: u64,
) -> (Map<u64, NodeModel>, Map<u64, RegionModel>) {
    if objs.contains_key(addr) {
        (objs.remove(addr), spec_remove_all(regs, objs[addr].extras).remove(addr))
    } else {
        (objs, regs)
    }
}

/// The trailing payload size of a node of shape `kind` at `addr`, read from
/// the variable-object header when the shape has a tail.
pub open spec fn spec_tail_size(rs: Seq<MemoryRegion>, addr: u64, kind: ObjKind) -> Result<
    int,
    EngineError,
> {
    if spec_tail_mult(kind) > 0 {
        match spec_read(rs, addr, CPY_VAR_OBJECT_SIZE as int) {
            Option::None => Err(spec_read_err(rs, addr)),
            Option::Some(v) => {
                let s = spec_i64_at(v, 16);
                let m = if s < 0 {
                    -s
                } else {
                    s
                };
                Ok(m * spec_tail_mult(kind))
            },
        }
    } else {
        Ok(0)
    }
}

/// The complete state transition of [`EVEProcess::new_node`]: given the
/// snapshot and the two caches, creating a node at `addr` yields new caches
/// and an outcome.
pub open spec fn spec_new_node(
    rs: Seq<MemoryRegion>,
    objs: Map<u64, NodeModel>,
    regs: Map<u64, RegionModel>,
    addr: u64,
) -> (Map<u64, NodeModel>, Map<u64, RegionModel>, Result<(), EngineError>) {
    if addr == 0 {
        (objs, regs, Err(EngineError::InvalidAddr))
    } else {
        match spec_read(rs, addr, CPY_OBJECT_SIZE as int) {
            Option::None => (objs, regs, Err(spec_read_err(rs, addr))),
            Option::Some(hdr) => {
                let t = spec_u64_at(hdr, 8);
                if t == addr {
                    if objs.contains_key(addr) {
                        (objs, regs, Ok(()))
                    } else {
                        match spec_read(rs, addr, CPY_TYPE_OBJECT_SIZE as int) {
                            Option::None => (objs, regs, Err(spec_read_err(rs, addr))),
                            Option::Some(treg) => (
                                objs.insert(addr, spec_meta_node(addr)),
                                regs.insert(
                                    addr,
                                    spec_read_region(rs, addr, CPY_TYPE_OBJECT_SIZE as int),
                                ),
                                Ok(()),
                            ),
                        }
                    }
                } else {
                    let stage1 = spec_resolve_type(rs, objs, regs, t);
                    match stage1.2 {
                        Err(e) => (stage1.0, stage1.1, Err(e)),
                        Ok(name) => {
                            let stage2 = spec_evict(stage1.0, stage1.1, addr);
                            let kind = spec_kind_of(name);
                            match spec_tail_size(rs, addr, kind) {
                                Err(e) => (stage2.0, stage2.1, Err(e)),
                                Ok(tail) => {
                                    let total = spec_header_size(kind) + tail;
                                    match spec_read(rs, addr, total) {
                                        Option::None => (
                                            stage2.0,
                                            stage2.1,
                                            Err(spec_read_err(rs, addr)),
                                        ),
                                        Option::Some(main) => (
                                            stage2.0.insert(addr, spec_fresh_node(addr, t, name)),
                                            stage2.1.insert(
                                                addr,
                                                spec_read_region(rs, addr, total),
                                            ),
                                            Ok(()),
                                        ),
                                    }
                                },
                            }
                        },
                    }
                }
            },
        }
    }
}

impl EVEProcess {
    /// The model of the object cache.
    pub open spec fn objs(self) -> Map<u64, NodeModel> {
        objs_model(self.objects@)
    }

    /// The model of the per-object region cache.
    pub open spec fn regs(self) -> Map<u64, RegionModel> {
        regs_model(self.regions@)
    }

    /// Snapshot well-formedness, inherited from the process.
    pub open spec fn wf(self) -> bool {
        self.process.wf()
    }

    /// Every region in the per-object cache is well-formed. Established by
    /// [`EVEProcess::attach`] and preserved by every engine operation.
    pub open spec fn cache_wf(self) -> bool {
        forall|k: u64|
            #[trigger] self.regions@.contains_key(k) ==> self.regions@[k].wf()
    }

    /// Wraps a snapshotted process into an engine with empty caches and no
    /// discovered addresses.
    pub fn attach(process: Process) -> (r: Self)
        ensures
            r.process == process,
            r.cache_wf(),
            r.objs() == Map::<u64, NodeModel>::empty(),
            r.regs() == Map::<u64, RegionModel>::empty(),
            r.py_type == 0u64,
            r.ui_root == 0u64,
    {
        let e = EVEProcess {
            process,
            objects: HashMap::new(),
            regions: HashMap::new(),
            py_type: 0,
            ui_root: 0,
        };
        proof {
            assert(e.objs() =~= Map::<u64, NodeModel>::empty());
            assert(e.regs() =~= Map::<u64, RegionModel>::empty());
        }
        e
    }

    /// Borrows the node cached at `addr`, when there is one.
    pub fn get_node(&self, addr: u64) -> (r: Option<&PyObjectNode>)
        ensures
            match r {
                Some(n) => self.objs().contains_key(addr) && n@ == self.objs()[addr],
                None => !self.objs().contains_key(addr),
            },
    {
        let r = self.objects.get(&addr);
        proof {
            match r {
                Some(n) => {
                    assert(self.objects@.contains_key(addr) && self.objects@[addr] == *n);
                },
                None => {},
            }
        }
        r
    }

    /// Removes the node at `addr` from the cache, freeing every region its
    /// `extras` list names and the region keyed by the address itself.
    /// Fails with `InvalidAddr` when no node is cached there.
    pub fn del_node(&mut self, addr: u64) -> (r: Result<(), EngineError>)
        ensures
            final(self).process == old(self).process,
            final(self).py_type == old(self).py_type,
            final(self).ui_root == old(self).ui_root,
            old(self).cache_wf() ==> final(self).cache_wf(),
            match r {
                Ok(()) => {
                    &&& old(self).objs().contains_key(addr)
                    &&& final(self).objs() == old(self).objs().remove(addr)
                    &&& final(self).regs() == spec_remove_all(
                        old(self).regs(),
                        old(self).objs()[addr].extras,
                    ).remove(addr)
                },
                Err(e) => {
                    &&& e == EngineError::InvalidAddr
                    &&& !old(self).objs().contains_key(addr)
                    &&& final(self).objs() == old(self).objs()
                    &&& final(self).regs() == old(self).regs()
                },
            },
    {
        let node = match self.objects.remove(&addr) {
            Some(n) => n,
            None => {
                return Err(EngineError::InvalidAddr);
            },
        };
        proof {
            assert(objs_model(self.objects@) =~= objs_model(old(self).objects@).remove(addr));
            assert(node@ == objs_model(old(self).objects@)[addr]);
        }
        let n = node.extras.len();
        let mut i: usize = 0;
        while i < n
            invariant
                n == node.extras@.len(),
                i <= n,
                regs_model(self.regions@) == spec_remove_all(
                    regs_model(old(self).regions@),
                    node.extras@.take(i as int),
                ),
                self.objects@ == old(self).objects@.remove(addr),
                self.process == old(self).process,
                self.py_type == old(self).py_type,
                self.ui_root == old(self).ui_root,
                old(self).cache_wf() ==> self.cache_wf(),
            decreases n - i,
        {
            let ghost before = regs_model(self.regions@);
            let key = node.extras[i];
            self.regions.remove(&key);
            proof {
                assert(regs_model(self.regions@) =~= before.remove(key));
                lemma_remove_all_snoc(
                    regs_model(old(self).regions@),
                    node.extras@,
                    i as int,
                );
                assert(node.extras@.take(i + 1) == node.extras@.take(i + 1));
            }
            i = i + 1;
        }
        proof {
            assert(node.extras@.take(n as int) =~= node.extras@);
        }
        let ghost before = regs_model(self.regions@);
        self.regions.remove(&addr);
        proof {
            assert(regs_model(self.regions@) =~= before.remove(addr));
        }
        Ok(())
    }
}

/// Removing one more listed key extends [`spec_remove_all`] by one step.
pub proof fn lemma_remove_all_snoc(m: Map<u64, RegionModel>, keys: Seq<u64>, i: int)
    requires
        0 <= i < keys.len(),
    ensures
        spec_remove_all(m, keys.take(i + 1)) == spec_remove_all(m, keys.take(i)).remove(keys[i]),
    decreases i,
{
    if i == 0 {
        assert(keys.take(1) =~= seq![keys[0]]);
        assert(keys.take(0) =~= Seq::<u64>::empty());
        assert(spec_remove_all(m, seq![keys[0]]) == spec_remove_all(
            m.remove(keys[0]),
            seq![keys[0]].drop_first(),
        ));
        assert(seq![keys[0]].drop_first() =~= Seq::<u64>::empty());
    } else {
        lemma_remove_all_snoc(m.remove(keys[0]), keys.drop_first(), i - 1);
        assert(keys.take(i + 1).drop_first() =~= keys.drop_first().take(i));
        assert(keys.take(i).drop_first() =~= keys.drop_first().take(i - 1));
        assert(keys.take(i + 1)[0] == keys[0]);
        assert(keys.take(i)[0] == keys[0]);
        assert(spec_remove_all(m, keys.take(i + 1)) == spec_remove_all(
            m.remove(keys[0]),
            keys.drop_first().take(i),
        ));
        assert(spec_remove_all(m, keys.take(i)) == spec_remove_all(
            m.remove(keys[0]),
            keys.drop_first().take(i - 1),
        ));
        assert(keys.drop_first()[i - 1] == keys[i]);
    }
}


impl EVEProcess {
    /// Creates (or refreshes) the node for the object at `base_addr`,
    /// resolving its type name through the snapshot, sizing its record by
    /// the closed dispatch table, and caching a region of
    /// `header + tail` bytes for it. The whole effect on the caches is the
    /// transition [`spec_new_node`].
    pub fn new_node(&mut self, base_addr: u64) -> (r: Result<(), EngineError>)
        requires
            old(self).wf(),
        ensures
            final(self).process == old(self).process,
            final(self).py_type == old(self).py_type,
            final(self).ui_root == old(self).ui_root,
            old(self).cache_wf() ==> final(self).cache_wf(),
            ({
                let step = spec_new_node(
                    old(self).process.regions@,
                    old(self).objs(),
                    old(self).regs(),
                    base_addr,
                );
                &&& final(self).objs() == step.0
                &&& final(self).regs() == step.1
                &&& r == step.2
            }),
    {
        let ghost rs = self.process.regions@;
        let ghost o0 = self.objs();
        let ghost g0 = self.regs();
        if base_addr == 0 {
            return Err(EngineError::InvalidAddr);
        }
        let hdr_region = match self.process.read_cache(base_addr, CPY_OBJECT_SIZE) {
            Ok(rg) => rg,
            Err(e) => {
                return Err(e);
            },
        };
        let hdr = match CPyObject::read(&hdr_region, 0) {
            Ok(h) => h,
            Err(e) => {
                proof {
                    assert(false);
                }
                return Err(e);
            },
        };
        let t = hdr.ob_type;
        proof {
            assert(t == spec_u64_at(spec_read(rs, base_addr, CPY_OBJECT_SIZE as int).unwrap(), 8));
        }
        if t == base_addr {
            if self.objects.contains_key(&base_addr) {
                return Ok(());
            }
            let treg = match self.process.read_cache(base_addr, CPY_TYPE_OBJECT_SIZE) {
                Ok(rg) => rg,
                Err(e) => {
                    return Err(e);
                },
            };
            let node = PyObjectNode {
                base_addr,
                ob_type: base_addr,
                tp_name: "type".to_owned(),
                kind: ObjKind::Type,
                attrs: Vec::new(),
                items: Vec::new(),
                extras: Vec::new(),
                is_parsed: true,
            };
            proof {
                assert(node@ =~= spec_meta_node(base_addr));
                assert(treg@ == spec_read_region(rs, base_addr, CPY_TYPE_OBJECT_SIZE as int));
            }
            self.objects.insert(base_addr, node);
            self.regions.insert(base_addr, treg);
            proof {
                assert(self.objs() =~= o0.insert(base_addr, spec_meta_node(base_addr)));
                assert(self.regs() =~= g0.insert(
                    base_addr,
                    spec_read_region(rs, base_addr, CPY_TYPE_OBJECT_SIZE as int),
                ));
            }
            return Ok(());
        }
        // Stage one: resolve the type name, caching the descriptor if new.
        let ghost stage1 = spec_resolve_type(rs, o0, g0, t);
        let mut cached_name: Option<String> = None;
        match self.objects.get(&t) {
            Some(tn) => {
                cached_name = Some(tn.tp_name.clone());
            },
            None => {},
        }
        let name: String = match cached_name {
            Some(n) => {
                proof {
                    assert(o0.contains_key(t));
                    assert(n@ == o0[t].tp_name);
                }
                n
            },
            None => {
                proof {
                    assert(!o0.contains_key(t));
                }
                let treg = match self.process.read_cache(t, CPY_TYPE_OBJECT_SIZE) {
                    Ok(rg) => rg,
                    Err(e) => {
                        return Err(e);
                    },
                };
                let th = match CPyTypeObject::read(&treg, 0) {
                    Ok(h) => h,
                    Err(e) => {
                        proof {
                            assert(false);
                        }
                        return Err(e);
                    },
                };
                let name_ptr = th.tp_name;
                let nreg = match self.process.read_cache(name_ptr, MAX_TYPE_NAME_LEN) {
                    Ok(rg) => rg,
                    Err(e) => {
                        return Err(e);
                    },
                };
                let zl = zterm_len(&nreg.data);
                if zl == 0 {
                    return Err(EngineError::DecodeFail);
                }
                let name_slice = vstd::slice::slice_subrange(nreg.data.as_slice(), 0, zl);
                let fresh_name = lossy_string(name_slice);
                proof {
                    let nb = spec_read(rs, name_ptr, MAX_TYPE_NAME_LEN as int).unwrap();
                    assert(nb.take(spec_zterm_len(nb)) =~= nb.subrange(0, zl as int));
                    assert(fresh_name@ == utf8_lossy(nb.take(spec_zterm_len(nb))));
                }
                let mut extras: Vec<u64> = Vec::new();
                extras.push(name_ptr);
                let tnode = PyObjectNode {
                    base_addr: t,
                    ob_type: th.ob_base.ob_base.ob_type,
                    tp_name: fresh_name.clone(),
                    kind: ObjKind::Type,
                    attrs: Vec::new(),
                    items: Vec::new(),
                    extras,
                    is_parsed: true,
                };
                proof {
                    let treg_data = spec_read(rs, t, CPY_TYPE_OBJECT_SIZE as int).unwrap();
                    let nb = spec_read(rs, name_ptr, MAX_TYPE_NAME_LEN as int).unwrap();
                    assert(tnode@ =~= spec_type_node(
                        t,
                        spec_u64_at(treg_data, 8),
                        utf8_lossy(nb.take(spec_zterm_len(nb))),
                        name_ptr,
                    ));
                    assert(treg@ == spec_read_region(rs, t, CPY_TYPE_OBJECT_SIZE as int));
                    assert(nreg@ == spec_read_region(rs, name_ptr, MAX_TYPE_NAME_LEN as int));
                }
                self.objects.insert(t, tnode);
                self.regions.insert(t, treg);
                self.regions.insert(name_ptr, nreg);
                proof {
                    assert(self.objs() =~= stage1.0);
                    assert(self.regs() =~= stage1.1);
                }
                fresh_name
            },
        };
        proof {
            assert(self.objs() =~= stage1.0);
            assert(self.regs() =~= stage1.1);
            assert(stage1.2 == Ok::<Seq<char>, EngineError>(name@));
        }
        // Stage two: evict a stale node at this address.
        let ghost stage2 = spec_evict(stage1.0, stage1.1, base_addr);
        if self.objects.contains_key(&base_addr) {
            let _ = self.del_node(base_addr);
        }
        proof {
            assert(self.objs() == stage2.0);
            assert(self.regs() == stage2.1);
        }
        // Stage three: size the record and snapshot it.
        let kind = kind_of(&name);
        let mult = tail_mult_of(kind);
        let hsize = header_size_of(kind);
        let total: usize;
        if mult > 0 {
            let vreg = match self.process.read_cache(base_addr, CPY_VAR_OBJECT_SIZE) {
                Ok(rg) => rg,
                Err(e) => {
                    return Err(e);
                },
            };
            let vo = match CPyVarObject::read(&vreg, 0) {
                Ok(h) => h,
                Err(e) => {
                    proof {
                        assert(false);
                    }
                    return Err(e);
                },
            };
            let s = vo.ob_size;
            let mag: u64 = if s < 0 {
                if s == i64::MIN {
                    0x8000_0000_0000_0000u64
                } else {
                    (-s) as u64
                }
            } else {
                s as u64
            };
            let tail128: u128 = (mag as u128) * (mult as u128);
            let tot128: u128 = (hsize as u128) + tail128;
            proof {
                assert(spec_tail_size(rs, base_addr, kind) == Ok::<int, EngineError>(
                    tail128 as int,
                ));
            }
            if tot128 > usize::MAX as u128 {
                proof {
                    let total_spec = spec_header_size(kind) + tail128 as int;
                    if spec_is_mapped(rs, base_addr) {
                        let i = spec_region_at(rs, base_addr);
                        assert(rs[i].size <= usize::MAX);
                        assert(spec_read(rs, base_addr, total_spec) is None);
                    }
                }
                match self.process.get_region_from_address(base_addr) {
                    Ok(_) => {
                        return Err(EngineError::OutOfBounds);
                    },
                    Err(_) => {
                        return Err(EngineError::NotMapped);
                    },
                }
            }
            total = tot128 as usize;
        } else {
            proof {
                assert(spec_tail_size(rs, base_addr, kind) == Ok::<int, EngineError>(0));
            }
            total = hsize;
        }
        let main_reg = match self.process.read_cache(base_addr, total) {
            Ok(rg) => rg,
            Err(e) => {
                return Err(e);
            },
        };
        let node = PyObjectNode {
            base_addr,
            ob_type: t,
            tp_name: name,
            kind,
            attrs: Vec::new(),
            items: Vec::new(),
            extras: Vec::new(),
            is_parsed: false,
        };
        proof {
            assert(node@ =~= spec_fresh_node(base_addr, t, node.tp_name@));
            assert(main_reg@ == spec_read_region(
                rs,
                base_addr,
                spec_header_size(kind) + spec_tail_size(rs, base_addr, kind).unwrap(),
            ));
        }
        let ghost o2 = self.objs();
        let ghost g2 = self.regs();
        self.objects.insert(base_addr, node);
        self.regions.insert(base_addr, main_reg);
        proof {
            assert(self.objs() =~= o2.insert(base_addr, spec_fresh_node(base_addr, t, name@)));
            assert(self.regs() =~= g2.insert(base_addr, main_reg@));
        }
        Ok(())
    }
}


/// The name of the application-root type every meta-type candidate must be
/// able to reach: the verification list of type-root discovery.
pub open spec fn spec_uiroot_name() -> Seq<u8> {
    "UIRoot".spec_bytes()
}

/// A meta-type candidate is verified when at least one type descriptor of
/// the required name is typed by it.
pub open spec fn spec_verified(rs: Seq<MemoryRegion>, cand: u64) -> bool {
    spec_scan_all(
        rs,
        ScanQuery::TypeNamed { tp_addr: cand, name: spec_uiroot_name() },
    ).len() > 0
}

/// The index of the first verified candidate at or after `i`, if any.
pub open spec fn spec_first_verified(rs: Seq<MemoryRegion>, cands: Seq<u64>, i: int) -> Option<int>
    decreases cands.len() - i,
{
    if i < 0 || i >= cands.len() {
        Option::None
    } else if spec_verified(rs, cands[i]) {
        Option::Some(i)
    } else {
        spec_first_verified(rs, cands, i + 1)
    }
}

/// The complete outcome of [`EVEProcess::init`] on a snapshot `rs`, given
/// the prior caches and discovered addresses: the new object cache, region
/// cache, `py_type`, `ui_root`, and result.
pub open spec fn spec_init_result(
    rs: Seq<MemoryRegion>,
    o0: Map<u64, NodeModel>,
    g0: Map<u64, RegionModel>,
    pt0: u64,
    ur0: u64,
) -> (Map<u64, NodeModel>, Map<u64, RegionModel>, u64, u64, Result<u64, EngineError>) {
    let cands = spec_scan_all(rs, ScanQuery::TypeSelf);
    match spec_first_verified(rs, cands, 0) {
        Option::None => (o0, g0, pt0, ur0, Err(EngineError::NotFound)),
        Option::Some(vi) => {
            let cand = cands[vi];
            let ui = spec_scan_all(
                rs,
                ScanQuery::TypeNamed { tp_addr: cand, name: spec_uiroot_name() },
            )[0];
            let s1 = spec_new_node(rs, Map::empty(), g0, cand);
            match s1.2 {
                Err(e) => (s1.0, s1.1, pt0, ur0, Err(e)),
                Ok(u) => {
                    let s2 = spec_new_node(rs, s1.0, s1.1, ui);
                    match s2.2 {
                        Err(e) => (s2.0, s2.1, cand, ur0, Err(e)),
                        Ok(u2) => (s2.0, s2.1, cand, ui, Ok(cand)),
                    }
                },
            }
        },
    }
}

impl EVEProcess {
    /// Type-root discovery. Scans the snapshot for self-typed type
    /// descriptors named `type`, verifies each candidate in scan order by
    /// requiring a type named `UIRoot` typed by it, and commits to the
    /// first verified candidate: the object cache is cleared, nodes are
    /// created for the meta-type and the root UI type, and the two
    /// addresses are recorded. With no verified candidate the engine is
    /// left untouched and `NotFound` is returned.
    pub fn init(&mut self) -> (r: Result<u64, EngineError>)
        requires
            old(self).wf(),
        ensures
            final(self).process == old(self).process,
            old(self).cache_wf() ==> final(self).cache_wf(),
            ({
                let step = spec_init_result(
                    old(self).process.regions@,
                    old(self).objs(),
                    old(self).regs(),
                    old(self).py_type,
                    old(self).ui_root,
                );
                &&& final(self).objs() == step.0
                &&& final(self).regs() == step.1
                &&& final(self).py_type == step.2
                &&& final(self).ui_root == step.3
                &&& r == step.4
            }),
    {
        let ghost rs = self.process.regions@;
        let ghost o0 = self.objs();
        let ghost g0 = self.regs();
        let cands = scan_all(&self.process, &ScanKind::TypeSelf);
        let n = cands.len();
        let mut ci: usize = 0;
        while ci < n
            invariant
                self.wf(),
                self.process == old(self).process,
                self.objects@ == old(self).objects@,
                self.regions@ == old(self).regions@,
                self.py_type == old(self).py_type,
                self.ui_root == old(self).ui_root,
                rs == self.process.regions@,
                o0 == objs_model(old(self).objects@),
                g0 == regs_model(old(self).regions@),
                n == cands@.len(),
                ci <= n,
                cands@ == spec_scan_all(rs, ScanQuery::TypeSelf),
                spec_first_verified(rs, cands@, 0) == spec_first_verified(rs, cands@, ci as int),
            decreases n - ci,
        {
            let cand = cands[ci];
            let uiroot_name: Vec<u8> = slice_to_vec("UIRoot".as_bytes());
            let found = scan_all(
                &self.process,
                &ScanKind::TypeNamed { tp_addr: cand, name: uiroot_name },
            );
            if found.len() > 0 {
                proof {
                    assert(spec_verified(rs, cand));
                    assert(spec_first_verified(rs, cands@, ci as int) == Option::Some(ci as int));
                }
                let ui = found[0];
                self.objects = HashMap::new();
                proof {
                    assert(self.objs() =~= Map::<u64, NodeModel>::empty());
                    assert(self.regs() == g0);
                }
                match self.new_node(cand) {
                    Err(e) => {
                        return Err(e);
                    },
                    Ok(_) => {},
                }
                self.py_type = cand;
                match self.new_node(ui) {
                    Err(e) => {
                        return Err(e);
                    },
                    Ok(_) => {},
                }
                self.ui_root = ui;
                return Ok(cand);
            }
            proof {
                assert(!spec_verified(rs, cand));
            }
            ci = ci + 1;
        }
        Err(EngineError::NotFound)
    }

    /// Finds every type descriptor whose meta-type is `tp_addr` (or, when
    /// none is given, the discovered `py_type`) and whose name starts with
    /// `tp_name`. Fails with `InvalidAddr` when the effective type address
    /// is zero (discovery has not run).
    pub fn search_type(&self, tp_name: &str, tp_addr: Option<u64>) -> (r: Result<
        Vec<u64>,
        EngineError,
    >)
        requires
            self.wf(),
        ensures
            ({
                let eff = match tp_addr {
                    Some(a) => a,
                    None => self.py_type,
                };
                match r {
                    Ok(v) => eff != 0 && v@ == spec_scan_all(
                        self.process.regions@,
                        ScanQuery::TypeNamed { tp_addr: eff, name: tp_name.spec_bytes() },
                    ),
                    Err(e) => e == EngineError::InvalidAddr && eff == 0,
                }
            }),
    {
        let eff = match tp_addr {
            Some(a) => a,
            None => self.py_type,
        };
        if eff == 0 {
            return Err(EngineError::InvalidAddr);
        }
        let name_vec: Vec<u8> = slice_to_vec(tp_name.as_bytes());
        Ok(scan_all(&self.process, &ScanKind::TypeNamed { tp_addr: eff, name: name_vec }))
    }

    /// Finds every object whose type is `tp_addr` (or the discovered
    /// `ui_root`) and whose attribute pointer leads to a well-formed dict:
    /// the candidates for the application root. Fails with `InvalidAddr`
    /// when the effective type address is zero.
    pub fn search_ui_root(&self, tp_addr: Option<u64>) -> (r: Result<Vec<u64>, EngineError>)
        requires
            self.wf(),
        ensures
            ({
                let eff = match tp_addr {
                    Some(a) => a,
                    None => self.ui_root,
                };
                match r {
                    Ok(v) => eff != 0 && v@ == spec_scan_all(
                        self.process.regions@,
                        ScanQuery::UiRootCand { tp_addr: eff },
                    ),
                    Err(e) => e == EngineError::InvalidAddr && eff == 0,
                }
            }),
    {
        let eff = match tp_addr {
            Some(a) => a,
            None => self.ui_root,
        };
        if eff == 0 {
            return Err(EngineError::InvalidAddr);
        }
        Ok(scan_all(&self.process, &ScanKind::UiRootCand { tp_addr: eff }))
    }
}


impl EVEProcess {
    /// Selects the game-client processes out of an enumerated, snapshotted
    /// process list — those whose image path matches `*exefile*` and whose
    /// window title matches the client's — and wraps each into an engine
    /// with empty caches. Enumerating and snapshotting the candidates is
    /// the platform layer's task.
    pub fn list(procs: Vec<Process>) -> (r: Result<Vec<EVEProcess>, EngineError>)
        ensures
            ({
                let f = spec_filter(procs@, None, Some("*exefile*"@), Some("*\u{661f}\u{6218}\u{524d}\u{591c}*"@));
                match r {
                    Ok(es) => {
                        &&& f.len() > 0
                        &&& es@.len() == f.len()
                        &&& forall|i: int|
                            0 <= i < es@.len() ==> {
                                &&& (#[trigger] es@[i]).process == f[i]
                                &&& es@[i].py_type == 0u64
                                &&& es@[i].ui_root == 0u64
                                &&& es@[i].objs() == Map::<u64, NodeModel>::empty()
                                &&& es@[i].regs() == Map::<u64, RegionModel>::empty()
                            }
                    },
                    Err(e) => e == EngineError::NotFound && f.len() == 0,
                }
            }),
    {
        let filtered = match Process::list(
            procs,
            None,
            Some("*exefile*"),
            Some("*\u{661f}\u{6218}\u{524d}\u{591c}*"),
        ) {
            Ok(v) => v,
            Err(e) => {
                return Err(e);
            },
        };
        let ghost fseq = filtered@;
        let mut rest = filtered;
        let mut out: Vec<EVEProcess> = Vec::new();
        let n = rest.len();
        let mut i: usize = 0;
        while i < n
            invariant
                n == fseq.len(),
                i <= n,
                rest@ == fseq.skip(i as int),
                out@.len() == i,
                forall|j: int|
                    0 <= j < i ==> {
                        &&& (#[trigger] out@[j]).process == fseq[j]
                        &&& out@[j].py_type == 0u64
                        &&& out@[j].ui_root == 0u64
                        &&& out@[j].objs() == Map::<u64, NodeModel>::empty()
                        &&& out@[j].regs() == Map::<u64, RegionModel>::empty()
                    },
            decreases n - i,
        {
            let p = rest.remove(0);
            proof {
                assert(p == fseq[i as int]);
                assert(rest@ =~= fseq.skip(i + 1));
            }
            out.push(EVEProcess::attach(p));
            i = i + 1;
        }
        Ok(out)
    }
}


/// The attribute mapping an attribute list denotes: key to child address,
/// a later slot overriding an earlier one with the same decoded key (last
/// write wins in scan order).
pub open spec fn spec_attrs_map(attrs: Seq<(Seq<char>, u64)>) -> Map<Seq<char>, u64>
    decreases attrs.len(),
{
    if attrs.len() == 0 {
        Map::empty()
    } else {
        spec_attrs_map(attrs.drop_last()).insert(attrs.last().0, attrs.last().1)
    }
}

/// The denoted mapping binds a key exactly when some pair carries it, and
/// then to the value of the last such pair.
pub proof fn lemma_attrs_map_lookup(attrs: Seq<(Seq<char>, u64)>, key: Seq<char>, i: int)
    requires
        0 <= i < attrs.len(),
        attrs[i].0 == key,
        forall|j: int| i < j < attrs.len() ==> (#[trigger] attrs[j]).0 != key,
    ensures
        spec_attrs_map(attrs).contains_key(key),
        spec_attrs_map(attrs)[key] == attrs[i].1,
    decreases attrs.len(),
{
    if i == attrs.len() - 1 {
    } else {
        assert(attrs.last().0 != key);
        lemma_attrs_map_lookup(attrs.drop_last(), key, i);
    }
}

/// A key no pair carries is not bound.
pub proof fn lemma_attrs_map_absent(attrs: Seq<(Seq<char>, u64)>, key: Seq<char>)
    requires
        forall|j: int| 0 <= j < attrs.len() ==> (#[trigger] attrs[j]).0 != key,
    ensures
        !spec_attrs_map(attrs).contains_key(key),
    decreases attrs.len(),
{
    if attrs.len() > 0 {
        lemma_attrs_map_absent(attrs.drop_last(), key);
    }
}

impl PyObjectNode {
    /// Looks a decoded attribute key up in the node's attribute list, under
    /// the list's mapping semantics: the last slot with the key wins.
    pub fn attr(&self, key: &str) -> (r: Option<u64>)
        ensures
            match r {
                Some(v) => spec_attrs_map(self@.attrs).contains_key(key@) && v == spec_attrs_map(
                    self@.attrs,
                )[key@],
                None => !spec_attrs_map(self@.attrs).contains_key(key@),
            },
    {
        let n = self.attrs.len();
        let mut i: usize = n;
        while i > 0
            invariant
                n == self.attrs@.len(),
                i <= n,
                forall|j: int| i <= j < n ==> (#[trigger] self@.attrs[j]).0 != key@,
            decreases i,
        {
            i = i - 1;
            if str_matches(&self.attrs[i].0, key) {
                proof {
                    assert(self@.attrs[i as int].0 == key@);
                    lemma_attrs_map_lookup(self@.attrs, key@, i as int);
                }
                return Some(self.attrs[i].1);
            }
            proof {
                assert(self@.attrs[i as int].0 != key@);
            }
        }
        proof {
            lemma_attrs_map_absent(self@.attrs, key@);
        }
        None
    }
}

} // verus!
