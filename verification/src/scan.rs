use vstd::prelude::*;
use vstd::string::StringSliceAdditionalSpecFns;
use rayon::iter::{IndexedParallelIterator, IntoParallelIterator, ParallelIterator};
use crate::process::{Process, spec_read};
use crate::region::MemoryRegion;
use crate::py_struct::{CPyTypeObject, CPyCustomObject, CPyDictObject, spec_cpy_type_object_at,
    spec_cpy_custom_object_at, spec_cpy_dict_object_at, CPY_TYPE_OBJECT_SIZE,
    CPY_CUSTOM_OBJECT_SIZE, CPY_DICT_OBJECT_SIZE};

verus! {

/// What a sweep of the snapshot looks for.
///
/// `TypeSelf` — self-typed type descriptors whose name reads `type` (the
/// meta-type pattern). `TypeNamed` — type descriptors whose meta-type is
/// `tp_addr` and whose name starts with `name`. `UiRootCand` — objects of
/// type `tp_addr` whose attribute pointer leads to a well-formed dict.
pub enum ScanKind {
    TypeSelf,
    TypeNamed { tp_addr: u64, name: Vec<u8> },
    UiRootCand { tp_addr: u64 },
}

/// The mathematical model of a [`ScanKind`].
pub enum ScanQuery {
    TypeSelf,
    TypeNamed { tp_addr: u64, name: Seq<u8> },
    UiRootCand { tp_addr: u64 },
}

impl View for ScanKind {
    type V = ScanQuery;

    open spec fn view(&self) -> ScanQuery {
        match self {
            ScanKind::TypeSelf => ScanQuery::TypeSelf,
            ScanKind::TypeNamed { tp_addr, name } => ScanQuery::TypeNamed {
                tp_addr: *tp_addr,
                name: name@,
            },
            ScanKind::UiRootCand { tp_addr } => ScanQuery::UiRootCand { tp_addr: *tp_addr },
        }
    }
}

/// The size of the structural template a query reads at each candidate
/// offset.
pub open spec fn template_size(q: ScanQuery) -> int {
    match q {
        ScanQuery::TypeSelf => CPY_TYPE_OBJECT_SIZE as int,
        ScanQuery::TypeNamed { .. } => CPY_TYPE_OBJECT_SIZE as int,
        ScanQuery::UiRootCand { .. } => CPY_CUSTOM_OBJECT_SIZE as int,
    }
}

/// Whether the predicate of query `q` holds at base address `base`, reading
/// through the snapshot `rs`.
pub open spec fn spec_hit(rs: Seq<MemoryRegion>, q: ScanQuery, base: u64) -> bool {
    match q {
        ScanQuery::TypeSelf => {
            &&& spec_read(rs, base, CPY_TYPE_OBJECT_SIZE as int) is Some
            &&& {
                let th = spec_cpy_type_object_at(
                    spec_read(rs, base, CPY_TYPE_OBJECT_SIZE as int).unwrap(),
                    0,
                );
                &&& th.ob_base.ob_base.ob_type == base
                &&& spec_read(rs, th.tp_name, 4) == Some("type".spec_bytes())
            }
        },
        ScanQuery::TypeNamed { tp_addr, name } => {
            &&& spec_read(rs, base, CPY_TYPE_OBJECT_SIZE as int) is Some
            &&& {
                let th = spec_cpy_type_object_at(
                    spec_read(rs, base, CPY_TYPE_OBJECT_SIZE as int).unwrap(),
                    0,
                );
                &&& th.ob_base.ob_base.ob_type == tp_addr
                &&& spec_read(rs, th.tp_name, name.len() as int) == Some(name)
            }
        },
        ScanQuery::UiRootCand { tp_addr } => {
            &&& spec_read(rs, base, CPY_CUSTOM_OBJECT_SIZE as int) is Some
            &&& {
                let ch = spec_cpy_custom_object_at(
                    spec_read(rs, base, CPY_CUSTOM_OBJECT_SIZE as int).unwrap(),
                    0,
                );
                &&& ch.ob_base.ob_type == tp_addr
                &&& spec_read(rs, ch.attributes, CPY_DICT_OBJECT_SIZE as int) is Some
                &&& {
                    let dh = spec_cpy_dict_object_at(
                        spec_read(rs, ch.attributes, CPY_DICT_OBJECT_SIZE as int).unwrap(),
                        0,
                    );
                    &&& spec_read(rs, dh.ob_base.ob_type, CPY_TYPE_OBJECT_SIZE as int) is Some
                    &&& {
                        let th = spec_cpy_type_object_at(
                            spec_read(rs, dh.ob_base.ob_type, CPY_TYPE_OBJECT_SIZE as int).unwrap(),
                            0,
                        );
                        spec_read(rs, th.tp_name, 4) == Some("dict".spec_bytes())
                    }
                }
            }
        },
    }
}

/// How many 8-byte-aligned offsets of a region of `size` bytes can hold a
/// template of `tsize` bytes.
pub open spec fn spec_num_offsets(size: int, tsize: int) -> nat {
    if size >= tsize {
        ((size - tsize) / 8 + 1) as nat
    } else {
        0
    }
}

/// The base address of the `k`-th aligned offset of region `i`.
pub open spec fn base_at(rs: Seq<MemoryRegion>, i: int, k: int) -> u64 {
    (rs[i].start + 8 * k) as u64
}

/// The matches of query `q` among the first `n` aligned offsets of region
/// `i`, in offset order.
pub open spec fn spec_scan_region_upto(rs: Seq<MemoryRegion>, i: int, q: ScanQuery, n: nat) -> Seq<
    u64,
>
    decreases n,
{
    if n == 0 {
        Seq::empty()
    } else {
        let prev = spec_scan_region_upto(rs, i, q, (n - 1) as nat);
        if spec_hit(rs, q, base_at(rs, i, n - 1)) {
            prev.push(base_at(rs, i, n - 1))
        } else {
            prev
        }
    }
}

/// All matches of query `q` in region `i`, in offset order.
pub open spec fn spec_scan_region(rs: Seq<MemoryRegion>, i: int, q: ScanQuery) -> Seq<u64> {
    spec_scan_region_upto(rs, i, q, spec_num_offsets(rs[i].size as int, template_size(q)))
}

/// The concatenated matches of query `q` over the first `n` regions.
pub open spec fn spec_scan_all_upto(rs: Seq<MemoryRegion>, q: ScanQuery, n: nat) -> Seq<u64>
    decreases n,
{
    if n == 0 {
        Seq::empty()
    } else {
        spec_scan_all_upto(rs, q, (n - 1) as nat) + spec_scan_region(rs, (n - 1) as int, q)
    }
}

/// All matches of query `q` over the whole snapshot, region by region.
pub open spec fn spec_scan_all(rs: Seq<MemoryRegion>, q: ScanQuery) -> Seq<u64> {
    spec_scan_all_upto(rs, q, rs.len())
}

/// Compares two byte slices for equality.
pub fn bytes_eq(a: &[u8], b: &[u8]) -> (r: bool)
    ensures
        r == (a@ == b@),
{
    if a.len() != b.len() {
        assert(a@ !~= b@);
        return false;
    }
    let n = a.len();
    let mut k: usize = 0;
    while k < n
        invariant
            n == a@.len() == b@.len(),
            k <= n,
            forall|i: int| 0 <= i < k ==> a@[i] == b@[i],
        decreases n - k,
    {
        if a[k] != b[k] {
            assert(a@ !~= b@);
            return false;
        }
        k = k + 1;
    }
    proof {
        assert(a@ =~= b@);
    }
    true
}

/// Checks the predicate of `kind` at `base`, reading through the snapshot.
fn check_hit(p: &Process, base: u64, kind: &ScanKind) -> (r: bool)
    requires
        p.wf(),
    ensures
        r == spec_hit(p.regions@, kind@, base),
{
    match kind {
        ScanKind::TypeSelf => {
            let reg = match p.read_cache(base, CPY_TYPE_OBJECT_SIZE) {
                Ok(reg) => reg,
                Err(_) => {
                    return false;
                },
            };
            let th = match CPyTypeObject::read(&reg, 0) {
                Ok(th) => th,
                Err(_) => {
                    return false;
                },
            };
            if th.ob_base.ob_base.ob_type != base {
                return false;
            }
            let name_reg = match p.read_cache(th.tp_name, 4) {
                Ok(nr) => nr,
                Err(_) => {
                    return false;
                },
            };
            bytes_eq(name_reg.data.as_slice(), "type".as_bytes())
        },
        ScanKind::TypeNamed { tp_addr, name } => {
            let reg = match p.read_cache(base, CPY_TYPE_OBJECT_SIZE) {
                Ok(reg) => reg,
                Err(_) => {
                    return false;
                },
            };
            let th = match CPyTypeObject::read(&reg, 0) {
                Ok(th) => th,
                Err(_) => {
                    return false;
                },
            };
            if th.ob_base.ob_base.ob_type != *tp_addr {
                return false;
            }
            let name_reg = match p.read_cache(th.tp_name, name.len()) {
                Ok(nr) => nr,
                Err(_) => {
                    return false;
                },
            };
            bytes_eq(name_reg.data.as_slice(), name.as_slice())
        },
        ScanKind::UiRootCand { tp_addr } => {
            let reg = match p.read_cache(base, CPY_CUSTOM_OBJECT_SIZE) {
                Ok(reg) => reg,
                Err(_) => {
                    return false;
                },
            };
            let ch = match CPyCustomObject::read(&reg, 0) {
                Ok(ch) => ch,
                Err(_) => {
                    return false;
                },
            };
            if ch.ob_base.ob_type != *tp_addr {
                return false;
            }
            let dict_reg = match p.read_cache(ch.attributes, CPY_DICT_OBJECT_SIZE) {
                Ok(dr) => dr,
                Err(_) => {
                    return false;
                },
            };
            let dh = match CPyDictObject::read(&dict_reg, 0) {
                Ok(dh) => dh,
                Err(_) => {
                    return false;
                },
            };
            let type_reg = match p.read_cache(dh.ob_base.ob_type, CPY_TYPE_OBJECT_SIZE) {
                Ok(tr) => tr,
                Err(_) => {
                    return false;
                },
            };
            let th = match CPyTypeObject::read(&type_reg, 0) {
                Ok(th) => th,
                Err(_) => {
                    return false;
                },
            };
            let name_reg = match p.read_cache(th.tp_name, 4) {
                Ok(nr) => nr,
                Err(_) => {
                    return false;
                },
            };
            bytes_eq(name_reg.data.as_slice(), "dict".as_bytes())
        },
    }
}

/// The template size of `kind` as a run-time value.
fn template_size_of(kind: &ScanKind) -> (r: usize)
    ensures
        r as int == template_size(kind@),
        0 < r <= 32,
{
    match kind {
        ScanKind::TypeSelf => CPY_TYPE_OBJECT_SIZE,
        ScanKind::TypeNamed { .. } => CPY_TYPE_OBJECT_SIZE,
        ScanKind::UiRootCand { .. } => CPY_CUSTOM_OBJECT_SIZE,
    }
}

/// Sequentially scans every 8-byte-aligned offset of region `i` at which a
/// whole template fits, and collects the base addresses where the query's
/// predicate holds, in offset order.
pub fn scan_region(p: &Process, i: usize, kind: &ScanKind) -> (r: Vec<u64>)
    requires
        p.wf(),
        i < p.regions@.len(),
    ensures
        r@ == spec_scan_region(p.regions@, i as int, kind@),
{
    let tsize = template_size_of(kind);
    let size = p.regions[i].size;
    let ghost n_total = spec_num_offsets(size as int, template_size(kind@));
    let n: usize = if size >= tsize {
        (size - tsize) / 8 + 1
    } else {
        0
    };
    assert(n == n_total);
    let start = p.regions[i].start;
    let mut out: Vec<u64> = Vec::new();
    let mut k: usize = 0;
    while k < n
        invariant
            p.wf(),
            i < p.regions@.len(),
            n == spec_num_offsets(p.regions@[i as int].size as int, template_size(kind@)),
            start == p.regions@[i as int].start,
            k <= n,
            out@ == spec_scan_region_upto(p.regions@, i as int, kind@, k as nat),
        decreases n - k,
    {
        proof {
            assert(8 * (k as int) <= 8 * (n - 1) as int) by (nonlinear_arith)
                requires
                    k < n,
            ;
            assert(8 * ((n - 1) as int) <= p.regions@[i as int].size - template_size(kind@));
        }
        let off: u64 = 8 * (k as u64);
        let base: u64 = start + off;
        if check_hit(p, base, kind) {
            out.push(base);
        }
        k = k + 1;
    }
    out
}

/// Runs [`scan_region`] on every region of the snapshot in parallel and
/// returns the per-region results, indexed like the region list.
///
/// Relies on rayon's parallel iterator over `0..regions.len()`: `map`
/// applies a pure function to each index, and `collect` on an indexed
/// parallel iterator is documented to produce the results in index order,
/// so the output equals the sequential per-region scans.
#[verifier::external_body]
fn par_scan_regions(p: &Process, kind: &ScanKind) -> (r: Vec<Vec<u64>>)
    requires
        p.wf(),
    ensures
        r@.len() == p.regions@.len(),
        forall|i: int|
            0 <= i < r@.len() ==> #[trigger] r@[i]@ == spec_scan_region(p.regions@, i, kind@),
{
    (0..p.regions.len()).into_par_iter().map(|i| scan_region(p, i, kind)).collect()
}

/// Scans the whole snapshot for `kind`, in parallel over regions, and
/// returns every matching base address: region by region, in offset order
/// within a region.
pub fn scan_all(p: &Process, kind: &ScanKind) -> (r: Vec<u64>)
    requires
        p.wf(),
    ensures
        r@ == spec_scan_all(p.regions@, kind@),
{
    let parts = par_scan_regions(p, kind);
    let mut out: Vec<u64> = Vec::new();
    let n = parts.len();
    let mut i: usize = 0;
    while i < n
        invariant
            n == parts@.len(),
            n == p.regions@.len(),
            i <= n,
            forall|j: int|
                0 <= j < n ==> #[trigger] parts@[j]@ == spec_scan_region(p.regions@, j, kind@),
            out@ == spec_scan_all_upto(p.regions@, kind@, i as nat),
        decreases n - i,
    {
        out.extend_from_slice(parts[i].as_slice());
        i = i + 1;
    }
    out
}

} // verus!
