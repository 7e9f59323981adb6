use vstd::prelude::*;
use crate::error::EngineError;
use crate::region::{MemoryRegion, ProcessHandle};

verus! {

/// A bounded, advisory address-lookup cache mapping an address to a
/// `(region index, offset)` pair. It is consulted before the binary search
/// and refreshed after it, and is serialized by a mutex so that parallel
/// scan workers may share it. Its answers carry no guarantee: every hit is
/// re-validated against the region list before use, so the cache can never
/// change observable behavior.
///
/// Relies on `lru::LruCache::{new, get, put}` (a bounded LRU mapping) and
/// `std::sync::Mutex` for interior mutability. No contract is stated: the
/// cache is advisory by design.
#[verifier::external_body]
pub struct AddrCache {
    inner: std::sync::Mutex<lru::LruCache<u64, (usize, usize)>>,
}

impl AddrCache {
    /// A fresh cache bounded at 64 entries.
    ///
    /// Relies on `lru::LruCache::new`; the bound is positive, so the
    /// `NonZeroUsize` constructor cannot fail.
    #[verifier::external_body]
    pub(crate) fn new() -> (r: Self) {
        AddrCache {
            inner: std::sync::Mutex::new(
                lru::LruCache::new(std::num::NonZeroUsize::new(64).unwrap()),
            ),
        }
    }

    /// Looks `addr` up; `None` on a miss or when the lock is unavailable.
    ///
    /// Relies on `lru::LruCache::get`. The result is advisory only.
    #[verifier::external_body]
    fn get(&self, addr: u64) -> (r: Option<(usize, usize)>) {
        match self.inner.lock() {
            Ok(mut guard) => guard.get(&addr).copied(),
            Err(_) => None,
        }
    }

    /// Records `addr -> (index, offset)`, evicting the least recently used
    /// entry when full.
    ///
    /// Relies on `lru::LruCache::put`.
    #[verifier::external_body]
    fn put(&self, addr: u64, index: usize, offset: usize) {
        if let Ok(mut guard) = self.inner.lock() {
            guard.put(addr, (index, offset));
        }
    }
}

/// A target process together with the snapshot of its readable memory:
/// a region list sorted strictly ascending by start address.
pub struct Process {
    pub pid: u32,
    pub path: String,
    pub title: String,
    pub regions: Vec<MemoryRegion>,
    pub handle: ProcessHandle,
    pub lookup: AddrCache,
}

/// The regions are individually well-formed, sorted strictly ascending by
/// start address, and pairwise non-overlapping.
pub open spec fn regions_wf(rs: Seq<MemoryRegion>) -> bool {
    &&& forall|i: int| 0 <= i < rs.len() ==> (#[trigger] rs[i]).wf()
    &&& forall|i: int, j: int|
        0 <= i < j < rs.len() ==> #[trigger] rs[i].start + rs[i].size <= #[trigger] rs[j].start
            && rs[i].start < rs[j].start
}

/// True when `addr` lies in some region of `rs`.
pub open spec fn spec_is_mapped(rs: Seq<MemoryRegion>, addr: u64) -> bool {
    exists|i: int| 0 <= i < rs.len() && (#[trigger] rs[i]).contains_addr(addr)
}

/// The index of the region of `rs` containing `addr` (unique when the list
/// is well-formed and the address is mapped).
pub open spec fn spec_region_at(rs: Seq<MemoryRegion>, addr: u64) -> int {
    choose|i: int| 0 <= i < rs.len() && (#[trigger] rs[i]).contains_addr(addr)
}

/// With a well-formed region list, at most one region contains an address.
pub proof fn lemma_region_at_unique(rs: Seq<MemoryRegion>, addr: u64, i: int, j: int)
    requires
        regions_wf(rs),
        0 <= i < rs.len(),
        0 <= j < rs.len(),
        rs[i].contains_addr(addr),
        rs[j].contains_addr(addr),
    ensures
        i == j,
{
    if i < j {
        assert(rs[i].start + rs[i].size <= rs[j].start);
    } else if j < i {
        assert(rs[j].start + rs[j].size <= rs[i].start);
    }
}

/// The bytes `[addr, addr + size)` as read through the region cache:
/// `Some` exactly when `addr` is mapped and the whole range lies inside the
/// region that contains `addr`.
pub open spec fn spec_read(rs: Seq<MemoryRegion>, addr: u64, size: int) -> Option<Seq<u8>> {
    if spec_is_mapped(rs, addr) {
        let i = spec_region_at(rs, addr);
        let off = addr - rs[i].start;
        if off + size <= rs[i].size {
            Some(rs[i].data@.subrange(off, off + size))
        } else {
            None
        }
    } else {
        None
    }
}

/// A read of a prefix of a readable range is itself readable.
pub proof fn lemma_spec_read_prefix(rs: Seq<MemoryRegion>, addr: u64, size: int, smaller: int)
    requires
        regions_wf(rs),
        spec_read(rs, addr, size) is Some,
        0 <= smaller <= size,
    ensures
        spec_read(rs, addr, smaller) is Some,
        spec_read(rs, addr, smaller).unwrap() == spec_read(rs, addr, size).unwrap().subrange(
            0,
            smaller,
        ),
{
    let i = spec_region_at(rs, addr);
    let off = addr - rs[i].start;
    assert(spec_read(rs, addr, smaller).unwrap() =~= spec_read(rs, addr, size).unwrap().subrange(
        0,
        smaller,
    ));
}

impl Process {
    /// Well-formedness of the snapshot: see [`regions_wf`].
    pub open spec fn wf(self) -> bool {
        regions_wf(self.regions@)
    }

    /// Builds a process around an already-sorted snapshot.
    pub fn new(
        pid: u32,
        path: String,
        title: String,
        regions: Vec<MemoryRegion>,
        handle: ProcessHandle,
    ) -> (r: Result<Self, EngineError>)
        ensures
            match r {
                Ok(p) => {
                    &&& p.wf()
                    &&& p.pid == pid
                    &&& p.path@ == path@
                    &&& p.title@ == title@
                    &&& p.regions@ == regions@
                    &&& p.handle == handle
                },
                Err(e) => e == EngineError::InvalidAddr && !regions_wf(regions@),
            },
    {
        if !regions_are_wf(&regions) {
            return Err(EngineError::InvalidAddr);
        }
        Ok(Process { pid, path, title, regions, handle, lookup: AddrCache::new() })
    }

    /// Locates the region containing `addr`: returns its index and the
    /// offset of `addr` within it, or `NotMapped` when no region holds the
    /// address. The advisory lookup cache is consulted first and every hit
    /// is validated; the cache is refreshed on each successful search.
    pub fn get_region_from_address(&self, addr: u64) -> (r: Result<(usize, usize), EngineError>)
        requires
            self.wf(),
        ensures
            match r {
                Ok((i, off)) => {
                    &&& i < self.regions@.len()
                    &&& self.regions@[i as int].contains_addr(addr)
                    &&& off == addr - self.regions@[i as int].start
                },
                Err(e) => e == EngineError::NotMapped && !spec_is_mapped(self.regions@, addr),
            },
    {
        if let Some((i, off)) = self.lookup.get(addr) {
            // The cache is advisory: accept the hit only after checking it
            // against the region list.
            if i < self.regions.len() {
                let reg = &self.regions[i];
                if reg.start <= addr && addr - reg.start < reg.size as u64 && off as u64 == addr
                    - reg.start {
                    return Ok((i, off));
                }
            }
        }
        let mut lo: usize = 0;
        let mut hi: usize = self.regions.len();
        // Binary search for the last region whose start is <= addr.
        while lo < hi
            invariant
                self.wf(),
                lo <= hi <= self.regions@.len(),
                forall|k: int| 0 <= k < lo ==> #[trigger] self.regions@[k].start <= addr,
                forall|k: int|
                    hi <= k < self.regions@.len() ==> addr < #[trigger] self.regions@[k].start,
            decreases hi - lo,
        {
            let mid = lo + (hi - lo) / 2;
            if self.regions[mid].start <= addr {
                proof {
                    assert forall|k: int| 0 <= k < mid + 1 implies #[trigger] self.regions@[k].start
                        <= addr by {
                        if k < mid {
                            assert(self.regions@[k].start < self.regions@[mid as int].start);
                        }
                    }
                }
                lo = mid + 1;
            } else {
                proof {
                    assert forall|k: int|
                        mid <= k < self.regions@.len() implies addr
                        < #[trigger] self.regions@[k].start by {
                        if mid < k {
                            assert(self.regions@[mid as int].start < self.regions@[k].start);
                        }
                    }
                }
                hi = mid;
            }
        }
        if lo == 0 {
            // Every region starts above the address.
            assert(forall|k: int|
                0 <= k < self.regions@.len() ==> !(#[trigger] self.regions@[k]).contains_addr(
                    addr,
                ));
            return Err(EngineError::NotMapped);
        }
        let idx = lo - 1;
        let reg = &self.regions[idx];
        let off64 = addr - reg.start;
        if off64 < reg.size as u64 {
            let off = off64 as usize;
            self.lookup.put(addr, idx, off);
            Ok((idx, off))
        } else {
            proof {
                assert forall|k: int|
                    0 <= k < self.regions@.len() implies !(#[trigger] self.regions@[k]).contains_addr(
                    addr,
                ) by {
                    if k < idx {
                        assert(self.regions@[k].start + self.regions@[k].size
                            <= self.regions@[idx as int].start);
                    }
                }
            }
            Err(EngineError::NotMapped)
        }
    }

    /// An owned copy of `[addr, addr + size)` taken out of the snapshot.
    /// `NotMapped` when `addr` lies in no region; `OutOfBounds` when the
    /// range overruns the region that contains `addr`.
    pub fn read_cache(&self, addr: u64, size: usize) -> (r: Result<MemoryRegion, EngineError>)
        requires
            self.wf(),
        ensures
            match r {
                Ok(reg) => {
                    &&& spec_read(self.regions@, addr, size as int) is Some
                    &&& reg.wf()
                    &&& reg.start == addr
                    &&& reg.size == size
                    &&& reg.data@ == spec_read(self.regions@, addr, size as int).unwrap()
                    &&& reg.handle == self.regions@[spec_region_at(self.regions@, addr)].handle
                },
                Err(e) => {
                    &&& spec_read(self.regions@, addr, size as int) is None
                    &&& (e == EngineError::NotMapped || e == EngineError::OutOfBounds)
                    &&& e == EngineError::NotMapped ==> !spec_is_mapped(self.regions@, addr)
                    &&& e == EngineError::OutOfBounds ==> spec_is_mapped(self.regions@, addr)
                },
            },
    {
        match self.get_region_from_address(addr) {
            Err(e) => Err(e),
            Ok((i, off)) => {
                proof {
                    lemma_region_at_unique(
                        self.regions@,
                        addr,
                        i as int,
                        spec_region_at(self.regions@, addr),
                    );
                }
                match self.regions[i].read_bytes(off, size) {
                    Ok(reg) => Ok(reg),
                    Err(_) => Err(EngineError::OutOfBounds),
                }
            },
        }
    }
}

/// Checks at run time that a region list is well-formed.
pub fn regions_are_wf(regions: &Vec<MemoryRegion>) -> (r: bool)
    ensures
        r == regions_wf(regions@),
{
    let n = regions.len();
    let mut k: usize = 0;
    while k < n
        invariant
            n == regions@.len(),
            k <= n,
            forall|i: int| 0 <= i < k ==> (#[trigger] regions@[i]).wf(),
            forall|i: int|
                0 <= i < k && i + 1 < n ==> #[trigger] regions@[i].start + regions@[i].size
                    <= #[trigger] regions@[i + 1].start && regions@[i].start < regions@[i
                    + 1].start,
        decreases n - k,
    {
        let reg = &regions[k];
        if reg.data.len() != reg.size {
            return false;
        }
        if reg.size as u64 > u64::MAX - reg.start {
            return false;
        }
        if k + 1 < n {
            let next = &regions[k + 1];
            if !(reg.start < next.start && next.start - reg.start >= reg.size as u64) {
                proof {
                    assert(!(regions@[k as int].start + regions@[k as int].size <= regions@[k
                        + 1].start && regions@[k as int].start < regions@[k + 1].start));
                }
                return false;
            }
        }
        k = k + 1;
    }
    proof {
        assert forall|i: int, j: int|
            0 <= i < j < regions@.len() implies #[trigger] regions@[i].start + regions@[i].size
            <= #[trigger] regions@[j].start && regions@[i].start < regions@[j].start by {
            lemma_sorted_chain(regions@, i, j);
        }
    }
    true
}

/// Adjacent ordering of a region list extends to any pair of indices.
proof fn lemma_sorted_chain(rs: Seq<MemoryRegion>, i: int, j: int)
    requires
        forall|k: int|
            0 <= k < rs.len() - 1 ==> #[trigger] rs[k].start + rs[k].size <= #[trigger] rs[k
                + 1].start && rs[k].start < rs[k + 1].start,
        forall|k: int| 0 <= k < rs.len() ==> (#[trigger] rs[k]).wf(),
        0 <= i < j < rs.len(),
    ensures
        rs[i].start + rs[i].size <= rs[j].start,
        rs[i].start < rs[j].start,
    decreases j - i,
{
    if i + 1 == j {
    } else {
        lemma_sorted_chain(rs, i + 1, j);
        assert(rs[i].start + rs[i].size <= rs[i + 1].start);
    }
}


/// Whether a text matches a wildcard pattern (`*` any run, `?` any single
/// character).
///
/// Relies on `wildmatch::WildMatch`: the result is a function of the
/// pattern and the text alone.
pub uninterp spec fn wild_matches(pattern: Seq<char>, text: Seq<char>) -> bool;

/// Matches `text` against the wildcard `pattern`.
///
/// Relies on `wildmatch::WildMatch::{new, matches}`.
#[verifier::external_body]
pub(crate) fn wild_match(pattern: &str, text: &str) -> (r: bool)
    ensures
        r == wild_matches(pattern@, text@),
{
    wildmatch::WildMatch::new(pattern).matches(text)
}

/// Whether one process passes the filter: each given criterion must hold.
pub open spec fn spec_keeps(
    p: Process,
    pid: Option<u32>,
    path: Option<Seq<char>>,
    title: Option<Seq<char>>,
) -> bool {
    &&& (pid is Some ==> p.pid == pid.unwrap())
    &&& (path is Some ==> wild_matches(path.unwrap(), p.path@))
    &&& (title is Some ==> wild_matches(title.unwrap(), p.title@))
}

/// The processes among the first `n` that pass the filter, in order.
pub open spec fn spec_filter_upto(
    ps: Seq<Process>,
    pid: Option<u32>,
    path: Option<Seq<char>>,
    title: Option<Seq<char>>,
    n: int,
) -> Seq<Process>
    decreases n,
{
    if n <= 0 {
        Seq::empty()
    } else {
        let prev = spec_filter_upto(ps, pid, path, title, n - 1);
        if spec_keeps(ps[n - 1], pid, path, title) {
            prev.push(ps[n - 1])
        } else {
            prev
        }
    }
}

/// The processes that pass the filter, in their original order.
pub open spec fn spec_filter(
    ps: Seq<Process>,
    pid: Option<u32>,
    path: Option<Seq<char>>,
    title: Option<Seq<char>>,
) -> Seq<Process> {
    spec_filter_upto(ps, pid, path, title, ps.len() as int)
}

impl Process {
    /// Filters an enumerated process list by pid, wildcard path and
    /// wildcard window title; `NotFound` when nothing matches. Enumerating
    /// and snapshotting the candidates is the platform layer's task.
    pub fn list(
        procs: Vec<Process>,
        pid: Option<u32>,
        path: Option<&str>,
        title: Option<&str>,
    ) -> (r: Result<Vec<Process>, EngineError>)
        ensures
            ({
                let pathv = match path {
                    Some(s) => Some(s@),
                    None => None,
                };
                let titlev = match title {
                    Some(s) => Some(s@),
                    None => None,
                };
                let f = spec_filter(procs@, pid, pathv, titlev);
                match r {
                    Ok(v) => v@ == f && f.len() > 0,
                    Err(e) => e == EngineError::NotFound && f.len() == 0,
                }
            }),
    {
        let ghost orig = procs@;
        let ghost pathv = match path {
            Some(s) => Some(s@),
            None => None,
        };
        let ghost titlev = match title {
            Some(s) => Some(s@),
            None => None,
        };
        let mut rest = procs;
        let mut out: Vec<Process> = Vec::new();
        let mut i: usize = 0;
        let n = rest.len();
        while i < n
            invariant
                n == orig.len(),
                i <= n,
                rest@ == orig.skip(i as int),
                pathv == (match path {
                    Some(s) => Some(s@),
                    None => None,
                }),
                titlev == (match title {
                    Some(s) => Some(s@),
                    None => None,
                }),
                out@ == spec_filter_upto(orig, pid, pathv, titlev, i as int),
            decreases n - i,
        {
            let p = rest.remove(0);
            proof {
                assert(p == orig[i as int]);
                assert(rest@ =~= orig.skip(i + 1));
            }
            let mut keep = true;
            match pid {
                Some(want) => {
                    if p.pid != want {
                        keep = false;
                    }
                },
                None => {},
            }
            match path {
                Some(pat) => {
                    if !wild_match(pat, p.path.as_str()) {
                        keep = false;
                    }
                },
                None => {},
            }
            match title {
                Some(pat) => {
                    if !wild_match(pat, p.title.as_str()) {
                        keep = false;
                    }
                },
                None => {},
            }
            proof {
                assert(keep == spec_keeps(orig[i as int], pid, pathv, titlev));
            }
            if keep {
                out.push(p);
            }
            i = i + 1;
        }
        proof {
            assert(out@ == spec_filter(orig, pid, pathv, titlev));
        }
        if out.len() == 0 {
            Err(EngineError::NotFound)
        } else {
            Ok(out)
        }
    }
}

} // verus!
