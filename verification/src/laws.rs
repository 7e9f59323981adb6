use vstd::prelude::*;
use crate::region::MemoryRegion;
use crate::process::{regions_wf, spec_read, lemma_spec_read_prefix};
use crate::region::spec_u64_at;
use crate::scan::{ScanQuery, spec_hit, spec_num_offsets, base_at, spec_scan_region_upto,
    spec_scan_region, spec_scan_all_upto, spec_scan_all, template_size};
use crate::engine::{NodeModel, spec_new_node, spec_init_result, spec_first_verified,
    spec_meta_node, spec_verified, spec_kind_of, spec_tail_mult, spec_remove_all};
use crate::region::RegionModel;

verus! {

broadcast use vstd::seq_lib::group_seq_properties;

/// Helper for scanner completeness: what the first `n` offsets of one
/// region contribute. Membership is exactly "an aligned offset with a hit",
/// elements grow strictly, and all lie inside the region.
#[verifier::rlimit(80)]
proof fn lemma_scan_region_upto_props(rs: Seq<MemoryRegion>, i: int, q: ScanQuery, n: nat)
    requires
        regions_wf(rs),
        0 <= i < rs.len(),
        n <= spec_num_offsets(rs[i].size as int, template_size(q)),
    ensures
        forall|a: u64|
            #[trigger] spec_scan_region_upto(rs, i, q, n).contains(a) <==> exists|k: int|
                0 <= k < n && a == #[trigger] base_at(rs, i, k) && spec_hit(rs, q, a),
        forall|x: int, y: int|
            0 <= x < y < spec_scan_region_upto(rs, i, q, n).len()
                ==> #[trigger] spec_scan_region_upto(rs, i, q, n)[x]
                < #[trigger] spec_scan_region_upto(rs, i, q, n)[y],
        forall|a: u64|
            #[trigger] spec_scan_region_upto(rs, i, q, n).contains(a) ==> rs[i].start <= a
                < rs[i].start + rs[i].size,
    decreases n,
{
    let tsize = template_size(q);
    assert(0 < tsize <= 32);
    if n == 0 {
    } else {
        lemma_scan_region_upto_props(rs, i, q, (n - 1) as nat);
        let prev = spec_scan_region_upto(rs, i, q, (n - 1) as nat);
        let cur = spec_scan_region_upto(rs, i, q, n);
        assert(8 * (n - 1) + tsize <= rs[i].size) by {
            assert(n - 1 <= spec_num_offsets(rs[i].size as int, tsize) - 1);
            assert(8 * (n - 1) <= 8 * ((rs[i].size - tsize) / 8)) by (nonlinear_arith)
                requires
                    n - 1 <= (rs[i].size - tsize) / 8,
                    n >= 1,
            ;
            assert(8 * ((rs[i].size - tsize) / 8) <= rs[i].size - tsize) by (nonlinear_arith)
                requires
                    rs[i].size - tsize >= 0,
            ;
        }
        let newbase = base_at(rs, i, n - 1);
        assert(rs[i].start + 8 * (n - 1) <= u64::MAX);
        assert(newbase == rs[i].start + 8 * (n - 1));
        assert(rs[i].start <= newbase < rs[i].start + rs[i].size);
        assert(forall|k: int|
            0 <= k < n - 1 ==> #[trigger] base_at(rs, i, k) == rs[i].start + 8 * k && 8 * k < 8 * (
            n - 1));
        if spec_hit(rs, q, newbase) {
            assert(cur == prev.push(newbase));
            assert(forall|a: u64| cur.contains(a) <==> prev.contains(a) || a == newbase);
            assert forall|a: u64| #[trigger] cur.contains(a) implies exists|k: int|
                0 <= k < n && a == #[trigger] base_at(rs, i, k) && spec_hit(rs, q, a) by {
                if prev.contains(a) {
                    let k = choose|k: int|
                        0 <= k < n - 1 && a == #[trigger] base_at(rs, i, k) && spec_hit(rs, q, a);
                    assert(0 <= k < n && a == base_at(rs, i, k));
                } else {
                    assert(a == newbase && a == base_at(rs, i, n - 1));
                }
            }
            assert forall|a: u64| (exists|k: int|
                0 <= k < n && a == #[trigger] base_at(rs, i, k) && spec_hit(rs, q, a)) implies
                #[trigger] cur.contains(a) by {
                let k = choose|k: int|
                    0 <= k < n && a == #[trigger] base_at(rs, i, k) && spec_hit(rs, q, a);
                if k < n - 1 {
                    assert(prev.contains(a));
                    assert(cur[choose|x: int| 0 <= x < prev.len() && prev[x] == a] == a);
                } else {
                    assert(a == newbase);
                    assert(cur[cur.len() - 1] == a);
                }
            }
            assert forall|x: int, y: int| 0 <= x < y < cur.len() implies #[trigger] cur[x]
                < #[trigger] cur[y] by {
                if y < cur.len() - 1 {
                    assert(prev[x] < prev[y]);
                } else {
                    assert(cur[x] == prev[x]);
                    assert(prev.contains(prev[x]));
                    let k = choose|k: int|
                        0 <= k < n - 1 && prev[x] == #[trigger] base_at(rs, i, k) && spec_hit(
                            rs,
                            q,
                            prev[x],
                        );
                    assert(prev[x] == rs[i].start + 8 * k);
                    assert(8 * k < 8 * (n - 1)) by (nonlinear_arith)
                        requires
                            k < n - 1,
                    ;
                }
            }
        } else {
            assert(cur == prev);
            assert forall|a: u64| #[trigger] cur.contains(a) implies exists|k: int|
                0 <= k < n && a == #[trigger] base_at(rs, i, k) && spec_hit(rs, q, a) by {
                let k = choose|k: int|
                    0 <= k < n - 1 && a == #[trigger] base_at(rs, i, k) && spec_hit(rs, q, a);
                assert(0 <= k < n && a == base_at(rs, i, k));
            }
            assert forall|a: u64| (exists|k: int|
                0 <= k < n && a == #[trigger] base_at(rs, i, k) && spec_hit(rs, q, a)) implies
                #[trigger] cur.contains(a) by {
                let k = choose|k: int|
                    0 <= k < n && a == #[trigger] base_at(rs, i, k) && spec_hit(rs, q, a);
                assert(k != n - 1);
                assert(prev.contains(a));
            }
        }
    }
}

/// Helper for scanner completeness over the first `n` regions.
#[verifier::rlimit(80)]
proof fn lemma_scan_all_upto_props(rs: Seq<MemoryRegion>, q: ScanQuery, n: nat)
    requires
        regions_wf(rs),
        n <= rs.len(),
    ensures
        forall|a: u64|
            #[trigger] spec_scan_all_upto(rs, q, n).contains(a) <==> exists|i: int, k: int|
                0 <= i < n && 0 <= k < spec_num_offsets(rs[i].size as int, template_size(q)) && a
                    == #[trigger] base_at(rs, i, k) && spec_hit(rs, q, a),
        spec_scan_all_upto(rs, q, n).no_duplicates(),
        forall|a: u64|
            #[trigger] spec_scan_all_upto(rs, q, n).contains(a) ==> exists|i: int|
                0 <= i < n && rs[i].start <= a < #[trigger] rs[i].start + rs[i].size,
    decreases n,
{
    if n == 0 {
        assert(spec_scan_all_upto(rs, q, 0).no_duplicates());
    } else {
        lemma_scan_all_upto_props(rs, q, (n - 1) as nat);
        let prev = spec_scan_all_upto(rs, q, (n - 1) as nat);
        let here = spec_scan_region(rs, (n - 1) as int, q);
        let cur = spec_scan_all_upto(rs, q, n);
        assert(cur == prev + here);
        lemma_scan_region_upto_props(
            rs,
            (n - 1) as int,
            q,
            spec_num_offsets(rs[(n - 1) as int].size as int, template_size(q)),
        );
        // Membership in a concatenation.
        assert(forall|a: u64|
            #[trigger] cur.contains(a) <==> prev.contains(a) || here.contains(a));
        assert forall|a: u64| #[trigger] cur.contains(a) implies exists|i: int, k: int|
            0 <= i < n && 0 <= k < spec_num_offsets(rs[i].size as int, template_size(q)) && a
                == #[trigger] base_at(rs, i, k) && spec_hit(rs, q, a) by {
            if prev.contains(a) {
                let (i, k): (int, int) = choose|i: int, k: int|
                    0 <= i < n - 1 && 0 <= k < spec_num_offsets(
                        rs[i].size as int,
                        template_size(q),
                    ) && a == #[trigger] base_at(rs, i, k) && spec_hit(rs, q, a);
                assert(0 <= i < n && a == base_at(rs, i, k));
            } else {
                let k = choose|k: int|
                    0 <= k < spec_num_offsets(rs[(n - 1) as int].size as int, template_size(q)) && a
                        == #[trigger] base_at(rs, (n - 1) as int, k) && spec_hit(rs, q, a);
                assert(a == base_at(rs, (n - 1) as int, k));
                assert(exists|i: int, k2: int|
                    0 <= i < n && 0 <= k2 < spec_num_offsets(
                        rs[i].size as int,
                        template_size(q),
                    ) && a == #[trigger] base_at(rs, i, k2) && spec_hit(rs, q, a));
            }
        }
        assert forall|a: u64| (exists|i: int, k: int|
            0 <= i < n && 0 <= k < spec_num_offsets(rs[i].size as int, template_size(q)) && a
                == #[trigger] base_at(rs, i, k) && spec_hit(rs, q, a)) implies #[trigger] cur.contains(
            a,
        ) by {
            let (i, k): (int, int) = choose|i: int, k: int|
                0 <= i < n && 0 <= k < spec_num_offsets(rs[i].size as int, template_size(q)) && a
                    == #[trigger] base_at(rs, i, k) && spec_hit(rs, q, a);
            if i < n - 1 {
                assert(prev.contains(a));
            } else {
                assert(here.contains(a));
            }
        }
        // No duplicates: the two parts are individually duplicate-free and
        // lie in disjoint address ranges.
        assert forall|a: u64| #[trigger] prev.contains(a) implies !here.contains(a) by {
            if here.contains(a) {
                let j = choose|j: int|
                    0 <= j < n - 1 && rs[j].start <= a < #[trigger] rs[j].start + rs[j].size;
                assert(rs[j].start + rs[j].size <= rs[(n - 1) as int].start);
            }
        }
        assert(here.no_duplicates()) by {
            assert(forall|x: int, y: int|
                0 <= x < y < here.len() ==> #[trigger] here[x] < #[trigger] here[y]);
            assert forall|x: int, y: int|
                0 <= x < y < here.len() implies #[trigger] here[x] != #[trigger] here[y] by {
                assert(here[x] < here[y]);
            }
        }
        assert(cur.no_duplicates()) by {
            assert forall|x: int, y: int|
                0 <= x < y < cur.len() implies #[trigger] cur[x] != #[trigger] cur[y] by {
                if y < prev.len() {
                    assert(cur[x] == prev[x] && cur[y] == prev[y]);
                } else if x >= prev.len() {
                    assert(cur[x] == here[x - prev.len()] && cur[y] == here[y - prev.len()]);
                } else {
                    assert(cur[x] == prev[x] && cur[y] == here[y - prev.len()]);
                    assert(prev.contains(prev[x]));
                    assert(here.contains(here[y - prev.len()]));
                }
            }
        }
        assert forall|a: u64| #[trigger] cur.contains(a) implies exists|i: int|
            0 <= i < n && rs[i].start <= a < #[trigger] rs[i].start + rs[i].size by {
            if prev.contains(a) {
                let i = choose|i: int|
                    0 <= i < n - 1 && rs[i].start <= a < #[trigger] rs[i].start + rs[i].size;
                assert(0 <= i < n && rs[i].start <= a < rs[i].start + rs[i].size);
            } else {
                assert(rs[(n - 1) as int].start <= a < rs[(n - 1) as int].start + rs[(n
                    - 1) as int].size);
            }
        }
    }
}

/// Scanner completeness: over a well-formed snapshot, an address appears in
/// the scan result exactly when it is an 8-byte-aligned offset of some
/// region at which a whole template fits and the query's predicate holds —
/// and it appears exactly once (the result has no duplicates).
pub proof fn lemma_scanner_completeness(rs: Seq<MemoryRegion>, q: ScanQuery)
    requires
        regions_wf(rs),
    ensures
        forall|i: int, k: int|
            0 <= i < rs.len() && 0 <= k < spec_num_offsets(rs[i].size as int, template_size(q))
                && spec_hit(rs, q, #[trigger] base_at(rs, i, k)) ==> spec_scan_all(
                rs,
                q,
            ).contains(base_at(rs, i, k)),
        forall|a: u64|
            #[trigger] spec_scan_all(rs, q).contains(a) ==> spec_hit(rs, q, a) && exists|
                i: int,
                k: int,
            |
                0 <= i < rs.len() && 0 <= k < spec_num_offsets(
                    rs[i].size as int,
                    template_size(q),
                ) && a == #[trigger] base_at(rs, i, k),
        spec_scan_all(rs, q).no_duplicates(),
{
    lemma_scan_all_upto_props(rs, q, rs.len());
    assert forall|i: int, k: int|
        0 <= i < rs.len() && 0 <= k < spec_num_offsets(rs[i].size as int, template_size(q))
            && spec_hit(rs, q, #[trigger] base_at(rs, i, k)) implies spec_scan_all(rs, q).contains(
        base_at(rs, i, k),
    ) by {
        let a = base_at(rs, i, k);
        assert(exists|i2: int, k2: int|
            0 <= i2 < rs.len() && 0 <= k2 < spec_num_offsets(rs[i2].size as int, template_size(q))
                && a == #[trigger] base_at(rs, i2, k2) && spec_hit(rs, q, a));
    }
}


/// A found first-verified index lies in range and is verified.
proof fn lemma_first_verified_props(rs: Seq<MemoryRegion>, cands: Seq<u64>, i: int)
    requires
        spec_first_verified(rs, cands, i) is Some,
    ensures
        ({
            let v = spec_first_verified(rs, cands, i).unwrap();
            &&& i <= v < cands.len()
            &&& spec_verified(rs, cands[v])
        }),
    decreases cands.len() - i,
{
    if i < 0 || i >= cands.len() {
    } else if spec_verified(rs, cands[i]) {
    } else {
        lemma_first_verified_props(rs, cands, i + 1);
    }
}

/// Self-typed invariant: when type-root discovery succeeds with address
/// `c`, the committed object cache holds at `c` the meta-type node — its
/// type address is its own address, its name is `type` — and `py_type`
/// records `c`.
pub proof fn lemma_init_self_typed(
    rs: Seq<MemoryRegion>,
    o0: Map<u64, NodeModel>,
    g0: Map<u64, RegionModel>,
    pt0: u64,
    ur0: u64,
)
    requires
        regions_wf(rs),
        spec_init_result(rs, o0, g0, pt0, ur0).4 is Ok,
    ensures
        ({
            let res = spec_init_result(rs, o0, g0, pt0, ur0);
            let c = res.4.unwrap();
            &&& res.2 == c
            &&& res.0.contains_key(c)
            &&& res.0[c] == spec_meta_node(c)
            &&& res.0[c].ob_type == res.0[c].base_addr
            &&& res.0[c].tp_name == "type"@
        }),
{
    let res = spec_init_result(rs, o0, g0, pt0, ur0);
    let cands = spec_scan_all(rs, ScanQuery::TypeSelf);
    let vi = spec_first_verified(rs, cands, 0).unwrap();
    lemma_first_verified_props(rs, cands, 0);
    let c = cands[vi];
    assert(cands.contains(c));
    lemma_scanner_completeness(rs, ScanQuery::TypeSelf);
    assert(spec_hit(rs, ScanQuery::TypeSelf, c));
    let d32 = spec_read(rs, c, 32).unwrap();
    assert(spec_u64_at(d32, 8) == c);
    lemma_spec_read_prefix(rs, c, 32, 16);
    let d16 = spec_read(rs, c, 16).unwrap();
    assert(d16.subrange(8, 16) =~= d32.subrange(8, 16));
    assert(spec_u64_at(d16, 8) == c);
    assert(c != 0) by {
        if c == 0 {
            assert(res.4 is Err);
        }
    }
    let s1 = spec_new_node(rs, Map::empty(), g0, c);
    assert(!Map::<u64, NodeModel>::empty().contains_key(c));
    assert(s1.0 == Map::<u64, NodeModel>::empty().insert(c, spec_meta_node(c)));
    assert(s1.2 is Ok);
    let ui = spec_scan_all(
        rs,
        ScanQuery::TypeNamed { tp_addr: c, name: crate::engine::spec_uiroot_name() },
    )[0];
    let s2 = spec_new_node(rs, s1.0, s1.1, ui);
    assert(s2.2 is Ok);
    assert(s2.0.contains_key(c) && s2.0[c] == spec_meta_node(c)) by {
        if ui == 0 {
            assert(false);
        } else {
            let hdr = spec_read(rs, ui, 16);
            if hdr is None {
                assert(false);
            } else {
                let t = spec_u64_at(hdr.unwrap(), 8);
                if t == ui {
                    if s1.0.contains_key(ui) {
                        assert(s2.0 == s1.0);
                    } else {
                        assert(s2.0 == s1.0.insert(ui, spec_meta_node(ui)));
                        assert(ui != c);
                    }
                } else {
                    assert(ui != c || t == ui);
                    let stage1 = crate::engine::spec_resolve_type(rs, s1.0, s1.1, t);
                    assert(stage1.0.contains_key(c) && stage1.0[c] == spec_meta_node(c)) by {
                        if s1.0.contains_key(t) {
                        } else {
                            assert(t != c);
                        }
                    }
                    let stage2 = crate::engine::spec_evict(stage1.0, stage1.1, ui);
                    assert(stage2.0.contains_key(c) && stage2.0[c] == spec_meta_node(c)) by {
                        assert(ui != c);
                    }
                }
            }
        }
    }
}

/// Idempotence of node creation: re-creating a node right after a
/// successful creation succeeds again, leaves both caches exactly as they
/// were, and yields the same node.
pub proof fn lemma_new_node_idempotent(
    rs: Seq<MemoryRegion>,
    o: Map<u64, NodeModel>,
    g: Map<u64, RegionModel>,
    addr: u64,
)
    requires
        spec_new_node(rs, o, g, addr).2 is Ok,
    ensures
        ({
            let s1 = spec_new_node(rs, o, g, addr);
            let s2 = spec_new_node(rs, s1.0, s1.1, addr);
            &&& s2.2 is Ok
            &&& s2.0 == s1.0
            &&& s2.1 == s1.1
            &&& s2.0[addr] == s1.0[addr]
        }),
{
    let s1 = spec_new_node(rs, o, g, addr);
    let s2 = spec_new_node(rs, s1.0, s1.1, addr);
    let hdr = spec_read(rs, addr, 16).unwrap();
    let t = spec_u64_at(hdr, 8);
    if t == addr {
        if o.contains_key(addr) {
            assert(s1.0 == o && s1.1 == g);
        } else {
            assert(s1.0 == o.insert(addr, spec_meta_node(addr)));
            assert(s1.0.contains_key(addr));
            assert(s2.0 == s1.0 && s2.1 == s1.1);
        }
    } else {
        let stage1 = crate::engine::spec_resolve_type(rs, o, g, t);
        let name = stage1.2.unwrap();
        // After the first run the type descriptor is cached at `t` with the
        // same name, so the second run resolves from the cache.
        assert(s1.0.contains_key(t) && s1.0[t].tp_name == name) by {
            if o.contains_key(t) {
                assert(stage1.0 == o && stage1.2 == Ok::<Seq<char>, crate::error::EngineError>(
                    o[t].tp_name,
                ));
            }
        }
        let kind = spec_kind_of(name);
        let tail = crate::engine::spec_tail_size(rs, addr, kind).unwrap();
        let total = crate::engine::spec_header_size(kind) + tail;
        let fresh = crate::engine::spec_fresh_node(addr, t, name);
        let stage2 = crate::engine::spec_evict(stage1.0, stage1.1, addr);
        assert(s1.0 == stage2.0.insert(addr, fresh));
        assert(s1.1 == stage2.1.insert(addr, crate::engine::spec_read_region(rs, addr, total)));
        // Second run: resolve from cache, evict the fresh node (no extras),
        // and re-create it identically.
        let r1 = crate::engine::spec_resolve_type(rs, s1.0, s1.1, t);
        assert(r1.0 == s1.0 && r1.1 == s1.1 && r1.2 == Ok::<Seq<char>, crate::error::EngineError>(
            name,
        ));
        let e2 = crate::engine::spec_evict(s1.0, s1.1, addr);
        assert(s1.0[addr] == fresh);
        assert(fresh.extras == Seq::<u64>::empty());
        assert(spec_remove_all(s1.1, fresh.extras) == s1.1);
        assert(e2.0 == s1.0.remove(addr));
        assert(e2.1 == s1.1.remove(addr));
        assert(s2.0 == s1.0.remove(addr).insert(addr, fresh));
        assert(s2.1 == s1.1.remove(addr).insert(
            addr,
            crate::engine::spec_read_region(rs, addr, total),
        ));
        assert(s2.0 =~= s1.0);
        assert(s2.1 =~= s1.1);
    }
}

/// After an eviction, a fresh creation yields an unparsed node: when the
/// object at `addr` is not its own type, the node a successful creation
/// installs carries `is_parsed == false` and empty attributes and items.
pub proof fn lemma_new_node_fresh_unparsed(
    rs: Seq<MemoryRegion>,
    o: Map<u64, NodeModel>,
    g: Map<u64, RegionModel>,
    addr: u64,
)
    requires
        spec_new_node(rs, o, g, addr).2 is Ok,
        addr != 0,
        spec_read(rs, addr, 16) is Some,
        spec_u64_at(spec_read(rs, addr, 16).unwrap(), 8) != addr,
    ensures
        ({
            let s = spec_new_node(rs, o, g, addr);
            &&& s.0.contains_key(addr)
            &&& s.0[addr].is_parsed == false
            &&& s.0[addr].attrs == Seq::<(Seq<char>, u64)>::empty()
            &&& s.0[addr].items == Seq::<u64>::empty()
            &&& s.0[addr].base_addr == addr
        }),
{
}


/// When discovery is owed success: with some verified candidate, and the
/// first verified candidate and its first named-type hit at non-zero
/// addresses, `init` returns that candidate. (A candidate or hit at address
/// zero cannot be cached — zero is never a valid object address — and
/// discovery then fails instead.)
pub proof fn lemma_init_success(
    rs: Seq<MemoryRegion>,
    o0: Map<u64, NodeModel>,
    g0: Map<u64, RegionModel>,
    pt0: u64,
    ur0: u64,
)
    requires
        regions_wf(rs),
        spec_first_verified(rs, spec_scan_all(rs, ScanQuery::TypeSelf), 0) is Some,
        ({
            let cands = spec_scan_all(rs, ScanQuery::TypeSelf);
            let c = cands[spec_first_verified(rs, cands, 0).unwrap()];
            let ui = spec_scan_all(
                rs,
                ScanQuery::TypeNamed { tp_addr: c, name: crate::engine::spec_uiroot_name() },
            )[0];
            c != 0 && ui != 0
        }),
    ensures
        ({
            let res = spec_init_result(rs, o0, g0, pt0, ur0);
            let cands = spec_scan_all(rs, ScanQuery::TypeSelf);
            res.4 == Ok::<u64, crate::error::EngineError>(
                cands[spec_first_verified(rs, cands, 0).unwrap()],
            )
        }),
{
    let cands = spec_scan_all(rs, ScanQuery::TypeSelf);
    let vi = spec_first_verified(rs, cands, 0).unwrap();
    lemma_first_verified_props(rs, cands, 0);
    let c = cands[vi];
    assert(cands.contains(c));
    lemma_scanner_completeness(rs, ScanQuery::TypeSelf);
    assert(spec_hit(rs, ScanQuery::TypeSelf, c));
    let d32 = spec_read(rs, c, 32).unwrap();
    lemma_spec_read_prefix(rs, c, 32, 16);
    let d16 = spec_read(rs, c, 16).unwrap();
    assert(d16.subrange(8, 16) =~= d32.subrange(8, 16));
    assert(spec_u64_at(d16, 8) == c);
    let s1 = spec_new_node(rs, Map::empty(), g0, c);
    assert(s1.2 is Ok);
    assert(s1.0 == Map::<u64, NodeModel>::empty().insert(c, spec_meta_node(c)));
    let named = ScanQuery::TypeNamed { tp_addr: c, name: crate::engine::spec_uiroot_name() };
    let hits = spec_scan_all(rs, named);
    assert(hits.len() > 0);
    let ui = hits[0];
    assert(hits.contains(ui));
    lemma_scanner_completeness(rs, named);
    assert(spec_hit(rs, named, ui));
    let u32b = spec_read(rs, ui, 32).unwrap();
    lemma_spec_read_prefix(rs, ui, 32, 16);
    let u16b = spec_read(rs, ui, 16).unwrap();
    assert(u16b.subrange(8, 16) =~= u32b.subrange(8, 16));
    assert(spec_u64_at(u16b, 8) == c);
    let s2 = spec_new_node(rs, s1.0, s1.1, ui);
    assert(s2.2 is Ok) by {
        if c == ui {
            assert(s1.0.contains_key(ui));
        } else {
            let stage1 = crate::engine::spec_resolve_type(rs, s1.0, s1.1, c);
            assert(s1.0.contains_key(c));
            assert(stage1.2 == Ok::<Seq<char>, crate::error::EngineError>("type"@));
            assert(spec_kind_of("type"@) == crate::engine::ObjKind::Type);
            assert(spec_tail_mult(crate::engine::ObjKind::Type) == 0);
            assert(crate::engine::spec_header_size(crate::engine::ObjKind::Type) == 32);
            assert(spec_read(rs, ui, 32) is Some);
        }
    }
}

} // verus!
