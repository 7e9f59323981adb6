use vstd::prelude::*;
use vstd::string::StringSliceAdditionalSpecFns;
use vstd::slice::slice_subrange;
use crate::error::EngineError;
use crate::engine::{EVEProcess, NodeModel, PyObjectNode, utf8_lossy, lossy_string,
    spec_kind_of, kind_of, str_matches, ObjKind, spec_new_node, objs_model, regs_model,
    attrs_model};
use crate::region::{MemoryRegion, RegionModel, spec_u64_at, spec_i64_at, spec_i32_at, spec_u32_at,
    spec_u16_at, spec_i64_of, i64_from_u64};
use crate::process::spec_read;
use vstd::arithmetic::div_mod::{lemma_mul_mod_noop_left, lemma_add_mod_noop, lemma_small_mod,
    lemma_sub_mod_noop};

verus! {

/// The common gate of every decoder at `addr`: the node must exist (else
/// `InvalidAddr`), carry the expected type name, and have a cached region
/// (else `DecodeFail`).
pub open spec fn spec_decoder_gate(
    o: Map<u64, NodeModel>,
    g: Map<u64, RegionModel>,
    addr: u64,
    name: Seq<char>,
) -> Result<Seq<u8>, EngineError> {
    if !o.contains_key(addr) {
        Err(EngineError::InvalidAddr)
    } else if o[addr].tp_name != name {
        Err(EngineError::DecodeFail)
    } else if !g.contains_key(addr) {
        Err(EngineError::DecodeFail)
    } else {
        Ok(g[addr].data)
    }
}

/// What [`EVEProcess::parse_int`] returns: the sign-extended 4-byte value
/// field of an `int` header.
pub open spec fn spec_parse_int(o: Map<u64, NodeModel>, g: Map<u64, RegionModel>, addr: u64) -> Result<
    i64,
    EngineError,
> {
    match spec_decoder_gate(o, g, addr, "int"@) {
        Err(e) => Err(e),
        Ok(d) => {
            if d.len() < 20 {
                Err(EngineError::DecodeFail)
            } else {
                Ok(spec_i32_at(d, 16) as i64)
            }
        },
    }
}

/// What [`EVEProcess::parse_bool`] returns: whether the value field of a
/// `bool` header (int layout) is non-zero.
pub open spec fn spec_parse_bool(o: Map<u64, NodeModel>, g: Map<u64, RegionModel>, addr: u64) -> Result<
    bool,
    EngineError,
> {
    match spec_decoder_gate(o, g, addr, "bool"@) {
        Err(e) => Err(e),
        Ok(d) => {
            if d.len() < 20 {
                Err(EngineError::DecodeFail)
            } else {
                Ok(spec_i32_at(d, 16) != 0)
            }
        },
    }
}

/// What [`EVEProcess::parse_float`] returns: the raw IEEE-754 bits of a
/// `float` header's value field.
pub open spec fn spec_parse_float(o: Map<u64, NodeModel>, g: Map<u64, RegionModel>, addr: u64) -> Result<
    u64,
    EngineError,
> {
    match spec_decoder_gate(o, g, addr, "float"@) {
        Err(e) => Err(e),
        Ok(d) => {
            if d.len() < 24 {
                Err(EngineError::DecodeFail)
            } else {
                Ok(spec_u64_at(d, 16))
            }
        },
    }
}

/// What [`EVEProcess::parse_custom`] returns: the attribute-dictionary
/// address of a custom-object header.
pub open spec fn spec_parse_custom(o: Map<u64, NodeModel>, g: Map<u64, RegionModel>, addr: u64) -> Result<
    u64,
    EngineError,
> {
    if !o.contains_key(addr) {
        Err(EngineError::InvalidAddr)
    } else if spec_kind_of(o[addr].tp_name) != ObjKind::Custom {
        Err(EngineError::DecodeFail)
    } else if !g.contains_key(addr) {
        Err(EngineError::DecodeFail)
    } else if g[addr].data.len() < 24 {
        Err(EngineError::DecodeFail)
    } else {
        Ok(spec_u64_at(g[addr].data, 16))
    }
}

/// What [`EVEProcess::parse_str`] returns: the `ob_size` inline payload
/// bytes of a `str` header, decoded as UTF-8 with replacement.
pub open spec fn spec_parse_str(o: Map<u64, NodeModel>, g: Map<u64, RegionModel>, addr: u64) -> Result<
    Seq<char>,
    EngineError,
> {
    match spec_decoder_gate(o, g, addr, "str"@) {
        Err(e) => Err(e),
        Ok(d) => {
            if d.len() < 40 {
                Err(EngineError::DecodeFail)
            } else {
                let s = spec_i64_at(d, 16);
                if s < 0 {
                    Err(EngineError::DecodeFail)
                } else if 32 + s > d.len() {
                    Err(EngineError::DecodeFail)
                } else {
                    Ok(utf8_lossy(d.subrange(32, 32 + s)))
                }
            }
        },
    }
}

impl EVEProcess {
    /// The common run-time gate of the decoders: node, name and region.
    fn decoder_gate(&self, addr: u64, name: &str) -> (r: Result<&crate::region::MemoryRegion,
        EngineError>)
        requires
            self.cache_wf(),
        ensures
            match r {
                Ok(reg) => {
                    &&& spec_decoder_gate(self.objs(), self.regs(), addr, name@) == Ok::<
                        Seq<u8>,
                        EngineError,
                    >(reg.data@)
                    &&& reg.wf()
                    &&& self.regions@.contains_key(addr)
                    &&& reg@ == self.regs()[addr]
                },
                Err(e) => spec_decoder_gate(self.objs(), self.regs(), addr, name@) == Err::<
                    Seq<u8>,
                    EngineError,
                >(e),
            },
    {
        let node = match self.get_node(addr) {
            Some(n) => n,
            None => {
                return Err(EngineError::InvalidAddr);
            },
        };
        let expected: String = name.to_owned();
        if !node.tp_name.eq(&expected) {
            return Err(EngineError::DecodeFail);
        }
        match self.regions.get(&addr) {
            Some(reg) => {
                proof {
                    assert(self.regions@.contains_key(addr) && self.regions@[addr] == *reg);
                }
                Ok(reg)
            },
            None => Err(EngineError::DecodeFail),
        }
    }

    /// Decodes the node at `addr` as an `int`: the header's value field,
    /// sign-extended to 64 bits.
    pub fn parse_int(&self, addr: u64) -> (r: Result<i64, EngineError>)
        requires
            self.cache_wf(),
        ensures
            r == spec_parse_int(self.objs(), self.regs(), addr),
    {
        let reg = match self.decoder_gate(addr, "int") {
            Ok(reg) => reg,
            Err(e) => {
                return Err(e);
            },
        };
        match reg.i32_at(16) {
            Ok(v) => Ok(v as i64),
            Err(_) => Err(EngineError::DecodeFail),
        }
    }

    /// Decodes the node at `addr` as a `bool`: non-zero means true.
    pub fn parse_bool(&self, addr: u64) -> (r: Result<bool, EngineError>)
        requires
            self.cache_wf(),
        ensures
            r == spec_parse_bool(self.objs(), self.regs(), addr),
    {
        let reg = match self.decoder_gate(addr, "bool") {
            Ok(reg) => reg,
            Err(e) => {
                return Err(e);
            },
        };
        match reg.i32_at(16) {
            Ok(v) => Ok(v != 0),
            Err(_) => Err(EngineError::DecodeFail),
        }
    }

    /// Decodes the node at `addr` as a `float`, returning the raw IEEE-754
    /// bit pattern of its value; interpreting the bits is the caller's
    /// business, since the engine does no float arithmetic.
    pub fn parse_float(&self, addr: u64) -> (r: Result<u64, EngineError>)
        requires
            self.cache_wf(),
        ensures
            r == spec_parse_float(self.objs(), self.regs(), addr),
    {
        let reg = match self.decoder_gate(addr, "float") {
            Ok(reg) => reg,
            Err(e) => {
                return Err(e);
            },
        };
        match reg.u64_at(16) {
            Ok(v) => Ok(v),
            Err(_) => Err(EngineError::DecodeFail),
        }
    }

    /// Validates the node at `addr` as `NoneType`; there is nothing to
    /// decode.
    #[allow(non_snake_case)]
    pub fn parse_NoneType(&self, addr: u64) -> (r: Result<(), EngineError>)
        requires
            self.cache_wf(),
        ensures
            ({
                let gate = spec_decoder_gate(self.objs(), self.regs(), addr, "NoneType"@);
                match r {
                    Ok(()) => gate is Ok,
                    Err(e) => gate == Err::<Seq<u8>, EngineError>(e),
                }
            }),
    {
        match self.decoder_gate(addr, "NoneType") {
            Ok(_) => Ok(()),
            Err(e) => Err(e),
        }
    }

    /// Decodes the node at `addr` as a custom object: the address of its
    /// attribute dictionary.
    pub fn parse_custom(&self, addr: u64) -> (r: Result<u64, EngineError>)
        requires
            self.cache_wf(),
        ensures
            r == spec_parse_custom(self.objs(), self.regs(), addr),
    {
        let node = match self.get_node(addr) {
            Some(n) => n,
            None => {
                return Err(EngineError::InvalidAddr);
            },
        };
        if !matches!(kind_of(&node.tp_name), ObjKind::Custom) {
            return Err(EngineError::DecodeFail);
        }
        let reg = match self.regions.get(&addr) {
            Some(reg) => reg,
            None => {
                return Err(EngineError::DecodeFail);
            },
        };
        proof {
            assert(self.regions@.contains_key(addr) && self.regions@[addr] == *reg);
        }
        match reg.u64_at(16) {
            Ok(v) => Ok(v),
            Err(_) => Err(EngineError::DecodeFail),
        }
    }

    /// Decodes the node at `addr` as a `str`: `ob_size` bytes of inline
    /// payload, as UTF-8 with replacement.
    pub fn parse_str(&self, addr: u64) -> (r: Result<String, EngineError>)
        requires
            self.cache_wf(),
        ensures
            match r {
                Ok(v) => spec_parse_str(self.objs(), self.regs(), addr) == Ok::<
                    Seq<char>,
                    EngineError,
                >(v@),
                Err(e) => spec_parse_str(self.objs(), self.regs(), addr) == Err::<
                    Seq<char>,
                    EngineError,
                >(e),
            },
    {
        let reg = match self.decoder_gate(addr, "str") {
            Ok(reg) => reg,
            Err(e) => {
                return Err(e);
            },
        };
        if reg.size < 40 {
            return Err(EngineError::DecodeFail);
        }
        let s = match reg.i64_at(16) {
            Ok(v) => v,
            Err(_) => {
                return Err(EngineError::DecodeFail);
            },
        };
        if s < 0 {
            return Err(EngineError::DecodeFail);
        }
        if (s as u64) > (reg.size - 32) as u64 {
            return Err(EngineError::DecodeFail);
        }
        let len = s as usize;
        let bytes = slice_subrange(reg.data.as_slice(), 32, 32 + len);
        Ok(lossy_string(bytes))
    }
}


/// The result of decoding 16-bit units as UTF-16, replacing invalid
/// sequences.
///
/// Relies on `String::from_utf16_lossy`: the result is a function of the
/// units alone.
pub uninterp spec fn utf16_lossy(units: Seq<u16>) -> Seq<char>;

/// Decodes 16-bit units as UTF-16, replacing invalid sequences with the
/// replacement character.
///
/// Relies on `String::from_utf16_lossy`.
#[verifier::external_body]
pub(crate) fn utf16_string(units: &[u16]) -> (r: String)
    ensures
        r@ == utf16_lossy(units@),
{
    String::from_utf16_lossy(units)
}

/// The value of the base-2^30 digit string `d[24 + 4k ..]` of `n - k`
/// digits, least significant first: the sum of `digit_i * 2^(30 * (i - k))`
/// over `k <= i < n`.
pub open spec fn spec_long_horner(d: Seq<u8>, k: int, n: int) -> int
    decreases n - k,
{
    if k >= n {
        0
    } else {
        spec_long_horner(d, k + 1, n) * 0x4000_0000 + spec_u32_at(d, 24 + 4 * k)
    }
}

/// Reduction of an unbounded integer into the `i64` range by taking the
/// low 64 bits, two's complement.
pub open spec fn wrap_i64(v: int) -> int {
    let m = v % 0x1_0000_0000_0000_0000;
    if m >= 0x8000_0000_0000_0000 {
        m - 0x1_0000_0000_0000_0000
    } else {
        m
    }
}

/// On values that fit in an `i64`, the wrap is the identity: the decoded
/// long equals the exact signed digit sum whenever that sum is in range.
pub proof fn lemma_wrap_i64_identity(v: int)
    requires
        -0x8000_0000_0000_0000 <= v < 0x8000_0000_0000_0000,
    ensures
        wrap_i64(v) == v,
{
    let m = 0x1_0000_0000_0000_0000;
    if v >= 0 {
        lemma_small_mod(v as nat, m as nat);
    } else {
        assert(v % m == v + m) by {
            lemma_add_mod_noop(v, m, m);
            lemma_small_mod((v + m) as nat, m as nat);
            assert(m % m == 0) by {
                lemma_small_mod(0nat, m as nat);
                assert((m - m) % m == 0);
            }
        }
    }
}

/// What [`EVEProcess::parse_long`] returns: the signed digit sum of the
/// `long` at `addr`, reduced to 64 bits ([`wrap_i64`]) — overflow is not
/// detected.
pub open spec fn spec_parse_long(o: Map<u64, NodeModel>, g: Map<u64, RegionModel>, addr: u64) -> Result<
    int,
    EngineError,
> {
    match spec_decoder_gate(o, g, addr, "long"@) {
        Err(e) => Err(e),
        Ok(d) => {
            if d.len() < 32 {
                Err(EngineError::DecodeFail)
            } else {
                let s = spec_i64_at(d, 16);
                let n = if s < 0 {
                    -s
                } else {
                    s
                };
                if 24 + 4 * n > d.len() {
                    Err(EngineError::DecodeFail)
                } else {
                    let sum = spec_long_horner(d, 0, n);
                    Ok(wrap_i64(if s < 0 { -sum } else { sum }))
                }
            }
        },
    }
}

/// The `n` 16-bit little-endian units stored in `wd`.
pub open spec fn spec_u16s(wd: Seq<u8>, n: int) -> Seq<u16> {
    Seq::new(n as nat, |i: int| spec_u16_at(wd, 2 * i))
}

/// What [`EVEProcess::parse_unicode`] returns: `length` 2-byte units
/// fetched from behind the `wstr` pointer, decoded as UTF-16 with
/// replacement.
pub open spec fn spec_parse_unicode(
    rs: Seq<MemoryRegion>,
    o: Map<u64, NodeModel>,
    g: Map<u64, RegionModel>,
    addr: u64,
) -> Result<Seq<char>, EngineError> {
    match spec_decoder_gate(o, g, addr, "unicode"@) {
        Err(e) => Err(e),
        Ok(d) => {
            if d.len() < 48 {
                Err(EngineError::DecodeFail)
            } else {
                let len = spec_i64_at(d, 16);
                let wptr = spec_u64_at(d, 24);
                if len < 0 {
                    Err(EngineError::DecodeFail)
                } else if 2 * len > usize::MAX {
                    Err(EngineError::DecodeFail)
                } else {
                    match spec_read(rs, wptr, 2 * len) {
                        Option::None => Err(EngineError::DecodeFail),
                        Option::Some(wd) => Ok(utf16_lossy(spec_u16s(wd, len))),
                    }
                }
            }
        },
    }
}

/// The `n` inline item addresses of a list or tuple body in `d`.
pub open spec fn spec_list_items(d: Seq<u8>, n: int) -> Seq<u64> {
    Seq::new(n as nat, |i: int| spec_u64_at(d, 24 + 8 * i))
}

/// What [`EVEProcess::parse_list`] returns and how it updates the node:
/// the `ob_size` inline item addresses, recorded as the node's `items`
/// with `is_parsed` set.
pub open spec fn spec_parse_list(o: Map<u64, NodeModel>, g: Map<u64, RegionModel>, addr: u64) -> (
    Map<u64, NodeModel>,
    Result<Seq<u64>, EngineError>,
) {
    match spec_decoder_gate(o, g, addr, "list"@) {
        Err(e) => (o, Err(e)),
        Ok(d) => {
            if d.len() < 40 {
                (o, Err(EngineError::DecodeFail))
            } else {
                let s = spec_i64_at(d, 16);
                if s < 0 {
                    (o, Err(EngineError::DecodeFail))
                } else if 24 + 8 * s > d.len() {
                    (o, Err(EngineError::DecodeFail))
                } else {
                    let items = spec_list_items(d, s);
                    (
                        o.insert(addr, NodeModel { items, is_parsed: true, ..o[addr] }),
                        Ok(items),
                    )
                }
            }
        },
    }
}

impl EVEProcess {
    /// Decodes the node at `addr` as a `long`: `|ob_size|` 30-bit digits in
    /// 4-byte lanes, summed as `sgn(ob_size) * sum(digit_i * 2^(30 i))` and
    /// reduced to 64 bits; overflow is not detected.
    pub fn parse_long(&self, addr: u64) -> (r: Result<i64, EngineError>)
        requires
            self.cache_wf(),
        ensures
            match r {
                Ok(v) => spec_parse_long(self.objs(), self.regs(), addr) == Ok::<
                    int,
                    EngineError,
                >(v as int),
                Err(e) => spec_parse_long(self.objs(), self.regs(), addr) == Err::<
                    int,
                    EngineError,
                >(e),
            },
    {
        let m: u64 = 0xFFFF_FFFF_FFFF_FFFF;
        let reg = match self.decoder_gate(addr, "long") {
            Ok(reg) => reg,
            Err(e) => {
                return Err(e);
            },
        };
        if reg.size < 32 {
            return Err(EngineError::DecodeFail);
        }
        let s = match reg.i64_at(16) {
            Ok(v) => v,
            Err(_) => {
                return Err(EngineError::DecodeFail);
            },
        };
        let mag: u64 = if s < 0 {
            if s == i64::MIN {
                0x8000_0000_0000_0000u64
            } else {
                (-s) as u64
            }
        } else {
            s as u64
        };
        if mag > ((reg.size - 24) / 4) as u64 {
            return Err(EngineError::DecodeFail);
        }
        let n = mag as usize;
        let ghost d = reg.data@;
        let ghost modulus: int = 0x1_0000_0000_0000_0000;
        let mut acc: u64 = 0;
        let mut k: usize = n;
        while k > 0
            invariant
                reg.wf(),
                d == reg.data@,
                n <= (reg.size - 24) / 4,
                reg.size == d.len(),
                k <= n,
                modulus == 0x1_0000_0000_0000_0000,
                acc as int == spec_long_horner(d, k as int, n as int) % modulus,
            decreases k,
        {
            proof {
                assert(4 * (k - 1) <= 4 * ((n - 1) as int)) by (nonlinear_arith)
                    requires
                        0 < k <= n,
                ;
                assert(4 * ((n - 1) as int) + 4 <= 4 * (n as int)) by (nonlinear_arith);
                assert(4 * (n as int) <= reg.size - 24) by (nonlinear_arith)
                    requires
                        n <= (reg.size - 24) / 4,
                ;
            }
            let digit = match reg.u32_at(24 + 4 * (k - 1)) {
                Ok(v) => v,
                Err(_) => {
                    proof {
                        assert(false);
                    }
                    return Err(EngineError::DecodeFail);
                },
            };
            let ghost h_next = spec_long_horner(d, k as int, n as int);
            let ghost h_here = spec_long_horner(d, k - 1, n as int);
            let shifted = acc.wrapping_mul(0x4000_0000);
            let next = shifted.wrapping_add(digit as u64);
            proof {
                assert(h_here == h_next * 0x4000_0000 + digit);
                lemma_mul_mod_noop_left(h_next, 0x4000_0000, modulus);
                assert(shifted as int == (h_next * 0x4000_0000) % modulus);
                lemma_add_mod_noop(h_next * 0x4000_0000, digit as int, modulus);
                lemma_small_mod(digit as nat, modulus as nat);
                assert((shifted as int + digit as int) % modulus == h_here % modulus);
                assert(next as int == (shifted as int + digit as int) % modulus) by {
                    if shifted as int + digit as int > u64::MAX {
                        lemma_add_mod_noop(shifted as int, digit as int, modulus);
                        lemma_small_mod((shifted as int + digit as int - modulus) as nat,
                            modulus as nat);
                        assert((shifted as int + digit as int) % modulus == (shifted as int
                            + digit as int - modulus) % modulus) by {
                            lemma_sub_mod_noop(shifted as int + digit as int, modulus, modulus);
                            lemma_small_mod(0nat, modulus as nat);
                        }
                    } else {
                        lemma_small_mod((shifted as int + digit as int) as nat, modulus as nat);
                    }
                }
            }
            acc = next;
            k = k - 1;
        }
        let ghost h = spec_long_horner(d, 0, n as int);
        let r_u: u64 = if s < 0 {
            0u64.wrapping_sub(acc)
        } else {
            acc
        };
        proof {
            if s < 0 {
                lemma_sub_mod_noop(0, h, modulus);
                lemma_small_mod(0nat, modulus as nat);
                assert((0 - acc as int) % modulus == (0 - h) % modulus);
                if acc == 0 {
                    lemma_small_mod(0nat, modulus as nat);
                    assert(r_u as int == (0 - acc as int) % modulus);
                } else {
                    assert(r_u as int == modulus - acc);
                    assert((0 - acc as int) % modulus == modulus - acc) by {
                        lemma_add_mod_noop(0 - acc as int, modulus, modulus);
                        lemma_small_mod((modulus - acc) as nat, modulus as nat);
                        lemma_small_mod(0nat, modulus as nat);
                    }
                }
                assert(r_u as int == (-h) % modulus);
            }
            assert(spec_i64_of(r_u) == wrap_i64(if s < 0 { -h } else { h }));
        }
        Ok(i64_from_u64(r_u))
    }

    /// Decodes the node at `addr` as a `unicode` string: `length` 2-byte
    /// units fetched from behind the header's string pointer, as UTF-16
    /// with replacement.
    pub fn parse_unicode(&self, addr: u64) -> (r: Result<String, EngineError>)
        requires
            self.wf(),
            self.cache_wf(),
        ensures
            match r {
                Ok(v) => spec_parse_unicode(
                    self.process.regions@,
                    self.objs(),
                    self.regs(),
                    addr,
                ) == Ok::<Seq<char>, EngineError>(v@),
                Err(e) => spec_parse_unicode(
                    self.process.regions@,
                    self.objs(),
                    self.regs(),
                    addr,
                ) == Err::<Seq<char>, EngineError>(e),
            },
    {
        let reg = match self.decoder_gate(addr, "unicode") {
            Ok(reg) => reg,
            Err(e) => {
                return Err(e);
            },
        };
        if reg.size < 48 {
            return Err(EngineError::DecodeFail);
        }
        let len = match reg.i64_at(16) {
            Ok(v) => v,
            Err(_) => {
                return Err(EngineError::DecodeFail);
            },
        };
        let wptr = match reg.u64_at(24) {
            Ok(v) => v,
            Err(_) => {
                return Err(EngineError::DecodeFail);
            },
        };
        if len < 0 {
            return Err(EngineError::DecodeFail);
        }
        if (len as u64) > (usize::MAX / 2) as u64 {
            return Err(EngineError::DecodeFail);
        }
        let byte_len = (len as usize) * 2;
        let wreg = match self.process.read_cache(wptr, byte_len) {
            Ok(rg) => rg,
            Err(_) => {
                return Err(EngineError::DecodeFail);
            },
        };
        let count = len as usize;
        let mut units: Vec<u16> = Vec::new();
        let mut i: usize = 0;
        while i < count
            invariant
                wreg.wf(),
                wreg.size == 2 * count,
                i <= count,
                units@.len() == i,
                forall|j: int| 0 <= j < i ==> units@[j] == spec_u16_at(wreg.data@, 2 * j),
            decreases count - i,
        {
            proof {
                assert(2 * (i as int) + 2 <= 2 * (count as int)) by (nonlinear_arith)
                    requires
                        i < count,
                ;
            }
            let u = match wreg.u16_at(2 * i) {
                Ok(v) => v,
                Err(_) => {
                    proof {
                        assert(false);
                    }
                    return Err(EngineError::DecodeFail);
                },
            };
            units.push(u);
            i = i + 1;
        }
        proof {
            assert(units@ =~= spec_u16s(wreg.data@, len as int));
        }
        Ok(utf16_string(units.as_slice()))
    }

    /// Decodes the node at `addr` as a `list`: the inline item-pointer
    /// array of `ob_size` addresses. The node's `items` are set and the
    /// node is marked parsed; the pointed objects are not materialized.
    pub fn parse_list(&mut self, addr: u64) -> (r: Result<Vec<u64>, EngineError>)
        requires
            old(self).cache_wf(),
        ensures
            final(self).process == old(self).process,
            final(self).py_type == old(self).py_type,
            final(self).ui_root == old(self).ui_root,
            final(self).regs() == old(self).regs(),
            final(self).cache_wf(),
            ({
                let step = spec_parse_list(old(self).objs(), old(self).regs(), addr);
                &&& final(self).objs() == step.0
                &&& match (r, step.1) {
                    (Ok(v), Ok(items)) => v@ == items,
                    (Err(e), Err(e2)) => e == e2,
                    _ => false,
                }
            }),
    {
        let ghost o0 = self.objs();
        let (count, items) = {
            let reg = match self.decoder_gate(addr, "list") {
                Ok(reg) => reg,
                Err(e) => {
                    return Err(e);
                },
            };
            if reg.size < 40 {
                return Err(EngineError::DecodeFail);
            }
            let s = match reg.i64_at(16) {
                Ok(v) => v,
                Err(_) => {
                    return Err(EngineError::DecodeFail);
                },
            };
            if s < 0 {
                return Err(EngineError::DecodeFail);
            }
            if (s as u64) > ((reg.size - 24) / 8) as u64 {
                return Err(EngineError::DecodeFail);
            }
            let count = s as usize;
            let mut items: Vec<u64> = Vec::new();
            let mut i: usize = 0;
            while i < count
                invariant
                    reg.wf(),
                    count <= (reg.size - 24) / 8,
                    i <= count,
                    items@.len() == i,
                    forall|j: int| 0 <= j < i ==> items@[j] == spec_u64_at(reg.data@, 24 + 8 * j),
                decreases count - i,
            {
                proof {
                    assert(24 + 8 * (i as int) + 8 <= 24 + 8 * (count as int)) by (nonlinear_arith)
                        requires
                            i < count,
                    ;
                    assert(24 + 8 * (count as int) <= reg.size) by (nonlinear_arith)
                        requires
                            count <= (reg.size - 24) / 8,
                    ;
                }
                let v = match reg.u64_at(24 + 8 * i) {
                    Ok(v) => v,
                    Err(_) => {
                        proof {
                            assert(false);
                        }
                        return Err(EngineError::DecodeFail);
                    },
                };
                items.push(v);
                i = i + 1;
            }
            proof {
                assert(items@ =~= spec_list_items(reg.data@, s as int));
            }
            (count, items)
        };
        let node = match self.objects.remove(&addr) {
            Some(n) => n,
            None => {
                proof {
                    assert(false);
                }
                return Err(EngineError::DecodeFail);
            },
        };
        let mut out: Vec<u64> = Vec::new();
        out.extend_from_slice(items.as_slice());
        let updated = PyObjectNode {
            base_addr: node.base_addr,
            ob_type: node.ob_type,
            tp_name: node.tp_name,
            kind: node.kind,
            attrs: node.attrs,
            items,
            extras: node.extras,
            is_parsed: true,
        };
        proof {
            assert(updated@ =~= NodeModel {
                items: updated.items@,
                is_parsed: true,
                ..o0[addr]
            });
        }
        self.objects.insert(addr, updated);
        proof {
            assert(self.objs() =~= o0.insert(
                addr,
                NodeModel { items: spec_parse_list(o0, old(self).regs(), addr).1.unwrap(), is_parsed: true, ..o0[addr] },
            ));
            assert(self.regs() =~= old(self).regs());
        }
        Ok(out)
    }
}


/// One pass of the dict decoder over the first `upto` slots of the entry
/// table at `table`: per occupied slot, a node is created for the key, and
/// when the key is a narrow or wide string it decodes to an attribute pair.
/// Unreadable entries, sentinel slots, and undecodable keys are skipped;
/// node creation may still have cached a type descriptor before failing,
/// which the carried maps record.
pub open spec fn spec_dict_fold(
    rs: Seq<MemoryRegion>,
    o: Map<u64, NodeModel>,
    g: Map<u64, RegionModel>,
    table: u64,
    upto: int,
) -> (Map<u64, NodeModel>, Map<u64, RegionModel>, Seq<(Seq<char>, u64)>)
    decreases upto,
{
    if upto <= 0 {
        (o, g, Seq::empty())
    } else {
        let prev = spec_dict_fold(rs, o, g, table, upto - 1);
        let ea_int = table + 24 * (upto - 1);
        if ea_int > u64::MAX {
            prev
        } else {
            let ea = ea_int as u64;
            match spec_read(rs, ea, 24) {
                Option::None => prev,
                Option::Some(ed) => {
                    let key_addr = spec_u64_at(ed, 8);
                    let val_addr = spec_u64_at(ed, 16);
                    if key_addr == 0 || val_addr == 0 {
                        prev
                    } else {
                        let s = spec_new_node(rs, prev.0, prev.1, key_addr);
                        match s.2 {
                            Err(e) => (s.0, s.1, prev.2),
                            Ok(u) => {
                                let kname = s.0[key_addr].tp_name;
                                if kname == "str"@ {
                                    match spec_parse_str(s.0, s.1, key_addr) {
                                        Ok(kstr) => (s.0, s.1, prev.2.push((kstr, val_addr))),
                                        Err(e) => (s.0, s.1, prev.2),
                                    }
                                } else if kname == "unicode"@ {
                                    match spec_parse_unicode(rs, s.0, s.1, key_addr) {
                                        Ok(kstr) => (s.0, s.1, prev.2.push((kstr, val_addr))),
                                        Err(e) => (s.0, s.1, prev.2),
                                    }
                                } else {
                                    (s.0, s.1, prev.2)
                                }
                            },
                        }
                    }
                },
            }
        }
    }
}

/// The full effect of [`EVEProcess::parse_dict`]: every slot in
/// `[0, ma_mask]` is visited ([`spec_dict_fold`]), and on success the dict
/// node's `attrs` hold the collected pairs with `is_parsed` set.
pub open spec fn spec_parse_dict(
    rs: Seq<MemoryRegion>,
    o: Map<u64, NodeModel>,
    g: Map<u64, RegionModel>,
    addr: u64,
) -> (Map<u64, NodeModel>, Map<u64, RegionModel>, Result<(), EngineError>) {
    match spec_decoder_gate(o, g, addr, "dict"@) {
        Err(e) => (o, g, Err(e)),
        Ok(d) => {
            if d.len() < 248 {
                (o, g, Err(EngineError::DecodeFail))
            } else {
                let mask = spec_i64_at(d, 32);
                let table = spec_u64_at(d, 40);
                let slots = if mask < 0 {
                    0
                } else {
                    mask + 1
                };
                let f = spec_dict_fold(rs, o, g, table, slots);
                if f.0.contains_key(addr) {
                    (
                        f.0.insert(addr, NodeModel { attrs: f.2, is_parsed: true, ..f.0[addr] }),
                        f.1,
                        Ok(()),
                    )
                } else {
                    (f.0, f.1, Ok(()))
                }
            }
        },
    }
}


/// A successful node creation leaves a node cached at the address.
pub proof fn lemma_new_node_ok_contains(
    rs: Seq<MemoryRegion>,
    o: Map<u64, NodeModel>,
    g: Map<u64, RegionModel>,
    addr: u64,
)
    ensures
        spec_new_node(rs, o, g, addr).2 is Ok ==> spec_new_node(rs, o, g, addr).0.contains_key(
            addr,
        ),
{
}

impl EVEProcess {
    /// Decodes the node at `addr` as a `dict`. Every slot `i` in
    /// `[0, ma_mask]` of the open-addressed table behind `ma_table` is
    /// visited; a slot is occupied when both `me_key` and `me_value` are
    /// non-zero. For each occupied slot a node is created for the key and,
    /// when the key is a `str` or `unicode`, the decoded key and the value
    /// address are appended to the node's `attrs`; all other slots and
    /// failures are skipped. The node is then marked parsed.
    pub fn parse_dict(&mut self, addr: u64) -> (r: Result<(), EngineError>)
        requires
            old(self).wf(),
            old(self).cache_wf(),
        ensures
            final(self).process == old(self).process,
            final(self).py_type == old(self).py_type,
            final(self).ui_root == old(self).ui_root,
            final(self).cache_wf(),
            ({
                let step = spec_parse_dict(
                    old(self).process.regions@,
                    old(self).objs(),
                    old(self).regs(),
                    addr,
                );
                &&& final(self).objs() == step.0
                &&& final(self).regs() == step.1
                &&& r == step.2
            }),
    {
        let ghost rs = self.process.regions@;
        let ghost o0 = self.objs();
        let ghost g0 = self.regs();
        let (mask, table) = {
            let reg = match self.decoder_gate(addr, "dict") {
                Ok(reg) => reg,
                Err(e) => {
                    return Err(e);
                },
            };
            if reg.size < 248 {
                return Err(EngineError::DecodeFail);
            }
            let mask = match reg.i64_at(32) {
                Ok(v) => v,
                Err(_) => {
                    proof {
                        assert(false);
                    }
                    return Err(EngineError::DecodeFail);
                },
            };
            let table = match reg.u64_at(40) {
                Ok(v) => v,
                Err(_) => {
                    proof {
                        assert(false);
                    }
                    return Err(EngineError::DecodeFail);
                },
            };
            (mask, table)
        };
        let slots: u64 = if mask < 0 {
            0
        } else {
            (mask as u64) + 1
        };
        let mut attrs: Vec<(String, u64)> = Vec::new();
        let mut i: u64 = 0;
        while i < slots
            invariant
                self.wf(),
                self.cache_wf(),
                self.process == old(self).process,
                self.py_type == old(self).py_type,
                self.ui_root == old(self).ui_root,
                rs == self.process.regions@,
                o0 == objs_model(old(self).objects@),
                g0 == regs_model(old(self).regions@),
                i <= slots,
                ({
                    let f = spec_dict_fold(rs, o0, g0, table, i as int);
                    &&& self.objs() == f.0
                    &&& self.regs() == f.1
                    &&& attrs_model(attrs@) == f.2
                }),
            decreases slots - i,
        {
            let ghost fprev = spec_dict_fold(rs, o0, g0, table, i as int);
            let ea128: u128 = (table as u128) + 24u128 * (i as u128);
            if ea128 <= u64::MAX as u128 {
                let ea = ea128 as u64;
                match self.process.read_cache(ea, 24) {
                    Err(_) => {},
                    Ok(ereg) => {
                        let key_addr = match ereg.u64_at(8) {
                            Ok(v) => v,
                            Err(_) => {
                                proof {
                                    assert(false);
                                }
                                return Err(EngineError::DecodeFail);
                            },
                        };
                        let val_addr = match ereg.u64_at(16) {
                            Ok(v) => v,
                            Err(_) => {
                                proof {
                                    assert(false);
                                }
                                return Err(EngineError::DecodeFail);
                            },
                        };
                        if key_addr != 0 && val_addr != 0 {
                            match self.new_node(key_addr) {
                                Err(_) => {},
                                Ok(u) => {
                                    proof {
                                        lemma_new_node_ok_contains(rs, fprev.0, fprev.1, key_addr);
                                    }
                                    let is_str: bool;
                                    let is_uni: bool;
                                    {
                                        let knode = match self.get_node(key_addr) {
                                            Some(n) => n,
                                            None => {
                                                proof {
                                                    assert(false);
                                                }
                                                return Err(EngineError::DecodeFail);
                                            },
                                        };
                                        is_str = str_matches(&knode.tp_name, "str");
                                        is_uni = str_matches(&knode.tp_name, "unicode");
                                    }
                                    if is_str {
                                        match self.parse_str(key_addr) {
                                            Ok(kstr) => {
                                                let ghost before = attrs_model(attrs@);
                                                attrs.push((kstr, val_addr));
                                                proof {
                                                    assert(attrs_model(attrs@) =~= before.push(
                                                        (attrs@.last().0@, val_addr),
                                                    ));
                                                }
                                            },
                                            Err(_) => {},
                                        }
                                    } else if is_uni {
                                        match self.parse_unicode(key_addr) {
                                            Ok(kstr) => {
                                                let ghost before = attrs_model(attrs@);
                                                attrs.push((kstr, val_addr));
                                                proof {
                                                    assert(attrs_model(attrs@) =~= before.push(
                                                        (attrs@.last().0@, val_addr),
                                                    ));
                                                }
                                            },
                                            Err(_) => {},
                                        }
                                    }
                                },
                            }
                        }
                    },
                }
            }
            i = i + 1;
        }
        let ghost f = spec_dict_fold(rs, o0, g0, table, slots as int);
        let ghost before_objs = self.objs();
        match self.objects.remove(&addr) {
            None => {
                proof {
                    assert(self.objs() =~= before_objs);
                }
            },
            Some(node) => {
                let updated = PyObjectNode {
                    base_addr: node.base_addr,
                    ob_type: node.ob_type,
                    tp_name: node.tp_name,
                    kind: node.kind,
                    attrs,
                    items: node.items,
                    extras: node.extras,
                    is_parsed: true,
                };
                proof {
                    assert(updated@ =~= NodeModel {
                        attrs: f.2,
                        is_parsed: true,
                        ..before_objs[addr]
                    });
                }
                self.objects.insert(addr, updated);
                proof {
                    assert(self.objs() =~= before_objs.insert(
                        addr,
                        NodeModel { attrs: f.2, is_parsed: true, ..before_objs[addr] },
                    ));
                }
            },
        }
        Ok(())
    }
}


/// The effect of [`EVEProcess::parse_node`]: dispatch on the node's type
/// name through the closed decode table. Value decoders leave the caches
/// unchanged; `list` and `dict` update the node they decode.
pub open spec fn spec_parse_node(
    rs: Seq<MemoryRegion>,
    o: Map<u64, NodeModel>,
    g: Map<u64, RegionModel>,
    addr: u64,
) -> (Map<u64, NodeModel>, Map<u64, RegionModel>, Result<(), EngineError>) {
    if !o.contains_key(addr) {
        (o, g, Err(EngineError::InvalidAddr))
    } else {
        match spec_kind_of(o[addr].tp_name) {
            ObjKind::Dict => spec_parse_dict(rs, o, g, addr),
            ObjKind::List => {
                let st = spec_parse_list(o, g, addr);
                (
                    st.0,
                    g,
                    match st.1 {
                        Ok(items) => Ok(()),
                        Err(e) => Err(e),
                    },
                )
            },
            ObjKind::Str => (
                o,
                g,
                match spec_parse_str(o, g, addr) {
                    Ok(v) => Ok(()),
                    Err(e) => Err(e),
                },
            ),
            ObjKind::Unicode => (
                o,
                g,
                match spec_parse_unicode(rs, o, g, addr) {
                    Ok(v) => Ok(()),
                    Err(e) => Err(e),
                },
            ),
            ObjKind::NoneType => (
                o,
                g,
                match spec_decoder_gate(o, g, addr, "NoneType"@) {
                    Ok(v) => Ok(()),
                    Err(e) => Err(e),
                },
            ),
            ObjKind::Int => (
                o,
                g,
                match spec_parse_int(o, g, addr) {
                    Ok(v) => Ok(()),
                    Err(e) => Err(e),
                },
            ),
            ObjKind::Bool => (
                o,
                g,
                match spec_parse_bool(o, g, addr) {
                    Ok(v) => Ok(()),
                    Err(e) => Err(e),
                },
            ),
            ObjKind::Float => (
                o,
                g,
                match spec_parse_float(o, g, addr) {
                    Ok(v) => Ok(()),
                    Err(e) => Err(e),
                },
            ),
            ObjKind::Long => (
                o,
                g,
                match spec_parse_long(o, g, addr) {
                    Ok(v) => Ok(()),
                    Err(e) => Err(e),
                },
            ),
            ObjKind::Custom => (
                o,
                g,
                match spec_parse_custom(o, g, addr) {
                    Ok(v) => Ok(()),
                    Err(e) => Err(e),
                },
            ),
            _ => (o, g, Err(EngineError::DecodeFail)),
        }
    }
}

impl EVEProcess {
    /// Decodes the node at `addr` according to its type name, through the
    /// closed decode table: `dict` and `list` populate the node, the value
    /// shapes are validated in place, and a shape without a decoder (type
    /// descriptors, sets, byte buffers, tuples) fails with `DecodeFail`.
    pub fn parse_node(&mut self, addr: u64) -> (r: Result<(), EngineError>)
        requires
            old(self).wf(),
            old(self).cache_wf(),
        ensures
            final(self).process == old(self).process,
            final(self).py_type == old(self).py_type,
            final(self).ui_root == old(self).ui_root,
            final(self).cache_wf(),
            ({
                let step = spec_parse_node(
                    old(self).process.regions@,
                    old(self).objs(),
                    old(self).regs(),
                    addr,
                );
                &&& final(self).objs() == step.0
                &&& final(self).regs() == step.1
                &&& (r is Ok <==> step.2 is Ok)
                &&& (r is Err ==> r == step.2)
            }),
    {
        let kind = {
            let node = match self.get_node(addr) {
                Some(n) => n,
                None => {
                    return Err(EngineError::InvalidAddr);
                },
            };
            kind_of(&node.tp_name)
        };
        match kind {
            ObjKind::Dict => self.parse_dict(addr),
            ObjKind::List => match self.parse_list(addr) {
                Ok(_) => Ok(()),
                Err(e) => Err(e),
            },
            ObjKind::Str => match self.parse_str(addr) {
                Ok(_) => Ok(()),
                Err(e) => Err(e),
            },
            ObjKind::Unicode => match self.parse_unicode(addr) {
                Ok(_) => Ok(()),
                Err(e) => Err(e),
            },
            ObjKind::NoneType => self.parse_NoneType(addr),
            ObjKind::Int => match self.parse_int(addr) {
                Ok(_) => Ok(()),
                Err(e) => Err(e),
            },
            ObjKind::Bool => match self.parse_bool(addr) {
                Ok(_) => Ok(()),
                Err(e) => Err(e),
            },
            ObjKind::Float => match self.parse_float(addr) {
                Ok(_) => Ok(()),
                Err(e) => Err(e),
            },
            ObjKind::Long => match self.parse_long(addr) {
                Ok(_) => Ok(()),
                Err(e) => Err(e),
            },
            ObjKind::Custom => match self.parse_custom(addr) {
                Ok(_) => Ok(()),
                Err(e) => Err(e),
            },
            _ => Err(EngineError::DecodeFail),
        }
    }

    /// One lazy expansion step of the graph walker at a candidate root:
    /// creates the node at `ui_root_addr` and decodes it, so its child
    /// addresses (`attrs`, `items`) are available for further expansion.
    /// `Some(ui_root_addr)` on success, `None` when creation or decoding
    /// fails; per-node failures prune the edge, they are not fatal.
    pub fn parse_ui_tree(&mut self, ui_root_addr: u64) -> (r: Option<u64>)
        requires
            old(self).wf(),
            old(self).cache_wf(),
        ensures
            final(self).process == old(self).process,
            final(self).py_type == old(self).py_type,
            final(self).ui_root == old(self).ui_root,
            final(self).cache_wf(),
            ({
                let s1 = spec_new_node(
                    old(self).process.regions@,
                    old(self).objs(),
                    old(self).regs(),
                    ui_root_addr,
                );
                match s1.2 {
                    Err(e) => final(self).objs() == s1.0 && final(self).regs() == s1.1 && r
                        is None,
                    Ok(u) => {
                        let s2 = spec_parse_node(
                            old(self).process.regions@,
                            s1.0,
                            s1.1,
                            ui_root_addr,
                        );
                        &&& final(self).objs() == s2.0
                        &&& final(self).regs() == s2.1
                        &&& r == (match s2.2 {
                            Ok(u2) => Option::Some(ui_root_addr),
                            Err(e) => Option::None::<u64>,
                        })
                    },
                }
            }),
    {
        match self.new_node(ui_root_addr) {
            Err(_) => None,
            Ok(_) => {
                match self.parse_node(ui_root_addr) {
                    Ok(()) => Some(ui_root_addr),
                    Err(_) => None,
                }
            },
        }
    }
}

} // verus!
