//! The global resolver: decodes the relocation behind a lazy call, finds
//! the first registered module that exports its symbol, patches the call
//! slot and returns the target address.
use vstd::prelude::*;

use crate::elf::{
    dyn_tables, find_symbol, lookup_symbol, rela_addend, rela_offset, rela_sym, relocation,
    scan_dynamic, signed, sym_name, sym_value, symbol_name_offset, symbol_value,
    DynTables,
};
use crate::hash::elf_hash;
use crate::memory::{add_addr, le_u64, no_nul, read_cstr, sat_add, stored_at, write_u64};
use crate::registry::{ModuleEntry, Registry, MODULE_SLOTS};

verus! {

/// Why a resolution produced no address.
#[derive(Clone, Copy, Debug, PartialEq, Eq, Structural)]
pub enum ResolveError {
    /// No registered module exports the symbol.
    SymbolNotFound,
    /// The slot to patch lies outside memory.
    SlotOutOfRange,
}

/// The tables of the module in slot `mi`.
pub open spec fn module_tables(m: Seq<u8>, reg: Seq<ModuleEntry>, mi: int) -> DynTables {
    dyn_tables(m, reg[mi].dynamic)
}

/// The name of the symbol that relocation `relno` of module `mi` refers to.
pub open spec fn wanted_name(m: Seq<u8>, reg: Seq<ModuleEntry>, relno: u64, mi: int) -> Seq<u8> {
    let t = module_tables(m, reg, mi);
    sym_name(m, t, rela_sym(m, t, relno))
}

/// The first live module, from slot `i` on, that exports `name`, with the
/// symbol's index there. The search ends at the first sentinel.
pub open spec fn search_modules(m: Seq<u8>, reg: Seq<ModuleEntry>, name: Seq<u8>, i: int) -> Option<
    (int, u32),
>
    decreases reg.len() - i,
{
    if i < 0 || i >= reg.len() || reg[i].is_sentinel() {
        None
    } else {
        match lookup_symbol(m, module_tables(m, reg, i), name) {
            Some(s) => Some((i, s)),
            None => search_modules(m, reg, name, i + 1),
        }
    }
}

/// `x` modulo 2^64.
pub open spec fn wrap(x: int) -> u64 {
    (x % 0x1_0000_0000_0000_0000) as u64
}

/// The address that relocation `relno` of module `mi` binds to: the
/// exporting module's base, plus the symbol's value, plus the addend.
pub open spec fn resolved_address(m: Seq<u8>, reg: Seq<ModuleEntry>, relno: u64, mi: int) -> Option<
    u64,
> {
    let t = module_tables(m, reg, mi);
    match search_modules(m, reg, wanted_name(m, reg, relno, mi), 0) {
        Some((c, s)) => Some(
            wrap(
                reg[c].base + sym_value(m, module_tables(m, reg, c), s as u64) + signed(
                    rela_addend(m, t, relno),
                ),
            ),
        ),
        None => None,
    }
}

/// The address of the slot that relocation `relno` of module `mi` patches.
pub open spec fn patch_slot(m: Seq<u8>, reg: Seq<ModuleEntry>, relno: u64, mi: int) -> u64 {
    sat_add(reg[mi].base, rela_offset(m, module_tables(m, reg, mi), relno))
}

/// Finds the first live module that exports `name`.
pub fn find_exporter(m: &[u8], reg: &Registry, name: &[u8]) -> (r: Option<(usize, u32)>)
    requires
        reg.wf(),
        no_nul(name@),
    ensures
        match r {
            Some((c, s)) => c < MODULE_SLOTS && search_modules(m@, reg@, name@, 0) == Some(
                (c as int, s),
            ),
            None => search_modules(m@, reg@, name@, 0) is None,
        },
{
    let hash = elf_hash(name);
    let mut i: usize = 0;
    while i < MODULE_SLOTS
        invariant
            reg.wf(),
            no_nul(name@),
            hash == crate::hash::elf_hash_of(name@),
            i <= MODULE_SLOTS,
            search_modules(m@, reg@, name@, 0) == search_modules(m@, reg@, name@, i as int),
        decreases MODULE_SLOTS - i,
    {
        let e = reg.lookup(i);
        if e.dynamic == 0 {
            return None;
        }
        let t = scan_dynamic(m, e.dynamic);
        match find_symbol(m, &t, name, hash) {
            Some(s) => {
                return Some((i, s));
            },
            None => {},
        }
        i = i + 1;
    }
    None
}

/// `a + b + c` modulo 2^64, for a signed `c`.
fn offset_address(a: u64, b: u64, c: i64) -> (r: u64)
    ensures
        r == wrap(a + b + c),
{
    let bits: u64 = if c >= 0 {
        c as u64
    } else {
        (c + i64::MAX + 1) as u64 + 0x8000_0000_0000_0000
    };
    let sum = (a as u128 + b as u128 + bits as u128) % 0x1_0000_0000_0000_0000;
    proof {
        if c < 0 {
            vstd::arithmetic::div_mod::lemma_mod_sub_multiples_vanish(
                a + b + bits,
                0x1_0000_0000_0000_0000,
            );
            assert(a + b + c == -0x1_0000_0000_0000_0000int + (a + b + bits));
        }
    }
    sum as u64
}

/// Resolves relocation `relno` of the module in slot `module`: on success
/// the slot it names holds the returned address. Memory changes only there,
/// and only on success.
pub fn resolve(mem: &mut Vec<u8>, reg: &Registry, relno: u64, module: usize) -> (r: Result<
    u64,
    ResolveError,
>)
    requires
        reg.wf(),
        module < MODULE_SLOTS,
    ensures
        match resolved_address(old(mem)@, reg@, relno, module as int) {
            None => r == Err::<u64, ResolveError>(ResolveError::SymbolNotFound) && final(mem)@
                == old(mem)@,
            Some(a) => {
                let slot = patch_slot(old(mem)@, reg@, relno, module as int);
                if slot + 8 <= old(mem)@.len() {
                    &&& r == Ok::<u64, ResolveError>(a)
                    &&& stored_at(old(mem)@, final(mem)@, slot, a)
                    &&& le_u64(final(mem)@, slot) == a
                } else {
                    r == Err::<u64, ResolveError>(ResolveError::SlotOutOfRange) && final(mem)@
                        == old(mem)@
                }
            },
        },
{
    let e = reg.lookup(module);
    let t = scan_dynamic(mem.as_slice(), e.dynamic);
    let rel = relocation(mem.as_slice(), &t, relno);
    let off = symbol_name_offset(mem.as_slice(), &t, rel.symbol);
    let name = read_cstr(mem.as_slice(), add_addr(t.strtab, off as u64));
    let found = find_exporter(mem.as_slice(), reg, name.as_slice());
    match found {
        None => Err(ResolveError::SymbolNotFound),
        Some((c, s)) => {
            let ce = reg.lookup(c);
            let ct = scan_dynamic(mem.as_slice(), ce.dynamic);
            let value = symbol_value(mem.as_slice(), &ct, s as u64);
            let addr = offset_address(ce.base, value, rel.addend);
            let slot = add_addr(e.base, rel.offset);
            if slot < mem.len() as u64 && mem.len() as u64 - slot >= 8 {
                write_u64(mem, slot, addr);
                Ok(addr)
            } else {
                Err(ResolveError::SlotOutOfRange)
            }
        },
    }
}

/// Binds relocation `relno` of the module in slot `dynoff`, for a caller
/// that knows the symbol is exported and the slot is mapped: the slot then
/// holds the returned address.
pub fn ldresolve(mem: &mut Vec<u8>, reg: &Registry, relno: u64, dynoff: usize) -> (r: u64)
    requires
        reg.wf(),
        dynoff < MODULE_SLOTS,
        resolved_address(old(mem)@, reg@, relno, dynoff as int) is Some,
        patch_slot(old(mem)@, reg@, relno, dynoff as int) + 8 <= old(mem)@.len(),
    ensures
        Some(r) == resolved_address(old(mem)@, reg@, relno, dynoff as int),
        stored_at(old(mem)@, final(mem)@, patch_slot(old(mem)@, reg@, relno, dynoff as int), r),
        le_u64(final(mem)@, patch_slot(old(mem)@, reg@, relno, dynoff as int)) == r,
{
    match resolve(mem, reg, relno, dynoff) {
        Ok(a) => a,
        Err(_) => 0,
    }
}

proof fn lemma_search_reaches(m: Seq<u8>, reg: Seq<ModuleEntry>, name: Seq<u8>, a: int, s: u32, i: int)
    requires
        0 <= i <= a < reg.len(),
        forall|k: int| 0 <= k <= a ==> !(#[trigger] reg[k]).is_sentinel(),
        forall|k: int|
            0 <= k < a ==> (#[trigger] lookup_symbol(m, module_tables(m, reg, k), name)) is None,
        lookup_symbol(m, module_tables(m, reg, a), name) == Some(s),
    ensures
        search_modules(m, reg, name, i) == Some((a, s)),
    decreases a - i,
{
    if i < a {
        lemma_search_reaches(m, reg, name, a, s, i + 1);
        assert(!reg[i].is_sentinel());
        assert(lookup_symbol(m, module_tables(m, reg, i), name) is None);
    }
}

/// First match wins: when module `a` exports the wanted symbol and no live
/// module before it does, the relocation binds to module `a`'s symbol, plus
/// the addend, whatever the modules after `a` export.
pub proof fn lemma_first_match_wins(
    m: Seq<u8>,
    reg: Seq<ModuleEntry>,
    relno: u64,
    mi: int,
    a: int,
    s: u32,
)
    requires
        0 <= mi < reg.len(),
        0 <= a < reg.len(),
        forall|k: int| 0 <= k <= a ==> !(#[trigger] reg[k]).is_sentinel(),
        forall|k: int|
            0 <= k < a ==> (#[trigger] lookup_symbol(
                m,
                module_tables(m, reg, k),
                wanted_name(m, reg, relno, mi),
            )) is None,
        lookup_symbol(m, module_tables(m, reg, a), wanted_name(m, reg, relno, mi)) == Some(s),
    ensures
        search_modules(m, reg, wanted_name(m, reg, relno, mi), 0) == Some((a, s)),
        resolved_address(m, reg, relno, mi) == Some(
            wrap(
                reg[a].base + sym_value(m, module_tables(m, reg, a), s as u64) + signed(
                    rela_addend(m, module_tables(m, reg, mi), relno),
                ),
            ),
        ),
{
    lemma_search_reaches(m, reg, wanted_name(m, reg, relno, mi), a, s, 0);
}

/// Resolving the same relocation a second time, on the memory that the
/// first resolution patched, stores the same address in the same slot and
/// leaves memory as the first left it, provided the slot lies outside what
/// the resolution reads (so that it finds the same address and slot again).
pub proof fn lemma_resolve_twice(
    m1: Seq<u8>,
    m2: Seq<u8>,
    m3: Seq<u8>,
    reg: Seq<ModuleEntry>,
    relno: u64,
    mi: int,
    a: u64,
)
    requires
        resolved_address(m1, reg, relno, mi) == Some(a),
        stored_at(m1, m2, patch_slot(m1, reg, relno, mi), a),
        resolved_address(m2, reg, relno, mi) == resolved_address(m1, reg, relno, mi),
        patch_slot(m2, reg, relno, mi) == patch_slot(m1, reg, relno, mi),
        stored_at(m2, m3, patch_slot(m2, reg, relno, mi), a),
    ensures
        m3 == m2,
        resolved_address(m2, reg, relno, mi) == Some(a),
{
    assert(m3 =~= m2);
}

} // verus!
