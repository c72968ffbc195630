//! ELF64 dynamic-linking records read out of memory: the dynamic section,
//! symbol and relocation entries, and the SysV symbol hash table.
use vstd::prelude::*;

use crate::hash::{elf_hash, elf_hash_of};
use crate::memory::{
    add_addr, cstr, cstr_equals, le_u32, le_u64, mul_addr, no_nul, read_u32, read_u64, sat_add,
    sat_mul,
};

verus! {

/// Tag that ends a dynamic section.
pub const DT_NULL: u64 = 0;

/// Tag of the symbol hash table's address.
pub const DT_HASH: u64 = 4;

/// Tag of the string table's address.
pub const DT_STRTAB: u64 = 5;

/// Tag of the symbol table's address.
pub const DT_SYMTAB: u64 = 6;

/// Tag of the RELA relocation table's address.
pub const DT_RELA: u64 = 23;

/// Bytes in one dynamic entry: tag, then value.
pub const DYN_SIZE: u64 = 16;

/// Bytes in one ELF64 symbol entry.
pub const SYM_SIZE: u64 = 24;

/// Bytes in one ELF64 RELA entry.
pub const RELA_SIZE: u64 = 24;

/// The table addresses that a dynamic section names; zero where it names none.
#[derive(Clone, Copy, Debug, PartialEq, Eq, Structural)]
pub struct DynTables {
    pub symtab: u64,
    pub strtab: u64,
    pub reltab: u64,
    pub hashtab: u64,
}

pub open spec fn no_tables() -> DynTables {
    DynTables { symtab: 0, strtab: 0, reltab: 0, hashtab: 0 }
}

/// What one entry contributes: a recognized tag sets its table, any other
/// tag changes nothing.
pub open spec fn note_entry(t: DynTables, tag: u64, val: u64) -> DynTables {
    if tag == DT_RELA {
        DynTables { reltab: val, ..t }
    } else if tag == DT_SYMTAB {
        DynTables { symtab: val, ..t }
    } else if tag == DT_STRTAB {
        DynTables { strtab: val, ..t }
    } else if tag == DT_HASH {
        DynTables { hashtab: val, ..t }
    } else {
        t
    }
}

/// The tables noted by the entries from address `p` up to the terminating
/// tag, on top of `t`. The scan also ends where memory ends.
pub open spec fn scan_from(m: Seq<u8>, p: u64, t: DynTables) -> DynTables
    decreases u64::MAX - p,
{
    if p >= m.len() || p == u64::MAX || le_u64(m, p) == DT_NULL {
        t
    } else {
        scan_from(m, sat_add(p, DYN_SIZE), note_entry(t, le_u64(m, p), le_u64(m, sat_add(p, 8))))
    }
}

/// The tables named by the dynamic section at `dynamic`.
pub open spec fn dyn_tables(m: Seq<u8>, dynamic: u64) -> DynTables {
    scan_from(m, dynamic, no_tables())
}

/// Reads a module's dynamic section and returns the tables it names.
pub fn scan_dynamic(m: &[u8], dynamic: u64) -> (r: DynTables)
    ensures
        r == dyn_tables(m@, dynamic),
{
    let mut t = DynTables { symtab: 0, strtab: 0, reltab: 0, hashtab: 0 };
    let mut p = dynamic;
    let n = m.len() as u64;
    while p < n && p != u64::MAX
        invariant
            n == m@.len(),
            scan_from(m@, p, t) == dyn_tables(m@, dynamic),
        decreases u64::MAX - p,
    {
        let tag = read_u64(m, p);
        if tag == DT_NULL {
            return t;
        }
        let val = read_u64(m, add_addr(p, 8));
        if tag == DT_RELA {
            t.reltab = val;
        } else if tag == DT_SYMTAB {
            t.symtab = val;
        } else if tag == DT_STRTAB {
            t.strtab = val;
        } else if tag == DT_HASH {
            t.hashtab = val;
        }
        p = add_addr(p, DYN_SIZE);
    }
    t
}

/// Address of entry `i` of a table of `size`-byte records at `base`.
pub open spec fn entry_addr(base: u64, i: u64, size: u64) -> u64 {
    sat_add(base, sat_mul(i, size))
}

/// `st_name` of symbol `i`: its name's offset in the string table.
pub open spec fn sym_name_off(m: Seq<u8>, t: DynTables, i: u64) -> u32 {
    le_u32(m, entry_addr(t.symtab, i, SYM_SIZE))
}

/// `st_value` of symbol `i`: its address relative to its module's base.
pub open spec fn sym_value(m: Seq<u8>, t: DynTables, i: u64) -> u64 {
    le_u64(m, sat_add(entry_addr(t.symtab, i, SYM_SIZE), 8))
}

/// The name of symbol `i`.
pub open spec fn sym_name(m: Seq<u8>, t: DynTables, i: u64) -> Seq<u8> {
    cstr(m, sat_add(t.strtab, sym_name_off(m, t, i) as u64) as int)
}

/// `r_offset` of relocation `i`: the patched slot, relative to the module base.
pub open spec fn rela_offset(m: Seq<u8>, t: DynTables, i: u64) -> u64 {
    le_u64(m, entry_addr(t.reltab, i, RELA_SIZE))
}

/// `r_info` of relocation `i`.
pub open spec fn rela_info(m: Seq<u8>, t: DynTables, i: u64) -> u64 {
    le_u64(m, sat_add(entry_addr(t.reltab, i, RELA_SIZE), 8))
}

/// The signed value of a 64-bit two's-complement word.
pub open spec fn signed(x: u64) -> int {
    if x < 0x8000_0000_0000_0000 {
        x as int
    } else {
        x - 0x1_0000_0000_0000_0000
    }
}

/// `r_addend` of relocation `i`, as the two's-complement bits of the `i64`.
pub open spec fn rela_addend(m: Seq<u8>, t: DynTables, i: u64) -> u64 {
    le_u64(m, sat_add(entry_addr(t.reltab, i, RELA_SIZE), 16))
}

/// The symbol index of relocation `i`: the upper half of `r_info`.
pub open spec fn rela_sym(m: Seq<u8>, t: DynTables, i: u64) -> u64 {
    rela_info(m, t, i) / 0x1_0000_0000
}

pub fn symbol_name_offset(m: &[u8], t: &DynTables, i: u64) -> (r: u32)
    ensures
        r == sym_name_off(m@, *t, i),
{
    read_u32(m, add_addr(t.symtab, mul_addr(i, SYM_SIZE)))
}

pub fn symbol_value(m: &[u8], t: &DynTables, i: u64) -> (r: u64)
    ensures
        r == sym_value(m@, *t, i),
{
    read_u64(m, add_addr(add_addr(t.symtab, mul_addr(i, SYM_SIZE)), 8))
}

/// One RELA record, decoded.
#[derive(Clone, Copy, Debug, PartialEq, Eq, Structural)]
pub struct Rela {
    pub offset: u64,
    pub symbol: u64,
    pub addend: i64,
}

pub fn relocation(m: &[u8], t: &DynTables, i: u64) -> (r: Rela)
    ensures
        r.offset == rela_offset(m@, *t, i),
        r.symbol == rela_sym(m@, *t, i),
        r.addend as int == signed(rela_addend(m@, *t, i)),
{
    let e = add_addr(t.reltab, mul_addr(i, RELA_SIZE));
    let offset = read_u64(m, e);
    let info = read_u64(m, add_addr(e, 8));
    let bits = read_u64(m, add_addr(e, 16));
    let addend: i64 = if bits < 0x8000_0000_0000_0000 {
        bits as i64
    } else {
        ((bits - 0x8000_0000_0000_0000) as i64) - i64::MAX - 1
    };
    Rela { offset, symbol: info / 0x1_0000_0000, addend }
}

/// `nbucket`, the first word of the hash table.
pub open spec fn bucket_count(m: Seq<u8>, h: u64) -> u32 {
    le_u32(m, h)
}

/// `nchain`, the second word of the hash table.
pub open spec fn chain_count(m: Seq<u8>, h: u64) -> u32 {
    le_u32(m, sat_add(h, 4))
}

/// The head of bucket `b`.
pub open spec fn bucket_head(m: Seq<u8>, h: u64, b: u64) -> u32 {
    le_u32(m, sat_add(h, sat_add(8, sat_mul(b, 4))))
}

/// The link that follows symbol `i` in its chain.
pub open spec fn chain_link(m: Seq<u8>, h: u64, i: u64) -> u32 {
    le_u32(m, sat_add(h, sat_add(8, sat_mul(sat_add(bucket_count(m, h) as u64, i), 4))))
}

/// Walks at most `fuel` links of a chain from `i`, looking for `name`.
pub open spec fn chain_search(m: Seq<u8>, t: DynTables, name: Seq<u8>, i: u32, fuel: nat) -> Option<u32>
    decreases fuel,
{
    if i == 0 || fuel == 0 {
        None
    } else if sym_name(m, t, i as u64) == name {
        Some(i)
    } else {
        chain_search(m, t, name, chain_link(m, t.hashtab, i as u64), (fuel - 1) as nat)
    }
}

/// The symbol that a module exports under `name`, found through its hash
/// table. A module without a hash table, or with no buckets, exports
/// nothing. No chain is followed for more links than the table has chain
/// entries.
pub open spec fn lookup_symbol(m: Seq<u8>, t: DynTables, name: Seq<u8>) -> Option<u32> {
    let nb = bucket_count(m, t.hashtab);
    if t.hashtab == 0 || nb == 0 {
        None
    } else {
        chain_search(
            m,
            t,
            name,
            bucket_head(m, t.hashtab, (elf_hash_of(name) % nb) as u64),
            chain_count(m, t.hashtab) as nat,
        )
    }
}

/// Following at most `k` links from `i` reaches the end marker.
pub open spec fn chain_ends_within(m: Seq<u8>, h: u64, i: u32, k: nat) -> bool
    decreases k,
{
    i == 0 || (k > 0 && chain_ends_within(m, h, chain_link(m, h, i as u64), (k - 1) as nat))
}

/// A chain that ends within `k` links is searched in full by any walk of
/// `k` or more links: the search over it ends within its length, and a
/// larger bound changes nothing.
pub proof fn lemma_chain_search_ends(
    m: Seq<u8>,
    t: DynTables,
    name: Seq<u8>,
    i: u32,
    k: nat,
    fuel: nat,
)
    requires
        chain_ends_within(m, t.hashtab, i, k),
        k <= fuel,
    ensures
        chain_search(m, t, name, i, fuel) == chain_search(m, t, name, i, k),
    decreases k,
{
    if i != 0 && k > 0 && sym_name(m, t, i as u64) != name {
        lemma_chain_search_ends(
            m,
            t,
            name,
            chain_link(m, t.hashtab, i as u64),
            (k - 1) as nat,
            (fuel - 1) as nat,
        );
    }
}

/// Looks `name` up in one module's hash table.
pub fn find_symbol(m: &[u8], t: &DynTables, name: &[u8], hash: u32) -> (r: Option<u32>)
    requires
        no_nul(name@),
        hash == elf_hash_of(name@),
    ensures
        r == lookup_symbol(m@, *t, name@),
{
    let h = t.hashtab;
    if h == 0 {
        return None;
    }
    let nb = read_u32(m, h);
    if nb == 0 {
        return None;
    }
    let mut fuel = read_u32(m, add_addr(h, 4));
    let mut i = read_u32(m, add_addr(h, add_addr(8, mul_addr((hash % nb) as u64, 4))));
    while i != 0 && fuel != 0
        invariant
            no_nul(name@),
            nb == bucket_count(m@, h),
            h == t.hashtab,
            chain_search(m@, *t, name@, i, fuel as nat) == lookup_symbol(m@, *t, name@),
        decreases fuel,
    {
        let off = symbol_name_offset(m, t, i as u64);
        if cstr_equals(m, add_addr(t.strtab, off as u64), name) {
            return Some(i);
        }
        i = read_u32(m, add_addr(h, add_addr(8, mul_addr(add_addr(nb as u64, i as u64), 4))));
        fuel = fuel - 1;
    }
    None
}

/// Hashes `name` and looks it up in one module's hash table.
pub fn find_symbol_by_name(m: &[u8], t: &DynTables, name: &[u8]) -> (r: Option<u32>)
    requires
        no_nul(name@),
    ensures
        r == lookup_symbol(m@, *t, name@),
{
    let hash = elf_hash(name);
    find_symbol(m, t, name, hash)
}

} // verus!
