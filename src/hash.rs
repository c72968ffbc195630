//! The standard SysV ELF symbol-name hash, on 32-bit words.
use vstd::prelude::*;

verus! {

/// One step of the hash: shift in a byte, then fold the top nibble back
/// into bits 4..8 and clear it.
pub open spec fn hash_step(h: u32, b: u8) -> u32 {
    let x = ((h as int * 16 + b as int) % 0x1_0000_0000) as u32;
    let g = x & 0xf000_0000u32;
    (x ^ (g >> 24u32)) & !g
}

/// The ELF hash of a name (its bytes without the terminating zero).
pub open spec fn elf_hash_of(s: Seq<u8>) -> u32
    decreases s.len(),
{
    if s.len() == 0 {
        0
    } else {
        hash_step(elf_hash_of(s.drop_last()), s.last())
    }
}

/// Hashes `name` as the SysV ABI's symbol hash table expects.
pub fn elf_hash(name: &[u8]) -> (r: u32)
    ensures
        r == elf_hash_of(name@),
{
    let mut h: u32 = 0;
    let mut i: usize = 0;
    while i < name.len()
        invariant
            i <= name@.len(),
            h == elf_hash_of(name@.subrange(0, i as int)),
        decreases name@.len() - i,
    {
        let b = name[i];
        let x: u32 = ((h as u64 * 16 + b as u64) % 0x1_0000_0000) as u32;
        let g: u32 = x & 0xf000_0000u32;
        h = (x ^ (g >> 24u32)) & !g;
        proof {
            let t = name@.subrange(0, i + 1);
            assert(t.drop_last() =~= name@.subrange(0, i as int));
            assert(t.last() == b);
        }
        i = i + 1;
    }
    assert(name@.subrange(0, i as int) =~= name@);
    h
}

} // verus!
