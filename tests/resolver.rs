use phantomos::elf::{find_symbol_by_name, relocation, scan_dynamic, DynTables};
use phantomos::hash::elf_hash;
use phantomos::memory::{cstr_equals, read_cstr, read_u32, read_u64, write_u64};
use phantomos::registry::{ModuleEntry, Registry, MODULE_SLOTS};
use phantomos::resolver::{find_exporter, ldresolve, resolve, ResolveError};

fn put_u32(m: &mut Vec<u8>, a: usize, v: u32) {
    m[a..a + 4].copy_from_slice(&v.to_le_bytes());
}

fn put_u64(m: &mut Vec<u8>, a: usize, v: u64) {
    m[a..a + 8].copy_from_slice(&v.to_le_bytes());
}

fn put_bytes(m: &mut Vec<u8>, a: usize, b: &[u8]) {
    m[a..a + b.len()].copy_from_slice(b);
}

/// Lays out an exporting module at `base`: dynamic section at base+0x800,
/// symbols at +0x900, strings at +0xa00, hash table at +0xb00. Symbols are
/// numbered from 1; all of them go into one bucket's chain when
/// `nbucket` is 1, else each into the bucket its hash picks.
fn exporter(m: &mut Vec<u8>, base: usize, syms: &[(&[u8], u64)], nbucket: u32) {
    let dynamic = base + 0x800;
    let symtab = base + 0x900;
    let strtab = base + 0xa00;
    let hashtab = base + 0xb00;
    put_u64(m, dynamic, 6);
    put_u64(m, dynamic + 8, symtab as u64);
    put_u64(m, dynamic + 16, 5);
    put_u64(m, dynamic + 24, strtab as u64);
    put_u64(m, dynamic + 32, 4);
    put_u64(m, dynamic + 40, hashtab as u64);
    put_u64(m, dynamic + 48, 0);
    let mut name_off = 1usize;
    let nchain = syms.len() as u32 + 1;
    put_u32(m, hashtab, nbucket);
    put_u32(m, hashtab + 4, nchain);
    let chain = hashtab + 8 + 4 * nbucket as usize;
    for (k, (name, value)) in syms.iter().enumerate() {
        let idx = k + 1;
        put_bytes(m, strtab + name_off, name);
        put_u32(m, symtab + 24 * idx, name_off as u32);
        put_u64(m, symtab + 24 * idx + 8, *value);
        name_off += name.len() + 1;
        let b = (elf_hash(name) % nbucket) as usize;
        let head = read_u32(m, (hashtab + 8 + 4 * b) as u64);
        put_u32(m, chain + 4 * idx, head);
        put_u32(m, hashtab + 8 + 4 * b, idx as u32);
    }
}

/// Lays out a requesting module at `base` whose relocation 0 refers to
/// symbol 1, named `name`, patching base+0x10 with the given addend.
fn requester(m: &mut Vec<u8>, base: usize, name: &[u8], addend: i64) {
    let dynamic = base + 0x800;
    let symtab = base + 0x900;
    let reltab = base + 0xa00;
    let strtab = base + 0xb00;
    put_u64(m, dynamic, 23);
    put_u64(m, dynamic + 8, reltab as u64);
    put_u64(m, dynamic + 16, 6);
    put_u64(m, dynamic + 24, symtab as u64);
    put_u64(m, dynamic + 32, 5);
    put_u64(m, dynamic + 40, strtab as u64);
    put_u64(m, dynamic + 48, 0);
    put_bytes(m, strtab + 1, name);
    put_u32(m, symtab + 24, 1);
    put_u64(m, reltab, 0x10);
    put_u64(m, reltab + 8, (1u64 << 32) | 7);
    put_u64(m, reltab + 16, addend as u64);
}

/// Modules A at 0x1000 and B at 0x2000 both export "foo" (at 0x100 and
/// 0x200); the requesting module R sits at 0x3000 in slot 2.
fn two_exporters(addend: i64) -> (Vec<u8>, Registry) {
    let mut m = vec![0u8; 0x4000];
    exporter(&mut m, 0x1000, &[(b"foo", 0x100)], 1);
    exporter(&mut m, 0x2000, &[(b"foo", 0x200)], 1);
    requester(&mut m, 0x3000, b"foo", addend);
    let mut reg = Registry::new();
    reg.register(0, 0x1000, 0x1800);
    reg.register(1, 0x2000, 0x2800);
    reg.register(2, 0x3000, 0x3800);
    (m, reg)
}

#[test]
fn hash_of_empty_name_is_zero() {
    assert_eq!(elf_hash(b""), 0);
}

#[test]
fn hash_matches_reference_vectors() {
    assert_eq!(elf_hash(b"printf"), 0x077905a6);
    assert_eq!(elf_hash(b"exit"), 0x0006cf04);
    assert_eq!(elf_hash(b"main"), 0x000737fe);
    assert_eq!(elf_hash(b"foo"), 0x00006d5f);
}

#[test]
fn hash_folds_the_top_nibble() {
    assert_eq!(elf_hash(b"abcdefghijklmnopqrstuvwxyz"), 0x08d1e00a);
    assert_eq!(elf_hash(b"ldresolve"), 0x08ca3175);
    assert_eq!(elf_hash(&[0xff; 8]), 0x000010ef);
}

#[test]
fn end_to_end_first_module_wins() {
    let (mut m, reg) = two_exporters(0);
    assert_eq!(resolve(&mut m, &reg, 0, 2), Ok(0x1100));
    assert_eq!(read_u64(&m, 0x3010), 0x1100);
}

#[test]
fn first_match_wins_over_later_definition() {
    let (mut m, reg) = two_exporters(8);
    let r = resolve(&mut m, &reg, 0, 2).unwrap();
    assert_eq!(r, 0x1108);
    assert_ne!(r, 0x2208);
}

#[test]
fn second_module_used_when_first_lacks_symbol() {
    let mut m = vec![0u8; 0x4000];
    exporter(&mut m, 0x1000, &[(b"bar", 0x100)], 1);
    exporter(&mut m, 0x2000, &[(b"foo", 0x200)], 1);
    requester(&mut m, 0x3000, b"foo", 0);
    let mut reg = Registry::new();
    reg.register(0, 0x1000, 0x1800);
    reg.register(1, 0x2000, 0x2800);
    reg.register(2, 0x3000, 0x3800);
    assert_eq!(resolve(&mut m, &reg, 0, 2), Ok(0x2200));
}

#[test]
fn resolving_twice_gives_same_address_and_slot() {
    let (mut m, reg) = two_exporters(0);
    let first = resolve(&mut m, &reg, 0, 2);
    let after_first = m.clone();
    let second = resolve(&mut m, &reg, 0, 2);
    assert_eq!(first, second);
    assert_eq!(m, after_first);
    assert_eq!(read_u64(&m, 0x3010), 0x1100);
}

#[test]
fn patch_is_visible_and_confined_to_slot() {
    let (mut m, reg) = two_exporters(0);
    let before = m.clone();
    let a = resolve(&mut m, &reg, 0, 2).unwrap();
    assert_eq!(read_u64(&m, 0x3010), a);
    for i in 0..m.len() {
        if !(0x3010..0x3018).contains(&i) {
            assert_eq!(m[i], before[i]);
        }
    }
}

#[test]
fn missing_symbol_is_an_error_not_zero() {
    let mut m = vec![0u8; 0x4000];
    exporter(&mut m, 0x1000, &[(b"bar", 0x100)], 1);
    requester(&mut m, 0x3000, b"foo", 0);
    let mut reg = Registry::new();
    reg.register(0, 0x1000, 0x1800);
    reg.register(1, 0x3000, 0x3800);
    let before = m.clone();
    assert_eq!(resolve(&mut m, &reg, 0, 1), Err(ResolveError::SymbolNotFound));
    assert_eq!(m, before);
}

#[test]
fn search_stops_at_sentinel() {
    let mut m = vec![0u8; 0x4000];
    exporter(&mut m, 0x2000, &[(b"foo", 0x200)], 1);
    requester(&mut m, 0x3000, b"foo", 0);
    let mut reg = Registry::new();
    reg.register(0, 0x3000, 0x3800);
    reg.register(2, 0x2000, 0x2800);
    assert_eq!(resolve(&mut m, &reg, 0, 0), Err(ResolveError::SymbolNotFound));
}

#[test]
fn slot_outside_memory_is_reported() {
    let (mut m, reg) = two_exporters(0);
    put_u64(&mut m, 0x3a00, 0xfff8 + 1);
    let before = m.clone();
    assert_eq!(resolve(&mut m, &reg, 0, 2), Err(ResolveError::SlotOutOfRange));
    assert_eq!(m, before);
}

#[test]
fn negative_addend_is_subtracted() {
    let (mut m, reg) = two_exporters(-0x10);
    assert_eq!(resolve(&mut m, &reg, 0, 2), Ok(0x10f0));
}

#[test]
fn ldresolve_returns_patched_address() {
    let (mut m, reg) = two_exporters(0);
    assert_eq!(ldresolve(&mut m, &reg, 0, 2), 0x1100);
    assert_eq!(read_u64(&m, 0x3010), 0x1100);
}

#[test]
fn chain_walk_finds_every_symbol() {
    let mut m = vec![0u8; 0x2000];
    let syms: [(&[u8], u64); 4] = [(b"alpha", 0x10), (b"beta", 0x20), (b"gamma", 0x30), (b"delta", 0x40)];
    exporter(&mut m, 0x1000, &syms, 1);
    let t = scan_dynamic(&m, 0x1800);
    assert_eq!(find_symbol_by_name(&m, &t, b"alpha"), Some(1));
    assert_eq!(find_symbol_by_name(&m, &t, b"gamma"), Some(3));
    assert_eq!(find_symbol_by_name(&m, &t, b"delta"), Some(4));
    assert_eq!(find_symbol_by_name(&m, &t, b"epsilon"), None);
    assert_eq!(find_symbol_by_name(&m, &t, b"alph"), None);
}

#[test]
fn several_buckets() {
    let mut m = vec![0u8; 0x2000];
    let syms: [(&[u8], u64); 3] = [(b"printf", 0x10), (b"exit", 0x20), (b"main", 0x30)];
    exporter(&mut m, 0x1000, &syms, 3);
    let t = scan_dynamic(&m, 0x1800);
    assert_eq!(find_symbol_by_name(&m, &t, b"printf"), Some(1));
    assert_eq!(find_symbol_by_name(&m, &t, b"exit"), Some(2));
    assert_eq!(find_symbol_by_name(&m, &t, b"main"), Some(3));
    assert_eq!(find_symbol_by_name(&m, &t, b"puts"), None);
}

#[test]
fn cyclic_chain_search_ends() {
    let mut m = vec![0u8; 0x2000];
    exporter(&mut m, 0x1000, &[(b"alpha", 0x10), (b"beta", 0x20)], 1);
    // chain[1] points back at 2, chain[2] at 1: a cycle.
    put_u32(&mut m, 0x1b00 + 8 + 4 + 4, 2);
    put_u32(&mut m, 0x1b00 + 8 + 4 + 8, 1);
    let t = scan_dynamic(&m, 0x1800);
    assert_eq!(find_symbol_by_name(&m, &t, b"gamma"), None);
}

#[test]
fn module_without_hash_table_exports_nothing() {
    let mut m = vec![0u8; 0x2000];
    exporter(&mut m, 0x1000, &[(b"alpha", 0x10)], 1);
    put_u64(&mut m, 0x1800 + 32, 0x7000_0000);
    let t = scan_dynamic(&m, 0x1800);
    assert_eq!(t.hashtab, 0);
    assert_eq!(find_symbol_by_name(&m, &t, b"alpha"), None);
}

#[test]
fn dynamic_scan_collects_tables() {
    let mut m = vec![0u8; 0x200];
    put_u64(&mut m, 0x100, 23);
    put_u64(&mut m, 0x108, 0x1111);
    put_u64(&mut m, 0x110, 99);
    put_u64(&mut m, 0x118, 0x9999);
    put_u64(&mut m, 0x120, 6);
    put_u64(&mut m, 0x128, 0x2222);
    put_u64(&mut m, 0x130, 5);
    put_u64(&mut m, 0x138, 0x3333);
    put_u64(&mut m, 0x140, 4);
    put_u64(&mut m, 0x148, 0x4444);
    put_u64(&mut m, 0x150, 6);
    put_u64(&mut m, 0x158, 0x5555);
    put_u64(&mut m, 0x160, 0);
    put_u64(&mut m, 0x170, 5);
    put_u64(&mut m, 0x178, 0x6666);
    let t = scan_dynamic(&m, 0x100);
    assert_eq!(t, DynTables { symtab: 0x5555, strtab: 0x3333, reltab: 0x1111, hashtab: 0x4444 });
}

#[test]
fn dynamic_scan_ends_with_memory() {
    let mut m = vec![0u8; 0x20];
    put_u64(&mut m, 0x10, 6);
    put_u64(&mut m, 0x18, 0x77);
    let t = scan_dynamic(&m, 0x10);
    assert_eq!(t.symtab, 0x77);
    assert_eq!(scan_dynamic(&m, 0x100), DynTables { symtab: 0, strtab: 0, reltab: 0, hashtab: 0 });
}

#[test]
fn relocation_fields_decode() {
    let (m, _reg) = two_exporters(-2);
    let t = scan_dynamic(&m, 0x3800);
    let r = relocation(&m, &t, 0);
    assert_eq!(r.offset, 0x10);
    assert_eq!(r.symbol, 1);
    assert_eq!(r.addend, -2);
}

#[test]
fn find_exporter_reports_slot_and_index() {
    let (m, reg) = two_exporters(0);
    assert_eq!(find_exporter(&m, &reg, b"foo"), Some((0, 1)));
    assert_eq!(find_exporter(&m, &reg, b"nothing"), None);
}

#[test]
fn registry_starts_empty_and_tracks_live_entries() {
    let mut reg = Registry::new();
    assert_eq!(reg.live_count(), 0);
    assert_eq!(reg.lookup(MODULE_SLOTS - 1), ModuleEntry { base: 0, dynamic: 0 });
    reg.register(0, 0x1000, 0x1800);
    reg.register(1, 0x2000, 0x2800);
    reg.register(3, 0x4000, 0x4800);
    assert_eq!(reg.live_count(), 2);
    assert_eq!(reg.lookup(3), ModuleEntry { base: 0x4000, dynamic: 0x4800 });
    assert_eq!(
        reg.live_entries(),
        vec![ModuleEntry { base: 0x1000, dynamic: 0x1800 }, ModuleEntry { base: 0x2000, dynamic: 0x2800 }]
    );
}

#[test]
fn registry_full_table_is_all_live() {
    let mut reg = Registry::new();
    for i in 0..MODULE_SLOTS {
        reg.register(i, i as u64, 0x10 + i as u64);
    }
    assert_eq!(reg.live_count(), MODULE_SLOTS);
    assert_eq!(reg.live_entries().len(), MODULE_SLOTS);
}

#[test]
fn strings_read_up_to_nul() {
    let mut m = vec![0u8; 0x20];
    put_bytes(&mut m, 4, b"abc");
    assert_eq!(read_cstr(&m, 4), b"abc".to_vec());
    assert_eq!(read_cstr(&m, 7), Vec::<u8>::new());
    assert!(cstr_equals(&m, 4, b"abc"));
    assert!(!cstr_equals(&m, 4, b"ab"));
    assert!(!cstr_equals(&m, 4, b"abcd"));
    put_bytes(&mut m, 0x1c, b"wxyz");
    assert_eq!(read_cstr(&m, 0x1c), b"wxyz".to_vec());
}

#[test]
fn words_are_little_endian_and_zero_outside() {
    let mut m = vec![0u8; 0x10];
    write_u64(&mut m, 2, 0x0102030405060708);
    assert_eq!(m[2], 0x08);
    assert_eq!(m[9], 0x01);
    assert_eq!(read_u64(&m, 2), 0x0102030405060708);
    assert_eq!(read_u32(&m, 2), 0x05060708);
    assert_eq!(read_u64(&m, 0x100), 0);
    assert_eq!(read_u64(&m, u64::MAX), 0);
    m[0xe] = 0x02;
    m[0xf] = 0x01;
    assert_eq!(read_u32(&m, 0xe), 0x0102);
}
