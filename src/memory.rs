//! A byte-addressed view of memory. Address `a` is index `a` of the backing
//! vector; every address past its end reads as zero, like unmapped memory
//! that a loader left blank.
use vstd::prelude::*;

verus! {

/// The byte at address `a`, zero outside the mapped range.
pub open spec fn byte_at(m: Seq<u8>, a: int) -> u8 {
    if 0 <= a < m.len() {
        m[a]
    } else {
        0
    }
}

/// `a + b`, held at `u64::MAX` where it would overflow.
pub open spec fn sat_add(a: u64, b: u64) -> u64 {
    if a as int + b as int > u64::MAX {
        u64::MAX
    } else {
        (a + b) as u64
    }
}

/// `a * b`, held at `u64::MAX` where it would overflow.
pub open spec fn sat_mul(a: u64, b: u64) -> u64 {
    if a as int * b as int > u64::MAX {
        u64::MAX
    } else {
        (a * b) as u64
    }
}

/// The little-endian `u32` stored at address `a`.
pub open spec fn le_u32(m: Seq<u8>, a: u64) -> u32 {
    (byte_at(m, a as int) as u32)
        | ((byte_at(m, sat_add(a, 1) as int) as u32) << 8u32)
        | ((byte_at(m, sat_add(a, 2) as int) as u32) << 16u32)
        | ((byte_at(m, sat_add(a, 3) as int) as u32) << 24u32)
}

/// The little-endian `u64` stored at address `a`.
pub open spec fn le_u64(m: Seq<u8>, a: u64) -> u64 {
    (le_u32(m, a) as u64) | ((le_u32(m, sat_add(a, 4)) as u64) << 32u64)
}

pub fn add_addr(a: u64, b: u64) -> (r: u64)
    ensures
        r == sat_add(a, b),
{
    match a.checked_add(b) {
        Some(s) => s,
        None => u64::MAX,
    }
}

pub fn mul_addr(a: u64, b: u64) -> (r: u64)
    ensures
        r == sat_mul(a, b),
{
    match a.checked_mul(b) {
        Some(s) => s,
        None => u64::MAX,
    }
}

pub fn read_u8(m: &[u8], a: u64) -> (r: u8)
    ensures
        r == byte_at(m@, a as int),
{
    if a < m.len() as u64 {
        m[a as usize]
    } else {
        0
    }
}

pub fn read_u32(m: &[u8], a: u64) -> (r: u32)
    ensures
        r == le_u32(m@, a),
{
    let b0 = read_u8(m, a) as u32;
    let b1 = read_u8(m, add_addr(a, 1)) as u32;
    let b2 = read_u8(m, add_addr(a, 2)) as u32;
    let b3 = read_u8(m, add_addr(a, 3)) as u32;
    b0 | (b1 << 8u32) | (b2 << 16u32) | (b3 << 24u32)
}

pub fn read_u64(m: &[u8], a: u64) -> (r: u64)
    ensures
        r == le_u64(m@, a),
{
    let lo = read_u32(m, a) as u64;
    let hi = read_u32(m, add_addr(a, 4)) as u64;
    lo | (hi << 32u64)
}

/// Reads the byte at `a + k` (as a mathematical sum), zero past the end of
/// memory or past the top of the address space.
pub fn read_byte_off(m: &[u8], a: u64, k: u64) -> (r: u8)
    ensures
        r == byte_at(m@, a + k),
{
    let n = m.len();
    assert(n as int <= u64::MAX);
    match a.checked_add(k) {
        Some(p) => read_u8(m, p),
        None => 0,
    }
}

/// Byte `k` (from the least significant) of `v`.
pub open spec fn le_byte(v: u64, k: int) -> u8 {
    ((v >> (8 * k) as u64) & 0xff) as u8
}

/// `new` is `old` with `v` stored little-endian at `a..a + 8`.
pub open spec fn stored_at(old: Seq<u8>, new: Seq<u8>, a: u64, v: u64) -> bool {
    &&& new.len() == old.len()
    &&& forall|i: int| a <= i < a + 8 ==> new[i] == le_byte(v, i - a)
    &&& forall|i: int| 0 <= i < old.len() && !(a <= i < a + 8) ==> new[i] == old[i]
}

/// Stores `v` little-endian at `a..a + 8`, leaving every other byte as it was.
pub fn write_u64(m: &mut Vec<u8>, a: u64, v: u64)
    requires
        a + 8 <= old(m)@.len(),
    ensures
        stored_at(old(m)@, final(m)@, a, v),
        le_u64(final(m)@, a) == v,
{
    let n = m.len();
    assert(n as int <= u64::MAX);
    let p = a as usize;
    m.set(p, (v & 0xff) as u8);
    m.set(p + 1, ((v >> 8u64) & 0xff) as u8);
    m.set(p + 2, ((v >> 16u64) & 0xff) as u8);
    m.set(p + 3, ((v >> 24u64) & 0xff) as u8);
    m.set(p + 4, ((v >> 32u64) & 0xff) as u8);
    m.set(p + 5, ((v >> 40u64) & 0xff) as u8);
    m.set(p + 6, ((v >> 48u64) & 0xff) as u8);
    m.set(p + 7, ((v >> 56u64) & 0xff) as u8);
    let ghost s = m@;
    assert(v >> 0u64 == v) by (bit_vector);
    assert(s[a as int] == le_byte(v, 0));
    assert(s[a + 1] == le_byte(v, 1));
    assert(s[a + 2] == le_byte(v, 2));
    assert(s[a + 3] == le_byte(v, 3));
    assert(s[a + 4] == le_byte(v, 4));
    assert(s[a + 5] == le_byte(v, 5));
    assert(s[a + 6] == le_byte(v, 6));
    assert(s[a + 7] == le_byte(v, 7));
    assert forall|i: int| a <= i < a + 8 implies s[i] == le_byte(v, i - a) by {
        assert(i == a + 0 || i == a + 1 || i == a + 2 || i == a + 3 || i == a + 4 || i == a + 5
            || i == a + 6 || i == a + 7);
    }
    assert(sat_add(a, 1) == a + 1 && sat_add(a, 2) == a + 2 && sat_add(a, 3) == a + 3);
    assert(sat_add(a, 4) == a + 4 && sat_add(sat_add(a, 4), 1) == a + 5);
    assert(sat_add(sat_add(a, 4), 2) == a + 6 && sat_add(sat_add(a, 4), 3) == a + 7);
    let ghost b0 = s[a as int];
    let ghost b1 = s[a + 1];
    let ghost b2 = s[a + 2];
    let ghost b3 = s[a + 3];
    let ghost b4 = s[a + 4];
    let ghost b5 = s[a + 5];
    let ghost b6 = s[a + 6];
    let ghost b7 = s[a + 7];
    assert(le_u64(s, a) == ((b0 as u32 | (b1 as u32) << 8u32 | (b2 as u32) << 16u32 | (b3 as u32)
        << 24u32) as u64) | (((b4 as u32 | (b5 as u32) << 8u32 | (b6 as u32) << 16u32 | (b7 as u32)
        << 24u32) as u64) << 32u64));
    assert(b0 == (v & 0xff) as u8 && b1 == ((v >> 8u64) & 0xff) as u8 && b2 == ((v >> 16u64) & 0xff) as u8
        && b3 == ((v >> 24u64) & 0xff) as u8 && b4 == ((v >> 32u64) & 0xff) as u8 && b5 == ((v >> 40u64)
        & 0xff) as u8 && b6 == ((v >> 48u64) & 0xff) as u8 && b7 == ((v >> 56u64) & 0xff) as u8);
    assert(((((v & 0xff) as u8) as u32 | (((v >> 8u64) & 0xff) as u8 as u32) << 8u32 | (((v >> 16u64)
        & 0xff) as u8 as u32) << 16u32 | (((v >> 24u64) & 0xff) as u8 as u32) << 24u32) as u64) | ((((((v
        >> 32u64) & 0xff) as u8) as u32 | (((v >> 40u64) & 0xff) as u8 as u32) << 8u32 | (((v >> 48u64)
        & 0xff) as u8 as u32) << 16u32 | (((v >> 56u64) & 0xff) as u8 as u32) << 24u32) as u64) << 32u64)
        == v) by (bit_vector);
}

/// The NUL-terminated string that starts at address `a`: the bytes up to,
/// not including, the first zero byte. Memory past its end reads as zero,
/// so every string ends.
pub open spec fn cstr(m: Seq<u8>, a: int) -> Seq<u8>
    decreases m.len() - a,
{
    if a < 0 || a >= m.len() || m[a] == 0 {
        Seq::empty()
    } else {
        seq![m[a]] + cstr(m, a + 1)
    }
}

pub open spec fn no_nul(s: Seq<u8>) -> bool {
    forall|k: int| 0 <= k < s.len() ==> s[k] != 0
}

/// `s` is spelled out at `a` and followed by a zero byte.
pub open spec fn spelled_at(m: Seq<u8>, a: int, s: Seq<u8>) -> bool {
    &&& forall|k: int| 0 <= k < s.len() ==> byte_at(m, a + k) == s[k]
    &&& byte_at(m, a + s.len()) == 0
}

pub proof fn lemma_cstr_spelled(m: Seq<u8>, a: int, s: Seq<u8>)
    requires
        0 <= a,
        no_nul(s),
    ensures
        cstr(m, a) == s <==> spelled_at(m, a, s),
    decreases s.len(),
{
    if s.len() == 0 {
        if spelled_at(m, a, s) {
            assert(byte_at(m, a + 0) == 0);
            assert(cstr(m, a) =~= s);
        }
        if cstr(m, a) == s {
            if 0 <= a < m.len() && m[a] != 0 {
                assert(cstr(m, a).len() >= 1);
            }
        }
    } else {
        let rest = s.drop_first();
        lemma_cstr_spelled(m, a + 1, rest);
        if cstr(m, a) == s {
            if a >= m.len() || m[a] == 0 {
                assert(cstr(m, a).len() == 0);
            }
            assert(cstr(m, a + 1) == rest);
            assert forall|k: int| 0 <= k < s.len() implies byte_at(m, a + k) == s[k] by {
                if k > 0 {
                    assert(byte_at(m, (a + 1) + (k - 1)) == rest[k - 1]);
                }
            }
            assert(byte_at(m, (a + 1) + rest.len()) == 0);
        }
        if spelled_at(m, a, s) {
            assert(byte_at(m, a + 0) == s[0]);
            assert forall|k: int| 0 <= k < rest.len() implies byte_at(m, (a + 1) + k) == rest[k] by {
                assert(byte_at(m, a + (k + 1)) == s[k + 1]);
            }
            assert(byte_at(m, a + s.len()) == 0);
            assert(cstr(m, a + 1) == rest);
            assert(seq![m[a]] + rest =~= s);
        }
    }
}

/// Copies out the NUL-terminated string at `a`.
pub fn read_cstr(m: &[u8], a: u64) -> (r: Vec<u8>)
    ensures
        r@ == cstr(m@, a as int),
        no_nul(r@),
{
    let mut v: Vec<u8> = Vec::new();
    let mut p: u64 = a;
    let n = m.len();
    assert(n as int <= u64::MAX);
    let mut b = read_u8(m, p);
    while b != 0
        invariant
            p == a + v@.len(),
            b == byte_at(m@, p as int),
            forall|k: int| 0 <= k < v@.len() ==> byte_at(m@, a + k) == v@[k],
            no_nul(v@),
            n == m@.len(),
            n as int <= u64::MAX,
        decreases m@.len() - p,
    {
        v.push(b);
        p = p + 1;
        b = read_u8(m, p);
    }
    proof {
        lemma_cstr_spelled(m@, a as int, v@);
    }
    v
}

/// Whether the NUL-terminated string at `a` is exactly `name`.
pub fn cstr_equals(m: &[u8], a: u64, name: &[u8]) -> (r: bool)
    requires
        no_nul(name@),
    ensures
        r == (cstr(m@, a as int) == name@),
{
    proof {
        lemma_cstr_spelled(m@, a as int, name@);
    }
    let mut i: usize = 0;
    while i < name.len()
        invariant
            i <= name@.len(),
            forall|k: int| 0 <= k < i ==> byte_at(m@, a + k) == name@[k],
            no_nul(name@),
        decreases name@.len() - i,
    {
        if read_byte_off(m, a, i as u64) != name[i] {
            assert(byte_at(m@, a + i) != name@[i as int]);
            assert(!spelled_at(m@, a as int, name@));
            proof {
                lemma_cstr_spelled(m@, a as int, name@);
            }
            return false;
        }
        i = i + 1;
    }
    read_byte_off(m, a, i as u64) == 0
}

} // verus!
