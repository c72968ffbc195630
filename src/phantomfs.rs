//! On-disk records of the PhantomFS object filesystem, and the root
//! descriptor that sits 1024 bytes into a partition. Optional references
//! are stored as a `u64` where zero means "none".
use vstd::prelude::*;

use crate::memory::{le_byte, le_u32, le_u64, read_u32, read_u64, sat_add};

verus! {

/// The first four bytes of a root descriptor.
pub const PHANTOMFS_MAGIC: [u8; 4] = [0x0f, 0x53, 0x50, 0x68];

/// Names of an object's well-known streams, each with its terminating zero.
pub const STREAM_STREAMS: [u8; 8] = [0x53, 0x74, 0x72, 0x65, 0x61, 0x6d, 0x73, 0];

pub const STREAM_CUSTOM_OBJECT_INFO: [u8; 17] = [
    0x43, 0x75, 0x73, 0x74, 0x6f, 0x6d, 0x4f, 0x62, 0x6a, 0x65, 0x63, 0x74, 0x49, 0x6e, 0x66, 0x6f, 0,
];

pub const STREAM_STRINGS: [u8; 8] = [0x53, 0x74, 0x72, 0x69, 0x6e, 0x67, 0x73, 0];

pub const STREAM_FILE_DATA: [u8; 9] = [0x46, 0x69, 0x6c, 0x65, 0x44, 0x61, 0x74, 0x61, 0];

pub const STREAM_DIRECTORY_CONTENT: [u8; 17] = [
    0x44, 0x69, 0x72, 0x65, 0x63, 0x74, 0x6f, 0x72, 0x79, 0x43, 0x6f, 0x6e, 0x74, 0x65, 0x6e, 0x74, 0,
];

pub const STREAM_SYMLINK_TARGET: [u8; 14] = [
    0x53, 0x79, 0x6d, 0x6c, 0x69, 0x6e, 0x6b, 0x54, 0x61, 0x72, 0x67, 0x65, 0x74, 0,
];

pub const STREAM_DEVICEID: [u8; 9] = [0x44, 0x65, 0x76, 0x69, 0x63, 0x65, 0x49, 0x64, 0];

pub const STREAM_LEGACY_DEVICE_NUMBER: [u8; 19] = [
    0x4c, 0x65, 0x67, 0x61, 0x63, 0x79, 0x44, 0x65, 0x76, 0x69, 0x63, 0x65, 0x4e, 0x75, 0x6d, 0x62,
    0x65, 0x72, 0,
];

pub const STREAM_SECURITY_DESCRIPTOR: [u8; 19] = [
    0x53, 0x65, 0x63, 0x75, 0x72, 0x69, 0x74, 0x79, 0x44, 0x65, 0x73, 0x63, 0x72, 0x69, 0x70, 0x74,
    0x6f, 0x72, 0,
];

pub const MAJOR_VERSION: u32 = 1;

pub const MINOR_VERSION: u32 = 0;

pub const REVISION: u32 = 0;

/// Bytes in an encoded root descriptor.
pub const DESCRIPTOR_SIZE: usize = 128;

/// Byte offset of the root descriptor in a partition.
pub const DESCRIPTOR_OFFSET: u64 = 1024;

pub const STREAM_REQUIRED: u64 = 0x1;

pub const STREAM_WRITE_REQUIRED: u64 = 0x2;

pub const STREAM_ENUM_REQUIRED: u64 = 0x4;

pub const OBJECT_REGULAR: u16 = 0;

pub const OBJECT_DIRECTORY: u16 = 1;

pub const OBJECT_SYMLINK: u16 = 2;

pub const OBJECT_FIFO: u16 = 3;

pub const OBJECT_SOCKET: u16 = 4;

pub const OBJECT_BLOCK_DEVICE: u16 = 5;

pub const OBJECT_CHAR_DEVICE: u16 = 6;

pub const OBJECT_CUSTOM: u16 = 65535;

/// One object of the object table.
#[derive(Clone, Copy, Debug, PartialEq, Eq, Hash)]
pub struct PhantomFSObject {
    pub strong_ref: u32,
    pub weak_ref: u32,
    pub streams_size: u64,
    pub streams_ref: u128,
    pub streams_indirection: u8,
    pub reserved33: [u8; 5],
    pub ty: u16,
    pub flags: u32,
    pub reserved44: [u8; 20],
}

/// One stream of an object.
#[derive(Clone, Copy, Debug, PartialEq, Eq, Hash)]
pub struct StreamListing {
    pub name: [u8; 32],
    pub name_ref: u64,
    pub flags: u64,
    pub size: u64,
    pub reserved: [u64; 3],
    pub inline_data: [u8; 48],
}

/// One entry of a directory's content stream.
#[derive(Clone, Copy, Debug, PartialEq, Eq, Hash)]
pub struct DirectoryElement {
    pub objidx: u64,
    pub name_index: u64,
    pub flags: u64,
    pub name: [u8; 40],
}

#[derive(Clone, Copy, Debug, PartialEq, Eq, Hash)]
pub struct DeviceId {
    pub id_hi: u64,
    pub id_lo: u64,
}

#[derive(Clone, Copy, Debug, PartialEq, Eq, Hash)]
pub struct LegacyDeviceNumber {
    pub major: u32,
    pub minor: u32,
}

#[derive(Clone, Copy, Debug, PartialEq, Eq, Hash)]
pub struct SecurityDescriptorRow {
    pub principal: u128,
    pub stream_id: u64,
    pub flags_and_mode: u64,
    pub permission_name_ref: u64,
    pub permission_name: [u8; 24],
}

#[derive(Clone, Copy, Debug, PartialEq, Eq, Hash)]
pub struct LegacySecurityDescriptor {
    pub sd_uid: u32,
    pub sd_gid: u32,
    pub sd_mode: u16,
    pub sd_reserved: [u8; 6],
}

/// The root descriptor of a PhantomFS partition.
#[derive(Clone, Copy, Debug, PartialEq, Eq, Hash)]
pub struct RootFSDescriptor {
    pub magic: [u8; 4],
    pub major: u32,
    pub minor: u32,
    pub revision: u32,
    pub partid: u128,
    pub features: u64,
    pub rofeatures: u64,
    pub objtab: u128,
    pub objtabsize: u64,
    pub rootidx: u64,
    pub partnameidx: u64,
    pub partname: [u8; 24],
    pub reserved112: [u8; 8],
    pub descriptor_size: u32,
    pub descriptor_crc: u32,
}

/// The four little-endian bytes of `x`.
pub open spec fn bytes_u32(x: u32) -> Seq<u8> {
    Seq::new(4, |k: int| le_byte(x as u64, k))
}

/// The eight little-endian bytes of `x`.
pub open spec fn bytes_u64(x: u64) -> Seq<u8> {
    Seq::new(8, |k: int| le_byte(x, k))
}

/// The sixteen little-endian bytes of `x`.
pub open spec fn bytes_u128(x: u128) -> Seq<u8> {
    bytes_u64((x % 0x1_0000_0000_0000_0000) as u64) + bytes_u64(
        (x / 0x1_0000_0000_0000_0000) as u64,
    )
}

/// The 128 on-disk bytes of a root descriptor, fields in order, integers
/// little-endian.
pub open spec fn encode_descriptor(d: RootFSDescriptor) -> Seq<u8> {
    d.magic@ + bytes_u32(d.major) + bytes_u32(d.minor) + bytes_u32(d.revision) + bytes_u128(
        d.partid,
    ) + bytes_u64(d.features) + bytes_u64(d.rofeatures) + bytes_u128(d.objtab) + bytes_u64(
        d.objtabsize,
    ) + bytes_u64(d.rootidx) + bytes_u64(d.partnameidx) + d.partname@ + d.reserved112@ + bytes_u32(
        d.descriptor_size,
    ) + bytes_u32(d.descriptor_crc)
}

fn push_u64(v: &mut Vec<u8>, x: u64)
    ensures
        final(v)@ == old(v)@ + bytes_u64(x),
{
    v.push((x & 0xff) as u8);
    v.push(((x >> 8u64) & 0xff) as u8);
    v.push(((x >> 16u64) & 0xff) as u8);
    v.push(((x >> 24u64) & 0xff) as u8);
    v.push(((x >> 32u64) & 0xff) as u8);
    v.push(((x >> 40u64) & 0xff) as u8);
    v.push(((x >> 48u64) & 0xff) as u8);
    v.push(((x >> 56u64) & 0xff) as u8);
    assert(x >> 0u64 == x) by (bit_vector);
    assert(v@ =~= old(v)@ + bytes_u64(x));
}

fn push_u32(v: &mut Vec<u8>, x: u32)
    ensures
        final(v)@ == old(v)@ + bytes_u32(x),
{
    let y = x as u64;
    v.push((y & 0xff) as u8);
    v.push(((y >> 8u64) & 0xff) as u8);
    v.push(((y >> 16u64) & 0xff) as u8);
    v.push(((y >> 24u64) & 0xff) as u8);
    assert(y >> 0u64 == y) by (bit_vector);
    assert(v@ =~= old(v)@ + bytes_u32(x));
}

fn push_u128(v: &mut Vec<u8>, x: u128)
    ensures
        final(v)@ == old(v)@ + bytes_u128(x),
{
    push_u64(v, (x % 0x1_0000_0000_0000_0000) as u64);
    push_u64(v, (x / 0x1_0000_0000_0000_0000) as u64);
    assert(v@ =~= old(v)@ + bytes_u128(x));
}

fn push_all(v: &mut Vec<u8>, a: &[u8])
    ensures
        final(v)@ == old(v)@ + a@,
{
    let mut i: usize = 0;
    while i < a.len()
        invariant
            i <= a@.len(),
            v@ == old(v)@ + a@.subrange(0, i as int),
        decreases a@.len() - i,
    {
        v.push(a[i]);
        assert(old(v)@ + a@.subrange(0, i + 1) =~= old(v)@ + a@.subrange(0, i as int) + seq![a@[i as int]]);
        i = i + 1;
    }
    assert(a@.subrange(0, i as int) =~= a@);
}

impl RootFSDescriptor {
    /// The descriptor of a fresh filesystem: magic, version, partition id
    /// and size set, everything else zero, the checksum included.
    pub fn fresh(partid: u128) -> (r: RootFSDescriptor)
        ensures
            is_fresh_descriptor(r, partid),
    {
        let r = RootFSDescriptor {
            magic: PHANTOMFS_MAGIC,
            major: MAJOR_VERSION,
            minor: MINOR_VERSION,
            revision: REVISION,
            partid,
            features: 0,
            rofeatures: 0,
            objtab: 0,
            objtabsize: 0,
            rootidx: 0,
            partnameidx: 0,
            partname: [0u8; 24],
            reserved112: [0u8; 8],
            descriptor_size: 128,
            descriptor_crc: 0,
        };
        assert(r.partname@ =~= Seq::new(24, |i: int| 0u8));
        assert(r.reserved112@ =~= Seq::new(8, |i: int| 0u8));
        r
    }

    /// The on-disk bytes of this descriptor.
    pub fn to_bytes(&self) -> (r: Vec<u8>)
        ensures
            r@ == encode_descriptor(*self),
            r@.len() == DESCRIPTOR_SIZE,
    {
        let mut v: Vec<u8> = Vec::new();
        push_all(&mut v, &self.magic);
        push_u32(&mut v, self.major);
        push_u32(&mut v, self.minor);
        push_u32(&mut v, self.revision);
        push_u128(&mut v, self.partid);
        push_u64(&mut v, self.features);
        push_u64(&mut v, self.rofeatures);
        push_u128(&mut v, self.objtab);
        push_u64(&mut v, self.objtabsize);
        push_u64(&mut v, self.rootidx);
        push_u64(&mut v, self.partnameidx);
        push_all(&mut v, &self.partname);
        push_all(&mut v, &self.reserved112);
        push_u32(&mut v, self.descriptor_size);
        push_u32(&mut v, self.descriptor_crc);
        assert(v@ =~= encode_descriptor(*self));
        v
    }
}

/// `d` is the descriptor of a fresh filesystem on partition `partid`,
/// before its checksum is set.
pub open spec fn is_fresh_descriptor(d: RootFSDescriptor, partid: u128) -> bool {
    &&& d.magic@ == PHANTOMFS_MAGIC@
    &&& d.major == MAJOR_VERSION
    &&& d.minor == MINOR_VERSION
    &&& d.revision == REVISION
    &&& d.partid == partid
    &&& d.features == 0
    &&& d.rofeatures == 0
    &&& d.objtab == 0
    &&& d.objtabsize == 0
    &&& d.rootidx == 0
    &&& d.partnameidx == 0
    &&& d.partname@ == Seq::new(24, |i: int| 0u8)
    &&& d.reserved112@ == Seq::new(8, |i: int| 0u8)
    &&& d.descriptor_size == DESCRIPTOR_SIZE
    &&& d.descriptor_crc == 0
}

proof fn lemma_bytes_u32(s: Seq<u8>, off: u64)
    requires
        off + 4 <= s.len(),
        off + 4 <= u64::MAX,
    ensures
        bytes_u32(le_u32(s, off)) == s.subrange(off as int, off + 4),
{
    let b0 = s[off as int];
    let b1 = s[off + 1];
    let b2 = s[off + 2];
    let b3 = s[off + 3];
    assert(sat_add(off, 1) == off + 1 && sat_add(off, 2) == off + 2 && sat_add(off, 3) == off + 3);
    let x = le_u32(s, off);
    assert(x == (b0 as u32 | (b1 as u32) << 8u32 | (b2 as u32) << 16u32 | (b3 as u32) << 24u32));
    assert(((((b0 as u32 | (b1 as u32) << 8u32 | (b2 as u32) << 16u32 | (b3 as u32) << 24u32) as u64)
        & 0xff) as u8) == b0 && (((((b0 as u32 | (b1 as u32) << 8u32 | (b2 as u32) << 16u32 | (b3 as u32)
        << 24u32) as u64) >> 8u64) & 0xff) as u8) == b1 && (((((b0 as u32 | (b1 as u32) << 8u32 | (b2
        as u32) << 16u32 | (b3 as u32) << 24u32) as u64) >> 16u64) & 0xff) as u8) == b2 && (((((b0 as u32
        | (b1 as u32) << 8u32 | (b2 as u32) << 16u32 | (b3 as u32) << 24u32) as u64) >> 24u64) & 0xff)
        as u8) == b3) by (bit_vector);
    assert((x as u64) >> 0u64 == x as u64) by (bit_vector);
    assert(bytes_u32(x) =~= s.subrange(off as int, off + 4));
}

proof fn lemma_bytes_u64(s: Seq<u8>, off: u64)
    requires
        off + 8 <= s.len(),
        off + 8 <= u64::MAX,
    ensures
        bytes_u64(le_u64(s, off)) == s.subrange(off as int, off + 8),
{
    let b0 = s[off as int];
    let b1 = s[off + 1];
    let b2 = s[off + 2];
    let b3 = s[off + 3];
    let b4 = s[off + 4];
    let b5 = s[off + 5];
    let b6 = s[off + 6];
    let b7 = s[off + 7];
    assert(sat_add(off, 1) == off + 1 && sat_add(off, 2) == off + 2 && sat_add(off, 3) == off + 3);
    assert(sat_add(off, 4) == off + 4 && sat_add(sat_add(off, 4), 1) == off + 5);
    assert(sat_add(sat_add(off, 4), 2) == off + 6 && sat_add(sat_add(off, 4), 3) == off + 7);
    let x = le_u64(s, off);
    assert(x == ((b0 as u32 | (b1 as u32) << 8u32 | (b2 as u32) << 16u32 | (b3 as u32) << 24u32) as u64)
        | (((b4 as u32 | (b5 as u32) << 8u32 | (b6 as u32) << 16u32 | (b7 as u32) << 24u32) as u64)
        << 32u64));
    assert(({
        let y = ((b0 as u32 | (b1 as u32) << 8u32 | (b2 as u32) << 16u32 | (b3 as u32) << 24u32) as u64)
            | (((b4 as u32 | (b5 as u32) << 8u32 | (b6 as u32) << 16u32 | (b7 as u32) << 24u32) as u64)
            << 32u64);
        &&& ((y >> 0u64) & 0xff) as u8 == b0
        &&& ((y >> 8u64) & 0xff) as u8 == b1
        &&& ((y >> 16u64) & 0xff) as u8 == b2
        &&& ((y >> 24u64) & 0xff) as u8 == b3
        &&& ((y >> 32u64) & 0xff) as u8 == b4
        &&& ((y >> 40u64) & 0xff) as u8 == b5
        &&& ((y >> 48u64) & 0xff) as u8 == b6
        &&& ((y >> 56u64) & 0xff) as u8 == b7
    })) by (bit_vector);
    assert(bytes_u64(x) =~= s.subrange(off as int, off + 8));
}

proof fn lemma_magic_of_bytes(d: RootFSDescriptor, s: Seq<u8>)
    requires
        s.len() >= DESCRIPTOR_SIZE,
        encode_descriptor(d) == s.subrange(0, DESCRIPTOR_SIZE as int),
    ensures
        d.magic@ == s.subrange(0, 4),
{
    assert(d.magic@.len() == 4);
    assert forall|k: int| 0 <= k < 4 implies d.magic@[k] == s[k] by {
        assert(encode_descriptor(d)[k] == s.subrange(0, DESCRIPTOR_SIZE as int)[k]);
    }
    assert(d.magic@ =~= s.subrange(0, 4));
}

fn read_u128(s: &[u8], off: u64) -> (r: u128)
    requires
        off + 16 <= s@.len(),
        off + 16 <= u64::MAX,
    ensures
        bytes_u128(r) == s@.subrange(off as int, off + 16),
{
    let lo = read_u64(s, off);
    let hi = read_u64(s, off + 8);
    proof {
        lemma_bytes_u64(s@, off);
        lemma_bytes_u64(s@, (off + 8) as u64);
    }
    let r: u128 = (hi as u128) * 0x1_0000_0000_0000_0000 + lo as u128;
    assert(r % 0x1_0000_0000_0000_0000 == lo && r / 0x1_0000_0000_0000_0000 == hi) by (nonlinear_arith)
        requires
            r == hi * 0x1_0000_0000_0000_0000 + lo,
            lo < 0x1_0000_0000_0000_0000,
    ;
    assert(bytes_u128(r) =~= s@.subrange(off as int, off + 16));
    r
}

fn read_array<const N: usize>(s: &[u8], off: usize) -> (r: [u8; N])
    requires
        off + N <= s@.len(),
    ensures
        r@ == s@.subrange(off as int, off + N),
{
    let mut a = [0u8; N];
    let n = s.len();
    let mut i: usize = 0;
    while i < N
        invariant
            off + N <= s@.len(),
            n == s@.len(),
            i <= N,
            a@.len() == N,
            forall|k: int| 0 <= k < i ==> a@[k] == s@[off + k],
        decreases N - i,
    {
        a[i] = s[off + i];
        i = i + 1;
    }
    assert(a@ =~= s@.subrange(off as int, off + N));
    a
}

/// Why bytes do not hold a root descriptor.
#[derive(Clone, Copy, Debug, PartialEq, Eq, Structural)]
pub enum DescriptorError {
    /// Fewer than 128 bytes.
    Truncated,
    /// The first four bytes are not the PhantomFS magic.
    InvalidMagic,
}

impl RootFSDescriptor {
    /// Decodes the first 128 bytes of `bytes` as a descriptor, whatever
    /// they hold.
    pub fn decode(bytes: &[u8]) -> (r: RootFSDescriptor)
        requires
            bytes@.len() >= DESCRIPTOR_SIZE,
        ensures
            encode_descriptor(r) == bytes@.subrange(0, DESCRIPTOR_SIZE as int),
    {
        let d = RootFSDescriptor {
            magic: read_array(bytes, 0),
            major: read_u32(bytes, 4),
            minor: read_u32(bytes, 8),
            revision: read_u32(bytes, 12),
            partid: read_u128(bytes, 16),
            features: read_u64(bytes, 32),
            rofeatures: read_u64(bytes, 40),
            objtab: read_u128(bytes, 48),
            objtabsize: read_u64(bytes, 64),
            rootidx: read_u64(bytes, 72),
            partnameidx: read_u64(bytes, 80),
            partname: read_array(bytes, 88),
            reserved112: read_array(bytes, 112),
            descriptor_size: read_u32(bytes, 120),
            descriptor_crc: read_u32(bytes, 124),
        };
        proof {
            let s = bytes@;
            lemma_bytes_u32(s, 4);
            lemma_bytes_u32(s, 8);
            lemma_bytes_u32(s, 12);
            lemma_bytes_u64(s, 32);
            lemma_bytes_u64(s, 40);
            lemma_bytes_u64(s, 64);
            lemma_bytes_u64(s, 72);
            lemma_bytes_u64(s, 80);
            lemma_bytes_u32(s, 120);
            lemma_bytes_u32(s, 124);
            assert(encode_descriptor(d) =~= s.subrange(0, 128));
        }
        d
    }

    /// Whether the descriptor starts with the PhantomFS magic.
    pub fn has_magic(&self) -> (r: bool)
        ensures
            r == (self.magic@ == PHANTOMFS_MAGIC@),
    {
        let ok = self.magic[0] == PHANTOMFS_MAGIC[0] && self.magic[1] == PHANTOMFS_MAGIC[1]
            && self.magic[2] == PHANTOMFS_MAGIC[2] && self.magic[3] == PHANTOMFS_MAGIC[3];
        if ok {
            assert(self.magic@ =~= PHANTOMFS_MAGIC@);
        }
        ok
    }

    /// Decodes the descriptor held by the first 128 bytes of `bytes`,
    /// provided they start with the magic.
    pub fn parse(bytes: &[u8]) -> (r: Result<RootFSDescriptor, DescriptorError>)
        ensures
            bytes@.len() < DESCRIPTOR_SIZE <==> r == Err::<RootFSDescriptor, DescriptorError>(
                DescriptorError::Truncated,
            ),
            bytes@.len() >= DESCRIPTOR_SIZE && bytes@.subrange(0, 4) != PHANTOMFS_MAGIC@ <==> r == Err::<
                RootFSDescriptor,
                DescriptorError,
            >(DescriptorError::InvalidMagic),
            r matches Ok(d) ==> encode_descriptor(d) == bytes@.subrange(0, DESCRIPTOR_SIZE as int),
    {
        if bytes.len() < DESCRIPTOR_SIZE {
            return Err(DescriptorError::Truncated);
        }
        let d = RootFSDescriptor::decode(bytes);
        proof {
            lemma_magic_of_bytes(d, bytes@);
        }
        if !d.has_magic() {
            return Err(DescriptorError::InvalidMagic);
        }
        Ok(d)
    }

    /// This descriptor with its checksum field set to `crc`.
    pub fn with_checksum(self, crc: u32) -> (r: RootFSDescriptor)
        ensures
            r == (RootFSDescriptor { descriptor_crc: crc, ..self }),
    {
        RootFSDescriptor { descriptor_crc: crc, ..self }
    }
}

/// The CRC-32 (IEEE 802.3, reflected, as zlib computes it) of some bytes.
pub uninterp spec fn crc32_of(b: Seq<u8>) -> u32;

/// Relies on crc_any's `CRCu32::crc32`, `digest` and `get_crc`: the CRC-32
/// of the bytes, which depends on the bytes alone.
#[verifier::external_body]
fn crc32(b: &[u8]) -> (r: u32)
    ensures
        r == crc32_of(b@),
{
    let mut crc = crc_any::CRCu32::crc32();
    crc.digest(b);
    crc.get_crc()
}

/// `d` is the descriptor of a fresh filesystem on partition `partid`, with
/// its checksum taken over its bytes while the checksum field was zero.
pub open spec fn is_new_fs_descriptor(d: RootFSDescriptor, partid: u128) -> bool {
    let unsealed = RootFSDescriptor { descriptor_crc: 0, ..d };
    &&& is_fresh_descriptor(unsealed, partid)
    &&& d.descriptor_crc == crc32_of(encode_descriptor(unsealed))
}

/// A PhantomFS volume over a byte stream of type `S`, with the root
/// descriptor once it is known.
pub struct PhantomFS<S> {
    stream: S,
    descriptor: Option<RootFSDescriptor>,
}

impl<S> PhantomFS<S> {
    pub closed spec fn stream_spec(&self) -> S {
        self.stream
    }

    pub closed spec fn descriptor_spec(&self) -> Option<RootFSDescriptor> {
        self.descriptor
    }

    /// A volume over `inner` whose descriptor is not read yet.
    pub fn new(inner: S) -> (r: Self)
        ensures
            r.stream_spec() == inner,
            r.descriptor_spec() is None,
    {
        PhantomFS { stream: inner, descriptor: None }
    }

    /// Gives the stream back.
    pub fn into_inner(self) -> (r: S)
        ensures
            r == self.stream_spec(),
    {
        self.stream
    }

    pub fn descriptor(&self) -> (r: Option<RootFSDescriptor>)
        ensures
            r == self.descriptor_spec(),
    {
        self.descriptor
    }

    /// Sets up the descriptor of a new, empty filesystem on partition `partid`.
    pub fn create_new_fs(&mut self, partid: u128)
        ensures
            final(self).stream_spec() == old(self).stream_spec(),
            final(self).descriptor_spec() matches Some(d) && is_new_fs_descriptor(d, partid),
    {
        let desc = RootFSDescriptor::fresh(partid);
        let bytes = desc.to_bytes();
        let crc = crc32(bytes.as_slice());
        let sealed = desc.with_checksum(crc);
        assert(RootFSDescriptor { descriptor_crc: 0, ..sealed } == desc);
        self.descriptor = Some(sealed);
    }

    /// Takes the descriptor from the bytes read at its place on the volume.
    /// Any 128 bytes are taken, and then checked for the magic; fewer leave
    /// the volume's descriptor as it was.
    pub fn load_descriptor(&mut self, bytes: &[u8]) -> (r: Result<(), DescriptorError>)
        ensures
            final(self).stream_spec() == old(self).stream_spec(),
            bytes@.len() < DESCRIPTOR_SIZE ==> r == Err::<(), DescriptorError>(
                DescriptorError::Truncated,
            ) && final(self).descriptor_spec() == old(self).descriptor_spec(),
            bytes@.len() >= DESCRIPTOR_SIZE ==> (final(self).descriptor_spec() matches Some(d)
                && encode_descriptor(d) == bytes@.subrange(0, DESCRIPTOR_SIZE as int)),
            bytes@.len() >= DESCRIPTOR_SIZE && bytes@.subrange(0, 4) != PHANTOMFS_MAGIC@ ==> r
                == Err::<(), DescriptorError>(DescriptorError::InvalidMagic),
            bytes@.len() >= DESCRIPTOR_SIZE && bytes@.subrange(0, 4) == PHANTOMFS_MAGIC@ ==> r is Ok,
    {
        if bytes.len() < DESCRIPTOR_SIZE {
            return Err(DescriptorError::Truncated);
        }
        let d = RootFSDescriptor::decode(bytes);
        proof {
            lemma_magic_of_bytes(d, bytes@);
        }
        self.descriptor = Some(d);
        if !d.has_magic() {
            return Err(DescriptorError::InvalidMagic);
        }
        Ok(())
    }

    /// Replaces the descriptor, as a caller does before writing changed fields.
    pub fn set_descriptor(&mut self, d: RootFSDescriptor)
        ensures
            final(self).stream_spec() == old(self).stream_spec(),
            final(self).descriptor_spec() == Some(d),
    {
        self.descriptor = Some(d);
    }

    /// The bytes to write at the descriptor's place, if there is a descriptor.
    pub fn descriptor_bytes(&self) -> (r: Option<Vec<u8>>)
        ensures
            match self.descriptor_spec() {
                Some(d) => r matches Some(b) && b@ == encode_descriptor(d),
                None => r is None,
            },
    {
        match self.descriptor {
            Some(d) => Some(d.to_bytes()),
            None => None,
        }
    }
}

/// The two little-endian bytes of `x`.
pub open spec fn bytes_u16(x: u16) -> Seq<u8> {
    Seq::new(2, |k: int| le_byte(x as u64, k))
}

fn push_u16(v: &mut Vec<u8>, x: u16)
    ensures
        final(v)@ == old(v)@ + bytes_u16(x),
{
    let y = x as u64;
    v.push((y & 0xff) as u8);
    v.push(((y >> 8u64) & 0xff) as u8);
    assert(y >> 0u64 == y) by (bit_vector);
    assert(v@ =~= old(v)@ + bytes_u16(x));
}

fn read_u16(s: &[u8], off: usize) -> (r: u16)
    requires
        off + 2 <= s@.len(),
    ensures
        bytes_u16(r) == s@.subrange(off as int, off + 2),
{
    let b0 = s[off];
    let b1 = s[off + 1];
    let r: u16 = (b0 as u16) | ((b1 as u16) << 8u16);
    assert(((((b0 as u16) | ((b1 as u16) << 8u16)) as u64) & 0xff) as u8 == b0 && (((((b0 as u16) | ((b1
        as u16) << 8u16)) as u64) >> 8u64) & 0xff) as u8 == b1) by (bit_vector);
    assert((r as u64) >> 0u64 == r as u64) by (bit_vector);
    assert(bytes_u16(r) =~= s@.subrange(off as int, off + 2));
    r
}

/// The 64 on-disk bytes of a `PhantomFSObject`, fields in order, integers
/// little-endian.
pub open spec fn encode_phantom_fs_object(r: PhantomFSObject) -> Seq<u8> {
    bytes_u32(r.strong_ref) + bytes_u32(r.weak_ref) + bytes_u64(r.streams_size) + bytes_u128(r.streams_ref) + seq![r.streams_indirection] + r.reserved33@ + bytes_u16(r.ty) + bytes_u32(r.flags) + r.reserved44@
}

impl PhantomFSObject {
    /// Bytes in an encoded record.
    pub const SIZE: usize = 64;

    /// The on-disk bytes of this record.
    pub fn to_bytes(&self) -> (r: Vec<u8>)
        ensures
            r@ == encode_phantom_fs_object(*self),
            r@.len() == 64,
    {
        let mut v: Vec<u8> = Vec::new();
        push_u32(&mut v, self.strong_ref);
        push_u32(&mut v, self.weak_ref);
        push_u64(&mut v, self.streams_size);
        push_u128(&mut v, self.streams_ref);
        v.push(self.streams_indirection);
        push_all(&mut v, &self.reserved33);
        push_u16(&mut v, self.ty);
        push_u32(&mut v, self.flags);
        push_all(&mut v, &self.reserved44);
        assert(v@ =~= encode_phantom_fs_object(*self));
        v
    }

    /// Decodes the record held by the first 64 bytes of `bytes`.
    pub fn decode(bytes: &[u8]) -> (r: PhantomFSObject)
        requires
            bytes@.len() >= 64,
        ensures
            encode_phantom_fs_object(r) == bytes@.subrange(0, 64),
    {
        let r = PhantomFSObject {
            strong_ref: read_u32(bytes, 0),
            weak_ref: read_u32(bytes, 4),
            streams_size: read_u64(bytes, 8),
            streams_ref: read_u128(bytes, 16),
            streams_indirection: bytes[32],
            reserved33: read_array(bytes, 33),
            ty: read_u16(bytes, 38),
            flags: read_u32(bytes, 40),
            reserved44: read_array(bytes, 44),
        };
        proof {
            let s = bytes@;
            lemma_bytes_u32(s, 0);
            lemma_bytes_u32(s, 4);
            lemma_bytes_u64(s, 8);
            lemma_bytes_u32(s, 40);
            assert(encode_phantom_fs_object(r) =~= s.subrange(0, 64));
        }
        r
    }
}

/// The 128 on-disk bytes of a `StreamListing`, fields in order, integers
/// little-endian.
pub open spec fn encode_stream_listing(r: StreamListing) -> Seq<u8> {
    r.name@ + bytes_u64(r.name_ref) + bytes_u64(r.flags) + bytes_u64(r.size) + bytes_u64(r.reserved[0]) + bytes_u64(r.reserved[1]) + bytes_u64(r.reserved[2]) + r.inline_data@
}

impl StreamListing {
    /// Bytes in an encoded record.
    pub const SIZE: usize = 128;

    /// The on-disk bytes of this record.
    pub fn to_bytes(&self) -> (r: Vec<u8>)
        ensures
            r@ == encode_stream_listing(*self),
            r@.len() == 128,
    {
        let mut v: Vec<u8> = Vec::new();
        push_all(&mut v, &self.name);
        push_u64(&mut v, self.name_ref);
        push_u64(&mut v, self.flags);
        push_u64(&mut v, self.size);
        push_u64(&mut v, self.reserved[0]);
        push_u64(&mut v, self.reserved[1]);
        push_u64(&mut v, self.reserved[2]);
        push_all(&mut v, &self.inline_data);
        assert(v@ =~= encode_stream_listing(*self));
        v
    }

    /// Decodes the record held by the first 128 bytes of `bytes`.
    pub fn decode(bytes: &[u8]) -> (r: StreamListing)
        requires
            bytes@.len() >= 128,
        ensures
            encode_stream_listing(r) == bytes@.subrange(0, 128),
    {
        let r = StreamListing {
            name: read_array(bytes, 0),
            name_ref: read_u64(bytes, 32),
            flags: read_u64(bytes, 40),
            size: read_u64(bytes, 48),
            reserved: [read_u64(bytes, 56), read_u64(bytes, 64), read_u64(bytes, 72)],
            inline_data: read_array(bytes, 80),
        };
        proof {
            let s = bytes@;
            lemma_bytes_u64(s, 32);
            lemma_bytes_u64(s, 40);
            lemma_bytes_u64(s, 48);
            lemma_bytes_u64(s, 56);
            lemma_bytes_u64(s, 64);
            lemma_bytes_u64(s, 72);
            assert(encode_stream_listing(r) =~= s.subrange(0, 128));
        }
        r
    }
}

/// The 64 on-disk bytes of a `DirectoryElement`, fields in order, integers
/// little-endian.
pub open spec fn encode_directory_element(r: DirectoryElement) -> Seq<u8> {
    bytes_u64(r.objidx) + bytes_u64(r.name_index) + bytes_u64(r.flags) + r.name@
}

impl DirectoryElement {
    /// Bytes in an encoded record.
    pub const SIZE: usize = 64;

    /// The on-disk bytes of this record.
    pub fn to_bytes(&self) -> (r: Vec<u8>)
        ensures
            r@ == encode_directory_element(*self),
            r@.len() == 64,
    {
        let mut v: Vec<u8> = Vec::new();
        push_u64(&mut v, self.objidx);
        push_u64(&mut v, self.name_index);
        push_u64(&mut v, self.flags);
        push_all(&mut v, &self.name);
        assert(v@ =~= encode_directory_element(*self));
        v
    }

    /// Decodes the record held by the first 64 bytes of `bytes`.
    pub fn decode(bytes: &[u8]) -> (r: DirectoryElement)
        requires
            bytes@.len() >= 64,
        ensures
            encode_directory_element(r) == bytes@.subrange(0, 64),
    {
        let r = DirectoryElement {
            objidx: read_u64(bytes, 0),
            name_index: read_u64(bytes, 8),
            flags: read_u64(bytes, 16),
            name: read_array(bytes, 24),
        };
        proof {
            let s = bytes@;
            lemma_bytes_u64(s, 0);
            lemma_bytes_u64(s, 8);
            lemma_bytes_u64(s, 16);
            assert(encode_directory_element(r) =~= s.subrange(0, 64));
        }
        r
    }
}

/// The 16 on-disk bytes of a `DeviceId`, fields in order, integers
/// little-endian.
pub open spec fn encode_device_id(r: DeviceId) -> Seq<u8> {
    bytes_u64(r.id_hi) + bytes_u64(r.id_lo)
}

impl DeviceId {
    /// Bytes in an encoded record.
    pub const SIZE: usize = 16;

    /// The on-disk bytes of this record.
    pub fn to_bytes(&self) -> (r: Vec<u8>)
        ensures
            r@ == encode_device_id(*self),
            r@.len() == 16,
    {
        let mut v: Vec<u8> = Vec::new();
        push_u64(&mut v, self.id_hi);
        push_u64(&mut v, self.id_lo);
        assert(v@ =~= encode_device_id(*self));
        v
    }

    /// Decodes the record held by the first 16 bytes of `bytes`.
    pub fn decode(bytes: &[u8]) -> (r: DeviceId)
        requires
            bytes@.len() >= 16,
        ensures
            encode_device_id(r) == bytes@.subrange(0, 16),
    {
        let r = DeviceId {
            id_hi: read_u64(bytes, 0),
            id_lo: read_u64(bytes, 8),
        };
        proof {
            let s = bytes@;
            lemma_bytes_u64(s, 0);
            lemma_bytes_u64(s, 8);
            assert(encode_device_id(r) =~= s.subrange(0, 16));
        }
        r
    }
}

/// The 8 on-disk bytes of a `LegacyDeviceNumber`, fields in order, integers
/// little-endian.
pub open spec fn encode_legacy_device_number(r: LegacyDeviceNumber) -> Seq<u8> {
    bytes_u32(r.major) + bytes_u32(r.minor)
}

impl LegacyDeviceNumber {
    /// Bytes in an encoded record.
    pub const SIZE: usize = 8;

    /// The on-disk bytes of this record.
    pub fn to_bytes(&self) -> (r: Vec<u8>)
        ensures
            r@ == encode_legacy_device_number(*self),
            r@.len() == 8,
    {
        let mut v: Vec<u8> = Vec::new();
        push_u32(&mut v, self.major);
        push_u32(&mut v, self.minor);
        assert(v@ =~= encode_legacy_device_number(*self));
        v
    }

    /// Decodes the record held by the first 8 bytes of `bytes`.
    pub fn decode(bytes: &[u8]) -> (r: LegacyDeviceNumber)
        requires
            bytes@.len() >= 8,
        ensures
            encode_legacy_device_number(r) == bytes@.subrange(0, 8),
    {
        let r = LegacyDeviceNumber {
            major: read_u32(bytes, 0),
            minor: read_u32(bytes, 4),
        };
        proof {
            let s = bytes@;
            lemma_bytes_u32(s, 0);
            lemma_bytes_u32(s, 4);
            assert(encode_legacy_device_number(r) =~= s.subrange(0, 8));
        }
        r
    }
}

/// The 64 on-disk bytes of a `SecurityDescriptorRow`, fields in order, integers
/// little-endian.
pub open spec fn encode_security_descriptor_row(r: SecurityDescriptorRow) -> Seq<u8> {
    bytes_u128(r.principal) + bytes_u64(r.stream_id) + bytes_u64(r.flags_and_mode) + bytes_u64(r.permission_name_ref) + r.permission_name@
}

impl SecurityDescriptorRow {
    /// Bytes in an encoded record.
    pub const SIZE: usize = 64;

    /// The on-disk bytes of this record.
    pub fn to_bytes(&self) -> (r: Vec<u8>)
        ensures
            r@ == encode_security_descriptor_row(*self),
            r@.len() == 64,
    {
        let mut v: Vec<u8> = Vec::new();
        push_u128(&mut v, self.principal);
        push_u64(&mut v, self.stream_id);
        push_u64(&mut v, self.flags_and_mode);
        push_u64(&mut v, self.permission_name_ref);
        push_all(&mut v, &self.permission_name);
        assert(v@ =~= encode_security_descriptor_row(*self));
        v
    }

    /// Decodes the record held by the first 64 bytes of `bytes`.
    pub fn decode(bytes: &[u8]) -> (r: SecurityDescriptorRow)
        requires
            bytes@.len() >= 64,
        ensures
            encode_security_descriptor_row(r) == bytes@.subrange(0, 64),
    {
        let r = SecurityDescriptorRow {
            principal: read_u128(bytes, 0),
            stream_id: read_u64(bytes, 16),
            flags_and_mode: read_u64(bytes, 24),
            permission_name_ref: read_u64(bytes, 32),
            permission_name: read_array(bytes, 40),
        };
        proof {
            let s = bytes@;
            lemma_bytes_u64(s, 16);
            lemma_bytes_u64(s, 24);
            lemma_bytes_u64(s, 32);
            assert(encode_security_descriptor_row(r) =~= s.subrange(0, 64));
        }
        r
    }
}

/// The 16 on-disk bytes of a `LegacySecurityDescriptor`, fields in order, integers
/// little-endian.
pub open spec fn encode_legacy_security_descriptor(r: LegacySecurityDescriptor) -> Seq<u8> {
    bytes_u32(r.sd_uid) + bytes_u32(r.sd_gid) + bytes_u16(r.sd_mode) + r.sd_reserved@
}

impl LegacySecurityDescriptor {
    /// Bytes in an encoded record.
    pub const SIZE: usize = 16;

    /// The on-disk bytes of this record.
    pub fn to_bytes(&self) -> (r: Vec<u8>)
        ensures
            r@ == encode_legacy_security_descriptor(*self),
            r@.len() == 16,
    {
        let mut v: Vec<u8> = Vec::new();
        push_u32(&mut v, self.sd_uid);
        push_u32(&mut v, self.sd_gid);
        push_u16(&mut v, self.sd_mode);
        push_all(&mut v, &self.sd_reserved);
        assert(v@ =~= encode_legacy_security_descriptor(*self));
        v
    }

    /// Decodes the record held by the first 16 bytes of `bytes`.
    pub fn decode(bytes: &[u8]) -> (r: LegacySecurityDescriptor)
        requires
            bytes@.len() >= 16,
        ensures
            encode_legacy_security_descriptor(r) == bytes@.subrange(0, 16),
    {
        let r = LegacySecurityDescriptor {
            sd_uid: read_u32(bytes, 0),
            sd_gid: read_u32(bytes, 4),
            sd_mode: read_u16(bytes, 8),
            sd_reserved: read_array(bytes, 10),
        };
        proof {
            let s = bytes@;
            lemma_bytes_u32(s, 0);
            lemma_bytes_u32(s, 4);
            assert(encode_legacy_security_descriptor(r) =~= s.subrange(0, 16));
        }
        r
    }
}

} // verus!
