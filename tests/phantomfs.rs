use phantomos::phantomfs::{
    DescriptorError, DeviceId, DirectoryElement, LegacyDeviceNumber, LegacySecurityDescriptor,
    PhantomFS, PhantomFSObject, RootFSDescriptor, SecurityDescriptorRow, StreamListing,
    DESCRIPTOR_SIZE, OBJECT_DIRECTORY, PHANTOMFS_MAGIC, STREAM_CUSTOM_OBJECT_INFO, STREAM_DEVICEID,
    STREAM_DIRECTORY_CONTENT, STREAM_FILE_DATA, STREAM_LEGACY_DEVICE_NUMBER, STREAM_REQUIRED,
    STREAM_SECURITY_DESCRIPTOR, STREAM_STREAMS, STREAM_STRINGS, STREAM_SYMLINK_TARGET,
    STREAM_WRITE_REQUIRED,
};

#[test]
fn new_volume_has_no_descriptor_and_gives_stream_back() {
    let fs = PhantomFS::new(vec![1u8, 2, 3]);
    assert!(fs.descriptor().is_none());
    assert_eq!(fs.into_inner(), vec![1u8, 2, 3]);
}

#[test]
fn fresh_descriptor_encodes_to_128_bytes() {
    let d = RootFSDescriptor::fresh(0x0123456789abcdef0011223344556677);
    let b = d.to_bytes();
    assert_eq!(b.len(), DESCRIPTOR_SIZE);
    assert_eq!(&b[0..4], &PHANTOMFS_MAGIC);
    assert_eq!(&b[4..8], &[1, 0, 0, 0]);
    assert_eq!(b[16], 0x77);
    assert_eq!(b[31], 0x01);
    assert_eq!(&b[120..124], &[128, 0, 0, 0]);
    assert_eq!(&b[124..128], &[0, 0, 0, 0]);
}

#[test]
fn create_new_fs_sets_checksum() {
    let mut fs = PhantomFS::new(());
    fs.create_new_fs(0x0123456789abcdef0011223344556677);
    let d = fs.descriptor().unwrap();
    assert_eq!(d.descriptor_crc, 0x1bfe36eb);
    assert_eq!(d.partid, 0x0123456789abcdef0011223344556677);
    assert_eq!(d.magic, PHANTOMFS_MAGIC);
    assert_eq!(d.descriptor_size, 128);

    let mut fs = PhantomFS::new(());
    fs.create_new_fs(0);
    assert_eq!(fs.descriptor().unwrap().descriptor_crc, 0x8ea30931);
}

#[test]
fn parse_round_trips_encoding() {
    let mut fs = PhantomFS::new(());
    fs.create_new_fs(42);
    let d = fs.descriptor().unwrap();
    let mut bytes = d.to_bytes();
    bytes.extend_from_slice(&[9, 9, 9]);
    assert_eq!(RootFSDescriptor::parse(&bytes), Ok(d));
    assert_eq!(fs.descriptor_bytes(), Some(d.to_bytes()));
}

#[test]
fn parse_rejects_short_input() {
    let d = RootFSDescriptor::fresh(1);
    let b = d.to_bytes();
    assert_eq!(RootFSDescriptor::parse(&b[..127]), Err(DescriptorError::Truncated));
    assert_eq!(RootFSDescriptor::parse(&[]), Err(DescriptorError::Truncated));
}

#[test]
fn parse_rejects_bad_magic() {
    let d = RootFSDescriptor::fresh(1);
    let mut b = d.to_bytes();
    b[3] = 0;
    assert_eq!(RootFSDescriptor::parse(&b), Err(DescriptorError::InvalidMagic));
}

#[test]
fn load_descriptor_takes_bytes_even_with_bad_magic() {
    let mut fs = PhantomFS::new(());
    assert_eq!(fs.descriptor_bytes(), None);
    let good = RootFSDescriptor::fresh(7).to_bytes();
    assert_eq!(fs.load_descriptor(&good), Ok(()));
    let d = fs.descriptor().unwrap();
    assert_eq!(d.partid, 7);
    let mut bad = good.clone();
    bad[0] = 0xaa;
    bad[16] = 9;
    assert_eq!(fs.load_descriptor(&bad), Err(DescriptorError::InvalidMagic));
    let taken = fs.descriptor().unwrap();
    assert_eq!(taken.magic, [0xaa, 0x53, 0x50, 0x68]);
    assert_eq!(taken.partid, 9);
    assert_eq!(taken.to_bytes(), bad);
}

#[test]
fn load_descriptor_keeps_old_on_short_input() {
    let mut fs = PhantomFS::new(());
    assert_eq!(fs.load_descriptor(&[0u8; 100]), Err(DescriptorError::Truncated));
    assert_eq!(fs.descriptor(), None);
    fs.create_new_fs(3);
    let d = fs.descriptor();
    assert_eq!(fs.load_descriptor(&[0u8; 127]), Err(DescriptorError::Truncated));
    assert_eq!(fs.descriptor(), d);
}

#[test]
fn zeroed_bytes_decode_without_magic() {
    let d = RootFSDescriptor::decode(&[0u8; 128]);
    assert!(!d.has_magic());
    assert_eq!(d.to_bytes(), vec![0u8; 128]);
    assert!(RootFSDescriptor::fresh(0).has_magic());
}

#[test]
fn set_descriptor_then_write_bytes() {
    let mut fs = PhantomFS::new(());
    let mut d = RootFSDescriptor::fresh(5);
    d.rootidx = 0x1122;
    d.objtab = 0x33;
    fs.set_descriptor(d);
    assert_eq!(fs.descriptor(), Some(d));
    let b = fs.descriptor_bytes().unwrap();
    assert_eq!(&b[72..80], &0x1122u64.to_le_bytes());
    assert_eq!(b[48], 0x33);
}

#[test]
fn stream_names_are_nul_terminated() {
    assert_eq!(&STREAM_STREAMS, b"Streams\0");
    assert_eq!(&STREAM_CUSTOM_OBJECT_INFO, b"CustomObjectInfo\0");
    assert_eq!(&STREAM_STRINGS, b"Strings\0");
    assert_eq!(&STREAM_FILE_DATA, b"FileData\0");
    assert_eq!(&STREAM_DIRECTORY_CONTENT, b"DirectoryContent\0");
    assert_eq!(&STREAM_SYMLINK_TARGET, b"SymlinkTarget\0");
    assert_eq!(&STREAM_DEVICEID, b"DeviceId\0");
    assert_eq!(&STREAM_LEGACY_DEVICE_NUMBER, b"LegacyDeviceNumber\0");
    assert_eq!(&STREAM_SECURITY_DESCRIPTOR, b"SecurityDescriptor\0");
}

#[test]
fn object_record_round_trips() {
    let o = PhantomFSObject {
        strong_ref: 1,
        weak_ref: 0,
        streams_size: 0x200,
        streams_ref: 0x0102030405060708090a0b0c0d0e0f10,
        streams_indirection: 2,
        reserved33: [0; 5],
        ty: OBJECT_DIRECTORY,
        flags: 0,
        reserved44: [0; 20],
    };
    let b = o.to_bytes();
    assert_eq!(b.len(), PhantomFSObject::SIZE);
    assert_eq!(b[16], 0x10);
    assert_eq!(b[32], 2);
    assert_eq!(&b[38..40], &[1, 0]);
    assert_eq!(PhantomFSObject::decode(&b), o);
}

#[test]
fn stream_listing_round_trips() {
    let mut name = [0u8; 32];
    name[..9].copy_from_slice(&STREAM_FILE_DATA);
    let l = StreamListing {
        name,
        name_ref: 0,
        flags: STREAM_REQUIRED | STREAM_WRITE_REQUIRED,
        size: 48,
        reserved: [0, 0, 7],
        inline_data: [0x5a; 48],
    };
    let b = l.to_bytes();
    assert_eq!(b.len(), 128);
    assert_eq!(b[40], 3);
    assert_eq!(b[72], 7);
    assert_eq!(b[80], 0x5a);
    assert_eq!(StreamListing::decode(&b), l);
}

#[test]
fn small_records_round_trip() {
    let e = DirectoryElement { objidx: 4, name_index: 0, flags: 1, name: [0x41; 40] };
    assert_eq!(DirectoryElement::decode(&e.to_bytes()), e);
    assert_eq!(e.to_bytes()[24], 0x41);
    let id = DeviceId { id_hi: 1, id_lo: 2 };
    assert_eq!(id.to_bytes()[8], 2);
    assert_eq!(DeviceId::decode(&id.to_bytes()), id);
    let n = LegacyDeviceNumber { major: 8, minor: 1 };
    assert_eq!(n.to_bytes(), vec![8, 0, 0, 0, 1, 0, 0, 0]);
    assert_eq!(LegacyDeviceNumber::decode(&n.to_bytes()), n);
    let row = SecurityDescriptorRow {
        principal: 0xfeed,
        stream_id: 3,
        flags_and_mode: 0o755,
        permission_name_ref: 0,
        permission_name: [0; 24],
    };
    assert_eq!(row.to_bytes()[16], 3);
    assert_eq!(SecurityDescriptorRow::decode(&row.to_bytes()), row);
    let sd = LegacySecurityDescriptor { sd_uid: 1000, sd_gid: 100, sd_mode: 0o644, sd_reserved: [0; 6] };
    assert_eq!(&sd.to_bytes()[8..10], &0o644u16.to_le_bytes());
    assert_eq!(LegacySecurityDescriptor::decode(&sd.to_bytes()), sd);
}
