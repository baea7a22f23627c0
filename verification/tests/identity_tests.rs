//! Identities, their encoding, and the byte primitives.
use ntsql_storage_file::bytes::{
    append_slice, append_u128, append_u16, append_u32, append_u64, append_zeros, checksum_v1,
    is_zero_range, matches_at, read_u128, read_u16, read_u32, read_u64, seal, write_slice,
    write_u16, write_u32, write_u64, zeroed,
};
use ntsql_storage_file::database_identity::{
    decode_database_child_identity, encode_database_child_identity,
    DatabaseChildIdentityDecodeErrorReason, DatabaseFileHeaderIdentity, DatabaseFileId,
    DatabaseFileIdentity, DatabaseFileRole, DatabaseId,
};
use ntsql_storage_file::format::{copy_chunk, LogFormat, PageLayout};
use ntsql_storage_file::identity::{
    LogLineage, PageNumber, PersistentLogId, TransactionId,
};
use ntsql_storage_file::log_frame::FrameKind;
use ntsql_storage_file::log_record::StoredTransactionIdentity;
use ntsql_storage_file::page_store_frame::PageStoreFrameKind;

fn identity() -> DatabaseFileHeaderIdentity {
    DatabaseFileHeaderIdentity::new(
        DatabaseId::new(0x0102).unwrap(),
        DatabaseFileIdentity::new(
            DatabaseFileRole::Completeness,
            DatabaseFileId::new(0x0304).unwrap(),
        ),
    )
}

#[test]
fn identities_are_not_zero() {
    assert_eq!(PersistentLogId::new(0), None);
    assert_eq!(PersistentLogId::new(u128::MAX).unwrap().get(), u128::MAX);
    assert_eq!(PageNumber::new(0), None);
    assert_eq!(PageNumber::new(9).unwrap().get(), 9);
    assert_eq!(TransactionId::new(0, 1), None);
    assert_eq!(TransactionId::new(1, 0), None);
    assert_eq!(TransactionId::new(4, 5).unwrap().sequence(), 5);
    assert_eq!(DatabaseId::new(0), None);
    assert_eq!(DatabaseFileId::new(0), None);
    let identity = StoredTransactionIdentity::from_epoch_sequence(4, 5);
    assert!(identity.matches(TransactionId::new(4, 5).unwrap()));
    assert!(!identity.matches(TransactionId::new(5, 4).unwrap()));
}

#[test]
fn lineages_are_told_apart() {
    let one: LogLineage = LogLineage::persistent(PersistentLogId::new(1).unwrap());
    let two: LogLineage = LogLineage::persistent(PersistentLogId::new(2).unwrap());
    assert!(one.same_lineage(&one));
    assert!(!one.same_lineage(&two));
    assert_ne!(one.position(3), two.position(3));
}

#[test]
fn a_child_identity_survives_its_encoding() {
    let bytes: Vec<u8> = encode_database_child_identity(identity());
    assert_eq!(bytes.len(), 48);
    assert_eq!(&bytes[..8], b"NTSQCFI1");
    assert_eq!(&bytes[8..16], &[0, 1, 0, 48, 3, 0, 0, 0]);
    assert_eq!(read_u128(&bytes, 16), 0x0102);
    assert_eq!(read_u128(&bytes, 32), 0x0304);
    assert_eq!(decode_database_child_identity(&bytes), Ok(identity()));
}

#[test]
fn every_field_of_a_child_identity_is_checked() {
    let refusal = |offset: usize, value: u8| {
        let mut bytes: Vec<u8> = encode_database_child_identity(identity());
        bytes[offset] = value;
        let error = decode_database_child_identity(&bytes).unwrap_err();
        (error.offset(), error.reason())
    };
    assert_eq!(refusal(0, 0), (0, DatabaseChildIdentityDecodeErrorReason::Magic));
    assert_eq!(
        refusal(9, 2),
        (8, DatabaseChildIdentityDecodeErrorReason::Version { actual: 2 })
    );
    assert_eq!(
        refusal(11, 47),
        (10, DatabaseChildIdentityDecodeErrorReason::Length { actual: 47 })
    );
    assert_eq!(
        refusal(12, 4),
        (12, DatabaseChildIdentityDecodeErrorReason::Role { actual: 4 })
    );
    assert_eq!(refusal(13, 1), (13, DatabaseChildIdentityDecodeErrorReason::Reserved));
    let mut bytes: Vec<u8> = encode_database_child_identity(identity());
    bytes[30] = 0;
    bytes[31] = 0;
    let error = decode_database_child_identity(&bytes).unwrap_err();
    assert_eq!(error.reason(), DatabaseChildIdentityDecodeErrorReason::DatabaseIdZero);
    bytes = encode_database_child_identity(identity());
    bytes[46] = 0;
    bytes[47] = 0;
    let error = decode_database_child_identity(&bytes).unwrap_err();
    assert_eq!(error.reason(), DatabaseChildIdentityDecodeErrorReason::FileIdZero);
}

#[test]
fn roles_and_kinds_have_their_codes() {
    for role in [DatabaseFileRole::Wal, DatabaseFileRole::PageStore, DatabaseFileRole::Completeness]
    {
        assert_eq!(DatabaseFileRole::from_code(role.code()), Some(role));
    }
    assert_eq!(DatabaseFileRole::from_code(0), None);
    assert_eq!(FrameKind::from_u16(6, LogFormat::V2), None);
    assert_eq!(FrameKind::from_u16(6, LogFormat::V3), Some(FrameKind::TransactionPageHeader));
    assert_eq!(FrameKind::from_u16(4, LogFormat::V1), None);
    assert_eq!(PageStoreFrameKind::from_u16(3), Some(PageStoreFrameKind::PageData));
    assert_eq!(PageStoreFrameKind::from_u16(0), None);
}

#[test]
fn numbers_are_written_and_read_big_endian() {
    let mut bytes: Vec<u8> = Vec::new();
    append_u16(&mut bytes, 0x0102);
    append_u32(&mut bytes, 0x0304_0506);
    append_u64(&mut bytes, 0x0708_090a_0b0c_0d0e);
    append_u128(&mut bytes, 0x0f10);
    append_zeros(&mut bytes, 2);
    append_slice(&mut bytes, &[9, 8]);
    assert_eq!(&bytes[..14], &[1, 2, 3, 4, 5, 6, 7, 8, 9, 10, 11, 12, 13, 14]);
    assert_eq!(read_u16(&bytes, 0), 0x0102);
    assert_eq!(read_u32(&bytes, 2), 0x0304_0506);
    assert_eq!(read_u64(&bytes, 6), 0x0708_090a_0b0c_0d0e);
    assert_eq!(read_u128(&bytes, 14), 0x0f10);
    assert!(is_zero_range(&bytes, 30, 32));
    assert!(!is_zero_range(&bytes, 30, 33));
    assert!(matches_at(&bytes, 32, &[9, 8]));
    assert!(!matches_at(&bytes, 32, &[9, 9]));
}

#[test]
fn numbers_are_written_over_other_bytes() {
    let mut bytes: Vec<u8> = vec![0xff; 12];
    write_u64(&mut bytes, 2, 0x0102_0304_0506_0708);
    assert_eq!(bytes, vec![0xff, 0xff, 1, 2, 3, 4, 5, 6, 7, 8, 0xff, 0xff]);
    assert_eq!(read_u64(&bytes, 2), 0x0102_0304_0506_0708);
    write_u16(&mut bytes, 0, 0x0a0b);
    write_u32(&mut bytes, 8, 0x0c0d_0e0f);
    write_slice(&mut bytes, 2, &[9, 9]);
    assert_eq!(bytes, vec![0x0a, 0x0b, 9, 9, 3, 4, 5, 6, 0x0c, 0x0d, 0x0e, 0x0f]);
    assert_eq!(zeroed(3), vec![0, 0, 0]);
}

#[test]
fn the_checksum_has_exact_values() {
    assert_eq!(checksum_v1(&[]), 0x4e54_5351_4c43_4b31);
    assert_eq!(checksum_v1(&[1]), 0x5931_ddaa_9935_ed19);
    assert_eq!(checksum_v1(&[1, 2, 3]), 0xd58c_0219_bc31_29a1);
    let mut sealed: Vec<u8> = vec![1, 2, 3];
    seal(&mut sealed);
    assert_eq!(sealed.len(), 11);
    assert_eq!(read_u64(&sealed, 3), checksum_v1(&[1, 2, 3]));
    assert_ne!(checksum_v1(&[1, 2, 3]), checksum_v1(&[1, 2, 4]));
    assert_ne!(checksum_v1(&[1, 2, 3]), checksum_v1(&[2, 1, 3]));
}

#[test]
fn a_page_is_cut_into_chunks() {
    let layout: PageLayout = PageLayout::for_const::<10>().unwrap();
    assert_eq!(layout.width_u64, 10);
    assert_eq!(layout.chunk_count, 2);
    assert_eq!(layout.final_chunk_len, 2);
    assert_eq!(layout.logical_bytes_for_chunk(0), 8);
    assert_eq!(layout.logical_bytes_for_chunk(1), 2);
    assert_eq!(layout.logical_bytes_for_chunk(2), 8);
    let page: [u8; 10] = [1, 2, 3, 4, 5, 6, 7, 8, 9, 10];
    assert_eq!(copy_chunk(&page, 0), [1, 2, 3, 4, 5, 6, 7, 8]);
    assert_eq!(copy_chunk(&page, 1), [9, 10, 0, 0, 0, 0, 0, 0]);
    assert_eq!(PageLayout::for_const::<8>().unwrap().chunk_count, 1);
    assert_eq!(PageLayout::for_const::<8>().unwrap().final_chunk_len, 8);
}
