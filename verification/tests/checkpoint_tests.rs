//! The encoding of restart checkpoints.
use ntsql_storage_file::bytes::{checksum_v1, read_u64};
use ntsql_storage_file::checkpoint::{
    decode_entry_optional_position, decode_fields, decode_restart_checkpoint_baseline,
    encode_fields, encode_restart_checkpoint_baseline, write_optional_u64, DurableTransactionRestartCheckpointBaseline,
    DurableTransactionRestartCheckpointBaselineEntry,
    DurableTransactionRestartCheckpointBaselineEntryObservation,
    DurableTransactionRestartCheckpointBaselineState,
    DurableTransactionRestartCheckpointBaselineStateObservation,
    OwnedDurableTransactionRestartCheckpointBaselineObservation,
};
use ntsql_storage_file::checkpoint_error::{
    RestartCheckpointBaselineDecodeError, RestartCheckpointBaselineEncodeError,
    RestartCheckpointBaselineEntryOptionalField,
};
use ntsql_storage_file::identity::{PersistentLogId, TransactionId};

const ENTRY_OFFSET: usize = 64;

fn write_u16(bytes: &mut [u8], offset: usize, value: u16) {
    bytes[offset..offset + 2].copy_from_slice(&value.to_be_bytes());
}

fn write_u64(bytes: &mut [u8], offset: usize, value: u64) {
    bytes[offset..offset + 8].copy_from_slice(&value.to_be_bytes());
}

fn committed_entry() -> DurableTransactionRestartCheckpointBaselineEntryObservation {
    DurableTransactionRestartCheckpointBaselineEntryObservation {
        epoch: 0,
        sequence: 0,
        first_owned_page_position: Some(0),
        last_owned_page_position: None,
        owned_page_record_count: 0,
        state: DurableTransactionRestartCheckpointBaselineStateObservation::Committed {
            commit_position: 0,
        },
    }
}

fn uncommitted_entry() -> DurableTransactionRestartCheckpointBaselineEntryObservation {
    DurableTransactionRestartCheckpointBaselineEntryObservation {
        epoch: 7,
        sequence: 3,
        first_owned_page_position: None,
        last_owned_page_position: Some(0),
        owned_page_record_count: u64::MAX,
        state: DurableTransactionRestartCheckpointBaselineStateObservation::Uncommitted,
    }
}

fn one_entry_blob() -> Vec<u8> {
    encode_fields(
        0x0102_0304_0506_0708_090a_0b0c_0d0e_0f10,
        Some(0),
        &[committed_entry()],
        true,
    )
    .unwrap()
}

fn replace_checksum(bytes: &mut [u8]) {
    let offset: usize = bytes.len() - 8;
    let checksum: u64 = checksum_v1(&bytes[..offset]);
    write_u64(bytes, offset, checksum);
}

/// The error on decoding the blob of one entry after a change that the checksum
/// covers.
fn canonical_refusal(changes: &[(usize, u8)]) -> RestartCheckpointBaselineDecodeError {
    let mut bytes: Vec<u8> = one_entry_blob();
    for (offset, value) in changes {
        bytes[*offset] = *value;
    }
    replace_checksum(&mut bytes);
    decode_restart_checkpoint_baseline(&bytes).unwrap_err()
}

#[test]
fn structurally_valid_semantically_invalid_fields_remain_untrusted() {
    let encoded: Vec<u8> =
        encode_fields(0, Some(0), &[committed_entry(), uncommitted_entry()], true).unwrap();
    let decoded: OwnedDurableTransactionRestartCheckpointBaselineObservation =
        decode_restart_checkpoint_baseline(&encoded).unwrap();
    assert_eq!(decoded.persistent_log_id, 0);
    assert_eq!(decoded.durable_frontier, Some(0));
    assert_eq!(decoded.transactions, vec![committed_entry(), uncommitted_entry()]);

    let encoded_none: Vec<u8> = encode_fields(0, None, &[], true).unwrap();
    let decoded_none: OwnedDurableTransactionRestartCheckpointBaselineObservation =
        decode_restart_checkpoint_baseline(&encoded_none).unwrap();
    assert_eq!(decoded_none.durable_frontier, None);
    assert_ne!(decoded_none.durable_frontier, decoded.durable_frontier);
}

#[test]
fn every_short_prefix_is_truncated_and_one_trailing_byte_is_rejected() {
    let encoded: Vec<u8> = one_entry_blob();
    for length in 0..encoded.len() {
        assert!(matches!(
            decode_restart_checkpoint_baseline(&encoded[..length]),
            Err(RestartCheckpointBaselineDecodeError::Truncated { .. })
        ));
    }
    let mut trailing: Vec<u8> = encoded.clone();
    trailing.push(0);
    assert_eq!(
        decode_restart_checkpoint_baseline(&trailing),
        Err(RestartCheckpointBaselineDecodeError::TrailingBytes {
            expected_length: encoded.len(),
            actual_length: encoded.len() + 1,
        })
    );
}

#[test]
fn outer_framing_and_checksum_corruption_fail_distinctly() {
    let encoded: Vec<u8> = one_entry_blob();

    let mut bytes: Vec<u8> = encoded.clone();
    bytes[0] ^= 1;
    assert_eq!(
        decode_restart_checkpoint_baseline(&bytes),
        Err(RestartCheckpointBaselineDecodeError::HeaderMagicMismatch { actual: *b"OTSQCKP1" })
    );

    bytes = encoded.clone();
    write_u16(&mut bytes, 8, 2);
    assert_eq!(
        decode_restart_checkpoint_baseline(&bytes),
        Err(RestartCheckpointBaselineDecodeError::UnsupportedVersion { actual: 2 })
    );

    bytes = encoded.clone();
    write_u16(&mut bytes, 10, 65);
    assert_eq!(
        decode_restart_checkpoint_baseline(&bytes),
        Err(RestartCheckpointBaselineDecodeError::HeaderLengthMismatch { actual: 65 })
    );

    bytes = encoded.clone();
    write_u16(&mut bytes, 12, 65);
    assert_eq!(
        decode_restart_checkpoint_baseline(&bytes),
        Err(RestartCheckpointBaselineDecodeError::EntryLengthMismatch { actual: 65 })
    );

    bytes = encoded.clone();
    write_u16(&mut bytes, 14, 17);
    assert_eq!(
        decode_restart_checkpoint_baseline(&bytes),
        Err(RestartCheckpointBaselineDecodeError::FooterLengthMismatch { actual: 17 })
    );

    let length: u64 = encoded.len() as u64;
    bytes = encoded.clone();
    write_u64(&mut bytes, 56, length + 1);
    assert_eq!(
        decode_restart_checkpoint_baseline(&bytes),
        Err(RestartCheckpointBaselineDecodeError::DeclaredLengthMismatch {
            declared: length + 1,
            expected: length,
        })
    );

    bytes = encoded.clone();
    let footer: usize = bytes.len() - 16;
    bytes[footer] ^= 1;
    assert_eq!(
        decode_restart_checkpoint_baseline(&bytes),
        Err(RestartCheckpointBaselineDecodeError::FooterMagicMismatch { actual: *b"OTSQCKE1" })
    );

    bytes = encoded;
    bytes[ENTRY_OFFSET] ^= 1;
    assert_eq!(
        decode_restart_checkpoint_baseline(&bytes),
        Err(RestartCheckpointBaselineDecodeError::ChecksumMismatch {
            expected: checksum_v1(&bytes[..bytes.len() - 8]),
            actual: read_u64(&bytes, bytes.len() - 8),
        })
    );
}

#[test]
fn noncanonical_header_and_entry_fields_fail_after_valid_checksum() {
    assert_eq!(
        canonical_refusal(&[(40, 2)]),
        RestartCheckpointBaselineDecodeError::FrontierPresenceInvalid { actual: 2 }
    );
    assert_eq!(
        canonical_refusal(&[(40, 0), (39, 1)]),
        RestartCheckpointBaselineDecodeError::AbsentFrontierValueNonZero { actual: 1 }
    );
    assert_eq!(
        canonical_refusal(&[(41, 1)]),
        RestartCheckpointBaselineDecodeError::ReservedByteNonZero { offset: 41, actual: 1 }
    );
    assert_eq!(
        canonical_refusal(&[(ENTRY_OFFSET + 48, 2)]),
        RestartCheckpointBaselineDecodeError::EntryStateInvalid {
            transaction_index: 0,
            actual: 2,
        }
    );
    assert_eq!(
        canonical_refusal(&[(ENTRY_OFFSET + 49, 2)]),
        RestartCheckpointBaselineDecodeError::EntryPositionPresenceInvalid {
            transaction_index: 0,
            field: RestartCheckpointBaselineEntryOptionalField::FirstOwnedPagePosition,
            actual: 2,
        }
    );
    assert_eq!(
        canonical_refusal(&[(ENTRY_OFFSET + 50, 2)]),
        RestartCheckpointBaselineDecodeError::EntryPositionPresenceInvalid {
            transaction_index: 0,
            field: RestartCheckpointBaselineEntryOptionalField::LastOwnedPagePosition,
            actual: 2,
        }
    );
    assert_eq!(
        canonical_refusal(&[(ENTRY_OFFSET + 49, 0), (ENTRY_OFFSET + 23, 1)]),
        RestartCheckpointBaselineDecodeError::AbsentEntryPositionValueNonZero {
            transaction_index: 0,
            field: RestartCheckpointBaselineEntryOptionalField::FirstOwnedPagePosition,
            actual: 1,
        }
    );
    assert_eq!(
        canonical_refusal(&[(ENTRY_OFFSET + 31, 1)]),
        RestartCheckpointBaselineDecodeError::AbsentEntryPositionValueNonZero {
            transaction_index: 0,
            field: RestartCheckpointBaselineEntryOptionalField::LastOwnedPagePosition,
            actual: 1,
        }
    );
    assert_eq!(
        canonical_refusal(&[(ENTRY_OFFSET + 48, 0), (ENTRY_OFFSET + 47, 1)]),
        RestartCheckpointBaselineDecodeError::UncommittedPositionValueNonZero {
            transaction_index: 0,
            actual: 1,
        }
    );
    assert_eq!(
        canonical_refusal(&[(ENTRY_OFFSET + 51, 1)]),
        RestartCheckpointBaselineDecodeError::ReservedByteNonZero {
            offset: ENTRY_OFFSET + 51,
            actual: 1,
        }
    );
}

#[test]
fn impossible_counts_and_capacity_errors_remain_typed() {
    let mut encoded: Vec<u8> = one_entry_blob();
    write_u64(&mut encoded, 48, u64::MAX);
    assert!(matches!(
        decode_restart_checkpoint_baseline(&encoded),
        Err(RestartCheckpointBaselineDecodeError::TransactionCountOutOfRange { .. }
            | RestartCheckpointBaselineDecodeError::EncodedLengthOverflow { .. })
    ));

    let encode_capacity: RestartCheckpointBaselineEncodeError =
        encode_fields(1, None, &[committed_entry()], false).unwrap_err();
    assert_eq!(
        encode_capacity,
        RestartCheckpointBaselineEncodeError::CapacityExhausted { encoded_length: 144 }
    );
    assert!(encode_capacity.message().contains("144 bytes"));
    let decode_capacity: RestartCheckpointBaselineDecodeError =
        decode_fields(&one_entry_blob(), false).unwrap_err();
    assert_eq!(
        decode_capacity,
        RestartCheckpointBaselineDecodeError::CapacityExhausted { transaction_count: 1 }
    );
    assert!(decode_capacity.message().contains("1 transaction entries"));
}

#[test]
fn an_empty_checkpoint_has_exact_bytes() {
    let baseline: DurableTransactionRestartCheckpointBaseline =
        DurableTransactionRestartCheckpointBaseline {
            persistent_log_id: PersistentLogId::new(0x0102).unwrap(),
            durable_frontier: None,
            transactions: vec![],
        };
    let encoded: Vec<u8> = encode_restart_checkpoint_baseline(&baseline).unwrap();
    let mut expected: [u8; 80] = [0_u8; 80];
    expected[..8].copy_from_slice(b"NTSQCKP1");
    expected[8..16].copy_from_slice(&[0, 1, 0, 64, 0, 64, 0, 16]);
    expected[30..32].copy_from_slice(&[1, 2]);
    expected[56..64].copy_from_slice(&80_u64.to_be_bytes());
    expected[64..72].copy_from_slice(b"NTSQCKE1");
    replace_checksum(&mut expected);
    assert_eq!(encoded, expected);
}

#[test]
fn what_is_decoded_is_what_was_encoded() {
    let baseline: DurableTransactionRestartCheckpointBaseline =
        DurableTransactionRestartCheckpointBaseline {
            persistent_log_id: PersistentLogId::new(9).unwrap(),
            durable_frontier: Some(12),
            transactions: vec![
                DurableTransactionRestartCheckpointBaselineEntry {
                    transaction: TransactionId::new(1, 1).unwrap(),
                    first_owned_page_position: Some(3),
                    last_owned_page_position: Some(8),
                    owned_page_record_count: 2,
                    state: DurableTransactionRestartCheckpointBaselineState::Committed {
                        commit_position: 9,
                    },
                },
                DurableTransactionRestartCheckpointBaselineEntry {
                    transaction: TransactionId::new(1, 2).unwrap(),
                    first_owned_page_position: None,
                    last_owned_page_position: None,
                    owned_page_record_count: 0,
                    state: DurableTransactionRestartCheckpointBaselineState::Uncommitted,
                },
            ],
        };
    let encoded: Vec<u8> = encode_restart_checkpoint_baseline(&baseline).unwrap();
    assert_eq!(encoded.len(), 64 + 2 * 64 + 16);
    let decoded: OwnedDurableTransactionRestartCheckpointBaselineObservation =
        decode_restart_checkpoint_baseline(&encoded).unwrap();
    assert_eq!(decoded.persistent_log_id, 9);
    assert_eq!(decoded.durable_frontier, Some(12));
    assert_eq!(
        decoded.transactions,
        baseline
            .transactions
            .iter()
            .map(DurableTransactionRestartCheckpointBaselineEntryObservation::from_baseline)
            .collect::<Vec<DurableTransactionRestartCheckpointBaselineEntryObservation>>()
    );
    assert_eq!(
        encode_fields(9, Some(12), &decoded.transactions, true),
        Ok(encoded)
    );
}

#[test]
fn a_missing_position_and_the_position_zero_stay_apart() {
    for first in [None, Some(0_u64), Some(u64::MAX)] {
        for last in [None, Some(0_u64), Some(1)] {
            let mut entry = committed_entry();
            entry.first_owned_page_position = first;
            entry.last_owned_page_position = last;
            let bytes: Vec<u8> = encode_fields(7, None, &[entry], true).unwrap();
            assert_eq!(bytes[ENTRY_OFFSET + 49], u8::from(first.is_some()));
            assert_eq!(bytes[ENTRY_OFFSET + 50], u8::from(last.is_some()));
            let decoded = decode_fields(&bytes, true).unwrap();
            assert_eq!(decoded.transactions[0].first_owned_page_position, first);
            assert_eq!(decoded.transactions[0].last_owned_page_position, last);
        }
    }
}

#[test]
fn one_position_that_may_be_missing_is_read_back() {
    let field = RestartCheckpointBaselineEntryOptionalField::LastOwnedPagePosition;
    for value in [None, Some(0_u64), Some(7), Some(u64::MAX)] {
        let mut bytes: Vec<u8> = vec![0; 64];
        write_optional_u64(&mut bytes, 16, 49, value);
        assert_eq!(
            decode_entry_optional_position(3, field, bytes[49], read_u64(&bytes, 16)),
            Ok(value)
        );
    }
    assert_eq!(
        decode_entry_optional_position(3, field, 0, 7),
        Err(RestartCheckpointBaselineDecodeError::AbsentEntryPositionValueNonZero {
            transaction_index: 3,
            field,
            actual: 7,
        })
    );
}

#[test]
fn every_damaged_byte_of_a_checkpoint_is_refused() {
    let encoded: Vec<u8> = one_entry_blob();
    for index in 0..encoded.len() {
        let mut damaged: Vec<u8> = encoded.clone();
        damaged[index] ^= 0x80;
        assert!(decode_restart_checkpoint_baseline(&damaged).is_err());
    }
}
