//! The commit log over an in-memory file: formats, faults, recovery of commits.
use ntsql_storage_file::bytes::{checksum_v1, read_u128, read_u16, read_u32, read_u64};
use ntsql_storage_file::commit_log::recovery::DurableCommitLookup;
use ntsql_storage_file::commit_log::{
    FileCommitLog, LockedFileCommitLogOpen, TransactionRestartCoordinatorEpochAllocationError,
};
use ntsql_storage_file::format::{
    LogFormat, PageLayout, FORMAT_VERSION_V1, FORMAT_VERSION_V2, FRAME_CHECKSUM_OFFSET,
    FRAME_LENGTH, HEADER_CHECKSUM_OFFSET, HEADER_LENGTH, HEADER_V2_PAGE_WIDTH_OFFSET,
};
use ntsql_storage_file::identity::{
    LogLineage, LogSequenceNumber, PageNumber, PageVersion, PersistentLogId, TransactionId,
};
use ntsql_storage_file::log_effect::FileEffect;
use ntsql_storage_file::log_error::{
    FaultPoint, FileCommitLogError, FileCreateError, FileFormatError, FileFormatErrorReason,
    FileIoStage, FileOpenError, FilePageWidthError, FileTransactionEpochError,
    FileTransactionRecoveryError,
};
use ntsql_storage_file::log_frame::{
    build_frame, build_frame_with_payload2_bytes, parse_frame, DecodedFrame, FrameKind,
};
use ntsql_storage_file::log_header::{
    build_header_v4, parse_header, HeaderExpectation, ReclaimedCoordinates,
};
use ntsql_storage_file::page::{PageAddress, UnloggedPage};

/// A log together with the bytes of its file.
struct LogFile<const N: usize> {
    bytes: Vec<u8>,
    log: FileCommitLog<N>,
}

/// At which step a commit failed.
#[derive(Debug, PartialEq)]
enum CommitFailure {
    Append(FileCommitLogError),
    Flush(LogSequenceNumber, FileCommitLogError),
}

/// Numbers the transactions of one epoch.
struct Coordinator {
    epoch: u64,
    next_sequence: u64,
}

#[allow(dead_code)]
impl Coordinator {
    fn open<const N: usize>(file: &mut LogFile<N>) -> Coordinator {
        let epoch: u64 = file.allocate_epoch().expect("an epoch is left");
        Coordinator { epoch, next_sequence: 1 }
    }

    fn begin(&mut self) -> TransactionId {
        let sequence: u64 = self.next_sequence;
        self.next_sequence += 1;
        TransactionId::new(self.epoch, sequence).expect("nonzero numbers")
    }
}

fn carry_out(bytes: &mut Vec<u8>, effects: &Vec<FileEffect>) {
    for effect in effects {
        if let FileEffect::Write { bytes: more, .. } = effect {
            bytes.extend_from_slice(more);
        }
    }
}

/// Cuts a file to the length that its repair asks for.
fn repair<const N: usize>(
    mut bytes: Vec<u8>,
    opened: LockedFileCommitLogOpen<N>,
) -> LogFile<N> {
    if let Some(length) = opened.repaired_len() {
        bytes.truncate(usize::try_from(length).unwrap());
    }
    LogFile { bytes, log: opened.finish() }
}

#[allow(dead_code)]
impl LogFile<0> {
    fn create_v1(id: u128) -> LogFile<0> {
        let (log, bytes) = FileCommitLog::create_new(persistent_id(id));
        LogFile { bytes, log }
    }

    fn open_v1(bytes: Vec<u8>) -> LogFile<0> {
        let opened: LockedFileCommitLogOpen<0> = FileCommitLog::open(&bytes).unwrap();
        repair(bytes, opened)
    }
}

#[allow(dead_code)]
impl<const N: usize> LogFile<N> {
    fn create_v2(id: u128) -> LogFile<N> {
        let (log, bytes) = FileCommitLog::<N>::create_new_page_capable(persistent_id(id)).unwrap();
        LogFile { bytes, log }
    }

    fn create_v3(id: u128) -> LogFile<N> {
        let (log, bytes) =
            FileCommitLog::<N>::create_new_transaction_page_capable(persistent_id(id)).unwrap();
        LogFile { bytes, log }
    }

    fn open_v2(bytes: Vec<u8>) -> LogFile<N> {
        let opened: LockedFileCommitLogOpen<N> =
            FileCommitLog::<N>::open_page_capable(&bytes).unwrap();
        repair(bytes, opened)
    }

    fn open_v3(bytes: Vec<u8>) -> LogFile<N> {
        let opened: LockedFileCommitLogOpen<N> =
            FileCommitLog::<N>::open_transaction_page_capable(&bytes).unwrap();
        repair(bytes, opened)
    }

    fn allocate_epoch(&mut self) -> Result<u64, FileTransactionEpochError> {
        let plan = self.log.allocate_transaction_epoch()?;
        carry_out(&mut self.bytes, plan.effects());
        Ok(self.log.finish_transaction_epoch(plan).0)
    }

    fn append_commit(&mut self, id: TransactionId) -> Result<LogSequenceNumber, FileCommitLogError> {
        let plan = self.log.append_commit(id)?;
        carry_out(&mut self.bytes, plan.effects());
        self.log.finish_append(plan)
    }

    fn append_page<const M: usize>(
        &mut self,
        page: &UnloggedPage<M>,
    ) -> Result<LogSequenceNumber, FileCommitLogError> {
        let plan = self.log.append_page(page)?;
        carry_out(&mut self.bytes, plan.effects());
        self.log.finish_append(plan)
    }

    fn append_transaction_page<const M: usize>(
        &mut self,
        page: &UnloggedPage<M>,
        owner: TransactionId,
    ) -> Result<LogSequenceNumber, FileCommitLogError> {
        let plan = self.log.append_transaction_page(page, owner)?;
        carry_out(&mut self.bytes, plan.effects());
        self.log.finish_append(plan)
    }

    fn flush_through(&mut self, position: &LogSequenceNumber) -> Result<(), FileCommitLogError> {
        match self.log.flush_through(position)? {
            Some(plan) => {
                carry_out(&mut self.bytes, plan.effects());
                self.log.finish_flush(plan)
            }
            None => Ok(()),
        }
    }

    fn commit(&mut self, id: TransactionId) -> Result<LogSequenceNumber, CommitFailure> {
        let position: LogSequenceNumber = self.append_commit(id).map_err(CommitFailure::Append)?;
        self.flush_through(&position)
            .map_err(|error| CommitFailure::Flush(position, error))?;
        Ok(position)
    }

    fn lookup(
        &self,
        id: TransactionId,
    ) -> Result<DurableCommitLookup, FileTransactionRecoveryError> {
        self.log.lookup_durable_commit(id).map(|found| found.1)
    }

    fn poison(&mut self) {
        let _ = self
            .log
            .effect_failed(FileIoStage::SyncEpochFrame, std::io::Error::other("disk is gone"));
    }
}

fn persistent_id(value: u128) -> PersistentLogId {
    PersistentLogId::new(value).expect("nonzero identity")
}

#[allow(dead_code)]
fn page_number(value: u64) -> PageNumber {
    PageNumber::new(value).expect("nonzero page number")
}

#[allow(dead_code)]
fn unlogged_page<const M: usize>(
    lineage: &LogLineage,
    number: u64,
    version: u64,
    bytes: [u8; M],
) -> UnloggedPage<M> {
    UnloggedPage::new(
        PageAddress::new(lineage, page_number(number)),
        PageVersion::new(version),
        bytes,
    )
}

/// Overwrites the eight bytes at `offset` with a big-endian number.
#[allow(dead_code)]
fn write_u64(bytes: &mut [u8], offset: usize, value: u64) {
    bytes[offset..offset + 8].copy_from_slice(&value.to_be_bytes());
}

#[allow(dead_code)]
fn write_u16(bytes: &mut [u8], offset: usize, value: u16) {
    bytes[offset..offset + 2].copy_from_slice(&value.to_be_bytes());
}

/// The file position of frame `index` behind a header of the first three versions.
#[allow(dead_code)]
fn frame_offset(index: usize) -> usize {
    HEADER_LENGTH + FRAME_LENGTH * index
}

#[allow(dead_code)]
fn frame(bytes: &[u8], index: usize) -> &[u8] {
    &bytes[frame_offset(index)..frame_offset(index + 1)]
}

#[allow(dead_code)]
fn format_error(offset: usize, reason: FileFormatErrorReason) -> FileOpenError {
    FileOpenError::Format(FileFormatError::new(u64::try_from(offset).unwrap(), reason))
}

/// A version 4 image without records, with the given high waters.
fn v4_image(id: u128, logical_high_water: Option<u64>, epoch_high_water: u64) -> Vec<u8> {
    build_header_v4(
        persistent_id(id),
        2,
        ReclaimedCoordinates {
            generation: 1,
            retained_first: None,
            logical_high_water,
            allocated_epoch_high_water: epoch_high_water,
            anchor_version: 1,
            anchor_value: 5,
        },
    )
}

#[test]
fn create_new_writes_v1_header_and_rejects_existing_path() {
    let file: LogFile<0> = LogFile::create_v1(7);
    assert_eq!(file.log.persistent_id(), persistent_id(7));
    assert!(file.log.records().is_empty());

    let bytes: Vec<u8> = file.bytes;
    assert_eq!(bytes.len(), HEADER_LENGTH);
    assert_eq!(parse_header(&bytes, HeaderExpectation::V1), Ok(persistent_id(7)));
    assert_eq!(&bytes[..8], b"NTSQLOG1");
    assert_eq!(read_u16(&bytes, 8), FORMAT_VERSION_V1);
    assert_eq!(read_u16(&bytes, 10), 64);
    assert_eq!(read_u32(&bytes, 12), 0);
    assert_eq!(read_u128(&bytes, 16), 7);
    assert_eq!(read_u64(&bytes, HEADER_CHECKSUM_OFFSET), 0x4d9a_c185_1e54_3c92);

    let reopened: LogFile<0> = LogFile::open_v1(bytes);
    assert_eq!(reopened.log.persistent_id(), persistent_id(7));
    assert!(reopened.log.records().is_empty());
}

#[test]
fn v1_format_bytes_cover_header_epoch_commit_and_marker() {
    let mut file: LogFile<0> = LogFile::create_v1(11);
    let mut coordinator: Coordinator = Coordinator::open(&mut file);
    let id: TransactionId = coordinator.begin();
    let committed: LogSequenceNumber = file.commit(id).unwrap();
    let bytes: &[u8] = &file.bytes;

    assert_eq!(bytes.len(), HEADER_LENGTH + FRAME_LENGTH * 3);
    assert_eq!(
        parse_header(&bytes[..HEADER_LENGTH], HeaderExpectation::V1),
        Ok(persistent_id(11))
    );

    let epoch: &[u8] = frame(bytes, 0);
    assert_eq!(read_u64(epoch, FRAME_CHECKSUM_OFFSET), 0x0ae5_7a86_12ea_63a2);
    assert_eq!(
        parse_frame(epoch, 64, LogFormat::V1),
        Ok(DecodedFrame {
            kind: FrameKind::EpochAllocation,
            payload0: 1,
            payload1: 0,
            payload2: 0,
            payload2_bytes: 0_u64.to_be_bytes(),
        })
    );

    let commit: &[u8] = frame(bytes, 1);
    assert_eq!(read_u64(commit, FRAME_CHECKSUM_OFFSET), 0x6c26_89cf_2a11_e4c3);
    assert_eq!(
        parse_frame(commit, 64 + 56, LogFormat::V1),
        Ok(DecodedFrame {
            kind: FrameKind::CommitRecord,
            payload0: 1,
            payload1: id.epoch(),
            payload2: id.sequence(),
            payload2_bytes: id.sequence().to_be_bytes(),
        })
    );
    assert_eq!(committed.get(), 1);

    let marker: &[u8] = frame(bytes, 2);
    assert_eq!(read_u64(marker, FRAME_CHECKSUM_OFFSET), 0xc85b_852c_c8ab_66b5);
    assert_eq!(
        parse_frame(marker, 64 + 56 * 2, LogFormat::V1),
        Ok(DecodedFrame {
            kind: FrameKind::DurableThrough,
            payload0: 1,
            payload1: 0,
            payload2: 0,
            payload2_bytes: 0_u64.to_be_bytes(),
        })
    );
}

#[test]
fn reopen_reconstructs_epoch_and_position_high_water() {
    let mut file: LogFile<0> = LogFile::create_v1(17);
    let mut first_coordinator: Coordinator = Coordinator::open(&mut file);
    let first: TransactionId = first_coordinator.begin();
    assert_eq!(file.commit(first).unwrap().get(), 1);

    let mut second_coordinator: Coordinator = Coordinator::open(&mut file);
    file.log.arm_fault(FaultPoint::AfterAppend).unwrap();
    let second: TransactionId = second_coordinator.begin();
    assert_eq!(
        file.commit(second),
        Err(CommitFailure::Append(FileCommitLogError::InjectedFault(FaultPoint::AfterAppend)))
    );
    assert_eq!(file.log.records().len(), 2);
    assert_eq!(file.log.durable_records().len(), 1);

    let mut reopened: LogFile<0> = LogFile::open_v1(file.bytes);
    assert_eq!(reopened.log.records().len(), 2);
    assert_eq!(reopened.log.durable_records().len(), 1);
    assert!(reopened.log.records()[0].matches_transaction_id(first));
    assert!(reopened.log.records()[1].matches_transaction_id(second));

    let mut third_coordinator: Coordinator = Coordinator::open(&mut reopened);
    assert_eq!(third_coordinator.epoch, 3);
    let third: TransactionId = third_coordinator.begin();
    assert_eq!(reopened.commit(third).unwrap().get(), 3);
}

#[test]
fn old_coordinator_and_position_survive_close_and_open_same_lineage() {
    let mut file: LogFile<0> = LogFile::create_v1(23);
    let mut coordinator: Coordinator = Coordinator::open(&mut file);
    let first: TransactionId = coordinator.begin();
    let position: LogSequenceNumber = file.commit(first).unwrap();

    let mut reopened: LogFile<0> = LogFile::open_v1(file.bytes);
    reopened.flush_through(&position).unwrap();
    assert_eq!(position, reopened.log.lineage().position(1));

    let second: TransactionId = coordinator.begin();
    assert_eq!(reopened.commit(second).unwrap().get(), 2);
}

#[test]
fn before_append_fault_leaves_no_record_and_resolves_absent() {
    let mut file: LogFile<0> = LogFile::create_v1(29);
    let mut coordinator: Coordinator = Coordinator::open(&mut file);
    file.log.arm_fault(FaultPoint::BeforeAppend).unwrap();
    let id: TransactionId = coordinator.begin();
    let length: usize = file.bytes.len();

    assert_eq!(
        file.commit(id),
        Err(CommitFailure::Append(FileCommitLogError::InjectedFault(FaultPoint::BeforeAppend)))
    );
    assert_eq!(file.bytes.len(), length);
    assert!(file.log.records().is_empty());
    assert_eq!(file.log.durable_records().len(), 0);
    assert_eq!(file.lookup(id), Ok(DurableCommitLookup::Absent));
}

#[test]
fn after_append_fault_keeps_unmarked_record_until_later_marker_then_resolves_committed() {
    let mut file: LogFile<0> = LogFile::create_v1(31);
    let mut coordinator: Coordinator = Coordinator::open(&mut file);
    file.log.arm_fault(FaultPoint::AfterAppend).unwrap();
    let id: TransactionId = coordinator.begin();

    assert_eq!(
        file.commit(id),
        Err(CommitFailure::Append(FileCommitLogError::InjectedFault(FaultPoint::AfterAppend)))
    );
    let position: LogSequenceNumber = *file.log.records()[0].position();
    assert_eq!(file.log.durable_records().len(), 0);
    assert_eq!(
        file.lookup(id),
        Err(FileTransactionRecoveryError::VolatileCommitRecord(id))
    );

    let mut reopened: LogFile<0> = LogFile::open_v1(file.bytes);
    assert_eq!(reopened.log.records().len(), 1);
    assert_eq!(reopened.log.durable_records().len(), 0);
    assert_eq!(
        reopened.lookup(id),
        Err(FileTransactionRecoveryError::VolatileCommitRecord(id))
    );

    reopened.flush_through(&position).unwrap();
    assert_eq!(reopened.lookup(id), Ok(DurableCommitLookup::Found { position }));

    let reopened_again: LogFile<0> = LogFile::open_v1(reopened.bytes);
    assert_eq!(reopened_again.log.durable_position(), Some(position));
}

#[test]
fn before_flush_fault_keeps_complete_unmarked_record_until_later_marker() {
    let mut file: LogFile<0> = LogFile::create_v1(37);
    let mut coordinator: Coordinator = Coordinator::open(&mut file);
    file.log.arm_fault(FaultPoint::BeforeFlush).unwrap();
    let id: TransactionId = coordinator.begin();
    let position: LogSequenceNumber = file.log.lineage().position(1);

    assert_eq!(
        file.commit(id),
        Err(CommitFailure::Flush(
            position,
            FileCommitLogError::InjectedFault(FaultPoint::BeforeFlush)
        ))
    );
    assert_eq!(file.log.records().len(), 1);
    assert_eq!(file.log.durable_records().len(), 0);
    assert_eq!(
        file.lookup(id),
        Err(FileTransactionRecoveryError::VolatileCommitRecord(id))
    );

    let mut reopened: LogFile<0> = LogFile::open_v1(file.bytes);
    assert_eq!(reopened.log.durable_records().len(), 0);
    assert_eq!(
        reopened.lookup(id),
        Err(FileTransactionRecoveryError::VolatileCommitRecord(id))
    );
    reopened.flush_through(&position).unwrap();
    assert_eq!(reopened.lookup(id), Ok(DurableCommitLookup::Found { position }));
}

#[test]
fn after_flush_fault_is_durable_and_resolves_committed_after_reopen() {
    let mut file: LogFile<0> = LogFile::create_v1(41);
    let mut coordinator: Coordinator = Coordinator::open(&mut file);
    file.log.arm_fault(FaultPoint::AfterFlush).unwrap();
    let id: TransactionId = coordinator.begin();
    let position: LogSequenceNumber = file.log.lineage().position(1);

    assert_eq!(
        file.commit(id),
        Err(CommitFailure::Flush(
            position,
            FileCommitLogError::InjectedFault(FaultPoint::AfterFlush)
        ))
    );
    assert_eq!(file.log.durable_position(), Some(position));

    let reopened: LogFile<0> = LogFile::open_v1(file.bytes);
    assert_eq!(reopened.lookup(id), Ok(DurableCommitLookup::Found { position }));
}

#[test]
fn incomplete_tail_is_truncated_and_open_seeks_end_for_further_appends() {
    let mut file: LogFile<0> = LogFile::create_v1(43);
    let mut coordinator: Coordinator = Coordinator::open(&mut file);
    let id: TransactionId = coordinator.begin();
    assert_eq!(file.commit(id).unwrap().get(), 1);

    let intact: usize = file.bytes.len();
    let mut bytes: Vec<u8> = file.bytes;
    bytes.extend_from_slice(&[1, 2, 3, 4, 5]);
    assert_eq!(bytes.len(), intact + 5);

    let mut reopened: LogFile<0> = LogFile::open_v1(bytes);
    assert_eq!(reopened.bytes.len(), intact);
    assert_eq!(reopened.log.records().len(), 1);
    assert_eq!(reopened.log.durable_records().len(), 1);

    let mut second_coordinator: Coordinator = Coordinator::open(&mut reopened);
    let second: TransactionId = second_coordinator.begin();
    assert_eq!(reopened.commit(second).unwrap().get(), 2);
    assert_eq!(LogFile::open_v1(reopened.bytes).log.records().len(), 2);
}

#[test]
fn checksum_corruption_fails_closed_without_truncating_tail() {
    let mut file: LogFile<0> = LogFile::create_v1(47);
    let mut coordinator: Coordinator = Coordinator::open(&mut file);
    let id: TransactionId = coordinator.begin();
    file.commit(id).unwrap();

    let mut bytes: Vec<u8> = file.bytes;
    bytes.extend_from_slice(&[9, 8, 7]);
    let corrupt: usize = frame_offset(1) + FRAME_CHECKSUM_OFFSET;
    bytes[corrupt] ^= 0xff;

    assert_eq!(
        FileCommitLog::open(&bytes).err(),
        Some(format_error(
            corrupt,
            FileFormatErrorReason::FrameChecksum {
                expected: checksum_v1(&bytes[frame_offset(1)..corrupt]),
                actual: read_u64(&bytes, corrupt),
            }
        ))
    );
}

#[test]
fn unsupported_header_version_is_rejected() {
    let mut bytes: Vec<u8> = LogFile::create_v1(53).bytes;
    write_u16(&mut bytes, 8, 2);
    let checksum: u64 = checksum_v1(&bytes[..HEADER_CHECKSUM_OFFSET]);
    write_u64(&mut bytes, HEADER_CHECKSUM_OFFSET, checksum);

    assert_eq!(
        FileCommitLog::open(&bytes).err(),
        Some(format_error(8, FileFormatErrorReason::HeaderVersion { actual: 2 }))
    );
}

#[test]
fn duplicate_transaction_identity_is_rejected_on_open() {
    let mut file: LogFile<0> = LogFile::create_v1(59);
    let mut coordinator: Coordinator = Coordinator::open(&mut file);
    let id: TransactionId = coordinator.begin();
    file.commit(id).unwrap();

    let mut bytes: Vec<u8> = file.bytes;
    bytes.extend_from_slice(&build_frame(
        LogFormat::V1,
        FrameKind::CommitRecord,
        2,
        id.epoch(),
        id.sequence(),
    ));
    assert_eq!(
        FileCommitLog::open(&bytes).err(),
        Some(format_error(
            frame_offset(3) + 24,
            FileFormatErrorReason::DuplicateTransactionIdentity {
                epoch: id.epoch(),
                sequence: id.sequence(),
            }
        ))
    );
}

#[test]
fn out_of_sequence_commit_position_is_rejected_on_open() {
    let mut file: LogFile<0> = LogFile::create_v1(61);
    let mut coordinator: Coordinator = Coordinator::open(&mut file);
    let id: TransactionId = coordinator.begin();
    file.commit(id).unwrap();

    let mut bytes: Vec<u8> = file.bytes;
    bytes.extend_from_slice(&build_frame(LogFormat::V1, FrameKind::CommitRecord, 3, 1, 2));
    assert_eq!(
        FileCommitLog::open(&bytes).err(),
        Some(format_error(
            frame_offset(3) + 16,
            FileFormatErrorReason::CommitPositionOutOfSequence { expected: 2, actual: 3 }
        ))
    );
}

#[test]
fn non_advancing_marker_is_rejected_on_open() {
    let mut file: LogFile<0> = LogFile::create_v1(67);
    let mut coordinator: Coordinator = Coordinator::open(&mut file);
    let id: TransactionId = coordinator.begin();
    file.commit(id).unwrap();

    let mut bytes: Vec<u8> = file.bytes;
    bytes.extend_from_slice(&build_frame(LogFormat::V1, FrameKind::DurableThrough, 1, 0, 0));
    assert_eq!(
        FileCommitLog::open(&bytes).err(),
        Some(format_error(
            frame_offset(3) + 16,
            FileFormatErrorReason::MarkerDoesNotAdvance { previous: 1, actual: 1 }
        ))
    );
}

#[test]
fn foreign_unknown_and_idempotent_flushes_preserve_faults() {
    let mut owner: LogFile<0> = LogFile::create_v1(71);
    let mut owner_coordinator: Coordinator = Coordinator::open(&mut owner);
    let owner_id: TransactionId = owner_coordinator.begin();
    let owner_position: LogSequenceNumber = owner.commit(owner_id).unwrap();

    let mut target: LogFile<0> = LogFile::create_v1(73);
    let mut target_coordinator: Coordinator = Coordinator::open(&mut target);
    let target_id: TransactionId = target_coordinator.begin();
    let target_position: LogSequenceNumber = target.commit(target_id).unwrap();
    target.log.arm_fault(FaultPoint::BeforeFlush).unwrap();

    let unknown: LogSequenceNumber = target.log.lineage().position(9);
    assert_eq!(
        target.flush_through(&unknown),
        Err(FileCommitLogError::UnknownFlushPosition(unknown))
    );
    assert_eq!(target.log.armed_fault(), Some(FaultPoint::BeforeFlush));

    assert_eq!(
        target.flush_through(&owner_position),
        Err(FileCommitLogError::ForeignFlushPosition(owner_position))
    );
    assert_eq!(target.log.armed_fault(), Some(FaultPoint::BeforeFlush));

    target.flush_through(&target_position).unwrap();
    assert_eq!(target.log.armed_fault(), Some(FaultPoint::BeforeFlush));

    let second: TransactionId = target_coordinator.begin();
    assert_eq!(
        target.commit(second),
        Err(CommitFailure::Flush(
            target.log.lineage().position(2),
            FileCommitLogError::InjectedFault(FaultPoint::BeforeFlush)
        ))
    );
    assert_eq!(target.log.records()[1].position().get(), 2);
    assert_eq!(target.log.armed_fault(), None);
}

#[test]
fn arming_a_fault_never_silently_replaces_one() {
    let mut file: LogFile<0> = LogFile::create_v1(79);
    file.log.arm_fault(FaultPoint::AfterFlush).unwrap();
    let error = file.log.arm_fault(FaultPoint::BeforeAppend).unwrap_err();
    assert_eq!(error.armed(), FaultPoint::AfterFlush);
    assert_eq!(error.requested(), FaultPoint::BeforeAppend);
    assert_eq!(file.log.armed_fault(), Some(FaultPoint::AfterFlush));
}

#[test]
fn poisoned_writer_requires_reopen_for_epoch_commit_flush_and_recovery() {
    let mut file: LogFile<0> = LogFile::create_v1(83);
    let mut coordinator: Coordinator = Coordinator::open(&mut file);
    let first: TransactionId = coordinator.begin();
    let durable: LogSequenceNumber = file.commit(first).unwrap();
    let second: TransactionId = coordinator.begin();
    file.poison();
    assert!(file.log.is_poisoned());

    assert_eq!(
        file.commit(second),
        Err(CommitFailure::Append(FileCommitLogError::PoisonedWriter))
    );
    assert_eq!(file.flush_through(&durable), Err(FileCommitLogError::PoisonedWriter));
    assert_eq!(file.allocate_epoch(), Err(FileTransactionEpochError::PoisonedWriter));
    assert_eq!(file.lookup(second), Err(FileTransactionRecoveryError::PoisonedWriter));

    let reopened: LogFile<0> = LogFile::open_v1(file.bytes);
    assert!(!reopened.log.is_poisoned());
    assert_eq!(reopened.lookup(second), Ok(DurableCommitLookup::Absent));
}

#[test]
fn epoch_and_position_exhaustion_are_typed() {
    let mut epoch_file: LogFile<2> = LogFile::open_v3(v4_image(89, None, u64::MAX));
    assert_eq!(epoch_file.log.allocated_epoch_high_water(), Some(u64::MAX));
    assert_eq!(
        epoch_file.allocate_epoch(),
        Err(FileTransactionEpochError::EpochSpaceExhausted)
    );

    let mut position_file: LogFile<2> = LogFile::open_v3(v4_image(97, Some(u64::MAX), 1));
    let mut coordinator: Coordinator = Coordinator::open(&mut position_file);
    assert_eq!(position_file.log.next_logical_position(), None);
    let id: TransactionId = coordinator.begin();
    assert_eq!(
        position_file.commit(id),
        Err(CommitFailure::Append(FileCommitLogError::PositionSpaceExhausted))
    );
}

#[test]
fn the_last_position_and_the_last_epoch_can_be_used() {
    let mut file: LogFile<2> = LogFile::open_v3(v4_image(98, Some(u64::MAX - 1), u64::MAX - 1));
    assert_eq!(file.allocate_epoch(), Ok(u64::MAX));
    assert_eq!(file.allocate_epoch(), Err(FileTransactionEpochError::EpochSpaceExhausted));
    let id: TransactionId = TransactionId::new(u64::MAX, 1).unwrap();
    assert_eq!(file.commit(id).unwrap().get(), u64::MAX);
    assert_eq!(
        file.append_commit(id),
        Err(FileCommitLogError::PositionSpaceExhausted)
    );
    let reopened: LogFile<2> = LogFile::open_v3(file.bytes);
    assert_eq!(reopened.log.records().len(), 1);
    assert_eq!(reopened.log.next_logical_position(), None);
}

#[test]
fn restart_epoch_high_water_is_checked_and_persisted_across_file_reopen() {
    let mut file: LogFile<0> = LogFile::create_v1(167);
    for expected in 1_u64..=4 {
        assert_eq!(Coordinator::open(&mut file).epoch, expected);
    }
    let plan = file.log.allocate_restart_transaction_epoch(Some(4)).unwrap();
    carry_out(&mut file.bytes, plan.effects());
    let (first, _) = file.log.finish_transaction_epoch(plan);
    assert_eq!(first, 5);

    let mut reopened: LogFile<0> = LogFile::open_v1(file.bytes);
    let plan = reopened.log.allocate_restart_transaction_epoch(Some(first)).unwrap();
    carry_out(&mut reopened.bytes, plan.effects());
    let (second, lineage) = reopened.log.finish_transaction_epoch(plan);
    assert_eq!(second, 6);
    assert_eq!(lineage, LogLineage::persistent(persistent_id(167)));
    assert_eq!(
        reopened.log.allocate_restart_transaction_epoch(Some(7)).err(),
        Some(
            TransactionRestartCoordinatorEpochAllocationError::PersistedEpochHighWaterNotAdvanced {
                persisted_epoch_high_water: 7,
                next_epoch: 7,
            }
        )
    );

    let exhausted: LogFile<2> = LogFile::open_v3(v4_image(168, None, u64::MAX));
    assert_eq!(
        exhausted.log.allocate_restart_transaction_epoch(Some(u64::MAX)).err(),
        Some(TransactionRestartCoordinatorEpochAllocationError::IdentitySpaceExhausted {
            persisted_epoch_high_water: Some(u64::MAX),
        })
    );

    reopened.poison();
    assert_eq!(
        reopened.log.allocate_restart_transaction_epoch(None).err(),
        Some(TransactionRestartCoordinatorEpochAllocationError::Source(
            FileTransactionEpochError::PoisonedWriter
        ))
    );
}

#[test]
fn v1_page_append_is_rejected_before_fault_consumption_or_position_change() {
    let mut file: LogFile<0> = LogFile::create_v1(101);
    file.log.arm_fault(FaultPoint::AfterAppend).unwrap();
    let page: UnloggedPage<1> = unlogged_page(file.log.lineage(), 5, 7, [1_u8]);
    assert_eq!(
        file.append_page(&page),
        Err(FileCommitLogError::PageSupportUnavailable)
    );
    assert!(file.log.records().is_empty());
    assert_eq!(file.log.durable_position(), None);
    assert_eq!(file.log.armed_fault(), Some(FaultPoint::AfterAppend));
}

#[test]
fn v2_create_open_and_bytes_cover_header_page_frames_and_marker() {
    let mut file: LogFile<10> = LogFile::create_v2(103);
    let page: UnloggedPage<10> =
        unlogged_page(file.log.lineage(), 7, 9, [1, 2, 3, 4, 5, 6, 7, 8, 9, 10]);
    let position: LogSequenceNumber = file.append_page(&page).unwrap();
    file.flush_through(&position).unwrap();
    let bytes: Vec<u8> = file.bytes;

    assert_eq!(bytes.len(), HEADER_LENGTH + FRAME_LENGTH * 4);
    let layout: PageLayout = PageLayout::for_const::<10>().unwrap();
    assert_eq!(
        parse_header(&bytes[..HEADER_LENGTH], HeaderExpectation::V2(layout)),
        Ok(persistent_id(103))
    );
    assert_eq!(read_u16(&bytes, 8), FORMAT_VERSION_V2);
    assert_eq!(read_u64(&bytes, HEADER_V2_PAGE_WIDTH_OFFSET), 10);
    assert_eq!(read_u64(&bytes, HEADER_CHECKSUM_OFFSET), 0xfc7c_1b9c_d9ce_d65c);

    assert_eq!(
        parse_frame(frame(&bytes, 0), 64, LogFormat::V2),
        Ok(DecodedFrame {
            kind: FrameKind::PageHeader,
            payload0: 1,
            payload1: 7,
            payload2: 9,
            payload2_bytes: 9_u64.to_be_bytes(),
        })
    );
    assert_eq!(read_u64(frame(&bytes, 0), FRAME_CHECKSUM_OFFSET), 0x5b37_7e96_b0b2_e7d5);

    let first: DecodedFrame = parse_frame(frame(&bytes, 1), 120, LogFormat::V2).unwrap();
    assert_eq!(first.kind, FrameKind::PageData);
    assert_eq!(first.payload0, 1);
    assert_eq!(first.payload1, 0);
    assert_eq!(first.payload2_bytes, [1, 2, 3, 4, 5, 6, 7, 8]);
    assert_eq!(read_u64(frame(&bytes, 1), FRAME_CHECKSUM_OFFSET), 0x0b03_c0c4_3035_cc7e);

    let last: DecodedFrame = parse_frame(frame(&bytes, 2), 176, LogFormat::V2).unwrap();
    assert_eq!(last.kind, FrameKind::PageData);
    assert_eq!(last.payload0, 1);
    assert_eq!(last.payload1, 1);
    assert_eq!(last.payload2_bytes, [9, 10, 0, 0, 0, 0, 0, 0]);
    assert_eq!(read_u64(frame(&bytes, 2), FRAME_CHECKSUM_OFFSET), 0x10e7_f1c2_8c70_6051);

    let marker: DecodedFrame = parse_frame(frame(&bytes, 3), 232, LogFormat::V2).unwrap();
    assert_eq!(marker.kind, FrameKind::DurableThrough);
    assert_eq!(marker.payload0, 1);
    assert_eq!(read_u64(frame(&bytes, 3), FRAME_CHECKSUM_OFFSET), 0x94e8_67e0_753c_4fa4);

    let reopened: LogFile<10> = LogFile::open_v2(bytes);
    assert_eq!(reopened.log.records().len(), 1);
    let record = reopened.log.records()[0].page_write().unwrap();
    assert_eq!(record.page_number().get(), 7);
    assert_eq!(record.page_version().get(), 9);
    assert_eq!(record.bytes(), &[1, 2, 3, 4, 5, 6, 7, 8, 9, 10]);
}

#[test]
fn mixed_commit_page_commit_share_ordering_durable_prefix_and_reopen() {
    let mut file: LogFile<4> = LogFile::create_v2(107);
    let mut coordinator: Coordinator = Coordinator::open(&mut file);
    let first: TransactionId = coordinator.begin();
    let first_position: LogSequenceNumber = file.commit(first).unwrap();
    let page: UnloggedPage<4> = unlogged_page(file.log.lineage(), 3, 4, [7, 8, 9, 10]);
    let dirty: LogSequenceNumber = file.append_page(&page).unwrap();
    let second: TransactionId = coordinator.begin();
    let second_position: LogSequenceNumber = file.commit(second).unwrap();

    assert_eq!(first_position.get(), 1);
    assert_eq!(dirty.get(), 2);
    assert_eq!(second_position.get(), 3);
    assert_eq!(file.log.records().len(), 3);
    assert_eq!(file.log.durable_records().len(), 3);
    assert_eq!(file.log.durable_position(), Some(file.log.lineage().position(3)));
    assert!(file.log.records()[0].matches_transaction_id(first));
    assert!(file.log.records()[2].matches_transaction_id(second));
    let record = file.log.records()[1].page_write().unwrap();
    assert_eq!(record.page_number().get(), 3);
    assert_eq!(record.page_version().get(), 4);
    assert_eq!(record.bytes(), &[7, 8, 9, 10]);

    let mut reopened: LogFile<4> = LogFile::open_v2(file.bytes);
    assert_eq!(reopened.log.records().len(), 3);
    assert_eq!(reopened.log.durable_records().len(), 3);
    let third_position: LogSequenceNumber = reopened.log.lineage().position(3);
    assert_eq!(reopened.log.durable_position(), Some(third_position));
    reopened.flush_through(&third_position).unwrap();
    assert_eq!(reopened.log.durable_records().len(), 3);
    let third: TransactionId = coordinator.begin();
    assert_eq!(reopened.commit(third).unwrap().get(), 4);
    assert_eq!(reopened.log.records().len(), 4);
    assert_eq!(reopened.log.durable_records().len(), 4);
}

#[test]
fn transaction_recovery_ignores_page_records() {
    let mut file: LogFile<2> = LogFile::create_v2(109);
    let mut coordinator: Coordinator = Coordinator::open(&mut file);
    let durable_id: TransactionId = coordinator.begin();
    let durable_position: LogSequenceNumber = file.commit(durable_id).unwrap();
    let page: UnloggedPage<2> = unlogged_page(file.log.lineage(), 1, 1, [4, 5]);
    file.append_page(&page).unwrap();
    let volatile_id: TransactionId = coordinator.begin();
    file.log.arm_fault(FaultPoint::AfterAppend).unwrap();
    assert!(file.commit(volatile_id).is_err());

    let reopened: LogFile<2> = LogFile::open_v2(file.bytes);
    assert_eq!(
        reopened.log.lookup_durable_commit(durable_id),
        Ok((
            *reopened.log.lineage(),
            DurableCommitLookup::Found {
                position: reopened.log.lineage().position(durable_position.get()),
            }
        ))
    );
    assert_eq!(
        reopened.lookup(volatile_id),
        Err(FileTransactionRecoveryError::VolatileCommitRecord(volatile_id))
    );
}

#[test]
fn page_append_and_flush_faults_match_commit_semantics() {
    let mut before: LogFile<2> = LogFile::create_v2(113);
    before.log.arm_fault(FaultPoint::BeforeAppend).unwrap();
    let page: UnloggedPage<2> = unlogged_page(before.log.lineage(), 21, 2, [1, 2]);
    assert_eq!(
        before.append_page(&page),
        Err(FileCommitLogError::InjectedFault(FaultPoint::BeforeAppend))
    );
    assert!(before.log.records().is_empty());

    let mut after: LogFile<2> = LogFile::create_v2(127);
    after.log.arm_fault(FaultPoint::AfterAppend).unwrap();
    let page: UnloggedPage<2> = unlogged_page(after.log.lineage(), 22, 3, [3, 4]);
    assert_eq!(
        after.append_page(&page),
        Err(FileCommitLogError::InjectedFault(FaultPoint::AfterAppend))
    );
    assert_eq!(after.log.records().len(), 1);
    assert_eq!(after.log.records()[0].position().get(), 1);

    let mut flush: LogFile<2> = LogFile::create_v2(131);
    let page: UnloggedPage<2> = unlogged_page(flush.log.lineage(), 23, 4, [5, 6]);
    let dirty: LogSequenceNumber = flush.append_page(&page).unwrap();
    flush.log.arm_fault(FaultPoint::BeforeFlush).unwrap();
    assert_eq!(
        flush.flush_through(&dirty),
        Err(FileCommitLogError::InjectedFault(FaultPoint::BeforeFlush))
    );
    assert_eq!(flush.log.durable_records().len(), 0);

    flush.flush_through(&dirty).unwrap();
    flush.log.arm_fault(FaultPoint::AfterFlush).unwrap();
    let page: UnloggedPage<2> = unlogged_page(flush.log.lineage(), 24, 5, [7, 8]);
    let second: LogSequenceNumber = flush.append_page(&page).unwrap();
    assert_eq!(
        flush.flush_through(&second),
        Err(FileCommitLogError::InjectedFault(FaultPoint::AfterFlush))
    );
    assert_eq!(flush.log.durable_position(), Some(flush.log.lineage().position(2)));
}

#[test]
fn page_log_persists_reopen_and_discards_partial_group() {
    let mut file: LogFile<9> = LogFile::create_v2(137);
    let durable: UnloggedPage<9> =
        unlogged_page(file.log.lineage(), 1, 1, [1, 2, 3, 4, 5, 6, 7, 8, 9]);
    let position: LogSequenceNumber = file.append_page(&durable).unwrap();
    file.flush_through(&position).unwrap();
    file.log.arm_fault(FaultPoint::AfterAppend).unwrap();
    let volatile: UnloggedPage<9> =
        unlogged_page(file.log.lineage(), 2, 2, [9, 8, 7, 6, 5, 4, 3, 2, 1]);
    assert_eq!(
        file.append_page(&volatile),
        Err(FileCommitLogError::InjectedFault(FaultPoint::AfterAppend))
    );
    assert_eq!(file.log.records().len(), 2);

    let reopened: LogFile<9> = LogFile::open_v2(file.bytes);
    assert_eq!(reopened.log.records().len(), 2);
    assert_eq!(reopened.log.durable_records().len(), 1);
    let record = &reopened.log.records()[0];
    assert_eq!(record.position(), &reopened.log.lineage().position(1));
    let page = record.page_write().unwrap();
    assert_eq!(page.page_number().get(), 1);
    assert_eq!(page.page_version().get(), 1);
    assert_eq!(page.bytes(), &[1, 2, 3, 4, 5, 6, 7, 8, 9]);
    assert_eq!(
        reopened.log.records()[1].position(),
        &reopened.log.lineage().position(2)
    );
}

#[test]
fn page_capable_open_rejects_zero_and_width_mismatch() {
    let mut bytes: Vec<u8> = LogFile::<4>::create_v2(139).bytes;
    bytes.extend_from_slice(&[1, 2, 3]);

    assert_eq!(
        FileCommitLog::<0>::create_new_page_capable(persistent_id(141)).err(),
        Some(FileCreateError::PageWidth(FilePageWidthError::Zero))
    );
    assert_eq!(
        FileCommitLog::<0>::open_page_capable(&bytes).err(),
        Some(FileOpenError::PageWidth(FilePageWidthError::Zero))
    );
    assert_eq!(
        FileCommitLog::<8>::open_page_capable(&bytes).err(),
        Some(format_error(
            HEADER_V2_PAGE_WIDTH_OFFSET,
            FileFormatErrorReason::HeaderPageWidthMismatch { expected: 8, actual: 4 }
        ))
    );

    write_u64(&mut bytes, HEADER_V2_PAGE_WIDTH_OFFSET, 0);
    let checksum: u64 = checksum_v1(&bytes[..HEADER_CHECKSUM_OFFSET]);
    write_u64(&mut bytes, HEADER_CHECKSUM_OFFSET, checksum);
    assert_eq!(
        FileCommitLog::<4>::open_page_capable(&bytes).err(),
        Some(format_error(
            HEADER_V2_PAGE_WIDTH_OFFSET,
            FileFormatErrorReason::HeaderPageWidthZero
        ))
    );
}

#[test]
fn incomplete_physical_frame_and_partial_logical_groups_are_repaired() {
    let layout: PageLayout = PageLayout::for_const::<10>().unwrap();
    assert_eq!(layout.chunk_count, 2);
    let chunks: [[u8; 8]; 2] = [[1, 2, 3, 4, 5, 6, 7, 8], [9, 10, 0, 0, 0, 0, 0, 0]];

    for complete_chunks in [0_usize, 1_usize] {
        let mut file: LogFile<10> = LogFile::create_v2(151 + complete_chunks as u128);
        let prefix: UnloggedPage<10> =
            unlogged_page(file.log.lineage(), 1, 1, [0, 1, 2, 3, 4, 5, 6, 7, 8, 9]);
        let position: LogSequenceNumber = file.append_page(&prefix).unwrap();
        file.flush_through(&position).unwrap();
        let intact: usize = file.bytes.len();
        let mut bytes: Vec<u8> = file.bytes;
        bytes.extend_from_slice(&build_frame(LogFormat::V2, FrameKind::PageHeader, 2, 4, 6));
        for index in 0..complete_chunks {
            bytes.extend_from_slice(&build_frame_with_payload2_bytes(
                LogFormat::V2,
                FrameKind::PageData,
                2,
                index as u64,
                &chunks[index],
            ));
        }
        let mut repaired: LogFile<10> = LogFile::open_v2(bytes);
        assert_eq!(repaired.log.records().len(), 1);
        assert_eq!(repaired.log.durable_records().len(), 1);
        assert_eq!(repaired.bytes.len(), intact);
        let replacement: UnloggedPage<10> =
            unlogged_page(repaired.log.lineage(), 2, 2, [9, 8, 7, 6, 5, 4, 3, 2, 1, 0]);
        assert_eq!(repaired.append_page(&replacement).unwrap().get(), 2);
    }

    let mut file: LogFile<10> = LogFile::create_v2(161);
    let prefix: UnloggedPage<10> =
        unlogged_page(file.log.lineage(), 1, 1, [0, 1, 2, 3, 4, 5, 6, 7, 8, 9]);
    let position: LogSequenceNumber = file.append_page(&prefix).unwrap();
    file.flush_through(&position).unwrap();
    let intact: usize = file.bytes.len();
    let mut bytes: Vec<u8> = file.bytes;
    bytes.extend_from_slice(&build_frame(LogFormat::V2, FrameKind::PageHeader, 2, 4, 6));
    bytes.extend_from_slice(&build_frame_with_payload2_bytes(
        LogFormat::V2,
        FrameKind::PageData,
        2,
        0,
        &chunks[0],
    ));
    bytes.extend_from_slice(
        &build_frame_with_payload2_bytes(LogFormat::V2, FrameKind::PageData, 2, 1, &chunks[1])
            [..FRAME_LENGTH - 3],
    );
    let mut repaired: LogFile<10> = LogFile::open_v2(bytes);
    assert_eq!(repaired.log.records().len(), 1);
    assert_eq!(repaired.log.durable_records().len(), 1);
    assert_eq!(repaired.bytes.len(), intact);
    let replacement: UnloggedPage<10> =
        unlogged_page(repaired.log.lineage(), 2, 2, [9, 8, 7, 6, 5, 4, 3, 2, 1, 0]);
    assert_eq!(repaired.append_page(&replacement).unwrap().get(), 2);
}

/// The error on opening a fresh log that is followed by `frames`.
fn v2_open_error(id: u128, frames: Vec<Vec<u8>>) -> FileOpenError {
    let mut bytes: Vec<u8> = LogFile::<10>::create_v2(id).bytes;
    for more in frames {
        bytes.extend_from_slice(&more);
    }
    FileCommitLog::<10>::open_page_capable(&bytes).unwrap_err()
}

#[test]
fn complete_page_corruption_fails_without_truncation() {
    let header = |position: u64, number: u64, version: u64| {
        build_frame(LogFormat::V2, FrameKind::PageHeader, position, number, version)
    };
    let data = |position: u64, index: u64, chunk: [u8; 8]| {
        build_frame_with_payload2_bytes(LogFormat::V2, FrameKind::PageData, position, index, &chunk)
    };
    let first: [u8; 8] = [1, 2, 3, 4, 5, 6, 7, 8];

    assert_eq!(
        v2_open_error(
            167,
            vec![
                header(1, 4, 6),
                build_frame(LogFormat::V2, FrameKind::DurableThrough, 1, 0, 0),
            ]
        ),
        format_error(
            frame_offset(1) + 4,
            FileFormatErrorReason::PageDataInterruptedByFrameKind { actual: 3 }
        )
    );
    assert_eq!(
        v2_open_error(173, vec![header(1, 4, 6), data(2, 0, first)]),
        format_error(
            frame_offset(1) + 16,
            FileFormatErrorReason::PageDataParentMismatch { expected: 1, actual: 2 }
        )
    );
    assert_eq!(
        v2_open_error(179, vec![header(1, 4, 6), data(1, 1, first)]),
        format_error(
            frame_offset(1) + 24,
            FileFormatErrorReason::PageDataChunkIndexOutOfSequence { expected: 0, actual: 1 }
        )
    );
    assert_eq!(
        v2_open_error(
            181,
            vec![
                header(1, 4, 6),
                data(1, 0, first),
                data(1, 1, [9, 10, 0, 0, 0, 0, 0, 0]),
                header(1, 5, 7),
            ]
        ),
        format_error(
            frame_offset(3) + 16,
            FileFormatErrorReason::PageHeaderPositionOutOfSequence { expected: 2, actual: 1 }
        )
    );
    assert_eq!(
        v2_open_error(
            191,
            vec![
                header(1, 4, 6),
                data(1, 0, first),
                data(1, 1, [9, 10, 1, 0, 0, 0, 0, 0]),
            ]
        ),
        format_error(
            frame_offset(2) + 32,
            FileFormatErrorReason::PageDataFinalPaddingNonzero
        )
    );

    let mut file: LogFile<10> = LogFile::create_v2(193);
    let page: UnloggedPage<10> =
        unlogged_page(file.log.lineage(), 8, 2, [1, 2, 3, 4, 5, 6, 7, 8, 9, 10]);
    file.append_page(&page).unwrap();
    let mut bytes: Vec<u8> = file.bytes;
    let corrupt: usize = frame_offset(1) + FRAME_CHECKSUM_OFFSET;
    bytes[corrupt] ^= 0xff;
    assert_eq!(
        FileCommitLog::<10>::open_page_capable(&bytes).err(),
        Some(format_error(
            corrupt,
            FileFormatErrorReason::FrameChecksum {
                expected: checksum_v1(&bytes[frame_offset(1)..corrupt]),
                actual: read_u64(&bytes, corrupt),
            }
        ))
    );
}

#[test]
fn page_foreign_lineage_and_fault_preservation_match_in_memory_contract() {
    let mut file: LogFile<2> = LogFile::create_v2(193);
    file.log.arm_fault(FaultPoint::AfterAppend).unwrap();
    let foreign: UnloggedPage<2> = unlogged_page(&LogLineage::Process(1), 9, 7, [5, 6]);
    assert_eq!(
        file.append_page(&foreign),
        Err(FileCommitLogError::ForeignPageLineage(page_number(9)))
    );
    assert!(file.log.records().is_empty());
    assert_eq!(file.log.durable_position(), None);
    assert_eq!(file.log.armed_fault(), Some(FaultPoint::AfterAppend));

    let local: UnloggedPage<2> = unlogged_page(file.log.lineage(), 10, 8, [7, 8]);
    assert_eq!(
        file.append_page(&local),
        Err(FileCommitLogError::InjectedFault(FaultPoint::AfterAppend))
    );
    assert_eq!(file.log.records().len(), 1);
    assert_eq!(file.log.records()[0].position().get(), 1);
}

#[test]
fn a_page_of_another_width_is_refused() {
    let mut file: LogFile<2> = LogFile::create_v2(194);
    let page: UnloggedPage<3> = unlogged_page(file.log.lineage(), 1, 1, [1, 2, 3]);
    assert_eq!(
        file.append_page(&page),
        Err(FileCommitLogError::PageWidthMismatch { expected: 2, actual: 3 })
    );
}

#[test]
fn a_record_without_room_is_refused_and_keeps_the_fault() {
    let mut file: LogFile<2> = LogFile::create_v2(195);
    file.log.arm_fault(FaultPoint::AfterAppend).unwrap();
    let id: TransactionId = TransactionId::new(1, 1).unwrap();
    assert_eq!(
        file.log.append_commit_record(id, false).err(),
        Some(FileCommitLogError::RecordCapacityExhausted)
    );
    let page: UnloggedPage<2> = unlogged_page(file.log.lineage(), 1, 1, [1, 2]);
    assert_eq!(
        file.log.append_page_group(&page, None, false).err(),
        Some(FileCommitLogError::RecordCapacityExhausted)
    );
    assert_eq!(file.log.armed_fault(), Some(FaultPoint::AfterAppend));
    assert_eq!(file.log.next_logical_position(), Some(1));
}

#[test]
fn only_the_prefix_synchronization_leaves_the_writer_usable() {
    let mut file: LogFile<0> = LogFile::create_v1(196);
    let error = file
        .log
        .effect_failed(FileIoStage::SyncCommitPrefix, std::io::Error::from_raw_os_error(5));
    assert_eq!(error.stage(), FileIoStage::SyncCommitPrefix);
    assert_eq!(error.io_source().raw_os_error(), Some(5));
    assert!(!file.log.is_poisoned());
    let error = file
        .log
        .effect_failed(FileIoStage::WriteDurableMarker, std::io::Error::from_raw_os_error(5));
    assert_eq!(error.stage(), FileIoStage::WriteDurableMarker);
    assert!(file.log.is_poisoned());
}

#[test]
fn the_effects_of_a_flush_come_in_order() {
    let mut file: LogFile<0> = LogFile::create_v1(197);
    let mut coordinator: Coordinator = Coordinator::open(&mut file);
    let id: TransactionId = coordinator.begin();
    let position: LogSequenceNumber = file.append_commit(id).unwrap();
    let plan = file.log.flush_through(&position).unwrap().unwrap();
    let stages: Vec<FileIoStage> = plan.effects().iter().map(|effect| effect.stage()).collect();
    assert_eq!(
        stages,
        vec![
            FileIoStage::SyncCommitPrefix,
            FileIoStage::WriteDurableMarker,
            FileIoStage::SyncDurableMarker,
        ]
    );
    assert_eq!(
        plan.effects()[1],
        FileEffect::Write {
            stage: FileIoStage::WriteDurableMarker,
            bytes: build_frame(LogFormat::V1, FrameKind::DurableThrough, 1, 0, 0),
        }
    );
}

#[test]
fn every_cut_of_the_last_append_reopens_to_the_log_before_it() {
    let mut file: LogFile<10> = LogFile::create_v3(198);
    let mut coordinator: Coordinator = Coordinator::open(&mut file);
    let owner: TransactionId = coordinator.begin();
    file.commit(owner).unwrap();
    let before: usize = file.bytes.len();
    let page: UnloggedPage<10> =
        unlogged_page(file.log.lineage(), 8, 2, [1, 2, 3, 4, 5, 6, 7, 8, 9, 10]);
    file.append_transaction_page(&page, owner).unwrap();
    let after: usize = file.bytes.len();
    assert_eq!(after, before + FRAME_LENGTH * 4);

    for cut in before..after {
        let reopened: LogFile<10> = LogFile::open_v3(file.bytes[..cut].to_vec());
        assert_eq!(reopened.bytes, file.bytes[..before].to_vec());
        assert_eq!(reopened.log.records().len(), 1);
    }
    let reopened: LogFile<10> = LogFile::open_v3(file.bytes.clone());
    assert_eq!(reopened.log.records(), file.log.records());
    assert_eq!(reopened.bytes, file.bytes);
}

#[test]
fn what_is_written_later_keeps_records_epochs_and_durable_commits() {
    let mut file: LogFile<0> = LogFile::create_v1(194);
    let mut coordinator: Coordinator = Coordinator::open(&mut file);
    let first: TransactionId = coordinator.begin();
    let position: LogSequenceNumber = file.commit(first).unwrap();
    let early = file.log.records().to_vec();

    let second: TransactionId = coordinator.begin();
    file.append_commit(second).unwrap();
    let mut reopened: LogFile<0> = LogFile::open_v1(file.bytes);
    assert_eq!(reopened.log.records()[..early.len()], early[..]);
    assert_eq!(reopened.log.durable_records(), &early[..]);
    assert_eq!(reopened.lookup(first), Ok(DurableCommitLookup::Found { position }));
    assert_eq!(
        reopened.lookup(second),
        Err(FileTransactionRecoveryError::VolatileCommitRecord(second))
    );
    assert_eq!(reopened.allocate_epoch(), Ok(coordinator.epoch + 1));
}

#[test]
fn every_damaged_byte_of_a_frame_is_refused() {
    let mut file: LogFile<0> = LogFile::create_v1(199);
    let mut coordinator: Coordinator = Coordinator::open(&mut file);
    let id: TransactionId = coordinator.begin();
    file.commit(id).unwrap();
    for index in 0..file.bytes.len() {
        let mut damaged: Vec<u8> = file.bytes.clone();
        damaged[index] ^= 0x01;
        assert!(FileCommitLog::open(&damaged).is_err());
    }
}

#[test]
fn every_header_field_of_version_one_is_checked() {
    let header: Vec<u8> = LogFile::create_v1(200).bytes;
    let refusal = |offset: usize, value: u8| {
        let mut bytes: Vec<u8> = header.clone();
        bytes[offset] = value;
        let checksum: u64 = checksum_v1(&bytes[..HEADER_CHECKSUM_OFFSET]);
        write_u64(&mut bytes, HEADER_CHECKSUM_OFFSET, checksum);
        FileCommitLog::open(&bytes).unwrap_err()
    };
    assert_eq!(
        FileCommitLog::open(&header[..63]).err(),
        Some(format_error(0, FileFormatErrorReason::HeaderTooShort { actual: 63 }))
    );
    assert_eq!(refusal(0, b'X'), format_error(0, FileFormatErrorReason::HeaderMagic));
    assert_eq!(
        refusal(9, 6),
        format_error(8, FileFormatErrorReason::HeaderVersion { actual: 6 })
    );
    assert_eq!(
        refusal(11, 65),
        format_error(10, FileFormatErrorReason::HeaderLength { actual: 65 })
    );
    assert_eq!(
        refusal(15, 1),
        format_error(12, FileFormatErrorReason::HeaderFlags { actual: 1 })
    );
    assert_eq!(refusal(31, 0), format_error(16, FileFormatErrorReason::LineageIdZero));
    assert_eq!(refusal(40, 1), format_error(32, FileFormatErrorReason::HeaderReserved));
    let mut bytes: Vec<u8> = header.clone();
    bytes[HEADER_CHECKSUM_OFFSET] ^= 1;
    assert_eq!(
        FileCommitLog::open(&bytes).err(),
        Some(format_error(
            HEADER_CHECKSUM_OFFSET,
            FileFormatErrorReason::HeaderChecksum {
                expected: checksum_v1(&bytes[..HEADER_CHECKSUM_OFFSET]),
                actual: read_u64(&bytes, HEADER_CHECKSUM_OFFSET),
            }
        ))
    );
}

/// The error on opening a version 1 log, with epoch 1 allocated, that is followed
/// by one frame.
fn v1_frame_error(frame: Vec<u8>) -> FileOpenError {
    let mut file: LogFile<0> = LogFile::create_v1(201);
    file.allocate_epoch().unwrap();
    let mut bytes: Vec<u8> = file.bytes;
    bytes.extend_from_slice(&frame);
    FileCommitLog::open(&bytes).unwrap_err()
}

#[test]
fn every_payload_rule_of_version_one_is_checked() {
    let at: usize = frame_offset(1);
    let build = |kind: FrameKind, a: u64, b: u64, c: u64| build_frame(LogFormat::V1, kind, a, b, c);
    assert_eq!(
        v1_frame_error(build(FrameKind::EpochAllocation, 0, 0, 0)),
        format_error(at + 16, FileFormatErrorReason::EpochValueZero)
    );
    assert_eq!(
        v1_frame_error(build(FrameKind::EpochAllocation, 3, 0, 0)),
        format_error(
            at + 16,
            FileFormatErrorReason::EpochOutOfSequence { expected: 2, actual: 3 }
        )
    );
    assert_eq!(
        v1_frame_error(build(FrameKind::CommitRecord, 0, 1, 1)),
        format_error(at + 16, FileFormatErrorReason::CommitPositionZero)
    );
    assert_eq!(
        v1_frame_error(build(FrameKind::CommitRecord, 1, 0, 1)),
        format_error(at + 24, FileFormatErrorReason::CommitEpochZero)
    );
    assert_eq!(
        v1_frame_error(build(FrameKind::CommitRecord, 1, 2, 1)),
        format_error(
            at + 24,
            FileFormatErrorReason::CommitEpochUnallocated { actual: 2, highest_allocated: 1 }
        )
    );
    assert_eq!(
        v1_frame_error(build(FrameKind::CommitRecord, 1, 1, 0)),
        format_error(at + 32, FileFormatErrorReason::CommitSequenceZero)
    );
    assert_eq!(
        v1_frame_error(build(FrameKind::DurableThrough, 0, 0, 0)),
        format_error(at + 16, FileFormatErrorReason::MarkerPositionZero)
    );
    assert_eq!(
        v1_frame_error(build(FrameKind::DurableThrough, 1, 0, 0)),
        format_error(
            at + 16,
            FileFormatErrorReason::MarkerReferencesUnknownCommit {
                actual: 1,
                highest_committed: 0,
            }
        )
    );
}
