//! Replacing a log's file by one without the prefix that a checkpoint covers.
use ntsql_storage_file::commit_log::reclamation::{
    build_reclamation_frame_plan, cleanup_reclamation_candidate, metadata_identifies_same_file, CandidateCleanup,
    CandidateObservation, DurableTransactionRestartWalReclamationEffectObservation,
    DurableTransactionRestartWalReclamationPermit, FileIdentity, ReclamationAction,
};
use ntsql_storage_file::commit_log::recovery::DurableCommitLookup;
use ntsql_storage_file::commit_log::{FileCommitLog, LockedFileCommitLogOpen};
use ntsql_storage_file::database_identity::{
    DatabaseFileId, DatabaseFileRole, DatabaseId, DatabaseStorageIdentity,
};
use ntsql_storage_file::format::{LogFormat, PageLayout, FRAME_LENGTH, HEADER_LENGTH};
use ntsql_storage_file::identity::{
    LogLineage, LogSequenceNumber, PageNumber, PageVersion, PersistentLogId, TransactionId,
};
use ntsql_storage_file::log_effect::FileEffect;
use ntsql_storage_file::log_error::{
    FaultPoint, FileCommitLogError, FileFormatError, FileFormatErrorReason, FileIoStage,
    FileOpenError, FileTransactionEpochError, FileTransactionRecoveryError,
    FileTransactionRestartWalReclamationError,
};
use ntsql_storage_file::log_frame::parse_frame;
use ntsql_storage_file::log_header::{build_header_v4, ReclaimedCoordinates};
use ntsql_storage_file::log_open_state::OpenState;
use ntsql_storage_file::page::{PageAddress, UnloggedPage};

/// A log together with the bytes of its file.
struct LogFile<const N: usize> {
    bytes: Vec<u8>,
    log: FileCommitLog<N>,
}

/// At which step a commit failed.
#[derive(Debug, PartialEq)]
enum CommitFailure {
    Append(FileCommitLogError),
    Flush(LogSequenceNumber, FileCommitLogError),
}

/// Numbers the transactions of one epoch.
struct Coordinator {
    epoch: u64,
    next_sequence: u64,
}

#[allow(dead_code)]
impl Coordinator {
    fn open<const N: usize>(file: &mut LogFile<N>) -> Coordinator {
        let epoch: u64 = file.allocate_epoch().expect("an epoch is left");
        Coordinator { epoch, next_sequence: 1 }
    }

    fn begin(&mut self) -> TransactionId {
        let sequence: u64 = self.next_sequence;
        self.next_sequence += 1;
        TransactionId::new(self.epoch, sequence).expect("nonzero numbers")
    }
}

fn carry_out(bytes: &mut Vec<u8>, effects: &Vec<FileEffect>) {
    for effect in effects {
        if let FileEffect::Write { bytes: more, .. } = effect {
            bytes.extend_from_slice(more);
        }
    }
}

/// Cuts a file to the length that its repair asks for.
fn repair<const N: usize>(
    mut bytes: Vec<u8>,
    opened: LockedFileCommitLogOpen<N>,
) -> LogFile<N> {
    if let Some(length) = opened.repaired_len() {
        bytes.truncate(usize::try_from(length).unwrap());
    }
    LogFile { bytes, log: opened.finish() }
}

#[allow(dead_code)]
impl LogFile<0> {
    fn create_v1(id: u128) -> LogFile<0> {
        let (log, bytes) = FileCommitLog::create_new(persistent_id(id));
        LogFile { bytes, log }
    }

    fn open_v1(bytes: Vec<u8>) -> LogFile<0> {
        let opened: LockedFileCommitLogOpen<0> = FileCommitLog::open(&bytes).unwrap();
        repair(bytes, opened)
    }
}

#[allow(dead_code)]
impl<const N: usize> LogFile<N> {
    fn create_v2(id: u128) -> LogFile<N> {
        let (log, bytes) = FileCommitLog::<N>::create_new_page_capable(persistent_id(id)).unwrap();
        LogFile { bytes, log }
    }

    fn create_v3(id: u128) -> LogFile<N> {
        let (log, bytes) =
            FileCommitLog::<N>::create_new_transaction_page_capable(persistent_id(id)).unwrap();
        LogFile { bytes, log }
    }

    fn open_v2(bytes: Vec<u8>) -> LogFile<N> {
        let opened: LockedFileCommitLogOpen<N> =
            FileCommitLog::<N>::open_page_capable(&bytes).unwrap();
        repair(bytes, opened)
    }

    fn open_v3(bytes: Vec<u8>) -> LogFile<N> {
        let opened: LockedFileCommitLogOpen<N> =
            FileCommitLog::<N>::open_transaction_page_capable(&bytes).unwrap();
        repair(bytes, opened)
    }

    fn allocate_epoch(&mut self) -> Result<u64, FileTransactionEpochError> {
        let plan = self.log.allocate_transaction_epoch()?;
        carry_out(&mut self.bytes, plan.effects());
        Ok(self.log.finish_transaction_epoch(plan).0)
    }

    fn append_commit(&mut self, id: TransactionId) -> Result<LogSequenceNumber, FileCommitLogError> {
        let plan = self.log.append_commit(id)?;
        carry_out(&mut self.bytes, plan.effects());
        self.log.finish_append(plan)
    }

    fn append_page<const M: usize>(
        &mut self,
        page: &UnloggedPage<M>,
    ) -> Result<LogSequenceNumber, FileCommitLogError> {
        let plan = self.log.append_page(page)?;
        carry_out(&mut self.bytes, plan.effects());
        self.log.finish_append(plan)
    }

    fn append_transaction_page<const M: usize>(
        &mut self,
        page: &UnloggedPage<M>,
        owner: TransactionId,
    ) -> Result<LogSequenceNumber, FileCommitLogError> {
        let plan = self.log.append_transaction_page(page, owner)?;
        carry_out(&mut self.bytes, plan.effects());
        self.log.finish_append(plan)
    }

    fn flush_through(&mut self, position: &LogSequenceNumber) -> Result<(), FileCommitLogError> {
        match self.log.flush_through(position)? {
            Some(plan) => {
                carry_out(&mut self.bytes, plan.effects());
                self.log.finish_flush(plan)
            }
            None => Ok(()),
        }
    }

    fn commit(&mut self, id: TransactionId) -> Result<LogSequenceNumber, CommitFailure> {
        let position: LogSequenceNumber = self.append_commit(id).map_err(CommitFailure::Append)?;
        self.flush_through(&position)
            .map_err(|error| CommitFailure::Flush(position, error))?;
        Ok(position)
    }

    fn lookup(
        &self,
        id: TransactionId,
    ) -> Result<DurableCommitLookup, FileTransactionRecoveryError> {
        self.log.lookup_durable_commit(id).map(|found| found.1)
    }

    fn poison(&mut self) {
        let _ = self
            .log
            .effect_failed(FileIoStage::SyncEpochFrame, std::io::Error::other("disk is gone"));
    }
}

fn persistent_id(value: u128) -> PersistentLogId {
    PersistentLogId::new(value).expect("nonzero identity")
}

#[allow(dead_code)]
fn page_number(value: u64) -> PageNumber {
    PageNumber::new(value).expect("nonzero page number")
}

#[allow(dead_code)]
fn unlogged_page<const M: usize>(
    lineage: &LogLineage,
    number: u64,
    version: u64,
    bytes: [u8; M],
) -> UnloggedPage<M> {
    UnloggedPage::new(
        PageAddress::new(lineage, page_number(number)),
        PageVersion::new(version),
        bytes,
    )
}

/// Overwrites the eight bytes at `offset` with a big-endian number.
#[allow(dead_code)]
fn write_u64(bytes: &mut [u8], offset: usize, value: u64) {
    bytes[offset..offset + 8].copy_from_slice(&value.to_be_bytes());
}

#[allow(dead_code)]
fn write_u16(bytes: &mut [u8], offset: usize, value: u16) {
    bytes[offset..offset + 2].copy_from_slice(&value.to_be_bytes());
}

/// The file position of frame `index` behind a header of the first three versions.
#[allow(dead_code)]
fn frame_offset(index: usize) -> usize {
    HEADER_LENGTH + FRAME_LENGTH * index
}

#[allow(dead_code)]
fn frame(bytes: &[u8], index: usize) -> &[u8] {
    &bytes[frame_offset(index)..frame_offset(index + 1)]
}

#[allow(dead_code)]
fn format_error(offset: usize, reason: FileFormatErrorReason) -> FileOpenError {
    FileOpenError::Format(FileFormatError::new(u64::try_from(offset).unwrap(), reason))
}

/// Four durable records: a raw page, an owned page, its commit, another commit.
fn filled(mut file: LogFile<2>) -> LogFile<2> {
    let mut coordinator: Coordinator = Coordinator::open(&mut file);
    let raw: UnloggedPage<2> = unlogged_page(file.log.lineage(), 1, 1, [1, 2]);
    file.append_page(&raw).unwrap();
    let first: TransactionId = coordinator.begin();
    let owned: UnloggedPage<2> = unlogged_page(file.log.lineage(), 2, 1, [3, 4]);
    file.append_transaction_page(&owned, first).unwrap();
    file.commit(first).unwrap();
    let second: TransactionId = coordinator.begin();
    file.commit(second).unwrap();
    file
}

fn filled_v3(id: u128) -> LogFile<2> {
    filled(LogFile::create_v3(id))
}

/// A permit that fits the log and keeps what stands from `first` on.
fn permit_for(
    file: &LogFile<2>,
    first: Option<u64>,
) -> DurableTransactionRestartWalReclamationPermit {
    DurableTransactionRestartWalReclamationPermit {
        persistent_log_id: file.log.persistent_id(),
        lineage: *file.log.lineage(),
        physical_format_version: file.log.physical_format_version(),
        source_generation: file.log.generation(),
        durable_frontier: file.log.durable_position(),
        allocated_epoch_high_water: file.log.allocated_epoch_high_water().unwrap_or(1),
        retained_first_logical_record: first.map(|value| file.log.lineage().position(value)),
        anchor_version: 1,
        anchor_value: 0xabcd,
    }
}

/// Carries out a reclamation on the bytes.
fn reclaim(
    file: &mut LogFile<2>,
    permit: &DurableTransactionRestartWalReclamationPermit,
) -> DurableTransactionRestartWalReclamationEffectObservation {
    let plan = file.log.reclaim_restart_wal_prefix(permit).unwrap();
    let mut candidate: Vec<u8> = Vec::new();
    let mut action: Option<ReclamationAction> = Some(ReclamationAction::RemoveCandidate);
    while let Some(current) = action {
        file.log.enter_reclamation_action(current).unwrap();
        match current {
            ReclamationAction::WriteHeader => candidate.extend_from_slice(plan.header()),
            ReclamationAction::WriteFrames => {
                for more in plan.frames() {
                    candidate.extend_from_slice(more);
                }
            }
            ReclamationAction::RenameCandidate => file.bytes = candidate.clone(),
            _ => {}
        }
        action = current.next();
    }
    file.log.finish_reclamation(plan)
}

#[test]
fn a_reclaimed_log_keeps_the_retained_records() {
    let mut file: LogFile<2> = filled_v3(601);
    let lineage: LogLineage = *file.log.lineage();
    let observation: DurableTransactionRestartWalReclamationEffectObservation = {
        let permit = permit_for(&file, Some(3));
        reclaim(&mut file, &permit)
    };
    assert_eq!(
        observation,
        DurableTransactionRestartWalReclamationEffectObservation {
            source_generation: 0,
            replacement_generation: 1,
            replacement_format_version: 4,
            retained_first_logical_record: Some(lineage.position(3)),
            durable_frontier: Some(lineage.position(4)),
            retained_logical_record_count: 2,
            retained_physical_unit_count: 3,
            allocated_epoch_high_water: 1,
        }
    );
    assert_eq!(file.log.physical_format_version(), 4);
    assert_eq!(file.log.generation(), 1);
    assert_eq!(file.log.records().len(), 2);
    assert_eq!(file.log.durable_records().len(), 2);
    assert_eq!(file.log.next_logical_position(), Some(5));
    assert_eq!(file.bytes.len(), 128 + FRAME_LENGTH * 3);

    let mut reopened: LogFile<2> = LogFile::open_v3(file.bytes);
    assert_eq!(reopened.log.records(), file.log.records());
    assert_eq!(reopened.log.durable_records().len(), 2);
    assert_eq!(reopened.log.generation(), 1);
    assert_eq!(reopened.log.next_logical_position(), Some(5));
    assert_eq!(reopened.log.allocated_epoch_high_water(), Some(1));

    let again: DurableTransactionRestartWalReclamationEffectObservation = {
        let permit = permit_for(&reopened, None);
        reclaim(&mut reopened, &permit)
    };
    assert_eq!(again.source_generation, 1);
    assert_eq!(again.replacement_generation, 2);
    assert_eq!(again.retained_logical_record_count, 0);
    assert_eq!(reopened.bytes.len(), 128);
    let empty: LogFile<2> = LogFile::open_v3(reopened.bytes);
    assert!(empty.log.records().is_empty());
    assert_eq!(empty.log.durable_position(), Some(lineage.position(4)));
    assert_eq!(empty.log.next_logical_position(), Some(5));
}

#[test]
fn a_reclaimed_database_log_keeps_its_identity() {
    let storage: DatabaseStorageIdentity = DatabaseStorageIdentity {
        database_id: DatabaseId::new(1).unwrap(),
        persistent_log_id: persistent_id(602),
        wal_file_id: DatabaseFileId::new(2).unwrap(),
        page_store_file_id: DatabaseFileId::new(3).unwrap(),
        completeness_file_id: DatabaseFileId::new(4).unwrap(),
    };
    let (log, bytes) =
        FileCommitLog::<2>::create_new_database_transaction_page_capable(storage).unwrap();
    let mut file: LogFile<2> = filled(LogFile { bytes, log });
    let permit = permit_for(&file, Some(2));
    let observation = reclaim(&mut file, &permit);
    assert_eq!(observation.replacement_format_version, 5);
    assert_eq!(observation.retained_physical_unit_count, 3 + 1 + 1 + 1);
    let reopened: LogFile<2> = LogFile::open_v3(file.bytes);
    assert_eq!(reopened.log.physical_format_version(), 5);
    assert_eq!(
        reopened.log.database_file_identity(),
        Some(storage.file_header_identity(DatabaseFileRole::Wal))
    );
    assert_eq!(reopened.log.records().len(), 3);
}

#[test]
fn a_reclamation_keeps_the_next_position() {
    for first in [Some(1_u64), Some(4), None] {
        let mut file: LogFile<2> = filled_v3(614);
        let permit = permit_for(&file, first);
        reclaim(&mut file, &permit);
        assert_eq!(file.log.next_logical_position(), Some(5));
        assert_eq!(file.log.durable_position(), Some(file.log.lineage().position(4)));
    }
}

#[test]
fn the_frames_of_a_reclamation_are_read_as_its_records() {
    let file: LogFile<2> = filled_v3(615);
    let plan = file.log.reclaim_restart_wal_prefix(&permit_for(&file, Some(2))).unwrap();
    let mut state: OpenState<2> = OpenState::new(
        *file.log.lineage(),
        Some(PageLayout::for_const::<2>().unwrap()),
        1,
        Some(2),
        1,
        None,
    );
    let mut offset: u64 = 0;
    for frame in plan.frames() {
        let decoded = parse_frame(frame, offset, LogFormat::V4).unwrap();
        assert_eq!(state.apply_frame(decoded, offset, true), Ok(()));
        offset += 56;
    }
    assert_eq!(&state.records[..], &file.log.records()[1..]);
    assert_eq!(state.durable_len, 3);
    assert!(state.pending_page_header_offset().is_none());
    assert_eq!(state.next_position, Some(5));

    let built: Vec<Vec<u8>> =
        build_reclamation_frame_plan(&state.records, LogFormat::V4, Vec::new());
    assert_eq!(&built, plan.frames());

    let nothing = file.log.reclaim_restart_wal_prefix(&permit_for(&file, None)).unwrap();
    assert!(nothing.frames().is_empty());
}

#[test]
fn a_permit_has_to_describe_the_log() {
    let file: LogFile<2> = filled_v3(603);
    let good = permit_for(&file, Some(3));
    let refusal = |permit: DurableTransactionRestartWalReclamationPermit| {
        file.log.reclaim_restart_wal_prefix(&permit).err()
    };
    assert!(refusal(good).is_none());
    let mut bad = good;
    bad.persistent_log_id = persistent_id(604);
    assert_eq!(
        refusal(bad),
        Some(FileTransactionRestartWalReclamationError::PermitMismatch)
    );
    bad = good;
    bad.source_generation = 1;
    assert_eq!(
        refusal(bad),
        Some(FileTransactionRestartWalReclamationError::PermitMismatch)
    );
    bad = good;
    bad.durable_frontier = Some(file.log.lineage().position(3));
    assert_eq!(
        refusal(bad),
        Some(FileTransactionRestartWalReclamationError::PermitMismatch)
    );
    bad = good;
    bad.physical_format_version = 4;
    assert_eq!(
        refusal(bad),
        Some(FileTransactionRestartWalReclamationError::PermitMismatch)
    );
    bad = good;
    bad.allocated_epoch_high_water = 2;
    assert_eq!(
        refusal(bad),
        Some(FileTransactionRestartWalReclamationError::PermitMismatch)
    );
    bad = good;
    bad.retained_first_logical_record = Some(file.log.lineage().position(9));
    assert_eq!(
        refusal(bad),
        Some(FileTransactionRestartWalReclamationError::RetainedBoundaryMissing { position: 9 })
    );
}

#[test]
fn a_log_can_be_unfit_for_reclamation() {
    let empty: LogFile<2> = LogFile::create_v3(605);
    assert_eq!(
        empty.log.reclaim_restart_wal_prefix(&permit_for(&empty, None)).err(),
        Some(FileTransactionRestartWalReclamationError::NoAllocatedEpoch)
    );
    let mut v2: LogFile<2> = LogFile::create_v2(606);
    v2.allocate_epoch().unwrap();
    assert_eq!(
        v2.log.reclaim_restart_wal_prefix(&permit_for(&v2, None)).err(),
        Some(FileTransactionRestartWalReclamationError::UnsupportedPhysicalFormat { version: 2 })
    );
    let mut volatile: LogFile<2> = filled_v3(607);
    let page: UnloggedPage<2> = unlogged_page(volatile.log.lineage(), 1, 1, [1, 2]);
    volatile.append_page(&page).unwrap();
    assert_eq!(
        volatile.log.reclaim_restart_wal_prefix(&permit_for(&volatile, Some(3))).err(),
        Some(FileTransactionRestartWalReclamationError::VolatileLogicalSuffix {
            durable_record_count: 4,
            total_record_count: 5,
        })
    );
    let mut poisoned: LogFile<2> = filled_v3(608);
    poisoned.poison();
    assert_eq!(
        poisoned.log.reclaim_restart_wal_prefix(&permit_for(&poisoned, Some(3))).err(),
        Some(FileTransactionRestartWalReclamationError::PoisonedWriter)
    );
    let last: LogFile<2> = LogFile::open_v3(build_header_v4(
        persistent_id(609),
        2,
        ReclaimedCoordinates {
            generation: u64::MAX,
            retained_first: None,
            logical_high_water: None,
            allocated_epoch_high_water: 1,
            anchor_version: 1,
            anchor_value: 0xabcd,
        },
    ));
    assert_eq!(
        last.log.reclaim_restart_wal_prefix(&permit_for(&last, None)).err(),
        Some(FileTransactionRestartWalReclamationError::GenerationExhausted)
    );
    let permit = permit_for(&last, None);
    let start: usize = last.log.admit_reclamation(&permit).unwrap();
    assert_eq!(
        last.log.plan_reclamation(&permit, start, true, false).err(),
        Some(FileTransactionRestartWalReclamationError::GenerationExhausted)
    );
    assert_eq!(
        last.log.plan_reclamation(&permit, start, false, false).err(),
        Some(FileTransactionRestartWalReclamationError::FrameCapacityExhausted {
            record_count: 0,
        })
    );
    let roomless: LogFile<2> = filled_v3(610);
    let permit = permit_for(&roomless, Some(3));
    let start: usize = roomless.log.admit_reclamation(&permit).unwrap();
    assert_eq!(start, 2);
    for (record_room, frame_room) in [(false, true), (true, false)] {
        assert_eq!(
            roomless.log.plan_reclamation(&permit, start, record_room, frame_room).err(),
            Some(FileTransactionRestartWalReclamationError::FrameCapacityExhausted {
                record_count: 2,
            })
        );
    }
    assert!(roomless.log.plan_reclamation(&permit, start, true, true).is_ok());
}

#[test]
fn each_fault_strikes_before_its_action_and_poisons_the_log() {
    let cases: [(FaultPoint, ReclamationAction); 8] = [
        (FaultPoint::BeforeReclamationCandidateCleanup, ReclamationAction::RemoveCandidate),
        (FaultPoint::BeforeReclamationWrite, ReclamationAction::WriteHeader),
        (FaultPoint::DuringReclamationCopy, ReclamationAction::WriteFrames),
        (FaultPoint::BeforeReclamationCandidateSync, ReclamationAction::SyncCandidate),
        (FaultPoint::AfterReclamationCandidateSync, ReclamationAction::RenameCandidate),
        (FaultPoint::BeforeReclamationRename, ReclamationAction::RenameCandidate),
        (FaultPoint::AfterReclamationRename, ReclamationAction::SyncDirectory),
        (FaultPoint::DuringReclamationDirectorySync, ReclamationAction::SyncDirectory),
    ];
    for (fault, struck) in cases {
        let mut file: LogFile<2> = filled_v3(611);
        file.log.arm_fault(fault).unwrap();
        let mut action: ReclamationAction = ReclamationAction::RemoveCandidate;
        while action != struck {
            assert_eq!(file.log.enter_reclamation_action(action), Ok(()));
            action = action.next().unwrap();
        }
        assert_eq!(
            file.log.enter_reclamation_action(action),
            Err(FileTransactionRestartWalReclamationError::InjectedFault(fault))
        );
        assert!(file.log.is_poisoned());
        assert_eq!(file.log.armed_fault(), None);
    }
}

#[test]
fn the_actions_come_to_an_end() {
    let mut actions: Vec<ReclamationAction> = Vec::new();
    let mut action: Option<ReclamationAction> = Some(ReclamationAction::RemoveCandidate);
    while let Some(current) = action {
        actions.push(current);
        action = current.next();
    }
    assert_eq!(
        actions,
        vec![
            ReclamationAction::RemoveCandidate,
            ReclamationAction::CreateCandidate,
            ReclamationAction::WriteHeader,
            ReclamationAction::WriteFrames,
            ReclamationAction::SyncCandidate,
            ReclamationAction::RenameCandidate,
            ReclamationAction::SyncDirectory,
            ReclamationAction::SeekEnd,
        ]
    );
}

#[test]
fn a_leftover_candidate_is_removed_unless_it_is_the_log_itself() {
    let one: FileIdentity = FileIdentity { device: 1, inode: 2 };
    let other: FileIdentity = FileIdentity { device: 1, inode: 3 };
    assert!(metadata_identifies_same_file(Some(one), Some(one)));
    assert!(!metadata_identifies_same_file(Some(one), Some(other)));
    assert!(!metadata_identifies_same_file(None, None));
    assert_eq!(
        cleanup_reclamation_candidate(CandidateObservation::Absent),
        CandidateCleanup::Nothing
    );
    assert_eq!(
        cleanup_reclamation_candidate(CandidateObservation::Dangling),
        CandidateCleanup::Remove
    );
    assert_eq!(
        cleanup_reclamation_candidate(CandidateObservation::Present {
            candidate: Some(other),
            selected: Some(one),
        }),
        CandidateCleanup::Remove
    );
    assert_eq!(
        cleanup_reclamation_candidate(CandidateObservation::Present {
            candidate: Some(one),
            selected: Some(one),
        }),
        CandidateCleanup::Refuse
    );

    let mut file: LogFile<2> = filled_v3(612);
    assert_eq!(
        file.log.candidate_aliases_selected(),
        FileTransactionRestartWalReclamationError::CandidateAliasesSelected
    );
    assert!(file.log.is_poisoned());
}

#[test]
fn only_a_commit_that_was_reclaimed_is_no_longer_found() {
    let mut file: LogFile<2> = filled_v3(613);
    let id: TransactionId = TransactionId::new(1, 1).unwrap();
    assert!(matches!(file.lookup(id), Ok(DurableCommitLookup::Found { .. })));
    let permit = permit_for(&file, Some(4));
    reclaim(&mut file, &permit);
    assert_eq!(file.lookup(id), Ok(DurableCommitLookup::Absent));
    let kept: TransactionId = TransactionId::new(1, 2).unwrap();
    let position: LogSequenceNumber = file.log.lineage().position(4);
    assert_eq!(file.lookup(kept), Ok(DurableCommitLookup::Found { position }));
    let reopened: LogFile<2> = LogFile::open_v3(file.bytes);
    assert_eq!(reopened.lookup(kept), Ok(DurableCommitLookup::Found { position }));
}
