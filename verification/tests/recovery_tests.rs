//! What recovery and restart can see of a log and its page store.
use ntsql_storage_file::commit_log::reclamation::DurableTransactionRestartWalReclamationSourceObservation;
use ntsql_storage_file::commit_log::recovery::{
    DurableCommitLookup, DurablePageEvidence, DurableRestartEvidence,
    DurableTransactionRestartRetentionMetadataObservation,
};
use ntsql_storage_file::commit_log::{FileCommitLog, LockedFileCommitLogOpen};
use ntsql_storage_file::format::{FRAME_LENGTH, HEADER_LENGTH};
use ntsql_storage_file::identity::{
    LogLineage, LogSequenceNumber, PageNumber, PageVersion, PersistentLogId, TransactionId,
};
use ntsql_storage_file::log_effect::FileEffect;
use ntsql_storage_file::log_error::{
    FaultPoint, FileCommitLogError, FileCommittedPageRecoveryInventoryError,
    FileCommittedPageRecoverySourceError, FileFormatError, FileFormatErrorReason, FileIoStage,
    FileOpenError, FilePageRecoveryProjection, FileTransactionEpochError,
    FileTransactionRecoveryError, FileTransactionRestartAnalysisSourceError,
    FileTransactionRestartRetentionMetadataSourceError, FileTransactionRestartWalReclamationError,
};
use ntsql_storage_file::log_header::{build_header_v4, ReclaimedCoordinates};
use ntsql_storage_file::observation::{
    DurablePageWalObservation, DurableTransactionCommitObservation,
    DurableTransactionCommitObservationFieldsError, DurableTransactionPageObservation,
    DurableTransactionPageObservationBytesError, DurableTransactionRestartObservation,
    PageRecoveryObservationBytesError, StoredPageSnapshotObservation,
};
use ntsql_storage_file::page::{DirtyPage, PageAddress, PageWritePermit, UnloggedPage};
use ntsql_storage_file::page_store::{FilePageStore, LockedFilePageStoreOpen};
use ntsql_storage_file::page_store_effect::StoreEffect;
use ntsql_storage_file::page_store_error::{
    FileCommittedPageRecoveryObservationError, FilePageStoreError, FilePageStoreInventoryError,
    PageStoreFaultPoint, PageStoreIoStage,
};

/// A log together with the bytes of its file.
struct LogFile<const N: usize> {
    bytes: Vec<u8>,
    log: FileCommitLog<N>,
}

/// At which step a commit failed.
#[derive(Debug, PartialEq)]
enum CommitFailure {
    Append(FileCommitLogError),
    Flush(LogSequenceNumber, FileCommitLogError),
}

/// Numbers the transactions of one epoch.
struct Coordinator {
    epoch: u64,
    next_sequence: u64,
}

#[allow(dead_code)]
impl Coordinator {
    fn open<const N: usize>(file: &mut LogFile<N>) -> Coordinator {
        let epoch: u64 = file.allocate_epoch().expect("an epoch is left");
        Coordinator { epoch, next_sequence: 1 }
    }

    fn begin(&mut self) -> TransactionId {
        let sequence: u64 = self.next_sequence;
        self.next_sequence += 1;
        TransactionId::new(self.epoch, sequence).expect("nonzero numbers")
    }
}

fn carry_out(bytes: &mut Vec<u8>, effects: &Vec<FileEffect>) {
    for effect in effects {
        if let FileEffect::Write { bytes: more, .. } = effect {
            bytes.extend_from_slice(more);
        }
    }
}

/// Cuts a file to the length that its repair asks for.
fn repair<const N: usize>(
    mut bytes: Vec<u8>,
    opened: LockedFileCommitLogOpen<N>,
) -> LogFile<N> {
    if let Some(length) = opened.repaired_len() {
        bytes.truncate(usize::try_from(length).unwrap());
    }
    LogFile { bytes, log: opened.finish() }
}

#[allow(dead_code)]
impl LogFile<0> {
    fn create_v1(id: u128) -> LogFile<0> {
        let (log, bytes) = FileCommitLog::create_new(persistent_id(id));
        LogFile { bytes, log }
    }

    fn open_v1(bytes: Vec<u8>) -> LogFile<0> {
        let opened: LockedFileCommitLogOpen<0> = FileCommitLog::open(&bytes).unwrap();
        repair(bytes, opened)
    }
}

#[allow(dead_code)]
impl<const N: usize> LogFile<N> {
    fn create_v2(id: u128) -> LogFile<N> {
        let (log, bytes) = FileCommitLog::<N>::create_new_page_capable(persistent_id(id)).unwrap();
        LogFile { bytes, log }
    }

    fn create_v3(id: u128) -> LogFile<N> {
        let (log, bytes) =
            FileCommitLog::<N>::create_new_transaction_page_capable(persistent_id(id)).unwrap();
        LogFile { bytes, log }
    }

    fn open_v2(bytes: Vec<u8>) -> LogFile<N> {
        let opened: LockedFileCommitLogOpen<N> =
            FileCommitLog::<N>::open_page_capable(&bytes).unwrap();
        repair(bytes, opened)
    }

    fn open_v3(bytes: Vec<u8>) -> LogFile<N> {
        let opened: LockedFileCommitLogOpen<N> =
            FileCommitLog::<N>::open_transaction_page_capable(&bytes).unwrap();
        repair(bytes, opened)
    }

    fn allocate_epoch(&mut self) -> Result<u64, FileTransactionEpochError> {
        let plan = self.log.allocate_transaction_epoch()?;
        carry_out(&mut self.bytes, plan.effects());
        Ok(self.log.finish_transaction_epoch(plan).0)
    }

    fn append_commit(&mut self, id: TransactionId) -> Result<LogSequenceNumber, FileCommitLogError> {
        let plan = self.log.append_commit(id)?;
        carry_out(&mut self.bytes, plan.effects());
        self.log.finish_append(plan)
    }

    fn append_page<const M: usize>(
        &mut self,
        page: &UnloggedPage<M>,
    ) -> Result<LogSequenceNumber, FileCommitLogError> {
        let plan = self.log.append_page(page)?;
        carry_out(&mut self.bytes, plan.effects());
        self.log.finish_append(plan)
    }

    fn append_transaction_page<const M: usize>(
        &mut self,
        page: &UnloggedPage<M>,
        owner: TransactionId,
    ) -> Result<LogSequenceNumber, FileCommitLogError> {
        let plan = self.log.append_transaction_page(page, owner)?;
        carry_out(&mut self.bytes, plan.effects());
        self.log.finish_append(plan)
    }

    fn flush_through(&mut self, position: &LogSequenceNumber) -> Result<(), FileCommitLogError> {
        match self.log.flush_through(position)? {
            Some(plan) => {
                carry_out(&mut self.bytes, plan.effects());
                self.log.finish_flush(plan)
            }
            None => Ok(()),
        }
    }

    fn commit(&mut self, id: TransactionId) -> Result<LogSequenceNumber, CommitFailure> {
        let position: LogSequenceNumber = self.append_commit(id).map_err(CommitFailure::Append)?;
        self.flush_through(&position)
            .map_err(|error| CommitFailure::Flush(position, error))?;
        Ok(position)
    }

    fn lookup(
        &self,
        id: TransactionId,
    ) -> Result<DurableCommitLookup, FileTransactionRecoveryError> {
        self.log.lookup_durable_commit(id).map(|found| found.1)
    }

    fn poison(&mut self) {
        let _ = self
            .log
            .effect_failed(FileIoStage::SyncEpochFrame, std::io::Error::other("disk is gone"));
    }
}

fn persistent_id(value: u128) -> PersistentLogId {
    PersistentLogId::new(value).expect("nonzero identity")
}

#[allow(dead_code)]
fn page_number(value: u64) -> PageNumber {
    PageNumber::new(value).expect("nonzero page number")
}

#[allow(dead_code)]
fn unlogged_page<const M: usize>(
    lineage: &LogLineage,
    number: u64,
    version: u64,
    bytes: [u8; M],
) -> UnloggedPage<M> {
    UnloggedPage::new(
        PageAddress::new(lineage, page_number(number)),
        PageVersion::new(version),
        bytes,
    )
}

/// Overwrites the eight bytes at `offset` with a big-endian number.
#[allow(dead_code)]
fn write_u64(bytes: &mut [u8], offset: usize, value: u64) {
    bytes[offset..offset + 8].copy_from_slice(&value.to_be_bytes());
}

#[allow(dead_code)]
fn write_u16(bytes: &mut [u8], offset: usize, value: u16) {
    bytes[offset..offset + 2].copy_from_slice(&value.to_be_bytes());
}

/// The file position of frame `index` behind a header of the first three versions.
#[allow(dead_code)]
fn frame_offset(index: usize) -> usize {
    HEADER_LENGTH + FRAME_LENGTH * index
}

#[allow(dead_code)]
fn frame(bytes: &[u8], index: usize) -> &[u8] {
    &bytes[frame_offset(index)..frame_offset(index + 1)]
}

#[allow(dead_code)]
fn format_error(offset: usize, reason: FileFormatErrorReason) -> FileOpenError {
    FileOpenError::Format(FileFormatError::new(u64::try_from(offset).unwrap(), reason))
}

/// A page store together with the bytes of its file.
struct StoreFile<const N: usize> {
    bytes: Vec<u8>,
    store: FilePageStore<N>,
}

fn carry_out_store(bytes: &mut Vec<u8>, effects: &Vec<StoreEffect>) {
    for effect in effects {
        if let StoreEffect::Write { bytes: more, .. } = effect {
            bytes.extend_from_slice(more);
        }
    }
}

#[allow(dead_code)]
impl<const N: usize> StoreFile<N> {
    fn create(id: u128) -> StoreFile<N> {
        let (store, bytes) = FilePageStore::<N>::create_new(persistent_id(id)).unwrap();
        StoreFile { bytes, store }
    }

    fn open(mut bytes: Vec<u8>) -> StoreFile<N> {
        let opened: LockedFilePageStoreOpen<N> = FilePageStore::<N>::open(&bytes).unwrap();
        if let Some(length) = opened.repaired_len() {
            bytes.truncate(usize::try_from(length).unwrap());
        }
        StoreFile { bytes, store: opened.finish() }
    }

    fn write(
        &mut self,
        page: &DirtyPage<N>,
        permit: PageWritePermit,
    ) -> Result<(), FilePageStoreError> {
        let plan = self.store.write_page(page, permit)?;
        carry_out_store(&mut self.bytes, plan.effects());
        self.store.finish_write(plan)
    }

    /// Makes the page's record durable and then stores the page.
    fn flush_page(
        &mut self,
        log: &mut LogFile<N>,
        page: &DirtyPage<N>,
    ) -> Result<(), FilePageStoreError> {
        log.flush_through(&page.required_position).unwrap();
        self.write(page, PageWritePermit { position: page.required_position })
    }

    fn poison(&mut self) {
        let _ = self
            .store
            .effect_failed(PageStoreIoStage::SyncPageGroup, std::io::Error::other("disk is gone"));
    }
}

/// Appends a raw page to the log.
#[allow(dead_code)]
fn stage<const N: usize>(log: &mut LogFile<N>, page: UnloggedPage<N>) -> DirtyPage<N> {
    let position: LogSequenceNumber = log.append_page(&page).unwrap();
    DirtyPage::logged(page, position)
}

/// Appends a transaction's page to the log.
#[allow(dead_code)]
fn stage_owned<const N: usize>(
    log: &mut LogFile<N>,
    page: UnloggedPage<N>,
    owner: TransactionId,
) -> DirtyPage<N> {
    let position: LogSequenceNumber = log.append_transaction_page(&page, owner).unwrap();
    DirtyPage::logged(page, position)
}

/// A version 4 image without records.
fn v4_image(id: u128, epoch_high_water: u64) -> Vec<u8> {
    build_header_v4(
        persistent_id(id),
        2,
        ReclaimedCoordinates {
            generation: 5,
            retained_first: None,
            logical_high_water: Some(10),
            allocated_epoch_high_water: epoch_high_water,
            anchor_version: 2,
            anchor_value: 77,
        },
    )
}

#[test]
fn committed_page_recovery_rejects_poisoned_source_observation_and_write() {
    let mut file: LogFile<2> = LogFile::create_v3(501);
    let number: PageNumber = page_number(41);
    let mut coordinator: Coordinator = Coordinator::open(&mut file);
    let owner: TransactionId = coordinator.begin();
    let page: UnloggedPage<2> = unlogged_page(file.log.lineage(), 41, 1, [1, 2]);
    file.append_transaction_page(&page, owner).unwrap();
    file.commit(owner).unwrap();
    file.poison();
    assert_eq!(
        file.log.durable_transaction_page_numbers(),
        Err(FileCommittedPageRecoveryInventoryError::PoisonedWriter)
    );
    assert_eq!(
        file.log.with_durable_page_evidence(number).err(),
        Some(FileCommittedPageRecoverySourceError::PoisonedWriter)
    );

    let mut pages: StoreFile<2> = StoreFile::create(501);
    pages.store.arm_fault(PageStoreFaultPoint::BeforeWrite).unwrap();
    pages.poison();
    assert_eq!(
        pages.store.observe_page(number),
        Err(FileCommittedPageRecoveryObservationError::PoisonedWriter)
    );
    assert_eq!(pages.store.armed_fault(), Some(PageStoreFaultPoint::BeforeWrite));
    assert!(pages.store.pages().is_empty());
    assert!(pages.store.is_poisoned());
}

#[test]
fn committed_page_recovery_errors_retain_projection_causes() {
    let lineage: LogLineage = LogLineage::Process(3);
    let number: PageNumber = page_number(43);
    let physical: PageRecoveryObservationBytesError = DurablePageWalObservation::<0>::from_bytes(
        number,
        PageVersion::new(1),
        [],
        lineage.position(1),
    )
    .unwrap_err();
    assert_eq!(physical, PageRecoveryObservationBytesError::ImageWidthZero);
    assert_eq!(
        FileCommittedPageRecoverySourceError::PhysicalPageProjection(physical),
        FileCommittedPageRecoverySourceError::PhysicalPageProjection(
            PageRecoveryObservationBytesError::ImageWidthZero
        )
    );

    let owned: DurableTransactionPageObservationBytesError =
        DurableTransactionPageObservation::<0>::from_bytes(
            1,
            1,
            number,
            PageVersion::new(2),
            [],
            lineage.position(2),
        )
        .unwrap_err();
    assert_eq!(owned, DurableTransactionPageObservationBytesError::ImageWidthZero);

    let commit: DurableTransactionCommitObservationFieldsError =
        DurableTransactionCommitObservation::from_fields(0, 1, lineage.position(3)).unwrap_err();
    assert_eq!(commit, DurableTransactionCommitObservationFieldsError::EpochZero);
    assert_eq!(
        DurableTransactionCommitObservation::from_fields(1, 1, lineage.position(0)),
        Err(DurableTransactionCommitObservationFieldsError::PositionZero)
    );
    assert_eq!(
        StoredPageSnapshotObservation::<0>::from_bytes(
            number,
            PageVersion::new(1),
            [],
            lineage.position(1)
        ),
        Err(PageRecoveryObservationBytesError::ImageWidthZero)
    );
}

#[test]
fn restart_analysis_source_errors_are_typed_and_callback_free() {
    let mut file: LogFile<1> = LogFile::create_v3(503);
    assert_eq!(
        file.log.project_durable_restart_observations(false),
        Err(FileTransactionRestartAnalysisSourceError::ObservationCapacityExhausted {
            record_count: 0,
        })
    );
    file.poison();
    assert_eq!(
        file.log.with_durable_transaction_restart_observations().err(),
        Some(FileTransactionRestartAnalysisSourceError::PoisonedWriter)
    );
    assert_eq!(
        file.log.with_durable_transaction_restart_retained_observations(),
        Err(FileTransactionRestartAnalysisSourceError::PoisonedWriter)
    );

    let pruned: LogFile<2> = LogFile::open_v3(v4_image(504, 3));
    assert_eq!(
        pruned.log.with_durable_transaction_restart_observations().err(),
        Some(FileTransactionRestartAnalysisSourceError::PrunedGenerationRequiresCheckpoint {
            generation: 5,
        })
    );
    assert_eq!(
        pruned.log.with_durable_transaction_restart_retained_observations(),
        Ok(vec![])
    );
}

#[test]
fn v3_durable_prefix_projection_classifies_committed_and_uncommitted_pages_after_reopen() {
    let mut file: LogFile<2> = LogFile::create_v3(419);
    let mut coordinator: Coordinator = Coordinator::open(&mut file);
    let committed: TransactionId = coordinator.begin();
    let page: UnloggedPage<2> = unlogged_page(file.log.lineage(), 20, 1, [1, 2]);
    assert_eq!(file.append_transaction_page(&page, committed).unwrap().get(), 1);
    assert_eq!(file.commit(committed).unwrap().get(), 2);

    let uncommitted: TransactionId = coordinator.begin();
    let page: UnloggedPage<2> = unlogged_page(file.log.lineage(), 21, 2, [3, 4]);
    let third: LogSequenceNumber = file.append_transaction_page(&page, uncommitted).unwrap();
    assert_eq!(third.get(), 3);
    file.flush_through(&third).unwrap();

    let page: UnloggedPage<2> = unlogged_page(file.log.lineage(), 22, 3, [5, 6]);
    let fourth: LogSequenceNumber = file.append_page(&page).unwrap();
    assert_eq!(fourth.get(), 4);
    file.flush_through(&fourth).unwrap();

    file.log.arm_fault(FaultPoint::BeforeFlush).unwrap();
    assert!(matches!(file.commit(uncommitted), Err(CommitFailure::Flush(_, _))));
    assert_eq!(file.log.records().len(), 5);
    assert_eq!(file.log.durable_records().len(), 4);

    let reopened: LogFile<2> = LogFile::open_v3(file.bytes);
    let records = reopened.log.records();
    assert_eq!(records.len(), 5);
    assert_eq!(reopened.log.durable_records().len(), 4);

    let first = records[0].transaction_page_recovery_observation().unwrap().unwrap();
    assert!(first.owner_matches(committed));
    assert_eq!(records[0].transaction_commit_recovery_observation(), Ok(None));
    assert!(records[0].page_recovery_observation().unwrap().is_some());

    assert_eq!(records[1].transaction_page_recovery_observation(), Ok(None));
    assert!(records[1].transaction_commit_recovery_observation().unwrap().is_some());

    let second = records[2].transaction_page_recovery_observation().unwrap().unwrap();
    assert!(second.owner_matches(uncommitted));

    assert_eq!(records[3].transaction_page_recovery_observation(), Ok(None));
    assert_eq!(records[3].transaction_commit_recovery_observation(), Ok(None));
    assert!(records[3].page_recovery_observation().unwrap().is_some());

    let durable: Vec<DurableTransactionCommitObservation> = reopened
        .log
        .durable_records()
        .iter()
        .filter_map(|record| record.transaction_commit_recovery_observation().unwrap())
        .collect();
    assert_eq!(durable.len(), 1);
    assert!(durable[0].transaction_matches(committed));
    assert_eq!(durable[0].position(), &reopened.log.lineage().position(2));
    assert_eq!(first.position(), &reopened.log.lineage().position(1));
    assert_eq!(second.position(), &reopened.log.lineage().position(3));

    let all: Vec<DurableTransactionCommitObservation> = records
        .iter()
        .filter_map(|record| record.transaction_commit_recovery_observation().unwrap())
        .collect();
    assert_eq!(all.len(), 2);
    assert!(all[1].transaction_matches(uncommitted));
    assert_eq!(all[1].position(), &reopened.log.lineage().position(5));
}

#[test]
fn v3_committed_reconciliation_uses_one_durable_prefix_after_reopen() {
    let mut file: LogFile<2> = LogFile::create_v3(431);
    let mut behind: StoreFile<2> = StoreFile::create(431);
    let mut exact: StoreFile<2> = StoreFile::create(431);
    let missing: StoreFile<2> = StoreFile::create(431);
    let mut raw: StoreFile<2> = StoreFile::create(431);
    let number: PageNumber = page_number(80);
    let mut coordinator: Coordinator = Coordinator::open(&mut file);

    let stored: TransactionId = coordinator.begin();
    let page: UnloggedPage<2> = unlogged_page(file.log.lineage(), 80, 10, [1, 2]);
    let dirty: DirtyPage<2> = stage_owned(&mut file, page, stored);
    assert_eq!(file.commit(stored).unwrap().get(), 2);
    behind.flush_page(&mut file, &dirty).unwrap();

    let latest: TransactionId = coordinator.begin();
    let page: UnloggedPage<2> = unlogged_page(file.log.lineage(), 80, 1, [3, 4]);
    let dirty: DirtyPage<2> = stage_owned(&mut file, page, latest);
    assert_eq!(file.commit(latest).unwrap().get(), 4);
    exact.flush_page(&mut file, &dirty).unwrap();

    let uncommitted: TransactionId = coordinator.begin();
    let page: UnloggedPage<2> = unlogged_page(file.log.lineage(), 80, 20, [5, 6]);
    let dirty: DirtyPage<2> = stage_owned(&mut file, page, uncommitted);
    assert_eq!(dirty.required_position.get(), 5);
    file.flush_through(&dirty.required_position).unwrap();

    let page: UnloggedPage<2> = unlogged_page(file.log.lineage(), 80, 30, [7, 8]);
    let dirty: DirtyPage<2> = stage(&mut file, page);
    assert_eq!(dirty.required_position.get(), 6);
    raw.flush_page(&mut file, &dirty).unwrap();

    file.log.arm_fault(FaultPoint::BeforeFlush).unwrap();
    assert!(matches!(file.commit(uncommitted), Err(CommitFailure::Flush(_, _))));
    assert_eq!(file.log.records().len(), 7);
    assert_eq!(file.log.durable_records().len(), 6);

    let mut reopened: LogFile<2> = LogFile::open_v3(file.bytes);
    assert_eq!(reopened.log.records().len(), 7);
    assert_eq!(reopened.log.durable_records().len(), 6);
    let evidence: DurablePageEvidence<2> =
        reopened.log.with_durable_page_evidence(number).unwrap();
    let physical: Vec<u64> =
        evidence.physical_pages.iter().map(|seen| seen.position().get()).collect();
    assert_eq!(physical, [1, 3, 5, 6]);
    let owned: Vec<u64> =
        evidence.transaction_pages.iter().map(|seen| seen.position().get()).collect();
    assert_eq!(owned, [1, 3, 5]);
    let commits: Vec<u64> = evidence.commits.iter().map(|seen| seen.position().get()).collect();
    assert_eq!(commits, [2, 4]);
    let lineage: LogLineage = *reopened.log.lineage();
    assert!(evidence.physical_pages.iter().all(|seen| *seen.position().lineage() == lineage));
    assert!(evidence.transaction_pages.iter().all(|seen| *seen.position().lineage() == lineage));
    assert!(evidence.commits.iter().all(|seen| *seen.position().lineage() == lineage));

    let snapshot = |file: StoreFile<2>| {
        StoreFile::<2>::open(file.bytes).store.observe_page(page_number(80)).unwrap()
    };
    assert_eq!(snapshot(behind).unwrap().required_position, lineage.position(1));
    assert_eq!(snapshot(exact).unwrap().required_position, lineage.position(3));
    assert_eq!(snapshot(missing), None);
    assert_eq!(snapshot(raw).unwrap().required_position, lineage.position(6));

    let page: UnloggedPage<2> = unlogged_page(&lineage, 81, 1, [9, 10]);
    assert_eq!(reopened.append_page(&page).unwrap().get(), 8);
}

#[test]
fn retention_ports_report_physical_high_water_sort_inventory_and_reject_poison() {
    let mut file: LogFile<2> = LogFile::create_v3(409);
    assert_eq!(
        file.log.observe_restart_retention_metadata(),
        Err(FileTransactionRestartRetentionMetadataSourceError::NoAllocatedEpoch)
    );
    assert_eq!(Coordinator::open(&mut file).epoch, 1);
    assert_eq!(
        file.log.observe_restart_retention_metadata(),
        Ok(DurableTransactionRestartRetentionMetadataObservation {
            lineage: *file.log.lineage(),
            allocated_epoch_high_water: 1,
            oldest_required_log_position: None,
        })
    );
    let mut late: LogFile<2> = LogFile::open_v3(v4_image(409, u64::MAX - 1));
    assert_eq!(late.allocate_epoch(), Ok(u64::MAX));
    assert_eq!(
        late.log.observe_restart_retention_metadata().unwrap().allocated_epoch_high_water,
        u64::MAX
    );

    let mut pages: StoreFile<2> = StoreFile::create(409);
    let lineage: LogLineage = *pages.store.lineage();
    for value in [2_u64, 1_u64] {
        let dirty: DirtyPage<2> = DirtyPage::logged(
            unlogged_page(&lineage, value, value, [value as u8, value as u8]),
            lineage.position(value),
        );
        pages.write(&dirty, PageWritePermit { position: dirty.required_position }).unwrap();
    }
    let inventory: Vec<StoredPageSnapshotObservation<2>> =
        pages.store.durable_page_store_inventory().unwrap();
    let numbers: Vec<PageNumber> = inventory.iter().map(|page| page.page_number()).collect();
    assert_eq!(numbers, [page_number(1), page_number(2)]);
    assert_eq!(pages.store.pages()[0].page_number(), page_number(2));
    assert_eq!(pages.store.pages()[1].page_number(), page_number(1));

    pages.poison();
    assert_eq!(
        pages.store.durable_page_store_inventory(),
        Err(FilePageStoreInventoryError::PoisonedWriter)
    );
    file.poison();
    assert_eq!(
        file.log.observe_restart_retention_metadata(),
        Err(FileTransactionRestartRetentionMetadataSourceError::PoisonedWriter)
    );
}

#[test]
fn durable_pages_are_listed_once_and_in_order() {
    let mut file: LogFile<2> = LogFile::create_v3(511);
    let mut coordinator: Coordinator = Coordinator::open(&mut file);
    let owner: TransactionId = coordinator.begin();
    for number in [9_u64, 3, 9, 5] {
        let page: UnloggedPage<2> = unlogged_page(file.log.lineage(), number, 1, [1, 2]);
        file.append_transaction_page(&page, owner).unwrap();
    }
    assert_eq!(file.log.durable_transaction_page_numbers(), Ok(vec![]));
    file.commit(owner).unwrap();
    let page: UnloggedPage<2> = unlogged_page(file.log.lineage(), 1, 1, [1, 2]);
    file.append_transaction_page(&page, owner).unwrap();
    assert_eq!(
        file.log.durable_transaction_page_numbers(),
        Ok(vec![page_number(3), page_number(5), page_number(9)])
    );
    assert_eq!(
        file.log.list_durable_transaction_pages(false),
        Err(FileCommittedPageRecoveryInventoryError::PageCapacityExhausted)
    );
    let v2: LogFile<2> = LogFile::create_v2(511);
    assert_eq!(
        v2.log.durable_transaction_page_numbers(),
        Err(FileCommittedPageRecoveryInventoryError::TransactionPageSupportUnavailable {
            version: 2,
        })
    );
    assert_eq!(
        v2.log.with_durable_page_evidence(page_number(1)).err(),
        Some(FileCommittedPageRecoverySourceError::TransactionPageSupportUnavailable {
            version: 2,
        })
    );
    assert_eq!(
        file.log
            .gather_durable_page_evidence(page_number(1), Some(FilePageRecoveryProjection::Commits))
            .err(),
        Some(FileCommittedPageRecoverySourceError::EvidenceCapacityExhausted {
            projection: FilePageRecoveryProjection::Commits,
        })
    );
}

#[test]
fn restart_sees_every_durable_record_and_the_frontier() {
    let mut file: LogFile<2> = LogFile::create_v3(512);
    let mut coordinator: Coordinator = Coordinator::open(&mut file);
    let owner: TransactionId = coordinator.begin();
    let raw: UnloggedPage<2> = unlogged_page(file.log.lineage(), 1, 1, [1, 2]);
    file.append_page(&raw).unwrap();
    let owned: UnloggedPage<2> = unlogged_page(file.log.lineage(), 2, 1, [3, 4]);
    file.append_transaction_page(&owned, owner).unwrap();
    file.commit(owner).unwrap();
    let volatile: UnloggedPage<2> = unlogged_page(file.log.lineage(), 3, 1, [5, 6]);
    file.append_page(&volatile).unwrap();

    let evidence: DurableRestartEvidence<2> =
        file.log.with_durable_transaction_restart_observations().unwrap();
    assert_eq!(evidence.durable_frontier, Some(file.log.lineage().position(3)));
    assert_eq!(
        evidence.observations,
        vec![
            DurableTransactionRestartObservation::Page(
                DurablePageWalObservation::from_bytes(
                    page_number(1),
                    PageVersion::new(1),
                    [1, 2],
                    file.log.lineage().position(1)
                )
                .unwrap()
            ),
            DurableTransactionRestartObservation::TransactionPage(
                DurableTransactionPageObservation::from_bytes(
                    owner.epoch(),
                    owner.sequence(),
                    page_number(2),
                    PageVersion::new(1),
                    [3, 4],
                    file.log.lineage().position(2)
                )
                .unwrap()
            ),
            DurableTransactionRestartObservation::Commit(
                DurableTransactionCommitObservation::from_fields(
                    owner.epoch(),
                    owner.sequence(),
                    file.log.lineage().position(3)
                )
                .unwrap()
            ),
        ]
    );
}

#[test]
fn a_generation_can_be_observed() {
    let fresh: LogFile<2> = LogFile::create_v3(513);
    assert_eq!(fresh.log.observe_restart_source_generation(), Ok(0));
    assert_eq!(
        fresh.log.observe_restart_pruned_generation(),
        Err(FileTransactionRestartAnalysisSourceError::NoAllocatedEpoch)
    );
    assert_eq!(
        fresh.log.observe_restart_wal_reclamation_source(),
        Err(FileTransactionRestartWalReclamationError::NoAllocatedEpoch)
    );
    let mut pruned: LogFile<2> = LogFile::open_v3(v4_image(514, 3));
    let expected: DurableTransactionRestartWalReclamationSourceObservation =
        DurableTransactionRestartWalReclamationSourceObservation {
            lineage: *pruned.log.lineage(),
            physical_format_version: 4,
            generation: 5,
            first_durable_record: None,
            durable_frontier: Some(pruned.log.lineage().position(10)),
            allocated_epoch_high_water: 3,
            selected_checkpoint_anchor: Some((2, 77)),
        };
    assert_eq!(pruned.log.observe_restart_source_generation(), Ok(5));
    assert_eq!(pruned.log.observe_restart_pruned_generation(), Ok(expected));
    assert_eq!(pruned.log.observe_restart_wal_reclamation_source(), Ok(expected));
    pruned.poison();
    assert_eq!(
        pruned.log.observe_restart_source_generation(),
        Err(FileTransactionRestartAnalysisSourceError::PoisonedWriter)
    );
    assert_eq!(
        pruned.log.observe_restart_wal_reclamation_source(),
        Err(FileTransactionRestartWalReclamationError::PoisonedWriter)
    );
}

#[test]
fn an_empty_log_and_an_empty_store_are_always_listed() {
    let mut file: LogFile<2> = LogFile::create_v3(490);
    let mut coordinator: Coordinator = Coordinator::open(&mut file);
    file.append_commit(coordinator.begin()).unwrap();
    let number: PageNumber = page_number(1);
    assert_eq!(file.log.durable_transaction_page_numbers(), Ok(vec![]));
    let evidence: DurablePageEvidence<2> = file.log.with_durable_page_evidence(number).unwrap();
    assert!(evidence.physical_pages.is_empty());
    assert!(evidence.transaction_pages.is_empty());
    assert!(evidence.commits.is_empty());
    let restart: DurableRestartEvidence<2> =
        file.log.with_durable_transaction_restart_observations().unwrap();
    assert_eq!(restart.durable_frontier, None);
    assert!(restart.observations.is_empty());
    assert_eq!(file.log.with_durable_transaction_restart_retained_observations(), Ok(vec![]));
    let store: StoreFile<2> = StoreFile::create(490);
    assert_eq!(store.store.durable_page_store_inventory(), Ok(vec![]));
}
