//! The page store over an in-memory file.
use ntsql_storage_file::bytes::{checksum_v1, read_u128, read_u16, read_u32, read_u64};
use ntsql_storage_file::commit_log::recovery::DurableCommitLookup;
use ntsql_storage_file::commit_log::{FileCommitLog, LockedFileCommitLogOpen};
use ntsql_storage_file::database_identity::{
    DatabaseFileHeaderIdentity, DatabaseFileId, DatabaseFileIdentity, DatabaseFileRole, DatabaseId,
    DatabaseStorageIdentity,
};
use ntsql_storage_file::format::{
    LogFormat, PageLayout, FRAME_CHECKSUM_OFFSET, FRAME_LENGTH, HEADER_LENGTH,
};
use ntsql_storage_file::identity::{
    LogLineage, LogSequenceNumber, PageNumber, PageVersion, PersistentLogId, TransactionId,
};
use ntsql_storage_file::log_effect::FileEffect;
use ntsql_storage_file::log_error::{
    FileCommitLogError, FileFormatError, FileFormatErrorReason, FileIoStage, FileOpenError,
    FilePageWidthError, FileTransactionEpochError, FileTransactionRecoveryError,
};
use ntsql_storage_file::log_frame::{build_frame, parse_frame, FrameKind};
use ntsql_storage_file::log_header::announced_header_length;
use ntsql_storage_file::page::{DirtyPage, PageAddress, PageWritePermit, UnloggedPage};
use ntsql_storage_file::page_store::{
    open_transaction_page_storage, CommittedPageRecoveryTarget,
    CommittedTransactionPageRecoveryWritePermit, FilePageStore, LockedFilePageStoreOpen,
    RestartCheckpointPageRepairTarget, TransactionRestartCheckpointPageRepairWritePermit,
};
use ntsql_storage_file::page_store_effect::StoreEffect;
use ntsql_storage_file::page_store_error::{
    FileCommittedPageRecoveryObservationError, FileCommittedPageRecoveryStoreError,
    FilePageStoreError, FilePageStoreInventoryError, FileRestartCheckpointPageRepairStoreError,
    FileTransactionPageStorageOpenError, PageSourceComparison, PageSourceContradiction,
    PageStoreCreateError, PageStoreFaultPoint, PageStoreFormatError, PageStoreFormatErrorReason,
    PageStoreIoStage, PageStoreOpenError,
};
use ntsql_storage_file::page_store_frame::{
    build_page_store_frame, build_page_store_frame_with_payload2_bytes, parse_page_store_frame,
    DecodedPageStoreFrame, PageStoreFrameKind,
};
use ntsql_storage_file::page_store_header::{
    announced_store_header_length, build_page_store_header_v2, parse_page_store_header_v2, PageStoreFormat,
    PageStoreHeaderV2Metadata,
};
use ntsql_storage_file::page_store_open_state::PageStoreOpenState;

/// A log together with the bytes of its file.
struct LogFile<const N: usize> {
    bytes: Vec<u8>,
    log: FileCommitLog<N>,
}

/// At which step a commit failed.
#[derive(Debug, PartialEq)]
enum CommitFailure {
    Append(FileCommitLogError),
    Flush(LogSequenceNumber, FileCommitLogError),
}

/// Numbers the transactions of one epoch.
struct Coordinator {
    epoch: u64,
    next_sequence: u64,
}

#[allow(dead_code)]
impl Coordinator {
    fn open<const N: usize>(file: &mut LogFile<N>) -> Coordinator {
        let epoch: u64 = file.allocate_epoch().expect("an epoch is left");
        Coordinator { epoch, next_sequence: 1 }
    }

    fn begin(&mut self) -> TransactionId {
        let sequence: u64 = self.next_sequence;
        self.next_sequence += 1;
        TransactionId::new(self.epoch, sequence).expect("nonzero numbers")
    }
}

fn carry_out(bytes: &mut Vec<u8>, effects: &Vec<FileEffect>) {
    for effect in effects {
        if let FileEffect::Write { bytes: more, .. } = effect {
            bytes.extend_from_slice(more);
        }
    }
}

/// Cuts a file to the length that its repair asks for.
fn repair<const N: usize>(
    mut bytes: Vec<u8>,
    opened: LockedFileCommitLogOpen<N>,
) -> LogFile<N> {
    if let Some(length) = opened.repaired_len() {
        bytes.truncate(usize::try_from(length).unwrap());
    }
    LogFile { bytes, log: opened.finish() }
}

#[allow(dead_code)]
impl LogFile<0> {
    fn create_v1(id: u128) -> LogFile<0> {
        let (log, bytes) = FileCommitLog::create_new(persistent_id(id));
        LogFile { bytes, log }
    }

    fn open_v1(bytes: Vec<u8>) -> LogFile<0> {
        let opened: LockedFileCommitLogOpen<0> = FileCommitLog::open(&bytes).unwrap();
        repair(bytes, opened)
    }
}

#[allow(dead_code)]
impl<const N: usize> LogFile<N> {
    fn create_v2(id: u128) -> LogFile<N> {
        let (log, bytes) = FileCommitLog::<N>::create_new_page_capable(persistent_id(id)).unwrap();
        LogFile { bytes, log }
    }

    fn create_v3(id: u128) -> LogFile<N> {
        let (log, bytes) =
            FileCommitLog::<N>::create_new_transaction_page_capable(persistent_id(id)).unwrap();
        LogFile { bytes, log }
    }

    fn open_v2(bytes: Vec<u8>) -> LogFile<N> {
        let opened: LockedFileCommitLogOpen<N> =
            FileCommitLog::<N>::open_page_capable(&bytes).unwrap();
        repair(bytes, opened)
    }

    fn open_v3(bytes: Vec<u8>) -> LogFile<N> {
        let opened: LockedFileCommitLogOpen<N> =
            FileCommitLog::<N>::open_transaction_page_capable(&bytes).unwrap();
        repair(bytes, opened)
    }

    fn allocate_epoch(&mut self) -> Result<u64, FileTransactionEpochError> {
        let plan = self.log.allocate_transaction_epoch()?;
        carry_out(&mut self.bytes, plan.effects());
        Ok(self.log.finish_transaction_epoch(plan).0)
    }

    fn append_commit(&mut self, id: TransactionId) -> Result<LogSequenceNumber, FileCommitLogError> {
        let plan = self.log.append_commit(id)?;
        carry_out(&mut self.bytes, plan.effects());
        self.log.finish_append(plan)
    }

    fn append_page<const M: usize>(
        &mut self,
        page: &UnloggedPage<M>,
    ) -> Result<LogSequenceNumber, FileCommitLogError> {
        let plan = self.log.append_page(page)?;
        carry_out(&mut self.bytes, plan.effects());
        self.log.finish_append(plan)
    }

    fn append_transaction_page<const M: usize>(
        &mut self,
        page: &UnloggedPage<M>,
        owner: TransactionId,
    ) -> Result<LogSequenceNumber, FileCommitLogError> {
        let plan = self.log.append_transaction_page(page, owner)?;
        carry_out(&mut self.bytes, plan.effects());
        self.log.finish_append(plan)
    }

    fn flush_through(&mut self, position: &LogSequenceNumber) -> Result<(), FileCommitLogError> {
        match self.log.flush_through(position)? {
            Some(plan) => {
                carry_out(&mut self.bytes, plan.effects());
                self.log.finish_flush(plan)
            }
            None => Ok(()),
        }
    }

    fn commit(&mut self, id: TransactionId) -> Result<LogSequenceNumber, CommitFailure> {
        let position: LogSequenceNumber = self.append_commit(id).map_err(CommitFailure::Append)?;
        self.flush_through(&position)
            .map_err(|error| CommitFailure::Flush(position, error))?;
        Ok(position)
    }

    fn lookup(
        &self,
        id: TransactionId,
    ) -> Result<DurableCommitLookup, FileTransactionRecoveryError> {
        self.log.lookup_durable_commit(id).map(|found| found.1)
    }

    fn poison(&mut self) {
        let _ = self
            .log
            .effect_failed(FileIoStage::SyncEpochFrame, std::io::Error::other("disk is gone"));
    }
}

fn persistent_id(value: u128) -> PersistentLogId {
    PersistentLogId::new(value).expect("nonzero identity")
}

#[allow(dead_code)]
fn page_number(value: u64) -> PageNumber {
    PageNumber::new(value).expect("nonzero page number")
}

#[allow(dead_code)]
fn unlogged_page<const M: usize>(
    lineage: &LogLineage,
    number: u64,
    version: u64,
    bytes: [u8; M],
) -> UnloggedPage<M> {
    UnloggedPage::new(
        PageAddress::new(lineage, page_number(number)),
        PageVersion::new(version),
        bytes,
    )
}

/// Overwrites the eight bytes at `offset` with a big-endian number.
#[allow(dead_code)]
fn write_u64(bytes: &mut [u8], offset: usize, value: u64) {
    bytes[offset..offset + 8].copy_from_slice(&value.to_be_bytes());
}

#[allow(dead_code)]
fn write_u16(bytes: &mut [u8], offset: usize, value: u16) {
    bytes[offset..offset + 2].copy_from_slice(&value.to_be_bytes());
}

/// The file position of frame `index` behind a header of the first three versions.
#[allow(dead_code)]
fn frame_offset(index: usize) -> usize {
    HEADER_LENGTH + FRAME_LENGTH * index
}

#[allow(dead_code)]
fn frame(bytes: &[u8], index: usize) -> &[u8] {
    &bytes[frame_offset(index)..frame_offset(index + 1)]
}

#[allow(dead_code)]
fn format_error(offset: usize, reason: FileFormatErrorReason) -> FileOpenError {
    FileOpenError::Format(FileFormatError::new(u64::try_from(offset).unwrap(), reason))
}

/// A page store together with the bytes of its file.
struct StoreFile<const N: usize> {
    bytes: Vec<u8>,
    store: FilePageStore<N>,
}

fn carry_out_store(bytes: &mut Vec<u8>, effects: &Vec<StoreEffect>) {
    for effect in effects {
        if let StoreEffect::Write { bytes: more, .. } = effect {
            bytes.extend_from_slice(more);
        }
    }
}

#[allow(dead_code)]
impl<const N: usize> StoreFile<N> {
    fn create(id: u128) -> StoreFile<N> {
        let (store, bytes) = FilePageStore::<N>::create_new(persistent_id(id)).unwrap();
        StoreFile { bytes, store }
    }

    fn open(mut bytes: Vec<u8>) -> StoreFile<N> {
        let opened: LockedFilePageStoreOpen<N> = FilePageStore::<N>::open(&bytes).unwrap();
        if let Some(length) = opened.repaired_len() {
            bytes.truncate(usize::try_from(length).unwrap());
        }
        StoreFile { bytes, store: opened.finish() }
    }

    fn write(
        &mut self,
        page: &DirtyPage<N>,
        permit: PageWritePermit,
    ) -> Result<(), FilePageStoreError> {
        let plan = self.store.write_page(page, permit)?;
        carry_out_store(&mut self.bytes, plan.effects());
        self.store.finish_write(plan)
    }

    /// Makes the page's record durable and then stores the page.
    fn flush_page(
        &mut self,
        log: &mut LogFile<N>,
        page: &DirtyPage<N>,
    ) -> Result<(), FilePageStoreError> {
        log.flush_through(&page.required_position).unwrap();
        self.write(page, PageWritePermit { position: page.required_position })
    }

    fn poison(&mut self) {
        let _ = self
            .store
            .effect_failed(PageStoreIoStage::SyncPageGroup, std::io::Error::other("disk is gone"));
    }
}

/// Appends a raw page to the log.
#[allow(dead_code)]
fn stage<const N: usize>(log: &mut LogFile<N>, page: UnloggedPage<N>) -> DirtyPage<N> {
    let position: LogSequenceNumber = log.append_page(&page).unwrap();
    DirtyPage::logged(page, position)
}

/// Appends a transaction's page to the log.
#[allow(dead_code)]
fn stage_owned<const N: usize>(
    log: &mut LogFile<N>,
    page: UnloggedPage<N>,
    owner: TransactionId,
) -> DirtyPage<N> {
    let position: LogSequenceNumber = log.append_transaction_page(&page, owner).unwrap();
    DirtyPage::logged(page, position)
}

fn database_file_header_identity(role: DatabaseFileRole) -> DatabaseFileHeaderIdentity {
    DatabaseFileHeaderIdentity::new(
        DatabaseId::new(0x1112_1314_1516_1718_191a_1b1c_1d1e_1f20).unwrap(),
        DatabaseFileIdentity::new(
            role,
            DatabaseFileId::new(0x2122_2324_2526_2728_292a_2b2c_2d2e_2f30).unwrap(),
        ),
    )
}

fn store_format_error(offset: usize, reason: PageStoreFormatErrorReason) -> PageStoreOpenError {
    PageStoreOpenError::Format(PageStoreFormatError::new(offset as u64, reason))
}

/// The error on opening a new store with frames behind its header.
fn store_open_error(id: u128, frames: &[&Vec<u8>]) -> PageStoreOpenError {
    let mut bytes: Vec<u8> = StoreFile::<2>::create(id).bytes;
    for more in frames {
        bytes.extend_from_slice(more);
    }
    FilePageStore::<2>::open(&bytes).unwrap_err()
}

/// A dirty page of the lineage of `id`, logged at `position`.
fn dirty_page(id: u128, number: u64, version: u64, bytes: [u8; 2], position: u64) -> DirtyPage<2> {
    let lineage: LogLineage = LogLineage::persistent(persistent_id(id));
    DirtyPage::logged(
        unlogged_page(&lineage, number, version, bytes),
        lineage.position(position),
    )
}

/// A store whose sequence numbers are all used up.
fn exhausted_store(id: u128) -> FilePageStore<2> {
    let layout: PageLayout = PageLayout::for_const::<2>().unwrap();
    let mut state: PageStoreOpenState<2> =
        PageStoreOpenState::new(layout, LogLineage::persistent(persistent_id(id)));
    state.next_sequence = None;
    FilePageStore::from_open_state(PageStoreFormat::V1, persistent_id(id), None, state)
}

#[test]
fn page_store_header_exact_bytes_and_checksum() {
    let file: StoreFile<10> = StoreFile::create(200);
    assert_eq!(file.store.persistent_id(), persistent_id(200));
    assert!(file.store.pages().is_empty());
    let bytes: Vec<u8> = file.bytes;
    assert_eq!(bytes.len(), HEADER_LENGTH);
    assert_eq!(&bytes[..8], b"NTSQPGS1");
    assert_eq!(read_u16(&bytes, 8), 1);
    assert_eq!(read_u16(&bytes, 10), 64);
    assert_eq!(read_u32(&bytes, 12), 0);
    assert_eq!(read_u128(&bytes, 16), 200);
    assert_eq!(read_u64(&bytes, 32), 10);
    for byte in &bytes[40..56] {
        assert_eq!(*byte, 0);
    }
    assert_eq!(read_u64(&bytes, 56), 0xec25_2b5e_1c3d_f64d);
}

#[test]
fn page_store_integration_with_commit_log_v2() {
    let mut log: LogFile<2> = LogFile::create_v2(201);
    let mut file: StoreFile<2> = StoreFile::create(201);
    let page: UnloggedPage<2> = unlogged_page(log.log.lineage(), 1, 5, [0xAA, 0xBB]);
    let dirty: DirtyPage<2> = stage(&mut log, page);
    assert_eq!(dirty.required_position.get(), 1);
    file.flush_page(&mut log, &dirty).unwrap();

    assert_eq!(file.store.pages().len(), 1);
    let snapshot = file.store.page(page_number(1)).unwrap();
    assert_eq!(snapshot.page_number().get(), 1);
    assert_eq!(snapshot.page_version().get(), 5);
    assert_eq!(snapshot.bytes(), &[0xAA, 0xBB]);
    assert_eq!(snapshot.required_position(), &log.log.lineage().position(1));
    assert_eq!(snapshot.store_sequence(), 1);

    let mut log: LogFile<2> = LogFile::open_v2(log.bytes);
    let mut file: StoreFile<2> = StoreFile::open(file.bytes);
    assert_eq!(file.store.pages().len(), 1);
    let snapshot = file.store.page(page_number(1)).unwrap();
    assert_eq!(snapshot.bytes(), &[0xAA, 0xBB]);
    assert_eq!(snapshot.required_position(), &log.log.lineage().position(1));
    assert_eq!(snapshot.store_sequence(), 1);

    let page: UnloggedPage<2> = unlogged_page(log.log.lineage(), 2, 10, [0xCC, 0xDD]);
    let dirty: DirtyPage<2> = stage(&mut log, page);
    assert_eq!(dirty.required_position.get(), 2);
    file.flush_page(&mut log, &dirty).unwrap();
    assert_eq!(file.store.pages().len(), 2);
    assert_eq!(file.store.page(page_number(2)).unwrap().store_sequence(), 2);
}

#[test]
fn projected_file_evidence_reconciles_current_behind_and_missing() {
    let mut log: LogFile<2> = LogFile::create_v2(252);
    let mut file: StoreFile<2> = StoreFile::create(252);
    let number: PageNumber = page_number(7);
    let page: UnloggedPage<2> = unlogged_page(log.log.lineage(), 7, 11, [1, 2]);
    let first: DirtyPage<2> = stage(&mut log, page);
    file.flush_page(&mut log, &first).unwrap();

    let mut log: LogFile<2> = LogFile::open_v2(log.bytes);
    let file: StoreFile<2> = StoreFile::open(file.bytes);
    let record =
        log.log.durable_records()[0].page_recovery_observation().unwrap().unwrap();
    let snapshot = file.store.page(number).unwrap().page_recovery_observation().unwrap();
    assert_eq!(record.position, log.log.lineage().position(1));
    assert_eq!(snapshot.required_position, record.position);
    assert_eq!(snapshot.bytes, record.bytes);
    assert_eq!(snapshot.page_version, record.page_version);

    let mut coordinator: Coordinator = Coordinator::open(&mut log);
    let id: TransactionId = coordinator.begin();
    assert_eq!(log.commit(id).unwrap().get(), 2);
    let page: UnloggedPage<2> = unlogged_page(log.log.lineage(), 7, 4, [3, 4]);
    let second: DirtyPage<2> = stage(&mut log, page);
    log.flush_through(&second.required_position).unwrap();
    assert_eq!(second.required_position.get(), 3);

    let log: LogFile<2> = LogFile::open_v2(log.bytes);
    let file: StoreFile<2> = StoreFile::open(file.bytes);
    assert_eq!(log.log.records().len(), 3);
    let durable = log.log.durable_records();
    assert_eq!(durable.len(), 3);
    let first_record = durable[0].page_recovery_observation().unwrap().unwrap();
    assert_eq!(durable[1].page_recovery_observation(), Ok(None));
    let second_record = durable[2].page_recovery_observation().unwrap().unwrap();
    let snapshot = file.store.page(number).unwrap().page_recovery_observation().unwrap();
    assert_eq!(snapshot.required_position, first_record.position);
    assert_eq!(second_record.position, log.log.lineage().position(3));
    assert_eq!(second_record.bytes, [3, 4]);

    let empty: StoreFile<2> = StoreFile::create(252);
    assert!(empty.store.page(number).is_none());
    assert_eq!(empty.store.observe_page(number), Ok(None));
}

#[test]
fn page_store_rewrite_same_page_appends_and_latest_wins() {
    let mut log: LogFile<2> = LogFile::create_v2(202);
    let mut file: StoreFile<2> = StoreFile::create(202);
    for (version, bytes) in [(1_u64, [0x01_u8, 0x02]), (2_u64, [0x03_u8, 0x04])] {
        let page: UnloggedPage<2> = unlogged_page(log.log.lineage(), 1, version, bytes);
        let dirty: DirtyPage<2> = stage(&mut log, page);
        file.flush_page(&mut log, &dirty).unwrap();
    }
    let check = |store: &FilePageStore<2>| {
        assert_eq!(store.pages().len(), 1);
        let snapshot = store.page(page_number(1)).unwrap();
        assert_eq!(snapshot.page_version().get(), 2);
        assert_eq!(snapshot.bytes(), &[0x03, 0x04]);
        assert_eq!(snapshot.store_sequence(), 2);
    };
    check(&file.store);
    check(&StoreFile::<2>::open(file.bytes).store);
}

#[test]
fn a_write_leaves_other_pages_alone() {
    let mut file: StoreFile<2> = StoreFile::create(232);
    for (number, version, bytes) in [(1_u64, 1_u64, [1_u8, 1]), (2, 1, [2, 2]), (1, 2, [3, 3])] {
        let dirty: DirtyPage<2> = dirty_page(232, number, version, bytes, version);
        file.write(&dirty, PageWritePermit { position: dirty.required_position }).unwrap();
    }
    let reopened: StoreFile<2> = StoreFile::open(file.bytes);
    assert_eq!(reopened.store.pages().len(), 2);
    assert_eq!(reopened.store.page(page_number(1)).unwrap().bytes(), &[3, 3]);
    assert_eq!(reopened.store.page(page_number(2)).unwrap().bytes(), &[2, 2]);
}

#[test]
fn page_store_width_zero_rejects_before_mutation() {
    assert_eq!(
        FilePageStore::<0>::create_new(persistent_id(250)).err(),
        Some(PageStoreCreateError::PageWidth(FilePageWidthError::Zero))
    );
    assert_eq!(
        FilePageStore::<0>::open(&[]).err(),
        Some(PageStoreOpenError::PageWidth(FilePageWidthError::Zero))
    );
}

#[test]
fn page_store_width_mismatch_rejects_before_mutation() {
    let mut bytes: Vec<u8> = StoreFile::<10>::create(203).bytes;
    bytes.extend_from_slice(&[1, 2, 3]);
    assert_eq!(
        FilePageStore::<5>::open(&bytes).err(),
        Some(store_format_error(
            32,
            PageStoreFormatErrorReason::HeaderPageWidthMismatch { expected: 5, actual: 10 }
        ))
    );
}

#[test]
fn page_store_foreign_page_lineage_rejects() {
    let mut file: StoreFile<2> = StoreFile::create(205);
    file.store.arm_fault(PageStoreFaultPoint::AfterWrite).unwrap();
    let length: usize = file.bytes.len();
    let dirty: DirtyPage<2> = dirty_page(204, 1, 1, [0x01, 0x02], 1);
    assert_eq!(
        file.write(&dirty, PageWritePermit { position: dirty.required_position }),
        Err(FilePageStoreError::ForeignPageLineage(page_number(1)))
    );
    assert_eq!(file.store.armed_fault(), Some(PageStoreFaultPoint::AfterWrite));
    assert!(file.store.pages().is_empty());
    assert_eq!(file.bytes.len(), length);
}

#[test]
fn a_permit_has_to_fit_the_page() {
    let mut file: StoreFile<2> = StoreFile::create(205);
    let dirty: DirtyPage<2> = dirty_page(205, 1, 1, [0x01, 0x02], 3);
    let foreign: LogSequenceNumber = LogLineage::persistent(persistent_id(204)).position(3);
    assert_eq!(
        file.write(&dirty, PageWritePermit { position: foreign }),
        Err(FilePageStoreError::ForeignPermitLineage(foreign))
    );
    let other: LogSequenceNumber = file.store.lineage().position(4);
    assert_eq!(
        file.write(&dirty, PageWritePermit { position: other }),
        Err(FilePageStoreError::PermitPositionMismatch {
            expected: dirty.required_position,
            actual: other,
        })
    );
    assert_eq!(
        file.store
            .write_dirty_page(&dirty, PageWritePermit { position: dirty.required_position }, false)
            .err(),
        Some(FilePageStoreError::SnapshotCapacityExhausted)
    );
    file.poison();
    assert_eq!(
        file.write(&dirty, PageWritePermit { position: dirty.required_position }),
        Err(FilePageStoreError::PoisonedWriter)
    );
}

#[test]
fn page_store_zero_required_position_rejects_before_mutation() {
    let mut file: StoreFile<2> = StoreFile::create(251);
    file.store.arm_fault(PageStoreFaultPoint::AfterWrite).unwrap();
    let length: usize = file.bytes.len();
    let dirty: DirtyPage<2> = dirty_page(251, 1, 1, [0x01, 0x02], 0);
    assert_eq!(
        file.write(&dirty, PageWritePermit { position: dirty.required_position }),
        Err(FilePageStoreError::RequiredPositionZero(page_number(1)))
    );
    assert_eq!(file.store.armed_fault(), Some(PageStoreFaultPoint::AfterWrite));
    assert!(file.store.pages().is_empty());
    assert!(!file.store.is_poisoned());
    assert_eq!(file.bytes.len(), length);
    assert!(StoreFile::<2>::open(file.bytes).store.pages().is_empty());
}

#[test]
fn page_store_before_write_fault_returns_before_mutation() {
    let mut log: LogFile<2> = LogFile::create_v2(206);
    let mut file: StoreFile<2> = StoreFile::create(206);
    file.store.arm_fault(PageStoreFaultPoint::BeforeWrite).unwrap();
    let page: UnloggedPage<2> = unlogged_page(log.log.lineage(), 1, 1, [0x01, 0x02]);
    let dirty: DirtyPage<2> = stage(&mut log, page);
    assert_eq!(
        file.flush_page(&mut log, &dirty),
        Err(FilePageStoreError::InjectedFault(PageStoreFaultPoint::BeforeWrite))
    );
    assert!(file.store.pages().is_empty());
    assert!(!file.store.is_poisoned());
    assert_eq!(file.bytes.len(), HEADER_LENGTH);
}

#[test]
fn page_store_after_write_fault_writes_and_updates_state_then_reports_error() {
    let mut log: LogFile<2> = LogFile::create_v2(207);
    let mut file: StoreFile<2> = StoreFile::create(207);
    file.store.arm_fault(PageStoreFaultPoint::AfterWrite).unwrap();
    let page: UnloggedPage<2> = unlogged_page(log.log.lineage(), 1, 1, [0x01, 0x02]);
    let dirty: DirtyPage<2> = stage(&mut log, page);
    assert_eq!(
        file.flush_page(&mut log, &dirty),
        Err(FilePageStoreError::InjectedFault(PageStoreFaultPoint::AfterWrite))
    );
    assert_eq!(file.store.pages().len(), 1);
    assert_eq!(file.store.page(page_number(1)).unwrap().bytes(), &[0x01, 0x02]);
    assert!(!file.store.is_poisoned());
    assert_eq!(StoreFile::<2>::open(file.bytes).store.pages().len(), 1);
}

#[test]
fn page_store_incomplete_physical_frame_repaired_on_open() {
    let mut bytes: Vec<u8> = StoreFile::<2>::create(208).bytes;
    bytes.extend_from_slice(&[1, 2, 3]);
    assert_eq!(bytes.len(), HEADER_LENGTH + 3);
    let file: StoreFile<2> = StoreFile::open(bytes);
    assert!(file.store.pages().is_empty());
    assert_eq!(file.bytes.len(), HEADER_LENGTH);
}

/// A store file that holds page 1, and how long it is.
fn store_with_one_page(id: u128) -> (Vec<u8>, usize) {
    let mut log: LogFile<2> = LogFile::create_v2(id);
    let mut file: StoreFile<2> = StoreFile::create(id);
    let page: UnloggedPage<2> = unlogged_page(log.log.lineage(), 1, 1, [0x01, 0x02]);
    let dirty: DirtyPage<2> = stage(&mut log, page);
    file.flush_page(&mut log, &dirty).unwrap();
    let length: usize = file.bytes.len();
    (file.bytes, length)
}

#[test]
fn page_store_incomplete_logical_group_at_header_repaired() {
    let (mut bytes, length) = store_with_one_page(209);
    bytes.extend_from_slice(&build_page_store_frame(PageStoreFrameKind::SnapshotHeader, 2, 2, 0));
    let file: StoreFile<2> = StoreFile::open(bytes);
    assert_eq!(file.store.pages().len(), 1);
    assert_eq!(file.bytes.len(), length);
    assert_eq!(file.store.page(page_number(1)).unwrap().bytes(), &[0x01, 0x02]);
}

#[test]
fn page_store_incomplete_logical_group_after_required_position_repaired() {
    let (mut bytes, length) = store_with_one_page(210);
    bytes.extend_from_slice(&build_page_store_frame(PageStoreFrameKind::SnapshotHeader, 2, 2, 0));
    bytes.extend_from_slice(&build_page_store_frame(
        PageStoreFrameKind::RequiredPosition,
        2,
        42,
        0,
    ));
    let file: StoreFile<2> = StoreFile::open(bytes);
    assert_eq!(file.store.pages().len(), 1);
    assert_eq!(file.bytes.len(), length);
}

#[test]
fn page_store_wrong_kind_rejects_without_truncation() {
    let (mut bytes, length) = store_with_one_page(211);
    bytes.extend_from_slice(&build_page_store_frame(PageStoreFrameKind::SnapshotHeader, 2, 2, 0));
    bytes.extend_from_slice(&build_page_store_frame(PageStoreFrameKind::SnapshotHeader, 2, 3, 0));
    assert_eq!(
        FilePageStore::<2>::open(&bytes).err(),
        Some(store_format_error(
            length + FRAME_LENGTH + 4,
            PageStoreFormatErrorReason::UnexpectedKindAfterHeader { actual: 1 }
        ))
    );
}

#[test]
fn page_store_sequence_replay_rejects() {
    let header: Vec<u8> = build_page_store_frame(PageStoreFrameKind::SnapshotHeader, 1, 1, 0);
    let required: Vec<u8> = build_page_store_frame(PageStoreFrameKind::RequiredPosition, 1, 1, 0);
    let data: Vec<u8> = build_page_store_frame(PageStoreFrameKind::PageData, 1, 0, 0);
    assert_eq!(
        store_open_error(212, &[&header, &required, &data, &header]),
        store_format_error(
            frame_offset(3) + 16,
            PageStoreFormatErrorReason::SnapshotSequenceOutOfOrder { expected: 2, actual: 1 }
        )
    );
}

#[test]
fn page_store_sequence_exhaustion_rejects() {
    let mut store: FilePageStore<2> = exhausted_store(224);
    let dirty: DirtyPage<2> = dirty_page(224, 1, 1, [0x01, 0x02], 1);
    assert_eq!(
        store.write_page(&dirty, PageWritePermit { position: dirty.required_position }).err(),
        Some(FilePageStoreError::StoreSequenceSpaceExhausted)
    );
    assert!(store.pages().is_empty());
    assert!(!store.is_poisoned());
}

#[test]
fn page_store_sequence_exhaustion_on_open() {
    let lineage: LogLineage = LogLineage::persistent(persistent_id(225));
    let layout: PageLayout = PageLayout::for_const::<2>().unwrap();
    let mut state: PageStoreOpenState<2> = PageStoreOpenState::new(layout, lineage);
    state.next_sequence = Some(u64::MAX);
    let mut offset: u64 = HEADER_LENGTH as u64;
    for built in [
        build_page_store_frame(PageStoreFrameKind::SnapshotHeader, u64::MAX, 1, 7),
        build_page_store_frame(PageStoreFrameKind::RequiredPosition, u64::MAX, 11, 0),
        build_page_store_frame(PageStoreFrameKind::PageData, u64::MAX, 0, 0x0102_0000_0000_0000),
    ] {
        let decoded: DecodedPageStoreFrame = parse_page_store_frame(&built, offset).unwrap();
        state.apply_frame(decoded, offset, true).unwrap();
        offset += FRAME_LENGTH as u64;
    }

    assert!(state.next_sequence.is_none());
    assert_eq!(state.pages.len(), 1);
    assert_eq!(state.pages[0].store_sequence(), u64::MAX);
    assert_eq!(state.pages[0].required_position().get(), 11);
    assert_eq!(state.pages[0].bytes(), &[1, 2]);
    assert!(state.lineage.same_lineage(state.pages[0].required_position().lineage()));

    let extra: DecodedPageStoreFrame = parse_page_store_frame(
        &build_page_store_frame(PageStoreFrameKind::SnapshotHeader, u64::MAX, 2, 8),
        offset,
    )
    .unwrap();
    assert_eq!(
        state.apply_frame(extra, offset, true),
        Err(PageStoreOpenError::Format(PageStoreFormatError::new(
            offset + 16,
            PageStoreFormatErrorReason::SnapshotSequenceSpaceExhausted,
        )))
    );

    let mut store: FilePageStore<2> =
        FilePageStore::from_open_state(PageStoreFormat::V1, persistent_id(225), None, state);
    let dirty: DirtyPage<2> = dirty_page(225, 2, 1, [0x03, 0x04], 12);
    assert_eq!(
        store.write_page(&dirty, PageWritePermit { position: dirty.required_position }).err(),
        Some(FilePageStoreError::StoreSequenceSpaceExhausted)
    );
}

#[test]
fn a_page_without_room_is_refused_on_open() {
    let layout: PageLayout = PageLayout::for_const::<2>().unwrap();
    let mut state: PageStoreOpenState<2> =
        PageStoreOpenState::new(layout, LogLineage::persistent(persistent_id(226)));
    let frames: [Vec<u8>; 3] = [
        build_page_store_frame(PageStoreFrameKind::SnapshotHeader, 1, 1, 7),
        build_page_store_frame(PageStoreFrameKind::RequiredPosition, 1, 11, 0),
        build_page_store_frame(PageStoreFrameKind::PageData, 1, 0, 0),
    ];
    for (index, built) in frames.iter().enumerate() {
        let decoded: DecodedPageStoreFrame = parse_page_store_frame(built, 64).unwrap();
        let applied: Result<(), PageStoreOpenError> = state.apply_frame(decoded, 64, false);
        if index < 2 {
            assert_eq!(applied, Ok(()));
        } else {
            assert_eq!(applied, Err(PageStoreOpenError::SnapshotCapacityExhausted));
        }
    }
    assert!(state.pages.is_empty());
}

#[test]
fn page_store_parent_sequence_mismatch_rejects() {
    assert_eq!(
        store_open_error(
            213,
            &[
                &build_page_store_frame(PageStoreFrameKind::SnapshotHeader, 1, 1, 0),
                &build_page_store_frame(PageStoreFrameKind::RequiredPosition, 99, 1, 0),
            ]
        ),
        store_format_error(
            frame_offset(1) + 16,
            PageStoreFormatErrorReason::RequiredPositionSequenceMismatch {
                expected: 1,
                actual: 99,
            }
        )
    );
}

#[test]
fn page_store_data_chunk_index_mismatch_rejects() {
    assert_eq!(
        store_open_error(
            214,
            &[
                &build_page_store_frame(PageStoreFrameKind::SnapshotHeader, 1, 1, 0),
                &build_page_store_frame(PageStoreFrameKind::RequiredPosition, 1, 1, 0),
                &build_page_store_frame(PageStoreFrameKind::PageData, 1, 1, 0),
            ]
        ),
        store_format_error(
            frame_offset(2) + 24,
            PageStoreFormatErrorReason::PageDataChunkIndexOutOfSequence {
                expected: 0,
                actual: 1,
            }
        )
    );
}

#[test]
fn page_store_nonzero_padding_rejects() {
    let mut bytes: Vec<u8> = StoreFile::<3>::create(215).bytes;
    bytes.extend_from_slice(&build_page_store_frame(PageStoreFrameKind::SnapshotHeader, 1, 1, 0));
    bytes.extend_from_slice(&build_page_store_frame(PageStoreFrameKind::RequiredPosition, 1, 1, 0));
    bytes.extend_from_slice(&build_page_store_frame_with_payload2_bytes(
        PageStoreFrameKind::PageData,
        1,
        0,
        &[0x01, 0x02, 0x03, 0xFF, 0x00, 0x00, 0x00, 0x00],
    ));
    assert_eq!(
        FilePageStore::<3>::open(&bytes).err(),
        Some(store_format_error(
            frame_offset(2) + 32,
            PageStoreFormatErrorReason::PageDataFinalPaddingNonzero
        ))
    );
}

#[test]
fn page_store_checksum_corruption_rejects() {
    let (mut bytes, _) = store_with_one_page(216);
    bytes[HEADER_LENGTH + 20] ^= 0xff;
    assert_eq!(
        FilePageStore::<2>::open(&bytes).err(),
        Some(store_format_error(
            frame_offset(0) + FRAME_CHECKSUM_OFFSET,
            PageStoreFormatErrorReason::FrameChecksum {
                expected: checksum_v1(&bytes[frame_offset(0)..frame_offset(0) + 48]),
                actual: read_u64(&bytes, frame_offset(0) + 48),
            }
        ))
    );
}

#[test]
fn page_store_required_position_zero_rejects() {
    assert_eq!(
        store_open_error(
            217,
            &[
                &build_page_store_frame(PageStoreFrameKind::SnapshotHeader, 1, 1, 0),
                &build_page_store_frame(PageStoreFrameKind::RequiredPosition, 1, 0, 0),
            ]
        ),
        store_format_error(
            frame_offset(1) + 24,
            PageStoreFormatErrorReason::RequiredPositionZero
        )
    );
}

/// A snapshot header frame with one byte changed and the checksum put right.
fn store_frame_refusal(offset: usize, value: u8) -> PageStoreOpenError {
    let mut built: Vec<u8> = build_page_store_frame(PageStoreFrameKind::SnapshotHeader, 1, 1, 0);
    built[offset] = value;
    let checksum: u64 = checksum_v1(&built[..FRAME_CHECKSUM_OFFSET]);
    write_u64(&mut built, FRAME_CHECKSUM_OFFSET, checksum);
    store_open_error(218, &[&built])
}

#[test]
fn page_store_nonzero_reserved_rejects() {
    let at: usize = HEADER_LENGTH;
    assert_eq!(
        store_frame_refusal(40, 0xFF),
        store_format_error(at + 14, PageStoreFormatErrorReason::FrameReserved)
    );
    assert_eq!(
        store_frame_refusal(0, b'X'),
        store_format_error(at, PageStoreFormatErrorReason::FrameMagic)
    );
    assert_eq!(
        store_frame_refusal(5, 4),
        store_format_error(at + 4, PageStoreFormatErrorReason::FrameKind { actual: 4 })
    );
    assert_eq!(
        store_frame_refusal(7, 2),
        store_format_error(at + 6, PageStoreFormatErrorReason::FrameVersion { actual: 2 })
    );
    assert_eq!(
        store_frame_refusal(11, 1),
        store_format_error(at + 8, PageStoreFormatErrorReason::FrameFlags { actual: 1 })
    );
    assert_eq!(
        store_frame_refusal(13, 57),
        store_format_error(at + 12, PageStoreFormatErrorReason::FrameLength { actual: 57 })
    );
    assert_eq!(
        store_frame_refusal(23, 0),
        store_format_error(at + 16, PageStoreFormatErrorReason::SnapshotSequenceZero)
    );
    assert_eq!(
        store_frame_refusal(31, 0),
        store_format_error(at + 24, PageStoreFormatErrorReason::SnapshotPageNumberZero)
    );
}

#[test]
fn groups_keep_their_order() {
    let header: Vec<u8> = build_page_store_frame(PageStoreFrameKind::SnapshotHeader, 1, 1, 0);
    let required: Vec<u8> = build_page_store_frame(PageStoreFrameKind::RequiredPosition, 1, 1, 0);
    let data: Vec<u8> = build_page_store_frame(PageStoreFrameKind::PageData, 1, 0, 0);
    assert_eq!(
        store_open_error(219, &[&data]),
        store_format_error(
            frame_offset(0) + 4,
            PageStoreFormatErrorReason::PageDataWithoutHeader
        )
    );
    assert_eq!(
        store_open_error(219, &[&header, &data]),
        store_format_error(
            frame_offset(1) + 4,
            PageStoreFormatErrorReason::UnexpectedKindAfterHeader { actual: 3 }
        )
    );
    assert_eq!(
        store_open_error(219, &[&header, &required, &required]),
        store_format_error(
            frame_offset(2) + 4,
            PageStoreFormatErrorReason::UnexpectedKindAfterRequiredPosition { actual: 2 }
        )
    );
    assert_eq!(
        store_open_error(
            219,
            &[&header, &required, &build_page_store_frame(PageStoreFrameKind::PageData, 2, 0, 0)]
        ),
        store_format_error(
            frame_offset(2) + 16,
            PageStoreFormatErrorReason::PageDataSequenceMismatch { expected: 1, actual: 2 }
        )
    );
}

#[test]
fn page_store_snapshot_header_and_data_frame_golden_bytes() {
    let mut log: LogFile<10> = LogFile::create_v2(221);
    let mut file: StoreFile<10> = StoreFile::create(221);
    let page: UnloggedPage<10> =
        unlogged_page(log.log.lineage(), 1, 5, [0xAA, 0xBB, 1, 2, 3, 4, 5, 6, 0xCC, 0xDD]);
    let dirty: DirtyPage<10> = stage(&mut log, page);
    file.flush_page(&mut log, &dirty).unwrap();
    let bytes: Vec<u8> = file.bytes;
    assert_eq!(bytes.len(), HEADER_LENGTH + FRAME_LENGTH * 4);

    let header: &[u8] = frame(&bytes, 0);
    assert_eq!(&header[..4], b"NTSP");
    assert_eq!(read_u16(header, 4), 1);
    assert_eq!(read_u16(header, 6), 1);
    assert_eq!(read_u64(header, 16), 1);
    assert_eq!(read_u64(header, 24), 1);
    assert_eq!(read_u64(header, 32), 5);
    assert_eq!(read_u64(header, FRAME_CHECKSUM_OFFSET), 0x410f_8838_f683_3c71);

    let required: &[u8] = frame(&bytes, 1);
    assert_eq!(&required[..4], b"NTSP");
    assert_eq!(read_u16(required, 4), 2);
    assert_eq!(read_u64(required, 16), 1);
    assert_eq!(read_u64(required, 24), 1);
    assert_eq!(read_u64(required, 32), 0);
    assert_eq!(read_u64(required, FRAME_CHECKSUM_OFFSET), 0x666a_2ca3_47af_4883);

    let first: &[u8] = frame(&bytes, 2);
    assert_eq!(&first[..4], b"NTSP");
    assert_eq!(read_u16(first, 4), 3);
    assert_eq!(read_u64(first, 16), 1);
    assert_eq!(read_u64(first, 24), 0);
    assert_eq!(&first[32..40], &[0xAA, 0xBB, 1, 2, 3, 4, 5, 6]);
    assert_eq!(read_u64(first, FRAME_CHECKSUM_OFFSET), 0xe9ea_8e28_a88d_17d7);

    let last: &[u8] = frame(&bytes, 3);
    assert_eq!(&last[..4], b"NTSP");
    assert_eq!(read_u16(last, 4), 3);
    assert_eq!(read_u64(last, 16), 1);
    assert_eq!(read_u64(last, 24), 1);
    assert_eq!(&last[32..40], &[0xCC, 0xDD, 0, 0, 0, 0, 0, 0]);
    assert_ne!(first, last);
    assert_eq!(read_u64(last, FRAME_CHECKSUM_OFFSET), 0x2305_fa72_23d5_15db);
}

#[test]
fn page_store_v2_database_header_has_exact_golden_bytes_and_mutation_rejection() {
    let id: PersistentLogId = persistent_id(0x0102_0304_0506_0708_090a_0b0c_0d0e_0f10);
    let identity: DatabaseFileHeaderIdentity =
        database_file_header_identity(DatabaseFileRole::PageStore);
    let header: Vec<u8> = build_page_store_header_v2(id, 10, identity);
    let mut expected: [u8; 128] = [0_u8; 128];
    expected[..8].copy_from_slice(b"NTSQPGS1");
    expected[8..12].copy_from_slice(&[0, 2, 0, 128]);
    expected[16..32].copy_from_slice(&id.get().to_be_bytes());
    expected[32..40].copy_from_slice(&10_u64.to_be_bytes());
    expected[64..112].copy_from_slice(&[
        0x4e, 0x54, 0x53, 0x51, 0x43, 0x46, 0x49, 0x31, 0x00, 0x01, 0x00, 0x30, 0x02, 0x00,
        0x00, 0x00, 0x11, 0x12, 0x13, 0x14, 0x15, 0x16, 0x17, 0x18, 0x19, 0x1a, 0x1b, 0x1c,
        0x1d, 0x1e, 0x1f, 0x20, 0x21, 0x22, 0x23, 0x24, 0x25, 0x26, 0x27, 0x28, 0x29, 0x2a,
        0x2b, 0x2c, 0x2d, 0x2e, 0x2f, 0x30,
    ]);
    expected[120..128].copy_from_slice(&0xb2af_61e3_42f5_ce02_u64.to_be_bytes());
    assert_eq!(header, expected);
    assert_eq!(
        parse_page_store_header_v2(&header, 10),
        Ok(PageStoreHeaderV2Metadata { persistent_id: id, database_file_identity: identity })
    );

    let mut reserved: Vec<u8> = header.clone();
    reserved[112] = 1;
    let checksum: u64 = checksum_v1(&reserved[..120]);
    write_u64(&mut reserved, 120, checksum);
    assert!(parse_page_store_header_v2(&reserved, 10).is_err());
    let mut bad_checksum: Vec<u8> = header;
    bad_checksum[120] ^= 1;
    assert!(parse_page_store_header_v2(&bad_checksum, 10).is_err());
}

#[test]
fn page_store_incomplete_group_at_partial_data_repaired() {
    let mut log: LogFile<10> = LogFile::create_v2(222);
    let mut file: StoreFile<10> = StoreFile::create(222);
    let page: UnloggedPage<10> =
        unlogged_page(log.log.lineage(), 1, 1, [1, 2, 3, 4, 5, 6, 7, 8, 9, 10]);
    let dirty: DirtyPage<10> = stage(&mut log, page);
    file.flush_page(&mut log, &dirty).unwrap();
    let length: usize = file.bytes.len();

    let mut bytes: Vec<u8> = file.bytes;
    bytes.extend_from_slice(&build_page_store_frame(PageStoreFrameKind::SnapshotHeader, 2, 2, 0));
    bytes.extend_from_slice(&build_page_store_frame(
        PageStoreFrameKind::RequiredPosition,
        2,
        42,
        0,
    ));
    bytes.extend_from_slice(&build_page_store_frame(PageStoreFrameKind::PageData, 2, 0, 0));

    let file: StoreFile<10> = StoreFile::open(bytes);
    assert_eq!(file.store.pages().len(), 1);
    assert_eq!(file.bytes.len(), length);
    let snapshot = file.store.page(page_number(1)).unwrap();
    assert_eq!(snapshot.bytes(), &[1, 2, 3, 4, 5, 6, 7, 8, 9, 10]);
    assert_eq!(snapshot.store_sequence(), 1);

    let mut log: LogFile<10> = LogFile::open_v2(log.bytes);
    let mut file: StoreFile<10> = StoreFile::open(file.bytes);
    let page: UnloggedPage<10> =
        unlogged_page(log.log.lineage(), 3, 1, [11, 12, 13, 14, 15, 16, 17, 18, 19, 20]);
    let dirty: DirtyPage<10> = stage(&mut log, page);
    file.flush_page(&mut log, &dirty).unwrap();
    assert_eq!(file.store.page(page_number(3)).unwrap().store_sequence(), 2);
}

#[test]
fn page_store_required_position_payload_c_nonzero_rejects() {
    assert_eq!(
        store_open_error(
            223,
            &[
                &build_page_store_frame(PageStoreFrameKind::SnapshotHeader, 1, 1, 0),
                &build_page_store_frame(PageStoreFrameKind::RequiredPosition, 1, 1, 42),
            ]
        ),
        store_format_error(
            frame_offset(1) + 32,
            PageStoreFormatErrorReason::RequiredPositionPayloadCNonzero { actual: 42 }
        )
    );
}

#[test]
fn every_cut_of_the_last_write_reopens_to_the_store_before_it() {
    let mut file: StoreFile<2> = StoreFile::create(227);
    let first: DirtyPage<2> = dirty_page(227, 1, 1, [1, 2], 1);
    file.write(&first, PageWritePermit { position: first.required_position }).unwrap();
    let before: usize = file.bytes.len();
    let second: DirtyPage<2> = dirty_page(227, 1, 2, [3, 4], 2);
    file.write(&second, PageWritePermit { position: second.required_position }).unwrap();
    let after: usize = file.bytes.len();
    assert_eq!(after, before + FRAME_LENGTH * 3);
    for cut in before..after {
        let reopened: StoreFile<2> = StoreFile::open(file.bytes[..cut].to_vec());
        assert_eq!(reopened.bytes, file.bytes[..before].to_vec());
        assert_eq!(reopened.store.pages().len(), 1);
        assert_eq!(reopened.store.pages()[0].bytes(), &[1, 2]);
    }
    let reopened: StoreFile<2> = StoreFile::open(file.bytes.clone());
    assert_eq!(reopened.store.pages(), file.store.pages());
}

#[test]
fn what_is_written_later_keeps_every_page_or_makes_it_newer() {
    let mut file: StoreFile<2> = StoreFile::create(233);
    for (number, bytes) in [(1_u64, [1_u8, 1]), (2, [2, 2])] {
        let dirty: DirtyPage<2> = dirty_page(233, number, 1, bytes, number);
        file.write(&dirty, PageWritePermit { position: dirty.required_position }).unwrap();
    }
    let early: FilePageStore<2> = StoreFile::<2>::open(file.bytes.clone()).store;
    let third: DirtyPage<2> = dirty_page(233, 2, 2, [3, 3], 3);
    file.write(&third, PageWritePermit { position: third.required_position }).unwrap();

    let late: FilePageStore<2> = StoreFile::<2>::open(file.bytes).store;
    assert_eq!(late.page(page_number(1)), early.page(page_number(1)));
    assert_eq!(early.page(page_number(2)).unwrap().store_sequence(), 2);
    assert_eq!(late.page(page_number(2)).unwrap().store_sequence(), 3);
}

#[test]
fn a_header_tells_how_long_it_is() {
    let mut header: Vec<u8> = vec![0; 64];
    for (version, log_length, store_length) in
        [(1_u16, 64, 64), (2, 64, 128), (3, 64, 64), (4, 128, 64), (5, 192, 64), (9, 64, 64)]
    {
        write_u16(&mut header, 8, version);
        assert_eq!(announced_header_length(&header), log_length);
        assert_eq!(announced_store_header_length(&header), store_length);
    }
}

#[test]
fn no_log_frame_is_a_store_frame() {
    let frame: Vec<u8> = build_frame(LogFormat::V1, FrameKind::CommitRecord, 1, 1, 1);
    assert!(parse_frame(&frame, 64, LogFormat::V1).is_ok());
    assert_eq!(
        parse_page_store_frame(&frame, 64),
        Err(PageStoreFormatError::new(64, PageStoreFormatErrorReason::FrameMagic))
    );
    let stored: Vec<u8> = build_page_store_frame(PageStoreFrameKind::RequiredPosition, 1, 2, 0);
    assert!(parse_page_store_frame(&stored, u64::MAX - 48).is_ok());
    assert!(parse_frame(&stored, 64, LogFormat::V1).is_err());
}

#[test]
fn a_store_history_with_faults_is_read_back_as_it_was() {
    let mut file: StoreFile<2> = StoreFile::create(234);
    let lineage: LogLineage = *file.store.lineage();
    for (round, fault) in [
        (1_u64, None),
        (2, Some(PageStoreFaultPoint::BeforeWrite)),
        (3, Some(PageStoreFaultPoint::AfterWrite)),
    ] {
        if let Some(fault) = fault {
            file.store.arm_fault(fault).unwrap();
        }
        let page: DirtyPage<2> = dirty_page(234, round, 1, [7, 8], round);
        let result = file.write(&page, PageWritePermit { position: page.required_position });
        assert_eq!(result.is_err(), fault.is_some());
    }
    let reopened: StoreFile<2> = StoreFile::open(file.bytes.clone());
    assert_eq!(reopened.bytes, file.bytes);
    assert_eq!(reopened.store.pages().len(), 2);
    assert_eq!(reopened.store.pages(), file.store.pages());
    assert_eq!(*reopened.store.lineage(), lineage);
}

#[test]
fn every_damaged_byte_of_a_store_is_refused() {
    let (bytes, length) = store_with_one_page(228);
    for index in 0..length {
        let mut damaged: Vec<u8> = bytes.clone();
        damaged[index] ^= 0x10;
        assert!(FilePageStore::<2>::open(&damaged).is_err());
    }
}

#[test]
fn a_store_fault_is_armed_once() {
    let mut file: StoreFile<2> = StoreFile::create(229);
    file.store.arm_fault(PageStoreFaultPoint::BeforeWrite).unwrap();
    let error = file.store.arm_fault(PageStoreFaultPoint::AfterWrite).unwrap_err();
    assert_eq!(error.armed(), PageStoreFaultPoint::BeforeWrite);
    assert_eq!(error.requested(), PageStoreFaultPoint::AfterWrite);
}

#[test]
fn a_database_store_opens_as_created_and_remembers_its_identity() {
    let storage: DatabaseStorageIdentity = DatabaseStorageIdentity {
        database_id: DatabaseId::new(1).unwrap(),
        persistent_log_id: persistent_id(230),
        wal_file_id: DatabaseFileId::new(2).unwrap(),
        page_store_file_id: DatabaseFileId::new(3).unwrap(),
        completeness_file_id: DatabaseFileId::new(4).unwrap(),
    };
    let (store, header) = FilePageStore::<2>::create_new_database(storage).unwrap();
    let identity: DatabaseFileHeaderIdentity =
        storage.file_header_identity(DatabaseFileRole::PageStore);
    assert_eq!(store.database_file_identity(), Some(identity));
    assert_eq!(store.physical_format_version(), 2);
    assert_eq!(header.len(), 128);
    let opened: LockedFilePageStoreOpen<2> = FilePageStore::<2>::open(&header).unwrap();
    assert!(opened.is_exact_initial_database_file());
    assert_eq!(opened.database_file_identity(), Some(identity));
    assert_eq!(opened.persistent_id(), persistent_id(230));
    assert_eq!(opened.physical_format_version(), 2);
    assert_eq!(
        FilePageStore::<2>::open(&header[..127]).err(),
        Some(store_format_error(
            0,
            PageStoreFormatErrorReason::HeaderTooShort { actual: 127 }
        ))
    );
}

#[test]
fn a_log_and_its_store_open_together() {
    let log: Vec<u8> = LogFile::<2>::create_v3(231).bytes;
    let store: Vec<u8> = StoreFile::<2>::create(231).bytes;
    let (opened_log, opened_store) = open_transaction_page_storage::<2>(&log, &store).unwrap();
    assert_eq!(opened_log.persistent_id(), persistent_id(231));
    assert_eq!(opened_store.persistent_id(), persistent_id(231));
    assert_eq!(
        open_transaction_page_storage::<2>(&[], &[]).err(),
        Some(FileTransactionPageStorageOpenError::CommitLog(format_error(
            0,
            FileFormatErrorReason::HeaderTooShort { actual: 0 }
        )))
    );
    assert_eq!(
        open_transaction_page_storage::<2>(&log, &[]).err(),
        Some(FileTransactionPageStorageOpenError::PageStore(store_format_error(
            0,
            PageStoreFormatErrorReason::HeaderTooShort { actual: 0 }
        )))
    );
}

/// A target of recovery: page 42, logged at 1 and committed at 2.
fn recovery_target(id: u128) -> CommittedPageRecoveryTarget<2> {
    let lineage: LogLineage = LogLineage::persistent(persistent_id(id));
    CommittedPageRecoveryTarget {
        page_number: page_number(42),
        page_version: PageVersion::new(3),
        bytes: [3, 4],
        page_position: lineage.position(1),
        commit_position: lineage.position(2),
    }
}

fn recovery_permit(
    target: &CommittedPageRecoveryTarget<2>,
) -> CommittedTransactionPageRecoveryWritePermit {
    CommittedTransactionPageRecoveryWritePermit {
        page_position: target.page_position,
        commit_position: target.commit_position,
    }
}

#[test]
fn committed_page_recovery_recheck_rejects_target_that_appeared() {
    let mut file: StoreFile<2> = StoreFile::create(502);
    let target: CommittedPageRecoveryTarget<2> = recovery_target(502);
    let permit: CommittedTransactionPageRecoveryWritePermit = recovery_permit(&target);

    let dirty: DirtyPage<2> = dirty_page(502, 42, 3, [3, 4], 1);
    file.write(&dirty, PageWritePermit { position: dirty.required_position }).unwrap();
    file.store.arm_fault(PageStoreFaultPoint::BeforeWrite).unwrap();
    assert_eq!(
        file.store
            .compare_and_replace(&target, permit, Ok(PageSourceComparison::TargetAlreadyPresent))
            .err(),
        Some(FileCommittedPageRecoveryStoreError::SourceNotMatched {
            actual: PageSourceComparison::TargetAlreadyPresent,
        })
    );
    let stored = file.store.page(page_number(42)).unwrap();
    assert_eq!(stored.page_version(), PageVersion::new(3));
    assert_eq!(stored.bytes(), &[3, 4]);
    assert_eq!(stored.required_position().get(), 1);
    assert_eq!(stored.store_sequence(), 1);
    assert_eq!(file.store.armed_fault(), Some(PageStoreFaultPoint::BeforeWrite));
}

#[test]
fn committed_page_recovery_replaces_a_matching_source() {
    let mut file: StoreFile<2> = StoreFile::create(505);
    let target: CommittedPageRecoveryTarget<2> = recovery_target(505);
    let permit: CommittedTransactionPageRecoveryWritePermit = recovery_permit(&target);
    let plan = file
        .store
        .compare_and_replace(&target, permit, Ok(PageSourceComparison::SourceMatches))
        .unwrap();
    carry_out_store(&mut file.bytes, plan.effects());
    file.store.finish_write(plan).unwrap();
    let reopened: StoreFile<2> = StoreFile::open(file.bytes);
    let stored = reopened.store.page(page_number(42)).unwrap();
    assert_eq!(stored.page_version(), PageVersion::new(3));
    assert_eq!(stored.bytes(), &[3, 4]);
    assert_eq!(stored.required_position(), &target.page_position);
}

#[test]
fn committed_page_recovery_checks_positions_and_comparison() {
    let mut file: StoreFile<2> = StoreFile::create(506);
    let target: CommittedPageRecoveryTarget<2> = recovery_target(506);
    let permit: CommittedTransactionPageRecoveryWritePermit = recovery_permit(&target);
    let foreign: LogSequenceNumber = LogLineage::Process(9).position(1);
    let other: LogSequenceNumber = file.store.lineage().position(7);
    let matches: Result<PageSourceComparison, PageSourceContradiction> =
        Ok(PageSourceComparison::SourceMatches);

    let mut bad: CommittedPageRecoveryTarget<2> = target.clone();
    bad.page_position = foreign;
    assert_eq!(
        file.store.compare_and_replace(&bad, permit, matches).err(),
        Some(FileCommittedPageRecoveryStoreError::ForeignTargetPagePosition(foreign))
    );
    bad = target.clone();
    bad.commit_position = foreign;
    assert_eq!(
        file.store.compare_and_replace(&bad, permit, matches).err(),
        Some(FileCommittedPageRecoveryStoreError::ForeignTargetCommitPosition(foreign))
    );
    let mut bad_permit: CommittedTransactionPageRecoveryWritePermit = permit;
    bad_permit.page_position = foreign;
    assert_eq!(
        file.store.compare_and_replace(&target, bad_permit, matches).err(),
        Some(FileCommittedPageRecoveryStoreError::ForeignPermitPagePosition(foreign))
    );
    bad_permit = permit;
    bad_permit.commit_position = foreign;
    assert_eq!(
        file.store.compare_and_replace(&target, bad_permit, matches).err(),
        Some(FileCommittedPageRecoveryStoreError::ForeignPermitCommitPosition(foreign))
    );
    bad_permit = permit;
    bad_permit.page_position = other;
    assert_eq!(
        file.store.compare_and_replace(&target, bad_permit, matches).err(),
        Some(FileCommittedPageRecoveryStoreError::PermitPagePositionMismatch {
            expected: target.page_position,
            actual: other,
        })
    );
    bad_permit = permit;
    bad_permit.commit_position = other;
    assert_eq!(
        file.store.compare_and_replace(&target, bad_permit, matches).err(),
        Some(FileCommittedPageRecoveryStoreError::PermitCommitPositionMismatch {
            expected: target.commit_position,
            actual: other,
        })
    );
    let contradiction: PageSourceContradiction =
        PageSourceContradiction { page_number: page_number(42) };
    assert_eq!(
        file.store.compare_and_replace(&target, permit, Err(contradiction)).err(),
        Some(FileCommittedPageRecoveryStoreError::SourceComparison(contradiction))
    );
    assert_eq!(
        file.store
            .compare_and_replace(&target, permit, Ok(PageSourceComparison::SourceDiffers))
            .err(),
        Some(FileCommittedPageRecoveryStoreError::SourceNotMatched {
            actual: PageSourceComparison::SourceDiffers,
        })
    );
    assert_eq!(
        file.store.replace_committed_page(&target, permit, matches, false).err(),
        Some(FileCommittedPageRecoveryStoreError::PageStore(
            FilePageStoreError::SnapshotCapacityExhausted
        ))
    );
    assert_eq!(file.bytes.len(), HEADER_LENGTH);
}

#[test]
fn a_replayed_page_is_stored_with_or_without_a_commit() {
    let lineage: LogLineage = LogLineage::persistent(persistent_id(507));
    for commit_position in [None, Some(lineage.position(6))] {
        let mut file: StoreFile<2> = StoreFile::create(507);
        let target: RestartCheckpointPageRepairTarget<2> = RestartCheckpointPageRepairTarget {
            page_number: page_number(8),
            page_version: PageVersion::new(2),
            bytes: [5, 6],
            page_position: lineage.position(5),
            commit_position,
        };
        let permit: TransactionRestartCheckpointPageRepairWritePermit =
            TransactionRestartCheckpointPageRepairWritePermit {
                page_position: lineage.position(5),
                commit_position,
            };
        let plan = file
            .store
            .compare_and_replace_replay_page(
                &target,
                permit,
                Ok(PageSourceComparison::SourceMatches),
            )
            .unwrap();
        carry_out_store(&mut file.bytes, plan.effects());
        file.store.finish_write(plan).unwrap();
        let reopened: StoreFile<2> = StoreFile::open(file.bytes);
        assert_eq!(reopened.store.page(page_number(8)).unwrap().bytes(), &[5, 6]);
    }
}

#[test]
fn a_replay_permit_has_to_fit_its_target() {
    let mut file: StoreFile<2> = StoreFile::create(508);
    let lineage: LogLineage = *file.store.lineage();
    let foreign: LogSequenceNumber = LogLineage::Process(9).position(1);
    let target = |page_position: LogSequenceNumber, commit_position: Option<LogSequenceNumber>| {
        RestartCheckpointPageRepairTarget {
            page_number: page_number(8),
            page_version: PageVersion::new(2),
            bytes: [5_u8, 6],
            page_position,
            commit_position,
        }
    };
    let permit = |page_position: LogSequenceNumber, commit_position: Option<LogSequenceNumber>| {
        TransactionRestartCheckpointPageRepairWritePermit { page_position, commit_position }
    };
    let five: LogSequenceNumber = lineage.position(5);
    let six: LogSequenceNumber = lineage.position(6);
    let matches: Result<PageSourceComparison, PageSourceContradiction> =
        Ok(PageSourceComparison::SourceMatches);
    let mut refusal = |target: RestartCheckpointPageRepairTarget<2>,
                       permit: TransactionRestartCheckpointPageRepairWritePermit,
                       comparison: Result<PageSourceComparison, PageSourceContradiction>| {
        file.store.compare_and_replace_replay_page(&target, permit, comparison).unwrap_err()
    };
    assert_eq!(
        refusal(target(foreign, None), permit(five, None), matches),
        FileRestartCheckpointPageRepairStoreError::ForeignTargetPagePosition(foreign)
    );
    assert_eq!(
        refusal(target(five, Some(foreign)), permit(five, None), matches),
        FileRestartCheckpointPageRepairStoreError::ForeignTargetCommitPosition(foreign)
    );
    assert_eq!(
        refusal(target(five, None), permit(foreign, None), matches),
        FileRestartCheckpointPageRepairStoreError::ForeignPermitPagePosition(foreign)
    );
    assert_eq!(
        refusal(target(five, None), permit(five, Some(foreign)), matches),
        FileRestartCheckpointPageRepairStoreError::ForeignPermitCommitPosition(foreign)
    );
    assert_eq!(
        refusal(target(five, None), permit(six, None), matches),
        FileRestartCheckpointPageRepairStoreError::PermitPagePositionMismatch {
            expected: five,
            actual: six,
        }
    );
    assert_eq!(
        refusal(target(five, Some(six)), permit(five, None), matches),
        FileRestartCheckpointPageRepairStoreError::PermitCommitPositionMismatch {
            expected: Some(six),
            actual: None,
        }
    );
    assert_eq!(
        refusal(
            target(five, None),
            permit(five, None),
            Ok(PageSourceComparison::TargetAlreadyPresent)
        ),
        FileRestartCheckpointPageRepairStoreError::SourceNotMatched {
            actual: PageSourceComparison::TargetAlreadyPresent,
        }
    );
    let contradiction: PageSourceContradiction =
        PageSourceContradiction { page_number: page_number(8) };
    assert_eq!(
        refusal(target(five, None), permit(five, None), Err(contradiction)),
        FileRestartCheckpointPageRepairStoreError::SourceComparison(contradiction)
    );
    assert_eq!(
        file.store
            .replace_replay_page(&target(five, None), permit(five, None), matches, false)
            .err(),
        Some(FileRestartCheckpointPageRepairStoreError::PageStore(
            FilePageStoreError::SnapshotCapacityExhausted
        ))
    );
}

#[test]
fn a_page_is_admitted_before_it_is_compared() {
    let mut file: StoreFile<2> = StoreFile::create(511);
    let target: CommittedPageRecoveryTarget<2> = recovery_target(511);
    let permit: CommittedTransactionPageRecoveryWritePermit = recovery_permit(&target);
    assert_eq!(file.store.admit_committed_page(&target, permit), Ok(()));
    let replayed: RestartCheckpointPageRepairTarget<2> = RestartCheckpointPageRepairTarget {
        page_number: page_number(8),
        page_version: PageVersion::new(2),
        bytes: [5_u8, 6],
        page_position: target.page_position,
        commit_position: None,
    };
    let wrong = TransactionRestartCheckpointPageRepairWritePermit {
        page_position: target.commit_position,
        commit_position: None,
    };
    assert_eq!(
        file.store.admit_replay_page(&replayed, wrong),
        Err(FileRestartCheckpointPageRepairStoreError::PermitPagePositionMismatch {
            expected: target.page_position,
            actual: target.commit_position,
        })
    );
    file.poison();
    assert_eq!(
        file.store.admit_committed_page(&target, permit),
        Err(FileCommittedPageRecoveryStoreError::PageStore(FilePageStoreError::PoisonedWriter))
    );
}

#[test]
fn a_poisoned_store_shows_nothing() {
    let mut file: StoreFile<2> = StoreFile::create(509);
    file.poison();
    assert_eq!(
        file.store.observe_page(page_number(1)),
        Err(FileCommittedPageRecoveryObservationError::PoisonedWriter)
    );
    assert_eq!(
        file.store.durable_page_store_inventory(),
        Err(FilePageStoreInventoryError::PoisonedWriter)
    );
    let page: DirtyPage<2> = dirty_page(509, 1, 1, [1, 2], 1);
    assert_eq!(
        file.write(&page, PageWritePermit { position: page.required_position }),
        Err(FilePageStoreError::PoisonedWriter)
    );
    let target: CommittedPageRecoveryTarget<2> = recovery_target(509);
    let permit: CommittedTransactionPageRecoveryWritePermit = recovery_permit(&target);
    assert_eq!(
        file.store
            .compare_and_replace(&target, permit, Ok(PageSourceComparison::SourceMatches))
            .err(),
        Some(FileCommittedPageRecoveryStoreError::PageStore(FilePageStoreError::PoisonedWriter))
    );
}

#[test]
fn an_inventory_without_room_is_refused() {
    let (bytes, _) = store_with_one_page(510);
    let file: StoreFile<2> = StoreFile::open(bytes);
    assert_eq!(
        file.store.list_stored_pages(false),
        Err(FilePageStoreInventoryError::CapacityExhausted { page_count: 1 })
    );
}
