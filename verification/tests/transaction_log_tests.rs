//! Logs with transaction pages: versions 3 to 5, and their use with a page store.
use ntsql_storage_file::bytes::{checksum_v1, read_u16, read_u64};
use ntsql_storage_file::commit_log::recovery::DurableCommitLookup;
use ntsql_storage_file::commit_log::{FileCommitLog, LockedFileCommitLogOpen};
use ntsql_storage_file::database_identity::{
    DatabaseChildIdentityDecodeErrorReason, DatabaseFileHeaderIdentity, DatabaseFileId,
    DatabaseFileIdentity, DatabaseFileRole, DatabaseId, DatabaseStorageIdentity,
};
use ntsql_storage_file::format::{
    LogFormat, PageLayout, FORMAT_VERSION_V3, FRAME_CHECKSUM_OFFSET, FRAME_LENGTH,
    HEADER_CHECKSUM_OFFSET, HEADER_LENGTH, HEADER_V2_PAGE_WIDTH_OFFSET, HEADER_V4_CHECKSUM_OFFSET,
    HEADER_V5_CHECKSUM_OFFSET, HEADER_V5_LENGTH,
};
use ntsql_storage_file::identity::{
    LogLineage, LogSequenceNumber, PageNumber, PageVersion, PersistentLogId, TransactionId,
};
use ntsql_storage_file::log_effect::FileEffect;
use ntsql_storage_file::log_error::{
    FaultPoint, FileCommitLogError, FileCreateError, FileFormatError, FileFormatErrorReason,
    FileIoStage, FileOpenError, FilePageWidthError, FileTransactionEpochError,
    FileTransactionRecoveryError, FramePayloadField,
};
use ntsql_storage_file::log_frame::{
    build_frame, build_frame_with_payload2_bytes, parse_frame, DecodedFrame, FrameKind,
};
use ntsql_storage_file::log_header::{
    build_header_v4, build_header_v5_initial, build_header_v5_reclaimed, parse_header,
    parse_header_v4, parse_header_v5, HeaderExpectation, ReclaimedCoordinates, V4HeaderMetadata,
    V5HeaderMetadata,
};
use ntsql_storage_file::log_open_state::OpenState;
use ntsql_storage_file::log_record::FileLogRecordKind;
use ntsql_storage_file::page::{DirtyPage, PageAddress, PageWritePermit, UnloggedPage};
use ntsql_storage_file::page_store::{FilePageStore, LockedFilePageStoreOpen};
use ntsql_storage_file::page_store_effect::StoreEffect;
use ntsql_storage_file::page_store_error::{
    FilePageStoreError, PageStoreFaultPoint, PageStoreIoStage,
};

/// A log together with the bytes of its file.
struct LogFile<const N: usize> {
    bytes: Vec<u8>,
    log: FileCommitLog<N>,
}

/// At which step a commit failed.
#[derive(Debug, PartialEq)]
enum CommitFailure {
    Append(FileCommitLogError),
    Flush(LogSequenceNumber, FileCommitLogError),
}

/// Numbers the transactions of one epoch.
struct Coordinator {
    epoch: u64,
    next_sequence: u64,
}

#[allow(dead_code)]
impl Coordinator {
    fn open<const N: usize>(file: &mut LogFile<N>) -> Coordinator {
        let epoch: u64 = file.allocate_epoch().expect("an epoch is left");
        Coordinator { epoch, next_sequence: 1 }
    }

    fn begin(&mut self) -> TransactionId {
        let sequence: u64 = self.next_sequence;
        self.next_sequence += 1;
        TransactionId::new(self.epoch, sequence).expect("nonzero numbers")
    }
}

fn carry_out(bytes: &mut Vec<u8>, effects: &Vec<FileEffect>) {
    for effect in effects {
        if let FileEffect::Write { bytes: more, .. } = effect {
            bytes.extend_from_slice(more);
        }
    }
}

/// Cuts a file to the length that its repair asks for.
fn repair<const N: usize>(
    mut bytes: Vec<u8>,
    opened: LockedFileCommitLogOpen<N>,
) -> LogFile<N> {
    if let Some(length) = opened.repaired_len() {
        bytes.truncate(usize::try_from(length).unwrap());
    }
    LogFile { bytes, log: opened.finish() }
}

#[allow(dead_code)]
impl LogFile<0> {
    fn create_v1(id: u128) -> LogFile<0> {
        let (log, bytes) = FileCommitLog::create_new(persistent_id(id));
        LogFile { bytes, log }
    }

    fn open_v1(bytes: Vec<u8>) -> LogFile<0> {
        let opened: LockedFileCommitLogOpen<0> = FileCommitLog::open(&bytes).unwrap();
        repair(bytes, opened)
    }
}

#[allow(dead_code)]
impl<const N: usize> LogFile<N> {
    fn create_v2(id: u128) -> LogFile<N> {
        let (log, bytes) = FileCommitLog::<N>::create_new_page_capable(persistent_id(id)).unwrap();
        LogFile { bytes, log }
    }

    fn create_v3(id: u128) -> LogFile<N> {
        let (log, bytes) =
            FileCommitLog::<N>::create_new_transaction_page_capable(persistent_id(id)).unwrap();
        LogFile { bytes, log }
    }

    fn open_v2(bytes: Vec<u8>) -> LogFile<N> {
        let opened: LockedFileCommitLogOpen<N> =
            FileCommitLog::<N>::open_page_capable(&bytes).unwrap();
        repair(bytes, opened)
    }

    fn open_v3(bytes: Vec<u8>) -> LogFile<N> {
        let opened: LockedFileCommitLogOpen<N> =
            FileCommitLog::<N>::open_transaction_page_capable(&bytes).unwrap();
        repair(bytes, opened)
    }

    fn allocate_epoch(&mut self) -> Result<u64, FileTransactionEpochError> {
        let plan = self.log.allocate_transaction_epoch()?;
        carry_out(&mut self.bytes, plan.effects());
        Ok(self.log.finish_transaction_epoch(plan).0)
    }

    fn append_commit(&mut self, id: TransactionId) -> Result<LogSequenceNumber, FileCommitLogError> {
        let plan = self.log.append_commit(id)?;
        carry_out(&mut self.bytes, plan.effects());
        self.log.finish_append(plan)
    }

    fn append_page<const M: usize>(
        &mut self,
        page: &UnloggedPage<M>,
    ) -> Result<LogSequenceNumber, FileCommitLogError> {
        let plan = self.log.append_page(page)?;
        carry_out(&mut self.bytes, plan.effects());
        self.log.finish_append(plan)
    }

    fn append_transaction_page<const M: usize>(
        &mut self,
        page: &UnloggedPage<M>,
        owner: TransactionId,
    ) -> Result<LogSequenceNumber, FileCommitLogError> {
        let plan = self.log.append_transaction_page(page, owner)?;
        carry_out(&mut self.bytes, plan.effects());
        self.log.finish_append(plan)
    }

    fn flush_through(&mut self, position: &LogSequenceNumber) -> Result<(), FileCommitLogError> {
        match self.log.flush_through(position)? {
            Some(plan) => {
                carry_out(&mut self.bytes, plan.effects());
                self.log.finish_flush(plan)
            }
            None => Ok(()),
        }
    }

    fn commit(&mut self, id: TransactionId) -> Result<LogSequenceNumber, CommitFailure> {
        let position: LogSequenceNumber = self.append_commit(id).map_err(CommitFailure::Append)?;
        self.flush_through(&position)
            .map_err(|error| CommitFailure::Flush(position, error))?;
        Ok(position)
    }

    fn lookup(
        &self,
        id: TransactionId,
    ) -> Result<DurableCommitLookup, FileTransactionRecoveryError> {
        self.log.lookup_durable_commit(id).map(|found| found.1)
    }

    fn poison(&mut self) {
        let _ = self
            .log
            .effect_failed(FileIoStage::SyncEpochFrame, std::io::Error::other("disk is gone"));
    }
}

fn persistent_id(value: u128) -> PersistentLogId {
    PersistentLogId::new(value).expect("nonzero identity")
}

#[allow(dead_code)]
fn page_number(value: u64) -> PageNumber {
    PageNumber::new(value).expect("nonzero page number")
}

#[allow(dead_code)]
fn unlogged_page<const M: usize>(
    lineage: &LogLineage,
    number: u64,
    version: u64,
    bytes: [u8; M],
) -> UnloggedPage<M> {
    UnloggedPage::new(
        PageAddress::new(lineage, page_number(number)),
        PageVersion::new(version),
        bytes,
    )
}

/// Overwrites the eight bytes at `offset` with a big-endian number.
#[allow(dead_code)]
fn write_u64(bytes: &mut [u8], offset: usize, value: u64) {
    bytes[offset..offset + 8].copy_from_slice(&value.to_be_bytes());
}

#[allow(dead_code)]
fn write_u16(bytes: &mut [u8], offset: usize, value: u16) {
    bytes[offset..offset + 2].copy_from_slice(&value.to_be_bytes());
}

/// The file position of frame `index` behind a header of the first three versions.
#[allow(dead_code)]
fn frame_offset(index: usize) -> usize {
    HEADER_LENGTH + FRAME_LENGTH * index
}

#[allow(dead_code)]
fn frame(bytes: &[u8], index: usize) -> &[u8] {
    &bytes[frame_offset(index)..frame_offset(index + 1)]
}

#[allow(dead_code)]
fn format_error(offset: usize, reason: FileFormatErrorReason) -> FileOpenError {
    FileOpenError::Format(FileFormatError::new(u64::try_from(offset).unwrap(), reason))
}

/// A page store together with the bytes of its file.
struct StoreFile<const N: usize> {
    bytes: Vec<u8>,
    store: FilePageStore<N>,
}

fn carry_out_store(bytes: &mut Vec<u8>, effects: &Vec<StoreEffect>) {
    for effect in effects {
        if let StoreEffect::Write { bytes: more, .. } = effect {
            bytes.extend_from_slice(more);
        }
    }
}

#[allow(dead_code)]
impl<const N: usize> StoreFile<N> {
    fn create(id: u128) -> StoreFile<N> {
        let (store, bytes) = FilePageStore::<N>::create_new(persistent_id(id)).unwrap();
        StoreFile { bytes, store }
    }

    fn open(mut bytes: Vec<u8>) -> StoreFile<N> {
        let opened: LockedFilePageStoreOpen<N> = FilePageStore::<N>::open(&bytes).unwrap();
        if let Some(length) = opened.repaired_len() {
            bytes.truncate(usize::try_from(length).unwrap());
        }
        StoreFile { bytes, store: opened.finish() }
    }

    fn write(
        &mut self,
        page: &DirtyPage<N>,
        permit: PageWritePermit,
    ) -> Result<(), FilePageStoreError> {
        let plan = self.store.write_page(page, permit)?;
        carry_out_store(&mut self.bytes, plan.effects());
        self.store.finish_write(plan)
    }

    /// Makes the page's record durable and then stores the page.
    fn flush_page(
        &mut self,
        log: &mut LogFile<N>,
        page: &DirtyPage<N>,
    ) -> Result<(), FilePageStoreError> {
        log.flush_through(&page.required_position).unwrap();
        self.write(page, PageWritePermit { position: page.required_position })
    }

    fn poison(&mut self) {
        let _ = self
            .store
            .effect_failed(PageStoreIoStage::SyncPageGroup, std::io::Error::other("disk is gone"));
    }
}

/// Appends a raw page to the log.
#[allow(dead_code)]
fn stage<const N: usize>(log: &mut LogFile<N>, page: UnloggedPage<N>) -> DirtyPage<N> {
    let position: LogSequenceNumber = log.append_page(&page).unwrap();
    DirtyPage::logged(page, position)
}

/// Appends a transaction's page to the log.
#[allow(dead_code)]
fn stage_owned<const N: usize>(
    log: &mut LogFile<N>,
    page: UnloggedPage<N>,
    owner: TransactionId,
) -> DirtyPage<N> {
    let position: LogSequenceNumber = log.append_transaction_page(&page, owner).unwrap();
    DirtyPage::logged(page, position)
}

fn database_file_header_identity(role: DatabaseFileRole) -> DatabaseFileHeaderIdentity {
    DatabaseFileHeaderIdentity::new(
        DatabaseId::new(0x1112_1314_1516_1718_191a_1b1c_1d1e_1f20).unwrap(),
        DatabaseFileIdentity::new(
            role,
            DatabaseFileId::new(0x2122_2324_2526_2728_292a_2b2c_2d2e_2f30).unwrap(),
        ),
    )
}

fn golden_coordinates() -> ReclaimedCoordinates {
    ReclaimedCoordinates {
        generation: 0x2122_2324_2526_2728,
        retained_first: Some(0x3132_3334_3536_3738),
        logical_high_water: Some(0x4142_4344_4546_4748),
        allocated_epoch_high_water: 0x5152_5354_5556_5758,
        anchor_version: 0x6162,
        anchor_value: 0x7172_7374_7576_7778_797a_7b7c_7d7e_7f80,
    }
}

/// The bytes of a version 3 log in which epoch 1 has been allocated.
fn v3_with_allocated_epoch<const N: usize>(id: u128) -> Vec<u8> {
    let mut file: LogFile<N> = LogFile::create_v3(id);
    Coordinator::open(&mut file);
    file.bytes
}

/// The error on opening such a log with more frames behind it.
fn v3_open_error(id: u128, frames: &[&Vec<u8>]) -> FileOpenError {
    let mut bytes: Vec<u8> = v3_with_allocated_epoch::<10>(id);
    for more in frames {
        bytes.extend_from_slice(more);
    }
    FileCommitLog::<10>::open_transaction_page_capable(&bytes).unwrap_err()
}

fn v3_frame(kind: FrameKind, a: u64, b: u64, c: u64) -> Vec<u8> {
    build_frame(LogFormat::V3, kind, a, b, c)
}

fn v3_data(position: u64, index: u64, chunk: [u8; 8]) -> Vec<u8> {
    build_frame_with_payload2_bytes(LogFormat::V3, FrameKind::PageData, position, index, &chunk)
}

#[test]
fn v3_golden_bytes_cover_owned_page_owner_data_commit_and_marker() {
    let mut file: LogFile<10> = LogFile::create_v3(271);
    let mut coordinator: Coordinator = Coordinator::open(&mut file);
    let owner: TransactionId = coordinator.begin();
    let page: UnloggedPage<10> =
        unlogged_page(file.log.lineage(), 7, 9, [1, 2, 3, 4, 5, 6, 7, 8, 9, 10]);
    let dirty: LogSequenceNumber = file.append_transaction_page(&page, owner).unwrap();
    let committed: LogSequenceNumber = file.commit(owner).unwrap();
    assert_eq!(dirty.get(), 1);
    assert_eq!(committed.get(), 2);

    let bytes: Vec<u8> = file.bytes;
    assert_eq!(bytes.len(), HEADER_LENGTH + FRAME_LENGTH * 7);
    let layout: PageLayout = PageLayout::for_const::<10>().unwrap();
    assert_eq!(
        parse_header(&bytes[..HEADER_LENGTH], HeaderExpectation::V3OrLater(layout)),
        Ok(persistent_id(271))
    );
    assert_eq!(read_u16(&bytes, 8), FORMAT_VERSION_V3);
    assert_eq!(read_u64(&bytes, HEADER_V2_PAGE_WIDTH_OFFSET), 10);
    assert_eq!(read_u64(&bytes, HEADER_CHECKSUM_OFFSET), 0xb458_6dc8_06be_b448);

    let decoded = |index: usize| {
        parse_frame(frame(&bytes, index), frame_offset(index) as u64, LogFormat::V3).unwrap()
    };
    let checksum = |index: usize| read_u64(frame(&bytes, index), FRAME_CHECKSUM_OFFSET);

    assert_eq!(
        decoded(0),
        DecodedFrame {
            kind: FrameKind::EpochAllocation,
            payload0: 1,
            payload1: 0,
            payload2: 0,
            payload2_bytes: 0_u64.to_be_bytes(),
        }
    );
    assert_eq!(checksum(0), 0x73f5_86d9_0b90_6091);

    assert_eq!(
        decoded(1),
        DecodedFrame {
            kind: FrameKind::TransactionPageHeader,
            payload0: 1,
            payload1: 7,
            payload2: 9,
            payload2_bytes: 9_u64.to_be_bytes(),
        }
    );
    assert_eq!(checksum(1), 0x55e6_ed5c_e0e4_afb3);

    assert_eq!(
        decoded(2),
        DecodedFrame {
            kind: FrameKind::TransactionPageOwner,
            payload0: 1,
            payload1: owner.epoch(),
            payload2: owner.sequence(),
            payload2_bytes: owner.sequence().to_be_bytes(),
        }
    );
    assert_eq!(checksum(2), 0xcf49_d22b_674e_bff7);

    assert_eq!(decoded(3).kind, FrameKind::PageData);
    assert_eq!(decoded(3).payload0, 1);
    assert_eq!(decoded(3).payload1, 0);
    assert_eq!(decoded(3).payload2_bytes, [1, 2, 3, 4, 5, 6, 7, 8]);
    assert_eq!(checksum(3), 0x7a1e_fe7d_8c1b_1e37);

    assert_eq!(decoded(4).kind, FrameKind::PageData);
    assert_eq!(decoded(4).payload0, 1);
    assert_eq!(decoded(4).payload1, 1);
    assert_eq!(decoded(4).payload2_bytes, [9, 10, 0, 0, 0, 0, 0, 0]);
    assert_eq!(checksum(4), 0x9f91_16f8_ede9_80cf);

    assert_eq!(
        decoded(5),
        DecodedFrame {
            kind: FrameKind::CommitRecord,
            payload0: 2,
            payload1: owner.epoch(),
            payload2: owner.sequence(),
            payload2_bytes: owner.sequence().to_be_bytes(),
        }
    );
    assert_eq!(checksum(5), 0x1f43_b64d_8069_8d46);

    assert_eq!(
        decoded(6),
        DecodedFrame {
            kind: FrameKind::DurableThrough,
            payload0: 2,
            payload1: 0,
            payload2: 0,
            payload2_bytes: 0_u64.to_be_bytes(),
        }
    );
    assert_eq!(checksum(6), 0xb28e_1b5b_447e_a1a4);
}

#[test]
fn v3_owned_page_and_commit_keep_owner_lookup_and_store_authority_separate() {
    let mut file: LogFile<4> = LogFile::create_v3(277);
    let mut pages: StoreFile<4> = StoreFile::create(277);
    let mut coordinator: Coordinator = Coordinator::open(&mut file);
    let owner: TransactionId = coordinator.begin();
    let page: UnloggedPage<4> = unlogged_page(file.log.lineage(), 15, 5, [7, 8, 9, 10]);

    let dirty: DirtyPage<4> = stage_owned(&mut file, page, owner);
    file.flush_through(&dirty.required_position).unwrap();
    assert_eq!(file.lookup(owner), Ok(DurableCommitLookup::Absent));
    assert!(pages.store.pages().is_empty());

    let record = &file.log.records()[0];
    assert_eq!(record.transaction_epoch(), None);
    assert_eq!(record.transaction_sequence(), None);
    assert_eq!(record.page_owner_transaction_epoch(), Some(owner.epoch()));
    assert_eq!(record.page_owner_transaction_sequence(), Some(owner.sequence()));
    assert!(record.page_owner_matches_transaction_id(owner));
    let owned = record.transaction_page_write().unwrap();
    assert!(owned.matches_transaction_id(owner));
    assert_eq!(owned.page_write().page_number().get(), 15);
    assert_eq!(owned.page_write().page_version().get(), 5);
    assert_eq!(owned.page_write().bytes(), &[7, 8, 9, 10]);
    let observation = record.page_recovery_observation().unwrap().unwrap();
    assert_eq!(observation.position(), &dirty.required_position);
    assert_eq!(observation.bytes(), &[7, 8, 9, 10]);

    let mut file: LogFile<4> = LogFile::open_v3(file.bytes);
    assert_eq!(file.log.records().len(), 1);
    assert_eq!(file.log.durable_records().len(), 1);
    assert!(file.log.records()[0].page_owner_matches_transaction_id(owner));
    assert_eq!(file.lookup(owner), Ok(DurableCommitLookup::Absent));

    let committed: LogSequenceNumber = file.commit(owner).unwrap();
    assert_eq!(dirty.required_position.get(), 1);
    assert_eq!(committed.get(), 2);
    assert_eq!(file.log.durable_records().len(), 2);
    let found: DurableCommitLookup =
        DurableCommitLookup::Found { position: file.log.lineage().position(2) };
    assert_eq!(file.lookup(owner), Ok(found));

    pages.flush_page(&mut file, &dirty).unwrap();
    let stored = pages.store.page(page_number(15)).unwrap();
    assert_eq!(stored.page_version().get(), 5);
    assert_eq!(stored.bytes(), &[7, 8, 9, 10]);

    let reopened: LogFile<4> = LogFile::open_v3(file.bytes);
    let reopened_pages: StoreFile<4> = StoreFile::open(pages.bytes);
    assert_eq!(reopened.log.records().len(), 2);
    assert_eq!(reopened.log.durable_records().len(), 2);
    assert!(reopened.log.records()[0].page_owner_matches_transaction_id(owner));
    assert!(reopened.log.records()[1].matches_transaction_id(owner));
    assert_eq!(reopened.lookup(owner), Ok(found));
    assert_eq!(
        reopened_pages.store.page(page_number(15)).unwrap().bytes(),
        &[7, 8, 9, 10]
    );
}

#[test]
fn v1_and_v2_reject_transaction_pages_before_fault_or_position_effect() {
    let mut v1: LogFile<0> = LogFile::create_v1(281);
    let mut v1_coordinator: Coordinator = Coordinator::open(&mut v1);
    v1.log.arm_fault(FaultPoint::AfterAppend).unwrap();
    let v1_page: UnloggedPage<1> = unlogged_page(v1.log.lineage(), 1, 1, [1]);
    assert_eq!(
        v1.append_transaction_page(&v1_page, v1_coordinator.begin()),
        Err(FileCommitLogError::TransactionPageSupportUnavailable)
    );
    assert!(v1.log.records().is_empty());
    assert_eq!(v1.log.armed_fault(), Some(FaultPoint::AfterAppend));

    let mut v2: LogFile<2> = LogFile::create_v2(283);
    let mut v2_coordinator: Coordinator = Coordinator::open(&mut v2);
    v2.log.arm_fault(FaultPoint::AfterAppend).unwrap();
    let v2_page: UnloggedPage<2> = unlogged_page(v2.log.lineage(), 2, 2, [2, 3]);
    assert_eq!(
        v2.append_transaction_page(&v2_page, v2_coordinator.begin()),
        Err(FileCommitLogError::TransactionPageSupportUnavailable)
    );
    assert!(v2.log.records().is_empty());
    assert_eq!(v2.log.armed_fault(), Some(FaultPoint::AfterAppend));

    let raw_page: UnloggedPage<2> = unlogged_page(v2.log.lineage(), 3, 3, [4, 5]);
    assert_eq!(
        v2.append_page(&raw_page),
        Err(FileCommitLogError::InjectedFault(FaultPoint::AfterAppend))
    );
    assert_eq!(v2.log.records().len(), 1);
    assert_eq!(v2.log.records()[0].position().get(), 1);
}

#[test]
fn v3_transaction_page_append_faults_have_exact_file_and_position_effects() {
    let mut before: LogFile<2> = LogFile::create_v3(287);
    let mut before_coordinator: Coordinator = Coordinator::open(&mut before);
    before.log.arm_fault(FaultPoint::BeforeAppend).unwrap();
    let before_page: UnloggedPage<2> = unlogged_page(before.log.lineage(), 4, 1, [1, 2]);
    assert_eq!(
        before.append_transaction_page(&before_page, before_coordinator.begin()),
        Err(FileCommitLogError::InjectedFault(FaultPoint::BeforeAppend))
    );
    assert!(before.log.records().is_empty());
    assert_eq!(before.bytes.len(), HEADER_LENGTH + FRAME_LENGTH);
    let raw: UnloggedPage<2> = unlogged_page(before.log.lineage(), 5, 2, [3, 4]);
    assert_eq!(before.append_page(&raw).unwrap().get(), 1);
    let reopened_before: LogFile<2> = LogFile::open_v3(before.bytes);
    assert_eq!(reopened_before.log.records().len(), 1);
    assert_eq!(reopened_before.log.records()[0].position().get(), 1);

    let mut after: LogFile<2> = LogFile::create_v3(289);
    let mut after_coordinator: Coordinator = Coordinator::open(&mut after);
    after.log.arm_fault(FaultPoint::AfterAppend).unwrap();
    let owner: TransactionId = after_coordinator.begin();
    let after_page: UnloggedPage<2> = unlogged_page(after.log.lineage(), 6, 3, [5, 6]);
    assert_eq!(
        after.append_transaction_page(&after_page, owner),
        Err(FileCommitLogError::InjectedFault(FaultPoint::AfterAppend))
    );
    assert_eq!(after.log.records().len(), 1);
    assert_eq!(after.log.records()[0].position().get(), 1);
    assert!(after.log.records()[0].page_owner_matches_transaction_id(owner));
    assert_eq!(after.log.durable_records().len(), 0);
    assert_eq!(after.bytes.len(), HEADER_LENGTH + FRAME_LENGTH * 4);

    let mut reopened_after: LogFile<2> = LogFile::open_v3(after.bytes);
    assert_eq!(reopened_after.log.records().len(), 1);
    assert_eq!(reopened_after.log.durable_records().len(), 0);
    assert!(reopened_after.log.records()[0].page_owner_matches_transaction_id(owner));
    let next_page: UnloggedPage<2> = unlogged_page(reopened_after.log.lineage(), 7, 4, [7, 8]);
    assert_eq!(reopened_after.append_page(&next_page).unwrap().get(), 2);
}

#[test]
fn v4_generation_header_has_exact_big_endian_golden_bytes() {
    let id: PersistentLogId = persistent_id(0x0102_0304_0506_0708_090a_0b0c_0d0e_0f10);
    let actual: Vec<u8> = build_header_v4(id, 10, golden_coordinates());
    let expected: [u8; 128] = [
        0x4e, 0x54, 0x53, 0x51, 0x4c, 0x4f, 0x47, 0x31, 0x00, 0x04, 0x00, 0x80, 0x00, 0x00,
        0x00, 0x00, 0x01, 0x02, 0x03, 0x04, 0x05, 0x06, 0x07, 0x08, 0x09, 0x0a, 0x0b, 0x0c,
        0x0d, 0x0e, 0x0f, 0x10, 0x00, 0x00, 0x00, 0x00, 0x00, 0x00, 0x00, 0x0a, 0x21, 0x22,
        0x23, 0x24, 0x25, 0x26, 0x27, 0x28, 0x31, 0x32, 0x33, 0x34, 0x35, 0x36, 0x37, 0x38,
        0x41, 0x42, 0x43, 0x44, 0x45, 0x46, 0x47, 0x48, 0x51, 0x52, 0x53, 0x54, 0x55, 0x56,
        0x57, 0x58, 0x61, 0x62, 0x01, 0x01, 0x00, 0x00, 0x00, 0x00, 0x71, 0x72, 0x73, 0x74,
        0x75, 0x76, 0x77, 0x78, 0x79, 0x7a, 0x7b, 0x7c, 0x7d, 0x7e, 0x7f, 0x80, 0x00, 0x00,
        0x00, 0x00, 0x00, 0x00, 0x00, 0x00, 0x00, 0x00, 0x00, 0x00, 0x00, 0x00, 0x00, 0x00,
        0x00, 0x00, 0x00, 0x00, 0x00, 0x00, 0x00, 0x00, 0x2b, 0x01, 0xc3, 0x42, 0xeb, 0xdc,
        0x97, 0x73,
    ];
    assert_eq!(actual, expected);
    assert_eq!(
        parse_header_v4(&actual, PageLayout::for_const::<10>().unwrap()),
        Ok(V4HeaderMetadata {
            persistent_id: id,
            generation: 0x2122_2324_2526_2728,
            retained_first: Some(0x3132_3334_3536_3738),
            logical_high_water: Some(0x4142_4344_4546_4748),
            allocated_epoch_high_water: 0x5152_5354_5556_5758,
            selected_checkpoint_anchor: (0x6162, 0x7172_7374_7576_7778_797a_7b7c_7d7e_7f80),
        })
    );
}

#[test]
fn v5_database_header_has_exact_golden_bytes_and_survives_reclamation() {
    let id: PersistentLogId = persistent_id(0x0102_0304_0506_0708_090a_0b0c_0d0e_0f10);
    let layout: PageLayout = PageLayout::for_const::<10>().unwrap();
    let identity: DatabaseFileHeaderIdentity = database_file_header_identity(DatabaseFileRole::Wal);
    let initial: Vec<u8> = build_header_v5_initial(id, 10, identity);
    let mut expected: [u8; HEADER_V5_LENGTH] = [0_u8; HEADER_V5_LENGTH];
    expected[..8].copy_from_slice(b"NTSQLOG1");
    expected[8..12].copy_from_slice(&[0, 5, 0, 192]);
    expected[16..32].copy_from_slice(&id.get().to_be_bytes());
    expected[32..40].copy_from_slice(&10_u64.to_be_bytes());
    expected[128..176].copy_from_slice(&[
        0x4e, 0x54, 0x53, 0x51, 0x43, 0x46, 0x49, 0x31, 0x00, 0x01, 0x00, 0x30, 0x01, 0x00,
        0x00, 0x00, 0x11, 0x12, 0x13, 0x14, 0x15, 0x16, 0x17, 0x18, 0x19, 0x1a, 0x1b, 0x1c,
        0x1d, 0x1e, 0x1f, 0x20, 0x21, 0x22, 0x23, 0x24, 0x25, 0x26, 0x27, 0x28, 0x29, 0x2a,
        0x2b, 0x2c, 0x2d, 0x2e, 0x2f, 0x30,
    ]);
    expected[184..192].copy_from_slice(&0xceda_f738_4da6_08cf_u64.to_be_bytes());
    assert_eq!(initial, expected);
    assert_eq!(
        parse_header_v5(&initial, layout),
        Ok(V5HeaderMetadata {
            persistent_id: id,
            generation: 0,
            retained_first: None,
            logical_high_water: None,
            allocated_epoch_high_water: None,
            selected_checkpoint_anchor: None,
            database_file_identity: identity,
        })
    );

    let reclaimed: Vec<u8> = build_header_v5_reclaimed(id, 10, golden_coordinates(), identity);
    assert_eq!(&reclaimed[128..176], &initial[128..176]);
    assert_eq!(read_u64(&reclaimed, HEADER_V5_CHECKSUM_OFFSET), 0xb749_8c55_7b2f_625f);
    let metadata: V5HeaderMetadata = parse_header_v5(&reclaimed, layout).unwrap();
    assert_eq!(metadata.database_file_identity, identity);
    assert_eq!(metadata.generation, 0x2122_2324_2526_2728);

    let mut reserved: Vec<u8> = initial.clone();
    reserved[176] = 1;
    let checksum: u64 = checksum_v1(&reserved[..HEADER_V5_CHECKSUM_OFFSET]);
    write_u64(&mut reserved, HEADER_V5_CHECKSUM_OFFSET, checksum);
    assert!(parse_header_v5(&reserved, layout).is_err());
    let mut bad_checksum: Vec<u8> = initial.clone();
    bad_checksum[HEADER_V5_CHECKSUM_OFFSET] ^= 1;
    assert!(parse_header_v5(&bad_checksum, layout).is_err());
}

#[test]
fn v3_raw_owned_and_commit_records_share_order_and_reopen() {
    let mut file: LogFile<2> = LogFile::create_v3(293);
    let mut coordinator: Coordinator = Coordinator::open(&mut file);
    let raw_page: UnloggedPage<2> = unlogged_page(file.log.lineage(), 8, 1, [1, 2]);
    let raw: LogSequenceNumber = file.append_page(&raw_page).unwrap();
    let owner: TransactionId = coordinator.begin();
    let owned_page: UnloggedPage<2> = unlogged_page(file.log.lineage(), 9, 2, [3, 4]);
    let owned: LogSequenceNumber = file.append_transaction_page(&owned_page, owner).unwrap();
    let committed: LogSequenceNumber = file.commit(owner).unwrap();

    assert_eq!(raw.get(), 1);
    assert_eq!(owned.get(), 2);
    assert_eq!(committed.get(), 3);
    assert_eq!(file.log.records().len(), 3);
    assert_eq!(file.log.durable_records().len(), 3);
    assert!(file.log.records()[0].page_write().is_some());
    assert!(file.log.records()[0].transaction_page_write().is_none());
    assert!(file.log.records()[1].page_owner_matches_transaction_id(owner));
    assert!(file.log.records()[2].matches_transaction_id(owner));

    let reopened: LogFile<2> = LogFile::open_v3(file.bytes);
    assert_eq!(reopened.log.records().len(), 3);
    assert_eq!(reopened.log.durable_records().len(), 3);
    assert_eq!(
        reopened.log.durable_position(),
        Some(reopened.log.lineage().position(3))
    );
    assert!(reopened.log.records()[0].transaction_page_write().is_none());
    assert!(reopened.log.records()[1].page_owner_matches_transaction_id(owner));
    assert!(reopened.log.records()[2].matches_transaction_id(owner));
}

#[test]
fn v3_before_flush_keeps_owned_page_and_commit_volatile_across_reopen() {
    let mut file: LogFile<2> = LogFile::create_v3(299);
    let mut coordinator: Coordinator = Coordinator::open(&mut file);
    let owner: TransactionId = coordinator.begin();
    let page: UnloggedPage<2> = unlogged_page(file.log.lineage(), 10, 3, [8, 9]);
    file.append_transaction_page(&page, owner).unwrap();
    file.log.arm_fault(FaultPoint::BeforeFlush).unwrap();
    assert_eq!(
        file.commit(owner),
        Err(CommitFailure::Flush(
            file.log.lineage().position(2),
            FileCommitLogError::InjectedFault(FaultPoint::BeforeFlush)
        ))
    );
    assert_eq!(file.log.records().len(), 2);
    assert_eq!(file.log.durable_records().len(), 0);

    let reopened: LogFile<2> = LogFile::open_v3(file.bytes);
    assert_eq!(reopened.log.records().len(), 2);
    assert_eq!(reopened.log.durable_records().len(), 0);
    assert!(reopened.log.records()[0].page_owner_matches_transaction_id(owner));
    assert!(reopened.log.records()[1].matches_transaction_id(owner));
    assert_eq!(
        reopened.lookup(owner),
        Err(FileTransactionRecoveryError::VolatileCommitRecord(owner))
    );
}

#[test]
fn v3_scanner_allows_repeated_owned_images_as_format_validity() {
    let mut bytes: Vec<u8> = v3_with_allocated_epoch::<2>(303);
    for (position, image) in [(1_u64, [1_u8, 2]), (2_u64, [3_u8, 4])] {
        bytes.extend_from_slice(&v3_frame(
            FrameKind::TransactionPageHeader,
            position,
            12,
            position,
        ));
        bytes.extend_from_slice(&v3_frame(FrameKind::TransactionPageOwner, position, 1, 1));
        bytes.extend_from_slice(&v3_data(position, 0, [image[0], image[1], 0, 0, 0, 0, 0, 0]));
    }
    let reopened: LogFile<2> = LogFile::open_v3(bytes);
    assert_eq!(reopened.log.records().len(), 2);
    assert_eq!(reopened.log.records()[0].position().get(), 1);
    assert_eq!(reopened.log.records()[1].position().get(), 2);
    assert_eq!(reopened.log.records()[0].page_write().unwrap().bytes(), &[1, 2]);
    assert_eq!(reopened.log.records()[1].page_write().unwrap().bytes(), &[3, 4]);
}

#[test]
fn v3_incomplete_owned_groups_repair_to_the_owned_header() {
    let header: Vec<u8> = v3_frame(FrameKind::TransactionPageHeader, 1, 4, 6);
    let owner: Vec<u8> = v3_frame(FrameKind::TransactionPageOwner, 1, 1, 1);
    let first: Vec<u8> = v3_data(1, 0, [1, 2, 3, 4, 5, 6, 7, 8]);
    let last: Vec<u8> = v3_data(1, 1, [9, 10, 0, 0, 0, 0, 0, 0]);
    let cases: Vec<(Vec<&Vec<u8>>, &[u8])> = vec![
        (vec![&header], &[]),
        (vec![&header, &owner], &[]),
        (vec![&header, &owner, &first], &[]),
        (vec![&header], &owner[..FRAME_LENGTH - 3]),
        (vec![&header, &owner, &first], &last[..FRAME_LENGTH - 5]),
    ];
    for (index, (frames, partial)) in cases.into_iter().enumerate() {
        let mut bytes: Vec<u8> = v3_with_allocated_epoch::<10>(307 + index as u128);
        let intact: usize = bytes.len();
        for more in frames {
            bytes.extend_from_slice(more);
        }
        bytes.extend_from_slice(partial);
        assert!(bytes.len() > intact);

        let mut repaired: LogFile<10> = LogFile::open_v3(bytes);
        assert!(repaired.log.records().is_empty());
        assert_eq!(repaired.log.durable_records().len(), 0);
        assert_eq!(repaired.bytes.len(), intact);
        let raw: UnloggedPage<10> =
            unlogged_page(repaired.log.lineage(), 5, 7, [9, 8, 7, 6, 5, 4, 3, 2, 1, 0]);
        assert_eq!(repaired.append_page(&raw).unwrap().get(), 1);
    }
}

#[test]
fn v3_owner_validation_corruption_never_truncates() {
    let header: Vec<u8> = v3_frame(FrameKind::TransactionPageHeader, 1, 4, 6);
    let owner: Vec<u8> = v3_frame(FrameKind::TransactionPageOwner, 1, 1, 1);
    let owner_with = |position: u64, epoch: u64, sequence: u64| {
        v3_frame(FrameKind::TransactionPageOwner, position, epoch, sequence)
    };

    assert_eq!(
        v3_open_error(313, &[&owner]),
        format_error(
            frame_offset(1) + 4,
            FileFormatErrorReason::TransactionPageOwnerWithoutHeader
        )
    );
    assert_eq!(
        v3_open_error(317, &[&header, &v3_data(1, 0, [1, 2, 3, 4, 5, 6, 7, 8])]),
        format_error(
            frame_offset(2) + 4,
            FileFormatErrorReason::TransactionPageOwnerInterruptedByFrameKind { actual: 5 }
        )
    );
    assert_eq!(
        v3_open_error(319, &[&header, &owner_with(2, 1, 1)]),
        format_error(
            frame_offset(2) + 16,
            FileFormatErrorReason::TransactionPageOwnerParentMismatch { expected: 1, actual: 2 }
        )
    );
    assert_eq!(
        v3_open_error(327, &[&header, &owner_with(0, 1, 1)]),
        format_error(
            frame_offset(2) + 16,
            FileFormatErrorReason::TransactionPageOwnerParentPositionZero
        )
    );
    assert_eq!(
        v3_open_error(331, &[&header, &owner_with(1, 0, 1)]),
        format_error(
            frame_offset(2) + 24,
            FileFormatErrorReason::TransactionPageOwnerEpochZero
        )
    );
    assert_eq!(
        v3_open_error(337, &[&header, &owner_with(1, 2, 1)]),
        format_error(
            frame_offset(2) + 24,
            FileFormatErrorReason::TransactionPageOwnerEpochUnallocated {
                actual: 2,
                highest_allocated: 1,
            }
        )
    );
    assert_eq!(
        v3_open_error(347, &[&header, &owner_with(1, 1, 0)]),
        format_error(
            frame_offset(2) + 32,
            FileFormatErrorReason::TransactionPageOwnerSequenceZero
        )
    );
    assert_eq!(
        v3_open_error(349, &[&header, &owner, &owner]),
        format_error(
            frame_offset(3) + 4,
            FileFormatErrorReason::TransactionPageOwnerDuplicate
        )
    );
    assert_eq!(
        v3_open_error(353, &[&v3_frame(FrameKind::PageHeader, 1, 4, 6), &owner]),
        format_error(
            frame_offset(2) + 4,
            FileFormatErrorReason::TransactionPageOwnerWithoutHeader
        )
    );
}

#[test]
fn v3_owned_data_corruption_never_truncates() {
    let header: Vec<u8> = v3_frame(FrameKind::TransactionPageHeader, 1, 4, 6);
    let owner: Vec<u8> = v3_frame(FrameKind::TransactionPageOwner, 1, 1, 1);
    let first: Vec<u8> = v3_data(1, 0, [1, 2, 3, 4, 5, 6, 7, 8]);

    assert_eq!(
        v3_open_error(
            359,
            &[&header, &owner, &v3_frame(FrameKind::TransactionPageHeader, 2, 5, 7)]
        ),
        format_error(
            frame_offset(3) + 4,
            FileFormatErrorReason::PageDataInterruptedByFrameKind { actual: 6 }
        )
    );
    assert_eq!(
        v3_open_error(
            367,
            &[&header, &owner, &first, &v3_data(1, 1, [9, 10, 1, 0, 0, 0, 0, 0])]
        ),
        format_error(
            frame_offset(4) + 32,
            FileFormatErrorReason::PageDataFinalPaddingNonzero
        )
    );

    let mut corrupted: Vec<u8> = first.clone();
    corrupted[FRAME_CHECKSUM_OFFSET] ^= 0xff;
    assert_eq!(
        v3_open_error(373, &[&header, &owner, &corrupted]),
        format_error(
            frame_offset(3) + FRAME_CHECKSUM_OFFSET,
            FileFormatErrorReason::FrameChecksum {
                expected: checksum_v1(&corrupted[..FRAME_CHECKSUM_OFFSET]),
                actual: read_u64(&corrupted, FRAME_CHECKSUM_OFFSET),
            }
        )
    );
}

#[test]
fn v3_version_and_lock_checks_precede_scan_or_repair() {
    let mut v3: Vec<u8> = LogFile::<2>::create_v3(379).bytes;
    v3.extend_from_slice(&[1, 2, 3]);
    assert_eq!(
        FileCommitLog::<2>::open_page_capable(&v3).err(),
        Some(format_error(8, FileFormatErrorReason::HeaderVersion { actual: 3 }))
    );
    assert_eq!(
        FileCommitLog::<0>::open(&v3).err(),
        Some(format_error(8, FileFormatErrorReason::HeaderVersion { actual: 3 }))
    );
    assert_eq!(
        FileCommitLog::<3>::open_transaction_page_capable(&v3).err(),
        Some(format_error(
            HEADER_V2_PAGE_WIDTH_OFFSET,
            FileFormatErrorReason::HeaderPageWidthMismatch { expected: 3, actual: 2 }
        ))
    );
    assert_eq!(LogFile::<2>::open_v3(v3).bytes.len(), HEADER_LENGTH);

    let mut v2: Vec<u8> = LogFile::<2>::create_v2(383).bytes;
    v2.extend_from_slice(&[4, 5, 6]);
    assert_eq!(
        FileCommitLog::<2>::open_transaction_page_capable(&v2).err(),
        Some(format_error(8, FileFormatErrorReason::HeaderVersion { actual: 2 }))
    );
    assert_eq!(LogFile::<2>::open_v2(v2).bytes.len(), HEADER_LENGTH);
    assert_eq!(
        FileCommitLog::<0>::create_new_transaction_page_capable(persistent_id(387)).err(),
        Some(FileCreateError::PageWidth(FilePageWidthError::Zero))
    );
}

#[test]
fn v3_after_flush_commit_resolution_can_store_the_owned_page() {
    let mut file: LogFile<2> = LogFile::create_v3(389);
    let mut pages: StoreFile<2> = StoreFile::create(389);
    let mut coordinator: Coordinator = Coordinator::open(&mut file);
    let owner: TransactionId = coordinator.begin();
    let page: UnloggedPage<2> = unlogged_page(file.log.lineage(), 11, 3, [2, 4]);
    let dirty: DirtyPage<2> = stage_owned(&mut file, page, owner);
    file.log.arm_fault(FaultPoint::AfterFlush).unwrap();
    let position: LogSequenceNumber = file.log.lineage().position(2);
    assert_eq!(
        file.commit(owner),
        Err(CommitFailure::Flush(
            position,
            FileCommitLogError::InjectedFault(FaultPoint::AfterFlush)
        ))
    );
    assert_eq!(file.log.durable_records().len(), 2);
    assert_eq!(file.lookup(owner), Ok(DurableCommitLookup::Found { position }));
    pages.flush_page(&mut file, &dirty).unwrap();
    assert_eq!(pages.store.page(page_number(11)).unwrap().bytes(), &[2, 4]);
}

#[test]
fn v3_committed_page_store_faults_preserve_terminal_physical_effects() {
    let mut before_log: LogFile<2> = LogFile::create_v3(397);
    let mut before_pages: StoreFile<2> = StoreFile::create(397);
    let mut before_coordinator: Coordinator = Coordinator::open(&mut before_log);
    let before_owner: TransactionId = before_coordinator.begin();
    let page: UnloggedPage<2> = unlogged_page(before_log.log.lineage(), 12, 4, [1, 3]);
    let dirty: DirtyPage<2> = stage_owned(&mut before_log, page, before_owner);
    before_log.commit(before_owner).unwrap();
    before_pages.store.arm_fault(PageStoreFaultPoint::BeforeWrite).unwrap();
    assert_eq!(
        before_pages.flush_page(&mut before_log, &dirty),
        Err(FilePageStoreError::InjectedFault(PageStoreFaultPoint::BeforeWrite))
    );
    assert!(before_pages.store.pages().is_empty());

    let mut after_log: LogFile<2> = LogFile::create_v3(401);
    let mut after_pages: StoreFile<2> = StoreFile::create(401);
    let mut after_coordinator: Coordinator = Coordinator::open(&mut after_log);
    let after_owner: TransactionId = after_coordinator.begin();
    let page: UnloggedPage<2> = unlogged_page(after_log.log.lineage(), 13, 5, [2, 8]);
    let dirty: DirtyPage<2> = stage_owned(&mut after_log, page, after_owner);
    after_log.commit(after_owner).unwrap();
    after_pages.store.arm_fault(PageStoreFaultPoint::AfterWrite).unwrap();
    assert_eq!(
        after_pages.flush_page(&mut after_log, &dirty),
        Err(FilePageStoreError::InjectedFault(PageStoreFaultPoint::AfterWrite))
    );
    assert_eq!(after_pages.store.page(page_number(13)).unwrap().bytes(), &[2, 8]);
}

/// A version 4 header with one byte changed and the checksum put right.
fn v4_refusal(changes: &[(usize, u8)]) -> FileFormatError {
    let mut header: Vec<u8> = build_header_v4(persistent_id(402), 10, golden_coordinates());
    for (offset, value) in changes {
        header[*offset] = *value;
    }
    let checksum: u64 = checksum_v1(&header[..HEADER_V4_CHECKSUM_OFFSET]);
    write_u64(&mut header, HEADER_V4_CHECKSUM_OFFSET, checksum);
    parse_header_v4(&header, PageLayout::for_const::<10>().unwrap()).unwrap_err()
}

#[test]
fn every_field_of_a_version_four_header_is_checked() {
    let zeros = |start: usize, end: usize| {
        (start..end).map(|offset| (offset, 0_u8)).collect::<Vec<(usize, u8)>>()
    };
    let with = |mut changes: Vec<(usize, u8)>, more: (usize, u8)| {
        changes.push(more);
        changes
    };
    assert_eq!(
        v4_refusal(&[(11, 64)]),
        FileFormatError::new(10, FileFormatErrorReason::HeaderV4Length { actual: 64 })
    );
    assert_eq!(
        v4_refusal(&zeros(40, 48)),
        FileFormatError::new(40, FileFormatErrorReason::HeaderV4GenerationZero)
    );
    assert_eq!(
        v4_refusal(&[(74, 2)]),
        FileFormatError::new(
            74,
            FileFormatErrorReason::HeaderV4RetainedFirstPresence { actual: 2 }
        )
    );
    assert_eq!(
        v4_refusal(&[(75, 2)]),
        FileFormatError::new(
            75,
            FileFormatErrorReason::HeaderV4LogicalHighWaterPresence { actual: 2 }
        )
    );
    assert_eq!(
        v4_refusal(&zeros(48, 56)).reason(),
        &FileFormatErrorReason::HeaderV4RetainedFirstZero
    );
    assert_eq!(
        v4_refusal(&zeros(56, 64)).reason(),
        &FileFormatErrorReason::HeaderV4LogicalHighWaterZero
    );
    assert_eq!(
        v4_refusal(&with(zeros(56, 64), (75, 0))).reason(),
        &FileFormatErrorReason::HeaderV4RetainedFirstWithoutHighWater
    );
    assert_eq!(
        v4_refusal(&[(48, 0x99)]).reason(),
        &FileFormatErrorReason::HeaderV4RetainedFirstBeyondHighWater {
            retained_first: 0x9932_3334_3536_3738,
            high_water: 0x4142_4344_4546_4748,
        }
    );
    assert_eq!(
        v4_refusal(&zeros(64, 72)).reason(),
        &FileFormatErrorReason::HeaderV4AllocatedEpochHighWaterZero
    );
    assert_eq!(
        v4_refusal(&zeros(72, 74)).reason(),
        &FileFormatErrorReason::HeaderV4AnchorVersionZero
    );
    assert_eq!(
        v4_refusal(&[(100, 1)]).reason(),
        &FileFormatErrorReason::HeaderV4Reserved
    );
}

#[test]
fn a_version_five_header_carries_a_log_identity() {
    let layout: PageLayout = PageLayout::for_const::<10>().unwrap();
    let refusal = |header: Vec<u8>| *parse_header_v5(&header, layout).unwrap_err().reason();
    let sealed = |mut header: Vec<u8>, offset: usize, value: u8| {
        header[offset] = value;
        let checksum: u64 = checksum_v1(&header[..HEADER_V5_CHECKSUM_OFFSET]);
        write_u64(&mut header, HEADER_V5_CHECKSUM_OFFSET, checksum);
        header
    };
    let initial: Vec<u8> = build_header_v5_initial(
        persistent_id(403),
        10,
        database_file_header_identity(DatabaseFileRole::Wal),
    );
    assert_eq!(
        refusal(sealed(initial.clone(), 11, 128)),
        FileFormatErrorReason::HeaderV5Length { actual: 128 }
    );
    assert_eq!(
        refusal(sealed(initial.clone(), 128, 0)),
        FileFormatErrorReason::HeaderDatabaseChildIdentity(
            DatabaseChildIdentityDecodeErrorReason::Magic
        )
    );
    assert_eq!(
        refusal(sealed(initial, 140, 9)),
        FileFormatErrorReason::HeaderDatabaseChildIdentity(
            DatabaseChildIdentityDecodeErrorReason::Role { actual: 9 }
        )
    );
}

#[test]
fn a_database_log_opens_as_created_and_remembers_its_identity() {
    let storage: DatabaseStorageIdentity = DatabaseStorageIdentity {
        database_id: DatabaseId::new(1).unwrap(),
        persistent_log_id: persistent_id(404),
        wal_file_id: DatabaseFileId::new(2).unwrap(),
        page_store_file_id: DatabaseFileId::new(3).unwrap(),
        completeness_file_id: DatabaseFileId::new(4).unwrap(),
    };
    let (log, header) =
        FileCommitLog::<2>::create_new_database_transaction_page_capable(storage).unwrap();
    let identity: DatabaseFileHeaderIdentity = storage.file_header_identity(DatabaseFileRole::Wal);
    assert_eq!(log.database_file_identity(), Some(identity));
    assert_eq!(log.physical_format_version(), 5);
    assert_eq!(log.generation(), 0);
    assert_eq!(header.len(), HEADER_V5_LENGTH);

    let opened: LockedFileCommitLogOpen<2> =
        FileCommitLog::<2>::open_transaction_page_capable(&header).unwrap();
    assert!(opened.is_exact_initial_database_file());
    assert_eq!(opened.persistent_id(), persistent_id(404));
    assert_eq!(opened.physical_format_version(), 5);
    assert_eq!(opened.database_file_identity(), Some(identity));
    assert_eq!(opened.repaired_len(), None);

    let mut longer: Vec<u8> = header.clone();
    longer.push(0);
    let opened: LockedFileCommitLogOpen<2> =
        FileCommitLog::<2>::open_transaction_page_capable(&longer).unwrap();
    assert!(!opened.is_exact_initial_database_file());
    assert_eq!(opened.repaired_len(), Some(192));
}

#[test]
fn a_frame_with_a_stray_payload_is_refused() {
    assert_eq!(
        v3_open_error(405, &[&v3_frame(FrameKind::EpochAllocation, 2, 7, 0)]),
        format_error(
            frame_offset(1) + 24,
            FileFormatErrorReason::UnexpectedNonzeroPayload {
                field: FramePayloadField::Payload1,
                actual: 7,
            }
        )
    );
    assert_eq!(
        v3_open_error(406, &[&v3_data(1, 0, [0; 8])]),
        format_error(frame_offset(1) + 4, FileFormatErrorReason::PageDataWithoutHeader)
    );
}

#[test]
fn a_version_four_file_holds_what_its_header_promises() {
    let coordinates = |retained: Option<u64>, high: Option<u64>| ReclaimedCoordinates {
        generation: 3,
        retained_first: retained,
        logical_high_water: high,
        allocated_epoch_high_water: 4,
        anchor_version: 1,
        anchor_value: 9,
    };
    let commit = |position: u64| build_frame(LogFormat::V4, FrameKind::CommitRecord, position, 4, 1);
    let marker =
        |position: u64| build_frame(LogFormat::V4, FrameKind::DurableThrough, position, 0, 0);

    let mut bytes: Vec<u8> = build_header_v4(persistent_id(407), 2, coordinates(Some(8), Some(8)));
    assert_eq!(
        FileCommitLog::<2>::open_transaction_page_capable(&bytes).err(),
        Some(format_error(
            128,
            FileFormatErrorReason::HeaderV4LogicalHighWaterMismatch {
                expected: Some(8),
                actual: Some(7),
            }
        ))
    );
    bytes.extend_from_slice(&commit(8));
    assert_eq!(
        FileCommitLog::<2>::open_transaction_page_capable(&bytes).err(),
        Some(format_error(
            48,
            FileFormatErrorReason::HeaderV4RetainedFirstMismatch {
                expected: Some(8),
                actual: None,
            }
        ))
    );
    bytes.extend_from_slice(&marker(8));
    let file: LogFile<2> = LogFile::open_v3(bytes);
    assert_eq!(file.log.generation(), 3);
    assert_eq!(file.log.records().len(), 1);
    assert_eq!(file.log.durable_records().len(), 1);
    assert_eq!(file.log.next_logical_position(), Some(9));
    assert_eq!(file.log.allocated_epoch_high_water(), Some(4));
    assert_eq!(
        file.log.replacement_header_retained_first(),
        Some(file.log.lineage().position(8))
    );
    assert_eq!(
        file.log.replacement_header_logical_high_water(),
        Some(file.log.lineage().position(8))
    );
    assert_eq!(file.log.replacement_header_allocated_epoch_high_water(), Some(4));
}

/// Applies the frames in order and gives what the last of them came to.
fn apply_all(
    state: &mut OpenState<10>,
    frames: &[Vec<u8>],
) -> Result<(), FileOpenError> {
    let mut offset: u64 = 64;
    for frame in frames {
        let decoded: DecodedFrame = parse_frame(frame, offset, LogFormat::V3).unwrap();
        state.apply_frame(decoded, offset, true)?;
        offset += 56;
    }
    Ok(())
}

fn fresh_state() -> OpenState<10> {
    let layout: PageLayout = PageLayout::for_const::<10>().unwrap();
    OpenState::new(LogLineage::persistent(persistent_id(391)), Some(layout), 2, Some(7), 6, None)
}

#[test]
fn the_data_frames_of_a_page_make_one_record() {
    let header: Vec<u8> =
        build_frame(LogFormat::V3, FrameKind::TransactionPageHeader, 7, 5, 3);
    let owner: Vec<u8> = build_frame(LogFormat::V3, FrameKind::TransactionPageOwner, 7, 2, 9);
    let chunk = |index: u64, bytes: [u8; 8]| {
        build_frame_with_payload2_bytes(LogFormat::V3, FrameKind::PageData, 7, index, &bytes)
    };
    let first: Vec<u8> = chunk(0, [1, 2, 3, 4, 5, 6, 7, 8]);
    let last: Vec<u8> = chunk(1, [9, 10, 0, 0, 0, 0, 0, 0]);

    let mut state: OpenState<10> = fresh_state();
    apply_all(&mut state, &[header.clone(), owner.clone(), first.clone()]).unwrap();
    assert!(state.records.is_empty());
    assert_eq!(state.pending_page_header_offset(), Some(64));

    let mut state: OpenState<10> = fresh_state();
    apply_all(&mut state, &[header.clone(), owner.clone(), first.clone(), last]).unwrap();
    assert_eq!(state.records.len(), 1);
    assert_eq!(state.records[0].position().get(), 7);
    match state.records[0].kind() {
        FileLogRecordKind::TransactionPageWrite(owned) => {
            assert_eq!(owned.transaction_epoch(), 2);
            assert_eq!(owned.transaction_sequence(), 9);
            assert_eq!(owned.page_write().bytes(), &[1, 2, 3, 4, 5, 6, 7, 8, 9, 10]);
        }
        _ => panic!("the page has an owner"),
    }
    assert_eq!(state.next_position, Some(8));
    assert_eq!(state.pending_page_header_offset(), None);

    let padded: Vec<u8> = chunk(1, [9, 10, 0, 0, 0, 0, 0, 1]);
    let mut state: OpenState<10> = fresh_state();
    assert_eq!(
        apply_all(&mut state, &[header, owner, first, padded]),
        Err(format_error(
            64 + 3 * 56 + 32,
            FileFormatErrorReason::PageDataFinalPaddingNonzero
        ))
    );
    assert!(state.records.is_empty());
}

#[test]
fn accepted_frames_keep_the_state_sound() {
    let mut state: OpenState<10> = fresh_state();
    let commit = |position: u64, epoch: u64, sequence: u64| {
        build_frame(LogFormat::V3, FrameKind::CommitRecord, position, epoch, sequence)
    };
    let frames: Vec<Vec<u8>> = vec![
        commit(7, 1, 1),
        build_frame(LogFormat::V3, FrameKind::EpochAllocation, 3, 0, 0),
        commit(8, 3, 1),
        build_frame(LogFormat::V3, FrameKind::DurableThrough, 7, 0, 0),
        commit(9, 3, 2),
    ];
    apply_all(&mut state, &frames).unwrap();
    let positions: Vec<u64> =
        state.records.iter().map(|record| record.position().get()).collect();
    assert_eq!(positions, vec![7, 8, 9]);
    assert_eq!(state.next_position, Some(10));
    assert_eq!(state.durable_len, 1);
    assert_eq!(state.last_durable_position, Some(7));
    assert_eq!(state.highest_allocated_epoch, 3);
    assert!(apply_all(&mut state, &[commit(10, 1, 1)]).is_err());
    assert!(apply_all(&mut state, &[commit(10, 4, 1)]).is_err());
    assert_eq!(state.records.len(), 3);
}

#[test]
fn a_frame_near_the_last_offset_is_parsed() {
    let frame: Vec<u8> = build_frame(LogFormat::V3, FrameKind::CommitRecord, 1, 1, 1);
    assert!(parse_frame(&frame, u64::MAX - 48, LogFormat::V3).is_ok());
    let mut damaged: Vec<u8> = frame;
    damaged[55] ^= 1;
    let error: FileFormatError = parse_frame(&damaged, u64::MAX - 48, LogFormat::V3).unwrap_err();
    assert_eq!(error.offset(), u64::MAX);
}

#[test]
fn a_history_with_faults_is_read_back_as_it_was() {
    let mut file: LogFile<10> = LogFile::create_v3(392);
    let lineage: LogLineage = *file.log.lineage();
    let mut coordinator: Coordinator = Coordinator::open(&mut file);
    let owner: TransactionId = coordinator.begin();
    let page: UnloggedPage<10> = unlogged_page(&lineage, 1, 1, [3; 10]);
    file.append_page(&page).unwrap();
    file.log.arm_fault(FaultPoint::BeforeAppend).unwrap();
    assert!(file.append_transaction_page(&page, owner).is_err());
    file.log.arm_fault(FaultPoint::AfterAppend).unwrap();
    assert!(file.append_transaction_page(&page, owner).is_err());
    file.commit(owner).unwrap();
    file.log.arm_fault(FaultPoint::AfterFlush).unwrap();
    assert!(file.commit(coordinator.begin()).is_err());
    file.log.arm_fault(FaultPoint::BeforeFlush).unwrap();
    assert!(file.commit(coordinator.begin()).is_err());
    file.allocate_epoch().unwrap();

    let reopened: LogFile<10> = LogFile::open_v3(file.bytes.clone());
    assert_eq!(reopened.bytes, file.bytes);
    assert_eq!(reopened.log.records().len(), 5);
    assert_eq!(reopened.log.records(), file.log.records());
    assert_eq!(reopened.log.durable_records(), file.log.durable_records());
    assert_eq!(reopened.log.durable_position(), file.log.durable_position());
    assert_eq!(reopened.log.next_logical_position(), file.log.next_logical_position());
    assert_eq!(reopened.log.allocated_epoch_high_water(), file.log.allocated_epoch_high_water());
    assert_eq!(reopened.log.persistent_id(), file.log.persistent_id());
    assert_eq!(*reopened.log.lineage(), lineage);
    assert_eq!(reopened.log.armed_fault(), None);
    assert!(!reopened.log.is_poisoned());
}
