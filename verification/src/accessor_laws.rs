//! What is put into a value is what comes out of it.
use vstd::prelude::*;

use crate::commit_log::{FileCommitLog, LockedFileCommitLogOpen};
use crate::database_identity::{
    DatabaseFileHeaderIdentity, DatabaseFileId, DatabaseFileIdentity, DatabaseFileRole, DatabaseId,
    DatabaseStorageIdentity,
};
use crate::format::LogFormat;
use crate::identity::{
    LogLineage, LogSequenceNumber, PageNumber, PageVersion, PersistentLogId, TransactionId,
};
use crate::io_error::{failure_message, same_io_report};
use crate::log_effect::FileEffect;
use crate::log_error::{
    FaultAlreadyArmed, FaultPoint, FileFormatError, FileFormatErrorReason, FileIoError,
    FileIoStage, FileOpenError,
};
use crate::log_frame::DecodedFrame;
use crate::log_open_state::{find_position, has_commit, OpenState};
use crate::log_record::{
    record_models, FileLogRecord, FileLogRecordKind, FilePageWriteRecord,
    FileTransactionPageWriteRecord, RecordBody, StoredTransactionIdentity,
};
use crate::log_replay::lemma_position_index;
use crate::log_scan::step;
use crate::observation::{
    DurablePageWalObservation, DurableTransactionCommitObservation,
    DurableTransactionPageObservation, PageRecoveryObservationBytesError,
    StoredPageSnapshotObservation,
};
use crate::page::{PageAddress, UnloggedPage};
use crate::page_store::{FilePageStore, LockedFilePageStoreOpen};
use crate::page_store_effect::StoreEffect;
use crate::page_store_error::{
    PageStoreFaultAlreadyArmed, PageStoreFaultPoint, PageStoreFormatError,
    PageStoreFormatErrorReason, PageStoreIoError, PageStoreIoStage, PageStoreOpenError,
};
use crate::page_store_frame::DecodedPageStoreFrame;
use crate::page_store_header::PageStoreFormat;
use crate::page_store_open_state::{find_page, PageStoreOpenState};
use crate::page_store_scan::store_step;
use crate::stored_page::{lemma_page_index, page_models, FileStoredPage};

verus! {

/// A position keeps its lineage and its number, and two lineages are the same exactly where
/// they are of one kind and carry one identity.
pub proof fn law_positions(
    lineage: LogLineage,
    other: LogLineage,
    value: u64,
    position: LogSequenceNumber,
    number: u64,
    kept: &LogLineage,
    same: bool,
)
    requires
        call_ensures(LogLineage::position, (&lineage, value), position),
        call_ensures(LogSequenceNumber::get, (&position,), number),
        call_ensures(LogSequenceNumber::lineage, (&position,), kept),
        call_ensures(LogLineage::same_lineage, (&lineage, &other), same),
    ensures
        number == value,
        *kept == lineage,
        same <==> match (lineage, other) {
            (LogLineage::Persistent(left), LogLineage::Persistent(right)) => left@ == right@,
            (LogLineage::Process(left), LogLineage::Process(right)) => left == right,
            _ => false,
        },
{
    if let (LogLineage::Persistent(left), LogLineage::Persistent(right)) = (lineage, other) {
        if left@ == right@ {
            PersistentLogId::lemma_view_injective(left, right);
        }
    }
}

/// The parts of a page's address, of an unlogged page and of a version are kept, and the
/// lineage of a persistent identity is told by that identity.
pub proof fn law_page_parts<const N: usize>(
    lineage: LogLineage,
    number: PageNumber,
    address: PageAddress,
    value: u64,
    version: PageVersion,
    read: u64,
    bytes: [u8; N],
    page: UnloggedPage<N>,
    id: PersistentLogId,
    persistent: LogLineage,
)
    requires
        call_ensures(PageAddress::new, (&lineage, number), address),
        call_ensures(PageVersion::new, (value,), version),
        call_ensures(PageVersion::get, (&version,), read),
        call_ensures(UnloggedPage::<N>::new, (address, version, bytes), page),
        call_ensures(LogLineage::persistent, (id,), persistent),
    ensures
        address.lineage == lineage && address.number == number,
        read == value,
        page.address == address && page.version.value == value && page.bytes == bytes,
        persistent == LogLineage::Persistent(id),
{
}

/// The parts of a file's identity are kept, and so is the identity of a database's log.
pub proof fn law_file_identity_parts(
    role: DatabaseFileRole,
    file_id: DatabaseFileId,
    file: DatabaseFileIdentity,
    database_id: DatabaseId,
    header: DatabaseFileHeaderIdentity,
    storage: DatabaseStorageIdentity,
    log_id: PersistentLogId,
)
    requires
        call_ensures(DatabaseFileIdentity::new, (role, file_id), file),
        call_ensures(DatabaseFileHeaderIdentity::new, (database_id, file), header),
        call_ensures(DatabaseStorageIdentity::persistent_log_id, (&storage,), log_id),
    ensures
        file.role == role && file.file_id == file_id,
        header.database_id == database_id && header.file == file,
        log_id == storage.persistent_log_id,
{
}

/// A stored identity has the epoch and the sequence of its transaction.
pub proof fn law_stored_identity(
    transaction_id: TransactionId,
    epoch: u64,
    sequence: u64,
    of_transaction: StoredTransactionIdentity,
    of_numbers: StoredTransactionIdentity,
)
    requires
        call_ensures(
            StoredTransactionIdentity::from_transaction_id,
            (transaction_id,),
            of_transaction,
        ),
        call_ensures(
            StoredTransactionIdentity::from_epoch_sequence,
            (epoch, sequence),
            of_numbers,
        ),
    ensures
        of_transaction.epoch == transaction_id.spec_epoch(),
        of_transaction.sequence == transaction_id.spec_sequence(),
        of_numbers.epoch == epoch && of_numbers.sequence == sequence,
{
}

/// What a page image and its owner tell of themselves.
pub proof fn law_page_record_parts<const N: usize>(
    page: FilePageWriteRecord<N>,
    number: PageNumber,
    version: PageVersion,
    borrowed: &[u8; N],
    owned_bytes: [u8; N],
    owned: FileTransactionPageWriteRecord<N>,
    epoch: u64,
    sequence: u64,
    image: &FilePageWriteRecord<N>,
    transaction_id: TransactionId,
    matches_owner: bool,
)
    requires
        call_ensures(FilePageWriteRecord::<N>::page_number, (&page,), number),
        call_ensures(FilePageWriteRecord::<N>::page_version, (&page,), version),
        call_ensures(FilePageWriteRecord::<N>::bytes, (&page,), borrowed),
        call_ensures(FilePageWriteRecord::<N>::into_bytes, (page,), owned_bytes),
        call_ensures(FileTransactionPageWriteRecord::<N>::transaction_epoch, (&owned,), epoch),
        call_ensures(
            FileTransactionPageWriteRecord::<N>::transaction_sequence,
            (&owned,),
            sequence,
        ),
        call_ensures(FileTransactionPageWriteRecord::<N>::page_write, (&owned,), image),
        call_ensures(
            FileTransactionPageWriteRecord::<N>::matches_transaction_id,
            (&owned, transaction_id),
            matches_owner,
        ),
    ensures
        number@ == page@.number,
        version.value == page@.version,
        borrowed@ == page@.bytes && owned_bytes@ == page@.bytes,
        owned@ == (RecordBody::OwnedPage { epoch, sequence, page: image@ }),
        matches_owner <==> epoch == transaction_id.spec_epoch() && sequence
            == transaction_id.spec_sequence(),
{
}

/// A record's position is of its lineage, and its kind is what it holds.
pub proof fn law_record_parts<const N: usize>(
    record: FileLogRecord<N>,
    position: &LogSequenceNumber,
    kind: &FileLogRecordKind<N>,
)
    requires
        call_ensures(FileLogRecord::<N>::position, (&record,), position),
        call_ensures(FileLogRecord::<N>::kind, (&record,), kind),
    ensures
        position.value == record@.position,
        position.lineage == record.spec_lineage(),
        kind@ == record@.body,
{
}

/// The kind of a record tells what the record tells.
pub proof fn law_kind_parts<const N: usize>(
    kind: FileLogRecordKind<N>,
    epoch: Option<u64>,
    sequence: Option<u64>,
    page: Option<&FilePageWriteRecord<N>>,
    owned: Option<&FileTransactionPageWriteRecord<N>>,
    owner_epoch: Option<u64>,
    owner_sequence: Option<u64>,
)
    requires
        call_ensures(FileLogRecordKind::<N>::transaction_epoch, (&kind,), epoch),
        call_ensures(FileLogRecordKind::<N>::transaction_sequence, (&kind,), sequence),
        call_ensures(FileLogRecordKind::<N>::page_write, (&kind,), page),
        call_ensures(FileLogRecordKind::<N>::transaction_page_write, (&kind,), owned),
        call_ensures(
            FileLogRecordKind::<N>::page_owner_transaction_epoch,
            (&kind,),
            owner_epoch,
        ),
        call_ensures(
            FileLogRecordKind::<N>::page_owner_transaction_sequence,
            (&kind,),
            owner_sequence,
        ),
    ensures
        match kind@ {
            RecordBody::Commit { epoch: e, sequence: s } => epoch == Some(e) && sequence == Some(s)
                && page is None && owned is None && owner_epoch is None && owner_sequence is None,
            RecordBody::Page { page: image } => epoch is None && sequence is None && (
            page matches Some(page) && page@ == image) && owned is None && owner_epoch is None
                && owner_sequence is None,
            RecordBody::OwnedPage { epoch: e, sequence: s, page: image } => epoch is None
                && sequence is None && (page matches Some(page) && page@ == image) && (
            owned matches Some(owned) && owned@ == kind@) && owner_epoch == Some(e)
                && owner_sequence == Some(s),
        },
{
}

/// What a stored page tells of itself.
pub proof fn law_stored_page_parts<const N: usize>(
    page: FileStoredPage<N>,
    number: PageNumber,
    version: PageVersion,
    bytes: &[u8; N],
    position: &LogSequenceNumber,
    sequence: u64,
)
    requires
        call_ensures(FileStoredPage::<N>::page_number, (&page,), number),
        call_ensures(FileStoredPage::<N>::page_version, (&page,), version),
        call_ensures(FileStoredPage::<N>::bytes, (&page,), bytes),
        call_ensures(FileStoredPage::<N>::required_position, (&page,), position),
        call_ensures(FileStoredPage::<N>::store_sequence, (&page,), sequence),
    ensures
        number@ == page@.number,
        version.value == page@.version,
        bytes@ == page@.bytes,
        position.value == page@.position && position.lineage == page.spec_lineage(),
        sequence == page@.sequence,
{
}

/// Observations of page images are made of what they are given, wherever pages have a width,
/// and give it back.
pub proof fn law_observation_parts<const N: usize>(
    number: PageNumber,
    version: PageVersion,
    bytes: [u8; N],
    position: LogSequenceNumber,
    logged: Result<DurablePageWalObservation<N>, PageRecoveryObservationBytesError>,
    stored: Result<StoredPageSnapshotObservation<N>, PageRecoveryObservationBytesError>,
)
    requires
        call_ensures(
            DurablePageWalObservation::<N>::from_bytes,
            (number, version, bytes, position),
            logged,
        ),
        call_ensures(
            StoredPageSnapshotObservation::<N>::from_bytes,
            (number, version, bytes, position),
            stored,
        ),
    ensures
        logged is Ok <==> N > 0,
        stored is Ok <==> N > 0,
        logged matches Ok(observation) ==> observation.page_number == number
            && observation.page_version == version && observation.bytes == bytes
            && observation.position == position,
        stored matches Ok(observation) ==> observation.page_number == number
            && observation.page_version == version && observation.bytes == bytes
            && observation.required_position == position,
{
}

/// The accessors of observations give the parts that they are named after.
pub proof fn law_observation_accessors<const N: usize>(
    logged: DurablePageWalObservation<N>,
    owned: DurableTransactionPageObservation<N>,
    commit: DurableTransactionCommitObservation,
    stored: StoredPageSnapshotObservation<N>,
    logged_position: &LogSequenceNumber,
    bytes: &[u8; N],
    owned_position: &LogSequenceNumber,
    commit_position: &LogSequenceNumber,
    number: PageNumber,
)
    requires
        call_ensures(DurablePageWalObservation::<N>::position, (&logged,), logged_position),
        call_ensures(DurablePageWalObservation::<N>::bytes, (&logged,), bytes),
        call_ensures(DurableTransactionPageObservation::<N>::position, (&owned,), owned_position),
        call_ensures(DurableTransactionCommitObservation::position, (&commit,), commit_position),
        call_ensures(StoredPageSnapshotObservation::<N>::page_number, (&stored,), number),
    ensures
        *logged_position == logged.position,
        *bytes == logged.bytes,
        *owned_position == owned.position,
        *commit_position == commit.position,
        number == stored.page_number,
{
}

/// Refusals and failures give back what they were made of.
pub proof fn law_error_parts(
    armed_log: FaultAlreadyArmed,
    armed: FaultPoint,
    requested: FaultPoint,
    armed_store: PageStoreFaultAlreadyArmed,
    store_armed: PageStoreFaultPoint,
    store_requested: PageStoreFaultPoint,
    offset: u64,
    reason: FileFormatErrorReason,
    format: FileFormatError,
    format_offset: u64,
    format_reason: &FileFormatErrorReason,
    store_reason: PageStoreFormatErrorReason,
    store_format: PageStoreFormatError,
    store_format_offset: u64,
    store_format_reason: &PageStoreFormatErrorReason,
)
    requires
        call_ensures(FaultAlreadyArmed::armed, (&armed_log,), armed),
        call_ensures(FaultAlreadyArmed::requested, (&armed_log,), requested),
        call_ensures(PageStoreFaultAlreadyArmed::armed, (&armed_store,), store_armed),
        call_ensures(PageStoreFaultAlreadyArmed::requested, (&armed_store,), store_requested),
        call_ensures(FileFormatError::new, (offset, reason), format),
        call_ensures(FileFormatError::offset, (&format,), format_offset),
        call_ensures(FileFormatError::reason, (&format,), format_reason),
        call_ensures(PageStoreFormatError::new, (offset, store_reason), store_format),
        call_ensures(PageStoreFormatError::offset, (&store_format,), store_format_offset),
        call_ensures(PageStoreFormatError::reason, (&store_format,), store_format_reason),
    ensures
        armed == armed_log.armed && requested == armed_log.requested,
        store_armed == armed_store.armed && store_requested == armed_store.requested,
        format_offset == offset && *format_reason == reason,
        store_format_offset == offset && *store_format_reason == store_reason,
{
}

/// A failure of the operating system keeps its stage and its cause, in the log and in the
/// store, and an effect is reported under its own stage.
pub proof fn law_io_error_parts(
    error: FileIoError,
    stage: FileIoStage,
    source: &std::io::Error,
    store_error: PageStoreIoError,
    store_stage: PageStoreIoStage,
    store_source: &std::io::Error,
    effect: FileEffect,
    effect_stage: FileIoStage,
    store_effect: StoreEffect,
    store_effect_stage: PageStoreIoStage,
)
    requires
        call_ensures(FileIoError::stage, (&error,), stage),
        call_ensures(FileIoError::io_source, (&error,), source),
        call_ensures(PageStoreIoError::stage, (&store_error,), store_stage),
        call_ensures(PageStoreIoError::io_source, (&store_error,), store_source),
        call_ensures(FileEffect::stage, (&effect,), effect_stage),
        call_ensures(StoreEffect::stage, (&store_effect,), store_effect_stage),
    ensures
        stage == error.stage && *source == error.source,
        store_stage == store_error.stage && *store_source == store_error.source,
        match effect {
            FileEffect::Write { stage, .. } => effect_stage == stage,
            FileEffect::Sync { stage } => effect_stage == stage,
        },
        match store_effect {
            StoreEffect::Write { stage, .. } => store_effect_stage == stage,
            StoreEffect::Sync { stage } => store_effect_stage == stage,
        },
{
}

/// Two reports of the operating system are the same exactly where they are of one kind and
/// carry the same error number, or neither carries one. The words of a failure come behind
/// its stage.
pub proof fn law_io_reports(
    same_kind: bool,
    left: Option<i32>,
    right: Option<i32>,
    same: bool,
    stage: String,
    words: String,
    message: String,
)
    requires
        call_ensures(same_io_report, (same_kind, left, right), same),
        call_ensures(failure_message, (&stage, &words), message),
    ensures
        same <==> same_kind && match (left, right) {
            (None, None) => true,
            (Some(left), Some(right)) => left == right,
            _ => false,
        },
        stage@.is_prefix_of(message@),
        message@.len() == stage@.len() + 9 + words@.len(),
        message@.skip(message@.len() - words@.len()) == words@,
{
    reveal_strlit(" failed: ");
    assert(message@.subrange(0, stage@.len() as int) =~= stage@);
    assert(message@.skip(message@.len() - words@.len()) =~= words@);
}

/// What a log that was read from its file tells before it is used, and that it is handed over
/// as it was read.
pub proof fn law_read_log_parts<const N: usize>(
    read: LockedFileCommitLogOpen<N>,
    length: Option<u64>,
    id: PersistentLogId,
    version: u16,
    identity: Option<DatabaseFileHeaderIdentity>,
    log: FileCommitLog<N>,
)
    requires
        call_ensures(LockedFileCommitLogOpen::<N>::repaired_len, (&read,), length),
        call_ensures(LockedFileCommitLogOpen::<N>::persistent_id, (&read,), id),
        call_ensures(LockedFileCommitLogOpen::<N>::physical_format_version, (&read,), version),
        call_ensures(LockedFileCommitLogOpen::<N>::database_file_identity, (&read,), identity),
        call_ensures(LockedFileCommitLogOpen::<N>::finish, (read,), log),
    ensures
        length == read@.repaired_len,
        id@ == read@.log.persistent_id,
        version == (match read@.log.format {
            LogFormat::V1 => 1u16,
            LogFormat::V2 => 2u16,
            LogFormat::V3 => 3u16,
            LogFormat::V4 => 4u16,
            LogFormat::V5 => 5u16,
        }),
        identity is Some <==> read@.log.identity is Some,
        identity matches Some(identity) ==> identity@ == read@.log.identity->0,
        log@ == read@.log,
{
}

/// What a store that was read from its file tells before it is used, and that it is handed
/// over as it was read.
pub proof fn law_read_store_parts<const N: usize>(
    read: LockedFilePageStoreOpen<N>,
    length: Option<u64>,
    id: PersistentLogId,
    version: u16,
    identity: Option<DatabaseFileHeaderIdentity>,
    store: FilePageStore<N>,
)
    requires
        call_ensures(LockedFilePageStoreOpen::<N>::repaired_len, (&read,), length),
        call_ensures(LockedFilePageStoreOpen::<N>::persistent_id, (&read,), id),
        call_ensures(LockedFilePageStoreOpen::<N>::physical_format_version, (&read,), version),
        call_ensures(LockedFilePageStoreOpen::<N>::database_file_identity, (&read,), identity),
        call_ensures(LockedFilePageStoreOpen::<N>::finish, (read,), store),
    ensures
        length == read@.repaired_len,
        id@ == read@.store.persistent_id,
        read@.store.format == PageStoreFormat::V1 ==> version == 1,
        read@.store.format == PageStoreFormat::V2 ==> version == 2,
        identity is Some <==> read@.store.identity is Some,
        identity matches Some(identity) ==> identity@ == read@.store.identity->0,
        store@ == read@.store,
{
}

/// What an open log tells of its identity and of its writer. Its lineage is that of its
/// identity.
pub proof fn law_log_parts<const N: usize>(
    log: FileCommitLog<N>,
    id: PersistentLogId,
    lineage: &LogLineage,
    identity: Option<DatabaseFileHeaderIdentity>,
    fault: Option<FaultPoint>,
    poisoned: bool,
)
    requires
        log.inv(),
        call_ensures(FileCommitLog::<N>::persistent_id, (&log,), id),
        call_ensures(FileCommitLog::<N>::lineage, (&log,), lineage),
        call_ensures(FileCommitLog::<N>::database_file_identity, (&log,), identity),
        call_ensures(FileCommitLog::<N>::armed_fault, (&log,), fault),
        call_ensures(FileCommitLog::<N>::is_poisoned, (&log,), poisoned),
    ensures
        id@ == log@.persistent_id,
        *lineage == LogLineage::Persistent(id),
        identity is Some <==> log@.identity is Some,
        identity matches Some(identity) ==> identity@ == log@.identity->0,
        fault == log@.armed_fault,
        poisoned == log@.poisoned,
{
    log.law_lineage();
}

/// What an open store tells of its identity, of its writer and of its pages.
pub proof fn law_store_parts<const N: usize>(
    store: FilePageStore<N>,
    id: PersistentLogId,
    lineage: &LogLineage,
    version: u16,
    identity: Option<DatabaseFileHeaderIdentity>,
    fault: Option<PageStoreFaultPoint>,
    poisoned: bool,
    pages: &[FileStoredPage<N>],
)
    requires
        store.inv(),
        call_ensures(FilePageStore::<N>::persistent_id, (&store,), id),
        call_ensures(FilePageStore::<N>::lineage, (&store,), lineage),
        call_ensures(FilePageStore::<N>::physical_format_version, (&store,), version),
        call_ensures(FilePageStore::<N>::database_file_identity, (&store,), identity),
        call_ensures(FilePageStore::<N>::armed_fault, (&store,), fault),
        call_ensures(FilePageStore::<N>::is_poisoned, (&store,), poisoned),
        call_ensures(FilePageStore::<N>::pages, (&store,), pages),
    ensures
        id@ == store@.persistent_id,
        *lineage == LogLineage::Persistent(id),
        store@.format == PageStoreFormat::V1 ==> version == 1,
        store@.format == PageStoreFormat::V2 ==> version == 2,
        identity is Some <==> store@.identity is Some,
        identity matches Some(identity) ==> identity@ == store@.identity->0,
        fault == store@.armed_fault,
        poisoned == store@.poisoned,
        pages@.len() == store@.pages.len(),
        forall|i: int|
            0 <= i < pages@.len() ==> (#[trigger] pages@[i])@ == store@.pages[i]
                && pages@[i].spec_lineage() == *lineage,
{
    store.law_lineage();
    let models = page_models(pages@);
    assert(models.len() == pages@.len());
    assert forall|i: int| 0 <= i < pages@.len() implies (#[trigger] pages@[i])@ == store@.pages[i]
        && pages@[i].spec_lineage() == *lineage by {
        assert(models[i] == store@.pages[i]);
    }
}

/// A record is found at its position, a page by its number and a commit by its transaction,
/// exactly where there is one.
pub proof fn law_searches<const N: usize>(
    records: Vec<FileLogRecord<N>>,
    position: u64,
    index: Option<usize>,
    identity: StoredTransactionIdentity,
    committed: bool,
    pages: Vec<FileStoredPage<N>>,
    number: PageNumber,
    place: Option<usize>,
)
    requires
        call_ensures(find_position::<N>, (&records, position), index),
        call_ensures(has_commit::<N>, (&records, identity), committed),
        call_ensures(find_page::<N>, (&pages, number), place),
    ensures
        match index {
            Some(index) => index < records@.len() && records@[index as int]@.position == position,
            None => forall|i: int|
                0 <= i < records@.len() ==> (#[trigger] records@[i])@.position != position,
        },
        committed <==> exists|i: int|
            0 <= i < records@.len() && (#[trigger] records@[i])@.body == (RecordBody::Commit {
                epoch: identity.epoch,
                sequence: identity.sequence,
            }),
        match place {
            Some(place) => place < pages@.len() && pages@[place as int]@.number == number@,
            None => forall|i: int|
                0 <= i < pages@.len() ==> (#[trigger] pages@[i])@.number != number@,
        },
{
    let models = record_models(records@);
    let stored = page_models(pages@);
    lemma_position_index(models, position, 0);
    lemma_page_index(stored, number@, 0);
    if index is None {
        assert forall|i: int| 0 <= i < records@.len() implies (#[trigger] records@[i])@.position
            != position by {
            assert(models[i].position != position);
        }
    }
    if place is None {
        assert forall|i: int| 0 <= i < pages@.len() implies (#[trigger] pages@[i])@.number
            != number@ by {
            assert(stored[i].number != number@);
        }
    }
    if committed {
        let i = choose|i: int|
            0 <= i < models.len() && #[trigger] models[i].is_commit_of(
                identity.epoch,
                identity.sequence,
            );
        assert(records@[i]@.body == (RecordBody::Commit {
            epoch: identity.epoch,
            sequence: identity.sequence,
        }));
    } else {
        assert forall|i: int| 0 <= i < records@.len() implies (#[trigger] records@[i])@.body != (
        RecordBody::Commit { epoch: identity.epoch, sequence: identity.sequence }) by {
            assert(!models[i].is_commit_of(identity.epoch, identity.sequence));
        }
    }
}

/// A frame that is refused, or for whose record or page there is no room, leaves what is known
/// as it was; no other frame is affected by want of room.
pub proof fn law_frames_are_applied_whole<const N: usize>(
    state: &mut OpenState<N>,
    frame: DecodedFrame,
    offset: u64,
    has_room: bool,
    result: Result<(), FileOpenError>,
    store: &mut PageStoreOpenState<N>,
    store_frame: DecodedPageStoreFrame,
    store_result: Result<(), PageStoreOpenError>,
)
    requires
        call_ensures(OpenState::<N>::apply_frame, (state, frame, offset, has_room), result),
        call_ensures(
            PageStoreOpenState::<N>::apply_frame,
            (store, store_frame, offset, has_room),
            store_result,
        ),
    ensures
        result is Err ==> final(state)@ == old(state)@,
        result is Ok ==> step(old(state)@, frame@, offset) == Ok::<_, FileFormatError>(
            final(state)@,
        ) && (has_room || final(state)@.records.len() <= old(state)@.records.len()),
        result matches Err(error) ==> match error {
            FileOpenError::Format(error) => step(old(state)@, frame@, offset) == Err::<
                crate::log_scan::ScanModel,
                _,
            >(error),
            FileOpenError::RecordCapacityExhausted => !has_room && step(
                old(state)@,
                frame@,
                offset,
            ) is Ok,
            _ => false,
        },
        store_result is Err ==> final(store)@ == old(store)@,
        store_result is Ok ==> store_step(old(store)@, store_frame@, offset) == Ok::<
            _,
            PageStoreFormatError,
        >(final(store)@) && (has_room || final(store)@.pages.len() <= old(store)@.pages.len()),
        store_result matches Err(error) ==> match error {
            PageStoreOpenError::Format(error) => store_step(old(store)@, store_frame@, offset)
                == Err::<crate::page_store_scan::StoreScanModel, _>(error),
            PageStoreOpenError::SnapshotCapacityExhausted => !has_room && store_step(
                old(store)@,
                store_frame@,
                offset,
            ) is Ok,
            _ => false,
        },
{
}

} // verus!
