//! What records, observations and identities tell of themselves, call by call.
use vstd::prelude::*;

use crate::commit_log::FileCommitLog;
use crate::database_identity::{
    DatabaseFileHeaderIdentity, DatabaseFileId, DatabaseFileRole, DatabaseId,
    DatabaseStorageIdentity,
};
use crate::format::{copy_chunk, LogFormat, PageLayout};
use crate::identity::{LogSequenceNumber, PageNumber, PersistentLogId, TransactionId};
use crate::log_error::FilePageWidthError;
use crate::log_header::HeaderExpectation;
use crate::log_record::{
    FileLogRecord, FilePageWriteRecord, FileTransactionPageWriteRecord, RecordBody,
    StoredTransactionIdentity,
};
use crate::observation::{
    DurablePageWalObservation, DurableTransactionCommitObservation,
    DurableTransactionCommitObservationFieldsError, DurableTransactionPageObservation,
    DurableTransactionPageObservationBytesError, PageRecoveryObservationBytesError,
    StoredPageSnapshotObservation,
};
use crate::page::{DirtyPage, UnloggedPage};
use crate::page_store_header::PageStoreFormat;
use crate::stored_page::FileStoredPage;

verus! {

/// A record tells an epoch and a sequence of its own exactly where it is a commit, and an
/// owner's exactly where it is a page that a transaction owns.
pub proof fn law_record_names_its_transaction<const N: usize>(
    record: FileLogRecord<N>,
    epoch: Option<u64>,
    sequence: Option<u64>,
    owner_epoch: Option<u64>,
    owner_sequence: Option<u64>,
)
    requires
        call_ensures(FileLogRecord::<N>::transaction_epoch, (&record,), epoch),
        call_ensures(FileLogRecord::<N>::transaction_sequence, (&record,), sequence),
        call_ensures(FileLogRecord::<N>::page_owner_transaction_epoch, (&record,), owner_epoch),
        call_ensures(
            FileLogRecord::<N>::page_owner_transaction_sequence,
            (&record,),
            owner_sequence,
        ),
    ensures
        match record@.body {
            RecordBody::Commit { epoch: e, sequence: s } => epoch == Some(e) && sequence == Some(s)
                && owner_epoch is None && owner_sequence is None,
            RecordBody::Page { .. } => epoch is None && sequence is None && owner_epoch is None
                && owner_sequence is None,
            RecordBody::OwnedPage { epoch: e, sequence: s, .. } => epoch is None && sequence is None
                && owner_epoch == Some(e) && owner_sequence == Some(s),
        },
{
}

/// A record matches a transaction as its commit, or as its page, exactly where it is one
/// and names the whole identity.
pub proof fn law_record_matches_its_transaction<const N: usize>(
    record: FileLogRecord<N>,
    transaction_id: TransactionId,
    is_commit: bool,
    is_owner: bool,
)
    requires
        call_ensures(
            FileLogRecord::<N>::matches_transaction_id,
            (&record, transaction_id),
            is_commit,
        ),
        call_ensures(
            FileLogRecord::<N>::page_owner_matches_transaction_id,
            (&record, transaction_id),
            is_owner,
        ),
    ensures
        is_commit <==> {
            &&& record@.body matches RecordBody::Commit { epoch, sequence }
            &&& epoch == transaction_id.spec_epoch() && sequence == transaction_id.spec_sequence()
        },
        is_owner <==> {
            &&& record@.body matches RecordBody::OwnedPage { epoch, sequence, .. }
            &&& epoch == transaction_id.spec_epoch() && sequence == transaction_id.spec_sequence()
        },
{
}

/// A record gives its page image, raw or owned, and the owned one with its owner; a commit
/// gives neither.
pub proof fn law_record_gives_its_page<const N: usize>(
    record: FileLogRecord<N>,
    page: Option<&FilePageWriteRecord<N>>,
    owned: Option<&FileTransactionPageWriteRecord<N>>,
)
    requires
        call_ensures(FileLogRecord::<N>::page_write, (&record,), page),
        call_ensures(FileLogRecord::<N>::transaction_page_write, (&record,), owned),
    ensures
        match record@.body {
            RecordBody::Commit { .. } => page is None && owned is None,
            RecordBody::Page { page: image } => (page matches Some(page) && page@ == image)
                && owned is None,
            RecordBody::OwnedPage { page: image, .. } => (page matches Some(page) && page@
                == image) && (owned matches Some(owned) && owned@ == record@.body),
        },
{
}

/// A page record is evidence of its image at its position, wherever pages have a width; a
/// commit is no evidence of a page.
pub proof fn law_record_as_page_evidence<const N: usize>(
    record: FileLogRecord<N>,
    result: Result<Option<DurablePageWalObservation<N>>, PageRecoveryObservationBytesError>,
)
    requires
        call_ensures(FileLogRecord::<N>::page_recovery_observation, (&record,), result),
    ensures
        record@.body is Commit ==> result matches Ok(None),
        !(record@.body is Commit) && N == 0 ==> result is Err,
        !(record@.body is Commit) && N > 0 ==> {
            let image = match record@.body {
                RecordBody::OwnedPage { page, .. } => page,
                body => body->Page_page,
            };
            &&& result matches Ok(Some(observation))
            &&& observation.page_number@ == image.number
            &&& observation.page_version.value == image.version
            &&& observation.bytes@ == image.bytes
            &&& observation.position.value == record@.position
            &&& observation.position.lineage == record.spec_lineage()
        },
{
}

/// An owned page is evidence of its image and its owner at its position, unless a number of
/// the owner is zero; no other record is.
pub proof fn law_record_as_owned_page_evidence<const N: usize>(
    record: FileLogRecord<N>,
    result: Result<
        Option<DurableTransactionPageObservation<N>>,
        DurableTransactionPageObservationBytesError,
    >,
)
    requires
        call_ensures(FileLogRecord::<N>::transaction_page_recovery_observation, (&record,), result),
    ensures
        !(record@.body is OwnedPage) ==> result matches Ok(None),
        record@.body matches RecordBody::OwnedPage { epoch, sequence, page } ==> match result {
            Ok(Some(observation)) => {
                &&& epoch != 0 && sequence != 0 && N > 0
                &&& observation.transaction_epoch == epoch
                &&& observation.transaction_sequence == sequence
                &&& observation.page_number@ == page.number
                &&& observation.page_version.value == page.version
                &&& observation.bytes@ == page.bytes
                &&& observation.position.value == record@.position
                &&& observation.position.lineage == record.spec_lineage()
            },
            Ok(None) => false,
            Err(DurableTransactionPageObservationBytesError::OwnerEpochZero) => epoch == 0,
            Err(DurableTransactionPageObservationBytesError::OwnerSequenceZero) => epoch != 0
                && sequence == 0,
            Err(DurableTransactionPageObservationBytesError::ImageWidthZero) => epoch != 0
                && sequence != 0 && N == 0,
        },
{
}

/// A commit is evidence of its transaction at its position, unless one of its numbers is
/// zero; no other record is.
pub proof fn law_record_as_commit_evidence<const N: usize>(
    record: FileLogRecord<N>,
    result: Result<
        Option<DurableTransactionCommitObservation>,
        DurableTransactionCommitObservationFieldsError,
    >,
)
    requires
        call_ensures(
            FileLogRecord::<N>::transaction_commit_recovery_observation,
            (&record,),
            result,
        ),
    ensures
        !(record@.body is Commit) ==> result matches Ok(None),
        record@.body matches RecordBody::Commit { epoch, sequence } ==> match result {
            Ok(Some(observation)) => {
                &&& epoch != 0 && sequence != 0 && record@.position != 0
                &&& observation.transaction_epoch == epoch
                &&& observation.transaction_sequence == sequence
                &&& observation.position.value == record@.position
                &&& observation.position.lineage == record.spec_lineage()
            },
            Ok(None) => false,
            Err(DurableTransactionCommitObservationFieldsError::EpochZero) => epoch == 0,
            Err(DurableTransactionCommitObservationFieldsError::SequenceZero) => epoch != 0
                && sequence == 0,
            Err(DurableTransactionCommitObservationFieldsError::PositionZero) => epoch != 0
                && sequence != 0 && record@.position == 0,
        },
{
}

/// Observations match a transaction by epoch and sequence together.
pub proof fn law_observations_match_whole_identities<const N: usize>(
    page: DurableTransactionPageObservation<N>,
    commit: DurableTransactionCommitObservation,
    stored: StoredTransactionIdentity,
    transaction_id: TransactionId,
    owns: bool,
    committed: bool,
    stored_matches: bool,
)
    requires
        call_ensures(
            DurableTransactionPageObservation::<N>::owner_matches,
            (&page, transaction_id),
            owns,
        ),
        call_ensures(
            DurableTransactionCommitObservation::transaction_matches,
            (&commit, transaction_id),
            committed,
        ),
        call_ensures(StoredTransactionIdentity::matches, (stored, transaction_id), stored_matches),
    ensures
        owns <==> page.transaction_epoch == transaction_id.spec_epoch()
            && page.transaction_sequence == transaction_id.spec_sequence(),
        committed <==> commit.transaction_epoch == transaction_id.spec_epoch()
            && commit.transaction_sequence == transaction_id.spec_sequence(),
        stored_matches <==> stored.epoch == transaction_id.spec_epoch() && stored.sequence
            == transaction_id.spec_sequence(),
{
}

/// A stored page shows its number, version, bytes and required position.
pub proof fn law_stored_page_as_evidence<const N: usize>(
    page: FileStoredPage<N>,
    result: Result<StoredPageSnapshotObservation<N>, PageRecoveryObservationBytesError>,
)
    requires
        call_ensures(FileStoredPage::<N>::page_recovery_observation, (&page,), result),
    ensures
        result is Ok <==> N > 0,
        result matches Ok(observation) ==> {
            &&& observation.page_number@ == page@.number
            &&& observation.page_version.value == page@.version
            &&& observation.bytes@ == page@.bytes
            &&& observation.required_position.value == page@.position
            &&& observation.required_position.lineage == page.spec_lineage()
        },
{
}

/// Every number but zero is an identity, and an identity gives its number back.
pub proof fn law_identities_keep_their_numbers(
    number: u64,
    page: Option<PageNumber>,
    page_value: u64,
    wide: u128,
    log: Option<PersistentLogId>,
    log_value: u128,
    database: Option<DatabaseId>,
    database_value: u128,
    file: Option<DatabaseFileId>,
    file_value: u128,
)
    requires
        call_ensures(PageNumber::new, (number,), page),
        page matches Some(page) ==> call_ensures(PageNumber::get, (&page,), page_value),
        call_ensures(PersistentLogId::new, (wide,), log),
        log matches Some(log) ==> call_ensures(PersistentLogId::get, (&log,), log_value),
        call_ensures(DatabaseId::new, (wide,), database),
        database matches Some(id) ==> call_ensures(DatabaseId::get, (&id,), database_value),
        call_ensures(DatabaseFileId::new, (wide,), file),
        file matches Some(id) ==> call_ensures(DatabaseFileId::get, (&id,), file_value),
    ensures
        page is Some <==> number != 0,
        page is Some ==> page_value == number,
        log is Some <==> wide != 0,
        log is Some ==> log_value == wide,
        database is Some <==> wide != 0,
        database is Some ==> database_value == wide,
        file is Some <==> wide != 0,
        file is Some ==> file_value == wide,
{
}

/// A transaction has an identity exactly where neither its epoch nor its sequence is zero,
/// and the identity gives both back.
pub proof fn law_transaction_keeps_its_numbers(
    epoch: u64,
    sequence: u64,
    id: Option<TransactionId>,
    epoch_value: u64,
    sequence_value: u64,
)
    requires
        call_ensures(TransactionId::new, (epoch, sequence), id),
        id matches Some(id) ==> call_ensures(TransactionId::epoch, (&id,), epoch_value),
        id matches Some(id) ==> call_ensures(TransactionId::sequence, (&id,), sequence_value),
    ensures
        id is Some <==> epoch != 0 && sequence != 0,
        id is Some ==> epoch_value == epoch && sequence_value == sequence,
{
}

/// A page that was logged keeps its place, version and bytes, and requires the position of
/// its record.
pub proof fn law_logged_page<const N: usize>(
    page: UnloggedPage<N>,
    position: LogSequenceNumber,
    dirty: DirtyPage<N>,
)
    requires
        call_ensures(DirtyPage::<N>::logged, (page, position), dirty),
    ensures
        dirty.address == page.address,
        dirty.version == page.version,
        dirty.bytes == page.bytes,
        dirty.required_position == position,
{
}

/// The header of each file of a database carries the database's identity, the role of the
/// file and the identity that belongs to that role.
pub proof fn law_storage_identity_by_role(
    identity: DatabaseStorageIdentity,
    role: DatabaseFileRole,
    header: DatabaseFileHeaderIdentity,
)
    requires
        call_ensures(DatabaseStorageIdentity::file_header_identity, (&identity, role), header),
    ensures
        header.database_id == identity.database_id,
        header.file.role == role,
        role == DatabaseFileRole::Wal ==> header.file.file_id == identity.wal_file_id,
        role == DatabaseFileRole::PageStore ==> header.file.file_id == identity.page_store_file_id,
        role == DatabaseFileRole::Completeness ==> header.file.file_id
            == identity.completeness_file_id,
{
}

/// The byte of a role tells the role, and no byte tells two.
pub proof fn law_role_codes(role: DatabaseFileRole, code: u8, read: Option<DatabaseFileRole>)
    requires
        call_ensures(DatabaseFileRole::code, (role,), code),
        call_ensures(DatabaseFileRole::from_code, (code,), read),
    ensures
        read == Some(role),
        role == DatabaseFileRole::Wal ==> code == 1,
        role == DatabaseFileRole::PageStore ==> code == 2,
        role == DatabaseFileRole::Completeness ==> code == 3,
{
}

/// The formats are numbered from one on. All but the first have pages, and the third and
/// all later ones have pages that transactions own; these share the frames of the third.
pub proof fn law_formats(
    format: LogFormat,
    version: u16,
    frame_version: u16,
    pages: bool,
    transaction_pages: bool,
)
    requires
        call_ensures(LogFormat::version, (format,), version),
        call_ensures(LogFormat::frame_version, (format,), frame_version),
        call_ensures(LogFormat::supports_pages, (format,), pages),
        call_ensures(LogFormat::supports_transaction_pages, (format,), transaction_pages),
    ensures
        match format {
            LogFormat::V1 => version == 1 && frame_version == 1 && !pages && !transaction_pages,
            LogFormat::V2 => version == 2 && frame_version == 2 && pages && !transaction_pages,
            LogFormat::V3 => version == 3 && frame_version == 3 && pages && transaction_pages,
            LogFormat::V4 => version == 4 && frame_version == 3 && pages && transaction_pages,
            LogFormat::V5 => version == 5 && frame_version == 3 && pages && transaction_pages,
        },
{
}

/// A caller that is ready for the first or the second format accepts that one alone, and a
/// caller that is ready for owned pages accepts every format that has them.
pub proof fn law_expectations(
    expectation: HeaderExpectation,
    format: LogFormat,
    accepted: bool,
    layout: Option<PageLayout>,
)
    requires
        call_ensures(HeaderExpectation::accepts, (expectation, format), accepted),
        call_ensures(HeaderExpectation::page_layout, (expectation,), layout),
    ensures
        match expectation {
            HeaderExpectation::V1 => accepted == (format == LogFormat::V1) && layout is None,
            HeaderExpectation::V2(expected) => accepted == (format == LogFormat::V2) && layout
                == Some(expected),
            HeaderExpectation::V3OrLater(expected) => accepted == (format != LogFormat::V1
                && format != LogFormat::V2) && layout == Some(expected),
        },
{
}

/// A page is divided into chunks of eight bytes, of which only the last may be shorter, and
/// none is empty. Only a width of zero, or one too near to the largest number, has no
/// layout.
pub proof fn law_page_layout<const N: usize>(
    result: Result<PageLayout, FilePageWidthError>,
    index: usize,
    count: usize,
)
    requires
        call_ensures(PageLayout::for_const::<N>, (), result),
        result matches Ok(layout) ==> call_ensures(
            PageLayout::logical_bytes_for_chunk,
            (layout, index),
            count,
        ),
    ensures
        result is Ok <==> 0 < N <= usize::MAX - 7,
        result matches Ok(layout) ==> {
            &&& layout.width_u64 == N
            &&& 1 <= layout.final_chunk_len <= 8
            &&& 8 * (layout.chunk_count - 1) + layout.final_chunk_len == N
            &&& index < layout.chunk_count ==> count == (if 8 * index + 8 <= N {
                8int
            } else {
                N - 8 * index
            })
        },
        result matches Err(error) ==> match error {
            FilePageWidthError::Zero => N == 0,
            FilePageWidthError::NotRepresentable { actual } => actual == N && N > usize::MAX - 7,
        },
{
}

/// Byte `8 * index + i` of a page is byte `i` of its chunk `index`; behind the page's end
/// the chunk is zero.
pub proof fn law_chunk_holds_its_bytes(page: &[u8], index: usize, chunk: [u8; 8], i: int)
    requires
        call_ensures(copy_chunk, (page, index), chunk),
        0 <= i < 8,
    ensures
        8 * index + i < page@.len() ==> chunk@[i] == page@[8 * index + i],
        8 * index + i >= page@.len() ==> chunk@[i] == 0,
{
}

/// The two formats of a page store are numbered one and two.
pub proof fn law_store_formats(format: PageStoreFormat, version: u16)
    requires
        call_ensures(PageStoreFormat::version, (format,), version),
    ensures
        format == PageStoreFormat::V1 ==> version == 1,
        format == PageStoreFormat::V2 ==> version == 2,
{
}

/// What a log tells of itself: its format and identity, its generation, its next position,
/// what its header stores of a reclamation, whether it is poisoned, and the armed fault.
pub proof fn law_log_tells_of_itself<const N: usize>(
    log: FileCommitLog<N>,
    version: u16,
    generation: u64,
    next: Option<u64>,
    retained_first: Option<LogSequenceNumber>,
    high_water: Option<LogSequenceNumber>,
    epoch_high_water: Option<u64>,
)
    requires
        call_ensures(FileCommitLog::<N>::physical_format_version, (&log,), version),
        call_ensures(FileCommitLog::<N>::generation, (&log,), generation),
        call_ensures(FileCommitLog::<N>::next_logical_position, (&log,), next),
        call_ensures(
            FileCommitLog::<N>::replacement_header_retained_first,
            (&log,),
            retained_first,
        ),
        call_ensures(
            FileCommitLog::<N>::replacement_header_logical_high_water,
            (&log,),
            high_water,
        ),
        call_ensures(
            FileCommitLog::<N>::replacement_header_allocated_epoch_high_water,
            (&log,),
            epoch_high_water,
        ),
    ensures
        match log@.format {
            LogFormat::V1 => version == 1,
            LogFormat::V2 => version == 2,
            LogFormat::V3 => version == 3,
            LogFormat::V4 => version == 4,
            LogFormat::V5 => version == 5,
        },
        next == log@.next_position,
        match log@.coordinates {
            None => generation == 0 && retained_first is None && high_water is None
                && epoch_high_water is None,
            Some(coordinates) => {
                &&& generation == coordinates.generation
                &&& epoch_high_water == Some(coordinates.allocated_epoch_high_water)
                &&& match coordinates.retained_first {
                    None => retained_first is None,
                    Some(value) => retained_first == Some(
                        LogSequenceNumber { lineage: log.spec_lineage(), value },
                    ),
                }
                &&& match coordinates.logical_high_water {
                    None => high_water is None,
                    Some(value) => high_water == Some(
                        LogSequenceNumber { lineage: log.spec_lineage(), value },
                    ),
                }
            },
        },
{
}

/// How far a log is durable, which of its records are, and the last epoch that it has
/// handed out.
pub proof fn law_log_tells_its_durable_part<const N: usize>(
    log: FileCommitLog<N>,
    records: &[FileLogRecord<N>],
    durable: &[FileLogRecord<N>],
    frontier: Option<LogSequenceNumber>,
    epoch: Option<u64>,
)
    requires
        log.inv(),
        call_ensures(FileCommitLog::<N>::records, (&log,), records),
        call_ensures(FileCommitLog::<N>::durable_records, (&log,), durable),
        call_ensures(FileCommitLog::<N>::durable_position, (&log,), frontier),
        call_ensures(FileCommitLog::<N>::allocated_epoch_high_water, (&log,), epoch),
    ensures
        records@.len() == log@.records.len(),
        forall|i: int|
            0 <= i < records@.len() ==> (#[trigger] records@[i])@ == log@.records[i]
                && records@[i].spec_lineage() == log.spec_lineage(),
        durable@.len() == log@.durable_len,
        forall|i: int|
            0 <= i < durable@.len() ==> (#[trigger] durable@[i])@ == log@.records[i]
                && durable@[i].spec_lineage() == log.spec_lineage(),
        log@.durable_len > 0 ==> frontier == Some(
            LogSequenceNumber {
                lineage: log.spec_lineage(),
                value: log@.records[log@.durable_len - 1].position,
            },
        ),
        log@.durable_len == 0 ==> match (log@.coordinates, frontier) {
            (None, frontier) => frontier is None,
            (Some(coordinates), None) => coordinates.logical_high_water is None,
            (Some(coordinates), Some(frontier)) => coordinates.logical_high_water == Some(
                frontier.value,
            ) && frontier.lineage == log.spec_lineage(),
        },
        match log@.next_epoch {
            None => epoch == Some(u64::MAX),
            Some(next) => if next <= 1 {
                epoch is None
            } else {
                epoch matches Some(epoch) && epoch == next - 1
            },
        },
{
    log.law_durable_records_and_width();
    let models = crate::log_record::record_models(records@);
    let durable_models = crate::log_record::record_models(durable@);
    assert(models.len() == records@.len());
    assert(durable_models.len() == durable@.len());
    assert forall|i: int| 0 <= i < records@.len() implies (#[trigger] records@[i])@
        == log@.records[i] && records@[i].spec_lineage() == log.spec_lineage() by {
        assert(models[i] == log@.records[i]);
    }
    assert forall|i: int| 0 <= i < durable@.len() implies (#[trigger] durable@[i])@
        == log@.records[i] && durable@[i].spec_lineage() == log.spec_lineage() by {
        assert(durable_models[i] == log@.records[i]);
    }
}

} // verus!
