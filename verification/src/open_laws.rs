//! What creating and opening the two files gives, call by call.
use vstd::prelude::*;

use crate::bytes::{be_field, lemma_be_value_bound, lemma_pow256_values};
use crate::commit_log::{FileCommitLog, LockedFileCommitLogOpen};
use crate::database_identity::{ChildIdentityModel, DatabaseFileRole, DatabaseStorageIdentity};
use crate::format::{LogFormat, PageLayout};
use crate::identity::PersistentLogId;
use crate::log_error::{
    FileCreateError, FileFormatError, FileFormatErrorReason, FileOpenError, FilePageWidthError,
};
use crate::log_frame::decoded_frame;
use crate::log_header::{
    announced_header_length, HeaderExpectation, ReclaimedCoordinates,
};
use crate::log_laws::{law_create_database_then_open, law_create_then_open};
use crate::log_model::{
    coverage_error, opened, read_header, repaired_len, LogModel, OpenedModel,
};
use crate::log_scan::{scan, step, ScanModel};
use crate::page_store::{
    open_transaction_page_storage, FilePageStore, LockedFilePageStoreOpen,
};
use crate::page_store_error::{
    FileTransactionPageStorageOpenError, PageStoreCreateError, PageStoreFormatError,
    PageStoreFormatErrorReason, PageStoreOpenError,
};
use crate::page_store_frame::decoded_store_frame;
use crate::page_store_header::{announced_store_header_length, PageStoreFormat};
use crate::page_store_laws::{law_create_database_store_then_open, law_create_store_then_open};
use crate::page_store_scan::{
    opened_store, read_store_header, repaired_store_len, store_scan, store_step, OpenedStoreModel,
    StoreModel, StoreScanModel,
};

verus! {

/// Whether a log is empty: nothing was appended, made durable, allocated or reclaimed yet.
pub open spec fn is_new(log: LogModel) -> bool {
    &&& log.records.len() == 0
    &&& log.durable_len == 0
    &&& log.next_epoch == Some(1u64)
    &&& log.next_position == Some(1u64)
    &&& log.coordinates is None
    &&& log.armed_fault is None
    &&& !log.poisoned
}

/// Whether the child identity is that of the file with this role.
pub open spec fn is_identity_of(
    identity: Option<ChildIdentityModel>,
    storage: DatabaseStorageIdentity,
    role: DatabaseFileRole,
) -> bool {
    &&& identity matches Some(identity)
    &&& identity.database_id == storage.database_id@
    &&& identity.role == role
    &&& identity.file_id == match role {
        DatabaseFileRole::Wal => storage.wal_file_id@,
        DatabaseFileRole::PageStore => storage.page_store_file_id@,
        DatabaseFileRole::Completeness => storage.completeness_file_id@,
    }
}

/// A new log of the first format is empty, and its header is read as that log.
pub proof fn law_create_first_format(
    persistent_id: PersistentLogId,
    created: (FileCommitLog<0>, Vec<u8>),
    bytes: &[u8],
    result: Result<LockedFileCommitLogOpen<0>, FileOpenError>,
)
    requires
        persistent_id@ != 0,
        call_ensures(FileCommitLog::create_new, (persistent_id,), created),
        bytes@ == created.1@,
        call_ensures(FileCommitLog::open, (bytes,), result),
    ensures
        is_new(created.0@),
        created.0@.format == LogFormat::V1,
        created.0@.persistent_id == persistent_id@,
        created.0@.identity is None,
        !(result matches Err(FileOpenError::Format(_))),
        result matches Ok(read) ==> read@.log == created.0@ && read@.repaired_len is None,
{
    law_create_then_open(LogFormat::V1, persistent_id@, 0, HeaderExpectation::V1);
}

/// New logs of the second and third format are empty, and their headers are read as those
/// logs. Only a page width that has no layout is refused.
pub proof fn law_create_page_formats<const N: usize>(
    persistent_id: PersistentLogId,
    second: Result<(FileCommitLog<N>, Vec<u8>), FileCreateError>,
    third: Result<(FileCommitLog<N>, Vec<u8>), FileCreateError>,
    bytes: &[u8],
    second_read: Result<LockedFileCommitLogOpen<N>, FileOpenError>,
    third_read: Result<LockedFileCommitLogOpen<N>, FileOpenError>,
)
    requires
        persistent_id@ != 0,
        call_ensures(FileCommitLog::<N>::create_new_page_capable, (persistent_id,), second),
        call_ensures(
            FileCommitLog::<N>::create_new_transaction_page_capable,
            (persistent_id,),
            third,
        ),
        call_ensures(FileCommitLog::<N>::open_page_capable, (bytes,), second_read),
        call_ensures(FileCommitLog::<N>::open_transaction_page_capable, (bytes,), third_read),
    ensures
        second is Ok <==> 0 < N <= usize::MAX - 7,
        third is Ok <==> 0 < N <= usize::MAX - 7,
        second matches Ok((log, header)) ==> {
            &&& is_new(log@)
            &&& log@.format == LogFormat::V2
            &&& log@.persistent_id == persistent_id@ && log@.identity is None
            &&& bytes@ == header@ ==> !(second_read matches Err(FileOpenError::Format(_)))
            &&& bytes@ == header@ ==> (second_read matches Ok(read) ==> read@.log == log@
                && read@.repaired_len is None)
        },
        third matches Ok((log, header)) ==> {
            &&& is_new(log@)
            &&& log@.format == LogFormat::V3
            &&& log@.persistent_id == persistent_id@ && log@.identity is None
            &&& bytes@ == header@ ==> !(third_read matches Err(FileOpenError::Format(_)))
            &&& bytes@ == header@ ==> (third_read matches Ok(read) ==> read@.log == log@
                && read@.repaired_len is None)
        },
{
    if 0 < N <= usize::MAX - 7 {
        let layout = PageLayout::of(N as nat);
        assert(layout.is_for(N as nat));
        law_create_then_open(
            LogFormat::V2,
            persistent_id@,
            N as nat,
            HeaderExpectation::V2(layout),
        );
        law_create_then_open(
            LogFormat::V3,
            persistent_id@,
            N as nat,
            HeaderExpectation::V3OrLater(layout),
        );
    }
}

/// A new log of a database is empty, carries the identity of the database's log file, and its
/// header is read as that log. It is known to be exactly what the creation leaves behind.
pub proof fn law_create_database_log<const N: usize>(
    storage: DatabaseStorageIdentity,
    created: Result<(FileCommitLog<N>, Vec<u8>), FileCreateError>,
    bytes: &[u8],
    result: Result<LockedFileCommitLogOpen<N>, FileOpenError>,
)
    requires
        storage.persistent_log_id@ != 0,
        storage.database_id@ != 0,
        storage.wal_file_id@ != 0,
        call_ensures(
            FileCommitLog::<N>::create_new_database_transaction_page_capable,
            (storage,),
            created,
        ),
        call_ensures(FileCommitLog::<N>::open_transaction_page_capable, (bytes,), result),
    ensures
        created is Ok <==> 0 < N <= usize::MAX - 7,
        created matches Ok((log, header)) ==> {
            &&& is_new(log@)
            &&& log@.format == LogFormat::V5
            &&& log@.persistent_id == storage.persistent_log_id@
            &&& is_identity_of(log@.identity, storage, DatabaseFileRole::Wal)
            &&& bytes@ == header@ ==> !(result matches Err(FileOpenError::Format(_)))
            &&& bytes@ == header@ ==> (result matches Ok(read) ==> read@.log == log@
                && read@.repaired_len is None)
        },
{
    if 0 < N <= usize::MAX - 7 {
        let layout = PageLayout::of(N as nat);
        assert(layout.is_for(N as nat));
        law_create_database_then_open(
            storage.persistent_log_id@,
            N as nat,
            storage.spec_file_header_identity(DatabaseFileRole::Wal)@,
            HeaderExpectation::V3OrLater(layout),
        );
    }
}

/// A file is exactly what the creation of a database's log leaves behind where it is of the
/// fifth format, nothing has to be cut off it, and the log in it is new.
pub proof fn law_initial_database_log<const N: usize>(
    read: LockedFileCommitLogOpen<N>,
    exact: bool,
    length: Option<u64>,
)
    requires
        call_ensures(
            LockedFileCommitLogOpen::<N>::is_exact_initial_database_file,
            (&read,),
            exact,
        ),
        call_ensures(LockedFileCommitLogOpen::<N>::repaired_len, (&read,), length),
        read@.log.armed_fault is None,
        !read@.log.poisoned,
    ensures
        exact <==> read@.log.format == LogFormat::V5 && is_new(read@.log) && length is None,
{
}

proof fn lemma_prefix_fields(bytes: Seq<u8>, length: int)
    requires
        64 <= length <= bytes.len(),
    ensures
        be_field(bytes.take(length), 8, 2) == be_field(bytes, 8, 2),
        be_field(bytes.take(length), 16, 16) == be_field(bytes, 16, 16),
        be_field(bytes.take(length), 32, 8) == be_field(bytes, 32, 8),
        be_field(bytes, 8, 2) <= u16::MAX,
        be_field(bytes, 16, 16) <= u128::MAX,
        be_field(bytes, 32, 8) <= u64::MAX,
{
    lemma_pow256_values();
    assert(bytes.take(length).subrange(8, 10) =~= bytes.subrange(8, 10));
    assert(bytes.take(length).subrange(16, 32) =~= bytes.subrange(16, 32));
    assert(bytes.take(length).subrange(32, 40) =~= bytes.subrange(32, 40));
    lemma_be_value_bound(bytes.subrange(8, 10));
    lemma_be_value_bound(bytes.subrange(16, 32));
    lemma_be_value_bound(bytes.subrange(32, 40));
}

/// Whether a log is what a file with these bytes says of it in its header: the format by its
/// version, the lineage, and the page width.
pub open spec fn is_headed(log: LogModel, bytes: Seq<u8>) -> bool {
    &&& be_field(bytes, 8, 2) == (match log.format {
        LogFormat::V1 => 1nat,
        LogFormat::V2 => 2nat,
        LogFormat::V3 => 3nat,
        LogFormat::V4 => 4nat,
        LogFormat::V5 => 5nat,
    })
    &&& bytes.len() >= (match log.format {
        LogFormat::V4 => 128nat,
        LogFormat::V5 => 192nat,
        _ => 64nat,
    })
    &&& log.persistent_id == be_field(bytes, 16, 16) && log.persistent_id != 0
    &&& log.format != LogFormat::V1 ==> be_field(bytes, 32, 8) == log.width
    &&& log.armed_fault is None && !log.poisoned
    &&& match log.format {
        LogFormat::V4 => log.coordinates is Some && log.identity is None,
        LogFormat::V5 => log.identity is Some && (log.coordinates is Some <==> bytes[76] == 1),
        _ => log.coordinates is None && log.identity is None,
    }
}

proof fn lemma_opened_is_headed(
    bytes: Seq<u8>,
    expectation: HeaderExpectation,
    width: nat,
    model: OpenedModel,
)
    requires
        opened(bytes, expectation, width) == Ok::<_, FileFormatError>(model),
        expectation.spec_page_layout() matches Some(layout) ==> layout.width_u64 == width,
    ensures
        be_field(bytes, 32, 8) == width || model.log.format == LogFormat::V1,
        model.log.width == width ==> is_headed(model.log, bytes),
        match expectation {
            HeaderExpectation::V1 => model.log.format == LogFormat::V1,
            HeaderExpectation::V2(_) => model.log.format == LogFormat::V2,
            HeaderExpectation::V3OrLater(_) => model.log.format == LogFormat::V3
                || model.log.format == LogFormat::V4 || model.log.format == LogFormat::V5,
        },
{
    reveal(read_header);
    let version = be_field(bytes, 8, 2);
    if bytes.len() >= 64 {
        lemma_prefix_fields(bytes, 64);
    }
    if bytes.len() >= 128 {
        lemma_prefix_fields(bytes, 128);
    }
    if bytes.len() >= 192 {
        lemma_prefix_fields(bytes, 192);
        assert(bytes.take(192)[76] == bytes[76]);
    }
}

proof fn lemma_opened_width(
    bytes: Seq<u8>,
    expectation: HeaderExpectation,
    width: nat,
    model: OpenedModel,
)
    requires
        opened(bytes, expectation, width) == Ok::<_, FileFormatError>(model),
        width <= usize::MAX - 7,
        expectation.spec_page_layout() matches Some(layout) ==> layout.is_for(width),
    ensures
        model.log.width == width,
{
    let header = read_header(bytes, expectation)->Ok_0;
    let has_layout = expectation.spec_page_layout() is Some;
    crate::log_replay::lemma_initial_coherent(header.coordinates, has_layout, width);
    crate::log_replay::lemma_scan_coherent(
        header.coordinates,
        crate::log_model::initial_scan(header.coordinates, has_layout, width),
        bytes,
        header.length,
        header.format,
    );
}

/// The three ways to open a log accept the first format, the second, and every later one, and
/// nothing else. What is opened is what the file's header says.
pub proof fn law_opened_log_is_headed<const N: usize>(
    bytes: &[u8],
    first: Result<LockedFileCommitLogOpen<0>, FileOpenError>,
    second: Result<LockedFileCommitLogOpen<N>, FileOpenError>,
    third: Result<LockedFileCommitLogOpen<N>, FileOpenError>,
)
    requires
        call_ensures(FileCommitLog::open, (bytes,), first),
        call_ensures(FileCommitLog::<N>::open_page_capable, (bytes,), second),
        call_ensures(FileCommitLog::<N>::open_transaction_page_capable, (bytes,), third),
    ensures
        first matches Ok(read) ==> read@.log.format == LogFormat::V1 && is_headed(
            read@.log,
            bytes@,
        ),
        second matches Ok(read) ==> read@.log.format == LogFormat::V2 && is_headed(
            read@.log,
            bytes@,
        ) && read@.log.width == N && N > 0,
        third matches Ok(read) ==> read@.log.format != LogFormat::V1 && read@.log.format
            != LogFormat::V2 && is_headed(read@.log, bytes@) && read@.log.width == N && N > 0,
{
    if let Ok(read) = first {
        lemma_opened_width(bytes@, HeaderExpectation::V1, 0, read@);
        lemma_opened_is_headed(bytes@, HeaderExpectation::V1, 0, read@);
    }
    let layout = PageLayout::of(N as nat);
    if 0 < N <= usize::MAX - 7 {
        assert(layout.is_for(N as nat));
    }
    if let Ok(read) = second {
        lemma_opened_width(bytes@, HeaderExpectation::V2(layout), N as nat, read@);
        lemma_opened_is_headed(bytes@, HeaderExpectation::V2(layout), N as nat, read@);
    }
    if let Ok(read) = third {
        lemma_opened_width(bytes@, HeaderExpectation::V3OrLater(layout), N as nat, read@);
        lemma_opened_is_headed(bytes@, HeaderExpectation::V3OrLater(layout), N as nat, read@);
    }
}

/// A file that ends within its header is refused, with its length.
pub proof fn law_short_log_is_refused<const N: usize>(
    bytes: &[u8],
    result: Result<LockedFileCommitLogOpen<N>, FileOpenError>,
)
    requires
        0 < N <= usize::MAX - 7,
        call_ensures(FileCommitLog::<N>::open_transaction_page_capable, (bytes,), result),
        bytes@.len() < 64 || be_field(bytes@, 8, 2) == 4 && bytes@.len() < 128 || be_field(
            bytes@,
            8,
            2,
        ) == 5 && bytes@.len() < 192,
    ensures
        result matches Err(FileOpenError::Format(error)) && error.offset == 0 && (
        error.reason matches FileFormatErrorReason::HeaderTooShort { actual } && (bytes@.len()
            <= u64::MAX ==> actual == bytes@.len())),
{
    reveal(read_header);
    assert(PageLayout::of(N as nat).is_for(N as nat));
    if bytes@.len() >= 64 {
        lemma_prefix_fields(bytes@, 64);
    }
}

/// A page width that has no layout is refused before the file is looked at.
pub proof fn law_page_width_is_checked_first<const N: usize>(
    bytes: &[u8],
    second: Result<LockedFileCommitLogOpen<N>, FileOpenError>,
    third: Result<LockedFileCommitLogOpen<N>, FileOpenError>,
    store: Result<LockedFilePageStoreOpen<N>, PageStoreOpenError>,
)
    requires
        call_ensures(FileCommitLog::<N>::open_page_capable, (bytes,), second),
        call_ensures(FileCommitLog::<N>::open_transaction_page_capable, (bytes,), third),
        call_ensures(FilePageStore::<N>::open, (bytes,), store),
    ensures
        (second matches Err(FileOpenError::PageWidth(_))) <==> N == 0 || N > usize::MAX - 7,
        (third matches Err(FileOpenError::PageWidth(_))) <==> N == 0 || N > usize::MAX - 7,
        (store matches Err(PageStoreOpenError::PageWidth(_))) <==> N == 0 || N > usize::MAX - 7,
        N == 0 ==> (third matches Err(FileOpenError::PageWidth(FilePageWidthError::Zero))),
{
}

/// How long the header of a log is, by its version.
pub proof fn law_announced_header_lengths(bytes: &[u8], length: usize, store_length: usize)
    requires
        bytes@.len() >= 10,
        call_ensures(announced_header_length, (bytes,), length),
        call_ensures(announced_store_header_length, (bytes,), store_length),
    ensures
        be_field(bytes@, 8, 2) == 5 ==> length == 192,
        be_field(bytes@, 8, 2) == 4 ==> length == 128,
        be_field(bytes@, 8, 2) != 4 && be_field(bytes@, 8, 2) != 5 ==> length == 64,
        be_field(bytes@, 8, 2) == 2 ==> store_length == 128,
        be_field(bytes@, 8, 2) != 2 ==> store_length == 64,
{
    lemma_pow256_values();
    lemma_be_value_bound(bytes@.subrange(8, 10));
}

/// The records of a reclaimed file are accepted exactly where they are what its header
/// promises: the first durable record stands at the retained first position, and the log is
/// durable through the high water.
pub proof fn law_records_cover_the_promise(
    coordinates: ReclaimedCoordinates,
    end: ScanModel,
    frames_end: u64,
)
    ensures
        coverage_error(None, end, frames_end) is None,
        coverage_error(Some(coordinates), end, frames_end) is None <==> {
            &&& coordinates.logical_high_water matches Some(high) ==> {
                &&& end.last_completed >= high
                &&& end.last_durable matches Some(durable) && durable >= high
            }
            &&& coordinates.retained_first matches Some(first) ==> end.durable_len > 0
                && end.records[0].position == first
        },
        coverage_error(Some(coordinates), end, frames_end) matches Some(error)
            ==> match error.reason {
            FileFormatErrorReason::HeaderV4LogicalHighWaterMismatch { expected, actual } => {
                &&& expected == coordinates.logical_high_water && expected is Some
                &&& error.offset == 56 && actual == end.last_durable || error.offset == frames_end
                    && actual == (if end.last_completed == 0 {
                    None
                } else {
                    Some(end.last_completed)
                })
                &&& actual matches Some(actual) ==> actual < expected->0
            },
            FileFormatErrorReason::HeaderV4RetainedFirstMismatch { expected, actual } => {
                &&& error.offset == 48 && expected == coordinates.retained_first
                &&& expected is Some && actual != expected
                &&& actual == (if end.durable_len > 0 {
                    Some(end.records[0].position)
                } else {
                    None
                })
            },
            _ => false,
        },
        coverage_error(Some(coordinates), end, frames_end) matches Some(error) ==> {
            let short = coordinates.logical_high_water matches Some(high) && end.last_completed
                < high;
            let misplaced = coordinates.retained_first matches Some(first) && !(end.durable_len > 0
                && end.records[0].position == first);
            &&& short ==> error.offset == frames_end
            &&& !short && misplaced ==> error.reason is HeaderV4RetainedFirstMismatch
            &&& !short && !misplaced ==> error.offset == 56
        },
{
}

/// What has to be cut off a file is the unfinished group, from its header on, or else the
/// unfinished frame; a file of whole frames is left as it is.
pub proof fn law_cut_is_at_a_frame(header_length: nat, total: nat, end: ScanModel)
    requires
        header_length <= total <= u64::MAX,
    ensures
        end.pending matches Some(pending) ==> repaired_len(header_length, total, end) == Some(
            pending.header_offset,
        ),
        end.pending is None ==> match repaired_len(header_length, total, end) {
            None => (total - header_length) % 56 == 0,
            Some(length) => header_length <= length < total && total - length < 56 && (length
                - header_length) % 56 == 0,
        },
{
}

/// The same of a store's file.
pub proof fn law_store_cut_is_at_a_frame(header_length: nat, total: nat, end: StoreScanModel)
    requires
        header_length <= total <= u64::MAX,
    ensures
        end.pending matches Some(pending) ==> repaired_store_len(header_length, total, end)
            == Some(pending.header_offset),
        end.pending is None ==> match repaired_store_len(header_length, total, end) {
            None => (total - header_length) % 56 == 0,
            Some(length) => header_length <= length < total && total - length < 56 && (length
                - header_length) % 56 == 0,
        },
{
}

/// Whether a store is empty.
pub open spec fn is_new_store(store: StoreModel) -> bool {
    &&& store.pages.len() == 0
    &&& store.next_sequence == Some(1u64)
    &&& store.armed_fault is None
    &&& !store.poisoned
}

/// A new store is empty, of the first format or, with the identity of its database's page
/// store, of the second; its header is read as that store.
pub proof fn law_create_stores<const N: usize>(
    persistent_id: PersistentLogId,
    storage: DatabaseStorageIdentity,
    first: Result<(FilePageStore<N>, Vec<u8>), PageStoreCreateError>,
    second: Result<(FilePageStore<N>, Vec<u8>), PageStoreCreateError>,
    bytes: &[u8],
    result: Result<LockedFilePageStoreOpen<N>, PageStoreOpenError>,
)
    requires
        persistent_id@ != 0,
        storage.persistent_log_id@ != 0,
        storage.database_id@ != 0,
        storage.page_store_file_id@ != 0,
        call_ensures(FilePageStore::<N>::create_new, (persistent_id,), first),
        call_ensures(FilePageStore::<N>::create_new_database, (storage,), second),
        call_ensures(FilePageStore::<N>::open, (bytes,), result),
    ensures
        first is Ok <==> 0 < N <= usize::MAX - 7,
        second is Ok <==> 0 < N <= usize::MAX - 7,
        first matches Ok((store, header)) ==> {
            &&& is_new_store(store@)
            &&& store@.format == PageStoreFormat::V1
            &&& store@.persistent_id == persistent_id@ && store@.identity is None
            &&& bytes@ == header@ ==> !(result matches Err(PageStoreOpenError::Format(_)))
            &&& bytes@ == header@ ==> (result matches Ok(read) ==> read@.store == store@
                && read@.repaired_len is None)
        },
        second matches Ok((store, header)) ==> {
            &&& is_new_store(store@)
            &&& store@.format == PageStoreFormat::V2
            &&& store@.persistent_id == storage.persistent_log_id@
            &&& is_identity_of(store@.identity, storage, DatabaseFileRole::PageStore)
            &&& bytes@ == header@ ==> !(result matches Err(PageStoreOpenError::Format(_)))
            &&& bytes@ == header@ ==> (result matches Ok(read) ==> read@.store == store@
                && read@.repaired_len is None)
        },
{
    if 0 < N <= usize::MAX - 7 {
        law_create_store_then_open(persistent_id@, N as nat);
        law_create_database_store_then_open(
            storage.persistent_log_id@,
            N as nat,
            storage.spec_file_header_identity(DatabaseFileRole::PageStore)@,
        );
    }
}

/// A file is exactly what the creation of a database's store leaves behind where it is of the
/// second format, nothing has to be cut off it, and the store in it is new.
pub proof fn law_initial_database_store<const N: usize>(
    read: LockedFilePageStoreOpen<N>,
    exact: bool,
    length: Option<u64>,
)
    requires
        call_ensures(
            LockedFilePageStoreOpen::<N>::is_exact_initial_database_file,
            (&read,),
            exact,
        ),
        call_ensures(LockedFilePageStoreOpen::<N>::repaired_len, (&read,), length),
        read@.store.armed_fault is None,
        !read@.store.poisoned,
    ensures
        exact <==> read@.store.format == PageStoreFormat::V2 && is_new_store(read@.store)
            && length is None,
{
}

/// What is opened of a store is what its file's header says: the format by its version, the
/// lineage, and an identity in the second format alone. A file that ends within its header is
/// refused, with its length.
pub proof fn law_opened_store_is_headed<const N: usize>(
    bytes: &[u8],
    result: Result<LockedFilePageStoreOpen<N>, PageStoreOpenError>,
)
    requires
        call_ensures(FilePageStore::<N>::open, (bytes,), result),
    ensures
        result matches Ok(read) ==> {
            &&& 0 < N <= usize::MAX - 7
            &&& be_field(bytes@, 8, 2) == 1 && read@.store.format == PageStoreFormat::V1
                && read@.store.identity is None || be_field(bytes@, 8, 2) == 2 && read@.store.format
                == PageStoreFormat::V2 && read@.store.identity is Some && bytes@.len() >= 128
            &&& bytes@.len() >= 64
            &&& read@.store.persistent_id == be_field(bytes@, 16, 16)
            &&& read@.store.persistent_id != 0
            &&& be_field(bytes@, 32, 8) == N
            &&& read@.store.armed_fault is None && !read@.store.poisoned
        },
        0 < N <= usize::MAX - 7 && (bytes@.len() < 64 || be_field(bytes@, 8, 2) == 2
            && bytes@.len() < 128) ==> (result matches Err(PageStoreOpenError::Format(error))
            && error.offset == 0 && (
        error.reason matches PageStoreFormatErrorReason::HeaderTooShort { actual } && (bytes@.len()
            <= u64::MAX ==> actual == bytes@.len()))),
{
    reveal(read_store_header);
    if bytes@.len() >= 64 {
        lemma_prefix_fields(bytes@, 64);
    }
    if bytes@.len() >= 128 {
        lemma_prefix_fields(bytes@, 128);
    }
}

/// A log and its store are opened together exactly where each can be opened by itself, and
/// the log is looked at first: a store is never blamed while the log cannot be opened.
pub proof fn law_storage_opens_log_first<const N: usize>(
    log: &[u8],
    store: &[u8],
    result: Result<
        (LockedFileCommitLogOpen<N>, LockedFilePageStoreOpen<N>),
        FileTransactionPageStorageOpenError,
    >,
)
    requires
        call_ensures(open_transaction_page_storage::<N>, (log, store), result),
    ensures
        result matches Ok((log_read, store_read)) ==> {
            &&& 0 < N <= usize::MAX - 7
            &&& opened(
                log@,
                HeaderExpectation::V3OrLater(PageLayout::of(N as nat)),
                N as nat,
            ) == Ok::<_, FileFormatError>(log_read@)
            &&& opened_store(store@, N as nat) == Ok::<_, PageStoreFormatError>(store_read@)
        },
        result matches Err(FileTransactionPageStorageOpenError::CommitLog(FileOpenError::Format(
            error,
        ))) ==> opened(
            log@,
            HeaderExpectation::V3OrLater(PageLayout::of(N as nat)),
            N as nat,
        ) == Err::<OpenedModel, _>(error),
        result matches Err(FileTransactionPageStorageOpenError::PageStore(_)) ==> opened(
            log@,
            HeaderExpectation::V3OrLater(PageLayout::of(N as nat)),
            N as nat,
        ) is Ok,
        result matches Err(FileTransactionPageStorageOpenError::PageStore(
            PageStoreOpenError::Format(error),
        )) ==> opened_store(store@, N as nat) == Err::<OpenedStoreModel, _>(error),
        opened(
            log@,
            HeaderExpectation::V3OrLater(PageLayout::of(N as nat)),
            N as nat,
        ) is Err ==> (result matches Err(FileTransactionPageStorageOpenError::CommitLog(_))),
{
}

/// Where the frames begin in a log's file.
pub open spec fn frames_start(format: LogFormat) -> nat {
    match format {
        LogFormat::V4 => 128,
        LogFormat::V5 => 192,
        _ => 64,
    }
}

/// Whether every whole frame of a file behind its header is one of the log's.
pub open spec fn reads_every_frame(bytes: Seq<u8>, format: LogFormat) -> bool {
    forall|start: int|
        frames_start(format) <= start && (start - frames_start(format)) % 56 == 0 && start + 56
            <= bytes.len() ==> decoded_frame(
            #[trigger] bytes.subrange(start, start + 56),
            start as u64,
            format,
        ) is Ok
}

proof fn lemma_scan_reads_every_frame(
    state: ScanModel,
    bytes: Seq<u8>,
    offset: nat,
    format: LogFormat,
    start: int,
)
    requires
        scan(state, bytes, offset, format) is Ok,
        offset <= start && (start - offset) % 56 == 0 && start + 56 <= bytes.len(),
    ensures
        decoded_frame(bytes.subrange(start, start + 56), start as u64, format) is Ok,
    decreases start - offset,
{
    if start > offset {
        let frame = decoded_frame(
            bytes.subrange(offset as int, offset as int + 56),
            offset as u64,
            format,
        )->Ok_0;
        let next = step(state, frame, offset as u64)->Ok_0;
        lemma_scan_reads_every_frame(next, bytes, offset + 56, format, start);
    }
}

proof fn lemma_opened_reads_every_frame(
    bytes: Seq<u8>,
    expectation: HeaderExpectation,
    width: nat,
    model: OpenedModel,
)
    requires
        opened(bytes, expectation, width) == Ok::<_, FileFormatError>(model),
    ensures
        reads_every_frame(bytes, model.log.format),
{
    let header = read_header(bytes, expectation)->Ok_0;
    let has_layout = expectation.spec_page_layout() is Some;
    assert(header.length == frames_start(header.format)) by {
        reveal(read_header);
    }
    assert forall|start: int|
        frames_start(header.format) <= start && (start - frames_start(header.format)) % 56 == 0
            && start + 56 <= bytes.len() implies decoded_frame(
        #[trigger] bytes.subrange(start, start + 56),
        start as u64,
        header.format,
    ) is Ok by {
        lemma_scan_reads_every_frame(
            crate::log_model::initial_scan(header.coordinates, has_layout, width),
            bytes,
            header.length,
            header.format,
            start,
        );
    }
}

/// A log is opened only where every whole frame of its file can be read, to the end: nothing
/// is passed over, and nothing ends the reading early.
pub proof fn law_every_frame_is_read<const N: usize>(
    bytes: &[u8],
    first: Result<LockedFileCommitLogOpen<0>, FileOpenError>,
    second: Result<LockedFileCommitLogOpen<N>, FileOpenError>,
    third: Result<LockedFileCommitLogOpen<N>, FileOpenError>,
)
    requires
        call_ensures(FileCommitLog::open, (bytes,), first),
        call_ensures(FileCommitLog::<N>::open_page_capable, (bytes,), second),
        call_ensures(FileCommitLog::<N>::open_transaction_page_capable, (bytes,), third),
    ensures
        first matches Ok(read) ==> reads_every_frame(bytes@, read@.log.format),
        second matches Ok(read) ==> reads_every_frame(bytes@, read@.log.format),
        third matches Ok(read) ==> reads_every_frame(bytes@, read@.log.format),
{
    let layout = PageLayout::of(N as nat);
    if let Ok(read) = first {
        lemma_opened_reads_every_frame(bytes@, HeaderExpectation::V1, 0, read@);
    }
    if let Ok(read) = second {
        lemma_opened_reads_every_frame(bytes@, HeaderExpectation::V2(layout), N as nat, read@);
    }
    if let Ok(read) = third {
        lemma_opened_reads_every_frame(
            bytes@,
            HeaderExpectation::V3OrLater(layout),
            N as nat,
            read@,
        );
    }
}

proof fn lemma_store_scan_reads_every_frame(
    state: StoreScanModel,
    bytes: Seq<u8>,
    offset: nat,
    start: int,
)
    requires
        store_scan(state, bytes, offset) is Ok,
        offset <= start && (start - offset) % 56 == 0 && start + 56 <= bytes.len(),
    ensures
        decoded_store_frame(bytes.subrange(start, start + 56), start as u64) is Ok,
    decreases start - offset,
{
    if start > offset {
        let frame = decoded_store_frame(
            bytes.subrange(offset as int, offset as int + 56),
            offset as u64,
        )->Ok_0;
        let next = store_step(state, frame, offset as u64)->Ok_0;
        lemma_store_scan_reads_every_frame(next, bytes, offset + 56, start);
    }
}

/// A store is opened only where every whole frame of its file can be read, to the end.
pub proof fn law_every_store_frame_is_read<const N: usize>(
    bytes: &[u8],
    result: Result<LockedFilePageStoreOpen<N>, PageStoreOpenError>,
    start: int,
)
    requires
        call_ensures(FilePageStore::<N>::open, (bytes,), result),
    ensures
        result matches Ok(read) ==> {
            let first: int = if read@.store.format == PageStoreFormat::V1 {
                64
            } else {
                128
            };
            first <= start && (start - first) % 56 == 0 && start + 56 <= bytes@.len()
                ==> decoded_store_frame(bytes@.subrange(start, start + 56), start as u64) is Ok
        },
{
    reveal(read_store_header);
    if let Ok(read) = result {
        let header = read_store_header(bytes@, N as u64)->Ok_0;
        if header.length <= start && (start - header.length) % 56 == 0 && start + 56
            <= bytes@.len() {
            lemma_store_scan_reads_every_frame(
                StoreScanModel::initial(N as nat),
                bytes@,
                header.length,
                start,
            );
        }
    }
}


} // verus!
