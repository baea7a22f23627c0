//! The page store: its state, and the decisions of each of its operations.
//!
//! As in the commit log, an operation that has to touch the file comes in two
//! halves: a plan of the effects, and what makes the store's state say that they
//! have all succeeded. Every effect that fails leaves the content of the file
//! uncertain.
use vstd::prelude::*;

use crate::bytes::read_u16;
use crate::commit_log::{FileCommitLog, LockedFileCommitLogOpen};
use crate::database_identity::{
    DatabaseFileHeaderIdentity, DatabaseFileRole, DatabaseStorageIdentity,
};
use crate::format::{PageLayout, FRAME_LENGTH};
use crate::identity::{LogLineage, LogSequenceNumber, PageNumber, PageVersion, PersistentLogId};
use crate::log_error::FileOpenError;
use crate::log_header::HeaderExpectation;
use crate::log_scan::successor;
use crate::observation::StoredPageSnapshotObservation;
use crate::page::{DirtyPage, PageWritePermit};
use crate::page_store_effect::{
    build_group_effects, group_effects, store_effect_models, StoreEffect, StoreEffectModel,
};
use crate::page_store_error::{
    FileCommittedPageRecoveryObservationError, FileCommittedPageRecoveryStoreError,
    FilePageStoreError, FilePageStoreInventoryError, FileRestartCheckpointPageRepairStoreError,
    FileTransactionPageStorageOpenError, PageSourceComparison, PageSourceContradiction,
    PageStoreCreateError, PageStoreFaultAlreadyArmed, PageStoreFaultPoint, PageStoreFormatError,
    PageStoreFormatErrorReason, PageStoreIoError, PageStoreIoStage, PageStoreOpenError,
};
use crate::page_store_header::{
    build_page_store_header, build_page_store_header_v2, parse_page_store_header,
    parse_page_store_header_v2, store_header_bytes, store_header_v2_bytes, PageStoreFormat,
};
use crate::page_store_open_state::{find_page, store_page, PageStoreOpenState};
use crate::page_store_scan::{
    opened_store, read_store_header, store_holds_a_page, OpenedStoreModel, StoreHeaderModel,
    StoreModel,
};
use crate::room::{list_if, reserved};
use crate::stored_page::{
    current_page, law_write_replaces_only_its_page, numbers_distinct, page_models, pages_in_lineage,
    with_page, FileStoredPage, StoredPageModel,
};

verus! {

/// The state of one opened page store with pages of `N` bytes.
#[derive(Debug)]
pub struct FilePageStore<const N: usize> {
    format: PageStoreFormat,
    lineage: LogLineage,
    persistent_id: PersistentLogId,
    database_file_identity: Option<DatabaseFileHeaderIdentity>,
    pages: Vec<FileStoredPage<N>>,
    next_sequence: Option<u64>,
    armed_fault: Option<PageStoreFaultPoint>,
    poisoned: bool,
}

/// A store read from its file, before an unfinished tail has been cut off.
#[derive(Debug)]
pub struct LockedFilePageStoreOpen<const N: usize> {
    store: FilePageStore<N>,
    repaired_len: Option<u64>,
}

/// The effects that write one page, and the page itself.
#[derive(Debug)]
pub struct PageWritePlan<const N: usize> {
    effects: Vec<StoreEffect>,
    page: FileStoredPage<N>,
}

/// The page that a committed-page recovery puts into the store.
#[derive(Clone, Debug, PartialEq, Eq)]
pub struct CommittedPageRecoveryTarget<const N: usize> {
    pub page_number: PageNumber,
    pub page_version: PageVersion,
    pub bytes: [u8; N],
    pub page_position: LogSequenceNumber,
    pub commit_position: LogSequenceNumber,
}

/// Leave to put a committed page into the store.
#[derive(Clone, Copy, Debug, PartialEq, Eq, Structural)]
pub struct CommittedTransactionPageRecoveryWritePermit {
    pub page_position: LogSequenceNumber,
    pub commit_position: LogSequenceNumber,
}

/// The page that a replay from a restart checkpoint puts into the store.
#[derive(Clone, Debug, PartialEq, Eq)]
pub struct RestartCheckpointPageRepairTarget<const N: usize> {
    pub page_number: PageNumber,
    pub page_version: PageVersion,
    pub bytes: [u8; N],
    pub page_position: LogSequenceNumber,
    /// Where the page's transaction committed; none for a page that no transaction
    /// owns.
    pub commit_position: Option<LogSequenceNumber>,
}

/// Leave to put a replayed page into the store.
#[derive(Clone, Copy, Debug, PartialEq, Eq, Structural)]
pub struct TransactionRestartCheckpointPageRepairWritePermit {
    pub page_position: LogSequenceNumber,
    pub commit_position: Option<LogSequenceNumber>,
}

impl<const N: usize> PageWritePlan<N> {
    pub closed spec fn spec_effects(&self) -> Seq<StoreEffectModel> {
        store_effect_models(self.effects@)
    }

    pub closed spec fn spec_page(&self) -> StoredPageModel {
        self.page@
    }

    pub closed spec fn spec_lineage(&self) -> LogLineage {
        self.page.spec_lineage()
    }

    /// What has to be done to the file, in order.
    pub fn effects(&self) -> (effects: &Vec<StoreEffect>)
        ensures
            store_effect_models(effects@) == self.spec_effects(),
    {
        &self.effects
    }
}

impl<const N: usize> LockedFilePageStoreOpen<N> {
    pub closed spec fn view(&self) -> OpenedStoreModel {
        OpenedStoreModel { store: self.store@, repaired_len: self.repaired_len }
    }

    pub closed spec fn inv(&self) -> bool {
        self.store.inv()
    }

    /// The length that the file has to be cut to before the store is used.
    pub fn repaired_len(&self) -> (length: Option<u64>)
        ensures
            length == self@.repaired_len,
    {
        self.repaired_len
    }

    pub fn persistent_id(&self) -> (id: PersistentLogId)
        ensures
            id@ == self@.store.persistent_id,
    {
        self.store.persistent_id
    }

    pub fn physical_format_version(&self) -> (version: u16)
        ensures
            version == self@.store.format.spec_version(),
    {
        self.store.format.version()
    }

    pub fn database_file_identity(&self) -> (identity: Option<DatabaseFileHeaderIdentity>)
        ensures
            match self@.store.identity {
                None => identity is None,
                Some(model) => identity matches Some(identity) && identity@ == model,
            },
    {
        self.store.database_file_identity
    }

    /// Whether the file is exactly what the creation of a database leaves behind.
    pub fn is_exact_initial_database_file(&self) -> (exact: bool)
        ensures
            exact == {
                &&& self@.repaired_len is None
                &&& self@.store.format == PageStoreFormat::V2
                &&& self@.store.pages.len() == 0
                &&& self@.store.next_sequence == Some(1u64)
            },
    {
        let first_sequence: bool = match self.store.next_sequence {
            Some(sequence) => sequence == 1,
            None => false,
        };
        self.repaired_len.is_none() && self.store.format == PageStoreFormat::V2
            && self.store.pages.len() == 0 && first_sequence
    }

    /// The store, once its file has been cut to [`Self::repaired_len`].
    pub fn finish(self) -> (store: FilePageStore<N>)
        requires
            self.inv(),
        ensures
            store@ == self@.store,
            store.inv(),
    {
        self.store
    }
}

/// The header of a file, in whichever version.
struct StoreFileHeader {
    format: PageStoreFormat,
    persistent_id: PersistentLogId,
    identity: Option<DatabaseFileHeaderIdentity>,
    length: usize,
}

impl StoreFileHeader {
    spec fn view(&self) -> StoreHeaderModel {
        StoreHeaderModel {
            format: self.format,
            persistent_id: self.persistent_id@,
            identity: match self.identity {
                Some(identity) => Some(identity@),
                None => None,
            },
            length: self.length as nat,
        }
    }
}

fn read_store_file_header(bytes: &[u8], width: u64) -> (result: Result<
    StoreFileHeader,
    PageStoreFormatError,
>)
    ensures
        match read_store_header(bytes@, width) {
            Err(error) => result == Err::<StoreFileHeader, _>(error),
            Ok(model) => {
                &&& result matches Ok(header)
                &&& header@ == model
                &&& header.length <= bytes@.len()
                &&& header.length <= 128
            },
        },
{
    proof {
        reveal(read_store_header);
    }
    let total: usize = bytes.len();
    let too_short: PageStoreFormatError = PageStoreFormatError::new(
        0,
        PageStoreFormatErrorReason::HeaderTooShort { actual: total as u64 },
    );
    if total < 64 {
        return Err(too_short);
    }
    if read_u16(bytes, 8) == 2 {
        if total < 128 {
            return Err(too_short);
        }
        proof {
            assert(bytes@.subrange(0, 128) =~= bytes@.take(128));
            assert(bytes@.take(128).subrange(16, 32) =~= bytes@.subrange(16, 32));
            assert(bytes@.take(128).subrange(64, 112) =~= bytes@.subrange(64, 112));
        }
        return match parse_page_store_header_v2(&bytes[0..128], width) {
            Err(error) => Err(error),
            Ok(metadata) => Ok(
                StoreFileHeader {
                    format: PageStoreFormat::V2,
                    persistent_id: metadata.persistent_id,
                    identity: Some(metadata.database_file_identity),
                    length: 128,
                },
            ),
        };
    }
    proof {
        assert(bytes@.subrange(0, 64) =~= bytes@.take(64));
        assert(bytes@.take(64).subrange(16, 32) =~= bytes@.subrange(16, 32));
    }
    match parse_page_store_header(&bytes[0..64], width) {
        Err(error) => Err(error),
        Ok(persistent_id) => Ok(
            StoreFileHeader {
                format: PageStoreFormat::V1,
                persistent_id,
                identity: None,
                length: 64,
            },
        ),
    }
}

impl<const N: usize> FilePageStore<N> {
    pub closed spec fn view(&self) -> StoreModel {
        StoreModel {
            format: self.format,
            persistent_id: self.persistent_id@,
            identity: match self.database_file_identity {
                Some(identity) => Some(identity@),
                None => None,
            },
            width: N as nat,
            pages: page_models(self.pages@),
            next_sequence: self.next_sequence,
            armed_fault: self.armed_fault,
            poisoned: self.poisoned,
        }
    }

    /// The lineage of every position of this store.
    pub closed spec fn spec_lineage(&self) -> LogLineage {
        self.lineage
    }

    pub closed spec fn inv(&self) -> bool {
        &&& self.lineage == LogLineage::Persistent(self.persistent_id)
        &&& pages_in_lineage(self.pages@, self.lineage)
        &&& numbers_distinct(page_models(self.pages@))
        &&& 0 < N <= usize::MAX - 7
    }

    /// The lineage of a store is the persistent one of its identity, and the pages of a
    /// store are as wide as its type says.
    pub proof fn law_lineage(&self)
        requires
            self.inv(),
        ensures
            self@.width == N,
            exists|id: PersistentLogId|
                id@ == self@.persistent_id && self.spec_lineage() == LogLineage::Persistent(id),
            forall|id: PersistentLogId|
                #![trigger id@]
                id@ == self@.persistent_id ==> self.spec_lineage() == LogLineage::Persistent(id),
    {
        assert forall|id: PersistentLogId|
            #![trigger id@]
            id@ == self@.persistent_id implies self.spec_lineage() == LogLineage::Persistent(
            id,
        ) by {
            PersistentLogId::lemma_view_injective(id, self.persistent_id);
        }
        assert(self.persistent_id@ == self@.persistent_id);
    }

    /// The pages of a store can be counted.
    pub proof fn law_page_count(&self)
        requires
            self.inv(),
        ensures
            self@.pages.len() <= usize::MAX,
    {
        assert(self.pages.len() == self.pages@.len());
    }

    /// A store holds at most one snapshot of each page.
    pub proof fn law_numbers_are_distinct(&self)
        requires
            self.inv(),
        ensures
            numbers_distinct(self@.pages),
    {
    }

    fn create_new_internal(
        persistent_id: PersistentLogId,
        format: PageStoreFormat,
        database_file_identity: Option<DatabaseFileHeaderIdentity>,
    ) -> (store: FilePageStore<N>)
        requires
            0 < N <= usize::MAX - 7,
        ensures
            store.inv(),
            store@ == StoreModel::created(
                format,
                persistent_id@,
                match database_file_identity {
                    Some(identity) => Some(identity@),
                    None => None,
                },
                N as nat,
            ),
    {
        let store: FilePageStore<N> = FilePageStore {
            format,
            lineage: LogLineage::persistent(persistent_id),
            persistent_id,
            database_file_identity,
            pages: Vec::new(),
            next_sequence: Some(1),
            armed_fault: None,
            poisoned: false,
        };
        assert(store@.pages =~= Seq::empty());
        store
    }

    /// A new empty version 1 store and the header of its file.
    pub fn create_new(persistent_id: PersistentLogId) -> (result: Result<
        (FilePageStore<N>, Vec<u8>),
        PageStoreCreateError,
    >)
        ensures
            match PageLayout::width_error(N) {
                Some(error) => result == Err::<(FilePageStore<N>, Vec<u8>), _>(
                    PageStoreCreateError::PageWidth(error),
                ),
                None => {
                    &&& result matches Ok((store, header))
                    &&& store.inv()
                    &&& store@ == StoreModel::created(
                        PageStoreFormat::V1,
                        persistent_id@,
                        None,
                        N as nat,
                    )
                    &&& header@ == store_header_bytes(persistent_id@, N as u64)
                },
            },
    {
        let layout: PageLayout = match PageLayout::for_const::<N>() {
            Ok(layout) => layout,
            Err(error) => {
                return Err(PageStoreCreateError::PageWidth(error));
            },
        };
        Ok(
            (
                FilePageStore::create_new_internal(persistent_id, PageStoreFormat::V1, None),
                build_page_store_header(persistent_id, layout.width_u64),
            ),
        )
    }

    /// A new empty version 2 store, which carries the identity of its database, and
    /// the header of its file.
    pub fn create_new_database(storage_identity: DatabaseStorageIdentity) -> (result: Result<
        (FilePageStore<N>, Vec<u8>),
        PageStoreCreateError,
    >)
        ensures
            match PageLayout::width_error(N) {
                Some(error) => result == Err::<(FilePageStore<N>, Vec<u8>), _>(
                    PageStoreCreateError::PageWidth(error),
                ),
                None => {
                    let identity = storage_identity.spec_file_header_identity(
                        DatabaseFileRole::PageStore,
                    )@;
                    let persistent_id = storage_identity.persistent_log_id@;
                    &&& result matches Ok((store, header))
                    &&& store.inv()
                    &&& store@ == StoreModel::created(
                        PageStoreFormat::V2,
                        persistent_id,
                        Some(identity),
                        N as nat,
                    )
                    &&& header@ == store_header_v2_bytes(persistent_id, N as u64, identity)
                },
            },
    {
        let layout: PageLayout = match PageLayout::for_const::<N>() {
            Ok(layout) => layout,
            Err(error) => {
                return Err(PageStoreCreateError::PageWidth(error));
            },
        };
        let identity: DatabaseFileHeaderIdentity = storage_identity.file_header_identity(
            DatabaseFileRole::PageStore,
        );
        let persistent_id: PersistentLogId = storage_identity.persistent_log_id();
        Ok(
            (
                FilePageStore::create_new_internal(
                    persistent_id,
                    PageStoreFormat::V2,
                    Some(identity),
                ),
                build_page_store_header_v2(persistent_id, layout.width_u64, identity),
            ),
        )
    }

    /// The store that a header and the state behind the last frame make up.
    pub fn from_open_state(
        format: PageStoreFormat,
        persistent_id: PersistentLogId,
        database_file_identity: Option<DatabaseFileHeaderIdentity>,
        state: PageStoreOpenState<N>,
    ) -> (store: FilePageStore<N>)
        requires
            state.inv(),
            state.lineage == LogLineage::Persistent(persistent_id),
        ensures
            store.inv(),
            store@ == (StoreModel {
                format,
                persistent_id: persistent_id@,
                identity: match database_file_identity {
                    Some(identity) => Some(identity@),
                    None => None,
                },
                width: N as nat,
                pages: state@.pages,
                next_sequence: state@.next_sequence,
                armed_fault: None,
                poisoned: false,
            }),
    {
        FilePageStore {
            format,
            lineage: state.lineage,
            persistent_id,
            database_file_identity,
            pages: state.pages,
            next_sequence: state.next_sequence,
            armed_fault: None,
            poisoned: false,
        }
    }

    /// Whether `result` is what reading `bytes` has to give. Only running out of
    /// memory, which depends on the machine, may replace it, and only where a page
    /// has to be kept.
    pub open spec fn opens(
        bytes: Seq<u8>,
        result: Result<LockedFilePageStoreOpen<N>, PageStoreOpenError>,
    ) -> bool {
        &&& result matches Ok(store) ==> store.inv()
        &&& match result {
            Ok(store) => opened_store(bytes, N as nat) == Ok::<_, PageStoreFormatError>(store@),
            Err(PageStoreOpenError::Format(error)) => opened_store(bytes, N as nat) == Err::<
                OpenedStoreModel,
                _,
            >(error),
            Err(error) => {
                &&& error == PageStoreOpenError::SnapshotCapacityExhausted
                &&& store_holds_a_page(bytes, N as nat)
            },
        }
    }

    /// Reads a file of either version.
    pub fn open(bytes: &[u8]) -> (result: Result<LockedFilePageStoreOpen<N>, PageStoreOpenError>)
        ensures
            match PageLayout::width_error(N) {
                Some(error) => result == Err::<LockedFilePageStoreOpen<N>, _>(
                    PageStoreOpenError::PageWidth(error),
                ),
                None => Self::opens(bytes@, result),
            },
    {
        let layout: PageLayout = match PageLayout::for_const::<N>() {
            Ok(layout) => layout,
            Err(error) => {
                return Err(PageStoreOpenError::PageWidth(error));
            },
        };
        let header: StoreFileHeader = match read_store_file_header(bytes, layout.width_u64) {
            Ok(header) => header,
            Err(error) => {
                return Err(PageStoreOpenError::Format(error));
            },
        };
        let lineage: LogLineage = LogLineage::persistent(header.persistent_id);
        let mut state: PageStoreOpenState<N> = PageStoreOpenState::new(layout, lineage);
        match state.scan_frames(bytes, header.length) {
            Ok(()) => {},
            Err(error) => {
                return Err(error);
            },
        }
        let total: usize = bytes.len();
        let tail: usize = (total - header.length) % FRAME_LENGTH;
        let repaired_len: Option<u64> = match state.pending_group_header_offset() {
            Some(offset) => Some(offset),
            None => {
                if tail > 0 {
                    Some((total - tail) as u64)
                } else {
                    None
                }
            },
        };
        Ok(
            LockedFilePageStoreOpen {
                store: FilePageStore::from_open_state(
                    header.format,
                    header.persistent_id,
                    header.identity,
                    state,
                ),
                repaired_len,
            },
        )
    }
}

/// What writing a page is refused for, once everything that the caller hands over
/// has been checked. `has_room` says whether another page can be kept.
pub open spec fn group_refusal(store: StoreModel, number: u64, has_room: bool) -> Option<
    FilePageStoreError,
> {
    if store.next_sequence is None {
        Some(FilePageStoreError::StoreSequenceSpaceExhausted)
    } else if current_page(store.pages, number) is None && !has_room {
        Some(FilePageStoreError::SnapshotCapacityExhausted)
    } else if store.poisoned {
        Some(FilePageStoreError::PoisonedWriter)
    } else if store.armed_fault == Some(PageStoreFaultPoint::BeforeWrite) {
        Some(FilePageStoreError::InjectedFault(PageStoreFaultPoint::BeforeWrite))
    } else {
        None
    }
}

/// What writing a dirty page is refused for.
pub open spec fn write_refusal<const N: usize>(
    store: StoreModel,
    lineage: LogLineage,
    page: DirtyPage<N>,
    permit: PageWritePermit,
    has_room: bool,
) -> Option<FilePageStoreError> {
    if store.poisoned {
        Some(FilePageStoreError::PoisonedWriter)
    } else if page.address.lineage != lineage {
        Some(FilePageStoreError::ForeignPageLineage(page.address.number))
    } else if permit.position.lineage != lineage {
        Some(FilePageStoreError::ForeignPermitLineage(permit.position))
    } else if permit.position != page.required_position {
        Some(
            FilePageStoreError::PermitPositionMismatch {
                expected: page.required_position,
                actual: permit.position,
            },
        )
    } else if page.required_position.value == 0 {
        Some(FilePageStoreError::RequiredPositionZero(page.address.number))
    } else {
        group_refusal(store, page.address.number@, has_room)
    }
}

/// The store after a refusal: an injected fault has been used up.
pub open spec fn after_store_refusal(store: StoreModel, error: FilePageStoreError) -> StoreModel {
    if error is InjectedFault {
        StoreModel { armed_fault: None, ..store }
    } else {
        store
    }
}

/// The store after `page` has been written to its file.
pub open spec fn after_write(store: StoreModel, page: StoredPageModel) -> StoreModel {
    StoreModel {
        pages: with_page(store.pages, page),
        next_sequence: successor(page.sequence),
        armed_fault: if store.armed_fault == Some(PageStoreFaultPoint::AfterWrite) {
            None
        } else {
            store.armed_fault
        },
        ..store
    }
}

/// Why a committed-page recovery is refused before the store is touched.
pub open spec fn recovery_refusal<const N: usize>(
    store: StoreModel,
    lineage: LogLineage,
    target: CommittedPageRecoveryTarget<N>,
    permit: CommittedTransactionPageRecoveryWritePermit,
    comparison: Result<PageSourceComparison, PageSourceContradiction>,
) -> Option<FileCommittedPageRecoveryStoreError> {
    if store.poisoned {
        Some(FileCommittedPageRecoveryStoreError::PageStore(FilePageStoreError::PoisonedWriter))
    } else if target.page_position.lineage != lineage {
        Some(
            FileCommittedPageRecoveryStoreError::ForeignTargetPagePosition(target.page_position),
        )
    } else if target.commit_position.lineage != lineage {
        Some(
            FileCommittedPageRecoveryStoreError::ForeignTargetCommitPosition(
                target.commit_position,
            ),
        )
    } else if permit.page_position.lineage != lineage {
        Some(
            FileCommittedPageRecoveryStoreError::ForeignPermitPagePosition(permit.page_position),
        )
    } else if permit.commit_position.lineage != lineage {
        Some(
            FileCommittedPageRecoveryStoreError::ForeignPermitCommitPosition(
                permit.commit_position,
            ),
        )
    } else if permit.page_position != target.page_position {
        Some(
            FileCommittedPageRecoveryStoreError::PermitPagePositionMismatch {
                expected: target.page_position,
                actual: permit.page_position,
            },
        )
    } else if permit.commit_position != target.commit_position {
        Some(
            FileCommittedPageRecoveryStoreError::PermitCommitPositionMismatch {
                expected: target.commit_position,
                actual: permit.commit_position,
            },
        )
    } else {
        match comparison {
            Ok(PageSourceComparison::SourceMatches) => None,
            Ok(actual) => Some(FileCommittedPageRecoveryStoreError::SourceNotMatched { actual }),
            Err(source) => Some(FileCommittedPageRecoveryStoreError::SourceComparison(source)),
        }
    }
}

/// Why a replayed page is refused before the store is touched.
pub open spec fn repair_refusal<const N: usize>(
    lineage: LogLineage,
    target: RestartCheckpointPageRepairTarget<N>,
    permit: TransactionRestartCheckpointPageRepairWritePermit,
    comparison: Result<PageSourceComparison, PageSourceContradiction>,
) -> Option<FileRestartCheckpointPageRepairStoreError> {
    if target.page_position.lineage != lineage {
        Some(
            FileRestartCheckpointPageRepairStoreError::ForeignTargetPagePosition(
                target.page_position,
            ),
        )
    } else if target.commit_position is Some && target.commit_position->0.lineage != lineage {
        Some(
            FileRestartCheckpointPageRepairStoreError::ForeignTargetCommitPosition(
                target.commit_position->0,
            ),
        )
    } else if permit.page_position.lineage != lineage {
        Some(
            FileRestartCheckpointPageRepairStoreError::ForeignPermitPagePosition(
                permit.page_position,
            ),
        )
    } else if permit.commit_position is Some && permit.commit_position->0.lineage != lineage {
        Some(
            FileRestartCheckpointPageRepairStoreError::ForeignPermitCommitPosition(
                permit.commit_position->0,
            ),
        )
    } else if permit.page_position != target.page_position {
        Some(
            FileRestartCheckpointPageRepairStoreError::PermitPagePositionMismatch {
                expected: target.page_position,
                actual: permit.page_position,
            },
        )
    } else if permit.commit_position != target.commit_position {
        Some(
            FileRestartCheckpointPageRepairStoreError::PermitCommitPositionMismatch {
                expected: target.commit_position,
                actual: permit.commit_position,
            },
        )
    } else {
        match comparison {
            Ok(PageSourceComparison::SourceMatches) => None,
            Ok(actual) => Some(
                FileRestartCheckpointPageRepairStoreError::SourceNotMatched { actual },
            ),
            Err(source) => Some(FileRestartCheckpointPageRepairStoreError::SourceComparison(source)),
        }
    }
}

/// Whether the store still holds what a recovery candidate was computed from.
fn require_file_recovery_source_match(
    comparison: Result<PageSourceComparison, PageSourceContradiction>,
) -> (result: Result<(), FileCommittedPageRecoveryStoreError>)
    ensures
        result == match comparison {
            Ok(PageSourceComparison::SourceMatches) => Ok(()),
            Ok(actual) => Err(FileCommittedPageRecoveryStoreError::SourceNotMatched { actual }),
            Err(source) => Err(FileCommittedPageRecoveryStoreError::SourceComparison(source)),
        },
{
    match comparison {
        Ok(PageSourceComparison::SourceMatches) => Ok(()),
        Ok(actual) => Err(FileCommittedPageRecoveryStoreError::SourceNotMatched { actual }),
        Err(source) => Err(FileCommittedPageRecoveryStoreError::SourceComparison(source)),
    }
}

/// The same for a replayed page.
fn require_file_restart_checkpoint_repair_source_match(
    comparison: Result<PageSourceComparison, PageSourceContradiction>,
) -> (result: Result<(), FileRestartCheckpointPageRepairStoreError>)
    ensures
        result == match comparison {
            Ok(PageSourceComparison::SourceMatches) => Ok(()),
            Ok(actual) => Err(
                FileRestartCheckpointPageRepairStoreError::SourceNotMatched { actual },
            ),
            Err(source) => Err(FileRestartCheckpointPageRepairStoreError::SourceComparison(source)),
        },
{
    match comparison {
        Ok(PageSourceComparison::SourceMatches) => Ok(()),
        Ok(actual) => Err(FileRestartCheckpointPageRepairStoreError::SourceNotMatched { actual }),
        Err(source) => Err(FileRestartCheckpointPageRepairStoreError::SourceComparison(source)),
    }
}

impl<const N: usize> FilePageStore<N> {
    /// Whether `plan` writes the given page at the next sequence number.
    pub open spec fn plans_write(
        &self,
        number: PageNumber,
        version: PageVersion,
        bytes: [u8; N],
        position: LogSequenceNumber,
        plan: PageWritePlan<N>,
    ) -> bool {
        &&& self@.next_sequence matches Some(sequence)
        &&& plan.spec_page() == (StoredPageModel {
            number: number@,
            version: version.value,
            bytes: bytes@,
            position: position.value,
            sequence,
        })
        &&& plan.spec_lineage() == position.lineage
        &&& plan.spec_effects() == group_effects(plan.spec_page())
    }

    /// Plans the group of frames that writes a page. `has_room` says whether
    /// another page can be kept.
    fn write_snapshot_group(
        &mut self,
        number: PageNumber,
        version: PageVersion,
        bytes: [u8; N],
        position: LogSequenceNumber,
        has_room: bool,
    ) -> (result: Result<PageWritePlan<N>, FilePageStoreError>)
        requires
            old(self).inv(),
        ensures
            final(self).inv(),
            final(self).spec_lineage() == old(self).spec_lineage(),
            match group_refusal(old(self)@, number@, has_room) {
                Some(error) => {
                    &&& result == Err::<PageWritePlan<N>, _>(error)
                    &&& final(self)@ == after_store_refusal(old(self)@, error)
                },
                None => {
                    &&& final(self)@ == old(self)@
                    &&& result matches Ok(plan)
                    &&& old(self).plans_write(number, version, bytes, position, plan)
                },
            },
    {
        let sequence: u64 = match self.next_sequence {
            Some(sequence) => sequence,
            None => {
                return Err(FilePageStoreError::StoreSequenceSpaceExhausted);
            },
        };
        if find_page(&self.pages, number).is_none() && !has_room {
            return Err(FilePageStoreError::SnapshotCapacityExhausted);
        }
        if self.poisoned {
            return Err(FilePageStoreError::PoisonedWriter);
        }
        if self.consume_fault(PageStoreFaultPoint::BeforeWrite) {
            return Err(FilePageStoreError::InjectedFault(PageStoreFaultPoint::BeforeWrite));
        }
        let page: FileStoredPage<N> = FileStoredPage::new(
            number,
            version,
            bytes,
            position,
            sequence,
        );
        let effects: Vec<StoreEffect> = build_group_effects(&page);
        Ok(PageWritePlan { effects, page })
    }

    /// Whether `result` is what an attempt to write a dirty page has to give.
    pub open spec fn attempts_write(
        before: FilePageStore<N>,
        after: FilePageStore<N>,
        page: DirtyPage<N>,
        permit: PageWritePermit,
        has_room: bool,
        result: Result<PageWritePlan<N>, FilePageStoreError>,
    ) -> bool {
        &&& after.spec_lineage() == before.spec_lineage()
        &&& match write_refusal(before@, before.spec_lineage(), page, permit, has_room) {
            Some(error) => {
                &&& result == Err::<PageWritePlan<N>, _>(error)
                &&& after@ == after_store_refusal(before@, error)
            },
            None => {
                &&& after@ == before@
                &&& result matches Ok(plan)
                &&& before.plans_write(
                    page.address.number,
                    page.version,
                    page.bytes,
                    page.required_position,
                    plan,
                )
            },
        }
    }

    /// Plans the write of a dirty page. `has_room` says whether another page can be
    /// kept.
    pub fn write_dirty_page(
        &mut self,
        page: &DirtyPage<N>,
        permit: PageWritePermit,
        has_room: bool,
    ) -> (result: Result<PageWritePlan<N>, FilePageStoreError>)
        requires
            old(self).inv(),
        ensures
            final(self).inv(),
            Self::attempts_write(*old(self), *final(self), *page, permit, has_room, result),
    {
        if self.poisoned {
            return Err(FilePageStoreError::PoisonedWriter);
        }
        if !self.lineage.same_lineage(&page.address.lineage) {
            return Err(FilePageStoreError::ForeignPageLineage(page.address.number));
        }
        if !self.lineage.same_lineage(&permit.position.lineage) {
            return Err(FilePageStoreError::ForeignPermitLineage(permit.position));
        }
        if permit.position != page.required_position {
            return Err(
                FilePageStoreError::PermitPositionMismatch {
                    expected: page.required_position,
                    actual: permit.position,
                },
            );
        }
        if page.required_position.get() == 0 {
            return Err(FilePageStoreError::RequiredPositionZero(page.address.number));
        }
        self.write_snapshot_group(
            page.address.number,
            page.version,
            page.bytes,
            page.required_position,
            has_room,
        )
    }

    /// Plans the write of a dirty page.
    ///
    /// Whether another page can be kept depends on the machine: instead of a plan
    /// there may be [`FilePageStoreError::SnapshotCapacityExhausted`].
    pub fn write_page(&mut self, page: &DirtyPage<N>, permit: PageWritePermit) -> (result: Result<
        PageWritePlan<N>,
        FilePageStoreError,
    >)
        requires
            old(self).inv(),
        ensures
            final(self).inv(),
            Self::attempts_write(*old(self), *final(self), *page, permit, true, result)
                || Self::attempts_write(*old(self), *final(self), *page, permit, false, result),
    {
        let has_room: bool = self.has_room();
        self.write_dirty_page(page, permit, has_room)
    }

    /// Whether memory for one more page can be had. The answer depends on the
    /// machine; the store stays as it is.
    fn has_room(&mut self) -> (room: bool)
        requires
            old(self).inv(),
        ensures
            final(self).inv(),
            final(self)@ == old(self)@,
            final(self).spec_lineage() == old(self).spec_lineage(),
    {
        self.pages.try_reserve(1).is_ok()
    }

    /// Takes a page into the store whose effects have all succeeded.
    pub fn finish_write(&mut self, plan: PageWritePlan<N>) -> (result: Result<
        (),
        FilePageStoreError,
    >)
        requires
            old(self).inv(),
            plan.spec_lineage() == old(self).spec_lineage(),
            old(self)@.next_sequence == Some(plan.spec_page().sequence),
        ensures
            final(self).inv(),
            final(self).spec_lineage() == old(self).spec_lineage(),
            final(self)@ == after_write(old(self)@, plan.spec_page()),
            result == if old(self)@.armed_fault == Some(PageStoreFaultPoint::AfterWrite) {
                Err(FilePageStoreError::InjectedFault(PageStoreFaultPoint::AfterWrite))
            } else {
                Ok(())
            },
    {
        let sequence: u64 = plan.page.store_sequence();
        proof {
            law_write_replaces_only_its_page(page_models(self.pages@), plan.page@, 0);
        }
        store_page(&mut self.pages, plan.page);
        self.next_sequence = sequence.checked_add(1);
        if self.consume_fault(PageStoreFaultPoint::AfterWrite) {
            Err(FilePageStoreError::InjectedFault(PageStoreFaultPoint::AfterWrite))
        } else {
            Ok(())
        }
    }

    /// Records that an effect of a plan has failed, and gives the error to report.
    pub fn effect_failed(&mut self, stage: PageStoreIoStage, source: std::io::Error) -> (error:
        PageStoreIoError)
        requires
            old(self).inv(),
        ensures
            final(self).inv(),
            final(self).spec_lineage() == old(self).spec_lineage(),
            final(self)@ == (StoreModel { poisoned: true, ..old(self)@ }),
            error == (PageStoreIoError { stage, source }),
    {
        self.poisoned = true;
        PageStoreIoError::new(stage, source)
    }

    fn consume_fault(&mut self, point: PageStoreFaultPoint) -> (consumed: bool)
        requires
            old(self).inv(),
        ensures
            final(self).inv(),
            final(self).spec_lineage() == old(self).spec_lineage(),
            consumed == (old(self)@.armed_fault == Some(point)),
            final(self)@ == (StoreModel {
                armed_fault: if consumed {
                    None
                } else {
                    old(self)@.armed_fault
                },
                ..old(self)@
            }),
    {
        if let Some(armed) = self.armed_fault {
            if armed == point {
                self.armed_fault = None;
                return true;
            }
        }
        false
    }

    /// Arms one fault without replacing an existing one.
    pub fn arm_fault(&mut self, fault: PageStoreFaultPoint) -> (result: Result<
        (),
        PageStoreFaultAlreadyArmed,
    >)
        requires
            old(self).inv(),
        ensures
            final(self).inv(),
            final(self).spec_lineage() == old(self).spec_lineage(),
            match old(self)@.armed_fault {
                Some(armed) => {
                    &&& result == Err::<(), _>(
                        PageStoreFaultAlreadyArmed { armed, requested: fault },
                    )
                    &&& final(self)@ == old(self)@
                },
                None => {
                    &&& result == Ok::<_, PageStoreFaultAlreadyArmed>(())
                    &&& final(self)@ == (StoreModel { armed_fault: Some(fault), ..old(self)@ })
                },
            },
    {
        if let Some(armed) = self.armed_fault {
            return Err(PageStoreFaultAlreadyArmed { armed, requested: fault });
        }
        self.armed_fault = Some(fault);
        Ok(())
    }

    /// Whether `result` is what an attempt to recover a committed page has to give.
    pub open spec fn attempts_recovery(
        before: FilePageStore<N>,
        after: FilePageStore<N>,
        target: CommittedPageRecoveryTarget<N>,
        permit: CommittedTransactionPageRecoveryWritePermit,
        comparison: Result<PageSourceComparison, PageSourceContradiction>,
        has_room: bool,
        result: Result<PageWritePlan<N>, FileCommittedPageRecoveryStoreError>,
    ) -> bool {
        &&& after.spec_lineage() == before.spec_lineage()
        &&& match recovery_refusal(before@, before.spec_lineage(), target, permit, comparison) {
            Some(error) => {
                &&& result == Err::<PageWritePlan<N>, _>(error)
                &&& after@ == before@
            },
            None => match group_refusal(before@, target.page_number@, has_room) {
                Some(error) => {
                    &&& result == Err::<PageWritePlan<N>, _>(
                        FileCommittedPageRecoveryStoreError::PageStore(error),
                    )
                    &&& after@ == after_store_refusal(before@, error)
                },
                None => {
                    &&& after@ == before@
                    &&& result matches Ok(plan)
                    &&& before.plans_write(
                        target.page_number,
                        target.page_version,
                        target.bytes,
                        target.page_position,
                        plan,
                    )
                },
            },
        }
    }

    /// Checks all that a committed page is checked for before the page that the store
    /// holds is compared.
    pub fn admit_committed_page(
        &self,
        target: &CommittedPageRecoveryTarget<N>,
        permit: CommittedTransactionPageRecoveryWritePermit,
    ) -> (result: Result<(), FileCommittedPageRecoveryStoreError>)
        requires
            self.inv(),
        ensures
            result == match recovery_refusal(
                self@,
                self.spec_lineage(),
                *target,
                permit,
                Ok(PageSourceComparison::SourceMatches),
            ) {
                Some(error) => Err(error),
                None => Ok(()),
            },
    {
        if self.poisoned {
            return Err(
                FileCommittedPageRecoveryStoreError::PageStore(FilePageStoreError::PoisonedWriter),
            );
        }
        if !self.lineage.same_lineage(&target.page_position.lineage) {
            return Err(
                FileCommittedPageRecoveryStoreError::ForeignTargetPagePosition(
                    target.page_position,
                ),
            );
        }
        if !self.lineage.same_lineage(&target.commit_position.lineage) {
            return Err(
                FileCommittedPageRecoveryStoreError::ForeignTargetCommitPosition(
                    target.commit_position,
                ),
            );
        }
        if !self.lineage.same_lineage(&permit.page_position.lineage) {
            return Err(
                FileCommittedPageRecoveryStoreError::ForeignPermitPagePosition(
                    permit.page_position,
                ),
            );
        }
        if !self.lineage.same_lineage(&permit.commit_position.lineage) {
            return Err(
                FileCommittedPageRecoveryStoreError::ForeignPermitCommitPosition(
                    permit.commit_position,
                ),
            );
        }
        if permit.page_position != target.page_position {
            return Err(
                FileCommittedPageRecoveryStoreError::PermitPagePositionMismatch {
                    expected: target.page_position,
                    actual: permit.page_position,
                },
            );
        }
        if permit.commit_position != target.commit_position {
            return Err(
                FileCommittedPageRecoveryStoreError::PermitCommitPositionMismatch {
                    expected: target.commit_position,
                    actual: permit.commit_position,
                },
            );
        }
        Ok(())
    }

    /// Plans the write of a committed page over the page that the store holds.
    /// `comparison` says how the held page compares with the one that the candidate
    /// was computed from, and `has_room` whether another page can be kept.
    pub fn replace_committed_page(
        &mut self,
        target: &CommittedPageRecoveryTarget<N>,
        permit: CommittedTransactionPageRecoveryWritePermit,
        comparison: Result<PageSourceComparison, PageSourceContradiction>,
        has_room: bool,
    ) -> (result: Result<PageWritePlan<N>, FileCommittedPageRecoveryStoreError>)
        requires
            old(self).inv(),
        ensures
            final(self).inv(),
            Self::attempts_recovery(
                *old(self),
                *final(self),
                *target,
                permit,
                comparison,
                has_room,
                result,
            ),
    {
        match self.admit_committed_page(target, permit) {
            Ok(()) => {},
            Err(error) => {
                return Err(error);
            },
        }
        match require_file_recovery_source_match(comparison) {
            Ok(()) => {},
            Err(error) => {
                return Err(error);
            },
        }
        match self.write_snapshot_group(
            target.page_number,
            target.page_version,
            target.bytes,
            target.page_position,
            has_room,
        ) {
            Ok(plan) => Ok(plan),
            Err(error) => Err(FileCommittedPageRecoveryStoreError::PageStore(error)),
        }
    }

    /// Plans the write of a committed page over the page that the store holds.
    ///
    /// Whether another page can be kept depends on the machine: instead of a plan
    /// there may be [`FilePageStoreError::SnapshotCapacityExhausted`].
    pub fn compare_and_replace(
        &mut self,
        target: &CommittedPageRecoveryTarget<N>,
        permit: CommittedTransactionPageRecoveryWritePermit,
        comparison: Result<PageSourceComparison, PageSourceContradiction>,
    ) -> (result: Result<PageWritePlan<N>, FileCommittedPageRecoveryStoreError>)
        requires
            old(self).inv(),
        ensures
            final(self).inv(),
            Self::attempts_recovery(*old(self), *final(self), *target, permit, comparison, true, result)
                || Self::attempts_recovery(
                *old(self),
                *final(self),
                *target,
                permit,
                comparison,
                false,
                result,
            ),
    {
        let has_room: bool = self.has_room();
        self.replace_committed_page(target, permit, comparison, has_room)
    }

    /// Whether `result` is what an attempt to repair a page has to give.
    pub open spec fn attempts_repair(
        before: FilePageStore<N>,
        after: FilePageStore<N>,
        target: RestartCheckpointPageRepairTarget<N>,
        permit: TransactionRestartCheckpointPageRepairWritePermit,
        comparison: Result<PageSourceComparison, PageSourceContradiction>,
        has_room: bool,
        result: Result<PageWritePlan<N>, FileRestartCheckpointPageRepairStoreError>,
    ) -> bool {
        &&& after.spec_lineage() == before.spec_lineage()
        &&& match repair_refusal(before.spec_lineage(), target, permit, comparison) {
            Some(error) => {
                &&& result == Err::<PageWritePlan<N>, _>(error)
                &&& after@ == before@
            },
            None => match group_refusal(before@, target.page_number@, has_room) {
                Some(error) => {
                    &&& result == Err::<PageWritePlan<N>, _>(
                        FileRestartCheckpointPageRepairStoreError::PageStore(error),
                    )
                    &&& after@ == after_store_refusal(before@, error)
                },
                None => {
                    &&& after@ == before@
                    &&& result matches Ok(plan)
                    &&& before.plans_write(
                        target.page_number,
                        target.page_version,
                        target.bytes,
                        target.page_position,
                        plan,
                    )
                },
            },
        }
    }

    /// Checks all that a replayed page is checked for before the page that the store holds
    /// is compared.
    pub fn admit_replay_page(
        &self,
        target: &RestartCheckpointPageRepairTarget<N>,
        permit: TransactionRestartCheckpointPageRepairWritePermit,
    ) -> (result: Result<(), FileRestartCheckpointPageRepairStoreError>)
        requires
            self.inv(),
        ensures
            result == match repair_refusal(
                self.spec_lineage(),
                *target,
                permit,
                Ok(PageSourceComparison::SourceMatches),
            ) {
                Some(error) => Err(error),
                None => Ok(()),
            },
    {
        if !self.lineage.same_lineage(&target.page_position.lineage) {
            return Err(
                FileRestartCheckpointPageRepairStoreError::ForeignTargetPagePosition(
                    target.page_position,
                ),
            );
        }
        if let Some(commit_position) = target.commit_position {
            if !self.lineage.same_lineage(&commit_position.lineage) {
                return Err(
                    FileRestartCheckpointPageRepairStoreError::ForeignTargetCommitPosition(
                        commit_position,
                    ),
                );
            }
        }
        if !self.lineage.same_lineage(&permit.page_position.lineage) {
            return Err(
                FileRestartCheckpointPageRepairStoreError::ForeignPermitPagePosition(
                    permit.page_position,
                ),
            );
        }
        if let Some(commit_position) = permit.commit_position {
            if !self.lineage.same_lineage(&commit_position.lineage) {
                return Err(
                    FileRestartCheckpointPageRepairStoreError::ForeignPermitCommitPosition(
                        commit_position,
                    ),
                );
            }
        }
        if permit.page_position != target.page_position {
            return Err(
                FileRestartCheckpointPageRepairStoreError::PermitPagePositionMismatch {
                    expected: target.page_position,
                    actual: permit.page_position,
                },
            );
        }
        if permit.commit_position != target.commit_position {
            return Err(
                FileRestartCheckpointPageRepairStoreError::PermitCommitPositionMismatch {
                    expected: target.commit_position,
                    actual: permit.commit_position,
                },
            );
        }
        Ok(())
    }

    /// Plans the write of a replayed page over the page that the store holds.
    /// `comparison` says how the held page compares with the one that the candidate
    /// was computed from, and `has_room` whether another page can be kept.
    pub fn replace_replay_page(
        &mut self,
        target: &RestartCheckpointPageRepairTarget<N>,
        permit: TransactionRestartCheckpointPageRepairWritePermit,
        comparison: Result<PageSourceComparison, PageSourceContradiction>,
        has_room: bool,
    ) -> (result: Result<PageWritePlan<N>, FileRestartCheckpointPageRepairStoreError>)
        requires
            old(self).inv(),
        ensures
            final(self).inv(),
            Self::attempts_repair(
                *old(self),
                *final(self),
                *target,
                permit,
                comparison,
                has_room,
                result,
            ),
    {
        match self.admit_replay_page(target, permit) {
            Ok(()) => {},
            Err(error) => {
                return Err(error);
            },
        }
        match require_file_restart_checkpoint_repair_source_match(comparison) {
            Ok(()) => {},
            Err(error) => {
                return Err(error);
            },
        }
        match self.write_snapshot_group(
            target.page_number,
            target.page_version,
            target.bytes,
            target.page_position,
            has_room,
        ) {
            Ok(plan) => Ok(plan),
            Err(error) => Err(FileRestartCheckpointPageRepairStoreError::PageStore(error)),
        }
    }

    /// Plans the write of a replayed page over the page that the store holds.
    ///
    /// Whether another page can be kept depends on the machine: instead of a plan
    /// there may be [`FilePageStoreError::SnapshotCapacityExhausted`].
    pub fn compare_and_replace_replay_page(
        &mut self,
        target: &RestartCheckpointPageRepairTarget<N>,
        permit: TransactionRestartCheckpointPageRepairWritePermit,
        comparison: Result<PageSourceComparison, PageSourceContradiction>,
    ) -> (result: Result<PageWritePlan<N>, FileRestartCheckpointPageRepairStoreError>)
        requires
            old(self).inv(),
        ensures
            final(self).inv(),
            Self::attempts_repair(*old(self), *final(self), *target, permit, comparison, true, result)
                || Self::attempts_repair(
                *old(self),
                *final(self),
                *target,
                permit,
                comparison,
                false,
                result,
            ),
    {
        let has_room: bool = self.has_room();
        self.replace_replay_page(target, permit, comparison, has_room)
    }
}

/// Whether `observation` shows `page` of the given lineage.
pub open spec fn shows_page<const N: usize>(
    observation: StoredPageSnapshotObservation<N>,
    page: StoredPageModel,
    lineage: LogLineage,
) -> bool {
    &&& observation.page_number@ == page.number
    &&& observation.page_version.value == page.version
    &&& observation.bytes@ == page.bytes
    &&& observation.required_position == (LogSequenceNumber { lineage, value: page.position })
}

/// Whether the observations show all of the pages, each once, in ascending order of
/// their numbers.
pub open spec fn is_store_inventory<const N: usize>(
    observations: Seq<StoredPageSnapshotObservation<N>>,
    pages: Seq<StoredPageModel>,
    lineage: LogLineage,
) -> bool {
    &&& observations.len() == pages.len()
    &&& ascending(observations)
    &&& forall|i: int|
        0 <= i < pages.len() ==> is_shown(observations, #[trigger] pages[i], lineage)
}

/// Whether one of the observations shows `page`.
pub open spec fn is_shown<const N: usize>(
    observations: Seq<StoredPageSnapshotObservation<N>>,
    page: StoredPageModel,
    lineage: LogLineage,
) -> bool {
    exists|j: int|
        0 <= j < observations.len() && shows_page(#[trigger] observations[j], page, lineage)
}

pub open spec fn ascending<const N: usize>(
    observations: Seq<StoredPageSnapshotObservation<N>>,
) -> bool {
    forall|i: int, j: int|
        #![trigger observations[i], observations[j]]
        0 <= i < j < observations.len() ==> observations[i].page_number@
            < observations[j].page_number@
}

/// Adds an observation to an ascending list that none of its page is in.
fn insert_observation<const N: usize>(
    observations: &mut Vec<StoredPageSnapshotObservation<N>>,
    observation: StoredPageSnapshotObservation<N>,
)
    requires
        ascending(old(observations)@),
        forall|i: int|
            0 <= i < old(observations)@.len() ==> (#[trigger] old(observations)@[i]).page_number@
                != observation.page_number@,
    ensures
        ascending(final(observations)@),
        exists|place: int|
            0 <= place <= old(observations)@.len() && final(observations)@ == #[trigger] old(
                observations,
            )@.insert(place, observation),
{
    let mut low: usize = 0;
    let mut high: usize = observations.len();
    let number: u64 = observation.page_number.get();
    while low < high
        invariant
            low <= high <= observations@.len(),
            observations@ == old(observations)@,
            number == observation.page_number@,
            ascending(observations@),
            forall|i: int|
                0 <= i < observations@.len() ==> (#[trigger] observations@[i]).page_number@
                    != number,
            forall|i: int| 0 <= i < low ==> (#[trigger] observations@[i]).page_number@ < number,
            forall|i: int|
                high <= i < observations@.len() ==> number < (
                #[trigger] observations@[i]).page_number@,
        decreases high - low,
    {
        let middle: usize = low + (high - low) / 2;
        if observations[middle].page_number.get() < number {
            low = middle + 1;
        } else {
            high = middle;
        }
    }
    observations.insert(low, observation);
    proof {
        let before = old(observations)@;
        assert(observations@ == before.insert(low as int, observation));
        assert forall|i: int, j: int|
            #![trigger observations@[i], observations@[j]]
            0 <= i < j < observations@.len() implies observations@[i].page_number@
            < observations@[j].page_number@ by {
            let left = if i < low {
                i
            } else {
                i - 1
            };
            let right = if j < low {
                j
            } else {
                j - 1
            };
            if i != low && j != low {
                assert(before[left].page_number@ < before[right].page_number@);
            }
        }
    }
}

impl<const N: usize> FilePageStore<N> {
    /// Returns the lineage of the store's positions.
    pub fn lineage(&self) -> (lineage: &LogLineage)
        ensures
            *lineage == self.spec_lineage(),
    {
        &self.lineage
    }

    /// Returns the persistent lineage ID.
    pub fn persistent_id(&self) -> (id: PersistentLogId)
        ensures
            id@ == self@.persistent_id,
    {
        self.persistent_id
    }

    /// Returns the version of the file's format.
    pub fn physical_format_version(&self) -> (version: u16)
        ensures
            version == self@.format.spec_version(),
    {
        self.format.version()
    }

    /// Returns the database-file identity that a version 2 file carries.
    pub fn database_file_identity(&self) -> (identity: Option<DatabaseFileHeaderIdentity>)
        ensures
            match self@.identity {
                None => identity is None,
                Some(model) => identity matches Some(identity) && identity@ == model,
            },
    {
        self.database_file_identity
    }

    /// Returns the fault that has not yet reached its stage.
    pub fn armed_fault(&self) -> (fault: Option<PageStoreFaultPoint>)
        ensures
            fault == self@.armed_fault,
    {
        self.armed_fault
    }

    /// Returns whether the file must be opened again before more is done with it.
    pub fn is_poisoned(&self) -> (poisoned: bool)
        ensures
            poisoned == self@.poisoned,
    {
        self.poisoned
    }

    /// Returns the latest snapshots of all stored pages.
    pub fn pages(&self) -> (pages: &[FileStoredPage<N>])
        requires
            self.inv(),
        ensures
            page_models(pages@) == self@.pages,
            pages_in_lineage(pages@, self.spec_lineage()),
    {
        self.pages.as_slice()
    }

    /// Looks up the latest snapshot of one page.
    pub fn page(&self, page_number: PageNumber) -> (page: Option<&FileStoredPage<N>>)
        requires
            self.inv(),
        ensures
            match current_page(self@.pages, page_number@) {
                None => page is None,
                Some(model) => page matches Some(page) && page@ == model && page.spec_lineage()
                    == self.spec_lineage(),
            },
    {
        match find_page(&self.pages, page_number) {
            Some(index) => {
                assert(self.pages@[index as int].spec_lineage() == self.lineage);
                Some(&self.pages[index])
            },
            None => None,
        }
    }

    /// Returns what the store holds of one page, as recovery evidence.
    pub fn observe_page(&self, page_number: PageNumber) -> (result: Result<
        Option<StoredPageSnapshotObservation<N>>,
        FileCommittedPageRecoveryObservationError,
    >)
        requires
            self.inv(),
        ensures
            if self@.poisoned {
                result == Err::<Option<StoredPageSnapshotObservation<N>>, _>(
                    FileCommittedPageRecoveryObservationError::PoisonedWriter,
                )
            } else {
                match current_page(self@.pages, page_number@) {
                    None => result == Ok::<_, FileCommittedPageRecoveryObservationError>(
                        None::<StoredPageSnapshotObservation<N>>,
                    ),
                    Some(page) => result matches Ok(Some(observation)) && shows_page(
                        observation,
                        page,
                        self.spec_lineage(),
                    ),
                }
            },
    {
        if self.poisoned {
            return Err(FileCommittedPageRecoveryObservationError::PoisonedWriter);
        }
        match self.page(page_number) {
            None => Ok(None),
            Some(page) => {
                match page.page_recovery_observation() {
                    Ok(observation) => Ok(Some(observation)),
                    Err(error) => Err(FileCommittedPageRecoveryObservationError::Projection(error)),
                }
            },
        }
    }

    /// Whether `result` is what listing the stored pages has to give, where
    /// `has_room` says whether memory for the list can be had.
    pub open spec fn lists_pages(
        &self,
        has_room: bool,
        result: Result<Vec<StoredPageSnapshotObservation<N>>, FilePageStoreInventoryError>,
    ) -> bool {
        if self@.poisoned {
            result == Err::<Vec<StoredPageSnapshotObservation<N>>, _>(
                FilePageStoreInventoryError::PoisonedWriter,
            )
        } else if !has_room {
            result == Err::<Vec<StoredPageSnapshotObservation<N>>, _>(
                FilePageStoreInventoryError::CapacityExhausted {
                    page_count: self@.pages.len() as usize,
                },
            )
        } else {
            result matches Ok(observations) && is_store_inventory(
                observations@,
                self@.pages,
                self.spec_lineage(),
            )
        }
    }

    /// Lists the stored pages. `has_room` says whether memory for the list can be
    /// had.
    pub fn list_stored_pages(&self, has_room: bool) -> (result: Result<
        Vec<StoredPageSnapshotObservation<N>>,
        FilePageStoreInventoryError,
    >)
        requires
            self.inv(),
        ensures
            self.lists_pages(has_room, result),
    {
        self.list_pages_in(list_if(has_room))
    }

    /// Lists the stored pages in `room`, the list that is to hold them, where memory for
    /// it can be had.
    fn list_pages_in(&self, room: Option<Vec<StoredPageSnapshotObservation<N>>>) -> (result: Result<
        Vec<StoredPageSnapshotObservation<N>>,
        FilePageStoreInventoryError,
    >)
        requires
            self.inv(),
            room matches Some(list) ==> list@ == Seq::<StoredPageSnapshotObservation<N>>::empty(),
        ensures
            self.lists_pages(room is Some, result),
    {
        if self.poisoned {
            return Err(FilePageStoreInventoryError::PoisonedWriter);
        }
        let mut observations: Vec<StoredPageSnapshotObservation<N>> = match room {
            Some(list) => list,
            None => {
                return Err(
                    FilePageStoreInventoryError::CapacityExhausted { page_count: self.pages.len() },
                );
            },
        };
        let ghost pages = self@.pages;
        let ghost lineage = self.spec_lineage();
        let mut index: usize = 0;
        while index < self.pages.len()
            invariant
                self.inv(),
                !self@.poisoned,
                room is Some,
                index <= self.pages@.len() == pages.len(),
                pages == self@.pages,
                lineage == self.spec_lineage(),
                is_store_inventory(observations@, pages.take(index as int), lineage),
                forall|j: int|
                    0 <= j < observations@.len() ==> exists|i: int|
                        0 <= i < index && (#[trigger] observations@[j]).page_number@ == (
                        #[trigger] pages[i]).number,
            decreases self.pages@.len() - index,
        {
            let page: &FileStoredPage<N> = &self.pages[index];
            assert(page@ == pages[index as int]);
            assert(page.spec_lineage() == lineage);
            let observation: StoredPageSnapshotObservation<N> =
                match page.page_recovery_observation() {
                Ok(observation) => observation,
                Err(source) => {
                    return Err(
                        FilePageStoreInventoryError::Projection {
                            page_number: page.page_number(),
                            source,
                        },
                    );
                },
            };
            let ghost earlier = observations@;
            let ghost shown = observation;
            assert forall|j: int| 0 <= j < earlier.len() implies (
            #[trigger] earlier[j]).page_number@ != observation.page_number@ by {
                let i = choose|i: int|
                    0 <= i < index && earlier[j].page_number@ == (#[trigger] pages[i]).number;
                assert(pages[i].number != pages[index as int].number);
            }
            insert_observation(&mut observations, observation);
            proof {
                let place = choose|place: int|
                    0 <= place <= earlier.len() && observations@ == #[trigger] earlier.insert(
                        place,
                        shown,
                    );
                lemma_inventory_grows(
                    earlier,
                    observations@,
                    pages,
                    lineage,
                    index as nat,
                    place,
                    shown,
                );
            }
            index = index + 1;
        }
        assert(pages.take(pages.len() as int) =~= pages);
        Ok(observations)
    }

    /// Lists the stored pages in ascending order of their numbers.
    ///
    /// Whether memory for the list can be had depends on the machine: instead of
    /// the list there may be [`FilePageStoreInventoryError::CapacityExhausted`]. For no
    /// pages there is always room.
    pub fn durable_page_store_inventory(&self) -> (result: Result<
        Vec<StoredPageSnapshotObservation<N>>,
        FilePageStoreInventoryError,
    >)
        requires
            self.inv(),
        ensures
            self.lists_pages(true, result) || self@.pages.len() > 0 && self.lists_pages(
                false,
                result,
            ),
    {
        self.list_pages_in(reserved(self.pages.len()))
    }
}

/// One more page in an inventory.
proof fn lemma_inventory_grows<const N: usize>(
    earlier: Seq<StoredPageSnapshotObservation<N>>,
    observations: Seq<StoredPageSnapshotObservation<N>>,
    pages: Seq<StoredPageModel>,
    lineage: LogLineage,
    index: nat,
    place: int,
    shown: StoredPageSnapshotObservation<N>,
)
    requires
        index < pages.len(),
        is_store_inventory(earlier, pages.take(index as int), lineage),
        0 <= place <= earlier.len(),
        observations == earlier.insert(place, shown),
        ascending(observations),
        shows_page(shown, pages[index as int], lineage),
        forall|j: int|
            0 <= j < earlier.len() ==> exists|i: int|
                0 <= i < index && (#[trigger] earlier[j]).page_number@ == (
                #[trigger] pages[i]).number,
    ensures
        is_store_inventory(observations, pages.take(index as int + 1), lineage),
        forall|j: int|
            0 <= j < observations.len() ==> exists|i: int|
                0 <= i < index + 1 && (#[trigger] observations[j]).page_number@ == (
                #[trigger] pages[i]).number,
{
    let before = pages.take(index as int);
    let after = pages.take(index as int + 1);
    assert forall|i: int| 0 <= i < after.len() implies is_shown(
        observations,
        #[trigger] after[i],
        lineage,
    ) by {
        if i < index {
            assert(after[i] == before[i]);
            assert(is_shown(earlier, before[i], lineage));
            let j = choose|j: int|
                0 <= j < earlier.len() && shows_page(#[trigger] earlier[j], before[i], lineage);
            let moved = if j < place {
                j
            } else {
                j + 1
            };
            assert(observations[moved] == earlier[j]);
            assert(shows_page(observations[moved], after[i], lineage));
        } else {
            assert(observations[place] == shown);
            assert(shows_page(observations[place], after[i], lineage));
        }
    }
    assert forall|j: int| 0 <= j < observations.len() implies exists|i: int|
        0 <= i < index + 1 && (#[trigger] observations[j]).page_number@ == (
        #[trigger] pages[i]).number by {
        if j == place {
            assert(observations[j].page_number@ == pages[index as int].number);
        } else {
            let old_place = if j < place {
                j
            } else {
                j - 1
            };
            assert(observations[j] == earlier[old_place]);
            let i = choose|i: int|
                0 <= i < index && earlier[old_place].page_number@ == (#[trigger] pages[i]).number;
            assert(observations[j].page_number@ == pages[i].number);
        }
    }
}

/// Reads the files of a commit log and of the page store that belongs to it. The
/// log comes first.
pub fn open_transaction_page_storage<const N: usize>(log: &[u8], store: &[u8]) -> (result: Result<
    (LockedFileCommitLogOpen<N>, LockedFilePageStoreOpen<N>),
    FileTransactionPageStorageOpenError,
>)
    ensures
        match result {
            Ok((log_opened, store_opened)) => {
                &&& PageLayout::width_error(N) is None
                &&& FileCommitLog::opens(
                    log@,
                    HeaderExpectation::V3OrLater(PageLayout::of(N as nat)),
                    Ok(log_opened),
                )
                &&& FilePageStore::opens(store@, Ok(store_opened))
            },
            Err(FileTransactionPageStorageOpenError::CommitLog(error)) =>
                match PageLayout::width_error(N) {
                    Some(expected) => error == FileOpenError::PageWidth(expected),
                    None => FileCommitLog::<N>::opens(
                        log@,
                        HeaderExpectation::V3OrLater(PageLayout::of(N as nat)),
                        Err(error),
                    ),
                },
            Err(FileTransactionPageStorageOpenError::PageStore(error)) => {
                &&& PageLayout::width_error(N) is None
                &&& FilePageStore::<N>::opens(store@, Err(error))
                &&& exists|log_opened: LockedFileCommitLogOpen<N>|
                    FileCommitLog::opens(
                        log@,
                        HeaderExpectation::V3OrLater(PageLayout::of(N as nat)),
                        Ok(log_opened),
                    )
            },
        },
{
    let log_opened: LockedFileCommitLogOpen<N> =
        match FileCommitLog::open_transaction_page_capable(log) {
        Ok(opened) => opened,
        Err(error) => {
            return Err(FileTransactionPageStorageOpenError::CommitLog(error));
        },
    };
    assert(FileCommitLog::opens(
        log@,
        HeaderExpectation::V3OrLater(PageLayout::of(N as nat)),
        Ok(log_opened),
    ));
    match FilePageStore::open(store) {
        Ok(store_opened) => Ok((log_opened, store_opened)),
        Err(error) => Err(FileTransactionPageStorageOpenError::PageStore(error)),
    }
}

} // verus!
