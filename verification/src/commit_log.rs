//! The commit log: its state, and the decisions of each of its operations.
//!
//! An operation that has to touch the file comes in two halves. The first checks
//! everything that can be refused and returns a plan: the effects to be carried
//! out on the file. When all of them have succeeded, the second half makes the
//! log's state say so. When one of them fails, [`FileCommitLog::effect_failed`]
//! takes its place, and where the content of the file has become uncertain the
//! log refuses every further operation until it is opened again.
use vstd::prelude::*;

use crate::bytes::read_u16;
use crate::database_identity::{
    DatabaseFileHeaderIdentity, DatabaseFileRole, DatabaseStorageIdentity,
};
use crate::format::{LogFormat, PageLayout, FRAME_LENGTH};
use crate::identity::{LogLineage, LogSequenceNumber, PersistentLogId, TransactionId};
use crate::log_effect::{
    build_record_effects, effect_models, record_effects, EffectModel, FileEffect,
};
use crate::log_error::{
    FaultAlreadyArmed, FaultPoint, FileCommitLogError, FileCreateError, FileFormatError,
    FileFormatErrorReason, FileIoError, FileIoStage, FileOpenError, FileTransactionEpochError,
};
use crate::log_frame::{build_frame, number_frame_bytes, FrameKind};
use crate::log_header::{
    build_header_v1, build_header_v2, build_header_v3, build_header_v5_initial, header_bytes,
    header_v5_bytes, parse_header, parse_header_v4, parse_header_v5, HeaderExpectation,
    ReclaimedCoordinates, V5HeaderMetadata,
};
use crate::log_model::{
    coverage_error, first_position, frames_end, holds_a_record, initial_scan, numbered, opened,
    read_header, repaired_len, HeaderModel, LogModel, OpenedModel,
};
use crate::log_open_state::{find_position, OpenState};
use crate::log_record::{
    record_models, records_in_lineage, FileLogRecord, FileLogRecordKind, FilePageWriteRecord,
    FileTransactionPageWriteRecord, PageModel, RecordBody, RecordModel, StoredTransactionIdentity,
};
use crate::log_replay::{lemma_initial_coherent, lemma_scan_coherent};
use crate::log_scan::{position_index, successor};
use crate::page::UnloggedPage;

pub mod reclamation;
pub mod recovery;

verus! {

/// The state of one opened commit log with pages of `N` bytes.
#[derive(Debug)]
pub struct FileCommitLog<const N: usize> {
    format: LogFormat,
    lineage: LogLineage,
    persistent_id: PersistentLogId,
    database_file_identity: Option<DatabaseFileHeaderIdentity>,
    coordinates: Option<ReclaimedCoordinates>,
    records: Vec<FileLogRecord<N>>,
    durable_len: usize,
    next_epoch: Option<u64>,
    next_position: Option<u64>,
    armed_fault: Option<FaultPoint>,
    poisoned: bool,
}

/// A log read from its file, before an unfinished tail has been cut off.
#[derive(Debug)]
pub struct LockedFileCommitLogOpen<const N: usize> {
    log: FileCommitLog<N>,
    repaired_len: Option<u64>,
}

/// The effects that append one record, and the record itself.
#[derive(Debug)]
pub struct AppendPlan<const N: usize> {
    effects: Vec<FileEffect>,
    record: FileLogRecord<N>,
}

/// The effects that make the first records of the log durable.
#[derive(Debug)]
pub struct FlushPlan {
    effects: Vec<FileEffect>,
    durable_len: usize,
}

/// The effects that allocate one transaction epoch.
#[derive(Debug)]
pub struct EpochPlan {
    effects: Vec<FileEffect>,
    epoch: u64,
}

/// Why a restarting coordinator gets no epoch.
#[derive(Debug, PartialEq, Eq)]
pub enum TransactionRestartCoordinatorEpochAllocationError {
    /// No epoch is left.
    IdentitySpaceExhausted { persisted_epoch_high_water: Option<u64> },
    /// The next epoch does not lie beyond what the coordinator has persisted.
    PersistedEpochHighWaterNotAdvanced { persisted_epoch_high_water: u64, next_epoch: u64 },
    /// The log refused.
    Source(FileTransactionEpochError),
}

impl<const N: usize> AppendPlan<N> {
    pub closed spec fn spec_effects(&self) -> Seq<EffectModel> {
        effect_models(self.effects@)
    }

    pub closed spec fn spec_record(&self) -> RecordModel {
        self.record@
    }

    pub closed spec fn spec_lineage(&self) -> LogLineage {
        self.record.spec_lineage()
    }

    /// What has to be done to the file, in order.
    pub fn effects(&self) -> (effects: &Vec<FileEffect>)
        ensures
            effect_models(effects@) == self.spec_effects(),
    {
        &self.effects
    }
}

impl FlushPlan {
    pub closed spec fn spec_effects(&self) -> Seq<EffectModel> {
        effect_models(self.effects@)
    }

    pub closed spec fn spec_durable_len(&self) -> nat {
        self.durable_len as nat
    }

    /// What has to be done to the file, in order.
    pub fn effects(&self) -> (effects: &Vec<FileEffect>)
        ensures
            effect_models(effects@) == self.spec_effects(),
    {
        &self.effects
    }
}

impl EpochPlan {
    pub closed spec fn spec_effects(&self) -> Seq<EffectModel> {
        effect_models(self.effects@)
    }

    pub closed spec fn spec_epoch(&self) -> u64 {
        self.epoch
    }

    /// What has to be done to the file, in order.
    pub fn effects(&self) -> (effects: &Vec<FileEffect>)
        ensures
            effect_models(effects@) == self.spec_effects(),
    {
        &self.effects
    }
}

impl<const N: usize> LockedFileCommitLogOpen<N> {
    pub closed spec fn view(&self) -> OpenedModel {
        OpenedModel { log: self.log@, repaired_len: self.repaired_len }
    }

    pub closed spec fn inv(&self) -> bool {
        self.log.inv()
    }

    /// The length that the file has to be cut to before the log is used.
    pub fn repaired_len(&self) -> (length: Option<u64>)
        ensures
            length == self@.repaired_len,
    {
        self.repaired_len
    }

    pub fn persistent_id(&self) -> (id: PersistentLogId)
        ensures
            id@ == self@.log.persistent_id,
    {
        self.log.persistent_id
    }

    pub fn physical_format_version(&self) -> (version: u16)
        ensures
            version == self@.log.format.spec_version(),
    {
        self.log.format.version()
    }

    pub fn database_file_identity(&self) -> (identity: Option<DatabaseFileHeaderIdentity>)
        ensures
            match self@.log.identity {
                None => identity is None,
                Some(model) => identity matches Some(identity) && identity@ == model,
            },
    {
        self.log.database_file_identity
    }

    /// Whether the file is exactly what the creation of a database leaves behind.
    pub fn is_exact_initial_database_file(&self) -> (exact: bool)
        ensures
            exact == {
                &&& self@.repaired_len is None
                &&& self@.log.format == LogFormat::V5
                &&& self@.log.coordinates is None
                &&& self@.log.records.len() == 0
                &&& self@.log.durable_len == 0
                &&& self@.log.next_epoch == Some(1u64)
                &&& self@.log.next_position == Some(1u64)
            },
    {
        let first_epoch: bool = match self.log.next_epoch {
            Some(epoch) => epoch == 1,
            None => false,
        };
        let first_position: bool = match self.log.next_position {
            Some(position) => position == 1,
            None => false,
        };
        self.repaired_len.is_none() && self.log.format == LogFormat::V5
            && self.log.coordinates.is_none() && self.log.records.len() == 0
            && self.log.durable_len == 0 && first_epoch && first_position
    }

    /// The log, once its file has been cut to [`Self::repaired_len`].
    pub fn finish(self) -> (log: FileCommitLog<N>)
        requires
            self.inv(),
        ensures
            log@ == self@.log,
            log.inv(),
    {
        self.log
    }
}

impl<const N: usize> FileCommitLog<N> {
    pub closed spec fn view(&self) -> LogModel {
        LogModel {
            format: self.format,
            persistent_id: self.persistent_id@,
            identity: match self.database_file_identity {
                Some(identity) => Some(identity@),
                None => None,
            },
            coordinates: self.coordinates,
            width: N as nat,
            records: record_models(self.records@),
            durable_len: self.durable_len as nat,
            next_epoch: self.next_epoch,
            next_position: self.next_position,
            armed_fault: self.armed_fault,
            poisoned: self.poisoned,
        }
    }

    /// The lineage of every position of this log.
    pub closed spec fn spec_lineage(&self) -> LogLineage {
        self.lineage
    }

    pub closed spec fn inv(&self) -> bool {
        &&& self.lineage == LogLineage::Persistent(self.persistent_id)
        &&& records_in_lineage(self.records@, self.lineage)
        &&& self.durable_len <= self.records@.len()
        &&& self.format.has_pages() ==> 0 < N
        &&& N <= usize::MAX - 7
        &&& numbered(self@)
        &&& self.coordinates matches Some(coordinates) ==> coordinates.generation != 0
    }

    /// The lineage of a log is the persistent one of its identity, and the pages of a
    /// log are as wide as its type says.
    pub proof fn law_lineage(&self)
        requires
            self.inv(),
        ensures
            self@.width == N,
            exists|id: PersistentLogId|
                id@ == self@.persistent_id && self.spec_lineage() == LogLineage::Persistent(id),
            forall|id: PersistentLogId|
                #![trigger id@]
                id@ == self@.persistent_id ==> self.spec_lineage() == LogLineage::Persistent(id),
    {
        assert forall|id: PersistentLogId|
            #![trigger id@]
            id@ == self@.persistent_id implies self.spec_lineage() == LogLineage::Persistent(
            id,
        ) by {
            PersistentLogId::lemma_view_injective(id, self.persistent_id);
        }
        assert(self.persistent_id@ == self@.persistent_id);
    }

    /// The positions of a log run without a gap, and the next position follows them.
    pub proof fn law_positions_are_numbered(&self)
        requires
            self.inv(),
        ensures
            numbered(self@),
    {
    }

    /// The durable records of a log are among its records, and a log that can hold pages
    /// has pages of some width.
    pub proof fn law_durable_records_and_width(&self)
        requires
            self.inv(),
        ensures
            self@.durable_len <= self@.records.len(),
            self@.durable_len <= usize::MAX,
            self@.format != LogFormat::V1 ==> N > 0,
    {
    }

    /// The records of a log can be counted.
    pub proof fn law_record_count(&self)
        requires
            self.inv(),
        ensures
            self@.records.len() <= usize::MAX,
    {
        assert(self.records.len() == self.records@.len());
    }

    /// A reclaimed log is of a later generation than the first.
    pub proof fn law_reclaimed_log_has_a_generation(&self)
        requires
            self.inv(),
        ensures
            self@.coordinates matches Some(coordinates) ==> coordinates.generation != 0,
    {
    }

    /// The position numbered `value`, or none.
    pub open spec fn spec_position(&self, value: Option<u64>) -> Option<LogSequenceNumber> {
        match value {
            Some(value) => Some(LogSequenceNumber { lineage: self.spec_lineage(), value }),
            None => None,
        }
    }
}

impl FileCommitLog<0> {
    /// A new empty version 1 log and the header of its file.
    pub fn create_new(persistent_id: PersistentLogId) -> (created: (FileCommitLog<0>, Vec<u8>))
        ensures
            created.0.inv(),
            created.0@ == LogModel::created(LogFormat::V1, persistent_id@, None, 0),
            created.1@ == header_bytes(LogFormat::V1, persistent_id@, 0),
    {
        (
            FileCommitLog::create_new_internal(persistent_id, LogFormat::V1, None),
            build_header_v1(persistent_id),
        )
    }

    /// Reads a version 1 file.
    pub fn open(bytes: &[u8]) -> (result: Result<LockedFileCommitLogOpen<0>, FileOpenError>)
        ensures
            FileCommitLog::<0>::opens(bytes@, HeaderExpectation::V1, result),
    {
        FileCommitLog::inspect_internal(bytes, HeaderExpectation::V1)
    }
}

impl<const N: usize> FileCommitLog<N> {
    fn create_new_internal(
        persistent_id: PersistentLogId,
        format: LogFormat,
        database_file_identity: Option<DatabaseFileHeaderIdentity>,
    ) -> (log: FileCommitLog<N>)
        requires
            format.has_pages() ==> 0 < N,
            N <= usize::MAX - 7,
        ensures
            log.inv(),
            log@ == LogModel::created(
                format,
                persistent_id@,
                match database_file_identity {
                    Some(identity) => Some(identity@),
                    None => None,
                },
                N as nat,
            ),
    {
        let log: FileCommitLog<N> = FileCommitLog {
            format,
            lineage: LogLineage::persistent(persistent_id),
            persistent_id,
            database_file_identity,
            coordinates: None,
            records: Vec::new(),
            durable_len: 0,
            next_epoch: Some(1),
            next_position: Some(1),
            armed_fault: None,
            poisoned: false,
        };
        assert(log@.records =~= Seq::empty());
        log
    }

    /// A new empty version 2 log, which can hold pages, and the header of its file.
    pub fn create_new_page_capable(persistent_id: PersistentLogId) -> (result: Result<
        (FileCommitLog<N>, Vec<u8>),
        FileCreateError,
    >)
        ensures
            match PageLayout::width_error(N) {
                Some(error) => result == Err::<(FileCommitLog<N>, Vec<u8>), _>(
                    FileCreateError::PageWidth(error),
                ),
                None => {
                    &&& result matches Ok((log, header))
                    &&& log.inv()
                    &&& log@ == LogModel::created(LogFormat::V2, persistent_id@, None, N as nat)
                    &&& header@ == header_bytes(LogFormat::V2, persistent_id@, N as u64)
                },
            },
    {
        let layout: PageLayout = match PageLayout::for_const::<N>() {
            Ok(layout) => layout,
            Err(error) => {
                return Err(FileCreateError::PageWidth(error));
            },
        };
        Ok(
            (
                FileCommitLog::create_new_internal(persistent_id, LogFormat::V2, None),
                build_header_v2(persistent_id, layout.width_u64),
            ),
        )
    }

    /// A new empty version 3 log, which can hold pages that transactions own, and
    /// the header of its file.
    pub fn create_new_transaction_page_capable(persistent_id: PersistentLogId) -> (result: Result<
        (FileCommitLog<N>, Vec<u8>),
        FileCreateError,
    >)
        ensures
            match PageLayout::width_error(N) {
                Some(error) => result == Err::<(FileCommitLog<N>, Vec<u8>), _>(
                    FileCreateError::PageWidth(error),
                ),
                None => {
                    &&& result matches Ok((log, header))
                    &&& log.inv()
                    &&& log@ == LogModel::created(LogFormat::V3, persistent_id@, None, N as nat)
                    &&& header@ == header_bytes(LogFormat::V3, persistent_id@, N as u64)
                },
            },
    {
        let layout: PageLayout = match PageLayout::for_const::<N>() {
            Ok(layout) => layout,
            Err(error) => {
                return Err(FileCreateError::PageWidth(error));
            },
        };
        Ok(
            (
                FileCommitLog::create_new_internal(persistent_id, LogFormat::V3, None),
                build_header_v3(persistent_id, layout.width_u64),
            ),
        )
    }

    /// A new empty version 5 log, which carries the identity of its database, and
    /// the header of its file.
    pub fn create_new_database_transaction_page_capable(
        storage_identity: DatabaseStorageIdentity,
    ) -> (result: Result<(FileCommitLog<N>, Vec<u8>), FileCreateError>)
        ensures
            match PageLayout::width_error(N) {
                Some(error) => result == Err::<(FileCommitLog<N>, Vec<u8>), _>(
                    FileCreateError::PageWidth(error),
                ),
                None => {
                    let identity = storage_identity.spec_file_header_identity(
                        DatabaseFileRole::Wal,
                    )@;
                    let persistent_id = storage_identity.persistent_log_id@;
                    &&& result matches Ok((log, header))
                    &&& log.inv()
                    &&& log@ == LogModel::created(
                        LogFormat::V5,
                        persistent_id,
                        Some(identity),
                        N as nat,
                    )
                    &&& header@ == header_v5_bytes(persistent_id, N as u64, None, identity)
                },
            },
    {
        let layout: PageLayout = match PageLayout::for_const::<N>() {
            Ok(layout) => layout,
            Err(error) => {
                return Err(FileCreateError::PageWidth(error));
            },
        };
        let identity: DatabaseFileHeaderIdentity = storage_identity.file_header_identity(
            DatabaseFileRole::Wal,
        );
        let persistent_id: PersistentLogId = storage_identity.persistent_log_id();
        Ok(
            (
                FileCommitLog::create_new_internal(persistent_id, LogFormat::V5, Some(identity)),
                build_header_v5_initial(persistent_id, layout.width_u64, identity),
            ),
        )
    }

    /// Whether `result` is what reading `bytes` has to give. Only running out of
    /// memory, which depends on the machine, may replace it, and only where a record
    /// has to be kept.
    pub open spec fn opens(
        bytes: Seq<u8>,
        expectation: HeaderExpectation,
        result: Result<LockedFileCommitLogOpen<N>, FileOpenError>,
    ) -> bool {
        &&& result matches Ok(log) ==> log.inv()
        &&& match result {
            Ok(log) => opened(bytes, expectation, N as nat) == Ok::<_, FileFormatError>(log@),
            Err(FileOpenError::Format(error)) => opened(bytes, expectation, N as nat) == Err::<
                OpenedModel,
                _,
            >(error),
            Err(error) => {
                &&& error == FileOpenError::RecordCapacityExhausted
                &&& holds_a_record(bytes, expectation, N as nat)
            },
        }
    }

    /// Reads a version 2 file.
    pub fn open_page_capable(bytes: &[u8]) -> (result: Result<
        LockedFileCommitLogOpen<N>,
        FileOpenError,
    >)
        ensures
            match PageLayout::width_error(N) {
                Some(error) => result == Err::<LockedFileCommitLogOpen<N>, _>(
                    FileOpenError::PageWidth(error),
                ),
                None => Self::opens(
                    bytes@,
                    HeaderExpectation::V2(PageLayout::of(N as nat)),
                    result,
                ),
            },
    {
        let layout: PageLayout = match PageLayout::for_const::<N>() {
            Ok(layout) => layout,
            Err(error) => {
                return Err(FileOpenError::PageWidth(error));
            },
        };
        FileCommitLog::inspect_internal(bytes, HeaderExpectation::V2(layout))
    }

    /// Reads a file of version 3 or later.
    pub fn open_transaction_page_capable(bytes: &[u8]) -> (result: Result<
        LockedFileCommitLogOpen<N>,
        FileOpenError,
    >)
        ensures
            match PageLayout::width_error(N) {
                Some(error) => result == Err::<LockedFileCommitLogOpen<N>, _>(
                    FileOpenError::PageWidth(error),
                ),
                None => Self::opens(
                    bytes@,
                    HeaderExpectation::V3OrLater(PageLayout::of(N as nat)),
                    result,
                ),
            },
    {
        let layout: PageLayout = match PageLayout::for_const::<N>() {
            Ok(layout) => layout,
            Err(error) => {
                return Err(FileOpenError::PageWidth(error));
            },
        };
        FileCommitLog::inspect_internal(bytes, HeaderExpectation::V3OrLater(layout))
    }

    fn inspect_internal(bytes: &[u8], expectation: HeaderExpectation) -> (result: Result<
        LockedFileCommitLogOpen<N>,
        FileOpenError,
    >)
        requires
            expectation.spec_page_layout() matches Some(layout) ==> layout.is_for(N as nat),
            N <= usize::MAX - 7,
        ensures
            Self::opens(bytes@, expectation, result),
    {
        let header: FileHeader = match read_file_header(bytes, expectation) {
            Ok(header) => header,
            Err(error) => {
                return Err(FileOpenError::Format(error));
            },
        };
        let lineage: LogLineage = LogLineage::persistent(header.persistent_id);
        let mut state: OpenState<N> = initial_open_state(lineage, expectation, header.coordinates);
        match state.scan_frames(bytes, header.length, header.format) {
            Ok(()) => {},
            Err(error) => {
                return Err(error);
            },
        }
        assert(header.coordinates matches Some(coordinates) ==> coordinates.generation != 0) by {
            reveal(read_header);
        }
        proof {
            let has_layout = expectation.spec_page_layout() is Some;
            let start = initial_scan(header.coordinates, has_layout, N as nat);
            lemma_initial_coherent(header.coordinates, has_layout, N as nat);
            lemma_scan_coherent(
                header.coordinates,
                start,
                bytes@,
                header.length as nat,
                header.format,
            );
        }
        let total: usize = bytes.len();
        let tail: usize = (total - header.length) % FRAME_LENGTH;
        let frames_end: usize = total - tail;
        assert(frames_end == crate::log_model::frames_end(header.length as nat, total as nat));
        match check_coverage(header.coordinates, &state, frames_end as u64) {
            Ok(()) => {},
            Err(error) => {
                return Err(FileOpenError::Format(error));
            },
        }
        let repaired_len: Option<u64> = match state.pending_page_header_offset() {
            Some(offset) => Some(offset),
            None => {
                if tail > 0 {
                    Some(frames_end as u64)
                } else {
                    None
                }
            },
        };
        Ok(
            LockedFileCommitLogOpen {
                log: FileCommitLog {
                    format: header.format,
                    lineage,
                    persistent_id: header.persistent_id,
                    database_file_identity: header.identity,
                    coordinates: header.coordinates,
                    records: state.records,
                    durable_len: state.durable_len,
                    next_epoch: state.next_epoch,
                    next_position: state.next_position,
                    armed_fault: None,
                    poisoned: false,
                },
                repaired_len,
            },
        )
    }
}

/// The header of a file, in whichever version.
struct FileHeader {
    format: LogFormat,
    persistent_id: PersistentLogId,
    coordinates: Option<ReclaimedCoordinates>,
    identity: Option<DatabaseFileHeaderIdentity>,
    length: usize,
}

impl FileHeader {
    spec fn view(&self) -> HeaderModel {
        HeaderModel {
            format: self.format,
            persistent_id: self.persistent_id@,
            coordinates: self.coordinates,
            identity: match self.identity {
                Some(identity) => Some(identity@),
                None => None,
            },
            length: self.length as nat,
        }
    }
}

fn read_file_header(bytes: &[u8], expectation: HeaderExpectation) -> (result: Result<
    FileHeader,
    FileFormatError,
>)
    ensures
        match read_header(bytes@, expectation) {
            Err(error) => result == Err::<FileHeader, _>(error),
            Ok(model) => {
                &&& result matches Ok(header)
                &&& header@ == model
                &&& header.length <= bytes@.len()
                &&& header.length <= 192
                &&& header.coordinates matches Some(coordinates) ==> coordinates.retained_first
                    != Some(0u64)
                &&& header.format.has_pages() == expectation.spec_page_layout() is Some
            },
        },
{
    proof {
        reveal(read_header);
    }
    let total: usize = bytes.len();
    let too_short: FileFormatError = FileFormatError::new(
        0,
        FileFormatErrorReason::HeaderTooShort { actual: total as u64 },
    );
    if total < 64 {
        return Err(too_short);
    }
    let version: u16 = read_u16(bytes, 8);
    let wrong_version: FileFormatError = FileFormatError::new(
        8,
        FileFormatErrorReason::HeaderVersion { actual: version },
    );
    if version == 5 {
        let layout: PageLayout = match expectation.page_layout() {
            Some(layout) if expectation.accepts(LogFormat::V5) => layout,
            _ => {
                return Err(wrong_version);
            },
        };
        if total < 192 {
            return Err(too_short);
        }
        proof {
            assert(bytes@.subrange(0, 192) =~= bytes@.take(192));
            assert(bytes@.take(192).subrange(16, 32) =~= bytes@.subrange(16, 32));
            assert(bytes@.take(192).subrange(128, 176) =~= bytes@.subrange(128, 176));
        }
        return match parse_header_v5(&bytes[0..192], layout) {
            Err(error) => Err(error),
            Ok(metadata) => {
                let coordinates: Option<ReclaimedCoordinates> = v5_coordinates(&metadata);
                Ok(
                    FileHeader {
                        format: LogFormat::V5,
                        persistent_id: metadata.persistent_id,
                        coordinates,
                        identity: Some(metadata.database_file_identity),
                        length: 192,
                    },
                )
            },
        };
    }
    if version == 4 {
        let layout: PageLayout = match expectation.page_layout() {
            Some(layout) if expectation.accepts(LogFormat::V4) => layout,
            _ => {
                return Err(wrong_version);
            },
        };
        if total < 128 {
            return Err(too_short);
        }
        proof {
            assert(bytes@.subrange(0, 128) =~= bytes@.take(128));
            assert(bytes@.take(128).subrange(16, 32) =~= bytes@.subrange(16, 32));
        }
        return match parse_header_v4(&bytes[0..128], layout) {
            Err(error) => Err(error),
            Ok(metadata) => Ok(
                FileHeader {
                    format: LogFormat::V4,
                    persistent_id: metadata.persistent_id,
                    coordinates: Some(
                        ReclaimedCoordinates {
                            generation: metadata.generation,
                            retained_first: metadata.retained_first,
                            logical_high_water: metadata.logical_high_water,
                            allocated_epoch_high_water: metadata.allocated_epoch_high_water,
                            anchor_version: metadata.selected_checkpoint_anchor.0,
                            anchor_value: metadata.selected_checkpoint_anchor.1,
                        },
                    ),
                    identity: None,
                    length: 128,
                },
            ),
        };
    }
    proof {
        assert(bytes@.subrange(0, 64) =~= bytes@.take(64));
        assert(bytes@.take(64).subrange(16, 32) =~= bytes@.subrange(16, 32));
        assert(bytes@.take(64).subrange(8, 10) =~= bytes@.subrange(8, 10));
    }
    match parse_header(&bytes[0..64], expectation) {
        Err(error) => Err(error),
        Ok(persistent_id) => {
            let format: LogFormat = match version {
                1 => LogFormat::V1,
                2 => LogFormat::V2,
                _ => LogFormat::V3,
            };
            Ok(FileHeader { format, persistent_id, coordinates: None, identity: None, length: 64 })
        },
    }
}

fn v5_coordinates(metadata: &V5HeaderMetadata) -> (coordinates: Option<ReclaimedCoordinates>)
    ensures
        forall|expected: Option<ReclaimedCoordinates>| #[trigger]
            metadata.has_coordinates(expected) ==> coordinates == expected,
{
    match (metadata.allocated_epoch_high_water, metadata.selected_checkpoint_anchor) {
        (Some(allocated_epoch_high_water), Some((anchor_version, anchor_value))) => Some(
            ReclaimedCoordinates {
                generation: metadata.generation,
                retained_first: metadata.retained_first,
                logical_high_water: metadata.logical_high_water,
                allocated_epoch_high_water,
                anchor_version,
                anchor_value,
            },
        ),
        _ => None,
    }
}

fn initial_open_state<const N: usize>(
    lineage: LogLineage,
    expectation: HeaderExpectation,
    coordinates: Option<ReclaimedCoordinates>,
) -> (state: OpenState<N>)
    requires
        expectation.spec_page_layout() matches Some(layout) ==> layout.is_for(N as nat) && N
            <= usize::MAX - 7,
        coordinates matches Some(coordinates) ==> coordinates.retained_first != Some(0u64),
    ensures
        state.inv(),
        state.lineage == lineage,
        state@ == initial_scan(coordinates, expectation.spec_page_layout() is Some, N as nat),
{
    match coordinates {
        None => OpenState::new(lineage, expectation.page_layout(), 0, Some(1), 0, None),
        Some(coordinates) => {
            let (next_position, last_completed, last_durable): (Option<u64>, u64, Option<u64>) =
                match (coordinates.retained_first, coordinates.logical_high_water) {
                (Some(first), _) => (Some(first), first - 1, None),
                (None, Some(high)) => (high.checked_add(1), high, Some(high)),
                (None, None) => (Some(1), 0, None),
            };
            OpenState::new(
                lineage,
                expectation.page_layout(),
                coordinates.allocated_epoch_high_water,
                next_position,
                last_completed,
                last_durable,
            )
        },
    }
}

fn check_coverage<const N: usize>(
    coordinates: Option<ReclaimedCoordinates>,
    state: &OpenState<N>,
    frames_end: u64,
) -> (result: Result<(), FileFormatError>)
    requires
        state.inv(),
    ensures
        result == match coverage_error(coordinates, state@, frames_end) {
            Some(error) => Err(error),
            None => Ok(()),
        },
{
    let coordinates: ReclaimedCoordinates = match coordinates {
        None => {
            return Ok(());
        },
        Some(coordinates) => coordinates,
    };
    let promised: Option<u64> = coordinates.logical_high_water;
    let promised_or_zero: u64 = match promised {
        Some(high) => high,
        None => 0,
    };
    if state.last_completed_position < promised_or_zero {
        let actual: Option<u64> = if state.last_completed_position == 0 {
            None
        } else {
            Some(state.last_completed_position)
        };
        return Err(
            FileFormatError::new(
                frames_end,
                FileFormatErrorReason::HeaderV4LogicalHighWaterMismatch {
                    expected: promised,
                    actual,
                },
            ),
        );
    }
    let actual_first: Option<u64> = if state.durable_len > 0 {
        Some(state.records[0].position().get())
    } else {
        None
    };
    if coordinates.retained_first.is_some() && actual_first != coordinates.retained_first {
        return Err(
            FileFormatError::new(
                48,
                FileFormatErrorReason::HeaderV4RetainedFirstMismatch {
                    expected: coordinates.retained_first,
                    actual: actual_first,
                },
            ),
        );
    }
    match promised {
        None => Ok(()),
        Some(high) => {
            let covered: bool = match state.last_durable_position {
                Some(position) => position >= high,
                None => false,
            };
            if covered {
                Ok(())
            } else {
                Err(
                    FileFormatError::new(
                        56,
                        FileFormatErrorReason::HeaderV4LogicalHighWaterMismatch {
                            expected: promised,
                            actual: state.last_durable_position,
                        },
                    ),
                )
            }
        },
    }
}

/// What appending a record of the given body would be refused for, once the
/// log's writer is known to be sound.
pub open spec fn append_refusal(log: LogModel) -> Option<FileCommitLogError> {
    if log.next_position is None {
        Some(FileCommitLogError::PositionSpaceExhausted)
    } else if log.armed_fault == Some(FaultPoint::BeforeAppend) {
        Some(FileCommitLogError::InjectedFault(FaultPoint::BeforeAppend))
    } else {
        None
    }
}

/// What appending a page would be refused for.
pub open spec fn page_append_refusal<const PAGE_N: usize>(
    log: LogModel,
    lineage: LogLineage,
    page: UnloggedPage<PAGE_N>,
) -> Option<FileCommitLogError> {
    if log.poisoned {
        Some(FileCommitLogError::PoisonedWriter)
    } else if !log.format.has_pages() {
        Some(FileCommitLogError::PageSupportUnavailable)
    } else if log.width != PAGE_N {
        Some(
            FileCommitLogError::PageWidthMismatch { expected: log.width as usize, actual: PAGE_N },
        )
    } else if page.address.lineage != lineage {
        Some(FileCommitLogError::ForeignPageLineage(page.address.number))
    } else {
        append_refusal(log)
    }
}

/// What appending a page that a transaction owns would be refused for.
pub open spec fn transaction_page_append_refusal<const PAGE_N: usize>(
    log: LogModel,
    lineage: LogLineage,
    page: UnloggedPage<PAGE_N>,
) -> Option<FileCommitLogError> {
    if !log.format.has_transaction_pages() {
        Some(FileCommitLogError::TransactionPageSupportUnavailable)
    } else {
        page_append_refusal(log, lineage, page)
    }
}

/// What appending a commit record would be refused for.
pub open spec fn commit_append_refusal(log: LogModel) -> Option<FileCommitLogError> {
    if log.poisoned {
        Some(FileCommitLogError::PoisonedWriter)
    } else {
        append_refusal(log)
    }
}

/// The body of a transaction's commit record.
pub open spec fn commit_body(transaction_id: TransactionId) -> RecordBody {
    RecordBody::Commit {
        epoch: transaction_id.spec_epoch(),
        sequence: transaction_id.spec_sequence(),
    }
}

/// The identity under which a record names a transaction.
pub open spec fn stored_identity(transaction_id: TransactionId) -> StoredTransactionIdentity {
    StoredTransactionIdentity {
        epoch: transaction_id.spec_epoch(),
        sequence: transaction_id.spec_sequence(),
    }
}

/// The log after a refusal: an injected fault has been used up.
pub open spec fn after_refusal(log: LogModel, error: FileCommitLogError) -> LogModel {
    if error is InjectedFault {
        LogModel { armed_fault: None, ..log }
    } else {
        log
    }
}

/// The content of a page that is to be appended.
pub open spec fn page_content<const PAGE_N: usize>(page: UnloggedPage<PAGE_N>) -> PageModel {
    PageModel {
        number: page.address.number@,
        version: page.version.value,
        bytes: page.bytes@,
    }
}

/// The body of the record under which a page is appended.
pub open spec fn page_body<const PAGE_N: usize>(
    page: UnloggedPage<PAGE_N>,
    owner: Option<StoredTransactionIdentity>,
) -> RecordBody {
    match owner {
        None => RecordBody::Page { page: page_content(page) },
        Some(owner) => RecordBody::OwnedPage {
            epoch: owner.epoch,
            sequence: owner.sequence,
            page: page_content(page),
        },
    }
}

/// The log after `record` has been appended to its file.
pub open spec fn after_append(log: LogModel, record: RecordModel) -> LogModel {
    LogModel {
        records: log.records.push(record),
        next_position: successor(record.position),
        armed_fault: if log.armed_fault == Some(FaultPoint::AfterAppend) {
            None
        } else {
            log.armed_fault
        },
        ..log
    }
}

impl<const N: usize> FileCommitLog<N> {
    /// Whether `plan` appends a record of the given body at the next position.
    pub open spec fn plans_append(&self, body: RecordBody, plan: AppendPlan<N>) -> bool {
        &&& self@.next_position matches Some(position)
        &&& plan.spec_record() == (RecordModel { position, body })
        &&& plan.spec_lineage() == self.spec_lineage()
        &&& plan.spec_effects() == record_effects(
            self@.format,
            RecordModel { position, body },
        )
    }

    /// Whether `result` is what an attempt to append has to give, where
    /// `has_room` says whether another record can be kept.
    pub open spec fn attempts_append(
        before: FileCommitLog<N>,
        after: FileCommitLog<N>,
        refusal: Option<FileCommitLogError>,
        body: RecordBody,
        has_room: bool,
        result: Result<AppendPlan<N>, FileCommitLogError>,
    ) -> bool {
        &&& after.spec_lineage() == before.spec_lineage()
        &&& match refusal {
            Some(error) => {
                &&& result == Err::<AppendPlan<N>, _>(error)
                &&& after@ == after_refusal(before@, error)
            },
            None => {
                &&& after@ == before@
                &&& if has_room {
                    result matches Ok(plan) && before.plans_append(body, plan)
                } else {
                    result == Err::<AppendPlan<N>, _>(FileCommitLogError::RecordCapacityExhausted)
                }
            },
        }
    }

    /// The same where nothing is known of the room for another record.
    pub open spec fn may_append(
        before: FileCommitLog<N>,
        after: FileCommitLog<N>,
        refusal: Option<FileCommitLogError>,
        body: RecordBody,
        result: Result<AppendPlan<N>, FileCommitLogError>,
    ) -> bool {
        ||| Self::attempts_append(before, after, refusal, body, true, result)
        ||| Self::attempts_append(before, after, refusal, body, false, result)
    }

    /// Plans the append of one record.
    fn plan_record(&mut self, kind: FileLogRecordKind<N>, has_room: bool) -> (result: Result<
        AppendPlan<N>,
        FileCommitLogError,
    >)
        requires
            old(self).inv(),
        ensures
            final(self).inv(),
            Self::attempts_append(
                *old(self),
                *final(self),
                append_refusal(old(self)@),
                kind@,
                has_room,
                result,
            ),
    {
        let position_value: u64 = match self.next_position {
            Some(position) => position,
            None => {
                return Err(FileCommitLogError::PositionSpaceExhausted);
            },
        };
        if self.consume_fault(FaultPoint::BeforeAppend) {
            return Err(FileCommitLogError::InjectedFault(FaultPoint::BeforeAppend));
        }
        if !has_room {
            return Err(FileCommitLogError::RecordCapacityExhausted);
        }
        let record: FileLogRecord<N> = FileLogRecord::new(
            self.lineage.position(position_value),
            kind,
        );
        let effects: Vec<FileEffect> = build_record_effects(self.format, &record);
        Ok(AppendPlan { effects, record })
    }

    /// Plans the append of one page. `has_room` says whether another record can
    /// be kept.
    pub fn append_page_group<const PAGE_N: usize>(
        &mut self,
        page: &UnloggedPage<PAGE_N>,
        owner: Option<StoredTransactionIdentity>,
        has_room: bool,
    ) -> (result: Result<AppendPlan<N>, FileCommitLogError>)
        requires
            old(self).inv(),
        ensures
            final(self).inv(),
            Self::attempts_append(
                *old(self),
                *final(self),
                page_append_refusal(old(self)@, old(self).spec_lineage(), *page),
                page_body(*page, owner),
                has_room,
                result,
            ),
    {
        if self.poisoned {
            return Err(FileCommitLogError::PoisonedWriter);
        }
        if !self.format.supports_pages() {
            return Err(FileCommitLogError::PageSupportUnavailable);
        }
        if N != PAGE_N {
            return Err(FileCommitLogError::PageWidthMismatch { expected: N, actual: PAGE_N });
        }
        if !self.lineage.same_lineage(&page.address.lineage) {
            return Err(FileCommitLogError::ForeignPageLineage(page.address.number));
        }
        let mut bytes: [u8; N] = [0u8; N];
        let mut index: usize = 0;
        while index < N
            invariant
                index <= N == PAGE_N,
                forall|i: int| 0 <= i < index ==> bytes@[i] == page.bytes@[i],
            decreases N - index,
        {
            bytes[index] = page.bytes[index];
            index = index + 1;
        }
        assert(bytes@ =~= page.bytes@);
        let content: FilePageWriteRecord<N> = FilePageWriteRecord::new(
            page.address.number,
            page.version,
            bytes,
        );
        let kind: FileLogRecordKind<N> = match owner {
            Some(owner) => FileLogRecordKind::TransactionPageWrite(
                FileTransactionPageWriteRecord::new(owner, content),
            ),
            None => FileLogRecordKind::PageWrite(content),
        };
        self.plan_record(kind, has_room)
    }

    /// Plans the append of a raw page.
    ///
    /// Whether another record can be kept depends on the machine: instead of a
    /// plan there may be [`FileCommitLogError::RecordCapacityExhausted`].
    pub fn append_page<const PAGE_N: usize>(&mut self, page: &UnloggedPage<PAGE_N>) -> (result:
        Result<AppendPlan<N>, FileCommitLogError>)
        requires
            old(self).inv(),
        ensures
            final(self).inv(),
            Self::may_append(
                *old(self),
                *final(self),
                page_append_refusal(old(self)@, old(self).spec_lineage(), *page),
                page_body(*page, None),
                result,
            ),
    {
        let has_room: bool = self.has_room();
        self.append_page_group(page, None, has_room)
    }

    /// Plans the append of a page that a transaction owns.
    ///
    /// Whether another record can be kept depends on the machine: instead of a
    /// plan there may be [`FileCommitLogError::RecordCapacityExhausted`].
    pub fn append_transaction_page<const PAGE_N: usize>(
        &mut self,
        page: &UnloggedPage<PAGE_N>,
        transaction_id: TransactionId,
    ) -> (result: Result<AppendPlan<N>, FileCommitLogError>)
        requires
            old(self).inv(),
        ensures
            final(self).inv(),
            Self::may_append(
                *old(self),
                *final(self),
                transaction_page_append_refusal(old(self)@, old(self).spec_lineage(), *page),
                page_body(*page, Some(stored_identity(transaction_id))),
                result,
            ),
    {
        let has_room: bool = self.has_room();
        let owner: StoredTransactionIdentity = StoredTransactionIdentity::from_transaction_id(
            transaction_id,
        );
        if !self.format.supports_transaction_pages() {
            return Err(FileCommitLogError::TransactionPageSupportUnavailable);
        }
        self.append_page_group(page, Some(owner), has_room)
    }

    /// Plans the append of a commit record. `has_room` says whether another
    /// record can be kept.
    pub fn append_commit_record(&mut self, transaction_id: TransactionId, has_room: bool) -> (result:
        Result<AppendPlan<N>, FileCommitLogError>)
        requires
            old(self).inv(),
        ensures
            final(self).inv(),
            Self::attempts_append(
                *old(self),
                *final(self),
                commit_append_refusal(old(self)@),
                commit_body(transaction_id),
                has_room,
                result,
            ),
    {
        if self.poisoned {
            return Err(FileCommitLogError::PoisonedWriter);
        }
        self.plan_record(
            FileLogRecordKind::TransactionCommit {
                transaction_epoch: transaction_id.epoch(),
                transaction_sequence: transaction_id.sequence(),
            },
            has_room,
        )
    }

    /// Plans the append of a commit record.
    ///
    /// Whether another record can be kept depends on the machine: instead of a
    /// plan there may be [`FileCommitLogError::RecordCapacityExhausted`].
    pub fn append_commit(&mut self, transaction_id: TransactionId) -> (result: Result<
        AppendPlan<N>,
        FileCommitLogError,
    >)
        requires
            old(self).inv(),
        ensures
            final(self).inv(),
            Self::may_append(
                *old(self),
                *final(self),
                commit_append_refusal(old(self)@),
                commit_body(transaction_id),
                result,
            ),
    {
        let has_room: bool = self.has_room();
        self.append_commit_record(transaction_id, has_room)
    }

    /// Whether memory for one more record can be had. The answer depends on the
    /// machine; the log stays as it is.
    fn has_room(&mut self) -> (room: bool)
        requires
            old(self).inv(),
        ensures
            final(self).inv(),
            final(self)@ == old(self)@,
            final(self).spec_lineage() == old(self).spec_lineage(),
    {
        self.records.try_reserve(1).is_ok()
    }

    /// Takes a record into the log whose effects have all succeeded.
    pub fn finish_append(&mut self, plan: AppendPlan<N>) -> (result: Result<
        LogSequenceNumber,
        FileCommitLogError,
    >)
        requires
            old(self).inv(),
            plan.spec_lineage() == old(self).spec_lineage(),
            old(self)@.next_position == Some(plan.spec_record().position),
        ensures
            final(self).inv(),
            final(self).spec_lineage() == old(self).spec_lineage(),
            final(self)@ == after_append(old(self)@, plan.spec_record()),
            result == if old(self)@.armed_fault == Some(FaultPoint::AfterAppend) {
                Err(FileCommitLogError::InjectedFault(FaultPoint::AfterAppend))
            } else {
                Ok(
                    LogSequenceNumber {
                        lineage: old(self).spec_lineage(),
                        value: plan.spec_record().position,
                    },
                )
            },
    {
        let position: LogSequenceNumber = *plan.record.position();
        let ghost records_before = self.records@;
        self.records.push(plan.record);
        assert(record_models(self.records@) =~= record_models(records_before).push(
            plan.spec_record(),
        ));
        self.next_position = position.get().checked_add(1);
        if self.consume_fault(FaultPoint::AfterAppend) {
            Err(FileCommitLogError::InjectedFault(FaultPoint::AfterAppend))
        } else {
            Ok(position)
        }
    }

    /// Whether a failed effect leaves the content of the file uncertain. Only the
    /// synchronization that precedes a durability marker changes nothing.
    pub open spec fn stage_poisons(stage: FileIoStage) -> bool {
        stage != FileIoStage::SyncCommitPrefix
    }

    /// Records that an effect of a plan has failed, and gives the error to report.
    pub fn effect_failed(&mut self, stage: FileIoStage, source: std::io::Error) -> (error:
        FileIoError)
        requires
            old(self).inv(),
        ensures
            final(self).inv(),
            final(self).spec_lineage() == old(self).spec_lineage(),
            final(self)@ == (LogModel {
                poisoned: old(self)@.poisoned || Self::stage_poisons(stage),
                ..old(self)@
            }),
            error == (FileIoError { stage, source }),
    {
        if stage != FileIoStage::SyncCommitPrefix {
            self.poisoned = true;
        }
        FileIoError::new(stage, source)
    }

    fn consume_fault(&mut self, point: FaultPoint) -> (consumed: bool)
        requires
            old(self).inv(),
        ensures
            final(self).inv(),
            final(self).spec_lineage() == old(self).spec_lineage(),
            consumed == (old(self)@.armed_fault == Some(point)),
            final(self)@ == (LogModel {
                armed_fault: if consumed {
                    None
                } else {
                    old(self)@.armed_fault
                },
                ..old(self)@
            }),
            final(self).records == old(self).records,
            final(self).lineage == old(self).lineage,
            final(self).format == old(self).format,
    {
        match self.armed_fault {
            Some(armed) => {
                if armed == point {
                    self.armed_fault = None;
                    true
                } else {
                    false
                }
            },
            None => false,
        }
    }

    /// Arms one fault without replacing an existing one.
    pub fn arm_fault(&mut self, fault: FaultPoint) -> (result: Result<(), FaultAlreadyArmed>)
        requires
            old(self).inv(),
        ensures
            final(self).inv(),
            final(self).spec_lineage() == old(self).spec_lineage(),
            match old(self)@.armed_fault {
                Some(armed) => {
                    &&& result == Err::<(), _>(FaultAlreadyArmed { armed, requested: fault })
                    &&& final(self)@ == old(self)@
                },
                None => {
                    &&& result == Ok::<_, FaultAlreadyArmed>(())
                    &&& final(self)@ == (LogModel { armed_fault: Some(fault), ..old(self)@ })
                },
            },
    {
        if let Some(armed) = self.armed_fault {
            return Err(FaultAlreadyArmed { armed, requested: fault });
        }
        self.armed_fault = Some(fault);
        Ok(())
    }
}

/// How far a request to make the log durable has to go: the number of records to
/// be covered, or the reason why it is refused.
pub open spec fn flush_request(log: LogModel, lineage: LogLineage, position: LogSequenceNumber) -> Result<
    nat,
    FileCommitLogError,
> {
    if log.poisoned {
        Err(FileCommitLogError::PoisonedWriter)
    } else if position.lineage != lineage {
        Err(FileCommitLogError::ForeignFlushPosition(position))
    } else {
        match position_index(log.records, position.value, 0) {
            None => Err(FileCommitLogError::UnknownFlushPosition(position)),
            Some(index) => if index + 1 > log.durable_len && log.armed_fault == Some(
                FaultPoint::BeforeFlush,
            ) {
                Err(FileCommitLogError::InjectedFault(FaultPoint::BeforeFlush))
            } else {
                Ok(index + 1)
            },
        }
    }
}

/// What making the log durable through `position` does to its file.
pub open spec fn flush_effects(format: LogFormat, position: u64) -> Seq<EffectModel> {
    seq![
        EffectModel::Sync { stage: FileIoStage::SyncCommitPrefix },
        EffectModel::Write {
            stage: FileIoStage::WriteDurableMarker,
            bytes: number_frame_bytes(format, FrameKind::DurableThrough, position, 0, 0),
        },
        EffectModel::Sync { stage: FileIoStage::SyncDurableMarker },
    ]
}

/// The log after a durability marker for its first `durable_len` records.
pub open spec fn after_flush(log: LogModel, durable_len: nat) -> LogModel {
    LogModel {
        durable_len,
        armed_fault: if log.armed_fault == Some(FaultPoint::AfterFlush) {
            None
        } else {
            log.armed_fault
        },
        ..log
    }
}

/// What allocating an epoch does to the file.
pub open spec fn epoch_effects(format: LogFormat, epoch: u64) -> Seq<EffectModel> {
    seq![
        EffectModel::Write {
            stage: FileIoStage::WriteEpochFrame,
            bytes: number_frame_bytes(format, FrameKind::EpochAllocation, epoch, 0, 0),
        },
        EffectModel::Sync { stage: FileIoStage::SyncEpochFrame },
    ]
}

/// What allocating an epoch would be refused for.
pub open spec fn epoch_refusal(log: LogModel) -> Option<FileTransactionEpochError> {
    if log.poisoned {
        Some(FileTransactionEpochError::PoisonedWriter)
    } else if log.next_epoch is None {
        Some(FileTransactionEpochError::EpochSpaceExhausted)
    } else {
        None
    }
}

/// What allocating an epoch for a restarting coordinator would be refused for.
pub open spec fn restart_epoch_refusal(
    log: LogModel,
    persisted_epoch_high_water: Option<u64>,
) -> Option<TransactionRestartCoordinatorEpochAllocationError> {
    match log.next_epoch {
        None => Some(
            TransactionRestartCoordinatorEpochAllocationError::IdentitySpaceExhausted {
                persisted_epoch_high_water,
            },
        ),
        Some(next_epoch) => if persisted_epoch_high_water is Some && next_epoch
            <= persisted_epoch_high_water->0 {
            Some(
                TransactionRestartCoordinatorEpochAllocationError::PersistedEpochHighWaterNotAdvanced {
                    persisted_epoch_high_water: persisted_epoch_high_water->0,
                    next_epoch,
                },
            )
        } else if log.poisoned {
            Some(
                TransactionRestartCoordinatorEpochAllocationError::Source(
                    FileTransactionEpochError::PoisonedWriter,
                ),
            )
        } else {
            None
        },
    }
}

impl<const N: usize> FileCommitLog<N> {
    /// Plans a durability marker through `position`. There is nothing to do, and
    /// no plan, where the position is durable already.
    pub fn flush_through(&mut self, position: &LogSequenceNumber) -> (result: Result<
        Option<FlushPlan>,
        FileCommitLogError,
    >)
        requires
            old(self).inv(),
        ensures
            final(self).inv(),
            final(self).spec_lineage() == old(self).spec_lineage(),
            match flush_request(old(self)@, old(self).spec_lineage(), *position) {
                Err(error) => {
                    &&& result == Err::<Option<FlushPlan>, _>(error)
                    &&& final(self)@ == after_refusal(old(self)@, error)
                },
                Ok(durable_len) => {
                    &&& final(self)@ == old(self)@
                    &&& durable_len <= old(self)@.records.len()
                    &&& if durable_len <= old(self)@.durable_len {
                        result == Ok::<_, FileCommitLogError>(None::<FlushPlan>)
                    } else {
                        &&& result matches Ok(Some(plan))
                        &&& plan.spec_durable_len() == durable_len
                        &&& plan.spec_effects() == flush_effects(old(self)@.format, position.value)
                    }
                },
            },
    {
        if self.poisoned {
            return Err(FileCommitLogError::PoisonedWriter);
        }
        if !self.lineage.same_lineage(position.lineage()) {
            return Err(FileCommitLogError::ForeignFlushPosition(*position));
        }
        let durable_len: usize = match find_position(&self.records, position.get()) {
            Some(index) => index + 1,
            None => {
                return Err(FileCommitLogError::UnknownFlushPosition(*position));
            },
        };
        if durable_len <= self.durable_len {
            return Ok(None);
        }
        if self.consume_fault(FaultPoint::BeforeFlush) {
            return Err(FileCommitLogError::InjectedFault(FaultPoint::BeforeFlush));
        }
        let marker: Vec<u8> = build_frame(
            self.format,
            FrameKind::DurableThrough,
            position.get(),
            0,
            0,
        );
        let mut effects: Vec<FileEffect> = Vec::new();
        effects.push(FileEffect::Sync { stage: FileIoStage::SyncCommitPrefix });
        effects.push(FileEffect::Write { stage: FileIoStage::WriteDurableMarker, bytes: marker });
        effects.push(FileEffect::Sync { stage: FileIoStage::SyncDurableMarker });
        assert(effect_models(effects@) =~= flush_effects(self.format, position.value));
        Ok(Some(FlushPlan { effects, durable_len }))
    }

    /// Takes a durability marker into the log whose effects have all succeeded.
    pub fn finish_flush(&mut self, plan: FlushPlan) -> (result: Result<(), FileCommitLogError>)
        requires
            old(self).inv(),
            plan.spec_durable_len() <= old(self)@.records.len(),
        ensures
            final(self).inv(),
            final(self).spec_lineage() == old(self).spec_lineage(),
            final(self)@ == after_flush(old(self)@, plan.spec_durable_len()),
            result == if old(self)@.armed_fault == Some(FaultPoint::AfterFlush) {
                Err(FileCommitLogError::InjectedFault(FaultPoint::AfterFlush))
            } else {
                Ok(())
            },
    {
        self.durable_len = plan.durable_len;
        if self.consume_fault(FaultPoint::AfterFlush) {
            Err(FileCommitLogError::InjectedFault(FaultPoint::AfterFlush))
        } else {
            Ok(())
        }
    }

    /// Plans the allocation of the next transaction epoch.
    pub fn allocate_transaction_epoch(&self) -> (result: Result<
        EpochPlan,
        FileTransactionEpochError,
    >)
        requires
            self.inv(),
        ensures
            match epoch_refusal(self@) {
                Some(error) => result == Err::<EpochPlan, _>(error),
                None => {
                    &&& result matches Ok(plan)
                    &&& self@.next_epoch == Some(plan.spec_epoch())
                    &&& plan.spec_effects() == epoch_effects(self@.format, plan.spec_epoch())
                },
            },
    {
        if self.poisoned {
            return Err(FileTransactionEpochError::PoisonedWriter);
        }
        let epoch: u64 = match self.next_epoch {
            Some(epoch) => epoch,
            None => {
                return Err(FileTransactionEpochError::EpochSpaceExhausted);
            },
        };
        let frame: Vec<u8> = build_frame(self.format, FrameKind::EpochAllocation, epoch, 0, 0);
        let mut effects: Vec<FileEffect> = Vec::new();
        effects.push(FileEffect::Write { stage: FileIoStage::WriteEpochFrame, bytes: frame });
        effects.push(FileEffect::Sync { stage: FileIoStage::SyncEpochFrame });
        assert(effect_models(effects@) =~= epoch_effects(self.format, epoch));
        Ok(EpochPlan { effects, epoch })
    }

    /// Plans the allocation of an epoch beyond what a restarting coordinator has
    /// persisted.
    pub fn allocate_restart_transaction_epoch(&self, persisted_epoch_high_water: Option<u64>) -> (result:
        Result<EpochPlan, TransactionRestartCoordinatorEpochAllocationError>)
        requires
            self.inv(),
        ensures
            match restart_epoch_refusal(self@, persisted_epoch_high_water) {
                Some(error) => result == Err::<EpochPlan, _>(error),
                None => {
                    &&& result matches Ok(plan)
                    &&& self@.next_epoch == Some(plan.spec_epoch())
                    &&& plan.spec_effects() == epoch_effects(self@.format, plan.spec_epoch())
                },
            },
    {
        let next_epoch: u64 = match self.next_epoch {
            Some(epoch) => epoch,
            None => {
                return Err(
                    TransactionRestartCoordinatorEpochAllocationError::IdentitySpaceExhausted {
                        persisted_epoch_high_water,
                    },
                );
            },
        };
        if let Some(high_water) = persisted_epoch_high_water {
            if next_epoch <= high_water {
                return Err(
                    TransactionRestartCoordinatorEpochAllocationError::PersistedEpochHighWaterNotAdvanced {
                        persisted_epoch_high_water: high_water,
                        next_epoch,
                    },
                );
            }
        }
        match self.allocate_transaction_epoch() {
            Ok(plan) => Ok(plan),
            Err(error) => Err(TransactionRestartCoordinatorEpochAllocationError::Source(error)),
        }
    }

    /// Takes an epoch allocation into the log whose effects have all succeeded.
    pub fn finish_transaction_epoch(&mut self, plan: EpochPlan) -> (allocated: (u64, LogLineage))
        requires
            old(self).inv(),
            old(self)@.next_epoch == Some(plan.spec_epoch()),
        ensures
            final(self).inv(),
            final(self).spec_lineage() == old(self).spec_lineage(),
            final(self)@ == (LogModel {
                next_epoch: successor(plan.spec_epoch()),
                ..old(self)@
            }),
            allocated == (plan.spec_epoch(), old(self).spec_lineage()),
    {
        self.next_epoch = plan.epoch.checked_add(1);
        (plan.epoch, self.lineage)
    }

    /// Returns the persistent lineage ID.
    pub fn persistent_id(&self) -> (id: PersistentLogId)
        ensures
            id@ == self@.persistent_id,
    {
        self.persistent_id
    }

    /// Returns the lineage of the log's positions.
    pub fn lineage(&self) -> (lineage: &LogLineage)
        ensures
            *lineage == self.spec_lineage(),
    {
        &self.lineage
    }

    /// Returns the database-file identity that a version 5 file carries.
    pub fn database_file_identity(&self) -> (identity: Option<DatabaseFileHeaderIdentity>)
        ensures
            match self@.identity {
                None => identity is None,
                Some(model) => identity matches Some(identity) && identity@ == model,
            },
    {
        self.database_file_identity
    }

    /// Returns the version of the file's format.
    pub fn physical_format_version(&self) -> (version: u16)
        ensures
            version == self@.format.spec_version(),
    {
        self.format.version()
    }

    /// Returns the file's generation. It is zero in an unreclaimed file, and every
    /// reclamation advances it by one.
    pub fn generation(&self) -> (generation: u64)
        ensures
            generation == self@.generation(),
    {
        match self.coordinates {
            Some(coordinates) => coordinates.generation,
            None => 0,
        }
    }

    /// Returns the next logical position without consuming it.
    pub fn next_logical_position(&self) -> (position: Option<u64>)
        ensures
            position == self@.next_position,
    {
        self.next_position
    }

    /// Returns the first retained position that the replacement header stores.
    pub fn replacement_header_retained_first(&self) -> (position: Option<LogSequenceNumber>)
        ensures
            position == self.spec_position(self@.retained_first()),
    {
        match self.coordinates {
            Some(coordinates) => match coordinates.retained_first {
                Some(position) => Some(self.lineage.position(position)),
                None => None,
            },
            None => None,
        }
    }

    /// Returns the logical high water that the replacement header stores.
    pub fn replacement_header_logical_high_water(&self) -> (position: Option<LogSequenceNumber>)
        ensures
            position == self.spec_position(self@.logical_high_water()),
    {
        match self.coordinates {
            Some(coordinates) => match coordinates.logical_high_water {
                Some(position) => Some(self.lineage.position(position)),
                None => None,
            },
            None => None,
        }
    }

    /// Returns the epoch high water that the replacement header stores.
    pub fn replacement_header_allocated_epoch_high_water(&self) -> (epoch: Option<u64>)
        ensures
            epoch == match self@.coordinates {
                Some(coordinates) => Some(coordinates.allocated_epoch_high_water),
                None => None::<u64>,
            },
    {
        match self.coordinates {
            Some(coordinates) => Some(coordinates.allocated_epoch_high_water),
            None => None,
        }
    }

    /// Returns the fault that has not yet reached its stage.
    pub fn armed_fault(&self) -> (fault: Option<FaultPoint>)
        ensures
            fault == self@.armed_fault,
    {
        self.armed_fault
    }

    /// Returns whether the file must be opened again before more is done with it.
    pub fn is_poisoned(&self) -> (poisoned: bool)
        ensures
            poisoned == self@.poisoned,
    {
        self.poisoned
    }

    /// Returns every appended record, including those no marker covers.
    pub fn records(&self) -> (records: &[FileLogRecord<N>])
        requires
            self.inv(),
        ensures
            record_models(records@) == self@.records,
            records_in_lineage(records@, self.spec_lineage()),
    {
        self.records.as_slice()
    }

    /// Returns exactly the records that the latest durability marker covers.
    pub fn durable_records(&self) -> (records: &[FileLogRecord<N>])
        requires
            self.inv(),
        ensures
            record_models(records@) == self@.records.take(self@.durable_len as int),
            records_in_lineage(records@, self.spec_lineage()),
    {
        let records: &[FileLogRecord<N>] = &self.records.as_slice()[0..self.durable_len];
        assert(record_models(records@) =~= self@.records.take(self@.durable_len as int));
        records
    }

    /// Returns the durable frontier of the log.
    pub fn durable_position(&self) -> (position: Option<LogSequenceNumber>)
        requires
            self.inv(),
        ensures
            position == self.spec_position(self@.durable_position()),
    {
        if self.durable_len > 0 {
            Some(*self.records[self.durable_len - 1].position())
        } else {
            self.replacement_header_logical_high_water()
        }
    }

    /// Returns the highest epoch allocated so far.
    pub fn allocated_epoch_high_water(&self) -> (epoch: Option<u64>)
        ensures
            epoch == self@.epoch_high_water(),
    {
        match self.next_epoch {
            Some(next) => {
                if next > 1 {
                    Some(next - 1)
                } else {
                    None
                }
            },
            None => Some(u64::MAX),
        }
    }
}

} // verus!
