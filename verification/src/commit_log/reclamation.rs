//! Replacement of a log's file by one that holds only the records still needed.
//!
//! The replacement is written to a candidate file beside the log. What the
//! candidate holds is planned at once; then the actions of
//! [`ReclamationAction`] are carried out one after the other, each of them only
//! after [`FileCommitLog::enter_reclamation_action`] has let it pass.
use vstd::prelude::*;

use crate::commit_log::FileCommitLog;
use crate::format::{chunk_total, LogFormat};
use crate::identity::{LogLineage, LogSequenceNumber, PersistentLogId};
use crate::log_effect::{
    build_record_effects, effect_frames, effect_models, lemma_record_effects_write,
    record_frames, FileEffect,
};
use crate::log_error::{FaultPoint, FileTransactionRestartWalReclamationError};
use crate::log_frame::{build_frame, number_frame_bytes, FrameKind};
use crate::log_header::{
    build_header_v4, build_header_v5_reclaimed, header_v4_bytes, header_v5_bytes,
    ReclaimedCoordinates,
};
use crate::log_model::{first_position, numbered, LogModel};
use crate::log_open_state::find_position;
use crate::log_record::{
    record_models, records_in_lineage, FileLogRecord, FileLogRecordKind, RecordBody, RecordModel,
};
use crate::log_replay::lemma_position_index;
use crate::log_scan::{position_index, successor};
use crate::room::{list_if, reserved};

verus! {

/// Leave to reclaim the prefix of one particular generation of one log.
#[derive(Clone, Copy, Debug, PartialEq, Eq, Structural)]
pub struct DurableTransactionRestartWalReclamationPermit {
    pub persistent_log_id: PersistentLogId,
    pub lineage: LogLineage,
    pub physical_format_version: u16,
    pub source_generation: u64,
    pub durable_frontier: Option<LogSequenceNumber>,
    pub allocated_epoch_high_water: u64,
    /// The first record to be kept; none where nothing has to be kept.
    pub retained_first_logical_record: Option<LogSequenceNumber>,
    /// Version and value of the checkpoint that makes the rest unnecessary.
    pub anchor_version: u16,
    pub anchor_value: u128,
}

/// What can be seen of a log before its prefix is reclaimed.
#[derive(Clone, Copy, Debug, PartialEq, Eq)]
pub struct DurableTransactionRestartWalReclamationSourceObservation {
    pub lineage: LogLineage,
    pub physical_format_version: u16,
    pub generation: u64,
    pub first_durable_record: Option<LogSequenceNumber>,
    pub durable_frontier: Option<LogSequenceNumber>,
    pub allocated_epoch_high_water: u64,
    pub selected_checkpoint_anchor: Option<(u16, u128)>,
}

/// What a reclamation has done.
#[derive(Clone, Copy, Debug, PartialEq, Eq, Structural)]
pub struct DurableTransactionRestartWalReclamationEffectObservation {
    pub source_generation: u64,
    pub replacement_generation: u64,
    pub replacement_format_version: u16,
    pub retained_first_logical_record: Option<LogSequenceNumber>,
    pub durable_frontier: Option<LogSequenceNumber>,
    pub retained_logical_record_count: u64,
    pub retained_physical_unit_count: u64,
    pub allocated_epoch_high_water: u64,
}

/// One action of a reclamation, in the order in which they are carried out.
#[derive(Clone, Copy, Debug, PartialEq, Eq, Structural)]
pub enum ReclamationAction {
    /// Remove what an earlier attempt may have left at the candidate's path.
    RemoveCandidate,
    /// Create and lock the candidate.
    CreateCandidate,
    WriteHeader,
    WriteFrames,
    SyncCandidate,
    /// Put the candidate in the log's place.
    RenameCandidate,
    /// Make the new name durable.
    SyncDirectory,
    SeekEnd,
}

impl ReclamationAction {
    pub open spec fn spec_next(self) -> Option<ReclamationAction> {
        match self {
            ReclamationAction::RemoveCandidate => Some(ReclamationAction::CreateCandidate),
            ReclamationAction::CreateCandidate => Some(ReclamationAction::WriteHeader),
            ReclamationAction::WriteHeader => Some(ReclamationAction::WriteFrames),
            ReclamationAction::WriteFrames => Some(ReclamationAction::SyncCandidate),
            ReclamationAction::SyncCandidate => Some(ReclamationAction::RenameCandidate),
            ReclamationAction::RenameCandidate => Some(ReclamationAction::SyncDirectory),
            ReclamationAction::SyncDirectory => Some(ReclamationAction::SeekEnd),
            ReclamationAction::SeekEnd => None,
        }
    }

    /// The action that follows this one.
    pub fn next(self) -> (next: Option<ReclamationAction>)
        ensures
            next == self.spec_next(),
    {
        match self {
            ReclamationAction::RemoveCandidate => Some(ReclamationAction::CreateCandidate),
            ReclamationAction::CreateCandidate => Some(ReclamationAction::WriteHeader),
            ReclamationAction::WriteHeader => Some(ReclamationAction::WriteFrames),
            ReclamationAction::WriteFrames => Some(ReclamationAction::SyncCandidate),
            ReclamationAction::SyncCandidate => Some(ReclamationAction::RenameCandidate),
            ReclamationAction::RenameCandidate => Some(ReclamationAction::SyncDirectory),
            ReclamationAction::SyncDirectory => Some(ReclamationAction::SeekEnd),
            ReclamationAction::SeekEnd => None,
        }
    }

    /// Whether an armed fault strikes before this action.
    pub open spec fn struck_by(self, fault: FaultPoint) -> bool {
        match self {
            ReclamationAction::RemoveCandidate => fault
                == FaultPoint::BeforeReclamationCandidateCleanup,
            ReclamationAction::CreateCandidate => false,
            ReclamationAction::WriteHeader => fault == FaultPoint::BeforeReclamationWrite,
            ReclamationAction::WriteFrames => fault == FaultPoint::DuringReclamationCopy,
            ReclamationAction::SyncCandidate => fault == FaultPoint::BeforeReclamationCandidateSync,
            ReclamationAction::RenameCandidate => fault == FaultPoint::AfterReclamationCandidateSync
                || fault == FaultPoint::BeforeReclamationRename,
            ReclamationAction::SyncDirectory => fault == FaultPoint::AfterReclamationRename
                || fault == FaultPoint::DuringReclamationDirectorySync,
            ReclamationAction::SeekEnd => false,
        }
    }

    fn is_struck_by(self, fault: FaultPoint) -> (struck: bool)
        ensures
            struck == self.struck_by(fault),
    {
        match self {
            ReclamationAction::RemoveCandidate => fault
                == FaultPoint::BeforeReclamationCandidateCleanup,
            ReclamationAction::CreateCandidate => false,
            ReclamationAction::WriteHeader => fault == FaultPoint::BeforeReclamationWrite,
            ReclamationAction::WriteFrames => fault == FaultPoint::DuringReclamationCopy,
            ReclamationAction::SyncCandidate => fault == FaultPoint::BeforeReclamationCandidateSync,
            ReclamationAction::RenameCandidate => fault == FaultPoint::AfterReclamationCandidateSync
                || fault == FaultPoint::BeforeReclamationRename,
            ReclamationAction::SyncDirectory => fault == FaultPoint::AfterReclamationRename
                || fault == FaultPoint::DuringReclamationDirectorySync,
            ReclamationAction::SeekEnd => false,
        }
    }
}

/// What tells two files of one machine apart.
#[derive(Clone, Copy, Debug, PartialEq, Eq, Structural)]
pub struct FileIdentity {
    pub device: u64,
    pub inode: u64,
}

/// What stands at the candidate's path before a reclamation, or when the log is
/// opened. A machine that cannot identify files gives no identities.
#[derive(Clone, Copy, Debug, PartialEq, Eq, Structural)]
pub enum CandidateObservation {
    Absent,
    /// A link that leads nowhere.
    Dangling,
    Present { candidate: Option<FileIdentity>, selected: Option<FileIdentity> },
}

/// What has to be done about the candidate's path.
#[derive(Clone, Copy, Debug, PartialEq, Eq, Structural)]
pub enum CandidateCleanup {
    Nothing,
    /// Remove what stands there, and make the removal durable.
    Remove,
    /// The path leads to the log's own file, which must not be removed.
    Refuse,
}

/// Whether two files are known to be one.
pub fn metadata_identifies_same_file(
    left: Option<FileIdentity>,
    right: Option<FileIdentity>,
) -> (same: bool)
    ensures
        same == (left is Some && left == right),
{
    match (left, right) {
        (Some(left), Some(right)) => left == right,
        _ => false,
    }
}

/// Decides what to do about the candidate's path.
pub fn cleanup_reclamation_candidate(observation: CandidateObservation) -> (cleanup:
    CandidateCleanup)
    ensures
        cleanup == match observation {
            CandidateObservation::Absent => CandidateCleanup::Nothing,
            CandidateObservation::Dangling => CandidateCleanup::Remove,
            CandidateObservation::Present { candidate, selected } => if candidate is Some
                && candidate == selected {
                CandidateCleanup::Refuse
            } else {
                CandidateCleanup::Remove
            },
        },
{
    match observation {
        CandidateObservation::Absent => CandidateCleanup::Nothing,
        CandidateObservation::Dangling => CandidateCleanup::Remove,
        CandidateObservation::Present { candidate, selected } => {
            if metadata_identifies_same_file(candidate, selected) {
                CandidateCleanup::Refuse
            } else {
                CandidateCleanup::Remove
            }
        },
    }
}

/// The content of the candidate file, and what the log becomes with it.
#[derive(Debug)]
pub struct ReclamationPlan<const N: usize> {
    header: Vec<u8>,
    frames: Vec<Vec<u8>>,
    retained: Vec<FileLogRecord<N>>,
    start: usize,
    coordinates: ReclaimedCoordinates,
    observation: DurableTransactionRestartWalReclamationEffectObservation,
}

/// The frames of a list of records.
pub open spec fn all_record_frames(format: LogFormat, records: Seq<RecordModel>) -> Seq<Seq<u8>>
    decreases records.len(),
{
    if records.len() == 0 {
        Seq::empty()
    } else {
        all_record_frames(format, records.drop_last()) + record_frames(format, records.last())
    }
}

/// The frames of a candidate: the retained records, and a marker that makes them
/// all durable.
pub open spec fn candidate_frames(format: LogFormat, records: Seq<RecordModel>) -> Seq<Seq<u8>> {
    if records.len() == 0 {
        Seq::empty()
    } else {
        all_record_frames(format, records).push(
            number_frame_bytes(
                format,
                FrameKind::DurableThrough,
                records.last().position,
                0,
                0,
            ),
        )
    }
}

pub open spec fn byte_seqs(frames: Seq<Vec<u8>>) -> Seq<Seq<u8>> {
    Seq::new(frames.len(), |i: int| frames[i]@)
}

pub open spec fn position_value(position: Option<LogSequenceNumber>) -> Option<u64> {
    match position {
        Some(position) => Some(position.value),
        None => None,
    }
}

pub open spec fn lineage_position(lineage: LogLineage, value: Option<u64>) -> Option<
    LogSequenceNumber,
> {
    match value {
        Some(value) => Some(LogSequenceNumber { lineage, value }),
        None => None,
    }
}

/// The index of the first record that a permit keeps.
pub open spec fn retained_start(
    log: LogModel,
    lineage: LogLineage,
    permit: DurableTransactionRestartWalReclamationPermit,
) -> Option<nat> {
    match permit.retained_first_logical_record {
        None => Some(log.durable_len),
        Some(floor) => if floor.lineage == lineage {
            position_index(log.records, floor.value, 0)
        } else {
            None
        },
    }
}

/// Whether a permit describes the log as it is.
pub open spec fn permit_matches(
    log: LogModel,
    lineage: LogLineage,
    permit: DurableTransactionRestartWalReclamationPermit,
) -> bool {
    &&& permit.persistent_log_id@ == log.persistent_id
    &&& permit.lineage == lineage
    &&& permit.physical_format_version == log.format.spec_version()
    &&& permit.source_generation == log.generation()
    &&& permit.durable_frontier == lineage_position(lineage, log.durable_position())
    &&& Some(permit.allocated_epoch_high_water) == log.epoch_high_water()
    &&& log.coordinates matches Some(coordinates) ==> coordinates.anchor_version
        == permit.anchor_version && coordinates.anchor_value == permit.anchor_value
}

/// What a reclamation is refused for before anything is planned.
pub open spec fn reclamation_refusal(
    log: LogModel,
    lineage: LogLineage,
    permit: DurableTransactionRestartWalReclamationPermit,
) -> Option<FileTransactionRestartWalReclamationError> {
    if log.poisoned {
        Some(FileTransactionRestartWalReclamationError::PoisonedWriter)
    } else if !log.format.has_transaction_pages() {
        Some(
            FileTransactionRestartWalReclamationError::UnsupportedPhysicalFormat {
                version: log.format.spec_version(),
            },
        )
    } else if log.epoch_high_water() is None {
        Some(FileTransactionRestartWalReclamationError::NoAllocatedEpoch)
    } else if !permit_matches(log, lineage, permit) {
        Some(FileTransactionRestartWalReclamationError::PermitMismatch)
    } else if log.records.len() != log.durable_len {
        Some(
            FileTransactionRestartWalReclamationError::VolatileLogicalSuffix {
                durable_record_count: log.durable_len as usize,
                total_record_count: log.records.len() as usize,
            },
        )
    } else if retained_start(log, lineage, permit) is None {
        Some(
            FileTransactionRestartWalReclamationError::RetainedBoundaryMissing {
                position: permit.retained_first_logical_record->0.value,
            },
        )
    } else {
        None
    }
}

/// What the plan of an admitted reclamation is refused for, where `has_record_room`
/// and `has_frame_room` say whether memory for the retained records and for their
/// frames can be had.
pub open spec fn planning_refusal(
    log: LogModel,
    start: nat,
    has_record_room: bool,
    has_frame_room: bool,
) -> Option<FileTransactionRestartWalReclamationError> {
    let exhausted = FileTransactionRestartWalReclamationError::FrameCapacityExhausted {
        record_count: (log.records.len() - start) as usize,
    };
    if !has_record_room {
        Some(exhausted)
    } else if log.generation() == u64::MAX {
        Some(FileTransactionRestartWalReclamationError::GenerationExhausted)
    } else if !has_frame_room {
        Some(exhausted)
    } else if log.format == LogFormat::V5 && log.identity is None {
        Some(FileTransactionRestartWalReclamationError::MissingDatabaseFileIdentity)
    } else {
        None
    }
}

/// The coordinates of the generation that a reclamation creates.
pub open spec fn reclaimed_coordinates(
    log: LogModel,
    permit: DurableTransactionRestartWalReclamationPermit,
) -> ReclaimedCoordinates {
    ReclaimedCoordinates {
        generation: (log.generation() + 1) as u64,
        retained_first: position_value(permit.retained_first_logical_record),
        logical_high_water: log.durable_position(),
        allocated_epoch_high_water: permit.allocated_epoch_high_water,
        anchor_version: permit.anchor_version,
        anchor_value: permit.anchor_value,
    }
}

/// The log whose file has been replaced by one with the records from `start` on.
pub open spec fn replaced(log: LogModel, coordinates: ReclaimedCoordinates, start: nat) -> LogModel {
    let retained = log.records.skip(start as int);
    LogModel {
        format: if log.format == LogFormat::V5 {
            LogFormat::V5
        } else {
            LogFormat::V4
        },
        coordinates: Some(coordinates),
        records: retained,
        durable_len: retained.len(),
        next_position: match coordinates.logical_high_water {
            Some(position) => successor(position),
            None => Some(1),
        },
        poisoned: false,
        ..log
    }
}

/// The log after a reclamation.
pub open spec fn after_reclamation(
    log: LogModel,
    lineage: LogLineage,
    permit: DurableTransactionRestartWalReclamationPermit,
) -> LogModel {
    replaced(log, reclaimed_coordinates(log, permit), retained_start(log, lineage, permit)->0)
}

/// The header of the candidate.
pub open spec fn candidate_header(log: LogModel) -> Seq<u8> {
    if log.format == LogFormat::V5 {
        header_v5_bytes(log.persistent_id, log.width as u64, log.coordinates, log.identity->0)
    } else {
        header_v4_bytes(log.persistent_id, log.width as u64, log.coordinates->0)
    }
}

/// What a reclamation reports.
pub open spec fn reclamation_report(
    log: LogModel,
    lineage: LogLineage,
    permit: DurableTransactionRestartWalReclamationPermit,
) -> DurableTransactionRestartWalReclamationEffectObservation {
    let after = after_reclamation(log, lineage, permit);
    DurableTransactionRestartWalReclamationEffectObservation {
        source_generation: log.generation(),
        replacement_generation: after.generation(),
        replacement_format_version: after.format.spec_version(),
        retained_first_logical_record: permit.retained_first_logical_record,
        durable_frontier: permit.durable_frontier,
        retained_logical_record_count: after.records.len() as u64,
        retained_physical_unit_count: candidate_frames(after.format, after.records).len() as u64,
        allocated_epoch_high_water: permit.allocated_epoch_high_water,
    }
}

impl<const N: usize> ReclamationPlan<N> {
    /// No replacement is of the first generation.
    #[verifier::type_invariant]
    closed spec fn replaces(self) -> bool {
        self.coordinates.generation != 0
    }

    pub closed spec fn spec_header(&self) -> Seq<u8> {
        self.header@
    }

    pub closed spec fn spec_frames(&self) -> Seq<Seq<u8>> {
        byte_seqs(self.frames@)
    }

    pub closed spec fn spec_start(&self) -> nat {
        self.start as nat
    }

    pub closed spec fn spec_coordinates(&self) -> ReclaimedCoordinates {
        self.coordinates
    }

    /// The records that the candidate keeps.
    pub closed spec fn spec_retained(&self) -> Seq<RecordModel> {
        record_models(self.retained@)
    }

    /// Whether every record that the candidate keeps is of `lineage`.
    pub closed spec fn is_of(&self, lineage: LogLineage) -> bool {
        records_in_lineage(self.retained@, lineage)
    }

    /// Whether the plan fits `log`: it keeps the last of its records, under coordinates
    /// that number them as they were.
    pub open spec fn fits(&self, log: LogModel, lineage: LogLineage) -> bool {
        &&& log.format.has_pages()
        &&& self.spec_start() <= log.records.len()
        &&& self.spec_retained() == log.records.skip(self.spec_start() as int)
        &&& self.is_of(lineage)
        &&& numbered(replaced(log, self.spec_coordinates(), self.spec_start()))
    }

    pub closed spec fn spec_observation(
        &self,
    ) -> DurableTransactionRestartWalReclamationEffectObservation {
        self.observation
    }

    /// The header of the candidate file.
    pub fn header(&self) -> (header: &Vec<u8>)
        ensures
            header@ == self.spec_header(),
    {
        &self.header
    }

    /// The frames of the candidate file, in order.
    pub fn frames(&self) -> (frames: &Vec<Vec<u8>>)
        ensures
            byte_seqs(frames@) == self.spec_frames(),
    {
        &self.frames
    }
}

/// Takes the frames out of writes.
fn append_frames(frames: &mut Vec<Vec<u8>>, effects: Vec<FileEffect>)
    requires
        forall|i: int| 0 <= i < effects@.len() ==> #[trigger] effects@[i] is Write,
    ensures
        byte_seqs(final(frames)@) == byte_seqs(old(frames)@) + effect_frames(
            effect_models(effects@),
        ),
{
    let ghost expected = effect_frames(effect_models(effects@));
    let ghost before = byte_seqs(frames@);
    let ghost content = effects@;
    for effect in iter: effects
        invariant
            iter.seq() == content,
            expected == effect_frames(effect_models(content)),
            forall|i: int| 0 <= i < content.len() ==> #[trigger] content[i] is Write,
            byte_seqs(frames@) =~= before + expected.take(iter.index() as int),
    {
        let ghost earlier = frames@;
        match effect {
            FileEffect::Write { bytes, .. } => {
                frames.push(bytes);
            },
            FileEffect::Sync { .. } => {},
        }
        assert(byte_seqs(frames@) =~= byte_seqs(earlier).push(expected[iter.index() as int]));
    }
    assert(expected.take(expected.len() as int) =~= expected);
}

/// Builds the frames of a candidate with the given records in `room`, the list that is to
/// hold them.
pub fn build_reclamation_frame_plan<const N: usize>(
    records: &Vec<FileLogRecord<N>>,
    format: LogFormat,
    room: Vec<Vec<u8>>,
) -> (frames: Vec<Vec<u8>>)
    requires
        N <= usize::MAX - 7,
        room@ == Seq::<Vec<u8>>::empty(),
    ensures
        byte_seqs(frames@) == candidate_frames(format, record_models(records@)),
{
    let ghost retained = record_models(records@);
    let mut frames: Vec<Vec<u8>> = room;
    let mut index: usize = 0;
    assert(retained.take(0) =~= Seq::<RecordModel>::empty());
    assert(byte_seqs(frames@) =~= all_record_frames(format, retained.take(0)));
    while index < records.len()
        invariant
            index <= records@.len(),
            N <= usize::MAX - 7,
            retained == record_models(records@),
            byte_seqs(frames@) == all_record_frames(format, retained.take(index as int)),
        decreases records@.len() - index,
    {
        let record: &FileLogRecord<N> = &records[index];
        let effects: Vec<FileEffect> = build_record_effects(format, record);
        proof {
            lemma_record_effects_write(format, record@);
            assert forall|i: int| 0 <= i < effects@.len() implies #[trigger] effects@[i] is Write by {
                assert(effect_models(effects@)[i] is Write);
            }
            let longer = retained.take(index + 1);
            assert(longer.drop_last() =~= retained.take(index as int));
            assert(longer.last() == record@);
        }
        append_frames(&mut frames, effects);
        index = index + 1;
    }
    assert(retained.take(retained.len() as int) =~= retained);
    if records.len() > 0 {
        let last: u64 = records[records.len() - 1].position().get();
        frames.push(build_frame(format, FrameKind::DurableThrough, last, 0, 0));
        assert(byte_seqs(frames@) =~= candidate_frames(format, retained));
    }
    frames
}

/// How many frames a record takes.
pub open spec fn record_frame_count(record: RecordModel) -> nat {
    match record.body {
        RecordBody::Commit { .. } => 1,
        RecordBody::Page { page } => 1 + chunk_total(page.bytes.len()),
        RecordBody::OwnedPage { page, .. } => 2 + chunk_total(page.bytes.len()),
    }
}

/// How many frames a list of records takes.
pub open spec fn frame_count(records: Seq<RecordModel>) -> nat
    decreases records.len(),
{
    if records.len() == 0 {
        0
    } else {
        frame_count(records.drop_last()) + record_frame_count(records.last())
    }
}

proof fn lemma_frame_count_grows(records: Seq<RecordModel>, count: nat)
    requires
        count <= records.len(),
    ensures
        frame_count(records.take(count as int)) <= frame_count(records),
    decreases records.len(),
{
    if count == records.len() {
        assert(records.take(count as int) =~= records);
    } else {
        lemma_frame_count_grows(records.drop_last(), count);
        assert(records.drop_last().take(count as int) =~= records.take(count as int));
    }
}

/// Counts the frames of the records from `start` on and of the marker behind them.
fn reclamation_frame_count<const N: usize>(records: &Vec<FileLogRecord<N>>, start: usize) -> (count:
    Option<usize>)
    requires
        start <= records@.len(),
        N <= usize::MAX - 7,
    ensures
        ({
            let retained = record_models(records@).skip(start as int);
            let expected = frame_count(retained) + (if retained.len() > 0 {
                1nat
            } else {
                0nat
            });
            match count {
                Some(count) => count == expected,
                None => expected > usize::MAX,
            }
        }),
{
    let ghost retained = record_models(records@).skip(start as int);
    let chunks: usize = (N + 7) / 8;
    let mut count: usize = if start < records.len() {
        1
    } else {
        0
    };
    let ghost marker = count as nat;
    let mut index: usize = start;
    while index < records.len()
        invariant
            start <= index <= records@.len(),
            chunks == chunk_total(N as nat),
            N <= usize::MAX - 7,
            retained == record_models(records@).skip(start as int),
            marker == (if retained.len() > 0 {
                1nat
            } else {
                0nat
            }),
            count == marker + frame_count(retained.take(index - start)),
        decreases records@.len() - index,
    {
        let record: &FileLogRecord<N> = &records[index];
        let more: usize = match record.kind() {
            FileLogRecordKind::TransactionCommit { .. } => 1,
            FileLogRecordKind::PageWrite(page) => {
                proof {
                    page.lemma_width();
                }
                1 + chunks
            },
            FileLogRecordKind::TransactionPageWrite(owned) => {
                proof {
                    owned.lemma_width();
                }
                2 + chunks
            },
        };
        proof {
            let longer = retained.take(index + 1 - start);
            assert(longer.drop_last() =~= retained.take(index - start));
            assert(longer.last() == record@);
            lemma_frame_count_grows(retained, (index + 1 - start) as nat);
        }
        count = match count.checked_add(more) {
            Some(sum) => sum,
            None => {
                return None;
            },
        };
        index = index + 1;
    }
    assert(retained.take(retained.len() as int) =~= retained);
    Some(count)
}

/// An empty list with memory for the frames of the records from `start` on and of the
/// marker behind them, or none where that memory cannot be had. The answer depends on the
/// machine, unless there are no records or too many frames to be counted.
fn reserved_frames<const N: usize>(records: &Vec<FileLogRecord<N>>, start: usize) -> (room: Option<
    Vec<Vec<u8>>,
>)
    requires
        start <= records@.len(),
        N <= usize::MAX - 7,
    ensures
        room matches Some(list) ==> list@ == Seq::<Vec<u8>>::empty(),
        start == records@.len() ==> room is Some,
        frame_count(record_models(records@).skip(start as int)) >= usize::MAX ==> room is None,
{
    match reclamation_frame_count(records, start) {
        Some(count) => reserved(count),
        None => None,
    }
}

/// An admitted reclamation keeps the positions of the retained records, and the next
/// position.
pub proof fn law_reclamation_keeps_the_next_position(
    log: LogModel,
    lineage: LogLineage,
    permit: DurableTransactionRestartWalReclamationPermit,
)
    requires
        numbered(log),
        reclamation_refusal(log, lineage, permit) is None,
    ensures
        numbered(after_reclamation(log, lineage, permit)),
        after_reclamation(log, lineage, permit).next_position == log.next_position,
{
    let after = after_reclamation(log, lineage, permit);
    let start = retained_start(log, lineage, permit)->0;
    if let Some(floor) = permit.retained_first_logical_record {
        lemma_position_index(log.records, floor.value, 0);
        assert(after.records[0] == log.records[start as int]);
        assert(after.records.last() == log.records.last());
    }
    assert forall|i: int| 0 <= i < after.records.len() implies (
    #[trigger] after.records[i]).position == first_position(after.coordinates)->0 + i by {
        assert(after.records[i] == log.records[start + i]);
    }
}

impl<const N: usize> FileCommitLog<N> {
    /// Checks whether a permit describes this log as it is, and finds the first
    /// record that it keeps.
    pub fn admit_reclamation(&self, permit: &DurableTransactionRestartWalReclamationPermit) -> (result:
        Result<usize, FileTransactionRestartWalReclamationError>)
        requires
            self.inv(),
        ensures
            match reclamation_refusal(self@, self.spec_lineage(), *permit) {
                Some(error) => result == Err::<usize, _>(error),
                None => {
                    &&& result matches Ok(start)
                    &&& retained_start(self@, self.spec_lineage(), *permit) == Some(start as nat)
                    &&& start <= self@.records.len()
                },
            },
    {
        if self.poisoned {
            return Err(FileTransactionRestartWalReclamationError::PoisonedWriter);
        }
        if !self.format.supports_transaction_pages() {
            return Err(
                FileTransactionRestartWalReclamationError::UnsupportedPhysicalFormat {
                    version: self.format.version(),
                },
            );
        }
        let epoch_high_water: u64 = match self.allocated_epoch_high_water() {
            Some(epoch) => epoch,
            None => {
                return Err(FileTransactionRestartWalReclamationError::NoAllocatedEpoch);
            },
        };
        let anchor_matches: bool = match self.coordinates {
            Some(coordinates) => coordinates.anchor_version == permit.anchor_version
                && coordinates.anchor_value == permit.anchor_value,
            None => true,
        };
        if permit.persistent_log_id.get() != self.persistent_id.get() || !permit.lineage.same_lineage(
            &self.lineage,
        ) || permit.physical_format_version != self.format.version() || permit.source_generation
            != self.generation() || permit.durable_frontier != self.durable_position()
            || permit.allocated_epoch_high_water != epoch_high_water || !anchor_matches {
            return Err(FileTransactionRestartWalReclamationError::PermitMismatch);
        }
        if self.records.len() != self.durable_len {
            return Err(
                FileTransactionRestartWalReclamationError::VolatileLogicalSuffix {
                    durable_record_count: self.durable_len,
                    total_record_count: self.records.len(),
                },
            );
        }
        match permit.retained_first_logical_record {
            None => Ok(self.durable_len),
            Some(floor) => {
                let found: Option<usize> = if self.lineage.same_lineage(&floor.lineage) {
                    find_position(&self.records, floor.value)
                } else {
                    None
                };
                match found {
                    Some(start) => Ok(start),
                    None => Err(
                        FileTransactionRestartWalReclamationError::RetainedBoundaryMissing {
                            position: floor.value,
                        },
                    ),
                }
            },
        }
    }

    /// Whether `result` is what planning an admitted reclamation has to give.
    pub open spec fn plans_reclamation(
        &self,
        permit: DurableTransactionRestartWalReclamationPermit,
        has_record_room: bool,
        has_frame_room: bool,
        result: Result<ReclamationPlan<N>, FileTransactionRestartWalReclamationError>,
    ) -> bool {
        let start = retained_start(self@, self.spec_lineage(), permit)->0;
        match planning_refusal(self@, start, has_record_room, has_frame_room) {
            Some(error) => result == Err::<ReclamationPlan<N>, _>(error),
            None => {
                let after = after_reclamation(self@, self.spec_lineage(), permit);
                &&& result matches Ok(plan)
                &&& plan.fits(self@, self.spec_lineage())
                &&& plan.spec_start() == start
                &&& plan.spec_coordinates() == reclaimed_coordinates(self@, permit)
                &&& plan.spec_header() == candidate_header(after)
                &&& plan.spec_frames() == candidate_frames(after.format, after.records)
                &&& plan.spec_observation() == reclamation_report(
                    self@,
                    self.spec_lineage(),
                    permit,
                )
            },
        }
    }

    /// Plans an admitted reclamation that keeps the records from `start` on.
    /// `has_record_room` and `has_frame_room` say whether memory for these records and
    /// for their frames can be had.
    pub fn plan_reclamation(
        &self,
        permit: &DurableTransactionRestartWalReclamationPermit,
        start: usize,
        has_record_room: bool,
        has_frame_room: bool,
    ) -> (result: Result<ReclamationPlan<N>, FileTransactionRestartWalReclamationError>)
        requires
            self.inv(),
            reclamation_refusal(self@, self.spec_lineage(), *permit) is None,
            retained_start(self@, self.spec_lineage(), *permit) == Some(start as nat),
            start <= self@.records.len(),
        ensures
            self.plans_reclamation(*permit, has_record_room, has_frame_room, result),
    {
        self.plan_reclamation_in(permit, start, list_if(has_record_room), list_if(has_frame_room))
    }

    /// Copies the records from `start` on into `room`, the list that is to hold them.
    fn copy_records(&self, start: usize, room: Vec<FileLogRecord<N>>) -> (retained: Vec<
        FileLogRecord<N>,
    >)
        requires
            self.inv(),
            start <= self@.records.len(),
            room@ == Seq::<FileLogRecord<N>>::empty(),
        ensures
            record_models(retained@) == self@.records.skip(start as int),
            records_in_lineage(retained@, self.spec_lineage()),
    {
        let mut retained: Vec<FileLogRecord<N>> = room;
        let mut index: usize = start;
        while index < self.records.len()
            invariant
                self.inv(),
                start <= index <= self.records@.len(),
                retained@.len() == index - start,
                records_in_lineage(retained@, self.lineage),
                forall|i: int|
                    0 <= i < retained@.len() ==> (#[trigger] retained@[i])@ == self.records@[start
                        + i]@,
            decreases self.records@.len() - index,
        {
            let record: FileLogRecord<N> = self.records[index].copied();
            assert(self.records@[index as int].spec_lineage() == self.lineage);
            retained.push(record);
            index = index + 1;
        }
        assert(record_models(retained@) =~= self@.records.skip(start as int));
        retained
    }

    /// Plans an admitted reclamation with `record_room` and `frame_room`, the lists that
    /// are to hold the retained records and their frames, where memory for them can be
    /// had.
    fn plan_reclamation_in(
        &self,
        permit: &DurableTransactionRestartWalReclamationPermit,
        start: usize,
        record_room: Option<Vec<FileLogRecord<N>>>,
        frame_room: Option<Vec<Vec<u8>>>,
    ) -> (result: Result<ReclamationPlan<N>, FileTransactionRestartWalReclamationError>)
        requires
            self.inv(),
            reclamation_refusal(self@, self.spec_lineage(), *permit) is None,
            retained_start(self@, self.spec_lineage(), *permit) == Some(start as nat),
            start <= self@.records.len(),
            record_room matches Some(list) ==> list@ == Seq::<FileLogRecord<N>>::empty(),
            frame_room matches Some(list) ==> list@ == Seq::<Vec<u8>>::empty(),
        ensures
            self.plans_reclamation(*permit, record_room is Some, frame_room is Some, result),
    {
        let retained: Vec<FileLogRecord<N>> = match record_room {
            Some(list) => self.copy_records(start, list),
            None => {
                return Err(
                    FileTransactionRestartWalReclamationError::FrameCapacityExhausted {
                        record_count: self.records.len() - start,
                    },
                );
            },
        };
        let generation: u64 = match self.generation().checked_add(1) {
            Some(generation) => generation,
            None => {
                return Err(FileTransactionRestartWalReclamationError::GenerationExhausted);
            },
        };
        let frames: Vec<Vec<u8>> = match frame_room {
            Some(list) => list,
            None => {
                return Err(
                    FileTransactionRestartWalReclamationError::FrameCapacityExhausted {
                        record_count: self.records.len() - start,
                    },
                );
            },
        };
        let coordinates: ReclaimedCoordinates = ReclaimedCoordinates {
            generation,
            retained_first: match permit.retained_first_logical_record {
                Some(position) => Some(position.value),
                None => None,
            },
            logical_high_water: match self.durable_position() {
                Some(position) => Some(position.value),
                None => None,
            },
            allocated_epoch_high_water: permit.allocated_epoch_high_water,
            anchor_version: permit.anchor_version,
            anchor_value: permit.anchor_value,
        };
        let width: u64 = N as u64;
        let (format, header): (LogFormat, Vec<u8>) = if self.format == LogFormat::V5 {
            match self.database_file_identity {
                None => {
                    return Err(
                        FileTransactionRestartWalReclamationError::MissingDatabaseFileIdentity,
                    );
                },
                Some(identity) => (
                    LogFormat::V5,
                    build_header_v5_reclaimed(self.persistent_id, width, coordinates, identity),
                ),
            }
        } else {
            (LogFormat::V4, build_header_v4(self.persistent_id, width, coordinates))
        };
        let frames: Vec<Vec<u8>> = build_reclamation_frame_plan(&retained, format, frames);
        let observation: DurableTransactionRestartWalReclamationEffectObservation =
            DurableTransactionRestartWalReclamationEffectObservation {
            source_generation: permit.source_generation,
            replacement_generation: generation,
            replacement_format_version: format.version(),
            retained_first_logical_record: permit.retained_first_logical_record,
            durable_frontier: permit.durable_frontier,
            retained_logical_record_count: (self.records.len() - start) as u64,
            retained_physical_unit_count: frames.len() as u64,
            allocated_epoch_high_water: permit.allocated_epoch_high_water,
        };
        assert(byte_seqs(frames@).len() == frames@.len());
        proof {
            law_reclamation_keeps_the_next_position(self@, self.spec_lineage(), *permit);
        }
        Ok(ReclamationPlan { header, frames, retained, start, coordinates, observation })
    }

    /// Plans the replacement of the log's file by one that holds the records which
    /// `permit` keeps.
    ///
    /// Whether memory for the retained records and for their frames can be had depends
    /// on the machine: instead of a plan there may be
    /// [`FileTransactionRestartWalReclamationError::FrameCapacityExhausted`]. Where no
    /// record is retained there is always room.
    pub fn reclaim_restart_wal_prefix(
        &self,
        permit: &DurableTransactionRestartWalReclamationPermit,
    ) -> (result: Result<ReclamationPlan<N>, FileTransactionRestartWalReclamationError>)
        requires
            self.inv(),
        ensures
            match reclamation_refusal(self@, self.spec_lineage(), *permit) {
                Some(error) => result == Err::<ReclamationPlan<N>, _>(error),
                None => {
                    let start = retained_start(self@, self.spec_lineage(), *permit)->0;
                    ||| self.plans_reclamation(*permit, true, true, result)
                    ||| start < self@.records.len() && self.plans_reclamation(
                        *permit,
                        true,
                        false,
                        result,
                    )
                    ||| start < self@.records.len() && self.plans_reclamation(
                        *permit,
                        false,
                        false,
                        result,
                    )
                },
            },
    {
        let start: usize = match self.admit_reclamation(permit) {
            Ok(start) => start,
            Err(error) => {
                return Err(error);
            },
        };
        self.plan_reclamation_in(
            permit,
            start,
            reserved(self.records.len() - start),
            reserved_frames(&self.records, start),
        )
    }

    /// Lets an action of a reclamation pass, unless an armed fault strikes first:
    /// then the log refuses every further operation until it is opened again.
    pub fn enter_reclamation_action(&mut self, action: ReclamationAction) -> (result: Result<
        (),
        FileTransactionRestartWalReclamationError,
    >)
        requires
            old(self).inv(),
        ensures
            final(self).inv(),
            final(self).spec_lineage() == old(self).spec_lineage(),
            match old(self)@.armed_fault {
                Some(fault) if action.struck_by(fault) => {
                    &&& result == Err::<(), _>(
                        FileTransactionRestartWalReclamationError::InjectedFault(fault),
                    )
                    &&& final(self)@ == (LogModel {
                        armed_fault: None,
                        poisoned: true,
                        ..old(self)@
                    })
                },
                _ => {
                    &&& result == Ok::<_, FileTransactionRestartWalReclamationError>(())
                    &&& final(self)@ == old(self)@
                },
            },
    {
        if let Some(fault) = self.armed_fault {
            if action.is_struck_by(fault) {
                self.armed_fault = None;
                self.poisoned = true;
                return Err(FileTransactionRestartWalReclamationError::InjectedFault(fault));
            }
        }
        Ok(())
    }

    /// Records that the candidate's path leads to the log's own file, and gives the
    /// error to report.
    pub fn candidate_aliases_selected(&mut self) -> (error:
        FileTransactionRestartWalReclamationError)
        requires
            old(self).inv(),
        ensures
            final(self).inv(),
            final(self).spec_lineage() == old(self).spec_lineage(),
            final(self)@ == (LogModel { poisoned: true, ..old(self)@ }),
            error == FileTransactionRestartWalReclamationError::CandidateAliasesSelected,
    {
        self.poisoned = true;
        FileTransactionRestartWalReclamationError::CandidateAliasesSelected
    }

    /// Takes a reclamation into the log whose actions have all succeeded.
    pub fn finish_reclamation(&mut self, plan: ReclamationPlan<N>) -> (observation:
        DurableTransactionRestartWalReclamationEffectObservation)
        requires
            old(self).inv(),
            plan.fits(old(self)@, old(self).spec_lineage()),
        ensures
            final(self).inv(),
            final(self).spec_lineage() == old(self).spec_lineage(),
            final(self)@ == replaced(old(self)@, plan.spec_coordinates(), plan.spec_start()),
            observation == plan.spec_observation(),
    {
        proof {
            use_type_invariant(&plan);
        }
        if self.format != LogFormat::V5 {
            self.format = LogFormat::V4;
        }
        self.next_position = match plan.coordinates.logical_high_water {
            Some(position) => position.checked_add(1),
            None => Some(1),
        };
        self.coordinates = Some(plan.coordinates);
        self.durable_len = plan.retained.len();
        self.records = plan.retained;
        self.poisoned = false;
        plan.observation
    }
}

} // verus!
