//! What the steps of a reclamation do, call by call.
use vstd::prelude::*;

use crate::commit_log::reclamation::{
    candidate_frames, cleanup_reclamation_candidate, metadata_identifies_same_file, retained_start,
    CandidateCleanup, CandidateObservation,
    DurableTransactionRestartWalReclamationEffectObservation,
    DurableTransactionRestartWalReclamationPermit, FileIdentity, ReclamationAction, ReclamationPlan,
};
use crate::commit_log::FileCommitLog;
use crate::format::LogFormat;
use crate::identity::LogSequenceNumber;
use crate::log_error::{FaultPoint, FileTransactionRestartWalReclamationError};
use crate::log_header::{header_v4_bytes, header_v5_bytes, ReclaimedCoordinates};
use crate::log_model::LogModel;

use crate::log_recovery_laws::{is_generation_of, is_last_epoch};
use crate::log_replay::lemma_position_index;

verus! {

/// The version number of a format.
pub open spec fn version_number(format: LogFormat) -> u16 {
    match format {
        LogFormat::V1 => 1,
        LogFormat::V2 => 2,
        LogFormat::V3 => 3,
        LogFormat::V4 => 4,
        LogFormat::V5 => 5,
    }
}

/// Whether `frontier` is how far the log is durable: the position of the last durable
/// record, or else the last position that has been reclaimed.
pub open spec fn is_frontier_of<const N: usize>(
    frontier: Option<LogSequenceNumber>,
    log: FileCommitLog<N>,
) -> bool {
    if log@.durable_len > 0 {
        frontier == Some(
            LogSequenceNumber {
                lineage: log.spec_lineage(),
                value: log@.records[log@.durable_len - 1].position,
            },
        )
    } else {
        match (log@.coordinates, frontier) {
            (None, frontier) => frontier is None,
            (Some(coordinates), None) => coordinates.logical_high_water is None,
            (Some(coordinates), Some(frontier)) => coordinates.logical_high_water == Some(
                frontier.value,
            ) && frontier.lineage == log.spec_lineage(),
        }
    }
}

/// Whether a permit was given for this log as it is: for its identity, lineage, version,
/// generation, frontier and last epoch, and, where it was reclaimed before, for the
/// checkpoint that it was reclaimed under.
pub open spec fn permits<const N: usize>(
    permit: DurableTransactionRestartWalReclamationPermit,
    log: FileCommitLog<N>,
) -> bool {
    &&& permit.persistent_log_id@ == log@.persistent_id
    &&& permit.lineage == log.spec_lineage()
    &&& permit.physical_format_version == version_number(log@.format)
    &&& is_generation_of(permit.source_generation, log@)
    &&& is_frontier_of(permit.durable_frontier, log)
    &&& is_last_epoch(permit.allocated_epoch_high_water, log@)
    &&& log@.coordinates matches Some(coordinates) ==> coordinates.anchor_version
        == permit.anchor_version && coordinates.anchor_value == permit.anchor_value
}

/// Whether some epoch has been handed out.
pub open spec fn has_epoch(log: LogModel) -> bool {
    log.next_epoch matches Some(next) ==> next > 1
}

/// Whether a reclamation may be thought of at all: the writer is sound, the format can be
/// reclaimed, the permit was given for this log, and all records are durable.
pub open spec fn reclaimable<const N: usize>(
    log: FileCommitLog<N>,
    permit: DurableTransactionRestartWalReclamationPermit,
) -> bool {
    &&& !log@.poisoned
    &&& log@.format != LogFormat::V1 && log@.format != LogFormat::V2
    &&& has_epoch(log@)
    &&& permits(permit, log)
    &&& log@.records.len() == log@.durable_len
}

/// A reclamation is admitted for every floor that is the position of a record, whatever
/// the first position of the log is, and starts at that record.
pub proof fn law_every_record_can_be_the_floor<const N: usize>(
    log: FileCommitLog<N>,
    permit: DurableTransactionRestartWalReclamationPermit,
    index: int,
    result: Result<usize, FileTransactionRestartWalReclamationError>,
)
    requires
        log.inv(),
        reclaimable(log, permit),
        0 <= index < log@.records.len(),
        permit.retained_first_logical_record == Some(
            LogSequenceNumber { lineage: log.spec_lineage(), value: log@.records[index].position },
        ),
        call_ensures(FileCommitLog::<N>::admit_reclamation, (&log, &permit), result),
    ensures
        result matches Ok(start) && start == index,
{
    log.law_positions_are_numbered();
    lemma_position_index(log@.records, log@.records[index].position, 0);
}

/// A permit that keeps nothing is admitted, and starts behind the last record. A floor
/// that is not the position of a record of this log is refused.
pub proof fn law_floor_must_be_a_record<const N: usize>(
    log: FileCommitLog<N>,
    permit: DurableTransactionRestartWalReclamationPermit,
    result: Result<usize, FileTransactionRestartWalReclamationError>,
)
    requires
        log.inv(),
        reclaimable(log, permit),
        call_ensures(FileCommitLog::<N>::admit_reclamation, (&log, &permit), result),
    ensures
        permit.retained_first_logical_record is None ==> (result matches Ok(start) && start
            == log@.records.len()),
        permit.retained_first_logical_record matches Some(floor) ==> ((floor.lineage
            != log.spec_lineage() || forall|i: int|
            0 <= i < log@.records.len() ==> (#[trigger] log@.records[i]).position != floor.value)
            ==> (result matches Err(
            FileTransactionRestartWalReclamationError::RetainedBoundaryMissing { position },
        ) && position == floor.value)),
{
    if let Some(floor) = permit.retained_first_logical_record {
        lemma_position_index(log@.records, floor.value, 0);
    }
}

/// An admission that fails tells why, and the reasons are looked at in this order: a
/// poisoned writer, a format that cannot be reclaimed, no epoch, a permit for another log
/// or another state of this one, and records that are not durable.
pub proof fn law_admission_refusals<const N: usize>(
    log: FileCommitLog<N>,
    permit: DurableTransactionRestartWalReclamationPermit,
    result: Result<usize, FileTransactionRestartWalReclamationError>,
)
    requires
        log.inv(),
        call_ensures(FileCommitLog::<N>::admit_reclamation, (&log, &permit), result),
    ensures
        result is Ok ==> reclaimable(log, permit),
        result matches Err(error) ==> match error {
            FileTransactionRestartWalReclamationError::PoisonedWriter => log@.poisoned,
            FileTransactionRestartWalReclamationError::UnsupportedPhysicalFormat { version } => {
                &&& !log@.poisoned
                &&& log@.format == LogFormat::V1 && version == 1 || log@.format == LogFormat::V2
                    && version == 2
            },
            FileTransactionRestartWalReclamationError::NoAllocatedEpoch => {
                &&& !log@.poisoned && log@.format != LogFormat::V1 && log@.format != LogFormat::V2
                &&& !has_epoch(log@)
            },
            FileTransactionRestartWalReclamationError::PermitMismatch => {
                &&& !log@.poisoned && log@.format != LogFormat::V1 && log@.format != LogFormat::V2
                &&& has_epoch(log@)
                &&& !permits(permit, log)
            },
            FileTransactionRestartWalReclamationError::VolatileLogicalSuffix {
                durable_record_count,
                total_record_count,
            } => {
                &&& !log@.poisoned && log@.format != LogFormat::V1 && log@.format != LogFormat::V2
                &&& has_epoch(log@) && permits(permit, log)
                &&& durable_record_count == log@.durable_len
                &&& total_record_count == log@.records.len()
                &&& durable_record_count < total_record_count
            },
            FileTransactionRestartWalReclamationError::RetainedBoundaryMissing { position } => {
                &&& reclaimable(log, permit)
                &&& permit.retained_first_logical_record is Some
                &&& permit.retained_first_logical_record->0.value == position
            },
            _ => false,
        },
{
    log.law_durable_records_and_width();
    log.law_record_count();
}

/// Whether the coordinates are those of the generation behind that of `log`, reclaimed
/// under `permit`.
pub open spec fn continues<const N: usize>(
    coordinates: ReclaimedCoordinates,
    log: FileCommitLog<N>,
    permit: DurableTransactionRestartWalReclamationPermit,
) -> bool {
    &&& coordinates.generation > 0 && is_generation_of((coordinates.generation - 1) as u64, log@)
    &&& match permit.retained_first_logical_record {
        None => coordinates.retained_first is None,
        Some(floor) => coordinates.retained_first == Some(floor.value),
    }
    &&& match permit.durable_frontier {
        None => coordinates.logical_high_water is None,
        Some(frontier) => coordinates.logical_high_water == Some(frontier.value),
    }
    &&& coordinates.allocated_epoch_high_water == permit.allocated_epoch_high_water
    &&& coordinates.anchor_version == permit.anchor_version
    &&& coordinates.anchor_value == permit.anchor_value
}

/// Whether a plan replaces the file of `log` by one of the next generation that holds the
/// records from `start` on, and reports that.
pub open spec fn plans_replacement<const N: usize>(
    plan: ReclamationPlan<N>,
    log: FileCommitLog<N>,
    permit: DurableTransactionRestartWalReclamationPermit,
    start: int,
) -> bool {
    let coordinates = plan.spec_coordinates();
    let report = plan.spec_observation();
    &&& plan.spec_start() == start
    &&& plan.spec_retained() == log@.records.subrange(start, log@.records.len() as int)
    &&& continues(coordinates, log, permit)
    &&& plan.spec_header() == match (log@.format, log@.identity) {
        (LogFormat::V5, Some(identity)) => header_v5_bytes(
            log@.persistent_id,
            N as u64,
            Some(coordinates),
            identity,
        ),
        _ => header_v4_bytes(log@.persistent_id, N as u64, coordinates),
    }
    &&& plan.spec_frames() == candidate_frames(
        if log@.format == LogFormat::V5 {
            LogFormat::V5
        } else {
            LogFormat::V4
        },
        plan.spec_retained(),
    )
    &&& report.source_generation == permit.source_generation
    &&& report.replacement_generation == coordinates.generation
    &&& report.replacement_format_version == (if log@.format == LogFormat::V5 {
        5u16
    } else {
        4u16
    })
    &&& report.retained_first_logical_record == permit.retained_first_logical_record
    &&& report.durable_frontier == permit.durable_frontier
    &&& report.retained_logical_record_count == log@.records.len() - start
    &&& report.retained_physical_unit_count == plan.spec_frames().len() as u64
    &&& report.allocated_epoch_high_water == permit.allocated_epoch_high_water
}

/// An admitted reclamation is planned exactly where memory can be had, a generation is
/// left, and a log of the fifth format knows its database. The plan keeps the records from
/// the floor on, numbers the generation one higher, and reports what it does.
pub proof fn law_plan_replaces_the_file<const N: usize>(
    log: FileCommitLog<N>,
    permit: DurableTransactionRestartWalReclamationPermit,
    start: usize,
    has_record_room: bool,
    has_frame_room: bool,
    result: Result<ReclamationPlan<N>, FileTransactionRestartWalReclamationError>,
)
    requires
        log.inv(),
        call_ensures(
            FileCommitLog::<N>::admit_reclamation,
            (&log, &permit),
            Ok::<_, FileTransactionRestartWalReclamationError>(start),
        ),
        call_ensures(
            FileCommitLog::<N>::plan_reclamation,
            (&log, &permit, start, has_record_room, has_frame_room),
            result,
        ),
    ensures
        result is Ok <==> {
            &&& has_record_room && has_frame_room
            &&& log@.coordinates matches Some(coordinates) ==> coordinates.generation < u64::MAX
            &&& log@.format == LogFormat::V5 ==> log@.identity is Some
        },
        result matches Ok(plan) ==> plans_replacement(plan, log, permit, start as int),
        result matches Err(error) ==> match error {
            FileTransactionRestartWalReclamationError::FrameCapacityExhausted { record_count } => {
                &&& !has_record_room || !has_frame_room
                &&& record_count == log@.records.len() - start
            },
            FileTransactionRestartWalReclamationError::GenerationExhausted => {
                &&& has_record_room
                &&& is_generation_of(u64::MAX, log@)
            },
            FileTransactionRestartWalReclamationError::MissingDatabaseFileIdentity => {
                &&& has_record_room && has_frame_room
                &&& log@.format == LogFormat::V5 && log@.identity is None
            },
            _ => false,
        },
{
    log.law_lineage();
    log.law_durable_records_and_width();
    log.law_record_count();
    law_admission_refusals(log, permit, Ok(start));
    assert(retained_start(log@, log.spec_lineage(), permit) == Some(start as nat));
    assert(log@.records.skip(start as int) =~= log@.records.subrange(
        start as int,
        log@.records.len() as int,
    ));
}

/// A reclamation in one call is refused where its admission is, and else planned from the
/// record that the admission has found, if memory can be had and a generation is left.
pub proof fn law_reclaim_is_admit_then_plan<const N: usize>(
    log: FileCommitLog<N>,
    permit: DurableTransactionRestartWalReclamationPermit,
    admitted: Result<usize, FileTransactionRestartWalReclamationError>,
    result: Result<ReclamationPlan<N>, FileTransactionRestartWalReclamationError>,
)
    requires
        log.inv(),
        call_ensures(FileCommitLog::<N>::admit_reclamation, (&log, &permit), admitted),
        call_ensures(FileCommitLog::<N>::reclaim_restart_wal_prefix, (&log, &permit), result),
    ensures
        admitted matches Err(error) ==> result == Err::<ReclamationPlan<N>, _>(error),
        admitted matches Ok(start) ==> match result {
            Ok(plan) => plans_replacement(plan, log, permit, start as int),
            Err(FileTransactionRestartWalReclamationError::FrameCapacityExhausted {
                record_count,
            }) => record_count == log@.records.len() - start && record_count > 0,
            Err(FileTransactionRestartWalReclamationError::GenerationExhausted) =>
                is_generation_of(u64::MAX, log@),
            Err(FileTransactionRestartWalReclamationError::MissingDatabaseFileIdentity) =>
                log@.format == LogFormat::V5 && log@.identity is None,
            Err(_) => false,
        },
{
    log.law_lineage();
    log.law_durable_records_and_width();
    log.law_record_count();
    if let Ok(start) = admitted {
        law_admission_refusals(log, permit, admitted);
        assert(log@.records.skip(start as int) =~= log@.records.subrange(
            start as int,
            log@.records.len() as int,
        ));
    }
}

/// A finished reclamation leaves exactly the retained records, all of them durable, under
/// the new coordinates and in a format that can say so. The next epoch stays, and the next
/// position follows the high water. The log can be written again.
pub proof fn law_finish_reclamation<const N: usize>(
    log: &mut FileCommitLog<N>,
    plan: ReclamationPlan<N>,
    report: DurableTransactionRestartWalReclamationEffectObservation,
)
    requires
        call_ensures(FileCommitLog::<N>::finish_reclamation, (log, plan), report),
        plan.spec_start() <= old(log)@.records.len(),
    ensures
        report == plan.spec_observation(),
        final(log).spec_lineage() == old(log).spec_lineage(),
        final(log)@.records.len() == old(log)@.records.len() - plan.spec_start(),
        forall|i: int|
            0 <= i < final(log)@.records.len() ==> #[trigger] final(log)@.records[i] == old(
                log,
            )@.records[i + plan.spec_start()],
        final(log)@.durable_len == final(log)@.records.len(),
        final(log)@.coordinates == Some(plan.spec_coordinates()),
        old(log)@.format == LogFormat::V5 ==> final(log)@.format == LogFormat::V5,
        old(log)@.format != LogFormat::V5 ==> final(log)@.format == LogFormat::V4,
        !final(log)@.poisoned,
        final(log)@.next_epoch == old(log)@.next_epoch,
        final(log)@.armed_fault == old(log)@.armed_fault,
        final(log)@.persistent_id == old(log)@.persistent_id,
        final(log)@.identity == old(log)@.identity,
        match plan.spec_coordinates().logical_high_water {
            None => final(log)@.next_position == Some(1u64),
            Some(high_water) => if high_water == u64::MAX {
                final(log)@.next_position is None
            } else {
                final(log)@.next_position matches Some(next) && next == high_water + 1
            },
        },
{
}

/// A reclamation as a whole, from its admission on: the generation moves on by one, the
/// records from the floor on stay as they are, and the next position and the next epoch
/// are not touched.
pub proof fn law_reclamation_as_a_whole<const N: usize>(
    log: &mut FileCommitLog<N>,
    permit: DurableTransactionRestartWalReclamationPermit,
    start: usize,
    plan: ReclamationPlan<N>,
    report: DurableTransactionRestartWalReclamationEffectObservation,
)
    requires
        old(log).inv(),
        call_ensures(
            FileCommitLog::<N>::admit_reclamation,
            (&*old(log), &permit),
            Ok::<_, FileTransactionRestartWalReclamationError>(start),
        ),
        call_ensures(
            FileCommitLog::<N>::reclaim_restart_wal_prefix,
            (&*old(log), &permit),
            Ok::<_, FileTransactionRestartWalReclamationError>(plan),
        ),
        call_ensures(FileCommitLog::<N>::finish_reclamation, (log, plan), report),
    ensures
        start <= old(log)@.records.len(),
        final(log)@.records == old(log)@.records.subrange(
            start as int,
            old(log)@.records.len() as int,
        ),
        final(log)@.next_position == old(log)@.next_position,
        final(log)@.next_epoch == old(log)@.next_epoch,
        final(log)@.coordinates matches Some(coordinates) && continues(
            coordinates,
            *old(log),
            permit,
        ),
        report.replacement_generation > 0 && is_generation_of(
            (report.replacement_generation - 1) as u64,
            old(log)@,
        ),
        report.retained_logical_record_count == final(log)@.records.len(),
{
    old(log).law_positions_are_numbered();
    law_reclaim_is_admit_then_plan(*old(log), permit, Ok(start), Ok(plan));
    law_admission_refusals(*old(log), permit, Ok(start));
    assert(old(log)@.records.skip(start as int) =~= old(log)@.records.subrange(
        start as int,
        old(log)@.records.len() as int,
    ));
}

/// The actions of a reclamation come one after the other: what an earlier attempt left is
/// removed before a candidate is created, the candidate is written and made durable before
/// it takes the log's place, and the new name is made durable after that.
pub open spec fn action_number(action: ReclamationAction) -> int {
    match action {
        ReclamationAction::RemoveCandidate => 0,
        ReclamationAction::CreateCandidate => 1,
        ReclamationAction::WriteHeader => 2,
        ReclamationAction::WriteFrames => 3,
        ReclamationAction::SyncCandidate => 4,
        ReclamationAction::RenameCandidate => 5,
        ReclamationAction::SyncDirectory => 6,
        ReclamationAction::SeekEnd => 7,
    }
}

/// Every action but the last is followed by the one numbered next.
pub proof fn law_actions_follow_their_order(
    action: ReclamationAction,
    next: Option<ReclamationAction>,
)
    requires
        call_ensures(ReclamationAction::next, (action,), next),
    ensures
        next is None <==> action == ReclamationAction::SeekEnd,
        next matches Some(next) ==> action_number(next) == action_number(action) + 1,
{
}

/// The action before which a fault strikes: a fault before or during an action strikes
/// before it, and one after an action strikes before the next.
pub open spec fn struck_action(fault: FaultPoint) -> Option<ReclamationAction> {
    match fault {
        FaultPoint::BeforeReclamationCandidateCleanup => Some(ReclamationAction::RemoveCandidate),
        FaultPoint::BeforeReclamationWrite => Some(ReclamationAction::WriteHeader),
        FaultPoint::DuringReclamationCopy => Some(ReclamationAction::WriteFrames),
        FaultPoint::BeforeReclamationCandidateSync => Some(ReclamationAction::SyncCandidate),
        FaultPoint::AfterReclamationCandidateSync => Some(ReclamationAction::RenameCandidate),
        FaultPoint::BeforeReclamationRename => Some(ReclamationAction::RenameCandidate),
        FaultPoint::AfterReclamationRename => Some(ReclamationAction::SyncDirectory),
        FaultPoint::DuringReclamationDirectorySync => Some(ReclamationAction::SyncDirectory),
        FaultPoint::BeforeAppend | FaultPoint::AfterAppend | FaultPoint::BeforeFlush
        | FaultPoint::AfterFlush => None,
    }
}

/// An armed fault of a reclamation strikes before exactly one action. It is then used up,
/// reported, and poisons the log; every other action passes and changes nothing.
pub proof fn law_fault_strikes_one_action<const N: usize>(
    log: &mut FileCommitLog<N>,
    action: ReclamationAction,
    result: Result<(), FileTransactionRestartWalReclamationError>,
)
    requires
        call_ensures(FileCommitLog::<N>::enter_reclamation_action, (log, action), result),
    ensures
        result is Err <==> old(log)@.armed_fault is Some && struck_action(
            old(log)@.armed_fault->0,
        ) == Some(action),
        result is Ok ==> final(log)@ == old(log)@,
        result matches Err(error) ==> {
            &&& error matches FileTransactionRestartWalReclamationError::InjectedFault(fault)
            &&& Some(fault) == old(log)@.armed_fault
            &&& final(log)@ == (LogModel { armed_fault: None, poisoned: true, ..old(log)@ })
        },
{
}

/// What stands at the candidate's path is left alone where nothing does, and is never
/// removed where it is known to be the log's own file; all else is removed.
pub proof fn law_candidate_cleanup(observation: CandidateObservation, cleanup: CandidateCleanup)
    requires
        call_ensures(cleanup_reclamation_candidate, (observation,), cleanup),
    ensures
        cleanup == CandidateCleanup::Nothing <==> observation == CandidateObservation::Absent,
        cleanup == CandidateCleanup::Refuse <==> {
            &&& observation matches CandidateObservation::Present { candidate, selected }
            &&& candidate matches Some(candidate)
            &&& selected matches Some(selected)
            &&& candidate.device == selected.device && candidate.inode == selected.inode
        },
{
}

/// Two files are known to be one where both are identified, by one device and one number
/// on it.
pub proof fn law_same_file(left: Option<FileIdentity>, right: Option<FileIdentity>, same: bool)
    requires
        call_ensures(metadata_identifies_same_file, (left, right), same),
    ensures
        same <==> {
            &&& left matches Some(left)
            &&& right matches Some(right)
            &&& left.device == right.device && left.inode == right.inode
        },
{
}

/// A candidate that is the log's own file poisons the log and changes nothing else of it.
pub proof fn law_aliased_candidate_poisons<const N: usize>(
    log: &mut FileCommitLog<N>,
    error: FileTransactionRestartWalReclamationError,
)
    requires
        call_ensures(FileCommitLog::<N>::candidate_aliases_selected, (log,), error),
    ensures
        error is CandidateAliasesSelected,
        final(log)@ == (LogModel { poisoned: true, ..old(log)@ }),
{
}

} // verus!
