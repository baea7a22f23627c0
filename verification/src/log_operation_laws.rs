//! What the operations on an open commit log do, call by call.
//!
//! Each law is about one call, or about two calls in a row: about what went in, what
//! came back and how the log has changed.
use vstd::prelude::*;

use crate::commit_log::{
    AppendPlan, EpochPlan, FileCommitLog, FlushPlan,
    TransactionRestartCoordinatorEpochAllocationError,
};
use crate::format::{chunk_total, LogFormat};
use crate::identity::{LogLineage, LogSequenceNumber, TransactionId};
use crate::log_effect::{lemma_data_frames_len, EffectModel};
use crate::log_error::{
    FaultAlreadyArmed, FaultPoint, FileCommitLogError, FileIoError, FileIoStage,
    FileTransactionEpochError,
};
use crate::log_frame::{decoded_frame, law_number_frame_round_trip, FrameKind};
use crate::log_model::LogModel;
use crate::log_record::{RecordBody, StoredTransactionIdentity};
use crate::log_replay::lemma_position_index;
use crate::page::UnloggedPage;

verus! {

/// Whether a page of `page_width` bytes may be appended to `log`: its writer is sound,
/// its format has pages of that width, the page is of the log's lineage, a position is
/// left and no fault stands in the way.
pub open spec fn takes_page<const N: usize>(
    log: FileCommitLog<N>,
    page_width: usize,
    lineage: LogLineage,
) -> bool {
    &&& !log@.poisoned
    &&& log@.format != LogFormat::V1
    &&& page_width == N
    &&& lineage == log.spec_lineage()
    &&& log@.next_position is Some
    &&& log@.armed_fault != Some(FaultPoint::BeforeAppend)
}

/// Whether a commit may be appended to `log`.
pub open spec fn takes_commit<const N: usize>(log: FileCommitLog<N>) -> bool {
    &&& !log@.poisoned
    &&& log@.next_position is Some
    &&& log@.armed_fault != Some(FaultPoint::BeforeAppend)
}

/// Whether `plan` appends the image of `page`, at the next position of `log` and under
/// its lineage.
pub open spec fn appends_image<const N: usize, const PAGE_N: usize>(
    log: FileCommitLog<N>,
    plan: AppendPlan<N>,
    page: UnloggedPage<PAGE_N>,
) -> bool {
    let image = match plan.spec_record().body {
        RecordBody::Page { page } => Some(page),
        RecordBody::OwnedPage { page, .. } => Some(page),
        RecordBody::Commit { .. } => None,
    };
    &&& log@.next_position == Some(plan.spec_record().position)
    &&& plan.spec_lineage() == log.spec_lineage()
    &&& image matches Some(image)
    &&& image.number == page.address.number@
    &&& image.version == page.version.value
    &&& image.bytes == page.bytes@
}

/// A page is planned exactly where the log takes it and there is room for its
/// record. The record stands at the next position, holds the number, version and bytes
/// of the page and names the owner, where there is one. Planning changes nothing of the
/// log.
pub proof fn law_append_page_group<const N: usize, const PAGE_N: usize>(
    log: &mut FileCommitLog<N>,
    page: UnloggedPage<PAGE_N>,
    owner: Option<StoredTransactionIdentity>,
    has_room: bool,
    result: Result<AppendPlan<N>, FileCommitLogError>,
)
    requires
        old(log).inv(),
        call_ensures(
            FileCommitLog::<N>::append_page_group::<PAGE_N>,
            (log, &page, owner, has_room),
            result,
        ),
    ensures
        result is Ok <==> has_room && takes_page(*old(log), PAGE_N, page.address.lineage),
        result matches Ok(plan) ==> appends_image(*old(log), plan, page) && final(log)@ == old(
            log,
        )@,
        result matches Ok(plan) ==> match owner {
            None => plan.spec_record().body is Page,
            Some(owner) => plan.spec_record().body matches RecordBody::OwnedPage {
                epoch,
                sequence,
                ..
            } && epoch == owner.epoch && sequence == owner.sequence,
        },
{
    old(log).law_lineage();
}

/// Where a page is not planned, the error tells why: a page of another width or lineage
/// and a format without pages are refused before the log's next position is looked at,
/// and a fault that strikes is used up.
pub proof fn law_append_page_group_refusals<const N: usize, const PAGE_N: usize>(
    log: &mut FileCommitLog<N>,
    page: UnloggedPage<PAGE_N>,
    owner: Option<StoredTransactionIdentity>,
    has_room: bool,
    result: Result<AppendPlan<N>, FileCommitLogError>,
)
    requires
        old(log).inv(),
        call_ensures(
            FileCommitLog::<N>::append_page_group::<PAGE_N>,
            (log, &page, owner, has_room),
            result,
        ),
    ensures
        result matches Err(error) ==> match error {
            FileCommitLogError::PoisonedWriter => old(log)@.poisoned,
            FileCommitLogError::PageSupportUnavailable => !old(log)@.poisoned && old(log)@.format
                == LogFormat::V1,
            FileCommitLogError::PageWidthMismatch { expected, actual } => {
                &&& !old(log)@.poisoned && old(log)@.format != LogFormat::V1
                &&& expected == N && actual == PAGE_N && N != PAGE_N
            },
            FileCommitLogError::ForeignPageLineage(number) => {
                &&& !old(log)@.poisoned && old(log)@.format != LogFormat::V1 && N == PAGE_N
                &&& number == page.address.number
                &&& page.address.lineage != old(log).spec_lineage()
            },
            FileCommitLogError::PositionSpaceExhausted => {
                &&& !old(log)@.poisoned && old(log)@.format != LogFormat::V1 && N == PAGE_N
                &&& page.address.lineage == old(log).spec_lineage()
                &&& old(log)@.next_position is None
            },
            FileCommitLogError::InjectedFault(fault) => {
                &&& !old(log)@.poisoned && old(log)@.format != LogFormat::V1 && N == PAGE_N
                &&& page.address.lineage == old(log).spec_lineage()
                &&& old(log)@.next_position is Some
                &&& fault == FaultPoint::BeforeAppend
                &&& old(log)@.armed_fault == Some(fault)
            },
            FileCommitLogError::RecordCapacityExhausted => {
                &&& !has_room
                &&& takes_page(*old(log), PAGE_N, page.address.lineage)
            },
            _ => false,
        },
        result is Err ==> final(log)@ == (LogModel {
            armed_fault: if result->Err_0 is InjectedFault {
                None
            } else {
                old(log)@.armed_fault
            },
            ..old(log)@
        }),
{
    old(log).law_lineage();
}

/// Appending a raw page and appending a page that a transaction owns differ in the
/// owner alone: the record of the second names the transaction's epoch and sequence,
/// and a format before the third has no such records. Where the log takes the page,
/// only want of room can be in the way.
pub proof fn law_append_page<const N: usize, const PAGE_N: usize>(
    log: &mut FileCommitLog<N>,
    page: UnloggedPage<PAGE_N>,
    result: Result<AppendPlan<N>, FileCommitLogError>,
)
    requires
        old(log).inv(),
        call_ensures(FileCommitLog::<N>::append_page::<PAGE_N>, (log, &page), result),
    ensures
        result matches Ok(plan) ==> {
            &&& takes_page(*old(log), PAGE_N, page.address.lineage)
            &&& appends_image(*old(log), plan, page)
            &&& plan.spec_record().body is Page
            &&& final(log)@ == old(log)@
        },
        takes_page(*old(log), PAGE_N, page.address.lineage) ==> result is Ok || result
            == Err::<AppendPlan<N>, _>(FileCommitLogError::RecordCapacityExhausted),
        result is Err ==> final(log)@.records == old(log)@.records && final(log)@.durable_len
            == old(log)@.durable_len && final(log)@.next_position == old(log)@.next_position
            && final(log)@.poisoned == old(log)@.poisoned,
{
    old(log).law_lineage();
}

/// The same for a page that a transaction owns.
pub proof fn law_append_transaction_page<const N: usize, const PAGE_N: usize>(
    log: &mut FileCommitLog<N>,
    page: UnloggedPage<PAGE_N>,
    transaction_id: TransactionId,
    result: Result<AppendPlan<N>, FileCommitLogError>,
)
    requires
        old(log).inv(),
        call_ensures(
            FileCommitLog::<N>::append_transaction_page::<PAGE_N>,
            (log, &page, transaction_id),
            result,
        ),
    ensures
        result matches Ok(plan) ==> {
            &&& takes_page(*old(log), PAGE_N, page.address.lineage)
            &&& old(log)@.format != LogFormat::V2
            &&& appends_image(*old(log), plan, page)
            &&& plan.spec_record().body matches RecordBody::OwnedPage { epoch, sequence, .. }
            &&& epoch == transaction_id.spec_epoch() && sequence == transaction_id.spec_sequence()
            &&& final(log)@ == old(log)@
        },
        takes_page(*old(log), PAGE_N, page.address.lineage) && old(log)@.format != LogFormat::V2
            ==> result is Ok || result == Err::<AppendPlan<N>, _>(
            FileCommitLogError::RecordCapacityExhausted,
        ),
        (result matches Err(FileCommitLogError::TransactionPageSupportUnavailable)) <==> (old(
            log,
        )@.format == LogFormat::V1 || old(log)@.format == LogFormat::V2),
        result is Err ==> final(log)@.records == old(log)@.records && final(log)@.durable_len
            == old(log)@.durable_len && final(log)@.next_position == old(log)@.next_position
            && final(log)@.poisoned == old(log)@.poisoned,
{
    old(log).law_lineage();
}

/// A commit is planned exactly where the log takes it and there is room for its record,
/// in a log of any format. The record stands at the next position and names the
/// transaction. A refusal tells why, and uses up a fault that strikes.
pub proof fn law_append_commit_record<const N: usize>(
    log: &mut FileCommitLog<N>,
    transaction_id: TransactionId,
    has_room: bool,
    result: Result<AppendPlan<N>, FileCommitLogError>,
)
    requires
        call_ensures(
            FileCommitLog::<N>::append_commit_record,
            (log, transaction_id, has_room),
            result,
        ),
    ensures
        result is Ok <==> has_room && takes_commit(*old(log)),
        result matches Ok(plan) ==> {
            &&& old(log)@.next_position == Some(plan.spec_record().position)
            &&& plan.spec_lineage() == old(log).spec_lineage()
            &&& plan.spec_record().body matches RecordBody::Commit { epoch, sequence }
            &&& epoch == transaction_id.spec_epoch() && sequence == transaction_id.spec_sequence()
            &&& final(log)@ == old(log)@
        },
        result matches Err(error) ==> match error {
            FileCommitLogError::PoisonedWriter => old(log)@.poisoned,
            FileCommitLogError::PositionSpaceExhausted => !old(log)@.poisoned
                && old(log)@.next_position is None,
            FileCommitLogError::InjectedFault(fault) => {
                &&& !old(log)@.poisoned && old(log)@.next_position is Some
                &&& fault == FaultPoint::BeforeAppend
                &&& old(log)@.armed_fault == Some(fault)
            },
            FileCommitLogError::RecordCapacityExhausted => !has_room && takes_commit(*old(log)),
            _ => false,
        },
        result is Err ==> final(log)@ == (LogModel {
            armed_fault: if result->Err_0 is InjectedFault {
                None
            } else {
                old(log)@.armed_fault
            },
            ..old(log)@
        }),
{
}

/// Where the log takes a commit, only want of room can be in the way.
pub proof fn law_append_commit<const N: usize>(
    log: &mut FileCommitLog<N>,
    transaction_id: TransactionId,
    result: Result<AppendPlan<N>, FileCommitLogError>,
)
    requires
        call_ensures(FileCommitLog::<N>::append_commit, (log, transaction_id), result),
    ensures
        result matches Ok(plan) ==> {
            &&& takes_commit(*old(log))
            &&& old(log)@.next_position == Some(plan.spec_record().position)
            &&& plan.spec_lineage() == old(log).spec_lineage()
            &&& plan.spec_record().body matches RecordBody::Commit { epoch, sequence }
            &&& epoch == transaction_id.spec_epoch() && sequence == transaction_id.spec_sequence()
            &&& final(log)@ == old(log)@
        },
        takes_commit(*old(log)) ==> result is Ok || result == Err::<AppendPlan<N>, _>(
            FileCommitLogError::RecordCapacityExhausted,
        ),
        result is Err ==> final(log)@.records == old(log)@.records && final(log)@.durable_len
            == old(log)@.durable_len && final(log)@.next_position == old(log)@.next_position
            && final(log)@.poisoned == old(log)@.poisoned,
{
}

/// A finished append puts the planned record behind all others and moves the next
/// position on by one. The record is not durable yet, and nothing else changes. The
/// position of the record comes back, unless a fault strikes once the record is there.
pub proof fn law_finish_append<const N: usize>(
    log: &mut FileCommitLog<N>,
    plan: AppendPlan<N>,
    result: Result<LogSequenceNumber, FileCommitLogError>,
)
    requires
        call_ensures(FileCommitLog::<N>::finish_append, (log, plan), result),
    ensures
        final(log)@.records.len() == old(log)@.records.len() + 1,
        final(log)@.records.last() == plan.spec_record(),
        forall|i: int|
            0 <= i < old(log)@.records.len() ==> #[trigger] final(log)@.records[i] == old(
                log,
            )@.records[i],
        plan.spec_record().position == u64::MAX ==> final(log)@.next_position is None,
        plan.spec_record().position < u64::MAX ==> (final(log)@.next_position matches Some(next)
            && next == plan.spec_record().position + 1),
        final(log)@.durable_len == old(log)@.durable_len,
        final(log)@.coordinates == old(log)@.coordinates,
        final(log)@.next_epoch == old(log)@.next_epoch,
        final(log)@.poisoned == old(log)@.poisoned,
        final(log)@.format == old(log)@.format,
        final(log)@.persistent_id == old(log)@.persistent_id,
        final(log)@.identity == old(log)@.identity,
        final(log).spec_lineage() == old(log).spec_lineage(),
        old(log)@.armed_fault == Some(FaultPoint::AfterAppend) ==> {
            &&& final(log)@.armed_fault is None
            &&& result == Err::<LogSequenceNumber, _>(
                FileCommitLogError::InjectedFault(FaultPoint::AfterAppend),
            )
        },
        old(log)@.armed_fault != Some(FaultPoint::AfterAppend) ==> {
            &&& final(log)@.armed_fault == old(log)@.armed_fault
            &&& result matches Ok(position)
            &&& position.value == plan.spec_record().position
            &&& position.lineage == old(log).spec_lineage()
        },
{
}

/// A log can be made durable exactly through the position of one of its records. The
/// plan then covers that record and all before it, and no other: a position that is
/// durable already needs no plan. A refusal tells why.
pub proof fn law_flush_through<const N: usize>(
    log: &mut FileCommitLog<N>,
    position: LogSequenceNumber,
    index: int,
    result: Result<Option<FlushPlan>, FileCommitLogError>,
)
    requires
        old(log).inv(),
        call_ensures(FileCommitLog::<N>::flush_through, (log, &position), result),
        0 <= index < old(log)@.records.len(),
        old(log)@.records[index].position == position.value,
        position.lineage == old(log).spec_lineage(),
        !old(log)@.poisoned,
    ensures
        index < old(log)@.durable_len ==> result == Ok::<_, FileCommitLogError>(
            None::<FlushPlan>,
        ) && final(log)@ == old(log)@,
        index >= old(log)@.durable_len && old(log)@.armed_fault != Some(FaultPoint::BeforeFlush)
            ==> {
            &&& result matches Ok(Some(plan))
            &&& plan.spec_durable_len() == index + 1
            &&& final(log)@ == old(log)@
        },
        index >= old(log)@.durable_len && old(log)@.armed_fault == Some(FaultPoint::BeforeFlush)
            ==> {
            &&& result == Err::<Option<FlushPlan>, _>(
                FileCommitLogError::InjectedFault(FaultPoint::BeforeFlush),
            )
            &&& final(log)@ == (LogModel { armed_fault: None, ..old(log)@ })
        },
{
    old(log).law_positions_are_numbered();
    lemma_position_index(old(log)@.records, position.value, 0);
}

/// A position that is not of a record of this log cannot be made durable, nor can any
/// position of a log whose writer is poisoned.
pub proof fn law_flush_refusals<const N: usize>(
    log: &mut FileCommitLog<N>,
    position: LogSequenceNumber,
    result: Result<Option<FlushPlan>, FileCommitLogError>,
)
    requires
        call_ensures(FileCommitLog::<N>::flush_through, (log, &position), result),
    ensures
        old(log)@.poisoned ==> result == Err::<Option<FlushPlan>, _>(
            FileCommitLogError::PoisonedWriter,
        ),
        !old(log)@.poisoned && position.lineage != old(log).spec_lineage() ==> result == Err::<
            Option<FlushPlan>,
            _,
        >(FileCommitLogError::ForeignFlushPosition(position)),
        !old(log)@.poisoned && position.lineage == old(log).spec_lineage() && (forall|i: int|
            0 <= i < old(log)@.records.len() ==> (#[trigger] old(log)@.records[i]).position
                != position.value) ==> result == Err::<Option<FlushPlan>, _>(
            FileCommitLogError::UnknownFlushPosition(position),
        ),
        result matches Err(error) ==> !(error is InjectedFault) ==> final(log)@ == old(log)@,
{
    lemma_position_index(old(log)@.records, position.value, 0);
}

/// The plan of a flush first makes durable what the file holds, then writes one marker
/// that names the position and nothing else, and then makes the marker durable.
pub proof fn law_flush_effects<const N: usize>(
    log: &mut FileCommitLog<N>,
    position: LogSequenceNumber,
    result: Result<Option<FlushPlan>, FileCommitLogError>,
    offset: u64,
)
    requires
        call_ensures(FileCommitLog::<N>::flush_through, (log, &position), result),
        result matches Ok(Some(_)),
        offset <= u64::MAX - 56,
    ensures
        ({
            let effects = result->Ok_0->0.spec_effects();
            &&& effects.len() == 3
            &&& effects[0] == EffectModel::Sync { stage: FileIoStage::SyncCommitPrefix }
            &&& effects[1] matches EffectModel::Write { stage, bytes }
            &&& stage == FileIoStage::WriteDurableMarker
            &&& decoded_frame(bytes, offset, old(log)@.format) matches Ok(frame)
            &&& frame.kind == FrameKind::DurableThrough
            &&& frame.payload0 == position.value && frame.payload1 == 0 && frame.payload2 == 0
            &&& effects[2] == EffectModel::Sync { stage: FileIoStage::SyncDurableMarker }
        }),
{
    law_number_frame_round_trip(
        old(log)@.format,
        FrameKind::DurableThrough,
        position.value,
        0,
        0,
        offset,
    );
}

/// A finished flush makes exactly the planned number of records durable, and changes no
/// record. An armed fault strikes once the records are durable.
pub proof fn law_finish_flush<const N: usize>(
    log: &mut FileCommitLog<N>,
    plan: FlushPlan,
    result: Result<(), FileCommitLogError>,
)
    requires
        call_ensures(FileCommitLog::<N>::finish_flush, (log, plan), result),
    ensures
        final(log)@ == (LogModel {
            durable_len: plan.spec_durable_len(),
            armed_fault: final(log)@.armed_fault,
            ..old(log)@
        }),
        final(log).spec_lineage() == old(log).spec_lineage(),
        old(log)@.armed_fault == Some(FaultPoint::AfterFlush) ==> {
            &&& final(log)@.armed_fault is None
            &&& result == Err::<(), _>(FileCommitLogError::InjectedFault(FaultPoint::AfterFlush))
        },
        old(log)@.armed_fault != Some(FaultPoint::AfterFlush) ==> {
            &&& final(log)@.armed_fault == old(log)@.armed_fault
            &&& result == Ok::<_, FileCommitLogError>(())
        },
{
}

/// The next epoch is granted wherever there is one and the writer is sound.
pub proof fn law_allocate_epoch<const N: usize>(
    log: FileCommitLog<N>,
    result: Result<EpochPlan, FileTransactionEpochError>,
)
    requires
        call_ensures(FileCommitLog::<N>::allocate_transaction_epoch, (&log,), result),
    ensures
        log@.poisoned ==> (result matches Err(FileTransactionEpochError::PoisonedWriter)),
        !log@.poisoned && log@.next_epoch is None ==> (result matches Err(
            FileTransactionEpochError::EpochSpaceExhausted,
        )),
        !log@.poisoned ==> (log@.next_epoch matches Some(epoch) ==> (result matches Ok(plan)
            && plan.spec_epoch() == epoch)),
{
}

/// An unpoisoned log with the next epoch `e` grants a restarting coordinator that
/// persisted the high water `h` the epoch `e` whenever `h < e`, however far apart the two
/// are, and refuses with both numbers exactly where `e <= h`. A coordinator that has
/// persisted nothing is granted `e`.
pub proof fn law_allocate_restart_epoch<const N: usize>(
    log: FileCommitLog<N>,
    persisted: Option<u64>,
    result: Result<EpochPlan, TransactionRestartCoordinatorEpochAllocationError>,
)
    requires
        call_ensures(
            FileCommitLog::<N>::allocate_restart_transaction_epoch,
            (&log, persisted),
            result,
        ),
    ensures
        log@.next_epoch is None ==> (result matches Err(
            TransactionRestartCoordinatorEpochAllocationError::IdentitySpaceExhausted {
                persisted_epoch_high_water,
            },
        ) && persisted_epoch_high_water == persisted),
        log@.next_epoch matches Some(next) ==> match persisted {
            None => log@.poisoned || (result matches Ok(plan) && plan.spec_epoch() == next),
            Some(high_water) => if high_water < next {
                log@.poisoned || (result matches Ok(plan) && plan.spec_epoch() == next)
            } else {
                result matches Err(
                    TransactionRestartCoordinatorEpochAllocationError::PersistedEpochHighWaterNotAdvanced {
                        persisted_epoch_high_water,
                        next_epoch,
                    },
                ) && persisted_epoch_high_water == high_water && next_epoch == next
            },
        },
        (result matches Err(
            TransactionRestartCoordinatorEpochAllocationError::PersistedEpochHighWaterNotAdvanced {
                ..
            },
        )) <==> log@.next_epoch is Some && persisted is Some && log@.next_epoch->0
            <= persisted->0,
        (result matches Err(TransactionRestartCoordinatorEpochAllocationError::Source(error)))
            ==> log@.poisoned,
        log@.poisoned ==> result is Err,
        log@.poisoned && log@.next_epoch is Some && (persisted is None || persisted->0
            < log@.next_epoch->0) ==> (result matches Err(
            TransactionRestartCoordinatorEpochAllocationError::Source(
                FileTransactionEpochError::PoisonedWriter,
            ),
        )),
{
}

/// The effects of an allocation write one frame that names the epoch and nothing else,
/// and then make it durable.
pub proof fn law_epoch_effects<const N: usize>(
    log: FileCommitLog<N>,
    result: Result<EpochPlan, FileTransactionEpochError>,
    persisted: Option<u64>,
    restarted: Result<EpochPlan, TransactionRestartCoordinatorEpochAllocationError>,
    offset: u64,
)
    requires
        call_ensures(FileCommitLog::<N>::allocate_transaction_epoch, (&log,), result),
        call_ensures(
            FileCommitLog::<N>::allocate_restart_transaction_epoch,
            (&log, persisted),
            restarted,
        ),
        offset <= u64::MAX - 56,
    ensures
        result matches Ok(plan) ==> writes_epoch(log@.format, plan, offset),
        restarted matches Ok(plan) ==> writes_epoch(log@.format, plan, offset),
{
    if let Some(epoch) = log@.next_epoch {
        law_number_frame_round_trip(
            log@.format,
            FrameKind::EpochAllocation,
            epoch,
            0,
            0,
            offset,
        );
    }
}

/// Whether a plan writes one frame that names its epoch and nothing else, and then makes
/// it durable.
pub open spec fn writes_epoch(format: LogFormat, plan: EpochPlan, offset: u64) -> bool {
    let effects = plan.spec_effects();
    &&& effects.len() == 2
    &&& effects[0] matches EffectModel::Write { stage, bytes }
    &&& stage == FileIoStage::WriteEpochFrame
    &&& decoded_frame(bytes, offset, format) matches Ok(frame)
    &&& frame.kind == FrameKind::EpochAllocation
    &&& frame.payload0 == plan.spec_epoch() && frame.payload1 == 0 && frame.payload2 == 0
    &&& effects[1] == EffectModel::Sync { stage: FileIoStage::SyncEpochFrame }
}

/// A finished allocation hands out the planned epoch under the log's lineage and moves
/// the next epoch on by one, so that no epoch is handed out twice. Nothing else changes.
pub proof fn law_finish_epoch<const N: usize>(
    log: &mut FileCommitLog<N>,
    plan: EpochPlan,
    allocated: (u64, LogLineage),
)
    requires
        call_ensures(FileCommitLog::<N>::finish_transaction_epoch, (log, plan), allocated),
    ensures
        allocated.0 == plan.spec_epoch(),
        allocated.1 == old(log).spec_lineage(),
        plan.spec_epoch() == u64::MAX ==> final(log)@.next_epoch is None,
        plan.spec_epoch() < u64::MAX ==> (final(log)@.next_epoch matches Some(next) && next
            == plan.spec_epoch() + 1),
        final(log)@ == (LogModel { next_epoch: final(log)@.next_epoch, ..old(log)@ }),
        final(log).spec_lineage() == old(log).spec_lineage(),
{
}

/// An effect that failed poisons the log, unless it is the synchronization before a
/// durability marker, which leaves the file as it was. Nothing else changes, and what is
/// reported is the failed stage and its cause.
pub proof fn law_effect_failed<const N: usize>(
    log: &mut FileCommitLog<N>,
    stage: FileIoStage,
    source: std::io::Error,
    error: FileIoError,
)
    requires
        call_ensures(FileCommitLog::<N>::effect_failed, (log, stage, source), error),
    ensures
        stage != FileIoStage::SyncCommitPrefix ==> final(log)@.poisoned,
        stage == FileIoStage::SyncCommitPrefix ==> final(log)@.poisoned == old(log)@.poisoned,
        final(log)@ == (LogModel { poisoned: final(log)@.poisoned, ..old(log)@ }),
        error.stage == stage && error.source == source,
{
}

/// A fault is armed where none is, and never takes the place of another.
pub proof fn law_arm_fault<const N: usize>(
    log: &mut FileCommitLog<N>,
    fault: FaultPoint,
    result: Result<(), FaultAlreadyArmed>,
)
    requires
        call_ensures(FileCommitLog::<N>::arm_fault, (log, fault), result),
    ensures
        result is Ok <==> old(log)@.armed_fault is None,
        result is Ok ==> final(log)@ == (LogModel { armed_fault: Some(fault), ..old(log)@ }),
        result matches Err(error) ==> {
            &&& final(log)@ == old(log)@
            &&& Some(error.armed) == old(log)@.armed_fault
            &&& error.requested == fault
        },
{
}

/// What an append does to the file: one write for a commit; for a page one for its header,
/// one for its owner where it has one, and one for every eight bytes of it. Nothing is made
/// durable yet.
pub proof fn law_append_effects<const N: usize>(
    log: &mut FileCommitLog<N>,
    page: UnloggedPage<N>,
    owner: Option<StoredTransactionIdentity>,
    plan: AppendPlan<N>,
    other: &mut FileCommitLog<N>,
    transaction_id: TransactionId,
    commit: AppendPlan<N>,
    index: int,
)
    requires
        call_ensures(
            FileCommitLog::<N>::append_page_group::<N>,
            (log, &page, owner, true),
            Ok::<_, FileCommitLogError>(plan),
        ),
        call_ensures(
            FileCommitLog::<N>::append_commit_record,
            (other, transaction_id, true),
            Ok::<_, FileCommitLogError>(commit),
        ),
        0 <= index < plan.spec_effects().len(),
    ensures
        commit.spec_effects().len() == 1,
        commit.spec_effects()[0] matches EffectModel::Write { stage, .. } && stage
            == FileIoStage::WriteCommitFrame,
        plan.spec_effects().len() == (N + 7) / 8 + (if owner is Some {
            2int
        } else {
            1int
        }),
        plan.spec_effects()[index] matches EffectModel::Write { stage, .. } && stage == (if owner
            is Some {
            if index == 0 {
                FileIoStage::WriteTransactionPageHeaderFrame
            } else if index == 1 {
                FileIoStage::WriteTransactionPageOwnerFrame
            } else {
                FileIoStage::WritePageDataFrame
            }
        } else {
            if index == 0 {
                FileIoStage::WritePageHeaderFrame
            } else {
                FileIoStage::WritePageDataFrame
            }
        }),
{
    lemma_data_frames_len(
        old(log)@.format,
        plan.spec_record().position,
        page.bytes@,
        chunk_total(N as nat),
    );
}


} // verus!
