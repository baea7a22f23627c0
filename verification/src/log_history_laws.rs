//! The law of a commit log's whole history: what is read back after any number of
//! operations.
use vstd::prelude::*;

use crate::commit_log::{
    after_append, after_flush, after_refusal, append_refusal, epoch_effects, epoch_refusal,
    flush_effects, flush_request,
};
use crate::format::LogFormat;
use crate::identity::{LogLineage, LogSequenceNumber};
use crate::log_effect::{record_bytes, written};
use crate::log_error::{FaultPoint, FileFormatError};
use crate::log_frame::{law_number_frame_round_trip, FrameKind};
use crate::log_header::{header_bytes, HeaderExpectation};
use crate::log_laws::{
    appendable, expects_width, holds, law_append_then_open, law_create_then_open,
    law_epoch_then_open, law_flush_then_open, lemma_epoch_written, lemma_flush_written, settled,
};
use crate::log_model::{opened, LogModel, OpenedModel};
use crate::log_record::{RecordBody, RecordModel};
use crate::log_replay::lemma_position_index;
use crate::log_scan::successor;

verus! {

/// One operation on a log.
pub enum LogOperation {
    ArmFault(FaultPoint),
    AllocateEpoch,
    /// Appending a commit, a page, or a page that a transaction owns.
    Append(RecordBody),
    FlushThrough(LogSequenceNumber),
}

/// The record that appending `body` makes.
pub open spec fn next_record(log: LogModel, body: RecordBody) -> RecordModel {
    RecordModel { position: log.next_position->0, body }
}

/// What an operation makes of the log, and what it writes behind its file, where
/// every write succeeds.
pub open spec fn operated(log: LogModel, lineage: LogLineage, operation: LogOperation) -> (
    LogModel,
    Seq<u8>,
) {
    match operation {
        LogOperation::ArmFault(fault) => if log.armed_fault is Some {
            (log, Seq::empty())
        } else {
            (LogModel { armed_fault: Some(fault), ..log }, Seq::empty())
        },
        LogOperation::AllocateEpoch => if epoch_refusal(log) is Some {
            (log, Seq::empty())
        } else {
            (
                LogModel { next_epoch: successor(log.next_epoch->0), ..log },
                written(epoch_effects(log.format, log.next_epoch->0)),
            )
        },
        LogOperation::Append(body) => match append_refusal(log) {
            Some(error) => (after_refusal(log, error), Seq::empty()),
            None => (
                after_append(log, next_record(log, body)),
                record_bytes(log.format, next_record(log, body)),
            ),
        },
        LogOperation::FlushThrough(position) => match flush_request(log, lineage, position) {
            Err(error) => (after_refusal(log, error), Seq::empty()),
            Ok(durable_len) => if durable_len <= log.durable_len {
                (log, Seq::empty())
            } else {
                (
                    after_flush(log, durable_len),
                    written(flush_effects(log.format, position.value)),
                )
            },
        },
    }
}

/// What operations make of the log, one after the other, and all that they write.
pub open spec fn history(log: LogModel, lineage: LogLineage, operations: Seq<LogOperation>) -> (
    LogModel,
    Seq<u8>,
)
    decreases operations.len(),
{
    if operations.len() == 0 {
        (log, Seq::empty())
    } else {
        let (middle, before) = history(log, lineage, operations.drop_last());
        let (end, more) = operated(middle, lineage, operations.last());
        (end, before + more)
    }
}

/// Whether every append of a history is of a record that may stand in the log: its page
/// is as wide as the log says, its transaction's epoch has been allocated, and a
/// transaction is committed only once.
pub open spec fn orderly(
    log: LogModel,
    lineage: LogLineage,
    operations: Seq<LogOperation>,
) -> bool {
    forall|i: int|
        0 <= i < operations.len() ==> (#[trigger] operations[i] matches LogOperation::Append(body)
            ==> ({
            let before = history(log, lineage, operations.take(i)).0;
            append_refusal(before) is None ==> appendable(before, next_record(before, body))
        }))
}

/// One operation leaves a file that holds the log.
proof fn lemma_operated_then_open(
    bytes: Seq<u8>,
    expectation: HeaderExpectation,
    log: LogModel,
    lineage: LogLineage,
    operation: LogOperation,
)
    requires
        holds(bytes, expectation, log),
        !log.poisoned,
        operation matches LogOperation::Append(body) ==> (append_refusal(log) is None
            ==> appendable(log, next_record(log, body))),
        bytes.len() + operated(log, lineage, operation).1.len() <= u64::MAX,
    ensures
        holds(
            bytes + operated(log, lineage, operation).1,
            expectation,
            operated(log, lineage, operation).0,
        ),
        !operated(log, lineage, operation).0.poisoned,
{
    let (after, more) = operated(log, lineage, operation);
    if more.len() == 0 {
        assert(bytes + more =~= bytes);
    }
    match operation {
        LogOperation::ArmFault(_) => {
            assert(settled(after) =~= settled(log));
        },
        LogOperation::AllocateEpoch => {
            if epoch_refusal(log) is None {
                let epoch = log.next_epoch->0;
                lemma_epoch_written(log.format, epoch);
                law_number_frame_round_trip(
                    log.format,
                    FrameKind::EpochAllocation,
                    epoch,
                    0,
                    0,
                    0,
                );
                law_epoch_then_open(bytes, expectation, log, epoch);
            }
        },
        LogOperation::Append(body) => {
            if append_refusal(log) is None {
                law_append_then_open(bytes, expectation, log, next_record(log, body));
            } else {
                assert(settled(after) =~= settled(log));
            }
        },
        LogOperation::FlushThrough(position) => {
            lemma_position_index(log.records, position.value, 0);
            match flush_request(log, lineage, position) {
                Ok(durable_len) => {
                    if durable_len > log.durable_len {
                        lemma_flush_written(log.format, position.value);
                        law_number_frame_round_trip(
                            log.format,
                            FrameKind::DurableThrough,
                            position.value,
                            0,
                            0,
                            0,
                        );
                        law_flush_then_open(bytes, expectation, log, durable_len);
                    }
                },
                Err(_) => {
                    assert(settled(after) =~= settled(log));
                },
            }
        },
    }
}

/// The operations before the last one are orderly too, and so is the last one behind them.
proof fn lemma_orderly_but_last(log: LogModel, lineage: LogLineage, operations: Seq<LogOperation>)
    requires
        operations.len() > 0,
        orderly(log, lineage, operations),
    ensures
        orderly(log, lineage, operations.drop_last()),
        operations.last() matches LogOperation::Append(body) ==> ({
            let before = history(log, lineage, operations.drop_last()).0;
            append_refusal(before) is None ==> appendable(before, next_record(before, body))
        }),
{
    let shorter = operations.drop_last();
    assert forall|i: int| 0 <= i < shorter.len() implies (
    #[trigger] shorter[i] matches LogOperation::Append(body) ==> ({
        let before = history(log, lineage, shorter.take(i)).0;
        append_refusal(before) is None ==> appendable(before, next_record(before, body))
    })) by {
        assert(shorter[i] == operations[i]);
        assert(shorter.take(i) =~= operations.take(i));
    }
    assert(operations.take(operations.len() - 1) =~= shorter);
    assert(operations[operations.len() - 1] == operations.last());
}

/// Whatever orderly operations follow on a log that a file holds, a database's log or
/// one that was reclaimed among them: the file holds the log after them.
pub proof fn law_further_history_then_open(
    bytes: Seq<u8>,
    expectation: HeaderExpectation,
    log: LogModel,
    lineage: LogLineage,
    operations: Seq<LogOperation>,
)
    requires
        holds(bytes, expectation, log),
        !log.poisoned,
        orderly(log, lineage, operations),
        bytes.len() + history(log, lineage, operations).1.len() <= u64::MAX,
    ensures
        holds(
            bytes + history(log, lineage, operations).1,
            expectation,
            history(log, lineage, operations).0,
        ),
        !history(log, lineage, operations).0.poisoned,
    decreases operations.len(),
{
    if operations.len() == 0 {
        assert(bytes + history(log, lineage, operations).1 =~= bytes);
    } else {
        let shorter = operations.drop_last();
        let last = operations.last();
        let (middle, before) = history(log, lineage, shorter);
        lemma_orderly_but_last(log, lineage, operations);
        law_further_history_then_open(bytes, expectation, log, lineage, shorter);
        let more = operated(middle, lineage, last).1;
        assert(bytes + history(log, lineage, operations).1 =~= bytes + before + more);
        lemma_operated_then_open(bytes + before, expectation, middle, lineage, last);
    }
}

/// Whatever orderly operations follow the creation of a log, with faults armed or not:
/// opening its file again gives back all that the log knows, its records, what of them
/// is durable, the next position, the next epoch and the identities; and nothing has to
/// be cut off the file.
pub proof fn law_history_then_open(
    format: LogFormat,
    persistent_id: u128,
    width: nat,
    expectation: HeaderExpectation,
    lineage: LogLineage,
    operations: Seq<LogOperation>,
)
    requires
        persistent_id != 0,
        format.spec_version() <= 3,
        expectation.spec_accepts(format),
        expects_width(expectation, width),
        orderly(LogModel::created(format, persistent_id, None, width), lineage, operations),
        header_bytes(format, persistent_id, width as u64).len() + history(
            LogModel::created(format, persistent_id, None, width),
            lineage,
            operations,
        ).1.len() <= u64::MAX,
    ensures
        ({
            let header = header_bytes(format, persistent_id, width as u64);
            let (log, more) = history(
                LogModel::created(format, persistent_id, None, width),
                lineage,
                operations,
            );
            &&& !log.poisoned
            &&& log.persistent_id == persistent_id
            &&& opened(header + more, expectation, width) == Ok::<_, FileFormatError>(
                OpenedModel {
                    log: LogModel { armed_fault: None, ..log },
                    repaired_len: None,
                },
            )
        }),
{
    let created = LogModel::created(format, persistent_id, None, width);
    let header = header_bytes(format, persistent_id, width as u64);
    law_create_then_open(format, persistent_id, width, expectation);
    law_further_history_then_open(header, expectation, created, lineage, operations);
    lemma_history_keeps_identity(created, lineage, operations);
    let log = history(created, lineage, operations).0;
    assert(settled(log) =~= LogModel { armed_fault: None, ..log });
}

proof fn lemma_history_keeps_identity(
    log: LogModel,
    lineage: LogLineage,
    operations: Seq<LogOperation>,
)
    ensures
        history(log, lineage, operations).0.persistent_id == log.persistent_id,
        history(log, lineage, operations).0.width == log.width,
    decreases operations.len(),
{
    if operations.len() > 0 {
        lemma_history_keeps_identity(log, lineage, operations.drop_last());
    }
}

} // verus!
