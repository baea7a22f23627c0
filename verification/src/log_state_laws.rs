//! Laws of the commit log's state, whatever its file.
use vstd::prelude::*;

use crate::commit_log::recovery::{commit_index, commit_lookup, DurableCommitLookup};
use crate::commit_log::reclamation::{
    reclamation_refusal, DurableTransactionRestartWalReclamationPermit,
};
use crate::commit_log::{
    after_append, after_flush, commit_append_refusal, commit_body, epoch_refusal, flush_request,
    page_append_refusal, restart_epoch_refusal, transaction_page_append_refusal,
};
use crate::format::LogFormat;
use crate::identity::{LogLineage, LogSequenceNumber, TransactionId};
use crate::log_error::{
    FileCommitLogError, FileFormatError, FileTransactionEpochError, FileTransactionRecoveryError,
    FileTransactionRestartWalReclamationError,
};
use crate::log_frame::{decoded_frame, FrameModel};
use crate::log_header::{HeaderExpectation, ReclaimedCoordinates};
use crate::log_laws::{appendable, expects_width, highest_epoch, holds, lemma_holds};
use crate::log_model::{first_position, initial_scan, opened, read_header, LogModel, OpenedModel};
use crate::log_record::{contains_commit, RecordModel};
use crate::log_replay::{
    coherent, commits_distinct, lemma_header_extend, lemma_initial_coherent, lemma_position_index,
    lemma_scan_coherent, lemma_scan_extend, lemma_step_coherent,
};
use crate::log_scan::{scan, step, successor, ScanModel};
use crate::page::UnloggedPage;

verus! {

/// Whatever a file holds, the log that is read from it is sound: its positions run
/// without a gap, its durable records come first, no transaction is committed
/// twice, and no record names an epoch that was not allocated.
pub proof fn law_opened_log_is_sound(
    bytes: Seq<u8>,
    expectation: HeaderExpectation,
    width: nat,
    model: OpenedModel,
)
    requires
        expects_width(expectation, width),
        opened(bytes, expectation, width) == Ok::<OpenedModel, FileFormatError>(model),
    ensures
        ({
            let log = model.log;
            &&& log.durable_len <= log.records.len()
            &&& forall|i: int|
                0 <= i < log.records.len() ==> (#[trigger] log.records[i]).position
                    == first_position(log.coordinates)->0 + i
            &&& forall|i: int|
                0 <= i < log.records.len() ==> (#[trigger] log.records[i]).wf(
                    width,
                    highest_epoch(log),
                )
            &&& commits_distinct(log.records)
            &&& log.next_position == if log.records.len() == 0 {
                first_position(log.coordinates)
            } else {
                successor(log.records.last().position)
            }
        }),
{
    let header = read_header(bytes, expectation)->Ok_0;
    let has_layout = expectation.spec_page_layout() is Some;
    let start = initial_scan(header.coordinates, has_layout, width);
    lemma_header_extend(bytes, Seq::empty(), expectation, header);
    lemma_initial_coherent(header.coordinates, has_layout, width);
    lemma_scan_coherent(header.coordinates, start, bytes, header.length, header.format);
}

/// A log whose file has become uncertain refuses to append, to make durable, to
/// allocate, to reclaim and to answer, until it is opened again.
pub proof fn law_poisoned_log_refuses<const PAGE_N: usize>(
    log: LogModel,
    lineage: LogLineage,
    page: UnloggedPage<PAGE_N>,
    transaction_id: TransactionId,
    position: LogSequenceNumber,
    persisted_epoch_high_water: Option<u64>,
    permit: DurableTransactionRestartWalReclamationPermit,
)
    requires
        log.poisoned,
    ensures
        page_append_refusal(log, lineage, page) == Some(FileCommitLogError::PoisonedWriter),
        transaction_page_append_refusal(log, lineage, page) is Some,
        commit_append_refusal(log) == Some(FileCommitLogError::PoisonedWriter),
        flush_request(log, lineage, position) == Err::<nat, _>(FileCommitLogError::PoisonedWriter),
        epoch_refusal(log) == Some(FileTransactionEpochError::PoisonedWriter),
        restart_epoch_refusal(log, persisted_epoch_high_water) is Some,
        reclamation_refusal(log, lineage, permit) == Some(
            FileTransactionRestartWalReclamationError::PoisonedWriter,
        ),
        commit_lookup(log, lineage, transaction_id) == Err::<(LogLineage, DurableCommitLookup), _>(
            FileTransactionRecoveryError::PoisonedWriter,
        ),
{
}

proof fn lemma_no_commit(records: Seq<RecordModel>, epoch: u64, sequence: u64, from: nat)
    requires
        !contains_commit(records, epoch, sequence),
    ensures
        commit_index(records, epoch, sequence, from) is None,
    decreases records.len() - from,
{
    if from < records.len() {
        assert(!records[from as int].is_commit_of(epoch, sequence));
        lemma_no_commit(records, epoch, sequence, from + 1);
    }
}

/// The only commit of a transaction is found where it stands.
proof fn lemma_last_commit(
    records: Seq<RecordModel>,
    record: RecordModel,
    epoch: u64,
    sequence: u64,
    from: nat,
)
    requires
        !contains_commit(records, epoch, sequence),
        record.is_commit_of(epoch, sequence),
        from <= records.len(),
    ensures
        commit_index(records.push(record), epoch, sequence, from) == Some(records.len()),
        commit_index(records.push(record), epoch, sequence, records.len() + 1) is None,
    decreases records.len() - from,
{
    let longer = records.push(record);
    if from < records.len() {
        assert(longer[from as int] == records[from as int]);
        assert(!records[from as int].is_commit_of(epoch, sequence));
        lemma_last_commit(records, record, epoch, sequence, from + 1);
    }
}

/// A commit that has been appended is volatile; once the log is durable through
/// it, looking it up gives its position.
pub proof fn law_commit_is_found_once_durable(
    log: LogModel,
    lineage: LogLineage,
    transaction_id: TransactionId,
    record: RecordModel,
)
    requires
        !log.poisoned,
        log.durable_len <= log.records.len(),
        record.body == commit_body(transaction_id),
        appendable(log, record),
    ensures
        commit_lookup(log, lineage, transaction_id) == Ok::<_, FileTransactionRecoveryError>(
            (lineage, DurableCommitLookup::Absent),
        ),
        commit_lookup(after_append(log, record), lineage, transaction_id) == Err::<
            (LogLineage, DurableCommitLookup),
            _,
        >(FileTransactionRecoveryError::VolatileCommitRecord(transaction_id)),
        commit_lookup(
            after_flush(after_append(log, record), log.records.len() + 1),
            lineage,
            transaction_id,
        ) == Ok::<_, FileTransactionRecoveryError>(
            (
                lineage,
                DurableCommitLookup::Found {
                    position: LogSequenceNumber { lineage, value: record.position },
                },
            ),
        ),
{
    let epoch = transaction_id.spec_epoch();
    let sequence = transaction_id.spec_sequence();
    lemma_no_commit(log.records, epoch, sequence, 0);
    lemma_last_commit(log.records, record, epoch, sequence, 0);
}

/// No frame takes a record away, makes a record volatile again, or gives an epoch
/// back.
proof fn lemma_step_keeps(
    coordinates: Option<ReclaimedCoordinates>,
    state: ScanModel,
    frame: FrameModel,
    offset: u64,
)
    requires
        coherent(coordinates, state),
        step(state, frame, offset) is Ok,
    ensures
        state.records.is_prefix_of(step(state, frame, offset)->Ok_0.records),
        state.durable_len <= step(state, frame, offset)->Ok_0.durable_len,
        state.highest_epoch <= step(state, frame, offset)->Ok_0.highest_epoch,
{
    lemma_position_index(state.records, frame.payload0, 0);
    if state.durable_len > 0 {
        assert(state.records[state.durable_len - 1].position == first_position(coordinates)->0
            + state.durable_len - 1);
    }
}

proof fn lemma_scan_keeps(
    coordinates: Option<ReclaimedCoordinates>,
    state: ScanModel,
    bytes: Seq<u8>,
    offset: nat,
    format: LogFormat,
)
    requires
        coherent(coordinates, state),
        state.has_layout ==> state.width > 0,
        scan(state, bytes, offset, format) is Ok,
    ensures
        state.records.is_prefix_of(scan(state, bytes, offset, format)->Ok_0.records),
        state.durable_len <= scan(state, bytes, offset, format)->Ok_0.durable_len,
        state.highest_epoch <= scan(state, bytes, offset, format)->Ok_0.highest_epoch,
    decreases bytes.len() - offset,
{
    if offset + 56 <= bytes.len() {
        let frame = decoded_frame(
            bytes.subrange(offset as int, offset as int + 56),
            offset as u64,
            format,
        )->Ok_0;
        let next = step(state, frame, offset as u64)->Ok_0;
        assert(frame.payload2_bytes.len() == 8) by {
            reveal(decoded_frame);
        }
        lemma_step_coherent(coordinates, state, frame, offset as u64);
        lemma_step_keeps(coordinates, state, frame, offset as u64);
        lemma_scan_keeps(coordinates, next, bytes, offset + 56, format);
    }
}

/// Whatever is written behind what a file holds: where the file can still be opened,
/// no record is lost, no durable record has become volatile, and no epoch will be
/// allocated again.
pub proof fn law_later_bytes_keep_the_log(
    bytes: Seq<u8>,
    expectation: HeaderExpectation,
    log: LogModel,
    more: Seq<u8>,
    model: OpenedModel,
)
    requires
        holds(bytes, expectation, log),
        opened(bytes + more, expectation, log.width) == Ok::<OpenedModel, FileFormatError>(model),
    ensures
        log.records.is_prefix_of(model.log.records),
        log.durable_len <= model.log.durable_len <= model.log.records.len(),
        highest_epoch(log) <= highest_epoch(model.log),
        model.log.format == log.format,
        model.log.persistent_id == log.persistent_id,
        model.log.identity == log.identity,
        model.log.coordinates == log.coordinates,
{
    let (header, end) = lemma_holds(bytes, expectation, log);
    let has_layout = expectation.spec_page_layout() is Some;
    let start = initial_scan(header.coordinates, has_layout, log.width);
    let whole = bytes + more;
    lemma_header_extend(bytes, more, expectation, header);
    lemma_scan_extend(start, bytes, more, header.length, header.format);
    lemma_scan_coherent(header.coordinates, end, whole, bytes.len(), header.format);
    lemma_scan_keeps(header.coordinates, end, whole, bytes.len(), header.format);
}

/// A commit is found in a longer list where it was found in a shorter one.
proof fn lemma_commit_index_of_longer(
    records: Seq<RecordModel>,
    longer: Seq<RecordModel>,
    epoch: u64,
    sequence: u64,
    from: nat,
)
    requires
        records.is_prefix_of(longer),
        commit_index(records, epoch, sequence, from) is Some,
    ensures
        commit_index(longer, epoch, sequence, from) == commit_index(
            records,
            epoch,
            sequence,
            from,
        ),
        from <= commit_index(records, epoch, sequence, from)->0 < records.len(),
        records[commit_index(records, epoch, sequence, from)->0 as int].is_commit_of(
            epoch,
            sequence,
        ),
    decreases records.len() - from,
{
    assert(longer[from as int] == records[from as int]);
    if !records[from as int].is_commit_of(epoch, sequence) {
        lemma_commit_index_of_longer(records, longer, epoch, sequence, from + 1);
    }
}

/// A transaction that has been committed once is not committed behind that.
proof fn lemma_no_second_commit(
    records: Seq<RecordModel>,
    epoch: u64,
    sequence: u64,
    index: nat,
    from: nat,
)
    requires
        commits_distinct(records),
        index < from,
        index < records.len(),
        records[index as int].is_commit_of(epoch, sequence),
    ensures
        commit_index(records, epoch, sequence, from) is None,
    decreases records.len() - from,
{
    if from < records.len() {
        assert(records[index as int].body != records[from as int].body);
        lemma_no_second_commit(records, epoch, sequence, index, from + 1);
    }
}

/// Whatever is written behind what a file holds: where the file can still be opened,
/// a durable commit is found at the same position as before.
pub proof fn law_durable_commit_stays_found(
    bytes: Seq<u8>,
    expectation: HeaderExpectation,
    log: LogModel,
    more: Seq<u8>,
    model: OpenedModel,
    lineage: LogLineage,
    transaction_id: TransactionId,
    position: LogSequenceNumber,
)
    requires
        holds(bytes, expectation, log),
        opened(bytes + more, expectation, log.width) == Ok::<OpenedModel, FileFormatError>(model),
        commit_lookup(log, lineage, transaction_id) == Ok::<_, FileTransactionRecoveryError>(
            (lineage, DurableCommitLookup::Found { position }),
        ),
    ensures
        commit_lookup(model.log, lineage, transaction_id) == Ok::<_, FileTransactionRecoveryError>(
            (lineage, DurableCommitLookup::Found { position }),
        ),
{
    let epoch = transaction_id.spec_epoch();
    let sequence = transaction_id.spec_sequence();
    law_later_bytes_keep_the_log(bytes, expectation, log, more, model);
    law_opened_log_is_sound(bytes + more, expectation, log.width, model);
    lemma_commit_index_of_longer(log.records, model.log.records, epoch, sequence, 0);
    let index = commit_index(log.records, epoch, sequence, 0)->0;
    assert(model.log.records[index as int] == log.records[index as int]);
    lemma_no_second_commit(model.log.records, epoch, sequence, index, index + 1);
}

} // verus!
