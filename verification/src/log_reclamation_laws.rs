//! Laws of reclamation: what its candidate file holds, and which commits it keeps.
use vstd::prelude::*;

use crate::commit_log::reclamation::{
    after_reclamation, all_record_frames, candidate_frames, candidate_header, planning_refusal,
    reclaimed_coordinates, reclamation_refusal, retained_start,
    DurableTransactionRestartWalReclamationPermit,
};
use crate::commit_log::recovery::{commit_index, commit_lookup, DurableCommitLookup};
use crate::format::LogFormat;
use crate::identity::{LogLineage, LogSequenceNumber, TransactionId};
use crate::log_effect::record_frames;
use crate::log_error::{FileFormatError, FileTransactionRecoveryError};
use crate::log_frame::{law_number_frame_round_trip, number_frame_bytes, FrameKind};
use crate::log_header::{law_header_v4_round_trip, law_header_v5_round_trip, HeaderExpectation};
use crate::log_laws::{
    acceptable, expects_width, highest_epoch, holds, lemma_holds, lemma_index_of_position,
    lemma_record_frames, lemma_replay_record, settled,
};
use crate::log_model::{
    coverage_error, frames_end, initial_scan, opened_log, read_header, repaired_len, HeaderModel,
    LogModel,
};
use crate::log_record::{RecordBody, RecordModel};
use crate::log_replay::{
    commits_distinct, concat, lemma_concat_len, lemma_header_extend, lemma_header_facts,
    lemma_position_index, lemma_replay_append, lemma_scan_replay, replay, whole_frames,
};
use crate::log_scan::{scan, successor, ScanModel};

verus! {

/// The state in which `records` have been read.
pub open spec fn loaded(start: ScanModel, records: Seq<RecordModel>) -> ScanModel
    decreases records.len(),
{
    if records.len() == 0 {
        start
    } else {
        loaded(start, records.drop_last()).with_record(records.last())
    }
}

proof fn lemma_loaded(start: ScanModel, records: Seq<RecordModel>)
    requires
        start.records.len() == 0,
        start.pending is None,
    ensures
        loaded(start, records) == (ScanModel {
            records,
            last_completed: if records.len() == 0 {
                start.last_completed
            } else {
                records.last().position
            },
            next_position: if records.len() == 0 {
                start.next_position
            } else {
                successor(records.last().position)
            },
            ..start
        }),
    decreases records.len(),
{
    if records.len() > 0 {
        lemma_loaded(start, records.drop_last());
        assert(records.drop_last().push(records.last()) =~= records);
    } else {
        assert(start.records =~= records);
    }
}

/// Whether `records` can be read one after the other, the first of them in `start`.
pub open spec fn loadable(format: LogFormat, start: ScanModel, records: Seq<RecordModel>) -> bool {
    &&& start.wf()
    &&& start.has_layout
    &&& start.pending is None
    &&& start.records.len() == 0
    &&& start.durable_len == 0
    &&& format.has_transaction_pages()
    &&& records.len() > 0 ==> start.next_position == Some(records[0].position)
    &&& forall|i: int|
        0 <= i < records.len() ==> (#[trigger] records[i]).position == records[0].position + i
    &&& forall|i: int|
        0 <= i < records.len() ==> (#[trigger] records[i]).wf(start.width, start.highest_epoch)
    &&& commits_distinct(records)
}

proof fn lemma_loadable_shorter(format: LogFormat, start: ScanModel, records: Seq<RecordModel>)
    requires
        loadable(format, start, records),
        records.len() > 0,
    ensures
        loadable(format, start, records.drop_last()),
        acceptable(format, loaded(start, records.drop_last()), records.last()),
{
    let shorter = records.drop_last();
    let last = records.last();
    lemma_loaded(start, shorter);
    assert forall|i: int| 0 <= i < shorter.len() implies (#[trigger] shorter[i]).position
        == shorter[0].position + i by {
        assert(shorter[i] == records[i]);
    }
    assert forall|i: int| 0 <= i < shorter.len() implies (#[trigger] shorter[i]).wf(
        start.width,
        start.highest_epoch,
    ) by {
        assert(shorter[i] == records[i]);
    }
    assert forall|i: int, j: int|
        #![trigger shorter[i], shorter[j]]
        0 <= i < j < shorter.len() && shorter[i].body is Commit implies shorter[i].body
        != shorter[j].body by {
        assert(shorter[i] == records[i] && shorter[j] == records[j]);
    }
    assert(records[records.len() - 1].position == records[0].position + records.len() - 1);
    if shorter.len() > 0 {
        assert(shorter.last() == records[records.len() - 2]);
    }
    match last.body {
        RecordBody::Commit { epoch, sequence } => {
            assert forall|i: int| 0 <= i < shorter.len() implies !(
            #[trigger] shorter[i]).is_commit_of(epoch, sequence) by {
                assert(shorter[i] == records[i]);
                assert(records[records.len() - 1].body == last.body);
            }
        },
        _ => {},
    }
}

/// The frames of records are whole frames, and reading them loads the records.
proof fn lemma_replay_records(
    format: LogFormat,
    start: ScanModel,
    records: Seq<RecordModel>,
    offset: nat,
)
    requires
        loadable(format, start, records),
        offset + 56 * all_record_frames(format, records).len() <= u64::MAX,
    ensures
        whole_frames(all_record_frames(format, records)),
        replay(start, all_record_frames(format, records), offset, format) == Ok::<
            ScanModel,
            FileFormatError,
        >(loaded(start, records)),
    decreases records.len(),
{
    if records.len() > 0 {
        let shorter = records.drop_last();
        let last = records.last();
        let before = all_record_frames(format, shorter);
        let frames = record_frames(format, last);
        lemma_loadable_shorter(format, start, records);
        lemma_replay_records(format, start, shorter, offset);
        lemma_replay_append(start, before, frames, offset, format);
        lemma_record_frames(format, last);
        let here = (offset + 56 * before.len()) as nat;
        lemma_replay_record(format, loaded(start, shorter), last, here, frames.len());
        assert(frames.take(frames.len() as int) =~= frames);
    }
}

/// What a candidate's header is read as.
proof fn lemma_candidate_header(log: LogModel, expectation: HeaderExpectation)
    requires
        log.format == LogFormat::V4 || log.format == LogFormat::V5,
        log.coordinates matches Some(coordinates) && coordinates.wf(),
        log.persistent_id != 0,
        log.identity is Some <==> log.format == LogFormat::V5,
        log.identity matches Some(identity) ==> identity.wf(),
        expectation.spec_accepts(log.format),
        expects_width(expectation, log.width),
    ensures
        read_header(candidate_header(log), expectation) == Ok::<HeaderModel, FileFormatError>(
            HeaderModel {
                format: log.format,
                persistent_id: log.persistent_id,
                coordinates: log.coordinates,
                identity: log.identity,
                length: candidate_header(log).len(),
            },
        ),
        candidate_header(log).len() <= 192,
{
    let bytes = candidate_header(log);
    let width = log.width as u64;
    let coordinates = log.coordinates->0;
    reveal(read_header);
    if log.format == LogFormat::V5 {
        law_header_v5_round_trip(log.persistent_id, width, log.coordinates, log.identity->0);
        assert(bytes.take(192) =~= bytes);
    } else {
        law_header_v4_round_trip(log.persistent_id, width, coordinates);
        assert(bytes.take(128) =~= bytes);
    }
}

/// The records that an admitted reclamation keeps.
proof fn lemma_retained(
    bytes: Seq<u8>,
    expectation: HeaderExpectation,
    log: LogModel,
    lineage: LogLineage,
    permit: DurableTransactionRestartWalReclamationPermit,
)
    requires
        holds(bytes, expectation, log),
        permit.anchor_version != 0,
        reclamation_refusal(log, lineage, permit) is None,
        log.generation() < u64::MAX,
    ensures
        ({
            let after = after_reclamation(log, lineage, permit);
            let coordinates = reclaimed_coordinates(log, permit);
            let start = initial_scan(Some(coordinates), true, log.width);
            &&& after.coordinates == Some(coordinates)
            &&& coordinates.wf()
            &&& loadable(after.format, start, after.records)
            &&& log.next_epoch == successor(coordinates.allocated_epoch_high_water)
            &&& if after.records.len() == 0 {
                coordinates.retained_first is None
            } else {
                &&& coordinates.retained_first == Some(after.records[0].position)
                &&& coordinates.logical_high_water == Some(after.records.last().position)
            }
        }),
{
    let after = after_reclamation(log, lineage, permit);
    let retained = after.records;
    let coordinates = reclaimed_coordinates(log, permit);
    let begin = retained_start(log, lineage, permit)->0;
    let (header, end) = lemma_holds(bytes, expectation, log);
    assert(log.records == end.records);
    match permit.retained_first_logical_record {
        None => {},
        Some(floor) => {
            lemma_position_index(log.records, floor.value, 0);
        },
    }
    assert forall|i: int| 0 <= i < retained.len() implies #[trigger] retained[i]
        == end.records[begin + i] by {}
    if retained.len() > 0 {
        assert(retained[0] == end.records[begin as int]);
        assert(retained.last() == end.records[end.records.len() - 1]);
    }
    assert forall|i: int| 0 <= i < retained.len() implies (#[trigger] retained[i]).position
        == retained[0].position + i by {
        assert(retained[i] == end.records[begin + i]);
    }
    assert forall|i: int, j: int|
        #![trigger retained[i], retained[j]]
        0 <= i < j < retained.len() && retained[i].body is Commit implies retained[i].body
        != retained[j].body by {
        assert(retained[i] == end.records[begin + i] && retained[j] == end.records[begin + j]);
    }
}

/// Reading the candidate's frames.
proof fn lemma_replay_candidate(
    format: LogFormat,
    start: ScanModel,
    records: Seq<RecordModel>,
    offset: nat,
) -> (last: ScanModel)
    requires
        loadable(format, start, records),
        records.len() > 0 ==> start.last_durable is None,
        offset + 56 * candidate_frames(format, records).len() <= u64::MAX,
    ensures
        whole_frames(candidate_frames(format, records)),
        replay(start, candidate_frames(format, records), offset, format) == Ok::<
            ScanModel,
            FileFormatError,
        >(last),
        last == (ScanModel {
            durable_len: records.len(),
            last_durable: if records.len() == 0 {
                start.last_durable
            } else {
                Some(records.last().position)
            },
            ..loaded(start, records)
        }),
{
    let frames = all_record_frames(format, records);
    let end = loaded(start, records);
    lemma_loaded(start, records);
    if records.len() == 0 {
        end
    } else {
        lemma_replay_records(format, start, records, offset);
        let position = records.last().position;
        let marker = number_frame_bytes(format, FrameKind::DurableThrough, position, 0, 0);
        let here = (offset + 56 * frames.len()) as nat;
        law_number_frame_round_trip(
            format,
            FrameKind::DurableThrough,
            position,
            0,
            0,
            here as u64,
        );
        lemma_index_of_position(
            records,
            (records.len() - 1) as nat,
            0,
            records[0].position as int,
        );
        assert(records[records.len() - 1].wf(start.width, start.highest_epoch));
        assert(frames.push(marker).drop_last() =~= frames);
        ScanModel { durable_len: records.len(), last_durable: Some(position), ..end }
    }
}

/// The candidate file of a reclamation holds the log as it is after the
/// reclamation: its generation has advanced by one, and it keeps the records from
/// the permit's floor on, all of them durable.
pub proof fn law_reclaim_then_open(
    bytes: Seq<u8>,
    expectation: HeaderExpectation,
    log: LogModel,
    lineage: LogLineage,
    permit: DurableTransactionRestartWalReclamationPermit,
)
    requires
        holds(bytes, expectation, log),
        permit.anchor_version != 0,
        reclamation_refusal(log, lineage, permit) is None,
        planning_refusal(log, retained_start(log, lineage, permit)->0, true, true) is None,
        192 + 56 * candidate_frames(
            after_reclamation(log, lineage, permit).format,
            after_reclamation(log, lineage, permit).records,
        ).len() <= u64::MAX,
    ensures
        ({
            let after = after_reclamation(log, lineage, permit);
            &&& after.generation() == log.generation() + 1
            &&& after.durable_position() == log.durable_position()
            &&& after.epoch_high_water() == log.epoch_high_water()
            &&& holds(
                candidate_header(after) + concat(candidate_frames(after.format, after.records)),
                expectation,
                after,
            )
        }),
{
    let after = after_reclamation(log, lineage, permit);
    let coordinates = reclaimed_coordinates(log, permit);
    let start = initial_scan(Some(coordinates), true, log.width);
    let (known, end) = lemma_holds(bytes, expectation, log);
    lemma_header_facts(bytes, expectation, known);
    lemma_header_extend(bytes, Seq::empty(), expectation, known);
    lemma_retained(bytes, expectation, log, lineage, permit);
    lemma_candidate_header(after, expectation);
    let front = candidate_header(after);
    let frames = candidate_frames(after.format, after.records);
    let whole = front + concat(frames);
    let header = read_header(front, expectation)->Ok_0;
    lemma_header_extend(front, concat(frames), expectation, header);
    let last = lemma_replay_candidate(after.format, start, after.records, front.len());
    lemma_loaded(start, after.records);
    lemma_concat_len(frames);
    assert(whole.subrange(
        front.len() as int,
        (front.len() + 56 * frames.len()) as int,
    ) =~= concat(frames));
    lemma_scan_replay(start, whole, front.len(), frames, after.format);
    assert(scan(last, whole, whole.len(), after.format) == Ok::<ScanModel, FileFormatError>(last));
    let total = frames_end(header.length, whole.len()) as u64;
    assert(coverage_error(header.coordinates, last, total) is None);
    assert(opened_log(header, last) =~= settled(after));
    assert(repaired_len(header.length, whole.len(), last) is None);
}

/// The first commit of a transaction behind the first `start` records is found
/// without these records too.
proof fn lemma_commit_index_of_rest(
    records: Seq<RecordModel>,
    epoch: u64,
    sequence: u64,
    start: nat,
    from: nat,
)
    requires
        start <= records.len(),
    ensures
        match commit_index(records, epoch, sequence, start + from) {
            Some(index) => start + from <= index < records.len() && commit_index(
                records.skip(start as int),
                epoch,
                sequence,
                from,
            ) == Some((index - start) as nat),
            None => commit_index(records.skip(start as int), epoch, sequence, from) is None,
        },
    decreases records.len() - from,
{
    if start + from < records.len() {
        assert(records.skip(start as int)[from as int] == records[(start + from) as int]);
        if !records[(start + from) as int].is_commit_of(epoch, sequence) {
            lemma_commit_index_of_rest(records, epoch, sequence, start, from + 1);
        }
    }
}

/// A transaction whose only commit stands at `only` is found from `from` on as far as
/// the commit is still ahead.
proof fn lemma_only_commit(
    records: Seq<RecordModel>,
    epoch: u64,
    sequence: u64,
    only: nat,
    from: nat,
    start: nat,
)
    requires
        commit_index(records, epoch, sequence, from) == Some(only),
        commit_index(records, epoch, sequence, only + 1) is None,
        from <= start,
    ensures
        from <= only < records.len(),
        commit_index(records, epoch, sequence, start) == if start <= only {
            Some(only)
        } else {
            None
        },
    decreases records.len() - from,
{
    if !records[from as int].is_commit_of(epoch, sequence) {
        lemma_only_commit(
            records,
            epoch,
            sequence,
            only,
            from + 1,
            if start > from {
                start
            } else {
                from + 1
            },
        );
    } else if start > only {
        lemma_none_stays_none(records, epoch, sequence, only + 1, start);
    }
}

proof fn lemma_none_stays_none(
    records: Seq<RecordModel>,
    epoch: u64,
    sequence: u64,
    from: nat,
    start: nat,
)
    requires
        commit_index(records, epoch, sequence, from) is None,
        from <= start,
    ensures
        commit_index(records, epoch, sequence, start) is None,
    decreases start - from,
{
    if from < start {
        if from < records.len() {
            lemma_none_stays_none(records, epoch, sequence, from + 1, start);
        }
    }
}

/// A reclamation forgets exactly the commits below the permit's floor: the others
/// are found where they were.
pub proof fn law_reclamation_keeps_commits_from_the_floor_on(
    bytes: Seq<u8>,
    expectation: HeaderExpectation,
    log: LogModel,
    lineage: LogLineage,
    permit: DurableTransactionRestartWalReclamationPermit,
    transaction_id: TransactionId,
    position: LogSequenceNumber,
)
    requires
        holds(bytes, expectation, log),
        reclamation_refusal(log, lineage, permit) is None,
        commit_lookup(log, lineage, transaction_id) == Ok::<_, FileTransactionRecoveryError>(
            (lineage, DurableCommitLookup::Found { position }),
        ),
    ensures
        commit_lookup(after_reclamation(log, lineage, permit), lineage, transaction_id) == Ok::<
            _,
            FileTransactionRecoveryError,
        >(
            (
                lineage,
                if permit.retained_first_logical_record matches Some(floor) && floor.value
                    <= position.value {
                    DurableCommitLookup::Found { position }
                } else {
                    DurableCommitLookup::Absent
                },
            ),
        ),
{
    let epoch = transaction_id.spec_epoch();
    let sequence = transaction_id.spec_sequence();
    let start = retained_start(log, lineage, permit)->0;
    let only = commit_index(log.records, epoch, sequence, 0)->0;
    let (header, end) = lemma_holds(bytes, expectation, log);
    assert(log.records == end.records);
    if let Some(floor) = permit.retained_first_logical_record {
        lemma_position_index(log.records, floor.value, 0);
    }
    lemma_only_commit(log.records, epoch, sequence, only, 0, start);
    lemma_commit_index_of_rest(log.records, epoch, sequence, start, 0);
    if start <= only {
        lemma_commit_index_of_rest(
            log.records,
            epoch,
            sequence,
            start,
            (only + 1 - start) as nat,
        );
        assert(end.records[start as int].position <= end.records[only as int].position);
    } else if start < log.records.len() {
        assert(end.records[only as int].position < end.records[start as int].position);
    }
}

/// The frames that a reclamation writes for records, by themselves: parsed and applied
/// in order they are all accepted, and give back exactly the records, all of them
/// durable.
pub proof fn law_reclaimed_frames_are_read_as_the_records(
    format: LogFormat,
    width: nat,
    highest_epoch: u64,
    first: u64,
    records: Seq<RecordModel>,
    offset: nat,
)
    requires
        format.has_transaction_pages(),
        0 < width <= usize::MAX - 7,
        first >= 1,
        forall|i: int| 0 <= i < records.len() ==> (#[trigger] records[i]).position == first + i,
        forall|i: int|
            0 <= i < records.len() ==> (#[trigger] records[i]).wf(width, highest_epoch),
        commits_distinct(records),
        offset + 56 * candidate_frames(format, records).len() <= u64::MAX,
    ensures
        ({
            let start = ScanModel::initial(
                true,
                width,
                highest_epoch,
                Some(first),
                (first - 1) as u64,
                None,
            );
            let frames = candidate_frames(format, records);
            &&& whole_frames(frames)
            &&& replay(start, frames, offset, format) matches Ok(end)
            &&& end.records == records
            &&& end.durable_len == records.len()
            &&& end.pending is None
            &&& end.highest_epoch == highest_epoch
            &&& end.next_position == if records.len() == 0 {
                Some(first)
            } else {
                successor(records.last().position)
            }
            &&& records.len() == 0 ==> frames.len() == 0
        }),
{
    let start = ScanModel::initial(
        true,
        width,
        highest_epoch,
        Some(first),
        (first - 1) as u64,
        None,
    );
    if records.len() > 0 {
        assert(records[0].position == first + 0);
    }
    lemma_loaded(start, records);
    let end = lemma_replay_candidate(format, start, records, offset);
}

} // verus!
