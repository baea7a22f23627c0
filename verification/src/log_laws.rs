//! Laws of the commit log: what is read back of what was written.
use vstd::prelude::*;

use crate::bytes::be_bytes;
use crate::commit_log::{after_append, after_flush, epoch_effects, flush_effects};
use crate::database_identity::ChildIdentityModel;
use crate::format::{chunk_total, page_chunk, LogFormat};
use crate::log_effect::{
    effect_frames, leading_frames, lemma_data_frame_at, lemma_data_frames_len,
    lemma_record_effects_write, page_data_frame, page_data_frames, record_bytes, record_data,
    record_effects, record_frames, written, EffectModel,
};
use crate::log_error::FileFormatError;
use crate::log_frame::{
    decoded_frame, law_frame_round_trip, law_number_frame_round_trip, number_frame_bytes,
    FrameKind, FrameModel,
};
use crate::log_header::{
    header_bytes, header_v5_bytes, law_header_round_trip, law_header_v5_round_trip,
    HeaderExpectation, ReclaimedCoordinates,
};
use crate::log_model::{
    coverage_error, first_position, frames_end, initial_scan, opened, opened_log, read_header,
    repaired_len, HeaderModel, LogModel, OpenedModel,
};
use crate::log_record::{contains_commit, PageModel, RecordBody, RecordModel};
use crate::log_replay::{
    coherent, concat, lemma_concat_len, lemma_header_extend, lemma_header_facts,
    lemma_initial_coherent, lemma_replay_append, lemma_scan_coherent, lemma_scan_extend,
    lemma_scan_replay, read_frame, replay, whole_frames,
};
use crate::log_scan::{position_index, scan, successor, PendingModel, PendingOwner, ScanModel};

verus! {

/// Whether `record` may come next in a file of this format that has been read up
/// to `state`.
pub open spec fn acceptable(format: LogFormat, state: ScanModel, record: RecordModel) -> bool {
    &&& state.wf()
    &&& state.pending is None
    &&& state.next_position == Some(record.position)
    &&& record.wf(state.width, state.highest_epoch)
    &&& match record.body {
        RecordBody::Commit { epoch, sequence } => !contains_commit(state.records, epoch, sequence),
        RecordBody::Page { .. } => state.has_layout && format.has_pages(),
        RecordBody::OwnedPage { .. } => state.has_layout && format.has_transaction_pages(),
    }
}

proof fn lemma_written_is_concat(effects: Seq<EffectModel>)
    requires
        forall|i: int| 0 <= i < effects.len() ==> #[trigger] effects[i] is Write,
    ensures
        written(effects) == concat(effect_frames(effects)),
    decreases effects.len(),
{
    if effects.len() > 0 {
        let shorter = effects.drop_last();
        assert forall|i: int| 0 <= i < shorter.len() implies #[trigger] shorter[i] is Write by {
            assert(shorter[i] == effects[i]);
        }
        lemma_written_is_concat(shorter);
        assert(effect_frames(effects).drop_last() =~= effect_frames(shorter));
        assert(effects[effects.len() - 1] is Write);
    }
}

/// The shape of the frames of a record.
pub proof fn lemma_record_frames(format: LogFormat, record: RecordModel)
    ensures
        record_bytes(format, record) == concat(record_frames(format, record)),
        whole_frames(record_frames(format, record)),
        record_frames(format, record) == effect_frames(leading_frames(format, record))
            + page_data_frames(
            format,
            record.position,
            record_data(record),
            chunk_total(record_data(record).len()),
        ),
        record_frames(format, record).len() == leading_frames(format, record).len() + chunk_total(
            record_data(record).len(),
        ),
        record_bytes(format, record).len() == 56 * record_frames(format, record).len(),
{
    let data = record_data(record);
    let total = chunk_total(data.len());
    let frames = page_data_frames(format, record.position, data, total);
    let effects = record_effects(format, record);
    lemma_data_frames_len(format, record.position, data, total);
    lemma_record_effects_write(format, record);
    lemma_written_is_concat(effects);
    assert(record_frames(format, record) =~= effect_frames(leading_frames(format, record))
        + frames);
    assert forall|i: int| 0 <= i < record_frames(format, record).len() implies (
    #[trigger] record_frames(format, record)[i]).len() == 56 by {
        let leading = leading_frames(format, record).len();
        if i >= leading {
            lemma_data_frame_at(format, record.position, data, total, (i - leading) as nat);
            assert(page_chunk(data, (i - leading) as nat).len() == 8);
            crate::log_frame::lemma_frame_len(
                format,
                FrameKind::PageData,
                record.position,
                (i - leading) as u64,
                page_chunk(data, (i - leading) as nat),
            );
        } else {
            match record.body {
                RecordBody::Commit { epoch, sequence } => {
                    lemma_number_frame_len(
                        format,
                        FrameKind::CommitRecord,
                        record.position,
                        epoch,
                        sequence,
                    );
                },
                RecordBody::Page { page } => {
                    lemma_number_frame_len(
                        format,
                        FrameKind::PageHeader,
                        record.position,
                        page.number,
                        page.version,
                    );
                },
                RecordBody::OwnedPage { epoch, sequence, page } => {
                    lemma_number_frame_len(
                        format,
                        FrameKind::TransactionPageHeader,
                        record.position,
                        page.number,
                        page.version,
                    );
                    lemma_number_frame_len(
                        format,
                        FrameKind::TransactionPageOwner,
                        record.position,
                        epoch,
                        sequence,
                    );
                },
            }
        }
    }
    lemma_concat_len(record_frames(format, record));
}

proof fn lemma_number_frame_len(
    format: LogFormat,
    kind: FrameKind,
    payload0: u64,
    payload1: u64,
    payload2: u64,
)
    ensures
        number_frame_bytes(format, kind, payload0, payload1, payload2).len() == 56,
{
    crate::bytes::lemma_be_bytes_len(payload2 as nat, 8);
    crate::log_frame::lemma_frame_len(
        format,
        kind,
        payload0,
        payload1,
        be_bytes(payload2 as nat, 8),
    );
}

/// The state in which `count` chunks of a page group have been read.
pub open spec fn receiving(state: ScanModel, pending: PendingModel, page: Seq<u8>, count: nat) -> ScanModel {
    ScanModel {
        pending: Some(PendingModel { bytes: page.take(8 * count as int), ..pending }),
        ..state
    }
}

/// Reading the first data frames of a page collects its first bytes.
proof fn lemma_replay_data(
    format: LogFormat,
    state: ScanModel,
    pending: PendingModel,
    page: Seq<u8>,
    count: nat,
    offset: nat,
)
    requires
        state.wf(),
        state.has_layout,
        format.has_pages(),
        page.len() == state.width,
        count < chunk_total(page.len()),
        pending.position != 0,
        !(pending.owner is Awaiting),
        offset + 56 * count <= u64::MAX,
    ensures
        replay(
            receiving(state, pending, page, 0),
            page_data_frames(format, pending.position, page, count),
            offset,
            format,
        ) == Ok::<ScanModel, FileFormatError>(receiving(state, pending, page, count)),
    decreases count,
{
    if count > 0 {
        let before = (count - 1) as nat;
        let frames = page_data_frames(format, pending.position, page, count);
        lemma_replay_data(format, state, pending, page, before, offset);
        lemma_data_frames_len(format, pending.position, page, before);
        assert(frames.drop_last() =~= page_data_frames(format, pending.position, page, before));
        lemma_read_data(
            format,
            state,
            pending,
            page,
            before,
            (offset + 56 * before) as nat,
        );
    }
}

/// Reading one data frame of a page.
proof fn lemma_read_data(
    format: LogFormat,
    state: ScanModel,
    pending: PendingModel,
    page: Seq<u8>,
    index: nat,
    offset: nat,
)
    requires
        state.wf(),
        state.has_layout,
        format.has_pages(),
        page.len() == state.width,
        index < chunk_total(page.len()),
        pending.position != 0,
        !(pending.owner is Awaiting),
        offset <= u64::MAX,
    ensures
        read_frame(
            receiving(state, pending, page, index),
            page_data_frame(format, pending.position, page, index),
            offset,
            format,
        ) == Ok::<ScanModel, FileFormatError>(
            if index + 1 < chunk_total(page.len()) {
                receiving(state, pending, page, index + 1)
            } else {
                state.with_record(crate::log_scan::completed_record(pending, page))
            },
        ),
{
    let chunk = page_chunk(page, index);
    let here = receiving(state, pending, page, index);
    let group = here.pending->0;
    law_frame_round_trip(
        format,
        FrameKind::PageData,
        pending.position,
        index as u64,
        chunk,
        offset as u64,
    );
    assert(group.bytes.len() == 8 * index);
    assert(group.next_chunk() == index);
    let length = group.next_len(state.width);
    let read = group.bytes + chunk.take(length as int);
    if index + 1 < chunk_total(page.len()) {
        assert(read =~= page.take(8 * (index + 1) as int));
    } else {
        assert(read =~= page);
    }
}

/// What has been read after the first `count` frames of a record at `offset`:
/// the record behind the last of them, and before it nothing but an unfinished
/// group.
pub open spec fn replayed(
    format: LogFormat,
    state: ScanModel,
    record: RecordModel,
    offset: nat,
    count: nat,
) -> bool {
    let frames = record_frames(format, record);
    let result = replay(state, frames.take(count as int), offset, format);
    if count == frames.len() {
        result == Ok::<ScanModel, FileFormatError>(state.with_record(record))
    } else if count == 0 {
        result == Ok::<ScanModel, FileFormatError>(state)
    } else {
        &&& result matches Ok(middle)
        &&& middle.pending matches Some(pending)
        &&& pending.header_offset == offset
        &&& middle == (ScanModel { pending: middle.pending, ..state })
    }
}

pub proof fn lemma_replay_one(state: ScanModel, frames: Seq<Seq<u8>>, offset: nat, format: LogFormat)
    requires
        frames.len() == 1,
    ensures
        replay(state, frames, offset, format) == read_frame(state, frames[0], offset, format),
{
    assert(frames.drop_last() =~= Seq::<Seq<u8>>::empty());
    assert(replay(state, frames.drop_last(), offset, format) == Ok::<ScanModel, FileFormatError>(
        state,
    ));
}

/// Reading the frames of an acceptable record.
pub proof fn lemma_replay_record(
    format: LogFormat,
    state: ScanModel,
    record: RecordModel,
    offset: nat,
    count: nat,
)
    requires
        acceptable(format, state, record),
        count <= record_frames(format, record).len(),
        offset + 56 * record_frames(format, record).len() <= u64::MAX,
    ensures
        replayed(format, state, record, offset, count),
{
    let frames = record_frames(format, record);
    lemma_record_frames(format, record);
    if count == 0 {
        assert(frames.take(0) =~= Seq::<Seq<u8>>::empty());
    } else {
        match record.body {
            RecordBody::Commit { epoch, sequence } => {
                lemma_replay_commit(format, state, record, offset, epoch, sequence);
            },
            RecordBody::Page { page } => {
                lemma_replay_page(format, state, record, offset, count, page);
            },
            RecordBody::OwnedPage { epoch, sequence, page } => {
                lemma_replay_owned_page(format, state, record, offset, count, epoch, sequence, page);
            },
        }
    }
}

proof fn lemma_replay_commit(
    format: LogFormat,
    state: ScanModel,
    record: RecordModel,
    offset: nat,
    epoch: u64,
    sequence: u64,
)
    requires
        acceptable(format, state, record),
        record.body == (RecordBody::Commit { epoch, sequence }),
        offset + 56 <= u64::MAX,
    ensures
        record_frames(format, record).len() == 1,
        replayed(format, state, record, offset, 1),
{
    let frames = record_frames(format, record);
    lemma_record_frames(format, record);
    law_number_frame_round_trip(
        format,
        FrameKind::CommitRecord,
        record.position,
        epoch,
        sequence,
        offset as u64,
    );
    assert(frames.take(1) =~= frames);
    lemma_replay_one(state, frames, offset, format);
    assert(frames[0] == number_frame_bytes(
        format,
        FrameKind::CommitRecord,
        record.position,
        epoch,
        sequence,
    ));
}

/// Reading the header frame of a page group starts the group.
proof fn lemma_read_page_header(
    format: LogFormat,
    state: ScanModel,
    position: u64,
    number: u64,
    version: u64,
    owned: bool,
    offset: nat,
)
    requires
        state.pending is None,
        state.next_position == Some(position),
        state.has_layout,
        position != 0,
        number != 0,
        format.has_pages(),
        owned ==> format.has_transaction_pages(),
        offset + 56 <= u64::MAX,
    ensures
        read_frame(
            state,
            number_frame_bytes(
                format,
                if owned {
                    FrameKind::TransactionPageHeader
                } else {
                    FrameKind::PageHeader
                },
                position,
                number,
                version,
            ),
            offset,
            format,
        ) == Ok::<ScanModel, FileFormatError>(
            ScanModel {
                pending: Some(
                    PendingModel {
                        header_offset: offset as u64,
                        position,
                        number,
                        version,
                        owner: if owned {
                            PendingOwner::Awaiting
                        } else {
                            PendingOwner::Raw
                        },
                        bytes: Seq::empty(),
                    },
                ),
                ..state
            },
        ),
{
    law_number_frame_round_trip(
        format,
        if owned {
            FrameKind::TransactionPageHeader
        } else {
            FrameKind::PageHeader
        },
        position,
        number,
        version,
        offset as u64,
    );
}

proof fn lemma_replay_page(
    format: LogFormat,
    state: ScanModel,
    record: RecordModel,
    offset: nat,
    count: nat,
    page: PageModel,
)
    requires
        acceptable(format, state, record),
        record.body == (RecordBody::Page { page }),
        0 < count <= record_frames(format, record).len(),
        offset + 56 * record_frames(format, record).len() <= u64::MAX,
    ensures
        replayed(format, state, record, offset, count),
{
    let leading = effect_frames(leading_frames(format, record));
    let pending = PendingModel {
        header_offset: offset as u64,
        position: record.position,
        number: page.number,
        version: page.version,
        owner: PendingOwner::Raw,
        bytes: Seq::empty(),
    };
    lemma_record_frames(format, record);
    lemma_read_page_header(
        format,
        state,
        record.position,
        page.number,
        page.version,
        false,
        offset,
    );
    lemma_replay_one(state, leading, offset, format);
    assert(page.bytes.take(0) =~= Seq::<u8>::empty());
    lemma_replay_group(format, state, pending, record, page.bytes, leading, offset, count);
}

proof fn lemma_replay_owned_page(
    format: LogFormat,
    state: ScanModel,
    record: RecordModel,
    offset: nat,
    count: nat,
    epoch: u64,
    sequence: u64,
    page: PageModel,
)
    requires
        acceptable(format, state, record),
        record.body == (RecordBody::OwnedPage { epoch, sequence, page }),
        0 < count <= record_frames(format, record).len(),
        offset + 56 * record_frames(format, record).len() <= u64::MAX,
    ensures
        replayed(format, state, record, offset, count),
{
    let frames = record_frames(format, record);
    let leading = effect_frames(leading_frames(format, record));
    let first = leading.take(1);
    let awaiting = PendingModel {
        header_offset: offset as u64,
        position: record.position,
        number: page.number,
        version: page.version,
        owner: PendingOwner::Awaiting,
        bytes: Seq::empty(),
    };
    let pending = PendingModel { owner: PendingOwner::Owned { epoch, sequence }, ..awaiting };
    let waiting = ScanModel { pending: Some(awaiting), ..state };
    lemma_record_frames(format, record);
    lemma_read_page_header(
        format,
        state,
        record.position,
        page.number,
        page.version,
        true,
        offset,
    );
    lemma_replay_one(state, first, offset, format);
    assert(replay(state, first, offset, format) == Ok::<ScanModel, FileFormatError>(waiting));
    law_number_frame_round_trip(
        format,
        FrameKind::TransactionPageOwner,
        record.position,
        epoch,
        sequence,
        (offset + 56) as u64,
    );
    assert(leading.drop_last() =~= first);
    assert(page.bytes.take(0) =~= Seq::<u8>::empty());
    assert(read_frame(waiting, leading.last(), offset + 56, format) == Ok::<
        ScanModel,
        FileFormatError,
    >(receiving(state, pending, page.bytes, 0)));
    if count == 1 {
        assert(frames.take(1) =~= first);
    } else {
        lemma_replay_group(format, state, pending, record, page.bytes, leading, offset, count);
    }
}

/// The rest of a page group, once its leading frames have been read.
proof fn lemma_replay_group(
    format: LogFormat,
    state: ScanModel,
    pending: PendingModel,
    record: RecordModel,
    page: Seq<u8>,
    leading: Seq<Seq<u8>>,
    offset: nat,
    count: nat,
)
    requires
        acceptable(format, state, record),
        state.has_layout,
        format.has_pages(),
        page.len() == state.width,
        record_data(record) == page,
        leading == effect_frames(leading_frames(format, record)),
        leading.len() <= count <= record_frames(format, record).len(),
        offset + 56 * record_frames(format, record).len() <= u64::MAX,
        pending.position == record.position,
        pending.header_offset == offset,
        !(pending.owner is Awaiting),
        crate::log_scan::completed_record(pending, page) == record,
        replay(state, leading, offset, format) == Ok::<ScanModel, FileFormatError>(
            receiving(state, pending, page, 0),
        ),
    ensures
        replayed(format, state, record, offset, count),
{
    let frames = record_frames(format, record);
    let total = chunk_total(page.len());
    let data = page_data_frames(format, record.position, page, total);
    let read = (count - leading.len()) as nat;
    lemma_record_frames(format, record);
    let some = page_data_frames(format, record.position, page, read);
    lemma_data_frames_len(format, record.position, page, read);
    lemma_data_frames_len(format, record.position, page, total);
    assert(frames.take(count as int) =~= leading + some) by {
        assert forall|i: int| 0 <= i < count implies frames.take(count as int)[i] == (leading
            + some)[i] by {
            if i >= leading.len() {
                let index = (i - leading.len()) as nat;
                lemma_data_frame_at(format, record.position, page, total, index);
                lemma_data_frame_at(format, record.position, page, read, index);
            }
        }
    }
    lemma_replay_append(state, leading, some, offset, format);
    let here = (offset + 56 * leading.len()) as nat;
    if read < total {
        lemma_replay_data(format, state, pending, page, read, here);
    } else {
        let before = (read - 1) as nat;
        lemma_replay_data(format, state, pending, page, before, here);
        lemma_data_frames_len(format, record.position, page, before);
        assert(some.drop_last() =~= page_data_frames(format, record.position, page, before));
        lemma_read_data(format, state, pending, page, before, (here + 56 * before) as nat);
    }
}

/// The log without what only the running process knows of it.
pub open spec fn settled(log: LogModel) -> LogModel {
    LogModel { armed_fault: None, poisoned: false, ..log }
}

/// Whether a caller's expectation is about pages of `width` bytes, which a machine
/// can hold.
pub open spec fn expects_width(expectation: HeaderExpectation, width: nat) -> bool {
    &&& width <= usize::MAX - 7
    &&& expectation.spec_page_layout() matches Some(layout) ==> layout.is_for(width)
}

/// Whether a file with these bytes is read, with nothing to be cut off, as `log`.
pub open spec fn holds(bytes: Seq<u8>, expectation: HeaderExpectation, log: LogModel) -> bool {
    &&& expects_width(expectation, log.width)
    &&& opened(bytes, expectation, log.width) == Ok::<OpenedModel, FileFormatError>(
        OpenedModel { log: settled(log), repaired_len: None },
    )
}

/// The highest epoch that a record of the log may name.
pub open spec fn highest_epoch(log: LogModel) -> u64 {
    match log.epoch_high_water() {
        Some(epoch) => epoch,
        None => 0,
    }
}

/// Whether `record` may be appended to `log`: it has the next position, its page
/// has the log's width, its transaction's epoch has been allocated, and a
/// transaction is committed only once.
pub open spec fn appendable(log: LogModel, record: RecordModel) -> bool {
    &&& log.next_position == Some(record.position)
    &&& record.wf(log.width, highest_epoch(log))
    &&& match record.body {
        RecordBody::Commit { epoch, sequence } => !contains_commit(log.records, epoch, sequence),
        RecordBody::Page { .. } => log.format.has_pages(),
        RecordBody::OwnedPage { .. } => log.format.has_transaction_pages(),
    }
}

/// What is known of a file that holds `log`.
pub proof fn lemma_holds(bytes: Seq<u8>, expectation: HeaderExpectation, log: LogModel) -> (result: (
    HeaderModel,
    ScanModel,
))
    requires
        holds(bytes, expectation, log),
    ensures
        ({
            let (header, end) = result;
            let start = initial_scan(
                header.coordinates,
                expectation.spec_page_layout() is Some,
                log.width,
            );
            &&& read_header(bytes, expectation) == Ok::<HeaderModel, FileFormatError>(header)
            &&& scan(start, bytes, header.length, header.format) == Ok::<
                ScanModel,
                FileFormatError,
            >(end)
            &&& settled(log) == opened_log(header, end)
            &&& header.length <= bytes.len()
            &&& (bytes.len() - header.length) % 56 == 0
            &&& header.coordinates matches Some(coordinates) ==> coordinates.wf()
            &&& coherent(header.coordinates, end)
            &&& end.pending is None
            &&& end.wf()
            &&& end.width == log.width
            &&& end.has_layout == log.format.has_pages()
            &&& end.highest_epoch == highest_epoch(log)
            &&& coverage_error(
                header.coordinates,
                end,
                frames_end(header.length, bytes.len()) as u64,
            ) is None
        }),
{
    let header = read_header(bytes, expectation)->Ok_0;
    let has_layout = expectation.spec_page_layout() is Some;
    let start = initial_scan(header.coordinates, has_layout, log.width);
    let end = scan(start, bytes, header.length, header.format)->Ok_0;
    lemma_header_extend(bytes, Seq::empty(), expectation, header);
    lemma_header_facts(bytes, expectation, header);
    lemma_initial_coherent(header.coordinates, has_layout, log.width);
    lemma_scan_coherent(header.coordinates, start, bytes, header.length, header.format);
    (header, end)
}

/// Reading a file that holds `log` and to which `frames` have been appended, with
/// `tail` behind them.
proof fn lemma_opened_extended(
    bytes: Seq<u8>,
    expectation: HeaderExpectation,
    log: LogModel,
    frames: Seq<Seq<u8>>,
    tail: Seq<u8>,
    header: HeaderModel,
    end: ScanModel,
    last: ScanModel,
)
    requires
        holds(bytes, expectation, log),
        read_header(bytes, expectation) == Ok::<HeaderModel, FileFormatError>(header),
        scan(
            initial_scan(header.coordinates, expectation.spec_page_layout() is Some, log.width),
            bytes,
            header.length,
            header.format,
        ) == Ok::<ScanModel, FileFormatError>(end),
        whole_frames(frames),
        tail.len() < 56,
        replay(end, frames, bytes.len(), header.format) == Ok::<ScanModel, FileFormatError>(last),
        coverage_error(header.coordinates, last, 0) is None,
    ensures
        opened(bytes + concat(frames) + tail, expectation, log.width) == Ok::<
            OpenedModel,
            FileFormatError,
        >(
            OpenedModel {
                log: opened_log(header, last),
                repaired_len: repaired_len(
                    header.length,
                    (bytes + concat(frames) + tail).len(),
                    last,
                ),
            },
        ),
{
    let more = concat(frames) + tail;
    let whole = bytes + concat(frames) + tail;
    let has_layout = expectation.spec_page_layout() is Some;
    let start = initial_scan(header.coordinates, has_layout, log.width);
    let (known, _) = lemma_holds(bytes, expectation, log);
    assert(whole =~= bytes + more);
    lemma_header_extend(bytes, more, expectation, header);
    lemma_scan_extend(start, bytes, more, header.length, header.format);
    lemma_concat_len(frames);
    assert(whole.subrange(
        bytes.len() as int,
        (bytes.len() + 56 * frames.len()) as int,
    ) =~= concat(frames));
    lemma_scan_replay(end, whole, bytes.len(), frames, header.format);
    let total = frames_end(header.length, whole.len()) as u64;
    assert(coverage_error(header.coordinates, last, total) is None);
}

/// Appending a record and opening the file again gives the log with the record in
/// it.
pub proof fn law_append_then_open(
    bytes: Seq<u8>,
    expectation: HeaderExpectation,
    log: LogModel,
    record: RecordModel,
)
    requires
        holds(bytes, expectation, log),
        appendable(log, record),
        bytes.len() + record_bytes(log.format, record).len() <= u64::MAX,
    ensures
        holds(
            bytes + record_bytes(log.format, record),
            expectation,
            after_append(log, record),
        ),
{
    let (header, end) = lemma_holds(bytes, expectation, log);
    let frames = record_frames(log.format, record);
    lemma_record_frames(log.format, record);
    lemma_replay_record(log.format, end, record, bytes.len(), frames.len());
    assert(frames.take(frames.len() as int) =~= frames);
    let last = end.with_record(record);
    lemma_opened_extended(
        bytes,
        expectation,
        log,
        frames,
        Seq::empty(),
        header,
        end,
        last,
    );
    let whole = bytes + record_bytes(log.format, record);
    assert(bytes + concat(frames) + Seq::<u8>::empty() =~= whole);
    lemma_whole_frames_length(header.length, bytes.len(), frames.len());
    assert(settled(after_append(log, record)) =~= opened_log(header, last));
}

pub proof fn lemma_whole_frames_length(header_length: nat, total: nat, count: nat)
    requires
        header_length <= total,
        (total - header_length) % 56 == 0,
    ensures
        (total + 56 * count - header_length) % 56 == 0,
{
}

/// A record of which only a part has reached the file is cut off when the file is
/// opened: the log is the one before the append, and the file has to be cut to
/// where the append began.
pub proof fn law_partial_append_is_discarded(
    bytes: Seq<u8>,
    expectation: HeaderExpectation,
    log: LogModel,
    record: RecordModel,
    count: nat,
)
    requires
        holds(bytes, expectation, log),
        appendable(log, record),
        bytes.len() + record_bytes(log.format, record).len() <= u64::MAX,
        0 < count < record_bytes(log.format, record).len(),
    ensures
        opened(
            bytes + record_bytes(log.format, record).take(count as int),
            expectation,
            log.width,
        ) == Ok::<OpenedModel, FileFormatError>(
            OpenedModel { log: settled(log), repaired_len: Some(bytes.len() as u64) },
        ),
{
    let (header, end) = lemma_holds(bytes, expectation, log);
    let frames = record_frames(log.format, record);
    lemma_record_frames(log.format, record);
    let whole_count = count / 56;
    let some = frames.take(whole_count as int);
    let tail = concat(frames).subrange(56 * whole_count as int, count as int);
    lemma_partial_image(frames, count);
    lemma_replay_record(log.format, end, record, bytes.len(), whole_count);
    let last = replay(end, some, bytes.len(), log.format)->Ok_0;
    lemma_opened_extended(bytes, expectation, log, some, tail, header, end, last);
    assert(bytes + concat(some) + tail =~= bytes + (concat(some) + tail));
    lemma_tail_length(header.length, bytes.len(), count);
    assert(settled(log) =~= opened_log(header, last));
}

/// Fewer bytes than a frame behind the frames of a file do not count, whatever they
/// are: the log is the one without them, and they have to be cut off.
pub proof fn law_incomplete_frame_is_cut_off(
    bytes: Seq<u8>,
    expectation: HeaderExpectation,
    log: LogModel,
    tail: Seq<u8>,
)
    requires
        holds(bytes, expectation, log),
        0 < tail.len() < 56,
        bytes.len() + tail.len() <= u64::MAX,
    ensures
        opened(bytes + tail, expectation, log.width) == Ok::<OpenedModel, FileFormatError>(
            OpenedModel { log: settled(log), repaired_len: Some(bytes.len() as u64) },
        ),
{
    let (header, end) = lemma_holds(bytes, expectation, log);
    let none = Seq::<Seq<u8>>::empty();
    lemma_opened_extended(bytes, expectation, log, none, tail, header, end, end);
    assert(bytes + concat(none) + tail =~= bytes + tail);
    lemma_tail_length(header.length, bytes.len(), tail.len());
}

/// A part of some frames is whole frames and a rest that is shorter than a frame.
pub proof fn lemma_partial_image(frames: Seq<Seq<u8>>, count: nat)
    requires
        whole_frames(frames),
        count < concat(frames).len(),
    ensures
        count / 56 < frames.len(),
        whole_frames(frames.take((count / 56) as int)),
        concat(frames.take((count / 56) as int)) + concat(frames).subrange(
            56 * (count / 56) as int,
            count as int,
        ) == concat(frames).take(count as int),
        concat(frames).subrange(56 * (count / 56) as int, count as int).len() < 56,
{
    let some = frames.take((count / 56) as int);
    lemma_concat_len(frames);
    lemma_concat_take(frames, count / 56);
    assert forall|i: int| 0 <= i < some.len() implies (#[trigger] some[i]).len() == 56 by {
        assert(some[i] == frames[i]);
    }
    assert(concat(some) + concat(frames).subrange(56 * (count / 56) as int, count as int)
        =~= concat(frames).take(count as int));
}

pub proof fn lemma_tail_length(header_length: nat, total: nat, count: nat)
    requires
        header_length <= total,
        (total - header_length) % 56 == 0,
    ensures
        (total + count - header_length) % 56 == count % 56,
        frames_end(header_length, total + count) == total + count / 56 * 56,
{
}

proof fn lemma_concat_take(frames: Seq<Seq<u8>>, count: nat)
    requires
        whole_frames(frames),
        count <= frames.len(),
    ensures
        concat(frames.take(count as int)) == concat(frames).take(56 * count as int),
        concat(frames).len() == 56 * frames.len(),
    decreases frames.len(),
{
    lemma_concat_len(frames);
    if count == frames.len() {
        assert(frames.take(count as int) =~= frames);
        assert(concat(frames).take(56 * count as int) =~= concat(frames));
    } else {
        let shorter = frames.drop_last();
        assert forall|i: int| 0 <= i < shorter.len() implies (#[trigger] shorter[i]).len() == 56 by {
            assert(shorter[i] == frames[i]);
        }
        lemma_concat_take(shorter, count);
        assert(frames.take(count as int) =~= shorter.take(count as int));
        assert(concat(frames).take(56 * count as int) =~= concat(shorter).take(
            56 * count as int,
        ));
    }
}

/// The index of a record is found by its position.
pub proof fn lemma_index_of_position(records: Seq<RecordModel>, index: nat, from: nat, first: int)
    requires
        from <= index < records.len(),
        forall|i: int| 0 <= i < records.len() ==> (#[trigger] records[i]).position == first + i,
    ensures
        position_index(records, records[index as int].position, from) == Some(index),
    decreases index - from,
{
    if from < index {
        lemma_index_of_position(records, index, from + 1, first);
    }
}

/// Writing a durability marker for the first `durable_len` records and opening the
/// file again gives the log with these records durable.
pub proof fn law_flush_then_open(
    bytes: Seq<u8>,
    expectation: HeaderExpectation,
    log: LogModel,
    durable_len: nat,
)
    requires
        holds(bytes, expectation, log),
        log.durable_len < durable_len <= log.records.len(),
        bytes.len() + 56 <= u64::MAX,
    ensures
        holds(
            bytes + written(
                flush_effects(log.format, log.records[durable_len - 1].position),
            ),
            expectation,
            after_flush(log, durable_len),
        ),
{
    let (header, end) = lemma_holds(bytes, expectation, log);
    let position = log.records[durable_len - 1].position;
    let frame = number_frame_bytes(log.format, FrameKind::DurableThrough, position, 0, 0);
    let frames = seq![frame];
    let first = first_position(header.coordinates)->0 as int;
    law_number_frame_round_trip(
        log.format,
        FrameKind::DurableThrough,
        position,
        0,
        0,
        bytes.len() as u64,
    );
    assert(end.records[durable_len - 1].position == first + durable_len - 1);
    lemma_index_of_position(end.records, (durable_len - 1) as nat, 0, first);
    let last = ScanModel { durable_len, last_durable: Some(position), ..end };
    lemma_marker_accepted(header.coordinates, end, durable_len, bytes.len() as u64, FrameModel {
        kind: FrameKind::DurableThrough,
        payload0: position,
        payload1: 0,
        payload2: 0,
        payload2_bytes: be_bytes(0, 8),
    });
    lemma_replay_one(end, frames, bytes.len(), log.format);
    lemma_opened_extended(
        bytes,
        expectation,
        log,
        frames,
        Seq::empty(),
        header,
        end,
        last,
    );
    lemma_concat_one(frame);
    lemma_flush_written(log.format, position);
    let whole = bytes + written(flush_effects(log.format, position));
    assert(bytes + concat(frames) + Seq::<u8>::empty() =~= whole);
    lemma_whole_frames_length(header.length, bytes.len(), 1);
    assert(settled(after_flush(log, durable_len)) =~= opened_log(header, last));
}

proof fn lemma_concat_one(frame: Seq<u8>)
    ensures
        concat(seq![frame]) == frame,
{
    let frames = seq![frame];
    assert(frames.drop_last() =~= Seq::<Seq<u8>>::empty());
    assert(concat(frames.drop_last()) =~= Seq::<u8>::empty());
    assert(concat(frames) =~= frame);
}

/// The only bytes of a flush are those of its marker.
pub proof fn lemma_flush_written(format: LogFormat, position: u64)
    ensures
        written(flush_effects(format, position)) == number_frame_bytes(
            format,
            FrameKind::DurableThrough,
            position,
            0,
            0,
        ),
{
    let effects = flush_effects(format, position);
    let frame = number_frame_bytes(format, FrameKind::DurableThrough, position, 0, 0);
    reveal_with_fuel(written, 4);
    assert(effects.drop_last().drop_last().drop_last() =~= Seq::<EffectModel>::empty());
    assert(Seq::<u8>::empty() + frame =~= frame);
}

/// The only bytes of an epoch allocation are those of its frame.
pub proof fn lemma_epoch_written(format: LogFormat, epoch: u64)
    ensures
        written(epoch_effects(format, epoch)) == number_frame_bytes(
            format,
            FrameKind::EpochAllocation,
            epoch,
            0,
            0,
        ),
{
    let effects = epoch_effects(format, epoch);
    let frame = number_frame_bytes(format, FrameKind::EpochAllocation, epoch, 0, 0);
    reveal_with_fuel(written, 3);
    assert(effects.drop_last().drop_last() =~= Seq::<EffectModel>::empty());
    assert(Seq::<u8>::empty() + frame =~= frame);
}

proof fn lemma_marker_accepted(
    coordinates: Option<ReclaimedCoordinates>,
    state: ScanModel,
    durable_len: nat,
    offset: u64,
    frame: FrameModel,
)
    requires
        coherent(coordinates, state),
        coordinates matches Some(coordinates) ==> coordinates.retained_first != Some(0u64),
        state.pending is None,
        state.durable_len < durable_len <= state.records.len(),
        frame.kind == FrameKind::DurableThrough,
        frame.payload0 == state.records[durable_len - 1].position,
        frame.payload1 == 0,
        frame.payload2 == 0,
        position_index(state.records, frame.payload0, 0) == Some((durable_len - 1) as nat),
    ensures
        crate::log_scan::step(state, frame, offset) == Ok::<ScanModel, FileFormatError>(
            ScanModel { durable_len, last_durable: Some(frame.payload0), ..state },
        ),
{
    let first = first_position(coordinates)->0;
    assert(state.records[durable_len - 1].position == first + durable_len - 1);
    assert(state.records.last().position == first + state.records.len() - 1);
    if state.durable_len > 0 {
        assert(state.records[state.durable_len - 1].position == first + state.durable_len - 1);
    }
}

/// Allocating an epoch and opening the file again gives the log with the epoch
/// allocated.
pub proof fn law_epoch_then_open(
    bytes: Seq<u8>,
    expectation: HeaderExpectation,
    log: LogModel,
    epoch: u64,
)
    requires
        holds(bytes, expectation, log),
        log.next_epoch == Some(epoch),
        bytes.len() + 56 <= u64::MAX,
    ensures
        holds(
            bytes + written(epoch_effects(log.format, epoch)),
            expectation,
            LogModel { next_epoch: successor(epoch), ..log },
        ),
{
    let (header, end) = lemma_holds(bytes, expectation, log);
    let frame = number_frame_bytes(log.format, FrameKind::EpochAllocation, epoch, 0, 0);
    let frames = seq![frame];
    law_number_frame_round_trip(
        log.format,
        FrameKind::EpochAllocation,
        epoch,
        0,
        0,
        bytes.len() as u64,
    );
    let last = ScanModel { highest_epoch: epoch, next_epoch: successor(epoch), ..end };
    lemma_replay_one(end, frames, bytes.len(), log.format);
    lemma_opened_extended(
        bytes,
        expectation,
        log,
        frames,
        Seq::empty(),
        header,
        end,
        last,
    );
    lemma_concat_one(frame);
    lemma_epoch_written(log.format, epoch);
    let whole = bytes + written(epoch_effects(log.format, epoch));
    assert(bytes + concat(frames) + Seq::<u8>::empty() =~= whole);
    lemma_whole_frames_length(header.length, bytes.len(), 1);
    assert(settled(LogModel { next_epoch: successor(epoch), ..log }) =~= opened_log(header, last));
}

/// The header of a new file of version 1, 2 or 3 is read as the empty log.
pub proof fn law_create_then_open(
    format: LogFormat,
    persistent_id: u128,
    width: nat,
    expectation: HeaderExpectation,
)
    requires
        persistent_id != 0,
        format.spec_version() <= 3,
        expectation.spec_accepts(format),
        expects_width(expectation, width),
    ensures
        holds(
            header_bytes(format, persistent_id, width as u64),
            expectation,
            LogModel::created(format, persistent_id, None, width),
        ),
{
    let bytes = header_bytes(format, persistent_id, width as u64);
    reveal(read_header);
    law_header_round_trip(format, persistent_id, width as u64, expectation);
    assert(bytes.take(64) =~= bytes);
}

/// The header of a new version 5 file is read as the empty log of its database.
pub proof fn law_create_database_then_open(
    persistent_id: u128,
    width: nat,
    identity: ChildIdentityModel,
    expectation: HeaderExpectation,
)
    requires
        persistent_id != 0,
        identity.wf(),
        expectation.spec_accepts(LogFormat::V5),
        expects_width(expectation, width),
    ensures
        holds(
            header_v5_bytes(persistent_id, width as u64, None, identity),
            expectation,
            LogModel::created(LogFormat::V5, persistent_id, Some(identity), width),
        ),
{
    let bytes = header_v5_bytes(persistent_id, width as u64, None, identity);
    reveal(read_header);
    law_header_v5_round_trip(persistent_id, width as u64, None, identity);
    assert(bytes.take(192) =~= bytes);
}

/// Whether `state` is what the first `offset` bytes of a file are read as, and
/// whether an unfinished group in it is all that the bytes from the group's header
/// on have added.
pub open spec fn reached(
    start: ScanModel,
    bytes: Seq<u8>,
    begin: nat,
    format: LogFormat,
    offset: nat,
    state: ScanModel,
) -> bool {
    &&& begin <= offset <= bytes.len()
    &&& (offset - begin) % 56 == 0
    &&& scan(start, bytes.take(offset as int), begin, format) == Ok::<ScanModel, FileFormatError>(
        state,
    )
    &&& state.pending matches Some(pending) ==> {
        &&& begin <= pending.header_offset < offset
        &&& (pending.header_offset - begin) % 56 == 0
        &&& scan(start, bytes.take(pending.header_offset as int), begin, format) == Ok::<
            ScanModel,
            FileFormatError,
        >(ScanModel { pending: None, ..state })
    }
}

proof fn lemma_reach_frame(
    start: ScanModel,
    bytes: Seq<u8>,
    begin: nat,
    format: LogFormat,
    offset: nat,
    state: ScanModel,
    frame: FrameModel,
)
    requires
        reached(start, bytes, begin, format, offset, state),
        offset + 56 <= bytes.len() <= u64::MAX,
        decoded_frame(bytes.subrange(offset as int, offset as int + 56), offset as u64, format)
            == Ok::<FrameModel, FileFormatError>(frame),
        crate::log_scan::step(state, frame, offset as u64) is Ok,
    ensures
        reached(
            start,
            bytes,
            begin,
            format,
            offset + 56,
            crate::log_scan::step(state, frame, offset as u64)->Ok_0,
        ),
{
    let next = crate::log_scan::step(state, frame, offset as u64)->Ok_0;
    let here = bytes.take(offset as int);
    let more = bytes.subrange(offset as int, offset as int + 56);
    let there = bytes.take(offset as int + 56);
    assert(there =~= here + more);
    lemma_scan_extend(start, here, more, begin, format);
    assert(there.subrange(offset as int, offset as int + 56) =~= more);
    assert(scan(next, there, offset + 56, format) == Ok::<ScanModel, FileFormatError>(next));
    match next.pending {
        None => {},
        Some(pending) => {
            match state.pending {
                None => {
                    assert(ScanModel { pending: None, ..next } =~= state);
                },
                Some(earlier) => {
                    assert(ScanModel { pending: None, ..next } =~= ScanModel {
                        pending: None,
                        ..state
                    });
                },
            }
        },
    }
}

proof fn lemma_reach_end(
    start: ScanModel,
    bytes: Seq<u8>,
    begin: nat,
    format: LogFormat,
    offset: nat,
    state: ScanModel,
)
    requires
        reached(start, bytes, begin, format, offset, state),
        bytes.len() <= u64::MAX,
        scan(state, bytes, offset, format) is Ok,
    ensures
        reached(
            start,
            bytes,
            begin,
            format,
            frames_end(begin, bytes.len()),
            scan(state, bytes, offset, format)->Ok_0,
        ),
    decreases bytes.len() - offset,
{
    if offset + 56 <= bytes.len() {
        let frame = decoded_frame(
            bytes.subrange(offset as int, offset as int + 56),
            offset as u64,
            format,
        )->Ok_0;
        let next = crate::log_scan::step(state, frame, offset as u64)->Ok_0;
        lemma_reach_frame(start, bytes, begin, format, offset, state, frame);
        lemma_reach_end(start, bytes, begin, format, offset + 56, next);
    } else {
        assert(offset == frames_end(begin, bytes.len()));
    }
}

/// A file cut to the length that opening it asks for holds the log that opening it
/// gave: what is cut off is nothing but an unfinished frame or an unfinished group.
pub proof fn law_repaired_file_holds_the_log(
    bytes: Seq<u8>,
    expectation: HeaderExpectation,
    width: nat,
    model: OpenedModel,
)
    requires
        expects_width(expectation, width),
        bytes.len() <= u64::MAX,
        opened(bytes, expectation, width) == Ok::<OpenedModel, FileFormatError>(model),
        model.repaired_len is Some,
    ensures
        64 <= model.repaired_len->0 <= bytes.len(),
        holds(bytes.take(model.repaired_len->0 as int), expectation, model.log),
{
    let header = read_header(bytes, expectation)->Ok_0;
    let has_layout = expectation.spec_page_layout() is Some;
    let start = initial_scan(header.coordinates, has_layout, width);
    let end = scan(start, bytes, header.length, header.format)->Ok_0;
    lemma_header_extend(bytes, Seq::empty(), expectation, header);
    lemma_initial_coherent(header.coordinates, has_layout, width);
    lemma_scan_coherent(header.coordinates, start, bytes, header.length, header.format);
    let header_only = bytes.take(header.length as int);
    assert(scan(start, header_only, header.length, header.format) == Ok::<
        ScanModel,
        FileFormatError,
    >(start));
    lemma_reach_end(start, bytes, header.length, header.format, header.length, start);
    let cut = model.repaired_len->0 as nat;
    let kept = bytes.take(cut as int);
    let last = ScanModel { pending: None, ..end };
    assert(scan(start, kept, header.length, header.format) == Ok::<ScanModel, FileFormatError>(
        last,
    )) by {
        if end.pending is None {
            assert(last =~= end);
        }
    }
    lemma_header_shrink(bytes, cut, expectation, header);
    assert(opened_log(header, last) =~= model.log);
    assert(settled(model.log) =~= model.log);
    let total = frames_end(header.length, cut) as u64;
    assert(coverage_error(header.coordinates, last, total) is None);
}

/// A file cut behind its header keeps its header.
proof fn lemma_header_shrink(
    bytes: Seq<u8>,
    cut: nat,
    expectation: HeaderExpectation,
    header: HeaderModel,
)
    requires
        read_header(bytes, expectation) == Ok::<HeaderModel, FileFormatError>(header),
        header.length <= cut <= bytes.len(),
    ensures
        read_header(bytes.take(cut as int), expectation) == Ok::<HeaderModel, FileFormatError>(
            header,
        ),
{
    reveal(read_header);
    let kept = bytes.take(cut as int);
    assert(kept.subrange(8, 10) =~= bytes.subrange(8, 10));
    assert(kept.subrange(16, 32) =~= bytes.subrange(16, 32));
    assert(kept.take(64) =~= bytes.take(64));
    if cut >= 128 {
        assert(kept.take(128) =~= bytes.take(128));
    }
    if cut >= 192 {
        assert(kept.take(192) =~= bytes.take(192));
        assert(kept.subrange(128, 176) =~= bytes.subrange(128, 176));
    }
}

} // verus!
