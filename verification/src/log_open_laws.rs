//! Laws of reading a commit log frame by frame.
use vstd::prelude::*;

use crate::bytes::be_value;
use crate::format::chunk_total;
use crate::log_error::{FileFormatError, FileFormatErrorReason};
use crate::log_frame::{FrameKind, FrameModel};
use crate::log_record::RecordBody;
use crate::log_replay::{commits_distinct, concat, lemma_step_sound, sound_from};
use crate::log_scan::{completed_record, step, PendingModel, ScanModel};

verus! {

/// The state after each of `frames`, with the offset at which it stands, has been
/// applied in turn, or the first refusal.
pub open spec fn applied(state: ScanModel, frames: Seq<(FrameModel, u64)>) -> Result<
    ScanModel,
    FileFormatError,
>
    decreases frames.len(),
{
    if frames.len() == 0 {
        Ok(state)
    } else {
        match applied(state, frames.drop_last()) {
            Err(error) => Err(error),
            Ok(middle) => step(middle, frames.last().0, frames.last().1),
        }
    }
}

/// Whether payload 2 of every frame has its eight bytes.
pub open spec fn whole_payloads(frames: Seq<(FrameModel, u64)>) -> bool {
    forall|i: int| 0 <= i < frames.len() ==> (#[trigger] frames[i]).0.payload2_bytes.len() == 8
}

proof fn lemma_applied_sound(state: ScanModel, frames: Seq<(FrameModel, u64)>)
    requires
        sound_from(state, state),
        state.has_layout ==> state.width > 0,
        whole_payloads(frames),
        applied(state, frames) is Ok,
    ensures
        sound_from(state, applied(state, frames)->Ok_0),
        applied(state, frames)->Ok_0.has_layout == state.has_layout,
        applied(state, frames)->Ok_0.width == state.width,
    decreases frames.len(),
{
    if frames.len() > 0 {
        let shorter = frames.drop_last();
        assert forall|i: int| 0 <= i < shorter.len() implies (
        #[trigger] shorter[i]).0.payload2_bytes.len() == 8 by {
            assert(shorter[i] == frames[i]);
        }
        lemma_applied_sound(state, shorter);
        let middle = applied(state, shorter)->Ok_0;
        assert(frames[frames.len() - 1].0.payload2_bytes.len() == 8);
        lemma_step_sound(state, middle, frames.last().0, frames.last().1);
    }
}

/// However many frames have been accepted: the positions run without a gap from the
/// first one on, the next position follows them, the durable records come first, no
/// transaction is committed twice, and every transaction that a record names is of
/// an allocated epoch.
pub proof fn law_accepted_frames_keep_the_state_sound(
    has_layout: bool,
    width: nat,
    highest_epoch: u64,
    first: u64,
    frames: Seq<(FrameModel, u64)>,
    end: ScanModel,
)
    requires
        first >= 1,
        has_layout ==> width > 0,
        whole_payloads(frames),
        applied(
            ScanModel::initial(
                has_layout,
                width,
                highest_epoch,
                Some(first),
                (first - 1) as u64,
                None,
            ),
            frames,
        ) == Ok::<_, FileFormatError>(end),
    ensures
        forall|i: int| 0 <= i < end.records.len() ==> (#[trigger] end.records[i]).position == first + i,
        end.next_position == if first + end.records.len() <= u64::MAX {
            Some((first + end.records.len()) as u64)
        } else {
            None
        },
        end.durable_len <= end.records.len(),
        end.last_durable == if end.durable_len == 0 {
            None
        } else {
            Some(end.records[end.durable_len - 1].position)
        },
        commits_distinct(end.records),
        end.highest_epoch >= highest_epoch,
        forall|i: int|
            0 <= i < end.records.len() ==> match (#[trigger] end.records[i]).body {
                RecordBody::Page { .. } => true,
                RecordBody::Commit { epoch, .. } | RecordBody::OwnedPage { epoch, .. } => 1 <= epoch
                    <= end.highest_epoch,
            },
{
    let start = ScanModel::initial(
        has_layout,
        width,
        highest_epoch,
        Some(first),
        (first - 1) as u64,
        None,
    );
    lemma_applied_sound(start, frames);
    assert forall|i: int| 0 <= i < end.records.len() implies match (
    #[trigger] end.records[i]).body {
        RecordBody::Page { .. } => true,
        RecordBody::Commit { epoch, .. } | RecordBody::OwnedPage { epoch, .. } => 1 <= epoch
            <= end.highest_epoch,
    } by {
        assert(end.records[i].wf(width, end.highest_epoch));
    }
    if end.records.len() > 0 {
        assert(end.records[end.records.len() - 1].position == first + end.records.len() - 1);
    }
}

/// The frame that carries one chunk of a page.
pub open spec fn chunk_frame(position: u64, index: nat, chunk: Seq<u8>) -> FrameModel {
    FrameModel {
        kind: FrameKind::PageData,
        payload0: position,
        payload1: index as u64,
        payload2: be_value(chunk) as u64,
        payload2_bytes: chunk,
    }
}

/// Whether `frames` carry the chunks of a page of `width` bytes in order.
pub open spec fn carry_chunks(
    frames: Seq<(FrameModel, u64)>,
    position: u64,
    chunks: Seq<Seq<u8>>,
    width: nat,
) -> bool {
    &&& chunks.len() == chunk_total(width)
    &&& frames.len() == chunks.len()
    &&& forall|i: int| 0 <= i < chunks.len() ==> (#[trigger] chunks[i]).len() == 8
    &&& forall|i: int|
        0 <= i < frames.len() ==> (#[trigger] frames[i]).0 == chunk_frame(
            position,
            i as nat,
            chunks[i],
        )
}

/// Whether the page group of `state` is to receive its first chunk.
pub open spec fn awaits_chunks(state: ScanModel, pending: PendingModel) -> bool {
    &&& state.wf()
    &&& state.pending == Some(pending)
    &&& pending.position != 0
    &&& pending.bytes.len() == 0
    &&& !(pending.owner is Awaiting)
}

/// The state in which the first `count` chunks of a page have been read.
pub open spec fn received(
    state: ScanModel,
    pending: PendingModel,
    chunks: Seq<Seq<u8>>,
    count: nat,
) -> ScanModel {
    ScanModel {
        pending: Some(PendingModel { bytes: concat(chunks.take(count as int)), ..pending }),
        ..state
    }
}

proof fn lemma_chunks_len(chunks: Seq<Seq<u8>>, count: nat)
    requires
        count <= chunks.len(),
        forall|i: int| 0 <= i < chunks.len() ==> (#[trigger] chunks[i]).len() == 8,
    ensures
        concat(chunks.take(count as int)).len() == 8 * count,
        count > 0 ==> concat(chunks.take(count as int)) == concat(chunks.take(count - 1))
            + chunks[count - 1],
    decreases count,
{
    if count > 0 {
        lemma_chunks_len(chunks, (count - 1) as nat);
        assert(chunks.take(count as int).drop_last() =~= chunks.take(count - 1));
        assert(chunks.take(count as int).last() == chunks[count - 1]);
    }
}

proof fn lemma_chunks_received(
    state: ScanModel,
    pending: PendingModel,
    frames: Seq<(FrameModel, u64)>,
    chunks: Seq<Seq<u8>>,
    count: nat,
)
    requires
        awaits_chunks(state, pending),
        carry_chunks(frames, pending.position, chunks, state.width),
        count < chunks.len(),
    ensures
        applied(state, frames.take(count as int)) == Ok::<_, FileFormatError>(
            received(state, pending, chunks, count),
        ),
    decreases count,
{
    lemma_chunks_len(chunks, count);
    if count == 0 {
        assert(concat(chunks.take(0)) =~= pending.bytes);
        assert(received(state, pending, chunks, 0) =~= state);
    } else {
        let before = (count - 1) as nat;
        let some = frames.take(count as int);
        lemma_chunks_received(state, pending, frames, chunks, before);
        lemma_chunks_len(chunks, before);
        assert(some.drop_last() =~= frames.take(before as int));
        assert(some.last() == frames[before as int]);
        assert(chunks[before as int].take(8) =~= chunks[before as int]);
        assert(8 * count < state.width);
        assert(step(
            received(state, pending, chunks, before),
            some.last().0,
            some.last().1,
        )->Ok_0 =~= received(state, pending, chunks, count));
    }
}

/// The data frames of a page, applied in order to its group, are all accepted. None
/// but the last adds a record, and the last adds exactly one: the page, with its owner
/// where the group has one, at the position of the group.
pub proof fn law_data_frames_make_one_record(
    state: ScanModel,
    pending: PendingModel,
    frames: Seq<(FrameModel, u64)>,
    chunks: Seq<Seq<u8>>,
)
    requires
        awaits_chunks(state, pending),
        carry_chunks(frames, pending.position, chunks, state.width),
        forall|i: int|
            state.width - 8 * (chunks.len() - 1) <= i < 8 ==> #[trigger] chunks.last()[i] == 0,
    ensures
        forall|count: int|
            0 <= count < frames.len() ==> #[trigger] applied(state, frames.take(count)) == Ok::<
                _,
                FileFormatError,
            >(received(state, pending, chunks, count as nat)),
        concat(chunks).len() >= state.width,
        applied(state, frames) == Ok::<_, FileFormatError>(
            state.with_record(
                completed_record(pending, concat(chunks).take(state.width as int)),
            ),
        ),
{
    let total = chunks.len();
    let before = (total - 1) as nat;
    assert forall|count: int| 0 <= count < frames.len() implies #[trigger] applied(
        state,
        frames.take(count),
    ) == Ok::<_, FileFormatError>(received(state, pending, chunks, count as nat)) by {
        lemma_chunks_received(state, pending, frames, chunks, count as nat);
    }
    lemma_last_chunk(state, pending, frames, chunks);
    let middle = received(state, pending, chunks, before);
    let length = (state.width - 8 * before) as int;
    let page = concat(chunks).take(state.width as int);
    assert(chunks.take(total as int) =~= chunks);
    assert(concat(chunks.take(before as int)) + chunks.last().take(length) =~= page);
    assert(step(middle, frames.last().0, frames.last().1)->Ok_0 =~= state.with_record(
        completed_record(pending, page),
    ));
}

/// What stands before the last chunk of a page.
proof fn lemma_last_chunk(
    state: ScanModel,
    pending: PendingModel,
    frames: Seq<(FrameModel, u64)>,
    chunks: Seq<Seq<u8>>,
)
    requires
        awaits_chunks(state, pending),
        carry_chunks(frames, pending.position, chunks, state.width),
    ensures
        ({
            let before = (chunks.len() - 1) as nat;
            &&& chunks.len() > 0
            &&& concat(chunks).len() == 8 * chunks.len()
            &&& concat(chunks.take(before as int)).len() == 8 * before
            &&& concat(chunks) == concat(chunks.take(before as int)) + chunks.last()
            &&& chunks.last().len() == 8
            &&& 8 * before < state.width <= 8 * chunks.len()
            &&& frames.last().0 == chunk_frame(pending.position, before, chunks.last())
            &&& applied(state, frames.drop_last()) == Ok::<_, FileFormatError>(
                received(state, pending, chunks, before),
            )
        }),
{
    let total = chunks.len();
    let before = (total - 1) as nat;
    lemma_chunks_received(state, pending, frames, chunks, before);
    lemma_chunks_len(chunks, before);
    lemma_chunks_len(chunks, total);
    assert(chunks.take(total as int) =~= chunks);
    assert(frames.take(before as int) =~= frames.drop_last());
    assert(frames[before as int].0 == chunk_frame(pending.position, before, chunks[before as int]));
}

/// Where a byte behind the end of the page is not zero, the last data frame is refused
/// instead.
pub proof fn law_nonzero_padding_is_refused(
    state: ScanModel,
    pending: PendingModel,
    frames: Seq<(FrameModel, u64)>,
    chunks: Seq<Seq<u8>>,
    place: int,
)
    requires
        awaits_chunks(state, pending),
        carry_chunks(frames, pending.position, chunks, state.width),
        state.width - 8 * (chunks.len() - 1) <= place < 8,
        chunks.last()[place] != 0,
    ensures
        applied(state, frames) == Err::<ScanModel, _>(
            FileFormatError {
                offset: (frames.last().1 + 32) as u64,
                reason: FileFormatErrorReason::PageDataFinalPaddingNonzero,
            },
        ),
{
    lemma_last_chunk(state, pending, frames, chunks);
    assert(frames.last().0.payload2_bytes[place] != 0);
}

} // verus!
