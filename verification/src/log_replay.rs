//! How reading a file goes on when frames are appended to it.
use vstd::prelude::*;

use crate::bytes::{lemma_be_value_bound, lemma_pow256_values};
use crate::format::LogFormat;
use crate::log_error::FileFormatError;
use crate::log_frame::{decoded_frame, FrameModel};
use crate::log_header::{HeaderExpectation, ReclaimedCoordinates};
use crate::log_model::{initial_scan, read_header, HeaderModel};
use crate::log_record::RecordModel;
use crate::log_scan::{position_index, scan, step, successor, PendingOwner, ScanModel};

verus! {

/// The frames one after the other.
pub open spec fn concat(frames: Seq<Seq<u8>>) -> Seq<u8>
    decreases frames.len(),
{
    if frames.len() == 0 {
        Seq::empty()
    } else {
        concat(frames.drop_last()) + frames.last()
    }
}

/// Whether every frame has the fixed length.
pub open spec fn whole_frames(frames: Seq<Seq<u8>>) -> bool {
    forall|i: int| 0 <= i < frames.len() ==> (#[trigger] frames[i]).len() == 56
}

/// One frame read at `offset`.
pub open spec fn read_frame(state: ScanModel, frame: Seq<u8>, offset: nat, format: LogFormat) -> Result<
    ScanModel,
    FileFormatError,
> {
    match decoded_frame(frame, offset as u64, format) {
        Err(error) => Err(error),
        Ok(decoded) => step(state, decoded, offset as u64),
    }
}

/// The frames read in order, the first of them at `offset`.
pub open spec fn replay(
    state: ScanModel,
    frames: Seq<Seq<u8>>,
    offset: nat,
    format: LogFormat,
) -> Result<ScanModel, FileFormatError>
    decreases frames.len(),
{
    if frames.len() == 0 {
        Ok(state)
    } else {
        match replay(state, frames.drop_last(), offset, format) {
            Err(error) => Err(error),
            Ok(middle) => read_frame(
                middle,
                frames.last(),
                offset + 56 * (frames.len() - 1) as nat,
                format,
            ),
        }
    }
}

pub proof fn lemma_concat_len(frames: Seq<Seq<u8>>)
    requires
        whole_frames(frames),
    ensures
        concat(frames).len() == 56 * frames.len(),
    decreases frames.len(),
{
    if frames.len() > 0 {
        assert(whole_frames(frames.drop_last())) by {
            assert forall|i: int| 0 <= i < frames.drop_last().len() implies (
            #[trigger] frames.drop_last()[i]).len() == 56 by {
                assert(frames.drop_last()[i] == frames[i]);
            }
        }
        lemma_concat_len(frames.drop_last());
        assert(frames[frames.len() - 1].len() == 56);
    }
}

/// Reading a file is replaying its frames.
pub proof fn lemma_scan_replay(
    state: ScanModel,
    bytes: Seq<u8>,
    offset: nat,
    frames: Seq<Seq<u8>>,
    format: LogFormat,
)
    requires
        whole_frames(frames),
        offset + 56 * frames.len() <= bytes.len(),
        bytes.subrange(offset as int, (offset + 56 * frames.len()) as int) == concat(frames),
    ensures
        scan(state, bytes, offset, format) == match replay(state, frames, offset, format) {
            Err(error) => Err(error),
            Ok(end) => scan(end, bytes, offset + 56 * frames.len(), format),
        },
    decreases frames.len(),
{
    if frames.len() > 0 {
        let shorter = frames.drop_last();
        let here = (offset + 56 * (frames.len() - 1)) as nat;
        assert forall|i: int| 0 <= i < shorter.len() implies (#[trigger] shorter[i]).len() == 56 by {
            assert(shorter[i] == frames[i]);
        }
        assert(frames[frames.len() - 1].len() == 56);
        lemma_concat_len(shorter);
        let whole = concat(frames);
        assert(bytes.subrange(offset as int, here as int) =~= concat(shorter)) by {
            assert forall|i: int| 0 <= i < concat(shorter).len() implies bytes.subrange(
                offset as int,
                here as int,
            )[i] == concat(shorter)[i] by {
                assert(whole[i] == bytes.subrange(
                    offset as int,
                    (offset + 56 * frames.len()) as int,
                )[i]);
            }
        }
        lemma_scan_replay(state, bytes, offset, shorter, format);
        assert(bytes.subrange(here as int, here as int + 56) =~= frames.last()) by {
            assert forall|i: int| 0 <= i < 56 implies bytes.subrange(
                here as int,
                here as int + 56,
            )[i] == frames.last()[i] by {
                assert(whole[concat(shorter).len() + i] == bytes.subrange(
                    offset as int,
                    (offset + 56 * frames.len()) as int,
                )[concat(shorter).len() + i]);
            }
        }
    }
}

/// Replaying two runs of frames is replaying the first and then the second.
pub proof fn lemma_replay_append(
    state: ScanModel,
    first: Seq<Seq<u8>>,
    second: Seq<Seq<u8>>,
    offset: nat,
    format: LogFormat,
)
    ensures
        replay(state, first + second, offset, format) == match replay(
            state,
            first,
            offset,
            format,
        ) {
            Err(error) => Err(error),
            Ok(middle) => replay(middle, second, offset + 56 * first.len(), format),
        },
    decreases second.len(),
{
    if second.len() == 0 {
        assert(first + second =~= first);
    } else {
        let both = first + second;
        assert(both.drop_last() =~= first + second.drop_last());
        assert(both.last() == second.last());
        lemma_replay_append(state, first, second.drop_last(), offset, format);
        assert(offset + 56 * (both.len() - 1) == (offset + 56 * first.len()) + 56 * (second.len()
            - 1));
    }
}

/// Where nothing but whole frames stands in a file, more bytes behind them do not
/// change what has been read.
pub proof fn lemma_scan_extend(
    state: ScanModel,
    bytes: Seq<u8>,
    more: Seq<u8>,
    offset: nat,
    format: LogFormat,
)
    requires
        offset <= bytes.len(),
        (bytes.len() - offset) % 56 == 0,
    ensures
        scan(state, bytes + more, offset, format) == match scan(state, bytes, offset, format) {
            Err(error) => Err(error),
            Ok(end) => scan(end, bytes + more, bytes.len(), format),
        },
    decreases bytes.len() - offset,
{
    if offset + 56 <= bytes.len() {
        assert((bytes + more).subrange(offset as int, offset as int + 56) =~= bytes.subrange(
            offset as int,
            offset as int + 56,
        ));
        match decoded_frame(
            bytes.subrange(offset as int, offset as int + 56),
            offset as u64,
            format,
        ) {
            Err(_) => {},
            Ok(frame) => {
                match step(state, frame, offset as u64) {
                    Err(_) => {},
                    Ok(next) => {
                        lemma_scan_extend(next, bytes, more, offset + 56, format);
                    },
                }
            },
        }
    } else {
        assert(offset == bytes.len());
    }
}

/// More bytes behind a header do not change what the header says.
pub proof fn lemma_header_extend(
    bytes: Seq<u8>,
    more: Seq<u8>,
    expectation: HeaderExpectation,
    header: HeaderModel,
)
    requires
        read_header(bytes, expectation) == Ok::<HeaderModel, FileFormatError>(header),
    ensures
        read_header(bytes + more, expectation) == Ok::<HeaderModel, FileFormatError>(header),
        64 <= header.length <= bytes.len(),
        header.length <= 192,
        header.format.has_pages() == expectation.spec_page_layout() is Some,
        expectation.spec_accepts(header.format),
{
    reveal(read_header);
    let whole = bytes + more;
    assert(whole.subrange(8, 10) =~= bytes.subrange(8, 10));
    assert(whole.subrange(16, 32) =~= bytes.subrange(16, 32));
    assert(whole.take(64) =~= bytes.take(64));
    assert(bytes.take(64).subrange(8, 10) =~= bytes.subrange(8, 10));
    if bytes.len() >= 128 {
        assert(whole.take(128) =~= bytes.take(128));
    }
    if bytes.len() >= 192 {
        assert(whole.take(192) =~= bytes.take(192));
        assert(whole.subrange(128, 176) =~= bytes.subrange(128, 176));
    }
}

/// What holds of every header that breaks no rule.
pub proof fn lemma_header_facts(
    bytes: Seq<u8>,
    expectation: HeaderExpectation,
    header: HeaderModel,
)
    requires
        read_header(bytes, expectation) == Ok::<HeaderModel, FileFormatError>(header),
    ensures
        header.coordinates matches Some(coordinates) ==> coordinates.wf(),
        header.coordinates is Some ==> header.format.spec_version() >= 4,
        header.format == LogFormat::V4 ==> header.coordinates is Some,
        header.persistent_id != 0,
        header.identity is Some <==> header.format == LogFormat::V5,
        header.identity matches Some(identity) ==> identity.wf(),
{
    reveal(read_header);
    lemma_pow256_values();
    lemma_be_value_bound(bytes.subrange(16, 32));
    if header.format == LogFormat::V5 {
        let extension = bytes.subrange(128, 176);
        assert(bytes.take(192).subrange(16, 32) =~= bytes.subrange(16, 32));
        assert(bytes.take(192).subrange(128, 176) =~= extension);
        lemma_be_value_bound(extension.subrange(16, 32));
        lemma_be_value_bound(extension.subrange(32, 48));
    } else if header.format == LogFormat::V4 {
        assert(bytes.take(128).subrange(16, 32) =~= bytes.subrange(16, 32));
    } else {
        assert(bytes.take(64).subrange(16, 32) =~= bytes.subrange(16, 32));
    }
}

/// What holds of the state after any number of accepted frames, the first of them
/// read in `start`: positions run without a gap from the first one on, the durable
/// records come first, no transaction is committed twice, and no record names an
/// epoch that was not allocated.
pub open spec fn sound_from(start: ScanModel, state: ScanModel) -> bool {
    let count = state.records.len();
    &&& state.next_epoch == successor(state.highest_epoch)
    &&& state.highest_epoch >= start.highest_epoch
    &&& state.durable_len <= count
    &&& count > 0 ==> start.next_position is Some
    &&& forall|i: int|
        0 <= i < count ==> (#[trigger] state.records[i]).position == start.next_position->0 + i
    &&& if count == 0 {
        &&& state.next_position == start.next_position
        &&& state.last_completed == start.last_completed
    } else {
        &&& state.next_position == successor(state.records.last().position)
        &&& state.last_completed == state.records.last().position
    }
    &&& if state.durable_len == 0 {
        state.last_durable == start.last_durable
    } else {
        state.last_durable == Some(state.records[state.durable_len - 1].position)
    }
    &&& state.pending matches Some(pending) ==> {
        &&& state.next_position == Some(pending.position)
        &&& pending.position != 0
        &&& pending.number != 0
        &&& pending.bytes.len() < state.width
        &&& pending.owner matches PendingOwner::Owned { epoch, sequence } ==> 0 < epoch
            <= state.highest_epoch && sequence != 0
    }
    &&& forall|i: int|
        0 <= i < count ==> (#[trigger] state.records[i]).wf(state.width, state.highest_epoch)
    &&& commits_distinct(state.records)
}

/// What holds of the state after any number of frames of one file.
pub open spec fn coherent(coordinates: Option<ReclaimedCoordinates>, state: ScanModel) -> bool {
    sound_from(initial_scan(coordinates, state.has_layout, state.width), state)
}

/// Whether no two records commit the same transaction.
pub open spec fn commits_distinct(records: Seq<RecordModel>) -> bool {
    forall|i: int, j: int|
        #![trigger records[i], records[j]]
        0 <= i < j < records.len() && records[i].body is Commit ==> records[i].body
            != records[j].body
}

pub proof fn lemma_position_index(records: Seq<RecordModel>, position: u64, from: nat)
    ensures
        match position_index(records, position, from) {
            None => forall|i: int|
                from <= i < records.len() ==> (#[trigger] records[i]).position != position,
            Some(index) => from <= index < records.len() && records[index as int].position
                == position,
        },
    decreases records.len() - from,
{
    if from < records.len() && records[from as int].position != position {
        lemma_position_index(records, position, from + 1);
    }
}

/// Every accepted frame keeps the state coherent.
pub proof fn lemma_step_coherent(
    coordinates: Option<ReclaimedCoordinates>,
    state: ScanModel,
    frame: FrameModel,
    offset: u64,
)
    requires
        coherent(coordinates, state),
        state.has_layout ==> state.width > 0,
        frame.payload2_bytes.len() == 8,
        step(state, frame, offset) is Ok,
    ensures
        coherent(coordinates, step(state, frame, offset)->Ok_0),
        step(state, frame, offset)->Ok_0.has_layout == state.has_layout,
        step(state, frame, offset)->Ok_0.width == state.width,
{
    let start = initial_scan(coordinates, state.has_layout, state.width);
    lemma_step_sound(start, state, frame, offset);
}

/// Every accepted frame keeps the state sound.
pub proof fn lemma_step_sound(
    start: ScanModel,
    state: ScanModel,
    frame: FrameModel,
    offset: u64,
)
    requires
        sound_from(start, state),
        state.has_layout ==> state.width > 0,
        frame.payload2_bytes.len() == 8,
        step(state, frame, offset) is Ok,
    ensures
        sound_from(start, step(state, frame, offset)->Ok_0),
        step(state, frame, offset)->Ok_0.has_layout == state.has_layout,
        step(state, frame, offset)->Ok_0.width == state.width,
{
    let next = step(state, frame, offset)->Ok_0;
    lemma_position_index(state.records, frame.payload0, 0);
    assert forall|i: int, j: int|
        #![trigger next.records[i], next.records[j]]
        0 <= i < j < next.records.len() && next.records[i].body is Commit implies next.records[i].body
        != next.records[j].body by {
        if j == state.records.len() && next.records[j].body is Commit {
            let epoch = next.records[j].body->Commit_epoch;
            let sequence = next.records[j].body->Commit_sequence;
            assert(!state.records[i].is_commit_of(epoch, sequence));
        }
    }
}

pub proof fn lemma_scan_coherent(
    coordinates: Option<ReclaimedCoordinates>,
    state: ScanModel,
    bytes: Seq<u8>,
    offset: nat,
    format: LogFormat,
)
    requires
        coherent(coordinates, state),
        state.has_layout ==> state.width > 0,
        scan(state, bytes, offset, format) is Ok,
    ensures
        coherent(coordinates, scan(state, bytes, offset, format)->Ok_0),
        scan(state, bytes, offset, format)->Ok_0.has_layout == state.has_layout,
        scan(state, bytes, offset, format)->Ok_0.width == state.width,
    decreases bytes.len() - offset,
{
    if offset + 56 <= bytes.len() {
        let frame = decoded_frame(
            bytes.subrange(offset as int, offset as int + 56),
            offset as u64,
            format,
        )->Ok_0;
        let next = step(state, frame, offset as u64)->Ok_0;
        assert(frame.payload2_bytes.len() == 8) by {
            reveal(decoded_frame);
        }
        lemma_step_coherent(coordinates, state, frame, offset as u64);
        lemma_scan_coherent(coordinates, next, bytes, offset + 56, format);
    }
}

pub proof fn lemma_initial_coherent(
    coordinates: Option<ReclaimedCoordinates>,
    has_layout: bool,
    width: nat,
)
    ensures
        coherent(coordinates, initial_scan(coordinates, has_layout, width)),
        initial_scan(coordinates, has_layout, width).has_layout == has_layout,
        initial_scan(coordinates, has_layout, width).width == width,
{
}

} // verus!
