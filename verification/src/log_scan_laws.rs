//! What one frame does to a log that is being read, kind by kind: when it is accepted, what
//! is known after it, and what it is refused for.
use vstd::prelude::*;

use crate::log_error::{FileFormatErrorReason, FramePayloadField};
use crate::log_frame::{FrameKind, FrameModel};
use crate::log_record::{PageModel, RecordBody, RecordModel};
use crate::log_replay::lemma_position_index;
use crate::log_scan::{position_index, step, PendingModel, PendingOwner, ScanModel};

verus! {

/// Whether `next` is the number behind `value`, or none where there is no such number.
pub open spec fn follows(next: Option<u64>, value: u64) -> bool {
    match next {
        None => value == u64::MAX,
        Some(next) => next == value + 1,
    }
}

/// An epoch is accepted exactly where it is the next one and nothing else stands in its
/// frame. It then is the highest, and the next one follows it.
pub proof fn law_epoch_frame(state: ScanModel, frame: FrameModel, offset: u64)
    requires
        state.pending is None,
        frame.kind == FrameKind::EpochAllocation,
        offset <= u64::MAX - 56,
    ensures
        step(state, frame, offset) is Ok <==> {
            &&& frame.payload0 != 0 && frame.payload1 == 0 && frame.payload2 == 0
            &&& state.next_epoch == Some(frame.payload0)
        },
        step(state, frame, offset) matches Ok(next) ==> {
            &&& next.highest_epoch == frame.payload0
            &&& follows(next.next_epoch, frame.payload0)
            &&& next == (ScanModel {
                highest_epoch: next.highest_epoch,
                next_epoch: next.next_epoch,
                ..state
            })
        },
        step(state, frame, offset) matches Err(error) ==> match error.reason {
            FileFormatErrorReason::EpochValueZero => frame.payload0 == 0 && error.offset == offset
                + 16,
            FileFormatErrorReason::UnexpectedNonzeroPayload { field, actual } => {
                &&& frame.payload0 != 0 && actual != 0
                &&& match field {
                    FramePayloadField::Payload1 => actual == frame.payload1 && error.offset
                        == offset + 24,
                    FramePayloadField::Payload2 => frame.payload1 == 0 && actual == frame.payload2
                        && error.offset == offset + 32,
                }
            },
            FileFormatErrorReason::EpochSpaceExhausted => state.next_epoch is None && error.offset
                == offset + 16,
            FileFormatErrorReason::EpochOutOfSequence { expected, actual } => {
                &&& state.next_epoch == Some(expected) && actual == frame.payload0
                &&& expected != actual && error.offset == offset + 16
            },
            _ => false,
        },
{
}

/// A commit is accepted exactly where it stands at the next position, none of its numbers is
/// zero, its epoch was allocated and no earlier record commits the same transaction. It then
/// is the last record.
pub proof fn law_commit_frame(state: ScanModel, frame: FrameModel, offset: u64)
    requires
        state.pending is None,
        frame.kind == FrameKind::CommitRecord,
        offset <= u64::MAX - 56,
    ensures
        step(state, frame, offset) is Ok <==> {
            &&& frame.payload0 != 0 && frame.payload1 != 0 && frame.payload2 != 0
            &&& state.next_position == Some(frame.payload0)
            &&& frame.payload1 <= state.highest_epoch
            &&& forall|i: int|
                0 <= i < state.records.len() ==> (#[trigger] state.records[i]).body != (
                RecordBody::Commit { epoch: frame.payload1, sequence: frame.payload2 })
        },
        step(state, frame, offset) matches Ok(next) ==> {
            &&& next.records.len() == state.records.len() + 1
            &&& next.records.drop_last() == state.records
            &&& next.records.last() == (RecordModel {
                position: frame.payload0,
                body: RecordBody::Commit { epoch: frame.payload1, sequence: frame.payload2 },
            })
            &&& next.last_completed == frame.payload0
            &&& follows(next.next_position, frame.payload0)
            &&& next == (ScanModel {
                records: next.records,
                last_completed: next.last_completed,
                next_position: next.next_position,
                ..state
            })
        },
        step(state, frame, offset) matches Err(error) ==> match error.reason {
            FileFormatErrorReason::CommitPositionZero => frame.payload0 == 0 && error.offset
                == offset + 16,
            FileFormatErrorReason::CommitEpochZero => frame.payload1 == 0 && error.offset == offset
                + 24,
            FileFormatErrorReason::CommitSequenceZero => frame.payload2 == 0 && error.offset
                == offset + 32,
            FileFormatErrorReason::CommitPositionSpaceExhausted => state.next_position is None
                && error.offset == offset + 16,
            FileFormatErrorReason::CommitPositionOutOfSequence { expected, actual } => {
                &&& state.next_position == Some(expected) && actual == frame.payload0
                &&& expected != actual && error.offset == offset + 16
            },
            FileFormatErrorReason::CommitEpochUnallocated { actual, highest_allocated } => {
                &&& actual == frame.payload1 && highest_allocated == state.highest_epoch
                &&& actual > highest_allocated && error.offset == offset + 24
            },
            FileFormatErrorReason::DuplicateTransactionIdentity { epoch, sequence } => {
                &&& epoch == frame.payload1 && sequence == frame.payload2
                &&& error.offset == offset + 24
                &&& exists|i: int|
                    0 <= i < state.records.len() && (#[trigger] state.records[i]).body == (
                    RecordBody::Commit { epoch, sequence })
            },
            _ => false,
        },
{
    let next = step(state, frame, offset);
    if let Ok(next) = next {
        assert(next.records.drop_last() =~= state.records);
        assert forall|i: int| 0 <= i < state.records.len() implies (
        #[trigger] state.records[i]).body != (RecordBody::Commit {
            epoch: frame.payload1,
            sequence: frame.payload2,
        }) by {
            assert(!state.records[i].is_commit_of(frame.payload1, frame.payload2));
        }
    } else {
        if crate::log_record::contains_commit(state.records, frame.payload1, frame.payload2) {
            let i = choose|i: int|
                0 <= i < state.records.len() && #[trigger] state.records[i].is_commit_of(
                    frame.payload1,
                    frame.payload2,
                );
            assert(state.records[i].body == (RecordBody::Commit {
                epoch: frame.payload1,
                sequence: frame.payload2,
            }));
        }
    }
}

/// A marker is accepted exactly where it names the position of a complete record beyond all
/// that is durable, and nothing else stands in its frame. The records through that one are
/// then durable, and no others.
pub proof fn law_marker_frame(state: ScanModel, frame: FrameModel, offset: u64)
    requires
        state.pending is None,
        frame.kind == FrameKind::DurableThrough,
        offset <= u64::MAX - 56,
    ensures
        step(state, frame, offset) is Ok <==> {
            &&& frame.payload0 != 0 && frame.payload1 == 0 && frame.payload2 == 0
            &&& state.last_durable matches Some(last) ==> last < frame.payload0
            &&& frame.payload0 <= state.last_completed
            &&& exists|i: int|
                0 <= i < state.records.len() && (#[trigger] state.records[i]).position
                    == frame.payload0
        },
        step(state, frame, offset) matches Ok(next) ==> {
            &&& 0 < next.durable_len <= state.records.len()
            &&& state.records[next.durable_len - 1].position == frame.payload0
            &&& next.last_durable == Some(frame.payload0)
            &&& next == (ScanModel {
                durable_len: next.durable_len,
                last_durable: next.last_durable,
                ..state
            })
        },
        step(state, frame, offset) matches Err(error) ==> match error.reason {
            FileFormatErrorReason::MarkerPositionZero => frame.payload0 == 0 && error.offset
                == offset + 16,
            FileFormatErrorReason::UnexpectedNonzeroPayload { field, actual } => {
                &&& frame.payload0 != 0 && actual != 0
                &&& match field {
                    FramePayloadField::Payload1 => actual == frame.payload1 && error.offset
                        == offset + 24,
                    FramePayloadField::Payload2 => frame.payload1 == 0 && actual == frame.payload2
                        && error.offset == offset + 32,
                }
            },
            FileFormatErrorReason::MarkerDoesNotAdvance { previous, actual } => {
                &&& actual == frame.payload0 && actual <= previous
                &&& state.last_durable == Some(previous) && error.offset == offset + 16
            },
            FileFormatErrorReason::MarkerReferencesUnknownCommit { actual, highest_committed } => {
                &&& actual == frame.payload0 && highest_committed == state.last_completed
                &&& error.offset == offset + 16
            },
            _ => false,
        },
{
    lemma_position_index(state.records, frame.payload0, 0);
    if let Some(index) = position_index(state.records, frame.payload0, 0) {
        assert(state.records[index as int].position == frame.payload0);
    }
}

/// A page begins exactly where its position is the next one, its number is not zero and the
/// file may hold pages. Its number and version are known from then on, an owned page waits
/// for its owner, and no record is added yet.
pub proof fn law_page_header_frame(state: ScanModel, frame: FrameModel, offset: u64)
    requires
        state.pending is None,
        frame.kind == FrameKind::PageHeader || frame.kind == FrameKind::TransactionPageHeader,
        offset <= u64::MAX - 56,
    ensures
        step(state, frame, offset) is Ok <==> {
            &&& frame.payload0 != 0 && frame.payload1 != 0
            &&& state.next_position == Some(frame.payload0)
            &&& state.has_layout
        },
        step(state, frame, offset) matches Ok(next) ==> {
            &&& next.pending matches Some(pending)
            &&& pending.header_offset == offset
            &&& pending.position == frame.payload0
            &&& pending.number == frame.payload1
            &&& pending.version == frame.payload2
            &&& pending.bytes.len() == 0
            &&& frame.kind == FrameKind::PageHeader ==> pending.owner is Raw
            &&& frame.kind == FrameKind::TransactionPageHeader ==> pending.owner is Awaiting
            &&& next == (ScanModel { pending: next.pending, ..state })
        },
        step(state, frame, offset) matches Err(error) ==> match error.reason {
            FileFormatErrorReason::PageHeaderPositionZero => frame.payload0 == 0 && error.offset
                == offset + 16,
            FileFormatErrorReason::PageHeaderPositionSpaceExhausted => state.next_position is None
                && error.offset == offset + 16,
            FileFormatErrorReason::PageHeaderPositionOutOfSequence { expected, actual } => {
                &&& state.next_position == Some(expected) && actual == frame.payload0
                &&& expected != actual && error.offset == offset + 16
            },
            FileFormatErrorReason::PageNumberZero => frame.payload1 == 0 && error.offset == offset
                + 24,
            FileFormatErrorReason::PageDataWithoutHeader => !state.has_layout && error.offset
                == offset + 24,
            _ => false,
        },
{
}

/// Page data and owners stand nowhere but behind the header of their page.
pub proof fn law_stray_frames(state: ScanModel, frame: FrameModel, offset: u64)
    requires
        state.pending is None,
        frame.kind == FrameKind::PageData || frame.kind == FrameKind::TransactionPageOwner,
        offset <= u64::MAX - 56,
    ensures
        step(state, frame, offset) matches Err(error) && error.offset == offset + 4 && if frame.kind
            == FrameKind::PageData {
            error.reason is PageDataWithoutHeader
        } else {
            error.reason is TransactionPageOwnerWithoutHeader
        },
{
}

/// The owner of a page is accepted exactly where the page waits for it, it names the page's
/// position, neither of its numbers is zero and its epoch was allocated.
pub proof fn law_owner_frame(
    state: ScanModel,
    pending: PendingModel,
    frame: FrameModel,
    offset: u64,
)
    requires
        state.pending == Some(pending),
        pending.owner is Awaiting,
        offset <= u64::MAX - 56,
    ensures
        step(state, frame, offset) is Ok <==> {
            &&& frame.kind == FrameKind::TransactionPageOwner
            &&& frame.payload0 != 0 && frame.payload0 == pending.position
            &&& 0 < frame.payload1 <= state.highest_epoch
            &&& frame.payload2 != 0
        },
        step(state, frame, offset) matches Ok(next) ==> {
            &&& next.pending == Some(
                PendingModel {
                    owner: PendingOwner::Owned {
                        epoch: frame.payload1,
                        sequence: frame.payload2,
                    },
                    ..pending
                },
            )
            &&& next == (ScanModel { pending: next.pending, ..state })
        },
        step(state, frame, offset) matches Err(error) ==> match error.reason {
            FileFormatErrorReason::TransactionPageOwnerInterruptedByFrameKind { actual } => {
                &&& frame.kind != FrameKind::TransactionPageOwner
                &&& actual == frame.kind.spec_code() && error.offset == offset + 4
            },
            FileFormatErrorReason::TransactionPageOwnerParentPositionZero => frame.payload0 == 0
                && error.offset == offset + 16,
            FileFormatErrorReason::TransactionPageOwnerParentMismatch { expected, actual } => {
                &&& expected == pending.position && actual == frame.payload0
                &&& expected != actual && error.offset == offset + 16
            },
            FileFormatErrorReason::TransactionPageOwnerEpochZero => frame.payload1 == 0
                && error.offset == offset + 24,
            FileFormatErrorReason::TransactionPageOwnerEpochUnallocated {
                actual,
                highest_allocated,
            } => {
                &&& actual == frame.payload1 && highest_allocated == state.highest_epoch
                &&& actual > highest_allocated && error.offset == offset + 24
            },
            FileFormatErrorReason::TransactionPageOwnerSequenceZero => frame.payload2 == 0
                && error.offset == offset + 32,
            _ => false,
        },
{
}

/// A chunk of a page is accepted exactly where it names the page's position and the place
/// behind the bytes read so far, and is zero behind the page's end. Its bytes come behind
/// those; the last chunk makes the page a record, with its owner where it has one.
pub proof fn law_data_frame(
    state: ScanModel,
    pending: PendingModel,
    frame: FrameModel,
    offset: u64,
)
    requires
        state.pending == Some(pending),
        !(pending.owner is Awaiting),
        pending.bytes.len() % 8 == 0,
        pending.bytes.len() < state.width,
        frame.payload2_bytes.len() == 8,
        offset <= u64::MAX - 56,
    ensures
        step(state, frame, offset) is Ok <==> {
            &&& frame.kind == FrameKind::PageData
            &&& frame.payload0 != 0 && frame.payload0 == pending.position
            &&& 8 * frame.payload1 == pending.bytes.len()
            &&& forall|i: int|
                0 <= i < 8 && pending.bytes.len() + i >= state.width
                    ==> #[trigger] frame.payload2_bytes[i] == 0
        },
        step(state, frame, offset) matches Ok(next) ==> {
            let read = if pending.bytes.len() + 8 < state.width {
                pending.bytes.len() + 8
            } else {
                state.width
            };
            let image = if read < state.width {
                next.pending->0.bytes
            } else {
                match next.records.last().body {
                    RecordBody::OwnedPage { page, .. } => page.bytes,
                    body => body->Page_page.bytes,
                }
            };
            &&& image.len() == read
            &&& forall|i: int|
                0 <= i < pending.bytes.len() ==> #[trigger] image[i] == pending.bytes[i]
            &&& forall|i: int|
                pending.bytes.len() <= i < read ==> #[trigger] image[i] == frame.payload2_bytes[i
                    - pending.bytes.len()]
            &&& if read < state.width {
                &&& next.pending == Some(PendingModel { bytes: image, ..pending })
                &&& next == (ScanModel { pending: next.pending, ..state })
            } else {
                let page = PageModel {
                    number: pending.number,
                    version: pending.version,
                    bytes: image,
                };
                &&& next.pending is None
                &&& next.records == state.records.push(
                    RecordModel {
                        position: pending.position,
                        body: match pending.owner {
                            PendingOwner::Owned { epoch, sequence } => RecordBody::OwnedPage {
                                epoch,
                                sequence,
                                page,
                            },
                            _ => RecordBody::Page { page },
                        },
                    },
                )
                &&& next.last_completed == pending.position
                &&& follows(next.next_position, pending.position)
                &&& next == (ScanModel {
                    records: next.records,
                    last_completed: next.last_completed,
                    next_position: next.next_position,
                    pending: None,
                    ..state
                })
            }
        },
        step(state, frame, offset) matches Err(error) ==> match error.reason {
            FileFormatErrorReason::TransactionPageOwnerWithoutHeader => {
                &&& frame.kind == FrameKind::TransactionPageOwner && pending.owner is Raw
                &&& error.offset == offset + 4
            },
            FileFormatErrorReason::TransactionPageOwnerDuplicate => {
                &&& frame.kind == FrameKind::TransactionPageOwner && pending.owner is Owned
                &&& error.offset == offset + 4
            },
            FileFormatErrorReason::PageDataInterruptedByFrameKind { actual } => {
                &&& frame.kind != FrameKind::PageData
                &&& frame.kind != FrameKind::TransactionPageOwner
                &&& actual == frame.kind.spec_code() && error.offset == offset + 4
            },
            FileFormatErrorReason::PageDataParentPositionZero => frame.payload0 == 0
                && error.offset == offset + 16,
            FileFormatErrorReason::PageDataParentMismatch { expected, actual } => {
                &&& expected == pending.position && actual == frame.payload0
                &&& expected != actual && error.offset == offset + 16
            },
            FileFormatErrorReason::PageDataChunkIndexOutOfSequence { expected, actual } => {
                &&& actual == frame.payload1 && error.offset == offset + 24
                &&& pending.bytes.len() <= u64::MAX ==> 8 * expected == pending.bytes.len()
                    && expected != actual
            },
            FileFormatErrorReason::PageDataFinalPaddingNonzero => error.offset == offset + 32
                && exists|i: int|
                0 <= i < 8 && pending.bytes.len() + i >= state.width
                    && #[trigger] frame.payload2_bytes[i] != 0,
            _ => false,
        },
{
    let taken = if state.width - pending.bytes.len() < 8 {
        state.width - pending.bytes.len()
    } else {
        8
    };
    let bytes = pending.bytes + frame.payload2_bytes.take(taken);
    assert(bytes.len() == pending.bytes.len() + taken);
    assert forall|i: int| 0 <= i < pending.bytes.len() implies #[trigger] bytes[i]
        == pending.bytes[i] by {}
    assert forall|i: int| pending.bytes.len() <= i < bytes.len() implies #[trigger] bytes[i]
        == frame.payload2_bytes[i - pending.bytes.len()] by {}
}

} // verus!
