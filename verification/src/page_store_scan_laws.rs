//! What one frame does to a page store that is being read: when it is accepted, what is
//! known after it, and what it is refused for.
use vstd::prelude::*;

use crate::log_scan_laws::follows;
use crate::page_store_error::PageStoreFormatErrorReason;
use crate::page_store_frame::{PageStoreFrameKind, StoreFrameModel};
use crate::page_store_scan::{store_step, GroupModel, StoreScanModel};
use crate::stored_page::{lemma_page_index, page_index_from, StoredPageModel};

verus! {

/// A snapshot begins exactly where its header stands between two groups, its sequence
/// number is the next one and its page number is not zero.
pub proof fn law_snapshot_header_frame(state: StoreScanModel, frame: StoreFrameModel, offset: u64)
    requires
        state.pending is None,
        offset <= u64::MAX - 56,
    ensures
        store_step(state, frame, offset) is Ok <==> {
            &&& frame.kind == PageStoreFrameKind::SnapshotHeader
            &&& frame.payload_a != 0 && frame.payload_b != 0
            &&& state.next_sequence == Some(frame.payload_a)
        },
        store_step(state, frame, offset) matches Ok(next) ==> {
            &&& next.pending matches Some(pending)
            &&& pending.header_offset == offset
            &&& pending.sequence == frame.payload_a
            &&& pending.number == frame.payload_b
            &&& pending.version == frame.payload_c
            &&& pending.position is None
            &&& pending.bytes.len() == 0
            &&& next == (StoreScanModel { pending: next.pending, ..state })
        },
        store_step(state, frame, offset) matches Err(error) ==> match error.reason {
            PageStoreFormatErrorReason::PageDataWithoutHeader => frame.kind
                != PageStoreFrameKind::SnapshotHeader && error.offset == offset + 4,
            PageStoreFormatErrorReason::SnapshotSequenceZero => frame.payload_a == 0
                && error.offset == offset + 16,
            PageStoreFormatErrorReason::SnapshotSequenceSpaceExhausted => state.next_sequence is None
                && error.offset == offset + 16,
            PageStoreFormatErrorReason::SnapshotSequenceOutOfOrder { expected, actual } => {
                &&& state.next_sequence == Some(expected) && actual == frame.payload_a
                &&& expected != actual && error.offset == offset + 16
            },
            PageStoreFormatErrorReason::SnapshotPageNumberZero => frame.payload_b == 0
                && error.offset == offset + 24,
            _ => false,
        },
{
}

/// Behind the header of a snapshot exactly its required position is accepted: under the same
/// sequence number, not zero, and with nothing else in the frame.
pub proof fn law_required_position_frame(
    state: StoreScanModel,
    pending: GroupModel,
    frame: StoreFrameModel,
    offset: u64,
)
    requires
        state.pending == Some(pending),
        pending.position is None,
        offset <= u64::MAX - 56,
    ensures
        store_step(state, frame, offset) is Ok <==> {
            &&& frame.kind == PageStoreFrameKind::RequiredPosition
            &&& frame.payload_a == pending.sequence
            &&& frame.payload_b != 0 && frame.payload_c == 0
        },
        store_step(state, frame, offset) matches Ok(next) ==> {
            &&& next.pending == Some(GroupModel { position: Some(frame.payload_b), ..pending })
            &&& next == (StoreScanModel { pending: next.pending, ..state })
        },
        store_step(state, frame, offset) matches Err(error) ==> match error.reason {
            PageStoreFormatErrorReason::UnexpectedKindAfterHeader { actual } => {
                &&& frame.kind != PageStoreFrameKind::RequiredPosition
                &&& actual == frame.kind.spec_code() && error.offset == offset + 4
            },
            PageStoreFormatErrorReason::RequiredPositionSequenceMismatch { expected, actual } => {
                &&& expected == pending.sequence && actual == frame.payload_a
                &&& expected != actual && error.offset == offset + 16
            },
            PageStoreFormatErrorReason::RequiredPositionZero => frame.payload_b == 0
                && error.offset == offset + 24,
            PageStoreFormatErrorReason::RequiredPositionPayloadCNonzero { actual } => actual
                == frame.payload_c && actual != 0 && error.offset == offset + 32,
            _ => false,
        },
{
}

/// A chunk of a snapshot is accepted exactly where it stands under the same sequence number
/// and at the place behind the bytes read so far, and is zero behind the page's end. The last
/// chunk makes the snapshot the only one of its page, and leaves all others as they are.
pub proof fn law_snapshot_data_frame(
    state: StoreScanModel,
    pending: GroupModel,
    frame: StoreFrameModel,
    offset: u64,
)
    requires
        state.pending == Some(pending),
        pending.position is Some,
        pending.bytes.len() % 8 == 0,
        pending.bytes.len() < state.width,
        frame.payload_c_bytes.len() == 8,
        offset <= u64::MAX - 56,
    ensures
        store_step(state, frame, offset) is Ok <==> {
            &&& frame.kind == PageStoreFrameKind::PageData
            &&& frame.payload_a == pending.sequence
            &&& 8 * frame.payload_b == pending.bytes.len()
            &&& forall|i: int|
                0 <= i < 8 && pending.bytes.len() + i >= state.width
                    ==> #[trigger] frame.payload_c_bytes[i] == 0
        },
        store_step(state, frame, offset) matches Ok(next) ==> if pending.bytes.len() + 8
            < state.width {
            &&& next.pending matches Some(after)
            &&& after.bytes.len() == pending.bytes.len() + 8
            &&& holds_chunk(after.bytes, pending.bytes, frame.payload_c_bytes)
            &&& after == (GroupModel { bytes: after.bytes, ..pending })
            &&& next == (StoreScanModel { pending: next.pending, ..state })
        } else {
            &&& next.pending is None
            &&& follows(next.next_sequence, pending.sequence)
            &&& next.width == state.width
            &&& exists|i: int|
                0 <= i < next.pages.len() && is_completed(
                    #[trigger] next.pages[i],
                    state,
                    pending,
                    frame,
                )
            &&& forall|i: int|
                0 <= i < state.pages.len() && (#[trigger] state.pages[i]).number != pending.number
                    ==> next.pages.contains(state.pages[i])
            &&& forall|i: int|
                0 <= i < next.pages.len() && (#[trigger] next.pages[i]).number != pending.number
                    ==> state.pages.contains(next.pages[i])
        },
        store_step(state, frame, offset) matches Err(error) ==> match error.reason {
            PageStoreFormatErrorReason::UnexpectedKindAfterRequiredPosition { actual } => {
                &&& frame.kind != PageStoreFrameKind::PageData
                &&& actual == frame.kind.spec_code() && error.offset == offset + 4
            },
            PageStoreFormatErrorReason::PageDataSequenceMismatch { expected, actual } => {
                &&& expected == pending.sequence && actual == frame.payload_a
                &&& expected != actual && error.offset == offset + 16
            },
            PageStoreFormatErrorReason::PageDataChunkIndexOutOfSequence { expected, actual } => {
                &&& actual == frame.payload_b && error.offset == offset + 24
                &&& pending.bytes.len() <= u64::MAX ==> 8 * expected == pending.bytes.len()
                    && expected != actual
            },
            PageStoreFormatErrorReason::PageDataFinalPaddingNonzero => error.offset == offset + 32
                && exists|i: int|
                0 <= i < 8 && pending.bytes.len() + i >= state.width
                    && #[trigger] frame.payload_c_bytes[i] != 0,
            _ => false,
        },
{
    let taken = if state.width - pending.bytes.len() < 8 {
        state.width - pending.bytes.len()
    } else {
        8
    };
    let bytes = pending.bytes + frame.payload_c_bytes.take(taken);
    assert(bytes.len() == pending.bytes.len() + taken);
    assert(holds_chunk(bytes, pending.bytes, frame.payload_c_bytes));
    if let Ok(next) = store_step(state, frame, offset) {
        if pending.bytes.len() + 8 >= state.width {
            let page = pending.completed(bytes);
            lemma_page_index(state.pages, pending.number, 0);
            let place = match page_index_from(state.pages, pending.number, 0) {
                Some(place) => place as int,
                None => state.pages.len() as int,
            };
            assert(next.pages[place] == page);
            assert(is_completed(next.pages[place], state, pending, frame));
            assert forall|i: int|
                0 <= i < state.pages.len() && (#[trigger] state.pages[i]).number
                    != pending.number implies next.pages.contains(state.pages[i]) by {
                assert(next.pages[i] == state.pages[i]);
            }
            assert forall|i: int|
                0 <= i < next.pages.len() && (#[trigger] next.pages[i]).number
                    != pending.number implies state.pages.contains(next.pages[i]) by {
                assert(state.pages[i] == next.pages[i]);
            }
        }
    }
}

/// Whether `bytes` are `before`, with as many bytes of `chunk` behind them as there is room
/// for.
pub open spec fn holds_chunk(bytes: Seq<u8>, before: Seq<u8>, chunk: Seq<u8>) -> bool {
    &&& before.len() <= bytes.len()
    &&& forall|i: int| 0 <= i < before.len() ==> #[trigger] bytes[i] == before[i]
    &&& forall|i: int|
        before.len() <= i < bytes.len() ==> #[trigger] bytes[i] == chunk[i - before.len()]
}

/// Whether `page` is what a group has become with its last chunk.
pub open spec fn is_completed(
    page: StoredPageModel,
    state: StoreScanModel,
    pending: GroupModel,
    frame: StoreFrameModel,
) -> bool {
    &&& page.number == pending.number
    &&& page.version == pending.version
    &&& page.sequence == pending.sequence
    &&& pending.position == Some(page.position)
    &&& page.bytes.len() == state.width
    &&& holds_chunk(page.bytes, pending.bytes, frame.payload_c_bytes)
}

} // verus!
