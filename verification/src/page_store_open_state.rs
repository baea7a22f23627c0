//! The frame-by-frame reconstruction of a page store from its file.
use vstd::prelude::*;

use crate::bytes::is_zero_range;
use crate::format::{PageLayout, FRAME_LENGTH};
use crate::identity::{LogLineage, PageNumber, PageVersion};
use crate::page_store_error::{
    PageStoreFormatError, PageStoreFormatErrorReason, PageStoreOpenError,
};
use crate::page_store_frame::{parse_page_store_frame, DecodedPageStoreFrame, PageStoreFrameKind};
use crate::page_store_scan::{
    adds_a_page, comes_to_a_page, lemma_store_scan_of_prefix, lemma_store_step_keeps_pages,
    store_scan, store_step, store_step_error, GroupModel, StoreScanModel,
};
use crate::stored_page::{
    law_write_replaces_only_its_page, numbers_distinct, page_index_from, page_models,
    pages_in_lineage, with_page, FileStoredPage,
};

verus! {

/// How far the group that is being read has come.
#[derive(Clone, Copy, Debug, PartialEq, Eq)]
pub enum PageStoreGroupState {
    /// Between two groups.
    Idle,
    /// The snapshot header has been read, the required position is due.
    AwaitingRequiredPosition {
        header_offset: u64,
        sequence: u64,
        page_number: PageNumber,
        page_version: PageVersion,
    },
    /// The required position has been read, page data is due.
    AwaitingPageData {
        header_offset: u64,
        sequence: u64,
        page_number: PageNumber,
        page_version: PageVersion,
        required_position: u64,
        next_chunk_index: usize,
    },
}

/// What is known of the store after some of its frames.
#[derive(Debug)]
pub struct PageStoreOpenState<const N: usize> {
    pub layout: PageLayout,
    pub lineage: LogLineage,
    pub pages: Vec<FileStoredPage<N>>,
    pub next_sequence: Option<u64>,
    pub group_state: PageStoreGroupState,
    pub pending_bytes: [u8; N],
}

/// The index of the first page numbered `number`.
pub fn find_page<const N: usize>(pages: &Vec<FileStoredPage<N>>, number: PageNumber) -> (index:
    Option<usize>)
    ensures
        match page_index_from(page_models(pages@), number@, 0) {
            None => index is None,
            Some(expected) => index matches Some(actual) && actual == expected,
        },
        index matches Some(actual) ==> actual < pages@.len(),
{
    let mut index: usize = 0;
    while index < pages.len()
        invariant
            index <= pages@.len(),
            page_index_from(page_models(pages@), number@, 0) == page_index_from(
                page_models(pages@),
                number@,
                index as nat,
            ),
        decreases pages@.len() - index,
    {
        if pages[index].page_number().get() == number.get() {
            return Some(index);
        }
        index = index + 1;
    }
    None
}

/// Puts a page in the place of its earlier snapshot, or behind all others.
pub fn store_page<const N: usize>(pages: &mut Vec<FileStoredPage<N>>, page: FileStoredPage<N>)
    ensures
        page_models(final(pages)@) == with_page(page_models(old(pages)@), page@),
        forall|lineage: LogLineage|
            pages_in_lineage(old(pages)@, lineage) && page.spec_lineage() == lineage
                ==> #[trigger] pages_in_lineage(final(pages)@, lineage),
{
    let ghost before = pages@;
    let number: PageNumber = page.page_number();
    match find_page(pages, number) {
        Some(index) => {
            pages.set(index, page);
            assert(page_models(pages@) =~= page_models(before).update(index as int, page@));
        },
        None => {
            pages.push(page);
            assert(page_models(pages@) =~= page_models(before).push(page@));
        },
    }
}

/// The refusal for `reason`, found `delta` bytes into the frame at `offset`.
fn refused(offset: u64, delta: u64, reason: PageStoreFormatErrorReason) -> (result: Result<
    (),
    PageStoreOpenError,
>)
    requires
        offset + delta <= u64::MAX,
    ensures
        result == Err::<(), _>(
            PageStoreOpenError::Format(
                PageStoreFormatError { offset: (offset + delta) as u64, reason },
            ),
        ),
{
    Err(PageStoreOpenError::Format(PageStoreFormatError::new(offset + delta, reason)))
}

impl<const N: usize> PageStoreOpenState<N> {
    pub open spec fn view(&self) -> StoreScanModel {
        StoreScanModel {
            width: N as nat,
            pages: page_models(self.pages@),
            next_sequence: self.next_sequence,
            pending: match self.group_state {
                PageStoreGroupState::Idle => None,
                PageStoreGroupState::AwaitingRequiredPosition {
                    header_offset,
                    sequence,
                    page_number,
                    page_version,
                } => Some(
                    GroupModel {
                        header_offset,
                        sequence,
                        number: page_number@,
                        version: page_version.value,
                        position: None,
                        bytes: Seq::empty(),
                    },
                ),
                PageStoreGroupState::AwaitingPageData {
                    header_offset,
                    sequence,
                    page_number,
                    page_version,
                    required_position,
                    next_chunk_index,
                } => Some(
                    GroupModel {
                        header_offset,
                        sequence,
                        number: page_number@,
                        version: page_version.value,
                        position: Some(required_position),
                        bytes: self.pending_bytes@.take(8 * next_chunk_index as int),
                    },
                ),
            },
        }
    }

    pub open spec fn inv(&self) -> bool {
        &&& self.layout.is_for(N as nat)
        &&& N <= usize::MAX - 7
        &&& pages_in_lineage(self.pages@, self.lineage)
        &&& numbers_distinct(page_models(self.pages@))
        &&& self.group_state matches PageStoreGroupState::AwaitingPageData {
            next_chunk_index,
            ..
        } ==> next_chunk_index < self.layout.chunk_count
    }

    /// The state before the first frame.
    pub fn new(layout: PageLayout, lineage: LogLineage) -> (state: PageStoreOpenState<N>)
        requires
            layout.is_for(N as nat),
            N <= usize::MAX - 7,
        ensures
            state.inv(),
            state.lineage == lineage,
            state@ == StoreScanModel::initial(N as nat),
    {
        let state: PageStoreOpenState<N> = PageStoreOpenState {
            layout,
            lineage,
            pages: Vec::new(),
            next_sequence: Some(1),
            group_state: PageStoreGroupState::Idle,
            pending_bytes: [0u8; N],
        };
        assert(state@.pages =~= Seq::empty());
        state
    }

    /// The offset of the header of the group that is being read.
    pub fn pending_group_header_offset(&self) -> (offset: Option<u64>)
        ensures
            offset == match self@.pending {
                Some(pending) => Some(pending.header_offset),
                None => None::<u64>,
            },
    {
        match self.group_state {
            PageStoreGroupState::Idle => None,
            PageStoreGroupState::AwaitingRequiredPosition { header_offset, .. }
            | PageStoreGroupState::AwaitingPageData { header_offset, .. } => Some(header_offset),
        }
    }

    /// Whether a call with the given outcome obeyed `expected`, the meaning of the
    /// frame; a page for which there is no room is refused.
    pub open spec fn obeys(
        before: PageStoreOpenState<N>,
        after: PageStoreOpenState<N>,
        expected: Result<StoreScanModel, PageStoreFormatError>,
        has_room: bool,
        result: Result<(), PageStoreOpenError>,
    ) -> bool {
        &&& after.lineage == before.lineage
        &&& match expected {
            Err(error) => {
                &&& result == Err::<(), _>(PageStoreOpenError::Format(error))
                &&& after@ == before@
            },
            Ok(next) => if next.pages.len() > before@.pages.len() && !has_room {
                result == Err::<(), _>(PageStoreOpenError::SnapshotCapacityExhausted) && after@
                    == before@
            } else {
                result == Ok::<_, PageStoreOpenError>(()) && after@ == next
            },
        }
    }

    /// Applies the frame at `offset`. `has_room` says whether another page can be
    /// kept.
    pub fn apply_frame(&mut self, frame: DecodedPageStoreFrame, offset: u64, has_room: bool) -> (result:
        Result<(), PageStoreOpenError>)
        requires
            old(self).inv(),
            offset + 32 <= u64::MAX,
        ensures
            final(self).inv(),
            Self::obeys(
                *old(self),
                *final(self),
                store_step(old(self)@, frame@, offset),
                has_room,
                result,
            ),
    {
        match self.group_state {
            PageStoreGroupState::Idle => self.apply_idle_frame(frame, offset),
            PageStoreGroupState::AwaitingRequiredPosition { .. } => {
                self.apply_awaiting_required_position_frame(frame, offset)
            },
            PageStoreGroupState::AwaitingPageData { .. } => {
                self.apply_awaiting_page_data_frame(frame, offset, has_room)
            },
        }
    }

    fn apply_idle_frame(&mut self, frame: DecodedPageStoreFrame, offset: u64) -> (result: Result<
        (),
        PageStoreOpenError,
    >)
        requires
            old(self).inv(),
            old(self).group_state is Idle,
            offset + 32 <= u64::MAX,
        ensures
            final(self).inv(),
            Self::obeys(
                *old(self),
                *final(self),
                store_step(old(self)@, frame@, offset),
                true,
                result,
            ),
    {
        if frame.kind != PageStoreFrameKind::SnapshotHeader {
            return refused(offset, 4, PageStoreFormatErrorReason::PageDataWithoutHeader);
        }
        if frame.payload_a == 0 {
            return refused(offset, 16, PageStoreFormatErrorReason::SnapshotSequenceZero);
        }
        let expected: u64 = match self.next_sequence {
            Some(sequence) => sequence,
            None => {
                return refused(
                    offset,
                    16,
                    PageStoreFormatErrorReason::SnapshotSequenceSpaceExhausted,
                );
            },
        };
        if frame.payload_a != expected {
            return refused(
                offset,
                16,
                PageStoreFormatErrorReason::SnapshotSequenceOutOfOrder {
                    expected,
                    actual: frame.payload_a,
                },
            );
        }
        let page_number: PageNumber = match PageNumber::new(frame.payload_b) {
            Some(number) => number,
            None => {
                return refused(offset, 24, PageStoreFormatErrorReason::SnapshotPageNumberZero);
            },
        };
        self.group_state = PageStoreGroupState::AwaitingRequiredPosition {
            header_offset: offset,
            sequence: frame.payload_a,
            page_number,
            page_version: PageVersion::new(frame.payload_c),
        };
        Ok(())
    }

    fn apply_awaiting_required_position_frame(
        &mut self,
        frame: DecodedPageStoreFrame,
        offset: u64,
    ) -> (result: Result<(), PageStoreOpenError>)
        requires
            old(self).inv(),
            old(self).group_state is AwaitingRequiredPosition,
            offset + 32 <= u64::MAX,
        ensures
            final(self).inv(),
            Self::obeys(
                *old(self),
                *final(self),
                store_step(old(self)@, frame@, offset),
                true,
                result,
            ),
    {
        let (header_offset, sequence, page_number, page_version): (
            u64,
            u64,
            PageNumber,
            PageVersion,
        ) = match self.group_state {
            PageStoreGroupState::AwaitingRequiredPosition {
                header_offset,
                sequence,
                page_number,
                page_version,
            } => (header_offset, sequence, page_number, page_version),
            _ => {
                return refused(offset, 4, PageStoreFormatErrorReason::PageDataWithoutHeader);
            },
        };
        if frame.kind != PageStoreFrameKind::RequiredPosition {
            return refused(
                offset,
                4,
                PageStoreFormatErrorReason::UnexpectedKindAfterHeader {
                    actual: frame.kind.code(),
                },
            );
        }
        if frame.payload_a != sequence {
            return refused(
                offset,
                16,
                PageStoreFormatErrorReason::RequiredPositionSequenceMismatch {
                    expected: sequence,
                    actual: frame.payload_a,
                },
            );
        }
        if frame.payload_b == 0 {
            return refused(offset, 24, PageStoreFormatErrorReason::RequiredPositionZero);
        }
        if frame.payload_c != 0 {
            return refused(
                offset,
                32,
                PageStoreFormatErrorReason::RequiredPositionPayloadCNonzero {
                    actual: frame.payload_c,
                },
            );
        }
        self.group_state = PageStoreGroupState::AwaitingPageData {
            header_offset,
            sequence,
            page_number,
            page_version,
            required_position: frame.payload_b,
            next_chunk_index: 0,
        };
        assert(self.pending_bytes@.take(0) =~= Seq::empty());
        Ok(())
    }

    /// Copies the page bytes of the next chunk into place.
    fn copy_chunk(&mut self, chunk: [u8; 8], start: usize, logical_len: usize)
        requires
            start + logical_len <= N,
            logical_len <= 8,
        ensures
            final(self).layout == old(self).layout,
            final(self).lineage == old(self).lineage,
            final(self).pages == old(self).pages,
            final(self).next_sequence == old(self).next_sequence,
            final(self).group_state == old(self).group_state,
            final(self).pending_bytes@.take(start + logical_len) == old(self).pending_bytes@.take(
                start as int,
            ) + chunk@.take(logical_len as int),
    {
        let ghost before = self.pending_bytes@;
        let mut index: usize = 0;
        while index < logical_len
            invariant
                index <= logical_len <= 8,
                start + logical_len <= N,
                before.len() == N,
                self.layout == old(self).layout,
                self.lineage == old(self).lineage,
                self.pages == old(self).pages,
                self.next_sequence == old(self).next_sequence,
                self.group_state == old(self).group_state,
                forall|i: int| 0 <= i < start ==> self.pending_bytes@[i] == before[i],
                forall|i: int| 0 <= i < index ==> self.pending_bytes@[start + i] == chunk@[i],
            decreases logical_len - index,
        {
            self.pending_bytes[start + index] = chunk[index];
            index = index + 1;
        }
        proof {
            let read = before.take(start as int) + chunk@.take(logical_len as int);
            assert forall|i: int| 0 <= i < read.len() implies self.pending_bytes@.take(
                start + logical_len,
            )[i] == read[i] by {
                if i >= start {
                    assert(self.pending_bytes@[start + (i - start)] == chunk@[i - start]);
                }
            }
            assert(self.pending_bytes@.take(start + logical_len) =~= read);
        }
    }

    fn apply_awaiting_page_data_frame(
        &mut self,
        frame: DecodedPageStoreFrame,
        offset: u64,
        has_room: bool,
    ) -> (result: Result<(), PageStoreOpenError>)
        requires
            old(self).inv(),
            old(self).group_state is AwaitingPageData,
            offset + 32 <= u64::MAX,
        ensures
            final(self).inv(),
            Self::obeys(
                *old(self),
                *final(self),
                store_step(old(self)@, frame@, offset),
                has_room,
                result,
            ),
    {
        let (
            header_offset,
            sequence,
            page_number,
            page_version,
            required_position,
            next_chunk_index,
        ): (u64, u64, PageNumber, PageVersion, u64, usize) = match self.group_state {
            PageStoreGroupState::AwaitingPageData {
                header_offset,
                sequence,
                page_number,
                page_version,
                required_position,
                next_chunk_index,
            } => (
                header_offset,
                sequence,
                page_number,
                page_version,
                required_position,
                next_chunk_index,
            ),
            _ => {
                return refused(offset, 4, PageStoreFormatErrorReason::PageDataWithoutHeader);
            },
        };
        if frame.kind != PageStoreFrameKind::PageData {
            return refused(
                offset,
                4,
                PageStoreFormatErrorReason::UnexpectedKindAfterRequiredPosition {
                    actual: frame.kind.code(),
                },
            );
        }
        if frame.payload_a != sequence {
            return refused(
                offset,
                16,
                PageStoreFormatErrorReason::PageDataSequenceMismatch {
                    expected: sequence,
                    actual: frame.payload_a,
                },
            );
        }
        let expected_chunk: u64 = next_chunk_index as u64;
        if frame.payload_b != expected_chunk {
            return refused(
                offset,
                24,
                PageStoreFormatErrorReason::PageDataChunkIndexOutOfSequence {
                    expected: expected_chunk,
                    actual: frame.payload_b,
                },
            );
        }
        let logical_len: usize = self.layout.logical_bytes_for_chunk(next_chunk_index);
        let ghost pending = self@.pending->0;
        assert(pending.bytes.len() == 8 * next_chunk_index);
        assert(logical_len == pending.next_len(N as nat));
        if !is_zero_range(&frame.payload_c_bytes, logical_len, 8) {
            assert(exists|i: int| logical_len <= i < 8 && #[trigger] frame@.payload_c_bytes[i] != 0);
            return refused(offset, 32, PageStoreFormatErrorReason::PageDataFinalPaddingNonzero);
        }
        assert(store_step_error(self@, frame@, offset) is None);
        let start: usize = next_chunk_index * 8;
        let ghost read = pending.bytes + frame.payload_c_bytes@.take(logical_len as int);
        let complete: bool = next_chunk_index + 1 == self.layout.chunk_count;
        assert(complete == (read.len() == N));
        if complete && !has_room && find_page(&self.pages, page_number).is_none() {
            return Err(PageStoreOpenError::SnapshotCapacityExhausted);
        }
        self.copy_chunk(frame.payload_c_bytes, start, logical_len);
        if complete {
            assert(self.pending_bytes@ =~= read);
            let stored: FileStoredPage<N> = FileStoredPage::new(
                page_number,
                page_version,
                self.pending_bytes,
                self.lineage.position(required_position),
                sequence,
            );
            assert(stored@ =~= pending.completed(read));
            proof {
                law_write_replaces_only_its_page(page_models(self.pages@), stored@, 0);
            }
            store_page(&mut self.pages, stored);
            self.next_sequence = sequence.checked_add(1);
            self.group_state = PageStoreGroupState::Idle;
        } else {
            self.group_state = PageStoreGroupState::AwaitingPageData {
                header_offset,
                sequence,
                page_number,
                page_version,
                required_position,
                next_chunk_index: next_chunk_index + 1,
            };
        }
        Ok(())
    }

    /// Applies every complete frame of `bytes` from `start` on.
    ///
    /// Running out of memory for another page depends on the machine; any other
    /// outcome is the one that [`store_scan`] gives.
    pub fn scan_frames(&mut self, bytes: &[u8], start: usize) -> (result: Result<
        (),
        PageStoreOpenError,
    >)
        requires
            old(self).inv(),
            start <= bytes@.len(),
        ensures
            final(self).inv(),
            final(self).lineage == old(self).lineage,
            match result {
                Ok(()) => store_scan(old(self)@, bytes@, start as nat) == Ok::<
                    StoreScanModel,
                    PageStoreFormatError,
                >(final(self)@),
                Err(PageStoreOpenError::Format(error)) => store_scan(
                    old(self)@,
                    bytes@,
                    start as nat,
                ) == Err::<StoreScanModel, _>(error),
                Err(error) => {
                    &&& error == PageStoreOpenError::SnapshotCapacityExhausted
                    &&& comes_to_a_page(old(self)@, bytes@, start as nat)
                },
            },
    {
        let total: usize = bytes.len();
        let mut offset: usize = start;
        while total - offset >= FRAME_LENGTH
            invariant
                self.inv(),
                self.lineage == old(self).lineage,
                start <= offset <= total == bytes@.len(),
                store_scan(old(self)@, bytes@, start as nat) == store_scan(
                    self@,
                    bytes@,
                    offset as nat,
                ),
                self@.pages.len() >= old(self)@.pages.len(),
                forall|end: int|
                    offset <= end <= total ==> #[trigger] store_scan(
                        old(self)@,
                        bytes@.take(end),
                        start as nat,
                    ) == store_scan(self@, bytes@.take(end), offset as nat),
            decreases total - offset,
        {
            let frame_slice: &[u8] = &bytes[offset..offset + FRAME_LENGTH];
            let frame: DecodedPageStoreFrame = match parse_page_store_frame(
                frame_slice,
                offset as u64,
            ) {
                Ok(frame) => frame,
                Err(error) => {
                    return Err(PageStoreOpenError::Format(error));
                },
            };
            let has_room: bool = self.pages.try_reserve(1).is_ok();
            let ghost before = self@;
            proof {
                lemma_store_step_keeps_pages(before, frame@, offset as u64);
                if let Ok(next) = store_step(before, frame@, offset as u64) {
                    assert forall|end: int| offset + 56 <= end <= total implies store_scan(
                        before,
                        bytes@.take(end),
                        offset as nat,
                    ) == #[trigger] store_scan(next, bytes@.take(end), offset as nat + 56) by {
                        lemma_store_scan_of_prefix(
                            before,
                            frame@,
                            next,
                            bytes@,
                            offset as nat,
                            end,
                        );
                    }
                }
            }
            match self.apply_frame(frame, offset as u64, has_room) {
                Ok(()) => {},
                Err(error) => {
                    proof {
                        if let Ok(next) = store_step(before, frame@, offset as u64) {
                            let end = offset as int + 56;
                            assert(store_scan(next, bytes@.take(end), offset as nat + 56) == Ok::<
                                _,
                                PageStoreFormatError,
                            >(next));
                            assert(adds_a_page(old(self)@, bytes@.take(end), start as nat));
                        }
                    }
                    return Err(error);
                },
            }
            offset = offset + FRAME_LENGTH;
        }
        Ok(())
    }
}

} // verus!
