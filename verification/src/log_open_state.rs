//! The frame-by-frame reconstruction of a commit log from its file.
use vstd::prelude::*;

use crate::bytes::is_zero_range;
use crate::format::{LogFormat, PageLayout, FRAME_LENGTH};
use crate::identity::{LogLineage, PageNumber, PageVersion};
use crate::log_error::{FileFormatError, FileFormatErrorReason, FileOpenError, FramePayloadField};
use crate::log_frame::{parse_frame, DecodedFrame, FrameKind};
use crate::log_record::{
    contains_commit, record_models, records_in_lineage, FileLogRecord, FileLogRecordKind,
    FilePageWriteRecord, FileTransactionPageWriteRecord, StoredTransactionIdentity,
};
use crate::log_replay::{lemma_step_sound, sound_from};
use crate::log_scan::{
    adds_a_record, comes_to_a_record, completed_record, lemma_scan_of_prefix, position_index, scan,
    step, step_error, successor, PendingModel, PendingOwner, ScanModel,
};

verus! {

/// Who owns the page group that is being read.
#[derive(Clone, Copy, Debug, PartialEq, Eq, Structural)]
pub enum PendingPageOwnership {
    Raw,
    AwaitingOwner,
    Owned(StoredTransactionIdentity),
}

impl PendingPageOwnership {
    pub open spec fn view(&self) -> PendingOwner {
        match self {
            PendingPageOwnership::Raw => PendingOwner::Raw,
            PendingPageOwnership::AwaitingOwner => PendingOwner::Awaiting,
            PendingPageOwnership::Owned(owner) => PendingOwner::Owned {
                epoch: owner.epoch,
                sequence: owner.sequence,
            },
        }
    }
}

/// A page group whose header has been read and whose data is incomplete.
#[derive(Debug)]
pub struct PendingPageRecord<const N: usize> {
    pub header_offset: u64,
    pub position: u64,
    pub page_number: PageNumber,
    pub page_version: PageVersion,
    pub ownership: PendingPageOwnership,
    pub bytes: [u8; N],
    pub next_chunk_index: usize,
}

impl<const N: usize> PendingPageRecord<N> {
    pub open spec fn view(&self) -> PendingModel {
        PendingModel {
            header_offset: self.header_offset,
            position: self.position,
            number: self.page_number@,
            version: self.page_version.value,
            owner: self.ownership@,
            bytes: self.bytes@.take(8 * self.next_chunk_index),
        }
    }

    pub open spec fn inv(&self) -> bool {
        8 * self.next_chunk_index < N
    }

    fn new(
        header_offset: u64,
        position: u64,
        page_number: PageNumber,
        page_version: PageVersion,
        ownership: PendingPageOwnership,
    ) -> (pending: PendingPageRecord<N>)
        requires
            N > 0,
        ensures
            pending.inv(),
            pending@ == (PendingModel {
                header_offset,
                position,
                number: page_number@,
                version: page_version.value,
                owner: ownership@,
                bytes: Seq::empty(),
            }),
    {
        let pending: PendingPageRecord<N> = PendingPageRecord {
            header_offset,
            position,
            page_number,
            page_version,
            ownership,
            bytes: [0u8; N],
            next_chunk_index: 0,
        };
        assert(pending@.bytes =~= Seq::empty());
        pending
    }

    /// Copies the page bytes of the next chunk into place.
    fn copy_chunk(&mut self, chunk: [u8; 8])
        requires
            old(self).inv(),
        ensures
            final(self).next_chunk_index == old(self).next_chunk_index + 1,
            final(self).header_offset == old(self).header_offset,
            final(self).position == old(self).position,
            final(self).page_number == old(self).page_number,
            final(self).page_version == old(self).page_version,
            final(self).ownership == old(self).ownership,
            ({
                let read = old(self)@.bytes + chunk@.take(old(self)@.next_len(N as nat) as int);
                final(self).bytes@.take(read.len() as int) == read
            }),
    {
        let start: usize = self.next_chunk_index * 8;
        let logical_len: usize = if N - start < 8 {
            N - start
        } else {
            8
        };
        let mut index: usize = 0;
        let ghost before = self.bytes@;
        while index < logical_len
            invariant
                index <= logical_len <= 8,
                start + logical_len <= N,
                before.len() == N,
                start == 8 * self.next_chunk_index,
                self.next_chunk_index == old(self).next_chunk_index,
                self.header_offset == old(self).header_offset,
                self.position == old(self).position,
                self.page_number == old(self).page_number,
                self.page_version == old(self).page_version,
                self.ownership == old(self).ownership,
                forall|i: int| 0 <= i < start ==> self.bytes@[i] == before[i],
                forall|i: int| 0 <= i < index ==> self.bytes@[start + i] == chunk@[i],
            decreases logical_len - index,
        {
            self.bytes[start + index] = chunk[index];
            index = index + 1;
        }
        proof {
            let read = old(self)@.bytes + chunk@.take(old(self)@.next_len(N as nat) as int);
            assert(read.len() == start + logical_len);
            assert forall|i: int| 0 <= i < read.len() implies self.bytes@.take(read.len() as int)[i]
                == read[i] by {
                if i >= start {
                    assert(self.bytes@[start + (i - start)] == chunk@[i - start]);
                }
            }
            assert(self.bytes@.take(read.len() as int) =~= read);
        }
        self.next_chunk_index = self.next_chunk_index + 1;
    }

    /// The finished record, once every page byte has been read.
    fn into_record(self, lineage: &LogLineage) -> (record: FileLogRecord<N>)
        requires
            !(self.ownership is AwaitingOwner),
        ensures
            record@ == completed_record(self@, self.bytes@),
            record.spec_lineage() == *lineage,
    {
        let page: FilePageWriteRecord<N> = FilePageWriteRecord::new(
            self.page_number,
            self.page_version,
            self.bytes,
        );
        let kind: FileLogRecordKind<N> = match self.ownership {
            PendingPageOwnership::Raw | PendingPageOwnership::AwaitingOwner => {
                FileLogRecordKind::PageWrite(page)
            },
            PendingPageOwnership::Owned(owner) => {
                FileLogRecordKind::TransactionPageWrite(
                    FileTransactionPageWriteRecord::new(owner, page),
                )
            },
        };
        FileLogRecord::new(lineage.position(self.position), kind)
    }
}

/// What is known of the log after some of its frames.
#[derive(Debug)]
pub struct OpenState<const N: usize> {
    pub lineage: LogLineage,
    pub page_layout: Option<PageLayout>,
    pub records: Vec<FileLogRecord<N>>,
    pub durable_len: usize,
    pub last_durable_position: Option<u64>,
    pub last_completed_position: u64,
    pub highest_allocated_epoch: u64,
    pub next_epoch: Option<u64>,
    pub next_position: Option<u64>,
    pub pending_page: Option<PendingPageRecord<N>>,
}

fn successor_of(value: u64) -> (next: Option<u64>)
    ensures
        next == successor(value),
{
    value.checked_add(1)
}

impl<const N: usize> OpenState<N> {
    pub open spec fn view(&self) -> ScanModel {
        ScanModel {
            has_layout: self.page_layout is Some,
            width: N as nat,
            records: record_models(self.records@),
            durable_len: self.durable_len as nat,
            last_durable: self.last_durable_position,
            last_completed: self.last_completed_position,
            highest_epoch: self.highest_allocated_epoch,
            next_epoch: self.next_epoch,
            next_position: self.next_position,
            pending: match self.pending_page {
                Some(pending) => Some(pending@),
                None => None,
            },
        }
    }

    pub open spec fn inv(&self) -> bool {
        &&& self@.wf()
        &&& self.page_layout matches Some(layout) ==> layout.is_for(N as nat)
        &&& records_in_lineage(self.records@, self.lineage)
        &&& self.pending_page matches Some(pending) ==> pending.inv()
    }

    /// The state before the first frame.
    pub fn new(
        lineage: LogLineage,
        page_layout: Option<PageLayout>,
        highest_allocated_epoch: u64,
        next_position: Option<u64>,
        last_completed_position: u64,
        last_durable_position: Option<u64>,
    ) -> (state: OpenState<N>)
        requires
            page_layout matches Some(layout) ==> layout.is_for(N as nat) && N <= usize::MAX - 7,
        ensures
            state.inv(),
            state.lineage == lineage,
            state.page_layout == page_layout,
            state@ == ScanModel::initial(
                page_layout is Some,
                N as nat,
                highest_allocated_epoch,
                next_position,
                last_completed_position,
                last_durable_position,
            ),
            sound_from(state@, state@),
    {
        let state: OpenState<N> = OpenState {
            lineage,
            page_layout,
            records: Vec::new(),
            durable_len: 0,
            last_durable_position,
            last_completed_position,
            highest_allocated_epoch,
            next_epoch: successor_of(highest_allocated_epoch),
            next_position,
            pending_page: None,
        };
        assert(state@.records =~= Seq::empty());
        state
    }

    /// The offset of the header of the group that is being read.
    pub fn pending_page_header_offset(&self) -> (offset: Option<u64>)
        ensures
            offset == match self@.pending {
                Some(pending) => Some(pending.header_offset),
                None => None::<u64>,
            },
    {
        match &self.pending_page {
            Some(pending) => Some(pending.header_offset),
            None => None,
        }
    }

    /// Whether a call with the given outcome obeyed `expected`, the meaning of
    /// the frame; a record for which there is no room is refused.
    pub open spec fn obeys(
        before: OpenState<N>,
        after: OpenState<N>,
        expected: Result<ScanModel, FileFormatError>,
        has_room: bool,
        result: Result<(), FileOpenError>,
    ) -> bool {
        &&& after.lineage == before.lineage
        &&& after.page_layout == before.page_layout
        &&& match expected {
            Err(error) => result == Err::<(), _>(FileOpenError::Format(error)) && after@ == before@,
            Ok(next) => if next.records.len() > before@.records.len() && !has_room {
                result == Err::<(), _>(FileOpenError::RecordCapacityExhausted) && after@ == before@
            } else {
                result == Ok::<_, FileOpenError>(()) && after@ == next
            },
        }
    }
}

/// The refusal for `reason`, found `delta` bytes into the frame at `offset`.
fn refused(offset: u64, delta: u64, reason: FileFormatErrorReason) -> (result: Result<
    (),
    FileOpenError,
>)
    requires
        offset + delta <= u64::MAX,
    ensures
        result == Err::<(), _>(
            FileOpenError::Format(FileFormatError { offset: (offset + delta) as u64, reason }),
        ),
{
    Err(FileOpenError::Format(FileFormatError::new(offset + delta, reason)))
}

/// The index of the first record at `position`.
pub fn find_position<const N: usize>(records: &Vec<FileLogRecord<N>>, position: u64) -> (index:
    Option<usize>)
    ensures
        match position_index(record_models(records@), position, 0) {
            None => index is None,
            Some(expected) => index matches Some(actual) && actual == expected,
        },
        index matches Some(actual) ==> actual < records@.len() && actual < usize::MAX,
{
    let mut index: usize = 0;
    while index < records.len()
        invariant
            index <= records@.len(),
            position_index(record_models(records@), position, 0) == position_index(
                record_models(records@),
                position,
                index as nat,
            ),
        decreases records@.len() - index,
    {
        if records[index].position().get() == position {
            return Some(index);
        }
        index = index + 1;
    }
    None
}

/// Whether some record commits the given transaction.
pub fn has_commit<const N: usize>(
    records: &Vec<FileLogRecord<N>>,
    identity: StoredTransactionIdentity,
) -> (found: bool)
    ensures
        found == contains_commit(record_models(records@), identity.epoch, identity.sequence),
{
    let mut index: usize = 0;
    while index < records.len()
        invariant
            index <= records@.len(),
            forall|i: int|
                0 <= i < index ==> !(#[trigger] record_models(records@)[i]).is_commit_of(
                    identity.epoch,
                    identity.sequence,
                ),
        decreases records@.len() - index,
    {
        assert(record_models(records@)[index as int] == records@[index as int]@);
        match records[index].transaction_identity() {
            Some(found) => {
                if found.epoch == identity.epoch && found.sequence == identity.sequence {
                    return true;
                }
            },
            None => {},
        }
        index = index + 1;
    }
    false
}

impl<const N: usize> OpenState<N> {
    /// Applies the frame at `offset`. `has_room` says whether another record can
    /// be kept.
    ///
    /// Whatever comes back, a state that is sound stays sound.
    pub fn apply_frame(&mut self, frame: DecodedFrame, offset: u64, has_room: bool) -> (result:
        Result<(), FileOpenError>)
        requires
            old(self).inv(),
            offset + 32 <= u64::MAX,
        ensures
            final(self).inv(),
            Self::obeys(*old(self), *final(self), step(old(self)@, frame@, offset), has_room, result),
            forall|start: ScanModel| #[trigger]
                sound_from(start, old(self)@) ==> sound_from(start, final(self)@),
    {
        let result: Result<(), FileOpenError> = if self.pending_page.is_some() {
            self.apply_pending_page_frame(frame, offset, has_room)
        } else {
            self.apply_idle_frame(frame, offset, has_room)
        };
        proof {
            assert forall|start: ScanModel| #[trigger]
                sound_from(start, old(self)@) implies sound_from(start, self@) by {
                if result is Ok {
                    lemma_step_sound(start, old(self)@, frame@, offset);
                }
            }
        }
        result
    }

    fn apply_idle_frame(&mut self, frame: DecodedFrame, offset: u64, has_room: bool) -> (result:
        Result<(), FileOpenError>)
        requires
            old(self).inv(),
            old(self).pending_page is None,
            offset + 32 <= u64::MAX,
        ensures
            final(self).inv(),
            Self::obeys(*old(self), *final(self), step(old(self)@, frame@, offset), has_room, result),
    {
        match frame.kind {
            FrameKind::EpochAllocation => self.apply_epoch_frame(frame, offset),
            FrameKind::CommitRecord => self.apply_commit_frame(frame, offset, has_room),
            FrameKind::DurableThrough => self.apply_marker_frame(frame, offset),
            FrameKind::PageHeader => {
                self.apply_page_header_frame(frame, offset, PendingPageOwnership::Raw)
            },
            FrameKind::TransactionPageHeader => {
                self.apply_page_header_frame(frame, offset, PendingPageOwnership::AwaitingOwner)
            },
            FrameKind::TransactionPageOwner => {
                refused(offset, 4, FileFormatErrorReason::TransactionPageOwnerWithoutHeader)
            },
            FrameKind::PageData => {
                refused(offset, 4, FileFormatErrorReason::PageDataWithoutHeader)
            },
        }
    }

    fn apply_pending_page_frame(&mut self, frame: DecodedFrame, offset: u64, has_room: bool) -> (result:
        Result<(), FileOpenError>)
        requires
            old(self).inv(),
            old(self).pending_page is Some,
            offset + 32 <= u64::MAX,
        ensures
            final(self).inv(),
            Self::obeys(*old(self), *final(self), step(old(self)@, frame@, offset), has_room, result),
    {
        let ownership: PendingPageOwnership = match &self.pending_page {
            Some(pending) => pending.ownership,
            None => {
                return refused(offset, 4, FileFormatErrorReason::PageDataWithoutHeader);
            },
        };
        match ownership {
            PendingPageOwnership::AwaitingOwner => {
                self.apply_pending_transaction_page_owner(frame, offset)
            },
            PendingPageOwnership::Raw => {
                if frame.kind == FrameKind::TransactionPageOwner {
                    return refused(
                        offset,
                        4,
                        FileFormatErrorReason::TransactionPageOwnerWithoutHeader,
                    );
                }
                self.apply_pending_page_data_frame(frame, offset, has_room)
            },
            PendingPageOwnership::Owned(_) => {
                if frame.kind == FrameKind::TransactionPageOwner {
                    return refused(
                        offset,
                        4,
                        FileFormatErrorReason::TransactionPageOwnerDuplicate,
                    );
                }
                self.apply_pending_page_data_frame(frame, offset, has_room)
            },
        }
    }

    fn apply_pending_transaction_page_owner(&mut self, frame: DecodedFrame, offset: u64) -> (result:
        Result<(), FileOpenError>)
        requires
            old(self).inv(),
            old(self).pending_page matches Some(pending) && pending.ownership is AwaitingOwner,
            offset + 32 <= u64::MAX,
        ensures
            final(self).inv(),
            Self::obeys(*old(self), *final(self), step(old(self)@, frame@, offset), true, result),
    {
        if frame.kind != FrameKind::TransactionPageOwner {
            return refused(
                offset,
                4,
                FileFormatErrorReason::TransactionPageOwnerInterruptedByFrameKind {
                    actual: frame.kind.code(),
                },
            );
        }
        let pending_position: u64 = match &self.pending_page {
            Some(pending) => pending.position,
            None => {
                return refused(offset, 4, FileFormatErrorReason::TransactionPageOwnerWithoutHeader);
            },
        };
        if frame.payload0 == 0 {
            return refused(
                offset,
                16,
                FileFormatErrorReason::TransactionPageOwnerParentPositionZero,
            );
        }
        if frame.payload0 != pending_position {
            return refused(
                offset,
                16,
                FileFormatErrorReason::TransactionPageOwnerParentMismatch {
                    expected: pending_position,
                    actual: frame.payload0,
                },
            );
        }
        if frame.payload1 == 0 {
            return refused(offset, 24, FileFormatErrorReason::TransactionPageOwnerEpochZero);
        }
        if frame.payload1 > self.highest_allocated_epoch {
            return refused(
                offset,
                24,
                FileFormatErrorReason::TransactionPageOwnerEpochUnallocated {
                    actual: frame.payload1,
                    highest_allocated: self.highest_allocated_epoch,
                },
            );
        }
        if frame.payload2 == 0 {
            return refused(offset, 32, FileFormatErrorReason::TransactionPageOwnerSequenceZero);
        }
        let owner: StoredTransactionIdentity = StoredTransactionIdentity::from_epoch_sequence(
            frame.payload1,
            frame.payload2,
        );
        match self.pending_page.take() {
            Some(mut pending) => {
                pending.ownership = PendingPageOwnership::Owned(owner);
                self.pending_page = Some(pending);
            },
            None => {},
        }
        Ok(())
    }

    /// Applies a frame that stands where data of the page that is being read has to
    /// stand.
    pub fn apply_pending_page_data_frame(
        &mut self,
        frame: DecodedFrame,
        offset: u64,
        has_room: bool,
    ) -> (result: Result<(), FileOpenError>)
        requires
            old(self).inv(),
            old(self).pending_page matches Some(pending) && !(pending.ownership is AwaitingOwner),
            frame.kind != FrameKind::TransactionPageOwner,
            offset + 32 <= u64::MAX,
        ensures
            final(self).inv(),
            Self::obeys(*old(self), *final(self), step(old(self)@, frame@, offset), has_room, result),
    {
        if frame.kind != FrameKind::PageData {
            return refused(
                offset,
                4,
                FileFormatErrorReason::PageDataInterruptedByFrameKind {
                    actual: frame.kind.code(),
                },
            );
        }
        let (position, chunk_index): (u64, usize) = match &self.pending_page {
            Some(pending) => (pending.position, pending.next_chunk_index),
            None => {
                return refused(offset, 4, FileFormatErrorReason::PageDataWithoutHeader);
            },
        };
        let layout: PageLayout = match self.page_layout {
            Some(layout) => layout,
            None => {
                return refused(offset, 32, FileFormatErrorReason::PageDataWithoutHeader);
            },
        };
        if frame.payload0 == 0 {
            return refused(offset, 16, FileFormatErrorReason::PageDataParentPositionZero);
        }
        if frame.payload0 != position {
            return refused(
                offset,
                16,
                FileFormatErrorReason::PageDataParentMismatch {
                    expected: position,
                    actual: frame.payload0,
                },
            );
        }
        let expected_chunk_index: u64 = chunk_index as u64;
        if frame.payload1 != expected_chunk_index {
            return refused(
                offset,
                24,
                FileFormatErrorReason::PageDataChunkIndexOutOfSequence {
                    expected: expected_chunk_index,
                    actual: frame.payload1,
                },
            );
        }
        let logical_len: usize = layout.logical_bytes_for_chunk(chunk_index);
        assert(logical_len == self@.pending->0.next_len(N as nat));
        if !is_zero_range(&frame.payload2_bytes, logical_len, 8) {
            assert(exists|i: int| logical_len <= i < 8 && #[trigger] frame@.payload2_bytes[i] != 0);
            return refused(offset, 32, FileFormatErrorReason::PageDataFinalPaddingNonzero);
        }
        let complete: bool = chunk_index + 1 == layout.chunk_count;
        let ghost pending_before = self@.pending->0;
        let ghost read = pending_before.bytes + frame.payload2_bytes@.take(logical_len as int);
        assert(step_error(self@, frame@, offset) is None);
        assert(complete == (read.len() == N));
        if complete && !has_room {
            return Err(FileOpenError::RecordCapacityExhausted);
        }
        match self.pending_page.take() {
            Some(mut pending) => {
                pending.copy_chunk(frame.payload2_bytes);
                assert(pending.bytes@.take(read.len() as int) == read);
                if complete {
                    assert(pending.bytes@ =~= read);
                    let record: FileLogRecord<N> = pending.into_record(&self.lineage);
                    self.last_completed_position = position;
                    self.next_position = successor_of(position);
                    let ghost records_before = self.records@;
                    self.records.push(record);
                    assert(record_models(self.records@) =~= record_models(records_before).push(
                        completed_record(pending_before, read),
                    ));
                } else {
                    assert(read.len() == 8 * (chunk_index + 1));
                    self.pending_page = Some(pending);
                }
            },
            None => {},
        }
        Ok(())
    }

    fn apply_epoch_frame(&mut self, frame: DecodedFrame, offset: u64) -> (result: Result<
        (),
        FileOpenError,
    >)
        requires
            old(self).inv(),
            old(self).pending_page is None,
            frame.kind == FrameKind::EpochAllocation,
            offset + 32 <= u64::MAX,
        ensures
            final(self).inv(),
            Self::obeys(*old(self), *final(self), step(old(self)@, frame@, offset), true, result),
    {
        if frame.payload0 == 0 {
            return refused(offset, 16, FileFormatErrorReason::EpochValueZero);
        }
        if frame.payload1 != 0 {
            return refused(
                offset,
                24,
                FileFormatErrorReason::UnexpectedNonzeroPayload {
                    field: FramePayloadField::Payload1,
                    actual: frame.payload1,
                },
            );
        }
        if frame.payload2 != 0 {
            return refused(
                offset,
                32,
                FileFormatErrorReason::UnexpectedNonzeroPayload {
                    field: FramePayloadField::Payload2,
                    actual: frame.payload2,
                },
            );
        }
        let expected: u64 = match self.next_epoch {
            Some(epoch) => epoch,
            None => {
                return refused(offset, 16, FileFormatErrorReason::EpochSpaceExhausted);
            },
        };
        if frame.payload0 != expected {
            return refused(
                offset,
                16,
                FileFormatErrorReason::EpochOutOfSequence { expected, actual: frame.payload0 },
            );
        }
        self.highest_allocated_epoch = frame.payload0;
        self.next_epoch = successor_of(frame.payload0);
        Ok(())
    }

    fn apply_commit_frame(&mut self, frame: DecodedFrame, offset: u64, has_room: bool) -> (result:
        Result<(), FileOpenError>)
        requires
            old(self).inv(),
            old(self).pending_page is None,
            frame.kind == FrameKind::CommitRecord,
            offset + 32 <= u64::MAX,
        ensures
            final(self).inv(),
            Self::obeys(*old(self), *final(self), step(old(self)@, frame@, offset), has_room, result),
    {
        if frame.payload0 == 0 {
            return refused(offset, 16, FileFormatErrorReason::CommitPositionZero);
        }
        if frame.payload1 == 0 {
            return refused(offset, 24, FileFormatErrorReason::CommitEpochZero);
        }
        if frame.payload2 == 0 {
            return refused(offset, 32, FileFormatErrorReason::CommitSequenceZero);
        }
        let expected: u64 = match self.next_position {
            Some(position) => position,
            None => {
                return refused(offset, 16, FileFormatErrorReason::CommitPositionSpaceExhausted);
            },
        };
        if frame.payload0 != expected {
            return refused(
                offset,
                16,
                FileFormatErrorReason::CommitPositionOutOfSequence {
                    expected,
                    actual: frame.payload0,
                },
            );
        }
        if frame.payload1 > self.highest_allocated_epoch {
            return refused(
                offset,
                24,
                FileFormatErrorReason::CommitEpochUnallocated {
                    actual: frame.payload1,
                    highest_allocated: self.highest_allocated_epoch,
                },
            );
        }
        let transaction: StoredTransactionIdentity = StoredTransactionIdentity::from_epoch_sequence(
            frame.payload1,
            frame.payload2,
        );
        if has_commit(&self.records, transaction) {
            return refused(
                offset,
                24,
                FileFormatErrorReason::DuplicateTransactionIdentity {
                    epoch: frame.payload1,
                    sequence: frame.payload2,
                },
            );
        }
        if !has_room {
            return Err(FileOpenError::RecordCapacityExhausted);
        }
        let record: FileLogRecord<N> = FileLogRecord::new(
            self.lineage.position(frame.payload0),
            FileLogRecordKind::TransactionCommit {
                transaction_epoch: frame.payload1,
                transaction_sequence: frame.payload2,
            },
        );
        let ghost model = record@;
        let ghost records_before = self.records@;
        self.records.push(record);
        assert(record_models(self.records@) =~= record_models(records_before).push(model));
        self.last_completed_position = frame.payload0;
        self.next_position = successor_of(frame.payload0);
        Ok(())
    }

    fn apply_marker_frame(&mut self, frame: DecodedFrame, offset: u64) -> (result: Result<
        (),
        FileOpenError,
    >)
        requires
            old(self).inv(),
            old(self).pending_page is None,
            frame.kind == FrameKind::DurableThrough,
            offset + 32 <= u64::MAX,
        ensures
            final(self).inv(),
            Self::obeys(*old(self), *final(self), step(old(self)@, frame@, offset), true, result),
    {
        if frame.payload0 == 0 {
            return refused(offset, 16, FileFormatErrorReason::MarkerPositionZero);
        }
        if frame.payload1 != 0 {
            return refused(
                offset,
                24,
                FileFormatErrorReason::UnexpectedNonzeroPayload {
                    field: FramePayloadField::Payload1,
                    actual: frame.payload1,
                },
            );
        }
        if frame.payload2 != 0 {
            return refused(
                offset,
                32,
                FileFormatErrorReason::UnexpectedNonzeroPayload {
                    field: FramePayloadField::Payload2,
                    actual: frame.payload2,
                },
            );
        }
        let previous: u64 = match self.last_durable_position {
            Some(position) => position,
            None => 0,
        };
        if frame.payload0 <= previous {
            return refused(
                offset,
                16,
                FileFormatErrorReason::MarkerDoesNotAdvance { previous, actual: frame.payload0 },
            );
        }
        let unknown: FileFormatErrorReason = FileFormatErrorReason::MarkerReferencesUnknownCommit {
            actual: frame.payload0,
            highest_committed: self.last_completed_position,
        };
        if frame.payload0 > self.last_completed_position {
            return refused(offset, 16, unknown);
        }
        match find_position(&self.records, frame.payload0) {
            None => refused(offset, 16, unknown),
            Some(index) => {
                self.durable_len = index + 1;
                self.last_durable_position = Some(frame.payload0);
                Ok(())
            },
        }
    }

    fn apply_page_header_frame(
        &mut self,
        frame: DecodedFrame,
        offset: u64,
        ownership: PendingPageOwnership,
    ) -> (result: Result<(), FileOpenError>)
        requires
            old(self).inv(),
            old(self).pending_page is None,
            frame.kind == FrameKind::PageHeader && ownership is Raw || frame.kind
                == FrameKind::TransactionPageHeader && ownership is AwaitingOwner,
            offset + 32 <= u64::MAX,
        ensures
            final(self).inv(),
            Self::obeys(*old(self), *final(self), step(old(self)@, frame@, offset), true, result),
    {
        if frame.payload0 == 0 {
            return refused(offset, 16, FileFormatErrorReason::PageHeaderPositionZero);
        }
        let expected: u64 = match self.next_position {
            Some(position) => position,
            None => {
                return refused(offset, 16, FileFormatErrorReason::PageHeaderPositionSpaceExhausted);
            },
        };
        if frame.payload0 != expected {
            return refused(
                offset,
                16,
                FileFormatErrorReason::PageHeaderPositionOutOfSequence {
                    expected,
                    actual: frame.payload0,
                },
            );
        }
        let page_number: PageNumber = match PageNumber::new(frame.payload1) {
            Some(number) => number,
            None => {
                return refused(offset, 24, FileFormatErrorReason::PageNumberZero);
            },
        };
        if self.page_layout.is_none() {
            return refused(offset, 24, FileFormatErrorReason::PageDataWithoutHeader);
        }
        self.pending_page = Some(
            PendingPageRecord::new(
                offset,
                frame.payload0,
                page_number,
                PageVersion::new(frame.payload2),
                ownership,
            ),
        );
        Ok(())
    }

    /// Applies every complete frame of `bytes` from `start` on.
    ///
    /// Running out of memory for another record depends on the machine; any
    /// other outcome is the one that [`scan`] gives.
    pub fn scan_frames(&mut self, bytes: &[u8], start: usize, format: LogFormat) -> (result: Result<
        (),
        FileOpenError,
    >)
        requires
            old(self).inv(),
            start <= bytes@.len(),
        ensures
            final(self).inv(),
            final(self).lineage == old(self).lineage,
            final(self).page_layout == old(self).page_layout,
            match result {
                Ok(()) => scan(old(self)@, bytes@, start as nat, format) == Ok::<
                    ScanModel,
                    FileFormatError,
                >(final(self)@),
                Err(FileOpenError::Format(error)) => scan(
                    old(self)@,
                    bytes@,
                    start as nat,
                    format,
                ) == Err::<ScanModel, _>(error),
                Err(error) => {
                    &&& error == FileOpenError::RecordCapacityExhausted
                    &&& comes_to_a_record(old(self)@, bytes@, start as nat, format)
                },
            },
    {
        let total: usize = bytes.len();
        let mut offset: usize = start;
        while total - offset >= FRAME_LENGTH
            invariant
                self.inv(),
                self.lineage == old(self).lineage,
                self.page_layout == old(self).page_layout,
                start <= offset <= total == bytes@.len(),
                scan(old(self)@, bytes@, start as nat, format) == scan(
                    self@,
                    bytes@,
                    offset as nat,
                    format,
                ),
                self@.records.len() >= old(self)@.records.len(),
                forall|end: int|
                    offset <= end <= total ==> #[trigger] scan(
                        old(self)@,
                        bytes@.take(end),
                        start as nat,
                        format,
                    ) == scan(self@, bytes@.take(end), offset as nat, format),
            decreases total - offset,
        {
            let frame_slice: &[u8] = &bytes[offset..offset + FRAME_LENGTH];
            let frame: DecodedFrame = match parse_frame(frame_slice, offset as u64, format) {
                Ok(frame) => frame,
                Err(error) => {
                    return Err(FileOpenError::Format(error));
                },
            };
            let has_room: bool = self.records.try_reserve(1).is_ok();
            let ghost before = self@;
            proof {
                if let Ok(next) = step(before, frame@, offset as u64) {
                    assert forall|end: int| offset + 56 <= end <= total implies scan(
                        before,
                        bytes@.take(end),
                        offset as nat,
                        format,
                    ) == #[trigger] scan(next, bytes@.take(end), offset as nat + 56, format) by {
                        lemma_scan_of_prefix(
                            before,
                            frame@,
                            next,
                            bytes@,
                            offset as nat,
                            end,
                            format,
                        );
                    }
                }
            }
            match self.apply_frame(frame, offset as u64, has_room) {
                Ok(()) => {},
                Err(error) => {
                    proof {
                        if let Ok(next) = step(before, frame@, offset as u64) {
                            let end = offset as int + 56;
                            assert(scan(next, bytes@.take(end), offset as nat + 56, format) == Ok::<
                                _,
                                FileFormatError,
                            >(next));
                            assert(adds_a_record(
                                old(self)@,
                                bytes@.take(end),
                                start as nat,
                                format,
                            ));
                        }
                    }
                    return Err(error);
                },
            }
            offset = offset + FRAME_LENGTH;
        }
        Ok(())
    }
}

} // verus!
