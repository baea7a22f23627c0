//! What each frame of a commit-log file means, and when it is refused.
use vstd::prelude::*;

use crate::format::LogFormat;
use crate::log_error::{FileFormatError, FileFormatErrorReason, FramePayloadField};
use crate::log_frame::{decoded_frame, FrameKind, FrameModel};
use crate::log_record::{contains_commit, PageModel, RecordBody, RecordModel};

verus! {

/// The number after `value`, unless `value` is the last one.
pub open spec fn successor(value: u64) -> Option<u64> {
    if value < u64::MAX {
        Some((value + 1) as u64)
    } else {
        None
    }
}

/// Who owns the page group that is being read.
pub enum PendingOwner {
    /// Nobody: a raw page write.
    Raw,
    /// A transaction whose owner frame has not been read yet.
    Awaiting,
    Owned { epoch: u64, sequence: u64 },
}

/// A page group whose header has been read and whose data is incomplete.
#[verifier::ext_equal]
pub struct PendingModel {
    pub header_offset: u64,
    pub position: u64,
    pub number: u64,
    pub version: u64,
    pub owner: PendingOwner,
    /// The page bytes read so far: whole chunks, and not yet the entire page.
    pub bytes: Seq<u8>,
}

/// What is known of the log after some of its frames.
#[verifier::ext_equal]
pub struct ScanModel {
    /// Whether the file may hold pages.
    pub has_layout: bool,
    /// The width of a page.
    pub width: nat,
    pub records: Seq<RecordModel>,
    pub durable_len: nat,
    pub last_durable: Option<u64>,
    pub last_completed: u64,
    pub highest_epoch: u64,
    pub next_epoch: Option<u64>,
    pub next_position: Option<u64>,
    pub pending: Option<PendingModel>,
}

impl PendingModel {
    pub open spec fn wf(self, width: nat) -> bool {
        &&& self.bytes.len() % 8 == 0
        &&& self.bytes.len() < width
    }

    /// The index of the chunk that has to come next.
    pub open spec fn next_chunk(self) -> nat {
        self.bytes.len() / 8
    }

    /// How many bytes of the next chunk belong to a page of `width` bytes.
    pub open spec fn next_len(self, width: nat) -> nat {
        if width - self.bytes.len() < 8 {
            (width - self.bytes.len()) as nat
        } else {
            8
        }
    }
}

impl ScanModel {
    pub open spec fn wf(self) -> bool {
        &&& self.has_layout ==> 0 < self.width <= usize::MAX - 7
        &&& self.durable_len <= self.records.len()
        &&& self.pending matches Some(pending) ==> self.has_layout && pending.wf(self.width)
    }

    /// The state before the first frame.
    pub open spec fn initial(
        has_layout: bool,
        width: nat,
        highest_epoch: u64,
        next_position: Option<u64>,
        last_completed: u64,
        last_durable: Option<u64>,
    ) -> ScanModel {
        ScanModel {
            has_layout,
            width,
            records: Seq::empty(),
            durable_len: 0,
            last_durable,
            last_completed,
            highest_epoch,
            next_epoch: successor(highest_epoch),
            next_position,
            pending: None,
        }
    }

    /// The state after one more complete record.
    pub open spec fn with_record(self, record: RecordModel) -> ScanModel {
        ScanModel {
            records: self.records.push(record),
            last_completed: record.position,
            next_position: successor(record.position),
            pending: None,
            ..self
        }
    }
}

/// The error `reason`, found `delta` bytes into the frame at `offset`.
pub open spec fn error_at(offset: u64, delta: int, reason: FileFormatErrorReason) -> Option<
    FileFormatError,
> {
    Some(FileFormatError { offset: (offset + delta) as u64, reason })
}

/// The index, not before `from`, of the first record at `position`.
pub open spec fn position_index(records: Seq<RecordModel>, position: u64, from: nat) -> Option<nat>
    decreases records.len() - from,
{
    if from >= records.len() {
        None
    } else if records[from as int].position == position {
        Some(from)
    } else {
        position_index(records, position, from + 1)
    }
}

/// Why an epoch-allocation frame is refused.
pub open spec fn epoch_error(state: ScanModel, frame: FrameModel, offset: u64) -> Option<
    FileFormatError,
> {
    if frame.payload0 == 0 {
        error_at(offset, 16, FileFormatErrorReason::EpochValueZero)
    } else if frame.payload1 != 0 {
        error_at(
            offset,
            24,
            FileFormatErrorReason::UnexpectedNonzeroPayload {
                field: FramePayloadField::Payload1,
                actual: frame.payload1,
            },
        )
    } else if frame.payload2 != 0 {
        error_at(
            offset,
            32,
            FileFormatErrorReason::UnexpectedNonzeroPayload {
                field: FramePayloadField::Payload2,
                actual: frame.payload2,
            },
        )
    } else {
        match state.next_epoch {
            None => error_at(offset, 16, FileFormatErrorReason::EpochSpaceExhausted),
            Some(expected) => if frame.payload0 != expected {
                error_at(
                    offset,
                    16,
                    FileFormatErrorReason::EpochOutOfSequence { expected, actual: frame.payload0 },
                )
            } else {
                None
            },
        }
    }
}

/// Why a commit frame is refused.
pub open spec fn commit_error(state: ScanModel, frame: FrameModel, offset: u64) -> Option<
    FileFormatError,
> {
    if frame.payload0 == 0 {
        error_at(offset, 16, FileFormatErrorReason::CommitPositionZero)
    } else if frame.payload1 == 0 {
        error_at(offset, 24, FileFormatErrorReason::CommitEpochZero)
    } else if frame.payload2 == 0 {
        error_at(offset, 32, FileFormatErrorReason::CommitSequenceZero)
    } else {
        match state.next_position {
            None => error_at(offset, 16, FileFormatErrorReason::CommitPositionSpaceExhausted),
            Some(expected) => if frame.payload0 != expected {
                error_at(
                    offset,
                    16,
                    FileFormatErrorReason::CommitPositionOutOfSequence {
                        expected,
                        actual: frame.payload0,
                    },
                )
            } else if frame.payload1 > state.highest_epoch {
                error_at(
                    offset,
                    24,
                    FileFormatErrorReason::CommitEpochUnallocated {
                        actual: frame.payload1,
                        highest_allocated: state.highest_epoch,
                    },
                )
            } else if contains_commit(state.records, frame.payload1, frame.payload2) {
                error_at(
                    offset,
                    24,
                    FileFormatErrorReason::DuplicateTransactionIdentity {
                        epoch: frame.payload1,
                        sequence: frame.payload2,
                    },
                )
            } else {
                None
            },
        }
    }
}

/// Why a durable-through marker is refused.
pub open spec fn marker_error(state: ScanModel, frame: FrameModel, offset: u64) -> Option<
    FileFormatError,
> {
    let previous = match state.last_durable {
        Some(position) => position,
        None => 0,
    };
    if frame.payload0 == 0 {
        error_at(offset, 16, FileFormatErrorReason::MarkerPositionZero)
    } else if frame.payload1 != 0 {
        error_at(
            offset,
            24,
            FileFormatErrorReason::UnexpectedNonzeroPayload {
                field: FramePayloadField::Payload1,
                actual: frame.payload1,
            },
        )
    } else if frame.payload2 != 0 {
        error_at(
            offset,
            32,
            FileFormatErrorReason::UnexpectedNonzeroPayload {
                field: FramePayloadField::Payload2,
                actual: frame.payload2,
            },
        )
    } else if frame.payload0 <= previous {
        error_at(
            offset,
            16,
            FileFormatErrorReason::MarkerDoesNotAdvance { previous, actual: frame.payload0 },
        )
    } else if frame.payload0 > state.last_completed || position_index(
        state.records,
        frame.payload0,
        0,
    ) is None {
        error_at(
            offset,
            16,
            FileFormatErrorReason::MarkerReferencesUnknownCommit {
                actual: frame.payload0,
                highest_committed: state.last_completed,
            },
        )
    } else {
        None
    }
}

/// Why the header of a page group is refused.
pub open spec fn page_header_error(state: ScanModel, frame: FrameModel, offset: u64) -> Option<
    FileFormatError,
> {
    if frame.payload0 == 0 {
        error_at(offset, 16, FileFormatErrorReason::PageHeaderPositionZero)
    } else {
        match state.next_position {
            None => error_at(offset, 16, FileFormatErrorReason::PageHeaderPositionSpaceExhausted),
            Some(expected) => if frame.payload0 != expected {
                error_at(
                    offset,
                    16,
                    FileFormatErrorReason::PageHeaderPositionOutOfSequence {
                        expected,
                        actual: frame.payload0,
                    },
                )
            } else if frame.payload1 == 0 {
                error_at(offset, 24, FileFormatErrorReason::PageNumberZero)
            } else if !state.has_layout {
                error_at(offset, 24, FileFormatErrorReason::PageDataWithoutHeader)
            } else {
                None
            },
        }
    }
}

/// Why a frame is refused where the owner of a page group has to stand.
pub open spec fn owner_error(
    state: ScanModel,
    pending: PendingModel,
    frame: FrameModel,
    offset: u64,
) -> Option<FileFormatError> {
    if frame.kind != FrameKind::TransactionPageOwner {
        error_at(
            offset,
            4,
            FileFormatErrorReason::TransactionPageOwnerInterruptedByFrameKind {
                actual: frame.kind.spec_code(),
            },
        )
    } else if frame.payload0 == 0 {
        error_at(offset, 16, FileFormatErrorReason::TransactionPageOwnerParentPositionZero)
    } else if frame.payload0 != pending.position {
        error_at(
            offset,
            16,
            FileFormatErrorReason::TransactionPageOwnerParentMismatch {
                expected: pending.position,
                actual: frame.payload0,
            },
        )
    } else if frame.payload1 == 0 {
        error_at(offset, 24, FileFormatErrorReason::TransactionPageOwnerEpochZero)
    } else if frame.payload1 > state.highest_epoch {
        error_at(
            offset,
            24,
            FileFormatErrorReason::TransactionPageOwnerEpochUnallocated {
                actual: frame.payload1,
                highest_allocated: state.highest_epoch,
            },
        )
    } else if frame.payload2 == 0 {
        error_at(offset, 32, FileFormatErrorReason::TransactionPageOwnerSequenceZero)
    } else {
        None
    }
}

/// Why a frame is refused where page data has to stand.
pub open spec fn page_data_error(
    state: ScanModel,
    pending: PendingModel,
    frame: FrameModel,
    offset: u64,
) -> Option<FileFormatError> {
    if frame.kind != FrameKind::PageData {
        error_at(
            offset,
            4,
            FileFormatErrorReason::PageDataInterruptedByFrameKind {
                actual: frame.kind.spec_code(),
            },
        )
    } else if frame.payload0 == 0 {
        error_at(offset, 16, FileFormatErrorReason::PageDataParentPositionZero)
    } else if frame.payload0 != pending.position {
        error_at(
            offset,
            16,
            FileFormatErrorReason::PageDataParentMismatch {
                expected: pending.position,
                actual: frame.payload0,
            },
        )
    } else if frame.payload1 != pending.next_chunk() {
        error_at(
            offset,
            24,
            FileFormatErrorReason::PageDataChunkIndexOutOfSequence {
                expected: pending.next_chunk() as u64,
                actual: frame.payload1,
            },
        )
    } else if exists|i: int|
        pending.next_len(state.width) <= i < 8 && #[trigger] frame.payload2_bytes[i] != 0 {
        error_at(offset, 32, FileFormatErrorReason::PageDataFinalPaddingNonzero)
    } else {
        None
    }
}

/// Why a frame is refused inside a page group.
pub open spec fn pending_error(
    state: ScanModel,
    pending: PendingModel,
    frame: FrameModel,
    offset: u64,
) -> Option<FileFormatError> {
    match pending.owner {
        PendingOwner::Awaiting => owner_error(state, pending, frame, offset),
        PendingOwner::Raw => if frame.kind == FrameKind::TransactionPageOwner {
            error_at(offset, 4, FileFormatErrorReason::TransactionPageOwnerWithoutHeader)
        } else {
            page_data_error(state, pending, frame, offset)
        },
        PendingOwner::Owned { .. } => if frame.kind == FrameKind::TransactionPageOwner {
            error_at(offset, 4, FileFormatErrorReason::TransactionPageOwnerDuplicate)
        } else {
            page_data_error(state, pending, frame, offset)
        },
    }
}

/// Why the frame at `offset` is refused after `state`.
pub open spec fn step_error(state: ScanModel, frame: FrameModel, offset: u64) -> Option<
    FileFormatError,
> {
    match state.pending {
        Some(pending) => pending_error(state, pending, frame, offset),
        None => match frame.kind {
            FrameKind::EpochAllocation => epoch_error(state, frame, offset),
            FrameKind::CommitRecord => commit_error(state, frame, offset),
            FrameKind::DurableThrough => marker_error(state, frame, offset),
            FrameKind::PageHeader | FrameKind::TransactionPageHeader =>
                page_header_error(state, frame, offset),
            FrameKind::TransactionPageOwner =>
                error_at(offset, 4, FileFormatErrorReason::TransactionPageOwnerWithoutHeader),
            FrameKind::PageData =>
                error_at(offset, 4, FileFormatErrorReason::PageDataWithoutHeader),
        },
    }
}

/// The record that a page group becomes when its last byte has been read.
pub open spec fn completed_record(pending: PendingModel, bytes: Seq<u8>) -> RecordModel {
    let page = PageModel { number: pending.number, version: pending.version, bytes };
    RecordModel {
        position: pending.position,
        body: match pending.owner {
            PendingOwner::Owned { epoch, sequence } => RecordBody::OwnedPage {
                epoch,
                sequence,
                page,
            },
            _ => RecordBody::Page { page },
        },
    }
}

/// The state after an accepted frame of page data.
pub open spec fn after_page_data(
    state: ScanModel,
    pending: PendingModel,
    frame: FrameModel,
) -> ScanModel {
    let bytes = pending.bytes + frame.payload2_bytes.take(pending.next_len(state.width) as int);
    if bytes.len() == state.width {
        state.with_record(completed_record(pending, bytes))
    } else {
        ScanModel { pending: Some(PendingModel { bytes, ..pending }), ..state }
    }
}

/// The state after an accepted frame.
pub open spec fn after_step(state: ScanModel, frame: FrameModel, offset: u64) -> ScanModel {
    match state.pending {
        Some(pending) => if pending.owner is Awaiting {
            ScanModel {
                pending: Some(
                    PendingModel {
                        owner: PendingOwner::Owned {
                            epoch: frame.payload1,
                            sequence: frame.payload2,
                        },
                        ..pending
                    },
                ),
                ..state
            }
        } else {
            after_page_data(state, pending, frame)
        },
        None => match frame.kind {
            FrameKind::EpochAllocation => ScanModel {
                highest_epoch: frame.payload0,
                next_epoch: successor(frame.payload0),
                ..state
            },
            FrameKind::CommitRecord => state.with_record(
                RecordModel {
                    position: frame.payload0,
                    body: RecordBody::Commit { epoch: frame.payload1, sequence: frame.payload2 },
                },
            ),
            FrameKind::DurableThrough => ScanModel {
                durable_len: position_index(state.records, frame.payload0, 0)->0 + 1,
                last_durable: Some(frame.payload0),
                ..state
            },
            _ => ScanModel {
                pending: Some(
                    PendingModel {
                        header_offset: offset,
                        position: frame.payload0,
                        number: frame.payload1,
                        version: frame.payload2,
                        owner: if frame.kind == FrameKind::TransactionPageHeader {
                            PendingOwner::Awaiting
                        } else {
                            PendingOwner::Raw
                        },
                        bytes: Seq::empty(),
                    },
                ),
                ..state
            },
        },
    }
}

/// One step of the reconstruction.
pub open spec fn step(state: ScanModel, frame: FrameModel, offset: u64) -> Result<
    ScanModel,
    FileFormatError,
> {
    match step_error(state, frame, offset) {
        Some(error) => Err(error),
        None => Ok(after_step(state, frame, offset)),
    }
}

/// The reconstruction of every complete frame of `bytes` from `offset` on.
pub open spec fn scan(state: ScanModel, bytes: Seq<u8>, offset: nat, format: LogFormat) -> Result<
    ScanModel,
    FileFormatError,
>
    decreases bytes.len() - offset,
{
    if offset + 56 > bytes.len() {
        Ok(state)
    } else {
        match decoded_frame(
            bytes.subrange(offset as int, offset as int + 56),
            offset as u64,
            format,
        ) {
            Err(error) => Err(error),
            Ok(frame) => match step(state, frame, offset as u64) {
                Err(error) => Err(error),
                Ok(next) => scan(next, bytes, offset + 56, format),
            },
        }
    }
}

/// Whether reading all of `bytes` from `offset` on keeps another record.
pub open spec fn adds_a_record(
    state: ScanModel,
    bytes: Seq<u8>,
    offset: nat,
    format: LogFormat,
) -> bool {
    scan(state, bytes, offset, format) matches Ok(next) && next.records.len() > state.records.len()
}

/// Whether reading `bytes` frame by frame from `offset` on comes to keep another
/// record.
pub open spec fn comes_to_a_record(
    state: ScanModel,
    bytes: Seq<u8>,
    offset: nat,
    format: LogFormat,
) -> bool {
    exists|end: int|
        offset <= end <= bytes.len() && #[trigger] adds_a_record(
            state,
            bytes.take(end),
            offset,
            format,
        )
}

/// A frame counts the same in every prefix that holds it.
pub proof fn lemma_scan_of_prefix(
    state: ScanModel,
    frame: FrameModel,
    next: ScanModel,
    bytes: Seq<u8>,
    offset: nat,
    end: int,
    format: LogFormat,
)
    requires
        offset + 56 <= end <= bytes.len(),
        decoded_frame(
            bytes.subrange(offset as int, offset as int + 56),
            offset as u64,
            format,
        ) == Ok::<_, FileFormatError>(frame),
        step(state, frame, offset as u64) == Ok::<_, FileFormatError>(next),
    ensures
        scan(state, bytes.take(end), offset, format) == scan(
            next,
            bytes.take(end),
            offset + 56,
            format,
        ),
{
    assert(bytes.take(end).subrange(offset as int, offset as int + 56) =~= bytes.subrange(
        offset as int,
        offset as int + 56,
    ));
}

} // verus!
