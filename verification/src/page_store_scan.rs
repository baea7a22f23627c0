//! What each frame of a page-store file means, and when it is refused.
//!
//! Behind the header stand groups of frames: the header of a page snapshot, the
//! log position that the snapshot requires, and the page itself in chunks of eight
//! bytes. The groups are numbered from one on without a gap.
use vstd::prelude::*;

use crate::bytes::be_field;
use crate::database_identity::{child_identity_of, ChildIdentityModel};
use crate::log_scan::successor;
use crate::page_store_error::{
    PageStoreFaultPoint, PageStoreFormatError, PageStoreFormatErrorReason,
};
use crate::page_store_frame::{
    decoded_store_frame, store_error_at, PageStoreFrameKind, StoreFrameModel,
};
use crate::page_store_header::{store_header_error, store_header_v2_error, PageStoreFormat};
use crate::stored_page::{lemma_page_index, with_page, StoredPageModel};

verus! {

/// A group whose header has been read and whose data is incomplete.
#[verifier::ext_equal]
pub struct GroupModel {
    pub header_offset: u64,
    pub sequence: u64,
    pub number: u64,
    pub version: u64,
    /// The required position, once its frame has been read.
    pub position: Option<u64>,
    /// The page bytes read so far: whole chunks, and not yet the entire page.
    pub bytes: Seq<u8>,
}

/// What is known of the store after some of its frames.
#[verifier::ext_equal]
pub struct StoreScanModel {
    /// The width of a page.
    pub width: nat,
    pub pages: Seq<StoredPageModel>,
    pub next_sequence: Option<u64>,
    pub pending: Option<GroupModel>,
}

impl GroupModel {
    pub open spec fn wf(self, width: nat) -> bool {
        &&& self.bytes.len() % 8 == 0
        &&& self.bytes.len() < width
        &&& self.position is None ==> self.bytes.len() == 0
    }

    /// The index of the chunk that has to come next.
    pub open spec fn next_chunk(self) -> nat {
        self.bytes.len() / 8
    }

    /// How many bytes of the next chunk belong to a page of `width` bytes.
    pub open spec fn next_len(self, width: nat) -> nat {
        if width - self.bytes.len() < 8 {
            (width - self.bytes.len()) as nat
        } else {
            8
        }
    }

    /// The page that the group stands for when its last byte has been read.
    pub open spec fn completed(self, bytes: Seq<u8>) -> StoredPageModel {
        StoredPageModel {
            number: self.number,
            version: self.version,
            bytes,
            position: self.position->0,
            sequence: self.sequence,
        }
    }
}

impl StoreScanModel {
    pub open spec fn wf(self) -> bool {
        &&& 0 < self.width <= usize::MAX - 7
        &&& self.pending matches Some(pending) ==> pending.wf(self.width)
    }

    /// The state before the first frame.
    pub open spec fn initial(width: nat) -> StoreScanModel {
        StoreScanModel { width, pages: Seq::empty(), next_sequence: Some(1), pending: None }
    }

    /// The state after one more complete group.
    pub open spec fn with_stored(self, page: StoredPageModel) -> StoreScanModel {
        StoreScanModel {
            pages: with_page(self.pages, page),
            next_sequence: successor(page.sequence),
            pending: None,
            ..self
        }
    }
}

/// Why a frame is refused between two groups.
pub open spec fn idle_error(state: StoreScanModel, frame: StoreFrameModel, offset: u64) -> Option<
    PageStoreFormatError,
> {
    if frame.kind != PageStoreFrameKind::SnapshotHeader {
        store_error_at(offset, 4, PageStoreFormatErrorReason::PageDataWithoutHeader)
    } else if frame.payload_a == 0 {
        store_error_at(offset, 16, PageStoreFormatErrorReason::SnapshotSequenceZero)
    } else {
        match state.next_sequence {
            None => store_error_at(
                offset,
                16,
                PageStoreFormatErrorReason::SnapshotSequenceSpaceExhausted,
            ),
            Some(expected) => if frame.payload_a != expected {
                store_error_at(
                    offset,
                    16,
                    PageStoreFormatErrorReason::SnapshotSequenceOutOfOrder {
                        expected,
                        actual: frame.payload_a,
                    },
                )
            } else if frame.payload_b == 0 {
                store_error_at(offset, 24, PageStoreFormatErrorReason::SnapshotPageNumberZero)
            } else {
                None
            },
        }
    }
}

/// Why a frame is refused where the required position has to stand.
pub open spec fn position_error(pending: GroupModel, frame: StoreFrameModel, offset: u64) -> Option<
    PageStoreFormatError,
> {
    if frame.kind != PageStoreFrameKind::RequiredPosition {
        store_error_at(
            offset,
            4,
            PageStoreFormatErrorReason::UnexpectedKindAfterHeader {
                actual: frame.kind.spec_code(),
            },
        )
    } else if frame.payload_a != pending.sequence {
        store_error_at(
            offset,
            16,
            PageStoreFormatErrorReason::RequiredPositionSequenceMismatch {
                expected: pending.sequence,
                actual: frame.payload_a,
            },
        )
    } else if frame.payload_b == 0 {
        store_error_at(offset, 24, PageStoreFormatErrorReason::RequiredPositionZero)
    } else if frame.payload_c != 0 {
        store_error_at(
            offset,
            32,
            PageStoreFormatErrorReason::RequiredPositionPayloadCNonzero { actual: frame.payload_c },
        )
    } else {
        None
    }
}

/// Why a frame is refused where page data has to stand.
pub open spec fn data_error(
    width: nat,
    pending: GroupModel,
    frame: StoreFrameModel,
    offset: u64,
) -> Option<PageStoreFormatError> {
    if frame.kind != PageStoreFrameKind::PageData {
        store_error_at(
            offset,
            4,
            PageStoreFormatErrorReason::UnexpectedKindAfterRequiredPosition {
                actual: frame.kind.spec_code(),
            },
        )
    } else if frame.payload_a != pending.sequence {
        store_error_at(
            offset,
            16,
            PageStoreFormatErrorReason::PageDataSequenceMismatch {
                expected: pending.sequence,
                actual: frame.payload_a,
            },
        )
    } else if frame.payload_b != pending.next_chunk() {
        store_error_at(
            offset,
            24,
            PageStoreFormatErrorReason::PageDataChunkIndexOutOfSequence {
                expected: pending.next_chunk() as u64,
                actual: frame.payload_b,
            },
        )
    } else if exists|i: int|
        pending.next_len(width) <= i < 8 && #[trigger] frame.payload_c_bytes[i] != 0 {
        store_error_at(offset, 32, PageStoreFormatErrorReason::PageDataFinalPaddingNonzero)
    } else {
        None
    }
}

/// Why the frame at `offset` is refused after `state`.
pub open spec fn store_step_error(
    state: StoreScanModel,
    frame: StoreFrameModel,
    offset: u64,
) -> Option<PageStoreFormatError> {
    match state.pending {
        None => idle_error(state, frame, offset),
        Some(pending) => if pending.position is None {
            position_error(pending, frame, offset)
        } else {
            data_error(state.width, pending, frame, offset)
        },
    }
}

/// The state after an accepted frame.
pub open spec fn after_store_step(
    state: StoreScanModel,
    frame: StoreFrameModel,
    offset: u64,
) -> StoreScanModel {
    match state.pending {
        None => StoreScanModel {
            pending: Some(
                GroupModel {
                    header_offset: offset,
                    sequence: frame.payload_a,
                    number: frame.payload_b,
                    version: frame.payload_c,
                    position: None,
                    bytes: Seq::empty(),
                },
            ),
            ..state
        },
        Some(pending) => if pending.position is None {
            StoreScanModel {
                pending: Some(GroupModel { position: Some(frame.payload_b), ..pending }),
                ..state
            }
        } else {
            let bytes = pending.bytes + frame.payload_c_bytes.take(
                pending.next_len(state.width) as int,
            );
            if bytes.len() == state.width {
                state.with_stored(pending.completed(bytes))
            } else {
                StoreScanModel { pending: Some(GroupModel { bytes, ..pending }), ..state }
            }
        },
    }
}

/// One step of the reconstruction.
pub open spec fn store_step(state: StoreScanModel, frame: StoreFrameModel, offset: u64) -> Result<
    StoreScanModel,
    PageStoreFormatError,
> {
    match store_step_error(state, frame, offset) {
        Some(error) => Err(error),
        None => Ok(after_store_step(state, frame, offset)),
    }
}

/// The reconstruction of every complete frame of `bytes` from `offset` on.
pub open spec fn store_scan(state: StoreScanModel, bytes: Seq<u8>, offset: nat) -> Result<
    StoreScanModel,
    PageStoreFormatError,
>
    decreases bytes.len() - offset,
{
    if offset + 56 > bytes.len() {
        Ok(state)
    } else {
        match decoded_store_frame(
            bytes.subrange(offset as int, offset as int + 56),
            offset as u64,
        ) {
            Err(error) => Err(error),
            Ok(frame) => match store_step(state, frame, offset as u64) {
                Err(error) => Err(error),
                Ok(next) => store_scan(next, bytes, offset + 56),
            },
        }
    }
}

/// Mathematical content of a page store.
#[verifier::ext_equal]
pub struct StoreModel {
    pub format: PageStoreFormat,
    pub persistent_id: u128,
    pub identity: Option<ChildIdentityModel>,
    /// The width of a page.
    pub width: nat,
    pub pages: Seq<StoredPageModel>,
    pub next_sequence: Option<u64>,
    pub armed_fault: Option<PageStoreFaultPoint>,
    pub poisoned: bool,
}

impl StoreModel {
    /// An empty store.
    pub open spec fn created(
        format: PageStoreFormat,
        persistent_id: u128,
        identity: Option<ChildIdentityModel>,
        width: nat,
    ) -> StoreModel {
        StoreModel {
            format,
            persistent_id,
            identity,
            width,
            pages: Seq::empty(),
            next_sequence: Some(1),
            armed_fault: None,
            poisoned: false,
        }
    }
}

/// What the header of a file says.
pub struct StoreHeaderModel {
    pub format: PageStoreFormat,
    pub persistent_id: u128,
    pub identity: Option<ChildIdentityModel>,
    pub length: nat,
}

/// What the header of a file says, or the first rule that it breaks.
#[verifier::opaque]
pub open spec fn read_store_header(bytes: Seq<u8>, width: u64) -> Result<
    StoreHeaderModel,
    PageStoreFormatError,
> {
    let too_short = PageStoreFormatError {
        offset: 0,
        reason: PageStoreFormatErrorReason::HeaderTooShort { actual: bytes.len() as u64 },
    };
    if bytes.len() < 64 {
        Err(too_short)
    } else if be_field(bytes, 8, 2) == 2 {
        if bytes.len() < 128 {
            Err(too_short)
        } else {
            match store_header_v2_error(bytes.take(128), width) {
                Some(error) => Err(error),
                None => Ok(
                    StoreHeaderModel {
                        format: PageStoreFormat::V2,
                        persistent_id: be_field(bytes, 16, 16) as u128,
                        identity: Some(child_identity_of(bytes.subrange(64, 112))),
                        length: 128,
                    },
                ),
            }
        }
    } else {
        match store_header_error(bytes.take(64), width) {
            Some(error) => Err(error),
            None => Ok(
                StoreHeaderModel {
                    format: PageStoreFormat::V1,
                    persistent_id: be_field(bytes, 16, 16) as u128,
                    identity: None,
                    length: 64,
                },
            ),
        }
    }
}

/// The length that a file has to be cut to before it is written again: an
/// unfinished group goes as a whole, an unfinished frame alone.
pub open spec fn repaired_store_len(header_length: nat, total: nat, end: StoreScanModel) -> Option<
    u64,
> {
    match end.pending {
        Some(pending) => Some(pending.header_offset),
        None => if (total - header_length) % 56 > 0 {
            Some((header_length + (total - header_length) / 56 * 56) as u64)
        } else {
            None
        },
    }
}

/// A store as its file gives it, and what has to be cut off the file.
#[verifier::ext_equal]
pub struct OpenedStoreModel {
    pub store: StoreModel,
    pub repaired_len: Option<u64>,
}

/// The store that a header and the state behind the last frame make up.
pub open spec fn opened_store_state(header: StoreHeaderModel, end: StoreScanModel) -> StoreModel {
    StoreModel {
        format: header.format,
        persistent_id: header.persistent_id,
        identity: header.identity,
        width: end.width,
        pages: end.pages,
        next_sequence: end.next_sequence,
        armed_fault: None,
        poisoned: false,
    }
}

/// The store that the bytes of a file hold, or the first rule that they break.
pub open spec fn opened_store(bytes: Seq<u8>, width: nat) -> Result<
    OpenedStoreModel,
    PageStoreFormatError,
> {
    match read_store_header(bytes, width as u64) {
        Err(error) => Err(error),
        Ok(header) => match store_scan(StoreScanModel::initial(width), bytes, header.length) {
            Err(error) => Err(error),
            Ok(end) => Ok(
                OpenedStoreModel {
                    store: opened_store_state(header, end),
                    repaired_len: repaired_store_len(header.length, bytes.len(), end),
                },
            ),
        },
    }
}

/// Whether reading all of `bytes` from `offset` on keeps another page.
pub open spec fn adds_a_page(state: StoreScanModel, bytes: Seq<u8>, offset: nat) -> bool {
    store_scan(state, bytes, offset) matches Ok(next) && next.pages.len() > state.pages.len()
}

/// Whether reading `bytes` frame by frame from `offset` on comes to keep another
/// page.
pub open spec fn comes_to_a_page(state: StoreScanModel, bytes: Seq<u8>, offset: nat) -> bool {
    exists|end: int|
        offset <= end <= bytes.len() && #[trigger] adds_a_page(state, bytes.take(end), offset)
}

/// Whether reading the file `bytes` comes to keep a page.
pub open spec fn store_holds_a_page(bytes: Seq<u8>, width: nat) -> bool {
    read_store_header(bytes, width as u64) matches Ok(header) && comes_to_a_page(
        StoreScanModel::initial(width),
        bytes,
        header.length,
    )
}

/// A frame counts the same in every prefix that holds it.
pub proof fn lemma_store_scan_of_prefix(
    state: StoreScanModel,
    frame: StoreFrameModel,
    next: StoreScanModel,
    bytes: Seq<u8>,
    offset: nat,
    end: int,
)
    requires
        offset + 56 <= end <= bytes.len(),
        decoded_store_frame(
            bytes.subrange(offset as int, offset as int + 56),
            offset as u64,
        ) == Ok::<_, PageStoreFormatError>(frame),
        store_step(state, frame, offset as u64) == Ok::<_, PageStoreFormatError>(next),
    ensures
        store_scan(state, bytes.take(end), offset) == store_scan(
            next,
            bytes.take(end),
            offset + 56,
        ),
{
    assert(bytes.take(end).subrange(offset as int, offset as int + 56) =~= bytes.subrange(
        offset as int,
        offset as int + 56,
    ));
}

/// No frame takes a page out of the store.
pub proof fn lemma_store_step_keeps_pages(
    state: StoreScanModel,
    frame: StoreFrameModel,
    offset: u64,
)
    ensures
        store_step(state, frame, offset) matches Ok(next) ==> next.pages.len()
            >= state.pages.len(),
{
    if let Some(pending) = state.pending {
        lemma_page_index(state.pages, pending.number, 0);
    }
}

} // verus!
