//! Where bytes have more than one fault, the first in the order of the format is the one that
//! is reported: everything that is looked at before it is right.
use vstd::prelude::*;

use crate::bytes::{be_field, checksum};
use crate::database_identity::{
    child_identity_error, decode_database_child_identity, DatabaseChildIdentityDecodeError,
    DatabaseChildIdentityDecodeErrorReason, DatabaseFileHeaderIdentity,
};
use crate::file_layout_laws::{
    blank, frame_version_number, is_child_identity, kind_number, lemma_child_identity,
    lemma_coordinate_bounds, lemma_field_bounds, may_stand_in, spells_coordinates,
};
use crate::format::{LogFormat, PageLayout};
use crate::identity::PersistentLogId;
use crate::log_error::{FileFormatError, FileFormatErrorReason};
use crate::log_frame::{decoded_frame, parse_frame, DecodedFrame, FrameKind, FrameModel};
use crate::log_header::{
    parse_header, parse_header_v4, parse_header_v5, HeaderExpectation, V4HeaderMetadata,
    V5HeaderMetadata,
};
use crate::log_scan::{step, PendingModel, ScanModel};
use crate::page_store_error::{PageStoreFormatError, PageStoreFormatErrorReason};
use crate::page_store_frame::{
    decoded_store_frame, parse_page_store_frame, DecodedPageStoreFrame, PageStoreFrameKind,
    StoreFrameModel,
};
use crate::page_store_header::{
    parse_page_store_header, parse_page_store_header_v2, PageStoreHeaderV2Metadata,
};
use crate::page_store_scan::{store_step, GroupModel, StoreScanModel};

verus! {

/// Whether a frame of a log has a kind that may stand in the format.
pub open spec fn has_known_kind(frame: Seq<u8>, format: LogFormat) -> bool {
    exists|kind: FrameKind|
        be_field(frame, 4, 2) == #[trigger] kind_number(kind) && may_stand_in(kind, format)
}

/// A frame is refused for the first of its fields that is wrong, the checksum last.
pub proof fn law_first_frame_fault(
    frame: &[u8],
    offset: u64,
    format: LogFormat,
    result: Result<DecodedFrame, FileFormatError>,
)
    requires
        frame@.len() == 56,
        offset <= u64::MAX - 56,
        call_ensures(parse_frame, (frame, offset, format), result),
    ensures
        result matches Err(error) ==> {
            let at = error.offset - offset;
            &&& at > 0 <==> frame@.subrange(0, 4) == seq![0x4eu8, 0x54u8, 0x53u8, 0x51u8]
            &&& at > 4 ==> has_known_kind(frame@, format)
            &&& at == 4 ==> !has_known_kind(frame@, format)
            &&& at > 6 ==> be_field(frame@, 6, 2) == frame_version_number(format)
            &&& at > 8 ==> be_field(frame@, 8, 4) == 0
            &&& at > 12 ==> be_field(frame@, 12, 2) == 56
            &&& at > 14 ==> be_field(frame@, 14, 2) == 0 && blank(frame@, 40, 48)
        },
{
    reveal(decoded_frame);
    lemma_field_bounds(frame@, 4);
    lemma_field_bounds(frame@, 6);
    lemma_field_bounds(frame@, 8);
    lemma_field_bounds(frame@, 12);
    lemma_field_bounds(frame@, 14);
    lemma_field_bounds(frame@, 48);
    if let Err(error) = result {
        let code = be_field(frame@, 4, 2) as u16;
        if let Some(kind) = FrameKind::spec_from_u16(code, format) {
            assert(be_field(frame@, 4, 2) == kind_number(kind));
        }
    }
}

/// A frame of a store is refused for the first of its fields that is wrong, the checksum last.
pub proof fn law_first_store_frame_fault(
    frame: &[u8],
    offset: u64,
    result: Result<DecodedPageStoreFrame, PageStoreFormatError>,
)
    requires
        frame@.len() == 56,
        offset <= u64::MAX - 56,
        call_ensures(parse_page_store_frame, (frame, offset), result),
    ensures
        result matches Err(error) ==> {
            let at = error.offset - offset;
            &&& at > 0 <==> frame@.subrange(0, 4) == seq![0x4eu8, 0x54u8, 0x53u8, 0x50u8]
            &&& at > 4 ==> 1 <= be_field(frame@, 4, 2) <= 3
            &&& at > 6 ==> be_field(frame@, 6, 2) == 1
            &&& at > 8 ==> be_field(frame@, 8, 4) == 0
            &&& at > 12 ==> be_field(frame@, 12, 2) == 56
            &&& at > 14 ==> be_field(frame@, 14, 2) == 0 && blank(frame@, 40, 48)
        },
{
    reveal(decoded_store_frame);
    lemma_field_bounds(frame@, 4);
    lemma_field_bounds(frame@, 6);
    lemma_field_bounds(frame@, 8);
    lemma_field_bounds(frame@, 12);
    lemma_field_bounds(frame@, 14);
    lemma_field_bounds(frame@, 48);
}

/// Whether everything in the front of a header that stands before a place is right, and
/// something at that place is not, where the place is within the front.
pub open spec fn front_fault_is_at(
    header: Seq<u8>,
    magic: Seq<u8>,
    version: nat,
    length: nat,
    width: Option<u64>,
    at: u64,
) -> bool {
    &&& at > 0 <==> header.subrange(0, 8) == magic
    &&& at > 8 ==> be_field(header, 8, 2) == version
    &&& at == 8 ==> be_field(header, 8, 2) != version
    &&& at > 10 ==> be_field(header, 10, 2) == length
    &&& at == 10 ==> be_field(header, 10, 2) != length
    &&& at > 12 ==> be_field(header, 12, 4) == 0
    &&& at == 12 ==> be_field(header, 12, 4) != 0
    &&& at > 16 ==> be_field(header, 16, 16) != 0
    &&& at == 16 ==> be_field(header, 16, 16) == 0
    &&& width matches Some(width) ==> {
        &&& at > 32 ==> be_field(header, 32, 8) != 0 && be_field(header, 32, 8) == width
        &&& at == 32 ==> be_field(header, 32, 8) == 0 || be_field(header, 32, 8) != width
    }
}

/// The bytes that a log's file begins with.
pub open spec fn log_front() -> Seq<u8> {
    seq![0x4eu8, 0x54u8, 0x53u8, 0x51u8, 0x4cu8, 0x4fu8, 0x47u8, 0x31u8]
}

/// The bytes that a store's file begins with.
pub open spec fn store_front() -> Seq<u8> {
    seq![0x4eu8, 0x54u8, 0x53u8, 0x51u8, 0x50u8, 0x47u8, 0x53u8, 0x31u8]
}

/// The header of one of the first three formats is refused for the first of its fields that is
/// wrong, and a width of zero is called that.
pub proof fn law_first_header_fault(
    header: &[u8],
    expectation: HeaderExpectation,
    result: Result<PersistentLogId, FileFormatError>,
)
    requires
        header@.len() == 64,
        call_ensures(parse_header, (header, expectation), result),
    ensures
        result matches Err(error) ==> {
            let (version, width) = match expectation {
                HeaderExpectation::V1 => (1nat, None),
                HeaderExpectation::V2(layout) => (2nat, Some(layout.width_u64)),
                HeaderExpectation::V3OrLater(layout) => (3nat, Some(layout.width_u64)),
            };
            &&& front_fault_is_at(header@, log_front(), version, 64, width, error.offset)
            &&& error.reason is HeaderPageWidthMismatch ==> be_field(header@, 32, 8) != 0
            &&& error.reason is HeaderChecksum ==> match width {
                None => blank(header@, 32, 56),
                Some(_) => blank(header@, 40, 56),
            }
        },
{
    lemma_field_bounds(header@, 8);
    lemma_field_bounds(header@, 10);
    lemma_field_bounds(header@, 12);
    lemma_field_bounds(header@, 16);
    lemma_field_bounds(header@, 32);
    lemma_field_bounds(header@, 56);
}

/// Whether the generation and the first retained position of a header are right.
pub open spec fn first_is_sound(header: Seq<u8>) -> bool {
    &&& be_field(header, 40, 8) != 0
    &&& header[74] == 0 && be_field(header, 48, 8) == 0 || header[74] == 1 && be_field(
        header,
        48,
        8,
    ) != 0
}

/// Whether the logical high water of a header is right too.
pub open spec fn high_water_is_sound(header: Seq<u8>) -> bool {
    &&& first_is_sound(header)
    &&& header[75] == 0 && be_field(header, 56, 8) == 0 || header[75] == 1 && be_field(
        header,
        56,
        8,
    ) != 0
}

/// Whether the two positions of a header agree too.
pub open spec fn positions_are_sound(header: Seq<u8>) -> bool {
    &&& high_water_is_sound(header)
    &&& header[74] == 1 ==> header[75] == 1 && be_field(header, 48, 8) <= be_field(header, 56, 8)
}

/// Whether an error blames the coordinates of a header for the first thing that is wrong with
/// them: from `reserved` on they are followed by zeros.
pub open spec fn blames_coordinates(
    header: Seq<u8>,
    reserved: int,
    error: FileFormatError,
) -> bool {
    match error.reason {
        FileFormatErrorReason::HeaderV4GenerationZero => error.offset == 40 && be_field(
            header,
            40,
            8,
        ) == 0,
        FileFormatErrorReason::HeaderV4RetainedFirstPresence { actual } => {
            &&& error.offset == 74 && be_field(header, 40, 8) != 0
            &&& actual == header[74] && actual > 1
        },
        FileFormatErrorReason::HeaderV4RetainedFirstZero => {
            &&& error.offset == 48 && be_field(header, 40, 8) != 0
            &&& header[74] == 1 && be_field(header, 48, 8) == 0
        },
        FileFormatErrorReason::HeaderV4LogicalHighWaterPresence { actual } => {
            &&& error.offset == 75 && first_is_sound(header)
            &&& actual == header[75] && actual > 1
        },
        FileFormatErrorReason::HeaderV4LogicalHighWaterZero => {
            &&& error.offset == 56 && first_is_sound(header)
            &&& header[75] == 1 && be_field(header, 56, 8) == 0
        },
        FileFormatErrorReason::HeaderV4RetainedFirstWithoutHighWater => {
            &&& error.offset == 48 && high_water_is_sound(header)
            &&& header[74] == 1 && header[75] == 0
        },
        FileFormatErrorReason::HeaderV4RetainedFirstBeyondHighWater {
            retained_first,
            high_water,
        } => {
            &&& error.offset == 48 && high_water_is_sound(header)
            &&& header[74] == 1 && retained_first == be_field(header, 48, 8)
            &&& header[75] == 1 && high_water == be_field(header, 56, 8)
            &&& retained_first > high_water
        },
        FileFormatErrorReason::HeaderV4AllocatedEpochHighWaterZero => {
            &&& error.offset == 64 && positions_are_sound(header)
            &&& be_field(header, 64, 8) == 0
        },
        FileFormatErrorReason::HeaderV4AnchorVersionZero => {
            &&& error.offset == 72 && positions_are_sound(header)
            &&& be_field(header, 64, 8) != 0 && be_field(header, 72, 2) == 0
        },
        FileFormatErrorReason::HeaderV4Reserved => {
            ||| error.offset == 48 && be_field(header, 40, 8) != 0 && header[74] == 0 && be_field(
                header,
                48,
                8,
            ) != 0
            ||| error.offset == 56 && first_is_sound(header) && header[75] == 0 && be_field(
                header,
                56,
                8,
            ) != 0
            ||| error.offset == 76 && spells_coordinates(header) && !(blank(header, reserved, 80)
                && blank(header, 96, 120))
        },
        _ => false,
    }
}

/// Whether an error in the front of a header says what is wrong there.
pub open spec fn blames_front(header: Seq<u8>, width: u64, error: FileFormatError) -> bool {
    match error.reason {
        FileFormatErrorReason::HeaderMagic => error.offset == 0,
        FileFormatErrorReason::HeaderVersion { actual } => error.offset == 8 && actual == be_field(
            header,
            8,
            2,
        ),
        FileFormatErrorReason::HeaderV4Length { actual } => error.offset == 10 && actual
            == be_field(header, 10, 2) && header.len() == 128,
        FileFormatErrorReason::HeaderV5Length { actual } => error.offset == 10 && actual
            == be_field(header, 10, 2) && header.len() == 192,
        FileFormatErrorReason::HeaderFlags { actual } => error.offset == 12 && actual == be_field(
            header,
            12,
            4,
        ),
        FileFormatErrorReason::LineageIdZero => error.offset == 16,
        FileFormatErrorReason::HeaderPageWidthZero => error.offset == 32 && be_field(header, 32, 8)
            == 0,
        FileFormatErrorReason::HeaderPageWidthMismatch { expected, actual } => {
            &&& error.offset == 32 && expected == width
            &&& actual == be_field(header, 32, 8) && actual != 0
        },
        _ => false,
    }
}

/// Whether an error is that of a wrong checksum at the end of a header.
pub open spec fn blames_seal(header: Seq<u8>, error: FileFormatError) -> bool {
    &&& error.reason matches FileFormatErrorReason::HeaderChecksum { expected, actual }
    &&& error.offset == header.len() - 8 && actual == be_field(header, header.len() - 8, 8)
    &&& expected == checksum(header.subrange(0, header.len() - 8)) && expected != actual
}

/// The header of the fourth format is refused for the first thing that is wrong with it: its
/// front before its coordinates, and these before its checksum.
pub proof fn law_first_header_v4_fault(
    header: &[u8],
    layout: PageLayout,
    result: Result<V4HeaderMetadata, FileFormatError>,
)
    requires
        header@.len() == 128,
        call_ensures(parse_header_v4, (header, layout), result),
    ensures
        result matches Err(error) ==> {
            &&& front_fault_is_at(
                header@,
                log_front(),
                4,
                128,
                Some(layout.width_u64),
                error.offset,
            )
            &&& if error.offset < 40 {
                blames_front(header@, layout.width_u64, error)
            } else if error.offset < 120 {
                blames_coordinates(header@, 76, error)
            } else {
                &&& spells_coordinates(header@) && blank(header@, 76, 80)
                &&& blank(header@, 96, 120) && blames_seal(header@, error)
            }
        },
{
    lemma_coordinate_bounds(header@);
}

/// Whether an error blames the identity of a file for the first thing that is wrong with it.
pub open spec fn blames_identity(
    bytes: Seq<u8>,
    at: int,
    reason: DatabaseChildIdentityDecodeErrorReason,
) -> bool {
    let magic = seq![0x4eu8, 0x54u8, 0x53u8, 0x51u8, 0x43u8, 0x46u8, 0x49u8, 0x31u8];
    &&& at > 0 <==> bytes.subrange(0, 8) == magic
    &&& at > 8 ==> be_field(bytes, 8, 2) == 1
    &&& at > 10 ==> be_field(bytes, 10, 2) == 48
    &&& at > 12 ==> bytes[12] == 1 || bytes[12] == 2 || bytes[12] == 3
    &&& at > 13 ==> blank(bytes, 13, 16)
    &&& at > 16 ==> be_field(bytes, 16, 16) != 0
    &&& match reason {
        DatabaseChildIdentityDecodeErrorReason::Magic => at == 0,
        DatabaseChildIdentityDecodeErrorReason::Version { actual } => at == 8 && actual == be_field(
            bytes,
            8,
            2,
        ) && actual != 1,
        DatabaseChildIdentityDecodeErrorReason::Length { actual } => at == 10 && actual == be_field(
            bytes,
            10,
            2,
        ) && actual != 48,
        DatabaseChildIdentityDecodeErrorReason::Role { actual } => at == 12 && actual == bytes[12]
            && (actual == 0 || actual > 3),
        DatabaseChildIdentityDecodeErrorReason::Reserved => at == 13 && !blank(bytes, 13, 16),
        DatabaseChildIdentityDecodeErrorReason::DatabaseIdZero => at == 16 && be_field(
            bytes,
            16,
            16,
        ) == 0,
        DatabaseChildIdentityDecodeErrorReason::FileIdZero => at == 32 && be_field(bytes, 32, 16)
            == 0,
    }
}

proof fn lemma_blamed_identity(bytes: Seq<u8>)
    requires
        bytes.len() == 48,
    ensures
        child_identity_error(bytes) is None <==> is_child_identity(bytes),
        child_identity_error(bytes) matches Some(error) ==> error.offset < 48 && blames_identity(
            bytes,
            error.offset as int,
            error.reason,
        ),
{
    lemma_child_identity(bytes);
    lemma_field_bounds(bytes, 8);
    lemma_field_bounds(bytes, 10);
    lemma_field_bounds(bytes, 16);
    lemma_field_bounds(bytes, 32);
}

/// The identity of a file is refused for the first of its fields that is wrong.
pub proof fn law_first_identity_fault(
    bytes: &[u8],
    result: Result<DatabaseFileHeaderIdentity, DatabaseChildIdentityDecodeError>,
)
    requires
        bytes@.len() == 48,
        call_ensures(decode_database_child_identity, (bytes,), result),
    ensures
        result matches Err(error) ==> blames_identity(bytes@, error.offset as int, error.reason),
{
    lemma_blamed_identity(bytes@);
}

/// Whether what a header of the fifth format says of a reclamation is right.
pub open spec fn reclamation_is_sound(header: Seq<u8>) -> bool {
    header[76] == 0 && blank(header, 40, 128) || header[76] == 1 && spells_coordinates(header)
        && blank(header, 77, 80) && blank(header, 96, 128)
}

/// The header of the fifth format is refused for the first thing that is wrong with it: its
/// front before the reclamation, this before the identity, and the checksum last.
pub proof fn law_first_header_v5_fault(
    header: &[u8],
    layout: PageLayout,
    result: Result<V5HeaderMetadata, FileFormatError>,
)
    requires
        header@.len() == 192,
        call_ensures(parse_header_v5, (header, layout), result),
    ensures
        result matches Err(error) ==> {
            &&& front_fault_is_at(
                header@,
                log_front(),
                5,
                192,
                Some(layout.width_u64),
                error.offset,
            )
            &&& if error.offset < 40 {
                blames_front(header@, layout.width_u64, error)
            } else if error.offset < 128 {
                ||| header@[76] == 0 && error.offset == 40 && error.reason is HeaderV4Reserved
                    && !blank(header@, 40, 128)
                ||| header@[76] == 1 && blames_coordinates(header@, 77, error)
                ||| header@[76] == 1 && error.offset == 120 && error.reason is HeaderV4Reserved
                    && spells_coordinates(header@) && blank(header@, 77, 80) && blank(
                    header@,
                    96,
                    120,
                ) && !blank(header@, 120, 128)
                ||| error.offset == 76 && header@[76] > 1 && error.reason
                    == (FileFormatErrorReason::HeaderV5ReclamationPresence { actual: header@[76] })
            } else {
                &&& reclamation_is_sound(header@)
                &&& match error.reason {
                    FileFormatErrorReason::HeaderDatabaseChildIdentity(reason) => blames_identity(
                        header@.subrange(128, 176),
                        error.offset - 128,
                        reason,
                    ),
                    FileFormatErrorReason::HeaderV4Reserved => error.offset == 176
                        && is_child_identity(header@.subrange(128, 176)) && !blank(
                        header@,
                        176,
                        184,
                    ),
                    _ => is_child_identity(header@.subrange(128, 176)) && blank(header@, 176, 184)
                        && blames_seal(header@, error),
                }
            }
        },
{
    lemma_coordinate_bounds(header@);
    lemma_blamed_identity(header@.subrange(128, 176));
    if blank(header@, 40, 128) {
        assert(blank(header@, 120, 128));
    }
    if blank(header@, 96, 120) && blank(header@, 120, 128) {
        assert(blank(header@, 96, 128));
    }
}

/// The header of a store of the first format is refused for the first of its fields that is
/// wrong.
pub proof fn law_first_store_header_fault(
    header: &[u8],
    width: u64,
    result: Result<PersistentLogId, PageStoreFormatError>,
)
    requires
        header@.len() == 64,
        call_ensures(parse_page_store_header, (header, width), result),
    ensures
        result matches Err(error) ==> {
            &&& front_fault_is_at(header@, store_front(), 1, 64, Some(width), error.offset)
            &&& error.reason is HeaderPageWidthMismatch ==> be_field(header@, 32, 8) != 0
            &&& error.reason is HeaderChecksum ==> blank(header@, 40, 56)
        },
{
    lemma_field_bounds(header@, 8);
    lemma_field_bounds(header@, 10);
    lemma_field_bounds(header@, 12);
    lemma_field_bounds(header@, 16);
    lemma_field_bounds(header@, 32);
    lemma_field_bounds(header@, 56);
}

/// The header of a store of the second format is refused for the first thing that is wrong
/// with it, and the refusal tells what stands there.
pub proof fn law_first_store_header_v2_fault(
    header: &[u8],
    width: u64,
    result: Result<PageStoreHeaderV2Metadata, PageStoreFormatError>,
)
    requires
        header@.len() == 128,
        call_ensures(parse_page_store_header_v2, (header, width), result),
    ensures
        result matches Err(error) ==> {
            &&& front_fault_is_at(header@, store_front(), 2, 128, Some(width), error.offset)
            &&& error.offset > 40 ==> blank(header@, 40, 64)
            &&& error.offset >= 112 ==> is_child_identity(header@.subrange(64, 112))
            &&& error.offset > 112 ==> blank(header@, 112, 120)
            &&& match error.reason {
                PageStoreFormatErrorReason::HeaderMagic => error.offset == 0,
                PageStoreFormatErrorReason::HeaderVersion { actual } => error.offset == 8 && actual
                    == be_field(header@, 8, 2),
                PageStoreFormatErrorReason::HeaderV2Length { actual } => error.offset == 10
                    && actual == be_field(header@, 10, 2),
                PageStoreFormatErrorReason::HeaderFlags { actual } => error.offset == 12 && actual
                    == be_field(header@, 12, 4),
                PageStoreFormatErrorReason::LineageIdZero => error.offset == 16,
                PageStoreFormatErrorReason::HeaderPageWidthZero => error.offset == 32 && be_field(
                    header@,
                    32,
                    8,
                ) == 0,
                PageStoreFormatErrorReason::HeaderPageWidthMismatch { expected, actual } => {
                    &&& error.offset == 32 && expected == width
                    &&& actual == be_field(header@, 32, 8) && actual != 0
                },
                PageStoreFormatErrorReason::HeaderReserved => {
                    ||| error.offset == 40 && !blank(header@, 40, 64)
                    ||| error.offset == 112 && !blank(header@, 112, 120)
                },
                PageStoreFormatErrorReason::HeaderDatabaseChildIdentity(reason) => {
                    &&& 64 <= error.offset < 112
                    &&& blames_identity(header@.subrange(64, 112), error.offset - 64, reason)
                },
                PageStoreFormatErrorReason::HeaderChecksum { expected, actual } => {
                    &&& error.offset == 120 && actual == be_field(header@, 120, 8)
                    &&& expected == checksum(header@.subrange(0, 120)) && expected != actual
                },
                _ => false,
            }
        },
{
    lemma_field_bounds(header@, 8);
    lemma_field_bounds(header@, 10);
    lemma_field_bounds(header@, 12);
    lemma_field_bounds(header@, 16);
    lemma_field_bounds(header@, 32);
    lemma_field_bounds(header@, 120);
    lemma_blamed_identity(header@.subrange(64, 112));
}

/// An epoch's frame is refused for a number of zero first, then for what else stands in it,
/// and only then for being out of order.
pub proof fn law_first_epoch_fault(state: ScanModel, frame: FrameModel, offset: u64)
    requires
        state.pending is None,
        frame.kind == FrameKind::EpochAllocation,
        offset <= u64::MAX - 56,
    ensures
        step(state, frame, offset) matches Err(error) ==> {
            &&& frame.payload0 == 0 <==> error.reason is EpochValueZero
            &&& frame.payload0 != 0 && frame.payload1 != 0 ==> error.offset == offset + 24
            &&& frame.payload0 != 0 && frame.payload1 == 0 && frame.payload2 != 0 ==> error.offset
                == offset + 32
        },
{
}

/// A commit's frame is refused for a number of zero first, in the order in which the numbers
/// stand; then for its position, then for an epoch that was not allocated, and last for a
/// transaction that is committed already.
pub proof fn law_first_commit_fault(state: ScanModel, frame: FrameModel, offset: u64)
    requires
        state.pending is None,
        frame.kind == FrameKind::CommitRecord,
        offset <= u64::MAX - 56,
    ensures
        step(state, frame, offset) matches Err(error) ==> {
            let numbered = frame.payload0 != 0 && frame.payload1 != 0 && frame.payload2 != 0;
            let placed = numbered && state.next_position == Some(frame.payload0);
            &&& frame.payload0 == 0 <==> error.reason is CommitPositionZero
            &&& frame.payload0 != 0 && frame.payload1 == 0 <==> error.reason is CommitEpochZero
            &&& frame.payload0 != 0 && frame.payload1 != 0 && frame.payload2 == 0
                <==> error.reason is CommitSequenceZero
            &&& numbered && state.next_position is None
                <==> error.reason is CommitPositionSpaceExhausted
            &&& numbered && state.next_position is Some && !placed
                <==> error.reason is CommitPositionOutOfSequence
            &&& placed && frame.payload1 > state.highest_epoch
                <==> error.reason is CommitEpochUnallocated
        },
{
}

/// A marker's frame is refused for a position of zero first, then for what else stands in it,
/// then for not going on, and last for a record that is not there.
pub proof fn law_first_marker_fault(state: ScanModel, frame: FrameModel, offset: u64)
    requires
        state.pending is None,
        frame.kind == FrameKind::DurableThrough,
        offset <= u64::MAX - 56,
    ensures
        step(state, frame, offset) matches Err(error) ==> {
            let alone = frame.payload0 != 0 && frame.payload1 == 0 && frame.payload2 == 0;
            &&& frame.payload0 == 0 <==> error.reason is MarkerPositionZero
            &&& frame.payload0 != 0 && frame.payload1 != 0 ==> error.offset == offset + 24
            &&& frame.payload0 != 0 && frame.payload1 == 0 && frame.payload2 != 0 ==> error.offset
                == offset + 32
            &&& alone && (state.last_durable matches Some(previous) && frame.payload0 <= previous)
                <==> error.reason is MarkerDoesNotAdvance
        },
{
}

/// The header of a page is refused for a position of zero first, then for the position, then
/// for a page number of zero, and last where the log has no pages.
pub proof fn law_first_page_header_fault(state: ScanModel, frame: FrameModel, offset: u64)
    requires
        state.pending is None,
        frame.kind == FrameKind::PageHeader || frame.kind == FrameKind::TransactionPageHeader,
        offset <= u64::MAX - 56,
    ensures
        step(state, frame, offset) matches Err(error) ==> {
            let placed = frame.payload0 != 0 && state.next_position == Some(frame.payload0);
            &&& frame.payload0 == 0 <==> error.reason is PageHeaderPositionZero
            &&& frame.payload0 != 0 && state.next_position is None
                <==> error.reason is PageHeaderPositionSpaceExhausted
            &&& frame.payload0 != 0 && state.next_position is Some && !placed
                <==> error.reason is PageHeaderPositionOutOfSequence
            &&& placed && frame.payload1 == 0 <==> error.reason is PageNumberZero
            &&& placed && frame.payload1 != 0 <==> error.reason is PageDataWithoutHeader
        },
{
}

/// The owner of a page is refused for another kind of frame first, then for its page, then for
/// its epoch, and last for its sequence.
pub proof fn law_first_owner_fault(
    state: ScanModel,
    pending: PendingModel,
    frame: FrameModel,
    offset: u64,
)
    requires
        state.pending == Some(pending),
        pending.owner is Awaiting,
        offset <= u64::MAX - 56,
    ensures
        step(state, frame, offset) matches Err(error) ==> {
            let awaited = frame.kind == FrameKind::TransactionPageOwner;
            let placed = awaited && frame.payload0 != 0 && frame.payload0 == pending.position;
            &&& !awaited <==> error.reason is TransactionPageOwnerInterruptedByFrameKind
            &&& awaited && frame.payload0 == 0
                <==> error.reason is TransactionPageOwnerParentPositionZero
            &&& awaited && frame.payload0 != 0 && !placed
                <==> error.reason is TransactionPageOwnerParentMismatch
            &&& placed && frame.payload1 == 0 <==> error.reason is TransactionPageOwnerEpochZero
            &&& placed && frame.payload1 != 0 && frame.payload1 > state.highest_epoch
                <==> error.reason is TransactionPageOwnerEpochUnallocated
        },
{
}

/// A piece of a page is refused for another kind of frame first, then for its page, then for
/// its place in the page, and last for what stands behind the page's end.
pub proof fn law_first_data_fault(
    state: ScanModel,
    pending: PendingModel,
    frame: FrameModel,
    offset: u64,
)
    requires
        state.pending == Some(pending),
        !(pending.owner is Awaiting),
        pending.bytes.len() % 8 == 0,
        offset <= u64::MAX - 56,
    ensures
        step(state, frame, offset) matches Err(error) ==> {
            let awaited = frame.kind == FrameKind::PageData;
            let placed = awaited && frame.payload0 != 0 && frame.payload0 == pending.position;
            &&& !awaited <==> error.offset == offset + 4
            &&& awaited && frame.payload0 == 0 <==> error.reason is PageDataParentPositionZero
            &&& awaited && frame.payload0 != 0 && !placed
                <==> error.reason is PageDataParentMismatch
            &&& placed && 8 * frame.payload1 != pending.bytes.len()
                <==> error.reason is PageDataChunkIndexOutOfSequence
        },
{
}

/// The header of a snapshot is refused for another kind of frame first, then for its sequence
/// number, and last for a page number of zero.
pub proof fn law_first_snapshot_header_fault(
    state: StoreScanModel,
    frame: StoreFrameModel,
    offset: u64,
)
    requires
        state.pending is None,
        offset <= u64::MAX - 56,
    ensures
        store_step(state, frame, offset) matches Err(error) ==> {
            let awaited = frame.kind == PageStoreFrameKind::SnapshotHeader;
            let placed = awaited && frame.payload_a != 0 && state.next_sequence == Some(
                frame.payload_a,
            );
            &&& !awaited <==> error.reason is PageDataWithoutHeader
            &&& awaited && frame.payload_a == 0 <==> error.reason is SnapshotSequenceZero
            &&& awaited && frame.payload_a != 0 && state.next_sequence is None
                <==> error.reason is SnapshotSequenceSpaceExhausted
            &&& awaited && frame.payload_a != 0 && state.next_sequence is Some && !placed
                <==> error.reason is SnapshotSequenceOutOfOrder
            &&& placed <==> error.reason is SnapshotPageNumberZero
        },
{
}

/// What follows the header of a snapshot is refused for another kind of frame first, then for
/// its sequence number, then in the order in which the numbers stand.
pub proof fn law_first_group_fault(
    state: StoreScanModel,
    pending: GroupModel,
    frame: StoreFrameModel,
    offset: u64,
)
    requires
        state.pending == Some(pending),
        pending.bytes.len() % 8 == 0,
        offset <= u64::MAX - 56,
    ensures
        store_step(state, frame, offset) matches Err(error) ==> {
            let awaited = frame.kind == (if pending.position is None {
                PageStoreFrameKind::RequiredPosition
            } else {
                PageStoreFrameKind::PageData
            });
            let placed = awaited && frame.payload_a == pending.sequence;
            &&& !awaited <==> error.offset == offset + 4
            &&& awaited && !placed <==> error.offset == offset + 16
            &&& pending.position is None ==> (placed && frame.payload_b == 0
                <==> error.reason is RequiredPositionZero)
            &&& pending.position is Some ==> (placed && 8 * frame.payload_b != pending.bytes.len()
                <==> error.reason is PageDataChunkIndexOutOfSequence)
        },
{
}

} // verus!
