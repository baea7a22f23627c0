//! Where everything stands in the headers and frames of the two files: what is written
//! there, and exactly which bytes are accepted there.
use vstd::prelude::*;

use crate::bytes::{be_field, checksum, checksum_state, lemma_be_value_bound, lemma_pow256_values};
use crate::database_identity::{
    child_identity_error, child_identity_of, decode_database_child_identity,
    encode_database_child_identity, law_child_identity_round_trip, DatabaseChildIdentityDecodeError,
    DatabaseChildIdentityDecodeErrorReason, DatabaseFileHeaderIdentity, DatabaseFileRole,
};
use crate::format::{LogFormat, PageLayout};
use crate::identity::PersistentLogId;
use crate::log_error::{FileFormatError, FileFormatErrorReason};
use crate::log_frame::{
    build_frame, build_frame_with_payload2_bytes, decoded_frame, law_frame_round_trip,
    law_number_frame_round_trip, parse_frame, DecodedFrame, FrameKind,
};
use crate::log_header::{
    build_header, build_header_v4, build_header_v5_initial, build_header_v5_reclaimed,
    header_v5_coordinates, header_v5_error, law_header_round_trip, law_header_v4_round_trip,
    law_header_v5_round_trip, parse_header, parse_header_v4, parse_header_v5, HeaderExpectation,
    ReclaimedCoordinates, V4HeaderMetadata, V5HeaderMetadata,
};
use crate::page_store_error::{PageStoreFormatError, PageStoreFormatErrorReason};
use crate::page_store_frame::{
    build_page_store_frame, decoded_store_frame, law_store_number_frame_round_trip,
    parse_page_store_frame, DecodedPageStoreFrame, PageStoreFrameKind,
};
use crate::page_store_header::{
    build_page_store_header, build_page_store_header_v2, law_store_header_round_trip,
    law_store_header_v2_round_trip, parse_page_store_header, parse_page_store_header_v2,
    PageStoreHeaderV2Metadata,
};

verus! {

/// Whether every byte from `start` up to `end` is zero.
pub open spec fn blank(bytes: Seq<u8>, start: int, end: int) -> bool {
    forall|i: int| start <= i < end ==> #[trigger] bytes[i] == 0
}

/// Whether the last eight bytes are the checksum of all before them.
pub open spec fn is_sealed(bytes: Seq<u8>) -> bool {
    be_field(bytes, bytes.len() - 8, 8) == checksum(bytes.subrange(0, bytes.len() - 8))
}

/// A number of two, four, eight or sixteen bytes is no larger than such a number can be.
pub proof fn lemma_field_bounds(bytes: Seq<u8>, offset: int)
    requires
        0 <= offset,
    ensures
        offset + 2 <= bytes.len() ==> be_field(bytes, offset, 2) <= u16::MAX,
        offset + 4 <= bytes.len() ==> be_field(bytes, offset, 4) <= u32::MAX,
        offset + 8 <= bytes.len() ==> be_field(bytes, offset, 8) <= u64::MAX,
        offset + 16 <= bytes.len() ==> be_field(bytes, offset, 16) <= u128::MAX,
{
    lemma_pow256_values();
    if offset + 2 <= bytes.len() {
        lemma_be_value_bound(bytes.subrange(offset, offset + 2));
    }
    if offset + 4 <= bytes.len() {
        lemma_be_value_bound(bytes.subrange(offset, offset + 4));
    }
    if offset + 8 <= bytes.len() {
        lemma_be_value_bound(bytes.subrange(offset, offset + 8));
    }
    if offset + 16 <= bytes.len() {
        lemma_be_value_bound(bytes.subrange(offset, offset + 16));
    }
}

/// Numbers are read with the most significant byte first.
pub proof fn law_numbers_are_big_endian(bytes: Seq<u8>, offset: int)
    requires
        0 <= offset,
        offset + 8 <= bytes.len(),
    ensures
        be_field(bytes, offset, 2) == 256 * bytes[offset] + bytes[offset + 1],
        be_field(bytes, offset, 8) == 0x1_0000_0000 * be_field(bytes, offset, 4) + be_field(
            bytes,
            offset + 4,
            4,
        ),
        be_field(bytes, offset, 4) == 0x1_0000 * be_field(bytes, offset, 2) + be_field(
            bytes,
            offset + 2,
            2,
        ),
        be_field(bytes, offset, 8) == 0 <==> blank(bytes, offset, offset + 8),
{
    lemma_field_of_more(bytes, offset, 0);
    lemma_field_of_more(bytes, offset, 1);
    lemma_field_of_more(bytes, offset, 2);
    lemma_field_of_more(bytes, offset, 3);
    lemma_field_of_more(bytes, offset, 4);
    lemma_field_of_more(bytes, offset, 5);
    lemma_field_of_more(bytes, offset, 6);
    lemma_field_of_more(bytes, offset, 7);
    lemma_field_of_more(bytes, offset + 2, 0);
    lemma_field_of_more(bytes, offset + 2, 1);
    lemma_field_of_more(bytes, offset + 4, 0);
    lemma_field_of_more(bytes, offset + 4, 1);
    lemma_field_of_more(bytes, offset + 4, 2);
    lemma_field_of_more(bytes, offset + 4, 3);
    if blank(bytes, offset, offset + 8) {
        assert(bytes[offset] == 0 && bytes[offset + 1] == 0 && bytes[offset + 2] == 0 && bytes[offset
            + 3] == 0 && bytes[offset + 4] == 0 && bytes[offset + 5] == 0 && bytes[offset + 6] == 0
            && bytes[offset + 7] == 0);
    } else if be_field(bytes, offset, 8) == 0 {
        assert forall|i: int| offset <= i < offset + 8 implies #[trigger] bytes[i] == 0 by {
            assert(bytes[offset] == 0 && bytes[offset + 1] == 0 && bytes[offset + 2] == 0
                && bytes[offset + 3] == 0 && bytes[offset + 4] == 0 && bytes[offset + 5] == 0
                && bytes[offset + 6] == 0 && bytes[offset + 7] == 0);
        }
    }
}

proof fn lemma_field_of_more(bytes: Seq<u8>, offset: int, width: int)
    requires
        0 <= offset,
        0 <= width,
        offset + width < bytes.len(),
    ensures
        be_field(bytes, offset, 0) == 0,
        be_field(bytes, offset, width + 1) == 256 * be_field(bytes, offset, width) + bytes[offset
            + width],
{
    let longer = bytes.subrange(offset, offset + width + 1);
    assert(bytes.subrange(offset, offset) =~= Seq::<u8>::empty());
    assert(longer.drop_last() =~= bytes.subrange(offset, offset + width));
    assert(longer.last() == bytes[offset + width]);
}

/// The checksum folds the bytes one after the other, each with one multiplication and one
/// rotation, and then mixes in how many they are.
pub proof fn law_checksum_folds_bytes(bytes: Seq<u8>, byte: u8)
    requires
        bytes.len() < u64::MAX,
    ensures
        checksum(Seq::<u8>::empty()) == 0x4e54_5351_4c43_4b31u64,
        ({
            let before = checksum(bytes) ^ (bytes.len() as u64);
            let mixed = vstd::wrapping::u64_specs::wrapping_mul(
                before ^ (byte as u64),
                0x4e54_5351_4c57_414du64,
            );
            checksum(bytes.push(byte)) == ((mixed << 7) | (mixed >> 57)) ^ 0x4348_4543_4b53_554du64
                ^ ((bytes.len() + 1) as u64)
        }),
{
    lemma_pow256_values();
    let state = checksum_state(bytes);
    let length = bytes.len() as u64;
    assert((state ^ length) ^ length == state) by (bit_vector);
    assert(bytes.push(byte).drop_last() =~= bytes);
    let seed = 0x4e54_5351_4c43_4b31u64;
    assert(seed ^ 0u64 == seed) by (bit_vector);
}

/// The header of a log of the first three formats is accepted exactly where its magic, its
/// version, its length and its checksum are right, its lineage is not zero, its page width is
/// the expected one, and all else in it is zero. It gives its lineage.
pub proof fn law_header_is_accepted(
    header: &[u8],
    expectation: HeaderExpectation,
    result: Result<PersistentLogId, FileFormatError>,
)
    requires
        header@.len() == 64,
        call_ensures(parse_header, (header, expectation), result),
    ensures
        result is Ok <==> {
            &&& header@.subrange(0, 8) == seq![
                0x4eu8,
                0x54u8,
                0x53u8,
                0x51u8,
                0x4cu8,
                0x4fu8,
                0x47u8,
                0x31u8,
            ]
            &&& be_field(header@, 8, 2) == (match expectation {
                HeaderExpectation::V1 => 1nat,
                HeaderExpectation::V2(_) => 2nat,
                HeaderExpectation::V3OrLater(_) => 3nat,
            })
            &&& be_field(header@, 10, 2) == 64
            &&& be_field(header@, 12, 4) == 0
            &&& be_field(header@, 16, 16) != 0
            &&& match expectation {
                HeaderExpectation::V1 => blank(header@, 32, 56),
                HeaderExpectation::V2(layout) | HeaderExpectation::V3OrLater(layout) => be_field(
                    header@,
                    32,
                    8,
                ) != 0 && be_field(header@, 32, 8) == layout.width_u64 && blank(header@, 40, 56),
            }
            &&& is_sealed(header@)
        },
        result matches Ok(id) ==> id@ == be_field(header@, 16, 16),
        result matches Err(error) ==> match error.reason {
            FileFormatErrorReason::HeaderMagic => error.offset == 0,
            FileFormatErrorReason::HeaderVersion { actual } => error.offset == 8 && actual
                == be_field(header@, 8, 2),
            FileFormatErrorReason::HeaderLength { actual } => error.offset == 10 && actual
                == be_field(header@, 10, 2) && actual != 64,
            FileFormatErrorReason::HeaderFlags { actual } => error.offset == 12 && actual
                == be_field(header@, 12, 4) && actual != 0,
            FileFormatErrorReason::LineageIdZero => error.offset == 16 && be_field(header@, 16, 16)
                == 0,
            FileFormatErrorReason::HeaderPageWidthZero => error.offset == 32 && be_field(
                header@,
                32,
                8,
            ) == 0 && expectation != HeaderExpectation::V1,
            FileFormatErrorReason::HeaderPageWidthMismatch { expected, actual } => {
                &&& error.offset == 32 && actual == be_field(header@, 32, 8) && expected != actual
                &&& match expectation {
                    HeaderExpectation::V1 => false,
                    HeaderExpectation::V2(layout) | HeaderExpectation::V3OrLater(layout) => expected
                        == layout.width_u64,
                }
            },
            FileFormatErrorReason::HeaderReserved => if expectation == HeaderExpectation::V1 {
                error.offset == 32 && !blank(header@, 32, 56)
            } else {
                error.offset == 40 && !blank(header@, 40, 56)
            },
            FileFormatErrorReason::HeaderChecksum { expected, actual } => {
                &&& error.offset == 56 && actual == be_field(header@, 56, 8)
                &&& expected == checksum(header@.subrange(0, 56)) && expected != actual
            },
            _ => false,
        },
{
    lemma_field_bounds(header@, 8);
    lemma_field_bounds(header@, 10);
    lemma_field_bounds(header@, 12);
    lemma_field_bounds(header@, 16);
    lemma_field_bounds(header@, 32);
    lemma_field_bounds(header@, 56);
}

/// Whether the fields of a header spell coordinates that a reclamation can have left: none
/// of the numbers that are there is zero, none that is missing is anything else, and the
/// first retained position is not beyond the high water.
pub open spec fn spells_coordinates(header: Seq<u8>) -> bool {
    &&& be_field(header, 40, 8) != 0
    &&& header[74] == 0 && be_field(header, 48, 8) == 0 || header[74] == 1 && be_field(
        header,
        48,
        8,
    ) != 0
    &&& header[75] == 0 && be_field(header, 56, 8) == 0 || header[75] == 1 && be_field(
        header,
        56,
        8,
    ) != 0
    &&& header[74] == 1 ==> header[75] == 1 && be_field(header, 48, 8) <= be_field(header, 56, 8)
    &&& be_field(header, 64, 8) != 0
    &&& be_field(header, 72, 2) != 0
}

/// Whether coordinates are those that the fields of a header spell.
pub open spec fn are_spelled(
    generation: u64,
    retained_first: Option<u64>,
    logical_high_water: Option<u64>,
    allocated_epoch_high_water: u64,
    anchor_version: u16,
    anchor_value: u128,
    header: Seq<u8>,
) -> bool {
    &&& generation == be_field(header, 40, 8)
    &&& match retained_first {
        None => header[74] == 0,
        Some(first) => header[74] == 1 && first == be_field(header, 48, 8),
    }
    &&& match logical_high_water {
        None => header[75] == 0,
        Some(high) => header[75] == 1 && high == be_field(header, 56, 8),
    }
    &&& allocated_epoch_high_water == be_field(header, 64, 8)
    &&& anchor_version == be_field(header, 72, 2)
    &&& anchor_value == be_field(header, 80, 16)
}

pub proof fn lemma_coordinate_bounds(header: Seq<u8>)
    requires
        header.len() >= 128,
    ensures
        be_field(header, 8, 2) <= u16::MAX,
        be_field(header, 10, 2) <= u16::MAX,
        be_field(header, 12, 4) <= u32::MAX,
        be_field(header, 16, 16) <= u128::MAX,
        be_field(header, 32, 8) <= u64::MAX,
        be_field(header, 40, 8) <= u64::MAX,
        be_field(header, 48, 8) <= u64::MAX,
        be_field(header, 56, 8) <= u64::MAX,
        be_field(header, 64, 8) <= u64::MAX,
        be_field(header, 72, 2) <= u16::MAX,
        be_field(header, 80, 16) <= u128::MAX,
        be_field(header, header.len() - 8, 8) <= u64::MAX,
{
    lemma_field_bounds(header, 8);
    lemma_field_bounds(header, 10);
    lemma_field_bounds(header, 12);
    lemma_field_bounds(header, 16);
    lemma_field_bounds(header, 32);
    lemma_field_bounds(header, 40);
    lemma_field_bounds(header, 48);
    lemma_field_bounds(header, 56);
    lemma_field_bounds(header, 64);
    lemma_field_bounds(header, 72);
    lemma_field_bounds(header, 80);
    lemma_field_bounds(header, header.len() - 8);
}

/// Whether the first forty bytes are those of a log header of this version, length and page
/// width.
pub open spec fn has_log_front(header: Seq<u8>, version: nat, length: nat, width: u64) -> bool {
    &&& header.subrange(0, 8) == seq![
        0x4eu8,
        0x54u8,
        0x53u8,
        0x51u8,
        0x4cu8,
        0x4fu8,
        0x47u8,
        0x31u8,
    ]
    &&& be_field(header, 8, 2) == version
    &&& be_field(header, 10, 2) == length
    &&& be_field(header, 12, 4) == 0
    &&& be_field(header, 16, 16) != 0
    &&& be_field(header, 32, 8) != 0
    &&& be_field(header, 32, 8) == width
}

/// The header of a log of the fourth format is accepted exactly where its front, its
/// coordinates and its checksum are right and all else in it is zero, and gives its lineage
/// and its coordinates.
pub proof fn law_header_v4_is_accepted(
    header: &[u8],
    layout: PageLayout,
    result: Result<V4HeaderMetadata, FileFormatError>,
)
    requires
        header@.len() == 128,
        call_ensures(parse_header_v4, (header, layout), result),
    ensures
        result is Ok <==> {
            &&& has_log_front(header@, 4, 128, layout.width_u64)
            &&& spells_coordinates(header@)
            &&& blank(header@, 76, 80) && blank(header@, 96, 120)
            &&& is_sealed(header@)
        },
        result matches Ok(metadata) ==> {
            &&& metadata.persistent_id@ == be_field(header@, 16, 16)
            &&& are_spelled(
                metadata.generation,
                metadata.retained_first,
                metadata.logical_high_water,
                metadata.allocated_epoch_high_water,
                metadata.selected_checkpoint_anchor.0,
                metadata.selected_checkpoint_anchor.1,
                header@,
            )
        },
{
    lemma_coordinate_bounds(header@);
}

/// The header of a log of the fifth format is accepted exactly where its front, the identity
/// of its database and its checksum are right, its coordinates are right or missing
/// altogether, and all else in it is zero. It gives its lineage, its coordinates and that
/// identity.
pub proof fn law_header_v5_is_accepted(
    header: &[u8],
    layout: PageLayout,
    result: Result<V5HeaderMetadata, FileFormatError>,
)
    requires
        header@.len() == 192,
        call_ensures(parse_header_v5, (header, layout), result),
    ensures
        result is Ok <==> {
            &&& has_log_front(header@, 5, 192, layout.width_u64)
            &&& header@[76] == 0 && blank(header@, 40, 128) || header@[76] == 1
                && spells_coordinates(header@) && blank(header@, 77, 80) && blank(header@, 96, 128)
            &&& is_child_identity(header@.subrange(128, 176))
            &&& blank(header@, 176, 184)
            &&& is_sealed(header@)
        },
        result matches Ok(metadata) ==> {
            &&& metadata.persistent_id@ == be_field(header@, 16, 16)
            &&& if header@[76] == 0 {
                &&& metadata.generation == 0
                &&& metadata.retained_first is None && metadata.logical_high_water is None
                &&& metadata.allocated_epoch_high_water is None
                &&& metadata.selected_checkpoint_anchor is None
            } else {
                &&& metadata.allocated_epoch_high_water matches Some(epoch)
                &&& metadata.selected_checkpoint_anchor matches Some(anchor)
                &&& are_spelled(
                    metadata.generation,
                    metadata.retained_first,
                    metadata.logical_high_water,
                    epoch,
                    anchor.0,
                    anchor.1,
                    header@,
                )
            }
            &&& spells_identity(header@.subrange(128, 176), metadata.database_file_identity)
        },
{
    lemma_coordinate_bounds(header@);
    lemma_child_identity(header@.subrange(128, 176));
    if blank(header@, 40, 128) {
        assert(header@[76] == 0);
    }
    if blank(header@, 96, 128) {
        assert(blank(header@, 96, 120));
        assert(blank(header@, 120, 128));
    }
    if blank(header@, 96, 120) && blank(header@, 120, 128) {
        assert(blank(header@, 96, 128));
    }
}

/// Whether 48 bytes are the identity of a file of a database.
pub open spec fn is_child_identity(bytes: Seq<u8>) -> bool {
    &&& bytes.subrange(0, 8) == seq![
        0x4eu8,
        0x54u8,
        0x53u8,
        0x51u8,
        0x43u8,
        0x46u8,
        0x49u8,
        0x31u8,
    ]
    &&& be_field(bytes, 8, 2) == 1
    &&& be_field(bytes, 10, 2) == 48
    &&& bytes[12] == 1 || bytes[12] == 2 || bytes[12] == 3
    &&& blank(bytes, 13, 16)
    &&& be_field(bytes, 16, 16) != 0
    &&& be_field(bytes, 32, 16) != 0
}

/// Whether 48 bytes spell this identity.
pub open spec fn spells_identity(bytes: Seq<u8>, identity: DatabaseFileHeaderIdentity) -> bool {
    &&& identity.database_id@ == be_field(bytes, 16, 16)
    &&& identity.file.file_id@ == be_field(bytes, 32, 16)
    &&& match identity.file.role {
        DatabaseFileRole::Wal => bytes[12] == 1,
        DatabaseFileRole::PageStore => bytes[12] == 2,
        DatabaseFileRole::Completeness => bytes[12] == 3,
    }
}

pub proof fn lemma_child_identity(bytes: Seq<u8>)
    requires
        bytes.len() == 48,
    ensures
        child_identity_error(bytes) is None <==> is_child_identity(bytes),
        be_field(bytes, 16, 16) <= u128::MAX,
        be_field(bytes, 32, 16) <= u128::MAX,
{
    lemma_field_bounds(bytes, 8);
    lemma_field_bounds(bytes, 10);
    lemma_field_bounds(bytes, 16);
    lemma_field_bounds(bytes, 32);
}

/// The identity of a file is accepted exactly where its magic, version and length are right,
/// its role is known, its reserved bytes are zero and neither of its numbers is, and gives
/// what it spells. A refusal tells the place and what stands there.
pub proof fn law_child_identity_is_accepted(
    bytes: &[u8],
    result: Result<DatabaseFileHeaderIdentity, DatabaseChildIdentityDecodeError>,
)
    requires
        bytes@.len() == 48,
        call_ensures(decode_database_child_identity, (bytes,), result),
    ensures
        result is Ok <==> is_child_identity(bytes@),
        result matches Ok(identity) ==> spells_identity(bytes@, identity),
        result matches Err(error) ==> match error.reason {
            DatabaseChildIdentityDecodeErrorReason::Magic => error.offset == 0,
            DatabaseChildIdentityDecodeErrorReason::Version { actual } => error.offset == 8
                && actual == be_field(bytes@, 8, 2) && actual != 1,
            DatabaseChildIdentityDecodeErrorReason::Length { actual } => error.offset == 10
                && actual == be_field(bytes@, 10, 2) && actual != 48,
            DatabaseChildIdentityDecodeErrorReason::Role { actual } => error.offset == 12 && actual
                == bytes@[12] && (actual == 0 || actual > 3),
            DatabaseChildIdentityDecodeErrorReason::Reserved => error.offset == 13 && !blank(
                bytes@,
                13,
                16,
            ),
            DatabaseChildIdentityDecodeErrorReason::DatabaseIdZero => error.offset == 16
                && be_field(bytes@, 16, 16) == 0,
            DatabaseChildIdentityDecodeErrorReason::FileIdZero => error.offset == 32 && be_field(
                bytes@,
                32,
                16,
            ) == 0,
        },
{
    lemma_child_identity(bytes@);
    lemma_field_bounds(bytes@, 8);
    lemma_field_bounds(bytes@, 10);
}

/// What is encoded for the identity of a file spells it.
pub proof fn law_child_identity_is_encoded(identity: DatabaseFileHeaderIdentity, bytes: Vec<u8>)
    requires
        call_ensures(encode_database_child_identity, (identity,), bytes),
        identity.database_id@ != 0,
        identity.file.file_id@ != 0,
    ensures
        bytes@.len() == 48,
        is_child_identity(bytes@),
        spells_identity(bytes@, identity),
{
    law_child_identity_round_trip(identity@);
    lemma_child_identity(bytes@);
    assert(child_identity_of(bytes@) == identity@);
}

/// The headers that are built for the first three formats stand as they are accepted, with
/// the lineage and, from the second format on, the page width.
pub proof fn law_header_is_built(
    format: LogFormat,
    persistent_id: PersistentLogId,
    width: u64,
    header: Vec<u8>,
)
    requires
        format == LogFormat::V1 || format == LogFormat::V2 || format == LogFormat::V3,
        persistent_id@ != 0,
        width != 0,
        call_ensures(build_header, (format, persistent_id, width), header),
    ensures
        header@.len() == 64,
        header@.subrange(0, 8) == seq![
            0x4eu8,
            0x54u8,
            0x53u8,
            0x51u8,
            0x4cu8,
            0x4fu8,
            0x47u8,
            0x31u8,
        ],
        be_field(header@, 8, 2) == (match format {
            LogFormat::V1 => 1nat,
            LogFormat::V2 => 2nat,
            _ => 3nat,
        }),
        be_field(header@, 10, 2) == 64,
        be_field(header@, 12, 4) == 0,
        be_field(header@, 16, 16) == persistent_id@,
        format == LogFormat::V1 ==> blank(header@, 32, 56),
        format != LogFormat::V1 ==> be_field(header@, 32, 8) == width && blank(header@, 40, 56),
        is_sealed(header@),
{
    let layout = PageLayout { width_u64: width, chunk_count: 0, final_chunk_len: 0 };
    let expectation = match format {
        LogFormat::V1 => HeaderExpectation::V1,
        LogFormat::V2 => HeaderExpectation::V2(layout),
        _ => HeaderExpectation::V3OrLater(layout),
    };
    law_header_round_trip(format, persistent_id@, width, expectation);
    lemma_field_bounds(header@, 8);
    lemma_field_bounds(header@, 10);
    lemma_field_bounds(header@, 12);
    lemma_field_bounds(header@, 32);
    lemma_field_bounds(header@, 56);
}

/// The header that is built for the fourth format stands as it is accepted, with the lineage
/// and the coordinates.
pub proof fn law_header_v4_is_built(
    persistent_id: PersistentLogId,
    width: u64,
    coordinates: ReclaimedCoordinates,
    header: Vec<u8>,
)
    requires
        persistent_id@ != 0,
        width != 0,
        coordinates.wf(),
        call_ensures(build_header_v4, (persistent_id, width, coordinates), header),
    ensures
        header@.len() == 128,
        has_log_front(header@, 4, 128, width),
        be_field(header@, 16, 16) == persistent_id@,
        are_spelled(
            coordinates.generation,
            coordinates.retained_first,
            coordinates.logical_high_water,
            coordinates.allocated_epoch_high_water,
            coordinates.anchor_version,
            coordinates.anchor_value,
            header@,
        ),
        blank(header@, 76, 80) && blank(header@, 96, 120),
        is_sealed(header@),
{
    law_header_v4_round_trip(persistent_id@, width, coordinates);
    lemma_coordinate_bounds(header@);
}

proof fn lemma_accepted_header_v5(
    header: Seq<u8>,
    width: u64,
    identity: DatabaseFileHeaderIdentity,
)
    requires
        header.len() == 192,
        header_v5_error(header, width) is None,
        child_identity_of(header.subrange(128, 176)) == identity@,
    ensures
        has_log_front(header, 5, 192, width),
        header_v5_coordinates(header) is None ==> blank(header, 40, 128),
        header_v5_coordinates(header) matches Some(coordinates) ==> header[76] == 1 && are_spelled(
            coordinates.generation,
            coordinates.retained_first,
            coordinates.logical_high_water,
            coordinates.allocated_epoch_high_water,
            coordinates.anchor_version,
            coordinates.anchor_value,
            header,
        ),
        is_child_identity(header.subrange(128, 176)),
        spells_identity(header.subrange(128, 176), identity),
        is_sealed(header),
{
    lemma_coordinate_bounds(header);
    lemma_child_identity(header.subrange(128, 176));
}

/// The headers that are built for the fifth format stand as they are accepted, with the
/// lineage, the identity of the database and, after a reclamation, the coordinates.
pub proof fn law_header_v5_is_built(
    persistent_id: PersistentLogId,
    width: u64,
    coordinates: ReclaimedCoordinates,
    identity: DatabaseFileHeaderIdentity,
    initial: Vec<u8>,
    reclaimed: Vec<u8>,
)
    requires
        persistent_id@ != 0,
        width != 0,
        coordinates.wf(),
        identity.database_id@ != 0,
        identity.file.file_id@ != 0,
        call_ensures(build_header_v5_initial, (persistent_id, width, identity), initial),
        call_ensures(
            build_header_v5_reclaimed,
            (persistent_id, width, coordinates, identity),
            reclaimed,
        ),
    ensures
        initial@.len() == 192 && reclaimed@.len() == 192,
        has_log_front(initial@, 5, 192, width) && has_log_front(reclaimed@, 5, 192, width),
        be_field(initial@, 16, 16) == persistent_id@,
        be_field(reclaimed@, 16, 16) == persistent_id@,
        blank(initial@, 40, 128),
        reclaimed@[76] == 1,
        are_spelled(
            coordinates.generation,
            coordinates.retained_first,
            coordinates.logical_high_water,
            coordinates.allocated_epoch_high_water,
            coordinates.anchor_version,
            coordinates.anchor_value,
            reclaimed@,
        ),
        is_child_identity(initial@.subrange(128, 176)),
        spells_identity(initial@.subrange(128, 176), identity),
        is_child_identity(reclaimed@.subrange(128, 176)),
        spells_identity(reclaimed@.subrange(128, 176), identity),
        is_sealed(initial@) && is_sealed(reclaimed@),
{
    law_header_v5_round_trip(persistent_id@, width, None, identity@);
    law_header_v5_round_trip(persistent_id@, width, Some(coordinates), identity@);
    lemma_accepted_header_v5(initial@, width, identity);
    lemma_accepted_header_v5(reclaimed@, width, identity);
}

/// Whether the first forty bytes are those of a store header of this version, length and page
/// width.
pub open spec fn has_store_front(header: Seq<u8>, version: nat, length: nat, width: u64) -> bool {
    &&& header.subrange(0, 8) == seq![
        0x4eu8,
        0x54u8,
        0x53u8,
        0x51u8,
        0x50u8,
        0x47u8,
        0x53u8,
        0x31u8,
    ]
    &&& be_field(header, 8, 2) == version
    &&& be_field(header, 10, 2) == length
    &&& be_field(header, 12, 4) == 0
    &&& be_field(header, 16, 16) != 0
    &&& be_field(header, 32, 8) != 0
    &&& be_field(header, 32, 8) == width
}

/// The header of a store of the first format is accepted exactly where its front and its
/// checksum are right and all else in it is zero. A refusal tells the place and what stands
/// there.
pub proof fn law_store_header_is_accepted(
    header: &[u8],
    width: u64,
    result: Result<PersistentLogId, PageStoreFormatError>,
)
    requires
        header@.len() == 64,
        call_ensures(parse_page_store_header, (header, width), result),
    ensures
        result is Ok <==> {
            &&& has_store_front(header@, 1, 64, width)
            &&& blank(header@, 40, 56)
            &&& is_sealed(header@)
        },
        result matches Ok(id) ==> id@ == be_field(header@, 16, 16),
        result matches Err(error) ==> match error.reason {
            PageStoreFormatErrorReason::HeaderMagic => error.offset == 0,
            PageStoreFormatErrorReason::HeaderVersion { actual } => error.offset == 8 && actual
                == be_field(header@, 8, 2) && actual != 1,
            PageStoreFormatErrorReason::HeaderLength { actual } => error.offset == 10 && actual
                == be_field(header@, 10, 2) && actual != 64,
            PageStoreFormatErrorReason::HeaderFlags { actual } => error.offset == 12 && actual
                == be_field(header@, 12, 4) && actual != 0,
            PageStoreFormatErrorReason::LineageIdZero => error.offset == 16 && be_field(
                header@,
                16,
                16,
            ) == 0,
            PageStoreFormatErrorReason::HeaderPageWidthZero => error.offset == 32 && be_field(
                header@,
                32,
                8,
            ) == 0,
            PageStoreFormatErrorReason::HeaderPageWidthMismatch { expected, actual } => error.offset
                == 32 && actual == be_field(header@, 32, 8) && expected == width && expected
                != actual,
            PageStoreFormatErrorReason::HeaderReserved => error.offset == 40 && !blank(
                header@,
                40,
                56,
            ),
            PageStoreFormatErrorReason::HeaderChecksum { expected, actual } => {
                &&& error.offset == 56 && actual == be_field(header@, 56, 8)
                &&& expected == checksum(header@.subrange(0, 56)) && expected != actual
            },
            _ => false,
        },
{
    lemma_field_bounds(header@, 8);
    lemma_field_bounds(header@, 10);
    lemma_field_bounds(header@, 12);
    lemma_field_bounds(header@, 16);
    lemma_field_bounds(header@, 32);
    lemma_field_bounds(header@, 56);
}

/// The header of a store of the second format is accepted exactly where its front, the
/// identity of its database and its checksum are right and all else in it is zero.
pub proof fn law_store_header_v2_is_accepted(
    header: &[u8],
    width: u64,
    result: Result<PageStoreHeaderV2Metadata, PageStoreFormatError>,
)
    requires
        header@.len() == 128,
        call_ensures(parse_page_store_header_v2, (header, width), result),
    ensures
        result is Ok <==> {
            &&& has_store_front(header@, 2, 128, width)
            &&& blank(header@, 40, 64)
            &&& is_child_identity(header@.subrange(64, 112))
            &&& blank(header@, 112, 120)
            &&& is_sealed(header@)
        },
        result matches Ok(metadata) ==> {
            &&& metadata.persistent_id@ == be_field(header@, 16, 16)
            &&& spells_identity(header@.subrange(64, 112), metadata.database_file_identity)
        },
{
    lemma_field_bounds(header@, 8);
    lemma_field_bounds(header@, 10);
    lemma_field_bounds(header@, 12);
    lemma_field_bounds(header@, 16);
    lemma_field_bounds(header@, 32);
    lemma_field_bounds(header@, 120);
    lemma_child_identity(header@.subrange(64, 112));
}

/// The headers that are built for a store stand as they are accepted.
pub proof fn law_store_headers_are_built(
    persistent_id: PersistentLogId,
    width: u64,
    identity: DatabaseFileHeaderIdentity,
    first: Vec<u8>,
    second: Vec<u8>,
)
    requires
        persistent_id@ != 0,
        width != 0,
        identity.database_id@ != 0,
        identity.file.file_id@ != 0,
        call_ensures(build_page_store_header, (persistent_id, width), first),
        call_ensures(build_page_store_header_v2, (persistent_id, width, identity), second),
    ensures
        first@.len() == 64 && second@.len() == 128,
        has_store_front(first@, 1, 64, width) && has_store_front(second@, 2, 128, width),
        be_field(first@, 16, 16) == persistent_id@,
        be_field(second@, 16, 16) == persistent_id@,
        blank(first@, 40, 56),
        blank(second@, 40, 64) && blank(second@, 112, 120),
        is_child_identity(second@.subrange(64, 112)),
        spells_identity(second@.subrange(64, 112), identity),
        is_sealed(first@) && is_sealed(second@),
{
    law_store_header_round_trip(persistent_id@, width);
    law_store_header_v2_round_trip(persistent_id@, width, identity@);
    lemma_field_bounds(first@, 8);
    lemma_field_bounds(first@, 10);
    lemma_field_bounds(first@, 12);
    lemma_field_bounds(first@, 32);
    lemma_field_bounds(first@, 56);
    lemma_field_bounds(second@, 8);
    lemma_field_bounds(second@, 10);
    lemma_field_bounds(second@, 12);
    lemma_field_bounds(second@, 32);
    lemma_field_bounds(second@, 120);
    lemma_child_identity(second@.subrange(64, 112));
}

/// The number of a kind of frame.
pub open spec fn kind_number(kind: FrameKind) -> nat {
    match kind {
        FrameKind::EpochAllocation => 1,
        FrameKind::CommitRecord => 2,
        FrameKind::DurableThrough => 3,
        FrameKind::PageHeader => 4,
        FrameKind::PageData => 5,
        FrameKind::TransactionPageHeader => 6,
        FrameKind::TransactionPageOwner => 7,
    }
}

/// Whether frames of this kind may stand in a file of this format.
pub open spec fn may_stand_in(kind: FrameKind, format: LogFormat) -> bool {
    match kind {
        FrameKind::EpochAllocation | FrameKind::CommitRecord | FrameKind::DurableThrough => true,
        FrameKind::PageHeader | FrameKind::PageData => format != LogFormat::V1,
        FrameKind::TransactionPageHeader | FrameKind::TransactionPageOwner => format
            != LogFormat::V1 && format != LogFormat::V2,
    }
}

/// The version number that the frames of a format carry.
pub open spec fn frame_version_number(format: LogFormat) -> nat {
    match format {
        LogFormat::V1 => 1,
        LogFormat::V2 => 2,
        _ => 3,
    }
}

/// Whether a frame has the outer form of a log frame of this format, whatever it says.
pub open spec fn has_frame_form(frame: Seq<u8>, format: LogFormat) -> bool {
    &&& frame.subrange(0, 4) == seq![0x4eu8, 0x54u8, 0x53u8, 0x51u8]
    &&& be_field(frame, 6, 2) == frame_version_number(format)
    &&& be_field(frame, 8, 4) == 0
    &&& be_field(frame, 12, 2) == 56
    &&& be_field(frame, 14, 2) == 0
    &&& blank(frame, 40, 48)
    &&& is_sealed(frame)
}

/// A frame of a log is accepted exactly where its outer form is right and its kind may stand
/// in the format, and says what stands in its three payloads. A refusal tells the place and
/// what stands there.
pub proof fn law_frame_is_accepted(
    frame: &[u8],
    offset: u64,
    format: LogFormat,
    result: Result<DecodedFrame, FileFormatError>,
)
    requires
        frame@.len() == 56,
        offset <= u64::MAX - 56,
        call_ensures(parse_frame, (frame, offset, format), result),
    ensures
        result is Ok <==> {
            &&& has_frame_form(frame@, format)
            &&& exists|kind: FrameKind|
                be_field(frame@, 4, 2) == #[trigger] kind_number(kind) && may_stand_in(kind, format)
        },
        result matches Ok(decoded) ==> {
            &&& be_field(frame@, 4, 2) == kind_number(decoded.kind)
            &&& may_stand_in(decoded.kind, format)
            &&& decoded.payload0 == be_field(frame@, 16, 8)
            &&& decoded.payload1 == be_field(frame@, 24, 8)
            &&& decoded.payload2 == be_field(frame@, 32, 8)
            &&& decoded.payload2_bytes@ == frame@.subrange(32, 40)
        },
        result matches Err(error) ==> match error.reason {
            FileFormatErrorReason::FrameMagic => error.offset == offset,
            FileFormatErrorReason::FrameKind { actual } => error.offset == offset + 4 && actual
                == be_field(frame@, 4, 2),
            FileFormatErrorReason::FrameVersion { actual } => error.offset == offset + 6 && actual
                == be_field(frame@, 6, 2) && actual != frame_version_number(format),
            FileFormatErrorReason::FrameFlags { actual } => error.offset == offset + 8 && actual
                == be_field(frame@, 8, 4) && actual != 0,
            FileFormatErrorReason::FrameLength { actual } => error.offset == offset + 12 && actual
                == be_field(frame@, 12, 2) && actual != 56,
            FileFormatErrorReason::FrameReserved => error.offset == offset + 14 && (be_field(
                frame@,
                14,
                2,
            ) != 0 || !blank(frame@, 40, 48)),
            FileFormatErrorReason::FrameChecksum { expected, actual } => {
                &&& error.offset == offset + 48 && actual == be_field(frame@, 48, 8)
                &&& expected == checksum(frame@.subrange(0, 48)) && expected != actual
            },
            _ => false,
        },
{
    reveal(decoded_frame);
    lemma_field_bounds(frame@, 4);
    lemma_field_bounds(frame@, 6);
    lemma_field_bounds(frame@, 8);
    lemma_field_bounds(frame@, 12);
    lemma_field_bounds(frame@, 14);
    lemma_field_bounds(frame@, 16);
    lemma_field_bounds(frame@, 24);
    lemma_field_bounds(frame@, 32);
    lemma_field_bounds(frame@, 48);
    if let Ok(decoded) = result {
        assert(be_field(frame@, 4, 2) == kind_number(decoded.kind));
    }
}

proof fn lemma_accepted_frame(frame: Seq<u8>, format: LogFormat)
    requires
        frame.len() == 56,
        decoded_frame(frame, 0, format) is Ok,
    ensures
        has_frame_form(frame, format),
        ({
            let model = decoded_frame(frame, 0, format)->Ok_0;
            &&& be_field(frame, 4, 2) == kind_number(model.kind)
            &&& be_field(frame, 16, 8) == model.payload0
            &&& be_field(frame, 24, 8) == model.payload1
            &&& be_field(frame, 32, 8) == model.payload2
            &&& frame.subrange(32, 40) == model.payload2_bytes
        }),
{
    reveal(decoded_frame);
    lemma_field_bounds(frame, 4);
    lemma_field_bounds(frame, 6);
    lemma_field_bounds(frame, 8);
    lemma_field_bounds(frame, 12);
    lemma_field_bounds(frame, 14);
    lemma_field_bounds(frame, 16);
    lemma_field_bounds(frame, 24);
    lemma_field_bounds(frame, 32);
    lemma_field_bounds(frame, 48);
}

/// A frame that is built has the outer form of its format, its kind and its payloads.
pub proof fn law_frame_is_built(
    format: LogFormat,
    kind: FrameKind,
    payload0: u64,
    payload1: u64,
    payload2: u64,
    frame: Vec<u8>,
)
    requires
        may_stand_in(kind, format),
        call_ensures(build_frame, (format, kind, payload0, payload1, payload2), frame),
    ensures
        frame@.len() == 56,
        has_frame_form(frame@, format),
        be_field(frame@, 4, 2) == kind_number(kind),
        be_field(frame@, 16, 8) == payload0,
        be_field(frame@, 24, 8) == payload1,
        be_field(frame@, 32, 8) == payload2,
{
    law_number_frame_round_trip(format, kind, payload0, payload1, payload2, 0);
    lemma_accepted_frame(frame@, format);
}

/// The same of a frame whose third payload is page data.
pub proof fn law_data_frame_is_built(
    format: LogFormat,
    kind: FrameKind,
    payload0: u64,
    payload1: u64,
    payload2: &[u8],
    frame: Vec<u8>,
)
    requires
        may_stand_in(kind, format),
        payload2@.len() == 8,
        call_ensures(
            build_frame_with_payload2_bytes,
            (format, kind, payload0, payload1, payload2),
            frame,
        ),
    ensures
        frame@.len() == 56,
        has_frame_form(frame@, format),
        be_field(frame@, 4, 2) == kind_number(kind),
        be_field(frame@, 16, 8) == payload0,
        be_field(frame@, 24, 8) == payload1,
        frame@.subrange(32, 40) == payload2@,
{
    law_frame_round_trip(format, kind, payload0, payload1, payload2@, 0);
    lemma_accepted_frame(frame@, format);
}

/// The number of a kind of store frame.
pub open spec fn store_kind_number(kind: PageStoreFrameKind) -> nat {
    match kind {
        PageStoreFrameKind::SnapshotHeader => 1,
        PageStoreFrameKind::RequiredPosition => 2,
        PageStoreFrameKind::PageData => 3,
    }
}

/// Whether a frame has the outer form of a store frame, whatever it says.
pub open spec fn has_store_frame_form(frame: Seq<u8>) -> bool {
    &&& frame.subrange(0, 4) == seq![0x4eu8, 0x54u8, 0x53u8, 0x50u8]
    &&& be_field(frame, 6, 2) == 1
    &&& be_field(frame, 8, 4) == 0
    &&& be_field(frame, 12, 2) == 56
    &&& be_field(frame, 14, 2) == 0
    &&& blank(frame, 40, 48)
    &&& is_sealed(frame)
}

/// A frame of a store is accepted exactly where its outer form is right and its kind is known,
/// and says what stands in its three payloads. A refusal tells the place and what stands
/// there.
pub proof fn law_store_frame_is_accepted(
    frame: &[u8],
    offset: u64,
    result: Result<DecodedPageStoreFrame, PageStoreFormatError>,
)
    requires
        frame@.len() == 56,
        offset <= u64::MAX - 56,
        call_ensures(parse_page_store_frame, (frame, offset), result),
    ensures
        result is Ok <==> has_store_frame_form(frame@) && 1 <= be_field(frame@, 4, 2) <= 3,
        result matches Ok(decoded) ==> {
            &&& be_field(frame@, 4, 2) == store_kind_number(decoded.kind)
            &&& decoded.payload_a == be_field(frame@, 16, 8)
            &&& decoded.payload_b == be_field(frame@, 24, 8)
            &&& decoded.payload_c == be_field(frame@, 32, 8)
            &&& decoded.payload_c_bytes@ == frame@.subrange(32, 40)
        },
        result matches Err(error) ==> match error.reason {
            PageStoreFormatErrorReason::FrameMagic => error.offset == offset,
            PageStoreFormatErrorReason::FrameKind { actual } => error.offset == offset + 4
                && actual == be_field(frame@, 4, 2) && (actual == 0 || actual > 3),
            PageStoreFormatErrorReason::FrameVersion { actual } => error.offset == offset + 6
                && actual == be_field(frame@, 6, 2) && actual != 1,
            PageStoreFormatErrorReason::FrameFlags { actual } => error.offset == offset + 8
                && actual == be_field(frame@, 8, 4) && actual != 0,
            PageStoreFormatErrorReason::FrameLength { actual } => error.offset == offset + 12
                && actual == be_field(frame@, 12, 2) && actual != 56,
            PageStoreFormatErrorReason::FrameReserved => error.offset == offset + 14 && (be_field(
                frame@,
                14,
                2,
            ) != 0 || !blank(frame@, 40, 48)),
            PageStoreFormatErrorReason::FrameChecksum { expected, actual } => {
                &&& error.offset == offset + 48 && actual == be_field(frame@, 48, 8)
                &&& expected == checksum(frame@.subrange(0, 48)) && expected != actual
            },
            _ => false,
        },
{
    reveal(decoded_store_frame);
    lemma_field_bounds(frame@, 4);
    lemma_field_bounds(frame@, 6);
    lemma_field_bounds(frame@, 8);
    lemma_field_bounds(frame@, 12);
    lemma_field_bounds(frame@, 14);
    lemma_field_bounds(frame@, 16);
    lemma_field_bounds(frame@, 24);
    lemma_field_bounds(frame@, 32);
    lemma_field_bounds(frame@, 48);
}

/// A store frame that is built has the outer form, its kind and its payloads.
pub proof fn law_store_frame_is_built(
    kind: PageStoreFrameKind,
    payload_a: u64,
    payload_b: u64,
    payload_c: u64,
    frame: Vec<u8>,
)
    requires
        call_ensures(build_page_store_frame, (kind, payload_a, payload_b, payload_c), frame),
    ensures
        frame@.len() == 56,
        has_store_frame_form(frame@),
        be_field(frame@, 4, 2) == store_kind_number(kind),
        be_field(frame@, 16, 8) == payload_a,
        be_field(frame@, 24, 8) == payload_b,
        be_field(frame@, 32, 8) == payload_c,
{
    reveal(decoded_store_frame);
    law_store_number_frame_round_trip(kind, payload_a, payload_b, payload_c, 0);
    lemma_field_bounds(frame@, 4);
    lemma_field_bounds(frame@, 6);
    lemma_field_bounds(frame@, 8);
    lemma_field_bounds(frame@, 12);
    lemma_field_bounds(frame@, 14);
    lemma_field_bounds(frame@, 16);
    lemma_field_bounds(frame@, 24);
    lemma_field_bounds(frame@, 32);
    lemma_field_bounds(frame@, 48);
}

} // verus!
