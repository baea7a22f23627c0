//! The header of a commit-log file in each of its versions.
//!
//! Versions 1 to 3 have 64 bytes: magic `NTSQLOG1`, `u16` version, `u16` length,
//! `u32` flags (`0`), nonzero `u128` lineage ID, `u64` page width (zero in
//! version 1), reserved zeros, and the checksum of what precedes it.
//!
//! Version 4 has 128 bytes. Behind the page width it stores the coordinates of a
//! reclaimed generation:
//!
//! - `40..48`   : nonzero generation
//! - `48..56`   : first retained position, or zero
//! - `56..64`   : logical high-water position, or zero
//! - `64..72`   : nonzero allocated-epoch high-water
//! - `72..74`   : nonzero `u16` version of the checkpoint anchor
//! - `74`, `75` : presence of the two positions
//! - `76..80`   : reserved zeros
//! - `80..96`   : `u128` checkpoint anchor
//! - `96..120`  : reserved zeros
//! - `120..128` : checksum
//!
//! Version 5 has 192 bytes. It keeps this geometry through byte `119`, says at
//! byte `76` whether the coordinates are present, reserves `120..128`, stores the
//! child identity at `128..176`, reserves `176..184` and ends with the checksum.
use vstd::prelude::*;

use crate::bytes::{
    append_slice, append_u128, append_u16, append_u32, append_u64, append_zeros, be_bytes, be_field,
    checksum, checksum_v1, is_zero_range, lemma_be_bytes_len, lemma_be_value_of_bytes,
    lemma_pow256_values, lemma_sealed, matches_at, read_u128, read_u16, read_u32, read_u64, seal,
    sealed, zero_range, zeros,
};
use crate::database_identity::{
    child_identity_bytes, child_identity_error, child_identity_of,
    decode_database_child_identity, encode_database_child_identity, law_child_identity_round_trip,
    ChildIdentityModel, DatabaseFileHeaderIdentity,
};
use crate::format::{
    LogFormat, PageLayout, HEADER_LENGTH, HEADER_V4_LENGTH, HEADER_V5_LENGTH,
};
use crate::identity::PersistentLogId;
use crate::log_error::{FileFormatError, FileFormatErrorReason};

verus! {

/// Which versions a caller is ready to open, and with which page layout.
#[derive(Clone, Copy, Debug, PartialEq, Eq, Structural)]
pub enum HeaderExpectation {
    V1,
    V2(PageLayout),
    V3OrLater(PageLayout),
}

impl HeaderExpectation {
    pub open spec fn spec_accepts(self, format: LogFormat) -> bool {
        match self {
            HeaderExpectation::V1 => format == LogFormat::V1,
            HeaderExpectation::V2(_) => format == LogFormat::V2,
            HeaderExpectation::V3OrLater(_) => format.has_transaction_pages(),
        }
    }

    pub open spec fn spec_page_layout(self) -> Option<PageLayout> {
        match self {
            HeaderExpectation::V1 => None,
            HeaderExpectation::V2(layout) => Some(layout),
            HeaderExpectation::V3OrLater(layout) => Some(layout),
        }
    }

    pub fn accepts(self, format: LogFormat) -> (accepted: bool)
        ensures
            accepted == self.spec_accepts(format),
    {
        match self {
            HeaderExpectation::V1 => format == LogFormat::V1,
            HeaderExpectation::V2(_) => format == LogFormat::V2,
            HeaderExpectation::V3OrLater(_) => format.supports_transaction_pages(),
        }
    }

    pub fn page_layout(self) -> (layout: Option<PageLayout>)
        ensures
            layout == self.spec_page_layout(),
    {
        match self {
            HeaderExpectation::V1 => None,
            HeaderExpectation::V2(layout) => Some(layout),
            HeaderExpectation::V3OrLater(layout) => Some(layout),
        }
    }
}

/// The coordinates that the header of a reclaimed generation stores.
#[derive(Clone, Copy, Debug, PartialEq, Eq, Structural)]
pub struct ReclaimedCoordinates {
    pub generation: u64,
    pub retained_first: Option<u64>,
    pub logical_high_water: Option<u64>,
    pub allocated_epoch_high_water: u64,
    pub anchor_version: u16,
    pub anchor_value: u128,
}

impl ReclaimedCoordinates {
    pub open spec fn wf(self) -> bool {
        &&& self.generation != 0
        &&& self.retained_first != Some(0u64)
        &&& self.logical_high_water != Some(0u64)
        &&& self.retained_first matches Some(first) ==> (self.logical_high_water matches Some(high)
            && first <= high)
        &&& self.allocated_epoch_high_water != 0
        &&& self.anchor_version != 0
    }
}

/// Parsed version 4 header.
#[derive(Clone, Copy, Debug, PartialEq, Eq)]
pub struct V4HeaderMetadata {
    pub persistent_id: PersistentLogId,
    pub generation: u64,
    pub retained_first: Option<u64>,
    pub logical_high_water: Option<u64>,
    pub allocated_epoch_high_water: u64,
    pub selected_checkpoint_anchor: (u16, u128),
}

impl V4HeaderMetadata {
    pub open spec fn coordinates(self) -> ReclaimedCoordinates {
        ReclaimedCoordinates {
            generation: self.generation,
            retained_first: self.retained_first,
            logical_high_water: self.logical_high_water,
            allocated_epoch_high_water: self.allocated_epoch_high_water,
            anchor_version: self.selected_checkpoint_anchor.0,
            anchor_value: self.selected_checkpoint_anchor.1,
        }
    }
}

/// Parsed version 5 header.
#[derive(Clone, Copy, Debug, PartialEq, Eq)]
pub struct V5HeaderMetadata {
    pub persistent_id: PersistentLogId,
    pub generation: u64,
    pub retained_first: Option<u64>,
    pub logical_high_water: Option<u64>,
    pub allocated_epoch_high_water: Option<u64>,
    pub selected_checkpoint_anchor: Option<(u16, u128)>,
    pub database_file_identity: DatabaseFileHeaderIdentity,
}

impl V5HeaderMetadata {
    /// Whether the metadata are those of the given coordinates, or of an initial
    /// file where there are none.
    pub open spec fn has_coordinates(self, coordinates: Option<ReclaimedCoordinates>) -> bool {
        match coordinates {
            None => {
                &&& self.generation == 0
                &&& self.retained_first is None
                &&& self.logical_high_water is None
                &&& self.allocated_epoch_high_water is None
                &&& self.selected_checkpoint_anchor is None
            },
            Some(coordinates) => {
                &&& self.generation == coordinates.generation
                &&& self.retained_first == coordinates.retained_first
                &&& self.logical_high_water == coordinates.logical_high_water
                &&& self.allocated_epoch_high_water == Some(coordinates.allocated_epoch_high_water)
                &&& self.selected_checkpoint_anchor == Some(
                    (coordinates.anchor_version, coordinates.anchor_value),
                )
            },
        }
    }
}

/// `NTSQLOG1`
pub open spec fn header_magic() -> Seq<u8> {
    seq![0x4eu8, 0x54u8, 0x53u8, 0x51u8, 0x4cu8, 0x4fu8, 0x47u8, 0x31u8]
}

pub open spec fn option_value(value: Option<u64>) -> u64 {
    match value {
        Some(number) => number,
        None => 0,
    }
}

pub open spec fn presence_byte(value: Option<u64>) -> u8 {
    if value is Some {
        1
    } else {
        0
    }
}

/// The first forty bytes of every header.
pub open spec fn header_front(version: u16, length: u16, persistent_id: u128, width: u64) -> Seq<u8> {
    header_magic() + be_bytes(version as nat, 2) + be_bytes(length as nat, 2) + be_bytes(0, 4)
        + be_bytes(persistent_id as nat, 16) + be_bytes(width as nat, 8)
}

/// The header of version 1, 2 or 3.
pub open spec fn header_bytes(format: LogFormat, persistent_id: u128, width: u64) -> Seq<u8> {
    let stored_width = if format.has_pages() {
        width
    } else {
        0
    };
    sealed(
        header_front(format.spec_version(), 64, persistent_id, stored_width) + zeros(16),
    )
}

/// Bytes `40..120` of a header that stores coordinates.
pub open spec fn coordinates_bytes(coordinates: ReclaimedCoordinates, presence: u8) -> Seq<u8> {
    be_bytes(coordinates.generation as nat, 8) + be_bytes(
        option_value(coordinates.retained_first) as nat,
        8,
    ) + be_bytes(option_value(coordinates.logical_high_water) as nat, 8) + be_bytes(
        coordinates.allocated_epoch_high_water as nat,
        8,
    ) + be_bytes(coordinates.anchor_version as nat, 2) + seq![
        presence_byte(coordinates.retained_first),
        presence_byte(coordinates.logical_high_water),
        presence,
    ] + zeros(3) + be_bytes(coordinates.anchor_value as nat, 16) + zeros(24)
}

/// The header of version 4.
pub open spec fn header_v4_bytes(
    persistent_id: u128,
    width: u64,
    coordinates: ReclaimedCoordinates,
) -> Seq<u8> {
    sealed(header_front(4, 128, persistent_id, width) + coordinates_bytes(coordinates, 0))
}

/// The header of version 5, with or without coordinates.
pub open spec fn header_v5_bytes(
    persistent_id: u128,
    width: u64,
    coordinates: Option<ReclaimedCoordinates>,
    identity: ChildIdentityModel,
) -> Seq<u8> {
    let middle = match coordinates {
        None => zeros(80),
        Some(coordinates) => coordinates_bytes(coordinates, 1),
    };
    sealed(
        header_front(5, 192, persistent_id, width) + middle + zeros(8) + child_identity_bytes(
            identity,
        ) + zeros(8),
    )
}

pub open spec fn at(offset: u64, reason: FileFormatErrorReason) -> Option<FileFormatError> {
    Some(FileFormatError { offset, reason })
}

/// The first rule that the front of a version 4 or 5 header breaks.
pub open spec fn front_error(header: Seq<u8>, version: u16, length: u16, width: u64) -> Option<
    FileFormatError,
> {
    let actual_version = be_field(header, 8, 2) as u16;
    let actual_length = be_field(header, 10, 2) as u16;
    let flags = be_field(header, 12, 4) as u32;
    let actual_width = be_field(header, 32, 8) as u64;
    if header.subrange(0, 8) != header_magic() {
        at(0, FileFormatErrorReason::HeaderMagic)
    } else if actual_version != version {
        at(8, FileFormatErrorReason::HeaderVersion { actual: actual_version })
    } else if actual_length != length {
        if version == 4 {
            at(10, FileFormatErrorReason::HeaderV4Length { actual: actual_length })
        } else {
            at(10, FileFormatErrorReason::HeaderV5Length { actual: actual_length })
        }
    } else if flags != 0 {
        at(12, FileFormatErrorReason::HeaderFlags { actual: flags })
    } else if be_field(header, 16, 16) == 0 {
        at(16, FileFormatErrorReason::LineageIdZero)
    } else if actual_width == 0 {
        at(32, FileFormatErrorReason::HeaderPageWidthZero)
    } else if actual_width != width {
        at(
            32,
            FileFormatErrorReason::HeaderPageWidthMismatch { expected: width, actual: actual_width },
        )
    } else {
        None
    }
}

/// The coordinates that a header's fields spell.
pub open spec fn coordinates_fields(header: Seq<u8>) -> ReclaimedCoordinates {
    ReclaimedCoordinates {
        generation: be_field(header, 40, 8) as u64,
        retained_first: if header[74] == 0 {
            None
        } else {
            Some(be_field(header, 48, 8) as u64)
        },
        logical_high_water: if header[75] == 0 {
            None
        } else {
            Some(be_field(header, 56, 8) as u64)
        },
        allocated_epoch_high_water: be_field(header, 64, 8) as u64,
        anchor_version: be_field(header, 72, 2) as u16,
        anchor_value: be_field(header, 80, 16) as u128,
    }
}

/// The first rule that a header's coordinates break. The reserved bytes before
/// the anchor start at `reserved`.
pub open spec fn coordinates_error(header: Seq<u8>, reserved: int) -> Option<FileFormatError> {
    let fields = coordinates_fields(header);
    if fields.generation == 0 {
        at(40, FileFormatErrorReason::HeaderV4GenerationZero)
    } else if header[74] == 0 && be_field(header, 48, 8) != 0 {
        at(48, FileFormatErrorReason::HeaderV4Reserved)
    } else if header[74] > 1 {
        at(74, FileFormatErrorReason::HeaderV4RetainedFirstPresence { actual: header[74] })
    } else if fields.retained_first == Some(0u64) {
        at(48, FileFormatErrorReason::HeaderV4RetainedFirstZero)
    } else if header[75] == 0 && be_field(header, 56, 8) != 0 {
        at(56, FileFormatErrorReason::HeaderV4Reserved)
    } else if header[75] > 1 {
        at(75, FileFormatErrorReason::HeaderV4LogicalHighWaterPresence { actual: header[75] })
    } else if fields.logical_high_water == Some(0u64) {
        at(56, FileFormatErrorReason::HeaderV4LogicalHighWaterZero)
    } else if fields.retained_first is Some && fields.logical_high_water is None {
        at(48, FileFormatErrorReason::HeaderV4RetainedFirstWithoutHighWater)
    } else if fields.retained_first is Some && fields.retained_first->0
        > fields.logical_high_water->0 {
        at(
            48,
            FileFormatErrorReason::HeaderV4RetainedFirstBeyondHighWater {
                retained_first: fields.retained_first->0,
                high_water: fields.logical_high_water->0,
            },
        )
    } else if fields.allocated_epoch_high_water == 0 {
        at(64, FileFormatErrorReason::HeaderV4AllocatedEpochHighWaterZero)
    } else if fields.anchor_version == 0 {
        at(72, FileFormatErrorReason::HeaderV4AnchorVersionZero)
    } else if !zero_range(header, reserved, 80) || !zero_range(header, 96, 120) {
        at(76, FileFormatErrorReason::HeaderV4Reserved)
    } else {
        None
    }
}

/// Whether the checksum at `offset` does not fit what precedes it.
pub open spec fn seal_error(header: Seq<u8>, offset: int) -> Option<FileFormatError> {
    let actual = be_field(header, offset, 8) as u64;
    let expected = checksum(header.subrange(0, offset));
    if actual != expected {
        at(offset as u64, FileFormatErrorReason::HeaderChecksum { expected, actual })
    } else {
        None
    }
}

/// The first rule that a header of version 1, 2 or 3 breaks.
pub open spec fn header_error(header: Seq<u8>, expectation: HeaderExpectation) -> Option<
    FileFormatError,
> {
    let version = be_field(header, 8, 2) as u16;
    let length = be_field(header, 10, 2) as u16;
    let flags = be_field(header, 12, 4) as u32;
    let width = be_field(header, 32, 8) as u64;
    if header.subrange(0, 8) != header_magic() {
        at(0, FileFormatErrorReason::HeaderMagic)
    } else if version != match expectation {
        HeaderExpectation::V1 => 1u16,
        HeaderExpectation::V2(_) => 2u16,
        HeaderExpectation::V3OrLater(_) => 3u16,
    } {
        at(8, FileFormatErrorReason::HeaderVersion { actual: version })
    } else if length != 64 {
        at(10, FileFormatErrorReason::HeaderLength { actual: length })
    } else if flags != 0 {
        at(12, FileFormatErrorReason::HeaderFlags { actual: flags })
    } else if be_field(header, 16, 16) == 0 {
        at(16, FileFormatErrorReason::LineageIdZero)
    } else {
        match expectation.spec_page_layout() {
            None => if !zero_range(header, 32, 56) {
                at(32, FileFormatErrorReason::HeaderReserved)
            } else {
                seal_error(header, 56)
            },
            Some(layout) => if width == 0 {
                at(32, FileFormatErrorReason::HeaderPageWidthZero)
            } else if width != layout.width_u64 {
                at(
                    32,
                    FileFormatErrorReason::HeaderPageWidthMismatch {
                        expected: layout.width_u64,
                        actual: width,
                    },
                )
            } else if !zero_range(header, 40, 56) {
                at(40, FileFormatErrorReason::HeaderReserved)
            } else {
                seal_error(header, 56)
            },
        }
    }
}

/// The first rule that a version 4 header breaks.
pub open spec fn header_v4_error(header: Seq<u8>, width: u64) -> Option<FileFormatError> {
    if front_error(header, 4, 128, width) is Some {
        front_error(header, 4, 128, width)
    } else if coordinates_error(header, 76) is Some {
        coordinates_error(header, 76)
    } else {
        seal_error(header, 120)
    }
}

/// The coordinates of a version 5 header, where it has any.
pub open spec fn header_v5_coordinates(header: Seq<u8>) -> Option<ReclaimedCoordinates> {
    if header[76] == 0 {
        None
    } else {
        Some(coordinates_fields(header))
    }
}

/// The first rule that a version 5 header breaks.
pub open spec fn header_v5_error(header: Seq<u8>, width: u64) -> Option<FileFormatError> {
    if front_error(header, 5, 192, width) is Some {
        front_error(header, 5, 192, width)
    } else if header[76] == 0 && !zero_range(header, 40, 128) {
        at(40, FileFormatErrorReason::HeaderV4Reserved)
    } else if header[76] == 1 && coordinates_error(header, 77) is Some {
        coordinates_error(header, 77)
    } else if header[76] > 1 {
        at(76, FileFormatErrorReason::HeaderV5ReclamationPresence { actual: header[76] })
    } else if !zero_range(header, 120, 128) {
        at(120, FileFormatErrorReason::HeaderV4Reserved)
    } else {
        match child_identity_error(header.subrange(128, 176)) {
            Some(error) => at(
                (128 + error.offset) as u64,
                FileFormatErrorReason::HeaderDatabaseChildIdentity(error.reason),
            ),
            None => if !zero_range(header, 176, 184) {
                at(176, FileFormatErrorReason::HeaderV4Reserved)
            } else {
                seal_error(header, 184)
            },
        }
    }
}

fn refused<T>(offset: u64, reason: FileFormatErrorReason) -> (result: Result<T, FileFormatError>)
    ensures
        result == Err::<T, _>(FileFormatError { offset, reason }),
{
    Err(FileFormatError::new(offset, reason))
}

fn check_seal(header: &[u8], offset: usize) -> (result: Result<(), FileFormatError>)
    requires
        offset + 8 == header@.len(),
    ensures
        result == match seal_error(header@, offset as int) {
            Some(error) => Err(error),
            None => Ok(()),
        },
{
    let actual: u64 = read_u64(header, offset);
    let expected: u64 = checksum_v1(&header[0..offset]);
    if actual != expected {
        return refused(
            offset as u64,
            FileFormatErrorReason::HeaderChecksum { expected, actual },
        );
    }
    Ok(())
}

fn has_header_magic(header: &[u8]) -> (same: bool)
    requires
        header@.len() >= 64,
    ensures
        same == (header@.subrange(0, 8) == header_magic()),
{
    let magic: [u8; 8] = [0x4eu8, 0x54u8, 0x53u8, 0x51u8, 0x4cu8, 0x4fu8, 0x47u8, 0x31u8];
    assert(magic@ =~= header_magic());
    matches_at(header, 0, &magic)
}

/// Parses a header of version 1, 2 or 3.
pub fn parse_header(header: &[u8], expectation: HeaderExpectation) -> (result: Result<
    PersistentLogId,
    FileFormatError,
>)
    requires
        header@.len() == 64,
    ensures
        match header_error(header@, expectation) {
            Some(error) => result == Err::<PersistentLogId, _>(error),
            None => result matches Ok(id) && id@ == be_field(header@, 16, 16),
        },
{
    if !has_header_magic(header) {
        return refused(0, FileFormatErrorReason::HeaderMagic);
    }
    let version: u16 = read_u16(header, 8);
    let format: LogFormat = match version {
        1 => LogFormat::V1,
        2 => LogFormat::V2,
        3 => LogFormat::V3,
        _ => {
            return refused(8, FileFormatErrorReason::HeaderVersion { actual: version });
        },
    };
    if !expectation.accepts(format) {
        return refused(8, FileFormatErrorReason::HeaderVersion { actual: version });
    }
    let length: u16 = read_u16(header, 10);
    if length != 64 {
        return refused(10, FileFormatErrorReason::HeaderLength { actual: length });
    }
    let flags: u32 = read_u32(header, 12);
    if flags != 0 {
        return refused(12, FileFormatErrorReason::HeaderFlags { actual: flags });
    }
    let persistent_id: PersistentLogId = match PersistentLogId::new(read_u128(header, 16)) {
        Some(id) => id,
        None => {
            return refused(16, FileFormatErrorReason::LineageIdZero);
        },
    };
    match expectation.page_layout() {
        None => {
            if !is_zero_range(header, 32, 56) {
                return refused(32, FileFormatErrorReason::HeaderReserved);
            }
        },
        Some(layout) => {
            let width: u64 = read_u64(header, 32);
            if width == 0 {
                return refused(32, FileFormatErrorReason::HeaderPageWidthZero);
            }
            if width != layout.width_u64 {
                return refused(
                    32,
                    FileFormatErrorReason::HeaderPageWidthMismatch {
                        expected: layout.width_u64,
                        actual: width,
                    },
                );
            }
            if !is_zero_range(header, 40, 56) {
                return refused(40, FileFormatErrorReason::HeaderReserved);
            }
        },
    }
    match check_seal(header, 56) {
        Ok(()) => Ok(persistent_id),
        Err(error) => Err(error),
    }
}

fn parse_front(header: &[u8], version: u16, length: u16, width: u64) -> (result: Result<
    PersistentLogId,
    FileFormatError,
>)
    requires
        header@.len() >= 64,
    ensures
        match front_error(header@, version, length, width) {
            Some(error) => result == Err::<PersistentLogId, _>(error),
            None => result matches Ok(id) && id@ == be_field(header@, 16, 16),
        },
{
    if !has_header_magic(header) {
        return refused(0, FileFormatErrorReason::HeaderMagic);
    }
    let actual_version: u16 = read_u16(header, 8);
    if actual_version != version {
        return refused(8, FileFormatErrorReason::HeaderVersion { actual: actual_version });
    }
    let actual_length: u16 = read_u16(header, 10);
    if actual_length != length {
        if version == 4 {
            return refused(10, FileFormatErrorReason::HeaderV4Length { actual: actual_length });
        }
        return refused(10, FileFormatErrorReason::HeaderV5Length { actual: actual_length });
    }
    let flags: u32 = read_u32(header, 12);
    if flags != 0 {
        return refused(12, FileFormatErrorReason::HeaderFlags { actual: flags });
    }
    let persistent_id: PersistentLogId = match PersistentLogId::new(read_u128(header, 16)) {
        Some(id) => id,
        None => {
            return refused(16, FileFormatErrorReason::LineageIdZero);
        },
    };
    let actual_width: u64 = read_u64(header, 32);
    if actual_width == 0 {
        return refused(32, FileFormatErrorReason::HeaderPageWidthZero);
    }
    if actual_width != width {
        return refused(
            32,
            FileFormatErrorReason::HeaderPageWidthMismatch { expected: width, actual: actual_width },
        );
    }
    Ok(persistent_id)
}

fn parse_coordinates(header: &[u8], reserved: usize) -> (result: Result<
    ReclaimedCoordinates,
    FileFormatError,
>)
    requires
        header@.len() >= 128,
        76 <= reserved <= 77,
    ensures
        result == match coordinates_error(header@, reserved as int) {
            Some(error) => Err(error),
            None => Ok(coordinates_fields(header@)),
        },
{
    let generation: u64 = read_u64(header, 40);
    if generation == 0 {
        return refused(40, FileFormatErrorReason::HeaderV4GenerationZero);
    }
    let retained_first_raw: u64 = read_u64(header, 48);
    let retained_first: Option<u64> = match header[74] {
        0 => {
            if retained_first_raw != 0 {
                return refused(48, FileFormatErrorReason::HeaderV4Reserved);
            }
            None
        },
        1 => Some(retained_first_raw),
        actual => {
            return refused(74, FileFormatErrorReason::HeaderV4RetainedFirstPresence { actual });
        },
    };
    if retained_first.is_some() && retained_first_raw == 0 {
        return refused(48, FileFormatErrorReason::HeaderV4RetainedFirstZero);
    }
    let high_water_raw: u64 = read_u64(header, 56);
    let logical_high_water: Option<u64> = match header[75] {
        0 => {
            if high_water_raw != 0 {
                return refused(56, FileFormatErrorReason::HeaderV4Reserved);
            }
            None
        },
        1 => Some(high_water_raw),
        actual => {
            return refused(75, FileFormatErrorReason::HeaderV4LogicalHighWaterPresence { actual });
        },
    };
    if logical_high_water.is_some() && high_water_raw == 0 {
        return refused(56, FileFormatErrorReason::HeaderV4LogicalHighWaterZero);
    }
    match (retained_first, logical_high_water) {
        (Some(_), None) => {
            return refused(48, FileFormatErrorReason::HeaderV4RetainedFirstWithoutHighWater);
        },
        (Some(first), Some(high_water)) => {
            if first > high_water {
                return refused(
                    48,
                    FileFormatErrorReason::HeaderV4RetainedFirstBeyondHighWater {
                        retained_first: first,
                        high_water,
                    },
                );
            }
        },
        (None, _) => {},
    }
    let allocated_epoch_high_water: u64 = read_u64(header, 64);
    if allocated_epoch_high_water == 0 {
        return refused(64, FileFormatErrorReason::HeaderV4AllocatedEpochHighWaterZero);
    }
    let anchor_version: u16 = read_u16(header, 72);
    if anchor_version == 0 {
        return refused(72, FileFormatErrorReason::HeaderV4AnchorVersionZero);
    }
    if !is_zero_range(header, reserved, 80) || !is_zero_range(header, 96, 120) {
        return refused(76, FileFormatErrorReason::HeaderV4Reserved);
    }
    Ok(
        ReclaimedCoordinates {
            generation,
            retained_first,
            logical_high_water,
            allocated_epoch_high_water,
            anchor_version,
            anchor_value: read_u128(header, 80),
        },
    )
}

/// Parses a version 4 header.
pub fn parse_header_v4(header: &[u8], layout: PageLayout) -> (result: Result<
    V4HeaderMetadata,
    FileFormatError,
>)
    requires
        header@.len() == 128,
    ensures
        match header_v4_error(header@, layout.width_u64) {
            Some(error) => result == Err::<V4HeaderMetadata, _>(error),
            None => {
                &&& result matches Ok(metadata)
                &&& metadata.persistent_id@ == be_field(header@, 16, 16)
                &&& metadata.coordinates() == coordinates_fields(header@)
            },
        },
{
    let persistent_id: PersistentLogId = match parse_front(header, 4, 128, layout.width_u64) {
        Ok(id) => id,
        Err(error) => {
            return Err(error);
        },
    };
    let coordinates: ReclaimedCoordinates = match parse_coordinates(header, 76) {
        Ok(coordinates) => coordinates,
        Err(error) => {
            return Err(error);
        },
    };
    match check_seal(header, 120) {
        Ok(()) => {},
        Err(error) => {
            return Err(error);
        },
    }
    Ok(
        V4HeaderMetadata {
            persistent_id,
            generation: coordinates.generation,
            retained_first: coordinates.retained_first,
            logical_high_water: coordinates.logical_high_water,
            allocated_epoch_high_water: coordinates.allocated_epoch_high_water,
            selected_checkpoint_anchor: (coordinates.anchor_version, coordinates.anchor_value),
        },
    )
}

/// Parses a version 5 header.
pub fn parse_header_v5(header: &[u8], layout: PageLayout) -> (result: Result<
    V5HeaderMetadata,
    FileFormatError,
>)
    requires
        header@.len() == 192,
    ensures
        match header_v5_error(header@, layout.width_u64) {
            Some(error) => result == Err::<V5HeaderMetadata, _>(error),
            None => {
                &&& result matches Ok(metadata)
                &&& metadata.persistent_id@ == be_field(header@, 16, 16)
                &&& metadata.has_coordinates(header_v5_coordinates(header@))
                &&& metadata.database_file_identity@ == child_identity_of(
                    header@.subrange(128, 176),
                )
            },
        },
{
    let persistent_id: PersistentLogId = match parse_front(header, 5, 192, layout.width_u64) {
        Ok(id) => id,
        Err(error) => {
            return Err(error);
        },
    };
    let coordinates: Option<ReclaimedCoordinates> = match header[76] {
        0 => {
            if !is_zero_range(header, 40, 128) {
                return refused(40, FileFormatErrorReason::HeaderV4Reserved);
            }
            None
        },
        1 => match parse_coordinates(header, 77) {
            Ok(coordinates) => Some(coordinates),
            Err(error) => {
                return Err(error);
            },
        },
        actual => {
            return refused(76, FileFormatErrorReason::HeaderV5ReclamationPresence { actual });
        },
    };
    if !is_zero_range(header, 120, 128) {
        return refused(120, FileFormatErrorReason::HeaderV4Reserved);
    }
    let database_file_identity: DatabaseFileHeaderIdentity = match decode_database_child_identity(
        &header[128..176],
    ) {
        Ok(identity) => identity,
        Err(error) => {
            return refused(
                128 + error.offset() as u64,
                FileFormatErrorReason::HeaderDatabaseChildIdentity(error.reason()),
            );
        },
    };
    if !is_zero_range(header, 176, 184) {
        return refused(176, FileFormatErrorReason::HeaderV4Reserved);
    }
    match check_seal(header, 184) {
        Ok(()) => {},
        Err(error) => {
            return Err(error);
        },
    }
    match coordinates {
        None => Ok(
            V5HeaderMetadata {
                persistent_id,
                generation: 0,
                retained_first: None,
                logical_high_water: None,
                allocated_epoch_high_water: None,
                selected_checkpoint_anchor: None,
                database_file_identity,
            },
        ),
        Some(coordinates) => Ok(
            V5HeaderMetadata {
                persistent_id,
                generation: coordinates.generation,
                retained_first: coordinates.retained_first,
                logical_high_water: coordinates.logical_high_water,
                allocated_epoch_high_water: Some(coordinates.allocated_epoch_high_water),
                selected_checkpoint_anchor: Some(
                    (coordinates.anchor_version, coordinates.anchor_value),
                ),
                database_file_identity,
            },
        ),
    }
}

fn build_front(version: u16, length: u16, persistent_id: PersistentLogId, width: u64) -> (header:
    Vec<u8>)
    ensures
        header@ == header_front(version, length, persistent_id@, width),
        header@.len() == 40,
{
    let mut header: Vec<u8> = vec![0x4eu8, 0x54u8, 0x53u8, 0x51u8, 0x4cu8, 0x4fu8, 0x47u8, 0x31u8];
    assert(header@ =~= header_magic());
    append_u16(&mut header, version);
    append_u16(&mut header, length);
    append_u32(&mut header, 0);
    append_u128(&mut header, persistent_id.get());
    append_u64(&mut header, width);
    proof {
        lemma_front_len(version, length, persistent_id@, width);
    }
    header
}

fn append_coordinates(header: &mut Vec<u8>, coordinates: ReclaimedCoordinates, presence: u8)
    ensures
        final(header)@ == old(header)@ + coordinates_bytes(coordinates, presence),
        final(header)@.len() == old(header)@.len() + 80,
{
    let (first, first_presence): (u64, u8) = match coordinates.retained_first {
        Some(position) => (position, 1),
        None => (0, 0),
    };
    let (high, high_presence): (u64, u8) = match coordinates.logical_high_water {
        Some(position) => (position, 1),
        None => (0, 0),
    };
    append_u64(header, coordinates.generation);
    append_u64(header, first);
    append_u64(header, high);
    append_u64(header, coordinates.allocated_epoch_high_water);
    append_u16(header, coordinates.anchor_version);
    append_slice(header, &[first_presence, high_presence, presence]);
    append_zeros(header, 3);
    append_u128(header, coordinates.anchor_value);
    append_zeros(header, 24);
    proof {
        assert([first_presence, high_presence, presence]@ =~= seq![
            first_presence,
            high_presence,
            presence,
        ]);
        lemma_coordinates_len(coordinates, presence);
        assert(header@ =~= old(header)@ + coordinates_bytes(coordinates, presence));
    }
}

/// Builds a header of version 1, 2 or 3.
pub fn build_header(format: LogFormat, persistent_id: PersistentLogId, page_width: u64) -> (header:
    Vec<u8>)
    ensures
        header@ == header_bytes(format, persistent_id@, page_width),
        header@.len() == 64,
{
    let stored_width: u64 = if format.supports_pages() {
        page_width
    } else {
        0
    };
    let mut header: Vec<u8> = build_front(format.version(), 64, persistent_id, stored_width);
    append_zeros(&mut header, 16);
    seal(&mut header);
    header
}

pub fn build_header_v1(persistent_id: PersistentLogId) -> (header: Vec<u8>)
    ensures
        header@ == header_bytes(LogFormat::V1, persistent_id@, 0),
        header@.len() == 64,
{
    build_header(LogFormat::V1, persistent_id, 0)
}

pub fn build_header_v2(persistent_id: PersistentLogId, page_width: u64) -> (header: Vec<u8>)
    ensures
        header@ == header_bytes(LogFormat::V2, persistent_id@, page_width),
        header@.len() == 64,
{
    build_header(LogFormat::V2, persistent_id, page_width)
}

pub fn build_header_v3(persistent_id: PersistentLogId, page_width: u64) -> (header: Vec<u8>)
    ensures
        header@ == header_bytes(LogFormat::V3, persistent_id@, page_width),
        header@.len() == 64,
{
    build_header(LogFormat::V3, persistent_id, page_width)
}

/// Builds a version 4 header.
pub fn build_header_v4(
    persistent_id: PersistentLogId,
    page_width: u64,
    coordinates: ReclaimedCoordinates,
) -> (header: Vec<u8>)
    ensures
        header@ == header_v4_bytes(persistent_id@, page_width, coordinates),
        header@.len() == 128,
{
    let mut header: Vec<u8> = build_front(4, 128, persistent_id, page_width);
    append_coordinates(&mut header, coordinates, 0);
    seal(&mut header);
    header
}

fn finish_header_v5(header: &mut Vec<u8>, identity: DatabaseFileHeaderIdentity)
    ensures
        final(header)@ == sealed(
            old(header)@ + zeros(8) + child_identity_bytes(identity@) + zeros(8),
        ),
        final(header)@.len() == old(header)@.len() + 72,
{
    append_zeros(header, 8);
    let extension: Vec<u8> = encode_database_child_identity(identity);
    append_slice(header, extension.as_slice());
    append_zeros(header, 8);
    seal(header);
}

/// Builds the version 5 header of a new file.
pub fn build_header_v5_initial(
    persistent_id: PersistentLogId,
    page_width: u64,
    database_file_identity: DatabaseFileHeaderIdentity,
) -> (header: Vec<u8>)
    ensures
        header@ == header_v5_bytes(persistent_id@, page_width, None, database_file_identity@),
        header@.len() == 192,
{
    let mut header: Vec<u8> = build_front(5, 192, persistent_id, page_width);
    append_zeros(&mut header, 80);
    finish_header_v5(&mut header, database_file_identity);
    header
}

/// Builds the version 5 header of a reclaimed generation.
pub fn build_header_v5_reclaimed(
    persistent_id: PersistentLogId,
    page_width: u64,
    coordinates: ReclaimedCoordinates,
    database_file_identity: DatabaseFileHeaderIdentity,
) -> (header: Vec<u8>)
    ensures
        header@ == header_v5_bytes(
            persistent_id@,
            page_width,
            Some(coordinates),
            database_file_identity@,
        ),
        header@.len() == 192,
{
    let mut header: Vec<u8> = build_front(5, 192, persistent_id, page_width);
    append_coordinates(&mut header, coordinates, 1);
    finish_header_v5(&mut header, database_file_identity);
    header
}

pub proof fn lemma_front_len(version: u16, length: u16, persistent_id: u128, width: u64)
    ensures
        header_front(version, length, persistent_id, width).len() == 40,
{
    lemma_be_bytes_len(version as nat, 2);
    lemma_be_bytes_len(length as nat, 2);
    lemma_be_bytes_len(0, 4);
    lemma_be_bytes_len(persistent_id as nat, 16);
    lemma_be_bytes_len(width as nat, 8);
}

pub proof fn lemma_coordinates_len(coordinates: ReclaimedCoordinates, presence: u8)
    ensures
        coordinates_bytes(coordinates, presence).len() == 80,
{
    lemma_be_bytes_len(coordinates.generation as nat, 8);
    lemma_be_bytes_len(option_value(coordinates.retained_first) as nat, 8);
    lemma_be_bytes_len(option_value(coordinates.logical_high_water) as nat, 8);
    lemma_be_bytes_len(coordinates.allocated_epoch_high_water as nat, 8);
    lemma_be_bytes_len(coordinates.anchor_version as nat, 2);
    lemma_be_bytes_len(coordinates.anchor_value as nat, 16);
}

/// What the front of a header says, wherever it is the start of `header`.
proof fn lemma_front_fields(
    header: Seq<u8>,
    version: u16,
    length: u16,
    persistent_id: u128,
    width: u64,
)
    requires
        header.len() >= 40,
        header.take(40) == header_front(version, length, persistent_id, width),
    ensures
        header.subrange(0, 8) == header_magic(),
        be_field(header, 8, 2) == version,
        be_field(header, 10, 2) == length,
        be_field(header, 12, 4) == 0,
        be_field(header, 16, 16) == persistent_id,
        be_field(header, 32, 8) == width,
{
    let front = header_front(version, length, persistent_id, width);
    lemma_pow256_values();
    lemma_be_value_of_bytes(version as nat, 2);
    lemma_be_value_of_bytes(length as nat, 2);
    lemma_be_value_of_bytes(0, 4);
    lemma_be_value_of_bytes(persistent_id as nat, 16);
    lemma_be_value_of_bytes(width as nat, 8);
    assert forall|i: int| 0 <= i < 40 implies header[i] == front[i] by {
        assert(header.take(40)[i] == header[i]);
    }
    assert(header.subrange(0, 8) =~= header_magic());
    assert(header.subrange(8, 10) =~= be_bytes(version as nat, 2));
    assert(header.subrange(10, 12) =~= be_bytes(length as nat, 2));
    assert(header.subrange(12, 16) =~= be_bytes(0, 4));
    assert(header.subrange(16, 32) =~= be_bytes(persistent_id as nat, 16));
    assert(header.subrange(32, 40) =~= be_bytes(width as nat, 8));
}

/// What stored coordinates say, wherever they stand in `header`.
proof fn lemma_coordinates_fields(
    header: Seq<u8>,
    coordinates: ReclaimedCoordinates,
    presence: u8,
)
    requires
        header.len() >= 120,
        header.subrange(40, 120) == coordinates_bytes(coordinates, presence),
        coordinates.wf(),
    ensures
        coordinates_fields(header) == coordinates,
        header[76] == presence,
        presence == 0 ==> coordinates_error(header, 76) is None,
        coordinates_error(header, 77) is None,
{
    let stored = coordinates_bytes(coordinates, presence);
    let first = option_value(coordinates.retained_first);
    let high = option_value(coordinates.logical_high_water);
    lemma_pow256_values();
    lemma_coordinates_len(coordinates, presence);
    lemma_be_value_of_bytes(coordinates.generation as nat, 8);
    lemma_be_value_of_bytes(first as nat, 8);
    lemma_be_value_of_bytes(high as nat, 8);
    lemma_be_value_of_bytes(coordinates.allocated_epoch_high_water as nat, 8);
    lemma_be_value_of_bytes(coordinates.anchor_version as nat, 2);
    lemma_be_value_of_bytes(coordinates.anchor_value as nat, 16);
    assert forall|i: int| 0 <= i < 80 implies #[trigger] header[40 + i] == stored[i] by {
        assert(header.subrange(40, 120)[i] == header[40 + i]);
    }
    assert forall|i: int| 40 <= i < 120 implies #[trigger] header[i] == stored[i - 40] by {
        assert(header[40 + (i - 40)] == stored[i - 40]);
    }
    assert(header.subrange(40, 48) =~= be_bytes(coordinates.generation as nat, 8));
    assert(header.subrange(48, 56) =~= be_bytes(first as nat, 8));
    assert(header.subrange(56, 64) =~= be_bytes(high as nat, 8));
    assert(header.subrange(64, 72) =~= be_bytes(coordinates.allocated_epoch_high_water as nat, 8));
    assert(header.subrange(72, 74) =~= be_bytes(coordinates.anchor_version as nat, 2));
    assert(header.subrange(80, 96) =~= be_bytes(coordinates.anchor_value as nat, 16));
    assert(header[74] == presence_byte(coordinates.retained_first));
    assert(header[75] == presence_byte(coordinates.logical_high_water));
}

/// A header built in version 1, 2 or 3 is accepted by a caller that expects this
/// version and page width, and gives the lineage back.
pub proof fn law_header_round_trip(
    format: LogFormat,
    persistent_id: u128,
    width: u64,
    expectation: HeaderExpectation,
)
    requires
        persistent_id != 0,
        format.spec_version() <= 3,
        expectation.spec_accepts(format),
        expectation.spec_page_layout() matches Some(layout) ==> width != 0 && layout.width_u64
            == width,
    ensures
        header_bytes(format, persistent_id, width).len() == 64,
        header_error(header_bytes(format, persistent_id, width), expectation) is None,
        be_field(header_bytes(format, persistent_id, width), 16, 16) == persistent_id,
        be_field(header_bytes(format, persistent_id, width), 8, 2) == format.spec_version(),
{
    let stored_width = if format.has_pages() {
        width
    } else {
        0
    };
    let front = header_front(format.spec_version(), 64, persistent_id, stored_width);
    let body = front + zeros(16);
    let header = header_bytes(format, persistent_id, width);
    lemma_front_len(format.spec_version(), 64, persistent_id, stored_width);
    lemma_sealed(body);
    assert(seal_error(sealed(body), body.len() as int) is None);
    assert(header.take(40) =~= front) by {
        assert(header.take(56) == body);
        assert forall|i: int| 0 <= i < 40 implies header.take(40)[i] == front[i] by {
            assert(header.take(56)[i] == body[i]);
        }
    }
    lemma_front_fields(header, format.spec_version(), 64, persistent_id, stored_width);
    assert forall|i: int| 40 <= i < 56 implies #[trigger] header[i] == 0 by {
        assert(header.take(56)[i] == body[i]);
    }
    if !format.has_pages() {
        crate::bytes::lemma_be_bytes_zero(8);
        assert(header.subrange(32, 40) =~= be_bytes(0, 8)) by {
            assert forall|i: int| 0 <= i < 8 implies header.subrange(32, 40)[i] == be_bytes(
                0,
                8,
            )[i] by {
                assert(header.take(40)[32 + i] == front[32 + i]);
            }
            lemma_be_bytes_len(0, 8);
            lemma_be_bytes_len(format.spec_version() as nat, 2);
            lemma_be_bytes_len(64, 2);
            lemma_be_bytes_len(0, 4);
            lemma_be_bytes_len(persistent_id as nat, 16);
        }
        assert forall|i: int| 32 <= i < 40 implies #[trigger] header[i] == 0 by {
            assert(header.subrange(32, 40)[i - 32] == zeros(8)[i - 32]);
        }
    }
}

/// A version 4 header gives its lineage and its coordinates back.
pub proof fn law_header_v4_round_trip(
    persistent_id: u128,
    width: u64,
    coordinates: ReclaimedCoordinates,
)
    requires
        persistent_id != 0,
        width != 0,
        coordinates.wf(),
    ensures
        header_v4_bytes(persistent_id, width, coordinates).len() == 128,
        header_v4_error(header_v4_bytes(persistent_id, width, coordinates), width) is None,
        be_field(header_v4_bytes(persistent_id, width, coordinates), 16, 16) == persistent_id,
        be_field(header_v4_bytes(persistent_id, width, coordinates), 8, 2) == 4,
        coordinates_fields(header_v4_bytes(persistent_id, width, coordinates)) == coordinates,
{
    let front = header_front(4, 128, persistent_id, width);
    let stored = coordinates_bytes(coordinates, 0);
    let body = front + stored;
    let header = header_v4_bytes(persistent_id, width, coordinates);
    lemma_front_len(4, 128, persistent_id, width);
    lemma_coordinates_len(coordinates, 0);
    lemma_sealed(body);
    assert(seal_error(sealed(body), body.len() as int) is None);
    assert forall|i: int| 0 <= i < 120 implies #[trigger] header[i] == body[i] by {
        assert(header.take(120)[i] == body[i]);
    }
    assert(header.take(40) =~= front);
    assert(header.subrange(40, 120) =~= stored);
    lemma_front_fields(header, 4, 128, persistent_id, width);
    lemma_coordinates_fields(header, coordinates, 0);
}

/// A version 5 header gives its lineage, its coordinates and its child identity
/// back.
pub proof fn law_header_v5_round_trip(
    persistent_id: u128,
    width: u64,
    coordinates: Option<ReclaimedCoordinates>,
    identity: ChildIdentityModel,
)
    requires
        persistent_id != 0,
        width != 0,
        coordinates matches Some(coordinates) ==> coordinates.wf(),
        identity.wf(),
    ensures
        header_v5_bytes(persistent_id, width, coordinates, identity).len() == 192,
        header_v5_error(header_v5_bytes(persistent_id, width, coordinates, identity), width) is None,
        be_field(header_v5_bytes(persistent_id, width, coordinates, identity), 16, 16)
            == persistent_id,
        be_field(header_v5_bytes(persistent_id, width, coordinates, identity), 8, 2) == 5,
        header_v5_coordinates(header_v5_bytes(persistent_id, width, coordinates, identity))
            == coordinates,
        child_identity_of(
            header_v5_bytes(persistent_id, width, coordinates, identity).subrange(128, 176),
        ) == identity,
{
    let front = header_front(5, 192, persistent_id, width);
    let middle = match coordinates {
        None => zeros(80),
        Some(coordinates) => coordinates_bytes(coordinates, 1),
    };
    let extension = child_identity_bytes(identity);
    let body = front + middle + zeros(8) + extension + zeros(8);
    let header = header_v5_bytes(persistent_id, width, coordinates, identity);
    lemma_front_len(5, 192, persistent_id, width);
    if coordinates is Some {
        lemma_coordinates_len(coordinates->0, 1);
    }
    law_child_identity_round_trip(identity);
    lemma_sealed(body);
    assert(seal_error(sealed(body), body.len() as int) is None);
    assert forall|i: int| 0 <= i < 184 implies #[trigger] header[i] == body[i] by {
        assert(header.take(184)[i] == body[i]);
    }
    assert(header.take(40) =~= front);
    assert(header.subrange(40, 120) =~= middle);
    assert(header.subrange(128, 176) =~= extension);
    lemma_front_fields(header, 5, 192, persistent_id, width);
    match coordinates {
        None => {
            assert(header[76] == middle[36]);
            assert(zero_range(header, 40, 128));
        },
        Some(coordinates) => {
            lemma_coordinates_fields(header, coordinates, 1);
        },
    }
}

/// The length of a header of the given version.
pub open spec fn header_length(version: u16) -> nat {
    if version == 5 {
        192
    } else if version == 4 {
        128
    } else {
        64
    }
}

/// How long the header that begins with `bytes` is, by the version that it names.
pub fn announced_header_length(bytes: &[u8]) -> (length: usize)
    requires
        bytes@.len() >= 10,
    ensures
        length == header_length(be_field(bytes@, 8, 2) as u16),
{
    match read_u16(bytes, 8) {
        5 => HEADER_V5_LENGTH,
        4 => HEADER_V4_LENGTH,
        _ => HEADER_LENGTH,
    }
}

} // verus!
