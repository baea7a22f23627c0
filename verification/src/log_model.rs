//! What a commit log is, and what the bytes of its file mean as a whole.
use vstd::prelude::*;

use crate::bytes::be_field;
use crate::database_identity::{child_identity_of, ChildIdentityModel};
use crate::format::LogFormat;
use crate::log_error::{FaultPoint, FileFormatError, FileFormatErrorReason};
use crate::log_header::{
    at, coordinates_fields, header_error, header_v4_error, header_v5_coordinates, header_v5_error,
    HeaderExpectation, ReclaimedCoordinates,
};
use crate::log_record::RecordModel;
use crate::log_scan::{comes_to_a_record, scan, successor, ScanModel};

verus! {

/// Mathematical content of a commit log.
#[verifier::ext_equal]
pub struct LogModel {
    pub format: LogFormat,
    pub persistent_id: u128,
    pub identity: Option<ChildIdentityModel>,
    /// The coordinates of a reclaimed generation; none in an unreclaimed log.
    pub coordinates: Option<ReclaimedCoordinates>,
    /// The width of a page.
    pub width: nat,
    pub records: Seq<RecordModel>,
    /// How many records the latest durability marker covers.
    pub durable_len: nat,
    pub next_epoch: Option<u64>,
    pub next_position: Option<u64>,
    pub armed_fault: Option<FaultPoint>,
    pub poisoned: bool,
}

impl LogModel {
    pub open spec fn generation(self) -> u64 {
        match self.coordinates {
            Some(coordinates) => coordinates.generation,
            None => 0,
        }
    }

    pub open spec fn retained_first(self) -> Option<u64> {
        match self.coordinates {
            Some(coordinates) => coordinates.retained_first,
            None => None,
        }
    }

    pub open spec fn logical_high_water(self) -> Option<u64> {
        match self.coordinates {
            Some(coordinates) => coordinates.logical_high_water,
            None => None,
        }
    }

    /// The position of the last durable record, or the high water of the header.
    pub open spec fn durable_position(self) -> Option<u64> {
        if self.durable_len > 0 {
            Some(self.records[self.durable_len - 1].position)
        } else {
            self.logical_high_water()
        }
    }

    /// The highest epoch allocated so far.
    pub open spec fn epoch_high_water(self) -> Option<u64> {
        match self.next_epoch {
            None => Some(u64::MAX),
            Some(next) => if next > 1 {
                Some((next - 1) as u64)
            } else {
                None
            },
        }
    }

    /// An empty log of the given format.
    pub open spec fn created(
        format: LogFormat,
        persistent_id: u128,
        identity: Option<ChildIdentityModel>,
        width: nat,
    ) -> LogModel {
        LogModel {
            format,
            persistent_id,
            identity,
            coordinates: None,
            width,
            records: Seq::empty(),
            durable_len: 0,
            next_epoch: Some(1),
            next_position: Some(1),
            armed_fault: None,
            poisoned: false,
        }
    }
}

/// What the header of a file says.
pub struct HeaderModel {
    pub format: LogFormat,
    pub persistent_id: u128,
    pub coordinates: Option<ReclaimedCoordinates>,
    pub identity: Option<ChildIdentityModel>,
    pub length: nat,
}

/// What the header of a file says, or the first rule that it breaks.
#[verifier::opaque]
pub open spec fn read_header(bytes: Seq<u8>, expectation: HeaderExpectation) -> Result<
    HeaderModel,
    FileFormatError,
> {
    let version = be_field(bytes, 8, 2) as u16;
    let too_short = FileFormatError {
        offset: 0,
        reason: FileFormatErrorReason::HeaderTooShort { actual: bytes.len() as u64 },
    };
    let wrong_version = FileFormatError {
        offset: 8,
        reason: FileFormatErrorReason::HeaderVersion { actual: version },
    };
    if bytes.len() < 64 {
        Err(too_short)
    } else if version == 5 {
        if !expectation.spec_accepts(LogFormat::V5) {
            Err(wrong_version)
        } else if bytes.len() < 192 {
            Err(too_short)
        } else {
            match header_v5_error(bytes.take(192), expectation.spec_page_layout()->0.width_u64) {
                Some(error) => Err(error),
                None => Ok(
                    HeaderModel {
                        format: LogFormat::V5,
                        persistent_id: be_field(bytes, 16, 16) as u128,
                        coordinates: header_v5_coordinates(bytes.take(192)),
                        identity: Some(child_identity_of(bytes.subrange(128, 176))),
                        length: 192,
                    },
                ),
            }
        }
    } else if version == 4 {
        if !expectation.spec_accepts(LogFormat::V4) {
            Err(wrong_version)
        } else if bytes.len() < 128 {
            Err(too_short)
        } else {
            match header_v4_error(bytes.take(128), expectation.spec_page_layout()->0.width_u64) {
                Some(error) => Err(error),
                None => Ok(
                    HeaderModel {
                        format: LogFormat::V4,
                        persistent_id: be_field(bytes, 16, 16) as u128,
                        coordinates: Some(coordinates_fields(bytes.take(128))),
                        identity: None,
                        length: 128,
                    },
                ),
            }
        }
    } else {
        match header_error(bytes.take(64), expectation) {
            Some(error) => Err(error),
            None => Ok(
                HeaderModel {
                    format: if version == 1 {
                        LogFormat::V1
                    } else if version == 2 {
                        LogFormat::V2
                    } else {
                        LogFormat::V3
                    },
                    persistent_id: be_field(bytes, 16, 16) as u128,
                    coordinates: None,
                    identity: None,
                    length: 64,
                },
            ),
        }
    }
}

/// The position that the first record of a file has to have.
pub open spec fn first_position(coordinates: Option<ReclaimedCoordinates>) -> Option<u64> {
    match coordinates {
        None => Some(1),
        Some(coordinates) => match (coordinates.retained_first, coordinates.logical_high_water) {
            (Some(first), _) => Some(first),
            (None, Some(high)) => successor(high),
            (None, None) => Some(1),
        },
    }
}

/// Whether the positions of a log run without a gap from the first that its file has
/// to have, and the next position follows them.
pub open spec fn numbered(log: LogModel) -> bool {
    let first = first_position(log.coordinates);
    &&& log.records.len() > 0 ==> first is Some
    &&& forall|i: int|
        0 <= i < log.records.len() ==> (#[trigger] log.records[i]).position == first->0 + i
    &&& log.next_position == if log.records.len() == 0 {
        first
    } else {
        successor(log.records.last().position)
    }
    &&& log.retained_first() is Some ==> log.records.len() > 0
}

/// The state in which the frames of a file are read.
pub open spec fn initial_scan(
    coordinates: Option<ReclaimedCoordinates>,
    has_layout: bool,
    width: nat,
) -> ScanModel {
    match coordinates {
        None => ScanModel::initial(has_layout, width, 0, Some(1), 0, None),
        Some(coordinates) => ScanModel::initial(
            has_layout,
            width,
            coordinates.allocated_epoch_high_water,
            first_position(Some(coordinates)),
            match (coordinates.retained_first, coordinates.logical_high_water) {
                (Some(first), _) => (first - 1) as u64,
                (None, Some(high)) => high,
                (None, None) => 0,
            },
            if coordinates.retained_first is None {
                coordinates.logical_high_water
            } else {
                None
            },
        ),
    }
}

/// The position of the first durable record.
pub open spec fn first_durable_position(end: ScanModel) -> Option<u64> {
    if end.durable_len > 0 {
        Some(end.records[0].position)
    } else {
        None
    }
}

/// Where the records of a reclaimed file fall short of what its header promises.
pub open spec fn coverage_error(
    coordinates: Option<ReclaimedCoordinates>,
    end: ScanModel,
    frames_end: u64,
) -> Option<FileFormatError> {
    match coordinates {
        None => None,
        Some(coordinates) => {
            let promised = coordinates.logical_high_water;
            if end.last_completed < (match promised {
                Some(high) => high,
                None => 0,
            }) {
                at(
                    frames_end,
                    FileFormatErrorReason::HeaderV4LogicalHighWaterMismatch {
                        expected: promised,
                        actual: if end.last_completed == 0 {
                            None
                        } else {
                            Some(end.last_completed)
                        },
                    },
                )
            } else if coordinates.retained_first is Some && first_durable_position(end)
                != coordinates.retained_first {
                at(
                    48,
                    FileFormatErrorReason::HeaderV4RetainedFirstMismatch {
                        expected: coordinates.retained_first,
                        actual: first_durable_position(end),
                    },
                )
            } else if promised is Some && (end.last_durable is None || end.last_durable->0
                < promised->0) {
                at(
                    56,
                    FileFormatErrorReason::HeaderV4LogicalHighWaterMismatch {
                        expected: promised,
                        actual: end.last_durable,
                    },
                )
            } else {
                None
            }
        },
    }
}

/// The offset behind the last complete frame of a file of `total` bytes.
pub open spec fn frames_end(header_length: nat, total: nat) -> nat {
    (header_length + (total - header_length) / 56 * 56) as nat
}

/// The length that a file has to be cut to before it is written again: an
/// unfinished group goes as a whole, an unfinished frame alone.
pub open spec fn repaired_len(header_length: nat, total: nat, end: ScanModel) -> Option<u64> {
    match end.pending {
        Some(pending) => Some(pending.header_offset),
        None => if (total - header_length) % 56 > 0 {
            Some(frames_end(header_length, total) as u64)
        } else {
            None
        },
    }
}

/// A log as its file gives it, and what has to be cut off the file.
#[verifier::ext_equal]
pub struct OpenedModel {
    pub log: LogModel,
    pub repaired_len: Option<u64>,
}

/// The log that a header and the state behind the last frame make up.
pub open spec fn opened_log(header: HeaderModel, end: ScanModel) -> LogModel {
    LogModel {
        format: header.format,
        persistent_id: header.persistent_id,
        identity: header.identity,
        coordinates: header.coordinates,
        width: end.width,
        records: end.records,
        durable_len: end.durable_len,
        next_epoch: end.next_epoch,
        next_position: end.next_position,
        armed_fault: None,
        poisoned: false,
    }
}

/// The log that the bytes of a file hold, or the first rule that they break.
pub open spec fn opened(bytes: Seq<u8>, expectation: HeaderExpectation, width: nat) -> Result<
    OpenedModel,
    FileFormatError,
> {
    match read_header(bytes, expectation) {
        Err(error) => Err(error),
        Ok(header) => match scan(
            initial_scan(
                header.coordinates,
                expectation.spec_page_layout() is Some,
                width,
            ),
            bytes,
            header.length,
            header.format,
        ) {
            Err(error) => Err(error),
            Ok(end) => match coverage_error(
                header.coordinates,
                end,
                frames_end(header.length, bytes.len()) as u64,
            ) {
                Some(error) => Err(error),
                None => Ok(
                    OpenedModel {
                        log: opened_log(header, end),
                        repaired_len: repaired_len(header.length, bytes.len(), end),
                    },
                ),
            },
        },
    }
}

/// Whether reading the file `bytes` comes to keep a record.
pub open spec fn holds_a_record(
    bytes: Seq<u8>,
    expectation: HeaderExpectation,
    width: nat,
) -> bool {
    read_header(bytes, expectation) matches Ok(header) && comes_to_a_record(
        initial_scan(header.coordinates, expectation.spec_page_layout() is Some, width),
        bytes,
        header.length,
        header.format,
    )
}

} // verus!
