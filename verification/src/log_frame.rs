//! The fixed 56-byte frame of the commit log.
//!
//! - `0..4`   : magic `NTSQ`
//! - `4..6`   : `u16` kind
//! - `6..8`   : `u16` version
//! - `8..12`  : `u32` flags (`0`)
//! - `12..14` : `u16` frame length (`56`)
//! - `14..16` : reserved zero `u16`
//! - `16..24` : payload 0
//! - `24..32` : payload 1
//! - `32..40` : payload 2
//! - `40..48` : reserved zeros
//! - `48..56` : checksum of bytes `0..48`
use vstd::prelude::*;

use crate::bytes::{
    append_u64, be_bytes, be_field, be_value, checksum, checksum_v1, is_zero_range,
    lemma_be_bytes_len, lemma_be_bytes_of_value, lemma_be_value_bound, lemma_be_value_of_bytes,
    lemma_pow256_values, matches_at, read_u16, read_u32, read_u64, write_slice, write_u16,
    write_u32, write_u64, zero_range, zeroed, zeros,
};
use crate::format::{LogFormat, FRAME_LENGTH};
use crate::log_error::{FileFormatError, FileFormatErrorReason};

verus! {

/// Kind of one frame.
#[derive(Clone, Copy, Debug, PartialEq, Eq, Structural)]
pub enum FrameKind {
    EpochAllocation,
    CommitRecord,
    DurableThrough,
    PageHeader,
    PageData,
    TransactionPageHeader,
    TransactionPageOwner,
}

impl FrameKind {
    pub open spec fn spec_code(self) -> u16 {
        match self {
            FrameKind::EpochAllocation => 1,
            FrameKind::CommitRecord => 2,
            FrameKind::DurableThrough => 3,
            FrameKind::PageHeader => 4,
            FrameKind::PageData => 5,
            FrameKind::TransactionPageHeader => 6,
            FrameKind::TransactionPageOwner => 7,
        }
    }

    /// Whether frames of this kind may stand in a file of this format.
    pub open spec fn allowed_in(self, format: LogFormat) -> bool {
        match self {
            FrameKind::EpochAllocation | FrameKind::CommitRecord | FrameKind::DurableThrough =>
                true,
            FrameKind::PageHeader | FrameKind::PageData => format.has_pages(),
            FrameKind::TransactionPageHeader | FrameKind::TransactionPageOwner =>
                format.has_transaction_pages(),
        }
    }

    /// The kind that `value` stands for in a file of this format.
    pub open spec fn spec_from_u16(value: u16, format: LogFormat) -> Option<FrameKind> {
        let kind = if value == 1 {
            Some(FrameKind::EpochAllocation)
        } else if value == 2 {
            Some(FrameKind::CommitRecord)
        } else if value == 3 {
            Some(FrameKind::DurableThrough)
        } else if value == 4 {
            Some(FrameKind::PageHeader)
        } else if value == 5 {
            Some(FrameKind::PageData)
        } else if value == 6 {
            Some(FrameKind::TransactionPageHeader)
        } else if value == 7 {
            Some(FrameKind::TransactionPageOwner)
        } else {
            None
        };
        match kind {
            Some(kind) => if kind.allowed_in(format) {
                Some(kind)
            } else {
                None
            },
            None => None,
        }
    }

    pub fn from_u16(value: u16, format: LogFormat) -> (kind: Option<FrameKind>)
        ensures
            kind == FrameKind::spec_from_u16(value, format),
    {
        match value {
            1 => Some(FrameKind::EpochAllocation),
            2 => Some(FrameKind::CommitRecord),
            3 => Some(FrameKind::DurableThrough),
            4 if format.supports_pages() => Some(FrameKind::PageHeader),
            5 if format.supports_pages() => Some(FrameKind::PageData),
            6 if format.supports_transaction_pages() => Some(FrameKind::TransactionPageHeader),
            7 if format.supports_transaction_pages() => Some(FrameKind::TransactionPageOwner),
            _ => None,
        }
    }

    /// The number that stands for this kind.
    pub fn code(self) -> (code: u16)
        ensures
            code == self.spec_code(),
    {
        match self {
            FrameKind::EpochAllocation => 1,
            FrameKind::CommitRecord => 2,
            FrameKind::DurableThrough => 3,
            FrameKind::PageHeader => 4,
            FrameKind::PageData => 5,
            FrameKind::TransactionPageHeader => 6,
            FrameKind::TransactionPageOwner => 7,
        }
    }
}

/// The content of one well-formed frame.
#[derive(Clone, Copy, Debug, PartialEq, Eq)]
pub struct DecodedFrame {
    pub kind: FrameKind,
    pub payload0: u64,
    pub payload1: u64,
    pub payload2: u64,
    pub payload2_bytes: [u8; 8],
}

/// Mathematical content of one frame: payload 2 both as bytes and as a number.
#[verifier::ext_equal]
pub struct FrameModel {
    pub kind: FrameKind,
    pub payload0: u64,
    pub payload1: u64,
    pub payload2: u64,
    pub payload2_bytes: Seq<u8>,
}

impl DecodedFrame {
    pub open spec fn view(&self) -> FrameModel {
        FrameModel {
            kind: self.kind,
            payload0: self.payload0,
            payload1: self.payload1,
            payload2: self.payload2,
            payload2_bytes: self.payload2_bytes@,
        }
    }
}

/// `NTSQ`
pub open spec fn frame_magic() -> Seq<u8> {
    seq![0x4eu8, 0x54u8, 0x53u8, 0x51u8]
}

/// The protected part of a frame.
pub open spec fn frame_body(
    format: LogFormat,
    kind: FrameKind,
    payload0: u64,
    payload1: u64,
    payload2_bytes: Seq<u8>,
) -> Seq<u8> {
    frame_magic() + be_bytes(kind.spec_code() as nat, 2) + be_bytes(
        format.spec_frame_version() as nat,
        2,
    ) + be_bytes(0, 4) + be_bytes(56, 2) + be_bytes(0, 2) + be_bytes(payload0 as nat, 8)
        + be_bytes(payload1 as nat, 8) + payload2_bytes + zeros(8)
}

/// The frame with the given kind and payloads.
pub open spec fn frame_bytes(
    format: LogFormat,
    kind: FrameKind,
    payload0: u64,
    payload1: u64,
    payload2_bytes: Seq<u8>,
) -> Seq<u8> {
    let body = frame_body(format, kind, payload0, payload1, payload2_bytes);
    body + be_bytes(checksum(body) as nat, 8)
}

/// The frame whose three payloads are numbers.
pub open spec fn number_frame_bytes(
    format: LogFormat,
    kind: FrameKind,
    payload0: u64,
    payload1: u64,
    payload2: u64,
) -> Seq<u8> {
    frame_bytes(format, kind, payload0, payload1, be_bytes(payload2 as nat, 8))
}

/// The first rule that a frame at byte `offset` of its file breaks.
pub open spec fn frame_error(frame: Seq<u8>, offset: u64, format: LogFormat) -> Option<
    FileFormatError,
> {
    let kind = be_field(frame, 4, 2) as u16;
    let version = be_field(frame, 6, 2) as u16;
    let flags = be_field(frame, 8, 4) as u32;
    let length = be_field(frame, 12, 2) as u16;
    let actual = be_field(frame, 48, 8) as u64;
    let expected = checksum(frame.subrange(0, 48));
    if frame.subrange(0, 4) != frame_magic() {
        Some(FileFormatError { offset, reason: FileFormatErrorReason::FrameMagic })
    } else if FrameKind::spec_from_u16(kind, format) is None {
        Some(
            FileFormatError {
                offset: (offset + 4) as u64,
                reason: FileFormatErrorReason::FrameKind { actual: kind },
            },
        )
    } else if version != format.spec_frame_version() {
        Some(
            FileFormatError {
                offset: (offset + 6) as u64,
                reason: FileFormatErrorReason::FrameVersion { actual: version },
            },
        )
    } else if flags != 0 {
        Some(
            FileFormatError {
                offset: (offset + 8) as u64,
                reason: FileFormatErrorReason::FrameFlags { actual: flags },
            },
        )
    } else if length != 56 {
        Some(
            FileFormatError {
                offset: (offset + 12) as u64,
                reason: FileFormatErrorReason::FrameLength { actual: length },
            },
        )
    } else if be_field(frame, 14, 2) != 0 || !zero_range(frame, 40, 48) {
        Some(
            FileFormatError {
                offset: (offset + 14) as u64,
                reason: FileFormatErrorReason::FrameReserved,
            },
        )
    } else if actual != expected {
        Some(
            FileFormatError {
                offset: (offset + 48) as u64,
                reason: FileFormatErrorReason::FrameChecksum { expected, actual },
            },
        )
    } else {
        None
    }
}

/// The fields of a frame that breaks no rule.
pub open spec fn frame_fields(frame: Seq<u8>, format: LogFormat) -> FrameModel {
    FrameModel {
        kind: FrameKind::spec_from_u16(be_field(frame, 4, 2) as u16, format)->0,
        payload0: be_field(frame, 16, 8) as u64,
        payload1: be_field(frame, 24, 8) as u64,
        payload2: be_field(frame, 32, 8) as u64,
        payload2_bytes: frame.subrange(32, 40),
    }
}

/// What a frame at byte `offset` of its file says.
#[verifier::opaque]
pub open spec fn decoded_frame(frame: Seq<u8>, offset: u64, format: LogFormat) -> Result<
    FrameModel,
    FileFormatError,
> {
    match frame_error(frame, offset, format) {
        Some(error) => Err(error),
        None => Ok(frame_fields(frame, format)),
    }
}

/// Builds a frame whose three payloads are numbers.
pub fn build_frame(
    format: LogFormat,
    kind: FrameKind,
    payload0: u64,
    payload1: u64,
    payload2: u64,
) -> (frame: Vec<u8>)
    ensures
        frame@ == number_frame_bytes(format, kind, payload0, payload1, payload2),
        frame@.len() == 56,
{
    let mut payload2_bytes: Vec<u8> = Vec::new();
    append_u64(&mut payload2_bytes, payload2);
    proof {
        lemma_be_bytes_len(payload2 as nat, 8);
        assert(payload2_bytes@ =~= be_bytes(payload2 as nat, 8));
    }
    build_frame_with_payload2_bytes(format, kind, payload0, payload1, payload2_bytes.as_slice())
}

/// Builds a frame whose payload 2 is raw bytes.
pub fn build_frame_with_payload2_bytes(
    format: LogFormat,
    kind: FrameKind,
    payload0: u64,
    payload1: u64,
    payload2_bytes: &[u8],
) -> (frame: Vec<u8>)
    requires
        payload2_bytes@.len() == 8,
    ensures
        frame@ == frame_bytes(format, kind, payload0, payload1, payload2_bytes@),
        frame@.len() == 56,
{
    let magic: [u8; 4] = [0x4eu8, 0x54u8, 0x53u8, 0x51u8];
    assert(magic@ =~= frame_magic());
    let mut frame: Vec<u8> = zeroed(FRAME_LENGTH);
    write_slice(&mut frame, 0, &magic);
    write_u16(&mut frame, 4, kind.code());
    write_u16(&mut frame, 6, format.frame_version());
    write_u32(&mut frame, 8, 0);
    write_u16(&mut frame, 12, 56);
    write_u16(&mut frame, 14, 0);
    write_u64(&mut frame, 16, payload0);
    write_u64(&mut frame, 24, payload1);
    write_slice(&mut frame, 32, payload2_bytes);
    proof {
        lemma_frame_len(format, kind, payload0, payload1, payload2_bytes@);
        lemma_frame_parts_len(format, kind, payload0, payload1);
        assert(frame@.subrange(0, 48) =~= frame_body(
            format,
            kind,
            payload0,
            payload1,
            payload2_bytes@,
        ));
    }
    let sum: u64 = checksum_v1(&frame.as_slice()[0..48]);
    write_u64(&mut frame, 48, sum);
    proof {
        lemma_be_bytes_len(sum as nat, 8);
        assert(frame@ =~= frame_bytes(format, kind, payload0, payload1, payload2_bytes@));
    }
    frame
}

/// Parses a complete frame, or reports the first rule that it breaks.
pub fn parse_frame(frame: &[u8], offset: u64, format: LogFormat) -> (result: Result<
    DecodedFrame,
    FileFormatError,
>)
    requires
        frame@.len() == 56,
        offset + 48 <= u64::MAX,
    ensures
        match decoded_frame(frame@, offset, format) {
            Err(error) => result == Err::<DecodedFrame, _>(error),
            Ok(model) => result matches Ok(decoded) && decoded@ == model,
        },
{
    proof {
        reveal(decoded_frame);
    }
    let magic: [u8; 4] = [0x4eu8, 0x54u8, 0x53u8, 0x51u8];
    assert(magic@ =~= frame_magic());
    if !matches_at(frame, 0, &magic) {
        return Err(FileFormatError::new(offset, FileFormatErrorReason::FrameMagic));
    }
    let kind_raw: u16 = read_u16(frame, 4);
    let kind: FrameKind = match FrameKind::from_u16(kind_raw, format) {
        Some(kind) => kind,
        None => {
            return Err(
                FileFormatError::new(
                    offset + 4,
                    FileFormatErrorReason::FrameKind { actual: kind_raw },
                ),
            );
        },
    };
    let version: u16 = read_u16(frame, 6);
    if version != format.frame_version() {
        return Err(
            FileFormatError::new(
                offset + 6,
                FileFormatErrorReason::FrameVersion { actual: version },
            ),
        );
    }
    let flags: u32 = read_u32(frame, 8);
    if flags != 0 {
        return Err(
            FileFormatError::new(offset + 8, FileFormatErrorReason::FrameFlags { actual: flags }),
        );
    }
    let length: u16 = read_u16(frame, 12);
    if length as usize != FRAME_LENGTH {
        return Err(
            FileFormatError::new(offset + 12, FileFormatErrorReason::FrameLength { actual: length }),
        );
    }
    if read_u16(frame, 14) != 0 || !is_zero_range(frame, 40, 48) {
        return Err(FileFormatError::new(offset + 14, FileFormatErrorReason::FrameReserved));
    }
    let actual: u64 = read_u64(frame, 48);
    let expected: u64 = checksum_v1(&frame[0..48]);
    if actual != expected {
        return Err(
            FileFormatError::new(
                offset + 48,
                FileFormatErrorReason::FrameChecksum { expected, actual },
            ),
        );
    }
    let mut payload2_bytes: [u8; 8] = [0u8; 8];
    let mut index: usize = 0;
    while index < 8
        invariant
            index <= 8,
            frame@.len() == 56,
            forall|i: int| 0 <= i < index ==> payload2_bytes@[i] == frame@[32 + i],
        decreases 8 - index,
    {
        payload2_bytes[index] = frame[32 + index];
        index = index + 1;
    }
    assert(payload2_bytes@ =~= frame@.subrange(32, 40));
    Ok(
        DecodedFrame {
            kind,
            payload0: read_u64(frame, 16),
            payload1: read_u64(frame, 24),
            payload2: read_u64(frame, 32),
            payload2_bytes,
        },
    )
}

pub proof fn lemma_frame_len(
    format: LogFormat,
    kind: FrameKind,
    payload0: u64,
    payload1: u64,
    payload2_bytes: Seq<u8>,
)
    requires
        payload2_bytes.len() == 8,
    ensures
        frame_body(format, kind, payload0, payload1, payload2_bytes).len() == 48,
        frame_bytes(format, kind, payload0, payload1, payload2_bytes).len() == 56,
{
    let body = frame_body(format, kind, payload0, payload1, payload2_bytes);
    lemma_frame_parts_len(format, kind, payload0, payload1);
    lemma_be_bytes_len(checksum(body) as nat, 8);
}

proof fn lemma_frame_parts_len(format: LogFormat, kind: FrameKind, payload0: u64, payload1: u64)
    ensures
        be_bytes(kind.spec_code() as nat, 2).len() == 2,
        be_bytes(format.spec_frame_version() as nat, 2).len() == 2,
        be_bytes(0, 4).len() == 4,
        be_bytes(56, 2).len() == 2,
        be_bytes(0, 2).len() == 2,
        be_bytes(payload0 as nat, 8).len() == 8,
        be_bytes(payload1 as nat, 8).len() == 8,
{
    lemma_be_bytes_len(kind.spec_code() as nat, 2);
    lemma_be_bytes_len(format.spec_frame_version() as nat, 2);
    lemma_be_bytes_len(0, 4);
    lemma_be_bytes_len(56, 2);
    lemma_be_bytes_len(0, 2);
    lemma_be_bytes_len(payload0 as nat, 8);
    lemma_be_bytes_len(payload1 as nat, 8);
}

/// A frame that is built for a format decodes, in a file of that format, to
/// the kind and the payloads that it was built from.
pub proof fn law_frame_round_trip(
    format: LogFormat,
    kind: FrameKind,
    payload0: u64,
    payload1: u64,
    payload2_bytes: Seq<u8>,
    offset: u64,
)
    requires
        payload2_bytes.len() == 8,
        kind.allowed_in(format),
    ensures
        frame_bytes(format, kind, payload0, payload1, payload2_bytes).len() == 56,
        decoded_frame(
            frame_bytes(format, kind, payload0, payload1, payload2_bytes),
            offset,
            format,
        ) == Ok::<FrameModel, FileFormatError>(
            FrameModel {
                kind,
                payload0,
                payload1,
                payload2: be_value(payload2_bytes) as u64,
                payload2_bytes,
            },
        ),
{
    reveal(decoded_frame);
    let body = frame_body(format, kind, payload0, payload1, payload2_bytes);
    let frame = frame_bytes(format, kind, payload0, payload1, payload2_bytes);
    let sum = checksum(body);
    lemma_frame_len(format, kind, payload0, payload1, payload2_bytes);
    lemma_pow256_values();
    lemma_be_value_of_bytes(kind.spec_code() as nat, 2);
    lemma_be_value_of_bytes(format.spec_frame_version() as nat, 2);
    lemma_be_value_of_bytes(0, 4);
    lemma_be_value_of_bytes(56, 2);
    lemma_be_value_of_bytes(0, 2);
    lemma_be_value_of_bytes(payload0 as nat, 8);
    lemma_be_value_of_bytes(payload1 as nat, 8);
    lemma_be_value_of_bytes(sum as nat, 8);
    assert(frame.subrange(0, 4) =~= frame_magic());
    assert(frame.subrange(4, 6) =~= be_bytes(kind.spec_code() as nat, 2));
    assert(frame.subrange(6, 8) =~= be_bytes(format.spec_frame_version() as nat, 2));
    assert(frame.subrange(8, 12) =~= be_bytes(0, 4));
    assert(frame.subrange(12, 14) =~= be_bytes(56, 2));
    assert(frame.subrange(14, 16) =~= be_bytes(0, 2));
    assert(frame.subrange(16, 24) =~= be_bytes(payload0 as nat, 8));
    assert(frame.subrange(24, 32) =~= be_bytes(payload1 as nat, 8));
    assert(frame.subrange(32, 40) =~= payload2_bytes);
    assert(frame.subrange(48, 56) =~= be_bytes(sum as nat, 8));
    assert(frame.subrange(0, 48) =~= body);
    assert(zero_range(frame, 40, 48));
}

/// The same of a frame whose three payloads are numbers.
pub proof fn law_number_frame_round_trip(
    format: LogFormat,
    kind: FrameKind,
    payload0: u64,
    payload1: u64,
    payload2: u64,
    offset: u64,
)
    requires
        kind.allowed_in(format),
    ensures
        number_frame_bytes(format, kind, payload0, payload1, payload2).len() == 56,
        decoded_frame(
            number_frame_bytes(format, kind, payload0, payload1, payload2),
            offset,
            format,
        ) == Ok::<FrameModel, FileFormatError>(
            FrameModel {
                kind,
                payload0,
                payload1,
                payload2,
                payload2_bytes: be_bytes(payload2 as nat, 8),
            },
        ),
{
    lemma_pow256_values();
    lemma_be_value_of_bytes(payload2 as nat, 8);
    law_frame_round_trip(
        format,
        kind,
        payload0,
        payload1,
        be_bytes(payload2 as nat, 8),
        offset,
    );
}

/// A frame is accepted exactly if it is one that is built for the format, and it
/// says what it was built from.
pub proof fn law_accepted_frame_is_the_built_one(
    frame: Seq<u8>,
    offset: u64,
    format: LogFormat,
    model: FrameModel,
)
    requires
        frame.len() == 56,
    ensures
        decoded_frame(frame, offset, format) == Ok::<_, FileFormatError>(model) <==> {
            &&& model.payload2_bytes.len() == 8
            &&& frame == frame_bytes(
                format,
                model.kind,
                model.payload0,
                model.payload1,
                model.payload2_bytes,
            )
            &&& FrameKind::spec_from_u16(model.kind.spec_code(), format) == Some(model.kind)
            &&& model.payload2 == be_value(model.payload2_bytes)
        },
{
    lemma_pow256_values();
    if decoded_frame(frame, offset, format) == Ok::<_, FileFormatError>(model) {
        reveal(decoded_frame);
        lemma_accepted_frame_body(frame, offset, format);
        let stored = frame.subrange(48, 56);
        lemma_be_value_bound(stored);
        lemma_be_bytes_of_value(stored);
        lemma_be_value_bound(frame.subrange(32, 40));
        assert(frame =~= frame.subrange(0, 48) + stored);
    } else if model.payload2_bytes.len() == 8 {
        lemma_be_value_bound(model.payload2_bytes);
        if FrameKind::spec_from_u16(model.kind.spec_code(), format) == Some(model.kind) {
            law_frame_round_trip(
                format,
                model.kind,
                model.payload0,
                model.payload1,
                model.payload2_bytes,
                offset,
            );
        }
    }
}

/// The protected part of an accepted frame.
proof fn lemma_accepted_frame_body(frame: Seq<u8>, offset: u64, format: LogFormat)
    requires
        frame.len() == 56,
        frame_error(frame, offset, format) is None,
    ensures
        ({
            let model = frame_fields(frame, format);
            frame.subrange(0, 48) == frame_body(
                format,
                model.kind,
                model.payload0,
                model.payload1,
                model.payload2_bytes,
            )
        }),
        FrameKind::spec_from_u16(frame_fields(frame, format).kind.spec_code(), format) == Some(
            frame_fields(frame, format).kind,
        ),
{
    let model = frame_fields(frame, format);
    lemma_pow256_values();
    lemma_frame_parts_len(format, model.kind, model.payload0, model.payload1);
    lemma_be_value_bound(frame.subrange(4, 6));
    lemma_be_value_bound(frame.subrange(6, 8));
    lemma_be_value_bound(frame.subrange(8, 12));
    lemma_be_value_bound(frame.subrange(12, 14));
    lemma_be_value_bound(frame.subrange(16, 24));
    lemma_be_value_bound(frame.subrange(24, 32));
    lemma_be_bytes_of_value(frame.subrange(4, 6));
    lemma_be_bytes_of_value(frame.subrange(6, 8));
    lemma_be_bytes_of_value(frame.subrange(8, 12));
    lemma_be_bytes_of_value(frame.subrange(12, 14));
    lemma_be_bytes_of_value(frame.subrange(14, 16));
    lemma_be_bytes_of_value(frame.subrange(16, 24));
    lemma_be_bytes_of_value(frame.subrange(24, 32));
    assert(frame.subrange(40, 48) =~= zeros(8));
    assert(frame.subrange(0, 48) =~= frame.subrange(0, 4) + frame.subrange(4, 6) + frame.subrange(
        6,
        8,
    ) + frame.subrange(8, 12) + frame.subrange(12, 14) + frame.subrange(14, 16) + frame.subrange(
        16,
        24,
    ) + frame.subrange(24, 32) + frame.subrange(32, 40) + frame.subrange(40, 48));
}

} // verus!
