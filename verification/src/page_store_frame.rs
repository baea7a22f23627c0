//! The fixed 56-byte frame of the page store.
//!
//! - `0..4`   : magic `NTSP`
//! - `4..6`   : `u16` kind
//! - `6..8`   : `u16` version (`1`)
//! - `8..12`  : `u32` flags (`0`)
//! - `12..14` : `u16` frame length (`56`)
//! - `14..16` : reserved zero `u16`
//! - `16..24` : payload A, the sequence number of the group
//! - `24..32` : payload B
//! - `32..40` : payload C
//! - `40..48` : reserved zeros
//! - `48..56` : checksum of bytes `0..48`
use vstd::prelude::*;

use crate::bytes::{
    append_u64, be_bytes, be_field, be_value, checksum, checksum_v1, is_zero_range,
    lemma_be_bytes_len, lemma_be_bytes_of_value, lemma_be_value_bound, lemma_be_value_of_bytes,
    lemma_pow256_values, lemma_sealed, matches_at, read_u16, read_u32, read_u64, sealed,
    write_slice, write_u16, write_u32, write_u64, zero_range, zeroed, zeros,
};
use crate::format::{LogFormat, FRAME_LENGTH};
use crate::log_frame::{decoded_frame, frame_magic};
use crate::page_store_error::{PageStoreFormatError, PageStoreFormatErrorReason};

verus! {

/// Kind of one frame.
#[derive(Clone, Copy, Debug, PartialEq, Eq, Structural)]
pub enum PageStoreFrameKind {
    SnapshotHeader,
    RequiredPosition,
    PageData,
}

impl PageStoreFrameKind {
    pub open spec fn spec_code(self) -> u16 {
        match self {
            PageStoreFrameKind::SnapshotHeader => 1,
            PageStoreFrameKind::RequiredPosition => 2,
            PageStoreFrameKind::PageData => 3,
        }
    }

    /// The kind that `value` stands for.
    pub open spec fn spec_from_u16(value: u16) -> Option<PageStoreFrameKind> {
        if value == 1 {
            Some(PageStoreFrameKind::SnapshotHeader)
        } else if value == 2 {
            Some(PageStoreFrameKind::RequiredPosition)
        } else if value == 3 {
            Some(PageStoreFrameKind::PageData)
        } else {
            None
        }
    }

    pub fn from_u16(value: u16) -> (kind: Option<PageStoreFrameKind>)
        ensures
            kind == PageStoreFrameKind::spec_from_u16(value),
    {
        match value {
            1 => Some(PageStoreFrameKind::SnapshotHeader),
            2 => Some(PageStoreFrameKind::RequiredPosition),
            3 => Some(PageStoreFrameKind::PageData),
            _ => None,
        }
    }

    /// The number that stands for this kind.
    pub fn code(self) -> (code: u16)
        ensures
            code == self.spec_code(),
    {
        match self {
            PageStoreFrameKind::SnapshotHeader => 1,
            PageStoreFrameKind::RequiredPosition => 2,
            PageStoreFrameKind::PageData => 3,
        }
    }
}

/// The content of one well-formed frame.
#[derive(Clone, Copy, Debug, PartialEq, Eq)]
pub struct DecodedPageStoreFrame {
    pub kind: PageStoreFrameKind,
    pub payload_a: u64,
    pub payload_b: u64,
    pub payload_c: u64,
    pub payload_c_bytes: [u8; 8],
}

/// Mathematical content of one frame: payload C both as bytes and as a number.
#[verifier::ext_equal]
pub struct StoreFrameModel {
    pub kind: PageStoreFrameKind,
    pub payload_a: u64,
    pub payload_b: u64,
    pub payload_c: u64,
    pub payload_c_bytes: Seq<u8>,
}

impl DecodedPageStoreFrame {
    pub open spec fn view(&self) -> StoreFrameModel {
        StoreFrameModel {
            kind: self.kind,
            payload_a: self.payload_a,
            payload_b: self.payload_b,
            payload_c: self.payload_c,
            payload_c_bytes: self.payload_c_bytes@,
        }
    }
}

/// `NTSP`
pub open spec fn store_frame_magic() -> Seq<u8> {
    seq![0x4eu8, 0x54u8, 0x53u8, 0x50u8]
}

/// The protected part of a frame.
pub open spec fn store_frame_body(
    kind: PageStoreFrameKind,
    payload_a: u64,
    payload_b: u64,
    payload_c_bytes: Seq<u8>,
) -> Seq<u8> {
    store_frame_magic() + be_bytes(kind.spec_code() as nat, 2) + be_bytes(1, 2) + be_bytes(0, 4)
        + be_bytes(56, 2) + be_bytes(0, 2) + be_bytes(payload_a as nat, 8) + be_bytes(
        payload_b as nat,
        8,
    ) + payload_c_bytes + zeros(8)
}

/// The frame with the given kind and payloads.
pub open spec fn store_frame_bytes(
    kind: PageStoreFrameKind,
    payload_a: u64,
    payload_b: u64,
    payload_c_bytes: Seq<u8>,
) -> Seq<u8> {
    sealed(store_frame_body(kind, payload_a, payload_b, payload_c_bytes))
}

/// The frame whose three payloads are numbers.
pub open spec fn store_number_frame_bytes(
    kind: PageStoreFrameKind,
    payload_a: u64,
    payload_b: u64,
    payload_c: u64,
) -> Seq<u8> {
    store_frame_bytes(kind, payload_a, payload_b, be_bytes(payload_c as nat, 8))
}

/// The error `reason`, found `delta` bytes into the frame at `offset`.
pub open spec fn store_error_at(offset: u64, delta: int, reason: PageStoreFormatErrorReason) -> Option<
    PageStoreFormatError,
> {
    Some(PageStoreFormatError { offset: (offset + delta) as u64, reason })
}

/// The first rule that a frame at byte `offset` of its file breaks.
pub open spec fn store_frame_error(frame: Seq<u8>, offset: u64) -> Option<PageStoreFormatError> {
    let kind = be_field(frame, 4, 2) as u16;
    let version = be_field(frame, 6, 2) as u16;
    let flags = be_field(frame, 8, 4) as u32;
    let length = be_field(frame, 12, 2) as u16;
    let actual = be_field(frame, 48, 8) as u64;
    let expected = checksum(frame.subrange(0, 48));
    if frame.subrange(0, 4) != store_frame_magic() {
        store_error_at(offset, 0, PageStoreFormatErrorReason::FrameMagic)
    } else if PageStoreFrameKind::spec_from_u16(kind) is None {
        store_error_at(offset, 4, PageStoreFormatErrorReason::FrameKind { actual: kind })
    } else if version != 1 {
        store_error_at(offset, 6, PageStoreFormatErrorReason::FrameVersion { actual: version })
    } else if flags != 0 {
        store_error_at(offset, 8, PageStoreFormatErrorReason::FrameFlags { actual: flags })
    } else if length != 56 {
        store_error_at(offset, 12, PageStoreFormatErrorReason::FrameLength { actual: length })
    } else if be_field(frame, 14, 2) != 0 || !zero_range(frame, 40, 48) {
        store_error_at(offset, 14, PageStoreFormatErrorReason::FrameReserved)
    } else if actual != expected {
        store_error_at(
            offset,
            48,
            PageStoreFormatErrorReason::FrameChecksum { expected, actual },
        )
    } else {
        None
    }
}

/// The fields of a frame that breaks no rule.
pub open spec fn store_frame_fields(frame: Seq<u8>) -> StoreFrameModel {
    StoreFrameModel {
        kind: PageStoreFrameKind::spec_from_u16(be_field(frame, 4, 2) as u16)->0,
        payload_a: be_field(frame, 16, 8) as u64,
        payload_b: be_field(frame, 24, 8) as u64,
        payload_c: be_field(frame, 32, 8) as u64,
        payload_c_bytes: frame.subrange(32, 40),
    }
}

/// What a frame at byte `offset` of its file says.
#[verifier::opaque]
pub open spec fn decoded_store_frame(frame: Seq<u8>, offset: u64) -> Result<
    StoreFrameModel,
    PageStoreFormatError,
> {
    match store_frame_error(frame, offset) {
        Some(error) => Err(error),
        None => Ok(store_frame_fields(frame)),
    }
}

/// Builds a frame whose three payloads are numbers.
pub fn build_page_store_frame(
    kind: PageStoreFrameKind,
    payload_a: u64,
    payload_b: u64,
    payload_c: u64,
) -> (frame: Vec<u8>)
    ensures
        frame@ == store_number_frame_bytes(kind, payload_a, payload_b, payload_c),
        frame@.len() == 56,
{
    let mut payload_c_bytes: Vec<u8> = Vec::new();
    append_u64(&mut payload_c_bytes, payload_c);
    proof {
        lemma_be_bytes_len(payload_c as nat, 8);
        assert(payload_c_bytes@ =~= be_bytes(payload_c as nat, 8));
    }
    build_page_store_frame_with_payload2_bytes(
        kind,
        payload_a,
        payload_b,
        payload_c_bytes.as_slice(),
    )
}

/// Builds a frame whose payload C is raw bytes.
pub fn build_page_store_frame_with_payload2_bytes(
    kind: PageStoreFrameKind,
    payload_a: u64,
    payload_b: u64,
    payload_c_bytes: &[u8],
) -> (frame: Vec<u8>)
    requires
        payload_c_bytes@.len() == 8,
    ensures
        frame@ == store_frame_bytes(kind, payload_a, payload_b, payload_c_bytes@),
        frame@.len() == 56,
{
    let magic: [u8; 4] = [0x4eu8, 0x54u8, 0x53u8, 0x50u8];
    assert(magic@ =~= store_frame_magic());
    let mut frame: Vec<u8> = zeroed(FRAME_LENGTH);
    write_slice(&mut frame, 0, &magic);
    write_u16(&mut frame, 4, kind.code());
    write_u16(&mut frame, 6, 1);
    write_u32(&mut frame, 8, 0);
    write_u16(&mut frame, 12, 56);
    write_u16(&mut frame, 14, 0);
    write_u64(&mut frame, 16, payload_a);
    write_u64(&mut frame, 24, payload_b);
    write_slice(&mut frame, 32, payload_c_bytes);
    proof {
        lemma_store_frame_len(kind, payload_a, payload_b, payload_c_bytes@);
        lemma_store_frame_parts_len(kind, payload_a, payload_b);
        assert(frame@.subrange(0, 48) =~= store_frame_body(
            kind,
            payload_a,
            payload_b,
            payload_c_bytes@,
        ));
    }
    let sum: u64 = checksum_v1(&frame.as_slice()[0..48]);
    write_u64(&mut frame, 48, sum);
    proof {
        lemma_be_bytes_len(sum as nat, 8);
        assert(frame@ =~= store_frame_bytes(kind, payload_a, payload_b, payload_c_bytes@));
    }
    frame
}

fn refused<T>(offset: u64, reason: PageStoreFormatErrorReason) -> (result: Result<
    T,
    PageStoreFormatError,
>)
    ensures
        result == Err::<T, _>(PageStoreFormatError { offset, reason }),
{
    Err(PageStoreFormatError::new(offset, reason))
}

/// Parses a complete frame, or reports the first rule that it breaks.
pub fn parse_page_store_frame(frame: &[u8], offset: u64) -> (result: Result<
    DecodedPageStoreFrame,
    PageStoreFormatError,
>)
    requires
        frame@.len() == 56,
        offset + 48 <= u64::MAX,
    ensures
        match decoded_store_frame(frame@, offset) {
            Err(error) => result == Err::<DecodedPageStoreFrame, _>(error),
            Ok(model) => result matches Ok(decoded) && decoded@ == model,
        },
{
    proof {
        reveal(decoded_store_frame);
    }
    let magic: [u8; 4] = [0x4eu8, 0x54u8, 0x53u8, 0x50u8];
    assert(magic@ =~= store_frame_magic());
    if !matches_at(frame, 0, &magic) {
        return refused(offset, PageStoreFormatErrorReason::FrameMagic);
    }
    let kind_raw: u16 = read_u16(frame, 4);
    let kind: PageStoreFrameKind = match PageStoreFrameKind::from_u16(kind_raw) {
        Some(kind) => kind,
        None => {
            return refused(offset + 4, PageStoreFormatErrorReason::FrameKind { actual: kind_raw });
        },
    };
    let version: u16 = read_u16(frame, 6);
    if version != 1 {
        return refused(offset + 6, PageStoreFormatErrorReason::FrameVersion { actual: version });
    }
    let flags: u32 = read_u32(frame, 8);
    if flags != 0 {
        return refused(offset + 8, PageStoreFormatErrorReason::FrameFlags { actual: flags });
    }
    let length: u16 = read_u16(frame, 12);
    if length as usize != FRAME_LENGTH {
        return refused(offset + 12, PageStoreFormatErrorReason::FrameLength { actual: length });
    }
    if read_u16(frame, 14) != 0 || !is_zero_range(frame, 40, 48) {
        return refused(offset + 14, PageStoreFormatErrorReason::FrameReserved);
    }
    let actual: u64 = read_u64(frame, 48);
    let expected: u64 = checksum_v1(&frame[0..48]);
    if actual != expected {
        return refused(
            offset + 48,
            PageStoreFormatErrorReason::FrameChecksum { expected, actual },
        );
    }
    let mut payload_c_bytes: [u8; 8] = [0u8; 8];
    let mut index: usize = 0;
    while index < 8
        invariant
            index <= 8,
            frame@.len() == 56,
            forall|i: int| 0 <= i < index ==> payload_c_bytes@[i] == frame@[32 + i],
        decreases 8 - index,
    {
        payload_c_bytes[index] = frame[32 + index];
        index = index + 1;
    }
    assert(payload_c_bytes@ =~= frame@.subrange(32, 40));
    Ok(
        DecodedPageStoreFrame {
            kind,
            payload_a: read_u64(frame, 16),
            payload_b: read_u64(frame, 24),
            payload_c: read_u64(frame, 32),
            payload_c_bytes,
        },
    )
}

pub proof fn lemma_store_frame_len(
    kind: PageStoreFrameKind,
    payload_a: u64,
    payload_b: u64,
    payload_c_bytes: Seq<u8>,
)
    requires
        payload_c_bytes.len() == 8,
    ensures
        store_frame_body(kind, payload_a, payload_b, payload_c_bytes).len() == 48,
        store_frame_bytes(kind, payload_a, payload_b, payload_c_bytes).len() == 56,
{
    lemma_store_frame_parts_len(kind, payload_a, payload_b);
    lemma_sealed(store_frame_body(kind, payload_a, payload_b, payload_c_bytes));
}

proof fn lemma_store_frame_parts_len(kind: PageStoreFrameKind, payload_a: u64, payload_b: u64)
    ensures
        be_bytes(kind.spec_code() as nat, 2).len() == 2,
        be_bytes(1, 2).len() == 2,
        be_bytes(0, 4).len() == 4,
        be_bytes(56, 2).len() == 2,
        be_bytes(0, 2).len() == 2,
        be_bytes(payload_a as nat, 8).len() == 8,
        be_bytes(payload_b as nat, 8).len() == 8,
{
    lemma_be_bytes_len(kind.spec_code() as nat, 2);
    lemma_be_bytes_len(1, 2);
    lemma_be_bytes_len(0, 4);
    lemma_be_bytes_len(56, 2);
    lemma_be_bytes_len(0, 2);
    lemma_be_bytes_len(payload_a as nat, 8);
    lemma_be_bytes_len(payload_b as nat, 8);
}

/// A frame that is built decodes to the kind and the payloads that it was built
/// from.
pub proof fn law_store_frame_round_trip(
    kind: PageStoreFrameKind,
    payload_a: u64,
    payload_b: u64,
    payload_c_bytes: Seq<u8>,
    offset: u64,
)
    requires
        payload_c_bytes.len() == 8,
    ensures
        store_frame_bytes(kind, payload_a, payload_b, payload_c_bytes).len() == 56,
        decoded_store_frame(
            store_frame_bytes(kind, payload_a, payload_b, payload_c_bytes),
            offset,
        ) == Ok::<StoreFrameModel, PageStoreFormatError>(
            StoreFrameModel {
                kind,
                payload_a,
                payload_b,
                payload_c: be_value(payload_c_bytes) as u64,
                payload_c_bytes,
            },
        ),
{
    reveal(decoded_store_frame);
    let body = store_frame_body(kind, payload_a, payload_b, payload_c_bytes);
    let frame = store_frame_bytes(kind, payload_a, payload_b, payload_c_bytes);
    lemma_store_frame_len(kind, payload_a, payload_b, payload_c_bytes);
    lemma_sealed(body);
    lemma_pow256_values();
    lemma_be_value_of_bytes(kind.spec_code() as nat, 2);
    lemma_be_value_of_bytes(1, 2);
    lemma_be_value_of_bytes(0, 4);
    lemma_be_value_of_bytes(56, 2);
    lemma_be_value_of_bytes(0, 2);
    lemma_be_value_of_bytes(payload_a as nat, 8);
    lemma_be_value_of_bytes(payload_b as nat, 8);
    assert(frame.subrange(0, 4) =~= store_frame_magic());
    assert(frame.subrange(4, 6) =~= be_bytes(kind.spec_code() as nat, 2));
    assert(frame.subrange(6, 8) =~= be_bytes(1, 2));
    assert(frame.subrange(8, 12) =~= be_bytes(0, 4));
    assert(frame.subrange(12, 14) =~= be_bytes(56, 2));
    assert(frame.subrange(14, 16) =~= be_bytes(0, 2));
    assert(frame.subrange(16, 24) =~= be_bytes(payload_a as nat, 8));
    assert(frame.subrange(24, 32) =~= be_bytes(payload_b as nat, 8));
    assert(frame.subrange(32, 40) =~= payload_c_bytes);
    assert(zero_range(frame, 40, 48));
}

/// The same of a frame whose three payloads are numbers.
pub proof fn law_store_number_frame_round_trip(
    kind: PageStoreFrameKind,
    payload_a: u64,
    payload_b: u64,
    payload_c: u64,
    offset: u64,
)
    ensures
        store_number_frame_bytes(kind, payload_a, payload_b, payload_c).len() == 56,
        decoded_store_frame(
            store_number_frame_bytes(kind, payload_a, payload_b, payload_c),
            offset,
        ) == Ok::<StoreFrameModel, PageStoreFormatError>(
            StoreFrameModel {
                kind,
                payload_a,
                payload_b,
                payload_c,
                payload_c_bytes: be_bytes(payload_c as nat, 8),
            },
        ),
{
    lemma_pow256_values();
    lemma_be_value_of_bytes(payload_c as nat, 8);
    law_store_frame_round_trip(
        kind,
        payload_a,
        payload_b,
        be_bytes(payload_c as nat, 8),
        offset,
    );
}

/// A frame is accepted exactly if it is one that is built, and it says what it was
/// built from.
pub proof fn law_accepted_store_frame_is_the_built_one(
    frame: Seq<u8>,
    offset: u64,
    model: StoreFrameModel,
)
    requires
        frame.len() == 56,
    ensures
        decoded_store_frame(frame, offset) == Ok::<_, PageStoreFormatError>(model) <==> {
            &&& model.payload_c_bytes.len() == 8
            &&& frame == store_frame_bytes(
                model.kind,
                model.payload_a,
                model.payload_b,
                model.payload_c_bytes,
            )
            &&& model.payload_c == be_value(model.payload_c_bytes)
        },
{
    lemma_pow256_values();
    if decoded_store_frame(frame, offset) == Ok::<_, PageStoreFormatError>(model) {
        reveal(decoded_store_frame);
        lemma_accepted_store_frame_body(frame, offset);
        let stored = frame.subrange(48, 56);
        lemma_be_value_bound(stored);
        lemma_be_bytes_of_value(stored);
        lemma_be_value_bound(frame.subrange(32, 40));
        assert(frame =~= frame.subrange(0, 48) + stored);
    } else if model.payload_c_bytes.len() == 8 {
        lemma_be_value_bound(model.payload_c_bytes);
        law_store_frame_round_trip(
            model.kind,
            model.payload_a,
            model.payload_b,
            model.payload_c_bytes,
            offset,
        );
    }
}

/// The protected part of an accepted frame.
proof fn lemma_accepted_store_frame_body(frame: Seq<u8>, offset: u64)
    requires
        frame.len() == 56,
        store_frame_error(frame, offset) is None,
    ensures
        ({
            let model = store_frame_fields(frame);
            frame.subrange(0, 48) == store_frame_body(
                model.kind,
                model.payload_a,
                model.payload_b,
                model.payload_c_bytes,
            )
        }),
{
    let model = store_frame_fields(frame);
    lemma_pow256_values();
    lemma_store_frame_parts_len(model.kind, model.payload_a, model.payload_b);
    lemma_be_value_bound(frame.subrange(4, 6));
    lemma_be_value_bound(frame.subrange(6, 8));
    lemma_be_value_bound(frame.subrange(8, 12));
    lemma_be_value_bound(frame.subrange(12, 14));
    lemma_be_value_bound(frame.subrange(16, 24));
    lemma_be_value_bound(frame.subrange(24, 32));
    lemma_be_bytes_of_value(frame.subrange(4, 6));
    lemma_be_bytes_of_value(frame.subrange(6, 8));
    lemma_be_bytes_of_value(frame.subrange(8, 12));
    lemma_be_bytes_of_value(frame.subrange(12, 14));
    lemma_be_bytes_of_value(frame.subrange(14, 16));
    lemma_be_bytes_of_value(frame.subrange(16, 24));
    lemma_be_bytes_of_value(frame.subrange(24, 32));
    assert(frame.subrange(40, 48) =~= zeros(8));
    assert(frame.subrange(0, 48) =~= frame.subrange(0, 4) + frame.subrange(4, 6) + frame.subrange(
        6,
        8,
    ) + frame.subrange(8, 12) + frame.subrange(12, 14) + frame.subrange(14, 16) + frame.subrange(
        16,
        24,
    ) + frame.subrange(24, 32) + frame.subrange(32, 40) + frame.subrange(40, 48));
}

/// No frame is accepted both in a commit log and in a page store.
pub proof fn law_log_frame_is_no_store_frame(frame: Seq<u8>, offset: u64, format: LogFormat)
    requires
        frame.len() == 56,
        decoded_frame(frame, offset, format) is Ok,
    ensures
        decoded_store_frame(frame, offset) == Err::<StoreFrameModel, _>(
            PageStoreFormatError { offset, reason: PageStoreFormatErrorReason::FrameMagic },
        ),
{
    reveal(decoded_frame);
    reveal(decoded_store_frame);
    assert(frame_magic()[3] != store_frame_magic()[3]);
}

} // verus!
