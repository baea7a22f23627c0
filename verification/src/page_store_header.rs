//! The header of a page-store file.
//!
//! - `0..8`   : magic `NTSQPGS1`
//! - `8..10`  : `u16` version
//! - `10..12` : `u16` header length (`64`, in version 2 `128`)
//! - `12..16` : `u32` flags (`0`)
//! - `16..32` : nonzero `u128` persistent lineage ID
//! - `32..40` : nonzero `u64` page width
//! - `40..56` : reserved zeros (in version 2 `40..64`)
//! - `56..64` : checksum of bytes `0..56`
//!
//! Version 2 goes on with the identity of the database file in `64..112`,
//! reserved zeros in `112..120` and the checksum of bytes `0..120` in `120..128`.
use vstd::prelude::*;

use crate::bytes::{
    append_slice, append_u128, append_u16, append_u32, append_u64, append_zeros, be_bytes, be_field,
    checksum, checksum_v1, is_zero_range, lemma_be_bytes_len, lemma_be_value_of_bytes,
    lemma_pow256_values, lemma_sealed, matches_at, read_u128, read_u16, read_u32, read_u64, seal,
    sealed, zero_range, zeros,
};
use crate::database_identity::{
    child_identity_bytes, child_identity_error, child_identity_of, decode_database_child_identity,
    encode_database_child_identity, law_child_identity_round_trip, ChildIdentityModel,
    DatabaseFileHeaderIdentity,
};
use crate::format::HEADER_LENGTH;
use crate::identity::PersistentLogId;
use crate::page_store_error::{PageStoreFormatError, PageStoreFormatErrorReason};

verus! {

/// Version of a page-store file.
#[derive(Clone, Copy, Debug, PartialEq, Eq, Structural)]
pub enum PageStoreFormat {
    V1,
    /// Carries the identity of a database file.
    V2,
}

impl PageStoreFormat {
    pub open spec fn spec_version(self) -> u16 {
        match self {
            PageStoreFormat::V1 => 1,
            PageStoreFormat::V2 => 2,
        }
    }

    pub fn version(self) -> (version: u16)
        ensures
            version == self.spec_version(),
    {
        match self {
            PageStoreFormat::V1 => 1,
            PageStoreFormat::V2 => 2,
        }
    }
}

/// Parsed version 2 header.
#[derive(Clone, Copy, Debug, PartialEq, Eq)]
pub struct PageStoreHeaderV2Metadata {
    pub persistent_id: PersistentLogId,
    pub database_file_identity: DatabaseFileHeaderIdentity,
}

/// `NTSQPGS1`
pub open spec fn store_header_magic() -> Seq<u8> {
    seq![0x4eu8, 0x54u8, 0x53u8, 0x51u8, 0x50u8, 0x47u8, 0x53u8, 0x31u8]
}

/// The first forty bytes of every header.
pub open spec fn store_header_front(
    version: u16,
    length: u16,
    persistent_id: u128,
    width: u64,
) -> Seq<u8> {
    store_header_magic() + be_bytes(version as nat, 2) + be_bytes(length as nat, 2) + be_bytes(0, 4)
        + be_bytes(persistent_id as nat, 16) + be_bytes(width as nat, 8)
}

/// The header of version 1.
pub open spec fn store_header_bytes(persistent_id: u128, width: u64) -> Seq<u8> {
    sealed(store_header_front(1, 64, persistent_id, width) + zeros(16))
}

/// The header of version 2.
pub open spec fn store_header_v2_bytes(
    persistent_id: u128,
    width: u64,
    identity: ChildIdentityModel,
) -> Seq<u8> {
    sealed(
        store_header_front(2, 128, persistent_id, width) + zeros(24) + child_identity_bytes(
            identity,
        ) + zeros(8),
    )
}

pub open spec fn store_at(offset: u64, reason: PageStoreFormatErrorReason) -> Option<
    PageStoreFormatError,
> {
    Some(PageStoreFormatError { offset, reason })
}

/// The first rule that the front of a header breaks.
pub open spec fn store_front_error(header: Seq<u8>, version: u16, length: u16, width: u64) -> Option<
    PageStoreFormatError,
> {
    let actual_version = be_field(header, 8, 2) as u16;
    let actual_length = be_field(header, 10, 2) as u16;
    let flags = be_field(header, 12, 4) as u32;
    let actual_width = be_field(header, 32, 8) as u64;
    if header.subrange(0, 8) != store_header_magic() {
        store_at(0, PageStoreFormatErrorReason::HeaderMagic)
    } else if actual_version != version {
        store_at(8, PageStoreFormatErrorReason::HeaderVersion { actual: actual_version })
    } else if actual_length != length {
        if version == 1 {
            store_at(10, PageStoreFormatErrorReason::HeaderLength { actual: actual_length })
        } else {
            store_at(10, PageStoreFormatErrorReason::HeaderV2Length { actual: actual_length })
        }
    } else if flags != 0 {
        store_at(12, PageStoreFormatErrorReason::HeaderFlags { actual: flags })
    } else if be_field(header, 16, 16) == 0 {
        store_at(16, PageStoreFormatErrorReason::LineageIdZero)
    } else if actual_width == 0 {
        store_at(32, PageStoreFormatErrorReason::HeaderPageWidthZero)
    } else if actual_width != width {
        store_at(
            32,
            PageStoreFormatErrorReason::HeaderPageWidthMismatch {
                expected: width,
                actual: actual_width,
            },
        )
    } else {
        None
    }
}

/// Whether the checksum at `offset` does not fit what precedes it.
pub open spec fn store_seal_error(header: Seq<u8>, offset: int) -> Option<PageStoreFormatError> {
    let actual = be_field(header, offset, 8) as u64;
    let expected = checksum(header.subrange(0, offset));
    if actual != expected {
        store_at(offset as u64, PageStoreFormatErrorReason::HeaderChecksum { expected, actual })
    } else {
        None
    }
}

/// The first rule that a version 1 header breaks.
pub open spec fn store_header_error(header: Seq<u8>, width: u64) -> Option<PageStoreFormatError> {
    if store_front_error(header, 1, 64, width) is Some {
        store_front_error(header, 1, 64, width)
    } else if !zero_range(header, 40, 56) {
        store_at(40, PageStoreFormatErrorReason::HeaderReserved)
    } else {
        store_seal_error(header, 56)
    }
}

/// The first rule that a version 2 header breaks.
pub open spec fn store_header_v2_error(header: Seq<u8>, width: u64) -> Option<
    PageStoreFormatError,
> {
    if store_front_error(header, 2, 128, width) is Some {
        store_front_error(header, 2, 128, width)
    } else if !zero_range(header, 40, 64) {
        store_at(40, PageStoreFormatErrorReason::HeaderReserved)
    } else {
        match child_identity_error(header.subrange(64, 112)) {
            Some(error) => store_at(
                (64 + error.offset) as u64,
                PageStoreFormatErrorReason::HeaderDatabaseChildIdentity(error.reason),
            ),
            None => if !zero_range(header, 112, 120) {
                store_at(112, PageStoreFormatErrorReason::HeaderReserved)
            } else {
                store_seal_error(header, 120)
            },
        }
    }
}

fn refused<T>(offset: u64, reason: PageStoreFormatErrorReason) -> (result: Result<
    T,
    PageStoreFormatError,
>)
    ensures
        result == Err::<T, _>(PageStoreFormatError { offset, reason }),
{
    Err(PageStoreFormatError::new(offset, reason))
}

fn check_seal(header: &[u8], offset: usize) -> (result: Result<(), PageStoreFormatError>)
    requires
        offset + 8 == header@.len(),
    ensures
        result == match store_seal_error(header@, offset as int) {
            Some(error) => Err(error),
            None => Ok(()),
        },
{
    let actual: u64 = read_u64(header, offset);
    let expected: u64 = checksum_v1(&header[0..offset]);
    if actual != expected {
        return refused(
            offset as u64,
            PageStoreFormatErrorReason::HeaderChecksum { expected, actual },
        );
    }
    Ok(())
}

fn parse_front(header: &[u8], version: u16, length: u16, width: u64) -> (result: Result<
    PersistentLogId,
    PageStoreFormatError,
>)
    requires
        header@.len() >= 64,
    ensures
        match store_front_error(header@, version, length, width) {
            Some(error) => result == Err::<PersistentLogId, _>(error),
            None => result matches Ok(id) && id@ == be_field(header@, 16, 16),
        },
{
    let magic: [u8; 8] = [0x4eu8, 0x54u8, 0x53u8, 0x51u8, 0x50u8, 0x47u8, 0x53u8, 0x31u8];
    assert(magic@ =~= store_header_magic());
    if !matches_at(header, 0, &magic) {
        return refused(0, PageStoreFormatErrorReason::HeaderMagic);
    }
    let actual_version: u16 = read_u16(header, 8);
    if actual_version != version {
        return refused(8, PageStoreFormatErrorReason::HeaderVersion { actual: actual_version });
    }
    let actual_length: u16 = read_u16(header, 10);
    if actual_length != length {
        if version == 1 {
            return refused(10, PageStoreFormatErrorReason::HeaderLength { actual: actual_length });
        }
        return refused(10, PageStoreFormatErrorReason::HeaderV2Length { actual: actual_length });
    }
    let flags: u32 = read_u32(header, 12);
    if flags != 0 {
        return refused(12, PageStoreFormatErrorReason::HeaderFlags { actual: flags });
    }
    let persistent_id: PersistentLogId = match PersistentLogId::new(read_u128(header, 16)) {
        Some(id) => id,
        None => {
            return refused(16, PageStoreFormatErrorReason::LineageIdZero);
        },
    };
    let actual_width: u64 = read_u64(header, 32);
    if actual_width == 0 {
        return refused(32, PageStoreFormatErrorReason::HeaderPageWidthZero);
    }
    if actual_width != width {
        return refused(
            32,
            PageStoreFormatErrorReason::HeaderPageWidthMismatch {
                expected: width,
                actual: actual_width,
            },
        );
    }
    Ok(persistent_id)
}

/// Parses a version 1 header.
pub fn parse_page_store_header(header: &[u8], width: u64) -> (result: Result<
    PersistentLogId,
    PageStoreFormatError,
>)
    requires
        header@.len() == 64,
    ensures
        match store_header_error(header@, width) {
            Some(error) => result == Err::<PersistentLogId, _>(error),
            None => result matches Ok(id) && id@ == be_field(header@, 16, 16),
        },
{
    let persistent_id: PersistentLogId = match parse_front(header, 1, 64, width) {
        Ok(id) => id,
        Err(error) => {
            return Err(error);
        },
    };
    if !is_zero_range(header, 40, 56) {
        return refused(40, PageStoreFormatErrorReason::HeaderReserved);
    }
    match check_seal(header, 56) {
        Ok(()) => Ok(persistent_id),
        Err(error) => Err(error),
    }
}

/// Parses a version 2 header.
pub fn parse_page_store_header_v2(header: &[u8], width: u64) -> (result: Result<
    PageStoreHeaderV2Metadata,
    PageStoreFormatError,
>)
    requires
        header@.len() == 128,
    ensures
        match store_header_v2_error(header@, width) {
            Some(error) => result == Err::<PageStoreHeaderV2Metadata, _>(error),
            None => {
                &&& result matches Ok(metadata)
                &&& metadata.persistent_id@ == be_field(header@, 16, 16)
                &&& metadata.database_file_identity@ == child_identity_of(header@.subrange(64, 112))
            },
        },
{
    let persistent_id: PersistentLogId = match parse_front(header, 2, 128, width) {
        Ok(id) => id,
        Err(error) => {
            return Err(error);
        },
    };
    if !is_zero_range(header, 40, 64) {
        return refused(40, PageStoreFormatErrorReason::HeaderReserved);
    }
    let database_file_identity: DatabaseFileHeaderIdentity = match decode_database_child_identity(
        &header[64..112],
    ) {
        Ok(identity) => identity,
        Err(error) => {
            return refused(
                64 + error.offset() as u64,
                PageStoreFormatErrorReason::HeaderDatabaseChildIdentity(error.reason()),
            );
        },
    };
    if !is_zero_range(header, 112, 120) {
        return refused(112, PageStoreFormatErrorReason::HeaderReserved);
    }
    match check_seal(header, 120) {
        Ok(()) => Ok(PageStoreHeaderV2Metadata { persistent_id, database_file_identity }),
        Err(error) => Err(error),
    }
}

fn build_front(version: u16, length: u16, persistent_id: PersistentLogId, width: u64) -> (header:
    Vec<u8>)
    ensures
        header@ == store_header_front(version, length, persistent_id@, width),
        header@.len() == 40,
{
    let mut header: Vec<u8> = vec![
        0x4eu8,
        0x54u8,
        0x53u8,
        0x51u8,
        0x50u8,
        0x47u8,
        0x53u8,
        0x31u8,
    ];
    assert(header@ =~= store_header_magic());
    append_u16(&mut header, version);
    append_u16(&mut header, length);
    append_u32(&mut header, 0);
    append_u128(&mut header, persistent_id.get());
    append_u64(&mut header, width);
    proof {
        lemma_store_front_len(version, length, persistent_id@, width);
    }
    header
}

/// Builds a version 1 header.
pub fn build_page_store_header(persistent_id: PersistentLogId, page_width: u64) -> (header: Vec<u8>)
    ensures
        header@ == store_header_bytes(persistent_id@, page_width),
        header@.len() == 64,
{
    let mut header: Vec<u8> = build_front(1, 64, persistent_id, page_width);
    append_zeros(&mut header, 16);
    seal(&mut header);
    header
}

/// Builds a version 2 header.
pub fn build_page_store_header_v2(
    persistent_id: PersistentLogId,
    page_width: u64,
    database_file_identity: DatabaseFileHeaderIdentity,
) -> (header: Vec<u8>)
    ensures
        header@ == store_header_v2_bytes(persistent_id@, page_width, database_file_identity@),
        header@.len() == 128,
{
    let mut header: Vec<u8> = build_front(2, 128, persistent_id, page_width);
    append_zeros(&mut header, 24);
    let identity: Vec<u8> = encode_database_child_identity(database_file_identity);
    append_slice(&mut header, identity.as_slice());
    append_zeros(&mut header, 8);
    seal(&mut header);
    header
}

proof fn lemma_store_front_len(version: u16, length: u16, persistent_id: u128, width: u64)
    ensures
        store_header_front(version, length, persistent_id, width).len() == 40,
{
    lemma_be_bytes_len(version as nat, 2);
    lemma_be_bytes_len(length as nat, 2);
    lemma_be_bytes_len(0, 4);
    lemma_be_bytes_len(persistent_id as nat, 16);
    lemma_be_bytes_len(width as nat, 8);
}

/// What the front of a header says, wherever it is the start of `header`.
proof fn lemma_store_front_fields(
    header: Seq<u8>,
    version: u16,
    length: u16,
    persistent_id: u128,
    width: u64,
)
    requires
        header.len() >= 40,
        header.take(40) == store_header_front(version, length, persistent_id, width),
        persistent_id != 0,
        width != 0,
    ensures
        be_field(header, 8, 2) == version,
        be_field(header, 16, 16) == persistent_id,
        store_front_error(header, version, length, width) is None,
{
    let front = store_header_front(version, length, persistent_id, width);
    lemma_pow256_values();
    lemma_be_value_of_bytes(version as nat, 2);
    lemma_be_value_of_bytes(length as nat, 2);
    lemma_be_value_of_bytes(0, 4);
    lemma_be_value_of_bytes(persistent_id as nat, 16);
    lemma_be_value_of_bytes(width as nat, 8);
    assert forall|i: int| 0 <= i < 40 implies header[i] == front[i] by {
        assert(header.take(40)[i] == header[i]);
    }
    assert(header.subrange(0, 8) =~= store_header_magic());
    assert(header.subrange(8, 10) =~= be_bytes(version as nat, 2));
    assert(header.subrange(10, 12) =~= be_bytes(length as nat, 2));
    assert(header.subrange(12, 16) =~= be_bytes(0, 4));
    assert(header.subrange(16, 32) =~= be_bytes(persistent_id as nat, 16));
    assert(header.subrange(32, 40) =~= be_bytes(width as nat, 8));
}

/// A version 1 header is accepted for its page width and gives its lineage back.
pub proof fn law_store_header_round_trip(persistent_id: u128, width: u64)
    requires
        persistent_id != 0,
        width != 0,
    ensures
        store_header_bytes(persistent_id, width).len() == 64,
        store_header_error(store_header_bytes(persistent_id, width), width) is None,
        be_field(store_header_bytes(persistent_id, width), 16, 16) == persistent_id,
        be_field(store_header_bytes(persistent_id, width), 8, 2) == 1,
{
    let front = store_header_front(1, 64, persistent_id, width);
    let body = front + zeros(16);
    let header = store_header_bytes(persistent_id, width);
    lemma_store_front_len(1, 64, persistent_id, width);
    lemma_sealed(body);
    assert forall|i: int| 0 <= i < 56 implies #[trigger] header[i] == body[i] by {
        assert(header.take(56)[i] == body[i]);
    }
    assert(header.take(40) =~= front);
    lemma_store_front_fields(header, 1, 64, persistent_id, width);
}

/// A version 2 header is accepted for its page width and gives its lineage and its
/// identity back.
pub proof fn law_store_header_v2_round_trip(
    persistent_id: u128,
    width: u64,
    identity: ChildIdentityModel,
)
    requires
        persistent_id != 0,
        width != 0,
        identity.wf(),
    ensures
        store_header_v2_bytes(persistent_id, width, identity).len() == 128,
        store_header_v2_error(store_header_v2_bytes(persistent_id, width, identity), width) is None,
        be_field(store_header_v2_bytes(persistent_id, width, identity), 16, 16) == persistent_id,
        be_field(store_header_v2_bytes(persistent_id, width, identity), 8, 2) == 2,
        child_identity_of(
            store_header_v2_bytes(persistent_id, width, identity).subrange(64, 112),
        ) == identity,
{
    let front = store_header_front(2, 128, persistent_id, width);
    let extension = child_identity_bytes(identity);
    let body = front + zeros(24) + extension + zeros(8);
    let header = store_header_v2_bytes(persistent_id, width, identity);
    lemma_store_front_len(2, 128, persistent_id, width);
    law_child_identity_round_trip(identity);
    lemma_sealed(body);
    assert forall|i: int| 0 <= i < 120 implies #[trigger] header[i] == body[i] by {
        assert(header.take(120)[i] == body[i]);
    }
    assert(header.take(40) =~= front);
    assert(header.subrange(64, 112) =~= extension);
    lemma_store_front_fields(header, 2, 128, persistent_id, width);
}

/// The length of a header of the given version.
pub open spec fn store_header_length(version: u16) -> nat {
    if version == 2 {
        128
    } else {
        64
    }
}

/// How long the header that begins with `bytes` is, by the version that it names.
pub fn announced_store_header_length(bytes: &[u8]) -> (length: usize)
    requires
        bytes@.len() >= 10,
    ensures
        length == store_header_length(be_field(bytes@, 8, 2) as u16),
{
    match read_u16(bytes, 8) {
        2 => 128,
        _ => HEADER_LENGTH,
    }
}

} // verus!
