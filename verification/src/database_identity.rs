//! Identity of a database and of the files that belong to it, and the fixed
//! 48-byte extension in which a child file's header stores it.
//!
//! - `0..8`   : magic `NTSQCFI1`
//! - `8..10`  : `u16` version (`1`)
//! - `10..12` : `u16` length (`48`)
//! - `12`     : role of the file
//! - `13..16` : reserved zeros
//! - `16..32` : nonzero `u128` database ID
//! - `32..48` : nonzero `u128` file ID
use vstd::prelude::*;

use crate::bytes::{
    append_slice, append_u128, append_u16, append_zeros, be_bytes, be_field, is_zero_range,
    lemma_be_bytes_len, lemma_be_value_of_bytes, lemma_pow256_values, matches_at, read_u128,
    read_u16, zero_range, zeros,
};
use crate::identity::PersistentLogId;
use crate::text::{
    decimal, sentence, sentence_ending, sentence_with,
};

verus! {

pub const DATABASE_CHILD_IDENTITY_V1_LENGTH: usize = 48;

/// Nonzero identity of one database.
#[derive(Clone, Copy, Debug, PartialEq, Eq, Structural, Hash)]
pub struct DatabaseId {
    value: u128,
}

impl DatabaseId {
    pub closed spec fn view(&self) -> u128 {
        self.value
    }

    #[verifier::type_invariant]
    closed spec fn nonzero(self) -> bool {
        self.value != 0
    }

    /// Accepts any nonzero identity.
    pub fn new(value: u128) -> (id: Option<DatabaseId>)
        ensures
            id is Some <==> value != 0,
            id matches Some(id) ==> id@ == value,
    {
        if value == 0 {
            None
        } else {
            Some(DatabaseId { value })
        }
    }

    pub fn get(&self) -> (value: u128)
        ensures
            value == self@,
            value != 0,
    {
        proof {
            use_type_invariant(self);
        }
        self.value
    }
}

/// Nonzero identity of one file of a database.
#[derive(Clone, Copy, Debug, PartialEq, Eq, Structural, Hash)]
pub struct DatabaseFileId {
    value: u128,
}

impl DatabaseFileId {
    pub closed spec fn view(&self) -> u128 {
        self.value
    }

    #[verifier::type_invariant]
    closed spec fn nonzero(self) -> bool {
        self.value != 0
    }

    /// Accepts any nonzero identity.
    pub fn new(value: u128) -> (id: Option<DatabaseFileId>)
        ensures
            id is Some <==> value != 0,
            id matches Some(id) ==> id@ == value,
    {
        if value == 0 {
            None
        } else {
            Some(DatabaseFileId { value })
        }
    }

    pub fn get(&self) -> (value: u128)
        ensures
            value == self@,
            value != 0,
    {
        proof {
            use_type_invariant(self);
        }
        self.value
    }
}

/// What a file of a database is for.
#[derive(Clone, Copy, Debug, PartialEq, Eq, Structural, Hash)]
pub enum DatabaseFileRole {
    /// The write-ahead log.
    Wal,
    /// The page store.
    PageStore,
    /// The restart-checkpoint completeness slot.
    Completeness,
}

impl DatabaseFileRole {
    pub open spec fn spec_code(self) -> u8 {
        match self {
            DatabaseFileRole::Wal => 1,
            DatabaseFileRole::PageStore => 2,
            DatabaseFileRole::Completeness => 3,
        }
    }

    /// The byte that stands for this role.
    pub fn code(self) -> (code: u8)
        ensures
            code == self.spec_code(),
    {
        match self {
            DatabaseFileRole::Wal => 1,
            DatabaseFileRole::PageStore => 2,
            DatabaseFileRole::Completeness => 3,
        }
    }

    /// The role that a byte stands for.
    pub fn from_code(code: u8) -> (role: Option<DatabaseFileRole>)
        ensures
            role is Some <==> 1 <= code <= 3,
            role matches Some(role) ==> role.spec_code() == code,
    {
        match code {
            1 => Some(DatabaseFileRole::Wal),
            2 => Some(DatabaseFileRole::PageStore),
            3 => Some(DatabaseFileRole::Completeness),
            _ => None,
        }
    }
}

/// Role and identity of one file.
#[derive(Clone, Copy, Debug, PartialEq, Eq, Structural, Hash)]
pub struct DatabaseFileIdentity {
    pub role: DatabaseFileRole,
    pub file_id: DatabaseFileId,
}

impl DatabaseFileIdentity {
    pub fn new(role: DatabaseFileRole, file_id: DatabaseFileId) -> (identity: DatabaseFileIdentity)
        ensures
            identity == (DatabaseFileIdentity { role, file_id }),
    {
        DatabaseFileIdentity { role, file_id }
    }
}

/// The identity that a child file's header carries.
#[derive(Clone, Copy, Debug, PartialEq, Eq, Structural, Hash)]
pub struct DatabaseFileHeaderIdentity {
    pub database_id: DatabaseId,
    pub file: DatabaseFileIdentity,
}

/// Mathematical content of a child file identity.
pub struct ChildIdentityModel {
    pub database_id: u128,
    pub role: DatabaseFileRole,
    pub file_id: u128,
}

impl ChildIdentityModel {
    pub open spec fn wf(self) -> bool {
        self.database_id != 0 && self.file_id != 0
    }
}

impl DatabaseFileHeaderIdentity {
    pub open spec fn view(&self) -> ChildIdentityModel {
        ChildIdentityModel {
            database_id: self.database_id@,
            role: self.file.role,
            file_id: self.file.file_id@,
        }
    }

    pub fn new(database_id: DatabaseId, file: DatabaseFileIdentity) -> (identity:
        DatabaseFileHeaderIdentity)
        ensures
            identity == (DatabaseFileHeaderIdentity { database_id, file }),
    {
        DatabaseFileHeaderIdentity { database_id, file }
    }
}

/// The identities under which one database's storage files are created.
#[derive(Clone, Copy, Debug, PartialEq, Eq, Structural, Hash)]
pub struct DatabaseStorageIdentity {
    pub database_id: DatabaseId,
    pub persistent_log_id: PersistentLogId,
    pub wal_file_id: DatabaseFileId,
    pub page_store_file_id: DatabaseFileId,
    pub completeness_file_id: DatabaseFileId,
}

impl DatabaseStorageIdentity {
    pub open spec fn spec_file_header_identity(
        self,
        role: DatabaseFileRole,
    ) -> DatabaseFileHeaderIdentity {
        DatabaseFileHeaderIdentity {
            database_id: self.database_id,
            file: DatabaseFileIdentity {
                role,
                file_id: match role {
                    DatabaseFileRole::Wal => self.wal_file_id,
                    DatabaseFileRole::PageStore => self.page_store_file_id,
                    DatabaseFileRole::Completeness => self.completeness_file_id,
                },
            },
        }
    }

    /// The identity that the header of the file with this role carries.
    pub fn file_header_identity(&self, role: DatabaseFileRole) -> (identity:
        DatabaseFileHeaderIdentity)
        ensures
            identity == self.spec_file_header_identity(role),
    {
        let file_id: DatabaseFileId = match role {
            DatabaseFileRole::Wal => self.wal_file_id,
            DatabaseFileRole::PageStore => self.page_store_file_id,
            DatabaseFileRole::Completeness => self.completeness_file_id,
        };
        DatabaseFileHeaderIdentity {
            database_id: self.database_id,
            file: DatabaseFileIdentity { role, file_id },
        }
    }

    pub fn persistent_log_id(&self) -> (id: PersistentLogId)
        ensures
            id == self.persistent_log_id,
    {
        self.persistent_log_id
    }
}

/// Exact reason why a child identity extension is malformed.
#[derive(Clone, Copy, Debug, PartialEq, Eq, Structural)]
pub enum DatabaseChildIdentityDecodeErrorReason {
    Magic,
    Version { actual: u16 },
    Length { actual: u16 },
    Role { actual: u8 },
    Reserved,
    DatabaseIdZero,
    FileIdZero,
}

impl DatabaseChildIdentityDecodeErrorReason {
    pub open spec fn spec_message(self) -> Seq<char> {
        match self {
            DatabaseChildIdentityDecodeErrorReason::Magic =>
                "database child identity magic does not match"@,
            DatabaseChildIdentityDecodeErrorReason::Version { actual } =>
                "unsupported database child identity version "@ + decimal(actual as nat),
            DatabaseChildIdentityDecodeErrorReason::Length { actual } =>
                "database child identity length "@ + decimal(actual as nat)
                    + " does not equal 48"@,
            DatabaseChildIdentityDecodeErrorReason::Role { actual } =>
                "unknown database child file role "@ + decimal(actual as nat),
            DatabaseChildIdentityDecodeErrorReason::Reserved =>
                "database child identity reserved bytes are nonzero"@,
            DatabaseChildIdentityDecodeErrorReason::DatabaseIdZero =>
                "database child identity database ID is zero"@,
            DatabaseChildIdentityDecodeErrorReason::FileIdZero =>
                "database child identity file ID is zero"@,
        }
    }

    /// A sentence that describes the reason.
    pub fn message(&self) -> (message: String)
        ensures
            message@ == self.spec_message(),
    {
        match self {
            DatabaseChildIdentityDecodeErrorReason::Magic => {
                sentence("database child identity magic does not match")
            },
            DatabaseChildIdentityDecodeErrorReason::Version { actual } => {
                sentence_ending("unsupported database child identity version ", *actual as u64)
            },
            DatabaseChildIdentityDecodeErrorReason::Length { actual } => {
                sentence_with(
                    "database child identity length ",
                    *actual as u64,
                    " does not equal 48",
                )
            },
            DatabaseChildIdentityDecodeErrorReason::Role { actual } => {
                sentence_ending("unknown database child file role ", *actual as u64)
            },
            DatabaseChildIdentityDecodeErrorReason::Reserved => {
                sentence("database child identity reserved bytes are nonzero")
            },
            DatabaseChildIdentityDecodeErrorReason::DatabaseIdZero => {
                sentence("database child identity database ID is zero")
            },
            DatabaseChildIdentityDecodeErrorReason::FileIdZero => {
                sentence("database child identity file ID is zero")
            },
        }
    }
}

/// A malformed extension: the reason, and the byte of the extension at which
/// it was found.
#[derive(Clone, Copy, Debug, PartialEq, Eq, Structural)]
pub struct DatabaseChildIdentityDecodeError {
    pub offset: usize,
    pub reason: DatabaseChildIdentityDecodeErrorReason,
}

impl DatabaseChildIdentityDecodeError {
    pub fn offset(&self) -> (offset: usize)
        ensures
            offset == self.offset,
    {
        self.offset
    }

    pub fn reason(&self) -> (reason: DatabaseChildIdentityDecodeErrorReason)
        ensures
            reason == self.reason,
    {
        self.reason
    }
}

/// `NTSQCFI1`
pub open spec fn child_identity_magic() -> Seq<u8> {
    seq![0x4eu8, 0x54u8, 0x53u8, 0x51u8, 0x43u8, 0x46u8, 0x49u8, 0x31u8]
}

/// The extension that stores `identity`.
pub open spec fn child_identity_bytes(identity: ChildIdentityModel) -> Seq<u8> {
    child_identity_magic() + be_bytes(1, 2) + be_bytes(48, 2) + seq![identity.role.spec_code()]
        + zeros(3) + be_bytes(identity.database_id as nat, 16) + be_bytes(
        identity.file_id as nat,
        16,
    )
}

/// The first rule that an extension breaks, in the order of its fields.
pub open spec fn child_identity_error(bytes: Seq<u8>) -> Option<DatabaseChildIdentityDecodeError> {
    let version = be_field(bytes, 8, 2) as u16;
    let length = be_field(bytes, 10, 2) as u16;
    if bytes.subrange(0, 8) != child_identity_magic() {
        Some(
            DatabaseChildIdentityDecodeError {
                offset: 0,
                reason: DatabaseChildIdentityDecodeErrorReason::Magic,
            },
        )
    } else if version != 1 {
        Some(
            DatabaseChildIdentityDecodeError {
                offset: 8,
                reason: DatabaseChildIdentityDecodeErrorReason::Version { actual: version },
            },
        )
    } else if length != 48 {
        Some(
            DatabaseChildIdentityDecodeError {
                offset: 10,
                reason: DatabaseChildIdentityDecodeErrorReason::Length { actual: length },
            },
        )
    } else if !(1 <= bytes[12] <= 3) {
        Some(
            DatabaseChildIdentityDecodeError {
                offset: 12,
                reason: DatabaseChildIdentityDecodeErrorReason::Role { actual: bytes[12] },
            },
        )
    } else if !zero_range(bytes, 13, 16) {
        Some(
            DatabaseChildIdentityDecodeError {
                offset: 13,
                reason: DatabaseChildIdentityDecodeErrorReason::Reserved,
            },
        )
    } else if be_field(bytes, 16, 16) == 0 {
        Some(
            DatabaseChildIdentityDecodeError {
                offset: 16,
                reason: DatabaseChildIdentityDecodeErrorReason::DatabaseIdZero,
            },
        )
    } else if be_field(bytes, 32, 16) == 0 {
        Some(
            DatabaseChildIdentityDecodeError {
                offset: 32,
                reason: DatabaseChildIdentityDecodeErrorReason::FileIdZero,
            },
        )
    } else {
        None
    }
}

/// The role that a byte stands for.
pub open spec fn role_of(code: u8) -> DatabaseFileRole {
    if code == 1 {
        DatabaseFileRole::Wal
    } else if code == 2 {
        DatabaseFileRole::PageStore
    } else {
        DatabaseFileRole::Completeness
    }
}

/// The identity that the fields of an extension spell.
pub open spec fn child_identity_of(bytes: Seq<u8>) -> ChildIdentityModel {
    ChildIdentityModel {
        database_id: be_field(bytes, 16, 16) as u128,
        role: role_of(bytes[12]),
        file_id: be_field(bytes, 32, 16) as u128,
    }
}

/// Encodes an identity into its fixed extension.
pub fn encode_database_child_identity(identity: DatabaseFileHeaderIdentity) -> (bytes: Vec<u8>)
    ensures
        bytes@ == child_identity_bytes(identity@),
        bytes@.len() == 48,
{
    let mut bytes: Vec<u8> = vec![0x4eu8, 0x54u8, 0x53u8, 0x51u8, 0x43u8, 0x46u8, 0x49u8, 0x31u8];
    assert(bytes@ =~= child_identity_magic());
    append_u16(&mut bytes, 1);
    append_u16(&mut bytes, 48);
    let role: u8 = identity.file.role.code();
    append_slice(&mut bytes, &[role]);
    append_zeros(&mut bytes, 3);
    append_u128(&mut bytes, identity.database_id.get());
    append_u128(&mut bytes, identity.file.file_id.get());
    proof {
        assert([role]@ =~= seq![role]);
        lemma_be_bytes_len(1, 2);
        lemma_be_bytes_len(48, 2);
        lemma_be_bytes_len(identity.database_id@ as nat, 16);
        lemma_be_bytes_len(identity.file.file_id@ as nat, 16);
    }
    bytes
}

/// Decodes an extension, or reports the first rule that it breaks.
pub fn decode_database_child_identity(bytes: &[u8]) -> (result: Result<
    DatabaseFileHeaderIdentity,
    DatabaseChildIdentityDecodeError,
>)
    requires
        bytes@.len() == 48,
    ensures
        match child_identity_error(bytes@) {
            Some(error) => result == Err::<DatabaseFileHeaderIdentity, _>(error),
            None => result matches Ok(identity) && identity@ == child_identity_of(bytes@),
        },
{
    let magic: [u8; 8] = [0x4eu8, 0x54u8, 0x53u8, 0x51u8, 0x43u8, 0x46u8, 0x49u8, 0x31u8];
    assert(magic@ =~= child_identity_magic());
    if !matches_at(bytes, 0, &magic) {
        return Err(
            DatabaseChildIdentityDecodeError {
                offset: 0,
                reason: DatabaseChildIdentityDecodeErrorReason::Magic,
            },
        );
    }
    let version: u16 = read_u16(bytes, 8);
    if version != 1 {
        return Err(
            DatabaseChildIdentityDecodeError {
                offset: 8,
                reason: DatabaseChildIdentityDecodeErrorReason::Version { actual: version },
            },
        );
    }
    let length: u16 = read_u16(bytes, 10);
    if length != 48 {
        return Err(
            DatabaseChildIdentityDecodeError {
                offset: 10,
                reason: DatabaseChildIdentityDecodeErrorReason::Length { actual: length },
            },
        );
    }
    let role: DatabaseFileRole = match DatabaseFileRole::from_code(bytes[12]) {
        Some(role) => role,
        None => {
            return Err(
                DatabaseChildIdentityDecodeError {
                    offset: 12,
                    reason: DatabaseChildIdentityDecodeErrorReason::Role { actual: bytes[12] },
                },
            );
        },
    };
    if !is_zero_range(bytes, 13, 16) {
        return Err(
            DatabaseChildIdentityDecodeError {
                offset: 13,
                reason: DatabaseChildIdentityDecodeErrorReason::Reserved,
            },
        );
    }
    let database_id: DatabaseId = match DatabaseId::new(read_u128(bytes, 16)) {
        Some(id) => id,
        None => {
            return Err(
                DatabaseChildIdentityDecodeError {
                    offset: 16,
                    reason: DatabaseChildIdentityDecodeErrorReason::DatabaseIdZero,
                },
            );
        },
    };
    let file_id: DatabaseFileId = match DatabaseFileId::new(read_u128(bytes, 32)) {
        Some(id) => id,
        None => {
            return Err(
                DatabaseChildIdentityDecodeError {
                    offset: 32,
                    reason: DatabaseChildIdentityDecodeErrorReason::FileIdZero,
                },
            );
        },
    };
    Ok(DatabaseFileHeaderIdentity { database_id, file: DatabaseFileIdentity { role, file_id } })
}

/// An encoded identity decodes without error to the same identity.
pub proof fn law_child_identity_round_trip(identity: ChildIdentityModel)
    requires
        identity.wf(),
    ensures
        child_identity_bytes(identity).len() == 48,
        child_identity_error(child_identity_bytes(identity)) is None,
        child_identity_of(child_identity_bytes(identity)) == identity,
{
    let bytes = child_identity_bytes(identity);
    lemma_pow256_values();
    lemma_be_value_of_bytes(1, 2);
    lemma_be_value_of_bytes(48, 2);
    lemma_be_value_of_bytes(identity.database_id as nat, 16);
    lemma_be_value_of_bytes(identity.file_id as nat, 16);
    assert(bytes.subrange(0, 8) =~= child_identity_magic());
    assert(bytes.subrange(8, 10) =~= be_bytes(1, 2));
    assert(bytes.subrange(10, 12) =~= be_bytes(48, 2));
    assert(bytes.subrange(16, 32) =~= be_bytes(identity.database_id as nat, 16));
    assert(bytes.subrange(32, 48) =~= be_bytes(identity.file_id as nat, 16));
}

} // verus!
