//! The codec of the transaction restart checkpoint.
//!
//! A checkpoint is one blob: a header of 64 bytes, an entry of 64 bytes for every
//! transaction, and a footer of 16 bytes.
//!
//! Header:
//! - `0..8`   : magic `NTSQCKP1`
//! - `8..16`  : version (`1`) and the lengths of header, entry and footer, each `u16`
//! - `16..32` : `u128` persistent log ID
//! - `32..40` : durable frontier, zero where there is none
//! - `40..41` : presence of the durable frontier
//! - `41..48` : reserved zeros
//! - `48..56` : number of entries
//! - `56..64` : length of the blob
//!
//! Entry:
//! - `0..16`  : epoch and sequence of the transaction
//! - `16..32` : first and last position of an owned page, zero where there is none
//! - `32..40` : number of owned page records
//! - `40..48` : commit position, zero where the transaction has not committed
//! - `48..51` : state, and presence of the two positions
//! - `51..64` : reserved zeros
//!
//! Footer: magic `NTSQCKE1` and the checksum of every byte before the checksum.
use vstd::prelude::*;

use crate::bytes::{
    append_slice, append_u128, append_u16, append_u64, append_zeros, be_bytes, be_field, checksum,
    checksum_v1, lemma_be_bytes_len, lemma_be_bytes_zero, matches_at, overwritten, read_u128,
    read_u16, read_u64, seal, sealed, write_u64, zeroed, zeros,
};
use crate::checkpoint_error::{
    RestartCheckpointBaselineDecodeError, RestartCheckpointBaselineEncodeError,
    RestartCheckpointBaselineEntryOptionalField,
};
use crate::identity::{PersistentLogId, TransactionId};
use crate::room::{list_if, reserved};

verus! {

/// Whether a transaction had committed.
#[derive(Clone, Copy, Debug, PartialEq, Eq, Structural)]
pub enum DurableTransactionRestartCheckpointBaselineState {
    Uncommitted,
    Committed { commit_position: u64 },
}

/// One transaction of an authoritative checkpoint.
#[derive(Clone, Copy, Debug, PartialEq, Eq, Structural)]
pub struct DurableTransactionRestartCheckpointBaselineEntry {
    pub transaction: TransactionId,
    pub first_owned_page_position: Option<u64>,
    pub last_owned_page_position: Option<u64>,
    pub owned_page_record_count: u64,
    pub state: DurableTransactionRestartCheckpointBaselineState,
}

/// An authoritative checkpoint.
#[derive(Clone, Debug, PartialEq, Eq)]
pub struct DurableTransactionRestartCheckpointBaseline {
    pub persistent_log_id: PersistentLogId,
    pub durable_frontier: Option<u64>,
    pub transactions: Vec<DurableTransactionRestartCheckpointBaselineEntry>,
}

/// Whether a blob says that a transaction had committed.
#[derive(Clone, Copy, Debug, PartialEq, Eq, Structural)]
pub enum DurableTransactionRestartCheckpointBaselineStateObservation {
    Uncommitted,
    Committed { commit_position: u64 },
}

/// One transaction as a blob gives it. Nothing in it is trusted: zeros and
/// contradictions are kept as they stand.
#[derive(Clone, Copy, Debug, PartialEq, Eq, Structural)]
pub struct DurableTransactionRestartCheckpointBaselineEntryObservation {
    pub epoch: u64,
    pub sequence: u64,
    pub first_owned_page_position: Option<u64>,
    pub last_owned_page_position: Option<u64>,
    pub owned_page_record_count: u64,
    pub state: DurableTransactionRestartCheckpointBaselineStateObservation,
}

/// A checkpoint as a blob gives it. Nothing in it is trusted.
#[derive(Clone, Debug, PartialEq, Eq)]
pub struct OwnedDurableTransactionRestartCheckpointBaselineObservation {
    pub persistent_log_id: u128,
    pub durable_frontier: Option<u64>,
    pub transactions: Vec<DurableTransactionRestartCheckpointBaselineEntryObservation>,
}

/// Mathematical content of a checkpoint.
#[verifier::ext_equal]
pub struct CheckpointModel {
    pub persistent_log_id: u128,
    pub durable_frontier: Option<u64>,
    pub entries: Seq<DurableTransactionRestartCheckpointBaselineEntryObservation>,
}

impl DurableTransactionRestartCheckpointBaselineEntry {
    /// The entry as it is stored.
    pub open spec fn observed(
        self,
    ) -> DurableTransactionRestartCheckpointBaselineEntryObservation {
        DurableTransactionRestartCheckpointBaselineEntryObservation {
            epoch: self.transaction.spec_epoch(),
            sequence: self.transaction.spec_sequence(),
            first_owned_page_position: self.first_owned_page_position,
            last_owned_page_position: self.last_owned_page_position,
            owned_page_record_count: self.owned_page_record_count,
            state: match self.state {
                DurableTransactionRestartCheckpointBaselineState::Uncommitted =>
                    DurableTransactionRestartCheckpointBaselineStateObservation::Uncommitted,
                DurableTransactionRestartCheckpointBaselineState::Committed { commit_position } =>
                    DurableTransactionRestartCheckpointBaselineStateObservation::Committed {
                        commit_position,
                    },
            },
        }
    }
}

impl DurableTransactionRestartCheckpointBaselineEntryObservation {
    /// The entry that stores a transaction of an authoritative checkpoint.
    pub fn from_baseline(entry: &DurableTransactionRestartCheckpointBaselineEntry) -> (observation:
        DurableTransactionRestartCheckpointBaselineEntryObservation)
        ensures
            observation == entry.observed(),
    {
        let state: DurableTransactionRestartCheckpointBaselineStateObservation = match entry.state {
            DurableTransactionRestartCheckpointBaselineState::Uncommitted => {
                DurableTransactionRestartCheckpointBaselineStateObservation::Uncommitted
            },
            DurableTransactionRestartCheckpointBaselineState::Committed { commit_position } => {
                DurableTransactionRestartCheckpointBaselineStateObservation::Committed {
                    commit_position,
                }
            },
        };
        DurableTransactionRestartCheckpointBaselineEntryObservation {
            epoch: entry.transaction.epoch(),
            sequence: entry.transaction.sequence(),
            first_owned_page_position: entry.first_owned_page_position,
            last_owned_page_position: entry.last_owned_page_position,
            owned_page_record_count: entry.owned_page_record_count,
            state,
        }
    }
}

impl DurableTransactionRestartCheckpointBaseline {
    pub open spec fn view(&self) -> CheckpointModel {
        CheckpointModel {
            persistent_log_id: self.persistent_log_id@,
            durable_frontier: self.durable_frontier,
            entries: Seq::new(
                self.transactions@.len(),
                |i: int| self.transactions@[i].observed(),
            ),
        }
    }
}

impl OwnedDurableTransactionRestartCheckpointBaselineObservation {
    pub open spec fn view(&self) -> CheckpointModel {
        CheckpointModel {
            persistent_log_id: self.persistent_log_id,
            durable_frontier: self.durable_frontier,
            entries: self.transactions@,
        }
    }
}

/// `NTSQCKP1`
pub open spec fn checkpoint_header_magic() -> Seq<u8> {
    seq![0x4eu8, 0x54u8, 0x53u8, 0x51u8, 0x43u8, 0x4bu8, 0x50u8, 0x31u8]
}

/// `NTSQCKE1`
pub open spec fn checkpoint_footer_magic() -> Seq<u8> {
    seq![0x4eu8, 0x54u8, 0x53u8, 0x51u8, 0x43u8, 0x4bu8, 0x45u8, 0x31u8]
}

/// A number that may be missing, as it is stored.
pub open spec fn stored_value(value: Option<u64>) -> u64 {
    match value {
        Some(number) => number,
        None => 0,
    }
}

/// Whether a number is there, as it is stored.
pub open spec fn stored_presence(value: Option<u64>) -> u8 {
    if value is Some {
        1
    } else {
        0
    }
}

/// The commit position, where there is one.
pub open spec fn commit_position_of(
    state: DurableTransactionRestartCheckpointBaselineStateObservation,
) -> Option<u64> {
    match state {
        DurableTransactionRestartCheckpointBaselineStateObservation::Uncommitted => None,
        DurableTransactionRestartCheckpointBaselineStateObservation::Committed {
            commit_position,
        } => Some(commit_position),
    }
}

/// The bytes of one entry.
pub open spec fn entry_bytes(
    entry: DurableTransactionRestartCheckpointBaselineEntryObservation,
) -> Seq<u8> {
    be_bytes(entry.epoch as nat, 8) + be_bytes(entry.sequence as nat, 8) + be_bytes(
        stored_value(entry.first_owned_page_position) as nat,
        8,
    ) + be_bytes(stored_value(entry.last_owned_page_position) as nat, 8) + be_bytes(
        entry.owned_page_record_count as nat,
        8,
    ) + be_bytes(stored_value(commit_position_of(entry.state)) as nat, 8) + seq![
        stored_presence(commit_position_of(entry.state)),
        stored_presence(entry.first_owned_page_position),
        stored_presence(entry.last_owned_page_position),
    ] + zeros(13)
}

/// The bytes of the entries, one after the other.
pub open spec fn all_entry_bytes(
    entries: Seq<DurableTransactionRestartCheckpointBaselineEntryObservation>,
) -> Seq<u8>
    decreases entries.len(),
{
    if entries.len() == 0 {
        Seq::empty()
    } else {
        all_entry_bytes(entries.drop_last()) + entry_bytes(entries.last())
    }
}

/// The length of a blob with `count` entries.
pub open spec fn checkpoint_length(count: nat) -> nat {
    64 * count + 80
}

/// The header of a blob.
pub open spec fn checkpoint_header(
    persistent_log_id: u128,
    durable_frontier: Option<u64>,
    count: nat,
) -> Seq<u8> {
    checkpoint_header_magic() + be_bytes(1, 2) + be_bytes(64, 2) + be_bytes(64, 2) + be_bytes(16, 2)
        + be_bytes(persistent_log_id as nat, 16) + be_bytes(
        stored_value(durable_frontier) as nat,
        8,
    ) + seq![stored_presence(durable_frontier)] + zeros(7) + be_bytes(count, 8) + be_bytes(
        checkpoint_length(count),
        8,
    )
}

/// The bytes of a checkpoint.
pub open spec fn checkpoint_bytes(model: CheckpointModel) -> Seq<u8> {
    sealed(
        checkpoint_header(
            model.persistent_log_id,
            model.durable_frontier,
            model.entries.len(),
        ) + all_entry_bytes(model.entries) + checkpoint_footer_magic(),
    )
}

/// What the encoding of `count` entries is refused for, where `has_room` says
/// whether memory for the blob can be had.
pub open spec fn encode_refusal(count: nat, has_room: bool) -> Option<
    RestartCheckpointBaselineEncodeError,
> {
    if checkpoint_length(count) > usize::MAX {
        Some(
            RestartCheckpointBaselineEncodeError::EncodedLengthOverflow {
                transaction_count: count as usize,
            },
        )
    } else if !has_room {
        Some(
            RestartCheckpointBaselineEncodeError::CapacityExhausted {
                encoded_length: checkpoint_length(count) as usize,
            },
        )
    } else {
        None
    }
}

/// The length of the blob with `count` entries.
fn encoded_length(count: usize) -> (length: Option<usize>)
    ensures
        match length {
            Some(length) => length == checkpoint_length(count as nat),
            None => checkpoint_length(count as nat) > usize::MAX,
        },
{
    match count.checked_mul(64) {
        Some(entries) => entries.checked_add(80),
        None => None,
    }
}

/// `bytes` with a number that may be missing written into them: the number, where
/// there is one, and whether there is one.
pub open spec fn with_optional(
    bytes: Seq<u8>,
    value_offset: int,
    presence_offset: int,
    value: Option<u64>,
) -> Seq<u8> {
    match value {
        Some(number) => overwritten(bytes, value_offset, be_bytes(number as nat, 8)).update(
            presence_offset,
            1,
        ),
        None => bytes.update(presence_offset, 0),
    }
}

/// Writes a number that may be missing.
pub fn write_optional_u64(
    bytes: &mut Vec<u8>,
    value_offset: usize,
    presence_offset: usize,
    value: Option<u64>,
)
    requires
        value_offset + 8 <= old(bytes)@.len(),
        presence_offset < old(bytes)@.len(),
    ensures
        final(bytes)@ == with_optional(
            old(bytes)@,
            value_offset as int,
            presence_offset as int,
            value,
        ),
{
    match value {
        Some(number) => {
            write_u64(bytes, value_offset, number);
            bytes[presence_offset] = 1;
        },
        None => {
            bytes[presence_offset] = 0;
        },
    }
}

fn append_entry(
    bytes: &mut Vec<u8>,
    entry: &DurableTransactionRestartCheckpointBaselineEntryObservation,
)
    ensures
        final(bytes)@ == old(bytes)@ + entry_bytes(*entry),
{
    let mut stored: Vec<u8> = zeroed(64);
    write_u64(&mut stored, 0, entry.epoch);
    write_u64(&mut stored, 8, entry.sequence);
    write_optional_u64(&mut stored, 16, 49, entry.first_owned_page_position);
    write_optional_u64(&mut stored, 24, 50, entry.last_owned_page_position);
    write_u64(&mut stored, 32, entry.owned_page_record_count);
    let commit: Option<u64> = match entry.state {
        DurableTransactionRestartCheckpointBaselineStateObservation::Uncommitted => None,
        DurableTransactionRestartCheckpointBaselineStateObservation::Committed {
            commit_position,
        } => Some(commit_position),
    };
    write_optional_u64(&mut stored, 40, 48, commit);
    proof {
        lemma_be_bytes_len(entry.epoch as nat, 8);
        lemma_be_bytes_len(entry.sequence as nat, 8);
        lemma_be_bytes_len(stored_value(entry.first_owned_page_position) as nat, 8);
        lemma_be_bytes_len(stored_value(entry.last_owned_page_position) as nat, 8);
        lemma_be_bytes_len(entry.owned_page_record_count as nat, 8);
        lemma_be_bytes_len(stored_value(commit) as nat, 8);
        lemma_be_bytes_zero(8);
        assert(stored@ =~= entry_bytes(*entry));
    }
    append_slice(bytes, stored.as_slice());
}

fn stored_option(value: Option<u64>) -> (stored: (u64, u8))
    ensures
        stored == (stored_value(value), stored_presence(value)),
{
    match value {
        Some(number) => (number, 1),
        None => (0, 0),
    }
}

/// Whether `result` is what the encoding of a checkpoint has to give.
pub open spec fn encodes(
    model: CheckpointModel,
    has_room: bool,
    result: Result<Vec<u8>, RestartCheckpointBaselineEncodeError>,
) -> bool {
    match encode_refusal(model.entries.len(), has_room) {
        Some(error) => result == Err::<Vec<u8>, _>(error),
        None => result matches Ok(bytes) && bytes@ == checkpoint_bytes(model),
    }
}

/// Writes the header of a blob of `length` bytes with `count` entries into `blob`.
fn begin_blob(
    blob: &mut Vec<u8>,
    persistent_log_id: u128,
    durable_frontier: Option<u64>,
    count: usize,
    length: usize,
)
    requires
        old(blob)@ == Seq::<u8>::empty(),
        length == checkpoint_length(count as nat),
    ensures
        final(blob)@ == checkpoint_header(persistent_log_id, durable_frontier, count as nat),
{
    append_slice(blob, &[0x4eu8, 0x54u8, 0x53u8, 0x51u8, 0x43u8, 0x4bu8, 0x50u8, 0x31u8]);
    assert([0x4eu8, 0x54u8, 0x53u8, 0x51u8, 0x43u8, 0x4bu8, 0x50u8, 0x31u8]@
        =~= checkpoint_header_magic());
    assert(blob@ =~= checkpoint_header_magic());
    let (frontier, presence): (u64, u8) = stored_option(durable_frontier);
    append_u16(blob, 1);
    append_u16(blob, 64);
    append_u16(blob, 64);
    append_u16(blob, 16);
    append_u128(blob, persistent_log_id);
    append_u64(blob, frontier);
    append_slice(blob, &[presence]);
    assert([presence]@ =~= seq![presence]);
    append_zeros(blob, 7);
    append_u64(blob, count as u64);
    append_u64(blob, length as u64);
}

/// Puts the footer behind the entries of a blob.
fn finish_blob(blob: &mut Vec<u8>)
    ensures
        final(blob)@ == sealed(old(blob)@ + checkpoint_footer_magic()),
{
    append_slice(blob, &[0x4eu8, 0x54u8, 0x53u8, 0x51u8, 0x43u8, 0x4bu8, 0x45u8, 0x31u8]);
    assert([0x4eu8, 0x54u8, 0x53u8, 0x51u8, 0x43u8, 0x4bu8, 0x45u8, 0x31u8]@
        =~= checkpoint_footer_magic());
    seal(blob);
}

/// Encodes the fields of a checkpoint. `has_room` says whether memory for the blob
/// can be had.
pub fn encode_fields(
    persistent_log_id: u128,
    durable_frontier: Option<u64>,
    entries: &[DurableTransactionRestartCheckpointBaselineEntryObservation],
    has_room: bool,
) -> (result: Result<Vec<u8>, RestartCheckpointBaselineEncodeError>)
    ensures
        encodes(
            (CheckpointModel { persistent_log_id, durable_frontier, entries: entries@ }),
            has_room,
            result,
        ),
{
    let transaction_count: usize = entries.len();
    let encoded_length: usize = match encoded_length(transaction_count) {
        Some(length) => length,
        None => {
            return Err(
                RestartCheckpointBaselineEncodeError::EncodedLengthOverflow { transaction_count },
            );
        },
    };
    if !has_room {
        return Err(RestartCheckpointBaselineEncodeError::CapacityExhausted { encoded_length });
    }
    let mut bytes: Vec<u8> = Vec::new();
    assert(bytes@ =~= Seq::empty());
    begin_blob(
        &mut bytes,
        persistent_log_id,
        durable_frontier,
        transaction_count,
        encoded_length,
    );
    let ghost header = checkpoint_header(persistent_log_id, durable_frontier, entries@.len());
    let mut index: usize = 0;
    assert(entries@.take(0) =~= Seq::empty());
    assert(bytes@ =~= header + all_entry_bytes(entries@.take(0)));
    while index < transaction_count
        invariant
            index <= transaction_count == entries@.len(),
            bytes@ == header + all_entry_bytes(entries@.take(index as int)),
        decreases transaction_count - index,
    {
        append_entry(&mut bytes, &entries[index]);
        proof {
            let longer = entries@.take(index + 1);
            assert(longer.drop_last() =~= entries@.take(index as int));
            assert(longer.last() == entries@[index as int]);
            assert(bytes@ =~= header + all_entry_bytes(longer));
        }
        index = index + 1;
    }
    assert(entries@.take(entries@.len() as int) =~= entries@);
    finish_blob(&mut bytes);
    Ok(bytes)
}

/// Encodes an authoritative checkpoint.
///
/// Whether memory for the blob can be had depends on the machine: instead of the
/// blob there may be [`RestartCheckpointBaselineEncodeError::CapacityExhausted`].
pub fn encode_restart_checkpoint_baseline(
    baseline: &DurableTransactionRestartCheckpointBaseline,
) -> (result: Result<Vec<u8>, RestartCheckpointBaselineEncodeError>)
    ensures
        encodes(baseline@, true, result) || encodes(baseline@, false, result),
{
    let transaction_count: usize = baseline.transactions.len();
    let encoded_length: usize = match encoded_length(transaction_count) {
        Some(length) => length,
        None => {
            return Err(
                RestartCheckpointBaselineEncodeError::EncodedLengthOverflow { transaction_count },
            );
        },
    };
    let mut bytes: Vec<u8> = match reserved(encoded_length) {
        Some(bytes) => bytes,
        None => {
            return Err(RestartCheckpointBaselineEncodeError::CapacityExhausted { encoded_length });
        },
    };
    begin_blob(
        &mut bytes,
        baseline.persistent_log_id.get(),
        baseline.durable_frontier,
        transaction_count,
        encoded_length,
    );
    let ghost entries = baseline@.entries;
    let ghost header = checkpoint_header(
        baseline@.persistent_log_id,
        baseline@.durable_frontier,
        entries.len(),
    );
    let mut index: usize = 0;
    assert(entries.take(0) =~= Seq::empty());
    assert(bytes@ =~= header + all_entry_bytes(entries.take(0)));
    while index < transaction_count
        invariant
            index <= transaction_count == baseline.transactions@.len(),
            entries == baseline@.entries,
            bytes@ == header + all_entry_bytes(entries.take(index as int)),
        decreases transaction_count - index,
    {
        let entry: DurableTransactionRestartCheckpointBaselineEntryObservation =
            DurableTransactionRestartCheckpointBaselineEntryObservation::from_baseline(
            &baseline.transactions[index],
        );
        append_entry(&mut bytes, &entry);
        proof {
            let longer = entries.take(index + 1);
            assert(longer.drop_last() =~= entries.take(index as int));
            assert(longer.last() == entry);
            assert(bytes@ =~= header + all_entry_bytes(longer));
        }
        index = index + 1;
    }
    assert(entries.take(entries.len() as int) =~= entries);
    finish_blob(&mut bytes);
    Ok(bytes)
}

/// Why a blob is refused. The two wrong magics are told by where they stand.
pub enum CheckpointFault {
    HeaderMagic,
    FooterMagic,
    Other(RestartCheckpointBaselineDecodeError),
}

impl CheckpointFault {
    /// Whether `error` reports this fault of `bytes`.
    pub open spec fn is_reported_by(
        self,
        error: RestartCheckpointBaselineDecodeError,
        bytes: Seq<u8>,
    ) -> bool {
        match self {
            CheckpointFault::HeaderMagic => {
                &&& error matches RestartCheckpointBaselineDecodeError::HeaderMagicMismatch {
                    actual,
                }
                &&& actual@ == bytes.subrange(0, 8)
            },
            CheckpointFault::FooterMagic => {
                &&& error matches RestartCheckpointBaselineDecodeError::FooterMagicMismatch {
                    actual,
                }
                &&& actual@ == bytes.subrange(bytes.len() - 16, bytes.len() - 8)
            },
            CheckpointFault::Other(expected) => error == expected,
        }
    }
}

/// The number of entries that a header announces.
pub open spec fn announced_count(bytes: Seq<u8>) -> nat {
    be_field(bytes, 48, 8)
}

/// Why the header of a blob, or its length, is refused.
pub open spec fn framing_fault(bytes: Seq<u8>) -> Option<CheckpointFault> {
    let version = be_field(bytes, 8, 2) as u16;
    let header_length = be_field(bytes, 10, 2) as u16;
    let entry_length = be_field(bytes, 12, 2) as u16;
    let footer_length = be_field(bytes, 14, 2) as u16;
    let count = announced_count(bytes);
    let expected = checkpoint_length(count);
    let declared = be_field(bytes, 56, 8) as u64;
    if bytes.len() < 64 {
        Some(
            CheckpointFault::Other(
                RestartCheckpointBaselineDecodeError::Truncated {
                    expected_length: 64,
                    actual_length: bytes.len() as usize,
                },
            ),
        )
    } else if bytes.subrange(0, 8) != checkpoint_header_magic() {
        Some(CheckpointFault::HeaderMagic)
    } else if version != 1 {
        Some(
            CheckpointFault::Other(
                RestartCheckpointBaselineDecodeError::UnsupportedVersion { actual: version },
            ),
        )
    } else if header_length != 64 {
        Some(
            CheckpointFault::Other(
                RestartCheckpointBaselineDecodeError::HeaderLengthMismatch {
                    actual: header_length,
                },
            ),
        )
    } else if entry_length != 64 {
        Some(
            CheckpointFault::Other(
                RestartCheckpointBaselineDecodeError::EntryLengthMismatch { actual: entry_length },
            ),
        )
    } else if footer_length != 16 {
        Some(
            CheckpointFault::Other(
                RestartCheckpointBaselineDecodeError::FooterLengthMismatch {
                    actual: footer_length,
                },
            ),
        )
    } else if count > usize::MAX {
        Some(
            CheckpointFault::Other(
                RestartCheckpointBaselineDecodeError::TransactionCountOutOfRange {
                    transaction_count: count as u64,
                },
            ),
        )
    } else if expected > u64::MAX {
        Some(
            CheckpointFault::Other(
                RestartCheckpointBaselineDecodeError::EncodedLengthOverflow {
                    transaction_count: count as u64,
                },
            ),
        )
    } else if declared != expected {
        Some(
            CheckpointFault::Other(
                RestartCheckpointBaselineDecodeError::DeclaredLengthMismatch {
                    declared,
                    expected: expected as u64,
                },
            ),
        )
    } else if expected > usize::MAX {
        Some(
            CheckpointFault::Other(
                RestartCheckpointBaselineDecodeError::TotalLengthOutOfRange {
                    total_length: expected as u64,
                },
            ),
        )
    } else if bytes.len() < expected {
        Some(
            CheckpointFault::Other(
                RestartCheckpointBaselineDecodeError::Truncated {
                    expected_length: expected as usize,
                    actual_length: bytes.len() as usize,
                },
            ),
        )
    } else if bytes.len() > expected {
        Some(
            CheckpointFault::Other(
                RestartCheckpointBaselineDecodeError::TrailingBytes {
                    expected_length: expected as usize,
                    actual_length: bytes.len() as usize,
                },
            ),
        )
    } else {
        None
    }
}

/// The first of the bytes `start..end` that is not zero.
pub open spec fn first_nonzero(bytes: Seq<u8>, start: int, end: int) -> Option<int>
    decreases end - start,
{
    if start >= end {
        None
    } else if bytes[start] != 0 {
        Some(start)
    } else {
        first_nonzero(bytes, start + 1, end)
    }
}

/// The number that a value and its presence spell.
pub open spec fn optional_field(presence: u8, value: nat) -> Option<u64> {
    if presence == 0 {
        None
    } else {
        Some(value as u64)
    }
}

/// Why a blob of the right length is refused, but for its entries.
pub open spec fn content_fault(bytes: Seq<u8>) -> Option<CheckpointFault> {
    let total = bytes.len() as int;
    let actual = be_field(bytes, total - 8, 8) as u64;
    let expected = checksum(bytes.subrange(0, total - 8));
    let reserved = first_nonzero(bytes, 41, 48);
    let frontier = be_field(bytes, 32, 8) as u64;
    if bytes.subrange(total - 16, total - 8) != checkpoint_footer_magic() {
        Some(CheckpointFault::FooterMagic)
    } else if actual != expected {
        Some(
            CheckpointFault::Other(
                RestartCheckpointBaselineDecodeError::ChecksumMismatch { expected, actual },
            ),
        )
    } else if reserved is Some {
        Some(
            CheckpointFault::Other(
                RestartCheckpointBaselineDecodeError::ReservedByteNonZero {
                    offset: reserved->0 as usize,
                    actual: bytes[reserved->0],
                },
            ),
        )
    } else if bytes[40] > 1 {
        Some(
            CheckpointFault::Other(
                RestartCheckpointBaselineDecodeError::FrontierPresenceInvalid { actual: bytes[40] },
            ),
        )
    } else if bytes[40] == 0 && frontier != 0 {
        Some(
            CheckpointFault::Other(
                RestartCheckpointBaselineDecodeError::AbsentFrontierValueNonZero {
                    actual: frontier,
                },
            ),
        )
    } else {
        None
    }
}

/// Why an optional position of an entry is refused.
pub open spec fn optional_position_error(
    index: nat,
    field: RestartCheckpointBaselineEntryOptionalField,
    presence: u8,
    value: u64,
) -> Option<RestartCheckpointBaselineDecodeError> {
    if presence > 1 {
        Some(
            RestartCheckpointBaselineDecodeError::EntryPositionPresenceInvalid {
                transaction_index: index as usize,
                field,
                actual: presence,
            },
        )
    } else if presence == 0 && value != 0 {
        Some(
            RestartCheckpointBaselineDecodeError::AbsentEntryPositionValueNonZero {
                transaction_index: index as usize,
                field,
                actual: value,
            },
        )
    } else {
        None
    }
}

/// What an optional position of an entry says.
pub open spec fn decoded_optional_position(
    index: nat,
    field: RestartCheckpointBaselineEntryOptionalField,
    presence: u8,
    value: u64,
) -> Result<Option<u64>, RestartCheckpointBaselineDecodeError> {
    match optional_position_error(index, field, presence, value) {
        Some(error) => Err(error),
        None => Ok(optional_field(presence, value as nat)),
    }
}

/// Where entry `index` begins.
pub open spec fn entry_offset(index: nat) -> int {
    64 + 64 * index as int
}

/// Why entry `index` is refused.
pub open spec fn entry_error(bytes: Seq<u8>, index: nat) -> Option<
    RestartCheckpointBaselineDecodeError,
> {
    let offset = entry_offset(index);
    let reserved = first_nonzero(bytes, offset + 51, offset + 64);
    let first = optional_position_error(
        index,
        RestartCheckpointBaselineEntryOptionalField::FirstOwnedPagePosition,
        bytes[offset + 49],
        be_field(bytes, offset + 16, 8) as u64,
    );
    let last = optional_position_error(
        index,
        RestartCheckpointBaselineEntryOptionalField::LastOwnedPagePosition,
        bytes[offset + 50],
        be_field(bytes, offset + 24, 8) as u64,
    );
    let state = bytes[offset + 48];
    let commit = be_field(bytes, offset + 40, 8) as u64;
    if reserved is Some {
        Some(
            RestartCheckpointBaselineDecodeError::ReservedByteNonZero {
                offset: reserved->0 as usize,
                actual: bytes[reserved->0],
            },
        )
    } else if first is Some {
        first
    } else if last is Some {
        last
    } else if state > 1 {
        Some(
            RestartCheckpointBaselineDecodeError::EntryStateInvalid {
                transaction_index: index as usize,
                actual: state,
            },
        )
    } else if state == 0 && commit != 0 {
        Some(
            RestartCheckpointBaselineDecodeError::UncommittedPositionValueNonZero {
                transaction_index: index as usize,
                actual: commit,
            },
        )
    } else {
        None
    }
}

/// Entry `index` of a blob that breaks no rule.
pub open spec fn entry_fields(
    bytes: Seq<u8>,
    index: nat,
) -> DurableTransactionRestartCheckpointBaselineEntryObservation {
    let offset = entry_offset(index);
    DurableTransactionRestartCheckpointBaselineEntryObservation {
        epoch: be_field(bytes, offset, 8) as u64,
        sequence: be_field(bytes, offset + 8, 8) as u64,
        first_owned_page_position: optional_field(
            bytes[offset + 49],
            be_field(bytes, offset + 16, 8),
        ),
        last_owned_page_position: optional_field(
            bytes[offset + 50],
            be_field(bytes, offset + 24, 8),
        ),
        owned_page_record_count: be_field(bytes, offset + 32, 8) as u64,
        state: if bytes[offset + 48] == 0 {
            DurableTransactionRestartCheckpointBaselineStateObservation::Uncommitted
        } else {
            DurableTransactionRestartCheckpointBaselineStateObservation::Committed {
                commit_position: be_field(bytes, offset + 40, 8) as u64,
            }
        },
    }
}

/// The first reason among the entries, from `from` on, why they are refused.
pub open spec fn first_entry_error(bytes: Seq<u8>, count: nat, from: nat) -> Option<
    RestartCheckpointBaselineDecodeError,
>
    decreases count - from,
{
    if from >= count {
        None
    } else {
        match entry_error(bytes, from) {
            Some(error) => Some(error),
            None => first_entry_error(bytes, count, from + 1),
        }
    }
}

/// What a blob says, or why it is refused. `has_room` says whether memory for the
/// entries can be had.
pub open spec fn decoded_checkpoint(bytes: Seq<u8>, has_room: bool) -> Result<
    CheckpointModel,
    CheckpointFault,
> {
    let count = announced_count(bytes);
    match (framing_fault(bytes), content_fault(bytes)) {
        (Some(fault), _) => Err(fault),
        (None, Some(fault)) => Err(fault),
        (None, None) => if !has_room {
            Err(
                CheckpointFault::Other(
                    RestartCheckpointBaselineDecodeError::CapacityExhausted {
                        transaction_count: count as usize,
                    },
                ),
            )
        } else {
            match first_entry_error(bytes, count, 0) {
                Some(error) => Err(CheckpointFault::Other(error)),
                None => Ok(
                    CheckpointModel {
                        persistent_log_id: be_field(bytes, 16, 16) as u128,
                        durable_frontier: optional_field(bytes[40], be_field(bytes, 32, 8)),
                        entries: Seq::new(count, |i: int| entry_fields(bytes, i as nat)),
                    },
                ),
            }
        },
    }
}

/// Whether `result` is what the decoding of `bytes` has to give.
pub open spec fn decodes(
    bytes: Seq<u8>,
    has_room: bool,
    result: Result<
        OwnedDurableTransactionRestartCheckpointBaselineObservation,
        RestartCheckpointBaselineDecodeError,
    >,
) -> bool {
    match decoded_checkpoint(bytes, has_room) {
        Ok(model) => result matches Ok(observation) && observation@ == model,
        Err(fault) => result matches Err(error) && fault.is_reported_by(error, bytes),
    }
}

fn copy_magic(bytes: &[u8], offset: usize) -> (magic: [u8; 8])
    requires
        offset + 8 <= bytes@.len(),
    ensures
        magic@ == bytes@.subrange(offset as int, offset + 8),
{
    let total: usize = bytes.len();
    let mut magic: [u8; 8] = [0u8; 8];
    let mut index: usize = 0;
    while index < 8
        invariant
            index <= 8,
            offset + 8 <= total == bytes@.len(),
            forall|i: int| 0 <= i < index ==> magic@[i] == bytes@[offset + i],
        decreases 8 - index,
    {
        magic[index] = bytes[offset + index];
        index = index + 1;
    }
    assert(magic@ =~= bytes@.subrange(offset as int, offset + 8));
    magic
}

fn find_nonzero(bytes: &[u8], start: usize, end: usize) -> (found: Option<usize>)
    requires
        start <= end <= bytes@.len(),
    ensures
        match first_nonzero(bytes@, start as int, end as int) {
            None => found is None,
            Some(offset) => found matches Some(found) && found == offset && start <= found < end,
        },
{
    let mut index: usize = start;
    while index < end
        invariant
            start <= index <= end <= bytes@.len(),
            first_nonzero(bytes@, start as int, end as int) == first_nonzero(
                bytes@,
                index as int,
                end as int,
            ),
        decreases end - index,
    {
        if bytes[index] != 0 {
            return Some(index);
        }
        index = index + 1;
    }
    None
}

fn decode_header_frontier(presence: u8, value: u64) -> (result: Result<
    Option<u64>,
    RestartCheckpointBaselineDecodeError,
>)
    ensures
        result == if presence > 1 {
            Err(RestartCheckpointBaselineDecodeError::FrontierPresenceInvalid { actual: presence })
        } else if presence == 0 && value != 0 {
            Err(RestartCheckpointBaselineDecodeError::AbsentFrontierValueNonZero { actual: value })
        } else {
            Ok(optional_field(presence, value as nat))
        },
{
    match presence {
        0 => {
            if value != 0 {
                Err(
                    RestartCheckpointBaselineDecodeError::AbsentFrontierValueNonZero {
                        actual: value,
                    },
                )
            } else {
                Ok(None)
            }
        },
        1 => Ok(Some(value)),
        actual => Err(RestartCheckpointBaselineDecodeError::FrontierPresenceInvalid { actual }),
    }
}

/// Decodes a position of an entry that may be missing.
pub fn decode_entry_optional_position(
    transaction_index: usize,
    field: RestartCheckpointBaselineEntryOptionalField,
    presence: u8,
    value: u64,
) -> (result: Result<Option<u64>, RestartCheckpointBaselineDecodeError>)
    ensures
        result == decoded_optional_position(transaction_index as nat, field, presence, value),
{
    match presence {
        0 => {
            if value != 0 {
                Err(
                    RestartCheckpointBaselineDecodeError::AbsentEntryPositionValueNonZero {
                        transaction_index,
                        field,
                        actual: value,
                    },
                )
            } else {
                Ok(None)
            }
        },
        1 => Ok(Some(value)),
        actual => Err(
            RestartCheckpointBaselineDecodeError::EntryPositionPresenceInvalid {
                transaction_index,
                field,
                actual,
            },
        ),
    }
}

/// Checks the header and the length of a blob, and gives the number of its entries.
fn check_framing(bytes: &[u8]) -> (result: Result<usize, RestartCheckpointBaselineDecodeError>)
    ensures
        match framing_fault(bytes@) {
            Some(fault) => result matches Err(error) && fault.is_reported_by(error, bytes@),
            None => {
                &&& result matches Ok(count)
                &&& count == announced_count(bytes@)
                &&& bytes@.len() == checkpoint_length(count as nat)
            },
        },
{
    let total: usize = bytes.len();
    if total < 64 {
        return Err(
            RestartCheckpointBaselineDecodeError::Truncated {
                expected_length: 64,
                actual_length: total,
            },
        );
    }
    let magic: [u8; 8] = [0x4eu8, 0x54u8, 0x53u8, 0x51u8, 0x43u8, 0x4bu8, 0x50u8, 0x31u8];
    assert(magic@ =~= checkpoint_header_magic());
    if !matches_at(bytes, 0, &magic) {
        let actual: [u8; 8] = copy_magic(bytes, 0);
        return Err(RestartCheckpointBaselineDecodeError::HeaderMagicMismatch { actual });
    }
    let version: u16 = read_u16(bytes, 8);
    if version != 1 {
        return Err(RestartCheckpointBaselineDecodeError::UnsupportedVersion { actual: version });
    }
    let header_length: u16 = read_u16(bytes, 10);
    if header_length != 64 {
        return Err(
            RestartCheckpointBaselineDecodeError::HeaderLengthMismatch { actual: header_length },
        );
    }
    let entry_length: u16 = read_u16(bytes, 12);
    if entry_length != 64 {
        return Err(
            RestartCheckpointBaselineDecodeError::EntryLengthMismatch { actual: entry_length },
        );
    }
    let footer_length: u16 = read_u16(bytes, 14);
    if footer_length != 16 {
        return Err(
            RestartCheckpointBaselineDecodeError::FooterLengthMismatch { actual: footer_length },
        );
    }
    let count: u64 = read_u64(bytes, 48);
    if count > usize::MAX as u64 {
        return Err(
            RestartCheckpointBaselineDecodeError::TransactionCountOutOfRange {
                transaction_count: count,
            },
        );
    }
    let expected: u64 = match count.checked_mul(64) {
        Some(entries) => match entries.checked_add(80) {
            Some(length) => length,
            None => {
                return Err(
                    RestartCheckpointBaselineDecodeError::EncodedLengthOverflow {
                        transaction_count: count,
                    },
                );
            },
        },
        None => {
            return Err(
                RestartCheckpointBaselineDecodeError::EncodedLengthOverflow {
                    transaction_count: count,
                },
            );
        },
    };
    let declared: u64 = read_u64(bytes, 56);
    if declared != expected {
        return Err(
            RestartCheckpointBaselineDecodeError::DeclaredLengthMismatch { declared, expected },
        );
    }
    if expected > usize::MAX as u64 {
        return Err(
            RestartCheckpointBaselineDecodeError::TotalLengthOutOfRange { total_length: expected },
        );
    }
    let expected_length: usize = expected as usize;
    if total < expected_length {
        return Err(
            RestartCheckpointBaselineDecodeError::Truncated {
                expected_length,
                actual_length: total,
            },
        );
    }
    if total > expected_length {
        return Err(
            RestartCheckpointBaselineDecodeError::TrailingBytes {
                expected_length,
                actual_length: total,
            },
        );
    }
    Ok(count as usize)
}

/// Checks the footer and the rest of the header, and gives the durable frontier.
fn check_content(bytes: &[u8]) -> (result: Result<
    Option<u64>,
    RestartCheckpointBaselineDecodeError,
>)
    requires
        bytes@.len() >= 80,
    ensures
        match content_fault(bytes@) {
            Some(fault) => result matches Err(error) && fault.is_reported_by(error, bytes@),
            None => result == Ok::<_, RestartCheckpointBaselineDecodeError>(
                optional_field(bytes@[40], be_field(bytes@, 32, 8)),
            ),
        },
{
    let total: usize = bytes.len();
    let magic: [u8; 8] = [0x4eu8, 0x54u8, 0x53u8, 0x51u8, 0x43u8, 0x4bu8, 0x45u8, 0x31u8];
    assert(magic@ =~= checkpoint_footer_magic());
    if !matches_at(bytes, total - 16, &magic) {
        let actual: [u8; 8] = copy_magic(bytes, total - 16);
        return Err(RestartCheckpointBaselineDecodeError::FooterMagicMismatch { actual });
    }
    let actual: u64 = read_u64(bytes, total - 8);
    let expected: u64 = checksum_v1(&bytes[0..total - 8]);
    if actual != expected {
        return Err(RestartCheckpointBaselineDecodeError::ChecksumMismatch { expected, actual });
    }
    if let Some(offset) = find_nonzero(bytes, 41, 48) {
        return Err(
            RestartCheckpointBaselineDecodeError::ReservedByteNonZero {
                offset,
                actual: bytes[offset],
            },
        );
    }
    decode_header_frontier(bytes[40], read_u64(bytes, 32))
}

fn decode_entry(bytes: &[u8], index: usize) -> (result: Result<
    DurableTransactionRestartCheckpointBaselineEntryObservation,
    RestartCheckpointBaselineDecodeError,
>)
    requires
        entry_offset(index as nat) + 64 <= bytes@.len(),
    ensures
        result == match entry_error(bytes@, index as nat) {
            Some(error) => Err(error),
            None => Ok(entry_fields(bytes@, index as nat)),
        },
{
    let total: usize = bytes.len();
    let offset: usize = 64 + 64 * index;
    if let Some(reserved) = find_nonzero(bytes, offset + 51, offset + 64) {
        return Err(
            RestartCheckpointBaselineDecodeError::ReservedByteNonZero {
                offset: reserved,
                actual: bytes[reserved],
            },
        );
    }
    let first_owned_page_position: Option<u64> = match decode_entry_optional_position(
        index,
        RestartCheckpointBaselineEntryOptionalField::FirstOwnedPagePosition,
        bytes[offset + 49],
        read_u64(bytes, offset + 16),
    ) {
        Ok(position) => position,
        Err(error) => {
            return Err(error);
        },
    };
    let last_owned_page_position: Option<u64> = match decode_entry_optional_position(
        index,
        RestartCheckpointBaselineEntryOptionalField::LastOwnedPagePosition,
        bytes[offset + 50],
        read_u64(bytes, offset + 24),
    ) {
        Ok(position) => position,
        Err(error) => {
            return Err(error);
        },
    };
    let commit_position: u64 = read_u64(bytes, offset + 40);
    let state: DurableTransactionRestartCheckpointBaselineStateObservation = match bytes[offset
        + 48] {
        0 => {
            if commit_position != 0 {
                return Err(
                    RestartCheckpointBaselineDecodeError::UncommittedPositionValueNonZero {
                        transaction_index: index,
                        actual: commit_position,
                    },
                );
            }
            DurableTransactionRestartCheckpointBaselineStateObservation::Uncommitted
        },
        1 => DurableTransactionRestartCheckpointBaselineStateObservation::Committed {
            commit_position,
        },
        actual => {
            return Err(
                RestartCheckpointBaselineDecodeError::EntryStateInvalid {
                    transaction_index: index,
                    actual,
                },
            );
        },
    };
    Ok(
        DurableTransactionRestartCheckpointBaselineEntryObservation {
            epoch: read_u64(bytes, offset),
            sequence: read_u64(bytes, offset + 8),
            first_owned_page_position,
            last_owned_page_position,
            owned_page_record_count: read_u64(bytes, offset + 32),
            state,
        },
    )
}

/// Checks everything of a blob but its entries, and gives the number of entries and the
/// durable frontier.
fn check_blob(bytes: &[u8]) -> (result: Result<
    (usize, Option<u64>),
    RestartCheckpointBaselineDecodeError,
>)
    ensures
        match (framing_fault(bytes@), content_fault(bytes@)) {
            (Some(fault), _) => result matches Err(error) && fault.is_reported_by(error, bytes@),
            (None, Some(fault)) => result matches Err(error) && fault.is_reported_by(error, bytes@),
            (None, None) => {
                &&& result matches Ok((count, frontier))
                &&& count == announced_count(bytes@)
                &&& bytes@.len() == checkpoint_length(count as nat)
                &&& frontier == optional_field(bytes@[40], be_field(bytes@, 32, 8))
            },
        },
{
    let count: usize = match check_framing(bytes) {
        Ok(count) => count,
        Err(error) => {
            return Err(error);
        },
    };
    match check_content(bytes) {
        Ok(frontier) => Ok((count, frontier)),
        Err(error) => Err(error),
    }
}

/// Decodes the entries of a blob into `room`, the list that is to hold them, where
/// memory for it can be had.
fn decode_entries(
    bytes: &[u8],
    count: usize,
    durable_frontier: Option<u64>,
    room: Option<Vec<DurableTransactionRestartCheckpointBaselineEntryObservation>>,
) -> (result: Result<
    OwnedDurableTransactionRestartCheckpointBaselineObservation,
    RestartCheckpointBaselineDecodeError,
>)
    requires
        framing_fault(bytes@) is None,
        content_fault(bytes@) is None,
        count == announced_count(bytes@),
        bytes@.len() == checkpoint_length(count as nat),
        durable_frontier == optional_field(bytes@[40], be_field(bytes@, 32, 8)),
        room matches Some(list) ==> list@ == Seq::<
            DurableTransactionRestartCheckpointBaselineEntryObservation,
        >::empty(),
    ensures
        decodes(bytes@, room is Some, result),
{
    let mut transactions: Vec<DurableTransactionRestartCheckpointBaselineEntryObservation> =
        match room {
        Some(list) => list,
        None => {
            return Err(
                RestartCheckpointBaselineDecodeError::CapacityExhausted {
                    transaction_count: count,
                },
            );
        },
    };
    let mut index: usize = 0;
    while index < count
        invariant
            index <= count == announced_count(bytes@),
            bytes@.len() == checkpoint_length(count as nat),
            framing_fault(bytes@) is None,
            content_fault(bytes@) is None,
            room is Some,
            transactions@.len() == index,
            forall|i: int|
                0 <= i < index ==> #[trigger] transactions@[i] == entry_fields(bytes@, i as nat),
            first_entry_error(bytes@, count as nat, 0) == first_entry_error(
                bytes@,
                count as nat,
                index as nat,
            ),
        decreases count - index,
    {
        match decode_entry(bytes, index) {
            Ok(entry) => {
                transactions.push(entry);
            },
            Err(error) => {
                return Err(error);
            },
        }
        index = index + 1;
    }
    let observation: OwnedDurableTransactionRestartCheckpointBaselineObservation =
        OwnedDurableTransactionRestartCheckpointBaselineObservation {
        persistent_log_id: read_u128(bytes, 16),
        durable_frontier,
        transactions,
    };
    assert(observation@.entries =~= decoded_checkpoint(bytes@, true)->Ok_0.entries);
    Ok(observation)
}

/// Decodes a blob. `has_room` says whether memory for the entries can be had.
pub fn decode_fields(bytes: &[u8], has_room: bool) -> (result: Result<
    OwnedDurableTransactionRestartCheckpointBaselineObservation,
    RestartCheckpointBaselineDecodeError,
>)
    ensures
        decodes(bytes@, has_room, result),
{
    match check_blob(bytes) {
        Ok((count, frontier)) => decode_entries(bytes, count, frontier, list_if(has_room)),
        Err(error) => Err(error),
    }
}

/// Decodes a blob into fields that are not trusted.
///
/// Whether memory for the entries can be had depends on the machine: instead of
/// them there may be [`RestartCheckpointBaselineDecodeError::CapacityExhausted`]. For
/// no entries there is always room.
pub fn decode_restart_checkpoint_baseline(bytes: &[u8]) -> (result: Result<
    OwnedDurableTransactionRestartCheckpointBaselineObservation,
    RestartCheckpointBaselineDecodeError,
>)
    ensures
        decodes(bytes@, true, result) || announced_count(bytes@) > 0 && decodes(
            bytes@,
            false,
            result,
        ),
{
    match check_blob(bytes) {
        Ok((count, frontier)) => decode_entries(bytes, count, frontier, reserved(count)),
        Err(error) => Err(error),
    }
}

} // verus!
