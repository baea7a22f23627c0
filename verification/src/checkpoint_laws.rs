//! Laws of the restart-checkpoint codec.
use vstd::prelude::*;

use crate::bytes::{
    be_bytes, be_field, checksum, lemma_be_bytes_len, lemma_be_bytes_of_value, lemma_be_bytes_zero,
    lemma_be_value_bound, lemma_be_value_of_bytes, lemma_pow256_values, lemma_sealed, zero_range,
    zeros,
};
use crate::checkpoint::{
    all_entry_bytes, announced_count, checkpoint_bytes, checkpoint_footer_magic, checkpoint_header,
    checkpoint_header_magic, checkpoint_length, commit_position_of, content_fault,
    decode_entry_optional_position, decode_fields, decode_restart_checkpoint_baseline,
    decoded_checkpoint, decoded_optional_position, encode_fields,
    encode_restart_checkpoint_baseline, entry_bytes, entry_error, entry_fields, entry_offset,
    first_entry_error, first_nonzero, framing_fault, stored_presence, stored_value, with_optional,
    write_optional_u64, CheckpointFault, CheckpointModel,
    DurableTransactionRestartCheckpointBaseline, DurableTransactionRestartCheckpointBaselineEntry,
    DurableTransactionRestartCheckpointBaselineEntryObservation,
    DurableTransactionRestartCheckpointBaselineState,
    DurableTransactionRestartCheckpointBaselineStateObservation,
    OwnedDurableTransactionRestartCheckpointBaselineObservation,
};
use crate::checkpoint_error::{
    RestartCheckpointBaselineDecodeError, RestartCheckpointBaselineEncodeError,
    RestartCheckpointBaselineEntryOptionalField,
};

verus! {

/// Whether a machine can hold the blob of `count` entries.
pub open spec fn holdable(count: nat) -> bool {
    checkpoint_length(count) <= usize::MAX
}

proof fn lemma_entry_len(entry: DurableTransactionRestartCheckpointBaselineEntryObservation)
    ensures
        entry_bytes(entry).len() == 64,
{
    lemma_be_bytes_len(entry.epoch as nat, 8);
    lemma_be_bytes_len(entry.sequence as nat, 8);
    lemma_be_bytes_len(stored_value(entry.first_owned_page_position) as nat, 8);
    lemma_be_bytes_len(stored_value(entry.last_owned_page_position) as nat, 8);
    lemma_be_bytes_len(entry.owned_page_record_count as nat, 8);
    lemma_be_bytes_len(stored_value(commit_position_of(entry.state)) as nat, 8);
}

proof fn lemma_all_entries_len(
    entries: Seq<DurableTransactionRestartCheckpointBaselineEntryObservation>,
)
    ensures
        all_entry_bytes(entries).len() == 64 * entries.len(),
    decreases entries.len(),
{
    if entries.len() > 0 {
        lemma_all_entries_len(entries.drop_last());
        lemma_entry_len(entries.last());
    }
}

/// Where the bytes of an entry stand.
proof fn lemma_entry_at(
    entries: Seq<DurableTransactionRestartCheckpointBaselineEntryObservation>,
    index: nat,
)
    requires
        index < entries.len(),
    ensures
        all_entry_bytes(entries).len() == 64 * entries.len(),
        all_entry_bytes(entries).subrange(64 * index as int, 64 * index as int + 64)
            == entry_bytes(entries[index as int]),
    decreases entries.len(),
{
    let shorter = entries.drop_last();
    lemma_all_entries_len(entries);
    lemma_all_entries_len(shorter);
    lemma_entry_len(entries.last());
    let whole = all_entry_bytes(entries);
    if index < shorter.len() {
        lemma_entry_at(shorter, index);
        assert(whole.subrange(64 * index as int, 64 * index as int + 64) =~= all_entry_bytes(
            shorter,
        ).subrange(64 * index as int, 64 * index as int + 64));
    } else {
        assert(whole.subrange(64 * index as int, 64 * index as int + 64) =~= entry_bytes(
            entries.last(),
        ));
    }
}

proof fn lemma_no_nonzero(bytes: Seq<u8>, start: int, end: int)
    requires
        forall|i: int| start <= i < end ==> bytes[i] == 0,
    ensures
        first_nonzero(bytes, start, end) is None,
    decreases end - start,
{
    if start < end {
        lemma_no_nonzero(bytes, start + 1, end);
    }
}

proof fn lemma_all_zero(bytes: Seq<u8>, start: int, end: int)
    requires
        first_nonzero(bytes, start, end) is None,
    ensures
        forall|i: int| start <= i < end ==> bytes[i] == 0,
    decreases end - start,
{
    if start < end {
        lemma_all_zero(bytes, start + 1, end);
    }
}

/// An entry is read as it was written, wherever it stands.
proof fn lemma_entry_round_trip(
    bytes: Seq<u8>,
    index: nat,
    entry: DurableTransactionRestartCheckpointBaselineEntryObservation,
)
    requires
        entry_offset(index) + 64 <= bytes.len(),
        bytes.subrange(entry_offset(index), entry_offset(index) + 64) == entry_bytes(entry),
    ensures
        entry_error(bytes, index) is None,
        entry_fields(bytes, index) == entry,
{
    let offset = entry_offset(index);
    let stored = entry_bytes(entry);
    let first = stored_value(entry.first_owned_page_position);
    let last = stored_value(entry.last_owned_page_position);
    let commit = stored_value(commit_position_of(entry.state));
    lemma_pow256_values();
    lemma_entry_len(entry);
    lemma_be_value_of_bytes(entry.epoch as nat, 8);
    lemma_be_value_of_bytes(entry.sequence as nat, 8);
    lemma_be_value_of_bytes(first as nat, 8);
    lemma_be_value_of_bytes(last as nat, 8);
    lemma_be_value_of_bytes(entry.owned_page_record_count as nat, 8);
    lemma_be_value_of_bytes(commit as nat, 8);
    assert forall|i: int| offset <= i < offset + 64 implies #[trigger] bytes[i] == stored[i
        - offset] by {
        assert(bytes.subrange(offset, offset + 64)[i - offset] == bytes[i]);
    }
    assert(bytes.subrange(offset, offset + 8) =~= be_bytes(entry.epoch as nat, 8));
    assert(bytes.subrange(offset + 8, offset + 8 + 8) =~= be_bytes(entry.sequence as nat, 8));
    assert(bytes.subrange(offset + 16, offset + 16 + 8) =~= be_bytes(first as nat, 8));
    assert(bytes.subrange(offset + 24, offset + 24 + 8) =~= be_bytes(last as nat, 8));
    assert(bytes.subrange(offset + 32, offset + 32 + 8) =~= be_bytes(
        entry.owned_page_record_count as nat,
        8,
    ));
    assert(bytes.subrange(offset + 40, offset + 40 + 8) =~= be_bytes(commit as nat, 8));
    assert(bytes[offset + 48] == stored_presence(commit_position_of(entry.state)));
    assert(bytes[offset + 49] == stored_presence(entry.first_owned_page_position));
    assert(bytes[offset + 50] == stored_presence(entry.last_owned_page_position));
    lemma_no_nonzero(bytes, offset + 51, offset + 64);
}

proof fn lemma_header_len(persistent_log_id: u128, frontier: Option<u64>, count: nat)
    ensures
        checkpoint_header(persistent_log_id, frontier, count).len() == 64,
{
    lemma_be_bytes_len(1, 2);
    lemma_be_bytes_len(64, 2);
    lemma_be_bytes_len(16, 2);
    lemma_be_bytes_len(persistent_log_id as nat, 16);
    lemma_be_bytes_len(stored_value(frontier) as nat, 8);
    lemma_be_bytes_len(count, 8);
    lemma_be_bytes_len(checkpoint_length(count), 8);
}

/// What a header says, wherever it is the start of `bytes`.
proof fn lemma_header_fields(
    bytes: Seq<u8>,
    persistent_log_id: u128,
    frontier: Option<u64>,
    count: nat,
)
    requires
        bytes.len() >= 64,
        bytes.take(64) == checkpoint_header(persistent_log_id, frontier, count),
        holdable(count),
    ensures
        bytes.subrange(0, 8) == checkpoint_header_magic(),
        be_field(bytes, 8, 2) == 1,
        be_field(bytes, 10, 2) == 64,
        be_field(bytes, 12, 2) == 64,
        be_field(bytes, 14, 2) == 16,
        be_field(bytes, 16, 16) == persistent_log_id,
        be_field(bytes, 32, 8) == stored_value(frontier),
        bytes[40] == stored_presence(frontier),
        first_nonzero(bytes, 41, 48) is None,
        announced_count(bytes) == count,
        be_field(bytes, 56, 8) == checkpoint_length(count),
{
    let header = checkpoint_header(persistent_log_id, frontier, count);
    lemma_pow256_values();
    lemma_header_len(persistent_log_id, frontier, count);
    lemma_be_value_of_bytes(1, 2);
    lemma_be_value_of_bytes(64, 2);
    lemma_be_value_of_bytes(16, 2);
    lemma_be_value_of_bytes(persistent_log_id as nat, 16);
    lemma_be_value_of_bytes(stored_value(frontier) as nat, 8);
    lemma_be_value_of_bytes(count, 8);
    lemma_be_value_of_bytes(checkpoint_length(count), 8);
    assert forall|i: int| 0 <= i < 64 implies #[trigger] bytes[i] == header[i] by {
        assert(bytes.take(64)[i] == header[i]);
    }
    assert(bytes.subrange(0, 8) =~= checkpoint_header_magic());
    assert(bytes.subrange(8, 10) =~= be_bytes(1, 2));
    assert(bytes.subrange(10, 12) =~= be_bytes(64, 2));
    assert(bytes.subrange(12, 14) =~= be_bytes(64, 2));
    assert(bytes.subrange(14, 16) =~= be_bytes(16, 2));
    assert(bytes.subrange(16, 32) =~= be_bytes(persistent_log_id as nat, 16));
    assert(bytes.subrange(32, 40) =~= be_bytes(stored_value(frontier) as nat, 8));
    assert(bytes[40] == stored_presence(frontier));
    lemma_no_nonzero(bytes, 41, 48);
    assert(bytes.subrange(48, 56) =~= be_bytes(count, 8));
    assert(bytes.subrange(56, 64) =~= be_bytes(checkpoint_length(count), 8));
}

/// The shape of a blob.
proof fn lemma_checkpoint_shape(model: CheckpointModel)
    ensures
        ({
            let bytes = checkpoint_bytes(model);
            let count = model.entries.len();
            let total = checkpoint_length(count) as int;
            &&& bytes.len() == total
            &&& bytes.take(64) == checkpoint_header(
                model.persistent_log_id,
                model.durable_frontier,
                count,
            )
            &&& bytes.subrange(64, 64 + 64 * count as int) == all_entry_bytes(model.entries)
            &&& bytes.subrange(total - 16, total - 8) == checkpoint_footer_magic()
            &&& be_field(bytes, total - 8, 8) == checksum(bytes.subrange(0, total - 8))
        }),
{
    let count = model.entries.len();
    let header = checkpoint_header(model.persistent_log_id, model.durable_frontier, count);
    let entries = all_entry_bytes(model.entries);
    let body = header + entries + checkpoint_footer_magic();
    let bytes = checkpoint_bytes(model);
    let total = checkpoint_length(count) as int;
    lemma_header_len(model.persistent_log_id, model.durable_frontier, count);
    lemma_all_entries_len(model.entries);
    lemma_sealed(body);
    assert forall|i: int| 0 <= i < body.len() implies #[trigger] bytes[i] == body[i] by {
        assert(bytes.take(body.len() as int)[i] == body[i]);
    }
    assert(bytes.take(64) =~= header);
    assert(bytes.subrange(64, 64 + 64 * count as int) =~= entries);
    assert(bytes.subrange(total - 16, total - 8) =~= checkpoint_footer_magic());
}

proof fn lemma_entries_accepted(bytes: Seq<u8>, count: nat, from: nat)
    requires
        forall|i: nat| from <= i < count ==> (#[trigger] entry_error(bytes, i)) is None,
    ensures
        first_entry_error(bytes, count, from) is None,
    decreases count - from,
{
    if from < count {
        lemma_entries_accepted(bytes, count, from + 1);
    }
}

/// Decoding gives back exactly what was encoded, whatever the fields hold: zeros
/// and contradictions survive.
pub proof fn law_checkpoint_round_trip(model: CheckpointModel)
    requires
        holdable(model.entries.len()),
    ensures
        decoded_checkpoint(checkpoint_bytes(model), true) == Ok::<
            CheckpointModel,
            CheckpointFault,
        >(model),
{
    let bytes = checkpoint_bytes(model);
    let count = model.entries.len();
    lemma_checkpoint_shape(model);
    lemma_header_fields(bytes, model.persistent_log_id, model.durable_frontier, count);
    assert forall|index: nat| index < count implies (#[trigger] entry_error(bytes, index)) is None
        && entry_fields(bytes, index) == model.entries[index as int] by {
        let i = index as int;
        let offset = entry_offset(index);
        let stored = all_entry_bytes(model.entries);
        lemma_entry_at(model.entries, index);
        assert(bytes.subrange(offset, offset + 64) =~= stored.subrange(64 * i, 64 * i + 64)) by {
            assert forall|k: int| 0 <= k < 64 implies #[trigger] bytes.subrange(
                offset,
                offset + 64,
            )[k] == stored.subrange(64 * i, 64 * i + 64)[k] by {
                assert(bytes.subrange(64, 64 + 64 * count as int)[64 * i + k] == stored[64 * i
                    + k]);
            }
        }
        lemma_entry_round_trip(bytes, index, model.entries[i]);
    }
    lemma_entries_accepted(bytes, count, 0);
    let decoded = decoded_checkpoint(bytes, true)->Ok_0;
    assert(framing_fault(bytes) is None);
    assert(content_fault(bytes) is None);
    assert(decoded.entries =~= model.entries) by {
        assert forall|i: int| 0 <= i < count implies decoded.entries[i] == model.entries[i] by {
            assert(entry_error(bytes, i as nat) is None);
        }
    }
}

/// Every proper prefix of a blob is refused as truncated.
pub proof fn law_every_short_prefix_is_truncated(model: CheckpointModel, length: nat)
    requires
        holdable(model.entries.len()),
        length < checkpoint_bytes(model).len(),
    ensures
        framing_fault(checkpoint_bytes(model).take(length as int)) == Some(
            CheckpointFault::Other(
                RestartCheckpointBaselineDecodeError::Truncated {
                    expected_length: if length < 64 {
                        64
                    } else {
                        checkpoint_bytes(model).len() as usize
                    },
                    actual_length: length as usize,
                },
            ),
        ),
{
    let bytes = checkpoint_bytes(model);
    let prefix = bytes.take(length as int);
    lemma_checkpoint_shape(model);
    if length >= 64 {
        assert(prefix.take(64) =~= bytes.take(64));
        lemma_header_fields(
            prefix,
            model.persistent_log_id,
            model.durable_frontier,
            model.entries.len(),
        );
    }
}

/// A blob with anything behind it is refused.
pub proof fn law_trailing_bytes_are_refused(model: CheckpointModel, more: Seq<u8>)
    requires
        holdable(model.entries.len()),
        0 < more.len(),
    ensures
        framing_fault(checkpoint_bytes(model) + more) == Some(
            CheckpointFault::Other(
                RestartCheckpointBaselineDecodeError::TrailingBytes {
                    expected_length: checkpoint_bytes(model).len() as usize,
                    actual_length: (checkpoint_bytes(model).len() + more.len()) as usize,
                },
            ),
        ),
{
    let bytes = checkpoint_bytes(model);
    let whole = bytes + more;
    lemma_checkpoint_shape(model);
    assert(whole.take(64) =~= bytes.take(64));
    lemma_header_fields(
        whole,
        model.persistent_log_id,
        model.durable_frontier,
        model.entries.len(),
    );
}

/// A field that fits is stored as it stands.
proof fn lemma_field_again(bytes: Seq<u8>, offset: int)
    requires
        0 <= offset,
        offset + 8 <= bytes.len(),
    ensures
        be_field(bytes, offset, 8) <= u64::MAX,
        be_bytes(be_field(bytes, offset, 8), 8) == bytes.subrange(offset, offset + 8),
{
    lemma_pow256_values();
    lemma_be_value_bound(bytes.subrange(offset, offset + 8));
    lemma_be_bytes_of_value(bytes.subrange(offset, offset + 8));
}

/// An accepted entry is what encoding its fields gives.
proof fn lemma_entry_canonical(bytes: Seq<u8>, index: nat)
    requires
        entry_offset(index) + 64 <= bytes.len(),
        entry_error(bytes, index) is None,
    ensures
        entry_bytes(entry_fields(bytes, index)) == bytes.subrange(
            entry_offset(index),
            entry_offset(index) + 64,
        ),
{
    let offset = entry_offset(index);
    let entry = entry_fields(bytes, index);
    let stored = entry_bytes(entry);
    lemma_field_again(bytes, offset);
    lemma_field_again(bytes, offset + 8);
    lemma_field_again(bytes, offset + 16);
    lemma_field_again(bytes, offset + 24);
    lemma_field_again(bytes, offset + 32);
    lemma_field_again(bytes, offset + 40);
    lemma_entry_len(entry);
    lemma_all_zero(bytes, offset + 51, offset + 64);
    let there = bytes.subrange(offset, offset + 64);
    assert(stored_value(entry.first_owned_page_position) == be_field(bytes, offset + 16, 8));
    assert(stored_value(entry.last_owned_page_position) == be_field(bytes, offset + 24, 8));
    assert(stored_value(commit_position_of(entry.state)) == be_field(bytes, offset + 40, 8));
    let flags = seq![
        stored_presence(commit_position_of(entry.state)),
        stored_presence(entry.first_owned_page_position),
        stored_presence(entry.last_owned_page_position),
    ];
    assert(flags =~= bytes.subrange(offset + 48, offset + 51));
    assert(zeros(13) =~= bytes.subrange(offset + 51, offset + 64));
    assert(stored =~= bytes.subrange(offset, offset + 8) + bytes.subrange(offset + 8, offset + 16)
        + bytes.subrange(offset + 16, offset + 24) + bytes.subrange(offset + 24, offset + 32)
        + bytes.subrange(offset + 32, offset + 40) + bytes.subrange(offset + 40, offset + 48)
        + bytes.subrange(offset + 48, offset + 51) + bytes.subrange(offset + 51, offset + 64));
    assert(stored =~= there);
}

proof fn lemma_entry_error_at(bytes: Seq<u8>, count: nat, from: nat, index: nat)
    requires
        first_entry_error(bytes, count, from) is None,
        from <= index < count,
    ensures
        entry_error(bytes, index) is None,
    decreases index - from,
{
    if from < index {
        lemma_entry_error_at(bytes, count, from + 1, index);
    }
}

/// Accepted entries are what encoding their fields gives.
proof fn lemma_entries_canonical(bytes: Seq<u8>, count: nat, upto: nat)
    requires
        first_entry_error(bytes, count, 0) is None,
        upto <= count,
        bytes.len() == checkpoint_length(count),
    ensures
        all_entry_bytes(Seq::new(upto, |i: int| entry_fields(bytes, i as nat)))
            == bytes.subrange(64, 64 + 64 * upto as int),
    decreases upto,
{
    let entries = Seq::new(upto, |i: int| entry_fields(bytes, i as nat));
    if upto == 0 {
        assert(bytes.subrange(64, 64) =~= Seq::<u8>::empty());
    } else {
        let before = (upto - 1) as nat;
        lemma_entries_canonical(bytes, count, before);
        lemma_entry_error_at(bytes, count, 0, before);
        lemma_entry_canonical(bytes, before);
        assert(entries.drop_last() =~= Seq::new(before, |i: int| entry_fields(bytes, i as nat)));
        assert(bytes.subrange(64, 64 + 64 * upto as int) =~= bytes.subrange(
            64,
            64 + 64 * before as int,
        ) + bytes.subrange(entry_offset(before), entry_offset(before) + 64));
    }
}

proof fn lemma_header_canonical(bytes: Seq<u8>)
    requires
        framing_fault(bytes) is None,
        content_fault(bytes) is None,
    ensures
        checkpoint_header(
            be_field(bytes, 16, 16) as u128,
            crate::checkpoint::optional_field(bytes[40], be_field(bytes, 32, 8)),
            announced_count(bytes),
        ) == bytes.take(64),
{
    let id = be_field(bytes, 16, 16) as u128;
    let frontier = crate::checkpoint::optional_field(bytes[40], be_field(bytes, 32, 8));
    lemma_pow256_values();
    lemma_be_value_bound(bytes.subrange(8, 10));
    lemma_be_value_bound(bytes.subrange(10, 12));
    lemma_be_value_bound(bytes.subrange(12, 14));
    lemma_be_value_bound(bytes.subrange(14, 16));
    lemma_be_value_bound(bytes.subrange(16, 32));
    lemma_be_bytes_of_value(bytes.subrange(8, 10));
    lemma_be_bytes_of_value(bytes.subrange(10, 12));
    lemma_be_bytes_of_value(bytes.subrange(12, 14));
    lemma_be_bytes_of_value(bytes.subrange(14, 16));
    lemma_be_bytes_of_value(bytes.subrange(16, 32));
    lemma_field_again(bytes, 32);
    lemma_field_again(bytes, 48);
    lemma_field_again(bytes, 56);
    lemma_all_zero(bytes, 41, 48);
    assert(be_bytes(1, 2) == bytes.subrange(8, 10));
    assert(be_bytes(64, 2) == bytes.subrange(10, 12));
    assert(be_bytes(64, 2) == bytes.subrange(12, 14));
    assert(be_bytes(16, 2) == bytes.subrange(14, 16));
    assert(be_bytes(id as nat, 16) == bytes.subrange(16, 32));
    assert(be_bytes(stored_value(frontier) as nat, 8) == bytes.subrange(32, 40));
    assert(seq![stored_presence(frontier)] =~= bytes.subrange(40, 41));
    assert(zeros(7) =~= bytes.subrange(41, 48));
    assert(checkpoint_header(id, frontier, announced_count(bytes)) =~= bytes.subrange(0, 8)
        + bytes.subrange(8, 10) + bytes.subrange(10, 12) + bytes.subrange(12, 14)
        + bytes.subrange(14, 16) + bytes.subrange(16, 32) + bytes.subrange(32, 40)
        + bytes.subrange(40, 41) + bytes.subrange(41, 48) + bytes.subrange(48, 56)
        + bytes.subrange(56, 64));
    assert(checkpoint_header(id, frontier, announced_count(bytes)) =~= bytes.take(64));
}

/// There is one blob for every checkpoint: a blob that is accepted is exactly what
/// encoding its content gives.
pub proof fn law_accepted_checkpoint_is_canonical(bytes: Seq<u8>, model: CheckpointModel)
    requires
        decoded_checkpoint(bytes, true) == Ok::<CheckpointModel, CheckpointFault>(model),
    ensures
        checkpoint_bytes(model) == bytes,
{
    let count = announced_count(bytes);
    let total = bytes.len() as int;
    lemma_field_again(bytes, 48);
    lemma_header_canonical(bytes);
    lemma_entries_canonical(bytes, count, count);
    lemma_field_again(bytes, total - 8);
    let body = checkpoint_header(model.persistent_log_id, model.durable_frontier, count)
        + all_entry_bytes(model.entries) + checkpoint_footer_magic();
    assert(body =~= bytes.subrange(0, total - 8)) by {
        assert(bytes.subrange(0, total - 8) =~= bytes.take(64) + bytes.subrange(64, total - 16)
            + bytes.subrange(total - 16, total - 8));
    }
    assert(checkpoint_bytes(model) =~= bytes.subrange(0, total - 8) + bytes.subrange(
        total - 8,
        total,
    ));
    assert(checkpoint_bytes(model) =~= bytes);
}

/// A position that may be missing is read back as it was written into zero bytes: in
/// particular, a missing position and the position zero stay apart.
pub proof fn law_optional_position_round_trip(
    bytes: Seq<u8>,
    value_offset: int,
    presence_offset: int,
    value: Option<u64>,
    index: nat,
    field: RestartCheckpointBaselineEntryOptionalField,
)
    requires
        0 <= value_offset,
        value_offset + 8 <= bytes.len(),
        0 <= presence_offset < bytes.len(),
        !(value_offset <= presence_offset < value_offset + 8),
        zero_range(bytes, value_offset, value_offset + 8),
    ensures
        ({
            let written = with_optional(bytes, value_offset, presence_offset, value);
            decoded_optional_position(
                index,
                field,
                written[presence_offset],
                be_field(written, value_offset, 8) as u64,
            ) == Ok::<_, RestartCheckpointBaselineDecodeError>(value)
        }),
{
    let written = with_optional(bytes, value_offset, presence_offset, value);
    let number = stored_value(value);
    lemma_pow256_values();
    lemma_be_value_of_bytes(number as nat, 8);
    lemma_be_bytes_zero(8);
    assert(written.subrange(value_offset, value_offset + 8) =~= be_bytes(number as nat, 8));
}

/// Whether the eight bytes at `offset` hold a number that may be missing, and the byte at
/// `presence` whether it is there.
pub open spec fn holds_option(
    bytes: Seq<u8>,
    offset: int,
    presence: int,
    value: Option<u64>,
) -> bool {
    match value {
        None => bytes[presence] == 0 && be_field(bytes, offset, 8) == 0,
        Some(number) => bytes[presence] == 1 && be_field(bytes, offset, 8) == number,
    }
}

/// Whether the 64 bytes at `offset` hold an entry.
pub open spec fn holds_entry(
    bytes: Seq<u8>,
    offset: int,
    entry: DurableTransactionRestartCheckpointBaselineEntryObservation,
) -> bool {
    &&& be_field(bytes, offset, 8) == entry.epoch
    &&& be_field(bytes, offset + 8, 8) == entry.sequence
    &&& holds_option(bytes, offset + 16, offset + 49, entry.first_owned_page_position)
    &&& holds_option(bytes, offset + 24, offset + 50, entry.last_owned_page_position)
    &&& be_field(bytes, offset + 32, 8) == entry.owned_page_record_count
    &&& holds_option(
        bytes,
        offset + 40,
        offset + 48,
        match entry.state {
            DurableTransactionRestartCheckpointBaselineStateObservation::Uncommitted => None,
            DurableTransactionRestartCheckpointBaselineStateObservation::Committed {
                commit_position,
            } => Some(commit_position),
        },
    )
    &&& forall|i: int| offset + 51 <= i < offset + 64 ==> #[trigger] bytes[i] == 0
}

/// Whether a blob is the one with this content: everything stands in its place, and there is
/// nothing else.
pub open spec fn is_blob(
    bytes: Seq<u8>,
    persistent_log_id: u128,
    durable_frontier: Option<u64>,
    entries: Seq<DurableTransactionRestartCheckpointBaselineEntryObservation>,
) -> bool {
    &&& bytes.len() == 64 + 64 * entries.len() + 16
    &&& bytes.subrange(0, 8) == seq![
        0x4eu8,
        0x54u8,
        0x53u8,
        0x51u8,
        0x43u8,
        0x4bu8,
        0x50u8,
        0x31u8,
    ]
    &&& be_field(bytes, 8, 2) == 1
    &&& be_field(bytes, 10, 2) == 64
    &&& be_field(bytes, 12, 2) == 64
    &&& be_field(bytes, 14, 2) == 16
    &&& be_field(bytes, 16, 16) == persistent_log_id
    &&& holds_option(bytes, 32, 40, durable_frontier)
    &&& forall|i: int| 41 <= i < 48 ==> #[trigger] bytes[i] == 0
    &&& be_field(bytes, 48, 8) == entries.len()
    &&& be_field(bytes, 56, 8) == bytes.len()
    &&& forall|i: int|
        0 <= i < entries.len() ==> holds_entry(bytes, 64 + 64 * i, #[trigger] entries[i])
    &&& bytes.subrange(bytes.len() - 16, bytes.len() - 8) == seq![
        0x4eu8,
        0x54u8,
        0x53u8,
        0x51u8,
        0x43u8,
        0x4bu8,
        0x45u8,
        0x31u8,
    ]
    &&& be_field(bytes, bytes.len() - 8, 8) == checksum(bytes.subrange(0, bytes.len() - 8))
}

proof fn lemma_accepted_is_blob(bytes: Seq<u8>, model: CheckpointModel)
    requires
        decoded_checkpoint(bytes, true) == Ok::<CheckpointModel, CheckpointFault>(model),
    ensures
        is_blob(bytes, model.persistent_log_id, model.durable_frontier, model.entries),
{
    let count = announced_count(bytes);
    let total = bytes.len() as int;
    lemma_pow256_values();
    lemma_be_value_bound(bytes.subrange(8, 10));
    lemma_be_value_bound(bytes.subrange(10, 12));
    lemma_be_value_bound(bytes.subrange(12, 14));
    lemma_be_value_bound(bytes.subrange(14, 16));
    lemma_be_value_bound(bytes.subrange(16, 32));
    lemma_field_again(bytes, 32);
    lemma_field_again(bytes, 48);
    lemma_field_again(bytes, 56);
    lemma_field_again(bytes, total - 8);
    lemma_all_zero(bytes, 41, 48);
    assert forall|i: int| 0 <= i < model.entries.len() implies holds_entry(
        bytes,
        64 + 64 * i,
        #[trigger] model.entries[i],
    ) by {
        let offset = entry_offset(i as nat);
        lemma_entry_error_at(bytes, count, 0, i as nat);
        assert(model.entries[i] == entry_fields(bytes, i as nat));
        lemma_field_again(bytes, offset);
        lemma_field_again(bytes, offset + 8);
        lemma_field_again(bytes, offset + 16);
        lemma_field_again(bytes, offset + 24);
        lemma_field_again(bytes, offset + 32);
        lemma_field_again(bytes, offset + 40);
        lemma_all_zero(bytes, offset + 51, offset + 64);
    }
}

/// The encoding of a checkpoint is the blob with its content, and is refused only where the
/// blob is too long for the machine or its memory cannot be had.
pub proof fn law_checkpoint_is_encoded(
    persistent_log_id: u128,
    durable_frontier: Option<u64>,
    entries: &[DurableTransactionRestartCheckpointBaselineEntryObservation],
    has_room: bool,
    result: Result<Vec<u8>, RestartCheckpointBaselineEncodeError>,
)
    requires
        call_ensures(
            encode_fields,
            (persistent_log_id, durable_frontier, entries, has_room),
            result,
        ),
    ensures
        result is Ok <==> has_room && 64 * entries@.len() + 80 <= usize::MAX,
        result matches Ok(blob) ==> is_blob(
            blob@,
            persistent_log_id,
            durable_frontier,
            entries@,
        ),
        result matches Err(error) ==> match error {
            RestartCheckpointBaselineEncodeError::EncodedLengthOverflow { transaction_count } => {
                &&& 64 * entries@.len() + 80 > usize::MAX
                &&& entries@.len() <= usize::MAX ==> transaction_count == entries@.len()
            },
            RestartCheckpointBaselineEncodeError::CapacityExhausted { encoded_length } => !has_room
                && encoded_length == 64 * entries@.len() + 80,
            _ => false,
        },
{
    let model = CheckpointModel { persistent_log_id, durable_frontier, entries: entries@ };
    if let Ok(blob) = result {
        law_checkpoint_round_trip(model);
        lemma_accepted_is_blob(blob@, model);
    }
}

/// What is decoded of an accepted blob is the content that it is the blob of.
pub proof fn law_checkpoint_is_decoded(
    bytes: &[u8],
    has_room: bool,
    result: Result<
        OwnedDurableTransactionRestartCheckpointBaselineObservation,
        RestartCheckpointBaselineDecodeError,
    >,
)
    requires
        call_ensures(decode_fields, (bytes, has_room), result),
    ensures
        result matches Ok(observation) ==> has_room && is_blob(
            bytes@,
            observation.persistent_log_id,
            observation.durable_frontier,
            observation.transactions@,
        ),
{
    if let Ok(observation) = result {
        lemma_accepted_is_blob(bytes@, observation@);
    }
}

/// A blob that is refused is refused for what stands in it: each error gives what was found,
/// and what was found is wrong.
pub proof fn law_checkpoint_refusals(
    bytes: &[u8],
    has_room: bool,
    error: RestartCheckpointBaselineDecodeError,
)
    requires
        bytes@.len() <= usize::MAX,
        call_ensures(
            decode_fields,
            (bytes, has_room),
            Err::<OwnedDurableTransactionRestartCheckpointBaselineObservation, _>(error),
        ),
    ensures
        match error {
            RestartCheckpointBaselineDecodeError::Truncated { expected_length, actual_length } => {
                &&& actual_length == bytes@.len() && actual_length < expected_length
                &&& expected_length == 64 || expected_length == 64 * be_field(bytes@, 48, 8) + 80
            },
            RestartCheckpointBaselineDecodeError::HeaderMagicMismatch { actual } => actual@
                == bytes@.subrange(0, 8) && actual@ != seq![
                0x4eu8,
                0x54u8,
                0x53u8,
                0x51u8,
                0x43u8,
                0x4bu8,
                0x50u8,
                0x31u8,
            ],
            RestartCheckpointBaselineDecodeError::UnsupportedVersion { actual } => actual
                == be_field(bytes@, 8, 2) && actual != 1,
            RestartCheckpointBaselineDecodeError::HeaderLengthMismatch { actual } => actual
                == be_field(bytes@, 10, 2) && actual != 64,
            RestartCheckpointBaselineDecodeError::EntryLengthMismatch { actual } => actual
                == be_field(bytes@, 12, 2) && actual != 64,
            RestartCheckpointBaselineDecodeError::FooterLengthMismatch { actual } => actual
                == be_field(bytes@, 14, 2) && actual != 16,
            RestartCheckpointBaselineDecodeError::TransactionCountOutOfRange {
                transaction_count,
            } => transaction_count == be_field(bytes@, 48, 8) && transaction_count > usize::MAX,
            RestartCheckpointBaselineDecodeError::EncodedLengthOverflow { transaction_count } =>
                transaction_count == be_field(bytes@, 48, 8) && 64 * transaction_count + 80
                    > u64::MAX,
            RestartCheckpointBaselineDecodeError::DeclaredLengthMismatch { declared, expected } => {
                &&& declared == be_field(bytes@, 56, 8)
                &&& expected == 64 * be_field(bytes@, 48, 8) + 80
                &&& declared != expected
            },
            RestartCheckpointBaselineDecodeError::TotalLengthOutOfRange { total_length } =>
                total_length == 64 * be_field(bytes@, 48, 8) + 80 && total_length > usize::MAX,
            RestartCheckpointBaselineDecodeError::TrailingBytes {
                expected_length,
                actual_length,
            } => {
                &&& actual_length == bytes@.len() && actual_length > expected_length
                &&& expected_length == 64 * be_field(bytes@, 48, 8) + 80
            },
            RestartCheckpointBaselineDecodeError::FooterMagicMismatch { actual } => actual@
                == bytes@.subrange(bytes@.len() - 16, bytes@.len() - 8) && actual@ != seq![
                0x4eu8,
                0x54u8,
                0x53u8,
                0x51u8,
                0x43u8,
                0x4bu8,
                0x45u8,
                0x31u8,
            ],
            RestartCheckpointBaselineDecodeError::ChecksumMismatch { expected, actual } => {
                &&& actual == be_field(bytes@, bytes@.len() - 8, 8) && expected != actual
                &&& expected == checksum(bytes@.subrange(0, bytes@.len() - 8))
            },
            RestartCheckpointBaselineDecodeError::FrontierPresenceInvalid { actual } => actual
                == bytes@[40] && actual > 1,
            RestartCheckpointBaselineDecodeError::AbsentFrontierValueNonZero { actual } => actual
                == be_field(bytes@, 32, 8) && actual != 0 && bytes@[40] == 0,
            RestartCheckpointBaselineDecodeError::ReservedByteNonZero { offset, actual } => {
                &&& offset < bytes@.len() && actual == bytes@[offset as int] && actual != 0
                &&& 41 <= offset < 48 || 64 <= offset && offset % 64 >= 51
            },
            RestartCheckpointBaselineDecodeError::EntryStateInvalid {
                transaction_index,
                actual,
            } => actual == bytes@[64 + 64 * transaction_index + 48] && actual > 1,
            RestartCheckpointBaselineDecodeError::EntryPositionPresenceInvalid {
                transaction_index,
                field,
                actual,
            } => actual > 1 && actual == match field {
                RestartCheckpointBaselineEntryOptionalField::FirstOwnedPagePosition => bytes@[64
                    + 64 * transaction_index + 49],
                RestartCheckpointBaselineEntryOptionalField::LastOwnedPagePosition => bytes@[64
                    + 64 * transaction_index + 50],
            },
            RestartCheckpointBaselineDecodeError::AbsentEntryPositionValueNonZero {
                transaction_index,
                field,
                actual,
            } => actual != 0 && match field {
                RestartCheckpointBaselineEntryOptionalField::FirstOwnedPagePosition => actual
                    == be_field(bytes@, 64 + 64 * transaction_index + 16, 8) && bytes@[64 + 64
                    * transaction_index + 49] == 0,
                RestartCheckpointBaselineEntryOptionalField::LastOwnedPagePosition => actual
                    == be_field(bytes@, 64 + 64 * transaction_index + 24, 8) && bytes@[64 + 64
                    * transaction_index + 50] == 0,
            },
            RestartCheckpointBaselineDecodeError::UncommittedPositionValueNonZero {
                transaction_index,
                actual,
            } => actual == be_field(bytes@, 64 + 64 * transaction_index + 40, 8) && actual != 0
                && bytes@[64 + 64 * transaction_index + 48] == 0,
            RestartCheckpointBaselineDecodeError::CapacityExhausted { transaction_count } =>
                !has_room && transaction_count == be_field(bytes@, 48, 8),
        },
{
    let count = announced_count(bytes@);
    lemma_pow256_values();
    if bytes@.len() >= 64 {
        lemma_be_value_bound(bytes@.subrange(8, 10));
        lemma_be_value_bound(bytes@.subrange(10, 12));
        lemma_be_value_bound(bytes@.subrange(12, 14));
        lemma_be_value_bound(bytes@.subrange(14, 16));
        lemma_field_again(bytes@, 32);
        lemma_field_again(bytes@, 48);
        lemma_field_again(bytes@, 56);
    }
    if framing_fault(bytes@) is None {
        lemma_field_again(bytes@, bytes@.len() - 8);
        lemma_first_nonzero_found(bytes@, 41, 48);
        let place = lemma_first_entry_error_found(bytes@, count, 0);
        if 0 <= place < count {
            let offset = entry_offset(place as nat);
            lemma_field_again(bytes@, offset + 16);
            lemma_field_again(bytes@, offset + 24);
            lemma_field_again(bytes@, offset + 40);
            lemma_first_nonzero_found(bytes@, offset + 51, offset + 64);
        }
    }
}

proof fn lemma_first_nonzero_found(bytes: Seq<u8>, start: int, end: int)
    ensures
        first_nonzero(bytes, start, end) matches Some(place) ==> start <= place < end
            && bytes[place] != 0,
    decreases end - start,
{
    if start < end && bytes[start] == 0 {
        lemma_first_nonzero_found(bytes, start + 1, end);
    }
}

proof fn lemma_first_entry_error_found(bytes: Seq<u8>, count: nat, from: nat) -> (place: int)
    ensures
        first_entry_error(bytes, count, from) matches Some(error) ==> from <= place < count
            && entry_error(bytes, place as nat) == Some(error),
    decreases count - from,
{
    if from < count && entry_error(bytes, from) is None {
        lemma_first_entry_error_found(bytes, count, from + 1)
    } else {
        from as int
    }
}

/// The entry of a transaction holds its identity, its pages and its state.
pub proof fn law_entry_of_a_transaction(
    entry: DurableTransactionRestartCheckpointBaselineEntry,
    observation: DurableTransactionRestartCheckpointBaselineEntryObservation,
)
    requires
        call_ensures(
            DurableTransactionRestartCheckpointBaselineEntryObservation::from_baseline,
            (&entry,),
            observation,
        ),
    ensures
        observation.epoch == entry.transaction.spec_epoch(),
        observation.sequence == entry.transaction.spec_sequence(),
        observation.first_owned_page_position == entry.first_owned_page_position,
        observation.last_owned_page_position == entry.last_owned_page_position,
        observation.owned_page_record_count == entry.owned_page_record_count,
        match entry.state {
            DurableTransactionRestartCheckpointBaselineState::Uncommitted => observation.state
                is Uncommitted,
            DurableTransactionRestartCheckpointBaselineState::Committed { commit_position } => (
            observation.state matches DurableTransactionRestartCheckpointBaselineStateObservation::Committed {
                commit_position: stored,
            } && stored == commit_position),
        },
{
}

/// An encoded baseline decodes to the entries of its transactions, under its log's identity
/// and with its frontier; only want of memory, or a blob too long for the machine, is in the
/// way.
pub proof fn law_baseline_survives_the_blob(
    baseline: DurableTransactionRestartCheckpointBaseline,
    blob: Result<Vec<u8>, RestartCheckpointBaselineEncodeError>,
    bytes: &[u8],
    result: Result<
        OwnedDurableTransactionRestartCheckpointBaselineObservation,
        RestartCheckpointBaselineDecodeError,
    >,
)
    requires
        call_ensures(encode_restart_checkpoint_baseline, (&baseline,), blob),
        blob matches Ok(blob) ==> bytes@ == blob@,
        call_ensures(decode_restart_checkpoint_baseline, (bytes,), result),
    ensures
        blob is Err ==> (blob matches Err(
            RestartCheckpointBaselineEncodeError::CapacityExhausted { .. },
        )) || (blob matches Err(
            RestartCheckpointBaselineEncodeError::EncodedLengthOverflow { .. },
        )),
        blob is Ok ==> match result {
            Ok(observation) => {
                &&& observation.persistent_log_id == baseline.persistent_log_id@
                &&& observation.durable_frontier == baseline.durable_frontier
                &&& observation.transactions@.len() == baseline.transactions@.len()
                &&& forall|i: int|
                    0 <= i < observation.transactions@.len() ==> (
                    #[trigger] observation.transactions@[i]).epoch
                        == baseline.transactions@[i].transaction.spec_epoch()
                        && observation.transactions@[i].sequence
                        == baseline.transactions@[i].transaction.spec_sequence()
                        && observation.transactions@[i].first_owned_page_position
                        == baseline.transactions@[i].first_owned_page_position
                        && observation.transactions@[i].last_owned_page_position
                        == baseline.transactions@[i].last_owned_page_position
                        && observation.transactions@[i].owned_page_record_count
                        == baseline.transactions@[i].owned_page_record_count
            },
            Err(RestartCheckpointBaselineDecodeError::CapacityExhausted { transaction_count }) =>
                transaction_count == baseline.transactions@.len() && transaction_count > 0,
            Err(_) => false,
        },
{
    if let Ok(blob) = blob {
        law_checkpoint_round_trip(baseline@);
        lemma_checkpoint_shape(baseline@);
        lemma_header_fields(
            blob@,
            baseline@.persistent_log_id,
            baseline@.durable_frontier,
            baseline@.entries.len(),
        );
        if let Ok(observation) = result {
            assert forall|i: int| 0 <= i < observation.transactions@.len() implies (
            #[trigger] observation.transactions@[i]) == baseline.transactions@[i].observed() by {
                assert(baseline@.entries[i] == baseline.transactions@[i].observed());
            }
        }
    }
}


/// A position that may be missing is decoded exactly where its presence is told by one or
/// zero, and a missing one is stored as zero. It is then what was stored.
pub proof fn law_optional_position_is_decoded(
    index: usize,
    field: RestartCheckpointBaselineEntryOptionalField,
    presence: u8,
    value: u64,
    result: Result<Option<u64>, RestartCheckpointBaselineDecodeError>,
)
    requires
        call_ensures(decode_entry_optional_position, (index, field, presence, value), result),
    ensures
        presence == 1 ==> result == Ok::<_, RestartCheckpointBaselineDecodeError>(Some(value)),
        presence == 0 && value == 0 ==> result == Ok::<_, RestartCheckpointBaselineDecodeError>(
            None::<u64>,
        ),
        presence == 0 && value != 0 ==> result == Err::<Option<u64>, _>(
            RestartCheckpointBaselineDecodeError::AbsentEntryPositionValueNonZero {
                transaction_index: index,
                field,
                actual: value,
            },
        ),
        presence > 1 ==> result == Err::<Option<u64>, _>(
            RestartCheckpointBaselineDecodeError::EntryPositionPresenceInvalid {
                transaction_index: index,
                field,
                actual: presence,
            },
        ),
{
}

/// A position that may be missing is written where it belongs: a missing one leaves the
/// number as it was and clears the presence, and no other byte changes.
pub proof fn law_optional_position_is_written(
    bytes: &mut Vec<u8>,
    value_offset: usize,
    presence_offset: usize,
    value: Option<u64>,
)
    requires
        value_offset + 8 <= old(bytes)@.len(),
        presence_offset < old(bytes)@.len(),
        !(value_offset <= presence_offset < value_offset + 8),
        call_ensures(
            write_optional_u64,
            (bytes, value_offset, presence_offset, value),
            (),
        ),
    ensures
        final(bytes)@.len() == old(bytes)@.len(),
        final(bytes)@[presence_offset as int] == (if value is Some {
            1u8
        } else {
            0u8
        }),
        value matches Some(number) ==> be_field(final(bytes)@, value_offset as int, 8) == number,
        forall|i: int|
            0 <= i < old(bytes)@.len() && i != presence_offset && (value is None || !(value_offset
                <= i < value_offset + 8)) ==> #[trigger] final(bytes)@[i] == old(bytes)@[i],
{
    if let Some(number) = value {
        lemma_pow256_values();
        lemma_be_value_of_bytes(number as nat, 8);
        assert(final(bytes)@.subrange(value_offset as int, value_offset + 8) =~= be_bytes(
            number as nat,
            8,
        ));
    }
}


/// Whether the fields of a blob's header that are looked at first are right, as many as
/// `count` tells.
pub open spec fn header_is_sound(bytes: Seq<u8>, count: int) -> bool {
    let magic = seq![0x4eu8, 0x54u8, 0x53u8, 0x51u8, 0x43u8, 0x4bu8, 0x50u8, 0x31u8];
    let length = 64 * be_field(bytes, 48, 8) + 80;
    &&& bytes.len() >= 64
    &&& count > 0 ==> bytes.subrange(0, 8) == magic
    &&& count > 1 ==> be_field(bytes, 8, 2) == 1
    &&& count > 2 ==> be_field(bytes, 10, 2) == 64
    &&& count > 3 ==> be_field(bytes, 12, 2) == 64
    &&& count > 4 ==> be_field(bytes, 14, 2) == 16
    &&& count > 5 ==> be_field(bytes, 48, 8) <= usize::MAX
    &&& count > 6 ==> length <= u64::MAX
    &&& count > 7 ==> be_field(bytes, 56, 8) == length
    &&& count > 8 ==> length <= usize::MAX
    &&& count > 9 ==> bytes.len() >= length
    &&& count > 10 ==> bytes.len() <= length
}

/// Whether a blob of the right length is right in what is looked at before its entries, as far
/// as `count` tells.
pub open spec fn frame_is_sound(bytes: Seq<u8>, count: int) -> bool {
    let magic = seq![0x4eu8, 0x54u8, 0x53u8, 0x51u8, 0x43u8, 0x4bu8, 0x45u8, 0x31u8];
    &&& header_is_sound(bytes, 11)
    &&& count > 0 ==> bytes.subrange(bytes.len() - 16, bytes.len() - 8) == magic
    &&& count > 1 ==> be_field(bytes, bytes.len() - 8, 8) == checksum(
        bytes.subrange(0, bytes.len() - 8),
    )
    &&& count > 2 ==> forall|i: int| 41 <= i < 48 ==> #[trigger] bytes[i] == 0
    &&& count > 3 ==> bytes[40] <= 1
    &&& count > 4 ==> bytes[40] == 1 || be_field(bytes, 32, 8) == 0
}

/// Whether a position that may be missing is stored as one.
pub open spec fn position_is_sound(bytes: Seq<u8>, presence: int, value: int) -> bool {
    bytes[presence] == 1 || bytes[presence] == 0 && be_field(bytes, value, 8) == 0
}

/// Whether the entry at a place of a blob is right in what is looked at first, as far as
/// `count` tells.
pub open spec fn entry_is_sound(bytes: Seq<u8>, index: int, count: int) -> bool {
    let offset = 64 + 64 * index;
    &&& count > 0 ==> forall|i: int| offset + 51 <= i < offset + 64 ==> #[trigger] bytes[i] == 0
    &&& count > 1 ==> position_is_sound(bytes, offset + 49, offset + 16)
    &&& count > 2 ==> position_is_sound(bytes, offset + 50, offset + 24)
    &&& count > 3 ==> bytes[offset + 48] <= 1
    &&& count > 4 ==> bytes[offset + 48] == 1 || be_field(bytes, offset + 40, 8) == 0
}

/// Whether the entry at a place is the first that is wrong, and is right as far as `count`
/// tells.
pub open spec fn is_first_wrong_entry(bytes: Seq<u8>, index: int, count: int) -> bool {
    &&& frame_is_sound(bytes, 5)
    &&& 0 <= index < be_field(bytes, 48, 8)
    &&& forall|i: int| 0 <= i < index ==> #[trigger] entry_is_sound(bytes, i, 5)
    &&& entry_is_sound(bytes, index, count)
}

proof fn lemma_entry_soundness(bytes: Seq<u8>, index: nat)
    requires
        64 + 64 * index + 64 <= bytes.len() <= usize::MAX,
    ensures
        entry_error(bytes, index) is None <==> entry_is_sound(bytes, index as int, 5),
        entry_error(bytes, index) matches Some(error) ==> match error {
            RestartCheckpointBaselineDecodeError::ReservedByteNonZero { offset, .. } => {
                &&& 64 + 64 * index + 51 <= offset < 64 + 64 * index + 64
                &&& forall|i: int|
                    64 + 64 * index + 51 <= i < offset ==> #[trigger] bytes[i] == 0
            },
            RestartCheckpointBaselineDecodeError::EntryPositionPresenceInvalid {
                transaction_index,
                field,
                ..
            } => transaction_index == index && entry_is_sound(
                bytes,
                index as int,
                if field is FirstOwnedPagePosition {
                    1
                } else {
                    2
                },
            ),
            RestartCheckpointBaselineDecodeError::AbsentEntryPositionValueNonZero {
                transaction_index,
                field,
                ..
            } => transaction_index == index && entry_is_sound(
                bytes,
                index as int,
                if field is FirstOwnedPagePosition {
                    1
                } else {
                    2
                },
            ),
            RestartCheckpointBaselineDecodeError::EntryStateInvalid { transaction_index, .. } =>
                transaction_index == index && entry_is_sound(bytes, index as int, 3),
            RestartCheckpointBaselineDecodeError::UncommittedPositionValueNonZero {
                transaction_index,
                ..
            } => transaction_index == index && entry_is_sound(bytes, index as int, 4),
            _ => false,
        },
{
    let offset = entry_offset(index);
    assert(offset == 64 + 64 * index);
    lemma_first_nonzero_is_first(bytes, offset + 51, offset + 64);
    lemma_field_again(bytes, offset + 16);
    lemma_field_again(bytes, offset + 24);
    lemma_field_again(bytes, offset + 40);
}

proof fn lemma_first_nonzero_is_first(bytes: Seq<u8>, start: int, end: int)
    ensures
        match first_nonzero(bytes, start, end) {
            Some(place) => start <= place < end && bytes[place] != 0 && forall|i: int|
                start <= i < place ==> #[trigger] bytes[i] == 0,
            None => forall|i: int| start <= i < end ==> #[trigger] bytes[i] == 0,
        },
    decreases end - start,
{
    if start < end && bytes[start] == 0 {
        lemma_first_nonzero_is_first(bytes, start + 1, end);
    }
}

proof fn lemma_first_entry_error_is_first(bytes: Seq<u8>, count: nat, from: nat) -> (place: int)
    ensures
        match first_entry_error(bytes, count, from) {
            Some(error) => from <= place < count && entry_error(bytes, place as nat) == Some(error)
                && forall|i: int|
                from <= i < place ==> #[trigger] entry_error(bytes, i as nat) is None,
            None => true,
        },
    decreases count - from,
{
    if from < count && entry_error(bytes, from) is None {
        lemma_first_entry_error_is_first(bytes, count, from + 1)
    } else {
        from as int
    }
}

/// A blob is refused for the first thing that is wrong with it: the fields of its header in
/// their order, then its length, its footer, its checksum, what stands before the entries, and
/// then the entries in their order. Memory is asked for before the entries are looked at.
pub proof fn law_first_checkpoint_fault(
    bytes: &[u8],
    has_room: bool,
    error: RestartCheckpointBaselineDecodeError,
)
    requires
        bytes@.len() <= usize::MAX,
        call_ensures(
            decode_fields,
            (bytes, has_room),
            Err::<OwnedDurableTransactionRestartCheckpointBaselineObservation, _>(error),
        ),
    ensures
        match error {
            RestartCheckpointBaselineDecodeError::Truncated { expected_length, .. } => {
                &&& bytes@.len() < 64 ==> expected_length == 64
                &&& bytes@.len() >= 64 ==> header_is_sound(bytes@, 9)
            },
            RestartCheckpointBaselineDecodeError::HeaderMagicMismatch { .. } => header_is_sound(
                bytes@,
                0,
            ),
            RestartCheckpointBaselineDecodeError::UnsupportedVersion { .. } => header_is_sound(
                bytes@,
                1,
            ),
            RestartCheckpointBaselineDecodeError::HeaderLengthMismatch { .. } => header_is_sound(
                bytes@,
                2,
            ),
            RestartCheckpointBaselineDecodeError::EntryLengthMismatch { .. } => header_is_sound(
                bytes@,
                3,
            ),
            RestartCheckpointBaselineDecodeError::FooterLengthMismatch { .. } => header_is_sound(
                bytes@,
                4,
            ),
            RestartCheckpointBaselineDecodeError::TransactionCountOutOfRange { .. } =>
                header_is_sound(bytes@, 5),
            RestartCheckpointBaselineDecodeError::EncodedLengthOverflow { .. } => header_is_sound(
                bytes@,
                6,
            ),
            RestartCheckpointBaselineDecodeError::DeclaredLengthMismatch { .. } => header_is_sound(
                bytes@,
                7,
            ),
            RestartCheckpointBaselineDecodeError::TotalLengthOutOfRange { .. } => header_is_sound(
                bytes@,
                8,
            ),
            RestartCheckpointBaselineDecodeError::TrailingBytes { .. } => header_is_sound(
                bytes@,
                10,
            ),
            RestartCheckpointBaselineDecodeError::FooterMagicMismatch { .. } => frame_is_sound(
                bytes@,
                0,
            ),
            RestartCheckpointBaselineDecodeError::ChecksumMismatch { .. } => frame_is_sound(
                bytes@,
                1,
            ),
            RestartCheckpointBaselineDecodeError::FrontierPresenceInvalid { .. } => frame_is_sound(
                bytes@,
                3,
            ),
            RestartCheckpointBaselineDecodeError::AbsentFrontierValueNonZero { .. } =>
                frame_is_sound(bytes@, 4),
            RestartCheckpointBaselineDecodeError::CapacityExhausted { .. } => frame_is_sound(
                bytes@,
                5,
            ) && !has_room,
            RestartCheckpointBaselineDecodeError::ReservedByteNonZero { offset, .. } => if offset
                < 64 {
                &&& frame_is_sound(bytes@, 2)
                &&& forall|i: int| 41 <= i < offset ==> #[trigger] bytes@[i] == 0
            } else {
                let index = offset as int / 64 - 1;
                &&& has_room && is_first_wrong_entry(bytes@, index, 0)
                &&& forall|i: int|
                    64 + 64 * index + 51 <= i < offset ==> #[trigger] bytes@[i] == 0
            },
            RestartCheckpointBaselineDecodeError::EntryPositionPresenceInvalid {
                transaction_index,
                field,
                ..
            } => has_room && is_first_wrong_entry(
                bytes@,
                transaction_index as int,
                if field is FirstOwnedPagePosition {
                    1
                } else {
                    2
                },
            ),
            RestartCheckpointBaselineDecodeError::AbsentEntryPositionValueNonZero {
                transaction_index,
                field,
                ..
            } => has_room && is_first_wrong_entry(
                bytes@,
                transaction_index as int,
                if field is FirstOwnedPagePosition {
                    1
                } else {
                    2
                },
            ),
            RestartCheckpointBaselineDecodeError::EntryStateInvalid { transaction_index, .. } =>
                has_room && is_first_wrong_entry(bytes@, transaction_index as int, 3),
            RestartCheckpointBaselineDecodeError::UncommittedPositionValueNonZero {
                transaction_index,
                ..
            } => has_room && is_first_wrong_entry(bytes@, transaction_index as int, 4),
        },
{
    let count = announced_count(bytes@);
    lemma_pow256_values();
    if bytes@.len() >= 64 {
        lemma_be_value_bound(bytes@.subrange(8, 10));
        lemma_be_value_bound(bytes@.subrange(10, 12));
        lemma_be_value_bound(bytes@.subrange(12, 14));
        lemma_be_value_bound(bytes@.subrange(14, 16));
        lemma_field_again(bytes@, 32);
        lemma_field_again(bytes@, 48);
        lemma_field_again(bytes@, 56);
    }
    if framing_fault(bytes@) is None {
        lemma_field_again(bytes@, bytes@.len() - 8);
        lemma_first_nonzero_is_first(bytes@, 41, 48);
        if content_fault(bytes@) is None && has_room {
            let place = lemma_first_entry_error_is_first(bytes@, count, 0);
            if 0 <= place < count {
                lemma_entry_soundness(bytes@, place as nat);
                assert forall|i: int| 0 <= i < place implies #[trigger] entry_is_sound(
                    bytes@,
                    i,
                    5,
                ) by {
                    assert(entry_error(bytes@, i as nat) is None);
                    lemma_entry_soundness(bytes@, i as nat);
                }
            }
        }
    }
}


} // verus!
