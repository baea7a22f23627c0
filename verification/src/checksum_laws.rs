//! What the checksum detects.
use vstd::arithmetic::div_mod::lemma_fundamental_div_mod;
use vstd::prelude::*;

use crate::bytes::{
    be_field, checksum, checksum_round, checksum_state, lemma_be_bytes_of_value,
    lemma_be_value_bound, lemma_pow256_values, lemma_sealed, pow256, sealed, CHECKSUM_MULTIPLIER,
    CHECKSUM_XOR,
};
use crate::checkpoint::decoded_checkpoint;
use crate::format::LogFormat;
use crate::log_error::FileFormatError;
use crate::log_frame::decoded_frame;
use crate::log_header::HeaderExpectation;
use crate::log_model::{read_header, HeaderModel};
use crate::page_store_error::PageStoreFormatError;
use crate::page_store_frame::decoded_store_frame;
use crate::page_store_scan::{read_store_header, StoreHeaderModel};

verus! {

/// Multiplying by a number that has an inverse loses nothing.
proof fn lemma_invertible_factor(
    left: int,
    right: int,
    factor: int,
    inverse: int,
    excess: int,
    modulus: int,
)
    requires
        0 < modulus,
        0 <= left < modulus,
        0 <= right < modulus,
        factor * inverse == 1 + excess * modulus,
        (left * factor) % modulus == (right * factor) % modulus,
    ensures
        left == right,
{
    let left_quotient = (left * factor) / modulus;
    let right_quotient = (right * factor) / modulus;
    let rest = (left * factor) % modulus;
    lemma_fundamental_div_mod(left * factor, modulus);
    lemma_fundamental_div_mod(right * factor, modulus);
    let difference = left - right;
    let turns = (left_quotient - right_quotient) * inverse - excess * difference;
    assert(difference == modulus * turns) by (nonlinear_arith)
        requires
            left * factor == modulus * left_quotient + rest,
            right * factor == modulus * right_quotient + rest,
            factor * inverse == 1 + excess * modulus,
            difference == left - right,
            turns == (left_quotient - right_quotient) * inverse - excess * difference,
    {
        assert(difference * factor == modulus * (left_quotient - right_quotient));
        assert(difference * (factor * inverse) == modulus * ((left_quotient - right_quotient)
            * inverse)) by {
            assert(difference * (factor * inverse) == (difference * factor) * inverse);
            assert((modulus * (left_quotient - right_quotient)) * inverse == modulus * ((
            left_quotient - right_quotient) * inverse));
        }
        assert(difference * (1 + excess * modulus) == difference + modulus * (excess * difference));
    }
    assert(turns == 0) by (nonlinear_arith)
        requires
            difference == modulus * turns,
            0 < modulus,
            -modulus < difference < modulus,
    ;
}

/// The multiplier of the checksum is odd.
proof fn lemma_multiplier_injective(left: u64, right: u64)
    requires
        vstd::wrapping::u64_specs::wrapping_mul(left, CHECKSUM_MULTIPLIER)
            == vstd::wrapping::u64_specs::wrapping_mul(right, CHECKSUM_MULTIPLIER),
    ensures
        left == right,
{
    lemma_invertible_factor(
        left as int,
        right as int,
        CHECKSUM_MULTIPLIER as int,
        0x4b7e_576b_236d_df85,
        1664463419346500784,
        0x1_0000_0000_0000_0000,
    );
}

/// One round keeps different states apart.
proof fn lemma_round_keeps_states_apart(left: u64, right: u64, byte: u8)
    requires
        left != right,
    ensures
        checksum_round(left, byte) != checksum_round(right, byte),
{
    lemma_round_keeps_mixes_apart(left ^ (byte as u64), right ^ (byte as u64));
    let mixed = byte as u64;
    assert(left != right ==> left ^ mixed != right ^ mixed) by (bit_vector);
}

/// One round keeps different bytes apart.
proof fn lemma_round_keeps_bytes_apart(state: u64, left: u8, right: u8)
    requires
        left != right,
    ensures
        checksum_round(state, left) != checksum_round(state, right),
{
    lemma_round_keeps_mixes_apart(state ^ (left as u64), state ^ (right as u64));
    let first = left as u64;
    let second = right as u64;
    assert(first != second ==> state ^ first != state ^ second) by (bit_vector);
}

proof fn lemma_round_keeps_mixes_apart(left: u64, right: u64)
    ensures
        left != right ==> ({
            let first = vstd::wrapping::u64_specs::wrapping_mul(left, CHECKSUM_MULTIPLIER);
            let second = vstd::wrapping::u64_specs::wrapping_mul(right, CHECKSUM_MULTIPLIER);
            ((first << 7) | (first >> 57)) ^ CHECKSUM_XOR != ((second << 7) | (second >> 57))
                ^ CHECKSUM_XOR
        }),
{
    let first = vstd::wrapping::u64_specs::wrapping_mul(left, CHECKSUM_MULTIPLIER);
    let second = vstd::wrapping::u64_specs::wrapping_mul(right, CHECKSUM_MULTIPLIER);
    if left != right {
        if first == second {
            lemma_multiplier_injective(left, right);
        }
        let last = CHECKSUM_XOR;
        assert(first != second ==> ((first << 7) | (first >> 57)) ^ last != ((second << 7) | (second
            >> 57)) ^ last) by (bit_vector);
    }
}

/// Two texts that differ in one byte have different checksum states.
proof fn lemma_states_differ(left: Seq<u8>, right: Seq<u8>, place: int)
    requires
        left.len() == right.len(),
        0 <= place < left.len(),
        left[place] != right[place],
        forall|i: int| 0 <= i < left.len() && i != place ==> #[trigger] left[i] == right[i],
    ensures
        checksum_state(left) != checksum_state(right),
    decreases left.len(),
{
    if place == left.len() - 1 {
        assert(left.drop_last() =~= right.drop_last());
        lemma_round_keeps_bytes_apart(
            checksum_state(left.drop_last()),
            left.last(),
            right.last(),
        );
    } else {
        lemma_states_differ(left.drop_last(), right.drop_last(), place);
        assert(left.last() == right.last());
        lemma_round_keeps_states_apart(
            checksum_state(left.drop_last()),
            checksum_state(right.drop_last()),
            left.last(),
        );
    }
}

/// The checksum of a text changes with every single byte of it.
pub proof fn law_checksum_tells_every_byte(left: Seq<u8>, right: Seq<u8>, place: int)
    requires
        left.len() == right.len(),
        0 <= place < left.len(),
        left[place] != right[place],
        forall|i: int| 0 <= i < left.len() && i != place ==> #[trigger] left[i] == right[i],
    ensures
        checksum(left) != checksum(right),
{
    lemma_states_differ(left, right, place);
    let first = checksum_state(left);
    let second = checksum_state(right);
    let length = (left.len() % pow256(8)) as u64;
    assert(first != second ==> first ^ length != second ^ length) by (bit_vector);
}

/// Whatever single byte of a sealed text is damaged, the checksum behind it no
/// longer fits.
pub proof fn law_single_byte_damage_is_detected(body: Seq<u8>, place: int, byte: u8)
    requires
        0 <= place < sealed(body).len(),
        sealed(body)[place] != byte,
    ensures
        ({
            let damaged = sealed(body).update(place, byte);
            be_field(damaged, body.len() as int, 8) != checksum(
                damaged.subrange(0, body.len() as int),
            )
        }),
{
    let whole = sealed(body);
    let damaged = whole.update(place, byte);
    let length = body.len() as int;
    lemma_sealed(body);
    if place < length {
        let other = damaged.subrange(0, length);
        assert(damaged.subrange(length, length + 8) =~= whole.subrange(length, length + 8));
        assert forall|i: int| 0 <= i < body.len() && i != place implies #[trigger] body[i]
            == other[i] by {
            assert(whole.subrange(0, length)[i] == whole[i]);
        }
        assert(whole.subrange(0, length)[place] == whole[place]);
        law_checksum_tells_every_byte(body, other, place);
    } else {
        let before = whole.subrange(length, length + 8);
        let after = damaged.subrange(length, length + 8);
        assert(damaged.subrange(0, length) =~= body);
        assert(before[place - length] != after[place - length]);
        lemma_be_bytes_of_value(before);
        lemma_be_bytes_of_value(after);
    }
}

/// A text whose last eight bytes are the checksum of the others is a sealed text.
proof fn lemma_fitting_is_sealed(bytes: Seq<u8>, length: int)
    requires
        0 <= length,
        bytes.len() == length + 8,
        be_field(bytes, length, 8) as u64 == checksum(bytes.subrange(0, length)),
    ensures
        bytes == sealed(bytes.subrange(0, length)),
{
    let stored = bytes.subrange(length, length + 8);
    lemma_pow256_values();
    lemma_be_value_bound(stored);
    lemma_be_bytes_of_value(stored);
    assert(bytes =~= bytes.subrange(0, length) + stored);
}

/// A text whose checksum fits loses that with any single byte.
proof fn lemma_damage_shows(bytes: Seq<u8>, length: int, place: int, byte: u8)
    requires
        0 <= length,
        bytes.len() == length + 8,
        be_field(bytes, length, 8) as u64 == checksum(bytes.subrange(0, length)),
        0 <= place < bytes.len(),
        bytes[place] != byte,
    ensures
        be_field(bytes.update(place, byte), length, 8) as u64 != checksum(
            bytes.update(place, byte).subrange(0, length),
        ),
{
    let body = bytes.subrange(0, length);
    let damaged = bytes.update(place, byte);
    lemma_fitting_is_sealed(bytes, length);
    law_single_byte_damage_is_detected(body, place, byte);
    lemma_pow256_values();
    lemma_be_value_bound(damaged.subrange(length, length + 8));
}

/// A frame of the commit log in which any single byte has been damaged is refused, at
/// a place inside the frame.
pub proof fn law_damaged_frame_is_refused(
    frame: Seq<u8>,
    offset: u64,
    format: LogFormat,
    place: int,
    byte: u8,
)
    requires
        frame.len() == 56,
        decoded_frame(frame, offset, format) is Ok,
        0 <= place < 56,
        frame[place] != byte,
    ensures
        decoded_frame(frame.update(place, byte), offset, format) matches Err(error) && (offset + 48
            <= u64::MAX ==> offset <= error.offset <= offset + 48),
{
    reveal(decoded_frame);
    lemma_damage_shows(frame, 48, place, byte);
}

/// A frame of the page store in which any single byte has been damaged is refused, at
/// a place inside the frame.
pub proof fn law_damaged_store_frame_is_refused(
    frame: Seq<u8>,
    offset: u64,
    place: int,
    byte: u8,
)
    requires
        frame.len() == 56,
        decoded_store_frame(frame, offset) is Ok,
        0 <= place < 56,
        frame[place] != byte,
    ensures
        decoded_store_frame(frame.update(place, byte), offset) matches Err(error) && (offset + 48
            <= u64::MAX ==> offset <= error.offset <= offset + 48),
{
    reveal(decoded_store_frame);
    lemma_damage_shows(frame, 48, place, byte);
}

/// A commit-log file in whose header any single byte has been damaged is refused.
#[verifier::rlimit(60)]
pub proof fn law_damaged_header_is_refused(
    bytes: Seq<u8>,
    expectation: HeaderExpectation,
    header: HeaderModel,
    place: int,
    byte: u8,
)
    requires
        read_header(bytes, expectation) == Ok::<HeaderModel, FileFormatError>(header),
        0 <= place < header.length,
        bytes[place] != byte,
    ensures
        read_header(bytes.update(place, byte), expectation) is Err,
{
    reveal(read_header);
    let length = header.length as int;
    let damaged = bytes.update(place, byte);
    let before = bytes.take(length);
    let after = damaged.take(length);
    assert(after =~= before.update(place, byte));
    assert(before.subrange(8, 10) =~= bytes.subrange(8, 10));
    assert(after.subrange(8, 10) =~= damaged.subrange(8, 10));
    lemma_damage_shows(before, length - 8, place, byte);
    if be_field(damaged, 8, 2) as u16 != be_field(bytes, 8, 2) as u16 {
        assert(place == 8 || place == 9) by {
            if place != 8 && place != 9 {
                assert(damaged.subrange(8, 10) =~= bytes.subrange(8, 10));
            }
        }
        assert(before.subrange(10, 12) =~= bytes.subrange(10, 12));
        assert(damaged.subrange(10, 12) =~= bytes.subrange(10, 12));
        assert(damaged.take(64).subrange(8, 10) =~= damaged.subrange(8, 10));
        assert(damaged.take(64).subrange(10, 12) =~= bytes.subrange(10, 12));
        if damaged.len() >= 128 {
            assert(damaged.take(128).subrange(10, 12) =~= bytes.subrange(10, 12));
        }
        if damaged.len() >= 192 {
            assert(damaged.take(192).subrange(10, 12) =~= bytes.subrange(10, 12));
        }
    }
}

/// A page-store file in whose header any single byte has been damaged is refused.
#[verifier::rlimit(60)]
pub proof fn law_damaged_store_header_is_refused(
    bytes: Seq<u8>,
    width: u64,
    header: StoreHeaderModel,
    place: int,
    byte: u8,
)
    requires
        read_store_header(bytes, width) == Ok::<StoreHeaderModel, PageStoreFormatError>(header),
        0 <= place < header.length,
        bytes[place] != byte,
    ensures
        read_store_header(bytes.update(place, byte), width) is Err,
{
    reveal(read_store_header);
    let length = header.length as int;
    let damaged = bytes.update(place, byte);
    let before = bytes.take(length);
    let after = damaged.take(length);
    assert(after =~= before.update(place, byte));
    assert(before.subrange(8, 10) =~= bytes.subrange(8, 10));
    lemma_damage_shows(before, length - 8, place, byte);
    if be_field(damaged, 8, 2) != be_field(bytes, 8, 2) {
        assert(place == 8 || place == 9) by {
            if place != 8 && place != 9 {
                assert(damaged.subrange(8, 10) =~= bytes.subrange(8, 10));
            }
        }
        assert(before.subrange(10, 12) =~= bytes.subrange(10, 12));
        assert(damaged.subrange(10, 12) =~= bytes.subrange(10, 12));
        assert(damaged.take(64).subrange(10, 12) =~= bytes.subrange(10, 12));
        if damaged.len() >= 128 {
            assert(damaged.take(128).subrange(10, 12) =~= bytes.subrange(10, 12));
        }
    }
}

/// A checkpoint in which any single byte has been damaged is refused.
pub proof fn law_damaged_checkpoint_is_refused(bytes: Seq<u8>, place: int, byte: u8)
    requires
        decoded_checkpoint(bytes, true) is Ok,
        0 <= place < bytes.len(),
        bytes[place] != byte,
    ensures
        decoded_checkpoint(bytes.update(place, byte), true) is Err,
{
    lemma_damage_shows(bytes, bytes.len() - 8, place, byte);
}

} // verus!
