//! Big-endian integers and the checksum that protects every header and frame.
use vstd::prelude::*;

verus! {

pub const CHECKSUM_SEED: u64 = 0x4e54_5351_4c43_4b31;

pub const CHECKSUM_MULTIPLIER: u64 = 0x4e54_5351_4c57_414d;

pub const CHECKSUM_XOR: u64 = 0x4348_4543_4b53_554d;

/// `256` to the power `width`: the number of values that `width` bytes can hold.
pub open spec fn pow256(width: nat) -> nat
    decreases width,
{
    if width == 0 {
        1
    } else {
        256 * pow256((width - 1) as nat)
    }
}

/// The number that a byte sequence spells, most significant byte first.
pub open spec fn be_value(bytes: Seq<u8>) -> nat
    decreases bytes.len(),
{
    if bytes.len() == 0 {
        0
    } else {
        be_value(bytes.drop_last()) * 256 + bytes.last() as nat
    }
}

/// The `width` low-order base-256 digits of `value`, most significant first.
pub open spec fn be_bytes(value: nat, width: nat) -> Seq<u8>
    decreases width,
{
    if width == 0 {
        Seq::empty()
    } else {
        be_bytes(value / 256, (width - 1) as nat).push((value % 256) as u8)
    }
}

/// The big-endian number stored in `width` bytes of `bytes` from `offset` on.
pub open spec fn be_field(bytes: Seq<u8>, offset: int, width: int) -> nat {
    be_value(bytes.subrange(offset, offset + width))
}

/// Whether every byte of `bytes[start..end]` is zero.
pub open spec fn zero_range(bytes: Seq<u8>, start: int, end: int) -> bool {
    forall|i: int| start <= i < end ==> #[trigger] bytes[i] == 0
}

/// `count` zero bytes.
pub open spec fn zeros(count: nat) -> Seq<u8> {
    Seq::new(count, |i: int| 0u8)
}

pub proof fn lemma_pow256_values()
    ensures
        pow256(0) == 1,
        pow256(1) == 0x100,
        pow256(2) == 0x1_0000,
        pow256(4) == 0x1_0000_0000,
        pow256(8) == 0x1_0000_0000_0000_0000,
        pow256(16) == 0x1_0000_0000_0000_0000_0000_0000_0000_0000,
{
    reveal_with_fuel(pow256, 17);
}

pub proof fn lemma_pow256_monotone(low: nat, high: nat)
    requires
        low <= high,
    ensures
        pow256(low) <= pow256(high),
    decreases high,
{
    if low < high {
        lemma_pow256_monotone(low, (high - 1) as nat);
    }
}

pub proof fn lemma_be_value_bound(bytes: Seq<u8>)
    ensures
        be_value(bytes) < pow256(bytes.len()),
    decreases bytes.len(),
{
    if bytes.len() > 0 {
        lemma_be_value_bound(bytes.drop_last());
    }
}

pub proof fn lemma_be_bytes_len(value: nat, width: nat)
    ensures
        be_bytes(value, width).len() == width,
    decreases width,
{
    if width > 0 {
        lemma_be_bytes_len(value / 256, (width - 1) as nat);
    }
}

/// Reading the bytes of a number gives the number back.
pub proof fn lemma_be_value_of_bytes(value: nat, width: nat)
    requires
        value < pow256(width),
    ensures
        be_bytes(value, width).len() == width,
        be_value(be_bytes(value, width)) == value,
    decreases width,
{
    lemma_be_bytes_len(value, width);
    if width > 0 {
        let rest = be_bytes(value / 256, (width - 1) as nat);
        lemma_be_value_of_bytes(value / 256, (width - 1) as nat);
        assert(be_bytes(value, width).drop_last() =~= rest);
    }
}

/// Writing the number that a byte sequence spells gives the bytes back.
pub proof fn lemma_be_bytes_of_value(bytes: Seq<u8>)
    ensures
        be_bytes(be_value(bytes), bytes.len()) == bytes,
    decreases bytes.len(),
{
    if bytes.len() > 0 {
        let rest = bytes.drop_last();
        lemma_be_bytes_of_value(rest);
        assert(be_value(bytes) / 256 == be_value(rest));
        assert(be_value(bytes) % 256 == bytes.last());
        assert(rest.push(bytes.last()) =~= bytes);
    }
    assert(be_bytes(be_value(bytes), bytes.len()) =~= bytes);
}

/// The zero number is spelled with zero bytes.
pub proof fn lemma_be_bytes_zero(width: nat)
    ensures
        be_bytes(0, width) =~= zeros(width),
    decreases width,
{
    if width > 0 {
        lemma_be_bytes_zero((width - 1) as nat);
    }
}

fn read_be(bytes: &[u8], offset: usize, width: usize) -> (value: u128)
    requires
        width <= 16,
        offset + width <= bytes@.len(),
    ensures
        value == be_field(bytes@, offset as int, width as int),
        value < pow256(width as nat),
{
    let total: usize = bytes.len();
    let mut value: u128 = 0;
    let mut index: usize = 0;
    while index < width
        invariant
            index <= width <= 16,
            offset + width <= total == bytes@.len(),
            value == be_field(bytes@, offset as int, index as int),
            value < pow256(index as nat),
        decreases width - index,
    {
        let byte: u8 = bytes[offset + index];
        proof {
            let longer = bytes@.subrange(offset as int, offset + index + 1);
            assert(longer.drop_last() =~= bytes@.subrange(offset as int, offset + index));
            assert(pow256((index + 1) as nat) == 256 * pow256(index as nat));
            lemma_pow256_monotone((index + 1) as nat, 16);
            lemma_pow256_values();
        }
        value = value * 256 + (byte as u128);
        index = index + 1;
    }
    value
}

pub fn read_u16(bytes: &[u8], offset: usize) -> (value: u16)
    requires
        offset + 2 <= bytes@.len(),
    ensures
        value == be_field(bytes@, offset as int, 2),
{
    let value: u128 = read_be(bytes, offset, 2);
    proof {
        lemma_pow256_values();
    }
    value as u16
}

pub fn read_u32(bytes: &[u8], offset: usize) -> (value: u32)
    requires
        offset + 4 <= bytes@.len(),
    ensures
        value == be_field(bytes@, offset as int, 4),
{
    let value: u128 = read_be(bytes, offset, 4);
    proof {
        lemma_pow256_values();
    }
    value as u32
}

pub fn read_u64(bytes: &[u8], offset: usize) -> (value: u64)
    requires
        offset + 8 <= bytes@.len(),
    ensures
        value == be_field(bytes@, offset as int, 8),
{
    let value: u128 = read_be(bytes, offset, 8);
    proof {
        lemma_pow256_values();
    }
    value as u64
}

pub fn read_u128(bytes: &[u8], offset: usize) -> (value: u128)
    requires
        offset + 16 <= bytes@.len(),
    ensures
        value == be_field(bytes@, offset as int, 16),
{
    read_be(bytes, offset, 16)
}

fn append_be(bytes: &mut Vec<u8>, value: u128, width: usize)
    ensures
        final(bytes)@ == old(bytes)@ + be_bytes(value as nat, width as nat),
    decreases width,
{
    if width > 0 {
        append_be(bytes, value / 256, width - 1);
        bytes.push((value % 256) as u8);
    }
    assert(bytes@ =~= old(bytes)@ + be_bytes(value as nat, width as nat));
}

pub fn append_u16(bytes: &mut Vec<u8>, value: u16)
    ensures
        final(bytes)@ == old(bytes)@ + be_bytes(value as nat, 2),
{
    append_be(bytes, value as u128, 2);
}

pub fn append_u32(bytes: &mut Vec<u8>, value: u32)
    ensures
        final(bytes)@ == old(bytes)@ + be_bytes(value as nat, 4),
{
    append_be(bytes, value as u128, 4);
}

pub fn append_u64(bytes: &mut Vec<u8>, value: u64)
    ensures
        final(bytes)@ == old(bytes)@ + be_bytes(value as nat, 8),
{
    append_be(bytes, value as u128, 8);
}

pub fn append_u128(bytes: &mut Vec<u8>, value: u128)
    ensures
        final(bytes)@ == old(bytes)@ + be_bytes(value as nat, 16),
{
    append_be(bytes, value, 16);
}

/// `bytes` with `part` in place of what stood from `offset` on.
pub open spec fn overwritten(bytes: Seq<u8>, offset: int, part: Seq<u8>) -> Seq<u8> {
    Seq::new(
        bytes.len(),
        |i: int|
            if offset <= i < offset + part.len() {
                part[i - offset]
            } else {
                bytes[i]
            },
    )
}

fn write_be(bytes: &mut Vec<u8>, offset: usize, value: u128, width: usize)
    requires
        offset + width <= old(bytes)@.len(),
    ensures
        final(bytes)@ == overwritten(
            old(bytes)@,
            offset as int,
            be_bytes(value as nat, width as nat),
        ),
    decreases width,
{
    proof {
        lemma_be_bytes_len(value as nat, width as nat);
    }
    if width > 0 {
        proof {
            lemma_be_bytes_len(value as nat / 256, (width - 1) as nat);
            assert(offset + width <= bytes.len());
        }
        write_be(bytes, offset, value / 256, width - 1);
        bytes[offset + (width - 1)] = (value % 256) as u8;
    }
    assert(bytes@ =~= overwritten(old(bytes)@, offset as int, be_bytes(value as nat, width as nat)));
}

/// Writes a number over the two bytes from `offset` on.
pub fn write_u16(bytes: &mut Vec<u8>, offset: usize, value: u16)
    requires
        offset + 2 <= old(bytes)@.len(),
    ensures
        final(bytes)@ == overwritten(old(bytes)@, offset as int, be_bytes(value as nat, 2)),
{
    write_be(bytes, offset, value as u128, 2);
}

/// Writes a number over the four bytes from `offset` on.
pub fn write_u32(bytes: &mut Vec<u8>, offset: usize, value: u32)
    requires
        offset + 4 <= old(bytes)@.len(),
    ensures
        final(bytes)@ == overwritten(old(bytes)@, offset as int, be_bytes(value as nat, 4)),
{
    write_be(bytes, offset, value as u128, 4);
}

/// Writes a number over the eight bytes from `offset` on.
pub fn write_u64(bytes: &mut Vec<u8>, offset: usize, value: u64)
    requires
        offset + 8 <= old(bytes)@.len(),
    ensures
        final(bytes)@ == overwritten(old(bytes)@, offset as int, be_bytes(value as nat, 8)),
{
    write_be(bytes, offset, value as u128, 8);
}

/// Writes `part` over the bytes from `offset` on.
pub fn write_slice(bytes: &mut Vec<u8>, offset: usize, part: &[u8])
    requires
        offset + part@.len() <= old(bytes)@.len(),
    ensures
        final(bytes)@ == overwritten(old(bytes)@, offset as int, part@),
{
    let total: usize = bytes.len();
    let mut index: usize = 0;
    while index < part.len()
        invariant
            index <= part@.len(),
            offset + part@.len() <= total == bytes@.len(),
            bytes@ == overwritten(old(bytes)@, offset as int, part@.take(index as int)),
        decreases part@.len() - index,
    {
        bytes[offset + index] = part[index];
        index = index + 1;
        assert(bytes@ =~= overwritten(old(bytes)@, offset as int, part@.take(index as int)));
    }
    assert(part@.take(index as int) =~= part@);
}

/// Gives `count` zero bytes.
pub fn zeroed(count: usize) -> (bytes: Vec<u8>)
    ensures
        bytes@ == zeros(count as nat),
{
    let mut bytes: Vec<u8> = Vec::new();
    append_zeros(&mut bytes, count);
    assert(bytes@ =~= zeros(count as nat));
    bytes
}

/// A number that was written over some bytes is read back from them, and the bytes
/// around it are as they were.
pub proof fn law_written_number_is_read_back(bytes: Seq<u8>, offset: int, value: nat, width: nat)
    requires
        0 <= offset,
        offset + width <= bytes.len(),
        value < pow256(width),
    ensures
        ({
            let written = overwritten(bytes, offset, be_bytes(value, width));
            &&& written.len() == bytes.len()
            &&& be_field(written, offset, width as int) == value
            &&& forall|i: int|
                0 <= i < bytes.len() && !(offset <= i < offset + width) ==> #[trigger] written[i]
                    == bytes[i]
        }),
{
    let written = overwritten(bytes, offset, be_bytes(value, width));
    lemma_be_value_of_bytes(value, width);
    assert(written.subrange(offset, offset + width) =~= be_bytes(value, width));
}

/// The eight bytes of a number, the most significant first.
pub proof fn law_u64_is_written_big_endian(bytes: Seq<u8>, offset: int, value: u64)
    requires
        0 <= offset,
        offset + 8 <= bytes.len(),
    ensures
        ({
            let written = overwritten(bytes, offset, be_bytes(value as nat, 8));
            &&& written[offset] == #[verifier::truncate] ((value >> 56) as u8)
            &&& written[offset + 1] == #[verifier::truncate] ((value >> 48) as u8)
            &&& written[offset + 2] == #[verifier::truncate] ((value >> 40) as u8)
            &&& written[offset + 3] == #[verifier::truncate] ((value >> 32) as u8)
            &&& written[offset + 4] == #[verifier::truncate] ((value >> 24) as u8)
            &&& written[offset + 5] == #[verifier::truncate] ((value >> 16) as u8)
            &&& written[offset + 6] == #[verifier::truncate] ((value >> 8) as u8)
            &&& written[offset + 7] == #[verifier::truncate] (value as u8)
        }),
{
    reveal_with_fuel(be_bytes, 9);
    lemma_be_bytes_len(value as nat, 8);
    assert(value / 256 / 256 == value / 0x1_0000);
    assert(value / 0x1_0000 / 256 == value / 0x100_0000);
    assert(value / 0x100_0000 / 256 == value / 0x1_0000_0000);
    assert(value / 0x1_0000_0000 / 256 == value / 0x100_0000_0000);
    assert(value / 0x100_0000_0000 / 256 == value / 0x1_0000_0000_0000);
    assert(value / 0x1_0000_0000_0000 / 256 == value / 0x100_0000_0000_0000);
    assert(((value >> 56) as u8) == (value / 0x100_0000_0000_0000) % 256) by (bit_vector);
    assert(((value >> 48) as u8) == (value / 0x1_0000_0000_0000) % 256) by (bit_vector);
    assert(((value >> 40) as u8) == (value / 0x100_0000_0000) % 256) by (bit_vector);
    assert(((value >> 32) as u8) == (value / 0x1_0000_0000) % 256) by (bit_vector);
    assert(((value >> 24) as u8) == (value / 0x100_0000) % 256) by (bit_vector);
    assert(((value >> 16) as u8) == (value / 0x1_0000) % 256) by (bit_vector);
    assert(((value >> 8) as u8) == (value / 256) % 256) by (bit_vector);
    assert((value as u8) == value % 256) by (bit_vector);
}

pub fn append_zeros(bytes: &mut Vec<u8>, count: usize)
    ensures
        final(bytes)@ == old(bytes)@ + zeros(count as nat),
{
    let ghost start = bytes@;
    let mut index: usize = 0;
    while index < count
        invariant
            index <= count,
            bytes@ == start + zeros(index as nat),
        decreases count - index,
    {
        bytes.push(0);
        index = index + 1;
        assert(bytes@ =~= start + zeros(index as nat));
    }
}

pub fn append_slice(bytes: &mut Vec<u8>, more: &[u8])
    ensures
        final(bytes)@ == old(bytes)@ + more@,
{
    bytes.extend_from_slice(more);
    assert(bytes@ =~= old(bytes)@ + more@);
}

/// Whether `bytes[start..end]` holds only zero bytes.
pub fn is_zero_range(bytes: &[u8], start: usize, end: usize) -> (zero: bool)
    requires
        start <= end <= bytes@.len(),
    ensures
        zero == zero_range(bytes@, start as int, end as int),
{
    let mut index: usize = start;
    while index < end
        invariant
            start <= index <= end <= bytes@.len(),
            zero_range(bytes@, start as int, index as int),
        decreases end - index,
    {
        if bytes[index] != 0 {
            return false;
        }
        index = index + 1;
    }
    true
}

/// Whether `bytes` holds `expected` from `offset` on.
pub fn matches_at(bytes: &[u8], offset: usize, expected: &[u8]) -> (same: bool)
    requires
        offset + expected@.len() <= bytes@.len(),
    ensures
        same == (bytes@.subrange(offset as int, offset + expected@.len()) == expected@),
{
    let total: usize = bytes.len();
    let mut index: usize = 0;
    while index < expected.len()
        invariant
            index <= expected@.len(),
            offset + expected@.len() <= total == bytes@.len(),
            forall|i: int| 0 <= i < index ==> bytes@[offset + i] == expected@[i],
        decreases expected@.len() - index,
    {
        if bytes[offset + index] != expected[index] {
            assert(bytes@.subrange(offset as int, offset + expected@.len())[index as int]
                != expected@[index as int]);
            return false;
        }
        index = index + 1;
    }
    assert(bytes@.subrange(offset as int, offset + expected@.len()) =~= expected@);
    true
}

/// One round of the checksum: mix in a byte, multiply, rotate left by seven bits.
pub open spec fn checksum_round(state: u64, byte: u8) -> u64 {
    let mixed = vstd::wrapping::u64_specs::wrapping_mul(state ^ (byte as u64), CHECKSUM_MULTIPLIER);
    ((mixed << 7) | (mixed >> 57)) ^ CHECKSUM_XOR
}

/// The checksum state after folding `bytes` in order, starting from the seed.
pub open spec fn checksum_state(bytes: Seq<u8>) -> u64
    decreases bytes.len(),
{
    if bytes.len() == 0 {
        CHECKSUM_SEED
    } else {
        checksum_round(checksum_state(bytes.drop_last()), bytes.last())
    }
}

/// The stored checksum of `bytes`: the folded state combined with the length
/// modulo `2^64`.
pub open spec fn checksum(bytes: Seq<u8>) -> u64 {
    checksum_state(bytes) ^ ((bytes.len() % pow256(8)) as u64)
}

pub fn checksum_v1(bytes: &[u8]) -> (sum: u64)
    ensures
        sum == checksum(bytes@),
{
    let mut state: u64 = CHECKSUM_SEED;
    let mut protected_len: u64 = 0;
    let mut index: usize = 0;
    assert(bytes@.take(0) =~= Seq::<u8>::empty());
    while index < bytes.len()
        invariant
            index <= bytes@.len(),
            protected_len == index,
            state == checksum_state(bytes@.take(index as int)),
        decreases bytes@.len() - index,
    {
        proof {
            let longer = bytes@.take(index + 1);
            assert(longer.drop_last() =~= bytes@.take(index as int));
            assert(longer.last() == bytes@[index as int]);
        }
        let mixed: u64 = (state ^ (bytes[index] as u64)).wrapping_mul(CHECKSUM_MULTIPLIER);
        state = ((mixed << 7) | (mixed >> 57)) ^ CHECKSUM_XOR;
        index = index + 1;
        protected_len = protected_len.wrapping_add(1);
    }
    proof {
        assert(bytes@.take(index as int) =~= bytes@);
        lemma_pow256_values();
    }
    state ^ protected_len
}

/// `body` with its checksum behind it.
pub open spec fn sealed(body: Seq<u8>) -> Seq<u8> {
    body + be_bytes(checksum(body) as nat, 8)
}

/// Puts the checksum behind what has been written.
pub fn seal(bytes: &mut Vec<u8>)
    ensures
        final(bytes)@ == sealed(old(bytes)@),
        final(bytes)@.len() == old(bytes)@.len() + 8,
{
    let sum: u64 = checksum_v1(bytes.as_slice());
    append_u64(bytes, sum);
    proof {
        lemma_be_bytes_len(sum as nat, 8);
    }
}

/// A sealed body carries the right checksum.
pub proof fn lemma_sealed(body: Seq<u8>)
    ensures
        sealed(body).len() == body.len() + 8,
        sealed(body).take(body.len() as int) == body,
        sealed(body).subrange(0, body.len() as int) == body,
        be_field(sealed(body), body.len() as int, 8) == checksum(body),
{
    let whole = sealed(body);
    let sum = checksum(body);
    lemma_pow256_values();
    lemma_be_value_of_bytes(sum as nat, 8);
    assert(whole.subrange(0, body.len() as int) =~= body);
    assert(whole.take(body.len() as int) =~= body);
    assert(whole.subrange(body.len() as int, body.len() as int + 8) =~= be_bytes(sum as nat, 8));
}

} // verus!
