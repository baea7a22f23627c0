//! Rendering of numbers and of the sentences that describe errors.
use vstd::prelude::*;
use vstd::string::*;

verus! {

/// The character of one decimal or hexadecimal digit, lower case.
pub open spec fn digit_char(digit: nat) -> char {
    if digit == 0 {
        '0'
    } else if digit == 1 {
        '1'
    } else if digit == 2 {
        '2'
    } else if digit == 3 {
        '3'
    } else if digit == 4 {
        '4'
    } else if digit == 5 {
        '5'
    } else if digit == 6 {
        '6'
    } else if digit == 7 {
        '7'
    } else if digit == 8 {
        '8'
    } else if digit == 9 {
        '9'
    } else if digit == 10 {
        'a'
    } else if digit == 11 {
        'b'
    } else if digit == 12 {
        'c'
    } else if digit == 13 {
        'd'
    } else if digit == 14 {
        'e'
    } else {
        'f'
    }
}

/// `value` in decimal, without leading zeros.
pub open spec fn decimal(value: nat) -> Seq<char>
    decreases value,
{
    if value < 10 {
        seq![digit_char(value)]
    } else {
        decimal(value / 10).push(digit_char(value % 10))
    }
}

/// The `width` low-order hexadecimal digits of `value`.
pub open spec fn hex_digits(value: nat, width: nat) -> Seq<char>
    decreases width,
{
    if width == 0 {
        Seq::empty()
    } else {
        hex_digits(value / 16, (width - 1) as nat).push(digit_char(value % 16))
    }
}

/// A 64-bit number as `0x` and sixteen hexadecimal digits.
pub open spec fn hex64(value: u64) -> Seq<char> {
    "0x"@ + hex_digits(value as nat, 16)
}

/// An optional number in the form that debugging output gives it.
pub open spec fn optional_decimal(value: Option<u64>) -> Seq<char> {
    match value {
        None => "None"@,
        Some(number) => "Some("@ + decimal(number as nat) + ")"@,
    }
}

fn digit_text(digit: u8) -> (text: &'static str)
    requires
        digit < 16,
    ensures
        text@ == seq![digit_char(digit as nat)],
{
    proof {
        reveal_strlit("0");
        reveal_strlit("1");
        reveal_strlit("2");
        reveal_strlit("3");
        reveal_strlit("4");
        reveal_strlit("5");
        reveal_strlit("6");
        reveal_strlit("7");
        reveal_strlit("8");
        reveal_strlit("9");
        reveal_strlit("a");
        reveal_strlit("b");
        reveal_strlit("c");
        reveal_strlit("d");
        reveal_strlit("e");
        reveal_strlit("f");
    }
    let text: &'static str = match digit {
        0 => "0",
        1 => "1",
        2 => "2",
        3 => "3",
        4 => "4",
        5 => "5",
        6 => "6",
        7 => "7",
        8 => "8",
        9 => "9",
        10 => "a",
        11 => "b",
        12 => "c",
        13 => "d",
        14 => "e",
        _ => "f",
    };
    assert(text@ =~= seq![digit_char(digit as nat)]);
    text
}

pub fn append_decimal(text: &mut String, value: u64)
    ensures
        final(text)@ == old(text)@ + decimal(value as nat),
    decreases value,
{
    if value >= 10 {
        append_decimal(text, value / 10);
    }
    text.append(digit_text((value % 10) as u8));
    assert(text@ =~= old(text)@ + decimal(value as nat));
}

fn append_hex_digits(text: &mut String, value: u64, width: u8)
    ensures
        final(text)@ == old(text)@ + hex_digits(value as nat, width as nat),
    decreases width,
{
    if width > 0 {
        append_hex_digits(text, value / 16, width - 1);
        text.append(digit_text((value % 16) as u8));
    }
    assert(text@ =~= old(text)@ + hex_digits(value as nat, width as nat));
}

pub fn append_hex64(text: &mut String, value: u64)
    ensures
        final(text)@ == old(text)@ + hex64(value),
{
    text.append("0x");
    append_hex_digits(text, value, 16);
    assert(text@ =~= old(text)@ + hex64(value));
}

/// A fixed sentence.
pub fn sentence(text: &str) -> (message: String)
    ensures
        message@ == text@,
{
    String::from_str(text)
}

/// A sentence around one number.
pub fn sentence_with(before: &str, value: u64, after: &str) -> (message: String)
    ensures
        message@ == before@ + decimal(value as nat) + after@,
{
    let mut message: String = String::from_str(before);
    append_decimal(&mut message, value);
    message.append(after);
    message
}

/// A sentence around two numbers.
pub fn sentence_with_two(
    before: &str,
    first: u64,
    between: &str,
    second: u64,
    after: &str,
) -> (message: String)
    ensures
        message@ == before@ + decimal(first as nat) + between@ + decimal(second as nat) + after@,
{
    let mut message: String = sentence_with(before, first, between);
    append_decimal(&mut message, second);
    message.append(after);
    message
}

/// A sentence that ends in a number.
pub fn sentence_ending(before: &str, value: u64) -> (message: String)
    ensures
        message@ == before@ + decimal(value as nat),
{
    let mut message: String = String::from_str(before);
    append_decimal(&mut message, value);
    message
}

/// A sentence around one number that ends in another.
pub fn sentence_ending_two(before: &str, first: u64, between: &str, second: u64) -> (message: String)
    ensures
        message@ == before@ + decimal(first as nat) + between@ + decimal(second as nat),
{
    let mut message: String = sentence_with(before, first, between);
    append_decimal(&mut message, second);
    message
}

/// A sentence around two checksums.
pub fn sentence_with_checksums(before: &str, first: u64, between: &str, second: u64) -> (message:
    String)
    ensures
        message@ == before@ + hex64(first) + between@ + hex64(second),
{
    let mut message: String = String::from_str(before);
    append_hex64(&mut message, first);
    message.append(between);
    append_hex64(&mut message, second);
    message
}

/// A sentence around two optional numbers.
pub fn sentence_with_options(
    before: &str,
    first: Option<u64>,
    between: &str,
    second: Option<u64>,
) -> (message: String)
    ensures
        message@ == before@ + optional_decimal(first) + between@ + optional_decimal(second),
{
    let mut message: String = String::from_str(before);
    let first_text: String = option_text(first);
    message.append(first_text.as_str());
    message.append(between);
    let second_text: String = option_text(second);
    message.append(second_text.as_str());
    message
}

fn option_text(value: Option<u64>) -> (text: String)
    ensures
        text@ == optional_decimal(value),
{
    match value {
        None => String::from_str("None"),
        Some(number) => sentence_with("Some(", number, ")"),
    }
}

/// The bytes of a list in the form that debugging output gives it, without its
/// brackets.
pub open spec fn listed_bytes(bytes: Seq<u8>) -> Seq<char>
    decreases bytes.len(),
{
    if bytes.len() == 0 {
        Seq::empty()
    } else if bytes.len() == 1 {
        decimal(bytes[0] as nat)
    } else {
        listed_bytes(bytes.drop_last()) + ", "@ + decimal(bytes.last() as nat)
    }
}

/// A list of bytes in the form that debugging output gives it.
pub open spec fn byte_list(bytes: Seq<u8>) -> Seq<char> {
    "["@ + listed_bytes(bytes) + "]"@
}

pub fn byte_list_text(bytes: &[u8]) -> (text: String)
    ensures
        text@ == byte_list(bytes@),
{
    let mut text: String = String::from_str("[");
    let total: usize = bytes.len();
    let mut index: usize = 0;
    assert(bytes@.take(0) =~= Seq::empty());
    assert(text@ =~= "["@ + listed_bytes(bytes@.take(0)));
    while index < total
        invariant
            index <= total == bytes@.len(),
            text@ == "["@ + listed_bytes(bytes@.take(index as int)),
        decreases total - index,
    {
        let ghost before = text@;
        if index > 0 {
            text.append(", ");
        }
        append_decimal(&mut text, bytes[index] as u64);
        proof {
            let longer = bytes@.take(index + 1);
            assert(longer.drop_last() =~= bytes@.take(index as int));
            assert(text@ =~= "["@ + listed_bytes(longer));
        }
        index = index + 1;
    }
    assert(bytes@.take(total as int) =~= bytes@);
    text.append("]");
    text
}

/// Two texts joined.
pub fn joined(before: &str, after: &String) -> (message: String)
    ensures
        message@ == before@ + after@,
{
    let mut message: String = String::from_str(before);
    message.append(after.as_str());
    message
}

} // verus!
