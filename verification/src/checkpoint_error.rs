//! Errors of the restart-checkpoint codec.
use vstd::prelude::*;

use crate::text::{
    byte_list, byte_list_text, decimal, hex64, joined, sentence, sentence_ending,
    sentence_ending_two, sentence_with, sentence_with_checksums, sentence_with_two,
};

verus! {

/// Failure to encode one authoritative transaction restart checkpoint baseline.
#[derive(Clone, Copy, Debug, PartialEq, Eq, Structural)]
pub enum RestartCheckpointBaselineEncodeError {
    /// The transaction count cannot be represented by the format's `u64` field.
    TransactionCountOutOfRange {
        /// Exact host-sized count that was rejected.
        transaction_count: usize,
    },
    /// The fixed-width blob length overflowed host-sized arithmetic.
    EncodedLengthOverflow {
        /// Exact transaction count used in the failed calculation.
        transaction_count: usize,
    },
    /// The host-sized encoded length cannot be represented by the format.
    EncodedLengthOutOfRange {
        /// Exact host-sized encoded length that was rejected.
        encoded_length: usize,
    },
    /// The complete output buffer could not reserve its exact required length.
    CapacityExhausted {
        /// Exact byte length that required reservation.
        encoded_length: usize,
    },
}

impl RestartCheckpointBaselineEncodeError {
    pub open spec fn spec_message(self) -> Seq<char> {
        match self {
            RestartCheckpointBaselineEncodeError::TransactionCountOutOfRange {
                transaction_count,
            } =>
                "restart checkpoint transaction count "@ + decimal(transaction_count as nat)
                    + " is not representable as u64"@,
            RestartCheckpointBaselineEncodeError::EncodedLengthOverflow { transaction_count } =>
                "restart checkpoint encoded length overflowed for "@
                    + decimal(transaction_count as nat) + " transaction entries"@,
            RestartCheckpointBaselineEncodeError::EncodedLengthOutOfRange { encoded_length } =>
                "restart checkpoint encoded length "@ + decimal(encoded_length as nat)
                    + " is not representable as u64"@,
            RestartCheckpointBaselineEncodeError::CapacityExhausted { encoded_length } =>
                "restart checkpoint output capacity is exhausted for "@
                    + decimal(encoded_length as nat) + " bytes"@,
        }
    }

    /// A sentence that describes the error.
    pub fn message(&self) -> (message: String)
        ensures
            message@ == self.spec_message(),
    {
        match self {
            RestartCheckpointBaselineEncodeError::TransactionCountOutOfRange {
                transaction_count,
            } => {
                sentence_with(
                    "restart checkpoint transaction count ",
                    *transaction_count as u64,
                    " is not representable as u64",
                )
            },
            RestartCheckpointBaselineEncodeError::EncodedLengthOverflow { transaction_count } => {
                sentence_with(
                    "restart checkpoint encoded length overflowed for ",
                    *transaction_count as u64,
                    " transaction entries",
                )
            },
            RestartCheckpointBaselineEncodeError::EncodedLengthOutOfRange { encoded_length } => {
                sentence_with(
                    "restart checkpoint encoded length ",
                    *encoded_length as u64,
                    " is not representable as u64",
                )
            },
            RestartCheckpointBaselineEncodeError::CapacityExhausted { encoded_length } => {
                sentence_with(
                    "restart checkpoint output capacity is exhausted for ",
                    *encoded_length as u64,
                    " bytes",
                )
            },
        }
    }
}

/// Optional numeric field inside one encoded checkpoint transaction entry.
#[derive(Clone, Copy, Debug, PartialEq, Eq, Structural)]
pub enum RestartCheckpointBaselineEntryOptionalField {
    /// First transaction-owned page-record position.
    FirstOwnedPagePosition,
    /// Last transaction-owned page-record position.
    LastOwnedPagePosition,
}

impl RestartCheckpointBaselineEntryOptionalField {
    pub open spec fn spec_message(self) -> Seq<char> {
        match self {
            RestartCheckpointBaselineEntryOptionalField::FirstOwnedPagePosition =>
                "first owned-page position"@,
            RestartCheckpointBaselineEntryOptionalField::LastOwnedPagePosition =>
                "last owned-page position"@,
        }
    }

    /// The name of the field.
    pub fn message(&self) -> (message: String)
        ensures
            message@ == self.spec_message(),
    {
        match self {
            RestartCheckpointBaselineEntryOptionalField::FirstOwnedPagePosition => {
                sentence("first owned-page position")
            },
            RestartCheckpointBaselineEntryOptionalField::LastOwnedPagePosition => {
                sentence("last owned-page position")
            },
        }
    }
}

/// Structural failure to decode one versioned restart checkpoint baseline blob.
#[derive(Clone, Copy, Debug, PartialEq, Eq)]
pub enum RestartCheckpointBaselineDecodeError {
    /// The input ended before the complete declared structural boundary.
    Truncated {
        /// Minimum or declared byte length required at this stage.
        expected_length: usize,
        /// Exact supplied byte length.
        actual_length: usize,
    },
    /// The independent checkpoint header magic did not match.
    HeaderMagicMismatch {
        /// Exact eight bytes found at the header magic offset.
        actual: [u8; 8],
    },
    /// The checkpoint format version is not supported.
    UnsupportedVersion {
        /// Exact decoded version.
        actual: u16,
    },
    /// The encoded fixed header length is not version 1's exact width.
    HeaderLengthMismatch {
        /// Exact decoded header length.
        actual: u16,
    },
    /// The encoded fixed entry length is not version 1's exact width.
    EntryLengthMismatch {
        /// Exact decoded entry length.
        actual: u16,
    },
    /// The encoded fixed footer length is not version 1's exact width.
    FooterLengthMismatch {
        /// Exact decoded footer length.
        actual: u16,
    },
    /// The transaction count cannot be represented on this host.
    TransactionCountOutOfRange {
        /// Exact decoded count.
        transaction_count: u64,
    },
    /// The fixed-width expected length overflowed the format's `u64` arithmetic.
    EncodedLengthOverflow {
        /// Exact decoded count used in the failed calculation.
        transaction_count: u64,
    },
    /// The declared total length cannot be represented on this host.
    TotalLengthOutOfRange {
        /// Exact decoded total length.
        total_length: u64,
    },
    /// The declared total length disagreed with the fixed geometry and count.
    DeclaredLengthMismatch {
        /// Exact decoded total length.
        declared: u64,
        /// Exact length implied by version 1 geometry and count.
        expected: u64,
    },
    /// Bytes followed the one complete declared blob.
    TrailingBytes {
        /// Exact declared and structurally expected byte length.
        expected_length: usize,
        /// Exact supplied byte length.
        actual_length: usize,
    },
    /// The independent checkpoint footer magic did not match.
    FooterMagicMismatch {
        /// Exact eight bytes found at the footer magic offset.
        actual: [u8; 8],
    },
    /// The protected complete blob checksum did not match.
    ChecksumMismatch {
        /// Checksum computed from every byte before the checksum field.
        expected: u64,
        /// Checksum decoded from the final field.
        actual: u64,
    },
    /// The header frontier presence discriminant was not zero or one.
    FrontierPresenceInvalid {
        /// Exact decoded discriminant.
        actual: u8,
    },
    /// An absent frontier retained a nonzero noncanonical payload.
    AbsentFrontierValueNonZero {
        /// Exact decoded payload.
        actual: u64,
    },
    /// A reserved byte was nonzero.
    ReservedByteNonZero {
        /// Absolute byte offset in the supplied blob.
        offset: usize,
        /// Exact nonzero byte.
        actual: u8,
    },
    /// One entry state discriminant was not uncommitted or committed.
    EntryStateInvalid {
        /// Zero-based transaction entry index.
        transaction_index: usize,
        /// Exact decoded discriminant.
        actual: u8,
    },
    /// One optional entry-position presence discriminant was not zero or one.
    EntryPositionPresenceInvalid {
        /// Zero-based transaction entry index.
        transaction_index: usize,
        /// Optional field whose discriminant was invalid.
        field: RestartCheckpointBaselineEntryOptionalField,
        /// Exact decoded discriminant.
        actual: u8,
    },
    /// An absent optional entry position retained a nonzero payload.
    AbsentEntryPositionValueNonZero {
        /// Zero-based transaction entry index.
        transaction_index: usize,
        /// Optional field whose absent payload was nonzero.
        field: RestartCheckpointBaselineEntryOptionalField,
        /// Exact decoded payload.
        actual: u64,
    },
    /// An uncommitted entry retained a nonzero commit-position payload.
    UncommittedPositionValueNonZero {
        /// Zero-based transaction entry index.
        transaction_index: usize,
        /// Exact decoded payload.
        actual: u64,
    },
    /// The complete decoded transaction vector could not reserve its exact count.
    CapacityExhausted {
        /// Exact host-sized count that required reservation.
        transaction_count: usize,
    },
}

impl RestartCheckpointBaselineDecodeError {
    pub open spec fn spec_message(self) -> Seq<char> {
        match self {
            RestartCheckpointBaselineDecodeError::Truncated { expected_length, actual_length } =>
                "restart checkpoint is truncated: expected at least "@
                    + decimal(expected_length as nat) + " bytes, found "@
                    + decimal(actual_length as nat),
            RestartCheckpointBaselineDecodeError::HeaderMagicMismatch { actual } =>
                "restart checkpoint header magic is invalid: "@ + byte_list(actual@),
            RestartCheckpointBaselineDecodeError::UnsupportedVersion { actual } =>
                "restart checkpoint version "@ + decimal(actual as nat) + " is unsupported"@,
            RestartCheckpointBaselineDecodeError::HeaderLengthMismatch { actual } =>
                "restart checkpoint header length "@ + decimal(actual as nat) + " is invalid"@,
            RestartCheckpointBaselineDecodeError::EntryLengthMismatch { actual } =>
                "restart checkpoint entry length "@ + decimal(actual as nat) + " is invalid"@,
            RestartCheckpointBaselineDecodeError::FooterLengthMismatch { actual } =>
                "restart checkpoint footer length "@ + decimal(actual as nat) + " is invalid"@,
            RestartCheckpointBaselineDecodeError::TransactionCountOutOfRange {
                transaction_count,
            } =>
                "restart checkpoint transaction count "@ + decimal(transaction_count as nat)
                    + " is not representable on this host"@,
            RestartCheckpointBaselineDecodeError::EncodedLengthOverflow { transaction_count } =>
                "restart checkpoint encoded length overflowed for "@
                    + decimal(transaction_count as nat) + " transaction entries"@,
            RestartCheckpointBaselineDecodeError::TotalLengthOutOfRange { total_length } =>
                "restart checkpoint total length "@ + decimal(total_length as nat)
                    + " is not representable on this host"@,
            RestartCheckpointBaselineDecodeError::DeclaredLengthMismatch { declared, expected } =>
                "restart checkpoint declared length "@ + decimal(declared as nat)
                    + " does not match expected length "@ + decimal(expected as nat),
            RestartCheckpointBaselineDecodeError::TrailingBytes {
                expected_length,
                actual_length,
            } =>
                "restart checkpoint has trailing bytes: expected "@
                    + decimal(expected_length as nat) + " bytes, found "@
                    + decimal(actual_length as nat),
            RestartCheckpointBaselineDecodeError::FooterMagicMismatch { actual } =>
                "restart checkpoint footer magic is invalid: "@ + byte_list(actual@),
            RestartCheckpointBaselineDecodeError::ChecksumMismatch { expected, actual } =>
                "restart checkpoint checksum mismatch: expected "@ + hex64(expected) + ", found "@
                    + hex64(actual),
            RestartCheckpointBaselineDecodeError::FrontierPresenceInvalid { actual } =>
                "restart checkpoint frontier presence value "@ + decimal(actual as nat)
                    + " is invalid"@,
            RestartCheckpointBaselineDecodeError::AbsentFrontierValueNonZero { actual } =>
                "restart checkpoint absent frontier has nonzero payload "@ + decimal(actual as nat),
            RestartCheckpointBaselineDecodeError::ReservedByteNonZero { offset, actual } =>
                "restart checkpoint reserved byte at offset "@ + decimal(offset as nat)
                    + " is nonzero: "@ + decimal(actual as nat),
            RestartCheckpointBaselineDecodeError::EntryStateInvalid { transaction_index, actual } =>
                "restart checkpoint transaction entry "@ + decimal(transaction_index as nat)
                    + " state value "@ + decimal(actual as nat) + " is invalid"@,
            RestartCheckpointBaselineDecodeError::EntryPositionPresenceInvalid {
                transaction_index,
                field,
                actual,
            } =>
                "restart checkpoint transaction entry "@ + decimal(transaction_index as nat) + " "@
                    + field.spec_message() + " presence value "@ + decimal(actual as nat)
                    + " is invalid"@,
            RestartCheckpointBaselineDecodeError::AbsentEntryPositionValueNonZero {
                transaction_index,
                field,
                actual,
            } =>
                "restart checkpoint transaction entry "@ + decimal(transaction_index as nat)
                    + " absent "@ + field.spec_message() + " has nonzero payload "@
                    + decimal(actual as nat),
            RestartCheckpointBaselineDecodeError::UncommittedPositionValueNonZero {
                transaction_index,
                actual,
            } =>
                "restart checkpoint transaction entry "@ + decimal(transaction_index as nat)
                    + " is uncommitted with nonzero commit position "@ + decimal(actual as nat),
            RestartCheckpointBaselineDecodeError::CapacityExhausted { transaction_count } =>
                "restart checkpoint decode capacity is exhausted for "@
                    + decimal(transaction_count as nat) + " transaction entries"@,
        }
    }

    /// A sentence that describes the error.
    pub fn message(&self) -> (message: String)
        ensures
            message@ == self.spec_message(),
    {
        match self {
            RestartCheckpointBaselineDecodeError::Truncated { expected_length, actual_length } => {
                sentence_ending_two(
                    "restart checkpoint is truncated: expected at least ",
                    *expected_length as u64,
                    " bytes, found ",
                    *actual_length as u64,
                )
            },
            RestartCheckpointBaselineDecodeError::HeaderMagicMismatch { actual } => {
                joined("restart checkpoint header magic is invalid: ", &byte_list_text(actual))
            },
            RestartCheckpointBaselineDecodeError::UnsupportedVersion { actual } => {
                sentence_with("restart checkpoint version ", *actual as u64, " is unsupported")
            },
            RestartCheckpointBaselineDecodeError::HeaderLengthMismatch { actual } => {
                sentence_with("restart checkpoint header length ", *actual as u64, " is invalid")
            },
            RestartCheckpointBaselineDecodeError::EntryLengthMismatch { actual } => {
                sentence_with("restart checkpoint entry length ", *actual as u64, " is invalid")
            },
            RestartCheckpointBaselineDecodeError::FooterLengthMismatch { actual } => {
                sentence_with("restart checkpoint footer length ", *actual as u64, " is invalid")
            },
            RestartCheckpointBaselineDecodeError::TransactionCountOutOfRange {
                transaction_count,
            } => {
                sentence_with(
                    "restart checkpoint transaction count ",
                    *transaction_count,
                    " is not representable on this host",
                )
            },
            RestartCheckpointBaselineDecodeError::EncodedLengthOverflow { transaction_count } => {
                sentence_with(
                    "restart checkpoint encoded length overflowed for ",
                    *transaction_count,
                    " transaction entries",
                )
            },
            RestartCheckpointBaselineDecodeError::TotalLengthOutOfRange { total_length } => {
                sentence_with(
                    "restart checkpoint total length ",
                    *total_length,
                    " is not representable on this host",
                )
            },
            RestartCheckpointBaselineDecodeError::DeclaredLengthMismatch { declared, expected } => {
                sentence_ending_two(
                    "restart checkpoint declared length ",
                    *declared,
                    " does not match expected length ",
                    *expected,
                )
            },
            RestartCheckpointBaselineDecodeError::TrailingBytes {
                expected_length,
                actual_length,
            } => {
                sentence_ending_two(
                    "restart checkpoint has trailing bytes: expected ",
                    *expected_length as u64,
                    " bytes, found ",
                    *actual_length as u64,
                )
            },
            RestartCheckpointBaselineDecodeError::FooterMagicMismatch { actual } => {
                joined("restart checkpoint footer magic is invalid: ", &byte_list_text(actual))
            },
            RestartCheckpointBaselineDecodeError::ChecksumMismatch { expected, actual } => {
                sentence_with_checksums(
                    "restart checkpoint checksum mismatch: expected ",
                    *expected,
                    ", found ",
                    *actual,
                )
            },
            RestartCheckpointBaselineDecodeError::FrontierPresenceInvalid { actual } => {
                sentence_with(
                    "restart checkpoint frontier presence value ",
                    *actual as u64,
                    " is invalid",
                )
            },
            RestartCheckpointBaselineDecodeError::AbsentFrontierValueNonZero { actual } => {
                sentence_ending("restart checkpoint absent frontier has nonzero payload ", *actual)
            },
            RestartCheckpointBaselineDecodeError::ReservedByteNonZero { offset, actual } => {
                sentence_ending_two(
                    "restart checkpoint reserved byte at offset ",
                    *offset as u64,
                    " is nonzero: ",
                    *actual as u64,
                )
            },
            RestartCheckpointBaselineDecodeError::EntryStateInvalid { transaction_index, actual } => {
                sentence_with_two(
                    "restart checkpoint transaction entry ",
                    *transaction_index as u64,
                    " state value ",
                    *actual as u64,
                    " is invalid",
                )
            },
            RestartCheckpointBaselineDecodeError::EntryPositionPresenceInvalid {
                transaction_index,
                field,
                actual,
            } => {
                let start: String = sentence_with(
                    "restart checkpoint transaction entry ",
                    *transaction_index as u64,
                    " ",
                );
                let named: String = joined(start.as_str(), &field.message());
                let valued: String = joined(named.as_str(), &sentence(" presence value "));
                sentence_with(valued.as_str(), *actual as u64, " is invalid")
            },
            RestartCheckpointBaselineDecodeError::AbsentEntryPositionValueNonZero {
                transaction_index,
                field,
                actual,
            } => {
                let start: String = sentence_with(
                    "restart checkpoint transaction entry ",
                    *transaction_index as u64,
                    " absent ",
                );
                let named: String = joined(start.as_str(), &field.message());
                let valued: String = joined(named.as_str(), &sentence(" has nonzero payload "));
                sentence_ending(valued.as_str(), *actual)
            },
            RestartCheckpointBaselineDecodeError::UncommittedPositionValueNonZero {
                transaction_index,
                actual,
            } => {
                sentence_ending_two(
                    "restart checkpoint transaction entry ",
                    *transaction_index as u64,
                    " is uncommitted with nonzero commit position ",
                    *actual,
                )
            },
            RestartCheckpointBaselineDecodeError::CapacityExhausted { transaction_count } => {
                sentence_with(
                    "restart checkpoint decode capacity is exhausted for ",
                    *transaction_count as u64,
                    " transaction entries",
                )
            },
        }
    }
}

} // verus!
