//! The sentences that describe errors tell the numbers of the errors, each in its place.
use vstd::prelude::*;

use crate::checkpoint_error::{
    RestartCheckpointBaselineDecodeError, RestartCheckpointBaselineEncodeError,
};
use crate::database_identity::DatabaseChildIdentityDecodeErrorReason;
use crate::log_error::{
    FaultAlreadyArmed, FileCommitLogError, FileCommittedPageRecoveryInventoryError,
    FileCommittedPageRecoverySourceError, FileCreateError, FileFormatError, FileFormatErrorReason,
    FileOpenError, FilePageWidthError, FileTransactionRecoveryError,
    FileTransactionRestartAnalysisSourceError, FileTransactionRestartWalReclamationError,
};
use crate::page_store_error::{
    optional_position_value, FileCommittedPageRecoveryObservationError,
    FileCommittedPageRecoveryStoreError, FilePageStoreError, FilePageStoreInventoryError,
    FileRestartCheckpointPageRepairStoreError, PageStoreCreateError, PageStoreFaultAlreadyArmed,
    PageStoreFormatError, PageStoreFormatErrorReason, PageStoreOpenError,
};
use crate::text::{byte_list, decimal, hex64, optional_decimal};

verus! {

/// A text with a value in it.
pub open spec fn tells(text: Seq<char>, value: Seq<char>) -> bool {
    exists|start: Seq<char>, end: Seq<char>| text == #[trigger] (start + value + end)
}

/// A text with a value at its end.
pub open spec fn ends_with(text: Seq<char>, value: Seq<char>) -> bool {
    exists|start: Seq<char>| text == #[trigger] (start + value)
}

/// A text with two values in it, in this order.
pub open spec fn tells_two(text: Seq<char>, first: Seq<char>, second: Seq<char>) -> bool {
    exists|start: Seq<char>, middle: Seq<char>, end: Seq<char>|
        text == #[trigger] (start + first + middle + second + end)
}

/// A text with two values in it, in this order, the second at its end.
pub open spec fn ends_with_two(text: Seq<char>, first: Seq<char>, second: Seq<char>) -> bool {
    exists|start: Seq<char>, middle: Seq<char>| text == #[trigger] (start + first + middle + second)
}

/// A text with three values in it, in this order.
pub open spec fn tells_three(
    text: Seq<char>,
    first: Seq<char>,
    second: Seq<char>,
    third: Seq<char>,
) -> bool {
    exists|start: Seq<char>, middle: Seq<char>, rest: Seq<char>, end: Seq<char>|
        text == #[trigger] (start + first + middle + second + rest + third + end)
}

/// A text with three values in it, in this order, the last at its end.
pub open spec fn ends_with_three(
    text: Seq<char>,
    first: Seq<char>,
    second: Seq<char>,
    third: Seq<char>,
) -> bool {
    exists|start: Seq<char>, middle: Seq<char>, rest: Seq<char>|
        text == #[trigger] (start + first + middle + second + rest + third)
}

/// A fault that is armed already is told before the one that was asked for, in the log and in
/// the store.
pub proof fn law_armed_fault_messages(
    log: FaultAlreadyArmed,
    store: PageStoreFaultAlreadyArmed,
    message: String,
    store_message: String,
)
    requires
        call_ensures(FaultAlreadyArmed::message, (&log,), message),
        call_ensures(PageStoreFaultAlreadyArmed::message, (&store,), store_message),
    ensures
        ends_with_two(message@, log.armed.spec_message(), log.requested.spec_message()),
        ends_with_two(store_message@, store.armed.spec_message(), store.requested.spec_message()),
{
}

/// A damaged file is told by the place of the damage, and then by the reason.
pub proof fn law_damage_messages(
    log: FileFormatError,
    store: PageStoreFormatError,
    message: String,
    store_message: String,
)
    requires
        call_ensures(FileFormatError::message, (&log,), message),
        call_ensures(PageStoreFormatError::message, (&store,), store_message),
    ensures
        ends_with_two(message@, decimal(log.offset as nat), log.reason.spec_message()),
        ends_with_two(store_message@, decimal(store.offset as nat), store.reason.spec_message()),
{
}

/// The reasons to refuse a child identity tell what was found.
pub proof fn law_child_identity_messages(
    error: DatabaseChildIdentityDecodeErrorReason,
    message: String,
)
    requires
        call_ensures(DatabaseChildIdentityDecodeErrorReason::message, (&error,), message),
    ensures
        match error {
            DatabaseChildIdentityDecodeErrorReason::Version { actual } => ends_with(
                message@,
                decimal(actual as nat),
            ),
            DatabaseChildIdentityDecodeErrorReason::Length { actual } => tells(
                message@,
                decimal(actual as nat),
            ),
            DatabaseChildIdentityDecodeErrorReason::Role { actual } => ends_with(
                message@,
                decimal(actual as nat),
            ),
            _ => true,
        },
{
}

/// The reasons not to encode a checkpoint tell the count or the length.
pub proof fn law_checkpoint_encode_messages(
    error: RestartCheckpointBaselineEncodeError,
    message: String,
)
    requires
        call_ensures(RestartCheckpointBaselineEncodeError::message, (&error,), message),
    ensures
        match error {
            RestartCheckpointBaselineEncodeError::TransactionCountOutOfRange {
                transaction_count,
            } =>
                tells(message@, decimal(transaction_count as nat)),
            RestartCheckpointBaselineEncodeError::EncodedLengthOverflow { transaction_count } =>
                tells(message@, decimal(transaction_count as nat)),
            RestartCheckpointBaselineEncodeError::EncodedLengthOutOfRange { encoded_length } =>
                tells(message@, decimal(encoded_length as nat)),
            RestartCheckpointBaselineEncodeError::CapacityExhausted { encoded_length } => tells(
                message@,
                decimal(encoded_length as nat),
            ),
        },
{
}

/// The reasons to refuse a checkpoint tell what was found, and where, in this order.
pub proof fn law_checkpoint_decode_messages(
    error: RestartCheckpointBaselineDecodeError,
    message: String,
)
    requires
        call_ensures(RestartCheckpointBaselineDecodeError::message, (&error,), message),
    ensures
        match error {
            RestartCheckpointBaselineDecodeError::Truncated { expected_length, actual_length } =>
                ends_with_two(
                    message@,
                    decimal(expected_length as nat),
                    decimal(actual_length as nat),
                ),
            RestartCheckpointBaselineDecodeError::HeaderMagicMismatch { actual } => ends_with(
                message@,
                byte_list(actual@),
            ),
            RestartCheckpointBaselineDecodeError::UnsupportedVersion { actual } => tells(
                message@,
                decimal(actual as nat),
            ),
            RestartCheckpointBaselineDecodeError::HeaderLengthMismatch { actual } => tells(
                message@,
                decimal(actual as nat),
            ),
            RestartCheckpointBaselineDecodeError::EntryLengthMismatch { actual } => tells(
                message@,
                decimal(actual as nat),
            ),
            RestartCheckpointBaselineDecodeError::FooterLengthMismatch { actual } => tells(
                message@,
                decimal(actual as nat),
            ),
            RestartCheckpointBaselineDecodeError::TransactionCountOutOfRange {
                transaction_count,
            } =>
                tells(message@, decimal(transaction_count as nat)),
            RestartCheckpointBaselineDecodeError::EncodedLengthOverflow { transaction_count } =>
                tells(message@, decimal(transaction_count as nat)),
            RestartCheckpointBaselineDecodeError::TotalLengthOutOfRange { total_length } => tells(
                message@,
                decimal(total_length as nat),
            ),
            RestartCheckpointBaselineDecodeError::DeclaredLengthMismatch { declared, expected } =>
                ends_with_two(message@, decimal(declared as nat), decimal(expected as nat)),
            RestartCheckpointBaselineDecodeError::TrailingBytes {
                expected_length,
                actual_length,
            } =>
                ends_with_two(
                    message@,
                    decimal(expected_length as nat),
                    decimal(actual_length as nat),
                ),
            RestartCheckpointBaselineDecodeError::FooterMagicMismatch { actual } => ends_with(
                message@,
                byte_list(actual@),
            ),
            RestartCheckpointBaselineDecodeError::ChecksumMismatch { expected, actual } =>
                ends_with_two(message@, hex64(expected), hex64(actual)),
            RestartCheckpointBaselineDecodeError::FrontierPresenceInvalid { actual } => tells(
                message@,
                decimal(actual as nat),
            ),
            RestartCheckpointBaselineDecodeError::AbsentFrontierValueNonZero { actual } =>
                ends_with(message@, decimal(actual as nat)),
            RestartCheckpointBaselineDecodeError::ReservedByteNonZero { offset, actual } =>
                ends_with_two(message@, decimal(offset as nat), decimal(actual as nat)),
            RestartCheckpointBaselineDecodeError::EntryStateInvalid { transaction_index, actual } =>
                tells_two(message@, decimal(transaction_index as nat), decimal(actual as nat)),
            RestartCheckpointBaselineDecodeError::EntryPositionPresenceInvalid {
                transaction_index,
                field,
                actual,
            } =>
                tells_three(
                    message@,
                    decimal(transaction_index as nat),
                    field.spec_message(),
                    decimal(actual as nat),
                ),
            RestartCheckpointBaselineDecodeError::AbsentEntryPositionValueNonZero {
                transaction_index,
                field,
                actual,
            } =>
                ends_with_three(
                    message@,
                    decimal(transaction_index as nat),
                    field.spec_message(),
                    decimal(actual as nat),
                ),
            RestartCheckpointBaselineDecodeError::UncommittedPositionValueNonZero {
                transaction_index,
                actual,
            } =>
                ends_with_two(message@, decimal(transaction_index as nat), decimal(actual as nat)),
            RestartCheckpointBaselineDecodeError::CapacityExhausted { transaction_count } => tells(
                message@,
                decimal(transaction_count as nat),
            ),
        },
{
}

/// A width that cannot be represented is told.
pub proof fn law_page_width_messages(error: FilePageWidthError, message: String)
    requires
        call_ensures(FilePageWidthError::message, (&error,), message),
    ensures
        match error {
            FilePageWidthError::NotRepresentable { actual } => tells(
                message@,
                decimal(actual as nat),
            ),
            _ => true,
        },
{
}

/// The reasons to refuse a log file tell what was found and what was due, in this order.
pub proof fn law_log_format_messages(error: FileFormatErrorReason, message: String)
    requires
        call_ensures(FileFormatErrorReason::message, (&error,), message),
    ensures
        match error {
            FileFormatErrorReason::HeaderTooShort { actual } => ends_with(
                message@,
                decimal(actual as nat),
            ),
            FileFormatErrorReason::HeaderVersion { actual } => ends_with(
                message@,
                decimal(actual as nat),
            ),
            FileFormatErrorReason::HeaderLength { actual } => tells(
                message@,
                decimal(actual as nat),
            ),
            FileFormatErrorReason::HeaderV4Length { actual } => tells(
                message@,
                decimal(actual as nat),
            ),
            FileFormatErrorReason::HeaderV5Length { actual } => tells(
                message@,
                decimal(actual as nat),
            ),
            FileFormatErrorReason::HeaderFlags { actual } => ends_with(
                message@,
                decimal(actual as nat),
            ),
            FileFormatErrorReason::HeaderPageWidthMismatch { expected, actual } => ends_with_two(
                message@,
                decimal(actual as nat),
                decimal(expected as nat),
            ),
            FileFormatErrorReason::HeaderV4RetainedFirstPresence { actual } => ends_with(
                message@,
                decimal(actual as nat),
            ),
            FileFormatErrorReason::HeaderV4LogicalHighWaterPresence { actual } => ends_with(
                message@,
                decimal(actual as nat),
            ),
            FileFormatErrorReason::HeaderV4RetainedFirstBeyondHighWater {
                retained_first,
                high_water,
            } =>
                ends_with_two(message@, decimal(retained_first as nat), decimal(high_water as nat)),
            FileFormatErrorReason::HeaderV5ReclamationPresence { actual } => ends_with(
                message@,
                decimal(actual as nat),
            ),
            FileFormatErrorReason::HeaderDatabaseChildIdentity(source) =>
                message@ == source.spec_message(),
            FileFormatErrorReason::HeaderV4RetainedFirstMismatch { expected, actual } =>
                ends_with_two(message@, optional_decimal(expected), optional_decimal(actual)),
            FileFormatErrorReason::HeaderV4LogicalHighWaterMismatch { expected, actual } =>
                ends_with_two(message@, optional_decimal(expected), optional_decimal(actual)),
            FileFormatErrorReason::HeaderChecksum { expected, actual } => ends_with_two(
                message@,
                hex64(expected),
                hex64(actual),
            ),
            FileFormatErrorReason::FrameKind { actual } => ends_with(
                message@,
                decimal(actual as nat),
            ),
            FileFormatErrorReason::FrameVersion { actual } => ends_with(
                message@,
                decimal(actual as nat),
            ),
            FileFormatErrorReason::FrameLength { actual } => tells(
                message@,
                decimal(actual as nat),
            ),
            FileFormatErrorReason::FrameFlags { actual } => ends_with(
                message@,
                decimal(actual as nat),
            ),
            FileFormatErrorReason::FrameChecksum { expected, actual } => ends_with_two(
                message@,
                hex64(expected),
                hex64(actual),
            ),
            FileFormatErrorReason::UnexpectedNonzeroPayload { field, actual } => ends_with_two(
                message@,
                field.spec_message(),
                decimal(actual as nat),
            ),
            FileFormatErrorReason::EpochOutOfSequence { expected, actual } => ends_with_two(
                message@,
                decimal(actual as nat),
                decimal(expected as nat),
            ),
            FileFormatErrorReason::CommitPositionOutOfSequence { expected, actual } =>
                ends_with_two(message@, decimal(actual as nat), decimal(expected as nat)),
            FileFormatErrorReason::CommitEpochUnallocated { actual, highest_allocated } =>
                ends_with_two(message@, decimal(actual as nat), decimal(highest_allocated as nat)),
            FileFormatErrorReason::DuplicateTransactionIdentity { epoch, sequence } =>
                ends_with_two(message@, decimal(epoch as nat), decimal(sequence as nat)),
            FileFormatErrorReason::MarkerDoesNotAdvance { previous, actual } => ends_with_two(
                message@,
                decimal(actual as nat),
                decimal(previous as nat),
            ),
            FileFormatErrorReason::MarkerReferencesUnknownCommit { actual, highest_committed } =>
                ends_with_two(message@, decimal(actual as nat), decimal(highest_committed as nat)),
            FileFormatErrorReason::PageHeaderPositionOutOfSequence { expected, actual } =>
                ends_with_two(message@, decimal(actual as nat), decimal(expected as nat)),
            FileFormatErrorReason::TransactionPageOwnerInterruptedByFrameKind { actual } =>
                ends_with(message@, decimal(actual as nat)),
            FileFormatErrorReason::TransactionPageOwnerParentMismatch { expected, actual } =>
                ends_with_two(message@, decimal(actual as nat), decimal(expected as nat)),
            FileFormatErrorReason::TransactionPageOwnerEpochUnallocated {
                actual,
                highest_allocated,
            } =>
                ends_with_two(message@, decimal(actual as nat), decimal(highest_allocated as nat)),
            FileFormatErrorReason::PageDataParentMismatch { expected, actual } => ends_with_two(
                message@,
                decimal(actual as nat),
                decimal(expected as nat),
            ),
            FileFormatErrorReason::PageDataChunkIndexOutOfSequence { expected, actual } =>
                ends_with_two(message@, decimal(actual as nat), decimal(expected as nat)),
            FileFormatErrorReason::PageDataInterruptedByFrameKind { actual } => ends_with(
                message@,
                decimal(actual as nat),
            ),
            _ => true,
        },
{
}

/// A refusal to create a log speaks of the width as the width does.
pub proof fn law_log_create_messages(error: FileCreateError, message: String)
    requires
        call_ensures(FileCreateError::message, (&error,), message),
    ensures
        match error {
            FileCreateError::PageWidth(source) => message@ == source.spec_message(),
            _ => true,
        },
{
}

/// A refusal to open a log speaks as its cause does.
pub proof fn law_log_open_messages(error: FileOpenError, message: String)
    requires
        call_ensures(FileOpenError::message, (&error,), message),
    ensures
        match error {
            FileOpenError::PageWidth(source) => message@ == source.spec_message(),
            FileOpenError::Format(source) => message@ == source.spec_message(),
            _ => true,
        },
{
}

/// The refusals of a log tell the numbers that they are about.
pub proof fn law_log_messages(error: FileCommitLogError, message: String)
    requires
        call_ensures(FileCommitLogError::message, (&error,), message),
    ensures
        match error {
            FileCommitLogError::InjectedFault(point) => ends_with(message@, point.spec_message()),
            FileCommitLogError::PageWidth(source) => message@ == source.spec_message(),
            FileCommitLogError::PageWidthMismatch { expected, actual } => ends_with_two(
                message@,
                decimal(actual as nat),
                decimal(expected as nat),
            ),
            FileCommitLogError::ForeignPageLineage(number) => tells(
                message@,
                decimal(number@ as nat),
            ),
            FileCommitLogError::UnknownFlushPosition(position) => tells(
                message@,
                decimal(position.value as nat),
            ),
            FileCommitLogError::ForeignFlushPosition(position) => tells(
                message@,
                decimal(position.value as nat),
            ),
            _ => true,
        },
{
}

/// The refusals of a lookup tell the transaction, its epoch first.
pub proof fn law_lookup_messages(error: FileTransactionRecoveryError, message: String)
    requires
        call_ensures(FileTransactionRecoveryError::message, (&error,), message),
    ensures
        match error {
            FileTransactionRecoveryError::VolatileCommitRecord(transaction_id) => tells_two(
                message@,
                decimal(transaction_id.spec_epoch() as nat),
                decimal(transaction_id.spec_sequence() as nat),
            ),
            FileTransactionRecoveryError::DuplicateCommitRecord(transaction_id) => tells_two(
                message@,
                decimal(transaction_id.spec_epoch() as nat),
                decimal(transaction_id.spec_sequence() as nat),
            ),
            _ => true,
        },
{
}

/// A format without page owners is told by its version.
pub proof fn law_inventory_messages(error: FileCommittedPageRecoveryInventoryError, message: String)
    requires
        call_ensures(FileCommittedPageRecoveryInventoryError::message, (&error,), message),
    ensures
        match error {
            FileCommittedPageRecoveryInventoryError::TransactionPageSupportUnavailable {
                version,
            } =>
                tells(message@, decimal(version as nat)),
            _ => true,
        },
{
}

/// The refusals of evidence tell the version, or end with their cause.
pub proof fn law_evidence_messages(error: FileCommittedPageRecoverySourceError, message: String)
    requires
        call_ensures(FileCommittedPageRecoverySourceError::message, (&error,), message),
    ensures
        match error {
            FileCommittedPageRecoverySourceError::TransactionPageSupportUnavailable { version } =>
                tells(message@, decimal(version as nat)),
            FileCommittedPageRecoverySourceError::EvidenceCapacityExhausted { projection } => tells(
                message@,
                projection.spec_message(),
            ),
            FileCommittedPageRecoverySourceError::PhysicalPageProjection(source) => ends_with(
                message@,
                source.spec_message(),
            ),
            FileCommittedPageRecoverySourceError::TransactionPageProjection(source) => ends_with(
                message@,
                source.spec_message(),
            ),
            FileCommittedPageRecoverySourceError::CommitProjection(source) => ends_with(
                message@,
                source.spec_message(),
            ),
            _ => true,
        },
{
}

/// The refusals of a restart analysis tell the number they are about, or end with their cause.
pub proof fn law_restart_messages(error: FileTransactionRestartAnalysisSourceError, message: String)
    requires
        call_ensures(FileTransactionRestartAnalysisSourceError::message, (&error,), message),
    ensures
        match error {
            FileTransactionRestartAnalysisSourceError::PrunedGenerationRequiresCheckpoint {
                generation,
            } =>
                tells(message@, decimal(generation as nat)),
            FileTransactionRestartAnalysisSourceError::ObservationCapacityExhausted {
                record_count,
            } =>
                tells(message@, decimal(record_count as nat)),
            FileTransactionRestartAnalysisSourceError::PageProjection(source) => ends_with(
                message@,
                source.spec_message(),
            ),
            FileTransactionRestartAnalysisSourceError::TransactionPageProjection(source) =>
                ends_with(message@, source.spec_message()),
            FileTransactionRestartAnalysisSourceError::CommitProjection(source) => ends_with(
                message@,
                source.spec_message(),
            ),
            _ => true,
        },
{
}

/// The refusals of a reclamation tell the numbers that they are about.
pub proof fn law_reclamation_messages(
    error: FileTransactionRestartWalReclamationError,
    message: String,
)
    requires
        call_ensures(FileTransactionRestartWalReclamationError::message, (&error,), message),
    ensures
        match error {
            FileTransactionRestartWalReclamationError::UnsupportedPhysicalFormat { version } =>
                tells(message@, decimal(version as nat)),
            FileTransactionRestartWalReclamationError::VolatileLogicalSuffix {
                durable_record_count,
                total_record_count,
            } =>
                tells_two(
                    message@,
                    decimal(total_record_count as nat),
                    decimal(durable_record_count as nat),
                ),
            FileTransactionRestartWalReclamationError::RetainedBoundaryMissing { position } =>
                tells(message@, decimal(position as nat)),
            FileTransactionRestartWalReclamationError::FrameCapacityExhausted { record_count } =>
                tells(message@, decimal(record_count as nat)),
            FileTransactionRestartWalReclamationError::InjectedFault(point) => ends_with(
                message@,
                point.spec_message(),
            ),
            _ => true,
        },
{
}

/// The reasons to refuse a store file tell what was found and what was due, in this order.
pub proof fn law_store_format_messages(error: PageStoreFormatErrorReason, message: String)
    requires
        call_ensures(PageStoreFormatErrorReason::message, (&error,), message),
    ensures
        match error {
            PageStoreFormatErrorReason::HeaderTooShort { actual } => ends_with(
                message@,
                decimal(actual as nat),
            ),
            PageStoreFormatErrorReason::HeaderVersion { actual } => ends_with(
                message@,
                decimal(actual as nat),
            ),
            PageStoreFormatErrorReason::HeaderLength { actual } => tells(
                message@,
                decimal(actual as nat),
            ),
            PageStoreFormatErrorReason::HeaderV2Length { actual } => tells(
                message@,
                decimal(actual as nat),
            ),
            PageStoreFormatErrorReason::HeaderFlags { actual } => ends_with(
                message@,
                decimal(actual as nat),
            ),
            PageStoreFormatErrorReason::HeaderPageWidthMismatch { expected, actual } =>
                ends_with_two(message@, decimal(actual as nat), decimal(expected as nat)),
            PageStoreFormatErrorReason::HeaderDatabaseChildIdentity(source) =>
                message@ == source.spec_message(),
            PageStoreFormatErrorReason::HeaderChecksum { expected, actual } => ends_with_two(
                message@,
                hex64(expected),
                hex64(actual),
            ),
            PageStoreFormatErrorReason::FrameKind { actual } => ends_with(
                message@,
                decimal(actual as nat),
            ),
            PageStoreFormatErrorReason::FrameVersion { actual } => ends_with(
                message@,
                decimal(actual as nat),
            ),
            PageStoreFormatErrorReason::FrameLength { actual } => tells(
                message@,
                decimal(actual as nat),
            ),
            PageStoreFormatErrorReason::FrameFlags { actual } => ends_with(
                message@,
                decimal(actual as nat),
            ),
            PageStoreFormatErrorReason::FrameChecksum { expected, actual } => ends_with_two(
                message@,
                hex64(expected),
                hex64(actual),
            ),
            PageStoreFormatErrorReason::SnapshotSequenceOutOfOrder { expected, actual } =>
                ends_with_two(message@, decimal(actual as nat), decimal(expected as nat)),
            PageStoreFormatErrorReason::RequiredPositionSequenceMismatch { expected, actual } =>
                ends_with_two(message@, decimal(actual as nat), decimal(expected as nat)),
            PageStoreFormatErrorReason::RequiredPositionPayloadCNonzero { actual } => ends_with(
                message@,
                decimal(actual as nat),
            ),
            PageStoreFormatErrorReason::PageDataSequenceMismatch { expected, actual } =>
                ends_with_two(message@, decimal(actual as nat), decimal(expected as nat)),
            PageStoreFormatErrorReason::PageDataChunkIndexOutOfSequence { expected, actual } =>
                ends_with_two(message@, decimal(actual as nat), decimal(expected as nat)),
            PageStoreFormatErrorReason::UnexpectedKindAfterHeader { actual } => ends_with(
                message@,
                decimal(actual as nat),
            ),
            PageStoreFormatErrorReason::UnexpectedKindAfterRequiredPosition { actual } => ends_with(
                message@,
                decimal(actual as nat),
            ),
            _ => true,
        },
{
}

/// A refusal to create a store speaks of the width as the width does.
pub proof fn law_store_create_messages(error: PageStoreCreateError, message: String)
    requires
        call_ensures(PageStoreCreateError::message, (&error,), message),
    ensures
        match error {
            PageStoreCreateError::PageWidth(source) => message@ == source.spec_message(),
            _ => true,
        },
{
}

/// A refusal to open a store speaks as its cause does.
pub proof fn law_store_open_messages(error: PageStoreOpenError, message: String)
    requires
        call_ensures(PageStoreOpenError::message, (&error,), message),
    ensures
        match error {
            PageStoreOpenError::PageWidth(source) => message@ == source.spec_message(),
            PageStoreOpenError::Format(source) => message@ == source.spec_message(),
            _ => true,
        },
{
}

/// The refusals of a store tell the numbers that they are about.
pub proof fn law_store_messages(error: FilePageStoreError, message: String)
    requires
        call_ensures(FilePageStoreError::message, (&error,), message),
    ensures
        match error {
            FilePageStoreError::InjectedFault(point) => ends_with(message@, point.spec_message()),
            FilePageStoreError::PageWidth(source) => message@ == source.spec_message(),
            FilePageStoreError::ForeignPageLineage(number) => tells(
                message@,
                decimal(number@ as nat),
            ),
            FilePageStoreError::ForeignPermitLineage(position) => tells(
                message@,
                decimal(position.value as nat),
            ),
            FilePageStoreError::PermitPositionMismatch { expected, actual } => ends_with_two(
                message@,
                decimal(actual.value as nat),
                decimal(expected.value as nat),
            ),
            FilePageStoreError::RequiredPositionZero(number) => tells(
                message@,
                decimal(number@ as nat),
            ),
            _ => true,
        },
{
}

/// A page that cannot be observed is explained by its cause.
pub proof fn law_observation_messages(
    error: FileCommittedPageRecoveryObservationError,
    message: String,
)
    requires
        call_ensures(FileCommittedPageRecoveryObservationError::message, (&error,), message),
    ensures
        match error {
            FileCommittedPageRecoveryObservationError::Projection(source) => ends_with(
                message@,
                source.spec_message(),
            ),
            _ => true,
        },
{
}

/// The refusals of a store inventory tell the page, or how many pages there are.
pub proof fn law_store_inventory_messages(error: FilePageStoreInventoryError, message: String)
    requires
        call_ensures(FilePageStoreInventoryError::message, (&error,), message),
    ensures
        match error {
            FilePageStoreInventoryError::CapacityExhausted { page_count } => tells(
                message@,
                decimal(page_count as nat),
            ),
            FilePageStoreInventoryError::Projection { page_number, source } => ends_with_two(
                message@,
                decimal(page_number@ as nat),
                source.spec_message(),
            ),
            _ => true,
        },
{
}

/// The refusals of a recovery tell the positions, the one presented before the one due.
pub proof fn law_recovery_store_messages(
    error: FileCommittedPageRecoveryStoreError,
    message: String,
)
    requires
        call_ensures(FileCommittedPageRecoveryStoreError::message, (&error,), message),
    ensures
        match error {
            FileCommittedPageRecoveryStoreError::ForeignTargetPagePosition(position) => tells(
                message@,
                decimal(position.value as nat),
            ),
            FileCommittedPageRecoveryStoreError::ForeignTargetCommitPosition(position) => tells(
                message@,
                decimal(position.value as nat),
            ),
            FileCommittedPageRecoveryStoreError::ForeignPermitPagePosition(position) => tells(
                message@,
                decimal(position.value as nat),
            ),
            FileCommittedPageRecoveryStoreError::ForeignPermitCommitPosition(position) => tells(
                message@,
                decimal(position.value as nat),
            ),
            FileCommittedPageRecoveryStoreError::PermitPagePositionMismatch { expected, actual } =>
                ends_with_two(
                    message@,
                    decimal(actual.value as nat),
                    decimal(expected.value as nat),
                ),
            FileCommittedPageRecoveryStoreError::PermitCommitPositionMismatch {
                expected,
                actual,
            } =>
                ends_with_two(
                    message@,
                    decimal(actual.value as nat),
                    decimal(expected.value as nat),
                ),
            FileCommittedPageRecoveryStoreError::CurrentObservation(source) => ends_with(
                message@,
                source.spec_message(),
            ),
            FileCommittedPageRecoveryStoreError::SourceComparison(source) => ends_with(
                message@,
                source.spec_message(),
            ),
            FileCommittedPageRecoveryStoreError::SourceNotMatched { actual } => ends_with(
                message@,
                actual.spec_message(),
            ),
            _ => true,
        },
{
}

/// The refusals of a repair tell the positions, the one presented before the one due.
pub proof fn law_repair_store_messages(
    error: FileRestartCheckpointPageRepairStoreError,
    message: String,
)
    requires
        call_ensures(FileRestartCheckpointPageRepairStoreError::message, (&error,), message),
    ensures
        match error {
            FileRestartCheckpointPageRepairStoreError::ForeignTargetPagePosition(position) => tells(
                message@,
                decimal(position.value as nat),
            ),
            FileRestartCheckpointPageRepairStoreError::ForeignTargetCommitPosition(position) =>
                tells(message@, decimal(position.value as nat)),
            FileRestartCheckpointPageRepairStoreError::ForeignPermitPagePosition(position) => tells(
                message@,
                decimal(position.value as nat),
            ),
            FileRestartCheckpointPageRepairStoreError::ForeignPermitCommitPosition(position) =>
                tells(message@, decimal(position.value as nat)),
            FileRestartCheckpointPageRepairStoreError::PermitPagePositionMismatch {
                expected,
                actual,
            } =>
                ends_with_two(
                    message@,
                    decimal(actual.value as nat),
                    decimal(expected.value as nat),
                ),
            FileRestartCheckpointPageRepairStoreError::PermitCommitPositionMismatch {
                expected,
                actual,
            } =>
                ends_with_two(
                    message@,
                    optional_decimal(optional_position_value(actual)),
                    optional_decimal(optional_position_value(expected)),
                ),
            FileRestartCheckpointPageRepairStoreError::CurrentObservation(source) => ends_with(
                message@,
                source.spec_message(),
            ),
            FileRestartCheckpointPageRepairStoreError::SourceComparison(source) => ends_with(
                message@,
                source.spec_message(),
            ),
            FileRestartCheckpointPageRepairStoreError::SourceNotMatched { actual } => ends_with(
                message@,
                actual.spec_message(),
            ),
            _ => true,
        },
{
}

} // verus!
