//! Errors of the commit log.
use vstd::prelude::*;

use crate::database_identity::DatabaseChildIdentityDecodeErrorReason;
use crate::identity::{LogSequenceNumber, PageNumber, TransactionId};
use crate::io_error::{failure_message, io_error_text, same_io_error};
use crate::observation::{
    DurableTransactionCommitObservationFieldsError, DurableTransactionPageObservationBytesError,
    PageRecoveryObservationBytesError,
};
use crate::text::{
    append_decimal, decimal, hex64, joined, optional_decimal, sentence, sentence_ending,
    sentence_ending_two, sentence_with, sentence_with_checksums, sentence_with_options,
    sentence_with_two,
};

verus! {
/// One-shot physical-effect boundary for the next matching log operation.
#[derive(Clone, Copy, Debug, PartialEq, Eq, Structural)]
pub enum FaultPoint {
    /// Fail before an append changes the file.
    BeforeAppend,
    /// Append one complete unmarked record, then report append failure.
    AfterAppend,
    /// Fail before the next durability marker work begins.
    BeforeFlush,
    /// Persist the durability marker and advance state, then report failure.
    AfterFlush,
    /// Fail before reconciling the fixed reclamation candidate.
    BeforeReclamationCandidateCleanup,
    /// Fail after locking the replacement candidate but before writing it.
    BeforeReclamationWrite,
    /// Fail after beginning to write the replacement candidate.
    DuringReclamationCopy,
    /// Fail after writing the candidate but before synchronizing it.
    BeforeReclamationCandidateSync,
    /// Synchronize the candidate, then report failure.
    AfterReclamationCandidateSync,
    /// Fail after synchronizing the candidate but before rename.
    BeforeReclamationRename,
    /// Rename the candidate over the selected path, then report failure.
    AfterReclamationRename,
    /// Rename the candidate but fail before parent-directory synchronization.
    DuringReclamationDirectorySync,
}

impl FaultPoint {
    pub open spec fn spec_message(self) -> Seq<char> {
        match self {
            FaultPoint::BeforeAppend => "before append"@,
            FaultPoint::AfterAppend => "after append"@,
            FaultPoint::BeforeFlush => "before flush"@,
            FaultPoint::AfterFlush => "after flush"@,
            FaultPoint::BeforeReclamationCandidateCleanup =>
                "before reclamation candidate cleanup"@,
            FaultPoint::BeforeReclamationWrite => "before reclamation candidate write"@,
            FaultPoint::DuringReclamationCopy => "during reclamation copy"@,
            FaultPoint::BeforeReclamationCandidateSync => "before reclamation candidate sync"@,
            FaultPoint::AfterReclamationCandidateSync => "after reclamation candidate sync"@,
            FaultPoint::BeforeReclamationRename => "before reclamation candidate rename"@,
            FaultPoint::AfterReclamationRename => "after reclamation candidate rename"@,
            FaultPoint::DuringReclamationDirectorySync => "during reclamation directory sync"@,
        }
    }

    /// The name of the boundary.
    pub fn message(&self) -> (message: String)
        ensures
            message@ == self.spec_message(),
    {
        match self {
            FaultPoint::BeforeAppend => sentence("before append"),
            FaultPoint::AfterAppend => sentence("after append"),
            FaultPoint::BeforeFlush => sentence("before flush"),
            FaultPoint::AfterFlush => sentence("after flush"),
            FaultPoint::BeforeReclamationCandidateCleanup => {
                sentence("before reclamation candidate cleanup")
            },
            FaultPoint::BeforeReclamationWrite => sentence("before reclamation candidate write"),
            FaultPoint::DuringReclamationCopy => sentence("during reclamation copy"),
            FaultPoint::BeforeReclamationCandidateSync => {
                sentence("before reclamation candidate sync")
            },
            FaultPoint::AfterReclamationCandidateSync => {
                sentence("after reclamation candidate sync")
            },
            FaultPoint::BeforeReclamationRename => sentence("before reclamation candidate rename"),
            FaultPoint::AfterReclamationRename => sentence("after reclamation candidate rename"),
            FaultPoint::DuringReclamationDirectorySync => {
                sentence("during reclamation directory sync")
            },
        }
    }
}

/// Refusal to silently replace an already armed one-shot fault.
#[derive(Clone, Copy, Debug, PartialEq, Eq, Structural)]
pub struct FaultAlreadyArmed {
    pub armed: FaultPoint,
    pub requested: FaultPoint,
}

impl FaultAlreadyArmed {
    /// Returns the fault that remains armed.
    pub fn armed(&self) -> (armed: FaultPoint)
        ensures
            armed == self.armed,
    {
        self.armed
    }

    /// Returns the rejected replacement fault.
    pub fn requested(&self) -> (requested: FaultPoint)
        ensures
            requested == self.requested,
    {
        self.requested
    }

    pub open spec fn spec_message(self) -> Seq<char> {
        "fault "@ + self.armed.spec_message() + " is already armed; cannot arm "@
            + self.requested.spec_message()
    }

    /// A sentence that describes the refusal.
    pub fn message(&self) -> (message: String)
        ensures
            message@ == self.spec_message(),
    {
        let start: String = joined("fault ", &self.armed.message());
        let middle: String = joined(start.as_str(), &sentence(" is already armed; cannot arm "));
        joined(middle.as_str(), &self.requested.message())
    }
}

/// Page-width validation failure for page-capable v2 operations.
#[derive(Clone, Copy, Debug, PartialEq, Eq, Structural)]
pub enum FilePageWidthError {
    Zero,
    NotRepresentable { actual: usize },
}

impl FilePageWidthError {
    pub open spec fn spec_message(self) -> Seq<char> {
        match self {
            FilePageWidthError::Zero => "page width must be nonzero for the v2 file format"@,
            FilePageWidthError::NotRepresentable { actual } =>
                "page width "@ + decimal(actual as nat)
                    + " does not fit the persistent v2 file format"@,
        }
    }

    /// A sentence that describes the error.
    pub fn message(&self) -> (message: String)
        ensures
            message@ == self.spec_message(),
    {
        match self {
            FilePageWidthError::Zero => {
                sentence("page width must be nonzero for the v2 file format")
            },
            FilePageWidthError::NotRepresentable { actual } => {
                sentence_with(
                    "page width ",
                    *actual as u64,
                    " does not fit the persistent v2 file format",
                )
            },
        }
    }
}

/// Exact I/O boundary that reported failure.
#[derive(Clone, Copy, Debug, PartialEq, Eq, Structural)]
pub enum FileIoStage {
    CreateFile,
    OpenFile,
    AcquireExclusiveLock,
    OpenParentDirectory,
    ReadMetadata,
    ReadHeader,
    ReadFrame,
    WriteHeader,
    SyncCreatedFile,
    SyncOpenedFile,
    SyncParentDirectory,
    TruncateIncompleteTail,
    SyncTruncatedTail,
    SeekEnd,
    WriteEpochFrame,
    SyncEpochFrame,
    WriteCommitFrame,
    WritePageHeaderFrame,
    WriteTransactionPageHeaderFrame,
    WriteTransactionPageOwnerFrame,
    WritePageDataFrame,
    SyncCommitPrefix,
    WriteDurableMarker,
    SyncDurableMarker,
    ReadReclamationCandidateMetadata,
    RemoveReclamationCandidate,
    CreateReclamationCandidate,
    AcquireReclamationCandidateLock,
    WriteReclamationHeader,
    WriteReclamationFrame,
    SyncReclamationCandidate,
    RenameReclamationCandidate,
    SyncReclamationDirectory,
}

impl FileIoStage {
    pub open spec fn spec_message(self) -> Seq<char> {
        match self {
            FileIoStage::CreateFile => "creating the commit-log file"@,
            FileIoStage::OpenFile => "opening the commit-log file"@,
            FileIoStage::AcquireExclusiveLock => "acquiring the exclusive commit-log file lock"@,
            FileIoStage::OpenParentDirectory => "opening the parent directory"@,
            FileIoStage::ReadMetadata => "reading commit-log metadata"@,
            FileIoStage::ReadHeader => "reading the commit-log header"@,
            FileIoStage::ReadFrame => "reading a commit-log frame"@,
            FileIoStage::WriteHeader => "writing the commit-log header"@,
            FileIoStage::SyncCreatedFile => "synchronizing the created file"@,
            FileIoStage::SyncOpenedFile => "synchronizing the opened file"@,
            FileIoStage::SyncParentDirectory => "synchronizing the parent directory"@,
            FileIoStage::TruncateIncompleteTail => "truncating an incomplete tail frame or record"@,
            FileIoStage::SyncTruncatedTail => "synchronizing a repaired file tail"@,
            FileIoStage::SeekEnd => "seeking to the end of the commit-log file"@,
            FileIoStage::WriteEpochFrame => "writing an epoch-allocation frame"@,
            FileIoStage::SyncEpochFrame => "synchronizing an epoch-allocation frame"@,
            FileIoStage::WriteCommitFrame => "writing a commit frame"@,
            FileIoStage::WritePageHeaderFrame => "writing a page-header frame"@,
            FileIoStage::WriteTransactionPageHeaderFrame =>
                "writing a transaction-page-header frame"@,
            FileIoStage::WriteTransactionPageOwnerFrame =>
                "writing a transaction-page-owner frame"@,
            FileIoStage::WritePageDataFrame => "writing a page-data frame"@,
            FileIoStage::SyncCommitPrefix => "synchronizing the requested durable prefix"@,
            FileIoStage::WriteDurableMarker => "writing a durable-through marker"@,
            FileIoStage::SyncDurableMarker => "synchronizing a durable-through marker"@,
            FileIoStage::ReadReclamationCandidateMetadata =>
                "reading reclamation candidate metadata"@,
            FileIoStage::RemoveReclamationCandidate => "removing the fixed reclamation candidate"@,
            FileIoStage::CreateReclamationCandidate => "creating the fixed reclamation candidate"@,
            FileIoStage::AcquireReclamationCandidateLock =>
                "acquiring the reclamation candidate lock"@,
            FileIoStage::WriteReclamationHeader => "writing the reclaimed WAL header"@,
            FileIoStage::WriteReclamationFrame => "writing a retained reclamation frame"@,
            FileIoStage::SyncReclamationCandidate => "synchronizing the reclamation candidate"@,
            FileIoStage::RenameReclamationCandidate =>
                "renaming the reclamation candidate over the selected WAL"@,
            FileIoStage::SyncReclamationDirectory =>
                "synchronizing the reclamation parent directory"@,
        }
    }

    /// What was being done.
    pub fn message(&self) -> (message: String)
        ensures
            message@ == self.spec_message(),
    {
        match self {
            FileIoStage::CreateFile => sentence("creating the commit-log file"),
            FileIoStage::OpenFile => sentence("opening the commit-log file"),
            FileIoStage::AcquireExclusiveLock => {
                sentence("acquiring the exclusive commit-log file lock")
            },
            FileIoStage::OpenParentDirectory => sentence("opening the parent directory"),
            FileIoStage::ReadMetadata => sentence("reading commit-log metadata"),
            FileIoStage::ReadHeader => sentence("reading the commit-log header"),
            FileIoStage::ReadFrame => sentence("reading a commit-log frame"),
            FileIoStage::WriteHeader => sentence("writing the commit-log header"),
            FileIoStage::SyncCreatedFile => sentence("synchronizing the created file"),
            FileIoStage::SyncOpenedFile => sentence("synchronizing the opened file"),
            FileIoStage::SyncParentDirectory => sentence("synchronizing the parent directory"),
            FileIoStage::TruncateIncompleteTail => {
                sentence("truncating an incomplete tail frame or record")
            },
            FileIoStage::SyncTruncatedTail => sentence("synchronizing a repaired file tail"),
            FileIoStage::SeekEnd => sentence("seeking to the end of the commit-log file"),
            FileIoStage::WriteEpochFrame => sentence("writing an epoch-allocation frame"),
            FileIoStage::SyncEpochFrame => sentence("synchronizing an epoch-allocation frame"),
            FileIoStage::WriteCommitFrame => sentence("writing a commit frame"),
            FileIoStage::WritePageHeaderFrame => sentence("writing a page-header frame"),
            FileIoStage::WriteTransactionPageHeaderFrame => {
                sentence("writing a transaction-page-header frame")
            },
            FileIoStage::WriteTransactionPageOwnerFrame => {
                sentence("writing a transaction-page-owner frame")
            },
            FileIoStage::WritePageDataFrame => sentence("writing a page-data frame"),
            FileIoStage::SyncCommitPrefix => sentence("synchronizing the requested durable prefix"),
            FileIoStage::WriteDurableMarker => sentence("writing a durable-through marker"),
            FileIoStage::SyncDurableMarker => sentence("synchronizing a durable-through marker"),
            FileIoStage::ReadReclamationCandidateMetadata => {
                sentence("reading reclamation candidate metadata")
            },
            FileIoStage::RemoveReclamationCandidate => {
                sentence("removing the fixed reclamation candidate")
            },
            FileIoStage::CreateReclamationCandidate => {
                sentence("creating the fixed reclamation candidate")
            },
            FileIoStage::AcquireReclamationCandidateLock => {
                sentence("acquiring the reclamation candidate lock")
            },
            FileIoStage::WriteReclamationHeader => sentence("writing the reclaimed WAL header"),
            FileIoStage::WriteReclamationFrame => sentence("writing a retained reclamation frame"),
            FileIoStage::SyncReclamationCandidate => {
                sentence("synchronizing the reclamation candidate")
            },
            FileIoStage::RenameReclamationCandidate => {
                sentence("renaming the reclamation candidate over the selected WAL")
            },
            FileIoStage::SyncReclamationDirectory => {
                sentence("synchronizing the reclamation parent directory")
            },
        }
    }
}

/// I/O failure paired with the exact stage that reported it.
#[derive(Debug)]
pub struct FileIoError {
    pub stage: FileIoStage,
    pub source: std::io::Error,
}

impl FileIoError {
    pub fn new(stage: FileIoStage, source: std::io::Error) -> (error: FileIoError)
        ensures
            error == (FileIoError { stage, source }),
    {
        FileIoError { stage, source }
    }

    /// Returns the stage that reported the I/O error.
    pub fn stage(&self) -> (stage: FileIoStage)
        ensures
            stage == self.stage,
    {
        self.stage
    }

    /// The error that the operating system reported.
    pub fn io_source(&self) -> (source: &std::io::Error)
        ensures
            *source == self.source,
    {
        &self.source
    }

    /// What precedes the operating system's own words in the description.
    pub open spec fn spec_message_start(self) -> Seq<char> {
        self.stage.spec_message() + " failed: "@
    }

    /// A sentence that ends with the operating system's description.
    pub fn message(&self) -> (message: String)
        ensures
            self.spec_message_start().is_prefix_of(message@),
    {
        let message: String = failure_message(&self.stage.message(), &io_error_text(&self.source));
        assert(message@.subrange(0, self.spec_message_start().len() as int)
            =~= self.spec_message_start());
        message
    }
}

impl PartialEq for FileIoError {
    fn eq(&self, other: &Self) -> (same: bool)
        ensures
            same ==> self.stage == other.stage,
    {
        self.stage == other.stage && same_io_error(&self.source, &other.source)
    }
}

/// Equality of two I/O failures also depends on what the operating system
/// reported, so no mathematical meaning is given to it.
impl vstd::std_specs::cmp::PartialEqSpecImpl for FileIoError {
    open spec fn obeys_eq_spec() -> bool {
        false
    }

    open spec fn eq_spec(&self, other: &Self) -> bool {
        self.stage == other.stage
    }
}

impl Eq for FileIoError {

}

/// A payload field of a frame.
#[derive(Clone, Copy, Debug, PartialEq, Eq, Structural)]
pub enum FramePayloadField {
    Payload1,
    Payload2,
}

impl FramePayloadField {
    pub open spec fn spec_message(self) -> Seq<char> {
        match self {
            FramePayloadField::Payload1 => "payload1"@,
            FramePayloadField::Payload2 => "payload2"@,
        }
    }

    /// The name of the field.
    pub fn message(&self) -> (message: String)
        ensures
            message@ == self.spec_message(),
    {
        match self {
            FramePayloadField::Payload1 => sentence("payload1"),
            FramePayloadField::Payload2 => sentence("payload2"),
        }
    }
}

/// Exact reason why a commit-log file is malformed.
#[derive(Clone, Copy, Debug, PartialEq, Eq, Structural)]
pub enum FileFormatErrorReason {
    HeaderTooShort {
        actual: u64,
    },
    HeaderMagic,
    HeaderVersion {
        actual: u16,
    },
    HeaderLength {
        actual: u16,
    },
    HeaderV4Length {
        actual: u16,
    },
    HeaderV5Length {
        actual: u16,
    },
    HeaderFlags {
        actual: u32,
    },
    HeaderPageWidthZero,
    HeaderPageWidthMismatch {
        expected: u64,
        actual: u64,
    },
    HeaderReserved,
    HeaderV4GenerationZero,
    HeaderV4RetainedFirstPresence {
        actual: u8,
    },
    HeaderV4LogicalHighWaterPresence {
        actual: u8,
    },
    HeaderV4RetainedFirstZero,
    HeaderV4LogicalHighWaterZero,
    HeaderV4RetainedFirstWithoutHighWater,
    HeaderV4RetainedFirstBeyondHighWater {
        retained_first: u64,
        high_water: u64,
    },
    HeaderV4AllocatedEpochHighWaterZero,
    HeaderV4AnchorVersionZero,
    HeaderV4Reserved,
    HeaderV5ReclamationPresence {
        actual: u8,
    },
    HeaderDatabaseChildIdentity(DatabaseChildIdentityDecodeErrorReason),
    HeaderV4RetainedFirstMismatch {
        expected: Option<u64>,
        actual: Option<u64>,
    },
    HeaderV4LogicalHighWaterMismatch {
        expected: Option<u64>,
        actual: Option<u64>,
    },
    HeaderChecksum {
        expected: u64,
        actual: u64,
    },
    LineageIdZero,
    FrameMagic,
    FrameKind {
        actual: u16,
    },
    FrameVersion {
        actual: u16,
    },
    FrameLength {
        actual: u16,
    },
    FrameFlags {
        actual: u32,
    },
    FrameReserved,
    FrameChecksum {
        expected: u64,
        actual: u64,
    },
    UnexpectedNonzeroPayload {
        field: FramePayloadField,
        actual: u64,
    },
    EpochValueZero,
    EpochOutOfSequence {
        expected: u64,
        actual: u64,
    },
    EpochSpaceExhausted,
    CommitPositionZero,
    CommitPositionOutOfSequence {
        expected: u64,
        actual: u64,
    },
    CommitPositionSpaceExhausted,
    CommitEpochZero,
    CommitEpochUnallocated {
        actual: u64,
        highest_allocated: u64,
    },
    CommitSequenceZero,
    DuplicateTransactionIdentity {
        epoch: u64,
        sequence: u64,
    },
    MarkerPositionZero,
    MarkerDoesNotAdvance {
        previous: u64,
        actual: u64,
    },
    MarkerReferencesUnknownCommit {
        actual: u64,
        highest_committed: u64,
    },
    PageHeaderPositionZero,
    PageHeaderPositionOutOfSequence {
        expected: u64,
        actual: u64,
    },
    PageHeaderPositionSpaceExhausted,
    PageNumberZero,
    TransactionPageOwnerWithoutHeader,
    TransactionPageOwnerInterruptedByFrameKind {
        actual: u16,
    },
    TransactionPageOwnerDuplicate,
    TransactionPageOwnerParentPositionZero,
    TransactionPageOwnerParentMismatch {
        expected: u64,
        actual: u64,
    },
    TransactionPageOwnerEpochZero,
    TransactionPageOwnerEpochUnallocated {
        actual: u64,
        highest_allocated: u64,
    },
    TransactionPageOwnerSequenceZero,
    TransactionPageOwnerMissing,
    PageDataWithoutHeader,
    PageDataParentPositionZero,
    PageDataParentMismatch {
        expected: u64,
        actual: u64,
    },
    PageDataChunkIndexOutOfSequence {
        expected: u64,
        actual: u64,
    },
    PageDataInterruptedByFrameKind {
        actual: u16,
    },
    PageDataFinalPaddingNonzero,
}

impl FileFormatErrorReason {
    pub open spec fn spec_message(self) -> Seq<char> {
        match self {
            FileFormatErrorReason::HeaderTooShort { actual } =>
                "header is shorter than 64 bytes: found "@ + decimal(actual as nat),
            FileFormatErrorReason::HeaderMagic => "header magic does not match ntsql format"@,
            FileFormatErrorReason::HeaderVersion { actual } =>
                "unsupported header version "@ + decimal(actual as nat),
            FileFormatErrorReason::HeaderLength { actual } =>
                "header length "@ + decimal(actual as nat) + " does not equal 64"@,
            FileFormatErrorReason::HeaderV4Length { actual } =>
                "v4 header length "@ + decimal(actual as nat) + " does not equal 128"@,
            FileFormatErrorReason::HeaderV5Length { actual } =>
                "v5 header length "@ + decimal(actual as nat) + " does not equal 192"@,
            FileFormatErrorReason::HeaderFlags { actual } =>
                "header flags are nonzero: "@ + decimal(actual as nat),
            FileFormatErrorReason::HeaderPageWidthZero => "v2 header page width is zero"@,
            FileFormatErrorReason::HeaderPageWidthMismatch { expected, actual } =>
                "v2 header page width "@ + decimal(actual as nat)
                    + " does not equal required width "@ + decimal(expected as nat),
            FileFormatErrorReason::HeaderReserved => "header reserved bytes are nonzero"@,
            FileFormatErrorReason::HeaderV4GenerationZero => "v4 WAL generation is zero"@,
            FileFormatErrorReason::HeaderV4RetainedFirstPresence { actual } =>
                "v4 retained-first presence byte is not canonical: "@ + decimal(actual as nat),
            FileFormatErrorReason::HeaderV4LogicalHighWaterPresence { actual } =>
                "v4 logical-high-water presence byte is not canonical: "@ + decimal(actual as nat),
            FileFormatErrorReason::HeaderV4RetainedFirstZero =>
                "v4 retained-first position is zero"@,
            FileFormatErrorReason::HeaderV4LogicalHighWaterZero => "v4 logical high-water is zero"@,
            FileFormatErrorReason::HeaderV4RetainedFirstWithoutHighWater =>
                "v4 retained-first exists without a logical high-water"@,
            FileFormatErrorReason::HeaderV4RetainedFirstBeyondHighWater {
                retained_first,
                high_water,
            } =>
                "v4 retained-first position "@ + decimal(retained_first as nat)
                    + " exceeds logical high-water "@ + decimal(high_water as nat),
            FileFormatErrorReason::HeaderV4AllocatedEpochHighWaterZero =>
                "v4 allocated epoch high-water is zero"@,
            FileFormatErrorReason::HeaderV4AnchorVersionZero =>
                "v4 selected-checkpoint anchor version is zero"@,
            FileFormatErrorReason::HeaderV4Reserved => "v4 header reserved bytes are nonzero"@,
            FileFormatErrorReason::HeaderV5ReclamationPresence { actual } =>
                "v5 reclamation-metadata presence byte is not canonical: "@
                    + decimal(actual as nat),
            FileFormatErrorReason::HeaderDatabaseChildIdentity(source) => source.spec_message(),
            FileFormatErrorReason::HeaderV4RetainedFirstMismatch { expected, actual } =>
                "v4 retained-first metadata "@ + optional_decimal(expected)
                    + " does not match retained records "@ + optional_decimal(actual),
            FileFormatErrorReason::HeaderV4LogicalHighWaterMismatch { expected, actual } =>
                "v4 logical high-water metadata "@ + optional_decimal(expected)
                    + " does not match durable records "@ + optional_decimal(actual),
            FileFormatErrorReason::HeaderChecksum { expected, actual } =>
                "header checksum mismatch: expected "@ + hex64(expected) + ", found "@
                    + hex64(actual),
            FileFormatErrorReason::LineageIdZero => "persistent lineage ID is zero"@,
            FileFormatErrorReason::FrameMagic => "frame magic does not match ntsql format"@,
            FileFormatErrorReason::FrameKind { actual } =>
                "unknown frame kind "@ + decimal(actual as nat),
            FileFormatErrorReason::FrameVersion { actual } =>
                "unsupported frame version "@ + decimal(actual as nat),
            FileFormatErrorReason::FrameLength { actual } =>
                "frame length "@ + decimal(actual as nat) + " does not equal 56"@,
            FileFormatErrorReason::FrameFlags { actual } =>
                "frame flags are nonzero: "@ + decimal(actual as nat),
            FileFormatErrorReason::FrameReserved => "frame reserved bytes are nonzero"@,
            FileFormatErrorReason::FrameChecksum { expected, actual } =>
                "frame checksum mismatch: expected "@ + hex64(expected) + ", found "@
                    + hex64(actual),
            FileFormatErrorReason::UnexpectedNonzeroPayload { field, actual } =>
                "payload field "@ + field.spec_message()
                    + " is nonzero when the frame kind requires zero: "@ + decimal(actual as nat),
            FileFormatErrorReason::EpochValueZero => "epoch allocation is zero"@,
            FileFormatErrorReason::EpochOutOfSequence { expected, actual } =>
                "epoch allocation "@ + decimal(actual as nat)
                    + " does not equal the next contiguous epoch "@ + decimal(expected as nat),
            FileFormatErrorReason::EpochSpaceExhausted =>
                "found another epoch allocation after the maximum persisted epoch was already used"@,
            FileFormatErrorReason::CommitPositionZero => "commit position is zero"@,
            FileFormatErrorReason::CommitPositionOutOfSequence { expected, actual } =>
                "commit position "@ + decimal(actual as nat)
                    + " does not equal the next contiguous position "@ + decimal(expected as nat),
            FileFormatErrorReason::CommitPositionSpaceExhausted =>
                "found another commit record after the maximum persisted position was already used"@,
            FileFormatErrorReason::CommitEpochZero => "commit epoch is zero"@,
            FileFormatErrorReason::CommitEpochUnallocated { actual, highest_allocated } =>
                "commit epoch "@ + decimal(actual as nat)
                    + " was never allocated; highest allocated epoch is "@
                    + decimal(highest_allocated as nat),
            FileFormatErrorReason::CommitSequenceZero => "commit sequence is zero"@,
            FileFormatErrorReason::DuplicateTransactionIdentity { epoch, sequence } =>
                "duplicate transaction identity "@ + decimal(epoch as nat) + ":"@
                    + decimal(sequence as nat),
            FileFormatErrorReason::MarkerPositionZero => "durable-through marker position is zero"@,
            FileFormatErrorReason::MarkerDoesNotAdvance { previous, actual } =>
                "durable-through marker "@ + decimal(actual as nat) + " does not advance past "@
                    + decimal(previous as nat),
            FileFormatErrorReason::MarkerReferencesUnknownCommit { actual, highest_committed } =>
                "durable-through marker "@ + decimal(actual as nat)
                    + " does not reference an earlier completed record; highest completed position is "@
                    + decimal(highest_committed as nat),
            FileFormatErrorReason::PageHeaderPositionZero => "page header position is zero"@,
            FileFormatErrorReason::PageHeaderPositionOutOfSequence { expected, actual } =>
                "page header position "@ + decimal(actual as nat)
                    + " does not equal the next contiguous position "@ + decimal(expected as nat),
            FileFormatErrorReason::PageHeaderPositionSpaceExhausted =>
                "found another page record after the maximum persisted position was already used"@,
            FileFormatErrorReason::PageNumberZero => "page header page number is zero"@,
            FileFormatErrorReason::TransactionPageOwnerWithoutHeader =>
                "transaction-page owner frame has no pending transaction-page header"@,
            FileFormatErrorReason::TransactionPageOwnerInterruptedByFrameKind { actual } =>
                "transaction-page record expected an owner frame but found frame kind "@
                    + decimal(actual as nat),
            FileFormatErrorReason::TransactionPageOwnerDuplicate =>
                "transaction-page record has more than one owner frame"@,
            FileFormatErrorReason::TransactionPageOwnerParentPositionZero =>
                "transaction-page owner parent position is zero"@,
            FileFormatErrorReason::TransactionPageOwnerParentMismatch { expected, actual } =>
                "transaction-page owner parent position "@ + decimal(actual as nat)
                    + " does not match pending page position "@ + decimal(expected as nat),
            FileFormatErrorReason::TransactionPageOwnerEpochZero =>
                "transaction-page owner epoch is zero"@,
            FileFormatErrorReason::TransactionPageOwnerEpochUnallocated {
                actual,
                highest_allocated,
            } =>
                "transaction-page owner epoch "@ + decimal(actual as nat)
                    + " was never allocated; highest allocated epoch is "@
                    + decimal(highest_allocated as nat),
            FileFormatErrorReason::TransactionPageOwnerSequenceZero =>
                "transaction-page owner sequence is zero"@,
            FileFormatErrorReason::TransactionPageOwnerMissing =>
                "transaction-page record is missing its owner"@,
            FileFormatErrorReason::PageDataWithoutHeader =>
                "page data frame has no pending page header"@,
            FileFormatErrorReason::PageDataParentPositionZero =>
                "page data frame parent position is zero"@,
            FileFormatErrorReason::PageDataParentMismatch { expected, actual } =>
                "page data frame parent position "@ + decimal(actual as nat)
                    + " does not match pending page position "@ + decimal(expected as nat),
            FileFormatErrorReason::PageDataChunkIndexOutOfSequence { expected, actual } =>
                "page data chunk index "@ + decimal(actual as nat)
                    + " does not equal required contiguous chunk "@ + decimal(expected as nat),
            FileFormatErrorReason::PageDataInterruptedByFrameKind { actual } =>
                "page record expected a page-data frame but found frame kind "@
                    + decimal(actual as nat),
            FileFormatErrorReason::PageDataFinalPaddingNonzero =>
                "page data frame final-chunk padding bytes are nonzero"@,
        }
    }

    /// A sentence that describes the reason.
    pub fn message(&self) -> (message: String)
        ensures
            message@ == self.spec_message(),
    {
        match self {
            FileFormatErrorReason::HeaderTooShort { actual } => {
                sentence_ending("header is shorter than 64 bytes: found ", *actual)
            },
            FileFormatErrorReason::HeaderMagic => {
                sentence("header magic does not match ntsql format")
            },
            FileFormatErrorReason::HeaderVersion { actual } => {
                sentence_ending("unsupported header version ", *actual as u64)
            },
            FileFormatErrorReason::HeaderLength { actual } => {
                sentence_with("header length ", *actual as u64, " does not equal 64")
            },
            FileFormatErrorReason::HeaderV4Length { actual } => {
                sentence_with("v4 header length ", *actual as u64, " does not equal 128")
            },
            FileFormatErrorReason::HeaderV5Length { actual } => {
                sentence_with("v5 header length ", *actual as u64, " does not equal 192")
            },
            FileFormatErrorReason::HeaderFlags { actual } => {
                sentence_ending("header flags are nonzero: ", *actual as u64)
            },
            FileFormatErrorReason::HeaderPageWidthZero => sentence("v2 header page width is zero"),
            FileFormatErrorReason::HeaderPageWidthMismatch { expected, actual } => {
                sentence_ending_two(
                    "v2 header page width ",
                    *actual,
                    " does not equal required width ",
                    *expected,
                )
            },
            FileFormatErrorReason::HeaderReserved => sentence("header reserved bytes are nonzero"),
            FileFormatErrorReason::HeaderV4GenerationZero => sentence("v4 WAL generation is zero"),
            FileFormatErrorReason::HeaderV4RetainedFirstPresence { actual } => {
                sentence_ending(
                    "v4 retained-first presence byte is not canonical: ",
                    *actual as u64,
                )
            },
            FileFormatErrorReason::HeaderV4LogicalHighWaterPresence { actual } => {
                sentence_ending(
                    "v4 logical-high-water presence byte is not canonical: ",
                    *actual as u64,
                )
            },
            FileFormatErrorReason::HeaderV4RetainedFirstZero => {
                sentence("v4 retained-first position is zero")
            },
            FileFormatErrorReason::HeaderV4LogicalHighWaterZero => {
                sentence("v4 logical high-water is zero")
            },
            FileFormatErrorReason::HeaderV4RetainedFirstWithoutHighWater => {
                sentence("v4 retained-first exists without a logical high-water")
            },
            FileFormatErrorReason::HeaderV4RetainedFirstBeyondHighWater {
                retained_first,
                high_water,
            } => {
                sentence_ending_two(
                    "v4 retained-first position ",
                    *retained_first,
                    " exceeds logical high-water ",
                    *high_water,
                )
            },
            FileFormatErrorReason::HeaderV4AllocatedEpochHighWaterZero => {
                sentence("v4 allocated epoch high-water is zero")
            },
            FileFormatErrorReason::HeaderV4AnchorVersionZero => {
                sentence("v4 selected-checkpoint anchor version is zero")
            },
            FileFormatErrorReason::HeaderV4Reserved => {
                sentence("v4 header reserved bytes are nonzero")
            },
            FileFormatErrorReason::HeaderV5ReclamationPresence { actual } => {
                sentence_ending(
                    "v5 reclamation-metadata presence byte is not canonical: ",
                    *actual as u64,
                )
            },
            FileFormatErrorReason::HeaderDatabaseChildIdentity(source) => source.message(),
            FileFormatErrorReason::HeaderV4RetainedFirstMismatch { expected, actual } => {
                sentence_with_options(
                    "v4 retained-first metadata ",
                    *expected,
                    " does not match retained records ",
                    *actual,
                )
            },
            FileFormatErrorReason::HeaderV4LogicalHighWaterMismatch { expected, actual } => {
                sentence_with_options(
                    "v4 logical high-water metadata ",
                    *expected,
                    " does not match durable records ",
                    *actual,
                )
            },
            FileFormatErrorReason::HeaderChecksum { expected, actual } => {
                sentence_with_checksums(
                    "header checksum mismatch: expected ",
                    *expected,
                    ", found ",
                    *actual,
                )
            },
            FileFormatErrorReason::LineageIdZero => sentence("persistent lineage ID is zero"),
            FileFormatErrorReason::FrameMagic => {
                sentence("frame magic does not match ntsql format")
            },
            FileFormatErrorReason::FrameKind { actual } => {
                sentence_ending("unknown frame kind ", *actual as u64)
            },
            FileFormatErrorReason::FrameVersion { actual } => {
                sentence_ending("unsupported frame version ", *actual as u64)
            },
            FileFormatErrorReason::FrameLength { actual } => {
                sentence_with("frame length ", *actual as u64, " does not equal 56")
            },
            FileFormatErrorReason::FrameFlags { actual } => {
                sentence_ending("frame flags are nonzero: ", *actual as u64)
            },
            FileFormatErrorReason::FrameReserved => sentence("frame reserved bytes are nonzero"),
            FileFormatErrorReason::FrameChecksum { expected, actual } => {
                sentence_with_checksums(
                    "frame checksum mismatch: expected ",
                    *expected,
                    ", found ",
                    *actual,
                )
            },
            FileFormatErrorReason::UnexpectedNonzeroPayload { field, actual } => {
                let start: String = joined("payload field ", &field.message());
                let mut message: String = joined(
                    start.as_str(),
                    &sentence(" is nonzero when the frame kind requires zero: "),
                );
                append_decimal(&mut message, *actual);
                message
            },
            FileFormatErrorReason::EpochValueZero => sentence("epoch allocation is zero"),
            FileFormatErrorReason::EpochOutOfSequence { expected, actual } => {
                sentence_ending_two(
                    "epoch allocation ",
                    *actual,
                    " does not equal the next contiguous epoch ",
                    *expected,
                )
            },
            FileFormatErrorReason::EpochSpaceExhausted => {
                sentence(
                    "found another epoch allocation after the maximum persisted epoch was already used",
                )
            },
            FileFormatErrorReason::CommitPositionZero => sentence("commit position is zero"),
            FileFormatErrorReason::CommitPositionOutOfSequence { expected, actual } => {
                sentence_ending_two(
                    "commit position ",
                    *actual,
                    " does not equal the next contiguous position ",
                    *expected,
                )
            },
            FileFormatErrorReason::CommitPositionSpaceExhausted => {
                sentence(
                    "found another commit record after the maximum persisted position was already used",
                )
            },
            FileFormatErrorReason::CommitEpochZero => sentence("commit epoch is zero"),
            FileFormatErrorReason::CommitEpochUnallocated { actual, highest_allocated } => {
                sentence_ending_two(
                    "commit epoch ",
                    *actual,
                    " was never allocated; highest allocated epoch is ",
                    *highest_allocated,
                )
            },
            FileFormatErrorReason::CommitSequenceZero => sentence("commit sequence is zero"),
            FileFormatErrorReason::DuplicateTransactionIdentity { epoch, sequence } => {
                sentence_ending_two("duplicate transaction identity ", *epoch, ":", *sequence)
            },
            FileFormatErrorReason::MarkerPositionZero => {
                sentence("durable-through marker position is zero")
            },
            FileFormatErrorReason::MarkerDoesNotAdvance { previous, actual } => {
                sentence_ending_two(
                    "durable-through marker ",
                    *actual,
                    " does not advance past ",
                    *previous,
                )
            },
            FileFormatErrorReason::MarkerReferencesUnknownCommit { actual, highest_committed } => {
                sentence_ending_two(
                    "durable-through marker ",
                    *actual,
                    " does not reference an earlier completed record; highest completed position is ",
                    *highest_committed,
                )
            },
            FileFormatErrorReason::PageHeaderPositionZero => {
                sentence("page header position is zero")
            },
            FileFormatErrorReason::PageHeaderPositionOutOfSequence { expected, actual } => {
                sentence_ending_two(
                    "page header position ",
                    *actual,
                    " does not equal the next contiguous position ",
                    *expected,
                )
            },
            FileFormatErrorReason::PageHeaderPositionSpaceExhausted => {
                sentence(
                    "found another page record after the maximum persisted position was already used",
                )
            },
            FileFormatErrorReason::PageNumberZero => sentence("page header page number is zero"),
            FileFormatErrorReason::TransactionPageOwnerWithoutHeader => {
                sentence("transaction-page owner frame has no pending transaction-page header")
            },
            FileFormatErrorReason::TransactionPageOwnerInterruptedByFrameKind { actual } => {
                sentence_ending(
                    "transaction-page record expected an owner frame but found frame kind ",
                    *actual as u64,
                )
            },
            FileFormatErrorReason::TransactionPageOwnerDuplicate => {
                sentence("transaction-page record has more than one owner frame")
            },
            FileFormatErrorReason::TransactionPageOwnerParentPositionZero => {
                sentence("transaction-page owner parent position is zero")
            },
            FileFormatErrorReason::TransactionPageOwnerParentMismatch { expected, actual } => {
                sentence_ending_two(
                    "transaction-page owner parent position ",
                    *actual,
                    " does not match pending page position ",
                    *expected,
                )
            },
            FileFormatErrorReason::TransactionPageOwnerEpochZero => {
                sentence("transaction-page owner epoch is zero")
            },
            FileFormatErrorReason::TransactionPageOwnerEpochUnallocated {
                actual,
                highest_allocated,
            } => {
                sentence_ending_two(
                    "transaction-page owner epoch ",
                    *actual,
                    " was never allocated; highest allocated epoch is ",
                    *highest_allocated,
                )
            },
            FileFormatErrorReason::TransactionPageOwnerSequenceZero => {
                sentence("transaction-page owner sequence is zero")
            },
            FileFormatErrorReason::TransactionPageOwnerMissing => {
                sentence("transaction-page record is missing its owner")
            },
            FileFormatErrorReason::PageDataWithoutHeader => {
                sentence("page data frame has no pending page header")
            },
            FileFormatErrorReason::PageDataParentPositionZero => {
                sentence("page data frame parent position is zero")
            },
            FileFormatErrorReason::PageDataParentMismatch { expected, actual } => {
                sentence_ending_two(
                    "page data frame parent position ",
                    *actual,
                    " does not match pending page position ",
                    *expected,
                )
            },
            FileFormatErrorReason::PageDataChunkIndexOutOfSequence { expected, actual } => {
                sentence_ending_two(
                    "page data chunk index ",
                    *actual,
                    " does not equal required contiguous chunk ",
                    *expected,
                )
            },
            FileFormatErrorReason::PageDataInterruptedByFrameKind { actual } => {
                sentence_ending(
                    "page record expected a page-data frame but found frame kind ",
                    *actual as u64,
                )
            },
            FileFormatErrorReason::PageDataFinalPaddingNonzero => {
                sentence("page data frame final-chunk padding bytes are nonzero")
            },
        }
    }
}

/// Malformed-format error paired with the byte offset that reported it.
#[derive(Clone, Copy, Debug, PartialEq, Eq, Structural)]
pub struct FileFormatError {
    pub offset: u64,
    pub reason: FileFormatErrorReason,
}

impl FileFormatError {
    pub fn new(offset: u64, reason: FileFormatErrorReason) -> (error: FileFormatError)
        ensures
            error == (FileFormatError { offset, reason }),
    {
        FileFormatError { offset, reason }
    }

    /// Returns the byte offset that reported the format error.
    pub fn offset(&self) -> (offset: u64)
        ensures
            offset == self.offset,
    {
        self.offset
    }

    /// Returns the exact malformed-format reason.
    pub fn reason(&self) -> (reason: &FileFormatErrorReason)
        ensures
            *reason == self.reason,
    {
        &self.reason
    }

    pub open spec fn spec_message(self) -> Seq<char> {
        "format error at byte "@ + decimal(self.offset as nat) + ": "@
            + self.reason.spec_message()
    }

    /// A sentence that describes the error.
    pub fn message(&self) -> (message: String)
        ensures
            message@ == self.spec_message(),
    {
        let start: String = sentence_with("format error at byte ", self.offset, ": ");
        joined(start.as_str(), &self.reason.message())
    }
}

/// Failure while creating a new file commit log.
#[derive(Debug, PartialEq, Eq)]
pub enum FileCreateError {
    MissingParentDirectory,
    PageWidth(FilePageWidthError),
    Io(FileIoError),
}

impl FileCreateError {
    /// The sentence, up to the operating system's own words.
    pub open spec fn spec_message(self) -> Seq<char> {
        match self {
            FileCreateError::MissingParentDirectory =>
                "commit-log path does not have an existing parent directory"@,
            FileCreateError::PageWidth(source) => source.spec_message(),
            FileCreateError::Io(source) => source.spec_message_start(),
        }
    }

    /// A sentence that describes the error.
    pub fn message(&self) -> (message: String)
        ensures
            self is Io ==> self.spec_message().is_prefix_of(message@),
            !(self is Io) ==> message@ == self.spec_message(),
    {
        match self {
            FileCreateError::MissingParentDirectory => {
                sentence("commit-log path does not have an existing parent directory")
            },
            FileCreateError::PageWidth(source) => source.message(),
            FileCreateError::Io(source) => source.message(),
        }
    }
}

/// Failure while opening an existing file commit log.
#[derive(Debug, PartialEq, Eq)]
pub enum FileOpenError {
    PageWidth(FilePageWidthError),
    Io(FileIoError),
    Format(FileFormatError),
    RecordCapacityExhausted,
}

impl FileOpenError {
    /// The sentence, up to the operating system's own words.
    pub open spec fn spec_message(self) -> Seq<char> {
        match self {
            FileOpenError::PageWidth(source) => source.spec_message(),
            FileOpenError::Format(source) => source.spec_message(),
            FileOpenError::RecordCapacityExhausted =>
                "commit-log record snapshot capacity is exhausted"@,
            FileOpenError::Io(source) => source.spec_message_start(),
        }
    }

    /// A sentence that describes the error.
    pub fn message(&self) -> (message: String)
        ensures
            self is Io ==> self.spec_message().is_prefix_of(message@),
            !(self is Io) ==> message@ == self.spec_message(),
    {
        match self {
            FileOpenError::PageWidth(source) => source.message(),
            FileOpenError::Format(source) => source.message(),
            FileOpenError::RecordCapacityExhausted => {
                sentence("commit-log record snapshot capacity is exhausted")
            },
            FileOpenError::Io(source) => source.message(),
        }
    }
}

/// Failure while executing a file-backed commit-log operation.
#[derive(Debug, PartialEq, Eq)]
pub enum FileCommitLogError {
    InjectedFault(FaultPoint),
    PageWidth(FilePageWidthError),
    PageSupportUnavailable,
    TransactionPageSupportUnavailable,
    PageWidthMismatch { expected: usize, actual: usize },
    ForeignPageLineage(PageNumber),
    Io(FileIoError),
    PoisonedWriter,
    UnknownFlushPosition(LogSequenceNumber),
    ForeignFlushPosition(LogSequenceNumber),
    RecordCapacityExhausted,
    PositionSpaceExhausted,
}

impl FileCommitLogError {
    /// The sentence, up to the operating system's own words.
    pub open spec fn spec_message(self) -> Seq<char> {
        match self {
            FileCommitLogError::InjectedFault(point) =>
                "injected commit-log failure "@ + point.spec_message(),
            FileCommitLogError::PageWidth(source) => source.spec_message(),
            FileCommitLogError::PageSupportUnavailable =>
                "this file commit-log format does not support page records"@,
            FileCommitLogError::TransactionPageSupportUnavailable =>
                "this file commit-log format does not support transaction-owned page records"@,
            FileCommitLogError::PageWidthMismatch { expected, actual } =>
                "page width "@ + decimal(actual as nat) + " does not match log page width "@
                    + decimal(expected as nat),
            FileCommitLogError::ForeignPageLineage(number) =>
                "commit-log page "@ + decimal(number@ as nat) + " belongs to another lineage"@,
            FileCommitLogError::PoisonedWriter =>
                "commit-log writer is poisoned; reopen the file before retrying"@,
            FileCommitLogError::UnknownFlushPosition(position) =>
                "commit-log position "@ + decimal(position.value as nat) + " was not appended"@,
            FileCommitLogError::ForeignFlushPosition(position) =>
                "commit-log position "@ + decimal(position.value as nat)
                    + " belongs to another lineage"@,
            FileCommitLogError::RecordCapacityExhausted =>
                "commit-log record snapshot capacity is exhausted"@,
            FileCommitLogError::PositionSpaceExhausted => "commit-log position space is exhausted"@,
            FileCommitLogError::Io(source) => source.spec_message_start(),
        }
    }

    /// A sentence that describes the error.
    pub fn message(&self) -> (message: String)
        ensures
            self is Io ==> self.spec_message().is_prefix_of(message@),
            !(self is Io) ==> message@ == self.spec_message(),
    {
        match self {
            FileCommitLogError::InjectedFault(point) => {
                joined("injected commit-log failure ", &point.message())
            },
            FileCommitLogError::PageWidth(source) => source.message(),
            FileCommitLogError::PageSupportUnavailable => {
                sentence("this file commit-log format does not support page records")
            },
            FileCommitLogError::TransactionPageSupportUnavailable => {
                sentence(
                    "this file commit-log format does not support transaction-owned page records",
                )
            },
            FileCommitLogError::PageWidthMismatch { expected, actual } => {
                sentence_ending_two(
                    "page width ",
                    *actual as u64,
                    " does not match log page width ",
                    *expected as u64,
                )
            },
            FileCommitLogError::ForeignPageLineage(number) => {
                sentence_with("commit-log page ", number.get(), " belongs to another lineage")
            },
            FileCommitLogError::PoisonedWriter => {
                sentence("commit-log writer is poisoned; reopen the file before retrying")
            },
            FileCommitLogError::UnknownFlushPosition(position) => {
                sentence_with("commit-log position ", position.get(), " was not appended")
            },
            FileCommitLogError::ForeignFlushPosition(position) => {
                sentence_with(
                    "commit-log position ",
                    position.get(),
                    " belongs to another lineage",
                )
            },
            FileCommitLogError::RecordCapacityExhausted => {
                sentence("commit-log record snapshot capacity is exhausted")
            },
            FileCommitLogError::PositionSpaceExhausted => {
                sentence("commit-log position space is exhausted")
            },
            FileCommitLogError::Io(source) => source.message(),
        }
    }
}

/// Failure to allocate a fresh transaction epoch from the file log.
#[derive(Debug, PartialEq, Eq)]
pub enum FileTransactionEpochError {
    Io(FileIoError),
    PoisonedWriter,
    EpochSpaceExhausted,
}

impl FileTransactionEpochError {
    /// The sentence, up to the operating system's own words.
    pub open spec fn spec_message(self) -> Seq<char> {
        match self {
            FileTransactionEpochError::PoisonedWriter =>
                "commit-log writer is poisoned; reopen the file before retrying"@,
            FileTransactionEpochError::EpochSpaceExhausted =>
                "transaction epoch space is exhausted"@,
            FileTransactionEpochError::Io(source) => source.spec_message_start(),
        }
    }

    /// A sentence that describes the error.
    pub fn message(&self) -> (message: String)
        ensures
            self is Io ==> self.spec_message().is_prefix_of(message@),
            !(self is Io) ==> message@ == self.spec_message(),
    {
        match self {
            FileTransactionEpochError::PoisonedWriter => {
                sentence("commit-log writer is poisoned; reopen the file before retrying")
            },
            FileTransactionEpochError::EpochSpaceExhausted => {
                sentence("transaction epoch space is exhausted")
            },
            FileTransactionEpochError::Io(source) => source.message(),
        }
    }
}

/// Failure to establish an authoritative recovery result from the file log.
#[derive(Clone, Copy, Debug, PartialEq, Eq, Structural)]
pub enum FileTransactionRecoveryError {
    PoisonedWriter,
    VolatileCommitRecord(TransactionId),
    DuplicateCommitRecord(TransactionId),
}

impl FileTransactionRecoveryError {
    pub open spec fn spec_message(self) -> Seq<char> {
        match self {
            FileTransactionRecoveryError::PoisonedWriter =>
                "commit-log writer is poisoned; reopen the file before retrying"@,
            FileTransactionRecoveryError::VolatileCommitRecord(transaction_id) =>
                "transaction "@ + decimal(transaction_id.spec_epoch() as nat) + ":"@
                    + decimal(transaction_id.spec_sequence() as nat)
                    + " has a complete unmarked commit record"@,
            FileTransactionRecoveryError::DuplicateCommitRecord(transaction_id) =>
                "transaction "@ + decimal(transaction_id.spec_epoch() as nat) + ":"@
                    + decimal(transaction_id.spec_sequence() as nat)
                    + " has duplicate commit records"@,
        }
    }

    /// A sentence that describes the error.
    pub fn message(&self) -> (message: String)
        ensures
            message@ == self.spec_message(),
    {
        match self {
            FileTransactionRecoveryError::PoisonedWriter => {
                sentence("commit-log writer is poisoned; reopen the file before retrying")
            },
            FileTransactionRecoveryError::VolatileCommitRecord(transaction_id) => {
                sentence_with_two(
                    "transaction ",
                    transaction_id.epoch(),
                    ":",
                    transaction_id.sequence(),
                    " has a complete unmarked commit record",
                )
            },
            FileTransactionRecoveryError::DuplicateCommitRecord(transaction_id) => {
                sentence_with_two(
                    "transaction ",
                    transaction_id.epoch(),
                    ":",
                    transaction_id.sequence(),
                    " has duplicate commit records",
                )
            },
        }
    }
}

/// Failure to inventory durable transaction-owned pages in a filesystem WAL.
#[derive(Clone, Copy, Debug, PartialEq, Eq, Structural)]
pub enum FileCommittedPageRecoveryInventoryError {
    /// The opened WAL format cannot contain transaction-owned page evidence.
    TransactionPageSupportUnavailable {
        /// Exact opened WAL format version.
        version: u16,
    },
    /// An uncertain prior WAL write requires reopen before authoritative recovery.
    PoisonedWriter,
    /// The owned-page inventory could not reserve its durable-prefix upper bound.
    PageCapacityExhausted,
}

impl FileCommittedPageRecoveryInventoryError {
    pub open spec fn spec_message(self) -> Seq<char> {
        match self {
            FileCommittedPageRecoveryInventoryError::TransactionPageSupportUnavailable {
                version,
            } =>
                "file WAL format version "@ + decimal(version as nat)
                    + " does not support committed-page recovery inventory"@,
            FileCommittedPageRecoveryInventoryError::PoisonedWriter =>
                "commit-log writer is poisoned; reopen the file before committed-page recovery inventory"@,
            FileCommittedPageRecoveryInventoryError::PageCapacityExhausted =>
                "filesystem recovery page inventory capacity is exhausted"@,
        }
    }

    /// A sentence that describes the error.
    pub fn message(&self) -> (message: String)
        ensures
            message@ == self.spec_message(),
    {
        match self {
            FileCommittedPageRecoveryInventoryError::TransactionPageSupportUnavailable {
                version,
            } => {
                sentence_with(
                    "file WAL format version ",
                    *version as u64,
                    " does not support committed-page recovery inventory",
                )
            },
            FileCommittedPageRecoveryInventoryError::PoisonedWriter => {
                sentence(
                    "commit-log writer is poisoned; reopen the file before committed-page recovery inventory",
                )
            },
            FileCommittedPageRecoveryInventoryError::PageCapacityExhausted => {
                sentence("filesystem recovery page inventory capacity is exhausted")
            },
        }
    }
}

/// Projection whose filesystem recovery evidence could not reserve memory.
#[derive(Clone, Copy, Debug, PartialEq, Eq, Structural)]
pub enum FilePageRecoveryProjection {
    /// Commit-agnostic physical page observations.
    PhysicalPages,
    /// Transaction-owner-aware page observations.
    TransactionPages,
    /// Complete durable commit observations.
    Commits,
}

impl FilePageRecoveryProjection {
    pub open spec fn spec_message(self) -> Seq<char> {
        match self {
            FilePageRecoveryProjection::PhysicalPages => "physical page"@,
            FilePageRecoveryProjection::TransactionPages => "transaction page"@,
            FilePageRecoveryProjection::Commits => "commit"@,
        }
    }

    /// A sentence that describes the error.
    pub fn message(&self) -> (message: String)
        ensures
            message@ == self.spec_message(),
    {
        match self {
            FilePageRecoveryProjection::PhysicalPages => sentence("physical page"),
            FilePageRecoveryProjection::TransactionPages => sentence("transaction page"),
            FilePageRecoveryProjection::Commits => sentence("commit"),
        }
    }
}

/// Failure to project one stable filesystem durable prefix for page recovery.
#[derive(Clone, Copy, Debug, PartialEq, Eq, Structural)]
pub enum FileCommittedPageRecoverySourceError {
    /// The opened WAL format cannot contain transaction-owned page evidence.
    TransactionPageSupportUnavailable {
        /// Exact opened WAL format version.
        version: u16,
    },
    /// An uncertain prior WAL write requires reopen before authoritative recovery.
    PoisonedWriter,
    /// One projection could not reserve enough memory before scanning.
    EvidenceCapacityExhausted {
        /// Projection whose allocation failed.
        projection: FilePageRecoveryProjection,
    },
    /// A matching physical page record could not become domain evidence.
    PhysicalPageProjection(PageRecoveryObservationBytesError),
    /// A matching transaction-owned page record could not become domain evidence.
    TransactionPageProjection(DurableTransactionPageObservationBytesError),
    /// A durable commit record could not become domain evidence.
    CommitProjection(DurableTransactionCommitObservationFieldsError),
}

impl FileCommittedPageRecoverySourceError {
    pub open spec fn spec_message(self) -> Seq<char> {
        match self {
            FileCommittedPageRecoverySourceError::TransactionPageSupportUnavailable { version } =>
                "file WAL format version "@ + decimal(version as nat)
                    + " does not support committed-page recovery"@,
            FileCommittedPageRecoverySourceError::PoisonedWriter =>
                "commit-log writer is poisoned; reopen the file before committed-page recovery"@,
            FileCommittedPageRecoverySourceError::EvidenceCapacityExhausted { projection } =>
                "filesystem "@ + projection.spec_message()
                    + " recovery evidence capacity is exhausted"@,
            FileCommittedPageRecoverySourceError::PhysicalPageProjection(source) =>
                "physical page recovery projection failed: "@ + source.spec_message(),
            FileCommittedPageRecoverySourceError::TransactionPageProjection(source) =>
                "transaction page recovery projection failed: "@ + source.spec_message(),
            FileCommittedPageRecoverySourceError::CommitProjection(source) =>
                "commit recovery projection failed: "@ + source.spec_message(),
        }
    }

    /// A sentence that describes the error.
    pub fn message(&self) -> (message: String)
        ensures
            message@ == self.spec_message(),
    {
        match self {
            FileCommittedPageRecoverySourceError::TransactionPageSupportUnavailable { version } => {
                sentence_with(
                    "file WAL format version ",
                    *version as u64,
                    " does not support committed-page recovery",
                )
            },
            FileCommittedPageRecoverySourceError::PoisonedWriter => {
                sentence(
                    "commit-log writer is poisoned; reopen the file before committed-page recovery",
                )
            },
            FileCommittedPageRecoverySourceError::EvidenceCapacityExhausted { projection } => {
                let start: String = joined("filesystem ", &projection.message());
                joined(start.as_str(), &sentence(" recovery evidence capacity is exhausted"))
            },
            FileCommittedPageRecoverySourceError::PhysicalPageProjection(source) => {
                joined("physical page recovery projection failed: ", &source.message())
            },
            FileCommittedPageRecoverySourceError::TransactionPageProjection(source) => {
                joined("transaction page recovery projection failed: ", &source.message())
            },
            FileCommittedPageRecoverySourceError::CommitProjection(source) => {
                joined("commit recovery projection failed: ", &source.message())
            },
        }
    }
}

/// Failure to project one complete filesystem durable prefix for restart analysis.
#[derive(Clone, Copy, Debug, PartialEq, Eq, Structural)]
pub enum FileTransactionRestartAnalysisSourceError {
    /// An uncertain prior WAL write requires reopen before authoritative analysis.
    PoisonedWriter,
    /// Complete-prefix projection is invalid after an anchored reclamation.
    PrunedGenerationRequiresCheckpoint {
        /// Exact nonzero source generation.
        generation: u64,
    },
    /// Physical generation metadata requires a previously allocated epoch.
    NoAllocatedEpoch,
    /// The unified observation stream could not reserve its durable-prefix bound.
    ObservationCapacityExhausted {
        /// Exact number of durable logical records that required reservation.
        record_count: usize,
    },
    /// One raw page record could not become adapter-neutral restart evidence.
    PageProjection(PageRecoveryObservationBytesError),
    /// One transaction-owned page could not become restart evidence.
    TransactionPageProjection(DurableTransactionPageObservationBytesError),
    /// One transaction commit could not become restart evidence.
    CommitProjection(DurableTransactionCommitObservationFieldsError),
}

impl FileTransactionRestartAnalysisSourceError {
    pub open spec fn spec_message(self) -> Seq<char> {
        match self {
            FileTransactionRestartAnalysisSourceError::PoisonedWriter =>
                "commit-log writer is poisoned; reopen the file before restart analysis"@,
            FileTransactionRestartAnalysisSourceError::PrunedGenerationRequiresCheckpoint {
                generation,
            } =>
                "filesystem WAL generation "@ + decimal(generation as nat)
                    + " is pruned and requires its anchored checkpoint"@,
            FileTransactionRestartAnalysisSourceError::NoAllocatedEpoch =>
                "no filesystem transaction epoch has been allocated"@,
            FileTransactionRestartAnalysisSourceError::ObservationCapacityExhausted {
                record_count,
            } =>
                "filesystem restart observation capacity is exhausted for "@
                    + decimal(record_count as nat) + " durable records"@,
            FileTransactionRestartAnalysisSourceError::PageProjection(source) =>
                "raw page restart projection failed: "@ + source.spec_message(),
            FileTransactionRestartAnalysisSourceError::TransactionPageProjection(source) =>
                "transaction page restart projection failed: "@ + source.spec_message(),
            FileTransactionRestartAnalysisSourceError::CommitProjection(source) =>
                "commit restart projection failed: "@ + source.spec_message(),
        }
    }

    /// A sentence that describes the error.
    pub fn message(&self) -> (message: String)
        ensures
            message@ == self.spec_message(),
    {
        match self {
            FileTransactionRestartAnalysisSourceError::PoisonedWriter => {
                sentence("commit-log writer is poisoned; reopen the file before restart analysis")
            },
            FileTransactionRestartAnalysisSourceError::PrunedGenerationRequiresCheckpoint {
                generation,
            } => {
                sentence_with(
                    "filesystem WAL generation ",
                    *generation,
                    " is pruned and requires its anchored checkpoint",
                )
            },
            FileTransactionRestartAnalysisSourceError::NoAllocatedEpoch => {
                sentence("no filesystem transaction epoch has been allocated")
            },
            FileTransactionRestartAnalysisSourceError::ObservationCapacityExhausted {
                record_count,
            } => {
                sentence_with(
                    "filesystem restart observation capacity is exhausted for ",
                    *record_count as u64,
                    " durable records",
                )
            },
            FileTransactionRestartAnalysisSourceError::PageProjection(source) => {
                joined("raw page restart projection failed: ", &source.message())
            },
            FileTransactionRestartAnalysisSourceError::TransactionPageProjection(source) => {
                joined("transaction page restart projection failed: ", &source.message())
            },
            FileTransactionRestartAnalysisSourceError::CommitProjection(source) => {
                joined("commit restart projection failed: ", &source.message())
            },
        }
    }
}

/// Failure to observe filesystem physical restart-allocation metadata.
#[derive(Clone, Copy, Debug, PartialEq, Eq, Structural)]
pub enum FileTransactionRestartRetentionMetadataSourceError {
    /// An uncertain prior WAL write requires reopen before metadata observation.
    PoisonedWriter,
    /// No restart or transaction epoch has yet been durably allocated.
    NoAllocatedEpoch,
}

impl FileTransactionRestartRetentionMetadataSourceError {
    pub open spec fn spec_message(self) -> Seq<char> {
        match self {
            FileTransactionRestartRetentionMetadataSourceError::PoisonedWriter =>
                "commit-log writer is poisoned; reopen the file before retention metadata observation"@,
            FileTransactionRestartRetentionMetadataSourceError::NoAllocatedEpoch =>
                "no filesystem transaction epoch has been allocated"@,
        }
    }

    /// A sentence that describes the error.
    pub fn message(&self) -> (message: String)
        ensures
            message@ == self.spec_message(),
    {
        match self {
            FileTransactionRestartRetentionMetadataSourceError::PoisonedWriter => {
                sentence(
                    "commit-log writer is poisoned; reopen the file before retention metadata observation",
                )
            },
            FileTransactionRestartRetentionMetadataSourceError::NoAllocatedEpoch => {
                sentence("no filesystem transaction epoch has been allocated")
            },
        }
    }
}

/// Failure while observing or replacing one filesystem WAL generation.
#[derive(Debug, PartialEq, Eq)]
pub enum FileTransactionRestartWalReclamationError {
    /// An uncertain prior WAL effect requires a complete reopen.
    PoisonedWriter,
    /// This physical source format has no reclamation encoding.
    UnsupportedPhysicalFormat {
        /// Exact unsupported source version.
        version: u16,
    },
    /// The selected WAL path has no final file-name component.
    MissingFileName,
    /// No durable transaction epoch exists to preserve in replacement metadata.
    NoAllocatedEpoch,
    /// A V5 source lost the stable database-file identity required by replacement.
    MissingDatabaseFileIdentity,
    /// The opaque domain permit does not describe the currently owned source.
    PermitMismatch,
    /// The current source generation cannot advance.
    GenerationExhausted,
    /// Complete logical records exist beyond the durable frontier.
    VolatileLogicalSuffix {
        /// Exact durable logical record count.
        durable_record_count: usize,
        /// Exact complete logical record count.
        total_record_count: usize,
    },
    /// The inclusive retained floor is not a current durable record boundary.
    RetainedBoundaryMissing {
        /// Exact requested numeric floor.
        position: u64,
    },
    /// The retained frame plan could not reserve memory.
    FrameCapacityExhausted {
        /// Exact retained logical record bound.
        record_count: usize,
    },
    /// The fixed candidate resolves to the selected inode.
    CandidateAliasesSelected,
    /// One deterministic replacement fault was consumed.
    InjectedFault(FaultPoint),
    /// One exact filesystem stage failed.
    Io(FileIoError),
}

impl FileTransactionRestartWalReclamationError {
    /// The sentence, up to the operating system's own words.
    pub open spec fn spec_message(self) -> Seq<char> {
        match self {
            FileTransactionRestartWalReclamationError::PoisonedWriter =>
                "commit-log writer is poisoned; reopen before WAL reclamation"@,
            FileTransactionRestartWalReclamationError::UnsupportedPhysicalFormat { version } =>
                "filesystem WAL format "@ + decimal(version as nat) + " cannot be reclaimed"@,
            FileTransactionRestartWalReclamationError::MissingFileName =>
                "selected WAL path has no file-name component"@,
            FileTransactionRestartWalReclamationError::NoAllocatedEpoch =>
                "no filesystem transaction epoch has been allocated"@,
            FileTransactionRestartWalReclamationError::MissingDatabaseFileIdentity =>
                "V5 WAL has no stable database-file identity"@,
            FileTransactionRestartWalReclamationError::PermitMismatch =>
                "WAL reclamation permit does not match the selected source"@,
            FileTransactionRestartWalReclamationError::GenerationExhausted =>
                "filesystem WAL generation space is exhausted"@,
            FileTransactionRestartWalReclamationError::VolatileLogicalSuffix {
                durable_record_count,
                total_record_count,
            } =>
                "filesystem WAL has "@ + decimal(total_record_count as nat)
                    + " complete records but only "@ + decimal(durable_record_count as nat)
                    + " are durable"@,
            FileTransactionRestartWalReclamationError::RetainedBoundaryMissing { position } =>
                "retained WAL floor "@ + decimal(position as nat)
                    + " is not a durable logical record boundary"@,
            FileTransactionRestartWalReclamationError::FrameCapacityExhausted { record_count } =>
                "reclamation frame capacity is exhausted for "@ + decimal(record_count as nat)
                    + " retained logical records"@,
            FileTransactionRestartWalReclamationError::CandidateAliasesSelected =>
                "reclamation candidate aliases the selected WAL inode"@,
            FileTransactionRestartWalReclamationError::InjectedFault(point) =>
                "injected WAL reclamation failure "@ + point.spec_message(),
            FileTransactionRestartWalReclamationError::Io(source) => source.spec_message_start(),
        }
    }

    /// A sentence that describes the error.
    pub fn message(&self) -> (message: String)
        ensures
            self is Io ==> self.spec_message().is_prefix_of(message@),
            !(self is Io) ==> message@ == self.spec_message(),
    {
        match self {
            FileTransactionRestartWalReclamationError::PoisonedWriter => {
                sentence("commit-log writer is poisoned; reopen before WAL reclamation")
            },
            FileTransactionRestartWalReclamationError::UnsupportedPhysicalFormat { version } => {
                sentence_with("filesystem WAL format ", *version as u64, " cannot be reclaimed")
            },
            FileTransactionRestartWalReclamationError::MissingFileName => {
                sentence("selected WAL path has no file-name component")
            },
            FileTransactionRestartWalReclamationError::NoAllocatedEpoch => {
                sentence("no filesystem transaction epoch has been allocated")
            },
            FileTransactionRestartWalReclamationError::MissingDatabaseFileIdentity => {
                sentence("V5 WAL has no stable database-file identity")
            },
            FileTransactionRestartWalReclamationError::PermitMismatch => {
                sentence("WAL reclamation permit does not match the selected source")
            },
            FileTransactionRestartWalReclamationError::GenerationExhausted => {
                sentence("filesystem WAL generation space is exhausted")
            },
            FileTransactionRestartWalReclamationError::VolatileLogicalSuffix {
                durable_record_count,
                total_record_count,
            } => {
                sentence_with_two(
                    "filesystem WAL has ",
                    *total_record_count as u64,
                    " complete records but only ",
                    *durable_record_count as u64,
                    " are durable",
                )
            },
            FileTransactionRestartWalReclamationError::RetainedBoundaryMissing { position } => {
                sentence_with(
                    "retained WAL floor ",
                    *position,
                    " is not a durable logical record boundary",
                )
            },
            FileTransactionRestartWalReclamationError::FrameCapacityExhausted { record_count } => {
                sentence_with(
                    "reclamation frame capacity is exhausted for ",
                    *record_count as u64,
                    " retained logical records",
                )
            },
            FileTransactionRestartWalReclamationError::CandidateAliasesSelected => {
                sentence("reclamation candidate aliases the selected WAL inode")
            },
            FileTransactionRestartWalReclamationError::InjectedFault(point) => {
                joined("injected WAL reclamation failure ", &point.message())
            },
            FileTransactionRestartWalReclamationError::Io(source) => source.message(),
        }
    }
}

} // verus!
