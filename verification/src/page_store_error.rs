//! Errors of the page store.
use vstd::prelude::*;

use crate::database_identity::DatabaseChildIdentityDecodeErrorReason;
use crate::identity::{LogSequenceNumber, PageNumber};
use crate::io_error::{failure_message, io_error_text, same_io_error};
use crate::log_error::{FileOpenError, FilePageWidthError};
use crate::observation::PageRecoveryObservationBytesError;
use crate::text::{
    decimal, hex64, joined, optional_decimal, sentence, sentence_ending, sentence_ending_two,
    sentence_with, sentence_with_checksums, sentence_with_options,
};

verus! {
/// One-shot physical-effect boundary for the next page-store write.
#[derive(Clone, Copy, Debug, PartialEq, Eq, Structural)]
pub enum PageStoreFaultPoint {
    /// Fail before file/state mutation.
    BeforeWrite,
    /// Fire only after the entire group is written, sync succeeds, and state
    /// is updated.
    AfterWrite,
}

impl PageStoreFaultPoint {
    pub open spec fn spec_message(self) -> Seq<char> {
        match self {
            PageStoreFaultPoint::BeforeWrite => "before write"@,
            PageStoreFaultPoint::AfterWrite => "after write"@,
        }
    }

    /// The name of the boundary.
    pub fn message(&self) -> (message: String)
        ensures
            message@ == self.spec_message(),
    {
        match self {
            PageStoreFaultPoint::BeforeWrite => sentence("before write"),
            PageStoreFaultPoint::AfterWrite => sentence("after write"),
        }
    }
}

/// Refusal to silently replace an already armed page-store fault.
#[derive(Clone, Copy, Debug, PartialEq, Eq, Structural)]
pub struct PageStoreFaultAlreadyArmed {
    pub armed: PageStoreFaultPoint,
    pub requested: PageStoreFaultPoint,
}

impl PageStoreFaultAlreadyArmed {
    /// Returns the fault that remains armed.
    pub fn armed(&self) -> (armed: PageStoreFaultPoint)
        ensures
            armed == self.armed,
    {
        self.armed
    }

    /// Returns the rejected replacement fault.
    pub fn requested(&self) -> (requested: PageStoreFaultPoint)
        ensures
            requested == self.requested,
    {
        self.requested
    }

    pub open spec fn spec_message(self) -> Seq<char> {
        "page-store fault "@ + self.armed.spec_message() + " is already armed; cannot arm "@
            + self.requested.spec_message()
    }

    /// A sentence that describes the refusal.
    pub fn message(&self) -> (message: String)
        ensures
            message@ == self.spec_message(),
    {
        let start: String = joined("page-store fault ", &self.armed.message());
        let middle: String = joined(start.as_str(), &sentence(" is already armed; cannot arm "));
        joined(middle.as_str(), &self.requested.message())
    }
}

/// I/O stage for page-store operations.
#[derive(Clone, Copy, Debug, PartialEq, Eq, Structural)]
pub enum PageStoreIoStage {
    CreateFile,
    OpenFile,
    AcquireExclusiveLock,
    OpenParentDirectory,
    ReadMetadata,
    ReadHeader,
    ReadFrame,
    WriteHeader,
    SyncCreatedFile,
    SyncOpenedFile,
    SyncParentDirectory,
    TruncateIncompleteTail,
    SyncTruncatedTail,
    SeekEnd,
    WriteSnapshotHeaderFrame,
    WriteRequiredPositionFrame,
    WritePageDataFrame,
    SyncPageGroup,
}

impl PageStoreIoStage {
    pub open spec fn spec_message(self) -> Seq<char> {
        match self {
            PageStoreIoStage::CreateFile => "creating the page-store file"@,
            PageStoreIoStage::OpenFile => "opening the page-store file"@,
            PageStoreIoStage::AcquireExclusiveLock =>
                "acquiring the exclusive page-store file lock"@,
            PageStoreIoStage::OpenParentDirectory => "opening the parent directory"@,
            PageStoreIoStage::ReadMetadata => "reading page-store metadata"@,
            PageStoreIoStage::ReadHeader => "reading the page-store header"@,
            PageStoreIoStage::ReadFrame => "reading a page-store frame"@,
            PageStoreIoStage::WriteHeader => "writing the page-store header"@,
            PageStoreIoStage::SyncCreatedFile => "synchronizing the created page-store file"@,
            PageStoreIoStage::SyncOpenedFile => "synchronizing the opened page-store file"@,
            PageStoreIoStage::SyncParentDirectory => "synchronizing the parent directory"@,
            PageStoreIoStage::TruncateIncompleteTail => "truncating an incomplete page-store tail"@,
            PageStoreIoStage::SyncTruncatedTail => "synchronizing a repaired page-store tail"@,
            PageStoreIoStage::SeekEnd => "seeking to the end of the page-store file"@,
            PageStoreIoStage::WriteSnapshotHeaderFrame =>
                "writing a page-store snapshot-header frame"@,
            PageStoreIoStage::WriteRequiredPositionFrame =>
                "writing a page-store required-position frame"@,
            PageStoreIoStage::WritePageDataFrame => "writing a page-store page-data frame"@,
            PageStoreIoStage::SyncPageGroup => "synchronizing a page-store group"@,
        }
    }

    /// What was being done.
    pub fn message(&self) -> (message: String)
        ensures
            message@ == self.spec_message(),
    {
        match self {
            PageStoreIoStage::CreateFile => sentence("creating the page-store file"),
            PageStoreIoStage::OpenFile => sentence("opening the page-store file"),
            PageStoreIoStage::AcquireExclusiveLock => {
                sentence("acquiring the exclusive page-store file lock")
            },
            PageStoreIoStage::OpenParentDirectory => sentence("opening the parent directory"),
            PageStoreIoStage::ReadMetadata => sentence("reading page-store metadata"),
            PageStoreIoStage::ReadHeader => sentence("reading the page-store header"),
            PageStoreIoStage::ReadFrame => sentence("reading a page-store frame"),
            PageStoreIoStage::WriteHeader => sentence("writing the page-store header"),
            PageStoreIoStage::SyncCreatedFile => {
                sentence("synchronizing the created page-store file")
            },
            PageStoreIoStage::SyncOpenedFile => {
                sentence("synchronizing the opened page-store file")
            },
            PageStoreIoStage::SyncParentDirectory => sentence("synchronizing the parent directory"),
            PageStoreIoStage::TruncateIncompleteTail => {
                sentence("truncating an incomplete page-store tail")
            },
            PageStoreIoStage::SyncTruncatedTail => {
                sentence("synchronizing a repaired page-store tail")
            },
            PageStoreIoStage::SeekEnd => sentence("seeking to the end of the page-store file"),
            PageStoreIoStage::WriteSnapshotHeaderFrame => {
                sentence("writing a page-store snapshot-header frame")
            },
            PageStoreIoStage::WriteRequiredPositionFrame => {
                sentence("writing a page-store required-position frame")
            },
            PageStoreIoStage::WritePageDataFrame => {
                sentence("writing a page-store page-data frame")
            },
            PageStoreIoStage::SyncPageGroup => sentence("synchronizing a page-store group"),
        }
    }
}

/// I/O failure paired with the exact page-store stage that reported it.
#[derive(Debug)]
pub struct PageStoreIoError {
    pub stage: PageStoreIoStage,
    pub source: std::io::Error,
}

impl PageStoreIoError {
    pub fn new(stage: PageStoreIoStage, source: std::io::Error) -> (error: PageStoreIoError)
        ensures
            error == (PageStoreIoError { stage, source }),
    {
        PageStoreIoError { stage, source }
    }

    /// Returns the stage that reported the I/O error.
    pub fn stage(&self) -> (stage: PageStoreIoStage)
        ensures
            stage == self.stage,
    {
        self.stage
    }

    /// The error that the operating system reported.
    pub fn io_source(&self) -> (source: &std::io::Error)
        ensures
            *source == self.source,
    {
        &self.source
    }

    /// What precedes the operating system's own words in the description.
    pub open spec fn spec_message_start(self) -> Seq<char> {
        self.stage.spec_message() + " failed: "@
    }

    /// A sentence that ends with the operating system's description.
    pub fn message(&self) -> (message: String)
        ensures
            self.spec_message_start().is_prefix_of(message@),
    {
        let message: String = failure_message(&self.stage.message(), &io_error_text(&self.source));
        assert(message@.subrange(0, self.spec_message_start().len() as int)
            =~= self.spec_message_start());
        message
    }
}

impl PartialEq for PageStoreIoError {
    fn eq(&self, other: &Self) -> (same: bool)
        ensures
            same ==> self.stage == other.stage,
    {
        self.stage == other.stage && same_io_error(&self.source, &other.source)
    }
}

/// Equality of two I/O failures also depends on what the operating system
/// reported, so no mathematical meaning is given to it.
impl vstd::std_specs::cmp::PartialEqSpecImpl for PageStoreIoError {
    open spec fn obeys_eq_spec() -> bool {
        false
    }

    open spec fn eq_spec(&self, other: &Self) -> bool {
        self.stage == other.stage
    }
}

impl Eq for PageStoreIoError {

}

/// Exact malformed-format reason for the page store.
#[derive(Clone, Copy, Debug, PartialEq, Eq, Structural)]
pub enum PageStoreFormatErrorReason {
    HeaderTooShort { actual: u64 },
    HeaderMagic,
    HeaderVersion { actual: u16 },
    HeaderLength { actual: u16 },
    HeaderV2Length { actual: u16 },
    HeaderFlags { actual: u32 },
    HeaderPageWidthZero,
    HeaderPageWidthMismatch { expected: u64, actual: u64 },
    HeaderReserved,
    HeaderDatabaseChildIdentity(DatabaseChildIdentityDecodeErrorReason),
    HeaderChecksum { expected: u64, actual: u64 },
    LineageIdZero,
    FrameMagic,
    FrameKind { actual: u16 },
    FrameVersion { actual: u16 },
    FrameLength { actual: u16 },
    FrameFlags { actual: u32 },
    FrameReserved,
    FrameChecksum { expected: u64, actual: u64 },
    SnapshotSequenceZero,
    SnapshotSequenceOutOfOrder { expected: u64, actual: u64 },
    SnapshotSequenceSpaceExhausted,
    SnapshotPageNumberZero,
    RequiredPositionZero,
    RequiredPositionSequenceMismatch { expected: u64, actual: u64 },
    RequiredPositionPayloadCNonzero { actual: u64 },
    PageDataSequenceMismatch { expected: u64, actual: u64 },
    PageDataChunkIndexOutOfSequence { expected: u64, actual: u64 },
    PageDataFinalPaddingNonzero,
    PageDataWithoutHeader,
    UnexpectedKindAfterHeader { actual: u16 },
    UnexpectedKindAfterRequiredPosition { actual: u16 },
}

impl PageStoreFormatErrorReason {
    pub open spec fn spec_message(self) -> Seq<char> {
        match self {
            PageStoreFormatErrorReason::HeaderTooShort { actual } =>
                "page-store header is shorter than 64 bytes: found "@ + decimal(actual as nat),
            PageStoreFormatErrorReason::HeaderMagic => "page-store header magic does not match"@,
            PageStoreFormatErrorReason::HeaderVersion { actual } =>
                "unsupported page-store header version "@ + decimal(actual as nat),
            PageStoreFormatErrorReason::HeaderLength { actual } =>
                "page-store header length "@ + decimal(actual as nat) + " does not equal 64"@,
            PageStoreFormatErrorReason::HeaderV2Length { actual } =>
                "page-store V2 header length "@ + decimal(actual as nat) + " does not equal 128"@,
            PageStoreFormatErrorReason::HeaderFlags { actual } =>
                "page-store header flags are nonzero: "@ + decimal(actual as nat),
            PageStoreFormatErrorReason::HeaderPageWidthZero =>
                "page-store header page width is zero"@,
            PageStoreFormatErrorReason::HeaderPageWidthMismatch { expected, actual } =>
                "page-store header page width "@ + decimal(actual as nat)
                    + " does not equal required width "@ + decimal(expected as nat),
            PageStoreFormatErrorReason::HeaderReserved =>
                "page-store header reserved bytes are nonzero"@,
            PageStoreFormatErrorReason::HeaderDatabaseChildIdentity(source) => {
                source.spec_message()
            },
            PageStoreFormatErrorReason::HeaderChecksum { expected, actual } =>
                "page-store header checksum mismatch: expected "@ + hex64(expected) + ", found "@
                    + hex64(actual),
            PageStoreFormatErrorReason::LineageIdZero =>
                "page-store persistent lineage ID is zero"@,
            PageStoreFormatErrorReason::FrameMagic => "page-store frame magic does not match"@,
            PageStoreFormatErrorReason::FrameKind { actual } =>
                "unknown page-store frame kind "@ + decimal(actual as nat),
            PageStoreFormatErrorReason::FrameVersion { actual } =>
                "unsupported page-store frame version "@ + decimal(actual as nat),
            PageStoreFormatErrorReason::FrameLength { actual } =>
                "page-store frame length "@ + decimal(actual as nat) + " does not equal 56"@,
            PageStoreFormatErrorReason::FrameFlags { actual } =>
                "page-store frame flags are nonzero: "@ + decimal(actual as nat),
            PageStoreFormatErrorReason::FrameReserved =>
                "page-store frame reserved bytes are nonzero"@,
            PageStoreFormatErrorReason::FrameChecksum { expected, actual } =>
                "page-store frame checksum mismatch: expected "@ + hex64(expected) + ", found "@
                    + hex64(actual),
            PageStoreFormatErrorReason::SnapshotSequenceZero =>
                "page-store snapshot sequence is zero"@,
            PageStoreFormatErrorReason::SnapshotSequenceOutOfOrder { expected, actual } =>
                "page-store snapshot sequence "@ + decimal(actual as nat)
                    + " does not equal the next contiguous sequence "@ + decimal(expected as nat),
            PageStoreFormatErrorReason::SnapshotSequenceSpaceExhausted =>
                "page-store snapshot sequence space is exhausted"@,
            PageStoreFormatErrorReason::SnapshotPageNumberZero =>
                "page-store snapshot page number is zero"@,
            PageStoreFormatErrorReason::RequiredPositionZero =>
                "page-store required WAL position is zero"@,
            PageStoreFormatErrorReason::RequiredPositionSequenceMismatch { expected, actual } =>
                "page-store required-position sequence "@ + decimal(actual as nat)
                    + " does not match pending snapshot sequence "@ + decimal(expected as nat),
            PageStoreFormatErrorReason::RequiredPositionPayloadCNonzero { actual } =>
                "page-store required-position payload C is nonzero: "@ + decimal(actual as nat),
            PageStoreFormatErrorReason::PageDataSequenceMismatch { expected, actual } =>
                "page-store page-data sequence "@ + decimal(actual as nat)
                    + " does not match pending snapshot sequence "@ + decimal(expected as nat),
            PageStoreFormatErrorReason::PageDataChunkIndexOutOfSequence { expected, actual } =>
                "page-store page-data chunk index "@ + decimal(actual as nat)
                    + " does not equal required contiguous chunk "@ + decimal(expected as nat),
            PageStoreFormatErrorReason::PageDataFinalPaddingNonzero =>
                "page-store page-data final-chunk padding bytes are nonzero"@,
            PageStoreFormatErrorReason::PageDataWithoutHeader =>
                "page-store page-data frame has no pending snapshot header"@,
            PageStoreFormatErrorReason::UnexpectedKindAfterHeader { actual } =>
                "page-store expected a required-position frame after snapshot header but found kind "@
                    + decimal(actual as nat),
            PageStoreFormatErrorReason::UnexpectedKindAfterRequiredPosition { actual } =>
                "page-store expected a page-data frame after required position but found kind "@
                    + decimal(actual as nat),
        }
    }

    /// A sentence that describes the reason.
    pub fn message(&self) -> (message: String)
        ensures
            message@ == self.spec_message(),
    {
        match self {
            PageStoreFormatErrorReason::HeaderTooShort { actual } => {
                sentence_ending("page-store header is shorter than 64 bytes: found ", *actual)
            },
            PageStoreFormatErrorReason::HeaderMagic => {
                sentence("page-store header magic does not match")
            },
            PageStoreFormatErrorReason::HeaderVersion { actual } => {
                sentence_ending("unsupported page-store header version ", *actual as u64)
            },
            PageStoreFormatErrorReason::HeaderLength { actual } => {
                sentence_with("page-store header length ", *actual as u64, " does not equal 64")
            },
            PageStoreFormatErrorReason::HeaderV2Length { actual } => {
                sentence_with(
                    "page-store V2 header length ",
                    *actual as u64,
                    " does not equal 128",
                )
            },
            PageStoreFormatErrorReason::HeaderFlags { actual } => {
                sentence_ending("page-store header flags are nonzero: ", *actual as u64)
            },
            PageStoreFormatErrorReason::HeaderPageWidthZero => {
                sentence("page-store header page width is zero")
            },
            PageStoreFormatErrorReason::HeaderPageWidthMismatch { expected, actual } => {
                sentence_ending_two(
                    "page-store header page width ",
                    *actual,
                    " does not equal required width ",
                    *expected,
                )
            },
            PageStoreFormatErrorReason::HeaderReserved => {
                sentence("page-store header reserved bytes are nonzero")
            },
            PageStoreFormatErrorReason::HeaderDatabaseChildIdentity(source) => source.message(),
            PageStoreFormatErrorReason::HeaderChecksum { expected, actual } => {
                sentence_with_checksums(
                    "page-store header checksum mismatch: expected ",
                    *expected,
                    ", found ",
                    *actual,
                )
            },
            PageStoreFormatErrorReason::LineageIdZero => {
                sentence("page-store persistent lineage ID is zero")
            },
            PageStoreFormatErrorReason::FrameMagic => {
                sentence("page-store frame magic does not match")
            },
            PageStoreFormatErrorReason::FrameKind { actual } => {
                sentence_ending("unknown page-store frame kind ", *actual as u64)
            },
            PageStoreFormatErrorReason::FrameVersion { actual } => {
                sentence_ending("unsupported page-store frame version ", *actual as u64)
            },
            PageStoreFormatErrorReason::FrameLength { actual } => {
                sentence_with("page-store frame length ", *actual as u64, " does not equal 56")
            },
            PageStoreFormatErrorReason::FrameFlags { actual } => {
                sentence_ending("page-store frame flags are nonzero: ", *actual as u64)
            },
            PageStoreFormatErrorReason::FrameReserved => {
                sentence("page-store frame reserved bytes are nonzero")
            },
            PageStoreFormatErrorReason::FrameChecksum { expected, actual } => {
                sentence_with_checksums(
                    "page-store frame checksum mismatch: expected ",
                    *expected,
                    ", found ",
                    *actual,
                )
            },
            PageStoreFormatErrorReason::SnapshotSequenceZero => {
                sentence("page-store snapshot sequence is zero")
            },
            PageStoreFormatErrorReason::SnapshotSequenceOutOfOrder { expected, actual } => {
                sentence_ending_two(
                    "page-store snapshot sequence ",
                    *actual,
                    " does not equal the next contiguous sequence ",
                    *expected,
                )
            },
            PageStoreFormatErrorReason::SnapshotSequenceSpaceExhausted => {
                sentence("page-store snapshot sequence space is exhausted")
            },
            PageStoreFormatErrorReason::SnapshotPageNumberZero => {
                sentence("page-store snapshot page number is zero")
            },
            PageStoreFormatErrorReason::RequiredPositionZero => {
                sentence("page-store required WAL position is zero")
            },
            PageStoreFormatErrorReason::RequiredPositionSequenceMismatch { expected, actual } => {
                sentence_ending_two(
                    "page-store required-position sequence ",
                    *actual,
                    " does not match pending snapshot sequence ",
                    *expected,
                )
            },
            PageStoreFormatErrorReason::RequiredPositionPayloadCNonzero { actual } => {
                sentence_ending("page-store required-position payload C is nonzero: ", *actual)
            },
            PageStoreFormatErrorReason::PageDataSequenceMismatch { expected, actual } => {
                sentence_ending_two(
                    "page-store page-data sequence ",
                    *actual,
                    " does not match pending snapshot sequence ",
                    *expected,
                )
            },
            PageStoreFormatErrorReason::PageDataChunkIndexOutOfSequence { expected, actual } => {
                sentence_ending_two(
                    "page-store page-data chunk index ",
                    *actual,
                    " does not equal required contiguous chunk ",
                    *expected,
                )
            },
            PageStoreFormatErrorReason::PageDataFinalPaddingNonzero => {
                sentence("page-store page-data final-chunk padding bytes are nonzero")
            },
            PageStoreFormatErrorReason::PageDataWithoutHeader => {
                sentence("page-store page-data frame has no pending snapshot header")
            },
            PageStoreFormatErrorReason::UnexpectedKindAfterHeader { actual } => {
                sentence_ending(
                    "page-store expected a required-position frame after snapshot header but found kind ",
                    *actual as u64,
                )
            },
            PageStoreFormatErrorReason::UnexpectedKindAfterRequiredPosition { actual } => {
                sentence_ending(
                    "page-store expected a page-data frame after required position but found kind ",
                    *actual as u64,
                )
            },
        }
    }
}

/// Malformed-format error paired with the byte offset that reported it.
#[derive(Clone, Copy, Debug, PartialEq, Eq, Structural)]
pub struct PageStoreFormatError {
    pub offset: u64,
    pub reason: PageStoreFormatErrorReason,
}

impl PageStoreFormatError {
    pub fn new(offset: u64, reason: PageStoreFormatErrorReason) -> (error: PageStoreFormatError)
        ensures
            error == (PageStoreFormatError { offset, reason }),
    {
        PageStoreFormatError { offset, reason }
    }

    /// Returns the byte offset that reported the format error.
    pub fn offset(&self) -> (offset: u64)
        ensures
            offset == self.offset,
    {
        self.offset
    }

    /// Returns the exact malformed-format reason.
    pub fn reason(&self) -> (reason: &PageStoreFormatErrorReason)
        ensures
            *reason == self.reason,
    {
        &self.reason
    }

    pub open spec fn spec_message(self) -> Seq<char> {
        "page-store format error at byte "@ + decimal(self.offset as nat) + ": "@
            + self.reason.spec_message()
    }

    /// A sentence that describes the error.
    pub fn message(&self) -> (message: String)
        ensures
            message@ == self.spec_message(),
    {
        let start: String = sentence_with("page-store format error at byte ", self.offset, ": ");
        joined(start.as_str(), &self.reason.message())
    }
}

/// Failure while creating a new page store file.
#[derive(Debug, PartialEq, Eq)]
pub enum PageStoreCreateError {
    MissingParentDirectory,
    PageWidth(FilePageWidthError),
    Io(PageStoreIoError),
}

impl PageStoreCreateError {
    /// The sentence, up to the operating system's own words.
    pub open spec fn spec_message(self) -> Seq<char> {
        match self {
            PageStoreCreateError::MissingParentDirectory =>
                "page-store path does not have an existing parent directory"@,
            PageStoreCreateError::PageWidth(source) => source.spec_message(),
            PageStoreCreateError::Io(source) => source.spec_message_start(),
        }
    }

    /// A sentence that describes the error.
    pub fn message(&self) -> (message: String)
        ensures
            self is Io ==> self.spec_message().is_prefix_of(message@),
            !(self is Io) ==> message@ == self.spec_message(),
    {
        match self {
            PageStoreCreateError::MissingParentDirectory => {
                sentence("page-store path does not have an existing parent directory")
            },
            PageStoreCreateError::PageWidth(source) => source.message(),
            PageStoreCreateError::Io(source) => source.message(),
        }
    }
}

/// Failure while opening an existing page store file.
#[derive(Debug, PartialEq, Eq)]
pub enum PageStoreOpenError {
    PageWidth(FilePageWidthError),
    Io(PageStoreIoError),
    Format(PageStoreFormatError),
    SnapshotCapacityExhausted,
}

impl PageStoreOpenError {
    /// The sentence, up to the operating system's own words.
    pub open spec fn spec_message(self) -> Seq<char> {
        match self {
            PageStoreOpenError::PageWidth(source) => source.spec_message(),
            PageStoreOpenError::Format(source) => source.spec_message(),
            PageStoreOpenError::SnapshotCapacityExhausted =>
                "page-store snapshot capacity is exhausted"@,
            PageStoreOpenError::Io(source) => source.spec_message_start(),
        }
    }

    /// A sentence that describes the error.
    pub fn message(&self) -> (message: String)
        ensures
            self is Io ==> self.spec_message().is_prefix_of(message@),
            !(self is Io) ==> message@ == self.spec_message(),
    {
        match self {
            PageStoreOpenError::PageWidth(source) => source.message(),
            PageStoreOpenError::Format(source) => source.message(),
            PageStoreOpenError::SnapshotCapacityExhausted => {
                sentence("page-store snapshot capacity is exhausted")
            },
            PageStoreOpenError::Io(source) => source.message(),
        }
    }
}

/// Stage-specific failure while opening an owned WAL/page-store recovery pair.
#[derive(Debug, PartialEq, Eq)]
pub enum FileTransactionPageStorageOpenError {
    /// The transaction-page-capable WAL could not be opened first.
    CommitLog(FileOpenError),
    /// The page store could not be opened after the WAL lock was acquired.
    PageStore(PageStoreOpenError),
}

impl FileTransactionPageStorageOpenError {
    pub open spec fn mentions_io(self) -> bool {
        match self {
            FileTransactionPageStorageOpenError::CommitLog(source) => source is Io,
            FileTransactionPageStorageOpenError::PageStore(source) => source is Io,
        }
    }

    /// The sentence, up to the operating system's own words.
    pub open spec fn spec_message(self) -> Seq<char> {
        match self {
            FileTransactionPageStorageOpenError::CommitLog(source) =>
                "transaction-page WAL open failed: "@ + source.spec_message(),
            FileTransactionPageStorageOpenError::PageStore(source) => "page-store open failed: "@
                + source.spec_message(),
        }
    }

    /// A sentence that describes the error.
    pub fn message(&self) -> (message: String)
        ensures
            self.mentions_io() ==> self.spec_message().is_prefix_of(message@),
            !self.mentions_io() ==> message@ == self.spec_message(),
    {
        match self {
            FileTransactionPageStorageOpenError::CommitLog(source) => {
                joined_source(
                    "transaction-page WAL open failed: ",
                    source.message(),
                    Ghost(source.spec_message()),
                )
            },
            FileTransactionPageStorageOpenError::PageStore(source) => {
                joined_source(
                    "page-store open failed: ",
                    source.message(),
                    Ghost(source.spec_message()),
                )
            },
        }
    }
}

/// A sentence before the description of its cause, of which only the start may
/// be known.
fn joined_source(before: &str, source: String, Ghost(start): Ghost<Seq<char>>) -> (message: String)
    ensures
        message@ == before@ + source@,
        start.is_prefix_of(source@) ==> (before@ + start).is_prefix_of(message@),
{
    let message: String = joined(before, &source);
    assert(start.is_prefix_of(source@) ==> message@.subrange(
        0,
        (before@ + start).len() as int,
    ) =~= before@ + start);
    message
}

/// Failure while writing to the page store.
#[derive(Debug, PartialEq, Eq)]
pub enum FilePageStoreError {
    InjectedFault(PageStoreFaultPoint),
    PageWidth(FilePageWidthError),
    PoisonedWriter,
    ForeignPageLineage(PageNumber),
    ForeignPermitLineage(LogSequenceNumber),
    PermitPositionMismatch {
        expected: LogSequenceNumber,
        actual: LogSequenceNumber,
    },
    RequiredPositionZero(PageNumber),
    SnapshotCapacityExhausted,
    StoreSequenceSpaceExhausted,
    Io(PageStoreIoError),
}

impl FilePageStoreError {
    /// The sentence, up to the operating system's own words.
    pub open spec fn spec_message(self) -> Seq<char> {
        match self {
            FilePageStoreError::InjectedFault(point) =>
                "injected page-store failure "@ + point.spec_message(),
            FilePageStoreError::PageWidth(source) => source.spec_message(),
            FilePageStoreError::PoisonedWriter =>
                "page-store writer is poisoned; reopen the file before retrying"@,
            FilePageStoreError::ForeignPageLineage(number) =>
                "page-store page "@ + decimal(number@ as nat) + " belongs to another lineage"@,
            FilePageStoreError::ForeignPermitLineage(position) =>
                "page-store permit position "@ + decimal(position.value as nat)
                    + " belongs to another lineage"@,
            FilePageStoreError::PermitPositionMismatch { expected, actual } =>
                "page-store permit position "@ + decimal(actual.value as nat)
                    + " does not equal required position "@ + decimal(expected.value as nat),
            FilePageStoreError::RequiredPositionZero(number) =>
                "page-store page "@ + decimal(number@ as nat)
                    + " has zero as its required WAL position"@,
            FilePageStoreError::SnapshotCapacityExhausted =>
                "page-store snapshot capacity is exhausted"@,
            FilePageStoreError::StoreSequenceSpaceExhausted =>
                "page-store sequence space is exhausted"@,
            FilePageStoreError::Io(source) => source.spec_message_start(),
        }
    }

    /// A sentence that describes the error.
    pub fn message(&self) -> (message: String)
        ensures
            self is Io ==> self.spec_message().is_prefix_of(message@),
            !(self is Io) ==> message@ == self.spec_message(),
    {
        match self {
            FilePageStoreError::InjectedFault(point) => {
                joined("injected page-store failure ", &point.message())
            },
            FilePageStoreError::PageWidth(source) => source.message(),
            FilePageStoreError::PoisonedWriter => {
                sentence("page-store writer is poisoned; reopen the file before retrying")
            },
            FilePageStoreError::ForeignPageLineage(number) => {
                sentence_with("page-store page ", number.get(), " belongs to another lineage")
            },
            FilePageStoreError::ForeignPermitLineage(position) => {
                sentence_with(
                    "page-store permit position ",
                    position.get(),
                    " belongs to another lineage",
                )
            },
            FilePageStoreError::PermitPositionMismatch { expected, actual } => {
                sentence_ending_two(
                    "page-store permit position ",
                    actual.get(),
                    " does not equal required position ",
                    expected.get(),
                )
            },
            FilePageStoreError::RequiredPositionZero(number) => {
                sentence_with(
                    "page-store page ",
                    number.get(),
                    " has zero as its required WAL position",
                )
            },
            FilePageStoreError::SnapshotCapacityExhausted => {
                sentence("page-store snapshot capacity is exhausted")
            },
            FilePageStoreError::StoreSequenceSpaceExhausted => {
                sentence("page-store sequence space is exhausted")
            },
            FilePageStoreError::Io(source) => source.message(),
        }
    }
}

/// Failure to observe an authoritative filesystem page-store snapshot.
#[derive(Clone, Copy, Debug, PartialEq, Eq, Structural)]
pub enum FileCommittedPageRecoveryObservationError {
    /// An uncertain prior page-store write requires reopen before observation.
    PoisonedWriter,
    /// The current stored bytes could not become adapter-neutral evidence.
    Projection(PageRecoveryObservationBytesError),
}

impl FileCommittedPageRecoveryObservationError {
    pub open spec fn spec_message(self) -> Seq<char> {
        match self {
            FileCommittedPageRecoveryObservationError::PoisonedWriter =>
                "page-store writer is poisoned; reopen the file before committed-page recovery"@,
            FileCommittedPageRecoveryObservationError::Projection(source) =>
                "filesystem page observation failed: "@ + source.spec_message(),
        }
    }

    /// A sentence that describes the error.
    pub fn message(&self) -> (message: String)
        ensures
            message@ == self.spec_message(),
    {
        match self {
            FileCommittedPageRecoveryObservationError::PoisonedWriter => {
                sentence(
                    "page-store writer is poisoned; reopen the file before committed-page recovery",
                )
            },
            FileCommittedPageRecoveryObservationError::Projection(source) => {
                joined("filesystem page observation failed: ", &source.message())
            },
        }
    }
}

/// Failure to project every current filesystem page-store snapshot.
#[derive(Clone, Copy, Debug, PartialEq, Eq, Structural)]
pub enum FilePageStoreInventoryError {
    /// An uncertain prior write requires reopen before complete inventory.
    PoisonedWriter,
    /// The complete owned inventory could not reserve its exact page bound.
    CapacityExhausted {
        /// Number of current snapshots requiring projection.
        page_count: usize,
    },
    /// One current snapshot could not become adapter-neutral evidence.
    Projection {
        /// Page whose projection failed.
        page_number: PageNumber,
        /// Exact projection cause.
        source: PageRecoveryObservationBytesError,
    },
}

impl FilePageStoreInventoryError {
    pub open spec fn spec_message(self) -> Seq<char> {
        match self {
            FilePageStoreInventoryError::PoisonedWriter =>
                "page-store writer is poisoned; reopen the file before complete inventory"@,
            FilePageStoreInventoryError::CapacityExhausted { page_count } =>
                "filesystem page inventory capacity is exhausted for "@
                    + decimal(page_count as nat) + " pages"@,
            FilePageStoreInventoryError::Projection { page_number, source } =>
                "filesystem page "@ + decimal(page_number@ as nat)
                    + " inventory projection failed: "@ + source.spec_message(),
        }
    }

    /// A sentence that describes the error.
    pub fn message(&self) -> (message: String)
        ensures
            message@ == self.spec_message(),
    {
        match self {
            FilePageStoreInventoryError::PoisonedWriter => {
                sentence(
                    "page-store writer is poisoned; reopen the file before complete inventory",
                )
            },
            FilePageStoreInventoryError::CapacityExhausted { page_count } => {
                sentence_with(
                    "filesystem page inventory capacity is exhausted for ",
                    *page_count as u64,
                    " pages",
                )
            },
            FilePageStoreInventoryError::Projection { page_number, source } => {
                let start: String = sentence_with(
                    "filesystem page ",
                    page_number.get(),
                    " inventory projection failed: ",
                );
                joined(start.as_str(), &source.message())
            },
        }
    }
}

/// How the page that a store currently holds compares with the page that a
/// recovery candidate was computed from.
#[derive(Clone, Copy, Debug, PartialEq, Eq, Structural)]
pub enum PageSourceComparison {
    /// The store still holds exactly the candidate's source.
    SourceMatches,
    /// The store already holds the candidate's target.
    TargetAlreadyPresent,
    /// The store holds some other valid page.
    SourceDiffers,
}

impl PageSourceComparison {
    pub open spec fn spec_message(self) -> Seq<char> {
        match self {
            PageSourceComparison::SourceMatches => "SourceMatches"@,
            PageSourceComparison::TargetAlreadyPresent => "TargetAlreadyPresent"@,
            PageSourceComparison::SourceDiffers => "SourceDiffers"@,
        }
    }

    /// The name of the outcome.
    pub fn message(&self) -> (message: String)
        ensures
            message@ == self.spec_message(),
    {
        match self {
            PageSourceComparison::SourceMatches => sentence("SourceMatches"),
            PageSourceComparison::TargetAlreadyPresent => sentence("TargetAlreadyPresent"),
            PageSourceComparison::SourceDiffers => sentence("SourceDiffers"),
        }
    }
}

/// The store holds a page that contradicts the candidate.
#[derive(Clone, Copy, Debug, PartialEq, Eq, Structural)]
pub struct PageSourceContradiction {
    pub page_number: PageNumber,
}

impl PageSourceContradiction {
    pub open spec fn spec_message(self) -> Seq<char> {
        "stored page "@ + decimal(self.page_number@ as nat) + " contradicts the candidate"@
    }

    /// A sentence that describes the error.
    pub fn message(&self) -> (message: String)
        ensures
            message@ == self.spec_message(),
    {
        sentence_with("stored page ", self.page_number.get(), " contradicts the candidate")
    }
}

/// Failure during the filesystem page-store's atomic recovery replacement.
#[derive(Debug, PartialEq, Eq)]
pub enum FileCommittedPageRecoveryStoreError {
    /// The candidate target page position belongs to another lineage.
    ForeignTargetPagePosition(LogSequenceNumber),
    /// The candidate target commit position belongs to another lineage.
    ForeignTargetCommitPosition(LogSequenceNumber),
    /// The recovery permit page position belongs to another lineage.
    ForeignPermitPagePosition(LogSequenceNumber),
    /// The recovery permit commit position belongs to another lineage.
    ForeignPermitCommitPosition(LogSequenceNumber),
    /// The permit page position differs from the candidate target.
    PermitPagePositionMismatch {
        /// Candidate target page position.
        expected: LogSequenceNumber,
        /// Supplied permit page position.
        actual: LogSequenceNumber,
    },
    /// The permit commit position differs from the candidate target.
    PermitCommitPositionMismatch {
        /// Candidate target commit position.
        expected: LogSequenceNumber,
        /// Supplied permit commit position.
        actual: LogSequenceNumber,
    },
    /// Current store state could not be projected during the locked recheck.
    CurrentObservation(PageRecoveryObservationBytesError),
    /// Current store state contradicted the candidate.
    SourceComparison(PageSourceContradiction),
    /// Current store state was valid but no longer matched the candidate source.
    SourceNotMatched {
        /// Non-source comparison observed under the store's lifetime lock.
        actual: PageSourceComparison,
    },
    /// Shared physical page-store writing failed at an exact typed boundary.
    PageStore(FilePageStoreError),
}

impl FileCommittedPageRecoveryStoreError {
    pub open spec fn mentions_io(self) -> bool {
        match self {
            FileCommittedPageRecoveryStoreError::PageStore(source) => source is Io,
            _ => false,
        }
    }

    /// The sentence, up to the operating system's own words.
    pub open spec fn spec_message(self) -> Seq<char> {
        match self {
            FileCommittedPageRecoveryStoreError::ForeignTargetPagePosition(position) =>
                "recovery target page position "@ + decimal(position.value as nat)
                    + " belongs to another lineage"@,
            FileCommittedPageRecoveryStoreError::ForeignTargetCommitPosition(position) =>
                "recovery target commit position "@ + decimal(position.value as nat)
                    + " belongs to another lineage"@,
            FileCommittedPageRecoveryStoreError::ForeignPermitPagePosition(position) =>
                "recovery permit page position "@ + decimal(position.value as nat)
                    + " belongs to another lineage"@,
            FileCommittedPageRecoveryStoreError::ForeignPermitCommitPosition(position) =>
                "recovery permit commit position "@ + decimal(position.value as nat)
                    + " belongs to another lineage"@,
            FileCommittedPageRecoveryStoreError::PermitPagePositionMismatch { expected, actual } =>
                "recovery permit page position "@ + decimal(actual.value as nat)
                    + " does not match target position "@ + decimal(expected.value as nat),
            FileCommittedPageRecoveryStoreError::PermitCommitPositionMismatch {
                expected,
                actual,
            } =>
                "recovery permit commit position "@ + decimal(actual.value as nat)
                    + " does not match target position "@ + decimal(expected.value as nat),
            FileCommittedPageRecoveryStoreError::CurrentObservation(source) =>
                "recovery current-page observation failed: "@ + source.spec_message(),
            FileCommittedPageRecoveryStoreError::SourceComparison(source) =>
                "recovery source comparison failed: "@ + source.spec_message(),
            FileCommittedPageRecoveryStoreError::SourceNotMatched { actual } =>
                "recovery source no longer matches the candidate: "@ + actual.spec_message(),
            FileCommittedPageRecoveryStoreError::PageStore(source) =>
                "recovery page-store write failed: "@ + source.spec_message(),
        }
    }

    /// A sentence that describes the error.
    pub fn message(&self) -> (message: String)
        ensures
            self.mentions_io() ==> self.spec_message().is_prefix_of(message@),
            !self.mentions_io() ==> message@ == self.spec_message(),
    {
        match self {
            FileCommittedPageRecoveryStoreError::ForeignTargetPagePosition(position) => {
                sentence_with(
                    "recovery target page position ",
                    position.get(),
                    " belongs to another lineage",
                )
            },
            FileCommittedPageRecoveryStoreError::ForeignTargetCommitPosition(position) => {
                sentence_with(
                    "recovery target commit position ",
                    position.get(),
                    " belongs to another lineage",
                )
            },
            FileCommittedPageRecoveryStoreError::ForeignPermitPagePosition(position) => {
                sentence_with(
                    "recovery permit page position ",
                    position.get(),
                    " belongs to another lineage",
                )
            },
            FileCommittedPageRecoveryStoreError::ForeignPermitCommitPosition(position) => {
                sentence_with(
                    "recovery permit commit position ",
                    position.get(),
                    " belongs to another lineage",
                )
            },
            FileCommittedPageRecoveryStoreError::PermitPagePositionMismatch { expected, actual } => {
                sentence_ending_two(
                    "recovery permit page position ",
                    actual.get(),
                    " does not match target position ",
                    expected.get(),
                )
            },
            FileCommittedPageRecoveryStoreError::PermitCommitPositionMismatch {
                expected,
                actual,
            } => {
                sentence_ending_two(
                    "recovery permit commit position ",
                    actual.get(),
                    " does not match target position ",
                    expected.get(),
                )
            },
            FileCommittedPageRecoveryStoreError::CurrentObservation(source) => {
                joined("recovery current-page observation failed: ", &source.message())
            },
            FileCommittedPageRecoveryStoreError::SourceComparison(source) => {
                joined("recovery source comparison failed: ", &source.message())
            },
            FileCommittedPageRecoveryStoreError::SourceNotMatched { actual } => {
                joined("recovery source no longer matches the candidate: ", &actual.message())
            },
            FileCommittedPageRecoveryStoreError::PageStore(source) => {
                joined_source(
                    "recovery page-store write failed: ",
                    source.message(),
                    Ghost(source.spec_message()),
                )
            },
        }
    }
}

pub open spec fn optional_position_value(position: Option<LogSequenceNumber>) -> Option<u64> {
    match position {
        None => None,
        Some(position) => Some(position.value),
    }
}

fn position_number(position: &Option<LogSequenceNumber>) -> (number: Option<u64>)
    ensures
        number == optional_position_value(*position),
{
    match position {
        None => None,
        Some(position) => Some(position.get()),
    }
}

/// Failure during one filesystem atomic replay page replacement.
#[derive(Debug, PartialEq, Eq)]
pub enum FileRestartCheckpointPageRepairStoreError {
    /// The candidate target page position belongs to another lineage.
    ForeignTargetPagePosition(LogSequenceNumber),
    /// A committed candidate target position belongs to another lineage.
    ForeignTargetCommitPosition(LogSequenceNumber),
    /// The repair permit page position belongs to another lineage.
    ForeignPermitPagePosition(LogSequenceNumber),
    /// A repair permit commit position belongs to another lineage.
    ForeignPermitCommitPosition(LogSequenceNumber),
    /// The permit page position differs from the candidate target.
    PermitPagePositionMismatch {
        /// Candidate target page position.
        expected: LogSequenceNumber,
        /// Supplied permit page position.
        actual: LogSequenceNumber,
    },
    /// The permit commit shape or position differs from the candidate target.
    PermitCommitPositionMismatch {
        /// Candidate commit position, absent for a raw target.
        expected: Option<LogSequenceNumber>,
        /// Supplied permit commit position.
        actual: Option<LogSequenceNumber>,
    },
    /// Current store state could not be projected during the locked recheck.
    CurrentObservation(PageRecoveryObservationBytesError),
    /// Current store state contradicted the candidate.
    SourceComparison(PageSourceContradiction),
    /// Current store state was valid but no longer matched the candidate source.
    SourceNotMatched {
        /// Non-source comparison observed under the lifetime store lock.
        actual: PageSourceComparison,
    },
    /// Shared physical page-store writing failed at an exact typed boundary.
    PageStore(FilePageStoreError),
}

impl FileRestartCheckpointPageRepairStoreError {
    pub open spec fn mentions_io(self) -> bool {
        match self {
            FileRestartCheckpointPageRepairStoreError::PageStore(source) => source is Io,
            _ => false,
        }
    }

    /// The sentence, up to the operating system's own words.
    pub open spec fn spec_message(self) -> Seq<char> {
        match self {
            FileRestartCheckpointPageRepairStoreError::ForeignTargetPagePosition(position) =>
                "replay-repair target page position "@ + decimal(position.value as nat)
                    + " belongs to another lineage"@,
            FileRestartCheckpointPageRepairStoreError::ForeignTargetCommitPosition(position) =>
                "replay-repair target commit position "@ + decimal(position.value as nat)
                    + " belongs to another lineage"@,
            FileRestartCheckpointPageRepairStoreError::ForeignPermitPagePosition(position) =>
                "replay-repair permit page position "@ + decimal(position.value as nat)
                    + " belongs to another lineage"@,
            FileRestartCheckpointPageRepairStoreError::ForeignPermitCommitPosition(position) =>
                "replay-repair permit commit position "@ + decimal(position.value as nat)
                    + " belongs to another lineage"@,
            FileRestartCheckpointPageRepairStoreError::PermitPagePositionMismatch {
                expected,
                actual,
            } =>
                "replay-repair permit page position "@ + decimal(actual.value as nat)
                    + " does not match target position "@ + decimal(expected.value as nat),
            FileRestartCheckpointPageRepairStoreError::PermitCommitPositionMismatch {
                expected,
                actual,
            } =>
                "replay-repair permit commit position "@
                    + optional_decimal(optional_position_value(actual))
                    + " does not match target position "@
                    + optional_decimal(optional_position_value(expected)),
            FileRestartCheckpointPageRepairStoreError::CurrentObservation(source) =>
                "replay-repair current-page observation failed: "@ + source.spec_message(),
            FileRestartCheckpointPageRepairStoreError::SourceComparison(source) =>
                "replay-repair source comparison failed: "@ + source.spec_message(),
            FileRestartCheckpointPageRepairStoreError::SourceNotMatched { actual } =>
                "replay-repair source no longer matches the candidate: "@ + actual.spec_message(),
            FileRestartCheckpointPageRepairStoreError::PageStore(source) =>
                "replay-repair page-store write failed: "@ + source.spec_message(),
        }
    }

    /// A sentence that describes the error.
    pub fn message(&self) -> (message: String)
        ensures
            self.mentions_io() ==> self.spec_message().is_prefix_of(message@),
            !self.mentions_io() ==> message@ == self.spec_message(),
    {
        match self {
            FileRestartCheckpointPageRepairStoreError::ForeignTargetPagePosition(position) => {
                sentence_with(
                    "replay-repair target page position ",
                    position.get(),
                    " belongs to another lineage",
                )
            },
            FileRestartCheckpointPageRepairStoreError::ForeignTargetCommitPosition(position) => {
                sentence_with(
                    "replay-repair target commit position ",
                    position.get(),
                    " belongs to another lineage",
                )
            },
            FileRestartCheckpointPageRepairStoreError::ForeignPermitPagePosition(position) => {
                sentence_with(
                    "replay-repair permit page position ",
                    position.get(),
                    " belongs to another lineage",
                )
            },
            FileRestartCheckpointPageRepairStoreError::ForeignPermitCommitPosition(position) => {
                sentence_with(
                    "replay-repair permit commit position ",
                    position.get(),
                    " belongs to another lineage",
                )
            },
            FileRestartCheckpointPageRepairStoreError::PermitPagePositionMismatch {
                expected,
                actual,
            } => {
                sentence_ending_two(
                    "replay-repair permit page position ",
                    actual.get(),
                    " does not match target position ",
                    expected.get(),
                )
            },
            FileRestartCheckpointPageRepairStoreError::PermitCommitPositionMismatch {
                expected,
                actual,
            } => {
                sentence_with_options(
                    "replay-repair permit commit position ",
                    position_number(actual),
                    " does not match target position ",
                    position_number(expected),
                )
            },
            FileRestartCheckpointPageRepairStoreError::CurrentObservation(source) => {
                joined("replay-repair current-page observation failed: ", &source.message())
            },
            FileRestartCheckpointPageRepairStoreError::SourceComparison(source) => {
                joined("replay-repair source comparison failed: ", &source.message())
            },
            FileRestartCheckpointPageRepairStoreError::SourceNotMatched { actual } => {
                joined("replay-repair source no longer matches the candidate: ", &actual.message())
            },
            FileRestartCheckpointPageRepairStoreError::PageStore(source) => {
                joined_source(
                    "replay-repair page-store write failed: ",
                    source.message(),
                    Ghost(source.spec_message()),
                )
            },
        }
    }
}

} // verus!
