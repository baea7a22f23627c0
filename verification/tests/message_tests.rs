//! The sentences that describe errors, and what the operating system adds to them.
use ntsql_storage_file::checkpoint_error::{
    RestartCheckpointBaselineDecodeError, RestartCheckpointBaselineEncodeError,
    RestartCheckpointBaselineEntryOptionalField,
};
use ntsql_storage_file::database_identity::DatabaseChildIdentityDecodeErrorReason;
use ntsql_storage_file::identity::{LogLineage, PageNumber, TransactionId};
use ntsql_storage_file::io_error::{failure_message, same_io_report};
use ntsql_storage_file::log_error::{
    FaultAlreadyArmed, FaultPoint, FileCommitLogError, FileCommittedPageRecoverySourceError,
    FileCreateError, FileFormatError, FileFormatErrorReason, FileIoError, FileIoStage,
    FileOpenError, FilePageRecoveryProjection, FilePageWidthError, FileTransactionEpochError,
    FileTransactionRecoveryError, FileTransactionRestartAnalysisSourceError,
    FileTransactionRestartWalReclamationError, FramePayloadField,
};
use ntsql_storage_file::observation::{
    DurableTransactionCommitObservationFieldsError, PageRecoveryObservationBytesError,
};
use ntsql_storage_file::page_store_error::{
    FileCommittedPageRecoveryStoreError, FilePageStoreError, FilePageStoreInventoryError,
    FileTransactionPageStorageOpenError, PageSourceContradiction, PageStoreFaultPoint,
    PageStoreFormatError, PageStoreFormatErrorReason, PageStoreIoError, PageStoreIoStage,
    PageStoreOpenError,
};
use ntsql_storage_file::text::byte_list_text;

#[test]
fn an_io_error_ends_with_the_words_of_its_cause() {
    let error: FileIoError =
        FileIoError::new(FileIoStage::OpenFile, std::io::Error::other("disk is gone"));
    assert_eq!(error.message(), "opening the commit-log file failed: disk is gone");
    assert_eq!(
        FileOpenError::Io(error).message(),
        "opening the commit-log file failed: disk is gone"
    );
    let error: PageStoreIoError =
        PageStoreIoError::new(PageStoreIoStage::SeekEnd, std::io::Error::other("no end"));
    assert!(error.message().ends_with(" failed: no end"));
    assert_eq!(
        failure_message(&String::from("reading"), &String::from("out of paper")),
        "reading failed: out of paper"
    );
}

#[test]
fn io_errors_are_equal_by_stage_kind_and_number() {
    let with = |stage: FileIoStage, source: std::io::Error| FileIoError::new(stage, source);
    let number = |code: i32| std::io::Error::from_raw_os_error(code);
    assert_eq!(
        with(FileIoStage::ReadHeader, number(5)),
        with(FileIoStage::ReadHeader, number(5))
    );
    assert_ne!(
        with(FileIoStage::ReadHeader, number(5)),
        with(FileIoStage::ReadFrame, number(5))
    );
    assert_ne!(
        with(FileIoStage::ReadHeader, number(5)),
        with(FileIoStage::ReadHeader, number(2))
    );
    assert_ne!(
        with(FileIoStage::ReadHeader, number(2)),
        with(
            FileIoStage::ReadHeader,
            std::io::Error::new(std::io::ErrorKind::NotFound, "gone")
        )
    );
    assert_eq!(
        PageStoreIoError::new(PageStoreIoStage::ReadFrame, number(5)),
        PageStoreIoError::new(PageStoreIoStage::ReadFrame, number(5))
    );
    assert!(same_io_report(true, None, None));
    assert!(same_io_report(true, Some(5), Some(5)));
    assert!(!same_io_report(false, Some(5), Some(5)));
    assert!(!same_io_report(true, Some(5), None));
}

#[test]
fn log_errors_describe_themselves() {
    assert_eq!(
        FaultAlreadyArmed { armed: FaultPoint::AfterFlush, requested: FaultPoint::BeforeAppend }
            .message(),
        "fault after flush is already armed; cannot arm before append"
    );
    assert_eq!(
        FileCommitLogError::InjectedFault(FaultPoint::AfterAppend).message(),
        "injected commit-log failure after append"
    );
    assert_eq!(
        FileCommitLogError::PageWidthMismatch { expected: 2, actual: 3 }.message(),
        "page width 3 does not match log page width 2"
    );
    assert_eq!(
        FileCommitLogError::UnknownFlushPosition(LogLineage::Process(1).position(9)).message(),
        "commit-log position 9 was not appended"
    );
    assert_eq!(
        FileCreateError::MissingParentDirectory.message(),
        "commit-log path does not have an existing parent directory"
    );
    assert_eq!(
        FileCreateError::PageWidth(FilePageWidthError::Zero).message(),
        "page width must be nonzero for the v2 file format"
    );
    assert_eq!(
        FilePageWidthError::NotRepresentable { actual: 70 }.message(),
        "page width 70 does not fit the persistent v2 file format"
    );
    assert_eq!(
        FileTransactionEpochError::EpochSpaceExhausted.message(),
        "transaction epoch space is exhausted"
    );
    assert_eq!(
        FileTransactionRecoveryError::VolatileCommitRecord(TransactionId::new(3, 14).unwrap())
            .message(),
        "transaction 3:14 has a complete unmarked commit record"
    );
}

#[test]
fn format_errors_describe_themselves() {
    let message = |reason: FileFormatErrorReason| FileFormatError::new(120, reason).message();
    assert_eq!(
        message(FileFormatErrorReason::HeaderLength { actual: 65 }),
        "format error at byte 120: header length 65 does not equal 64"
    );
    assert_eq!(
        message(FileFormatErrorReason::FrameChecksum {
            expected: 0x0123_4567_89ab_cdef,
            actual: 0xff,
        }),
        "format error at byte 120: frame checksum mismatch: \
         expected 0x0123456789abcdef, found 0x00000000000000ff"
    );
    assert_eq!(
        message(FileFormatErrorReason::HeaderV4RetainedFirstMismatch {
            expected: Some(8),
            actual: None,
        }),
        "format error at byte 120: v4 retained-first metadata Some(8) \
         does not match retained records None"
    );
    assert_eq!(
        message(FileFormatErrorReason::UnexpectedNonzeroPayload {
            field: FramePayloadField::Payload1,
            actual: 7,
        }),
        format!(
            "format error at byte 120: payload field {} is nonzero \
             when the frame kind requires zero: 7",
            FramePayloadField::Payload1.message()
        )
    );
    assert_eq!(
        message(FileFormatErrorReason::HeaderDatabaseChildIdentity(
            DatabaseChildIdentityDecodeErrorReason::Version { actual: 4 }
        )),
        "format error at byte 120: unsupported database child identity version 4"
    );
    assert_eq!(
        message(FileFormatErrorReason::EpochOutOfSequence {
            expected: 10,
            actual: 18_446_744_073_709_551_615,
        }),
        "format error at byte 120: epoch allocation 18446744073709551615 \
         does not equal the next contiguous epoch 10"
    );
}

#[test]
fn recovery_errors_describe_themselves() {
    assert!(FileCommittedPageRecoverySourceError::EvidenceCapacityExhausted {
        projection: FilePageRecoveryProjection::Commits,
    }
    .message()
    .contains(FilePageRecoveryProjection::Commits.message().as_str()));
    assert!(FileCommittedPageRecoverySourceError::CommitProjection(
        DurableTransactionCommitObservationFieldsError::PositionZero
    )
    .message()
    .ends_with("commit position is zero"));
    assert!(FileTransactionRestartAnalysisSourceError::PageProjection(
        PageRecoveryObservationBytesError::ImageWidthZero
    )
    .message()
    .ends_with(PageRecoveryObservationBytesError::ImageWidthZero.message().as_str()));
    assert!(FileTransactionRestartWalReclamationError::Io(FileIoError::new(
        FileIoStage::RenameReclamationCandidate,
        std::io::Error::other("busy"),
    ))
    .message()
    .ends_with("busy"));
}

#[test]
fn store_errors_describe_themselves() {
    assert_eq!(
        FilePageStoreError::InjectedFault(PageStoreFaultPoint::BeforeWrite).message(),
        "injected page-store failure before write"
    );
    assert_eq!(
        FilePageStoreInventoryError::CapacityExhausted { page_count: 3 }.message(),
        "filesystem page inventory capacity is exhausted for 3 pages"
    );
    assert!(FileCommittedPageRecoveryStoreError::SourceComparison(PageSourceContradiction {
        page_number: PageNumber::new(8).unwrap(),
    })
    .message()
    .ends_with("stored page 8 contradicts the candidate"));
    let format: PageStoreOpenError = PageStoreOpenError::Format(PageStoreFormatError::new(
        64,
        PageStoreFormatErrorReason::RequiredPositionZero,
    ));
    let text: String = format.message();
    assert!(text.contains("64"));
    assert_eq!(
        FileTransactionPageStorageOpenError::PageStore(format).message(),
        format!("page-store open failed: {text}")
    );
}

#[test]
fn checkpoint_errors_describe_themselves() {
    assert!(RestartCheckpointBaselineEncodeError::CapacityExhausted { encoded_length: 144 }
        .message()
        .contains("144 bytes"));
    assert!(RestartCheckpointBaselineDecodeError::HeaderMagicMismatch { actual: [1; 8] }
        .message()
        .contains("[1, 1, 1, 1, 1, 1, 1, 1]"));
    assert!(RestartCheckpointBaselineDecodeError::EntryPositionPresenceInvalid {
        transaction_index: 4,
        field: RestartCheckpointBaselineEntryOptionalField::LastOwnedPagePosition,
        actual: 2,
    }
    .message()
    .contains('4'));
    assert_eq!(byte_list_text(&[7, 250]), "[7, 250]");
    assert_eq!(byte_list_text(&[]), "[]");
}
