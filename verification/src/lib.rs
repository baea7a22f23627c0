//! A transaction commit log, a page store and restart checkpoints, each in one file.
//!
//! The library holds no file. An operation on an open log or store gives a plan: the
//! effects that have to be carried out on the file, in order. Once all of them have
//! succeeded, the plan is handed back and becomes part of the state; if one has
//! failed, the failure is handed back instead. Opening a file takes its bytes.
//!
//! # The commit log
//!
//! A header is followed by frames of 56 bytes. A frame allocates a transaction epoch,
//! records a commit, begins a page, names the page's owner, carries eight bytes of the
//! page, or marks every record through one position as durable. What a frame means,
//! and when it is refused, is [`log_scan`]; what a whole file means is [`log_model`].
//!
//! There are five versions of the header. Version 1 has commits only, version 2 adds
//! pages and version 3 pages that transactions own. A file of version 4 has replaced
//! another whose first records a checkpoint had made unnecessary. Version 5 adds the
//! identity of the database that the file belongs to.
//!
//! # The page store
//!
//! The store holds the current snapshot of each page, together with the log position
//! that has to be durable before the snapshot may be relied on. Its file is read by
//! [`page_store_scan`].
//!
//! # Checkpoints
//!
//! [`checkpoint`] encodes what restart has to know of the transactions at one point of
//! the log, and decodes it without trusting any of it.
//!
//! # Laws
//!
//! What holds across operations is proved in the modules whose names end in `laws`,
//! and beside the definitions that a law is about: what was appended, flushed,
//! allocated, written or reclaimed is what opening the file gives back, an operation
//! that was cut short leaves no trace, and a damaged byte does not go unnoticed. The
//! same modules state for each operation what its result has to be: when it succeeds,
//! what it leaves as it was, and which of several reasons it is refused for.

pub mod accessor_laws;
pub mod bytes;
pub mod checkpoint;
pub mod checkpoint_error;
pub mod checkpoint_laws;
pub mod checksum_laws;
pub mod commit_log;
pub mod database_identity;
pub mod fault_order_laws;
pub mod file_layout_laws;
pub mod format;
pub mod identity;
pub mod io_error;
pub mod log_effect;
pub mod log_error;
pub mod log_frame;
pub mod log_header;
pub mod log_history_laws;
pub mod log_laws;
pub mod log_model;
pub mod log_open_laws;
pub mod log_open_state;
pub mod log_operation_laws;
pub mod log_reclamation_laws;
pub mod log_reclamation_step_laws;
pub mod log_record;
pub mod log_recovery_laws;
pub mod log_replay;
pub mod log_scan;
pub mod log_scan_laws;
pub mod log_state_laws;
pub mod message_laws;
pub mod observation;
pub mod open_laws;
pub mod page;
pub mod page_store;
pub mod page_store_effect;
pub mod page_store_error;
pub mod page_store_frame;
pub mod page_store_header;
pub mod page_store_history_laws;
pub mod page_store_laws;
pub mod page_store_open_state;
pub mod page_store_operation_laws;
pub mod page_store_scan;
pub mod page_store_scan_laws;
pub mod record_laws;
pub mod room;
pub mod stored_page;
pub mod text;
pub mod text_laws;

pub use checkpoint::{decode_restart_checkpoint_baseline, encode_restart_checkpoint_baseline};
pub use checkpoint_error::{
    RestartCheckpointBaselineDecodeError, RestartCheckpointBaselineEncodeError,
    RestartCheckpointBaselineEntryOptionalField,
};
pub use commit_log::FileCommitLog;
pub use log_error::{
    FaultAlreadyArmed, FaultPoint, FileCommitLogError, FileCommittedPageRecoveryInventoryError,
    FileCommittedPageRecoverySourceError, FileCreateError, FileFormatError, FileFormatErrorReason,
    FileIoError, FileIoStage, FileOpenError, FilePageRecoveryProjection, FilePageWidthError,
    FileTransactionEpochError, FileTransactionRecoveryError,
    FileTransactionRestartAnalysisSourceError, FileTransactionRestartRetentionMetadataSourceError,
    FileTransactionRestartWalReclamationError,
};
pub use log_record::{
    FileLogRecord, FileLogRecordKind, FilePageWriteRecord, FileTransactionPageWriteRecord,
};
pub use page_store::{open_transaction_page_storage, FilePageStore};
pub use page_store_error::{
    FileCommittedPageRecoveryObservationError, FileCommittedPageRecoveryStoreError,
    FilePageStoreError, FilePageStoreInventoryError, FileRestartCheckpointPageRepairStoreError,
    FileTransactionPageStorageOpenError, PageStoreCreateError, PageStoreFaultAlreadyArmed,
    PageStoreFaultPoint, PageStoreFormatError, PageStoreFormatErrorReason, PageStoreIoError,
    PageStoreIoStage, PageStoreOpenError,
};
pub use stored_page::FileStoredPage;
