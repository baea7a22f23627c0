//! Recovery evidence that records and stored pages are projected into.
use vstd::prelude::*;

use crate::identity::{LogSequenceNumber, PageNumber, PageVersion, TransactionId};
use crate::log_record::{PageModel, RecordBody, RecordModel};
use crate::text::sentence;

verus! {

/// Why a page image cannot be evidence.
#[derive(Clone, Copy, Debug, PartialEq, Eq, Structural)]
pub enum PageRecoveryObservationBytesError {
    ImageWidthZero,
}

impl PageRecoveryObservationBytesError {
    pub open spec fn spec_message(self) -> Seq<char> {
        "page image width is zero"@
    }

    /// A sentence that describes the error.
    pub fn message(&self) -> (message: String)
        ensures
            message@ == self.spec_message(),
    {
        sentence("page image width is zero")
    }
}

/// Why an owned page image cannot be evidence.
#[derive(Clone, Copy, Debug, PartialEq, Eq, Structural)]
pub enum DurableTransactionPageObservationBytesError {
    OwnerEpochZero,
    OwnerSequenceZero,
    ImageWidthZero,
}

impl DurableTransactionPageObservationBytesError {
    pub open spec fn spec_message(self) -> Seq<char> {
        match self {
            DurableTransactionPageObservationBytesError::OwnerEpochZero =>
                "page owner epoch is zero"@,
            DurableTransactionPageObservationBytesError::OwnerSequenceZero =>
                "page owner sequence is zero"@,
            DurableTransactionPageObservationBytesError::ImageWidthZero =>
                "page image width is zero"@,
        }
    }

    /// A sentence that describes the error.
    pub fn message(&self) -> (message: String)
        ensures
            message@ == self.spec_message(),
    {
        match self {
            DurableTransactionPageObservationBytesError::OwnerEpochZero => {
                sentence("page owner epoch is zero")
            },
            DurableTransactionPageObservationBytesError::OwnerSequenceZero => {
                sentence("page owner sequence is zero")
            },
            DurableTransactionPageObservationBytesError::ImageWidthZero => {
                sentence("page image width is zero")
            },
        }
    }
}

/// Why the fields of a commit record cannot be evidence.
#[derive(Clone, Copy, Debug, PartialEq, Eq, Structural)]
pub enum DurableTransactionCommitObservationFieldsError {
    EpochZero,
    SequenceZero,
    PositionZero,
}

impl DurableTransactionCommitObservationFieldsError {
    pub open spec fn spec_message(self) -> Seq<char> {
        match self {
            DurableTransactionCommitObservationFieldsError::EpochZero => "commit epoch is zero"@,
            DurableTransactionCommitObservationFieldsError::SequenceZero =>
                "commit sequence is zero"@,
            DurableTransactionCommitObservationFieldsError::PositionZero =>
                "commit position is zero"@,
        }
    }

    /// A sentence that describes the error.
    pub fn message(&self) -> (message: String)
        ensures
            message@ == self.spec_message(),
    {
        match self {
            DurableTransactionCommitObservationFieldsError::EpochZero => {
                sentence("commit epoch is zero")
            },
            DurableTransactionCommitObservationFieldsError::SequenceZero => {
                sentence("commit sequence is zero")
            },
            DurableTransactionCommitObservationFieldsError::PositionZero => {
                sentence("commit position is zero")
            },
        }
    }
}

/// One physical page image found at one log position.
#[derive(Clone, Debug, PartialEq, Eq)]
pub struct DurablePageWalObservation<const N: usize> {
    pub page_number: PageNumber,
    pub page_version: PageVersion,
    pub bytes: [u8; N],
    pub position: LogSequenceNumber,
}

impl<const N: usize> DurablePageWalObservation<N> {
    /// The image as an unowned page record.
    pub open spec fn view(&self) -> RecordModel {
        RecordModel {
            position: self.position.value,
            body: RecordBody::Page {
                page: PageModel {
                    number: self.page_number@,
                    version: self.page_version.value,
                    bytes: self.bytes@,
                },
            },
        }
    }

    /// Accepts any image that is at least one byte wide.
    pub fn from_bytes(
        page_number: PageNumber,
        page_version: PageVersion,
        bytes: [u8; N],
        position: LogSequenceNumber,
    ) -> (result: Result<DurablePageWalObservation<N>, PageRecoveryObservationBytesError>)
        ensures
            N == 0 ==> result == Err::<DurablePageWalObservation<N>, _>(
                PageRecoveryObservationBytesError::ImageWidthZero,
            ),
            N > 0 ==> result == Ok::<_, PageRecoveryObservationBytesError>(
                DurablePageWalObservation { page_number, page_version, bytes, position },
            ),
    {
        if N == 0 {
            return Err(PageRecoveryObservationBytesError::ImageWidthZero);
        }
        Ok(DurablePageWalObservation { page_number, page_version, bytes, position })
    }

    pub fn position(&self) -> (position: &LogSequenceNumber)
        ensures
            *position == self.position,
    {
        &self.position
    }

    pub fn bytes(&self) -> (bytes: &[u8; N])
        ensures
            *bytes == self.bytes,
    {
        &self.bytes
    }
}

/// One transaction-owned page image found at one log position.
#[derive(Clone, Debug, PartialEq, Eq)]
pub struct DurableTransactionPageObservation<const N: usize> {
    pub transaction_epoch: u64,
    pub transaction_sequence: u64,
    pub page_number: PageNumber,
    pub page_version: PageVersion,
    pub bytes: [u8; N],
    pub position: LogSequenceNumber,
}

impl<const N: usize> DurableTransactionPageObservation<N> {
    /// The image as a record that its transaction owns.
    pub open spec fn view(&self) -> RecordModel {
        RecordModel {
            position: self.position.value,
            body: RecordBody::OwnedPage {
                epoch: self.transaction_epoch,
                sequence: self.transaction_sequence,
                page: PageModel {
                    number: self.page_number@,
                    version: self.page_version.value,
                    bytes: self.bytes@,
                },
            },
        }
    }

    pub open spec fn fields_error(
        transaction_epoch: u64,
        transaction_sequence: u64,
    ) -> Option<DurableTransactionPageObservationBytesError> {
        if transaction_epoch == 0 {
            Some(DurableTransactionPageObservationBytesError::OwnerEpochZero)
        } else if transaction_sequence == 0 {
            Some(DurableTransactionPageObservationBytesError::OwnerSequenceZero)
        } else if N == 0 {
            Some(DurableTransactionPageObservationBytesError::ImageWidthZero)
        } else {
            None
        }
    }

    /// Accepts a nonzero owner and an image that is at least one byte wide.
    pub fn from_bytes(
        transaction_epoch: u64,
        transaction_sequence: u64,
        page_number: PageNumber,
        page_version: PageVersion,
        bytes: [u8; N],
        position: LogSequenceNumber,
    ) -> (result: Result<
        DurableTransactionPageObservation<N>,
        DurableTransactionPageObservationBytesError,
    >)
        ensures
            result == match Self::fields_error(transaction_epoch, transaction_sequence) {
                Some(error) => Err(error),
                None => Ok(
                    DurableTransactionPageObservation {
                        transaction_epoch,
                        transaction_sequence,
                        page_number,
                        page_version,
                        bytes,
                        position,
                    },
                ),
            },
    {
        if transaction_epoch == 0 {
            return Err(DurableTransactionPageObservationBytesError::OwnerEpochZero);
        }
        if transaction_sequence == 0 {
            return Err(DurableTransactionPageObservationBytesError::OwnerSequenceZero);
        }
        if N == 0 {
            return Err(DurableTransactionPageObservationBytesError::ImageWidthZero);
        }
        Ok(
            DurableTransactionPageObservation {
                transaction_epoch,
                transaction_sequence,
                page_number,
                page_version,
                bytes,
                position,
            },
        )
    }

    /// Whether the owner is the given transaction.
    pub fn owner_matches(&self, transaction_id: TransactionId) -> (matches: bool)
        ensures
            matches == (self.transaction_epoch == transaction_id.spec_epoch()
                && self.transaction_sequence == transaction_id.spec_sequence()),
    {
        self.transaction_epoch == transaction_id.epoch() && self.transaction_sequence
            == transaction_id.sequence()
    }

    pub fn position(&self) -> (position: &LogSequenceNumber)
        ensures
            *position == self.position,
    {
        &self.position
    }
}

/// One transaction commit found at one log position.
#[derive(Clone, Copy, Debug, PartialEq, Eq, Structural)]
pub struct DurableTransactionCommitObservation {
    pub transaction_epoch: u64,
    pub transaction_sequence: u64,
    pub position: LogSequenceNumber,
}

impl DurableTransactionCommitObservation {
    /// The commit as a record.
    pub open spec fn view(&self) -> RecordModel {
        RecordModel {
            position: self.position.value,
            body: RecordBody::Commit {
                epoch: self.transaction_epoch,
                sequence: self.transaction_sequence,
            },
        }
    }

    pub open spec fn fields_error(
        transaction_epoch: u64,
        transaction_sequence: u64,
        position: LogSequenceNumber,
    ) -> Option<DurableTransactionCommitObservationFieldsError> {
        if transaction_epoch == 0 {
            Some(DurableTransactionCommitObservationFieldsError::EpochZero)
        } else if transaction_sequence == 0 {
            Some(DurableTransactionCommitObservationFieldsError::SequenceZero)
        } else if position.value == 0 {
            Some(DurableTransactionCommitObservationFieldsError::PositionZero)
        } else {
            None
        }
    }

    /// Accepts a nonzero identity at a nonzero position.
    pub fn from_fields(
        transaction_epoch: u64,
        transaction_sequence: u64,
        position: LogSequenceNumber,
    ) -> (result: Result<
        DurableTransactionCommitObservation,
        DurableTransactionCommitObservationFieldsError,
    >)
        ensures
            result == match Self::fields_error(transaction_epoch, transaction_sequence, position) {
                Some(error) => Err(error),
                None => Ok(
                    DurableTransactionCommitObservation {
                        transaction_epoch,
                        transaction_sequence,
                        position,
                    },
                ),
            },
    {
        if transaction_epoch == 0 {
            return Err(DurableTransactionCommitObservationFieldsError::EpochZero);
        }
        if transaction_sequence == 0 {
            return Err(DurableTransactionCommitObservationFieldsError::SequenceZero);
        }
        if position.get() == 0 {
            return Err(DurableTransactionCommitObservationFieldsError::PositionZero);
        }
        Ok(
            DurableTransactionCommitObservation {
                transaction_epoch,
                transaction_sequence,
                position,
            },
        )
    }

    pub fn transaction_matches(&self, transaction_id: TransactionId) -> (matches: bool)
        ensures
            matches == (self.transaction_epoch == transaction_id.spec_epoch()
                && self.transaction_sequence == transaction_id.spec_sequence()),
    {
        self.transaction_epoch == transaction_id.epoch() && self.transaction_sequence
            == transaction_id.sequence()
    }

    pub fn position(&self) -> (position: &LogSequenceNumber)
        ensures
            *position == self.position,
    {
        &self.position
    }
}

/// One page image found in the page store.
#[derive(Clone, Debug, PartialEq, Eq)]
pub struct StoredPageSnapshotObservation<const N: usize> {
    pub page_number: PageNumber,
    pub page_version: PageVersion,
    pub bytes: [u8; N],
    pub required_position: LogSequenceNumber,
}

impl<const N: usize> StoredPageSnapshotObservation<N> {
    /// Accepts any image that is at least one byte wide.
    pub fn from_bytes(
        page_number: PageNumber,
        page_version: PageVersion,
        bytes: [u8; N],
        required_position: LogSequenceNumber,
    ) -> (result: Result<StoredPageSnapshotObservation<N>, PageRecoveryObservationBytesError>)
        ensures
            N == 0 ==> result == Err::<StoredPageSnapshotObservation<N>, _>(
                PageRecoveryObservationBytesError::ImageWidthZero,
            ),
            N > 0 ==> result == Ok::<_, PageRecoveryObservationBytesError>(
                StoredPageSnapshotObservation { page_number, page_version, bytes, required_position },
            ),
    {
        if N == 0 {
            return Err(PageRecoveryObservationBytesError::ImageWidthZero);
        }
        Ok(StoredPageSnapshotObservation { page_number, page_version, bytes, required_position })
    }

    pub fn page_number(&self) -> (number: PageNumber)
        ensures
            number == self.page_number,
    {
        self.page_number
    }
}

/// One durable record as restart analysis sees it.
#[derive(Clone, Debug, PartialEq, Eq)]
pub enum DurableTransactionRestartObservation<const N: usize> {
    Page(DurablePageWalObservation<N>),
    TransactionPage(DurableTransactionPageObservation<N>),
    Commit(DurableTransactionCommitObservation),
}

impl<const N: usize> DurableTransactionRestartObservation<N> {
    /// The record that has been observed.
    pub open spec fn view(&self) -> RecordModel {
        match self {
            DurableTransactionRestartObservation::Page(observation) => observation@,
            DurableTransactionRestartObservation::TransactionPage(observation) => observation@,
            DurableTransactionRestartObservation::Commit(observation) => observation@,
        }
    }

    pub open spec fn spec_position(&self) -> LogSequenceNumber {
        match self {
            DurableTransactionRestartObservation::Page(observation) => observation.position,
            DurableTransactionRestartObservation::TransactionPage(observation) =>
                observation.position,
            DurableTransactionRestartObservation::Commit(observation) => observation.position,
        }
    }
}

} // verus!
