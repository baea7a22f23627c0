//! Records of the commit log and their projection into recovery evidence.
use vstd::prelude::*;

use crate::identity::{LogLineage, LogSequenceNumber, PageNumber, PageVersion, TransactionId};
use crate::observation::{
    DurablePageWalObservation, DurableTransactionCommitObservation,
    DurableTransactionCommitObservationFieldsError, DurableTransactionPageObservation,
    DurableTransactionPageObservationBytesError, PageRecoveryObservationBytesError,
};

verus! {

/// Mathematical content of one page image.
#[verifier::ext_equal]
pub struct PageModel {
    pub number: u64,
    pub version: u64,
    pub bytes: Seq<u8>,
}

/// Mathematical content of one record, without its position.
#[verifier::ext_equal]
pub enum RecordBody {
    Commit { epoch: u64, sequence: u64 },
    Page { page: PageModel },
    OwnedPage { epoch: u64, sequence: u64, page: PageModel },
}

/// Mathematical content of one record.
#[verifier::ext_equal]
pub struct RecordModel {
    pub position: u64,
    pub body: RecordBody,
}

impl RecordModel {
    /// Whether this is the commit record of the given transaction.
    pub open spec fn is_commit_of(self, epoch: u64, sequence: u64) -> bool {
        self.body == (RecordBody::Commit { epoch, sequence })
    }

    /// Whether this record could stand in a log of pages of `width` bytes in
    /// which epochs up to `highest_epoch` have been allocated.
    pub open spec fn wf(self, width: nat, highest_epoch: u64) -> bool {
        &&& self.position != 0
        &&& match self.body {
            RecordBody::Commit { epoch, sequence } => 0 < epoch <= highest_epoch && sequence != 0,
            RecordBody::Page { page } => page.number != 0 && page.bytes.len() == width,
            RecordBody::OwnedPage { epoch, sequence, page } => 0 < epoch <= highest_epoch
                && sequence != 0 && page.number != 0 && page.bytes.len() == width,
        }
    }
}

/// Whether some record commits the given transaction.
pub open spec fn contains_commit(records: Seq<RecordModel>, epoch: u64, sequence: u64) -> bool {
    exists|i: int| 0 <= i < records.len() && #[trigger] records[i].is_commit_of(epoch, sequence)
}

/// Epoch and sequence under which a record names a transaction.
#[derive(Clone, Copy, Debug, PartialEq, Eq, Structural, PartialOrd, Ord)]
pub struct StoredTransactionIdentity {
    pub epoch: u64,
    pub sequence: u64,
}

impl StoredTransactionIdentity {
    pub fn from_transaction_id(transaction_id: TransactionId) -> (identity:
        StoredTransactionIdentity)
        ensures
            identity.epoch == transaction_id.spec_epoch(),
            identity.sequence == transaction_id.spec_sequence(),
            identity.epoch != 0,
            identity.sequence != 0,
    {
        StoredTransactionIdentity {
            epoch: transaction_id.epoch(),
            sequence: transaction_id.sequence(),
        }
    }

    pub fn from_epoch_sequence(epoch: u64, sequence: u64) -> (identity: StoredTransactionIdentity)
        ensures
            identity == (StoredTransactionIdentity { epoch, sequence }),
    {
        StoredTransactionIdentity { epoch, sequence }
    }

    pub fn matches(self, transaction_id: TransactionId) -> (matches: bool)
        ensures
            matches == (self.epoch == transaction_id.spec_epoch() && self.sequence
                == transaction_id.spec_sequence()),
    {
        self.epoch == transaction_id.epoch() && self.sequence == transaction_id.sequence()
    }
}

/// Immutable snapshot of one physically appended full page image.
#[derive(Clone, Debug, PartialEq, Eq)]
pub struct FilePageWriteRecord<const N: usize> {
    page_number: PageNumber,
    page_version: PageVersion,
    bytes: [u8; N],
}

impl<const N: usize> FilePageWriteRecord<N> {
    pub closed spec fn view(&self) -> PageModel {
        PageModel {
            number: self.page_number@,
            version: self.page_version.value,
            bytes: self.bytes@,
        }
    }

    pub(crate) fn new(page_number: PageNumber, page_version: PageVersion, bytes: [u8; N]) -> (page:
        FilePageWriteRecord<N>)
        ensures
            page@ == (PageModel {
                number: page_number@,
                version: page_version.value,
                bytes: bytes@,
            }),
    {
        FilePageWriteRecord { page_number, page_version, bytes }
    }

    /// The same page once more.
    fn copied(&self) -> (page: FilePageWriteRecord<N>)
        ensures
            page@ == self@,
    {
        FilePageWriteRecord {
            page_number: self.page_number,
            page_version: self.page_version,
            bytes: self.bytes,
        }
    }

    /// A stored page has the width of the log.
    pub proof fn lemma_width(&self)
        ensures
            self@.bytes.len() == N,
    {
    }

    /// Returns the copied page number.
    pub fn page_number(&self) -> (number: PageNumber)
        ensures
            number@ == self@.number,
    {
        self.page_number
    }

    /// Returns the copied page version.
    pub fn page_version(&self) -> (version: PageVersion)
        ensures
            version.value == self@.version,
    {
        self.page_version
    }

    /// Returns the borrowed page bytes.
    pub fn bytes(&self) -> (bytes: &[u8; N])
        ensures
            bytes@ == self@.bytes,
    {
        &self.bytes
    }

    /// Returns the owned page bytes.
    pub fn into_bytes(self) -> (bytes: [u8; N])
        ensures
            bytes@ == self@.bytes,
    {
        self.bytes
    }
}

/// Immutable snapshot of one physically appended transaction-owned page image.
///
/// The persisted owner remains an inspectable pair of epoch and sequence. This
/// type has no public constructor.
#[derive(Clone, Debug, PartialEq, Eq)]
pub struct FileTransactionPageWriteRecord<const N: usize> {
    transaction_epoch: u64,
    transaction_sequence: u64,
    page: FilePageWriteRecord<N>,
}

impl<const N: usize> FileTransactionPageWriteRecord<N> {
    pub closed spec fn view(&self) -> RecordBody {
        RecordBody::OwnedPage {
            epoch: self.transaction_epoch,
            sequence: self.transaction_sequence,
            page: self.page@,
        }
    }

    /// A stored page has the width of the log.
    pub proof fn lemma_width(&self)
        ensures
            self@ is OwnedPage,
            self@->OwnedPage_page.bytes.len() == N,
    {
        self.page.lemma_width();
    }

    pub(crate) fn new(owner: StoredTransactionIdentity, page: FilePageWriteRecord<N>) -> (record:
        FileTransactionPageWriteRecord<N>)
        ensures
            record@ == (RecordBody::OwnedPage {
                epoch: owner.epoch,
                sequence: owner.sequence,
                page: page@,
            }),
    {
        FileTransactionPageWriteRecord {
            transaction_epoch: owner.epoch,
            transaction_sequence: owner.sequence,
            page,
        }
    }

    /// Returns the persisted owner epoch.
    pub fn transaction_epoch(&self) -> (epoch: u64)
        ensures
            self@ matches RecordBody::OwnedPage { epoch: e, .. } && e == epoch,
    {
        self.transaction_epoch
    }

    /// Returns the persisted owner sequence.
    pub fn transaction_sequence(&self) -> (sequence: u64)
        ensures
            self@ matches RecordBody::OwnedPage { sequence: s, .. } && s == sequence,
    {
        self.transaction_sequence
    }

    /// Returns whether the persisted owner matches the complete identity.
    pub fn matches_transaction_id(&self, transaction_id: TransactionId) -> (matches: bool)
        ensures
            self@ matches RecordBody::OwnedPage { epoch, sequence, .. } && matches == (epoch
                == transaction_id.spec_epoch() && sequence == transaction_id.spec_sequence()),
    {
        self.transaction_epoch == transaction_id.epoch() && self.transaction_sequence
            == transaction_id.sequence()
    }

    /// Returns the copied full page-image payload.
    pub fn page_write(&self) -> (page: &FilePageWriteRecord<N>)
        ensures
            self@ matches RecordBody::OwnedPage { page: p, .. } && p == page@,
    {
        &self.page
    }
}

/// Safely inspectable payload of one physically appended record.
#[derive(Clone, Debug, PartialEq, Eq)]
pub enum FileLogRecordKind<const N: usize> {
    /// One transaction commit record.
    TransactionCommit { transaction_epoch: u64, transaction_sequence: u64 },
    /// One complete page-image write.
    PageWrite(FilePageWriteRecord<N>),
    /// One complete transaction-owned page-image write.
    TransactionPageWrite(FileTransactionPageWriteRecord<N>),
}

impl<const N: usize> FileLogRecordKind<N> {
    pub open spec fn view(&self) -> RecordBody {
        match self {
            FileLogRecordKind::TransactionCommit { transaction_epoch, transaction_sequence } =>
                RecordBody::Commit { epoch: *transaction_epoch, sequence: *transaction_sequence },
            FileLogRecordKind::PageWrite(page) => RecordBody::Page { page: page@ },
            FileLogRecordKind::TransactionPageWrite(record) => record@,
        }
    }

    /// Returns the transaction epoch when this record is a commit.
    pub fn transaction_epoch(&self) -> (epoch: Option<u64>)
        ensures
            epoch == body_commit_epoch(self@),
    {
        match self {
            FileLogRecordKind::TransactionCommit { transaction_epoch, .. } => {
                Some(*transaction_epoch)
            },
            FileLogRecordKind::PageWrite(_) => None,
            FileLogRecordKind::TransactionPageWrite(record) => {
                proof {
                    record.lemma_width();
                }
                None
            },
        }
    }

    /// Returns the transaction sequence when this record is a commit.
    pub fn transaction_sequence(&self) -> (sequence: Option<u64>)
        ensures
            sequence == body_commit_sequence(self@),
    {
        match self {
            FileLogRecordKind::TransactionCommit { transaction_sequence, .. } => {
                Some(*transaction_sequence)
            },
            FileLogRecordKind::PageWrite(_) => None,
            FileLogRecordKind::TransactionPageWrite(record) => {
                proof {
                    record.lemma_width();
                }
                None
            },
        }
    }

    /// Returns the full page-image payload when this record is a page write.
    pub fn page_write(&self) -> (page: Option<&FilePageWriteRecord<N>>)
        ensures
            match body_page(self@) {
                None => page is None,
                Some(model) => page matches Some(page) && page@ == model,
            },
    {
        match self {
            FileLogRecordKind::TransactionCommit { .. } => None,
            FileLogRecordKind::PageWrite(page) => Some(page),
            FileLogRecordKind::TransactionPageWrite(record) => Some(record.page_write()),
        }
    }

    /// Returns the typed transaction-owned page record when present.
    pub fn transaction_page_write(&self) -> (record: Option<&FileTransactionPageWriteRecord<N>>)
        ensures
            self@ is OwnedPage <==> record is Some,
            record matches Some(record) ==> record@ == self@,
    {
        match self {
            FileLogRecordKind::TransactionCommit { .. } | FileLogRecordKind::PageWrite(_) => None,
            FileLogRecordKind::TransactionPageWrite(record) => {
                proof {
                    record.lemma_width();
                }
                Some(record)
            },
        }
    }

    /// Returns the persisted page-owner epoch only for an owned page record.
    pub fn page_owner_transaction_epoch(&self) -> (epoch: Option<u64>)
        ensures
            epoch == body_owner_epoch(self@),
    {
        match self {
            FileLogRecordKind::TransactionCommit { .. } | FileLogRecordKind::PageWrite(_) => None,
            FileLogRecordKind::TransactionPageWrite(record) => Some(record.transaction_epoch()),
        }
    }

    /// Returns the persisted page-owner sequence only for an owned page record.
    pub fn page_owner_transaction_sequence(&self) -> (sequence: Option<u64>)
        ensures
            sequence == body_owner_sequence(self@),
    {
        match self {
            FileLogRecordKind::TransactionCommit { .. } | FileLogRecordKind::PageWrite(_) => None,
            FileLogRecordKind::TransactionPageWrite(record) => Some(record.transaction_sequence()),
        }
    }
}

pub open spec fn body_commit_epoch(body: RecordBody) -> Option<u64> {
    match body {
        RecordBody::Commit { epoch, .. } => Some(epoch),
        _ => None,
    }
}

pub open spec fn body_commit_sequence(body: RecordBody) -> Option<u64> {
    match body {
        RecordBody::Commit { sequence, .. } => Some(sequence),
        _ => None,
    }
}

pub open spec fn body_page(body: RecordBody) -> Option<PageModel> {
    match body {
        RecordBody::Commit { .. } => None,
        RecordBody::Page { page } => Some(page),
        RecordBody::OwnedPage { page, .. } => Some(page),
    }
}

pub open spec fn body_owner_epoch(body: RecordBody) -> Option<u64> {
    match body {
        RecordBody::OwnedPage { epoch, .. } => Some(epoch),
        _ => None,
    }
}

pub open spec fn body_owner_sequence(body: RecordBody) -> Option<u64> {
    match body {
        RecordBody::OwnedPage { sequence, .. } => Some(sequence),
        _ => None,
    }
}

/// Immutable snapshot of one physically appended commit or page record.
#[derive(Clone, Debug, PartialEq, Eq)]
pub struct FileLogRecord<const N: usize> {
    position: LogSequenceNumber,
    kind: FileLogRecordKind<N>,
}

impl<const N: usize> FileLogRecord<N> {
    pub closed spec fn view(&self) -> RecordModel {
        RecordModel { position: self.position.value, body: self.kind@ }
    }

    /// The lineage of the record's position.
    pub closed spec fn spec_lineage(&self) -> LogLineage {
        self.position.lineage
    }

    pub(crate) fn new(position: LogSequenceNumber, kind: FileLogRecordKind<N>) -> (record:
        FileLogRecord<N>)
        ensures
            record@ == (RecordModel { position: position.value, body: kind@ }),
            record.spec_lineage() == position.lineage,
    {
        FileLogRecord { position, kind }
    }

    /// The same record once more.
    pub(crate) fn copied(&self) -> (record: FileLogRecord<N>)
        ensures
            record@ == self@,
            record.spec_lineage() == self.spec_lineage(),
    {
        let kind: FileLogRecordKind<N> = match &self.kind {
            FileLogRecordKind::TransactionCommit { transaction_epoch, transaction_sequence } => {
                FileLogRecordKind::TransactionCommit {
                    transaction_epoch: *transaction_epoch,
                    transaction_sequence: *transaction_sequence,
                }
            },
            FileLogRecordKind::PageWrite(page) => FileLogRecordKind::PageWrite(page.copied()),
            FileLogRecordKind::TransactionPageWrite(owned) => {
                FileLogRecordKind::TransactionPageWrite(
                    FileTransactionPageWriteRecord {
                        transaction_epoch: owned.transaction_epoch,
                        transaction_sequence: owned.transaction_sequence,
                        page: owned.page.copied(),
                    },
                )
            },
        };
        FileLogRecord { position: self.position, kind }
    }

    pub(crate) fn transaction_identity(&self) -> (identity: Option<StoredTransactionIdentity>)
        ensures
            self@.body is Commit <==> identity is Some,
            identity matches Some(identity) ==> self@.is_commit_of(
                identity.epoch,
                identity.sequence,
            ),
    {
        match &self.kind {
            FileLogRecordKind::TransactionCommit { transaction_epoch, transaction_sequence } => {
                Some(
                    StoredTransactionIdentity::from_epoch_sequence(
                        *transaction_epoch,
                        *transaction_sequence,
                    ),
                )
            },
            FileLogRecordKind::PageWrite(_) => None,
            FileLogRecordKind::TransactionPageWrite(record) => {
                proof {
                    record.lemma_width();
                }
                None
            },
        }
    }

    /// Returns the assigned log position.
    pub fn position(&self) -> (position: &LogSequenceNumber)
        ensures
            position.value == self@.position,
            position.lineage == self.spec_lineage(),
    {
        &self.position
    }

    /// Returns the safely inspectable record payload.
    pub fn kind(&self) -> (kind: &FileLogRecordKind<N>)
        ensures
            kind@ == self@.body,
    {
        &self.kind
    }

    /// Returns the recorded transaction epoch when this record is a commit.
    pub fn transaction_epoch(&self) -> (epoch: Option<u64>)
        ensures
            epoch == body_commit_epoch(self@.body),
    {
        self.kind.transaction_epoch()
    }

    /// Returns the recorded transaction sequence when this record is a commit.
    pub fn transaction_sequence(&self) -> (sequence: Option<u64>)
        ensures
            sequence == body_commit_sequence(self@.body),
    {
        self.kind.transaction_sequence()
    }

    /// Returns whether this record commits the given transaction.
    pub fn matches_transaction_id(&self, transaction_id: TransactionId) -> (matches: bool)
        ensures
            matches == self@.is_commit_of(
                transaction_id.spec_epoch(),
                transaction_id.spec_sequence(),
            ),
    {
        match self.transaction_identity() {
            Some(transaction) => transaction.matches(transaction_id),
            None => false,
        }
    }

    /// Returns the full page-image payload when this record is a page write.
    pub fn page_write(&self) -> (page: Option<&FilePageWriteRecord<N>>)
        ensures
            match body_page(self@.body) {
                None => page is None,
                Some(model) => page matches Some(page) && page@ == model,
            },
    {
        self.kind.page_write()
    }

    /// Returns the typed transaction-owned page record when present.
    pub fn transaction_page_write(&self) -> (record: Option<&FileTransactionPageWriteRecord<N>>)
        ensures
            self@.body is OwnedPage <==> record is Some,
            record matches Some(record) ==> record@ == self@.body,
    {
        self.kind.transaction_page_write()
    }

    /// Returns the persisted page-owner epoch only for an owned page record.
    pub fn page_owner_transaction_epoch(&self) -> (epoch: Option<u64>)
        ensures
            epoch == body_owner_epoch(self@.body),
    {
        self.kind.page_owner_transaction_epoch()
    }

    /// Returns the persisted page-owner sequence only for an owned page record.
    pub fn page_owner_transaction_sequence(&self) -> (sequence: Option<u64>)
        ensures
            sequence == body_owner_sequence(self@.body),
    {
        self.kind.page_owner_transaction_sequence()
    }

    /// Returns whether this record is an owned page of the given transaction.
    pub fn page_owner_matches_transaction_id(&self, transaction_id: TransactionId) -> (matches:
        bool)
        ensures
            matches == (body_owner_epoch(self@.body) == Some(transaction_id.spec_epoch())
                && body_owner_sequence(self@.body) == Some(transaction_id.spec_sequence())),
    {
        match self.transaction_page_write() {
            Some(record) => record.matches_transaction_id(transaction_id),
            None => false,
        }
    }

    /// Whether `observation` shows this record's page image at its position.
    pub open spec fn projects_page(&self, observation: DurablePageWalObservation<N>) -> bool {
        &&& body_page(self@.body) is Some
        &&& observation@ == as_page(self@)
        &&& observation.position.lineage == self.spec_lineage()
    }

    /// Whether `observation` shows this record's owned page at its position.
    pub open spec fn projects_transaction_page(
        &self,
        observation: DurableTransactionPageObservation<N>,
    ) -> bool {
        &&& observation@ == self@
        &&& observation.position.lineage == self.spec_lineage()
    }

    /// Whether `observation` shows this record's commit at its position.
    pub open spec fn projects_commit(&self, observation: DurableTransactionCommitObservation) -> bool {
        &&& observation@ == self@
        &&& observation.position.lineage == self.spec_lineage()
    }

    /// Projects a page record into recovery evidence.
    ///
    /// Callers must select records from a commit log's durable prefix before
    /// treating the result as durable. Commit records give `Ok(None)`.
    pub fn page_recovery_observation(&self) -> (result: Result<
        Option<DurablePageWalObservation<N>>,
        PageRecoveryObservationBytesError,
    >)
        ensures
            match body_page(self@.body) {
                None => result == Ok::<_, PageRecoveryObservationBytesError>(
                    None::<DurablePageWalObservation<N>>,
                ),
                Some(page) => if N == 0 {
                    result == Err::<Option<DurablePageWalObservation<N>>, _>(
                        PageRecoveryObservationBytesError::ImageWidthZero,
                    )
                } else {
                    result matches Ok(Some(observation)) && self.projects_page(observation)
                },
            },
    {
        match self.page_write() {
            Some(record) => {
                match self.project_page_recovery_observation(record) {
                    Ok(observation) => Ok(Some(observation)),
                    Err(error) => Err(error),
                }
            },
            None => Ok(None),
        }
    }

    /// Projects an owned-page record into transaction-aware recovery evidence.
    ///
    /// Commit and raw page records give `Ok(None)`. An owned page also projects
    /// through [`Self::page_recovery_observation`]; callers must not count both.
    pub fn transaction_page_recovery_observation(&self) -> (result: Result<
        Option<DurableTransactionPageObservation<N>>,
        DurableTransactionPageObservationBytesError,
    >)
        ensures
            match self@.body {
                RecordBody::OwnedPage { epoch, sequence, .. } =>
                    match DurableTransactionPageObservation::<N>::fields_error(epoch, sequence) {
                        Some(error) => result == Err::<
                            Option<DurableTransactionPageObservation<N>>,
                            _,
                        >(error),
                        None => result matches Ok(Some(observation))
                            && self.projects_transaction_page(observation),
                    },
                _ => result == Ok::<_, DurableTransactionPageObservationBytesError>(
                    None::<DurableTransactionPageObservation<N>>,
                ),
            },
    {
        match self.transaction_page_write() {
            Some(record) => {
                match self.project_transaction_page_recovery_observation(record) {
                    Ok(observation) => Ok(Some(observation)),
                    Err(error) => Err(error),
                }
            },
            None => Ok(None),
        }
    }

    /// Projects a commit record into transaction-aware recovery evidence.
    ///
    /// Both page record kinds give `Ok(None)`, so persisted page ownership
    /// remains separate from commitment.
    pub fn transaction_commit_recovery_observation(&self) -> (result: Result<
        Option<DurableTransactionCommitObservation>,
        DurableTransactionCommitObservationFieldsError,
    >)
        ensures
            match self@.body {
                RecordBody::Commit { epoch, sequence } =>
                    match DurableTransactionCommitObservation::fields_error(
                        epoch,
                        sequence,
                        LogSequenceNumber { lineage: self.spec_lineage(), value: self@.position },
                    ) {
                        Some(error) => result == Err::<
                            Option<DurableTransactionCommitObservation>,
                            _,
                        >(error),
                        None => result matches Ok(Some(observation)) && self.projects_commit(
                            observation,
                        ),
                    },
                _ => result == Ok::<_, DurableTransactionCommitObservationFieldsError>(
                    None::<DurableTransactionCommitObservation>,
                ),
            },
    {
        match self.transaction_identity() {
            Some(identity) => {
                match DurableTransactionCommitObservation::from_fields(
                    identity.epoch,
                    identity.sequence,
                    self.position,
                ) {
                    Ok(observation) => Ok(Some(observation)),
                    Err(error) => Err(error),
                }
            },
            None => Ok(None),
        }
    }

    fn project_page_recovery_observation(&self, record: &FilePageWriteRecord<N>) -> (result: Result<
        DurablePageWalObservation<N>,
        PageRecoveryObservationBytesError,
    >)
        requires
            body_page(self@.body) == Some(record@),
        ensures
            N == 0 ==> result == Err::<DurablePageWalObservation<N>, _>(
                PageRecoveryObservationBytesError::ImageWidthZero,
            ),
            N > 0 ==> (result matches Ok(observation) && self.projects_page(observation)),
    {
        DurablePageWalObservation::from_bytes(
            record.page_number(),
            record.page_version(),
            *record.bytes(),
            self.position,
        )
    }

    fn project_transaction_page_recovery_observation(
        &self,
        record: &FileTransactionPageWriteRecord<N>,
    ) -> (result: Result<
        DurableTransactionPageObservation<N>,
        DurableTransactionPageObservationBytesError,
    >)
        requires
            self@.body == record@,
        ensures
            record@ matches RecordBody::OwnedPage { epoch, sequence, .. }
                && match DurableTransactionPageObservation::<N>::fields_error(epoch, sequence) {
                Some(error) => result == Err::<DurableTransactionPageObservation<N>, _>(error),
                None => result matches Ok(observation) && self.projects_transaction_page(
                    observation,
                ),
            },
    {
        let page: &FilePageWriteRecord<N> = record.page_write();
        DurableTransactionPageObservation::from_bytes(
            record.transaction_epoch(),
            record.transaction_sequence(),
            page.page_number(),
            page.page_version(),
            *page.bytes(),
            self.position,
        )
    }
}

/// The page image of a record, whoever owns it.
pub open spec fn as_page(record: RecordModel) -> RecordModel {
    RecordModel { position: record.position, body: RecordBody::Page { page: body_page(record.body)->0 } }
}

/// The mathematical content of a sequence of records.
pub open spec fn record_models<const N: usize>(records: Seq<FileLogRecord<N>>) -> Seq<RecordModel> {
    Seq::new(records.len(), |i: int| records[i]@)
}

/// Whether every record's position belongs to `lineage`.
pub open spec fn records_in_lineage<const N: usize>(
    records: Seq<FileLogRecord<N>>,
    lineage: LogLineage,
) -> bool {
    forall|i: int| 0 <= i < records.len() ==> (#[trigger] records[i]).spec_lineage() == lineage
}

} // verus!
