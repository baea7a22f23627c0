//! What a restarting system reads from the commit log.
use vstd::prelude::*;

use crate::commit_log::reclamation::DurableTransactionRestartWalReclamationSourceObservation;
use crate::commit_log::FileCommitLog;
use crate::identity::{LogLineage, LogSequenceNumber, PageNumber, TransactionId};
use crate::log_error::{
    FileCommittedPageRecoveryInventoryError, FileCommittedPageRecoverySourceError,
    FilePageRecoveryProjection, FileTransactionRecoveryError,
    FileTransactionRestartAnalysisSourceError, FileTransactionRestartRetentionMetadataSourceError,
    FileTransactionRestartWalReclamationError,
};
use crate::log_model::LogModel;
use crate::log_record::{
    as_page, body_page, FileLogRecord, FileLogRecordKind, FilePageWriteRecord, RecordBody,
    RecordModel,
};
use crate::observation::{
    DurablePageWalObservation, DurableTransactionCommitObservation,
    DurableTransactionPageObservation, DurableTransactionRestartObservation,
    PageRecoveryObservationBytesError,
};
use crate::room::{list_if, reserved};

verus! {

/// Whether the durable log holds a transaction's commit.
#[derive(Clone, Copy, Debug, PartialEq, Eq, Structural)]
pub enum DurableCommitLookup {
    Found { position: LogSequenceNumber },
    Absent,
}

/// What a log tells about how much of it has to be retained.
#[derive(Clone, Copy, Debug, PartialEq, Eq, Structural)]
pub struct DurableTransactionRestartRetentionMetadataObservation {
    pub lineage: LogLineage,
    pub allocated_epoch_high_water: u64,
    /// The log itself requires no position.
    pub oldest_required_log_position: Option<LogSequenceNumber>,
}

/// All that the durable log holds on one page, and every durable commit.
#[derive(Debug)]
pub struct DurablePageEvidence<const N: usize> {
    pub physical_pages: Vec<DurablePageWalObservation<N>>,
    pub transaction_pages: Vec<DurableTransactionPageObservation<N>>,
    pub commits: Vec<DurableTransactionCommitObservation>,
}

impl<const N: usize> DurablePageEvidence<N> {
    /// Whether nothing has been gathered yet.
    pub open spec fn is_empty(&self) -> bool {
        &&& self.physical_pages@ == Seq::<DurablePageWalObservation<N>>::empty()
        &&& self.transaction_pages@ == Seq::<DurableTransactionPageObservation<N>>::empty()
        &&& self.commits@ == Seq::<DurableTransactionCommitObservation>::empty()
    }
}

/// Evidence to be gathered with memory for `count` items in each of its lists, or the
/// list that memory cannot be had for. The answer depends on the machine, unless nothing
/// is asked for.
fn reserved_evidence<const N: usize>(count: usize) -> (room: Result<
    DurablePageEvidence<N>,
    FilePageRecoveryProjection,
>)
    ensures
        room matches Ok(evidence) ==> evidence.is_empty(),
        count == 0 ==> room is Ok,
{
    let physical_pages: Vec<DurablePageWalObservation<N>> = match reserved(count) {
        Some(list) => list,
        None => {
            return Err(FilePageRecoveryProjection::PhysicalPages);
        },
    };
    let transaction_pages: Vec<DurableTransactionPageObservation<N>> = match reserved(count) {
        Some(list) => list,
        None => {
            return Err(FilePageRecoveryProjection::TransactionPages);
        },
    };
    let commits: Vec<DurableTransactionCommitObservation> = match reserved(count) {
        Some(list) => list,
        None => {
            return Err(FilePageRecoveryProjection::Commits);
        },
    };
    Ok(DurablePageEvidence { physical_pages, transaction_pages, commits })
}

/// Every durable record, and how far the log is durable.
#[derive(Debug)]
pub struct DurableRestartEvidence<const N: usize> {
    pub durable_frontier: Option<LogSequenceNumber>,
    pub observations: Vec<DurableTransactionRestartObservation<N>>,
}

/// The durable records of a log.
pub open spec fn durable(log: LogModel) -> Seq<RecordModel> {
    log.records.take(log.durable_len as int)
}

/// The index, not before `from`, of the first record that commits a transaction.
pub open spec fn commit_index(
    records: Seq<RecordModel>,
    epoch: u64,
    sequence: u64,
    from: nat,
) -> Option<nat>
    decreases records.len() - from,
{
    if from >= records.len() {
        None
    } else if records[from as int].is_commit_of(epoch, sequence) {
        Some(from)
    } else {
        commit_index(records, epoch, sequence, from + 1)
    }
}

/// What looking up a transaction's commit gives.
pub open spec fn commit_lookup(
    log: LogModel,
    lineage: LogLineage,
    transaction_id: TransactionId,
) -> Result<(LogLineage, DurableCommitLookup), FileTransactionRecoveryError> {
    let epoch = transaction_id.spec_epoch();
    let sequence = transaction_id.spec_sequence();
    if log.poisoned {
        Err(FileTransactionRecoveryError::PoisonedWriter)
    } else {
        match commit_index(log.records, epoch, sequence, 0) {
            None => Ok((lineage, DurableCommitLookup::Absent)),
            Some(index) => if commit_index(log.records, epoch, sequence, index + 1) is Some {
                Err(FileTransactionRecoveryError::DuplicateCommitRecord(transaction_id))
            } else if index < log.durable_len {
                Ok(
                    (
                        lineage,
                        DurableCommitLookup::Found {
                            position: LogSequenceNumber {
                                lineage,
                                value: log.records[index as int].position,
                            },
                        },
                    ),
                )
            } else {
                Err(FileTransactionRecoveryError::VolatileCommitRecord(transaction_id))
            },
        }
    }
}

/// Whether some of the records is an owned image of the page numbered `number`.
pub open spec fn owns_page(records: Seq<RecordModel>, number: u64) -> bool {
    exists|i: int| 0 <= i < records.len() && #[trigger] is_owned_page(records[i], number)
}

pub open spec fn is_owned_page(record: RecordModel, number: u64) -> bool {
    record.body matches RecordBody::OwnedPage { page, .. } && page.number == number
}

pub open spec fn is_page(record: RecordModel, number: u64) -> bool {
    body_page(record.body) matches Some(page) && page.number == number
}

/// Whether `numbers` are the numbers of all owned pages among the records, each
/// once, in ascending order.
pub open spec fn is_page_inventory(numbers: Seq<PageNumber>, records: Seq<RecordModel>) -> bool {
    &&& forall|i: int, j: int| 0 <= i < j < numbers.len() ==> numbers[i]@ < numbers[j]@
    &&& forall|i: int| 0 <= i < numbers.len() ==> owns_page(records, (#[trigger] numbers[i])@)
    &&& forall|i: int|
        0 <= i < records.len() && (#[trigger] records[i]).body is OwnedPage ==> exists|j: int|
            0 <= j < numbers.len() && (#[trigger] numbers[j])@
                == records[i].body->OwnedPage_page.number
}

/// The images of one page among the records, whoever owns them.
pub open spec fn physical_pages(records: Seq<RecordModel>, number: u64) -> Seq<RecordModel>
    decreases records.len(),
{
    if records.len() == 0 {
        Seq::empty()
    } else if is_page(records.last(), number) {
        physical_pages(records.drop_last(), number).push(as_page(records.last()))
    } else {
        physical_pages(records.drop_last(), number)
    }
}

/// The owned images of one page among the records.
pub open spec fn transaction_pages(records: Seq<RecordModel>, number: u64) -> Seq<RecordModel>
    decreases records.len(),
{
    if records.len() == 0 {
        Seq::empty()
    } else if is_owned_page(records.last(), number) {
        transaction_pages(records.drop_last(), number).push(records.last())
    } else {
        transaction_pages(records.drop_last(), number)
    }
}

/// The commits among the records.
pub open spec fn commits(records: Seq<RecordModel>) -> Seq<RecordModel>
    decreases records.len(),
{
    if records.len() == 0 {
        Seq::empty()
    } else if records.last().body is Commit {
        commits(records.drop_last()).push(records.last())
    } else {
        commits(records.drop_last())
    }
}

/// Why a commit record cannot be evidence.
pub open spec fn commit_fields_error(record: RecordModel, lineage: LogLineage) -> Option<
    crate::observation::DurableTransactionCommitObservationFieldsError,
> {
    match record.body {
        RecordBody::Commit { epoch, sequence } => DurableTransactionCommitObservation::fields_error(
            epoch,
            sequence,
            LogSequenceNumber { lineage, value: record.position },
        ),
        _ => None,
    }
}

/// Why an owned page cannot be evidence.
pub open spec fn owner_fields_error<const N: usize>(record: RecordModel) -> Option<
    crate::observation::DurableTransactionPageObservationBytesError,
> {
    match record.body {
        RecordBody::OwnedPage { epoch, sequence, .. } =>
            DurableTransactionPageObservation::<N>::fields_error(epoch, sequence),
        _ => None,
    }
}

/// Why a record cannot be evidence on the page numbered `number`.
pub open spec fn evidence_error<const N: usize>(
    record: RecordModel,
    lineage: LogLineage,
    number: u64,
) -> Option<FileCommittedPageRecoverySourceError> {
    if is_page(record, number) && N == 0 {
        Some(
            FileCommittedPageRecoverySourceError::PhysicalPageProjection(
                PageRecoveryObservationBytesError::ImageWidthZero,
            ),
        )
    } else if is_owned_page(record, number) && owner_fields_error::<N>(record) is Some {
        Some(
            FileCommittedPageRecoverySourceError::TransactionPageProjection(
                owner_fields_error::<N>(record)->0,
            ),
        )
    } else {
        match commit_fields_error(record, lineage) {
            Some(error) => Some(FileCommittedPageRecoverySourceError::CommitProjection(error)),
            None => None,
        }
    }
}

/// The first reason among the records, from `from` on, why they cannot be evidence.
pub open spec fn first_evidence_error<const N: usize>(
    records: Seq<RecordModel>,
    lineage: LogLineage,
    number: u64,
    from: nat,
) -> Option<FileCommittedPageRecoverySourceError>
    decreases records.len() - from,
{
    if from >= records.len() {
        None
    } else {
        match evidence_error::<N>(records[from as int], lineage, number) {
            Some(error) => Some(error),
            None => first_evidence_error::<N>(records, lineage, number, from + 1),
        }
    }
}

/// Why a record cannot be seen by restart analysis.
pub open spec fn restart_error<const N: usize>(record: RecordModel, lineage: LogLineage) -> Option<
    FileTransactionRestartAnalysisSourceError,
> {
    match record.body {
        RecordBody::Commit { .. } => match commit_fields_error(record, lineage) {
            Some(error) => Some(FileTransactionRestartAnalysisSourceError::CommitProjection(error)),
            None => None,
        },
        RecordBody::Page { .. } => if N == 0 {
            Some(
                FileTransactionRestartAnalysisSourceError::PageProjection(
                    PageRecoveryObservationBytesError::ImageWidthZero,
                ),
            )
        } else {
            None
        },
        RecordBody::OwnedPage { .. } => match owner_fields_error::<N>(record) {
            Some(error) => Some(
                FileTransactionRestartAnalysisSourceError::TransactionPageProjection(error),
            ),
            None => None,
        },
    }
}

/// The first reason among the records, from `from` on, why restart analysis cannot
/// see them.
pub open spec fn first_restart_error<const N: usize>(
    records: Seq<RecordModel>,
    lineage: LogLineage,
    from: nat,
) -> Option<FileTransactionRestartAnalysisSourceError>
    decreases records.len() - from,
{
    if from >= records.len() {
        None
    } else {
        match restart_error::<N>(records[from as int], lineage) {
            Some(error) => Some(error),
            None => first_restart_error::<N>(records, lineage, from + 1),
        }
    }
}

pub open spec fn page_observation_models<const N: usize>(
    observations: Seq<DurablePageWalObservation<N>>,
) -> Seq<RecordModel> {
    Seq::new(observations.len(), |i: int| observations[i]@)
}

pub open spec fn transaction_page_observation_models<const N: usize>(
    observations: Seq<DurableTransactionPageObservation<N>>,
) -> Seq<RecordModel> {
    Seq::new(observations.len(), |i: int| observations[i]@)
}

pub open spec fn commit_observation_models(
    observations: Seq<DurableTransactionCommitObservation>,
) -> Seq<RecordModel> {
    Seq::new(observations.len(), |i: int| observations[i]@)
}

pub open spec fn restart_observation_models<const N: usize>(
    observations: Seq<DurableTransactionRestartObservation<N>>,
) -> Seq<RecordModel> {
    Seq::new(observations.len(), |i: int| observations[i]@)
}

impl<const N: usize> DurablePageEvidence<N> {
    /// Whether this is all that `records` hold on the page numbered `number`.
    pub open spec fn shows(
        &self,
        records: Seq<RecordModel>,
        lineage: LogLineage,
        number: u64,
    ) -> bool {
        &&& page_observation_models(self.physical_pages@) == physical_pages(records, number)
        &&& transaction_page_observation_models(self.transaction_pages@) == transaction_pages(
            records,
            number,
        )
        &&& commit_observation_models(self.commits@) == commits(records)
        &&& forall|i: int|
            0 <= i < self.physical_pages@.len() ==> (
            #[trigger] self.physical_pages@[i]).position.lineage == lineage
        &&& forall|i: int|
            0 <= i < self.transaction_pages@.len() ==> (
            #[trigger] self.transaction_pages@[i]).position.lineage == lineage
        &&& forall|i: int|
            0 <= i < self.commits@.len() ==> (#[trigger] self.commits@[i]).position.lineage
                == lineage
    }
}

/// Whether the observations are of exactly these records, in order.
pub open spec fn restart_shows<const N: usize>(
    observations: Seq<DurableTransactionRestartObservation<N>>,
    records: Seq<RecordModel>,
    lineage: LogLineage,
) -> bool {
    &&& restart_observation_models(observations) == records
    &&& forall|i: int|
        0 <= i < observations.len() ==> (#[trigger] observations[i]).spec_position().lineage
            == lineage
}

/// Adds a page number to an ascending list, unless it is there already.
fn insert_page_number(numbers: &mut Vec<PageNumber>, number: PageNumber)
    requires
        forall|i: int, j: int|
            0 <= i < j < old(numbers)@.len() ==> old(numbers)@[i]@ < old(numbers)@[j]@,
    ensures
        forall|i: int, j: int|
            0 <= i < j < final(numbers)@.len() ==> final(numbers)@[i]@ < final(numbers)@[j]@,
        exists|j: int| 0 <= j < final(numbers)@.len() && #[trigger] final(numbers)@[j] == number,
        forall|i: int|
            0 <= i < old(numbers)@.len() ==> final(numbers)@.contains(#[trigger] old(numbers)@[i]),
        forall|i: int|
            0 <= i < final(numbers)@.len() ==> (#[trigger] final(numbers)@[i] == number || old(
                numbers,
            )@.contains(final(numbers)@[i])),
{
    let mut low: usize = 0;
    let mut high: usize = numbers.len();
    while low < high
        invariant
            low <= high <= numbers@.len(),
            numbers@ == old(numbers)@,
            forall|i: int, j: int| 0 <= i < j < numbers@.len() ==> numbers@[i]@ < numbers@[j]@,
            forall|i: int| 0 <= i < low ==> (#[trigger] numbers@[i])@ < number@,
            forall|i: int| high <= i < numbers@.len() ==> number@ < (#[trigger] numbers@[i])@,
        decreases high - low,
    {
        let middle: usize = low + (high - low) / 2;
        let value: u64 = numbers[middle].get();
        if value < number.get() {
            low = middle + 1;
        } else if value > number.get() {
            high = middle;
        } else {
            proof {
                PageNumber::lemma_view_injective(numbers@[middle as int], number);
            }
            return ;
        }
    }
    numbers.insert(low, number);
    proof {
        let before = old(numbers)@;
        assert(numbers@[low as int] == number);
        assert forall|i: int| 0 <= i < before.len() implies numbers@.contains(
            #[trigger] before[i],
        ) by {
            if i < low {
                assert(numbers@[i] == before[i]);
            } else {
                assert(numbers@[i + 1] == before[i]);
            }
        }
        assert forall|i: int| 0 <= i < numbers@.len() implies (#[trigger] numbers@[i] == number
            || before.contains(numbers@[i])) by {
            if i < low {
                assert(before[i] == numbers@[i]);
            } else if i > low {
                assert(before[i - 1] == numbers@[i]);
            }
        }
    }
}

impl<const N: usize> FileCommitLog<N> {
    /// Looks up the commit of a transaction in the durable log.
    pub fn lookup_durable_commit(&self, transaction_id: TransactionId) -> (result: Result<
        (LogLineage, DurableCommitLookup),
        FileTransactionRecoveryError,
    >)
        requires
            self.inv(),
        ensures
            result == commit_lookup(self@, self.spec_lineage(), transaction_id),
    {
        if self.poisoned {
            return Err(FileTransactionRecoveryError::PoisonedWriter);
        }
        let first: usize = match self.find_commit(transaction_id, 0) {
            Some(index) => index,
            None => {
                return Ok((self.lineage, DurableCommitLookup::Absent));
            },
        };
        if self.find_commit(transaction_id, first + 1).is_some() {
            return Err(FileTransactionRecoveryError::DuplicateCommitRecord(transaction_id));
        }
        if first < self.durable_len {
            let position: LogSequenceNumber = *self.records[first].position();
            Ok((self.lineage, DurableCommitLookup::Found { position }))
        } else {
            Err(FileTransactionRecoveryError::VolatileCommitRecord(transaction_id))
        }
    }

    fn find_commit(&self, transaction_id: TransactionId, from: usize) -> (index: Option<usize>)
        requires
            self.inv(),
            from <= self@.records.len(),
        ensures
            match commit_index(
                self@.records,
                transaction_id.spec_epoch(),
                transaction_id.spec_sequence(),
                from as nat,
            ) {
                None => index is None,
                Some(expected) => index matches Some(index) && index == expected && index
                    < self@.records.len() && index < usize::MAX,
            },
    {
        let mut index: usize = from;
        while index < self.records.len()
            invariant
                from <= index <= self@.records.len(),
                self@.records.len() == self.records@.len(),
                commit_index(
                    self@.records,
                    transaction_id.spec_epoch(),
                    transaction_id.spec_sequence(),
                    from as nat,
                ) == commit_index(
                    self@.records,
                    transaction_id.spec_epoch(),
                    transaction_id.spec_sequence(),
                    index as nat,
                ),
            decreases self@.records.len() - index,
        {
            if self.records[index].matches_transaction_id(transaction_id) {
                return Some(index);
            }
            index = index + 1;
        }
        None
    }

    /// What listing the owned pages would be refused for.
    pub open spec fn inventory_refusal(log: LogModel) -> Option<
        FileCommittedPageRecoveryInventoryError,
    > {
        if log.poisoned {
            Some(FileCommittedPageRecoveryInventoryError::PoisonedWriter)
        } else if !log.format.has_transaction_pages() {
            Some(
                FileCommittedPageRecoveryInventoryError::TransactionPageSupportUnavailable {
                    version: log.format.spec_version(),
                },
            )
        } else {
            None
        }
    }

    /// Whether `result` is what listing the owned pages has to give, where
    /// `has_room` says whether memory for the list can be had.
    pub open spec fn lists_pages(
        &self,
        has_room: bool,
        result: Result<Vec<PageNumber>, FileCommittedPageRecoveryInventoryError>,
    ) -> bool {
        match Self::inventory_refusal(self@) {
            Some(error) => result == Err::<Vec<PageNumber>, _>(error),
            None => if has_room {
                result matches Ok(numbers) && is_page_inventory(numbers@, durable(self@))
            } else {
                result == Err::<Vec<PageNumber>, _>(
                    FileCommittedPageRecoveryInventoryError::PageCapacityExhausted,
                )
            },
        }
    }

    /// Lists the pages of which the durable log holds an owned image. `has_room`
    /// says whether memory for the list can be had.
    pub fn list_durable_transaction_pages(&self, has_room: bool) -> (result: Result<
        Vec<PageNumber>,
        FileCommittedPageRecoveryInventoryError,
    >)
        requires
            self.inv(),
        ensures
            self.lists_pages(has_room, result),
    {
        self.list_pages_in(list_if(has_room))
    }

    /// Lists the pages of which the durable log holds an owned image in `room`, the list
    /// that is to hold them, where memory for it can be had.
    fn list_pages_in(&self, room: Option<Vec<PageNumber>>) -> (result: Result<
        Vec<PageNumber>,
        FileCommittedPageRecoveryInventoryError,
    >)
        requires
            self.inv(),
            room matches Some(list) ==> list@ == Seq::<PageNumber>::empty(),
        ensures
            self.lists_pages(room is Some, result),
    {
        if self.poisoned {
            return Err(FileCommittedPageRecoveryInventoryError::PoisonedWriter);
        }
        if !self.format.supports_transaction_pages() {
            return Err(
                FileCommittedPageRecoveryInventoryError::TransactionPageSupportUnavailable {
                    version: self.format.version(),
                },
            );
        }
        let mut numbers: Vec<PageNumber> = match room {
            Some(list) => list,
            None => {
                return Err(FileCommittedPageRecoveryInventoryError::PageCapacityExhausted);
            },
        };
        let ghost records = durable(self@);
        let mut index: usize = 0;
        while index < self.durable_len
            invariant
                self.inv(),
                index <= self.durable_len,
                records == durable(self@),
                is_page_inventory(numbers@, records.take(index as int)),
            decreases self.durable_len - index,
        {
            let record: &FileLogRecord<N> = &self.records[index];
            let ghost before = records.take(index as int);
            let ghost after = records.take(index + 1);
            let ghost earlier = numbers@;
            assert(after[index as int] == record@);
            assert forall|number: u64| owns_page(before, number) implies owns_page(
                after,
                number,
            ) by {
                let i = choose|i: int|
                    0 <= i < before.len() && #[trigger] is_owned_page(before[i], number);
                assert(after[i] == before[i]);
                assert(is_owned_page(after[i], number));
            }
            if let Some(owned) = record.transaction_page_write() {
                let number: PageNumber = owned.page_write().page_number();
                insert_page_number(&mut numbers, number);
                assert(is_owned_page(after[index as int], number@));
                assert(owns_page(after, number@));
            }
            assert(is_page_inventory(numbers@, after)) by {
                assert forall|i: int| 0 <= i < numbers@.len() implies owns_page(
                    after,
                    (#[trigger] numbers@[i])@,
                ) by {
                    if earlier.contains(numbers@[i]) {
                        let j = choose|j: int| 0 <= j < earlier.len() && earlier[j] == numbers@[i];
                        assert(owns_page(before, earlier[j]@));
                    }
                }
                assert forall|i: int|
                    0 <= i < after.len() && (#[trigger] after[i]).body is OwnedPage implies exists|
                    j: int,
                |
                    0 <= j < numbers@.len() && (#[trigger] numbers@[j])@
                        == after[i].body->OwnedPage_page.number by {
                    if i < index {
                        assert(after[i] == before[i]);
                        let k = choose|k: int|
                            0 <= k < earlier.len() && (#[trigger] earlier[k])@
                                == before[i].body->OwnedPage_page.number;
                        if record@.body is OwnedPage {
                            assert(numbers@.contains(earlier[k]));
                            let j = choose|j: int|
                                0 <= j < numbers@.len() && numbers@[j] == earlier[k];
                            assert(numbers@[j]@ == after[i].body->OwnedPage_page.number);
                        } else {
                            assert(numbers@[k]@ == after[i].body->OwnedPage_page.number);
                        }
                    }
                }
            }
            index = index + 1;
        }
        assert(records.take(records.len() as int) =~= records);
        Ok(numbers)
    }

    /// Lists, in ascending order, the pages of which the durable log holds an owned
    /// image.
    ///
    /// Whether memory for the list can be had depends on the machine: instead of
    /// the list there may be
    /// [`FileCommittedPageRecoveryInventoryError::PageCapacityExhausted`]. Where nothing
    /// is durable there is always room.
    pub fn durable_transaction_page_numbers(&self) -> (result: Result<
        Vec<PageNumber>,
        FileCommittedPageRecoveryInventoryError,
    >)
        requires
            self.inv(),
        ensures
            self.lists_pages(true, result) || self@.durable_len > 0 && self.lists_pages(
                false,
                result,
            ),
    {
        self.list_pages_in(reserved(self.durable_len))
    }
}

impl<const N: usize> FileCommitLog<N> {
    /// What gathering evidence on a page would be refused for.
    pub open spec fn evidence_refusal(log: LogModel) -> Option<
        FileCommittedPageRecoverySourceError,
    > {
        if log.poisoned {
            Some(FileCommittedPageRecoverySourceError::PoisonedWriter)
        } else if !log.format.has_transaction_pages() {
            Some(
                FileCommittedPageRecoverySourceError::TransactionPageSupportUnavailable {
                    version: log.format.spec_version(),
                },
            )
        } else {
            None
        }
    }

    /// Whether `result` is what gathering evidence on a page has to give, where
    /// `exhausted` names the projection that memory cannot be had for.
    pub open spec fn gathers_evidence(
        &self,
        page_number: PageNumber,
        exhausted: Option<FilePageRecoveryProjection>,
        result: Result<DurablePageEvidence<N>, FileCommittedPageRecoverySourceError>,
    ) -> bool {
        match (Self::evidence_refusal(self@), exhausted) {
            (Some(error), _) => result == Err::<DurablePageEvidence<N>, _>(error),
            (None, Some(projection)) => result == Err::<DurablePageEvidence<N>, _>(
                FileCommittedPageRecoverySourceError::EvidenceCapacityExhausted { projection },
            ),
            (None, None) => match first_evidence_error::<N>(
                durable(self@),
                self.spec_lineage(),
                page_number@,
                0,
            ) {
                Some(error) => result == Err::<DurablePageEvidence<N>, _>(error),
                None => result matches Ok(evidence) && evidence.shows(
                    durable(self@),
                    self.spec_lineage(),
                    page_number@,
                ),
            },
        }
    }

    /// Gathers all that the durable log holds on a page. `exhausted` names the
    /// projection that memory cannot be had for.
    pub fn gather_durable_page_evidence(
        &self,
        page_number: PageNumber,
        exhausted: Option<FilePageRecoveryProjection>,
    ) -> (result: Result<DurablePageEvidence<N>, FileCommittedPageRecoverySourceError>)
        requires
            self.inv(),
        ensures
            self.gathers_evidence(page_number, exhausted, result),
    {
        let room: Result<DurablePageEvidence<N>, FilePageRecoveryProjection> = match exhausted {
            Some(projection) => Err(projection),
            None => Ok(
                DurablePageEvidence {
                    physical_pages: Vec::new(),
                    transaction_pages: Vec::new(),
                    commits: Vec::new(),
                },
            ),
        };
        self.gather_evidence_in(page_number, room)
    }

    /// Gathers all that the durable log holds on a page in `room`, the lists that are to
    /// hold it, unless memory for one of them cannot be had.
    fn gather_evidence_in(
        &self,
        page_number: PageNumber,
        room: Result<DurablePageEvidence<N>, FilePageRecoveryProjection>,
    ) -> (result: Result<DurablePageEvidence<N>, FileCommittedPageRecoverySourceError>)
        requires
            self.inv(),
            room matches Ok(evidence) ==> evidence.is_empty(),
        ensures
            self.gathers_evidence(
                page_number,
                match room {
                    Ok(_) => None,
                    Err(projection) => Some(projection),
                },
                result,
            ),
    {
        if self.poisoned {
            return Err(FileCommittedPageRecoverySourceError::PoisonedWriter);
        }
        if !self.format.supports_transaction_pages() {
            return Err(
                FileCommittedPageRecoverySourceError::TransactionPageSupportUnavailable {
                    version: self.format.version(),
                },
            );
        }
        let mut evidence: DurablePageEvidence<N> = match room {
            Ok(evidence) => evidence,
            Err(projection) => {
                return Err(
                    FileCommittedPageRecoverySourceError::EvidenceCapacityExhausted { projection },
                );
            },
        };
        let ghost records = durable(self@);
        let mut index: usize = 0;
        proof {
            let none = records.take(0);
            assert(page_observation_models(evidence.physical_pages@) =~= physical_pages(
                none,
                page_number@,
            ));
            assert(transaction_page_observation_models(evidence.transaction_pages@)
                =~= transaction_pages(none, page_number@));
            assert(commit_observation_models(evidence.commits@) =~= commits(none));
        }
        while index < self.durable_len
            invariant
                self.inv(),
                index <= self.durable_len,
                records == durable(self@),
                Self::evidence_refusal(self@) is None,
                room is Ok,
                evidence.shows(records.take(index as int), self.spec_lineage(), page_number@),
                first_evidence_error::<N>(records, self.spec_lineage(), page_number@, 0)
                    == first_evidence_error::<N>(
                    records,
                    self.spec_lineage(),
                    page_number@,
                    index as nat,
                ),
            decreases self.durable_len - index,
        {
            let record: &FileLogRecord<N> = &self.records[index];
            assert(records[index as int] == record@);
            assert(record.spec_lineage() == self.spec_lineage());
            assert(records.take(index as int).push(record@) =~= records.take(index + 1));
            match Self::add_evidence(&mut evidence, record, page_number) {
                Ok(()) => {},
                Err(error) => {
                    return Err(error);
                },
            }
            index = index + 1;
        }
        assert(records.take(records.len() as int) =~= records);
        Ok(evidence)
    }

    /// Adds one record to the evidence on a page.
    fn add_evidence(
        evidence: &mut DurablePageEvidence<N>,
        record: &FileLogRecord<N>,
        page_number: PageNumber,
    ) -> (result: Result<(), FileCommittedPageRecoverySourceError>)
        ensures
            match evidence_error::<N>(record@, record.spec_lineage(), page_number@) {
                Some(error) => result == Err::<(), _>(error),
                None => {
                    &&& result is Ok
                    &&& forall|records: Seq<RecordModel>|
                        #![trigger records.push(record@)]
                        old(evidence).shows(records, record.spec_lineage(), page_number@)
                            ==> final(evidence).shows(
                            records.push(record@),
                            record.spec_lineage(),
                            page_number@,
                        )
                },
            },
    {
        let physical: bool = match record.page_write() {
            Some(page) => page.page_number().get() == page_number.get(),
            None => false,
        };
        if physical {
            match record.page_recovery_observation() {
                Ok(Some(observation)) => {
                    evidence.physical_pages.push(observation);
                },
                Ok(None) => {},
                Err(error) => {
                    return Err(FileCommittedPageRecoverySourceError::PhysicalPageProjection(error));
                },
            }
        }
        let owned: bool = match record.transaction_page_write() {
            Some(page) => page.page_write().page_number().get() == page_number.get(),
            None => false,
        };
        if owned {
            match record.transaction_page_recovery_observation() {
                Ok(Some(observation)) => {
                    evidence.transaction_pages.push(observation);
                },
                Ok(None) => {},
                Err(error) => {
                    return Err(
                        FileCommittedPageRecoverySourceError::TransactionPageProjection(error),
                    );
                },
            }
        }
        match record.transaction_commit_recovery_observation() {
            Ok(Some(observation)) => {
                evidence.commits.push(observation);
            },
            Ok(None) => {},
            Err(error) => {
                return Err(FileCommittedPageRecoverySourceError::CommitProjection(error));
            },
        }
        proof {
            assert forall|records: Seq<RecordModel>|
                #![trigger records.push(record@)]
                old(evidence).shows(
                    records,
                    record.spec_lineage(),
                    page_number@,
                ) implies evidence.shows(
                records.push(record@),
                record.spec_lineage(),
                page_number@,
            ) by {
                let longer = records.push(record@);
                assert(longer.drop_last() =~= records);
                assert(longer.last() == record@);
                assert(page_observation_models(evidence.physical_pages@) =~= physical_pages(
                    longer,
                    page_number@,
                ));
                assert(transaction_page_observation_models(evidence.transaction_pages@)
                    =~= transaction_pages(longer, page_number@));
                assert(commit_observation_models(evidence.commits@) =~= commits(longer));
            }
        }
        Ok(())
    }

    /// Gathers all that the durable log holds on a page: its images, those of them
    /// that transactions own, and every commit.
    ///
    /// Whether memory for a projection can be had depends on the machine: instead
    /// of the evidence there may be
    /// [`FileCommittedPageRecoverySourceError::EvidenceCapacityExhausted`]. Where nothing
    /// is durable there is always room.
    pub fn with_durable_page_evidence(&self, page_number: PageNumber) -> (result: Result<
        DurablePageEvidence<N>,
        FileCommittedPageRecoverySourceError,
    >)
        requires
            self.inv(),
        ensures
            self.gathers_evidence(page_number, None, result) || self@.durable_len > 0 && exists|
                projection: FilePageRecoveryProjection,
            | #[trigger]
                self.gathers_evidence(page_number, Some(projection), result),
    {
        self.gather_evidence_in(page_number, reserved_evidence(self.durable_len))
    }

    /// What projecting the durable records gives, where `has_room` says whether
    /// memory for the projection can be had.
    pub open spec fn projects_restart(
        &self,
        has_room: bool,
        result: Result<
            Vec<DurableTransactionRestartObservation<N>>,
            FileTransactionRestartAnalysisSourceError,
        >,
    ) -> bool {
        if !has_room {
            result == Err::<Vec<DurableTransactionRestartObservation<N>>, _>(
                FileTransactionRestartAnalysisSourceError::ObservationCapacityExhausted {
                    record_count: self@.durable_len as usize,
                },
            )
        } else {
            match first_restart_error::<N>(durable(self@), self.spec_lineage(), 0) {
                Some(error) => result == Err::<Vec<DurableTransactionRestartObservation<N>>, _>(
                    error,
                ),
                None => result matches Ok(observations) && restart_shows(
                    observations@,
                    durable(self@),
                    self.spec_lineage(),
                ),
            }
        }
    }

    /// Projects every durable record, in order. `has_room` says whether memory for
    /// the projection can be had.
    pub fn project_durable_restart_observations(&self, has_room: bool) -> (result: Result<
        Vec<DurableTransactionRestartObservation<N>>,
        FileTransactionRestartAnalysisSourceError,
    >)
        requires
            self.inv(),
        ensures
            self.projects_restart(has_room, result),
    {
        self.project_restart_in(list_if(has_room))
    }

    /// Projects every durable record, in order, into `room`, the list that is to hold the
    /// projection, where memory for it can be had.
    fn project_restart_in(
        &self,
        room: Option<Vec<DurableTransactionRestartObservation<N>>>,
    ) -> (result: Result<
        Vec<DurableTransactionRestartObservation<N>>,
        FileTransactionRestartAnalysisSourceError,
    >)
        requires
            self.inv(),
            room matches Some(list) ==> list@ == Seq::<
                DurableTransactionRestartObservation<N>,
            >::empty(),
        ensures
            self.projects_restart(room is Some, result),
    {
        let mut observations: Vec<DurableTransactionRestartObservation<N>> = match room {
            Some(list) => list,
            None => {
                return Err(
                    FileTransactionRestartAnalysisSourceError::ObservationCapacityExhausted {
                        record_count: self.durable_len,
                    },
                );
            },
        };
        let ghost records = durable(self@);
        let mut index: usize = 0;
        assert(restart_observation_models(observations@) =~= records.take(0));
        while index < self.durable_len
            invariant
                self.inv(),
                index <= self.durable_len,
                records == durable(self@),
                room is Some,
                restart_shows(observations@, records.take(index as int), self.spec_lineage()),
                first_restart_error::<N>(records, self.spec_lineage(), 0)
                    == first_restart_error::<N>(records, self.spec_lineage(), index as nat),
            decreases self.durable_len - index,
        {
            let record: &FileLogRecord<N> = &self.records[index];
            assert(records[index as int] == record@);
            assert(record.spec_lineage() == self.spec_lineage());
            let observation: DurableTransactionRestartObservation<N> =
                match Self::project_restart_observation(record) {
                Ok(observation) => observation,
                Err(error) => {
                    return Err(error);
                },
            };
            let ghost earlier = observations@;
            observations.push(observation);
            assert(restart_observation_models(observations@) =~= restart_observation_models(
                earlier,
            ).push(record@));
            assert(records.take(index as int).push(record@) =~= records.take(index + 1));
            index = index + 1;
        }
        assert(records.take(records.len() as int) =~= records);
        Ok(observations)
    }

    fn project_restart_observation(record: &FileLogRecord<N>) -> (result: Result<
        DurableTransactionRestartObservation<N>,
        FileTransactionRestartAnalysisSourceError,
    >)
        ensures
            match restart_error::<N>(record@, record.spec_lineage()) {
                Some(error) => result == Err::<DurableTransactionRestartObservation<N>, _>(error),
                None => {
                    &&& result matches Ok(observation)
                    &&& observation@ == record@
                    &&& observation.spec_position().lineage == record.spec_lineage()
                },
            },
    {
        let position: LogSequenceNumber = *record.position();
        match record.kind() {
            FileLogRecordKind::TransactionCommit { transaction_epoch, transaction_sequence } => {
                match DurableTransactionCommitObservation::from_fields(
                    *transaction_epoch,
                    *transaction_sequence,
                    position,
                ) {
                    Ok(observation) => Ok(DurableTransactionRestartObservation::Commit(observation)),
                    Err(error) => Err(
                        FileTransactionRestartAnalysisSourceError::CommitProjection(error),
                    ),
                }
            },
            FileLogRecordKind::PageWrite(page) => {
                match DurablePageWalObservation::from_bytes(
                    page.page_number(),
                    page.page_version(),
                    *page.bytes(),
                    position,
                ) {
                    Ok(observation) => Ok(DurableTransactionRestartObservation::Page(observation)),
                    Err(error) => Err(
                        FileTransactionRestartAnalysisSourceError::PageProjection(error),
                    ),
                }
            },
            FileLogRecordKind::TransactionPageWrite(owned) => {
                let page: &FilePageWriteRecord<N> = owned.page_write();
                match DurableTransactionPageObservation::from_bytes(
                    owned.transaction_epoch(),
                    owned.transaction_sequence(),
                    page.page_number(),
                    page.page_version(),
                    *page.bytes(),
                    position,
                ) {
                    Ok(observation) => Ok(
                        DurableTransactionRestartObservation::TransactionPage(observation),
                    ),
                    Err(error) => Err(
                        FileTransactionRestartAnalysisSourceError::TransactionPageProjection(error),
                    ),
                }
            },
        }
    }

    /// Why the complete log cannot be analysed.
    pub open spec fn complete_analysis_refusal(log: LogModel) -> Option<
        FileTransactionRestartAnalysisSourceError,
    > {
        if log.poisoned {
            Some(FileTransactionRestartAnalysisSourceError::PoisonedWriter)
        } else if log.generation() != 0 {
            Some(
                FileTransactionRestartAnalysisSourceError::PrunedGenerationRequiresCheckpoint {
                    generation: log.generation(),
                },
            )
        } else {
            None
        }
    }

    /// Whether `result` is what projecting the durable records, together with how far
    /// the log is durable, has to give, where `has_room` says whether memory for the
    /// projection can be had.
    pub open spec fn analyses_restart(
        &self,
        has_room: bool,
        result: Result<DurableRestartEvidence<N>, FileTransactionRestartAnalysisSourceError>,
    ) -> bool {
        match result {
            Ok(evidence) => {
                &&& evidence.durable_frontier == self.spec_position(self@.durable_position())
                &&& self.projects_restart(has_room, Ok(evidence.observations))
            },
            Err(error) => self.projects_restart(has_room, Err(error)),
        }
    }

    /// Projects every durable record of a log that nothing has been reclaimed from,
    /// and tells how far the log is durable.
    ///
    /// Whether memory for the projection can be had depends on the machine: instead
    /// of it there may be
    /// [`FileTransactionRestartAnalysisSourceError::ObservationCapacityExhausted`]. Where
    /// nothing is durable there is always room.
    pub fn with_durable_transaction_restart_observations(&self) -> (result: Result<
        DurableRestartEvidence<N>,
        FileTransactionRestartAnalysisSourceError,
    >)
        requires
            self.inv(),
        ensures
            match Self::complete_analysis_refusal(self@) {
                Some(error) => result == Err::<DurableRestartEvidence<N>, _>(error),
                None => self.analyses_restart(true, result) || self@.durable_len > 0
                    && self.analyses_restart(false, result),
            },
    {
        if self.poisoned {
            return Err(FileTransactionRestartAnalysisSourceError::PoisonedWriter);
        }
        let generation: u64 = self.generation();
        if generation != 0 {
            return Err(
                FileTransactionRestartAnalysisSourceError::PrunedGenerationRequiresCheckpoint {
                    generation,
                },
            );
        }
        let durable_frontier: Option<LogSequenceNumber> = self.durable_position();
        match self.project_restart_in(reserved(self.durable_len)) {
            Ok(observations) => Ok(DurableRestartEvidence { durable_frontier, observations }),
            Err(error) => Err(error),
        }
    }

    /// Projects every durable record, whatever has been reclaimed before them.
    ///
    /// Whether memory for the projection can be had depends on the machine: instead
    /// of it there may be
    /// [`FileTransactionRestartAnalysisSourceError::ObservationCapacityExhausted`]. Where
    /// nothing is durable there is always room.
    pub fn with_durable_transaction_restart_retained_observations(&self) -> (result: Result<
        Vec<DurableTransactionRestartObservation<N>>,
        FileTransactionRestartAnalysisSourceError,
    >)
        requires
            self.inv(),
        ensures
            self@.poisoned ==> result == Err::<Vec<DurableTransactionRestartObservation<N>>, _>(
                FileTransactionRestartAnalysisSourceError::PoisonedWriter,
            ),
            !self@.poisoned ==> self.projects_restart(true, result) || self@.durable_len > 0
                && self.projects_restart(false, result),
    {
        if self.poisoned {
            return Err(FileTransactionRestartAnalysisSourceError::PoisonedWriter);
        }
        self.project_restart_in(reserved(self.durable_len))
    }

    /// Returns the generation of the log that restart analysis would read.
    pub fn observe_restart_source_generation(&self) -> (result: Result<
        u64,
        FileTransactionRestartAnalysisSourceError,
    >)
        ensures
            result == if self@.poisoned {
                Err(FileTransactionRestartAnalysisSourceError::PoisonedWriter)
            } else {
                Ok(self@.generation())
            },
    {
        if self.poisoned {
            return Err(FileTransactionRestartAnalysisSourceError::PoisonedWriter);
        }
        Ok(self.generation())
    }

    /// What can be seen of the log as a source of reclamation.
    pub open spec fn spec_source_observation(
        &self,
    ) -> DurableTransactionRestartWalReclamationSourceObservation {
        DurableTransactionRestartWalReclamationSourceObservation {
            lineage: self.spec_lineage(),
            physical_format_version: self@.format.spec_version(),
            generation: self@.generation(),
            first_durable_record: self.spec_position(
                if self@.durable_len > 0 {
                    Some(self@.records[0].position)
                } else {
                    None
                },
            ),
            durable_frontier: self.spec_position(self@.durable_position()),
            allocated_epoch_high_water: self@.epoch_high_water()->0,
            selected_checkpoint_anchor: match self@.coordinates {
                Some(coordinates) => Some((coordinates.anchor_version, coordinates.anchor_value)),
                None => None,
            },
        }
    }

    fn observe_source(&self) -> (observation: Option<
        DurableTransactionRestartWalReclamationSourceObservation,
    >)
        requires
            self.inv(),
        ensures
            self@.epoch_high_water() is None ==> observation is None,
            self@.epoch_high_water() is Some ==> observation == Some(
                self.spec_source_observation(),
            ),
    {
        let allocated_epoch_high_water: u64 = match self.allocated_epoch_high_water() {
            Some(epoch) => epoch,
            None => {
                return None;
            },
        };
        let first_durable_record: Option<LogSequenceNumber> = if self.durable_len > 0 {
            Some(*self.records[0].position())
        } else {
            None
        };
        let selected_checkpoint_anchor: Option<(u16, u128)> = match self.coordinates {
            Some(coordinates) => Some((coordinates.anchor_version, coordinates.anchor_value)),
            None => None,
        };
        Some(
            DurableTransactionRestartWalReclamationSourceObservation {
                lineage: self.lineage,
                physical_format_version: self.format.version(),
                generation: self.generation(),
                first_durable_record,
                durable_frontier: self.durable_position(),
                allocated_epoch_high_water,
                selected_checkpoint_anchor,
            },
        )
    }

    /// Returns what restart analysis has to know of a log that may have been
    /// reclaimed.
    pub fn observe_restart_pruned_generation(&self) -> (result: Result<
        DurableTransactionRestartWalReclamationSourceObservation,
        FileTransactionRestartAnalysisSourceError,
    >)
        requires
            self.inv(),
        ensures
            result == if self@.poisoned {
                Err(FileTransactionRestartAnalysisSourceError::PoisonedWriter)
            } else if self@.epoch_high_water() is None {
                Err(FileTransactionRestartAnalysisSourceError::NoAllocatedEpoch)
            } else {
                Ok(self.spec_source_observation())
            },
    {
        if self.poisoned {
            return Err(FileTransactionRestartAnalysisSourceError::PoisonedWriter);
        }
        match self.observe_source() {
            Some(observation) => Ok(observation),
            None => Err(FileTransactionRestartAnalysisSourceError::NoAllocatedEpoch),
        }
    }

    /// Returns what a reclamation of the log's prefix has to know of it.
    pub fn observe_restart_wal_reclamation_source(&self) -> (result: Result<
        DurableTransactionRestartWalReclamationSourceObservation,
        FileTransactionRestartWalReclamationError,
    >)
        requires
            self.inv(),
        ensures
            result == if self@.poisoned {
                Err(FileTransactionRestartWalReclamationError::PoisonedWriter)
            } else if self@.epoch_high_water() is None {
                Err(FileTransactionRestartWalReclamationError::NoAllocatedEpoch)
            } else {
                Ok(self.spec_source_observation())
            },
    {
        if self.poisoned {
            return Err(FileTransactionRestartWalReclamationError::PoisonedWriter);
        }
        match self.observe_source() {
            Some(observation) => Ok(observation),
            None => Err(FileTransactionRestartWalReclamationError::NoAllocatedEpoch),
        }
    }

    /// Returns what the log tells about how much of it has to be retained.
    pub fn observe_restart_retention_metadata(&self) -> (result: Result<
        DurableTransactionRestartRetentionMetadataObservation,
        FileTransactionRestartRetentionMetadataSourceError,
    >)
        ensures
            result == if self@.poisoned {
                Err(FileTransactionRestartRetentionMetadataSourceError::PoisonedWriter)
            } else {
                match self@.epoch_high_water() {
                    None => Err(
                        FileTransactionRestartRetentionMetadataSourceError::NoAllocatedEpoch,
                    ),
                    Some(allocated_epoch_high_water) => Ok(
                        DurableTransactionRestartRetentionMetadataObservation {
                            lineage: self.spec_lineage(),
                            allocated_epoch_high_water,
                            oldest_required_log_position: None,
                        },
                    ),
                }
            },
    {
        if self.poisoned {
            return Err(FileTransactionRestartRetentionMetadataSourceError::PoisonedWriter);
        }
        match self.allocated_epoch_high_water() {
            None => Err(FileTransactionRestartRetentionMetadataSourceError::NoAllocatedEpoch),
            Some(allocated_epoch_high_water) => Ok(
                DurableTransactionRestartRetentionMetadataObservation {
                    lineage: self.lineage,
                    allocated_epoch_high_water,
                    oldest_required_log_position: None,
                },
            ),
        }
    }
}

} // verus!
