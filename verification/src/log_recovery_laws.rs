//! What a restarting system reads from the commit log, call by call.
use vstd::prelude::*;

use crate::commit_log::reclamation::{
    DurableTransactionRestartWalReclamationEffectObservation,
    DurableTransactionRestartWalReclamationSourceObservation, ReclamationPlan,
};
use crate::commit_log::recovery::{
    commit_index, commit_observation_models, commits, durable, evidence_error, first_evidence_error,
    first_restart_error, is_owned_page, is_page, is_page_inventory, owns_page,
    page_observation_models, physical_pages, restart_error, restart_observation_models,
    restart_shows, transaction_page_observation_models, transaction_pages, DurableCommitLookup,
    DurablePageEvidence, DurableRestartEvidence,
    DurableTransactionRestartRetentionMetadataObservation,
};
use crate::commit_log::FileCommitLog;
use crate::format::LogFormat;
use crate::identity::{LogLineage, LogSequenceNumber, PageNumber, TransactionId};
use crate::log_error::{
    FileCommittedPageRecoveryInventoryError, FileCommittedPageRecoverySourceError,
    FilePageRecoveryProjection, FileTransactionRecoveryError,
    FileTransactionRestartAnalysisSourceError, FileTransactionRestartRetentionMetadataSourceError,
    FileTransactionRestartWalReclamationError,
};
use crate::log_model::LogModel;
use crate::log_record::{PageModel, RecordBody, RecordModel};
use crate::observation::{
    DurablePageWalObservation, DurableTransactionCommitObservation,
    DurableTransactionCommitObservationFieldsError, DurableTransactionPageObservation,
    DurableTransactionPageObservationBytesError, DurableTransactionRestartObservation,
};

verus! {

/// Whether record `index` of the log commits the transaction.
pub open spec fn commits_at(log: LogModel, transaction_id: TransactionId, index: int) -> bool {
    &&& 0 <= index < log.records.len()
    &&& log.records[index].body == (RecordBody::Commit {
        epoch: transaction_id.spec_epoch(),
        sequence: transaction_id.spec_sequence(),
    })
}

proof fn lemma_commit_index(records: Seq<RecordModel>, epoch: u64, sequence: u64, from: nat)
    ensures
        match commit_index(records, epoch, sequence, from) {
            None => forall|i: int|
                from <= i < records.len() ==> (#[trigger] records[i]).body != (RecordBody::Commit {
                    epoch,
                    sequence,
                }),
            Some(index) => {
                &&& from <= index < records.len()
                &&& records[index as int].body == (RecordBody::Commit { epoch, sequence })
                &&& forall|i: int|
                    from <= i < index ==> (#[trigger] records[i]).body != (RecordBody::Commit {
                        epoch,
                        sequence,
                    })
            },
        },
    decreases records.len() - from,
{
    if from < records.len() {
        lemma_commit_index(records, epoch, sequence, from + 1);
    }
}

/// A transaction that one record commits is found at the position of that record once
/// the record is durable, and is in doubt before.
pub proof fn law_lookup_finds_the_commit<const N: usize>(
    log: FileCommitLog<N>,
    transaction_id: TransactionId,
    index: int,
    result: Result<(LogLineage, DurableCommitLookup), FileTransactionRecoveryError>,
)
    requires
        call_ensures(
            FileCommitLog::<N>::lookup_durable_commit,
            (&log, transaction_id),
            result,
        ),
        !log@.poisoned,
        commits_at(log@, transaction_id, index),
        forall|other: int| #[trigger]
            commits_at(log@, transaction_id, other) ==> other == index,
    ensures
        index < log@.durable_len ==> {
            &&& result matches Ok((lineage, DurableCommitLookup::Found { position }))
            &&& lineage == log.spec_lineage()
            &&& position.lineage == log.spec_lineage()
            &&& position.value == log@.records[index].position
        },
        index >= log@.durable_len ==> result == Err::<(LogLineage, DurableCommitLookup), _>(
            FileTransactionRecoveryError::VolatileCommitRecord(transaction_id),
        ),
{
    let epoch = transaction_id.spec_epoch();
    let sequence = transaction_id.spec_sequence();
    lemma_commit_index(log@.records, epoch, sequence, 0);
    let first = commit_index(log@.records, epoch, sequence, 0)->0;
    assert(commits_at(log@, transaction_id, first as int));
    lemma_commit_index(log@.records, epoch, sequence, first + 1);
    if let Some(second) = commit_index(log@.records, epoch, sequence, first + 1) {
        assert(commits_at(log@, transaction_id, second as int));
    }
}

/// A transaction that no record commits is absent, one that two records commit is
/// refused, and so is any lookup in a log whose writer is poisoned.
pub proof fn law_lookup_without_one_commit<const N: usize>(
    log: FileCommitLog<N>,
    transaction_id: TransactionId,
    result: Result<(LogLineage, DurableCommitLookup), FileTransactionRecoveryError>,
)
    requires
        call_ensures(
            FileCommitLog::<N>::lookup_durable_commit,
            (&log, transaction_id),
            result,
        ),
    ensures
        log@.poisoned ==> result == Err::<(LogLineage, DurableCommitLookup), _>(
            FileTransactionRecoveryError::PoisonedWriter,
        ),
        !log@.poisoned && (forall|i: int| !#[trigger] commits_at(log@, transaction_id, i))
            ==> result == Ok::<_, FileTransactionRecoveryError>(
            (log.spec_lineage(), DurableCommitLookup::Absent),
        ),
        !log@.poisoned && (exists|i: int, j: int|
            i < j && #[trigger] commits_at(log@, transaction_id, i) && #[trigger] commits_at(
                log@,
                transaction_id,
                j,
            )) ==> result == Err::<(LogLineage, DurableCommitLookup), _>(
            FileTransactionRecoveryError::DuplicateCommitRecord(transaction_id),
        ),
{
    let epoch = transaction_id.spec_epoch();
    let sequence = transaction_id.spec_sequence();
    lemma_commit_index(log@.records, epoch, sequence, 0);
    if let Some(first) = commit_index(log@.records, epoch, sequence, 0) {
        assert(commits_at(log@, transaction_id, first as int));
        lemma_commit_index(log@.records, epoch, sequence, first + 1);
    }
}

/// The page image that a record holds, whoever owns it.
pub open spec fn image_in(record: RecordModel) -> Option<PageModel> {
    match record.body {
        RecordBody::Commit { .. } => None,
        RecordBody::Page { page } => Some(page),
        RecordBody::OwnedPage { page, .. } => Some(page),
    }
}

/// Whether `places` are, in ascending order, exactly the places that are marked.
pub open spec fn picks(places: Seq<int>, marked: Seq<bool>) -> bool {
    &&& forall|a: int, b: int|
        #![trigger places[a], places[b]]
        0 <= a < b < places.len() ==> places[a] < places[b]
    &&& forall|k: int|
        0 <= k < places.len() ==> 0 <= #[trigger] places[k] < marked.len() && marked[places[k]]
    &&& forall|i: int|
        0 <= i < marked.len() && #[trigger] marked[i] ==> exists|k: int|
            0 <= k < places.len() && #[trigger] places[k] == i
}

proof fn lemma_picks_one_more(places: Seq<int>, marked: Seq<bool>)
    requires
        marked.len() > 0,
        picks(places, marked.drop_last()),
    ensures
        marked.last() ==> picks(places.push(marked.len() - 1), marked),
        !marked.last() ==> picks(places, marked),
{
    let before = marked.drop_last();
    let longer = places.push(marked.len() - 1);
    assert forall|i: int| 0 <= i < before.len() implies #[trigger] marked[i] == before[i] by {}
    assert forall|i: int| 0 <= i < marked.len() && #[trigger] marked[i] implies if marked.last() {
        exists|k: int| 0 <= k < longer.len() && #[trigger] longer[k] == i
    } else {
        exists|k: int| 0 <= k < places.len() && #[trigger] places[k] == i
    } by {
        if i < before.len() {
            assert(before[i]);
            let k = choose|k: int| 0 <= k < places.len() && #[trigger] places[k] == i;
            assert(longer[k] == i);
        } else {
            assert(longer[places.len() as int] == i);
        }
    }
}

/// Which of the records are images of the page numbered `number`.
pub open spec fn images_of(records: Seq<RecordModel>, number: u64) -> Seq<bool> {
    records.map_values(
        |record: RecordModel| image_in(record) matches Some(image) && image.number == number,
    )
}

/// Which of the records are owned images of the page numbered `number`.
pub open spec fn owned_images_of(records: Seq<RecordModel>, number: u64) -> Seq<bool> {
    records.map_values(
        |record: RecordModel|
            record.body is OwnedPage && record.body->OwnedPage_page.number == number,
    )
}

/// Which of the records are commits.
pub open spec fn commits_in(records: Seq<RecordModel>) -> Seq<bool> {
    records.map_values(|record: RecordModel| record.body is Commit)
}

proof fn lemma_physical_places(records: Seq<RecordModel>, number: u64) -> (places: Seq<int>)
    ensures
        picks(places, images_of(records, number)),
        physical_pages(records, number).len() == places.len(),
        forall|k: int|
            0 <= k < places.len() ==> (#[trigger] physical_pages(records, number)[k]) == (
            RecordModel {
                position: records[places[k]].position,
                body: RecordBody::Page { page: image_in(records[places[k]])->0 },
            }),
    decreases records.len(),
{
    if records.len() == 0 {
        Seq::empty()
    } else {
        let before = lemma_physical_places(records.drop_last(), number);
        assert(images_of(records, number).drop_last() =~= images_of(records.drop_last(), number));
        lemma_picks_one_more(before, images_of(records, number));
        assert(is_page(records.last(), number) == images_of(records, number).last());
        if is_page(records.last(), number) {
            before.push(records.len() - 1)
        } else {
            before
        }
    }
}

proof fn lemma_owned_places(records: Seq<RecordModel>, number: u64) -> (places: Seq<int>)
    ensures
        picks(places, owned_images_of(records, number)),
        transaction_pages(records, number).len() == places.len(),
        forall|k: int|
            0 <= k < places.len() ==> (#[trigger] transaction_pages(records, number)[k])
                == records[places[k]],
    decreases records.len(),
{
    if records.len() == 0 {
        Seq::empty()
    } else {
        let before = lemma_owned_places(records.drop_last(), number);
        assert(owned_images_of(records, number).drop_last() =~= owned_images_of(
            records.drop_last(),
            number,
        ));
        lemma_picks_one_more(before, owned_images_of(records, number));
        assert(is_owned_page(records.last(), number) == owned_images_of(records, number).last());
        if is_owned_page(records.last(), number) {
            before.push(records.len() - 1)
        } else {
            before
        }
    }
}

proof fn lemma_commit_places(records: Seq<RecordModel>) -> (places: Seq<int>)
    ensures
        picks(places, commits_in(records)),
        commits(records).len() == places.len(),
        forall|k: int|
            0 <= k < places.len() ==> (#[trigger] commits(records)[k]) == records[places[k]],
    decreases records.len(),
{
    if records.len() == 0 {
        Seq::empty()
    } else {
        let before = lemma_commit_places(records.drop_last());
        assert(commits_in(records).drop_last() =~= commits_in(records.drop_last()));
        lemma_picks_one_more(before, commits_in(records));
        if records.last().body is Commit {
            before.push(records.len() - 1)
        } else {
            before
        }
    }
}

/// Whether the first list of the evidence shows the images that the records at `places`
/// hold, each with its number, version, bytes and position.
pub open spec fn shows_images<const N: usize>(
    observations: Seq<DurablePageWalObservation<N>>,
    records: Seq<RecordModel>,
    places: Seq<int>,
    lineage: LogLineage,
) -> bool {
    &&& observations.len() == places.len()
    &&& forall|k: int|
        0 <= k < places.len() ==> {
            let observation = #[trigger] observations[k];
            let record = records[places[k]];
            &&& image_in(record) matches Some(image)
            &&& observation.page_number@ == image.number
            &&& observation.page_version.value == image.version
            &&& observation.bytes@ == image.bytes
            &&& observation.position == (LogSequenceNumber { lineage, value: record.position })
        }
}

/// Whether the second list of the evidence shows the owned images that the records at
/// `places` hold, each with its owner too.
pub open spec fn shows_owned_images<const N: usize>(
    observations: Seq<DurableTransactionPageObservation<N>>,
    records: Seq<RecordModel>,
    places: Seq<int>,
    lineage: LogLineage,
) -> bool {
    &&& observations.len() == places.len()
    &&& forall|k: int|
        0 <= k < places.len() ==> {
            let observation = #[trigger] observations[k];
            let record = records[places[k]];
            &&& record.body matches RecordBody::OwnedPage { epoch, sequence, page }
            &&& observation.transaction_epoch == epoch
            &&& observation.transaction_sequence == sequence
            &&& observation.page_number@ == page.number
            &&& observation.page_version.value == page.version
            &&& observation.bytes@ == page.bytes
            &&& observation.position == (LogSequenceNumber { lineage, value: record.position })
        }
}

/// Whether the third list of the evidence shows the commits at `places`.
pub open spec fn shows_commits(
    observations: Seq<DurableTransactionCommitObservation>,
    records: Seq<RecordModel>,
    places: Seq<int>,
    lineage: LogLineage,
) -> bool {
    &&& observations.len() == places.len()
    &&& forall|k: int|
        0 <= k < places.len() ==> {
            let observation = #[trigger] observations[k];
            let record = records[places[k]];
            &&& record.body matches RecordBody::Commit { epoch, sequence }
            &&& observation.transaction_epoch == epoch
            &&& observation.transaction_sequence == sequence
            &&& observation.position == (LogSequenceNumber { lineage, value: record.position })
        }
}

proof fn lemma_evidence_places<const N: usize>(
    evidence: DurablePageEvidence<N>,
    records: Seq<RecordModel>,
    lineage: LogLineage,
    number: u64,
) -> (places: (Seq<int>, Seq<int>, Seq<int>))
    requires
        evidence.shows(records, lineage, number),
    ensures
        picks(places.0, images_of(records, number)),
        shows_images(evidence.physical_pages@, records, places.0, lineage),
        picks(places.1, owned_images_of(records, number)),
        shows_owned_images(evidence.transaction_pages@, records, places.1, lineage),
        picks(places.2, commits_in(records)),
        shows_commits(evidence.commits@, records, places.2, lineage),
{
    let physical = lemma_physical_places(records, number);
    let owned = lemma_owned_places(records, number);
    let committed = lemma_commit_places(records);
    assert forall|k: int| 0 <= k < physical.len() implies ({
        let observation = #[trigger] evidence.physical_pages@[k];
        let record = records[physical[k]];
        &&& image_in(record) matches Some(image)
        &&& observation.page_number@ == image.number
        &&& observation.page_version.value == image.version
        &&& observation.bytes@ == image.bytes
        &&& observation.position == (LogSequenceNumber { lineage, value: record.position })
    }) by {
        assert(page_observation_models(evidence.physical_pages@)[k] == physical_pages(
            records,
            number,
        )[k]);
        assert(images_of(records, number)[physical[k]]);
    }
    assert forall|k: int| 0 <= k < owned.len() implies ({
        let observation = #[trigger] evidence.transaction_pages@[k];
        let record = records[owned[k]];
        &&& record.body matches RecordBody::OwnedPage { epoch, sequence, page }
        &&& observation.transaction_epoch == epoch
        &&& observation.transaction_sequence == sequence
        &&& observation.page_number@ == page.number
        &&& observation.page_version.value == page.version
        &&& observation.bytes@ == page.bytes
        &&& observation.position == (LogSequenceNumber { lineage, value: record.position })
    }) by {
        assert(transaction_page_observation_models(evidence.transaction_pages@)[k]
            == transaction_pages(records, number)[k]);
    }
    assert forall|k: int| 0 <= k < committed.len() implies ({
        let observation = #[trigger] evidence.commits@[k];
        let record = records[committed[k]];
        &&& record.body matches RecordBody::Commit { epoch, sequence }
        &&& observation.transaction_epoch == epoch
        &&& observation.transaction_sequence == sequence
        &&& observation.position == (LogSequenceNumber { lineage, value: record.position })
    }) by {
        assert(commit_observation_models(evidence.commits@)[k] == commits(records)[k]);
    }
    (physical, owned, committed)
}

/// The evidence on a page shows every durable image of that page and of no other, raw or
/// owned, in log order, with the number, version, bytes and position of its record; then
/// those of them that transactions own, with their owners; and then every durable commit.
/// The places in the log at which the three lists were found come back.
pub proof fn law_evidence_is_of_the_page<const N: usize>(
    log: FileCommitLog<N>,
    page_number: PageNumber,
    evidence: DurablePageEvidence<N>,
) -> (places: (Seq<int>, Seq<int>, Seq<int>))
    requires
        log.inv(),
        call_ensures(
            FileCommitLog::<N>::with_durable_page_evidence,
            (&log, page_number),
            Ok::<_, FileCommittedPageRecoverySourceError>(evidence),
        ) || exists|exhausted: Option<FilePageRecoveryProjection>| #[trigger]
            call_ensures(
                FileCommitLog::<N>::gather_durable_page_evidence,
                (&log, page_number, exhausted),
                Ok::<_, FileCommittedPageRecoverySourceError>(evidence),
            ),
    ensures
        ({
            let records = log@.records.take(log@.durable_len as int);
            &&& picks(places.0, images_of(records, page_number@))
            &&& shows_images(evidence.physical_pages@, records, places.0, log.spec_lineage())
            &&& forall|k: int|
                0 <= k < evidence.physical_pages@.len() ==> (
                #[trigger] evidence.physical_pages@[k]).page_number@ == page_number@
            &&& picks(places.1, owned_images_of(records, page_number@))
            &&& shows_owned_images(
                evidence.transaction_pages@,
                records,
                places.1,
                log.spec_lineage(),
            )
            &&& forall|k: int|
                0 <= k < evidence.transaction_pages@.len() ==> (
                #[trigger] evidence.transaction_pages@[k]).page_number@ == page_number@
            &&& picks(places.2, commits_in(records))
            &&& shows_commits(evidence.commits@, records, places.2, log.spec_lineage())
        }),
{
    let records = durable(log@);
    let places = lemma_evidence_places(evidence, records, log.spec_lineage(), page_number@);
    assert forall|k: int| 0 <= k < evidence.physical_pages@.len() implies (
    #[trigger] evidence.physical_pages@[k]).page_number@ == page_number@ by {
        assert(images_of(records, page_number@)[places.0[k]]);
    }
    assert forall|k: int| 0 <= k < evidence.transaction_pages@.len() implies (
    #[trigger] evidence.transaction_pages@[k]).page_number@ == page_number@ by {
        assert(owned_images_of(records, page_number@)[places.1[k]]);
    }
    places
}

/// Whether a commit can be evidence: none of its numbers is zero.
pub open spec fn sound_commit(record: RecordModel) -> bool {
    record.body matches RecordBody::Commit { epoch, sequence } ==> epoch != 0 && sequence != 0
        && record.position != 0
}

/// Whether an owned page can be evidence: its owner's numbers are not zero.
pub open spec fn sound_owner(record: RecordModel) -> bool {
    record.body matches RecordBody::OwnedPage { epoch, sequence, .. } ==> epoch != 0 && sequence
        != 0
}

/// Whether a record can be evidence on the page numbered `number`.
pub open spec fn sound_for_page(record: RecordModel, number: u64) -> bool {
    &&& sound_commit(record)
    &&& record.body is OwnedPage && record.body->OwnedPage_page.number == number ==> sound_owner(
        record,
    )
}

/// Whether `error` tells which number of a commit is zero.
pub open spec fn blames_commit(
    error: DurableTransactionCommitObservationFieldsError,
    record: RecordModel,
) -> bool {
    &&& record.body matches RecordBody::Commit { epoch, sequence }
    &&& match error {
        DurableTransactionCommitObservationFieldsError::EpochZero => epoch == 0,
        DurableTransactionCommitObservationFieldsError::SequenceZero => epoch != 0 && sequence
            == 0,
        DurableTransactionCommitObservationFieldsError::PositionZero => epoch != 0 && sequence
            != 0 && record.position == 0,
    }
}

/// Whether `error` tells which number of an owner is zero.
pub open spec fn blames_owner(
    error: DurableTransactionPageObservationBytesError,
    record: RecordModel,
) -> bool {
    &&& record.body matches RecordBody::OwnedPage { epoch, sequence, .. }
    &&& match error {
        DurableTransactionPageObservationBytesError::OwnerEpochZero => epoch == 0,
        DurableTransactionPageObservationBytesError::OwnerSequenceZero => epoch != 0 && sequence
            == 0,
        DurableTransactionPageObservationBytesError::ImageWidthZero => false,
    }
}

proof fn lemma_first_evidence_error<const N: usize>(
    records: Seq<RecordModel>,
    lineage: LogLineage,
    number: u64,
    from: nat,
) -> (place: int)
    requires
        N > 0,
    ensures
        match first_evidence_error::<N>(records, lineage, number, from) {
            None => forall|i: int|
                from <= i < records.len() ==> sound_for_page(#[trigger] records[i], number),
            Some(error) => {
                &&& from <= place < records.len()
                &&& forall|i: int|
                    from <= i < place ==> sound_for_page(#[trigger] records[i], number)
                &&& !sound_for_page(records[place], number)
                &&& match error {
                    FileCommittedPageRecoverySourceError::TransactionPageProjection(error) =>
                        blames_owner(error, records[place]),
                    FileCommittedPageRecoverySourceError::CommitProjection(error) => blames_commit(
                        error,
                        records[place],
                    ),
                    _ => false,
                }
            },
        },
    decreases records.len() - from,
{
    if from < records.len() && evidence_error::<N>(records[from as int], lineage, number) is None {
        lemma_first_evidence_error::<N>(records, lineage, number, from + 1)
    } else {
        from as int
    }
}

/// Evidence is gathered exactly where the writer is sound, the format has pages that
/// transactions own, memory can be had and every durable record can be evidence. Where
/// one cannot, the first such record is blamed, and its place in the log comes back.
pub proof fn law_evidence_is_refused<const N: usize>(
    log: FileCommitLog<N>,
    page_number: PageNumber,
    exhausted: Option<FilePageRecoveryProjection>,
    result: Result<DurablePageEvidence<N>, FileCommittedPageRecoverySourceError>,
) -> (place: int)
    requires
        log.inv(),
        call_ensures(
            FileCommitLog::<N>::gather_durable_page_evidence,
            (&log, page_number, exhausted),
            result,
        ),
    ensures
        result is Ok <==> {
            &&& !log@.poisoned
            &&& log@.format != LogFormat::V1 && log@.format != LogFormat::V2
            &&& exhausted is None
            &&& forall|i: int|
                0 <= i < log@.durable_len ==> sound_for_page(
                    #[trigger] log@.records[i],
                    page_number@,
                )
        },
        result matches Err(error) ==> match error {
            FileCommittedPageRecoverySourceError::PoisonedWriter => log@.poisoned,
            FileCommittedPageRecoverySourceError::TransactionPageSupportUnavailable { version } => {
                &&& !log@.poisoned
                &&& log@.format == LogFormat::V1 && version == 1 || log@.format == LogFormat::V2
                    && version == 2
            },
            FileCommittedPageRecoverySourceError::EvidenceCapacityExhausted { projection } => {
                &&& !log@.poisoned && log@.format != LogFormat::V1 && log@.format != LogFormat::V2
                &&& exhausted == Some(projection)
            },
            _ => {
                &&& 0 <= place < log@.durable_len
                &&& forall|i: int|
                    0 <= i < place ==> sound_for_page(#[trigger] log@.records[i], page_number@)
                &&& match error {
                    FileCommittedPageRecoverySourceError::TransactionPageProjection(error) =>
                        blames_owner(error, log@.records[place]),
                    FileCommittedPageRecoverySourceError::CommitProjection(error) => blames_commit(
                        error,
                        log@.records[place],
                    ),
                    _ => false,
                }
            },
        },
{
    log.law_positions_are_numbered();
    log.law_durable_records_and_width();
    if log@.format != LogFormat::V1 && log@.format != LogFormat::V2 {
        let place = lemma_first_evidence_error::<N>(
            durable(log@),
            log.spec_lineage(),
            page_number@,
            0,
        );
        assert forall|i: int| 0 <= i < log@.durable_len implies #[trigger] log@.records[i]
            == durable(log@)[i] by {}
        place
    } else {
        0
    }
}

/// The inventory of a log names exactly the pages of which a durable record holds an
/// owned image, each once and in ascending order. It is refused for a poisoned writer, a
/// format without such records, and want of memory alone.
pub proof fn law_inventory_names_the_owned_pages<const N: usize>(
    log: FileCommitLog<N>,
    has_room: bool,
    result: Result<Vec<PageNumber>, FileCommittedPageRecoveryInventoryError>,
)
    requires
        log.inv(),
        call_ensures(
            FileCommitLog::<N>::list_durable_transaction_pages,
            (&log, has_room),
            result,
        ),
    ensures
        result is Ok <==> !log@.poisoned && has_room && log@.format != LogFormat::V1 && log@.format
            != LogFormat::V2,
        result matches Ok(numbers) ==> names_owned_pages(numbers@, log@),
        result matches Err(error) ==> match error {
            FileCommittedPageRecoveryInventoryError::PoisonedWriter => log@.poisoned,
            FileCommittedPageRecoveryInventoryError::TransactionPageSupportUnavailable {
                version,
            } => {
                &&& !log@.poisoned
                &&& log@.format == LogFormat::V1 && version == 1 || log@.format == LogFormat::V2
                    && version == 2
            },
            FileCommittedPageRecoveryInventoryError::PageCapacityExhausted => !log@.poisoned
                && !has_room && log@.format != LogFormat::V1 && log@.format != LogFormat::V2,
        },
{
    log.law_durable_records_and_width();
    if let Ok(numbers) = result {
        lemma_inventory_names_owned_pages(numbers@, log@);
    }
}

/// Whether a durable record holds an owned image of the page numbered `number`.
pub open spec fn has_owned_image(log: LogModel, number: u64) -> bool {
    exists|i: int|
        0 <= i < log.durable_len && (#[trigger] log.records[i]).body is OwnedPage
            && log.records[i].body->OwnedPage_page.number == number
}

/// Whether `numbers` are, in ascending order, exactly the numbers of the pages of which a
/// durable record holds an owned image.
pub open spec fn names_owned_pages(numbers: Seq<PageNumber>, log: LogModel) -> bool {
    &&& forall|a: int, b: int|
        #![trigger numbers[a], numbers[b]]
        0 <= a < b < numbers.len() ==> numbers[a]@ < numbers[b]@
    &&& forall|k: int|
        0 <= k < numbers.len() ==> has_owned_image(log, (#[trigger] numbers[k])@)
    &&& forall|i: int|
        0 <= i < log.durable_len && (#[trigger] log.records[i]).body is OwnedPage ==> exists|
            k: int,
        |
            0 <= k < numbers.len() && (#[trigger] numbers[k])@
                == log.records[i].body->OwnedPage_page.number
}

proof fn lemma_inventory_names_owned_pages(numbers: Seq<PageNumber>, log: LogModel)
    requires
        is_page_inventory(numbers, durable(log)),
        log.durable_len <= log.records.len(),
    ensures
        names_owned_pages(numbers, log),
{
    let records = durable(log);
    assert forall|a: int, b: int|
        #![trigger numbers[a], numbers[b]]
        0 <= a < b < numbers.len() implies numbers[a]@ < numbers[b]@ by {}
    assert forall|i: int| 0 <= i < log.durable_len implies #[trigger] log.records[i]
        == records[i] by {}
    assert forall|k: int| 0 <= k < numbers.len() implies has_owned_image(
        log,
        (#[trigger] numbers[k])@,
    ) by {
        assert(owns_page(records, numbers[k]@));
        let i = choose|i: int| 0 <= i < records.len() && #[trigger] is_owned_page(
            records[i],
            numbers[k]@,
        );
        assert(log.records[i].body is OwnedPage);
    }
    assert forall|i: int|
        0 <= i < log.durable_len && (#[trigger] log.records[i]).body is OwnedPage implies exists|
        k: int,
    |
        0 <= k < numbers.len() && (#[trigger] numbers[k])@
            == log.records[i].body->OwnedPage_page.number by {
        assert(records[i].body is OwnedPage);
    }
}

/// The same where nothing is known of the memory: want of it is then the only further
/// reason for a refusal, and no reason where nothing is durable.
pub proof fn law_page_numbers_are_the_inventory<const N: usize>(
    log: FileCommitLog<N>,
    result: Result<Vec<PageNumber>, FileCommittedPageRecoveryInventoryError>,
)
    requires
        log.inv(),
        call_ensures(FileCommitLog::<N>::durable_transaction_page_numbers, (&log,), result),
    ensures
        result matches Ok(numbers) ==> names_owned_pages(numbers@, log@),
        !log@.poisoned && log@.format != LogFormat::V1 && log@.format != LogFormat::V2
            ==> result is Ok || log@.durable_len > 0 && (result matches Err(
            FileCommittedPageRecoveryInventoryError::PageCapacityExhausted,
        )),
        log@.poisoned || log@.format == LogFormat::V1 || log@.format == LogFormat::V2
            ==> result is Err,
{
    log.law_durable_records_and_width();
    if let Ok(numbers) = result {
        lemma_inventory_names_owned_pages(numbers@, log@);
    }
}

/// Whether `observation` is what restart analysis has to see of `record`: its kind, all
/// its numbers, its bytes and its position.
pub open spec fn observes<const N: usize>(
    observation: DurableTransactionRestartObservation<N>,
    record: RecordModel,
    lineage: LogLineage,
) -> bool {
    let position = LogSequenceNumber { lineage, value: record.position };
    match record.body {
        RecordBody::Commit { epoch, sequence } => {
            &&& observation matches DurableTransactionRestartObservation::Commit(commit)
            &&& commit.transaction_epoch == epoch && commit.transaction_sequence == sequence
            &&& commit.position == position
        },
        RecordBody::Page { page } => {
            &&& observation matches DurableTransactionRestartObservation::Page(image)
            &&& image.page_number@ == page.number && image.page_version.value == page.version
            &&& image.bytes@ == page.bytes
            &&& image.position == position
        },
        RecordBody::OwnedPage { epoch, sequence, page } => {
            &&& observation matches DurableTransactionRestartObservation::TransactionPage(image)
            &&& image.transaction_epoch == epoch && image.transaction_sequence == sequence
            &&& image.page_number@ == page.number && image.page_version.value == page.version
            &&& image.bytes@ == page.bytes
            &&& image.position == position
        },
    }
}

/// Whether the observations are those of the durable records, one for each, in order.
pub open spec fn observes_all<const N: usize>(
    observations: Seq<DurableTransactionRestartObservation<N>>,
    log: FileCommitLog<N>,
) -> bool {
    &&& observations.len() == log@.durable_len
    &&& forall|i: int|
        0 <= i < observations.len() ==> observes(
            #[trigger] observations[i],
            log@.records[i],
            log.spec_lineage(),
        )
}

proof fn lemma_observes_all<const N: usize>(
    observations: Seq<DurableTransactionRestartObservation<N>>,
    log: FileCommitLog<N>,
)
    requires
        log@.durable_len <= log@.records.len(),
        restart_shows(observations, durable(log@), log.spec_lineage()),
    ensures
        observes_all(observations, log),
{
    assert(restart_observation_models(observations).len() == observations.len());
    assert forall|i: int| 0 <= i < observations.len() implies observes(
        #[trigger] observations[i],
        log@.records[i],
        log.spec_lineage(),
    ) by {
        assert(restart_observation_models(observations)[i] == durable(log@)[i]);
        assert(observations[i].spec_position().lineage == log.spec_lineage());
    }
}

proof fn lemma_first_restart_error<const N: usize>(
    records: Seq<RecordModel>,
    lineage: LogLineage,
    from: nat,
) -> (place: int)
    ensures
        match first_restart_error::<N>(records, lineage, from) {
            None => forall|i: int|
                from <= i < records.len() ==> sound_commit(#[trigger] records[i]) && sound_owner(
                    records[i],
                ) && (N > 0 || records[i].body is Commit),
            Some(error) => {
                &&& from <= place < records.len()
                &&& forall|i: int|
                    from <= i < place ==> sound_commit(#[trigger] records[i]) && sound_owner(
                        records[i],
                    ) && (N > 0 || records[i].body is Commit)
                &&& match error {
                    FileTransactionRestartAnalysisSourceError::TransactionPageProjection(error) =>
                        blames_owner(error, records[place]) || N == 0 && records[place].body is
                            OwnedPage,
                    FileTransactionRestartAnalysisSourceError::CommitProjection(error) =>
                        blames_commit(error, records[place]),
                    FileTransactionRestartAnalysisSourceError::PageProjection(_) => N == 0
                        && records[place].body is Page,
                    _ => false,
                }
            },
        },
    decreases records.len() - from,
{
    if from < records.len() && restart_error::<N>(records[from as int], lineage) is None {
        lemma_first_restart_error::<N>(records, lineage, from + 1)
    } else {
        from as int
    }
}

/// Restart analysis sees every durable record and nothing else, in order, each as what it
/// is; it does so exactly where memory can be had and every durable record can be seen.
/// Where one cannot, the first such record is blamed, and its place comes back.
pub proof fn law_restart_sees_the_durable_records<const N: usize>(
    log: FileCommitLog<N>,
    has_room: bool,
    result: Result<
        Vec<DurableTransactionRestartObservation<N>>,
        FileTransactionRestartAnalysisSourceError,
    >,
) -> (place: int)
    requires
        log.inv(),
        call_ensures(
            FileCommitLog::<N>::project_durable_restart_observations,
            (&log, has_room),
            result,
        ),
    ensures
        result is Ok <==> has_room && forall|i: int|
            0 <= i < log@.durable_len ==> sound_commit(#[trigger] log@.records[i]) && sound_owner(
                log@.records[i],
            ) && (N > 0 || log@.records[i].body is Commit),
        result matches Ok(observations) ==> observes_all(observations@, log),
        result matches Err(error) ==> match error {
            FileTransactionRestartAnalysisSourceError::ObservationCapacityExhausted {
                record_count,
            } => !has_room && record_count == log@.durable_len,
            _ => {
                &&& has_room
                &&& 0 <= place < log@.durable_len
                &&& match error {
                    FileTransactionRestartAnalysisSourceError::TransactionPageProjection(error) =>
                        blames_owner(error, log@.records[place]) || N == 0
                            && log@.records[place].body is OwnedPage,
                    FileTransactionRestartAnalysisSourceError::CommitProjection(error) =>
                        blames_commit(error, log@.records[place]),
                    FileTransactionRestartAnalysisSourceError::PageProjection(_) => N == 0
                        && log@.records[place].body is Page,
                    _ => false,
                }
            },
        },
{
    log.law_durable_records_and_width();
    assert forall|i: int| 0 <= i < log@.durable_len implies #[trigger] log@.records[i] == durable(
        log@,
    )[i] by {}
    if let Ok(observations) = result {
        lemma_observes_all(observations@, log);
    }
    let place = lemma_first_restart_error::<N>(durable(log@), log.spec_lineage(), 0);
    assert(0 <= place < log@.durable_len ==> log@.records[place] == durable(log@)[place]);
    place
}

/// What restart analysis retains of a log is every durable record, reclaimed or not.
pub proof fn law_retained_observations<const N: usize>(
    log: FileCommitLog<N>,
    result: Result<
        Vec<DurableTransactionRestartObservation<N>>,
        FileTransactionRestartAnalysisSourceError,
    >,
)
    requires
        log.inv(),
        call_ensures(
            FileCommitLog::<N>::with_durable_transaction_restart_retained_observations,
            (&log,),
            result,
        ),
    ensures
        (result matches Err(FileTransactionRestartAnalysisSourceError::PoisonedWriter))
            <==> log@.poisoned,
        result matches Ok(observations) ==> observes_all(observations@, log),
        !log@.poisoned && (forall|i: int|
            0 <= i < log@.durable_len ==> sound_commit(#[trigger] log@.records[i]) && sound_owner(
                log@.records[i],
            ) && (N > 0 || log@.records[i].body is Commit)) ==> result is Ok || log@.durable_len > 0
            && (result matches Err(
            FileTransactionRestartAnalysisSourceError::ObservationCapacityExhausted { record_count },
        ) && record_count == log@.durable_len),
{
    log.law_durable_records_and_width();
    assert forall|i: int| 0 <= i < log@.durable_len implies #[trigger] log@.records[i] == durable(
        log@,
    )[i] by {}
    if let Ok(observations) = result {
        lemma_observes_all(observations@, log);
    }
    let place = lemma_first_restart_error::<N>(durable(log@), log.spec_lineage(), 0);
    assert(0 <= place < log@.durable_len ==> log@.records[place] == durable(log@)[place]);
}

/// Where the complete analysis of a log succeeds, nothing has ever been reclaimed from the
/// log: it has no reclaimed coordinates, the observations are those of the positions from
/// one on, and the frontier is the position of the last of them. A log of any later
/// generation is refused, with its generation.
pub proof fn law_complete_analysis_needs_a_complete_log<const N: usize>(
    log: FileCommitLog<N>,
    result: Result<DurableRestartEvidence<N>, FileTransactionRestartAnalysisSourceError>,
)
    requires
        log.inv(),
        call_ensures(
            FileCommitLog::<N>::with_durable_transaction_restart_observations,
            (&log,),
            result,
        ),
    ensures
        result matches Ok(evidence) ==> {
            &&& !log@.poisoned
            &&& log@.coordinates is None
            &&& observes_all(evidence.observations@, log)
            &&& forall|i: int|
                0 <= i < evidence.observations@.len() ==> (
                #[trigger] evidence.observations@[i]).spec_position() == (LogSequenceNumber {
                    lineage: log.spec_lineage(),
                    value: (i + 1) as u64,
                })
            &&& evidence.observations@.len() == 0 ==> evidence.durable_frontier is None
            &&& evidence.observations@.len() > 0 ==> evidence.durable_frontier == Some(
                evidence.observations@.last().spec_position(),
            )
        },
        log@.poisoned ==> (result matches Err(
            FileTransactionRestartAnalysisSourceError::PoisonedWriter,
        )),
        !log@.poisoned ==> (log@.coordinates matches Some(coordinates) ==> (result matches Err(
            FileTransactionRestartAnalysisSourceError::PrunedGenerationRequiresCheckpoint {
                generation,
            },
        ) && generation == coordinates.generation && generation != 0)),
        !log@.poisoned && log@.coordinates is None && (forall|i: int|
            0 <= i < log@.durable_len ==> sound_commit(#[trigger] log@.records[i]) && sound_owner(
                log@.records[i],
            ) && (N > 0 || log@.records[i].body is Commit)) ==> result is Ok || log@.durable_len > 0
            && (result matches Err(
            FileTransactionRestartAnalysisSourceError::ObservationCapacityExhausted { record_count },
        ) && record_count == log@.durable_len),
{
    log.law_positions_are_numbered();
    log.law_reclaimed_log_has_a_generation();
    log.law_durable_records_and_width();
    assert forall|i: int| 0 <= i < log@.durable_len implies #[trigger] log@.records[i] == durable(
        log@,
    )[i] by {}
    let place = lemma_first_restart_error::<N>(durable(log@), log.spec_lineage(), 0);
    assert(0 <= place < log@.durable_len ==> log@.records[place] == durable(log@)[place]);
    if let Ok(evidence) = result {
        lemma_observes_all(evidence.observations@, log);
        assert forall|i: int| 0 <= i < evidence.observations@.len() implies (
        #[trigger] evidence.observations@[i]).spec_position() == (LogSequenceNumber {
            lineage: log.spec_lineage(),
            value: (i + 1) as u64,
        }) by {
            assert(observes(evidence.observations@[i], log@.records[i], log.spec_lineage()));
            assert(log@.records[i].position == i + 1);
        }
    }
}

/// Once a reclamation has been taken into a log, the complete analysis of the log is
/// refused with the generation that the reclamation has made.
pub proof fn law_reclaimed_log_is_not_complete<const N: usize>(
    log: &mut FileCommitLog<N>,
    plan: ReclamationPlan<N>,
    report: DurableTransactionRestartWalReclamationEffectObservation,
    result: Result<DurableRestartEvidence<N>, FileTransactionRestartAnalysisSourceError>,
)
    requires
        call_ensures(FileCommitLog::<N>::finish_reclamation, (log, plan), report),
        call_ensures(
            FileCommitLog::<N>::with_durable_transaction_restart_observations,
            (&*final(log),),
            result,
        ),
    ensures
        result matches Err(
            FileTransactionRestartAnalysisSourceError::PrunedGenerationRequiresCheckpoint {
                generation,
            },
        ) && generation == plan.spec_coordinates().generation,
{
    final(log).law_reclaimed_log_has_a_generation();
}

/// The generation of a log is zero before its first reclamation, and that of its
/// coordinates since.
pub open spec fn is_generation_of(generation: u64, log: LogModel) -> bool {
    match log.coordinates {
        None => generation == 0,
        Some(coordinates) => generation == coordinates.generation,
    }
}

/// Whether `epoch` is the highest epoch that the log has handed out.
pub open spec fn is_last_epoch(epoch: u64, log: LogModel) -> bool {
    match log.next_epoch {
        None => epoch == u64::MAX,
        Some(next) => epoch > 0 && next == epoch + 1,
    }
}

/// Whether an observation tells of the log what a reclamation, or a restart from a
/// checkpoint, has to know: its lineage, version and generation, the first and the last
/// durable record, the last epoch and the checkpoint that it was reclaimed under.
pub open spec fn describes<const N: usize>(
    observation: DurableTransactionRestartWalReclamationSourceObservation,
    log: FileCommitLog<N>,
) -> bool {
    &&& observation.lineage == log.spec_lineage()
    &&& observation.physical_format_version == match log@.format {
        LogFormat::V1 => 1u16,
        LogFormat::V2 => 2u16,
        LogFormat::V3 => 3u16,
        LogFormat::V4 => 4u16,
        LogFormat::V5 => 5u16,
    }
    &&& is_generation_of(observation.generation, log@)
    &&& if log@.durable_len > 0 {
        &&& observation.first_durable_record == Some(
            LogSequenceNumber { lineage: log.spec_lineage(), value: log@.records[0].position },
        )
        &&& observation.durable_frontier == Some(
            LogSequenceNumber {
                lineage: log.spec_lineage(),
                value: log@.records[log@.durable_len - 1].position,
            },
        )
    } else {
        &&& observation.first_durable_record is None
        &&& observation.durable_frontier is Some <==> log@.coordinates is Some
            && log@.coordinates->0.logical_high_water is Some
        &&& observation.durable_frontier matches Some(frontier) ==> frontier.lineage
            == log.spec_lineage() && log@.coordinates->0.logical_high_water == Some(
            frontier.value,
        )
    }
    &&& is_last_epoch(observation.allocated_epoch_high_water, log@)
    &&& match log@.coordinates {
        None => observation.selected_checkpoint_anchor is None,
        Some(coordinates) => observation.selected_checkpoint_anchor == Some(
            (coordinates.anchor_version, coordinates.anchor_value),
        ),
    }
}

/// What a log tells of itself before a reclamation and before a restart describes it. Both
/// are refused for a poisoned writer, and where no epoch has been handed out.
pub proof fn law_source_observations_describe_the_log<const N: usize>(
    log: FileCommitLog<N>,
    pruned: Result<
        DurableTransactionRestartWalReclamationSourceObservation,
        FileTransactionRestartAnalysisSourceError,
    >,
    source: Result<
        DurableTransactionRestartWalReclamationSourceObservation,
        FileTransactionRestartWalReclamationError,
    >,
)
    requires
        call_ensures(FileCommitLog::<N>::observe_restart_pruned_generation, (&log,), pruned),
        call_ensures(FileCommitLog::<N>::observe_restart_wal_reclamation_source, (&log,), source),
    ensures
        pruned is Ok <==> !log@.poisoned && (log@.next_epoch matches Some(next) ==> next > 1),
        source is Ok <==> pruned is Ok,
        pruned matches Ok(observation) ==> describes(observation, log),
        source matches Ok(observation) ==> describes(observation, log),
        log@.poisoned ==> (pruned matches Err(
            FileTransactionRestartAnalysisSourceError::PoisonedWriter,
        )) && (source matches Err(FileTransactionRestartWalReclamationError::PoisonedWriter)),
        !log@.poisoned && pruned is Err ==> (pruned matches Err(
            FileTransactionRestartAnalysisSourceError::NoAllocatedEpoch,
        )) && (source matches Err(FileTransactionRestartWalReclamationError::NoAllocatedEpoch)),
{
}

/// What a log tells of its generation, and of how much of it has to be retained: the
/// lineage, the last epoch, and no position that the log itself requires.
pub proof fn law_restart_metadata<const N: usize>(
    log: FileCommitLog<N>,
    generation: Result<u64, FileTransactionRestartAnalysisSourceError>,
    metadata: Result<
        DurableTransactionRestartRetentionMetadataObservation,
        FileTransactionRestartRetentionMetadataSourceError,
    >,
)
    requires
        call_ensures(FileCommitLog::<N>::observe_restart_source_generation, (&log,), generation),
        call_ensures(FileCommitLog::<N>::observe_restart_retention_metadata, (&log,), metadata),
    ensures
        log@.poisoned ==> (generation matches Err(
            FileTransactionRestartAnalysisSourceError::PoisonedWriter,
        )) && (metadata matches Err(
            FileTransactionRestartRetentionMetadataSourceError::PoisonedWriter,
        )),
        !log@.poisoned ==> (generation matches Ok(generation) && is_generation_of(
            generation,
            log@,
        )),
        metadata is Ok <==> !log@.poisoned && (log@.next_epoch matches Some(next) ==> next > 1),
        metadata matches Ok(metadata) ==> {
            &&& metadata.lineage == log.spec_lineage()
            &&& is_last_epoch(metadata.allocated_epoch_high_water, log@)
            &&& metadata.oldest_required_log_position is None
        },
        !log@.poisoned && metadata is Err ==> (metadata matches Err(
            FileTransactionRestartRetentionMetadataSourceError::NoAllocatedEpoch,
        )),
{
}


/// Where nothing is known of the memory, evidence is refused for the same reasons, and for
/// want of memory where anything is durable.
pub proof fn law_page_evidence_is_refused<const N: usize>(
    log: FileCommitLog<N>,
    page_number: PageNumber,
    result: Result<DurablePageEvidence<N>, FileCommittedPageRecoverySourceError>,
)
    requires
        log.inv(),
        call_ensures(
            FileCommitLog::<N>::with_durable_page_evidence,
            (&log, page_number),
            result,
        ),
    ensures
        result is Ok ==> {
            &&& !log@.poisoned
            &&& log@.format != LogFormat::V1 && log@.format != LogFormat::V2
            &&& forall|i: int|
                0 <= i < log@.durable_len ==> sound_for_page(
                    #[trigger] log@.records[i],
                    page_number@,
                )
        },
        !log@.poisoned && log@.format != LogFormat::V1 && log@.format != LogFormat::V2 && (forall|
            i: int,
        |
            0 <= i < log@.durable_len ==> sound_for_page(
                #[trigger] log@.records[i],
                page_number@,
            )) ==> result is Ok || log@.durable_len > 0 && (result matches Err(
            FileCommittedPageRecoverySourceError::EvidenceCapacityExhausted { .. },
        )),
        log@.poisoned ==> (result matches Err(
            FileCommittedPageRecoverySourceError::PoisonedWriter,
        )),
        !log@.poisoned && log@.format == LogFormat::V1 ==> (result matches Err(
            FileCommittedPageRecoverySourceError::TransactionPageSupportUnavailable { version },
        ) && version == 1),
        !log@.poisoned && log@.format == LogFormat::V2 ==> (result matches Err(
            FileCommittedPageRecoverySourceError::TransactionPageSupportUnavailable { version },
        ) && version == 2),
{
    log.law_durable_records_and_width();
    if log@.format != LogFormat::V1 && log@.format != LogFormat::V2 {
        let place = lemma_first_evidence_error::<N>(
            durable(log@),
            log.spec_lineage(),
            page_number@,
            0,
        );
        assert forall|i: int| 0 <= i < log@.durable_len implies #[trigger] log@.records[i]
            == durable(log@)[i] by {}
        assert(0 <= place < log@.durable_len ==> log@.records[place] == durable(log@)[place]);
    }
}


} // verus!
