//! What the operations on an open page store do, call by call.
use vstd::prelude::*;

use crate::identity::{LogLineage, LogSequenceNumber, PageNumber, PageVersion};
use crate::page::{DirtyPage, PageWritePermit};
use crate::page_store::{
    is_shown, is_store_inventory, shows_page, CommittedPageRecoveryTarget,
    CommittedTransactionPageRecoveryWritePermit, FilePageStore, PageWritePlan,
    RestartCheckpointPageRepairTarget, TransactionRestartCheckpointPageRepairWritePermit,
};
use crate::page_store_effect::{store_written, StoreEffectModel};
use crate::page_store_error::{
    FileCommittedPageRecoveryObservationError, FileCommittedPageRecoveryStoreError,
    FilePageStoreError, FilePageStoreInventoryError, FileRestartCheckpointPageRepairStoreError,
    PageSourceComparison, PageSourceContradiction, PageStoreFaultAlreadyArmed, PageStoreFaultPoint,
    PageStoreIoError, PageStoreIoStage,
};
use crate::page_store_frame::decoded_store_frame;
use crate::page_store_laws::{law_write_then_open, store_holds};
use crate::page_store_scan::{read_store_header, store_scan, store_step, StoreModel, StoreScanModel};
use crate::observation::StoredPageSnapshotObservation;
use crate::stored_page::{
    current_page, law_write_replaces_only_its_page, lemma_page_index, numbers_distinct,
    page_index_from, FileStoredPage, StoredPageModel,
};

verus! {

/// Whether the store holds a snapshot of the page numbered `number`.
pub open spec fn holds_page(store: StoreModel, number: u64) -> bool {
    exists|i: int| 0 <= i < store.pages.len() && (#[trigger] store.pages[i]).number == number
}

/// Whether a group of frames may be written for the page numbered `number`: a sequence
/// number is left, the writer is sound, no fault stands in the way, and the page is there
/// already or there is room for another.
pub open spec fn takes_group(store: StoreModel, number: u64, has_room: bool) -> bool {
    &&& store.next_sequence is Some
    &&& !store.poisoned
    &&& store.armed_fault != Some(PageStoreFaultPoint::BeforeWrite)
    &&& has_room || holds_page(store, number)
}

/// Whether `plan` writes this image under the store's next sequence number, and requires
/// this position of it.
pub open spec fn writes_image<const N: usize>(
    store: FilePageStore<N>,
    plan: PageWritePlan<N>,
    number: PageNumber,
    version: PageVersion,
    bytes: [u8; N],
    position: LogSequenceNumber,
) -> bool {
    let page = plan.spec_page();
    &&& store@.next_sequence == Some(page.sequence)
    &&& page.number == number@
    &&& page.version == version.value
    &&& page.bytes == bytes@
    &&& page.position == position.value
    &&& plan.spec_lineage() == position.lineage
}

/// Whether a refusal of the group is told by its reason, and leaves the store as it is but
/// for a fault that was used up.
pub open spec fn refuses_group(
    before: StoreModel,
    after: StoreModel,
    number: u64,
    has_room: bool,
    error: FilePageStoreError,
) -> bool {
    &&& match error {
        FilePageStoreError::StoreSequenceSpaceExhausted => before.next_sequence is None,
        FilePageStoreError::SnapshotCapacityExhausted => before.next_sequence is Some && !has_room
            && !holds_page(before, number),
        FilePageStoreError::PoisonedWriter => before.poisoned,
        FilePageStoreError::InjectedFault(fault) => {
            &&& !before.poisoned && before.next_sequence is Some
            &&& has_room || holds_page(before, number)
            &&& fault == PageStoreFaultPoint::BeforeWrite
            &&& before.armed_fault == Some(fault)
        },
        _ => false,
    }
    &&& after == (StoreModel {
        armed_fault: if error is InjectedFault {
            None
        } else {
            before.armed_fault
        },
        ..before
    })
}

proof fn lemma_holds_page(store: StoreModel, number: u64)
    ensures
        current_page(store.pages, number) is Some <==> holds_page(store, number),
{
    lemma_page_index(store.pages, number, 0);
    if let Some(index) = page_index_from(store.pages, number, 0) {
        assert(store.pages[index as int].number == number);
    }
}

/// Whether the permit of a dirty page is for that page, and page and permit are of the
/// store's lineage.
pub open spec fn permits_write<const N: usize>(
    store: FilePageStore<N>,
    page: DirtyPage<N>,
    permit: PageWritePermit,
) -> bool {
    &&& page.address.lineage == store.spec_lineage()
    &&& permit.position.lineage == store.spec_lineage()
    &&& permit.position.value == page.required_position.value
    &&& page.required_position.lineage == store.spec_lineage()
    &&& page.required_position.value != 0
}

/// Whether an error tells the first reason not to write a dirty page: a poisoned writer, then
/// the lineage of the page, that of the permit, the permit's position, a position of zero, and
/// last what keeps the store from taking the group.
pub open spec fn refuses_write<const N: usize>(
    before: FilePageStore<N>,
    after: FilePageStore<N>,
    page: DirtyPage<N>,
    permit: PageWritePermit,
    has_room: bool,
    error: FilePageStoreError,
) -> bool {
    let lineage = before.spec_lineage();
    if before@.poisoned {
        error is PoisonedWriter && after@ == before@
    } else if page.address.lineage != lineage {
        &&& error matches FilePageStoreError::ForeignPageLineage(number)
        &&& number == page.address.number && after@ == before@
    } else if permit.position.lineage != lineage {
        &&& error matches FilePageStoreError::ForeignPermitLineage(position)
        &&& position == permit.position && after@ == before@
    } else if permit.position != page.required_position {
        &&& error matches FilePageStoreError::PermitPositionMismatch { expected, actual }
        &&& expected == page.required_position && actual == permit.position
        &&& after@ == before@
    } else if page.required_position.value == 0 {
        &&& error matches FilePageStoreError::RequiredPositionZero(number)
        &&& number == page.address.number && after@ == before@
    } else {
        refuses_group(before@, after@, page.address.number@, has_room, error)
    }
}

/// A dirty page is planned exactly where its permit is for it and the store takes the
/// group. The plan writes the page's number, version and bytes, and requires of it the
/// position at which the page was logged.
pub proof fn law_write_dirty_page<const N: usize>(
    store: &mut FilePageStore<N>,
    page: DirtyPage<N>,
    permit: PageWritePermit,
    has_room: bool,
    result: Result<PageWritePlan<N>, FilePageStoreError>,
)
    requires
        call_ensures(
            FilePageStore::<N>::write_dirty_page,
            (store, &page, permit, has_room),
            result,
        ),
    ensures
        result is Ok <==> permits_write(*old(store), page, permit) && takes_group(
            old(store)@,
            page.address.number@,
            has_room,
        ),
        result matches Ok(plan) ==> {
            &&& final(store)@ == old(store)@
            &&& writes_image(
                *old(store),
                plan,
                page.address.number,
                page.version,
                page.bytes,
                page.required_position,
            )
        },
        result matches Err(error) ==> refuses_write(
            *old(store),
            *final(store),
            page,
            permit,
            has_room,
            error,
        ),
{
    lemma_holds_page(old(store)@, page.address.number@);
}

/// The same where nothing is known of the room: want of it is then the only further reason
/// for a refusal, and no reason where the page is there already.
pub proof fn law_write_page<const N: usize>(
    store: &mut FilePageStore<N>,
    page: DirtyPage<N>,
    permit: PageWritePermit,
    result: Result<PageWritePlan<N>, FilePageStoreError>,
)
    requires
        call_ensures(FilePageStore::<N>::write_page, (store, &page, permit), result),
    ensures
        result matches Ok(plan) ==> {
            &&& permits_write(*old(store), page, permit)
            &&& final(store)@ == old(store)@
            &&& writes_image(
                *old(store),
                plan,
                page.address.number,
                page.version,
                page.bytes,
                page.required_position,
            )
        },
        permits_write(*old(store), page, permit) && takes_group(
            old(store)@,
            page.address.number@,
            true,
        ) ==> result is Ok || !holds_page(old(store)@, page.address.number@) && (result matches Err(
            FilePageStoreError::SnapshotCapacityExhausted,
        )),
        !permits_write(*old(store), page, permit) || !takes_group(
            old(store)@,
            page.address.number@,
            true,
        ) ==> result is Err,
        final(store)@.pages == old(store)@.pages,
        final(store)@.next_sequence == old(store)@.next_sequence,
        final(store)@.poisoned == old(store)@.poisoned,
        result matches Err(error) ==> refuses_write(
            *old(store),
            *final(store),
            page,
            permit,
            true,
            error,
        ) || refuses_write(*old(store), *final(store), page, permit, false, error),
{
    lemma_holds_page(old(store)@, page.address.number@);
}

/// A planned group consists of writes, one for the page's header, one for the required
/// position and the others for its data, and then makes all of them durable.
pub proof fn law_planned_effects<const N: usize>(
    store: &mut FilePageStore<N>,
    page: DirtyPage<N>,
    permit: PageWritePermit,
    has_room: bool,
    plan: PageWritePlan<N>,
    index: int,
)
    requires
        call_ensures(
            FilePageStore::<N>::write_dirty_page,
            (store, &page, permit, has_room),
            Ok::<_, FilePageStoreError>(plan),
        ),
        0 <= index < plan.spec_effects().len(),
    ensures
        plan.spec_effects().len() == 3 + (N + 7) / 8,
        index == plan.spec_effects().len() - 1 ==> plan.spec_effects()[index] == (
        StoreEffectModel::Sync { stage: PageStoreIoStage::SyncPageGroup }),
        index < plan.spec_effects().len() - 1 ==> (
        plan.spec_effects()[index] matches StoreEffectModel::Write { stage, .. } && stage == (
        if index == 0 {
            PageStoreIoStage::WriteSnapshotHeaderFrame
        } else if index == 1 {
            PageStoreIoStage::WriteRequiredPositionFrame
        } else {
            PageStoreIoStage::WritePageDataFrame
        })),
{
}

/// Whether the snapshot is the only one of its page in the store.
pub open spec fn is_only_snapshot(store: StoreModel, page: StoredPageModel) -> bool {
    &&& exists|i: int| 0 <= i < store.pages.len() && #[trigger] store.pages[i] == page
    &&& forall|i: int|
        0 <= i < store.pages.len() && (#[trigger] store.pages[i]).number == page.number
            ==> store.pages[i] == page
}

proof fn lemma_written_is_current(pages: Seq<StoredPageModel>, page: StoredPageModel, other: u64)
    requires
        numbers_distinct(pages),
    ensures
        ({
            let after = crate::stored_page::with_page(pages, page);
            &&& numbers_distinct(after)
            &&& exists|i: int| 0 <= i < after.len() && #[trigger] after[i] == page
            &&& forall|i: int|
                0 <= i < after.len() && (#[trigger] after[i]).number == page.number ==> after[i]
                    == page
            &&& forall|i: int|
                0 <= i < after.len() && (#[trigger] after[i]).number != page.number
                    ==> pages.contains(after[i])
            &&& forall|i: int|
                0 <= i < pages.len() && (#[trigger] pages[i]).number != page.number
                    ==> after.contains(pages[i])
        }),
{
    let after = crate::stored_page::with_page(pages, page);
    law_write_replaces_only_its_page(pages, page, other);
    lemma_page_index(pages, page.number, 0);
    let place = match page_index_from(pages, page.number, 0) {
        Some(place) => place as int,
        None => pages.len() as int,
    };
    assert(after[place] == page);
    assert forall|i: int| 0 <= i < pages.len() && i != place implies #[trigger] after[i]
        == pages[i] by {}
    assert forall|i: int|
        0 <= i < after.len() && (#[trigger] after[i]).number == page.number implies after[i]
        == page by {
        if i != place {
            assert(after[place].number == after[i].number);
        }
    }
    assert forall|i: int|
        0 <= i < after.len() && (#[trigger] after[i]).number != page.number implies pages.contains(
        after[i],
    ) by {
        assert(pages[i] == after[i]);
    }
    assert forall|i: int|
        0 <= i < pages.len() && (#[trigger] pages[i]).number != page.number implies after.contains(
        pages[i],
    ) by {
        assert(after[i] == pages[i]);
    }
}

/// A finished write makes the planned page the only snapshot of its number, and leaves the
/// snapshots of all other pages as they are. The sequence moves on by one; a fault strikes
/// once the page is there.
pub proof fn law_finish_write<const N: usize>(
    store: &mut FilePageStore<N>,
    plan: PageWritePlan<N>,
    result: Result<(), FilePageStoreError>,
)
    requires
        old(store).inv(),
        call_ensures(FilePageStore::<N>::finish_write, (store, plan), result),
    ensures
        is_only_snapshot(final(store)@, plan.spec_page()),
        forall|i: int|
            0 <= i < final(store)@.pages.len() && (#[trigger] final(store)@.pages[i]).number
                != plan.spec_page().number ==> old(store)@.pages.contains(final(store)@.pages[i]),
        forall|i: int|
            0 <= i < old(store)@.pages.len() && (#[trigger] old(store)@.pages[i]).number
                != plan.spec_page().number ==> final(store)@.pages.contains(old(store)@.pages[i]),
        holds_page(old(store)@, plan.spec_page().number) ==> final(store)@.pages.len() == old(
            store,
        )@.pages.len(),
        !holds_page(old(store)@, plan.spec_page().number) ==> final(store)@.pages.len() == old(
            store,
        )@.pages.len() + 1,
        plan.spec_page().sequence == u64::MAX ==> final(store)@.next_sequence is None,
        plan.spec_page().sequence < u64::MAX ==> (final(store)@.next_sequence matches Some(next)
            && next == plan.spec_page().sequence + 1),
        final(store)@ == (StoreModel {
            pages: final(store)@.pages,
            next_sequence: final(store)@.next_sequence,
            armed_fault: final(store)@.armed_fault,
            ..old(store)@
        }),
        final(store).spec_lineage() == old(store).spec_lineage(),
        old(store)@.armed_fault == Some(PageStoreFaultPoint::AfterWrite) ==> {
            &&& final(store)@.armed_fault is None
            &&& result == Err::<(), _>(
                FilePageStoreError::InjectedFault(PageStoreFaultPoint::AfterWrite),
            )
        },
        old(store)@.armed_fault != Some(PageStoreFaultPoint::AfterWrite) ==> {
            &&& final(store)@.armed_fault == old(store)@.armed_fault
            &&& result == Ok::<_, FilePageStoreError>(())
        },
{
    old(store).law_numbers_are_distinct();
    lemma_written_is_current(old(store)@.pages, plan.spec_page(), 0);
    lemma_page_index(old(store)@.pages, plan.spec_page().number, 0);
    lemma_holds_page(old(store)@, plan.spec_page().number);
}

/// Whether `found` is a snapshot with this number, version and bytes, and requires this
/// position.
pub open spec fn is_snapshot<const N: usize>(
    found: FileStoredPage<N>,
    number: PageNumber,
    version: PageVersion,
    bytes: [u8; N],
    position: LogSequenceNumber,
) -> bool {
    &&& found@.number == number@
    &&& found@.version == version.value
    &&& found@.bytes == bytes@
    &&& found@.position == position.value
    &&& found.spec_lineage() == position.lineage
}

/// What is looked up is the only snapshot of the page, where the store holds one.
pub proof fn law_page_is_looked_up<const N: usize>(
    store: FilePageStore<N>,
    number: PageNumber,
    found: Option<&FileStoredPage<N>>,
)
    requires
        store.inv(),
        call_ensures(FilePageStore::<N>::page, (&store, number), found),
    ensures
        found is Some <==> holds_page(store@, number@),
        found matches Some(page) ==> {
            &&& page@.number == number@
            &&& is_only_snapshot(store@, page@)
            &&& page.spec_lineage() == store.spec_lineage()
        },
{
    store.law_numbers_are_distinct();
    lemma_holds_page(store@, number@);
    lemma_page_index(store@.pages, number@, 0);
    if let Some(place) = page_index_from(store@.pages, number@, 0) {
        let page = store@.pages[place as int];
        assert forall|i: int|
            0 <= i < store@.pages.len() && (#[trigger] store@.pages[i]).number
                == page.number implies store@.pages[i] == page by {
            if i < place {
                assert(store@.pages[i].number != store@.pages[place as int].number);
            } else if i > place {
                assert(store@.pages[place as int].number != store@.pages[i].number);
            }
        }
    }
}

proof fn lemma_written_page_is_looked_up<const N: usize>(
    before: FilePageStore<N>,
    after: FilePageStore<N>,
    plan: PageWritePlan<N>,
    number: PageNumber,
    found: Option<&FileStoredPage<N>>,
)
    requires
        before.inv(),
        after@ == crate::page_store::after_write(before@, plan.spec_page()),
        plan.spec_page().number == number@,
        call_ensures(FilePageStore::<N>::page, (&after, number), found),
    ensures
        found matches Some(page) && page@ == plan.spec_page() && page.spec_lineage()
            == after.spec_lineage(),
{
    before.law_numbers_are_distinct();
    law_write_replaces_only_its_page(before@.pages, plan.spec_page(), number@);
}

/// No store that is read from a file has used up its sequence down to zero.
proof fn lemma_store_sequence_is_not_zero(state: StoreScanModel, bytes: Seq<u8>, offset: nat)
    requires
        state.next_sequence != Some(0u64),
    ensures
        store_scan(state, bytes, offset) matches Ok(end) ==> end.next_sequence != Some(0u64),
    decreases bytes.len() - offset,
{
    if offset + 56 <= bytes.len() {
        if let Ok(frame) = decoded_store_frame(
            bytes.subrange(offset as int, offset as int + 56),
            offset as u64,
        ) {
            if let Ok(next) = store_step(state, frame, offset as u64) {
                lemma_store_sequence_is_not_zero(next, bytes, offset + 56);
            }
        }
    }
}

proof fn lemma_written_page_is_read_again<const N: usize>(
    bytes: Seq<u8>,
    store: FilePageStore<N>,
    plan: PageWritePlan<N>,
    number: PageNumber,
    version: PageVersion,
    content: [u8; N],
    position: LogSequenceNumber,
)
    requires
        store.inv(),
        store_holds(bytes, store@),
        store.plans_write(number, version, content, position, plan),
        number@ != 0,
        position.value != 0,
        bytes.len() + store_written(plan.spec_effects()).len() <= u64::MAX,
    ensures
        store_holds(
            bytes + store_written(plan.spec_effects()),
            crate::page_store::after_write(store@, plan.spec_page()),
        ),
{
    store.law_lineage();
    let header = read_store_header(bytes, store@.width as u64)->Ok_0;
    lemma_store_sequence_is_not_zero(
        StoreScanModel::initial(store@.width),
        bytes,
        header.length,
    );
    law_write_then_open(bytes, store@, plan.spec_page());
}

/// After a successful repair the store's snapshot of the target's page has the target's
/// version and bytes, and requires the position of the target's page, whether or not a
/// transaction committed the page. Reading the file again gives the same store.
pub proof fn law_repair_puts_the_target_into_the_store<const N: usize>(
    store: &mut FilePageStore<N>,
    planned: &mut FilePageStore<N>,
    target: RestartCheckpointPageRepairTarget<N>,
    permit: TransactionRestartCheckpointPageRepairWritePermit,
    comparison: Result<PageSourceComparison, PageSourceContradiction>,
    plan: PageWritePlan<N>,
    result: Result<(), FilePageStoreError>,
    found: Option<&FileStoredPage<N>>,
    bytes: Seq<u8>,
)
    requires
        old(store).inv(),
        call_ensures(
            FilePageStore::<N>::compare_and_replace_replay_page,
            (store, &target, permit, comparison),
            Ok::<_, FileRestartCheckpointPageRepairStoreError>(plan),
        ),
        *old(planned) == *final(store),
        old(planned).inv(),
        call_ensures(FilePageStore::<N>::finish_write, (planned, plan), result),
        call_ensures(FilePageStore::<N>::page, (&*final(planned), target.page_number), found),
    ensures
        found matches Some(page) && is_snapshot(
            *page,
            target.page_number,
            target.page_version,
            target.bytes,
            target.page_position,
        ),
        store_holds(bytes, old(store)@) && target.page_number@ != 0 && target.page_position.value
            != 0 && bytes.len() + store_written(plan.spec_effects()).len() <= u64::MAX
            ==> store_holds(bytes + store_written(plan.spec_effects()), final(planned)@),
{
    lemma_written_page_is_looked_up(
        *old(planned),
        *final(planned),
        plan,
        target.page_number,
        found,
    );
    if store_holds(bytes, old(store)@) && target.page_number@ != 0 && target.page_position.value
        != 0 && bytes.len() + store_written(plan.spec_effects()).len() <= u64::MAX {
        lemma_written_page_is_read_again(
            bytes,
            *old(store),
            plan,
            target.page_number,
            target.page_version,
            target.bytes,
            target.page_position,
        );
    }
}

/// After a successful recovery the store's snapshot of the target's page has the target's
/// version and bytes, and requires the position of the target's page, not that of its
/// commit. Reading the file again gives the same store.
pub proof fn law_recovery_puts_the_target_into_the_store<const N: usize>(
    store: &mut FilePageStore<N>,
    planned: &mut FilePageStore<N>,
    target: CommittedPageRecoveryTarget<N>,
    permit: CommittedTransactionPageRecoveryWritePermit,
    comparison: Result<PageSourceComparison, PageSourceContradiction>,
    plan: PageWritePlan<N>,
    result: Result<(), FilePageStoreError>,
    found: Option<&FileStoredPage<N>>,
    bytes: Seq<u8>,
)
    requires
        old(store).inv(),
        call_ensures(
            FilePageStore::<N>::compare_and_replace,
            (store, &target, permit, comparison),
            Ok::<_, FileCommittedPageRecoveryStoreError>(plan),
        ),
        *old(planned) == *final(store),
        old(planned).inv(),
        call_ensures(FilePageStore::<N>::finish_write, (planned, plan), result),
        call_ensures(FilePageStore::<N>::page, (&*final(planned), target.page_number), found),
    ensures
        found matches Some(page) && is_snapshot(
            *page,
            target.page_number,
            target.page_version,
            target.bytes,
            target.page_position,
        ),
        store_holds(bytes, old(store)@) && target.page_number@ != 0 && target.page_position.value
            != 0 && bytes.len() + store_written(plan.spec_effects()).len() <= u64::MAX
            ==> store_holds(bytes + store_written(plan.spec_effects()), final(planned)@),
{
    lemma_written_page_is_looked_up(
        *old(planned),
        *final(planned),
        plan,
        target.page_number,
        found,
    );
    if store_holds(bytes, old(store)@) && target.page_number@ != 0 && target.page_position.value
        != 0 && bytes.len() + store_written(plan.spec_effects()).len() <= u64::MAX {
        lemma_written_page_is_read_again(
            bytes,
            *old(store),
            plan,
            target.page_number,
            target.page_version,
            target.bytes,
            target.page_position,
        );
    }
}

/// After a dirty page was written the store's snapshot of it has the page's version and
/// bytes, and requires the position at which the page was logged. Reading the file again
/// gives the same store.
pub proof fn law_write_puts_the_page_into_the_store<const N: usize>(
    store: &mut FilePageStore<N>,
    planned: &mut FilePageStore<N>,
    page: DirtyPage<N>,
    permit: PageWritePermit,
    plan: PageWritePlan<N>,
    result: Result<(), FilePageStoreError>,
    found: Option<&FileStoredPage<N>>,
    bytes: Seq<u8>,
)
    requires
        old(store).inv(),
        call_ensures(
            FilePageStore::<N>::write_page,
            (store, &page, permit),
            Ok::<_, FilePageStoreError>(plan),
        ),
        *old(planned) == *final(store),
        old(planned).inv(),
        call_ensures(FilePageStore::<N>::finish_write, (planned, plan), result),
        call_ensures(FilePageStore::<N>::page, (&*final(planned), page.address.number), found),
    ensures
        found matches Some(stored) && is_snapshot(
            *stored,
            page.address.number,
            page.version,
            page.bytes,
            page.required_position,
        ),
        store_holds(bytes, old(store)@) && page.address.number@ != 0 && bytes.len()
            + store_written(plan.spec_effects()).len() <= u64::MAX ==> store_holds(
            bytes + store_written(plan.spec_effects()),
            final(planned)@,
        ),
{
    lemma_written_page_is_looked_up(
        *old(planned),
        *final(planned),
        plan,
        page.address.number,
        found,
    );
    if store_holds(bytes, old(store)@) && page.address.number@ != 0 && bytes.len()
        + store_written(plan.spec_effects()).len() <= u64::MAX {
        lemma_written_page_is_read_again(
            bytes,
            *old(store),
            plan,
            page.address.number,
            page.version,
            page.bytes,
            page.required_position,
        );
    }
}

/// Whether target and permit of a recovery name the same positions, all of them of the
/// store's lineage.
pub open spec fn permits_recovery<const N: usize>(
    store: FilePageStore<N>,
    target: CommittedPageRecoveryTarget<N>,
    permit: CommittedTransactionPageRecoveryWritePermit,
) -> bool {
    &&& target.page_position.lineage == store.spec_lineage()
    &&& target.commit_position.lineage == store.spec_lineage()
    &&& permit.page_position == target.page_position
    &&& permit.commit_position == target.commit_position
}

/// Whether an admission of a committed page was refused for what the error says.
pub open spec fn refuses_recovery<const N: usize>(
    store: FilePageStore<N>,
    target: CommittedPageRecoveryTarget<N>,
    permit: CommittedTransactionPageRecoveryWritePermit,
    error: FileCommittedPageRecoveryStoreError,
) -> bool {
    let lineage = store.spec_lineage();
    if store@.poisoned {
        error matches FileCommittedPageRecoveryStoreError::PageStore(error) && error
            is PoisonedWriter
    } else if target.page_position.lineage != lineage {
        error matches FileCommittedPageRecoveryStoreError::ForeignTargetPagePosition(position)
            && position == target.page_position
    } else if target.commit_position.lineage != lineage {
        error matches FileCommittedPageRecoveryStoreError::ForeignTargetCommitPosition(position)
            && position == target.commit_position
    } else if permit.page_position.lineage != lineage {
        error matches FileCommittedPageRecoveryStoreError::ForeignPermitPagePosition(position)
            && position == permit.page_position
    } else if permit.commit_position.lineage != lineage {
        error matches FileCommittedPageRecoveryStoreError::ForeignPermitCommitPosition(position)
            && position == permit.commit_position
    } else if permit.page_position.value != target.page_position.value {
        &&& error matches FileCommittedPageRecoveryStoreError::PermitPagePositionMismatch {
            expected,
            actual,
        }
        &&& expected == target.page_position && actual == permit.page_position
    } else {
        &&& error matches FileCommittedPageRecoveryStoreError::PermitCommitPositionMismatch {
            expected,
            actual,
        }
        &&& expected == target.commit_position && actual == permit.commit_position
        &&& expected.value != actual.value
    }
}

/// A committed page is admitted exactly where the writer is sound and its permit is for it.
pub proof fn law_admit_committed_page<const N: usize>(
    store: FilePageStore<N>,
    target: CommittedPageRecoveryTarget<N>,
    permit: CommittedTransactionPageRecoveryWritePermit,
    result: Result<(), FileCommittedPageRecoveryStoreError>,
)
    requires
        call_ensures(FilePageStore::<N>::admit_committed_page, (&store, &target, permit), result),
    ensures
        result is Ok <==> !store@.poisoned && permits_recovery(store, target, permit),
        result matches Err(error) ==> refuses_recovery(store, target, permit, error),
{
}

/// A committed page is planned exactly where it is admitted, the store still holds what the
/// page was computed from, and the store takes the group. The plan writes the target, and
/// requires of it the position of the target's page.
pub proof fn law_replace_committed_page<const N: usize>(
    store: &mut FilePageStore<N>,
    target: CommittedPageRecoveryTarget<N>,
    permit: CommittedTransactionPageRecoveryWritePermit,
    comparison: Result<PageSourceComparison, PageSourceContradiction>,
    has_room: bool,
    result: Result<PageWritePlan<N>, FileCommittedPageRecoveryStoreError>,
)
    requires
        call_ensures(
            FilePageStore::<N>::replace_committed_page,
            (store, &target, permit, comparison, has_room),
            result,
        ),
    ensures
        result is Ok <==> {
            &&& permits_recovery(*old(store), target, permit)
            &&& comparison matches Ok(PageSourceComparison::SourceMatches)
            &&& takes_group(old(store)@, target.page_number@, has_room)
        },
        result matches Ok(plan) ==> {
            &&& final(store)@ == old(store)@
            &&& writes_image(
                *old(store),
                plan,
                target.page_number,
                target.page_version,
                target.bytes,
                target.page_position,
            )
        },
        result matches Err(error) ==> match error {
            FileCommittedPageRecoveryStoreError::SourceNotMatched { actual } => {
                &&& comparison matches Ok(found)
                &&& actual == found && found != PageSourceComparison::SourceMatches
                &&& !old(store)@.poisoned && permits_recovery(*old(store), target, permit)
                &&& final(store)@ == old(store)@
            },
            FileCommittedPageRecoveryStoreError::SourceComparison(source) => {
                &&& comparison matches Err(found)
                &&& source == found
                &&& !old(store)@.poisoned && permits_recovery(*old(store), target, permit)
                &&& final(store)@ == old(store)@
            },
            FileCommittedPageRecoveryStoreError::PageStore(error) => refuses_group(
                old(store)@,
                final(store)@,
                target.page_number@,
                has_room,
                error,
            ) && if old(store)@.poisoned {
                error is PoisonedWriter
            } else {
                permits_recovery(*old(store), target, permit)
            },
            error => refuses_recovery(*old(store), target, permit, error) && final(store)@ == old(
                store,
            )@,
        },
{
    lemma_holds_page(old(store)@, target.page_number@);
}

/// Whether target and permit of a repair name the same positions, all of them of the store's
/// lineage.
pub open spec fn permits_repair<const N: usize>(
    store: FilePageStore<N>,
    target: RestartCheckpointPageRepairTarget<N>,
    permit: TransactionRestartCheckpointPageRepairWritePermit,
) -> bool {
    &&& target.page_position.lineage == store.spec_lineage()
    &&& target.commit_position matches Some(position) ==> position.lineage == store.spec_lineage()
    &&& permit.page_position == target.page_position
    &&& permit.commit_position == target.commit_position
}

/// Whether an admission of a replayed page was refused for what the error says.
pub open spec fn refuses_repair<const N: usize>(
    store: FilePageStore<N>,
    target: RestartCheckpointPageRepairTarget<N>,
    permit: TransactionRestartCheckpointPageRepairWritePermit,
    error: FileRestartCheckpointPageRepairStoreError,
) -> bool {
    let lineage = store.spec_lineage();
    if target.page_position.lineage != lineage {
        error matches FileRestartCheckpointPageRepairStoreError::ForeignTargetPagePosition(position)
            && position == target.page_position
    } else if target.commit_position is Some && target.commit_position->0.lineage != lineage {
        error matches FileRestartCheckpointPageRepairStoreError::ForeignTargetCommitPosition(
            position,
        ) && Some(position) == target.commit_position
    } else if permit.page_position.lineage != lineage {
        error matches FileRestartCheckpointPageRepairStoreError::ForeignPermitPagePosition(position)
            && position == permit.page_position
    } else if permit.commit_position is Some && permit.commit_position->0.lineage != lineage {
        error matches FileRestartCheckpointPageRepairStoreError::ForeignPermitCommitPosition(
            position,
        ) && Some(position) == permit.commit_position
    } else if permit.page_position.value != target.page_position.value {
        &&& error matches FileRestartCheckpointPageRepairStoreError::PermitPagePositionMismatch {
            expected,
            actual,
        }
        &&& expected == target.page_position && actual == permit.page_position
    } else {
        &&& error matches FileRestartCheckpointPageRepairStoreError::PermitCommitPositionMismatch {
            expected,
            actual,
        }
        &&& expected == target.commit_position && actual == permit.commit_position
        &&& expected != actual
    }
}

/// A replayed page is admitted exactly where its permit is for it.
pub proof fn law_admit_replay_page<const N: usize>(
    store: FilePageStore<N>,
    target: RestartCheckpointPageRepairTarget<N>,
    permit: TransactionRestartCheckpointPageRepairWritePermit,
    result: Result<(), FileRestartCheckpointPageRepairStoreError>,
)
    requires
        call_ensures(FilePageStore::<N>::admit_replay_page, (&store, &target, permit), result),
    ensures
        result is Ok <==> permits_repair(store, target, permit),
        result matches Err(error) ==> refuses_repair(store, target, permit, error),
{
}

/// A replayed page is planned exactly where it is admitted, the store still holds what the
/// page was computed from, and the store takes the group. The plan writes the target, and
/// requires of it the position of the target's page.
pub proof fn law_replace_replay_page<const N: usize>(
    store: &mut FilePageStore<N>,
    target: RestartCheckpointPageRepairTarget<N>,
    permit: TransactionRestartCheckpointPageRepairWritePermit,
    comparison: Result<PageSourceComparison, PageSourceContradiction>,
    has_room: bool,
    result: Result<PageWritePlan<N>, FileRestartCheckpointPageRepairStoreError>,
)
    requires
        call_ensures(
            FilePageStore::<N>::replace_replay_page,
            (store, &target, permit, comparison, has_room),
            result,
        ),
    ensures
        result is Ok <==> {
            &&& permits_repair(*old(store), target, permit)
            &&& comparison matches Ok(PageSourceComparison::SourceMatches)
            &&& takes_group(old(store)@, target.page_number@, has_room)
        },
        result matches Ok(plan) ==> {
            &&& final(store)@ == old(store)@
            &&& writes_image(
                *old(store),
                plan,
                target.page_number,
                target.page_version,
                target.bytes,
                target.page_position,
            )
        },
        result matches Err(error) ==> match error {
            FileRestartCheckpointPageRepairStoreError::SourceNotMatched { actual } => {
                &&& comparison matches Ok(found)
                &&& actual == found && found != PageSourceComparison::SourceMatches
                &&& permits_repair(*old(store), target, permit)
                &&& final(store)@ == old(store)@
            },
            FileRestartCheckpointPageRepairStoreError::SourceComparison(source) => {
                &&& comparison matches Err(found)
                &&& source == found
                &&& permits_repair(*old(store), target, permit)
                &&& final(store)@ == old(store)@
            },
            FileRestartCheckpointPageRepairStoreError::PageStore(error) => refuses_group(
                old(store)@,
                final(store)@,
                target.page_number@,
                has_room,
                error,
            ) && permits_repair(*old(store), target, permit) && (error is PoisonedWriter
                ==> old(store)@.next_sequence is Some && (has_room || holds_page(
                old(store)@,
                target.page_number@,
            ))),
            error => refuses_repair(*old(store), target, permit, error) && final(store)@ == old(
                store,
            )@,
        },
{
    lemma_holds_page(old(store)@, target.page_number@);
}

/// Where nothing is known of the room, want of it is the only further reason to refuse a
/// recovery or a repair, and no reason where the page is there already.
pub proof fn law_compare_and_replace<const N: usize>(
    store: &mut FilePageStore<N>,
    target: CommittedPageRecoveryTarget<N>,
    permit: CommittedTransactionPageRecoveryWritePermit,
    comparison: Result<PageSourceComparison, PageSourceContradiction>,
    result: Result<PageWritePlan<N>, FileCommittedPageRecoveryStoreError>,
)
    requires
        call_ensures(
            FilePageStore::<N>::compare_and_replace,
            (store, &target, permit, comparison),
            result,
        ),
    ensures
        permits_recovery(*old(store), target, permit) && (comparison matches Ok(
            PageSourceComparison::SourceMatches,
        )) && takes_group(old(store)@, target.page_number@, true) ==> result is Ok || !holds_page(
            old(store)@,
            target.page_number@,
        ) && (result matches Err(
            FileCommittedPageRecoveryStoreError::PageStore(
                FilePageStoreError::SnapshotCapacityExhausted,
            ),
        )),
        result is Ok ==> permits_recovery(*old(store), target, permit) && (comparison matches Ok(
            PageSourceComparison::SourceMatches,
        )) && takes_group(old(store)@, target.page_number@, true),
        final(store)@.pages == old(store)@.pages,
        final(store)@.next_sequence == old(store)@.next_sequence,
        final(store)@.poisoned == old(store)@.poisoned,
{
    lemma_holds_page(old(store)@, target.page_number@);
}

/// The same for a replayed page.
pub proof fn law_compare_and_replace_replay_page<const N: usize>(
    store: &mut FilePageStore<N>,
    target: RestartCheckpointPageRepairTarget<N>,
    permit: TransactionRestartCheckpointPageRepairWritePermit,
    comparison: Result<PageSourceComparison, PageSourceContradiction>,
    result: Result<PageWritePlan<N>, FileRestartCheckpointPageRepairStoreError>,
)
    requires
        call_ensures(
            FilePageStore::<N>::compare_and_replace_replay_page,
            (store, &target, permit, comparison),
            result,
        ),
    ensures
        permits_repair(*old(store), target, permit) && (comparison matches Ok(
            PageSourceComparison::SourceMatches,
        )) && takes_group(old(store)@, target.page_number@, true) ==> result is Ok || !holds_page(
            old(store)@,
            target.page_number@,
        ) && (result matches Err(
            FileRestartCheckpointPageRepairStoreError::PageStore(
                FilePageStoreError::SnapshotCapacityExhausted,
            ),
        )),
        result is Ok ==> permits_repair(*old(store), target, permit) && (comparison matches Ok(
            PageSourceComparison::SourceMatches,
        )) && takes_group(old(store)@, target.page_number@, true),
        final(store)@.pages == old(store)@.pages,
        final(store)@.next_sequence == old(store)@.next_sequence,
        final(store)@.poisoned == old(store)@.poisoned,
{
    lemma_holds_page(old(store)@, target.page_number@);
}

/// Whether an observation shows a snapshot as it is.
pub open spec fn shows_snapshot<const N: usize>(
    observation: StoredPageSnapshotObservation<N>,
    page: StoredPageModel,
    lineage: LogLineage,
) -> bool {
    &&& observation.page_number@ == page.number
    &&& observation.page_version.value == page.version
    &&& observation.bytes@ == page.bytes
    &&& observation.required_position.value == page.position
    &&& observation.required_position.lineage == lineage
}

/// What the store shows of a page is its only snapshot, where it holds one; nothing is shown
/// of a page that it does not hold, and nothing at all while the writer is poisoned.
pub proof fn law_observe_page<const N: usize>(
    store: FilePageStore<N>,
    number: PageNumber,
    result: Result<
        Option<StoredPageSnapshotObservation<N>>,
        FileCommittedPageRecoveryObservationError,
    >,
    place: int,
)
    requires
        store.inv(),
        call_ensures(FilePageStore::<N>::observe_page, (&store, number), result),
    ensures
        store@.poisoned ==> (result matches Err(
            FileCommittedPageRecoveryObservationError::PoisonedWriter,
        )),
        !store@.poisoned ==> (result matches Ok(shown) && (shown is Some <==> holds_page(
            store@,
            number@,
        ))),
        result matches Ok(Some(observation)) ==> (0 <= place < store@.pages.len()
            && store@.pages[place].number == number@ ==> shows_snapshot(
            observation,
            store@.pages[place],
            store.spec_lineage(),
        )),
{
    store.law_numbers_are_distinct();
    lemma_holds_page(store@, number@);
    lemma_page_index(store@.pages, number@, 0);
    if let Some(index) = page_index_from(store@.pages, number@, 0) {
        if 0 <= place < index {
            assert(store@.pages[place].number != store@.pages[index as int].number);
        } else if index < place < store@.pages.len() {
            assert(store@.pages[index as int].number != store@.pages[place].number);
        }
    }
}

/// Whether the list shows every page of the store, each once, in ascending order of the
/// numbers, and nothing else.
pub open spec fn shows_store<const N: usize>(
    observations: Seq<StoredPageSnapshotObservation<N>>,
    store: FilePageStore<N>,
) -> bool {
    &&& observations.len() == store@.pages.len()
    &&& forall|a: int, b: int|
        #![trigger observations[a], observations[b]]
        0 <= a < b < observations.len() ==> observations[a].page_number@
            < observations[b].page_number@
    &&& forall|i: int|
        0 <= i < store@.pages.len() ==> is_among(
            #[trigger] store@.pages[i],
            observations,
            store.spec_lineage(),
        )
}

/// Whether one of the observations shows the snapshot.
pub open spec fn is_among<const N: usize>(
    page: StoredPageModel,
    observations: Seq<StoredPageSnapshotObservation<N>>,
    lineage: LogLineage,
) -> bool {
    exists|j: int|
        0 <= j < observations.len() && shows_snapshot(#[trigger] observations[j], page, lineage)
}

/// The inventory of a store shows every page, and is refused for a poisoned writer and for
/// want of memory alone.
pub proof fn law_store_inventory<const N: usize>(
    store: FilePageStore<N>,
    has_room: bool,
    listed: Result<Vec<StoredPageSnapshotObservation<N>>, FilePageStoreInventoryError>,
    result: Result<Vec<StoredPageSnapshotObservation<N>>, FilePageStoreInventoryError>,
)
    requires
        store.inv(),
        call_ensures(FilePageStore::<N>::list_stored_pages, (&store, has_room), listed),
        call_ensures(FilePageStore::<N>::durable_page_store_inventory, (&store,), result),
    ensures
        listed is Ok <==> has_room && !store@.poisoned,
        listed matches Ok(observations) ==> shows_store(observations@, store),
        listed matches Err(error) ==> match error {
            FilePageStoreInventoryError::PoisonedWriter => store@.poisoned,
            FilePageStoreInventoryError::CapacityExhausted { page_count } => !store@.poisoned
                && !has_room && page_count == store@.pages.len(),
            _ => false,
        },
        store@.poisoned ==> (result matches Err(FilePageStoreInventoryError::PoisonedWriter)),
        !store@.poisoned ==> result is Ok || store@.pages.len() > 0 && (result matches Err(
            FilePageStoreInventoryError::CapacityExhausted { page_count },
        ) && page_count == store@.pages.len()),
        result matches Ok(observations) ==> shows_store(observations@, store),
{
    store.law_page_count();
    if let Ok(observations) = listed {
        lemma_shows_store(observations@, store);
    }
    if let Ok(observations) = result {
        lemma_shows_store(observations@, store);
    }
}

proof fn lemma_shows_store<const N: usize>(
    observations: Seq<StoredPageSnapshotObservation<N>>,
    store: FilePageStore<N>,
)
    requires
        is_store_inventory(observations, store@.pages, store.spec_lineage()),
    ensures
        shows_store(observations, store),
{
    assert forall|i: int| 0 <= i < store@.pages.len() implies is_among(
        #[trigger] store@.pages[i],
        observations,
        store.spec_lineage(),
    ) by {
        assert(is_shown(observations, store@.pages[i], store.spec_lineage()));
        let j = choose|j: int|
            0 <= j < observations.len() && shows_page(
                #[trigger] observations[j],
                store@.pages[i],
                store.spec_lineage(),
            );
        assert(shows_snapshot(observations[j], store@.pages[i], store.spec_lineage()));
    }
}

/// An effect that failed poisons the store and changes nothing else of it; what is reported
/// is the failed stage and its cause.
pub proof fn law_store_effect_failed<const N: usize>(
    store: &mut FilePageStore<N>,
    stage: PageStoreIoStage,
    source: std::io::Error,
    error: PageStoreIoError,
)
    requires
        call_ensures(FilePageStore::<N>::effect_failed, (store, stage, source), error),
    ensures
        final(store)@ == (StoreModel { poisoned: true, ..old(store)@ }),
        error.stage == stage && error.source == source,
{
}

/// A fault is armed where none is, and never takes the place of another.
pub proof fn law_store_arm_fault<const N: usize>(
    store: &mut FilePageStore<N>,
    fault: PageStoreFaultPoint,
    result: Result<(), PageStoreFaultAlreadyArmed>,
)
    requires
        call_ensures(FilePageStore::<N>::arm_fault, (store, fault), result),
    ensures
        result is Ok <==> old(store)@.armed_fault is None,
        result is Ok ==> final(store)@ == (StoreModel {
            armed_fault: Some(fault),
            ..old(store)@
        }),
        result matches Err(error) ==> {
            &&& final(store)@ == old(store)@
            &&& Some(error.armed) == old(store)@.armed_fault
            &&& error.requested == fault
        },
{
}


} // verus!
