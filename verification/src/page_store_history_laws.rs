//! The law of a page store's whole history: what is read back after any number of
//! operations.
use vstd::prelude::*;

use crate::page_store::{after_store_refusal, after_write, group_refusal};
use crate::page_store_effect::group_bytes;
use crate::page_store_error::{PageStoreFaultPoint, PageStoreFormatError};
use crate::page_store_header::{store_header_bytes, PageStoreFormat};
use crate::page_store_laws::{
    law_create_store_then_open, law_write_then_open, settled_store, store_holds, usable_width,
    writable,
};
use crate::page_store_scan::{opened_store, OpenedStoreModel, StoreModel};
use crate::stored_page::StoredPageModel;

verus! {

/// One operation on a store.
pub enum StoreOperation {
    ArmFault(PageStoreFaultPoint),
    /// Writing a page, as a dirty page, a recovered one or a replayed one.
    Write(StoredPageModel),
}

/// What an operation makes of the store, and what it writes behind its file, where every
/// write succeeds.
pub open spec fn store_operated(store: StoreModel, operation: StoreOperation) -> (
    StoreModel,
    Seq<u8>,
) {
    match operation {
        StoreOperation::ArmFault(fault) => if store.armed_fault is Some {
            (store, Seq::empty())
        } else {
            (StoreModel { armed_fault: Some(fault), ..store }, Seq::empty())
        },
        StoreOperation::Write(page) => match group_refusal(store, page.number, true) {
            Some(error) => (after_store_refusal(store, error), Seq::empty()),
            None => (after_write(store, page), group_bytes(page)),
        },
    }
}

/// What operations make of the store, one after the other, and all that they write.
pub open spec fn store_history(store: StoreModel, operations: Seq<StoreOperation>) -> (
    StoreModel,
    Seq<u8>,
)
    decreases operations.len(),
{
    if operations.len() == 0 {
        (store, Seq::empty())
    } else {
        let (middle, before) = store_history(store, operations.drop_last());
        let (end, more) = store_operated(middle, operations.last());
        (end, before + more)
    }
}

/// Whether every write of a history is of a page that may be written: it has the next
/// sequence number, a page number and a required position that are not zero, and the
/// store's width.
pub open spec fn store_orderly(store: StoreModel, operations: Seq<StoreOperation>) -> bool {
    forall|i: int|
        0 <= i < operations.len() ==> (#[trigger] operations[i] matches StoreOperation::Write(page)
            ==> ({
            let before = store_history(store, operations.take(i)).0;
            group_refusal(before, page.number, true) is None ==> writable(before, page)
        }))
}

/// One operation leaves a file that holds the store.
proof fn lemma_store_operated_then_open(
    bytes: Seq<u8>,
    store: StoreModel,
    operation: StoreOperation,
)
    requires
        store_holds(bytes, store),
        !store.poisoned,
        operation matches StoreOperation::Write(page) ==> (group_refusal(
            store,
            page.number,
            true,
        ) is None ==> writable(store, page)),
        bytes.len() + store_operated(store, operation).1.len() <= u64::MAX,
    ensures
        store_holds(
            bytes + store_operated(store, operation).1,
            store_operated(store, operation).0,
        ),
        !store_operated(store, operation).0.poisoned,
{
    let (after, more) = store_operated(store, operation);
    if more.len() == 0 {
        assert(bytes + more =~= bytes);
    }
    match operation {
        StoreOperation::ArmFault(_) => {
            assert(settled_store(after) =~= settled_store(store));
        },
        StoreOperation::Write(page) => {
            if group_refusal(store, page.number, true) is None {
                law_write_then_open(bytes, store, page);
            } else {
                assert(settled_store(after) =~= settled_store(store));
            }
        },
    }
}

/// Whatever orderly operations follow on a store that a file holds: the file holds the
/// store after them.
pub proof fn law_further_store_history_then_open(
    bytes: Seq<u8>,
    store: StoreModel,
    operations: Seq<StoreOperation>,
)
    requires
        store_holds(bytes, store),
        !store.poisoned,
        store_orderly(store, operations),
        bytes.len() + store_history(store, operations).1.len() <= u64::MAX,
    ensures
        store_holds(
            bytes + store_history(store, operations).1,
            store_history(store, operations).0,
        ),
        !store_history(store, operations).0.poisoned,
    decreases operations.len(),
{
    if operations.len() == 0 {
        assert(bytes + store_history(store, operations).1 =~= bytes);
    } else {
        let shorter = operations.drop_last();
        let last = operations.last();
        let (middle, before) = store_history(store, shorter);
        assert(store_orderly(store, shorter)) by {
            assert forall|i: int| 0 <= i < shorter.len() implies (
            #[trigger] shorter[i] matches StoreOperation::Write(page) ==> ({
                let earlier = store_history(store, shorter.take(i)).0;
                group_refusal(earlier, page.number, true) is None ==> writable(earlier, page)
            })) by {
                assert(shorter[i] == operations[i]);
                assert(shorter.take(i) =~= operations.take(i));
            }
        }
        law_further_store_history_then_open(bytes, store, shorter);
        assert(operations.take(operations.len() - 1) =~= shorter);
        assert(operations[operations.len() - 1] == last);
        let more = store_operated(middle, last).1;
        assert(bytes + store_history(store, operations).1 =~= bytes + before + more);
        lemma_store_operated_then_open(bytes + before, middle, last);
    }
}

/// Whatever orderly operations follow the creation of a store, with faults armed or not:
/// opening its file again gives back all that the store knows, its pages, the next
/// sequence number and its identity; and nothing has to be cut off the file.
pub proof fn law_store_history_then_open(
    persistent_id: u128,
    width: nat,
    operations: Seq<StoreOperation>,
)
    requires
        persistent_id != 0,
        usable_width(width),
        store_orderly(
            StoreModel::created(PageStoreFormat::V1, persistent_id, None, width),
            operations,
        ),
        store_header_bytes(persistent_id, width as u64).len() + store_history(
            StoreModel::created(PageStoreFormat::V1, persistent_id, None, width),
            operations,
        ).1.len() <= u64::MAX,
    ensures
        ({
            let header = store_header_bytes(persistent_id, width as u64);
            let (store, more) = store_history(
                StoreModel::created(PageStoreFormat::V1, persistent_id, None, width),
                operations,
            );
            &&& !store.poisoned
            &&& store.persistent_id == persistent_id
            &&& opened_store(header + more, width) == Ok::<_, PageStoreFormatError>(
                OpenedStoreModel {
                    store: StoreModel { armed_fault: None, ..store },
                    repaired_len: None,
                },
            )
        }),
{
    let created = StoreModel::created(PageStoreFormat::V1, persistent_id, None, width);
    let header = store_header_bytes(persistent_id, width as u64);
    law_create_store_then_open(persistent_id, width);
    law_further_store_history_then_open(header, created, operations);
    lemma_store_history_keeps_identity(created, operations);
    let store = store_history(created, operations).0;
    assert(settled_store(store) =~= StoreModel { armed_fault: None, ..store });
}

proof fn lemma_store_history_keeps_identity(store: StoreModel, operations: Seq<StoreOperation>)
    ensures
        store_history(store, operations).0.persistent_id == store.persistent_id,
        store_history(store, operations).0.width == store.width,
    decreases operations.len(),
{
    if operations.len() > 0 {
        lemma_store_history_keeps_identity(store, operations.drop_last());
    }
}

} // verus!
