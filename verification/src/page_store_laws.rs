//! Laws of the page store: what is read back of what was written.
use vstd::prelude::*;

use crate::bytes::{be_bytes, lemma_be_bytes_len};
use crate::database_identity::ChildIdentityModel;
use crate::format::{chunk_total, page_chunk};
use crate::identity::LogLineage;
use crate::log_laws::{lemma_partial_image, lemma_tail_length, lemma_whole_frames_length};
use crate::log_replay::{concat, lemma_concat_len, whole_frames};
use crate::page::{DirtyPage, PageWritePermit};
use crate::page_store::{
    after_write, group_refusal, recovery_refusal, write_refusal, CommittedPageRecoveryTarget,
    CommittedTransactionPageRecoveryWritePermit,
};
use crate::page_store_effect::{
    group_bytes, group_effects, group_frames, group_writes, store_data_frame, store_written,
};
use crate::page_store_error::{
    FileCommittedPageRecoveryStoreError, FilePageStoreError, PageSourceComparison,
    PageSourceContradiction, PageStoreFormatError,
};
use crate::page_store_frame::{
    decoded_store_frame, law_store_frame_round_trip, law_store_number_frame_round_trip,
    lemma_store_frame_len, PageStoreFrameKind, StoreFrameModel,
};
use crate::page_store_header::{
    law_store_header_round_trip, law_store_header_v2_round_trip, store_header_bytes,
    store_header_v2_bytes, PageStoreFormat,
};
use crate::page_store_scan::{
    opened_store, opened_store_state, read_store_header, repaired_store_len, store_scan,
    store_step, GroupModel, OpenedStoreModel, StoreHeaderModel, StoreModel, StoreScanModel,
};
use crate::stored_page::{
    current_page, law_write_replaces_only_its_page, lemma_page_index, numbers_distinct,
    StoredPageModel,
};

verus! {

/// The store without what only the running process knows of it.
pub open spec fn settled_store(store: StoreModel) -> StoreModel {
    StoreModel { armed_fault: None, poisoned: false, ..store }
}

/// Whether a machine can hold pages of `width` bytes.
pub open spec fn usable_width(width: nat) -> bool {
    0 < width <= usize::MAX - 7
}

/// Whether a file with these bytes is read, with nothing to be cut off, as `store`.
pub open spec fn store_holds(bytes: Seq<u8>, store: StoreModel) -> bool {
    &&& usable_width(store.width)
    &&& opened_store(bytes, store.width) == Ok::<OpenedStoreModel, PageStoreFormatError>(
        OpenedStoreModel { store: settled_store(store), repaired_len: None },
    )
}

/// Whether `page` may be written to `store`: it has the next sequence number, a
/// page number and a required position that are not zero, and the store's width.
pub open spec fn writable(store: StoreModel, page: StoredPageModel) -> bool {
    &&& store.next_sequence == Some(page.sequence)
    &&& page.sequence != 0
    &&& page.number != 0
    &&& page.position != 0
    &&& page.bytes.len() == store.width
}

/// One frame read at `offset`.
pub open spec fn read_store_frame(state: StoreScanModel, frame: Seq<u8>, offset: nat) -> Result<
    StoreScanModel,
    PageStoreFormatError,
> {
    match decoded_store_frame(frame, offset as u64) {
        Err(error) => Err(error),
        Ok(decoded) => store_step(state, decoded, offset as u64),
    }
}

/// The frames read in order, the first of them at `offset`.
pub open spec fn store_replay(state: StoreScanModel, frames: Seq<Seq<u8>>, offset: nat) -> Result<
    StoreScanModel,
    PageStoreFormatError,
>
    decreases frames.len(),
{
    if frames.len() == 0 {
        Ok(state)
    } else {
        match store_replay(state, frames.drop_last(), offset) {
            Err(error) => Err(error),
            Ok(middle) => read_store_frame(
                middle,
                frames.last(),
                offset + 56 * (frames.len() - 1) as nat,
            ),
        }
    }
}

/// Reading a file is replaying its frames.
proof fn lemma_store_scan_replay(
    state: StoreScanModel,
    bytes: Seq<u8>,
    offset: nat,
    frames: Seq<Seq<u8>>,
)
    requires
        whole_frames(frames),
        offset + 56 * frames.len() <= bytes.len(),
        bytes.subrange(offset as int, (offset + 56 * frames.len()) as int) == concat(frames),
    ensures
        store_scan(state, bytes, offset) == match store_replay(state, frames, offset) {
            Err(error) => Err(error),
            Ok(end) => store_scan(end, bytes, offset + 56 * frames.len()),
        },
    decreases frames.len(),
{
    if frames.len() > 0 {
        let shorter = frames.drop_last();
        let here = (offset + 56 * (frames.len() - 1)) as nat;
        let whole = concat(frames);
        let region = bytes.subrange(offset as int, (offset + 56 * frames.len()) as int);
        assert forall|i: int| 0 <= i < shorter.len() implies (#[trigger] shorter[i]).len() == 56 by {
            assert(shorter[i] == frames[i]);
        }
        assert(frames[frames.len() - 1].len() == 56);
        lemma_concat_len(shorter);
        assert(bytes.subrange(offset as int, here as int) =~= concat(shorter)) by {
            assert forall|i: int| 0 <= i < concat(shorter).len() implies bytes.subrange(
                offset as int,
                here as int,
            )[i] == concat(shorter)[i] by {
                assert(whole[i] == region[i]);
            }
        }
        lemma_store_scan_replay(state, bytes, offset, shorter);
        assert(bytes.subrange(here as int, here as int + 56) =~= frames.last()) by {
            assert forall|i: int| 0 <= i < 56 implies bytes.subrange(
                here as int,
                here as int + 56,
            )[i] == frames.last()[i] by {
                assert(whole[concat(shorter).len() + i] == region[concat(shorter).len() + i]);
            }
        }
    }
}

/// Where nothing but whole frames stands in a file, more bytes behind them do not
/// change what has been read.
proof fn lemma_store_scan_extend(
    state: StoreScanModel,
    bytes: Seq<u8>,
    more: Seq<u8>,
    offset: nat,
)
    requires
        offset <= bytes.len(),
        (bytes.len() - offset) % 56 == 0,
    ensures
        store_scan(state, bytes + more, offset) == match store_scan(state, bytes, offset) {
            Err(error) => Err(error),
            Ok(end) => store_scan(end, bytes + more, bytes.len()),
        },
    decreases bytes.len() - offset,
{
    if offset + 56 <= bytes.len() {
        let frame = bytes.subrange(offset as int, offset as int + 56);
        assert((bytes + more).subrange(offset as int, offset as int + 56) =~= frame);
        match decoded_store_frame(frame, offset as u64) {
            Err(_) => {},
            Ok(decoded) => {
                match store_step(state, decoded, offset as u64) {
                    Err(_) => {},
                    Ok(next) => {
                        lemma_store_scan_extend(next, bytes, more, offset + 56);
                    },
                }
            },
        }
    } else {
        assert(offset == bytes.len());
    }
}

proof fn lemma_store_header_length(bytes: Seq<u8>, width: u64, header: StoreHeaderModel)
    requires
        read_store_header(bytes, width) == Ok::<StoreHeaderModel, PageStoreFormatError>(header),
    ensures
        64 <= header.length <= bytes.len(),
        header.length <= 128,
{
    reveal(read_store_header);
}

/// A header is read alike in every file that begins with it.
proof fn lemma_store_header_prefix(
    bytes: Seq<u8>,
    other: Seq<u8>,
    width: u64,
    header: StoreHeaderModel,
)
    requires
        read_store_header(bytes, width) == Ok::<StoreHeaderModel, PageStoreFormatError>(header),
        header.length <= other.len(),
        other.take(header.length as int) == bytes.take(header.length as int),
    ensures
        read_store_header(other, width) == Ok::<StoreHeaderModel, PageStoreFormatError>(header),
{
    reveal(read_store_header);
    let length = header.length as int;
    assert forall|i: int| 0 <= i < length implies #[trigger] other[i] == bytes[i] by {
        assert(other.take(length)[i] == bytes.take(length)[i]);
    }
    assert(other.subrange(8, 10) =~= bytes.subrange(8, 10));
    assert(other.subrange(16, 32) =~= bytes.subrange(16, 32));
    assert(other.take(64) =~= bytes.take(64));
    if length == 128 {
        assert(other.take(128) =~= bytes.take(128));
        assert(other.subrange(64, 112) =~= bytes.subrange(64, 112));
    }
}

/// What a scan keeps: the width, and the page numbers distinct.
proof fn lemma_store_scan_keeps(state: StoreScanModel, bytes: Seq<u8>, offset: nat)
    requires
        store_scan(state, bytes, offset) is Ok,
        numbers_distinct(state.pages),
    ensures
        store_scan(state, bytes, offset)->Ok_0.width == state.width,
        numbers_distinct(store_scan(state, bytes, offset)->Ok_0.pages),
    decreases bytes.len() - offset,
{
    if offset + 56 <= bytes.len() {
        let frame = decoded_store_frame(
            bytes.subrange(offset as int, offset as int + 56),
            offset as u64,
        )->Ok_0;
        let next = store_step(state, frame, offset as u64)->Ok_0;
        match state.pending {
            Some(pending) => {
                let read = pending.bytes + frame.payload_c_bytes.take(
                    pending.next_len(state.width) as int,
                );
                law_write_replaces_only_its_page(state.pages, pending.completed(read), 0);
            },
            None => {},
        }
        lemma_store_scan_keeps(next, bytes, offset + 56);
    }
}

/// A file holds at most one current snapshot of each page.
pub proof fn law_opened_store_numbers_are_distinct(
    bytes: Seq<u8>,
    width: nat,
    model: OpenedStoreModel,
)
    requires
        opened_store(bytes, width) == Ok::<OpenedStoreModel, PageStoreFormatError>(model),
    ensures
        numbers_distinct(model.store.pages),
{
    let header = read_store_header(bytes, width as u64)->Ok_0;
    lemma_store_scan_keeps(StoreScanModel::initial(width), bytes, header.length);
}

/// What is known of a file that holds `store`.
proof fn lemma_store_holds(bytes: Seq<u8>, store: StoreModel) -> (result: (
    StoreHeaderModel,
    StoreScanModel,
))
    requires
        store_holds(bytes, store),
    ensures
        ({
            let (header, end) = result;
            &&& read_store_header(bytes, store.width as u64) == Ok::<
                StoreHeaderModel,
                PageStoreFormatError,
            >(header)
            &&& store_scan(StoreScanModel::initial(store.width), bytes, header.length) == Ok::<
                StoreScanModel,
                PageStoreFormatError,
            >(end)
            &&& settled_store(store) == opened_store_state(header, end)
            &&& header.length <= bytes.len()
            &&& (bytes.len() - header.length) % 56 == 0
            &&& end.pending is None
            &&& end.width == store.width
            &&& end.wf()
        }),
{
    let header = read_store_header(bytes, store.width as u64)->Ok_0;
    let start = StoreScanModel::initial(store.width);
    let end = store_scan(start, bytes, header.length)->Ok_0;
    lemma_store_header_length(bytes, store.width as u64, header);
    lemma_store_scan_keeps(start, bytes, header.length);
    (header, end)
}

/// The bytes of a group are its frames one after the other.
proof fn lemma_group_frames(page: StoredPageModel)
    ensures
        group_bytes(page) == concat(group_frames(page)),
        whole_frames(group_frames(page)),
        group_frames(page).len() == 2 + chunk_total(page.bytes.len()),
        group_bytes(page).len() == 56 * group_frames(page).len(),
{
    let frames = group_frames(page);
    let effects = group_effects(page);
    assert(effects.drop_last() =~= group_writes(frames));
    lemma_group_written(frames);
    assert forall|i: int| 0 <= i < frames.len() implies (#[trigger] frames[i]).len() == 56 by {
        if i < 2 {
            let payload_c = if i == 0 {
                page.version
            } else {
                0
            };
            lemma_be_bytes_len(payload_c as nat, 8);
            lemma_store_frame_len(
                if i == 0 {
                    PageStoreFrameKind::SnapshotHeader
                } else {
                    PageStoreFrameKind::RequiredPosition
                },
                page.sequence,
                if i == 0 {
                    page.number
                } else {
                    page.position
                },
                be_bytes(payload_c as nat, 8),
            );
        } else {
            let index = (i - 2) as nat;
            assert(frames[i] == store_data_frame(page.sequence, page.bytes, index));
            lemma_store_frame_len(
                PageStoreFrameKind::PageData,
                page.sequence,
                index as u64,
                page_chunk(page.bytes, index),
            );
        }
    }
    lemma_concat_len(frames);
}

proof fn lemma_group_written(frames: Seq<Seq<u8>>)
    ensures
        store_written(group_writes(frames)) == concat(frames),
    decreases frames.len(),
{
    if frames.len() > 0 {
        lemma_group_written(frames.drop_last());
        assert(group_writes(frames).drop_last() =~= group_writes(frames.drop_last()));
    }
}

/// The state in which the leading frames and `count` chunks of a page's group at
/// `offset` have been read.
pub open spec fn receiving_page(
    state: StoreScanModel,
    page: StoredPageModel,
    offset: nat,
    count: nat,
) -> StoreScanModel {
    StoreScanModel {
        pending: Some(
            GroupModel {
                header_offset: offset as u64,
                sequence: page.sequence,
                number: page.number,
                version: page.version,
                position: Some(page.position),
                bytes: page.bytes.take(8 * count as int),
            },
        ),
        ..state
    }
}

/// What has been read after the first `count` frames of a page's group at `offset`:
/// the page behind the last of them, and before it nothing but an unfinished group.
pub open spec fn page_replayed(
    state: StoreScanModel,
    page: StoredPageModel,
    offset: nat,
    count: nat,
) -> bool {
    let frames = group_frames(page);
    let result = store_replay(state, frames.take(count as int), offset);
    if count == 0 {
        result == Ok::<StoreScanModel, PageStoreFormatError>(state)
    } else if count == 1 {
        result == Ok::<StoreScanModel, PageStoreFormatError>(
            StoreScanModel {
                pending: Some(
                    GroupModel {
                        position: None,
                        ..receiving_page(state, page, offset, 0).pending->0
                    },
                ),
                ..state
            },
        )
    } else if count < frames.len() {
        result == Ok::<StoreScanModel, PageStoreFormatError>(
            receiving_page(state, page, offset, (count - 2) as nat),
        )
    } else {
        result == Ok::<StoreScanModel, PageStoreFormatError>(state.with_stored(page))
    }
}

/// Whether `page` may come next in a file that has been read up to `state`.
pub open spec fn acceptable_page(state: StoreScanModel, page: StoredPageModel) -> bool {
    &&& state.wf()
    &&& state.pending is None
    &&& state.next_sequence == Some(page.sequence)
    &&& page.sequence != 0
    &&& page.number != 0
    &&& page.position != 0
    &&& page.bytes.len() == state.width
}

/// Reading the frames of an acceptable page.
proof fn lemma_replay_page(state: StoreScanModel, page: StoredPageModel, offset: nat, count: nat)
    requires
        acceptable_page(state, page),
        count <= group_frames(page).len(),
        offset + 56 * group_frames(page).len() <= u64::MAX,
    ensures
        page_replayed(state, page, offset, count),
    decreases count,
{
    let frames = group_frames(page);
    lemma_group_frames(page);
    if count == 0 {
        assert(frames.take(0) =~= Seq::<Seq<u8>>::empty());
    } else {
        let before = (count - 1) as nat;
        let here = (offset + 56 * before) as nat;
        lemma_replay_page(state, page, offset, before);
        assert(frames.take(count as int).drop_last() =~= frames.take(before as int));
        assert(frames.take(count as int).last() == frames[before as int]);
        if before == 0 {
            law_store_number_frame_round_trip(
                PageStoreFrameKind::SnapshotHeader,
                page.sequence,
                page.number,
                page.version,
                here as u64,
            );
            assert(page.bytes.take(0) =~= Seq::<u8>::empty());
        } else if before == 1 {
            law_store_number_frame_round_trip(
                PageStoreFrameKind::RequiredPosition,
                page.sequence,
                page.position,
                0,
                here as u64,
            );
        } else {
            lemma_read_page_data(state, page, offset, (before - 2) as nat, here);
            assert(frames[before as int] == store_data_frame(
                page.sequence,
                page.bytes,
                (before - 2) as nat,
            ));
        }
    }
}

/// Reading one data frame of a page.
proof fn lemma_read_page_data(
    state: StoreScanModel,
    page: StoredPageModel,
    offset: nat,
    index: nat,
    here: nat,
)
    requires
        acceptable_page(state, page),
        index < chunk_total(page.bytes.len()),
        here <= u64::MAX,
    ensures
        read_store_frame(
            receiving_page(state, page, offset, index),
            store_data_frame(page.sequence, page.bytes, index),
            here,
        ) == Ok::<StoreScanModel, PageStoreFormatError>(
            if index + 1 < chunk_total(page.bytes.len()) {
                receiving_page(state, page, offset, index + 1)
            } else {
                state.with_stored(page)
            },
        ),
{
    let chunk = page_chunk(page.bytes, index);
    let group = receiving_page(state, page, offset, index).pending->0;
    law_store_frame_round_trip(
        PageStoreFrameKind::PageData,
        page.sequence,
        index as u64,
        chunk,
        here as u64,
    );
    assert(group.bytes.len() == 8 * index);
    assert(group.next_chunk() == index);
    let length = group.next_len(state.width);
    let read = group.bytes + chunk.take(length as int);
    if index + 1 < chunk_total(page.bytes.len()) {
        assert(read =~= page.bytes.take(8 * (index + 1) as int));
    } else {
        assert(read =~= page.bytes);
        assert(group.completed(read) =~= page);
    }
}

/// Reading a file that holds `store` and to which `frames` have been appended, with
/// `tail` behind them.
proof fn lemma_opened_store_extended(
    bytes: Seq<u8>,
    store: StoreModel,
    frames: Seq<Seq<u8>>,
    tail: Seq<u8>,
    header: StoreHeaderModel,
    end: StoreScanModel,
    last: StoreScanModel,
)
    requires
        store_holds(bytes, store),
        read_store_header(bytes, store.width as u64) == Ok::<
            StoreHeaderModel,
            PageStoreFormatError,
        >(header),
        store_scan(StoreScanModel::initial(store.width), bytes, header.length) == Ok::<
            StoreScanModel,
            PageStoreFormatError,
        >(end),
        whole_frames(frames),
        tail.len() < 56,
        store_replay(end, frames, bytes.len()) == Ok::<StoreScanModel, PageStoreFormatError>(last),
    ensures
        opened_store(bytes + concat(frames) + tail, store.width) == Ok::<
            OpenedStoreModel,
            PageStoreFormatError,
        >(
            OpenedStoreModel {
                store: opened_store_state(header, last),
                repaired_len: repaired_store_len(
                    header.length,
                    (bytes + concat(frames) + tail).len(),
                    last,
                ),
            },
        ),
{
    let more = concat(frames) + tail;
    let whole = bytes + concat(frames) + tail;
    let start = StoreScanModel::initial(store.width);
    let (known, _) = lemma_store_holds(bytes, store);
    assert(whole =~= bytes + more);
    assert(whole.take(header.length as int) =~= bytes.take(header.length as int));
    lemma_store_header_prefix(bytes, whole, store.width as u64, header);
    lemma_store_scan_extend(start, bytes, more, header.length);
    lemma_concat_len(frames);
    assert(whole.subrange(
        bytes.len() as int,
        (bytes.len() + 56 * frames.len()) as int,
    ) =~= concat(frames));
    lemma_store_scan_replay(end, whole, bytes.len(), frames);
}

/// Writing a page and opening the file again gives the store with the page in it.
pub proof fn law_write_then_open(bytes: Seq<u8>, store: StoreModel, page: StoredPageModel)
    requires
        store_holds(bytes, store),
        writable(store, page),
        bytes.len() + group_bytes(page).len() <= u64::MAX,
    ensures
        store_holds(bytes + group_bytes(page), after_write(store, page)),
{
    let (header, end) = lemma_store_holds(bytes, store);
    let frames = group_frames(page);
    lemma_group_frames(page);
    lemma_replay_page(end, page, bytes.len(), frames.len());
    assert(frames.take(frames.len() as int) =~= frames);
    let last = end.with_stored(page);
    lemma_opened_store_extended(bytes, store, frames, Seq::empty(), header, end, last);
    let whole = bytes + group_bytes(page);
    assert(bytes + concat(frames) + Seq::<u8>::empty() =~= whole);
    lemma_whole_frames_length(header.length, bytes.len(), frames.len());
    assert(settled_store(after_write(store, page)) =~= opened_store_state(header, last));
}

/// A page of which only a part has reached the file is cut off when the file is
/// opened: the store is the one before the write, and the file has to be cut to
/// where the write began.
pub proof fn law_partial_write_is_discarded(
    bytes: Seq<u8>,
    store: StoreModel,
    page: StoredPageModel,
    count: nat,
)
    requires
        store_holds(bytes, store),
        writable(store, page),
        bytes.len() + group_bytes(page).len() <= u64::MAX,
        0 < count < group_bytes(page).len(),
    ensures
        opened_store(bytes + group_bytes(page).take(count as int), store.width) == Ok::<
            OpenedStoreModel,
            PageStoreFormatError,
        >(
            OpenedStoreModel {
                store: settled_store(store),
                repaired_len: Some(bytes.len() as u64),
            },
        ),
{
    let (header, end) = lemma_store_holds(bytes, store);
    let frames = group_frames(page);
    lemma_group_frames(page);
    let whole_count = count / 56;
    let some = frames.take(whole_count as int);
    let tail = concat(frames).subrange(56 * whole_count as int, count as int);
    lemma_partial_image(frames, count);
    lemma_replay_page(end, page, bytes.len(), whole_count);
    let last = store_replay(end, some, bytes.len())->Ok_0;
    lemma_opened_store_extended(bytes, store, some, tail, header, end, last);
    assert(bytes + concat(some) + tail =~= bytes + (concat(some) + tail));
    lemma_tail_length(header.length, bytes.len(), count);
    assert(settled_store(store) =~= opened_store_state(header, last));
}

/// Fewer bytes than a frame behind the frames of a file do not count, whatever they
/// are: the store is the one without them, and they have to be cut off.
pub proof fn law_incomplete_store_frame_is_cut_off(
    bytes: Seq<u8>,
    store: StoreModel,
    tail: Seq<u8>,
)
    requires
        store_holds(bytes, store),
        0 < tail.len() < 56,
        bytes.len() + tail.len() <= u64::MAX,
    ensures
        opened_store(bytes + tail, store.width) == Ok::<OpenedStoreModel, PageStoreFormatError>(
            OpenedStoreModel {
                store: settled_store(store),
                repaired_len: Some(bytes.len() as u64),
            },
        ),
{
    let (header, end) = lemma_store_holds(bytes, store);
    let none = Seq::<Seq<u8>>::empty();
    lemma_opened_store_extended(bytes, store, none, tail, header, end, end);
    assert(bytes + concat(none) + tail =~= bytes + tail);
    lemma_tail_length(header.length, bytes.len(), tail.len());
}

/// The header of a new version 1 file is read as the empty store.
pub proof fn law_create_store_then_open(persistent_id: u128, width: nat)
    requires
        persistent_id != 0,
        usable_width(width),
    ensures
        store_holds(
            store_header_bytes(persistent_id, width as u64),
            StoreModel::created(PageStoreFormat::V1, persistent_id, None, width),
        ),
{
    let bytes = store_header_bytes(persistent_id, width as u64);
    reveal(read_store_header);
    law_store_header_round_trip(persistent_id, width as u64);
    assert(bytes.take(64) =~= bytes);
}

/// The header of a new version 2 file is read as the empty store of its database.
pub proof fn law_create_database_store_then_open(
    persistent_id: u128,
    width: nat,
    identity: ChildIdentityModel,
)
    requires
        persistent_id != 0,
        usable_width(width),
        identity.wf(),
    ensures
        store_holds(
            store_header_v2_bytes(persistent_id, width as u64, identity),
            StoreModel::created(PageStoreFormat::V2, persistent_id, Some(identity), width),
        ),
{
    let bytes = store_header_v2_bytes(persistent_id, width as u64, identity);
    reveal(read_store_header);
    law_store_header_v2_round_trip(persistent_id, width as u64, identity);
    assert(bytes.take(128) =~= bytes);
}

/// Whether `state` is what the first `offset` bytes of a file are read as, and
/// whether an unfinished group in it is all that the bytes from the group's header
/// on have added.
pub open spec fn store_reached(
    start: StoreScanModel,
    bytes: Seq<u8>,
    begin: nat,
    offset: nat,
    state: StoreScanModel,
) -> bool {
    &&& begin <= offset <= bytes.len()
    &&& (offset - begin) % 56 == 0
    &&& store_scan(start, bytes.take(offset as int), begin) == Ok::<
        StoreScanModel,
        PageStoreFormatError,
    >(state)
    &&& state.pending matches Some(pending) ==> {
        &&& begin <= pending.header_offset < offset
        &&& (pending.header_offset - begin) % 56 == 0
        &&& store_scan(start, bytes.take(pending.header_offset as int), begin) == Ok::<
            StoreScanModel,
            PageStoreFormatError,
        >(StoreScanModel { pending: None, ..state })
    }
}

proof fn lemma_store_reach_frame(
    start: StoreScanModel,
    bytes: Seq<u8>,
    begin: nat,
    offset: nat,
    state: StoreScanModel,
    frame: StoreFrameModel,
)
    requires
        store_reached(start, bytes, begin, offset, state),
        offset + 56 <= bytes.len() <= u64::MAX,
        decoded_store_frame(bytes.subrange(offset as int, offset as int + 56), offset as u64)
            == Ok::<StoreFrameModel, PageStoreFormatError>(frame),
        store_step(state, frame, offset as u64) is Ok,
    ensures
        store_reached(
            start,
            bytes,
            begin,
            offset + 56,
            store_step(state, frame, offset as u64)->Ok_0,
        ),
{
    let next = store_step(state, frame, offset as u64)->Ok_0;
    let here = bytes.take(offset as int);
    let more = bytes.subrange(offset as int, offset as int + 56);
    let there = bytes.take(offset as int + 56);
    assert(there =~= here + more);
    lemma_store_scan_extend(start, here, more, begin);
    assert(there.subrange(offset as int, offset as int + 56) =~= more);
    assert(store_scan(next, there, offset + 56) == Ok::<StoreScanModel, PageStoreFormatError>(
        next,
    ));
    if next.pending is Some {
        if state.pending is None {
            assert(StoreScanModel { pending: None, ..next } =~= state);
        } else {
            assert(StoreScanModel { pending: None, ..next } =~= StoreScanModel {
                pending: None,
                ..state
            });
        }
    }
}

proof fn lemma_store_reach_end(
    start: StoreScanModel,
    bytes: Seq<u8>,
    begin: nat,
    offset: nat,
    state: StoreScanModel,
)
    requires
        store_reached(start, bytes, begin, offset, state),
        bytes.len() <= u64::MAX,
        store_scan(state, bytes, offset) is Ok,
    ensures
        store_reached(
            start,
            bytes,
            begin,
            (begin + (bytes.len() - begin) / 56 * 56) as nat,
            store_scan(state, bytes, offset)->Ok_0,
        ),
    decreases bytes.len() - offset,
{
    if offset + 56 <= bytes.len() {
        let frame = decoded_store_frame(
            bytes.subrange(offset as int, offset as int + 56),
            offset as u64,
        )->Ok_0;
        let next = store_step(state, frame, offset as u64)->Ok_0;
        lemma_store_reach_frame(start, bytes, begin, offset, state, frame);
        lemma_store_reach_end(start, bytes, begin, offset + 56, next);
    } else {
        assert(offset == begin + (bytes.len() - begin) / 56 * 56);
    }
}

/// A file cut to the length that opening it asks for holds the store that opening
/// it gave: what is cut off is nothing but an unfinished frame or an unfinished
/// group.
pub proof fn law_repaired_store_file_holds_the_store(
    bytes: Seq<u8>,
    width: nat,
    model: OpenedStoreModel,
)
    requires
        usable_width(width),
        bytes.len() <= u64::MAX,
        opened_store(bytes, width) == Ok::<OpenedStoreModel, PageStoreFormatError>(model),
        model.repaired_len is Some,
    ensures
        64 <= model.repaired_len->0 <= bytes.len(),
        store_holds(bytes.take(model.repaired_len->0 as int), model.store),
{
    let header = read_store_header(bytes, width as u64)->Ok_0;
    let start = StoreScanModel::initial(width);
    let end = store_scan(start, bytes, header.length)->Ok_0;
    lemma_store_header_length(bytes, width as u64, header);
    lemma_store_scan_keeps(start, bytes, header.length);
    let header_only = bytes.take(header.length as int);
    assert(store_scan(start, header_only, header.length) == Ok::<
        StoreScanModel,
        PageStoreFormatError,
    >(start));
    lemma_store_reach_end(start, bytes, header.length, header.length, start);
    let cut = model.repaired_len->0 as nat;
    let kept = bytes.take(cut as int);
    let last = StoreScanModel { pending: None, ..end };
    assert(store_scan(start, kept, header.length) == Ok::<StoreScanModel, PageStoreFormatError>(
        last,
    )) by {
        if end.pending is None {
            assert(last =~= end);
        }
    }
    assert(kept.take(header.length as int) =~= bytes.take(header.length as int));
    lemma_store_header_prefix(bytes, kept, width as u64, header);
    assert(opened_store_state(header, last) =~= model.store);
    assert(settled_store(model.store) =~= model.store);
}

/// Whether every stored page is older than what is written next.
spec fn ordered(state: StoreScanModel) -> bool {
    &&& numbers_distinct(state.pages)
    &&& forall|i: int|
        0 <= i < state.pages.len() ==> (state.next_sequence matches Some(next) ==> (
        #[trigger] state.pages[i]).sequence < next)
    &&& state.pending matches Some(pending) ==> state.next_sequence == Some(pending.sequence)
}

/// Whether the page numbered `number` is in `later` as it is in `earlier`, or newer.
pub open spec fn kept_or_newer(
    earlier: Seq<StoredPageModel>,
    later: Seq<StoredPageModel>,
    number: u64,
) -> bool {
    current_page(earlier, number) matches Some(old_page) ==> {
        &&& current_page(later, number) matches Some(page)
        &&& page == old_page || page.sequence > old_page.sequence
    }
}

proof fn lemma_store_step_ordered(
    state: StoreScanModel,
    frame: StoreFrameModel,
    offset: u64,
    number: u64,
)
    requires
        ordered(state),
        store_step(state, frame, offset) is Ok,
    ensures
        ordered(store_step(state, frame, offset)->Ok_0),
        kept_or_newer(state.pages, store_step(state, frame, offset)->Ok_0.pages, number),
{
    let next = store_step(state, frame, offset)->Ok_0;
    lemma_page_index(state.pages, number, 0);
    if let Some(pending) = state.pending {
        let read = pending.bytes + frame.payload_c_bytes.take(
            pending.next_len(state.width) as int,
        );
        let page = pending.completed(read);
        law_write_replaces_only_its_page(state.pages, page, number);
        lemma_page_index(state.pages, page.number, 0);
        assert forall|i: int|
            0 <= i < next.pages.len() && next.next_sequence is Some implies (
        #[trigger] next.pages[i]).sequence < next.next_sequence->0 by {
            if i < state.pages.len() {
                assert(state.pages[i].sequence < state.next_sequence->0);
            }
        }
    }
}

proof fn lemma_store_scan_ordered(
    state: StoreScanModel,
    bytes: Seq<u8>,
    offset: nat,
    number: u64,
)
    requires
        ordered(state),
        store_scan(state, bytes, offset) is Ok,
    ensures
        ordered(store_scan(state, bytes, offset)->Ok_0),
        kept_or_newer(state.pages, store_scan(state, bytes, offset)->Ok_0.pages, number),
    decreases bytes.len() - offset,
{
    if offset + 56 <= bytes.len() {
        let frame = decoded_store_frame(
            bytes.subrange(offset as int, offset as int + 56),
            offset as u64,
        )->Ok_0;
        let next = store_step(state, frame, offset as u64)->Ok_0;
        lemma_store_step_ordered(state, frame, offset as u64, number);
        lemma_store_scan_ordered(next, bytes, offset + 56, number);
    }
}

/// Whatever is written behind what a file holds: where the file can still be opened,
/// every page is there as it was or in a newer snapshot.
pub proof fn law_later_bytes_keep_the_pages(
    bytes: Seq<u8>,
    store: StoreModel,
    more: Seq<u8>,
    model: OpenedStoreModel,
    number: u64,
)
    requires
        store_holds(bytes, store),
        opened_store(bytes + more, store.width) == Ok::<OpenedStoreModel, PageStoreFormatError>(
            model,
        ),
    ensures
        kept_or_newer(store.pages, model.store.pages, number),
        model.store.format == store.format,
        model.store.persistent_id == store.persistent_id,
        model.store.identity == store.identity,
{
    let (header, end) = lemma_store_holds(bytes, store);
    let start = StoreScanModel::initial(store.width);
    let whole = bytes + more;
    assert(whole.take(header.length as int) =~= bytes.take(header.length as int));
    lemma_store_header_prefix(bytes, whole, store.width as u64, header);
    lemma_store_scan_extend(start, bytes, more, header.length);
    lemma_store_scan_ordered(start, bytes, header.length, number);
    lemma_store_scan_ordered(end, whole, bytes.len(), number);
}

/// A store whose file has become uncertain refuses every page, until it is opened
/// again.
pub proof fn law_poisoned_store_refuses<const N: usize>(
    store: StoreModel,
    lineage: LogLineage,
    page: DirtyPage<N>,
    permit: PageWritePermit,
    has_room: bool,
    target: CommittedPageRecoveryTarget<N>,
    recovery_permit: CommittedTransactionPageRecoveryWritePermit,
    comparison: Result<PageSourceComparison, PageSourceContradiction>,
    number: u64,
)
    requires
        store.poisoned,
    ensures
        write_refusal(store, lineage, page, permit, has_room) == Some(
            FilePageStoreError::PoisonedWriter,
        ),
        recovery_refusal(store, lineage, target, recovery_permit, comparison) == Some(
            FileCommittedPageRecoveryStoreError::PageStore(FilePageStoreError::PoisonedWriter),
        ),
        group_refusal(store, number, has_room) is Some,
{
}

} // verus!
