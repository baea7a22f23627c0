//! The writes and the synchronization that a page write asks of the page store's
//! file.
use vstd::prelude::*;

use crate::format::{chunk_total, copy_chunk, page_chunk};
use crate::page_store_error::PageStoreIoStage;
use crate::page_store_frame::{
    build_page_store_frame, build_page_store_frame_with_payload2_bytes, store_frame_bytes,
    store_number_frame_bytes, PageStoreFrameKind,
};
use crate::stored_page::{FileStoredPage, StoredPageModel};

verus! {

/// One thing to be done to the page store's file.
#[derive(Debug, PartialEq, Eq)]
pub enum StoreEffect {
    /// Append `bytes`.
    Write { stage: PageStoreIoStage, bytes: Vec<u8> },
    /// Make everything written so far durable.
    Sync { stage: PageStoreIoStage },
}

/// Mathematical content of one effect.
#[verifier::ext_equal]
pub enum StoreEffectModel {
    Write { stage: PageStoreIoStage, bytes: Seq<u8> },
    Sync { stage: PageStoreIoStage },
}

impl StoreEffect {
    pub open spec fn view(&self) -> StoreEffectModel {
        match self {
            StoreEffect::Write { stage, bytes } => StoreEffectModel::Write {
                stage: *stage,
                bytes: bytes@,
            },
            StoreEffect::Sync { stage } => StoreEffectModel::Sync { stage: *stage },
        }
    }

    /// The stage that a failure of this effect is reported under.
    pub fn stage(&self) -> (stage: PageStoreIoStage)
        ensures
            stage == match self@ {
                StoreEffectModel::Write { stage, .. } => stage,
                StoreEffectModel::Sync { stage } => stage,
            },
    {
        match self {
            StoreEffect::Write { stage, .. } => *stage,
            StoreEffect::Sync { stage } => *stage,
        }
    }
}

pub open spec fn store_effect_models(effects: Seq<StoreEffect>) -> Seq<StoreEffectModel> {
    Seq::new(effects.len(), |i: int| effects[i]@)
}

/// The bytes that the effects append to the file, in order.
pub open spec fn store_written(effects: Seq<StoreEffectModel>) -> Seq<u8>
    decreases effects.len(),
{
    if effects.len() == 0 {
        Seq::empty()
    } else {
        let before = store_written(effects.drop_last());
        match effects.last() {
            StoreEffectModel::Write { bytes, .. } => before + bytes,
            StoreEffectModel::Sync { .. } => before,
        }
    }
}

/// The data frame of chunk `index` of a page.
pub open spec fn store_data_frame(sequence: u64, page: Seq<u8>, index: nat) -> Seq<u8> {
    store_frame_bytes(
        PageStoreFrameKind::PageData,
        sequence,
        index as u64,
        page_chunk(page, index),
    )
}

/// The two frames that stand before the data of a page.
pub open spec fn leading_store_frames(page: StoredPageModel) -> Seq<Seq<u8>> {
    seq![
        store_number_frame_bytes(
            PageStoreFrameKind::SnapshotHeader,
            page.sequence,
            page.number,
            page.version,
        ),
        store_number_frame_bytes(
            PageStoreFrameKind::RequiredPosition,
            page.sequence,
            page.position,
            0,
        ),
    ]
}

/// The data frames of the first `count` chunks of a page.
pub open spec fn store_data_frames(sequence: u64, page: Seq<u8>, count: nat) -> Seq<Seq<u8>> {
    Seq::new(count, |i: int| store_data_frame(sequence, page, i as nat))
}

/// The frames of a page's group.
pub open spec fn group_frames(page: StoredPageModel) -> Seq<Seq<u8>> {
    leading_store_frames(page) + store_data_frames(
        page.sequence,
        page.bytes,
        chunk_total(page.bytes.len()),
    )
}

/// The stage under which the write of a group's frame is reported.
pub open spec fn group_stage(index: int) -> PageStoreIoStage {
    if index == 0 {
        PageStoreIoStage::WriteSnapshotHeaderFrame
    } else if index == 1 {
        PageStoreIoStage::WriteRequiredPositionFrame
    } else {
        PageStoreIoStage::WritePageDataFrame
    }
}

/// The writes of the frames of a group.
pub open spec fn group_writes(frames: Seq<Seq<u8>>) -> Seq<StoreEffectModel> {
    Seq::new(
        frames.len(),
        |i: int| StoreEffectModel::Write { stage: group_stage(i), bytes: frames[i] },
    )
}

/// Everything that writing a page does to the file.
pub open spec fn group_effects(page: StoredPageModel) -> Seq<StoreEffectModel> {
    group_writes(group_frames(page)).push(
        StoreEffectModel::Sync { stage: PageStoreIoStage::SyncPageGroup },
    )
}

/// The bytes of a page's group in the file.
pub open spec fn group_bytes(page: StoredPageModel) -> Seq<u8> {
    store_written(group_effects(page))
}

/// Builds the effects that write a page.
pub fn build_group_effects<const N: usize>(page: &FileStoredPage<N>) -> (effects: Vec<StoreEffect>)
    requires
        N <= usize::MAX - 7,
    ensures
        store_effect_models(effects@) == group_effects(page@),
{
    let sequence: u64 = page.store_sequence();
    let bytes: &[u8; N] = page.bytes();
    let total: usize = (N + 7) / 8;
    let ghost frames = group_frames(page@);
    let mut effects: Vec<StoreEffect> = Vec::new();
    effects.push(
        StoreEffect::Write {
            stage: PageStoreIoStage::WriteSnapshotHeaderFrame,
            bytes: build_page_store_frame(
                PageStoreFrameKind::SnapshotHeader,
                sequence,
                page.page_number().get(),
                page.page_version().get(),
            ),
        },
    );
    effects.push(
        StoreEffect::Write {
            stage: PageStoreIoStage::WriteRequiredPositionFrame,
            bytes: build_page_store_frame(
                PageStoreFrameKind::RequiredPosition,
                sequence,
                page.required_position().get(),
                0,
            ),
        },
    );
    proof {
        page.lemma_width();
        assert(store_effect_models(effects@) =~= group_writes(frames).take(2));
    }
    let mut index: usize = 0;
    while index < total
        invariant
            index <= total == chunk_total(N as nat),
            N <= usize::MAX - 7,
            sequence == page@.sequence,
            bytes@ == page@.bytes,
            bytes@.len() == N,
            frames == group_frames(page@),
            frames.len() == 2 + total,
            store_effect_models(effects@) == group_writes(frames).take(2 + index),
        decreases total - index,
    {
        let chunk: [u8; 8] = copy_chunk(bytes, index);
        let frame: Vec<u8> = build_page_store_frame_with_payload2_bytes(
            PageStoreFrameKind::PageData,
            sequence,
            index as u64,
            &chunk,
        );
        let ghost earlier = effects@;
        effects.push(StoreEffect::Write { stage: PageStoreIoStage::WritePageDataFrame, bytes: frame });
        proof {
            assert(frames[2 + index] == store_data_frame(sequence, page@.bytes, index as nat));
            assert(store_effect_models(effects@) =~= store_effect_models(earlier).push(
                group_writes(frames)[2 + index],
            ));
            assert(store_effect_models(effects@) =~= group_writes(frames).take(2 + index + 1));
        }
        index = index + 1;
    }
    let ghost earlier = effects@;
    effects.push(StoreEffect::Sync { stage: PageStoreIoStage::SyncPageGroup });
    proof {
        assert(group_writes(frames).take(2 + total) =~= group_writes(frames));
        assert(store_effect_models(effects@) =~= group_effects(page@));
    }
    effects
}

} // verus!
