//! The writes and synchronizations that a log operation asks of its file.
use vstd::prelude::*;

use crate::format::{chunk_total, copy_chunk, page_chunk, LogFormat};
use crate::log_error::FileIoStage;
use crate::log_frame::{
    build_frame, build_frame_with_payload2_bytes, frame_bytes, number_frame_bytes, FrameKind,
};
use crate::log_record::{
    FileLogRecord, FileLogRecordKind, FilePageWriteRecord, RecordBody, RecordModel,
};

verus! {

/// One thing to be done to the log file.
#[derive(Debug, PartialEq, Eq)]
pub enum FileEffect {
    /// Append `bytes`.
    Write { stage: FileIoStage, bytes: Vec<u8> },
    /// Make everything written so far durable.
    Sync { stage: FileIoStage },
}

/// Mathematical content of one effect.
#[verifier::ext_equal]
pub enum EffectModel {
    Write { stage: FileIoStage, bytes: Seq<u8> },
    Sync { stage: FileIoStage },
}

impl FileEffect {
    pub open spec fn view(&self) -> EffectModel {
        match self {
            FileEffect::Write { stage, bytes } => EffectModel::Write {
                stage: *stage,
                bytes: bytes@,
            },
            FileEffect::Sync { stage } => EffectModel::Sync { stage: *stage },
        }
    }

    /// The stage that a failure of this effect is reported under.
    pub fn stage(&self) -> (stage: FileIoStage)
        ensures
            stage == effect_stage(self@),
    {
        match self {
            FileEffect::Write { stage, .. } => *stage,
            FileEffect::Sync { stage } => *stage,
        }
    }
}

pub open spec fn effect_stage(effect: EffectModel) -> FileIoStage {
    match effect {
        EffectModel::Write { stage, .. } => stage,
        EffectModel::Sync { stage } => stage,
    }
}

pub open spec fn effect_models(effects: Seq<FileEffect>) -> Seq<EffectModel> {
    Seq::new(effects.len(), |i: int| effects[i]@)
}

/// The bytes that the effects append to the file, in order.
pub open spec fn written(effects: Seq<EffectModel>) -> Seq<u8>
    decreases effects.len(),
{
    if effects.len() == 0 {
        Seq::empty()
    } else {
        let before = written(effects.drop_last());
        match effects.last() {
            EffectModel::Write { bytes, .. } => before + bytes,
            EffectModel::Sync { .. } => before,
        }
    }
}

/// The data frame of chunk `index` of a page.
pub open spec fn page_data_frame(
    format: LogFormat,
    position: u64,
    page: Seq<u8>,
    index: nat,
) -> Seq<u8> {
    frame_bytes(format, FrameKind::PageData, position, index as u64, page_chunk(page, index))
}

/// The data frames of the first `count` chunks of a page.
pub open spec fn page_data_frames(
    format: LogFormat,
    position: u64,
    page: Seq<u8>,
    count: nat,
) -> Seq<Seq<u8>>
    decreases count,
{
    if count == 0 {
        Seq::empty()
    } else {
        page_data_frames(format, position, page, (count - 1) as nat).push(
            page_data_frame(format, position, page, (count - 1) as nat),
        )
    }
}

/// The frames that stand before the data of a record, each with its stage.
pub open spec fn leading_frames(format: LogFormat, record: RecordModel) -> Seq<EffectModel> {
    match record.body {
        RecordBody::Commit { epoch, sequence } => seq![
            EffectModel::Write {
                stage: FileIoStage::WriteCommitFrame,
                bytes: number_frame_bytes(
                    format,
                    FrameKind::CommitRecord,
                    record.position,
                    epoch,
                    sequence,
                ),
            },
        ],
        RecordBody::Page { page } => seq![
            EffectModel::Write {
                stage: FileIoStage::WritePageHeaderFrame,
                bytes: number_frame_bytes(
                    format,
                    FrameKind::PageHeader,
                    record.position,
                    page.number,
                    page.version,
                ),
            },
        ],
        RecordBody::OwnedPage { epoch, sequence, page } => seq![
            EffectModel::Write {
                stage: FileIoStage::WriteTransactionPageHeaderFrame,
                bytes: number_frame_bytes(
                    format,
                    FrameKind::TransactionPageHeader,
                    record.position,
                    page.number,
                    page.version,
                ),
            },
            EffectModel::Write {
                stage: FileIoStage::WriteTransactionPageOwnerFrame,
                bytes: number_frame_bytes(
                    format,
                    FrameKind::TransactionPageOwner,
                    record.position,
                    epoch,
                    sequence,
                ),
            },
        ],
    }
}

/// The page bytes of a record, or nothing.
pub open spec fn record_data(record: RecordModel) -> Seq<u8> {
    match record.body {
        RecordBody::Commit { .. } => Seq::empty(),
        RecordBody::Page { page } => page.bytes,
        RecordBody::OwnedPage { page, .. } => page.bytes,
    }
}

/// The writes of data frames.
pub open spec fn data_writes(frames: Seq<Seq<u8>>) -> Seq<EffectModel> {
    Seq::new(
        frames.len(),
        |i: int| EffectModel::Write { stage: FileIoStage::WritePageDataFrame, bytes: frames[i] },
    )
}

/// Everything that appending a record writes.
pub open spec fn record_effects(format: LogFormat, record: RecordModel) -> Seq<EffectModel> {
    let data = record_data(record);
    leading_frames(format, record) + data_writes(
        page_data_frames(format, record.position, data, chunk_total(data.len())),
    )
}

/// The frames that a list of writes consists of.
pub open spec fn effect_frames(effects: Seq<EffectModel>) -> Seq<Seq<u8>> {
    Seq::new(effects.len(), |i: int| effects[i]->Write_bytes)
}

/// The frames of a record.
pub open spec fn record_frames(format: LogFormat, record: RecordModel) -> Seq<Seq<u8>> {
    effect_frames(record_effects(format, record))
}

/// The bytes of a record in the file.
pub open spec fn record_bytes(format: LogFormat, record: RecordModel) -> Seq<u8> {
    written(record_effects(format, record))
}

/// Appending a record does nothing but write.
pub proof fn lemma_record_effects_write(format: LogFormat, record: RecordModel)
    ensures
        forall|i: int|
            0 <= i < record_effects(format, record).len() ==> #[trigger] record_effects(
                format,
                record,
            )[i] is Write,
{
}

pub proof fn lemma_data_frame_at(
    format: LogFormat,
    position: u64,
    page: Seq<u8>,
    count: nat,
    index: nat,
)
    requires
        index < count,
    ensures
        page_data_frames(format, position, page, count).len() == count,
        page_data_frames(format, position, page, count)[index as int] == page_data_frame(
            format,
            position,
            page,
            index,
        ),
    decreases count,
{
    lemma_data_frames_len(format, position, page, (count - 1) as nat);
    if index < count - 1 {
        lemma_data_frame_at(format, position, page, (count - 1) as nat, index);
    }
}

pub proof fn lemma_data_frames_len(format: LogFormat, position: u64, page: Seq<u8>, count: nat)
    ensures
        page_data_frames(format, position, page, count).len() == count,
    decreases count,
{
    if count > 0 {
        lemma_data_frames_len(format, position, page, (count - 1) as nat);
    }
}

/// Builds the writes that append a record.
pub fn build_record_effects<const N: usize>(format: LogFormat, record: &FileLogRecord<N>) -> (effects:
    Vec<FileEffect>)
    requires
        N <= usize::MAX - 7,
    ensures
        effect_models(effects@) == record_effects(format, record@),
{
    let position: u64 = record.position().get();
    let mut effects: Vec<FileEffect> = Vec::new();
    match record.kind() {
        FileLogRecordKind::TransactionCommit { transaction_epoch, transaction_sequence } => {
            effects.push(
                FileEffect::Write {
                    stage: FileIoStage::WriteCommitFrame,
                    bytes: build_frame(
                        format,
                        FrameKind::CommitRecord,
                        position,
                        *transaction_epoch,
                        *transaction_sequence,
                    ),
                },
            );
            assert(effect_models(effects@) =~= record_effects(format, record@));
        },
        FileLogRecordKind::PageWrite(page) => {
            effects.push(
                FileEffect::Write {
                    stage: FileIoStage::WritePageHeaderFrame,
                    bytes: build_frame(
                        format,
                        FrameKind::PageHeader,
                        position,
                        page.page_number().get(),
                        page.page_version().get(),
                    ),
                },
            );
            assert(effect_models(effects@) =~= leading_frames(format, record@));
            append_data_writes(&mut effects, format, position, page.bytes());
        },
        FileLogRecordKind::TransactionPageWrite(owned) => {
            let page: &FilePageWriteRecord<N> = owned.page_write();
            effects.push(
                FileEffect::Write {
                    stage: FileIoStage::WriteTransactionPageHeaderFrame,
                    bytes: build_frame(
                        format,
                        FrameKind::TransactionPageHeader,
                        position,
                        page.page_number().get(),
                        page.page_version().get(),
                    ),
                },
            );
            effects.push(
                FileEffect::Write {
                    stage: FileIoStage::WriteTransactionPageOwnerFrame,
                    bytes: build_frame(
                        format,
                        FrameKind::TransactionPageOwner,
                        position,
                        owned.transaction_epoch(),
                        owned.transaction_sequence(),
                    ),
                },
            );
            assert(effect_models(effects@) =~= leading_frames(format, record@));
            append_data_writes(&mut effects, format, position, page.bytes());
        },
    }
    effects
}

fn append_data_writes(effects: &mut Vec<FileEffect>, format: LogFormat, position: u64, page: &[u8])
    requires
        page@.len() <= usize::MAX - 7,
    ensures
        effect_models(final(effects)@) == effect_models(old(effects)@) + data_writes(
            page_data_frames(format, position, page@, chunk_total(page@.len())),
        ),
{
    let total: usize = (page.len() + 7) / 8;
    let ghost before = effect_models(effects@);
    let mut index: usize = 0;
    assert(effect_models(effects@) =~= before + data_writes(
        page_data_frames(format, position, page@, 0),
    ));
    while index < total
        invariant
            index <= total == chunk_total(page@.len()),
            effect_models(effects@) == before + data_writes(
                page_data_frames(format, position, page@, index as nat),
            ),
        decreases total - index,
    {
        let chunk: [u8; 8] = copy_chunk(page, index);
        let bytes: Vec<u8> = build_frame_with_payload2_bytes(
            format,
            FrameKind::PageData,
            position,
            index as u64,
            &chunk,
        );
        let ghost earlier = effects@;
        effects.push(FileEffect::Write { stage: FileIoStage::WritePageDataFrame, bytes });
        proof {
            lemma_data_frames_len(format, position, page@, index as nat);
            let frames = page_data_frames(format, position, page@, index as nat);
            let frame = page_data_frame(format, position, page@, index as nat);
            assert(page_data_frames(format, position, page@, (index + 1) as nat) == frames.push(
                frame,
            ));
            assert(data_writes(frames.push(frame)) =~= data_writes(frames).push(
                EffectModel::Write { stage: FileIoStage::WritePageDataFrame, bytes: frame },
            ));
            assert(effect_models(effects@) =~= effect_models(earlier).push(
                EffectModel::Write { stage: FileIoStage::WritePageDataFrame, bytes: frame },
            ));
            assert(effect_models(effects@) =~= before + data_writes(
                page_data_frames(format, position, page@, (index + 1) as nat),
            ));
        }
        index = index + 1;
    }
}

} // verus!
