//! Versions of the commit-log format and the division of a page into chunks.
use vstd::prelude::*;

use crate::log_error::FilePageWidthError;

verus! {

pub const FORMAT_VERSION_V1: u16 = 1;

pub const FORMAT_VERSION_V2: u16 = 2;

pub const FORMAT_VERSION_V3: u16 = 3;

pub const FORMAT_VERSION_V4: u16 = 4;

pub const FORMAT_VERSION_V5: u16 = 5;

pub const HEADER_LENGTH: usize = 64;

pub const HEADER_V4_LENGTH: usize = 128;

pub const HEADER_V5_LENGTH: usize = 192;

pub const FRAME_LENGTH: usize = 56;

pub const HEADER_CHECKSUM_OFFSET: usize = 56;

pub const HEADER_V2_PAGE_WIDTH_OFFSET: usize = 32;

pub const HEADER_V4_CHECKSUM_OFFSET: usize = 120;

pub const HEADER_V5_CHECKSUM_OFFSET: usize = 184;

pub const FRAME_CHECKSUM_OFFSET: usize = 48;

pub const PAGE_CHUNK_WIDTH: usize = 8;

/// Version of the commit-log file format.
#[derive(Clone, Copy, Debug, PartialEq, Eq, Structural)]
pub enum LogFormat {
    V1,
    V2,
    V3,
    V4,
    V5,
}

impl LogFormat {
    pub open spec fn spec_version(self) -> u16 {
        match self {
            LogFormat::V1 => 1,
            LogFormat::V2 => 2,
            LogFormat::V3 => 3,
            LogFormat::V4 => 4,
            LogFormat::V5 => 5,
        }
    }

    pub open spec fn spec_frame_version(self) -> u16 {
        if self.spec_version() > 3 {
            3
        } else {
            self.spec_version()
        }
    }

    pub open spec fn has_pages(self) -> bool {
        self.spec_version() >= 2
    }

    pub open spec fn has_transaction_pages(self) -> bool {
        self.spec_version() >= 3
    }

    /// The version number that the header stores.
    pub fn version(self) -> (version: u16)
        ensures
            version == self.spec_version(),
    {
        match self {
            LogFormat::V1 => FORMAT_VERSION_V1,
            LogFormat::V2 => FORMAT_VERSION_V2,
            LogFormat::V3 => FORMAT_VERSION_V3,
            LogFormat::V4 => FORMAT_VERSION_V4,
            LogFormat::V5 => FORMAT_VERSION_V5,
        }
    }

    /// The version number that every frame stores: later formats keep the
    /// frames of the third.
    pub fn frame_version(self) -> (version: u16)
        ensures
            version == self.spec_frame_version(),
    {
        match self {
            LogFormat::V4 | LogFormat::V5 => FORMAT_VERSION_V3,
            LogFormat::V1 | LogFormat::V2 | LogFormat::V3 => self.version(),
        }
    }

    pub fn supports_pages(self) -> (supported: bool)
        ensures
            supported == self.has_pages(),
    {
        match self {
            LogFormat::V1 => false,
            LogFormat::V2 | LogFormat::V3 | LogFormat::V4 | LogFormat::V5 => true,
        }
    }

    pub fn supports_transaction_pages(self) -> (supported: bool)
        ensures
            supported == self.has_transaction_pages(),
    {
        match self {
            LogFormat::V1 | LogFormat::V2 => false,
            LogFormat::V3 | LogFormat::V4 | LogFormat::V5 => true,
        }
    }
}

/// Division of one page of fixed width into eight-byte chunks, the last of
/// which may be shorter.
#[derive(Clone, Copy, Debug, PartialEq, Eq, Structural)]
pub struct PageLayout {
    pub width_u64: u64,
    pub chunk_count: usize,
    pub final_chunk_len: usize,
}

/// The number of chunks of a page of `width` bytes.
pub open spec fn chunk_total(width: nat) -> nat {
    (width + 7) / 8
}

/// Chunk `index` of a page, padded with zeros to eight bytes.
pub open spec fn page_chunk(page: Seq<u8>, index: nat) -> Seq<u8> {
    Seq::new(
        8,
        |i: int|
            if 8 * index + i < page.len() {
                page[8 * index + i]
            } else {
                0u8
            },
    )
}

impl PageLayout {
    /// Whether this is the layout of pages of `width` bytes.
    pub open spec fn is_for(self, width: nat) -> bool {
        &&& width > 0
        &&& self.width_u64 == width
        &&& self.chunk_count == chunk_total(width)
        &&& self.final_chunk_len == width - 8 * (chunk_total(width) - 1)
    }

    /// The layout of pages of `width` bytes.
    pub open spec fn of(width: nat) -> PageLayout {
        PageLayout {
            width_u64: width as u64,
            chunk_count: chunk_total(width) as usize,
            final_chunk_len: (width - 8 * (chunk_total(width) - 1)) as usize,
        }
    }

    pub open spec fn width_error(width: usize) -> Option<FilePageWidthError> {
        if width == 0 {
            Some(FilePageWidthError::Zero)
        } else if width > usize::MAX - 7 {
            Some(FilePageWidthError::NotRepresentable { actual: width })
        } else {
            None
        }
    }

    /// The layout of pages of `N` bytes.
    pub fn for_const<const N: usize>() -> (result: Result<PageLayout, FilePageWidthError>)
        ensures
            match PageLayout::width_error(N) {
                Some(error) => result == Err::<PageLayout, _>(error),
                None => {
                    &&& result == Ok::<_, FilePageWidthError>(PageLayout::of(N as nat))
                    &&& PageLayout::of(N as nat).is_for(N as nat)
                },
            },
    {
        if N == 0 {
            return Err(FilePageWidthError::Zero);
        }
        let width_u64: u64 = N as u64;
        let chunk_count: usize = match N.checked_add(PAGE_CHUNK_WIDTH - 1) {
            Some(sum) => sum / PAGE_CHUNK_WIDTH,
            None => return Err(FilePageWidthError::NotRepresentable { actual: N }),
        };
        let remainder: usize = N % PAGE_CHUNK_WIDTH;
        let final_chunk_len: usize = if remainder == 0 {
            PAGE_CHUNK_WIDTH
        } else {
            remainder
        };
        Ok(PageLayout { width_u64, chunk_count, final_chunk_len })
    }

    /// The number of page bytes that chunk `chunk_index` carries.
    pub fn logical_bytes_for_chunk(self, chunk_index: usize) -> (count: usize)
        requires
            chunk_index < usize::MAX,
        ensures
            count == (if chunk_index + 1 == self.chunk_count {
                self.final_chunk_len
            } else {
                8
            }),
    {
        if chunk_index + 1 == self.chunk_count {
            self.final_chunk_len
        } else {
            PAGE_CHUNK_WIDTH
        }
    }
}

/// Copies chunk `index` of `page`, padding it with zeros.
pub fn copy_chunk(page: &[u8], index: usize) -> (chunk: [u8; 8])
    requires
        index < chunk_total(page@.len()),
    ensures
        chunk@ == page_chunk(page@, index as nat),
{
    let total: usize = page.len();
    let mut chunk: [u8; 8] = [0u8; 8];
    let mut i: usize = 0;
    let start: usize = index * 8;
    while i < 8 && start + i < total
        invariant
            i <= 8,
            start == 8 * index,
            start < total,
            start + i <= total,
            total == page@.len(),
            forall|j: int| 0 <= j < i ==> chunk@[j] == page@[start + j],
            forall|j: int| i <= j < 8 ==> chunk@[j] == 0,
        decreases 8 - i,
    {
        chunk[i] = page[start + i];
        i = i + 1;
    }
    assert(chunk@ =~= page_chunk(page@, index as nat));
    chunk
}

} // verus!
