//! Page images on their way into the log and the page store.
use vstd::prelude::*;

use crate::identity::{LogLineage, LogSequenceNumber, PageNumber, PageVersion};

verus! {

/// The place of one page: a lineage and a number.
#[derive(Clone, Copy, Debug, PartialEq, Eq, Structural)]
pub struct PageAddress {
    pub lineage: LogLineage,
    pub number: PageNumber,
}

impl PageAddress {
    pub fn new(lineage: &LogLineage, number: PageNumber) -> (address: PageAddress)
        ensures
            address == (PageAddress { lineage: *lineage, number }),
    {
        PageAddress { lineage: *lineage, number }
    }
}

/// A page image that no log record holds yet.
#[derive(Clone, Debug, PartialEq, Eq)]
pub struct UnloggedPage<const N: usize> {
    pub address: PageAddress,
    pub version: PageVersion,
    pub bytes: [u8; N],
}

impl<const N: usize> UnloggedPage<N> {
    pub fn new(address: PageAddress, version: PageVersion, bytes: [u8; N]) -> (page: UnloggedPage<
        N,
    >)
        ensures
            page == (UnloggedPage { address, version, bytes }),
    {
        UnloggedPage { address, version, bytes }
    }
}

/// A page image whose log record stands at `required_position`.
#[derive(Clone, Debug, PartialEq, Eq)]
pub struct DirtyPage<const N: usize> {
    pub address: PageAddress,
    pub version: PageVersion,
    pub bytes: [u8; N],
    pub required_position: LogSequenceNumber,
}

impl<const N: usize> DirtyPage<N> {
    /// The page after its record was appended at `required_position`.
    pub fn logged(page: UnloggedPage<N>, required_position: LogSequenceNumber) -> (dirty: DirtyPage<
        N,
    >)
        ensures
            dirty == (DirtyPage {
                address: page.address,
                version: page.version,
                bytes: page.bytes,
                required_position,
            }),
    {
        DirtyPage {
            address: page.address,
            version: page.version,
            bytes: page.bytes,
            required_position,
        }
    }
}

/// Leave to write one page, given once the log is durable through `position`.
#[derive(Clone, Copy, Debug, PartialEq, Eq, Structural)]
pub struct PageWritePermit {
    pub position: LogSequenceNumber,
}

} // verus!
