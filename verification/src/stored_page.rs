//! One page as the page store holds it.
use vstd::prelude::*;

use crate::identity::{LogLineage, LogSequenceNumber, PageNumber, PageVersion};
use crate::observation::{PageRecoveryObservationBytesError, StoredPageSnapshotObservation};

verus! {

/// Mathematical content of one stored page.
#[verifier::ext_equal]
pub struct StoredPageModel {
    pub number: u64,
    pub version: u64,
    pub bytes: Seq<u8>,
    /// The log position that has to be durable before the page is written.
    pub position: u64,
    /// The place of the page's group among all groups of the file.
    pub sequence: u64,
}

/// Latest snapshot of one stored page.
#[derive(Clone, Debug, PartialEq, Eq)]
pub struct FileStoredPage<const N: usize> {
    page_number: PageNumber,
    page_version: PageVersion,
    bytes: [u8; N],
    required_position: LogSequenceNumber,
    store_sequence: u64,
}

impl<const N: usize> FileStoredPage<N> {
    pub closed spec fn view(&self) -> StoredPageModel {
        StoredPageModel {
            number: self.page_number@,
            version: self.page_version.value,
            bytes: self.bytes@,
            position: self.required_position.value,
            sequence: self.store_sequence,
        }
    }

    /// The lineage of the page's required position.
    pub closed spec fn spec_lineage(&self) -> LogLineage {
        self.required_position.lineage
    }

    /// A stored page has the width of its store.
    pub proof fn lemma_width(&self)
        ensures
            self@.bytes.len() == N,
    {
    }

    pub(crate) fn new(
        page_number: PageNumber,
        page_version: PageVersion,
        bytes: [u8; N],
        required_position: LogSequenceNumber,
        store_sequence: u64,
    ) -> (page: FileStoredPage<N>)
        ensures
            page@ == (StoredPageModel {
                number: page_number@,
                version: page_version.value,
                bytes: bytes@,
                position: required_position.value,
                sequence: store_sequence,
            }),
            page.spec_lineage() == required_position.lineage,
    {
        FileStoredPage { page_number, page_version, bytes, required_position, store_sequence }
    }

    /// Returns the page number.
    pub fn page_number(&self) -> (number: PageNumber)
        ensures
            number@ == self@.number,
    {
        self.page_number
    }

    /// Returns the page version.
    pub fn page_version(&self) -> (version: PageVersion)
        ensures
            version.value == self@.version,
    {
        self.page_version
    }

    /// Returns the exact stored page bytes.
    pub fn bytes(&self) -> (bytes: &[u8; N])
        ensures
            bytes@ == self@.bytes,
    {
        &self.bytes
    }

    /// Returns the exact required log position.
    pub fn required_position(&self) -> (position: &LogSequenceNumber)
        ensures
            position.value == self@.position,
            position.lineage == self.spec_lineage(),
    {
        &self.required_position
    }

    /// Returns the sequence number of the page's group.
    pub fn store_sequence(&self) -> (sequence: u64)
        ensures
            sequence == self@.sequence,
    {
        self.store_sequence
    }

    /// Whether `observation` shows this page.
    pub open spec fn projects(&self, observation: StoredPageSnapshotObservation<N>) -> bool {
        &&& observation.page_number@ == self@.number
        &&& observation.page_version.value == self@.version
        &&& observation.bytes@ == self@.bytes
        &&& observation.required_position == (LogSequenceNumber {
            lineage: self.spec_lineage(),
            value: self@.position,
        })
    }

    /// Projects this page into recovery evidence.
    pub fn page_recovery_observation(&self) -> (result: Result<
        StoredPageSnapshotObservation<N>,
        PageRecoveryObservationBytesError,
    >)
        ensures
            N == 0 ==> result == Err::<StoredPageSnapshotObservation<N>, _>(
                PageRecoveryObservationBytesError::ImageWidthZero,
            ),
            N > 0 ==> (result matches Ok(observation) && self.projects(observation)),
    {
        StoredPageSnapshotObservation::from_bytes(
            self.page_number,
            self.page_version,
            self.bytes,
            self.required_position,
        )
    }
}

/// The mathematical content of a sequence of stored pages.
pub open spec fn page_models<const N: usize>(pages: Seq<FileStoredPage<N>>) -> Seq<StoredPageModel> {
    Seq::new(pages.len(), |i: int| pages[i]@)
}

/// Whether every page's required position belongs to `lineage`.
pub open spec fn pages_in_lineage<const N: usize>(
    pages: Seq<FileStoredPage<N>>,
    lineage: LogLineage,
) -> bool {
    forall|i: int| 0 <= i < pages.len() ==> (#[trigger] pages[i]).spec_lineage() == lineage
}

/// The index, not before `from`, of the first page numbered `number`.
pub open spec fn page_index_from(pages: Seq<StoredPageModel>, number: u64, from: nat) -> Option<nat>
    decreases pages.len() - from,
{
    if from >= pages.len() {
        None
    } else if pages[from as int].number == number {
        Some(from)
    } else {
        page_index_from(pages, number, from + 1)
    }
}

/// The pages with `page` in the place of an earlier snapshot of it, or behind all
/// others.
pub open spec fn with_page(pages: Seq<StoredPageModel>, page: StoredPageModel) -> Seq<
    StoredPageModel,
> {
    match page_index_from(pages, page.number, 0) {
        Some(index) => pages.update(index as int, page),
        None => pages.push(page),
    }
}

/// Whether no two pages have the same number.
pub open spec fn numbers_distinct(pages: Seq<StoredPageModel>) -> bool {
    forall|i: int, j: int|
        #![trigger pages[i], pages[j]]
        0 <= i < j < pages.len() ==> pages[i].number != pages[j].number
}

/// The current snapshot of the page numbered `number`.
pub open spec fn current_page(pages: Seq<StoredPageModel>, number: u64) -> Option<
    StoredPageModel,
> {
    match page_index_from(pages, number, 0) {
        Some(index) => Some(pages[index as int]),
        None => None,
    }
}

pub proof fn lemma_page_index(pages: Seq<StoredPageModel>, number: u64, from: nat)
    ensures
        match page_index_from(pages, number, from) {
            None => forall|i: int|
                from <= i < pages.len() ==> (#[trigger] pages[i]).number != number,
            Some(index) => {
                &&& from <= index < pages.len()
                &&& pages[index as int].number == number
                &&& forall|i: int|
                    from <= i < index ==> (#[trigger] pages[i]).number != number
            },
        },
    decreases pages.len() - from,
{
    if from < pages.len() && pages[from as int].number != number {
        lemma_page_index(pages, number, from + 1);
    }
}

/// Writing a page changes the current snapshot of that page alone, and keeps the
/// page numbers distinct.
pub proof fn law_write_replaces_only_its_page(
    pages: Seq<StoredPageModel>,
    page: StoredPageModel,
    number: u64,
)
    requires
        numbers_distinct(pages),
    ensures
        numbers_distinct(with_page(pages, page)),
        current_page(with_page(pages, page), number) == if number == page.number {
            Some(page)
        } else {
            current_page(pages, number)
        },
{
    let after = with_page(pages, page);
    lemma_page_index(pages, page.number, 0);
    lemma_page_index(pages, number, 0);
    lemma_page_index(after, number, 0);
    match page_index_from(pages, page.number, 0) {
        Some(place) => {
            assert(after[place as int] == page);
            assert forall|i: int, j: int|
                #![trigger after[i], after[j]]
                0 <= i < j < after.len() implies after[i].number != after[j].number by {
                assert(pages[i].number != pages[j].number);
            }
            assert forall|i: int| 0 <= i < pages.len() && i != place implies #[trigger] after[i]
                == pages[i] by {}
        },
        None => {
            assert(after[pages.len() as int] == page);
            assert forall|i: int| 0 <= i < pages.len() implies #[trigger] after[i]
                == pages[i] by {}
        },
    }
    if number == page.number {
        let place = match page_index_from(pages, number, 0) {
            Some(place) => place,
            None => pages.len(),
        };
        assert(after[place as int].number == number);
    } else {
        match page_index_from(pages, number, 0) {
            Some(place) => {
                assert(after[place as int] == pages[place as int]);
            },
            None => {
                assert forall|i: int| 0 <= i < after.len() implies (#[trigger] after[i]).number
                    != number by {
                    if i < pages.len() {
                        assert(pages[i].number != number);
                    }
                }
            },
        }
    }
}

} // verus!
