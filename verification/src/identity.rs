//! Identities that log records, pages and files carry.
use vstd::prelude::*;

verus! {

/// Nonzero identity of one persistent log lineage.
#[derive(Clone, Copy, Debug, PartialEq, Eq, Structural, Hash)]
pub struct PersistentLogId {
    value: u128,
}

impl PersistentLogId {
    pub closed spec fn view(&self) -> u128 {
        self.value
    }

    #[verifier::type_invariant]
    closed spec fn nonzero(self) -> bool {
        self.value != 0
    }

    /// Accepts any nonzero identity.
    pub fn new(value: u128) -> (id: Option<PersistentLogId>)
        ensures
            id is Some <==> value != 0,
            id matches Some(id) ==> id@ == value,
    {
        if value == 0 {
            None
        } else {
            Some(PersistentLogId { value })
        }
    }

    pub fn get(&self) -> (value: u128)
        ensures
            value == self@,
            value != 0,
    {
        proof {
            use_type_invariant(self);
        }
        self.value
    }

    /// Two identities with the same number are the same identity.
    pub proof fn lemma_view_injective(left: PersistentLogId, right: PersistentLogId)
        requires
            left@ == right@,
        ensures
            left == right,
    {
    }
}

/// The lineage that a log position belongs to.
#[derive(Clone, Copy, Debug, PartialEq, Eq, Structural, Hash)]
pub enum LogLineage {
    /// The lineage of every log opened under one persistent identity.
    Persistent(PersistentLogId),
    /// A lineage known only inside one process, told apart by its token.
    Process(u64),
}

impl LogLineage {
    pub fn persistent(id: PersistentLogId) -> (lineage: LogLineage)
        ensures
            lineage == LogLineage::Persistent(id),
    {
        LogLineage::Persistent(id)
    }

    /// The position numbered `value` of this lineage.
    pub fn position(&self, value: u64) -> (position: LogSequenceNumber)
        ensures
            position == (LogSequenceNumber { lineage: *self, value }),
    {
        LogSequenceNumber { lineage: *self, value }
    }

    pub fn same_lineage(&self, other: &LogLineage) -> (same: bool)
        ensures
            same == (*self == *other),
    {
        *self == *other
    }
}

/// One position of one log lineage.
#[derive(Clone, Copy, Debug, PartialEq, Eq, Structural, Hash)]
pub struct LogSequenceNumber {
    pub lineage: LogLineage,
    pub value: u64,
}

impl LogSequenceNumber {
    pub fn get(&self) -> (value: u64)
        ensures
            value == self.value,
    {
        self.value
    }

    pub fn lineage(&self) -> (lineage: &LogLineage)
        ensures
            *lineage == self.lineage,
    {
        &self.lineage
    }
}

/// Nonzero number of one page.
#[derive(Clone, Copy, Debug, PartialEq, Eq, Structural, Hash)]
pub struct PageNumber {
    value: u64,
}

impl PageNumber {
    pub closed spec fn view(&self) -> u64 {
        self.value
    }

    #[verifier::type_invariant]
    closed spec fn nonzero(self) -> bool {
        self.value != 0
    }

    /// Accepts any nonzero number.
    pub fn new(value: u64) -> (number: Option<PageNumber>)
        ensures
            number is Some <==> value != 0,
            number matches Some(number) ==> number@ == value,
    {
        if value == 0 {
            None
        } else {
            Some(PageNumber { value })
        }
    }

    pub fn get(&self) -> (value: u64)
        ensures
            value == self@,
            value != 0,
    {
        proof {
            use_type_invariant(self);
        }
        self.value
    }

    /// Two page numbers with the same value are the same page number.
    pub proof fn lemma_view_injective(left: PageNumber, right: PageNumber)
        requires
            left@ == right@,
        ensures
            left == right,
    {
    }
}

/// Version of one page image.
#[derive(Clone, Copy, Debug, PartialEq, Eq, Structural, Hash)]
pub struct PageVersion {
    pub value: u64,
}

impl PageVersion {
    pub fn new(value: u64) -> (version: PageVersion)
        ensures
            version.value == value,
    {
        PageVersion { value }
    }

    pub fn get(&self) -> (value: u64)
        ensures
            value == self.value,
    {
        self.value
    }
}

/// Complete identity of one transaction: a nonzero epoch and a nonzero
/// sequence number inside that epoch.
#[derive(Clone, Copy, Debug, PartialEq, Eq, Structural, Hash)]
pub struct TransactionId {
    epoch: u64,
    sequence: u64,
}

impl TransactionId {
    pub closed spec fn spec_epoch(&self) -> u64 {
        self.epoch
    }

    pub closed spec fn spec_sequence(&self) -> u64 {
        self.sequence
    }

    #[verifier::type_invariant]
    closed spec fn nonzero(self) -> bool {
        self.epoch != 0 && self.sequence != 0
    }

    pub fn new(epoch: u64, sequence: u64) -> (id: Option<TransactionId>)
        ensures
            id is Some <==> epoch != 0 && sequence != 0,
            id matches Some(id) ==> id.spec_epoch() == epoch && id.spec_sequence() == sequence,
    {
        if epoch == 0 || sequence == 0 {
            None
        } else {
            Some(TransactionId { epoch, sequence })
        }
    }

    pub fn epoch(&self) -> (epoch: u64)
        ensures
            epoch == self.spec_epoch(),
            epoch != 0,
    {
        proof {
            use_type_invariant(self);
        }
        self.epoch
    }

    pub fn sequence(&self) -> (sequence: u64)
        ensures
            sequence == self.spec_sequence(),
            sequence != 0,
    {
        proof {
            use_type_invariant(self);
        }
        self.sequence
    }
}

} // verus!
