//! The retention window: the last imported headers, oldest evicted first.

use vstd::prelude::*;
use crate::header::Header;
use crate::primitives::{hash_eq, BlockNumber, H256};

verus! {

/// What the bridge remembers of an imported header.
#[derive(Clone, Debug, PartialEq, Eq)]
pub struct ImportedHeader {
    /// The header as it was submitted.
    pub header: Header,
    /// Its hash.
    pub hash: H256,
    /// The id of the authority set that finalized it.
    pub authority_set_id: u64,
}

/// The mathematical model of a remembered header.
pub struct ImportedModel {
    pub header: Header,
    pub hash: Seq<u8>,
    pub authority_set_id: u64,
}

impl View for ImportedHeader {
    type V = ImportedModel;

    open spec fn view(&self) -> ImportedModel {
        ImportedModel {
            header: self.header,
            hash: self.hash@,
            authority_set_id: self.authority_set_id,
        }
    }
}

/// The window after `record` enters it: at the end, and with the oldest
/// record gone if the window was full.
pub open spec fn window_push(window: Seq<ImportedModel>, capacity: nat, record: ImportedModel) -> Seq<
    ImportedModel,
> {
    if window.len() < capacity {
        window.push(record)
    } else {
        window.drop_first().push(record)
    }
}

/// A ring buffer of remembered headers.
#[derive(Clone, Debug, PartialEq, Eq)]
pub struct ImportedHeaders {
    slots: Vec<ImportedHeader>,
    oldest: usize,
    capacity: usize,
}

impl View for ImportedHeaders {
    type V = Seq<ImportedModel>;

    /// The records from the oldest to the newest.
    closed spec fn view(&self) -> Seq<ImportedModel> {
        Seq::new(
            self.slots@.len(),
            |i: int|
                if self.oldest + i < self.slots@.len() {
                    self.slots@[self.oldest + i]@
                } else {
                    self.slots@[self.oldest + i - self.slots@.len()]@
                },
        )
    }
}

impl ImportedHeaders {
    /// How many records the window holds at most.
    pub closed spec fn capacity_spec(&self) -> nat {
        self.capacity as nat
    }

    /// The buffer's invariant: it holds no more than its capacity, which is
    /// at least one, and starts to wrap around only once it is full.
    pub closed spec fn wf(&self) -> bool {
        &&& self.capacity >= 1
        &&& self.slots@.len() <= self.capacity
        &&& if self.slots@.len() < self.capacity {
            self.oldest == 0
        } else {
            self.oldest < self.capacity
        }
    }

    /// An empty window for `capacity` records; `None` for a window that
    /// could hold no record at all.
    pub fn new(capacity: usize) -> (window: Option<ImportedHeaders>)
        ensures
            window is Some <==> capacity >= 1,
            window is Some ==> {
                &&& window.unwrap().wf()
                &&& window.unwrap()@ == Seq::<ImportedModel>::empty()
                &&& window.unwrap().capacity_spec() == capacity
            },
    {
        if capacity == 0 {
            return None;
        }
        let window = ImportedHeaders { slots: Vec::new(), oldest: 0, capacity };
        assert(window@ =~= Seq::<ImportedModel>::empty());
        Some(window)
    }

    /// The number of records.
    pub fn len(&self) -> (n: usize)
        ensures
            n == self@.len(),
    {
        self.slots.len()
    }

    /// How many records the window holds at most.
    pub fn capacity(&self) -> (n: usize)
        ensures
            n == self.capacity_spec(),
    {
        self.capacity
    }

    /// The record at place `i`, counted from the oldest.
    pub fn get(&self, i: usize) -> (record: &ImportedHeader)
        requires
            self.wf(),
            i < self@.len(),
        ensures
            record@ == self@[i as int],
    {
        let until_wrap: usize = self.slots.len() - self.oldest;
        if i < until_wrap {
            &self.slots[self.oldest + i]
        } else {
            &self.slots[i - until_wrap]
        }
    }

    /// Puts `record` into the window; the oldest record leaves if the window
    /// is full.
    pub fn insert(&mut self, record: ImportedHeader)
        requires
            old(self).wf(),
        ensures
            final(self).wf(),
            final(self).capacity_spec() == old(self).capacity_spec(),
            final(self)@ == window_push(old(self)@, old(self).capacity_spec(), record@),
    {
        if self.slots.len() < self.capacity {
            self.slots.push(record);
        } else {
            self.slots.set(self.oldest, record);
            if self.oldest + 1 == self.capacity {
                self.oldest = 0;
            } else {
                self.oldest = self.oldest + 1;
            }
        }
        assert(self@ =~= window_push(old(self)@, old(self).capacity_spec(), record@));
    }

    /// The place, counted from the oldest, of the record with the hash
    /// `hash`.
    pub fn position_of(&self, hash: &H256) -> (place: Option<usize>)
        requires
            self.wf(),
        ensures
            match place {
                Some(i) => i < self@.len() && self@[i as int].hash == hash@,
                None => forall|i: int| 0 <= i < self@.len() ==> (#[trigger] self@[i]).hash != hash@,
            },
    {
        let mut i: usize = 0;
        while i < self.len()
            invariant
                self.wf(),
                i <= self@.len(),
                forall|j: int| 0 <= j < i ==> (#[trigger] self@[j]).hash != hash@,
            decreases self@.len() - i,
        {
            if hash_eq(&self.get(i).hash, hash) {
                return Some(i);
            }
            i += 1;
        }
        None
    }

    /// The place, counted from the oldest, of the record of the header
    /// numbered `number`.
    pub fn position_of_number(&self, number: BlockNumber) -> (place: Option<usize>)
        requires
            self.wf(),
        ensures
            match place {
                Some(i) => i < self@.len() && self@[i as int].header.number == number,
                None => forall|i: int|
                    0 <= i < self@.len() ==> (#[trigger] self@[i]).header.number != number,
            },
    {
        let mut i: usize = 0;
        while i < self.len()
            invariant
                self.wf(),
                i <= self@.len(),
                forall|j: int| 0 <= j < i ==> (#[trigger] self@[j]).header.number != number,
            decreases self@.len() - i,
        {
            if self.get(i).header.number == number {
                return Some(i);
            }
            i += 1;
        }
        None
    }
}

} // verus!
