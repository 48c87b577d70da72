//! The ancestry chain validator: proves that a voted block descends from the
//! block being finalized, by walking parent links through supplied headers.

use vstd::prelude::*;
use crate::header::Header;
use crate::primitives::{hash_eq, BlockNumber, HeaderId, H256};

verus! {

/// What the validator keeps of a supplied header.
#[derive(Clone, Copy, Debug, PartialEq, Eq)]
pub struct AncestryEntry {
    /// The header's hash.
    pub hash: H256,
    /// The header's number.
    pub number: BlockNumber,
    /// The hash of the header's parent.
    pub parent_hash: H256,
}

/// The mathematical model of a supplied header.
pub struct EntryModel {
    pub hash: Seq<u8>,
    pub number: BlockNumber,
    pub parent_hash: Seq<u8>,
}

/// The mathematical model of the block being finalized.
pub struct TargetModel {
    pub hash: Seq<u8>,
    pub number: BlockNumber,
}

impl View for AncestryEntry {
    type V = EntryModel;

    open spec fn view(&self) -> EntryModel {
        EntryModel { hash: self.hash@, number: self.number, parent_hash: self.parent_hash@ }
    }
}

impl View for HeaderId {
    type V = TargetModel;

    open spec fn view(&self) -> TargetModel {
        TargetModel { hash: self.hash@, number: self.number }
    }
}

/// The model of a pool of entries as it lies in memory.
pub open spec fn entries_model(entries: Seq<AncestryEntry>) -> Seq<EntryModel> {
    Seq::new(entries.len(), |i: int| entries[i]@)
}

/// The pool that the headers `headers` make: each with its hash.
pub open spec fn pool_of(headers: Seq<Header>) -> Seq<EntryModel> {
    Seq::new(
        headers.len(),
        |i: int|
            EntryModel {
                hash: headers[i].hash_spec(),
                number: headers[i].number,
                parent_hash: headers[i].parent_hash@,
            },
    )
}

/// Some header of `pool` has the hash `hash`.
pub open spec fn known(pool: Seq<EntryModel>, hash: Seq<u8>) -> bool {
    exists|i: int| 0 <= i < pool.len() && (#[trigger] pool[i]).hash == hash
}

/// `i` is the place of the first header of `pool` with the hash `hash`.
pub open spec fn is_entry_index(pool: Seq<EntryModel>, hash: Seq<u8>, i: int) -> bool {
    &&& 0 <= i < pool.len()
    &&& pool[i].hash == hash
    &&& forall|j: int| 0 <= j < i ==> (#[trigger] pool[j]).hash != hash
}

/// The place of the first header of `pool` with the hash `hash`.
pub open spec fn entry_index(pool: Seq<EntryModel>, hash: Seq<u8>) -> int {
    choose|i: int| is_entry_index(pool, hash, i)
}

/// The number under which the block `hash` is known: that of the target if
/// it is the target, else that of the first header of `pool` with this hash.
pub open spec fn number_of(target: TargetModel, pool: Seq<EntryModel>, hash: Seq<u8>) -> Option<
    BlockNumber,
> {
    if hash == target.hash {
        Some(target.number)
    } else if known(pool, hash) {
        Some(pool[entry_index(pool, hash)].number)
    } else {
        None
    }
}

/// The measure by which a walk goes down: the number of the block it stands
/// on.
pub open spec fn walk_height(target: TargetModel, pool: Seq<EntryModel>, hash: Seq<u8>) -> nat {
    match number_of(target, pool, hash) {
        Some(n) => n as nat,
        None => 0,
    }
}

/// The walk that starts at block `hash` and follows parent links through
/// `pool` ends at the target: every block on the way is the target or a
/// header of the pool, and each parent has a smaller number than its child.
pub open spec fn reaches_target(target: TargetModel, pool: Seq<EntryModel>, hash: Seq<u8>) -> bool
    decreases walk_height(target, pool, hash),
{
    if hash == target.hash {
        true
    } else if !known(pool, hash) {
        false
    } else {
        let entry = pool[entry_index(pool, hash)];
        match number_of(target, pool, entry.parent_hash) {
            None => false,
            Some(parent_number) => parent_number < entry.number && reaches_target(
                target,
                pool,
                entry.parent_hash,
            ),
        }
    }
}

/// The places in `pool` of the headers that the walk from block `hash`
/// passes.
pub open spec fn visited(target: TargetModel, pool: Seq<EntryModel>, hash: Seq<u8>) -> Set<int>
    decreases walk_height(target, pool, hash),
{
    if hash == target.hash || !known(pool, hash) {
        Set::empty()
    } else {
        let index = entry_index(pool, hash);
        let entry = pool[index];
        match number_of(target, pool, entry.parent_hash) {
            None => set![index],
            Some(parent_number) => if parent_number < entry.number {
                visited(target, pool, entry.parent_hash).insert(index)
            } else {
                set![index]
            },
        }
    }
}

/// The block `hash`, claimed to have the number `number`, descends from the
/// target or is the target: it is known under that number, and the walk from
/// it ends at the target.
pub open spec fn descends(
    target: TargetModel,
    pool: Seq<EntryModel>,
    hash: Seq<u8>,
    number: BlockNumber,
) -> bool {
    number_of(target, pool, hash) == Some(number) && reaches_target(target, pool, hash)
}

/// The first header of `pool` with the hash `hash` is at its entry index.
pub proof fn lemma_entry_index(pool: Seq<EntryModel>, hash: Seq<u8>, i: int)
    requires
        is_entry_index(pool, hash, i),
    ensures
        known(pool, hash),
        entry_index(pool, hash) == i,
{
    let k = entry_index(pool, hash);
    assert(is_entry_index(pool, hash, k));
    if k < i {
        assert(pool[k].hash != hash);
    }
    if i < k {
        assert(pool[i].hash != hash);
    }
}

/// A known hash has an entry index.
pub proof fn lemma_known_has_index(pool: Seq<EntryModel>, hash: Seq<u8>)
    requires
        known(pool, hash),
    ensures
        is_entry_index(pool, hash, entry_index(pool, hash)),
{
    let w = choose|i: int| 0 <= i < pool.len() && (#[trigger] pool[i]).hash == hash;
    lemma_first_before(pool, hash, w);
}

/// Before any header with the hash `hash` there is a first one.
proof fn lemma_first_before(pool: Seq<EntryModel>, hash: Seq<u8>, w: int)
    requires
        0 <= w < pool.len(),
        pool[w].hash == hash,
    ensures
        is_entry_index(pool, hash, entry_index(pool, hash)),
    decreases w,
{
    if forall|j: int| 0 <= j < w ==> (#[trigger] pool[j]).hash != hash {
        assert(is_entry_index(pool, hash, w));
    } else {
        let j = choose|j: int| 0 <= j < w && (#[trigger] pool[j]).hash == hash;
        lemma_first_before(pool, hash, j);
    }
}

/// Finds the first entry with the hash `hash`.
pub fn find_entry(entries: &Vec<AncestryEntry>, hash: &H256) -> (place: Option<usize>)
    ensures
        place is Some <==> known(entries_model(entries@), hash@),
        place is Some ==> place.unwrap() == entry_index(entries_model(entries@), hash@)
            && place.unwrap() < entries@.len(),
{
    let ghost pool = entries_model(entries@);
    let mut i: usize = 0;
    while i < entries.len()
        invariant
            i <= entries.len(),
            pool == entries_model(entries@),
            forall|j: int| 0 <= j < i ==> (#[trigger] pool[j]).hash != hash@,
        decreases entries.len() - i,
    {
        if hash_eq(&entries[i].hash, hash) {
            proof {
                lemma_entry_index(pool, hash@, i as int);
            }
            return Some(i);
        }
        i += 1;
    }
    None
}

/// Walks from the block `hash`, claimed to have the number `number`, to the
/// target, and marks in `used` the entries it passes. Returns whether the
/// block descends from the target. A block that is not known under the
/// claimed number starts no walk and marks nothing; any other marks exactly
/// the entries its walk passes, whether the walk reaches the target or
/// not.
pub fn walk_to_target(
    target: &HeaderId,
    entries: &Vec<AncestryEntry>,
    hash: &H256,
    number: BlockNumber,
    used: &mut Vec<bool>,
) -> (ok: bool)
    requires
        old(used)@.len() == entries@.len(),
    ensures
        final(used)@.len() == entries@.len(),
        ok == descends(target@, entries_model(entries@), hash@, number),
        forall|k: int|
            #![trigger final(used)@[k]]
            0 <= k < entries@.len() ==> final(used)@[k] == (old(used)@[k] || (number_of(
                target@,
                entries_model(entries@),
                hash@,
            ) == Some(number) && visited(target@, entries_model(entries@), hash@).contains(k))),
{
    let ghost pool = entries_model(entries@);
    if hash_eq(hash, &target.hash) {
        return number == target.number;
    }
    let mut current: usize = match find_entry(entries, hash) {
        Some(place) => place,
        None => {
            return false;
        },
    };
    proof {
        lemma_known_has_index(pool, hash@);
    }
    if entries[current].number != number {
        return false;
    }
    let ghost mut seen: Set<int> = Set::empty();
    assert(visited(target@, pool, hash@) =~= seen.union(visited(target@, pool, hash@)));
    loop
        invariant
            pool == entries_model(entries@),
            number_of(target@, pool, hash@) == Some(number),
            used@.len() == entries@.len(),
            old(used)@.len() == entries@.len(),
            current < entries@.len(),
            pool[current as int].hash != target@.hash,
            is_entry_index(pool, pool[current as int].hash, current as int),
            reaches_target(target@, pool, hash@) == reaches_target(
                target@,
                pool,
                pool[current as int].hash,
            ),
            visited(target@, pool, hash@) == seen.union(
                visited(target@, pool, pool[current as int].hash),
            ),
            forall|k: int|
                #![trigger used@[k]]
                0 <= k < entries@.len() ==> used@[k] == (old(used)@[k] || seen.contains(k)),
        decreases entries@[current as int].number,
    {
        let ghost here = pool[current as int].hash;
        let ghost marks = used@;
        proof {
            lemma_entry_index(pool, here, current as int);
        }
        used.set(current, true);
        assert forall|k: int| #![trigger used@[k]] 0 <= k < entries@.len() implies used@[k] == (
        old(used)@[k] || seen.insert(current as int).contains(k)) by {
            assert(marks[k] == (old(used)@[k] || seen.contains(k)));
        }
        assert(visited(target@, pool, here).contains(current as int));
        let parent: H256 = entries[current].parent_hash;
        if hash_eq(&parent, &target.hash) {
            let ok = target.number < entries[current].number;
            proof {
                assert(reaches_target(target@, pool, parent@));
                assert(visited(target@, pool, parent@) =~= Set::<int>::empty());
                if ok {
                    assert(visited(target@, pool, here) =~= set![current as int]);
                    assert(visited(target@, pool, hash@) =~= seen.insert(current as int));
                }
            }
            return ok;
        }
        let next: usize = match find_entry(entries, &parent) {
            Some(place) => place,
            None => {
                return false;
            },
        };
        if entries[next].number >= entries[current].number {
            return false;
        }
        proof {
            lemma_known_has_index(pool, parent@);
            assert(visited(target@, pool, here) =~= visited(target@, pool, parent@).insert(
                current as int,
            ));
            assert(visited(target@, pool, hash@) =~= seen.insert(current as int).union(
                visited(target@, pool, parent@),
            ));
            seen = seen.insert(current as int);
        }
        current = next;
    }
}

} // verus!
