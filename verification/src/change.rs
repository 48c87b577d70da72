//! Authority set changes announced in header digests.

use vstd::prelude::*;
use crate::authority::{authorities_model, AuthoritiesModel, AuthorityId, AuthorityList};
use crate::codec::{compact_decoding, read_compact, read_u32_le, read_u64_le, u32_le_value, u64_le_value};
use crate::header::{DigestItem, Header};

verus! {

/// A change of the authority set, as a header announces it.
#[derive(Clone, Debug, PartialEq, Eq)]
pub struct ScheduledChange {
    /// The authorities after the change, with their weights.
    pub next_authorities: AuthorityList,
    /// How many blocks after the announcing one the change takes effect.
    pub delay: u32,
}

/// The mathematical model of a scheduled change.
pub struct ChangeModel {
    pub next_authorities: AuthoritiesModel,
    pub delay: u32,
}

impl View for ScheduledChange {
    type V = ChangeModel;

    open spec fn view(&self) -> ChangeModel {
        ChangeModel {
            next_authorities: authorities_model(self.next_authorities@),
            delay: self.delay,
        }
    }
}

/// The id of the GRANDPA consensus engine, `FRNK`.
pub open spec fn grandpa_engine_id() -> Seq<u8> {
    seq![70u8, 82u8, 78u8, 75u8]
}

/// What the payload of a GRANDPA consensus log announces. A scheduled change
/// is written as the tag 1, the compact count of authorities, for each of
/// them 32 bytes of key and 8 bytes of weight, and 4 bytes of delay; bytes
/// after that are ignored. Any other payload announces nothing.
pub open spec fn scheduled_change_decoding(data: Seq<u8>) -> Option<ChangeModel> {
    if data.len() == 0 || data[0] != 1 {
        None
    } else {
        match compact_decoding(data.skip(1)) {
            None => None,
            Some((count, used)) => {
                let start = 1 + used;
                let end = start + 40 * count;
                if data.len() < end + 4 {
                    None
                } else {
                    Some(
                        ChangeModel {
                            next_authorities: Seq::new(
                                count as nat,
                                |i: int|
                                    (
                                        data.subrange(start + 40 * i, start + 40 * i + 32),
                                        u64_le_value(data.skip(start + 40 * i + 32)) as u64,
                                    ),
                            ),
                            delay: u32_le_value(data.skip(end)) as u32,
                        },
                    )
                }
            },
        }
    }
}

/// What a digest item announces: only a consensus log of the GRANDPA engine
/// can announce a change.
pub open spec fn item_change(item: DigestItem) -> Option<ChangeModel> {
    match item {
        DigestItem::Consensus(engine, data) => if engine@ == grandpa_engine_id() {
            scheduled_change_decoding(data@)
        } else {
            None
        },
        _ => None,
    }
}

/// The change announced by the first item of `items`, from index `from` on,
/// that announces one.
pub open spec fn first_change(items: Seq<DigestItem>, from: int) -> Option<ChangeModel>
    decreases items.len() - from,
{
    if from < 0 || from >= items.len() {
        None
    } else {
        match item_change(items[from]) {
            Some(change) => Some(change),
            None => first_change(items, from + 1),
        }
    }
}

/// The change that `header` announces, if any.
pub open spec fn header_change(header: Header) -> Option<ChangeModel> {
    first_change(header.digest@, 0)
}

/// Copies the 32 bytes at offset `at` of `data`.
fn read_key(data: &[u8], at: usize) -> (key: AuthorityId)
    requires
        at + 32 <= data.len(),
    ensures
        key@ == data@.subrange(at as int, at + 32),
{
    let mut key: AuthorityId = [0u8; 32];
    let mut i: usize = 0;
    while i < 32
        invariant
            i <= 32,
            at + 32 <= data.len(),
            forall|j: int| 0 <= j < i ==> key@[j] == data@[at + j],
        decreases 32 - i,
    {
        key[i] = data[at + i];
        i += 1;
    }
    assert(key@ =~= data@.subrange(at as int, at + 32));
    key
}

/// Decodes the payload of a GRANDPA consensus log.
pub fn decode_scheduled_change(data: &[u8]) -> (change: Option<ScheduledChange>)
    ensures
        match change {
            Some(c) => scheduled_change_decoding(data@) == Some(c@),
            None => scheduled_change_decoding(data@) is None,
        },
{
    if data.len() == 0 || data[0] != 1 {
        return None;
    }
    let (count, used) = match read_compact(data, 1) {
        Some(decoded) => decoded,
        None => {
            return None;
        },
    };
    let start: usize = 1 + used;
    let left: u64 = (data.len() - start) as u64;
    let need: u64 = 40 * (count as u64) + 4;
    if left < need {
        return None;
    }
    let ghost model = scheduled_change_decoding(data@).unwrap();
    let mut authorities: AuthorityList = Vec::new();
    let mut i: usize = 0;
    while i < count as usize
        invariant
            i <= count,
            start + 40 * count + 4 <= data.len(),
            authorities@.len() == i,
            model.next_authorities.len() == count,
            forall|j: int|
                0 <= j < count ==> #[trigger] model.next_authorities[j] == (
                    data@.subrange(start + 40 * j, start + 40 * j + 32),
                    u64_le_value(data@.skip(start + 40 * j + 32)) as u64,
                ),
            forall|j: int|
                0 <= j < i ==> (#[trigger] authorities@[j]).0@ == model.next_authorities[j].0
                    && authorities@[j].1 == model.next_authorities[j].1,
        decreases count - i,
    {
        let at: usize = start + 40 * i;
        let key = read_key(data, at);
        let weight = read_u64_le(data, at + 32);
        authorities.push((key, weight));
        i += 1;
    }
    let delay = read_u32_le(data, start + 40 * (count as usize));
    let change = ScheduledChange { next_authorities: authorities, delay };
    assert(change@.next_authorities =~= model.next_authorities);
    Some(change)
}

/// Whether `engine` is the id of the GRANDPA engine.
fn is_grandpa_engine(engine: &[u8; 4]) -> (yes: bool)
    ensures
        yes == (engine@ == grandpa_engine_id()),
{
    let yes = engine[0] == 70 && engine[1] == 82 && engine[2] == 78 && engine[3] == 75;
    if yes {
        assert(engine@ =~= grandpa_engine_id());
    }
    yes
}

/// Finds the authority set change that `header` announces: that of the
/// first GRANDPA consensus log in its digest that holds a scheduled change.
pub fn find_scheduled_change(header: &Header) -> (change: Option<ScheduledChange>)
    ensures
        match change {
            Some(c) => header_change(*header) == Some(c@),
            None => header_change(*header) is None,
        },
{
    let mut i: usize = 0;
    while i < header.digest.len()
        invariant
            i <= header.digest@.len(),
            header_change(*header) == first_change(header.digest@, i as int),
        decreases header.digest@.len() - i,
    {
        match &header.digest[i] {
            DigestItem::Consensus(engine, data) => {
                if is_grandpa_engine(engine) {
                    let decoded = decode_scheduled_change(data.as_slice());
                    if decoded.is_some() {
                        return decoded;
                    }
                }
            },
            _ => {},
        }
        i += 1;
    }
    None
}

} // verus!
