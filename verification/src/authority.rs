//! Authority sets: who may vote, and with what weight.

use vstd::prelude::*;
use crate::primitives::bytes_eq;

verus! {

/// The public key of an authority.
pub type AuthorityId = [u8; 32];

/// The voting weight of an authority.
pub type AuthorityWeight = u64;

/// Authorities with their weights, in the order the chain lists them.
pub type AuthorityList = Vec<(AuthorityId, AuthorityWeight)>;

/// The mathematical model of an authority list: keys as byte strings, each
/// with its weight.
pub type AuthoritiesModel = Seq<(Seq<u8>, AuthorityWeight)>;

/// The model of an authority list as it lies in memory.
pub open spec fn authorities_model(list: Seq<(AuthorityId, AuthorityWeight)>) -> AuthoritiesModel {
    Seq::new(list.len(), |i: int| (list[i].0@, list[i].1))
}

/// No key occurs twice in `list`.
pub open spec fn ids_unique(list: AuthoritiesModel) -> bool {
    forall|i: int, j: int|
        0 <= i < j < list.len() ==> (#[trigger] list[i]).0 != (#[trigger] list[j]).0
}

/// `id` is the key of some authority in `list`.
pub open spec fn is_authority(list: AuthoritiesModel, id: Seq<u8>) -> bool {
    exists|i: int| 0 <= i < list.len() && (#[trigger] list[i]).0 == id
}

/// The place of the authority `id` in `list`: the first entry with that key.
pub open spec fn authority_index(list: AuthoritiesModel, id: Seq<u8>) -> int {
    choose|i: int|
        0 <= i < list.len() && (#[trigger] list[i]).0 == id && forall|j: int|
            0 <= j < i ==> (#[trigger] list[j]).0 != id
}

/// The weight of the authority `id` in `list`; zero for a stranger.
pub open spec fn authority_weight(list: AuthoritiesModel, id: Seq<u8>) -> nat {
    if is_authority(list, id) {
        list[authority_index(list, id)].1 as nat
    } else {
        0
    }
}

/// The sum of the weights of the first `n` authorities of `list`.
pub open spec fn weight_of_first(list: AuthoritiesModel, n: nat) -> nat
    decreases n,
{
    if n == 0 {
        0
    } else {
        weight_of_first(list, (n - 1) as nat) + list[n - 1].1 as nat
    }
}

/// The sum of all weights in `list`.
pub open spec fn total_weight(list: AuthoritiesModel) -> nat {
    weight_of_first(list, list.len())
}

/// An entry of `list` with the key `id` that no entry with that key precedes
/// is the place of `id`.
pub proof fn lemma_authority_index(list: AuthoritiesModel, id: Seq<u8>, i: int)
    requires
        0 <= i < list.len(),
        list[i].0 == id,
        forall|j: int| 0 <= j < i ==> (#[trigger] list[j]).0 != id,
    ensures
        is_authority(list, id),
        authority_index(list, id) == i,
{
    let k = authority_index(list, id);
    assert(0 <= k < list.len() && list[k].0 == id);
    if k < i {
        assert(list[k].0 != id);
    }
    if i < k {
        assert(list[i].0 != id);
    }
}

/// A member's place is that of an entry with its key, and no entry before it
/// has that key.
pub proof fn lemma_member_index(list: AuthoritiesModel, id: Seq<u8>)
    requires
        is_authority(list, id),
    ensures
        0 <= authority_index(list, id) < list.len(),
        list[authority_index(list, id)].0 == id,
        forall|j: int| 0 <= j < authority_index(list, id) ==> (#[trigger] list[j]).0 != id,
{
    let w = choose|i: int| 0 <= i < list.len() && (#[trigger] list[i]).0 == id;
    lemma_first_member(list, id, w);
}

/// Before any entry with the key `id` there is a first one.
proof fn lemma_first_member(list: AuthoritiesModel, id: Seq<u8>, w: int)
    requires
        0 <= w < list.len(),
        list[w].0 == id,
    ensures
        0 <= authority_index(list, id) < list.len(),
        list[authority_index(list, id)].0 == id,
        forall|j: int| 0 <= j < authority_index(list, id) ==> (#[trigger] list[j]).0 != id,
    decreases w,
{
    if forall|j: int| 0 <= j < w ==> (#[trigger] list[j]).0 != id {
        lemma_authority_index(list, id, w);
    } else {
        let j = choose|j: int| 0 <= j < w && (#[trigger] list[j]).0 == id;
        lemma_first_member(list, id, j);
    }
}

/// The weights of the first `n` authorities add up to no more than `n` times
/// the largest weight.
pub proof fn lemma_weight_bound(list: AuthoritiesModel, n: nat)
    requires
        n <= list.len(),
    ensures
        weight_of_first(list, n) <= n * 0xffff_ffff_ffff_ffff,
    decreases n,
{
    if n > 0 {
        lemma_weight_bound(list, (n - 1) as nat);
        assert((n - 1) * 0xffff_ffff_ffff_ffff + 0xffff_ffff_ffff_ffff == n
            * 0xffff_ffff_ffff_ffff) by (nonlinear_arith);
    }
}

/// Whether no key occurs twice in `list`.
pub fn list_is_unique(list: &AuthorityList) -> (unique: bool)
    ensures
        unique == ids_unique(authorities_model(list@)),
{
    let ghost model = authorities_model(list@);
    let mut i: usize = 0;
    while i < list.len()
        invariant
            i <= list.len(),
            model == authorities_model(list@),
            forall|a: int, b: int|
                0 <= a < b < i ==> (#[trigger] model[a]).0 != (#[trigger] model[b]).0,
        decreases list.len() - i,
    {
        let mut k: usize = 0;
        while k < i
            invariant
                k <= i < list.len(),
                model == authorities_model(list@),
                forall|a: int| 0 <= a < k ==> (#[trigger] model[a]).0 != model[i as int].0,
            decreases i - k,
        {
            if bytes_eq(list[k].0.as_slice(), list[i].0.as_slice()) {
                assert(model[k as int].0 == model[i as int].0);
                return false;
            }
            k += 1;
        }
        i += 1;
    }
    true
}

/// A set of authorities, unique by key.
#[derive(Clone, Debug, PartialEq, Eq)]
pub struct AuthoritySet {
    authorities: AuthorityList,
}

impl View for AuthoritySet {
    type V = AuthoritiesModel;

    closed spec fn view(&self) -> AuthoritiesModel {
        authorities_model(self.authorities@)
    }
}

impl AuthoritySet {
    /// The set's invariant: no key occurs twice.
    pub open spec fn wf(&self) -> bool {
        ids_unique(self@)
    }

    /// Makes a set of `list`, unless a key occurs twice in it.
    pub fn new(list: AuthorityList) -> (set: Option<AuthoritySet>)
        ensures
            set is Some <==> ids_unique(authorities_model(list@)),
            set is Some ==> set.unwrap()@ == authorities_model(list@) && set.unwrap().wf(),
    {
        if list_is_unique(&list) {
            Some(AuthoritySet { authorities: list })
        } else {
            None
        }
    }

    /// Makes a set of a list that is known to be unique by key.
    pub(crate) fn from_unique(list: AuthorityList) -> (set: AuthoritySet)
        requires
            ids_unique(authorities_model(list@)),
        ensures
            set@ == authorities_model(list@),
            set.wf(),
    {
        AuthoritySet { authorities: list }
    }

    /// The number of authorities.
    pub fn len(&self) -> (n: usize)
        ensures
            n == self@.len(),
    {
        self.authorities.len()
    }

    /// The place of the authority `id` in the set, if it is a member.
    pub fn position(&self, id: &AuthorityId) -> (place: Option<usize>)
        ensures
            place is Some <==> is_authority(self@, id@),
            place is Some ==> place.unwrap() == authority_index(self@, id@) && place.unwrap()
                < self@.len(),
    {
        let mut i: usize = 0;
        while i < self.authorities.len()
            invariant
                i <= self.authorities.len(),
                forall|j: int| 0 <= j < i ==> (#[trigger] self@[j]).0 != id@,
            decreases self.authorities.len() - i,
        {
            if bytes_eq(self.authorities[i].0.as_slice(), id.as_slice()) {
                proof {
                    lemma_authority_index(self@, id@, i as int);
                }
                return Some(i);
            }
            i += 1;
        }
        None
    }

    /// The weight of the authority at `place`.
    pub fn weight_at(&self, place: usize) -> (weight: AuthorityWeight)
        requires
            place < self@.len(),
        ensures
            weight == self@[place as int].1,
    {
        self.authorities[place].1
    }

    /// The sum of the weights of all authorities.
    pub fn total_weight(&self) -> (total: u128)
        ensures
            total == total_weight(self@),
    {
        let mut total: u128 = 0;
        let mut i: usize = 0;
        while i < self.authorities.len()
            invariant
                i <= self.authorities.len(),
                self@.len() == self.authorities.len(),
                total == weight_of_first(self@, i as nat),
            decreases self.authorities.len() - i,
        {
            proof {
                lemma_weight_bound(self@, i as nat);
                assert(i * 0xffff_ffff_ffff_ffff + 0xffff_ffff_ffff_ffff
                    <= 0xffff_ffff_ffff_ffff * 0xffff_ffff_ffff_ffff) by (nonlinear_arith)
                    requires
                        i < 0xffff_ffff_ffff_ffff,
                ;
            }
            total = total + self.authorities[i].1 as u128;
            i += 1;
        }
        total
    }

    /// The authorities with their weights.
    pub fn to_list(&self) -> (list: AuthorityList)
        ensures
            authorities_model(list@) == self@,
    {
        let mut list: AuthorityList = Vec::new();
        let mut i: usize = 0;
        while i < self.authorities.len()
            invariant
                i <= self.authorities.len(),
                list@.len() == i,
                forall|j: int| 0 <= j < i ==> list@[j] == self.authorities@[j],
            decreases self.authorities.len() - i,
        {
            list.push(self.authorities[i]);
            i += 1;
        }
        assert(authorities_model(list@) =~= self@);
        list
    }
}

} // verus!
