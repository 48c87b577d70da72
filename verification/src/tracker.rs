//! The authority set tracker: the current set, its id, and a change that
//! waits for its block.

use vstd::prelude::*;
use crate::authority::{ids_unique, list_is_unique, AuthoritiesModel, AuthoritySet};
use crate::change::{ChangeModel, ScheduledChange};
use crate::error::Error;
use crate::primitives::BlockNumber;

verus! {

/// A change of the authority set that has been announced and not yet
/// enacted.
#[derive(Clone, Debug, PartialEq, Eq)]
pub enum PendingChange {
    /// No change is waiting.
    NoChange,
    /// `set` replaces the current set once a header numbered
    /// `activation_block` or higher is imported.
    Scheduled { set: AuthoritySet, activation_block: u64 },
}

/// The mathematical model of a waiting change.
pub struct PendingModel {
    pub set: AuthoritiesModel,
    pub activation_block: u64,
}

/// The mathematical model of the tracker.
pub struct TrackerModel {
    pub current: AuthoritiesModel,
    pub set_id: u64,
    pub pending: Option<PendingModel>,
}

impl View for PendingChange {
    type V = Option<PendingModel>;

    open spec fn view(&self) -> Option<PendingModel> {
        match self {
            PendingChange::NoChange => None,
            PendingChange::Scheduled { set, activation_block } => Some(
                PendingModel { set: set@, activation_block: *activation_block },
            ),
        }
    }
}

/// The model of a change that may be absent.
pub open spec fn change_model(change: Option<ScheduledChange>) -> Option<ChangeModel> {
    match change {
        Some(c) => Some(c@),
        None => None,
    }
}

impl TrackerModel {
    /// Both sets are unique by key.
    pub open spec fn wf(self) -> bool {
        &&& ids_unique(self.current)
        &&& self.pending is Some ==> ids_unique(self.pending.unwrap().set)
    }

    /// Importing header `number` enacts the waiting change: there is one and
    /// its block has come.
    pub open spec fn enacts_pending(self, number: BlockNumber) -> bool {
        self.pending is Some && number >= self.pending.unwrap().activation_block
    }

    /// Importing header `number`, which announces `change`, schedules that
    /// change: nothing is waiting any more once a due change is enacted.
    /// A change announced while another still waits is ignored.
    pub open spec fn schedules(self, number: BlockNumber, change: Option<ChangeModel>) -> bool {
        change is Some && (self.pending is None || self.enacts_pending(number))
    }

    /// The newly scheduled change takes effect with the very header that
    /// announces it: its delay is zero.
    pub open spec fn enacts_new(self, number: BlockNumber, change: Option<ChangeModel>) -> bool {
        self.schedules(number, change) && change.unwrap().delay == 0
    }

    /// The set id after the import: one more for each set enacted.
    pub open spec fn set_id_after(self, number: BlockNumber, change: Option<ChangeModel>) -> int {
        self.set_id + (if self.enacts_pending(number) {
            1int
        } else {
            0int
        }) + (if self.enacts_new(number, change) {
            1int
        } else {
            0int
        })
    }

    /// The import can be followed: a set to be scheduled is unique by key,
    /// and the set id stays within range.
    pub open spec fn import_allowed(self, number: BlockNumber, change: Option<ChangeModel>) -> bool {
        &&& self.schedules(number, change) ==> ids_unique(change.unwrap().next_authorities)
        &&& self.set_id_after(number, change) <= u64::MAX
    }

    /// The tracker after the import of header `number`, which announces
    /// `change`. First a waiting change whose block has come is enacted;
    /// then, nothing waiting, the announced change is scheduled for block
    /// `number + delay`; then that one is enacted too if its delay is zero.
    pub open spec fn after_import(self, number: BlockNumber, change: Option<ChangeModel>) -> TrackerModel {
        TrackerModel {
            current: if self.enacts_new(number, change) {
                change.unwrap().next_authorities
            } else if self.enacts_pending(number) {
                self.pending.unwrap().set
            } else {
                self.current
            },
            set_id: self.set_id_after(number, change) as u64,
            pending: if self.schedules(number, change) {
                if change.unwrap().delay == 0 {
                    None
                } else {
                    Some(
                        PendingModel {
                            set: change.unwrap().next_authorities,
                            activation_block: (number + change.unwrap().delay) as u64,
                        },
                    )
                }
            } else if self.enacts_pending(number) {
                None
            } else {
                self.pending
            },
        }
    }
}

/// Tracks the authority set that verifies the next justification.
#[derive(Clone, Debug, PartialEq, Eq)]
pub struct AuthoritySetTracker {
    current: AuthoritySet,
    set_id: u64,
    pending: PendingChange,
}

impl View for AuthoritySetTracker {
    type V = TrackerModel;

    closed spec fn view(&self) -> TrackerModel {
        TrackerModel { current: self.current@, set_id: self.set_id, pending: self.pending@ }
    }
}

impl AuthoritySetTracker {
    /// The tracker's invariant.
    pub open spec fn wf(&self) -> bool {
        self@.wf()
    }

    /// A tracker that starts with `set` under the id `set_id`, no change
    /// waiting.
    pub fn new(set: AuthoritySet, set_id: u64) -> (tracker: AuthoritySetTracker)
        requires
            set.wf(),
        ensures
            tracker.wf(),
            tracker@ == (TrackerModel { current: set@, set_id, pending: None }),
    {
        AuthoritySetTracker { current: set, set_id, pending: PendingChange::NoChange }
    }

    /// The current authority set.
    pub fn current(&self) -> (set: &AuthoritySet)
        ensures
            set@ == self@.current,
    {
        &self.current
    }

    /// The id of the current authority set.
    pub fn set_id(&self) -> (id: u64)
        ensures
            id == self@.set_id,
    {
        self.set_id
    }

    /// The change that waits, if any.
    pub fn pending(&self) -> (pending: &PendingChange)
        ensures
            pending@ == self@.pending,
    {
        &self.pending
    }

    /// Holds the set id that a justification claims against the current one.
    pub fn check_set_id(&self, claimed: u64) -> (result: Result<(), Error>)
        ensures
            result == (if claimed == self@.set_id {
                Ok::<(), Error>(())
            } else {
                Err::<(), Error>(Error::InvalidAuthoritySetId)
            }),
    {
        if claimed == self.set_id {
            Ok(())
        } else {
            Err(Error::InvalidAuthoritySetId)
        }
    }

    /// Whether `apply_import` would follow the import of header `number`
    /// that announces `change`.
    pub fn allows_import(&self, number: BlockNumber, change: &Option<ScheduledChange>) -> (ok: bool)
        ensures
            ok == self@.import_allowed(number, change_model(*change)),
    {
        let has_pending = match &self.pending {
            PendingChange::NoChange => false,
            PendingChange::Scheduled { .. } => true,
        };
        let enacts_pending = match &self.pending {
            PendingChange::NoChange => false,
            PendingChange::Scheduled { set: _, activation_block } => number as u64
                >= *activation_block,
        };
        let mut steps: u64 = if enacts_pending {
            1
        } else {
            0
        };
        match change {
            Some(c) => {
                if !has_pending || enacts_pending {
                    if !list_is_unique(&c.next_authorities) {
                        return false;
                    }
                    if c.delay == 0 {
                        steps = steps + 1;
                    }
                }
            },
            None => {},
        }
        self.set_id <= u64::MAX - steps
    }

    /// Follows the import of header `number`, which announces `change`.
    /// Fails, changing nothing, where the import is not allowed.
    pub fn apply_import(&mut self, number: BlockNumber, change: Option<ScheduledChange>) -> (result:
        Result<(), Error>)
        requires
            old(self).wf(),
        ensures
            final(self).wf(),
            match result {
                Ok(()) => old(self)@.import_allowed(number, change_model(change))
                    && final(self)@ == old(self)@.after_import(number, change_model(change)),
                Err(e) => e == Error::InvalidAuthoritySet && !old(self)@.import_allowed(
                    number,
                    change_model(change),
                ) && *final(self) == *old(self),
            },
    {
        if !self.allows_import(number, &change) {
            return Err(Error::InvalidAuthoritySet);
        }
        let enacts_pending = match &self.pending {
            PendingChange::NoChange => false,
            PendingChange::Scheduled { set: _, activation_block } => number as u64
                >= *activation_block,
        };
        if enacts_pending {
            let mut due = PendingChange::NoChange;
            core::mem::swap(&mut self.pending, &mut due);
            match due {
                PendingChange::Scheduled { set, activation_block: _ } => {
                    self.current = set;
                    self.set_id = self.set_id + 1;
                },
                PendingChange::NoChange => {},
            }
        }
        let nothing_waits = match &self.pending {
            PendingChange::NoChange => true,
            PendingChange::Scheduled { .. } => false,
        };
        if nothing_waits {
            match change {
                Some(c) => {
                    let delay = c.delay;
                    let set = AuthoritySet::from_unique(c.next_authorities);
                    if delay == 0 {
                        self.current = set;
                        self.set_id = self.set_id + 1;
                    } else {
                        self.pending = PendingChange::Scheduled {
                            set,
                            activation_block: number as u64 + delay as u64,
                        };
                    }
                },
                None => {},
            }
        }
        Ok(())
    }
}

} // verus!
