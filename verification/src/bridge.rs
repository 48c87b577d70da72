//! The header import state machine: bootstrap once, then import headers
//! that a justification proves final, one after the other.

use vstd::prelude::*;
use crate::ancestry::TargetModel;
use crate::authority::{authorities_model, ids_unique, AuthoritiesModel, AuthorityList, AuthoritySet};
use crate::change::{find_scheduled_change, header_change};
use crate::error::Error;
use crate::header::Header;
use crate::imported::{window_push, ImportedHeader, ImportedHeaders, ImportedModel};
use crate::justification::{justification_verdict, verify_justification, GrandpaJustification};
use crate::primitives::{Config, HeaderId, OperatingMode, H256};
use crate::tracker::{change_model, AuthoritySetTracker, TrackerModel};

verus! {

/// The mathematical model of a bootstrapped bridge's knowledge of the chain.
pub struct ChainModel {
    /// The best finalized header.
    pub best_finalized: TargetModel,
    /// The authority set tracker.
    pub tracker: TrackerModel,
    /// The retention window, oldest record first.
    pub imported: Seq<ImportedModel>,
}

/// The mathematical model of the bridge.
pub struct BridgeModel {
    pub config: Config,
    pub mode: OperatingMode,
    /// What the bridge knows of the chain; `None` before the bootstrap.
    pub chain: Option<ChainModel>,
}

/// The record under which `header` is remembered.
pub open spec fn record_of(header: Header, authority_set_id: u64) -> ImportedModel {
    ImportedModel { header, hash: header.hash_spec(), authority_set_id }
}

/// The identity of `header`.
pub open spec fn id_of(header: Header) -> TargetModel {
    TargetModel { hash: header.hash_spec(), number: header.number }
}

impl ChainModel {
    /// The invariant of a bootstrapped bridge: the window is not empty and
    /// within its capacity, every record carries its header's hash, the
    /// numbers in the window rise strictly, and the newest record is the
    /// best finalized header.
    pub open spec fn wf(self, config: Config) -> bool {
        &&& self.tracker.wf()
        &&& 1 <= self.imported.len() <= config.headers_to_keep
        &&& self.imported.last().hash == self.best_finalized.hash
        &&& self.imported.last().header.number == self.best_finalized.number
        &&& forall|i: int|
            0 <= i < self.imported.len() ==> (#[trigger] self.imported[i]).hash
                == self.imported[i].header.hash_spec()
        &&& forall|i: int, j: int|
            0 <= i < j < self.imported.len() ==> (#[trigger] self.imported[i]).header.number < (
            #[trigger] self.imported[j]).header.number
    }

    /// The verdict on the submission of `header` with `justification`. The
    /// checks, in the order in which a failure is reported: the number is
    /// above the best finalized one; the justification claims the current
    /// set id; the justification verifies under the current authorities; the
    /// tracker can follow the import.
    pub open spec fn import_verdict(
        self,
        config: Config,
        header: Header,
        justification: GrandpaJustification,
    ) -> Result<(), Error> {
        if header.number <= self.best_finalized.number {
            Err(Error::InvalidNumber)
        } else if justification.set_id != self.tracker.set_id {
            Err(Error::InvalidAuthoritySetId)
        } else {
            match justification_verdict(config, header, self.tracker.current, justification) {
                Err(e) => Err(e),
                Ok(()) => if self.tracker.import_allowed(header.number, header_change(header)) {
                    Ok(())
                } else {
                    Err(Error::InvalidAuthoritySet)
                },
            }
        }
    }

    /// The chain after the import of `header`.
    pub open spec fn after_import(self, config: Config, header: Header) -> ChainModel {
        ChainModel {
            best_finalized: id_of(header),
            tracker: self.tracker.after_import(header.number, header_change(header)),
            imported: window_push(
                self.imported,
                config.headers_to_keep as nat,
                record_of(header, self.tracker.set_id),
            ),
        }
    }
}

impl BridgeModel {
    /// The invariant of the bridge.
    pub open spec fn wf(self) -> bool {
        &&& self.config.headers_to_keep >= 1
        &&& self.chain is Some ==> self.chain.unwrap().wf(self.config)
    }

    /// The verdict on a bootstrap with the authorities `authorities`.
    pub open spec fn initialize_verdict(self, authorities: AuthoritiesModel) -> Result<(), Error> {
        if self.chain is Some {
            Err(Error::AlreadyInitialized)
        } else if !ids_unique(authorities) {
            Err(Error::InvalidAuthoritySet)
        } else {
            Ok(())
        }
    }

    /// The bridge after a bootstrap: unchanged if refused, else it knows
    /// `header` as the best finalized one and `authorities` as the current
    /// set under the id `set_id`, and works in the mode `mode`.
    pub open spec fn after_initialize(
        self,
        header: Header,
        authorities: AuthoritiesModel,
        set_id: u64,
        mode: OperatingMode,
    ) -> BridgeModel {
        if self.initialize_verdict(authorities) is Ok {
            BridgeModel {
                config: self.config,
                mode,
                chain: Some(
                    ChainModel {
                        best_finalized: id_of(header),
                        tracker: TrackerModel { current: authorities, set_id, pending: None },
                        imported: seq![record_of(header, set_id)],
                    },
                ),
            }
        } else {
            self
        }
    }

    /// The verdict on the submission of `header` with `justification`: a
    /// halted bridge refuses everything, one that was never bootstrapped
    /// too; else the chain decides.
    pub open spec fn submit_verdict(self, header: Header, justification: GrandpaJustification) -> Result<
        (),
        Error,
    > {
        if self.mode != OperatingMode::Normal {
            Err(Error::Halted)
        } else if self.chain is None {
            Err(Error::NotInitialized)
        } else {
            self.chain.unwrap().import_verdict(self.config, header, justification)
        }
    }

    /// The bridge after the submission: unchanged if refused, else with
    /// `header` imported.
    pub open spec fn after_submit(self, header: Header, justification: GrandpaJustification) -> BridgeModel {
        if self.submit_verdict(header, justification) is Ok {
            BridgeModel {
                config: self.config,
                mode: self.mode,
                chain: Some(self.chain.unwrap().after_import(self.config, header)),
            }
        } else {
            self
        }
    }

    /// The bridge with the operating mode `mode`.
    pub open spec fn with_mode(self, mode: OperatingMode) -> BridgeModel {
        BridgeModel { config: self.config, mode, chain: self.chain }
    }
}

/// What a bootstrapped bridge knows of the chain.
#[derive(Clone, Debug, PartialEq, Eq)]
struct ChainState {
    best_finalized: HeaderId,
    tracker: AuthoritySetTracker,
    imported: ImportedHeaders,
}

/// The bridge: its limits, its operating mode, and what it knows of the
/// chain once it is bootstrapped.
#[derive(Clone, Debug, PartialEq, Eq)]
pub struct Bridge {
    config: Config,
    mode: OperatingMode,
    chain: Option<ChainState>,
}

impl View for ChainState {
    type V = ChainModel;

    closed spec fn view(&self) -> ChainModel {
        ChainModel {
            best_finalized: self.best_finalized@,
            tracker: self.tracker@,
            imported: self.imported@,
        }
    }
}

impl ChainState {
    spec fn wf(&self, config: Config) -> bool {
        &&& self@.wf(config)
        &&& self.tracker.wf()
        &&& self.imported.wf()
        &&& self.imported.capacity_spec() == config.headers_to_keep
    }

    /// Imports `header` if `justification` proves it final; changes nothing
    /// otherwise.
    fn import(&mut self, config: &Config, header: Header, justification: GrandpaJustification) -> (result:
        Result<(), Error>)
        requires
            old(self).wf(*config),
            config.headers_to_keep >= 1,
        ensures
            final(self).wf(*config),
            result == old(self)@.import_verdict(*config, header, justification),
            result is Ok ==> final(self)@ == old(self)@.after_import(*config, header),
            result is Err ==> *final(self) == *old(self),
    {
        if header.number <= self.best_finalized.number {
            return Err(Error::InvalidNumber);
        }
        match self.tracker.check_set_id(justification.set_id) {
            Err(e) => {
                return Err(e);
            },
            Ok(()) => {},
        }
        match verify_justification(config, &header, self.tracker.current(), &justification) {
            Err(e) => {
                return Err(e);
            },
            Ok(()) => {},
        }
        let change = find_scheduled_change(&header);
        assert(change_model(change) == header_change(header));
        let id = header.id();
        let authority_set_id = self.tracker.set_id();
        match self.tracker.apply_import(header.number, change) {
            Err(e) => {
                return Err(e);
            },
            Ok(()) => {},
        }
        let ghost window = self.imported@;
        let ghost record = record_of(header, authority_set_id);
        self.best_finalized = id;
        self.imported.insert(ImportedHeader { header, hash: id.hash, authority_set_id });
        proof {
            let after = self.imported@;
            assert(after == window_push(window, config.headers_to_keep as nat, record));
            assert(after.last() == record);
            assert forall|i: int, j: int| 0 <= i < j < after.len() implies (
            #[trigger] after[i]).header.number < (#[trigger] after[j]).header.number by {
                if window.len() < config.headers_to_keep {
                    if j < window.len() {
                        assert(after[i] == window[i] && after[j] == window[j]);
                    } else {
                        assert(after[i] == window[i]);
                        assert(window[i].header.number <= window.last().header.number);
                    }
                } else {
                    if j < after.len() - 1 {
                        assert(after[i] == window[i + 1] && after[j] == window[j + 1]);
                    } else {
                        assert(after[i] == window[i + 1]);
                        assert(window[i + 1].header.number <= window.last().header.number);
                    }
                }
            }
            assert forall|i: int| 0 <= i < after.len() implies (#[trigger] after[i]).hash
                == after[i].header.hash_spec() by {
                if window.len() < config.headers_to_keep {
                    if i < window.len() {
                        assert(after[i] == window[i]);
                    }
                } else {
                    if i < after.len() - 1 {
                        assert(after[i] == window[i + 1]);
                    }
                }
            }
        }
        Ok(())
    }
}

impl View for Bridge {
    type V = BridgeModel;

    closed spec fn view(&self) -> BridgeModel {
        BridgeModel {
            config: self.config,
            mode: self.mode,
            chain: match self.chain {
                Some(chain) => Some(chain@),
                None => None,
            },
        }
    }
}

impl Bridge {
    /// The bridge's invariant. It implies that of its model.
    pub closed spec fn wf(&self) -> bool {
        &&& self@.wf()
        &&& self.chain is Some ==> self.chain.unwrap().wf(self.config)
    }

    /// A well-formed bridge has a well-formed model.
    pub proof fn lemma_wf_model(&self)
        requires
            self.wf(),
        ensures
            self@.wf(),
    {
    }

    /// A bridge with the limits `config`, in normal mode and not yet
    /// bootstrapped; `None` if it were to remember no header at all.
    pub fn new(config: Config) -> (bridge: Option<Bridge>)
        ensures
            bridge is Some <==> config.headers_to_keep >= 1,
            bridge is Some ==> bridge.unwrap().wf() && bridge.unwrap()@ == (BridgeModel {
                config,
                mode: OperatingMode::Normal,
                chain: None,
            }),
    {
        if config.headers_to_keep == 0 {
            None
        } else {
            Some(Bridge { config, mode: OperatingMode::Normal, chain: None })
        }
    }

    /// Bootstraps the bridge: `header` becomes the best finalized header,
    /// `authority_list` the current authority set under the id `set_id`, and
    /// `operating_mode` the mode. Refused if the bridge is bootstrapped
    /// already, or if an authority occurs twice in the list.
    pub fn initialize(
        &mut self,
        header: Header,
        authority_list: AuthorityList,
        set_id: u64,
        operating_mode: OperatingMode,
    ) -> (result: Result<(), Error>)
        requires
            old(self).wf(),
        ensures
            final(self).wf(),
            result == old(self)@.initialize_verdict(authorities_model(authority_list@)),
            final(self)@ == old(self)@.after_initialize(
                header,
                authorities_model(authority_list@),
                set_id,
                operating_mode,
            ),
            result is Err ==> *final(self) == *old(self),
    {
        if self.chain.is_some() {
            return Err(Error::AlreadyInitialized);
        }
        let set = match AuthoritySet::new(authority_list) {
            Some(set) => set,
            None => {
                return Err(Error::InvalidAuthoritySet);
            },
        };
        let id = header.id();
        let mut imported = ImportedHeaders::new(self.config.headers_to_keep as usize).unwrap();
        imported.insert(ImportedHeader { header, hash: id.hash, authority_set_id: set_id });
        let chain = ChainState {
            best_finalized: id,
            tracker: AuthoritySetTracker::new(set, set_id),
            imported,
        };
        assert(chain@.imported =~= seq![record_of(header, set_id)]);
        self.chain = Some(chain);
        self.mode = operating_mode;
        Ok(())
    }

    /// Imports `header` as the new best finalized header if `justification`
    /// proves it final. A refused submission changes nothing. An accepted
    /// one leaves the operating mode and the limits as they were.
    pub fn submit_finality_proof(&mut self, header: Header, justification: GrandpaJustification) -> (result:
        Result<(), Error>)
        requires
            old(self).wf(),
        ensures
            final(self).wf(),
            result == old(self)@.submit_verdict(header, justification),
            final(self)@ == old(self)@.after_submit(header, justification),
            result is Err ==> *final(self) == *old(self),
            result is Ok ==> header.number > old(self)@.chain.unwrap().best_finalized.number
                && final(self)@.chain.unwrap().best_finalized == id_of(header),
    {
        match self.mode {
            OperatingMode::Normal => {},
            OperatingMode::Halted => {
                return Err(Error::Halted);
            },
        }
        let mut chain = match self.chain.take() {
            Some(chain) => chain,
            None => {
                return Err(Error::NotInitialized);
            },
        };
        let result = chain.import(&self.config, header, justification);
        self.chain = Some(chain);
        result
    }

    /// The best finalized header; `None` before the bootstrap.
    pub fn best_finalized(&self) -> (best: Option<HeaderId>)
        ensures
            match best {
                Some(id) => self@.chain is Some && id@ == self@.chain.unwrap().best_finalized,
                None => self@.chain is None,
            },
    {
        match &self.chain {
            Some(chain) => Some(chain.best_finalized),
            None => None,
        }
    }

    /// The operating mode.
    pub fn operating_mode(&self) -> (mode: OperatingMode)
        ensures
            mode == self@.mode,
    {
        self.mode
    }

    /// Sets the operating mode, and nothing else.
    pub fn set_operating_mode(&mut self, mode: OperatingMode)
        requires
            old(self).wf(),
        ensures
            final(self).wf(),
            final(self)@ == old(self)@.with_mode(mode),
    {
        self.mode = mode;
    }

    /// Halts the bridge: every finality proof is refused until `resume`.
    pub fn halt(&mut self)
        requires
            old(self).wf(),
        ensures
            final(self).wf(),
            final(self)@ == old(self)@.with_mode(OperatingMode::Halted),
    {
        self.set_operating_mode(OperatingMode::Halted);
    }

    /// Lets the bridge accept finality proofs again.
    pub fn resume(&mut self)
        requires
            old(self).wf(),
        ensures
            final(self).wf(),
            final(self)@ == old(self)@.with_mode(OperatingMode::Normal),
    {
        self.set_operating_mode(OperatingMode::Normal);
    }

    /// The limits the bridge was set up with.
    pub fn config(&self) -> (config: Config)
        ensures
            config == self@.config,
    {
        self.config
    }

    /// The id of the current authority set; `None` before the bootstrap.
    pub fn authority_set_id(&self) -> (id: Option<u64>)
        ensures
            match id {
                Some(id) => self@.chain is Some && id == self@.chain.unwrap().tracker.set_id,
                None => self@.chain is None,
            },
    {
        match &self.chain {
            Some(chain) => Some(chain.tracker.set_id()),
            None => None,
        }
    }

    /// The current authorities with their weights; `None` before the
    /// bootstrap.
    pub fn authorities(&self) -> (list: Option<AuthorityList>)
        ensures
            match list {
                Some(list) => self@.chain is Some && authorities_model(list@)
                    == self@.chain.unwrap().tracker.current,
                None => self@.chain is None,
            },
    {
        match &self.chain {
            Some(chain) => Some(chain.tracker.current().to_list()),
            None => None,
        }
    }

    /// The number of headers in the retention window.
    pub fn imported_count(&self) -> (n: usize)
        ensures
            n == match self@.chain {
                Some(chain) => chain.imported.len(),
                None => 0,
            },
    {
        match &self.chain {
            Some(chain) => chain.imported.len(),
            None => 0,
        }
    }

    /// What the bridge remembers of the header with the hash `hash`, if it is
    /// in the retention window.
    pub fn imported_header(&self, hash: &H256) -> (record: Option<&ImportedHeader>)
        requires
            self.wf(),
        ensures
            match record {
                Some(record) => self@.chain is Some && record.hash@ == hash@
                    && self@.chain.unwrap().imported.contains(record@),
                None => self@.chain is None || forall|i: int|
                    0 <= i < self@.chain.unwrap().imported.len() ==> (
                    #[trigger] self@.chain.unwrap().imported[i]).hash != hash@,
            },
    {
        match &self.chain {
            Some(chain) => match chain.imported.position_of(hash) {
                Some(place) => Some(chain.imported.get(place)),
                None => None,
            },
            None => None,
        }
    }

    /// Whether the header with the hash `hash` is in the retention window.
    pub fn is_imported(&self, hash: &H256) -> (yes: bool)
        requires
            self.wf(),
        ensures
            yes == (self@.chain is Some && exists|i: int|
                0 <= i < self@.chain.unwrap().imported.len() && (
                #[trigger] self@.chain.unwrap().imported[i]).hash == hash@),
    {
        match &self.chain {
            Some(chain) => chain.imported.position_of(hash).is_some(),
            None => false,
        }
    }
}

} // verus!
