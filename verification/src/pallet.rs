//! The pallet's state: its storage, the current block and the events it has
//! deposited, and the genesis configuration that builds the storage.

use vstd::prelude::*;

use crate::perbill::Perbill;
use crate::table::{KeyPair, Table};
use crate::types::{AccountId, Asset, Author, AuthorInfo, BlockNumber, Digest, Event, Funder};

verus! {

/// The configuration values kept in storage.
#[derive(Clone, Copy, Debug, PartialEq, Eq, Structural)]
pub struct Settings {
    /// The least collateral an author must lock.
    pub min_collateral: Asset,
    /// The most a single funding may commit to an author.
    pub max_exposure: Asset,
    /// The least a single funding must commit.
    pub min_fund: Asset,
    /// How long an author stays on probation before it may become permanent.
    pub probation_period: BlockNumber,
    /// How much a reward shortens an author's risk period.
    pub reduce_probation_by: BlockNumber,
    /// How much a penalty lengthens an author's risk period.
    pub increase_probation_by: BlockNumber,
    /// How many blocks after scheduling a reward is applied.
    pub rewards_buffer: BlockNumber,
    /// How many blocks after scheduling a penalty is applied.
    pub penalties_buffer: BlockNumber,
    /// The most authors an election keeps when that bound is enforced.
    pub max_elected: u32,
    /// The fewest authors an election must elect.
    pub min_elected: u32,
    /// Whether elections are cut to `max_elected`.
    pub force_max_elected: bool,
}

/// The settings are consistent: bounds are non-zero and ordered.
pub open spec fn settings_valid(s: Settings) -> bool {
    &&& s.min_collateral > 0
    &&& s.min_fund > 0
    &&& s.min_fund <= s.max_exposure
    &&& s.min_elected > 0
    &&& s.max_elected > 0
    &&& s.min_elected <= s.max_elected
}

/// The pallet's storage.
pub struct Storage {
    /// Each author's metadata. Keys are never removed.
    pub authors_map: Table<AccountId, AuthorInfo>,
    /// The author of each author digest. Entries are never removed nor changed.
    pub authors_digest: Table<Digest, Author>,
    /// The funders of each author, keyed by `(author, backer)`.
    pub author_funders: Table<KeyPair, Funder>,
    /// Scheduled rewards, keyed by `(block, author)`.
    pub author_rewards: Table<KeyPair, Asset>,
    /// Scheduled penalties, keyed by `(block, author)`.
    pub author_penalties: Table<KeyPair, Perbill>,
    /// Elected authors, keyed by `(block, author)`.
    pub elected: Table<KeyPair, ()>,
    /// The latest block for which a reward was scheduled.
    pub rewards_until: BlockNumber,
    /// The latest block for which a penalty was scheduled.
    pub penalties_until: BlockNumber,
    /// The block of the most recent election.
    pub recent_elected_on: BlockNumber,
    /// The configuration values.
    pub settings: Settings,
}

/// The pallet: its storage, the current block, and its event log.
pub struct Pallet {
    pub storage: Storage,
    /// The current block number.
    pub block: BlockNumber,
    /// Whether the role hooks deposit events (the calls deposit them otherwise).
    pub emit_events: bool,
    /// The events deposited so far.
    pub events: Vec<Event>,
}

/// `e` where events are emitted, nothing otherwise.
pub open spec fn emitted(emit: bool, e: Event) -> Seq<Event> {
    if emit {
        seq![e]
    } else {
        Seq::empty()
    }
}

impl Pallet {
    /// The authors' metadata.
    pub open spec fn authors(&self) -> Map<AccountId, AuthorInfo> {
        self.storage.authors_map@
    }

    /// The authors by digest.
    pub open spec fn digests(&self) -> Map<Digest, Author> {
        self.storage.authors_digest@
    }

    /// The funders, keyed by `(author, backer)`.
    pub open spec fn funders(&self) -> Map<KeyPair, Funder> {
        self.storage.author_funders@
    }

    /// The scheduled rewards, keyed by `(block, author)`.
    pub open spec fn rewards(&self) -> Map<KeyPair, Asset> {
        self.storage.author_rewards@
    }

    /// The scheduled penalties, keyed by `(block, author)`.
    pub open spec fn penalties(&self) -> Map<KeyPair, Perbill> {
        self.storage.author_penalties@
    }

    /// The settings.
    pub open spec fn settings(&self) -> Settings {
        self.storage.settings
    }

    /// The storage, block and flags of `self` and `other` agree, but for the
    /// parts flagged: authors' metadata, digests, funders, rewards (with their
    /// last block), penalties (with their last block), and elections (with
    /// their last block).
    pub open spec fn same_except(
        &self,
        other: &Pallet,
        authors: bool,
        digests: bool,
        funders: bool,
        rewards: bool,
        penalties: bool,
        elected: bool,
    ) -> bool {
        &&& (!authors ==> self.storage.authors_map == other.storage.authors_map)
        &&& (!digests ==> self.storage.authors_digest == other.storage.authors_digest)
        &&& (!funders ==> self.storage.author_funders == other.storage.author_funders)
        &&& (!rewards ==> self.storage.author_rewards == other.storage.author_rewards)
        &&& (!rewards ==> self.storage.rewards_until == other.storage.rewards_until)
        &&& (!penalties ==> self.storage.author_penalties == other.storage.author_penalties)
        &&& (!penalties ==> self.storage.penalties_until == other.storage.penalties_until)
        &&& (!elected ==> self.storage.elected == other.storage.elected)
        &&& (!elected ==> self.storage.recent_elected_on == other.storage.recent_elected_on)
        &&& self.storage.settings == other.storage.settings
        &&& self.block == other.block
        &&& self.emit_events == other.emit_events
    }

    /// Only the authors' metadata may differ between `self` and `other`.
    pub open spec fn same_but_authors(&self, other: &Pallet) -> bool {
        self.same_except(other, true, false, false, false, false, false)
    }

    /// The storage, block and flags are those of `other`; events may differ.
    pub open spec fn same_state(&self, other: &Pallet) -> bool {
        self.same_except(other, false, false, false, false, false, false)
    }

    /// The pallet over `storage`, at block zero, with no events.
    pub fn new(storage: Storage, emit_events: bool) -> (r: Pallet)
        ensures
            r.storage == storage,
            r.block == 0,
            r.emit_events == emit_events,
            r.events@ == Seq::<Event>::empty(),
    {
        Pallet { storage, block: 0, emit_events, events: Vec::new() }
    }

    /// Moves to block `n`.
    pub fn set_block_number(&mut self, n: BlockNumber)
        ensures
            final(self).block == n,
            final(self).storage == old(self).storage,
            final(self).emit_events == old(self).emit_events,
            final(self).events@ == old(self).events@,
    {
        self.block = n;
    }

    /// Appends an event to the log.
    pub fn deposit_event(&mut self, e: Event)
        ensures
            final(self).events@ == old(self).events@.push(e),
            final(self).storage == old(self).storage,
            final(self).block == old(self).block,
            final(self).emit_events == old(self).emit_events,
    {
        self.events.push(e);
    }

    /// Appends an event to the log where the role hooks emit events.
    pub(crate) fn emit(&mut self, e: Event)
        ensures
            final(self).events@ == old(self).events@ + emitted(old(self).emit_events, e),
            final(self).storage == old(self).storage,
            final(self).block == old(self).block,
            final(self).emit_events == old(self).emit_events,
    {
        if self.emit_events {
            self.events.push(e);
        }
    }

    /// Appends an event to the log where the role hooks do not emit events
    /// (the calls then report what they did themselves).
    pub(crate) fn emit_from_call(&mut self, e: Event)
        ensures
            final(self).events@ == old(self).events@ + emitted(!old(self).emit_events, e),
            final(self).storage == old(self).storage,
            final(self).block == old(self).block,
            final(self).emit_events == old(self).emit_events,
    {
        if !self.emit_events {
            self.events.push(e);
        }
    }

    /// The last event deposited, if any.
    pub fn last_event(&self) -> (r: Option<&Event>)
        ensures
            r == (if self.events@.len() == 0 {
                None
            } else {
                Some(&self.events@.last())
            }),
    {
        if self.events.len() == 0 {
            None
        } else {
            Some(&self.events[self.events.len() - 1])
        }
    }
}

/// The genesis configuration.
#[derive(Clone, Copy, Debug, PartialEq, Eq, Structural)]
pub struct GenesisConfig {
    pub min_collateral: Asset,
    pub max_exposure: Asset,
    pub min_fund: Asset,
    pub probation_period: BlockNumber,
    pub reduce_probation_by: BlockNumber,
    pub increase_probation_by: BlockNumber,
    pub rewards_buffer: BlockNumber,
    pub penalties_buffer: BlockNumber,
    pub max_elected: u32,
    pub min_elected: u32,
    pub force_max_elected: bool,
}

impl Default for GenesisConfig {
    fn default() -> (r: GenesisConfig)
        ensures
            r == (GenesisConfig {
                min_collateral: 1,
                max_exposure: u128::MAX,
                min_fund: 1,
                probation_period: 10,
                reduce_probation_by: 1,
                increase_probation_by: 1,
                rewards_buffer: 2,
                penalties_buffer: 4,
                max_elected: 100,
                min_elected: 10,
                force_max_elected: false,
            }),
    {
        GenesisConfig {
            min_collateral: 1,
            max_exposure: u128::MAX,
            min_fund: 1,
            probation_period: 10,
            reduce_probation_by: 1,
            increase_probation_by: 1,
            rewards_buffer: 2,
            penalties_buffer: 4,
            max_elected: 100,
            min_elected: 10,
            force_max_elected: false,
        }
    }
}

impl GenesisConfig {
    /// The genesis configuration is accepted.
    pub open spec fn spec_valid(&self) -> bool {
        &&& self.min_collateral > 0
        &&& self.min_fund > 0
        &&& self.min_elected > 0
        &&& self.max_elected > 0
        &&& self.min_elected <= self.max_elected
        &&& self.min_fund <= self.max_exposure
    }

    /// Whether the genesis configuration is accepted by `build`.
    pub fn is_valid(&self) -> (r: bool)
        ensures
            r == self.spec_valid(),
    {
        self.min_collateral > 0 && self.min_fund > 0 && self.min_elected > 0 && self.max_elected
            > 0 && self.min_elected <= self.max_elected && self.min_fund <= self.max_exposure
    }

    /// The settings this configuration stands for.
    pub open spec fn spec_settings(&self) -> Settings {
        Settings {
            min_collateral: self.min_collateral,
            max_exposure: self.max_exposure,
            min_fund: if self.min_fund >= 1 {
                self.min_fund
            } else {
                1
            },
            probation_period: self.probation_period,
            reduce_probation_by: self.reduce_probation_by,
            increase_probation_by: self.increase_probation_by,
            rewards_buffer: self.rewards_buffer,
            penalties_buffer: self.penalties_buffer,
            max_elected: self.max_elected,
            min_elected: if self.min_elected >= 1 {
                self.min_elected
            } else {
                1
            },
            force_max_elected: self.force_max_elected,
        }
    }

    /// The initial storage: the configured settings, no authors, and all
    /// block markers at zero.
    pub fn build(&self) -> (r: Storage)
        requires
            self.spec_valid(),
        ensures
            r.settings == self.spec_settings(),
            settings_valid(r.settings),
            r.authors_map@ == Map::<AccountId, AuthorInfo>::empty(),
            r.authors_digest@ == Map::<Digest, Author>::empty(),
            r.author_funders@ == Map::<KeyPair, Funder>::empty(),
            r.author_rewards@ == Map::<KeyPair, Asset>::empty(),
            r.author_penalties@ == Map::<KeyPair, Perbill>::empty(),
            r.elected@ == Map::<KeyPair, ()>::empty(),
            r.rewards_until == 0,
            r.penalties_until == 0,
            r.recent_elected_on == 0,
    {
        let settings = Settings {
            min_collateral: self.min_collateral,
            max_exposure: self.max_exposure,
            min_fund: if self.min_fund >= 1 {
                self.min_fund
            } else {
                1
            },
            probation_period: self.probation_period,
            reduce_probation_by: self.reduce_probation_by,
            increase_probation_by: self.increase_probation_by,
            rewards_buffer: self.rewards_buffer,
            penalties_buffer: self.penalties_buffer,
            max_elected: self.max_elected,
            min_elected: if self.min_elected >= 1 {
                self.min_elected
            } else {
                1
            },
            force_max_elected: self.force_max_elected,
        };
        Storage {
            authors_map: Table::new(),
            authors_digest: Table::new(),
            author_funders: Table::new(),
            author_rewards: Table::new(),
            author_penalties: Table::new(),
            elected: Table::new(),
            rewards_until: 0,
            penalties_until: 0,
            recent_elected_on: 0,
            settings,
        }
    }
}

} // verus!
