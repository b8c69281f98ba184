//! What the runtime supplies to the pallet: the commitment system that freezes
//! collateral and backing, the activity provider that tells whether an author
//! is idle, and the model that turns a hold into election influence.
//!
//! These are implemented by the runtime that uses the pallet. Each operation is
//! stated as a function of the implementor's state and the operation's
//! arguments (`spec_*`): a read gives that function's value, a write moves to
//! the state, and gives the result, that it names. The pallet's contracts are
//! stated over these functions, whatever they are.

use vstd::prelude::*;

use crate::perbill::Perbill;
use crate::types::{AccountId, Asset, Author, Digest, Directive, Error, FreezeReason, Limits, Shares};

verus! {

/// An `Ok` vector that holds exactly the `Ok` sequence, or the same error.
pub open spec fn vec_result_is<A>(r: Result<Vec<A>, Error>, s: Result<Seq<A>, Error>) -> bool {
    match (r, s) {
        (Ok(v), Ok(q)) => v@ == q,
        (Err(e), Err(f)) => e == f,
        _ => false,
    }
}

/// The commitment system: it freezes an account's assets under a reason and
/// towards a digest (an author's, an index's or a pool's), and keeps indexes
/// (weighted lists of author digests) and pools (managed indexes).
pub trait CommitmentAdapter: Sized {
    /// An index prepared from entries, before it is given a digest.
    type IndexInfo;

    spec fn spec_available_funds(&self, who: AccountId) -> Asset;

    /// What `who` could commit.
    fn available_funds(&self, who: AccountId) -> (r: Asset)
        ensures
            r == self.spec_available_funds(who),
    ;

    spec fn spec_gen_digest(&self, who: AccountId) -> Result<Digest, Error>;

    /// The digest under which `who`'s own commitments are kept.
    fn gen_digest(&self, who: AccountId) -> (r: Result<Digest, Error>)
        ensures
            r == self.spec_gen_digest(who),
    ;

    spec fn spec_commit_exists(&self, who: AccountId, reason: FreezeReason) -> Result<(), Error>;

    /// Whether `who` holds a commitment for `reason`.
    fn commit_exists(&self, who: AccountId, reason: FreezeReason) -> (r: Result<(), Error>)
        ensures
            r == self.spec_commit_exists(who, reason),
    ;

    spec fn spec_commit_digest(&self, who: AccountId, reason: FreezeReason) -> Result<
        Digest,
        Error,
    >;

    /// The digest that `who`'s commitment for `reason` is towards.
    fn get_commit_digest(&self, who: AccountId, reason: FreezeReason) -> (r: Result<Digest, Error>)
        ensures
            r == self.spec_commit_digest(who, reason),
    ;

    spec fn spec_commit_value(&self, who: AccountId, reason: FreezeReason) -> Result<Asset, Error>;

    /// The value of `who`'s commitment for `reason`.
    fn get_commit_value(&self, who: AccountId, reason: FreezeReason) -> (r: Result<Asset, Error>)
        ensures
            r == self.spec_commit_value(who, reason),
    ;

    spec fn spec_total_value(&self, reason: FreezeReason) -> Asset;

    /// The value of all commitments for `reason`.
    fn get_total_value(&self, reason: FreezeReason) -> (r: Asset)
        ensures
            r == self.spec_total_value(reason),
    ;

    spec fn spec_digest_value(&self, reason: FreezeReason, digest: Digest) -> Result<Asset, Error>;

    /// The value committed towards `digest` for `reason`.
    fn get_digest_value(&self, reason: FreezeReason, digest: Digest) -> (r: Result<Asset, Error>)
        ensures
            r == self.spec_digest_value(reason, digest),
    ;

    spec fn spec_place_commit_limits(
        &self,
        who: AccountId,
        reason: FreezeReason,
        digest: Digest,
        directive: Directive,
    ) -> Result<Limits, Error>;

    /// The limits of a new commitment of `who` towards `digest`.
    fn place_commit_limits(
        &self,
        who: AccountId,
        reason: FreezeReason,
        digest: Digest,
        directive: Directive,
    ) -> (r: Result<Limits, Error>)
        ensures
            r == self.spec_place_commit_limits(who, reason, digest, directive),
    ;

    spec fn spec_raise_commit_limits(
        &self,
        who: AccountId,
        reason: FreezeReason,
        directive: Directive,
    ) -> Result<Limits, Error>;

    /// The limits of raising `who`'s commitment.
    fn raise_commit_limits(&self, who: AccountId, reason: FreezeReason, directive: Directive) -> (r:
        Result<Limits, Error>)
        ensures
            r == self.spec_raise_commit_limits(who, reason, directive),
    ;

    spec fn spec_entry_exists(&self, reason: FreezeReason, index: Digest, entry: Digest) -> Result<
        (),
        Error,
    >;

    /// Whether the index holds `entry`.
    fn entry_exists(&self, reason: FreezeReason, index: Digest, entry: Digest) -> (r: Result<
        (),
        Error,
    >)
        ensures
            r == self.spec_entry_exists(reason, index, entry),
    ;

    spec fn spec_slot_exists(&self, reason: FreezeReason, pool: Digest, slot: Digest) -> Result<
        (),
        Error,
    >;

    /// Whether the pool holds `slot`.
    fn slot_exists(&self, reason: FreezeReason, pool: Digest, slot: Digest) -> (r: Result<
        (),
        Error,
    >)
        ensures
            r == self.spec_slot_exists(reason, pool, slot),
    ;

    spec fn spec_entries_shares(&self, reason: FreezeReason, index: Digest) -> Result<
        Seq<(Digest, Shares)>,
        Error,
    >;

    /// The entries of an index with their shares.
    fn get_entries_shares(&self, reason: FreezeReason, index: Digest) -> (r: Result<
        Vec<(Digest, Shares)>,
        Error,
    >)
        ensures
            vec_result_is(r, self.spec_entries_shares(reason, index)),
    ;

    spec fn spec_slots_shares(&self, reason: FreezeReason, pool: Digest) -> Result<
        Seq<(Digest, Shares)>,
        Error,
    >;

    /// The slots of a pool with their shares.
    fn get_slots_shares(&self, reason: FreezeReason, pool: Digest) -> (r: Result<
        Vec<(Digest, Shares)>,
        Error,
    >)
        ensures
            vec_result_is(r, self.spec_slots_shares(reason, pool)),
    ;

    spec fn spec_entry_value_for(
        &self,
        backer: AccountId,
        reason: FreezeReason,
        index: Digest,
        entry: Digest,
    ) -> Result<Asset, Error>;

    /// The part of `backer`'s commitment to the index that falls on `entry`.
    fn get_entry_value_for(
        &self,
        backer: AccountId,
        reason: FreezeReason,
        index: Digest,
        entry: Digest,
    ) -> (r: Result<Asset, Error>)
        ensures
            r == self.spec_entry_value_for(backer, reason, index, entry),
    ;

    spec fn spec_slot_value_for(
        &self,
        backer: AccountId,
        reason: FreezeReason,
        pool: Digest,
        slot: Digest,
    ) -> Result<Asset, Error>;

    /// The part of `backer`'s commitment to the pool that falls on `slot`.
    fn get_slot_value_for(
        &self,
        backer: AccountId,
        reason: FreezeReason,
        pool: Digest,
        slot: Digest,
    ) -> (r: Result<Asset, Error>)
        ensures
            r == self.spec_slot_value_for(backer, reason, pool, slot),
    ;

    spec fn spec_entries_value_for(&self, backer: AccountId, reason: FreezeReason, index: Digest) -> Result<
        Seq<(Digest, Asset)>,
        Error,
    >;

    /// How `backer`'s commitment to the index falls on each entry.
    fn get_entries_value_for(&self, backer: AccountId, reason: FreezeReason, index: Digest) -> (r:
        Result<Vec<(Digest, Asset)>, Error>)
        ensures
            vec_result_is(r, self.spec_entries_value_for(backer, reason, index)),
    ;

    spec fn spec_slots_value_for(&self, backer: AccountId, reason: FreezeReason, pool: Digest) -> Result<
        Seq<(Digest, Asset)>,
        Error,
    >;

    /// How `backer`'s commitment to the pool falls on each slot.
    fn get_slots_value_for(&self, backer: AccountId, reason: FreezeReason, pool: Digest) -> (r:
        Result<Vec<(Digest, Asset)>, Error>)
        ensures
            vec_result_is(r, self.spec_slots_value_for(backer, reason, pool)),
    ;

    spec fn spec_index_exists(&self, reason: FreezeReason, index: Digest) -> Result<(), Error>;

    /// Whether an index of that digest exists.
    fn index_exists(&self, reason: FreezeReason, index: Digest) -> (r: Result<(), Error>)
        ensures
            r == self.spec_index_exists(reason, index),
    ;

    spec fn spec_pool_exists(&self, reason: FreezeReason, pool: Digest) -> Result<(), Error>;

    /// Whether a pool of that digest exists.
    fn pool_exists(&self, reason: FreezeReason, pool: Digest) -> (r: Result<(), Error>)
        ensures
            r == self.spec_pool_exists(reason, pool),
    ;

    spec fn spec_manager(&self, reason: FreezeReason, pool: Digest) -> Result<AccountId, Error>;

    /// The manager of a pool.
    fn get_manager(&self, reason: FreezeReason, pool: Digest) -> (r: Result<AccountId, Error>)
        ensures
            r == self.spec_manager(reason, pool),
    ;

    spec fn spec_prepare_index(&self, who: AccountId, reason: FreezeReason, entries: Seq<(Digest, Shares)>) -> Result<Self::IndexInfo, Error>;

    /// An index of the given entries, prepared for `who`.
    fn prepare_index(&self, who: AccountId, reason: FreezeReason, entries: &Vec<(Digest, Shares)>) -> (r:
        Result<Self::IndexInfo, Error>)
        ensures
            r == self.spec_prepare_index(who, reason, entries@),
    ;

    spec fn spec_gen_index_digest(&self, who: AccountId, reason: FreezeReason, info: Self::IndexInfo) -> Result<Digest, Error>;

    /// The digest that a prepared index would have.
    fn gen_index_digest(&self, who: AccountId, reason: FreezeReason, info: &Self::IndexInfo) -> (r:
        Result<Digest, Error>)
        ensures
            r == self.spec_gen_index_digest(who, reason, *info),
    ;

    spec fn spec_gen_pool_digest(
        &self,
        who: AccountId,
        reason: FreezeReason,
        index: Digest,
        commission: Perbill,
    ) -> Result<Digest, Error>;

    /// The digest that a pool over `index` would have.
    fn gen_pool_digest(&self, who: AccountId, reason: FreezeReason, index: Digest, commission: Perbill) -> (r:
        Result<Digest, Error>)
        ensures
            r == self.spec_gen_pool_digest(who, reason, index, commission),
    ;

    spec fn spec_place_commit(
        &self,
        who: AccountId,
        reason: FreezeReason,
        digest: Digest,
        value: Asset,
        directive: Directive,
    ) -> (Self, Result<Asset, Error>);

    /// Commits `value` of `who`'s assets towards `digest`; returns what was committed.
    fn place_commit(
        &mut self,
        who: AccountId,
        reason: FreezeReason,
        digest: Digest,
        value: Asset,
        directive: Directive,
    ) -> (r: Result<Asset, Error>)
        ensures
            (*final(self), r) == old(self).spec_place_commit(who, reason, digest, value, directive),
    ;

    spec fn spec_raise_commit(
        &self,
        who: AccountId,
        reason: FreezeReason,
        value: Asset,
        directive: Directive,
    ) -> (Self, Result<Asset, Error>);

    /// Adds `value` to `who`'s commitment; returns what was added.
    fn raise_commit(&mut self, who: AccountId, reason: FreezeReason, value: Asset, directive: Directive) -> (r:
        Result<Asset, Error>)
        ensures
            (*final(self), r) == old(self).spec_raise_commit(who, reason, value, directive),
    ;

    spec fn spec_resolve_commit(&self, who: AccountId, reason: FreezeReason) -> (Self, Result<
        Asset,
        Error,
    >);

    /// Releases `who`'s commitment; returns what was released.
    fn resolve_commit(&mut self, who: AccountId, reason: FreezeReason) -> (r: Result<Asset, Error>)
        ensures
            (*final(self), r) == old(self).spec_resolve_commit(who, reason),
    ;

    spec fn spec_set_digest_value(
        &self,
        reason: FreezeReason,
        digest: Digest,
        value: Asset,
        directive: Directive,
    ) -> (Self, Result<(), Error>);

    /// Sets the value committed towards `digest`, spreading it over its commitments.
    fn set_digest_value(&mut self, reason: FreezeReason, digest: Digest, value: Asset, directive: Directive) -> (r:
        Result<(), Error>)
        ensures
            (*final(self), r) == old(self).spec_set_digest_value(reason, digest, value, directive),
    ;

    spec fn spec_set_index(&self, who: AccountId, reason: FreezeReason, info: Self::IndexInfo, digest: Digest) -> (
        Self,
        Result<(), Error>,
    );

    /// Records a prepared index under its digest.
    fn set_index(&mut self, who: AccountId, reason: FreezeReason, info: &Self::IndexInfo, digest: Digest) -> (r:
        Result<(), Error>)
        ensures
            (*final(self), r) == old(self).spec_set_index(who, reason, *info, digest),
    ;

    spec fn spec_set_pool(
        &self,
        who: AccountId,
        reason: FreezeReason,
        pool: Digest,
        index: Digest,
        commission: Perbill,
    ) -> (Self, Result<(), Error>);

    /// Creates a pool over `index`, managed by `who`.
    fn set_pool(&mut self, who: AccountId, reason: FreezeReason, pool: Digest, index: Digest, commission: Perbill) -> (r:
        Result<(), Error>)
        ensures
            (*final(self), r) == old(self).spec_set_pool(who, reason, pool, index, commission),
    ;

    spec fn spec_set_pool_manager(&self, reason: FreezeReason, pool: Digest, manager: AccountId) -> (
        Self,
        Result<(), Error>,
    );

    /// Hands a pool to another manager.
    fn set_pool_manager(&mut self, reason: FreezeReason, pool: Digest, manager: AccountId) -> (r:
        Result<(), Error>)
        ensures
            (*final(self), r) == old(self).spec_set_pool_manager(reason, pool, manager),
    ;

    spec fn spec_set_commission(
        &self,
        who: AccountId,
        reason: FreezeReason,
        index: Digest,
        commission: Perbill,
    ) -> (Self, Result<Digest, Error>);

    /// Sets the commission of `who`'s pool over `index`; returns the pool's digest.
    fn set_commission(&mut self, who: AccountId, reason: FreezeReason, index: Digest, commission: Perbill) -> (r:
        Result<Digest, Error>)
        ensures
            (*final(self), r) == old(self).spec_set_commission(who, reason, index, commission),
    ;

    spec fn spec_set_entry_shares(
        &self,
        who: AccountId,
        reason: FreezeReason,
        index: Digest,
        entry: Digest,
        shares: Shares,
    ) -> (Self, Result<Digest, Error>);

    /// Sets an entry's shares, giving a new index; returns its digest.
    fn set_entry_shares(
        &mut self,
        who: AccountId,
        reason: FreezeReason,
        index: Digest,
        entry: Digest,
        shares: Shares,
    ) -> (r: Result<Digest, Error>)
        ensures
            (*final(self), r) == old(self).spec_set_entry_shares(who, reason, index, entry, shares),
    ;

    spec fn spec_set_slot_shares(
        &self,
        who: AccountId,
        reason: FreezeReason,
        pool: Digest,
        slot: Digest,
        shares: Shares,
    ) -> (Self, Result<(), Error>);

    /// Sets a slot's shares in a pool.
    fn set_slot_shares(
        &mut self,
        who: AccountId,
        reason: FreezeReason,
        pool: Digest,
        slot: Digest,
        shares: Shares,
    ) -> (r: Result<(), Error>)
        ensures
            (*final(self), r) == old(self).spec_set_slot_shares(who, reason, pool, slot, shares),
    ;
}

/// Tells whether an author is idle, so that it may resign.
pub trait ActivityProvider {
    spec fn spec_is_idle(&self, who: Author) -> Result<(), Error>;

    fn is_idle(&self, who: Author) -> (r: Result<(), Error>)
        ensures
            r == self.spec_is_idle(who),
    ;
}

/// Turns an author's hold into influence in a flat election.
pub trait InfluenceModel {
    spec fn spec_influence(&self, hold: Asset) -> u128;

    fn influence(&self, hold: Asset) -> (r: u128)
        ensures
            r == self.spec_influence(hold),
    ;
}

} // verus!
