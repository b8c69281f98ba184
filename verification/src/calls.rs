//! The calls that accounts make on the pallet, and the queries it offers.
//! A call checks its origin, delegates to the role logic, and reports what it
//! did where the role hooks do not.

use vstd::prelude::*;

use crate::adapter::{ActivityProvider, CommitmentAdapter};
use crate::funding::{spec_drawn_event, spec_funded_event, spec_insert_funder, spec_remove_funder};
use crate::pallet::{emitted, settings_valid, Pallet, Settings};
use crate::perbill::Perbill;
use crate::table::range_under;
use crate::types::{
    AccountId, Asset, Author, AuthorInfo, AuthorStatus, BlockNumber, Digest, Error, Event,
    ForceGenesisConfig, Fortitude, FreezeReason, Funder, FundingTarget, Origin, Precision, Shares,
};

verus! {

/// The account that signed `origin`, or `BadOrigin`.
pub open spec fn spec_signer(origin: Origin) -> Result<AccountId, Error> {
    match origin {
        Origin::Signed(who) => Ok(who),
        _ => Err(Error::BadOrigin),
    }
}

/// The account that signed `origin`, or `BadOrigin`.
pub fn ensure_signed(origin: Origin) -> (r: Result<AccountId, Error>)
    ensures
        r == spec_signer(origin),
{
    match origin {
        Origin::Signed(who) => Ok(who),
        _ => Err(Error::BadOrigin),
    }
}

/// Whether `origin` is the root, or `BadOrigin`.
pub fn ensure_root(origin: Origin) -> (r: Result<(), Error>)
    ensures
        r == (if origin == Origin::Root {
            Ok(())
        } else {
            Err(Error::BadOrigin)
        }),
{
    match origin {
        Origin::Root => Ok(()),
        _ => Err(Error::BadOrigin),
    }
}

/// The settings after governance sets `field`, or why it refuses.
pub open spec fn spec_forced(s: Settings, field: ForceGenesisConfig) -> Result<Settings, Error> {
    match field {
        ForceGenesisConfig::ProbationPeriod(b) => Ok(Settings { probation_period: b, ..s }),
        ForceGenesisConfig::ReduceProbationBy(b) => Ok(Settings { reduce_probation_by: b, ..s }),
        ForceGenesisConfig::IncreaseProbationBy(b) => Ok(Settings { increase_probation_by: b, ..s }),
        ForceGenesisConfig::RewardsBuffer(b) => Ok(Settings { rewards_buffer: b, ..s }),
        ForceGenesisConfig::PenaltiesBuffer(b) => Ok(Settings { penalties_buffer: b, ..s }),
        ForceGenesisConfig::MaxElected(m) => if m == 0 {
            Err(Error::NonZeroConfigRequired)
        } else if m < s.min_elected {
            Err(Error::MinGreaterThanMax)
        } else {
            Ok(Settings { max_elected: m, ..s })
        },
        ForceGenesisConfig::MinElected(m) => if m == 0 {
            Err(Error::NonZeroConfigRequired)
        } else if m > s.max_elected {
            Err(Error::MinGreaterThanMax)
        } else {
            Ok(Settings { min_elected: m, ..s })
        },
        ForceGenesisConfig::EnforceMaxElected(b) => Ok(Settings { force_max_elected: b, ..s }),
        ForceGenesisConfig::MinFund(a) => if a == 0 {
            Err(Error::NonZeroConfigRequired)
        } else if a > s.max_exposure {
            Err(Error::MinGreaterThanMax)
        } else {
            Ok(Settings { min_fund: a, ..s })
        },
        ForceGenesisConfig::MaxExposure(a) => if a < s.min_fund {
            Err(Error::MinGreaterThanMax)
        } else {
            Ok(Settings { max_exposure: a, ..s })
        },
        ForceGenesisConfig::MinCollateral(a) => if a == 0 {
            Err(Error::NonZeroConfigRequired)
        } else {
            Ok(Settings { min_collateral: a, ..s })
        },
    }
}

/// Both the role hooks' report and the call's: exactly one of them.
pub open spec fn reported(emit: bool, e: Event) -> Seq<Event> {
    emitted(emit, e) + emitted(!emit, e)
}

impl Pallet {
    /// The indexes and pools the commitment system lists are not empty.
    pub open spec fn spec_targets_listed<C: CommitmentAdapter>(adapter: &C, via: FundingTarget) -> bool {
        &&& (via matches FundingTarget::Index(i) ==> (adapter.spec_entries_shares(
            FreezeReason::AuthorFunding,
            i,
        ) matches Ok(s) ==> s.len() > 0))
        &&& (via matches FundingTarget::Pool(p) ==> (adapter.spec_slots_shares(
            FreezeReason::AuthorFunding,
            p,
        ) matches Ok(s) ==> s.len() > 0))
    }

    /// The author and funder a call of `caller` through `via` concerns: the
    /// author named, or the author of the first entry (slot) of the index
    /// (pool).
    pub open spec fn spec_target<C: CommitmentAdapter>(
        &self,
        adapter: &C,
        caller: AccountId,
        via: FundingTarget,
    ) -> Result<(Author, Funder), Error> {
        match via {
            FundingTarget::Direct(author) => Ok((author, Funder::Direct(caller))),
            FundingTarget::Index(i) => match adapter.spec_entries_shares(
                FreezeReason::AuthorFunding,
                i,
            ) {
                Err(e) => Err(e),
                Ok(s) => if !self.digests().contains_key(s[0].0) {
                    Err(Error::AuthorDigestNotFound)
                } else {
                    Ok((self.digests()[s[0].0], Funder::Index { digest: i, backer: caller }))
                },
            },
            FundingTarget::Pool(p) => match adapter.spec_slots_shares(
                FreezeReason::AuthorFunding,
                p,
            ) {
                Err(e) => Err(e),
                Ok(s) => if !self.digests().contains_key(s[0].0) {
                    Err(Error::AuthorDigestNotFound)
                } else {
                    Ok((self.digests()[s[0].0], Funder::Pool { digest: p, backer: caller }))
                },
            },
        }
    }

    fn target<C: CommitmentAdapter>(&self, adapter: &C, caller: AccountId, via: FundingTarget) -> (r:
        Result<(Author, Funder), Error>)
        requires
            Self::spec_targets_listed(adapter, via),
        ensures
            r == self.spec_target(adapter, caller, via),
    {
        match via {
            FundingTarget::Direct(author) => Ok((author, Funder::Direct(caller))),
            FundingTarget::Index(i) => {
                let entries = adapter.get_entries_shares(FreezeReason::AuthorFunding, i)?;
                let entry = entries[0].0;
                match self.storage.authors_digest.get(&entry) {
                    Some(a) => Ok((a, Funder::Index { digest: i, backer: caller })),
                    None => Err(Error::AuthorDigestNotFound),
                }
            },
            FundingTarget::Pool(p) => {
                let slots = adapter.get_slots_shares(FreezeReason::AuthorFunding, p)?;
                let slot = slots[0].0;
                match self.storage.authors_digest.get(&slot) {
                    Some(a) => Ok((a, Funder::Pool { digest: p, backer: caller })),
                    None => Err(Error::AuthorDigestNotFound),
                }
            },
        }
    }

    /// Enrols the signer as an author with `collateral`, at least the minimum.
    pub fn enlist<C: CommitmentAdapter>(
        &mut self,
        adapter: &mut C,
        origin: Origin,
        collateral: Asset,
        fortitude: Fortitude,
    ) -> (r: Result<(), Error>)
        requires
            settings_valid(old(self).settings()),
        ensures
            match spec_signer(origin) {
                Err(e) => r == Err::<(), Error>(e) && *final(adapter) == *old(adapter),
                Ok(who) => if collateral < old(self).settings().min_collateral {
                    r == Err::<(), Error>(Error::InadequateCollateral) && *final(adapter) == *old(adapter)
                } else {
                    let (a, res) = old(self).spec_enroll(*old(adapter), who, collateral, fortitude);
                    &&& *final(adapter) == a
                    &&& r == (match res {
                        Ok(_) => Ok(()),
                        Err(e) => Err(e),
                    })
                    &&& res matches Ok(actual) ==> {
                        let info = old(self).spec_enroll_info(&*old(adapter), who).unwrap();
                        &&& final(self).authors() == old(self).authors().insert(who, info)
                        &&& final(self).digests() == old(self).digests().insert(info.digest, who)
                        &&& final(self).same_except(
                            &*old(self),
                            true,
                            true,
                            false,
                            false,
                            false,
                            false,
                        )
                        &&& final(self).events@ == old(self).events@ + emitted(
                            old(self).emit_events,
                            Event::AuthorEnlisted { author: who, collateral },
                        ) + emitted(
                            !old(self).emit_events,
                            Event::AuthorEnlisted { author: who, collateral: actual },
                        )
                    }
                },
            },
            r is Err ==> final(self).unchanged(&*old(self)),
    {
        let caller = ensure_signed(origin)?;
        if collateral < self.storage.settings.min_collateral {
            return Err(Error::InadequateCollateral);
        }
        let actual = self.enroll(adapter, caller, collateral, fortitude)?;
        self.emit_from_call(Event::AuthorEnlisted { author: caller, collateral: actual });
        Ok(())
    }

    /// The signer backs an author, directly or through an index or a pool,
    /// with `value`.
    pub fn back<C: CommitmentAdapter>(
        &mut self,
        adapter: &mut C,
        origin: Origin,
        via: FundingTarget,
        value: Asset,
        fortitude: Fortitude,
        precision: Precision,
    ) -> (r: Result<(), Error>)
        requires
            settings_valid(old(self).settings()),
            Self::spec_targets_listed(&*old(adapter), via),
        ensures
            match spec_signer(origin) {
                Err(e) => r == Err::<(), Error>(e) && *final(adapter) == *old(adapter),
                Ok(caller) => match old(self).spec_target(&*old(adapter), caller, via) {
                    Err(e) => r == Err::<(), Error>(e) && *final(adapter) == *old(adapter),
                    Ok((to, by)) => {
                        let (a, res) = old(self).spec_fund(
                            *old(adapter),
                            to,
                            by,
                            value,
                            precision,
                            fortitude,
                        );
                        &&& *final(adapter) == a
                        &&& r == (match res {
                            Ok(_) => Ok(()),
                            Err(e) => Err(e),
                        })
                        &&& res matches Ok(actual) ==> {
                            &&& final(self).funders() == spec_insert_funder(
                                old(self).funders(),
                                old(self).spec_touched_authors(&*old(adapter), to, by).unwrap(),
                                caller,
                                by,
                            )
                            &&& final(self).same_except(
                                &*old(self),
                                false,
                                false,
                                true,
                                false,
                                false,
                                false,
                            )
                            &&& final(self).events@ == old(self).events@ + reported(
                                old(self).emit_events,
                                spec_funded_event(by, to, actual),
                            )
                        }
                    },
                },
            },
            r is Err ==> final(self).unchanged(&*old(self)),
    {
        let caller = ensure_signed(origin)?;
        let (to, funder) = self.target(adapter, caller, via)?;
        let actual = self.fund(adapter, to, funder, value, precision, fortitude)?;
        let e = match funder {
            Funder::Direct(backer) => Event::AuthorFunded { author: to, backer, amount: actual },
            Funder::Index { digest, backer } => Event::IndexFunded {
                index: digest,
                backer,
                amount: actual,
            },
            Funder::Pool { digest, backer } => Event::PoolFunded {
                pool: digest,
                backer,
                amount: actual,
            },
        };
        self.emit_from_call(e);
        Ok(())
    }

    /// The signer raises its collateral by `collateral`.
    pub fn refill<C: CommitmentAdapter>(
        &mut self,
        adapter: &mut C,
        origin: Origin,
        collateral: Asset,
        fortitude: Fortitude,
    ) -> (r: Result<(), Error>)
        requires
            settings_valid(old(self).settings()),
        ensures
            final(self).same_state(&*old(self)),
            match spec_signer(origin) {
                Err(e) => r == Err::<(), Error>(e) && *final(adapter) == *old(adapter),
                Ok(who) => {
                    let (a, res) = old(self).spec_add_collateral(
                        *old(adapter),
                        who,
                        collateral,
                        fortitude,
                    );
                    &&& *final(adapter) == a
                    &&& r == (match res {
                        Ok(_) => Ok(()),
                        Err(e) => Err(e),
                    })
                    &&& res matches Ok(raised) ==> final(self).events@ == old(self).events@
                        + reported(
                        old(self).emit_events,
                        Event::AuthorCollateralRaised { author: who, raised },
                    )
                },
            },
            r is Err ==> final(self).events@ == old(self).events@,
    {
        let caller = ensure_signed(origin)?;
        let raised = self.add_collateral(adapter, caller, collateral, fortitude)?;
        self.emit_from_call(Event::AuthorCollateralRaised { author: caller, raised });
        Ok(())
    }

    /// The signer, on probation, becomes permanent.
    pub fn confirm<C: CommitmentAdapter, A: ActivityProvider>(
        &mut self,
        adapter: &mut C,
        activity: &A,
        origin: Origin,
    ) -> (r: Result<(), Error>)
        ensures
            *final(adapter) == *old(adapter),
            match spec_signer(origin) {
                Err(e) => r == Err::<(), Error>(e),
                Ok(who) => match old(self).spec_get_meta(who) {
                    Err(e) => r == Err::<(), Error>(e),
                    Ok(m) => {
                        let ev = Event::AuthorStatus { author: who, status: AuthorStatus::Active };
                        match m.status {
                            AuthorStatus::Probation => {
                                &&& r == old(self).spec_can_be_permanent(who)
                                &&& r is Ok ==> {
                                    &&& final(self).authors() == old(self).authors().insert(
                                        who,
                                        AuthorInfo { status: AuthorStatus::Active, ..m },
                                    )
                                    &&& final(self).same_but_authors(&*old(self))
                                    &&& final(self).events@ == old(self).events@ + emitted(
                                        old(self).emit_events,
                                        ev,
                                    ) + reported(old(self).emit_events, ev)
                                }
                            },
                            AuthorStatus::Active => {
                                &&& r == Ok::<(), Error>(())
                                &&& final(self).same_state(&*old(self))
                                &&& final(self).events@ == old(self).events@ + reported(
                                    old(self).emit_events,
                                    ev,
                                )
                            },
                            AuthorStatus::Resigned => r == Err::<(), Error>(Error::AuthorResigned),
                        }
                    },
                },
            },
            r is Err ==> final(self).unchanged(&*old(self)),
    {
        let caller = ensure_signed(origin)?;
        self.set_status(adapter, activity, caller, AuthorStatus::Active)?;
        self.emit_from_call(Event::AuthorStatus { author: caller, status: AuthorStatus::Active });
        Ok(())
    }

    /// The signer draws its backing from an author, directly or through an
    /// index or a pool.
    pub fn exit<C: CommitmentAdapter>(
        &mut self,
        adapter: &mut C,
        origin: Origin,
        from: FundingTarget,
    ) -> (r: Result<(), Error>)
        requires
            Self::spec_targets_listed(&*old(adapter), from),
        ensures
            match spec_signer(origin) {
                Err(e) => r == Err::<(), Error>(e) && *final(adapter) == *old(adapter),
                Ok(caller) => match old(self).spec_target(&*old(adapter), caller, from) {
                    Err(e) => r == Err::<(), Error>(e) && *final(adapter) == *old(adapter),
                    Ok((author, by)) => {
                        let (a, res) = old(self).spec_draw(*old(adapter), author, by);
                        &&& *final(adapter) == a
                        &&& r == (match res {
                            Ok(_) => Ok(()),
                            Err(e) => Err(e),
                        })
                        &&& res matches Ok(actual) ==> {
                            &&& final(self).funders() == spec_remove_funder(
                                old(self).funders(),
                                old(self).spec_touched_authors(&*old(adapter), author, by).unwrap(),
                                caller,
                            )
                            &&& final(self).same_except(
                                &*old(self),
                                false,
                                false,
                                true,
                                false,
                                false,
                                false,
                            )
                            &&& final(self).events@ == old(self).events@ + reported(
                                old(self).emit_events,
                                spec_drawn_event(by, author, actual),
                            )
                        }
                    },
                },
            },
            r is Err ==> final(self).unchanged(&*old(self)),
    {
        let caller = ensure_signed(origin)?;
        let (author, funder) = self.target(adapter, caller, from)?;
        let actual = self.draw(adapter, author, funder)?;
        let e = match funder {
            Funder::Direct(backer) => Event::AuthorDrawn { author, backer, amount: actual },
            Funder::Index { digest, backer } => Event::IndexDrawn {
                index: digest,
                backer,
                amount: actual,
            },
            Funder::Pool { digest, backer } => Event::PoolDrawn {
                pool: digest,
                backer,
                amount: actual,
            },
        };
        self.emit_from_call(e);
        Ok(())
    }

    /// The signer, permanent and idle, resigns.
    pub fn demit<C: CommitmentAdapter, A: ActivityProvider>(
        &mut self,
        adapter: &mut C,
        activity: &A,
        origin: Origin,
    ) -> (r: Result<(), Error>)
        ensures
            match spec_signer(origin) {
                Err(e) => r == Err::<(), Error>(e) && *final(adapter) == *old(adapter),
                Ok(who) => {
                    let (a, res) = old(self).spec_resign(*old(adapter), activity, who);
                    &&& *final(adapter) == a
                    &&& r == (match res {
                        Ok(_) => Ok(()),
                        Err(e) => Err(e),
                    })
                    &&& res matches Ok(v) ==> {
                        &&& final(self).authors() == old(self).authors().insert(
                            who,
                            AuthorInfo { status: AuthorStatus::Resigned, ..old(self).authors()[who] },
                        )
                        &&& final(self).same_but_authors(&*old(self))
                        &&& final(self).events@ == old(self).events@ + reported(
                            old(self).emit_events,
                            Event::AuthorResigned { author: who, released: v },
                        )
                    }
                },
            },
            r is Err ==> final(self).unchanged(&*old(self)),
    {
        let caller = ensure_signed(origin)?;
        let released = self.resign(adapter, activity, caller)?;
        self.emit_from_call(Event::AuthorResigned { author: caller, released });
        Ok(())
    }

    /// The collateral digests of `entries`, in order; the first error where
    /// one cannot be read.
    pub open spec fn spec_entry_digests<C: CommitmentAdapter>(adapter: &C, entries: Seq<(Author, Shares)>) -> Result<
        Seq<(Digest, Shares)>,
        Error,
    >
        decreases entries.len(),
    {
        if entries.len() == 0 {
            Ok(Seq::empty())
        } else {
            match Self::spec_entry_digests(adapter, entries.drop_last()) {
                Err(e) => Err(e),
                Ok(s) => match adapter.spec_commit_digest(
                    entries.last().0,
                    FreezeReason::AuthorCollateral,
                ) {
                    Err(e) => Err(e),
                    Ok(d) => Ok(s.push((d, entries.last().1))),
                },
            }
        }
    }

    fn entry_digests<C: CommitmentAdapter>(adapter: &C, entries: &Vec<(Author, Shares)>) -> (r: Result<
        Vec<(Digest, Shares)>,
        Error,
    >)
        ensures
            crate::adapter::vec_result_is(r, Self::spec_entry_digests(adapter, entries@)),
    {
        let mut out: Vec<(Digest, Shares)> = Vec::new();
        let mut i: usize = 0;
        while i < entries.len()
            invariant
                i <= entries@.len(),
                Self::spec_entry_digests(adapter, entries@.take(i as int)) == Ok::<
                    Seq<(Digest, Shares)>,
                    Error,
                >(out@),
            decreases entries@.len() - i,
        {
            proof {
                assert(entries@.take(i + 1).drop_last() =~= entries@.take(i as int));
            }
            let (author, shares) = entries[i];
            match adapter.get_commit_digest(author, FreezeReason::AuthorCollateral) {
                Ok(d) => out.push((d, shares)),
                Err(e) => {
                    proof {
                        lemma_entry_digests_err(adapter, entries@, i as int + 1, e);
                    }
                    return Err(e);
                },
            }
            i = i + 1;
        }
        proof {
            assert(entries@.take(entries@.len() as int) =~= entries@);
        }
        Ok(out)
    }

    /// Creating an index of `entries` for `caller`: the commitment system's
    /// state after, and the outcome (the index digest and its entries).
    pub open spec fn spec_create_index<C: CommitmentAdapter>(
        adapter: C,
        caller: AccountId,
        entries: Seq<(Author, Shares)>,
    ) -> (C, Result<(Digest, Seq<(Digest, Shares)>), Error>) {
        let f = FreezeReason::AuthorFunding;
        match Self::spec_entry_digests(&adapter, entries) {
            Err(e) => (adapter, Err(e)),
            Ok(ds) => match adapter.spec_prepare_index(caller, f, ds) {
                Err(e) => (adapter, Err(e)),
                Ok(info) => match adapter.spec_gen_index_digest(caller, f, info) {
                    Err(e) => (adapter, Err(e)),
                    Ok(d) => {
                        let (a1, r1) = adapter.spec_set_index(caller, f, info, d);
                        match r1 {
                            Err(e) => (a1, Err(e)),
                            Ok(_) => match a1.spec_entries_shares(f, d) {
                                Err(e) => (a1, Err(e)),
                                Ok(s) => (a1, Ok((d, s))),
                            },
                        }
                    },
                },
            },
        }
    }

    /// The signer creates an index over the authors in `entries`, weighted by
    /// their shares.
    pub fn create_index<C: CommitmentAdapter>(
        &mut self,
        adapter: &mut C,
        origin: Origin,
        entries: Vec<(Author, Shares)>,
    ) -> (r: Result<(), Error>)
        ensures
            final(self).same_state(&*old(self)),
            match spec_signer(origin) {
                Err(e) => r == Err::<(), Error>(e) && *final(adapter) == *old(adapter),
                Ok(caller) => {
                    let (a, res) = Self::spec_create_index(*old(adapter), caller, entries@);
                    &&& *final(adapter) == a
                    &&& r == (match res {
                        Ok(_) => Ok(()),
                        Err(e) => Err(e),
                    })
                    &&& res matches Ok((d, s)) ==> final(self).events@.len() == old(self).events@.len() + 1 && final(self).events@.drop_last() == old(self).events@
                        && spec_reports_index(final(self).events@.last(), d, s)
                },
            },
            r is Err ==> final(self).events@ == old(self).events@,
    {
        let caller = ensure_signed(origin)?;
        let f = FreezeReason::AuthorFunding;
        let digest_entries = Self::entry_digests(adapter, &entries)?;
        let info = adapter.prepare_index(caller, f, &digest_entries)?;
        let index = adapter.gen_index_digest(caller, f, &info)?;
        adapter.set_index(caller, f, &info, index)?;
        let listed = adapter.get_entries_shares(f, index)?;
        let ghost before = self.events@;
        self.deposit_event(Event::IndexCreated { index, entries: listed });
        proof {
            assert(self.events@.drop_last() =~= before);
        }
        Ok(())
    }

    /// Creating a pool over `index` for `caller`: the commitment system's
    /// state after, and the outcome (the pool digest and its slots).
    pub open spec fn spec_create_pool<C: CommitmentAdapter>(
        adapter: C,
        caller: AccountId,
        index: Digest,
        commission: Perbill,
    ) -> (C, Result<(Digest, Seq<(Digest, Shares)>), Error>) {
        let f = FreezeReason::AuthorFunding;
        match adapter.spec_gen_pool_digest(caller, f, index, commission) {
            Err(e) => (adapter, Err(e)),
            Ok(p) => {
                let (a1, r1) = adapter.spec_set_pool(caller, f, p, index, commission);
                match r1 {
                    Err(e) => (a1, Err(e)),
                    Ok(_) => match a1.spec_slots_shares(f, p) {
                        Err(e) => (a1, Err(e)),
                        Ok(s) => (a1, Ok((p, s))),
                    },
                }
            },
        }
    }

    /// The signer creates a pool over `index` with `commission`, managing it.
    pub fn create_pool<C: CommitmentAdapter>(
        &mut self,
        adapter: &mut C,
        origin: Origin,
        index: Digest,
        commission: Perbill,
    ) -> (r: Result<(), Error>)
        ensures
            final(self).same_state(&*old(self)),
            match spec_signer(origin) {
                Err(e) => r == Err::<(), Error>(e) && *final(adapter) == *old(adapter),
                Ok(caller) => {
                    let (a, res) = Self::spec_create_pool(*old(adapter), caller, index, commission);
                    &&& *final(adapter) == a
                    &&& r == (match res {
                        Ok(_) => Ok(()),
                        Err(e) => Err(e),
                    })
                    &&& res matches Ok((p, s)) ==> final(self).events@.len() == old(self).events@.len() + 1 && final(self).events@.drop_last() == old(self).events@
                        && spec_reports_pool(final(self).events@.last(), p, commission, caller, s)
                },
            },
            r is Err ==> final(self).events@ == old(self).events@,
    {
        let caller = ensure_signed(origin)?;
        let f = FreezeReason::AuthorFunding;
        let pool = adapter.gen_pool_digest(caller, f, index, commission)?;
        adapter.set_pool(caller, f, pool, index, commission)?;
        let slots = adapter.get_slots_shares(f, pool)?;
        let ghost before = self.events@;
        self.deposit_event(Event::PoolCreated { pool, commission, manager: caller, slots });
        proof {
            assert(self.events@.drop_last() =~= before);
        }
        Ok(())
    }

    /// The manager of `pool` hands it to `to`.
    pub fn transfer_pool<C: CommitmentAdapter>(
        &mut self,
        adapter: &mut C,
        origin: Origin,
        pool: Digest,
        to: AccountId,
    ) -> (r: Result<(), Error>)
        ensures
            final(self).same_state(&*old(self)),
            match spec_signer(origin) {
                Err(e) => r == Err::<(), Error>(e) && *final(adapter) == *old(adapter),
                Ok(caller) => match old(adapter).spec_manager(FreezeReason::AuthorFunding, pool) {
                    Err(e) => r == Err::<(), Error>(e) && *final(adapter) == *old(adapter),
                    Ok(m) => if m != caller {
                        r == Err::<(), Error>(Error::InvalidPoolManager) && *final(adapter)
                            == *old(adapter)
                    } else {
                        (*final(adapter), r) == old(adapter).spec_set_pool_manager(
                            FreezeReason::AuthorFunding,
                            pool,
                            to,
                        )
                    },
                },
            },
            r is Ok ==> final(self).events@ == old(self).events@.push(
                Event::PoolManager { digest: pool, manager: to },
            ),
            r is Err ==> final(self).events@ == old(self).events@,
    {
        let caller = ensure_signed(origin)?;
        let f = FreezeReason::AuthorFunding;
        let manager = adapter.get_manager(f, pool)?;
        if manager != caller {
            return Err(Error::InvalidPoolManager);
        }
        adapter.set_pool_manager(f, pool, to)?;
        self.deposit_event(Event::PoolManager { digest: pool, manager: to });
        Ok(())
    }

    /// The signer sets the commission of its pool over `index`.
    pub fn update_commission<C: CommitmentAdapter>(
        &mut self,
        adapter: &mut C,
        origin: Origin,
        index: Digest,
        commission: Perbill,
    ) -> (r: Result<(), Error>)
        ensures
            final(self).same_state(&*old(self)),
            match spec_signer(origin) {
                Err(e) => r == Err::<(), Error>(e) && *final(adapter) == *old(adapter),
                Ok(caller) => {
                    let f = FreezeReason::AuthorFunding;
                    let (a1, r1) = old(adapter).spec_set_commission(caller, f, index, commission);
                    match r1 {
                        Err(e) => *final(adapter) == a1 && r == Err::<(), Error>(e),
                        Ok(p) => {
                            &&& *final(adapter) == a1
                            &&& r == (match a1.spec_slots_shares(f, p) {
                                Ok(_) => Ok(()),
                                Err(e) => Err(e),
                            })
                            &&& a1.spec_slots_shares(f, p) matches Ok(s) ==> final(self).events@.len() == old(self).events@.len() + 1 && final(self).events@.drop_last() == old(self).events@ && spec_reports_pool(
                                final(self).events@.last(),
                                p,
                                commission,
                                caller,
                                s,
                            )
                        },
                    }
                },
            },
            r is Err ==> final(self).events@ == old(self).events@,
    {
        let caller = ensure_signed(origin)?;
        let f = FreezeReason::AuthorFunding;
        let pool = adapter.set_commission(caller, f, index, commission)?;
        let slots = adapter.get_slots_shares(f, pool)?;
        let ghost before = self.events@;
        self.deposit_event(Event::PoolCreated { pool, commission, manager: caller, slots });
        proof {
            assert(self.events@.drop_last() =~= before);
        }
        Ok(())
    }

    /// The signer sets the shares of `entry` in its index, giving a new index.
    pub fn update_entry_shares<C: CommitmentAdapter>(
        &mut self,
        adapter: &mut C,
        origin: Origin,
        index: Digest,
        entry: Digest,
        shares: Shares,
    ) -> (r: Result<(), Error>)
        ensures
            final(self).same_state(&*old(self)),
            match spec_signer(origin) {
                Err(e) => r == Err::<(), Error>(e) && *final(adapter) == *old(adapter),
                Ok(caller) => {
                    let f = FreezeReason::AuthorFunding;
                    let (a1, r1) = old(adapter).spec_set_entry_shares(
                        caller,
                        f,
                        index,
                        entry,
                        shares,
                    );
                    match r1 {
                        Err(e) => *final(adapter) == a1 && r == Err::<(), Error>(e),
                        Ok(d) => {
                            &&& *final(adapter) == a1
                            &&& r == (match a1.spec_entries_shares(f, d) {
                                Ok(_) => Ok(()),
                                Err(e) => Err(e),
                            })
                            &&& a1.spec_entries_shares(f, d) matches Ok(s) ==> final(self).events@.len() == old(self).events@.len() + 1 && final(self).events@.drop_last() == old(self).events@ && spec_reports_index(
                                final(self).events@.last(),
                                d,
                                s,
                            )
                        },
                    }
                },
            },
            r is Err ==> final(self).events@ == old(self).events@,
    {
        let caller = ensure_signed(origin)?;
        let f = FreezeReason::AuthorFunding;
        let new_index = adapter.set_entry_shares(caller, f, index, entry, shares)?;
        let listed = adapter.get_entries_shares(f, new_index)?;
        let ghost before = self.events@;
        self.deposit_event(Event::IndexCreated { index: new_index, entries: listed });
        proof {
            assert(self.events@.drop_last() =~= before);
        }
        Ok(())
    }

    /// The manager of `pool` sets the shares of `slot`.
    pub fn update_slot_shares<C: CommitmentAdapter>(
        &mut self,
        adapter: &mut C,
        origin: Origin,
        pool: Digest,
        slot: Digest,
        shares: Shares,
    ) -> (r: Result<(), Error>)
        ensures
            final(self).same_state(&*old(self)),
            match spec_signer(origin) {
                Err(e) => r == Err::<(), Error>(e) && *final(adapter) == *old(adapter),
                Ok(caller) => match old(adapter).spec_manager(FreezeReason::AuthorFunding, pool) {
                    Err(e) => r == Err::<(), Error>(e) && *final(adapter) == *old(adapter),
                    Ok(m) => if m != caller {
                        r == Err::<(), Error>(Error::InvalidPoolManager) && *final(adapter)
                            == *old(adapter)
                    } else {
                        (*final(adapter), r) == old(adapter).spec_set_slot_shares(
                            caller,
                            FreezeReason::AuthorFunding,
                            pool,
                            slot,
                            shares,
                        )
                    },
                },
            },
            r is Ok ==> final(self).events@ == old(self).events@.push(
                Event::PoolSlotShare { pool, slot, shares },
            ),
            r is Err ==> final(self).events@ == old(self).events@,
    {
        let caller = ensure_signed(origin)?;
        let f = FreezeReason::AuthorFunding;
        let manager = adapter.get_manager(f, pool)?;
        if manager != caller {
            return Err(Error::InvalidPoolManager);
        }
        adapter.set_slot_shares(caller, f, pool, slot, shares)?;
        self.deposit_event(Event::PoolSlotShare { pool, slot, shares });
        Ok(())
    }

    /// The collateral of the signer, reported as an event.
    pub fn my_collateral<C: CommitmentAdapter>(&mut self, adapter: &C, origin: Origin) -> (r: Result<
        (),
        Error,
    >)
        ensures
            final(self).same_state(&*old(self)),
            match spec_signer(origin) {
                Err(e) => r == Err::<(), Error>(e),
                Ok(who) => if !old(self).authors().contains_key(who) {
                    r == Err::<(), Error>(Error::AuthorNotFound)
                } else {
                    match adapter.spec_commit_value(who, FreezeReason::AuthorCollateral) {
                        Err(e) => r == Err::<(), Error>(e),
                        Ok(c) => r == Ok::<(), Error>(()) && final(self).events@ == old(self).events@.push(Event::AuthorTotalCollateral { author: who, collateral: c }),
                    }
                },
            },
            r is Err ==> final(self).events@ == old(self).events@,
    {
        let caller = ensure_signed(origin)?;
        self.role_exists(caller)?;
        let collateral = self.get_collateral(adapter, caller)?;
        self.deposit_event(Event::AuthorTotalCollateral { author: caller, collateral });
        Ok(())
    }

    /// What `caller` committed through `from`: its backing of an author, or
    /// its commitment to the index or pool, which must be the one it
    /// committed to.
    pub open spec fn spec_inspect_fund<C: CommitmentAdapter>(
        &self,
        adapter: &C,
        caller: AccountId,
        from: FundingTarget,
    ) -> Result<Asset, Error> {
        let f = FreezeReason::AuthorFunding;
        match from {
            FundingTarget::Direct(author) => self.spec_get_fund(
                adapter,
                author,
                Funder::Direct(caller),
            ),
            FundingTarget::Index(i) => match adapter.spec_commit_digest(caller, f) {
                Err(e) => Err(e),
                Ok(actual) => match adapter.spec_index_exists(f, actual) {
                    Err(e) => Err(e),
                    Ok(_) => if i != actual {
                        Err(Error::FundedToAnotherDigest)
                    } else {
                        adapter.spec_commit_value(caller, f)
                    },
                },
            },
            FundingTarget::Pool(p) => match adapter.spec_commit_digest(caller, f) {
                Err(e) => Err(e),
                Ok(actual) => match adapter.spec_pool_exists(f, actual) {
                    Err(e) => Err(e),
                    Ok(_) => if p != actual {
                        Err(Error::FundedToAnotherDigest)
                    } else {
                        adapter.spec_commit_value(caller, f)
                    },
                },
            },
        }
    }

    /// What `caller` committed through `from`.
    pub fn inspect_fund<C: CommitmentAdapter>(
        &self,
        adapter: &C,
        caller: AccountId,
        from: FundingTarget,
    ) -> (r: Result<Asset, Error>)
        ensures
            r == self.spec_inspect_fund(adapter, caller, from),
    {
        let f = FreezeReason::AuthorFunding;
        match from {
            FundingTarget::Direct(author) => self.get_fund(adapter, author, Funder::Direct(caller)),
            FundingTarget::Index(index) => {
                let actual = adapter.get_commit_digest(caller, f)?;
                adapter.index_exists(f, actual)?;
                if index != actual {
                    return Err(Error::FundedToAnotherDigest);
                }
                adapter.get_commit_value(caller, f)
            },
            FundingTarget::Pool(pool) => {
                let actual = adapter.get_commit_digest(caller, f)?;
                adapter.pool_exists(f, actual)?;
                if pool != actual {
                    return Err(Error::FundedToAnotherDigest);
                }
                adapter.get_commit_value(caller, f)
            },
        }
    }

    /// The event reporting what `caller` committed through `from`.
    pub open spec fn spec_inspect_event(caller: AccountId, from: FundingTarget, amount: Asset) -> Event {
        match from {
            FundingTarget::Direct(author) => Event::InspectAuthorFund {
                author,
                backer: caller,
                amount,
            },
            FundingTarget::Index(i) => Event::InspectIndexFund { index: i, backer: caller, amount },
            FundingTarget::Pool(p) => Event::InspectPoolFund { pool: p, backer: caller, amount },
        }
    }

    /// What the signer committed through `from`, reported as an event.
    pub fn my_fund<C: CommitmentAdapter>(&mut self, adapter: &C, origin: Origin, from: FundingTarget) -> (r:
        Result<(), Error>)
        ensures
            final(self).same_state(&*old(self)),
            match spec_signer(origin) {
                Err(e) => r == Err::<(), Error>(e),
                Ok(caller) => match old(self).spec_inspect_fund(adapter, caller, from) {
                    Err(e) => r == Err::<(), Error>(e),
                    Ok(v) => r == Ok::<(), Error>(()) && final(self).events@ == old(self).events@.push(Self::spec_inspect_event(caller, from, v)),
                },
            },
            r is Err ==> final(self).events@ == old(self).events@,
    {
        let caller = ensure_signed(origin)?;
        let amount = self.inspect_fund(adapter, caller, from)?;
        let e = match from {
            FundingTarget::Direct(author) => Event::InspectAuthorFund {
                author,
                backer: caller,
                amount,
            },
            FundingTarget::Index(index) => Event::InspectIndexFund { index, backer: caller, amount },
            FundingTarget::Pool(pool) => Event::InspectPoolFund { pool, backer: caller, amount },
        };
        self.deposit_event(e);
        Ok(())
    }

    /// The funder `caller` is through `from`.
    pub open spec fn spec_funder_of(caller: AccountId, from: FundingTarget) -> Funder {
        match from {
            FundingTarget::Direct(_) => Funder::Direct(caller),
            FundingTarget::Index(i) => Funder::Index { digest: i, backer: caller },
            FundingTarget::Pool(p) => Funder::Pool { digest: p, backer: caller },
        }
    }

    fn funder_of(caller: AccountId, from: FundingTarget) -> (r: Funder)
        ensures
            r == Self::spec_funder_of(caller, from),
    {
        match from {
            FundingTarget::Direct(_) => Funder::Direct(caller),
            FundingTarget::Index(i) => Funder::Index { digest: i, backer: caller },
            FundingTarget::Pool(p) => Funder::Pool { digest: p, backer: caller },
        }
    }

    /// What `caller`, through `from`, holds in `author`.
    pub fn inspect_author_fund<C: CommitmentAdapter>(
        &self,
        adapter: &C,
        caller: AccountId,
        author: Author,
        from: FundingTarget,
    ) -> (r: Result<Asset, Error>)
        ensures
            r == self.spec_get_fund(adapter, author, Self::spec_funder_of(caller, from)),
    {
        let funder = Self::funder_of(caller, from);
        self.get_fund(adapter, author, funder)
    }

    /// What the signer, through `from`, holds in `author`, reported as an event.
    pub fn my_author_fund<C: CommitmentAdapter>(
        &mut self,
        adapter: &C,
        origin: Origin,
        author: Author,
        from: FundingTarget,
    ) -> (r: Result<(), Error>)
        ensures
            final(self).same_state(&*old(self)),
            match spec_signer(origin) {
                Err(e) => r == Err::<(), Error>(e),
                Ok(caller) => {
                    let funder = Self::spec_funder_of(caller, from);
                    match old(self).spec_get_fund(adapter, author, funder) {
                        Err(e) => r == Err::<(), Error>(e),
                        Ok(v) => r == Ok::<(), Error>(()) && final(self).events@ == old(self).events@.push(Event::InspectFund { author, funder, amount: v }),
                    }
                },
            },
            r is Err ==> final(self).events@ == old(self).events@,
    {
        let caller = ensure_signed(origin)?;
        let funder = Self::funder_of(caller, from);
        let amount = self.get_fund(adapter, author, funder)?;
        self.deposit_event(Event::InspectFund { author, funder, amount });
        Ok(())
    }

    /// The rewards of the signer still to fall due, reported as an event.
    pub fn shed_rewards(&mut self, origin: Origin) -> (r: Result<(), Error>)
        ensures
            final(self).same_state(&*old(self)),
            match spec_signer(origin) {
                Err(e) => r == Err::<(), Error>(e),
                Ok(who) => {
                    &&& r == old(self).spec_has_reward(who)
                    &&& r is Ok ==> final(self).events@.len() == old(self).events@.len() + 1
                        && final(self).events@.drop_last() == old(self).events@
                        && spec_reports_rewards(
                        final(self).events@.last(),
                        who,
                        range_under(
                            old(self).rewards(),
                            who,
                            old(self).open_from() as int,
                            old(self).storage.rewards_until as int,
                        ),
                    )
                },
            },
            r is Err ==> final(self).events@ == old(self).events@,
    {
        let caller = ensure_signed(origin)?;
        self.has_reward(caller)?;
        let rewards = self.get_rewards_of(caller)?;
        let ghost before = self.events@;
        self.deposit_event(Event::ScheduledRewards { author: caller, rewards });
        proof {
            assert(self.events@.drop_last() =~= before);
        }
        Ok(())
    }

    /// The penalties of the signer still to fall due, reported as an event.
    pub fn shed_penalties(&mut self, origin: Origin) -> (r: Result<(), Error>)
        ensures
            final(self).same_state(&*old(self)),
            match spec_signer(origin) {
                Err(e) => r == Err::<(), Error>(e),
                Ok(who) => {
                    &&& r == old(self).spec_has_penalty(who)
                    &&& r is Ok ==> final(self).events@.len() == old(self).events@.len() + 1
                        && final(self).events@.drop_last() == old(self).events@
                        && spec_reports_penalties(
                        final(self).events@.last(),
                        who,
                        range_under(
                            old(self).penalties(),
                            who,
                            old(self).open_from() as int,
                            old(self).storage.penalties_until as int,
                        ),
                    )
                },
            },
            r is Err ==> final(self).events@ == old(self).events@,
    {
        let caller = ensure_signed(origin)?;
        self.has_penalty(caller)?;
        let penalties = self.get_penalties_of(caller)?;
        let ghost before = self.events@;
        self.deposit_event(Event::ScheduledPenalties { author: caller, penalties });
        proof {
            assert(self.events@.drop_last() =~= before);
        }
        Ok(())
    }

    /// Governance sets one field of the configuration, keeping the bounds
    /// non-zero and ordered.
    pub fn force_genesis_config(&mut self, origin: Origin, field: ForceGenesisConfig) -> (r: Result<
        (),
        Error,
    >)
        ensures
            origin != Origin::Root ==> r == Err::<(), Error>(Error::BadOrigin),
            origin == Origin::Root ==> r == (match spec_forced(old(self).settings(), field) {
                Ok(_) => Ok(()),
                Err(e) => Err(e),
            }),
            r is Ok ==> {
                &&& final(self).settings() == spec_forced(old(self).settings(), field).unwrap()
                &&& final(self).storage.authors_map == old(self).storage.authors_map
                &&& final(self).storage.authors_digest == old(self).storage.authors_digest
                &&& final(self).storage.author_funders == old(self).storage.author_funders
                &&& final(self).storage.author_rewards == old(self).storage.author_rewards
                &&& final(self).storage.author_penalties == old(self).storage.author_penalties
                &&& final(self).storage.elected == old(self).storage.elected
                &&& final(self).storage.rewards_until == old(self).storage.rewards_until
                &&& final(self).storage.penalties_until == old(self).storage.penalties_until
                &&& final(self).storage.recent_elected_on == old(self).storage.recent_elected_on
                &&& final(self).block == old(self).block
                &&& final(self).emit_events == old(self).emit_events
                &&& final(self).events@ == old(self).events@.push(
                    Event::GenesisConfigUpdated(field),
                )
            },
            r is Err ==> final(self).unchanged(&*old(self)),
    {
        ensure_root(origin)?;
        let s = self.storage.settings;
        let next = match field {
            ForceGenesisConfig::ProbationPeriod(b) => Settings { probation_period: b, ..s },
            ForceGenesisConfig::ReduceProbationBy(b) => Settings { reduce_probation_by: b, ..s },
            ForceGenesisConfig::IncreaseProbationBy(b) => Settings { increase_probation_by: b, ..s },
            ForceGenesisConfig::RewardsBuffer(b) => Settings { rewards_buffer: b, ..s },
            ForceGenesisConfig::PenaltiesBuffer(b) => Settings { penalties_buffer: b, ..s },
            ForceGenesisConfig::MaxElected(m) => {
                if m == 0 {
                    return Err(Error::NonZeroConfigRequired);
                }
                if m < s.min_elected {
                    return Err(Error::MinGreaterThanMax);
                }
                Settings { max_elected: m, ..s }
            },
            ForceGenesisConfig::MinElected(m) => {
                if m == 0 {
                    return Err(Error::NonZeroConfigRequired);
                }
                if m > s.max_elected {
                    return Err(Error::MinGreaterThanMax);
                }
                Settings { min_elected: m, ..s }
            },
            ForceGenesisConfig::EnforceMaxElected(b) => Settings { force_max_elected: b, ..s },
            ForceGenesisConfig::MinFund(a) => {
                if a == 0 {
                    return Err(Error::NonZeroConfigRequired);
                }
                if a > s.max_exposure {
                    return Err(Error::MinGreaterThanMax);
                }
                Settings { min_fund: a, ..s }
            },
            ForceGenesisConfig::MaxExposure(a) => {
                if a < s.min_fund {
                    return Err(Error::MinGreaterThanMax);
                }
                Settings { max_exposure: a, ..s }
            },
            ForceGenesisConfig::MinCollateral(a) => {
                if a == 0 {
                    return Err(Error::NonZeroConfigRequired);
                }
                Settings { min_collateral: a, ..s }
            },
        };
        self.storage.settings = next;
        self.deposit_event(Event::GenesisConfigUpdated(field));
        Ok(())
    }

    /// The collateral of the author `who`.
    pub fn fetch_collateral<C: CommitmentAdapter>(&self, adapter: &C, who: Author) -> (r: Result<
        Asset,
        Error,
    >)
        ensures
            r == (if !self.authors().contains_key(who) {
                Err(Error::AuthorNotFound)
            } else {
                adapter.spec_commit_value(who, FreezeReason::AuthorCollateral)
            }),
    {
        self.role_exists(who)?;
        self.get_collateral(adapter, who)
    }
}

/// `e` reports an index `d` with `entries`.
pub open spec fn spec_reports_index(e: Event, d: Digest, entries: Seq<(Digest, Shares)>) -> bool {
    match e {
        Event::IndexCreated { index, entries: v } => index == d && v@ == entries,
        _ => false,
    }
}

/// `e` reports a pool `p` with its commission, manager and slots.
pub open spec fn spec_reports_pool(
    e: Event,
    p: Digest,
    commission: Perbill,
    manager: AccountId,
    slots: Seq<(Digest, Shares)>,
) -> bool {
    match e {
        Event::PoolCreated { pool, commission: c, manager: m, slots: v } => pool == p && c
            == commission && m == manager && v@ == slots,
        _ => false,
    }
}

/// `e` reports the rewards of `who`.
pub open spec fn spec_reports_rewards(e: Event, who: Author, rewards: Seq<(BlockNumber, Asset)>) -> bool {
    match e {
        Event::ScheduledRewards { author, rewards: v } => author == who && v@ == rewards,
        _ => false,
    }
}

/// `e` reports the penalties of `who`.
pub open spec fn spec_reports_penalties(
    e: Event,
    who: Author,
    penalties: Seq<(BlockNumber, Perbill)>,
) -> bool {
    match e {
        Event::ScheduledPenalties { author, penalties: v } => author == who && v@ == penalties,
        _ => false,
    }
}

proof fn lemma_entry_digests_err<C: CommitmentAdapter>(
    adapter: &C,
    s: Seq<(Author, Shares)>,
    k: int,
    e: Error,
)
    requires
        1 <= k <= s.len(),
        Pallet::spec_entry_digests(adapter, s.take(k)) == Err::<Seq<(Digest, Shares)>, Error>(e),
    ensures
        Pallet::spec_entry_digests(adapter, s) == Err::<Seq<(Digest, Shares)>, Error>(e),
    decreases s.len() - k,
{
    if k < s.len() {
        assert(s.take(k + 1).drop_last() =~= s.take(k));
        lemma_entry_digests_err(adapter, s, k + 1, e);
    } else {
        assert(s.take(k) =~= s);
    }
}

} // verus!
