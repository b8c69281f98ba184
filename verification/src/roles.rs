//! The author's lifecycle: enrolment with collateral, raising collateral,
//! availability, resignation, and status changes.

use vstd::prelude::*;

use crate::adapter::{ActivityProvider, CommitmentAdapter};
use crate::pallet::{emitted, Pallet};
use crate::types::{
    spec_limits_contain, spec_new_info, spec_re_enroll_info, AccountId, Asset, AuthorInfo,
    AuthorStatus, Directive, Error, Event, Fortitude, FreezeReason, Precision,
};

verus! {

impl Pallet {
    /// The collateral of `who`: the value of its collateral commitment.
    pub fn get_collateral<C: CommitmentAdapter>(&self, adapter: &C, who: AccountId) -> (r: Result<
        Asset,
        Error,
    >)
        ensures
            r == adapter.spec_commit_value(who, FreezeReason::AuthorCollateral),
    {
        adapter.get_commit_value(who, FreezeReason::AuthorCollateral)
    }

    /// The collateral of all authors.
    pub fn total_collateral<C: CommitmentAdapter>(&self, adapter: &C) -> (r: Asset)
        ensures
            r == adapter.spec_total_value(FreezeReason::AuthorCollateral),
    {
        adapter.get_total_value(FreezeReason::AuthorCollateral)
    }

    /// Every author's digest leads back to it.
    pub open spec fn spec_digests_lead_back(&self) -> bool {
        forall|a: AccountId| #[trigger]
            self.authors().contains_key(a) ==> self.digests().contains_key(self.authors()[a].digest)
                && self.digests()[self.authors()[a].digest] == a
    }

    /// Whether `who` may enrol with `collateral`: not an author yet, or a
    /// resigned one with no reward still to fall due; with the funds; and
    /// with at least the minimum collateral.
    pub open spec fn spec_can_enroll<C: CommitmentAdapter>(
        &self,
        adapter: &C,
        who: AccountId,
        collateral: Asset,
    ) -> Result<(), Error> {
        let prior: Result<(), Error> = if self.authors().contains_key(who) {
            match self.authors()[who].status {
                AuthorStatus::Resigned => if self.spec_has_reward(who) is Ok {
                    Err(Error::AuthorHasRewards)
                } else {
                    Ok(())
                },
                _ => Err(Error::AlreadyEnrolled),
            }
        } else {
            Ok(())
        };
        match prior {
            Err(e) => Err(e),
            Ok(_) => if adapter.spec_available_funds(who) < collateral {
                Err(Error::InadequateFunds)
            } else if collateral < self.settings().min_collateral {
                Err(Error::InadequateCollateral)
            } else {
                Ok(())
            },
        }
    }

    /// Whether `who` may enrol with `collateral`.
    pub fn can_enroll<C: CommitmentAdapter>(&self, adapter: &C, who: AccountId, collateral: Asset) -> (r:
        Result<(), Error>)
        requires
            self.settings().min_collateral > 0,
        ensures
            r == self.spec_can_enroll(adapter, who, collateral),
    {
        if self.role_exists(who).is_ok() {
            let status = self.get_status(who)?;
            match status {
                AuthorStatus::Resigned => {
                    if self.has_reward(who).is_ok() {
                        return Err(Error::AuthorHasRewards);
                    }
                },
                AuthorStatus::Active | AuthorStatus::Probation => {
                    return Err(Error::AlreadyEnrolled);
                },
            }
        }
        let min_collateral = self.storage.settings.min_collateral;
        let available = adapter.available_funds(who);
        if available < collateral {
            return Err(Error::InadequateFunds);
        }
        if collateral < min_collateral {
            return Err(Error::InadequateCollateral);
        }
        Ok(())
    }

    /// The metadata `who` enrols with: a resigned author's, started over
    /// under its old digest, or a new one under a freshly generated digest.
    pub open spec fn spec_enroll_info<C: CommitmentAdapter>(&self, adapter: &C, who: AccountId) -> Result<
        AuthorInfo,
        Error,
    > {
        if self.authors().contains_key(who) {
            Ok(spec_re_enroll_info(self.authors()[who], self.block))
        } else {
            match adapter.spec_gen_digest(who) {
                Ok(d) => Ok(spec_new_info(d, self.block)),
                Err(_) => Err(Error::CannotGenerateCommitDigest),
            }
        }
    }

    /// Enrolling `who` with `collateral`: the commitment system's state after,
    /// and the outcome. The collateral is committed exactly where the
    /// commitment limits admit it, the minimum collateral otherwise.
    pub open spec fn spec_enroll<C: CommitmentAdapter>(
        &self,
        adapter: C,
        who: AccountId,
        collateral: Asset,
        force: Fortitude,
    ) -> (C, Result<Asset, Error>) {
        match self.spec_can_enroll(&adapter, who, collateral) {
            Err(e) => (adapter, Err(e)),
            Ok(_) => match self.spec_enroll_info(&adapter, who) {
                Err(e) => (adapter, Err(e)),
                Ok(info) => {
                    let d = Directive { precision: Precision::Exact, force };
                    match adapter.spec_place_commit_limits(
                        who,
                        FreezeReason::AuthorCollateral,
                        info.digest,
                        d,
                    ) {
                        Err(e) => (adapter, Err(e)),
                        Ok(l) => {
                            let amount = if spec_limits_contain(l, collateral) {
                                collateral
                            } else {
                                self.settings().min_collateral
                            };
                            adapter.spec_place_commit(
                                who,
                                FreezeReason::AuthorCollateral,
                                info.digest,
                                amount,
                                d,
                            )
                        },
                    }
                },
            },
        }
    }

    /// Enrols `who` with `collateral`; returns the collateral committed.
    pub fn enroll<C: CommitmentAdapter>(
        &mut self,
        adapter: &mut C,
        who: AccountId,
        collateral: Asset,
        force: Fortitude,
    ) -> (r: Result<Asset, Error>)
        requires
            old(self).settings().min_collateral > 0,
        ensures
            (*final(adapter), r) == old(self).spec_enroll(*old(adapter), who, collateral, force),
            r is Ok ==> {
                let info = old(self).spec_enroll_info(&*old(adapter), who).unwrap();
                &&& final(self).authors() == old(self).authors().insert(who, info)
                &&& final(self).digests() == old(self).digests().insert(info.digest, who)
                &&& final(self).same_except(&*old(self), true, true, false, false, false, false)
                &&& final(self).events@ == old(self).events@ + emitted(
                    old(self).emit_events,
                    Event::AuthorEnlisted { author: who, collateral },
                )
                &&& old(self).authors().dom().subset_of(final(self).authors().dom())
                &&& old(self).spec_digests_lead_back() && (!old(self).authors().contains_key(who)
                    ==> !old(self).digests().contains_key(info.digest)) ==> {
                    &&& final(self).spec_digests_lead_back()
                    &&& forall|d: u64| #[trigger]
                        old(self).digests().contains_key(d) ==> final(self).digests().contains_key(d)
                            && final(self).digests()[d] == old(self).digests()[d]
                }
            },
            r is Err ==> final(self).unchanged(&*old(self)),
    {
        self.can_enroll(adapter, who, collateral)?;
        let info = if self.storage.authors_map.contains_key(&who) {
            let meta = self.get_meta(who)?;
            AuthorInfo::re_enroll(&meta, self.block)
        } else {
            let digest = match adapter.gen_digest(who) {
                Ok(d) => d,
                Err(_) => return Err(Error::CannotGenerateCommitDigest),
            };
            AuthorInfo::new(digest, self.block)
        };
        let d = Directive { precision: Precision::Exact, force };
        let limits = adapter.place_commit_limits(who, FreezeReason::AuthorCollateral, info.digest, d)?;
        let amount = if limits.contains(collateral) {
            collateral
        } else {
            self.storage.settings.min_collateral
        };
        let actual = adapter.place_commit(who, FreezeReason::AuthorCollateral, info.digest, amount, d)?;
        self.storage.authors_map.insert(who, info);
        self.storage.authors_digest.insert(info.digest, who);
        self.on_enroll(who, collateral);
        Ok(actual)
    }

    /// Whether `who` may resign: permanent, with no penalty still to fall
    /// due, and idle.
    pub open spec fn spec_can_resign<A: ActivityProvider>(&self, activity: &A, who: AccountId) -> Result<
        (),
        Error,
    > {
        match self.spec_get_meta(who) {
            Err(e) => Err(e),
            Ok(m) => match m.status {
                AuthorStatus::Probation => Err(Error::AuthorInProbation),
                AuthorStatus::Resigned => Err(Error::RedundantResignation),
                AuthorStatus::Active => if self.spec_has_penalty(who) is Ok {
                    Err(Error::AuthorHasPenalties)
                } else {
                    activity.spec_is_idle(who)
                },
            },
        }
    }

    /// Whether `who` may resign.
    pub fn can_resign<A: ActivityProvider>(&self, activity: &A, who: AccountId) -> (r: Result<
        (),
        Error,
    >)
        ensures
            r == self.spec_can_resign(activity, who),
    {
        let status = self.get_status(who)?;
        match status {
            AuthorStatus::Probation => return Err(Error::AuthorInProbation),
            AuthorStatus::Resigned => return Err(Error::RedundantResignation),
            AuthorStatus::Active => {},
        }
        if self.has_penalty(who).is_ok() {
            return Err(Error::AuthorHasPenalties);
        }
        activity.is_idle(who)
    }

    /// Resigning `who`: the commitment system's state after, and the outcome
    /// (the collateral released).
    pub open spec fn spec_resign<C: CommitmentAdapter, A: ActivityProvider>(
        &self,
        adapter: C,
        activity: &A,
        who: AccountId,
    ) -> (C, Result<Asset, Error>) {
        match self.spec_can_resign(activity, who) {
            Err(e) => (adapter, Err(e)),
            Ok(_) => adapter.spec_resolve_commit(who, FreezeReason::AuthorCollateral),
        }
    }

    /// Resigns `who`, releasing its collateral; returns the collateral released.
    pub fn resign<C: CommitmentAdapter, A: ActivityProvider>(
        &mut self,
        adapter: &mut C,
        activity: &A,
        who: AccountId,
    ) -> (r: Result<Asset, Error>)
        ensures
            (*final(adapter), r) == old(self).spec_resign(*old(adapter), activity, who),
            r matches Ok(v) ==> {
                &&& final(self).authors() == old(self).authors().insert(
                    who,
                    AuthorInfo { status: AuthorStatus::Resigned, ..old(self).authors()[who] },
                )
                &&& final(self).same_but_authors(&*old(self))
                &&& final(self).events@ == old(self).events@ + emitted(
                    old(self).emit_events,
                    Event::AuthorResigned { author: who, released: v },
                )
            },
            r is Err ==> final(self).unchanged(&*old(self)),
    {
        self.can_resign(activity, who)?;
        let info = self.get_meta(who)?;
        let refund = adapter.resolve_commit(who, FreezeReason::AuthorCollateral)?;
        self.storage.authors_map.insert(who, AuthorInfo { status: AuthorStatus::Resigned, ..info });
        self.on_resign(who, refund);
        Ok(refund)
    }

    /// Raising the collateral of `who` by `collateral`: the commitment
    /// system's state after, and the outcome (the amount raised). The raise
    /// is exact while the collateral is below the minimum, best effort
    /// otherwise.
    pub open spec fn spec_add_collateral<C: CommitmentAdapter>(
        &self,
        adapter: C,
        who: AccountId,
        collateral: Asset,
        force: Fortitude,
    ) -> (C, Result<Asset, Error>) {
        match adapter.spec_commit_value(who, FreezeReason::AuthorCollateral) {
            Err(e) => (adapter, Err(e)),
            Ok(exist) => adapter.spec_raise_commit(
                who,
                FreezeReason::AuthorCollateral,
                collateral,
                Directive {
                    precision: if exist < self.settings().min_collateral {
                        Precision::Exact
                    } else {
                        Precision::BestEffort
                    },
                    force,
                },
            ),
        }
    }

    /// Raises the collateral of `who` by `collateral`; returns the amount raised.
    pub fn add_collateral<C: CommitmentAdapter>(
        &mut self,
        adapter: &mut C,
        who: AccountId,
        collateral: Asset,
        force: Fortitude,
    ) -> (r: Result<Asset, Error>)
        requires
            old(self).settings().min_collateral > 0,
        ensures
            (*final(adapter), r) == old(self).spec_add_collateral(*old(adapter), who, collateral, force),
            final(self).same_state(&*old(self)),
            r matches Ok(v) ==> final(self).events@ == old(self).events@ + emitted(
                old(self).emit_events,
                Event::AuthorCollateralRaised { author: who, raised: v },
            ),
            r is Err ==> final(self).events@ == old(self).events@,
    {
        let exist = self.get_collateral(adapter, who)?;
        let minimum = self.storage.settings.min_collateral;
        let precision = if exist < minimum {
            Precision::Exact
        } else {
            Precision::BestEffort
        };
        let raised = adapter.raise_commit(
            who,
            FreezeReason::AuthorCollateral,
            collateral,
            Directive { precision, force },
        )?;
        self.on_add_collateral(who, raised);
        Ok(raised)
    }

    /// Whether `who` can take part: not resigned, and with at least the
    /// minimum collateral.
    pub open spec fn spec_is_available<C: CommitmentAdapter>(&self, adapter: &C, who: AccountId) -> Result<
        (),
        Error,
    > {
        match self.spec_get_meta(who) {
            Err(e) => Err(e),
            Ok(m) => if m.status == AuthorStatus::Resigned {
                Err(Error::AuthorResigned)
            } else {
                match adapter.spec_commit_value(who, FreezeReason::AuthorCollateral) {
                    Err(e) => Err(e),
                    Ok(c) => if c < self.settings().min_collateral {
                        Err(Error::AuthorNeedsMoreCollateral)
                    } else {
                        Ok(())
                    },
                }
            },
        }
    }

    /// Whether `who` can take part.
    pub fn is_available<C: CommitmentAdapter>(&self, adapter: &C, who: AccountId) -> (r: Result<
        (),
        Error,
    >)
        requires
            self.settings().min_collateral > 0,
        ensures
            r == self.spec_is_available(adapter, who),
    {
        let status = self.get_status(who)?;
        if status == AuthorStatus::Resigned {
            return Err(Error::AuthorResigned);
        }
        let collateral = self.get_collateral(adapter, who)?;
        if collateral < self.storage.settings.min_collateral {
            return Err(Error::AuthorNeedsMoreCollateral);
        }
        Ok(())
    }

    /// Moves `who` to `status`: promotion and demotion go through the
    /// probation rules, resignation through `resign`; a resigned author
    /// cannot come back this way, nor can one on probation resign.
    pub fn set_status<C: CommitmentAdapter, A: ActivityProvider>(
        &mut self,
        adapter: &mut C,
        activity: &A,
        who: AccountId,
        status: AuthorStatus,
    ) -> (r: Result<(), Error>)
        ensures
            match old(self).spec_get_meta(who) {
                Err(e) => r == Err::<(), Error>(e),
                Ok(m) => {
                    let ev = emitted(
                        old(self).emit_events,
                        Event::AuthorStatus { author: who, status },
                    );
                    match (m.status, status) {
                        (AuthorStatus::Active, AuthorStatus::Probation) => {
                            &&& r == old(self).spec_can_revoke_permanence(who)
                            &&& r is Ok ==> {
                                &&& final(self).authors() == old(self).authors().insert(
                                    who,
                                    AuthorInfo {
                                        status: AuthorStatus::Probation,
                                        status_since: old(self).block,
                                        ..m
                                    },
                                )
                                &&& final(self).same_but_authors(&*old(self))
                                &&& final(self).events@ == old(self).events@ + ev + ev
                            }
                        },
                        (AuthorStatus::Active, AuthorStatus::Resigned) => {
                            let (a, res) = old(self).spec_resign(*old(adapter), activity, who);
                            &&& *final(adapter) == a
                            &&& r == (match res {
                                Ok(_) => Ok(()),
                                Err(e) => Err(e),
                            })
                            &&& res matches Ok(v) ==> {
                                &&& final(self).authors() == old(self).authors().insert(
                                    who,
                                    AuthorInfo { status: AuthorStatus::Resigned, ..m },
                                )
                                &&& final(self).same_but_authors(&*old(self))
                                &&& final(self).events@ == old(self).events@ + emitted(
                                    old(self).emit_events,
                                    Event::AuthorResigned { author: who, released: v },
                                ) + ev
                            }
                        },
                        (AuthorStatus::Probation, AuthorStatus::Active) => {
                            &&& r == old(self).spec_can_be_permanent(who)
                            &&& r is Ok ==> {
                                &&& final(self).authors() == old(self).authors().insert(
                                    who,
                                    AuthorInfo { status: AuthorStatus::Active, ..m },
                                )
                                &&& final(self).same_but_authors(&*old(self))
                                &&& final(self).events@ == old(self).events@ + ev + ev
                            }
                        },
                        (AuthorStatus::Probation, AuthorStatus::Resigned) => r == Err::<(), Error>(
                            Error::AuthorInProbation,
                        ),
                        (AuthorStatus::Resigned, AuthorStatus::Active) => r == Err::<(), Error>(
                            Error::AuthorResigned,
                        ),
                        (AuthorStatus::Resigned, AuthorStatus::Probation) => r == Err::<
                            (),
                            Error,
                        >(Error::AuthorResigned),
                        _ => {
                            &&& r == Ok::<(), Error>(())
                            &&& final(self).same_state(&*old(self))
                            &&& final(self).events@ == old(self).events@ + ev
                        },
                    }
                },
            },
            !(old(self).spec_get_meta(who) matches Ok(m) && m.status == AuthorStatus::Active
                && status == AuthorStatus::Resigned) ==> *final(adapter) == *old(adapter),
            r is Err ==> final(self).unchanged(&*old(self)),
    {
        let info = self.get_meta(who)?;
        match info.status {
            AuthorStatus::Active => match status {
                AuthorStatus::Active => {},
                AuthorStatus::Probation => {
                    self.revoke_permanence(who)?;
                },
                AuthorStatus::Resigned => {
                    self.resign(adapter, activity, who)?;
                },
            },
            AuthorStatus::Probation => match status {
                AuthorStatus::Probation => {},
                AuthorStatus::Resigned => return Err(Error::AuthorInProbation),
                AuthorStatus::Active => {
                    self.set_permanence(who)?;
                },
            },
            AuthorStatus::Resigned => match status {
                AuthorStatus::Active | AuthorStatus::Probation => {
                    return Err(Error::AuthorResigned);
                },
                AuthorStatus::Resigned => {},
            },
        }
        self.on_status_update(who, status);
        Ok(())
    }
}

} // verus!
