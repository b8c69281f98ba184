//! The hooks the role operations invoke once they have done their work: each
//! deposits the event that reports it, where the pallet emits events, and
//! leaves the state as it is.

use vstd::prelude::*;

use crate::pallet::{emitted, Pallet};
use crate::perbill::Perbill;
use crate::types::{AccountId, Asset, AuthorStatus, BlockNumber, Event};

verus! {

impl Pallet {
    /// The events of an at-risk hook for `who`, reported with `status`: the
    /// author's current risk period, where it is an author and events are
    /// emitted; none otherwise.
    pub open spec fn spec_at_risk_events(&self, who: AccountId, status: AuthorStatus) -> Seq<Event> {
        if self.authors().contains_key(who) {
            emitted(
                self.emit_events,
                Event::AuthorAtRisk { author: who, status, until: self.authors()[who].risk_until },
            )
        } else {
            Seq::empty()
        }
    }

    /// Reports an enrolment with its collateral.
    pub fn on_enroll(&mut self, who: AccountId, collateral: Asset)
        ensures
            final(self).same_state(&*old(self)),
            final(self).events@ == old(self).events@ + emitted(
                old(self).emit_events,
                Event::AuthorEnlisted { author: who, collateral },
            ),
    {
        self.emit(Event::AuthorEnlisted { author: who, collateral });
    }

    /// Reports a resignation with the collateral it released.
    pub fn on_resign(&mut self, who: AccountId, released: Asset)
        ensures
            final(self).same_state(&*old(self)),
            final(self).events@ == old(self).events@ + emitted(
                old(self).emit_events,
                Event::AuthorResigned { author: who, released },
            ),
    {
        self.emit(Event::AuthorResigned { author: who, released });
    }

    /// Reports a raise of an author's collateral.
    pub fn on_add_collateral(&mut self, who: AccountId, raised: Asset)
        ensures
            final(self).same_state(&*old(self)),
            final(self).events@ == old(self).events@ + emitted(
                old(self).emit_events,
                Event::AuthorCollateralRaised { author: who, raised },
            ),
    {
        self.emit(Event::AuthorCollateralRaised { author: who, raised });
    }

    /// Reports an author's new status.
    pub fn on_status_update(&mut self, who: AccountId, status: AuthorStatus)
        ensures
            final(self).same_state(&*old(self)),
            final(self).events@ == old(self).events@ + emitted(
                old(self).emit_events,
                Event::AuthorStatus { author: who, status },
            ),
    {
        self.emit(Event::AuthorStatus { author: who, status });
    }

    /// Reports a reward scheduled at block `at`.
    pub fn on_reward(&mut self, who: AccountId, amount: Asset, at: BlockNumber)
        ensures
            final(self).same_state(&*old(self)),
            final(self).events@ == old(self).events@ + emitted(
                old(self).emit_events,
                Event::AuthorRewardScheduled { author: who, amount, at },
            ),
    {
        self.emit(Event::AuthorRewardScheduled { author: who, amount, at });
    }

    /// Reports a reclaimed reward.
    pub fn on_reclaim(&mut self, who: AccountId, amount: Asset)
        ensures
            final(self).same_state(&*old(self)),
            final(self).events@ == old(self).events@ + emitted(
                old(self).emit_events,
                Event::AuthorRewardReclaimed { author: who, amount },
            ),
    {
        self.emit(Event::AuthorRewardReclaimed { author: who, amount });
    }

    /// Reports an author's new hold.
    pub fn on_set_hold(&mut self, who: AccountId, value: Asset)
        ensures
            final(self).same_state(&*old(self)),
            final(self).events@ == old(self).events@ + emitted(
                old(self).emit_events,
                Event::AuthorTotalHold { author: who, value },
            ),
    {
        self.emit(Event::AuthorTotalHold { author: who, value });
    }

    /// Reports a forgiven penalty.
    pub fn on_forgive(&mut self, who: AccountId, factor: Perbill)
        ensures
            final(self).same_state(&*old(self)),
            final(self).events@ == old(self).events@ + emitted(
                old(self).emit_events,
                Event::AuthorPenaltyForgiven { author: who, factor },
            ),
    {
        self.emit(Event::AuthorPenaltyForgiven { author: who, factor });
    }

    /// Reports a penalty scheduled at block `at`.
    pub fn on_penalize(&mut self, who: AccountId, factor: Perbill, at: BlockNumber)
        ensures
            final(self).same_state(&*old(self)),
            final(self).events@ == old(self).events@ + emitted(
                old(self).emit_events,
                Event::AuthorPenaltyScheduled { author: who, factor, at },
            ),
    {
        self.emit(Event::AuthorPenaltyScheduled { author: who, factor, at });
    }

    /// Reports that `who` became permanent.
    pub fn on_set_permance(&mut self, who: AccountId)
        ensures
            final(self).same_state(&*old(self)),
            final(self).events@ == old(self).events@ + emitted(
                old(self).emit_events,
                Event::AuthorStatus { author: who, status: AuthorStatus::Active },
            ),
    {
        self.emit(Event::AuthorStatus { author: who, status: AuthorStatus::Active });
    }

    /// Reports that `who` went back on probation.
    pub fn on_revoke_permanence(&mut self, who: AccountId)
        ensures
            final(self).same_state(&*old(self)),
            final(self).events@ == old(self).events@ + emitted(
                old(self).emit_events,
                Event::AuthorStatus { author: who, status: AuthorStatus::Probation },
            ),
    {
        self.emit(Event::AuthorStatus { author: who, status: AuthorStatus::Probation });
    }

    /// Reports the risk period of a permanent author put further at risk.
    pub fn on_risk_permanence(&mut self, who: AccountId)
        ensures
            final(self).same_state(&*old(self)),
            final(self).events@ == old(self).events@ + old(self).spec_at_risk_events(
                who,
                AuthorStatus::Active,
            ),
    {
        if let Some(meta) = self.storage.authors_map.get(&who) {
            self.emit(
                Event::AuthorAtRisk {
                    author: who,
                    status: AuthorStatus::Active,
                    until: meta.risk_until,
                },
            );
        }
    }

    /// Reports the risk period of an author on probation put further at risk.
    pub fn on_risk_probation(&mut self, who: AccountId)
        ensures
            final(self).same_state(&*old(self)),
            final(self).events@ == old(self).events@ + old(self).spec_at_risk_events(
                who,
                AuthorStatus::Probation,
            ),
    {
        if let Some(meta) = self.storage.authors_map.get(&who) {
            self.emit(
                Event::AuthorAtRisk {
                    author: who,
                    status: AuthorStatus::Probation,
                    until: meta.risk_until,
                },
            );
        }
    }

    /// Reports the risk period of an author brought closer to safety.
    pub fn on_secure_permanence(&mut self, who: AccountId)
        ensures
            final(self).same_state(&*old(self)),
            final(self).events@ == old(self).events@ + old(self).spec_at_risk_events(
                who,
                AuthorStatus::Probation,
            ),
    {
        if let Some(meta) = self.storage.authors_map.get(&who) {
            self.emit(
                Event::AuthorAtRisk {
                    author: who,
                    status: AuthorStatus::Probation,
                    until: meta.risk_until,
                },
            );
        }
    }
}

} // verus!
