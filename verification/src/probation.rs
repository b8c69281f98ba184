//! Authors' metadata and their probation: when an author may become
//! permanent, when it is demoted, and how penalties and rewards move the
//! block until which it is considered at risk.

use vstd::prelude::*;

use crate::pallet::{emitted, Pallet};
use crate::types::{AccountId, AuthorInfo, AuthorStatus, BlockNumber, Error, Event};

verus! {

/// `a + b`, or the largest block number where that overflows.
pub open spec fn sat_add(a: u64, b: u64) -> u64 {
    if a + b > u64::MAX {
        u64::MAX
    } else {
        (a + b) as u64
    }
}

/// `a - b`, or zero where that would be negative.
pub open spec fn sat_sub(a: u64, b: u64) -> u64 {
    if a < b {
        0
    } else {
        (a - b) as u64
    }
}

/// The risk period after a penalty at block `now`: extended from now where it
/// has passed, from its end otherwise.
pub open spec fn spec_risked(risk_until: BlockNumber, now: BlockNumber, by: BlockNumber) -> BlockNumber {
    if risk_until < now {
        sat_add(now, by)
    } else {
        sat_add(risk_until, by)
    }
}

/// The risk period after a reward at block `now`: shortened where it has not
/// passed yet.
pub open spec fn spec_secured(risk_until: BlockNumber, now: BlockNumber, by: BlockNumber) -> BlockNumber {
    if risk_until > now {
        sat_sub(risk_until, by)
    } else {
        risk_until
    }
}

impl Pallet {
    /// Nothing but the events may have changed; they have not either.
    pub open spec fn unchanged(&self, other: &Pallet) -> bool {
        &&& self.same_state(other)
        &&& self.events@ == other.events@
    }

    /// The metadata of `who`, or `AuthorNotFound`.
    pub open spec fn spec_get_meta(&self, who: AccountId) -> Result<AuthorInfo, Error> {
        if self.authors().contains_key(who) {
            Ok(self.authors()[who])
        } else {
            Err(Error::AuthorNotFound)
        }
    }

    /// Whether `who` is an author (resigned ones included).
    pub fn role_exists(&self, who: AccountId) -> (r: Result<(), Error>)
        ensures
            r == (if self.authors().contains_key(who) {
                Ok(())
            } else {
                Err(Error::AuthorNotFound)
            }),
    {
        if self.storage.authors_map.contains_key(&who) {
            Ok(())
        } else {
            Err(Error::AuthorNotFound)
        }
    }

    /// The metadata of `who`.
    pub fn get_meta(&self, who: AccountId) -> (r: Result<AuthorInfo, Error>)
        ensures
            r == self.spec_get_meta(who),
    {
        match self.storage.authors_map.get(&who) {
            Some(info) => Ok(info),
            None => Err(Error::AuthorNotFound),
        }
    }

    /// The block at which `who` (last) enrolled.
    pub fn enroll_since(&self, who: AccountId) -> (r: Result<BlockNumber, Error>)
        ensures
            r == (match self.spec_get_meta(who) {
                Ok(m) => Ok(m.since),
                Err(e) => Err(e),
            }),
    {
        let info = self.get_meta(who)?;
        Ok(info.since)
    }

    /// The status of `who`.
    pub fn get_status(&self, who: AccountId) -> (r: Result<AuthorStatus, Error>)
        ensures
            r == (match self.spec_get_meta(who) {
                Ok(m) => Ok(m.status),
                Err(e) => Err(e),
            }),
    {
        let info = self.get_meta(who)?;
        Ok(info.status)
    }

    /// The block from which the probation of `who` counts.
    pub fn status_since(&self, who: AccountId) -> (r: Result<BlockNumber, Error>)
        ensures
            r == (match self.spec_get_meta(who) {
                Ok(m) => Ok(m.status_since),
                Err(e) => Err(e),
            }),
    {
        let info = self.get_meta(who)?;
        Ok(info.status_since)
    }

    /// Whether `who` is on probation.
    pub fn is_on_probation(&self, who: AccountId) -> (r: Result<(), Error>)
        ensures
            r == (match self.spec_get_meta(who) {
                Err(e) => Err(e),
                Ok(m) => match m.status {
                    AuthorStatus::Active => Err(Error::AuthorIsActive),
                    AuthorStatus::Probation => Ok(()),
                    AuthorStatus::Resigned => Err(Error::AuthorResigned),
                },
            }),
    {
        let status = self.get_status(who)?;
        match status {
            AuthorStatus::Active => Err(Error::AuthorIsActive),
            AuthorStatus::Probation => Ok(()),
            AuthorStatus::Resigned => Err(Error::AuthorResigned),
        }
    }

    /// Whether `who` is permanent.
    pub fn is_permanent(&self, who: AccountId) -> (r: Result<(), Error>)
        ensures
            r == (match self.spec_get_meta(who) {
                Err(e) => Err(e),
                Ok(m) => match m.status {
                    AuthorStatus::Active => Ok(()),
                    AuthorStatus::Probation => Err(Error::AuthorInProbation),
                    AuthorStatus::Resigned => Err(Error::AuthorResigned),
                },
            }),
    {
        let status = self.get_status(who)?;
        match status {
            AuthorStatus::Active => Ok(()),
            AuthorStatus::Probation => Err(Error::AuthorInProbation),
            AuthorStatus::Resigned => Err(Error::AuthorResigned),
        }
    }

    /// Whether `who` may become permanent now: on probation, its probation
    /// period served, and no longer at risk.
    pub open spec fn spec_can_be_permanent(&self, who: AccountId) -> Result<(), Error> {
        match self.spec_get_meta(who) {
            Err(e) => Err(e),
            Ok(m) => match m.status {
                AuthorStatus::Active => Err(Error::AuthorIsActive),
                AuthorStatus::Resigned => Err(Error::AuthorResigned),
                AuthorStatus::Probation => if sat_add(
                    m.status_since,
                    self.settings().probation_period,
                ) > self.block {
                    Err(Error::AuthorInProbation)
                } else if m.risk_until > self.block {
                    Err(Error::AuthorIsUnsafe)
                } else {
                    Ok(())
                },
            },
        }
    }

    /// Whether `who` may become permanent now.
    pub fn can_be_permanent(&self, who: AccountId) -> (r: Result<(), Error>)
        ensures
            r == self.spec_can_be_permanent(who),
    {
        let info = self.get_meta(who)?;
        match info.status {
            AuthorStatus::Active => return Err(Error::AuthorIsActive),
            AuthorStatus::Resigned => return Err(Error::AuthorResigned),
            AuthorStatus::Probation => {},
        }
        if info.status_since.saturating_add(self.storage.settings.probation_period) > self.block {
            return Err(Error::AuthorInProbation);
        }
        if info.risk_until > self.block {
            return Err(Error::AuthorIsUnsafe);
        }
        Ok(())
    }

    /// Makes `who` permanent.
    pub fn set_permanence(&mut self, who: AccountId) -> (r: Result<AuthorStatus, Error>)
        ensures
            r == (match old(self).spec_can_be_permanent(who) {
                Ok(_) => Ok(AuthorStatus::Active),
                Err(e) => Err(e),
            }),
            r is Ok ==> {
                &&& final(self).authors() == old(self).authors().insert(
                    who,
                    AuthorInfo { status: AuthorStatus::Active, ..old(self).authors()[who] },
                )
                &&& final(self).same_but_authors(&*old(self))
                &&& final(self).events@ == old(self).events@ + emitted(
                    old(self).emit_events,
                    Event::AuthorStatus { author: who, status: AuthorStatus::Active },
                )
            },
            r is Err ==> final(self).unchanged(&*old(self)),
    {
        self.can_be_permanent(who)?;
        let info = self.get_meta(who)?;
        self.storage.authors_map.insert(who, AuthorInfo { status: AuthorStatus::Active, ..info });
        self.on_set_permance(who);
        Ok(AuthorStatus::Active)
    }

    /// Whether `who` may be demoted to probation now: permanent, and at risk
    /// beyond a probation period from now.
    pub open spec fn spec_can_revoke_permanence(&self, who: AccountId) -> Result<(), Error> {
        match self.spec_get_meta(who) {
            Err(e) => Err(e),
            Ok(m) => match m.status {
                AuthorStatus::Probation => Err(Error::AuthorInProbation),
                AuthorStatus::Resigned => Err(Error::AuthorResigned),
                AuthorStatus::Active => if m.risk_until <= sat_add(
                    self.block,
                    self.settings().probation_period,
                ) {
                    Err(Error::RiskWithinThreshold)
                } else {
                    Ok(())
                },
            },
        }
    }

    /// Whether `who` may be demoted to probation now.
    pub fn can_revoke_permanence(&self, who: AccountId) -> (r: Result<(), Error>)
        ensures
            r == self.spec_can_revoke_permanence(who),
    {
        let meta = self.get_meta(who)?;
        match meta.status {
            AuthorStatus::Probation => return Err(Error::AuthorInProbation),
            AuthorStatus::Resigned => return Err(Error::AuthorResigned),
            AuthorStatus::Active => {},
        }
        if meta.risk_until <= self.block.saturating_add(self.storage.settings.probation_period) {
            return Err(Error::RiskWithinThreshold);
        }
        Ok(())
    }

    /// Demotes `who` to probation, which restarts from now.
    pub fn revoke_permanence(&mut self, who: AccountId) -> (r: Result<AuthorStatus, Error>)
        ensures
            r == (match old(self).spec_can_revoke_permanence(who) {
                Ok(_) => Ok(AuthorStatus::Probation),
                Err(e) => Err(e),
            }),
            r is Ok ==> {
                &&& final(self).authors() == old(self).authors().insert(
                    who,
                    AuthorInfo {
                        status: AuthorStatus::Probation,
                        status_since: old(self).block,
                        ..old(self).authors()[who]
                    },
                )
                &&& final(self).same_but_authors(&*old(self))
                &&& final(self).events@ == old(self).events@ + emitted(
                    old(self).emit_events,
                    Event::AuthorStatus { author: who, status: AuthorStatus::Probation },
                )
            },
            r is Err ==> final(self).unchanged(&*old(self)),
    {
        self.can_revoke_permanence(who)?;
        let info = self.get_meta(who)?;
        let block = self.block;
        self.storage.authors_map.insert(
            who,
            AuthorInfo { status: AuthorStatus::Probation, status_since: block, ..info },
        );
        self.on_revoke_permanence(who);
        Ok(AuthorStatus::Probation)
    }

    /// Puts `who`, on probation, further at risk.
    pub fn risk_probation(&mut self, who: AccountId) -> (r: Result<(), Error>)
        ensures
            r == (match old(self).spec_get_meta(who) {
                Err(e) => Err(e),
                Ok(m) => match m.status {
                    AuthorStatus::Active => Err(Error::AuthorIsActive),
                    AuthorStatus::Resigned => Err(Error::AuthorResigned),
                    AuthorStatus::Probation => Ok(()),
                },
            }),
            r is Ok ==> {
                let m = old(self).authors()[who];
                let until = spec_risked(
                    m.risk_until,
                    old(self).block,
                    old(self).settings().increase_probation_by,
                );
                &&& final(self).authors() == old(self).authors().insert(
                    who,
                    AuthorInfo { risk_until: until, ..m },
                )
                &&& final(self).same_but_authors(&*old(self))
                &&& final(self).events@ == old(self).events@ + emitted(
                    old(self).emit_events,
                    Event::AuthorAtRisk { author: who, status: AuthorStatus::Probation, until },
                )
            },
            r is Err ==> final(self).unchanged(&*old(self)),
    {
        let info = self.get_meta(who)?;
        match info.status {
            AuthorStatus::Active => return Err(Error::AuthorIsActive),
            AuthorStatus::Resigned => return Err(Error::AuthorResigned),
            AuthorStatus::Probation => {},
        }
        let until = self.risked(info.risk_until);
        self.storage.authors_map.insert(who, AuthorInfo { risk_until: until, ..info });
        self.on_risk_probation(who);
        Ok(())
    }

    /// Puts `who`, permanent, further at risk.
    pub fn risk_permanence(&mut self, who: AccountId) -> (r: Result<(), Error>)
        ensures
            r == (match old(self).spec_get_meta(who) {
                Err(e) => Err(e),
                Ok(m) => match m.status {
                    AuthorStatus::Active => Ok(()),
                    AuthorStatus::Resigned => Err(Error::AuthorResigned),
                    AuthorStatus::Probation => Err(Error::AuthorInProbation),
                },
            }),
            r is Ok ==> {
                let m = old(self).authors()[who];
                let until = spec_risked(
                    m.risk_until,
                    old(self).block,
                    old(self).settings().increase_probation_by,
                );
                &&& final(self).authors() == old(self).authors().insert(
                    who,
                    AuthorInfo { risk_until: until, ..m },
                )
                &&& final(self).same_but_authors(&*old(self))
                &&& final(self).events@ == old(self).events@ + emitted(
                    old(self).emit_events,
                    Event::AuthorAtRisk { author: who, status: AuthorStatus::Active, until },
                )
            },
            r is Err ==> final(self).unchanged(&*old(self)),
    {
        let info = self.get_meta(who)?;
        match info.status {
            AuthorStatus::Active => {},
            AuthorStatus::Resigned => return Err(Error::AuthorResigned),
            AuthorStatus::Probation => return Err(Error::AuthorInProbation),
        }
        let until = self.risked(info.risk_until);
        self.storage.authors_map.insert(who, AuthorInfo { risk_until: until, ..info });
        self.on_risk_permanence(who);
        Ok(())
    }

    /// Brings `who` (not resigned) closer to safety.
    pub fn secure_permanence(&mut self, who: AccountId) -> (r: Result<(), Error>)
        ensures
            r == (match old(self).spec_get_meta(who) {
                Err(e) => Err(e),
                Ok(m) => match m.status {
                    AuthorStatus::Resigned => Err(Error::AuthorResigned),
                    _ => Ok(()),
                },
            }),
            r is Ok ==> {
                let m = old(self).authors()[who];
                let until = spec_secured(
                    m.risk_until,
                    old(self).block,
                    old(self).settings().reduce_probation_by,
                );
                &&& final(self).authors() == old(self).authors().insert(
                    who,
                    AuthorInfo { risk_until: until, ..m },
                )
                &&& final(self).same_but_authors(&*old(self))
                &&& final(self).events@ == old(self).events@ + emitted(
                    old(self).emit_events,
                    Event::AuthorAtRisk { author: who, status: AuthorStatus::Probation, until },
                )
            },
            r is Err ==> final(self).unchanged(&*old(self)),
    {
        let info = self.get_meta(who)?;
        if info.status == AuthorStatus::Resigned {
            return Err(Error::AuthorResigned);
        }
        let until = if info.risk_until > self.block {
            info.risk_until.saturating_sub(self.storage.settings.reduce_probation_by)
        } else {
            info.risk_until
        };
        self.storage.authors_map.insert(who, AuthorInfo { risk_until: until, ..info });
        self.on_secure_permanence(who);
        Ok(())
    }

    /// The risk period of an author penalised now.
    fn risked(&self, risk_until: BlockNumber) -> (r: BlockNumber)
        ensures
            r == spec_risked(risk_until, self.block, self.settings().increase_probation_by),
    {
        let by = self.storage.settings.increase_probation_by;
        if risk_until < self.block {
            self.block.saturating_add(by)
        } else {
            risk_until.saturating_add(by)
        }
    }
}

} // verus!
