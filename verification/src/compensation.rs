//! Rewards and penalties: scheduled some blocks ahead, reclaimed or forgiven
//! before they fall due, and applied to the author's hold (collateral plus
//! backing) at the start of the block they fall on.

use vstd::prelude::*;

use crate::adapter::CommitmentAdapter;
use crate::pallet::{emitted, Pallet};
use crate::perbill::{spec_div_ceil, Perbill, ACCURACY};
use crate::probation::{sat_add, spec_risked, spec_secured};
use crate::table::{lists_under, range_under, stored_under, KeyPair};
use crate::types::{
    AccountId, Asset, AuthorInfo, AuthorStatus, BlockNumber, Directive, Error, Event, Fortitude,
    FreezeReason, Precision,
};

verus! {

/// The parts per billion of `p / q`, rounded down; a whole where `q` is zero
/// or `p > q`.
pub open spec fn spec_rational_parts(p: Asset, q: Asset) -> int {
    if q == 0 || p > q {
        ACCURACY as int
    } else {
        (p as int) * (ACCURACY as int) / (q as int)
    }
}

/// How a new hold `value` is split between an author's funding and its
/// collateral: funding keeps its share of the current hold, rounded up;
/// collateral takes the rest. `None` where the current hold overflows.
pub open spec fn spec_split_hold(funding: Asset, collateral: Asset, value: Asset) -> Option<
    (Asset, Asset),
> {
    if funding + collateral > u128::MAX {
        None
    } else {
        let hold = (funding + collateral) as u128;
        let f = spec_div_ceil(
            (value as int) * spec_rational_parts(funding, hold),
            ACCURACY as int,
        );
        let c = if value < f {
            0
        } else {
            value - f
        };
        Some((f as u128, c as u128))
    }
}

/// How a new hold `value` is split between an author's funding and its
/// collateral, given their current values.
pub fn split_hold(funding: Asset, collateral: Asset, value: Asset) -> (r: Option<(Asset, Asset)>)
    ensures
        r == spec_split_hold(funding, collateral, value),
{
    let hold = match funding.checked_add(collateral) {
        Some(h) => h,
        None => return None,
    };
    let ratio = Perbill::from_rational(funding, hold);
    let funding_value = ratio.mul_ceil(value);
    let collateral_value = value.saturating_sub(funding_value);
    Some((funding_value, collateral_value))
}

impl Pallet {
    /// The first block that is not yet final.
    pub open spec fn open_from(&self) -> u64 {
        sat_add(self.block, 1)
    }

    /// Whether `who` has a reward due after the current block.
    pub open spec fn spec_has_reward(&self, who: AccountId) -> Result<(), Error> {
        if !self.authors().contains_key(who) {
            Err(Error::AuthorNotFound)
        } else if exists|b: u64|
            self.open_from() <= b <= self.storage.rewards_until
                && #[trigger] self.storage.author_rewards@.contains_key(KeyPair(b, who)) {
            Ok(())
        } else {
            Err(Error::RewardNotFound)
        }
    }

    /// Whether `who` has a penalty due after the current block.
    pub open spec fn spec_has_penalty(&self, who: AccountId) -> Result<(), Error> {
        if !self.authors().contains_key(who) {
            Err(Error::AuthorNotFound)
        } else if exists|b: u64|
            self.open_from() <= b <= self.storage.penalties_until
                && #[trigger] self.storage.author_penalties@.contains_key(KeyPair(b, who)) {
            Ok(())
        } else {
            Err(Error::PenaltyNotFound)
        }
    }

    /// No reward is scheduled beyond the latest block recorded for rewards.
    pub open spec fn spec_rewards_bounded(&self) -> bool {
        forall|k: KeyPair| #[trigger]
            self.rewards().contains_key(k) ==> k.0 <= self.storage.rewards_until
    }

    /// No penalty is scheduled beyond the latest block recorded for penalties.
    pub open spec fn spec_penalties_bounded(&self) -> bool {
        forall|k: KeyPair| #[trigger]
            self.penalties().contains_key(k) ==> k.0 <= self.storage.penalties_until
    }

    /// Whether `who` has a reward due after the current block.
    pub fn has_reward(&self, who: AccountId) -> (r: Result<(), Error>)
        ensures
            r == self.spec_has_reward(who),
    {
        self.role_exists(who)?;
        let lo = self.block.saturating_add(1);
        if self.storage.author_rewards.any_in_range(who, lo, self.storage.rewards_until) {
            Ok(())
        } else {
            Err(Error::RewardNotFound)
        }
    }

    /// Whether `who` has a penalty due after the current block.
    pub fn has_penalty(&self, who: AccountId) -> (r: Result<(), Error>)
        ensures
            r == self.spec_has_penalty(who),
    {
        self.role_exists(who)?;
        let lo = self.block.saturating_add(1);
        if self.storage.author_penalties.any_in_range(who, lo, self.storage.penalties_until) {
            Ok(())
        } else {
            Err(Error::PenaltyNotFound)
        }
    }

    /// The rewards of `who` due after the current block, by block.
    pub fn get_rewards_of(&self, who: AccountId) -> (r: Result<Vec<(BlockNumber, Asset)>, Error>)
        ensures
            match r {
                Ok(v) => self.authors().contains_key(who) && v@ == range_under(
                    self.rewards(),
                    who,
                    self.open_from() as int,
                    self.storage.rewards_until as int,
                ),
                Err(e) => !self.authors().contains_key(who) && e == Error::AuthorNotFound,
            },
    {
        self.role_exists(who)?;
        let lo = self.block.saturating_add(1);
        Ok(self.storage.author_rewards.range(who, lo, self.storage.rewards_until))
    }

    /// The penalties of `who` due after the current block, by block.
    pub fn get_penalties_of(&self, who: AccountId) -> (r: Result<
        Vec<(BlockNumber, Perbill)>,
        Error,
    >)
        ensures
            match r {
                Ok(v) => self.authors().contains_key(who) && v@ == range_under(
                    self.penalties(),
                    who,
                    self.open_from() as int,
                    self.storage.penalties_until as int,
                ),
                Err(e) => !self.authors().contains_key(who) && e == Error::AuthorNotFound,
            },
    {
        self.role_exists(who)?;
        let lo = self.block.saturating_add(1);
        Ok(self.storage.author_penalties.range(who, lo, self.storage.penalties_until))
    }

    /// The hold of `who`: the value committed towards its digest as funding
    /// plus as collateral.
    pub open spec fn spec_get_hold<C: CommitmentAdapter>(&self, adapter: &C, who: AccountId) -> Result<
        Asset,
        Error,
    > {
        match self.spec_get_meta(who) {
            Err(e) => Err(e),
            Ok(m) => match adapter.spec_digest_value(FreezeReason::AuthorFunding, m.digest) {
                Err(e) => Err(e),
                Ok(f) => match adapter.spec_digest_value(FreezeReason::AuthorCollateral, m.digest) {
                    Err(e) => Err(e),
                    Ok(c) => if f + c > u128::MAX {
                        Err(Error::AuthorTotalHoldExhausted)
                    } else {
                        Ok((f + c) as u128)
                    },
                },
            },
        }
    }

    /// The hold of `who`.
    pub fn get_hold<C: CommitmentAdapter>(&self, adapter: &C, who: AccountId) -> (r: Result<
        Asset,
        Error,
    >)
        ensures
            r == self.spec_get_hold(adapter, who),
    {
        let info = self.get_meta(who)?;
        let funding = adapter.get_digest_value(FreezeReason::AuthorFunding, info.digest)?;
        let collateral = adapter.get_digest_value(FreezeReason::AuthorCollateral, info.digest)?;
        match funding.checked_add(collateral) {
            Some(h) => Ok(h),
            None => Err(Error::AuthorTotalHoldExhausted),
        }
    }

    /// The rewards due at `at`, a block after the current one.
    pub fn get_rewards_on(&self, at: BlockNumber) -> (r: Result<Vec<(AccountId, Asset)>, Error>)
        ensures
            match r {
                Ok(v) => at > self.block && v@ == stored_under(
                    self.storage.author_rewards.spec_entries(),
                    at,
                ) && lists_under(self.rewards(), at, v@),
                Err(e) => at <= self.block && e == Error::FinalizedObligations,
            },
    {
        if at <= self.block {
            return Err(Error::FinalizedObligations);
        }
        Ok(self.storage.author_rewards.under(at))
    }

    /// The penalties due at `at`, a block after the current one.
    pub fn get_penalties_on(&self, at: BlockNumber) -> (r: Result<Vec<(AccountId, Perbill)>, Error>)
        ensures
            match r {
                Ok(v) => at > self.block && v@ == stored_under(
                    self.storage.author_penalties.spec_entries(),
                    at,
                ) && lists_under(self.penalties(), at, v@),
                Err(e) => at <= self.block && e == Error::FinalizedObligations,
            },
    {
        if at <= self.block {
            return Err(Error::FinalizedObligations);
        }
        Ok(self.storage.author_penalties.under(at))
    }

    /// Setting the hold of `who` to `value`: the commitment system's state
    /// after, and the outcome. The funding part is set first, then the
    /// collateral part, as `spec_split_hold` divides the value.
    pub open spec fn spec_set_hold<C: CommitmentAdapter>(
        &self,
        adapter: C,
        who: AccountId,
        value: Asset,
        precision: Precision,
        force: Fortitude,
    ) -> (C, Result<(), Error>) {
        match self.spec_get_meta(who) {
            Err(e) => (adapter, Err(e)),
            Ok(m) => match adapter.spec_digest_value(FreezeReason::AuthorFunding, m.digest) {
                Err(e) => (adapter, Err(e)),
                Ok(f) => match adapter.spec_digest_value(FreezeReason::AuthorCollateral, m.digest) {
                    Err(e) => (adapter, Err(e)),
                    Ok(c) => match spec_split_hold(f, c, value) {
                        None => (adapter, Err(Error::AuthorTotalHoldExhausted)),
                        Some(split) => {
                            let d = Directive { precision, force };
                            let (a1, r1) = adapter.spec_set_digest_value(
                                FreezeReason::AuthorFunding,
                                m.digest,
                                split.0,
                                d,
                            );
                            match r1 {
                                Err(e) => (a1, Err(e)),
                                Ok(_) => a1.spec_set_digest_value(
                                    FreezeReason::AuthorCollateral,
                                    m.digest,
                                    split.1,
                                    d,
                                ),
                            }
                        },
                    },
                },
            },
        }
    }

    /// Sets the hold of `who` to `value`, split between its funding and its
    /// collateral as `split_hold` says, through the commitment system.
    pub fn set_hold<C: CommitmentAdapter>(
        &mut self,
        adapter: &mut C,
        who: AccountId,
        value: Asset,
        precision: Precision,
        force: Fortitude,
    ) -> (r: Result<(), Error>)
        ensures
            final(self).same_state(&*old(self)),
            (*final(adapter), r) == old(self).spec_set_hold(*old(adapter), who, value, precision, force),
            r is Ok ==> final(self).events@ == old(self).events@ + emitted(
                old(self).emit_events,
                Event::AuthorTotalHold { author: who, value },
            ),
            r is Err ==> final(self).events@ == old(self).events@,
    {
        let info = self.get_meta(who)?;
        let funding = adapter.get_digest_value(FreezeReason::AuthorFunding, info.digest)?;
        let collateral = adapter.get_digest_value(FreezeReason::AuthorCollateral, info.digest)?;
        let (funding_value, collateral_value) = match split_hold(funding, collateral, value) {
            Some(s) => s,
            None => return Err(Error::AuthorTotalHoldExhausted),
        };
        let directive = Directive { precision, force };
        adapter.set_digest_value(FreezeReason::AuthorFunding, info.digest, funding_value, directive)?;
        adapter.set_digest_value(
            FreezeReason::AuthorCollateral,
            info.digest,
            collateral_value,
            directive,
        )?;
        self.on_set_hold(who, value);
        Ok(())
    }

    /// The metadata of an author after a penalty at the current block: put
    /// further at risk, and demoted to probation where an active author is now
    /// at risk beyond a probation period.
    pub open spec fn spec_penalized(&self, m: AuthorInfo) -> AuthorInfo {
        let risked = AuthorInfo {
            risk_until: spec_risked(m.risk_until, self.block, self.settings().increase_probation_by),
            ..m
        };
        if m.status == AuthorStatus::Active && risked.risk_until > sat_add(
            self.block,
            self.settings().probation_period,
        ) {
            AuthorInfo { status: AuthorStatus::Probation, status_since: self.block, ..risked }
        } else {
            risked
        }
    }

    /// The events of a penalty on an author whose metadata was `m`.
    pub open spec fn spec_penalty_events(&self, who: AccountId, m: AuthorInfo) -> Seq<Event> {
        let p = self.spec_penalized(m);
        emitted(
            self.emit_events,
            Event::AuthorAtRisk { author: who, status: m.status, until: p.risk_until },
        ) + if p.status != m.status {
            emitted(
                self.emit_events,
                Event::AuthorStatus { author: who, status: AuthorStatus::Probation },
            )
        } else {
            Seq::empty()
        }
    }

    /// The block from which a penalty scheduled now may fall.
    pub open spec fn penalty_start(&self) -> u64 {
        sat_add(self.block, self.settings().penalties_buffer)
    }

    /// The block from which a reward scheduled now may fall.
    pub open spec fn reward_start(&self) -> u64 {
        sat_add(self.block, self.settings().rewards_buffer)
    }

    /// Schedules a penalty of `factor` of the hold of `who`, at the first
    /// block from the penalty buffer on that holds none for it yet; puts
    /// `who` further at risk (and an active author, now too much at risk,
    /// back on probation).
    pub fn penalize(&mut self, who: AccountId, factor: Perbill) -> (r: Result<BlockNumber, Error>)
        requires
            factor.spec_parts() != 0 && old(self).authors().contains_key(who)
                && old(self).authors()[who].status != AuthorStatus::Resigned ==> exists|b: u64|
                old(self).penalty_start() <= b && !#[trigger] old(self).penalties().contains_key(
                    KeyPair(b, who),
                ),
        ensures
            factor.spec_parts() == 0 ==> r == Err::<BlockNumber, Error>(Error::ZeroPenaltyFound),
            factor.spec_parts() != 0 ==> match old(self).spec_get_meta(who) {
                Err(e) => r == Err::<BlockNumber, Error>(e),
                Ok(m) => m.status == AuthorStatus::Resigned ==> r == Err::<BlockNumber, Error>(
                    Error::AuthorResigned,
                ),
            },
            r is Ok <==> factor.spec_parts() != 0 && old(self).authors().contains_key(who) && old(self).authors()[who].status != AuthorStatus::Resigned,
            r matches Ok(b) ==> {
                let m = old(self).authors()[who];
                &&& old(self).penalty_start() <= b
                &&& !old(self).penalties().contains_key(KeyPair(b, who))
                &&& forall|c: u64|
                    old(self).penalty_start() <= c < b ==> #[trigger] old(self).penalties().contains_key(KeyPair(c, who))
                &&& final(self).authors() == old(self).authors().insert(
                    who,
                    old(self).spec_penalized(m),
                )
                &&& final(self).penalties() == old(self).penalties().insert(KeyPair(b, who), factor)
                &&& final(self).storage.penalties_until == if b > old(self).storage.penalties_until {
                    b
                } else {
                    old(self).storage.penalties_until
                }
                &&& final(self).same_except(&*old(self), true, false, false, false, true, false)
                &&& final(self).events@ == old(self).events@ + old(self).spec_penalty_events(who, m)
                    + emitted(
                    old(self).emit_events,
                    Event::AuthorPenaltyScheduled { author: who, factor, at: b },
                )
            },
            old(self).spec_penalties_bounded() ==> final(self).spec_penalties_bounded(),
            r is Err ==> final(self).unchanged(&*old(self)),
    {
        if factor.is_zero() {
            return Err(Error::ZeroPenaltyFound);
        }
        let status = self.get_status(who)?;
        match status {
            AuthorStatus::Active => {
                self.risk_permanence(who)?;
                if self.can_revoke_permanence(who).is_ok() {
                    self.revoke_permanence(who)?;
                }
            },
            AuthorStatus::Probation => {
                self.risk_probation(who)?;
            },
            AuthorStatus::Resigned => {
                return Err(Error::AuthorResigned);
            },
        }
        let start = self.block.saturating_add(self.storage.settings.penalties_buffer);
        let b = self.storage.author_penalties.first_free(who, start);
        self.storage.author_penalties.insert(KeyPair(b, who), factor);
        if b > self.storage.penalties_until {
            self.storage.penalties_until = b;
        }
        self.on_penalize(who, factor, b);
        Ok(b)
    }

    /// The metadata of an author after a reward or a forgiven penalty at the
    /// current block: less at risk.
    pub open spec fn spec_secured_meta(&self, m: AuthorInfo) -> AuthorInfo {
        AuthorInfo {
            risk_until: spec_secured(m.risk_until, self.block, self.settings().reduce_probation_by),
            ..m
        }
    }

    /// Schedules a reward of `value` for `who`, at the first block from the
    /// reward buffer on that holds none for it yet; brings `who` closer to
    /// safety.
    pub fn reward(&mut self, who: AccountId, value: Asset, precision: Precision) -> (r: Result<
        BlockNumber,
        Error,
    >)
        requires
            old(self).authors().contains_key(who) && old(self).authors()[who].status
                != AuthorStatus::Resigned ==> exists|b: u64|
                old(self).reward_start() <= b && !#[trigger] old(self).rewards().contains_key(
                    KeyPair(b, who),
                ),
        ensures
            match old(self).spec_get_meta(who) {
                Err(e) => r == Err::<BlockNumber, Error>(e),
                Ok(m) => m.status == AuthorStatus::Resigned ==> r == Err::<BlockNumber, Error>(
                    Error::AuthorResigned,
                ),
            },
            r is Ok <==> old(self).authors().contains_key(who) && old(self).authors()[who].status
                != AuthorStatus::Resigned,
            r matches Ok(b) ==> {
                let m = old(self).authors()[who];
                let s = old(self).spec_secured_meta(m);
                &&& old(self).reward_start() <= b
                &&& !old(self).rewards().contains_key(KeyPair(b, who))
                &&& forall|c: u64|
                    old(self).reward_start() <= c < b ==> #[trigger] old(self).rewards().contains_key(KeyPair(c, who))
                &&& final(self).authors() == old(self).authors().insert(who, s)
                &&& final(self).rewards() == old(self).rewards().insert(KeyPair(b, who), value)
                &&& final(self).storage.rewards_until == if b > old(self).storage.rewards_until {
                    b
                } else {
                    old(self).storage.rewards_until
                }
                &&& final(self).same_except(&*old(self), true, false, false, true, false, false)
                &&& final(self).events@ == old(self).events@ + emitted(
                    old(self).emit_events,
                    Event::AuthorAtRisk {
                        author: who,
                        status: AuthorStatus::Probation,
                        until: s.risk_until,
                    },
                ) + emitted(
                    old(self).emit_events,
                    Event::AuthorRewardScheduled { author: who, amount: value, at: b },
                )
            },
            old(self).spec_rewards_bounded() ==> final(self).spec_rewards_bounded(),
            r is Err ==> final(self).unchanged(&*old(self)),
    {
        let status = self.get_status(who)?;
        match status {
            AuthorStatus::Active | AuthorStatus::Probation => {
                self.secure_permanence(who)?;
            },
            AuthorStatus::Resigned => {
                return Err(Error::AuthorResigned);
            },
        }
        let start = self.block.saturating_add(self.storage.settings.rewards_buffer);
        let b = self.storage.author_rewards.first_free(who, start);
        self.storage.author_rewards.insert(KeyPair(b, who), value);
        if b > self.storage.rewards_until {
            self.storage.rewards_until = b;
        }
        self.on_reward(who, value, b);
        Ok(b)
    }

    /// Forgives the penalty of `who` due at `from`, a block after the current
    /// one; brings `who` closer to safety.
    pub fn forgive(&mut self, who: AccountId, from: BlockNumber) -> (r: Result<Perbill, Error>)
        ensures
            r == (match old(self).spec_get_meta(who) {
                Err(e) => Err(e),
                Ok(m) => if from <= old(self).block {
                    Err(Error::FinalizedObligations)
                } else if m.status == AuthorStatus::Resigned {
                    Err(Error::AuthorResigned)
                } else if !old(self).penalties().contains_key(KeyPair(from, who)) {
                    Err(Error::PenaltyNotFound)
                } else {
                    Ok(old(self).penalties()[KeyPair(from, who)])
                },
            }),
            r matches Ok(f) ==> {
                let s = old(self).spec_secured_meta(old(self).authors()[who]);
                &&& final(self).authors() == old(self).authors().insert(who, s)
                &&& final(self).penalties() == old(self).penalties().remove(KeyPair(from, who))
                &&& final(self).storage.penalties_until == old(self).storage.penalties_until
                &&& final(self).same_except(&*old(self), true, false, false, false, true, false)
                &&& final(self).events@ == old(self).events@ + emitted(
                    old(self).emit_events,
                    Event::AuthorAtRisk {
                        author: who,
                        status: AuthorStatus::Probation,
                        until: s.risk_until,
                    },
                ) + emitted(
                    old(self).emit_events,
                    Event::AuthorPenaltyForgiven { author: who, factor: f },
                )
            },
            old(self).spec_penalties_bounded() ==> final(self).spec_penalties_bounded(),
            r is Err ==> final(self).unchanged(&*old(self)),
    {
        let status = self.get_status(who)?;
        if from <= self.block {
            return Err(Error::FinalizedObligations);
        }
        if status == AuthorStatus::Resigned {
            return Err(Error::AuthorResigned);
        }
        let factor = match self.storage.author_penalties.get(&KeyPair(from, who)) {
            Some(f) => f,
            None => return Err(Error::PenaltyNotFound),
        };
        self.storage.author_penalties.remove(&KeyPair(from, who));
        self.secure_permanence(who)?;
        self.on_forgive(who, factor);
        Ok(factor)
    }

    /// Withdraws the reward of `who` due at `from`, a block after the current one.
    pub fn reclaim(&mut self, who: AccountId, from: BlockNumber) -> (r: Result<Asset, Error>)
        ensures
            r == (if !old(self).authors().contains_key(who) {
                Err(Error::AuthorNotFound)
            } else if from <= old(self).block {
                Err(Error::FinalizedObligations)
            } else if !old(self).rewards().contains_key(KeyPair(from, who)) {
                Err(Error::RewardNotFound)
            } else {
                Ok(old(self).rewards()[KeyPair(from, who)])
            }),
            r matches Ok(v) ==> {
                &&& final(self).rewards() == old(self).rewards().remove(KeyPair(from, who))
                &&& final(self).storage.rewards_until == old(self).storage.rewards_until
                &&& final(self).same_except(&*old(self), false, false, false, true, false, false)
                &&& final(self).events@ == old(self).events@ + emitted(
                    old(self).emit_events,
                    Event::AuthorRewardReclaimed { author: who, amount: v },
                )
            },
            old(self).spec_rewards_bounded() ==> final(self).spec_rewards_bounded(),
            r is Err ==> final(self).unchanged(&*old(self)),
    {
        self.role_exists(who)?;
        if from <= self.block {
            return Err(Error::FinalizedObligations);
        }
        let value = match self.storage.author_rewards.remove(&KeyPair(from, who)) {
            Some(v) => v,
            None => return Err(Error::RewardNotFound),
        };
        self.on_reclaim(who, value);
        Ok(value)
    }
}


/// `m` without the entries of block `n`.
pub open spec fn without_block<V>(m: Map<KeyPair, V>, n: u64) -> Map<KeyPair, V> {
    Map::new(|k: KeyPair| m.contains_key(k) && k.0 != n, |k: KeyPair| m[k])
}

/// `hold + reward`, or the largest amount where that overflows.
pub open spec fn spec_rewarded_hold(hold: Asset, reward: Asset) -> Asset {
    if hold + reward > u128::MAX {
        u128::MAX
    } else {
        (hold + reward) as u128
    }
}

/// `hold` less `factor` of it, rounded down.
pub open spec fn spec_penalized_hold(hold: Asset, factor: Perbill) -> Asset {
    let p = (hold as int) * (factor.spec_parts() as int) / (ACCURACY as int);
    if hold < p {
        0
    } else {
        (hold - p) as u128
    }
}

impl Pallet {
    /// Applying a reward of `reward` to the hold of `author`: the commitment
    /// system's state after, and the events deposited.
    pub open spec fn spec_reward_step<C: CommitmentAdapter>(&self, adapter: C, author: AccountId, reward: Asset) -> (
        C,
        Seq<Event>,
    ) {
        match self.spec_get_hold(&adapter, author) {
            Err(_) => (adapter, Seq::empty()),
            Ok(hold) => {
                let value = spec_rewarded_hold(hold, reward);
                let (a, r) = self.spec_set_hold(
                    adapter,
                    author,
                    value,
                    Precision::BestEffort,
                    Fortitude::Polite,
                );
                if r is Ok {
                    let e = Event::AuthorTotalHold { author, value };
                    (a, emitted(self.emit_events, e) + emitted(self.emit_events, e))
                } else {
                    (a, Seq::empty())
                }
            },
        }
    }

    /// Applying a penalty of `factor` to the hold of `author`: the commitment
    /// system's state after, and the events deposited.
    pub open spec fn spec_penalty_step<C: CommitmentAdapter>(&self, adapter: C, author: AccountId, factor: Perbill) -> (
        C,
        Seq<Event>,
    ) {
        match self.spec_get_hold(&adapter, author) {
            Err(_) => (adapter, Seq::empty()),
            Ok(hold) => {
                let value = spec_penalized_hold(hold, factor);
                let (a, r) = self.spec_set_hold(
                    adapter,
                    author,
                    value,
                    Precision::Exact,
                    Fortitude::Force,
                );
                if r is Ok {
                    let e = Event::AuthorTotalHold { author, value };
                    (a, emitted(self.emit_events, e) + emitted(self.emit_events, e))
                } else {
                    (a, Seq::empty())
                }
            },
        }
    }

    /// Applying the rewards in `list`, in order.
    pub open spec fn spec_apply_rewards<C: CommitmentAdapter>(&self, adapter: C, list: Seq<(AccountId, Asset)>) -> (
        C,
        Seq<Event>,
    )
        decreases list.len(),
    {
        if list.len() == 0 {
            (adapter, Seq::empty())
        } else {
            let (a, ev) = self.spec_apply_rewards(adapter, list.drop_last());
            let (a2, ev2) = self.spec_reward_step(a, list.last().0, list.last().1);
            (a2, ev + ev2)
        }
    }

    /// Applying the penalties in `list`, in order.
    pub open spec fn spec_apply_penalties<C: CommitmentAdapter>(
        &self,
        adapter: C,
        list: Seq<(AccountId, Perbill)>,
    ) -> (C, Seq<Event>)
        decreases list.len(),
    {
        if list.len() == 0 {
            (adapter, Seq::empty())
        } else {
            let (a, ev) = self.spec_apply_penalties(adapter, list.drop_last());
            let (a2, ev2) = self.spec_penalty_step(a, list.last().0, list.last().1);
            (a2, ev + ev2)
        }
    }

    /// Applies the rewards and penalties due at block `n` to the holds of their
    /// authors, and drops them. A reward raises the hold by its amount
    /// (saturating); a penalty lowers it by its factor of the hold, rounded
    /// down. Where an author's hold cannot be read or set, its entry is
    /// dropped all the same. Returns how many rewards and penalties were due.
    pub fn on_initialize<C: CommitmentAdapter>(&mut self, adapter: &mut C, n: BlockNumber) -> (r: (
        usize,
        usize,
    ))
        ensures
            final(self).rewards() == without_block(old(self).rewards(), n),
            final(self).penalties() == without_block(old(self).penalties(), n),
            old(self).spec_rewards_bounded() ==> final(self).spec_rewards_bounded(),
            old(self).spec_penalties_bounded() ==> final(self).spec_penalties_bounded(),
            final(self).storage.rewards_until == old(self).storage.rewards_until,
            final(self).storage.penalties_until == old(self).storage.penalties_until,
            final(self).same_except(&*old(self), false, false, false, true, true, false),
            r.0 == stored_under(old(self).storage.author_rewards.spec_entries(), n).len(),
            r.1 == stored_under(old(self).storage.author_penalties.spec_entries(), n).len(),
            ({
                let rw = stored_under(old(self).storage.author_rewards.spec_entries(), n);
                let pn = stored_under(old(self).storage.author_penalties.spec_entries(), n);
                let (a1, e1) = old(self).spec_apply_rewards(*old(adapter), rw);
                let (a2, e2) = old(self).spec_apply_penalties(a1, pn);
                &&& *final(adapter) == a2
                &&& final(self).events@ == old(self).events@ + e1 + e2
            }),
    {
        let ghost o = *self;
        let ghost a0 = *adapter;
        let rewards = self.storage.author_rewards.under(n);
        let mut i: usize = 0;
        while i < rewards.len()
            invariant
                i <= rewards@.len(),
                rewards@ == stored_under(o.storage.author_rewards.spec_entries(), n),
                forall|j: int|
                    0 <= j < rewards@.len() ==> #[trigger] o.rewards().contains_key(
                        KeyPair(n, rewards@[j].0),
                    ),
                forall|a: u64| #[trigger]
                    o.rewards().contains_key(KeyPair(n, a)) ==> exists|j: int|
                        0 <= j < rewards@.len() && rewards@[j].0 == a,
                self.rewards() == Map::new(
                    |k: KeyPair|
                        o.rewards().contains_key(k) && !(k.0 == n && exists|j: int|
                            0 <= j < i && rewards@[j].0 == k.1),
                    |k: KeyPair| o.rewards()[k],
                ),
                self.storage.rewards_until == o.storage.rewards_until,
                self.same_except(&o, false, false, false, true, false, false),
                ({
                    let (a, ev) = o.spec_apply_rewards(a0, rewards@.take(i as int));
                    *adapter == a && self.events@ == o.events@ + ev
                }),
            decreases rewards@.len() - i,
        {
            let (author, reward) = rewards[i];
            match self.get_hold(adapter, author) {
                Ok(hold) => {
                    let value = hold.saturating_add(reward);
                    if self.set_hold(adapter, author, value, Precision::BestEffort, Fortitude::Polite).is_ok() {
                        self.on_set_hold(author, value);
                    }
                },
                Err(_) => {},
            }
            proof {
                assert(rewards@.take(i + 1).drop_last() =~= rewards@.take(i as int));
            }
            self.storage.author_rewards.remove(&KeyPair(n, author));
            proof {
                assert(self.rewards() =~= Map::new(
                    |k: KeyPair|
                        o.rewards().contains_key(k) && !(k.0 == n && exists|j: int|
                            0 <= j < i + 1 && rewards@[j].0 == k.1),
                    |k: KeyPair| o.rewards()[k],
                )) by {
                    assert forall|k: KeyPair|
                        (exists|j: int| 0 <= j < i + 1 && rewards@[j].0 == k.1) <==> ((exists|
                            j: int,
                        | 0 <= j < i && rewards@[j].0 == k.1) || k.1 == author) by {
                        if k.1 == author {
                            assert(rewards@[i as int].0 == k.1);
                        }
                        if exists|j: int| 0 <= j < i + 1 && rewards@[j].0 == k.1 {
                            let j = choose|j: int| 0 <= j < i + 1 && rewards@[j].0 == k.1;
                            if j == i {
                                assert(k.1 == author);
                            } else {
                                assert(0 <= j < i && rewards@[j].0 == k.1);
                            }
                        }
                    }
                }
            }
            i = i + 1;
        }
        proof {
            assert forall|k: KeyPair| #[trigger] o.rewards().contains_key(k) && k.0 == n implies exists|
                j: int,
            | 0 <= j < rewards@.len() && rewards@[j].0 == k.1 by {
                assert(k == KeyPair(n, k.1));
                assert(o.rewards().contains_key(KeyPair(n, k.1)));
            }
            assert(self.rewards() =~= without_block(o.rewards(), n));
            assert(rewards@.take(rewards@.len() as int) =~= rewards@);
        }
        let ghost o2 = *self;
        let penalties = self.storage.author_penalties.under(n);
        let mut i: usize = 0;
        while i < penalties.len()
            invariant
                i <= penalties@.len(),
                penalties@ == stored_under(o.storage.author_penalties.spec_entries(), n),
                o2.storage.author_penalties == o.storage.author_penalties,
                forall|j: int|
                    0 <= j < penalties@.len() ==> #[trigger] o.penalties().contains_key(
                        KeyPair(n, penalties@[j].0),
                    ),
                forall|a: u64| #[trigger]
                    o.penalties().contains_key(KeyPair(n, a)) ==> exists|j: int|
                        0 <= j < penalties@.len() && penalties@[j].0 == a,
                self.penalties() == Map::new(
                    |k: KeyPair|
                        o.penalties().contains_key(k) && !(k.0 == n && exists|j: int|
                            0 <= j < i && penalties@[j].0 == k.1),
                    |k: KeyPair| o.penalties()[k],
                ),
                self.storage.penalties_until == o.storage.penalties_until,
                self.rewards() == without_block(o.rewards(), n),
                self.storage.rewards_until == o.storage.rewards_until,
                self.same_except(&o, false, false, false, true, true, false),
                ({
                    let (a1, e1) = o.spec_apply_rewards(a0, rewards@);
                    let (a, ev) = o.spec_apply_penalties(a1, penalties@.take(i as int));
                    *adapter == a && self.events@ == o.events@ + e1 + ev
                }),
            decreases penalties@.len() - i,
        {
            let (author, factor) = penalties[i];
            match self.get_hold(adapter, author) {
                Ok(hold) => {
                    let penalty = factor.mul_floor(hold);
                    let value = hold.saturating_sub(penalty);
                    if self.set_hold(adapter, author, value, Precision::Exact, Fortitude::Force).is_ok() {
                        self.on_set_hold(author, value);
                    }
                },
                Err(_) => {},
            }
            proof {
                assert(penalties@.take(i + 1).drop_last() =~= penalties@.take(i as int));
            }
            self.storage.author_penalties.remove(&KeyPair(n, author));
            proof {
                assert(self.penalties() =~= Map::new(
                    |k: KeyPair|
                        o.penalties().contains_key(k) && !(k.0 == n && exists|j: int|
                            0 <= j < i + 1 && penalties@[j].0 == k.1),
                    |k: KeyPair| o.penalties()[k],
                )) by {
                    assert forall|k: KeyPair|
                        (exists|j: int| 0 <= j < i + 1 && penalties@[j].0 == k.1) <==> ((exists|
                            j: int,
                        | 0 <= j < i && penalties@[j].0 == k.1) || k.1 == author) by {
                        if k.1 == author {
                            assert(penalties@[i as int].0 == k.1);
                        }
                        if exists|j: int| 0 <= j < i + 1 && penalties@[j].0 == k.1 {
                            let j = choose|j: int| 0 <= j < i + 1 && penalties@[j].0 == k.1;
                            if j == i {
                                assert(k.1 == author);
                            } else {
                                assert(0 <= j < i && penalties@[j].0 == k.1);
                            }
                        }
                    }
                }
            }
            i = i + 1;
        }
        proof {
            assert forall|k: KeyPair| #[trigger] o.penalties().contains_key(k) && k.0 == n implies exists|
                j: int,
            | 0 <= j < penalties@.len() && penalties@[j].0 == k.1 by {
                assert(k == KeyPair(n, k.1));
                assert(o.penalties().contains_key(KeyPair(n, k.1)));
            }
            assert(self.penalties() =~= without_block(o.penalties(), n));
            assert(penalties@.take(penalties@.len() as int) =~= penalties@);
        }
        (rewards.len(), penalties.len())
    }
}

} // verus!
