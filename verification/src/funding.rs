//! Backing of authors: directly, or through an index or a pool of author
//! digests. The backing itself is a commitment in the commitment system; the
//! pallet records who backs whom.

use vstd::prelude::*;

use crate::adapter::{vec_result_is, CommitmentAdapter};
use crate::pallet::{emitted, settings_valid, Pallet};
use crate::table::{lists_under, stored_under, KeyPair};
use crate::types::{
    spec_backer, AccountId, Asset, Author, Digest, Directive, Error, Event, Fortitude,
    FreezeReason, Funder, Precision, Shares,
};

verus! {

/// The authors of the digests of `entries`, in order; `None` where a digest
/// is not an author's.
pub open spec fn spec_resolve<X>(digests: Map<Digest, Author>, entries: Seq<(Digest, X)>) -> Option<
    Seq<Author>,
>
    decreases entries.len(),
{
    if entries.len() == 0 {
        Some(Seq::empty())
    } else {
        match spec_resolve(digests, entries.drop_last()) {
            None => None,
            Some(s) => if digests.contains_key(entries.last().0) {
                Some(s.push(digests[entries.last().0]))
            } else {
                None
            },
        }
    }
}

/// `entries` with each digest replaced by its author; `None` where a digest
/// is not an author's.
pub open spec fn spec_resolve_values(digests: Map<Digest, Author>, entries: Seq<(Digest, Asset)>) -> Option<
    Seq<(Author, Asset)>,
>
    decreases entries.len(),
{
    if entries.len() == 0 {
        Some(Seq::empty())
    } else {
        match spec_resolve_values(digests, entries.drop_last()) {
            None => None,
            Some(s) => if digests.contains_key(entries.last().0) {
                Some(s.push((digests[entries.last().0], entries.last().1)))
            } else {
                None
            },
        }
    }
}

/// `m` with `by` recorded as the funder of each of `authors` under `backer`.
pub open spec fn spec_insert_funder(
    m: Map<KeyPair, Funder>,
    authors: Seq<Author>,
    backer: AccountId,
    by: Funder,
) -> Map<KeyPair, Funder>
    decreases authors.len(),
{
    if authors.len() == 0 {
        m
    } else {
        spec_insert_funder(m, authors.drop_last(), backer, by).insert(
            KeyPair(authors.last(), backer),
            by,
        )
    }
}

/// `m` without `backer` as a funder of any of `authors`.
pub open spec fn spec_remove_funder(m: Map<KeyPair, Funder>, authors: Seq<Author>, backer: AccountId) -> Map<
    KeyPair,
    Funder,
>
    decreases authors.len(),
{
    if authors.len() == 0 {
        m
    } else {
        spec_remove_funder(m, authors.drop_last(), backer).remove(KeyPair(authors.last(), backer))
    }
}

/// The digest a funder commits towards, given the author's digest.
pub open spec fn spec_towards(by: Funder, author_digest: Digest) -> Digest {
    match by {
        Funder::Direct(_) => author_digest,
        Funder::Index { digest, .. } => digest,
        Funder::Pool { digest, .. } => digest,
    }
}

/// The event of `by` funding `to` with `amount`.
pub open spec fn spec_funded_event(by: Funder, to: Author, amount: Asset) -> Event {
    match by {
        Funder::Direct(backer) => Event::AuthorFunded { author: to, backer, amount },
        Funder::Index { digest, backer } => Event::IndexFunded { index: digest, backer, amount },
        Funder::Pool { digest, backer } => Event::PoolFunded { pool: digest, backer, amount },
    }
}

/// The event of `by` drawing `amount` from `from`.
pub open spec fn spec_drawn_event(by: Funder, from: Author, amount: Asset) -> Event {
    match by {
        Funder::Direct(backer) => Event::AuthorDrawn { author: from, backer, amount },
        Funder::Index { digest, backer } => Event::IndexDrawn { index: digest, backer, amount },
        Funder::Pool { digest, backer } => Event::PoolDrawn { pool: digest, backer, amount },
    }
}

/// The smaller of two amounts.
pub open spec fn min_asset(a: Asset, b: Asset) -> Asset {
    if a <= b {
        a
    } else {
        b
    }
}

/// The larger of two amounts.
pub open spec fn max_asset(a: Asset, b: Asset) -> Asset {
    if a >= b {
        a
    } else {
        b
    }
}

impl Pallet {
    /// Whether some funder backs `who`.
    pub fn has_funds(&self, who: Author) -> (r: Result<(), Error>)
        ensures
            r == (if exists|b: AccountId| #[trigger] self.funders().contains_key(KeyPair(who, b)) {
                Ok(())
            } else {
                Err(Error::FundDoesNotExist)
            }),
    {
        let entries = self.storage.author_funders.under(who);
        if entries.len() > 0 {
            proof {
                assert(self.funders().contains_key(KeyPair(who, entries@[0].0)));
            }
            Ok(())
        } else {
            Err(Error::FundDoesNotExist)
        }
    }

    /// The commitment limits of a direct backer `f` towards `digest`: of
    /// raising its commitment, which must be towards `digest` already, or of
    /// placing a new one.
    pub open spec fn spec_direct_limits<C: CommitmentAdapter>(
        &self,
        adapter: &C,
        f: AccountId,
        digest: Digest,
        d: Directive,
    ) -> Result<crate::types::Limits, Error> {
        if adapter.spec_commit_exists(f, FreezeReason::AuthorFunding) is Ok {
            match adapter.spec_commit_digest(f, FreezeReason::AuthorFunding) {
                Err(e) => Err(e),
                Ok(ed) => if ed != digest {
                    Err(Error::FundedToAnotherDigest)
                } else {
                    adapter.spec_raise_commit_limits(f, FreezeReason::AuthorFunding, d)
                },
            }
        } else {
            adapter.spec_place_commit_limits(f, FreezeReason::AuthorFunding, digest, d)
        }
    }

    fn direct_limits<C: CommitmentAdapter>(
        &self,
        adapter: &C,
        f: AccountId,
        digest: Digest,
        d: Directive,
    ) -> (r: Result<crate::types::Limits, Error>)
        ensures
            r == self.spec_direct_limits(adapter, f, digest, d),
    {
        if adapter.commit_exists(f, FreezeReason::AuthorFunding).is_ok() {
            let exist = adapter.get_commit_digest(f, FreezeReason::AuthorFunding)?;
            if exist != digest {
                return Err(Error::FundedToAnotherDigest);
            }
            adapter.raise_commit_limits(f, FreezeReason::AuthorFunding, d)
        } else {
            adapter.place_commit_limits(f, FreezeReason::AuthorFunding, digest, d)
        }
    }

    /// The most `by` may commit to `to`: the author's own bound within the
    /// global one, and for a direct backer also within its commitment limits.
    pub open spec fn spec_max_exposure<C: CommitmentAdapter>(
        &self,
        adapter: &C,
        by: Funder,
        to: Author,
        precision: Precision,
        force: Fortitude,
    ) -> Result<Asset, Error> {
        match self.spec_get_meta(to) {
            Err(e) => Err(e),
            Ok(info) => {
                let global = self.settings().max_exposure;
                let local = match info.max_fund {
                    Some(x) => x,
                    None => global,
                };
                let base = min_asset(local, global);
                match by {
                    Funder::Direct(f) => match self.spec_direct_limits(
                        adapter,
                        f,
                        info.digest,
                        Directive { precision, force },
                    ) {
                        Err(e) => Err(e),
                        Ok(l) => Ok(
                            min_asset(
                                base,
                                match l.maximum {
                                    Some(m) => m,
                                    None => u128::MAX,
                                },
                            ),
                        ),
                    },
                    _ => Ok(base),
                }
            },
        }
    }

    /// The most `by` may commit to `to`.
    pub fn max_exposure<C: CommitmentAdapter>(
        &self,
        adapter: &C,
        by: Funder,
        to: Author,
        precision: Precision,
        force: Fortitude,
    ) -> (r: Result<Asset, Error>)
        requires
            settings_valid(self.settings()),
        ensures
            r == self.spec_max_exposure(adapter, by, to, precision, force),
    {
        let info = self.get_meta(to)?;
        let global = self.storage.settings.max_exposure;
        let local = match info.max_fund {
            Some(x) => x,
            None => global,
        };
        let base = if local <= global {
            local
        } else {
            global
        };
        match by {
            Funder::Direct(f) => {
                let limits = self.direct_limits(adapter, f, info.digest, Directive { precision, force })?;
                let commit_max = match limits.maximum {
                    Some(m) => m,
                    None => u128::MAX,
                };
                Ok(
                    if base <= commit_max {
                        base
                    } else {
                        commit_max
                    },
                )
            },
            _ => Ok(base),
        }
    }

    /// The least `by` must commit to `to`: the author's own bound above the
    /// global one, and for a direct backer also above its commitment limits.
    pub open spec fn spec_min_fund<C: CommitmentAdapter>(
        &self,
        adapter: &C,
        by: Funder,
        to: Author,
        precision: Precision,
        force: Fortitude,
    ) -> Result<Asset, Error> {
        match self.spec_get_meta(to) {
            Err(e) => Err(e),
            Ok(info) => {
                let global = self.settings().min_fund;
                let local = match info.min_fund {
                    Some(x) => x,
                    None => global,
                };
                let base = max_asset(local, global);
                match by {
                    Funder::Direct(f) => match self.spec_direct_limits(
                        adapter,
                        f,
                        info.digest,
                        Directive { precision, force },
                    ) {
                        Err(e) => Err(e),
                        Ok(l) => Ok(
                            max_asset(
                                base,
                                match l.minimum {
                                    Some(m) => m,
                                    None => 0,
                                },
                            ),
                        ),
                    },
                    _ => Ok(base),
                }
            },
        }
    }

    /// The least `by` must commit to `to`.
    pub fn min_fund<C: CommitmentAdapter>(
        &self,
        adapter: &C,
        by: Funder,
        to: Author,
        precision: Precision,
        force: Fortitude,
    ) -> (r: Result<Asset, Error>)
        requires
            settings_valid(self.settings()),
        ensures
            r == self.spec_min_fund(adapter, by, to, precision, force),
    {
        let info = self.get_meta(to)?;
        let global = self.storage.settings.min_fund;
        let local = match info.min_fund {
            Some(x) => x,
            None => global,
        };
        let base = if local >= global {
            local
        } else {
            global
        };
        match by {
            Funder::Direct(f) => {
                let limits = self.direct_limits(adapter, f, info.digest, Directive { precision, force })?;
                let commit_min = match limits.minimum {
                    Some(m) => m,
                    None => 0,
                };
                Ok(
                    if base >= commit_min {
                        base
                    } else {
                        commit_min
                    },
                )
            },
            _ => Ok(base),
        }
    }

    /// The backing committed towards the digest of `who`.
    pub fn backed_value<C: CommitmentAdapter>(&self, adapter: &C, who: Author) -> (r: Result<
        Asset,
        Error,
    >)
        ensures
            r == (match self.spec_get_meta(who) {
                Err(e) => Err(e),
                Ok(m) => adapter.spec_digest_value(FreezeReason::AuthorFunding, m.digest),
            }),
    {
        let info = self.get_meta(who)?;
        adapter.get_digest_value(FreezeReason::AuthorFunding, info.digest)
    }

    /// The backing of all authors.
    pub fn total_backing<C: CommitmentAdapter>(&self, adapter: &C) -> (r: Asset)
        ensures
            r == adapter.spec_total_value(FreezeReason::AuthorFunding),
    {
        adapter.get_total_value(FreezeReason::AuthorFunding)
    }

    /// Whether `by` may commit `value` to `to`: the author is available; the
    /// value lies within the minimum and maximum, the global ones narrowed by
    /// the author's own (and, for a direct backer, by its commitment limits),
    /// whatever the route; an index or a pool must hold the author; and a
    /// backer that has committed already did so towards the same digest.
    pub open spec fn spec_can_fund<C: CommitmentAdapter>(
        &self,
        adapter: &C,
        by: Funder,
        to: Author,
        value: Asset,
        precision: Precision,
        force: Fortitude,
    ) -> Result<(), Error> {
        match self.spec_is_available(adapter, to) {
            Err(e) => Err(e),
            Ok(_) => {
                let info = self.authors()[to];
                let bounds: Result<(), Error> = match self.spec_min_fund(adapter, by, to, precision, force) {
                    Err(e) => Err(e),
                    Ok(mn) => if value < mn {
                        Err(Error::BelowMinimumFund)
                    } else {
                        match self.spec_max_exposure(adapter, by, to, precision, force) {
                            Err(e) => Err(e),
                            Ok(mx) => if value > mx {
                                Err(Error::AboveMaximumExposure)
                            } else {
                                Ok(())
                            },
                        }
                    },
                };
                let checked: Result<(), Error> = match bounds {
                    Err(e) => Err(e),
                    Ok(_) => match by {
                        Funder::Direct(_) => Ok(()),
                        Funder::Index { digest, .. } => adapter.spec_entry_exists(
                            FreezeReason::AuthorFunding,
                            digest,
                            info.digest,
                        ),
                        Funder::Pool { digest, .. } => adapter.spec_slot_exists(
                            FreezeReason::AuthorFunding,
                            digest,
                            info.digest,
                        ),
                    },
                };
                match checked {
                    Err(e) => Err(e),
                    Ok(_) => {
                        let f = spec_backer(by);
                        if adapter.spec_commit_exists(f, FreezeReason::AuthorFunding) is Ok {
                            match adapter.spec_commit_digest(f, FreezeReason::AuthorFunding) {
                                Err(e) => Err(e),
                                Ok(d) => if d != spec_towards(by, info.digest) {
                                    Err(Error::FundedToAnotherDigest)
                                } else {
                                    Ok(())
                                },
                            }
                        } else {
                            Ok(())
                        }
                    },
                }
            },
        }
    }

    /// Whether `by` may commit `value` to `to`.
    pub fn can_fund<C: CommitmentAdapter>(
        &self,
        adapter: &C,
        by: Funder,
        to: Author,
        value: Asset,
        precision: Precision,
        force: Fortitude,
    ) -> (r: Result<(), Error>)
        requires
            settings_valid(self.settings()),
        ensures
            r == self.spec_can_fund(adapter, by, to, value, precision, force),
            r is Ok ==> {
                &&& self.spec_is_available(adapter, to) is Ok
                &&& self.spec_min_fund(adapter, by, to, precision, force) matches Ok(lo)
                &&& self.spec_max_exposure(adapter, by, to, precision, force) matches Ok(hi)
                &&& lo <= value <= hi
                &&& self.settings().min_fund <= value <= self.settings().max_exposure
                &&& (self.authors()[to].min_fund matches Some(m) ==> m <= value)
                &&& (self.authors()[to].max_fund matches Some(m) ==> value <= m)
            },
    {
        self.is_available(adapter, to)?;
        let info = self.get_meta(to)?;
        let reason = FreezeReason::AuthorFunding;
        if value < self.min_fund(adapter, by, to, precision, force)? {
            return Err(Error::BelowMinimumFund);
        }
        if value > self.max_exposure(adapter, by, to, precision, force)? {
            return Err(Error::AboveMaximumExposure);
        }
        let (funder, towards) = match by {
            Funder::Direct(backer) => (backer, info.digest),
            Funder::Index { digest, backer } => {
                adapter.entry_exists(reason, digest, info.digest)?;
                (backer, digest)
            },
            Funder::Pool { digest, backer } => {
                adapter.slot_exists(reason, digest, info.digest)?;
                (backer, digest)
            },
        };
        if adapter.commit_exists(funder, reason).is_ok() {
            let exist = adapter.get_commit_digest(funder, reason)?;
            if exist != towards {
                return Err(Error::FundedToAnotherDigest);
            }
        }
        Ok(())
    }

    /// The authors whose funders change when `by` funds or draws from `to`:
    /// `to` alone for a direct backer, every entry (slot) of the index
    /// (pool) otherwise, as the commitment system lists them.
    pub open spec fn spec_touched_authors<C: CommitmentAdapter>(&self, adapter: &C, to: Author, by: Funder) -> Result<
        Seq<Author>,
        Error,
    > {
        let entries = match by {
            Funder::Direct(_) => Ok(Seq::<(Digest, Shares)>::empty()),
            Funder::Index { digest, .. } => adapter.spec_entries_shares(
                FreezeReason::AuthorFunding,
                digest,
            ),
            Funder::Pool { digest, .. } => adapter.spec_slots_shares(
                FreezeReason::AuthorFunding,
                digest,
            ),
        };
        match by {
            Funder::Direct(_) => Ok(seq![to]),
            _ => match entries {
                Err(e) => Err(e),
                Ok(es) => match spec_resolve(self.digests(), es) {
                    None => Err(Error::AuthorDigestNotFound),
                    Some(a) => Ok(a),
                },
            },
        }
    }

    fn resolve_entries(&self, entries: &Vec<(Digest, Shares)>) -> (r: Option<Vec<Author>>)
        ensures
            match r {
                Some(v) => spec_resolve(self.digests(), entries@) == Some(v@),
                None => spec_resolve(self.digests(), entries@) is None,
            },
    {
        let mut out: Vec<Author> = Vec::new();
        let mut i: usize = 0;
        while i < entries.len()
            invariant
                i <= entries@.len(),
                spec_resolve(self.digests(), entries@.take(i as int)) == Some(out@),
            decreases entries@.len() - i,
        {
            proof {
                assert(entries@.take(i + 1).drop_last() =~= entries@.take(i as int));
            }
            match self.storage.authors_digest.get(&entries[i].0) {
                Some(a) => out.push(a),
                None => {
                    proof {
                        lemma_resolve_prefix_none(self.digests(), entries@, i as int + 1);
                    }
                    return None;
                },
            }
            i = i + 1;
        }
        proof {
            assert(entries@.take(entries@.len() as int) =~= entries@);
        }
        Some(out)
    }

    fn touched_authors<C: CommitmentAdapter>(&self, adapter: &C, to: Author, by: Funder) -> (r: Result<
        Vec<Author>,
        Error,
    >)
        ensures
            vec_result_is(r, self.spec_touched_authors(adapter, to, by)),
    {
        let entries = match by {
            Funder::Direct(_) => {
                let mut v: Vec<Author> = Vec::new();
                v.push(to);
                proof {
                    assert(v@ =~= seq![to]);
                }
                return Ok(v);
            },
            Funder::Index { digest, .. } => adapter.get_entries_shares(
                FreezeReason::AuthorFunding,
                digest,
            )?,
            Funder::Pool { digest, .. } => adapter.get_slots_shares(
                FreezeReason::AuthorFunding,
                digest,
            )?,
        };
        match self.resolve_entries(&entries) {
            Some(v) => Ok(v),
            None => Err(Error::AuthorDigestNotFound),
        }
    }

    /// Committing `value` of `by`'s assets: raising its commitment where it
    /// has one, placing one towards the funded digest otherwise.
    pub open spec fn spec_fund_commit<C: CommitmentAdapter>(
        adapter: C,
        by: Funder,
        towards: Digest,
        value: Asset,
        d: Directive,
    ) -> (C, Result<Asset, Error>) {
        let f = spec_backer(by);
        if adapter.spec_commit_exists(f, FreezeReason::AuthorFunding) is Ok {
            adapter.spec_raise_commit(f, FreezeReason::AuthorFunding, value, d)
        } else {
            adapter.spec_place_commit(f, FreezeReason::AuthorFunding, towards, value, d)
        }
    }

    /// `by` funding `to` with `value`: the commitment system's state after,
    /// and the outcome (the amount committed).
    pub open spec fn spec_fund<C: CommitmentAdapter>(
        &self,
        adapter: C,
        to: Author,
        by: Funder,
        value: Asset,
        precision: Precision,
        force: Fortitude,
    ) -> (C, Result<Asset, Error>) {
        match self.spec_can_fund(&adapter, by, to, value, precision, force) {
            Err(e) => (adapter, Err(e)),
            Ok(_) => match self.spec_touched_authors(&adapter, to, by) {
                Err(e) => (adapter, Err(e)),
                Ok(_) => Self::spec_fund_commit(
                    adapter,
                    by,
                    spec_towards(by, self.authors()[to].digest),
                    value,
                    Directive { precision, force },
                ),
            },
        }
    }

    /// `by` funds `to` with `value`; returns the amount committed.
    pub fn fund<C: CommitmentAdapter>(
        &mut self,
        adapter: &mut C,
        to: Author,
        by: Funder,
        value: Asset,
        precision: Precision,
        force: Fortitude,
    ) -> (r: Result<Asset, Error>)
        requires
            settings_valid(old(self).settings()),
        ensures
            (*final(adapter), r) == old(self).spec_fund(*old(adapter), to, by, value, precision, force),
            r matches Ok(actual) ==> {
                let authors = old(self).spec_touched_authors(&*old(adapter), to, by).unwrap();
                &&& final(self).funders() == spec_insert_funder(
                    old(self).funders(),
                    authors,
                    spec_backer(by),
                    by,
                )
                &&& forall|a: Author| #[trigger] authors.contains(a) ==> {
                    &&& final(self).funders().contains_key(KeyPair(a, spec_backer(by)))
                    &&& final(self).funders()[KeyPair(a, spec_backer(by))] == by
                }
                &&& final(self).same_except(&*old(self), false, false, true, false, false, false)
                &&& final(self).events@ == old(self).events@ + emitted(
                    old(self).emit_events,
                    spec_funded_event(by, to, actual),
                )
            },
            r is Err ==> final(self).unchanged(&*old(self)),
    {
        self.can_fund(adapter, by, to, value, precision, force)?;
        let info = self.get_meta(to)?;
        let funder = by.backer();
        let towards = match by {
            Funder::Direct(_) => info.digest,
            Funder::Index { digest, .. } => digest,
            Funder::Pool { digest, .. } => digest,
        };
        let authors = self.touched_authors(adapter, to, by)?;
        let d = Directive { precision, force };
        let actual = if adapter.commit_exists(funder, FreezeReason::AuthorFunding).is_ok() {
            adapter.raise_commit(funder, FreezeReason::AuthorFunding, value, d)?
        } else {
            adapter.place_commit(funder, FreezeReason::AuthorFunding, towards, value, d)?
        };
        let ghost o = *self;
        let mut i: usize = 0;
        while i < authors.len()
            invariant
                i <= authors@.len(),
                self.funders() == spec_insert_funder(o.funders(), authors@.take(i as int), funder, by),
                self.same_except(&o, false, false, true, false, false, false),
                self.events@ == o.events@,
            decreases authors@.len() - i,
        {
            proof {
                assert(authors@.take(i + 1).drop_last() =~= authors@.take(i as int));
            }
            self.storage.author_funders.insert(KeyPair(authors[i], funder), by);
            i = i + 1;
        }
        proof {
            assert(authors@.take(authors@.len() as int) =~= authors@);
            assert forall|a: Author| #[trigger] authors@.contains(a) implies {
                &&& self.funders().contains_key(KeyPair(a, funder))
                &&& self.funders()[KeyPair(a, funder)] == by
            } by {
                crate::laws::law_funding_records_backer(o.funders(), authors@, funder, by, KeyPair(a, funder));
            }
        }
        self.on_funded(to, by, actual);
        Ok(actual)
    }

    /// Whether `by` may draw its backing from `from`: it holds a commitment
    /// towards the author's digest (directly), or towards an index (pool)
    /// that holds the author.
    pub open spec fn spec_can_draw<C: CommitmentAdapter>(&self, adapter: &C, by: Funder, from: Author) -> Result<
        (),
        Error,
    > {
        match self.spec_get_meta(from) {
            Err(e) => Err(e),
            Ok(info) => {
                let held: Result<(), Error> = match by {
                    Funder::Direct(_) => Ok(()),
                    Funder::Index { digest, .. } => adapter.spec_entry_exists(
                        FreezeReason::AuthorFunding,
                        digest,
                        info.digest,
                    ),
                    Funder::Pool { digest, .. } => adapter.spec_slot_exists(
                        FreezeReason::AuthorFunding,
                        digest,
                        info.digest,
                    ),
                };
                let f = spec_backer(by);
                match held {
                    Err(e) => Err(e),
                    Ok(_) => match adapter.spec_commit_exists(f, FreezeReason::AuthorFunding) {
                        Err(e) => Err(e),
                        Ok(_) => match adapter.spec_commit_digest(f, FreezeReason::AuthorFunding) {
                            Err(e) => Err(e),
                            Ok(d) => if d != spec_towards(by, info.digest) {
                                Err(Error::FundedToAnotherDigest)
                            } else {
                                Ok(())
                            },
                        },
                    },
                }
            },
        }
    }

    /// Whether `by` may draw its backing from `from`.
    pub fn can_draw<C: CommitmentAdapter>(&self, adapter: &C, by: Funder, from: Author) -> (r: Result<
        (),
        Error,
    >)
        ensures
            r == self.spec_can_draw(adapter, by, from),
    {
        let info = self.get_meta(from)?;
        let reason = FreezeReason::AuthorFunding;
        let (funder, towards) = match by {
            Funder::Direct(backer) => (backer, info.digest),
            Funder::Index { digest, backer } => {
                adapter.entry_exists(reason, digest, info.digest)?;
                (backer, digest)
            },
            Funder::Pool { digest, backer } => {
                adapter.slot_exists(reason, digest, info.digest)?;
                (backer, digest)
            },
        };
        adapter.commit_exists(funder, reason)?;
        let exist = adapter.get_commit_digest(funder, reason)?;
        if exist != towards {
            return Err(Error::FundedToAnotherDigest);
        }
        Ok(())
    }

    /// `by` drawing its backing from `from`: the commitment system's state
    /// after, and the outcome (the amount released).
    pub open spec fn spec_draw<C: CommitmentAdapter>(&self, adapter: C, from: Author, by: Funder) -> (
        C,
        Result<Asset, Error>,
    ) {
        match self.spec_can_draw(&adapter, by, from) {
            Err(e) => (adapter, Err(e)),
            Ok(_) => match self.spec_touched_authors(&adapter, from, by) {
                Err(e) => (adapter, Err(e)),
                Ok(_) => adapter.spec_resolve_commit(spec_backer(by), FreezeReason::AuthorFunding),
            },
        }
    }

    /// `by` draws its backing from `from`, releasing its whole commitment;
    /// returns the amount released.
    pub fn draw<C: CommitmentAdapter>(&mut self, adapter: &mut C, from: Author, by: Funder) -> (r:
        Result<Asset, Error>)
        ensures
            (*final(adapter), r) == old(self).spec_draw(*old(adapter), from, by),
            r matches Ok(actual) ==> {
                let authors = old(self).spec_touched_authors(&*old(adapter), from, by).unwrap();
                &&& final(self).funders() == spec_remove_funder(
                    old(self).funders(),
                    authors,
                    spec_backer(by),
                )
                &&& final(self).same_except(&*old(self), false, false, true, false, false, false)
                &&& final(self).events@ == old(self).events@ + emitted(
                    old(self).emit_events,
                    spec_drawn_event(by, from, actual),
                )
            },
            r is Err ==> final(self).unchanged(&*old(self)),
    {
        self.can_draw(adapter, by, from)?;
        let funder = by.backer();
        let authors = self.touched_authors(adapter, from, by)?;
        let actual = adapter.resolve_commit(funder, FreezeReason::AuthorFunding)?;
        let ghost o = *self;
        let mut i: usize = 0;
        while i < authors.len()
            invariant
                i <= authors@.len(),
                self.funders() == spec_remove_funder(o.funders(), authors@.take(i as int), funder),
                self.same_except(&o, false, false, true, false, false, false),
                self.events@ == o.events@,
            decreases authors@.len() - i,
        {
            proof {
                assert(authors@.take(i + 1).drop_last() =~= authors@.take(i as int));
            }
            self.storage.author_funders.remove(&KeyPair(authors[i], funder));
            i = i + 1;
        }
        proof {
            assert(authors@.take(authors@.len() as int) =~= authors@);
        }
        self.on_drawn(from, by, actual);
        Ok(actual)
    }

    /// The value a funder holds in an author with digest `author_digest`.
    pub open spec fn spec_backing_of<C: CommitmentAdapter>(adapter: &C, f: Funder, author_digest: Digest) -> Result<
        Asset,
        Error,
    > {
        match f {
            Funder::Direct(d) => adapter.spec_commit_value(d, FreezeReason::AuthorFunding),
            Funder::Index { digest, backer } => adapter.spec_entry_value_for(
                backer,
                FreezeReason::AuthorFunding,
                digest,
                author_digest,
            ),
            Funder::Pool { digest, backer } => adapter.spec_slot_value_for(
                backer,
                FreezeReason::AuthorFunding,
                digest,
                author_digest,
            ),
        }
    }

    /// The funders in `entries` with the value each holds; the first error
    /// where a value cannot be read.
    pub open spec fn spec_backers<C: CommitmentAdapter>(
        adapter: &C,
        entries: Seq<(AccountId, Funder)>,
        author_digest: Digest,
    ) -> Result<Seq<(Funder, Asset)>, Error>
        decreases entries.len(),
    {
        if entries.len() == 0 {
            Ok(Seq::empty())
        } else {
            match Self::spec_backers(adapter, entries.drop_last(), author_digest) {
                Err(e) => Err(e),
                Ok(s) => match Self::spec_backing_of(adapter, entries.last().1, author_digest) {
                    Err(e) => Err(e),
                    Ok(v) => Ok(s.push((entries.last().1, v))),
                },
            }
        }
    }

    /// The funders of `who` with the value each holds in it.
    pub fn backers_of<C: CommitmentAdapter>(&self, adapter: &C, who: Author) -> (r: Result<
        Vec<(Funder, Asset)>,
        Error,
    >)
        ensures
            vec_result_is(
                r,
                match self.spec_get_meta(who) {
                    Err(e) => Err(e),
                    Ok(m) => Self::spec_backers(
                        adapter,
                        stored_under(self.storage.author_funders.spec_entries(), who),
                        m.digest,
                    ),
                },
            ),
            r is Ok ==> lists_under(
                self.funders(),
                who,
                stored_under(self.storage.author_funders.spec_entries(), who),
            ),
    {
        let info = self.get_meta(who)?;
        let entries = self.storage.author_funders.under(who);
        let mut result: Vec<(Funder, Asset)> = Vec::new();
        let mut i: usize = 0;
        while i < entries.len()
            invariant
                i <= entries@.len(),
                entries@ == stored_under(self.storage.author_funders.spec_entries(), who),
                self.spec_get_meta(who) == Ok::<crate::types::AuthorInfo, Error>(info),
                Self::spec_backers(adapter, entries@.take(i as int), info.digest) == Ok::<
                    Seq<(Funder, Asset)>,
                    Error,
                >(result@),
            decreases entries@.len() - i,
        {
            proof {
                assert(entries@.take(i + 1).drop_last() =~= entries@.take(i as int));
            }
            let f = entries[i].1;
            let value = match f {
                Funder::Direct(d) => adapter.get_commit_value(d, FreezeReason::AuthorFunding),
                Funder::Index { digest, backer } => adapter.get_entry_value_for(
                    backer,
                    FreezeReason::AuthorFunding,
                    digest,
                    info.digest,
                ),
                Funder::Pool { digest, backer } => adapter.get_slot_value_for(
                    backer,
                    FreezeReason::AuthorFunding,
                    digest,
                    info.digest,
                ),
            };
            match value {
                Ok(v) => result.push((f, v)),
                Err(e) => {
                    proof {
                        assert(entries@.take(i + 1).last() == entries@[i as int]);
                        assert(Self::spec_backing_of(adapter, f, info.digest) == Err::<Asset, Error>(e));
                        assert(Self::spec_backers(adapter, entries@.take(i + 1), info.digest) == Err::<
                            Seq<(Funder, Asset)>,
                            Error,
                        >(e));
                        lemma_backers_prefix_err(adapter, entries@, info.digest, i as int + 1, e);
                        assert(Self::spec_backers(adapter, entries@, info.digest) == Err::<
                            Seq<(Funder, Asset)>,
                            Error,
                        >(e));
                    }
                    return Err(e);
                },
            }
            i = i + 1;
        }
        proof {
            assert(entries@.take(entries@.len() as int) =~= entries@);
        }
        Ok(result)
    }

    /// What `by` backs: its commitment's digest and value for a direct
    /// backer, its share of each entry (slot) of its index (pool) otherwise.
    pub open spec fn spec_backed_digests<C: CommitmentAdapter>(adapter: &C, by: Funder) -> Result<
        Seq<(Digest, Asset)>,
        Error,
    > {
        match by {
            Funder::Direct(f) => match adapter.spec_commit_digest(f, FreezeReason::AuthorFunding) {
                Err(e) => Err(e),
                Ok(to) => match adapter.spec_commit_value(f, FreezeReason::AuthorFunding) {
                    Err(e) => Err(e),
                    Ok(v) => Ok(seq![(to, v)]),
                },
            },
            Funder::Index { digest, backer } => adapter.spec_entries_value_for(
                backer,
                FreezeReason::AuthorFunding,
                digest,
            ),
            Funder::Pool { digest, backer } => adapter.spec_slots_value_for(
                backer,
                FreezeReason::AuthorFunding,
                digest,
            ),
        }
    }

    /// The authors `by` backs, with the value it holds in each.
    pub fn backed_for<C: CommitmentAdapter>(&self, adapter: &C, by: Funder) -> (r: Result<
        Vec<(Author, Asset)>,
        Error,
    >)
        ensures
            vec_result_is(
                r,
                match Self::spec_backed_digests(adapter, by) {
                    Err(e) => Err(e),
                    Ok(s) => match spec_resolve_values(self.digests(), s) {
                        None => Err(Error::AuthorDigestNotFound),
                        Some(v) => Ok(v),
                    },
                },
            ),
    {
        let pre: Vec<(Digest, Asset)> = match by {
            Funder::Direct(f) => {
                let to = adapter.get_commit_digest(f, FreezeReason::AuthorFunding)?;
                let value = adapter.get_commit_value(f, FreezeReason::AuthorFunding)?;
                let mut v: Vec<(Digest, Asset)> = Vec::new();
                v.push((to, value));
                proof {
                    assert(v@ =~= seq![(to, value)]);
                }
                v
            },
            Funder::Index { digest, backer } => adapter.get_entries_value_for(
                backer,
                FreezeReason::AuthorFunding,
                digest,
            )?,
            Funder::Pool { digest, backer } => adapter.get_slots_value_for(
                backer,
                FreezeReason::AuthorFunding,
                digest,
            )?,
        };
        let mut result: Vec<(Author, Asset)> = Vec::new();
        let mut i: usize = 0;
        while i < pre.len()
            invariant
                i <= pre@.len(),
                Self::spec_backed_digests(adapter, by) == Ok::<Seq<(Digest, Asset)>, Error>(pre@),
                spec_resolve_values(self.digests(), pre@.take(i as int)) == Some(result@),
            decreases pre@.len() - i,
        {
            proof {
                assert(pre@.take(i + 1).drop_last() =~= pre@.take(i as int));
            }
            let (d, v) = pre[i];
            match self.storage.authors_digest.get(&d) {
                Some(a) => result.push((a, v)),
                None => {
                    proof {
                        lemma_resolve_values_prefix_none(self.digests(), pre@, i as int + 1);
                    }
                    return Err(Error::AuthorDigestNotFound);
                },
            }
            i = i + 1;
        }
        proof {
            assert(pre@.take(pre@.len() as int) =~= pre@);
        }
        Ok(result)
    }

    /// The value `by` holds in `who`.
    pub open spec fn spec_get_fund<C: CommitmentAdapter>(&self, adapter: &C, who: Author, by: Funder) -> Result<
        Asset,
        Error,
    > {
        match self.spec_get_meta(who) {
            Err(e) => Err(e),
            Ok(info) => match by {
                Funder::Direct(d) => match adapter.spec_commit_digest(d, FreezeReason::AuthorFunding) {
                    Err(e) => Err(e),
                    Ok(digest) => if !self.digests().contains_key(digest) {
                        Err(Error::AuthorDigestNotFound)
                    } else if self.digests()[digest] != who {
                        Err(Error::FundedToAnotherDigest)
                    } else {
                        adapter.spec_commit_value(d, FreezeReason::AuthorFunding)
                    },
                },
                _ => Self::spec_backing_of(adapter, by, info.digest),
            },
        }
    }

    /// The value `by` holds in `who`.
    pub fn get_fund<C: CommitmentAdapter>(&self, adapter: &C, who: Author, by: Funder) -> (r: Result<
        Asset,
        Error,
    >)
        ensures
            r == self.spec_get_fund(adapter, who, by),
    {
        let info = self.get_meta(who)?;
        match by {
            Funder::Direct(direct) => {
                let digest = adapter.get_commit_digest(direct, FreezeReason::AuthorFunding)?;
                let is_author = match self.storage.authors_digest.get(&digest) {
                    Some(a) => a,
                    None => return Err(Error::AuthorDigestNotFound),
                };
                if is_author != who {
                    return Err(Error::FundedToAnotherDigest);
                }
                adapter.get_commit_value(direct, FreezeReason::AuthorFunding)
            },
            Funder::Index { digest, backer } => adapter.get_entry_value_for(
                backer,
                FreezeReason::AuthorFunding,
                digest,
                info.digest,
            ),
            Funder::Pool { digest, backer } => adapter.get_slot_value_for(
                backer,
                FreezeReason::AuthorFunding,
                digest,
                info.digest,
            ),
        }
    }

    /// Reports that `by` drew `amount` from `who`, where the role hooks emit events.
    pub fn on_drawn(&mut self, who: Author, by: Funder, amount: Asset)
        ensures
            final(self).same_state(&*old(self)),
            final(self).events@ == old(self).events@ + emitted(
                old(self).emit_events,
                spec_drawn_event(by, who, amount),
            ),
    {
        let e = match by {
            Funder::Direct(backer) => Event::AuthorDrawn { author: who, backer, amount },
            Funder::Index { digest, backer } => Event::IndexDrawn { index: digest, backer, amount },
            Funder::Pool { digest, backer } => Event::PoolDrawn { pool: digest, backer, amount },
        };
        self.emit(e);
    }

    /// Reports that `by` funded `who` with `amount`, where the role hooks emit events.
    pub fn on_funded(&mut self, who: Author, by: Funder, amount: Asset)
        ensures
            final(self).same_state(&*old(self)),
            final(self).events@ == old(self).events@ + emitted(
                old(self).emit_events,
                spec_funded_event(by, who, amount),
            ),
    {
        let e = match by {
            Funder::Direct(backer) => Event::AuthorFunded { author: who, backer, amount },
            Funder::Index { digest, backer } => Event::IndexFunded { index: digest, backer, amount },
            Funder::Pool { digest, backer } => Event::PoolFunded { pool: digest, backer, amount },
        };
        self.emit(e);
    }
}

proof fn lemma_resolve_prefix_none<X>(digests: Map<Digest, Author>, s: Seq<(Digest, X)>, k: int)
    requires
        1 <= k <= s.len(),
        spec_resolve(digests, s.take(k)) is None,
    ensures
        spec_resolve(digests, s) is None,
    decreases s.len() - k,
{
    if k < s.len() {
        assert(s.take(k + 1).drop_last() =~= s.take(k));
        lemma_resolve_prefix_none(digests, s, k + 1);
    } else {
        assert(s.take(k) =~= s);
    }
}

proof fn lemma_resolve_values_prefix_none(digests: Map<Digest, Author>, s: Seq<(Digest, Asset)>, k: int)
    requires
        1 <= k <= s.len(),
        spec_resolve_values(digests, s.take(k)) is None,
    ensures
        spec_resolve_values(digests, s) is None,
    decreases s.len() - k,
{
    if k < s.len() {
        assert(s.take(k + 1).drop_last() =~= s.take(k));
        lemma_resolve_values_prefix_none(digests, s, k + 1);
    } else {
        assert(s.take(k) =~= s);
    }
}

proof fn lemma_backers_prefix_err<C: CommitmentAdapter>(
    adapter: &C,
    s: Seq<(AccountId, Funder)>,
    author_digest: Digest,
    k: int,
    e: Error,
)
    requires
        1 <= k <= s.len(),
        Pallet::spec_backers(adapter, s.take(k), author_digest) == Err::<Seq<(Funder, Asset)>, Error>(e),
    ensures
        Pallet::spec_backers(adapter, s, author_digest) == Err::<Seq<(Funder, Asset)>, Error>(e),
    decreases s.len() - k,
{
    if k < s.len() {
        assert(s.take(k + 1).drop_last() =~= s.take(k));
        lemma_backers_prefix_err(adapter, s, author_digest, k + 1, e);
    } else {
        assert(s.take(k) =~= s);
    }
}

} // verus!
