//! The storage side of elections: the weight an author brings, the elected
//! set of the latest election, and its bounds. Two election models share it:
//! the flat one weighs an author by the influence of its whole hold, the fair
//! one by each of its backers.

use vstd::prelude::*;

use crate::adapter::{vec_result_is, CommitmentAdapter, InfluenceModel};
use crate::pallet::{emitted, settings_valid, Pallet};
use crate::table::{stored_under, KeyPair};
use crate::types::{Asset, Author, Error, Event, Funder};

verus! {

/// The candidates of a flat election, with their influence.
pub type ElectViaInfluence = Vec<(Author, Vec<u128>)>;

/// The candidates of a fair election, with their backers.
pub type ElectViaBacking = Vec<(Author, Vec<(Funder, Asset)>)>;

/// The flat election model: an author weighs the influence of its hold.
pub struct FlatElection;

/// The fair election model: an author weighs each of its backings.
pub struct FairElection;

/// The authors of a list of `(author, ())` entries.
pub open spec fn spec_first_parts(s: Seq<(u64, ())>) -> Seq<Author> {
    s.map_values(|p: (u64, ())| p.0)
}

/// `e` reports a prepared election of `elects`.
pub open spec fn spec_reports_prepared(e: Event, elects: Seq<Author>) -> bool {
    match e {
        Event::ElectionPrepared { elects: v } => v@ == elects,
        _ => false,
    }
}

/// `m` with each of `authors` elected at `block`.
pub open spec fn spec_insert_elected(m: Map<KeyPair, ()>, block: u64, authors: Seq<Author>) -> Map<
    KeyPair,
    (),
>
    decreases authors.len(),
{
    if authors.len() == 0 {
        m
    } else {
        spec_insert_elected(m, block, authors.drop_last()).insert(KeyPair(block, authors.last()), ())
    }
}

impl Pallet {
    /// The authors elected at the latest election, in storage order.
    pub open spec fn spec_elected_list(&self) -> Seq<Author> {
        spec_first_parts(
            stored_under(self.storage.elected.spec_entries(), self.storage.recent_elected_on),
        )
    }

    /// The authors elected at the latest election, `None` where there are none.
    pub fn reveal_elected(&self) -> (r: Option<Vec<Author>>)
        ensures
            match r {
                Some(v) => v@.len() > 0 && v@ == self.spec_elected_list(),
                None => self.spec_elected_list().len() == 0,
            },
            r matches Some(v) ==> forall|a: Author|
                v@.contains(a) <==> self.storage.elected@.contains_key(
                    KeyPair(self.storage.recent_elected_on, a),
                ),
            r is None ==> forall|a: Author|
                !self.storage.elected@.contains_key(KeyPair(self.storage.recent_elected_on, a)),
    {
        let entries = self.storage.elected.under(self.storage.recent_elected_on);
        let mut out: Vec<Author> = Vec::new();
        let mut i: usize = 0;
        while i < entries.len()
            invariant
                i <= entries@.len(),
                out@ == spec_first_parts(entries@.take(i as int)),
            decreases entries@.len() - i,
        {
            out.push(entries[i].0);
            proof {
                assert(spec_first_parts(entries@.take(i + 1)) =~= spec_first_parts(
                    entries@.take(i as int),
                ).push(entries@[i as int].0));
            }
            i = i + 1;
        }
        proof {
            assert(entries@.take(entries@.len() as int) =~= entries@);
            let recent = self.storage.recent_elected_on;
            assert forall|a: Author|
                out@.contains(a) <==> self.storage.elected@.contains_key(KeyPair(recent, a)) by {
                if out@.contains(a) {
                    let j = choose|j: int| 0 <= j < out@.len() && out@[j] == a;
                    assert(entries@[j].0 == a);
                }
                if self.storage.elected@.contains_key(KeyPair(recent, a)) {
                    let j = choose|j: int| 0 <= j < entries@.len() && entries@[j].0 == a;
                    assert(out@[j] == a);
                }
            }
        }
        if out.len() == 0 {
            None
        } else {
            Some(out)
        }
    }

    /// Drops `who` from the latest election.
    pub fn remove_elected(&mut self, who: Author)
        ensures
            final(self).storage.elected@ == old(self).storage.elected@.remove(
                KeyPair(old(self).storage.recent_elected_on, who),
            ),
            final(self).storage.recent_elected_on == old(self).storage.recent_elected_on,
            final(self).same_except(&*old(self), false, false, false, false, false, true),
            final(self).events@ == old(self).events@,
    {
        let block = self.storage.recent_elected_on;
        self.storage.elected.remove(&KeyPair(block, who));
    }

    /// Whether `who` was elected at the latest election.
    pub fn is_elected(&self, who: Author) -> (r: Result<(), Error>)
        ensures
            r == (if self.storage.elected@.contains_key(KeyPair(self.storage.recent_elected_on, who)) {
                Ok(())
            } else {
                Err(Error::AuthorNotElected)
            }),
    {
        match self.reveal_elected() {
            Some(elects) => {
                let mut i: usize = 0;
                while i < elects.len()
                    invariant
                        i <= elects@.len(),
                        forall|j: int| 0 <= j < i ==> elects@[j] != who,
                        forall|a: Author|
                            elects@.contains(a) <==> self.storage.elected@.contains_key(
                                KeyPair(self.storage.recent_elected_on, a),
                            ),
                    decreases elects@.len() - i,
                {
                    if elects[i] == who {
                        proof {
                            assert(elects@.contains(who));
                        }
                        return Ok(());
                    }
                    i = i + 1;
                }
                proof {
                    assert(!elects@.contains(who));
                }
                Err(Error::AuthorNotElected)
            },
            None => Err(Error::AuthorNotElected),
        }
    }

    /// The elected authors that `store` keeps: cut to the maximum where that
    /// bound is enforced.
    pub open spec fn spec_kept(&self, elects: Seq<Author>) -> Seq<Author> {
        if self.settings().force_max_elected && elects.len() > self.settings().max_elected {
            elects.take(self.settings().max_elected as int)
        } else {
            elects
        }
    }

    /// Records `elects` as elected at the current block, which becomes the
    /// latest election; cut to the maximum where that bound is enforced.
    pub fn store_elected(&mut self, elects: &Vec<Author>) -> (r: Result<(), Error>)
        requires
            settings_valid(old(self).settings()),
        ensures
            r == (if elects@.len() < old(self).settings().min_elected {
                Err(Error::MinElectedNotReached)
            } else {
                Ok(())
            }),
            r is Ok ==> {
                &&& final(self).storage.elected@ == spec_insert_elected(
                    old(self).storage.elected@,
                    old(self).block,
                    old(self).spec_kept(elects@),
                )
                &&& final(self).storage.recent_elected_on == old(self).block
                &&& final(self).same_except(&*old(self), false, false, false, false, false, true)
                &&& forall|a: Author|
                    #[trigger] final(self).storage.elected@.contains_key(KeyPair(old(self).block, a)) <==> (
                    old(self).storage.elected@.contains_key(KeyPair(old(self).block, a)) || old(self).spec_kept(
                        elects@,
                    ).contains(a))
                &&& final(self).events@ == old(self).events@
            },
            r is Err ==> final(self).unchanged(&*old(self)),
    {
        let min_elect = self.storage.settings.min_elected;
        if elects.len() < min_elect as usize {
            return Err(Error::MinElectedNotReached);
        }
        let block = self.block;
        let n: usize = if self.storage.settings.force_max_elected && elects.len()
            > self.storage.settings.max_elected as usize {
            self.storage.settings.max_elected as usize
        } else {
            elects.len()
        };
        let ghost kept = self.spec_kept(elects@);
        proof {
            assert(kept =~= elects@.take(n as int));
        }
        let ghost o = *self;
        let mut i: usize = 0;
        while i < n
            invariant
                i <= n <= elects@.len(),
                kept == elects@.take(n as int),
                block == o.block,
                self.storage.elected@ == spec_insert_elected(o.storage.elected@, block, kept.take(i as int)),
                self.storage.recent_elected_on == o.storage.recent_elected_on,
                self.same_except(&o, false, false, false, false, false, true),
                self.events@ == o.events@,
            decreases n - i,
        {
            proof {
                assert(kept.take(i + 1).drop_last() =~= kept.take(i as int));
                assert(kept.take(i + 1).last() == elects@[i as int]);
            }
            self.storage.elected.insert(KeyPair(block, elects[i]), ());
            i = i + 1;
        }
        proof {
            assert(kept.take(n as int) =~= kept);
        }
        self.storage.recent_elected_on = block;
        proof {
            assert forall|a: Author|
                #[trigger] self.storage.elected@.contains_key(KeyPair(block, a)) <==> (
                o.storage.elected@.contains_key(KeyPair(block, a)) || kept.contains(a)) by {
                crate::laws::law_stored_are_elected(o.storage.elected@, block, kept, a);
            }
        }
        Ok(())
    }

    /// Whether an election over `from` may be prepared: it holds at least the
    /// minimum number of candidates.
    pub fn can_prepare_election<X>(&self, from: &Vec<X>) -> (r: Result<(), Error>)
        requires
            settings_valid(self.settings()),
        ensures
            r == (if from@.len() < self.settings().min_elected {
                Err(Error::InadequateCandidatesToElect)
            } else {
                Ok(())
            }),
    {
        if from.len() < self.storage.settings.min_elected as usize {
            return Err(Error::InadequateCandidatesToElect);
        }
        Ok(())
    }

    /// Reports a prepared election, where the role hooks emit events.
    pub fn on_election_prepared(&mut self, elects: &Vec<Author>)
        ensures
            final(self).same_state(&*old(self)),
            old(self).emit_events ==> final(self).events@.len() == old(self).events@.len() + 1
                && final(self).events@.drop_last() == old(self).events@ && spec_reports_prepared(
                final(self).events@.last(),
                elects@,
            ),
            !old(self).emit_events ==> final(self).events@ == old(self).events@,
    {
        if self.emit_events {
            let mut copy: Vec<Author> = Vec::new();
            let mut i: usize = 0;
            while i < elects.len()
                invariant
                    i <= elects@.len(),
                    copy@ == elects@.take(i as int),
                decreases elects@.len() - i,
            {
                copy.push(elects[i]);
                proof {
                    assert(elects@.take(i + 1) =~= elects@.take(i as int).push(elects@[i as int]));
                }
                i = i + 1;
            }
            proof {
                assert(elects@.take(elects@.len() as int) =~= elects@);
            }
            let ghost before = self.events@;
            self.deposit_event(Event::ElectionPrepared { elects: copy });
            proof {
                assert(self.events@.drop_last() =~= before);
            }
        }
    }

    /// Reports a failed election, where the role hooks emit events.
    pub fn on_election_failed(&mut self, error: Error)
        ensures
            final(self).same_state(&*old(self)),
            final(self).events@ == old(self).events@ + emitted(
                old(self).emit_events,
                Event::ElectionFailed { error },
            ),
    {
        self.emit(Event::ElectionFailed { error });
    }
}

impl FlatElection {
    /// The weight of `who`: the influence of its hold, as a single item.
    pub fn weight_of<C: CommitmentAdapter, M: InfluenceModel>(
        pallet: &Pallet,
        adapter: &C,
        model: &M,
        who: Author,
    ) -> (r: Result<Vec<u128>, Error>)
        ensures
            vec_result_is(
                r,
                match pallet.spec_get_hold(adapter, who) {
                    Err(e) => Err(e),
                    Ok(h) => Ok(seq![model.spec_influence(h)]),
                },
            ),
    {
        let hold = pallet.get_hold(adapter, who)?;
        let influence = model.influence(hold);
        let mut v: Vec<u128> = Vec::new();
        v.push(influence);
        proof {
            assert(v@ =~= seq![influence]);
        }
        Ok(v)
    }

    /// The authors elected at the latest election.
    pub fn reveal_elects(pallet: &Pallet) -> (r: Option<Vec<Author>>)
        ensures
            match r {
                Some(v) => v@.len() > 0 && v@ == pallet.spec_elected_list(),
                None => pallet.spec_elected_list().len() == 0,
            },
            r matches Some(v) ==> forall|a: Author|
                v@.contains(a) <==> pallet.storage.elected@.contains_key(
                    KeyPair(pallet.storage.recent_elected_on, a),
                ),
            r is None ==> forall|a: Author|
                !pallet.storage.elected@.contains_key(KeyPair(pallet.storage.recent_elected_on, a)),
    {
        pallet.reveal_elected()
    }

    /// Drops `who` from the latest election.
    pub fn remove(pallet: &mut Pallet, who: Author)
        ensures
            final(pallet).storage.elected@ == old(pallet).storage.elected@.remove(
                KeyPair(old(pallet).storage.recent_elected_on, who),
            ),
            final(pallet).storage.recent_elected_on == old(pallet).storage.recent_elected_on,
            final(pallet).same_except(&*old(pallet), false, false, false, false, false, true),
            final(pallet).events@ == old(pallet).events@,
    {
        pallet.remove_elected(who)
    }

    /// Whether `who` was elected at the latest election.
    pub fn is_candidate(pallet: &Pallet, who: Author) -> (r: Result<(), Error>)
        ensures
            r == (if pallet.storage.elected@.contains_key(
                KeyPair(pallet.storage.recent_elected_on, who),
            ) {
                Ok(())
            } else {
                Err(Error::AuthorNotElected)
            }),
    {
        pallet.is_elected(who)
    }

    /// Records `elects` as the latest election.
    pub fn store(pallet: &mut Pallet, elects: &Vec<Author>) -> (r: Result<(), Error>)
        requires
            settings_valid(old(pallet).settings()),
        ensures
            r == (if elects@.len() < old(pallet).settings().min_elected {
                Err(Error::MinElectedNotReached)
            } else {
                Ok(())
            }),
            r is Ok ==> {
                &&& final(pallet).storage.elected@ == spec_insert_elected(
                    old(pallet).storage.elected@,
                    old(pallet).block,
                    old(pallet).spec_kept(elects@),
                )
                &&& final(pallet).storage.recent_elected_on == old(pallet).block
                &&& final(pallet).same_except(&*old(pallet), false, false, false, false, false, true)
                &&& forall|a: Author|
                    #[trigger] final(pallet).storage.elected@.contains_key(KeyPair(old(pallet).block, a)) <==> (
                    old(pallet).storage.elected@.contains_key(KeyPair(old(pallet).block, a)) || old(pallet).spec_kept(
                        elects@,
                    ).contains(a))
                &&& final(pallet).events@ == old(pallet).events@
            },
            r is Err ==> final(pallet).unchanged(&*old(pallet)),
    {
        pallet.store_elected(elects)
    }

    /// Whether an election over `from` may be prepared.
    pub fn can_prepare(pallet: &Pallet, from: &ElectViaInfluence) -> (r: Result<(), Error>)
        requires
            settings_valid(pallet.settings()),
        ensures
            r == (if from@.len() < pallet.settings().min_elected {
                Err(Error::InadequateCandidatesToElect)
            } else {
                Ok(())
            }),
    {
        pallet.can_prepare_election(from)
    }

    /// Reports a prepared election.
    pub fn on_prepare_success(pallet: &mut Pallet, elects: &Vec<Author>)
        ensures
            final(pallet).same_state(&*old(pallet)),
            old(pallet).emit_events ==> final(pallet).events@.len() == old(pallet).events@.len() + 1
                && final(pallet).events@.drop_last() == old(pallet).events@ && spec_reports_prepared(
                final(pallet).events@.last(),
                elects@,
            ),
            !old(pallet).emit_events ==> final(pallet).events@ == old(pallet).events@,
    {
        pallet.on_election_prepared(elects)
    }

    /// Reports a failed election.
    pub fn on_prepare_fail(pallet: &mut Pallet, error: Error)
        ensures
            final(pallet).same_state(&*old(pallet)),
            final(pallet).events@ == old(pallet).events@ + emitted(
                old(pallet).emit_events,
                Event::ElectionFailed { error },
            ),
    {
        pallet.on_election_failed(error)
    }
}

impl FairElection {
    /// The weight of `who`: each of its backers with the value it holds.
    pub fn weight_of<C: CommitmentAdapter>(pallet: &Pallet, adapter: &C, who: Author) -> (r: Result<
        Vec<(Funder, Asset)>,
        Error,
    >)
        ensures
            vec_result_is(
                r,
                match pallet.spec_get_meta(who) {
                    Err(e) => Err(e),
                    Ok(m) => Pallet::spec_backers(
                        adapter,
                        stored_under(pallet.storage.author_funders.spec_entries(), who),
                        m.digest,
                    ),
                },
            ),
    {
        pallet.backers_of(adapter, who)
    }

    /// The authors elected at the latest election.
    pub fn reveal_elects(pallet: &Pallet) -> (r: Option<Vec<Author>>)
        ensures
            match r {
                Some(v) => v@.len() > 0 && v@ == pallet.spec_elected_list(),
                None => pallet.spec_elected_list().len() == 0,
            },
            r matches Some(v) ==> forall|a: Author|
                v@.contains(a) <==> pallet.storage.elected@.contains_key(
                    KeyPair(pallet.storage.recent_elected_on, a),
                ),
            r is None ==> forall|a: Author|
                !pallet.storage.elected@.contains_key(KeyPair(pallet.storage.recent_elected_on, a)),
    {
        pallet.reveal_elected()
    }

    /// Drops `who` from the latest election.
    pub fn remove(pallet: &mut Pallet, who: Author)
        ensures
            final(pallet).storage.elected@ == old(pallet).storage.elected@.remove(
                KeyPair(old(pallet).storage.recent_elected_on, who),
            ),
            final(pallet).storage.recent_elected_on == old(pallet).storage.recent_elected_on,
            final(pallet).same_except(&*old(pallet), false, false, false, false, false, true),
            final(pallet).events@ == old(pallet).events@,
    {
        pallet.remove_elected(who)
    }

    /// Whether `who` was elected at the latest election.
    pub fn is_candidate(pallet: &Pallet, who: Author) -> (r: Result<(), Error>)
        ensures
            r == (if pallet.storage.elected@.contains_key(
                KeyPair(pallet.storage.recent_elected_on, who),
            ) {
                Ok(())
            } else {
                Err(Error::AuthorNotElected)
            }),
    {
        pallet.is_elected(who)
    }

    /// Records `elects` as the latest election.
    pub fn store(pallet: &mut Pallet, elects: &Vec<Author>) -> (r: Result<(), Error>)
        requires
            settings_valid(old(pallet).settings()),
        ensures
            r == (if elects@.len() < old(pallet).settings().min_elected {
                Err(Error::MinElectedNotReached)
            } else {
                Ok(())
            }),
            r is Ok ==> {
                &&& final(pallet).storage.elected@ == spec_insert_elected(
                    old(pallet).storage.elected@,
                    old(pallet).block,
                    old(pallet).spec_kept(elects@),
                )
                &&& final(pallet).storage.recent_elected_on == old(pallet).block
                &&& final(pallet).same_except(&*old(pallet), false, false, false, false, false, true)
                &&& forall|a: Author|
                    #[trigger] final(pallet).storage.elected@.contains_key(KeyPair(old(pallet).block, a)) <==> (
                    old(pallet).storage.elected@.contains_key(KeyPair(old(pallet).block, a)) || old(pallet).spec_kept(
                        elects@,
                    ).contains(a))
                &&& final(pallet).events@ == old(pallet).events@
            },
            r is Err ==> final(pallet).unchanged(&*old(pallet)),
    {
        pallet.store_elected(elects)
    }

    /// Whether an election over `from` may be prepared.
    pub fn can_prepare(pallet: &Pallet, from: &ElectViaBacking) -> (r: Result<(), Error>)
        requires
            settings_valid(pallet.settings()),
        ensures
            r == (if from@.len() < pallet.settings().min_elected {
                Err(Error::InadequateCandidatesToElect)
            } else {
                Ok(())
            }),
    {
        pallet.can_prepare_election(from)
    }

    /// Reports a prepared election.
    pub fn on_prepare_success(pallet: &mut Pallet, elects: &Vec<Author>)
        ensures
            final(pallet).same_state(&*old(pallet)),
            old(pallet).emit_events ==> final(pallet).events@.len() == old(pallet).events@.len() + 1
                && final(pallet).events@.drop_last() == old(pallet).events@ && spec_reports_prepared(
                final(pallet).events@.last(),
                elects@,
            ),
            !old(pallet).emit_events ==> final(pallet).events@ == old(pallet).events@,
    {
        pallet.on_election_prepared(elects)
    }

    /// Reports a failed election.
    pub fn on_prepare_fail(pallet: &mut Pallet, error: Error)
        ensures
            final(pallet).same_state(&*old(pallet)),
            final(pallet).events@ == old(pallet).events@ + emitted(
                old(pallet).emit_events,
                Event::ElectionFailed { error },
            ),
    {
        pallet.on_election_failed(error)
    }
}

} // verus!
