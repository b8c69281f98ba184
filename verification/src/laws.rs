//! Properties of the pallet that relate several operations or hold of all
//! their inputs.

use vstd::prelude::*;

use crate::adapter::CommitmentAdapter;
use crate::calls::spec_forced;
use crate::compensation::{spec_penalized_hold, spec_rational_parts, spec_split_hold, without_block};
use crate::election::spec_insert_elected;
use crate::funding::{spec_insert_funder, spec_remove_funder};
use crate::pallet::{settings_valid, Pallet, Settings};
use crate::perbill::{spec_div_ceil, Perbill, ACCURACY};
use crate::table::{stored_under, lemma_under_has_key, range_under, KeyPair};
use crate::types::{
    AccountId, Asset, Author, AuthorInfo, AuthorStatus, BlockNumber, Digest, Directive, Error,
    ForceGenesisConfig, Fortitude, FreezeReason, Funder, FundingTarget, Precision,
};

verus! {

/// Changing an author's metadata but not its digest keeps the records: no
/// author is dropped, and every author's digest still leads back to it.
pub proof fn law_metadata_updates_keep_records(p0: Pallet, p1: Pallet, who: AccountId, info: AuthorInfo)
    requires
        p0.spec_digests_lead_back(),
        p0.authors().contains_key(who),
        info.digest == p0.authors()[who].digest,
        p1.authors() == p0.authors().insert(who, info),
        p1.digests() == p0.digests(),
    ensures
        p1.spec_digests_lead_back(),
        p0.authors().dom().subset_of(p1.authors().dom()),
{
    assert forall|a: AccountId| #[trigger] p1.authors().contains_key(a) implies p1.digests().contains_key(
        p1.authors()[a].digest,
    ) && p1.digests()[p1.authors()[a].digest] == a by {
        assert(p0.authors().contains_key(a));
    }
}

/// Setting an author's hold splits the new value exactly: the funding part
/// and the collateral part add up to it.
pub proof fn law_split_hold_is_exact(funding: Asset, collateral: Asset, value: Asset)
    ensures
        spec_split_hold(funding, collateral, value) matches Some(s) ==> s.0 + s.1 == value,
{
    if funding + collateral <= u128::MAX {
        let hold = (funding + collateral) as u128;
        let p = spec_rational_parts(funding, hold);
        assert(0 <= p <= ACCURACY) by {
            if !(hold == 0 || funding > hold) {
                assert((funding as int) * (ACCURACY as int) / (hold as int) <= ACCURACY) by (
                nonlinear_arith)
                    requires
                        funding <= hold,
                        hold > 0,
                ;
                assert((funding as int) * (ACCURACY as int) / (hold as int) >= 0) by (
                nonlinear_arith)
                    requires
                        funding >= 0,
                        hold > 0,
                ;
            }
        }
        let x = (value as int) * p;
        assert(0 <= x <= (value as int) * (ACCURACY as int)) by (nonlinear_arith)
            requires
                x == (value as int) * p,
                0 <= p <= ACCURACY,
                value >= 0,
        ;
        assert(spec_div_ceil(x, ACCURACY as int) <= value) by {
            assert(x / (ACCURACY as int) <= value) by (nonlinear_arith)
                requires
                    0 <= x <= (value as int) * (ACCURACY as int),
            ;
            if x % (ACCURACY as int) != 0 {
                assert(x / (ACCURACY as int) < value) by (nonlinear_arith)
                    requires
                        0 <= x <= (value as int) * (ACCURACY as int),
                        x % (ACCURACY as int) != 0,
                ;
            }
        }
    }
}

/// A penalty never raises a hold: it takes its factor of the hold, rounded
/// down, which is at most the hold.
pub proof fn law_penalty_lowers_hold(hold: Asset, factor: Perbill)
    requires
        factor.spec_parts() <= ACCURACY,
    ensures
        spec_penalized_hold(hold, factor) <= hold,
        spec_penalized_hold(hold, factor) == hold - (hold as int) * (factor.spec_parts() as int) / (
        ACCURACY as int),
{
    let p = (hold as int) * (factor.spec_parts() as int) / (ACCURACY as int);
    assert(0 <= p <= hold) by (nonlinear_arith)
        requires
            p == (hold as int) * (factor.spec_parts() as int) / (ACCURACY as int),
            factor.spec_parts() <= ACCURACY,
            hold >= 0,
    ;
}

/// Governance keeps the configuration consistent: setting a field of valid
/// settings, where accepted, gives valid settings.
pub proof fn law_forcing_keeps_settings_valid(s: Settings, field: ForceGenesisConfig)
    requires
        settings_valid(s),
    ensures
        spec_forced(s, field) matches Ok(t) ==> settings_valid(t),
{
}

/// Reclaiming a scheduled reward gives back its amount and restores the
/// schedule as it was before the reward.
pub proof fn law_reclaim_undoes_reward(
    before: Map<KeyPair, Asset>,
    scheduled: Map<KeyPair, Asset>,
    after: Map<KeyPair, Asset>,
    who: AccountId,
    at: BlockNumber,
    value: Asset,
)
    requires
        !before.contains_key(KeyPair(at, who)),
        scheduled == before.insert(KeyPair(at, who), value),
        after == scheduled.remove(KeyPair(at, who)),
    ensures
        scheduled.contains_key(KeyPair(at, who)),
        scheduled[KeyPair(at, who)] == value,
        after == before,
{
    assert(after =~= before);
}

/// Forgiving a scheduled penalty gives back its factor and restores the
/// schedule as it was before the penalty.
pub proof fn law_forgive_undoes_penalty(
    before: Map<KeyPair, Perbill>,
    scheduled: Map<KeyPair, Perbill>,
    after: Map<KeyPair, Perbill>,
    who: AccountId,
    at: BlockNumber,
    factor: Perbill,
)
    requires
        !before.contains_key(KeyPair(at, who)),
        scheduled == before.insert(KeyPair(at, who), factor),
        after == scheduled.remove(KeyPair(at, who)),
    ensures
        scheduled.contains_key(KeyPair(at, who)),
        scheduled[KeyPair(at, who)] == factor,
        after == before,
{
    assert(after =~= before);
}

/// An obligation scheduled after the current block and within the last
/// scheduled block is pending: a reward makes `has_reward` succeed, a
/// penalty `has_penalty`.
pub proof fn law_scheduled_is_pending(p: Pallet, who: AccountId, at: BlockNumber)
    requires
        p.authors().contains_key(who),
        p.open_from() <= at,
    ensures
        p.rewards().contains_key(KeyPair(at, who)) && at <= p.storage.rewards_until
            ==> p.spec_has_reward(who) is Ok,
        p.penalties().contains_key(KeyPair(at, who)) && at <= p.storage.penalties_until
            ==> p.spec_has_penalty(who) is Ok,
{
    if p.rewards().contains_key(KeyPair(at, who)) && at <= p.storage.rewards_until {
        assert(p.storage.author_rewards@.contains_key(KeyPair(at, who)));
    }
    if p.penalties().contains_key(KeyPair(at, who)) && at <= p.storage.penalties_until {
        assert(p.storage.author_penalties@.contains_key(KeyPair(at, who)));
    }
}

/// After an election is stored at a block, an author is elected at that
/// block exactly where it was before or is among the authors kept.
pub proof fn law_stored_are_elected(
    m: Map<KeyPair, ()>,
    block: BlockNumber,
    authors: Seq<Author>,
    a: Author,
)
    ensures
        spec_insert_elected(m, block, authors).contains_key(KeyPair(block, a)) <==> (m.contains_key(
            KeyPair(block, a),
        ) || authors.contains(a)),
    decreases authors.len(),
{
    if authors.len() > 0 {
        law_stored_are_elected(m, block, authors.drop_last(), a);
        if authors.drop_last().contains(a) {
            let i = choose|i: int| 0 <= i < authors.drop_last().len() && authors.drop_last()[i] == a;
            assert(authors[i] == a);
        }
        if authors.contains(a) && authors.last() != a {
            let i = choose|i: int| 0 <= i < authors.len() && authors[i] == a;
            assert(i != authors.len() - 1);
            assert(authors.drop_last()[i] == a);
        }
    }
}

/// After funding, the backer is recorded as a funder of every author it
/// touched, as that funder; the other records stay.
pub proof fn law_funding_records_backer(
    m: Map<KeyPair, Funder>,
    authors: Seq<Author>,
    backer: AccountId,
    by: Funder,
    k: KeyPair,
)
    ensures
        spec_insert_funder(m, authors, backer, by).contains_key(k) <==> (m.contains_key(k) || (
        k.1 == backer && authors.contains(k.0))),
        k.1 == backer && authors.contains(k.0) ==> spec_insert_funder(m, authors, backer, by)[k]
            == by,
        !(k.1 == backer && authors.contains(k.0)) && m.contains_key(k) ==> spec_insert_funder(
            m,
            authors,
            backer,
            by,
        )[k] == m[k],
    decreases authors.len(),
{
    if authors.len() > 0 {
        law_funding_records_backer(m, authors.drop_last(), backer, by, k);
        if authors.drop_last().contains(k.0) {
            let i = choose|i: int|
                0 <= i < authors.drop_last().len() && authors.drop_last()[i] == k.0;
            assert(authors[i] == k.0);
        }
        if authors.contains(k.0) && authors.last() != k.0 {
            let i = choose|i: int| 0 <= i < authors.len() && authors[i] == k.0;
            assert(authors.drop_last()[i] == k.0);
        }
    }
}

/// Drawing removes the backer from every author it touched; the other
/// records stay.
pub proof fn law_drawing_forgets_backer(
    m: Map<KeyPair, Funder>,
    authors: Seq<Author>,
    backer: AccountId,
    k: KeyPair,
)
    ensures
        spec_remove_funder(m, authors, backer).contains_key(k) <==> (m.contains_key(k) && !(k.1
            == backer && authors.contains(k.0))),
        spec_remove_funder(m, authors, backer).contains_key(k) ==> spec_remove_funder(
            m,
            authors,
            backer,
        )[k] == m[k],
    decreases authors.len(),
{
    if authors.len() > 0 {
        law_drawing_forgets_backer(m, authors.drop_last(), backer, k);
        if authors.drop_last().contains(k.0) {
            let i = choose|i: int|
                0 <= i < authors.drop_last().len() && authors.drop_last()[i] == k.0;
            assert(authors[i] == k.0);
        }
        if authors.contains(k.0) && authors.last() != k.0 {
            let i = choose|i: int| 0 <= i < authors.len() && authors[i] == k.0;
            assert(authors.drop_last()[i] == k.0);
        }
    }
}

/// Drawing undoes funding: a backer that funded authors it did not back
/// before, and then draws from them, leaves the funder records as they were.
pub proof fn law_draw_undoes_fund(
    m: Map<KeyPair, Funder>,
    authors: Seq<Author>,
    backer: AccountId,
    by: Funder,
)
    requires
        forall|a: Author| authors.contains(a) ==> !#[trigger] m.contains_key(KeyPair(a, backer)),
    ensures
        spec_remove_funder(spec_insert_funder(m, authors, backer, by), authors, backer) == m,
{
    let funded = spec_insert_funder(m, authors, backer, by);
    let drawn = spec_remove_funder(funded, authors, backer);
    assert forall|k: KeyPair| #[trigger] drawn.contains_key(k) <==> m.contains_key(k) by {
        law_funding_records_backer(m, authors, backer, by, k);
        law_drawing_forgets_backer(funded, authors, backer, k);
        if k.1 == backer && authors.contains(k.0) {
            assert(!m.contains_key(KeyPair(k.0, backer)));
        }
    }
    assert forall|k: KeyPair| drawn.contains_key(k) implies #[trigger] drawn[k] == m[k] by {
        law_funding_records_backer(m, authors, backer, by, k);
        law_drawing_forgets_backer(funded, authors, backer, k);
    }
    assert(drawn =~= m);
}

/// Where the commitment system reads a digest value back as it was set, and
/// setting a value under one reason leaves the values under the other alone,
/// the hold of an author after `set_hold` succeeds is the value it was set to.
pub proof fn law_set_hold_reads_back<C: CommitmentAdapter>(
    p: Pallet,
    a: C,
    who: AccountId,
    value: Asset,
    precision: Precision,
    force: Fortitude,
)
    requires
        forall|c: C, r: FreezeReason, d: Digest, v: Asset, dir: Directive|
            #[trigger] c.spec_set_digest_value(r, d, v, dir).1 is Ok ==> c.spec_set_digest_value(
                r,
                d,
                v,
                dir,
            ).0.spec_digest_value(r, d) == Ok::<Asset, Error>(v),
        forall|c: C, r: FreezeReason, d: Digest, v: Asset, dir: Directive, r2: FreezeReason, d2: Digest|
            #![trigger c.spec_set_digest_value(r, d, v, dir).0.spec_digest_value(r2, d2)]
            r2 != r && c.spec_set_digest_value(r, d, v, dir).1 is Ok ==> c.spec_set_digest_value(
                r,
                d,
                v,
                dir,
            ).0.spec_digest_value(r2, d2) == c.spec_digest_value(r2, d2),
        p.spec_set_hold(a, who, value, precision, force).1 is Ok,
    ensures
        p.spec_get_hold(&p.spec_set_hold(a, who, value, precision, force).0, who) == Ok::<
            Asset,
            Error,
        >(value),
{
    let m = p.spec_get_meta(who).unwrap();
    let f = a.spec_digest_value(FreezeReason::AuthorFunding, m.digest).unwrap();
    let c = a.spec_digest_value(FreezeReason::AuthorCollateral, m.digest).unwrap();
    let split = spec_split_hold(f, c, value).unwrap();
    law_split_hold_is_exact(f, c, value);
    let d = Directive { precision, force };
    let (a1, r1) = a.spec_set_digest_value(FreezeReason::AuthorFunding, m.digest, split.0, d);
    let (a2, r2) = a1.spec_set_digest_value(FreezeReason::AuthorCollateral, m.digest, split.1, d);
    assert(a1.spec_digest_value(FreezeReason::AuthorFunding, m.digest) == Ok::<Asset, Error>(split.0));
    assert(a2.spec_digest_value(FreezeReason::AuthorCollateral, m.digest) == Ok::<Asset, Error>(split.1));
    assert(a2.spec_digest_value(FreezeReason::AuthorFunding, m.digest) == a1.spec_digest_value(
        FreezeReason::AuthorFunding,
        m.digest,
    ));
}

/// Whether `after` is a value at least `before`, where `before` is one.
pub open spec fn value_not_lowered(before: Result<Asset, Error>, after: Result<Asset, Error>) -> bool {
    before matches Ok(x) ==> (after matches Ok(y) && x <= y)
}

/// Backing is never mixed with collateral: where the commitment system's
/// funding commitments leave every collateral commitment alone and lower no
/// funding digest value, a successful funding (what `back` does once it has
/// resolved the author) leaves every account's collateral as it was and
/// lowers no author's backed value.
pub proof fn law_backing_leaves_collateral<C: CommitmentAdapter>(
    p: Pallet,
    a: C,
    to: Author,
    by: Funder,
    value: Asset,
    precision: Precision,
    force: Fortitude,
    x: AccountId,
    d: Digest,
)
    requires
        forall|c: C, who: AccountId, dg: Digest, v: Asset, dir: Directive, y: AccountId|
            #![trigger c.spec_place_commit(who, FreezeReason::AuthorFunding, dg, v, dir).0.spec_commit_value(y, FreezeReason::AuthorCollateral)]
            c.spec_place_commit(who, FreezeReason::AuthorFunding, dg, v, dir).0.spec_commit_value(
                y,
                FreezeReason::AuthorCollateral,
            ) == c.spec_commit_value(y, FreezeReason::AuthorCollateral),
        forall|c: C, who: AccountId, v: Asset, dir: Directive, y: AccountId|
            #![trigger c.spec_raise_commit(who, FreezeReason::AuthorFunding, v, dir).0.spec_commit_value(y, FreezeReason::AuthorCollateral)]
            c.spec_raise_commit(who, FreezeReason::AuthorFunding, v, dir).0.spec_commit_value(
                y,
                FreezeReason::AuthorCollateral,
            ) == c.spec_commit_value(y, FreezeReason::AuthorCollateral),
        forall|c: C, who: AccountId, dg: Digest, v: Asset, dir: Directive, e: Digest|
            #![trigger c.spec_place_commit(who, FreezeReason::AuthorFunding, dg, v, dir).0.spec_digest_value(FreezeReason::AuthorFunding, e)]
            c.spec_place_commit(who, FreezeReason::AuthorFunding, dg, v, dir).1 is Ok
                ==> value_not_lowered(
                c.spec_digest_value(FreezeReason::AuthorFunding, e),
                c.spec_place_commit(who, FreezeReason::AuthorFunding, dg, v, dir).0.spec_digest_value(
                    FreezeReason::AuthorFunding,
                    e,
                ),
            ),
        forall|c: C, who: AccountId, v: Asset, dir: Directive, e: Digest|
            #![trigger c.spec_raise_commit(who, FreezeReason::AuthorFunding, v, dir).0.spec_digest_value(FreezeReason::AuthorFunding, e)]
            c.spec_raise_commit(who, FreezeReason::AuthorFunding, v, dir).1 is Ok
                ==> value_not_lowered(
                c.spec_digest_value(FreezeReason::AuthorFunding, e),
                c.spec_raise_commit(who, FreezeReason::AuthorFunding, v, dir).0.spec_digest_value(
                    FreezeReason::AuthorFunding,
                    e,
                ),
            ),
        p.spec_fund(a, to, by, value, precision, force).1 is Ok,
    ensures
        p.spec_fund(a, to, by, value, precision, force).0.spec_commit_value(
            x,
            FreezeReason::AuthorCollateral,
        ) == a.spec_commit_value(x, FreezeReason::AuthorCollateral),
        value_not_lowered(
            a.spec_digest_value(FreezeReason::AuthorFunding, d),
            p.spec_fund(a, to, by, value, precision, force).0.spec_digest_value(
                FreezeReason::AuthorFunding,
                d,
            ),
        ),
{
    let towards = crate::funding::spec_towards(by, p.authors()[to].digest);
    let dir = Directive { precision, force };
    let f = crate::types::spec_backer(by);
    if a.spec_commit_exists(f, FreezeReason::AuthorFunding) is Ok {
        let c2 = a.spec_raise_commit(f, FreezeReason::AuthorFunding, value, dir).0;
        assert(c2.spec_commit_value(x, FreezeReason::AuthorCollateral) == a.spec_commit_value(
            x,
            FreezeReason::AuthorCollateral,
        ));
        assert(value_not_lowered(
            a.spec_digest_value(FreezeReason::AuthorFunding, d),
            c2.spec_digest_value(FreezeReason::AuthorFunding, d),
        ));
    } else {
        let c2 = a.spec_place_commit(f, FreezeReason::AuthorFunding, towards, value, dir).0;
        assert(c2.spec_commit_value(x, FreezeReason::AuthorCollateral) == a.spec_commit_value(
            x,
            FreezeReason::AuthorCollateral,
        ));
        assert(value_not_lowered(
            a.spec_digest_value(FreezeReason::AuthorFunding, d),
            c2.spec_digest_value(FreezeReason::AuthorFunding, d),
        ));
    }
}

/// The block hook applies each obligation once: after it runs at a block no
/// entry of that block remains, and over a pallet with none it applies
/// nothing and drops nothing, so a second run at the same block changes
/// nothing.
pub proof fn law_block_hook_runs_once(p: Pallet, n: BlockNumber)
    ensures
        forall|a: u64| !without_block(p.rewards(), n).contains_key(KeyPair(n, a)),
        forall|a: u64| !without_block(p.penalties(), n).contains_key(KeyPair(n, a)),
        (forall|a: u64| !#[trigger] p.rewards().contains_key(KeyPair(n, a))) ==> {
            &&& stored_under(p.storage.author_rewards.spec_entries(), n).len() == 0
            &&& without_block(p.rewards(), n) == p.rewards()
        },
        (forall|a: u64| !#[trigger] p.penalties().contains_key(KeyPair(n, a))) ==> {
            &&& stored_under(p.storage.author_penalties.spec_entries(), n).len() == 0
            &&& without_block(p.penalties(), n) == p.penalties()
        },
{
    p.storage.author_rewards.lemma_view();
    p.storage.author_penalties.lemma_view();
    if forall|a: u64| !#[trigger] p.rewards().contains_key(KeyPair(n, a)) {
        lemma_under_has_key(p.storage.author_rewards.spec_entries(), n);
        assert forall|k: KeyPair| p.rewards().contains_key(k) implies k.0 != n by {
            assert(KeyPair(k.0, k.1) == k);
            if k.0 == n {
                assert(!p.rewards().contains_key(KeyPair(n, k.1)));
            }
        }
        assert(without_block(p.rewards(), n) =~= p.rewards());
    }
    if forall|a: u64| !#[trigger] p.penalties().contains_key(KeyPair(n, a)) {
        lemma_under_has_key(p.storage.author_penalties.spec_entries(), n);
        assert forall|k: KeyPair| p.penalties().contains_key(k) implies k.0 != n by {
            assert(KeyPair(k.0, k.1) == k);
            if k.0 == n {
                assert(!p.penalties().contains_key(KeyPair(n, k.1)));
            }
        }
        assert(without_block(p.penalties(), n) =~= p.penalties());
    }
}

/// Scanning a reward schedule with nothing beyond `until` gives the same
/// entries up to any later block.
proof fn lemma_range_beyond_until<V>(m: Map<KeyPair, V>, who: u64, lo: int, until: int, hi: int)
    requires
        until <= hi,
        forall|k: KeyPair| #[trigger] m.contains_key(k) ==> k.0 <= until,
        hi <= u64::MAX,
    ensures
        range_under(m, who, lo, hi) == range_under(m, who, lo, until),
    decreases hi - until,
{
    if hi > until {
        lemma_range_beyond_until(m, who, lo, until, hi - 1);
        assert(!m.contains_key(KeyPair(hi as u64, who)));
        if hi >= lo {
            assert(range_under(m, who, lo, hi) =~= range_under(m, who, lo, hi - 1));
        }
    }
}

/// Reclaiming a reward just scheduled restores what an author is owed: where
/// no reward lies beyond the latest block recorded for rewards, a pallet
/// whose schedule is back as it was, at the same block, and whose latest
/// block is no earlier, lists the same pending rewards for `who` and agrees
/// on whether it has one.
pub proof fn law_reclaim_restores_pending(p0: Pallet, p2: Pallet, who: AccountId)
    requires
        p0.spec_rewards_bounded(),
        p2.rewards() == p0.rewards(),
        p2.block == p0.block,
        p2.authors() == p0.authors(),
        p0.storage.rewards_until <= p2.storage.rewards_until,
    ensures
        p2.spec_has_reward(who) == p0.spec_has_reward(who),
        range_under(p2.rewards(), who, p2.open_from() as int, p2.storage.rewards_until as int)
            == range_under(p0.rewards(), who, p0.open_from() as int, p0.storage.rewards_until as int),
{
    lemma_range_beyond_until(
        p0.rewards(),
        who,
        p0.open_from() as int,
        p0.storage.rewards_until as int,
        p2.storage.rewards_until as int,
    );
    if p2.spec_has_reward(who) is Ok && p2.authors().contains_key(who) {
        let b = choose|b: u64|
            p2.open_from() <= b <= p2.storage.rewards_until
                && #[trigger] p2.storage.author_rewards@.contains_key(KeyPair(b, who));
        assert(p0.rewards().contains_key(KeyPair(b, who)));
    }
}

/// Exiting undoes a direct backing: where a commitment placed on an account
/// that held none reads back towards its digest and releasing it restores
/// the commitment system and gives back its value, a backer that had no
/// funding commitment and funded `to` directly can draw at once; the draw
/// gives back what was committed, leaves the commitment system as it was
/// before the funding, and the funder records as they were.
pub proof fn law_exit_undoes_direct_backing<C: CommitmentAdapter>(
    p0: Pallet,
    p1: Pallet,
    a0: C,
    to: Author,
    b: AccountId,
    value: Asset,
    precision: Precision,
    force: Fortitude,
)
    requires
        forall|c: C, who: AccountId, r: FreezeReason, dg: Digest, v: Asset, dir: Directive|
            #![trigger c.spec_place_commit(who, r, dg, v, dir)]
            c.spec_commit_exists(who, r) is Err && c.spec_place_commit(who, r, dg, v, dir).1 is Ok
                ==> {
                let c2 = c.spec_place_commit(who, r, dg, v, dir).0;
                &&& c2.spec_commit_exists(who, r) is Ok
                &&& c2.spec_commit_digest(who, r) == Ok::<Digest, Error>(dg)
                &&& c2.spec_resolve_commit(who, r) == (c, c.spec_place_commit(who, r, dg, v, dir).1)
            },
        a0.spec_commit_exists(b, FreezeReason::AuthorFunding) is Err,
        !p0.funders().contains_key(KeyPair(to, b)),
        p0.spec_fund(a0, to, Funder::Direct(b), value, precision, force).1 is Ok,
        p1.authors() == p0.authors(),
        p1.digests() == p0.digests(),
        p1.funders() == spec_insert_funder(p0.funders(), seq![to], b, Funder::Direct(b)),
    ensures
        ({
            let (a1, r1) = p0.spec_fund(a0, to, Funder::Direct(b), value, precision, force);
            p1.spec_draw(a1, to, Funder::Direct(b)) == (a0, r1)
        }),
        spec_remove_funder(p1.funders(), seq![to], b) == p0.funders(),
{
    assert forall|a: Author| seq![to].contains(a) implies !#[trigger] p0.funders().contains_key(
        KeyPair(a, b),
    ) by {
        assert(seq![to][0] == to);
    }
    law_draw_undoes_fund(p0.funders(), seq![to], b, Funder::Direct(b));
}

/// Storing an election keeps the head of the list given and, where the
/// maximum is enforced, never more than the maximum: the kept authors are the
/// first `max_elected` of `elects` (all of them where the list is no longer,
/// or the maximum is not enforced), and every author newly elected at the
/// block is one of those.
pub proof fn law_store_keeps_at_most_max_elected(
    p: Pallet,
    m: Map<KeyPair, ()>,
    elects: Seq<Author>,
    a: Author,
)
    ensures
        ({
            let kept = p.spec_kept(elects);
            let max = p.settings().max_elected;
            &&& kept.len() <= elects.len()
            &&& forall|i: int| 0 <= i < kept.len() ==> #[trigger] kept[i] == elects[i]
            &&& p.settings().force_max_elected ==> kept.len() <= max
            &&& p.settings().force_max_elected ==> kept.len() == if elects.len() < max {
                elects.len()
            } else {
                max as nat
            }
            &&& !p.settings().force_max_elected ==> kept == elects
        }),
        p.settings().force_max_elected && spec_insert_elected(m, p.block, p.spec_kept(elects)).contains_key(
            KeyPair(p.block, a),
        ) ==> m.contains_key(KeyPair(p.block, a)) || exists|i: int|
            0 <= i < elects.len() && i < p.settings().max_elected && elects[i] == a,
{
    let kept = p.spec_kept(elects);
    law_stored_are_elected(m, p.block, kept, a);
    if kept.contains(a) {
        let i = choose|i: int| 0 <= i < kept.len() && kept[i] == a;
        assert(elects[i] == a);
    }
}

/// The digest a funding through `by` is towards: the author's own digest
/// for a direct backing, the index or the pool named otherwise.
pub open spec fn funded_digest(by: Funder, author_digest: Digest) -> Digest {
    match by {
        Funder::Direct(_) => author_digest,
        Funder::Index { digest, .. } => digest,
        Funder::Pool { digest, .. } => digest,
    }
}

/// The account that backs through `by`.
pub open spec fn backing_account(by: Funder) -> AccountId {
    match by {
        Funder::Direct(b) => b,
        Funder::Index { backer, .. } => backer,
        Funder::Pool { backer, .. } => backer,
    }
}

/// Funding never redirects a commitment: a backer that already holds a
/// funding commitment may fund only through the digest it is committed to,
/// whatever kind of funder it acts as.
pub proof fn law_funding_keeps_commitment_digest<C: CommitmentAdapter>(
    p: Pallet,
    adapter: C,
    by: Funder,
    to: Author,
    value: Asset,
    precision: Precision,
    force: Fortitude,
)
    requires
        p.spec_can_fund(&adapter, by, to, value, precision, force) is Ok,
    ensures
        p.authors().contains_key(to),
        adapter.spec_commit_exists(backing_account(by), FreezeReason::AuthorFunding) is Ok
            ==> adapter.spec_commit_digest(backing_account(by), FreezeReason::AuthorFunding)
            == Ok::<Digest, Error>(funded_digest(by, p.authors()[to].digest)),
{
}

/// A funding that succeeds leaves the backer committed towards the digest it
/// funded through, if it was committed before.
pub proof fn law_successful_funding_is_towards_commitment<C: CommitmentAdapter>(
    p: Pallet,
    adapter: C,
    by: Funder,
    to: Author,
    value: Asset,
    precision: Precision,
    force: Fortitude,
)
    requires
        p.spec_fund(adapter, to, by, value, precision, force).1 is Ok,
        adapter.spec_commit_exists(backing_account(by), FreezeReason::AuthorFunding) is Ok,
    ensures
        p.authors().contains_key(to),
        adapter.spec_commit_digest(backing_account(by), FreezeReason::AuthorFunding) == Ok::<
            Digest,
            Error,
        >(funded_digest(by, p.authors()[to].digest)),
{
    law_funding_keeps_commitment_digest(p, adapter, by, to, value, precision, force);
}

/// A funder draws only through the digest it is committed to: a draw that
/// may go ahead means the backer holds a funding commitment, towards the
/// author's digest for a direct backing, towards the index or pool named
/// otherwise.
pub proof fn law_drawing_matches_commitment_digest<C: CommitmentAdapter>(
    p: Pallet,
    adapter: C,
    by: Funder,
    from: Author,
)
    requires
        p.spec_can_draw(&adapter, by, from) is Ok,
    ensures
        p.authors().contains_key(from),
        adapter.spec_commit_exists(backing_account(by), FreezeReason::AuthorFunding) is Ok,
        adapter.spec_commit_digest(backing_account(by), FreezeReason::AuthorFunding) == Ok::<
            Digest,
            Error,
        >(funded_digest(by, p.authors()[from].digest)),
{
}

/// A draw that succeeds released a commitment of the backer that was towards
/// the digest drawn through.
pub proof fn law_successful_draw_is_from_commitment<C: CommitmentAdapter>(
    p: Pallet,
    adapter: C,
    by: Funder,
    from: Author,
)
    requires
        p.spec_draw(adapter, from, by).1 is Ok,
    ensures
        p.authors().contains_key(from),
        adapter.spec_commit_digest(backing_account(by), FreezeReason::AuthorFunding) == Ok::<
            Digest,
            Error,
        >(funded_digest(by, p.authors()[from].digest)),
{
    law_drawing_matches_commitment_digest(p, adapter, by, from);
}

/// Probation is counted from the author's last change of status, not from
/// its enrolment: an author on probation cannot become permanent before
/// `probation_period` blocks have passed since `status_since`, and one that
/// may become permanent is on probation, has served that period and is no
/// longer at risk.
pub proof fn law_probation_counts_from_status_change(p: Pallet, who: AccountId)
    ensures
        p.authors().contains_key(who) && p.authors()[who].status == AuthorStatus::Probation
            && p.block < p.authors()[who].status_since + p.settings().probation_period
            && p.authors()[who].status_since + p.settings().probation_period <= u64::MAX
            ==> p.spec_can_be_permanent(who) == Err::<(), Error>(Error::AuthorInProbation),
        p.authors().contains_key(who) && p.authors()[who].status == AuthorStatus::Probation
            && p.authors()[who].status_since + p.settings().probation_period <= p.block
            && p.authors()[who].risk_until <= p.block ==> p.spec_can_be_permanent(who) is Ok,
        p.spec_can_be_permanent(who) is Ok ==> {
            let m = p.authors()[who];
            &&& p.authors().contains_key(who)
            &&& m.status == AuthorStatus::Probation
            &&& m.status_since + p.settings().probation_period <= p.block || (m.status_since
                + p.settings().probation_period > u64::MAX && p.block == u64::MAX)
            &&& m.risk_until <= p.block
        },
{
}

/// Inspecting a fund through an index or a pool reports the caller's
/// commitment only when it is towards that very index or pool; towards
/// another existing one, the answer is `FundedToAnotherDigest`. Directly, it
/// reports the commitment only when it is towards the author's digest.
pub proof fn law_inspect_fund_names_commitment_digest<C: CommitmentAdapter>(
    p: Pallet,
    adapter: C,
    caller: AccountId,
    d: Digest,
    author: Author,
)
    ensures
        p.spec_inspect_fund(&adapter, caller, FundingTarget::Index(d)) is Ok ==> {
            &&& adapter.spec_commit_digest(caller, FreezeReason::AuthorFunding) == Ok::<Digest, Error>(d)
            &&& p.spec_inspect_fund(&adapter, caller, FundingTarget::Index(d)) == adapter.spec_commit_value(
                caller,
                FreezeReason::AuthorFunding,
            )
        },
        p.spec_inspect_fund(&adapter, caller, FundingTarget::Pool(d)) is Ok ==> {
            &&& adapter.spec_commit_digest(caller, FreezeReason::AuthorFunding) == Ok::<Digest, Error>(d)
            &&& p.spec_inspect_fund(&adapter, caller, FundingTarget::Pool(d)) == adapter.spec_commit_value(
                caller,
                FreezeReason::AuthorFunding,
            )
        },
        adapter.spec_commit_digest(caller, FreezeReason::AuthorFunding) == Ok::<Digest, Error>(d)
            && adapter.spec_index_exists(FreezeReason::AuthorFunding, d) is Ok ==> p.spec_inspect_fund(
            &adapter,
            caller,
            FundingTarget::Index(d),
        ) == adapter.spec_commit_value(caller, FreezeReason::AuthorFunding),
        adapter.spec_commit_digest(caller, FreezeReason::AuthorFunding) == Ok::<Digest, Error>(d)
            && adapter.spec_pool_exists(FreezeReason::AuthorFunding, d) is Ok ==> p.spec_inspect_fund(
            &adapter,
            caller,
            FundingTarget::Pool(d),
        ) == adapter.spec_commit_value(caller, FreezeReason::AuthorFunding),
        adapter.spec_commit_digest(caller, FreezeReason::AuthorFunding) matches Ok(actual) && actual
            != d && adapter.spec_index_exists(FreezeReason::AuthorFunding, actual) is Ok
            ==> p.spec_inspect_fund(&adapter, caller, FundingTarget::Index(d)) == Err::<Asset, Error>(
            Error::FundedToAnotherDigest,
        ),
        adapter.spec_commit_digest(caller, FreezeReason::AuthorFunding) matches Ok(actual) && actual
            != d && adapter.spec_pool_exists(FreezeReason::AuthorFunding, actual) is Ok
            ==> p.spec_inspect_fund(&adapter, caller, FundingTarget::Pool(d)) == Err::<Asset, Error>(
            Error::FundedToAnotherDigest,
        ),
        p.spec_inspect_fund(&adapter, caller, FundingTarget::Direct(author)) is Ok ==> {
            &&& adapter.spec_commit_digest(caller, FreezeReason::AuthorFunding) matches Ok(cd)
            &&& p.digests().contains_key(cd)
            &&& p.digests()[cd] == author
            &&& p.spec_inspect_fund(&adapter, caller, FundingTarget::Direct(author))
                == adapter.spec_commit_value(caller, FreezeReason::AuthorFunding)
        },
{
}

} // verus!
