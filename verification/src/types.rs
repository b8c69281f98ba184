//! The values the pallet stores and exchanges: authors' metadata, funders,
//! errors, events and the privileges under which assets move.

use vstd::prelude::*;

use crate::perbill::Perbill;

verus! {

/// An account.
pub type AccountId = u64;

/// An account acting as a block author.
pub type Author = u64;

/// A commitment digest: of an author, of an index or of a pool.
pub type Digest = u64;

/// An amount of the committed asset.
pub type Asset = u128;

/// A block number.
pub type BlockNumber = u64;

/// Shares of an index entry or a pool slot.
pub type Shares = u64;

/// The lifecycle state of an author.
#[derive(Clone, Copy, Debug, PartialEq, Eq, Structural)]
pub enum AuthorStatus {
    /// Newly enrolled (or demoted) and not yet permanent.
    Probation,
    /// Permanent.
    Active,
    /// Left the role; its collateral was released.
    Resigned,
}

/// The metadata the pallet keeps for each author.
#[derive(Clone, Copy, Debug, PartialEq, Eq, Structural)]
pub struct AuthorInfo {
    /// The digest under which the author's collateral and backing are committed.
    pub digest: Digest,
    /// The block of (the latest) enrolment.
    pub since: BlockNumber,
    /// The current status.
    pub status: AuthorStatus,
    /// The block from which the probation period counts.
    pub status_since: BlockNumber,
    /// The block until which the author is considered at risk.
    pub risk_until: BlockNumber,
    /// An author-specific upper bound on a direct funding.
    pub max_fund: Option<Asset>,
    /// An author-specific lower bound on a direct funding.
    pub min_fund: Option<Asset>,
}

/// The metadata of an author that first enrols at block `now` under `digest`.
pub open spec fn spec_new_info(digest: Digest, now: BlockNumber) -> AuthorInfo {
    AuthorInfo {
        digest,
        since: now,
        status: AuthorStatus::Probation,
        status_since: now,
        risk_until: now,
        max_fund: None,
        min_fund: None,
    }
}

/// The metadata of a resigned author that enrols again at block `now`: its
/// digest and funding bounds are kept, its lifecycle starts over.
pub open spec fn spec_re_enroll_info(meta: AuthorInfo, now: BlockNumber) -> AuthorInfo {
    AuthorInfo {
        digest: meta.digest,
        since: now,
        status: AuthorStatus::Probation,
        status_since: now,
        risk_until: now,
        max_fund: meta.max_fund,
        min_fund: meta.min_fund,
    }
}

impl AuthorInfo {
    /// The metadata of an author that first enrols at block `now` under `digest`.
    pub fn new(digest: Digest, now: BlockNumber) -> (r: AuthorInfo)
        ensures
            r == spec_new_info(digest, now),
    {
        AuthorInfo {
            digest,
            since: now,
            status: AuthorStatus::Probation,
            status_since: now,
            risk_until: now,
            max_fund: None,
            min_fund: None,
        }
    }

    /// The metadata of a resigned author that enrols again at block `now`.
    pub fn re_enroll(meta: &AuthorInfo, now: BlockNumber) -> (r: AuthorInfo)
        ensures
            r == spec_re_enroll_info(*meta, now),
    {
        AuthorInfo {
            digest: meta.digest,
            since: now,
            status: AuthorStatus::Probation,
            status_since: now,
            risk_until: now,
            max_fund: meta.max_fund,
            min_fund: meta.min_fund,
        }
    }
}

/// Who backs an author, and through what.
#[derive(Clone, Copy, Debug, PartialEq, Eq, Structural)]
pub enum Funder {
    /// An account committing directly to the author's digest.
    Direct(AccountId),
    /// An account committing to an index that holds the author as an entry.
    Index { digest: Digest, backer: AccountId },
    /// An account committing to a pool that holds the author as a slot.
    Pool { digest: Digest, backer: AccountId },
}

/// The account behind a funder.
pub open spec fn spec_backer(f: Funder) -> AccountId {
    match f {
        Funder::Direct(b) => b,
        Funder::Index { backer, .. } => backer,
        Funder::Pool { backer, .. } => backer,
    }
}

impl Funder {
    /// The account behind this funder.
    pub fn backer(&self) -> (r: AccountId)
        ensures
            r == spec_backer(*self),
    {
        match self {
            Funder::Direct(b) => *b,
            Funder::Index { backer, .. } => *backer,
            Funder::Pool { backer, .. } => *backer,
        }
    }
}

/// What a backer funds, as named in a call.
#[derive(Clone, Copy, Debug, PartialEq, Eq, Structural)]
pub enum FundingTarget {
    /// An author, directly.
    Direct(Author),
    /// An index, by its digest.
    Index(Digest),
    /// A pool, by its digest.
    Pool(Digest),
}

/// Whether an asset movement may use the liquid balance.
#[derive(Clone, Copy, Debug, PartialEq, Eq, Structural)]
pub enum Fortitude {
    /// Only what was reserved for commitments beforehand.
    Polite,
    /// The liquid balance too.
    Force,
}

/// Whether an asset movement must be exact.
#[derive(Clone, Copy, Debug, PartialEq, Eq, Structural)]
pub enum Precision {
    /// The exact amount or nothing.
    Exact,
    /// As much as possible up to the amount.
    BestEffort,
}

/// The precision and privilege of one asset movement.
#[derive(Clone, Copy, Debug, PartialEq, Eq, Structural)]
pub struct Directive {
    pub precision: Precision,
    pub force: Fortitude,
}

/// Why an account's assets are frozen by this pallet.
#[derive(Clone, Copy, Debug, PartialEq, Eq, Structural)]
pub enum FreezeReason {
    /// Backing given to authors.
    AuthorFunding,
    /// Authors' own collateral.
    AuthorCollateral,
}

/// The minimum and maximum that a commitment may take.
#[derive(Clone, Copy, Debug, PartialEq, Eq, Structural)]
pub struct Limits {
    pub minimum: Option<Asset>,
    pub maximum: Option<Asset>,
}

/// Whether `value` lies within the limits.
pub open spec fn spec_limits_contain(l: Limits, value: Asset) -> bool {
    &&& (l.minimum matches Some(m) ==> m <= value)
    &&& (l.maximum matches Some(m) ==> value <= m)
}

impl Limits {
    /// Whether `value` lies within the limits.
    pub fn contains(&self, value: Asset) -> (r: bool)
        ensures
            r == spec_limits_contain(*self, value),
    {
        let above = match self.minimum {
            Some(m) => m <= value,
            None => true,
        };
        let below = match self.maximum {
            Some(m) => value <= m,
            None => true,
        };
        above && below
    }
}

/// The origin of a call.
#[derive(Clone, Copy, Debug, PartialEq, Eq, Structural)]
pub enum Origin {
    /// Signed by an account.
    Signed(AccountId),
    /// The root (governance or sudo).
    Root,
    /// Unsigned.
    Unsigned,
}

/// The failures of the pallet's operations.
#[derive(Clone, Copy, Debug, PartialEq, Eq, Structural)]
pub enum Error {
    AuthorNotFound,
    InadequateCollateral,
    InadequateFunds,
    AlreadyEnrolled,
    AuthorIsActive,
    AuthorInProbation,
    AuthorResigned,
    AuthorHasPenalties,
    AuthorActivated,
    CannotGenerateCommitDigest,
    AuthorHasRewards,
    FundDoesNotExist,
    AuthorDigestNotFound,
    FundedToAnotherDigest,
    AuthorNotInIndex,
    AuthorNotInPool,
    BelowMinimumFund,
    AboveMaximumExposure,
    CannotFundOnCollateral,
    RewardNotFound,
    PenaltyNotFound,
    AuthorTotalHoldExhausted,
    ContainsNoRewards,
    ContainsNoPenalties,
    FinalizedObligations,
    AuthorNeedsMoreCollateral,
    ZeroPenaltyFound,
    AuthorIsUnsafe,
    RedundantResignation,
    InadequateCandidatesToElect,
    NoElectsFound,
    AuthorNotElected,
    MinElectedNotReached,
    RiskWithinThreshold,
    AuthorMismatch,
    InvalidPoolManager,
    MinCollateralZero,
    MinGreaterThanMax,
    NonZeroConfigRequired,
    FundingOffLimits,
    /// The call's origin is not the one required.
    BadOrigin,
    /// A failure reported by the commitment system, with its code.
    Commitment(u32),
    /// A failure reported by the activity provider, with its code.
    Activity(u32),
}

/// A field of the configuration that governance may set.
#[derive(Clone, Copy, Debug, PartialEq, Eq, Structural)]
pub enum ForceGenesisConfig {
    ProbationPeriod(BlockNumber),
    ReduceProbationBy(BlockNumber),
    IncreaseProbationBy(BlockNumber),
    RewardsBuffer(BlockNumber),
    PenaltiesBuffer(BlockNumber),
    MaxElected(u32),
    MinElected(u32),
    EnforceMaxElected(bool),
    MinFund(Asset),
    MaxExposure(Asset),
    MinCollateral(Asset),
}

/// What the pallet reports of its operations.
#[derive(Clone, Debug, PartialEq, Eq)]
pub enum Event {
    AuthorEnlisted { author: Author, collateral: Asset },
    AuthorResigned { author: Author, released: Asset },
    AuthorCollateralRaised { author: Author, raised: Asset },
    AuthorTotalCollateral { author: Author, collateral: Asset },
    AuthorFunded { author: Author, backer: AccountId, amount: Asset },
    InspectAuthorFund { author: Author, backer: AccountId, amount: Asset },
    InspectFund { author: Author, funder: Funder, amount: Asset },
    IndexFunded { index: Digest, backer: AccountId, amount: Asset },
    InspectIndexFund { index: Digest, backer: AccountId, amount: Asset },
    PoolFunded { pool: Digest, backer: AccountId, amount: Asset },
    InspectPoolFund { pool: Digest, backer: AccountId, amount: Asset },
    AuthorDrawn { author: Author, backer: AccountId, amount: Asset },
    IndexDrawn { index: Digest, backer: AccountId, amount: Asset },
    PoolDrawn { pool: Digest, backer: AccountId, amount: Asset },
    ScheduledRewards { author: Author, rewards: Vec<(BlockNumber, Asset)> },
    ScheduledPenalties { author: Author, penalties: Vec<(BlockNumber, Perbill)> },
    AuthorRewardScheduled { author: Author, amount: Asset, at: BlockNumber },
    AuthorPenaltyScheduled { author: Author, factor: Perbill, at: BlockNumber },
    AuthorStatus { author: Author, status: AuthorStatus },
    AuthorAtRisk { author: Author, status: AuthorStatus, until: BlockNumber },
    AuthorPenaltyForgiven { author: Author, factor: Perbill },
    AuthorRewardReclaimed { author: Author, amount: Asset },
    AuthorTotalHold { author: Author, value: Asset },
    ElectionPrepared { elects: Vec<Author> },
    ElectionFailed { error: Error },
    IndexCreated { index: Digest, entries: Vec<(Digest, Shares)> },
    PoolCreated { pool: Digest, commission: Perbill, manager: AccountId, slots: Vec<(Digest, Shares)> },
    PoolManager { digest: Digest, manager: AccountId },
    PoolSlotShare { pool: Digest, slot: Digest, shares: Shares },
    GenesisConfigUpdated(ForceGenesisConfig),
}

} // verus!
