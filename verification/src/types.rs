//! Core data model of the referenda engine.
//!
//! Everything the engine stores is plain data: block numbers, balances and
//! account identifiers are integers, proposals are references to preimages,
//! and a referendum's lifecycle is the tagged union [`ReferendumInfo`].

use vstd::prelude::*;
use crate::arith::spec_sat_add;
use crate::curve::{Curve, Perbill};

verus! {

/// Block height.
pub type BlockNumber = u64;

/// Currency amount.
pub type Balance = u64;

/// Account identifier.
pub type AccountId = u64;

/// Identifier of a track (a category of referenda with its own policy).
pub type TrackId = u16;

/// Conviction-weighted vote count.
pub type Votes = u64;

/// Index of a referendum: its key in the referendum store.
pub type ReferendumIndex = u32;

/// Address of an entry in the scheduler's agenda.
pub type ScheduleAddress = u64;

/// Hash under which a preimage (a proposal body or metadata blob) is stored.
pub type PreimageHash = u64;

/// Class of a dispatch origin; tracks classify proposal origins.
pub type OriginClass = u16;

/// The origin class reserved for root: alarms dispatch from it.
pub const ROOT_ORIGIN: OriginClass = 0;

/// A reserved amount held on an account until refunded or slashed.
#[derive(Clone, Copy, PartialEq, Eq, Structural, Debug)]
pub struct Deposit {
    pub who: AccountId,
    pub amount: Balance,
}

/// The vote measurements the engine reads; votes are counted elsewhere and
/// these values evolve as they are cast.
#[derive(Clone, Copy, PartialEq, Eq, Structural, Debug)]
pub struct Tally {
    /// Conviction-weighted count of affirmative votes.
    pub ayes: Votes,
    /// Support fraction: ayes pre-conviction over total possible turnout.
    pub support: Perbill,
    /// Approval fraction: ayes over all votes cast.
    pub approval: Perbill,
}

impl Tally {
    /// Both fractions are in range.
    pub open spec fn valid(self) -> bool {
        self.support.valid() && self.approval.valid()
    }

    /// The tally of a poll nobody has voted in.
    pub fn new() -> (r: Self)
        ensures
            r == (Tally { ayes: 0, support: Perbill { parts: 0 }, approval: Perbill { parts: 0 } }),
    {
        Tally { ayes: 0, support: Perbill { parts: 0 }, approval: Perbill { parts: 0 } }
    }
}

/// When an approved proposal should be enacted.
#[derive(Clone, Copy, PartialEq, Eq, Structural, Debug)]
pub enum DispatchTime {
    /// At a fixed block.
    At(BlockNumber),
    /// A number of blocks after approval.
    After(BlockNumber),
}

impl DispatchTime {
    /// Mathematical value of `evaluate`.
    pub open spec fn spec_evaluate(self, now: BlockNumber) -> BlockNumber {
        match self {
            DispatchTime::At(b) => b,
            DispatchTime::After(d) => spec_sat_add(now, d),
        }
    }

    /// Resolve to an absolute block number, given the current one.
    pub fn evaluate(self, now: BlockNumber) -> (r: BlockNumber)
        ensures
            r == self.spec_evaluate(now),
    {
        match self {
            DispatchTime::At(b) => b,
            DispatchTime::After(d) => crate::arith::sat_add(now, d),
        }
    }
}

/// A bounded reference to a proposal: either inline (identified here by an
/// opaque code) or a lookup into the preimage registry.
#[derive(Clone, Copy, PartialEq, Eq, Structural, Debug)]
pub enum Proposal {
    /// A small call carried inline; the engine never reads its content.
    Inline(u64),
    /// A call stored in the preimage registry under `hash`, with the length
    /// the submitter claims it has.
    Lookup { hash: PreimageHash, len: u32 },
}

impl Proposal {
    /// The preimage hash, when the proposal is a registry lookup.
    pub fn lookup_hash(&self) -> (r: Option<PreimageHash>)
        ensures
            r == (match *self {
                Proposal::Inline(_) => Option::<PreimageHash>::None,
                Proposal::Lookup { hash, .. } => Option::Some(hash),
            }),
    {
        match *self {
            Proposal::Inline(_) => Option::None,
            Proposal::Lookup { hash, .. } => Option::Some(hash),
        }
    }

    /// The claimed preimage length, when the proposal is a registry lookup.
    pub fn lookup_len(&self) -> (r: Option<u32>)
        ensures
            r == (match *self {
                Proposal::Inline(_) => Option::<u32>::None,
                Proposal::Lookup { len, .. } => Option::Some(len),
            }),
    {
        match *self {
            Proposal::Inline(_) => Option::None,
            Proposal::Lookup { len, .. } => Option::Some(len),
        }
    }
}

/// Progress of a referendum that is being decided.
#[derive(Clone, Copy, PartialEq, Eq, Structural, Debug)]
pub struct DecidingStatus {
    /// Block at which deciding began.
    pub since: BlockNumber,
    /// Block at which, if still passing, the referendum becomes approved;
    /// `None` while it is not currently passing.
    pub confirming: Option<BlockNumber>,
}

/// A scheduled wake-up held by a referendum: when it fires and where its
/// agenda entry lives.
#[derive(Clone, Copy, PartialEq, Eq, Structural, Debug)]
pub struct Alarm {
    /// Block at which the alarm fires.
    pub when: BlockNumber,
    /// Address of the agenda entry backing it.
    pub address: ScheduleAddress,
}

/// Immutable policy of one track.
#[derive(Clone, Copy, PartialEq, Eq, Debug)]
pub struct TrackInfo {
    /// Display name of the track, as fixed-width bytes.
    pub name: [u8; 8],
    /// How many referenda of this track may be decided at once.
    pub max_deciding: u32,
    /// Amount to be placed as the decision deposit.
    pub decision_deposit: Balance,
    /// Blocks between submission and the earliest start of deciding.
    pub prepare_period: BlockNumber,
    /// Maximum number of blocks a referendum may spend being decided.
    pub decision_period: BlockNumber,
    /// Blocks the referendum must remain passing to be approved.
    pub confirm_period: BlockNumber,
    /// Minimum blocks between approval and enactment.
    pub min_enactment_period: BlockNumber,
    /// Minimum approval fraction over elapsed decision time.
    pub min_approval: Curve,
    /// Minimum support fraction over elapsed decision time.
    pub min_support: Curve,
}

impl TrackInfo {
    /// The track's curves are well-formed.
    pub open spec fn wf(self) -> bool {
        self.min_approval.wf() && self.min_support.wf()
    }
}

/// One registered track: its identifier, the origin class it serves, and its
/// policy.
#[derive(Clone, Copy, PartialEq, Eq, Debug)]
pub struct Track {
    /// Identifier, unique in the registry.
    pub id: TrackId,
    /// The dispatch-origin class whose proposals this track decides.
    pub origin: OriginClass,
    /// The track's policy.
    pub info: TrackInfo,
}

/// Everything known about a live referendum.
#[derive(Clone, Copy, PartialEq, Eq, Debug)]
pub struct ReferendumStatus {
    /// The track this referendum runs under.
    pub track: TrackId,
    /// The origin the proposal will be dispatched from if approved.
    pub origin: OriginClass,
    /// The proposal itself.
    pub proposal: Proposal,
    /// When the proposal should be enacted if approved.
    pub enactment: DispatchTime,
    /// Block of submission.
    pub submitted: BlockNumber,
    /// The deposit reserved at submission.
    pub submission_deposit: Deposit,
    /// The deposit reserved to allow deciding, once placed.
    pub decision_deposit: Option<Deposit>,
    /// Deciding progress, once deciding has begun.
    pub deciding: Option<DecidingStatus>,
    /// Current vote measurements.
    pub tally: Tally,
    /// Whether the referendum is waiting in its track's queue.
    pub in_queue: bool,
    /// The single scheduled wake-up.
    pub alarm: Option<Alarm>,
}

/// A referendum record: ongoing, or concluded one way or another.  Terminal
/// records persist so deposits can still be refunded.
#[derive(Clone, Copy, PartialEq, Eq, Debug)]
pub enum ReferendumInfo {
    /// Still live.
    Ongoing(ReferendumStatus),
    /// Confirmed passing: `(end, submission deposit, decision deposit)`.
    Approved(BlockNumber, Option<Deposit>, Option<Deposit>),
    /// Failed its decision period.
    Rejected(BlockNumber, Option<Deposit>, Option<Deposit>),
    /// Cancelled by the cancel origin.
    Cancelled(BlockNumber, Option<Deposit>, Option<Deposit>),
    /// Never began deciding within the timeout.
    TimedOut(BlockNumber, Option<Deposit>, Option<Deposit>),
    /// Killed by the kill origin; both deposits were slashed.
    Killed(BlockNumber),
}

impl ReferendumInfo {
    /// What removing the decision deposit yields: the stripped record and
    /// the deposit, or a refusal while the referendum is ongoing.
    pub open spec fn spec_take_decision_deposit(self)
        -> Result<(ReferendumInfo, Option<Deposit>), ()> {
        match self {
            ReferendumInfo::Ongoing(_) => Result::Err(()),
            ReferendumInfo::Killed(_) => Result::Ok((self, Option::None)),
            ReferendumInfo::Approved(e, s, d) =>
                Result::Ok((ReferendumInfo::Approved(e, s, Option::None), d)),
            ReferendumInfo::Rejected(e, s, d) =>
                Result::Ok((ReferendumInfo::Rejected(e, s, Option::None), d)),
            ReferendumInfo::Cancelled(e, s, d) =>
                Result::Ok((ReferendumInfo::Cancelled(e, s, Option::None), d)),
            ReferendumInfo::TimedOut(e, s, d) =>
                Result::Ok((ReferendumInfo::TimedOut(e, s, Option::None), d)),
        }
    }

    /// What removing the submission deposit yields: the stripped record and
    /// the deposit, or a refusal for ongoing and killed records.
    pub open spec fn spec_take_submission_deposit(self)
        -> Result<(ReferendumInfo, Option<Deposit>), ()> {
        match self {
            ReferendumInfo::Ongoing(_) => Result::Err(()),
            ReferendumInfo::Killed(_) => Result::Err(()),
            ReferendumInfo::Approved(e, s, d) =>
                Result::Ok((ReferendumInfo::Approved(e, Option::None, d), s)),
            ReferendumInfo::Rejected(e, s, d) =>
                Result::Ok((ReferendumInfo::Rejected(e, Option::None, d), s)),
            ReferendumInfo::Cancelled(e, s, d) =>
                Result::Ok((ReferendumInfo::Cancelled(e, Option::None, d), s)),
            ReferendumInfo::TimedOut(e, s, d) =>
                Result::Ok((ReferendumInfo::TimedOut(e, Option::None, d), s)),
        }
    }

    /// Remove and return the decision deposit, if the record may give it up:
    /// any concluded record may; an ongoing one may not.
    pub fn take_decision_deposit(&mut self) -> (r: Result<Option<Deposit>, ()>)
        ensures
            match *old(self) {
                ReferendumInfo::Ongoing(_) => {
                    &&& r == Result::<Option<Deposit>, ()>::Err(())
                    &&& *final(self) == *old(self)
                },
                ReferendumInfo::Killed(_) => {
                    &&& r == Result::<Option<Deposit>, ()>::Ok(Option::<Deposit>::None)
                    &&& *final(self) == *old(self)
                },
                ReferendumInfo::Approved(e, s, d) => {
                    &&& r == Result::<Option<Deposit>, ()>::Ok(d)
                    &&& *final(self) == ReferendumInfo::Approved(e, s, Option::<Deposit>::None)
                },
                ReferendumInfo::Rejected(e, s, d) => {
                    &&& r == Result::<Option<Deposit>, ()>::Ok(d)
                    &&& *final(self) == ReferendumInfo::Rejected(e, s, Option::<Deposit>::None)
                },
                ReferendumInfo::Cancelled(e, s, d) => {
                    &&& r == Result::<Option<Deposit>, ()>::Ok(d)
                    &&& *final(self) == ReferendumInfo::Cancelled(e, s, Option::<Deposit>::None)
                },
                ReferendumInfo::TimedOut(e, s, d) => {
                    &&& r == Result::<Option<Deposit>, ()>::Ok(d)
                    &&& *final(self) == ReferendumInfo::TimedOut(e, s, Option::<Deposit>::None)
                },
            },
    {
        match *self {
            ReferendumInfo::Ongoing(_) => Result::Err(()),
            ReferendumInfo::Killed(_) => Result::Ok(Option::None),
            ReferendumInfo::Approved(e, s, d) => {
                *self = ReferendumInfo::Approved(e, s, Option::None);
                Result::Ok(d)
            },
            ReferendumInfo::Rejected(e, s, d) => {
                *self = ReferendumInfo::Rejected(e, s, Option::None);
                Result::Ok(d)
            },
            ReferendumInfo::Cancelled(e, s, d) => {
                *self = ReferendumInfo::Cancelled(e, s, Option::None);
                Result::Ok(d)
            },
            ReferendumInfo::TimedOut(e, s, d) => {
                *self = ReferendumInfo::TimedOut(e, s, Option::None);
                Result::Ok(d)
            },
        }
    }

    /// Remove and return the submission deposit, if the record may give it
    /// up: approved, rejected, cancelled and timed-out records may; ongoing
    /// and killed ones may not.
    pub fn take_submission_deposit(&mut self) -> (r: Result<Option<Deposit>, ()>)
        ensures
            match *old(self) {
                ReferendumInfo::Ongoing(_) => {
                    &&& r == Result::<Option<Deposit>, ()>::Err(())
                    &&& *final(self) == *old(self)
                },
                ReferendumInfo::Killed(_) => {
                    &&& r == Result::<Option<Deposit>, ()>::Err(())
                    &&& *final(self) == *old(self)
                },
                ReferendumInfo::Approved(e, s, d) => {
                    &&& r == Result::<Option<Deposit>, ()>::Ok(s)
                    &&& *final(self) == ReferendumInfo::Approved(e, Option::<Deposit>::None, d)
                },
                ReferendumInfo::Rejected(e, s, d) => {
                    &&& r == Result::<Option<Deposit>, ()>::Ok(s)
                    &&& *final(self) == ReferendumInfo::Rejected(e, Option::<Deposit>::None, d)
                },
                ReferendumInfo::Cancelled(e, s, d) => {
                    &&& r == Result::<Option<Deposit>, ()>::Ok(s)
                    &&& *final(self) == ReferendumInfo::Cancelled(e, Option::<Deposit>::None, d)
                },
                ReferendumInfo::TimedOut(e, s, d) => {
                    &&& r == Result::<Option<Deposit>, ()>::Ok(s)
                    &&& *final(self) == ReferendumInfo::TimedOut(e, Option::<Deposit>::None, d)
                },
            },
    {
        match *self {
            ReferendumInfo::Ongoing(_) => Result::Err(()),
            ReferendumInfo::Killed(_) => Result::Err(()),
            ReferendumInfo::Approved(e, s, d) => {
                *self = ReferendumInfo::Approved(e, Option::None, d);
                Result::Ok(s)
            },
            ReferendumInfo::Rejected(e, s, d) => {
                *self = ReferendumInfo::Rejected(e, Option::None, d);
                Result::Ok(s)
            },
            ReferendumInfo::Cancelled(e, s, d) => {
                *self = ReferendumInfo::Cancelled(e, Option::None, d);
                Result::Ok(s)
            },
            ReferendumInfo::TimedOut(e, s, d) => {
                *self = ReferendumInfo::TimedOut(e, Option::None, d);
                Result::Ok(s)
            },
        }
    }
}

/// Which path a service step took; callers use it to account the work done.
#[derive(Clone, Copy, PartialEq, Eq, Structural, Debug)]
pub enum ServiceBranch {
    /// The track of the record no longer exists; nothing was done.
    Fail,
    /// No decision deposit yet: the alarm holds at the timeout.
    NoDeposit,
    /// Preparing: the alarm holds at the end of the preparation period.
    Preparing,
    /// Entered the track's waiting queue.
    Queued,
    /// Was marked queued but sits in no queue and has no ayes: left as is.
    NotQueued,
    /// Re-entered the queue at a fresh position.
    RequeuedInsertion,
    /// Slid to a new position within the queue.
    RequeuedSlide,
    /// Concluded: timed out before deciding could begin.
    TimedOut,
    /// Began deciding, currently passing.
    BeginDecidingPassing,
    /// Began deciding, currently failing.
    BeginDecidingFailing,
    /// Started the confirmation period.
    BeginConfirming,
    /// Still confirming.
    ContinueConfirming,
    /// Still deciding, not confirming.
    ContinueNotConfirming,
    /// Stopped passing: confirmation aborted.
    EndConfirming,
    /// Concluded: approved.
    Approved,
    /// Concluded: rejected.
    Rejected,
}

/// Why an operation was rejected.
#[derive(Clone, Copy, PartialEq, Eq, Structural, Debug)]
pub enum Error {
    /// Referendum is not ongoing.
    NotOngoing,
    /// Referendum's decision deposit is already paid.
    HasDeposit,
    /// The track identifier given was invalid.
    BadTrack,
    /// There are already a full complement of referenda in progress for this
    /// track.
    Full,
    /// The queue of the track is empty.
    QueueEmpty,
    /// The referendum index provided is invalid in this context.
    BadReferendum,
    /// There was nothing to do in the advancement.
    NothingToDo,
    /// No track exists for the proposal origin.
    NoTrack,
    /// Any deposit cannot be refunded until after the decision is over.
    Unfinished,
    /// The deposit refunder is not the depositor.
    NoPermission,
    /// The deposit cannot be refunded since none was made.
    NoDeposit,
    /// The referendum status is invalid for this operation.
    BadStatus,
    /// The preimage does not exist.
    PreimageNotExist,
    /// The preimage is stored with a different length than the one provided.
    PreimageStoredWithDifferentLength,
}

/// An operation's failure: either one of the engine's own errors, or a
/// failure of the currency to reserve funds.
#[derive(Clone, Copy, PartialEq, Eq, Structural, Debug)]
pub enum DispatchError {
    /// An engine error.
    Module(Error),
    /// The account cannot cover the requested reservation.
    FundsUnavailable,
}

/// What the engine announces; appended to the event log in order.
#[derive(Clone, Copy, PartialEq, Eq, Structural, Debug)]
pub enum Event {
    /// A referendum has been submitted.
    Submitted { index: ReferendumIndex, track: TrackId, proposal: Proposal },
    /// The decision deposit has been placed.
    DecisionDepositPlaced { index: ReferendumIndex, who: AccountId, amount: Balance },
    /// The decision deposit has been refunded.
    DecisionDepositRefunded { index: ReferendumIndex, who: AccountId, amount: Balance },
    /// A deposit has been slashed.
    DepositSlashed { who: AccountId, amount: Balance },
    /// A referendum has moved into the deciding phase.
    DecisionStarted { index: ReferendumIndex, track: TrackId, proposal: Proposal, tally: Tally },
    /// The confirmation period has begun.
    ConfirmStarted { index: ReferendumIndex },
    /// The confirmation period was aborted: the referendum stopped passing.
    ConfirmAborted { index: ReferendumIndex },
    /// A referendum survived its confirmation period and is approved.
    Confirmed { index: ReferendumIndex, tally: Tally },
    /// A referendum has been approved and its proposal scheduled.
    Approved { index: ReferendumIndex },
    /// A proposal has been rejected by referendum.
    Rejected { index: ReferendumIndex, tally: Tally },
    /// A referendum has been timed out without being decided.
    TimedOut { index: ReferendumIndex, tally: Tally },
    /// A referendum has been cancelled.
    Cancelled { index: ReferendumIndex, tally: Tally },
    /// A referendum has been killed.
    Killed { index: ReferendumIndex, tally: Tally },
    /// The submission deposit has been refunded.
    SubmissionDepositRefunded { index: ReferendumIndex, who: AccountId, amount: Balance },
    /// Metadata for a referendum has been set.
    MetadataSet { index: ReferendumIndex, hash: PreimageHash },
    /// Metadata for a referendum has been cleared.
    MetadataCleared { index: ReferendumIndex, hash: PreimageHash },
}

} // verus!
