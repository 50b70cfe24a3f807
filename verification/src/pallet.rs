//! The referenda engine: configuration, storage, and public operations.
//!
//! A [`Pallet`] value holds the four storage maps, the per-track policies,
//! and deterministic models of the collaborators the engine drives: the
//! scheduler agenda, the currency ledger and the preimage registry.  Every
//! public operation's contract is stated against the abstract view
//! [`StateView`]: the operation's entire effect is one spec-level transition
//! function of the old view.

use vstd::prelude::*;
use crate::arith::{sat_add, sat_sub, spec_sat_add, spec_sat_sub};
use crate::curve::Perbill;
use crate::ledger::{Account, Ledger, spec_acc_pos, spec_can_reserve, spec_reserve,
    spec_slash, spec_slash_amount, spec_unreserve};
use crate::queue::{QueueEntry, queue_position, lower_bound,
    spec_force_insert, spec_lower_bound, spec_queue_pos, spec_requeue};
use crate::sched::{ScheduledCall, ScheduledItem, Scheduler, spec_cancel};
use crate::types::{AccountId, Alarm, Balance, BlockNumber, DecidingStatus, Deposit,
    DispatchError, DispatchTime, Error, Event, OriginClass, PreimageHash, Proposal,
    ReferendumIndex, ReferendumInfo, ReferendumStatus, ServiceBranch, Tally, Track, TrackId, TrackInfo,
    ROOT_ORIGIN};

verus! {

/// Everything configurable about the engine, bundled: the track registry
/// and the four constants.
pub struct Config {
    /// Immutable per-track policies, in registry order.
    pub tracks: Vec<Track>,
    /// Deposit reserved at submission.
    pub submission_deposit: Balance,
    /// Bound of each track's waiting queue.
    pub max_queued: u32,
    /// Blocks a referendum may wait to begin deciding before timing out.
    pub undeciding_timeout: BlockNumber,
    /// Alarms are rounded up to multiples of this interval.
    pub alarm_interval: BlockNumber,
}

impl Config {
    /// The registry is sane and the queue bound is usable.
    pub open spec fn wf(self) -> bool {
        &&& self.max_queued >= 1
        &&& forall|i: int| 0 <= i < self.tracks@.len()
            ==> (#[trigger] self.tracks@[i]).info.wf()
        &&& forall|i: int, j: int| 0 <= i < j < self.tracks@.len()
            ==> self.tracks@[i].id != self.tracks@[j].id
    }
}

/// The engine's whole state.
pub struct Pallet {
    /// Immutable per-track policies, in registry order.
    pub tracks: Vec<Track>,
    /// Deposit reserved at submission.
    pub submission_deposit: Balance,
    /// Bound of each track's waiting queue.
    pub max_queued: u32,
    /// Blocks a referendum may wait to begin deciding before timing out.
    pub undeciding_timeout: BlockNumber,
    /// Alarms are rounded up to multiples of this interval.
    pub alarm_interval: BlockNumber,
    /// Every referendum record; a record's index is its identity, so the
    /// count of referenda started so far is the length.
    pub referenda: Vec<ReferendumInfo>,
    /// Metadata hash per referendum.
    pub metadata: Vec<Option<PreimageHash>>,
    /// Waiting queues, one per track, in registry order.
    pub queues: Vec<Vec<QueueEntry>>,
    /// How many referenda each track is currently deciding, in registry
    /// order.
    pub deciding_count: Vec<u32>,
    /// Model of the scheduler service.
    pub scheduler: Scheduler,
    /// Model of the currency service.
    pub ledger: Ledger,
    /// Model of the preimage registry: hash and stored length.
    pub preimages: Vec<(PreimageHash, u32)>,
    /// Everything announced so far, in order.
    pub events: Vec<Event>,
}

/// The abstract state: every field of [`Pallet`], as mathematical values.
pub struct StateView {
    pub tracks: Seq<Track>,
    pub submission_deposit: Balance,
    pub max_queued: u32,
    pub undeciding_timeout: BlockNumber,
    pub alarm_interval: BlockNumber,
    pub referenda: Seq<ReferendumInfo>,
    pub metadata: Seq<Option<PreimageHash>>,
    pub queues: Seq<Seq<QueueEntry>>,
    pub deciding_count: Seq<u32>,
    pub agenda: Seq<Option<ScheduledItem>>,
    pub accounts: Seq<Account>,
    pub total_slashed: Balance,
    pub preimages: Seq<(PreimageHash, u32)>,
    pub events: Seq<Event>,
}

impl View for Pallet {
    type V = StateView;

    open spec fn view(&self) -> StateView {
        StateView {
            tracks: self.tracks@,
            submission_deposit: self.submission_deposit,
            max_queued: self.max_queued,
            undeciding_timeout: self.undeciding_timeout,
            alarm_interval: self.alarm_interval,
            referenda: self.referenda@,
            metadata: self.metadata@,
            queues: Seq::new(self.queues@.len(), |i: int| self.queues@[i]@),
            deciding_count: self.deciding_count@,
            agenda: self.scheduler@,
            accounts: self.ledger@,
            total_slashed: self.ledger.total_slashed,
            preimages: self.preimages@,
            events: self.events@,
        }
    }
}

/// Position of a track in a registry, `-1` when absent.
pub open spec fn spec_track_pos(tracks: Seq<Track>, id: TrackId) -> int
    decreases tracks.len(),
{
    if tracks.len() == 0 {
        -1
    } else if tracks[0].id == id {
        0
    } else {
        let r = spec_track_pos(tracks.drop_first(), id);
        if r < 0 {
            -1
        } else {
            1 + r
        }
    }
}

/// Position of the first track serving an origin class, `-1` when none does.
pub open spec fn spec_track_for(tracks: Seq<Track>, origin: OriginClass) -> int
    decreases tracks.len(),
{
    if tracks.len() == 0 {
        -1
    } else if tracks[0].origin == origin {
        0
    } else {
        let r = spec_track_for(tracks.drop_first(), origin);
        if r < 0 {
            -1
        } else {
            1 + r
        }
    }
}

/// The stored length of a preimage, when the registry holds the hash.
pub open spec fn spec_preimage_len(preimages: Seq<(PreimageHash, u32)>, hash: PreimageHash)
    -> Option<u32>
    decreases preimages.len(),
{
    if preimages.len() == 0 {
        Option::None
    } else if preimages[0].0 == hash {
        Option::Some(preimages[0].1)
    } else {
        spec_preimage_len(preimages.drop_first(), hash)
    }
}

impl StateView {
    /// Position of a track in the registry.
    pub open spec fn track_pos(self, id: TrackId) -> int {
        spec_track_pos(self.tracks, id)
    }

    /// Whether a track is registered.
    pub open spec fn has_track(self, id: TrackId) -> bool {
        self.track_pos(id) >= 0
    }

    /// The policy of a registered track.
    pub open spec fn track_info(self, id: TrackId) -> TrackInfo {
        self.tracks[self.track_pos(id)].info
    }

    /// The ongoing record at `index`, when there is one.
    pub open spec fn ongoing(self, index: ReferendumIndex) -> Option<ReferendumStatus> {
        if index < self.referenda.len() {
            match self.referenda[index as int] {
                ReferendumInfo::Ongoing(st) => Option::Some(st),
                _ => Option::None,
            }
        } else {
            Option::None
        }
    }

    /// Structural soundness: parallel storage is aligned, the registry is
    /// sane, queues respect their bound, and every ongoing record's track
    /// exists and its tally fractions are in range.
    pub open spec fn sound(self) -> bool {
        &&& self.queues.len() == self.tracks.len()
        &&& self.deciding_count.len() == self.tracks.len()
        &&& self.metadata.len() == self.referenda.len()
        &&& self.referenda.len() <= u32::MAX
        &&& self.max_queued >= 1
        &&& forall|i: int| 0 <= i < self.tracks.len()
            ==> (#[trigger] self.tracks[i]).info.wf()
        &&& forall|i: int, j: int| 0 <= i < j < self.tracks.len()
            ==> self.tracks[i].id != self.tracks[j].id
        &&& forall|i: int| 0 <= i < self.queues.len()
            ==> (#[trigger] self.queues[i]).len() <= self.max_queued
        &&& forall|i: int| 0 <= i < self.referenda.len()
            ==> match #[trigger] self.referenda[i] {
                ReferendumInfo::Ongoing(st) => {
                    &&& spec_track_pos(self.tracks, st.track) >= 0
                    &&& st.tally.valid()
                },
                _ => true,
            }
    }
}

/// An alarm block rounded up to the next multiple of the interval (an
/// interval of zero quantizes like one: not at all).
pub open spec fn spec_round_alarm(interval: BlockNumber, when: BlockNumber) -> BlockNumber {
    let ai = if interval >= 1 { interval } else { 1 };
    let s = spec_sat_add(when, (ai - 1) as u64);
    (((s as int) / (ai as int)) * (ai as int)) as u64
}

impl StateView {
    /// The state after appending one agenda entry, and the entry's address.
    pub open spec fn schedule_v(self, item: ScheduledItem) -> (StateView, u64) {
        (
            StateView { agenda: self.agenda.push(Option::Some(item)), ..self },
            self.agenda.len() as u64,
        )
    }

    /// The state after arming one anonymous alarm, and the alarm: the block
    /// is rounded up to the alarm interval, and the call dispatches from
    /// root at priority 128.
    pub open spec fn set_alarm_v(self, call: ScheduledCall, when: BlockNumber)
        -> (StateView, Alarm) {
        let w = spec_round_alarm(self.alarm_interval, when);
        let sched = self.schedule_v(ScheduledItem {
            when: w,
            priority: 128,
            origin: ROOT_ORIGIN,
            call,
            name: Option::None,
        });
        (sched.0, Alarm { when: w, address: sched.1 })
    }

    /// The state after cancelling one agenda entry.
    pub open spec fn cancel_v(self, address: u64) -> StateView {
        StateView { agenda: spec_cancel(self.agenda, address), ..self }
    }

    /// The state, status and change flag after clearing a status's alarm.
    pub open spec fn ensure_no_alarm_v(self, st: ReferendumStatus)
        -> (StateView, ReferendumStatus, bool) {
        match st.alarm {
            Option::Some(a) => (
                self.cancel_v(a.address),
                ReferendumStatus { alarm: Option::None, ..st },
                true,
            ),
            Option::None => (self, st, false),
        }
    }

    /// The state, status and change flag after idempotently arming the
    /// status's single alarm at `alarm` (rounded): nothing changes when the
    /// held alarm already fires then, otherwise the held alarm is cancelled
    /// and a fresh one armed.
    pub open spec fn ensure_alarm_at_v(
        self,
        st: ReferendumStatus,
        index: ReferendumIndex,
        alarm: BlockNumber,
    ) -> (StateView, ReferendumStatus, bool) {
        let w = spec_round_alarm(self.alarm_interval, alarm);
        let held = match st.alarm {
            Option::Some(a) => a.when == w,
            Option::None => false,
        };
        if held {
            (self, st, false)
        } else {
            let cleared = self.ensure_no_alarm_v(st);
            let armed = cleared.0.set_alarm_v(ScheduledCall::Nudge(index), alarm);
            (
                armed.0,
                ReferendumStatus { alarm: Option::Some(armed.1), ..cleared.1 },
                true,
            )
        }
    }

    /// The state after noting that a track has one fewer deciding
    /// referendum: an alarm for the next block pulls from its queue.
    pub open spec fn note_one_fewer_deciding_v(self, track: TrackId, now: BlockNumber)
        -> StateView {
        self.set_alarm_v(ScheduledCall::OneFewerDeciding(track), spec_sat_add(now, 1)).0
    }

    /// The state and outcome of reserving a deposit.
    pub open spec fn take_deposit_v(self, who: AccountId, amount: Balance)
        -> (StateView, Result<Deposit, DispatchError>) {
        if spec_can_reserve(self.accounts, who, amount) {
            (
                StateView { accounts: spec_reserve(self.accounts, who, amount), ..self },
                Result::Ok(Deposit { who, amount }),
            )
        } else {
            (self, Result::Err(DispatchError::FundsUnavailable))
        }
    }

    /// The state after refunding a deposit, if there is one.
    pub open spec fn refund_deposit_v(self, deposit: Option<Deposit>) -> StateView {
        match deposit {
            Option::Some(d) => StateView {
                accounts: spec_unreserve(self.accounts, d.who, d.amount),
                ..self
            },
            Option::None => self,
        }
    }

    /// The state after slashing a deposit, if there is one: the reserved
    /// funds go to the imbalance handler and the slash is announced.
    pub open spec fn slash_deposit_v(self, deposit: Option<Deposit>) -> StateView {
        match deposit {
            Option::Some(d) => StateView {
                accounts: spec_slash(self.accounts, d.who, d.amount),
                total_slashed: spec_sat_add(
                    self.total_slashed,
                    spec_slash_amount(self.accounts, d.who, d.amount),
                ),
                events: self.events.push(Event::DepositSlashed {
                    who: d.who,
                    amount: d.amount,
                }),
                ..self
            },
            Option::None => self,
        }
    }
}

/// Law: `ensure_alarm_at` is idempotent.  A second call for the same block
/// changes nothing and reports no change.
pub proof fn lemma_ensure_alarm_at_idempotent(
    v: StateView,
    st: ReferendumStatus,
    index: ReferendumIndex,
    w: BlockNumber,
)
    ensures
        ({
            let first = v.ensure_alarm_at_v(st, index, w);
            let second = first.0.ensure_alarm_at_v(first.1, index, w);
            &&& second.0 == first.0
            &&& second.1 == first.1
            &&& second.2 == false
        }),
{
}

impl Pallet {
    /// Round an alarm block up to the next multiple of the interval.
    fn round_alarm(&self, when: BlockNumber) -> (r: BlockNumber)
        ensures
            r == spec_round_alarm(self@.alarm_interval, when),
    {
        let ai = if self.alarm_interval >= 1 { self.alarm_interval } else { 1 };
        let s = sat_add(when, ai - 1);
        let q = s / ai;
        proof {
            vstd::arithmetic::div_mod::lemma_fundamental_div_mod(s as int, ai as int);
            assert((q as int) * (ai as int) <= s as int) by (nonlinear_arith)
                requires
                    ai >= 1,
                    s as int == (ai as int) * (q as int) + (s as int) % (ai as int),
                    0 <= (s as int) % (ai as int),
            {}
            vstd::arithmetic::mul::lemma_mul_nonnegative(q as int, ai as int);
        }
        q * ai
    }

    /// Arm one anonymous alarm dispatching `call` at `when`, rounded up to
    /// the alarm interval.
    fn set_alarm(&mut self, call: ScheduledCall, when: BlockNumber) -> (r: Alarm)
        ensures
            ({
                let out = old(self)@.set_alarm_v(call, when);
                final(self)@ == out.0 && r == out.1
            }),
    {
        let w = self.round_alarm(when);
        let address = self.scheduler.schedule(ScheduledItem {
            when: w,
            priority: 128,
            origin: ROOT_ORIGIN,
            call,
            name: Option::None,
        });
        Alarm { when: w, address }
    }

    /// Cancel the alarm in `status`, if one exists.
    fn ensure_no_alarm(&mut self, status: &mut ReferendumStatus) -> (r: bool)
        ensures
            ({
                let out = old(self)@.ensure_no_alarm_v(*old(status));
                final(self)@ == out.0 && *final(status) == out.1 && r == out.2
            }),
    {
        match status.alarm {
            Option::Some(a) => {
                status.alarm = Option::None;
                self.scheduler.cancel(a.address);
                true
            },
            Option::None => false,
        }
    }

    /// Ensure the status's single alarm re-services referendum `index` at
    /// `alarm` (rounded).  Nothing happens if it is already so armed;
    /// returns whether anything changed.
    fn ensure_alarm_at(
        &mut self,
        status: &mut ReferendumStatus,
        index: ReferendumIndex,
        alarm: BlockNumber,
    ) -> (r: bool)
        ensures
            ({
                let out = old(self)@.ensure_alarm_at_v(*old(status), index, alarm);
                final(self)@ == out.0 && *final(status) == out.1 && r == out.2
            }),
    {
        let w = self.round_alarm(alarm);
        let held = match status.alarm {
            Option::Some(a) => a.when == w,
            Option::None => false,
        };
        if held {
            false
        } else {
            self.ensure_no_alarm(status);
            let al = self.set_alarm(ScheduledCall::Nudge(index), alarm);
            status.alarm = Option::Some(al);
            true
        }
    }

    /// Schedule a pull from the track's queue at the next block.
    fn note_one_fewer_deciding(&mut self, track: TrackId, now: BlockNumber)
        ensures
            final(self)@ == old(self)@.note_one_fewer_deciding_v(track, now),
    {
        self.set_alarm(ScheduledCall::OneFewerDeciding(track), sat_add(now, 1));
    }

    /// Reserve a deposit from `who`.
    fn take_deposit(&mut self, who: AccountId, amount: Balance) -> (r: Result<
        Deposit,
        DispatchError,
    >)
        ensures
            ({
                let out = old(self)@.take_deposit_v(who, amount);
                final(self)@ == out.0 && r == out.1
            }),
    {
        match self.ledger.reserve(who, amount) {
            Result::Ok(_) => Result::Ok(Deposit { who, amount }),
            Result::Err(_) => Result::Err(DispatchError::FundsUnavailable),
        }
    }

    /// Return a deposit, if `Some`.
    fn refund_deposit(&mut self, deposit: Option<Deposit>)
        ensures
            final(self)@ == old(self)@.refund_deposit_v(deposit),
    {
        match deposit {
            Option::Some(d) => self.ledger.unreserve(d.who, d.amount),
            Option::None => {},
        }
    }

    /// Slash a deposit, if `Some`, announcing it.
    fn slash_deposit(&mut self, deposit: Option<Deposit>)
        ensures
            final(self)@ == old(self)@.slash_deposit_v(deposit),
    {
        match deposit {
            Option::Some(d) => {
                self.ledger.slash_reserved(d.who, d.amount);
                self.events.push(Event::DepositSlashed { who: d.who, amount: d.amount });
            },
            Option::None => {},
        }
    }
}

impl Pallet {
    /// A fresh engine under the given policies: no referenda, empty queues,
    /// nothing scheduled, an empty ledger and registry.
    pub fn new(
        tracks: Vec<Track>,
        submission_deposit: Balance,
        max_queued: u32,
        undeciding_timeout: BlockNumber,
        alarm_interval: BlockNumber,
    ) -> (r: Pallet)
        requires
            max_queued >= 1,
            forall|i: int| 0 <= i < tracks@.len() ==> (#[trigger] tracks@[i]).info.wf(),
            forall|i: int, j: int| 0 <= i < j < tracks@.len()
                ==> tracks@[i].id != tracks@[j].id,
        ensures
            r@.tracks == tracks@,
            r@.submission_deposit == submission_deposit,
            r@.max_queued == max_queued,
            r@.undeciding_timeout == undeciding_timeout,
            r@.alarm_interval == alarm_interval,
            r@.referenda.len() == 0,
            r@.metadata.len() == 0,
            r@.queues.len() == tracks@.len(),
            forall|i: int| 0 <= i < tracks@.len()
                ==> (#[trigger] r@.queues[i]).len() == 0,
            r@.deciding_count == Seq::new(tracks@.len(), |i: int| 0u32),
            r@.agenda.len() == 0,
            r@.accounts.len() == 0,
            r@.total_slashed == 0,
            r@.preimages.len() == 0,
            r@.events.len() == 0,
            r@.sound(),
            r@.inv(),
    {
        let n = tracks.len();
        let mut queues: Vec<Vec<QueueEntry>> = Vec::new();
        let mut deciding_count: Vec<u32> = Vec::new();
        let mut i: usize = 0;
        while i < n
            invariant
                0 <= i <= n,
                queues@.len() == i,
                deciding_count@.len() == i,
                forall|j: int| 0 <= j < i ==> (#[trigger] queues@[j])@.len() == 0,
                forall|j: int| 0 <= j < i ==> deciding_count@[j] == 0u32,
            decreases n - i,
        {
            queues.push(Vec::new());
            deciding_count.push(0);
            i = i + 1;
        }
        let r = Pallet {
            tracks,
            submission_deposit,
            max_queued,
            undeciding_timeout,
            alarm_interval,
            referenda: Vec::new(),
            metadata: Vec::new(),
            queues,
            deciding_count,
            scheduler: Scheduler::new(),
            ledger: Ledger::new(),
            preimages: Vec::new(),
            events: Vec::new(),
        };
        proof {
            assert(r@.deciding_count =~= Seq::new(tracks@.len(), |i: int| 0u32));
            assert forall|t: int| 0 <= t < r@.queues.len()
                implies crate::queue::queue_sorted(#[trigger] r@.queues[t]) by {
                assert(r@.queues[t].len() == 0);
            }
            assert(forall|i: int| 0 <= i < r@.referenda.len() ==> #[trigger] r@.record_ok(i));
        }
        r
    }

    /// A fresh engine under a bundled configuration.
    pub fn with_config(config: Config) -> (r: Pallet)
        requires
            config.wf(),
        ensures
            r@.tracks == config.tracks@,
            r@.submission_deposit == config.submission_deposit,
            r@.max_queued == config.max_queued,
            r@.undeciding_timeout == config.undeciding_timeout,
            r@.alarm_interval == config.alarm_interval,
            r@.referenda.len() == 0,
            r@.metadata.len() == 0,
            r@.agenda.len() == 0,
            r@.accounts.len() == 0,
            r@.total_slashed == 0,
            r@.preimages.len() == 0,
            r@.events.len() == 0,
            r@.sound(),
            r@.inv(),
    {
        Pallet::new(
            config.tracks,
            config.submission_deposit,
            config.max_queued,
            config.undeciding_timeout,
            config.alarm_interval,
        )
    }

    /// Find a track in the registry.
    pub fn track_index(&self, id: TrackId) -> (r: Option<usize>)
        ensures
            r matches Option::Some(p)
                ==> p == spec_track_pos(self@.tracks, id) && p < self@.tracks.len()
                    && self@.tracks[p as int].id == id,
            r is None ==> spec_track_pos(self@.tracks, id) == -1,
    {
        let mut i: usize = 0;
        proof {
            assert(self.tracks@.skip(0) =~= self.tracks@);
        }
        while i < self.tracks.len()
            invariant
                0 <= i <= self.tracks@.len(),
                spec_track_pos(self.tracks@.skip(i as int), id) >= 0
                    ==> spec_track_pos(self.tracks@, id)
                        == i + spec_track_pos(self.tracks@.skip(i as int), id),
                spec_track_pos(self.tracks@.skip(i as int), id) < 0
                    ==> spec_track_pos(self.tracks@, id) == -1,
            decreases self.tracks@.len() - i,
        {
            proof {
                assert(self.tracks@.skip(i as int).drop_first() =~= self.tracks@.skip(i + 1));
            }
            if self.tracks[i].id == id {
                return Option::Some(i);
            }
            i = i + 1;
        }
        Option::None
    }

    /// Classify a proposal origin into the track that decides it.
    pub fn track_for(&self, origin: OriginClass) -> (r: Option<TrackId>)
        ensures
            r matches Option::Some(t) ==> {
                &&& spec_track_for(self@.tracks, origin) >= 0
                &&& t == self@.tracks[spec_track_for(self@.tracks, origin)].id
            },
            r is None ==> spec_track_for(self@.tracks, origin) == -1,
    {
        let mut i: usize = 0;
        proof {
            assert(self.tracks@.skip(0) =~= self.tracks@);
        }
        while i < self.tracks.len()
            invariant
                0 <= i <= self.tracks@.len(),
                spec_track_for(self.tracks@.skip(i as int), origin) >= 0
                    ==> spec_track_for(self.tracks@, origin)
                        == i + spec_track_for(self.tracks@.skip(i as int), origin),
                spec_track_for(self.tracks@.skip(i as int), origin) < 0
                    ==> spec_track_for(self.tracks@, origin) == -1,
            decreases self.tracks@.len() - i,
        {
            proof {
                assert(self.tracks@.skip(i as int).drop_first() =~= self.tracks@.skip(i + 1));
            }
            if self.tracks[i].origin == origin {
                return Option::Some(self.tracks[i].id);
            }
            i = i + 1;
        }
        Option::None
    }

    /// The list of all registered tracks.
    pub fn tracks(&self) -> (r: &Vec<Track>)
        ensures
            r@ == self@.tracks,
    {
        &self.tracks
    }

    /// The identifiers of all registered tracks, in registry order.
    pub fn classes(&self) -> (r: Vec<TrackId>)
        ensures
            r@ == Seq::new(self@.tracks.len(), |i: int| self@.tracks[i].id),
    {
        let mut out: Vec<TrackId> = Vec::new();
        let mut i: usize = 0;
        while i < self.tracks.len()
            invariant
                0 <= i <= self.tracks@.len(),
                out@.len() == i,
                forall|j: int| 0 <= j < i ==> out@[j] == self.tracks@[j].id,
            decreases self.tracks@.len() - i,
        {
            out.push(self.tracks[i].id);
            i = i + 1;
        }
        proof {
            assert(out@ =~= Seq::new(self@.tracks.len(), |i: int| self@.tracks[i].id));
        }
        out
    }

    /// The number of referenda started so far: the next free index.
    pub fn referendum_count(&self) -> (r: u32)
        requires
            self@.referenda.len() <= u32::MAX,
        ensures
            r == self@.referenda.len(),
    {
        self.referenda.len() as u32
    }

    /// The record of a referendum, when the index is allocated.
    pub fn referendum_info(&self, index: ReferendumIndex) -> (r: Option<ReferendumInfo>)
        ensures
            r == (if index < self@.referenda.len() {
                Option::Some(self@.referenda[index as int])
            } else {
                Option::<ReferendumInfo>::None
            }),
    {
        if (index as usize) < self.referenda.len() {
            Option::Some(self.referenda[index as usize])
        } else {
            Option::None
        }
    }

    /// Require that referendum `index` is ongoing and return its status.
    pub fn ensure_ongoing(&self, index: ReferendumIndex) -> (r: Result<
        ReferendumStatus,
        DispatchError,
    >)
        ensures
            r == (match self@.ongoing(index) {
                Option::Some(st) => Result::<ReferendumStatus, DispatchError>::Ok(st),
                Option::None => Result::<ReferendumStatus, DispatchError>::Err(
                    DispatchError::Module(Error::NotOngoing)),
            }),
    {
        if (index as usize) < self.referenda.len() {
            match self.referenda[index as usize] {
                ReferendumInfo::Ongoing(st) => Result::Ok(st),
                _ => Result::Err(DispatchError::Module(Error::NotOngoing)),
            }
        } else {
            Result::Err(DispatchError::Module(Error::NotOngoing))
        }
    }

    /// The tally and track of an ongoing referendum.
    pub fn as_ongoing(&self, index: ReferendumIndex) -> (r: Option<(Tally, TrackId)>)
        ensures
            r == (match self@.ongoing(index) {
                Option::Some(st) => Option::Some((st.tally, st.track)),
                Option::None => Option::<(Tally, TrackId)>::None,
            }),
    {
        match self.ensure_ongoing(index) {
            Result::Ok(st) => Option::Some((st.tally, st.track)),
            Result::Err(_) => Option::None,
        }
    }

    /// Open a funded account in the currency model.
    pub fn fund(&mut self, who: AccountId, free: Balance)
        ensures
            final(self)@ == (StateView {
                accounts: if spec_acc_pos(old(self)@.accounts, who) >= 0 {
                    old(self)@.accounts
                } else {
                    old(self)@.accounts.push(Account { who, free, reserved: 0 })
                },
                ..old(self)@
            }),
            old(self)@.inv() ==> final(self)@.inv(),
    {
        proof {
            if old(self)@.inv() {
                crate::invariants::lemma_inv_same_core(old(self)@, StateView {
                    accounts: if spec_acc_pos(old(self)@.accounts, who) >= 0 {
                        old(self)@.accounts
                    } else {
                        old(self)@.accounts.push(Account { who, free, reserved: 0 })
                    },
                    ..old(self)@
                });
            }
        }
        self.ledger.open_account(who, free);
    }

    /// Record a preimage's length in the registry model; an already-noted
    /// hash keeps its first length.
    pub fn note_preimage(&mut self, hash: PreimageHash, len: u32)
        ensures
            final(self)@ == (StateView {
                preimages: if spec_preimage_len(old(self)@.preimages, hash) is Some {
                    old(self)@.preimages
                } else {
                    old(self)@.preimages.push((hash, len))
                },
                ..old(self)@
            }),
            old(self)@.inv() ==> final(self)@.inv(),
    {
        proof {
            if old(self)@.inv() {
                crate::invariants::lemma_inv_same_core(old(self)@, StateView {
                    preimages: if spec_preimage_len(old(self)@.preimages, hash) is Some {
                        old(self)@.preimages
                    } else {
                        old(self)@.preimages.push((hash, len))
                    },
                    ..old(self)@
                });
            }
        }
        if self.preimage_len(hash).is_none() {
            self.preimages.push((hash, len));
        }
    }

    /// The stored length of a preimage, when the registry holds the hash.
    pub fn preimage_len(&self, hash: PreimageHash) -> (r: Option<u32>)
        ensures
            r == spec_preimage_len(self@.preimages, hash),
    {
        let mut i: usize = 0;
        proof {
            assert(self.preimages@.skip(0) =~= self.preimages@);
        }
        while i < self.preimages.len()
            invariant
                0 <= i <= self.preimages@.len(),
                spec_preimage_len(self.preimages@, hash)
                    == spec_preimage_len(self.preimages@.skip(i as int), hash),
            decreases self.preimages@.len() - i,
        {
            proof {
                assert(self.preimages@.skip(i as int).drop_first()
                    =~= self.preimages@.skip(i + 1));
            }
            if self.preimages[i].0 == hash {
                return Option::Some(self.preimages[i].1);
            }
            i = i + 1;
        }
        Option::None
    }
}

/// Whether a tally is passing given elapsed blocks of the decision period:
/// the elapsed fraction must meet both curves.
pub open spec fn spec_is_passing(
    tally: Tally,
    elapsed: BlockNumber,
    period: BlockNumber,
    support_needed: crate::curve::Curve,
    approval_needed: crate::curve::Curve,
) -> bool {
    let x = Perbill::spec_from_rational(
        if elapsed < period { elapsed } else { period },
        period,
    );
    support_needed.spec_passing(x, tally.support.parts as int)
        && approval_needed.spec_passing(x, tally.approval.parts as int)
}

/// The block at which a deciding referendum next needs attention: the end of
/// confirmation while confirming, else the earliest block at which the
/// current measurements would newly be passing.
pub open spec fn spec_decision_time(d: DecidingStatus, tally: Tally, info: TrackInfo)
    -> BlockNumber {
    match d.confirming {
        Option::Some(t) => t,
        Option::None => {
            let us = info.min_support.spec_delay(tally.support.parts as int);
            let ua = info.min_approval.spec_delay(tally.approval.parts as int);
            let off = if us >= ua { us } else { ua };
            spec_sat_add(
                d.since,
                (Perbill { parts: off as u32 }).spec_mul_ceil(info.decision_period) as u64,
            )
        },
    }
}

impl StateView {
    /// The state after clearing a referendum's metadata, when it has any.
    pub open spec fn clear_metadata_v(self, index: ReferendumIndex) -> StateView {
        if index < self.metadata.len() && self.metadata[index as int] is Some {
            StateView {
                metadata: self.metadata.update(index as int, Option::None),
                events: self.events.push(Event::MetadataCleared {
                    index,
                    hash: self.metadata[index as int].unwrap(),
                }),
                ..self
            }
        } else {
            self
        }
    }

    /// The transition of `refund_decision_deposit`: for a concluded
    /// referendum, unreserve the decision deposit and strip it from the
    /// record.
    pub open spec fn refund_decision_deposit_v(self, index: ReferendumIndex)
        -> (StateView, Result<(), DispatchError>) {
        if index >= self.referenda.len() {
            (self, Result::Err(DispatchError::Module(Error::BadReferendum)))
        } else {
            match self.referenda[index as int].spec_take_decision_deposit() {
                Result::Err(_) => (self, Result::Err(DispatchError::Module(Error::Unfinished))),
                Result::Ok((info2, dep)) => match dep {
                    Option::None => (self, Result::Err(DispatchError::Module(Error::NoDeposit))),
                    Option::Some(d) => (
                        StateView {
                            accounts: spec_unreserve(self.accounts, d.who, d.amount),
                            referenda: self.referenda.update(index as int, info2),
                            events: self.events.push(Event::DecisionDepositRefunded {
                                index,
                                who: d.who,
                                amount: d.amount,
                            }),
                            ..self
                        },
                        Result::Ok(()),
                    ),
                },
            }
        }
    }

    /// The transition of `refund_submission_deposit`: as for the decision
    /// deposit, but killed records refuse.
    pub open spec fn refund_submission_deposit_v(self, index: ReferendumIndex)
        -> (StateView, Result<(), DispatchError>) {
        if index >= self.referenda.len() {
            (self, Result::Err(DispatchError::Module(Error::BadReferendum)))
        } else {
            match self.referenda[index as int].spec_take_submission_deposit() {
                Result::Err(_) => (self, Result::Err(DispatchError::Module(Error::BadStatus))),
                Result::Ok((info2, dep)) => match dep {
                    Option::None => (self, Result::Err(DispatchError::Module(Error::NoDeposit))),
                    Option::Some(d) => (
                        StateView {
                            accounts: spec_unreserve(self.accounts, d.who, d.amount),
                            referenda: self.referenda.update(index as int, info2),
                            events: self.events.push(Event::SubmissionDepositRefunded {
                                index,
                                who: d.who,
                                amount: d.amount,
                            }),
                            ..self
                        },
                        Result::Ok(()),
                    ),
                },
            }
        }
    }

    /// The transition of `set_metadata`: the submitter may set or clear an
    /// ongoing referendum's metadata, anyone may clear a concluded one's.
    pub open spec fn set_metadata_v(
        self,
        who: AccountId,
        index: ReferendumIndex,
        maybe_hash: Option<PreimageHash>,
    ) -> (StateView, Result<(), DispatchError>) {
        match maybe_hash {
            Option::Some(hash) => match self.ongoing(index) {
                Option::None => (self, Result::Err(DispatchError::Module(Error::NotOngoing))),
                Option::Some(st) => {
                    if st.submission_deposit.who != who {
                        (self, Result::Err(DispatchError::Module(Error::NoPermission)))
                    } else if spec_preimage_len(self.preimages, hash) is None {
                        (self, Result::Err(DispatchError::Module(Error::PreimageNotExist)))
                    } else {
                        (
                            StateView {
                                metadata: self.metadata.update(index as int, Option::Some(hash)),
                                events: self.events.push(Event::MetadataSet { index, hash }),
                                ..self
                            },
                            Result::Ok(()),
                        )
                    }
                },
            },
            Option::None => match self.ongoing(index) {
                Option::Some(st) if st.submission_deposit.who != who =>
                    (self, Result::Err(DispatchError::Module(Error::NoPermission))),
                _ => (self.clear_metadata_v(index), Result::Ok(())),
            },
        }
    }

    /// The transition of `cancel`: conclude an ongoing referendum as
    /// cancelled, keeping both deposits for refund.
    pub open spec fn cancel_referendum_v(self, index: ReferendumIndex, now: BlockNumber)
        -> (StateView, Result<(), DispatchError>) {
        match self.ongoing(index) {
            Option::None => (self, Result::Err(DispatchError::Module(Error::NotOngoing))),
            Option::Some(st) => {
                let v1 = match st.alarm {
                    Option::Some(a) => self.cancel_v(a.address),
                    Option::None => self,
                };
                let v2 = v1.note_one_fewer_deciding_v(st.track, now);
                let v3 = StateView {
                    events: v2.events.push(Event::Cancelled { index, tally: st.tally }),
                    ..v2
                };
                let v4 = StateView {
                    referenda: v3.referenda.update(index as int, ReferendumInfo::Cancelled(
                        now,
                        Option::Some(st.submission_deposit),
                        st.decision_deposit,
                    )),
                    ..v3
                };
                (v4, Result::Ok(()))
            },
        }
    }

    /// The transition of `kill`: conclude an ongoing referendum as killed,
    /// slashing both deposits and clearing its metadata.
    pub open spec fn kill_referendum_v(self, index: ReferendumIndex, now: BlockNumber)
        -> (StateView, Result<(), DispatchError>) {
        match self.ongoing(index) {
            Option::None => (self, Result::Err(DispatchError::Module(Error::NotOngoing))),
            Option::Some(st) => {
                let v1 = match st.alarm {
                    Option::Some(a) => self.cancel_v(a.address),
                    Option::None => self,
                };
                let v2 = v1.note_one_fewer_deciding_v(st.track, now);
                let v3 = StateView {
                    events: v2.events.push(Event::Killed { index, tally: st.tally }),
                    ..v2
                };
                let v4 = v3.slash_deposit_v(Option::Some(st.submission_deposit));
                let v5 = v4.slash_deposit_v(st.decision_deposit);
                let v6 = v5.clear_metadata_v(index);
                let v7 = StateView {
                    referenda: v6.referenda.update(index as int, ReferendumInfo::Killed(now)),
                    ..v6
                };
                (v7, Result::Ok(()))
            },
        }
    }

    /// What `is_referendum_passing` reports: whether an ongoing referendum's
    /// tally currently meets its track's curves.
    pub open spec fn is_referendum_passing_v(self, index: ReferendumIndex, now: BlockNumber)
        -> Result<bool, DispatchError> {
        if index >= self.referenda.len() {
            Result::Err(DispatchError::Module(Error::BadReferendum))
        } else {
            match self.referenda[index as int] {
                ReferendumInfo::Ongoing(st) => {
                    if self.track_pos(st.track) < 0 {
                        Result::Err(DispatchError::Module(Error::NoTrack))
                    } else {
                        let info = self.track_info(st.track);
                        let elapsed = match st.deciding {
                            Option::Some(d) => spec_sat_sub(now, d.since),
                            Option::None => 0,
                        };
                        Result::Ok(spec_is_passing(
                            st.tally,
                            elapsed,
                            info.decision_period,
                            info.min_support,
                            info.min_approval,
                        ))
                    }
                },
                _ => Result::Err(DispatchError::Module(Error::NotOngoing)),
            }
        }
    }
}

/// Law: refunding the decision deposit is idempotent.  Once a refund has
/// succeeded, an identical second call changes nothing and reports that no
/// deposit remains.
pub proof fn lemma_refund_decision_deposit_idempotent(v: StateView, index: ReferendumIndex)
    ensures
        ({
            let first = v.refund_decision_deposit_v(index);
            first.1 is Ok ==> {
                let second = first.0.refund_decision_deposit_v(index);
                &&& second.0 == first.0
                &&& second.1 == Result::<(), DispatchError>::Err(
                    DispatchError::Module(Error::NoDeposit))
            }
        }),
{
}

/// Law: refunding the submission deposit is idempotent, in the same way.
pub proof fn lemma_refund_submission_deposit_idempotent(v: StateView, index: ReferendumIndex)
    ensures
        ({
            let first = v.refund_submission_deposit_v(index);
            first.1 is Ok ==> {
                let second = first.0.refund_submission_deposit_v(index);
                &&& second.0 == first.0
                &&& second.1 == Result::<(), DispatchError>::Err(
                    DispatchError::Module(Error::NoDeposit))
            }
        }),
{
}

impl Pallet {
    /// Refund the decision deposit of a concluded referendum to its
    /// depositor.
    pub fn refund_decision_deposit(&mut self, index: ReferendumIndex) -> (r: Result<
        (),
        DispatchError,
    >)
        ensures
            ({
                let out = old(self)@.refund_decision_deposit_v(index);
                final(self)@ == out.0 && r == out.1
            }),
            old(self)@.inv() ==> final(self)@.inv(),
    {
        proof {
            if old(self)@.inv() {
                crate::invariants::lemma_refund_decision_preserves_inv(old(self)@, index);
            }
        }
        if (index as usize) >= self.referenda.len() {
            return Result::Err(DispatchError::Module(Error::BadReferendum));
        }
        let mut info = self.referenda[index as usize];
        match info.take_decision_deposit() {
            Result::Err(_) => Result::Err(DispatchError::Module(Error::Unfinished)),
            Result::Ok(Option::None) => Result::Err(DispatchError::Module(Error::NoDeposit)),
            Result::Ok(Option::Some(dep)) => {
                self.refund_deposit(Option::Some(dep));
                self.referenda.set(index as usize, info);
                self.events.push(Event::DecisionDepositRefunded {
                    index,
                    who: dep.who,
                    amount: dep.amount,
                });
                Result::Ok(())
            },
        }
    }

    /// Refund the submission deposit of a concluded (but not killed)
    /// referendum to its depositor.
    pub fn refund_submission_deposit(&mut self, index: ReferendumIndex) -> (r: Result<
        (),
        DispatchError,
    >)
        ensures
            ({
                let out = old(self)@.refund_submission_deposit_v(index);
                final(self)@ == out.0 && r == out.1
            }),
            old(self)@.inv() ==> final(self)@.inv(),
    {
        proof {
            if old(self)@.inv() {
                crate::invariants::lemma_refund_submission_preserves_inv(old(self)@, index);
            }
        }
        if (index as usize) >= self.referenda.len() {
            return Result::Err(DispatchError::Module(Error::BadReferendum));
        }
        let mut info = self.referenda[index as usize];
        match info.take_submission_deposit() {
            Result::Err(_) => Result::Err(DispatchError::Module(Error::BadStatus)),
            Result::Ok(Option::None) => Result::Err(DispatchError::Module(Error::NoDeposit)),
            Result::Ok(Option::Some(dep)) => {
                self.refund_deposit(Option::Some(dep));
                self.referenda.set(index as usize, info);
                self.events.push(Event::SubmissionDepositRefunded {
                    index,
                    who: dep.who,
                    amount: dep.amount,
                });
                Result::Ok(())
            },
        }
    }

    /// Clear a referendum's metadata, if it has any, announcing the removal.
    fn do_clear_metadata(&mut self, index: ReferendumIndex)
        ensures
            final(self)@ == old(self)@.clear_metadata_v(index),
    {
        if (index as usize) < self.metadata.len() {
            match self.metadata[index as usize] {
                Option::Some(hash) => {
                    self.metadata.set(index as usize, Option::None);
                    self.events.push(Event::MetadataCleared { index, hash });
                },
                Option::None => {},
            }
        }
    }

    /// Set or clear a referendum's metadata.  Setting requires the signer to
    /// be the submitter and the preimage to exist; clearing a concluded
    /// referendum's metadata is open to anyone.
    pub fn set_metadata(
        &mut self,
        who: AccountId,
        index: ReferendumIndex,
        maybe_hash: Option<PreimageHash>,
    ) -> (r: Result<(), DispatchError>)
        requires
            old(self)@.sound(),
        ensures
            ({
                let out = old(self)@.set_metadata_v(who, index, maybe_hash);
                final(self)@ == out.0 && r == out.1
            }),
            old(self)@.inv() ==> final(self)@.inv(),
    {
        proof {
            if old(self)@.inv() {
                crate::invariants::lemma_set_metadata_preserves_inv(
                    old(self)@, who, index, maybe_hash);
            }
        }
        match maybe_hash {
            Option::Some(hash) => {
                let st = match self.ensure_ongoing(index) {
                    Result::Ok(st) => st,
                    Result::Err(e) => {
                        return Result::Err(e);
                    },
                };
                if st.submission_deposit.who != who {
                    return Result::Err(DispatchError::Module(Error::NoPermission));
                }
                if self.preimage_len(hash).is_none() {
                    return Result::Err(DispatchError::Module(Error::PreimageNotExist));
                }
                self.metadata.set(index as usize, Option::Some(hash));
                self.events.push(Event::MetadataSet { index, hash });
                Result::Ok(())
            },
            Option::None => {
                match self.ensure_ongoing(index) {
                    Result::Ok(st) => {
                        if st.submission_deposit.who != who {
                            return Result::Err(DispatchError::Module(Error::NoPermission));
                        }
                    },
                    Result::Err(_) => {},
                }
                self.do_clear_metadata(index);
                Result::Ok(())
            },
        }
    }

    /// Cancel an ongoing referendum: conclude it as cancelled, keeping both
    /// deposits for refund.
    pub fn cancel(&mut self, index: ReferendumIndex, now: BlockNumber) -> (r: Result<
        (),
        DispatchError,
    >)
        ensures
            ({
                let out = old(self)@.cancel_referendum_v(index, now);
                final(self)@ == out.0 && r == out.1
            }),
            old(self)@.inv() ==> final(self)@.inv(),
    {
        proof {
            if old(self)@.inv() {
                crate::invariants::lemma_cancel_preserves_inv(old(self)@, index, now);
            }
        }
        let st = match self.ensure_ongoing(index) {
            Result::Ok(st) => st,
            Result::Err(e) => {
                return Result::Err(e);
            },
        };
        match st.alarm {
            Option::Some(a) => self.scheduler.cancel(a.address),
            Option::None => {},
        }
        self.note_one_fewer_deciding(st.track, now);
        self.events.push(Event::Cancelled { index, tally: st.tally });
        self.referenda.set(index as usize, ReferendumInfo::Cancelled(
            now,
            Option::Some(st.submission_deposit),
            st.decision_deposit,
        ));
        Result::Ok(())
    }

    /// Kill an ongoing referendum: conclude it as killed, slashing both
    /// deposits and clearing its metadata.
    pub fn kill(&mut self, index: ReferendumIndex, now: BlockNumber) -> (r: Result<
        (),
        DispatchError,
    >)
        ensures
            ({
                let out = old(self)@.kill_referendum_v(index, now);
                final(self)@ == out.0 && r == out.1
            }),
            old(self)@.inv() ==> final(self)@.inv(),
    {
        proof {
            if old(self)@.inv() {
                crate::invariants::lemma_kill_preserves_inv(old(self)@, index, now);
            }
        }
        let st = match self.ensure_ongoing(index) {
            Result::Ok(st) => st,
            Result::Err(e) => {
                return Result::Err(e);
            },
        };
        match st.alarm {
            Option::Some(a) => self.scheduler.cancel(a.address),
            Option::None => {},
        }
        self.note_one_fewer_deciding(st.track, now);
        self.events.push(Event::Killed { index, tally: st.tally });
        self.slash_deposit(Option::Some(st.submission_deposit));
        self.slash_deposit(st.decision_deposit);
        self.do_clear_metadata(index);
        self.referenda.set(index as usize, ReferendumInfo::Killed(now));
        Result::Ok(())
    }

    /// Whether a tally would be passing at `elapsed` blocks into a decision
    /// period, against the track's two curves.
    fn is_passing(
        tally: &Tally,
        elapsed: BlockNumber,
        period: BlockNumber,
        support_needed: &crate::curve::Curve,
        approval_needed: &crate::curve::Curve,
    ) -> (r: bool)
        requires
            support_needed.wf(),
            approval_needed.wf(),
        ensures
            r == spec_is_passing(*tally, elapsed, period, *support_needed, *approval_needed),
    {
        let capped = if elapsed < period { elapsed } else { period };
        let x = Perbill::from_rational(capped, period);
        support_needed.passing(x, tally.support) && approval_needed.passing(x, tally.approval)
    }

    /// Whether the ongoing referendum `index` is currently passing.
    pub fn is_referendum_passing(&self, index: ReferendumIndex, now: BlockNumber) -> (r: Result<
        bool,
        DispatchError,
    >)
        requires
            self@.sound(),
        ensures
            r == self@.is_referendum_passing_v(index, now),
    {
        if (index as usize) >= self.referenda.len() {
            return Result::Err(DispatchError::Module(Error::BadReferendum));
        }
        match self.referenda[index as usize] {
            ReferendumInfo::Ongoing(st) => {
                let info = match self.track_index(st.track) {
                    Option::Some(p) => self.tracks[p].info,
                    Option::None => {
                        return Result::Err(DispatchError::Module(Error::NoTrack));
                    },
                };
                let elapsed = match st.deciding {
                    Option::Some(d) => sat_sub(now, d.since),
                    Option::None => 0,
                };
                Result::Ok(Self::is_passing(
                    &st.tally,
                    elapsed,
                    info.decision_period,
                    &info.min_support,
                    &info.min_approval,
                ))
            },
            _ => Result::Err(DispatchError::Module(Error::NotOngoing)),
        }
    }

    /// The block at which a deciding referendum next needs attention.
    fn decision_time(
        deciding: &DecidingStatus,
        tally: &Tally,
        track: &TrackInfo,
    ) -> (r: BlockNumber)
        requires
            track.wf(),
            tally.valid(),
        ensures
            r == spec_decision_time(*deciding, *tally, *track),
    {
        match deciding.confirming {
            Option::Some(t) => t,
            Option::None => {
                let us = track.min_support.delay(tally.support);
                let ua = track.min_approval.delay(tally.approval);
                let off = if us.parts >= ua.parts { us } else { ua };
                sat_add(deciding.since, off.mul_ceil(track.decision_period))
            },
        }
    }
}

impl StateView {
    /// The transition of `begin_deciding`: the referendum leaves any queue,
    /// gains a deciding status (already confirming when it is passing at
    /// once), and the start is announced.  Also yields the alarm block: the
    /// next informative moment, never before the next block.
    pub open spec fn begin_deciding_v(
        self,
        st: ReferendumStatus,
        index: ReferendumIndex,
        now: BlockNumber,
        info: TrackInfo,
    ) -> (StateView, ReferendumStatus, BlockNumber, bool) {
        let passing = spec_is_passing(
            st.tally, 0, info.decision_period, info.min_support, info.min_approval);
        let announced = self.events.push(Event::DecisionStarted {
            index,
            track: st.track,
            proposal: st.proposal,
            tally: st.tally,
        });
        let announced2 = if passing {
            announced.push(Event::ConfirmStarted { index })
        } else {
            announced
        };
        let confirming = if passing {
            Option::Some(spec_sat_add(now, info.confirm_period))
        } else {
            Option::None
        };
        let d = DecidingStatus { since: now, confirming };
        let dt = spec_decision_time(d, st.tally, info);
        let next = spec_sat_add(now, 1);
        let alarm = if dt >= next { dt } else { next };
        let st2 = ReferendumStatus { in_queue: false, deciding: Option::Some(d), ..st };
        (StateView { events: announced2, ..self }, st2, alarm, passing)
    }

    /// The transition of `ready_for_deciding`: begin deciding when the track
    /// has a free slot (occupying it), else join its queue.
    pub open spec fn ready_for_deciding_v(
        self,
        now: BlockNumber,
        info: TrackInfo,
        index: ReferendumIndex,
        st: ReferendumStatus,
    ) -> (StateView, ReferendumStatus, Option<BlockNumber>, ServiceBranch) {
        let tp = self.track_pos(st.track);
        let dc = self.deciding_count[tp];
        if dc < info.max_deciding {
            let v1 = StateView {
                deciding_count: self.deciding_count.update(tp, (dc + 1) as u32),
                ..self
            };
            let begun = v1.begin_deciding_v(st, index, now, info);
            (
                begun.0,
                begun.1,
                Option::Some(begun.2),
                if begun.3 {
                    ServiceBranch::BeginDecidingPassing
                } else {
                    ServiceBranch::BeginDecidingFailing
                },
            )
        } else {
            let q2 = spec_force_insert(
                self.queues[tp], (index, st.tally.ayes), self.max_queued as int);
            (
                StateView { queues: self.queues.update(tp, q2), ..self },
                ReferendumStatus { in_queue: true, ..st },
                Option::None,
                ServiceBranch::Queued,
            )
        }
    }

    /// Walking a queue from its high end: the first still-ongoing entry and
    /// the queue that remains once it and any stale entries above it are
    /// popped.
    pub open spec fn spec_next_for_deciding(self, q: Seq<QueueEntry>)
        -> (Seq<QueueEntry>, Option<(ReferendumIndex, ReferendumStatus)>)
        decreases q.len(),
    {
        if q.len() == 0 {
            (q, Option::None)
        } else {
            let e = q.last();
            match self.ongoing(e.0) {
                Option::Some(st) => (q.drop_last(), Option::Some((e.0, st))),
                Option::None => self.spec_next_for_deciding(q.drop_last()),
            }
        }
    }

    /// The transition of `one_fewer_deciding`: pull the highest-ayes ongoing
    /// entry from the track's queue and begin deciding it in the freed slot,
    /// or, with nothing to pull, give the slot back.  Stale entries popped
    /// while searching are only dropped when something was found.
    pub open spec fn one_fewer_deciding_v(self, track: TrackId, now: BlockNumber)
        -> (StateView, Result<(), DispatchError>) {
        let tp = self.track_pos(track);
        if tp < 0 {
            (self, Result::Err(DispatchError::Module(Error::BadTrack)))
        } else {
            let info = self.tracks[tp].info;
            let walked = self.spec_next_for_deciding(self.queues[tp]);
            match walked.1 {
                Option::Some((index, status)) => {
                    let begun = self.begin_deciding_v(status, index, now, info);
                    let armed = begun.0.ensure_alarm_at_v(begun.1, index, begun.2);
                    let v3 = StateView {
                        referenda: armed.0.referenda.update(
                            index as int, ReferendumInfo::Ongoing(armed.1)),
                        ..armed.0
                    };
                    let v4 = StateView { queues: v3.queues.update(tp, walked.0), ..v3 };
                    (v4, Result::Ok(()))
                },
                Option::None => {
                    let dc = self.deciding_count[tp];
                    let v1 = StateView {
                        deciding_count: self.deciding_count.update(
                            tp, spec_sat_sub(dc as u64, 1) as u32),
                        ..self
                    };
                    (v1, Result::Ok(()))
                },
            }
        }
    }

    /// The transition of `schedule_enactment`: the approved proposal is
    /// placed on the agenda under its enactment key, at the desired moment
    /// but no earlier than the track's minimum enactment delay (and at least
    /// one block) after approval.
    pub open spec fn schedule_enactment_v(
        self,
        index: ReferendumIndex,
        info: TrackInfo,
        desired: DispatchTime,
        origin: OriginClass,
        call: Proposal,
        now: BlockNumber,
    ) -> StateView {
        let gap = if info.min_enactment_period >= 1 { info.min_enactment_period } else { 1 };
        let earliest = spec_sat_add(now, gap);
        let wanted = desired.spec_evaluate(now);
        let when = if wanted >= earliest { wanted } else { earliest };
        self.schedule_v(ScheduledItem {
            when,
            priority: 63,
            origin,
            call: ScheduledCall::Enact { origin, proposal: call },
            name: Option::Some(crate::hashing::spec_enactment_key(index)),
        }).0
    }
}

impl Pallet {
    /// Move `status` into the deciding state at `now`, announcing it;
    /// returns the alarm block and whether the tally passes at once.
    fn begin_deciding(
        &mut self,
        status: &mut ReferendumStatus,
        index: ReferendumIndex,
        now: BlockNumber,
        track: &TrackInfo,
    ) -> (r: (BlockNumber, bool))
        requires
            track.wf(),
            old(status).tally.valid(),
        ensures
            ({
                let out = old(self)@.begin_deciding_v(*old(status), index, now, *track);
                &&& final(self)@ == out.0
                &&& *final(status) == out.1
                &&& r.0 == out.2
                &&& r.1 == out.3
            }),
    {
        let is_passing = Self::is_passing(
            &status.tally,
            0,
            track.decision_period,
            &track.min_support,
            &track.min_approval,
        );
        status.in_queue = false;
        self.events.push(Event::DecisionStarted {
            index,
            track: status.track,
            proposal: status.proposal,
            tally: status.tally,
        });
        let confirming = if is_passing {
            self.events.push(Event::ConfirmStarted { index });
            Option::Some(sat_add(now, track.confirm_period))
        } else {
            Option::None
        };
        let deciding_status = DecidingStatus { since: now, confirming };
        let dt = Self::decision_time(&deciding_status, &status.tally, track);
        let next = sat_add(now, 1);
        let alarm = if dt >= next { dt } else { next };
        status.deciding = Option::Some(deciding_status);
        (alarm, is_passing)
    }

    /// Let `status` begin deciding if its track has a free slot, else queue
    /// it.  `Some` alarm means deciding began and a wake-up is needed.
    fn ready_for_deciding(
        &mut self,
        now: BlockNumber,
        track: &TrackInfo,
        index: ReferendumIndex,
        status: &mut ReferendumStatus,
    ) -> (r: (Option<BlockNumber>, ServiceBranch))
        requires
            old(self)@.sound(),
            old(status).tally.valid(),
            old(self)@.has_track(old(status).track),
            *track == old(self)@.track_info(old(status).track),
        ensures
            ({
                let out = old(self)@.ready_for_deciding_v(now, *track, index, *old(status));
                &&& final(self)@ == out.0
                &&& *final(status) == out.1
                &&& r.0 == out.2
                &&& r.1 == out.3
            }),
    {
        let tp = self.track_index(status.track).unwrap();
        let dc = self.deciding_count[tp];
        if dc < track.max_deciding {
            self.deciding_count.set(tp, dc + 1);
            let begun = self.begin_deciding(status, index, now, track);
            (
                Option::Some(begun.0),
                if begun.1 {
                    ServiceBranch::BeginDecidingPassing
                } else {
                    ServiceBranch::BeginDecidingFailing
                },
            )
        } else {
            let ayes = status.tally.ayes;
            let item = (index, ayes);
            status.in_queue = true;
            let pos = lower_bound(&self.queues[tp], ayes);
            if self.queues[tp].len() < (self.max_queued as usize) {
                self.queues[tp].insert(pos, item);
            } else if pos > 0 {
                self.queues[tp].remove(0);
                self.queues[tp].insert(pos - 1, item);
                proof {
                    assert(old(self)@.queues[tp as int].remove(0)
                        =~= old(self)@.queues[tp as int].drop_first());
                }
            }
            proof {
                assert(final(self)@.queues =~= old(self)@.queues.update(
                    tp as int,
                    spec_force_insert(
                        old(self)@.queues[tp as int],
                        (index, old(status).tally.ayes),
                        old(self)@.max_queued as int,
                    )));
            }
            (Option::None, ServiceBranch::Queued)
        }
    }

    /// Scan the track's queue from the high end for the first entry whose
    /// referendum is still ongoing.
    fn next_for_deciding_pos(&self, tp: usize) -> (r: Option<usize>)
        requires
            tp < self@.queues.len(),
        ensures
            ({
                let q = self@.queues[tp as int];
                let walked = self@.spec_next_for_deciding(q);
                match r {
                    Option::Some(p) => {
                        &&& p < q.len()
                        &&& walked.0 == q.take(p as int)
                        &&& walked.1 == Option::Some((q[p as int].0, self@.ongoing(q[p as int].0).unwrap()))
                        &&& self@.ongoing(q[p as int].0) is Some
                    },
                    Option::None => walked.1 is None,
                }
            }),
    {
        let q = &self.queues[tp];
        let mut p: usize = q.len();
        proof {
            assert(q@.take(p as int) =~= q@);
        }
        while p > 0
            invariant
                0 <= p <= q@.len(),
                q@ == self@.queues[tp as int],
                self@.spec_next_for_deciding(q@)
                    == self@.spec_next_for_deciding(q@.take(p as int)),
            decreases p,
        {
            proof {
                assert(q@.take(p as int).drop_last() =~= q@.take(p - 1));
                assert(q@.take(p as int).last() == q@[p - 1]);
            }
            let e = q[p - 1];
            match self.ensure_ongoing(e.0) {
                Result::Ok(_) => {
                    return Option::Some(p - 1);
                },
                Result::Err(_) => {},
            }
            p = p - 1;
        }
        proof {
            assert(q@.take(0) =~= Seq::<QueueEntry>::empty());
        }
        Option::None
    }

    /// A deciding slot of `track` freed up: begin deciding the highest-ayes
    /// queued referendum in it, or give the slot back.
    pub fn one_fewer_deciding(&mut self, track: TrackId, now: BlockNumber) -> (r: Result<
        (),
        DispatchError,
    >)
        requires
            old(self)@.sound(),
        ensures
            ({
                let out = old(self)@.one_fewer_deciding_v(track, now);
                final(self)@ == out.0 && r == out.1
            }),
            old(self)@.inv() ==> final(self)@.inv(),
    {
        proof {
            vstd::std_specs::vec::axiom_spec_len(&self.scheduler.agenda);
            if old(self)@.inv() {
                crate::invariants::lemma_one_fewer_deciding_preserves_inv(
                    old(self)@, track, now);
            }
        }
        let tp = match self.track_index(track) {
            Option::Some(p) => p,
            Option::None => {
                return Result::Err(DispatchError::Module(Error::BadTrack));
            },
        };
        let info = self.tracks[tp].info;
        match self.next_for_deciding_pos(tp) {
            Option::Some(p) => {
                let e = self.queues[tp][p];
                let index = e.0;
                let mut status = match self.ensure_ongoing(index) {
                    Result::Ok(st) => st,
                    Result::Err(_) => {
                        proof {
                            assert(false);
                        }
                        return Result::Ok(());
                    },
                };
                let begun = self.begin_deciding(&mut status, index, now, &info);
                self.ensure_alarm_at(&mut status, index, begun.0);
                self.referenda.set(index as usize, ReferendumInfo::Ongoing(status));
                self.queues[tp].truncate(p);
                proof {
                    assert(self@.queues =~= old(self)@.queues.update(
                        tp as int, old(self)@.queues[tp as int].take(p as int)));
                }
                Result::Ok(())
            },
            Option::None => {
                let dc = self.deciding_count[tp];
                self.deciding_count.set(tp, if dc > 0 { dc - 1 } else { 0 });
                Result::Ok(())
            },
        }
    }

    /// Place an approved proposal on the agenda for enactment.
    fn schedule_enactment(
        &mut self,
        index: ReferendumIndex,
        track: &TrackInfo,
        desired: DispatchTime,
        origin: OriginClass,
        call: Proposal,
        now: BlockNumber,
    )
        ensures
            final(self)@ == old(self)@.schedule_enactment_v(
                index, *track, desired, origin, call, now),
    {
        let gap = if track.min_enactment_period >= 1 { track.min_enactment_period } else { 1 };
        let earliest = sat_add(now, gap);
        let wanted = desired.evaluate(now);
        let when = if wanted >= earliest { wanted } else { earliest };
        let name = crate::hashing::enactment_key(index);
        self.scheduler.schedule(ScheduledItem {
            when,
            priority: 63,
            origin,
            call: ScheduledCall::Enact { origin, proposal: call },
            name: Option::Some(name),
        });
    }
}

impl StateView {
    /// One step of the state machine on a referendum that is not yet
    /// deciding and not queued, once its deposit and preparation have been
    /// weighed: the phase work before the timeout check.  Yields the state,
    /// status, alarm wish (`u64::MAX` for none), dirty flag and branch.
    pub open spec fn service_prepare_v(
        self,
        now: BlockNumber,
        index: ReferendumIndex,
        status: ReferendumStatus,
        info: TrackInfo,
        timeout: BlockNumber,
    ) -> (StateView, ReferendumStatus, BlockNumber, bool, ServiceBranch) {
        if status.decision_deposit is Some {
            let prepare_end = spec_sat_add(status.submitted, info.prepare_period);
            if now >= prepare_end {
                let readied = self.ready_for_deciding_v(now, info, index, status);
                let alarm = match readied.2 {
                    Option::Some(a) => a,
                    Option::None => u64::MAX,
                };
                (readied.0, readied.1, alarm, true, readied.3)
            } else {
                (self, status, prepare_end, false, ServiceBranch::Preparing)
            }
        } else {
            (self, status, timeout, false, ServiceBranch::NoDeposit)
        }
    }

    /// One step of the state machine on a queued referendum: reconcile its
    /// queue position with its current ayes.
    pub open spec fn service_requeue_v(
        self,
        index: ReferendumIndex,
        status: ReferendumStatus,
    ) -> (StateView, ServiceBranch) {
        let tp = self.track_pos(status.track);
        let q = self.queues[tp];
        let ayes = status.tally.ayes;
        let old_pos = spec_queue_pos(q, index);
        let new_pos = spec_lower_bound(q, ayes);
        if old_pos < 0 && new_pos > 0 {
            (
                StateView {
                    queues: self.queues.update(
                        tp, spec_force_insert(q, (index, ayes), self.max_queued as int)),
                    ..self
                },
                ServiceBranch::RequeuedInsertion,
            )
        } else if old_pos >= 0 {
            (
                StateView {
                    queues: self.queues.update(tp, spec_requeue(q, old_pos, ayes)),
                    ..self
                },
                ServiceBranch::RequeuedSlide,
            )
        } else {
            (self, ServiceBranch::NotQueued)
        }
    }

    /// The transition of `service_referendum`: one step of the state
    /// machine.  Yields the state, the record to store, whether anything
    /// changed, and the branch taken.
    pub open spec fn service_referendum_v(
        self,
        now: BlockNumber,
        index: ReferendumIndex,
        status: ReferendumStatus,
    ) -> (StateView, ReferendumInfo, bool, ServiceBranch) {
        let tp = self.track_pos(status.track);
        if tp < 0 {
            (self, ReferendumInfo::Ongoing(status), false, ServiceBranch::Fail)
        } else {
            let info = self.tracks[tp].info;
            let timeout = spec_sat_add(status.submitted, self.undeciding_timeout);
            match status.deciding {
                Option::None => {
                    let stepped = if status.in_queue {
                        let requeued = self.service_requeue_v(index, status);
                        (requeued.0, status, u64::MAX, false, requeued.1)
                    } else {
                        self.service_prepare_v(now, index, status, info, timeout)
                    };
                    let st1 = stepped.1;
                    if st1.deciding is None && now >= timeout && !st1.in_queue {
                        let cleared = stepped.0.ensure_no_alarm_v(st1);
                        let v2 = StateView {
                            events: cleared.0.events.push(Event::TimedOut {
                                index,
                                tally: st1.tally,
                            }),
                            ..cleared.0
                        };
                        (
                            v2,
                            ReferendumInfo::TimedOut(
                                now,
                                Option::Some(st1.submission_deposit),
                                st1.decision_deposit,
                            ),
                            true,
                            ServiceBranch::TimedOut,
                        )
                    } else {
                        let fin = if stepped.2 < u64::MAX {
                            stepped.0.ensure_alarm_at_v(st1, index, stepped.2)
                        } else {
                            stepped.0.ensure_no_alarm_v(st1)
                        };
                        (fin.0, ReferendumInfo::Ongoing(fin.1), stepped.3 || fin.2, stepped.4)
                    }
                },
                Option::Some(d) => {
                    let is_passing = spec_is_passing(
                        status.tally,
                        spec_sat_sub(now, d.since),
                        info.decision_period,
                        info.min_support,
                        info.min_approval,
                    );
                    if is_passing && d.confirming is Some && now >= d.confirming.unwrap() {
                        let cleared = self.ensure_no_alarm_v(status);
                        let v2 = cleared.0.note_one_fewer_deciding_v(status.track, now);
                        let v3 = v2.schedule_enactment_v(
                            index, info, status.enactment, status.origin,
                            status.proposal, now);
                        let v4 = StateView {
                            events: v3.events.push(Event::Confirmed {
                                index,
                                tally: status.tally,
                            }),
                            ..v3
                        };
                        (
                            v4,
                            ReferendumInfo::Approved(
                                now,
                                Option::Some(status.submission_deposit),
                                status.decision_deposit,
                            ),
                            true,
                            ServiceBranch::Approved,
                        )
                    } else if !is_passing
                        && now >= spec_sat_add(d.since, info.decision_period) {
                        let cleared = self.ensure_no_alarm_v(status);
                        let v2 = cleared.0.note_one_fewer_deciding_v(status.track, now);
                        let v3 = StateView {
                            events: v2.events.push(Event::Rejected {
                                index,
                                tally: status.tally,
                            }),
                            ..v2
                        };
                        (
                            v3,
                            ReferendumInfo::Rejected(
                                now,
                                Option::Some(status.submission_deposit),
                                status.decision_deposit,
                            ),
                            true,
                            ServiceBranch::Rejected,
                        )
                    } else {
                        let stepped = if is_passing {
                            if d.confirming is Some {
                                (self, status, false, ServiceBranch::ContinueConfirming)
                            } else {
                                let d2 = DecidingStatus {
                                    since: d.since,
                                    confirming: Option::Some(
                                        spec_sat_add(now, info.confirm_period)),
                                };
                                (
                                    StateView {
                                        events: self.events.push(
                                            Event::ConfirmStarted { index }),
                                        ..self
                                    },
                                    ReferendumStatus {
                                        deciding: Option::Some(d2),
                                        ..status
                                    },
                                    true,
                                    ServiceBranch::BeginConfirming,
                                )
                            }
                        } else {
                            if d.confirming is Some {
                                let d2 = DecidingStatus {
                                    since: d.since,
                                    confirming: Option::None,
                                };
                                (
                                    StateView {
                                        events: self.events.push(
                                            Event::ConfirmAborted { index }),
                                        ..self
                                    },
                                    ReferendumStatus {
                                        deciding: Option::Some(d2),
                                        ..status
                                    },
                                    true,
                                    ServiceBranch::EndConfirming,
                                )
                            } else {
                                (self, status, false, ServiceBranch::ContinueNotConfirming)
                            }
                        };
                        let dt = spec_decision_time(
                            stepped.1.deciding.unwrap(), status.tally, info);
                        let next = spec_sat_add(now, 1);
                        let alarm = if dt >= next { dt } else { next };
                        let fin = if alarm < u64::MAX {
                            stepped.0.ensure_alarm_at_v(stepped.1, index, alarm)
                        } else {
                            stepped.0.ensure_no_alarm_v(stepped.1)
                        };
                        (fin.0, ReferendumInfo::Ongoing(fin.1), stepped.2 || fin.2, stepped.3)
                    }
                },
            }
        }
    }
}

impl Pallet {
    /// Advance the state of one referendum: begin deciding when ready, time
    /// out when stale, enter, continue or abort confirmation, approve or
    /// reject, and re-arm the alarm for the next informative block.
    fn service_referendum(
        &mut self,
        now: BlockNumber,
        index: ReferendumIndex,
        status: ReferendumStatus,
    ) -> (r: (ReferendumInfo, bool, ServiceBranch))
        requires
            old(self)@.sound(),
            status.tally.valid(),
        ensures
            ({
                let out = old(self)@.service_referendum_v(now, index, status);
                &&& final(self)@ == out.0
                &&& r.0 == out.1
                &&& r.1 == out.2
                &&& r.2 == out.3
            }),
    {
        let mut status = status;
        let tp = match self.track_index(status.track) {
            Option::Some(p) => p,
            Option::None => {
                return (ReferendumInfo::Ongoing(status), false, ServiceBranch::Fail);
            },
        };
        let info = self.tracks[tp].info;
        let timeout = sat_add(status.submitted, self.undeciding_timeout);
        let mut alarm: u64 = u64::MAX;
        let mut dirty: bool = false;
        let branch: ServiceBranch;
        match status.deciding {
            Option::None => {
                if status.in_queue {
                    let ayes = status.tally.ayes;
                    let maybe_old_pos = queue_position(&self.queues[tp], index);
                    let new_pos = lower_bound(&self.queues[tp], ayes);
                    let item = (index, ayes);
                    branch = match maybe_old_pos {
                        Option::None if new_pos > 0 => {
                            if self.queues[tp].len() < (self.max_queued as usize) {
                                self.queues[tp].insert(new_pos, item);
                            } else {
                                self.queues[tp].remove(0);
                                self.queues[tp].insert(new_pos - 1, item);
                                proof {
                                    assert(old(self)@.queues[tp as int].remove(0)
                                        =~= old(self)@.queues[tp as int].drop_first());
                                }
                            }
                            proof {
                                assert(self@.queues =~= old(self)@.queues.update(
                                    tp as int,
                                    spec_force_insert(
                                        old(self)@.queues[tp as int],
                                        (index, status.tally.ayes),
                                        old(self)@.max_queued as int,
                                    )));
                            }
                            ServiceBranch::RequeuedInsertion
                        },
                        Option::Some(old_pos) => {
                            let e = self.queues[tp][old_pos];
                            self.queues[tp].set(old_pos, (e.0, ayes));
                            let tgt = if new_pos > old_pos { new_pos - 1 } else { new_pos };
                            self.queues[tp].remove(old_pos);
                            self.queues[tp].insert(tgt, (e.0, ayes));
                            proof {
                                assert(self@.queues =~= old(self)@.queues.update(
                                    tp as int,
                                    spec_requeue(
                                        old(self)@.queues[tp as int],
                                        old_pos as int,
                                        status.tally.ayes,
                                    )));
                            }
                            ServiceBranch::RequeuedSlide
                        },
                        Option::None => ServiceBranch::NotQueued,
                    };
                } else {
                    if status.decision_deposit.is_some() {
                        let prepare_end = sat_add(status.submitted, info.prepare_period);
                        if now >= prepare_end {
                            let readied = self.ready_for_deciding(
                                now, &info, index, &mut status);
                            match readied.0 {
                                Option::Some(a) => {
                                    alarm = a;
                                },
                                Option::None => {},
                            }
                            dirty = true;
                            branch = readied.1;
                        } else {
                            alarm = prepare_end;
                            branch = ServiceBranch::Preparing;
                        }
                    } else {
                        alarm = timeout;
                        branch = ServiceBranch::NoDeposit;
                    }
                }
                if status.deciding.is_none() && now >= timeout && !status.in_queue {
                    self.ensure_no_alarm(&mut status);
                    self.events.push(Event::TimedOut { index, tally: status.tally });
                    return (
                        ReferendumInfo::TimedOut(
                            now,
                            Option::Some(status.submission_deposit),
                            status.decision_deposit,
                        ),
                        true,
                        ServiceBranch::TimedOut,
                    );
                }
            },
            Option::Some(d) => {
                let is_passing = Self::is_passing(
                    &status.tally,
                    sat_sub(now, d.since),
                    info.decision_period,
                    &info.min_support,
                    &info.min_approval,
                );
                if is_passing {
                    let confirmed_at = match d.confirming {
                        Option::Some(t) => if now >= t { true } else { false },
                        Option::None => false,
                    };
                    if confirmed_at {
                        self.ensure_no_alarm(&mut status);
                        self.note_one_fewer_deciding(status.track, now);
                        self.schedule_enactment(
                            index, &info, status.enactment, status.origin,
                            status.proposal, now);
                        self.events.push(Event::Confirmed { index, tally: status.tally });
                        return (
                            ReferendumInfo::Approved(
                                now,
                                Option::Some(status.submission_deposit),
                                status.decision_deposit,
                            ),
                            true,
                            ServiceBranch::Approved,
                        );
                    }
                    branch = match d.confirming {
                        Option::Some(_) => ServiceBranch::ContinueConfirming,
                        Option::None => {
                            dirty = true;
                            status.deciding = Option::Some(DecidingStatus {
                                since: d.since,
                                confirming: Option::Some(sat_add(now, info.confirm_period)),
                            });
                            self.events.push(Event::ConfirmStarted { index });
                            ServiceBranch::BeginConfirming
                        },
                    };
                } else {
                    if now >= sat_add(d.since, info.decision_period) {
                        self.ensure_no_alarm(&mut status);
                        self.note_one_fewer_deciding(status.track, now);
                        self.events.push(Event::Rejected { index, tally: status.tally });
                        return (
                            ReferendumInfo::Rejected(
                                now,
                                Option::Some(status.submission_deposit),
                                status.decision_deposit,
                            ),
                            true,
                            ServiceBranch::Rejected,
                        );
                    }
                    branch = match d.confirming {
                        Option::Some(_) => {
                            dirty = true;
                            status.deciding = Option::Some(DecidingStatus {
                                since: d.since,
                                confirming: Option::None,
                            });
                            self.events.push(Event::ConfirmAborted { index });
                            ServiceBranch::EndConfirming
                        },
                        Option::None => ServiceBranch::ContinueNotConfirming,
                    };
                }
                let deciding_now = match status.deciding {
                    Option::Some(d2) => d2,
                    Option::None => {
                        proof {
                            assert(false);
                        }
                        d
                    },
                };
                let dt = Self::decision_time(&deciding_now, &status.tally, &info);
                let next = sat_add(now, 1);
                alarm = if dt >= next { dt } else { next };
            },
        }
        let dirty_alarm = if alarm < u64::MAX {
            self.ensure_alarm_at(&mut status, index, alarm)
        } else {
            self.ensure_no_alarm(&mut status)
        };
        (ReferendumInfo::Ongoing(status), dirty_alarm || dirty, branch)
    }
}

impl StateView {
    /// The transition of `nudge_referendum`: re-service one ongoing
    /// referendum, disregarding its held alarm (the nudge is that alarm
    /// firing), and store the record when anything changed.
    pub open spec fn nudge_referendum_v(self, index: ReferendumIndex, now: BlockNumber)
        -> (StateView, Result<ServiceBranch, DispatchError>) {
        match self.ongoing(index) {
            Option::None => (self, Result::Err(DispatchError::Module(Error::NotOngoing))),
            Option::Some(st) => {
                let st0 = ReferendumStatus { alarm: Option::None, ..st };
                let svc = self.service_referendum_v(now, index, st0);
                let v2 = if svc.2 {
                    StateView {
                        referenda: svc.0.referenda.update(index as int, svc.1),
                        ..svc.0
                    }
                } else {
                    svc.0
                };
                (v2, Result::Ok(svc.3))
            },
        }
    }

    /// The transition of `place_decision_deposit`: reserve the track's
    /// decision deposit on an ongoing referendum that has none, then advance
    /// it at once.
    pub open spec fn place_decision_deposit_v(
        self,
        who: AccountId,
        index: ReferendumIndex,
        now: BlockNumber,
    ) -> (StateView, Result<ServiceBranch, DispatchError>) {
        match self.ongoing(index) {
            Option::None => (self, Result::Err(DispatchError::Module(Error::NotOngoing))),
            Option::Some(st) => {
                if st.decision_deposit is Some {
                    (self, Result::Err(DispatchError::Module(Error::HasDeposit)))
                } else if self.track_pos(st.track) < 0 {
                    (self, Result::Err(DispatchError::Module(Error::NoTrack)))
                } else {
                    let amount = self.track_info(st.track).decision_deposit;
                    let taken = self.take_deposit_v(who, amount);
                    match taken.1 {
                        Result::Err(e) => (self, Result::Err(e)),
                        Result::Ok(dep) => {
                            let st1 = ReferendumStatus {
                                decision_deposit: Option::Some(dep),
                                ..st
                            };
                            let svc = taken.0.service_referendum_v(now, index, st1);
                            let v2 = StateView {
                                referenda: svc.0.referenda.update(index as int, svc.1),
                                events: svc.0.events.push(Event::DecisionDepositPlaced {
                                    index,
                                    who,
                                    amount,
                                }),
                                ..svc.0
                            };
                            (v2, Result::Ok(svc.3))
                        },
                    }
                }
            },
        }
    }

    /// The transition of `submit`: validate the proposal's claimed preimage
    /// length, classify its origin into a track, reserve the submission
    /// deposit, and create the record with an alarm at the undeciding
    /// timeout.
    pub open spec fn submit_v(
        self,
        who: AccountId,
        proposal_origin: OriginClass,
        proposal: Proposal,
        enactment: DispatchTime,
        now: BlockNumber,
    ) -> (StateView, Result<ReferendumIndex, DispatchError>) {
        let mismatch = match proposal {
            Proposal::Lookup { hash, len } => match spec_preimage_len(self.preimages, hash) {
                Option::Some(pl) => pl != len,
                Option::None => false,
            },
            Proposal::Inline(_) => false,
        };
        if mismatch {
            (self, Result::Err(DispatchError::Module(
                Error::PreimageStoredWithDifferentLength)))
        } else {
            let t = spec_track_for(self.tracks, proposal_origin);
            if t < 0 {
                (self, Result::Err(DispatchError::Module(Error::NoTrack)))
            } else {
                let track = self.tracks[t].id;
                let taken = self.take_deposit_v(who, self.submission_deposit);
                match taken.1 {
                    Result::Err(e) => (self, Result::Err(e)),
                    Result::Ok(dep) => {
                        let index = self.referenda.len() as u32;
                        let armed = taken.0.set_alarm_v(
                            ScheduledCall::Nudge(index),
                            spec_sat_add(now, self.undeciding_timeout),
                        );
                        let st = ReferendumStatus {
                            track,
                            origin: proposal_origin,
                            proposal,
                            enactment,
                            submitted: now,
                            submission_deposit: dep,
                            decision_deposit: Option::None,
                            deciding: Option::None,
                            tally: Tally {
                                ayes: 0,
                                support: Perbill { parts: 0 },
                                approval: Perbill { parts: 0 },
                            },
                            in_queue: false,
                            alarm: Option::Some(armed.1),
                        };
                        let v = StateView {
                            referenda: armed.0.referenda.push(ReferendumInfo::Ongoing(st)),
                            metadata: armed.0.metadata.push(Option::None),
                            events: armed.0.events.push(Event::Submitted {
                                index,
                                track,
                                proposal,
                            }),
                            ..armed.0
                        };
                        (v, Result::Ok(index))
                    },
                }
            }
        }
    }

    /// The transition of the poll access: replace an ongoing referendum's
    /// tally (votes changed elsewhere) and arm an alarm for the next block
    /// so the change is serviced.
    pub open spec fn set_tally_v(self, index: ReferendumIndex, tally: Tally, now: BlockNumber)
        -> (StateView, bool) {
        match self.ongoing(index) {
            Option::None => (self, false),
            Option::Some(st) => {
                let st1 = ReferendumStatus { tally, ..st };
                let armed = self.ensure_alarm_at_v(st1, index, spec_sat_add(now, 1));
                let v = StateView {
                    referenda: armed.0.referenda.update(
                        index as int, ReferendumInfo::Ongoing(armed.1)),
                    ..armed.0
                };
                (v, true)
            },
        }
    }
}

/// What a poll looks like from the voting subsystem.
#[derive(Clone, Copy, PartialEq, Eq, Structural, Debug)]
pub enum PollStatus {
    /// Votes may still be cast.
    Ongoing(Tally, TrackId),
    /// The poll ended at the given block; `true` for approved.
    Completed(BlockNumber, bool),
    /// No such poll.
    Absent,
}

impl Pallet {
    /// Advance referendum `index` onto its next logical state; the wake-up
    /// alarm that fired to cause this is disregarded.
    pub fn nudge_referendum(&mut self, index: ReferendumIndex, now: BlockNumber) -> (r: Result<
        ServiceBranch,
        DispatchError,
    >)
        requires
            old(self)@.sound(),
        ensures
            ({
                let out = old(self)@.nudge_referendum_v(index, now);
                final(self)@ == out.0 && r == out.1
            }),
            old(self)@.inv() && old(self)@.deciding_reached(now) ==> final(self)@.inv(),
    {
        proof {
            vstd::std_specs::vec::axiom_spec_len(&self.scheduler.agenda);
            if old(self)@.inv() && old(self)@.deciding_reached(now) {
                crate::invariants::lemma_nudge_preserves_inv(old(self)@, index, now);
            }
        }
        let mut status = match self.ensure_ongoing(index) {
            Result::Ok(st) => st,
            Result::Err(e) => {
                return Result::Err(e);
            },
        };
        status.alarm = Option::None;
        let svc = self.service_referendum(now, index, status);
        if svc.1 {
            self.referenda.set(index as usize, svc.0);
        }
        Result::Ok(svc.2)
    }

    /// Post the decision deposit for a referendum and advance it at once.
    pub fn place_decision_deposit(
        &mut self,
        who: AccountId,
        index: ReferendumIndex,
        now: BlockNumber,
    ) -> (r: Result<ServiceBranch, DispatchError>)
        requires
            old(self)@.sound(),
        ensures
            ({
                let out = old(self)@.place_decision_deposit_v(who, index, now);
                final(self)@ == out.0 && r == out.1
            }),
            old(self)@.inv() && old(self)@.deciding_reached(now) ==> final(self)@.inv(),
    {
        proof {
            vstd::std_specs::vec::axiom_spec_len(&self.scheduler.agenda);
            if old(self)@.inv() && old(self)@.deciding_reached(now) {
                crate::invariants::lemma_place_decision_deposit_preserves_inv(
                    old(self)@, who, index, now);
            }
        }
        let st = match self.ensure_ongoing(index) {
            Result::Ok(st) => st,
            Result::Err(e) => {
                return Result::Err(e);
            },
        };
        if st.decision_deposit.is_some() {
            return Result::Err(DispatchError::Module(Error::HasDeposit));
        }
        let tp = match self.track_index(st.track) {
            Option::Some(p) => p,
            Option::None => {
                return Result::Err(DispatchError::Module(Error::NoTrack));
            },
        };
        let amount = self.tracks[tp].info.decision_deposit;
        let dep = match self.take_deposit(who, amount) {
            Result::Ok(d) => d,
            Result::Err(e) => {
                return Result::Err(e);
            },
        };
        let mut status = st;
        status.decision_deposit = Option::Some(dep);
        let svc = self.service_referendum(now, index, status);
        self.referenda.set(index as usize, svc.0);
        self.events.push(Event::DecisionDepositPlaced { index, who, amount });
        Result::Ok(svc.2)
    }

    /// Propose a referendum: validate, reserve the submission deposit, and
    /// create the record with an alarm at the undeciding timeout.
    pub fn submit(
        &mut self,
        who: AccountId,
        proposal_origin: OriginClass,
        proposal: Proposal,
        enactment: DispatchTime,
        now: BlockNumber,
    ) -> (r: Result<ReferendumIndex, DispatchError>)
        requires
            old(self)@.sound(),
            old(self)@.referenda.len() < u32::MAX,
        ensures
            ({
                let out = old(self)@.submit_v(who, proposal_origin, proposal, enactment, now);
                final(self)@ == out.0 && r == out.1
            }),
            old(self)@.inv() ==> final(self)@.inv(),
    {
        proof {
            vstd::std_specs::vec::axiom_spec_len(&self.scheduler.agenda);
            if old(self)@.inv() {
                crate::invariants::lemma_submit_preserves_inv(
                    old(self)@, who, proposal_origin, proposal, enactment, now);
            }
        }
        match proposal {
            Proposal::Lookup { hash, len } => {
                match self.preimage_len(hash) {
                    Option::Some(pl) => {
                        if pl != len {
                            return Result::Err(DispatchError::Module(
                                Error::PreimageStoredWithDifferentLength));
                        }
                    },
                    Option::None => {},
                }
            },
            Proposal::Inline(_) => {},
        }
        let track = match self.track_for(proposal_origin) {
            Option::Some(t) => t,
            Option::None => {
                return Result::Err(DispatchError::Module(Error::NoTrack));
            },
        };
        let dep = match self.take_deposit(who, self.submission_deposit) {
            Result::Ok(d) => d,
            Result::Err(e) => {
                return Result::Err(e);
            },
        };
        let index = self.referenda.len() as u32;
        let alarm = self.set_alarm(
            ScheduledCall::Nudge(index),
            sat_add(now, self.undeciding_timeout),
        );
        let status = ReferendumStatus {
            track,
            origin: proposal_origin,
            proposal,
            enactment,
            submitted: now,
            submission_deposit: dep,
            decision_deposit: Option::None,
            deciding: Option::None,
            tally: Tally::new(),
            in_queue: false,
            alarm: Option::Some(alarm),
        };
        self.referenda.push(ReferendumInfo::Ongoing(status));
        self.metadata.push(Option::None);
        self.events.push(Event::Submitted { index, track, proposal });
        Result::Ok(index)
    }

    /// Replace an ongoing referendum's tally — votes are counted elsewhere —
    /// and arm an alarm for the next block so the change is serviced.
    /// Returns whether the referendum was ongoing.
    pub fn set_tally(&mut self, index: ReferendumIndex, tally: Tally, now: BlockNumber)
        -> (r: bool)
        requires
            old(self)@.sound(),
            tally.valid(),
        ensures
            ({
                let out = old(self)@.set_tally_v(index, tally, now);
                final(self)@ == out.0 && r == out.1
            }),
            old(self)@.inv() ==> final(self)@.inv(),
    {
        proof {
            vstd::std_specs::vec::axiom_spec_len(&self.scheduler.agenda);
            if old(self)@.inv() {
                crate::invariants::lemma_set_tally_preserves_inv(old(self)@, index, tally, now);
            }
        }
        let mut status = match self.ensure_ongoing(index) {
            Result::Ok(st) => st,
            Result::Err(_) => {
                return false;
            },
        };
        status.tally = tally;
        self.ensure_alarm_at(&mut status, index, sat_add(now, 1));
        self.referenda.set(index as usize, ReferendumInfo::Ongoing(status));
        true
    }

    /// How the poll at `index` looks from the voting subsystem.
    pub fn poll_status(&self, index: ReferendumIndex) -> (r: PollStatus)
        ensures
            r == (if index < self@.referenda.len() {
                match self@.referenda[index as int] {
                    ReferendumInfo::Ongoing(st) => PollStatus::Ongoing(st.tally, st.track),
                    ReferendumInfo::Approved(end, _, _) => PollStatus::Completed(end, true),
                    ReferendumInfo::Rejected(end, _, _) => PollStatus::Completed(end, false),
                    _ => PollStatus::Absent,
                }
            } else {
                PollStatus::Absent
            }),
    {
        if (index as usize) < self.referenda.len() {
            match self.referenda[index as usize] {
                ReferendumInfo::Ongoing(st) => PollStatus::Ongoing(st.tally, st.track),
                ReferendumInfo::Approved(end, _, _) => PollStatus::Completed(end, true),
                ReferendumInfo::Rejected(end, _, _) => PollStatus::Completed(end, false),
                _ => PollStatus::Absent,
            }
        } else {
            PollStatus::Absent
        }
    }
}

} // verus!
