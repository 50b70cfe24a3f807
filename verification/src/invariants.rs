//! The engine's state invariant, and its preservation by every operation.
//!
//! The invariant gathers what must hold of the stored state across blocks:
//! parallel storage is aligned and in range, every waiting queue is sorted
//! ascending by ayes, no track decides more than its capacity, a deciding
//! status never confirms before it began, and every ongoing referendum's
//! alarm is backed by exactly its own live agenda entry.  Each public
//! operation's transition function is proved to preserve it.

use vstd::prelude::*;
use crate::arith::spec_sat_add;
use crate::pallet::{spec_track_pos, StateView};
use crate::queue::{lemma_force_insert_sorted, lemma_lower_bound_le_len,
    lemma_queue_pos_in_range, lemma_requeue_sorted, queue_sorted, QueueEntry};
use crate::sched::ScheduledCall;
use crate::types::{AccountId, BlockNumber, DispatchTime, OriginClass, PreimageHash, Proposal,
    ReferendumIndex, ReferendumInfo, ReferendumStatus, Tally, Track, TrackId};

verus! {

impl StateView {
    /// Every waiting queue is sorted ascending by ayes.
    pub open spec fn queues_sorted(self) -> bool {
        forall|t: int| 0 <= t < self.queues.len()
            ==> queue_sorted(#[trigger] self.queues[t])
    }

    /// No track decides more referenda than its capacity.
    pub open spec fn counts_bounded(self) -> bool {
        forall|t: int| 0 <= t < self.tracks.len()
            ==> (#[trigger] self.deciding_count[t]) <= self.tracks[t].info.max_deciding
    }

    /// What must hold of one stored record: an ongoing referendum confirms
    /// no earlier than it began deciding, and its alarm, if any, is backed
    /// by a live agenda entry at its address, firing at its block, carrying
    /// the nudge of exactly this referendum.
    pub open spec fn record_ok(self, i: int) -> bool {
        match self.referenda[i] {
            ReferendumInfo::Ongoing(st) => {
                &&& match st.deciding {
                    Option::Some(d) => match d.confirming {
                        Option::Some(t) => d.since <= t,
                        Option::None => true,
                    },
                    Option::None => true,
                }
                &&& match st.alarm {
                    Option::Some(a) => {
                        &&& a.address < self.agenda.len()
                        &&& match self.agenda[a.address as int] {
                            Option::Some(item) => {
                                &&& item.when == a.when
                                &&& item.call == ScheduledCall::Nudge(i as u32)
                            },
                            Option::None => false,
                        }
                    },
                    Option::None => true,
                }
            },
            _ => true,
        }
    }

    /// All stored records are in order.
    pub open spec fn records_ok(self) -> bool {
        forall|i: int| 0 <= i < self.referenda.len() ==> #[trigger] self.record_ok(i)
    }

    /// The whole invariant.
    pub open spec fn inv(self) -> bool {
        &&& self.sound()
        &&& self.queues_sorted()
        &&& self.counts_bounded()
        &&& self.records_ok()
    }

    /// The current block is not before any deciding start: with block
    /// numbers fed monotonically by the host, this always holds.
    pub open spec fn deciding_reached(self, now: BlockNumber) -> bool {
        forall|i: int| 0 <= i < self.referenda.len()
            ==> match #[trigger] self.referenda[i] {
                ReferendumInfo::Ongoing(st) => match st.deciding {
                    Option::Some(d) => d.since <= now,
                    Option::None => true,
                },
                _ => true,
            }
    }

    /// The agenda of `self` evolved from that of `v` by an operation on
    /// referendum `index` alone: entries may be appended, and entries
    /// carrying other referenda's nudges stand untouched.
    pub open spec fn agenda_evolved(self, v: StateView, index: int) -> bool {
        &&& self.agenda.len() >= v.agenda.len()
        &&& forall|k: int| 0 <= k < v.agenda.len() && !(match #[trigger] v.agenda[k] {
            Option::Some(item) => item.call == ScheduledCall::Nudge(index as u32),
            Option::None => false,
        }) ==> self.agenda[k] == v.agenda[k]
    }

    /// What must hold of a record about to be stored at `index`, judged
    /// against this (post-operation) state's agenda.
    pub open spec fn storable(self, index: int, info: ReferendumInfo) -> bool {
        match info {
            ReferendumInfo::Ongoing(st) => {
                &&& spec_track_pos(self.tracks, st.track) >= 0
                &&& st.tally.valid()
                &&& match st.deciding {
                    Option::Some(d) => match d.confirming {
                        Option::Some(t) => d.since <= t,
                        Option::None => true,
                    },
                    Option::None => true,
                }
                &&& match st.alarm {
                    Option::Some(a) => {
                        &&& a.address < self.agenda.len()
                        &&& match self.agenda[a.address as int] {
                            Option::Some(item) => {
                                &&& item.when == a.when
                                &&& item.call == ScheduledCall::Nudge(index as u32)
                            },
                            Option::None => false,
                        }
                    },
                    Option::None => true,
                }
            },
            _ => true,
        }
    }
}

/// A track present at some position is found by the registry lookup.
pub proof fn lemma_track_pos_finds(tracks: Seq<Track>, t: int)
    requires
        0 <= t < tracks.len(),
    ensures
        spec_track_pos(tracks, tracks[t].id) >= 0,
    decreases tracks.len(),
{
    if t > 0 && tracks[0].id != tracks[t].id {
        lemma_track_pos_finds(tracks.drop_first(), t - 1);
        assert(tracks.drop_first()[t - 1] == tracks[t]);
    }
}

/// A found track position is in range and names the track.
pub proof fn lemma_track_pos_in_range(tracks: Seq<Track>, id: TrackId)
    ensures
        spec_track_pos(tracks, id) >= 0 ==> {
            &&& spec_track_pos(tracks, id) < tracks.len()
            &&& tracks[spec_track_pos(tracks, id)].id == id
        },
    decreases tracks.len(),
{
    if tracks.len() > 0 && tracks[0].id != id {
        lemma_track_pos_in_range(tracks.drop_first(), id);
    }
}

/// The registry's classification yields a position in range.
pub proof fn lemma_track_for_in_range(tracks: Seq<Track>, origin: OriginClass)
    ensures
        crate::pallet::spec_track_for(tracks, origin) >= 0
            ==> crate::pallet::spec_track_for(tracks, origin) < tracks.len(),
    decreases tracks.len(),
{
    if tracks.len() > 0 && tracks[0].origin != origin {
        lemma_track_for_in_range(tracks.drop_first(), origin);
    }
}

/// A prefix of a sorted queue is sorted.
proof fn lemma_take_sorted(q: Seq<QueueEntry>, p: int)
    requires
        queue_sorted(q),
        0 <= p <= q.len(),
    ensures
        queue_sorted(q.take(p)),
{
    assert forall|a: int, b: int| 0 <= a < b < q.take(p).len()
        implies q.take(p)[a].1 <= q.take(p)[b].1 by {
        assert(q.take(p)[a] == q[a]);
        assert(q.take(p)[b] == q[b]);
    }
}

/// The invariant does not read the event log, the accounts, the slash
/// total, the preimage registry or the metadata values: two states equal in
/// everything else satisfy it together.
pub(crate) proof fn lemma_inv_same_core(a: StateView, b: StateView)
    requires
        a.inv(),
        b.tracks == a.tracks,
        b.max_queued == a.max_queued,
        b.referenda == a.referenda,
        b.queues == a.queues,
        b.deciding_count == a.deciding_count,
        b.agenda == a.agenda,
        b.metadata.len() == a.metadata.len(),
    ensures
        b.inv(),
{
    assert forall|i: int| 0 <= i < b.referenda.len() implies #[trigger] b.record_ok(i) by {
        assert(a.record_ok(i));
    }
    assert(b.sound());
}

/// Arming an alarm yields a status whose alarm is backed by the new state's
/// agenda, while the old agenda is only cancelled at the status's own held
/// address and appended to.
proof fn lemma_arm_backed(
    u: StateView,
    st: ReferendumStatus,
    index: ReferendumIndex,
    alarm: BlockNumber,
)
    requires
        u.agenda.len() <= u64::MAX,
        match st.alarm {
            Option::Some(a) => {
                &&& a.address < u.agenda.len()
                &&& match u.agenda[a.address as int] {
                    Option::Some(item) => item.when == a.when
                        && item.call == ScheduledCall::Nudge(index),
                    Option::None => false,
                }
            },
            Option::None => true,
        },
    ensures
        ({
            let out = u.ensure_alarm_at_v(st, index, alarm);
            &&& match out.1.alarm {
                Option::Some(a) => {
                    &&& a.address < out.0.agenda.len()
                    &&& match out.0.agenda[a.address as int] {
                        Option::Some(item) => item.when == a.when
                            && item.call == ScheduledCall::Nudge(index),
                        Option::None => false,
                    }
                },
                Option::None => true,
            }
            &&& out.0.agenda.len() >= u.agenda.len()
            &&& forall|k: int| 0 <= k < u.agenda.len() && (match st.alarm {
                Option::Some(a) => k != a.address,
                Option::None => true,
            }) ==> out.0.agenda[k] == u.agenda[k]
            &&& out.0.tracks == u.tracks
            &&& out.0.max_queued == u.max_queued
            &&& out.0.referenda == u.referenda
            &&& out.0.queues == u.queues
            &&& out.0.deciding_count == u.deciding_count
            &&& out.0.metadata == u.metadata
            &&& out.1 == ReferendumStatus { alarm: out.1.alarm, ..st }
        }),
{
}

/// Clearing an alarm cancels at most the status's own held address.
proof fn lemma_clear_own(u: StateView, st: ReferendumStatus)
    ensures
        ({
            let out = u.ensure_no_alarm_v(st);
            &&& out.1.alarm is None
            &&& out.0.agenda.len() == u.agenda.len()
            &&& forall|k: int| 0 <= k < u.agenda.len() && (match st.alarm {
                Option::Some(a) => k != a.address,
                Option::None => true,
            }) ==> out.0.agenda[k] == u.agenda[k]
            &&& out.0.tracks == u.tracks
            &&& out.0.max_queued == u.max_queued
            &&& out.0.referenda == u.referenda
            &&& out.0.queues == u.queues
            &&& out.0.deciding_count == u.deciding_count
            &&& out.0.metadata == u.metadata
            &&& out.1 == ReferendumStatus { alarm: Option::None, ..st }
        }),
{
}

/// The master step: an operation took an `inv` state `v`, touched at most
/// referendum `index`'s own agenda entries (and appended), kept the other
/// storage shapes sound, and now stores a fit record at `index`.  The
/// result satisfies the invariant.
proof fn lemma_store_inv(v: StateView, mid: StateView, index: int, info: ReferendumInfo)
    requires
        v.inv(),
        0 <= index < v.referenda.len(),
        mid.tracks == v.tracks,
        mid.max_queued == v.max_queued,
        mid.referenda == v.referenda,
        mid.metadata.len() == v.metadata.len(),
        mid.queues.len() == v.queues.len(),
        forall|t: int| 0 <= t < mid.queues.len() ==> {
            &&& queue_sorted(#[trigger] mid.queues[t])
            &&& mid.queues[t].len() <= mid.max_queued
        },
        mid.deciding_count.len() == v.deciding_count.len(),
        forall|t: int| 0 <= t < mid.tracks.len()
            ==> (#[trigger] mid.deciding_count[t]) <= mid.tracks[t].info.max_deciding,
        mid.agenda_evolved(v, index),
        mid.storable(index, info),
    ensures
        (StateView { referenda: mid.referenda.update(index, info), ..mid }).inv(),
{
    let w = StateView { referenda: mid.referenda.update(index, info), ..mid };
    assert forall|i: int| 0 <= i < w.referenda.len()
        implies match #[trigger] w.referenda[i] {
            ReferendumInfo::Ongoing(st) => {
                &&& spec_track_pos(w.tracks, st.track) >= 0
                &&& st.tally.valid()
            },
            _ => true,
        } by {
        if i != index {
            assert(w.referenda[i] == v.referenda[i]);
        }
    }
    assert(w.sound());
    assert forall|i: int| 0 <= i < w.referenda.len() implies #[trigger] w.record_ok(i) by {
        if i == index {
            assert(w.storable(index, info) == mid.storable(index, info));
        } else {
            assert(w.referenda[i] == v.referenda[i]);
            assert(v.record_ok(i));
            match v.referenda[i] {
                ReferendumInfo::Ongoing(st) => {
                    match st.alarm {
                        Option::Some(a) => {
                            // this entry nudges referendum i, never the
                            // operated-on one, so it stands untouched
                            assert(i as u32 != index as u32);
                            assert(w.agenda[a.address as int] == v.agenda[a.address as int]);
                        },
                        Option::None => {},
                    }
                },
                _ => {},
            }
        }
    }
}

/// The record at `index` in an `inv` state is wholly in order; stated for
/// instantiating the quantified invariant.
proof fn lemma_inv_at(v: StateView, index: int)
    requires
        v.inv(),
        0 <= index < v.referenda.len(),
    ensures
        v.record_ok(index),
        match v.referenda[index] {
            ReferendumInfo::Ongoing(st) => spec_track_pos(v.tracks, st.track) >= 0
                && st.tally.valid(),
            _ => true,
        },
{
}

/// Law: one service step preserves the invariant — both in the state it
/// yields with the serviced record stored, and, when it reports no change,
/// in the yielded state alone.
#[verifier::rlimit(100)]
pub proof fn lemma_service_preserves_inv(
    v: StateView,
    now: BlockNumber,
    index: ReferendumIndex,
    status: ReferendumStatus,
)
    requires
        v.inv(),
        v.agenda.len() <= u64::MAX,
        v.deciding_reached(now),
        v.ongoing(index) is Some,
        ({
            let st0 = v.ongoing(index).unwrap();
            &&& (status.alarm == st0.alarm || status.alarm is None)
            &&& status.track == st0.track
            &&& status.deciding == st0.deciding
            &&& status.tally.valid()
        }),
    ensures
        ({
            let svc = v.service_referendum_v(now, index, status);
            let stored = StateView {
                referenda: svc.0.referenda.update(index as int, svc.1),
                ..svc.0
            };
            &&& stored.inv()
            &&& !svc.2 ==> svc.0.inv()
        }),
{
    let st0 = v.ongoing(index).unwrap();
    let ii = index as int;
    lemma_inv_at(v, ii);
    let tp = v.track_pos(status.track);
    lemma_track_pos_in_range(v.tracks, status.track);
    assert(tp >= 0);
    let info = v.tracks[tp].info;
    let timeout = spec_sat_add(status.submitted, v.undeciding_timeout);
    let svc = v.service_referendum_v(now, index, status);
    // the status's own held alarm, if any, is backed and carries this
    // referendum's nudge
    assert(match status.alarm {
        Option::Some(a) => a.address < v.agenda.len()
            && match v.agenda[a.address as int] {
                Option::Some(item) => item.when == a.when
                    && item.call == ScheduledCall::Nudge(index),
                Option::None => false,
            },
        Option::None => true,
    });
    match status.deciding {
        Option::None => {
            let stepped = if status.in_queue {
                let requeued = v.service_requeue_v(index, status);
                (requeued.0, status, u64::MAX, false, requeued.1)
            } else {
                v.service_prepare_v(now, index, status, info, timeout)
            };
            let v1 = stepped.0;
            let st1 = stepped.1;
            if status.in_queue {
                let q = v.queues[tp];
                let ayes = status.tally.ayes;
                let old_pos = crate::queue::spec_queue_pos(q, index);
                lemma_queue_pos_in_range(q, index);
                lemma_lower_bound_le_len(q, ayes);
                if old_pos < 0 && crate::queue::spec_lower_bound(q, ayes) > 0 {
                    lemma_force_insert_sorted(q, (index, ayes), v.max_queued as int);
                } else if old_pos >= 0 {
                    lemma_requeue_sorted(q, old_pos, ayes);
                }
            } else {
                if status.decision_deposit is Some
                    && now >= spec_sat_add(status.submitted, info.prepare_period)
                    && !(v.deciding_count[tp] < info.max_deciding) {
                    lemma_force_insert_sorted(
                        v.queues[tp], (index, status.tally.ayes), v.max_queued as int);
                }
            }
            assert(v1.agenda == v.agenda);
            assert(v1.referenda == v.referenda);
            assert forall|t: int| 0 <= t < v1.queues.len() implies {
                &&& queue_sorted(#[trigger] v1.queues[t])
                &&& v1.queues[t].len() <= v1.max_queued
            } by {
                if t != tp {
                    assert(v1.queues[t] == v.queues[t]);
                }
            }
            assert(forall|t: int| 0 <= t < v1.tracks.len()
                ==> (#[trigger] v1.deciding_count[t]) <= v1.tracks[t].info.max_deciding);
            assert(st1.alarm == status.alarm);
            if st1.deciding is None && now >= timeout && !st1.in_queue {
                lemma_clear_own(v1, st1);
                let cleared = v1.ensure_no_alarm_v(st1);
                let v2 = StateView {
                    events: cleared.0.events.push(crate::types::Event::TimedOut {
                        index,
                        tally: st1.tally,
                    }),
                    ..cleared.0
                };
                assert(v2.agenda_evolved(v, ii));
                lemma_store_inv(v, v2, ii, svc.1);
            } else {
                let fin = if stepped.2 < u64::MAX {
                    lemma_arm_backed(v1, st1, index, stepped.2);
                    v1.ensure_alarm_at_v(st1, index, stepped.2)
                } else {
                    lemma_clear_own(v1, st1);
                    v1.ensure_no_alarm_v(st1)
                };
                assert(fin.0.agenda_evolved(v, ii));
                assert(fin.0.storable(ii, ReferendumInfo::Ongoing(fin.1)));
                lemma_store_inv(v, fin.0, ii, ReferendumInfo::Ongoing(fin.1));
                if !svc.2 {
                    assert(fin.0 == v1);
                    assert(v1.inv()) by {
                        assert forall|i: int| 0 <= i < v1.referenda.len()
                            implies #[trigger] v1.record_ok(i) by {
                            assert(v.record_ok(i));
                        }
                    }
                }
            }
        },
        Option::Some(d) => {
            assert(d.since <= now);
            let is_passing = crate::pallet::spec_is_passing(
                status.tally,
                crate::arith::spec_sat_sub(now, d.since),
                info.decision_period,
                info.min_support,
                info.min_approval,
            );
            if is_passing && d.confirming is Some && now >= d.confirming.unwrap() {
                lemma_clear_own(v, status);
                let cleared = v.ensure_no_alarm_v(status);
                let v2 = cleared.0.note_one_fewer_deciding_v(status.track, now);
                let v3 = v2.schedule_enactment_v(
                    index, info, status.enactment, status.origin, status.proposal, now);
                let v4 = StateView {
                    events: v3.events.push(crate::types::Event::Confirmed {
                        index,
                        tally: status.tally,
                    }),
                    ..v3
                };
                assert(v4.agenda_evolved(v, ii));
                lemma_store_inv(v, v4, ii, svc.1);
            } else if !is_passing && now >= spec_sat_add(d.since, info.decision_period) {
                lemma_clear_own(v, status);
                let cleared = v.ensure_no_alarm_v(status);
                let v2 = cleared.0.note_one_fewer_deciding_v(status.track, now);
                let v3 = StateView {
                    events: v2.events.push(crate::types::Event::Rejected {
                        index,
                        tally: status.tally,
                    }),
                    ..v2
                };
                assert(v3.agenda_evolved(v, ii));
                lemma_store_inv(v, v3, ii, svc.1);
            } else {
                let stepped = if is_passing {
                    if d.confirming is Some {
                        (v, status, false, crate::types::ServiceBranch::ContinueConfirming)
                    } else {
                        let d2 = crate::types::DecidingStatus {
                            since: d.since,
                            confirming: Option::Some(spec_sat_add(now, info.confirm_period)),
                        };
                        (
                            StateView {
                                events: v.events.push(
                                    crate::types::Event::ConfirmStarted { index }),
                                ..v
                            },
                            ReferendumStatus { deciding: Option::Some(d2), ..status },
                            true,
                            crate::types::ServiceBranch::BeginConfirming,
                        )
                    }
                } else {
                    if d.confirming is Some {
                        let d2 = crate::types::DecidingStatus {
                            since: d.since,
                            confirming: Option::None,
                        };
                        (
                            StateView {
                                events: v.events.push(
                                    crate::types::Event::ConfirmAborted { index }),
                                ..v
                            },
                            ReferendumStatus { deciding: Option::Some(d2), ..status },
                            true,
                            crate::types::ServiceBranch::EndConfirming,
                        )
                    } else {
                        (v, status, false,
                            crate::types::ServiceBranch::ContinueNotConfirming)
                    }
                };
                let dt = crate::pallet::spec_decision_time(
                    stepped.1.deciding.unwrap(), status.tally, info);
                let next = spec_sat_add(now, 1);
                let alarm = if dt >= next { dt } else { next };
                assert(stepped.0.agenda == v.agenda);
                assert(stepped.1.alarm == status.alarm);
                let fin = if alarm < u64::MAX {
                    lemma_arm_backed(stepped.0, stepped.1, index, alarm);
                    stepped.0.ensure_alarm_at_v(stepped.1, index, alarm)
                } else {
                    lemma_clear_own(stepped.0, stepped.1);
                    stepped.0.ensure_no_alarm_v(stepped.1)
                };
                assert(fin.0.agenda_evolved(v, ii));
                assert(fin.0.storable(ii, ReferendumInfo::Ongoing(fin.1)));
                lemma_store_inv(v, fin.0, ii, ReferendumInfo::Ongoing(fin.1));
                if !svc.2 {
                    assert(fin.0 == stepped.0);
                    assert(stepped.0 == v);
                }
            }
        },
    }
}

/// Law: `nudge_referendum` preserves the invariant.
pub proof fn lemma_nudge_preserves_inv(v: StateView, index: ReferendumIndex, now: BlockNumber)
    requires
        v.inv(),
        v.agenda.len() <= u64::MAX,
        v.deciding_reached(now),
    ensures
        v.nudge_referendum_v(index, now).0.inv(),
{
    match v.ongoing(index) {
        Option::Some(st) => {
            let st0 = ReferendumStatus { alarm: Option::None, ..st };
            lemma_service_preserves_inv(v, now, index, st0);
        },
        Option::None => {},
    }
}

/// Law: `place_decision_deposit` preserves the invariant.
pub proof fn lemma_place_decision_deposit_preserves_inv(
    v: StateView,
    who: AccountId,
    index: ReferendumIndex,
    now: BlockNumber,
)
    requires
        v.inv(),
        v.agenda.len() <= u64::MAX,
        v.deciding_reached(now),
    ensures
        v.place_decision_deposit_v(who, index, now).0.inv(),
{
    match v.ongoing(index) {
        Option::Some(st) => {
            if st.decision_deposit is None && v.track_pos(st.track) >= 0 {
                let amount = v.track_info(st.track).decision_deposit;
                let taken = v.take_deposit_v(who, amount);
                match taken.1 {
                    Result::Ok(dep) => {
                        let st1 = ReferendumStatus {
                            decision_deposit: Option::Some(dep),
                            ..st
                        };
                        lemma_inv_same_core(v, taken.0);
                        assert(taken.0.deciding_reached(now));
                        assert(taken.0.ongoing(index) == Option::Some(st));
                        lemma_service_preserves_inv(taken.0, now, index, st1);
                        let svc = taken.0.service_referendum_v(now, index, st1);
                        let stored = StateView {
                            referenda: svc.0.referenda.update(index as int, svc.1),
                            ..svc.0
                        };
                        let out = v.place_decision_deposit_v(who, index, now);
                        lemma_inv_same_core(stored, out.0);
                    },
                    Result::Err(_) => {},
                }
            }
        },
        Option::None => {},
    }
}

/// Law: `submit` preserves the invariant.
pub proof fn lemma_submit_preserves_inv(
    v: StateView,
    who: AccountId,
    proposal_origin: OriginClass,
    proposal: Proposal,
    enactment: DispatchTime,
    now: BlockNumber,
)
    requires
        v.inv(),
        v.agenda.len() <= u64::MAX,
        v.referenda.len() < u32::MAX,
    ensures
        v.submit_v(who, proposal_origin, proposal, enactment, now).0.inv(),
{
    let out = v.submit_v(who, proposal_origin, proposal, enactment, now);
    let w = out.0;
    let t = crate::pallet::spec_track_for(v.tracks, proposal_origin);
    if t >= 0 && out.1 is Ok {
        lemma_track_for_in_range(v.tracks, proposal_origin);
        lemma_track_pos_finds(v.tracks, t);
        let index = v.referenda.len() as u32;
        assert forall|i: int| 0 <= i < w.referenda.len() implies #[trigger] w.record_ok(i) by {
            if i < v.referenda.len() {
                assert(w.referenda[i] == v.referenda[i]);
                assert(v.record_ok(i));
                match v.referenda[i] {
                    ReferendumInfo::Ongoing(st) => match st.alarm {
                        Option::Some(a) => {
                            assert(w.agenda[a.address as int] == v.agenda[a.address as int]);
                        },
                        Option::None => {},
                    },
                    _ => {},
                }
            } else {
                assert(i == v.referenda.len());
            }
        }
        assert forall|i: int| 0 <= i < w.referenda.len()
            implies match #[trigger] w.referenda[i] {
                ReferendumInfo::Ongoing(st) => {
                    &&& spec_track_pos(w.tracks, st.track) >= 0
                    &&& st.tally.valid()
                },
                _ => true,
            } by {
            if i < v.referenda.len() {
                assert(w.referenda[i] == v.referenda[i]);
            }
        }
        assert(w.sound());
    }
}

/// Law: replacing a tally preserves the invariant.
pub proof fn lemma_set_tally_preserves_inv(
    v: StateView,
    index: ReferendumIndex,
    tally: Tally,
    now: BlockNumber,
)
    requires
        v.inv(),
        v.agenda.len() <= u64::MAX,
        tally.valid(),
    ensures
        v.set_tally_v(index, tally, now).0.inv(),
{
    match v.ongoing(index) {
        Option::Some(st) => {
            lemma_inv_at(v, index as int);
            let st1 = ReferendumStatus { tally, ..st };
            lemma_arm_backed(v, st1, index, spec_sat_add(now, 1));
            let armed = v.ensure_alarm_at_v(st1, index, spec_sat_add(now, 1));
            assert(armed.0.agenda_evolved(v, index as int));
            assert(armed.0.storable(index as int, ReferendumInfo::Ongoing(armed.1)));
            lemma_store_inv(v, armed.0, index as int, ReferendumInfo::Ongoing(armed.1));
        },
        Option::None => {},
    }
}

/// Law: `cancel` preserves the invariant.
pub proof fn lemma_cancel_preserves_inv(v: StateView, index: ReferendumIndex, now: BlockNumber)
    requires
        v.inv(),
    ensures
        v.cancel_referendum_v(index, now).0.inv(),
{
    match v.ongoing(index) {
        Option::Some(st) => {
            lemma_inv_at(v, index as int);
            let v1 = match st.alarm {
                Option::Some(a) => v.cancel_v(a.address),
                Option::None => v,
            };
            let v2 = v1.note_one_fewer_deciding_v(st.track, now);
            let v3 = StateView {
                events: v2.events.push(crate::types::Event::Cancelled {
                    index,
                    tally: st.tally,
                }),
                ..v2
            };
            assert(v3.agenda_evolved(v, index as int));
            lemma_store_inv(v, v3, index as int, ReferendumInfo::Cancelled(
                now, Option::Some(st.submission_deposit), st.decision_deposit));
        },
        Option::None => {},
    }
}

/// Law: `kill` preserves the invariant.
pub proof fn lemma_kill_preserves_inv(v: StateView, index: ReferendumIndex, now: BlockNumber)
    requires
        v.inv(),
    ensures
        v.kill_referendum_v(index, now).0.inv(),
{
    match v.ongoing(index) {
        Option::Some(st) => {
            lemma_inv_at(v, index as int);
            let v1 = match st.alarm {
                Option::Some(a) => v.cancel_v(a.address),
                Option::None => v,
            };
            let v2 = v1.note_one_fewer_deciding_v(st.track, now);
            let v3 = StateView {
                events: v2.events.push(crate::types::Event::Killed {
                    index,
                    tally: st.tally,
                }),
                ..v2
            };
            let v4 = v3.slash_deposit_v(Option::Some(st.submission_deposit));
            let v5 = v4.slash_deposit_v(st.decision_deposit);
            let v6 = v5.clear_metadata_v(index);
            assert(v6.agenda_evolved(v, index as int));
            lemma_store_inv(v, v6, index as int, ReferendumInfo::Killed(now));
        },
        Option::None => {},
    }
}

/// Law: `one_fewer_deciding` preserves the invariant.
pub proof fn lemma_one_fewer_deciding_preserves_inv(
    v: StateView,
    track: TrackId,
    now: BlockNumber,
)
    requires
        v.inv(),
        v.agenda.len() <= u64::MAX,
    ensures
        v.one_fewer_deciding_v(track, now).0.inv(),
{
    let tp = v.track_pos(track);
    lemma_track_pos_in_range(v.tracks, track);
    if tp >= 0 {
        let info = v.tracks[tp].info;
        let q = v.queues[tp];
        lemma_next_walk(v, q);
        let walked = v.spec_next_for_deciding(q);
        match walked.1 {
            Option::Some((index, status)) => {
                lemma_inv_at(v, index as int);
                let begun = v.begin_deciding_v(status, index, now, info);
                lemma_arm_backed(begun.0, begun.1, index, begun.2);
                let armed = begun.0.ensure_alarm_at_v(begun.1, index, begun.2);
                let v3 = StateView {
                    referenda: armed.0.referenda.update(
                        index as int, ReferendumInfo::Ongoing(armed.1)),
                    ..armed.0
                };
                let v4 = StateView { queues: v3.queues.update(tp, walked.0), ..v3 };
                // the final state is also reachable as a store into the
                // queue-updated intermediate
                let mid = StateView { queues: armed.0.queues.update(tp, walked.0), ..armed.0 };
                assert(v4 == StateView {
                    referenda: mid.referenda.update(index as int,
                        ReferendumInfo::Ongoing(armed.1)),
                    ..mid
                });
                assert(forall|t: int| 0 <= t < mid.queues.len() ==> {
                    &&& queue_sorted(#[trigger] mid.queues[t])
                    &&& mid.queues[t].len() <= mid.max_queued
                });
                assert(mid.agenda_evolved(v, index as int));
                assert(begun.1.alarm == status.alarm);
                assert(mid.storable(index as int, ReferendumInfo::Ongoing(armed.1)));
                lemma_store_inv(v, mid, index as int, ReferendumInfo::Ongoing(armed.1));
            },
            Option::None => {
                let out = v.one_fewer_deciding_v(track, now);
                assert(forall|i: int| 0 <= i < out.0.referenda.len()
                    ==> #[trigger] out.0.record_ok(i) == v.record_ok(i));
            },
        }
    }
}

/// Walking a queue for the next ongoing entry leaves a sorted prefix of the
/// same bound, and what it finds really is stored and ongoing.
proof fn lemma_next_walk(v: StateView, q: Seq<QueueEntry>)
    requires
        queue_sorted(q),
        q.len() <= v.max_queued,
    ensures
        ({
            let walked = v.spec_next_for_deciding(q);
            &&& queue_sorted(walked.0)
            &&& walked.0.len() <= v.max_queued
            &&& match walked.1 {
                Option::Some(p) => v.ongoing(p.0) == Option::Some(p.1),
                Option::None => true,
            }
        }),
    decreases q.len(),
{
    if q.len() > 0 {
        let e = q.last();
        match v.ongoing(e.0) {
            Option::Some(_) => {
                lemma_take_sorted(q, q.len() - 1);
                assert(q.drop_last() =~= q.take(q.len() - 1));
            },
            Option::None => {
                assert(queue_sorted(q.drop_last())) by {
                    assert(forall|i: int| 0 <= i < q.len() - 1
                        ==> q.drop_last()[i] == q[i]);
                }
                lemma_next_walk(v, q.drop_last());
            },
        }
    }
}

/// Law: refunding the decision deposit preserves the invariant.
pub proof fn lemma_refund_decision_preserves_inv(v: StateView, index: ReferendumIndex)
    requires
        v.inv(),
    ensures
        v.refund_decision_deposit_v(index).0.inv(),
{
    let out = v.refund_decision_deposit_v(index);
    if out.1 is Ok {
        assert(forall|i: int| 0 <= i < out.0.referenda.len() && i != index
            ==> out.0.referenda[i] == v.referenda[i]);
        assert forall|i: int| 0 <= i < out.0.referenda.len()
            implies #[trigger] out.0.record_ok(i) by {
            if i != index {
                assert(v.record_ok(i));
            }
        }
        assert forall|i: int| 0 <= i < out.0.referenda.len()
            implies match #[trigger] out.0.referenda[i] {
                ReferendumInfo::Ongoing(st) => {
                    &&& spec_track_pos(out.0.tracks, st.track) >= 0
                    &&& st.tally.valid()
                },
                _ => true,
            } by {
            if i != index {
                assert(out.0.referenda[i] == v.referenda[i]);
            }
        }
        assert(out.0.sound());
    }
}

/// Law: refunding the submission deposit preserves the invariant.
pub proof fn lemma_refund_submission_preserves_inv(v: StateView, index: ReferendumIndex)
    requires
        v.inv(),
    ensures
        v.refund_submission_deposit_v(index).0.inv(),
{
    let out = v.refund_submission_deposit_v(index);
    if out.1 is Ok {
        assert(forall|i: int| 0 <= i < out.0.referenda.len() && i != index
            ==> out.0.referenda[i] == v.referenda[i]);
        assert forall|i: int| 0 <= i < out.0.referenda.len()
            implies #[trigger] out.0.record_ok(i) by {
            if i != index {
                assert(v.record_ok(i));
            }
        }
        assert forall|i: int| 0 <= i < out.0.referenda.len()
            implies match #[trigger] out.0.referenda[i] {
                ReferendumInfo::Ongoing(st) => {
                    &&& spec_track_pos(out.0.tracks, st.track) >= 0
                    &&& st.tally.valid()
                },
                _ => true,
            } by {
            if i != index {
                assert(out.0.referenda[i] == v.referenda[i]);
            }
        }
        assert(out.0.sound());
    }
}

/// Law: setting or clearing metadata preserves the invariant.
pub proof fn lemma_set_metadata_preserves_inv(
    v: StateView,
    who: AccountId,
    index: ReferendumIndex,
    maybe_hash: Option<PreimageHash>,
)
    requires
        v.inv(),
    ensures
        v.set_metadata_v(who, index, maybe_hash).0.inv(),
{
    let out = v.set_metadata_v(who, index, maybe_hash);
    if out.0 != v {
        lemma_inv_same_core(v, out.0);
    }
}

} // verus!