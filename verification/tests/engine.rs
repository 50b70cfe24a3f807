//! End-to-end scenarios for the referenda engine.

use referenda::curve::{Curve, Perbill, BILL};
use referenda::pallet::{Config, Pallet, PollStatus};
use referenda::sched::ScheduledCall;
use referenda::types::{
    DispatchError, DispatchTime, Error, Event, Proposal, ReferendumInfo, ServiceBranch, Tally,
    Track, TrackInfo,
};

const ALICE: u64 = 1;
const BOB: u64 = 2;
const ROOT_TRACK: u16 = 0;
const ROOT_TRACK_ORIGIN: u16 = 7;

fn linear(floor_percent: u32, ceil_percent: u32) -> Curve {
    Curve::LinearDecreasing {
        length: Perbill { parts: BILL },
        floor: Perbill { parts: floor_percent * 10_000_000 },
        ceil: Perbill { parts: ceil_percent * 10_000_000 },
    }
}

fn test_track() -> Track {
    Track {
        id: ROOT_TRACK,
        origin: ROOT_TRACK_ORIGIN,
        info: TrackInfo {
            name: *b"track000",
            max_deciding: 1,
            decision_deposit: 10,
            prepare_period: 10,
            decision_period: 100,
            confirm_period: 20,
            min_enactment_period: 5,
            // approval threshold 1 - x/2, support threshold 1 - x
            min_approval: linear(50, 100),
            min_support: linear(0, 100),
        },
    }
}

/// A pallet with one track, submission deposit 1, queue bound 3, undeciding
/// timeout 200 and alarm interval 1, and two funded accounts.
fn test_pallet() -> Pallet {
    let mut p = Pallet::new(vec![test_track()], 1, 3, 200, 1);
    p.fund(ALICE, 100);
    p.fund(BOB, 100);
    p
}

fn full_tally(ayes: u64) -> Tally {
    Tally {
        ayes,
        support: Perbill { parts: BILL },
        approval: Perbill { parts: BILL },
    }
}

fn proposal() -> Proposal {
    Proposal::Inline(42)
}

#[test]
fn happy_path_approval() {
    let mut p = test_pallet();
    let index = p
        .submit(ALICE, ROOT_TRACK_ORIGIN, proposal(), DispatchTime::After(0), 0)
        .unwrap();
    assert_eq!(index, 0);
    assert_eq!(
        p.events[0],
        Event::Submitted { index: 0, track: ROOT_TRACK, proposal: proposal() }
    );
    // submission reserves 1 from alice and arms the undeciding-timeout alarm
    assert_eq!(p.ledger.balance(ALICE).reserved, 1);
    let st = p.ensure_ongoing(0).unwrap();
    assert_eq!(st.alarm.unwrap().when, 200);

    assert_eq!(p.place_decision_deposit(BOB, 0, 1), Ok(ServiceBranch::Preparing));
    assert_eq!(p.ledger.balance(BOB).reserved, 10);
    // still preparing: the alarm moved to the end of the preparation period
    let st = p.ensure_ongoing(0).unwrap();
    assert_eq!(st.alarm.unwrap().when, 10);

    assert!(p.set_tally(0, full_tally(10), 9));
    assert_eq!(p.nudge_referendum(0, 10), Ok(ServiceBranch::BeginDecidingPassing));
    let st = p.ensure_ongoing(0).unwrap();
    let deciding = st.deciding.unwrap();
    assert_eq!(deciding.since, 10);
    assert_eq!(deciding.confirming, Some(30));
    assert_eq!(st.alarm.unwrap().when, 30);
    assert!(p.events.contains(&Event::DecisionStarted {
        index: 0,
        track: ROOT_TRACK,
        proposal: proposal(),
        tally: full_tally(10),
    }));
    assert!(p.events.contains(&Event::ConfirmStarted { index: 0 }));

    assert_eq!(p.nudge_referendum(0, 30), Ok(ServiceBranch::Approved));
    match p.referendum_info(0).unwrap() {
        ReferendumInfo::Approved(end, sub, dec) => {
            assert_eq!(end, 30);
            assert_eq!(sub.unwrap().amount, 1);
            assert_eq!(dec.unwrap().amount, 10);
        },
        other => panic!("expected approval, found {:?}", other),
    }
    assert!(p.events.contains(&Event::Confirmed { index: 0, tally: full_tally(10) }));
    // enactment scheduled at max(evaluate(After(0), 30), 30 + 5) = 35
    let enacted = p
        .scheduler
        .agenda
        .iter()
        .flatten()
        .find(|item| matches!(item.call, ScheduledCall::Enact { .. }))
        .expect("enactment scheduled");
    assert_eq!(enacted.when, 35);
    assert_eq!(enacted.priority, 63);
    assert!(enacted.name.is_some());

    // both deposits refund exactly once
    assert_eq!(p.refund_decision_deposit(0), Ok(()));
    assert_eq!(p.refund_submission_deposit(0), Ok(()));
    assert_eq!(p.ledger.balance(ALICE).reserved, 0);
    assert_eq!(p.ledger.balance(ALICE).free, 100);
    assert_eq!(p.ledger.balance(BOB).reserved, 0);
    assert_eq!(p.ledger.balance(BOB).free, 100);
    assert_eq!(
        p.refund_decision_deposit(0),
        Err(DispatchError::Module(Error::NoDeposit))
    );
    assert_eq!(
        p.refund_submission_deposit(0),
        Err(DispatchError::Module(Error::NoDeposit))
    );
}

#[test]
fn rejection_after_full_decision_period() {
    let mut p = test_pallet();
    p.submit(ALICE, ROOT_TRACK_ORIGIN, proposal(), DispatchTime::After(0), 0)
        .unwrap();
    p.place_decision_deposit(BOB, 0, 1).unwrap();
    // tally stays at zero; deciding starts at the end of preparation
    assert_eq!(p.nudge_referendum(0, 10), Ok(ServiceBranch::BeginDecidingFailing));
    let st = p.ensure_ongoing(0).unwrap();
    assert_eq!(st.deciding.unwrap().confirming, None);
    // a zero tally can only pass at the very end: alarm at since + period
    assert_eq!(st.alarm.unwrap().when, 110);
    assert_eq!(p.nudge_referendum(0, 110), Ok(ServiceBranch::Rejected));
    match p.referendum_info(0).unwrap() {
        ReferendumInfo::Rejected(end, _, _) => assert_eq!(end, 110),
        other => panic!("expected rejection, found {:?}", other),
    }
    assert!(p.events.contains(&Event::Rejected { index: 0, tally: Tally::new() }));
}

#[test]
fn queue_preemption() {
    let mut p = test_pallet();
    p.submit(ALICE, ROOT_TRACK_ORIGIN, proposal(), DispatchTime::After(0), 0)
        .unwrap();
    p.submit(ALICE, ROOT_TRACK_ORIGIN, proposal(), DispatchTime::After(0), 0)
        .unwrap();
    p.place_decision_deposit(BOB, 0, 1).unwrap();
    p.place_decision_deposit(BOB, 1, 1).unwrap();
    // at preparation end, the first one admitted takes the only slot
    assert_eq!(p.nudge_referendum(0, 10), Ok(ServiceBranch::BeginDecidingFailing));
    assert_eq!(p.nudge_referendum(1, 10), Ok(ServiceBranch::Queued));
    assert!(p.ensure_ongoing(1).unwrap().in_queue);
    assert_eq!(p.queues[0].len(), 1);
    assert_eq!(p.deciding_count[0], 1);
    // the first keeps failing and is rejected at the period's end
    assert_eq!(p.nudge_referendum(0, 110), Ok(ServiceBranch::Rejected));
    // its conclusion scheduled a slot-refill nudge for the next block
    let refill = p
        .scheduler
        .agenda
        .iter()
        .flatten()
        .find(|item| matches!(item.call, ScheduledCall::OneFewerDeciding(_)))
        .expect("refill scheduled");
    assert_eq!(refill.when, 111);
    // the refill begins deciding the queued one, reusing the slot
    assert_eq!(p.one_fewer_deciding(ROOT_TRACK, 111), Ok(()));
    let st = p.ensure_ongoing(1).unwrap();
    assert_eq!(st.deciding.unwrap().since, 111);
    assert!(!st.in_queue);
    assert_eq!(p.queues[0].len(), 0);
    assert_eq!(p.deciding_count[0], 1);
}

#[test]
fn timeout_without_decision_deposit() {
    let mut p = test_pallet();
    p.submit(ALICE, ROOT_TRACK_ORIGIN, proposal(), DispatchTime::After(0), 0)
        .unwrap();
    assert_eq!(p.nudge_referendum(0, 200), Ok(ServiceBranch::TimedOut));
    match p.referendum_info(0).unwrap() {
        ReferendumInfo::TimedOut(end, sub, dec) => {
            assert_eq!(end, 200);
            assert!(sub.is_some());
            assert!(dec.is_none());
        },
        other => panic!("expected timeout, found {:?}", other),
    }
    assert_eq!(p.refund_submission_deposit(0), Ok(()));
    assert_eq!(p.ledger.balance(ALICE).free, 100);
    assert_eq!(
        p.refund_submission_deposit(0),
        Err(DispatchError::Module(Error::NoDeposit))
    );
}

#[test]
fn kill_slashes_both_deposits() {
    let mut p = test_pallet();
    p.submit(ALICE, ROOT_TRACK_ORIGIN, proposal(), DispatchTime::After(0), 0)
        .unwrap();
    p.place_decision_deposit(BOB, 0, 1).unwrap();
    p.note_preimage(900, 32);
    p.set_metadata(ALICE, 0, Some(900)).unwrap();
    assert_eq!(p.kill(0, 50), Ok(()));
    assert_eq!(p.referendum_info(0).unwrap(), ReferendumInfo::Killed(50));
    assert_eq!(p.ledger.total_slashed, 11);
    assert_eq!(p.ledger.balance(ALICE).reserved, 0);
    assert_eq!(p.ledger.balance(BOB).reserved, 0);
    assert!(p.events.contains(&Event::DepositSlashed { who: ALICE, amount: 1 }));
    assert!(p.events.contains(&Event::DepositSlashed { who: BOB, amount: 10 }));
    assert!(p.events.contains(&Event::MetadataCleared { index: 0, hash: 900 }));
    assert_eq!(
        p.refund_submission_deposit(0),
        Err(DispatchError::Module(Error::BadStatus))
    );
}

#[test]
fn queue_reordering_on_vote_change() {
    let mut p = test_pallet();
    p.fund(3, 1000);
    // occupy the single deciding slot
    p.submit(ALICE, ROOT_TRACK_ORIGIN, proposal(), DispatchTime::After(0), 0)
        .unwrap();
    p.place_decision_deposit(BOB, 0, 1).unwrap();
    p.nudge_referendum(0, 10).unwrap();
    // three more pile up in the queue with ayes 5, 10 and 7
    for (index, ayes) in [(1u32, 5u64), (2, 10), (3, 7)] {
        p.submit(ALICE, ROOT_TRACK_ORIGIN, proposal(), DispatchTime::After(0), 0)
            .unwrap();
        p.place_decision_deposit(3, index, 1).unwrap();
        p.set_tally(index, full_tally(ayes), 9);
        p.nudge_referendum(index, 11).unwrap();
    }
    assert_eq!(p.queues[0], vec![(1, 5), (3, 7), (2, 10)]);
    // a vote bump slides the first entry to the top
    p.set_tally(1, full_tally(12), 12);
    p.nudge_referendum(1, 13).unwrap();
    assert_eq!(p.queues[0], vec![(3, 7), (2, 10), (1, 12)]);
    // when the slot frees up, the highest-ayes entry is decided next
    p.cancel(0, 20).unwrap();
    assert_eq!(p.one_fewer_deciding(ROOT_TRACK, 21), Ok(()));
    assert!(p.ensure_ongoing(1).unwrap().deciding.is_some());
    assert_eq!(p.queues[0], vec![(3, 7), (2, 10)]);
}

#[test]
fn full_queue_admits_only_higher_ayes() {
    let mut p = Pallet::new(vec![test_track()], 1, 1, 200, 1);
    p.fund(ALICE, 1000);
    // slot taken by the first, queue bound is one
    for index in 0u32..4 {
        p.submit(ALICE, ROOT_TRACK_ORIGIN, proposal(), DispatchTime::After(0), 0)
            .unwrap();
        p.place_decision_deposit(ALICE, index, 1).unwrap();
    }
    p.nudge_referendum(0, 10).unwrap();
    p.set_tally(1, full_tally(5), 10);
    p.nudge_referendum(1, 11).unwrap();
    assert_eq!(p.queues[0], vec![(1, 5)]);
    // lower ayes are refused while the queue is full
    p.set_tally(2, full_tally(3), 11);
    p.nudge_referendum(2, 12).unwrap();
    assert_eq!(p.queues[0], vec![(1, 5)]);
    // higher ayes evict the minimum
    p.set_tally(3, full_tally(9), 12);
    p.nudge_referendum(3, 13).unwrap();
    assert_eq!(p.queues[0], vec![(3, 9)]);
}

#[test]
fn alarms_are_quantized_to_the_interval() {
    let mut p = Pallet::new(vec![test_track()], 1, 3, 200, 16);
    p.fund(ALICE, 100);
    p.submit(ALICE, ROOT_TRACK_ORIGIN, proposal(), DispatchTime::After(0), 0)
        .unwrap();
    // 200 rounds up to the next multiple of 16
    assert_eq!(p.ensure_ongoing(0).unwrap().alarm.unwrap().when, 208);
}

#[test]
fn rearming_the_same_alarm_changes_nothing() {
    let mut p = test_pallet();
    p.submit(ALICE, ROOT_TRACK_ORIGIN, proposal(), DispatchTime::After(0), 0)
        .unwrap();
    p.set_tally(0, full_tally(1), 5);
    let armed = p.ensure_ongoing(0).unwrap().alarm;
    let agenda_len = p.scheduler.agenda.len();
    // the same wish for the same block is a no-op the second time
    p.set_tally(0, full_tally(1), 5);
    assert_eq!(p.ensure_ongoing(0).unwrap().alarm, armed);
    assert_eq!(p.scheduler.agenda.len(), agenda_len);
}

#[test]
fn zero_prepare_period_begins_deciding_at_once() {
    let mut track = test_track();
    track.info.prepare_period = 0;
    let mut p = Pallet::new(vec![track], 1, 3, 200, 1);
    p.fund(ALICE, 100);
    p.submit(ALICE, ROOT_TRACK_ORIGIN, proposal(), DispatchTime::After(0), 0)
        .unwrap();
    assert_eq!(
        p.place_decision_deposit(ALICE, 0, 0),
        Ok(ServiceBranch::BeginDecidingFailing)
    );
    assert_eq!(p.ensure_ongoing(0).unwrap().deciding.unwrap().since, 0);
}

#[test]
fn enactment_at_zero_is_floored_by_the_minimum_gap() {
    let mut p = test_pallet();
    p.submit(ALICE, ROOT_TRACK_ORIGIN, proposal(), DispatchTime::At(0), 0)
        .unwrap();
    p.place_decision_deposit(BOB, 0, 1).unwrap();
    p.set_tally(0, full_tally(10), 9);
    p.nudge_referendum(0, 10).unwrap();
    p.nudge_referendum(0, 30).unwrap();
    let enacted = p
        .scheduler
        .agenda
        .iter()
        .flatten()
        .find(|item| matches!(item.call, ScheduledCall::Enact { .. }))
        .expect("enactment scheduled");
    // At(0) lies in the past: the floor now + max(min_enactment_period, 1) wins
    assert_eq!(enacted.when, 35);
}

#[test]
fn confirmation_aborts_when_support_collapses() {
    let mut p = test_pallet();
    p.submit(ALICE, ROOT_TRACK_ORIGIN, proposal(), DispatchTime::After(0), 0)
        .unwrap();
    p.place_decision_deposit(BOB, 0, 1).unwrap();
    p.set_tally(0, full_tally(10), 9);
    p.nudge_referendum(0, 10).unwrap();
    assert!(p.ensure_ongoing(0).unwrap().deciding.unwrap().confirming.is_some());
    // votes collapse before the confirmation period ends
    p.set_tally(0, Tally::new(), 15);
    assert_eq!(p.nudge_referendum(0, 16), Ok(ServiceBranch::EndConfirming));
    assert_eq!(p.ensure_ongoing(0).unwrap().deciding.unwrap().confirming, None);
    assert!(p.events.contains(&Event::ConfirmAborted { index: 0 }));
}

#[test]
fn submit_errors() {
    let mut p = test_pallet();
    assert_eq!(
        p.submit(ALICE, 99, proposal(), DispatchTime::After(0), 0),
        Err(DispatchError::Module(Error::NoTrack))
    );
    p.note_preimage(700, 64);
    assert_eq!(
        p.submit(
            ALICE,
            ROOT_TRACK_ORIGIN,
            Proposal::Lookup { hash: 700, len: 63 },
            DispatchTime::After(0),
            0,
        ),
        Err(DispatchError::Module(Error::PreimageStoredWithDifferentLength))
    );
    // the right length is accepted
    assert!(p
        .submit(
            ALICE,
            ROOT_TRACK_ORIGIN,
            Proposal::Lookup { hash: 700, len: 64 },
            DispatchTime::After(0),
            0,
        )
        .is_ok());
    // a pauper cannot place the submission deposit
    p.fund(55, 0);
    assert_eq!(
        p.submit(55, ROOT_TRACK_ORIGIN, proposal(), DispatchTime::After(0), 0),
        Err(DispatchError::FundsUnavailable)
    );
}

#[test]
fn deposit_errors() {
    let mut p = test_pallet();
    assert_eq!(
        p.place_decision_deposit(BOB, 0, 0),
        Err(DispatchError::Module(Error::NotOngoing))
    );
    p.submit(ALICE, ROOT_TRACK_ORIGIN, proposal(), DispatchTime::After(0), 0)
        .unwrap();
    assert_eq!(
        p.refund_decision_deposit(0),
        Err(DispatchError::Module(Error::Unfinished))
    );
    assert_eq!(
        p.refund_decision_deposit(9),
        Err(DispatchError::Module(Error::BadReferendum))
    );
    p.place_decision_deposit(BOB, 0, 1).unwrap();
    assert_eq!(
        p.place_decision_deposit(BOB, 0, 2),
        Err(DispatchError::Module(Error::HasDeposit))
    );
    assert_eq!(
        p.one_fewer_deciding(9, 2),
        Err(DispatchError::Module(Error::BadTrack))
    );
    assert_eq!(
        p.nudge_referendum(7, 2),
        Err(DispatchError::Module(Error::NotOngoing))
    );
}

#[test]
fn metadata_rules() {
    let mut p = test_pallet();
    p.submit(ALICE, ROOT_TRACK_ORIGIN, proposal(), DispatchTime::After(0), 0)
        .unwrap();
    assert_eq!(
        p.set_metadata(ALICE, 0, Some(900)),
        Err(DispatchError::Module(Error::PreimageNotExist))
    );
    p.note_preimage(900, 32);
    assert_eq!(
        p.set_metadata(BOB, 0, Some(900)),
        Err(DispatchError::Module(Error::NoPermission))
    );
    assert_eq!(p.set_metadata(ALICE, 0, Some(900)), Ok(()));
    assert!(p.events.contains(&Event::MetadataSet { index: 0, hash: 900 }));
    // only the submitter may clear while ongoing
    assert_eq!(
        p.set_metadata(BOB, 0, None),
        Err(DispatchError::Module(Error::NoPermission))
    );
    assert_eq!(p.set_metadata(ALICE, 0, None), Ok(()));
    assert!(p.events.contains(&Event::MetadataCleared { index: 0, hash: 900 }));
    // clearing a missing index quietly succeeds
    assert_eq!(p.set_metadata(BOB, 77, None), Ok(()));
    // anyone may clear after conclusion
    p.note_preimage(901, 8);
    p.set_metadata(ALICE, 0, Some(901)).unwrap();
    p.cancel(0, 5).unwrap();
    assert_eq!(p.set_metadata(BOB, 0, None), Ok(()));
}

#[test]
fn cancel_keeps_deposits_for_refund() {
    let mut p = test_pallet();
    p.submit(ALICE, ROOT_TRACK_ORIGIN, proposal(), DispatchTime::After(0), 0)
        .unwrap();
    p.place_decision_deposit(BOB, 0, 1).unwrap();
    assert_eq!(p.cancel(0, 5), Ok(()));
    match p.referendum_info(0).unwrap() {
        ReferendumInfo::Cancelled(end, sub, dec) => {
            assert_eq!(end, 5);
            assert!(sub.is_some());
            assert!(dec.is_some());
        },
        other => panic!("expected cancellation, found {:?}", other),
    }
    assert_eq!(p.refund_decision_deposit(0), Ok(()));
    assert_eq!(p.refund_submission_deposit(0), Ok(()));
    assert_eq!(p.cancel(0, 6), Err(DispatchError::Module(Error::NotOngoing)));
}

#[test]
fn zero_confirm_period_approves_at_the_next_service() {
    let mut track = test_track();
    track.info.confirm_period = 0;
    let mut p = Pallet::new(vec![track], 1, 3, 200, 1);
    p.fund(ALICE, 100);
    p.submit(ALICE, ROOT_TRACK_ORIGIN, proposal(), DispatchTime::After(0), 0)
        .unwrap();
    p.place_decision_deposit(ALICE, 0, 1).unwrap();
    p.set_tally(0, full_tally(10), 9);
    assert_eq!(p.nudge_referendum(0, 10), Ok(ServiceBranch::BeginDecidingPassing));
    // confirmation ends the moment it starts; the alarm still waits for the
    // next block
    let st = p.ensure_ongoing(0).unwrap();
    assert_eq!(st.deciding.unwrap().confirming, Some(10));
    assert_eq!(st.alarm.unwrap().when, 11);
    assert_eq!(p.nudge_referendum(0, 11), Ok(ServiceBranch::Approved));
}

#[test]
fn saturated_decision_period_leaves_a_failing_referendum_unalarmed() {
    let mut track = test_track();
    track.info.decision_period = u64::MAX;
    let mut p = Pallet::new(vec![track], 1, 3, 200, 1);
    p.fund(ALICE, 100);
    p.submit(ALICE, ROOT_TRACK_ORIGIN, proposal(), DispatchTime::After(0), 0)
        .unwrap();
    p.place_decision_deposit(ALICE, 0, 1).unwrap();
    assert_eq!(p.nudge_referendum(0, 10), Ok(ServiceBranch::BeginDecidingFailing));
    // a zero tally first passes at the end of the period, which saturates
    // beyond every block: no alarm is held, a vote will re-arm one
    let st = p.ensure_ongoing(0).unwrap();
    assert!(st.deciding.is_some());
    assert_eq!(st.alarm, None);
    p.set_tally(0, full_tally(1), 20);
    assert_eq!(p.ensure_ongoing(0).unwrap().alarm.unwrap().when, 21);
}

#[test]
fn stale_queue_entries_are_skipped_when_refilling() {
    let mut p = test_pallet();
    p.fund(3, 1000);
    // slot taken; two more referenda wait in the queue
    for index in 0u32..3 {
        p.submit(ALICE, ROOT_TRACK_ORIGIN, proposal(), DispatchTime::After(0), 0)
            .unwrap();
        p.place_decision_deposit(3, index, 1).unwrap();
    }
    p.nudge_referendum(0, 10).unwrap();
    p.set_tally(1, full_tally(5), 10);
    p.nudge_referendum(1, 11).unwrap();
    p.set_tally(2, full_tally(9), 11);
    p.nudge_referendum(2, 12).unwrap();
    assert_eq!(p.queues[0], vec![(1, 5), (2, 9)]);
    // the top queued entry goes stale: its referendum is cancelled, but the
    // entry stays until pop time
    p.cancel(2, 13).unwrap();
    assert_eq!(p.queues[0], vec![(1, 5), (2, 9)]);
    // the slot itself frees up; the refill pops the stale entry, discards
    // it, and decides the live one below it
    p.cancel(0, 14).unwrap();
    assert_eq!(p.one_fewer_deciding(ROOT_TRACK, 15), Ok(()));
    assert!(p.ensure_ongoing(1).unwrap().deciding.is_some());
    assert_eq!(p.queues[0].len(), 0);
}

#[test]
fn marked_queued_referendum_reenters_on_enough_ayes() {
    let mut p = Pallet::new(vec![test_track()], 1, 1, 200, 1);
    p.fund(ALICE, 1000);
    for index in 0u32..3 {
        p.submit(ALICE, ROOT_TRACK_ORIGIN, proposal(), DispatchTime::After(0), 0)
            .unwrap();
        p.place_decision_deposit(ALICE, index, 1).unwrap();
    }
    p.nudge_referendum(0, 10).unwrap();
    p.set_tally(1, full_tally(5), 10);
    p.nudge_referendum(1, 11).unwrap();
    // refused by the full queue, but still marked as queued
    p.nudge_referendum(2, 12).unwrap();
    assert!(p.ensure_ongoing(2).unwrap().in_queue);
    assert_eq!(p.queues[0], vec![(1, 5)]);
    // with fewer ayes than the minimum it stays out
    p.set_tally(2, full_tally(3), 12);
    assert_eq!(p.nudge_referendum(2, 13), Ok(ServiceBranch::NotQueued));
    assert_eq!(p.queues[0], vec![(1, 5)]);
    // with more, it re-enters and evicts the minimum
    p.set_tally(2, full_tally(10), 13);
    assert_eq!(p.nudge_referendum(2, 14), Ok(ServiceBranch::RequeuedInsertion));
    assert_eq!(p.queues[0], vec![(2, 10)]);
}

#[test]
fn replaying_the_same_calls_gives_identical_state() {
    let run = || {
        let mut p = test_pallet();
        p.submit(ALICE, ROOT_TRACK_ORIGIN, proposal(), DispatchTime::After(0), 0)
            .unwrap();
        p.place_decision_deposit(BOB, 0, 1).unwrap();
        p.set_tally(0, full_tally(4), 9);
        p.nudge_referendum(0, 10).unwrap();
        p.nudge_referendum(0, 30).unwrap();
        p
    };
    let a = run();
    let b = run();
    assert_eq!(a.events, b.events);
    assert_eq!(a.referenda, b.referenda);
    assert_eq!(a.deciding_count, b.deciding_count);
    assert_eq!(a.queues, b.queues);
    assert_eq!(a.ledger.accounts, b.ledger.accounts);
}

#[test]
fn bundled_configuration_builds_the_same_engine() {
    let mut p = Pallet::with_config(Config {
        tracks: vec![test_track()],
        submission_deposit: 1,
        max_queued: 3,
        undeciding_timeout: 200,
        alarm_interval: 1,
    });
    p.fund(ALICE, 100);
    assert_eq!(
        p.submit(ALICE, ROOT_TRACK_ORIGIN, proposal(), DispatchTime::After(0), 0),
        Ok(0)
    );
    assert_eq!(p.tracks().len(), 1);
    assert_eq!(p.referendum_count(), 1);
}

#[test]
fn polling_view() {
    let mut p = test_pallet();
    assert_eq!(p.classes(), vec![ROOT_TRACK]);
    assert_eq!(p.poll_status(0), PollStatus::Absent);
    p.submit(ALICE, ROOT_TRACK_ORIGIN, proposal(), DispatchTime::After(0), 0)
        .unwrap();
    assert_eq!(p.poll_status(0), PollStatus::Ongoing(Tally::new(), ROOT_TRACK));
    assert_eq!(p.as_ongoing(0), Some((Tally::new(), ROOT_TRACK)));
    assert!(p.is_referendum_passing(0, 0).unwrap() == false);
    p.set_tally(0, full_tally(10), 0);
    assert!(p.is_referendum_passing(0, 0).unwrap());
    assert_eq!(
        p.is_referendum_passing(3, 0),
        Err(DispatchError::Module(Error::BadReferendum))
    );
    p.place_decision_deposit(BOB, 0, 1).unwrap();
    p.nudge_referendum(0, 10).unwrap();
    p.nudge_referendum(0, 30).unwrap();
    assert_eq!(p.poll_status(0), PollStatus::Completed(30, true));
}
