//! Round trips of the stored entities, cross-checked against the reference
//! SCALE implementation, and exact curve values.

use parity_scale_codec::{Compact, Encode};
use referenda::codec::{
    decode_info, decode_queue, decode_u32, decode_u64, encode_compact, encode_info,
    encode_queue, encode_u16, encode_u32, encode_u64,
};
use referenda::curve::{Curve, Perbill, BILL};
use referenda::hashing::{enactment_key, enactment_key_material};
use referenda::types::{
    Alarm, DecidingStatus, Deposit, DispatchTime, Proposal, ReferendumInfo, ReferendumStatus,
    Tally,
};

fn sample_status() -> ReferendumStatus {
    ReferendumStatus {
        track: 3,
        origin: 9,
        proposal: Proposal::Lookup { hash: 0xdead_beef, len: 77 },
        enactment: DispatchTime::After(11),
        submitted: 123_456,
        submission_deposit: Deposit { who: 1, amount: 10 },
        decision_deposit: Some(Deposit { who: 2, amount: 50 }),
        deciding: Some(DecidingStatus { since: 200, confirming: Some(260) }),
        tally: Tally {
            ayes: 5,
            support: Perbill { parts: 300_000_000 },
            approval: Perbill { parts: 600_000_000 },
        },
        in_queue: false,
        alarm: Some(Alarm { when: 260, address: 4 }),
    }
}

fn sample_records() -> Vec<ReferendumInfo> {
    vec![
        ReferendumInfo::Ongoing(sample_status()),
        ReferendumInfo::Approved(30, Some(Deposit { who: 1, amount: 1 }), None),
        ReferendumInfo::Rejected(110, None, Some(Deposit { who: 2, amount: 10 })),
        ReferendumInfo::Cancelled(5, Some(Deposit { who: 1, amount: 1 }), None),
        ReferendumInfo::TimedOut(200, Some(Deposit { who: 1, amount: 1 }), None),
        ReferendumInfo::Killed(50),
    ]
}

#[test]
fn record_round_trips() {
    for record in sample_records() {
        let mut bytes: Vec<u8> = Vec::new();
        encode_info(&mut bytes, &record);
        // trailing bytes are left untouched
        bytes.push(0xAB);
        let (back, used) = decode_info(&bytes, 0).expect("decodes");
        assert_eq!(back, record);
        assert_eq!(used, bytes.len() - 1);
    }
}

#[test]
fn queue_round_trips() {
    for queue in [vec![], vec![(7u32, 40u64)], vec![(1, 5), (3, 7), (2, 10)]] {
        let mut bytes: Vec<u8> = Vec::new();
        encode_queue(&mut bytes, &queue);
        let (back, used) = decode_queue(&bytes, 0).expect("decodes");
        assert_eq!(back, queue);
        assert_eq!(used, bytes.len());
    }
}

#[test]
fn scalars_round_trip_and_match_reference_scale() {
    for x in [0u32, 1, 255, 256, 65_536, u32::MAX] {
        let mut bytes: Vec<u8> = Vec::new();
        encode_u32(&mut bytes, x);
        assert_eq!(bytes, x.encode());
        assert_eq!(decode_u32(&bytes, 0), Some((x, 4)));
    }
    for x in [0u64, 1, 123_456_789_000, u64::MAX] {
        let mut bytes: Vec<u8> = Vec::new();
        encode_u64(&mut bytes, x);
        assert_eq!(bytes, x.encode());
        assert_eq!(decode_u64(&bytes, 0), Some((x, 8)));
    }
    for x in [0u16, 9, u16::MAX] {
        let mut bytes: Vec<u8> = Vec::new();
        encode_u16(&mut bytes, x);
        assert_eq!(bytes, x.encode());
    }
}

#[test]
fn compact_matches_reference_scale() {
    for n in [0u32, 1, 63, 64, 255, 16_383, 16_384, 1_073_741_823, 1_073_741_824, u32::MAX] {
        let mut bytes: Vec<u8> = Vec::new();
        encode_compact(&mut bytes, n);
        assert_eq!(bytes, Compact(n).encode(), "compact of {}", n);
    }
}

#[test]
fn queue_encoding_matches_reference_scale() {
    let queue: Vec<(u32, u64)> = vec![(1, 5), (3, 7), (2, 10)];
    let mut bytes: Vec<u8> = Vec::new();
    encode_queue(&mut bytes, &queue);
    assert_eq!(bytes, queue.encode());
}

#[test]
fn enactment_key_is_the_blake2_hash_of_the_encoded_triple() {
    for index in [0u32, 1, 77, u32::MAX] {
        let material = enactment_key_material(index);
        assert_eq!(material, (*b"assembly", "enactment", index).encode());
        assert_eq!(enactment_key(index), sp_io::hashing::blake2_256(&material));
    }
}

#[test]
fn perbill_arithmetic() {
    assert_eq!(Perbill::from_rational(1, 3).parts, 333_333_333);
    assert_eq!(Perbill::from_rational(2, 3).parts, 666_666_666);
    assert_eq!(Perbill::from_rational(5, 5).parts, BILL);
    assert_eq!(Perbill::from_rational(7, 5).parts, BILL);
    assert_eq!(Perbill::from_rational(0, 0).parts, BILL);
    assert_eq!(Perbill::from_percent(20).parts, 200_000_000);
    assert_eq!(Perbill::from_parts(12).parts, 12);
    // ceiling multiplication
    assert_eq!(Perbill::from_rational(1, 3).mul_ceil(100), 34);
    assert_eq!(Perbill::from_percent(50).mul_ceil(100), 50);
    assert_eq!(Perbill { parts: BILL }.mul_ceil(100), 100);
    assert_eq!(Perbill { parts: 0 }.mul_ceil(100), 0);
}

#[test]
fn linear_curve_thresholds_and_delays() {
    // approval threshold 1 - x/2
    let approval = Curve::LinearDecreasing {
        length: Perbill { parts: BILL },
        floor: Perbill { parts: 500_000_000 },
        ceil: Perbill { parts: BILL },
    };
    assert_eq!(approval.threshold(Perbill { parts: 0 }).parts, BILL);
    assert_eq!(approval.threshold(Perbill { parts: 500_000_000 }).parts, 750_000_000);
    assert_eq!(approval.threshold(Perbill { parts: BILL }).parts, 500_000_000);
    assert!(approval.passing(Perbill { parts: 500_000_000 }, Perbill { parts: 750_000_000 }));
    assert!(!approval.passing(Perbill { parts: 0 }, Perbill { parts: 999_999_999 }));
    assert_eq!(approval.delay(Perbill { parts: BILL }).parts, 0);
    assert_eq!(approval.delay(Perbill { parts: 750_000_000 }).parts, 500_000_000);
    assert_eq!(approval.delay(Perbill { parts: 499_999_999 }).parts, BILL);
    // the delay really is the first passing point
    let y = Perbill { parts: 750_000_000 };
    let d = approval.delay(y);
    assert!(approval.passing(d, y));
    assert!(!approval.passing(Perbill { parts: d.parts - 1 }, y));
}

#[test]
fn stepped_curve_thresholds_and_delays() {
    // starts at 80%, drops 20 points every tenth, never below 30%
    let curve = Curve::SteppedDecreasing {
        begin: Perbill { parts: 800_000_000 },
        end: Perbill { parts: 300_000_000 },
        step: Perbill { parts: 200_000_000 },
        period: Perbill { parts: 100_000_000 },
    };
    assert_eq!(curve.threshold(Perbill { parts: 0 }).parts, 800_000_000);
    assert_eq!(curve.threshold(Perbill { parts: 99_999_999 }).parts, 800_000_000);
    assert_eq!(curve.threshold(Perbill { parts: 100_000_000 }).parts, 600_000_000);
    assert_eq!(curve.threshold(Perbill { parts: 250_000_000 }).parts, 400_000_000);
    assert_eq!(curve.threshold(Perbill { parts: 900_000_000 }).parts, 300_000_000);
    assert_eq!(curve.delay(Perbill { parts: 800_000_000 }).parts, 0);
    assert_eq!(curve.delay(Perbill { parts: 600_000_000 }).parts, 100_000_000);
    assert_eq!(curve.delay(Perbill { parts: 599_999_999 }).parts, 200_000_000);
    assert_eq!(curve.delay(Perbill { parts: 299_999_999 }).parts, BILL);
}

#[test]
fn reciprocal_curve_thresholds_and_delays() {
    // factor 0.01, offset 0.01: starts at one, falls off hyperbolically
    let curve = Curve::Reciprocal {
        factor: 10_000_000,
        x_offset: 10_000_000,
        y_offset: Perbill { parts: 0 },
    };
    assert_eq!(curve.threshold(Perbill { parts: 0 }).parts, BILL);
    // 10^16 / (1e9 + 1e7) = 9900990 (rounded down)
    assert_eq!(curve.threshold(Perbill { parts: BILL }).parts, 9_900_990);
    // 10^16 / (9e7 + 1e7) = 1e8
    assert_eq!(curve.threshold(Perbill { parts: 90_000_000 }).parts, 100_000_000);
    assert_eq!(curve.delay(Perbill { parts: BILL }).parts, 0);
    // first x with threshold <= 1e8 is exactly 9e7 + 1? check the dual law
    let y = Perbill { parts: 100_000_000 };
    let d = curve.delay(y);
    assert!(curve.passing(d, y));
    assert!(!curve.passing(Perbill { parts: d.parts - 1 }, y));
    assert_eq!(curve.delay(Perbill { parts: 0 }).parts, BILL);
}
