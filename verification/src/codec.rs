//! Binary encoding of the engine's stored entities.
//!
//! The wire format is SCALE: little-endian fixed-width integers, a compact
//! length prefix for sequences, one tag byte for enums and options, and
//! plain concatenation for structs.  Encoding and decoding are proved to be
//! mutual inverses for every stored entity: the referendum records, the
//! track queues, and the scalar counters and hashes.

use vstd::prelude::*;
use crate::curve::Perbill;
use crate::queue::QueueEntry;
use crate::types::{Alarm, DecidingStatus, Deposit, DispatchTime, Proposal, ReferendumInfo,
    ReferendumStatus, Tally};

verus! {

/// The two little-endian bytes of a `u16`.
pub open spec fn spec_u16_le(x: u16) -> Seq<u8> {
    seq![(x % 256) as u8, ((x / 256) % 256) as u8]
}

/// The four little-endian bytes of a `u32`.
pub open spec fn spec_u32_le(x: u32) -> Seq<u8> {
    seq![
        (x % 256) as u8,
        ((x / 256) % 256) as u8,
        ((x / 65536) % 256) as u8,
        ((x / 16777216) % 256) as u8,
    ]
}

/// The eight little-endian bytes of a `u64`.
pub open spec fn spec_u64_le(x: u64) -> Seq<u8> {
    seq![
        (x % 256) as u8,
        ((x / 256) % 256) as u8,
        ((x / 65536) % 256) as u8,
        ((x / 16777216) % 256) as u8,
        ((x / 4294967296) % 256) as u8,
        ((x / 1099511627776) % 256) as u8,
        ((x / 281474976710656) % 256) as u8,
        ((x / 72057594037927936) % 256) as u8,
    ]
}

/// Read a `u16` from the front of `b`.
pub open spec fn spec_dec_u16(b: Seq<u8>) -> Option<(u16, Seq<u8>)> {
    if b.len() >= 2 {
        Option::Some(((b[0] + 256 * b[1]) as u16, b.skip(2)))
    } else {
        Option::None
    }
}

/// Read a `u32` from the front of `b`.
pub open spec fn spec_dec_u32(b: Seq<u8>) -> Option<(u32, Seq<u8>)> {
    if b.len() >= 4 {
        Option::Some((
            (b[0] + 256 * b[1] + 65536 * b[2] + 16777216 * b[3]) as u32,
            b.skip(4),
        ))
    } else {
        Option::None
    }
}

/// Read a `u64` from the front of `b`.
pub open spec fn spec_dec_u64(b: Seq<u8>) -> Option<(u64, Seq<u8>)> {
    if b.len() >= 8 {
        Option::Some((
            (b[0] + 256 * b[1] + 65536 * b[2] + 16777216 * b[3]
                + 4294967296 * b[4] + 1099511627776 * b[5]
                + 281474976710656 * b[6] + 72057594037927936 * b[7]) as u64,
            b.skip(8),
        ))
    } else {
        Option::None
    }
}

/// Reading back two little-endian bytes recovers the `u16`.
pub proof fn lemma_u16_round_trip(x: u16, rest: Seq<u8>)
    ensures
        spec_dec_u16(spec_u16_le(x) + rest) == Option::Some((x, rest)),
{
    let b = spec_u16_le(x) + rest;
    vstd::arithmetic::div_mod::lemma_fundamental_div_mod(x as int, 256);
    vstd::arithmetic::div_mod::lemma_div_is_ordered(x as int, u16::MAX as int, 256);
    vstd::arithmetic::div_mod::lemma_small_mod((x as int / 256) as nat, 256);
    assert(b.skip(2) =~= rest);
}

/// Reading back four little-endian bytes recovers the `u32`.
pub proof fn lemma_u32_round_trip(x: u32, rest: Seq<u8>)
    ensures
        spec_dec_u32(spec_u32_le(x) + rest) == Option::Some((x, rest)),
{
    let b = spec_u32_le(x) + rest;
    let xi = x as int;
    vstd::arithmetic::div_mod::lemma_fundamental_div_mod(xi, 256);
    vstd::arithmetic::div_mod::lemma_div_denominator(xi, 256, 256);
    vstd::arithmetic::div_mod::lemma_fundamental_div_mod(xi / 256, 256);
    vstd::arithmetic::div_mod::lemma_div_denominator(xi, 65536, 256);
    vstd::arithmetic::div_mod::lemma_fundamental_div_mod(xi / 65536, 256);
    vstd::arithmetic::div_mod::lemma_div_is_ordered(xi, u32::MAX as int, 16777216);
    vstd::arithmetic::div_mod::lemma_small_mod((xi / 16777216) as nat, 256);
    assert(b.skip(4) =~= rest);
}

/// Reading back eight little-endian bytes recovers the `u64`.
pub proof fn lemma_u64_round_trip(x: u64, rest: Seq<u8>)
    ensures
        spec_dec_u64(spec_u64_le(x) + rest) == Option::Some((x, rest)),
{
    let b = spec_u64_le(x) + rest;
    let xi = x as int;
    vstd::arithmetic::div_mod::lemma_fundamental_div_mod(xi, 256);
    vstd::arithmetic::div_mod::lemma_div_denominator(xi, 256, 256);
    vstd::arithmetic::div_mod::lemma_fundamental_div_mod(xi / 256, 256);
    vstd::arithmetic::div_mod::lemma_div_denominator(xi, 65536, 256);
    vstd::arithmetic::div_mod::lemma_fundamental_div_mod(xi / 65536, 256);
    vstd::arithmetic::div_mod::lemma_div_denominator(xi, 16777216, 256);
    vstd::arithmetic::div_mod::lemma_fundamental_div_mod(xi / 16777216, 256);
    vstd::arithmetic::div_mod::lemma_div_denominator(xi, 4294967296, 256);
    vstd::arithmetic::div_mod::lemma_fundamental_div_mod(xi / 4294967296, 256);
    vstd::arithmetic::div_mod::lemma_div_denominator(xi, 1099511627776, 256);
    vstd::arithmetic::div_mod::lemma_fundamental_div_mod(xi / 1099511627776, 256);
    vstd::arithmetic::div_mod::lemma_div_denominator(xi, 281474976710656, 256);
    vstd::arithmetic::div_mod::lemma_fundamental_div_mod(xi / 281474976710656, 256);
    vstd::arithmetic::div_mod::lemma_div_is_ordered(
        xi, u64::MAX as int, 72057594037927936);
    vstd::arithmetic::div_mod::lemma_small_mod((xi / 72057594037927936) as nat, 256);
    assert(b.skip(8) =~= rest);
}

/// Append the two little-endian bytes of a `u16`.
pub fn encode_u16(out: &mut Vec<u8>, x: u16)
    ensures
        final(out)@ == old(out)@ + spec_u16_le(x),
{
    out.push((x % 256) as u8);
    out.push(((x / 256) % 256) as u8);
    proof {
        assert(out@ =~= old(out)@ + spec_u16_le(x));
    }
}

/// Append the four little-endian bytes of a `u32`.
pub fn encode_u32(out: &mut Vec<u8>, x: u32)
    ensures
        final(out)@ == old(out)@ + spec_u32_le(x),
{
    out.push((x % 256) as u8);
    out.push(((x / 256) % 256) as u8);
    out.push(((x / 65536) % 256) as u8);
    out.push(((x / 16777216) % 256) as u8);
    proof {
        assert(out@ =~= old(out)@ + spec_u32_le(x));
    }
}

/// Append the eight little-endian bytes of a `u64`.
pub fn encode_u64(out: &mut Vec<u8>, x: u64)
    ensures
        final(out)@ == old(out)@ + spec_u64_le(x),
{
    out.push((x % 256) as u8);
    out.push(((x / 256) % 256) as u8);
    out.push(((x / 65536) % 256) as u8);
    out.push(((x / 16777216) % 256) as u8);
    out.push(((x / 4294967296) % 256) as u8);
    out.push(((x / 1099511627776) % 256) as u8);
    out.push(((x / 281474976710656) % 256) as u8);
    out.push(((x / 72057594037927936) % 256) as u8);
    proof {
        assert(out@ =~= old(out)@ + spec_u64_le(x));
    }
}

/// The compact (variable-width) encoding of a `u32`: two mode bits and the
/// value, in one, two, four or five bytes.
pub open spec fn spec_enc_compact(n: u32) -> Seq<u8> {
    if n < 64 {
        seq![(n * 4) as u8]
    } else if n < 16384 {
        spec_u16_le((n * 4 + 1) as u16)
    } else if n < 1073741824 {
        spec_u32_le((n * 4 + 2) as u32)
    } else {
        seq![3u8] + spec_u32_le(n)
    }
}

/// Read a compact `u32` from the front of `b`.
pub open spec fn spec_dec_compact(b: Seq<u8>) -> Option<(u32, Seq<u8>)> {
    if b.len() == 0 {
        Option::None
    } else {
        let b0 = b[0];
        if b0 % 4 == 0 {
            Option::Some(((b0 / 4) as u32, b.drop_first()))
        } else if b0 % 4 == 1 {
            match spec_dec_u16(b) {
                Option::Some(p) => Option::Some(((p.0 / 4) as u32, p.1)),
                Option::None => Option::None,
            }
        } else if b0 % 4 == 2 {
            match spec_dec_u32(b) {
                Option::Some(p) => Option::Some(((p.0 / 4) as u32, p.1)),
                Option::None => Option::None,
            }
        } else if b0 / 4 == 0 {
            match spec_dec_u32(b.drop_first()) {
                Option::Some(p) => Option::Some((p.0, p.1)),
                Option::None => Option::None,
            }
        } else {
            Option::None
        }
    }
}

/// Reading back a compact encoding recovers the `u32`.
pub proof fn lemma_compact_round_trip(n: u32, rest: Seq<u8>)
    ensures
        spec_dec_compact(spec_enc_compact(n) + rest) == Option::Some((n, rest)),
{
    let b = spec_enc_compact(n) + rest;
    if n < 64 {
        vstd::arithmetic::div_mod::lemma_fundamental_div_mod_converse(
            n as int * 4, 4, n as int, 0);
        assert(b[0] as int == n as int * 4);
        assert(b.drop_first() =~= rest);
    } else if n < 16384 {
        let v = (n * 4 + 1) as u16;
        lemma_u16_round_trip(v, rest);
        // the first byte keeps the mode bits of the whole
        vstd::arithmetic::div_mod::lemma_fundamental_div_mod(v as int, 256);
        let hi = v as int / 256;
        vstd::arithmetic::div_mod::lemma_fundamental_div_mod_converse(
            v as int, 4, n as int, 1);
        assert(b[0] as int == v as int - 256 * hi);
        assert(v as int == 4 * n + 1);
        assert(b[0] as int == 4 * (n - 64 * hi) + 1);
        vstd::arithmetic::div_mod::lemma_fundamental_div_mod_converse(
            b[0] as int, 4, n as int - 64 * hi, 1);
    } else if n < 1073741824 {
        let v = (n * 4 + 2) as u32;
        lemma_u32_round_trip(v, rest);
        vstd::arithmetic::div_mod::lemma_fundamental_div_mod(v as int, 256);
        let hi = v as int / 256;
        vstd::arithmetic::div_mod::lemma_fundamental_div_mod_converse(
            v as int, 4, n as int, 2);
        assert(b[0] as int == v as int - 256 * hi);
        assert(b[0] as int == 4 * (n - 64 * hi) + 2);
        vstd::arithmetic::div_mod::lemma_fundamental_div_mod_converse(
            b[0] as int, 4, n as int - 64 * hi, 2);
    } else {
        assert(b[0] == 3u8);
        assert(b.drop_first() =~= spec_u32_le(n) + rest);
        lemma_u32_round_trip(n, rest);
    }
}

/// One byte for a flag.
pub open spec fn spec_enc_bool(x: bool) -> Seq<u8> {
    seq![if x { 1u8 } else { 0u8 }]
}

/// Read a flag byte.
pub open spec fn spec_dec_bool(b: Seq<u8>) -> Option<(bool, Seq<u8>)> {
    if b.len() >= 1 {
        if b[0] == 0 {
            Option::Some((false, b.drop_first()))
        } else if b[0] == 1 {
            Option::Some((true, b.drop_first()))
        } else {
            Option::None
        }
    } else {
        Option::None
    }
}

/// A fraction is its raw parts.
pub open spec fn spec_enc_perbill(x: Perbill) -> Seq<u8> {
    spec_u32_le(x.parts)
}

/// Read a fraction.
pub open spec fn spec_dec_perbill(b: Seq<u8>) -> Option<(Perbill, Seq<u8>)> {
    match spec_dec_u32(b) {
        Option::Some(p) => Option::Some((Perbill { parts: p.0 }, p.1)),
        Option::None => Option::None,
    }
}

/// A deposit is holder then amount.
pub open spec fn spec_enc_deposit(d: Deposit) -> Seq<u8> {
    spec_u64_le(d.who) + spec_u64_le(d.amount)
}

/// Read a deposit.
pub open spec fn spec_dec_deposit(b: Seq<u8>) -> Option<(Deposit, Seq<u8>)> {
    match spec_dec_u64(b) {
        Option::Some(p) => match spec_dec_u64(p.1) {
            Option::Some(q) => Option::Some((Deposit { who: p.0, amount: q.0 }, q.1)),
            Option::None => Option::None,
        },
        Option::None => Option::None,
    }
}

/// An optional deposit: a presence byte, then the deposit.
pub open spec fn spec_enc_opt_deposit(d: Option<Deposit>) -> Seq<u8> {
    match d {
        Option::None => seq![0u8],
        Option::Some(dep) => seq![1u8] + spec_enc_deposit(dep),
    }
}

/// Read an optional deposit.
pub open spec fn spec_dec_opt_deposit(b: Seq<u8>) -> Option<(Option<Deposit>, Seq<u8>)> {
    if b.len() >= 1 {
        if b[0] == 0 {
            Option::Some((Option::None, b.drop_first()))
        } else if b[0] == 1 {
            match spec_dec_deposit(b.drop_first()) {
                Option::Some(p) => Option::Some((Option::Some(p.0), p.1)),
                Option::None => Option::None,
            }
        } else {
            Option::None
        }
    } else {
        Option::None
    }
}

/// An optional block number: a presence byte, then the block.
pub open spec fn spec_enc_opt_u64(x: Option<u64>) -> Seq<u8> {
    match x {
        Option::None => seq![0u8],
        Option::Some(v) => seq![1u8] + spec_u64_le(v),
    }
}

/// Read an optional block number.
pub open spec fn spec_dec_opt_u64(b: Seq<u8>) -> Option<(Option<u64>, Seq<u8>)> {
    if b.len() >= 1 {
        if b[0] == 0 {
            Option::Some((Option::None, b.drop_first()))
        } else if b[0] == 1 {
            match spec_dec_u64(b.drop_first()) {
                Option::Some(p) => Option::Some((Option::Some(p.0), p.1)),
                Option::None => Option::None,
            }
        } else {
            Option::None
        }
    } else {
        Option::None
    }
}

/// A tally is ayes, support, approval.
pub open spec fn spec_enc_tally(t: Tally) -> Seq<u8> {
    spec_u64_le(t.ayes) + spec_enc_perbill(t.support) + spec_enc_perbill(t.approval)
}

/// Read a tally.
pub open spec fn spec_dec_tally(b: Seq<u8>) -> Option<(Tally, Seq<u8>)> {
    match spec_dec_u64(b) {
        Option::Some(p) => match spec_dec_perbill(p.1) {
            Option::Some(q) => match spec_dec_perbill(q.1) {
                Option::Some(r) => Option::Some((
                    Tally { ayes: p.0, support: q.0, approval: r.0 },
                    r.1,
                )),
                Option::None => Option::None,
            },
            Option::None => Option::None,
        },
        Option::None => Option::None,
    }
}

/// A deciding status is its start, then the optional confirmation end.
pub open spec fn spec_enc_deciding(d: DecidingStatus) -> Seq<u8> {
    spec_u64_le(d.since) + spec_enc_opt_u64(d.confirming)
}

/// Read a deciding status.
pub open spec fn spec_dec_deciding(b: Seq<u8>) -> Option<(DecidingStatus, Seq<u8>)> {
    match spec_dec_u64(b) {
        Option::Some(p) => match spec_dec_opt_u64(p.1) {
            Option::Some(q) => Option::Some((
                DecidingStatus { since: p.0, confirming: q.0 },
                q.1,
            )),
            Option::None => Option::None,
        },
        Option::None => Option::None,
    }
}

/// An optional deciding status.
pub open spec fn spec_enc_opt_deciding(d: Option<DecidingStatus>) -> Seq<u8> {
    match d {
        Option::None => seq![0u8],
        Option::Some(v) => seq![1u8] + spec_enc_deciding(v),
    }
}

/// Read an optional deciding status.
pub open spec fn spec_dec_opt_deciding(b: Seq<u8>)
    -> Option<(Option<DecidingStatus>, Seq<u8>)> {
    if b.len() >= 1 {
        if b[0] == 0 {
            Option::Some((Option::None, b.drop_first()))
        } else if b[0] == 1 {
            match spec_dec_deciding(b.drop_first()) {
                Option::Some(p) => Option::Some((Option::Some(p.0), p.1)),
                Option::None => Option::None,
            }
        } else {
            Option::None
        }
    } else {
        Option::None
    }
}

/// An alarm is its block, then its agenda address.
pub open spec fn spec_enc_alarm(a: Alarm) -> Seq<u8> {
    spec_u64_le(a.when) + spec_u64_le(a.address)
}

/// Read an alarm.
pub open spec fn spec_dec_alarm(b: Seq<u8>) -> Option<(Alarm, Seq<u8>)> {
    match spec_dec_u64(b) {
        Option::Some(p) => match spec_dec_u64(p.1) {
            Option::Some(q) => Option::Some((Alarm { when: p.0, address: q.0 }, q.1)),
            Option::None => Option::None,
        },
        Option::None => Option::None,
    }
}

/// An optional alarm.
pub open spec fn spec_enc_opt_alarm(a: Option<Alarm>) -> Seq<u8> {
    match a {
        Option::None => seq![0u8],
        Option::Some(v) => seq![1u8] + spec_enc_alarm(v),
    }
}

/// Read an optional alarm.
pub open spec fn spec_dec_opt_alarm(b: Seq<u8>) -> Option<(Option<Alarm>, Seq<u8>)> {
    if b.len() >= 1 {
        if b[0] == 0 {
            Option::Some((Option::None, b.drop_first()))
        } else if b[0] == 1 {
            match spec_dec_alarm(b.drop_first()) {
                Option::Some(p) => Option::Some((Option::Some(p.0), p.1)),
                Option::None => Option::None,
            }
        } else {
            Option::None
        }
    } else {
        Option::None
    }
}

/// An enactment moment: a tag for `At` or `After`, then the block count.
pub open spec fn spec_enc_dispatch_time(d: DispatchTime) -> Seq<u8> {
    match d {
        DispatchTime::At(b) => seq![0u8] + spec_u64_le(b),
        DispatchTime::After(b) => seq![1u8] + spec_u64_le(b),
    }
}

/// Read an enactment moment.
pub open spec fn spec_dec_dispatch_time(b: Seq<u8>) -> Option<(DispatchTime, Seq<u8>)> {
    if b.len() >= 1 {
        if b[0] == 0 {
            match spec_dec_u64(b.drop_first()) {
                Option::Some(p) => Option::Some((DispatchTime::At(p.0), p.1)),
                Option::None => Option::None,
            }
        } else if b[0] == 1 {
            match spec_dec_u64(b.drop_first()) {
                Option::Some(p) => Option::Some((DispatchTime::After(p.0), p.1)),
                Option::None => Option::None,
            }
        } else {
            Option::None
        }
    } else {
        Option::None
    }
}

/// A proposal: a tag for inline or lookup, then its fields.
pub open spec fn spec_enc_proposal(p: Proposal) -> Seq<u8> {
    match p {
        Proposal::Inline(code) => seq![0u8] + spec_u64_le(code),
        Proposal::Lookup { hash, len } => seq![1u8] + spec_u64_le(hash) + spec_u32_le(len),
    }
}

/// Read a proposal.
pub open spec fn spec_dec_proposal(b: Seq<u8>) -> Option<(Proposal, Seq<u8>)> {
    if b.len() >= 1 {
        if b[0] == 0 {
            match spec_dec_u64(b.drop_first()) {
                Option::Some(p) => Option::Some((Proposal::Inline(p.0), p.1)),
                Option::None => Option::None,
            }
        } else if b[0] == 1 {
            match spec_dec_u64(b.drop_first()) {
                Option::Some(p) => match spec_dec_u32(p.1) {
                    Option::Some(q) => Option::Some((
                        Proposal::Lookup { hash: p.0, len: q.0 },
                        q.1,
                    )),
                    Option::None => Option::None,
                },
                Option::None => Option::None,
            }
        } else {
            Option::None
        }
    } else {
        Option::None
    }
}

/// An ongoing status: every field in declaration order.
pub open spec fn spec_enc_status(st: ReferendumStatus) -> Seq<u8> {
    spec_u16_le(st.track) + spec_u16_le(st.origin) + spec_enc_proposal(st.proposal)
        + spec_enc_dispatch_time(st.enactment) + spec_u64_le(st.submitted)
        + spec_enc_deposit(st.submission_deposit) + spec_enc_opt_deposit(st.decision_deposit)
        + spec_enc_opt_deciding(st.deciding) + spec_enc_tally(st.tally)
        + spec_enc_bool(st.in_queue) + spec_enc_opt_alarm(st.alarm)
}

/// Read an ongoing status.
pub open spec fn spec_dec_status(b: Seq<u8>) -> Option<(ReferendumStatus, Seq<u8>)> {
    match spec_dec_u16(b) {
        Option::Some(track) => match spec_dec_u16(track.1) {
            Option::Some(origin) => match spec_dec_proposal(origin.1) {
                Option::Some(proposal) => match spec_dec_dispatch_time(proposal.1) {
                    Option::Some(enactment) => match spec_dec_u64(enactment.1) {
                        Option::Some(submitted) => match spec_dec_deposit(submitted.1) {
                            Option::Some(sdep) => match spec_dec_opt_deposit(sdep.1) {
                                Option::Some(ddep) => match spec_dec_opt_deciding(ddep.1) {
                                    Option::Some(dec) => match spec_dec_tally(dec.1) {
                                        Option::Some(tally) => match spec_dec_bool(tally.1) {
                                            Option::Some(inq) => match spec_dec_opt_alarm(
                                                inq.1) {
                                                Option::Some(al) => Option::Some((
                                                    ReferendumStatus {
                                                        track: track.0,
                                                        origin: origin.0,
                                                        proposal: proposal.0,
                                                        enactment: enactment.0,
                                                        submitted: submitted.0,
                                                        submission_deposit: sdep.0,
                                                        decision_deposit: ddep.0,
                                                        deciding: dec.0,
                                                        tally: tally.0,
                                                        in_queue: inq.0,
                                                        alarm: al.0,
                                                    },
                                                    al.1,
                                                )),
                                                Option::None => Option::None,
                                            },
                                            Option::None => Option::None,
                                        },
                                        Option::None => Option::None,
                                    },
                                    Option::None => Option::None,
                                },
                                Option::None => Option::None,
                            },
                            Option::None => Option::None,
                        },
                        Option::None => Option::None,
                    },
                    Option::None => Option::None,
                },
                Option::None => Option::None,
            },
            Option::None => Option::None,
        },
        Option::None => Option::None,
    }
}

/// The conclusion payload shared by four terminal variants: the end block
/// and the two retained deposits.
pub open spec fn spec_enc_conclusion(
    end: u64,
    s: Option<Deposit>,
    d: Option<Deposit>,
) -> Seq<u8> {
    spec_u64_le(end) + spec_enc_opt_deposit(s) + spec_enc_opt_deposit(d)
}

/// A referendum record: a variant tag, then its payload.
pub open spec fn spec_enc_info(info: ReferendumInfo) -> Seq<u8> {
    match info {
        ReferendumInfo::Ongoing(st) => seq![0u8] + spec_enc_status(st),
        ReferendumInfo::Approved(e, s, d) => seq![1u8] + spec_enc_conclusion(e, s, d),
        ReferendumInfo::Rejected(e, s, d) => seq![2u8] + spec_enc_conclusion(e, s, d),
        ReferendumInfo::Cancelled(e, s, d) => seq![3u8] + spec_enc_conclusion(e, s, d),
        ReferendumInfo::TimedOut(e, s, d) => seq![4u8] + spec_enc_conclusion(e, s, d),
        ReferendumInfo::Killed(e) => seq![5u8] + spec_u64_le(e),
    }
}

/// Read a conclusion payload.
pub open spec fn spec_dec_conclusion(b: Seq<u8>)
    -> Option<((u64, Option<Deposit>, Option<Deposit>), Seq<u8>)> {
    match spec_dec_u64(b) {
        Option::Some(e) => match spec_dec_opt_deposit(e.1) {
            Option::Some(s) => match spec_dec_opt_deposit(s.1) {
                Option::Some(d) => Option::Some(((e.0, s.0, d.0), d.1)),
                Option::None => Option::None,
            },
            Option::None => Option::None,
        },
        Option::None => Option::None,
    }
}

/// Read a referendum record.
pub open spec fn spec_dec_info(b: Seq<u8>) -> Option<(ReferendumInfo, Seq<u8>)> {
    if b.len() >= 1 {
        let tag = b[0];
        let body = b.drop_first();
        if tag == 0 {
            match spec_dec_status(body) {
                Option::Some(p) => Option::Some((ReferendumInfo::Ongoing(p.0), p.1)),
                Option::None => Option::None,
            }
        } else if tag == 1 {
            match spec_dec_conclusion(body) {
                Option::Some(p) => Option::Some((
                    ReferendumInfo::Approved(p.0.0, p.0.1, p.0.2), p.1)),
                Option::None => Option::None,
            }
        } else if tag == 2 {
            match spec_dec_conclusion(body) {
                Option::Some(p) => Option::Some((
                    ReferendumInfo::Rejected(p.0.0, p.0.1, p.0.2), p.1)),
                Option::None => Option::None,
            }
        } else if tag == 3 {
            match spec_dec_conclusion(body) {
                Option::Some(p) => Option::Some((
                    ReferendumInfo::Cancelled(p.0.0, p.0.1, p.0.2), p.1)),
                Option::None => Option::None,
            }
        } else if tag == 4 {
            match spec_dec_conclusion(body) {
                Option::Some(p) => Option::Some((
                    ReferendumInfo::TimedOut(p.0.0, p.0.1, p.0.2), p.1)),
                Option::None => Option::None,
            }
        } else if tag == 5 {
            match spec_dec_u64(body) {
                Option::Some(p) => Option::Some((ReferendumInfo::Killed(p.0), p.1)),
                Option::None => Option::None,
            }
        } else {
            Option::None
        }
    } else {
        Option::None
    }
}

/// One queue entry: index then ayes.
pub open spec fn spec_enc_entry(e: QueueEntry) -> Seq<u8> {
    spec_u32_le(e.0) + spec_u64_le(e.1)
}

/// Read a queue entry.
pub open spec fn spec_dec_entry(b: Seq<u8>) -> Option<(QueueEntry, Seq<u8>)> {
    match spec_dec_u32(b) {
        Option::Some(p) => match spec_dec_u64(p.1) {
            Option::Some(q) => Option::Some(((p.0, q.0), q.1)),
            Option::None => Option::None,
        },
        Option::None => Option::None,
    }
}

/// The entries of a queue, in order, without a length prefix.
pub open spec fn spec_enc_entries(q: Seq<QueueEntry>) -> Seq<u8>
    decreases q.len(),
{
    if q.len() == 0 {
        Seq::empty()
    } else {
        spec_enc_entry(q[0]) + spec_enc_entries(q.drop_first())
    }
}

/// Read `count` queue entries.
pub open spec fn spec_dec_entries(b: Seq<u8>, count: nat)
    -> Option<(Seq<QueueEntry>, Seq<u8>)>
    decreases count,
{
    if count == 0 {
        Option::Some((Seq::empty(), b))
    } else {
        match spec_dec_entry(b) {
            Option::Some(p) => match spec_dec_entries(p.1, (count - 1) as nat) {
                Option::Some(q) => Option::Some((seq![p.0] + q.0, q.1)),
                Option::None => Option::None,
            },
            Option::None => Option::None,
        }
    }
}

/// A whole track queue: its length, compact, then its entries.
pub open spec fn spec_enc_queue(q: Seq<QueueEntry>) -> Seq<u8> {
    spec_enc_compact(q.len() as u32) + spec_enc_entries(q)
}

/// Read a whole track queue.
pub open spec fn spec_dec_queue(b: Seq<u8>) -> Option<(Seq<QueueEntry>, Seq<u8>)> {
    match spec_dec_compact(b) {
        Option::Some(p) => spec_dec_entries(p.1, p.0 as nat),
        Option::None => Option::None,
    }
}

/// Reading back a flag byte recovers the flag.
pub proof fn lemma_bool_round_trip(x: bool, rest: Seq<u8>)
    ensures
        spec_dec_bool(spec_enc_bool(x) + rest) == Option::Some((x, rest)),
{
    assert((spec_enc_bool(x) + rest).drop_first() =~= rest);
}

/// Reading back a fraction recovers it.
pub proof fn lemma_perbill_round_trip(x: Perbill, rest: Seq<u8>)
    ensures
        spec_dec_perbill(spec_enc_perbill(x) + rest) == Option::Some((x, rest)),
{
    lemma_u32_round_trip(x.parts, rest);
}

/// Reading back a deposit recovers it.
pub proof fn lemma_deposit_round_trip(d: Deposit, rest: Seq<u8>)
    ensures
        spec_dec_deposit(spec_enc_deposit(d) + rest) == Option::Some((d, rest)),
{
    assert(spec_enc_deposit(d) + rest
        =~= spec_u64_le(d.who) + (spec_u64_le(d.amount) + rest));
    lemma_u64_round_trip(d.who, spec_u64_le(d.amount) + rest);
    lemma_u64_round_trip(d.amount, rest);
}

/// Reading back an optional deposit recovers it.
pub proof fn lemma_opt_deposit_round_trip(d: Option<Deposit>, rest: Seq<u8>)
    ensures
        spec_dec_opt_deposit(spec_enc_opt_deposit(d) + rest) == Option::Some((d, rest)),
{
    match d {
        Option::None => {
            assert((spec_enc_opt_deposit(d) + rest).drop_first() =~= rest);
        },
        Option::Some(dep) => {
            assert((spec_enc_opt_deposit(d) + rest).drop_first()
                =~= spec_enc_deposit(dep) + rest);
            lemma_deposit_round_trip(dep, rest);
        },
    }
}

/// Reading back an optional block number recovers it.
pub proof fn lemma_opt_u64_round_trip(x: Option<u64>, rest: Seq<u8>)
    ensures
        spec_dec_opt_u64(spec_enc_opt_u64(x) + rest) == Option::Some((x, rest)),
{
    match x {
        Option::None => {
            assert((spec_enc_opt_u64(x) + rest).drop_first() =~= rest);
        },
        Option::Some(v) => {
            assert((spec_enc_opt_u64(x) + rest).drop_first() =~= spec_u64_le(v) + rest);
            lemma_u64_round_trip(v, rest);
        },
    }
}

/// Reading back a tally recovers it.
pub proof fn lemma_tally_round_trip(t: Tally, rest: Seq<u8>)
    ensures
        spec_dec_tally(spec_enc_tally(t) + rest) == Option::Some((t, rest)),
{
    let t2 = spec_enc_perbill(t.approval) + rest;
    let t1 = spec_enc_perbill(t.support) + t2;
    assert(spec_enc_tally(t) + rest =~= spec_u64_le(t.ayes) + t1);
    lemma_u64_round_trip(t.ayes, t1);
    lemma_perbill_round_trip(t.support, t2);
    lemma_perbill_round_trip(t.approval, rest);
}

/// Reading back a deciding status recovers it.
pub proof fn lemma_deciding_round_trip(d: DecidingStatus, rest: Seq<u8>)
    ensures
        spec_dec_deciding(spec_enc_deciding(d) + rest) == Option::Some((d, rest)),
{
    assert(spec_enc_deciding(d) + rest
        =~= spec_u64_le(d.since) + (spec_enc_opt_u64(d.confirming) + rest));
    lemma_u64_round_trip(d.since, spec_enc_opt_u64(d.confirming) + rest);
    lemma_opt_u64_round_trip(d.confirming, rest);
}

/// Reading back an optional deciding status recovers it.
pub proof fn lemma_opt_deciding_round_trip(d: Option<DecidingStatus>, rest: Seq<u8>)
    ensures
        spec_dec_opt_deciding(spec_enc_opt_deciding(d) + rest) == Option::Some((d, rest)),
{
    match d {
        Option::None => {
            assert((spec_enc_opt_deciding(d) + rest).drop_first() =~= rest);
        },
        Option::Some(v) => {
            assert((spec_enc_opt_deciding(d) + rest).drop_first()
                =~= spec_enc_deciding(v) + rest);
            lemma_deciding_round_trip(v, rest);
        },
    }
}

/// Reading back an alarm recovers it.
pub proof fn lemma_alarm_round_trip(a: Alarm, rest: Seq<u8>)
    ensures
        spec_dec_alarm(spec_enc_alarm(a) + rest) == Option::Some((a, rest)),
{
    assert(spec_enc_alarm(a) + rest
        =~= spec_u64_le(a.when) + (spec_u64_le(a.address) + rest));
    lemma_u64_round_trip(a.when, spec_u64_le(a.address) + rest);
    lemma_u64_round_trip(a.address, rest);
}

/// Reading back an optional alarm recovers it.
pub proof fn lemma_opt_alarm_round_trip(a: Option<Alarm>, rest: Seq<u8>)
    ensures
        spec_dec_opt_alarm(spec_enc_opt_alarm(a) + rest) == Option::Some((a, rest)),
{
    match a {
        Option::None => {
            assert((spec_enc_opt_alarm(a) + rest).drop_first() =~= rest);
        },
        Option::Some(v) => {
            assert((spec_enc_opt_alarm(a) + rest).drop_first() =~= spec_enc_alarm(v) + rest);
            lemma_alarm_round_trip(v, rest);
        },
    }
}

/// Reading back an enactment moment recovers it.
pub proof fn lemma_dispatch_time_round_trip(d: DispatchTime, rest: Seq<u8>)
    ensures
        spec_dec_dispatch_time(spec_enc_dispatch_time(d) + rest) == Option::Some((d, rest)),
{
    match d {
        DispatchTime::At(x) => {
            assert((spec_enc_dispatch_time(d) + rest).drop_first() =~= spec_u64_le(x) + rest);
            lemma_u64_round_trip(x, rest);
        },
        DispatchTime::After(x) => {
            assert((spec_enc_dispatch_time(d) + rest).drop_first() =~= spec_u64_le(x) + rest);
            lemma_u64_round_trip(x, rest);
        },
    }
}

/// Reading back a proposal recovers it.
pub proof fn lemma_proposal_round_trip(p: Proposal, rest: Seq<u8>)
    ensures
        spec_dec_proposal(spec_enc_proposal(p) + rest) == Option::Some((p, rest)),
{
    match p {
        Proposal::Inline(code) => {
            assert((spec_enc_proposal(p) + rest).drop_first() =~= spec_u64_le(code) + rest);
            lemma_u64_round_trip(code, rest);
        },
        Proposal::Lookup { hash, len } => {
            assert((spec_enc_proposal(p) + rest).drop_first()
                =~= spec_u64_le(hash) + (spec_u32_le(len) + rest));
            lemma_u64_round_trip(hash, spec_u32_le(len) + rest);
            lemma_u32_round_trip(len, rest);
        },
    }
}

/// Reading back an ongoing status recovers it.
#[verifier::rlimit(100)]
pub proof fn lemma_status_round_trip(st: ReferendumStatus, rest: Seq<u8>)
    ensures
        spec_dec_status(spec_enc_status(st) + rest) == Option::Some((st, rest)),
{
    let e1 = spec_u16_le(st.track);
    let e2 = spec_u16_le(st.origin);
    let e3 = spec_enc_proposal(st.proposal);
    let e4 = spec_enc_dispatch_time(st.enactment);
    let e5 = spec_u64_le(st.submitted);
    let e6 = spec_enc_deposit(st.submission_deposit);
    let e7 = spec_enc_opt_deposit(st.decision_deposit);
    let e8 = spec_enc_opt_deciding(st.deciding);
    let e9 = spec_enc_tally(st.tally);
    let e10 = spec_enc_bool(st.in_queue);
    let e11 = spec_enc_opt_alarm(st.alarm);
    let t10 = e11 + rest;
    let t9 = e10 + t10;
    let t8 = e9 + t9;
    let t7 = e8 + t8;
    let t6 = e7 + t7;
    let t5 = e6 + t6;
    let t4 = e5 + t5;
    let t3 = e4 + t4;
    let t2 = e3 + t3;
    let t1 = e2 + t2;
    let p2 = e1 + e2;
    let p3 = p2 + e3;
    let p4 = p3 + e4;
    let p5 = p4 + e5;
    let p6 = p5 + e6;
    let p7 = p6 + e7;
    let p8 = p7 + e8;
    let p9 = p8 + e9;
    let p10 = p9 + e10;
    vstd::seq_lib::lemma_concat_associative(p10, e11, rest);
    vstd::seq_lib::lemma_concat_associative(p9, e10, t10);
    vstd::seq_lib::lemma_concat_associative(p8, e9, t9);
    vstd::seq_lib::lemma_concat_associative(p7, e8, t8);
    vstd::seq_lib::lemma_concat_associative(p6, e7, t7);
    vstd::seq_lib::lemma_concat_associative(p5, e6, t6);
    vstd::seq_lib::lemma_concat_associative(p4, e5, t5);
    vstd::seq_lib::lemma_concat_associative(p3, e4, t4);
    vstd::seq_lib::lemma_concat_associative(p2, e3, t3);
    vstd::seq_lib::lemma_concat_associative(e1, e2, t2);
    assert(spec_enc_status(st) + rest == e1 + t1);
    lemma_u16_round_trip(st.track, t1);
    lemma_u16_round_trip(st.origin, t2);
    lemma_proposal_round_trip(st.proposal, t3);
    lemma_dispatch_time_round_trip(st.enactment, t4);
    lemma_u64_round_trip(st.submitted, t5);
    lemma_deposit_round_trip(st.submission_deposit, t6);
    lemma_opt_deposit_round_trip(st.decision_deposit, t7);
    lemma_opt_deciding_round_trip(st.deciding, t8);
    lemma_tally_round_trip(st.tally, t9);
    lemma_bool_round_trip(st.in_queue, t10);
    lemma_opt_alarm_round_trip(st.alarm, rest);
}

/// Reading back a conclusion payload recovers it.
proof fn lemma_conclusion_round_trip(
    e: u64,
    s: Option<Deposit>,
    d: Option<Deposit>,
    rest: Seq<u8>,
)
    ensures
        spec_dec_conclusion(spec_enc_conclusion(e, s, d) + rest)
            == Option::Some(((e, s, d), rest)),
{
    let t2 = spec_enc_opt_deposit(d) + rest;
    let t1 = spec_enc_opt_deposit(s) + t2;
    vstd::seq_lib::lemma_concat_associative(
        spec_u64_le(e) + spec_enc_opt_deposit(s), spec_enc_opt_deposit(d), rest);
    vstd::seq_lib::lemma_concat_associative(spec_u64_le(e), spec_enc_opt_deposit(s), t2);
    assert(spec_enc_conclusion(e, s, d) + rest == spec_u64_le(e) + t1);
    lemma_u64_round_trip(e, t1);
    lemma_opt_deposit_round_trip(s, t2);
    lemma_opt_deposit_round_trip(d, rest);
}

/// Law: reading back an encoded referendum record recovers it exactly, and
/// leaves any following bytes untouched.
#[verifier::rlimit(100)]
pub proof fn lemma_info_round_trip(info: ReferendumInfo, rest: Seq<u8>)
    ensures
        spec_dec_info(spec_enc_info(info) + rest) == Option::Some((info, rest)),
{
    let b = spec_enc_info(info) + rest;
    match info {
        ReferendumInfo::Ongoing(st) => {
            vstd::seq_lib::lemma_concat_associative(seq![0u8], spec_enc_status(st), rest);
            assert(b.drop_first() =~= spec_enc_status(st) + rest);
            lemma_status_round_trip(st, rest);
        },
        ReferendumInfo::Approved(e, s, d) => {
            vstd::seq_lib::lemma_concat_associative(
                seq![1u8], spec_enc_conclusion(e, s, d), rest);
            assert(b.drop_first() =~= spec_enc_conclusion(e, s, d) + rest);
            lemma_conclusion_round_trip(e, s, d, rest);
        },
        ReferendumInfo::Rejected(e, s, d) => {
            vstd::seq_lib::lemma_concat_associative(
                seq![2u8], spec_enc_conclusion(e, s, d), rest);
            assert(b.drop_first() =~= spec_enc_conclusion(e, s, d) + rest);
            lemma_conclusion_round_trip(e, s, d, rest);
        },
        ReferendumInfo::Cancelled(e, s, d) => {
            vstd::seq_lib::lemma_concat_associative(
                seq![3u8], spec_enc_conclusion(e, s, d), rest);
            assert(b.drop_first() =~= spec_enc_conclusion(e, s, d) + rest);
            lemma_conclusion_round_trip(e, s, d, rest);
        },
        ReferendumInfo::TimedOut(e, s, d) => {
            vstd::seq_lib::lemma_concat_associative(
                seq![4u8], spec_enc_conclusion(e, s, d), rest);
            assert(b.drop_first() =~= spec_enc_conclusion(e, s, d) + rest);
            lemma_conclusion_round_trip(e, s, d, rest);
        },
        ReferendumInfo::Killed(e) => {
            vstd::seq_lib::lemma_concat_associative(seq![5u8], spec_u64_le(e), rest);
            assert(b.drop_first() =~= spec_u64_le(e) + rest);
            lemma_u64_round_trip(e, rest);
        },
    }
}

/// Reading back one queue entry recovers it.
pub proof fn lemma_entry_round_trip(e: QueueEntry, rest: Seq<u8>)
    ensures
        spec_dec_entry(spec_enc_entry(e) + rest) == Option::Some((e, rest)),
{
    assert(spec_enc_entry(e) + rest =~= spec_u32_le(e.0) + (spec_u64_le(e.1) + rest));
    lemma_u32_round_trip(e.0, spec_u64_le(e.1) + rest);
    lemma_u64_round_trip(e.1, rest);
}

/// Reading back encoded entries recovers them.
pub proof fn lemma_entries_round_trip(q: Seq<QueueEntry>, rest: Seq<u8>)
    ensures
        spec_dec_entries(spec_enc_entries(q) + rest, q.len() as nat)
            == Option::Some((q, rest)),
    decreases q.len(),
{
    if q.len() == 0 {
        assert(spec_enc_entries(q) + rest =~= rest);
        assert(spec_dec_entries(rest, 0) == Option::Some((Seq::<QueueEntry>::empty(), rest)));
        assert(q =~= Seq::<QueueEntry>::empty());
    } else {
        let tail = spec_enc_entries(q.drop_first()) + rest;
        assert(spec_enc_entries(q) + rest =~= spec_enc_entry(q[0]) + tail);
        lemma_entry_round_trip(q[0], tail);
        lemma_entries_round_trip(q.drop_first(), rest);
        assert(seq![q[0]] + q.drop_first() =~= q);
    }
}

/// Law: reading back an encoded track queue recovers it exactly, and leaves
/// any following bytes untouched.
pub proof fn lemma_queue_round_trip(q: Seq<QueueEntry>, rest: Seq<u8>)
    requires
        q.len() <= u32::MAX,
    ensures
        spec_dec_queue(spec_enc_queue(q) + rest) == Option::Some((q, rest)),
{
    let tail = spec_enc_entries(q) + rest;
    assert(spec_enc_queue(q) + rest =~= spec_enc_compact(q.len() as u32) + tail);
    lemma_compact_round_trip(q.len() as u32, tail);
    lemma_entries_round_trip(q, rest);
}

/// Whether an executable decode at `pos` in `b` agrees with what the
/// mathematical decoder says of the bytes from `pos` on.
pub open spec fn decoded_as<T>(
    b: Seq<u8>,
    pos: int,
    r: Option<(T, usize)>,
    s: Option<(T, Seq<u8>)>,
) -> bool {
    match s {
        Option::Some(p) => match r {
            Option::Some(q) => q.0 == p.0 && pos <= q.1 <= b.len()
                && b.skip(q.1 as int) == p.1,
            Option::None => false,
        },
        Option::None => r is None,
    }
}

/// Read a `u16` at `pos`.
pub fn decode_u16(b: &Vec<u8>, pos: usize) -> (r: Option<(u16, usize)>)
    requires
        pos <= b@.len(),
    ensures
        decoded_as(b@, pos as int, r, spec_dec_u16(b@.skip(pos as int))),
{
    if b.len() - pos >= 2 {
        let v: u16 = (b[pos] as u16) + 256 * (b[pos + 1] as u16);
        proof {
            assert(b@.skip(pos + 2) =~= b@.skip(pos as int).skip(2));
        }
        Option::Some((v, pos + 2))
    } else {
        Option::None
    }
}

/// Read a `u32` at `pos`.
pub fn decode_u32(b: &Vec<u8>, pos: usize) -> (r: Option<(u32, usize)>)
    requires
        pos <= b@.len(),
    ensures
        decoded_as(b@, pos as int, r, spec_dec_u32(b@.skip(pos as int))),
{
    if b.len() - pos >= 4 {
        let v: u32 = (b[pos] as u32) + 256 * (b[pos + 1] as u32)
            + 65536 * (b[pos + 2] as u32) + 16777216 * (b[pos + 3] as u32);
        proof {
            assert(b@.skip(pos + 4) =~= b@.skip(pos as int).skip(4));
        }
        Option::Some((v, pos + 4))
    } else {
        Option::None
    }
}

/// Read a `u64` at `pos`.
pub fn decode_u64(b: &Vec<u8>, pos: usize) -> (r: Option<(u64, usize)>)
    requires
        pos <= b@.len(),
    ensures
        decoded_as(b@, pos as int, r, spec_dec_u64(b@.skip(pos as int))),
{
    if b.len() - pos >= 8 {
        let v: u64 = (b[pos] as u64) + 256 * (b[pos + 1] as u64)
            + 65536 * (b[pos + 2] as u64) + 16777216 * (b[pos + 3] as u64)
            + 4294967296 * (b[pos + 4] as u64) + 1099511627776 * (b[pos + 5] as u64)
            + 281474976710656 * (b[pos + 6] as u64)
            + 72057594037927936 * (b[pos + 7] as u64);
        proof {
            assert(b@.skip(pos + 8) =~= b@.skip(pos as int).skip(8));
        }
        Option::Some((v, pos + 8))
    } else {
        Option::None
    }
}

/// Append a compact `u32`.
pub fn encode_compact(out: &mut Vec<u8>, n: u32)
    ensures
        final(out)@ == old(out)@ + spec_enc_compact(n),
{
    if n < 64 {
        out.push((n * 4) as u8);
        proof {
            assert(out@ =~= old(out)@ + spec_enc_compact(n));
        }
    } else if n < 16384 {
        encode_u16(out, (n * 4 + 1) as u16);
    } else if n < 1073741824 {
        encode_u32(out, n * 4 + 2);
    } else {
        out.push(3u8);
        encode_u32(out, n);
        proof {
            assert(out@ =~= old(out)@ + spec_enc_compact(n));
        }
    }
}

/// Read a compact `u32` at `pos`.
pub fn decode_compact(b: &Vec<u8>, pos: usize) -> (r: Option<(u32, usize)>)
    requires
        pos <= b@.len(),
    ensures
        decoded_as(b@, pos as int, r, spec_dec_compact(b@.skip(pos as int))),
{
    if pos >= b.len() {
        return Option::None;
    }
    let b0 = b[pos];
    proof {
        assert(b@.skip(pos as int)[0] == b@[pos as int]);
    }
    if b0 % 4 == 0 {
        proof {
            assert(b@.skip(pos + 1) =~= b@.skip(pos as int).drop_first());
        }
        Option::Some(((b0 / 4) as u32, pos + 1))
    } else if b0 % 4 == 1 {
        match decode_u16(b, pos) {
            Option::Some(p) => Option::Some(((p.0 / 4) as u32, p.1)),
            Option::None => Option::None,
        }
    } else if b0 % 4 == 2 {
        match decode_u32(b, pos) {
            Option::Some(p) => Option::Some(((p.0 / 4) as u32, p.1)),
            Option::None => Option::None,
        }
    } else if b0 / 4 == 0 {
        proof {
            assert(b@.skip(pos + 1) =~= b@.skip(pos as int).drop_first());
        }
        match decode_u32(b, pos + 1) {
            Option::Some(p) => Option::Some((p.0, p.1)),
            Option::None => Option::None,
        }
    } else {
        Option::None
    }
}

/// Append a flag byte.
pub fn encode_bool(out: &mut Vec<u8>, x: bool)
    ensures
        final(out)@ == old(out)@ + spec_enc_bool(x),
{
    out.push(if x { 1u8 } else { 0u8 });
    proof {
        assert(out@ =~= old(out)@ + spec_enc_bool(x));
    }
}

/// Read a flag byte at `pos`.
pub fn decode_bool(b: &Vec<u8>, pos: usize) -> (r: Option<(bool, usize)>)
    requires
        pos <= b@.len(),
    ensures
        decoded_as(b@, pos as int, r, spec_dec_bool(b@.skip(pos as int))),
{
    if pos >= b.len() {
        return Option::None;
    }
    proof {
        assert(b@.skip(pos + 1) =~= b@.skip(pos as int).drop_first());
    }
    if b[pos] == 0 {
        Option::Some((false, pos + 1))
    } else if b[pos] == 1 {
        Option::Some((true, pos + 1))
    } else {
        Option::None
    }
}

/// Append a fraction.
pub fn encode_perbill(out: &mut Vec<u8>, x: Perbill)
    ensures
        final(out)@ == old(out)@ + spec_enc_perbill(x),
{
    encode_u32(out, x.parts);
}

/// Read a fraction at `pos`.
pub fn decode_perbill(b: &Vec<u8>, pos: usize) -> (r: Option<(Perbill, usize)>)
    requires
        pos <= b@.len(),
    ensures
        decoded_as(b@, pos as int, r, spec_dec_perbill(b@.skip(pos as int))),
{
    match decode_u32(b, pos) {
        Option::Some(p) => Option::Some((Perbill { parts: p.0 }, p.1)),
        Option::None => Option::None,
    }
}

/// Append a deposit.
pub fn encode_deposit(out: &mut Vec<u8>, d: &Deposit)
    ensures
        final(out)@ == old(out)@ + spec_enc_deposit(*d),
{
    encode_u64(out, d.who);
    encode_u64(out, d.amount);
    proof {
        assert(out@ =~= old(out)@ + spec_enc_deposit(*d));
    }
}

/// Read a deposit at `pos`.
pub fn decode_deposit(b: &Vec<u8>, pos: usize) -> (r: Option<(Deposit, usize)>)
    requires
        pos <= b@.len(),
    ensures
        decoded_as(b@, pos as int, r, spec_dec_deposit(b@.skip(pos as int))),
{
    match decode_u64(b, pos) {
        Option::Some(p) => match decode_u64(b, p.1) {
            Option::Some(q) => Option::Some((Deposit { who: p.0, amount: q.0 }, q.1)),
            Option::None => Option::None,
        },
        Option::None => Option::None,
    }
}

/// Append an optional deposit.
pub fn encode_opt_deposit(out: &mut Vec<u8>, d: &Option<Deposit>)
    ensures
        final(out)@ == old(out)@ + spec_enc_opt_deposit(*d),
{
    match d {
        Option::None => {
            out.push(0u8);
            proof {
                assert(out@ =~= old(out)@ + spec_enc_opt_deposit(Option::None));
            }
        },
        Option::Some(dep) => {
            out.push(1u8);
            encode_deposit(out, dep);
            proof {
                assert(out@ =~= old(out)@ + spec_enc_opt_deposit(Option::Some(*dep)));
            }
        },
    }
}

/// Read an optional deposit at `pos`.
pub fn decode_opt_deposit(b: &Vec<u8>, pos: usize) -> (r: Option<(Option<Deposit>, usize)>)
    requires
        pos <= b@.len(),
    ensures
        decoded_as(b@, pos as int, r, spec_dec_opt_deposit(b@.skip(pos as int))),
{
    if pos >= b.len() {
        return Option::None;
    }
    proof {
        assert(b@.skip(pos + 1) =~= b@.skip(pos as int).drop_first());
    }
    if b[pos] == 0 {
        Option::Some((Option::None, pos + 1))
    } else if b[pos] == 1 {
        match decode_deposit(b, pos + 1) {
            Option::Some(p) => Option::Some((Option::Some(p.0), p.1)),
            Option::None => Option::None,
        }
    } else {
        Option::None
    }
}

/// Append an optional block number.
pub fn encode_opt_u64(out: &mut Vec<u8>, x: &Option<u64>)
    ensures
        final(out)@ == old(out)@ + spec_enc_opt_u64(*x),
{
    match x {
        Option::None => {
            out.push(0u8);
            proof {
                assert(out@ =~= old(out)@ + spec_enc_opt_u64(Option::None));
            }
        },
        Option::Some(v) => {
            out.push(1u8);
            encode_u64(out, *v);
            proof {
                assert(out@ =~= old(out)@ + spec_enc_opt_u64(Option::Some(*v)));
            }
        },
    }
}

/// Read an optional block number at `pos`.
pub fn decode_opt_u64(b: &Vec<u8>, pos: usize) -> (r: Option<(Option<u64>, usize)>)
    requires
        pos <= b@.len(),
    ensures
        decoded_as(b@, pos as int, r, spec_dec_opt_u64(b@.skip(pos as int))),
{
    if pos >= b.len() {
        return Option::None;
    }
    proof {
        assert(b@.skip(pos + 1) =~= b@.skip(pos as int).drop_first());
    }
    if b[pos] == 0 {
        Option::Some((Option::None, pos + 1))
    } else if b[pos] == 1 {
        match decode_u64(b, pos + 1) {
            Option::Some(p) => Option::Some((Option::Some(p.0), p.1)),
            Option::None => Option::None,
        }
    } else {
        Option::None
    }
}

/// Append a tally.
pub fn encode_tally(out: &mut Vec<u8>, t: &Tally)
    ensures
        final(out)@ == old(out)@ + spec_enc_tally(*t),
{
    encode_u64(out, t.ayes);
    encode_perbill(out, t.support);
    encode_perbill(out, t.approval);
    proof {
        assert(out@ =~= old(out)@ + spec_enc_tally(*t));
    }
}

/// Read a tally at `pos`.
pub fn decode_tally(b: &Vec<u8>, pos: usize) -> (r: Option<(Tally, usize)>)
    requires
        pos <= b@.len(),
    ensures
        decoded_as(b@, pos as int, r, spec_dec_tally(b@.skip(pos as int))),
{
    match decode_u64(b, pos) {
        Option::Some(p) => match decode_perbill(b, p.1) {
            Option::Some(q) => match decode_perbill(b, q.1) {
                Option::Some(s) => Option::Some((
                    Tally { ayes: p.0, support: q.0, approval: s.0 },
                    s.1,
                )),
                Option::None => Option::None,
            },
            Option::None => Option::None,
        },
        Option::None => Option::None,
    }
}

/// Append a deciding status.
pub fn encode_deciding(out: &mut Vec<u8>, d: &DecidingStatus)
    ensures
        final(out)@ == old(out)@ + spec_enc_deciding(*d),
{
    encode_u64(out, d.since);
    encode_opt_u64(out, &d.confirming);
    proof {
        assert(out@ =~= old(out)@ + spec_enc_deciding(*d));
    }
}

/// Read a deciding status at `pos`.
pub fn decode_deciding(b: &Vec<u8>, pos: usize) -> (r: Option<(DecidingStatus, usize)>)
    requires
        pos <= b@.len(),
    ensures
        decoded_as(b@, pos as int, r, spec_dec_deciding(b@.skip(pos as int))),
{
    match decode_u64(b, pos) {
        Option::Some(p) => match decode_opt_u64(b, p.1) {
            Option::Some(q) => Option::Some((
                DecidingStatus { since: p.0, confirming: q.0 },
                q.1,
            )),
            Option::None => Option::None,
        },
        Option::None => Option::None,
    }
}

/// Append an optional deciding status.
pub fn encode_opt_deciding(out: &mut Vec<u8>, d: &Option<DecidingStatus>)
    ensures
        final(out)@ == old(out)@ + spec_enc_opt_deciding(*d),
{
    match d {
        Option::None => {
            out.push(0u8);
            proof {
                assert(out@ =~= old(out)@ + spec_enc_opt_deciding(Option::None));
            }
        },
        Option::Some(v) => {
            out.push(1u8);
            encode_deciding(out, v);
            proof {
                assert(out@ =~= old(out)@ + spec_enc_opt_deciding(Option::Some(*v)));
            }
        },
    }
}

/// Read an optional deciding status at `pos`.
pub fn decode_opt_deciding(b: &Vec<u8>, pos: usize)
    -> (r: Option<(Option<DecidingStatus>, usize)>)
    requires
        pos <= b@.len(),
    ensures
        decoded_as(b@, pos as int, r, spec_dec_opt_deciding(b@.skip(pos as int))),
{
    if pos >= b.len() {
        return Option::None;
    }
    proof {
        assert(b@.skip(pos + 1) =~= b@.skip(pos as int).drop_first());
    }
    if b[pos] == 0 {
        Option::Some((Option::None, pos + 1))
    } else if b[pos] == 1 {
        match decode_deciding(b, pos + 1) {
            Option::Some(p) => Option::Some((Option::Some(p.0), p.1)),
            Option::None => Option::None,
        }
    } else {
        Option::None
    }
}

/// Append an alarm.
pub fn encode_alarm(out: &mut Vec<u8>, a: &Alarm)
    ensures
        final(out)@ == old(out)@ + spec_enc_alarm(*a),
{
    encode_u64(out, a.when);
    encode_u64(out, a.address);
    proof {
        assert(out@ =~= old(out)@ + spec_enc_alarm(*a));
    }
}

/// Read an alarm at `pos`.
pub fn decode_alarm(b: &Vec<u8>, pos: usize) -> (r: Option<(Alarm, usize)>)
    requires
        pos <= b@.len(),
    ensures
        decoded_as(b@, pos as int, r, spec_dec_alarm(b@.skip(pos as int))),
{
    match decode_u64(b, pos) {
        Option::Some(p) => match decode_u64(b, p.1) {
            Option::Some(q) => Option::Some((Alarm { when: p.0, address: q.0 }, q.1)),
            Option::None => Option::None,
        },
        Option::None => Option::None,
    }
}

/// Append an optional alarm.
pub fn encode_opt_alarm(out: &mut Vec<u8>, a: &Option<Alarm>)
    ensures
        final(out)@ == old(out)@ + spec_enc_opt_alarm(*a),
{
    match a {
        Option::None => {
            out.push(0u8);
            proof {
                assert(out@ =~= old(out)@ + spec_enc_opt_alarm(Option::None));
            }
        },
        Option::Some(v) => {
            out.push(1u8);
            encode_alarm(out, v);
            proof {
                assert(out@ =~= old(out)@ + spec_enc_opt_alarm(Option::Some(*v)));
            }
        },
    }
}

/// Read an optional alarm at `pos`.
pub fn decode_opt_alarm(b: &Vec<u8>, pos: usize) -> (r: Option<(Option<Alarm>, usize)>)
    requires
        pos <= b@.len(),
    ensures
        decoded_as(b@, pos as int, r, spec_dec_opt_alarm(b@.skip(pos as int))),
{
    if pos >= b.len() {
        return Option::None;
    }
    proof {
        assert(b@.skip(pos + 1) =~= b@.skip(pos as int).drop_first());
    }
    if b[pos] == 0 {
        Option::Some((Option::None, pos + 1))
    } else if b[pos] == 1 {
        match decode_alarm(b, pos + 1) {
            Option::Some(p) => Option::Some((Option::Some(p.0), p.1)),
            Option::None => Option::None,
        }
    } else {
        Option::None
    }
}

/// Append an enactment moment.
pub fn encode_dispatch_time(out: &mut Vec<u8>, d: &DispatchTime)
    ensures
        final(out)@ == old(out)@ + spec_enc_dispatch_time(*d),
{
    match d {
        DispatchTime::At(x) => {
            out.push(0u8);
            encode_u64(out, *x);
            proof {
                assert(out@ =~= old(out)@ + spec_enc_dispatch_time(DispatchTime::At(*x)));
            }
        },
        DispatchTime::After(x) => {
            out.push(1u8);
            encode_u64(out, *x);
            proof {
                assert(out@ =~= old(out)@ + spec_enc_dispatch_time(DispatchTime::After(*x)));
            }
        },
    }
}

/// Read an enactment moment at `pos`.
pub fn decode_dispatch_time(b: &Vec<u8>, pos: usize) -> (r: Option<(DispatchTime, usize)>)
    requires
        pos <= b@.len(),
    ensures
        decoded_as(b@, pos as int, r, spec_dec_dispatch_time(b@.skip(pos as int))),
{
    if pos >= b.len() {
        return Option::None;
    }
    proof {
        assert(b@.skip(pos + 1) =~= b@.skip(pos as int).drop_first());
    }
    if b[pos] == 0 {
        match decode_u64(b, pos + 1) {
            Option::Some(p) => Option::Some((DispatchTime::At(p.0), p.1)),
            Option::None => Option::None,
        }
    } else if b[pos] == 1 {
        match decode_u64(b, pos + 1) {
            Option::Some(p) => Option::Some((DispatchTime::After(p.0), p.1)),
            Option::None => Option::None,
        }
    } else {
        Option::None
    }
}

/// Append a proposal.
pub fn encode_proposal(out: &mut Vec<u8>, p: &Proposal)
    ensures
        final(out)@ == old(out)@ + spec_enc_proposal(*p),
{
    match p {
        Proposal::Inline(code) => {
            out.push(0u8);
            encode_u64(out, *code);
            proof {
                assert(out@ =~= old(out)@ + spec_enc_proposal(Proposal::Inline(*code)));
            }
        },
        Proposal::Lookup { hash, len } => {
            out.push(1u8);
            encode_u64(out, *hash);
            encode_u32(out, *len);
            proof {
                assert(out@ =~= old(out)@ + spec_enc_proposal(
                    Proposal::Lookup { hash: *hash, len: *len }));
            }
        },
    }
}

/// Read a proposal at `pos`.
pub fn decode_proposal(b: &Vec<u8>, pos: usize) -> (r: Option<(Proposal, usize)>)
    requires
        pos <= b@.len(),
    ensures
        decoded_as(b@, pos as int, r, spec_dec_proposal(b@.skip(pos as int))),
{
    if pos >= b.len() {
        return Option::None;
    }
    proof {
        assert(b@.skip(pos + 1) =~= b@.skip(pos as int).drop_first());
    }
    if b[pos] == 0 {
        match decode_u64(b, pos + 1) {
            Option::Some(p) => Option::Some((Proposal::Inline(p.0), p.1)),
            Option::None => Option::None,
        }
    } else if b[pos] == 1 {
        match decode_u64(b, pos + 1) {
            Option::Some(p) => match decode_u32(b, p.1) {
                Option::Some(q) => Option::Some((
                    Proposal::Lookup { hash: p.0, len: q.0 },
                    q.1,
                )),
                Option::None => Option::None,
            },
            Option::None => Option::None,
        }
    } else {
        Option::None
    }
}

/// Append an ongoing status.
#[verifier::rlimit(100)]
pub fn encode_status(out: &mut Vec<u8>, st: &ReferendumStatus)
    ensures
        final(out)@ == old(out)@ + spec_enc_status(*st),
{
    encode_u16(out, st.track);
    encode_u16(out, st.origin);
    encode_proposal(out, &st.proposal);
    encode_dispatch_time(out, &st.enactment);
    encode_u64(out, st.submitted);
    encode_deposit(out, &st.submission_deposit);
    encode_opt_deposit(out, &st.decision_deposit);
    encode_opt_deciding(out, &st.deciding);
    encode_tally(out, &st.tally);
    encode_bool(out, st.in_queue);
    encode_opt_alarm(out, &st.alarm);
    proof {
        assert(out@ =~= old(out)@ + spec_enc_status(*st));
    }
}

/// Read an ongoing status at `pos`.
#[verifier::rlimit(100)]
pub fn decode_status(b: &Vec<u8>, pos: usize) -> (r: Option<(ReferendumStatus, usize)>)
    requires
        pos <= b@.len(),
    ensures
        decoded_as(b@, pos as int, r, spec_dec_status(b@.skip(pos as int))),
{
    let track = match decode_u16(b, pos) {
        Option::Some(p) => p,
        Option::None => { return Option::None; },
    };
    let origin = match decode_u16(b, track.1) {
        Option::Some(p) => p,
        Option::None => { return Option::None; },
    };
    let proposal = match decode_proposal(b, origin.1) {
        Option::Some(p) => p,
        Option::None => { return Option::None; },
    };
    let enactment = match decode_dispatch_time(b, proposal.1) {
        Option::Some(p) => p,
        Option::None => { return Option::None; },
    };
    let submitted = match decode_u64(b, enactment.1) {
        Option::Some(p) => p,
        Option::None => { return Option::None; },
    };
    let sdep = match decode_deposit(b, submitted.1) {
        Option::Some(p) => p,
        Option::None => { return Option::None; },
    };
    let ddep = match decode_opt_deposit(b, sdep.1) {
        Option::Some(p) => p,
        Option::None => { return Option::None; },
    };
    let dec = match decode_opt_deciding(b, ddep.1) {
        Option::Some(p) => p,
        Option::None => { return Option::None; },
    };
    let tally = match decode_tally(b, dec.1) {
        Option::Some(p) => p,
        Option::None => { return Option::None; },
    };
    let inq = match decode_bool(b, tally.1) {
        Option::Some(p) => p,
        Option::None => { return Option::None; },
    };
    let al = match decode_opt_alarm(b, inq.1) {
        Option::Some(p) => p,
        Option::None => { return Option::None; },
    };
    Option::Some((
        ReferendumStatus {
            track: track.0,
            origin: origin.0,
            proposal: proposal.0,
            enactment: enactment.0,
            submitted: submitted.0,
            submission_deposit: sdep.0,
            decision_deposit: ddep.0,
            deciding: dec.0,
            tally: tally.0,
            in_queue: inq.0,
            alarm: al.0,
        },
        al.1,
    ))
}

/// Append a referendum record.
pub fn encode_info(out: &mut Vec<u8>, info: &ReferendumInfo)
    ensures
        final(out)@ == old(out)@ + spec_enc_info(*info),
{
    match info {
        ReferendumInfo::Ongoing(st) => {
            out.push(0u8);
            encode_status(out, st);
            proof {
                assert(out@ =~= old(out)@ + spec_enc_info(*info));
            }
        },
        ReferendumInfo::Approved(e, s, d) => {
            out.push(1u8);
            encode_u64(out, *e);
            encode_opt_deposit(out, s);
            encode_opt_deposit(out, d);
            proof {
                assert(out@ =~= old(out)@ + spec_enc_info(*info));
            }
        },
        ReferendumInfo::Rejected(e, s, d) => {
            out.push(2u8);
            encode_u64(out, *e);
            encode_opt_deposit(out, s);
            encode_opt_deposit(out, d);
            proof {
                assert(out@ =~= old(out)@ + spec_enc_info(*info));
            }
        },
        ReferendumInfo::Cancelled(e, s, d) => {
            out.push(3u8);
            encode_u64(out, *e);
            encode_opt_deposit(out, s);
            encode_opt_deposit(out, d);
            proof {
                assert(out@ =~= old(out)@ + spec_enc_info(*info));
            }
        },
        ReferendumInfo::TimedOut(e, s, d) => {
            out.push(4u8);
            encode_u64(out, *e);
            encode_opt_deposit(out, s);
            encode_opt_deposit(out, d);
            proof {
                assert(out@ =~= old(out)@ + spec_enc_info(*info));
            }
        },
        ReferendumInfo::Killed(e) => {
            out.push(5u8);
            encode_u64(out, *e);
            proof {
                assert(out@ =~= old(out)@ + spec_enc_info(*info));
            }
        },
    }
}

/// Read a conclusion payload at `pos`.
fn decode_conclusion(b: &Vec<u8>, pos: usize)
    -> (r: Option<((u64, Option<Deposit>, Option<Deposit>), usize)>)
    requires
        pos <= b@.len(),
    ensures
        decoded_as(b@, pos as int, r, spec_dec_conclusion(b@.skip(pos as int))),
{
    match decode_u64(b, pos) {
        Option::Some(e) => match decode_opt_deposit(b, e.1) {
            Option::Some(s) => match decode_opt_deposit(b, s.1) {
                Option::Some(d) => Option::Some(((e.0, s.0, d.0), d.1)),
                Option::None => Option::None,
            },
            Option::None => Option::None,
        },
        Option::None => Option::None,
    }
}

/// Read a referendum record at `pos`.
#[verifier::rlimit(100)]
pub fn decode_info(b: &Vec<u8>, pos: usize) -> (r: Option<(ReferendumInfo, usize)>)
    requires
        pos <= b@.len(),
    ensures
        decoded_as(b@, pos as int, r, spec_dec_info(b@.skip(pos as int))),
{
    if pos >= b.len() {
        return Option::None;
    }
    let tag = b[pos];
    proof {
        assert(b@.skip(pos + 1) =~= b@.skip(pos as int).drop_first());
    }
    if tag == 0 {
        match decode_status(b, pos + 1) {
            Option::Some(p) => Option::Some((ReferendumInfo::Ongoing(p.0), p.1)),
            Option::None => Option::None,
        }
    } else if tag == 1 {
        match decode_conclusion(b, pos + 1) {
            Option::Some(p) => Option::Some((
                ReferendumInfo::Approved(p.0.0, p.0.1, p.0.2), p.1)),
            Option::None => Option::None,
        }
    } else if tag == 2 {
        match decode_conclusion(b, pos + 1) {
            Option::Some(p) => Option::Some((
                ReferendumInfo::Rejected(p.0.0, p.0.1, p.0.2), p.1)),
            Option::None => Option::None,
        }
    } else if tag == 3 {
        match decode_conclusion(b, pos + 1) {
            Option::Some(p) => Option::Some((
                ReferendumInfo::Cancelled(p.0.0, p.0.1, p.0.2), p.1)),
            Option::None => Option::None,
        }
    } else if tag == 4 {
        match decode_conclusion(b, pos + 1) {
            Option::Some(p) => Option::Some((
                ReferendumInfo::TimedOut(p.0.0, p.0.1, p.0.2), p.1)),
            Option::None => Option::None,
        }
    } else if tag == 5 {
        match decode_u64(b, pos + 1) {
            Option::Some(p) => Option::Some((ReferendumInfo::Killed(p.0), p.1)),
            Option::None => Option::None,
        }
    } else {
        Option::None
    }
}

/// Appending an element encodes after the existing entries.
#[verifier::rlimit(100)]
proof fn lemma_enc_entries_snoc(q: Seq<QueueEntry>, e: QueueEntry)
    ensures
        spec_enc_entries(q.push(e)) == spec_enc_entries(q) + spec_enc_entry(e),
    decreases q.len(),
{
    if q.len() == 0 {
        assert(q.push(e)[0] == e);
        assert(q.push(e).drop_first() =~= Seq::<QueueEntry>::empty());
        Seq::<u8>::add_empty_right(spec_enc_entry(e), spec_enc_entries(q.push(e).drop_first()));
        Seq::<u8>::add_empty_left(spec_enc_entries(q), spec_enc_entry(e));
    } else {
        assert(q.push(e).drop_first() =~= q.drop_first().push(e));
        lemma_enc_entries_snoc(q.drop_first(), e);
        vstd::seq_lib::lemma_concat_associative(
            spec_enc_entry(q[0]), spec_enc_entries(q.drop_first()), spec_enc_entry(e));
        assert(q.push(e)[0] == q[0]);
    }
}

/// Append a whole track queue.
pub fn encode_queue(out: &mut Vec<u8>, q: &Vec<QueueEntry>)
    requires
        q@.len() <= u32::MAX,
    ensures
        final(out)@ == old(out)@ + spec_enc_queue(q@),
{
    encode_compact(out, q.len() as u32);
    let mut i: usize = 0;
    proof {
        assert(q@.take(0) =~= Seq::<QueueEntry>::empty());
    }
    while i < q.len()
        invariant
            0 <= i <= q@.len(),
            out@ == old(out)@ + spec_enc_compact(q@.len() as u32)
                + spec_enc_entries(q@.take(i as int)),
        decreases q@.len() - i,
    {
        let e = q[i];
        encode_u32(out, e.0);
        encode_u64(out, e.1);
        proof {
            assert(q@.take(i + 1) =~= q@.take(i as int).push(q@[i as int]));
            lemma_enc_entries_snoc(q@.take(i as int), q@[i as int]);
            assert(out@ =~= old(out)@ + spec_enc_compact(q@.len() as u32)
                + spec_enc_entries(q@.take(i + 1)));
        }
        i = i + 1;
    }
    proof {
        assert(q@.take(q@.len() as int) =~= q@);
        assert(out@ =~= old(out)@ + spec_enc_queue(q@));
    }
}

/// Read one queue entry at `pos`.
fn decode_entry(b: &Vec<u8>, pos: usize) -> (r: Option<(QueueEntry, usize)>)
    requires
        pos <= b@.len(),
    ensures
        decoded_as(b@, pos as int, r, spec_dec_entry(b@.skip(pos as int))),
{
    match decode_u32(b, pos) {
        Option::Some(p) => match decode_u64(b, p.1) {
            Option::Some(q) => Option::Some(((p.0, q.0), q.1)),
            Option::None => Option::None,
        },
        Option::None => Option::None,
    }
}

/// Read a whole track queue at `pos`.
#[verifier::loop_isolation(false)]
pub fn decode_queue(b: &Vec<u8>, pos: usize) -> (r: Option<(Vec<QueueEntry>, usize)>)
    requires
        pos <= b@.len(),
    ensures
        ({
            let s = spec_dec_queue(b@.skip(pos as int));
            match s {
                Option::Some(p) => match r {
                    Option::Some(q) => q.0@ == p.0 && pos <= q.1 <= b@.len()
                        && b@.skip(q.1 as int) == p.1,
                    Option::None => false,
                },
                Option::None => r is None,
            }
        }),
{
    let count = match decode_compact(b, pos) {
        Option::Some(p) => p,
        Option::None => { return Option::None; },
    };
    let mut entries: Vec<QueueEntry> = Vec::new();
    let mut cur: usize = count.1;
    let mut remaining: u32 = count.0;
    loop
        invariant
            count.1 <= cur <= b@.len(),
            remaining <= count.0,
            entries@.len() == count.0 - remaining,
            ({
                let whole = spec_dec_entries(
                    b@.skip(count.1 as int), count.0 as nat);
                let partial = spec_dec_entries(b@.skip(cur as int), remaining as nat);
                match partial {
                    Option::Some(p) => whole == Option::Some((entries@ + p.0, p.1)),
                    Option::None => whole is None,
                }
            }),
        decreases remaining,
    {
        if remaining == 0 {
            proof {
                assert(entries@ + Seq::<QueueEntry>::empty() =~= entries@);
            }
            return Option::Some((entries, cur));
        }
        match decode_entry(b, cur) {
            Option::Some(p) => {
                let ghost before = entries@;
                entries.push(p.0);
                proof {
                    assert(entries@ =~= before + seq![p.0]);
                    match spec_dec_entries(b@.skip(p.1 as int), (remaining - 1) as nat) {
                        Option::Some(qq) => {
                            vstd::seq_lib::lemma_concat_associative(
                                before, seq![p.0], qq.0);
                        },
                        Option::None => {},
                    }
                }
                cur = p.1;
                remaining = remaining - 1;
            },
            Option::None => {
                return Option::None;
            },
        }
    }
}

} // verus!
