//! Parsing of the ancillary (control) data a Linux socket returns alongside
//! a datagram: a chain of length-prefixed, type-tagged records, from which
//! the transport recovers kernel-generated timestamps and error-queue
//! reports.
//!
//! The layout is the 64-bit little-endian cmsg ABI: each record starts on an
//! 8-byte boundary with a 16-byte header (a 64-bit byte count that includes
//! the header, a 32-bit level, a 32-bit type), followed by its payload. The
//! chain ends where no further well-formed header fits. Records are decoded
//! from a validated byte region only; lengths are checked before any payload
//! byte is interpreted, and records of unknown level or type are preserved
//! as `Other` rather than rejected.

use vstd::arithmetic::div_mod::lemma_fundamental_div_mod;
use vstd::prelude::*;

use crate::time::to_signed_64;

verus! {

/// Socket-level option namespace.
pub const SOL_SOCKET: i32 = 1;

/// The socket option and record type carrying timestamps.
pub const SO_TIMESTAMPING: i32 = 37;

/// The IPv4 option namespace.
pub const SOL_IP: i32 = 0;

/// IPv4 extended-error reports, the error-queue record type.
pub const IP_RECVERR: i32 = 11;

/// The IPv6 option namespace.
pub const SOL_IPV6: i32 = 41;

/// IPv6 extended-error reports.
pub const IPV6_RECVERR: i32 = 25;

/// One record of the control-data chain.
#[derive(Clone, Copy, PartialEq, Eq, Structural, Debug)]
pub enum ControlMessage {
    /// A kernel-captured time: seconds and nanoseconds of the first entry
    /// of the record's timestamp array.
    Timestamping { seconds: i64, nanoseconds: i64 },
    /// A socket extended error, as delivered on the error queue.
    ReceiveError { errno: u32, origin: u8, kind: u8, code: u8, info: u32, data: u32 },
    /// Any other record, kept by its tag so callers can skip it.
    Other { level: i32, message_type: i32 },
}

/// The unsigned value of four little-endian bytes at `p`.
pub open spec fn le_u32(s: Seq<u8>, p: int) -> int
    recommends
        0 <= p,
        p + 4 <= s.len(),
{
    s[p] + 0x100 * s[p + 1] + 0x1_0000 * s[p + 2] + 0x100_0000 * s[p + 3]
}

/// The unsigned value of eight little-endian bytes at `p`.
pub open spec fn le_u64(s: Seq<u8>, p: int) -> int
    recommends
        0 <= p,
        p + 8 <= s.len(),
{
    le_u32(s, p) + 0x1_0000_0000 * le_u32(s, p + 4)
}

/// The signed 32-bit reading of an unsigned 32-bit value.
pub open spec fn to_signed_32(x: int) -> int
    recommends
        0 <= x < 0x1_0000_0000,
{
    if x >= 0x8000_0000 {
        x - 0x1_0000_0000
    } else {
        x
    }
}

/// The record whose header starts at `p`, decoded by its level and type.
/// A timestamping or extended-error record too short for its payload is
/// kept as `Other`.
pub open spec fn spec_message_at(s: Seq<u8>, p: int) -> ControlMessage
    recommends
        0 <= p,
        p + 16 <= s.len(),
        le_u64(s, p) <= s.len() - p,
{
    let len = le_u64(s, p);
    let level = to_signed_32(le_u32(s, p + 8));
    let message_type = to_signed_32(le_u32(s, p + 12));
    if level == SOL_SOCKET && message_type == SO_TIMESTAMPING && len >= 32 {
        ControlMessage::Timestamping {
            seconds: to_signed_64(le_u64(s, p + 16)) as i64,
            nanoseconds: to_signed_64(le_u64(s, p + 24)) as i64,
        }
    } else if ((level == SOL_IP && message_type == IP_RECVERR) || (level == SOL_IPV6
        && message_type == IPV6_RECVERR)) && len >= 32 {
        ControlMessage::ReceiveError {
            errno: le_u32(s, p + 16) as u32,
            origin: s[p + 20],
            kind: s[p + 21],
            code: s[p + 22],
            info: le_u32(s, p + 24) as u32,
            data: le_u32(s, p + 28) as u32,
        }
    } else {
        ControlMessage::Other { level: level as i32, message_type: message_type as i32 }
    }
}

/// The records of the chain from byte `p` on: one per well-formed header,
/// each followed at the next 8-byte boundary past its declared length,
/// stopping where no further record fits.
pub open spec fn spec_parse_from(s: Seq<u8>, p: int) -> Seq<ControlMessage>
    recommends
        0 <= p <= s.len(),
    decreases s.len() - p,
{
    if p < 0 || p + 16 > s.len() {
        Seq::empty()
    } else {
        let len = le_u64(s, p);
        if len < 16 || len > s.len() - p {
            Seq::empty()
        } else {
            let msg = spec_message_at(s, p);
            let aligned = len + ((8 - len % 8) % 8);
            if aligned > s.len() - p {
                seq![msg]
            } else {
                seq![msg] + spec_parse_from(s, p + aligned)
            }
        }
    }
}

/// Four little-endian bytes at `p` as an unsigned 32-bit value.
fn read_u32_le(buf: &[u8], p: usize) -> (r: u32)
    requires
        p + 4 <= buf@.len(),
    ensures
        r == le_u32(buf@, p as int),
{
    (buf[p] as u32) + 0x100 * (buf[p + 1] as u32) + 0x1_0000 * (buf[p + 2] as u32) + 0x100_0000
        * (buf[p + 3] as u32)
}

/// Eight little-endian bytes at `p` as an unsigned 64-bit value.
fn read_u64_le(buf: &[u8], p: usize) -> (r: u64)
    requires
        p + 8 <= buf@.len(),
    ensures
        r == le_u64(buf@, p as int),
{
    let _len: usize = buf.len();
    (read_u32_le(buf, p) as u64) + 0x1_0000_0000u64 * (read_u32_le(buf, p + 4) as u64)
}

/// Four little-endian bytes at `p` as a signed 32-bit value.
fn read_i32_le(buf: &[u8], p: usize) -> (r: i32)
    requires
        p + 4 <= buf@.len(),
    ensures
        r as int == to_signed_32(le_u32(buf@, p as int)),
{
    let w = read_u32_le(buf, p);
    if w >= 0x8000_0000 {
        ((w - 0x8000_0000) as i32) + i32::MIN
    } else {
        w as i32
    }
}

/// Eight little-endian bytes at `p` as a signed 64-bit value.
fn read_i64_le(buf: &[u8], p: usize) -> (r: i64)
    requires
        p + 8 <= buf@.len(),
    ensures
        r as int == to_signed_64(le_u64(buf@, p as int)),
{
    let w = read_u64_le(buf, p);
    if w >= 0x8000_0000_0000_0000 {
        ((w - 0x8000_0000_0000_0000) as i64) + i64::MIN
    } else {
        w as i64
    }
}

/// Decode the record whose header starts at `p`.
fn read_message(buf: &[u8], p: usize, len: u64) -> (r: ControlMessage)
    requires
        16 <= len,
        p + len <= buf@.len(),
        le_u64(buf@, p as int) == len,
    ensures
        r == spec_message_at(buf@, p as int),
{
    let _len: usize = buf.len();
    let level = read_i32_le(buf, p + 8);
    let message_type = read_i32_le(buf, p + 12);
    if level == SOL_SOCKET && message_type == SO_TIMESTAMPING && len >= 32 {
        ControlMessage::Timestamping {
            seconds: read_i64_le(buf, p + 16),
            nanoseconds: read_i64_le(buf, p + 24),
        }
    } else if ((level == SOL_IP && message_type == IP_RECVERR) || (level == SOL_IPV6
        && message_type == IPV6_RECVERR)) && len >= 32 {
        ControlMessage::ReceiveError {
            errno: read_u32_le(buf, p + 16),
            origin: buf[p + 20],
            kind: buf[p + 21],
            code: buf[p + 22],
            info: read_u32_le(buf, p + 24),
            data: read_u32_le(buf, p + 28),
        }
    } else {
        ControlMessage::Other { level, message_type }
    }
}

/// Walk the control-data region and decode every record of the chain.
pub fn parse_control_messages(buf: &[u8]) -> (r: Vec<ControlMessage>)
    ensures
        r@ == spec_parse_from(buf@, 0),
{
    let n = buf.len();
    let mut r: Vec<ControlMessage> = Vec::new();
    let mut p: usize = 0;
    let mut done: bool = false;
    while !done
        invariant
            0 <= p <= n,
            n == buf@.len(),
            !done ==> spec_parse_from(buf@, 0) == r@ + spec_parse_from(buf@, p as int),
            done ==> r@ == spec_parse_from(buf@, 0),
        decreases (n - p) + (if done {
            0int
        } else {
            1int
        }),
    {
        if n - p < 16 {
            proof {
                assert(spec_parse_from(buf@, p as int) =~= Seq::<ControlMessage>::empty());
                assert(r@ =~= r@ + Seq::<ControlMessage>::empty());
            }
            done = true;
        } else {
            let len = read_u64_le(buf, p);
            if len < 16 || len > (n - p) as u64 {
                proof {
                    assert(spec_parse_from(buf@, p as int) =~= Seq::<ControlMessage>::empty());
                    assert(r@ =~= r@ + Seq::<ControlMessage>::empty());
                }
                done = true;
            } else {
                let ghost r_before = r@;
                let msg = read_message(buf, p, len);
                r.push(msg);
                let lenu = len as usize;
                let pad: usize = (8 - lenu % 8) % 8;
                if pad > n - p - lenu {
                    proof {
                        assert(spec_parse_from(buf@, p as int) =~= seq![msg]);
                        assert(r@ =~= r_before + seq![msg]);
                    }
                    done = true;
                } else {
                    proof {
                        assert(spec_parse_from(buf@, p as int) =~= seq![msg] + spec_parse_from(
                            buf@,
                            p + lenu + pad,
                        ));
                        assert(r_before + (seq![msg] + spec_parse_from(buf@, p + lenu + pad))
                            =~= (r_before + seq![msg]) + spec_parse_from(buf@, p + lenu + pad));
                    }
                    p = p + lenu + pad;
                }
            }
        }
    }
    r
}

/// Append eight little-endian bytes encoding `w`.
fn push_u64_le(v: &mut Vec<u8>, w: u64)
    ensures
        final(v)@.len() == old(v)@.len() + 8,
        forall|i: int| 0 <= i < old(v)@.len() ==> final(v)@[i] == old(v)@[i],
        le_u64(final(v)@, old(v)@.len() as int) == w,
{
    let b0 = (w % 0x100) as u8;
    let w1 = w / 0x100;
    let b1 = (w1 % 0x100) as u8;
    let w2 = w1 / 0x100;
    let b2 = (w2 % 0x100) as u8;
    let w3 = w2 / 0x100;
    let b3 = (w3 % 0x100) as u8;
    let w4 = w3 / 0x100;
    let b4 = (w4 % 0x100) as u8;
    let w5 = w4 / 0x100;
    let b5 = (w5 % 0x100) as u8;
    let w6 = w5 / 0x100;
    let b6 = (w6 % 0x100) as u8;
    let w7 = w6 / 0x100;
    let b7 = (w7 % 0x100) as u8;
    proof {
        lemma_fundamental_div_mod(w as int, 0x100);
        lemma_fundamental_div_mod(w1 as int, 0x100);
        lemma_fundamental_div_mod(w2 as int, 0x100);
        lemma_fundamental_div_mod(w3 as int, 0x100);
        lemma_fundamental_div_mod(w4 as int, 0x100);
        lemma_fundamental_div_mod(w5 as int, 0x100);
        lemma_fundamental_div_mod(w6 as int, 0x100);
        assert(w7 < 0x100) by {
            assert(w as int / 0x100_0000_0000_0000 < 0x100);
            vstd::arithmetic::div_mod::lemma_div_denominator(w as int, 0x100, 0x100);
        }
    }
    v.push(b0);
    v.push(b1);
    v.push(b2);
    v.push(b3);
    v.push(b4);
    v.push(b5);
    v.push(b6);
    v.push(b7);
}

/// Append four little-endian bytes encoding `w`.
fn push_u32_le(v: &mut Vec<u8>, w: u32)
    ensures
        final(v)@.len() == old(v)@.len() + 4,
        forall|i: int| 0 <= i < old(v)@.len() ==> final(v)@[i] == old(v)@[i],
        le_u32(final(v)@, old(v)@.len() as int) == w,
{
    let b0 = (w % 0x100) as u8;
    let w1 = w / 0x100;
    let b1 = (w1 % 0x100) as u8;
    let w2 = w1 / 0x100;
    let b2 = (w2 % 0x100) as u8;
    let w3 = w2 / 0x100;
    proof {
        lemma_fundamental_div_mod(w as int, 0x100);
        lemma_fundamental_div_mod(w1 as int, 0x100);
        lemma_fundamental_div_mod(w2 as int, 0x100);
    }
    v.push(b0);
    v.push(b1);
    v.push(b2);
    v.push((w3 % 0x100) as u8);
}

/// Build the byte region the kernel would hand back for one timestamping
/// record: a 64-byte record (16-byte header, then an array of three
/// second/nanosecond pairs of which the first carries the capture time).
/// Lets callers and tests exercise the parser on known input.
pub fn encode_timestamp_message(seconds: i64, nanoseconds: i64) -> (r: Vec<u8>)
    ensures
        r@.len() == 64,
        le_u64(r@, 0) == 64,
        to_signed_32(le_u32(r@, 8)) == SOL_SOCKET,
        to_signed_32(le_u32(r@, 12)) == SO_TIMESTAMPING,
        to_signed_64(le_u64(r@, 16)) == seconds,
        to_signed_64(le_u64(r@, 24)) == nanoseconds,
        forall|i: int| 32 <= i < 64 ==> r@[i] == 0,
{
    let mut v: Vec<u8> = Vec::new();
    push_u64_le(&mut v, 64);
    push_u32_le(&mut v, 1);
    push_u32_le(&mut v, 37);
    let ws: u64 = (((seconds as i128) + 0x1_0000_0000_0000_0000i128) % 0x1_0000_0000_0000_0000i128)
        as u64;
    let wn: u64 = (((nanoseconds as i128) + 0x1_0000_0000_0000_0000i128)
        % 0x1_0000_0000_0000_0000i128) as u64;
    push_u64_le(&mut v, ws);
    push_u64_le(&mut v, wn);
    push_u64_le(&mut v, 0);
    push_u64_le(&mut v, 0);
    push_u64_le(&mut v, 0);
    push_u64_le(&mut v, 0);
    proof {
        assert forall|i: int| 32 <= i < 64 implies v@[i] == 0 by {
            let base = 32 + ((i - 32) / 8) * 8;
            assert(le_u64(v@, base) == 0);
            assert(v@[base] + 0x100 * v@[base + 1] + 0x1_0000 * v@[base + 2] + 0x100_0000 * v@[base
                + 3] + 0x1_0000_0000 * (v@[base + 4] + 0x100 * v@[base + 5] + 0x1_0000 * v@[base
                + 6] + 0x100_0000 * v@[base + 7]) == 0);
        }
    }
    v
}

/// A record whose header declares the whole region, tagged as a socket
/// timestamp, decodes to exactly one `Timestamping` record carrying the
/// encoded seconds and nanoseconds - bit for bit, with no precision loss.
pub proof fn lemma_timestamp_round_trip(s: Seq<u8>)
    requires
        s.len() >= 32,
        le_u64(s, 0) == s.len(),
        s.len() % 8 == 0,
        to_signed_32(le_u32(s, 8)) == SOL_SOCKET,
        to_signed_32(le_u32(s, 12)) == SO_TIMESTAMPING,
    ensures
        spec_parse_from(s, 0) =~= seq![
            ControlMessage::Timestamping {
                seconds: to_signed_64(le_u64(s, 16)) as i64,
                nanoseconds: to_signed_64(le_u64(s, 24)) as i64,
            },
        ],
{
    let len = le_u64(s, 0);
    assert(len % 8 == 0);
    assert((8 - len % 8) % 8 == 0);
    assert(len + ((8 - len % 8) % 8) == len);
    assert(spec_parse_from(s, len) =~= Seq::<ControlMessage>::empty());
    assert(spec_message_at(s, 0) == (ControlMessage::Timestamping {
        seconds: to_signed_64(le_u64(s, 16)) as i64,
        nanoseconds: to_signed_64(le_u64(s, 24)) as i64,
    }));
    assert(spec_parse_from(s, 0) =~= seq![spec_message_at(s, 0)] + spec_parse_from(s, len));
}

} // verus!
