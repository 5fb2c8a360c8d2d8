//! The 12-byte control record: `(promise_id, rid, result)`, each field four
//! bytes in little-endian order.

use vstd::prelude::*;

verus! {

/// Width in bytes of an encoded control record.
pub const RECORD_LEN: usize = 12;

/// One request or response frame.
#[derive(Clone, Copy, Debug, PartialEq, Eq, Structural)]
pub struct Record {
    /// Zero for a synchronous call; otherwise the token that correlates the
    /// later asynchronous response with its request.
    pub promise_id: u32,
    /// The resource the call is about; carried through unchanged.
    pub rid: u32,
    /// Unused in a request; in a response, negative on failure.
    pub result: i32,
}

/// The four little-endian bytes of `x`.
pub open spec fn le_bytes(x: u32) -> Seq<u8> {
    seq![
        (x % 256) as u8,
        ((x / 256) % 256) as u8,
        ((x / 65536) % 256) as u8,
        (x / 16777216) as u8,
    ]
}

/// The value of four little-endian bytes starting at `at`.
pub open spec fn le_value(b: Seq<u8>, at: int) -> int {
    b[at] + 256 * b[at + 1] + 65536 * b[at + 2] + 16777216 * b[at + 3]
}

/// The unsigned 32-bit pattern of a signed result (two's complement).
pub open spec fn result_bits(r: i32) -> u32 {
    if r >= 0 {
        r as u32
    } else {
        (r + 4294967296) as u32
    }
}

/// The signed result that a 32-bit pattern stands for (two's complement).
pub open spec fn result_of_bits(u: int) -> i32 {
    if u < 2147483648 {
        u as i32
    } else {
        (u - 4294967296) as i32
    }
}

/// The wire form of a record: its three fields in order, no padding.
pub open spec fn encode_spec(r: Record) -> Seq<u8> {
    le_bytes(r.promise_id) + le_bytes(r.rid) + le_bytes(result_bits(r.result))
}

/// The record that 12 bytes stand for.
pub open spec fn decode_spec(b: Seq<u8>) -> Record {
    Record {
        promise_id: le_value(b, 0) as u32,
        rid: le_value(b, 4) as u32,
        result: result_of_bits(le_value(b, 8)),
    }
}

proof fn lemma_le_round_trip(x: u32)
    ensures
        le_value(le_bytes(x), 0) == x,
{
    let b = le_bytes(x);
    assert(b[0] == x % 256);
    assert(b[1] == (x / 256) % 256);
    assert(b[2] == (x / 65536) % 256);
    assert(b[3] == x / 16777216);
    assert(x == x % 256 + 256 * ((x / 256) % 256) + 65536 * ((x / 65536) % 256) + 16777216 * (x
        / 16777216)) by (nonlinear_arith);
}

/// Decoding the encoding of any record gives the record back.
pub proof fn lemma_round_trip(r: Record)
    ensures
        decode_spec(encode_spec(r)) == r,
{
    let b = encode_spec(r);
    lemma_le_round_trip(r.promise_id);
    lemma_le_round_trip(r.rid);
    lemma_le_round_trip(result_bits(r.result));
    assert(b.subrange(0, 4) == le_bytes(r.promise_id));
    assert(b.subrange(4, 8) == le_bytes(r.rid));
    assert(b.subrange(8, 12) == le_bytes(result_bits(r.result)));
    assert(le_value(b, 0) == le_value(le_bytes(r.promise_id), 0));
    assert(le_value(b, 4) == le_value(le_bytes(r.rid), 0));
    assert(le_value(b, 8) == le_value(le_bytes(result_bits(r.result)), 0));
}

fn put_le(out: &mut Vec<u8>, x: u32)
    ensures
        final(out)@ == old(out)@ + le_bytes(x),
{
    out.push((x % 256) as u8);
    out.push(((x / 256) % 256) as u8);
    out.push(((x / 65536) % 256) as u8);
    out.push((x / 16777216) as u8);
    assert(final(out)@ == old(out)@ + le_bytes(x));
}

fn get_le(b: &[u8], at: usize) -> (r: u32)
    requires
        at + 4 <= b@.len(),
    ensures
        r as int == le_value(b@, at as int),
{
    let v: u32 = b[at] as u32 + 256 * (b[at + 1] as u32) + 65536 * (b[at + 2] as u32) + 16777216 * (
    b[at + 3] as u32);
    v
}

impl Record {
    /// The 12-byte wire form of this record.
    pub fn encode(&self) -> (r: Vec<u8>)
        ensures
            r@ == encode_spec(*self),
            r@.len() == RECORD_LEN,
    {
        let bits: u32 = if self.result >= 0 {
            self.result as u32
        } else {
            (self.result as i64 + 4294967296i64) as u32
        };
        let mut out: Vec<u8> = Vec::with_capacity(RECORD_LEN);
        put_le(&mut out, self.promise_id);
        put_le(&mut out, self.rid);
        put_le(&mut out, bits);
        out
    }

    /// The record held in a control buffer, which must be exactly
    /// `RECORD_LEN` bytes: any other length means the two sides are out of
    /// step, and nothing is guessed.
    pub fn decode(buf: &[u8]) -> (r: Record)
        requires
            buf@.len() == RECORD_LEN,
        ensures
            r == decode_spec(buf@),
    {
        let promise_id = get_le(buf, 0);
        let rid = get_le(buf, 4);
        let bits = get_le(buf, 8);
        let result: i32 = if bits < 2147483648 {
            bits as i32
        } else {
            (bits as i64 - 4294967296i64) as i32
        };
        Record { promise_id, rid, result }
    }
}

} // verus!
