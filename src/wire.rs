//! Little-endian field encoding, the two-accumulator frame checksum, and the
//! frame layout `[sync1][sync2][class][id][len:u16][payload][ck_a][ck_b]`.
use vstd::prelude::*;

verus! {

pub const SYNC1: u8 = 0xB5;

pub const SYNC2: u8 = 0x62;

/// A packet before framing: class, id and payload bytes.
#[derive(Clone, Debug)]
pub struct UbxPacket {
    pub class: u8,
    pub id: u8,
    pub payload: Vec<u8>,
}

impl View for UbxPacket {
    type V = (u8, u8, Seq<u8>);

    open spec fn view(&self) -> (u8, u8, Seq<u8>) {
        (self.class, self.id, self.payload@)
    }
}

pub open spec fn le16(x: u16) -> Seq<u8> {
    seq![(x & 0xff) as u8, (x >> 8) as u8]
}

pub open spec fn le32(x: u32) -> Seq<u8> {
    seq![(x & 0xff) as u8, ((x >> 8) & 0xff) as u8, ((x >> 16) & 0xff) as u8, (x >> 24) as u8]
}

pub open spec fn u16_of(a: u8, b: u8) -> u16 {
    (a as u16) | ((b as u16) << 8)
}

pub open spec fn u32_of(a: u8, b: u8, c: u8, d: u8) -> u32 {
    (a as u32) | ((b as u32) << 8) | ((c as u32) << 16) | ((d as u32) << 24)
}

pub open spec fn u16_at(p: Seq<u8>, o: int) -> u16 {
    u16_of(p[o], p[o + 1])
}

pub open spec fn u32_at(p: Seq<u8>, o: int) -> u32 {
    u32_of(p[o], p[o + 1], p[o + 2], p[o + 3])
}

pub proof fn lemma_u16_round_trip(x: u16)
    ensures
        u16_of((x & 0xff) as u8, (x >> 8) as u8) == x,
{
    assert(((x & 0xff) as u8 as u16) | (((x >> 8) as u8 as u16) << 8) == x) by (bit_vector);
}

pub proof fn lemma_u32_round_trip(x: u32)
    ensures
        u32_of((x & 0xff) as u8, ((x >> 8) & 0xff) as u8, ((x >> 16) & 0xff) as u8, (x >> 24) as u8)
            == x,
{
    assert(((x & 0xff) as u8 as u32) | ((((x >> 8) & 0xff) as u8 as u32) << 8) | ((((x >> 16)
        & 0xff) as u8 as u32) << 16) | (((x >> 24) as u8 as u32) << 24) == x) by (bit_vector);
}

pub proof fn lemma_i32_round_trip(x: i32)
    ensures
        (x as u32) as i32 == x,
{
    assert((x as u32) as i32 == x) by (bit_vector);
}

pub proof fn lemma_i16_round_trip(x: i16)
    ensures
        (x as u16) as i16 == x,
{
    assert((x as u16) as i16 == x) by (bit_vector);
}

pub fn get_u16(p: &Vec<u8>, o: usize) -> (r: u16)
    requires
        o + 2 <= p.len(),
    ensures
        r == u16_at(p@, o as int),
{
    (p[o] as u16) | ((p[o + 1] as u16) << 8)
}

pub fn get_u32(p: &Vec<u8>, o: usize) -> (r: u32)
    requires
        o + 4 <= p.len(),
    ensures
        r == u32_at(p@, o as int),
{
    (p[o] as u32) | ((p[o + 1] as u32) << 8) | ((p[o + 2] as u32) << 16) | ((p[o + 3] as u32) << 24)
}

pub fn put_u8(v: &mut Vec<u8>, x: u8)
    ensures
        final(v)@ == old(v)@ + seq![x],
{
    v.push(x);
    assert(final(v)@ =~= old(v)@ + seq![x]);
}

pub fn put_u16(v: &mut Vec<u8>, x: u16)
    ensures
        final(v)@ == old(v)@ + le16(x),
{
    v.push((x & 0xff) as u8);
    v.push((x >> 8) as u8);
    assert(final(v)@ =~= old(v)@ + le16(x));
}

pub fn put_u32(v: &mut Vec<u8>, x: u32)
    ensures
        final(v)@ == old(v)@ + le32(x),
{
    v.push((x & 0xff) as u8);
    v.push(((x >> 8) & 0xff) as u8);
    v.push(((x >> 16) & 0xff) as u8);
    v.push((x >> 24) as u8);
    assert(final(v)@ =~= old(v)@ + le32(x));
}

/// One step of the checksum: `ck_a += byte; ck_b += ck_a`, both modulo 256.
pub open spec fn ck_step(ck: (u8, u8), b: u8) -> (u8, u8) {
    let a = ((ck.0 as int + b as int) % 256) as u8;
    (a, ((ck.1 as int + a as int) % 256) as u8)
}

/// The checksum pair of a byte sequence, seeded at zero.
pub open spec fn checksum(s: Seq<u8>) -> (u8, u8)
    decreases s.len(),
{
    if s.len() == 0 {
        (0, 0)
    } else {
        ck_step(checksum(s.drop_last()), s.last())
    }
}

pub fn ck_update(ck: (u8, u8), b: u8) -> (r: (u8, u8))
    ensures
        r == ck_step(ck, b),
{
    let a = ((ck.0 as u16 + b as u16) % 256) as u8;
    (a, ((ck.1 as u16 + a as u16) % 256) as u8)
}

/// The bytes that the checksum covers: class, id, the 16-bit length, the payload.
pub open spec fn frame_body(class: u8, id: u8, payload: Seq<u8>) -> Seq<u8> {
    seq![class, id] + le16(payload.len() as u16) + payload
}

/// The full frame of a packet.
pub open spec fn frame_bytes(class: u8, id: u8, payload: Seq<u8>) -> Seq<u8> {
    let body = frame_body(class, id, payload);
    let ck = checksum(body);
    seq![SYNC1, SYNC2] + body + seq![ck.0, ck.1]
}

impl UbxPacket {
    /// The frame of this packet, ready for the link.
    pub fn serialize(&self) -> (r: Vec<u8>)
        requires
            self.payload@.len() <= 0xffff,
        ensures
            r@ == frame_bytes(self.class, self.id, self.payload@),
    {
        let mut body: Vec<u8> = Vec::new();
        put_u8(&mut body, self.class);
        put_u8(&mut body, self.id);
        put_u16(&mut body, self.payload.len() as u16);
        let mut i: usize = 0;
        while i < self.payload.len()
            invariant
                i <= self.payload@.len(),
                body@ == seq![self.class, self.id] + le16(self.payload@.len() as u16)
                    + self.payload@.take(i as int),
            decreases self.payload@.len() - i,
        {
            body.push(self.payload[i]);
            assert(self.payload@.take(i as int + 1) =~= self.payload@.take(i as int).push(
                self.payload[i as int],
            ));
            i = i + 1;
        }
        assert(self.payload@.take(i as int) =~= self.payload@);
        let mut ck: (u8, u8) = (0, 0);
        let mut j: usize = 0;
        while j < body.len()
            invariant
                j <= body@.len(),
                ck == checksum(body@.take(j as int)),
            decreases body@.len() - j,
        {
            assert(body@.take(j as int + 1).drop_last() =~= body@.take(j as int));
            ck = ck_update(ck, body[j]);
            j = j + 1;
        }
        assert(body@.take(j as int) =~= body@);
        let mut out: Vec<u8> = Vec::new();
        put_u8(&mut out, SYNC1);
        put_u8(&mut out, SYNC2);
        let mut k: usize = 0;
        while k < body.len()
            invariant
                k <= body@.len(),
                out@ == seq![SYNC1, SYNC2] + body@.take(k as int),
            decreases body@.len() - k,
        {
            out.push(body[k]);
            assert(body@.take(k as int + 1) =~= body@.take(k as int).push(body[k as int]));
            k = k + 1;
        }
        assert(body@.take(k as int) =~= body@);
        put_u8(&mut out, ck.0);
        put_u8(&mut out, ck.1);
        out
    }
}

} // verus!

verus! {

/// A fresh vector holding `p[lo..hi]`.
pub fn copy_range(p: &Vec<u8>, lo: usize, hi: usize) -> (r: Vec<u8>)
    requires
        lo <= hi <= p.len(),
    ensures
        r@ == p@.subrange(lo as int, hi as int),
{
    let mut r: Vec<u8> = Vec::new();
    let mut i: usize = lo;
    while i < hi
        invariant
            lo <= i <= hi <= p@.len(),
            r@ == p@.subrange(lo as int, i as int),
        decreases hi - i,
    {
        r.push(p[i]);
        assert(p@.subrange(lo as int, i + 1) =~= p@.subrange(lo as int, i as int).push(p@[i as int]));
        i = i + 1;
    }
    r
}

/// Appends every byte of `s` to `v`.
pub fn put_all(v: &mut Vec<u8>, s: &Vec<u8>)
    ensures
        final(v)@ == old(v)@ + s@,
{
    let mut i: usize = 0;
    while i < s.len()
        invariant
            i <= s@.len(),
            v@ == old(v)@ + s@.take(i as int),
        decreases s@.len() - i,
    {
        v.push(s[i]);
        assert(s@.take(i + 1) =~= s@.take(i as int).push(s@[i as int]));
        i = i + 1;
    }
    assert(s@.take(i as int) =~= s@);
}

} // verus!
