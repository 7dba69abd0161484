//! The stream framer: turns an arbitrarily chunked, possibly corrupted byte
//! stream into validated frames, resynchronising silently on corruption.
use vstd::prelude::*;
use crate::wire::{SYNC1, SYNC2, checksum, ck_step, ck_update, frame_body, frame_bytes, le16, UbxPacket};
use crate::packets::{
    decode, decode_model, encode_model, lemma_codec_round_trip, valid_model, DecodeError, Packet,
    PacketModel,
};

verus! {

/// Where the framer stands within a frame.
#[derive(Clone, Copy, Debug, PartialEq, Eq, Structural)]
pub enum Phase {
    Sync1,
    Sync2,
    Class,
    Id,
    LenLo,
    LenHi,
    Payload,
    Ck1,
    Ck2,
}

/// Frames that declare a longer payload are treated as corrupt.
pub const MAX_PAYLOAD: u16 = 1024;

/// The framer's state between bytes.
pub struct ScanState {
    pub phase: Phase,
    pub class: u8,
    pub id: u8,
    pub len: u16,
    pub payload: Seq<u8>,
    pub ck_a: u8,
    pub ck_b: u8,
    pub ck1: u8,
}

/// A frame whose checksum matched.
pub struct RawFrame {
    pub class: u8,
    pub id: u8,
    pub payload: Seq<u8>,
}

/// The effect of one byte on the framer.
pub open spec fn step(st: ScanState, b: u8) -> (ScanState, Option<RawFrame>) {
    match st.phase {
        Phase::Sync1 => (
            if b == SYNC1 { ScanState { phase: Phase::Sync2, ..st } } else { st },
            None,
        ),
        Phase::Sync2 => (
            if b == SYNC2 {
                ScanState { phase: Phase::Class, ..st }
            } else if b == SYNC1 {
                st
            } else {
                ScanState { phase: Phase::Sync1, ..st }
            },
            None,
        ),
        Phase::Class => {
            let ck = ck_step((0, 0), b);
            (ScanState { phase: Phase::Id, class: b, ck_a: ck.0, ck_b: ck.1, ..st }, None)
        },
        Phase::Id => {
            let ck = ck_step((st.ck_a, st.ck_b), b);
            (ScanState { phase: Phase::LenLo, id: b, ck_a: ck.0, ck_b: ck.1, ..st }, None)
        },
        Phase::LenLo => {
            let ck = ck_step((st.ck_a, st.ck_b), b);
            (ScanState { phase: Phase::LenHi, len: b as u16, ck_a: ck.0, ck_b: ck.1, ..st }, None)
        },
        Phase::LenHi => {
            let ck = ck_step((st.ck_a, st.ck_b), b);
            let len = (st.len + 256 * b) as u16;
            let phase = if len > MAX_PAYLOAD {
                Phase::Sync1
            } else if len == 0 {
                Phase::Ck1
            } else {
                Phase::Payload
            };
            (ScanState { phase, len, payload: Seq::empty(), ck_a: ck.0, ck_b: ck.1, ..st }, None)
        },
        Phase::Payload => {
            let ck = ck_step((st.ck_a, st.ck_b), b);
            let payload = st.payload.push(b);
            let phase = if payload.len() >= st.len { Phase::Ck1 } else { Phase::Payload };
            (ScanState { phase, payload, ck_a: ck.0, ck_b: ck.1, ..st }, None)
        },
        Phase::Ck1 => (ScanState { phase: Phase::Ck2, ck1: b, ..st }, None),
        Phase::Ck2 => (
            ScanState { phase: Phase::Sync1, ..st },
            if st.ck_a == st.ck1 && st.ck_b == b {
                Some(RawFrame { class: st.class, id: st.id, payload: st.payload })
            } else {
                None
            },
        ),
    }
}

/// Feeds bytes until a frame is emitted or the bytes run out: the state after,
/// the frame if any, and how many bytes were used.
pub open spec fn feed(st: ScanState, s: Seq<u8>) -> (ScanState, Option<RawFrame>, nat)
    decreases s.len(),
{
    if s.len() == 0 {
        (st, None, 0)
    } else {
        let (st2, f) = step(st, s[0]);
        if f is Some {
            (st2, f, 1)
        } else {
            let r = feed(st2, s.drop_first());
            (r.0, r.1, r.2 + 1)
        }
    }
}

/// What the framer hands back for a frame: nothing, a packet, or a decode error.
pub open spec fn emitted(f: Option<RawFrame>) -> Result<Option<PacketModel>, DecodeError> {
    match f {
        None => Ok(None),
        Some(fr) => match decode_model(fr.class, fr.id, fr.payload) {
            Ok(m) => Ok(Some(m)),
            Err(e) => Err(e),
        },
    }
}

pub open spec fn emitted_view(r: Result<Option<Packet>, DecodeError>) -> Result<
    Option<PacketModel>,
    DecodeError,
> {
    match r {
        Ok(Some(p)) => Ok(Some(p@)),
        Ok(None) => Ok(None),
        Err(e) => Err(e),
    }
}

/// The framer's state at power-on.
pub open spec fn idle() -> ScanState {
    ScanState {
        phase: Phase::Sync1,
        class: 0,
        id: 0,
        len: 0,
        payload: Seq::empty(),
        ck_a: 0,
        ck_b: 0,
        ck1: 0,
    }
}

/// One call of `consume` on a framer seen as its state and its unread bytes.
pub open spec fn consume_model(sv: (ScanState, Seq<u8>), bytes: Seq<u8>) -> (
    (ScanState, Seq<u8>),
    Option<RawFrame>,
) {
    let input = sv.1 + bytes;
    let (st, f, n) = feed(sv.0, input);
    ((st, input.skip(n as int)), f)
}

/// The framer: its scanning state and the bytes handed in but not yet
/// scanned, which the next call of `consume` scans first.
pub struct Segmenter {
    phase: Phase,
    class: u8,
    id: u8,
    len: u16,
    payload: Vec<u8>,
    ck_a: u8,
    ck_b: u8,
    ck1: u8,
    pending: Vec<u8>,
}

impl View for Segmenter {
    /// The scanning state, and the bytes received but not yet scanned.
    type V = (ScanState, Seq<u8>);

    closed spec fn view(&self) -> (ScanState, Seq<u8>) {
        (
            ScanState {
                phase: self.phase,
                class: self.class,
                id: self.id,
                len: self.len,
                payload: self.payload@,
                ck_a: self.ck_a,
                ck_b: self.ck_b,
                ck1: self.ck1,
            },
            self.pending@,
        )
    }
}

impl Segmenter {
    pub fn new() -> (r: Segmenter)
        ensures
            r@ == (idle(), Seq::<u8>::empty()),
    {
        Segmenter {
            phase: Phase::Sync1,
            class: 0,
            id: 0,
            len: 0,
            payload: Vec::new(),
            ck_a: 0,
            ck_b: 0,
            ck1: 0,
            pending: Vec::new(),
        }
    }

    fn step_byte(&mut self, b: u8) -> (r: Option<UbxPacket>)
        ensures
            final(self)@.1 == old(self)@.1,
            final(self)@.0 == step(old(self)@.0, b).0,
            match step(old(self)@.0, b).1 {
                None => r is None,
                Some(fr) => r is Some && r->0@ == (fr.class, fr.id, fr.payload),
            },
    {
        match self.phase {
            Phase::Sync1 => {
                if b == SYNC1 {
                    self.phase = Phase::Sync2;
                }
                None
            },
            Phase::Sync2 => {
                if b == SYNC2 {
                    self.phase = Phase::Class;
                } else if b != SYNC1 {
                    self.phase = Phase::Sync1;
                }
                None
            },
            Phase::Class => {
                let ck = ck_update((0, 0), b);
                self.phase = Phase::Id;
                self.class = b;
                self.ck_a = ck.0;
                self.ck_b = ck.1;
                None
            },
            Phase::Id => {
                let ck = ck_update((self.ck_a, self.ck_b), b);
                self.phase = Phase::LenLo;
                self.id = b;
                self.ck_a = ck.0;
                self.ck_b = ck.1;
                None
            },
            Phase::LenLo => {
                let ck = ck_update((self.ck_a, self.ck_b), b);
                self.phase = Phase::LenHi;
                self.len = b as u16;
                self.ck_a = ck.0;
                self.ck_b = ck.1;
                None
            },
            Phase::LenHi => {
                let ck = ck_update((self.ck_a, self.ck_b), b);
                let len: u16 = (self.len as u32 + 256 * (b as u32)) as u16;
                self.phase = if len > MAX_PAYLOAD {
                    Phase::Sync1
                } else if len == 0 {
                    Phase::Ck1
                } else {
                    Phase::Payload
                };
                self.len = len;
                self.payload = Vec::new();
                self.ck_a = ck.0;
                self.ck_b = ck.1;
                assert(self.payload@ =~= Seq::<u8>::empty());
                None
            },
            Phase::Payload => {
                let ck = ck_update((self.ck_a, self.ck_b), b);
                self.payload.push(b);
                if self.payload.len() >= self.len as usize {
                    self.phase = Phase::Ck1;
                }
                self.ck_a = ck.0;
                self.ck_b = ck.1;
                None
            },
            Phase::Ck1 => {
                self.phase = Phase::Ck2;
                self.ck1 = b;
                None
            },
            Phase::Ck2 => {
                self.phase = Phase::Sync1;
                if self.ck_a == self.ck1 && self.ck_b == b {
                    let payload = crate::wire::copy_range(&self.payload, 0, self.payload.len());
                    assert(payload@ =~= self.payload@);
                    Some(UbxPacket { class: self.class, id: self.id, payload })
                } else {
                    None
                }
            },
        }
    }
}

} // verus!

verus! {

proof fn lemma_feed_skip(st: ScanState, s: Seq<u8>, i: int)
    requires
        0 <= i < s.len(),
        step(st, s[i]).1 is None,
    ensures
        feed(st, s.skip(i)) == ({
            let r = feed(step(st, s[i]).0, s.skip(i + 1));
            (r.0, r.1, (r.2 + 1) as nat)
        }),
{
    assert(s.skip(i).drop_first() =~= s.skip(i + 1));
}

impl Segmenter {
    /// Scans the bytes left over from the previous call and then `bytes`, up
    /// to and including the first frame whose checksum matches; the bytes
    /// after it wait for the next call.
    pub fn consume(&mut self, bytes: &[u8]) -> (r: Result<Option<Packet>, DecodeError>)
        ensures
            final(self)@ == consume_model(old(self)@, bytes@).0,
            emitted_view(r) == emitted(consume_model(old(self)@, bytes@).1),
    {
        let ghost st0 = self@.0;
        let mut input: Vec<u8> = Vec::new();
        crate::wire::put_all(&mut input, &self.pending);
        let mut k: usize = 0;
        while k < bytes.len()
            invariant
                k <= bytes@.len(),
                input@ == old(self)@.1 + bytes@.take(k as int),
            decreases bytes@.len() - k,
        {
            input.push(bytes[k]);
            assert(bytes@.take(k + 1) =~= bytes@.take(k as int).push(bytes@[k as int]));
            k = k + 1;
        }
        assert(bytes@.take(k as int) =~= bytes@);
        let mut i: usize = 0;
        let mut found: Option<UbxPacket> = None;
        assert(input@.skip(0) =~= input@);
        while i < input.len() && found.is_none()
            invariant
                i <= input@.len(),
                self@.1 == old(self)@.1,
                found is None ==> feed(st0, input@) == ({
                    let r = feed(self@.0, input@.skip(i as int));
                    (r.0, r.1, (r.2 + i) as nat)
                }),
                found is Some ==> ({
                    let r = feed(st0, input@);
                    &&& r.0 == self@.0
                    &&& r.2 == i
                    &&& r.1 is Some
                    &&& found->0@ == (r.1->0.class, r.1->0.id, r.1->0.payload)
                }),
            decreases input@.len() - i,
        {
            let ghost before = self@.0;
            let b = input[i];
            found = self.step_byte(b);
            proof {
                if step(before, b).1 is None {
                    lemma_feed_skip(before, input@, i as int);
                }
            }
            i = i + 1;
        }
        proof {
            if found is None {
                assert(input@.skip(i as int) =~= Seq::<u8>::empty());
            }
        }
        self.pending = crate::wire::copy_range(&input, i, input.len());
        assert(self.pending@ =~= input@.skip(i as int));
        match found {
            None => Ok(None),
            Some(u) => match decode(u.class, u.id, &u.payload) {
                Ok(p) => Ok(Some(p)),
                Err(e) => Err(e),
            },
        }
    }
}

} // verus!

verus! {

/// A frame with the given trailing checksum bytes, whether or not they match.
pub open spec fn framed(class: u8, id: u8, payload: Seq<u8>, x: u8, y: u8) -> Seq<u8> {
    seq![SYNC1, SYNC2] + frame_body(class, id, payload) + seq![x, y]
}

proof fn lemma_feed_len(st: ScanState, s: Seq<u8>)
    ensures
        feed(st, s).2 <= s.len(),
        feed(st, s).1 is None ==> feed(st, s).2 == s.len(),
        feed(st, s).1 is Some ==> feed(st, s).2 >= 1,
    decreases s.len(),
{
    if s.len() > 0 {
        lemma_feed_len(step(st, s[0]).0, s.drop_first());
    }
}

/// Bytes after a quiet stretch are scanned from the state the stretch left.
pub proof fn lemma_feed_append(st: ScanState, a: Seq<u8>, b: Seq<u8>)
    requires
        feed(st, a).1 is None,
    ensures
        feed(st, a + b) == ({
            let r = feed(feed(st, a).0, b);
            (r.0, r.1, (r.2 + a.len()) as nat)
        }),
    decreases a.len(),
{
    if a.len() > 0 {
        assert((a + b).drop_first() =~= a.drop_first() + b);
        assert((a + b)[0] == a[0]);
        lemma_feed_append(step(st, a[0]).0, a.drop_first(), b);
    } else {
        assert(a + b =~= b);
    }
}

/// Bytes after an emitted frame are not looked at.
pub proof fn lemma_feed_prefix(st: ScanState, a: Seq<u8>, b: Seq<u8>)
    requires
        feed(st, a).1 is Some,
    ensures
        feed(st, a + b) == feed(st, a),
    decreases a.len(),
{
    assert(a.len() > 0);
    assert((a + b).drop_first() =~= a.drop_first() + b);
    assert((a + b)[0] == a[0]);
    if step(st, a[0]).1 is None {
        lemma_feed_prefix(step(st, a[0]).0, a.drop_first(), b);
    }
}

proof fn lemma_checksum_take(s: Seq<u8>, k: int)
    requires
        0 <= k < s.len(),
    ensures
        checksum(s.take(k + 1)) == ck_step(checksum(s.take(k)), s[k]),
{
    assert(s.take(k + 1).drop_last() =~= s.take(k));
}

proof fn lemma_len_bytes(x: u16)
    ensures
        ((x & 0xff) as u8) as int + 256 * ((x >> 8) as u8) as int == x as int,
{
    assert((x & 0xff) < 256) by (bit_vector);
    assert((x >> 8) < 256) by (bit_vector);
    assert((x & 0xff) + (x >> 8) * 256 == x) by (bit_vector);
}

/// The framer inside the payload of `framed(c, i, p, x, y)`, `j` bytes in.
pub open spec fn in_payload(st: ScanState, c: u8, i: u8, p: Seq<u8>, j: int) -> bool {
    &&& st.phase == (if j < p.len() { Phase::Payload } else { Phase::Ck1 })
    &&& st.class == c
    &&& st.id == i
    &&& st.len == p.len()
    &&& st.payload == p.take(j)
    &&& (st.ck_a, st.ck_b) == checksum(frame_body(c, i, p).take(4 + j))
}

proof fn lemma_feed_payload(st: ScanState, c: u8, i: u8, p: Seq<u8>, x: u8, y: u8, j: int)
    requires
        0 <= j <= p.len() <= MAX_PAYLOAD,
        in_payload(st, c, i, p, j),
    ensures
        ({
            let f = framed(c, i, p, x, y);
            let r = feed(st, f.skip(6 + j));
            &&& r.0.phase == Phase::Sync1
            &&& r.2 == f.len() - 6 - j
            &&& r.1 == (if (x, y) == checksum(frame_body(c, i, p)) {
                Some(RawFrame { class: c, id: i, payload: p })
            } else {
                None
            })
        }),
    decreases p.len() - j,
{
    let f = framed(c, i, p, x, y);
    let body = frame_body(c, i, p);
    assert(body.len() == 4 + p.len());
    assert(f.len() == 8 + p.len());
    if j < p.len() {
        assert(f[6 + j] == p[j]);
        assert(body[4 + j] == p[j]);
        lemma_checksum_take(body, 4 + j);
        let st2 = step(st, p[j]).0;
        assert(p.take(j).push(p[j]) =~= p.take(j + 1));
        assert(in_payload(st2, c, i, p, j + 1));
        lemma_feed_skip(st, f, 6 + j);
        lemma_feed_payload(st2, c, i, p, x, y, j + 1);
    } else {
        assert(body.take(4 + j) =~= body);
        assert(p.take(j) =~= p);
        assert(f[6 + j] == x);
        assert(f[7 + j] == y);
        lemma_feed_skip(st, f, 6 + j);
        let st2 = step(st, x).0;
        let t = f.skip(7 + j);
        assert(t.drop_first() =~= Seq::<u8>::empty());
        assert(t[0] == y);
        let r0 = feed(step(st2, y).0, t.drop_first());
        assert(r0 == (step(st2, y).0, None::<RawFrame>, 0nat));
    }
}

/// Scanning a whole frame from the idle phase uses exactly its bytes, ends in
/// the idle phase, and emits it exactly when its checksum bytes match.
pub proof fn lemma_feed_frame(st: ScanState, c: u8, i: u8, p: Seq<u8>, x: u8, y: u8)
    requires
        st.phase == Phase::Sync1,
        p.len() <= MAX_PAYLOAD,
    ensures
        ({
            let f = framed(c, i, p, x, y);
            let r = feed(st, f);
            &&& r.0.phase == Phase::Sync1
            &&& r.2 == f.len()
            &&& r.1 == (if (x, y) == checksum(frame_body(c, i, p)) {
                Some(RawFrame { class: c, id: i, payload: p })
            } else {
                None
            })
        }),
{
    let f = framed(c, i, p, x, y);
    let body = frame_body(c, i, p);
    let n = p.len() as u16;
    let lo = (n & 0xff) as u8;
    let hi = (n >> 8) as u8;
    assert(le16(n) == seq![lo, hi]);
    assert(body.len() == 4 + p.len());
    assert(f[0] == SYNC1 && f[1] == SYNC2 && f[2] == c && f[3] == i && f[4] == lo && f[5] == hi);
    assert(body[0] == c && body[1] == i && body[2] == lo && body[3] == hi);
    assert(f.skip(0) =~= f);
    let s1 = step(st, SYNC1).0;
    let s2 = step(s1, SYNC2).0;
    let s3 = step(s2, c).0;
    let s4 = step(s3, i).0;
    let s5 = step(s4, lo).0;
    let s6 = step(s5, hi).0;
    lemma_feed_skip(st, f, 0);
    lemma_feed_skip(s1, f, 1);
    lemma_feed_skip(s2, f, 2);
    lemma_feed_skip(s3, f, 3);
    lemma_feed_skip(s4, f, 4);
    lemma_feed_skip(s5, f, 5);
    assert(body.take(0) =~= Seq::<u8>::empty());
    lemma_checksum_take(body, 0);
    lemma_checksum_take(body, 1);
    lemma_checksum_take(body, 2);
    lemma_checksum_take(body, 3);
    lemma_len_bytes(n);
    assert(s6.len == n);
    assert(p.take(0) =~= Seq::<u8>::empty());
    assert(in_payload(s6, c, i, p, 0));
    lemma_feed_payload(s6, c, i, p, x, y, 0);
}

} // verus!

verus! {

/// Decoding what the framer emits for the frame of a valid packet gives the
/// packet back, and nothing is left unread.
pub proof fn lemma_framing_round_trip(m: PacketModel)
    requires
        valid_model(m),
        encode_model(m).2.len() <= MAX_PAYLOAD,
    ensures
        ({
            let (c, i, p) = encode_model(m);
            let (sv, f) = consume_model((idle(), Seq::<u8>::empty()), frame_bytes(c, i, p));
            &&& emitted(f) == Ok::<Option<PacketModel>, DecodeError>(Some(m))
            &&& sv.1 == Seq::<u8>::empty()
        }),
{
    let (c, i, p) = encode_model(m);
    let ck = checksum(frame_body(c, i, p));
    let fb = frame_bytes(c, i, p);
    assert(fb == framed(c, i, p, ck.0, ck.1));
    assert(Seq::<u8>::empty() + fb =~= fb);
    lemma_feed_frame(idle(), c, i, p, ck.0, ck.1);
    assert(fb.skip(fb.len() as int) =~= Seq::<u8>::empty());
    lemma_codec_round_trip(m);
}

pub open spec fn byte_sum(s: Seq<u8>) -> int
    decreases s.len(),
{
    if s.len() == 0 {
        0
    } else {
        byte_sum(s.drop_last()) + s.last()
    }
}

proof fn lemma_checksum_sum(s: Seq<u8>)
    ensures
        checksum(s).0 as int == byte_sum(s) % 256,
    decreases s.len(),
{
    if s.len() > 0 {
        lemma_checksum_sum(s.drop_last());
    }
}

proof fn lemma_sum_update(s: Seq<u8>, j: int, v: u8)
    requires
        0 <= j < s.len(),
    ensures
        byte_sum(s.update(j, v)) == byte_sum(s) - s[j] + v,
    decreases s.len(),
{
    let t = s.update(j, v);
    if j == s.len() - 1 {
        assert(t.drop_last() =~= s.drop_last());
    } else {
        assert(t.drop_last() =~= s.drop_last().update(j, v));
        lemma_sum_update(s.drop_last(), j, v);
    }
}

/// Changing one byte of what the checksum covers changes its first byte.
proof fn lemma_corrupt_body(body: Seq<u8>, j: int, v: u8)
    requires
        0 <= j < body.len(),
        v != body[j],
    ensures
        checksum(body.update(j, v)).0 != checksum(body).0,
{
    lemma_checksum_sum(body);
    lemma_checksum_sum(body.update(j, v));
    lemma_sum_update(body, j, v);
}

/// The positions of a frame whose corruption the framer detects without
/// losing its place: class, id, payload and the two checksum bytes.
pub open spec fn detectable(k: int, payload_len: int) -> bool {
    k == 2 || k == 3 || (6 <= k < 8 + payload_len)
}

/// A frame with one corrupted class, id, payload or checksum byte, followed at
/// once by a valid frame, gives exactly the second frame and leaves nothing
/// unread.
pub proof fn lemma_resync(
    c1: u8,
    i1: u8,
    p1: Seq<u8>,
    k: int,
    v: u8,
    c2: u8,
    i2: u8,
    p2: Seq<u8>,
)
    requires
        p1.len() <= MAX_PAYLOAD,
        p2.len() <= MAX_PAYLOAD,
        detectable(k, p1.len() as int),
        v != frame_bytes(c1, i1, p1)[k],
    ensures
        ({
            let bytes = frame_bytes(c1, i1, p1).update(k, v) + frame_bytes(c2, i2, p2);
            let (sv, f) = consume_model((idle(), Seq::<u8>::empty()), bytes);
            &&& f == Some(RawFrame { class: c2, id: i2, payload: p2 })
            &&& sv.1 == Seq::<u8>::empty()
        }),
{
    let f1 = frame_bytes(c1, i1, p1);
    let body = frame_body(c1, i1, p1);
    let ck = checksum(body);
    let bad = f1.update(k, v);
    let l = p1.len() as int;
    assert(body.len() == 4 + l);
    assert(f1.len() == 8 + l);
    if k == 2 {
        assert(frame_body(v, i1, p1) =~= body.update(0, v));
        assert(bad =~= framed(v, i1, p1, ck.0, ck.1));
        lemma_corrupt_body(body, 0, v);
        lemma_feed_frame(idle(), v, i1, p1, ck.0, ck.1);
    } else if k == 3 {
        assert(frame_body(c1, v, p1) =~= body.update(1, v));
        assert(bad =~= framed(c1, v, p1, ck.0, ck.1));
        lemma_corrupt_body(body, 1, v);
        lemma_feed_frame(idle(), c1, v, p1, ck.0, ck.1);
    } else if k < 6 + l {
        let q = p1.update(k - 6, v);
        assert(f1[k] == p1[k - 6]);
        assert(body[k - 2] == p1[k - 6]);
        assert(frame_body(c1, i1, q) =~= body.update(k - 2, v));
        assert(bad =~= framed(c1, i1, q, ck.0, ck.1));
        lemma_corrupt_body(body, k - 2, v);
        lemma_feed_frame(idle(), c1, i1, q, ck.0, ck.1);
    } else if k == 6 + l {
        assert(bad =~= framed(c1, i1, p1, v, ck.1));
        lemma_feed_frame(idle(), c1, i1, p1, v, ck.1);
    } else {
        assert(bad =~= framed(c1, i1, p1, ck.0, v));
        lemma_feed_frame(idle(), c1, i1, p1, ck.0, v);
    }
    let r1 = feed(idle(), bad);
    let f2 = frame_bytes(c2, i2, p2);
    let ck2 = checksum(frame_body(c2, i2, p2));
    assert(f2 == framed(c2, i2, p2, ck2.0, ck2.1));
    lemma_feed_append(idle(), bad, f2);
    lemma_feed_frame(r1.0, c2, i2, p2, ck2.0, ck2.1);
    let bytes = bad + f2;
    assert(Seq::<u8>::empty() + bytes =~= bytes);
    assert(bytes.skip(bytes.len() as int) =~= Seq::<u8>::empty());
}

/// The bytes of a sequence of chunks, in order.
pub open spec fn flatten(chunks: Seq<Seq<u8>>) -> Seq<u8>
    decreases chunks.len(),
{
    if chunks.len() == 0 {
        Seq::empty()
    } else {
        chunks[0] + flatten(chunks.drop_first())
    }
}

/// Calls of `consume` on each chunk in turn: the framer after them, and what
/// each call emitted.
pub open spec fn consume_all(sv: (ScanState, Seq<u8>), chunks: Seq<Seq<u8>>) -> (
    (ScanState, Seq<u8>),
    Seq<Option<RawFrame>>,
)
    decreases chunks.len(),
{
    if chunks.len() == 0 {
        (sv, Seq::empty())
    } else {
        let (sv2, f) = consume_model(sv, chunks[0]);
        let (sv3, fs) = consume_all(sv2, chunks.drop_first());
        (sv3, seq![f] + fs)
    }
}

proof fn lemma_consume_chunks(sv: (ScanState, Seq<u8>), chunks: Seq<Seq<u8>>, fr: RawFrame)
    requires
        chunks.len() > 0,
        forall|j: int| 0 <= j < chunks.len() ==> (#[trigger] chunks[j]).len() > 0,
        feed(sv.0, sv.1 + flatten(chunks)).1 == Some(fr),
        feed(sv.0, sv.1 + flatten(chunks)).2 == (sv.1 + flatten(chunks)).len(),
    ensures
        ({
            let (sv2, fs) = consume_all(sv, chunks);
            &&& fs.len() == chunks.len()
            &&& forall|j: int| 0 <= j < fs.len() - 1 ==> fs[j] is None
            &&& fs[fs.len() - 1] == Some(fr)
            &&& sv2.1 == Seq::<u8>::empty()
        }),
    decreases chunks.len(),
{
    let rest = chunks.drop_first();
    let a = sv.1 + chunks[0];
    if chunks.len() == 1 {
        assert(flatten(rest) =~= Seq::<u8>::empty());
        assert(sv.1 + flatten(chunks) =~= a);
        assert(a.skip(a.len() as int) =~= Seq::<u8>::empty());
        assert(consume_all(consume_model(sv, chunks[0]).0, rest).1 =~= Seq::<Option<RawFrame>>::empty());
    } else {
        let b = flatten(rest);
        assert(rest[0] == chunks[1]);
        assert(b.len() >= rest[0].len());
        assert(sv.1 + flatten(chunks) =~= a + b);
        lemma_feed_len(sv.0, a);
        if feed(sv.0, a).1 is Some {
            lemma_feed_prefix(sv.0, a, b);
            assert(false);
        }
        lemma_feed_append(sv.0, a, b);
        let st2 = feed(sv.0, a).0;
        assert(a.skip(a.len() as int) =~= Seq::<u8>::empty());
        assert(Seq::<u8>::empty() + b =~= b);
        assert forall|j: int| 0 <= j < rest.len() implies (#[trigger] rest[j]).len() > 0 by {
            assert(rest[j] == chunks[j + 1]);
        }
        lemma_consume_chunks((st2, Seq::<u8>::empty()), rest, fr);
        let (sv3, fs) = consume_all((st2, Seq::<u8>::empty()), rest);
        let all = seq![None::<RawFrame>] + fs;
        assert forall|j: int| 0 <= j < all.len() - 1 implies all[j] is None by {
            if j > 0 {
                assert(all[j] == fs[j - 1]);
            }
        }
    }
}

/// Splitting a valid frame into non-empty chunks of any sizes and feeding them
/// in order emits the frame exactly once, on the last chunk, as feeding it
/// whole does.
pub proof fn lemma_fragmentation(chunks: Seq<Seq<u8>>, c: u8, i: u8, p: Seq<u8>)
    requires
        p.len() <= MAX_PAYLOAD,
        chunks.len() > 0,
        forall|j: int| 0 <= j < chunks.len() ==> (#[trigger] chunks[j]).len() > 0,
        flatten(chunks) == frame_bytes(c, i, p),
    ensures
        ({
            let (sv, fs) = consume_all((idle(), Seq::<u8>::empty()), chunks);
            &&& fs.len() == chunks.len()
            &&& forall|j: int| 0 <= j < fs.len() - 1 ==> fs[j] is None
            &&& fs[fs.len() - 1] == Some(RawFrame { class: c, id: i, payload: p })
            &&& sv.1 == Seq::<u8>::empty()
        }),
        consume_model((idle(), Seq::<u8>::empty()), frame_bytes(c, i, p)).1 == Some(
            RawFrame { class: c, id: i, payload: p },
        ),
{
    let ck = checksum(frame_body(c, i, p));
    let fb = frame_bytes(c, i, p);
    assert(fb == framed(c, i, p, ck.0, ck.1));
    lemma_feed_frame(idle(), c, i, p, ck.0, ck.1);
    assert(Seq::<u8>::empty() + fb =~= fb);
    lemma_consume_chunks((idle(), Seq::<u8>::empty()), chunks, RawFrame { class: c, id: i, payload: p });
}

} // verus!

verus! {

/// For a valid packet: feeding its frame in non-empty chunks of any sizes, one
/// `consume` (or `Device::recv`) call per chunk from a fresh framer, the calls
/// before the last give `Ok(None)`, the last gives the packet itself, as
/// feeding the frame whole does, and nothing is left unread.
pub proof fn lemma_fragmented_packet(chunks: Seq<Seq<u8>>, m: PacketModel)
    requires
        valid_model(m),
        encode_model(m).2.len() <= MAX_PAYLOAD,
        chunks.len() > 0,
        forall|j: int| 0 <= j < chunks.len() ==> (#[trigger] chunks[j]).len() > 0,
        flatten(chunks) == frame_bytes(encode_model(m).0, encode_model(m).1, encode_model(m).2),
    ensures
        ({
            let (sv, fs) = consume_all((idle(), Seq::<u8>::empty()), chunks);
            &&& fs.len() == chunks.len()
            &&& forall|j: int| 0 <= j < fs.len() - 1 ==> emitted(#[trigger] fs[j]) == Ok::<
                Option<PacketModel>,
                DecodeError,
            >(None)
            &&& emitted(fs[fs.len() - 1]) == Ok::<Option<PacketModel>, DecodeError>(Some(m))
            &&& sv.1 == Seq::<u8>::empty()
        }),
{
    let (c, i, p) = encode_model(m);
    lemma_fragmentation(chunks, c, i, p);
    lemma_codec_round_trip(m);
    let fs = consume_all((idle(), Seq::<u8>::empty()), chunks).1;
    assert forall|j: int| 0 <= j < fs.len() - 1 implies emitted(#[trigger] fs[j]) == Ok::<
        Option<PacketModel>,
        DecodeError,
    >(None) by {
        assert(fs[j] is None);
    }
}

} // verus!
