use vstd::prelude::*;

use vstd::bytes::{
    lemma_auto_spec_u32_to_from_le_bytes, lemma_auto_spec_u64_to_from_le_bytes,
    spec_u32_from_le_bytes, spec_u32_to_le_bytes, spec_u64_from_le_bytes, spec_u64_to_le_bytes,
    u32_from_le_bytes, u64_from_le_bytes,
};
use vstd::slice::{slice_subrange, slice_to_vec};

verus! {

/// A connection handle: the per-query token counter, the broken flag,
/// and the two byte queues that stand between the codec and the
/// socket. Whatever sits in `outgoing` is owed to the wire; whatever
/// the wire delivered and nobody consumed yet sits in `incoming`.
pub struct Connection {
    pub token: u64,
    pub broken: bool,
    pub outgoing: Vec<u8>,
    pub incoming: Vec<u8>,
}

/// One wire frame: little-endian token, little-endian payload length,
/// then the payload itself.
pub open spec fn spec_frame(token: u64, payload: Seq<u8>) -> Seq<u8> {
    spec_u64_to_le_bytes(token) + spec_u32_to_le_bytes(payload.len() as u32) + payload
}

/// Whether `buf` starts with a complete frame.
pub open spec fn spec_has_frame(buf: Seq<u8>) -> bool {
    buf.len() >= 12 && buf.len() >= 12 + spec_frame_len(buf)
}

pub open spec fn spec_frame_token(buf: Seq<u8>) -> u64 {
    spec_u64_from_le_bytes(buf.subrange(0, 8))
}

pub open spec fn spec_frame_len(buf: Seq<u8>) -> u32 {
    spec_u32_from_le_bytes(buf.subrange(8, 12))
}

pub open spec fn spec_frame_payload(buf: Seq<u8>) -> Seq<u8> {
    buf.subrange(12, 12 + spec_frame_len(buf))
}

impl Connection {
    /// A fresh connection, as the factory hands it over: token at
    /// zero, not broken, both queues empty.
    pub fn new() -> (r: Connection)
        ensures
            r.token == 0,
            !r.broken,
            r.outgoing@ == Seq::<u8>::empty(),
            r.incoming@ == Seq::<u8>::empty(),
    {
        Connection { token: 0, broken: false, outgoing: Vec::new(), incoming: Vec::new() }
    }

    /// Bumps the token; done once before every write.
    pub fn advance_token(&mut self)
        requires
            old(self).token < u64::MAX,
        ensures
            final(self).token == old(self).token + 1,
            final(self).broken == old(self).broken,
            final(self).outgoing@ == old(self).outgoing@,
            final(self).incoming@ == old(self).incoming@,
    {
        self.token = self.token + 1;
    }

    /// Records that the transport under this connection failed.
    pub fn mark_broken(&mut self)
        ensures
            final(self).broken,
            final(self).token == old(self).token,
            final(self).outgoing@ == old(self).outgoing@,
            final(self).incoming@ == old(self).incoming@,
    {
        self.broken = true;
    }

    /// Hands the queued wire bytes out, leaving the queue empty.
    pub fn take_outgoing(&mut self) -> (r: Vec<u8>)
        ensures
            r@ == old(self).outgoing@,
            final(self).outgoing@ == Seq::<u8>::empty(),
            final(self).token == old(self).token,
            final(self).broken == old(self).broken,
            final(self).incoming@ == old(self).incoming@,
    {
        let mut out: Vec<u8> = Vec::new();
        core::mem::swap(&mut out, &mut self.outgoing);
        out
    }

    /// Appends bytes the wire delivered.
    pub fn feed_incoming(&mut self, bytes: &mut Vec<u8>)
        ensures
            final(self).incoming@ == old(self).incoming@ + old(bytes)@,
            final(self).token == old(self).token,
            final(self).broken == old(self).broken,
            final(self).outgoing@ == old(self).outgoing@,
    {
        self.incoming.append(bytes);
    }
}

/// Encodes one frame.
pub fn encode_frame(token: u64, payload: &Vec<u8>) -> (r: Vec<u8>)
    requires
        payload@.len() <= u32::MAX,
    ensures
        r@ == spec_frame(token, payload@),
{
    let mut r = vstd::bytes::u64_to_le_bytes(token);
    let mut len_bytes = vstd::bytes::u32_to_le_bytes(payload.len() as u32);
    r.append(&mut len_bytes);
    let mut i: usize = 0;
    while i < payload.len()
        invariant
            i <= payload@.len(),
            r@ == spec_u64_to_le_bytes(token) + spec_u32_to_le_bytes(payload@.len() as u32)
                + payload@.subrange(0, i as int),
        decreases payload@.len() - i,
    {
        r.push(payload[i]);
        proof {
            assert(payload@.subrange(0, i + 1) =~= payload@.subrange(0, i as int).push(
                payload@[i as int],
            ));
        }
        i = i + 1;
    }
    proof {
        assert(payload@.subrange(0, payload@.len() as int) =~= payload@);
    }
    r
}

/// Decodes the frame at the front of `buf`, if a complete one is
/// there: the echoed token and the payload.
pub fn decode_frame(buf: &Vec<u8>) -> (r: Option<(u64, Vec<u8>)>)
    ensures
        spec_has_frame(buf@) ==> (r matches Some(f) && f.0 == spec_frame_token(buf@) && f.1@
            == spec_frame_payload(buf@)),
        !spec_has_frame(buf@) ==> r is None,
{
    if buf.len() < 12 {
        return None;
    }
    let token = u64_from_le_bytes(slice_subrange(buf.as_slice(), 0, 8));
    let len = u32_from_le_bytes(slice_subrange(buf.as_slice(), 8, 12));
    if (buf.len() - 12) < (len as usize) {
        return None;
    }
    let payload = slice_to_vec(slice_subrange(buf.as_slice(), 12, 12 + (len as usize)));
    Some((token, payload))
}

/// Frame round-trip: a frame built from a token and a payload decodes
/// back to that token and that payload, whatever follows it in the
/// buffer.
pub proof fn lemma_frame_round_trip(token: u64, payload: Seq<u8>, rest: Seq<u8>)
    requires
        payload.len() <= u32::MAX,
    ensures
        spec_has_frame(spec_frame(token, payload) + rest),
        spec_frame_token(spec_frame(token, payload) + rest) == token,
        spec_frame_payload(spec_frame(token, payload) + rest) == payload,
{
    lemma_auto_spec_u64_to_from_le_bytes();
    lemma_auto_spec_u32_to_from_le_bytes();
    let buf = spec_frame(token, payload) + rest;
    assert(buf.subrange(0, 8) =~= spec_u64_to_le_bytes(token));
    assert(buf.subrange(8, 12) =~= spec_u32_to_le_bytes(payload.len() as u32));
    assert(spec_frame_len(buf) == payload.len());
    assert(buf.subrange(12, 12 + payload.len() as int) =~= payload);
}

/// The state a sequence of sends drives a connection's token and
/// outgoing queue through: each send bumps the token, then appends a
/// frame stamped with the bumped token.
pub open spec fn spec_send_state(c: (u64, Seq<u8>), payload: Seq<u8>) -> (u64, Seq<u8>) {
    (((c.0 + 1) as u64), c.1 + spec_frame((c.0 + 1) as u64, payload))
}

pub open spec fn spec_run_sends(c: (u64, Seq<u8>), payloads: Seq<Seq<u8>>) -> (u64, Seq<u8>)
    decreases payloads.len(),
{
    if payloads.len() == 0 {
        c
    } else {
        spec_run_sends(spec_send_state(c, payloads[0]), payloads.subrange(1, payloads.len() as int))
    }
}

/// Bumps the token and queues one frame under the bumped token.
pub fn send_frame(conn: &mut Connection, payload: &Vec<u8>) -> (r: Result<(), crate::errors::Error>)
    requires
        old(conn).token < u64::MAX,
        payload@.len() <= u32::MAX,
    ensures
        r is Ok,
        (final(conn).token, final(conn).outgoing@) == spec_send_state(
            (old(conn).token, old(conn).outgoing@),
            payload@,
        ),
        final(conn).broken == old(conn).broken,
        final(conn).incoming@ == old(conn).incoming@,
{
    conn.advance_token();
    let mut frame = encode_frame(conn.token, payload);
    conn.outgoing.append(&mut frame);
    Ok(())
}

/// Token monotonicity: across any sequence of sends on one
/// connection, the tokens stamped into the queued frames are exactly
/// `t0 + 1, t0 + 2, ...` — strictly increasing from one past the
/// initial token — and the final token is the initial token plus the
/// number of sends.
pub proof fn lemma_token_monotonicity(c: (u64, Seq<u8>), payloads: Seq<Seq<u8>>)
    requires
        c.0 + payloads.len() <= u64::MAX,
    ensures
        spec_run_sends(c, payloads).0 == c.0 + payloads.len(),
        forall|i: int|
            0 <= i < payloads.len() ==> #[trigger] spec_nth_token(c.0, i) == c.0 + 1 + i,
        forall|i: int, j: int|
            0 <= i < j < payloads.len() ==> spec_nth_token(c.0, i) < spec_nth_token(c.0, j),
        spec_run_sends(c, payloads).1 == c.1 + spec_frames_from(c.0, payloads),
    decreases payloads.len(),
{
    if payloads.len() > 0 {
        let c2 = spec_send_state(c, payloads[0]);
        lemma_token_monotonicity(c2, payloads.subrange(1, payloads.len() as int));
        assert(spec_frames_from(c.0, payloads) == spec_frame(
            (c.0 + 1) as u64,
            payloads[0],
        ) + spec_frames_from((c.0 + 1) as u64, payloads.subrange(1, payloads.len() as int)));
        assert(spec_run_sends(c, payloads).1 == c.1 + spec_frames_from(c.0, payloads)) by {
            assert(spec_run_sends(c2, payloads.subrange(1, payloads.len() as int)).1 == c2.1
                + spec_frames_from(c2.0, payloads.subrange(1, payloads.len() as int)));
            assert(c.1 + spec_frames_from(c.0, payloads) =~= c2.1 + spec_frames_from(
                c2.0,
                payloads.subrange(1, payloads.len() as int),
            ));
        }
    }
}

/// The token the i-th send stamps, counting from initial token `t0`.
pub open spec fn spec_nth_token(t0: u64, i: int) -> int {
    t0 + 1 + i
}

/// The frames a sequence of sends queues, in order.
pub open spec fn spec_frames_from(t0: u64, payloads: Seq<Seq<u8>>) -> Seq<u8>
    decreases payloads.len(),
{
    if payloads.len() == 0 {
        Seq::empty()
    } else {
        spec_frame((t0 + 1) as u64, payloads[0]) + spec_frames_from(
            (t0 + 1) as u64,
            payloads.subrange(1, payloads.len() as int),
        )
    }
}

} // verus!
