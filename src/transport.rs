//! The two transports' delivery rules.
//!
//! Local: a channel is a first-in first-out queue that remembers, as ghost
//! state, everything sent and everything received; its invariant says that
//! what was received is always the start of what was sent, in order.
//!
//! Networked: steady messages travel as length-prefixed frames on a byte
//! stream; fast messages travel one per datagram, with a sequence number and
//! a length prefix, so that a partial or stale datagram is dropped.
use vstd::prelude::*;
use std::collections::VecDeque;
use crate::prefix::{at, enc_u64, lemma_at_concat, lemma_u64_len};
use crate::packet::{ConnectionUUID, FastPacket, SteadyPacketData};
use crate::wire::{lemma_u64, parse_u64, read_u64, write_u64};

verus! {

broadcast use lemma_at_concat, lemma_u64_len;

// ---- local channel ----

/// One direction of an in-process connection.
pub struct LocalChannel<T> {
    queue: VecDeque<T>,
    sent: Ghost<Seq<T>>,
    received: Ghost<Seq<T>>,
}

impl<T> View for LocalChannel<T> {
    type V = Seq<T>;

    /// The messages waiting to be received, oldest first.
    closed spec fn view(&self) -> Seq<T> {
        self.queue@
    }
}

impl<T> LocalChannel<T> {
    /// Everything ever sent on this channel, in order.
    pub closed spec fn sent(&self) -> Seq<T> {
        self.sent@
    }

    /// Everything ever received from this channel, in order.
    pub closed spec fn received(&self) -> Seq<T> {
        self.received@
    }

    pub closed spec fn wf(&self) -> bool {
        self.sent@ == self.received@ + self.queue@
    }

    /// What was received is what was sent, in the same order, followed by
    /// what is still queued.
    pub proof fn lemma_in_order(&self)
        requires
            self.wf(),
        ensures
            self.sent() == self.received() + self@,
            self.received() == self.sent().take(self.received().len() as int),
    {
        assert(self.sent@.take(self.received@.len() as int) =~= self.received@);
    }

    pub fn new() -> (r: Self)
        ensures
            r.wf(),
            r@ == Seq::<T>::empty(),
            r.sent() == Seq::<T>::empty(),
            r.received() == Seq::<T>::empty(),
    {
        LocalChannel { queue: VecDeque::new(), sent: Ghost(Seq::empty()), received: Ghost(Seq::empty()) }
    }

    pub fn len(&self) -> (r: usize)
        ensures
            r == self@.len(),
    {
        self.queue.len()
    }

    /// Sending never blocks and never fails.
    pub fn send(&mut self, message: T)
        requires
            old(self).wf(),
        ensures
            final(self).wf(),
            final(self)@ == old(self)@.push(message),
            final(self).sent() == old(self).sent().push(message),
            final(self).received() == old(self).received(),
    {
        self.queue.push_back(message);
        self.sent = Ghost(self.sent@.push(message));
        assert(self.sent@ =~= self.received@ + self.queue@);
    }

    /// Takes the oldest waiting message, or reports that none is waiting.
    pub fn try_receive(&mut self) -> (r: Option<T>)
        requires
            old(self).wf(),
        ensures
            final(self).wf(),
            final(self).sent() == old(self).sent(),
            old(self)@.len() == 0 ==> r is None && final(self)@ == old(self)@
                && final(self).received() == old(self).received(),
            old(self)@.len() > 0 ==> r == Some(old(self)@[0]) && final(self)@ == old(self)@.drop_first() && final(self).received() == old(self).received().push(old(self)@[0]),
    {
        let r = self.queue.pop_front();
        match r {
            Some(m) => {
                self.received = Ghost(self.received@.push(m));
                assert(self.sent@ =~= self.received@ + self.queue@);
                Some(m)
            },
            None => None,
        }
    }
}

/// An in-process connection: a fast and a steady channel each way.
pub struct LocalConnection {
    pub uuid: ConnectionUUID,
    pub to_client_fast: LocalChannel<FastPacket>,
    pub to_client_steady: LocalChannel<SteadyPacketData>,
    pub to_server_fast: LocalChannel<FastPacket>,
    pub to_server_steady: LocalChannel<SteadyPacketData>,
}

impl LocalConnection {
    pub open spec fn wf(&self) -> bool {
        &&& self.to_client_fast.wf()
        &&& self.to_client_steady.wf()
        &&& self.to_server_fast.wf()
        &&& self.to_server_steady.wf()
    }

    pub fn new(uuid: ConnectionUUID) -> (r: Self)
        ensures
            r.wf(),
            r.uuid == uuid,
            r.to_client_fast@.len() == 0,
            r.to_client_steady@.len() == 0,
            r.to_server_fast@.len() == 0,
            r.to_server_steady@.len() == 0,
    {
        LocalConnection {
            uuid,
            to_client_fast: LocalChannel::new(),
            to_client_steady: LocalChannel::new(),
            to_server_fast: LocalChannel::new(),
            to_server_steady: LocalChannel::new(),
        }
    }
}

// ---- stream frames ----

/// A steady message on the stream: its length, then its bytes.
pub open spec fn frame(payload: Seq<u8>) -> Seq<u8> {
    enc_u64(payload.len() as u64) + payload
}

/// Frames written one after another.
pub open spec fn frames(payloads: Seq<Seq<u8>>) -> Seq<u8>
    decreases payloads.len(),
{
    if payloads.len() == 0 {
        Seq::empty()
    } else {
        frame(payloads[0]) + frames(payloads.drop_first())
    }
}

/// The first complete frame of a buffer and what follows it; `None` while
/// the frame has not fully arrived.
pub open spec fn pop_frame_spec(buf: Seq<u8>) -> Option<(Seq<u8>, Seq<u8>)> {
    match parse_u64(buf, 0) {
        None => None,
        Some((n, p)) => if p + n <= buf.len() {
            Some((buf.subrange(p, p + n), buf.subrange(p + n, buf.len() as int)))
        } else {
            None
        },
    }
}

/// The payloads of the first `n` frames of a buffer, in order.
pub open spec fn pop_frames_spec(buf: Seq<u8>, n: nat) -> Option<Seq<Seq<u8>>>
    decreases n,
{
    if n == 0 {
        Some(Seq::empty())
    } else {
        match pop_frame_spec(buf) {
            None => None,
            Some((p, rest)) => match pop_frames_spec(rest, (n - 1) as nat) {
                None => None,
                Some(ps) => Some(seq![p] + ps),
            },
        }
    }
}

pub proof fn lemma_pop_frame(payload: Seq<u8>, rest: Seq<u8>)
    requires
        payload.len() <= u64::MAX,
    ensures
        pop_frame_spec(frame(payload) + rest) == Some((payload, rest)),
{
    let b = frame(payload) + rest;
    assert(b.subrange(0, 8) =~= enc_u64(payload.len() as u64));
    lemma_u64(b, 0, payload.len() as u64);
    assert(b.subrange(8, 8 + payload.len() as int) =~= payload);
    assert(b.subrange(8 + payload.len() as int, b.len() as int) =~= rest);
}

/// Steady messages written on one stream come out of it in the order they
/// were written, whatever follows them.
pub proof fn lemma_stream_order(payloads: Seq<Seq<u8>>, rest: Seq<u8>)
    requires
        forall|i: int| 0 <= i < payloads.len() ==> #[trigger] payloads[i].len() <= u64::MAX,
    ensures
        pop_frames_spec(frames(payloads) + rest, payloads.len()) == Some(payloads),
    decreases payloads.len(),
{
    if payloads.len() > 0 {
        let tail = payloads.drop_first();
        assert(frames(payloads) + rest =~= frame(payloads[0]) + (frames(tail) + rest));
        lemma_pop_frame(payloads[0], frames(tail) + rest);
        assert forall|i: int| 0 <= i < tail.len() implies #[trigger] tail[i].len() <= u64::MAX by {
            assert(tail[i] == payloads[i + 1]);
        }
        lemma_stream_order(tail, rest);
        assert(seq![payloads[0]] + tail =~= payloads);
    }
}

/// Wraps one steady message for the stream.
pub fn frame_payload(payload: &[u8]) -> (r: Vec<u8>)
    ensures
        r@ == frame(payload@),
{
    let mut out: Vec<u8> = Vec::new();
    write_u64(&mut out, payload.len() as u64);
    let ghost mid = out@;
    let mut i: usize = 0;
    while i < payload.len()
        invariant
            i <= payload@.len(),
            out@ =~= mid + payload@.subrange(0, i as int),
        decreases payload@.len() - i,
    {
        out.push(payload[i]);
        i = i + 1;
    }
    assert(payload@.subrange(0, payload@.len() as int) =~= payload@);
    out
}

/// The receiving end of a stream: bytes arrive in chunks of any size and
/// leave as whole frames.
pub struct StreamReceiver {
    buf: Vec<u8>,
}

impl View for StreamReceiver {
    type V = Seq<u8>;

    /// The bytes that arrived and have not yet left as a frame.
    closed spec fn view(&self) -> Seq<u8> {
        self.buf@
    }
}

fn copy_range(b: &[u8], from: usize, to: usize) -> (r: Vec<u8>)
    requires
        from <= to <= b@.len(),
    ensures
        r@ == b@.subrange(from as int, to as int),
{
    let mut out: Vec<u8> = Vec::new();
    let mut i: usize = from;
    while i < to
        invariant
            from <= i <= to,
            to <= b@.len(),
            out@ =~= b@.subrange(from as int, i as int),
        decreases to - i,
    {
        out.push(b[i]);
        i = i + 1;
    }
    out
}

impl StreamReceiver {
    pub fn new() -> (r: Self)
        ensures
            r@ == Seq::<u8>::empty(),
    {
        StreamReceiver { buf: Vec::new() }
    }

    pub fn receive_bytes(&mut self, chunk: &[u8])
        ensures
            final(self)@ == old(self)@ + chunk@,
    {
        let mut i: usize = 0;
        while i < chunk.len()
            invariant
                i <= chunk@.len(),
                self@ =~= old(self)@ + chunk@.subrange(0, i as int),
            decreases chunk@.len() - i,
        {
            self.buf.push(chunk[i]);
            i = i + 1;
        }
        assert(chunk@.subrange(0, chunk@.len() as int) =~= chunk@);
    }

    /// Takes the first complete frame's payload; leaves everything in place
    /// while that frame is incomplete.
    pub fn next_frame(&mut self) -> (r: Option<Vec<u8>>)
        ensures
            match pop_frame_spec(old(self)@) {
                None => r is None && final(self)@ == old(self)@,
                Some((p, rest)) => r matches Some(v) && v@ == p && final(self)@ == rest,
            },
    {
        let b = self.buf.as_slice();
        let (n, p) = match read_u64(b, 0) { Some(x) => x, None => return None };
        if ((b.len() - p) as u64) < n {
            return None;
        }
        let end = p + n as usize;
        let payload = copy_range(b, p, end);
        let rest = copy_range(b, end, b.len());
        self.buf = rest;
        Some(payload)
    }
}

// ---- datagrams ----

/// A fast message in a datagram: its sequence number, its length, its bytes.
pub open spec fn datagram(seq_no: u64, payload: Seq<u8>) -> Seq<u8> {
    enc_u64(seq_no) + enc_u64(payload.len() as u64) + payload
}

/// A datagram is accepted only when its length field covers exactly the
/// bytes that follow it.
pub open spec fn open_datagram_spec(d: Seq<u8>) -> Option<(u64, Seq<u8>)> {
    match (parse_u64(d, 0), parse_u64(d, 8)) {
        (Some((s, _)), Some((n, _))) => if n == d.len() - 16 {
            Some((s, d.subrange(16, d.len() as int)))
        } else {
            None
        },
        _ => None,
    }
}

/// A datagram opens to what was sealed in it.
pub proof fn lemma_datagram_round_trip(seq_no: u64, payload: Seq<u8>)
    requires
        payload.len() <= u64::MAX - 16,
    ensures
        open_datagram_spec(datagram(seq_no, payload)) == Some((seq_no, payload)),
{
    let d = datagram(seq_no, payload);
    assert(d.subrange(0, d.len() as int) =~= d);
    assert(at(d, 0, enc_u64(seq_no) + enc_u64(payload.len() as u64) + payload));
    lemma_u64(d, 0, seq_no);
    lemma_u64(d, 8, payload.len() as u64);
    assert(d.subrange(16, d.len() as int) =~= payload);
}

/// A datagram cut short is never accepted.
pub proof fn lemma_partial_datagram_dropped(seq_no: u64, payload: Seq<u8>, k: int)
    requires
        payload.len() <= u64::MAX - 16,
        0 <= k < datagram(seq_no, payload).len(),
    ensures
        open_datagram_spec(datagram(seq_no, payload).take(k)) is None,
{
    let d = datagram(seq_no, payload);
    let c = d.take(k);
    if k >= 16 {
        assert(d.subrange(0, d.len() as int) =~= d);
        assert(at(d, 0, enc_u64(seq_no) + enc_u64(payload.len() as u64) + payload));
        lemma_u64(d, 8, payload.len() as u64);
        assert(c.subrange(8, 16) =~= d.subrange(8, 16));
    }
}

pub fn seal_datagram(seq_no: u64, payload: &[u8]) -> (r: Vec<u8>)
    ensures
        r@ == datagram(seq_no, payload@),
{
    let mut out: Vec<u8> = Vec::new();
    write_u64(&mut out, seq_no);
    let framed = frame_payload(payload);
    let mut i: usize = 0;
    let ghost mid = out@;
    while i < framed.len()
        invariant
            i <= framed@.len(),
            out@ =~= mid + framed@.subrange(0, i as int),
        decreases framed@.len() - i,
    {
        out.push(framed[i]);
        i = i + 1;
    }
    assert(framed@.subrange(0, framed@.len() as int) =~= framed@);
    assert(out@ =~= datagram(seq_no, payload@));
    out
}

pub fn open_datagram(d: &[u8]) -> (r: Option<(u64, Vec<u8>)>)
    ensures
        match open_datagram_spec(d@) {
            None => r is None,
            Some((s, p)) => r matches Some((s2, v)) && s2 == s && v@ == p,
        },
{
    let (s, _) = match read_u64(d, 0) { Some(x) => x, None => return None };
    let (n, _) = match read_u64(d, 8) { Some(x) => x, None => return None };
    if n != (d.len() - 16) as u64 {
        return None;
    }
    Some((s, copy_range(d, 16, d.len())))
}

/// Drops fast datagrams that arrive after a newer one.
pub struct FastOrderFilter {
    pub newest: Option<u64>,
}

impl FastOrderFilter {
    pub fn new() -> (r: Self)
        ensures
            r.newest is None,
    {
        FastOrderFilter { newest: None }
    }

    /// Accepts a sequence number only when it is newer than every one
    /// accepted before.
    pub fn accept(&mut self, seq_no: u64) -> (r: bool)
        ensures
            r == (old(self).newest matches Some(n) ==> seq_no > n),
            r ==> final(self).newest == Some(seq_no),
            !r ==> final(self).newest == old(self).newest,
    {
        let ok = match self.newest {
            Some(n) => seq_no > n,
            None => true,
        };
        if ok {
            self.newest = Some(seq_no);
        }
        ok
    }
}

} // verus!
