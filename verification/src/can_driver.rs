//! Abstract CAN I/O: the frame the protocols see, the driver interface, and
//! an in-process loopback driver.

use vstd::prelude::*;
use vstd::slice::slice_subrange;

verus! {

/// A minimal CAN frame as seen by the protocol layer: no RTR, no error
/// frames, just the data path the time-sync protocols use.
#[derive(Clone, Copy, Debug, PartialEq, Eq)]
pub struct CanFrame {
    pub id: u32,
    pub dlc: u8,
    pub data: [u8; 8],
}

/// The eight data bytes of a frame built from `payload`: the payload, then
/// zeros.
pub open spec fn padded_data(payload: Seq<u8>) -> Seq<u8> {
    payload + Seq::new((8 - payload.len()) as nat, |i: int| 0u8)
}

impl CanFrame {
    /// A frame with identifier `id` carrying `data`, which holds at most 8
    /// bytes.
    pub fn new(id: u32, data: &[u8]) -> (f: Self)
        requires
            data@.len() <= 8,
        ensures
            f.id == id,
            f.dlc == data@.len(),
            f.data@ == padded_data(data@),
    {
        let n = data.len();
        let mut buf = [0u8; 8];
        let mut i: usize = 0;
        while i < n
            invariant
                n == data@.len(),
                n <= 8,
                i <= n,
                buf@.len() == 8,
                forall|j: int| 0 <= j < i ==> buf@[j] == data@[j],
                forall|j: int| i <= j < 8 ==> buf@[j] == 0,
            decreases n - i,
        {
            buf[i] = data[i];
            i = i + 1;
        }
        assert(buf@ =~= padded_data(data@));
        CanFrame { id, dlc: n as u8, data: buf }
    }

    /// The first `dlc` data bytes.
    pub fn payload(&self) -> (p: &[u8])
        requires
            self.dlc <= 8,
        ensures
            p@ == self.data@.subrange(0, self.dlc as int),
    {
        slice_subrange(self.data.as_slice(), 0, self.dlc as usize)
    }
}

/// Driver errors.
#[derive(Clone, Copy, Debug, PartialEq, Eq, Structural)]
pub enum DriverError {
    /// TX queue full (loopback) or OS send error.
    TxFull,
    /// No frame available (non-blocking receive).
    Empty,
    /// Underlying OS or HAL error.
    Io,
}

/// Abstract CAN send and receive, for each platform to implement.
pub trait CanDriver {
    /// Transmit a frame. May block, or return `TxFull` if the queue is full.
    fn send(&mut self, frame: &CanFrame) -> Result<(), DriverError>;

    /// Receive the next available frame without blocking. Returns
    /// `Err(Empty)` when there is nothing to read.
    fn recv(&mut self) -> Result<CanFrame, DriverError>;
}

/// How many frames the loopback driver holds.
pub const LOOPBACK_CAP: usize = 16;

/// A loopback queue `q` given `frame`: the new queue and the result.
pub open spec fn loopback_send(q: Seq<CanFrame>, frame: CanFrame) -> (
    Seq<CanFrame>,
    Result<(), DriverError>,
) {
    if q.len() >= LOOPBACK_CAP {
        (q, Err(DriverError::TxFull))
    } else {
        (q.push(frame), Ok(()))
    }
}

/// A loopback queue `q` asked for a frame: the new queue and the result.
pub open spec fn loopback_recv(q: Seq<CanFrame>) -> (Seq<CanFrame>, Result<CanFrame, DriverError>) {
    if q.len() == 0 {
        (q, Err(DriverError::Empty))
    } else {
        (q.drop_first(), Ok(q[0]))
    }
}

/// In-process loopback driver: frames sent are held in a ring buffer and
/// handed back, oldest first, by `recv`.
pub struct LoopbackDriver {
    buf: [CanFrame; 16],
    head: usize,
    tail: usize,
    len: usize,
}

impl LoopbackDriver {
    #[verifier::type_invariant]
    spec fn ring_ok(self) -> bool {
        &&& self.head < LOOPBACK_CAP
        &&& self.len <= LOOPBACK_CAP
        &&& self.tail == (self.head + self.len) % (LOOPBACK_CAP as int)
    }
}

impl View for LoopbackDriver {
    type V = Seq<CanFrame>;

    /// The frames held, oldest first.
    closed spec fn view(&self) -> Seq<CanFrame> {
        Seq::new(self.len as nat, |i: int| self.buf@[(self.head + i) % 16])
    }
}

impl LoopbackDriver {
    pub fn new() -> (d: Self)
        ensures
            d@ == Seq::<CanFrame>::empty(),
    {
        let empty = CanFrame { id: 0, dlc: 0, data: [0u8; 8] };
        let d = LoopbackDriver { buf: [empty; 16], head: 0, tail: 0, len: 0 };
        assert(d@ =~= Seq::<CanFrame>::empty());
        d
    }

    pub fn is_empty(&self) -> (b: bool)
        ensures
            b == (self@.len() == 0),
            self@.len() <= LOOPBACK_CAP,
    {
        proof {
            use_type_invariant(self);
        }
        self.len == 0
    }

    /// Directly inject a frame (simulates a peer transmitting).
    pub fn inject(&mut self, frame: CanFrame) -> (r: Result<(), DriverError>)
        ensures
            (final(self)@, r) == loopback_send(old(self)@, frame),
            old(self)@.len() <= LOOPBACK_CAP,
            final(self)@.len() <= LOOPBACK_CAP,
    {
        self.push(frame)
    }

    fn push(&mut self, frame: CanFrame) -> (r: Result<(), DriverError>)
        ensures
            (final(self)@, r) == loopback_send(old(self)@, frame),
            old(self)@.len() <= LOOPBACK_CAP,
            final(self)@.len() <= LOOPBACK_CAP,
    {
        proof {
            use_type_invariant(&*self);
        }
        if self.len == LOOPBACK_CAP {
            return Err(DriverError::TxFull);
        }
        let mut buf = self.buf;
        buf[self.tail] = frame;
        let ghost old_view = self@;
        *self = LoopbackDriver {
            buf,
            head: self.head,
            tail: (self.tail + 1) % LOOPBACK_CAP,
            len: self.len + 1,
        };
        assert(self@ =~= old_view.push(frame));
        Ok(())
    }
}

impl Default for LoopbackDriver {
    fn default() -> (d: Self)
        ensures
            d@ == Seq::<CanFrame>::empty(),
    {
        Self::new()
    }
}

impl CanDriver for LoopbackDriver {
    fn send(&mut self, frame: &CanFrame) -> (r: Result<(), DriverError>)
        ensures
            (final(self)@, r) == loopback_send(old(self)@, *frame),
            old(self)@.len() <= LOOPBACK_CAP,
            final(self)@.len() <= LOOPBACK_CAP,
    {
        self.push(*frame)
    }

    fn recv(&mut self) -> (r: Result<CanFrame, DriverError>)
        ensures
            (final(self)@, r) == loopback_recv(old(self)@),
            old(self)@.len() <= LOOPBACK_CAP,
            final(self)@.len() <= LOOPBACK_CAP,
    {
        proof {
            use_type_invariant(&*self);
        }
        if self.len == 0 {
            return Err(DriverError::Empty);
        }
        let f = self.buf[self.head];
        let ghost old_view = self@;
        *self = LoopbackDriver {
            buf: self.buf,
            head: (self.head + 1) % LOOPBACK_CAP,
            tail: self.tail,
            len: self.len - 1,
        };
        assert(self@ =~= old_view.drop_first());
        Ok(f)
    }
}


// Laws
/// The loopback queue after each frame of `frames` is sent in turn.
pub open spec fn send_all(q: Seq<CanFrame>, frames: Seq<CanFrame>) -> Seq<CanFrame>
    decreases frames.len(),
{
    if frames.len() == 0 {
        q
    } else {
        send_all(loopback_send(q, frames[0]).0, frames.drop_first())
    }
}

/// Asking a loopback queue `n` times for a frame: the queue left and the
/// frames received, in order.
pub open spec fn recv_n(q: Seq<CanFrame>, n: nat) -> (Seq<CanFrame>, Seq<CanFrame>)
    decreases n,
{
    if n == 0 {
        (q, Seq::empty())
    } else {
        let (q1, r) = loopback_recv(q);
        let (q2, got) = recv_n(q1, (n - 1) as nat);
        (
            q2,
            match r {
                Ok(f) => seq![f] + got,
                Err(_) => got,
            },
        )
    }
}

/// Sending frames one after another to a loopback that holds `q` keeps `q`
/// and the sent frames, in order, as far as the 16 places go; the frames
/// that find it full are refused.
pub proof fn lemma_send_all(q: Seq<CanFrame>, frames: Seq<CanFrame>)
    requires
        q.len() <= LOOPBACK_CAP,
    ensures
        send_all(q, frames) == (q + frames).take(
            if q.len() + frames.len() < LOOPBACK_CAP {
                (q.len() + frames.len()) as int
            } else {
                LOOPBACK_CAP as int
            },
        ),
    decreases frames.len(),
{
    if frames.len() > 0 {
        let q1 = loopback_send(q, frames[0]).0;
        let rest = frames.drop_first();
        lemma_send_all(q1, rest);
        if q.len() < LOOPBACK_CAP {
            assert(q1 + rest =~= q + frames);
        } else {
            assert((q1 + rest).take(LOOPBACK_CAP as int) =~= (q + frames).take(
                LOOPBACK_CAP as int,
            ));
        }
    } else {
        assert((q + frames).take(q.len() as int) =~= q);
    }
}

/// Receiving `n` times from a loopback that holds at least `n` frames gives
/// its `n` oldest frames, oldest first, and leaves the others.
pub proof fn lemma_recv_n(q: Seq<CanFrame>, n: nat)
    requires
        n <= q.len(),
    ensures
        recv_n(q, n) == (q.skip(n as int), q.take(n as int)),
    decreases n,
{
    if n > 0 {
        lemma_recv_n(q.drop_first(), (n - 1) as nat);
        assert(q.drop_first().skip(n - 1) =~= q.skip(n as int));
        assert(seq![q[0]] + q.drop_first().take(n - 1) =~= q.take(n as int));
    } else {
        assert(q.skip(0) =~= q);
        assert(q.take(0) =~= Seq::<CanFrame>::empty());
    }
}

/// First in, first out: up to 16 frames sent to an empty loopback are
/// received back in the order they were sent, and then it is empty.
pub proof fn lemma_loopback_fifo(frames: Seq<CanFrame>)
    requires
        frames.len() <= LOOPBACK_CAP,
    ensures
        recv_n(send_all(Seq::empty(), frames), frames.len()) == (Seq::<CanFrame>::empty(), frames),
        loopback_recv(recv_n(send_all(Seq::empty(), frames), frames.len()).0).1 == Err::<
            CanFrame,
            DriverError,
        >(DriverError::Empty),
{
    let e = Seq::<CanFrame>::empty();
    lemma_send_all(e, frames);
    assert(send_all(e, frames) =~= frames);
    lemma_recv_n(frames, frames.len());
    assert(frames.skip(frames.len() as int) =~= e);
    assert(frames.take(frames.len() as int) =~= frames);
}

/// A full loopback refuses a frame and stays as it was.
pub proof fn lemma_loopback_full(q: Seq<CanFrame>, frame: CanFrame)
    requires
        q.len() == LOOPBACK_CAP,
    ensures
        loopback_send(q, frame) == (q, Err::<(), DriverError>(DriverError::TxFull)),
{
}

/// A frame built from at most 8 bytes gives back exactly those bytes as its
/// payload.
pub proof fn lemma_payload_of_new(payload: Seq<u8>)
    requires
        payload.len() <= 8,
    ensures
        padded_data(payload).len() == 8,
        padded_data(payload).subrange(0, payload.len() as int) == payload,
{
    assert(padded_data(payload).subrange(0, payload.len() as int) =~= payload);
}

} // verus!
