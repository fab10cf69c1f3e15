//! The byte buffer of one connection and the taking of frames from it.
//!
//! The transport itself is not held here: whoever owns it hands over the
//! bytes it delivered, and is told whether a frame is ready, more bytes are
//! needed, or the connection is over.

use vstd::prelude::*;
use crate::buffer::{advance, append, contents, held, held_len, with_room};
use crate::codec::{attempt, try_frame, Attempt};
use crate::frame::RespFrame;

verus! {

/// The room that a new buffer is made with.
pub const INITIAL_CAPACITY: usize = 4096;

/// Why reading from a connection failed.
#[derive(Debug, Clone, Copy, PartialEq, Eq, Structural)]
pub enum ConnError {
    /// The buffered bytes are no frame.
    Malformed,
    /// The stream ended while a frame was only partly received.
    ResetByPeer,
}

impl ConnError {
    /// A sentence for the log.
    pub fn message(&self) -> (text: String)
        ensures
            text@ == (match *self {
                ConnError::Malformed => "protocol error; invalid frame format"@,
                ConnError::ResetByPeer => "Connection reset by peer."@,
            }),
    {
        match self {
            ConnError::Malformed => "protocol error; invalid frame format".to_string(),
            ConnError::ResetByPeer => "Connection reset by peer.".to_string(),
        }
    }
}

/// What a turn of reading came to.
#[derive(Debug, PartialEq, Eq)]
pub enum Progress {
    /// A complete frame was taken from the buffer.
    Ready(RespFrame),
    /// The buffer holds no complete frame yet.
    Pending,
    /// The stream ended with nothing pending.
    Closed,
}

/// The receiving side of one connection: the bytes that have arrived and
/// have not yet been taken as a frame.
pub struct Connection {
    buffer: bytes::BytesMut,
}

impl View for Connection {
    type V = Seq<u8>;

    closed spec fn view(&self) -> Seq<u8> {
        held(self.buffer)
    }
}

/// What an attempt means for the reader and for the buffered bytes: a
/// taken frame leaves the buffer with exactly its own bytes, and nothing
/// else changes the buffer.
pub open spec fn conclude(pending: Seq<u8>, found: Attempt) -> (
    Result<Option<RespFrame>, ConnError>,
    Seq<u8>,
) {
    match found {
        Attempt::Taken(f, n) => (Ok(Some(f)), pending.skip(n as int)),
        Attempt::Pending => (Ok(None), pending),
        Attempt::Invalid => (Err(ConnError::Malformed), pending),
    }
}

/// The result and the remaining bytes of one attempt on `pending`.
pub open spec fn parse_step(pending: Seq<u8>) -> (Result<Option<RespFrame>, ConnError>, Seq<u8>) {
    conclude(pending, attempt(pending))
}

/// The result and the remaining bytes of one turn of reading, in which the
/// transport delivered `received` (nothing: the stream has ended) while
/// `pending` was buffered.
pub open spec fn read_step(pending: Seq<u8>, received: Seq<u8>) -> (
    Result<Progress, ConnError>,
    Seq<u8>,
) {
    if received.len() == 0 {
        if pending.len() == 0 {
            (Ok(Progress::Closed), pending)
        } else {
            (Err(ConnError::ResetByPeer), pending)
        }
    } else {
        match parse_step(pending + received) {
            (Ok(Some(f)), rest) => (Ok(Progress::Ready(f)), rest),
            (Ok(None), rest) => (Ok(Progress::Pending), rest),
            (Err(e), rest) => (Err(e), rest),
        }
    }
}

impl Connection {
    /// A connection on which nothing has arrived yet.
    pub fn new() -> (c: Self)
        ensures
            c@ == Seq::<u8>::empty(),
    {
        Connection { buffer: with_room(INITIAL_CAPACITY) }
    }

    /// The number of buffered bytes.
    pub fn pending(&self) -> (n: usize)
        ensures
            n == self@.len(),
    {
        held_len(&self.buffer)
    }

    /// Acts on an attempt that was made on the buffered bytes: drops the
    /// bytes of a taken frame from the front and hands the frame on.
    pub fn conclude(&mut self, found: Attempt) -> (r: Result<Option<RespFrame>, ConnError>)
        requires
            found matches Attempt::Taken(_, n) ==> n <= old(self)@.len(),
        ensures
            r == conclude(old(self)@, found).0,
            final(self)@ == conclude(old(self)@, found).1,
    {
        match found {
            Attempt::Taken(f, n) => {
                advance(&mut self.buffer, n);
                Ok(Some(f))
            },
            Attempt::Pending => Ok(None),
            Attempt::Invalid => Err(ConnError::Malformed),
        }
    }

    /// Attempts to take one frame from the front of the buffer. On success
    /// exactly the bytes of that frame leave the buffer; otherwise the buffer
    /// stays as it is.
    pub fn parse(&mut self) -> (r: Result<Option<RespFrame>, ConnError>)
        ensures
            r == parse_step(old(self)@).0,
            final(self)@ == parse_step(old(self)@).1,
    {
        let found = try_frame(contents(&self.buffer));
        self.conclude(found)
    }

    /// One turn of reading, after the transport delivered `received`. An
    /// empty delivery is the end of the stream: a clean close where nothing
    /// is pending, a reset otherwise. Any other delivery is appended to the
    /// buffer, and one attempt is made on the whole.
    pub fn read(&mut self, received: &[u8]) -> (r: Result<Progress, ConnError>)
        ensures
            r == read_step(old(self)@, received@).0,
            final(self)@ == read_step(old(self)@, received@).1,
    {
        if received.len() == 0 {
            if held_len(&self.buffer) == 0 {
                return Ok(Progress::Closed);
            } else {
                return Err(ConnError::ResetByPeer);
            }
        }
        append(&mut self.buffer, received);
        match self.parse() {
            Ok(Some(f)) => Ok(Progress::Ready(f)),
            Ok(None) => Ok(Progress::Pending),
            Err(e) => Err(e),
        }
    }
}

/// Delivery in two parts: where the first part alone leaves the reader
/// waiting, delivering the second part afterwards gives the same result and
/// leaves the same bytes as delivering both parts at once.
pub proof fn law_delivery_in_two_parts(pending: Seq<u8>, first: Seq<u8>, second: Seq<u8>)
    requires
        first.len() > 0,
        second.len() > 0,
        read_step(pending, first).0 == Ok::<Progress, ConnError>(Progress::Pending),
    ensures
        read_step(read_step(pending, first).1, second) == read_step(pending, first + second),
{
    assert((pending + first) + second =~= pending + (first + second));
}

/// A turn that fails hands on no frame and drops no byte: the buffer holds
/// what was pending and what was delivered.
pub proof fn law_failed_turn_keeps_bytes(pending: Seq<u8>, received: Seq<u8>)
    requires
        read_step(pending, received).0 is Err,
    ensures
        read_step(pending, received).1 == pending + received,
{
    if received.len() == 0 {
        assert(pending + received =~= pending);
    }
}

/// The result and the remaining bytes after the transport delivered the
/// parts of `deliveries` one after the other, the reader taking a turn
/// after each for as long as it is left waiting. With nothing delivered the
/// reader waits.
pub open spec fn read_steps(pending: Seq<u8>, deliveries: Seq<Seq<u8>>) -> (
    Result<Progress, ConnError>,
    Seq<u8>,
)
    decreases deliveries.len(),
{
    if deliveries.len() == 0 {
        (Ok(Progress::Pending), pending)
    } else {
        let before = read_steps(pending, deliveries.drop_last());
        if before.0 == Ok::<Progress, ConnError>(Progress::Pending) {
            read_step(before.1, deliveries.last())
        } else {
            before
        }
    }
}

/// The bytes of all parts, in order.
pub open spec fn joined(deliveries: Seq<Seq<u8>>) -> Seq<u8>
    decreases deliveries.len(),
{
    if deliveries.len() == 0 {
        Seq::empty()
    } else {
        joined(deliveries.drop_last()) + deliveries.last()
    }
}

/// Delivery in any number of parts: where every part but the last leaves
/// the reader waiting and the last part is not empty, the last turn gives the same result and leaves the
/// same bytes as one delivery of all the bytes at once.
pub proof fn law_delivery_in_parts(pending: Seq<u8>, deliveries: Seq<Seq<u8>>)
    requires
        deliveries.len() > 0,
        deliveries.last().len() > 0,
        read_steps(pending, deliveries.drop_last()).0 == Ok::<Progress, ConnError>(
            Progress::Pending,
        ),
    ensures
        read_steps(pending, deliveries) == read_step(pending, joined(deliveries)),
{
    lemma_waiting_keeps_all_bytes(pending, deliveries.drop_last());
    assert(pending + joined(deliveries) =~= (pending + joined(deliveries.drop_last()))
        + deliveries.last());
}

/// While the reader is left waiting, the buffer holds all that was pending
/// and all that was delivered.
proof fn lemma_waiting_keeps_all_bytes(pending: Seq<u8>, deliveries: Seq<Seq<u8>>)
    requires
        read_steps(pending, deliveries).0 == Ok::<Progress, ConnError>(Progress::Pending),
    ensures
        read_steps(pending, deliveries).1 == pending + joined(deliveries),
    decreases deliveries.len(),
{
    if deliveries.len() == 0 {
        assert(pending + joined(deliveries) =~= pending);
    } else {
        let before = read_steps(pending, deliveries.drop_last());
        lemma_waiting_keeps_all_bytes(pending, deliveries.drop_last());
        assert(pending + joined(deliveries) =~= (pending + joined(deliveries.drop_last()))
            + deliveries.last());
    }
}

} // verus!
