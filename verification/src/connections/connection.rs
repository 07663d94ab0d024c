//! A buffered connection: one transport identity, one codec, a read
//! buffer and a write buffer.
//!
//! The transport itself (the OS socket) lives outside this library; the
//! event loop that owns it performs the actual reads and writes and hands
//! their outcomes in as plain values. The connection decides everything
//! else: when a read or write should be attempted, how read bytes feed
//! the codec, which messages come out, and how the write buffer drains.
//!
//! Receiving is therefore split in two: `recv` drains a message that is
//! already buffered or says whether a read should be attempted, and
//! `recv_complete` classifies the outcome of that read. Sending splits
//! the same way into `write` and `write_complete`.

use vstd::prelude::*;

use bytes::Bytes;
use bytes::BytesMut;

use crate::buffers::bm_as_slice;
use crate::buffers::bm_len;
use crate::buffers::bm_put_slice;
use crate::buffers::bm_remaining_mut;
use crate::buffers::bm_reserve;
use crate::buffers::bm_split_to;
use crate::buffers::bm_with_capacity;
use crate::buffers::bytes_as_slice;
use crate::buffers::bytes_len;
use crate::buffers::bytes_mut_view;
use crate::buffers::bytes_view;

use crate::codecs::Codec;
use crate::codecs::CodecError;

use crate::reactor::Reaction;
use crate::reactor::Reactive;

verus! {

/// A transport failure surfaced to the caller; a would-block condition is
/// never one of these.
#[derive(Debug, Clone, PartialEq, Eq)]
pub enum IoError {
    /// The peer closed the stream: a read returned zero bytes.
    ConnectionReset,
    /// Any other transport failure, carried verbatim.
    Other(String),
}

/// The outcome of one non-blocking read attempted by the caller.
#[derive(Debug, Clone)]
pub enum ReadOutcome {
    /// The read returned these bytes.
    Data(Vec<u8>),
    /// The read returned zero bytes: the peer terminated the stream.
    Closed,
    /// The transport was not ready after all.
    WouldBlock,
    /// The read failed.
    Failed(IoError),
}

/// The outcome of one non-blocking write attempted by the caller.
#[derive(Debug, Clone)]
pub enum WriteOutcome {
    /// The write accepted this many bytes.
    Wrote(usize),
    /// The transport was not ready after all.
    WouldBlock,
    /// The write failed.
    Failed(IoError),
}

/// What one `recv` call found.
#[derive(Debug)]
pub enum RecvState {
    /// A complete message was already buffered.
    Message(Bytes),
    /// The transport reports readable: attempt a read and hand its
    /// outcome to `recv_complete`.
    NeedRead,
    /// Nothing available: wait for the next readiness notification.
    NotReady,
}

/// What one `write` call decided.
#[derive(Debug, PartialEq, Eq)]
pub enum WriteState {
    /// Outbound bytes are buffered and the transport reports writable:
    /// attempt a write and hand its outcome to `write_complete`.
    NeedWrite,
    /// Nothing to do: no buffered bytes, or the transport is not ready.
    Idle,
}

/// One transport identity bridged to one codec through a read buffer and
/// a write buffer.
pub struct Connection<C: Codec> {
    token: usize,
    codec: C,
    read_buffer: BytesMut,
    write_buffer: BytesMut,
    read_capacity: usize,
    is_encoding: bool,
    readable: bool,
    writable: bool,
}

impl<C: Codec> Connection<C> {
    /// The bytes received but not yet consumed into a message.
    pub closed spec fn inbox(&self) -> Seq<u8> {
        bytes_mut_view(self.read_buffer)
    }

    /// The encoded bytes not yet accepted by the transport.
    pub closed spec fn outbox(&self) -> Seq<u8> {
        bytes_mut_view(self.write_buffer)
    }

    /// The codec's current framing state.
    pub closed spec fn codec_state(&self) -> C {
        self.codec
    }

    /// Whether the buffer may still hold complete messages, so the next
    /// `recv` tries the codec before asking for a read.
    pub closed spec fn draining(&self) -> bool {
        self.is_encoding
    }

    /// The last readiness notification said the transport is readable.
    pub closed spec fn is_readable(&self) -> bool {
        self.readable
    }

    /// The last readiness notification said the transport is writable.
    pub closed spec fn is_writable(&self) -> bool {
        self.writable
    }

    /// The fixed read quantum: how much one read attempt asks for.
    pub closed spec fn quantum(&self) -> usize {
        self.read_capacity
    }

    /// The codec is consistent with the read buffer it is fed.
    pub open spec fn wf(&self) -> bool {
        self.codec_state().valid(self.inbox())
    }

    /// A connection for a freshly available transport: empty buffers, no
    /// readiness seen yet.
    pub fn new(token: usize, codec: C, read_capacity: usize, write_capacity: usize) -> (r: Self)
        requires
            codec.valid(Seq::<u8>::empty()),
        ensures
            r.wf(),
            r.token_spec() == token,
            r.codec_state() == codec,
            r.inbox() == Seq::<u8>::empty(),
            r.outbox() == Seq::<u8>::empty(),
            !r.draining(),
            !r.is_readable(),
            !r.is_writable(),
            r.quantum() == read_capacity,
    {
        Self {
            token,
            codec,
            read_buffer: bm_with_capacity(read_capacity),
            write_buffer: bm_with_capacity(write_capacity),
            read_capacity,
            is_encoding: false,
            readable: false,
            writable: false,
        }
    }

    /// How many bytes the read that `recv` asks for should request.
    pub fn read_quantum(&self) -> (r: usize)
        ensures
            r == self.quantum(),
    {
        self.read_capacity
    }

    /// Whether the last readiness notification reported readable.
    pub fn readable(&self) -> (r: bool)
        ensures
            r == self.is_readable(),
    {
        self.readable
    }

    /// Whether the last readiness notification reported writable.
    pub fn writable(&self) -> (r: bool)
        ensures
            r == self.is_writable(),
    {
        self.writable
    }

    /// Pull at most one inbound message.
    ///
    /// First drains a message the codec can already produce from the
    /// buffered bytes; otherwise reports whether a read should be
    /// attempted, which depends on the last readiness notification.
    pub fn recv(&mut self) -> (r: RecvState)
        requires
            old(self).wf(),
        ensures
            final(self).wf(),
            final(self).token_spec() == old(self).token_spec(),
            final(self).quantum() == old(self).quantum(),
            final(self).outbox() == old(self).outbox(),
            final(self).is_readable() == old(self).is_readable(),
            final(self).is_writable() == old(self).is_writable(),
            ({
                let c = old(self).codec_state();
                let inbox = old(self).inbox();
                if old(self).draining() && c.decode_msg(inbox) is Some {
                    &&& match r {
                        RecvState::Message(m) => c.decode_msg(inbox) == Some(bytes_view(m)),
                        _ => false,
                    }
                    &&& final(self).inbox() == c.decode_rest(inbox)
                    &&& final(self).codec_state() == c.post_decode(inbox)
                    &&& final(self).draining()
                } else {
                    &&& final(self).inbox() == inbox
                    &&& final(self).codec_state() == if old(self).draining() {
                        c.post_decode(inbox)
                    } else {
                        c
                    }
                    &&& !final(self).draining()
                    &&& r is NeedRead <==> old(self).is_readable()
                    &&& r is NotReady <==> !old(self).is_readable()
                }
            }),
    {
        if self.is_encoding {
            match self.codec.decode(&mut self.read_buffer) {
                Some(message) => {
                    return RecvState::Message(message);
                },
                None => {
                    self.is_encoding = false;
                },
            }
        }
        if !self.readable {
            return RecvState::NotReady;
        }
        RecvState::NeedRead
    }

    /// Classify the outcome of the read that `recv` asked for.
    ///
    /// A zero-byte read is always a `ConnectionReset`, never "nothing
    /// available". Read bytes are appended to the read buffer and the
    /// codec is given one chance to produce a message; if it cannot, the
    /// bytes are retained for the next call and nothing is returned,
    /// which is not an error.
    pub fn recv_complete(&mut self, outcome: ReadOutcome) -> (r: Option<Result<Bytes, IoError>>)
        requires
            old(self).wf(),
            outcome matches ReadOutcome::Data(d) ==> old(self).inbox().len() + d@.len()
                <= isize::MAX,
        ensures
            final(self).wf(),
            final(self).token_spec() == old(self).token_spec(),
            final(self).quantum() == old(self).quantum(),
            final(self).outbox() == old(self).outbox(),
            final(self).is_readable() == old(self).is_readable(),
            final(self).is_writable() == old(self).is_writable(),
            match outcome {
                ReadOutcome::Closed => ({
                    &&& r == Some(Result::<Bytes, IoError>::Err(IoError::ConnectionReset))
                    &&& *final(self) == *old(self)
                }),
                ReadOutcome::WouldBlock => r is None && *final(self) == *old(self),
                ReadOutcome::Failed(e) => ({
                    &&& r == Some(Result::<Bytes, IoError>::Err(e))
                    &&& *final(self) == *old(self)
                }),
                ReadOutcome::Data(d) => ({
                    let grown = old(self).inbox() + d@;
                    let c = old(self).codec_state();
                    &&& final(self).codec_state() == c.post_decode(grown)
                    &&& match c.decode_msg(grown) {
                        Some(m) => (match r {
                            Some(res) => res matches Ok(msg) && bytes_view(msg) == m,
                            None => false,
                        }) && final(self).inbox() == c.decode_rest(grown) && final(self).draining(),
                        None => ({
                            &&& r is None
                            &&& final(self).inbox() == grown
                            &&& !final(self).draining()
                        }),
                    }
                }),
            },
    {
        match outcome {
            ReadOutcome::Closed => Some(Err(IoError::ConnectionReset)),
            ReadOutcome::WouldBlock => None,
            ReadOutcome::Failed(e) => Some(Err(e)),
            ReadOutcome::Data(data) => {
                let ghost pre_inbox = bytes_mut_view(self.read_buffer);
                bm_put_slice(&mut self.read_buffer, data.as_slice());
                proof {
                    self.codec.lemma_append_preserves_valid(pre_inbox, data@);
                }
                match self.codec.decode(&mut self.read_buffer) {
                    Some(message) => {
                        self.is_encoding = true;
                        Some(Ok(message))
                    },
                    None => {
                        self.is_encoding = false;
                        None
                    },
                }
            },
        }
    }

    /// Decide whether a write should be attempted: only when outbound
    /// bytes are buffered and the transport reports writable.
    pub fn write(&self) -> (r: WriteState)
        ensures
            r is NeedWrite <==> (self.is_writable() && self.outbox().len() > 0),
            r is Idle <==> !(self.is_writable() && self.outbox().len() > 0),
    {
        if !self.writable {
            return WriteState::Idle;
        }
        if bm_len(&self.write_buffer) == 0 {
            return WriteState::Idle;
        }
        WriteState::NeedWrite
    }

    /// The buffered outbound bytes, for the caller to hand to the
    /// transport's write.
    pub fn pending_writes(&self) -> (r: &[u8])
        ensures
            r@ == self.outbox(),
    {
        bm_as_slice(&self.write_buffer)
    }

    /// Classify the outcome of the write that `write` asked for.
    ///
    /// An accepted count removes exactly that many bytes from the front
    /// of the write buffer; the remainder keeps its order, so partial
    /// writes lose and reorder nothing.
    pub fn write_complete(&mut self, outcome: WriteOutcome) -> (r: Option<Result<usize, IoError>>)
        requires
            old(self).wf(),
            outcome matches WriteOutcome::Wrote(n) ==> n <= old(self).outbox().len(),
        ensures
            final(self).wf(),
            final(self).token_spec() == old(self).token_spec(),
            final(self).quantum() == old(self).quantum(),
            final(self).inbox() == old(self).inbox(),
            final(self).codec_state() == old(self).codec_state(),
            final(self).draining() == old(self).draining(),
            final(self).is_readable() == old(self).is_readable(),
            final(self).is_writable() == old(self).is_writable(),
            match outcome {
                WriteOutcome::Wrote(n) => ({
                    &&& r == Some(Result::<usize, IoError>::Ok(n))
                    &&& final(self).outbox() == old(self).outbox().skip(n as int)
                }),
                WriteOutcome::WouldBlock => r is None && *final(self) == *old(self),
                WriteOutcome::Failed(e) => ({
                    &&& r == Some(Result::<usize, IoError>::Err(e))
                    &&& *final(self) == *old(self)
                }),
            },
    {
        match outcome {
            WriteOutcome::Wrote(n) => {
                let _sent = bm_split_to(&mut self.write_buffer, n);
                Some(Ok(n))
            },
            WriteOutcome::WouldBlock => None,
            WriteOutcome::Failed(e) => Some(Err(e)),
        }
    }

    /// Frame a payload with this connection's codec.
    pub fn encode(&mut self, payload: BytesMut) -> (r: Bytes)
        requires
            old(self).wf(),
            old(self).codec_state().encode_ready(bytes_mut_view(payload)),
            !old(self).codec_state().encode_fails(bytes_mut_view(payload)),
        ensures
            final(self).wf(),
            bytes_view(r) == old(self).codec_state().encode_bytes(bytes_mut_view(payload)),
            final(self).codec_state() == old(self).codec_state().post_encode(
                bytes_mut_view(payload),
            ),
            final(self).token_spec() == old(self).token_spec(),
            final(self).quantum() == old(self).quantum(),
            final(self).inbox() == old(self).inbox(),
            final(self).outbox() == old(self).outbox(),
            final(self).draining() == old(self).draining(),
            final(self).is_readable() == old(self).is_readable(),
            final(self).is_writable() == old(self).is_writable(),
    {
        let mut payload = payload;
        let ghost c0 = self.codec;
        let ghost inbox0 = bytes_mut_view(self.read_buffer);
        let ghost payload0 = bytes_mut_view(payload);
        proof {
            c0.lemma_encode_preserves_valid(inbox0, payload0);
        }
        match self.codec.encode(&mut payload) {
            Ok(framed) => framed,
            Err(_) => {
                proof {
                    assert(false);
                }
                vstd::pervasive::unreached()
            },
        }
    }

    /// Append already-framed bytes to the write buffer; the transport is
    /// not touched.
    pub fn add_payload(&mut self, payload: Bytes)
        requires
            old(self).wf(),
            old(self).outbox().len() + bytes_view(payload).len() <= isize::MAX,
        ensures
            final(self).wf(),
            final(self).outbox() == old(self).outbox() + bytes_view(payload),
            final(self).token_spec() == old(self).token_spec(),
            final(self).quantum() == old(self).quantum(),
            final(self).inbox() == old(self).inbox(),
            final(self).codec_state() == old(self).codec_state(),
            final(self).draining() == old(self).draining(),
            final(self).is_readable() == old(self).is_readable(),
            final(self).is_writable() == old(self).is_writable(),
    {
        let n = bytes_len(&payload);
        let rem = bm_remaining_mut(&self.write_buffer);
        if n > rem {
            bm_reserve(&mut self.write_buffer, n);
        }
        bm_put_slice(&mut self.write_buffer, bytes_as_slice(&payload));
    }
}

impl<C: Codec> Reactive for Connection<C> {
    closed spec fn token_spec(&self) -> usize {
        self.token
    }

    /// An event addressed to this connection replaces both readiness
    /// flags; everything else leaves the connection alone.
    closed spec fn post_react(&self, reaction: Reaction<()>) -> Self {
        match reaction {
            Reaction::Event(ev) => if ev.token == self.token {
                Connection { readable: ev.readable, writable: ev.writable, ..*self }
            } else {
                *self
            },
            _ => *self,
        }
    }

    /// An absorbed event yields `Continue`; anything else passes through.
    closed spec fn react_result(&self, reaction: Reaction<()>) -> Reaction<()> {
        match reaction {
            Reaction::Event(ev) => if ev.token == self.token {
                Reaction::Continue
            } else {
                reaction
            },
            _ => reaction,
        }
    }

    fn token(&self) -> (t: usize) {
        self.token
    }

    fn react(&mut self, reaction: Reaction<()>) -> (r: Reaction<()>) {
        match reaction {
            Reaction::Event(ev) => {
                if ev.token == self.token {
                    self.readable = ev.readable;
                    self.writable = ev.writable;
                    Reaction::Continue
                } else {
                    Reaction::Event(ev)
                }
            },
            other => other,
        }
    }
}

/// Absorbing a readiness update touches the readiness flags alone: the
/// buffers, the codec and its consistency all survive.
pub proof fn lemma_react_preserves_state<C: Codec>(c: Connection<C>, reaction: Reaction<()>)
    ensures
        c.post_react(reaction).inbox() == c.inbox(),
        c.post_react(reaction).outbox() == c.outbox(),
        c.post_react(reaction).codec_state() == c.codec_state(),
        c.post_react(reaction).draining() == c.draining(),
        c.post_react(reaction).quantum() == c.quantum(),
        c.wf() ==> c.post_react(reaction).wf(),
{
}

} // verus!
