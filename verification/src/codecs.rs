//! The codec contract: the interface every framing format implements.
//!
//! A codec turns the front of an accumulation buffer into at most one
//! complete message per `decode` call, and frames one payload per `encode`
//! call. Its behaviour is pinned down by spec functions of the trait, so
//! that the connection layer can be verified against any codec.

use vstd::prelude::*;

use bytes::Bytes;
use bytes::BytesMut;

use crate::buffers::bytes_mut_view;
use crate::buffers::bytes_view;

pub mod line;

pub use line::LineCodec;

verus! {

/// The error returned when a payload cannot be framed for transmission.
#[derive(Debug)]
pub enum CodecError {
    Other(String),
}

/// A framing format: incremental decoding of messages from the front of a
/// byte buffer, and framing of outbound payloads.
///
/// The spec functions give the mathematical behaviour of the format on the
/// byte sequence a buffer holds; `decode` and `encode` are proved against
/// them. `valid` is the codec's private consistency with the buffer it is
/// fed (for a scanning codec, that its cursor has not outrun the buffer);
/// it is preserved by `decode` and by appending bytes at the back, so a
/// caller that only ever appends can keep calling `decode`.
pub trait Codec: Sized {
    /// The codec's internal state is consistent with the buffer contents.
    spec fn valid(&self, buf: Seq<u8>) -> bool;

    /// The message that one `decode` call on `buf` yields, if any.
    spec fn decode_msg(&self, buf: Seq<u8>) -> Option<Seq<u8>>;

    /// What `decode` leaves in the buffer.
    spec fn decode_rest(&self, buf: Seq<u8>) -> Seq<u8>;

    /// The codec state after one `decode` call on `buf`.
    spec fn post_decode(&self, buf: Seq<u8>) -> Self;

    /// The framed form of a payload.
    spec fn encode_bytes(&self, payload: Seq<u8>) -> Seq<u8>;

    /// Whether framing this payload fails with a `CodecError`.
    spec fn encode_fails(&self, payload: Seq<u8>) -> bool;

    /// Whether the payload is small enough to be framed in place.
    spec fn encode_ready(&self, payload: Seq<u8>) -> bool;

    /// The codec state after one `encode` call.
    spec fn post_encode(&self, payload: Seq<u8>) -> Self;

    /// Consistency with a buffer survives appending bytes at the back.
    proof fn lemma_append_preserves_valid(&self, buf: Seq<u8>, more: Seq<u8>)
        requires
            self.valid(buf),
        ensures
            self.valid(buf + more),
    ;

    /// Framing a payload never disturbs the decoding side: consistency
    /// with the accumulation buffer survives an `encode` call.
    proof fn lemma_encode_preserves_valid(&self, buf: Seq<u8>, payload: Seq<u8>)
        requires
            self.valid(buf),
        ensures
            self.post_encode(payload).valid(buf),
    ;

    /// Extract at most one complete message from the front of `buf`.
    ///
    /// Returns `None` when the buffered data holds no complete message;
    /// that is not an error, and the buffer is left untouched so the call
    /// can be repeated once more bytes arrive. On success the consumed
    /// bytes, framing included, are removed from the front.
    fn decode(&mut self, buf: &mut BytesMut) -> (r: Option<Bytes>)
        requires
            old(self).valid(bytes_mut_view(*old(buf))),
        ensures
            ({
                let pre = bytes_mut_view(*old(buf));
                &&& *final(self) == old(self).post_decode(pre)
                &&& bytes_mut_view(*final(buf)) == old(self).decode_rest(pre)
                &&& final(self).valid(bytes_mut_view(*final(buf)))
                &&& match r {
                    Some(msg) => old(self).decode_msg(pre) == Some(bytes_view(msg)),
                    None => old(self).decode_msg(pre) is None && bytes_mut_view(*final(buf))
                        == pre,
                }
            }),
    ;

    /// Frame the payload held by `buf` for transmission.
    ///
    /// Appends the framing in place and returns the framed bytes. Fails
    /// only when the payload cannot be framed; no payload content is
    /// rejected.
    fn encode(&mut self, buf: &mut BytesMut) -> (r: Result<Bytes, CodecError>)
        requires
            old(self).encode_ready(bytes_mut_view(*old(buf))),
        ensures
            ({
                let pre = bytes_mut_view(*old(buf));
                &&& *final(self) == old(self).post_encode(pre)
                &&& match r {
                    Ok(framed) => !old(self).encode_fails(pre) && bytes_view(framed)
                        == old(self).encode_bytes(pre) && bytes_mut_view(*final(buf))
                        == old(self).encode_bytes(pre),
                    Err(_) => old(self).encode_fails(pre) && bytes_mut_view(*final(buf)) == pre,
                }
            }),
    ;
}

} // verus!
