//! A delimiter codec: messages are byte sequences separated by a newline
//! byte, with an optional carriage-return before the delimiter stripped on
//! decode (and never added on encode).

use vstd::prelude::*;

use bytes::Bytes;
use bytes::BytesMut;

use crate::buffers::bm_advance;
use crate::buffers::bm_as_slice;
use crate::buffers::bm_capacity;
use crate::buffers::bm_clone;
use crate::buffers::bm_freeze;
use crate::buffers::bm_len;
use crate::buffers::bm_put_u8;
use crate::buffers::bm_reserve;
use crate::buffers::bm_split_to;
use crate::buffers::bm_truncate;
use crate::buffers::bytes_mut_view;

use crate::codecs::Codec;
use crate::codecs::CodecError;

verus! {

/// The byte that separates messages on the wire.
pub const DELIMITER: u8 = 10;

/// The byte stripped from a message's tail when it precedes the delimiter.
pub const CARRIAGE_RETURN: u8 = 13;

/// A message candidate with at most one trailing carriage-return removed.
pub open spec fn trim_cr(s: Seq<u8>) -> Seq<u8> {
    if s.len() > 0 && s.last() == CARRIAGE_RETURN {
        s.drop_last()
    } else {
        s
    }
}

/// Encode / decode byte sequences separated by newline bytes.
///
/// Decoding is incremental: a scan cursor remembers how far the search for
/// the next delimiter has progressed, so repeated calls on a growing
/// buffer never re-scan bytes already known to hold no delimiter.
pub struct LineCodec {
    index: usize,
}

impl LineCodec {
    /// A fresh codec, consistent with any buffer.
    pub fn new() -> (r: Self)
        ensures
            forall|buf: Seq<u8>| #[trigger] r.valid(buf),
    {
        Self { index: 0 }
    }
}

/// The position found satisfies the first-occurrence characterisation, so
/// it is exactly what `index_of_first` names.
proof fn lemma_first_delimiter_at(s: Seq<u8>, p: int)
    requires
        0 <= p < s.len(),
        s[p] == DELIMITER,
        forall|k: int| 0 <= k < p ==> s[k] != DELIMITER,
    ensures
        s.index_of_first(DELIMITER) == Some(p),
{
    s.index_of_first_ensures(DELIMITER);
    assert(s.contains(DELIMITER));
    let q = s.index_of_first(DELIMITER).unwrap();
    if q < p {
        assert(s[q] == DELIMITER);
        assert(false);
    }
    if q > p {
        assert(s[p] != DELIMITER);
        assert(false);
    }
}

/// Scan `s` for the delimiter, starting at `from`; bytes before `from`
/// are known to hold none, so the result is the first occurrence in all
/// of `s`.
fn find_delimiter(s: &[u8], from: usize) -> (r: Option<usize>)
    requires
        from <= s@.len(),
        forall|k: int| 0 <= k < from ==> s@[k] != DELIMITER,
    ensures
        match r {
            Some(p) => from <= p && s@.index_of_first(DELIMITER) == Some(p as int),
            None => s@.index_of_first(DELIMITER) is None,
        },
{
    let len = s.len();
    let mut i = from;
    while i < len
        invariant
            from <= i <= len,
            len == s@.len(),
            forall|k: int| 0 <= k < i ==> s@[k] != DELIMITER,
        decreases len - i,
    {
        if s[i] == DELIMITER {
            proof {
                lemma_first_delimiter_at(s@, i as int);
            }
            return Some(i);
        }
        i += 1;
    }
    proof {
        s@.index_of_first_ensures(DELIMITER);
        if s@.index_of_first(DELIMITER) is Some {
            let q = s@.index_of_first(DELIMITER).unwrap();
            assert(s@[q] == DELIMITER);
            assert(false);
        }
    }
    None
}

/// Law: while no delimiter byte has arrived, decoding stays silent, for
/// any split of the stream into chunks. A codec consistent with a
/// delimiter-free buffer yields no message and leaves the buffer alone;
/// after one more delimiter-free chunk arrives, the advanced codec is
/// again consistent and again yields no message, so the argument repeats
/// for every chunk until the delimiter comes.
pub proof fn lemma_no_delimiter_chunked(c: LineCodec, buf: Seq<u8>, chunk: Seq<u8>)
    requires
        c.valid(buf),
        forall|i: int| 0 <= i < buf.len() ==> buf[i] != DELIMITER,
        forall|i: int| 0 <= i < chunk.len() ==> chunk[i] != DELIMITER,
    ensures
        c.decode_msg(buf) is None,
        c.decode_rest(buf) == buf,
        c.post_decode(buf).valid(buf + chunk),
        forall|i: int| 0 <= i < (buf + chunk).len() ==> (buf + chunk)[i] != DELIMITER,
{
    lemma_delimiter_free_no_message(buf);
    assert forall|i: int| 0 <= i < (buf + chunk).len() implies (buf + chunk)[i] != DELIMITER by {
        if i < buf.len() {
            assert((buf + chunk)[i] == buf[i]);
        } else {
            assert((buf + chunk)[i] == chunk[i - buf.len()]);
        }
    }
}

/// A delimiter-free sequence has no first delimiter.
proof fn lemma_delimiter_free_no_message(buf: Seq<u8>)
    requires
        forall|i: int| 0 <= i < buf.len() ==> buf[i] != DELIMITER,
    ensures
        buf.index_of_first(DELIMITER) is None,
{
    buf.index_of_first_ensures(DELIMITER);
    if buf.index_of_first(DELIMITER) is Some {
        let q = buf.index_of_first(DELIMITER).unwrap();
        assert(buf[q] == DELIMITER);
        assert(false);
    }
}

/// Law: a framed payload decodes back to the payload, with at most one
/// trailing carriage-return stripped, and consumes the buffer exactly.
/// Payloads holding the delimiter byte are excluded: framing does not
/// escape them, so decoding would split them — the documented limitation
/// of this wire format.
pub proof fn lemma_encode_decode_round_trip(c: LineCodec, d: LineCodec, payload: Seq<u8>)
    requires
        forall|i: int| 0 <= i < payload.len() ==> payload[i] != DELIMITER,
        d.valid(Seq::<u8>::empty()),
    ensures
        c.encode_bytes(payload) == payload.push(DELIMITER),
        d.decode_msg(c.encode_bytes(payload)) == Some(trim_cr(payload)),
        d.decode_rest(c.encode_bytes(payload)) == Seq::<u8>::empty(),
{
    let framed = payload.push(DELIMITER);
    lemma_first_delimiter_at(framed, payload.len() as int);
    assert(framed.take(payload.len() as int) =~= payload);
    assert(framed.skip(payload.len() as int + 1) =~= Seq::<u8>::empty());
}

/// Law: a decode that yields nothing is idempotent. The buffer is left
/// untouched, the codec stays consistent, and the cursor's progress is a
/// fixed point: decoding again with no new bytes yields nothing again and
/// moves nothing.
pub proof fn lemma_partial_decode_idempotent(c: LineCodec, buf: Seq<u8>)
    requires
        c.valid(buf),
        c.decode_msg(buf) is None,
    ensures
        c.decode_rest(buf) == buf,
        c.post_decode(buf).valid(buf),
        c.post_decode(buf).decode_msg(buf) is None,
        c.post_decode(buf).decode_rest(buf) == buf,
        c.post_decode(buf).post_decode(buf) == c.post_decode(buf),
{
    buf.index_of_first_ensures(DELIMITER);
    assert forall|k: int| 0 <= k < buf.len() implies buf[k] != DELIMITER by {
        if buf[k] == DELIMITER {
            assert(buf.contains(DELIMITER));
        }
    }
}

/// Law: fragmentation is invisible. What decoding yields depends on the
/// buffered bytes alone, never on how the cursor got where it is: any two
/// codecs consistent with the same buffer decode it identically. Decoding
/// a buffer built up in fragments therefore yields exactly what decoding
/// it in one shot yields.
pub proof fn lemma_fragmentation_equivalence(c1: LineCodec, c2: LineCodec, buf: Seq<u8>)
    requires
        c1.valid(buf),
        c2.valid(buf),
    ensures
        c1.decode_msg(buf) == c2.decode_msg(buf),
        c1.decode_rest(buf) == c2.decode_rest(buf),
        c1.post_decode(buf) == c2.post_decode(buf),
{
}

impl Codec for LineCodec {
    /// The cursor never outruns the buffer, and no delimiter hides in the
    /// bytes it has already scanned past.
    closed spec fn valid(&self, buf: Seq<u8>) -> bool {
        &&& self.index <= buf.len()
        &&& forall|k: int| 0 <= k < self.index ==> buf[k] != DELIMITER
    }

    /// The bytes before the first delimiter, carriage-return trimmed; no
    /// message while no delimiter has arrived. The cursor is a pure
    /// performance device: the outcome depends on the bytes alone.
    open spec fn decode_msg(&self, buf: Seq<u8>) -> Option<Seq<u8>> {
        match buf.index_of_first(DELIMITER) {
            Some(p) => Some(trim_cr(buf.take(p))),
            None => None,
        }
    }

    open spec fn decode_rest(&self, buf: Seq<u8>) -> Seq<u8> {
        match buf.index_of_first(DELIMITER) {
            Some(p) => buf.skip(p + 1),
            None => buf,
        }
    }

    closed spec fn post_decode(&self, buf: Seq<u8>) -> Self {
        match buf.index_of_first(DELIMITER) {
            Some(_) => (LineCodec { index: 0 }),
            None => (LineCodec { index: buf.len() as usize }),
        }
    }

    open spec fn encode_bytes(&self, payload: Seq<u8>) -> Seq<u8> {
        payload.push(DELIMITER)
    }

    /// Framing never rejects a payload, whatever bytes it holds.
    open spec fn encode_fails(&self, payload: Seq<u8>) -> bool {
        false
    }

    /// One byte of framing must still be allocatable.
    open spec fn encode_ready(&self, payload: Seq<u8>) -> bool {
        payload.len() + 1 <= isize::MAX
    }

    open spec fn post_encode(&self, payload: Seq<u8>) -> Self {
        *self
    }

    proof fn lemma_append_preserves_valid(&self, buf: Seq<u8>, more: Seq<u8>) {
        assert forall|k: int| 0 <= k < self.index implies (buf + more)[k] != DELIMITER by {
            assert((buf + more)[k] == buf[k]);
        }
    }

    proof fn lemma_encode_preserves_valid(&self, buf: Seq<u8>, payload: Seq<u8>) {
    }

    fn decode(&mut self, buf: &mut BytesMut) -> (r: Option<Bytes>) {
        let ghost pre = bytes_mut_view(*buf);
        let pos = {
            let s = bm_as_slice(buf);
            find_delimiter(s, self.index)
        };
        match pos {
            Some(p) => {
                proof {
                    pre.index_of_first_ensures(DELIMITER);
                }
                let mut message = bm_split_to(buf, p);
                let mlen = bm_len(&message);
                if mlen > 0 {
                    let last = {
                        let ms = bm_as_slice(&message);
                        ms[mlen - 1]
                    };
                    if last == CARRIAGE_RETURN {
                        bm_truncate(&mut message, mlen - 1);
                    }
                }
                proof {
                    pre.index_of_first_ensures(DELIMITER);
                    assert(bytes_mut_view(message) =~= trim_cr(pre.take(p as int)));
                }
                let out = bm_freeze(message);
                if bm_len(buf) > 0 {
                    bm_advance(buf, 1);
                }
                proof {
                    assert(bytes_mut_view(*buf) =~= pre.skip(p + 1));
                }
                self.index = 0;
                Some(out)
            },
            None => {
                self.index = bm_len(buf);
                proof {
                    pre.index_of_first_ensures(DELIMITER);
                    assert forall|k: int| 0 <= k < pre.len() implies pre[k] != DELIMITER by {
                        if pre[k] == DELIMITER {
                            assert(pre.contains(DELIMITER));
                        }
                    }
                }
                None
            },
        }
    }

    fn encode(&mut self, buf: &mut BytesMut) -> (r: Result<Bytes, CodecError>) {
        let len = bm_len(buf);
        let cap = bm_capacity(buf);
        if cap - len <= 1 {
            bm_reserve(buf, 1);
        }
        bm_put_u8(buf, DELIMITER);
        let framed = bm_clone(buf);
        Ok(bm_freeze(framed))
    }
}

} // verus!
