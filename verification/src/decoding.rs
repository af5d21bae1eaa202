//! Byte stream decoding utilities.
//!
//! A [`ByteStreamDecoder`] accepts a byte stream chunk by chunk and drives a
//! [`BufDecoder`] over the accumulated bytes until no further progress is
//! possible, collecting every completed message in arrival order.
//!
//! Every decoder carries a per-byte model (see [`DecoderModel`]): an
//! abstract state machine that consumes one byte at a time and says which
//! messages each byte completes.  The contract of [`BufDecoder::decode`]
//! ties the executable decoder to a run of this model over exactly the
//! bytes it consumed, and [`crate::model::lemma_chunk_boundary_invariance`]
//! shows that runs of the model do not depend on how the byte stream is
//! split into chunks.
//!
//! [`SimpleDelimiterDecoder`] is the basic framing decoder: it scans for a
//! start marker, collects payload bytes verbatim until an end marker, and
//! hands each completed, non-empty frame to a [`DecodeCallback`].
use core::marker::PhantomData;

use vstd::prelude::*;

use crate::chunks::ChunkBuf;
use crate::model::{lemma_run_model_concat, lemma_run_model_snoc, run_model, DecoderModel};

verus! {

/// Decoding result.
#[derive(Copy, Clone, Debug, Eq, PartialEq)]
pub enum DecoderResult<T, E> {
    /// An error.
    Error(E),
    /// The input buffer consumed, nothing decoded.
    Empty,
    /// The input buffer consumed, message decoding in progress.
    Partial,
    /// Part of the input ignored, there is more data.
    Ignored,
    /// Part of the input buffer is decoded, there may be more data.
    Decoded(T),
}

impl<T, E> DecoderResult<T, E> {
    /// The messages this outcome delivers: one for `Decoded`, none otherwise.
    pub open spec fn emitted(self) -> Seq<T> {
        match self {
            DecoderResult::Decoded(data) => seq![data],
            _ => Seq::<T>::empty(),
        }
    }
}

/// A frame finalizer: turns a completed frame payload into a message.
///
/// Decoders hold an explicit strategy value of this trait, so that their
/// contracts can say which message a given payload produces.
pub trait DecodeCallback<T> {
    /// The message produced for a given payload.
    spec fn spec_decode(&self, payload: Seq<u8>) -> T;

    /// Produces the message for a completed frame payload.
    fn decode(&self, payload: &[u8]) -> (r: T)
        ensures
            r == self.spec_decode(payload@),
    ;
}

/// Buffer decoder trait.
///
/// A decoder's observable behaviour is fixed by its per-byte model (see
/// [`DecoderModel`]): [`Self::decode`] consumes a prefix of the accumulated
/// bytes and must match the run of the model over exactly that prefix; it
/// never blocks, and it stops with `Empty` or `Partial` only once the
/// buffer is exhausted.
pub trait BufDecoder<T>: DecoderModel<T> {
    /// Error type.
    type Error;

    /// Decodes part of the input buffer consuming it.
    ///
    /// Exactly the consumed prefix, run through the per-byte model, leads
    /// from the old decoder state to the new one and yields the messages of
    /// the returned outcome.  `Empty` and `Partial` are returned only with
    /// the buffer exhausted; `Ignored` and `Decoded` consume at least one
    /// byte, so a driver that retries them always makes progress.
    fn decode(&mut self, buf: &mut ChunkBuf) -> (r: DecoderResult<T, Self::Error>)
        ensures
            final(buf)@.len() <= old(buf)@.len(),
            final(buf)@ == old(buf)@.skip(old(buf)@.len() - final(buf)@.len()),
            ({
                let consumed = old(buf)@.take(old(buf)@.len() - final(buf)@.len());
                let sm = run_model::<T, Self>(old(self).model(), consumed);
                final(self).model() == sm.0 && r.emitted() == sm.1
            }),
            (r is Empty || r is Partial) ==> final(buf)@.len() == 0,
            (r is Ignored || r is Decoded) ==> final(buf)@.len() < old(buf)@.len(),
            old(self).infallible() ==> final(self).infallible() && !(r is Error),
    ;
}

/// Byte stream decoder: the stream driver.
///
/// It owns the chunk accumulator and a [`BufDecoder`]; each call of
/// [`Self::input_bytes`] appends one chunk and then drives the decoder
/// until it reports that nothing more can be decoded without more input.
pub struct ByteStreamDecoder<T: Clone + Send + 'static, D: BufDecoder<T> + Send + 'static> {
    /// Internal buffer.
    buf: ChunkBuf,
    /// Data decoder.
    decoder: D,
    /// Phantom data of type T.
    _phantom: PhantomData<T>,
}

impl<T, D> ByteStreamDecoder<T, D> where
    T: Clone + Send + 'static,
    D: BufDecoder<T> + Send + 'static,
 {
    /// Bytes accepted but not yet consumed by the decoder.
    pub closed spec fn pending(self) -> Seq<u8> {
        self.buf@
    }

    /// The abstract state of the held decoder.
    pub closed spec fn state(self) -> D::Model {
        self.decoder.model()
    }

    /// True when the held decoder never reports an error.
    pub closed spec fn infallible(self) -> bool {
        self.decoder.infallible()
    }

    /// Creates new byte stream decoder.
    pub fn new(decoder: D) -> (r: Self)
        ensures
            r.pending() == Seq::<u8>::empty(),
            r.state() == decoder.model(),
            r.infallible() == decoder.infallible(),
    {
        Self { buf: ChunkBuf::new(), decoder, _phantom: PhantomData }
    }

    /// Input bytes: accepts one chunk and returns the completed messages.
    ///
    /// The chunk is appended to the pending bytes and the decoder is run
    /// until it makes no further progress.  The consumed prefix of the
    /// pending bytes, run through the decoder's per-byte model, accounts
    /// for the new state and for every returned message, in order; no byte
    /// is consumed twice and none is skipped.  A decoder that never errors
    /// always drains the buffer completely.
    pub fn input_bytes(&mut self, data: Vec<u8>) -> (out: Vec<T>)
        ensures
            ({
                let total = old(self).pending() + data@;
                let consumed = total.take(total.len() - final(self).pending().len());
                &&& final(self).pending().len() <= total.len()
                &&& final(self).pending() == total.skip(
                    total.len() - final(self).pending().len(),
                )
                &&& final(self).state() == run_model::<T, D>(old(self).state(), consumed).0
                &&& out@ == run_model::<T, D>(old(self).state(), consumed).1
                &&& old(self).infallible() ==> final(self).infallible()
                &&& old(self).infallible() ==> final(self).pending() == Seq::<u8>::empty()
            }),
    {
        let ghost total = self.buf@ + data@;
        let ghost m0 = self.decoder.model();
        let ghost inf0 = self.decoder.infallible();
        self.buf.push_chunk(data);
        let mut out: Vec<T> = Vec::new();
        loop
            invariant
                self.buf@.len() <= total.len(),
                self.buf@ == total.skip(total.len() - self.buf@.len()),
                self.decoder.model() == run_model::<T, D>(
                    m0,
                    total.take(total.len() - self.buf@.len()),
                ).0,
                out@ == run_model::<T, D>(m0, total.take(total.len() - self.buf@.len())).1,
                inf0 ==> self.decoder.infallible(),
            ensures
                self.buf@.len() <= total.len(),
                self.buf@ == total.skip(total.len() - self.buf@.len()),
                self.decoder.model() == run_model::<T, D>(
                    m0,
                    total.take(total.len() - self.buf@.len()),
                ).0,
                out@ == run_model::<T, D>(m0, total.take(total.len() - self.buf@.len())).1,
                inf0 ==> self.decoder.infallible() && self.buf@.len() == 0,
            decreases self.buf@.len(),
        {
            let ghost pre = self.buf@;
            let r = self.decoder.decode(&mut self.buf);
            proof {
                let consumed_before = total.take(total.len() - pre.len());
                let p = pre.take(pre.len() - self.buf@.len());
                assert(consumed_before + p =~= total.take(total.len() - self.buf@.len()));
                lemma_run_model_concat::<T, D>(m0, consumed_before, p);
            }
            match r {
                DecoderResult::Decoded(data) => {
                    out.push(data);
                },
                DecoderResult::Ignored => {},
                _ => { break; },
            }
        }
        out
    }
}

/// The abstract state of a delimiter-framed decoder.
#[verifier::ext_equal]
pub struct DelimiterModel<C> {
    /// Frame start marker.
    pub start: u8,
    /// Frame end marker.
    pub end: u8,
    /// Frame finalizer.
    pub callback: C,
    /// True while inside a frame.
    pub in_frame: bool,
    /// Payload collected so far for the current frame.
    pub acc: Seq<u8>,
}

/// One byte of the delimiter framing model.
///
/// Outside a frame, every byte other than the start marker is discarded and
/// the start marker opens a frame.  Inside a frame, the end marker closes
/// it, producing one message for a non-empty payload and none for an empty
/// one (back-to-back markers); when start and end marker coincide, the
/// closing marker simultaneously opens the next frame.  Every other byte is
/// appended to the payload.
pub open spec fn delimiter_step<T, C: DecodeCallback<T>>(
    m: DelimiterModel<C>,
    byte: u8,
) -> (DelimiterModel<C>, Seq<T>) {
    if !m.in_frame {
        if byte == m.start {
            (
                DelimiterModel {
                    start: m.start,
                    end: m.end,
                    callback: m.callback,
                    in_frame: true,
                    acc: Seq::<u8>::empty(),
                },
                Seq::<T>::empty(),
            )
        } else {
            (m, Seq::<T>::empty())
        }
    } else if byte == m.end {
        (
            DelimiterModel {
                start: m.start,
                end: m.end,
                callback: m.callback,
                in_frame: m.start == m.end,
                acc: Seq::<u8>::empty(),
            },
            if m.acc.len() == 0 {
                Seq::<T>::empty()
            } else {
                seq![m.callback.spec_decode(m.acc)]
            },
        )
    } else {
        (
            DelimiterModel {
                start: m.start,
                end: m.end,
                callback: m.callback,
                in_frame: true,
                acc: m.acc.push(byte),
            },
            Seq::<T>::empty(),
        )
    }
}

/// Packet decoder: delimiter framing with verbatim payload bytes.
pub struct SimpleDelimiterDecoder<T: Clone + Send + 'static, C: DecodeCallback<T>> {
    /// Packet start delimiter.
    start: u8,
    /// Packet end delimiter.
    end: u8,
    /// Decoder callback.
    decode_callback: C,
    /// Packet decoding is in progress.
    is_decoding: bool,
    /// Decoder buffer.
    buf: Vec<u8>,
    /// Phantom data of type T.
    _phantom: PhantomData<T>,
}

impl<T: Clone + Send + 'static, C: DecodeCallback<T>> SimpleDelimiterDecoder<T, C> {
    /// Creates new packet decoder.
    pub fn new(start: u8, end: u8, decode: C) -> (r: Self)
        ensures
            r.model() == (DelimiterModel {
                start,
                end,
                callback: decode,
                in_frame: false,
                acc: Seq::<u8>::empty(),
            }),
            r.infallible(),
    {
        Self {
            start,
            end,
            decode_callback: decode,
            is_decoding: false,
            buf: Vec::with_capacity(1024),
            _phantom: PhantomData,
        }
    }
}

impl<T: Clone + Send + 'static, C: DecodeCallback<T>> DecoderModel<T> for SimpleDelimiterDecoder<
    T,
    C,
> {
    type Model = DelimiterModel<C>;

    closed spec fn model(self) -> DelimiterModel<C> {
        DelimiterModel {
            start: self.start,
            end: self.end,
            callback: self.decode_callback,
            in_frame: self.is_decoding,
            acc: if self.is_decoding {
                self.buf@
            } else {
                Seq::<u8>::empty()
            },
        }
    }

    open spec fn step_model(m: DelimiterModel<C>, byte: u8) -> (DelimiterModel<C>, Seq<T>) {
        delimiter_step::<T, C>(m, byte)
    }

    open spec fn infallible(self) -> bool {
        true
    }
}

impl<T: Clone + Send + 'static, C: DecodeCallback<T>> BufDecoder<T> for SimpleDelimiterDecoder<
    T,
    C,
> {
    type Error = ();

    fn decode(&mut self, buf: &mut ChunkBuf) -> (r: DecoderResult<T, ()>) {
        let ghost m0 = self.model();
        let ghost pre = buf@;
        if !self.is_decoding {
            self.buf.clear();
            while buf.has_remaining() && buf.peek_byte() != self.start
                invariant
                    buf@.len() <= pre.len(),
                    buf@ == pre.skip(pre.len() - buf@.len()),
                    run_model::<T, Self>(m0, pre.take(pre.len() - buf@.len())).0 == m0,
                    run_model::<T, Self>(m0, pre.take(pre.len() - buf@.len())).1 == Seq::<
                        T,
                    >::empty(),
                    self.model() == m0,
                    !self.is_decoding,
                decreases buf@.len(),
            {
                let ghost consumed = pre.take(pre.len() - buf@.len());
                let ghost b = buf@[0];
                buf.advance(1);
                proof {
                    lemma_run_model_snoc::<T, Self>(m0, consumed, b);
                    assert(consumed.push(b) =~= pre.take(pre.len() - buf@.len()));
                }
            }
            if !buf.has_remaining() {
                proof {
                    assert(pre.take(pre.len() - buf@.len()) =~= pre);
                }
                return DecoderResult::Empty;
            }
            let ghost consumed = pre.take(pre.len() - buf@.len());
            let ghost b = buf@[0];
            buf.advance(1);
            self.is_decoding = true;
            proof {
                lemma_run_model_snoc::<T, Self>(m0, consumed, b);
                assert(consumed.push(b) =~= pre.take(pre.len() - buf@.len()));
            }
        }
        while buf.has_remaining() && buf.peek_byte() != self.end
            invariant
                buf@.len() <= pre.len(),
                buf@ == pre.skip(pre.len() - buf@.len()),
                run_model::<T, Self>(m0, pre.take(pre.len() - buf@.len())).0 == self.model(),
                run_model::<T, Self>(m0, pre.take(pre.len() - buf@.len())).1 == Seq::<T>::empty(),
                self.is_decoding,
                self.start == m0.start && self.end == m0.end && self.decode_callback
                    == m0.callback,
            decreases buf@.len(),
        {
            let ghost consumed = pre.take(pre.len() - buf@.len());
            let b = buf.read_byte();
            self.buf.push(b);
            proof {
                lemma_run_model_snoc::<T, Self>(m0, consumed, b);
                assert(consumed.push(b) =~= pre.take(pre.len() - buf@.len()));
            }
        }
        if !buf.has_remaining() {
            proof {
                assert(pre.take(pre.len() - buf@.len()) =~= pre);
            }
            return DecoderResult::Partial;
        }
        let ghost consumed = pre.take(pre.len() - buf@.len());
        let ghost mcur = self.model();
        let ghost b = buf@[0];
        buf.advance(1);
        let ghost consumed2 = pre.take(pre.len() - buf@.len());
        proof {
            lemma_run_model_snoc::<T, Self>(m0, consumed, b);
            assert(consumed.push(b) =~= consumed2);
            assert(run_model::<T, Self>(m0, consumed2).0 == delimiter_step::<T, C>(mcur, b).0);
            assert(run_model::<T, Self>(m0, consumed2).1 =~= delimiter_step::<T, C>(mcur, b).1);
        }
        if self.start == self.end {
            if self.buf.is_empty() {
                proof {
                    assert(self.model() =~= delimiter_step::<T, C>(mcur, b).0);
                }
                return DecoderResult::Ignored;
            }
            let msg = self.decode_callback.decode(self.buf.as_slice());
            self.buf.clear();
            proof {
                assert(self.model() =~= delimiter_step::<T, C>(mcur, b).0);
            }
            DecoderResult::Decoded(msg)
        } else {
            self.is_decoding = false;
            if self.buf.is_empty() {
                proof {
                    assert(self.model() =~= delimiter_step::<T, C>(mcur, b).0);
                }
                return DecoderResult::Ignored;
            }
            let msg = self.decode_callback.decode(self.buf.as_slice());
            proof {
                assert(self.model() =~= delimiter_step::<T, C>(mcur, b).0);
            }
            DecoderResult::Decoded(msg)
        }
    }
}

} // verus!
