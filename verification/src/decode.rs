//! Byte stream decoding with a pluggable per-byte transform stage.
//!
//! This module refines the plain framing of [`crate::decoding`]: the
//! [`ByteDelimitedDecoder`] scans for a start marker, then feeds every
//! payload byte through a [`ByteTransformer`] (an escape decoder, for
//! instance) before appending its output to the frame payload, until an end
//! marker completes the frame.  A transformer may also abort the frame,
//! which surfaces as a regular decoded message rather than an error, so a
//! corrupted frame never fails the stream.
//!
//! [`ByteStreamDecoder`] is the stream driver: it accepts chunks of bytes
//! and drives a [`BufDecoder`] until no further progress is possible.  The
//! KISS instantiation of the delimited decoder lives in [`kiss_decoder`].
use core::marker::PhantomData;

use vstd::prelude::*;

use crate::chunks::ChunkBuf;
use crate::model::{lemma_run_model_concat, lemma_run_model_snoc, run_model, DecoderModel};

pub use crate::decoding::DecodeCallback;

pub mod kiss_decoder;

verus! {

/// Buffer decoding result.
#[derive(Copy, Clone, Debug, Eq, PartialEq)]
pub enum BufDecoderResult<T> {
    /// Input buffer consumed, nothing decoded.
    Empty,
    /// Input buffer consumed, message decoding in progress.
    Partial,
    /// Part of the input ignored, there is more data.
    Ignored,
    /// Part of the input buffer is decoded, there may be more data.
    Decoded(T),
}

impl<T> BufDecoderResult<T> {
    /// The messages this outcome delivers: one for `Decoded`, none otherwise.
    pub open spec fn emitted(self) -> Seq<T> {
        match self {
            BufDecoderResult::Decoded(data) => seq![data],
            _ => Seq::<T>::empty(),
        }
    }
}

/// Buffer decoder trait.
///
/// A decoder's observable behaviour is fixed by its per-byte model (see
/// [`DecoderModel`]): [`Self::decode`] consumes a prefix of the accumulated
/// bytes and must match the run of the model over exactly that prefix; it
/// never blocks, and it stops with `Empty` or `Partial` only once the
/// buffer is exhausted.
pub trait BufDecoder<T>: DecoderModel<T> {
    /// Decodes part of the input buffer consuming it.
    ///
    /// Exactly the consumed prefix, run through the per-byte model, leads
    /// from the old decoder state to the new one and yields the messages of
    /// the returned outcome.  `Empty` and `Partial` are returned only with
    /// the buffer exhausted; `Ignored` and `Decoded` consume at least one
    /// byte, so a driver that retries them always makes progress.
    fn decode(&mut self, buf: &mut ChunkBuf) -> (r: BufDecoderResult<T>)
        ensures
            final(buf)@.len() <= old(buf)@.len(),
            final(buf)@ == old(buf)@.skip(old(buf)@.len() - final(buf)@.len()),
            ({
                let consumed = old(buf)@.take(old(buf)@.len() - final(buf)@.len());
                let sm = run_model::<T, Self>(old(self).model(), consumed);
                final(self).model() == sm.0 && r.emitted() == sm.1
            }),
            (r is Empty || r is Partial) ==> final(buf)@.len() == 0,
            (r is Ignored || r is Decoded) ==> final(buf)@.len() < old(buf)@.len(),
    ;
}

/// Byte stream decoder: the stream driver.
///
/// It owns the chunk accumulator and a [`BufDecoder`]; each call of
/// [`Self::bytes_in`] appends one chunk and then drives the decoder until
/// it reports that nothing more can be decoded without more input, so the
/// accumulated bytes are always drained completely.
pub struct ByteStreamDecoder<T: Clone + Send + 'static, D: BufDecoder<T> + Send + 'static> {
    /// Internal buffer.
    buf: ChunkBuf,
    /// Data decoder.
    decoder: D,
    /// Phantom data of type T.
    _phantom: PhantomData<T>,
}

impl<T, D> ByteStreamDecoder<T, D> where
    T: Clone + Send + 'static,
    D: BufDecoder<T> + Send + 'static,
 {
    /// The abstract state of the held decoder.
    pub closed spec fn state(self) -> D::Model {
        self.decoder.model()
    }

    /// Bytes accepted but not yet consumed by the decoder; empty between
    /// calls, since every call drains the buffer.
    pub closed spec fn pending(self) -> Seq<u8> {
        self.buf@
    }

    /// Creates new byte stream decoder.
    pub fn new(decoder: D) -> (r: Self)
        ensures
            r.pending() == Seq::<u8>::empty(),
            r.state() == decoder.model(),
    {
        Self { buf: ChunkBuf::new(), decoder, _phantom: PhantomData }
    }

    /// Input bytes: accepts one chunk and returns the completed messages.
    ///
    /// The chunk is run through the decoder's per-byte model from the
    /// current state: the new state and the returned messages, in order,
    /// are exactly what the model yields for these bytes.  Every byte is
    /// consumed exactly once and the buffer is drained completely.
    pub fn bytes_in(&mut self, data: Vec<u8>) -> (out: Vec<T>)
        ensures
            ({
                let total = old(self).pending() + data@;
                let sm = run_model::<T, D>(old(self).state(), total);
                &&& final(self).pending() == Seq::<u8>::empty()
                &&& final(self).state() == sm.0
                &&& out@ == sm.1
            }),
    {
        let ghost total = self.buf@ + data@;
        let ghost m0 = self.decoder.model();
        self.buf.push_chunk(data);
        let mut out: Vec<T> = Vec::new();
        loop
            invariant
                self.buf@.len() <= total.len(),
                self.buf@ == total.skip(total.len() - self.buf@.len()),
                self.decoder.model() == run_model::<T, D>(
                    m0,
                    total.take(total.len() - self.buf@.len()),
                ).0,
                out@ == run_model::<T, D>(m0, total.take(total.len() - self.buf@.len())).1,
            ensures
                self.buf@.len() == 0,
                self.decoder.model() == run_model::<T, D>(
                    m0,
                    total.take(total.len() - self.buf@.len()),
                ).0,
                out@ == run_model::<T, D>(m0, total.take(total.len() - self.buf@.len())).1,
            decreases self.buf@.len(),
        {
            let ghost pre = self.buf@;
            let r = self.decoder.decode(&mut self.buf);
            proof {
                let consumed_before = total.take(total.len() - pre.len());
                let p = pre.take(pre.len() - self.buf@.len());
                assert(consumed_before + p =~= total.take(total.len() - self.buf@.len()));
                lemma_run_model_concat::<T, D>(m0, consumed_before, p);
            }
            match r {
                BufDecoderResult::Decoded(data) => {
                    out.push(data);
                },
                BufDecoderResult::Ignored => {},
                _ => { break; },
            }
        }
        proof {
            assert(total.take(total.len() - self.buf@.len()) =~= total);
        }
        out
    }
}

/// The decoder built from the default value of `D`.
impl<T, D> Default for ByteStreamDecoder<T, D> where
    T: Clone + Send + 'static,
    D: BufDecoder<T> + Default + Send + 'static,
 {
    fn default() -> (r: Self)
        ensures
            r.pending() == Seq::<u8>::empty(),
            exists|d: D| #[trigger] call_ensures(D::default, (), d) && r.state() == d.model(),
    {
        Self::new(D::default())
    }
}

/// The effect of one transformed byte on the frame being decoded.
pub enum TransformEffect<T> {
    /// No payload bytes yet.
    Nothing,
    /// One payload byte.
    One(u8),
    /// Several payload bytes.
    Many(Seq<u8>),
    /// The frame is abandoned, yielding this message.
    Abort(T),
}

/// Result of byte stream transformation.
#[derive(Clone, Debug)]
pub enum TransformResult<T> {
    /// No bytes.
    Nothing,
    /// One byte.
    One(u8),
    /// Many bytes.
    Many(Vec<u8>),
    /// Transmission aborted.
    Abort(T),
}

impl<T> TransformResult<T> {
    /// The abstract effect this result has on the frame payload.
    pub open spec fn effect(self) -> TransformEffect<T> {
        match self {
            TransformResult::Nothing => TransformEffect::Nothing,
            TransformResult::One(byte) => TransformEffect::One(byte),
            TransformResult::Many(bytes) => TransformEffect::Many(bytes@),
            TransformResult::Abort(data) => TransformEffect::Abort(data),
        }
    }
}

/// Trait for byte stream transformer (e.g. de-escaper).
///
/// A transformer is a small state machine run over the payload bytes of one
/// frame: `spec_transform` fixes, for each state and input byte, the next
/// state and the effect on the payload.  Its state is reset whenever a
/// frame opens or closes, so no escape state leaks from one frame into the
/// next.
pub trait ByteTransformer<T>: Sized {
    /// The transformer state at a frame boundary.
    spec fn spec_reset(self) -> Self;

    /// The next transformer state and the effect of one input byte, given
    /// the payload bytes accumulated so far.
    spec fn spec_transform(self, previous: Seq<u8>, byte: u8) -> (Self, TransformEffect<T>);

    /// Transforms byte.
    fn transform(&mut self, previous: &[u8], byte: u8) -> (r: TransformResult<T>)
        ensures
            ({
                let s = old(self).spec_transform(previous@, byte);
                *final(self) == s.0 && r.effect() == s.1
            }),
    ;

    /// Resets the transformer state at a frame boundary.
    fn reset(&mut self)
        ensures
            *final(self) == old(self).spec_reset(),
    ;
}

/// Default byte transformer: every byte is passed through unchanged.
impl<T> ByteTransformer<T> for () {
    open spec fn spec_reset(self) -> Self {
        ()
    }

    open spec fn spec_transform(self, previous: Seq<u8>, byte: u8) -> (Self, TransformEffect<T>) {
        ((), TransformEffect::One(byte))
    }

    fn transform(&mut self, previous: &[u8], byte: u8) -> (r: TransformResult<T>) {
        TransformResult::One(byte)
    }

    fn reset(&mut self) {
    }
}

/// The abstract state of a delimiter-framed decoder with a transform stage.
#[verifier::ext_equal]
pub struct DelimitedModel<S, C> {
    /// Frame start marker.
    pub start: u8,
    /// Frame end marker.
    pub end: u8,
    /// Byte transformer state.
    pub transformer: S,
    /// Frame finalizer.
    pub callback: C,
    /// True while inside a frame.
    pub in_frame: bool,
    /// Payload collected so far for the current frame.
    pub acc: Seq<u8>,
}

/// One byte of the delimited framing model.
///
/// Outside a frame, every byte other than the start marker is discarded and
/// the start marker opens a frame with an empty payload and a freshly reset
/// transformer.  Inside a frame, the end marker closes it, producing one
/// message for a non-empty payload and none for an empty one; when start
/// and end marker coincide, the closing marker simultaneously opens the
/// next frame.  Every other byte goes through the transformer, which
/// extends the payload or aborts the frame with a message of its own.
pub open spec fn delimited_step<T, S: ByteTransformer<T>, C: DecodeCallback<T>>(
    m: DelimitedModel<S, C>,
    byte: u8,
) -> (DelimitedModel<S, C>, Seq<T>) {
    if !m.in_frame {
        if byte == m.start {
            (
                DelimitedModel {
                    start: m.start,
                    end: m.end,
                    transformer: m.transformer.spec_reset(),
                    callback: m.callback,
                    in_frame: true,
                    acc: Seq::<u8>::empty(),
                },
                Seq::<T>::empty(),
            )
        } else {
            (m, Seq::<T>::empty())
        }
    } else if byte == m.end {
        (
            DelimitedModel {
                start: m.start,
                end: m.end,
                transformer: m.transformer.spec_reset(),
                callback: m.callback,
                in_frame: m.start == m.end,
                acc: Seq::<u8>::empty(),
            },
            if m.acc.len() == 0 {
                Seq::<T>::empty()
            } else {
                seq![m.callback.spec_decode(m.acc)]
            },
        )
    } else {
        let s = m.transformer.spec_transform(m.acc, byte);
        match s.1 {
            TransformEffect::Nothing => (
                DelimitedModel {
                    start: m.start,
                    end: m.end,
                    transformer: s.0,
                    callback: m.callback,
                    in_frame: true,
                    acc: m.acc,
                },
                Seq::<T>::empty(),
            ),
            TransformEffect::One(out) => (
                DelimitedModel {
                    start: m.start,
                    end: m.end,
                    transformer: s.0,
                    callback: m.callback,
                    in_frame: true,
                    acc: m.acc.push(out),
                },
                Seq::<T>::empty(),
            ),
            TransformEffect::Many(out) => (
                DelimitedModel {
                    start: m.start,
                    end: m.end,
                    transformer: s.0,
                    callback: m.callback,
                    in_frame: true,
                    acc: m.acc + out,
                },
                Seq::<T>::empty(),
            ),
            TransformEffect::Abort(data) => (
                DelimitedModel {
                    start: m.start,
                    end: m.end,
                    transformer: s.0,
                    callback: m.callback,
                    in_frame: false,
                    acc: Seq::<u8>::empty(),
                },
                seq![data],
            ),
        }
    }
}

/// Packet decoder: delimiter framing with a per-byte transform stage.
pub struct ByteDelimitedDecoder<
    T: Clone + Send + 'static,
    S: ByteTransformer<T>,
    C: DecodeCallback<T>,
> {
    /// Packet start delimiter.
    start: u8,
    /// Packet end delimiter.
    end: u8,
    /// Byte stream transformer (e.g. de-escaper).
    transformer: S,
    /// Decoder callback.
    decode_callback: C,
    /// Packet decoding is in progress.
    is_decoding: bool,
    /// Decoder buffer.
    buf: Vec<u8>,
    /// Phantom data of type T.
    _phantom: PhantomData<T>,
}

impl<T, S, C> ByteDelimitedDecoder<T, S, C> where
    T: Clone + Send + 'static,
    S: ByteTransformer<T> + Default,
    C: DecodeCallback<T>,
 {
    /// Creates new packet decoder with the default transformer value.
    pub fn new(start: u8, end: u8, decode: C) -> (r: Self)
        ensures
            exists|t: S|
                #[trigger] call_ensures(S::default, (), t) && r.model() == (DelimitedModel {
                    start,
                    end,
                    transformer: t,
                    callback: decode,
                    in_frame: false,
                    acc: Seq::<u8>::empty(),
                }),
    {
        let transformer = S::default();
        Self::with_transformer(start, end, transformer, decode)
    }
}

impl<T, S, C> ByteDelimitedDecoder<T, S, C> where
    T: Clone + Send + 'static,
    S: ByteTransformer<T>,
    C: DecodeCallback<T>,
 {
    /// Creates new packet decoder.
    pub fn with_transformer(start: u8, end: u8, transformer: S, decode: C) -> (r: Self)
        ensures
            r.model() == (DelimitedModel {
                start,
                end,
                transformer,
                callback: decode,
                in_frame: false,
                acc: Seq::<u8>::empty(),
            }),
    {
        Self {
            start,
            end,
            transformer,
            decode_callback: decode,
            is_decoding: false,
            buf: Vec::with_capacity(1024),
            _phantom: PhantomData,
        }
    }
}

impl<T, S, C> DecoderModel<T> for ByteDelimitedDecoder<T, S, C> where
    T: Clone + Send + 'static,
    S: ByteTransformer<T>,
    C: DecodeCallback<T>,
 {
    type Model = DelimitedModel<S, C>;

    closed spec fn model(self) -> DelimitedModel<S, C> {
        DelimitedModel {
            start: self.start,
            end: self.end,
            transformer: self.transformer,
            callback: self.decode_callback,
            in_frame: self.is_decoding,
            acc: if self.is_decoding {
                self.buf@
            } else {
                Seq::<u8>::empty()
            },
        }
    }

    open spec fn step_model(m: DelimitedModel<S, C>, byte: u8) -> (DelimitedModel<S, C>, Seq<T>) {
        delimited_step::<T, S, C>(m, byte)
    }

    open spec fn infallible(self) -> bool {
        true
    }
}

impl<T, S, C> BufDecoder<T> for ByteDelimitedDecoder<T, S, C> where
    T: Clone + Send + 'static,
    S: ByteTransformer<T>,
    C: DecodeCallback<T>,
 {
    fn decode(&mut self, buf: &mut ChunkBuf) -> (r: BufDecoderResult<T>) {
        let ghost m0 = self.model();
        let ghost pre = buf@;
        loop
            invariant
                pre == old(buf)@,
                m0 == old(self).model(),
                buf@.len() <= pre.len(),
                buf@ == pre.skip(pre.len() - buf@.len()),
                run_model::<T, Self>(m0, pre.take(pre.len() - buf@.len())).0 == self.model(),
                run_model::<T, Self>(m0, pre.take(pre.len() - buf@.len())).1 == Seq::<T>::empty(),
            decreases buf@.len(),
        {
            let ghost len0: nat = buf@.len();
            if !self.is_decoding {
                self.buf.clear();
                let ghost mscan = self.model();
                while buf.has_remaining() && buf.peek_byte() != self.start
                    invariant
                        pre == old(buf)@,
                        m0 == old(self).model(),
                        buf@.len() <= len0,
                        buf@.len() <= pre.len(),
                        buf@ == pre.skip(pre.len() - buf@.len()),
                        run_model::<T, Self>(m0, pre.take(pre.len() - buf@.len())).0 == mscan,
                        run_model::<T, Self>(m0, pre.take(pre.len() - buf@.len())).1 == Seq::<
                            T,
                        >::empty(),
                        self.model() == mscan,
                        !self.is_decoding,
                    decreases buf@.len(),
                {
                    let ghost consumed = pre.take(pre.len() - buf@.len());
                    let ghost b = buf@[0];
                    buf.advance(1);
                    proof {
                        lemma_run_model_snoc::<T, Self>(m0, consumed, b);
                        assert(consumed.push(b) =~= pre.take(pre.len() - buf@.len()));
                    }
                }
                if !buf.has_remaining() {
                    proof {
                        assert(pre.take(pre.len() - buf@.len()) =~= pre);
                    }
                    return BufDecoderResult::Empty;
                }
                let ghost consumed = pre.take(pre.len() - buf@.len());
                let ghost b = buf@[0];
                buf.advance(1);
                self.transformer.reset();
                self.is_decoding = true;
                proof {
                    lemma_run_model_snoc::<T, Self>(m0, consumed, b);
                    assert(consumed.push(b) =~= pre.take(pre.len() - buf@.len()));
                    assert(self.model() =~= delimited_step::<T, S, C>(mscan, b).0);
                }
            }
            while buf.has_remaining() && buf.peek_byte() != self.end
                invariant
                    pre == old(buf)@,
                    m0 == old(self).model(),
                    buf@.len() <= len0,
                    buf@.len() <= pre.len(),
                    buf@ == pre.skip(pre.len() - buf@.len()),
                    run_model::<T, Self>(m0, pre.take(pre.len() - buf@.len())).0 == self.model(),
                    run_model::<T, Self>(m0, pre.take(pre.len() - buf@.len())).1 == Seq::<
                        T,
                    >::empty(),
                    self.is_decoding,
                decreases buf@.len(),
            {
                let ghost consumed = pre.take(pre.len() - buf@.len());
                let ghost mcur = self.model();
                let b = buf.read_byte();
                let tr = self.transformer.transform(self.buf.as_slice(), b);
                proof {
                    lemma_run_model_snoc::<T, Self>(m0, consumed, b);
                    assert(consumed.push(b) =~= pre.take(pre.len() - buf@.len()));
                }
                match tr {
                    TransformResult::Nothing => {
                        proof {
                            assert(self.model() =~= delimited_step::<T, S, C>(mcur, b).0);
                        }
                    },
                    TransformResult::One(out) => {
                        self.buf.push(out);
                        proof {
                            assert(self.model() =~= delimited_step::<T, S, C>(mcur, b).0);
                        }
                    },
                    TransformResult::Many(bytes) => {
                        let mut bytes = bytes;
                        self.buf.append(&mut bytes);
                        proof {
                            assert(self.model() =~= delimited_step::<T, S, C>(mcur, b).0);
                        }
                    },
                    TransformResult::Abort(data) => {
                        self.is_decoding = false;
                        proof {
                            assert(self.model() =~= delimited_step::<T, S, C>(mcur, b).0);
                            assert(run_model::<T, Self>(m0, pre.take(pre.len() - buf@.len())).1
                                =~= delimited_step::<T, S, C>(mcur, b).1);
                        }
                        return BufDecoderResult::Decoded(data);
                    },
                }
            }
            if !buf.has_remaining() {
                proof {
                    assert(pre.take(pre.len() - buf@.len()) =~= pre);
                }
                return BufDecoderResult::Partial;
            }
            let ghost consumed = pre.take(pre.len() - buf@.len());
            let ghost mcur = self.model();
            let ghost b = buf@[0];
            buf.advance(1);
            self.transformer.reset();
            proof {
                lemma_run_model_snoc::<T, Self>(m0, consumed, b);
                assert(consumed.push(b) =~= pre.take(pre.len() - buf@.len()));
                assert(run_model::<T, Self>(m0, pre.take(pre.len() - buf@.len())).1
                    =~= delimited_step::<T, S, C>(mcur, b).1);
            }
            if self.start == self.end {
                if !self.buf.is_empty() {
                    let msg = self.decode_callback.decode(self.buf.as_slice());
                    self.buf.clear();
                    proof {
                        assert(self.model() =~= delimited_step::<T, S, C>(mcur, b).0);
                    }
                    return BufDecoderResult::Decoded(msg);
                }
                // An empty frame between back-to-back delimiters: no message,
                // scan on for the next frame within this call.
                proof {
                    assert(self.model() =~= delimited_step::<T, S, C>(mcur, b).0);
                }
            } else {
                self.is_decoding = false;
                if !self.buf.is_empty() {
                    let msg = self.decode_callback.decode(self.buf.as_slice());
                    proof {
                        assert(self.model() =~= delimited_step::<T, S, C>(mcur, b).0);
                    }
                    return BufDecoderResult::Decoded(msg);
                }
                proof {
                    assert(self.model() =~= delimited_step::<T, S, C>(mcur, b).0);
                }
            }
        }
    }
}

/// A single-byte decoder: every occurrence of one sentinel byte is a
/// message with no payload, every other byte is discarded.
pub struct SentinelDecoder {
    /// The byte each occurrence of which is one message.
    sentinel: u8,
}

impl SentinelDecoder {
    /// Creates a new sentinel decoder.
    pub fn new(sentinel: u8) -> (r: Self)
        ensures
            r.model() == sentinel,
    {
        Self { sentinel }
    }
}

impl DecoderModel<()> for SentinelDecoder {
    type Model = u8;

    closed spec fn model(self) -> u8 {
        self.sentinel
    }

    open spec fn step_model(m: u8, byte: u8) -> (u8, Seq<()>) {
        (m, if byte == m {
            seq![()]
        } else {
            Seq::<()>::empty()
        })
    }

    open spec fn infallible(self) -> bool {
        true
    }
}

impl BufDecoder<()> for SentinelDecoder {
    fn decode(&mut self, buf: &mut ChunkBuf) -> (r: BufDecoderResult<()>) {
        let ghost m0 = self.model();
        let ghost pre = buf@;
        while buf.has_remaining()
            invariant
                pre == old(buf)@,
                m0 == old(self).model(),
                buf@.len() <= pre.len(),
                buf@ == pre.skip(pre.len() - buf@.len()),
                run_model::<(), Self>(m0, pre.take(pre.len() - buf@.len())).0 == self.model(),
                run_model::<(), Self>(m0, pre.take(pre.len() - buf@.len())).1 == Seq::<
                    (),
                >::empty(),
                self.model() == m0,
            decreases buf@.len(),
        {
            let ghost consumed = pre.take(pre.len() - buf@.len());
            let b = buf.read_byte();
            proof {
                lemma_run_model_snoc::<(), Self>(m0, consumed, b);
                assert(consumed.push(b) =~= pre.take(pre.len() - buf@.len()));
            }
            if b == self.sentinel {
                proof {
                    assert(run_model::<(), Self>(m0, pre.take(pre.len() - buf@.len())).1
                        =~= seq![()]);
                }
                return BufDecoderResult::Decoded(());
            }
        }
        proof {
            assert(pre.take(pre.len() - buf@.len()) =~= pre);
        }
        BufDecoderResult::Empty
    }
}

} // verus!
