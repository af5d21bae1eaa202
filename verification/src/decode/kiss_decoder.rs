//! KISS protocol decoding.
//!
//! A KISS-style stream frames its messages between `FEND` delimiter bytes
//! and escapes any literal `FEND` or `FESC` inside a payload as the pair
//! `FESC TFEND` or `FESC TFESC`.  [`KissTransformer`] undoes this escaping
//! byte by byte; an `FESC` followed by anything else aborts the frame with
//! a message built by [`FromKiss::abort_variant`], and the decoder then
//! resynchronises on the next delimiter.  [`KissDecoder`] is the stream
//! decoder built from this transformer over the delimited framing of
//! [`crate::decode`]; all four marker bytes are configuration values fixed
//! at construction time.
use core::marker::PhantomData;

use vstd::prelude::*;

use crate::decode::{
    delimited_step, ByteDelimitedDecoder, ByteStreamDecoder, ByteTransformer, DecodeCallback,
    DelimitedModel, TransformEffect, TransformResult,
};
use crate::model::{lemma_run_model_concat, lemma_run_model_snoc, run_model};

verus! {

/// Byte delimiter.
pub const FEND: u8 = 0xC0;

/// Escape byte.
pub const FESC: u8 = 0xDB;

/// Transformed byte delimiter.
pub const TFEND: u8 = 0xDC;

/// Transformed escape byte.
pub const TFESC: u8 = 0xDD;

/// Trait for data that can be parsed from KISS protocol.
pub trait FromKiss: Sized {
    /// The message standing for an aborted frame, as a function of the
    /// payload collected so far and the offending byte.
    spec fn spec_abort_variant(previous: Seq<u8>, byte: u8) -> Self;

    /// Data variant parsed in case of message abort (i.e. wrong escape
    /// sequence).
    fn abort_variant(previous: &[u8], byte: u8) -> (r: Self)
        ensures
            r == Self::spec_abort_variant(previous@, byte),
    ;
}

/// KISS byte stream transformer that handles byte escaping.
///
/// The four marker bytes are ordinary fields, fixed when the transformer is
/// built; [`KissTransformer::default`] uses the standard values.
pub struct KissTransformer<T: FromKiss> {
    /// Flag showing that the previous byte was the escape byte.
    pub is_esc: bool,
    /// Frame delimiter byte.
    pub fend: u8,
    /// Escape byte.
    pub fesc: u8,
    /// Escaped substitute for the frame delimiter.
    pub tfend: u8,
    /// Escaped substitute for the escape byte.
    pub tfesc: u8,
    /// Phantom data of type T.
    pub _phantom: PhantomData<T>,
}

impl<T: FromKiss> KissTransformer<T> {
    /// Creates a transformer with the given marker bytes: frame delimiter,
    /// escape byte, and their two escaped substitutes.
    pub fn with_markers(fend: u8, fesc: u8, tfend: u8, tfesc: u8) -> (r: Self)
        ensures
            !r.is_esc,
            r.fend == fend,
            r.fesc == fesc,
            r.tfend == tfend,
            r.tfesc == tfesc,
    {
        Self { is_esc: false, fend, fesc, tfend, tfesc, _phantom: PhantomData }
    }
}

impl<T: FromKiss> Default for KissTransformer<T> {
    /// The transformer with the standard KISS marker bytes.
    fn default() -> (r: Self)
        ensures
            !r.is_esc,
            r.fend == FEND,
            r.fesc == FESC,
            r.tfend == TFEND,
            r.tfesc == TFESC,
    {
        Self { is_esc: false, fend: FEND, fesc: FESC, tfend: TFEND, tfesc: TFESC, _phantom: PhantomData }
    }
}

impl<T: FromKiss> ByteTransformer<T> for KissTransformer<T> {
    open spec fn spec_reset(self) -> Self {
        KissTransformer {
            is_esc: false,
            fend: self.fend,
            fesc: self.fesc,
            tfend: self.tfend,
            tfesc: self.tfesc,
            _phantom: self._phantom,
        }
    }

    open spec fn spec_transform(self, previous: Seq<u8>, byte: u8) -> (Self, TransformEffect<T>) {
        if self.is_esc {
            let t = self.spec_reset();
            if byte == self.tfend {
                (t, TransformEffect::One(self.fend))
            } else if byte == self.tfesc {
                (t, TransformEffect::One(self.fesc))
            } else {
                (t, TransformEffect::Abort(T::spec_abort_variant(previous, byte)))
            }
        } else if byte == self.fesc {
            (
                KissTransformer {
                    is_esc: true,
                    fend: self.fend,
                    fesc: self.fesc,
                    tfend: self.tfend,
                    tfesc: self.tfesc,
                    _phantom: self._phantom,
                },
                TransformEffect::Nothing,
            )
        } else {
            (self, TransformEffect::One(byte))
        }
    }

    fn transform(&mut self, previous: &[u8], byte: u8) -> (r: TransformResult<T>) {
        if self.is_esc {
            self.is_esc = false;
            if byte == self.tfend {
                TransformResult::One(self.fend)
            } else if byte == self.tfesc {
                TransformResult::One(self.fesc)
            } else {
                TransformResult::Abort(T::abort_variant(previous, byte))
            }
        } else if byte == self.fesc {
            self.is_esc = true;
            TransformResult::Nothing
        } else {
            TransformResult::One(byte)
        }
    }

    fn reset(&mut self) {
        self.is_esc = false;
    }
}

/// KISS protocol decoder: the stream driver over the delimited framing with
/// a [`KissTransformer`] as the transform stage.
pub type KissDecoder<T, C> = ByteStreamDecoder<T, ByteDelimitedDecoder<T, KissTransformer<T>, C>>;

impl<T, C> KissDecoder<T, C> where
    T: FromKiss + Clone + Send + 'static,
    C: DecodeCallback<T> + Send + 'static,
 {
    /// Creates new KISS decoder with the standard marker bytes.
    pub fn with_decode_callback(decode: C) -> (r: Self)
        ensures
            r.pending() == Seq::<u8>::empty(),
            r.state().start == FEND,
            r.state().end == FEND,
            r.state().callback == decode,
            !r.state().in_frame,
            r.state().acc == Seq::<u8>::empty(),
            !r.state().transformer.is_esc,
            r.state().transformer.fend == FEND,
            r.state().transformer.fesc == FESC,
            r.state().transformer.tfend == TFEND,
            r.state().transformer.tfesc == TFESC,
    {
        let transformer = KissTransformer::default();
        ByteStreamDecoder::new(ByteDelimitedDecoder::with_transformer(FEND, FEND, transformer, decode))
    }
}

/// The run of the KISS decoding model over a byte sequence: the state after
/// consuming `bytes` from state `m`, and the messages completed in order.
pub open spec fn kiss_run<T, C>(
    m: DelimitedModel<KissTransformer<T>, C>,
    bytes: Seq<u8>,
) -> (DelimitedModel<KissTransformer<T>, C>, Seq<T>) where
    T: FromKiss + Clone + Send + 'static,
    C: DecodeCallback<T>,
 {
    run_model::<T, ByteDelimitedDecoder<T, KissTransformer<T>, C>>(m, bytes)
}

/// Empty-frame policy: from inside a frame with an empty payload, in
/// same-delimiter framing, any number of further delimiter bytes produces
/// no message at all and leaves the decoder in that same state, ready for
/// the next real frame.
pub proof fn lemma_empty_frames_yield_no_message<T, C>(
    m: DelimitedModel<KissTransformer<T>, C>,
    n: nat,
) where T: FromKiss + Clone + Send + 'static, C: DecodeCallback<T>
    requires
        m.in_frame,
        m.acc == Seq::<u8>::empty(),
        !m.transformer.is_esc,
        m.start == m.end,
    ensures
        kiss_run::<T, C>(m, Seq::new(n, |i: int| m.end)).0 == m,
        kiss_run::<T, C>(m, Seq::new(n, |i: int| m.end)).1 == Seq::<T>::empty(),
    decreases n,
{
    let bytes = Seq::new(n, |i: int| m.end);
    if n == 0 {
    } else {
        let s1 = delimited_step::<T, KissTransformer<T>, C>(m, m.end);
        assert(s1.0 =~= m);
        assert(bytes.drop_first() =~= Seq::new((n - 1) as nat, |i: int| m.end));
        lemma_empty_frames_yield_no_message::<T, C>(m, (n - 1) as nat);
        assert(kiss_run::<T, C>(m, bytes).1 =~= Seq::<T>::empty());
    }
}

/// Escape correctness: inside a frame, the escape byte followed by the
/// escaped-delimiter substitute appends one literal delimiter byte to the
/// payload, rather than ending the frame; the escaped-escape substitute
/// likewise appends one literal escape byte.  No message is produced and
/// the frame stays open.
pub proof fn lemma_escape_decodes_to_literal<T, C>(
    m: DelimitedModel<KissTransformer<T>, C>,
    sub: u8,
) where T: FromKiss + Clone + Send + 'static, C: DecodeCallback<T>
    requires
        m.in_frame,
        !m.transformer.is_esc,
        m.transformer.fesc != m.end,
        sub != m.end,
        sub == m.transformer.tfend || sub == m.transformer.tfesc,
    ensures
        ({
            let r = kiss_run::<T, C>(m, seq![m.transformer.fesc, sub]);
            let literal = if sub == m.transformer.tfend {
                m.transformer.fend
            } else {
                m.transformer.fesc
            };
            &&& r.1 == Seq::<T>::empty()
            &&& r.0.in_frame
            &&& r.0.acc == m.acc.push(literal)
            &&& !r.0.transformer.is_esc
        }),
{
    let fesc = m.transformer.fesc;
    lemma_two_steps::<T, C>(m, fesc, sub);
}

/// Abort correctness: inside a frame, the escape byte followed by any byte
/// other than the two defined substitutes (and other than the frame
/// delimiter, which always ends the frame) yields exactly one aborted
/// message, built from the payload collected so far and the offending
/// byte, and the frame is abandoned; a following delimiter then opens a
/// fresh frame, so the decoder resumes cleanly.
pub proof fn lemma_illegal_escape_aborts<T, C>(
    m: DelimitedModel<KissTransformer<T>, C>,
    bad: u8,
) where T: FromKiss + Clone + Send + 'static, C: DecodeCallback<T>
    requires
        m.in_frame,
        !m.transformer.is_esc,
        m.transformer.fesc != m.end,
        bad != m.transformer.tfend,
        bad != m.transformer.tfesc,
        bad != m.end,
    ensures
        ({
            let r = kiss_run::<T, C>(m, seq![m.transformer.fesc, bad]);
            &&& r.1 == seq![T::spec_abort_variant(m.acc, bad)]
            &&& !r.0.in_frame
            &&& !r.0.transformer.is_esc
        }),
        ({
            let r = kiss_run::<T, C>(m, seq![m.transformer.fesc, bad, m.start]);
            &&& r.1 == seq![T::spec_abort_variant(m.acc, bad)]
            &&& r.0.in_frame
            &&& r.0.acc == Seq::<u8>::empty()
            &&& !r.0.transformer.is_esc
        }),
{
    let fesc = m.transformer.fesc;
    lemma_two_steps::<T, C>(m, fesc, bad);
    let r2 = kiss_run::<T, C>(m, seq![fesc, bad]);
    lemma_run_model_snoc::<T, ByteDelimitedDecoder<T, KissTransformer<T>, C>>(
        m,
        seq![fesc, bad],
        m.start,
    );
    assert(seq![fesc, bad].push(m.start) =~= seq![fesc, bad, m.start]);
    assert(kiss_run::<T, C>(m, seq![fesc, bad, m.start]).1 =~= r2.1 + delimited_step::<
        T,
        KissTransformer<T>,
        C,
    >(r2.0, m.start).1);
    assert(kiss_run::<T, C>(m, seq![fesc, bad, m.start]).1 =~= seq![
        T::spec_abort_variant(m.acc, bad),
    ]);
}

/// Helper: the run over a two-byte sequence is the two model steps chained.
proof fn lemma_two_steps<T, C>(m: DelimitedModel<KissTransformer<T>, C>, a: u8, b: u8) where
    T: FromKiss + Clone + Send + 'static,
    C: DecodeCallback<T>,

    ensures
        ({
            let s1 = delimited_step::<T, KissTransformer<T>, C>(m, a);
            let s2 = delimited_step::<T, KissTransformer<T>, C>(s1.0, b);
            &&& kiss_run::<T, C>(m, seq![a, b]).0 == s2.0
            &&& kiss_run::<T, C>(m, seq![a, b]).1 == s1.1 + s2.1
        }),
{
    let s1 = delimited_step::<T, KissTransformer<T>, C>(m, a);
    let s2 = delimited_step::<T, KissTransformer<T>, C>(s1.0, b);
    assert(Seq::<u8>::empty().push(a) =~= seq![a]);
    lemma_run_model_snoc::<T, ByteDelimitedDecoder<T, KissTransformer<T>, C>>(
        m,
        Seq::<u8>::empty(),
        a,
    );
    assert(kiss_run::<T, C>(m, seq![a]).0 == s1.0);
    assert(kiss_run::<T, C>(m, seq![a]).1 =~= s1.1);
    assert(seq![a].push(b) =~= seq![a, b]);
    lemma_run_model_snoc::<T, ByteDelimitedDecoder<T, KissTransformer<T>, C>>(m, seq![a], b);
    assert(kiss_run::<T, C>(m, seq![a, b]).1 =~= s1.1 + s2.1);
}

/// Plain payload bytes accumulate: inside a frame, with no escape pending,
/// a run of bytes that contains neither the end marker nor the escape byte
/// is appended to the payload verbatim, produces no message, and leaves
/// the frame open with the transformer state unchanged.
pub proof fn lemma_plain_bytes_accumulate<T, C>(
    m: DelimitedModel<KissTransformer<T>, C>,
    bytes: Seq<u8>,
) where T: FromKiss + Clone + Send + 'static, C: DecodeCallback<T>
    requires
        m.in_frame,
        !m.transformer.is_esc,
        forall|i: int|
            0 <= i < bytes.len() ==> bytes[i] != m.end && bytes[i] != m.transformer.fesc,
    ensures
        kiss_run::<T, C>(m, bytes).0 == (DelimitedModel { acc: m.acc + bytes, ..m }),
        kiss_run::<T, C>(m, bytes).1 == Seq::<T>::empty(),
    decreases bytes.len(),
{
    if bytes.len() == 0 {
        assert(m.acc + bytes =~= m.acc);
        assert(kiss_run::<T, C>(m, bytes).0 =~= (DelimitedModel { acc: m.acc + bytes, ..m }));
    } else {
        let s1 = delimited_step::<T, KissTransformer<T>, C>(m, bytes[0]);
        assert(s1.0 == (DelimitedModel { acc: m.acc.push(bytes[0]), ..m }));
        lemma_plain_bytes_accumulate::<T, C>(s1.0, bytes.drop_first());
        assert(m.acc.push(bytes[0]) + bytes.drop_first() =~= m.acc + bytes);
        assert(kiss_run::<T, C>(m, bytes).1 =~= Seq::<T>::empty());
    }
}

/// Whole-frame correctness: a non-empty payload that contains neither the
/// delimiter nor the escape byte, framed between two delimiters, decodes
/// to exactly one message, the finalizer applied to that payload; in
/// same-delimiter framing the closing delimiter leaves the decoder inside
/// the next, still empty frame.
pub proof fn lemma_framed_payload_decodes<T, C>(
    m: DelimitedModel<KissTransformer<T>, C>,
    payload: Seq<u8>,
) where T: FromKiss + Clone + Send + 'static, C: DecodeCallback<T>
    requires
        !m.in_frame,
        m.start == m.end,
        payload.len() > 0,
        forall|i: int|
            0 <= i < payload.len() ==> payload[i] != m.end && payload[i] != m.transformer.fesc,
    ensures
        ({
            let r = kiss_run::<T, C>(m, seq![m.start] + payload + seq![m.end]);
            &&& r.1 == seq![m.callback.spec_decode(payload)]
            &&& r.0.in_frame
            &&& r.0.acc == Seq::<u8>::empty()
            &&& !r.0.transformer.is_esc
        }),
{
    let bytes = seq![m.start] + payload + seq![m.end];
    let s1 = delimited_step::<T, KissTransformer<T>, C>(m, m.start);
    assert(bytes[0] == m.start);
    assert(bytes.drop_first() =~= payload + seq![m.end]);
    // The opening delimiter resets the transformer, so its escape markers
    // are unchanged and the payload bytes still avoid them.
    assert(s1.0.transformer.fesc == m.transformer.fesc);
    lemma_plain_bytes_accumulate::<T, C>(s1.0, payload);
    let s2 = kiss_run::<T, C>(s1.0, payload);
    lemma_run_model_snoc::<T, ByteDelimitedDecoder<T, KissTransformer<T>, C>>(
        s1.0,
        payload,
        m.end,
    );
    assert(payload.push(m.end) =~= payload + seq![m.end]);
    assert(s2.0.acc =~= payload);
    let s3 = delimited_step::<T, KissTransformer<T>, C>(s2.0, m.end);
    assert(s3.1 == seq![m.callback.spec_decode(payload)]);
    lemma_run_model_concat::<T, ByteDelimitedDecoder<T, KissTransformer<T>, C>>(
        m,
        seq![m.start],
        payload + seq![m.end],
    );
    assert(Seq::<u8>::empty().push(m.start) =~= seq![m.start]);
    lemma_run_model_snoc::<T, ByteDelimitedDecoder<T, KissTransformer<T>, C>>(
        m,
        Seq::<u8>::empty(),
        m.start,
    );
    assert(kiss_run::<T, C>(m, seq![m.start]).0 == s1.0);
    assert(kiss_run::<T, C>(m, bytes).1 =~= seq![m.callback.spec_decode(payload)]);
}

/// A message for decoders that only signal whether a frame arrived intact.
#[derive(Clone, Copy, Debug, Eq, PartialEq)]
pub enum PulseEvent {
    /// A frame was decoded.
    Pulse,
    /// A frame was aborted by an illegal escape sequence.
    Aborted,
}

impl FromKiss for PulseEvent {
    open spec fn spec_abort_variant(previous: Seq<u8>, byte: u8) -> Self {
        PulseEvent::Aborted
    }

    fn abort_variant(previous: &[u8], byte: u8) -> (r: Self) {
        PulseEvent::Aborted
    }
}

/// The finalizer that maps every completed frame to [`PulseEvent::Pulse`].
pub struct PulseDecode;

impl DecodeCallback<PulseEvent> for PulseDecode {
    open spec fn spec_decode(&self, payload: Seq<u8>) -> PulseEvent {
        PulseEvent::Pulse
    }

    fn decode(&self, payload: &[u8]) -> (r: PulseEvent) {
        PulseEvent::Pulse
    }
}

/// A message that records the shape of a frame: for a decoded frame its
/// payload length and first payload byte, for an aborted frame the length
/// of the payload collected so far and the offending byte.
#[derive(Clone, Copy, Debug, Eq, PartialEq)]
pub enum FrameSummary {
    /// A frame was decoded.
    Frame {
        /// Payload length in bytes.
        len: usize,
        /// The first payload byte, if any.
        first: Option<u8>,
    },
    /// A frame was aborted by an illegal escape sequence.
    Aborted {
        /// Length of the payload collected before the abort.
        len: usize,
        /// The byte that aborted the frame.
        byte: u8,
    },
}

impl FromKiss for FrameSummary {
    open spec fn spec_abort_variant(previous: Seq<u8>, byte: u8) -> Self {
        FrameSummary::Aborted { len: previous.len() as usize, byte }
    }

    fn abort_variant(previous: &[u8], byte: u8) -> (r: Self) {
        FrameSummary::Aborted { len: previous.len(), byte }
    }
}

/// The finalizer that maps every completed frame to its [`FrameSummary`].
pub struct SummarizeFrame;

impl DecodeCallback<FrameSummary> for SummarizeFrame {
    open spec fn spec_decode(&self, payload: Seq<u8>) -> FrameSummary {
        FrameSummary::Frame {
            len: payload.len() as usize,
            first: if payload.len() == 0 {
                None
            } else {
                Some(payload[0])
            },
        }
    }

    fn decode(&self, payload: &[u8]) -> (r: FrameSummary) {
        let first: Option<u8> = if payload.len() == 0 {
            None
        } else {
            Some(payload[0])
        };
        FrameSummary::Frame { len: payload.len(), first }
    }
}

} // verus!
