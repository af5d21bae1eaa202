//! The per-byte decoding model shared by all stream decoders.
//!
//! A decoder's observable behaviour is specified as an abstract state
//! machine that consumes one byte at a time: [`DecoderModel`] names the
//! state type, the state a decoder is currently in, and the transition
//! [`DecoderModel::step_model`].  [`run_model`] runs the machine over a
//! whole byte sequence; [`lemma_chunk_boundary_invariance`] shows that such
//! runs are independent of how the sequence is split into chunks, which is
//! what lets a decoder resume correctly wherever a chunk happens to end.
use vstd::prelude::*;

verus! {

/// The per-byte model of a decoder: an abstract state machine that consumes
/// one byte at a time and says which messages each byte completes.
///
/// This is the specification side of a buffer decoder; it is a separate
/// trait so that [`run_model`] can be stated for it on its own.
pub trait DecoderModel<T>: Sized {
    /// The abstract state the per-byte model runs over.
    type Model;

    /// The abstract state this decoder is currently in.
    spec fn model(self) -> Self::Model;

    /// One step of the per-byte model: the state after consuming `byte`,
    /// and the messages completed by it.
    spec fn step_model(m: Self::Model, byte: u8) -> (Self::Model, Seq<T>);

    /// True for decoders that never report an error.
    spec fn infallible(self) -> bool;
}

/// The per-byte model of decoder `D` run over a whole byte sequence: the
/// state after consuming `bytes` from state `m`, and every message
/// completed along the way, in order.
pub open spec fn run_model<T, D: DecoderModel<T>>(m: D::Model, bytes: Seq<u8>) -> (D::Model, Seq<T>)
    decreases bytes.len(),
{
    if bytes.len() == 0 {
        (m, Seq::<T>::empty())
    } else {
        let s1 = D::step_model(m, bytes[0]);
        let s2 = run_model::<T, D>(s1.0, bytes.drop_first());
        (s2.0, s1.1 + s2.1)
    }
}

/// Running `a + b` is the same as running `a`, then running `b` from the
/// state that `a` left behind: states compose and message sequences
/// concatenate.
pub proof fn lemma_run_model_concat<T, D: DecoderModel<T>>(m: D::Model, a: Seq<u8>, b: Seq<u8>)
    ensures
        run_model::<T, D>(m, a + b).0 == run_model::<T, D>(run_model::<T, D>(m, a).0, b).0,
        run_model::<T, D>(m, a + b).1 == run_model::<T, D>(m, a).1 + run_model::<T, D>(
            run_model::<T, D>(m, a).0,
            b,
        ).1,
    decreases a.len(),
{
    if a.len() == 0 {
        assert(a + b =~= b);
        assert(run_model::<T, D>(m, a).1 + run_model::<T, D>(run_model::<T, D>(m, a).0, b).1
            =~= run_model::<T, D>(m, b).1);
    } else {
        let s1 = D::step_model(m, a[0]);
        assert((a + b)[0] == a[0]);
        assert((a + b).drop_first() =~= a.drop_first() + b);
        lemma_run_model_concat::<T, D>(s1.0, a.drop_first(), b);
        let mid = run_model::<T, D>(s1.0, a.drop_first());
        assert(s1.1 + (mid.1 + run_model::<T, D>(mid.0, b).1) =~= (s1.1 + mid.1) + run_model::<
            T,
            D,
        >(mid.0, b).1);
    }
}

/// Running one more byte after `s` applies exactly one more model step.
pub proof fn lemma_run_model_snoc<T, D: DecoderModel<T>>(m: D::Model, s: Seq<u8>, b: u8)
    ensures
        run_model::<T, D>(m, s.push(b)).0 == D::step_model(run_model::<T, D>(m, s).0, b).0,
        run_model::<T, D>(m, s.push(b)).1 == run_model::<T, D>(m, s).1 + D::step_model(
            run_model::<T, D>(m, s).0,
            b,
        ).1,
{
    assert(s.push(b) =~= s + seq![b]);
    lemma_run_model_concat::<T, D>(m, s, seq![b]);
    let m1 = run_model::<T, D>(m, s).0;
    let s1 = D::step_model(m1, b);
    assert(seq![b][0] == b);
    assert(seq![b].drop_first() =~= Seq::<u8>::empty());
    assert(run_model::<T, D>(s1.0, Seq::<u8>::empty()).1 == Seq::<T>::empty());
    assert(run_model::<T, D>(m1, seq![b]).0 == s1.0);
    assert(run_model::<T, D>(m1, seq![b]).1 =~= s1.1);
}

/// The per-byte model of decoder `D` run over a sequence of chunks, one
/// chunk at a time.
pub open spec fn run_model_chunks<T, D: DecoderModel<T>>(
    m: D::Model,
    chunks: Seq<Seq<u8>>,
) -> (D::Model, Seq<T>)
    decreases chunks.len(),
{
    if chunks.len() == 0 {
        (m, Seq::<T>::empty())
    } else {
        let s1 = run_model::<T, D>(m, chunks[0]);
        let s2 = run_model_chunks::<T, D>(s1.0, chunks.drop_first());
        (s2.0, s1.1 + s2.1)
    }
}

/// Chunk-boundary invariance: feeding a byte sequence chunk by chunk, in
/// any partition whatsoever, reaches the same decoder state and emits the
/// same ordered messages as feeding the whole sequence at once.
pub proof fn lemma_chunk_boundary_invariance<T, D: DecoderModel<T>>(
    m: D::Model,
    chunks: Seq<Seq<u8>>,
)
    ensures
        run_model_chunks::<T, D>(m, chunks).0 == run_model::<T, D>(m, chunks.flatten()).0,
        run_model_chunks::<T, D>(m, chunks).1 == run_model::<T, D>(m, chunks.flatten()).1,
    decreases chunks.len(),
{
    if chunks.len() == 0 {
        assert(chunks.flatten() =~= Seq::<u8>::empty());
    } else {
        let s1 = run_model::<T, D>(m, chunks[0]);
        lemma_chunk_boundary_invariance::<T, D>(s1.0, chunks.drop_first());
        assert(chunks.flatten() == chunks.first() + chunks.drop_first().flatten());
        assert(chunks.first() == chunks[0]);
        lemma_run_model_concat::<T, D>(m, chunks[0], chunks.drop_first().flatten());
    }
}

} // verus!
