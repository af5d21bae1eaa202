//! The chunk accumulator: a queue of byte chunks with a read cursor.
//!
//! Incoming chunks are appended at the back without copying their payload;
//! parsers consume bytes from the front one at a time through a minimal
//! cursor interface (`has_remaining`, `peek_byte`, `read_byte`, `advance`)
//! and never see how the underlying bytes were split into chunks.  The
//! storage is a [`buf_list::BufList`]; the view of a [`ChunkBuf`] is the
//! sequence of bytes that remain to be read, front first.
use bytes::Buf;
use vstd::prelude::*;

verus! {

/// `buf_list::BufList`: a list of byte chunks with a read cursor, held
/// opaquely; all access goes through the contracts on [`ChunkBuf`].
#[verifier::external_type_specification]
#[verifier::external_body]
pub struct ExBufList(buf_list::BufList);

/// The bytes of a `buf_list::BufList` that remain to be read, front first.
pub uninterp spec fn buf_list_bytes(l: buf_list::BufList) -> Seq<u8>;

/// A queue of byte chunks with a read cursor.
///
/// The view is the sequence of not-yet-consumed bytes.  Bytes the cursor has
/// advanced past are never revisited, and no operation blocks.
pub struct ChunkBuf {
    /// The backing chunk list; all access goes through the cursor methods.
    pub inner: buf_list::BufList,
}

impl View for ChunkBuf {
    type V = Seq<u8>;

    open spec fn view(&self) -> Seq<u8> {
        buf_list_bytes(self.inner)
    }
}

impl ChunkBuf {
    /// Relies on `buf_list::BufList::new`: a new list holds no bytes.
    #[verifier::external_body]
    pub fn new() -> (r: Self)
        ensures
            buf_list_bytes(r.inner) == Seq::<u8>::empty(),
            r@ == Seq::<u8>::empty(),
    {
        ChunkBuf { inner: buf_list::BufList::new() }
    }

    /// Relies on `buf_list::BufList::push_chunk`: the chunk's bytes are
    /// appended at the back and the cursor position is unchanged.
    #[verifier::external_body]
    pub fn push_chunk(&mut self, data: Vec<u8>)
        ensures
            final(self)@ == old(self)@ + data@,
    {
        self.inner.push_chunk(bytes::Bytes::from(data));
    }

    /// Relies on `bytes::Buf::has_remaining` for `BufList`: true exactly when
    /// the total number of bytes left across all chunks is not zero.
    #[verifier::external_body]
    pub fn has_remaining(&self) -> (r: bool)
        ensures
            r == (self@.len() > 0),
    {
        self.inner.has_remaining()
    }

    /// Relies on `bytes::Buf::chunk` for `BufList`: it returns the front
    /// chunk, which is never empty while bytes remain, so its first element
    /// is the next byte the cursor will read.
    #[verifier::external_body]
    pub fn peek_byte(&self) -> (r: u8)
        requires
            self@.len() > 0,
        ensures
            r == self@[0],
    {
        self.inner.chunk()[0]
    }

    /// Relies on `bytes::Buf::get_u8` for `BufList`: it returns the next
    /// byte and advances the cursor past it.
    #[verifier::external_body]
    pub fn read_byte(&mut self) -> (r: u8)
        requires
            old(self)@.len() > 0,
        ensures
            r == old(self)@[0],
            final(self)@ == old(self)@.drop_first(),
    {
        self.inner.get_u8()
    }

    /// Relies on `bytes::Buf::advance` for `BufList`: the cursor skips the
    /// next `n` bytes without copying any data.
    #[verifier::external_body]
    pub fn advance(&mut self, n: usize)
        requires
            n <= old(self)@.len(),
        ensures
            final(self)@ == old(self)@.skip(n as int),
    {
        self.inner.advance(n);
    }
}

} // verus!
