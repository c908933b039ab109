//! Streaming image assembler: the chunks of one upload, joined in the order
//! they arrived. A chunk carries no offset; its place is its place in the
//! stream.
use vstd::prelude::*;

verus! {

/// The bytes of `chunks` joined end to end, first chunk first.
pub open spec fn concat_chunks(chunks: Seq<Seq<u8>>) -> Seq<u8>
    decreases chunks.len(),
{
    if chunks.len() == 0 {
        Seq::empty()
    } else {
        concat_chunks(chunks.drop_last()) + chunks.last()
    }
}

/// The views of a list of byte buffers.
pub open spec fn chunk_views(chunks: Seq<Vec<u8>>) -> Seq<Seq<u8>> {
    chunks.map_values(|c: Vec<u8>| c@)
}

/// The buffer of one upload while its chunks arrive. Each upload owns its
/// own assembler, so concurrent uploads share no bytes.
pub struct ImageAssembler {
    buffer: Vec<u8>,
}

impl View for ImageAssembler {
    type V = Seq<u8>;

    closed spec fn view(&self) -> Seq<u8> {
        self.buffer@
    }
}

impl ImageAssembler {
    /// An upload that has received nothing yet.
    pub fn new() -> (r: ImageAssembler)
        ensures
            r@ == Seq::<u8>::empty(),
    {
        ImageAssembler { buffer: Vec::new() }
    }

    /// Appends the bytes of the next chunk.
    pub fn push_chunk(&mut self, chunk: &[u8])
        ensures
            final(self)@ == old(self)@ + chunk@,
    {
        let mut i: usize = 0;
        while i < chunk.len()
            invariant
                0 <= i <= chunk@.len(),
                self@ == old(self)@ + chunk@.subrange(0, i as int),
            decreases chunk@.len() - i,
        {
            self.buffer.push(chunk[i]);
            assert(chunk@.subrange(0, i + 1) == chunk@.subrange(0, i as int).push(chunk@[i as int]));
            i = i + 1;
        }
        assert(chunk@.subrange(0, chunk@.len() as int) == chunk@);
    }

    /// Number of bytes received so far.
    pub fn len(&self) -> (r: usize)
        ensures
            r == self@.len(),
    {
        self.buffer.len()
    }

    /// The complete upload, once the stream has ended normally. An upload
    /// broken in transit is dropped instead, and its bytes are never used.
    pub fn finish(self) -> (r: Vec<u8>)
        ensures
            r@ == self@,
    {
        self.buffer
    }
}

/// Joins a whole stream of chunks, in order.
pub fn assemble(chunks: &Vec<Vec<u8>>) -> (r: Vec<u8>)
    ensures
        r@ == concat_chunks(chunk_views(chunks@)),
{
    let mut upload = ImageAssembler::new();
    let mut i: usize = 0;
    while i < chunks.len()
        invariant
            0 <= i <= chunks@.len(),
            upload@ == concat_chunks(chunk_views(chunks@.subrange(0, i as int))),
        decreases chunks@.len() - i,
    {
        let ghost before = chunks@.subrange(0, i as int);
        upload.push_chunk(chunks[i].as_slice());
        proof {
            let after = chunks@.subrange(0, i + 1);
            assert(chunk_views(after).drop_last() =~= chunk_views(before));
            assert(chunk_views(after).last() == chunks@[i as int]@);
        }
        i = i + 1;
    }
    assert(chunks@.subrange(0, chunks@.len() as int) == chunks@);
    upload.finish()
}

/// An upload of no chunks is an empty buffer.
pub proof fn lemma_no_chunks_no_bytes()
    ensures
        concat_chunks(Seq::<Seq<u8>>::empty()) == Seq::<u8>::empty(),
{
}

} // verus!
