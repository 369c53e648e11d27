//! A byte vector with a fixed capacity, and the model of emitting a message
//! into such a vector one piece at a time.

use vstd::prelude::*;

verus! {

/// The result of appending `chunks` to `buf` in order, where each chunk is
/// written whole or not at all, and writing stops at the first chunk that
/// would take the contents past `cap` bytes. The flag says whether every
/// chunk was written.
pub open spec fn write_chunks(buf: Seq<u8>, chunks: Seq<Seq<u8>>, cap: int) -> (Seq<u8>, bool)
    decreases chunks.len(),
{
    if chunks.len() == 0 {
        (buf, true)
    } else if buf.len() + chunks[0].len() <= cap {
        write_chunks(buf + chunks[0], chunks.drop_first(), cap)
    } else {
        (buf, false)
    }
}

/// Writing `a` then `b` is writing `a`, and then, if all of `a` fit, `b`.
pub proof fn lemma_write_chunks_append(buf: Seq<u8>, a: Seq<Seq<u8>>, b: Seq<Seq<u8>>, cap: int)
    ensures
        write_chunks(buf, a + b, cap) == (if write_chunks(buf, a, cap).1 {
            write_chunks(write_chunks(buf, a, cap).0, b, cap)
        } else {
            write_chunks(buf, a, cap)
        }),
    decreases a.len(),
{
    if a.len() == 0 {
        assert(a + b =~= b);
    } else {
        assert((a + b)[0] == a[0]);
        assert((a + b).drop_first() =~= a.drop_first() + b);
        lemma_write_chunks_append(buf + a[0], a.drop_first(), b, cap);
    }
}

/// Once a chunk has failed to fit, nothing after it is written.
pub proof fn lemma_write_chunks_stop(buf: Seq<u8>, a: Seq<Seq<u8>>, b: Seq<Seq<u8>>, cap: int)
    requires
        !write_chunks(buf, a, cap).1,
    ensures
        write_chunks(buf, a + b, cap) == write_chunks(buf, a, cap),
{
    lemma_write_chunks_append(buf, a, b, cap);
}

/// Once a run of chunks has failed to fit, writing any longer run that starts
/// with it writes the same.
pub proof fn lemma_write_chunks_stop_prefix(
    buf: Seq<u8>,
    a: Seq<Seq<u8>>,
    full: Seq<Seq<u8>>,
    cap: int,
)
    requires
        a.len() <= full.len(),
        full.take(a.len() as int) == a,
        !write_chunks(buf, a, cap).1,
    ensures
        write_chunks(buf, full, cap) == write_chunks(buf, a, cap),
{
    assert(full =~= a + full.skip(a.len() as int));
    lemma_write_chunks_stop(buf, a, full.skip(a.len() as int), cap);
}

/// The chunks of each item of `items`, one item after the other.
pub open spec fn chunks_of_all<T>(items: Seq<T>, chunks: spec_fn(T) -> Seq<Seq<u8>>) -> Seq<Seq<u8>>
    decreases items.len(),
{
    if items.len() == 0 {
        Seq::empty()
    } else {
        chunks_of_all(items.drop_last(), chunks) + chunks(items.last())
    }
}

/// The chunks of two runs of items, one run after the other.
pub proof fn lemma_chunks_of_all_concat<T>(
    a: Seq<T>,
    b: Seq<T>,
    chunks: spec_fn(T) -> Seq<Seq<u8>>,
)
    ensures
        chunks_of_all(a + b, chunks) == chunks_of_all(a, chunks) + chunks_of_all(b, chunks),
    decreases b.len(),
{
    if b.len() == 0 {
        assert(a + b =~= a);
        assert(chunks_of_all(a, chunks) + chunks_of_all(b, chunks) =~= chunks_of_all(a, chunks));
    } else {
        assert((a + b).drop_last() =~= a + b.drop_last());
        assert((a + b).last() == b.last());
        lemma_chunks_of_all_concat(a, b.drop_last(), chunks);
        assert(chunks_of_all(a, chunks) + chunks_of_all(b.drop_last(), chunks) + chunks(b.last())
            =~= chunks_of_all(a, chunks) + (chunks_of_all(b.drop_last(), chunks) + chunks(b.last())));
    }
}

/// The chunks of the first `k + 1` items are those of the first `k` and then
/// those of item `k`.
pub proof fn lemma_chunks_of_all_take<T>(items: Seq<T>, k: int, chunks: spec_fn(T) -> Seq<Seq<u8>>)
    requires
        0 <= k < items.len(),
    ensures
        chunks_of_all(items.take(k + 1), chunks) == chunks_of_all(items.take(k), chunks) + chunks(
            items[k],
        ),
{
    assert(items.take(k + 1).drop_last() =~= items.take(k));
}

/// The chunks of all items, split after item `k`.
pub proof fn lemma_chunks_of_all_split<T>(items: Seq<T>, k: int, chunks: spec_fn(T) -> Seq<Seq<u8>>)
    requires
        0 <= k < items.len(),
    ensures
        chunks_of_all(items, chunks) == chunks_of_all(items.take(k), chunks) + chunks(items[k])
            + chunks_of_all(items.skip(k + 1), chunks),
{
    assert(items =~= items.take(k + 1) + items.skip(k + 1));
    lemma_chunks_of_all_concat(items.take(k + 1), items.skip(k + 1), chunks);
    lemma_chunks_of_all_take(items, k, chunks);
}

/// Writing a single chunk.
pub proof fn lemma_write_one_chunk(buf: Seq<u8>, c: Seq<u8>, cap: int)
    ensures
        write_chunks(buf, seq![c], cap) == (if buf.len() + c.len() <= cap {
            (buf + c, true)
        } else {
            (buf, false)
        }),
{
    reveal_with_fuel(write_chunks, 2);
    assert(seq![c].drop_first() =~= Seq::<Seq<u8>>::empty());
}

/// Emission succeeds exactly when all chunks fit, and then appends their
/// concatenation; otherwise what was written is a prefix of that. (Either the
/// contents start within the capacity, or there is at least one chunk, which
/// then does not fit.)
pub proof fn lemma_write_chunks_fits(buf: Seq<u8>, chunks: Seq<Seq<u8>>, cap: int)
    requires
        buf.len() <= cap || chunks.len() > 0,
    ensures
        write_chunks(buf, chunks, cap).1 <==> buf.len() + chunks.flatten().len() <= cap,
        write_chunks(buf, chunks, cap).1 ==> write_chunks(buf, chunks, cap).0 == buf + chunks.flatten(),
        buf.len() <= write_chunks(buf, chunks, cap).0.len() <= buf.len() + chunks.flatten().len(),
        (buf + chunks.flatten()).subrange(0, write_chunks(buf, chunks, cap).0.len() as int)
            == write_chunks(buf, chunks, cap).0,
    decreases chunks.len(),
{
    if chunks.len() > 0 {
        let rest = chunks.drop_first();
        assert(chunks.flatten() == chunks[0] + rest.flatten());
        assert(buf + chunks[0] + rest.flatten() =~= buf + chunks.flatten());
        assert(chunks.flatten().len() == chunks[0].len() + rest.flatten().len());
        if buf.len() + chunks[0].len() > cap {
            assert((buf + chunks.flatten()).subrange(0, buf.len() as int) =~= buf);
        } else {
            lemma_write_chunks_fits(buf + chunks[0], rest, cap);
            assert(write_chunks(buf, chunks, cap) == write_chunks(buf + chunks[0], rest, cap));
        }
    } else {
        assert(buf + chunks.flatten() =~= buf);
    }
}

/// One chunk flattens to itself.
pub proof fn lemma_flatten_one(a: Seq<u8>)
    ensures
        seq![a].flatten() == a,
{
    reveal_with_fuel(Seq::flatten, 2);
    assert(seq![a].drop_first() =~= Seq::<Seq<u8>>::empty());
    assert(a + Seq::<u8>::empty() =~= a);
}

/// Two chunks flatten to their concatenation.
pub proof fn lemma_flatten_two(a: Seq<u8>, b: Seq<u8>)
    ensures
        seq![a, b].flatten() == a + b,
{
    assert(seq![a, b].drop_first() =~= seq![b]);
    lemma_flatten_one(b);
}

/// Three chunks flatten to their concatenation.
pub proof fn lemma_flatten_three(a: Seq<u8>, b: Seq<u8>, c: Seq<u8>)
    ensures
        seq![a, b, c].flatten() == a + b + c,
{
    assert(seq![a, b, c].drop_first() =~= seq![b, c]);
    lemma_flatten_two(b, c);
    assert(a + (b + c) =~= a + b + c);
}

/// A vector of at most `N` bytes.
#[derive(Debug, PartialEq, Eq)]
pub struct ByteVec<const N: usize> {
    bytes: Vec<u8>,
}

impl<const N: usize> View for ByteVec<N> {
    type V = Seq<u8>;

    closed spec fn view(&self) -> Seq<u8> {
        self.bytes@
    }
}

impl<const N: usize> Clone for ByteVec<N> {
    fn clone(&self) -> (r: Self)
        ensures
            r@ == self@,
    {
        proof {
            use_type_invariant(self);
        }
        let bytes = self.bytes.clone();
        assert(bytes@ =~= self.bytes@);
        ByteVec { bytes }
    }
}

impl<const N: usize> ByteVec<N> {
    #[verifier::type_invariant]
    spec fn within_capacity(self) -> bool {
        self.bytes.len() <= N
    }

    /// An empty vector.
    pub fn new() -> (v: Self)
        ensures
            v@ == Seq::<u8>::empty(),
    {
        ByteVec { bytes: Vec::new() }
    }

    /// The fixed capacity `N`.
    pub fn capacity(&self) -> (n: usize)
        ensures
            n == N,
    {
        N
    }

    /// The number of bytes held, never more than `N`.
    pub fn len(&self) -> (n: usize)
        ensures
            n == self@.len(),
            n <= N,
    {
        proof {
            use_type_invariant(self);
        }
        self.bytes.len()
    }

    /// A vector holding a copy of `other`, or `Err` when `other` is longer
    /// than the capacity.
    pub fn from_slice(other: &[u8]) -> (r: Result<Self, ()>)
        ensures
            r is Ok <==> other@.len() <= N,
            r matches Ok(v) ==> v@ == other@,
    {
        if other.len() > N {
            Err(())
        } else {
            let mut bytes: Vec<u8> = Vec::new();
            bytes.extend_from_slice(other);
            assert(bytes@ =~= other@);
            Ok(ByteVec { bytes })
        }
    }

    /// Appends `b` when there is room; otherwise hands `b` back and leaves
    /// the vector as it was.
    pub fn push(&mut self, b: u8) -> (r: Result<(), u8>)
        ensures
            (final(self)@, r is Ok) == write_chunks(old(self)@, seq![seq![b]], N as int),
            r is Ok <==> old(self)@.len() < N,
            r is Ok ==> final(self)@ == old(self)@.push(b),
            r matches Err(x) ==> x == b && final(self)@ == old(self)@,
    {
        proof {
            use_type_invariant(&*self);
            lemma_write_one_chunk(self@, seq![b], N as int);
            assert(self@ + seq![b] =~= self@.push(b));
        }
        if self.bytes.len() < N {
            let mut bytes: Vec<u8> = Vec::new();
            std::mem::swap(&mut bytes, &mut self.bytes);
            bytes.push(b);
            self.bytes = bytes;
            Ok(())
        } else {
            Err(b)
        }
    }

    /// Appends all of `other` when it fits; otherwise changes nothing.
    pub fn extend_from_slice(&mut self, other: &[u8]) -> (r: Result<(), ()>)
        ensures
            (final(self)@, r is Ok) == write_chunks(old(self)@, seq![other@], N as int),
            r is Ok <==> old(self)@.len() + other@.len() <= N,
            r is Ok ==> final(self)@ == old(self)@ + other@,
            r is Err ==> final(self)@ == old(self)@,
    {
        proof {
            use_type_invariant(&*self);
            lemma_write_one_chunk(self@, other@, N as int);
        }
        if other.len() > N - self.bytes.len() {
            Err(())
        } else {
            let mut bytes: Vec<u8> = Vec::new();
            std::mem::swap(&mut bytes, &mut self.bytes);
            bytes.extend_from_slice(other);
            assert(bytes@ =~= old(self)@ + other@);
            self.bytes = bytes;
            Ok(())
        }
    }

    /// The bytes held.
    pub fn as_slice(&self) -> (s: &[u8])
        ensures
            s@ == self@,
    {
        self.bytes.as_slice()
    }
}

} // verus!
