//! The buffer between a byte stream and the request parser.
use std::io::Read;
use vstd::prelude::*;

verus! {

#[verifier::external_type_specification]
#[verifier::external_body]
pub struct ExIoError(std::io::Error);

/// `Read::read` into `buf[start..]`: the number of bytes read, which `Read` guarantees to be
/// at most the room given; the bytes before `start` and the length of `buf` do not change.
/// What was read, and whether the call fails, the stream decides.
#[verifier::external_body]
fn read_into<R: Read>(inner: &mut R, buf: &mut Vec<u8>, start: usize) -> (r: std::io::Result<usize>)
    requires
        start <= old(buf)@.len(),
    ensures
        final(buf)@.len() == old(buf)@.len(),
        final(buf)@.subrange(0, start as int) == old(buf)@.subrange(0, start as int),
        r matches Ok(n) ==> n <= old(buf)@.len() - start,
{
    inner.read(&mut buf[start..])
}

/// A growable buffer of what a stream has delivered: `buf[..len]` holds the bytes not yet
/// consumed, and `len_old` is how many of them there were before the last read.
pub struct StreamBuffer<R> {
    pub inner: R,
    pub buf: Vec<u8>,
    pub len: usize,
    pub len_old: usize,
}

impl<R> StreamBuffer<R> {
    /// An empty buffer with `cap_initial` bytes of room.
    pub fn new(inner: R, cap_initial: usize) -> (r: Self)
        ensures
            r.inner == inner,
            r.buf@ == Seq::new(cap_initial as nat, |i: int| 0u8),
            r.len == 0,
            r.len_old == 0,
    {
        StreamBuffer { inner, buf: vec![0u8; cap_initial], len: 0, len_old: 0 }
    }

    /// Meaningful slice of buffer.
    pub fn buf_eff(&self) -> (r: &[u8])
        requires
            self.len <= self.buf@.len(),
        ensures
            r@ == self.buf@.subrange(0, self.len as int),
    {
        crate::http::cibstr::slice_range(self.buf.as_slice(), 0, self.len)
    }

    /// Drops the earliest `n` effective elements from the buffer, best used for session separation.
    /// This also affects the `len_old` field.
    pub fn drop_earliest(&mut self, n: usize)
        requires
            old(self).len <= old(self).buf@.len(),
            n <= old(self).len,
        ensures
            final(self).buf@ == old(self).buf@.subrange(n as int, old(self).len as int) + old(self).buf@.subrange(
                old(self).len - n,
                old(self).buf@.len() as int,
            ),
            final(self).len == old(self).len - n,
            final(self).len_old == if old(self).len_old >= n { old(self).len_old - n } else { 0 },
            final(self).inner == old(self).inner,
    {
        let len = self.len;
        let ghost old_buf = self.buf@;
        let mut i: usize = 0;
        while i < len - n
            invariant
                n <= len <= old_buf.len(),
                self.buf@.len() == old_buf.len(),
                self.len_old == old(self).len_old,
                self.len == old(self).len,
                self.inner == old(self).inner,
                i <= len - n,
                forall|j: int| 0 <= j < i ==> self.buf@[j] == old_buf[j + n],
                forall|j: int| i <= j < old_buf.len() ==> self.buf@[j] == old_buf[j],
            decreases len - n - i,
        {
            let b = self.buf[i + n];
            self.buf.set(i, b);
            i = i + 1;
        }
        assert(self.buf@ =~= old_buf.subrange(n as int, len as int) + old_buf.subrange(len - n, old_buf.len() as int));
        self.len = len - n;
        self.len_old = self.len_old.saturating_sub(n);
    }

    /// Resize the buffer to at most `f` times the current effective size: a shorter buffer
    /// grows to `len * f` (new bytes zero), a longer one is cut to `len * f`. The effective
    /// bytes are never cut off: when `len * f` is less than `len` (`f == 0` with bytes held)
    /// the buffer stays as it is.
    pub fn fit_factor(&mut self, f: usize)
        requires
            old(self).len * f <= usize::MAX,
        ensures
            ({
                let target = old(self).len * f;
                let n = old(self).buf@.len();
                final(self).buf@ == if n < target {
                    old(self).buf@ + Seq::new((target - n) as nat, |i: int| 0u8)
                } else if target < old(self).len {
                    old(self).buf@
                } else {
                    old(self).buf@.subrange(0, target)
                }
            }),
            old(self).len <= old(self).buf@.len() ==> final(self).len <= final(self).buf@.len(),
            final(self).len == old(self).len,
            final(self).len_old == old(self).len_old,
            final(self).inner == old(self).inner,
    {
        let target = self.len * f;
        let ghost before = self.buf@;
        if self.buf.len() < target {
            self.buf.resize(target, 0);
            assert(self.buf@ =~= before + Seq::new((target - before.len()) as nat, |i: int| 0u8));
        } else if target < self.len {
            return;
        } else {
            self.buf.truncate(target);
            assert(self.buf@ =~= before.subrange(0, target as int));
        }
    }
}

impl<R> StreamBuffer<R> {
    /// Makes room for a read: doubles the buffer (new bytes zero) when the effective bytes
    /// fill it, and gives the position from which the stream is to write, the current `len`.
    pub fn make_room(&mut self) -> (start: usize)
        requires
            old(self).len <= old(self).buf@.len(),
            old(self).buf@.len() * 2 <= usize::MAX,
        ensures
            start == old(self).len,
            final(self).len == old(self).len,
            final(self).len_old == old(self).len_old,
            final(self).inner == old(self).inner,
            final(self).buf@ == if old(self).buf@.len() == old(self).len {
                old(self).buf@ + Seq::new(old(self).buf@.len(), |i: int| 0u8)
            } else {
                old(self).buf@
            },
    {
        if self.buf.len() == self.len {
            let size = self.buf.len() * 2;
            let ghost before = self.buf@;
            self.buf.resize(size, 0);
            assert(self.buf@ =~= before + Seq::new(before.len(), |i: int| 0u8));
        }
        self.len
    }

    /// Records a read of `n` bytes written from `start`: `len_old` becomes `start` and `len`
    /// becomes `start + n`.
    pub fn commit(&mut self, start: usize, n: usize)
        requires
            start + n <= old(self).buf@.len(),
        ensures
            final(self).len_old == start,
            final(self).len == start + n,
            final(self).buf@ == old(self).buf@,
            final(self).inner == old(self).inner,
    {
        assert(start + n <= self.buf.len());
        self.len_old = start;
        self.len = start + n;
    }
}

impl<R: Read> StreamBuffer<R> {
    /// Reads from stream to scratch buffer. It doubles the size of the buffer if needed.
    /// The stream is read once, into the buffer from the former `len` on (`make_room`); on
    /// success `len_old` becomes the former `len` and `len` grows by the count the stream
    /// gave back (`commit`), which is at most the room; on failure the lengths stay.
    pub fn read(&mut self) -> (r: std::io::Result<()>)
        requires
            old(self).len <= old(self).buf@.len(),
            old(self).buf@.len() * 2 <= usize::MAX,
        ensures
            final(self).len <= final(self).buf@.len(),
            final(self).buf@.len() == if old(self).buf@.len() == old(self).len {
                old(self).buf@.len() * 2
            } else {
                old(self).buf@.len()
            },
            final(self).buf@.subrange(0, old(self).len as int) == old(self).buf@.subrange(0, old(self).len as int),
            r is Ok ==> final(self).len_old == old(self).len && final(self).len >= old(self).len,
            r is Err ==> final(self).len == old(self).len && final(self).len_old == old(self).len_old,
    {
        let start = self.make_room();
        let n = read_into(&mut self.inner, &mut self.buf, start)?;
        self.commit(start, n);
        Ok(())
    }
}

} // verus!
