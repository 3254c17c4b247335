//! An in-memory stream: a byte buffer with a position, implementing both
//! capabilities. It plays the role that a file or socket handle plays for an
//! unverified stream, and is what the tests exercise.

use vstd::prelude::*;

use crate::read::BytesReadExt;
use crate::write::after_write;
use crate::write::BytesWriteExt;
use crate::Error;

verus! {

/// A byte buffer with a current position. Reads consume bytes from the
/// position towards the end; writes overwrite bytes at the position, growing
/// the buffer once they run past the end; seeking moves the position.
pub struct ByteCursor {
    data: Vec<u8>,
    pos: usize,
}

impl ByteCursor {
    /// The full contents of the buffer.
    pub closed spec fn bytes(&self) -> Seq<u8> {
        self.data@
    }

    /// The current position, clamped to the contents' length.
    pub closed spec fn offset(&self) -> int {
        if self.pos <= self.data@.len() {
            self.pos as int
        } else {
            self.data@.len() as int
        }
    }

    /// An empty cursor, positioned at the start.
    pub fn new() -> (r: ByteCursor)
        ensures
            r.bytes() == Seq::<u8>::empty(),
            r.offset() == 0,
    {
        ByteCursor { data: Vec::new(), pos: 0 }
    }

    /// A cursor over the given bytes, positioned at the start.
    pub fn from_vec(data: Vec<u8>) -> (r: ByteCursor)
        ensures
            r.bytes() == data@,
            r.offset() == 0,
    {
        ByteCursor { data, pos: 0 }
    }

    /// Give up the cursor and keep its contents.
    pub fn into_vec(self) -> (r: Vec<u8>)
        ensures
            r@ == self.bytes(),
    {
        self.data
    }

    /// The current position, counted in bytes from the start.
    pub fn position(&self) -> (r: u64)
        ensures
            r as int == self.offset(),
    {
        let n = self.data.len();
        if self.pos <= n {
            self.pos as u64
        } else {
            n as u64
        }
    }

    /// How many bytes stand between the position and the end.
    pub fn remaining(&self) -> (r: u64)
        ensures
            r as int == self.bytes().len() - self.offset(),
    {
        let n = self.data.len();
        if self.pos <= n {
            (n - self.pos) as u64
        } else {
            0
        }
    }
}

impl BytesReadExt for ByteCursor {
    open spec fn consumed(&self) -> Seq<u8> {
        self.bytes().take(self.offset())
    }

    open spec fn readable(&self) -> Seq<u8> {
        self.bytes().skip(self.offset())
    }

    proof fn wf_bounded(&self) {
        assert(self.data@.len() == vstd::std_specs::vec::spec_vec_len(&self.data));
    }

    fn read_n_bytes_vec(&mut self, amount: usize) -> (r: Result<Vec<u8>, Error>)
        ensures
            r matches Err(e) ==> final(self).offset() == old(self).offset(),
    {
        let n = self.data.len();
        if self.pos > n {
            self.pos = n;
        }
        if amount > n - self.pos {
            return Err(Error::IO);
        }
        let ghost d = self.data@;
        let ghost p = self.pos as int;
        let mut out: Vec<u8> = Vec::new();
        let mut i: usize = 0;
        while i < amount
            invariant
                self.data@ == d,
                self.pos as int == p,
                0 <= p,
                p + amount <= d.len(),
                d.len() <= usize::MAX,
                i <= amount,
                out@ == d.subrange(p, p + i),
            decreases amount - i,
        {
            let b = self.data[self.pos + i];
            proof {
                assert(d.subrange(p, p + i).push(b) =~= d.subrange(p, p + i + 1));
            }
            out.push(b);
            i = i + 1;
        }
        self.pos = self.pos + amount;
        proof {
            assert(out@ =~= old(self).readable().take(amount as int));
            assert(final(self).consumed() =~= old(self).consumed() + out@);
            assert(final(self).readable() =~= old(self).readable().skip(amount as int));
            assert(final(self).consumed() + final(self).readable() =~= old(self).consumed() + old(
                self,
            ).readable());
        }
        Ok(out)
    }

    fn read_to_vec(&mut self) -> (r: Result<Vec<u8>, Error>)
        ensures
            r is Ok,
    {
        let n = self.data.len();
        if self.pos > n {
            self.pos = n;
        }
        let ghost d = self.data@;
        let ghost p = self.pos as int;
        let mut out: Vec<u8> = Vec::new();
        let mut i: usize = self.pos;
        while i < n
            invariant
                self.data@ == d,
                self.pos as int == p,
                n == d.len(),
                0 <= p <= i <= n,
                out@ == d.subrange(p, i as int),
            decreases n - i,
        {
            let b = self.data[i];
            proof {
                assert(d.subrange(p, i as int).push(b) =~= d.subrange(p, i + 1));
            }
            out.push(b);
            i = i + 1;
        }
        self.pos = n;
        proof {
            assert(out@ =~= old(self).readable());
            assert(final(self).consumed() =~= old(self).consumed() + old(self).readable());
            assert(final(self).readable() =~= Seq::<u8>::empty());
        }
        Ok(out)
    }

    fn set_position(&mut self, pos: u64) -> (r: Result<(), Error>)
        ensures
            r is Ok,
    {
        proof {
            assert(self.data@.len() == vstd::std_specs::vec::spec_vec_len(&self.data));
        }
        self.pos = pos as usize;
        proof {
            let whole = old(self).consumed() + old(self).readable();
            assert(whole =~= self.data@);
            assert(final(self).consumed() =~= whole.take(pos as int));
            assert(final(self).readable() =~= whole.skip(pos as int));
        }
        Ok(())
    }
}

impl BytesWriteExt for ByteCursor {
    open spec fn behind(&self) -> Seq<u8> {
        self.bytes().take(self.offset())
    }

    open spec fn ahead(&self) -> Seq<u8> {
        self.bytes().skip(self.offset())
    }

    fn write_all_bytes(&mut self, buf: &Vec<u8>) -> (r: Result<(), Error>)
        ensures
            r is Ok,
    {
        let n = self.data.len();
        if self.pos > n {
            self.pos = n;
        }
        let ghost d = self.data@;
        let ghost p = self.pos as int;
        let m = buf.len();
        let mut i: usize = 0;
        while i < m
            invariant
                buf@.len() == m,
                i <= m,
                0 <= p <= d.len(),
                d.len() <= usize::MAX,
                self.pos as int == p + i,
                self.pos <= self.data@.len(),
                self.data@ == d.take(p) + buf@.take(i as int) + after_write(d.skip(p), i as int),
            decreases m - i,
        {
            let b = buf[i];
            let ghost before = self.data@;
            if self.pos < self.data.len() {
                self.data[self.pos] = b;
                proof {
                    assert(i < d.len() - p);
                    assert(self.data@ =~= before.update(p + i, b));
                    assert(after_write(d.skip(p), i + 1) =~= d.skip(p).skip(i + 1));
                    assert(self.data@ =~= d.take(p) + buf@.take(i + 1) + after_write(
                        d.skip(p),
                        i + 1,
                    ));
                }
            } else {
                self.data.push(b);
                proof {
                    assert(after_write(d.skip(p), i as int) =~= Seq::<u8>::empty());
                    assert(after_write(d.skip(p), i + 1) =~= Seq::<u8>::empty());
                    assert(self.data@ =~= d.take(p) + buf@.take(i + 1) + after_write(
                        d.skip(p),
                        i + 1,
                    ));
                }
            }
            proof {
                assert(self.data@.len() == vstd::std_specs::vec::spec_vec_len(&self.data));
            }
            self.pos = self.pos + 1;
            i = i + 1;
        }
        proof {
            assert(buf@.take(m as int) =~= buf@);
            assert(final(self).behind() =~= old(self).behind() + buf@);
            assert(final(self).ahead() =~= after_write(old(self).ahead(), buf@.len() as int));
        }
        Ok(())
    }
}

} // verus!
