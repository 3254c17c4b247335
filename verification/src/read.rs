//! The reader capability: typed decode operations over any seekable source
//! of bytes.
//!
//! A stream is modelled by two byte sequences: [`BytesReadExt::consumed`],
//! the bytes before the current position, and [`BytesReadExt::readable`],
//! the bytes from the position to the end. The primitive operations
//! (`read_n_bytes_vec`, `read_to_vec`, `set_position`) are what an
//! implementor supplies; every typed decode operation is provided on top of
//! them and verified once, for every implementor.

use vstd::prelude::*;

use crate::le::lemma_le_decode_bound;
use crate::le::lemma_pow256_values;
use crate::le::le_decode;
use crate::le::le_value;
use crate::le::signed_of;
use crate::strcodec::frame_payload;
use crate::strcodec::vec_to_string;
use crate::Error;
use vstd::utf8::decode_utf8;
use vstd::utf8::encode_utf8_decode_utf8;
use vstd::utf8::valid_utf8;

verus! {

/// Decode operations over a seekable source of bytes.
///
/// `consumed()` and `readable()` model the stream: its full contents are
/// `consumed() + readable()`, and the current position is `consumed().len()`.
/// Every successful read moves the border between the two by exactly the
/// bytes it returns; no operation changes the contents.
pub trait BytesReadExt {
    /// The bytes before the current position.
    spec fn consumed(&self) -> Seq<u8>;

    /// The bytes from the current position to the end of the stream.
    spec fn readable(&self) -> Seq<u8>;

    /// The modelled stream is held in memory, so its length is machine
    /// representable; implementors prove it, provided operations rely on it.
    proof fn wf_bounded(&self)
        ensures
            self.consumed().len() + self.readable().len() <= usize::MAX,
    ;

    /// Read exactly `amount` bytes, or fail when fewer remain. `amount` may
    /// be zero, yielding an empty buffer. A failed read never changes the
    /// contents, though it may have moved the position.
    fn read_n_bytes_vec(&mut self, amount: usize) -> (r: Result<Vec<u8>, Error>)
        ensures
            final(self).consumed() + final(self).readable() == old(self).consumed()
                + old(self).readable(),
            (r is Ok) == (amount as nat <= old(self).readable().len()),
            r matches Ok(v) ==> v@ == old(self).readable().take(amount as int)
                && final(self).consumed() == old(self).consumed() + v@
                && final(self).readable() == old(self).readable().skip(amount as int),
            r matches Err(e) ==> e == Error::IO,
    ;

    /// Read all remaining bytes. An exhausted stream is success, not an
    /// error: the result is then empty.
    fn read_to_vec(&mut self) -> (r: Result<Vec<u8>, Error>)
        ensures
            final(self).consumed() + final(self).readable() == old(self).consumed()
                + old(self).readable(),
            old(self).readable().len() == 0 ==> r is Ok,
            r matches Ok(v) ==> v@ == old(self).readable()
                && final(self).consumed() == old(self).consumed() + old(self).readable()
                && final(self).readable() == Seq::<u8>::empty(),
            r matches Err(e) ==> e == Error::IO,
    ;

    /// Move the current position to `pos`, counted from the start of the
    /// stream. The decode operations never seek on their own; this exists so
    /// that a caller can backtrack between reads.
    fn set_position(&mut self, pos: u64) -> (r: Result<(), Error>)
        requires
            pos as nat <= old(self).consumed().len() + old(self).readable().len(),
        ensures
            final(self).consumed() + final(self).readable() == old(self).consumed()
                + old(self).readable(),
            r is Ok ==> final(self).consumed() == (old(self).consumed()
                + old(self).readable()).take(pos as int)
                && final(self).readable() == (old(self).consumed()
                + old(self).readable()).skip(pos as int),
            r matches Err(e) ==> e == Error::IO,
    ;

    /// Read one unsigned 8-bit integer.
    fn read_u8(&mut self) -> (r: Result<u8, Error>)
        ensures
            final(self).consumed() + final(self).readable() == old(self).consumed()
                + old(self).readable(),
            (r is Ok) == (1 <= old(self).readable().len()),
            r matches Ok(v) ==> v as nat == le_decode(old(self).readable().take(1))
                && final(self).consumed() == old(self).consumed() + old(self).readable().take(1)
                && final(self).readable() == old(self).readable().skip(1),
            r matches Err(e) ==> e == Error::IO,
    {
        match self.read_n_bytes_vec(1) {
            Ok(b) => {
                proof {
                    lemma_le_decode_bound(b@);
                    lemma_pow256_values();
                }
                Ok(le_value(&b) as u8)
            },
            Err(e) => Err(e),
        }
    }

    /// Read one little-endian unsigned 16-bit integer.
    fn read_u16(&mut self) -> (r: Result<u16, Error>)
        ensures
            final(self).consumed() + final(self).readable() == old(self).consumed()
                + old(self).readable(),
            (r is Ok) == (2 <= old(self).readable().len()),
            r matches Ok(v) ==> v as nat == le_decode(old(self).readable().take(2))
                && final(self).consumed() == old(self).consumed() + old(self).readable().take(2)
                && final(self).readable() == old(self).readable().skip(2),
            r matches Err(e) ==> e == Error::IO,
    {
        match self.read_n_bytes_vec(2) {
            Ok(b) => {
                proof {
                    lemma_le_decode_bound(b@);
                    lemma_pow256_values();
                }
                Ok(le_value(&b) as u16)
            },
            Err(e) => Err(e),
        }
    }

    /// Read one little-endian unsigned 32-bit integer.
    fn read_u32(&mut self) -> (r: Result<u32, Error>)
        ensures
            final(self).consumed() + final(self).readable() == old(self).consumed()
                + old(self).readable(),
            (r is Ok) == (4 <= old(self).readable().len()),
            r matches Ok(v) ==> v as nat == le_decode(old(self).readable().take(4))
                && final(self).consumed() == old(self).consumed() + old(self).readable().take(4)
                && final(self).readable() == old(self).readable().skip(4),
            r matches Err(e) ==> e == Error::IO,
    {
        match self.read_n_bytes_vec(4) {
            Ok(b) => {
                proof {
                    lemma_le_decode_bound(b@);
                    lemma_pow256_values();
                }
                Ok(le_value(&b) as u32)
            },
            Err(e) => Err(e),
        }
    }

    /// Read exactly `N` bytes into a fixed-size buffer, or fail when fewer
    /// remain.
    fn read_n_bytes<const N: usize>(&mut self) -> (r: Result<[u8; N], Error>)
        ensures
            final(self).consumed() + final(self).readable() == old(self).consumed()
                + old(self).readable(),
            (r is Ok) == (N as nat <= old(self).readable().len()),
            r matches Ok(a) ==> a@ == old(self).readable().take(N as int)
                && final(self).consumed() == old(self).consumed() + a@
                && final(self).readable() == old(self).readable().skip(N as int),
            r matches Err(e) ==> e == Error::IO,
    {
        match self.read_n_bytes_vec(N) {
            Ok(v) => {
                let mut a = [0u8; N];
                let mut i: usize = 0;
                while i < N
                    invariant
                        i <= N,
                        v@.len() == N,
                        a@.len() == N,
                        forall|j: int| 0 <= j < i ==> a@[j] == v@[j],
                    decreases N - i,
                {
                    a[i] = v[i];
                    i = i + 1;
                }
                proof {
                    assert(a@ =~= v@);
                }
                Ok(a)
            },
            Err(e) => Err(e),
        }
    }

    /// Read one signed 8-bit integer, two's complement.
    fn read_i8(&mut self) -> (r: Result<i8, Error>)
        ensures
            final(self).consumed() + final(self).readable() == old(self).consumed()
                + old(self).readable(),
            (r is Ok) == (1 <= old(self).readable().len()),
            r matches Ok(v) ==> v as int == signed_of(le_decode(old(self).readable().take(1)), 1)
                && final(self).consumed() == old(self).consumed() + old(self).readable().take(1)
                && final(self).readable() == old(self).readable().skip(1),
            r matches Err(e) ==> e == Error::IO,
    {
        match self.read_n_bytes_vec(1) {
            Ok(b) => {
                proof {
                    lemma_le_decode_bound(b@);
                    lemma_pow256_values();
                }
                let u = le_value(&b);
                Ok(if u < 0x80 {
                    u as i8
                } else {
                    ((u as i16) - 0x100) as i8
                })
            },
            Err(e) => Err(e),
        }
    }

    /// Read one little-endian signed 16-bit integer, two's complement.
    fn read_i16(&mut self) -> (r: Result<i16, Error>)
        ensures
            final(self).consumed() + final(self).readable() == old(self).consumed()
                + old(self).readable(),
            (r is Ok) == (2 <= old(self).readable().len()),
            r matches Ok(v) ==> v as int == signed_of(le_decode(old(self).readable().take(2)), 2)
                && final(self).consumed() == old(self).consumed() + old(self).readable().take(2)
                && final(self).readable() == old(self).readable().skip(2),
            r matches Err(e) ==> e == Error::IO,
    {
        match self.read_n_bytes_vec(2) {
            Ok(b) => {
                proof {
                    lemma_le_decode_bound(b@);
                    lemma_pow256_values();
                }
                let u = le_value(&b);
                Ok(if u < 0x8000 {
                    u as i16
                } else {
                    ((u as i32) - 0x10000) as i16
                })
            },
            Err(e) => Err(e),
        }
    }

    /// Read one little-endian signed 32-bit integer, two's complement.
    fn read_i32(&mut self) -> (r: Result<i32, Error>)
        ensures
            final(self).consumed() + final(self).readable() == old(self).consumed()
                + old(self).readable(),
            (r is Ok) == (4 <= old(self).readable().len()),
            r matches Ok(v) ==> v as int == signed_of(le_decode(old(self).readable().take(4)), 4)
                && final(self).consumed() == old(self).consumed() + old(self).readable().take(4)
                && final(self).readable() == old(self).readable().skip(4),
            r matches Err(e) ==> e == Error::IO,
    {
        match self.read_n_bytes_vec(4) {
            Ok(b) => {
                proof {
                    lemma_le_decode_bound(b@);
                    lemma_pow256_values();
                }
                let u = le_value(&b);
                Ok(if u < 0x80000000 {
                    u as i32
                } else {
                    ((u as i64) - 0x100000000) as i32
                })
            },
            Err(e) => Err(e),
        }
    }

    /// Read one little-endian signed 64-bit integer, two's complement.
    fn read_i64(&mut self) -> (r: Result<i64, Error>)
        ensures
            final(self).consumed() + final(self).readable() == old(self).consumed()
                + old(self).readable(),
            (r is Ok) == (8 <= old(self).readable().len()),
            r matches Ok(v) ==> v as int == signed_of(le_decode(old(self).readable().take(8)), 8)
                && final(self).consumed() == old(self).consumed() + old(self).readable().take(8)
                && final(self).readable() == old(self).readable().skip(8),
            r matches Err(e) ==> e == Error::IO,
    {
        match self.read_n_bytes_vec(8) {
            Ok(b) => {
                proof {
                    lemma_le_decode_bound(b@);
                    lemma_pow256_values();
                }
                let u = le_value(&b);
                Ok(if u < 0x8000000000000000 {
                    u as i64
                } else {
                    ((u as i128) - 0x10000000000000000) as i64
                })
            },
            Err(e) => Err(e),
        }
    }

    /// Read one little-endian unsigned 64-bit integer.
    fn read_u64(&mut self) -> (r: Result<u64, Error>)
        ensures
            final(self).consumed() + final(self).readable() == old(self).consumed()
                + old(self).readable(),
            (r is Ok) == (8 <= old(self).readable().len()),
            r matches Ok(v) ==> v as nat == le_decode(old(self).readable().take(8))
                && final(self).consumed() == old(self).consumed() + old(self).readable().take(8)
                && final(self).readable() == old(self).readable().skip(8),
            r matches Err(e) ==> e == Error::IO,
    {
        match self.read_n_bytes_vec(8) {
            Ok(b) => Ok(le_value(&b)),
            Err(e) => Err(e),
        }
    }

    /// Read one length-prefixed UTF-8 string: an unsigned 64-bit byte count,
    /// then that many bytes, validated as UTF-8. A short prefix or a short
    /// body is an I/O-kind error; a body that is not valid UTF-8 is the
    /// UTF-8-kind error, and the only source of it.
    fn read_string(&mut self) -> (r: Result<String, Error>)
        ensures
            final(self).consumed() + final(self).readable() == old(self).consumed()
                + old(self).readable(),
            (r is Ok) == (frame_payload(old(self).readable()) matches Some(p) && valid_utf8(p)),
            r matches Ok(s) ==> (frame_payload(old(self).readable()) matches Some(p)
                && s@ == decode_utf8(p)
                && final(self).consumed() == old(self).consumed()
                    + old(self).readable().take(8 + p.len() as int)
                && final(self).readable() == old(self).readable().skip(8 + p.len() as int)),
            r matches Err(e) ==> ((e == Error::FromUtf8) <==> (frame_payload(old(self).readable())
                matches Some(p) && !valid_utf8(p))),
            r matches Err(e) ==> e == Error::IO || e == Error::FromUtf8,
    {
        let ghost r0 = self.readable();
        let ghost c0 = self.consumed();
        let len = match self.read_u64() {
            Ok(n) => n,
            Err(e) => { return Err(e) },
        };
        proof {
            self.wf_bounded();
        }
        if len > usize::MAX as u64 {
            return Err(Error::IO);
        }
        let body = match self.read_n_bytes_vec(len as usize) {
            Ok(b) => b,
            Err(e) => { return Err(e) },
        };
        let ghost p = body@;
        proof {
            assert(r0.skip(8).take(len as int) =~= r0.subrange(8, 8 + len as int));
            assert(r0.skip(8).skip(len as int) =~= r0.skip(8 + len as int));
            assert(c0 + r0.take(8) + p =~= c0 + r0.take(8 + len as int));
        }
        match vec_to_string(body) {
            Some(s) => {
                proof {
                    encode_utf8_decode_utf8(s@);
                }
                Ok(s)
            },
            None => Err(Error::FromUtf8),
        }
    }
}

} // verus!
