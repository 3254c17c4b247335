//! The writer capability: typed encode operations into any sink of bytes.
//!
//! A sink is modelled by two byte sequences: [`BytesWriteExt::behind`], the
//! bytes before the write position, and [`BytesWriteExt::ahead`], the bytes
//! after it, which a write overwrites first before growing the stream. An
//! append-only sink simply keeps `ahead()` empty. The one primitive
//! operation, `write_all_bytes`, is what an implementor supplies; every
//! typed encode operation is provided on top of it and verified once.

use vstd::prelude::*;
use vstd::string::StrSliceExecFns;
use vstd::utf8::encode_utf8;

use crate::le::le_bytes;
use crate::le::le_encode;
use crate::le::unsigned_of;
use crate::Error;

verus! {

/// What stands after the write position once `n` bytes have been written
/// over `ahead`: the part not overwritten, or nothing when the write ran
/// past the end.
pub open spec fn after_write(ahead: Seq<u8>, n: int) -> Seq<u8> {
    if n <= ahead.len() {
        ahead.skip(n)
    } else {
        Seq::empty()
    }
}

/// Writing in two steps overwrites the same bytes as writing in one.
pub proof fn lemma_after_write_twice(ahead: Seq<u8>, m: int, n: int)
    requires
        0 <= m,
        0 <= n,
    ensures
        after_write(after_write(ahead, m), n) == after_write(ahead, m + n),
{
    if m + n <= ahead.len() {
        assert(after_write(after_write(ahead, m), n) =~= after_write(ahead, m + n));
    } else if m <= ahead.len() {
        assert(after_write(after_write(ahead, m), n) =~= Seq::<u8>::empty());
    }
}

/// Encode operations into a sink of bytes.
///
/// `behind()` and `ahead()` model the sink: its full contents are
/// `behind() + ahead()`, and the write position stands between the two.
/// Every successful write appends its encoded bytes to `behind()`,
/// overwriting the start of `ahead()`.
pub trait BytesWriteExt {
    /// The bytes before the write position.
    spec fn behind(&self) -> Seq<u8>;

    /// The bytes after the write position, overwritten first by a write.
    spec fn ahead(&self) -> Seq<u8>;

    /// Write all the given bytes, or fail if the sink cannot accept them
    /// all; a failed write may have pushed a prefix of them.
    fn write_all_bytes(&mut self, buf: &Vec<u8>) -> (r: Result<(), Error>)
        ensures
            r is Ok ==> final(self).behind() == old(self).behind() + buf@ && final(self).ahead()
                == after_write(old(self).ahead(), buf@.len() as int),
            r matches Err(e) ==> e == Error::IO,
    ;

    /// Write one unsigned 8-bit integer.
    fn write_u8(&mut self, value: u8) -> (r: Result<(), Error>)
        ensures
            r is Ok ==> final(self).behind() == old(self).behind() + le_encode(value as nat, 1)
                && final(self).ahead() == after_write(old(self).ahead(), 1),
            r matches Err(e) ==> e == Error::IO,
    {
        let bytes = le_bytes(value as u64, 1);
        self.write_all_bytes(&bytes)
    }

    /// Write one little-endian unsigned 16-bit integer.
    fn write_u16(&mut self, value: u16) -> (r: Result<(), Error>)
        ensures
            r is Ok ==> final(self).behind() == old(self).behind() + le_encode(value as nat, 2)
                && final(self).ahead() == after_write(old(self).ahead(), 2),
            r matches Err(e) ==> e == Error::IO,
    {
        let bytes = le_bytes(value as u64, 2);
        self.write_all_bytes(&bytes)
    }

    /// Write one little-endian unsigned 32-bit integer.
    fn write_u32(&mut self, value: u32) -> (r: Result<(), Error>)
        ensures
            r is Ok ==> final(self).behind() == old(self).behind() + le_encode(value as nat, 4)
                && final(self).ahead() == after_write(old(self).ahead(), 4),
            r matches Err(e) ==> e == Error::IO,
    {
        let bytes = le_bytes(value as u64, 4);
        self.write_all_bytes(&bytes)
    }

    /// Write one little-endian unsigned 64-bit integer.
    fn write_u64(&mut self, value: u64) -> (r: Result<(), Error>)
        ensures
            r is Ok ==> final(self).behind() == old(self).behind() + le_encode(value as nat, 8)
                && final(self).ahead() == after_write(old(self).ahead(), 8),
            r matches Err(e) ==> e == Error::IO,
    {
        let bytes = le_bytes(value, 8);
        self.write_all_bytes(&bytes)
    }

    /// Write one signed 8-bit integer, two's complement.
    fn write_i8(&mut self, value: i8) -> (r: Result<(), Error>)
        ensures
            r is Ok ==> final(self).behind() == old(self).behind() + le_encode(
                unsigned_of(value as int, 1),
                1,
            ) && final(self).ahead() == after_write(old(self).ahead(), 1),
            r matches Err(e) ==> e == Error::IO,
    {
        proof {
            crate::le::lemma_pow256_values();
        }
        let u: u64 = if value >= 0 {
            value as u64
        } else {
            ((value as i16) + 0x100) as u64
        };
        let bytes = le_bytes(u, 1);
        self.write_all_bytes(&bytes)
    }

    /// Write one little-endian signed 16-bit integer, two's complement.
    fn write_i16(&mut self, value: i16) -> (r: Result<(), Error>)
        ensures
            r is Ok ==> final(self).behind() == old(self).behind() + le_encode(
                unsigned_of(value as int, 2),
                2,
            ) && final(self).ahead() == after_write(old(self).ahead(), 2),
            r matches Err(e) ==> e == Error::IO,
    {
        proof {
            crate::le::lemma_pow256_values();
        }
        let u: u64 = if value >= 0 {
            value as u64
        } else {
            ((value as i32) + 0x10000) as u64
        };
        let bytes = le_bytes(u, 2);
        self.write_all_bytes(&bytes)
    }

    /// Write one little-endian signed 32-bit integer, two's complement.
    fn write_i32(&mut self, value: i32) -> (r: Result<(), Error>)
        ensures
            r is Ok ==> final(self).behind() == old(self).behind() + le_encode(
                unsigned_of(value as int, 4),
                4,
            ) && final(self).ahead() == after_write(old(self).ahead(), 4),
            r matches Err(e) ==> e == Error::IO,
    {
        proof {
            crate::le::lemma_pow256_values();
        }
        let u: u64 = if value >= 0 {
            value as u64
        } else {
            ((value as i64) + 0x100000000) as u64
        };
        let bytes = le_bytes(u, 4);
        self.write_all_bytes(&bytes)
    }

    /// Write one little-endian signed 64-bit integer, two's complement.
    fn write_i64(&mut self, value: i64) -> (r: Result<(), Error>)
        ensures
            r is Ok ==> final(self).behind() == old(self).behind() + le_encode(
                unsigned_of(value as int, 8),
                8,
            ) && final(self).ahead() == after_write(old(self).ahead(), 8),
            r matches Err(e) ==> e == Error::IO,
    {
        proof {
            crate::le::lemma_pow256_values();
        }
        let u: u64 = if value >= 0 {
            value as u64
        } else {
            ((value as i128) + 0x10000000000000000) as u64
        };
        let bytes = le_bytes(u, 8);
        self.write_all_bytes(&bytes)
    }

    /// Write one length-prefixed UTF-8 string: the byte length of `value`
    /// (not its character count) as an unsigned 64-bit integer, then the raw
    /// UTF-8 bytes.
    fn write_string(&mut self, value: &str) -> (r: Result<(), Error>)
        ensures
            r is Ok ==> final(self).behind() == old(self).behind() + crate::strcodec::string_frame(
                encode_utf8(value@),
            ) && final(self).ahead() == after_write(
                old(self).ahead(),
                8 + encode_utf8(value@).len() as int,
            ),
            r matches Err(e) ==> e == Error::IO,
    {
        let bytes = value.as_bytes_vec();
        let len: u64 = bytes.len() as u64;
        match self.write_u64(len) {
            Ok(()) => {
                let r = self.write_all_bytes(&bytes);
                proof {
                    lemma_after_write_twice(old(self).ahead(), 8, bytes@.len() as int);
                }
                r
            },
            Err(e) => Err(e),
        }
    }
}

} // verus!
