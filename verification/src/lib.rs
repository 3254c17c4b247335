//! A minimal binary (de)serialization layer.
//!
//! A pair of capability traits lets any byte stream exchange fixed-width
//! integers and length-prefixed UTF-8 strings in one canonical little-endian
//! encoding: [`BytesReadExt`] decodes typed values from a stream, and
//! [`BytesWriteExt`] encodes typed values into one. [`ByteCursor`] is an
//! in-memory stream implementing both. Every operation either fully succeeds,
//! advancing the stream by the full encoded size, or fails with one of the two
//! kinds of [`Error`].

use vstd::prelude::*;

pub mod cursor;
pub mod le;
pub mod read;
pub mod strcodec;
pub mod write;

pub use crate::cursor::ByteCursor;
pub use crate::read::BytesReadExt;
pub use crate::write::BytesWriteExt;

verus! {

/// The two failure sources of this layer: a fault of the underlying stream
/// (including short reads and short writes), or a byte sequence that is not
/// valid UTF-8. The latter only ever arises from the body-validation step of
/// [`BytesReadExt::read_string`].
#[derive(Clone, Copy, Debug, PartialEq, Eq, Structural)]
pub enum Error {
    /// The underlying stream failed, or held fewer bytes than requested, or
    /// accepted fewer bytes than given.
    IO,
    /// A length-prefixed payload was not valid UTF-8.
    FromUtf8,
}

impl Error {
    /// A short description of the error kind.
    pub fn describe(&self) -> (r: &'static str)
        ensures
            self is IO ==> r@ == "IO Error"@,
            self is FromUtf8 ==> r@ == "Utf8"@,
    {
        proof {
            reveal_strlit("IO Error");
            reveal_strlit("Utf8");
        }
        match self {
            Error::IO => "IO Error",
            Error::FromUtf8 => "Utf8",
        }
    }
}

} // verus!
