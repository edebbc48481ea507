//! Errors surfaced while decoding a pack stream.

use vstd::prelude::*;
use crate::parse::FormatError;

verus! {

/// Why a pull on the stream decoder, or its construction, failed.
#[derive(Clone, Copy, Debug, PartialEq, Eq, Structural)]
pub enum Error {
    /// The fixed 12-byte preamble was malformed.
    Format(FormatError),
    /// The stream ended inside an entry header, a delta reference, or the
    /// compressed payload.
    Truncated,
    /// A declared size or delta distance does not fit in 64 bits.
    Oversize,
    /// The three-bit kind tag was one of the two unassigned values.
    BadKind(u8),
    /// The decompressor reported corrupt payload data.
    Inflate,
    /// The inflated payload did not end at exactly the declared size: the
    /// offset bookkeeping of every later entry would be wrong, so the
    /// stream is abandoned rather than resynchronized.
    SizeMismatch,
}

} // verus!
