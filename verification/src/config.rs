//! A span-based model of a configuration file: a byte buffer plus tokens
//! that point into it. Typed value decoding is not offered yet: every
//! typed accessor reports `Unsupported`, and says so in its contract.

use vstd::prelude::*;
use vstd::slice::slice_subrange;

verus! {

/// An inclusive byte range into a configuration file's buffer.
#[derive(PartialEq, Eq, PartialOrd, Ord, Hash, Clone, Copy, Debug, Structural)]
pub struct Span {
    pub start: usize,
    pub end_inclusive: usize,
}

impl Span {
    /// The same bytes as a half-open range: start of the first byte and
    /// one past the last.
    pub fn to_range(&self) -> (r: (usize, usize))
        requires
            self.end_inclusive < usize::MAX,
        ensures
            r.0 == self.start,
            r.1 == self.end_inclusive + 1,
    {
        (self.start, self.end_inclusive + 1)
    }
}

/// A section heading's name, with an optional subsection name.
#[derive(PartialEq, Eq, Clone, Copy, Debug, Structural)]
pub struct SpannedSection {
    pub name: Span,
    pub sub_name: Option<Span>,
}

/// A key with an optional value, both as spans into the buffer.
#[derive(PartialEq, Eq, Clone, Copy, Debug, Structural)]
pub struct SpannedEntry {
    pub name: Span,
    pub value: Option<Span>,
}

/// One parsed token of a configuration file. Leading and trailing
/// whitespace is folded into comments, so no whitespace token exists.
#[derive(PartialEq, Eq, Clone, Copy, Debug, Structural)]
enum Token {
    Section(SpannedSection),
    Entry(SpannedEntry),
    Comment(Span),
}

/// A configuration file: its raw bytes and the tokens pointing into them.
pub struct File {
    buf: Vec<u8>,
    tokens: Vec<Token>,
}

impl File {
    /// The file's raw bytes.
    pub closed spec fn buf_spec(&self) -> Seq<u8> {
        self.buf@
    }

    /// A file over raw bytes, with no tokens parsed yet.
    pub fn from_bytes(buf: Vec<u8>) -> (r: File)
        ensures
            r.buf_spec() == buf@,
    {
        File { buf, tokens: Vec::new() }
    }

    /// The raw bytes a span covers.
    pub fn bytes_at(&self, span: Span) -> (r: &[u8])
        requires
            span.start <= span.end_inclusive,
            span.end_inclusive < self.buf_spec().len(),
        ensures
            r@ == self.buf_spec().subrange(span.start as int, span.end_inclusive + 1),
    {
        let n: usize = self.buf.len();
        assert(span.end_inclusive + 1 <= n);
        slice_subrange(self.buf.as_slice(), span.start, span.end_inclusive + 1)
    }
}

/// A color value a configuration entry can hold.
#[derive(PartialEq, Eq, Clone, Copy, Debug, Structural)]
pub enum Color {
    Red,
    BrightRed,
    Ansi { r: u8, g: u8, c: u8 },
}

/// Why decoding a configuration value failed.
#[derive(PartialEq, Eq, Clone, Copy, Debug, Structural)]
pub enum DecodeError {
    /// Decoding this value representation is not offered yet.
    Unsupported,
    /// The entry has no value at all.
    NoValue,
}

/// A key-value entry of a configuration file, its pieces as spans.
#[derive(PartialEq, Eq, Clone, Copy, Debug, Structural)]
pub struct Entry {
    pub name: Span,
    pub value: Option<Span>,
}

impl Entry {
    pub fn new(name: Span, value: Option<Span>) -> (r: Entry)
        ensures
            r.name == name,
            r.value == value,
    {
        Entry { name, value }
    }

    /// The entry's decoded value. An entry without a value reports
    /// `NoValue`; decoding a present value is not offered yet and reports
    /// `Unsupported`.
    pub fn as_string(&self) -> (r: Result<Vec<u8>, DecodeError>)
        ensures
            self.value is None ==> r is Err && r->Err_0 == DecodeError::NoValue,
            self.value is Some ==> r is Err && r->Err_0 == DecodeError::Unsupported,
    {
        match self.value {
            None => Err(DecodeError::NoValue),
            Some(_) => Err(DecodeError::Unsupported),
        }
    }

    /// Decoding integers is not offered: always reports `Unsupported`.
    pub fn as_int(&self) -> (r: Result<i64, DecodeError>)
        ensures
            r == Err::<i64, DecodeError>(DecodeError::Unsupported),
    {
        Err(DecodeError::Unsupported)
    }

    /// Decoding booleans is not offered: always reports `Unsupported`.
    pub fn as_bool(&self) -> (r: Result<bool, DecodeError>)
        ensures
            r == Err::<bool, DecodeError>(DecodeError::Unsupported),
    {
        Err(DecodeError::Unsupported)
    }

    /// Decoding paths is not offered: always reports `Unsupported`.
    pub fn as_path(&self) -> (r: Result<Vec<u8>, DecodeError>)
        ensures
            r is Err && r->Err_0 == DecodeError::Unsupported,
    {
        Err(DecodeError::Unsupported)
    }

    /// Decoding colors is not offered: always reports `Unsupported`.
    pub fn as_color(&self) -> (r: Result<Color, DecodeError>)
        ensures
            r == Err::<Color, DecodeError>(DecodeError::Unsupported),
    {
        Err(DecodeError::Unsupported)
    }
}

} // verus!
