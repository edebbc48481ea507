//! The streaming entry decoder: walks a pack stream entry by entry from its
//! preamble to its trailing checksum, yielding for each entry its decoded
//! header, the exact compressed bytes it occupied, and its inflated payload.

use vstd::prelude::*;
use crate::error::Error;
use crate::header::{header_matches, Header};
use crate::parse;
use crate::parse::{be32, magic, FormatError, Kind};
use crate::source::{ByteSource, PassThrough};
use crate::zlib::{Inflate, Step};

verus! {

/// One fully decoded entry, yielded to the caller.
#[derive(Clone, Debug, PartialEq, Eq, Hash, PartialOrd, Ord)]
pub struct Entry {
    pub header: Header,
    /// Number of bytes used to encode `header`; `pack_offset + header_size`
    /// is the beginning of this entry's compressed data in the pack.
    pub header_size: u16,
    /// Absolute offset, from the start of the pack, of this entry's header.
    pub pack_offset: u64,
    /// The exact compressed bytes consumed while producing `decompressed`.
    pub compressed: Vec<u8>,
    /// The fully inflated payload.
    pub decompressed: Vec<u8>,
}

/// The decoder's state machine: a capturing reader over the stream, a
/// reusable decompressor, the running offset, the remaining attempt budget,
/// a sticky failure flag, and the trailing checksum once it is available.
pub struct Iter {
    read: PassThrough,
    decompressor: Option<Inflate>,
    offset: u64,
    had_error: bool,
    kind: Kind,
    objects_left: u32,
    hash: Option<Vec<u8>>,
    verify: bool,
}

impl Iter {
    /// The whole underlying byte stream.
    pub closed spec fn stream(&self) -> Seq<u8> {
        self.read.read.data@
    }

    /// How far into the stream the next entry's header begins.
    pub closed spec fn offset(&self) -> u64 {
        self.offset
    }

    /// The remaining attempt budget: entries declared but not yet pulled.
    pub closed spec fn entries_left(&self) -> u32 {
        self.objects_left
    }

    /// Whether a pull has failed; failure is sticky.
    pub closed spec fn failed(&self) -> bool {
        self.had_error
    }

    /// The trailing checksum, once the stream is exhausted.
    pub closed spec fn trailer(&self) -> Option<Seq<u8>> {
        match self.hash {
            Some(h) => Some(h@),
            None => None,
        }
    }

    pub closed spec fn kind_spec(&self) -> Kind {
        self.kind
    }

    pub closed spec fn verify_flag(&self) -> bool {
        self.verify
    }

    pub closed spec fn wf(&self) -> bool {
        &&& self.read.wf()
        &&& (!self.had_error ==> self.read.write@ == Seq::<u8>::empty())
        &&& (!self.had_error && self.hash is None ==> self.read.read.pos as int
            == self.offset as int)
        &&& match self.hash {
            Some(h) => {
                &&& h@.len() == 20
                &&& !self.had_error
                &&& self.objects_left == 0
                &&& self.read.read.pos as int == self.offset as int + 20
                &&& h@ == self.stream().subrange(self.offset as int, self.offset as int + 20)
            },
            None => true,
        }
    }

    /// Builds a decoder over a source positioned at the start of a pack
    /// stream: reads and validates the 12-byte preamble, refusing a bad
    /// magic or any version other than the supported one, and initializes
    /// the offset to 12 and the countdown to the declared entry count. No
    /// decompressor exists yet; it is created on the first pull.
    pub fn new_from_header(read: ByteSource, verify: bool) -> (r: Result<Iter, Error>)
        requires
            read.wf(),
            read.pos == 0,
        ensures
            match r {
                Ok(it) => {
                    &&& it.wf()
                    &&& it.stream() == read.data@
                    &&& read.data@.len() >= 12
                    &&& read.data@.subrange(0, 4) == magic()
                    &&& be32(read.data@, 4) == 2
                    &&& it.offset() == 12
                    &&& it.entries_left() == be32(read.data@, 8)
                    &&& it.kind_spec() == Kind::V2
                    &&& !it.failed()
                    &&& (it.entries_left() == 0 && read.data@.len() >= 32 ==> it.trailer()
                        == Some(read.data@.subrange(12, 32)))
                    &&& (it.entries_left() > 0 || read.data@.len() < 32 ==> it.trailer() is None)
                    &&& it.verify_flag() == verify
                },
                Err(Error::Truncated) => read.data@.len() < 12,
                Err(Error::Format(FormatError::BadMagic)) => read.data@.len() >= 12
                    && read.data@.subrange(0, 4) != magic(),
                Err(Error::Format(FormatError::UnsupportedVersion(v))) => {
                    &&& read.data@.len() >= 12
                    &&& read.data@.subrange(0, 4) == magic()
                    &&& v == be32(read.data@, 4)
                    &&& v != 2
                },
                Err(_) => false,
            },
            r is Ok <==> (read.data@.len() >= 12 && read.data@.subrange(0, 4) == magic()
                && be32(read.data@, 4) == 2),
    {
        let mut read = read;
        let hdr = match read.read_bytes(12) {
            None => { return Err(Error::Truncated); },
            Some(v) => v,
        };
        proof {
            assert(hdr@.subrange(0, 4) =~= read.data@.subrange(0, 4));
            assert(hdr@[4] == read.data@[4] && hdr@[5] == read.data@[5] && hdr@[6]
                == read.data@[6] && hdr@[7] == read.data@[7]);
            assert(hdr@[8] == read.data@[8] && hdr@[9] == read.data@[9] && hdr@[10]
                == read.data@[10] && hdr@[11] == read.data@[11]);
        }
        let (kind, num_objects) = match parse::header(hdr.as_slice()) {
            Err(e) => { return Err(Error::Format(e)); },
            Ok(t) => t,
        };
        // a stream declaring no entries is exhausted from the start: its
        // trailing checksum follows the preamble immediately
        let hash: Option<Vec<u8>> = if num_objects == 0 {
            match read.read_bytes(20) {
                Some(h) => {
                    proof {
                        assert(h@ =~= read.data@.subrange(12, 32));
                    }
                    Some(h)
                },
                None => None,
            }
        } else {
            None
        };
        Ok(
            Iter {
                read: PassThrough::new(read),
                decompressor: None,
                offset: 12,
                had_error: false,
                kind,
                objects_left: num_objects,
                hash,
                verify,
            },
        )
    }

    /// The pack stream's format version.
    pub fn kind(&self) -> (r: Kind)
        ensures
            r == self.kind_spec(),
    {
        self.kind
    }

    /// The exact remaining attempt budget. An erroring pull consumes one
    /// unit of it too: the declared count bounds attempts, not successes.
    pub fn declared_remaining(&self) -> (r: u32)
        ensures
            r == self.entries_left(),
    {
        self.objects_left
    }

    /// The trailing whole-stream checksum. Calling this before the
    /// iterator is exhausted is a caller error: the checksum exists only
    /// once every declared entry has been pulled successfully and the
    /// trailing 20 bytes have been read.
    pub fn checksum(&self) -> (r: Vec<u8>)
        requires
            self.wf(),
            self.trailer() is Some,
        ensures
            Some(r@) == self.trailer(),
            r@.len() == 20,
    {
        match &self.hash {
            Some(h) => vstd::slice::slice_to_vec(h.as_slice()),
            None => { proof { assert(false); } Vec::new() },
        }
    }

    /// The trailing checksum if the stream has been exhausted, `None`
    /// before that.
    pub fn try_checksum(&self) -> (r: Option<Vec<u8>>)
        ensures
            match r {
                Some(v) => self.trailer() == Some(v@),
                None => self.trailer() is None,
            },
    {
        match &self.hash {
            Some(h) => Some(vstd::slice::slice_to_vec(h.as_slice())),
            None => None,
        }
    }

    /// Decodes the entry at the current offset: reads its header, inflates
    /// exactly the declared number of bytes through a capturing reader, and
    /// checks every count against the declared ones.
    fn next_inner(&mut self) -> (r: Result<Entry, Error>)
        requires
            old(self).wf(),
            !old(self).failed(),
            old(self).trailer() is None,
        ensures
            final(self).stream() == old(self).stream(),
            final(self).offset() >= old(self).offset(),
            final(self).entries_left() == old(self).entries_left(),
            final(self).kind_spec() == old(self).kind_spec(),
            final(self).verify_flag() == old(self).verify_flag(),
            !final(self).failed(),
            final(self).trailer() is None,
            final(self).read.wf(),
            !crate::header::header_ok(
                old(self).stream().skip(old(self).offset() as int),
            ) ==> r is Err,
            match r {
                Ok(e) => {
                    &&& final(self).wf()
                    &&& e.header.wf()
                    &&& e.pack_offset == old(self).offset()
                    &&& e.decompressed@.len() <= u64::MAX
                    &&& header_matches(
                        old(self).stream().skip(old(self).offset() as int),
                        e.header,
                        e.decompressed@.len() as u64,
                        e.header_size as int,
                    )
                    &&& e.compressed@ == old(self).stream().subrange(
                        old(self).offset() + e.header_size,
                        old(self).offset() + e.header_size + e.compressed@.len(),
                    )
                    &&& final(self).offset() == old(self).offset() + e.header_size
                        + e.compressed@.len()
                },
                Err(_) => final(self).offset() == old(self).offset(),
            },
    {
        let ghost stream = self.read.read.data@;
        let (header, size, used) = match Header::from_read(&mut self.read.read) {
            Err(e) => { return Err(e); },
            Ok(t) => t,
        };
        if used > u16::MAX as usize {
            return Err(Error::Oversize);
        }
        if size >= usize::MAX as u64 {
            return Err(Error::Oversize);
        }
        let target: usize = size as usize;
        let mut d = match self.decompressor.take() {
            Some(d) => d,
            None => Inflate::new(),
        };
        d.reset();
        let mut scratch: Vec<u8> = vec![0u8; target + 1];
        let mut decompressed: Vec<u8> = Vec::new();
        let mut consumed_total: usize = 0;
        let ghost start_pos = self.read.read.pos as int;
        loop
            invariant
                self.read.wf(),
                stream == old(self).stream(),
                self.read.read.data@ == stream,
                start_pos == old(self).offset + used,
                start_pos <= self.read.read.pos as int <= stream.len(),
                consumed_total == self.read.read.pos as int - start_pos,
                self.read.write@ == stream.subrange(start_pos, self.read.read.pos as int),
                scratch@.len() == target + 1,
                decompressed@.len() <= target,
                self.offset == old(self).offset,
                !self.had_error,
                self.hash is None,
                self.objects_left == old(self).objects_left,
                self.kind == old(self).kind,
                self.verify == old(self).verify,
                target == size,
            decreases (stream.len() - self.read.read.pos as int) + (target
                - decompressed.len() as int),
        {
            let avail = self.read.fill_buf();
            let (c_in, c_out, st) = d.step(avail, &mut scratch);
            self.read.consume(c_in);
            consumed_total = consumed_total + c_in;
            proof {
                assert(self.read.write@ =~= stream.subrange(
                    start_pos,
                    self.read.read.pos as int,
                ));
            }
            if c_out > 0 {
                if c_out > target - decompressed.len() {
                    return Err(Error::SizeMismatch);
                }
                append_prefix(&mut decompressed, &scratch, c_out);
            }
            match st {
                Step::End => { break ; },
                Step::Progress => {
                    if c_in == 0 && c_out == 0 {
                        return Err(Error::Truncated);
                    }
                },
                Step::Starved => { return Err(Error::Truncated); },
                Step::Corrupt => { return Err(Error::Inflate); },
            }
        }
        if decompressed.len() != target {
            return Err(Error::SizeMismatch);
        }
        let pack_offset: u64 = self.offset;
        let compressed = self.read.take_capture();
        self.offset = self.offset + (used as u64) + (compressed.len() as u64);
        self.decompressor = Some(d);
        Ok(
            Entry {
                header,
                header_size: used as u16,
                pack_offset,
                compressed,
                decompressed,
            },
        )
    }

    /// Pulls the next entry. `None` signals permanent completion: the
    /// declared count has been used up, or an earlier pull failed. One
    /// failing pull surfaces its error exactly once, still consumes one
    /// unit of the attempt budget, and leaves the decoder done for good.
    /// After the last declared entry succeeds, the trailing 20-byte
    /// checksum is read and becomes available.
    pub fn pull_next(&mut self) -> (r: Option<Result<Entry, Error>>)
        requires
            old(self).wf(),
        ensures
            final(self).wf(),
            final(self).stream() == old(self).stream(),
            final(self).kind_spec() == old(self).kind_spec(),
            final(self).verify_flag() == old(self).verify_flag(),
            (r is None) <==> (old(self).failed() || old(self).entries_left() == 0),
            (!old(self).failed() && old(self).entries_left() > 0
                && !crate::header::header_ok(
                old(self).stream().skip(old(self).offset() as int),
            )) ==> r matches Some(Err(_)),
            r is None ==> *final(self) == *old(self),
            r is Some ==> final(self).entries_left() == old(self).entries_left() - 1,
            match r {
                Some(Err(e)) => {
                    &&& final(self).failed()
                    &&& final(self).trailer() is None
                    &&& final(self).offset() == old(self).offset()
                },
                _ => true,
            },
            match r {
                Some(Ok(e)) => {
                    &&& !final(self).failed()
                    &&& e.header.wf()
                    &&& e.pack_offset == old(self).offset()
                    &&& e.decompressed@.len() <= u64::MAX
                    &&& header_matches(
                        old(self).stream().skip(old(self).offset() as int),
                        e.header,
                        e.decompressed@.len() as u64,
                        e.header_size as int,
                    )
                    &&& e.compressed@ == old(self).stream().subrange(
                        old(self).offset() + e.header_size,
                        old(self).offset() + e.header_size + e.compressed@.len(),
                    )
                    &&& final(self).offset() == old(self).offset() + e.header_size
                        + e.compressed@.len()
                    &&& (final(self).entries_left() == 0 && final(self).stream().len()
                        >= final(self).offset() + 20 ==> final(self).trailer() == Some(
                        final(self).stream().subrange(
                            final(self).offset() as int,
                            final(self).offset() as int + 20,
                        ),
                    ))
                    &&& (final(self).entries_left() > 0 || final(self).stream().len()
                        < final(self).offset() + 20 ==> final(self).trailer() is None)
                },
                _ => true,
            },
    {
        if self.had_error || self.objects_left == 0 {
            return None;
        }
        self.objects_left = self.objects_left - 1;
        match self.next_inner() {
            Ok(e) => {
                if self.objects_left == 0 {
                    match self.read.read.read_bytes(20) {
                        Some(h) => {
                            proof {
                                assert(h@ =~= self.read.read.data@.subrange(
                                    self.offset as int,
                                    self.offset as int + 20,
                                ));
                            }
                            self.hash = Some(h);
                        },
                        None => {},
                    }
                }
                Some(Ok(e))
            },
            Err(e) => {
                self.had_error = true;
                Some(Err(e))
            },
        }
    }
}

/// Appends the first `n` bytes of `src` onto `dst`.
fn append_prefix(dst: &mut Vec<u8>, src: &Vec<u8>, n: usize)
    requires
        n <= src@.len(),
    ensures
        final(dst)@ == old(dst)@ + src@.take(n as int),
{
    let mut i: usize = 0;
    while i < n
        invariant
            i <= n,
            n <= src@.len(),
            dst@ == old(dst)@ + src@.take(i as int),
        decreases n - i,
    {
        dst.push(src[i]);
        proof {
            assert(old(dst)@ + src@.take(i + 1 as int) =~= (old(dst)@ + src@.take(
                i as int,
            )).push(src@[i as int]));
        }
        i = i + 1;
    }
}

} // verus!
