//! Codec for the variable-length per-entry object header: object kind,
//! declared decompressed size, and the trailing delta reference for delta
//! entries. Two distinct base-128 encodings appear here: the size uses
//! little-endian 7-bit groups, while the offset-delta distance uses a
//! big-endian-style accumulation with a +1 adjustment per continuation byte.

use vstd::prelude::*;
use vstd::slice::{slice_subrange, slice_to_vec};
use crate::error::Error;
use crate::source::ByteSource;

verus! {

/// A decoded per-entry object header. Delta entries name their base either
/// by the byte distance back to its start (`OffsetDelta`) or by its 20-byte
/// object id (`RefDelta`).
#[derive(Clone, Debug, PartialEq, Eq, Hash, PartialOrd, Ord)]
pub enum Header {
    Commit,
    Tree,
    Blob,
    Tag,
    OffsetDelta { base_distance: u64 },
    RefDelta { base_id: Vec<u8> },
}

impl Header {
    /// A reference-delta header carries a full 20-byte object id.
    pub open spec fn wf(&self) -> bool {
        match self {
            Header::RefDelta { base_id } => base_id@.len() == 20,
            _ => true,
        }
    }

    /// The three-bit kind tag this header is encoded with.
    pub open spec fn tag(&self) -> nat {
        match self {
            Header::Commit => 1,
            Header::Tree => 2,
            Header::Blob => 3,
            Header::Tag => 4,
            Header::OffsetDelta { .. } => 6,
            Header::RefDelta { .. } => 7,
        }
    }
}

/// Value and length of a little-endian base-128 run: each byte contributes
/// seven bits, least significant group first; bit 7 marks continuation.
pub open spec fn le7(s: Seq<u8>) -> Option<(nat, int)>
    decreases s.len(),
{
    if s.len() == 0 {
        None
    } else if s[0] < 128 {
        Some((s[0] as nat, 1))
    } else {
        match le7(s.skip(1)) {
            None => None,
            Some((v, n)) => Some((((s[0] - 128) + 128 * v) as nat, n + 1)),
        }
    }
}

/// Kind tag, declared size and byte length of an entry's size prefix: the
/// first byte holds the continuation flag, the tag in bits 6-4, and the low
/// four size bits; continuation bytes add seven size bits each.
pub open spec fn size_prefix(s: Seq<u8>) -> Option<(nat, nat, int)> {
    if s.len() == 0 {
        None
    } else {
        let tag = ((s[0] as nat) / 16) % 8;
        let low = (s[0] as nat) % 16;
        if s[0] < 128 {
            Some((tag, low, 1))
        } else {
            match le7(s.skip(1)) {
                None => None,
                Some((v, n)) => Some((tag, low + 16 * v, n + 1)),
            }
        }
    }
}

/// Continuation of an offset-delta distance after `acc` has been read:
/// every further byte shifts the accumulator up by seven bits and adds one
/// first, so that multi-byte distances need no redundant encodings.
pub open spec fn ofs_rest(s: Seq<u8>, acc: nat) -> Option<(nat, int)>
    decreases s.len(),
{
    if s.len() == 0 {
        None
    } else {
        let d = (acc + 1) * 128 + (s[0] as nat) % 128;
        if s[0] < 128 {
            Some((d, 1))
        } else {
            match ofs_rest(s.skip(1), d) {
                None => None,
                Some((v, n)) => Some((v, n + 1)),
            }
        }
    }
}

/// Value and length of a whole offset-delta distance run.
pub open spec fn ofs(s: Seq<u8>) -> Option<(nat, int)> {
    if s.len() == 0 {
        None
    } else if s[0] < 128 {
        Some((s[0] as nat, 1))
    } else {
        match ofs_rest(s.skip(1), (s[0] - 128) as nat) {
            None => None,
            Some((v, n)) => Some((v, n + 1)),
        }
    }
}

/// `h` with declared size `size` is exactly what the first `used` bytes of
/// `s` encode.
pub open spec fn header_matches(s: Seq<u8>, h: Header, size: u64, used: int) -> bool {
    match size_prefix(s) {
        None => false,
        Some((tag, sz, n1)) => {
            &&& sz == size as nat
            &&& match h {
                Header::Commit => tag == 1 && used == n1,
                Header::Tree => tag == 2 && used == n1,
                Header::Blob => tag == 3 && used == n1,
                Header::Tag => tag == 4 && used == n1,
                Header::OffsetDelta { base_distance } => tag == 6 && ofs(s.skip(n1)) == Some(
                    ((base_distance as nat, used - n1)),
                ),
                Header::RefDelta { base_id } => tag == 7 && s.len() >= n1 + 20 && base_id@
                    == s.subrange(n1, n1 + 20) && used == n1 + 20,
            }
        },
    }
}

/// The first bytes of `s` decode to a header whose values all fit: the tag
/// is one of the six assigned ones, and the declared size and any delta
/// distance fit in 64 bits.
pub open spec fn header_ok(s: Seq<u8>) -> bool {
    match size_prefix(s) {
        None => false,
        Some((tag, sz, n1)) => {
            &&& sz <= u64::MAX
            &&& if tag == 6 {
                match ofs(s.skip(n1)) {
                    None => false,
                    Some((d, _)) => d <= u64::MAX,
                }
            } else if tag == 7 {
                s.len() >= n1 + 20
            } else {
                1 <= tag <= 4
            }
        },
    }
}

/// Reads a little-endian base-128 run starting at `s[i]`.
fn read_le7(s: &[u8], i: usize) -> (r: Result<(u64, usize), Error>)
    requires
        i <= s@.len(),
    ensures
        match le7(s@.skip(i as int)) {
            None => r == Err::<(u64, usize), Error>(Error::Truncated),
            Some((v, n)) => if v <= u64::MAX {
                r == Ok::<(u64, usize), Error>(((v as u64, n as usize))) && 1 <= n <= s@.len() - i
            } else {
                r == Err::<(u64, usize), Error>(Error::Oversize)
            },
        },
    decreases s@.len() - i,
{
    let slen: usize = s.len();
    if i == slen {
        return Err(Error::Truncated);
    }
    let b = s[i];
    proof {
        assert(s@.skip(i as int)[0] == s@[i as int]);
    }
    if b < 128 {
        Ok((b as u64, 1))
    } else {
        proof {
            assert(s@.skip(i as int).skip(1) =~= s@.skip(i as int + 1));
        }
        match read_le7(s, i + 1) {
            Err(e) => Err(e),
            Ok((v, n)) => {
                let low: u64 = (b - 128) as u64;
                if v > (u64::MAX - low) / 128 {
                    proof {
                        let (vs, _) = le7(s@.skip(i as int + 1)).unwrap();
                        assert(low + 128 * vs > u64::MAX) by (nonlinear_arith)
                            requires
                                vs > (u64::MAX - low) / 128,
                                low < 128,
                                vs == v,
                        ;
                    }
                    Err(Error::Oversize)
                } else {
                    proof {
                        assert(low + 128 * v <= u64::MAX) by (nonlinear_arith)
                            requires
                                v <= (u64::MAX - low) / 128,
                                low < 128,
                        ;
                    }
                    Ok((low + 128 * v, n + 1))
                }
            },
        }
    }
}

/// Reads the size prefix: returns the raw kind tag, the declared size, and
/// the number of bytes the prefix occupied.
fn read_size_prefix(s: &[u8]) -> (r: Result<(u8, u64, usize), Error>)
    ensures
        match size_prefix(s@) {
            None => r == Err::<(u8, u64, usize), Error>(Error::Truncated),
            Some((tag, sz, n)) => if sz <= u64::MAX {
                r == Ok::<(u8, u64, usize), Error>(((tag as u8, sz as u64, n as usize))) && 1 <= n
                    <= s@.len()
            } else {
                r == Err::<(u8, u64, usize), Error>(Error::Oversize)
            },
        },
{
    let slen: usize = s.len();
    if slen == 0 {
        return Err(Error::Truncated);
    }
    let b0 = s[0];
    let tag: u8 = (b0 / 16) % 8;
    let low: u64 = (b0 % 16) as u64;
    if b0 < 128 {
        Ok((tag, low, 1))
    } else {
        match read_le7(s, 1) {
            Err(e) => Err(e),
            Ok((v, n)) => {
                if v > (u64::MAX - low) / 16 {
                    proof {
                        let (vs, _) = le7(s@.skip(1)).unwrap();
                        assert(low + 16 * vs > u64::MAX) by (nonlinear_arith)
                            requires
                                vs > (u64::MAX - low) / 16,
                                low < 16,
                                vs == v,
                        ;
                    }
                    Err(Error::Oversize)
                } else {
                    proof {
                        assert(low + 16 * v <= u64::MAX) by (nonlinear_arith)
                            requires
                                v <= (u64::MAX - low) / 16,
                                low < 16,
                        ;
                    }
                    Ok((tag, low + 16 * v, n + 1))
                }
            },
        }
    }
}

/// Every intermediate accumulator only ever grows, so a distance that
/// overflows part-way through a run can never fit in the end.
proof fn lemma_ofs_rest_ge(s: Seq<u8>, acc: nat)
    ensures
        match ofs_rest(s, acc) {
            None => true,
            Some((v, n)) => v >= (acc + 1) * 128,
        },
    decreases s.len(),
{
    if s.len() == 0 {
    } else {
        let d = (acc + 1) * 128 + (s[0] as nat) % 128;
        if s[0] < 128 {
        } else {
            lemma_ofs_rest_ge(s.skip(1), d);
            assert((d + 1) * 128 >= d) by (nonlinear_arith);
        }
    }
}

/// Reads the continuation of an offset-delta distance, `acc` holding what
/// the bytes before `s[i]` contributed.
fn read_ofs_rest(s: &[u8], i: usize, acc: u64) -> (r: Result<(u64, usize), Error>)
    requires
        i <= s@.len(),
    ensures
        match ofs_rest(s@.skip(i as int), acc as nat) {
            None => r == Err::<(u64, usize), Error>(Error::Truncated) || r == Err::<
                (u64, usize),
                Error,
            >(Error::Oversize),
            Some((v, n)) => if v <= u64::MAX {
                r == Ok::<(u64, usize), Error>(((v as u64, n as usize))) && 1 <= n <= s@.len() - i
            } else {
                r == Err::<(u64, usize), Error>(Error::Oversize)
            },
        },
    decreases s@.len() - i,
{
    let slen: usize = s.len();
    if i == slen {
        return Err(Error::Truncated);
    }
    let b = s[i];
    proof {
        assert(s@.skip(i as int)[0] == s@[i as int]);
        assert(s@.skip(i as int).skip(1) =~= s@.skip(i as int + 1));
    }
    let low: u64 = (b % 128) as u64;
    if acc > (u64::MAX - low) / 128 - 1 {
        proof {
            let ghost d = ((acc + 1) * 128 + low) as nat;
            assert(d > u64::MAX) by (nonlinear_arith)
                requires
                    acc > (u64::MAX - low) / 128 - 1,
                    low < 128,
                    d == (acc + 1) * 128 + low,
            ;
            lemma_ofs_rest_ge(s@.skip(i as int).skip(1), d);
            assert((d + 1) * 128 >= d) by (nonlinear_arith);
        }
        return Err(Error::Oversize);
    }
    proof {
        assert((acc + 1) * 128 + low <= u64::MAX) by (nonlinear_arith)
            requires
                acc <= (u64::MAX - low) / 128 - 1,
                low < 128,
        ;
    }
    let d: u64 = (acc + 1) * 128 + low;
    if b < 128 {
        Ok((d, 1))
    } else {
        match read_ofs_rest(s, i + 1, d) {
            Err(e) => Err(e),
            Ok((v, n)) => Ok((v, n + 1)),
        }
    }
}

/// Reads a whole offset-delta distance run starting at `s[i]`.
fn read_ofs(s: &[u8], i: usize) -> (r: Result<(u64, usize), Error>)
    requires
        i <= s@.len(),
    ensures
        match ofs(s@.skip(i as int)) {
            None => r == Err::<(u64, usize), Error>(Error::Truncated) || r == Err::<
                (u64, usize),
                Error,
            >(Error::Oversize),
            Some((v, n)) => if v <= u64::MAX {
                r == Ok::<(u64, usize), Error>(((v as u64, n as usize))) && 1 <= n <= s@.len() - i
            } else {
                r == Err::<(u64, usize), Error>(Error::Oversize)
            },
        },
{
    let slen: usize = s.len();
    if i == slen {
        return Err(Error::Truncated);
    }
    let b = s[i];
    proof {
        assert(s@.skip(i as int)[0] == s@[i as int]);
        assert(s@.skip(i as int).skip(1) =~= s@.skip(i as int + 1));
    }
    if b < 128 {
        Ok((b as u64, 1))
    } else {
        match read_ofs_rest(s, i + 1, (b - 128) as u64) {
            Err(e) => Err(e),
            Ok((v, n)) => Ok((v, n + 1)),
        }
    }
}

/// The encoding of a value as a little-endian base-128 run.
pub open spec fn le7_enc(v: nat) -> Seq<u8>
    decreases v,
{
    if v < 128 {
        seq![v as u8]
    } else {
        seq![((v % 128) + 128) as u8] + le7_enc(v / 128)
    }
}

/// The encoding of a kind tag and declared size as a size prefix.
pub open spec fn size_prefix_enc(tag: nat, size: nat) -> Seq<u8>
    recommends
        1 <= tag <= 7,
{
    if size < 16 {
        seq![((tag * 16) + size) as u8]
    } else {
        seq![((tag * 16) + (size % 16) + 128) as u8] + le7_enc(size / 16)
    }
}

/// The continuation bytes that encode `p` inside an offset-delta distance:
/// every byte carries the continuation bit.
pub open spec fn ofs_cont_enc(p: nat) -> Seq<u8>
    decreases p,
{
    if p < 128 {
        seq![(p + 128) as u8]
    } else {
        ofs_cont_enc(((p / 128) - 1) as nat) + seq![((p % 128) + 128) as u8]
    }
}

/// The encoding of a whole offset-delta distance.
pub open spec fn ofs_enc(d: nat) -> Seq<u8> {
    if d < 128 {
        seq![d as u8]
    } else {
        ofs_cont_enc(((d / 128) - 1) as nat) + seq![(d % 128) as u8]
    }
}

/// The full encoding of a header with its declared size.
pub open spec fn header_enc(h: Header, size: u64) -> Seq<u8> {
    match h {
        Header::OffsetDelta { base_distance } => size_prefix_enc(6, size as nat) + ofs_enc(
            base_distance as nat,
        ),
        Header::RefDelta { base_id } => size_prefix_enc(7, size as nat) + base_id@,
        _ => size_prefix_enc(h.tag(), size as nat),
    }
}

proof fn lemma_le7_enc(v: nat, rest: Seq<u8>)
    ensures
        le7(le7_enc(v) + rest) == Some((v, le7_enc(v).len() as int)),
        le7_enc(v).len() >= 1,
    decreases v,
{
    if v < 128 {
        assert((le7_enc(v) + rest)[0] == v as u8);
    } else {
        lemma_le7_enc(v / 128, rest);
        assert((le7_enc(v) + rest).skip(1) =~= le7_enc(v / 128) + rest);
        assert((le7_enc(v) + rest)[0] == ((v % 128) + 128) as u8);
        vstd::arithmetic::div_mod::lemma_fundamental_div_mod(v as int, 128);
    }
}

proof fn lemma_size_prefix_enc(tag: nat, size: nat, rest: Seq<u8>)
    requires
        1 <= tag <= 7,
    ensures
        size_prefix(size_prefix_enc(tag, size) + rest) == Some(
            ((tag, size, size_prefix_enc(tag, size).len() as int)),
        ),
        size_prefix_enc(tag, size).len() >= 1,
{
    if size < 16 {
        let b0 = ((tag * 16) + size) as u8;
        assert((size_prefix_enc(tag, size) + rest)[0] == b0);
        assert(((b0 as nat) / 16) % 8 == tag && (b0 as nat) % 16 == size && b0 < 128)
            by (nonlinear_arith)
            requires
                1 <= tag <= 7,
                size < 16,
                b0 == (tag * 16) + size,
        ;
    } else {
        let b0 = ((tag * 16) + (size % 16) + 128) as u8;
        assert((size_prefix_enc(tag, size) + rest)[0] == b0);
        lemma_le7_enc(size / 16, rest);
        assert((size_prefix_enc(tag, size) + rest).skip(1) =~= le7_enc(size / 16) + rest);
        assert(((b0 as nat) / 16) % 8 == tag && (b0 as nat) % 16 == size % 16 && b0 >= 128)
            by (nonlinear_arith)
            requires
                1 <= tag <= 7,
                b0 == (tag * 16) + (size % 16) + 128,
                size % 16 < 16,
        ;
        assert((size % 16) + 16 * (size / 16) == size) by {
            vstd::arithmetic::div_mod::lemma_fundamental_div_mod(size as int, 16);
        }
        assert(size % 16 < 16) by {
            vstd::arithmetic::div_mod::lemma_mod_bound(size as int, 16);
        }
    }
}

proof fn lemma_ofs_cont_enc(p: nat, rest: Seq<u8>)
    ensures
        ofs(ofs_cont_enc(p) + rest) == (match ofs_rest(rest, p) {
            None => None::<(nat, int)>,
            Some((v, n)) => Some((v, n + ofs_cont_enc(p).len() as int)),
        }),
        ofs_cont_enc(p).len() >= 1,
    decreases p,
{
    if p < 128 {
        assert((ofs_cont_enc(p) + rest)[0] == (p + 128) as u8);
        assert((ofs_cont_enc(p) + rest).skip(1) =~= rest);
    } else {
        let pp = ((p / 128) - 1) as nat;
        let x = ((p % 128) + 128) as u8;
        lemma_ofs_cont_enc(pp, seq![x] + rest);
        assert(ofs_cont_enc(p) + rest =~= ofs_cont_enc(pp) + (seq![x] + rest));
        assert((seq![x] + rest)[0] == x);
        assert((seq![x] + rest).skip(1) =~= rest);
        assert((pp + 1) * 128 + (x as nat) % 128 == p) by {
            vstd::arithmetic::div_mod::lemma_fundamental_div_mod(p as int, 128);
            assert((x as nat) % 128 == p % 128) by (nonlinear_arith)
                requires
                    x == (p % 128) + 128,
                    p % 128 < 128,
            ;
        }
        assert(p % 128 < 128) by {
            vstd::arithmetic::div_mod::lemma_mod_bound(p as int, 128);
        }
    }
}

/// Law: encoding any well-formed entry header together with a declared
/// size, then decoding the bytes, reproduces the original kind, declared
/// size and delta payload exactly, consuming exactly the encoded bytes.
pub proof fn lemma_header_round_trip(h: Header, size: u64)
    requires
        h.wf(),
    ensures
        header_matches(header_enc(h, size), h, size, header_enc(h, size).len() as int),
        header_ok(header_enc(h, size)),
{
    let enc = header_enc(h, size);
    match h {
        Header::OffsetDelta { base_distance } => {
            let d = base_distance as nat;
            lemma_size_prefix_enc(6, size as nat, ofs_enc(d));
            let n1 = size_prefix_enc(6, size as nat).len() as int;
            assert(enc.skip(n1) =~= ofs_enc(d));
            if d < 128 {
                assert(ofs_enc(d)[0] == d as u8);
            } else {
                let pp = ((d / 128) - 1) as nat;
                let low = (d % 128) as u8;
                lemma_ofs_cont_enc(pp, seq![low]);
                assert(ofs_enc(d) =~= ofs_cont_enc(pp) + seq![low]);
                assert((seq![low]).len() == 1);
                assert(low < 128) by {
                    vstd::arithmetic::div_mod::lemma_mod_bound(d as int, 128);
                }
                assert(ofs_rest(seq![low], pp) == Some((((pp + 1) * 128 + (low as nat) % 128), 1int)));
                assert((pp + 1) * 128 + (low as nat) % 128 == d) by {
                    vstd::arithmetic::div_mod::lemma_fundamental_div_mod(d as int, 128);
                }
            }
        },
        Header::RefDelta { base_id } => {
            lemma_size_prefix_enc(7, size as nat, base_id@);
            let n1 = size_prefix_enc(7, size as nat).len() as int;
            assert(enc.subrange(n1, n1 + 20) =~= base_id@);
        },
        _ => {
            lemma_size_prefix_enc(h.tag(), size as nat, Seq::<u8>::empty());
            assert(enc =~= size_prefix_enc(h.tag(), size as nat) + Seq::<u8>::empty());
        },
    }
}

/// Encodes `v` as a little-endian base-128 run.
fn encode_le7(v: u64) -> (r: Vec<u8>)
    ensures
        r@ == le7_enc(v as nat),
    decreases v,
{
    if v < 128 {
        let mut r: Vec<u8> = Vec::new();
        r.push(v as u8);
        r
    } else {
        let mut r: Vec<u8> = Vec::new();
        r.push(((v % 128) + 128) as u8);
        let mut rest = encode_le7(v / 128);
        r.append(&mut rest);
        proof {
            assert(r@ =~= le7_enc(v as nat));
        }
        r
    }
}

/// Encodes the continuation part of an offset-delta distance.
fn encode_ofs_cont(p: u64) -> (r: Vec<u8>)
    ensures
        r@ == ofs_cont_enc(p as nat),
    decreases p,
{
    if p < 128 {
        let mut r: Vec<u8> = Vec::new();
        r.push((p + 128) as u8);
        r
    } else {
        let mut r = encode_ofs_cont(p / 128 - 1);
        r.push(((p % 128) + 128) as u8);
        proof {
            assert(r@ =~= ofs_cont_enc(p as nat));
        }
        r
    }
}

/// Encodes a whole offset-delta distance.
fn encode_ofs(d: u64) -> (r: Vec<u8>)
    ensures
        r@ == ofs_enc(d as nat),
{
    if d < 128 {
        let mut r: Vec<u8> = Vec::new();
        r.push(d as u8);
        r
    } else {
        let mut r = encode_ofs_cont(d / 128 - 1);
        r.push((d % 128) as u8);
        proof {
            assert(r@ =~= ofs_enc(d as nat));
        }
        r
    }
}

impl Header {
    /// Decodes one entry header from the front of `src` and consumes exactly
    /// the bytes it occupied. Returns the header, its declared decompressed
    /// size, and that byte count. Fails, consuming nothing, when the run of
    /// bytes ends too early (`Truncated`), a value does not fit in 64 bits
    /// (`Oversize`), or the kind tag is one of the two unassigned values
    /// (`BadKind`).
    pub fn from_read(src: &mut ByteSource) -> (r: Result<(Header, u64, usize), Error>)
        requires
            old(src).wf(),
        ensures
            final(src).wf(),
            final(src).data@ == old(src).data@,
            match r {
                Ok((h, size, used)) => {
                    &&& header_matches(old(src).remaining(), h, size, used as int)
                    &&& h.wf()
                    &&& used <= old(src).remaining().len()
                    &&& final(src).pos == old(src).pos + used
                },
                Err(e) => {
                    &&& final(src).pos == old(src).pos
                    &&& !header_ok(old(src).remaining())
                    &&& (e matches Error::BadKind(t) ==> size_prefix(old(src).remaining())
                        matches Some((tag, sz, _)) && tag == t && (t == 0 || t == 5) && sz
                        <= u64::MAX)
                },
            },
            r is Ok <==> header_ok(old(src).remaining()),
    {
        let rem = src.fill_buf();
        let rem_len: usize = rem.len();
        let (tag, size, n1) = match read_size_prefix(rem) {
            Err(e) => { return Err(e); },
            Ok(t) => t,
        };
        let (h, used) = if tag >= 1 && tag <= 4 {
            let h = if tag == 1 {
                Header::Commit
            } else if tag == 2 {
                Header::Tree
            } else if tag == 3 {
                Header::Blob
            } else {
                Header::Tag
            };
            (h, n1)
        } else if tag == 6 {
            match read_ofs(rem, n1) {
                Err(e) => { return Err(e); },
                Ok((d, n2)) => (Header::OffsetDelta { base_distance: d }, n1 + n2),
            }
        } else if tag == 7 {
            if rem_len - n1 < 20 {
                return Err(Error::Truncated);
            }
            let id = slice_to_vec(slice_subrange(rem, n1, n1 + 20));
            proof {
                assert(old(src).remaining().subrange(n1 as int, n1 + 20) =~= rem@.subrange(
                    n1 as int,
                    n1 + 20,
                ));
            }
            (Header::RefDelta { base_id: id }, n1 + 20)
        } else {
            return Err(Error::BadKind(tag));
        };
        src.consume(used);
        Ok((h, size, used))
    }

    /// Encodes this header with declared decompressed size `size`, the
    /// exact inverse of `from_read` on well-formed headers.
    pub fn write_to(&self, size: u64) -> (r: Vec<u8>)
        ensures
            r@ == header_enc(*self, size),
    {
        let tag: u8 = match self {
            Header::Commit => 1,
            Header::Tree => 2,
            Header::Blob => 3,
            Header::Tag => 4,
            Header::OffsetDelta { .. } => 6,
            Header::RefDelta { .. } => 7,
        };
        let mut r: Vec<u8> = Vec::new();
        if size < 16 {
            r.push(tag * 16 + size as u8);
        } else {
            r.push(tag * 16 + (size % 16) as u8 + 128);
            let mut rest = encode_le7(size / 16);
            r.append(&mut rest);
        }
        match self {
            Header::OffsetDelta { base_distance } => {
                let mut t = encode_ofs(*base_distance);
                r.append(&mut t);
            },
            Header::RefDelta { base_id } => {
                let mut t = slice_to_vec(base_id.as_slice());
                r.append(&mut t);
            },
            _ => {},
        }
        proof {
            assert(r@ =~= header_enc(*self, size));
        }
        r
    }
}

} // verus!
