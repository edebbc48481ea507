//! Parser for the fixed 12-byte pack preamble: magic bytes, version, entry count.

use vstd::prelude::*;

verus! {

/// Recognized pack data formats. Version 2 is the only one this decoder
/// accepts; every other version is rejected while parsing the preamble.
#[derive(Clone, Copy, Debug, PartialEq, Eq, Structural)]
pub enum Kind {
    V2,
}

/// A malformed fixed preamble: wrong magic bytes, or a version this
/// decoder does not support.
#[derive(Clone, Copy, Debug, PartialEq, Eq, Structural)]
pub enum FormatError {
    BadMagic,
    UnsupportedVersion(u32),
}

/// The four magic bytes `PACK` that open every pack data stream.
pub open spec fn magic() -> Seq<u8> {
    seq![0x50u8, 0x41u8, 0x43u8, 0x4bu8]
}

/// Big-endian 32-bit value of the four bytes of `s` starting at `i`.
pub open spec fn be32(s: Seq<u8>, i: int) -> u32
    recommends
        0 <= i,
        i + 4 <= s.len(),
{
    (s[i] * 0x100_0000 + s[i + 1] * 0x1_0000 + s[i + 2] * 0x100 + s[i + 3]) as u32
}

/// The four bytes that hold `v` in big-endian order.
pub open spec fn be32_enc(v: u32) -> Seq<u8> {
    seq![
        ((v as nat) / 0x100_0000) as u8,
        (((v as nat) / 0x1_0000) % 0x100) as u8,
        (((v as nat) / 0x100) % 0x100) as u8,
        ((v as nat) % 0x100) as u8,
    ]
}

/// A well-formed preamble: magic bytes, then version and entry count in
/// big-endian order.
pub open spec fn preamble_enc(version: u32, count: u32) -> Seq<u8> {
    magic() + be32_enc(version) + be32_enc(count)
}

proof fn lemma_be32_enc(v: u32, s: Seq<u8>, i: int)
    requires
        0 <= i,
        i + 4 <= s.len(),
        s.subrange(i, i + 4) == be32_enc(v),
    ensures
        be32(s, i) == v,
{
    assert(s[i] == be32_enc(v)[0] && s[i + 1] == be32_enc(v)[1] && s[i + 2] == be32_enc(v)[2]
        && s[i + 3] == be32_enc(v)[3]) by {
        assert(s.subrange(i, i + 4)[0] == s[i] && s.subrange(i, i + 4)[1] == s[i + 1]
            && s.subrange(i, i + 4)[2] == s[i + 2] && s.subrange(i, i + 4)[3] == s[i + 3]);
    }
    let n = v as nat;
    assert((n / 0x100_0000) * 0x100_0000 + ((n / 0x1_0000) % 0x100) * 0x1_0000 + ((n / 0x100)
        % 0x100) * 0x100 + n % 0x100 == n) by (nonlinear_arith)
        requires
            n < 0x1_0000_0000,
    ;
}

/// Law: parsing any preamble built from the supported version and an
/// arbitrary entry count yields exactly that count, with the supported
/// kind: the preamble codec round-trips.
pub proof fn lemma_preamble_round_trip(count: u32)
    ensures
        preamble_enc(2, count).len() == 12,
        preamble_enc(2, count).subrange(0, 4) == magic(),
        be32(preamble_enc(2, count), 4) == 2,
        be32(preamble_enc(2, count), 8) == count,
{
    let s = preamble_enc(2, count);
    assert(s.subrange(0, 4) =~= magic());
    assert(s.subrange(4, 8) =~= be32_enc(2));
    assert(s.subrange(8, 12) =~= be32_enc(count));
    lemma_be32_enc(2, s, 4);
    lemma_be32_enc(count, s, 8);
}

/// Parses the first 12 bytes of a pack stream into its kind and declared
/// entry count. Succeeds exactly on the magic bytes `PACK` followed by
/// big-endian version 2; any well-formed other version is refused, never
/// guessed at.
pub fn header(data: &[u8]) -> (r: Result<(Kind, u32), FormatError>)
    requires
        data@.len() == 12,
    ensures
        match r {
            Ok((kind, count)) => {
                &&& data@.subrange(0, 4) == magic()
                &&& be32(data@, 4) == 2
                &&& kind == Kind::V2
                &&& count == be32(data@, 8)
            },
            Err(FormatError::BadMagic) => data@.subrange(0, 4) != magic(),
            Err(FormatError::UnsupportedVersion(v)) => {
                &&& data@.subrange(0, 4) == magic()
                &&& v == be32(data@, 4)
                &&& v != 2
            },
        },
{
    if !(data[0] == 0x50 && data[1] == 0x41 && data[2] == 0x43 && data[3] == 0x4b) {
        proof {
            let s = data@.subrange(0, 4);
            if s == magic() {
                assert(data@[0] == 0x50u8 && data@[1] == 0x41u8 && data@[2] == 0x43u8
                    && data@[3] == 0x4bu8) by {
                    assert(s[0] == data@[0] && s[1] == data@[1] && s[2] == data@[2]
                        && s[3] == data@[3]);
                }
            }
        }
        return Err(FormatError::BadMagic);
    }
    proof {
        assert(data@.subrange(0, 4) =~= magic());
    }
    let version: u32 = (data[4] as u32) * 0x100_0000 + (data[5] as u32) * 0x1_0000
        + (data[6] as u32) * 0x100 + (data[7] as u32);
    if version != 2 {
        return Err(FormatError::UnsupportedVersion(version));
    }
    let count: u32 = (data[8] as u32) * 0x100_0000 + (data[9] as u32) * 0x1_0000
        + (data[10] as u32) * 0x100 + (data[11] as u32);
    Ok((Kind::V2, count))
}

} // verus!
