//! The SCALE encoding of byte strings, as the codec crate writes it: a
//! compact length prefix, then the bytes.
use parity_codec::Encode;
use vstd::prelude::*;
use vstd::string::StringSliceAdditionalSpecFns;

verus! {

/// The `count` lowest bytes of `v`, least significant first.
pub open spec fn le_bytes(v: nat, count: nat) -> Seq<u8>
    decreases count,
{
    if count == 0 {
        Seq::empty()
    } else {
        seq![(v % 256) as u8] + le_bytes(v / 256, (count - 1) as nat)
    }
}

/// The compact encoding of a length `n` that fits a `u32`: one byte below
/// 2^6, two below 2^14, four below 2^30, and otherwise the marker byte 3
/// followed by the four bytes of `n`; the two low bits of the first byte
/// tell the form.
pub open spec fn compact_len(n: nat) -> Seq<u8> {
    if n < 0x40 {
        le_bytes(n * 4, 1)
    } else if n < 0x4000 {
        le_bytes(n * 4 + 1, 2)
    } else if n < 0x4000_0000 {
        le_bytes(n * 4 + 2, 4)
    } else {
        seq![3u8] + le_bytes(n, 4)
    }
}

/// The encoding of the byte string `bytes`.
pub open spec fn encoded_bytes(bytes: Seq<u8>) -> Seq<u8> {
    compact_len(bytes.len()) + bytes
}

/// Calls `Encode::encode` of the codec crate on a string slice. The codec
/// writes the compact encoding of the length of the string's UTF-8 bytes,
/// then those bytes; it panics on a string of more than `u32::MAX` bytes,
/// which `requires` leaves out.
#[verifier::external_body]
pub(crate) fn encode_str(s: &str) -> (r: Vec<u8>)
    requires
        s.spec_bytes().len() <= u32::MAX,
    ensures
        r@ == encoded_bytes(s.spec_bytes()),
{
    s.encode()
}

/// The encoding of an optional `u64`: the byte 0 for none, otherwise the
/// byte 1 followed by the eight bytes of the value.
pub open spec fn option_u64_encoding(o: Option<u64>) -> Seq<u8> {
    match o {
        None => seq![0u8],
        Some(v) => seq![1u8] + le_bytes(v as nat, 8),
    }
}

/// The encodings of the pairs of byte strings in `ps`, one after another:
/// each pair is its first string's encoding followed by its second's.
pub open spec fn pairs_encoding(ps: Seq<(Vec<u8>, Vec<u8>)>) -> Seq<u8>
    decreases ps.len(),
{
    if ps.len() == 0 {
        Seq::empty()
    } else {
        pairs_encoding(ps.drop_last()) + encoded_bytes(ps.last().0@) + encoded_bytes(
            ps.last().1@,
        )
    }
}

/// The encoding of a list of pairs of byte strings: the compact encoding of
/// its length, then its pairs.
pub open spec fn pair_list_encoding(ps: Seq<(Vec<u8>, Vec<u8>)>) -> Seq<u8> {
    compact_len(ps.len()) + pairs_encoding(ps)
}

/// The list and each of its strings are short enough for the codec, which
/// takes lengths as `u32`.
pub open spec fn pair_list_fits(ps: Seq<(Vec<u8>, Vec<u8>)>) -> bool {
    &&& ps.len() <= u32::MAX
    &&& forall|i: int|
        0 <= i < ps.len() ==> #[trigger] ps[i].0@.len() <= u32::MAX && ps[i].1@.len()
            <= u32::MAX
}

/// Calls `Encode::encode` of the codec crate on a `u64`, which writes its
/// eight bytes, least significant first.
#[verifier::external_body]
pub(crate) fn encode_u64(x: u64) -> (r: Vec<u8>)
    ensures
        r@ == le_bytes(x as nat, 8),
{
    x.encode()
}

/// Calls `Encode::encode` of the codec crate on a `u32`, which writes its
/// four bytes, least significant first.
#[verifier::external_body]
pub(crate) fn encode_u32(x: u32) -> (r: Vec<u8>)
    ensures
        r@ == le_bytes(x as nat, 4),
{
    x.encode()
}

/// Calls `Encode::encode` of the codec crate on a 32-byte array, which
/// writes its bytes as they are, with no length.
#[verifier::external_body]
pub(crate) fn encode_bytes32(k: &[u8; 32]) -> (r: Vec<u8>)
    ensures
        r@ == k@,
{
    k.encode()
}

/// Calls `Encode::encode` of the codec crate on an `Option<u64>`: the byte
/// 0 for none, otherwise the byte 1 and the value's encoding.
#[verifier::external_body]
pub(crate) fn encode_option_u64(o: &Option<u64>) -> (r: Vec<u8>)
    ensures
        r@ == option_u64_encoding(*o),
{
    o.encode()
}

/// Calls `Encode::encode` of the codec crate on a list of pairs of byte
/// strings: the compact encoding of the list's length, then each pair as
/// its two strings' encodings. The codec panics on a list or a string
/// longer than `u32::MAX`, which `requires` leaves out.
#[verifier::external_body]
pub(crate) fn encode_pair_list(ps: &Vec<(Vec<u8>, Vec<u8>)>) -> (r: Vec<u8>)
    requires
        pair_list_fits(ps@),
    ensures
        r@ == pair_list_encoding(ps@),
{
    ps.encode()
}

} // verus!
