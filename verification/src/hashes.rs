//! Digests and hex: the two hash primitives the wallet relies on, and
//! verified hex encoding of digests.
//!
//! The digests themselves come from outside crates; their outputs are named
//! by uninterpreted functions, so every contract downstream is an exact
//! function of the input bytes.

use vstd::prelude::*;
use sha2::Digest;

verus! {

/// The SHA-256 digest of a byte sequence.
pub uninterp spec fn sha256_of(data: Seq<u8>) -> Seq<u8>;

/// The RIPEMD-160 digest of a byte sequence.
pub uninterp spec fn ripemd160_of(data: Seq<u8>) -> Seq<u8>;

/// Relies on sha2's `Sha256` (`Digest::digest`): a 32-byte digest that is a
/// function of the input bytes alone.
#[verifier::external_body]
pub(crate) fn sha256(data: &[u8]) -> (r: Vec<u8>)
    ensures
        r@ == sha256_of(data@),
        r@.len() == 32,
{
    sha2::Sha256::digest(data).to_vec()
}

/// Relies on ripemd's `Ripemd160` (`Digest::digest`): a 20-byte digest that
/// is a function of the input bytes alone.
#[verifier::external_body]
pub(crate) fn ripemd160(data: &[u8]) -> (r: Vec<u8>)
    ensures
        r@ == ripemd160_of(data@),
        r@.len() == 20,
{
    ripemd::Ripemd160::digest(data).to_vec()
}

/// The double SHA-256 digest used for signature hashes and transaction ids.
pub open spec fn sha256d_of(data: Seq<u8>) -> Seq<u8> {
    sha256_of(sha256_of(data))
}

/// Computes the double SHA-256 digest.
pub fn sha256d(data: &[u8]) -> (r: Vec<u8>)
    ensures
        r@ == sha256d_of(data@),
        r@.len() == 32,
{
    let first = sha256(data);
    sha256(first.as_slice())
}

/// Relies on `String::from_utf8`: bytes below 128 decode one-to-one to the
/// characters with the same code points.
#[verifier::external_body]
fn ascii_to_string(bytes: Vec<u8>) -> (r: String)
    requires
        forall|i: int| 0 <= i < bytes@.len() ==> bytes@[i] < 128,
    ensures
        r@ == bytes@.map_values(|b: u8| b as char),
{
    String::from_utf8(bytes).unwrap_or_default()
}

/// ASCII code of one lower-case hex digit.
pub open spec fn spec_hex_digit(n: u8) -> u8
    recommends
        n < 16,
{
    if n < 10 {
        (48 + n) as u8
    } else {
        (87 + n) as u8
    }
}

/// ASCII lower-case hex encoding of a byte sequence, two digits per byte.
pub open spec fn spec_hex_bytes(s: Seq<u8>) -> Seq<u8>
    decreases s.len(),
{
    if s.len() == 0 {
        Seq::<u8>::empty()
    } else {
        seq![spec_hex_digit(s[0] / 16), spec_hex_digit((s[0] % 16) as u8)] + spec_hex_bytes(
            s.drop_first(),
        )
    }
}

/// The hex encoding of a byte sequence, as characters.
pub open spec fn spec_hex_chars(s: Seq<u8>) -> Seq<char> {
    spec_hex_bytes(s).map_values(|b: u8| b as char)
}

proof fn lemma_hex_bytes_push(s: Seq<u8>, x: u8)
    ensures
        spec_hex_bytes(s.push(x)) == spec_hex_bytes(s) + seq![
            spec_hex_digit(x / 16),
            spec_hex_digit((x % 16) as u8),
        ],
    decreases s.len(),
{
    let pair = seq![spec_hex_digit(x / 16), spec_hex_digit((x % 16) as u8)];
    if s.len() == 0 {
        assert(s.push(x)[0] == x);
        assert(s.push(x).drop_first() =~= Seq::<u8>::empty());
        assert(spec_hex_bytes(Seq::<u8>::empty()) =~= Seq::<u8>::empty());
        assert(spec_hex_bytes(s.push(x)) =~= pair);
        assert(spec_hex_bytes(s) + pair =~= pair);
    } else {
        assert(s.push(x).drop_first() =~= s.drop_first().push(x));
        lemma_hex_bytes_push(s.drop_first(), x);
        assert(s.push(x)[0] == s[0]);
        let head = seq![spec_hex_digit(s[0] / 16), spec_hex_digit((s[0] % 16) as u8)];
        assert(spec_hex_bytes(s.push(x)) == head + spec_hex_bytes(s.drop_first().push(x)));
        assert(spec_hex_bytes(s) + pair =~= head + (spec_hex_bytes(s.drop_first()) + pair));
    }
}

/// Every byte of a hex encoding is an ASCII code below 128.
proof fn lemma_hex_bytes_ascii(s: Seq<u8>)
    ensures
        forall|i: int| 0 <= i < spec_hex_bytes(s).len() ==> spec_hex_bytes(s)[i] < 128,
        spec_hex_bytes(s).len() == 2 * s.len(),
    decreases s.len(),
{
    if s.len() != 0 {
        lemma_hex_bytes_ascii(s.drop_first());
    }
}

/// Hex-encodes `data`, two lower-case digits per byte.
#[verifier::loop_isolation(false)]
pub fn to_hex(data: &[u8]) -> (r: String)
    ensures
        r@ == spec_hex_chars(data@),
{
    let mut out: Vec<u8> = Vec::new();
    let mut i: usize = 0;
    while i < data.len()
        invariant
            i <= data.len(),
            out@ == spec_hex_bytes(data@.take(i as int)),
        decreases data.len() - i,
    {
        let b = *vstd::slice::slice_index_get(data, i);
        out.push(hex_digit(b / 16));
        out.push(hex_digit(b % 16));
        proof {
            assert(data@.take(i + 1) =~= data@.take(i as int).push(data@[i as int]));
            lemma_hex_bytes_push(data@.take(i as int), data@[i as int]);
            assert(out@ =~= spec_hex_bytes(data@.take(i + 1)));
        }
        i = i + 1;
    }
    proof {
        assert(data@.take(data@.len() as int) =~= data@);
        lemma_hex_bytes_ascii(data@);
    }
    ascii_to_string(out)
}

/// One lower-case hex digit for a value below 16.
fn hex_digit(n: u8) -> (r: u8)
    requires
        n < 16,
    ensures
        r == spec_hex_digit(n),
{
    if n < 10 {
        48 + n
    } else {
        87 + n
    }
}

/// Reverses a byte vector.
#[verifier::loop_isolation(false)]
pub fn reversed(data: &[u8]) -> (r: Vec<u8>)
    ensures
        r@ == data@.reverse(),
{
    let mut out: Vec<u8> = Vec::new();
    let mut i: usize = data.len();
    while i > 0
        invariant
            i <= data.len(),
            out@.len() == data@.len() - i,
            forall|j: int| 0 <= j < out@.len() ==> out@[j] == data@[data@.len() - 1 - j],
        decreases i,
    {
        i = i - 1;
        out.push(*vstd::slice::slice_index_get(data, i));
    }
    proof {
        assert(out@ =~= data@.reverse());
    }
    out
}

} // verus!
