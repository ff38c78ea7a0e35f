//! Single-signature addresses: deriving the pay-to-pubkey-hash address of
//! a public key, and turning an address back into its locking script.

use vstd::prelude::*;
use crate::types::Network;
use crate::hashes::{sha256, sha256_of, ripemd160, ripemd160_of};
use crate::codec::write_bytes;

verus! {

/// The base58 (Bitcoin alphabet) encoding of a byte sequence.
pub uninterp spec fn base58_of(data: Seq<u8>) -> Seq<char>;

/// The base58 (Bitcoin alphabet) decoding of a string, when it decodes.
pub uninterp spec fn base58_decode_of(s: Seq<char>) -> Option<Seq<u8>>;

/// Relies on bs58's `encode` with the default (Bitcoin) alphabet: the
/// encoding is a function of the input bytes alone.
#[verifier::external_body]
fn base58_encode(data: &[u8]) -> (r: String)
    ensures
        r@ == base58_of(data@),
{
    bs58::encode(data).into_string()
}

/// Relies on bs58's `decode` with the default (Bitcoin) alphabet: the
/// decoding is a function of the input string alone, and fails exactly on
/// strings outside the alphabet.
#[verifier::external_body]
fn base58_decode(s: &str) -> (r: Option<Vec<u8>>)
    ensures
        r is Some <==> base58_decode_of(s@) is Some,
        r is Some ==> r.unwrap()@ == base58_decode_of(s@).unwrap(),
{
    bs58::decode(s).into_vec().ok()
}

/// The version byte an address carries for each network.
pub open spec fn spec_version_byte(network: Network) -> u8 {
    match network {
        Network::Mainnet => 0x00,
        Network::Testnet => 0x6f,
        Network::Regtest => 0x6f,
    }
}

/// The version byte an address carries for each network.
pub fn version_byte(network: Network) -> (r: u8)
    ensures
        r == spec_version_byte(network),
{
    match network {
        Network::Mainnet => 0x00,
        Network::Testnet => 0x6f,
        Network::Regtest => 0x6f,
    }
}

/// The 20-byte public key hash: RIPEMD-160 of SHA-256.
pub open spec fn spec_pubkey_hash(pubkey: Seq<u8>) -> Seq<u8> {
    ripemd160_of(sha256_of(pubkey))
}

/// The base58check payload of an address: version byte, key hash, and the
/// first four bytes of the double SHA-256 of the two as checksum.
pub open spec fn spec_address_payload(version: u8, hash: Seq<u8>) -> Seq<u8> {
    let body = seq![version] + hash;
    body + sha256_of(sha256_of(body)).take(4)
}

/// The pay-to-pubkey-hash address of a public key on a network.
pub open spec fn spec_address(network: Network, pubkey: Seq<u8>) -> Seq<char> {
    base58_of(spec_address_payload(spec_version_byte(network), spec_pubkey_hash(pubkey)))
}

/// Base58check-encodes a version byte and body.
fn base58check(version: u8, hash: &Vec<u8>) -> (r: String)
    ensures
        r@ == base58_of(spec_address_payload(version, hash@)),
{
    let mut body: Vec<u8> = Vec::new();
    body.push(version);
    write_bytes(&mut body, hash);
    let first = sha256(body.as_slice());
    let digest = sha256(first.as_slice());
    let mut payload = body;
    let mut i: usize = 0;
    while i < 4
        invariant
            i <= 4,
            digest@.len() == 32,
            payload@ == (seq![version] + hash@) + digest@.take(i as int),
        decreases 4 - i,
    {
        payload.push(digest[i]);
        proof {
            assert(digest@.take(i + 1) =~= digest@.take(i as int).push(digest@[i as int]));
            assert(payload@ =~= (seq![version] + hash@) + digest@.take(i + 1));
        }
        i = i + 1;
    }
    proof {
        assert(seq![version] + hash@ =~= payload@.take(payload@.len() - 4));
        assert(payload@ =~= spec_address_payload(version, hash@));
    }
    base58_encode(payload.as_slice())
}

/// Derives the pay-to-pubkey-hash address of a public key.  Deterministic:
/// the same network and key always give the same string.
pub fn p2pkh_address(network: Network, pubkey: &Vec<u8>) -> (r: String)
    ensures
        r@ == spec_address(network, pubkey@),
{
    let sha = sha256(pubkey.as_slice());
    let hash = ripemd160(sha.as_slice());
    base58check(version_byte(network), &hash)
}

/// Address derivation is deterministic: two derivations from the same
/// network and public key are the same string, on every call and after
/// every restart.
pub proof fn lemma_address_deterministic(
    network: Network,
    pubkey: Seq<u8>,
    a1: Seq<char>,
    a2: Seq<char>,
)
    requires
        a1 == spec_address(network, pubkey),
        a2 == spec_address(network, pubkey),
    ensures
        a1 == a2,
{
}

/// The pay-to-pubkey-hash locking script over a 20-byte key hash:
/// OP_DUP OP_HASH160, the pushed hash, OP_EQUALVERIFY OP_CHECKSIG.
pub open spec fn spec_p2pkh_script(hash: Seq<u8>) -> Seq<u8> {
    seq![0x76u8, 0xa9u8, 0x14u8] + hash + seq![0x88u8, 0xacu8]
}

/// Builds the locking script for a 20-byte public key hash.
pub fn p2pkh_script_for_hash(hash: &Vec<u8>) -> (r: Vec<u8>)
    requires
        hash@.len() == 20,
    ensures
        r@ == spec_p2pkh_script(hash@),
{
    let mut out: Vec<u8> = Vec::new();
    out.push(0x76);
    out.push(0xa9);
    out.push(0x14);
    write_bytes(&mut out, hash);
    out.push(0x88);
    out.push(0xac);
    proof {
        assert(out@ =~= spec_p2pkh_script(hash@));
    }
    out
}

/// Builds the locking script that pays to a public key.
pub fn p2pkh_script_for_pubkey(pubkey: &Vec<u8>) -> (r: Vec<u8>)
    ensures
        r@ == spec_p2pkh_script(spec_pubkey_hash(pubkey@)),
{
    let sha = sha256(pubkey.as_slice());
    let hash = ripemd160(sha.as_slice());
    p2pkh_script_for_hash(&hash)
}

/// A decoded address payload that passes all checks: 25 bytes whose last
/// four are the checksum of the first 21.
pub open spec fn spec_payload_ok(p: Seq<u8>) -> bool {
    &&& p.len() == 25
    &&& p.skip(21) == sha256_of(sha256_of(p.take(21))).take(4)
}

/// Decodes a pay-to-pubkey-hash address into the locking script of its
/// key hash.  Returns `None` exactly when the string does not decode or
/// its payload or checksum is malformed.
#[verifier::loop_isolation(false)]
pub fn address_to_script(address: &str) -> (r: Option<Vec<u8>>)
    ensures
        r is Some <==> (base58_decode_of(address@) is Some && spec_payload_ok(
            base58_decode_of(address@).unwrap(),
        )),
        r is Some ==> r.unwrap()@ == spec_p2pkh_script(
            base58_decode_of(address@).unwrap().subrange(1, 21),
        ),
{
    let payload = match base58_decode(address) {
        Some(p) => p,
        None => {
            return None;
        },
    };
    if payload.len() != 25 {
        return None;
    }
    let body = vstd::slice::slice_to_vec(vstd::slice::slice_subrange(payload.as_slice(), 0, 21));
    let first = sha256(body.as_slice());
    let digest = sha256(first.as_slice());
    let mut i: usize = 0;
    while i < 4
        invariant
            i <= 4,
            digest@ == sha256_of(sha256_of(payload@.take(21))),
            digest@.len() == 32,
            forall|j: int| 0 <= j < i ==> payload@[21 + j] == digest@[j],
        decreases 4 - i,
    {
        if payload[21 + i] != digest[i] {
            proof {
                assert(payload@.skip(21)[i as int] != sha256_of(sha256_of(payload@.take(21))).take(
                    4,
                )[i as int]);
            }
            return None;
        }
        i = i + 1;
    }
    proof {
        assert(payload@.skip(21) =~= sha256_of(sha256_of(payload@.take(21))).take(4));
    }
    let hash = vstd::slice::slice_to_vec(
        vstd::slice::slice_subrange(payload.as_slice(), 1, 21),
    );
    Some(p2pkh_script_for_hash(&hash))
}

} // verus!
