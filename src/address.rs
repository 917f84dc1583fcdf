//! Hashing and legacy pay-to-public-key-hash addresses.
use crate::script::{append_range, is_p2pkh_script, p2pkh_script, p2pkh_script_spec};
use sha2::Digest;
use vstd::prelude::*;

verus! {

/// The Bitcoin network an address or transaction belongs to.
#[derive(Copy, Clone, Debug, PartialEq, Eq, Structural)]
pub enum BitcoinNetwork {
    Mainnet,
    Testnet,
    Regtest,
}

/// The SHA-256 digest of the bytes.
pub uninterp spec fn sha256_of(data: Seq<u8>) -> Seq<u8>;

/// The RIPEMD-160 digest of the bytes.
pub uninterp spec fn ripemd160_of(data: Seq<u8>) -> Seq<u8>;

/// The base-58 text of the bytes, in the Bitcoin alphabet.
pub uninterp spec fn base58_of(data: Seq<u8>) -> Seq<char>;

/// Relies on `sha2::Sha256::digest`: the 32-byte SHA-256 digest of `data`.
#[verifier::external_body]
pub(crate) fn sha256(data: &[u8]) -> (r: Vec<u8>)
    ensures
        r@ == sha256_of(data@),
        r@.len() == 32,
{
    sha2::Sha256::digest(data).to_vec()
}

/// Relies on `ripemd::Ripemd160::digest`: the 20-byte RIPEMD-160 digest of `data`.
#[verifier::external_body]
pub(crate) fn ripemd160(data: &[u8]) -> (r: Vec<u8>)
    ensures
        r@ == ripemd160_of(data@),
        r@.len() == 20,
{
    ripemd::Ripemd160::digest(data).to_vec()
}

/// Relies on `bs58::encode(..).into_string()`: the base-58 text of `data`.
#[verifier::external_body]
fn base58(data: &[u8]) -> (r: String)
    ensures
        r@ == base58_of(data@),
{
    bs58::encode(data).into_string()
}

/// `RIPEMD160(SHA256(data))`.
pub open spec fn hash160_spec(data: Seq<u8>) -> Seq<u8> {
    ripemd160_of(sha256_of(data))
}

/// The version byte of a P2PKH address on the network.
pub open spec fn version_byte(network: BitcoinNetwork) -> u8 {
    match network {
        BitcoinNetwork::Mainnet => 0x00,
        BitcoinNetwork::Testnet | BitcoinNetwork::Regtest => 0x6f,
    }
}

/// The 4-byte checksum of an address payload.
pub open spec fn checksum_spec(data: Seq<u8>) -> Seq<u8> {
    sha256_of(sha256_of(data)).take(4)
}

/// The bytes that a P2PKH address encodes: version byte, key hash, checksum.
pub open spec fn p2pkh_payload_spec(network: BitcoinNetwork, public_key: Seq<u8>) -> Seq<u8> {
    let body = seq![version_byte(network)] + hash160_spec(public_key);
    body + checksum_spec(body)
}

/// The P2PKH address text of a public key on the network.
pub open spec fn p2pkh_address_spec(network: BitcoinNetwork, public_key: Seq<u8>) -> Seq<char> {
    base58_of(p2pkh_payload_spec(network, public_key))
}

/// `RIPEMD160(SHA256(data))`, the 20-byte key hash.
pub fn hash160(data: &[u8]) -> (r: Vec<u8>)
    ensures
        r@ == hash160_spec(data@),
        r@.len() == 20,
{
    let h = sha256(data);
    ripemd160(h.as_slice())
}

/// The address payload of a public key: version byte, key hash and checksum, 25 bytes in all.
/// The trailing four bytes are the checksum of the first 21.
pub fn p2pkh_payload(network: BitcoinNetwork, public_key: &[u8]) -> (r: Vec<u8>)
    ensures
        r@ == p2pkh_payload_spec(network, public_key@),
        r@.len() == 25,
        r@[0] == version_byte(network),
        r@.skip(21) == checksum_spec(r@.take(21)),
{
    let h = hash160(public_key);
    let prefix: u8 = match network {
        BitcoinNetwork::Mainnet => 0x00,
        BitcoinNetwork::Testnet | BitcoinNetwork::Regtest => 0x6f,
    };
    let mut data: Vec<u8> = Vec::new();
    data.push(prefix);
    append_range(&mut data, h.as_slice(), 0, 20);
    let first = sha256(data.as_slice());
    let second = sha256(first.as_slice());
    let ghost body = data@;
    append_range(&mut data, second.as_slice(), 0, 4);
    proof {
        assert(h@.subrange(0, 20) =~= h@);
        assert(body =~= seq![version_byte(network)] + hash160_spec(public_key@));
        assert(second@.subrange(0, 4) =~= second@.take(4));
        assert(data@.take(21) =~= body);
        assert(data@.skip(21) =~= checksum_spec(body));
    }
    data
}

/// The P2PKH address of a public key, as base-58 text.
pub fn public_key_to_p2pkh_address(network: BitcoinNetwork, public_key: &[u8]) -> (r: String)
    ensures
        r@ == p2pkh_address_spec(network, public_key@),
{
    let payload = p2pkh_payload(network, public_key);
    base58(payload.as_slice())
}

/// The P2PKH locking script of a public key.
pub fn p2pkh_script_pubkey(public_key: &[u8]) -> (r: Vec<u8>)
    ensures
        r@ == p2pkh_script_spec(hash160_spec(public_key@)),
        is_p2pkh_script(r@),
{
    let h = hash160(public_key);
    p2pkh_script(h.as_slice())
}

/// The same key gets a different address version byte on mainnet than on the test networks,
/// and the same one on testnet and regtest.
pub proof fn lemma_p2pkh_network_sensitive(public_key: Seq<u8>)
    ensures
        p2pkh_payload_spec(BitcoinNetwork::Mainnet, public_key)[0] != p2pkh_payload_spec(
            BitcoinNetwork::Testnet,
            public_key,
        )[0],
        p2pkh_payload_spec(BitcoinNetwork::Testnet, public_key)[0] == p2pkh_payload_spec(
            BitcoinNetwork::Regtest,
            public_key,
        )[0],
        p2pkh_payload_spec(BitcoinNetwork::Mainnet, public_key)[0] == 0x00,
        p2pkh_payload_spec(BitcoinNetwork::Testnet, public_key)[0] == 0x6f,
{
}

} // verus!
