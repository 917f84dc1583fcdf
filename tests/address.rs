use sha2::Digest;
use inscriber::address::{
    hash160, p2pkh_payload, p2pkh_script_pubkey, public_key_to_p2pkh_address, BitcoinNetwork,
};

fn generator_key() -> Vec<u8> {
    hex::decode("0279be667ef9dcbbac55a06295ce870b07029bfcdb2dce28d959f2815b16f81798").unwrap()
}

#[test]
fn hash160_of_generator_key() {
    assert_eq!(hex::encode(hash160(&generator_key())), "751e76e8199196d454941c45d1b3a323f1433bd6");
}

#[test]
fn p2pkh_address_mainnet_and_testnet() {
    let k = generator_key();
    assert_eq!(public_key_to_p2pkh_address(BitcoinNetwork::Mainnet, &k), "1BgGZ9tcN4rm9KBzDn7KprQz87SZ26SAMH");
    assert_eq!(public_key_to_p2pkh_address(BitcoinNetwork::Testnet, &k), "mrCDrCybB6J1vRfbwM5hemdJz73FwDBC8r");
    assert_eq!(
        public_key_to_p2pkh_address(BitcoinNetwork::Regtest, &k),
        public_key_to_p2pkh_address(BitcoinNetwork::Testnet, &k)
    );
}

#[test]
fn p2pkh_address_is_deterministic() {
    let k = generator_key();
    assert_eq!(
        public_key_to_p2pkh_address(BitcoinNetwork::Mainnet, &k),
        public_key_to_p2pkh_address(BitcoinNetwork::Mainnet, &k)
    );
}

#[test]
fn payload_version_and_checksum() {
    let k = generator_key();
    let main = p2pkh_payload(BitcoinNetwork::Mainnet, &k);
    let test = p2pkh_payload(BitcoinNetwork::Testnet, &k);
    assert_eq!(main.len(), 25);
    assert_eq!(main[0], 0x00);
    assert_eq!(test[0], 0x6f);
    assert_eq!(&main[1..21], &hash160(&k)[..]);
    let c = sha2::Sha256::digest(sha2::Sha256::digest(&main[..21]));
    assert_eq!(&main[21..], &c[..4]);
    let decoded = bs58::decode("1BgGZ9tcN4rm9KBzDn7KprQz87SZ26SAMH").into_vec().unwrap();
    assert_eq!(decoded, main);
}

#[test]
fn p2pkh_locking_script() {
    let s = p2pkh_script_pubkey(&generator_key());
    assert_eq!(hex::encode(s), "76a914751e76e8199196d454941c45d1b3a323f1433bd688ac");
}
