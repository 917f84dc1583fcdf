use inscriber::error::WalletError;
use inscriber::keys::{derivation_path, public_key, sign_schnorr, KeyService};

#[test]
fn interleaved_initialization_succeeds_once() {
    let mut k = KeyService::new();
    assert!(!k.is_initialized());
    assert_eq!(k.begin_initialize(), Ok(()));
    assert!(k.is_initializing());
    assert_eq!(k.begin_initialize(), Err(WalletError::AlreadyInitializing));
    assert_eq!(k.finish_initialize(Ok(vec![7u8; 32])), Ok(()));
    assert!(k.is_initialized());
    assert!(!k.is_initializing());
    assert_eq!(k.seed_bytes(), vec![7u8; 64]);
    assert_eq!(k.begin_initialize(), Err(WalletError::AlreadyInitialized));
}

#[test]
fn seed_is_entropy_twice() {
    let mut k = KeyService::new();
    let e: Vec<u8> = (1..=32).collect();
    k.begin_initialize().unwrap();
    k.finish_initialize(Ok(e.clone())).unwrap();
    let mut expected = e.clone();
    expected.extend(e);
    assert_eq!(k.seed_bytes(), expected);
}

#[test]
fn failed_entropy_releases_the_flag() {
    let mut k = KeyService::new();
    k.begin_initialize().unwrap();
    assert_eq!(
        k.finish_initialize(Err("no entropy".to_string())),
        Err(WalletError::ExternalCallFailed("no entropy".to_string()))
    );
    assert!(!k.is_initializing());
    assert!(!k.is_initialized());
    k.begin_initialize().unwrap();
    assert_eq!(k.finish_initialize(Ok(vec![1u8; 31])), Err(WalletError::MalformedInput));
    assert!(!k.is_initializing());
    assert_eq!(k.seed_bytes(), vec![0u8; 64]);
}

#[test]
fn restore_and_master_key() {
    assert!(KeyService::restore(vec![1u8; 63]).is_none());
    let k = KeyService::restore(vec![3u8; 64]).unwrap();
    assert!(k.is_initialized());
    let m = k.master_private_key().unwrap();
    assert_eq!(m.len(), 32);
    assert_eq!(m, k.master_private_key().unwrap());
    assert_eq!(KeyService::new().master_private_key(), Err(WalletError::MalformedInput));
}

#[test]
fn tenant_comes_first_in_the_path() {
    let p = derivation_path(&vec![9, 9], &vec![vec![1], vec![2, 3]]);
    assert_eq!(p, vec![vec![9, 9], vec![1], vec![2, 3]]);
    assert_eq!(derivation_path(&vec![5], &Vec::new()), vec![vec![5]]);
}

#[test]
fn schnorr_signing() {
    let mut key = vec![0u8; 32];
    key[31] = 1;
    let digest = vec![0x42u8; 32];
    let s1 = sign_schnorr(&key, &digest).unwrap();
    assert_eq!(s1.len(), 64);
    assert_eq!(s1, sign_schnorr(&key, &digest).unwrap());
    assert_ne!(s1, sign_schnorr(&key, &vec![0x43u8; 32]).unwrap());
    assert_eq!(sign_schnorr(&key, &vec![0x42u8; 31]), Err(WalletError::MalformedInput));
    assert_eq!(sign_schnorr(&vec![0u8; 32], &digest), Err(WalletError::MalformedInput));
}

#[test]
fn public_key_of_secret_one() {
    let mut key = vec![0u8; 32];
    key[31] = 1;
    assert_eq!(
        hex::encode(public_key(&key).unwrap()),
        "0279be667ef9dcbbac55a06295ce870b07029bfcdb2dce28d959f2815b16f81798"
    );
}

#[test]
fn finish_without_begin_changes_nothing() {
    let mut k = KeyService::new();
    assert_eq!(k.finish_initialize(Ok(vec![7u8; 32])), Err(WalletError::MalformedInput));
    assert!(!k.is_initialized());
    k.begin_initialize().unwrap();
    k.finish_initialize(Ok(vec![7u8; 32])).unwrap();
    assert_eq!(k.finish_initialize(Ok(vec![8u8; 32])), Err(WalletError::MalformedInput));
    assert_eq!(k.seed_bytes(), vec![7u8; 64]);
}

#[test]
fn secret_keys_at_or_above_the_order_are_refused() {
    let order =
        hex::decode("fffffffffffffffffffffffffffffffebaaedce6af48a03bbfd25e8cd0364141").unwrap();
    let digest = vec![1u8; 32];
    assert_eq!(sign_schnorr(&order, &digest), Err(WalletError::MalformedInput));
    assert_eq!(public_key(&order), Err(WalletError::MalformedInput));
    assert_eq!(public_key(&vec![1u8; 31]), Err(WalletError::MalformedInput));
    let below =
        hex::decode("fffffffffffffffffffffffffffffffebaaedce6af48a03bbfd25e8cd0364140").unwrap();
    assert!(sign_schnorr(&below, &digest).is_ok());
    assert!(public_key(&below).is_ok());
}
