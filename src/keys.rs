//! The master seed's one-time initialization, and signing with keys derived from it.
use crate::builder::copy_bytes;
use crate::error::WalletError;
use crate::inscription::opt_view;
use vstd::prelude::*;

verus! {

/// The size of the master seed.
pub const SEED_SIZE: usize = 64;

/// The size of the entropy the seed is made from; it is repeated to fill the seed.
pub const ENTROPY_SIZE: usize = 32;

/// The key service's state: the master seed (all zero until initialized) and whether an
/// initialization is waiting for entropy.
pub struct KeyServiceView {
    pub seed: Seq<u8>,
    pub initializing: bool,
}

/// Whether every byte is zero: the seed of a service that was never initialized.
pub open spec fn is_zero_seed(s: Seq<u8>) -> bool {
    forall|i: int| 0 <= i < s.len() ==> s[i] == 0
}

/// The state of a fresh service.
pub open spec fn fresh_state() -> KeyServiceView {
    KeyServiceView { seed: Seq::new(SEED_SIZE as nat, |i: int| 0u8), initializing: false }
}

/// Starting an initialization: refused once a seed is set, or while another one waits for
/// entropy; otherwise the flag is taken.
pub open spec fn begin_spec(st: KeyServiceView) -> (KeyServiceView, Result<(), WalletError>) {
    if !is_zero_seed(st.seed) {
        (st, Err(WalletError::AlreadyInitialized))
    } else if st.initializing {
        (st, Err(WalletError::AlreadyInitializing))
    } else {
        (KeyServiceView { initializing: true, ..st }, Ok(()))
    }
}

/// Finishing an initialization with the entropy the source returned: without a pending
/// initialization nothing changes; otherwise the flag is released and, for entropy of the right
/// size, the seed becomes the entropy twice over.
pub open spec fn finish_spec(st: KeyServiceView, entropy: Seq<u8>) -> (KeyServiceView, Result<(), WalletError>) {
    if !st.initializing {
        (st, Err(WalletError::MalformedInput))
    } else if entropy.len() != ENTROPY_SIZE {
        (KeyServiceView { initializing: false, ..st }, Err(WalletError::MalformedInput))
    } else {
        (KeyServiceView { seed: entropy + entropy, initializing: false }, Ok(()))
    }
}

/// The derivation service's state, kept for the service's lifetime.
pub struct KeyService {
    seed: Vec<u8>,
    initializing: bool,
}

impl View for KeyService {
    type V = KeyServiceView;

    closed spec fn view(&self) -> KeyServiceView {
        KeyServiceView { seed: self.seed@, initializing: self.initializing }
    }
}

impl KeyService {
    /// A service that was never initialized.
    pub fn new() -> (r: KeyService)
        ensures
            r@ == fresh_state(),
    {
        let mut seed: Vec<u8> = Vec::new();
        let mut i: usize = 0;
        while i < SEED_SIZE
            invariant
                i <= SEED_SIZE,
                seed@ =~= Seq::new(i as nat, |j: int| 0u8),
            decreases SEED_SIZE - i,
        {
            seed.push(0);
            i = i + 1;
        }
        KeyService { seed, initializing: false }
    }

    /// A service over a persisted seed; `None` unless it is 64 bytes long.
    pub fn restore(seed: Vec<u8>) -> (r: Option<KeyService>)
        ensures
            seed@.len() == SEED_SIZE <==> r is Some,
            r matches Some(k) ==> k@ == (KeyServiceView { seed: seed@, initializing: false }),
    {
        if seed.len() != SEED_SIZE {
            return None;
        }
        Some(KeyService { seed, initializing: false })
    }

    /// Whether the seed is set.
    pub fn is_initialized(&self) -> (r: bool)
        ensures
            r == !is_zero_seed(self@.seed),
    {
        let mut i: usize = 0;
        while i < self.seed.len()
            invariant
                i <= self.seed@.len(),
                forall|j: int| 0 <= j < i ==> self.seed@[j] == 0,
            decreases self.seed@.len() - i,
        {
            if self.seed[i] != 0 {
                return true;
            }
            i = i + 1;
        }
        false
    }

    /// Whether an initialization waits for entropy.
    pub fn is_initializing(&self) -> (r: bool)
        ensures
            r == self@.initializing,
    {
        self.initializing
    }

    /// The seed, for persisting it.
    pub fn seed_bytes(&self) -> (r: Vec<u8>)
        ensures
            r@ == self@.seed,
    {
        copy_bytes(&self.seed)
    }

    /// Starts an initialization, before the entropy source is called.
    pub fn begin_initialize(&mut self) -> (r: Result<(), WalletError>)
        ensures
            (final(self)@, r) == begin_spec(old(self)@),
    {
        if self.is_initialized() {
            return Err(WalletError::AlreadyInitialized);
        }
        if self.initializing {
            return Err(WalletError::AlreadyInitializing);
        }
        self.initializing = true;
        Ok(())
    }

    /// Ends an initialization with what the entropy source returned. Without a pending
    /// initialization it fails with `MalformedInput` and changes nothing. Otherwise the flag is
    /// released on every path, and a failure of the source is passed on with its message.
    pub fn finish_initialize(&mut self, entropy: Result<Vec<u8>, String>) -> (r: Result<
        (),
        WalletError,
    >)
        ensures
            entropy matches Ok(e) ==> (final(self)@, r) == finish_spec(old(self)@, e@),
            !old(self)@.initializing ==> final(self)@ == old(self)@ && r == Err::<(), WalletError>(
                WalletError::MalformedInput,
            ),
            old(self)@.initializing ==> (entropy matches Err(m) ==> final(self)@ == (KeyServiceView {
                initializing: false,
                ..old(self)@
            }) && r == Err::<(), WalletError>(WalletError::ExternalCallFailed(m))),
    {
        if !self.initializing {
            return Err(WalletError::MalformedInput);
        }
        self.initializing = false;
        match entropy {
            Err(m) => Err(WalletError::ExternalCallFailed(m)),
            Ok(e) => {
                if e.len() != ENTROPY_SIZE {
                    return Err(WalletError::MalformedInput);
                }
                let mut seed = copy_bytes(&e);
                let mut i: usize = 0;
                while i < ENTROPY_SIZE
                    invariant
                        e@.len() == ENTROPY_SIZE,
                        i <= ENTROPY_SIZE,
                        seed@ =~= e@ + e@.subrange(0, i as int),
                    decreases ENTROPY_SIZE - i,
                {
                    seed.push(e[i]);
                    i = i + 1;
                }
                assert(e@.subrange(0, ENTROPY_SIZE as int) =~= e@);
                self.seed = seed;
                Ok(())
            },
        }
    }

    /// The BIP32 master private key of the seed; fails with `MalformedInput` before
    /// initialization or when the seed gives no key.
    pub fn master_private_key(&self) -> (r: Result<Vec<u8>, WalletError>)
        ensures
            r is Ok <==> !is_zero_seed(self@.seed) && bip32_master_key_of(self@.seed) is Some,
            r matches Ok(k) ==> Some(k@) == bip32_master_key_of(self@.seed) && k@.len() == 32,
            r is Err ==> r == Err::<Vec<u8>, WalletError>(WalletError::MalformedInput),
    {
        if !self.is_initialized() {
            return Err(WalletError::MalformedInput);
        }
        match bip32_master_key(&self.seed) {
            Some(k) => Ok(k),
            None => Err(WalletError::MalformedInput),
        }
    }
}

/// Interleaved initializations: on a fresh service, a second `begin` issued while the first
/// waits for entropy is refused with `AlreadyInitializing`, the first then succeeds, and any
/// later attempt is refused with `AlreadyInitialized`. So exactly one initialization sets the
/// seed.
pub proof fn lemma_initialize_once(st: KeyServiceView, entropy: Seq<u8>)
    requires
        is_zero_seed(st.seed),
        !st.initializing,
        entropy.len() == ENTROPY_SIZE,
        !is_zero_seed(entropy),
    ensures
        begin_spec(st).1 is Ok,
        begin_spec(begin_spec(st).0).1 == Err::<(), WalletError>(WalletError::AlreadyInitializing),
        finish_spec(begin_spec(begin_spec(st).0).0, entropy).1 is Ok,
        finish_spec(begin_spec(begin_spec(st).0).0, entropy).0.seed == entropy + entropy,
        begin_spec(finish_spec(begin_spec(begin_spec(st).0).0, entropy).0).1 == Err::<
            (),
            WalletError,
        >(WalletError::AlreadyInitialized),
{
    let s3 = finish_spec(begin_spec(begin_spec(st).0).0, entropy).0;
    let j = choose|j: int| 0 <= j < entropy.len() && entropy[j] != 0;
    assert(s3.seed[j] == entropy[j]);
}

/// The BIP32 master private key of a seed, if it gives one.
pub uninterp spec fn bip32_master_key_of(seed: Seq<u8>) -> Option<Seq<u8>>;

/// Relies on `bip32::XPrv::new` and `PrivateKey::to_bytes`: the 32-byte master private key of
/// the seed; `None` when the seed length is not 16, 32 or 64 bytes, or when the derived bytes
/// are no valid key.
#[verifier::external_body]
fn bip32_master_key(seed: &Vec<u8>) -> (r: Option<Vec<u8>>)
    ensures
        opt_view(r) == bip32_master_key_of(seed@),
        !(seed@.len() == 16 || seed@.len() == 32 || seed@.len() == 64) ==> r is None,
        r matches Some(k) ==> k@.len() == 32,
{
    let xprv = bip32::XPrv::new(seed).ok()?;
    Some(bip32::PrivateKey::to_bytes(xprv.private_key()).to_vec())
}

/// The path a tenant's keys are derived along: the tenant's identity, then its sub-path.
pub open spec fn derivation_path_spec(tenant: Seq<u8>, sub_path: Seq<Seq<u8>>) -> Seq<Seq<u8>> {
    seq![tenant] + sub_path
}

/// Builds the derivation path of a tenant: its identity always comes first.
pub fn derivation_path(tenant: &Vec<u8>, sub_path: &Vec<Vec<u8>>) -> (r: Vec<Vec<u8>>)
    ensures
        r@.map_values(|p: Vec<u8>| p@) == derivation_path_spec(
            tenant@,
            sub_path@.map_values(|p: Vec<u8>| p@),
        ),
{
    let mut r: Vec<Vec<u8>> = Vec::new();
    r.push(copy_bytes(tenant));
    let mut i: usize = 0;
    while i < sub_path.len()
        invariant
            i <= sub_path@.len(),
            r@.map_values(|p: Vec<u8>| p@) =~= seq![tenant@] + sub_path@.map_values(
                |p: Vec<u8>| p@,
            ).take(i as int),
        decreases sub_path@.len() - i,
    {
        let ghost before = r@.map_values(|p: Vec<u8>| p@);
        let c = copy_bytes(&sub_path[i]);
        r.push(c);
        assert(r@.map_values(|p: Vec<u8>| p@) =~= before.push(sub_path@[i as int]@));
        assert(sub_path@.map_values(|p: Vec<u8>| p@).take(i + 1) =~= sub_path@.map_values(
            |p: Vec<u8>| p@,
        ).take(i as int).push(sub_path@[i as int]@));
        i = i + 1;
    }
    assert(sub_path@.map_values(|p: Vec<u8>| p@).take(i as int) =~= sub_path@.map_values(
        |p: Vec<u8>| p@,
    ));
    r
}

/// The unsigned big-endian value of the bytes.
pub open spec fn be_value(s: Seq<u8>) -> nat
    decreases s.len(),
{
    if s.len() == 0 {
        0
    } else {
        be_value(s.drop_last()) * 256 + s.last() as nat
    }
}

/// The order of the secp256k1 group, big-endian.
pub open spec fn curve_order_bytes() -> Seq<u8> {
    seq![
        0xffu8, 0xff, 0xff, 0xff, 0xff, 0xff, 0xff, 0xff, 0xff, 0xff, 0xff, 0xff, 0xff, 0xff, 0xff,
        0xfe, 0xba, 0xae, 0xdc, 0xe6, 0xaf, 0x48, 0xa0, 0x3b, 0xbf, 0xd2, 0x5e, 0x8c, 0xd0, 0x36,
        0x41, 0x41,
    ]
}

/// A valid secp256k1 secret key: 32 bytes whose value is above zero and below the group order.
pub open spec fn secret_key_valid(k: Seq<u8>) -> bool {
    &&& k.len() == 32
    &&& 0 < be_value(k)
    &&& be_value(k) < be_value(curve_order_bytes())
}

/// The deterministic (no auxiliary randomness) BIP340 Schnorr signature of a 32-byte digest.
pub uninterp spec fn schnorr_signature_of(private_key: Seq<u8>, digest: Seq<u8>) -> Seq<u8>;

/// Relies on `Keypair::from_seckey_slice`, `Message::from_digest_slice` and
/// `Secp256k1::sign_schnorr_no_aux_rand` of `secp256k1`: the 64-byte signature; `None` exactly
/// when the key is not a valid secret key or the digest is not 32 bytes.
#[verifier::external_body]
fn schnorr_sign(private_key: &Vec<u8>, digest: &Vec<u8>) -> (r: Option<Vec<u8>>)
    ensures
        r.is_some() == (secret_key_valid(private_key@) && digest@.len() == 32),
        r matches Some(s) ==> s@ == schnorr_signature_of(private_key@, digest@) && s@.len() == 64,
{
    let secp = bitcoin::secp256k1::Secp256k1::new();
    let key_pair = bitcoin::key::UntweakedKeypair::from_seckey_slice(&secp, private_key).ok()?;
    let msg = bitcoin::secp256k1::Message::from_digest_slice(digest).ok()?;
    Some(secp.sign_schnorr_no_aux_rand(&msg, &key_pair).serialize().to_vec())
}

/// Signs a digest with a derived private key. Fails with `MalformedInput` exactly when the
/// digest is not one hash long or the key is not a valid secret key.
pub fn sign_schnorr(private_key: &Vec<u8>, digest: &Vec<u8>) -> (r: Result<Vec<u8>, WalletError>)
    ensures
        r is Ok <==> secret_key_valid(private_key@) && digest@.len() == 32,
        digest@.len() != 32 ==> r == Err::<Vec<u8>, WalletError>(WalletError::MalformedInput),
        r matches Ok(s) ==> s@ == schnorr_signature_of(private_key@, digest@) && s@.len() == 64,
        r is Err ==> r == Err::<Vec<u8>, WalletError>(WalletError::MalformedInput),
{
    if digest.len() != 32 {
        return Err(WalletError::MalformedInput);
    }
    match schnorr_sign(private_key, digest) {
        Some(s) => Ok(s),
        None => Err(WalletError::MalformedInput),
    }
}

/// The compressed SEC1 public key of a secret key.
pub uninterp spec fn public_key_of(private_key: Seq<u8>) -> Seq<u8>;

/// Relies on `Keypair::from_seckey_slice` and `PublicKey::serialize` of `secp256k1`: the
/// 33-byte compressed public key; `None` exactly when the key is not a valid secret key.
#[verifier::external_body]
fn secp_public_key(private_key: &Vec<u8>) -> (r: Option<Vec<u8>>)
    ensures
        r.is_some() == secret_key_valid(private_key@),
        r matches Some(p) ==> p@ == public_key_of(private_key@) && p@.len() == 33,
{
    let secp = bitcoin::secp256k1::Secp256k1::new();
    let key_pair = bitcoin::key::UntweakedKeypair::from_seckey_slice(&secp, private_key).ok()?;
    Some(key_pair.public_key().serialize().to_vec())
}

/// The compressed public key of a secret key; fails exactly when it is not a valid secret key.
pub fn public_key(private_key: &Vec<u8>) -> (r: Result<Vec<u8>, WalletError>)
    ensures
        r is Ok <==> secret_key_valid(private_key@),
        r matches Ok(p) ==> p@ == public_key_of(private_key@) && p@.len() == 33,
        r is Err ==> r == Err::<Vec<u8>, WalletError>(WalletError::MalformedInput),
{
    match secp_public_key(private_key) {
        Some(p) => Ok(p),
        None => Err(WalletError::MalformedInput),
    }
}

} // verus!
