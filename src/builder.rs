//! The commit/reveal transaction pair that carries an inscription.
//!
//! Building runs in steps around the two signing oracles: plan the commit transaction and the
//! fees, sign the commit inputs with the digests from `legacy_sighashes`, derive the reveal
//! transaction, and attach the reveal witness over the digest from `reveal_sighash`.
use crate::der::{der_of, sec1_to_der};
use crate::error::WalletError;
use crate::inscription::{opt_view, Inscription};
use crate::script::{
    append_range, check_p2pkh_script, is_p2pkh_script, push_data, push_spec,
    MAX_SCRIPT_ELEMENT_SIZE, OP_CHECKSIG,
};
use crate::transaction::{
    legacy_sighash, tap_script_sighash, transaction_id, transaction_vsize, OutPoint, OutPointView,
    Tx, TxInput, TxInputView, TxOutput, TxOutputView, TxView, Utxo, legacy_sighash_of,
    tap_script_sighash_of, tx_shape, txid_of, vsize_of, zeros, SEQUENCE_RBF_NO_LOCKTIME, SEQUENCE_ZERO, TX_VERSION,
};
use vstd::prelude::*;

verus! {

/// The size of a Schnorr signature.
pub const SCHNORR_SIGNATURE_SIZE: usize = 64;

/// The vbytes reserved for the signature of each legacy input of the commit transaction.
pub const SIG_VBYTES: u64 = 73;

/// The SIGHASH_ALL type byte appended to legacy signatures.
pub const SIGHASH_ALL: u8 = 1;

/// A copy of the bytes.
pub fn copy_bytes(v: &Vec<u8>) -> (r: Vec<u8>)
    ensures
        r@ == v@,
{
    let mut r: Vec<u8> = Vec::new();
    append_range(&mut r, v.as_slice(), 0, v.len());
    assert(v@.subrange(0, v@.len() as int) =~= v@);
    r
}

fn copy_outpoint(o: &OutPoint) -> (r: OutPoint)
    ensures
        r@ == o@,
{
    OutPoint { txid: copy_bytes(&o.txid), vout: o.vout }
}

// ---------------------------------------------------------------------------------------------
// The reveal script and its taproot commitment.

/// The leaf script: the envelope, then a push of the x-only key and a signature check.
pub open spec fn reveal_script_spec(ins: Inscription, key: Seq<u8>) -> Seq<u8> {
    ins.envelope() + push_spec(key) + seq![OP_CHECKSIG]
}

/// Builds the reveal script for a 32-byte x-only public key.
pub fn reveal_script(inscription: &Inscription, schnorr_public_key: &Vec<u8>) -> (r: Result<
    Vec<u8>,
    WalletError,
>)
    ensures
        r is Ok <==> inscription.fields_fit() && schnorr_public_key@.len() == 32,
        r matches Ok(s) ==> s@ == reveal_script_spec(*inscription, schnorr_public_key@),
        r is Err ==> r == Err::<Vec<u8>, WalletError>(WalletError::MalformedInput),
{
    if schnorr_public_key.len() != 32 {
        return Err(WalletError::MalformedInput);
    }
    let mut s = inscription.append_reveal_script_to_builder(Vec::new())?;
    let ghost env = s@;
    push_data(&mut s, schnorr_public_key.as_slice());
    s.push(OP_CHECKSIG);
    assert(env == Seq::<u8>::empty() + inscription.envelope());
    assert(s@ =~= reveal_script_spec(*inscription, schnorr_public_key@));
    Ok(s)
}

/// The taproot output script and control block of a single-leaf tree over `script` with the
/// internal key `internal_key`, if the key is a valid x-only key.
pub uninterp spec fn taproot_commitment_of(script: Seq<u8>, internal_key: Seq<u8>) -> Option<(Seq<u8>, Seq<u8>)>;

/// The views of an optional pair of byte vectors.
pub open spec fn opt_pair_view(o: Option<(Vec<u8>, Vec<u8>)>) -> Option<(Seq<u8>, Seq<u8>)> {
    match o {
        Some(p) => Some((p.0@, p.1@)),
        None => None,
    }
}

/// Relies on `bitcoin::taproot::TaprootBuilder` (one leaf at depth 0, finalised with the
/// internal key), `TaprootSpendInfo::control_block` and `ScriptBuf::new_p2tr_tweaked`. A single
/// leaf at depth 0 always finalises, so it is `None` only when the key is not a valid x-only key,
/// in particular when it is not 32 bytes long.
#[verifier::external_body]
fn taproot_commitment(script: &Vec<u8>, internal_key: &Vec<u8>) -> (r: Option<(Vec<u8>, Vec<u8>)>)
    ensures
        opt_pair_view(r) == taproot_commitment_of(script@, internal_key@),
        internal_key@.len() != 32 ==> r.is_none(),
{
    let key = bitcoin::key::UntweakedPublicKey::from_slice(internal_key).ok()?;
    let script = bitcoin::ScriptBuf::from_bytes(script.clone());
    let secp = bitcoin::key::Secp256k1::verification_only();
    let info = bitcoin::taproot::TaprootBuilder::new().add_leaf(0, script.clone()).ok()?.finalize(&secp, key).ok()?;
    let cb = info.control_block(&(script, bitcoin::taproot::LeafVersion::TapScript))?;
    Some((bitcoin::ScriptBuf::new_p2tr_tweaked(info.output_key()).into_bytes(), cb.serialize()))
}

/// The commitment of a reveal script: the locking script of the commit output and the control
/// block that proves the script-path spend.
pub struct TaprootCommitment {
    pub script_pubkey: Vec<u8>,
    pub control_block: Vec<u8>,
}

/// Commits to `script` under `internal_key`; fails exactly when the key is not a valid x-only
/// key, in particular when it is not 32 bytes long.
pub fn commit_to_script(script: &Vec<u8>, internal_key: &Vec<u8>) -> (r: Result<
    TaprootCommitment,
    WalletError,
>)
    ensures
        r is Ok <==> taproot_commitment_of(script@, internal_key@) is Some,
        internal_key@.len() != 32 ==> r is Err,
        r matches Ok(c) ==> Some((c.script_pubkey@, c.control_block@)) == taproot_commitment_of(
            script@,
            internal_key@,
        ),
        r is Err ==> r == Err::<TaprootCommitment, WalletError>(WalletError::MalformedInput),
{
    match taproot_commitment(script, internal_key) {
        Some((script_pubkey, control_block)) => Ok(TaprootCommitment { script_pubkey, control_block }),
        None => Err(WalletError::MalformedInput),
    }
}

/// The locking script an address text stands for, if it is an address.
pub uninterp spec fn address_script_of(address: Seq<char>) -> Option<Seq<u8>>;

/// Relies on `bitcoin::Address::from_str`, `assume_checked` and `script_pubkey`; `None` when
/// the text is not an address.
#[verifier::external_body]
fn address_script(address: &str) -> (r: Option<Vec<u8>>)
    ensures
        opt_view(r) == address_script_of(address@),
{
    let a: bitcoin::Address<bitcoin::address::NetworkUnchecked> = address.parse().ok()?;
    Some(a.assume_checked().script_pubkey().into_bytes())
}

/// The locking script of a destination address; fails exactly when the text is not an address.
pub fn destination_script(address: &String) -> (r: Result<Vec<u8>, WalletError>)
    ensures
        r is Ok <==> address_script_of(address@) is Some,
        r matches Ok(s) ==> Some(s@) == address_script_of(address@),
        r is Err ==> r == Err::<Vec<u8>, WalletError>(WalletError::MalformedInput),
{
    match address_script(address.as_str()) {
        Some(s) => Ok(s),
        None => Err(WalletError::MalformedInput),
    }
}

// ---------------------------------------------------------------------------------------------
// Fees and the commit transaction.

/// The fee for `vbytes` at `fee_rate` satoshis per vbyte, if it fits in 64 bits.
pub fn fee_for(fee_rate: u64, vbytes: u64) -> (r: Option<u64>)
    ensures
        r == (if fee_rate * vbytes <= u64::MAX {
            Some((fee_rate * vbytes) as u64)
        } else {
            None::<u64>
        }),
{
    fee_rate.checked_mul(vbytes)
}

/// The total value of the outputs.
pub open spec fn sum_values(us: Seq<Utxo>) -> nat
    decreases us.len(),
{
    if us.len() == 0 {
        0
    } else {
        us[0].value as nat + sum_values(us.skip(1))
    }
}

/// Every output references a 32-byte transaction id.
pub open spec fn utxos_wf(us: Seq<Utxo>) -> bool {
    forall|i: int| 0 <= i < us.len() ==> (#[trigger] us[i]).outpoint.txid@.len() == 32
}

/// The commit input that spends `u`, still unsigned.
pub open spec fn commit_input_spec(u: Utxo) -> TxInputView {
    TxInputView {
        previous_output: u.outpoint@,
        script_sig: Seq::empty(),
        sequence: SEQUENCE_ZERO,
        witness: Seq::empty(),
    }
}

/// The unsigned commit transaction: one input per output of `us`, oldest (last) first, and one
/// output of `value` to `script_pubkey`.
pub open spec fn commit_tx_spec(us: Seq<Utxo>, script_pubkey: Seq<u8>, value: u64) -> TxView {
    TxView {
        version: TX_VERSION,
        input: Seq::new(us.len(), |i: int| commit_input_spec(us[us.len() - 1 - i])),
        output: seq![TxOutputView { value, script_pubkey }],
        lock_time: 0,
    }
}

/// The reveal transaction: one input spending `prev`, one output of `value` to `dst`.
pub open spec fn reveal_tx_spec(
    prev: OutPointView,
    dst: Seq<u8>,
    value: u64,
    witness: Seq<Seq<u8>>,
) -> TxView {
    TxView {
        version: TX_VERSION,
        input: seq![
            TxInputView {
                previous_output: prev,
                script_sig: Seq::empty(),
                sequence: SEQUENCE_RBF_NO_LOCKTIME,
                witness,
            },
        ],
        output: seq![TxOutputView { value, script_pubkey: dst }],
        lock_time: 0,
    }
}

/// The null outpoint: an all-zero id and the largest index.
pub open spec fn null_outpoint() -> OutPointView {
    OutPointView { txid: Seq::new(32, |i: int| 0u8), vout: u32::MAX }
}

/// The reveal transaction used to size the reveal fee: a null previous output, a zero value,
/// and a witness of a zero-filled signature, the script and the control block.
pub open spec fn dummy_reveal_spec(dst: Seq<u8>, script: Seq<u8>, control_block: Seq<u8>) -> TxView {
    reveal_tx_spec(
        null_outpoint(),
        dst,
        0,
        seq![Seq::new(SCHNORR_SIGNATURE_SIZE as nat, |i: int| 0u8), script, control_block],
    )
}

/// The vbytes the commit fee is charged on: the unsigned size plus one legacy signature per
/// input.
pub open spec fn commit_vbytes(us: Seq<Utxo>, commit_script: Seq<u8>) -> nat {
    vsize_of(tx_shape(commit_tx_spec(us, commit_script, sum_values(us) as u64))) + SIG_VBYTES as nat
        * us.len()
}

/// The vbytes the reveal fee is charged on.
pub open spec fn reveal_vbytes(dst: Seq<u8>, script: Seq<u8>, control_block: Seq<u8>) -> nat {
    vsize_of(tx_shape(dummy_reveal_spec(dst, script, control_block)))
}

/// Every quantity of the plan fits in 64 bits.
pub open spec fn plan_fits(
    us: Seq<Utxo>,
    fee_rate: u64,
    commit_script: Seq<u8>,
    dst: Seq<u8>,
    script: Seq<u8>,
    control_block: Seq<u8>,
) -> bool {
    &&& utxos_wf(us)
    &&& fee_rate * reveal_vbytes(dst, script, control_block) <= u64::MAX
    &&& sum_values(us) <= u64::MAX
    &&& commit_vbytes(us, commit_script) <= u64::MAX
    &&& fee_rate * commit_vbytes(us, commit_script) <= u64::MAX
}

/// The unsigned commit transaction and the fees of both transactions.
pub struct InscriptionPlan {
    /// The commit transaction, its single output already reduced by the commit fee.
    pub commit_tx: Tx,
    /// The value of all the spent outputs.
    pub total: u64,
    pub commit_fee: u64,
    pub reveal_fee: u64,
}

fn empty_witness() -> (r: Vec<Vec<u8>>)
    ensures
        r@.map_values(|w: Vec<u8>| w@) == Seq::<Seq<u8>>::empty(),
{
    let r: Vec<Vec<u8>> = Vec::new();
    assert(r@.map_values(|w: Vec<u8>| w@) =~= Seq::<Seq<u8>>::empty());
    r
}

fn single_output(value: u64, script_pubkey: &Vec<u8>) -> (r: Vec<TxOutput>)
    ensures
        r@.map_values(|o: TxOutput| o@) == seq![TxOutputView { value, script_pubkey: script_pubkey@ }],
{
    let mut r: Vec<TxOutput> = Vec::new();
    r.push(TxOutput { value, script_pubkey: copy_bytes(script_pubkey) });
    assert(r@.map_values(|o: TxOutput| o@) =~= seq![
        TxOutputView { value, script_pubkey: script_pubkey@ },
    ]);
    r
}

/// Spends every output, oldest (last) first, into one output of `value` to `commit_script`;
/// also returns the total value spent, or `None` when it exceeds 64 bits.
fn commit_skeleton(utxos: &Vec<Utxo>, commit_script: &Vec<u8>) -> (r: Option<(Tx, u64)>)
    requires
        utxos_wf(utxos@),
    ensures
        r is Some <==> sum_values(utxos@) <= u64::MAX,
        r matches Some((tx, total)) ==> total == sum_values(utxos@) && tx@ == commit_tx_spec(
            utxos@,
            commit_script@,
            total,
        ) && tx.wf(),
{
    let n = utxos.len();
    let mut input: Vec<TxInput> = Vec::new();
    let mut total: u64 = 0;
    let mut k: usize = 0;
    while k < n
        invariant
            n == utxos@.len(),
            k <= n,
            utxos_wf(utxos@),
            total == sum_values(utxos@.subrange(n - k, n as int)),
            input@.len() == k,
            forall|i: int|
                0 <= i < k ==> (#[trigger] input@[i])@ == commit_input_spec(utxos@[n - 1 - i]),
            forall|i: int| 0 <= i < k ==> (#[trigger] input@[i]).previous_output.txid@.len() == 32,
        decreases n - k,
    {
        let u = &utxos[n - 1 - k];
        proof {
            let sub = utxos@.subrange(n - 1 - k, n as int);
            assert(sub.skip(1) =~= utxos@.subrange(n - k, n as int));
            assert(sub[0] == utxos@[n - 1 - k]);
            assert(u.outpoint.txid@.len() == 32);
        }
        if u.value > u64::MAX - total {
            proof {
                lemma_sum_suffix_bound(utxos@, n - 1 - k);
            }
            return None;
        }
        total = total + u.value;
        let w = empty_witness();
        input.push(
            TxInput {
                previous_output: copy_outpoint(&u.outpoint),
                script_sig: Vec::new(),
                sequence: SEQUENCE_ZERO,
                witness: w,
            },
        );
        proof {
            assert(input@[k as int]@.script_sig =~= Seq::<u8>::empty());
        }
        k = k + 1;
    }
    let tx = Tx { version: TX_VERSION, input, output: single_output(total, commit_script), lock_time: 0 };
    proof {
        assert(utxos@.subrange(0, n as int) =~= utxos@);
        assert(tx@.input =~= commit_tx_spec(utxos@, commit_script@, total).input);
    }
    Some((tx, total))
}

proof fn lemma_sum_suffix_bound(us: Seq<Utxo>, i: int)
    requires
        0 <= i <= us.len(),
    ensures
        sum_values(us.subrange(i, us.len() as int)) <= sum_values(us),
    decreases i,
{
    if i > 0 {
        lemma_sum_suffix_bound(us.skip(1), i - 1);
        assert(us.skip(1).subrange(i - 1, us.skip(1).len() as int) =~= us.subrange(
            i,
            us.len() as int,
        ));
    } else {
        assert(us.subrange(0, us.len() as int) =~= us);
    }
}

fn zero_signature() -> (r: Vec<u8>)
    ensures
        r@ == Seq::new(SCHNORR_SIGNATURE_SIZE as nat, |i: int| 0u8),
{
    let mut r: Vec<u8> = Vec::new();
    let mut i: usize = 0;
    while i < SCHNORR_SIGNATURE_SIZE
        invariant
            i <= SCHNORR_SIGNATURE_SIZE,
            r@ =~= Seq::new(i as nat, |j: int| 0u8),
        decreases SCHNORR_SIGNATURE_SIZE - i,
    {
        r.push(0);
        i = i + 1;
    }
    r
}

/// Builds the reveal transaction spending `prev`.
fn reveal_tx(prev: OutPoint, dst: &Vec<u8>, value: u64, witness: Vec<Vec<u8>>) -> (r: Tx)
    requires
        prev.txid@.len() == 32,
    ensures
        r@ == reveal_tx_spec(prev@, dst@, value, witness@.map_values(|w: Vec<u8>| w@)),
        r.wf(),
{
    let mut input: Vec<TxInput> = Vec::new();
    input.push(
        TxInput {
            previous_output: prev,
            script_sig: Vec::new(),
            sequence: SEQUENCE_RBF_NO_LOCKTIME,
            witness,
        },
    );
    let r = Tx { version: TX_VERSION, input, output: single_output(value, dst), lock_time: 0 };
    proof {
        assert(r@.input[0].script_sig =~= Seq::<u8>::empty());
        assert(r@.input =~= reveal_tx_spec(
            prev@,
            dst@,
            value,
            witness@.map_values(|w: Vec<u8>| w@),
        ).input);
    }
    r
}

fn witness_of(a: Vec<u8>, b: &Vec<u8>, c: &Vec<u8>) -> (r: Vec<Vec<u8>>)
    ensures
        r@.map_values(|w: Vec<u8>| w@) == seq![a@, b@, c@],
{
    let mut r: Vec<Vec<u8>> = Vec::new();
    let ghost av = a@;
    r.push(a);
    r.push(copy_bytes(b));
    r.push(copy_bytes(c));
    assert(r@.map_values(|w: Vec<u8>| w@) =~= seq![av, b@, c@]);
    r
}

/// The fee of the reveal transaction at `fee_rate`, sized with a zero-filled dummy signature in
/// its witness; `None` when it exceeds 64 bits.
pub fn estimate_reveal_fee(
    fee_rate: u64,
    dst_script: &Vec<u8>,
    reveal_script: &Vec<u8>,
    control_block: &Vec<u8>,
) -> (r: Option<u64>)
    ensures
        r == (if fee_rate * reveal_vbytes(dst_script@, reveal_script@, control_block@)
            <= u64::MAX {
            Some((fee_rate * reveal_vbytes(dst_script@, reveal_script@, control_block@)) as u64)
        } else {
            None::<u64>
        }),
{
    let mut null_id: Vec<u8> = Vec::new();
    let mut i: usize = 0;
    while i < 32
        invariant
            i <= 32,
            null_id@ =~= Seq::new(i as nat, |j: int| 0u8),
        decreases 32 - i,
    {
        null_id.push(0);
        i = i + 1;
    }
    let prev = OutPoint { txid: null_id, vout: u32::MAX };
    let witness = witness_of(zero_signature(), reveal_script, control_block);
    let tx = reveal_tx(prev, dst_script, 0, witness);
    let vbytes = transaction_vsize(&tx);
    fee_for(fee_rate, vbytes)
}

fn utxo_ids_ok(utxos: &Vec<Utxo>) -> (r: bool)
    ensures
        r == utxos_wf(utxos@),
{
    let mut i: usize = 0;
    while i < utxos.len()
        invariant
            i <= utxos@.len(),
            forall|j: int| 0 <= j < i ==> (#[trigger] utxos@[j]).outpoint.txid@.len() == 32,
        decreases utxos@.len() - i,
    {
        if utxos[i].outpoint.txid.len() != 32 {
            return false;
        }
        i = i + 1;
    }
    true
}

/// Plans the commit transaction: spends every output, oldest first, into a single output to
/// `commit_script` worth the total less the commit fee, and prices the reveal transaction.
/// The commit fee is charged on the unsigned size plus one legacy signature per input; the
/// reveal fee on
/// the reveal transaction with a dummy witness. Fails with `InsufficientFunds` when the total
/// cannot cover both fees, and with `MalformedInput` when an id is not 32 bytes long or an amount
/// exceeds 64 bits.
pub fn plan_inscription(
    utxos: &Vec<Utxo>,
    fee_rate: u64,
    commit_script: &Vec<u8>,
    dst_script: &Vec<u8>,
    reveal_script: &Vec<u8>,
    control_block: &Vec<u8>,
) -> (r: Result<InscriptionPlan, WalletError>)
    ensures
        r is Ok <==> plan_fits(
            utxos@,
            fee_rate,
            commit_script@,
            dst_script@,
            reveal_script@,
            control_block@,
        ) && fee_rate * commit_vbytes(utxos@, commit_script@) + fee_rate * reveal_vbytes(
            dst_script@,
            reveal_script@,
            control_block@,
        ) <= sum_values(utxos@),
        r matches Ok(p) ==> {
            &&& p.total == sum_values(utxos@)
            &&& p.commit_fee == fee_rate * commit_vbytes(utxos@, commit_script@)
            &&& p.reveal_fee == fee_rate * reveal_vbytes(dst_script@, reveal_script@, control_block@)
            &&& p.commit_tx@ == commit_tx_spec(
                utxos@,
                commit_script@,
                (p.total - p.commit_fee) as u64,
            )
            &&& p.commit_tx.wf()
            &&& p.commit_tx@.output[0].value + p.commit_fee == p.total
            &&& commit_vbytes(utxos@, commit_script@) == vsize_of(tx_shape(p.commit_tx@))
                + SIG_VBYTES * utxos@.len()
            &&& p.commit_fee + p.reveal_fee <= p.total
        },
        r == Err::<InscriptionPlan, WalletError>(WalletError::InsufficientFunds) <==> plan_fits(
            utxos@,
            fee_rate,
            commit_script@,
            dst_script@,
            reveal_script@,
            control_block@,
        ) && fee_rate * commit_vbytes(utxos@, commit_script@) + fee_rate * reveal_vbytes(
            dst_script@,
            reveal_script@,
            control_block@,
        ) > sum_values(utxos@),
        !plan_fits(utxos@, fee_rate, commit_script@, dst_script@, reveal_script@, control_block@)
            ==> r == Err::<InscriptionPlan, WalletError>(WalletError::MalformedInput),
{
    if !utxo_ids_ok(utxos) {
        return Err(WalletError::MalformedInput);
    }
    let reveal_fee = match estimate_reveal_fee(fee_rate, dst_script, reveal_script, control_block) {
        Some(f) => f,
        None => return Err(WalletError::MalformedInput),
    };
    let (tx, total) = match commit_skeleton(utxos, commit_script) {
        Some(p) => p,
        None => return Err(WalletError::MalformedInput),
    };
    let vbytes = transaction_vsize(&tx);
    let n = utxos.len() as u64;
    if n > (u64::MAX - vbytes) / SIG_VBYTES {
        return Err(WalletError::MalformedInput);
    }
    proof {
        let m = (u64::MAX - vbytes) as int;
        assert(n as int * 73 <= m) by (nonlinear_arith)
            requires
                n as int <= m / 73,
                m >= 0,
        ;
    }
    let commit_fee = match fee_for(fee_rate, vbytes + SIG_VBYTES * n) {
        Some(f) => f,
        None => return Err(WalletError::MalformedInput),
    };
    if commit_fee > total || reveal_fee > total - commit_fee {
        return Err(WalletError::InsufficientFunds);
    }
    let commit_tx = Tx {
        version: tx.version,
        input: tx.input,
        output: single_output(total - commit_fee, commit_script),
        lock_time: tx.lock_time,
    };
    proof {
        assert(commit_tx@.output =~= commit_tx_spec(
            utxos@,
            commit_script@,
            (total - commit_fee) as u64,
        ).output);
        assert(commit_tx@ =~= commit_tx_spec(utxos@, commit_script@, (total - commit_fee) as u64));
        lemma_commit_shape(utxos@, commit_script@, total, (total - commit_fee) as u64);
    }
    Ok(InscriptionPlan { commit_tx, total, commit_fee, reveal_fee })
}

// ---------------------------------------------------------------------------------------------
// Signing the commit transaction.

/// The digests to sign for each commit input: the legacy SIGHASH_ALL hash over `own_script`.
/// Each depends only on the transaction's structure, not on the other inputs' signatures.
/// Fails with `UnsupportedAddressType` unless `own_script` is a P2PKH locking script, so no
/// digest is handed out for another kind of address.
pub fn legacy_sighashes(transaction: &Tx, own_script: &Vec<u8>) -> (r: Result<
    Vec<Vec<u8>>,
    WalletError,
>)
    requires
        transaction.wf(),
    ensures
        r is Ok <==> is_p2pkh_script(own_script@),
        r is Err ==> r == Err::<Vec<Vec<u8>>, WalletError>(WalletError::UnsupportedAddressType),
        r matches Ok(v) ==> v@.len() == transaction.input@.len() && forall|i: int|
            0 <= i < v@.len() ==> (#[trigger] v@[i])@ == legacy_sighash_of(
                transaction@,
                i as nat,
                own_script@,
            ),
{
    if !check_p2pkh_script(own_script.as_slice()) {
        return Err(WalletError::UnsupportedAddressType);
    }
    let mut r: Vec<Vec<u8>> = Vec::new();
    let mut i: usize = 0;
    while i < transaction.input.len()
        invariant
            transaction.wf(),
            i <= transaction.input@.len(),
            r@.len() == i,
            forall|j: int|
                0 <= j < i ==> (#[trigger] r@[j])@ == legacy_sighash_of(
                    transaction@,
                    j as nat,
                    own_script@,
                ),
        decreases transaction.input@.len() - i,
    {
        r.push(legacy_sighash(transaction, i, own_script));
        i = i + 1;
    }
    Ok(r)
}

/// The P2PKH unlocking script: the DER signature with its SIGHASH_ALL byte, then the key.
pub open spec fn p2pkh_script_sig(signature: Seq<u8>, public_key: Seq<u8>) -> Seq<u8> {
    push_spec(der_of(signature).push(SIGHASH_ALL)) + push_spec(public_key)
}

/// A commit input once signed: the unlocking script filled in and the witness cleared.
pub open spec fn signed_input_spec(i: TxInputView, signature: Seq<u8>, public_key: Seq<u8>) -> TxInputView {
    TxInputView {
        previous_output: i.previous_output,
        script_sig: p2pkh_script_sig(signature, public_key),
        sequence: i.sequence,
        witness: Seq::empty(),
    }
}

/// Every signature is a 64-byte compact signature, one per input.
pub open spec fn signatures_fit(tx: TxView, signatures: Seq<Vec<u8>>) -> bool {
    &&& signatures.len() == tx.input.len()
    &&& forall|i: int| 0 <= i < signatures.len() ==> (#[trigger] signatures[i])@.len() == 64
}

/// Signs every input of a transaction that spends outputs locked to `own_script`, with the
/// compact signatures the oracle returned for the digests of `legacy_sighashes`, in order.
/// Fails with `UnsupportedAddressType` unless `own_script` is a P2PKH locking script, and with
/// `MalformedInput` unless there is one 64-byte signature per input and the key fits a push.
pub fn sign_transaction_p2pkh(
    own_public_key: &Vec<u8>,
    own_script: &Vec<u8>,
    transaction: Tx,
    signatures: &Vec<Vec<u8>>,
) -> (r: Result<Tx, WalletError>)
    requires
        transaction.wf(),
    ensures
        !is_p2pkh_script(own_script@) ==> r == Err::<Tx, WalletError>(
            WalletError::UnsupportedAddressType,
        ),
        is_p2pkh_script(own_script@) && !(signatures_fit(transaction@, signatures@)
            && own_public_key@.len() <= MAX_SCRIPT_ELEMENT_SIZE) ==> r == Err::<Tx, WalletError>(
            WalletError::MalformedInput,
        ),
        r is Ok <==> is_p2pkh_script(own_script@) && signatures_fit(transaction@, signatures@)
            && own_public_key@.len() <= MAX_SCRIPT_ELEMENT_SIZE,
        r matches Ok(t) ==> {
            &&& t.wf()
            &&& t@.version == transaction@.version
            &&& t@.lock_time == transaction@.lock_time
            &&& t@.output == transaction@.output
            &&& t@.input.len() == transaction@.input.len()
            &&& forall|i: int|
                0 <= i < t@.input.len() ==> #[trigger] t@.input[i] == signed_input_spec(
                    transaction@.input[i],
                    signatures@[i]@,
                    own_public_key@,
                )
        },
{
    if !check_p2pkh_script(own_script.as_slice()) {
        return Err(WalletError::UnsupportedAddressType);
    }
    if signatures.len() != transaction.input.len() || own_public_key.len() > MAX_SCRIPT_ELEMENT_SIZE {
        return Err(WalletError::MalformedInput);
    }
    let n = signatures.len();
    let mut k: usize = 0;
    while k < n
        invariant
            n == signatures@.len(),
            n == transaction.input@.len(),
            is_p2pkh_script(own_script@),
            own_public_key@.len() <= MAX_SCRIPT_ELEMENT_SIZE,
            k <= n,
            forall|j: int| 0 <= j < k ==> (#[trigger] signatures@[j])@.len() == 64,
        decreases n - k,
    {
        if signatures[k].len() != 64 {
            return Err(WalletError::MalformedInput);
        }
        k = k + 1;
    }
    let mut input: Vec<TxInput> = Vec::new();
    let mut i: usize = 0;
    while i < n
        invariant
            transaction.wf(),
            n == signatures@.len(),
            n == transaction.input@.len(),
            signatures_fit(transaction@, signatures@),
            own_public_key@.len() <= MAX_SCRIPT_ELEMENT_SIZE,
            i <= n,
            input@.len() == i,
            forall|j: int|
                0 <= j < i ==> (#[trigger] input@[j])@ == signed_input_spec(
                    transaction@.input[j],
                    signatures@[j]@,
                    own_public_key@,
                ),
            forall|j: int| 0 <= j < i ==> (#[trigger] input@[j]).previous_output.txid@.len() == 32,
        decreases n - i,
    {
        let old_input = &transaction.input[i];
        let mut sig = sec1_to_der(copy_bytes(&signatures[i]))?;
        sig.push(SIGHASH_ALL);
        let mut script_sig: Vec<u8> = Vec::new();
        push_data(&mut script_sig, sig.as_slice());
        push_data(&mut script_sig, own_public_key.as_slice());
        let w = empty_witness();
        input.push(
            TxInput {
                previous_output: copy_outpoint(&old_input.previous_output),
                script_sig,
                sequence: old_input.sequence,
                witness: w,
            },
        );
        proof {
            assert(transaction@.input[i as int] == old_input@);
            assert(input@[i as int]@.script_sig =~= p2pkh_script_sig(
                signatures@[i as int]@,
                own_public_key@,
            ));
        }
        i = i + 1;
    }
    let t = Tx { version: transaction.version, input, output: transaction.output, lock_time: transaction.lock_time };
    proof {
        assert forall|j: int| 0 <= j < t@.input.len() implies #[trigger] t@.input[j] == signed_input_spec(
            transaction@.input[j],
            signatures@[j]@,
            own_public_key@,
        ) by {
            assert(t@.input[j] == input@[j]@);
        }
    }
    Ok(t)
}

// ---------------------------------------------------------------------------------------------
// The reveal transaction.

/// The index of the first output from `from` on that pays to `script_pubkey`.
pub open spec fn find_output(outs: Seq<TxOutputView>, script_pubkey: Seq<u8>, from: int) -> Option<int>
    decreases outs.len() - from,
{
    if from < 0 || from >= outs.len() {
        None
    } else if outs[from].script_pubkey == script_pubkey {
        Some(from)
    } else {
        find_output(outs, script_pubkey, from + 1)
    }
}

/// The output that `find_output` locates pays to the script, and no earlier one does; when it
/// locates none, no output pays to it.
pub proof fn lemma_find_output(outs: Seq<TxOutputView>, script_pubkey: Seq<u8>, from: int)
    requires
        0 <= from,
    ensures
        find_output(outs, script_pubkey, from) matches Some(v) ==> from <= v < outs.len()
            && outs[v].script_pubkey == script_pubkey && forall|j: int|
            from <= j < v ==> (#[trigger] outs[j]).script_pubkey != script_pubkey,
        find_output(outs, script_pubkey, from) is None ==> forall|j: int|
            from <= j < outs.len() ==> (#[trigger] outs[j]).script_pubkey != script_pubkey,
    decreases outs.len() - from,
{
    if from < outs.len() && outs[from].script_pubkey != script_pubkey {
        lemma_find_output(outs, script_pubkey, from + 1);
    }
}

/// Whether two byte strings are equal.
pub fn bytes_eq(a: &Vec<u8>, b: &Vec<u8>) -> (r: bool)
    ensures
        r == (a@ == b@),
{
    if a.len() != b.len() {
        return false;
    }
    let mut i: usize = 0;
    while i < a.len()
        invariant
            a@.len() == b@.len(),
            i <= a@.len(),
            forall|j: int| 0 <= j < i ==> a@[j] == b@[j],
        decreases a@.len() - i,
    {
        if a[i] != b[i] {
            return false;
        }
        i = i + 1;
    }
    assert(a@ =~= b@);
    true
}

/// The reveal transaction in full, before its witness.
pub open spec fn reveal_outcome(
    commit: TxView,
    commit_script: Seq<u8>,
    dst: Seq<u8>,
    reveal_fee: u64,
) -> Result<TxView, WalletError> {
    match find_output(commit.output, commit_script, 0) {
        None => Err(WalletError::MalformedInput),
        Some(v) => if v > u32::MAX {
            Err(WalletError::MalformedInput)
        } else if commit.output[v].value < reveal_fee {
            Err(WalletError::InsufficientFunds)
        } else {
            Ok(
                reveal_tx_spec(
                    OutPointView { txid: txid_of(commit), vout: v as u32 },
                    dst,
                    (commit.output[v].value - reveal_fee) as u64,
                    Seq::empty(),
                ),
            )
        },
    }
}

/// Builds the reveal transaction: its single input spends the first output of the signed
/// commit transaction that pays to `commit_script`, identified by the commit transaction's id,
/// and its single output pays that value less `reveal_fee` to `dst_script`.
pub fn build_reveal_transaction(
    commit_tx: &Tx,
    commit_script: &Vec<u8>,
    dst_script: &Vec<u8>,
    reveal_fee: u64,
) -> (r: Result<Tx, WalletError>)
    requires
        commit_tx.wf(),
    ensures
        r is Ok <==> reveal_outcome(commit_tx@, commit_script@, dst_script@, reveal_fee) is Ok,
        r matches Ok(t) ==> Ok::<TxView, WalletError>(t@) == reveal_outcome(
            commit_tx@,
            commit_script@,
            dst_script@,
            reveal_fee,
        ) && t.wf(),
        r matches Err(e) ==> Err::<TxView, WalletError>(e) == reveal_outcome(
            commit_tx@,
            commit_script@,
            dst_script@,
            reveal_fee,
        ),
{
    let ghost outs = commit_tx@.output;
    let mut i: usize = 0;
    let n = commit_tx.output.len();
    while i < n
        invariant
            n == commit_tx.output@.len(),
            outs == commit_tx@.output,
            i <= n,
            find_output(outs, commit_script@, 0) == find_output(outs, commit_script@, i as int),
        ensures
            i <= n,
            find_output(outs, commit_script@, 0) == find_output(outs, commit_script@, i as int),
            i < n ==> outs[i as int].script_pubkey == commit_script@,
        decreases n - i,
    {
        assert(outs[i as int] == commit_tx.output@[i as int]@);
        if bytes_eq(&commit_tx.output[i].script_pubkey, commit_script) {
            break;
        }
        i = i + 1;
    }
    if i == n {
        return Err(WalletError::MalformedInput);
    }
    assert(outs[i as int] == commit_tx.output@[i as int]@);
    if i > u32::MAX as usize {
        return Err(WalletError::MalformedInput);
    }
    let value = commit_tx.output[i].value;
    if value < reveal_fee {
        return Err(WalletError::InsufficientFunds);
    }
    let txid = transaction_id(commit_tx);
    let t = reveal_tx(OutPoint { txid, vout: i as u32 }, dst_script, value - reveal_fee, empty_witness());
    Ok(t)
}

/// The digest the reveal input's Schnorr signature signs: the taproot script-path hash over the
/// commit transaction's outputs and the reveal script. Fails with `MalformedInput` exactly when
/// the commit transaction has not one output per reveal input.
pub fn reveal_sighash(reveal_tx: &Tx, commit_tx: &Tx, reveal_script: &Vec<u8>) -> (r: Result<
    Vec<u8>,
    WalletError,
>)
    requires
        reveal_tx.wf(),
        commit_tx.wf(),
    ensures
        r is Ok <==> commit_tx@.output.len() == reveal_tx@.input.len(),
        r matches Ok(h) ==> h@ == tap_script_sighash_of(
            reveal_tx@,
            0,
            commit_tx@.output,
            reveal_script@,
        ),
        r is Err ==> r == Err::<Vec<u8>, WalletError>(WalletError::MalformedInput),
{
    match tap_script_sighash(reveal_tx, 0, commit_tx, reveal_script) {
        Some(h) => Ok(h),
        None => Err(WalletError::MalformedInput),
    }
}

/// Completes the reveal transaction's witness as `[signature, reveal script, control block]`.
/// Fails with `MalformedInput` unless the transaction has a single input and the signature is
/// 64 bytes.
pub fn attach_reveal_witness(
    reveal_tx: Tx,
    signature: &Vec<u8>,
    reveal_script: &Vec<u8>,
    control_block: &Vec<u8>,
) -> (r: Result<Tx, WalletError>)
    requires
        reveal_tx.wf(),
    ensures
        r is Ok <==> reveal_tx@.input.len() == 1 && signature@.len() == SCHNORR_SIGNATURE_SIZE,
        r is Err ==> r == Err::<Tx, WalletError>(WalletError::MalformedInput),
        r matches Ok(t) ==> t.wf() && t@ == (TxView {
            input: seq![
                TxInputView {
                    witness: seq![signature@, reveal_script@, control_block@],
                    ..reveal_tx@.input[0]
                },
            ],
            ..reveal_tx@
        }),
{
    if reveal_tx.input.len() != 1 || signature.len() != SCHNORR_SIGNATURE_SIZE {
        return Err(WalletError::MalformedInput);
    }
    let old_input = &reveal_tx.input[0];
    let witness = witness_of(copy_bytes(signature), reveal_script, control_block);
    let mut input: Vec<TxInput> = Vec::new();
    input.push(
        TxInput {
            previous_output: copy_outpoint(&old_input.previous_output),
            script_sig: copy_bytes(&old_input.script_sig),
            sequence: old_input.sequence,
            witness,
        },
    );
    let t = Tx { version: reveal_tx.version, input, output: reveal_tx.output, lock_time: reveal_tx.lock_time };
    proof {
        assert(t@.input =~= seq![
            TxInputView {
                witness: seq![signature@, reveal_script@, control_block@],
                ..reveal_tx@.input[0]
            },
        ]);
    }
    Ok(t)
}

/// The reveal transaction spends exactly the commit output that pays to the taproot
/// commitment: its single input names the commit transaction's id and the index of the first
/// output paying to that script, and its output is that value less the reveal fee.
pub proof fn lemma_reveal_spends_commit_output(
    commit: TxView,
    commit_script: Seq<u8>,
    dst: Seq<u8>,
    reveal_fee: u64,
)
    requires
        reveal_outcome(commit, commit_script, dst, reveal_fee) is Ok,
    ensures
        reveal_outcome(commit, commit_script, dst, reveal_fee) matches Ok(t) && t.input.len() == 1
            && exists|v: int|
            0 <= v < commit.output.len() && #[trigger] commit.output[v].script_pubkey
                == commit_script && (forall|j: int|
                0 <= j < v ==> (#[trigger] commit.output[j]).script_pubkey != commit_script)
                && t.input[0].previous_output == (OutPointView { txid: txid_of(commit), vout: v as u32 })
                && t.output[0].value + reveal_fee == commit.output[v].value,
{
    lemma_find_output(commit.output, commit_script, 0);
    let v = find_output(commit.output, commit_script, 0)->0;
    let t = reveal_outcome(commit, commit_script, dst, reveal_fee)->Ok_0;
    assert(commit.output[v].script_pubkey == commit_script);
    assert(t.input[0].previous_output == (OutPointView { txid: txid_of(commit), vout: v as u32 }));
}

/// Fee accounting of the pair: the commit output plus the commit fee is the total of the spent
/// outputs, and the reveal output plus the reveal fee is the commit output, where each fee is
/// the fee rate times the vsize of its transaction (the commit's with one legacy signature
/// added, the reveal's with a dummy witness of the right size).
pub proof fn lemma_fee_accounting(
    us: Seq<Utxo>,
    fee_rate: u64,
    commit_script: Seq<u8>,
    dst: Seq<u8>,
    script: Seq<u8>,
    control_block: Seq<u8>,
)
    requires
        plan_fits(us, fee_rate, commit_script, dst, script, control_block),
        fee_rate * commit_vbytes(us, commit_script) + fee_rate * reveal_vbytes(
            dst,
            script,
            control_block,
        ) <= sum_values(us),
    ensures
        commit_tx_spec(
            us,
            commit_script,
            (sum_values(us) - fee_rate * commit_vbytes(us, commit_script)) as u64,
        ).output[0].value + fee_rate * commit_vbytes(us, commit_script) == sum_values(us),
        reveal_outcome(
            commit_tx_spec(
                us,
                commit_script,
                (sum_values(us) - fee_rate * commit_vbytes(us, commit_script)) as u64,
            ),
            commit_script,
            dst,
            (fee_rate * reveal_vbytes(dst, script, control_block)) as u64,
        ) matches Ok(t) && t.output[0].value + fee_rate * reveal_vbytes(dst, script, control_block)
            == sum_values(us) - fee_rate * commit_vbytes(us, commit_script),
{
    let commit = commit_tx_spec(
        us,
        commit_script,
        (sum_values(us) - fee_rate * commit_vbytes(us, commit_script)) as u64,
    );
    assert(find_output(commit.output, commit_script, 0) == Some(0int));
}

/// The shape of the commit transaction does not depend on its output value.
proof fn lemma_commit_shape(us: Seq<Utxo>, commit_script: Seq<u8>, v1: u64, v2: u64)
    ensures
        tx_shape(commit_tx_spec(us, commit_script, v1)) == tx_shape(
            commit_tx_spec(us, commit_script, v2),
        ),
{
    let a = tx_shape(commit_tx_spec(us, commit_script, v1));
    let b = tx_shape(commit_tx_spec(us, commit_script, v2));
    assert(a.input =~= b.input);
    assert(a.output =~= b.output);
}

/// The reveal fee is measured on the final reveal transaction: once its witness holds a
/// 64-byte signature, the script and the control block, it has the shape, and so the vsize, of
/// the dummy-witness transaction the fee was priced on, whatever it spends and whatever it pays.
pub proof fn lemma_reveal_fee_measures_final(
    prev: OutPointView,
    dst: Seq<u8>,
    value: u64,
    signature: Seq<u8>,
    script: Seq<u8>,
    control_block: Seq<u8>,
)
    requires
        prev.txid.len() == 32,
        signature.len() == SCHNORR_SIGNATURE_SIZE,
    ensures
        reveal_vbytes(dst, script, control_block) == vsize_of(
            tx_shape(reveal_tx_spec(prev, dst, value, seq![signature, script, control_block])),
        ),
{
    let a = tx_shape(reveal_tx_spec(prev, dst, value, seq![signature, script, control_block]));
    let b = tx_shape(dummy_reveal_spec(dst, script, control_block));
    let wa = seq![signature, script, control_block].map_values(|w: Seq<u8>| zeros(w.len()));
    let wb = seq![zeros(SCHNORR_SIGNATURE_SIZE as nat), script, control_block].map_values(
        |w: Seq<u8>| zeros(w.len()),
    );
    assert(wa =~= wb);
    assert(zeros(prev.txid.len()) =~= zeros(null_outpoint().txid.len()));
    assert(a.input[0] == b.input[0]);
    assert(a.input =~= b.input);
    assert(a.output =~= b.output);
}

} // verus!
