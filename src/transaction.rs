//! The transaction model, and what the consensus encoding computes over it.
use vstd::prelude::*;

verus! {

/// Sequence number of the commit transaction's inputs.
pub const SEQUENCE_ZERO: u32 = 0;

/// Sequence number that signals replaceability and disables the absolute lock time.
pub const SEQUENCE_RBF_NO_LOCKTIME: u32 = 0xFFFF_FFFD;

/// The transaction version used for both transactions.
pub const TX_VERSION: i32 = 2;

/// A reference to an output of an earlier transaction.
#[derive(Clone, Debug, PartialEq, Eq)]
pub struct OutPoint {
    /// The 32-byte transaction id, in internal byte order.
    pub txid: Vec<u8>,
    pub vout: u32,
}

/// A transaction input.
#[derive(Clone, Debug, PartialEq, Eq)]
pub struct TxInput {
    pub previous_output: OutPoint,
    pub script_sig: Vec<u8>,
    pub sequence: u32,
    pub witness: Vec<Vec<u8>>,
}

/// A transaction output.
#[derive(Clone, Debug, PartialEq, Eq)]
pub struct TxOutput {
    pub value: u64,
    pub script_pubkey: Vec<u8>,
}

/// A transaction: version, inputs, outputs and absolute lock time.
#[derive(Clone, Debug, PartialEq, Eq)]
pub struct Tx {
    pub version: i32,
    pub input: Vec<TxInput>,
    pub output: Vec<TxOutput>,
    pub lock_time: u32,
}

/// An unspent output owned by the wallet.
#[derive(Clone, Debug, PartialEq, Eq)]
pub struct Utxo {
    pub outpoint: OutPoint,
    pub value: u64,
    pub height: u32,
}

pub struct OutPointView {
    pub txid: Seq<u8>,
    pub vout: u32,
}

pub struct TxInputView {
    pub previous_output: OutPointView,
    pub script_sig: Seq<u8>,
    pub sequence: u32,
    pub witness: Seq<Seq<u8>>,
}

pub struct TxOutputView {
    pub value: u64,
    pub script_pubkey: Seq<u8>,
}

pub struct TxView {
    pub version: i32,
    pub input: Seq<TxInputView>,
    pub output: Seq<TxOutputView>,
    pub lock_time: u32,
}

impl View for OutPoint {
    type V = OutPointView;

    open spec fn view(&self) -> OutPointView {
        OutPointView { txid: self.txid@, vout: self.vout }
    }
}

impl View for TxInput {
    type V = TxInputView;

    open spec fn view(&self) -> TxInputView {
        TxInputView {
            previous_output: self.previous_output@,
            script_sig: self.script_sig@,
            sequence: self.sequence,
            witness: self.witness@.map_values(|w: Vec<u8>| w@),
        }
    }
}

impl View for TxOutput {
    type V = TxOutputView;

    open spec fn view(&self) -> TxOutputView {
        TxOutputView { value: self.value, script_pubkey: self.script_pubkey@ }
    }
}

impl View for Tx {
    type V = TxView;

    open spec fn view(&self) -> TxView {
        TxView {
            version: self.version,
            input: self.input@.map_values(|i: TxInput| i@),
            output: self.output@.map_values(|o: TxOutput| o@),
            lock_time: self.lock_time,
        }
    }
}

impl Tx {
    /// Every referenced transaction id has 32 bytes.
    pub open spec fn wf(&self) -> bool {
        forall|i: int|
            0 <= i < self.input@.len() ==> (#[trigger] self.input@[i]).previous_output.txid@.len()
                == 32
    }
}

/// The virtual size of a transaction, in vbytes.
pub uninterp spec fn vsize_of(tx: TxView) -> nat;

/// `n` zero bytes.
pub open spec fn zeros(n: nat) -> Seq<u8> {
    Seq::new(n, |i: int| 0u8)
}

/// An input with its contents zeroed and every length kept.
pub open spec fn input_shape(i: TxInputView) -> TxInputView {
    TxInputView {
        previous_output: OutPointView { txid: zeros(i.previous_output.txid.len()), vout: 0 },
        script_sig: zeros(i.script_sig.len()),
        sequence: 0,
        witness: i.witness.map_values(|w: Seq<u8>| zeros(w.len())),
    }
}

/// An output with its contents zeroed and every length kept.
pub open spec fn output_shape(o: TxOutputView) -> TxOutputView {
    TxOutputView { value: 0, script_pubkey: zeros(o.script_pubkey.len()) }
}

/// What the size of a transaction depends on: every field zeroed, every length kept. The
/// consensus encoding writes the version, lock time, values, sequence numbers and output
/// indexes in fixed widths, and every byte string and list with its length, so a transaction
/// and its shape have the same size.
pub open spec fn tx_shape(tx: TxView) -> TxView {
    TxView {
        version: 0,
        input: tx.input.map_values(|i: TxInputView| input_shape(i)),
        output: tx.output.map_values(|o: TxOutputView| output_shape(o)),
        lock_time: 0,
    }
}

/// The id of a transaction: the double SHA-256 of its encoding without witnesses.
pub uninterp spec fn txid_of(tx: TxView) -> Seq<u8>;

/// The legacy signature hash of an input with SIGHASH_ALL, signing `script_pubkey`.
pub uninterp spec fn legacy_sighash_of(tx: TxView, index: nat, script_pubkey: Seq<u8>) -> Seq<u8>;

/// The taproot script-path signature hash of an input, default sighash type, over all the
/// previous outputs `prevouts` and the leaf `script`.
pub uninterp spec fn tap_script_sighash_of(
    tx: TxView,
    index: nat,
    prevouts: Seq<TxOutputView>,
    script: Seq<u8>,
) -> Seq<u8>;

/// Rebuilds the transaction, field for field, in the consensus types of `bitcoin` (its
/// struct literals, `Txid::from_slice`, `ScriptBuf::from_bytes`, `Witness::from_slice`,
/// `Amount::from_sat`). `Txid::from_slice` fails only on an id that is not 32 bytes long, which
/// `wf` rules out. Shared by the wrappers below; it computes nothing.
#[verifier::external_body]
fn consensus_tx(tx: &Tx) -> bitcoin::Transaction
    requires
        tx.wf(),
{
    bitcoin::Transaction {
        version: bitcoin::transaction::Version(tx.version),
        lock_time: bitcoin::absolute::LockTime::from_consensus(tx.lock_time),
        input: tx.input.iter().map(|i| bitcoin::TxIn {
            previous_output: bitcoin::OutPoint::new(<bitcoin::Txid as bitcoin::hashes::Hash>::from_slice(&i.previous_output.txid).unwrap(), i.previous_output.vout),
            script_sig: bitcoin::ScriptBuf::from_bytes(i.script_sig.clone()),
            sequence: bitcoin::Sequence(i.sequence),
            witness: bitcoin::Witness::from_slice(&i.witness),
        }).collect(),
        output: tx.output.iter().map(|o| bitcoin::TxOut {
            value: bitcoin::Amount::from_sat(o.value),
            script_pubkey: bitcoin::ScriptBuf::from_bytes(o.script_pubkey.clone()),
        }).collect(),
    }
}

#[verifier::external_type_specification]
#[verifier::external_body]
pub struct ExConsensusTransaction(bitcoin::Transaction);

/// Relies on `bitcoin::Transaction::vsize`: the virtual size of the transaction, which is that
/// of its shape (`weight` counts serialized bytes only).
#[verifier::external_body]
pub(crate) fn transaction_vsize(tx: &Tx) -> (r: u64)
    requires
        tx.wf(),
    ensures
        r == vsize_of(tx_shape(tx@)),
{
    consensus_tx(tx).vsize() as u64
}

/// Relies on `bitcoin::Transaction::txid`: the 32-byte id of the transaction.
#[verifier::external_body]
pub(crate) fn transaction_id(tx: &Tx) -> (r: Vec<u8>)
    requires
        tx.wf(),
    ensures
        r@ == txid_of(tx@),
        r@.len() == 32,
{
    bitcoin::hashes::Hash::to_byte_array(consensus_tx(tx).txid()).to_vec()
}

/// Relies on `bitcoin::sighash::SighashCache::legacy_signature_hash` with SIGHASH_ALL, which
/// fails only for an input index out of range.
#[verifier::external_body]
pub(crate) fn legacy_sighash(tx: &Tx, index: usize, script_pubkey: &Vec<u8>) -> (r: Vec<u8>)
    requires
        tx.wf(),
        index < tx.input@.len(),
    ensures
        r@ == legacy_sighash_of(tx@, index as nat, script_pubkey@),
        r@.len() == 32,
{
    let tx = consensus_tx(tx);
    let cache = bitcoin::sighash::SighashCache::new(&tx);
    let spk = bitcoin::Script::from_bytes(script_pubkey);
    bitcoin::hashes::Hash::to_byte_array(cache.legacy_signature_hash(index, spk, 1).unwrap()).to_vec()
}

/// Relies on `bitcoin::sighash::SighashCache::taproot_script_spend_signature_hash` with
/// `Prevouts::All` and the default sighash type. With that type it fails only when the number of
/// previous outputs differs from the number of inputs, and then this is `None`.
#[verifier::external_body]
pub(crate) fn tap_script_sighash(tx: &Tx, index: usize, prev: &Tx, script: &Vec<u8>) -> (r: Option<Vec<u8>>)
    requires
        tx.wf(),
        prev.wf(),
    ensures
        r.is_some() == (prev@.output.len() == tx@.input.len()),
        r matches Some(h) ==> h@ == tap_script_sighash_of(tx@, index as nat, prev@.output, script@),
{
    let mut tx = consensus_tx(tx);
    let prevouts = consensus_tx(prev).output;
    let leaf = bitcoin::TapLeafHash::from_script(bitcoin::Script::from_bytes(script), bitcoin::taproot::LeafVersion::TapScript);
    let mut cache = bitcoin::sighash::SighashCache::new(&mut tx);
    let h = cache.taproot_script_spend_signature_hash(index, &bitcoin::sighash::Prevouts::All(&prevouts), leaf, bitcoin::TapSighashType::Default);
    h.ok().map(|h| bitcoin::hashes::Hash::to_byte_array(h).to_vec())
}

} // verus!
