use inscriber::address::p2pkh_script_pubkey;
use inscriber::builder::{
    attach_reveal_witness, build_reveal_transaction, commit_to_script, destination_script,
    estimate_reveal_fee, fee_for, legacy_sighashes, plan_inscription, reveal_script,
    reveal_sighash, sign_transaction_p2pkh, InscriptionPlan,
};
use inscriber::error::WalletError;
use inscriber::inscription::Inscription;
use inscriber::keys::sign_schnorr;
use inscriber::transaction::{OutPoint, Tx, TxInput, TxOutput, Utxo};

fn sec1_key() -> Vec<u8> {
    hex::decode("0279be667ef9dcbbac55a06295ce870b07029bfcdb2dce28d959f2815b16f81798").unwrap()
}

fn xonly_key() -> Vec<u8> {
    sec1_key()[1..].to_vec()
}

fn internal_key() -> Vec<u8> {
    hex::decode("50929b74c1a04954b78b4b6035e97a5e078a5a0f28ec96d547bfee9ace803ac0").unwrap()
}

fn secret_one() -> Vec<u8> {
    let mut k = vec![0u8; 32];
    k[31] = 1;
    k
}

fn utxo(value: u64, id: u8) -> Utxo {
    Utxo { outpoint: OutPoint { txid: vec![id; 32], vout: 1 }, value, height: 100 }
}

fn text_script() -> Vec<u8> {
    let ins = Inscription::new(Some(b"text/plain".to_vec()), Some(b"hi".to_vec()));
    reveal_script(&ins, &xonly_key()).unwrap()
}

fn plan(utxos: &Vec<Utxo>, fee_rate: u64) -> (Result<InscriptionPlan, WalletError>, Vec<u8>, Vec<u8>) {
    let script = text_script();
    let c = commit_to_script(&script, &internal_key()).unwrap();
    let own = p2pkh_script_pubkey(&sec1_key());
    (plan_inscription(utxos, fee_rate, &c.script_pubkey, &own, &script, &c.control_block), c.script_pubkey, c.control_block)
}

#[test]
fn reveal_script_layout() {
    let s = text_script();
    assert_eq!(s.len(), 58);
    assert_eq!(&s[24..26], &[0x20, 0x79]);
    assert_eq!(*s.last().unwrap(), 0xac);
    let ins = Inscription::new(None, None);
    assert_eq!(reveal_script(&ins, &sec1_key()), Err(WalletError::MalformedInput));
}

#[test]
fn taproot_commitment_shape() {
    let c = commit_to_script(&text_script(), &internal_key()).unwrap();
    assert_eq!(c.script_pubkey.len(), 34);
    assert_eq!(&c.script_pubkey[..2], &[0x51, 0x20]);
    assert_eq!(c.control_block.len(), 33);
    assert!(commit_to_script(&text_script(), &vec![0u8; 5]).is_err());
}

#[test]
fn fee_is_rate_times_vbytes() {
    assert_eq!(fee_for(10, 126), Some(1260));
    assert_eq!(fee_for(0, 126), Some(0));
    assert_eq!(fee_for(u64::MAX, 2), None);
}

#[test]
fn reveal_fee_uses_dummy_witness() {
    let script = text_script();
    let c = commit_to_script(&script, &internal_key()).unwrap();
    let own = p2pkh_script_pubkey(&sec1_key());
    assert_eq!(estimate_reveal_fee(10, &own, &script, &c.control_block), Some(1260));
    assert_eq!(estimate_reveal_fee(1, &own, &script, &c.control_block), Some(126));
}

#[test]
fn plan_fee_accounting() {
    let utxos = vec![utxo(100_000, 7)];
    let (p, spk, _) = plan(&utxos, 10);
    let p = p.unwrap();
    assert_eq!(p.total, 100_000);
    assert_eq!(p.commit_fee, 1670);
    assert_eq!(p.reveal_fee, 1260);
    assert_eq!(p.commit_tx.output.len(), 1);
    assert_eq!(p.commit_tx.output[0].value + p.commit_fee, p.total);
    assert_eq!(p.commit_tx.output[0].script_pubkey, spk);
    assert_eq!(p.commit_tx.version, 2);
    assert_eq!(p.commit_tx.lock_time, 0);
    assert_eq!(p.commit_tx.input[0].sequence, 0);
}

#[test]
fn plan_spends_all_outputs_oldest_first() {
    let utxos = vec![utxo(30_000, 1), utxo(40_000, 2), utxo(50_000, 3)];
    let (p, _, _) = plan(&utxos, 2);
    let p = p.unwrap();
    assert_eq!(p.total, 120_000);
    let ids: Vec<u8> = p.commit_tx.input.iter().map(|i| i.previous_output.txid[0]).collect();
    assert_eq!(ids, vec![3, 2, 1]);
}

#[test]
fn plan_insufficient_funds() {
    let utxos = vec![utxo(2_000, 7)];
    let (p, _, _) = plan(&utxos, 10);
    assert!(matches!(p, Err(WalletError::InsufficientFunds)));
    let (empty, _, _) = plan(&Vec::new(), 10);
    assert!(matches!(empty, Err(WalletError::InsufficientFunds)));
}

#[test]
fn plan_refuses_bad_ids_and_overflow() {
    let bad = vec![Utxo { outpoint: OutPoint { txid: vec![1; 31], vout: 0 }, value: 10, height: 1 }];
    let (p, _, _) = plan(&bad, 1);
    assert!(matches!(p, Err(WalletError::MalformedInput)));
    let big = vec![utxo(u64::MAX, 1), utxo(1, 2)];
    let (q, _, _) = plan(&big, 1);
    assert!(matches!(q, Err(WalletError::MalformedInput)));
}

#[test]
fn signing_requires_p2pkh_script() {
    let utxos = vec![utxo(100_000, 7)];
    let (p, spk, _) = plan(&utxos, 10);
    let p = p.unwrap();
    let sigs = vec![vec![0x11u8; 64]];
    let r = sign_transaction_p2pkh(&sec1_key(), &spk, p.commit_tx.clone(), &sigs);
    assert!(matches!(r, Err(WalletError::UnsupportedAddressType)));
    let own = p2pkh_script_pubkey(&sec1_key());
    let short = vec![vec![0x11u8; 63]];
    assert!(matches!(sign_transaction_p2pkh(&sec1_key(), &own, p.commit_tx.clone(), &short), Err(WalletError::MalformedInput)));
    assert!(matches!(sign_transaction_p2pkh(&sec1_key(), &own, p.commit_tx, &Vec::new()), Err(WalletError::MalformedInput)));
}

#[test]
fn signed_commit_script_sig() {
    let utxos = vec![utxo(100_000, 7), utxo(5_000, 8)];
    let (p, _, _) = plan(&utxos, 10);
    let p = p.unwrap();
    let own = p2pkh_script_pubkey(&sec1_key());
    let digests = legacy_sighashes(&p.commit_tx, &own).unwrap();
    assert_eq!(digests.len(), 2);
    assert_eq!(digests[0].len(), 32);
    assert_ne!(digests[0], digests[1]);
    let sigs = vec![vec![0x11u8; 64], vec![0x22u8; 64]];
    let t = sign_transaction_p2pkh(&sec1_key(), &own, p.commit_tx.clone(), &sigs).unwrap();
    let ss = &t.input[0].script_sig;
    assert_eq!(ss[0], 71);
    assert_eq!(ss[1], 0x30);
    assert_eq!(ss[71], 0x01);
    assert_eq!(ss[72], 33);
    assert_eq!(&ss[73..], &sec1_key()[..]);
    assert!(t.input[1].witness.is_empty());
    assert_eq!(t.output, p.commit_tx.output);
    // Signatures do not change the digests of the other inputs.
    assert_eq!(legacy_sighashes(&t, &own).unwrap()[1], digests[1]);
}

#[test]
fn end_to_end_commit_and_reveal() {
    let utxos = vec![utxo(100_000, 7)];
    let script = text_script();
    let c = commit_to_script(&script, &internal_key()).unwrap();
    let own = p2pkh_script_pubkey(&sec1_key());
    let p = plan_inscription(&utxos, 10, &c.script_pubkey, &own, &script, &c.control_block).unwrap();
    let sigs = vec![vec![0x11u8; 64]];
    let commit = sign_transaction_p2pkh(&sec1_key(), &own, p.commit_tx.clone(), &sigs).unwrap();
    let reveal = build_reveal_transaction(&commit, &c.script_pubkey, &own, p.reveal_fee).unwrap();
    assert_eq!(reveal.input.len(), 1);
    assert_eq!(reveal.input[0].previous_output.vout, 0);
    assert_eq!(reveal.input[0].previous_output.txid.len(), 32);
    assert_eq!(reveal.input[0].sequence, 0xFFFF_FFFD);
    assert_eq!(reveal.output[0].value, 100_000 - 1670 - 1260);
    assert_eq!(reveal.output[0].value + p.reveal_fee, commit.output[0].value);
    assert!(commit.output[0].value > 0 && reveal.output[0].value > 0);
    let digest = reveal_sighash(&reveal, &commit, &script).unwrap();
    assert_eq!(digest.len(), 32);
    let sig = sign_schnorr(&secret_one(), &digest).unwrap();
    let done = attach_reveal_witness(reveal.clone(), &sig, &script, &c.control_block).unwrap();
    assert_eq!(done.input[0].witness, vec![sig.clone(), script.clone(), c.control_block.clone()]);
    assert_eq!(done.output, reveal.output);
    assert!(attach_reveal_witness(reveal, &vec![0u8; 65], &script, &c.control_block).is_err());
}

#[test]
fn reveal_finds_commit_output_by_script() {
    let other = TxOutPair::new();
    let reveal = build_reveal_transaction(&other.tx, &other.target, &vec![0x51], 100).unwrap();
    assert_eq!(reveal.input[0].previous_output.vout, 2);
    assert_eq!(reveal.output[0].value, 900);
    assert!(matches!(build_reveal_transaction(&other.tx, &vec![0x00], &vec![0x51], 1), Err(WalletError::MalformedInput)));
    assert!(matches!(build_reveal_transaction(&other.tx, &other.target, &vec![0x51], 1001), Err(WalletError::InsufficientFunds)));
}

struct TxOutPair {
    tx: Tx,
    target: Vec<u8>,
}

impl TxOutPair {
    fn new() -> TxOutPair {
        let target = vec![0x51, 0x20, 9, 9];
        let tx = Tx {
            version: 2,
            input: vec![TxInput { previous_output: OutPoint { txid: vec![4; 32], vout: 0 }, script_sig: vec![], sequence: 0, witness: vec![] }],
            output: vec![
                TxOutput { value: 5, script_pubkey: vec![0x6a] },
                TxOutput { value: 6, script_pubkey: vec![0x51, 0x20] },
                TxOutput { value: 1000, script_pubkey: target.clone() },
                TxOutput { value: 7, script_pubkey: target.clone() },
            ],
            lock_time: 0,
        };
        TxOutPair { tx, target }
    }
}

#[test]
fn destination_address_script() {
    let s = destination_script(&"1BgGZ9tcN4rm9KBzDn7KprQz87SZ26SAMH".to_string()).unwrap();
    assert_eq!(s, p2pkh_script_pubkey(&sec1_key()));
    assert!(destination_script(&"not an address".to_string()).is_err());
}

#[test]
fn legacy_sighashes_refuse_non_p2pkh() {
    let utxos = vec![utxo(100_000, 7)];
    let (p, spk, _) = plan(&utxos, 10);
    let p = p.unwrap();
    assert_eq!(legacy_sighashes(&p.commit_tx, &spk), Err(WalletError::UnsupportedAddressType));
}

#[test]
fn commit_fee_reserves_a_signature_per_input() {
    let utxos = vec![utxo(60_000, 1), utxo(40_000, 2)];
    let (p, _, _) = plan(&utxos, 10);
    let p = p.unwrap();
    assert_eq!(p.commit_fee, 10 * (135 + 2 * 73));
    assert_eq!(p.commit_tx.output[0].value, 100_000 - 2810);
}

#[test]
fn reveal_sighash_needs_one_prevout_per_input() {
    let utxos = vec![utxo(100_000, 7)];
    let script = text_script();
    let c = commit_to_script(&script, &internal_key()).unwrap();
    let own = p2pkh_script_pubkey(&sec1_key());
    let p = plan_inscription(&utxos, 10, &c.script_pubkey, &own, &script, &c.control_block).unwrap();
    let reveal = build_reveal_transaction(&p.commit_tx, &c.script_pubkey, &own, p.reveal_fee).unwrap();
    let mut two = p.commit_tx.clone();
    two.output.push(TxOutput { value: 1, script_pubkey: vec![0x6a] });
    assert_eq!(reveal_sighash(&reveal, &two, &script), Err(WalletError::MalformedInput));
    assert!(reveal_sighash(&reveal, &p.commit_tx, &script).is_ok());
}
