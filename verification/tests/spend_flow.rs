use bitcoin_wallet::builder::{assemble_transaction, build_unsigned, sighash};
use bitcoin_wallet::codec::serialize_transaction;
use bitcoin_wallet::select::select_utxos;
use bitcoin_wallet::spend::{finish_spend, plan_spend, SpendPhase, SpendTracker};
use bitcoin_wallet::types::{Utxo, WalletError};

fn utxo(tag: u8, vout: u32, value: u64) -> Utxo {
    Utxo { txid: vec![tag; 32], vout, value, height: 100 }
}

fn own_script() -> Vec<u8> {
    bitcoin_wallet::address::p2pkh_script_for_pubkey(&vec![0x02; 33])
}

fn dest_script() -> Vec<u8> {
    bitcoin_wallet::address::p2pkh_script_for_pubkey(&vec![0x03; 33])
}

#[test]
fn spend_of_40000_uses_single_largest_utxo() {
    let utxos = vec![utxo(0xaa, 0, 50000), utxo(0xbb, 1, 30000), utxo(0xcc, 2, 10000)];
    // Percentiles in millisatoshi per vbyte; the median 5000 is 5 sat/vbyte.
    let percentiles: Vec<u64> = vec![5000];
    let plan = plan_spend(&utxos, &percentiles, &dest_script(), 40000, &own_script()).unwrap();
    // One input suffices: the 50000-sat output alone.
    assert_eq!(plan.tx.inputs.len(), 1);
    assert_eq!(plan.tx.inputs[0].txid, vec![0xaa; 32]);
    assert_eq!(plan.tx.inputs[0].vout, 0);
    // Fee model: (10 + 148 * 1 + 34 * 2) * 5 = 1130 satoshi.
    assert_eq!(plan.fee, 1130);
    assert_eq!(plan.total, 50000);
    assert_eq!(plan.change, 50000 - 40000 - 1130);
    // Destination output first, change output second.
    assert_eq!(plan.tx.outputs.len(), 2);
    assert_eq!(plan.tx.outputs[0].value, 40000);
    assert_eq!(plan.tx.outputs[0].script_pubkey, dest_script());
    assert_eq!(plan.tx.outputs[1].value, 8870);
    assert_eq!(plan.tx.outputs[1].script_pubkey, own_script());
    // One digest per input, matching a direct sighash computation.
    assert_eq!(plan.digests.len(), 1);
    assert_eq!(plan.digests[0], sighash(&plan.tx, 0, &own_script()));
}

#[test]
fn spend_of_a_million_reports_insufficient_funds() {
    let utxos = vec![utxo(0xaa, 0, 50000), utxo(0xbb, 1, 30000), utxo(0xcc, 2, 10000)];
    let percentiles: Vec<u64> = vec![5000];
    let r = plan_spend(&utxos, &percentiles, &dest_script(), 1_000_000, &own_script());
    assert_eq!(r.err(), Some(WalletError::InsufficientFunds));
}

#[test]
fn dust_change_is_folded_into_the_fee() {
    let utxos = vec![utxo(0xaa, 0, 1000)];
    // 1000 millisat per vbyte is 1 sat/vbyte.
    let percentiles: Vec<u64> = vec![1000];
    let plan = plan_spend(&utxos, &percentiles, &dest_script(), 500, &own_script()).unwrap();
    // Estimated fee (10 + 148 + 68) * 1 = 226; raw change 274 is dust.
    assert_eq!(plan.change, 0);
    assert_eq!(plan.fee, 500);
    assert_eq!(plan.tx.outputs.len(), 1);
    assert_eq!(plan.tx.outputs[0].value, 500);
}

#[test]
fn selection_is_stable_for_equal_values() {
    let utxos = vec![utxo(0xaa, 0, 7000), utxo(0xbb, 1, 7000)];
    let sel = select_utxos(&utxos, 10000, 1).unwrap();
    assert_eq!(sel.chosen.len(), 2);
    assert_eq!(sel.chosen[0].txid, vec![0xaa; 32]);
    assert_eq!(sel.chosen[1].txid, vec![0xbb; 32]);
    assert_eq!(sel.total, 14000);
    // Fee for 2 inputs and 2 outputs at 1 sat/vbyte.
    assert_eq!(sel.fee, 10 + 148 * 2 + 34 * 2);
    assert_eq!(sel.change, sel.total - 10000 - sel.fee);
}

#[test]
fn selection_sorts_by_descending_value() {
    let utxos = vec![utxo(0x01, 0, 10), utxo(0x02, 1, 90000), utxo(0x03, 2, 500)];
    let sel = select_utxos(&utxos, 40000, 5).unwrap();
    assert_eq!(sel.chosen.len(), 1);
    assert_eq!(sel.chosen[0].txid, vec![0x02; 32]);
}

#[test]
fn empty_candidate_set_cannot_fund_a_spend() {
    let utxos: Vec<Utxo> = Vec::new();
    let r = select_utxos(&utxos, 1, 1);
    assert_eq!(r.err(), Some(WalletError::InsufficientFunds));
}

#[test]
fn all_signatures_present_assembles_and_serializes() {
    let chosen = vec![utxo(0xaa, 0, 50000), utxo(0xbb, 1, 30000)];
    let tx = build_unsigned(&chosen, &dest_script(), 60000, &own_script(), 10000);
    let pubkey = vec![0x02; 33];
    let sig_a = vec![0x30; 70];
    let sig_b = vec![0x31; 70];
    let outcomes = vec![Some(sig_a.clone()), Some(sig_b.clone())];
    let bytes = finish_spend(&tx, &outcomes, &pubkey).unwrap();
    let assembled = assemble_transaction(&tx, &vec![sig_a, sig_b], &pubkey);
    assert_eq!(bytes, serialize_transaction(&assembled));
    // The unlocking script is push(signature + mode byte) then push(key).
    assert_eq!(assembled.inputs[0].script_sig[0], 71);
    assert_eq!(assembled.inputs[0].script_sig[71], 0x01);
    assert_eq!(assembled.inputs[0].script_sig[72], 33);
}

#[test]
fn any_failed_signature_aborts_the_whole_spend() {
    let chosen = vec![utxo(0xaa, 0, 50000), utxo(0xbb, 1, 30000), utxo(0xcc, 2, 10000)];
    let tx = build_unsigned(&chosen, &dest_script(), 80000, &own_script(), 5000);
    let pubkey = vec![0x02; 33];
    let sig = vec![0x30; 70];
    for k in 0..3 {
        let mut outcomes: Vec<Option<Vec<u8>>> = vec![
            Some(sig.clone()),
            Some(sig.clone()),
            Some(sig.clone()),
        ];
        outcomes[k] = None;
        let r = finish_spend(&tx, &outcomes, &pubkey);
        // No transaction is assembled; the first failing input is named.
        assert_eq!(r.err(), Some(WalletError::SigningFailed(k)));
    }
}

#[test]
fn spend_tracker_walks_the_stages_in_order() {
    let mut t = SpendTracker::start();
    assert_eq!(t.phase, SpendPhase::Selecting);
    t.selected();
    assert_eq!(t.phase, SpendPhase::Building);
    t.built(2);
    assert_eq!(t.phase, SpendPhase::Signing);
    t.signature_collected();
    assert_eq!(t.phase, SpendPhase::Signing);
    assert_eq!(t.signed, 1);
    t.signature_collected();
    assert_eq!(t.phase, SpendPhase::Assembling);
    t.assembled();
    assert_eq!(t.phase, SpendPhase::Broadcasting);
    t.broadcast_done();
    assert_eq!(t.phase, SpendPhase::Done);
}

#[test]
fn spend_tracker_aborts_on_a_signing_failure() {
    let mut t = SpendTracker::start();
    t.selected();
    t.built(3);
    t.signature_collected();
    t.signing_failed();
    assert_eq!(t.phase, SpendPhase::Failed);
}
