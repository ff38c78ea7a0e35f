use bitcoin_wallet::broadcast::transaction_id;
use bitcoin_wallet::builder::{build_unsigned, sighash};
use bitcoin_wallet::codec::{parse_transaction, serialize_transaction};
use bitcoin_wallet::types::{Transaction, TxIn, TxOut, Utxo};
use sha2::Digest;

fn sample_tx() -> Transaction {
    Transaction {
        version: 1,
        inputs: vec![
            TxIn { txid: vec![0x11; 32], vout: 0, script_sig: vec![1, 2, 3], sequence: 0xffff_ffff },
            TxIn { txid: vec![0x22; 32], vout: 7, script_sig: Vec::new(), sequence: 0xffff_fffe },
        ],
        outputs: vec![
            TxOut { value: 40000, script_pubkey: vec![0x76, 0xa9, 0x00] },
            TxOut { value: 8870, script_pubkey: vec![0xac; 300] },
        ],
        lock_time: 0,
    }
}

fn assert_same_tx(a: &Transaction, b: &Transaction) {
    assert_eq!(a.version, b.version);
    assert_eq!(a.lock_time, b.lock_time);
    assert_eq!(a.inputs.len(), b.inputs.len());
    for (x, y) in a.inputs.iter().zip(b.inputs.iter()) {
        assert_eq!(x.txid, y.txid);
        assert_eq!(x.vout, y.vout);
        assert_eq!(x.script_sig, y.script_sig);
        assert_eq!(x.sequence, y.sequence);
    }
    assert_eq!(a.outputs.len(), b.outputs.len());
    for (x, y) in a.outputs.iter().zip(b.outputs.iter()) {
        assert_eq!(x.value, y.value);
        assert_eq!(x.script_pubkey, y.script_pubkey);
    }
}

#[test]
fn serialization_round_trips() {
    let tx = sample_tx();
    let bytes = serialize_transaction(&tx);
    let back = parse_transaction(&bytes).expect("serialized transaction must parse");
    assert_same_tx(&tx, &back);
}

#[test]
fn assembled_spend_round_trips() {
    let chosen = vec![
        Utxo { txid: vec![0xaa; 32], vout: 0, value: 50000, height: 9 },
        Utxo { txid: vec![0xbb; 32], vout: 3, value: 30000, height: 9 },
    ];
    let dest = vec![0x76, 0xa9, 0x14, 0x00, 0x88, 0xac];
    let change_script = vec![0x76, 0xa9, 0x14, 0x01, 0x88, 0xac];
    let tx = build_unsigned(&chosen, &dest, 60000, &change_script, 12000);
    let signed = bitcoin_wallet::builder::assemble_transaction(
        &tx,
        &vec![vec![0x30; 71], vec![0x31; 70]],
        &vec![0x02; 33],
    );
    let bytes = serialize_transaction(&signed);
    let back = parse_transaction(&bytes).expect("signed transaction must parse");
    assert_same_tx(&signed, &back);
    assert_eq!(back.outputs[0].value, 60000);
    assert_eq!(back.outputs[1].value, 12000);
}

#[test]
fn truncated_or_padded_bytes_do_not_parse() {
    let tx = sample_tx();
    let mut bytes = serialize_transaction(&tx);
    let mut truncated = bytes.clone();
    truncated.pop();
    assert!(parse_transaction(&truncated).is_none());
    bytes.push(0);
    assert!(parse_transaction(&bytes).is_none());
    assert!(parse_transaction(&[]).is_none());
}

#[test]
fn long_scripts_use_the_wide_length_prefix() {
    // A 300-byte script needs the 0xfd form of the compact size.
    let tx = Transaction {
        version: 2,
        inputs: vec![
            TxIn { txid: vec![0x33; 32], vout: 1, script_sig: vec![7; 300], sequence: 5 },
        ],
        outputs: Vec::new(),
        lock_time: 17,
    };
    let bytes = serialize_transaction(&tx);
    // version(4) + input count(1) + txid(32) + vout(4) = 41; length prefix next.
    assert_eq!(bytes[41], 0xfd);
    assert_eq!(bytes[42], 44);  // 300 = 0x012c, little-endian
    assert_eq!(bytes[43], 1);
    let back = parse_transaction(&bytes).expect("must parse");
    assert_same_tx(&tx, &back);
}

#[test]
fn sighash_is_stable_and_input_specific() {
    let tx = sample_tx();
    let spk = vec![0x76, 0xa9, 0x14, 0x05, 0x88, 0xac];
    let d1 = sighash(&tx, 0, &spk);
    let d2 = sighash(&tx, 0, &spk);
    assert_eq!(d1, d2);
    assert_eq!(d1.len(), 32);
    // A different input index signs over different bytes.
    let d3 = sighash(&tx, 1, &spk);
    assert_ne!(d1, d3);
}

#[test]
fn sighash_matches_a_direct_computation() {
    // One input: the canonical preimage is the transaction with the spent
    // output's locking script in that input, the mode appended.
    let tx = Transaction {
        version: 1,
        inputs: vec![
            TxIn { txid: vec![0x11; 32], vout: 0, script_sig: Vec::new(), sequence: 0xffff_ffff },
        ],
        outputs: vec![TxOut { value: 9, script_pubkey: vec![0xaa, 0xbb] }],
        lock_time: 0,
    };
    let spk = vec![0x51];
    let blanked = Transaction {
        version: 1,
        inputs: vec![
            TxIn { txid: vec![0x11; 32], vout: 0, script_sig: spk.clone(), sequence: 0xffff_ffff },
        ],
        outputs: vec![TxOut { value: 9, script_pubkey: vec![0xaa, 0xbb] }],
        lock_time: 0,
    };
    let mut preimage = serialize_transaction(&blanked);
    preimage.extend_from_slice(&1u32.to_le_bytes());
    let expected = sha2::Sha256::digest(sha2::Sha256::digest(&preimage));
    assert_eq!(sighash(&tx, 0, &spk), expected.to_vec());
}

#[test]
fn transaction_id_is_the_reversed_double_digest_in_hex() {
    let bytes = serialize_transaction(&sample_tx());
    let digest = sha2::Sha256::digest(sha2::Sha256::digest(&bytes));
    let mut rev: Vec<u8> = digest.to_vec();
    rev.reverse();
    let mut expected = String::new();
    for b in rev {
        expected.push(char::from_digit((b >> 4) as u32, 16).unwrap());
        expected.push(char::from_digit((b & 0xf) as u32, 16).unwrap());
    }
    assert_eq!(transaction_id(&bytes), expected);
    assert_eq!(transaction_id(&bytes).len(), 64);
}
