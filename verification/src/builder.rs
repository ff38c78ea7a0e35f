//! Transaction builder: the unsigned transaction, the per-input legacy
//! signature digest, and the assembly of the signed transaction.

use vstd::prelude::*;
use vstd::bytes::*;
use crate::types::{Transaction, TxIn, TxOut, TxModel, TxInModel, TxOutModel, Utxo};
use crate::codec::{spec_ser_tx, serialize_transaction, write_bytes};
use crate::hashes::{sha256d, sha256d_of};

verus! {

/// Version written into every transaction this wallet builds.
pub const TX_VERSION: u32 = 1;

/// Sequence number of every input: final, no relative locking.
pub const SEQUENCE_FINAL: u32 = 0xffff_ffff;

/// The signature-hash mode appended to every digest preimage: sign all
/// inputs and outputs.
pub const SIGHASH_ALL: u32 = 1;

/// Sum of the values of a transaction's outputs, in satoshi.
pub open spec fn spec_outputs_sum(s: Seq<TxOutModel>) -> int
    decreases s.len(),
{
    if s.len() == 0 {
        0int
    } else {
        s[0].value + spec_outputs_sum(s.drop_first())
    }
}

/// Builds the unsigned transaction: the chosen outputs as inputs in
/// order, the destination output first, and a change output only when the
/// change is positive.
#[verifier::loop_isolation(false)]
pub fn build_unsigned(
    chosen: &Vec<Utxo>,
    dest_script: &Vec<u8>,
    amount: u64,
    change_script: &Vec<u8>,
    change: u64,
) -> (tx: Transaction)
    ensures
        tx@.version == TX_VERSION,
        tx@.lock_time == 0,
        tx@.inputs.len() == chosen@.len(),
        forall|i: int|
            0 <= i < chosen@.len() ==> {
                &&& (#[trigger] tx@.inputs[i]).txid == chosen@[i]@.txid
                &&& tx@.inputs[i].vout == chosen@[i]@.vout
                &&& tx@.inputs[i].script_sig == Seq::<u8>::empty()
                &&& tx@.inputs[i].sequence == SEQUENCE_FINAL
            },
        change > 0 ==> tx@.outputs == seq![
            TxOutModel { value: amount, script_pubkey: dest_script@ },
            TxOutModel { value: change, script_pubkey: change_script@ },
        ],
        change == 0 ==> tx@.outputs == seq![
            TxOutModel { value: amount, script_pubkey: dest_script@ },
        ],
        spec_outputs_sum(tx@.outputs) == amount + change,
        (forall|i: int| 0 <= i < chosen@.len() ==> (#[trigger] chosen@[i]@).wf()) ==> tx@.wf(),
{
    let mut inputs: Vec<TxIn> = Vec::new();
    let mut i: usize = 0;
    while i < chosen.len()
        invariant
            i <= chosen.len(),
            inputs@.len() == i,
            forall|j: int|
                0 <= j < i ==> {
                    &&& (#[trigger] inputs@[j]@).txid == chosen@[j]@.txid
                    &&& inputs@[j]@.vout == chosen@[j]@.vout
                    &&& inputs@[j]@.script_sig == Seq::<u8>::empty()
                    &&& inputs@[j]@.sequence == SEQUENCE_FINAL
                },
        decreases chosen.len() - i,
    {
        let u = &chosen[i];
        inputs.push(
            TxIn {
                txid: u.txid.clone(),
                vout: u.vout,
                script_sig: Vec::new(),
                sequence: SEQUENCE_FINAL,
            },
        );
        i = i + 1;
    }
    let mut outputs: Vec<TxOut> = Vec::new();
    outputs.push(TxOut { value: amount, script_pubkey: dest_script.clone() });
    if change > 0 {
        outputs.push(TxOut { value: change, script_pubkey: change_script.clone() });
    }
    let tx = Transaction { version: TX_VERSION, inputs, outputs, lock_time: 0 };
    proof {
        if change > 0 {
            assert(tx@.outputs =~= seq![
                TxOutModel { value: amount, script_pubkey: dest_script@ },
                TxOutModel { value: change, script_pubkey: change_script@ },
            ]);
            assert(tx@.outputs.drop_first() =~= seq![
                TxOutModel { value: change, script_pubkey: change_script@ },
            ]);
            assert(tx@.outputs.drop_first().drop_first() =~= Seq::<TxOutModel>::empty());
            assert(spec_outputs_sum(Seq::<TxOutModel>::empty()) == 0);
            assert(spec_outputs_sum(tx@.outputs.drop_first()) == change);
            assert(spec_outputs_sum(tx@.outputs) == amount + change);
        } else {
            assert(tx@.outputs =~= seq![
                TxOutModel { value: amount, script_pubkey: dest_script@ },
            ]);
            assert(tx@.outputs.drop_first() =~= Seq::<TxOutModel>::empty());
            assert(spec_outputs_sum(Seq::<TxOutModel>::empty()) == 0);
            assert(spec_outputs_sum(tx@.outputs) == amount + change);
        }
    }
    tx
}

/// The canonical view signed over for one input: every unlocking script
/// blanked except the signed input's, which carries the locking script of
/// the output it spends.
pub open spec fn spec_blanked(t: TxModel, index: int, script_pubkey: Seq<u8>) -> TxModel {
    TxModel {
        version: t.version,
        inputs: Seq::new(
            t.inputs.len(),
            |i: int|
                TxInModel {
                    txid: t.inputs[i].txid,
                    vout: t.inputs[i].vout,
                    script_sig: if i == index {
                        script_pubkey
                    } else {
                        Seq::<u8>::empty()
                    },
                    sequence: t.inputs[i].sequence,
                },
        ),
        outputs: t.outputs,
        lock_time: t.lock_time,
    }
}

/// The legacy all-inputs signature digest for one input: the double
/// SHA-256 of the canonicalized serialization with the mode appended.
pub open spec fn spec_sighash(t: TxModel, index: int, script_pubkey: Seq<u8>) -> Seq<u8> {
    sha256d_of(spec_ser_tx(spec_blanked(t, index, script_pubkey)) + spec_u32_to_le_bytes(
        SIGHASH_ALL,
    ))
}

/// Computes the signature digest for the input at `index`, whose spent
/// output is locked by `script_pubkey`.
#[verifier::loop_isolation(false)]
pub fn sighash(tx: &Transaction, index: usize, script_pubkey: &Vec<u8>) -> (r: Vec<u8>)
    requires
        index < tx@.inputs.len(),
    ensures
        r@ == spec_sighash(tx@, index as int, script_pubkey@),
        r@.len() == 32,
{
    let mut inputs: Vec<TxIn> = Vec::new();
    let mut i: usize = 0;
    while i < tx.inputs.len()
        invariant
            i <= tx.inputs.len(),
            inputs@.len() == i,
            forall|j: int|
                0 <= j < i ==> #[trigger] inputs@[j]@ == spec_blanked(
                    tx@,
                    index as int,
                    script_pubkey@,
                ).inputs[j],
        decreases tx.inputs.len() - i,
    {
        let orig = &tx.inputs[i];
        let script_sig: Vec<u8> = if i == index {
            script_pubkey.clone()
        } else {
            Vec::new()
        };
        inputs.push(
            TxIn { txid: orig.txid.clone(), vout: orig.vout, script_sig, sequence: orig.sequence },
        );
        i = i + 1;
    }
    let mut outputs: Vec<TxOut> = Vec::new();
    let mut k: usize = 0;
    while k < tx.outputs.len()
        invariant
            k <= tx.outputs.len(),
            outputs@.len() == k,
            forall|j: int| 0 <= j < k ==> (#[trigger] outputs@[j])@ == tx@.outputs[j],
        decreases tx.outputs.len() - k,
    {
        outputs.push(tx.outputs[k].clone());
        k = k + 1;
    }
    let blanked = Transaction {
        version: tx.version,
        inputs,
        outputs,
        lock_time: tx.lock_time,
    };
    proof {
        assert(blanked@.inputs =~= spec_blanked(tx@, index as int, script_pubkey@).inputs);
        assert(blanked@.outputs =~= tx@.outputs);
        assert(blanked@ == spec_blanked(tx@, index as int, script_pubkey@));
    }
    let mut preimage = serialize_transaction(&blanked);
    let mut mode = u32_to_le_bytes(SIGHASH_ALL);
    preimage.append(&mut mode);
    sha256d(preimage.as_slice())
}

/// Signing the same transaction, input and locking script twice yields the
/// same digest: the digest is a function of those three values alone.
pub proof fn lemma_sighash_deterministic(
    t: TxModel,
    index: int,
    script_pubkey: Seq<u8>,
    d1: Seq<u8>,
    d2: Seq<u8>,
)
    requires
        d1 == spec_sighash(t, index, script_pubkey),
        d2 == spec_sighash(t, index, script_pubkey),
    ensures
        d1 == d2,
{
}

/// The unlocking script of a signed input: a push of the signature with
/// the mode byte appended, then a push of the public key.
pub open spec fn spec_script_sig(sig: Seq<u8>, pubkey: Seq<u8>) -> Seq<u8> {
    seq![(sig.len() + 1) as u8] + sig + seq![1u8] + seq![pubkey.len() as u8] + pubkey
}

/// Builds the unlocking script for one input.
pub fn script_sig_for(sig: &Vec<u8>, pubkey: &Vec<u8>) -> (r: Vec<u8>)
    requires
        sig@.len() < 74,
        pubkey@.len() < 76,
    ensures
        r@ == spec_script_sig(sig@, pubkey@),
{
    let mut out: Vec<u8> = Vec::new();
    out.push((sig.len() + 1) as u8);
    write_bytes(&mut out, sig);
    out.push(1u8);
    out.push(pubkey.len() as u8);
    write_bytes(&mut out, pubkey);
    proof {
        assert(out@ =~= spec_script_sig(sig@, pubkey@));
    }
    out
}

/// The signed transaction: the unsigned transaction with every input's
/// unlocking script populated from its signature and the public key.
pub open spec fn spec_assembled(t: TxModel, sigs: Seq<Seq<u8>>, pubkey: Seq<u8>) -> TxModel {
    TxModel {
        version: t.version,
        inputs: Seq::new(
            t.inputs.len(),
            |i: int|
                TxInModel {
                    txid: t.inputs[i].txid,
                    vout: t.inputs[i].vout,
                    script_sig: spec_script_sig(sigs[i], pubkey),
                    sequence: t.inputs[i].sequence,
                },
        ),
        outputs: t.outputs,
        lock_time: t.lock_time,
    }
}

/// Populates every input's unlocking script from its signature.
#[verifier::loop_isolation(false)]
pub fn assemble_transaction(tx: &Transaction, sigs: &Vec<Vec<u8>>, pubkey: &Vec<u8>) -> (r:
    Transaction)
    requires
        sigs@.len() == tx@.inputs.len(),
        forall|i: int| 0 <= i < sigs@.len() ==> (#[trigger] sigs@[i])@.len() < 74,
        pubkey@.len() < 76,
    ensures
        r@ == spec_assembled(tx@, sigs@.map_values(|s: Vec<u8>| s@), pubkey@),
{
    let ghost model = spec_assembled(tx@, sigs@.map_values(|s: Vec<u8>| s@), pubkey@);
    let mut inputs: Vec<TxIn> = Vec::new();
    let mut i: usize = 0;
    while i < tx.inputs.len()
        invariant
            i <= tx.inputs.len(),
            inputs@.len() == i,
            forall|j: int| 0 <= j < i ==> #[trigger] inputs@[j]@ == model.inputs[j],
        decreases tx.inputs.len() - i,
    {
        let orig = &tx.inputs[i];
        let script_sig = script_sig_for(&sigs[i], pubkey);
        inputs.push(
            TxIn { txid: orig.txid.clone(), vout: orig.vout, script_sig, sequence: orig.sequence },
        );
        i = i + 1;
    }
    let mut outputs: Vec<TxOut> = Vec::new();
    let mut k: usize = 0;
    while k < tx.outputs.len()
        invariant
            k <= tx.outputs.len(),
            outputs@.len() == k,
            forall|j: int| 0 <= j < k ==> (#[trigger] outputs@[j])@ == tx@.outputs[j],
        decreases tx.outputs.len() - k,
    {
        outputs.push(tx.outputs[k].clone());
        k = k + 1;
    }
    let r = Transaction { version: tx.version, inputs, outputs, lock_time: tx.lock_time };
    proof {
        assert(r@.inputs =~= model.inputs);
        assert(r@.outputs =~= model.outputs);
        assert(r@ == model);
    }
    r
}

} // verus!
