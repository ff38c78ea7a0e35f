//! Wallet data model: networks, unspent outputs, transactions and errors.

use vstd::prelude::*;

verus! {

/// Which Bitcoin network the wallet is configured against.
#[derive(Clone, Copy, Debug, PartialEq, Eq, Structural)]
pub enum Network {
    Mainnet,
    Testnet,
    Regtest,
}

/// Everything that can go wrong in the wallet core.
#[derive(Clone, Copy, Debug, PartialEq, Eq, Structural)]
pub enum WalletError {
    /// The signing service cannot derive a key for the configured identity.
    KeyUnavailable,
    /// Transport-level failure talking to the network oracle.
    OracleUnavailable,
    /// The oracle validated and refused the submitted payload.
    RejectedByNetwork,
    /// No prefix of the sorted candidate outputs covers target plus fee.
    InsufficientFunds,
    /// A per-input signing call failed; the index is the first failing input.
    SigningFailed(usize),
}

/// An unspent transaction output as observed from the network oracle.
pub struct Utxo {
    /// Id of the transaction that created this output (32 bytes).
    pub txid: Vec<u8>,
    /// Index of this output within that transaction.
    pub vout: u32,
    /// Value in satoshi.
    pub value: u64,
    /// Confirmation height at which the output was observed.
    pub height: u32,
}

/// Mathematical model of a [`Utxo`].
pub ghost struct UtxoModel {
    pub txid: Seq<u8>,
    pub vout: u32,
    pub value: u64,
    pub height: u32,
}

impl UtxoModel {
    /// Well-formedness of an unspent output: a 32-byte transaction id.
    pub open spec fn wf(self) -> bool {
        self.txid.len() == 32
    }
}

impl View for Utxo {
    type V = UtxoModel;

    open spec fn view(&self) -> UtxoModel {
        UtxoModel {
            txid: self.txid@,
            vout: self.vout,
            value: self.value,
            height: self.height,
        }
    }
}

impl Clone for Utxo {
    fn clone(&self) -> (r: Self)
        ensures
            r@ == self@,
    {
        Utxo {
            txid: self.txid.clone(),
            vout: self.vout,
            value: self.value,
            height: self.height,
        }
    }
}

/// The models of a sequence of unspent outputs.
pub open spec fn spec_models(s: Seq<Utxo>) -> Seq<UtxoModel> {
    s.map_values(|t: Utxo| t@)
}

/// One transaction input: a reference to a UTXO plus its unlocking script.
pub struct TxIn {
    /// Id of the transaction holding the referenced output (32 bytes).
    pub txid: Vec<u8>,
    /// Index of the referenced output.
    pub vout: u32,
    /// Unlocking script; empty until the input is signed.
    pub script_sig: Vec<u8>,
    /// Sequence number.
    pub sequence: u32,
}

/// Mathematical model of a [`TxIn`].
pub ghost struct TxInModel {
    pub txid: Seq<u8>,
    pub vout: u32,
    pub script_sig: Seq<u8>,
    pub sequence: u32,
}

impl View for TxIn {
    type V = TxInModel;

    open spec fn view(&self) -> TxInModel {
        TxInModel {
            txid: self.txid@,
            vout: self.vout,
            script_sig: self.script_sig@,
            sequence: self.sequence,
        }
    }
}

impl Clone for TxIn {
    fn clone(&self) -> (r: Self)
        ensures
            r@ == self@,
    {
        TxIn {
            txid: self.txid.clone(),
            vout: self.vout,
            script_sig: self.script_sig.clone(),
            sequence: self.sequence,
        }
    }
}

/// One transaction output: a value and the script that locks it.
pub struct TxOut {
    /// Value in satoshi.
    pub value: u64,
    /// Locking script of the destination.
    pub script_pubkey: Vec<u8>,
}

/// Mathematical model of a [`TxOut`].
pub ghost struct TxOutModel {
    pub value: u64,
    pub script_pubkey: Seq<u8>,
}

impl View for TxOut {
    type V = TxOutModel;

    open spec fn view(&self) -> TxOutModel {
        TxOutModel { value: self.value, script_pubkey: self.script_pubkey@ }
    }
}

impl Clone for TxOut {
    fn clone(&self) -> (r: Self)
        ensures
            r@ == self@,
    {
        TxOut { value: self.value, script_pubkey: self.script_pubkey.clone() }
    }
}

/// A Bitcoin transaction in the legacy (pre-segwit) format.
pub struct Transaction {
    pub version: u32,
    pub inputs: Vec<TxIn>,
    pub outputs: Vec<TxOut>,
    pub lock_time: u32,
}

/// Mathematical model of a [`Transaction`].
pub ghost struct TxModel {
    pub version: u32,
    pub inputs: Seq<TxInModel>,
    pub outputs: Seq<TxOutModel>,
    pub lock_time: u32,
}

impl View for Transaction {
    type V = TxModel;

    open spec fn view(&self) -> TxModel {
        TxModel {
            version: self.version,
            inputs: self.inputs@.map_values(|i: TxIn| i@),
            outputs: self.outputs@.map_values(|o: TxOut| o@),
            lock_time: self.lock_time,
        }
    }
}

impl Clone for Transaction {
    fn clone(&self) -> (r: Self)
        ensures
            r@ == self@,
    {
        let mut inputs: Vec<TxIn> = Vec::new();
        let mut i: usize = 0;
        while i < self.inputs.len()
            invariant
                i <= self.inputs.len(),
                inputs@.len() == i,
                forall|j: int| 0 <= j < i ==> inputs@[j]@ == self.inputs@[j]@,
            decreases self.inputs.len() - i,
        {
            inputs.push(self.inputs[i].clone());
            i = i + 1;
        }
        let mut outputs: Vec<TxOut> = Vec::new();
        let mut k: usize = 0;
        while k < self.outputs.len()
            invariant
                k <= self.outputs.len(),
                outputs@.len() == k,
                forall|j: int| 0 <= j < k ==> outputs@[j]@ == self.outputs@[j]@,
            decreases self.outputs.len() - k,
        {
            outputs.push(self.outputs[k].clone());
            k = k + 1;
        }
        let r = Transaction {
            version: self.version,
            inputs,
            outputs,
            lock_time: self.lock_time,
        };
        proof {
            assert(r@.inputs =~= self@.inputs);
            assert(r@.outputs =~= self@.outputs);
        }
        r
    }
}

impl TxModel {
    /// Well-formedness of a transaction model: every input refers to a
    /// 32-byte transaction id, and all scripts and counts fit the wire
    /// format's length fields.
    pub open spec fn wf(self) -> bool {
        &&& self.inputs.len() <= u64::MAX
        &&& self.outputs.len() <= u64::MAX
        &&& forall|i: int|
            0 <= i < self.inputs.len() ==> {
                &&& (#[trigger] self.inputs[i]).txid.len() == 32
                &&& self.inputs[i].script_sig.len() <= u64::MAX
            }
        &&& forall|i: int|
            0 <= i < self.outputs.len() ==> (#[trigger] self.outputs[i]).script_pubkey.len()
                <= u64::MAX
    }
}

} // verus!
