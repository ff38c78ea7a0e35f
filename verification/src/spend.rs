//! The spend coordinator: the per-spend state machine, the all-or-nothing
//! collection of per-input signatures, and the fee accounting law.
//!
//! The application performs the signing round trips; this module decides
//! what they mean.  If any of the per-input signatures is missing, the
//! whole spend aborts: no transaction is assembled and nothing can be
//! broadcast.

use vstd::prelude::*;
use crate::types::{Transaction, Utxo, WalletError, spec_models};
use crate::builder::{
    assemble_transaction, build_unsigned, sighash, spec_assembled, spec_outputs_sum, spec_sighash,
    SEQUENCE_FINAL, TX_VERSION,
};
use crate::codec::{serialize_transaction, spec_ser_tx};
use crate::fees::{
    choose_fee_rate_millisat, fee_rate_sat_per_vbyte, spec_chosen_rate, spec_fee, DUST_THRESHOLD,
};
use crate::select::{select_utxos, spec_prefix_feasible, spec_sorted_utxos, spec_values_sum, Selection};
use crate::types::TxOutModel;

verus! {

/// The stages of one spend, in order; `Signing` is the only stage with
/// internal fan-out.
#[derive(Clone, Copy, Debug, PartialEq, Eq, Structural)]
pub enum SpendPhase {
    Selecting,
    Building,
    Signing,
    Assembling,
    Broadcasting,
    Done,
    Failed,
}

/// Tracks one spend through its stages: `Selecting` to `Building` to
/// `Signing` (k of N complete) to `Assembling` to `Broadcasting` to
/// `Done`, with any failure ending in `Failed`.
pub struct SpendTracker {
    pub phase: SpendPhase,
    /// Signatures collected so far.
    pub signed: u64,
    /// Signatures needed in all.
    pub total: u64,
}

impl SpendTracker {
    /// A spend starts by selecting candidate outputs.
    pub fn start() -> (t: SpendTracker)
        ensures
            t.phase == SpendPhase::Selecting,
            t.signed == 0,
    {
        SpendTracker { phase: SpendPhase::Selecting, signed: 0, total: 0 }
    }

    /// Selection succeeded; the transaction is being built.
    pub fn selected(&mut self)
        requires
            old(self).phase == SpendPhase::Selecting,
        ensures
            final(self).phase == SpendPhase::Building,
            final(self).signed == old(self).signed,
            final(self).total == old(self).total,
    {
        self.phase = SpendPhase::Building;
    }

    /// The unsigned transaction exists; `n` per-input signatures are owed.
    pub fn built(&mut self, n: u64)
        requires
            old(self).phase == SpendPhase::Building,
        ensures
            final(self).phase == SpendPhase::Signing,
            final(self).signed == 0,
            final(self).total == n,
    {
        self.phase = SpendPhase::Signing;
        self.signed = 0;
        self.total = n;
    }

    /// One more signature arrived; assembly begins once all are in.
    pub fn signature_collected(&mut self)
        requires
            old(self).phase == SpendPhase::Signing,
            old(self).signed < old(self).total,
        ensures
            final(self).signed == old(self).signed + 1,
            final(self).total == old(self).total,
            final(self).phase == (if old(self).signed + 1 == old(self).total {
                SpendPhase::Assembling
            } else {
                SpendPhase::Signing
            }),
    {
        self.signed = self.signed + 1;
        if self.signed == self.total {
            self.phase = SpendPhase::Assembling;
        }
    }

    /// A signing call failed: the whole spend aborts; the machine can
    /// never reach `Broadcasting` from `Failed`.
    pub fn signing_failed(&mut self)
        requires
            old(self).phase == SpendPhase::Signing,
        ensures
            final(self).phase == SpendPhase::Failed,
    {
        self.phase = SpendPhase::Failed;
    }

    /// The signed transaction is assembled and may be broadcast.
    pub fn assembled(&mut self)
        requires
            old(self).phase == SpendPhase::Assembling,
        ensures
            final(self).phase == SpendPhase::Broadcasting,
    {
        self.phase = SpendPhase::Broadcasting;
    }

    /// The broadcast call returned; the spend is finished.
    pub fn broadcast_done(&mut self)
        requires
            old(self).phase == SpendPhase::Broadcasting,
        ensures
            final(self).phase == SpendPhase::Done,
    {
        self.phase = SpendPhase::Done;
    }
}

/// The signature sequences of a sequence of signing outcomes that are all
/// present.
pub open spec fn spec_outcome_sigs(outcomes: Seq<Option<Vec<u8>>>) -> Seq<Seq<u8>> {
    outcomes.map_values(|o: Option<Vec<u8>>| o.unwrap()@)
}

/// All-or-nothing signing and assembly: if every per-input signing call
/// returned a signature, the signed transaction is assembled and
/// serialized; if any is missing, the spend aborts with the first failing
/// input's index and no transaction exists.
pub fn finish_spend(tx: &Transaction, outcomes: &Vec<Option<Vec<u8>>>, pubkey: &Vec<u8>) -> (r:
    Result<Vec<u8>, WalletError>)
    requires
        outcomes@.len() == tx@.inputs.len(),
        forall|i: int|
            0 <= i < outcomes@.len() ==> ((#[trigger] outcomes@[i]) is Some
                ==> outcomes@[i].unwrap()@.len() < 74),
        pubkey@.len() < 76,
    ensures
        match r {
            Ok(bytes) => {
                &&& forall|i: int| 0 <= i < outcomes@.len() ==> (#[trigger] outcomes@[i]) is Some
                &&& bytes@ == spec_ser_tx(
                    spec_assembled(tx@, spec_outcome_sigs(outcomes@), pubkey@),
                )
            },
            Err(e) => exists|k: int|
                {
                    &&& 0 <= k < outcomes@.len()
                    &&& (#[trigger] outcomes@[k]) is None
                    &&& e == WalletError::SigningFailed(k as usize)
                    &&& forall|j: int| 0 <= j < k ==> (#[trigger] outcomes@[j]) is Some
                },
        },
{
    let mut sigs: Vec<Vec<u8>> = Vec::new();
    let mut i: usize = 0;
    while i < outcomes.len()
        invariant
            i <= outcomes@.len(),
            sigs@.len() == i,
            forall|j: int| 0 <= j < i ==> (#[trigger] outcomes@[j]) is Some,
            forall|j: int| 0 <= j < i ==> (#[trigger] sigs@[j])@ == outcomes@[j].unwrap()@,
        decreases outcomes@.len() - i,
    {
        match &outcomes[i] {
            Some(sig) => {
                sigs.push(sig.clone());
            },
            None => {
                return Err(WalletError::SigningFailed(i));
            },
        }
        i = i + 1;
    }
    let signed = assemble_transaction(tx, &sigs, pubkey);
    let bytes = serialize_transaction(&signed);
    proof {
        assert(sigs@.map_values(|s: Vec<u8>| s@) =~= spec_outcome_sigs(outcomes@));
    }
    Ok(bytes)
}

/// If any per-input signing call failed, no signature list satisfies the
/// all-signed condition: the spend cannot assemble a transaction.
pub proof fn lemma_signing_all_or_nothing(outcomes: Seq<Option<Vec<u8>>>, i: int)
    requires
        0 <= i < outcomes.len(),
        outcomes[i] is None,
    ensures
        !(forall|j: int| 0 <= j < outcomes.len() ==> (#[trigger] outcomes[j]) is Some),
{
}

/// Fee accounting of a constructed spend: for a transaction whose outputs
/// sum to the destination amount plus the change (as `build_unsigned`
/// ensures), the inputs' total minus the outputs' total is never negative,
/// is exactly the fee paid, and that fee is the estimate, exceeded by less
/// than the dust threshold when a dust change was folded in.
pub proof fn lemma_fee_non_negative(
    outputs: Seq<TxOutModel>,
    total: u64,
    fee: u64,
    change: u64,
    target: u64,
    k: int,
    rate: u64,
)
    requires
        k >= 0,
        spec_outputs_sum(outputs) == target + change,
        total == target + fee + change,
        total >= target + spec_fee(k, 2, rate as int),
        ({
            let raw = total - target - spec_fee(k, 2, rate as int);
            if raw >= DUST_THRESHOLD {
                change == raw && fee == spec_fee(k, 2, rate as int)
            } else {
                change == 0 && fee == total - target
            }
        }),
    ensures
        total - spec_outputs_sum(outputs) >= 0,
        total - spec_outputs_sum(outputs) == fee,
        spec_fee(k, 2, rate as int) <= fee,
        fee < spec_fee(k, 2, rate as int) + DUST_THRESHOLD || fee == spec_fee(
            k,
            2,
            rate as int,
        ),
{
    assert(spec_fee(k, 2, rate as int) >= 0) by (nonlinear_arith)
        requires
            k >= 0,
            rate >= 0,
    ;
}

/// Everything a spend needs before its signatures: the unsigned
/// transaction, the digest each input must be signed over, and the fee
/// and change accounting.
pub struct SpendPlan {
    /// The unsigned transaction.
    pub tx: Transaction,
    /// The signature digest of each input, in input order.
    pub digests: Vec<Vec<u8>>,
    /// Total value of the spent outputs, in satoshi.
    pub total: u64,
    /// Fee the spend pays, in satoshi.
    pub fee: u64,
    /// Change returned to the spender, in satoshi; zero when folded.
    pub change: u64,
}

/// Plans one spend: picks the fee rate from the oracle's percentiles,
/// selects spendable outputs for the amount, builds the unsigned
/// transaction paying the destination (and change back to the spender),
/// and computes every input's signature digest over the spender's own
/// locking script.
#[verifier::loop_isolation(false)]
pub fn plan_spend(
    utxos: &Vec<Utxo>,
    fee_percentiles: &Vec<u64>,
    dest_script: &Vec<u8>,
    amount: u64,
    own_script: &Vec<u8>,
) -> (r: Result<SpendPlan, WalletError>)
    requires
        spec_values_sum(spec_models(utxos@)) <= u64::MAX,
    ensures
        ({
            let u = spec_models(utxos@);
            let rate = spec_chosen_rate(fee_percentiles@);
            match r {
                Ok(plan) => {
                    let k = plan.tx@.inputs.len() as int;
                    &&& k <= u.len()
                    &&& spec_prefix_feasible(u, amount, rate, k)
                    &&& forall|j: int| 0 <= j < k ==> !spec_prefix_feasible(u, amount, rate, j)
                    &&& plan.total == spec_values_sum(spec_sorted_utxos(u).take(k))
                    &&& plan.total == amount + plan.fee + plan.change
                    &&& {
                        let raw = plan.total - amount - spec_fee(k, 2, rate as int);
                        if raw >= DUST_THRESHOLD {
                            plan.change == raw && plan.fee == spec_fee(k, 2, rate as int)
                        } else {
                            plan.change == 0 && plan.fee == plan.total - amount
                        }
                    }
                    &&& plan.tx@.version == TX_VERSION
                    &&& plan.tx@.lock_time == 0
                    &&& forall|i: int|
                        0 <= i < k ==> {
                            &&& (#[trigger] plan.tx@.inputs[i]).txid == spec_sorted_utxos(
                                u,
                            ).take(k)[i].txid
                            &&& plan.tx@.inputs[i].vout == spec_sorted_utxos(u).take(k)[i].vout
                            &&& plan.tx@.inputs[i].script_sig == Seq::<u8>::empty()
                            &&& plan.tx@.inputs[i].sequence == SEQUENCE_FINAL
                        }
                    &&& (plan.change > 0 ==> plan.tx@.outputs == seq![
                        TxOutModel { value: amount, script_pubkey: dest_script@ },
                        TxOutModel { value: plan.change, script_pubkey: own_script@ },
                    ])
                    &&& (plan.change == 0 ==> plan.tx@.outputs == seq![
                        TxOutModel { value: amount, script_pubkey: dest_script@ },
                    ])
                    &&& plan.digests@.len() == k
                    &&& forall|i: int|
                        0 <= i < k ==> (#[trigger] plan.digests@[i])@ == spec_sighash(
                            plan.tx@,
                            i,
                            own_script@,
                        )
                },
                Err(e) => {
                    &&& e == WalletError::InsufficientFunds
                    &&& forall|j: int|
                        0 <= j <= u.len() ==> !spec_prefix_feasible(u, amount, rate, j)
                },
            }
        }),
{
    let rate = fee_rate_sat_per_vbyte(choose_fee_rate_millisat(fee_percentiles));
    let sel: Selection = match select_utxos(utxos, amount, rate) {
        Ok(sel) => sel,
        Err(e) => {
            return Err(e);
        },
    };
    let tx = build_unsigned(&sel.chosen, dest_script, amount, own_script, sel.change);
    proof {
        assert(spec_models(sel.chosen@).len() == sel.chosen@.len());
        assert(forall|i: int|
            0 <= i < sel.chosen@.len() ==> (#[trigger] sel.chosen@[i])@ == spec_models(
                sel.chosen@,
            )[i]);
    }
    let mut digests: Vec<Vec<u8>> = Vec::new();
    let mut i: usize = 0;
    while i < tx.inputs.len()
        invariant
            i <= tx.inputs.len(),
            digests@.len() == i,
            forall|j: int|
                0 <= j < i ==> (#[trigger] digests@[j])@ == spec_sighash(
                    tx@,
                    j,
                    own_script@,
                ),
        decreases tx.inputs.len() - i,
    {
        let d = sighash(&tx, i, own_script);
        digests.push(d);
        i = i + 1;
    }
    Ok(SpendPlan { tx, digests, total: sel.total, fee: sel.fee, change: sel.change })
}

} // verus!
