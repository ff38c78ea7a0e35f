//! Broadcasting: the transaction id of serialized bytes, and what a
//! submission outcome means to the caller.
//!
//! The id is computed before submission, so it is known even when the
//! submit call fails on the response path; a transport failure is then
//! reported as an unconfirmed submission rather than swallowed.

use vstd::prelude::*;
use crate::types::WalletError;
use crate::hashes::{sha256d, sha256d_of, to_hex, spec_hex_chars};

verus! {

/// The displayed transaction id of serialized transaction bytes: the
/// double SHA-256, hex-encoded byte-reversed.
pub open spec fn spec_txid(tx_bytes: Seq<u8>) -> Seq<char> {
    spec_hex_chars(sha256d_of(tx_bytes).reverse())
}

/// Computes the transaction id of serialized transaction bytes.
pub fn transaction_id(tx_bytes: &[u8]) -> (r: String)
    ensures
        r@ == spec_txid(tx_bytes@),
{
    let digest = sha256d(tx_bytes);
    let rev = crate::hashes::reversed(digest.as_slice());
    to_hex(rev.as_slice())
}

/// What one spend's broadcast ended as.
pub struct BroadcastOutcome {
    /// The transaction id, known whether or not submission was confirmed.
    pub txid: String,
    /// True when the oracle accepted the bytes for relay; false when the
    /// transport failed on the way back and the transaction may or may
    /// not have reached the network.
    pub confirmed: bool,
}

/// Interprets the oracle's answer to a submission.  A transport failure
/// still returns the id, flagged unconfirmed: the transaction may have
/// landed although the response was lost.  A validation refusal is a hard
/// error.
pub fn broadcast_outcome(txid: String, submit: Result<(), WalletError>) -> (r: Result<
    BroadcastOutcome,
    WalletError,
>)
    ensures
        match r {
            Ok(out) => {
                &&& out.txid@ == txid@
                &&& (submit is Ok ==> out.confirmed)
                &&& (submit is Err ==> submit.unwrap_err() == WalletError::OracleUnavailable
                    && !out.confirmed)
            },
            Err(e) => submit is Err && e == submit.unwrap_err() && e
                != WalletError::OracleUnavailable,
        },
        r is Err <==> (submit is Err && submit.unwrap_err() != WalletError::OracleUnavailable),
{
    match submit {
        Ok(()) => Ok(BroadcastOutcome { txid, confirmed: true }),
        Err(WalletError::OracleUnavailable) => Ok(
            BroadcastOutcome { txid, confirmed: false },
        ),
        Err(e) => Err(e),
    }
}

} // verus!
