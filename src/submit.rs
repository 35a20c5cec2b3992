//! Reading the one aggregate chain response to a submitted transaction:
//! the applied status of each of its commitments.
use crate::codec::views;
use crate::crypto::{hex_encode, hex_of};
use crate::envelope::{decode_tx, decode_tx_spec, DecodeError};
use crate::signing::{same_bytes, wrapper_digest, wrapper_hash};
use vstd::prelude::*;

verus! {

/// How the chain judged one commitment.
pub struct CommitmentStatus {
    pub commitment: Vec<u8>,
    pub valid: bool,
}

impl View for CommitmentStatus {
    type V = (Seq<u8>, bool);

    open spec fn view(&self) -> (Seq<u8>, bool) {
        (self.commitment@, self.valid)
    }
}

/// The chain's one response to a submission.
pub struct ChainResponse {
    /// Whether the transaction was applied at all.
    pub applied: bool,
    pub code: u64,
    pub gas_used: u64,
    pub height: u64,
    pub info: String,
    pub log: String,
    pub results: Vec<CommitmentStatus>,
}

/// Whether one sub-transaction was applied; its commitment in hex.
pub struct BatchTxResult {
    pub hash: String,
    pub is_applied: bool,
}

/// The outcome of a submission, commitment by commitment.
pub struct TxResponse {
    pub code: u64,
    pub batch_tx_results: Vec<BatchTxResult>,
    pub gas_used: u64,
    pub hash: String,
    pub height: u64,
    pub info: String,
    pub log: String,
}

/// Why a submission's outcome could not be reported.
#[derive(Debug)]
pub enum SubmitError {
    /// The submitted bytes are not a transaction.
    Decode(DecodeError),
    /// The chain did not apply the transaction; its hash in hex.
    NotApplied(String),
}

/// Whether the response marks commitment `c` as applied and valid.
pub open spec fn commitment_applied(results: Seq<(Seq<u8>, bool)>, c: Seq<u8>) -> bool {
    exists|i: int| 0 <= i < results.len() && #[trigger] results[i] == (c, true)
}

/// Looks up whether commitment `c` was applied and valid.
pub fn is_applied_and_valid(results: &Vec<CommitmentStatus>, c: &Vec<u8>) -> (r: bool)
    ensures
        r == commitment_applied(views(results@), c@),
{
    let ghost v = views(results@);
    let mut i: usize = 0;
    while i < results.len()
        invariant
            0 <= i <= results.len(),
            v == views(results@),
            forall|j: int| 0 <= j < i ==> #[trigger] v[j] != (c@, true),
        decreases results.len() - i,
    {
        if results[i].valid && same_bytes(&results[i].commitment, c) {
            assert(v[i as int] == (c@, true));
            return true;
        }
        i = i + 1;
    }
    false
}

/// Reports, for each commitment of the submitted transaction in order,
/// whether the response marks it applied; fails with `NotApplied` and the
/// transaction's hash when the chain did not apply the transaction at all.
pub fn process_response(tx_bytes: &Vec<u8>, response: ChainResponse) -> (r: Result<
    TxResponse,
    SubmitError,
>)
    ensures
        match decode_tx_spec(tx_bytes@) {
            None => r matches Err(SubmitError::Decode(e)) && e == DecodeError::Malformed,
            Some(t) => if !response.applied {
                r matches Err(SubmitError::NotApplied(h)) && h@ == hex_of(wrapper_digest(t))
            } else {
                r matches Ok(resp) && {
                    &&& resp.hash@ == hex_of(wrapper_digest(t))
                    &&& resp.code == response.code
                    &&& resp.gas_used == response.gas_used
                    &&& resp.height == response.height
                    &&& resp.info == response.info
                    &&& resp.log == response.log
                    &&& resp.batch_tx_results.len() == t.commitments.len()
                    &&& forall|i: int|
                        0 <= i < t.commitments.len() ==> {
                            &&& (#[trigger] resp.batch_tx_results[i]).hash@ == hex_of(
                                t.commitments[i],
                            )
                            &&& resp.batch_tx_results[i].is_applied == commitment_applied(
                                views(response.results@),
                                t.commitments[i],
                            )
                        }
                }
            },
        },
{
    let tx = match decode_tx(tx_bytes) {
        Ok(t) => t,
        Err(e) => return Err(SubmitError::Decode(e)),
    };
    let hash = hex_encode(wrapper_hash(&tx).as_slice());
    let ghost cs = views(tx.commitments@);
    let mut results: Vec<BatchTxResult> = Vec::new();
    let mut i: usize = 0;
    while i < tx.commitments.len()
        invariant
            0 <= i <= tx.commitments.len(),
            cs == views(tx.commitments@),
            results.len() == i,
            forall|j: int|
                0 <= j < i ==> {
                    &&& (#[trigger] results@[j]).hash@ == hex_of(cs[j])
                    &&& results@[j].is_applied == commitment_applied(
                        views(response.results@),
                        cs[j],
                    )
                },
        decreases tx.commitments.len() - i,
    {
        let applied = is_applied_and_valid(&response.results, &tx.commitments[i]);
        let h = hex_encode(tx.commitments[i].as_slice());
        results.push(BatchTxResult { hash: h, is_applied: applied });
        i = i + 1;
    }
    if !response.applied {
        return Err(SubmitError::NotApplied(hash));
    }
    let ChainResponse { applied: _, code, gas_used, height, info, log, results: _ } = response;
    Ok(TxResponse { code, batch_tx_results: results, gas_used, hash, height, info, log })
}

} // verus!
