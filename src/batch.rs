//! Composing several built transactions into one atomic transaction that
//! shares the first one's header and fee wrapper.
use crate::codec::{views, Codec};
use crate::envelope::{
    decode_envelope, decode_envelope_spec, decode_tx, decode_tx_spec, encode_envelope, encode_tx,
    enc_envelope, DecodeError, Envelope, EnvelopeModel, SigningRequirements,
    SigningRequirementsModel,
};
use crate::signing::same_bytes;
use crate::tx::{RawTransaction, RawTransactionModel};
use vstd::prelude::*;

verus! {

/// Why a batch could not be composed.
#[derive(Debug, PartialEq, Eq, Structural)]
pub enum BatchError {
    /// No transaction was given.
    Empty,
    /// An envelope or the transaction inside it could not be read.
    Decode(DecodeError),
    /// An envelope carries no signing requirements.
    MissingSigningData,
    /// Two sub-transactions share a commitment hash.
    DuplicateCommitment,
}

/// The decoded transactions and the first signing requirement of each input,
/// or the error of the first input that fails.
pub open spec fn batch_parts(inputs: Seq<Seq<u8>>) -> Result<
    (Seq<RawTransactionModel>, Seq<SigningRequirementsModel>),
    BatchError,
>
    decreases inputs.len(),
{
    if inputs.len() == 0 {
        Ok((Seq::empty(), Seq::empty()))
    } else {
        match batch_parts(inputs.drop_last()) {
            Err(e) => Err(e),
            Ok((ts, rs)) => match input_part(inputs.last()) {
                Err(e) => Err(e),
                Ok((t, r)) => Ok((ts.push(t), rs.push(r))),
            },
        }
    }
}

/// One input's transaction and first signing requirement.
pub open spec fn input_part(b: Seq<u8>) -> Result<
    (RawTransactionModel, SigningRequirementsModel),
    BatchError,
> {
    match decode_envelope_spec(b) {
        Err(e) => Err(BatchError::Decode(e)),
        Ok(env) => match decode_tx_spec(env.tx_bytes) {
            None => Err(BatchError::Decode(DecodeError::Malformed)),
            Some(t) => if env.signing_requirements.len() == 0 {
                Err(BatchError::MissingSigningData)
            } else {
                Ok((t, env.signing_requirements[0]))
            },
        },
    }
}

/// Reads one input: its transaction, wrapper arguments and first requirement.
fn decode_input(b: &Vec<u8>) -> (r: Result<(RawTransaction, Vec<u8>, SigningRequirements), BatchError>)
    ensures
        match r {
            Ok((t, w, q)) => input_part(b@) == Ok::<
                (RawTransactionModel, SigningRequirementsModel),
                BatchError,
            >((t@, q@)) && (decode_envelope_spec(b@) matches Ok(e) && e.wrapper_args == w@),
            Err(e) => input_part(b@) == Err::<
                (RawTransactionModel, SigningRequirementsModel),
                BatchError,
            >(e),
        },
{
    let env = match decode_envelope(b) {
        Ok(e) => e,
        Err(e) => return Err(BatchError::Decode(e)),
    };
    let tx = match decode_tx(&env.tx_bytes) {
        Ok(t) => t,
        Err(e) => return Err(BatchError::Decode(e)),
    };
    if env.signing_requirements.len() == 0 {
        return Err(BatchError::MissingSigningData);
    }
    let Envelope { tx_bytes: _, wrapper_args, signing_requirements: mut rs } = env;
    let ghost rs_view = views(rs@);
    let first = rs.remove(0);
    assert(first@ == rs_view[0]);
    Ok((tx, wrapper_args, first))
}

/// Appends the sections and commitments of `tx` to `m`.
fn merge_into(m: &mut RawTransaction, tx: RawTransaction)
    ensures
        final(m)@ == (RawTransactionModel {
            sections: old(m)@.sections + tx@.sections,
            commitments: old(m)@.commitments + tx@.commitments,
            ..old(m)@
        }),
{
    let RawTransaction { header: _, sections: mut secs, commitments: mut cs } = tx;
    let ghost ms = views(m.sections@);
    let ghost mc = views(m.commitments@);
    let ghost ss = views(secs@);
    let ghost cc = views(cs@);
    m.sections.append(&mut secs);
    m.commitments.append(&mut cs);
    assert(views(m.sections@) =~= ms + ss);
    assert(views(m.commitments@) =~= mc + cc);
}

/// The first transaction, with the sections and commitments of all the
/// transactions appended in order.
pub open spec fn merge_txs(ts: Seq<RawTransactionModel>) -> RawTransactionModel
    decreases ts.len(),
{
    if ts.len() <= 1 {
        ts[0]
    } else {
        let m = merge_txs(ts.drop_last());
        RawTransactionModel {
            sections: m.sections + ts.last().sections,
            commitments: m.commitments + ts.last().commitments,
            ..m
        }
    }
}

/// No value occurs twice.
pub open spec fn distinct(cs: Seq<Seq<u8>>) -> bool {
    forall|i: int, j: int| 0 <= i < j < cs.len() ==> cs[i] != cs[j]
}

/// What `build_batch` yields on the encoded envelopes `inputs`.
pub open spec fn batch_spec(inputs: Seq<Seq<u8>>) -> Result<EnvelopeModel, BatchError> {
    if inputs.len() == 0 {
        Err(BatchError::Empty)
    } else {
        match batch_parts(inputs) {
            Err(e) => Err(e),
            Ok((ts, rs)) => if !distinct(merge_txs(ts).commitments) {
                Err(BatchError::DuplicateCommitment)
            } else {
                Ok(
                    EnvelopeModel {
                        tx_bytes: RawTransaction::enc(merge_txs(ts)),
                        wrapper_args: decode_envelope_spec(inputs[0])->Ok_0.wrapper_args,
                        signing_requirements: rs,
                    },
                )
            },
        }
    }
}

/// Whether some commitment occurs twice.
pub fn has_duplicate(cs: &Vec<Vec<u8>>) -> (r: bool)
    ensures
        r == !distinct(views(cs@)),
{
    let ghost v = views(cs@);
    let mut i: usize = 0;
    while i < cs.len()
        invariant
            0 <= i <= cs.len(),
            v == views(cs@),
            forall|a: int, b: int| 0 <= a < b < v.len() && a < i ==> v[a] != v[b],
        decreases cs.len() - i,
    {
        let mut j: usize = i + 1;
        while j < cs.len()
            invariant
                0 <= i < j <= cs.len(),
                v == views(cs@),
                forall|a: int, b: int| 0 <= a < b < v.len() && a < i ==> v[a] != v[b],
                forall|b: int| i < b < j ==> v[i as int] != v[b],
            decreases cs.len() - j,
        {
            if same_bytes(&cs[i], &cs[j]) {
                assert(v[i as int] == v[j as int]);
                return true;
            }
            j = j + 1;
        }
        i = i + 1;
    }
    false
}

/// Composes built transactions (each an encoded envelope) into one batch.
/// The header and fee wrapper, and the wrapper arguments, come from the first
/// input; every other input's own wrapper is dropped. Sections and commitments
/// are concatenated in input order, and the first signing requirement of each
/// input is kept, in order.
pub fn build_batch(inputs: &Vec<Vec<u8>>) -> (r: Result<Vec<u8>, BatchError>)
    ensures
        match r {
            Ok(b) => batch_spec(views(inputs@)) matches Ok(e) && b@ == enc_envelope(e),
            Err(err) => batch_spec(views(inputs@)) == Err::<EnvelopeModel, BatchError>(err),
        },
{
    let ghost ins = views(inputs@);
    if inputs.len() == 0 {
        return Err(BatchError::Empty);
    }
    let mut merged: Option<RawTransaction> = None;
    let mut wrapper_args: Vec<u8> = Vec::new();
    let mut reqs: Vec<SigningRequirements> = Vec::new();
    let ghost mut ts: Seq<RawTransactionModel> = Seq::empty();
    let mut i: usize = 0;
    assert(ins.subrange(0, 0) =~= Seq::<Seq<u8>>::empty());
    assert(views(reqs@) =~= Seq::<SigningRequirementsModel>::empty());
    while i < inputs.len()
        invariant
            0 <= i <= inputs.len(),
            ins == views(inputs@),
            ins.len() > 0,
            batch_parts(ins.subrange(0, i as int)) == Ok::<
                (Seq<RawTransactionModel>, Seq<SigningRequirementsModel>),
                BatchError,
            >((ts, views(reqs@))),
            i == 0 <==> merged is None,
            merged matches Some(m) ==> m@ == merge_txs(ts),
            i > 0 ==> (decode_envelope_spec(ins[0]) matches Ok(e) && e.wrapper_args
                == wrapper_args@),
            ts.len() == i,
        decreases inputs.len() - i,
    {
        let ghost pre = ins.subrange(0, i as int);
        assert(ins.subrange(0, i + 1).drop_last() =~= pre);
        assert(ins.subrange(0, i + 1).last() == ins[i as int]);
        let (tx, w, first) = match decode_input(&inputs[i]) {
            Ok(p) => p,
            Err(e) => {
                proof {
                    lemma_parts_fail_on_extension(ins, i + 1);
                }
                return Err(e);
            },
        };
        let ghost old_reqs = views(reqs@);
        reqs.push(first);
        assert(views(reqs@) =~= old_reqs.push(first@));
        let ghost t = tx@;
        match merged {
            None => {
                wrapper_args = w;
                merged = Some(tx);
            },
            Some(mut m) => {
                merge_into(&mut m, tx);
                merged = Some(m);
            },
        }
        proof {
            let ts2 = ts.push(t);
            assert(ts2.drop_last() =~= ts);
            ts = ts2;
        }
        i = i + 1;
    }
    assert(ins.subrange(0, ins.len() as int) =~= ins);
    let tx = match merged {
        Some(m) => m,
        None => return Err(BatchError::Empty),
    };
    if has_duplicate(&tx.commitments) {
        return Err(BatchError::DuplicateCommitment);
    }
    let out = Envelope { tx_bytes: encode_tx(&tx), wrapper_args, signing_requirements: reqs };
    Ok(encode_envelope(&out))
}

/// Once an input fails, every longer batch fails the same way.
proof fn lemma_parts_fail_on_extension(inputs: Seq<Seq<u8>>, j: int)
    requires
        0 <= j <= inputs.len(),
        batch_parts(inputs.subrange(0, j)) is Err,
    ensures
        batch_parts(inputs) == batch_parts(inputs.subrange(0, j)),
    decreases inputs.len() - j,
{
    if j < inputs.len() {
        assert(inputs.subrange(0, j + 1).drop_last() =~= inputs.subrange(0, j));
        lemma_parts_fail_on_extension(inputs, j + 1);
    } else {
        assert(inputs.subrange(0, j) =~= inputs);
    }
}

/// Each decoded part stands at its input's position.
proof fn lemma_parts_positions(inputs: Seq<Seq<u8>>)
    requires
        batch_parts(inputs) is Ok,
    ensures
        batch_parts(inputs) matches Ok((ts, rs)) && ts.len() == inputs.len() && rs.len()
            == inputs.len() && forall|i: int|
            0 <= i < inputs.len() ==> input_part(#[trigger] inputs[i]) == Ok::<
                (RawTransactionModel, SigningRequirementsModel),
                BatchError,
            >((ts[i], rs[i])),
    decreases inputs.len(),
{
    if inputs.len() > 0 {
        lemma_parts_positions(inputs.drop_last());
        let (ts, rs) = batch_parts(inputs.drop_last())->Ok_0;
        assert forall|i: int| 0 <= i < inputs.len() - 1 implies inputs[i] == inputs.drop_last()[i] by {}
    }
}

/// With one commitment per transaction, the merged transaction holds one
/// commitment per input, in input order.
proof fn lemma_merge_commitments(ts: Seq<RawTransactionModel>)
    requires
        ts.len() > 0,
        forall|i: int| 0 <= i < ts.len() ==> (#[trigger] ts[i]).commitments.len() == 1,
    ensures
        merge_txs(ts).commitments.len() == ts.len(),
        forall|i: int|
            0 <= i < ts.len() ==> merge_txs(ts).commitments[i] == (#[trigger] ts[i]).commitments[0],
    decreases ts.len(),
{
    if ts.len() > 1 {
        let init = ts.drop_last();
        assert forall|i: int| 0 <= i < init.len() implies (#[trigger] init[i]).commitments.len()
            == 1 by {
            assert(init[i] == ts[i]);
        }
        lemma_merge_commitments(init);
        let m = merge_txs(init);
        assert(merge_txs(ts).commitments == m.commitments + ts.last().commitments);
        assert forall|i: int| 0 <= i < ts.len() implies merge_txs(ts).commitments[i] == (
        #[trigger] ts[i]).commitments[0] by {
            if i < init.len() {
                assert(init[i] == ts[i]);
            }
        }
    }
}

/// Composing `N >= 1` transactions that each carry one commitment yields
/// exactly `N` pairwise distinct commitments, the `i`-th being the `i`-th
/// input's; composing no transaction fails with `Empty`.
pub proof fn lemma_batch_commitments(inputs: Seq<Seq<u8>>)
    requires
        batch_spec(inputs) is Ok,
        forall|i: int|
            0 <= i < inputs.len() ==> (input_part(#[trigger] inputs[i]) matches Ok((t, _))
                ==> t.commitments.len() == 1),
    ensures
        batch_spec(Seq::empty()) == Err::<EnvelopeModel, BatchError>(BatchError::Empty),
        inputs.len() >= 1,
        batch_parts(inputs) matches Ok((ts, _)) && {
            let cs = merge_txs(ts).commitments;
            &&& cs.len() == inputs.len()
            &&& distinct(cs)
            &&& forall|i: int|
                0 <= i < inputs.len() ==> (input_part(#[trigger] inputs[i]) matches Ok((t, _))
                    && cs[i] == t.commitments[0])
        },
{
    lemma_parts_positions(inputs);
    let (ts, rs) = batch_parts(inputs)->Ok_0;
    assert forall|i: int| 0 <= i < ts.len() implies (#[trigger] ts[i]).commitments.len() == 1 by {
        assert(input_part(inputs[i]) is Ok);
    }
    lemma_merge_commitments(ts);
    assert forall|i: int| 0 <= i < inputs.len() implies (input_part(#[trigger] inputs[i]) matches Ok((t, _))
        && merge_txs(ts).commitments[i] == t.commitments[0]) by {
        assert(input_part(inputs[i]) is Ok);
        assert(merge_txs(ts).commitments[i] == ts[i].commitments[0]);
    }
}

} // verus!
