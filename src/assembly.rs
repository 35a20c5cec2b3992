//! Attaching signatures made elsewhere, and reading raw-header signatures
//! back out of a signed transaction.
use crate::codec::{views, Codec};
use crate::crypto::{hex_encode, hex_of, sha256, sha256_of};
use crate::envelope::{decode_tx, decode_tx_spec, encode_tx, DecodeError};
use crate::signing::{attach, raw_header_digest, raw_header_hash, same_bytes, with_section};
use crate::tx::{IndexedBytes, RawTransaction, RawTransactionModel, Section, SectionModel};
use vstd::prelude::*;

verus! {

/// Signatures produced by an outside signer for both phases. Each index list
/// names the signed targets: 0 is the raw header, `k >= 1` the `k`-th section.
pub struct SignatureMsg {
    pub signer_index: u8,
    pub raw_indices: Vec<u8>,
    pub raw_signature: Vec<u8>,
    pub wrapper_indices: Vec<u8>,
    pub wrapper_signature: Vec<u8>,
}

/// Why signatures could not be attached or read.
#[derive(Debug, PartialEq, Eq, Structural)]
pub enum AssemblyError {
    Decode(DecodeError),
    /// A target index past the transaction's sections.
    BadIndex,
    /// No authorization covers exactly the raw header.
    NoRawSignature,
}

/// The hash that target index `idx` names in `t`.
pub open spec fn target_hash(t: RawTransactionModel, idx: u8) -> Option<Seq<u8>> {
    if idx == 0 {
        Some(raw_header_digest(t))
    } else if idx <= t.sections.len() {
        Some(sha256_of(Section::enc(t.sections[idx - 1])))
    } else {
        None
    }
}

/// The hashes that the indices name, in order, if every index is in range.
pub open spec fn targets_of(t: RawTransactionModel, indices: Seq<u8>) -> Option<Seq<Seq<u8>>>
    decreases indices.len(),
{
    if indices.len() == 0 {
        Some(Seq::empty())
    } else {
        match (targets_of(t, indices.drop_last()), target_hash(t, indices.last())) {
            (Some(ts), Some(h)) => Some(ts.push(h)),
            _ => None,
        }
    }
}

/// The authorization that binds `sig`, by signer `signer`, to the indexed targets.
pub open spec fn signature_section(
    t: RawTransactionModel,
    indices: Seq<u8>,
    signer: u8,
    sig: Seq<u8>,
) -> Option<SectionModel> {
    match targets_of(t, indices) {
        Some(ts) => Some(SectionModel::Authorization { targets: ts, signatures: seq![(signer, sig)] }),
        None => None,
    }
}

/// Builds the authorization section for a signature over the indexed targets.
pub fn construct_signature_section(
    tx: &RawTransaction,
    indices: &Vec<u8>,
    signer: u8,
    signature: Vec<u8>,
) -> (r: Option<Section>)
    ensures
        match r {
            Some(s) => signature_section(tx@, indices@, signer, signature@) == Some(s@),
            None => signature_section(tx@, indices@, signer, signature@) is None,
        },
{
    let mut targets: Vec<Vec<u8>> = Vec::new();
    let mut i: usize = 0;
    while i < indices.len()
        invariant
            0 <= i <= indices.len(),
            targets_of(tx@, indices@.subrange(0, i as int)) == Some(views(targets@)),
        decreases indices.len() - i,
    {
        assert(indices@.subrange(0, i + 1).drop_last() =~= indices@.subrange(0, i as int));
        let idx = indices[i];
        let h = if idx == 0 {
            raw_header_hash(tx)
        } else if (idx as usize) <= tx.sections.len() {
            let mut enc: Vec<u8> = Vec::new();
            tx.sections[idx as usize - 1].write(&mut enc);
            sha256(enc.as_slice())
        } else {
            proof {
                lemma_targets_fail_on_extension(tx@, indices@, i + 1);
            }
            return None;
        };
        let ghost before = views(targets@);
        targets.push(h);
        assert(views(targets@) =~= before.push(h@));
        i = i + 1;
    }
    assert(indices@.subrange(0, indices@.len() as int) =~= indices@);
    let mut signatures: Vec<IndexedBytes> = Vec::new();
    signatures.push(IndexedBytes { index: signer, bytes: signature });
    assert(views(signatures@) =~= seq![(signer, signature@)]);
    Some(Section::Authorization { targets, signatures })
}

proof fn lemma_targets_fail_on_extension(t: RawTransactionModel, indices: Seq<u8>, j: int)
    requires
        0 <= j <= indices.len(),
        targets_of(t, indices.subrange(0, j)) is None,
    ensures
        targets_of(t, indices) is None,
    decreases indices.len() - j,
{
    if j < indices.len() {
        assert(indices.subrange(0, j + 1).drop_last() =~= indices.subrange(0, j));
        lemma_targets_fail_on_extension(t, indices, j + 1);
    } else {
        assert(indices.subrange(0, j) =~= indices);
    }
}

/// What `append_signature` yields: the raw-phase section is attached first,
/// and the wrapper-phase targets are read from the result.
pub open spec fn append_signature_spec(
    tx_bytes: Seq<u8>,
    signer: u8,
    raw_indices: Seq<u8>,
    raw_sig: Seq<u8>,
    wrapper_indices: Seq<u8>,
    wrapper_sig: Seq<u8>,
) -> Result<Seq<u8>, AssemblyError> {
    match decode_tx_spec(tx_bytes) {
        None => Err(AssemblyError::Decode(DecodeError::Malformed)),
        Some(t0) => match signature_section(t0, raw_indices, signer, raw_sig) {
            None => Err(AssemblyError::BadIndex),
            Some(s1) => {
                let t1 = with_section(t0, s1);
                match signature_section(t1, wrapper_indices, signer, wrapper_sig) {
                    None => Err(AssemblyError::BadIndex),
                    Some(s2) => Ok(RawTransaction::enc(with_section(t1, s2))),
                }
            },
        },
    }
}

/// Attaches the raw-phase and then the wrapper-phase signature sections to an
/// encoded transaction and returns the new bytes.
pub fn append_signature(tx_bytes: &Vec<u8>, msg: SignatureMsg) -> (r: Result<Vec<u8>, AssemblyError>)
    ensures
        match r {
            Ok(b) => append_signature_spec(
                tx_bytes@,
                msg.signer_index,
                msg.raw_indices@,
                msg.raw_signature@,
                msg.wrapper_indices@,
                msg.wrapper_signature@,
            ) == Ok::<Seq<u8>, AssemblyError>(b@),
            Err(e) => append_signature_spec(
                tx_bytes@,
                msg.signer_index,
                msg.raw_indices@,
                msg.raw_signature@,
                msg.wrapper_indices@,
                msg.wrapper_signature@,
            ) == Err::<Seq<u8>, AssemblyError>(e),
        },
{
    let mut tx = match decode_tx(tx_bytes) {
        Ok(t) => t,
        Err(e) => return Err(AssemblyError::Decode(e)),
    };
    let SignatureMsg {
        signer_index,
        raw_indices,
        raw_signature,
        wrapper_indices,
        wrapper_signature,
    } = msg;
    let raw = match construct_signature_section(&tx, &raw_indices, signer_index, raw_signature) {
        Some(s) => s,
        None => return Err(AssemblyError::BadIndex),
    };
    attach(&mut tx, raw);
    let wrapper = match construct_signature_section(
        &tx,
        &wrapper_indices,
        signer_index,
        wrapper_signature,
    ) {
        Some(s) => s,
        None => return Err(AssemblyError::BadIndex),
    };
    attach(&mut tx, wrapper);
    Ok(encode_tx(&tx))
}

/// The signatures of the first authorization whose targets are exactly `[d]`.
pub open spec fn first_covering(secs: Seq<SectionModel>, d: Seq<u8>) -> Option<Seq<(u8, Seq<u8>)>>
    decreases secs.len(),
{
    if secs.len() == 0 {
        None
    } else {
        match secs[0] {
            SectionModel::Authorization { targets, signatures } => if targets == seq![d] {
                Some(signatures)
            } else {
                first_covering(secs.drop_first(), d)
            },
            _ => first_covering(secs.drop_first(), d),
        }
    }
}

/// One raw-header signature, with the key it is reported under.
#[derive(Debug)]
pub struct GenesisSignature {
    pub pub_key: String,
    pub signature: String,
}

/// Whether `s` is an authorization of exactly the one target `d`.
fn covers_exactly(s: &Section, d: &Vec<u8>) -> (r: bool)
    ensures
        r == (s@ matches SectionModel::Authorization { targets, .. } && targets == seq![d@]),
{
    match s {
        Section::Authorization { targets, .. } => {
            if targets.len() != 1 {
                assert(views(targets@).len() != 1);
                return false;
            }
            let same = same_bytes(&targets[0], d);
            assert(same == (views(targets@) == seq![d@])) by {
                if same {
                    assert(views(targets@) =~= seq![d@]);
                } else {
                    assert(views(targets@)[0] != seq![d@][0]);
                }
            }
            same
        },
        _ => false,
    }
}

/// Reads the raw-header signatures of a signed transaction: those of the
/// first authorization that covers exactly the raw header digest, each in
/// hex and reported under `public_key`.
pub fn get_tx_signature(tx_bytes: &Vec<u8>, public_key: &str) -> (r: Result<
    Vec<GenesisSignature>,
    AssemblyError,
>)
    ensures
        match decode_tx_spec(tx_bytes@) {
            None => r == Err::<Vec<GenesisSignature>, AssemblyError>(
                AssemblyError::Decode(DecodeError::Malformed),
            ),
            Some(t) => match first_covering(t.sections, raw_header_digest(t)) {
                None => r == Err::<Vec<GenesisSignature>, AssemblyError>(
                    AssemblyError::NoRawSignature,
                ),
                Some(sigs) => r matches Ok(out) && out.len() == sigs.len() && forall|i: int|
                    0 <= i < sigs.len() ==> (#[trigger] out@[i]).pub_key@ == public_key@
                        && out@[i].signature@ == hex_of(sigs[i].1),
            },
        },
{
    let tx = match decode_tx(tx_bytes) {
        Ok(t) => t,
        Err(e) => return Err(AssemblyError::Decode(e)),
    };
    let digest = raw_header_hash(&tx);
    let ghost secs = views(tx.sections@);
    let mut k: usize = 0;
    let mut found = false;
    assert(secs.subrange(0, secs.len() as int) =~= secs);
    while k < tx.sections.len() && !found
        invariant
            0 <= k <= tx.sections.len(),
            secs == views(tx.sections@),
            first_covering(secs, digest@) == first_covering(
                secs.subrange(k as int, secs.len() as int),
                digest@,
            ),
            found ==> k < tx.sections.len() && (secs[k as int] matches SectionModel::Authorization {
                targets,
                ..
            } && targets == seq![digest@]),
        decreases tx.sections.len() - k + (if found { 0int } else { 1int }),
    {
        assert(secs.subrange(k as int, secs.len() as int).drop_first() =~= secs.subrange(
            k + 1,
            secs.len() as int,
        ));
        if covers_exactly(&tx.sections[k], &digest) {
            found = true;
        } else {
            k = k + 1;
        }
    }
    if !found {
        assert(secs.subrange(k as int, secs.len() as int) =~= Seq::<SectionModel>::empty());
        return Err(AssemblyError::NoRawSignature);
    }
    assert(secs.subrange(k as int, secs.len() as int)[0] == secs[k as int]);
    let mut out: Vec<GenesisSignature> = Vec::new();
    match &tx.sections[k] {
        Section::Authorization { signatures, .. } => {
            let ghost sigs = views(signatures@);
            let mut i: usize = 0;
            while i < signatures.len()
                invariant
                    0 <= i <= signatures.len(),
                    sigs == views(signatures@),
                    out.len() == i,
                    forall|j: int|
                        0 <= j < i ==> (#[trigger] out@[j]).pub_key@ == public_key@
                            && out@[j].signature@ == hex_of(sigs[j].1),
                decreases signatures.len() - i,
            {
                let s = hex_encode(signatures[i].bytes.as_slice());
                out.push(GenesisSignature { pub_key: public_key.to_owned(), signature: s });
                i = i + 1;
            }
        },
        _ => {},
    }
    Ok(out)
}

} // verus!
