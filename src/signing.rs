//! The two signing digests and the two-phase signing of a transaction:
//! phase one signs the raw header with the owner's key, phase two signs the
//! header with its fee wrapper with the fee payer's key.
use crate::codec::{
    enc_bytes, enc_items, enc_list, enc_u64, enc_u8, views, write_bytes, write_u64, write_u8,
    Codec,
};
use crate::crypto::{ed25519_public_key, ed25519_public_of, ed25519_sign, ed25519_signature_of, sha256, sha256_of};
use crate::crypto::{hex_decode, unhex};
use crate::envelope::{
    decode_envelope, decode_envelope_spec, decode_tx, decode_tx_spec, encode_tx, DecodeError,
    SigningRequirementsModel,
};
use crate::tx::{IndexedBytes, RawTransaction, RawTransactionModel, Section, SectionModel};
use vstd::prelude::*;

verus! {

/// The sections that are not authorizations, in order.
pub open spec fn non_auth(secs: Seq<SectionModel>) -> Seq<SectionModel>
    decreases secs.len(),
{
    if secs.len() == 0 {
        Seq::empty()
    } else if secs.last().is_authorization() {
        non_auth(secs.drop_last())
    } else {
        non_auth(secs.drop_last()).push(secs.last())
    }
}

/// What raw-header signatures cover: a leading 0, the chain id, the timestamp,
/// the sections that are not authorizations and the commitments. The fee
/// wrapper is not part of it.
pub open spec fn raw_header_bytes(t: RawTransactionModel) -> Seq<u8> {
    enc_u8(0) + enc_bytes(t.chain_id) + enc_u64(t.timestamp) + enc_list::<Section>(
        non_auth(t.sections),
    ) + enc_list::<Vec<u8>>(t.commitments)
}

/// What fee-wrapper signatures cover: a leading 1, then the whole transaction,
/// fee wrapper and attached signatures included.
pub open spec fn wrapper_bytes(t: RawTransactionModel) -> Seq<u8> {
    enc_u8(1) + RawTransaction::enc(t)
}

pub open spec fn raw_header_digest(t: RawTransactionModel) -> Seq<u8> {
    sha256_of(raw_header_bytes(t))
}

pub open spec fn wrapper_digest(t: RawTransactionModel) -> Seq<u8> {
    sha256_of(wrapper_bytes(t))
}

/// The two signing targets are hashed from different inputs, and the raw
/// header target does not depend on the fee wrapper or on attached signatures:
/// two transactions that agree on chain id, timestamp, non-authorization
/// sections and commitments have the same raw header digest.
pub proof fn lemma_signing_targets_separate(a: RawTransactionModel, b: RawTransactionModel)
    requires
        a.chain_id == b.chain_id,
        a.timestamp == b.timestamp,
        non_auth(a.sections) == non_auth(b.sections),
        a.commitments == b.commitments,
    ensures
        raw_header_digest(a) == raw_header_digest(b),
        raw_header_bytes(a) != wrapper_bytes(a),
{
    assert(raw_header_bytes(a)[0] == 0);
    assert(wrapper_bytes(a)[0] == 1);
}

/// Attaching an authorization section leaves the raw header digest as it was.
pub proof fn lemma_attach_keeps_raw_digest(t: RawTransactionModel, s: SectionModel)
    requires
        s.is_authorization(),
    ensures
        raw_header_digest(with_section(t, s)) == raw_header_digest(t),
{
    assert(with_section(t, s).sections.drop_last() =~= t.sections);
}

/// `t` with the section `s` appended.
pub open spec fn with_section(t: RawTransactionModel, s: SectionModel) -> RawTransactionModel {
    RawTransactionModel { sections: t.sections.push(s), ..t }
}

/// An authorization of one target by one signer.
pub open spec fn authorization_of(target: Seq<u8>, index: u8, sig: Seq<u8>) -> SectionModel {
    SectionModel::Authorization { targets: seq![target], signatures: seq![(index, sig)] }
}

/// Builds the authorization section that binds `signature`, made by the signer
/// at `index`, to the section hash `target`.
pub fn construct_authorization(target: Vec<u8>, index: u8, signature: Vec<u8>) -> (r: Section)
    ensures
        r@ == authorization_of(target@, index, signature@),
{
    let mut targets: Vec<Vec<u8>> = Vec::new();
    targets.push(target);
    let mut signatures: Vec<IndexedBytes> = Vec::new();
    signatures.push(IndexedBytes { index, bytes: signature });
    let r = Section::Authorization { targets, signatures };
    assert(r@ == authorization_of(target@, index, signature@)) by {
        assert(views(targets@) =~= seq![target@]);
        assert(views(signatures@) =~= seq![(index, signature@)]);
    }
    r
}

/// Appends `section` to the transaction; nothing already there is replaced.
pub fn attach(tx: &mut RawTransaction, section: Section)
    ensures
        final(tx)@ == with_section(old(tx)@, section@),
{
    tx.sections.push(section);
    assert(views(tx.sections@) =~= views(old(tx).sections@).push(section@));
}

/// The raw header digest of a transaction.
pub fn raw_header_hash(tx: &RawTransaction) -> (r: Vec<u8>)
    ensures
        r@ == raw_header_digest(tx@),
{
    let ghost secs = views(tx.sections@);
    let mut count: usize = 0;
    let mut i: usize = 0;
    while i < tx.sections.len()
        invariant
            0 <= i <= tx.sections.len(),
            secs == views(tx.sections@),
            count == non_auth(secs.subrange(0, i as int)).len(),
            count <= i,
        decreases tx.sections.len() - i,
    {
        assert(secs.subrange(0, i + 1).drop_last() =~= secs.subrange(0, i as int));
        if !tx.sections[i].is_authorization() {
            count = count + 1;
        }
        i = i + 1;
    }
    let mut out: Vec<u8> = Vec::new();
    write_u8(&mut out, 0);
    write_bytes(&mut out, &tx.header.chain_id);
    write_u64(&mut out, tx.header.timestamp);
    write_u64(&mut out, count as u64);
    let ghost mid = out@;
    let mut j: usize = 0;
    while j < tx.sections.len()
        invariant
            0 <= j <= tx.sections.len(),
            secs == views(tx.sections@),
            out@ == mid + enc_items::<Section>(non_auth(secs.subrange(0, j as int))),
        decreases tx.sections.len() - j,
    {
        assert(secs.subrange(0, j + 1).drop_last() =~= secs.subrange(0, j as int));
        if !tx.sections[j].is_authorization() {
            let ghost before = non_auth(secs.subrange(0, j as int));
            tx.sections[j].write(&mut out);
            assert(non_auth(secs.subrange(0, j + 1)).drop_last() =~= before);
        }
        j = j + 1;
    }
    assert(secs.subrange(0, secs.len() as int) =~= secs);
    let mut cs: Vec<u8> = Vec::new();
    crate::codec::write_list(&mut cs, &tx.commitments);
    out.append(&mut cs);
    assert(out@ =~= raw_header_bytes(tx@));
    sha256(out.as_slice())
}

/// The fee-wrapper digest of a transaction.
pub fn wrapper_hash(tx: &RawTransaction) -> (r: Vec<u8>)
    ensures
        r@ == wrapper_digest(tx@),
{
    let mut out: Vec<u8> = Vec::new();
    write_u8(&mut out, 1);
    tx.write(&mut out);
    sha256(out.as_slice())
}

/// Whether two byte strings are equal.
pub fn same_bytes(a: &Vec<u8>, b: &Vec<u8>) -> (r: bool)
    ensures
        r == (a@ == b@),
{
    if a.len() != b.len() {
        return false;
    }
    let mut i: usize = 0;
    while i < a.len()
        invariant
            0 <= i <= a.len(),
            a.len() == b.len(),
            a@.subrange(0, i as int) == b@.subrange(0, i as int),
        decreases a.len() - i,
    {
        if a[i] != b[i] {
            assert(a@[i as int] != b@[i as int]);
            return false;
        }
        assert(a@.subrange(0, i + 1) =~= a@.subrange(0, i as int).push(a@[i as int]));
        assert(b@.subrange(0, i + 1) =~= b@.subrange(0, i as int).push(b@[i as int]));
        i = i + 1;
    }
    assert(a@ =~= a@.subrange(0, i as int));
    assert(b@ =~= b@.subrange(0, i as int));
    true
}

/// The index that the first entry holding `pk` gives it.
pub open spec fn key_index(map: Seq<(u8, Seq<u8>)>, pk: Seq<u8>) -> Option<u8>
    decreases map.len(),
{
    if map.len() == 0 {
        None
    } else if map[0].1 == pk {
        Some(map[0].0)
    } else {
        key_index(map.drop_first(), pk)
    }
}

/// Looks up the index of the public key `pk` in a key map.
pub fn find_key_index(map: &Vec<IndexedBytes>, pk: &Vec<u8>) -> (r: Option<u8>)
    ensures
        r == key_index(views(map@), pk@),
{
    let ghost m = views(map@);
    assert(m.subrange(0, m.len() as int) =~= m);
    let mut i: usize = 0;
    while i < map.len()
        invariant
            0 <= i <= map.len(),
            m == views(map@),
            key_index(m, pk@) == key_index(m.subrange(i as int, m.len() as int), pk@),
        decreases map.len() - i,
    {
        assert(m.subrange(i as int, m.len() as int).drop_first() =~= m.subrange(
            i + 1,
            m.len() as int,
        ));
        if same_bytes(&map[i].bytes, pk) {
            return Some(map[i].index);
        }
        i = i + 1;
    }
    None
}

/// Why signing stopped.
#[derive(Debug, PartialEq, Eq, Structural)]
pub enum SignError {
    /// The envelope or the transaction inside it could not be read.
    Decode(DecodeError),
    /// The expected chain id differs from the one in the header.
    ChainIdMismatch,
    /// The private key is not 32 bytes of hex.
    InvalidKey,
    /// No key was given, or the key is not among the allowed signers.
    MissingSigningKey,
}

/// Phase one for one key map: the raw header signed by the key from `seed`,
/// at the index that the map gives its public key.
pub open spec fn sign_raw_spec(
    t: RawTransactionModel,
    seed: Seq<u8>,
    map: Seq<(u8, Seq<u8>)>,
) -> Option<RawTransactionModel> {
    match key_index(map, ed25519_public_of(seed)) {
        Some(i) => Some(
            with_section(
                t,
                authorization_of(
                    raw_header_digest(t),
                    i,
                    ed25519_signature_of(seed, raw_header_digest(t)),
                ),
            ),
        ),
        None => None,
    }
}

/// Phase one over all requirements, in order; a requirement without a key map
/// (a shielded source) asks for no raw signature.
pub open spec fn sign_raw_all(
    t: RawTransactionModel,
    seed: Seq<u8>,
    reqs: Seq<SigningRequirementsModel>,
) -> Option<RawTransactionModel>
    decreases reqs.len(),
{
    if reqs.len() == 0 {
        Some(t)
    } else {
        match sign_raw_all(t, seed, reqs.drop_last()) {
            Some(t1) => match reqs.last().account_public_keys_map {
                Some(m) => sign_raw_spec(t1, seed, m),
                None => Some(t1),
            },
            None => None,
        }
    }
}

/// Once phase one fails on a prefix of the requirements, it fails on all of them.
proof fn lemma_raw_all_fails_on_extension(
    t: RawTransactionModel,
    seed: Seq<u8>,
    reqs: Seq<SigningRequirementsModel>,
    j: int,
)
    requires
        0 <= j <= reqs.len(),
        sign_raw_all(t, seed, reqs.subrange(0, j)) is None,
    ensures
        sign_raw_all(t, seed, reqs) is None,
    decreases reqs.len() - j,
{
    if j < reqs.len() {
        assert(reqs.subrange(0, j + 1).drop_last() =~= reqs.subrange(0, j));
        lemma_raw_all_fails_on_extension(t, seed, reqs, j + 1);
    } else {
        assert(reqs.subrange(0, j) =~= reqs);
    }
}

/// Phase two: the fee-wrapper digest signed by the key from `seed`.
pub open spec fn sign_wrapper_spec(t: RawTransactionModel, seed: Seq<u8>) -> RawTransactionModel {
    with_section(
        t,
        authorization_of(wrapper_digest(t), 0, ed25519_signature_of(seed, wrapper_digest(t))),
    )
}

/// The outcome of `sign_tx`: the signed transaction's bytes, or the first
/// check that failed.
pub open spec fn sign_tx_spec(
    envelope: Seq<u8>,
    private_key: Option<Seq<char>>,
    chain_id: Option<Seq<u8>>,
) -> Result<Seq<u8>, SignError> {
    match decode_envelope_spec(envelope) {
        Err(e) => Err(SignError::Decode(e)),
        Ok(env) => match decode_tx_spec(env.tx_bytes) {
            None => Err(SignError::Decode(DecodeError::Malformed)),
            Some(t) => if chain_id matches Some(c) && c != t.chain_id {
                Err(SignError::ChainIdMismatch)
            } else {
                match private_key {
                    None => Err(SignError::MissingSigningKey),
                    Some(k) => match unhex(k) {
                        Some(seed) => if seed.len() != 32 {
                            Err(SignError::InvalidKey)
                        } else {
                            match sign_raw_all(t, seed, env.signing_requirements) {
                                Some(t1) => Ok(RawTransaction::enc(sign_wrapper_spec(t1, seed))),
                                None => Err(SignError::MissingSigningKey),
                            }
                        },
                        None => Err(SignError::InvalidKey),
                    },
                }
            },
        },
    }
}

/// Signing with an expected chain id that differs from the header's fails
/// with `ChainIdMismatch`, whatever private key is given.
pub proof fn lemma_chain_id_guard(
    envelope: Seq<u8>,
    private_key: Option<Seq<char>>,
    expected: Seq<u8>,
)
    requires
        decode_envelope_spec(envelope) is Ok,
        decode_tx_spec(decode_envelope_spec(envelope)->Ok_0.tx_bytes) matches Some(t)
            && t.chain_id != expected,
    ensures
        sign_tx_spec(envelope, private_key, Some(expected)) == Err::<Seq<u8>, SignError>(
            SignError::ChainIdMismatch,
        ),
{
}

/// Phase one for one key map; on failure the transaction is unchanged.
pub fn sign_raw(tx: &mut RawTransaction, seed: &Vec<u8>, map: &Vec<IndexedBytes>) -> (r: bool)
    requires
        seed@.len() == 32,
    ensures
        r ==> sign_raw_spec(old(tx)@, seed@, views(map@)) == Some(final(tx)@),
        !r ==> sign_raw_spec(old(tx)@, seed@, views(map@)) is None && final(tx)@ == old(tx)@,
{
    let pk = ed25519_public_key(seed.as_slice());
    let index = match find_key_index(map, &pk) {
        Some(i) => i,
        None => return false,
    };
    let digest = raw_header_hash(tx);
    let sig = ed25519_sign(seed.as_slice(), digest.as_slice());
    let section = construct_authorization(digest, index, sig);
    attach(tx, section);
    true
}

/// Phase two: signs the fee-wrapper digest, after phase one is attached.
pub fn sign_wrapper(tx: &mut RawTransaction, seed: &Vec<u8>)
    requires
        seed@.len() == 32,
    ensures
        final(tx)@ == sign_wrapper_spec(old(tx)@, seed@),
{
    let digest = wrapper_hash(tx);
    let sig = ed25519_sign(seed.as_slice(), digest.as_slice());
    let section = construct_authorization(digest, 0, sig);
    attach(tx, section);
}

/// Signs the transaction carried by an envelope: checks the expected chain id
/// first, then signs the raw header for each requirement that names its
/// signers, then the fee wrapper, and returns the signed transaction's bytes.
pub fn sign_tx(envelope: &Vec<u8>, private_key: Option<String>, chain_id: Option<Vec<u8>>) -> (r:
    Result<Vec<u8>, SignError>)
    ensures
        match r {
            Ok(b) => sign_tx_spec(
                envelope@,
                match private_key {
                    Some(k) => Some(k@),
                    None => None,
                },
                match chain_id {
                    Some(c) => Some(c@),
                    None => None,
                },
            ) == Ok::<Seq<u8>, SignError>(b@),
            Err(e) => sign_tx_spec(
                envelope@,
                match private_key {
                    Some(k) => Some(k@),
                    None => None,
                },
                match chain_id {
                    Some(c) => Some(c@),
                    None => None,
                },
            ) == Err::<Seq<u8>, SignError>(e),
        },
{
    let env = match decode_envelope(envelope) {
        Ok(e) => e,
        Err(e) => return Err(SignError::Decode(e)),
    };
    let mut tx = match decode_tx(&env.tx_bytes) {
        Ok(t) => t,
        Err(e) => return Err(SignError::Decode(e)),
    };
    if let Some(c) = &chain_id {
        if !same_bytes(c, &tx.header.chain_id) {
            return Err(SignError::ChainIdMismatch);
        }
    }
    let seed = match &private_key {
        None => return Err(SignError::MissingSigningKey),
        Some(k) => match hex_decode(k.as_str()) {
            Some(s) => s,
            None => return Err(SignError::InvalidKey),
        },
    };
    if seed.len() != 32 {
        return Err(SignError::InvalidKey);
    }
    let ghost t0 = tx@;
    let ghost reqs = views(env.signing_requirements@);
    let ghost outcome = sign_tx_spec(
        envelope@,
        match private_key {
            Some(k) => Some(k@),
            None => None,
        },
        match chain_id {
            Some(c) => Some(c@),
            None => None,
        },
    );
    assert(outcome == match sign_raw_all(t0, seed@, reqs) {
        Some(t1) => Ok(RawTransaction::enc(sign_wrapper_spec(t1, seed@))),
        None => Err::<Seq<u8>, SignError>(SignError::MissingSigningKey),
    });
    let mut i: usize = 0;
    while i < env.signing_requirements.len()
        invariant
            0 <= i <= env.signing_requirements.len(),
            seed@.len() == 32,
            reqs == views(env.signing_requirements@),
            sign_raw_all(t0, seed@, reqs.subrange(0, i as int)) == Some(tx@),
            outcome == match sign_raw_all(t0, seed@, reqs) {
                Some(t1) => Ok(RawTransaction::enc(sign_wrapper_spec(t1, seed@))),
                None => Err::<Seq<u8>, SignError>(SignError::MissingSigningKey),
            },
            outcome == sign_tx_spec(
                envelope@,
                match private_key {
                    Some(k) => Some(k@),
                    None => None,
                },
                match chain_id {
                    Some(c) => Some(c@),
                    None => None,
                },
            ),
        decreases env.signing_requirements.len() - i,
    {
        assert(reqs.subrange(0, i + 1).drop_last() =~= reqs.subrange(0, i as int));
        match &env.signing_requirements[i].account_public_keys_map {
            Some(map) => {
                let ghost before = tx@;
                assert(reqs[i as int].account_public_keys_map == Some(views(map@)));
                assert(reqs.subrange(0, i + 1).last() == reqs[i as int]);
                if !sign_raw(&mut tx, &seed, map) {
                    proof {
                        assert(sign_raw_spec(before, seed@, views(map@)) is None);
                        assert(sign_raw_all(t0, seed@, reqs.subrange(0, i + 1)) is None);
                        lemma_raw_all_fails_on_extension(t0, seed@, reqs, i + 1);
                    }
                    return Err(SignError::MissingSigningKey);
                }
            },
            None => {},
        }
        i = i + 1;
    }
    assert(reqs.subrange(0, reqs.len() as int) =~= reqs);
    sign_wrapper(&mut tx, &seed);
    Ok(encode_tx(&tx))
}

} // verus!
