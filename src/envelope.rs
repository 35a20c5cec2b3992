//! Signing requirements and the versioned envelope that carries a built
//! transaction from the builder to the signer.
use crate::codec::{
    enc_bytes, enc_list, enc_u8, lemma_after, lemma_bytes_round_trip, lemma_list_round_trip,
    lemma_suffix, list_fits, parse_bytes, parse_list, parse_u8, read_bytes, read_list, read_u8,
    views, write_bytes, write_list, write_u8, Codec,
};
use crate::tx::{IndexedBytes, RawTransaction, RawTransactionModel};
use vstd::prelude::*;

verus! {

/// The version byte that opens every envelope.
pub const ENVELOPE_VERSION: u8 = 1;

/// Who must sign a transaction.
pub struct SigningRequirements {
    pub owner: Vec<u8>,
    /// Valid signer keys with their indices; absent for a shielded source.
    pub account_public_keys_map: Option<Vec<IndexedBytes>>,
    pub public_keys: Vec<Vec<u8>>,
    pub threshold: u8,
    pub fee_payer: Vec<u8>,
}

pub struct SigningRequirementsModel {
    pub owner: Seq<u8>,
    pub account_public_keys_map: Option<Seq<(u8, Seq<u8>)>>,
    pub public_keys: Seq<Seq<u8>>,
    pub threshold: u8,
    pub fee_payer: Seq<u8>,
}

impl View for SigningRequirements {
    type V = SigningRequirementsModel;

    open spec fn view(&self) -> SigningRequirementsModel {
        SigningRequirementsModel {
            owner: self.owner@,
            account_public_keys_map: match self.account_public_keys_map {
                Some(m) => Some(views(m@)),
                None => None,
            },
            public_keys: views(self.public_keys@),
            threshold: self.threshold,
            fee_payer: self.fee_payer@,
        }
    }
}

pub open spec fn enc_key_map(m: Option<Seq<(u8, Seq<u8>)>>) -> Seq<u8> {
    match m {
        Some(l) => enc_u8(1) + enc_list::<IndexedBytes>(l),
        None => enc_u8(0),
    }
}

pub open spec fn parse_key_map(s: Seq<u8>) -> Option<(Option<Seq<(u8, Seq<u8>)>>, int)> {
    match parse_u8(s) {
        Some((f, k)) => if f == 0 {
            Some((None, k))
        } else if f == 1 {
            match parse_list::<IndexedBytes>(s.subrange(k, s.len() as int)) {
                Some((l, m)) => Some((Some(l), k + m)),
                None => None,
            }
        } else {
            None
        },
        None => None,
    }
}

proof fn lemma_key_map_round_trip(m: Option<Seq<(u8, Seq<u8>)>>, rest: Seq<u8>)
    requires
        m matches Some(l) ==> list_fits::<IndexedBytes>(l),
    ensures
        parse_key_map(enc_key_map(m) + rest) == Some((m, enc_key_map(m).len() as int)),
{
    if let Some(l) = m {
        assert(enc_key_map(m) + rest =~= enc_u8(1) + (enc_list::<IndexedBytes>(l) + rest));
        lemma_after(enc_u8(1), enc_list::<IndexedBytes>(l) + rest);
        lemma_list_round_trip::<IndexedBytes>(l, rest);
    }
}

pub open spec fn parse_requirements_tail(s: Seq<u8>) -> Option<((Seq<Seq<u8>>, u8, Seq<u8>), int)> {
    match parse_list::<Vec<u8>>(s) {
        Some((pks, k1)) => {
            let s1 = s.subrange(k1, s.len() as int);
            match parse_u8(s1) {
                Some((t, k2)) => match parse_bytes(s1.subrange(k2, s1.len() as int)) {
                    Some((f, k3)) => Some(((pks, t, f), k1 + k2 + k3)),
                    None => None,
                },
                None => None,
            }
        },
        None => None,
    }
}

proof fn lemma_requirements_tail_round_trip(pks: Seq<Seq<u8>>, t: u8, f: Seq<u8>, rest: Seq<u8>)
    requires
        list_fits::<Vec<u8>>(pks),
        f.len() <= u64::MAX,
    ensures
        ({
            let e = enc_list::<Vec<u8>>(pks) + enc_u8(t) + enc_bytes(f);
            parse_requirements_tail(e + rest) == Some(((pks, t, f), e.len() as int))
        }),
{
    let e1 = enc_list::<Vec<u8>>(pks);
    let e2 = enc_u8(t);
    let e3 = enc_bytes(f);
    assert(e1 + e2 + e3 + rest =~= e1 + (e2 + (e3 + rest)));
    lemma_list_round_trip::<Vec<u8>>(pks, e2 + (e3 + rest));
    lemma_after(e1, e2 + (e3 + rest));
    lemma_after(e2, e3 + rest);
    lemma_bytes_round_trip(f, rest);
}

impl Codec for SigningRequirements {
    open spec fn enc(v: SigningRequirementsModel) -> Seq<u8> {
        enc_bytes(v.owner) + enc_key_map(v.account_public_keys_map) + enc_list::<Vec<u8>>(
            v.public_keys,
        ) + enc_u8(v.threshold) + enc_bytes(v.fee_payer)
    }

    open spec fn parse(s: Seq<u8>) -> Option<(SigningRequirementsModel, int)> {
        match parse_bytes(s) {
            Some((o, k1)) => {
                let s1 = s.subrange(k1, s.len() as int);
                match parse_key_map(s1) {
                    Some((m, k2)) => match parse_requirements_tail(
                        s1.subrange(k2, s1.len() as int),
                    ) {
                        Some(((pks, t, f), k3)) => Some(
                            (
                                SigningRequirementsModel {
                                    owner: o,
                                    account_public_keys_map: m,
                                    public_keys: pks,
                                    threshold: t,
                                    fee_payer: f,
                                },
                                k1 + k2 + k3,
                            ),
                        ),
                        None => None,
                    },
                    None => None,
                }
            },
            None => None,
        }
    }

    open spec fn fits(v: SigningRequirementsModel) -> bool {
        &&& v.owner.len() <= u64::MAX
        &&& v.account_public_keys_map matches Some(l) ==> list_fits::<IndexedBytes>(l)
        &&& list_fits::<Vec<u8>>(v.public_keys)
        &&& v.fee_payer.len() <= u64::MAX
    }

    proof fn lemma_round_trip(v: SigningRequirementsModel, rest: Seq<u8>) {
        let e1 = enc_bytes(v.owner);
        let e2 = enc_key_map(v.account_public_keys_map);
        let e3 = enc_list::<Vec<u8>>(v.public_keys) + enc_u8(v.threshold) + enc_bytes(
            v.fee_payer,
        );
        assert(Self::enc(v) + rest =~= e1 + (e2 + (e3 + rest)));
        lemma_bytes_round_trip(v.owner, e2 + (e3 + rest));
        lemma_after(e1, e2 + (e3 + rest));
        lemma_key_map_round_trip(v.account_public_keys_map, e3 + rest);
        lemma_after(e2, e3 + rest);
        lemma_requirements_tail_round_trip(v.public_keys, v.threshold, v.fee_payer, rest);
    }

    fn write(&self, out: &mut Vec<u8>) {
        write_bytes(out, &self.owner);
        match &self.account_public_keys_map {
            Some(m) => {
                write_u8(out, 1);
                write_list(out, m);
            },
            None => write_u8(out, 0),
        }
        write_list(out, &self.public_keys);
        write_u8(out, self.threshold);
        write_bytes(out, &self.fee_payer);
        assert(final(out)@ =~= old(out)@ + Self::enc(self@));
    }

    fn read(data: &Vec<u8>, pos: usize) -> (r: Option<(SigningRequirements, usize)>) {
        let (owner, p1) = match read_bytes(data, pos) {
            Some(v) => v,
            None => return None,
        };
        proof {
            lemma_suffix(data@, pos as int, p1 as int);
        }
        let (f, p2) = match read_u8(data, p1) {
            Some(v) => v,
            None => return None,
        };
        proof {
            lemma_suffix(data@, p1 as int, p2 as int);
        }
        let (account_public_keys_map, p3) = if f == 0 {
            (None, p2)
        } else if f == 1 {
            match read_list::<IndexedBytes>(data, p2) {
                Some((m, p)) => (Some(m), p),
                None => return None,
            }
        } else {
            return None;
        };
        proof {
            lemma_suffix(data@, p2 as int, p3 as int);
            lemma_suffix(data@, p1 as int, p3 as int);
        }
        let (public_keys, p4) = match read_list::<Vec<u8>>(data, p3) {
            Some(v) => v,
            None => return None,
        };
        proof {
            lemma_suffix(data@, p3 as int, p4 as int);
        }
        let (threshold, p5) = match read_u8(data, p4) {
            Some(v) => v,
            None => return None,
        };
        proof {
            lemma_suffix(data@, p4 as int, p5 as int);
        }
        let (fee_payer, p6) = match read_bytes(data, p5) {
            Some(v) => v,
            None => return None,
        };
        let r = SigningRequirements {
            owner,
            account_public_keys_map,
            public_keys,
            threshold,
            fee_payer,
        };
        Some((r, p6))
    }
}

/// Why bytes could not be decoded.
#[derive(Debug, PartialEq, Eq, Structural)]
pub enum DecodeError {
    /// Truncated, malformed, or followed by trailing bytes.
    Malformed,
    /// The envelope opens with a version this library does not read.
    UnsupportedVersion(u8),
}

/// A built transaction on its way to the signer.
pub struct Envelope {
    pub tx_bytes: Vec<u8>,
    pub wrapper_args: Vec<u8>,
    pub signing_requirements: Vec<SigningRequirements>,
}

pub struct EnvelopeModel {
    pub tx_bytes: Seq<u8>,
    pub wrapper_args: Seq<u8>,
    pub signing_requirements: Seq<SigningRequirementsModel>,
}

impl View for Envelope {
    type V = EnvelopeModel;

    open spec fn view(&self) -> EnvelopeModel {
        EnvelopeModel {
            tx_bytes: self.tx_bytes@,
            wrapper_args: self.wrapper_args@,
            signing_requirements: views(self.signing_requirements@),
        }
    }
}

/// The envelope's bytes: the version, the transaction bytes, the wrapper
/// arguments and the list of signing requirements.
pub open spec fn enc_envelope(e: EnvelopeModel) -> Seq<u8> {
    enc_u8(ENVELOPE_VERSION) + enc_bytes(e.tx_bytes) + enc_bytes(e.wrapper_args) + enc_list::<
        SigningRequirements,
    >(e.signing_requirements)
}

pub open spec fn envelope_fits(e: EnvelopeModel) -> bool {
    &&& e.tx_bytes.len() <= u64::MAX
    &&& e.wrapper_args.len() <= u64::MAX
    &&& list_fits::<SigningRequirements>(e.signing_requirements)
}

/// What the body after the version byte decodes to, if it is exactly one envelope.
pub open spec fn parse_envelope_body(s: Seq<u8>) -> Option<EnvelopeModel> {
    match parse_bytes(s) {
        Some((t, k1)) => {
            let s1 = s.subrange(k1, s.len() as int);
            match parse_bytes(s1) {
                Some((w, k2)) => {
                    let s2 = s1.subrange(k2, s1.len() as int);
                    match parse_list::<SigningRequirements>(s2) {
                        Some((reqs, k3)) => if k3 == s2.len() {
                            Some(
                                EnvelopeModel {
                                    tx_bytes: t,
                                    wrapper_args: w,
                                    signing_requirements: reqs,
                                },
                            )
                        } else {
                            None
                        },
                        None => None,
                    }
                },
                None => None,
            }
        },
        None => None,
    }
}

/// What `decode_envelope` yields on the bytes `s`.
pub open spec fn decode_envelope_spec(s: Seq<u8>) -> Result<EnvelopeModel, DecodeError> {
    if s.len() == 0 {
        Err(DecodeError::Malformed)
    } else if s[0] != ENVELOPE_VERSION {
        Err(DecodeError::UnsupportedVersion(s[0]))
    } else {
        match parse_envelope_body(s.subrange(1, s.len() as int)) {
            Some(e) => Ok(e),
            None => Err(DecodeError::Malformed),
        }
    }
}

/// What `decode_tx` yields on the bytes `s`: a transaction that takes them all.
pub open spec fn decode_tx_spec(s: Seq<u8>) -> Option<RawTransactionModel> {
    match RawTransaction::parse(s) {
        Some((t, k)) => if k == s.len() {
            Some(t)
        } else {
            None
        },
        None => None,
    }
}

/// Decoding the encoding of an envelope gives the envelope back.
pub proof fn lemma_envelope_round_trip(e: EnvelopeModel)
    requires
        envelope_fits(e),
    ensures
        decode_envelope_spec(enc_envelope(e)) == Ok::<EnvelopeModel, DecodeError>(e),
{
    let e1 = enc_bytes(e.tx_bytes);
    let e2 = enc_bytes(e.wrapper_args);
    let e3 = enc_list::<SigningRequirements>(e.signing_requirements);
    let s = enc_envelope(e);
    let empty = Seq::<u8>::empty();
    assert(s =~= enc_u8(ENVELOPE_VERSION) + (e1 + (e2 + (e3 + empty))));
    lemma_after(enc_u8(ENVELOPE_VERSION), e1 + (e2 + (e3 + empty)));
    lemma_bytes_round_trip(e.tx_bytes, e2 + (e3 + empty));
    lemma_after(e1, e2 + (e3 + empty));
    lemma_bytes_round_trip(e.wrapper_args, e3 + empty);
    lemma_after(e2, e3 + empty);
    lemma_list_round_trip::<SigningRequirements>(e.signing_requirements, empty);
    assert(e3 + empty =~= e3);
}

/// Decoding the encoding of a transaction gives the transaction back.
pub proof fn lemma_tx_round_trip(t: RawTransactionModel)
    requires
        RawTransaction::fits(t),
    ensures
        decode_tx_spec(RawTransaction::enc(t)) == Some(t),
{
    RawTransaction::lemma_round_trip(t, Seq::empty());
    assert(RawTransaction::enc(t) + Seq::<u8>::empty() =~= RawTransaction::enc(t));
}

/// The bytes of a transaction.
pub fn encode_tx(tx: &RawTransaction) -> (r: Vec<u8>)
    ensures
        r@ == RawTransaction::enc(tx@),
        RawTransaction::fits(tx@),
{
    let mut out: Vec<u8> = Vec::new();
    tx.write(&mut out);
    assert(out@ =~= RawTransaction::enc(tx@));
    out
}

/// Reads a transaction that takes up all of `bytes`.
pub fn decode_tx(bytes: &Vec<u8>) -> (r: Result<RawTransaction, DecodeError>)
    ensures
        match r {
            Ok(t) => decode_tx_spec(bytes@) == Some(t@),
            Err(e) => decode_tx_spec(bytes@) is None && e == DecodeError::Malformed,
        },
{
    assert(bytes@.subrange(0, bytes@.len() as int) =~= bytes@);
    match RawTransaction::read(bytes, 0) {
        Some((t, next)) => if next == bytes.len() {
            Ok(t)
        } else {
            Err(DecodeError::Malformed)
        },
        None => Err(DecodeError::Malformed),
    }
}

/// The bytes of an envelope.
pub fn encode_envelope(e: &Envelope) -> (r: Vec<u8>)
    ensures
        r@ == enc_envelope(e@),
        envelope_fits(e@),
{
    let mut out: Vec<u8> = Vec::new();
    write_u8(&mut out, ENVELOPE_VERSION);
    write_bytes(&mut out, &e.tx_bytes);
    write_bytes(&mut out, &e.wrapper_args);
    write_list(&mut out, &e.signing_requirements);
    assert(out@ =~= enc_envelope(e@));
    out
}

/// Reads an envelope that takes up all of `bytes`.
pub fn decode_envelope(bytes: &Vec<u8>) -> (r: Result<Envelope, DecodeError>)
    ensures
        match r {
            Ok(e) => decode_envelope_spec(bytes@) == Ok::<EnvelopeModel, DecodeError>(e@),
            Err(err) => decode_envelope_spec(bytes@) == Err::<EnvelopeModel, DecodeError>(err),
        },
{
    if bytes.len() == 0 {
        return Err(DecodeError::Malformed);
    }
    let v = bytes[0];
    if v != ENVELOPE_VERSION {
        return Err(DecodeError::UnsupportedVersion(v));
    }
    let ghost len = bytes@.len() as int;
    let ghost body = bytes@.subrange(1, len);
    proof {
        lemma_suffix(bytes@, 0, 1);
        assert(bytes@.subrange(0, len) =~= bytes@);
    }
    let (tx_bytes, p1) = match read_bytes(bytes, 1) {
        Some(x) => x,
        None => return Err(DecodeError::Malformed),
    };
    proof {
        lemma_suffix(bytes@, 1, p1 as int);
    }
    let (wrapper_args, p2) = match read_bytes(bytes, p1) {
        Some(x) => x,
        None => return Err(DecodeError::Malformed),
    };
    proof {
        lemma_suffix(bytes@, p1 as int, p2 as int);
        lemma_suffix(bytes@, 1, p2 as int);
    }
    let (signing_requirements, p3) = match read_list::<SigningRequirements>(bytes, p2) {
        Some(x) => x,
        None => return Err(DecodeError::Malformed),
    };
    if p3 != bytes.len() {
        return Err(DecodeError::Malformed);
    }
    Ok(Envelope { tx_bytes, wrapper_args, signing_requirements })
}

/// Wraps a built transaction, its wrapper arguments and its one signing
/// requirement in an envelope, and returns the envelope's bytes.
pub fn serialize_tx_result(
    tx: &RawTransaction,
    wrapper_args: Vec<u8>,
    requirements: SigningRequirements,
) -> (r: Vec<u8>)
    ensures
        r@ == enc_envelope(
            EnvelopeModel {
                tx_bytes: RawTransaction::enc(tx@),
                wrapper_args: wrapper_args@,
                signing_requirements: seq![requirements@],
            },
        ),
{
    let ghost q = requirements@;
    let mut reqs: Vec<SigningRequirements> = Vec::new();
    reqs.push(requirements);
    assert(views(reqs@) =~= seq![q]);
    let env = Envelope { tx_bytes: encode_tx(tx), wrapper_args, signing_requirements: reqs };
    encode_envelope(&env)
}

} // verus!
