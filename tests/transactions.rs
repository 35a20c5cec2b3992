use namada_shared::arbitrary::{sign_arbitrary, verify_arbitrary, ArbitraryError};
use namada_shared::assembly::{append_signature, get_tx_signature, AssemblyError, SignatureMsg};
use namada_shared::batch::{build_batch, BatchError};
use namada_shared::envelope::{
    decode_envelope, decode_tx, encode_envelope, encode_tx, serialize_tx_result, DecodeError,
    Envelope, SigningRequirements,
};
use namada_shared::genesis::{build_genesis_bond, BondArgs, GENESIS_TIMESTAMP};
use namada_shared::signing::{attach, construct_authorization, raw_header_hash, sign_tx, wrapper_hash, SignError};
use namada_shared::submit::{process_response, ChainResponse, CommitmentStatus, SubmitError};
use namada_shared::tx::{Header, IndexedBytes, RawTransaction, Section, TxType, WrapperFee};

fn seed(b: u8) -> Vec<u8> {
    vec![b; 32]
}

fn public_key(seed: &[u8]) -> Vec<u8> {
    let mut s = [0u8; 32];
    s.copy_from_slice(seed);
    ed25519_consensus::SigningKey::from(s).verification_key().to_bytes().to_vec()
}

fn sample_tx(fee: u64) -> RawTransaction {
    RawTransaction {
        header: Header {
            chain_id: b"test-chain".to_vec(),
            timestamp: 1_700_000_000,
            tx_type: TxType::Wrapper(WrapperFee {
                amount_per_gas_unit: fee,
                token: vec![7; 20],
                fee_payer: vec![9; 32],
                gas_limit: 50_000,
            }),
        },
        sections: vec![
            Section::Code { salt: 3, commitment: vec![1; 32], tag: Some(b"tx_transfer.wasm".to_vec()) },
            Section::Data { salt: 4, payload: vec![5, 6, 7] },
            Section::Authorization {
                targets: vec![vec![2; 32]],
                signatures: vec![IndexedBytes { index: 0, bytes: vec![8; 64] }],
            },
        ],
        commitments: vec![vec![0xaa; 32]],
    }
}

fn sample_requirements(keys: Vec<Vec<u8>>, map: bool) -> SigningRequirements {
    SigningRequirements {
        owner: b"tnam1owner".to_vec(),
        account_public_keys_map: if map {
            Some(keys.iter().enumerate().map(|(i, k)| IndexedBytes { index: i as u8, bytes: k.clone() }).collect())
        } else {
            None
        },
        public_keys: keys,
        threshold: 1,
        fee_payer: vec![9; 32],
    }
}

fn bond(validator: u8, keys: Vec<Vec<u8>>) -> BondArgs {
    BondArgs { validator: vec![validator; 20], amount: 1_000_000, source: vec![0x51; 20], signing_keys: keys }
}

#[test]
fn envelope_round_trip() {
    let tx = sample_tx(10);
    let env = Envelope {
        tx_bytes: encode_tx(&tx),
        wrapper_args: vec![1, 2, 3, 4],
        signing_requirements: vec![sample_requirements(vec![vec![4; 32], vec![5; 32]], true), sample_requirements(vec![], false)],
    };
    let bytes = encode_envelope(&env);
    assert_eq!(bytes[0], 1);
    let back = decode_envelope(&bytes).unwrap();
    assert_eq!(back.tx_bytes, env.tx_bytes);
    assert_eq!(back.wrapper_args, env.wrapper_args);
    assert_eq!(back.signing_requirements.len(), 2);
    assert_eq!(back.signing_requirements[0].public_keys, vec![vec![4; 32], vec![5; 32]]);
    assert!(back.signing_requirements[1].account_public_keys_map.is_none());
    assert_eq!(encode_envelope(&back), bytes);
}

#[test]
fn transaction_round_trip() {
    let tx = sample_tx(10);
    let bytes = encode_tx(&tx);
    let back = decode_tx(&bytes).unwrap();
    assert_eq!(back.header.chain_id, b"test-chain".to_vec());
    assert_eq!(back.header.timestamp, 1_700_000_000);
    assert_eq!(back.sections.len(), 3);
    assert_eq!(back.commitments, vec![vec![0xaa; 32]]);
    assert_eq!(encode_tx(&back), bytes);
}

#[test]
fn envelope_decode_errors() {
    assert!(matches!(decode_envelope(&vec![]), Err(DecodeError::Malformed)));
    assert!(matches!(decode_envelope(&vec![2, 0, 0]), Err(DecodeError::UnsupportedVersion(2))));
    let env = Envelope { tx_bytes: vec![1], wrapper_args: vec![], signing_requirements: vec![] };
    let mut bytes = encode_envelope(&env);
    bytes.push(0);
    assert!(matches!(decode_envelope(&bytes), Err(DecodeError::Malformed)));
    bytes.truncate(bytes.len() - 3);
    assert!(matches!(decode_envelope(&bytes), Err(DecodeError::Malformed)));
    assert!(matches!(decode_tx(&vec![1, 2, 3]), Err(DecodeError::Malformed)));
}

#[test]
fn raw_digest_ignores_fee_and_signatures() {
    let a = sample_tx(10);
    let b = sample_tx(20);
    assert_eq!(raw_header_hash(&a), raw_header_hash(&b));
    assert_ne!(wrapper_hash(&a), wrapper_hash(&b));
    assert_ne!(raw_header_hash(&a), wrapper_hash(&a));
    assert_eq!(raw_header_hash(&a).len(), 32);
    let mut c = sample_tx(10);
    let before = raw_header_hash(&c);
    attach(&mut c, construct_authorization(vec![3; 32], 1, vec![4; 64]));
    assert_eq!(raw_header_hash(&c), before);
    let mut d = sample_tx(10);
    d.sections.push(Section::Data { salt: 0, payload: vec![1] });
    assert_ne!(raw_header_hash(&d), before);
}

#[test]
fn genesis_bond_is_deterministic() {
    let a = build_genesis_bond(&bond(1, vec![vec![4; 32]]), &vec![9, 9]);
    let b = build_genesis_bond(&bond(1, vec![vec![4; 32]]), &vec![9, 9]);
    assert_eq!(a, b);
    let c = build_genesis_bond(&bond(2, vec![vec![4; 32]]), &vec![9, 9]);
    assert_ne!(a, c);
}

#[test]
fn genesis_bond_fixed_fields() {
    let bytes = build_genesis_bond(&bond(1, vec![vec![4; 32], vec![6; 32]]), &vec![9, 9]);
    let env = decode_envelope(&bytes).unwrap();
    assert_eq!(env.wrapper_args, vec![9, 9]);
    let tx = decode_tx(&env.tx_bytes).unwrap();
    assert_eq!(tx.header.chain_id, b"namada-genesis".to_vec());
    assert_eq!(tx.header.timestamp, GENESIS_TIMESTAMP);
    assert_eq!(GENESIS_TIMESTAMP, 978310861);
    match &tx.header.tx_type {
        TxType::Wrapper(w) => {
            assert_eq!(w.amount_per_gas_unit, 0);
            assert_eq!(w.fee_payer, public_key(&[0; 32]));
        }
        _ => panic!("expected a wrapper"),
    }
    match &tx.sections[0] {
        Section::Code { salt, commitment, tag } => {
            assert_eq!(*salt, 0);
            assert_eq!(commitment, &vec![0; 32]);
            assert_eq!(tag.as_deref(), Some(&b"tx_bond.wasm"[..]));
        }
        _ => panic!("expected code"),
    }
    match &tx.sections[1] {
        Section::Data { salt, payload } => {
            assert_eq!(*salt, 0);
            assert_eq!(payload.len(), 8 + 20 + 8 + 8 + 20);
        }
        _ => panic!("expected data"),
    }
    assert_eq!(tx.commitments.len(), 1);
    let req = &env.signing_requirements[0];
    assert_eq!(req.threshold, 1);
    assert_eq!(req.owner, vec![0x51; 20]);
    let map = req.account_public_keys_map.as_ref().unwrap();
    assert_eq!(map.len(), 2);
    assert_eq!(map[1].index, 1);
    assert_eq!(map[1].bytes, vec![6; 32]);
}

#[test]
fn batch_keeps_commitments_in_order() {
    let a = build_genesis_bond(&bond(1, vec![vec![4; 32]]), &vec![1]);
    let b = build_genesis_bond(&bond(2, vec![vec![5; 32]]), &vec![2]);
    let ca = decode_tx(&decode_envelope(&a).unwrap().tx_bytes).unwrap().commitments;
    let cb = decode_tx(&decode_envelope(&b).unwrap().tx_bytes).unwrap().commitments;
    let out = build_batch(&vec![a.clone(), b.clone()]).unwrap();
    let env = decode_envelope(&out).unwrap();
    assert_eq!(env.wrapper_args, vec![1]);
    assert_eq!(env.signing_requirements.len(), 2);
    assert_eq!(env.signing_requirements[1].public_keys, vec![vec![5; 32]]);
    let tx = decode_tx(&env.tx_bytes).unwrap();
    assert_eq!(tx.commitments, vec![ca[0].clone(), cb[0].clone()]);
    assert_ne!(tx.commitments[0], tx.commitments[1]);
    assert_eq!(tx.sections.len(), 4);
}

#[test]
fn batch_errors() {
    assert_eq!(build_batch(&vec![]), Err(BatchError::Empty));
    let a = build_genesis_bond(&bond(1, vec![vec![4; 32]]), &vec![1]);
    assert_eq!(build_batch(&vec![a.clone(), a.clone()]), Err(BatchError::DuplicateCommitment));
    assert_eq!(build_batch(&vec![a.clone(), vec![7]]), Err(BatchError::Decode(DecodeError::UnsupportedVersion(7))));
    let bare = serialize_tx_result(&sample_tx(1), vec![], sample_requirements(vec![], false));
    let mut env = decode_envelope(&bare).unwrap();
    env.signing_requirements.clear();
    assert_eq!(build_batch(&vec![encode_envelope(&env)]), Err(BatchError::MissingSigningData));
}

#[test]
fn single_batch_matches_input() {
    let a = build_genesis_bond(&bond(3, vec![vec![4; 32]]), &vec![1]);
    let out = build_batch(&vec![a.clone()]).unwrap();
    assert_eq!(decode_envelope(&out).unwrap().tx_bytes, decode_envelope(&a).unwrap().tx_bytes);
}

#[test]
fn partial_batch_application() {
    let mut tx = sample_tx(1);
    tx.commitments = vec![vec![0x11; 32], vec![0x22; 32]];
    let bytes = encode_tx(&tx);
    let response = ChainResponse {
        applied: true,
        code: 0,
        gas_used: 1234,
        height: 77,
        info: "ok".to_string(),
        log: "log".to_string(),
        results: vec![
            CommitmentStatus { commitment: vec![0x11; 32], valid: true },
            CommitmentStatus { commitment: vec![0x22; 32], valid: false },
        ],
    };
    let r = process_response(&bytes, response).unwrap();
    assert_eq!(r.batch_tx_results.len(), 2);
    assert_eq!(r.batch_tx_results[0].hash, "11".repeat(32));
    assert!(r.batch_tx_results[0].is_applied);
    assert_eq!(r.batch_tx_results[1].hash, "22".repeat(32));
    assert!(!r.batch_tx_results[1].is_applied);
    assert_eq!(r.gas_used, 1234);
    assert_eq!(r.height, 77);
    assert_eq!(r.hash, hex::encode(wrapper_hash(&tx)));
}

#[test]
fn not_applied_reports_hash() {
    let tx = sample_tx(1);
    let bytes = encode_tx(&tx);
    let response = ChainResponse {
        applied: false,
        code: 1,
        gas_used: 0,
        height: 0,
        info: String::new(),
        log: String::new(),
        results: vec![],
    };
    match process_response(&bytes, response) {
        Err(SubmitError::NotApplied(h)) => assert_eq!(h, hex::encode(wrapper_hash(&tx))),
        _ => panic!("expected NotApplied"),
    }
}

#[test]
fn chain_id_guard_precedes_key_checks() {
    let env = build_genesis_bond(&bond(1, vec![public_key(&seed(3))]), &vec![]);
    for key in [None, Some("zz".to_string()), Some(hex::encode(seed(3)))] {
        assert_eq!(sign_tx(&env, key, Some(b"other-chain".to_vec())), Err(SignError::ChainIdMismatch));
    }
}

#[test]
fn two_phase_signing() {
    let s = seed(3);
    let pk = public_key(&s);
    let env = build_genesis_bond(&bond(1, vec![vec![1; 32], pk.clone()]), &vec![]);
    let signed = sign_tx(&env, Some(hex::encode(&s)), Some(b"namada-genesis".to_vec())).unwrap();
    let tx = decode_tx(&signed).unwrap();
    assert_eq!(tx.sections.len(), 4);
    let raw = raw_header_hash(&tx);
    let vk = ed25519_consensus::VerificationKey::try_from(pk.as_slice()).unwrap();
    match &tx.sections[2] {
        Section::Authorization { targets, signatures } => {
            assert_eq!(targets, &vec![raw.clone()]);
            assert_eq!(signatures[0].index, 1);
            let sig = ed25519_consensus::Signature::try_from(signatures[0].bytes.as_slice()).unwrap();
            assert!(vk.verify(&sig, &raw).is_ok());
        }
        _ => panic!("expected raw authorization"),
    }
    match &tx.sections[3] {
        Section::Authorization { targets, signatures } => {
            assert_ne!(targets, &vec![raw.clone()]);
            let sig = ed25519_consensus::Signature::try_from(signatures[0].bytes.as_slice()).unwrap();
            assert!(vk.verify(&sig, &targets[0]).is_ok());
        }
        _ => panic!("expected wrapper authorization"),
    }
    let sigs = get_tx_signature(&signed, "tpk").unwrap();
    assert_eq!(sigs.len(), 1);
    assert_eq!(sigs[0].pub_key, "tpk");
    assert_eq!(sigs[0].signature.len(), 128);
}

#[test]
fn shielded_source_signs_wrapper_only() {
    let s = seed(3);
    let tx = sample_tx(1);
    let env = serialize_tx_result(&tx, vec![], sample_requirements(vec![], false));
    let signed = sign_tx(&env, Some(hex::encode(&s)), None).unwrap();
    assert_eq!(decode_tx(&signed).unwrap().sections.len(), 4);
    assert_eq!(get_tx_signature(&encode_tx(&tx), "k").unwrap_err(), AssemblyError::NoRawSignature);
}

#[test]
fn signing_key_errors() {
    let env = build_genesis_bond(&bond(1, vec![public_key(&seed(3))]), &vec![]);
    assert_eq!(sign_tx(&env, None, None), Err(SignError::MissingSigningKey));
    assert_eq!(sign_tx(&env, Some("xyz".to_string()), None), Err(SignError::InvalidKey));
    assert_eq!(sign_tx(&env, Some("abcd".to_string()), None), Err(SignError::InvalidKey));
    assert_eq!(sign_tx(&env, Some(hex::encode(seed(4))), None), Err(SignError::MissingSigningKey));
    assert_eq!(sign_tx(&vec![3], None, None), Err(SignError::Decode(DecodeError::UnsupportedVersion(3))));
}

#[test]
fn append_signatures() {
    let tx = sample_tx(1);
    let bytes = encode_tx(&tx);
    let msg = SignatureMsg {
        signer_index: 2,
        raw_indices: vec![0, 1],
        raw_signature: vec![0x33; 64],
        wrapper_indices: vec![4],
        wrapper_signature: vec![0x44; 64],
    };
    let out = decode_tx(&append_signature(&bytes, msg).unwrap()).unwrap();
    assert_eq!(out.sections.len(), 5);
    match &out.sections[3] {
        Section::Authorization { targets, signatures } => {
            assert_eq!(targets.len(), 2);
            assert_eq!(targets[0], raw_header_hash(&tx));
            assert_eq!(signatures[0].index, 2);
            assert_eq!(signatures[0].bytes, vec![0x33; 64]);
        }
        _ => panic!("expected authorization"),
    }
    let bad = SignatureMsg {
        signer_index: 0,
        raw_indices: vec![9],
        raw_signature: vec![],
        wrapper_indices: vec![],
        wrapper_signature: vec![],
    };
    assert_eq!(append_signature(&bytes, bad), Err(AssemblyError::BadIndex));
}

#[test]
fn arbitrary_sign_and_verify() {
    let s = seed(7);
    let pk = hex::encode(public_key(&s));
    let (hash, sig) = sign_arbitrary(&hex::encode(&s), "hello namada").unwrap();
    assert_eq!(hash.len(), 64);
    assert_eq!(sig.len(), 128);
    assert_eq!(verify_arbitrary(&pk, &hash, &sig), Ok(true));
    let mut raw = hex::decode(&sig).unwrap();
    raw[10] ^= 1;
    assert_eq!(verify_arbitrary(&pk, &hash, &hex::encode(raw)), Ok(false));
}

#[test]
fn arbitrary_digest_is_sha256() {
    let (hash, _) = sign_arbitrary(&hex::encode(seed(1)), "").unwrap();
    assert_eq!(hash, "e3b0c44298fc1c149afbf4c8996fb92427ae41e4649b934ca495991b7852b855");
}

#[test]
fn arbitrary_errors() {
    assert_eq!(sign_arbitrary("nothex", "x"), Err(ArbitraryError::InvalidKey));
    assert_eq!(sign_arbitrary("abcd", "x"), Err(ArbitraryError::InvalidKey));
    let k = "00".repeat(32);
    assert_eq!(verify_arbitrary("zz", &k, &k), Err(ArbitraryError::InvalidKey));
    assert_eq!(verify_arbitrary(&k, "abc", &k), Err(ArbitraryError::InvalidHash));
    assert_eq!(verify_arbitrary(&k, &k, &k), Err(ArbitraryError::InvalidSignature));
}

#[test]
fn other_tx_kinds_round_trip() {
    for kind in [TxType::Raw, TxType::Decrypted, TxType::Protocol] {
        let mut tx = sample_tx(0);
        tx.header.tx_type = kind;
        tx.sections = vec![Section::Code { salt: u64::MAX, commitment: vec![], tag: None }];
        tx.commitments = vec![];
        let bytes = encode_tx(&tx);
        let back = decode_tx(&bytes).unwrap();
        assert_eq!(encode_tx(&back), bytes);
        match &back.sections[0] {
            Section::Code { salt, tag, .. } => {
                assert_eq!(*salt, u64::MAX);
                assert!(tag.is_none());
            }
            _ => panic!("expected code"),
        }
    }
}

#[test]
fn signing_a_batch_signs_each_requirement() {
    let s = seed(5);
    let pk = public_key(&s);
    let a = build_genesis_bond(&bond(1, vec![pk.clone()]), &vec![]);
    let b = build_genesis_bond(&bond(2, vec![vec![2; 32], pk.clone()]), &vec![]);
    let batch = build_batch(&vec![a, b]).unwrap();
    let signed = sign_tx(&batch, Some(hex::encode(&s)), None).unwrap();
    let tx = decode_tx(&signed).unwrap();
    assert_eq!(tx.sections.len(), 4 + 3);
    match (&tx.sections[4], &tx.sections[5]) {
        (
            Section::Authorization { signatures: first, .. },
            Section::Authorization { signatures: second, .. },
        ) => {
            assert_eq!(first[0].index, 0);
            assert_eq!(second[0].index, 1);
        }
        _ => panic!("expected two raw authorizations"),
    }
}
