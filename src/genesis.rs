//! The genesis bond: a fee-free bond transaction with fixed placeholder
//! fields, built without a chain client so that every participant derives
//! the same bytes.
use crate::codec::{copy_bytes, enc_bytes, enc_u64, views, write_bytes, write_u64, Codec};
use crate::crypto::{ed25519_public_key, ed25519_public_of, sha256, sha256_of};
use crate::envelope::{
    enc_envelope, encode_envelope, encode_tx, Envelope, EnvelopeModel, SigningRequirements,
    SigningRequirementsModel,
};
use crate::tx::{
    Header, IndexedBytes, RawTransaction, RawTransactionModel, Section, SectionModel, TxType,
    TxTypeModel, WrapperFee, WrapperFeeModel,
};
use vstd::prelude::*;

verus! {

/// Mon Jan 01 2001 01:01:01 UTC, in seconds since the Unix epoch.
pub const GENESIS_TIMESTAMP: u64 = 978310861;

/// What a genesis bond states.
pub struct BondArgs {
    pub validator: Vec<u8>,
    pub amount: u64,
    pub source: Vec<u8>,
    /// The source's signing keys; each gets its position as index.
    pub signing_keys: Vec<Vec<u8>>,
}

pub struct BondArgsModel {
    pub validator: Seq<u8>,
    pub amount: u64,
    pub source: Seq<u8>,
    pub signing_keys: Seq<Seq<u8>>,
}

impl View for BondArgs {
    type V = BondArgsModel;

    open spec fn view(&self) -> BondArgsModel {
        BondArgsModel {
            validator: self.validator@,
            amount: self.amount,
            source: self.source@,
            signing_keys: views(self.signing_keys@),
        }
    }
}

/// "namada-genesis"
pub open spec fn genesis_chain_id() -> Seq<u8> {
    seq![110u8, 97, 109, 97, 100, 97, 45, 103, 101, 110, 101, 115, 105, 115]
}

/// "tx_bond.wasm"
pub open spec fn bond_code_tag() -> Seq<u8> {
    seq![116u8, 120, 95, 98, 111, 110, 100, 46, 119, 97, 115, 109]
}

/// Thirty-two zero bytes.
pub open spec fn zeros32() -> Seq<u8> {
    Seq::new(32, |i: int| 0u8)
}

/// The placeholder fee payer: the key of the all-zero seed.
pub open spec fn genesis_fee_payer() -> Seq<u8> {
    ed25519_public_of(zeros32())
}

/// The bond payload: validator, amount and source.
pub open spec fn bond_payload(a: BondArgsModel) -> Seq<u8> {
    enc_bytes(a.validator) + enc_u64(a.amount) + enc_bytes(a.source)
}

pub open spec fn genesis_code() -> SectionModel {
    SectionModel::Code { salt: 0, commitment: zeros32(), tag: Some(bond_code_tag()) }
}

pub open spec fn genesis_data(a: BondArgsModel) -> SectionModel {
    SectionModel::Data { salt: 0, payload: bond_payload(a) }
}

/// The genesis bond transaction.
pub open spec fn genesis_tx(a: BondArgsModel) -> RawTransactionModel {
    RawTransactionModel {
        chain_id: genesis_chain_id(),
        timestamp: GENESIS_TIMESTAMP,
        tx_type: TxTypeModel::Wrapper(
            WrapperFeeModel {
                amount_per_gas_unit: 0,
                token: sha256_of(genesis_fee_payer()),
                fee_payer: genesis_fee_payer(),
                gas_limit: 0,
            },
        ),
        sections: seq![genesis_code(), genesis_data(a)],
        commitments: seq![sha256_of(Section::enc(genesis_code()) + Section::enc(genesis_data(a)))],
    }
}

/// The signing keys with their positions as indices.
pub open spec fn indexed_keys(keys: Seq<Seq<u8>>) -> Seq<(u8, Seq<u8>)> {
    Seq::new(keys.len(), |i: int| (i as u8, keys[i]))
}

/// The genesis requirements: the source signs with threshold 1.
pub open spec fn genesis_requirements(a: BondArgsModel) -> SigningRequirementsModel {
    SigningRequirementsModel {
        owner: a.source,
        account_public_keys_map: Some(indexed_keys(a.signing_keys)),
        public_keys: a.signing_keys,
        threshold: 1,
        fee_payer: genesis_fee_payer(),
    }
}

/// The envelope that `build_genesis_bond` encodes.
pub open spec fn genesis_envelope(a: BondArgsModel, wrapper_args: Seq<u8>) -> EnvelopeModel {
    EnvelopeModel {
        tx_bytes: RawTransaction::enc(genesis_tx(a)),
        wrapper_args,
        signing_requirements: seq![genesis_requirements(a)],
    }
}

/// Building the genesis bond twice from the same arguments gives the same bytes.
pub proof fn lemma_genesis_deterministic(
    a: BondArgsModel,
    b: BondArgsModel,
    wa: Seq<u8>,
    wb: Seq<u8>,
)
    requires
        a == b,
        wa == wb,
    ensures
        enc_envelope(genesis_envelope(a, wa)) == enc_envelope(genesis_envelope(b, wb)),
{
}

fn zero_bytes_32() -> (r: Vec<u8>)
    ensures
        r@ == zeros32(),
{
    let mut r: Vec<u8> = Vec::new();
    let mut i: usize = 0;
    while i < 32
        invariant
            0 <= i <= 32,
            r@ == Seq::new(i as nat, |j: int| 0u8),
        decreases 32 - i,
    {
        r.push(0);
        i = i + 1;
        assert(r@ =~= Seq::new(i as nat, |j: int| 0u8));
    }
    r
}

/// Builds the genesis bond and returns its envelope's bytes.
pub fn build_genesis_bond(args: &BondArgs, wrapper_args: &Vec<u8>) -> (r: Vec<u8>)
    ensures
        r@ == enc_envelope(genesis_envelope(args@, wrapper_args@)),
{
    let zero = zero_bytes_32();
    let fee_payer = ed25519_public_key(zero.as_slice());
    let token = sha256(fee_payer.as_slice());
    let chain_id: Vec<u8> = vec![110u8, 97, 109, 97, 100, 97, 45, 103, 101, 110, 101, 115, 105, 115];
    assert(chain_id@ =~= genesis_chain_id());
    let tag: Vec<u8> = vec![116u8, 120, 95, 98, 111, 110, 100, 46, 119, 97, 115, 109];
    assert(tag@ =~= bond_code_tag());
    let code = Section::Code { salt: 0, commitment: zero, tag: Some(tag) };
    let mut payload: Vec<u8> = Vec::new();
    write_bytes(&mut payload, &args.validator);
    write_u64(&mut payload, args.amount);
    write_bytes(&mut payload, &args.source);
    assert(payload@ =~= bond_payload(args@));
    let data = Section::Data { salt: 0, payload };
    let mut hashed: Vec<u8> = Vec::new();
    code.write(&mut hashed);
    data.write(&mut hashed);
    let commitment = sha256(hashed.as_slice());
    let fee = WrapperFee {
        amount_per_gas_unit: 0,
        token,
        fee_payer: copy_bytes(&fee_payer),
        gas_limit: 0,
    };
    let mut sections: Vec<Section> = Vec::new();
    sections.push(code);
    sections.push(data);
    let mut commitments: Vec<Vec<u8>> = Vec::new();
    commitments.push(commitment);
    let tx = RawTransaction {
        header: Header { chain_id, timestamp: GENESIS_TIMESTAMP, tx_type: TxType::Wrapper(fee) },
        sections,
        commitments,
    };
    assert(tx@ == genesis_tx(args@)) by {
        assert(views(tx.sections@) =~= seq![genesis_code(), genesis_data(args@)]);
        assert(views(tx.commitments@) =~= genesis_tx(args@).commitments);
    }
    let mut map: Vec<IndexedBytes> = Vec::new();
    let mut public_keys: Vec<Vec<u8>> = Vec::new();
    let ghost keys = views(args.signing_keys@);
    let mut i: usize = 0;
    while i < args.signing_keys.len()
        invariant
            0 <= i <= args.signing_keys.len(),
            keys == views(args.signing_keys@),
            views(map@) == indexed_keys(keys.subrange(0, i as int)),
            views(public_keys@) == keys.subrange(0, i as int),
        decreases args.signing_keys.len() - i,
    {
        let ghost m0 = views(map@);
        let ghost p0 = views(public_keys@);
        map.push(IndexedBytes { index: i as u8, bytes: copy_bytes(&args.signing_keys[i]) });
        public_keys.push(copy_bytes(&args.signing_keys[i]));
        assert(views(map@) =~= m0.push((i as u8, keys[i as int])));
        assert(views(map@) =~= indexed_keys(keys.subrange(0, i + 1)));
        assert(views(public_keys@) =~= p0.push(keys[i as int]));
        assert(views(public_keys@) =~= keys.subrange(0, i + 1));
        i = i + 1;
    }
    assert(keys.subrange(0, keys.len() as int) =~= keys);
    let req = SigningRequirements {
        owner: copy_bytes(&args.source),
        account_public_keys_map: Some(map),
        public_keys,
        threshold: 1,
        fee_payer,
    };
    let mut reqs: Vec<SigningRequirements> = Vec::new();
    reqs.push(req);
    let env = Envelope {
        tx_bytes: encode_tx(&tx),
        wrapper_args: copy_bytes(wrapper_args),
        signing_requirements: reqs,
    };
    assert(env@ == genesis_envelope(args@, wrapper_args@)) by {
        assert(views(env.signing_requirements@) =~= seq![genesis_requirements(args@)]);
    }
    encode_envelope(&env)
}

} // verus!
