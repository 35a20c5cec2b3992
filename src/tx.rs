//! The transaction model: header, fee wrapper, sections and commitments,
//! each with its binary encoding.
use crate::codec::{
    enc_bytes, enc_u64, enc_u8, lemma_after, lemma_bytes_round_trip, lemma_suffix,
    lemma_u64_round_trip, parse_bytes, parse_u64, parse_u8, read_bytes, read_u64, read_u8,
    write_bytes, write_u64, write_u8, Codec, enc_list, enc_opt_bytes, lemma_list_round_trip,
    lemma_opt_bytes_round_trip, list_fits, opt_view, parse_list, parse_opt_bytes, read_list,
    read_opt_bytes, views, write_list, write_opt_bytes,
};
use vstd::prelude::*;

verus! {

/// A byte string tagged with a small index (a signer index, or a key's slot).
pub struct IndexedBytes {
    pub index: u8,
    pub bytes: Vec<u8>,
}

impl View for IndexedBytes {
    type V = (u8, Seq<u8>);

    open spec fn view(&self) -> (u8, Seq<u8>) {
        (self.index, self.bytes@)
    }
}

impl Codec for IndexedBytes {
    open spec fn enc(v: (u8, Seq<u8>)) -> Seq<u8> {
        enc_u8(v.0) + enc_bytes(v.1)
    }

    open spec fn parse(s: Seq<u8>) -> Option<((u8, Seq<u8>), int)> {
        match parse_u8(s) {
            Some((i, k)) => match parse_bytes(s.subrange(k, s.len() as int)) {
                Some((b, m)) => Some(((i, b), k + m)),
                None => None,
            },
            None => None,
        }
    }

    open spec fn fits(v: (u8, Seq<u8>)) -> bool {
        v.1.len() <= u64::MAX
    }

    proof fn lemma_round_trip(v: (u8, Seq<u8>), rest: Seq<u8>) {
        let s = Self::enc(v) + rest;
        assert(s =~= enc_u8(v.0) + (enc_bytes(v.1) + rest));
        lemma_after(enc_u8(v.0), enc_bytes(v.1) + rest);
        lemma_bytes_round_trip(v.1, rest);
    }

    fn write(&self, out: &mut Vec<u8>) {
        write_u8(out, self.index);
        write_bytes(out, &self.bytes);
        assert(final(out)@ =~= old(out)@ + Self::enc(self@));
    }

    fn read(data: &Vec<u8>, pos: usize) -> (r: Option<(IndexedBytes, usize)>) {
        let (index, p1) = match read_u8(data, pos) {
            Some(v) => v,
            None => return None,
        };
        proof {
            lemma_suffix(data@, pos as int, p1 as int);
        }
        match read_bytes(data, p1) {
            Some((bytes, p2)) => Some((IndexedBytes { index, bytes }, p2)),
            None => None,
        }
    }
}

/// The fee wrapper: what is paid per unit of gas, in which token, by whom.
pub struct WrapperFee {
    pub amount_per_gas_unit: u64,
    pub token: Vec<u8>,
    pub fee_payer: Vec<u8>,
    pub gas_limit: u64,
}

pub struct WrapperFeeModel {
    pub amount_per_gas_unit: u64,
    pub token: Seq<u8>,
    pub fee_payer: Seq<u8>,
    pub gas_limit: u64,
}

/// The kind of a transaction; a wrapper transaction carries its fee.
pub enum TxType {
    Raw,
    Wrapper(WrapperFee),
    Decrypted,
    Protocol,
}

pub enum TxTypeModel {
    Raw,
    Wrapper(WrapperFeeModel),
    Decrypted,
    Protocol,
}

impl View for TxType {
    type V = TxTypeModel;

    open spec fn view(&self) -> TxTypeModel {
        match self {
            TxType::Raw => TxTypeModel::Raw,
            TxType::Wrapper(w) => TxTypeModel::Wrapper(
                WrapperFeeModel {
                    amount_per_gas_unit: w.amount_per_gas_unit,
                    token: w.token@,
                    fee_payer: w.fee_payer@,
                    gas_limit: w.gas_limit,
                },
            ),
            TxType::Decrypted => TxTypeModel::Decrypted,
            TxType::Protocol => TxTypeModel::Protocol,
        }
    }
}

pub open spec fn enc_fee(w: WrapperFeeModel) -> Seq<u8> {
    enc_u64(w.amount_per_gas_unit) + enc_bytes(w.token) + enc_bytes(w.fee_payer) + enc_u64(
        w.gas_limit,
    )
}

pub open spec fn parse_fee(s: Seq<u8>) -> Option<(WrapperFeeModel, int)> {
    match parse_u64(s) {
        Some((a, k1)) => {
            let s1 = s.subrange(k1, s.len() as int);
            match parse_bytes(s1) {
                Some((t, k2)) => {
                    let s2 = s1.subrange(k2, s1.len() as int);
                    match parse_bytes(s2) {
                        Some((p, k3)) => {
                            let s3 = s2.subrange(k3, s2.len() as int);
                            match parse_u64(s3) {
                                Some((g, k4)) => Some(
                                    (
                                        WrapperFeeModel {
                                            amount_per_gas_unit: a,
                                            token: t,
                                            fee_payer: p,
                                            gas_limit: g,
                                        },
                                        k1 + k2 + k3 + k4,
                                    ),
                                ),
                                None => None,
                            }
                        },
                        None => None,
                    }
                },
                None => None,
            }
        },
        None => None,
    }
}

pub proof fn lemma_fee_round_trip(w: WrapperFeeModel, rest: Seq<u8>)
    requires
        w.token.len() <= u64::MAX,
        w.fee_payer.len() <= u64::MAX,
    ensures
        parse_fee(enc_fee(w) + rest) == Some((w, enc_fee(w).len() as int)),
{
    let e0 = enc_u64(w.amount_per_gas_unit);
    let e1 = enc_bytes(w.token);
    let e2 = enc_bytes(w.fee_payer);
    let e3 = enc_u64(w.gas_limit);
    let s = enc_fee(w) + rest;
    assert(s =~= e0 + (e1 + (e2 + (e3 + rest))));
    lemma_u64_round_trip(w.amount_per_gas_unit, e1 + (e2 + (e3 + rest)));
    lemma_after(e0, e1 + (e2 + (e3 + rest)));
    lemma_bytes_round_trip(w.token, e2 + (e3 + rest));
    lemma_after(e1, e2 + (e3 + rest));
    lemma_bytes_round_trip(w.fee_payer, e3 + rest);
    lemma_after(e2, e3 + rest);
    lemma_u64_round_trip(w.gas_limit, rest);
}

impl Codec for TxType {
    open spec fn enc(v: TxTypeModel) -> Seq<u8> {
        match v {
            TxTypeModel::Raw => enc_u8(0),
            TxTypeModel::Wrapper(w) => enc_u8(1) + enc_fee(w),
            TxTypeModel::Decrypted => enc_u8(2),
            TxTypeModel::Protocol => enc_u8(3),
        }
    }

    open spec fn parse(s: Seq<u8>) -> Option<(TxTypeModel, int)> {
        match parse_u8(s) {
            Some((t, k)) => if t == 0 {
                Some((TxTypeModel::Raw, k))
            } else if t == 1 {
                match parse_fee(s.subrange(k, s.len() as int)) {
                    Some((w, m)) => Some((TxTypeModel::Wrapper(w), k + m)),
                    None => None,
                }
            } else if t == 2 {
                Some((TxTypeModel::Decrypted, k))
            } else if t == 3 {
                Some((TxTypeModel::Protocol, k))
            } else {
                None
            },
            None => None,
        }
    }

    open spec fn fits(v: TxTypeModel) -> bool {
        v matches TxTypeModel::Wrapper(w) ==> w.token.len() <= u64::MAX && w.fee_payer.len()
            <= u64::MAX
    }

    proof fn lemma_round_trip(v: TxTypeModel, rest: Seq<u8>) {
        if let TxTypeModel::Wrapper(w) = v {
            let s = Self::enc(v) + rest;
            assert(s =~= enc_u8(1) + (enc_fee(w) + rest));
            lemma_after(enc_u8(1), enc_fee(w) + rest);
            lemma_fee_round_trip(w, rest);
        }
    }

    fn write(&self, out: &mut Vec<u8>) {
        match self {
            TxType::Raw => write_u8(out, 0),
            TxType::Wrapper(w) => {
                write_u8(out, 1);
                write_u64(out, w.amount_per_gas_unit);
                write_bytes(out, &w.token);
                write_bytes(out, &w.fee_payer);
                write_u64(out, w.gas_limit);
                assert(final(out)@ =~= old(out)@ + Self::enc(self@));
            },
            TxType::Decrypted => write_u8(out, 2),
            TxType::Protocol => write_u8(out, 3),
        }
    }

    fn read(data: &Vec<u8>, pos: usize) -> (r: Option<(TxType, usize)>) {
        let (t, p1) = match read_u8(data, pos) {
            Some(v) => v,
            None => return None,
        };
        proof {
            lemma_suffix(data@, pos as int, p1 as int);
        }
        if t == 0 {
            Some((TxType::Raw, p1))
        } else if t == 1 {
            let (a, p2) = match read_u64(data, p1) {
                Some(v) => v,
                None => return None,
            };
            proof {
                lemma_suffix(data@, p1 as int, p2 as int);
            }
            let (token, p3) = match read_bytes(data, p2) {
                Some(v) => v,
                None => return None,
            };
            proof {
                lemma_suffix(data@, p2 as int, p3 as int);
            }
            let (fee_payer, p4) = match read_bytes(data, p3) {
                Some(v) => v,
                None => return None,
            };
            proof {
                lemma_suffix(data@, p3 as int, p4 as int);
            }
            let (g, p5) = match read_u64(data, p4) {
                Some(v) => v,
                None => return None,
            };
            let w = WrapperFee { amount_per_gas_unit: a, token, fee_payer, gas_limit: g };
            Some((TxType::Wrapper(w), p5))
        } else if t == 2 {
            Some((TxType::Decrypted, p1))
        } else if t == 3 {
            Some((TxType::Protocol, p1))
        } else {
            None
        }
    }
}

/// One section of a transaction.
pub enum Section {
    /// The code to run: a salt, the code's hash and an optional label.
    Code { salt: u64, commitment: Vec<u8>, tag: Option<Vec<u8>> },
    /// The code's input.
    Data { salt: u64, payload: Vec<u8> },
    /// Signatures over the listed section hashes, by signer index.
    Authorization { targets: Vec<Vec<u8>>, signatures: Vec<IndexedBytes> },
}

pub enum SectionModel {
    Code { salt: u64, commitment: Seq<u8>, tag: Option<Seq<u8>> },
    Data { salt: u64, payload: Seq<u8> },
    Authorization { targets: Seq<Seq<u8>>, signatures: Seq<(u8, Seq<u8>)> },
}

impl View for Section {
    type V = SectionModel;

    open spec fn view(&self) -> SectionModel {
        match self {
            Section::Code { salt, commitment, tag } => SectionModel::Code {
                salt: *salt,
                commitment: commitment@,
                tag: opt_view(*tag),
            },
            Section::Data { salt, payload } => SectionModel::Data { salt: *salt, payload: payload@ },
            Section::Authorization { targets, signatures } => SectionModel::Authorization {
                targets: views(targets@),
                signatures: views(signatures@),
            },
        }
    }
}

impl SectionModel {
    pub open spec fn is_authorization(self) -> bool {
        self matches SectionModel::Authorization { .. }
    }
}

impl Section {
    pub fn is_authorization(&self) -> (r: bool)
        ensures
            r == self@.is_authorization(),
    {
        match self {
            Section::Authorization { .. } => true,
            _ => false,
        }
    }
}

pub open spec fn parse_code(s: Seq<u8>) -> Option<(SectionModel, int)> {
    match parse_u64(s) {
        Some((salt, k1)) => {
            let s1 = s.subrange(k1, s.len() as int);
            match parse_bytes(s1) {
                Some((c, k2)) => {
                    let s2 = s1.subrange(k2, s1.len() as int);
                    match parse_opt_bytes(s2) {
                        Some((t, k3)) => Some(
                            (SectionModel::Code { salt, commitment: c, tag: t }, k1 + k2 + k3),
                        ),
                        None => None,
                    }
                },
                None => None,
            }
        },
        None => None,
    }
}

pub open spec fn parse_data(s: Seq<u8>) -> Option<(SectionModel, int)> {
    match parse_u64(s) {
        Some((salt, k1)) => match parse_bytes(s.subrange(k1, s.len() as int)) {
            Some((p, k2)) => Some((SectionModel::Data { salt, payload: p }, k1 + k2)),
            None => None,
        },
        None => None,
    }
}

pub open spec fn parse_authorization(s: Seq<u8>) -> Option<(SectionModel, int)> {
    match parse_list::<Vec<u8>>(s) {
        Some((t, k1)) => match parse_list::<IndexedBytes>(s.subrange(k1, s.len() as int)) {
            Some((g, k2)) => Some(
                (SectionModel::Authorization { targets: t, signatures: g }, k1 + k2),
            ),
            None => None,
        },
        None => None,
    }
}

proof fn lemma_code_round_trip(
    salt: u64,
    commitment: Seq<u8>,
    tag: Option<Seq<u8>>,
    rest: Seq<u8>,
)
    requires
        commitment.len() <= u64::MAX,
        tag matches Some(b) ==> b.len() <= u64::MAX,
    ensures
        ({
            let e = enc_u64(salt) + enc_bytes(commitment) + enc_opt_bytes(tag);
            parse_code(e + rest) == Some(
                (SectionModel::Code { salt, commitment, tag }, e.len() as int),
            )
        }),
{
    let e1 = enc_u64(salt);
    let e2 = enc_bytes(commitment);
    let e3 = enc_opt_bytes(tag);
    assert(e1 + e2 + e3 + rest =~= e1 + (e2 + (e3 + rest)));
    lemma_u64_round_trip(salt, e2 + (e3 + rest));
    lemma_after(e1, e2 + (e3 + rest));
    lemma_bytes_round_trip(commitment, e3 + rest);
    lemma_after(e2, e3 + rest);
    lemma_opt_bytes_round_trip(tag, rest);
}

proof fn lemma_data_round_trip(salt: u64, payload: Seq<u8>, rest: Seq<u8>)
    requires
        payload.len() <= u64::MAX,
    ensures
        ({
            let e = enc_u64(salt) + enc_bytes(payload);
            parse_data(e + rest) == Some((SectionModel::Data { salt, payload }, e.len() as int))
        }),
{
    let e1 = enc_u64(salt);
    let e2 = enc_bytes(payload);
    assert(e1 + e2 + rest =~= e1 + (e2 + rest));
    lemma_u64_round_trip(salt, e2 + rest);
    lemma_after(e1, e2 + rest);
    lemma_bytes_round_trip(payload, rest);
}

proof fn lemma_authorization_round_trip(
    targets: Seq<Seq<u8>>,
    signatures: Seq<(u8, Seq<u8>)>,
    rest: Seq<u8>,
)
    requires
        list_fits::<Vec<u8>>(targets),
        list_fits::<IndexedBytes>(signatures),
    ensures
        ({
            let e = enc_list::<Vec<u8>>(targets) + enc_list::<IndexedBytes>(signatures);
            parse_authorization(e + rest) == Some(
                (SectionModel::Authorization { targets, signatures }, e.len() as int),
            )
        }),
{
    let e1 = enc_list::<Vec<u8>>(targets);
    let e2 = enc_list::<IndexedBytes>(signatures);
    assert(e1 + e2 + rest =~= e1 + (e2 + rest));
    lemma_list_round_trip::<Vec<u8>>(targets, e2 + rest);
    lemma_after(e1, e2 + rest);
    lemma_list_round_trip::<IndexedBytes>(signatures, rest);
}

impl Codec for Section {
    open spec fn enc(v: SectionModel) -> Seq<u8> {
        match v {
            SectionModel::Code { salt, commitment, tag } => enc_u8(0) + enc_u64(salt) + enc_bytes(
                commitment,
            ) + enc_opt_bytes(tag),
            SectionModel::Data { salt, payload } => enc_u8(1) + enc_u64(salt) + enc_bytes(payload),
            SectionModel::Authorization { targets, signatures } => enc_u8(2) + enc_list::<
                Vec<u8>,
            >(targets) + enc_list::<IndexedBytes>(signatures),
        }
    }

    open spec fn parse(s: Seq<u8>) -> Option<(SectionModel, int)> {
        match parse_u8(s) {
            Some((t, k)) => {
                let r = if t == 0 {
                    parse_code(s.subrange(k, s.len() as int))
                } else if t == 1 {
                    parse_data(s.subrange(k, s.len() as int))
                } else if t == 2 {
                    parse_authorization(s.subrange(k, s.len() as int))
                } else {
                    None
                };
                match r {
                    Some((v, m)) => Some((v, k + m)),
                    None => None,
                }
            },
            None => None,
        }
    }

    open spec fn fits(v: SectionModel) -> bool {
        match v {
            SectionModel::Code { commitment, tag, .. } => commitment.len() <= u64::MAX && (
            tag matches Some(b) ==> b.len() <= u64::MAX),
            SectionModel::Data { payload, .. } => payload.len() <= u64::MAX,
            SectionModel::Authorization { targets, signatures } => list_fits::<Vec<u8>>(targets)
                && list_fits::<IndexedBytes>(signatures),
        }
    }

    proof fn lemma_round_trip(v: SectionModel, rest: Seq<u8>) {
        let s = Self::enc(v) + rest;
        let body = Self::enc(v).subrange(1, Self::enc(v).len() as int);
        assert(Self::enc(v) =~= enc_u8(Self::enc(v)[0]) + body);
        assert(s =~= enc_u8(Self::enc(v)[0]) + (body + rest));
        lemma_after(enc_u8(Self::enc(v)[0]), body + rest);
        match v {
            SectionModel::Code { salt, commitment, tag } => {
                assert(body =~= enc_u64(salt) + enc_bytes(commitment) + enc_opt_bytes(tag));
                lemma_code_round_trip(salt, commitment, tag, rest);
            },
            SectionModel::Data { salt, payload } => {
                assert(body =~= enc_u64(salt) + enc_bytes(payload));
                lemma_data_round_trip(salt, payload, rest);
            },
            SectionModel::Authorization { targets, signatures } => {
                assert(body =~= enc_list::<Vec<u8>>(targets) + enc_list::<IndexedBytes>(signatures));
                lemma_authorization_round_trip(targets, signatures, rest);
            },
        }
    }

    fn write(&self, out: &mut Vec<u8>) {
        match self {
            Section::Code { salt, commitment, tag } => {
                write_u8(out, 0);
                write_u64(out, *salt);
                write_bytes(out, commitment);
                write_opt_bytes(out, tag);
            },
            Section::Data { salt, payload } => {
                write_u8(out, 1);
                write_u64(out, *salt);
                write_bytes(out, payload);
            },
            Section::Authorization { targets, signatures } => {
                write_u8(out, 2);
                write_list(out, targets);
                write_list(out, signatures);
            },
        }
        assert(final(out)@ =~= old(out)@ + Self::enc(self@));
    }

    fn read(data: &Vec<u8>, pos: usize) -> (r: Option<(Section, usize)>) {
        let (t, p1) = match read_u8(data, pos) {
            Some(v) => v,
            None => return None,
        };
        proof {
            lemma_suffix(data@, pos as int, p1 as int);
        }
        if t == 0 {
            let (salt, p2) = match read_u64(data, p1) {
                Some(v) => v,
                None => return None,
            };
            proof {
                lemma_suffix(data@, p1 as int, p2 as int);
            }
            let (commitment, p3) = match read_bytes(data, p2) {
                Some(v) => v,
                None => return None,
            };
            proof {
                lemma_suffix(data@, p2 as int, p3 as int);
            }
            let (tag, p4) = match read_opt_bytes(data, p3) {
                Some(v) => v,
                None => return None,
            };
            Some((Section::Code { salt, commitment, tag }, p4))
        } else if t == 1 {
            let (salt, p2) = match read_u64(data, p1) {
                Some(v) => v,
                None => return None,
            };
            proof {
                lemma_suffix(data@, p1 as int, p2 as int);
            }
            let (payload, p3) = match read_bytes(data, p2) {
                Some(v) => v,
                None => return None,
            };
            Some((Section::Data { salt, payload }, p3))
        } else if t == 2 {
            let (targets, p2) = match read_list::<Vec<u8>>(data, p1) {
                Some(v) => v,
                None => return None,
            };
            proof {
                lemma_suffix(data@, p1 as int, p2 as int);
            }
            let (signatures, p3) = match read_list::<IndexedBytes>(data, p2) {
                Some(v) => v,
                None => return None,
            };
            Some((Section::Authorization { targets, signatures }, p3))
        } else {
            None
        }
    }
}

/// The transaction header.
pub struct Header {
    pub chain_id: Vec<u8>,
    /// Seconds since the Unix epoch, UTC.
    pub timestamp: u64,
    pub tx_type: TxType,
}

/// A transaction: header, ordered sections, and one commitment hash per
/// atomic sub-transaction.
pub struct RawTransaction {
    pub header: Header,
    pub sections: Vec<Section>,
    pub commitments: Vec<Vec<u8>>,
}

pub struct RawTransactionModel {
    pub chain_id: Seq<u8>,
    pub timestamp: u64,
    pub tx_type: TxTypeModel,
    pub sections: Seq<SectionModel>,
    pub commitments: Seq<Seq<u8>>,
}

impl View for RawTransaction {
    type V = RawTransactionModel;

    open spec fn view(&self) -> RawTransactionModel {
        RawTransactionModel {
            chain_id: self.header.chain_id@,
            timestamp: self.header.timestamp,
            tx_type: self.header.tx_type@,
            sections: views(self.sections@),
            commitments: views(self.commitments@),
        }
    }
}

pub open spec fn parse_tx_tail(s: Seq<u8>) -> Option<
    ((TxTypeModel, Seq<SectionModel>, Seq<Seq<u8>>), int),
> {
    match TxType::parse(s) {
        Some((t, k1)) => {
            let s1 = s.subrange(k1, s.len() as int);
            match parse_list::<Section>(s1) {
                Some((secs, k2)) => {
                    let s2 = s1.subrange(k2, s1.len() as int);
                    match parse_list::<Vec<u8>>(s2) {
                        Some((cs, k3)) => Some(((t, secs, cs), k1 + k2 + k3)),
                        None => None,
                    }
                },
                None => None,
            }
        },
        None => None,
    }
}

proof fn lemma_tx_tail_round_trip(
    t: TxTypeModel,
    secs: Seq<SectionModel>,
    cs: Seq<Seq<u8>>,
    rest: Seq<u8>,
)
    requires
        TxType::fits(t),
        list_fits::<Section>(secs),
        list_fits::<Vec<u8>>(cs),
    ensures
        ({
            let e = TxType::enc(t) + enc_list::<Section>(secs) + enc_list::<Vec<u8>>(cs);
            parse_tx_tail(e + rest) == Some(((t, secs, cs), e.len() as int))
        }),
{
    let e1 = TxType::enc(t);
    let e2 = enc_list::<Section>(secs);
    let e3 = enc_list::<Vec<u8>>(cs);
    assert(e1 + e2 + e3 + rest =~= e1 + (e2 + (e3 + rest)));
    TxType::lemma_round_trip(t, e2 + (e3 + rest));
    lemma_after(e1, e2 + (e3 + rest));
    lemma_list_round_trip::<Section>(secs, e3 + rest);
    lemma_after(e2, e3 + rest);
    lemma_list_round_trip::<Vec<u8>>(cs, rest);
}

impl Codec for RawTransaction {
    open spec fn enc(v: RawTransactionModel) -> Seq<u8> {
        enc_bytes(v.chain_id) + enc_u64(v.timestamp) + TxType::enc(v.tx_type) + enc_list::<
            Section,
        >(v.sections) + enc_list::<Vec<u8>>(v.commitments)
    }

    open spec fn parse(s: Seq<u8>) -> Option<(RawTransactionModel, int)> {
        match parse_bytes(s) {
            Some((c, k1)) => {
                let s1 = s.subrange(k1, s.len() as int);
                match parse_u64(s1) {
                    Some((ts, k2)) => match parse_tx_tail(s1.subrange(k2, s1.len() as int)) {
                        Some(((t, secs, cs), k3)) => Some(
                            (
                                RawTransactionModel {
                                    chain_id: c,
                                    timestamp: ts,
                                    tx_type: t,
                                    sections: secs,
                                    commitments: cs,
                                },
                                k1 + k2 + k3,
                            ),
                        ),
                        None => None,
                    },
                    None => None,
                }
            },
            None => None,
        }
    }

    open spec fn fits(v: RawTransactionModel) -> bool {
        &&& v.chain_id.len() <= u64::MAX
        &&& TxType::fits(v.tx_type)
        &&& list_fits::<Section>(v.sections)
        &&& list_fits::<Vec<u8>>(v.commitments)
    }

    proof fn lemma_round_trip(v: RawTransactionModel, rest: Seq<u8>) {
        let e1 = enc_bytes(v.chain_id);
        let e2 = enc_u64(v.timestamp);
        let e3 = TxType::enc(v.tx_type) + enc_list::<Section>(v.sections) + enc_list::<Vec<u8>>(
            v.commitments,
        );
        assert(Self::enc(v) + rest =~= e1 + (e2 + (e3 + rest)));
        lemma_bytes_round_trip(v.chain_id, e2 + (e3 + rest));
        lemma_after(e1, e2 + (e3 + rest));
        lemma_u64_round_trip(v.timestamp, e3 + rest);
        lemma_after(e2, e3 + rest);
        lemma_tx_tail_round_trip(v.tx_type, v.sections, v.commitments, rest);
    }

    fn write(&self, out: &mut Vec<u8>) {
        write_bytes(out, &self.header.chain_id);
        write_u64(out, self.header.timestamp);
        self.header.tx_type.write(out);
        write_list(out, &self.sections);
        write_list(out, &self.commitments);
        assert(final(out)@ =~= old(out)@ + Self::enc(self@));
    }

    fn read(data: &Vec<u8>, pos: usize) -> (r: Option<(RawTransaction, usize)>) {
        let (chain_id, p1) = match read_bytes(data, pos) {
            Some(v) => v,
            None => return None,
        };
        proof {
            lemma_suffix(data@, pos as int, p1 as int);
        }
        let (timestamp, p2) = match read_u64(data, p1) {
            Some(v) => v,
            None => return None,
        };
        proof {
            lemma_suffix(data@, p1 as int, p2 as int);
        }
        let (tx_type, p3) = match TxType::read(data, p2) {
            Some(v) => v,
            None => return None,
        };
        proof {
            lemma_suffix(data@, p2 as int, p3 as int);
        }
        let (sections, p4) = match read_list::<Section>(data, p3) {
            Some(v) => v,
            None => return None,
        };
        proof {
            lemma_suffix(data@, p3 as int, p4 as int);
        }
        let (commitments, p5) = match read_list::<Vec<u8>>(data, p4) {
            Some(v) => v,
            None => return None,
        };
        let tx = RawTransaction {
            header: Header { chain_id, timestamp, tx_type },
            sections,
            commitments,
        };
        Some((tx, p5))
    }
}

} // verus!
