//! Addresses, hashes, signature algorithms and transactions.
use crate::bytes::{
    append_bytes, be_bytes, be_encode, lemma_be_bytes_injective, lemma_be_bytes_len,
    lemma_pow256_values, pow256,
};
use crate::digest::{blake3_digest, blake3_hash};
use crate::hexcode::{
    hex_bytes, hex_decode_32, hex_digit, hex_digit_value, hex_encode, hex_text, is_hex,
};
use crate::word::{lemma_word_bound, PqU256};
use vstd::prelude::*;

verus! {

/// A byte string.
pub type PqBytes = Vec<u8>;

/// A 32-byte hash.
#[derive(Clone, Copy, Debug, PartialEq, Eq, PartialOrd, Ord, Hash)]
pub struct PqHash(pub [u8; 32]);

impl View for PqHash {
    type V = Seq<u8>;

    open spec fn view(&self) -> Seq<u8> {
        self.0@
    }
}

/// 32 zero bytes.
pub open spec fn zero_bytes_32() -> Seq<u8> {
    Seq::new(32, |i: int| 0u8)
}

impl PqHash {
    pub fn zero() -> (hash: PqHash)
        ensures
            hash@ == zero_bytes_32(),
    {
        let hash = PqHash([0u8;32]);
        assert(hash@ =~= zero_bytes_32());
        hash
    }
}

impl Default for PqHash {
    fn default() -> (hash: Self)
        ensures
            hash@ == zero_bytes_32(),
    {
        PqHash::zero()
    }
}

/// What can be wrong with a textual address or an algorithm byte.
#[derive(Clone, Copy, Debug, PartialEq, Eq, Structural)]
pub enum PrimitiveError {
    AddressMissingHexPrefix,
    AddressLength { got: usize },
    InvalidHex,
    UnknownAlgoId(u8),
}

/// Native 32-byte Shell-Chain address.
#[derive(Clone, Copy, Debug, PartialEq, Eq, PartialOrd, Ord, Hash)]
pub struct PQAddress(pub [u8; 32]);

impl View for PQAddress {
    type V = Seq<u8>;

    open spec fn view(&self) -> Seq<u8> {
        self.0@
    }
}

impl Default for PQAddress {
    fn default() -> (address: Self)
        ensures
            address@ == zero_bytes_32(),
    {
        PQAddress::zero()
    }
}

/// What an account address is the digest of: the algorithm byte and the public key.
pub open spec fn account_message(algo_id: u8, public_key: Seq<u8>) -> Seq<u8> {
    seq![algo_id] + public_key
}

/// The address of the account of a public key.
pub open spec fn account_address(algo_id: u8, public_key: Seq<u8>) -> Seq<u8> {
    blake3_digest(account_message(algo_id, public_key))
}

/// How an address is written: `0x` and 64 lowercase hexadecimal digits.
pub open spec fn address_text(address: Seq<u8>) -> Seq<char> {
    seq!['0', 'x'] + hex_text(address)
}

/// What the UTF-8 text of an address stands for, or what is wrong with it.
pub open spec fn parse_address(text: Seq<u8>) -> Result<Seq<u8>, PrimitiveError> {
    let digits = text.skip(2);
    if text.len() < 2 || text[0] != 48 || text[1] != 120 {
        Err(PrimitiveError::AddressMissingHexPrefix)
    } else if digits.len() != 64 {
        Err(PrimitiveError::AddressLength { got: digits.len() as usize })
    } else if !is_hex(digits) {
        Err(PrimitiveError::InvalidHex)
    } else {
        Ok(hex_bytes(digits))
    }
}

/// What the text of an address stands for, or what is wrong with it.
pub open spec fn read_address(text: Seq<char>) -> Result<Seq<u8>, PrimitiveError> {
    parse_address(vstd::utf8::encode_utf8(text))
}

impl PQAddress {
    /// The address of the account of a serialized public key.
    pub fn derive(algo_id: u8, public_key: &[u8]) -> (address: PQAddress)
        ensures
            address@ == account_address(algo_id, public_key@),
    {
        let message = PQAddress::derivation_message(algo_id, public_key);
        PQAddress(blake3_hash(message.as_slice()))
    }

    /// The byte string whose digest is the address of a public key.
    pub fn derivation_message(algo_id: u8, public_key: &[u8]) -> (message: Vec<u8>)
        ensures
            message@ == account_message(algo_id, public_key@),
    {
        let mut message: Vec<u8> = Vec::new();
        message.push(algo_id);
        append_bytes(&mut message, public_key);
        assert(message@ =~= account_message(algo_id, public_key@));
        message
    }

    pub fn zero() -> (address: PQAddress)
        ensures
            address@ == zero_bytes_32(),
    {
        let address = PQAddress([0u8;32]);
        assert(address@ =~= zero_bytes_32());
        address
    }

    pub fn as_bytes(&self) -> (bytes: &[u8; 32])
        ensures
            *bytes == self.0,
            bytes@ == self@,
    {
        &self.0
    }

    /// The text of the address.
    pub fn to_string(&self) -> (text: String)
        ensures
            text@ == address_text(self@),
    {
        let digits = hex_encode(self.0.as_slice());
        let text = "0x".to_owned().concat(digits.as_str());
        proof {
            reveal_strlit("0x");
            assert(text@ =~= address_text(self@));
        }
        text
    }

    /// Reads an address in the form that `to_string` writes, with digits of either
    /// case.
    pub fn from_str(input: &str) -> (parsed: Result<PQAddress, PrimitiveError>)
        ensures
            parsed matches Ok(address) ==> read_address(input@) == Ok::<Seq<u8>, PrimitiveError>(
                address@,
            ),
            parsed matches Err(error) ==> read_address(input@) == Err::<Seq<u8>, PrimitiveError>(
                error,
            ),
    {
        let text = input.as_bytes();
        if text.len() < 2 || text[0] != 48 || text[1] != 120 {
            return Err(PrimitiveError::AddressMissingHexPrefix);
        }
        let digits = text.split_at(2).1;
        assert(digits@ =~= text@.skip(2));
        if digits.len() != 64 {
            return Err(PrimitiveError::AddressLength { got: digits.len() });
        }
        match hex_decode_32(digits) {
            Ok(bytes) => Ok(PQAddress(bytes)),
            Err(_) => Err(PrimitiveError::InvalidHex),
        }
    }
}

impl std::str::FromStr for PQAddress {
    type Err = PrimitiveError;

    fn from_str(input: &str) -> (parsed: Result<Self, PrimitiveError>)
        ensures
            parsed matches Ok(address) ==> read_address(input@) == Ok::<Seq<u8>, PrimitiveError>(
                address@,
            ),
            parsed matches Err(error) ==> read_address(input@) == Err::<Seq<u8>, PrimitiveError>(
                error,
            ),
    {
        PQAddress::from_str(input)
    }
}

/// A signature algorithm. The byte that stands for it in transactions and addresses is
/// `id()`; a cast of a variant to an integer gives its place in the list below, which is
/// not that byte.
#[derive(Clone, Copy, Debug, PartialEq, Eq, Structural)]
pub enum AlgoId {
    MlDsa65,
    SlhDsaSha2256f,
}

impl AlgoId {
    /// The byte that stands for the algorithm.
    pub open spec fn spec_id(self) -> u8 {
        match self {
            AlgoId::MlDsa65 => 0x01,
            AlgoId::SlhDsaSha2256f => 0x02,
        }
    }

    /// The byte that stands for the algorithm.
    pub fn id(self) -> (byte: u8)
        ensures
            byte == self.spec_id(),
    {
        match self {
            AlgoId::MlDsa65 => 0x01,
            AlgoId::SlhDsaSha2256f => 0x02,
        }
    }
}

/// The algorithm that a byte stands for.
pub open spec fn algo_of(byte: u8) -> Result<AlgoId, PrimitiveError> {
    if byte == 0x01 {
        Ok(AlgoId::MlDsa65)
    } else if byte == 0x02 {
        Ok(AlgoId::SlhDsaSha2256f)
    } else {
        Err(PrimitiveError::UnknownAlgoId(byte))
    }
}

/// An algorithm and its byte determine each other.
pub proof fn law_algo_bytes(algo: AlgoId, byte: u8)
    ensures
        algo_of(byte) == Ok::<AlgoId, PrimitiveError>(algo) <==> algo.spec_id() == byte,
{
}

impl vstd::std_specs::convert::TryFromSpecImpl<u8> for AlgoId {
    open spec fn obeys_try_from_spec() -> bool {
        true
    }

    open spec fn try_from_spec(value: u8) -> Result<AlgoId, PrimitiveError> {
        algo_of(value)
    }
}

impl TryFrom<u8> for AlgoId {
    type Error = PrimitiveError;

    fn try_from(value: u8) -> (algo: Result<Self, PrimitiveError>) {
        match value {
            0x01 => Ok(AlgoId::MlDsa65),
            0x02 => Ok(AlgoId::SlhDsaSha2256f),
            other => Err(PrimitiveError::UnknownAlgoId(other)),
        }
    }
}

/// A transaction envelope.
#[derive(Clone, Debug, PartialEq, Eq)]
pub struct PQTx {
    pub chain_id: u64,
    pub nonce: u64,
    pub max_fee: PqU256,
    pub gas_limit: u64,
    pub to: Option<PQAddress>,
    pub value: PqU256,
    pub data: PqBytes,
    pub sig_type: u8,
    pub public_key: Option<PqBytes>,
    pub signature: PqBytes,
}

/// A transaction envelope, by its numbers and byte strings.
pub struct TxView {
    pub chain_id: u64,
    pub nonce: u64,
    pub max_fee: nat,
    pub gas_limit: u64,
    pub to: Option<Seq<u8>>,
    pub value: nat,
    pub data: Seq<u8>,
    pub sig_type: u8,
    pub public_key: Option<Seq<u8>>,
    pub signature: Seq<u8>,
}

impl View for PQTx {
    type V = TxView;

    open spec fn view(&self) -> TxView {
        TxView {
            chain_id: self.chain_id,
            nonce: self.nonce,
            max_fee: self.max_fee@,
            gas_limit: self.gas_limit,
            to: match self.to {
                Some(address) => Some(address@),
                None => None,
            },
            value: self.value@,
            data: self.data@,
            sig_type: self.sig_type,
            public_key: match self.public_key {
                Some(key) => Some(key@),
                None => None,
            },
            signature: self.signature@,
        }
    }
}

impl TxView {
    /// Whether the numbers and the recipient have the widths of an envelope.
    pub open spec fn well_formed(self) -> bool {
        &&& self.max_fee < pow256(32)
        &&& self.value < pow256(32)
        &&& self.to matches Some(address) ==> address.len() == 32
    }

    /// The 32 bytes that stand for the recipient: zeros where there is none.
    pub open spec fn recipient_bytes(self) -> Seq<u8> {
        match self.to {
            Some(address) => address,
            None => zero_bytes_32(),
        }
    }

    /// What a signature of the transaction is about: every field but the public key
    /// and the signature, the numbers big-endian and of fixed width.
    pub open spec fn signing_message(self) -> Seq<u8> {
        be_bytes(self.chain_id as nat, 8)
            + be_bytes(self.nonce as nat, 8)
            + be_bytes(self.max_fee, 32)
            + be_bytes(self.gas_limit as nat, 8)
            + self.recipient_bytes()
            + be_bytes(self.value, 32)
            + self.data
            + seq![self.sig_type]
    }

    /// The digest that is signed.
    pub open spec fn signing_payload(self) -> Seq<u8> {
        blake3_digest(self.signing_message())
    }
}

impl PQTx {
    /// The digest that is signed.
    pub fn signing_payload(&self) -> (payload: PqHash)
        ensures
            payload@ == self@.signing_payload(),
            payload@ == blake3_digest(
                be_bytes(self.chain_id as nat, 8)
                    + be_bytes(self.nonce as nat, 8)
                    + be_bytes(self.max_fee@, 32)
                    + be_bytes(self.gas_limit as nat, 8)
                    + (match self.to {
                        Some(address) => address.0@,
                        None => Seq::new(32, |i: int| 0u8),
                    })
                    + be_bytes(self.value@, 32)
                    + self.data@
                    + seq![self.sig_type],
            ),
    {
        let message = self.signing_message();
        PqHash(blake3_hash(message.as_slice()))
    }

    /// The byte string whose digest is signed.
    pub fn signing_message(&self) -> (message: Vec<u8>)
        ensures
            message@ == self@.signing_message(),
    {
        let mut message: Vec<u8> = be_encode(self.chain_id, 8);
        append_bytes(&mut message, be_encode(self.nonce, 8).as_slice());
        append_bytes(&mut message, self.max_fee.to_be_bytes().as_slice());
        append_bytes(&mut message, be_encode(self.gas_limit, 8).as_slice());
        match self.to {
            Some(address) => append_bytes(&mut message, address.as_bytes().as_slice()),
            None => append_bytes(&mut message, PQAddress::zero().as_bytes().as_slice()),
        }
        append_bytes(&mut message, self.value.to_be_bytes().as_slice());
        append_bytes(&mut message, self.data.as_slice());
        message.push(self.sig_type);
        assert(message@ =~= self@.signing_message());
        message
    }
}

/// The fields before `data` take 120 bytes of the signing message, so each stands at
/// a fixed place, and the algorithm byte comes last.
proof fn lemma_signing_message_layout(tx: TxView)
    requires
        tx.well_formed(),
    ensures
        ({
            let m = tx.signing_message();
            let n = tx.data.len() as int;
            &&& m.len() == 121 + n
            &&& m.subrange(0, 8) == be_bytes(tx.chain_id as nat, 8)
            &&& m.subrange(8, 16) == be_bytes(tx.nonce as nat, 8)
            &&& m.subrange(16, 48) == be_bytes(tx.max_fee, 32)
            &&& m.subrange(48, 56) == be_bytes(tx.gas_limit as nat, 8)
            &&& m.subrange(56, 88) == tx.recipient_bytes()
            &&& m.subrange(88, 120) == be_bytes(tx.value, 32)
            &&& m.subrange(120, 120 + n) == tx.data
            &&& m[120 + n] == tx.sig_type
        }),
{
    lemma_be_bytes_len(tx.chain_id as nat, 8);
    lemma_be_bytes_len(tx.nonce as nat, 8);
    lemma_be_bytes_len(tx.max_fee, 32);
    lemma_be_bytes_len(tx.gas_limit as nat, 8);
    lemma_be_bytes_len(tx.value, 32);
    let m = tx.signing_message();
    let n = tx.data.len() as int;
    assert(m.subrange(0, 8) =~= be_bytes(tx.chain_id as nat, 8));
    assert(m.subrange(8, 16) =~= be_bytes(tx.nonce as nat, 8));
    assert(m.subrange(16, 48) =~= be_bytes(tx.max_fee, 32));
    assert(m.subrange(48, 56) =~= be_bytes(tx.gas_limit as nat, 8));
    assert(m.subrange(56, 88) =~= tx.recipient_bytes());
    assert(m.subrange(88, 120) =~= be_bytes(tx.value, 32));
    assert(m.subrange(120, 120 + n) =~= tx.data);
}

/// Two transactions have one signing message exactly if they agree in chain, nonce,
/// fee, gas limit, recipient bytes, value, data and algorithm: a signature made for
/// one chain or one algorithm is about no transaction of another, and the public key
/// and the signature themselves play no part.
pub proof fn law_signing_message_binds(a: TxView, b: TxView)
    requires
        a.well_formed(),
        b.well_formed(),
    ensures
        a.signing_message() == b.signing_message() <==> {
            &&& a.chain_id == b.chain_id
            &&& a.nonce == b.nonce
            &&& a.max_fee == b.max_fee
            &&& a.gas_limit == b.gas_limit
            &&& a.recipient_bytes() == b.recipient_bytes()
            &&& a.value == b.value
            &&& a.data == b.data
            &&& a.sig_type == b.sig_type
        },
{
    if a.signing_message() == b.signing_message() {
        lemma_signing_message_layout(a);
        lemma_signing_message_layout(b);
        lemma_pow256_values();
        lemma_be_bytes_injective(a.chain_id as nat, b.chain_id as nat, 8);
        lemma_be_bytes_injective(a.nonce as nat, b.nonce as nat, 8);
        lemma_be_bytes_injective(a.gas_limit as nat, b.gas_limit as nat, 8);
        lemma_be_bytes_injective(a.max_fee, b.max_fee, 32);
        lemma_be_bytes_injective(a.value, b.value, 32);
    }
}

/// Every envelope has the widths that `law_signing_message_binds` asks for.
pub proof fn law_tx_well_formed(tx: PQTx)
    ensures
        tx@.well_formed(),
{
    lemma_word_bound(tx.max_fee);
    lemma_word_bound(tx.value);
}

/// An address is derived from one pair of algorithm byte and public key: no two pairs
/// have the same derivation message.
pub proof fn law_account_message_injective(
    algo_a: u8,
    key_a: Seq<u8>,
    algo_b: u8,
    key_b: Seq<u8>,
)
    requires
        account_message(algo_a, key_a) == account_message(algo_b, key_b),
    ensures
        algo_a == algo_b,
        key_a == key_b,
{
    assert(account_message(algo_a, key_a)[0] == algo_a);
    assert(account_message(algo_b, key_b)[0] == algo_b);
    assert(account_message(algo_a, key_a).skip(1) =~= key_a);
    assert(account_message(algo_b, key_b).skip(1) =~= key_b);
}

/// The text of a 32-byte address is `0x` and 64 lowercase hexadecimal digits.
pub proof fn law_address_text_form(address: Seq<u8>)
    requires
        address.len() == 32,
    ensures
        address_text(address).len() == 66,
        address_text(address).take(2) == seq!['0', 'x'],
        forall|i: int|
            2 <= i < 66 ==> {
                let c = #[trigger] address_text(address)[i];
                '0' <= c <= '9' || 'a' <= c <= 'f'
            },
{
    assert(address_text(address).take(2) =~= seq!['0', 'x']);
}

/// Reading the text of an address gives the address.
pub proof fn law_address_text_roundtrip(address: Seq<u8>)
    requires
        address.len() == 32,
    ensures
        read_address(address_text(address)) == Ok::<Seq<u8>, PrimitiveError>(address),
{
    let text = address_text(address);
    let bytes = vstd::utf8::encode_utf8(text);
    vstd::utf8::is_ascii_chars_encode_utf8(text);
    assert(bytes =~= Seq::new(text.len(), |i: int| text[i] as u8));
    let digits = bytes.skip(2);
    assert forall|i: int| 0 <= i < 64 implies #[trigger] hex_digit_value(digits[i])
        == Some(
        if i % 2 == 0 {
            address[i / 2] as int / 16
        } else {
            address[i / 2] as int % 16
        },
    ) by {
        assert(digits[i] == text[i + 2] as u8);
        assert(text[i + 2] == hex_text(address)[i]);
    }
    assert(hex_bytes(digits) =~= address) by {
        assert forall|i: int| 0 <= i < 32 implies hex_bytes(digits)[i] == address[i] by {
            assert(hex_digit_value(digits[2 * i]) == Some(address[i] as int / 16));
            assert(hex_digit_value(digits[2 * i + 1]) == Some(address[i] as int % 16));
        }
    }
}

/// An ASCII letter in lower case, any other byte as it is.
pub open spec fn ascii_lower(c: u8) -> u8 {
    if 65 <= c <= 90 {
        (c + 32) as u8
    } else {
        c
    }
}

/// Texts that differ in the case of their digits alone read alike.
pub proof fn law_digit_case_is_free(a: Seq<u8>, b: Seq<u8>)
    requires
        a.take(2) == b.take(2),
        a.map_values(|c: u8| ascii_lower(c)) == b.map_values(|c: u8| ascii_lower(c)),
    ensures
        parse_address(a) == parse_address(b),
{
    let lower_a = a.map_values(|c: u8| ascii_lower(c));
    let lower_b = b.map_values(|c: u8| ascii_lower(c));
    assert(lower_a.len() == lower_b.len());
    if a.len() >= 2 {
        assert(a.take(2)[0] == a[0] && b.take(2)[0] == b[0]);
        assert(a.take(2)[1] == a[1] && b.take(2)[1] == b[1]);
        let x = a.skip(2);
        let y = b.skip(2);
        assert forall|i: int| 0 <= i < x.len() implies hex_digit_value(#[trigger] x[i])
            == hex_digit_value(y[i]) by {
            assert(lower_a[i + 2] == lower_b[i + 2]);
        }
        assert forall|i: int| 0 <= i < y.len() implies hex_digit_value(x[i]) == hex_digit_value(
            #[trigger] y[i],
        ) by {
            assert(lower_a[i + 2] == lower_b[i + 2]);
        }
        assert(is_hex(x) == is_hex(y));
        assert(hex_bytes(x) =~= hex_bytes(y));
    }
}

/// A text that stands for an address is the text of that address, but for the case of
/// its digits.
pub proof fn law_read_address_text(text: Seq<u8>)
    requires
        parse_address(text) is Ok,
    ensures
        parse_address(text)->Ok_0.len() == 32,
        address_text(parse_address(text)->Ok_0) == text.map_values(
            |c: u8| ascii_lower(c) as char,
        ),
{
    let digits = text.skip(2);
    let address = hex_bytes(digits);
    let want = text.map_values(|c: u8| ascii_lower(c) as char);
    assert forall|i: int| 0 <= i < 64 implies #[trigger] hex_text(address)[i] == want[i + 2] by {
        let pair = i / 2;
        assert(hex_digit_value(digits[2 * pair]) is Some);
        assert(hex_digit_value(digits[2 * pair + 1]) is Some);
        assert(digits[i] == text[i + 2]);
    }
    assert(address_text(address) =~= want);
}

/// The signing payload is the digest of the whole of chain, nonce, fee, gas limit,
/// recipient, value, data and algorithm byte, in this order, and of nothing else.
pub proof fn law_signing_payload(tx: TxView)
    ensures
        tx.signing_payload() == blake3_digest(
            be_bytes(tx.chain_id as nat, 8)
                + be_bytes(tx.nonce as nat, 8)
                + be_bytes(tx.max_fee, 32)
                + be_bytes(tx.gas_limit as nat, 8)
                + (match tx.to {
                    Some(address) => address,
                    None => Seq::new(32, |i: int| 0u8),
                })
                + be_bytes(tx.value, 32)
                + tx.data
                + seq![tx.sig_type],
        ),
        tx.signing_payload() == blake3_digest(tx.signing_message()),
{
}

/// The address of a public key is the digest of its algorithm byte and the whole key.
pub proof fn law_account_address(algo_id: u8, public_key: Seq<u8>)
    ensures
        account_address(algo_id, public_key) == blake3_digest(seq![algo_id] + public_key),
{
}

/// Byte one stands for ML-DSA-65, byte two for SLH-DSA-SHA2-256f, and no other byte for
/// any algorithm; it is then named in the error.
pub proof fn law_algorithms(byte: u8)
    ensures
        algo_of(byte) == Ok::<AlgoId, PrimitiveError>(AlgoId::MlDsa65) <==> byte == 1,
        algo_of(byte) == Ok::<AlgoId, PrimitiveError>(AlgoId::SlhDsaSha2256f) <==> byte == 2,
        algo_of(byte) == Err::<AlgoId, PrimitiveError>(PrimitiveError::UnknownAlgoId(byte))
            <==> byte != 1 && byte != 2,
        AlgoId::MlDsa65.spec_id() == 1,
        AlgoId::SlhDsaSha2256f.spec_id() == 2,
{
}

/// The text of an address spells each byte with two lowercase digits, the high one
/// first, behind `0x`.
pub proof fn law_address_text_digits(address: Seq<u8>, i: int)
    requires
        0 <= i < address.len(),
    ensures
        address_text(address).len() == 2 + 2 * address.len(),
        address_text(address)[0] == '0',
        address_text(address)[1] == 'x',
        address_text(address)[2 + 2 * i] == "0123456789abcdef"@[address[i] as int / 16],
        address_text(address)[3 + 2 * i] == "0123456789abcdef"@[address[i] as int % 16],
{
    reveal_strlit("0123456789abcdef");
    let text = hex_text(address);
    assert(text[2 * i] == hex_digit(address[i] as int / 16)) by {
        assert((2 * i) % 2 == 0 && (2 * i) / 2 == i);
    }
    assert(text[2 * i + 1] == hex_digit(address[i] as int % 16)) by {
        assert((2 * i + 1) % 2 == 1 && (2 * i + 1) / 2 == i);
    }
    assert(address_text(address)[2 + 2 * i] == text[2 * i]);
    assert(address_text(address)[3 + 2 * i] == text[2 * i + 1]);
}

/// Whether a byte is a hexadecimal digit of either case.
pub open spec fn digit_byte(c: u8) -> bool {
    48 <= c <= 57 || 65 <= c <= 70 || 97 <= c <= 102
}

/// How the text of an address is read, for every text: without `0x` in front, the prefix
/// is missing; with other than 64 bytes behind it, the length is wrong, and told; with a
/// byte among them that is no digit, the digits are invalid; and every other text is
/// read, two digits for each byte.
pub proof fn law_reading_addresses(text: Seq<u8>)
    requires
        text.len() <= usize::MAX,
    ensures
        ({
            let answer = parse_address(text);
            let prefixed = text.len() >= 2 && text[0] == '0' as u8 && text[1] == 'x' as u8;
            let sized = prefixed && text.len() == 66;
            &&& answer == Err::<Seq<u8>, PrimitiveError>(PrimitiveError::AddressMissingHexPrefix)
                <==> !prefixed
            &&& answer == Err::<Seq<u8>, PrimitiveError>(
                PrimitiveError::AddressLength { got: (text.len() - 2) as usize },
            ) <==> prefixed && !sized
            &&& answer == Err::<Seq<u8>, PrimitiveError>(PrimitiveError::InvalidHex) <==> sized
                && exists|i: int| 2 <= i < 66 && !digit_byte(#[trigger] text[i])
            &&& answer is Ok <==> sized && forall|i: int|
                2 <= i < 66 ==> digit_byte(#[trigger] text[i])
        }),
{
    if text.len() == 66 {
        let digits = text.skip(2);
        assert forall|i: int| 2 <= i < 66 implies digit_byte(#[trigger] text[i]) == (
        hex_digit_value(digits[i - 2]) is Some) by {}
        if is_hex(digits) {
            assert forall|i: int| 2 <= i < 66 implies digit_byte(#[trigger] text[i]) by {
                assert(hex_digit_value(digits[i - 2]) is Some);
            }
        } else {
            let j = choose|j: int|
                0 <= j < digits.len() && !(hex_digit_value(#[trigger] digits[j]) is Some);
            assert(!digit_byte(text[j + 2]));
        }
    }
}

/// What a text that is read stands for: each byte is sixteen times its first digit and
/// its second.
pub proof fn law_read_bytes(text: Seq<u8>, i: int)
    requires
        parse_address(text) is Ok,
        0 <= i < 32,
    ensures
        ({
            let address = parse_address(text)->Ok_0;
            &&& address.len() == 32
            &&& "0123456789abcdef"@[address[i] as int / 16] == ascii_lower(
                text[2 + 2 * i],
            ) as char
            &&& "0123456789abcdef"@[address[i] as int % 16] == ascii_lower(
                text[3 + 2 * i],
            ) as char
        }),
{
    law_read_address_text(text);
    let address = parse_address(text)->Ok_0;
    law_address_text_digits(address, i);
    let lowered = text.map_values(|c: u8| ascii_lower(c) as char);
    assert(lowered[2 + 2 * i] == ascii_lower(text[2 + 2 * i]) as char);
    assert(lowered[3 + 2 * i] == ascii_lower(text[3 + 2 * i]) as char);
}

/// An envelope is seen by its own fields.
pub proof fn law_tx_fields(tx: PQTx)
    ensures
        tx@.chain_id == tx.chain_id,
        tx@.nonce == tx.nonce,
        tx@.max_fee == tx.max_fee@,
        tx@.gas_limit == tx.gas_limit,
        tx.to is Some <==> tx@.to is Some,
        tx.to matches Some(to) ==> tx@.to == Some(to.0@),
        tx@.value == tx.value@,
        tx@.data == tx.data@,
        tx@.sig_type == tx.sig_type,
        tx.public_key is Some <==> tx@.public_key is Some,
        tx.public_key matches Some(key) ==> tx@.public_key == Some(key@),
        tx@.signature == tx.signature@,
{
}

/// A text is read by its UTF-8 bytes, and the zero address is 32 zeros.
pub proof fn law_reading_is_by_bytes(text: Seq<char>)
    ensures
        read_address(text) == parse_address(vstd::utf8::encode_utf8(text)),
        zero_bytes_32().len() == 32,
        forall|i: int| 0 <= i < 32 ==> #[trigger] zero_bytes_32()[i] == 0,
{
}

} // verus!
