//! Unsigned transactions and how they are read from their RLP encoding.

use crate::error::ContractError;
use crate::primitives::{be_value, h160_of, H160, U256};
use vstd::prelude::*;

verus! {

/// A transaction as its sender signed it.
#[derive(Debug)]
pub struct UnsignedTransaction {
    pub nonce: u64,
    pub gas_price: U256,
    pub gas_limit: U256,
    /// The account to call; `None` to create a contract.
    pub to: Option<H160>,
    pub value: U256,
    pub call_data: Vec<u8>,
    pub chain_id: Option<U256>,
    /// The length of the encoding: its header and its payload.
    pub rlp_len: usize,
}

/// An [`UnsignedTransaction`] as a value.
pub struct TransactionView {
    pub nonce: u64,
    pub gas_price: U256,
    pub gas_limit: U256,
    pub to: Option<H160>,
    pub value: U256,
    pub call_data: Seq<u8>,
    pub chain_id: Option<U256>,
    pub rlp_len: usize,
}

impl View for UnsignedTransaction {
    type V = TransactionView;

    open spec fn view(&self) -> TransactionView {
        TransactionView {
            nonce: self.nonce,
            gas_price: self.gas_price,
            gas_limit: self.gas_limit,
            to: self.to,
            value: self.value,
            call_data: self.call_data@,
            chain_id: self.chain_id,
            rlp_len: self.rlp_len,
        }
    }
}

/// What the decoder read of each part of an encoded transaction; `None`
/// where the part did not decode.
#[derive(Debug)]
pub struct Fields {
    /// The number of items in the list.
    pub count: Option<usize>,
    /// The lengths of the list's header and of its payload.
    pub payload: Option<(usize, usize)>,
    pub nonce: Option<u64>,
    pub gas_price: Option<U256>,
    pub gas_limit: Option<U256>,
    /// The encoding of the fourth item, the destination.
    pub to_item: Option<Vec<u8>>,
    /// The fourth item as an address.
    pub to_address: Option<H160>,
    pub value: Option<U256>,
    pub call_data: Option<Vec<u8>>,
    /// The seventh item.
    pub chain_id: Option<U256>,
}

/// [`Fields`] as a value.
pub struct FieldsView {
    pub count: Option<usize>,
    pub payload: Option<(usize, usize)>,
    pub nonce: Option<u64>,
    pub gas_price: Option<U256>,
    pub gas_limit: Option<U256>,
    pub to_item: Option<Seq<u8>>,
    pub to_address: Option<H160>,
    pub value: Option<U256>,
    pub call_data: Option<Seq<u8>>,
    pub chain_id: Option<U256>,
}

/// The view of optional bytes.
pub open spec fn optional_bytes(bytes: Option<Vec<u8>>) -> Option<Seq<u8>> {
    match bytes {
        Some(b) => Some(b@),
        None => None,
    }
}

impl View for Fields {
    type V = FieldsView;

    open spec fn view(&self) -> FieldsView {
        FieldsView {
            count: self.count,
            payload: self.payload,
            nonce: self.nonce,
            gas_price: self.gas_price,
            gas_limit: self.gas_limit,
            to_item: optional_bytes(self.to_item),
            to_address: self.to_address,
            value: self.value,
            call_data: optional_bytes(self.call_data),
            chain_id: self.chain_id,
        }
    }
}

/// Whether an encoded item is empty: the empty string or the empty list.
pub open spec fn item_is_empty(item: Seq<u8>) -> bool {
    item.len() > 0 && (item[0] == 0xc0 || item[0] == 0x80)
}

/// Whether an encoded item is a string, not a list.
pub open spec fn item_is_data(item: Seq<u8>) -> bool {
    item.len() > 0 && item[0] < 0xc0
}

/// The length of an encoding: that of its header and of its payload.
pub open spec fn encoded_len(payload: Option<(usize, usize)>) -> int {
    match payload {
        Some((header_len, value_len)) => header_len + value_len,
        None => 0,
    }
}

/// The transaction that decoded parts make up, or why they make none.
///
/// The list has six items, or nine where the transaction names its
/// chain. Nonce, gas price, gas limit, value and call data must have
/// decoded. An empty destination must be the empty string, and means
/// that a contract is created; another must have decoded as an address.
/// The chain is the seventh item of nine, which then must have decoded.
/// The length is that of the list's header and payload together.
pub open spec fn assembled(f: FieldsView) -> Result<TransactionView, ContractError> {
    if !(f.count == Some(6usize) || f.count == Some(9usize)) {
        Err(ContractError::InvalidTransactionData)
    } else if f.payload is None || f.nonce is None || f.gas_price is None || f.gas_limit is None
        || f.to_item is None || f.value is None || f.call_data is None {
        Err(ContractError::InvalidTransactionData)
    } else if encoded_len(f.payload) > usize::MAX {
        Err(ContractError::InvalidTransactionData)
    } else if item_is_empty(f.to_item->0) && !item_is_data(f.to_item->0) {
        Err(ContractError::InvalidTransactionData)
    } else if !item_is_empty(f.to_item->0) && f.to_address is None {
        Err(ContractError::InvalidTransactionData)
    } else if f.count == Some(9usize) && f.chain_id is None {
        Err(ContractError::InvalidTransactionData)
    } else {
        Ok(
            TransactionView {
                nonce: f.nonce->0,
                gas_price: f.gas_price->0,
                gas_limit: f.gas_limit->0,
                to: if item_is_empty(f.to_item->0) {
                    None
                } else {
                    f.to_address
                },
                value: f.value->0,
                call_data: f.call_data->0,
                chain_id: if f.count == Some(6usize) {
                    None
                } else {
                    f.chain_id
                },
                rlp_len: encoded_len(f.payload) as usize,
            },
        )
    }
}

/// The view of a decoding's outcome.
pub open spec fn outcome_view(r: Result<UnsignedTransaction, ContractError>) -> Result<
    TransactionView,
    ContractError,
> {
    match r {
        Ok(tx) => Ok(tx@),
        Err(e) => Err(e),
    }
}

/// The error of the `rlp` crate's decoder, `rlp::DecoderError`. Nothing
/// is known of a value of it.
#[verifier::external_type_specification]
#[verifier::external_body]
pub struct ExDecoderError(rlp::DecoderError);

/// What `rlp::Rlp::item_count` returns for an encoding.
pub uninterp spec fn rlp_item_count(bytes: Seq<u8>) -> Result<usize, rlp::DecoderError>;

/// What `rlp::Rlp::payload_info` returns for an encoding: the lengths of
/// its header and of its payload.
pub uninterp spec fn rlp_payload_info(bytes: Seq<u8>) -> Result<(usize, usize), rlp::DecoderError>;

/// What `rlp::Rlp::val_at` returns for an item of a list, read as `u64`.
pub uninterp spec fn rlp_u64_at(bytes: Seq<u8>, index: usize) -> Result<u64, rlp::DecoderError>;

/// What `rlp::Rlp::val_at` returns for an item of a list, read as a
/// 256-bit integer: its four limbs, least significant first.
pub uninterp spec fn rlp_u256_at(bytes: Seq<u8>, index: usize) -> Result<
    [u64; 4],
    rlp::DecoderError,
>;

/// What `rlp::Rlp::val_at` returns for an item of a list, read as bytes.
pub uninterp spec fn rlp_bytes_at(bytes: Seq<u8>, index: usize) -> Result<
    Seq<u8>,
    rlp::DecoderError,
>;

/// The encoding of the item that `rlp::Rlp::at` returns for a list.
pub uninterp spec fn rlp_item_at(bytes: Seq<u8>, index: usize) -> Result<
    Seq<u8>,
    rlp::DecoderError,
>;

/// What `rlp::Rlp::as_val` returns for an item read as a 160-bit hash:
/// its twenty bytes.
pub uninterp spec fn rlp_address(item: Seq<u8>) -> Result<[u8; 20], rlp::DecoderError>;

/// Calls `rlp::Rlp::item_count` on a decoder over `bytes`: the number
/// of items, where the encoding is a list. Taken on trust: that the
/// outcome depends on the bytes alone, so that it is
/// [`rlp_item_count`] of them.
#[verifier::external_body]
fn item_count(bytes: &[u8]) -> (r: Result<usize, rlp::DecoderError>)
    ensures
        r == rlp_item_count(bytes@),
{
    rlp::Rlp::new(bytes).item_count()
}

/// Calls `rlp::Rlp::payload_info` on a decoder over `bytes`: the
/// lengths of the header and of the payload of the first item. Taken on
/// trust: that the outcome depends on the bytes alone, so that it is
/// [`rlp_payload_info`] of them, and that the decoder answers only
/// where header and payload together lie within the bytes.
#[verifier::external_body]
fn payload_info(bytes: &[u8]) -> (r: Result<(usize, usize), rlp::DecoderError>)
    ensures
        r == rlp_payload_info(bytes@),
        r matches Ok(info) ==> info.0 + info.1 <= bytes@.len(),
{
    rlp::Rlp::new(bytes).payload_info().map(|info| (info.header_len, info.value_len))
}

/// Calls `rlp::Rlp::val_at` for a `u64` on a decoder over `bytes`.
/// Taken on trust: that the outcome depends on the bytes and the index
/// alone, so that it is [`rlp_u64_at`] of them.
#[verifier::external_body]
fn u64_at(bytes: &[u8], index: usize) -> (r: Result<u64, rlp::DecoderError>)
    ensures
        r == rlp_u64_at(bytes@, index),
{
    rlp::Rlp::new(bytes).val_at::<u64>(index)
}

/// Calls `rlp::Rlp::val_at` for a 256-bit integer on a decoder over
/// `bytes` and hands out the integer's limbs. Taken on trust: that the
/// outcome depends on the bytes and the index alone, so that it is
/// [`rlp_u256_at`] of them.
#[verifier::external_body]
fn u256_at(bytes: &[u8], index: usize) -> (r: Result<[u64; 4], rlp::DecoderError>)
    ensures
        r == rlp_u256_at(bytes@, index),
{
    rlp::Rlp::new(bytes).val_at::<primitive_types::U256>(index).map(|v| v.0)
}

/// Calls `rlp::Rlp::val_at` for a byte string on a decoder over
/// `bytes`. Taken on trust: that the outcome depends on the bytes and
/// the index alone, so that it is [`rlp_bytes_at`] of them.
#[verifier::external_body]
fn bytes_at(bytes: &[u8], index: usize) -> (r: Result<Vec<u8>, rlp::DecoderError>)
    ensures
        match r {
            Ok(v) => rlp_bytes_at(bytes@, index) == Ok::<Seq<u8>, rlp::DecoderError>(v@),
            Err(e) => rlp_bytes_at(bytes@, index) == Err::<Seq<u8>, rlp::DecoderError>(e),
        },
{
    rlp::Rlp::new(bytes).val_at::<Vec<u8>>(index)
}

/// Calls `rlp::Rlp::at` on a decoder over `bytes` and hands out the
/// encoding of the item found. Taken on trust: that the outcome depends
/// on the bytes and the index alone, so that it is [`rlp_item_at`] of
/// them.
#[verifier::external_body]
fn item_at(bytes: &[u8], index: usize) -> (r: Result<Vec<u8>, rlp::DecoderError>)
    ensures
        match r {
            Ok(v) => rlp_item_at(bytes@, index) == Ok::<Seq<u8>, rlp::DecoderError>(v@),
            Err(e) => rlp_item_at(bytes@, index) == Err::<Seq<u8>, rlp::DecoderError>(e),
        },
{
    rlp::Rlp::new(bytes).at(index).map(|item| item.as_raw().to_vec())
}

/// Calls `rlp::Rlp::as_val` for a 160-bit hash on a decoder over `item`
/// and hands out the hash's bytes. Taken on trust: that the outcome
/// depends on the item alone, so that it is [`rlp_address`] of it.
#[verifier::external_body]
fn address_bytes(item: &[u8]) -> (r: Result<[u8; 20], rlp::DecoderError>)
    ensures
        r == rlp_address(item@),
{
    rlp::Rlp::new(item).as_val::<primitive_types::H160>().map(|h| h.0)
}

/// What a decoder's result holds, without the error.
pub open spec fn decoded<T>(r: Result<T, rlp::DecoderError>) -> Option<T> {
    match r {
        Ok(v) => Some(v),
        Err(_) => None,
    }
}

/// The address that twenty bytes spell, if there are any.
pub open spec fn address_of(bytes: Option<[u8; 20]>) -> Option<H160> {
    match bytes {
        Some(b) => Some(h160_of(be_value(b@))),
        None => None,
    }
}

/// The word with the given limbs, if there are any.
pub open spec fn word_of(limbs: Option<[u64; 4]>) -> Option<U256> {
    match limbs {
        Some(l) => Some(U256::of_limbs(l)),
        None => None,
    }
}

/// What the `rlp` crate's decoder reads of each part of an encoded
/// transaction.
pub open spec fn fields_of(bytes: Seq<u8>) -> FieldsView {
    let to_item = decoded(rlp_item_at(bytes, 3));
    FieldsView {
        count: decoded(rlp_item_count(bytes)),
        payload: decoded(rlp_payload_info(bytes)),
        nonce: decoded(rlp_u64_at(bytes, 0)),
        gas_price: word_of(decoded(rlp_u256_at(bytes, 1))),
        gas_limit: word_of(decoded(rlp_u256_at(bytes, 2))),
        to_item,
        to_address: match to_item {
            Some(item) => address_of(decoded(rlp_address(item))),
            None => None,
        },
        value: word_of(decoded(rlp_u256_at(bytes, 4))),
        call_data: decoded(rlp_bytes_at(bytes, 5)),
        chain_id: word_of(decoded(rlp_u256_at(bytes, 6))),
    }
}

/// A word that the decoder read, if it read one.
fn word(r: Result<[u64; 4], rlp::DecoderError>) -> (w: Option<U256>)
    ensures
        w == word_of(decoded(r)),
{
    match r {
        Ok(limbs) => Some(U256::from_limbs(limbs)),
        Err(_) => None,
    }
}

/// Bytes that the decoder read, if it read any.
fn bytes_read(r: Result<Vec<u8>, rlp::DecoderError>) -> (b: Option<Vec<u8>>)
    ensures
        match (r, b) {
            (Ok(v), Some(w)) => v@ == w@,
            (Err(_), None) => true,
            _ => false,
        },
{
    match r {
        Ok(v) => Some(v),
        Err(_) => None,
    }
}

impl UnsignedTransaction {
    /// The transaction that decoded parts make up, or
    /// `InvalidTransactionData` where they make none.
    pub fn assemble(fields: Fields) -> (r: Result<Self, ContractError>)
        ensures
            outcome_view(r) == assembled(fields@),
    {
        let count = match fields.count {
            Some(c) => c,
            None => {
                return Err(ContractError::InvalidTransactionData);
            },
        };
        if count != 6 && count != 9 {
            return Err(ContractError::InvalidTransactionData);
        }
        let (header_len, value_len) = match fields.payload {
            Some(p) => p,
            None => {
                return Err(ContractError::InvalidTransactionData);
            },
        };
        let (nonce, gas_price, gas_limit, to_item, value, call_data) = match (
            fields.nonce,
            fields.gas_price,
            fields.gas_limit,
            fields.to_item,
            fields.value,
            fields.call_data,
        ) {
            (Some(n), Some(p), Some(l), Some(t), Some(v), Some(d)) => (n, p, l, t, v, d),
            _ => {
                return Err(ContractError::InvalidTransactionData);
            },
        };
        let rlp_len = match header_len.checked_add(value_len) {
            Some(len) => len,
            None => {
                return Err(ContractError::InvalidTransactionData);
            },
        };
        let empty = to_item.len() > 0 && (to_item[0] == 0xc0 || to_item[0] == 0x80);
        let to = if empty {
            if to_item[0] < 0xc0 {
                None
            } else {
                return Err(ContractError::InvalidTransactionData);
            }
        } else {
            match fields.to_address {
                Some(address) => Some(address),
                None => {
                    return Err(ContractError::InvalidTransactionData);
                },
            }
        };
        let chain_id = if count == 6 {
            None
        } else {
            match fields.chain_id {
                Some(id) => Some(id),
                None => {
                    return Err(ContractError::InvalidTransactionData);
                },
            }
        };
        Ok(
            UnsignedTransaction {
                nonce,
                gas_price,
                gas_limit,
                to,
                value,
                call_data,
                chain_id,
                rlp_len,
            },
        )
    }

    /// Reads a transaction from its RLP encoding: each part as the `rlp`
    /// crate decodes it, put together as [`assembled`] says.
    pub fn from_rlp(unsigned_msg: &[u8]) -> (r: Result<Self, ContractError>)
        ensures
            outcome_view(r) == assembled(fields_of(unsigned_msg@)),
    {
        let to_item = bytes_read(item_at(unsigned_msg, 3));
        let to_address = match &to_item {
            Some(item) => match address_bytes(item.as_slice()) {
                Ok(b) => {
                    let address = H160::from_bytes(&b);
                    proof {
                        H160::lemma_h160_of(address);
                    }
                    Some(address)
                },
                Err(_) => None,
            },
            None => None,
        };
        let count = match item_count(unsigned_msg) {
            Ok(c) => Some(c),
            Err(_) => None,
        };
        let payload = match payload_info(unsigned_msg) {
            Ok(p) => Some(p),
            Err(_) => None,
        };
        let nonce = match u64_at(unsigned_msg, 0) {
            Ok(n) => Some(n),
            Err(_) => None,
        };
        let fields = Fields {
            count,
            payload,
            nonce,
            gas_price: word(u256_at(unsigned_msg, 1)),
            gas_limit: word(u256_at(unsigned_msg, 2)),
            to_item,
            to_address,
            value: word(u256_at(unsigned_msg, 4)),
            call_data: bytes_read(bytes_at(unsigned_msg, 5)),
            chain_id: word(u256_at(unsigned_msg, 6)),
        };
        assert(fields@ == fields_of(unsigned_msg@));
        Self::assemble(fields)
    }
}

} // verus!
