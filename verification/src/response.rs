use vstd::prelude::*;

use crate::api_call::{spec_from_id, spec_result_shape, ApiCall, ResultShape};
use crate::errors::ProtocolError;
use crate::hex;
use crate::numtext::be_bytes_to_u64;
use crate::records::{ActionView, Address, BlockHeaderView, LogView, ReceiptView, TraceView, TransactionView, TxHash, TxPart};

verus! {

/// serde_json's dynamically typed JSON value, declared so that it can be
/// carried through signatures; its inside stays opaque here.
#[verifier::external_type_specification]
#[verifier::external_body]
pub struct ExValue(serde_json::Value);

/// What parsing a run of bytes yields: `serde_json::from_slice` is a pure
/// function of the bytes, so its result bears a name.
pub uninterp spec fn json_of(raw: Seq<u8>) -> Option<serde_json::Value>;

/// What looking a key up in a JSON value yields: `serde_json::Value::get`
/// is a pure function of the value and the key.
pub uninterp spec fn get_of(v: serde_json::Value, key: Seq<char>) -> Option<serde_json::Value>;

/// What reading a JSON value as an unsigned integer yields.
pub uninterp spec fn u64_of(v: serde_json::Value) -> Option<u64>;

/// What reading a JSON value as a signed integer yields.
pub uninterp spec fn i64_of(v: serde_json::Value) -> Option<i64>;

/// What reading a JSON value as a string yields.
pub uninterp spec fn str_of(v: serde_json::Value) -> Option<Seq<char>>;

/// What a JSON array holds, element by element.
pub uninterp spec fn elems_of(v: serde_json::Value) -> Option<Seq<serde_json::Value>>;

/// Whether a JSON value is an object.
pub uninterp spec fn is_object_of(v: serde_json::Value) -> bool;

/// Whether a JSON value is `null`.
pub uninterp spec fn is_null_of(v: serde_json::Value) -> bool;

/// Relies on `serde_json::from_slice::<serde_json::Value>`: parses raw bytes
/// as one JSON document, or fails; the result depends on the bytes alone.
#[verifier::external_body]
pub(crate) fn json_parse(raw: &[u8]) -> (r: Option<serde_json::Value>)
    ensures
        r == json_of(raw@),
{
    serde_json::from_slice::<serde_json::Value>(raw).ok()
}

/// Relies on `serde_json::Value::get` with a string index: field lookup in a
/// JSON object, `None` for a missing key or a non-object; the result depends
/// on the value and the key alone.
#[verifier::external_body]
pub(crate) fn json_get<'a>(v: &'a serde_json::Value, key: &str) -> (r: Option<
    &'a serde_json::Value,
>)
    ensures
        match r {
            Some(f) => get_of(*v, key@) == Some(*f),
            None => get_of(*v, key@) is None,
        },
{
    v.get(key)
}

/// Relies on `serde_json::Value::as_u64`: the value of an unsigned JSON
/// integer, `None` for anything else.
#[verifier::external_body]
pub(crate) fn json_as_u64(v: &serde_json::Value) -> (r: Option<u64>)
    ensures
        r == u64_of(*v),
{
    v.as_u64()
}

/// Relies on `serde_json::Value::as_i64`: the value of a signed JSON
/// integer, `None` for anything else.
#[verifier::external_body]
pub(crate) fn json_as_i64(v: &serde_json::Value) -> (r: Option<i64>)
    ensures
        r == i64_of(*v),
{
    v.as_i64()
}

/// Relies on `serde_json::Value::as_str`: the text of a JSON string,
/// `None` for anything else; copied out as an owned `String`.
#[verifier::external_body]
pub(crate) fn json_as_string(v: &serde_json::Value) -> (r: Option<String>)
    ensures
        match r {
            Some(s) => str_of(*v) == Some(s@),
            None => str_of(*v) is None,
        },
{
    match v.as_str() {
        Some(s) => Some(s.to_owned()),
        None => None,
    }
}

/// Relies on `serde_json::Value::as_array`: the elements of a JSON array,
/// `None` for anything else.
#[verifier::external_body]
pub(crate) fn json_as_array<'a>(v: &'a serde_json::Value) -> (r: Option<
    &'a Vec<serde_json::Value>,
>)
    ensures
        match r {
            Some(a) => elems_of(*v) == Some(a@),
            None => elems_of(*v) is None,
        },
{
    v.as_array()
}

/// Relies on `serde_json::Value::is_object`: true exactly on a JSON object.
#[verifier::external_body]
pub(crate) fn json_is_object(v: &serde_json::Value) -> (r: bool)
    ensures
        r == is_object_of(*v),
{
    v.is_object()
}

/// Relies on `serde_json::Value::is_null`: true exactly on JSON `null`.
#[verifier::external_body]
pub(crate) fn json_is_null(v: &serde_json::Value) -> (r: bool)
    ensures
        r == is_null_of(*v),
{
    v.is_null()
}

/// Ghost image of a decoded result.
pub ghost enum ResultV {
    Hex(Seq<u8>),
    Block(crate::records::BlockHeaderV),
    Transaction(crate::records::TransactionV),
    Unit,
}

/// The decoded `result` of a response.  Which variant is active is decided
/// by the `ApiCall` the response's id names, never by the JSON's own shape.
#[derive(Debug)]
pub enum ResultUnion {
    Hex(hex::Hex),
    Block(BlockHeaderView),
    Transaction(TransactionView),
    Unit,
}

impl View for ResultUnion {
    type V = ResultV;

    open spec fn view(&self) -> ResultV {
        match self {
            ResultUnion::Hex(h) => ResultV::Hex(h@),
            ResultUnion::Block(b) => ResultV::Block(b@),
            ResultUnion::Transaction(t) => ResultV::Transaction(t@),
            ResultUnion::Unit => ResultV::Unit,
        }
    }
}

/// The shape a decoded result actually has.
pub open spec fn shape_of(r: ResultV) -> ResultShape {
    match r {
        ResultV::Hex(_) => ResultShape::Hex,
        ResultV::Block(_) => ResultShape::Block,
        ResultV::Transaction(_) => ResultShape::Transaction,
        ResultV::Unit => ResultShape::Unit,
    }
}

/// A server-reported protocol error: the `error` member of a response.
#[derive(Debug)]
pub struct RpcErrorInfo {
    pub code: i64,
    pub message: String,
}

impl View for RpcErrorInfo {
    type V = (i64, Seq<char>);

    open spec fn view(&self) -> (i64, Seq<char>) {
        (self.code, self.message@)
    }
}

/// Ghost image of one parsed response.
pub ghost struct EnvelopeV {
    pub call: ApiCall,
    pub result: Option<ResultV>,
    pub error: Option<(i64, Seq<char>)>,
}

/// One parsed JSON-RPC response.  `result` and `error` are mutually
/// exclusive; the id has been resolved to the call that owns it.
#[derive(Debug)]
pub struct ResponseEnvelope {
    pub call: ApiCall,
    pub result: Option<ResultUnion>,
    pub error: Option<RpcErrorInfo>,
}

impl View for ResponseEnvelope {
    type V = EnvelopeV;

    open spec fn view(&self) -> EnvelopeV {
        EnvelopeV {
            call: self.call,
            result: match self.result {
                Some(u) => Some(u@),
                None => None,
            },
            error: match self.error {
                Some(e) => Some(e@),
                None => None,
            },
        }
    }
}

impl ResponseEnvelope {
    /// A well-formed envelope: exactly one of `result` and `error` is
    /// present, and a present result has the one shape the call's decode
    /// rule allows.
    pub open spec fn wf(&self) -> bool {
        (self.result is Some <==> self.error is None) && (match self.result {
            Some(u) => shape_of(u@) == spec_result_shape(self.call),
            None => true,
        })
    }

    /// Did the server answer with an error?
    pub fn is_error(&self) -> (r: bool)
        ensures
            r == (self.error is Some),
    {
        self.error.is_some()
    }

    /// The server-reported message and code, when the answer was an error.
    pub fn err_info(&self) -> (r: Option<(String, i64)>)
        ensures
            r is Some <==> self.error is Some,
            r is Some ==> r->Some_0.0@ == self.error->Some_0.message@ && r->Some_0.1
                == self.error->Some_0.code,
    {
        match &self.error {
            Some(e) => Some((e.message.clone(), e.code)),
            None => None,
        }
    }
}

/// Where a response's id leads: to the call that owns it, or to the exact
/// protocol error.  `has_result` and `has_error` say which of the two
/// payload members were present.
pub open spec fn spec_dispatch(id: Option<u64>, has_result: bool, has_error: bool) -> Result<
    ApiCall,
    ProtocolError,
> {
    if has_result == has_error {
        Err(ProtocolError::AmbiguousEnvelope)
    } else if id is None {
        if has_result {
            Err(ProtocolError::IdNotYetKnown)
        } else {
            Err(ProtocolError::Malformed)
        }
    } else if id->Some_0 > u32::MAX as u64 {
        Err(ProtocolError::UnknownCallId)
    } else {
        match spec_from_id(id->Some_0 as u32) {
            Some(c) => Ok(c),
            None => Err(ProtocolError::UnknownCallId),
        }
    }
}

/// The id-to-call decision of the dispatcher, over plain values: a response
/// must carry exactly one of `result` and `error`, its id must be known
/// before a result can be interpreted, and the id must name a registered
/// call.  An id outside the registry is `UnknownCallId`, never a panic.
pub fn dispatch_id(id: Option<u64>, has_result: bool, has_error: bool) -> (r: Result<
    ApiCall,
    ProtocolError,
>)
    ensures
        r == spec_dispatch(id, has_result, has_error),
{
    if has_result == has_error {
        Err(ProtocolError::AmbiguousEnvelope)
    } else {
        match id {
            None => {
                if has_result {
                    Err(ProtocolError::IdNotYetKnown)
                } else {
                    Err(ProtocolError::Malformed)
                }
            },
            Some(n) => {
                if n > u32::MAX as u64 {
                    Err(ProtocolError::UnknownCallId)
                } else {
                    match ApiCall::from_id(n as u32) {
                        Some(c) => Ok(c),
                        None => Err(ProtocolError::UnknownCallId),
                    }
                }
            },
        }
    }
}

/// The text of a string field of a JSON object.
pub open spec fn spec_str_field(v: serde_json::Value, key: Seq<char>) -> Option<Seq<char>> {
    match get_of(v, key) {
        None => None,
        Some(f) => str_of(f),
    }
}

/// The bytes a hex-text field of a JSON object decodes to.
pub open spec fn spec_bytes_field(v: serde_json::Value, key: Seq<char>) -> Option<Seq<u8>> {
    match spec_str_field(v, key) {
        None => None,
        Some(t) => if hex::hex_decode_ok(t) {
            Some(hex::spec_decode(t))
        } else {
            None
        },
    }
}

/// The address a hex-text field of a JSON object decodes to, when it has
/// exactly twenty bytes.
pub open spec fn spec_address_field(v: serde_json::Value, key: Seq<char>) -> Option<Seq<u8>> {
    match spec_bytes_field(v, key) {
        None => None,
        Some(b) => if b.len() == 20 {
            Some(b)
        } else {
            None
        },
    }
}

/// The hash a hex-text field of a JSON object decodes to, when it has
/// exactly thirty-two bytes.
pub open spec fn spec_hash_field(v: serde_json::Value, key: Seq<char>) -> Option<Seq<u8>> {
    match spec_bytes_field(v, key) {
        None => None,
        Some(b) => if b.len() == 32 {
            Some(b)
        } else {
            None
        },
    }
}

/// The number a hex-quantity field of a JSON object stands for, when it
/// fits a `u64`.
pub open spec fn spec_quantity_field(v: serde_json::Value, key: Seq<char>) -> Option<u64> {
    match spec_bytes_field(v, key) {
        None => None,
        Some(b) => if crate::numtext::be_val(b) <= u64::MAX {
            Some(crate::numtext::be_val(b) as u64)
        } else {
            None
        },
    }
}

/// Pulls a string field out of a JSON object and hex-decodes it into an
/// address.  Every returned address is well formed.
pub fn address_field(v: &serde_json::Value, key: &str) -> (r: Option<Address>)
    ensures
        match r {
            Some(a) => spec_address_field(*v, key@) == Some(a@) && a.wf(),
            None => spec_address_field(*v, key@) is None,
        },
{
    match json_get(v, key) {
        None => None,
        Some(f) => match json_as_string(f) {
            None => None,
            Some(s) => match hex::decode(s.as_str()) {
                Ok(bytes) => Address::from_bytes(bytes),
                Err(_) => None,
            },
        },
    }
}

/// Pulls a string field out of a JSON object and hex-decodes it into a
/// transaction hash.  Every returned hash is well formed.
pub fn hash_field(v: &serde_json::Value, key: &str) -> (r: Option<TxHash>)
    ensures
        match r {
            Some(h) => spec_hash_field(*v, key@) == Some(h@) && h.wf(),
            None => spec_hash_field(*v, key@) is None,
        },
{
    match json_get(v, key) {
        None => None,
        Some(f) => match json_as_string(f) {
            None => None,
            Some(s) => match hex::decode(s.as_str()) {
                Ok(bytes) => TxHash::from_bytes(bytes),
                Err(_) => None,
            },
        },
    }
}

/// Pulls a hex-quantity string field (`0x`-prefixed, arbitrary width) out
/// of a JSON object and reads it as a number.
pub fn quantity_field(v: &serde_json::Value, key: &str) -> (r: Option<u64>)
    ensures
        r == spec_quantity_field(*v, key@),
{
    match json_get(v, key) {
        None => None,
        Some(f) => match json_as_string(f) {
            None => None,
            Some(s) => match hex::decode(s.as_str()) {
                Ok(bytes) => be_bytes_to_u64(bytes.as_slice()),
                Err(_) => None,
            },
        },
    }
}

/// Pulls a hex-blob string field out of a JSON object as raw bytes.
pub fn bytes_field(v: &serde_json::Value, key: &str) -> (r: Option<Vec<u8>>)
    ensures
        match r {
            Some(b) => spec_bytes_field(*v, key@) == Some(b@),
            None => spec_bytes_field(*v, key@) is None,
        },
{
    match json_get(v, key) {
        None => None,
        Some(f) => match json_as_string(f) {
            None => None,
            Some(s) => match hex::decode(s.as_str()) {
                Ok(bytes) => Some(bytes),
                Err(_) => None,
            },
        },
    }
}

/// What reading a block object yields: the block number and its author,
/// under the field name `author` first, `miner` second.
pub open spec fn spec_block_header(v: serde_json::Value) -> Result<
    crate::records::BlockHeaderV,
    ProtocolError,
> {
    if !is_object_of(v) {
        Err(ProtocolError::MismatchedTypes)
    } else {
        match spec_quantity_field(v, "number"@) {
            None => Err(ProtocolError::MismatchedTypes),
            Some(n) => match spec_address_field(v, "author"@) {
                Some(a) => Ok(crate::records::BlockHeaderV { number: n, author: a }),
                None => match spec_address_field(v, "miner"@) {
                    Some(a) => Ok(crate::records::BlockHeaderV { number: n, author: a }),
                    None => Err(ProtocolError::MismatchedTypes),
                },
            },
        }
    }
}

/// Reads a block object into the header view the matcher needs: the block
/// number and its author.  Parity nodes call the field `author`, others
/// `miner`; both are accepted, `author` first.
pub fn block_header_from_json(v: &serde_json::Value) -> (r: Result<BlockHeaderView, ProtocolError>)
    ensures
        match r {
            Ok(b) => spec_block_header(*v) == Ok::<crate::records::BlockHeaderV, ProtocolError>(
                b@,
            ) && b.author.wf(),
            Err(e) => spec_block_header(*v) == Err::<crate::records::BlockHeaderV, ProtocolError>(
                e,
            ),
        },
{
    if !json_is_object(v) {
        return Err(ProtocolError::MismatchedTypes);
    }
    let number = match quantity_field(v, "number") {
        Some(n) => n,
        None => {
            return Err(ProtocolError::MismatchedTypes);
        },
    };
    let author = match address_field(v, "author") {
        Some(a) => a,
        None => match address_field(v, "miner") {
            Some(a) => a,
            None => {
                return Err(ProtocolError::MismatchedTypes);
            },
        },
    };
    Ok(BlockHeaderView { number, author })
}

/// What the optional `to` field of a transaction object yields: absent or
/// `null` means a contract creation, anything else must be an address.
pub open spec fn spec_to_field(v: serde_json::Value) -> Result<Option<Seq<u8>>, ProtocolError> {
    match get_of(v, "to"@) {
        None => Ok(None),
        Some(f) => if is_null_of(f) {
            Ok(None)
        } else {
            match spec_address_field(v, "to"@) {
                Some(a) => Ok(Some(a)),
                None => Err(ProtocolError::MismatchedTypes),
            }
        },
    }
}

/// What reading a transaction object yields: hash, chain position, sender,
/// optional receiver, call data (absent or unreadable data reads as empty).
pub open spec fn spec_transaction(v: serde_json::Value) -> Result<
    crate::records::TransactionV,
    ProtocolError,
> {
    if !is_object_of(v) {
        Err(ProtocolError::MismatchedTypes)
    } else {
        match spec_hash_field(v, "hash"@) {
            None => Err(ProtocolError::MismatchedTypes),
            Some(h) => match spec_quantity_field(v, "blockNumber"@) {
                None => Err(ProtocolError::MismatchedTypes),
                Some(bn) => match spec_quantity_field(v, "transactionIndex"@) {
                    None => Err(ProtocolError::MismatchedTypes),
                    Some(ix) => if ix > u32::MAX as u64 {
                        Err(ProtocolError::MismatchedTypes)
                    } else {
                        match spec_address_field(v, "from"@) {
                            None => Err(ProtocolError::MismatchedTypes),
                            Some(from) => match spec_to_field(v) {
                                Err(e) => Err(e),
                                Ok(to) => Ok(
                                    crate::records::TransactionV {
                                        hash: h,
                                        block_number: bn,
                                        transaction_index: ix as u32,
                                        from,
                                        to,
                                        input: match spec_bytes_field(v, "input"@) {
                                            Some(b) => b,
                                            None => Seq::<u8>::empty(),
                                        },
                                    },
                                ),
                            },
                        }
                    },
                },
            },
        }
    }
}

/// Reads a transaction object into the view the cache keeps: hash, where
/// it sits in the chain, sender, optional receiver, and call data.
pub fn transaction_from_json(v: &serde_json::Value) -> (r: Result<TransactionView, ProtocolError>)
    ensures
        match r {
            Ok(t) => spec_transaction(*v) == Ok::<crate::records::TransactionV, ProtocolError>(t@)
                && t.hash.wf() && t.from.wf() && (t.to is Some ==> t.to->Some_0.wf()),
            Err(e) => spec_transaction(*v) == Err::<crate::records::TransactionV, ProtocolError>(
                e,
            ),
        },
{
    if !json_is_object(v) {
        return Err(ProtocolError::MismatchedTypes);
    }
    let hash = match hash_field(v, "hash") {
        Some(h) => h,
        None => {
            return Err(ProtocolError::MismatchedTypes);
        },
    };
    let block_number = match quantity_field(v, "blockNumber") {
        Some(n) => n,
        None => {
            return Err(ProtocolError::MismatchedTypes);
        },
    };
    let index64 = match quantity_field(v, "transactionIndex") {
        Some(n) => n,
        None => {
            return Err(ProtocolError::MismatchedTypes);
        },
    };
    if index64 > u32::MAX as u64 {
        return Err(ProtocolError::MismatchedTypes);
    }
    let from = match address_field(v, "from") {
        Some(a) => a,
        None => {
            return Err(ProtocolError::MismatchedTypes);
        },
    };
    let to: Option<Address> = match json_get(v, "to") {
        None => None,
        Some(f) => {
            if json_is_null(f) {
                None
            } else {
                match address_field(v, "to") {
                    Some(a) => Some(a),
                    None => {
                        return Err(ProtocolError::MismatchedTypes);
                    },
                }
            }
        },
    };
    let input = match bytes_field(v, "input") {
        Some(b) => b,
        None => Vec::new(),
    };
    Ok(TransactionView { hash, block_number, transaction_index: index64 as u32, from, to, input })
}

/// What decoding a `result` member along a call's decode rule yields.
pub open spec fn spec_decode_result(call: ApiCall, v: serde_json::Value) -> Result<
    ResultV,
    ProtocolError,
> {
    match spec_result_shape(call) {
        ResultShape::Hex => match str_of(v) {
            None => Err(ProtocolError::MismatchedTypes),
            Some(t) => if hex::hex_decode_ok(t) {
                Ok(ResultV::Hex(hex::spec_decode(t)))
            } else {
                Err(ProtocolError::BadHexScalar)
            },
        },
        ResultShape::Block => match spec_block_header(v) {
            Ok(b) => Ok(ResultV::Block(b)),
            Err(e) => Err(e),
        },
        ResultShape::Transaction => match spec_transaction(v) {
            Ok(t) => Ok(ResultV::Transaction(t)),
            Err(e) => Err(e),
        },
        ResultShape::Unit => Ok(ResultV::Unit),
    }
}

/// A decoded result, seen at the view level.
pub open spec fn lift_decoded(r: Result<ResultUnion, ProtocolError>) -> Result<
    ResultV,
    ProtocolError,
> {
    match r {
        Ok(u) => Ok(u@),
        Err(e) => Err(e),
    }
}

/// Decodes a response's `result` member along the one path the call's
/// decode rule names: a hex scalar through the codec, a block or
/// transaction object through the field readers, everything else carried
/// as `Unit`.  A result of the wrong JSON shape is a type mismatch, and a
/// decoded result always has the shape the call expects.
pub fn decode_result(call: ApiCall, v: &serde_json::Value) -> (r: Result<
    ResultUnion,
    ProtocolError,
>)
    ensures
        lift_decoded(r) == spec_decode_result(call, *v),
        r is Ok ==> shape_of(r->Ok_0@) == spec_result_shape(call),
{
    match call.result_shape() {
        ResultShape::Hex => {
            match json_as_string(v) {
                None => Err(ProtocolError::MismatchedTypes),
                Some(s) => match hex::Hex::from_text(s.as_str()) {
                    Ok(h) => Ok(ResultUnion::Hex(h)),
                    Err(_) => Err(ProtocolError::BadHexScalar),
                },
            }
        },
        ResultShape::Block => {
            match block_header_from_json(v) {
                Ok(b) => Ok(ResultUnion::Block(b)),
                Err(e) => Err(e),
            }
        },
        ResultShape::Transaction => {
            match transaction_from_json(v) {
                Ok(t) => Ok(ResultUnion::Transaction(t)),
                Err(e) => Err(e),
            }
        },
        ResultShape::Unit => Ok(ResultUnion::Unit),
    }
}

/// What reading the `error` member yields: absent, or (code, message),
/// or malformed.
pub open spec fn spec_error_member(v: serde_json::Value) -> Result<
    Option<(i64, Seq<char>)>,
    ProtocolError,
> {
    match get_of(v, "error"@) {
        None => Ok(None),
        Some(e) => match get_of(e, "code"@) {
            None => Err(ProtocolError::Malformed),
            Some(c) => match i64_of(c) {
                None => Err(ProtocolError::Malformed),
                Some(code) => match get_of(e, "message"@) {
                    None => Err(ProtocolError::Malformed),
                    Some(m) => match str_of(m) {
                        None => Err(ProtocolError::Malformed),
                        Some(msg) => Ok(Some((code, msg))),
                    },
                },
            },
        },
    }
}

/// Reads the `error` member, when present, as (code, message).  An error
/// object without an integer `code` or a string `message` is malformed.
fn error_member(v: &serde_json::Value) -> (r: Result<Option<RpcErrorInfo>, ProtocolError>)
    ensures
        match r {
            Ok(o) => spec_error_member(*v) == Ok::<Option<(i64, Seq<char>)>, ProtocolError>(
                match o {
                    Some(e) => Some((e.code, e.message@)),
                    None => None,
                },
            ),
            Err(pe) => spec_error_member(*v) == Err::<Option<(i64, Seq<char>)>, ProtocolError>(
                pe,
            ),
        },
{
    match json_get(v, "error") {
        None => Ok(None),
        Some(e) => {
            let code = match json_get(e, "code") {
                Some(c) => match json_as_i64(c) {
                    Some(n) => n,
                    None => {
                        return Err(ProtocolError::Malformed);
                    },
                },
                None => {
                    return Err(ProtocolError::Malformed);
                },
            };
            let message = match json_get(e, "message") {
                Some(m) => match json_as_string(m) {
                    Some(s) => s,
                    None => {
                        return Err(ProtocolError::Malformed);
                    },
                },
                None => {
                    return Err(ProtocolError::Malformed);
                },
            };
            Ok(Some(RpcErrorInfo { code, message }))
        },
    }
}

/// What decoding one raw response yields, from the bytes alone: parse
/// into a generic value, read id, error member and result presence in any
/// key order, resolve the id to its call, then decode the one payload.
pub open spec fn spec_from_bytes(raw: Seq<u8>) -> Result<EnvelopeV, ProtocolError> {
    match json_of(raw) {
        None => Err(ProtocolError::Malformed),
        Some(v) => if !is_object_of(v) {
            Err(ProtocolError::Malformed)
        } else {
            let id = match get_of(v, "id"@) {
                None => None,
                Some(f) => u64_of(f),
            };
            match spec_error_member(v) {
                Err(pe) => Err(pe),
                Ok(error) => {
                    let has_result = match get_of(v, "result"@) {
                        Some(f) => !is_null_of(f),
                        None => false,
                    };
                    match spec_dispatch(id, has_result, error is Some) {
                        Err(pe) => Err(pe),
                        Ok(call) => if has_result {
                            match spec_decode_result(call, get_of(v, "result"@)->Some_0) {
                                Ok(u) => Ok(
                                    EnvelopeV { call, result: Some(u), error: None },
                                ),
                                Err(pe) => Err(pe),
                            }
                        } else {
                            match error {
                                Some(e) => Ok(
                                    EnvelopeV { call, result: None, error: Some(e) },
                                ),
                                None => Err(ProtocolError::AmbiguousEnvelope),
                            }
                        },
                    }
                },
            }
        },
    }
}

impl ResponseEnvelope {
    /// The single entry point for one raw response.  The bytes are parsed
    /// into a generic JSON value first, so no assumption is made about the
    /// order of `id`, `result` and `error` in the object; then the id picks
    /// the decode path.  Every failure is a typed error — malformed input
    /// never panics — and every envelope handed back is well formed.
    pub fn from_bytes(raw: &[u8]) -> (r: Result<ResponseEnvelope, ProtocolError>)
        ensures
            match r {
                Ok(env) => spec_from_bytes(raw@) == Ok::<EnvelopeV, ProtocolError>(env@)
                    && env.wf(),
                Err(e) => spec_from_bytes(raw@) == Err::<EnvelopeV, ProtocolError>(e),
            },
    {
        let v = match json_parse(raw) {
            Some(v) => v,
            None => {
                return Err(ProtocolError::Malformed);
            },
        };
        if !json_is_object(&v) {
            return Err(ProtocolError::Malformed);
        }
        let id: Option<u64> = match json_get(&v, "id") {
            None => None,
            Some(f) => json_as_u64(f),
        };
        let error = match error_member(&v) {
            Ok(e) => e,
            Err(pe) => {
                return Err(pe);
            },
        };
        let result_value = json_get(&v, "result");
        let has_result = match &result_value {
            Some(f) => !json_is_null(f),
            None => false,
        };
        let call = match dispatch_id(id, has_result, error.is_some()) {
            Ok(c) => c,
            Err(pe) => {
                return Err(pe);
            },
        };
        if has_result {
            let rv = match result_value {
                Some(f) => f,
                None => {
                    // a present result is what made `has_result` true
                    proof {
                        assert(false);
                    }
                    return Err(ProtocolError::Malformed);
                },
            };
            match decode_result(call, rv) {
                Ok(u) => Ok(ResponseEnvelope { call, result: Some(u), error: None }),
                Err(pe) => Err(pe),
            }
        } else {
            match error {
                Some(e) => Ok(ResponseEnvelope { call, result: None, error: Some(e) }),
                None => Err(ProtocolError::AmbiguousEnvelope),
            }
        }
    }
}

/// What reading a run of topic words yields: each element must be hex
/// text; the first bad element decides.
pub open spec fn spec_topics(items: Seq<serde_json::Value>) -> Result<Seq<Seq<u8>>, ProtocolError>
    decreases items.len(),
{
    if items.len() == 0 {
        Ok(Seq::<Seq<u8>>::empty())
    } else {
        match spec_topics(items.drop_last()) {
            Err(e) => Err(e),
            Ok(ts) => match str_of(items.last()) {
                None => Err(ProtocolError::MismatchedTypes),
                Some(t) => if hex::hex_decode_ok(t) {
                    Ok(ts.push(hex::spec_decode(t)))
                } else {
                    Err(ProtocolError::MismatchedTypes)
                },
            },
        }
    }
}

/// Once a prefix of the topics fails, the whole run fails the same way.
proof fn lemma_topics_err_extends(items: Seq<serde_json::Value>, k: int, e: ProtocolError)
    requires
        0 <= k <= items.len(),
        spec_topics(items.take(k)) == Err::<Seq<Seq<u8>>, ProtocolError>(e),
    ensures
        spec_topics(items) == Err::<Seq<Seq<u8>>, ProtocolError>(e),
    decreases items.len() - k,
{
    if k == items.len() {
        assert(items.take(k) =~= items);
    } else {
        assert(items.take(k + 1).drop_last() =~= items.take(k));
        lemma_topics_err_extends(items, k + 1, e);
    }
}

/// Reads the topic words of one log.
fn topics_from_array(arr: &Vec<serde_json::Value>) -> (r: Result<Vec<Vec<u8>>, ProtocolError>)
    ensures
        match r {
            Ok(ts) => spec_topics(arr@) == Ok::<Seq<Seq<u8>>, ProtocolError>(
                ts@.map_values(|t: Vec<u8>| t@),
            ),
            Err(e) => spec_topics(arr@) == Err::<Seq<Seq<u8>>, ProtocolError>(e),
        },
{
    let mut topics: Vec<Vec<u8>> = Vec::new();
    proof {
        assert(topics@.map_values(|t: Vec<u8>| t@) =~= Seq::<Seq<u8>>::empty());
    }
    let mut i: usize = 0;
    let n = arr.len();
    while i < n
        invariant
            0 <= i <= n,
            n == arr@.len(),
            spec_topics(arr@.take(i as int)) == Ok::<Seq<Seq<u8>>, ProtocolError>(
                topics@.map_values(|t: Vec<u8>| t@),
            ),
        decreases n - i,
    {
        let ghost prior: Seq<Seq<u8>> = topics@.map_values(|t: Vec<u8>| t@);
        proof {
            assert(arr@.take(i + 1).drop_last() =~= arr@.take(i as int));
            assert(arr@.take(i + 1).last() == arr@[i as int]);
        }
        let t = match json_as_string(&arr[i]) {
            Some(s2) => s2,
            None => {
                proof {
                    lemma_topics_err_extends(arr@, i + 1, ProtocolError::MismatchedTypes);
                }
                return Err(ProtocolError::MismatchedTypes);
            },
        };
        let bytes = match hex::decode(t.as_str()) {
            Ok(b) => b,
            Err(_) => {
                proof {
                    lemma_topics_err_extends(arr@, i + 1, ProtocolError::MismatchedTypes);
                }
                return Err(ProtocolError::MismatchedTypes);
            },
        };
        let ghost bv: Seq<u8> = bytes@;
        topics.push(bytes);
        proof {
            assert(topics@.map_values(|t2: Vec<u8>| t2@) =~= prior.push(bv));
        }
        i = i + 1;
    }
    proof {
        assert(arr@.take(n as int) =~= arr@);
    }
    Ok(topics)
}

/// What reading one log object yields: issuer address, data blob (absent
/// or unreadable data reads as empty), and topic words.
pub open spec fn spec_log(v: serde_json::Value) -> Result<crate::records::LogV, ProtocolError> {
    match spec_address_field(v, "address"@) {
        None => Err(ProtocolError::MismatchedTypes),
        Some(a) => {
            let data = match spec_bytes_field(v, "data"@) {
                Some(b) => b,
                None => Seq::<u8>::empty(),
            };
            match get_of(v, "topics"@) {
                None => Ok(
                    crate::records::LogV { address: a, data, topics: Seq::<Seq<u8>>::empty() },
                ),
                Some(ts) => match elems_of(ts) {
                    None => Err(ProtocolError::MismatchedTypes),
                    Some(items) => match spec_topics(items) {
                        Err(e) => Err(e),
                        Ok(tps) => Ok(crate::records::LogV { address: a, data, topics: tps }),
                    },
                },
            }
        },
    }
}

/// Reads one receipt log out of a JSON log object: the issuing address,
/// the data blob, and the topic words.
pub fn log_from_json(v: &serde_json::Value) -> (r: Result<LogView, ProtocolError>)
    ensures
        match r {
            Ok(l) => spec_log(*v) == Ok::<crate::records::LogV, ProtocolError>(l@)
                && l.address.wf(),
            Err(e) => spec_log(*v) == Err::<crate::records::LogV, ProtocolError>(e),
        },
{
    let address = match address_field(v, "address") {
        Some(a) => a,
        None => {
            return Err(ProtocolError::MismatchedTypes);
        },
    };
    let data = match bytes_field(v, "data") {
        Some(b) => b,
        None => Vec::new(),
    };
    let topics: Vec<Vec<u8>> = match json_get(v, "topics") {
        None => {
            let none_yet: Vec<Vec<u8>> = Vec::new();
            proof {
                assert(none_yet@.map_values(|t: Vec<u8>| t@) =~= Seq::<Seq<u8>>::empty());
            }
            none_yet
        },
        Some(ts) => {
            match json_as_array(ts) {
                None => {
                    return Err(ProtocolError::MismatchedTypes);
                },
                Some(arr) => match topics_from_array(arr) {
                    Ok(tps) => tps,
                    Err(e) => {
                        return Err(e);
                    },
                },
            }
        },
    };
    Ok(LogView { address, data, topics })
}

/// What reading a run of log objects yields; the first bad one decides.
pub open spec fn spec_logs(items: Seq<serde_json::Value>) -> Result<
    Seq<crate::records::LogV>,
    ProtocolError,
>
    decreases items.len(),
{
    if items.len() == 0 {
        Ok(Seq::<crate::records::LogV>::empty())
    } else {
        match spec_logs(items.drop_last()) {
            Err(e) => Err(e),
            Ok(ls) => match spec_log(items.last()) {
                Err(e) => Err(e),
                Ok(l) => Ok(ls.push(l)),
            },
        }
    }
}

/// Once a prefix of the logs fails, the whole run fails the same way.
proof fn lemma_logs_err_extends(items: Seq<serde_json::Value>, k: int, e: ProtocolError)
    requires
        0 <= k <= items.len(),
        spec_logs(items.take(k)) == Err::<Seq<crate::records::LogV>, ProtocolError>(e),
    ensures
        spec_logs(items) == Err::<Seq<crate::records::LogV>, ProtocolError>(e),
    decreases items.len() - k,
{
    if k == items.len() {
        assert(items.take(k) =~= items);
    } else {
        assert(items.take(k + 1).drop_last() =~= items.take(k));
        lemma_logs_err_extends(items, k + 1, e);
    }
}

/// Reads the log list of one receipt.
fn logs_from_array(arr: &Vec<serde_json::Value>) -> (r: Result<Vec<LogView>, ProtocolError>)
    ensures
        match r {
            Ok(ls) => spec_logs(arr@) == Ok::<Seq<crate::records::LogV>, ProtocolError>(
                ls@.map_values(|l: LogView| l@),
            ),
            Err(e) => spec_logs(arr@) == Err::<Seq<crate::records::LogV>, ProtocolError>(e),
        },
{
    let mut logs: Vec<LogView> = Vec::new();
    proof {
        assert(logs@.map_values(|l: LogView| l@) =~= Seq::<crate::records::LogV>::empty());
    }
    let mut i: usize = 0;
    let n = arr.len();
    while i < n
        invariant
            0 <= i <= n,
            n == arr@.len(),
            spec_logs(arr@.take(i as int)) == Ok::<Seq<crate::records::LogV>, ProtocolError>(
                logs@.map_values(|l: LogView| l@),
            ),
        decreases n - i,
    {
        let ghost prior: Seq<crate::records::LogV> = logs@.map_values(|l: LogView| l@);
        proof {
            assert(arr@.take(i + 1).drop_last() =~= arr@.take(i as int));
            assert(arr@.take(i + 1).last() == arr@[i as int]);
        }
        match log_from_json(&arr[i]) {
            Ok(l) => {
                let ghost lv: crate::records::LogV = l@;
                logs.push(l);
                proof {
                    assert(logs@.map_values(|l2: LogView| l2@) =~= prior.push(lv));
                }
            },
            Err(e) => {
                proof {
                    lemma_logs_err_extends(arr@, i + 1, e);
                }
                return Err(e);
            },
        }
        i = i + 1;
    }
    proof {
        assert(arr@.take(n as int) =~= arr@);
    }
    Ok(logs)
}

/// What the optional `contractAddress` field of a receipt yields: absent
/// or `null` means no contract was created.
pub open spec fn spec_contract_field(v: serde_json::Value) -> Result<
    Option<Seq<u8>>,
    ProtocolError,
> {
    match get_of(v, "contractAddress"@) {
        None => Ok(None),
        Some(f) => if is_null_of(f) {
            Ok(None)
        } else {
            match spec_address_field(v, "contractAddress"@) {
                Some(a) => Ok(Some(a)),
                None => Err(ProtocolError::MismatchedTypes),
            }
        },
    }
}

/// What reading a receipt object yields: the owning transaction hash, the
/// created contract when there is one, and the logs (an absent log member
/// reads as none).
pub open spec fn spec_receipt(v: serde_json::Value) -> Result<
    crate::records::ReceiptV,
    ProtocolError,
> {
    if !is_object_of(v) {
        Err(ProtocolError::MismatchedTypes)
    } else {
        match spec_hash_field(v, "transactionHash"@) {
            None => Err(ProtocolError::MismatchedTypes),
            Some(h) => match spec_contract_field(v) {
                Err(e) => Err(e),
                Ok(contract) => match get_of(v, "logs"@) {
                    None => Ok(
                        crate::records::ReceiptV {
                            transaction_hash: h,
                            contract_address: contract,
                            logs: Seq::<crate::records::LogV>::empty(),
                        },
                    ),
                    Some(ls) => match elems_of(ls) {
                        None => Err(ProtocolError::MismatchedTypes),
                        Some(items) => match spec_logs(items) {
                            Err(e) => Err(e),
                            Ok(lv) => Ok(
                                crate::records::ReceiptV {
                                    transaction_hash: h,
                                    contract_address: contract,
                                    logs: lv,
                                },
                            ),
                        },
                    },
                },
            },
        }
    }
}

/// Reads a receipt object into the view the cache keeps: the transaction
/// hash it belongs to, the created contract when there is one, and the
/// logs.
pub fn receipt_from_json(v: &serde_json::Value) -> (r: Result<ReceiptView, ProtocolError>)
    ensures
        match r {
            Ok(rc) => spec_receipt(*v) == Ok::<crate::records::ReceiptV, ProtocolError>(rc@)
                && rc.transaction_hash.wf() && (rc.contract_address is Some
                ==> rc.contract_address->Some_0.wf()),
            Err(e) => spec_receipt(*v) == Err::<crate::records::ReceiptV, ProtocolError>(e),
        },
{
    if !json_is_object(v) {
        return Err(ProtocolError::MismatchedTypes);
    }
    let transaction_hash = match hash_field(v, "transactionHash") {
        Some(h) => h,
        None => {
            return Err(ProtocolError::MismatchedTypes);
        },
    };
    let contract_address: Option<Address> = match json_get(v, "contractAddress") {
        None => None,
        Some(f) => {
            if json_is_null(f) {
                None
            } else {
                match address_field(v, "contractAddress") {
                    Some(a) => Some(a),
                    None => {
                        return Err(ProtocolError::MismatchedTypes);
                    },
                }
            }
        },
    };
    let logs: Vec<LogView> = match json_get(v, "logs") {
        None => {
            let none_yet: Vec<LogView> = Vec::new();
            proof {
                assert(none_yet@.map_values(|l: LogView| l@) =~= Seq::<
                    crate::records::LogV,
                >::empty());
            }
            none_yet
        },
        Some(ls) => {
            match json_as_array(ls) {
                None => {
                    return Err(ProtocolError::MismatchedTypes);
                },
                Some(arr) => match logs_from_array(arr) {
                    Ok(lv) => lv,
                    Err(e) => {
                        return Err(e);
                    },
                },
            }
        },
    };
    Ok(ReceiptView { transaction_hash, contract_address, logs })
}

/// What reading a nested call path yields: each element must be an index
/// that fits a `u32`; the first bad one decides.
pub open spec fn spec_trace_path(items: Seq<serde_json::Value>) -> Result<Seq<u32>, ProtocolError>
    decreases items.len(),
{
    if items.len() == 0 {
        Ok(Seq::<u32>::empty())
    } else {
        match spec_trace_path(items.drop_last()) {
            Err(e) => Err(e),
            Ok(ta) => match u64_of(items.last()) {
                None => Err(ProtocolError::MismatchedTypes),
                Some(x) => if x > u32::MAX as u64 {
                    Err(ProtocolError::MismatchedTypes)
                } else {
                    Ok(ta.push(x as u32))
                },
            },
        }
    }
}

/// Once a prefix of the path fails, the whole run fails the same way.
proof fn lemma_trace_path_err_extends(items: Seq<serde_json::Value>, k: int, e: ProtocolError)
    requires
        0 <= k <= items.len(),
        spec_trace_path(items.take(k)) == Err::<Seq<u32>, ProtocolError>(e),
    ensures
        spec_trace_path(items) == Err::<Seq<u32>, ProtocolError>(e),
    decreases items.len() - k,
{
    if k == items.len() {
        assert(items.take(k) =~= items);
    } else {
        assert(items.take(k + 1).drop_last() =~= items.take(k));
        lemma_trace_path_err_extends(items, k + 1, e);
    }
}

/// Reads the nested call path of one trace.
fn trace_path_from_array(arr: &Vec<serde_json::Value>) -> (r: Result<Vec<u32>, ProtocolError>)
    ensures
        match r {
            Ok(ta) => spec_trace_path(arr@) == Ok::<Seq<u32>, ProtocolError>(ta@),
            Err(e) => spec_trace_path(arr@) == Err::<Seq<u32>, ProtocolError>(e),
        },
{
    let mut ta: Vec<u32> = Vec::new();
    proof {
        assert(ta@ =~= Seq::<u32>::empty());
    }
    let mut i: usize = 0;
    let n = arr.len();
    while i < n
        invariant
            0 <= i <= n,
            n == arr@.len(),
            spec_trace_path(arr@.take(i as int)) == Ok::<Seq<u32>, ProtocolError>(ta@),
        decreases n - i,
    {
        proof {
            assert(arr@.take(i + 1).drop_last() =~= arr@.take(i as int));
            assert(arr@.take(i + 1).last() == arr@[i as int]);
        }
        let x = match json_as_u64(&arr[i]) {
            Some(x) => x,
            None => {
                proof {
                    lemma_trace_path_err_extends(arr@, i + 1, ProtocolError::MismatchedTypes);
                }
                return Err(ProtocolError::MismatchedTypes);
            },
        };
        if x > u32::MAX as u64 {
            proof {
                lemma_trace_path_err_extends(arr@, i + 1, ProtocolError::MismatchedTypes);
            }
            return Err(ProtocolError::MismatchedTypes);
        }
        ta.push(x as u32);
        i = i + 1;
    }
    proof {
        assert(arr@.take(n as int) =~= arr@);
    }
    Ok(ta)
}

/// What reading a trace action of the given kind yields.  A `call`
/// carries sender, receiver and input; a `create` its sender; a `suicide`
/// the dying contract and the refund target; a `reward` nothing; any
/// other kind is a mismatch.
pub open spec fn spec_action(kind: Seq<char>, a: serde_json::Value) -> Result<
    crate::records::ActionV,
    ProtocolError,
> {
    if kind == "call"@ {
        match spec_address_field(a, "from"@) {
            None => Err(ProtocolError::MismatchedTypes),
            Some(from) => match spec_address_field(a, "to"@) {
                None => Err(ProtocolError::MismatchedTypes),
                Some(to) => Ok(
                    crate::records::ActionV::Call {
                        from,
                        to,
                        input: match spec_bytes_field(a, "input"@) {
                            Some(b) => b,
                            None => Seq::<u8>::empty(),
                        },
                    },
                ),
            },
        }
    } else if kind == "create"@ {
        match spec_address_field(a, "from"@) {
            None => Err(ProtocolError::MismatchedTypes),
            Some(from) => Ok(crate::records::ActionV::Create { from }),
        }
    } else if kind == "suicide"@ {
        match spec_address_field(a, "address"@) {
            None => Err(ProtocolError::MismatchedTypes),
            Some(address) => match spec_address_field(a, "refundAddress"@) {
                None => Err(ProtocolError::MismatchedTypes),
                Some(refund_address) => Ok(
                    crate::records::ActionV::Suicide { address, refund_address },
                ),
            },
        }
    } else if kind == "reward"@ {
        Ok(crate::records::ActionV::Reward)
    } else {
        Err(ProtocolError::MismatchedTypes)
    }
}

/// What reading one trace object yields: the owning transaction hash, the
/// nested call path (absent means top level), and the action under its
/// `type` string.
pub open spec fn spec_trace(v: serde_json::Value) -> Result<crate::records::TraceV, ProtocolError> {
    if !is_object_of(v) {
        Err(ProtocolError::MismatchedTypes)
    } else {
        match spec_hash_field(v, "transactionHash"@) {
            None => Err(ProtocolError::MismatchedTypes),
            Some(h) => {
                let path = match get_of(v, "traceAddress"@) {
                    None => Ok(Seq::<u32>::empty()),
                    Some(ta) => match elems_of(ta) {
                        None => Err(ProtocolError::MismatchedTypes),
                        Some(items) => spec_trace_path(items),
                    },
                };
                match path {
                    Err(e) => Err(e),
                    Ok(ta) => match get_of(v, "type"@) {
                        None => Err(ProtocolError::MismatchedTypes),
                        Some(k) => match str_of(k) {
                            None => Err(ProtocolError::MismatchedTypes),
                            Some(kind) => match get_of(v, "action"@) {
                                None => Err(ProtocolError::MismatchedTypes),
                                Some(a) => match spec_action(kind, a) {
                                    Err(e) => Err(e),
                                    Ok(act) => Ok(
                                        crate::records::TraceV {
                                            transaction_hash: h,
                                            trace_address: ta,
                                            action: act,
                                        },
                                    ),
                                },
                            },
                        },
                    },
                }
            },
        }
    }
}

/// Reads one trace object into the view the matcher walks: the owning
/// transaction hash, the nested call path, and what the action did —
/// told apart by the object's `type` string.
pub fn trace_from_json(v: &serde_json::Value) -> (r: Result<TraceView, ProtocolError>)
    ensures
        match r {
            Ok(t) => spec_trace(*v) == Ok::<crate::records::TraceV, ProtocolError>(t@),
            Err(e) => spec_trace(*v) == Err::<crate::records::TraceV, ProtocolError>(e),
        },
{
    if !json_is_object(v) {
        return Err(ProtocolError::MismatchedTypes);
    }
    let transaction_hash = match hash_field(v, "transactionHash") {
        Some(h) => h,
        None => {
            return Err(ProtocolError::MismatchedTypes);
        },
    };
    let trace_address: Vec<u32> = match json_get(v, "traceAddress") {
        None => {
            let top_level: Vec<u32> = Vec::new();
            proof {
                assert(top_level@ =~= Seq::<u32>::empty());
            }
            top_level
        },
        Some(ta) => {
            match json_as_array(ta) {
                None => {
                    return Err(ProtocolError::MismatchedTypes);
                },
                Some(arr) => match trace_path_from_array(arr) {
                    Ok(p) => p,
                    Err(e) => {
                        return Err(e);
                    },
                },
            }
        },
    };
    let kind = match json_get(v, "type") {
        Some(k) => match json_as_string(k) {
            Some(s2) => s2,
            None => {
                return Err(ProtocolError::MismatchedTypes);
            },
        },
        None => {
            return Err(ProtocolError::MismatchedTypes);
        },
    };
    let action_obj = match json_get(v, "action") {
        Some(a) => a,
        None => {
            return Err(ProtocolError::MismatchedTypes);
        },
    };
    let w_call = String::from_str("call");
    let w_create = String::from_str("create");
    let w_suicide = String::from_str("suicide");
    let w_reward = String::from_str("reward");
    let action: ActionView = if kind.eq(&w_call) {
        let from = match address_field(action_obj, "from") {
            Some(a) => a,
            None => {
                return Err(ProtocolError::MismatchedTypes);
            },
        };
        let to = match address_field(action_obj, "to") {
            Some(a) => a,
            None => {
                return Err(ProtocolError::MismatchedTypes);
            },
        };
        let input = match bytes_field(action_obj, "input") {
            Some(b) => b,
            None => Vec::new(),
        };
        ActionView::Call { from, to, input }
    } else if kind.eq(&w_create) {
        let from = match address_field(action_obj, "from") {
            Some(a) => a,
            None => {
                return Err(ProtocolError::MismatchedTypes);
            },
        };
        ActionView::Create { from }
    } else if kind.eq(&w_suicide) {
        let address = match address_field(action_obj, "address") {
            Some(a) => a,
            None => {
                return Err(ProtocolError::MismatchedTypes);
            },
        };
        let refund_address = match address_field(action_obj, "refundAddress") {
            Some(a) => a,
            None => {
                return Err(ProtocolError::MismatchedTypes);
            },
        };
        ActionView::Suicide { address, refund_address }
    } else if kind.eq(&w_reward) {
        ActionView::Reward
    } else {
        return Err(ProtocolError::MismatchedTypes);
    };
    Ok(TraceView { transaction_hash, trace_address, action })
}

/// What reading a run of trace objects yields; the first bad one decides.
pub open spec fn spec_trace_items(items: Seq<serde_json::Value>) -> Result<
    Seq<crate::records::TraceV>,
    ProtocolError,
>
    decreases items.len(),
{
    if items.len() == 0 {
        Ok(Seq::<crate::records::TraceV>::empty())
    } else {
        match spec_trace_items(items.drop_last()) {
            Err(e) => Err(e),
            Ok(ts) => match spec_trace(items.last()) {
                Err(e) => Err(e),
                Ok(t) => Ok(ts.push(t)),
            },
        }
    }
}

/// Once a prefix of the traces fails, the whole run fails the same way.
proof fn lemma_trace_items_err_extends(items: Seq<serde_json::Value>, k: int, e: ProtocolError)
    requires
        0 <= k <= items.len(),
        spec_trace_items(items.take(k)) == Err::<Seq<crate::records::TraceV>, ProtocolError>(e),
    ensures
        spec_trace_items(items) == Err::<Seq<crate::records::TraceV>, ProtocolError>(e),
    decreases items.len() - k,
{
    if k == items.len() {
        assert(items.take(k) =~= items);
    } else {
        assert(items.take(k + 1).drop_last() =~= items.take(k));
        lemma_trace_items_err_extends(items, k + 1, e);
    }
}

/// What reading a whole trace-list answer yields: an array of traces.
pub open spec fn spec_traces(v: serde_json::Value) -> Result<
    Seq<crate::records::TraceV>,
    ProtocolError,
> {
    match elems_of(v) {
        None => Err(ProtocolError::MismatchedTypes),
        Some(items) => spec_trace_items(items),
    }
}

/// Reads a whole trace-list answer, in order.
pub fn traces_from_json(v: &serde_json::Value) -> (r: Result<Vec<TraceView>, ProtocolError>)
    ensures
        match r {
            Ok(ts) => spec_traces(*v) == Ok::<Seq<crate::records::TraceV>, ProtocolError>(
                ts@.map_values(|t: TraceView| t@),
            ),
            Err(e) => spec_traces(*v) == Err::<Seq<crate::records::TraceV>, ProtocolError>(e),
        },
{
    match json_as_array(v) {
        None => Err(ProtocolError::MismatchedTypes),
        Some(arr) => {
            let mut out: Vec<TraceView> = Vec::new();
            proof {
                assert(out@.map_values(|t: TraceView| t@) =~= Seq::<
                    crate::records::TraceV,
                >::empty());
            }
            let mut i: usize = 0;
            let n = arr.len();
            while i < n
                invariant
                    0 <= i <= n,
                    n == arr@.len(),
                    elems_of(*v) == Some(arr@),
                    spec_trace_items(arr@.take(i as int)) == Ok::<
                        Seq<crate::records::TraceV>,
                        ProtocolError,
                    >(out@.map_values(|t: TraceView| t@)),
                decreases n - i,
            {
                let ghost prior: Seq<crate::records::TraceV> = out@.map_values(
                    |t: TraceView| t@,
                );
                proof {
                    assert(arr@.take(i + 1).drop_last() =~= arr@.take(i as int));
                    assert(arr@.take(i + 1).last() == arr@[i as int]);
                }
                match trace_from_json(&arr[i]) {
                    Ok(t) => {
                        let ghost tv: crate::records::TraceV = t@;
                        out.push(t);
                        proof {
                            assert(out@.map_values(|t2: TraceView| t2@) =~= prior.push(tv));
                        }
                    },
                    Err(e) => {
                        proof {
                            lemma_trace_items_err_extends(arr@, i + 1, e);
                        }
                        return Err(e);
                    },
                }
                i = i + 1;
            }
            proof {
                assert(arr@.take(n as int) =~= arr@);
            }
            Ok(out)
        },
    }
}

/// What turning one raw batch answer into a partial result of the given
/// kind yields: the kind's own reader runs, a trace answer must be
/// nonempty so that its first trace can key it, and every reader failure
/// is one type mismatch.
pub open spec fn spec_part(
    kind: crate::cache::PartKind,
    v: serde_json::Value,
    block_hash: Option<Seq<u8>>,
) -> Result<crate::records::TxPartV, ProtocolError> {
    match kind {
        crate::cache::PartKind::Transaction => match spec_transaction(v) {
            Ok(t) => Ok(crate::records::TxPartV::Transaction(t)),
            Err(_) => Err(ProtocolError::MismatchedTypes),
        },
        crate::cache::PartKind::Receipt => match spec_receipt(v) {
            Ok(rc) => Ok(crate::records::TxPartV::Receipt(rc)),
            Err(_) => Err(ProtocolError::MismatchedTypes),
        },
        crate::cache::PartKind::Traces => match spec_traces(v) {
            Ok(ts) => if ts.len() > 0 {
                Ok(crate::records::TxPartV::Traces(ts[0].transaction_hash, ts))
            } else {
                Err(ProtocolError::MismatchedTypes)
            },
            Err(_) => Err(ProtocolError::MismatchedTypes),
        },
        crate::cache::PartKind::BlockHeader => match spec_block_header(v) {
            Ok(b) => match block_hash {
                Some(h) => Ok(crate::records::TxPartV::BlockHeader(h, b)),
                None => Err(ProtocolError::MismatchedTypes),
            },
            Err(_) => Err(ProtocolError::MismatchedTypes),
        },
    }
}

/// Turns one raw batch answer into the cache's partial result of the
/// given kind: whatever the JSON looked like, a returned part always
/// carries the kind that was asked for, so the cache merges it into the
/// right field.
pub fn part_from_json(kind: crate::cache::PartKind, v: &serde_json::Value, block_hash: Option<
    &TxHash,
>) -> (r: Result<TxPart, ProtocolError>)
    requires
        kind is BlockHeader <==> block_hash is Some,
    ensures
        match r {
            Ok(p) => spec_part(
                kind,
                *v,
                match block_hash {
                    Some(h) => Some(h@),
                    None => None,
                },
            ) == Ok::<crate::records::TxPartV, ProtocolError>(p@) && crate::cache::kind_of(p@)
                == kind,
            Err(e) => spec_part(
                kind,
                *v,
                match block_hash {
                    Some(h) => Some(h@),
                    None => None,
                },
            ) == Err::<crate::records::TxPartV, ProtocolError>(e),
        },
{
    match kind {
        crate::cache::PartKind::Transaction => {
            match transaction_from_json(v) {
                Ok(t) => Ok(TxPart::Transaction(t)),
                Err(_) => Err(ProtocolError::MismatchedTypes),
            }
        },
        crate::cache::PartKind::Receipt => {
            match receipt_from_json(v) {
                Ok(rc) => Ok(TxPart::Receipt(rc)),
                Err(_) => Err(ProtocolError::MismatchedTypes),
            }
        },
        crate::cache::PartKind::Traces => {
            match traces_from_json(v) {
                Ok(ts) => {
                    match crate::records::traces_part(ts) {
                        Some(p) => Ok(p),
                        None => Err(ProtocolError::MismatchedTypes),
                    }
                },
                Err(_) => Err(ProtocolError::MismatchedTypes),
            }
        },
        crate::cache::PartKind::BlockHeader => {
            match block_header_from_json(v) {
                Ok(b) => {
                    match block_hash {
                        Some(h) => Ok(TxPart::BlockHeader(h.duplicate(), b)),
                        None => Err(ProtocolError::MismatchedTypes),
                    }
                },
                Err(_) => Err(ProtocolError::MismatchedTypes),
            }
        },
    }
}

/// Dispatch correctness: a well-formed envelope for a call whose decode
/// rule is `Hex` — such as the block-number call — can only ever hold a
/// hex result, never a block, whatever the raw JSON looked like.
pub proof fn lemma_dispatch_hex_only(env: ResponseEnvelope)
    requires
        env.wf(),
        spec_result_shape(env.call) == ResultShape::Hex,
        env.result is Some,
    ensures
        env.result->Some_0@ is Hex,
{
}

} // verus!
