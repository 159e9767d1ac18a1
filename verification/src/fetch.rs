use vstd::prelude::*;

use crate::api_call::ApiCall;
use crate::errors::{ProtocolError, TransactionFinderError, TransportError};
use crate::hex::{encode, spec_encode, spec_u64_hex_digits, u64_to_hex};
use crate::records::TxHash;
use crate::request::{ParamV, ParamValue, RequestEnvelope};
use crate::response::{decode_result, lift_decoded, shape_of, spec_decode_result, ResultUnion};

verus! {

/// The request that fetches one transaction body by hash.
pub fn transaction_request(h: &TxHash) -> (r: RequestEnvelope)
    ensures
        r.call == ApiCall::EthGetTransactionByHash,
        r@.1 =~= seq![ParamV::Text(spec_encode(h@))],
{
    let text = encode(h.bytes.as_slice());
    let mut params: Vec<ParamValue> = Vec::new();
    params.push(ParamValue::Text(text));
    let r = RequestEnvelope::for_call(ApiCall::EthGetTransactionByHash, params);
    proof {
        assert(r@.1 =~= seq![ParamV::Text(spec_encode(h@))]);
    }
    r
}

/// The request that fetches one transaction receipt by hash.
pub fn receipt_request(h: &TxHash) -> (r: RequestEnvelope)
    ensures
        r.call == ApiCall::EthGetTransactionByReceipt,
        r@.1 =~= seq![ParamV::Text(spec_encode(h@))],
{
    let text = encode(h.bytes.as_slice());
    let mut params: Vec<ParamValue> = Vec::new();
    params.push(ParamValue::Text(text));
    let r = RequestEnvelope::for_call(ApiCall::EthGetTransactionByReceipt, params);
    proof {
        assert(r@.1 =~= seq![ParamV::Text(spec_encode(h@))]);
    }
    r
}

/// The request that fetches one transaction's trace list by hash.
pub fn traces_request(h: &TxHash) -> (r: RequestEnvelope)
    ensures
        r.call == ApiCall::TraceTransaction,
        r@.1 =~= seq![ParamV::Text(spec_encode(h@))],
{
    let text = encode(h.bytes.as_slice());
    let mut params: Vec<ParamValue> = Vec::new();
    params.push(ParamValue::Text(text));
    let r = RequestEnvelope::for_call(ApiCall::TraceTransaction, params);
    proof {
        assert(r@.1 =~= seq![ParamV::Text(spec_encode(h@))]);
    }
    r
}

/// The request that fetches one block header by number; transaction bodies
/// are not asked for.
pub fn block_request(n: u64) -> (r: RequestEnvelope)
    ensures
        r.call == ApiCall::EthGetBlockByNumber,
        r@.1 =~= seq![
            ParamV::Text(seq!['0', 'x'] + spec_u64_hex_digits(n as nat)),
            ParamV::Flag(false),
        ],
{
    let text = u64_to_hex(n);
    let mut params: Vec<ParamValue> = Vec::new();
    params.push(ParamValue::Text(text));
    params.push(ParamValue::Flag(false));
    let r = RequestEnvelope::for_call(ApiCall::EthGetBlockByNumber, params);
    proof {
        assert(r@.1 =~= seq![
            ParamV::Text(seq!['0', 'x'] + spec_u64_hex_digits(n as nat)),
            ParamV::Flag(false),
        ]);
    }
    r
}

/// The request that asks the live node for the transaction at an exact
/// (block, index) position, during the scan phase.
pub fn live_lookup_request(block_num: u64, index: u32) -> (r: RequestEnvelope)
    ensures
        r.call == ApiCall::EthGetTransactionByBlockNumberAndIndex,
        r@.1 =~= seq![
            ParamV::Text(seq!['0', 'x'] + spec_u64_hex_digits(block_num as nat)),
            ParamV::Text(seq!['0', 'x'] + spec_u64_hex_digits(index as nat)),
        ],
{
    let bn = u64_to_hex(block_num);
    let ix = u64_to_hex(index as u64);
    let mut params: Vec<ParamValue> = Vec::new();
    params.push(ParamValue::Text(bn));
    params.push(ParamValue::Text(ix));
    let r = RequestEnvelope::for_call(ApiCall::EthGetTransactionByBlockNumberAndIndex, params);
    proof {
        assert(r@.1 =~= seq![
            ParamV::Text(seq!['0', 'x'] + spec_u64_hex_digits(block_num as nat)),
            ParamV::Text(seq!['0', 'x'] + spec_u64_hex_digits(index as nat)),
        ]);
    }
    r
}

/// Settles the block range of a crawl.  A missing bound falls back to the
/// latest block, which the transport supplies; a range running backwards
/// is impossible.
pub fn crawl_range(from_block: Option<u64>, to_block: Option<u64>, latest: u64) -> (r: Result<
    (u64, u64),
    TransactionFinderError,
>)
    ensures
        match r {
            Ok((f, t)) => f <= t && f == (match from_block {
                Some(x) => x,
                None => latest,
            }) && t == (match to_block {
                Some(x) => x,
                None => latest,
            }),
            Err(e) => e == TransactionFinderError::ImpossibleTo && (match from_block {
                Some(x) => x,
                None => latest,
            }) > (match to_block {
                Some(x) => x,
                None => latest,
            }),
        },
{
    let f = match from_block {
        Some(x) => x,
        None => latest,
    };
    let t = match to_block {
        Some(x) => x,
        None => latest,
    };
    if f > t {
        Err(TransactionFinderError::ImpossibleTo)
    } else {
        Ok((f, t))
    }
}

/// A strictly increasing run of numbers.
pub open spec fn sorted_strict(v: Seq<u64>) -> bool {
    forall|i: int, j: int| 0 <= i < j < v.len() ==> v[i] < v[j]
}

/// The block numbers an explorer answer mentions, each once, in
/// increasing order — a block referenced by many transactions is fetched
/// once.
pub fn dedup_block_numbers(hashes: &Vec<(TxHash, u64)>) -> (r: Vec<u64>)
    ensures
        sorted_strict(r@),
        forall|n: u64|
            r@.contains(n) <==> exists|i: int|
                0 <= i < hashes@.len() && (#[trigger] hashes@[i]).1 == n,
{
    let mut out: Vec<u64> = Vec::new();
    let mut i: usize = 0;
    let n = hashes.len();
    while i < n
        invariant
            0 <= i <= n,
            n == hashes@.len(),
            sorted_strict(out@),
            forall|x: u64|
                out@.contains(x) <==> exists|k: int|
                    0 <= k < i && (#[trigger] hashes@[k]).1 == x,
        decreases n - i,
    {
        let bn = hashes[i].1;
        let ghost old_out: Seq<u64> = out@;
        let mut pos: usize = 0;
        let m = out.len();
        let mut present: bool = false;
        let mut stop: bool = false;
        while pos < m && !present && !stop
            invariant
                0 <= pos <= m,
                m == out@.len(),
                sorted_strict(out@),
                forall|k: int| 0 <= k < pos ==> (#[trigger] out@[k]) < bn,
                present ==> pos < m && out@[pos as int] == bn,
                stop ==> pos < m && out@[pos as int] > bn,
                !(present && stop),
            decreases m - pos + (if present || stop { 0int } else { 1int }),
        {
            if out[pos] == bn {
                present = true;
            } else if out[pos] > bn {
                stop = true;
            } else {
                pos = pos + 1;
            }
        }
        if !present {
            proof {
                if out@.contains(bn) {
                    let w = choose|w: int| 0 <= w < out@.len() && out@[w] == bn;
                    if w < pos {
                        assert(out@[w] < bn);
                    } else if stop && w > pos {
                        assert(out@[pos as int] < out@[w]);
                    }
                    assert(false);
                }
            }
            out.insert(pos, bn);
            proof {
                old_out.insert_ensures(pos as int, bn);
                assert forall|a: int, b: int| 0 <= a < b < out@.len() implies (#[trigger] out@[a])
                    < (#[trigger] out@[b]) by {
                    if b < pos {
                        assert(out@[a] == old_out[a] && out@[b] == old_out[b]);
                    } else if b == pos {
                        assert(out@[a] == old_out[a] && old_out[a] < bn);
                    } else if a == pos {
                        assert(out@[b] == old_out[b - 1]);
                        if stop {
                            assert(old_out[pos as int] <= old_out[b - 1]);
                        }
                    } else if a < pos {
                        assert(out@[a] == old_out[a] && out@[b] == old_out[b - 1]);
                        assert(old_out[a] < bn);
                        if stop {
                            assert(old_out[pos as int] <= old_out[b - 1]);
                        }
                    } else {
                        assert(out@[a] == old_out[a - 1] && out@[b] == old_out[b - 1]);
                    }
                }
                assert forall|x: u64| out@.contains(x) implies (old_out.contains(x) || x
                    == bn) by {
                    let w = choose|w: int| 0 <= w < out@.len() && out@[w] == x;
                    if w < pos {
                        assert(old_out[w] == x);
                    } else if w > pos {
                        assert(old_out[w - 1] == x);
                    }
                }
                assert forall|x: u64| old_out.contains(x) || x == bn implies out@.contains(x) by {
                    if x == bn {
                        assert(out@[pos as int] == bn);
                    } else {
                        let w = choose|w: int| 0 <= w < old_out.len() && old_out[w] == x;
                        if w < pos {
                            assert(out@[w] == x);
                        } else {
                            assert(out@[w + 1] == x);
                        }
                    }
                }
            }
        } else {
            proof {
                assert(out@.contains(bn)) by {
                    assert(out@[pos as int] == bn);
                }
            }
        }
        proof {
            assert forall|x: u64| out@.contains(x) implies exists|k: int|
                0 <= k < i + 1 && (#[trigger] hashes@[k]).1 == x by {
                if x == bn {
                    assert(hashes@[i as int].1 == x);
                } else {
                    assert(old_out.contains(x));
                    let k = choose|k: int| 0 <= k < i && (#[trigger] hashes@[k]).1 == x;
                    assert(hashes@[k].1 == x);
                }
            }
            assert forall|x: u64|
                (exists|k: int| 0 <= k < i + 1 && (#[trigger] hashes@[k]).1 == x) implies out@
                .contains(x) by {
                let k = choose|k: int| 0 <= k < i + 1 && (#[trigger] hashes@[k]).1 == x;
                if k < i {
                    assert(old_out.contains(x));
                    if !present {
                        assert(out@.contains(x));
                    }
                } else {
                    assert(x == bn);
                    assert(out@.contains(bn));
                }
            }
        }
        i = i + 1;
    }
    out
}

/// Fans one transport batch answer back out to its originating calls: one
/// raw value per request, in submission order, each decoded along its own
/// call's decode rule.  A transport that answers with the wrong count has
/// broken the batch contract, and the whole batch fails atomically.
pub fn fan_out(reqs: &Vec<RequestEnvelope>, raws: &Vec<serde_json::Value>) -> (r: Result<
    Vec<(ApiCall, Result<ResultUnion, ProtocolError>)>,
    TransportError,
>)
    ensures
        r is Ok <==> raws@.len() == reqs@.len(),
        r is Ok ==> {
            let out = r->Ok_0@;
            &&& out.len() == reqs@.len()
            &&& forall|i: int| 0 <= i < out.len() ==> (#[trigger] out[i]).0 == reqs@[i].call
            &&& forall|i: int|
                0 <= i < out.len() ==> lift_decoded((#[trigger] out[i]).1) == spec_decode_result(
                    reqs@[i].call,
                    raws@[i],
                )
            &&& forall|i: int|
                0 <= i < out.len() && (#[trigger] out[i]).1 is Ok ==> shape_of(out[i].1->Ok_0@)
                    == crate::api_call::spec_result_shape(reqs@[i].call)
        },
{
    if raws.len() != reqs.len() {
        return Err(TransportError::BatchLengthMismatch);
    }
    let mut out: Vec<(ApiCall, Result<ResultUnion, ProtocolError>)> = Vec::new();
    let n = reqs.len();
    let mut i: usize = 0;
    while i < n
        invariant
            0 <= i <= n,
            n == reqs@.len(),
            n == raws@.len(),
            out@.len() == i,
            forall|k: int| 0 <= k < i ==> (#[trigger] out@[k]).0 == reqs@[k].call,
            forall|k: int|
                0 <= k < i ==> lift_decoded((#[trigger] out@[k]).1) == spec_decode_result(
                    reqs@[k].call,
                    raws@[k],
                ),
            forall|k: int|
                0 <= k < i && (#[trigger] out@[k]).1 is Ok ==> shape_of(out@[k].1->Ok_0@)
                    == crate::api_call::spec_result_shape(reqs@[k].call),
        decreases n - i,
    {
        let call = reqs[i].call;
        let decoded = decode_result(call, &raws[i]);
        out.push((call, decoded));
        i = i + 1;
    }
    Ok(out)
}

} // verus!
