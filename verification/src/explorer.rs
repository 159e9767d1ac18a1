use vstd::prelude::*;

use crate::errors::ProtocolError;
use crate::hex::{encode, spec_encode};
use crate::numtext::{spec_u64_dec, u64_to_dec};
use crate::records::{Address, TxHash};
use crate::numtext::{all_dec, dec_val};
use crate::response::{
    elems_of, get_of, hash_field, json_as_array, json_as_string, json_get, json_of, json_parse,
    spec_hash_field, spec_str_field,
};

verus! {

/// The order in which the block-explorer index returns (hash, block number)
/// pairs for an address.
#[derive(Clone, Copy, Debug, PartialEq, Eq, Structural)]
pub enum SortType {
    Ascending,
    Descending,
    Unsorted,
}

impl SortType {
    /// The query-string value for this ordering.  When no ordering is
    /// asked for, ascending is requested.
    pub fn to_str(&self) -> (r: String)
        ensures
            self == SortType::Ascending ==> r@ == "asc"@,
            self == SortType::Descending ==> r@ == "des"@,
            self == SortType::Unsorted ==> r@ == "asc"@,
    {
        match self {
            SortType::Ascending => String::from_str("asc"),
            SortType::Descending => String::from_str("des"),
            SortType::Unsorted => String::from_str("asc"),
        }
    }
}

/// The wire text of one explorer query for an account's transactions:
/// the fixed service URL, then the address, block range and ordering.
/// `action` picks the index walked: external transactions or internal ones.
pub open spec fn spec_txlist_url(
    action: Seq<char>,
    addr: Seq<u8>,
    from: u64,
    to: u64,
    sort: Seq<char>,
) -> Seq<char> {
    "http://api.etherscan.io/api?module=account&action="@ + action + "&address="@ + spec_encode(
        addr,
    ) + "&startblock="@ + spec_u64_dec(from as nat) + "&endblock="@ + spec_u64_dec(to as nat)
        + "&sort="@ + sort + "&apikey=YourApiKeyToken"@
}

fn txlist_url_for(action: &str, addr: &Address, from: u64, to: u64, sort: SortType) -> (r: String)
    ensures
        r@ == spec_txlist_url(action@, addr@, from, to, (match sort {
            SortType::Descending => "des"@,
            _ => "asc"@,
        }),
    ),
{
    let mut s = String::from_str("http://api.etherscan.io/api?module=account&action=");
    s.append(action);
    s.append("&address=");
    let a = encode(addr.bytes.as_slice());
    s.append(a.as_str());
    s.append("&startblock=");
    let f = u64_to_dec(from);
    s.append(f.as_str());
    s.append("&endblock=");
    let t = u64_to_dec(to);
    s.append(t.as_str());
    s.append("&sort=");
    let so = sort.to_str();
    s.append(so.as_str());
    s.append("&apikey=YourApiKeyToken");
    proof {
        assert(s@ =~= spec_txlist_url(action@, addr@, from, to, (match sort {
            SortType::Descending => "des"@,
            _ => "asc"@,
        })));
    }
    s
}

/// The query URL for an account's external transactions.
pub fn txlist_url(addr: &Address, from: u64, to: u64, sort: SortType) -> (r: String)
    ensures
        r@ == spec_txlist_url("txlist"@, addr@, from, to, (match sort {
            SortType::Descending => "des"@,
            _ => "asc"@,
        }),
    ),
{
    txlist_url_for("txlist", addr, from, to, sort)
}

/// The query URL for an account's internal transactions.
pub fn internal_txlist_url(addr: &Address, from: u64, to: u64, sort: SortType) -> (r: String)
    ensures
        r@ == spec_txlist_url("txlistinternal"@, addr@, from, to, (match sort {
            SortType::Descending => "des"@,
            _ => "asc"@,
        }),
    ),
{
    txlist_url_for("txlistinternal", addr, from, to, sort)
}

/// What reading one explorer list item yields: its hash as hex text, its
/// block number as decimal text.
pub open spec fn spec_explorer_item(v: serde_json::Value) -> Result<(Seq<u8>, u64), ProtocolError> {
    match spec_hash_field(v, "hash"@) {
        None => Err(ProtocolError::MismatchedTypes),
        Some(h) => match spec_str_field(v, "blockNumber"@) {
            None => Err(ProtocolError::MismatchedTypes),
            Some(t) => if t.len() > 0 && all_dec(t) && dec_val(t) <= u64::MAX {
                Ok((h, dec_val(t) as u64))
            } else {
                Err(ProtocolError::MismatchedTypes)
            },
        },
    }
}

/// What reading a run of explorer items yields; the first bad one decides.
pub open spec fn spec_explorer_items(items: Seq<serde_json::Value>) -> Result<
    Seq<(Seq<u8>, u64)>,
    ProtocolError,
>
    decreases items.len(),
{
    if items.len() == 0 {
        Ok(Seq::<(Seq<u8>, u64)>::empty())
    } else {
        match spec_explorer_items(items.drop_last()) {
            Err(e) => Err(e),
            Ok(ps) => match spec_explorer_item(items.last()) {
                Err(e) => Err(e),
                Ok(p) => Ok(ps.push(p)),
            },
        }
    }
}

/// Once a prefix of the items fails, the whole run fails the same way.
proof fn lemma_explorer_items_err_extends(items: Seq<serde_json::Value>, k: int, e: ProtocolError)
    requires
        0 <= k <= items.len(),
        spec_explorer_items(items.take(k)) == Err::<Seq<(Seq<u8>, u64)>, ProtocolError>(e),
    ensures
        spec_explorer_items(items) == Err::<Seq<(Seq<u8>, u64)>, ProtocolError>(e),
    decreases items.len() - k,
{
    if k == items.len() {
        assert(items.take(k) =~= items);
    } else {
        assert(items.take(k + 1).drop_last() =~= items.take(k));
        lemma_explorer_items_err_extends(items, k + 1, e);
    }
}

/// What reading a whole explorer answer yields: the object's `result`
/// member, an array of items.
pub open spec fn spec_explorer_list(raw: Seq<u8>) -> Result<Seq<(Seq<u8>, u64)>, ProtocolError> {
    match json_of(raw) {
        None => Err(ProtocolError::Malformed),
        Some(v) => match get_of(v, "result"@) {
            None => Err(ProtocolError::MismatchedTypes),
            Some(rv) => match elems_of(rv) {
                None => Err(ProtocolError::MismatchedTypes),
                Some(items) => spec_explorer_items(items),
            },
        },
    }
}

/// Reads one explorer answer into the ordered (hash, block number) list
/// the fetch phase walks.  The answer's `result` member holds one object
/// per transaction, its hash as hex text and its block number as decimal
/// text.  Every returned hash is well formed.
pub fn explorer_list_from_json(body: &[u8]) -> (r: Result<Vec<(TxHash, u64)>, ProtocolError>)
    ensures
        match r {
            Ok(v) => spec_explorer_list(body@) == Ok::<Seq<(Seq<u8>, u64)>, ProtocolError>(
                v@.map_values(|p: (TxHash, u64)| (p.0@, p.1)),
            ) && (forall|i: int| 0 <= i < v@.len() ==> (#[trigger] v@[i]).0.wf()),
            Err(e) => spec_explorer_list(body@) == Err::<Seq<(Seq<u8>, u64)>, ProtocolError>(e),
        },
{
    let parsed = match json_parse(body) {
        Some(v) => v,
        None => {
            return Err(ProtocolError::Malformed);
        },
    };
    let result = match json_get(&parsed, "result") {
        Some(v) => v,
        None => {
            return Err(ProtocolError::MismatchedTypes);
        },
    };
    let arr = match json_as_array(result) {
        Some(a) => a,
        None => {
            return Err(ProtocolError::MismatchedTypes);
        },
    };
    let mut out: Vec<(TxHash, u64)> = Vec::new();
    proof {
        assert(out@.map_values(|p: (TxHash, u64)| (p.0@, p.1)) =~= Seq::<(Seq<u8>, u64)>::empty());
    }
    let mut i: usize = 0;
    let n = arr.len();
    while i < n
        invariant
            0 <= i <= n,
            n == arr@.len(),
            json_of(body@) == Some(parsed),
            get_of(parsed, "result"@) == Some(*result),
            elems_of(*result) == Some(arr@),
            spec_explorer_items(arr@.take(i as int)) == Ok::<Seq<(Seq<u8>, u64)>, ProtocolError>(
                out@.map_values(|p: (TxHash, u64)| (p.0@, p.1)),
            ),
            forall|k: int| 0 <= k < out@.len() ==> (#[trigger] out@[k]).0.wf(),
        decreases n - i,
    {
        let ghost prior: Seq<(Seq<u8>, u64)> = out@.map_values(|p: (TxHash, u64)| (p.0@, p.1));
        proof {
            assert(arr@.take(i + 1).drop_last() =~= arr@.take(i as int));
            assert(arr@.take(i + 1).last() == arr@[i as int]);
        }
        let item = &arr[i];
        let h = match hash_field(item, "hash") {
            Some(h) => h,
            None => {
                proof {
                    lemma_explorer_items_err_extends(arr@, i + 1, ProtocolError::MismatchedTypes);
                }
                return Err(ProtocolError::MismatchedTypes);
            },
        };
        let bn_text = match json_get(item, "blockNumber") {
            Some(f) => match json_as_string(f) {
                Some(t) => t,
                None => {
                    proof {
                        lemma_explorer_items_err_extends(
                            arr@,
                            i + 1,
                            ProtocolError::MismatchedTypes,
                        );
                    }
                    return Err(ProtocolError::MismatchedTypes);
                },
            },
            None => {
                proof {
                    lemma_explorer_items_err_extends(arr@, i + 1, ProtocolError::MismatchedTypes);
                }
                return Err(ProtocolError::MismatchedTypes);
            },
        };
        let bn = match crate::numtext::parse_u64(bn_text.as_str()) {
            Some(v) => v,
            None => {
                proof {
                    lemma_explorer_items_err_extends(arr@, i + 1, ProtocolError::MismatchedTypes);
                }
                return Err(ProtocolError::MismatchedTypes);
            },
        };
        let ghost hv: Seq<u8> = h@;
        out.push((h, bn));
        proof {
            assert(out@.map_values(|p: (TxHash, u64)| (p.0@, p.1)) =~= prior.push((hv, bn)));
        }
        i = i + 1;
    }
    proof {
        assert(arr@.take(n as int) =~= arr@);
    }
    Ok(out)
}

/// Chains the external and internal transaction lists into one, external
/// first, the way one explorer account query is assembled from its two
/// halves.
pub fn merge_hash_lists(first: Vec<(TxHash, u64)>, second: Vec<(TxHash, u64)>) -> (r: Vec<
    (TxHash, u64),
>)
    ensures
        r@.len() == first@.len() + second@.len(),
        forall|i: int| 0 <= i < first@.len() ==> r@[i] == first@[i],
        forall|i: int|
            0 <= i < second@.len() ==> r@[first@.len() + i] == second@[i],
{
    let mut out = first;
    let mut tail = second;
    out.append(&mut tail);
    out
}

} // verus!
