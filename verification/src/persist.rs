use vstd::prelude::*;

use crate::cache::{unique_hashes, CacheEntry, CacheV, TransactionCache};
use crate::errors::CacheError;
use crate::numtext::be_val;
use crate::records::{
    ActionV, ActionView, Address, BlockHeaderV, BlockHeaderView, LogV, LogView, TransactionV,
    TransactionView, TxHash, TxV, Tx, TraceV, TraceView,
};
use crate::util::copy_bytes;

verus! {

/// Powers of 256, for byte-width bounds.
pub open spec fn pow256(k: nat) -> nat
    decreases k,
{
    if k == 0 {
        1
    } else {
        256 * pow256((k - 1) as nat)
    }
}

/// The `k`-byte big-endian encoding of `n`.
pub open spec fn be_bytes(n: nat, k: nat) -> Seq<u8>
    decreases k,
{
    if k == 0 {
        Seq::<u8>::empty()
    } else {
        be_bytes(n / 256, (k - 1) as nat).push((n % 256) as u8)
    }
}

/// A number below `256^k` survives the `k`-byte round trip.
pub proof fn lemma_be_round(n: nat, k: nat)
    requires
        n < pow256(k),
    ensures
        be_bytes(n, k).len() == k,
        be_val(be_bytes(n, k)) == n,
    decreases k,
{
    if k == 0 {
    } else {
        assert(n / 256 < pow256((k - 1) as nat)) by (nonlinear_arith)
            requires
                n < pow256(k),
                pow256(k) == 256 * pow256((k - 1) as nat),
        ;
        lemma_be_round(n / 256, (k - 1) as nat);
        let b = be_bytes(n, k);
        assert(b.drop_last() =~= be_bytes(n / 256, (k - 1) as nat));
        assert(b.last() == (n % 256) as u8);
    }
}

/// Eight bytes cover exactly the `u64` range.
pub proof fn lemma_pow256_8()
    ensures
        pow256(8) == 0x10000000000000000,
{
    assert(pow256(0) == 1);
    assert(pow256(1) == 0x100);
    assert(pow256(2) == 0x10000);
    assert(pow256(3) == 0x1000000);
    assert(pow256(4) == 0x100000000);
    assert(pow256(5) == 0x10000000000);
    assert(pow256(6) == 0x1000000000000);
    assert(pow256(7) == 0x100000000000000);
    assert(pow256(8) == 0x10000000000000000);
}

/// The serialized form of one `u64`: eight bytes, big-endian.
pub open spec fn e_u64(n: u64) -> Seq<u8> {
    be_bytes(n as nat, 8)
}

/// Reads one `u64` at `i`: eight bytes, big-endian.
pub open spec fn p_u64(s: Seq<u8>, i: int) -> Option<(u64, int)> {
    if 0 <= i && i + 8 <= s.len() {
        Some((be_val(s.subrange(i, i + 8)) as u64, i + 8))
    } else {
        None
    }
}

/// An encoded `u64` is eight bytes long.
pub proof fn lemma_e_u64_len(n: u64)
    ensures
        e_u64(n).len() == 8,
        be_val(e_u64(n)) == n,
{
    lemma_pow256_8();
    lemma_be_round(n as nat, 8);
}

/// Parsing an encoded `u64` in place gives the number back.
pub proof fn lemma_p_u64(s: Seq<u8>, i: int, n: u64)
    requires
        0 <= i,
        i + 8 <= s.len(),
        s.subrange(i, i + 8) =~= e_u64(n),
    ensures
        p_u64(s, i) == Some((n, i + 8)),
{
    lemma_pow256_8();
    lemma_be_round(n as nat, 8);
}

fn enc_be(n: u64, k: usize) -> (r: Vec<u8>)
    ensures
        r@ =~= be_bytes(n as nat, k as nat),
    decreases k,
{
    if k == 0 {
        Vec::new()
    } else {
        let mut v = enc_be(n / 256, k - 1);
        v.push((n % 256) as u8);
        v
    }
}

/// Serializes one `u64`.
fn enc_u64(n: u64) -> (r: Vec<u8>)
    ensures
        r@ =~= e_u64(n),
{
    enc_be(n, 8)
}

/// Reads one `u64`.
fn dec_u64(s: &[u8], pos: usize) -> (r: Option<(u64, usize)>)
    ensures
        match r {
            Some((n, p)) => p_u64(s@, pos as int) == Some((n, p as int)) && pos < p <= s@.len(),
            None => p_u64(s@, pos as int) is None,
        },
{
    if pos > s.len() || s.len() - pos < 8 {
        return None;
    }
    let mut acc: u64 = 0;
    let mut j: usize = 0;
    let ghost w: Seq<u8> = s@.subrange(pos as int, pos + 8);
    while j < 8
        invariant
            0 <= j <= 8,
            pos + 8 <= s@.len(),
            s@.len() <= usize::MAX,
            w == s@.subrange(pos as int, pos + 8),
            acc == be_val(w.take(j as int)),
            acc < pow256(j as nat),
        decreases 8 - j,
    {
        proof {
            lemma_pow256_8();
            assert(pow256(j as nat) <= pow256(7)) by {
                lemma_pow256_mono(j as nat, 7);
            }
            assert(w.take(j + 1).drop_last() =~= w.take(j as int));
            assert(w.take(j + 1).last() == w[j as int]);
            assert(w[j as int] == s@[pos + j]);
        }
        acc = acc * 256 + s[pos + j] as u64;
        j = j + 1;
    }
    proof {
        assert(w.take(8) =~= w);
    }
    Some((acc, pos + 8))
}

/// Larger widths mean no smaller bounds.
proof fn lemma_pow256_mono(a: nat, b: nat)
    requires
        a <= b,
    ensures
        pow256(a) <= pow256(b),
    decreases b,
{
    if a < b {
        lemma_pow256_mono(a, (b - 1) as nat);
        assert(pow256(b) == 256 * pow256((b - 1) as nat));
    }
}

/// The serialized form of a byte string: its length, then the bytes.
pub open spec fn e_bytes(b: Seq<u8>) -> Seq<u8> {
    e_u64(b.len() as u64) + b
}

/// Reads one byte string at `i`.
pub open spec fn p_bytes(s: Seq<u8>, i: int) -> Option<(Seq<u8>, int)> {
    match p_u64(s, i) {
        None => None,
        Some((n, j)) => if j + n <= s.len() {
            Some((s.subrange(j, j + n), j + n))
        } else {
            None
        },
    }
}

/// Parsing an encoded byte string in place gives it back.
pub proof fn lemma_p_bytes(s: Seq<u8>, i: int, b: Seq<u8>)
    requires
        0 <= i,
        b.len() <= u64::MAX,
        i + e_bytes(b).len() <= s.len(),
        s.subrange(i, i + e_bytes(b).len()) =~= e_bytes(b),
    ensures
        p_bytes(s, i) == Some((b, i + e_bytes(b).len())),
        e_bytes(b).len() == 8 + b.len(),
{
    lemma_pow256_8();
    lemma_be_round(b.len() as u64 as nat, 8);
    assert(s.subrange(i, i + 8) =~= e_u64(b.len() as u64)) by {
        assert forall|x: int| 0 <= x < 8 implies #[trigger] s.subrange(i, i + 8)[x] == e_u64(
            b.len() as u64,
        )[x] by {
            assert(s.subrange(i, i + e_bytes(b).len())[x] == e_bytes(b)[x]);
        }
    }
    lemma_p_u64(s, i, b.len() as u64);
    assert(s.subrange(i + 8, i + 8 + b.len()) =~= b) by {
        assert forall|x: int| 0 <= x < b.len() implies #[trigger] s.subrange(
            i + 8,
            i + 8 + b.len(),
        )[x] == b[x] by {
            assert(s.subrange(i, i + e_bytes(b).len())[8 + x] == e_bytes(b)[8 + x]);
        }
    }
}

/// Serializes a byte string.
fn enc_bytes(b: &[u8]) -> (r: Vec<u8>)
    ensures
        r@ =~= e_bytes(b@),
{
    let mut v = enc_u64(b.len() as u64);
    let mut tail = copy_bytes(b);
    v.append(&mut tail);
    v
}

/// Reads one byte string.
fn dec_bytes(s: &[u8], pos: usize) -> (r: Option<(Vec<u8>, usize)>)
    ensures
        match r {
            Some((b, p)) => p_bytes(s@, pos as int) == Some((b@, p as int)) && pos < p <= s@.len(),
            None => p_bytes(s@, pos as int) is None,
        },
{
    match dec_u64(s, pos) {
        None => None,
        Some((n, j)) => {
            if n > (s.len() - j) as u64 {
                return None;
            }
            let n2 = n as usize;
            let mut out: Vec<u8> = Vec::new();
            let mut x: usize = 0;
            while x < n2
                invariant
                    0 <= x <= n2,
                    j + n2 <= s@.len(),
                    s@.len() <= usize::MAX,
                    out@ =~= s@.subrange(j as int, j + x),
                decreases n2 - x,
            {
                out.push(s[j + x]);
                proof {
                    assert(out@ =~= s@.subrange(j as int, j + x + 1));
                }
                x = x + 1;
            }
            Some((out, j + n2))
        },
    }
}

/// The serialized form of an optional byte string: a presence tag, then
/// the bytes when present.
pub open spec fn e_opt_bytes(o: Option<Seq<u8>>) -> Seq<u8> {
    match o {
        None => seq![0u8],
        Some(b) => seq![1u8] + e_bytes(b),
    }
}

/// Reads one optional byte string at `i`.
pub open spec fn p_opt_bytes(s: Seq<u8>, i: int) -> Option<(Option<Seq<u8>>, int)> {
    if !(0 <= i && i < s.len()) {
        None
    } else if s[i] == 0u8 {
        Some((None, i + 1))
    } else if s[i] == 1u8 {
        match p_bytes(s, i + 1) {
            None => None,
            Some((b, j)) => Some((Some(b), j)),
        }
    } else {
        None
    }
}

/// Parsing an encoded optional byte string in place gives it back.
pub proof fn lemma_p_opt_bytes(s: Seq<u8>, i: int, o: Option<Seq<u8>>)
    requires
        0 <= i,
        (o is Some ==> o->Some_0.len() <= u64::MAX),
        i + e_opt_bytes(o).len() <= s.len(),
        s.subrange(i, i + e_opt_bytes(o).len()) =~= e_opt_bytes(o),
    ensures
        p_opt_bytes(s, i) == Some((o, i + e_opt_bytes(o).len())),
{
    match o {
        None => {
            assert(s[i] == e_opt_bytes(o)[0]);
        },
        Some(b) => {
            assert(s[i] == e_opt_bytes(o)[0]);
            assert(s.subrange(i + 1, i + 1 + e_bytes(b).len()) =~= e_bytes(b)) by {
                assert forall|x: int| 0 <= x < e_bytes(b).len() implies #[trigger] s.subrange(
                    i + 1,
                    i + 1 + e_bytes(b).len(),
                )[x] == e_bytes(b)[x] by {
                    assert(s.subrange(i, i + e_opt_bytes(o).len())[1 + x] == e_opt_bytes(o)[1 + x]);
                }
            }
            lemma_p_bytes(s, i + 1, b);
        },
    }
}

/// Serializes an optional byte string.
fn enc_opt_bytes(o: &Option<Vec<u8>>) -> (r: Vec<u8>)
    ensures
        r@ =~= e_opt_bytes(match o {
            Some(b) => Some(b@),
            None => None,
        }),
{
    match o {
        None => {
            let mut v: Vec<u8> = Vec::new();
            v.push(0u8);
            v
        },
        Some(b) => {
            let mut v: Vec<u8> = Vec::new();
            v.push(1u8);
            let mut tail = enc_bytes(b.as_slice());
            v.append(&mut tail);
            v
        },
    }
}

/// Reads one optional byte string.
fn dec_opt_bytes(s: &[u8], pos: usize) -> (r: Option<(Option<Vec<u8>>, usize)>)
    ensures
        match r {
            Some((o, p)) => p_opt_bytes(s@, pos as int) == Some(
                (
                    match o {
                        Some(b) => Some(b@),
                        None => None,
                    },
                    p as int,
                ),
            ) && pos < p <= s@.len(),
            None => p_opt_bytes(s@, pos as int) is None,
        },
{
    if pos >= s.len() {
        return None;
    }
    let tag = s[pos];
    if tag == 0u8 {
        Some((None, pos + 1))
    } else if tag == 1u8 {
        match dec_bytes(s, pos + 1) {
            None => None,
            Some((b, p)) => Some((Some(b), p)),
        }
    } else {
        None
    }
}


/// A piece of an encoding placed inside a larger buffer sits at its
/// offset unchanged.
proof fn lemma_chunk(s: Seq<u8>, i: int, full: Seq<u8>, off: int, plen: int)
    requires
        0 <= i,
        i + full.len() <= s.len(),
        s.subrange(i, i + full.len()) =~= full,
        0 <= off,
        0 <= plen,
        off + plen <= full.len(),
    ensures
        s.subrange(i + off, i + off + plen) =~= full.subrange(off, off + plen),
{
    assert forall|x: int| 0 <= x < plen implies #[trigger] s.subrange(i + off, i + off + plen)[x]
        == full.subrange(off, off + plen)[x] by {
        assert(s.subrange(i, i + full.len())[off + x] == full[off + x]);
    }
}

/// The serialized items of a byte-string list, first item first.
pub open spec fn e_blob_items(ts: Seq<Seq<u8>>) -> Seq<u8>
    decreases ts.len(),
{
    if ts.len() == 0 {
        Seq::<u8>::empty()
    } else {
        e_bytes(ts[0]) + e_blob_items(ts.drop_first())
    }
}

/// The serialized form of a byte-string list: its count, then the items.
pub open spec fn e_blobs(ts: Seq<Seq<u8>>) -> Seq<u8> {
    e_u64(ts.len() as u64) + e_blob_items(ts)
}

/// Reads `n` byte-string items at `i`.
pub open spec fn p_blob_items(s: Seq<u8>, i: int, n: nat) -> Option<(Seq<Seq<u8>>, int)>
    decreases n,
{
    if n == 0 {
        Some((Seq::<Seq<u8>>::empty(), i))
    } else {
        match p_bytes(s, i) {
            None => None,
            Some((b, j)) => match p_blob_items(s, j, (n - 1) as nat) {
                None => None,
                Some((rest, k)) => Some((seq![b] + rest, k)),
            },
        }
    }
}

/// Reads one byte-string list at `i`.
pub open spec fn p_blobs(s: Seq<u8>, i: int) -> Option<(Seq<Seq<u8>>, int)> {
    match p_u64(s, i) {
        None => None,
        Some((n, j)) => p_blob_items(s, j, n as nat),
    }
}

/// Every item short enough to carry its length in a `u64`.
pub open spec fn blobs_ok(ts: Seq<Seq<u8>>) -> bool {
    forall|x: int| 0 <= x < ts.len() ==> (#[trigger] ts[x]).len() <= u64::MAX
}

#[verifier::rlimit(100)]
#[verifier::spinoff_prover]
proof fn lemma_p_blob_items(s: Seq<u8>, i: int, ts: Seq<Seq<u8>>)
    requires
        0 <= i,
        blobs_ok(ts),
        i + e_blob_items(ts).len() <= s.len(),
        s.subrange(i, i + e_blob_items(ts).len()) =~= e_blob_items(ts),
    ensures
        p_blob_items(s, i, ts.len() as nat) == Some((ts, i + e_blob_items(ts).len())),
    decreases ts.len(),
{
    if ts.len() == 0 {
        assert(ts =~= Seq::<Seq<u8>>::empty());
    } else {
        let h = ts[0];
        let rest = ts.drop_first();
        let eh = e_bytes(h);
        let er = e_blob_items(rest);
        lemma_chunk(s, i, e_blob_items(ts), 0, eh.len() as int);
        assert(e_blob_items(ts).subrange(0, eh.len() as int) =~= eh);
        lemma_p_bytes(s, i, h);
        lemma_chunk(s, i, e_blob_items(ts), eh.len() as int, er.len() as int);
        assert(e_blob_items(ts).subrange(eh.len() as int, (eh.len() + er.len()) as int) =~= er);
        lemma_p_blob_items(s, i + eh.len(), rest);
        assert(seq![h] + rest =~= ts);
    }
}

/// Parsing an encoded byte-string list in place gives it back.
pub proof fn lemma_p_blobs(s: Seq<u8>, i: int, ts: Seq<Seq<u8>>)
    requires
        0 <= i,
        blobs_ok(ts),
        ts.len() <= u64::MAX,
        i + e_blobs(ts).len() <= s.len(),
        s.subrange(i, i + e_blobs(ts).len()) =~= e_blobs(ts),
    ensures
        p_blobs(s, i) == Some((ts, i + e_blobs(ts).len())),
{
    lemma_e_u64_len(ts.len() as u64);
    lemma_chunk(s, i, e_blobs(ts), 0, 8);
    assert(e_blobs(ts).subrange(0, 8) =~= e_u64(ts.len() as u64));
    lemma_p_u64(s, i, ts.len() as u64);
    lemma_chunk(s, i, e_blobs(ts), 8, e_blob_items(ts).len() as int);
    assert(e_blobs(ts).subrange(8, (8 + e_blob_items(ts).len()) as int) =~= e_blob_items(ts));
    lemma_p_blob_items(s, i + 8, ts);
}

fn enc_blob_items_from(ts: &Vec<Vec<u8>>, k: usize) -> (r: Vec<u8>)
    requires
        k <= ts@.len(),
    ensures
        r@ =~= e_blob_items(ts@.map_values(|t: Vec<u8>| t@).skip(k as int)),
    decreases ts@.len() - k,
{
    let ghost tv: Seq<Seq<u8>> = ts@.map_values(|t: Vec<u8>| t@);
    if k == ts.len() {
        proof {
            assert(tv.skip(k as int) =~= Seq::<Seq<u8>>::empty());
        }
        Vec::new()
    } else {
        let mut v = enc_bytes(ts[k].as_slice());
        let mut rest = enc_blob_items_from(ts, k + 1);
        v.append(&mut rest);
        proof {
            assert(tv.skip(k as int).drop_first() =~= tv.skip(k + 1));
            assert(tv.skip(k as int)[0] == tv[k as int]);
            assert(tv[k as int] == ts@[k as int]@);
        }
        v
    }
}

/// Serializes a byte-string list.
fn enc_blobs(ts: &Vec<Vec<u8>>) -> (r: Vec<u8>)
    ensures
        r@ =~= e_blobs(ts@.map_values(|t: Vec<u8>| t@)),
{
    let mut v = enc_u64(ts.len() as u64);
    let mut items = enc_blob_items_from(ts, 0);
    v.append(&mut items);
    proof {
        assert(ts@.map_values(|t: Vec<u8>| t@).skip(0) =~= ts@.map_values(|t: Vec<u8>| t@));
    }
    v
}

fn dec_blob_items(s: &[u8], pos: usize, n: u64) -> (r: Option<(Vec<Vec<u8>>, usize)>)
    requires
        pos <= s@.len(),
    ensures
        match r {
            Some((ts, p)) => p_blob_items(s@, pos as int, n as nat) == Some(
                (ts@.map_values(|t: Vec<u8>| t@), p as int),
            ) && pos <= p <= s@.len(),
            None => p_blob_items(s@, pos as int, n as nat) is None,
        },
    decreases n,
{
    if n == 0 {
        let r: Vec<Vec<u8>> = Vec::new();
        proof {
            assert(r@.map_values(|t: Vec<u8>| t@) =~= Seq::<Seq<u8>>::empty());
        }
        Some((r, pos))
    } else {
        match dec_bytes(s, pos) {
            None => None,
            Some((b, j)) => {
                match dec_blob_items(s, j, n - 1) {
                    None => None,
                    Some((rest, p)) => {
                        let ghost bv: Seq<u8> = b@;
                        let mut rest2 = rest;
                        rest2.insert(0, b);
                        proof {
                            assert(rest2@.map_values(|t: Vec<u8>| t@) =~= seq![bv] + rest@
                                .map_values(|t: Vec<u8>| t@));
                        }
                        Some((rest2, p))
                    },
                }
            },
        }
    }
}

/// Reads one byte-string list.
fn dec_blobs(s: &[u8], pos: usize) -> (r: Option<(Vec<Vec<u8>>, usize)>)
    ensures
        match r {
            Some((ts, p)) => p_blobs(s@, pos as int) == Some(
                (ts@.map_values(|t: Vec<u8>| t@), p as int),
            ) && pos <= p <= s@.len(),
            None => p_blobs(s@, pos as int) is None,
        },
{
    match dec_u64(s, pos) {
        None => None,
        Some((n, j)) => dec_blob_items(s, j, n),
    }
}


/// The serialized items of an index-path list, one `u64` each.
pub open spec fn e_u32_items(ts: Seq<u32>) -> Seq<u8>
    decreases ts.len(),
{
    if ts.len() == 0 {
        Seq::<u8>::empty()
    } else {
        e_u64(ts[0] as u64) + e_u32_items(ts.drop_first())
    }
}

/// The serialized form of an index-path list: its count, then the items.
pub open spec fn e_u32s(ts: Seq<u32>) -> Seq<u8> {
    e_u64(ts.len() as u64) + e_u32_items(ts)
}

/// Reads `n` index items at `i`; an item beyond `u32` range is refused.
pub open spec fn p_u32_items(s: Seq<u8>, i: int, n: nat) -> Option<(Seq<u32>, int)>
    decreases n,
{
    if n == 0 {
        Some((Seq::<u32>::empty(), i))
    } else {
        match p_u64(s, i) {
            None => None,
            Some((v, j)) => if v > u32::MAX as u64 {
                None
            } else {
                match p_u32_items(s, j, (n - 1) as nat) {
                    None => None,
                    Some((rest, k)) => Some((seq![v as u32] + rest, k)),
                }
            },
        }
    }
}

/// Reads one index-path list at `i`.
pub open spec fn p_u32s(s: Seq<u8>, i: int) -> Option<(Seq<u32>, int)> {
    match p_u64(s, i) {
        None => None,
        Some((n, j)) => p_u32_items(s, j, n as nat),
    }
}

proof fn lemma_p_u32_items(s: Seq<u8>, i: int, ts: Seq<u32>)
    requires
        0 <= i,
        i + e_u32_items(ts).len() <= s.len(),
        s.subrange(i, i + e_u32_items(ts).len()) =~= e_u32_items(ts),
    ensures
        p_u32_items(s, i, ts.len() as nat) == Some((ts, i + e_u32_items(ts).len())),
    decreases ts.len(),
{
    if ts.len() == 0 {
        assert(ts =~= Seq::<u32>::empty());
    } else {
        let h = ts[0];
        let rest = ts.drop_first();
        lemma_e_u64_len(h as u64);
        let eh = e_u64(h as u64);
        let er = e_u32_items(rest);
        lemma_chunk(s, i, e_u32_items(ts), 0, 8);
        assert(e_u32_items(ts).subrange(0, 8) =~= eh);
        lemma_p_u64(s, i, h as u64);
        lemma_chunk(s, i, e_u32_items(ts), 8, er.len() as int);
        assert(e_u32_items(ts).subrange(8, (8 + er.len()) as int) =~= er);
        lemma_p_u32_items(s, i + 8, rest);
        assert(seq![h] + rest =~= ts);
    }
}

/// Parsing an encoded index-path list in place gives it back.
pub proof fn lemma_p_u32s(s: Seq<u8>, i: int, ts: Seq<u32>)
    requires
        0 <= i,
        ts.len() <= u64::MAX,
        i + e_u32s(ts).len() <= s.len(),
        s.subrange(i, i + e_u32s(ts).len()) =~= e_u32s(ts),
    ensures
        p_u32s(s, i) == Some((ts, i + e_u32s(ts).len())),
{
    lemma_e_u64_len(ts.len() as u64);
    lemma_chunk(s, i, e_u32s(ts), 0, 8);
    assert(e_u32s(ts).subrange(0, 8) =~= e_u64(ts.len() as u64));
    lemma_p_u64(s, i, ts.len() as u64);
    lemma_chunk(s, i, e_u32s(ts), 8, e_u32_items(ts).len() as int);
    assert(e_u32s(ts).subrange(8, (8 + e_u32_items(ts).len()) as int) =~= e_u32_items(ts));
    lemma_p_u32_items(s, i + 8, ts);
}

fn enc_u32_items_from(ts: &Vec<u32>, k: usize) -> (r: Vec<u8>)
    requires
        k <= ts@.len(),
    ensures
        r@ =~= e_u32_items(ts@.skip(k as int)),
    decreases ts@.len() - k,
{
    if k == ts.len() {
        proof {
            assert(ts@.skip(k as int) =~= Seq::<u32>::empty());
        }
        Vec::new()
    } else {
        let mut v = enc_u64(ts[k] as u64);
        let mut rest = enc_u32_items_from(ts, k + 1);
        v.append(&mut rest);
        proof {
            assert(ts@.skip(k as int).drop_first() =~= ts@.skip(k + 1));
            assert(ts@.skip(k as int)[0] == ts@[k as int]);
        }
        v
    }
}

/// Serializes an index-path list.
fn enc_u32s(ts: &Vec<u32>) -> (r: Vec<u8>)
    ensures
        r@ =~= e_u32s(ts@),
{
    let mut v = enc_u64(ts.len() as u64);
    let mut items = enc_u32_items_from(ts, 0);
    v.append(&mut items);
    proof {
        assert(ts@.skip(0) =~= ts@);
    }
    v
}

fn dec_u32_items(s: &[u8], pos: usize, n: u64) -> (r: Option<(Vec<u32>, usize)>)
    requires
        pos <= s@.len(),
    ensures
        match r {
            Some((ts, p)) => p_u32_items(s@, pos as int, n as nat) == Some((ts@, p as int)) && pos
                <= p <= s@.len(),
            None => p_u32_items(s@, pos as int, n as nat) is None,
        },
    decreases n,
{
    if n == 0 {
        let r: Vec<u32> = Vec::new();
        proof {
            assert(r@ =~= Seq::<u32>::empty());
        }
        Some((r, pos))
    } else {
        match dec_u64(s, pos) {
            None => None,
            Some((v, j)) => {
                if v > u32::MAX as u64 {
                    return None;
                }
                match dec_u32_items(s, j, n - 1) {
                    None => None,
                    Some((rest, p)) => {
                        let mut rest2 = rest;
                        rest2.insert(0, v as u32);
                        proof {
                            assert(rest2@ =~= seq![v as u32] + rest@);
                        }
                        Some((rest2, p))
                    },
                }
            },
        }
    }
}

/// Reads one index-path list.
fn dec_u32s(s: &[u8], pos: usize) -> (r: Option<(Vec<u32>, usize)>)
    ensures
        match r {
            Some((ts, p)) => p_u32s(s@, pos as int) == Some((ts@, p as int)) && pos <= p
                <= s@.len(),
            None => p_u32s(s@, pos as int) is None,
        },
{
    match dec_u64(s, pos) {
        None => None,
        Some((n, j)) => dec_u32_items(s, j, n),
    }
}

/// The serialized form of a block header: its number, then its author.
pub open spec fn e_block(b: BlockHeaderV) -> Seq<u8> {
    e_u64(b.number) + e_bytes(b.author)
}

/// Reads one block header at `i`.
pub open spec fn p_block(s: Seq<u8>, i: int) -> Option<(BlockHeaderV, int)> {
    match p_u64(s, i) {
        None => None,
        Some((n, j)) => match p_bytes(s, j) {
            None => None,
            Some((a, k)) => Some((BlockHeaderV { number: n, author: a }, k)),
        },
    }
}

/// Parsing an encoded block header in place gives it back.
pub proof fn lemma_p_block(s: Seq<u8>, i: int, b: BlockHeaderV)
    requires
        0 <= i,
        b.author.len() <= u64::MAX,
        i + e_block(b).len() <= s.len(),
        s.subrange(i, i + e_block(b).len()) =~= e_block(b),
    ensures
        p_block(s, i) == Some((b, i + e_block(b).len())),
{
    lemma_e_u64_len(b.number);
    lemma_chunk(s, i, e_block(b), 0, 8);
    assert(e_block(b).subrange(0, 8) =~= e_u64(b.number));
    lemma_p_u64(s, i, b.number);
    lemma_chunk(s, i, e_block(b), 8, e_bytes(b.author).len() as int);
    assert(e_block(b).subrange(8, (8 + e_bytes(b.author).len()) as int) =~= e_bytes(b.author));
    lemma_p_bytes(s, i + 8, b.author);
}

/// Serializes a block header.
fn enc_block(b: &BlockHeaderView) -> (r: Vec<u8>)
    ensures
        r@ =~= e_block(b@),
{
    let mut v = enc_u64(b.number);
    let mut a = enc_bytes(b.author.bytes.as_slice());
    v.append(&mut a);
    v
}

/// Reads one block header.
fn dec_block(s: &[u8], pos: usize) -> (r: Option<(BlockHeaderView, usize)>)
    ensures
        match r {
            Some((b, p)) => p_block(s@, pos as int) == Some((b@, p as int)) && pos <= p
                <= s@.len(),
            None => p_block(s@, pos as int) is None,
        },
{
    match dec_u64(s, pos) {
        None => None,
        Some((n, j)) => match dec_bytes(s, j) {
            None => None,
            Some((a, k)) => Some((BlockHeaderView { number: n, author: Address { bytes: a } }, k)),
        },
    }
}

/// The serialized form of a transaction view.
pub open spec fn e_tx(t: TransactionV) -> Seq<u8> {
    e_bytes(t.hash) + e_u64(t.block_number) + e_u64(t.transaction_index as u64) + e_bytes(t.from)
        + e_opt_bytes(t.to) + e_bytes(t.input)
}

/// Reads one transaction view at `i`.
pub open spec fn p_tx(s: Seq<u8>, i: int) -> Option<(TransactionV, int)> {
    match p_bytes(s, i) {
        None => None,
        Some((hash, i1)) => match p_u64(s, i1) {
            None => None,
            Some((bn, i2)) => match p_u64(s, i2) {
                None => None,
                Some((ti, i3)) => if ti > u32::MAX as u64 {
                    None
                } else {
                    match p_bytes(s, i3) {
                        None => None,
                        Some((from, i4)) => match p_opt_bytes(s, i4) {
                            None => None,
                            Some((to, i5)) => match p_bytes(s, i5) {
                                None => None,
                                Some((input, i6)) => Some(
                                    (
                                        TransactionV {
                                            hash,
                                            block_number: bn,
                                            transaction_index: ti as u32,
                                            from,
                                            to,
                                            input,
                                        },
                                        i6,
                                    ),
                                ),
                            },
                        },
                    }
                },
            },
        },
    }
}

/// The size side conditions under which a transaction view serializes.
pub open spec fn tx_size_ok(t: TransactionV) -> bool {
    t.hash.len() <= u64::MAX && t.from.len() <= u64::MAX && (t.to is Some ==> t.to->Some_0.len()
        <= u64::MAX) && t.input.len() <= u64::MAX
}

/// Parsing an encoded transaction view in place gives it back.
pub proof fn lemma_p_tx(s: Seq<u8>, i: int, t: TransactionV)
    requires
        0 <= i,
        tx_size_ok(t),
        i + e_tx(t).len() <= s.len(),
        s.subrange(i, i + e_tx(t).len()) =~= e_tx(t),
    ensures
        p_tx(s, i) == Some((t, i + e_tx(t).len())),
{
    let full = e_tx(t);
    let l0 = e_bytes(t.hash).len() as int;
    let l1 = 8int;
    let l2 = 8int;
    let l3 = e_bytes(t.from).len() as int;
    let l4 = e_opt_bytes(t.to).len() as int;
    let l5 = e_bytes(t.input).len() as int;
    lemma_e_u64_len(t.block_number);
    lemma_e_u64_len(t.transaction_index as u64);
    lemma_chunk(s, i, full, 0, l0);
    assert(full.subrange(0, l0) =~= e_bytes(t.hash));
    lemma_p_bytes(s, i, t.hash);
    lemma_chunk(s, i, full, l0, l1);
    assert(full.subrange(l0, l0 + l1) =~= e_u64(t.block_number));
    lemma_p_u64(s, i + l0, t.block_number);
    lemma_chunk(s, i, full, l0 + l1, l2);
    assert(full.subrange(l0 + l1, l0 + l1 + l2) =~= e_u64(t.transaction_index as u64));
    lemma_p_u64(s, i + l0 + l1, t.transaction_index as u64);
    lemma_chunk(s, i, full, l0 + l1 + l2, l3);
    assert(full.subrange(l0 + l1 + l2, l0 + l1 + l2 + l3) =~= e_bytes(t.from));
    lemma_p_bytes(s, i + l0 + l1 + l2, t.from);
    lemma_chunk(s, i, full, l0 + l1 + l2 + l3, l4);
    assert(full.subrange(l0 + l1 + l2 + l3, l0 + l1 + l2 + l3 + l4) =~= e_opt_bytes(t.to));
    lemma_p_opt_bytes(s, i + l0 + l1 + l2 + l3, t.to);
    lemma_chunk(s, i, full, l0 + l1 + l2 + l3 + l4, l5);
    assert(full.subrange(l0 + l1 + l2 + l3 + l4, l0 + l1 + l2 + l3 + l4 + l5) =~= e_bytes(
        t.input,
    ));
    lemma_p_bytes(s, i + l0 + l1 + l2 + l3 + l4, t.input);
}

/// Serializes a transaction view.
fn enc_tx(t: &TransactionView) -> (r: Vec<u8>)
    ensures
        r@ =~= e_tx(t@),
{
    let mut v = enc_bytes(t.hash.bytes.as_slice());
    let mut p1 = enc_u64(t.block_number);
    v.append(&mut p1);
    let mut p2 = enc_u64(t.transaction_index as u64);
    v.append(&mut p2);
    let mut p3 = enc_bytes(t.from.bytes.as_slice());
    v.append(&mut p3);
    let to_bytes: Option<Vec<u8>> = match &t.to {
        Some(a) => Some(copy_bytes(a.bytes.as_slice())),
        None => None,
    };
    let mut p4 = enc_opt_bytes(&to_bytes);
    v.append(&mut p4);
    let mut p5 = enc_bytes(t.input.as_slice());
    v.append(&mut p5);
    v
}

/// Reads one transaction view.
fn dec_tx(s: &[u8], pos: usize) -> (r: Option<(TransactionView, usize)>)
    ensures
        match r {
            Some((t, p)) => p_tx(s@, pos as int) == Some((t@, p as int)) && pos <= p <= s@.len(),
            None => p_tx(s@, pos as int) is None,
        },
{
    let (hash, i1) = match dec_bytes(s, pos) {
        None => {
            return None;
        },
        Some(x) => x,
    };
    let (bn, i2) = match dec_u64(s, i1) {
        None => {
            return None;
        },
        Some(x) => x,
    };
    let (ti, i3) = match dec_u64(s, i2) {
        None => {
            return None;
        },
        Some(x) => x,
    };
    if ti > u32::MAX as u64 {
        return None;
    }
    let (from, i4) = match dec_bytes(s, i3) {
        None => {
            return None;
        },
        Some(x) => x,
    };
    let (to, i5) = match dec_opt_bytes(s, i4) {
        None => {
            return None;
        },
        Some(x) => x,
    };
    let (input, i6) = match dec_bytes(s, i5) {
        None => {
            return None;
        },
        Some(x) => x,
    };
    let t = TransactionView {
        hash: TxHash { bytes: hash },
        block_number: bn,
        transaction_index: ti as u32,
        from: Address { bytes: from },
        to: match to {
            Some(b) => Some(Address { bytes: b }),
            None => None,
        },
        input,
    };
    Some((t, i6))
}


/// The serialized form of one receipt log.
pub open spec fn e_log(l: LogV) -> Seq<u8> {
    e_bytes(l.address) + e_bytes(l.data) + e_blobs(l.topics)
}

/// Reads one receipt log at `i`.
pub open spec fn p_log(s: Seq<u8>, i: int) -> Option<(LogV, int)> {
    match p_bytes(s, i) {
        None => None,
        Some((a, i1)) => match p_bytes(s, i1) {
            None => None,
            Some((d, i2)) => match p_blobs(s, i2) {
                None => None,
                Some((ts, i3)) => Some((LogV { address: a, data: d, topics: ts }, i3)),
            },
        },
    }
}

/// The size side conditions under which a log serializes.
pub open spec fn log_size_ok(l: LogV) -> bool {
    l.address.len() <= u64::MAX && l.data.len() <= u64::MAX && l.topics.len() <= u64::MAX
        && blobs_ok(l.topics)
}

/// Parsing an encoded log in place gives it back.
pub proof fn lemma_p_log(s: Seq<u8>, i: int, l: LogV)
    requires
        0 <= i,
        log_size_ok(l),
        i + e_log(l).len() <= s.len(),
        s.subrange(i, i + e_log(l).len()) =~= e_log(l),
    ensures
        p_log(s, i) == Some((l, i + e_log(l).len())),
{
    let full = e_log(l);
    let l0 = e_bytes(l.address).len() as int;
    let l1 = e_bytes(l.data).len() as int;
    let l2 = e_blobs(l.topics).len() as int;
    lemma_chunk(s, i, full, 0, l0);
    assert(full.subrange(0, l0) =~= e_bytes(l.address));
    lemma_p_bytes(s, i, l.address);
    lemma_chunk(s, i, full, l0, l1);
    assert(full.subrange(l0, l0 + l1) =~= e_bytes(l.data));
    lemma_p_bytes(s, i + l0, l.data);
    lemma_chunk(s, i, full, l0 + l1, l2);
    assert(full.subrange(l0 + l1, l0 + l1 + l2) =~= e_blobs(l.topics));
    lemma_p_blobs(s, i + l0 + l1, l.topics);
}

/// Serializes a receipt log.
fn enc_log(l: &LogView) -> (r: Vec<u8>)
    ensures
        r@ =~= e_log(l@),
{
    let mut v = enc_bytes(l.address.bytes.as_slice());
    let mut d = enc_bytes(l.data.as_slice());
    v.append(&mut d);
    let mut ts = enc_blobs(&l.topics);
    v.append(&mut ts);
    v
}

/// Reads one receipt log.
fn dec_log(s: &[u8], pos: usize) -> (r: Option<(LogView, usize)>)
    ensures
        match r {
            Some((l, p)) => p_log(s@, pos as int) == Some((l@, p as int)) && pos <= p <= s@.len(),
            None => p_log(s@, pos as int) is None,
        },
{
    let (a, i1) = match dec_bytes(s, pos) {
        None => {
            return None;
        },
        Some(x) => x,
    };
    let (d, i2) = match dec_bytes(s, i1) {
        None => {
            return None;
        },
        Some(x) => x,
    };
    let (ts, i3) = match dec_blobs(s, i2) {
        None => {
            return None;
        },
        Some(x) => x,
    };
    Some((LogView { address: Address { bytes: a }, data: d, topics: ts }, i3))
}

/// The serialized items of a log list, first log first.
pub open spec fn e_log_items(ls: Seq<LogV>) -> Seq<u8>
    decreases ls.len(),
{
    if ls.len() == 0 {
        Seq::<u8>::empty()
    } else {
        e_log(ls[0]) + e_log_items(ls.drop_first())
    }
}

/// The serialized form of a log list: its count, then the items.
pub open spec fn e_logs(ls: Seq<LogV>) -> Seq<u8> {
    e_u64(ls.len() as u64) + e_log_items(ls)
}

/// Reads `n` logs at `i`.
pub open spec fn p_log_items(s: Seq<u8>, i: int, n: nat) -> Option<(Seq<LogV>, int)>
    decreases n,
{
    if n == 0 {
        Some((Seq::<LogV>::empty(), i))
    } else {
        match p_log(s, i) {
            None => None,
            Some((l, j)) => match p_log_items(s, j, (n - 1) as nat) {
                None => None,
                Some((rest, k)) => Some((seq![l] + rest, k)),
            },
        }
    }
}

/// Reads one log list at `i`.
pub open spec fn p_logs(s: Seq<u8>, i: int) -> Option<(Seq<LogV>, int)> {
    match p_u64(s, i) {
        None => None,
        Some((n, j)) => p_log_items(s, j, n as nat),
    }
}

/// The size side conditions under which a log list serializes.
pub open spec fn logs_size_ok(ls: Seq<LogV>) -> bool {
    ls.len() <= u64::MAX && (forall|x: int| 0 <= x < ls.len() ==> log_size_ok(#[trigger] ls[x]))
}

#[verifier::rlimit(100)]
#[verifier::spinoff_prover]
proof fn lemma_p_log_items(s: Seq<u8>, i: int, ls: Seq<LogV>)
    requires
        0 <= i,
        logs_size_ok(ls),
        i + e_log_items(ls).len() <= s.len(),
        s.subrange(i, i + e_log_items(ls).len()) =~= e_log_items(ls),
    ensures
        p_log_items(s, i, ls.len() as nat) == Some((ls, i + e_log_items(ls).len())),
    decreases ls.len(),
{
    if ls.len() == 0 {
        assert(ls =~= Seq::<LogV>::empty());
    } else {
        let h = ls[0];
        let rest = ls.drop_first();
        let eh = e_log(h);
        let er = e_log_items(rest);
        lemma_chunk(s, i, e_log_items(ls), 0, eh.len() as int);
        assert(e_log_items(ls).subrange(0, eh.len() as int) =~= eh);
        lemma_p_log(s, i, h);
        lemma_chunk(s, i, e_log_items(ls), eh.len() as int, er.len() as int);
        assert(e_log_items(ls).subrange(eh.len() as int, (eh.len() + er.len()) as int) =~= er);
        lemma_p_log_items(s, i + eh.len(), rest);
        assert(seq![h] + rest =~= ls);
    }
}

/// Parsing an encoded log list in place gives it back.
pub proof fn lemma_p_logs(s: Seq<u8>, i: int, ls: Seq<LogV>)
    requires
        0 <= i,
        logs_size_ok(ls),
        i + e_logs(ls).len() <= s.len(),
        s.subrange(i, i + e_logs(ls).len()) =~= e_logs(ls),
    ensures
        p_logs(s, i) == Some((ls, i + e_logs(ls).len())),
{
    lemma_e_u64_len(ls.len() as u64);
    lemma_chunk(s, i, e_logs(ls), 0, 8);
    assert(e_logs(ls).subrange(0, 8) =~= e_u64(ls.len() as u64));
    lemma_p_u64(s, i, ls.len() as u64);
    lemma_chunk(s, i, e_logs(ls), 8, e_log_items(ls).len() as int);
    assert(e_logs(ls).subrange(8, (8 + e_log_items(ls).len()) as int) =~= e_log_items(ls));
    lemma_p_log_items(s, i + 8, ls);
}

fn enc_log_items_from(ls: &Vec<LogView>, k: usize) -> (r: Vec<u8>)
    requires
        k <= ls@.len(),
    ensures
        r@ =~= e_log_items(ls@.map_values(|l: LogView| l@).skip(k as int)),
    decreases ls@.len() - k,
{
    let ghost lv: Seq<LogV> = ls@.map_values(|l: LogView| l@);
    if k == ls.len() {
        proof {
            assert(lv.skip(k as int) =~= Seq::<LogV>::empty());
        }
        Vec::new()
    } else {
        let mut v = enc_log(&ls[k]);
        let mut rest = enc_log_items_from(ls, k + 1);
        v.append(&mut rest);
        proof {
            assert(lv.skip(k as int).drop_first() =~= lv.skip(k + 1));
            assert(lv.skip(k as int)[0] == lv[k as int]);
            assert(lv[k as int] == ls@[k as int]@);
        }
        v
    }
}

/// Serializes a log list.
fn enc_logs(ls: &Vec<LogView>) -> (r: Vec<u8>)
    ensures
        r@ =~= e_logs(ls@.map_values(|l: LogView| l@)),
{
    let mut v = enc_u64(ls.len() as u64);
    let mut items = enc_log_items_from(ls, 0);
    v.append(&mut items);
    proof {
        assert(ls@.map_values(|l: LogView| l@).skip(0) =~= ls@.map_values(|l: LogView| l@));
    }
    v
}

fn dec_log_items(s: &[u8], pos: usize, n: u64) -> (r: Option<(Vec<LogView>, usize)>)
    requires
        pos <= s@.len(),
    ensures
        match r {
            Some((ls, p)) => p_log_items(s@, pos as int, n as nat) == Some(
                (ls@.map_values(|l: LogView| l@), p as int),
            ) && pos <= p <= s@.len(),
            None => p_log_items(s@, pos as int, n as nat) is None,
        },
    decreases n,
{
    if n == 0 {
        let r: Vec<LogView> = Vec::new();
        proof {
            assert(r@.map_values(|l: LogView| l@) =~= Seq::<LogV>::empty());
        }
        Some((r, pos))
    } else {
        match dec_log(s, pos) {
            None => None,
            Some((l, j)) => {
                match dec_log_items(s, j, n - 1) {
                    None => None,
                    Some((rest, p)) => {
                        let ghost lv: LogV = l@;
                        let mut rest2 = rest;
                        rest2.insert(0, l);
                        proof {
                            assert(rest2@.map_values(|x: LogView| x@) =~= seq![lv] + rest@
                                .map_values(|x: LogView| x@));
                        }
                        Some((rest2, p))
                    },
                }
            },
        }
    }
}

/// Reads one log list.
fn dec_logs(s: &[u8], pos: usize) -> (r: Option<(Vec<LogView>, usize)>)
    ensures
        match r {
            Some((ls, p)) => p_logs(s@, pos as int) == Some(
                (ls@.map_values(|l: LogView| l@), p as int),
            ) && pos <= p <= s@.len(),
            None => p_logs(s@, pos as int) is None,
        },
{
    match dec_u64(s, pos) {
        None => None,
        Some((n, j)) => dec_log_items(s, j, n),
    }
}


/// The serialized form of a receipt view.
pub open spec fn e_receipt(r: crate::records::ReceiptV) -> Seq<u8> {
    e_bytes(r.transaction_hash) + e_opt_bytes(r.contract_address) + e_logs(r.logs)
}

/// Reads one receipt view at `i`.
pub open spec fn p_receipt(s: Seq<u8>, i: int) -> Option<(crate::records::ReceiptV, int)> {
    match p_bytes(s, i) {
        None => None,
        Some((h, i1)) => match p_opt_bytes(s, i1) {
            None => None,
            Some((c, i2)) => match p_logs(s, i2) {
                None => None,
                Some((ls, i3)) => Some(
                    (
                        crate::records::ReceiptV {
                            transaction_hash: h,
                            contract_address: c,
                            logs: ls,
                        },
                        i3,
                    ),
                ),
            },
        },
    }
}

/// The size side conditions under which a receipt serializes.
pub open spec fn receipt_size_ok(r: crate::records::ReceiptV) -> bool {
    r.transaction_hash.len() <= u64::MAX && (r.contract_address is Some
        ==> r.contract_address->Some_0.len() <= u64::MAX) && logs_size_ok(r.logs)
}

/// Parsing an encoded receipt in place gives it back.
pub proof fn lemma_p_receipt(s: Seq<u8>, i: int, r: crate::records::ReceiptV)
    requires
        0 <= i,
        receipt_size_ok(r),
        i + e_receipt(r).len() <= s.len(),
        s.subrange(i, i + e_receipt(r).len()) =~= e_receipt(r),
    ensures
        p_receipt(s, i) == Some((r, i + e_receipt(r).len())),
{
    let full = e_receipt(r);
    let l0 = e_bytes(r.transaction_hash).len() as int;
    let l1 = e_opt_bytes(r.contract_address).len() as int;
    let l2 = e_logs(r.logs).len() as int;
    lemma_chunk(s, i, full, 0, l0);
    assert(full.subrange(0, l0) =~= e_bytes(r.transaction_hash));
    lemma_p_bytes(s, i, r.transaction_hash);
    lemma_chunk(s, i, full, l0, l1);
    assert(full.subrange(l0, l0 + l1) =~= e_opt_bytes(r.contract_address));
    lemma_p_opt_bytes(s, i + l0, r.contract_address);
    lemma_chunk(s, i, full, l0 + l1, l2);
    assert(full.subrange(l0 + l1, l0 + l1 + l2) =~= e_logs(r.logs));
    lemma_p_logs(s, i + l0 + l1, r.logs);
}

/// Serializes a receipt view.
fn enc_receipt(r: &crate::records::ReceiptView) -> (out: Vec<u8>)
    ensures
        out@ =~= e_receipt(r@),
{
    let mut v = enc_bytes(r.transaction_hash.bytes.as_slice());
    let contract: Option<Vec<u8>> = match &r.contract_address {
        Some(a) => Some(copy_bytes(a.bytes.as_slice())),
        None => None,
    };
    let mut c = enc_opt_bytes(&contract);
    v.append(&mut c);
    let mut ls = enc_logs(&r.logs);
    v.append(&mut ls);
    v
}

/// Reads one receipt view.
fn dec_receipt(s: &[u8], pos: usize) -> (r: Option<(crate::records::ReceiptView, usize)>)
    ensures
        match r {
            Some((rc, p)) => p_receipt(s@, pos as int) == Some((rc@, p as int)) && pos <= p
                <= s@.len(),
            None => p_receipt(s@, pos as int) is None,
        },
{
    let (h, i1) = match dec_bytes(s, pos) {
        None => {
            return None;
        },
        Some(x) => x,
    };
    let (c, i2) = match dec_opt_bytes(s, i1) {
        None => {
            return None;
        },
        Some(x) => x,
    };
    let (ls, i3) = match dec_logs(s, i2) {
        None => {
            return None;
        },
        Some(x) => x,
    };
    let rc = crate::records::ReceiptView {
        transaction_hash: TxHash { bytes: h },
        contract_address: match c {
            Some(b) => Some(Address { bytes: b }),
            None => None,
        },
        logs: ls,
    };
    Some((rc, i3))
}

/// The serialized form of a trace action: a tag, then the fields the
/// variant carries.
pub open spec fn e_action(a: ActionV) -> Seq<u8> {
    match a {
        ActionV::Call { from, to, input } => seq![0u8] + e_bytes(from) + e_bytes(to) + e_bytes(
            input,
        ),
        ActionV::Create { from } => seq![1u8] + e_bytes(from),
        ActionV::Suicide { address, refund_address } => seq![2u8] + e_bytes(address) + e_bytes(
            refund_address,
        ),
        ActionV::Reward => seq![3u8],
    }
}

/// Reads one trace action at `i`.
pub open spec fn p_action(s: Seq<u8>, i: int) -> Option<(ActionV, int)> {
    if !(0 <= i && i < s.len()) {
        None
    } else if s[i] == 0u8 {
        match p_bytes(s, i + 1) {
            None => None,
            Some((f, i1)) => match p_bytes(s, i1) {
                None => None,
                Some((t, i2)) => match p_bytes(s, i2) {
                    None => None,
                    Some((inp, i3)) => Some((ActionV::Call { from: f, to: t, input: inp }, i3)),
                },
            },
        }
    } else if s[i] == 1u8 {
        match p_bytes(s, i + 1) {
            None => None,
            Some((f, i1)) => Some((ActionV::Create { from: f }, i1)),
        }
    } else if s[i] == 2u8 {
        match p_bytes(s, i + 1) {
            None => None,
            Some((a, i1)) => match p_bytes(s, i1) {
                None => None,
                Some((ra, i2)) => Some((ActionV::Suicide { address: a, refund_address: ra }, i2)),
            },
        }
    } else if s[i] == 3u8 {
        Some((ActionV::Reward, i + 1))
    } else {
        None
    }
}

/// The size side conditions under which an action serializes.
pub open spec fn action_size_ok(a: ActionV) -> bool {
    match a {
        ActionV::Call { from, to, input } => from.len() <= u64::MAX && to.len() <= u64::MAX
            && input.len() <= u64::MAX,
        ActionV::Create { from } => from.len() <= u64::MAX,
        ActionV::Suicide { address, refund_address } => address.len() <= u64::MAX
            && refund_address.len() <= u64::MAX,
        ActionV::Reward => true,
    }
}

/// Parsing an encoded action in place gives it back.
pub proof fn lemma_p_action(s: Seq<u8>, i: int, a: ActionV)
    requires
        0 <= i,
        action_size_ok(a),
        i + e_action(a).len() <= s.len(),
        s.subrange(i, i + e_action(a).len()) =~= e_action(a),
    ensures
        p_action(s, i) == Some((a, i + e_action(a).len())),
{
    let full = e_action(a);
    assert(s[i] == full[0]);
    match a {
        ActionV::Call { from, to, input } => {
            let l0 = e_bytes(from).len() as int;
            let l1 = e_bytes(to).len() as int;
            let l2 = e_bytes(input).len() as int;
            lemma_chunk(s, i, full, 1, l0);
            assert(full.subrange(1, 1 + l0) =~= e_bytes(from));
            lemma_p_bytes(s, i + 1, from);
            lemma_chunk(s, i, full, 1 + l0, l1);
            assert(full.subrange(1 + l0, 1 + l0 + l1) =~= e_bytes(to));
            lemma_p_bytes(s, i + 1 + l0, to);
            lemma_chunk(s, i, full, 1 + l0 + l1, l2);
            assert(full.subrange(1 + l0 + l1, 1 + l0 + l1 + l2) =~= e_bytes(input));
            lemma_p_bytes(s, i + 1 + l0 + l1, input);
        },
        ActionV::Create { from } => {
            let l0 = e_bytes(from).len() as int;
            lemma_chunk(s, i, full, 1, l0);
            assert(full.subrange(1, 1 + l0) =~= e_bytes(from));
            lemma_p_bytes(s, i + 1, from);
        },
        ActionV::Suicide { address, refund_address } => {
            let l0 = e_bytes(address).len() as int;
            let l1 = e_bytes(refund_address).len() as int;
            lemma_chunk(s, i, full, 1, l0);
            assert(full.subrange(1, 1 + l0) =~= e_bytes(address));
            lemma_p_bytes(s, i + 1, address);
            lemma_chunk(s, i, full, 1 + l0, l1);
            assert(full.subrange(1 + l0, 1 + l0 + l1) =~= e_bytes(refund_address));
            lemma_p_bytes(s, i + 1 + l0, refund_address);
        },
        ActionV::Reward => {},
    }
}

/// Serializes a trace action.
fn enc_action(a: &ActionView) -> (r: Vec<u8>)
    ensures
        r@ =~= e_action(a@),
{
    match a {
        ActionView::Call { from, to, input } => {
            let mut v: Vec<u8> = Vec::new();
            v.push(0u8);
            let mut f = enc_bytes(from.bytes.as_slice());
            v.append(&mut f);
            let mut t = enc_bytes(to.bytes.as_slice());
            v.append(&mut t);
            let mut inp = enc_bytes(input.as_slice());
            v.append(&mut inp);
            v
        },
        ActionView::Create { from } => {
            let mut v: Vec<u8> = Vec::new();
            v.push(1u8);
            let mut f = enc_bytes(from.bytes.as_slice());
            v.append(&mut f);
            v
        },
        ActionView::Suicide { address, refund_address } => {
            let mut v: Vec<u8> = Vec::new();
            v.push(2u8);
            let mut x = enc_bytes(address.bytes.as_slice());
            v.append(&mut x);
            let mut y = enc_bytes(refund_address.bytes.as_slice());
            v.append(&mut y);
            v
        },
        ActionView::Reward => {
            let mut v: Vec<u8> = Vec::new();
            v.push(3u8);
            v
        },
    }
}

/// Reads one trace action.
fn dec_action(s: &[u8], pos: usize) -> (r: Option<(ActionView, usize)>)
    ensures
        match r {
            Some((a, p)) => p_action(s@, pos as int) == Some((a@, p as int)) && pos <= p
                <= s@.len(),
            None => p_action(s@, pos as int) is None,
        },
{
    if pos >= s.len() {
        return None;
    }
    let tag = s[pos];
    if tag == 0u8 {
        let (f, i1) = match dec_bytes(s, pos + 1) {
            None => {
                return None;
            },
            Some(x) => x,
        };
        let (t, i2) = match dec_bytes(s, i1) {
            None => {
                return None;
            },
            Some(x) => x,
        };
        let (inp, i3) = match dec_bytes(s, i2) {
            None => {
                return None;
            },
            Some(x) => x,
        };
        Some(
            (
                ActionView::Call {
                    from: Address { bytes: f },
                    to: Address { bytes: t },
                    input: inp,
                },
                i3,
            ),
        )
    } else if tag == 1u8 {
        match dec_bytes(s, pos + 1) {
            None => None,
            Some((f, i1)) => Some((ActionView::Create { from: Address { bytes: f } }, i1)),
        }
    } else if tag == 2u8 {
        let (a, i1) = match dec_bytes(s, pos + 1) {
            None => {
                return None;
            },
            Some(x) => x,
        };
        let (ra, i2) = match dec_bytes(s, i1) {
            None => {
                return None;
            },
            Some(x) => x,
        };
        Some(
            (
                ActionView::Suicide {
                    address: Address { bytes: a },
                    refund_address: Address { bytes: ra },
                },
                i2,
            ),
        )
    } else if tag == 3u8 {
        Some((ActionView::Reward, pos + 1))
    } else {
        None
    }
}


/// The serialized form of one execution trace.
pub open spec fn e_trace(t: TraceV) -> Seq<u8> {
    e_bytes(t.transaction_hash) + e_u32s(t.trace_address) + e_action(t.action)
}

/// Reads one execution trace at `i`.
pub open spec fn p_trace(s: Seq<u8>, i: int) -> Option<(TraceV, int)> {
    match p_bytes(s, i) {
        None => None,
        Some((h, i1)) => match p_u32s(s, i1) {
            None => None,
            Some((ta, i2)) => match p_action(s, i2) {
                None => None,
                Some((a, i3)) => Some(
                    (TraceV { transaction_hash: h, trace_address: ta, action: a }, i3),
                ),
            },
        },
    }
}

/// The size side conditions under which a trace serializes.
pub open spec fn trace_size_ok(t: TraceV) -> bool {
    t.transaction_hash.len() <= u64::MAX && t.trace_address.len() <= u64::MAX && action_size_ok(
        t.action,
    )
}

/// Parsing an encoded trace in place gives it back.
pub proof fn lemma_p_trace(s: Seq<u8>, i: int, t: TraceV)
    requires
        0 <= i,
        trace_size_ok(t),
        i + e_trace(t).len() <= s.len(),
        s.subrange(i, i + e_trace(t).len()) =~= e_trace(t),
    ensures
        p_trace(s, i) == Some((t, i + e_trace(t).len())),
{
    let full = e_trace(t);
    let l0 = e_bytes(t.transaction_hash).len() as int;
    let l1 = e_u32s(t.trace_address).len() as int;
    let l2 = e_action(t.action).len() as int;
    lemma_chunk(s, i, full, 0, l0);
    assert(full.subrange(0, l0) =~= e_bytes(t.transaction_hash));
    lemma_p_bytes(s, i, t.transaction_hash);
    lemma_chunk(s, i, full, l0, l1);
    assert(full.subrange(l0, l0 + l1) =~= e_u32s(t.trace_address));
    lemma_p_u32s(s, i + l0, t.trace_address);
    lemma_chunk(s, i, full, l0 + l1, l2);
    assert(full.subrange(l0 + l1, l0 + l1 + l2) =~= e_action(t.action));
    lemma_p_action(s, i + l0 + l1, t.action);
}

/// Serializes an execution trace.
fn enc_trace(t: &TraceView) -> (r: Vec<u8>)
    ensures
        r@ =~= e_trace(t@),
{
    let mut v = enc_bytes(t.transaction_hash.bytes.as_slice());
    let mut ta = enc_u32s(&t.trace_address);
    v.append(&mut ta);
    let mut a = enc_action(&t.action);
    v.append(&mut a);
    v
}

/// Reads one execution trace.
fn dec_trace(s: &[u8], pos: usize) -> (r: Option<(TraceView, usize)>)
    ensures
        match r {
            Some((t, p)) => p_trace(s@, pos as int) == Some((t@, p as int)) && pos <= p
                <= s@.len(),
            None => p_trace(s@, pos as int) is None,
        },
{
    let (h, i1) = match dec_bytes(s, pos) {
        None => {
            return None;
        },
        Some(x) => x,
    };
    let (ta, i2) = match dec_u32s(s, i1) {
        None => {
            return None;
        },
        Some(x) => x,
    };
    let (a, i3) = match dec_action(s, i2) {
        None => {
            return None;
        },
        Some(x) => x,
    };
    Some((TraceView { transaction_hash: TxHash { bytes: h }, trace_address: ta, action: a }, i3))
}

/// The serialized items of a trace list, first trace first.
pub open spec fn e_trace_items(ts: Seq<TraceV>) -> Seq<u8>
    decreases ts.len(),
{
    if ts.len() == 0 {
        Seq::<u8>::empty()
    } else {
        e_trace(ts[0]) + e_trace_items(ts.drop_first())
    }
}

/// The serialized form of a trace list: its count, then the items.
pub open spec fn e_traces(ts: Seq<TraceV>) -> Seq<u8> {
    e_u64(ts.len() as u64) + e_trace_items(ts)
}

/// Reads `n` traces at `i`.
pub open spec fn p_trace_items(s: Seq<u8>, i: int, n: nat) -> Option<(Seq<TraceV>, int)>
    decreases n,
{
    if n == 0 {
        Some((Seq::<TraceV>::empty(), i))
    } else {
        match p_trace(s, i) {
            None => None,
            Some((t, j)) => match p_trace_items(s, j, (n - 1) as nat) {
                None => None,
                Some((rest, k)) => Some((seq![t] + rest, k)),
            },
        }
    }
}

/// Reads one trace list at `i`.
pub open spec fn p_traces(s: Seq<u8>, i: int) -> Option<(Seq<TraceV>, int)> {
    match p_u64(s, i) {
        None => None,
        Some((n, j)) => p_trace_items(s, j, n as nat),
    }
}

/// The size side conditions under which a trace list serializes.
pub open spec fn traces_size_ok(ts: Seq<TraceV>) -> bool {
    ts.len() <= u64::MAX && (forall|x: int| 0 <= x < ts.len() ==> trace_size_ok(#[trigger] ts[x]))
}

#[verifier::rlimit(100)]
#[verifier::spinoff_prover]
proof fn lemma_p_trace_items(s: Seq<u8>, i: int, ts: Seq<TraceV>)
    requires
        0 <= i,
        traces_size_ok(ts),
        i + e_trace_items(ts).len() <= s.len(),
        s.subrange(i, i + e_trace_items(ts).len()) =~= e_trace_items(ts),
    ensures
        p_trace_items(s, i, ts.len() as nat) == Some((ts, i + e_trace_items(ts).len())),
    decreases ts.len(),
{
    if ts.len() == 0 {
        assert(ts =~= Seq::<TraceV>::empty());
    } else {
        let h = ts[0];
        let rest = ts.drop_first();
        let eh = e_trace(h);
        let er = e_trace_items(rest);
        lemma_chunk(s, i, e_trace_items(ts), 0, eh.len() as int);
        assert(e_trace_items(ts).subrange(0, eh.len() as int) =~= eh);
        lemma_p_trace(s, i, h);
        lemma_chunk(s, i, e_trace_items(ts), eh.len() as int, er.len() as int);
        assert(e_trace_items(ts).subrange(eh.len() as int, (eh.len() + er.len()) as int) =~= er);
        lemma_p_trace_items(s, i + eh.len(), rest);
        assert(seq![h] + rest =~= ts);
    }
}

/// Parsing an encoded trace list in place gives it back.
pub proof fn lemma_p_traces(s: Seq<u8>, i: int, ts: Seq<TraceV>)
    requires
        0 <= i,
        traces_size_ok(ts),
        i + e_traces(ts).len() <= s.len(),
        s.subrange(i, i + e_traces(ts).len()) =~= e_traces(ts),
    ensures
        p_traces(s, i) == Some((ts, i + e_traces(ts).len())),
{
    lemma_e_u64_len(ts.len() as u64);
    lemma_chunk(s, i, e_traces(ts), 0, 8);
    assert(e_traces(ts).subrange(0, 8) =~= e_u64(ts.len() as u64));
    lemma_p_u64(s, i, ts.len() as u64);
    lemma_chunk(s, i, e_traces(ts), 8, e_trace_items(ts).len() as int);
    assert(e_traces(ts).subrange(8, (8 + e_trace_items(ts).len()) as int) =~= e_trace_items(ts));
    lemma_p_trace_items(s, i + 8, ts);
}

fn enc_trace_items_from(ts: &Vec<TraceView>, k: usize) -> (r: Vec<u8>)
    requires
        k <= ts@.len(),
    ensures
        r@ =~= e_trace_items(ts@.map_values(|t: TraceView| t@).skip(k as int)),
    decreases ts@.len() - k,
{
    let ghost tv: Seq<TraceV> = ts@.map_values(|t: TraceView| t@);
    if k == ts.len() {
        proof {
            assert(tv.skip(k as int) =~= Seq::<TraceV>::empty());
        }
        Vec::new()
    } else {
        let mut v = enc_trace(&ts[k]);
        let mut rest = enc_trace_items_from(ts, k + 1);
        v.append(&mut rest);
        proof {
            assert(tv.skip(k as int).drop_first() =~= tv.skip(k + 1));
            assert(tv.skip(k as int)[0] == tv[k as int]);
            assert(tv[k as int] == ts@[k as int]@);
        }
        v
    }
}

/// Serializes a trace list.
fn enc_traces(ts: &Vec<TraceView>) -> (r: Vec<u8>)
    ensures
        r@ =~= e_traces(ts@.map_values(|t: TraceView| t@)),
{
    let mut v = enc_u64(ts.len() as u64);
    let mut items = enc_trace_items_from(ts, 0);
    v.append(&mut items);
    proof {
        assert(ts@.map_values(|t: TraceView| t@).skip(0) =~= ts@.map_values(|t: TraceView| t@));
    }
    v
}

fn dec_trace_items(s: &[u8], pos: usize, n: u64) -> (r: Option<(Vec<TraceView>, usize)>)
    requires
        pos <= s@.len(),
    ensures
        match r {
            Some((ts, p)) => p_trace_items(s@, pos as int, n as nat) == Some(
                (ts@.map_values(|t: TraceView| t@), p as int),
            ) && pos <= p <= s@.len(),
            None => p_trace_items(s@, pos as int, n as nat) is None,
        },
    decreases n,
{
    if n == 0 {
        let r: Vec<TraceView> = Vec::new();
        proof {
            assert(r@.map_values(|t: TraceView| t@) =~= Seq::<TraceV>::empty());
        }
        Some((r, pos))
    } else {
        match dec_trace(s, pos) {
            None => None,
            Some((t, j)) => {
                match dec_trace_items(s, j, n - 1) {
                    None => None,
                    Some((rest, p)) => {
                        let ghost tv: TraceV = t@;
                        let mut rest2 = rest;
                        rest2.insert(0, t);
                        proof {
                            assert(rest2@.map_values(|x: TraceView| x@) =~= seq![tv] + rest@
                                .map_values(|x: TraceView| x@));
                        }
                        Some((rest2, p))
                    },
                }
            },
        }
    }
}

/// Reads one trace list.
fn dec_traces(s: &[u8], pos: usize) -> (r: Option<(Vec<TraceView>, usize)>)
    ensures
        match r {
            Some((ts, p)) => p_traces(s@, pos as int) == Some(
                (ts@.map_values(|t: TraceView| t@), p as int),
            ) && pos <= p <= s@.len(),
            None => p_traces(s@, pos as int) is None,
        },
{
    match dec_u64(s, pos) {
        None => None,
        Some((n, j)) => dec_trace_items(s, j, n),
    }
}


/// The serialized form of an optional transaction view: a presence tag,
/// then the payload when present.
pub open spec fn e_opt_tx(o: Option<TransactionV>) -> Seq<u8> {
    match o {
        None => seq![0u8],
        Some(t) => seq![1u8] + e_tx(t),
    }
}

/// The serialized form of an optional receipt view.
pub open spec fn e_opt_receipt(o: Option<crate::records::ReceiptV>) -> Seq<u8> {
    match o {
        None => seq![0u8],
        Some(r) => seq![1u8] + e_receipt(r),
    }
}

/// The serialized form of an optional trace list.
pub open spec fn e_opt_traces(o: Option<Seq<TraceV>>) -> Seq<u8> {
    match o {
        None => seq![0u8],
        Some(ts) => seq![1u8] + e_traces(ts),
    }
}

/// The serialized form of an optional block header.
pub open spec fn e_opt_block(o: Option<BlockHeaderV>) -> Seq<u8> {
    match o {
        None => seq![0u8],
        Some(b) => seq![1u8] + e_block(b),
    }
}

/// The serialized form of one merged record: a presence tag and payload
/// for each of its four views.
pub open spec fn e_txrec(t: TxV) -> Seq<u8> {
    e_opt_tx(t.transaction) + e_opt_receipt(t.receipt) + e_opt_traces(t.traces) + e_opt_block(
        t.block,
    )
}

/// Reads one optional transaction view at `i`.
pub open spec fn p_opt_tx(s: Seq<u8>, i: int) -> Option<(Option<TransactionV>, int)> {
    if !(0 <= i && i < s.len()) {
        None
    } else if s[i] == 0u8 {
        Some((None, i + 1))
    } else if s[i] == 1u8 {
        match p_tx(s, i + 1) {
            None => None,
            Some((t, j)) => Some((Some(t), j)),
        }
    } else {
        None
    }
}

/// Reads one optional receipt view at `i`.
pub open spec fn p_opt_receipt(s: Seq<u8>, i: int) -> Option<
    (Option<crate::records::ReceiptV>, int),
> {
    if !(0 <= i && i < s.len()) {
        None
    } else if s[i] == 0u8 {
        Some((None, i + 1))
    } else if s[i] == 1u8 {
        match p_receipt(s, i + 1) {
            None => None,
            Some((t, j)) => Some((Some(t), j)),
        }
    } else {
        None
    }
}

/// Reads one optional trace list at `i`.
pub open spec fn p_opt_traces(s: Seq<u8>, i: int) -> Option<(Option<Seq<TraceV>>, int)> {
    if !(0 <= i && i < s.len()) {
        None
    } else if s[i] == 0u8 {
        Some((None, i + 1))
    } else if s[i] == 1u8 {
        match p_traces(s, i + 1) {
            None => None,
            Some((t, j)) => Some((Some(t), j)),
        }
    } else {
        None
    }
}

/// Reads one optional block header at `i`.
pub open spec fn p_opt_block(s: Seq<u8>, i: int) -> Option<(Option<BlockHeaderV>, int)> {
    if !(0 <= i && i < s.len()) {
        None
    } else if s[i] == 0u8 {
        Some((None, i + 1))
    } else if s[i] == 1u8 {
        match p_block(s, i + 1) {
            None => None,
            Some((t, j)) => Some((Some(t), j)),
        }
    } else {
        None
    }
}

/// Reads one merged record at `i`.
pub open spec fn p_txrec(s: Seq<u8>, i: int) -> Option<(TxV, int)> {
    match p_opt_tx(s, i) {
        None => None,
        Some((t, i1)) => match p_opt_receipt(s, i1) {
            None => None,
            Some((rc, i2)) => match p_opt_traces(s, i2) {
                None => None,
                Some((ts, i3)) => match p_opt_block(s, i3) {
                    None => None,
                    Some((b, i4)) => Some(
                        (TxV { transaction: t, receipt: rc, traces: ts, block: b }, i4),
                    ),
                },
            },
        },
    }
}

/// The size side conditions under which a merged record serializes.
pub open spec fn txrec_size_ok(t: TxV) -> bool {
    (match t.transaction {
        None => true,
        Some(tv) => tx_size_ok(tv),
    }) && (match t.receipt {
        None => true,
        Some(rv) => receipt_size_ok(rv),
    }) && (match t.traces {
        None => true,
        Some(ts) => traces_size_ok(ts),
    }) && (match t.block {
        None => true,
        Some(b) => b.author.len() <= u64::MAX,
    })
}

/// Parsing an encoded optional transaction view in place gives it back.
proof fn lemma_p_opt_tx(s: Seq<u8>, i: int, o: Option<TransactionV>)
    requires
        0 <= i,
        (o is Some ==> tx_size_ok(o->Some_0)),
        i + e_opt_tx(o).len() <= s.len(),
        s.subrange(i, i + e_opt_tx(o).len()) =~= e_opt_tx(o),
    ensures
        p_opt_tx(s, i) == Some((o, i + e_opt_tx(o).len())),
{
    assert(s[i] == e_opt_tx(o)[0]);
    match o {
        None => {},
        Some(t) => {
            lemma_chunk(s, i, e_opt_tx(o), 1, e_tx(t).len() as int);
            assert(e_opt_tx(o).subrange(1, (1 + e_tx(t).len()) as int) =~= e_tx(t));
            lemma_p_tx(s, i + 1, t);
        },
    }
}

/// Parsing an encoded optional receipt view in place gives it back.
proof fn lemma_p_opt_receipt(s: Seq<u8>, i: int, o: Option<crate::records::ReceiptV>)
    requires
        0 <= i,
        (o is Some ==> receipt_size_ok(o->Some_0)),
        i + e_opt_receipt(o).len() <= s.len(),
        s.subrange(i, i + e_opt_receipt(o).len()) =~= e_opt_receipt(o),
    ensures
        p_opt_receipt(s, i) == Some((o, i + e_opt_receipt(o).len())),
{
    assert(s[i] == e_opt_receipt(o)[0]);
    match o {
        None => {},
        Some(t) => {
            lemma_chunk(s, i, e_opt_receipt(o), 1, e_receipt(t).len() as int);
            assert(e_opt_receipt(o).subrange(1, (1 + e_receipt(t).len()) as int) =~= e_receipt(t));
            lemma_p_receipt(s, i + 1, t);
        },
    }
}

/// Parsing an encoded optional trace list in place gives it back.
proof fn lemma_p_opt_traces(s: Seq<u8>, i: int, o: Option<Seq<TraceV>>)
    requires
        0 <= i,
        (o is Some ==> traces_size_ok(o->Some_0)),
        i + e_opt_traces(o).len() <= s.len(),
        s.subrange(i, i + e_opt_traces(o).len()) =~= e_opt_traces(o),
    ensures
        p_opt_traces(s, i) == Some((o, i + e_opt_traces(o).len())),
{
    assert(s[i] == e_opt_traces(o)[0]);
    match o {
        None => {},
        Some(t) => {
            lemma_chunk(s, i, e_opt_traces(o), 1, e_traces(t).len() as int);
            assert(e_opt_traces(o).subrange(1, (1 + e_traces(t).len()) as int) =~= e_traces(t));
            lemma_p_traces(s, i + 1, t);
        },
    }
}

/// Parsing an encoded optional block header in place gives it back.
proof fn lemma_p_opt_block(s: Seq<u8>, i: int, o: Option<BlockHeaderV>)
    requires
        0 <= i,
        (o is Some ==> o->Some_0.author.len() <= u64::MAX),
        i + e_opt_block(o).len() <= s.len(),
        s.subrange(i, i + e_opt_block(o).len()) =~= e_opt_block(o),
    ensures
        p_opt_block(s, i) == Some((o, i + e_opt_block(o).len())),
{
    assert(s[i] == e_opt_block(o)[0]);
    match o {
        None => {},
        Some(t) => {
            lemma_chunk(s, i, e_opt_block(o), 1, e_block(t).len() as int);
            assert(e_opt_block(o).subrange(1, (1 + e_block(t).len()) as int) =~= e_block(t));
            lemma_p_block(s, i + 1, t);
        },
    }
}

/// Parsing an encoded merged record in place gives it back.
#[verifier::rlimit(100)]
#[verifier::spinoff_prover]
pub proof fn lemma_p_txrec(s: Seq<u8>, i: int, t: TxV)
    requires
        0 <= i,
        txrec_size_ok(t),
        i + e_txrec(t).len() <= s.len(),
        s.subrange(i, i + e_txrec(t).len()) =~= e_txrec(t),
    ensures
        p_txrec(s, i) == Some((t, i + e_txrec(t).len())),
{
    let full = e_txrec(t);
    let p0 = e_opt_tx(t.transaction);
    let p1 = e_opt_receipt(t.receipt);
    let p2 = e_opt_traces(t.traces);
    let p3 = e_opt_block(t.block);
    let l0 = p0.len() as int;
    let l1 = p1.len() as int;
    let l2 = p2.len() as int;
    let l3 = p3.len() as int;
    lemma_chunk(s, i, full, 0, l0);
    assert(full.subrange(0, l0) =~= p0);
    lemma_p_opt_tx(s, i, t.transaction);
    lemma_chunk(s, i, full, l0, l1);
    assert(full.subrange(l0, l0 + l1) =~= p1);
    lemma_p_opt_receipt(s, i + l0, t.receipt);
    lemma_chunk(s, i, full, l0 + l1, l2);
    assert(full.subrange(l0 + l1, l0 + l1 + l2) =~= p2);
    lemma_p_opt_traces(s, i + l0 + l1, t.traces);
    lemma_chunk(s, i, full, l0 + l1 + l2, l3);
    assert(full.subrange(l0 + l1 + l2, l0 + l1 + l2 + l3) =~= p3);
    lemma_p_opt_block(s, i + l0 + l1 + l2, t.block);
}

/// Serializes a merged record.
#[verifier::rlimit(100)]
fn enc_txrec(t: &Tx) -> (r: Vec<u8>)
    ensures
        r@ =~= e_txrec(t@),
{
    let mut v: Vec<u8> = Vec::new();
    match &t.transaction {
        None => {
            v.push(0u8);
        },
        Some(tv) => {
            v.push(1u8);
            let mut b = enc_tx(tv);
            v.append(&mut b);
        },
    }
    match &t.receipt {
        None => {
            v.push(0u8);
        },
        Some(rv) => {
            v.push(1u8);
            let mut b = enc_receipt(rv);
            v.append(&mut b);
        },
    }
    match &t.traces {
        None => {
            v.push(0u8);
        },
        Some(ts) => {
            v.push(1u8);
            let mut b = enc_traces(ts);
            v.append(&mut b);
        },
    }
    match &t.block {
        None => {
            v.push(0u8);
        },
        Some(b) => {
            v.push(1u8);
            let mut bb = enc_block(b);
            v.append(&mut bb);
        },
    }
    proof {
        assert(v@ =~= e_txrec(t@));
    }
    v
}

/// Reads one merged record.
fn dec_txrec(s: &[u8], pos: usize) -> (r: Option<(Tx, usize)>)
    ensures
        match r {
            Some((t, p)) => p_txrec(s@, pos as int) == Some((t@, p as int)) && pos <= p
                <= s@.len(),
            None => p_txrec(s@, pos as int) is None,
        },
{
    if pos >= s.len() {
        return None;
    }
    let (t, i1) = if s[pos] == 0u8 {
        (None, pos + 1)
    } else if s[pos] == 1u8 {
        match dec_tx(s, pos + 1) {
            None => {
                return None;
            },
            Some((x, j)) => (Some(x), j),
        }
    } else {
        return None;
    };
    if i1 >= s.len() {
        return None;
    }
    let (rc, i2) = if s[i1] == 0u8 {
        (None, i1 + 1)
    } else if s[i1] == 1u8 {
        match dec_receipt(s, i1 + 1) {
            None => {
                return None;
            },
            Some((x, j)) => (Some(x), j),
        }
    } else {
        return None;
    };
    if i2 >= s.len() {
        return None;
    }
    let (ts, i3) = if s[i2] == 0u8 {
        (None, i2 + 1)
    } else if s[i2] == 1u8 {
        match dec_traces(s, i2 + 1) {
            None => {
                return None;
            },
            Some((x, j)) => (Some(x), j),
        }
    } else {
        return None;
    };
    if i3 >= s.len() {
        return None;
    }
    let (b, i4) = if s[i3] == 0u8 {
        (None, i3 + 1)
    } else if s[i3] == 1u8 {
        match dec_block(s, i3 + 1) {
            None => {
                return None;
            },
            Some((x, j)) => (Some(x), j),
        }
    } else {
        return None;
    };
    Some((Tx { transaction: t, receipt: rc, traces: ts, block: b }, i4))
}

/// The serialized form of one cache slot.
pub open spec fn e_entry(e: (Seq<u8>, TxV)) -> Seq<u8> {
    e_bytes(e.0) + e_txrec(e.1)
}

/// Reads one cache slot at `i`.
pub open spec fn p_entry(s: Seq<u8>, i: int) -> Option<((Seq<u8>, TxV), int)> {
    match p_bytes(s, i) {
        None => None,
        Some((h, i1)) => match p_txrec(s, i1) {
            None => None,
            Some((t, i2)) => Some(((h, t), i2)),
        },
    }
}

/// The size side conditions under which a slot serializes.
pub open spec fn entry_size_ok(e: (Seq<u8>, TxV)) -> bool {
    e.0.len() <= u64::MAX && txrec_size_ok(e.1)
}

/// Parsing an encoded slot in place gives it back.
#[verifier::rlimit(100)]
#[verifier::spinoff_prover]
proof fn lemma_p_entry(s: Seq<u8>, i: int, e: (Seq<u8>, TxV))
    requires
        0 <= i,
        entry_size_ok(e),
        i + e_entry(e).len() <= s.len(),
        s.subrange(i, i + e_entry(e).len()) =~= e_entry(e),
    ensures
        p_entry(s, i) == Some((e, i + e_entry(e).len())),
{
    let full = e_entry(e);
    let l0 = e_bytes(e.0).len() as int;
    let l1 = e_txrec(e.1).len() as int;
    lemma_chunk(s, i, full, 0, l0);
    assert(full.subrange(0, l0) =~= e_bytes(e.0));
    lemma_p_bytes(s, i, e.0);
    lemma_chunk(s, i, full, l0, l1);
    assert(full.subrange(l0, l0 + l1) =~= e_txrec(e.1));
    lemma_p_txrec(s, i + l0, e.1);
}

/// Serializes one cache slot.
fn enc_entry(e: &CacheEntry) -> (r: Vec<u8>)
    ensures
        r@ =~= e_entry(e@),
{
    let mut v = enc_bytes(e.hash.bytes.as_slice());
    let mut t = enc_txrec(&e.tx);
    v.append(&mut t);
    v
}

/// Reads one cache slot.
fn dec_entry(s: &[u8], pos: usize) -> (r: Option<(CacheEntry, usize)>)
    ensures
        match r {
            Some((e, p)) => p_entry(s@, pos as int) == Some((e@, p as int)) && pos <= p
                <= s@.len(),
            None => p_entry(s@, pos as int) is None,
        },
{
    let (h, i1) = match dec_bytes(s, pos) {
        None => {
            return None;
        },
        Some(x) => x,
    };
    let (t, i2) = match dec_txrec(s, i1) {
        None => {
            return None;
        },
        Some(x) => x,
    };
    Some((CacheEntry { hash: TxHash { bytes: h }, tx: t }, i2))
}

/// The serialized items of the slot list, first slot first.
pub open spec fn e_entry_items(es: Seq<(Seq<u8>, TxV)>) -> Seq<u8>
    decreases es.len(),
{
    if es.len() == 0 {
        Seq::<u8>::empty()
    } else {
        e_entry(es[0]) + e_entry_items(es.drop_first())
    }
}

/// Reads `n` slots at `i`.
pub open spec fn p_entry_items(s: Seq<u8>, i: int, n: nat) -> Option<(Seq<(Seq<u8>, TxV)>, int)>
    decreases n,
{
    if n == 0 {
        Some((Seq::<(Seq<u8>, TxV)>::empty(), i))
    } else {
        match p_entry(s, i) {
            None => None,
            Some((e, j)) => match p_entry_items(s, j, (n - 1) as nat) {
                None => None,
                Some((rest, k)) => Some((seq![e] + rest, k)),
            },
        }
    }
}

/// The size side conditions under which the slot list serializes.
pub open spec fn entries_size_ok(es: Seq<(Seq<u8>, TxV)>) -> bool {
    es.len() <= u64::MAX && (forall|x: int| 0 <= x < es.len() ==> entry_size_ok(#[trigger] es[x]))
}

#[verifier::rlimit(100)]
#[verifier::spinoff_prover]
proof fn lemma_p_entry_items(s: Seq<u8>, i: int, es: Seq<(Seq<u8>, TxV)>)
    requires
        0 <= i,
        entries_size_ok(es),
        i + e_entry_items(es).len() <= s.len(),
        s.subrange(i, i + e_entry_items(es).len()) =~= e_entry_items(es),
    ensures
        p_entry_items(s, i, es.len() as nat) == Some((es, i + e_entry_items(es).len())),
    decreases es.len(),
{
    if es.len() == 0 {
        assert(es =~= Seq::<(Seq<u8>, TxV)>::empty());
    } else {
        let h = es[0];
        let rest = es.drop_first();
        let eh = e_entry(h);
        let er = e_entry_items(rest);
        lemma_chunk(s, i, e_entry_items(es), 0, eh.len() as int);
        assert(e_entry_items(es).subrange(0, eh.len() as int) =~= eh);
        lemma_p_entry(s, i, h);
        lemma_chunk(s, i, e_entry_items(es), eh.len() as int, er.len() as int);
        assert(e_entry_items(es).subrange(eh.len() as int, (eh.len() + er.len()) as int) =~= er);
        lemma_p_entry_items(s, i + eh.len(), rest);
        assert(seq![h] + rest =~= es);
    }
}

/// The serialized form of a whole cache: its identity, then its slots.
pub open spec fn e_cache(c: CacheV) -> Seq<u8> {
    e_bytes(c.address) + e_u64(c.from_block) + e_u64(c.to_block) + e_u64(c.entries.len() as u64)
        + e_entry_items(c.entries)
}

/// Reads one whole cache at `i`.
pub open spec fn p_cache(s: Seq<u8>, i: int) -> Option<(CacheV, int)> {
    match p_bytes(s, i) {
        None => None,
        Some((a, i1)) => match p_u64(s, i1) {
            None => None,
            Some((fb, i2)) => match p_u64(s, i2) {
                None => None,
                Some((tb, i3)) => match p_u64(s, i3) {
                    None => None,
                    Some((n, i4)) => match p_entry_items(s, i4, n as nat) {
                        None => None,
                        Some((es, i5)) => Some(
                            (
                                CacheV {
                                    address: a,
                                    from_block: fb,
                                    to_block: tb,
                                    entries: es,
                                },
                                i5,
                            ),
                        ),
                    },
                },
            },
        },
    }
}

/// The size side conditions under which a cache serializes; every cache
/// that exec code can build satisfies them.
pub open spec fn cache_size_ok(c: CacheV) -> bool {
    c.address.len() <= u64::MAX && entries_size_ok(c.entries)
}

/// Parsing an encoded cache in place gives it back.
#[verifier::rlimit(100)]
#[verifier::spinoff_prover]
pub proof fn lemma_p_cache(s: Seq<u8>, i: int, c: CacheV)
    requires
        0 <= i,
        cache_size_ok(c),
        i + e_cache(c).len() <= s.len(),
        s.subrange(i, i + e_cache(c).len()) =~= e_cache(c),
    ensures
        p_cache(s, i) == Some((c, i + e_cache(c).len())),
{
    let full = e_cache(c);
    let l0 = e_bytes(c.address).len() as int;
    let l3 = 8int;
    let l4 = e_entry_items(c.entries).len() as int;
    lemma_e_u64_len(c.from_block);
    lemma_e_u64_len(c.to_block);
    lemma_e_u64_len(c.entries.len() as u64);
    lemma_chunk(s, i, full, 0, l0);
    assert(full.subrange(0, l0) =~= e_bytes(c.address));
    lemma_p_bytes(s, i, c.address);
    lemma_chunk(s, i, full, l0, 8);
    assert(full.subrange(l0, l0 + 8) =~= e_u64(c.from_block));
    lemma_p_u64(s, i + l0, c.from_block);
    lemma_chunk(s, i, full, l0 + 8, 8);
    assert(full.subrange(l0 + 8, l0 + 16) =~= e_u64(c.to_block));
    lemma_p_u64(s, i + l0 + 8, c.to_block);
    lemma_chunk(s, i, full, l0 + 16, 8);
    assert(full.subrange(l0 + 16, l0 + 24) =~= e_u64(c.entries.len() as u64));
    lemma_p_u64(s, i + l0 + 16, c.entries.len() as u64);
    lemma_chunk(s, i, full, l0 + 24, l4);
    assert(full.subrange(l0 + 24, l0 + 24 + l4) =~= e_entry_items(c.entries));
    lemma_p_entry_items(s, i + l0 + 24, c.entries);
}

fn enc_entry_items_from(es: &Vec<CacheEntry>, k: usize) -> (r: Vec<u8>)
    requires
        k <= es@.len(),
    ensures
        r@ =~= e_entry_items(es@.map_values(|e: CacheEntry| e@).skip(k as int)),
    decreases es@.len() - k,
{
    let ghost ev: Seq<(Seq<u8>, TxV)> = es@.map_values(|e: CacheEntry| e@);
    if k == es.len() {
        proof {
            assert(ev.skip(k as int) =~= Seq::<(Seq<u8>, TxV)>::empty());
        }
        Vec::new()
    } else {
        let mut v = enc_entry(&es[k]);
        let mut rest = enc_entry_items_from(es, k + 1);
        v.append(&mut rest);
        proof {
            assert(ev.skip(k as int).drop_first() =~= ev.skip(k + 1));
            assert(ev.skip(k as int)[0] == ev[k as int]);
            assert(ev[k as int] == es@[k as int]@);
        }
        v
    }
}

fn dec_entry_items(s: &[u8], pos: usize, n: u64) -> (r: Option<(Vec<CacheEntry>, usize)>)
    requires
        pos <= s@.len(),
    ensures
        match r {
            Some((es, p)) => p_entry_items(s@, pos as int, n as nat) == Some(
                (es@.map_values(|e: CacheEntry| e@), p as int),
            ) && pos <= p <= s@.len(),
            None => p_entry_items(s@, pos as int, n as nat) is None,
        },
    decreases n,
{
    if n == 0 {
        let r: Vec<CacheEntry> = Vec::new();
        proof {
            assert(r@.map_values(|e: CacheEntry| e@) =~= Seq::<(Seq<u8>, TxV)>::empty());
        }
        Some((r, pos))
    } else {
        match dec_entry(s, pos) {
            None => None,
            Some((e, j)) => {
                match dec_entry_items(s, j, n - 1) {
                    None => None,
                    Some((rest, p)) => {
                        let ghost ev: (Seq<u8>, TxV) = e@;
                        let mut rest2 = rest;
                        rest2.insert(0, e);
                        proof {
                            assert(rest2@.map_values(|x: CacheEntry| x@) =~= seq![ev] + rest@
                                .map_values(|x: CacheEntry| x@));
                        }
                        Some((rest2, p))
                    },
                }
            },
        }
    }
}

/// Every transaction view the executable side holds is small enough to
/// serialize: its byte fields live in vectors, whose lengths fit a `u64`.
proof fn lemma_tx_sizes(t: &TransactionView)
    ensures
        tx_size_ok(t@),
{
    vstd::std_specs::vec::axiom_spec_len(&t.hash.bytes);
    vstd::std_specs::vec::axiom_spec_len(&t.from.bytes);
    vstd::std_specs::vec::axiom_spec_len(&t.input);
    match t.to {
        Some(a) => {
            vstd::std_specs::vec::axiom_spec_len(&a.bytes);
        },
        None => {},
    }
}

/// Every log view the executable side holds is small enough to serialize.
proof fn lemma_log_sizes(l: &LogView)
    ensures
        log_size_ok(l@),
{
    vstd::std_specs::vec::axiom_spec_len(&l.address.bytes);
    vstd::std_specs::vec::axiom_spec_len(&l.data);
    vstd::std_specs::vec::axiom_spec_len(&l.topics);
    assert forall|x: int| 0 <= x < l@.topics.len() implies (#[trigger] l@.topics[x]).len()
        <= u64::MAX by {
        assert(l@.topics[x] == l.topics@[x]@);
        vstd::std_specs::vec::axiom_spec_len(&l.topics@[x]);
    }
}

/// Every receipt view the executable side holds is small enough to
/// serialize.
proof fn lemma_receipt_sizes(r: &crate::records::ReceiptView)
    ensures
        receipt_size_ok(r@),
{
    vstd::std_specs::vec::axiom_spec_len(&r.transaction_hash.bytes);
    vstd::std_specs::vec::axiom_spec_len(&r.logs);
    match r.contract_address {
        Some(a) => {
            vstd::std_specs::vec::axiom_spec_len(&a.bytes);
        },
        None => {},
    }
    assert forall|x: int| 0 <= x < r@.logs.len() implies log_size_ok(#[trigger] r@.logs[x]) by {
        assert(r@.logs[x] == r.logs@[x]@);
        lemma_log_sizes(&r.logs@[x]);
    }
}

/// Every trace view the executable side holds is small enough to
/// serialize.
proof fn lemma_trace_sizes(t: &TraceView)
    ensures
        trace_size_ok(t@),
{
    vstd::std_specs::vec::axiom_spec_len(&t.transaction_hash.bytes);
    vstd::std_specs::vec::axiom_spec_len(&t.trace_address);
    match &t.action {
        ActionView::Call { from, to, input } => {
            vstd::std_specs::vec::axiom_spec_len(&from.bytes);
            vstd::std_specs::vec::axiom_spec_len(&to.bytes);
            vstd::std_specs::vec::axiom_spec_len(input);
        },
        ActionView::Create { from } => {
            vstd::std_specs::vec::axiom_spec_len(&from.bytes);
        },
        ActionView::Suicide { address, refund_address } => {
            vstd::std_specs::vec::axiom_spec_len(&address.bytes);
            vstd::std_specs::vec::axiom_spec_len(&refund_address.bytes);
        },
        ActionView::Reward => {},
    }
}

/// Every merged record the executable side holds is small enough to
/// serialize.
proof fn lemma_txrec_sizes(t: &Tx)
    ensures
        txrec_size_ok(t@),
{
    match &t.transaction {
        Some(tv) => {
            lemma_tx_sizes(tv);
        },
        None => {},
    }
    match &t.receipt {
        Some(rv) => {
            lemma_receipt_sizes(rv);
        },
        None => {},
    }
    match &t.traces {
        Some(ts) => {
            vstd::std_specs::vec::axiom_spec_len(ts);
            assert forall|x: int|
                0 <= x < t@.traces->Some_0.len() implies trace_size_ok(
                #[trigger] t@.traces->Some_0[x]) by {
                assert(t@.traces->Some_0[x] == ts@[x]@);
                lemma_trace_sizes(&ts@[x]);
            }
        },
        None => {},
    }
    match &t.block {
        Some(b) => {
            vstd::std_specs::vec::axiom_spec_len(&b.author.bytes);
        },
        None => {},
    }
}

/// Every cache the executable side holds meets the codec's size side
/// conditions, so its round trip carries no proviso.
pub proof fn lemma_cache_sizes(c: &TransactionCache)
    ensures
        cache_size_ok(c@),
{
    vstd::std_specs::vec::axiom_spec_len(&c.address.bytes);
    vstd::std_specs::vec::axiom_spec_len(&c.entries);
    assert forall|i: int| 0 <= i < c@.entries.len() implies entry_size_ok(
        #[trigger] c@.entries[i]) by {
        assert(c@.entries[i] == c.entries@[i]@);
        vstd::std_specs::vec::axiom_spec_len(&c.entries@[i].hash.bytes);
        lemma_txrec_sizes(&c.entries@[i].tx);
    }
}

/// Serializes a whole cache into the persisted byte format: its identity,
/// then every slot.  Compression and the write to disk sit outside, on
/// the unverified rim.  The image parses back to this very cache, with
/// nothing to assume: every executable cache meets the size conditions.
pub fn cache_to_bytes(c: &TransactionCache) -> (r: Vec<u8>)
    ensures
        r@ =~= e_cache(c@),
        p_cache(r@, 0) == Some((c@, r@.len() as int)),
{
    proof {
        lemma_cache_sizes(c);
    }
    let mut v = enc_bytes(c.address.bytes.as_slice());
    let mut fb = enc_u64(c.from_block);
    v.append(&mut fb);
    let mut tb = enc_u64(c.to_block);
    v.append(&mut tb);
    let mut n = enc_u64(c.entries.len() as u64);
    v.append(&mut n);
    let mut items = enc_entry_items_from(&c.entries, 0);
    v.append(&mut items);
    proof {
        assert(c@.entries.skip(0) =~= c@.entries);
        assert(v@ =~= e_cache(c@));
        assert(v@.subrange(0, v@.len() as int) =~= v@);
        lemma_p_cache(v@, 0, c@);
    }
    v
}

/// Reads a persisted cache back.  Succeeds exactly when the bytes parse as
/// one cache, nothing trails, and the slots' hashes are unique — anything
/// else is corrupt persisted data, never a panic.
pub fn cache_from_bytes(b: &[u8]) -> (r: Result<TransactionCache, CacheError>)
    ensures
        match r {
            Ok(c) => p_cache(b@, 0) == Some((c@, b@.len() as int)) && c.wf(),
            Err(e) => e == CacheError::CorruptPersistedData && (match p_cache(b@, 0) {
                None => true,
                Some((v, p)) => p != b@.len() || !unique_hashes(v.entries),
            }),
        },
{
    let (a, i1) = match dec_bytes(b, 0) {
        None => {
            return Err(CacheError::CorruptPersistedData);
        },
        Some(x) => x,
    };
    let (fb, i2) = match dec_u64(b, i1) {
        None => {
            return Err(CacheError::CorruptPersistedData);
        },
        Some(x) => x,
    };
    let (tb, i3) = match dec_u64(b, i2) {
        None => {
            return Err(CacheError::CorruptPersistedData);
        },
        Some(x) => x,
    };
    let (n, i4) = match dec_u64(b, i3) {
        None => {
            return Err(CacheError::CorruptPersistedData);
        },
        Some(x) => x,
    };
    let (es, i5) = match dec_entry_items(b, i4, n) {
        None => {
            return Err(CacheError::CorruptPersistedData);
        },
        Some(x) => x,
    };
    if i5 != b.len() {
        return Err(CacheError::CorruptPersistedData);
    }
    let ghost ev: Seq<(Seq<u8>, TxV)> = es@.map_values(|e: CacheEntry| e@);
    let ghost parsed: CacheV = CacheV { address: a@, from_block: fb, to_block: tb, entries: ev };
    proof {
        assert(p_cache(b@, 0) == Some((parsed, i5 as int)));
    }
    let mut x: usize = 0;
    let m = es.len();
    while x < m
        invariant
            0 <= x <= m,
            m == es@.len(),
            ev == es@.map_values(|e: CacheEntry| e@),
            ev.len() == m,
            p_cache(b@, 0) == Some((parsed, i5 as int)),
            parsed.entries == ev,
            i5 == b@.len(),
            forall|i: int, j: int| 0 <= i < j < x ==> (#[trigger] ev[i]).0 != (#[trigger] ev[j]).0,
            forall|i: int, j: int|
                0 <= i < x && i < j < ev.len() ==> (#[trigger] ev[i]).0 != (#[trigger] ev[j]).0,
        decreases m - x,
    {
        let mut y: usize = x + 1;
        while y < m
            invariant
                0 <= x < y <= m,
                m == es@.len(),
                ev == es@.map_values(|e: CacheEntry| e@),
                ev.len() == m,
                p_cache(b@, 0) == Some((parsed, i5 as int)),
                parsed.entries == ev,
                i5 == b@.len(),
                forall|j: int| x < j < y ==> (#[trigger] ev[j]).0 != ev[x as int].0,
            decreases m - y,
        {
            if es[x].hash.same(&es[y].hash) {
                proof {
                    assert(ev[x as int].0 == es@[x as int].hash@);
                    assert(ev[y as int].0 == es@[y as int].hash@);
                    assert(!unique_hashes(ev));
                }
                return Err(CacheError::CorruptPersistedData);
            }
            proof {
                assert(ev[y as int].0 == es@[y as int].hash@);
                assert(ev[x as int].0 == es@[x as int].hash@);
            }
            y = y + 1;
        }
        x = x + 1;
    }
    let c = TransactionCache { address: Address { bytes: a }, from_block: fb, to_block: tb, entries: es };
    proof {
        assert(unique_hashes(c@.entries));
    }
    Ok(c)
}

/// The persistence round trip, as the interface contract states it:
/// loading what was persisted yields a cache with the same identity and
/// the same slot map, bit for bit at the view level.  The size conditions
/// hold of every cache the executable side can build.
pub proof fn lemma_persist_round_trip(c: CacheV)
    requires
        cache_size_ok(c),
    ensures
        p_cache(e_cache(c), 0) == Some((c, e_cache(c).len() as int)),
{
    let s = e_cache(c);
    assert(s.subrange(0, s.len() as int) =~= s);
    lemma_p_cache(s, 0, c);
}

} // verus!
