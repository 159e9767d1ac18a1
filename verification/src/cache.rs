use vstd::prelude::*;

use crate::errors::CacheError;
use crate::records::{part_hash, Address, Tx, TxHash, TxPart, TxPartV, TxV};

verus! {

/// Ghost image of one cache slot: the key hash and the merged record.
pub ghost struct CacheV {
    pub address: Seq<u8>,
    pub from_block: u64,
    pub to_block: u64,
    pub entries: Seq<(Seq<u8>, TxV)>,
}

/// One slot of the cache.
#[derive(Debug)]
pub struct CacheEntry {
    pub hash: TxHash,
    pub tx: Tx,
}

impl View for CacheEntry {
    type V = (Seq<u8>, TxV);

    open spec fn view(&self) -> (Seq<u8>, TxV) {
        (self.hash@, self.tx@)
    }
}

/// The kind of a partial result: which of the four views it fills.
#[derive(Clone, Copy, Debug, PartialEq, Eq, Structural)]
pub enum PartKind {
    Transaction,
    Receipt,
    Traces,
    BlockHeader,
}

/// Which view a partial result fills.
pub open spec fn kind_of(p: TxPartV) -> PartKind {
    match p {
        TxPartV::Transaction(_) => PartKind::Transaction,
        TxPartV::Receipt(_) => PartKind::Receipt,
        TxPartV::Traces(_, _) => PartKind::Traces,
        TxPartV::BlockHeader(_, _) => PartKind::BlockHeader,
    }
}

/// Is the view of the given kind present in a merged record?
pub open spec fn field_present(t: TxV, k: PartKind) -> bool {
    match k {
        PartKind::Transaction => t.transaction is Some,
        PartKind::Receipt => t.receipt is Some,
        PartKind::Traces => t.traces is Some,
        PartKind::BlockHeader => t.block is Some,
    }
}

/// A merged record with all four views absent.
pub open spec fn empty_txv() -> TxV {
    TxV { transaction: None, receipt: None, traces: None, block: None }
}

/// Merging one partial result into a record: the corresponding field is
/// overwritten, the other three stand as they were.  Last write wins per
/// field, so a duplicate delivery is idempotent and a corrected one
/// silently refreshes.
pub open spec fn apply_part(t: TxV, p: TxPartV) -> TxV {
    match p {
        TxPartV::Transaction(tv) => TxV { transaction: Some(tv), ..t },
        TxPartV::Receipt(rv) => TxV { receipt: Some(rv), ..t },
        TxPartV::Traces(_, ts) => TxV { traces: Some(ts), ..t },
        TxPartV::BlockHeader(_, bv) => TxV { block: Some(bv), ..t },
    }
}

/// Does some slot carry this hash?
pub open spec fn has_hash(es: Seq<(Seq<u8>, TxV)>, h: Seq<u8>) -> bool {
    exists|i: int| 0 <= i < es.len() && (#[trigger] es[i]).0 == h
}

/// Every hash keys at most one slot.
pub open spec fn unique_hashes(es: Seq<(Seq<u8>, TxV)>) -> bool {
    forall|i: int, j: int|
        0 <= i < j < es.len() ==> (#[trigger] es[i]).0 != (#[trigger] es[j]).0
}

/// The slot index a hash keys; meaningful when `has_hash` holds, and
/// unique under `unique_hashes`.
pub open spec fn hash_index(es: Seq<(Seq<u8>, TxV)>, h: Seq<u8>) -> int {
    choose|i: int| 0 <= i < es.len() && (#[trigger] es[i]).0 == h
}

/// The merged record a hash keys; meaningful when `has_hash` holds.
pub open spec fn record_at(es: Seq<(Seq<u8>, TxV)>, h: Seq<u8>) -> TxV {
    es[hash_index(es, h)].1
}

/// The merge-or-create step the cache makes for one partial result: an
/// existing slot for the part's hash is merged into, a missing one is
/// created from an empty record.
pub open spec fn spec_insert(es: Seq<(Seq<u8>, TxV)>, p: TxPartV) -> Seq<(Seq<u8>, TxV)> {
    let h = part_hash(p);
    if has_hash(es, h) {
        es.update(hash_index(es, h), (h, apply_part(es[hash_index(es, h)].1, p)))
    } else {
        es.push((h, apply_part(empty_txv(), p)))
    }
}

/// Inserting keeps hashes unique, keys the part's hash, and touches no
/// other slot.
pub proof fn lemma_insert_frame(es: Seq<(Seq<u8>, TxV)>, p: TxPartV)
    requires
        unique_hashes(es),
    ensures
        unique_hashes(spec_insert(es, p)),
        has_hash(spec_insert(es, p), part_hash(p)),
        forall|x: Seq<u8>| has_hash(spec_insert(es, p), x) <==> (has_hash(es, x) || x == part_hash(p)),
        record_at(spec_insert(es, p), part_hash(p)) == apply_part(
            if has_hash(es, part_hash(p)) {
                record_at(es, part_hash(p))
            } else {
                empty_txv()
            },
            p,
        ),
        forall|x: Seq<u8>|
            has_hash(es, x) && x != part_hash(p) ==> record_at(spec_insert(es, p), x) == record_at(
                es,
                x,
            ),
{
    let h = part_hash(p);
    let es2 = spec_insert(es, p);
    if has_hash(es, h) {
        let i = hash_index(es, h);
        assert(0 <= i < es.len() && es[i].0 == h);
        assert forall|x: Seq<u8>| has_hash(es2, x) implies (has_hash(es, x) || x == h) by {
            let j = choose|j: int| 0 <= j < es2.len() && (#[trigger] es2[j]).0 == x;
            if j != i {
                assert(es[j].0 == x);
            }
        }
        assert forall|x: Seq<u8>| has_hash(es, x) implies has_hash(es2, x) by {
            let j = choose|j: int| 0 <= j < es.len() && (#[trigger] es[j]).0 == x;
            if j == i {
                assert(es2[i].0 == h);
            } else {
                assert(es2[j].0 == x);
            }
        }
        assert(es2[i].0 == h);
        assert(has_hash(es2, h));
        let i2 = hash_index(es2, h);
        assert(es2[i2].0 == h);
        if i2 != i {
            assert(es[i2].0 == h);
            assert(false);
        }
        assert forall|x: Seq<u8>|
            has_hash(es, x) && x != h implies record_at(es2, x) == record_at(es, x) by {
            let j = hash_index(es, x);
            assert(0 <= j < es.len() && es[j].0 == x);
            assert(j != i);
            assert(es2[j].0 == x);
            let j2 = hash_index(es2, x);
            assert(es2[j2].0 == x);
            if j2 != j {
                if j2 == i {
                    assert(false);
                } else {
                    assert(es[j2].0 == x);
                    assert(false);
                }
            }
        }
    } else {
        let n = es.len() as int;
        assert(es2[n].0 == h);
        assert(has_hash(es2, h));
        assert forall|i: int, j: int| 0 <= i < j < es2.len() implies (#[trigger] es2[i]).0 != (
        #[trigger] es2[j]).0 by {
            if j < n {
                assert(es[i].0 != es[j].0);
            } else {
                assert(es2[i].0 == es[i].0);
                if es[i].0 == h {
                    assert(has_hash(es, h));
                }
            }
        }
        assert forall|x: Seq<u8>| has_hash(es2, x) implies (has_hash(es, x) || x == h) by {
            let j = choose|j: int| 0 <= j < es2.len() && (#[trigger] es2[j]).0 == x;
            if j < n {
                assert(es[j].0 == x);
            }
        }
        assert forall|x: Seq<u8>| has_hash(es, x) implies has_hash(es2, x) by {
            let j = choose|j: int| 0 <= j < es.len() && (#[trigger] es[j]).0 == x;
            assert(es2[j].0 == x);
        }
        let i2 = hash_index(es2, h);
        assert(es2[i2].0 == h);
        if i2 != n {
            assert(es[i2].0 == h);
            assert(false);
        }
        assert forall|x: Seq<u8>|
            has_hash(es, x) && x != h implies record_at(es2, x) == record_at(es, x) by {
            let j = hash_index(es, x);
            assert(0 <= j < es.len() && es[j].0 == x);
            assert(es2[j].0 == x);
            let j2 = hash_index(es2, x);
            assert(es2[j2].0 == x);
            if j2 != j {
                if j2 == n {
                    assert(false);
                } else {
                    assert(es[j2].0 == x);
                    assert(false);
                }
            }
        }
    }
}

/// The content-addressed local store: a mapping from transaction hash to
/// merged four-view record, owned by one fetch-phase writer, read-only
/// during the scan phase.  Its identity `(address, from_block, to_block)`
/// forms the persistence key; caches with different identity never share
/// storage.
#[derive(Debug)]
pub struct TransactionCache {
    pub address: Address,
    pub from_block: u64,
    pub to_block: u64,
    pub entries: Vec<CacheEntry>,
}

impl View for TransactionCache {
    type V = CacheV;

    open spec fn view(&self) -> CacheV {
        CacheV {
            address: self.address@,
            from_block: self.from_block,
            to_block: self.to_block,
            entries: self.entries@.map_values(|e: CacheEntry| e@),
        }
    }
}

impl TransactionCache {
    /// The cache invariant: every hash keys at most one slot.
    pub open spec fn wf(&self) -> bool {
        unique_hashes(self@.entries)
    }

    /// A fresh, empty cache for one identity.  Loading a persisted cache
    /// for the same identity is the disk side's affair; it goes through
    /// `cache_from_bytes`.
    pub fn new(address: Address, from_block: u64, to_block: u64) -> (r: TransactionCache)
        ensures
            r@.address == address@,
            r@.from_block == from_block,
            r@.to_block == to_block,
            r@.entries =~= Seq::<(Seq<u8>, TxV)>::empty(),
            r.wf(),
    {
        let r = TransactionCache { address, from_block, to_block, entries: Vec::new() };
        proof {
            assert(r@.entries =~= Seq::<(Seq<u8>, TxV)>::empty());
        }
        r
    }

    /// Does the cache hold anything at all?
    pub fn is_populated(&self) -> (r: bool)
        ensures
            r == (self@.entries.len() > 0),
    {
        self.entries.len() > 0
    }

    /// Merge-or-create for one partial result: the slot keyed by the
    /// part's embedded hash gets the corresponding field overwritten; a
    /// missing slot is created first.  No other slot changes.
    pub fn insert(&mut self, part: TxPart)
        requires
            old(self).wf(),
        ensures
            final(self).wf(),
            final(self)@.address == old(self)@.address,
            final(self)@.from_block == old(self)@.from_block,
            final(self)@.to_block == old(self)@.to_block,
            final(self)@.entries == spec_insert(old(self)@.entries, part@),
    {
        let ghost es: Seq<(Seq<u8>, TxV)> = self@.entries;
        let ghost pv: TxPartV = part@;
        let h = part.hash_of();
        proof {
            assert(h@ == part_hash(pv));
        }
        let mut i: usize = 0;
        let n = self.entries.len();
        let mut found: bool = false;
        while i < n && !found
            invariant
                0 <= i <= n,
                n == self.entries@.len(),
                es == self.entries@.map_values(|e: CacheEntry| e@),
                es.len() == n,
                h@ == part_hash(pv),
                !found ==> forall|k: int| 0 <= k < i ==> (#[trigger] es[k]).0 != h@,
                found ==> i < n && es[i as int].0 == h@,
            decreases n - i + (if found { 0int } else { 1int }),
        {
            if self.entries[i].hash.same(&h) {
                proof {
                    assert(es[i as int].0 == self.entries@[i as int].hash@);
                }
                found = true;
            } else {
                proof {
                    assert(es[i as int].0 == self.entries@[i as int].hash@);
                }
                i = i + 1;
            }
        }
        if found {
            proof {
                assert(has_hash(es, h@));
                let i2 = hash_index(es, h@);
                assert(es[i2].0 == h@);
                if i2 != i as int {
                    assert(false);
                }
            }
            let slot = &mut self.entries[i];
            match part {
                TxPart::Transaction(t) => {
                    slot.tx.transaction = Some(t);
                },
                TxPart::Receipt(r) => {
                    slot.tx.receipt = Some(r);
                },
                TxPart::Traces(_, ts) => {
                    slot.tx.traces = Some(ts);
                },
                TxPart::BlockHeader(_, b) => {
                    slot.tx.block = Some(b);
                },
            }
            proof {
                assert(self@.entries =~= es.update(
                    i as int,
                    (h@, apply_part(es[i as int].1, pv)),
                ));
                lemma_insert_frame(es, pv);
            }
        } else {
            proof {
                assert(!has_hash(es, h@));
            }
            let mut fresh = Tx::empty();
            match part {
                TxPart::Transaction(t) => {
                    fresh.transaction = Some(t);
                },
                TxPart::Receipt(r) => {
                    fresh.receipt = Some(r);
                },
                TxPart::Traces(_, ts) => {
                    fresh.traces = Some(ts);
                },
                TxPart::BlockHeader(_, b) => {
                    fresh.block = Some(b);
                },
            }
            self.entries.push(CacheEntry { hash: h, tx: fresh });
            proof {
                assert(self@.entries =~= es.push((h@, apply_part(empty_txv(), pv))));
                lemma_insert_frame(es, pv);
            }
        }
    }

    /// The merged record a hash keys, if any slot carries it.
    pub fn get(&self, hash: &TxHash) -> (r: Option<&Tx>)
        requires
            self.wf(),
        ensures
            r is Some <==> has_hash(self@.entries, hash@),
            r is Some ==> r->Some_0@ == record_at(self@.entries, hash@),
    {
        let ghost es: Seq<(Seq<u8>, TxV)> = self@.entries;
        let mut i: usize = 0;
        let n = self.entries.len();
        while i < n
            invariant
                0 <= i <= n,
                n == self.entries@.len(),
                es == self@.entries,
                es.len() == n,
                unique_hashes(es),
                forall|k: int| 0 <= k < i ==> (#[trigger] es[k]).0 != hash@,
            decreases n - i,
        {
            if self.entries[i].hash.same(hash) {
                proof {
                    assert(es[i as int].0 == hash@);
                    assert(has_hash(es, hash@));
                    let i2 = hash_index(es, hash@);
                    assert(es[i2].0 == hash@);
                    if i2 != i as int {
                        assert(false);
                    }
                }
                return Some(&self.entries[i].tx);
            }
            proof {
                assert(es[i as int].0 == self.entries@[i as int].hash@);
            }
            i = i + 1;
        }
        proof {
            if has_hash(es, hash@) {
                let j = hash_index(es, hash@);
                assert(es[j].0 == hash@);
            }
        }
        None
    }
}

/// One slot matches a (block number, transaction index) claim when its
/// transaction view is present and sits exactly there.
pub open spec fn matches_position(e: (Seq<u8>, TxV), block_num: u64, index: u32) -> bool {
    match e.1.transaction {
        Some(t) => t.block_number == block_num && t.transaction_index == index,
        None => false,
    }
}

impl TransactionCache {
    /// Scans for the one transaction at `(block_num, index)`.  At most one
    /// slot may match, since a chain position identifies one transaction; a
    /// second match means the cache is corrupt and is reported as the
    /// invariant-violation error rather than trusted.
    pub fn lookup_by_block_and_index(&self, block_num: u64, index: u32) -> (r: Result<
        Option<TxHash>,
        CacheError,
    >)
        requires
            self.wf(),
        ensures
            match r {
                Ok(o) => match o {
                    Some(h) => exists|i: int|
                        0 <= i < self@.entries.len() && matches_position(
                            #[trigger] self@.entries[i],
                            block_num,
                            index,
                        ) && self@.entries[i].0 == h@ && (forall|j: int|
                            0 <= j < self@.entries.len() && j != i ==> !matches_position(
                                #[trigger] self@.entries[j],
                                block_num,
                                index,
                            )),
                    None => forall|i: int|
                        0 <= i < self@.entries.len() ==> !matches_position(
                            #[trigger] self@.entries[i],
                            block_num,
                            index,
                        ),
                },
                Err(e) => e == CacheError::DuplicateBlockIndex && exists|i: int, j: int|
                    0 <= i < j < self@.entries.len() && matches_position(
                        #[trigger] self@.entries[i],
                        block_num,
                        index,
                    ) && matches_position(#[trigger] self@.entries[j], block_num, index),
            },
    {
        let ghost es: Seq<(Seq<u8>, TxV)> = self@.entries;
        let n = self.entries.len();
        let mut i: usize = 0;
        let mut first: Option<usize> = None;
        while i < n
            invariant
                0 <= i <= n,
                n == self.entries@.len(),
                es == self@.entries,
                es.len() == n,
                match first {
                    Some(f) => f < i && matches_position(es[f as int], block_num, index) && forall|
                        k: int,
                    |
                        0 <= k < i && k != f ==> !matches_position(
                            #[trigger] es[k],
                            block_num,
                            index,
                        ),
                    None => forall|k: int|
                        0 <= k < i ==> !matches_position(#[trigger] es[k], block_num, index),
                },
            decreases n - i,
        {
            let e = &self.entries[i];
            let hit: bool = match &e.tx.transaction {
                Some(t) => t.block_number == block_num && t.transaction_index == index,
                None => false,
            };
            proof {
                assert(es[i as int] == self.entries@[i as int]@);
            }
            if hit {
                match first {
                    Some(_) => {
                        return Err(CacheError::DuplicateBlockIndex);
                    },
                    None => {
                        first = Some(i);
                    },
                }
            }
            i = i + 1;
        }
        match first {
            Some(f) => Ok(Some(self.entries[f].hash.duplicate())),
            None => Ok(None),
        }
    }

    /// The hash of the first slot whose transaction view sits in the given
    /// block, if any.
    pub fn tx_by_blocknum(&self, block_num: u64) -> (r: Option<TxHash>)
        ensures
            match r {
                Some(h) => exists|i: int|
                    0 <= i < self@.entries.len() && (match (#[trigger] self@.entries[i]).1
                        .transaction {
                        Some(t) => t.block_number == block_num,
                        None => false,
                    }) && self@.entries[i].0 == h@,
                None => forall|i: int|
                    0 <= i < self@.entries.len() ==> (match (#[trigger] self@.entries[i]).1
                        .transaction {
                        Some(t) => t.block_number != block_num,
                        None => true,
                    }),
            },
    {
        let ghost es: Seq<(Seq<u8>, TxV)> = self@.entries;
        let n = self.entries.len();
        let mut i: usize = 0;
        while i < n
            invariant
                0 <= i <= n,
                n == self.entries@.len(),
                es == self@.entries,
                es.len() == n,
                forall|k: int|
                    0 <= k < i ==> (match (#[trigger] es[k]).1.transaction {
                        Some(t) => t.block_number != block_num,
                        None => true,
                    }),
            decreases n - i,
        {
            let e = &self.entries[i];
            let hit: bool = match &e.tx.transaction {
                Some(t) => t.block_number == block_num,
                None => false,
            };
            proof {
                assert(es[i as int] == self.entries@[i as int]@);
            }
            if hit {
                return Some(e.hash.duplicate());
            }
            i = i + 1;
        }
        None
    }
}

/// Folding a whole run of partial results into the cache, oldest first.
pub open spec fn apply_parts(es: Seq<(Seq<u8>, TxV)>, parts: Seq<TxPartV>) -> Seq<(Seq<u8>, TxV)>
    decreases parts.len(),
{
    if parts.len() == 0 {
        es
    } else {
        spec_insert(apply_parts(es, parts.drop_last()), parts.last())
    }
}

/// Merge idempotence: delivering the very same partial result twice in a
/// row leaves the cache exactly as one delivery does.
pub proof fn lemma_insert_idempotent(es: Seq<(Seq<u8>, TxV)>, p: TxPartV)
    requires
        unique_hashes(es),
    ensures
        spec_insert(spec_insert(es, p), p) == spec_insert(es, p),
{
    let h = part_hash(p);
    let es1 = spec_insert(es, p);
    lemma_insert_frame(es, p);
    lemma_insert_frame(es1, p);
    let i1 = hash_index(es1, h);
    assert(es1[i1].0 == h);
    let es2 = spec_insert(es1, p);
    assert(es2 == es1.update(i1, (h, apply_part(es1[i1].1, p))));
    assert(es1[i1].1 == record_at(es1, h));
    assert(record_at(es1, h) == apply_part(
        if has_hash(es, h) {
            record_at(es, h)
        } else {
            empty_txv()
        },
        p,
    ));
    assert(apply_part(apply_part(record_at(es1, h), p), p) == apply_part(record_at(es1, h), p));
    assert(apply_part(es1[i1].1, p) == es1[i1].1);
    assert(es2 =~= es1);
}

/// Setting one field touches exactly that field's presence.
proof fn lemma_apply_field(t: TxV, p: TxPartV, k: PartKind)
    ensures
        field_present(apply_part(t, p), k) == (kind_of(p) == k || field_present(t, k)),
{
    match p {
        TxPartV::Transaction(_) => {},
        TxPartV::Receipt(_) => {},
        TxPartV::Traces(_, _) => {},
        TxPartV::BlockHeader(_, _) => {},
    }
}

/// The empty record has no view present.
proof fn lemma_empty_fields(k: PartKind)
    ensures
        !field_present(empty_txv(), k),
{
    match k {
        PartKind::Transaction => {},
        PartKind::Receipt => {},
        PartKind::Traces => {},
        PartKind::BlockHeader => {},
    }
}

/// Merge completeness, in its general form: after folding in any run of
/// partial results all keyed by one hash, that hash's slot exists, and a
/// view of some kind is present in it exactly when it was present before
/// or some delivered part carries that kind — whatever the interleaving.
pub proof fn lemma_merge_fields(es: Seq<(Seq<u8>, TxV)>, parts: Seq<TxPartV>, h: Seq<u8>)
    requires
        unique_hashes(es),
        parts.len() > 0,
        forall|j: int| 0 <= j < parts.len() ==> part_hash(#[trigger] parts[j]) == h,
    ensures
        unique_hashes(apply_parts(es, parts)),
        has_hash(apply_parts(es, parts), h),
        forall|k: PartKind|
            #[trigger] field_present(record_at(apply_parts(es, parts), h), k) <==> ((has_hash(
                es,
                h,
            ) && field_present(record_at(es, h), k)) || exists|j: int|
                0 <= j < parts.len() && kind_of(#[trigger] parts[j]) == k),
    decreases parts.len(),
{
    let last = parts.last();
    let rest = parts.drop_last();
    let before = apply_parts(es, rest);
    let after = apply_parts(es, parts);
    if parts.len() == 1 {
        assert(before == es);
        lemma_insert_frame(es, last);
    } else {
        lemma_merge_fields(es, rest, h);
        lemma_insert_frame(before, last);
    }
    let old_rec = if has_hash(before, h) {
        record_at(before, h)
    } else {
        empty_txv()
    };
    assert(record_at(after, h) == apply_part(old_rec, last));
    assert forall|k: PartKind|
        #[trigger] field_present(record_at(after, h), k) <==> ((has_hash(es, h) && field_present(
            record_at(es, h),
            k,
        )) || exists|j: int| 0 <= j < parts.len() && kind_of(#[trigger] parts[j]) == k) by {
        lemma_apply_field(old_rec, last, k);
        lemma_empty_fields(k);
        // what "present before the last part" means, in terms of the inputs
        if parts.len() == 1 {
            assert(field_present(old_rec, k) <==> (has_hash(es, h) && field_present(
                record_at(es, h),
                k,
            )));
        }
        // a kind among the earlier parts is a kind among all parts
        if exists|j: int| 0 <= j < rest.len() && kind_of(#[trigger] rest[j]) == k {
            let j = choose|j: int| 0 <= j < rest.len() && kind_of(#[trigger] rest[j]) == k;
            assert(rest[j] == parts[j]);
            assert(kind_of(parts[j]) == k);
        }
        // a kind among all parts is the last part's kind or an earlier one
        if exists|j: int| 0 <= j < parts.len() && kind_of(#[trigger] parts[j]) == k {
            let j = choose|j: int| 0 <= j < parts.len() && kind_of(#[trigger] parts[j]) == k;
            if j < parts.len() - 1 {
                assert(rest[j] == parts[j]);
                assert(kind_of(rest[j]) == k);
            } else {
                assert(parts[j] == last);
            }
        }
    }
}

/// Merge completeness as the design states it: delivering a transaction, a
/// receipt, a trace list and a block header for one hash, in any order,
/// leaves that hash's record with all four views present.
pub proof fn lemma_merge_completeness(es: Seq<(Seq<u8>, TxV)>, parts: Seq<TxPartV>, h: Seq<u8>)
    requires
        unique_hashes(es),
        forall|j: int| 0 <= j < parts.len() ==> part_hash(#[trigger] parts[j]) == h,
        exists|j: int| 0 <= j < parts.len() && kind_of(#[trigger] parts[j]) == PartKind::Transaction,
        exists|j: int| 0 <= j < parts.len() && kind_of(#[trigger] parts[j]) == PartKind::Receipt,
        exists|j: int| 0 <= j < parts.len() && kind_of(#[trigger] parts[j]) == PartKind::Traces,
        exists|j: int| 0 <= j < parts.len() && kind_of(#[trigger] parts[j]) == PartKind::BlockHeader,
    ensures
        has_hash(apply_parts(es, parts), h),
        record_at(apply_parts(es, parts), h).transaction is Some,
        record_at(apply_parts(es, parts), h).receipt is Some,
        record_at(apply_parts(es, parts), h).traces is Some,
        record_at(apply_parts(es, parts), h).block is Some,
{
    let jt = choose|j: int|
        0 <= j < parts.len() && kind_of(#[trigger] parts[j]) == PartKind::Transaction;
    assert(parts.len() > 0);
    lemma_merge_fields(es, parts, h);
    let merged = record_at(apply_parts(es, parts), h);
    assert(field_present(merged, PartKind::Transaction) <==> ((has_hash(es, h) && field_present(
        record_at(es, h),
        PartKind::Transaction,
    )) || exists|j: int|
        0 <= j < parts.len() && kind_of(#[trigger] parts[j]) == PartKind::Transaction));
    assert(field_present(merged, PartKind::Receipt) <==> ((has_hash(es, h) && field_present(
        record_at(es, h),
        PartKind::Receipt,
    )) || exists|j: int|
        0 <= j < parts.len() && kind_of(#[trigger] parts[j]) == PartKind::Receipt));
    assert(field_present(merged, PartKind::Traces) <==> ((has_hash(es, h) && field_present(
        record_at(es, h),
        PartKind::Traces,
    )) || exists|j: int|
        0 <= j < parts.len() && kind_of(#[trigger] parts[j]) == PartKind::Traces));
    assert(field_present(merged, PartKind::BlockHeader) <==> ((has_hash(es, h) && field_present(
        record_at(es, h),
        PartKind::BlockHeader,
    )) || exists|j: int|
        0 <= j < parts.len() && kind_of(#[trigger] parts[j]) == PartKind::BlockHeader));
    assert(field_present(merged, PartKind::Transaction));
    assert(field_present(merged, PartKind::Receipt));
    assert(field_present(merged, PartKind::Traces));
    assert(field_present(merged, PartKind::BlockHeader));
}

} // verus!
