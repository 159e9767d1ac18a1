use vstd::prelude::*;

use crate::cache::{hash_index, matches_position, record_at, TransactionCache};
use crate::errors::{CacheError, ReconciliationError, TransactionValidatorError, TransportError};
use crate::matcher::{derived_locations, label_views, locations_of};
use crate::hex::hex_chars;
use crate::numtext::{all_dec, dec_val, parse_u32, parse_u64, spec_u64_dec, u64_to_dec};
use crate::records::{Address, TxHash, TxV};

verus! {

/// Ghost image of one claimed CSV row.
pub ghost struct TxEntryV {
    pub block_num: u64,
    pub transaction_index: u32,
    pub location: Seq<char>,
}

/// One row of the claimed-transaction CSV: "the address appears at this
/// location of the transaction at (block, index)".  Loaded once, never
/// rewritten.
#[derive(Debug)]
pub struct TxEntry {
    pub block_num: u64,
    pub transaction_index: u32,
    pub location: String,
}

impl View for TxEntry {
    type V = TxEntryV;

    open spec fn view(&self) -> TxEntryV {
        TxEntryV {
            block_num: self.block_num,
            transaction_index: self.transaction_index,
            location: self.location@,
        }
    }
}

impl TxEntry {
    /// An owned copy of this row.
    pub fn duplicate(&self) -> (r: TxEntry)
        ensures
            r@ == self@,
    {
        TxEntry {
            block_num: self.block_num,
            transaction_index: self.transaction_index,
            location: self.location.clone(),
        }
    }
}

/// The report line for one claimed row.
pub open spec fn spec_entry_text(e: TxEntryV) -> Seq<char> {
    "block: "@ + spec_u64_dec(e.block_num as nat) + ", index: "@ + spec_u64_dec(
        e.transaction_index as nat,
    ) + ", location: "@ + e.location
}

impl TxEntry {
    /// Renders this row for a report.
    pub fn describe(&self) -> (r: String)
        ensures
            r@ == spec_entry_text(self@),
    {
        let mut s = String::from_str("block: ");
        let bn = u64_to_dec(self.block_num);
        s.append(bn.as_str());
        s.append(", index: ");
        let ix = u64_to_dec(self.transaction_index as u64);
        s.append(ix.as_str());
        s.append(", location: ");
        s.append(self.location.as_str());
        proof {
            assert(s@ =~= spec_entry_text(self@));
        }
        s
    }
}

/// Ghost image of one reported discrepancy.
pub ghost enum InvalidEntryV {
    Missing(Seq<u8>),
    Incorrect(TxEntryV, Option<Seq<u8>>),
    Unchecked(TxEntryV, Seq<char>),
}

/// The report text of a transport failure.
pub open spec fn spec_transport_text(t: TransportError) -> Seq<char> {
    match t {
        TransportError::Failed(m) => m@,
        TransportError::BatchLengthMismatch => "the batch answer count did not match"@,
    }
}

/// One entry of the scan's result stream.  `Missing` names a transaction
/// that occurs at a derived location no CSV row claims; `Incorrect` names
/// a CSV row that does not correspond to a transaction at its exact
/// position — with the hash attached when a live lookup found a
/// transaction there after all (so only the location label is wrong), and
/// nothing when the chain confirmed the row is entirely spurious;
/// `Unchecked` names a row whose live lookup failed at the transport, so
/// nothing could be confirmed either way — reported inline, never fatal
/// to the scan.
#[derive(Debug)]
pub enum InvalidEntry {
    Missing(TxHash),
    Incorrect(TxEntry, Option<TxHash>),
    Unchecked(TxEntry, TransportError),
}

impl View for InvalidEntry {
    type V = InvalidEntryV;

    open spec fn view(&self) -> InvalidEntryV {
        match self {
            InvalidEntry::Missing(h) => InvalidEntryV::Missing(h@),
            InvalidEntry::Incorrect(e, h) => InvalidEntryV::Incorrect(
                e@,
                match h {
                    Some(x) => Some(x@),
                    None => None,
                },
            ),
            InvalidEntry::Unchecked(e, t) => InvalidEntryV::Unchecked(e@, spec_transport_text(*t)),
        }
    }
}

/// The report line for one discrepancy.
pub open spec fn spec_finding_text(f: InvalidEntryV) -> Seq<char> {
    match f {
        InvalidEntryV::Missing(h) => "Missing Transaction "@ + hex_chars(h),
        InvalidEntryV::Incorrect(e, oh) => match oh {
            Some(h) => "Incorrect Entry at "@ + spec_entry_text(e) + " with hash: "@ + hex_chars(
                h,
            ),
            None => "Incorrect Entry at "@ + spec_entry_text(e)
                + ", Transaction does not exist"@,
        },
        InvalidEntryV::Unchecked(e, t) => "Could not check Entry at "@ + spec_entry_text(e)
            + ": "@ + t,
    }
}

impl InvalidEntry {
    /// Renders this discrepancy for a report.
    pub fn describe(&self) -> (r: String)
        ensures
            r@ == spec_finding_text(self@),
    {
        match self {
            InvalidEntry::Missing(h) => {
                let mut s = String::from_str("Missing Transaction ");
                let hx = crate::hex::encode_bare(h.bytes.as_slice());
                s.append(hx.as_str());
                proof {
                    assert(s@ =~= spec_finding_text(self@));
                }
                s
            },
            InvalidEntry::Incorrect(e, oh) => {
                let mut s = String::from_str("Incorrect Entry at ");
                let et = e.describe();
                s.append(et.as_str());
                match oh {
                    Some(h) => {
                        s.append(" with hash: ");
                        let hx = crate::hex::encode_bare(h.bytes.as_slice());
                        s.append(hx.as_str());
                    },
                    None => {
                        s.append(", Transaction does not exist");
                    },
                }
                proof {
                    assert(s@ =~= spec_finding_text(self@));
                }
                s
            },
            InvalidEntry::Unchecked(e, t) => {
                let mut s = String::from_str("Could not check Entry at ");
                let et = e.describe();
                s.append(et.as_str());
                s.append(": ");
                match t {
                    TransportError::Failed(m) => {
                        s.append(m.as_str());
                    },
                    TransportError::BatchLengthMismatch => {
                        s.append("the batch answer count did not match");
                    },
                }
                proof {
                    assert(s@ =~= spec_finding_text(self@));
                }
                s
            },
        }
    }
}

/// Splitting text on a separator character.  One more separator always
/// means one more field, so the result is never empty and splitting ""
/// gives one empty field.
pub open spec fn split_on(s: Seq<char>, sep: char) -> Seq<Seq<char>>
    decreases s.len(),
{
    if s.len() == 0 {
        seq![Seq::<char>::empty()]
    } else {
        let rest = split_on(s.drop_last(), sep);
        if s.last() == sep {
            rest + seq![Seq::<char>::empty()]
        } else {
            rest.update(rest.len() - 1, rest.last().push(s.last()))
        }
    }
}

/// A split is never empty.
pub proof fn lemma_split_nonempty(s: Seq<char>, sep: char)
    ensures
        split_on(s, sep).len() >= 1,
    decreases s.len(),
{
    if s.len() > 0 {
        lemma_split_nonempty(s.drop_last(), sep);
    }
}

/// Splits text on a separator.
pub fn split_str(text: &str, sep: char) -> (r: Vec<String>)
    ensures
        r@.map_values(|f: String| f@) == split_on(text@, sep),
{
    let mut done: Vec<String> = Vec::new();
    let mut cur: String = String::new();
    let n = text.unicode_len();
    let mut i: usize = 0;
    while i < n
        invariant
            0 <= i <= n,
            n == text@.len(),
            done@.map_values(|f: String| f@).push(cur@) =~= split_on(text@.take(i as int), sep),
        decreases n - i,
    {
        let c = text.get_char(i);
        proof {
            assert(text@.take(i + 1).drop_last() =~= text@.take(i as int));
            assert(text@.take(i + 1).last() == text@[i as int]);
            lemma_split_nonempty(text@.take(i as int), sep);
        }
        if c == sep {
            done.push(cur);
            cur = String::new();
            proof {
                assert(done@.map_values(|f: String| f@).push(cur@) =~= split_on(
                    text@.take(i + 1),
                    sep,
                ));
            }
        } else {
            cur.push(c);
            proof {
                let prev = split_on(text@.take(i as int), sep);
                assert(done@.map_values(|f: String| f@).push(cur@) =~= prev.update(
                    prev.len() - 1,
                    prev.last().push(text@[i as int]),
                ));
            }
        }
        i = i + 1;
    }
    done.push(cur);
    proof {
        assert(text@.take(n as int) =~= text@);
        assert(done@.map_values(|f: String| f@) =~= split_on(text@, sep));
    }
    done
}

/// Can this digit run be read as a `u64`?
pub open spec fn dec_fits_u64(s: Seq<char>) -> bool {
    s.len() > 0 && all_dec(s) && dec_val(s) <= u64::MAX
}

/// Can this digit run be read as a `u32`?
pub open spec fn dec_fits_u32(s: Seq<char>) -> bool {
    s.len() > 0 && all_dec(s) && dec_val(s) <= u32::MAX
}

/// What one data line of the CSV means: exactly three fields, the first
/// two numeric in range; the shape error is reported before the number
/// error.
pub open spec fn spec_row(line: Seq<char>) -> Result<TxEntryV, ReconciliationError> {
    let fs = split_on(line, ',');
    if fs.len() != 3 {
        Err(ReconciliationError::BadRowShape)
    } else if !(dec_fits_u64(fs[0]) && dec_fits_u32(fs[1])) {
        Err(ReconciliationError::BadNumber)
    } else {
        Ok(
            TxEntryV {
                block_num: dec_val(fs[0]) as u64,
                transaction_index: dec_val(fs[1]) as u32,
                location: fs[2],
            },
        )
    }
}

/// The rows of the data lines, in order; blank lines are skipped; the
/// first bad line decides the error.
pub open spec fn spec_rows(lines: Seq<Seq<char>>) -> Result<Seq<TxEntryV>, ReconciliationError>
    decreases lines.len(),
{
    if lines.len() == 0 {
        Ok(Seq::<TxEntryV>::empty())
    } else {
        match spec_rows(lines.drop_last()) {
            Err(e) => Err(e),
            Ok(rs) => {
                let ln = lines.last();
                if ln.len() == 0 {
                    Ok(rs)
                } else {
                    match spec_row(ln) {
                        Err(e) => Err(e),
                        Ok(r) => Ok(rs.push(r)),
                    }
                }
            },
        }
    }
}

/// What a whole CSV text means: a fixed header line, then one claimed
/// occurrence per line.
pub open spec fn spec_parse_csv(s: Seq<char>) -> Result<Seq<TxEntryV>, ReconciliationError> {
    let lines = split_on(s, '\n');
    if split_on(lines[0], ',') != seq!["blockNum"@, "transactionIndex"@, "location"@] {
        Err(ReconciliationError::BadHeader)
    } else {
        spec_rows(lines.drop_first())
    }
}

/// Reads one data line.
fn parse_row(line: &String) -> (r: Result<TxEntry, ReconciliationError>)
    ensures
        match r {
            Ok(e) => spec_row(line@) == Ok::<TxEntryV, ReconciliationError>(e@),
            Err(e) => spec_row(line@) == Err::<TxEntryV, ReconciliationError>(e),
        },
{
    let fields = split_str(line.as_str(), ',');
    if fields.len() != 3 {
        return Err(ReconciliationError::BadRowShape);
    }
    let bn = match parse_u64(fields[0].as_str()) {
        Some(v) => v,
        None => {
            return Err(ReconciliationError::BadNumber);
        },
    };
    let ix = match parse_u32(fields[1].as_str()) {
        Some(v) => v,
        None => {
            return Err(ReconciliationError::BadNumber);
        },
    };
    let mut fs = fields;
    let location = fs.pop().unwrap();
    proof {
        let lfs = split_on(line@, ',');
        assert(lfs[2] == location@);
        assert(lfs[0] == fields@.map_values(|f: String| f@)[0]);
        assert(lfs[1] == fields@.map_values(|f: String| f@)[1]);
    }
    Ok(TxEntry { block_num: bn, transaction_index: ix, location })
}

/// Reads a whole claimed-transaction CSV: the `blockNum`,
/// `transactionIndex`, `location` header line, then one claimed occurrence
/// per line; blank lines are skipped; the first bad line decides the
/// error.
pub fn parse_csv(text: &str) -> (r: Result<Vec<TxEntry>, ReconciliationError>)
    ensures
        match r {
            Ok(v) => spec_parse_csv(text@) == Ok::<Seq<TxEntryV>, ReconciliationError>(
                v@.map_values(|e: TxEntry| e@),
            ),
            Err(e) => spec_parse_csv(text@) == Err::<Seq<TxEntryV>, ReconciliationError>(e),
        },
{
    let lines = split_str(text, '\n');
    proof {
        lemma_split_nonempty(text@, '\n');
    }
    let header = split_str(lines[0].as_str(), ',');
    let ghost hv: Seq<Seq<char>> = header@.map_values(|f: String| f@);
    let mut header_ok: bool = header.len() == 3;
    if header_ok {
        let w0 = String::from_str("blockNum");
        let w1 = String::from_str("transactionIndex");
        let w2 = String::from_str("location");
        header_ok = header[0].eq(&w0) && header[1].eq(&w1) && header[2].eq(&w2);
    }
    proof {
        if header_ok {
            assert(hv =~= seq!["blockNum"@, "transactionIndex"@, "location"@]);
        } else {
            if hv.len() == 3 {
                assert(hv != seq!["blockNum"@, "transactionIndex"@, "location"@]);
            } else {
                assert(hv != seq!["blockNum"@, "transactionIndex"@, "location"@]);
            }
        }
    }
    if !header_ok {
        return Err(ReconciliationError::BadHeader);
    }
    let ghost lv: Seq<Seq<char>> = lines@.map_values(|f: String| f@);
    proof {
        assert(hv =~= split_on(lv[0], ','));
        assert(lv.subrange(1, 1) =~= Seq::<Seq<char>>::empty());
    }
    let mut out: Vec<TxEntry> = Vec::new();
    let mut i: usize = 1;
    proof {
        assert(out@.map_values(|e: TxEntry| e@) =~= Seq::<TxEntryV>::empty());
    }
    while i < lines.len()
        invariant
            1 <= i <= lines@.len(),
            lv == lines@.map_values(|f: String| f@),
            lv.len() == lines@.len(),
            lv == split_on(text@, '\n'),
            split_on(lv[0], ',') == seq!["blockNum"@, "transactionIndex"@, "location"@],
            spec_rows(lv.subrange(1, i as int)) == Ok::<Seq<TxEntryV>, ReconciliationError>(
                out@.map_values(|e: TxEntry| e@),
            ),
        decreases lines@.len() - i,
    {
        let ghost prior: Seq<TxEntryV> = out@.map_values(|e: TxEntry| e@);
        proof {
            assert(lv.subrange(1, i + 1).drop_last() =~= lv.subrange(1, i as int));
            assert(lv.subrange(1, i + 1).last() == lv[i as int]);
            assert(lv[i as int] == lines@[i as int]@);
        }
        let line = &lines[i];
        if line.as_str().unicode_len() > 0 {
            match parse_row(line) {
                Ok(e) => {
                    let ghost ev: TxEntryV = e@;
                    out.push(e);
                    proof {
                        assert(out@.map_values(|e2: TxEntry| e2@) =~= prior.push(ev));
                        assert(spec_rows(lv.subrange(1, i + 1)) == Ok::<
                            Seq<TxEntryV>,
                            ReconciliationError,
                        >(prior.push(ev)));
                    }
                },
                Err(er) => {
                    proof {
                        assert(spec_rows(lv.subrange(1, i + 1)) == Err::<
                            Seq<TxEntryV>,
                            ReconciliationError,
                        >(er));
                        lemma_rows_err_extends(lv, i + 1, er);
                        assert(spec_parse_csv(text@) == Err::<Seq<TxEntryV>, ReconciliationError>(
                            er,
                        ));
                    }
                    return Err(er);
                },
            }
        } else {
            proof {
                assert(lv[i as int].len() == 0);
                assert(spec_rows(lv.subrange(1, i + 1)) == Ok::<
                    Seq<TxEntryV>,
                    ReconciliationError,
                >(prior));
            }
        }
        i = i + 1;
    }
    proof {
        assert(lv.subrange(1, lv.len() as int) =~= lv.drop_first());
    }
    Ok(out)
}

/// Once a prefix of the lines fails, the whole run fails the same way.
proof fn lemma_rows_err_extends(lv: Seq<Seq<char>>, k: int, e: ReconciliationError)
    requires
        1 <= k <= lv.len(),
        spec_rows(lv.subrange(1, k)) == Err::<Seq<TxEntryV>, ReconciliationError>(e),
    ensures
        spec_rows(lv.drop_first()) == Err::<Seq<TxEntryV>, ReconciliationError>(e),
    decreases lv.len() - k,
{
    if k == lv.len() {
        assert(lv.subrange(1, k) =~= lv.drop_first());
    } else {
        assert(lv.subrange(1, k + 1).drop_last() =~= lv.subrange(1, k));
        lemma_rows_err_extends(lv, k + 1, e);
    }
}


/// Two distinct slots both match the position: cache corruption.
pub open spec fn position_dup(es: Seq<(Seq<u8>, TxV)>, bn: u64, ix: u32) -> bool {
    exists|i: int, j: int|
        0 <= i < j < es.len() && matches_position(#[trigger] es[i], bn, ix) && matches_position(
            #[trigger] es[j],
            bn,
            ix,
        )
}

/// Some slot matches the position.
pub open spec fn position_hit(es: Seq<(Seq<u8>, TxV)>, bn: u64, ix: u32) -> bool {
    exists|i: int| 0 <= i < es.len() && matches_position(#[trigger] es[i], bn, ix)
}

/// The slot matching the position; meaningful when `position_hit` holds,
/// unique when `position_dup` does not.
pub open spec fn position_index(es: Seq<(Seq<u8>, TxV)>, bn: u64, ix: u32) -> int {
    choose|i: int| 0 <= i < es.len() && matches_position(#[trigger] es[i], bn, ix)
}

/// Every location the CSV claims for the given position, across all its
/// rows, in row order.
pub open spec fn claimed_locations(csv: Seq<TxEntryV>, bn: u64, ix: u32) -> Seq<Seq<char>>
    decreases csv.len(),
{
    if csv.len() == 0 {
        Seq::<Seq<char>>::empty()
    } else {
        claimed_locations(csv.drop_last(), bn, ix) + (if csv.last().block_num == bn
            && csv.last().transaction_index == ix {
            seq![csv.last().location]
        } else {
            Seq::<Seq<char>>::empty()
        })
    }
}

/// One `Missing` report for every derived location the CSV does not claim.
pub open spec fn missing_list(derived: Seq<Seq<char>>, claimed: Seq<Seq<char>>, h: Seq<u8>) -> Seq<
    InvalidEntryV,
>
    decreases derived.len(),
{
    if derived.len() == 0 {
        Seq::<InvalidEntryV>::empty()
    } else {
        missing_list(derived.drop_last(), claimed, h) + (if !claimed.contains(derived.last()) {
            seq![InvalidEntryV::Missing(h)]
        } else {
            Seq::<InvalidEntryV>::empty()
        })
    }
}

/// Did an earlier row already claim the same position as row `k`?
pub open spec fn seen_before(csv: Seq<TxEntryV>, k: int) -> bool {
    exists|m: int|
        0 <= m < k && (#[trigger] csv[m]).block_num == csv[k].block_num
            && csv[m].transaction_index == csv[k].transaction_index
}

/// What scanning the first `k` claimed rows against the cache produces:
/// rows at a position the cache does not hold await a live lookup; rows
/// whose location is not among the derived locations are reported as
/// incorrect with the cached hash; and, once per position, every derived
/// location no row claims is reported as missing.  A position matched by
/// two cache slots is the fatal invariant violation.
pub open spec fn spec_scan_prefix(
    csv: Seq<TxEntryV>,
    es: Seq<(Seq<u8>, TxV)>,
    addr: Seq<u8>,
    k: int,
) -> Result<(Seq<InvalidEntryV>, Seq<TxEntryV>), CacheError>
    decreases k,
{
    if k <= 0 {
        Ok((Seq::<InvalidEntryV>::empty(), Seq::<TxEntryV>::empty()))
    } else {
        match spec_scan_prefix(csv, es, addr, k - 1) {
            Err(e) => Err(e),
            Ok((found, pending)) => {
                let e = csv[k - 1];
                if position_dup(es, e.block_num, e.transaction_index) {
                    Err(CacheError::DuplicateBlockIndex)
                } else if !position_hit(es, e.block_num, e.transaction_index) {
                    Ok((found, pending.push(e)))
                } else {
                    let i = position_index(es, e.block_num, e.transaction_index);
                    let h = es[i].0;
                    let derived = derived_locations(es[i].1, addr);
                    let claimed = claimed_locations(csv, e.block_num, e.transaction_index);
                    let f1 = if !derived.contains(e.location) {
                        found.push(InvalidEntryV::Incorrect(e, Some(h)))
                    } else {
                        found
                    };
                    let f2 = if !seen_before(csv, k - 1) {
                        f1 + missing_list(derived, claimed, h)
                    } else {
                        f1
                    };
                    Ok((f2, pending))
                }
            },
        }
    }
}

/// What scanning the whole CSV produces.
pub open spec fn spec_scan(csv: Seq<TxEntryV>, es: Seq<(Seq<u8>, TxV)>, addr: Seq<u8>) -> Result<
    (Seq<InvalidEntryV>, Seq<TxEntryV>),
    CacheError,
> {
    spec_scan_prefix(csv, es, addr, csv.len() as int)
}

/// Is this label among the given ones?
fn contains_label(v: &Vec<String>, s: &String) -> (r: bool)
    ensures
        r == label_views(v@).contains(s@),
{
    let mut i: usize = 0;
    let n = v.len();
    while i < n
        invariant
            0 <= i <= n,
            n == v@.len(),
            forall|k: int| 0 <= k < i ==> label_views(v@)[k] != s@,
        decreases n - i,
    {
        if v[i].eq(s) {
            proof {
                assert(label_views(v@)[i as int] == s@);
            }
            return true;
        }
        proof {
            assert(label_views(v@)[i as int] == v@[i as int]@);
        }
        i = i + 1;
    }
    proof {
        if label_views(v@).contains(s@) {
            let j = choose|j: int| 0 <= j < label_views(v@).len() && label_views(v@)[j] == s@;
            assert(label_views(v@)[j] != s@);
        }
    }
    false
}

/// Collects every location the CSV claims for one position.
fn claimed_of(csv: &Vec<TxEntry>, bn: u64, ix: u32) -> (r: Vec<String>)
    ensures
        label_views(r@) == claimed_locations(csv@.map_values(|e: TxEntry| e@), bn, ix),
{
    let ghost cv: Seq<TxEntryV> = csv@.map_values(|e: TxEntry| e@);
    let mut out: Vec<String> = Vec::new();
    proof {
        assert(label_views(out@) =~= claimed_locations(cv.take(0), bn, ix));
    }
    let mut i: usize = 0;
    let n = csv.len();
    while i < n
        invariant
            0 <= i <= n,
            n == csv@.len(),
            cv == csv@.map_values(|e: TxEntry| e@),
            cv.len() == n,
            label_views(out@) == claimed_locations(cv.take(i as int), bn, ix),
        decreases n - i,
    {
        let e = &csv[i];
        proof {
            assert(cv.take(i + 1).drop_last() =~= cv.take(i as int));
            assert(cv.take(i + 1).last() == cv[i as int]);
            assert(cv[i as int] == csv@[i as int]@);
        }
        if e.block_num == bn && e.transaction_index == ix {
            out.push(e.location.clone());
        }
        proof {
            assert(label_views(out@) =~= claimed_locations(cv.take(i + 1), bn, ix));
        }
        i = i + 1;
    }
    proof {
        assert(cv.take(n as int) =~= cv);
    }
    out
}

/// Did an earlier row claim the same position as row `k`?
fn seen_before_at(csv: &Vec<TxEntry>, k: usize) -> (r: bool)
    requires
        k < csv@.len(),
    ensures
        r == seen_before(csv@.map_values(|e: TxEntry| e@), k as int),
{
    let ghost cv: Seq<TxEntryV> = csv@.map_values(|e: TxEntry| e@);
    let bn = csv[k].block_num;
    let ix = csv[k].transaction_index;
    let mut m: usize = 0;
    while m < k
        invariant
            0 <= m <= k < csv@.len(),
            cv == csv@.map_values(|e: TxEntry| e@),
            cv.len() == csv@.len(),
            bn == cv[k as int].block_num,
            ix == cv[k as int].transaction_index,
            forall|j: int|
                0 <= j < m ==> !((#[trigger] cv[j]).block_num == bn && cv[j].transaction_index
                    == ix),
        decreases k - m,
    {
        let e = &csv[m];
        proof {
            assert(cv[m as int] == csv@[m as int]@);
        }
        if e.block_num == bn && e.transaction_index == ix {
            return true;
        }
        m = m + 1;
    }
    false
}

/// The view of a findings vector.
pub open spec fn finding_views(v: Seq<InvalidEntry>) -> Seq<InvalidEntryV> {
    v.map_values(|f: InvalidEntry| f@)
}

/// The view of an entry vector.
pub open spec fn entry_views(v: Seq<TxEntry>) -> Seq<TxEntryV> {
    v.map_values(|e: TxEntry| e@)
}

/// The audit driver: the claimed CSV rows, the local cache built during
/// the fetch phase, and the identity under audit.
#[derive(Debug)]
pub struct TransactionValidator {
    pub csv: Vec<TxEntry>,
    pub cache: TransactionCache,
    pub to_block: u64,
    pub addr: Address,
}

impl TransactionValidator {
    /// A usable validator rests on a cache whose hashes are unique.
    pub open spec fn wf(&self) -> bool {
        self.cache.wf()
    }

    /// Builds a validator from the CSV text and an already-populated (or
    /// freshly created) cache.  Fails exactly when the CSV is malformed.
    pub fn new(csv_text: &str, cache: TransactionCache, to_block: u64, addr: Address) -> (r:
        Result<TransactionValidator, TransactionValidatorError>)
        requires
            cache.wf(),
        ensures
            match r {
                Ok(v) => {
                    &&& spec_parse_csv(csv_text@) == Ok::<Seq<TxEntryV>, ReconciliationError>(
                        entry_views(v.csv@),
                    )
                    &&& v.cache@ == cache@
                    &&& v.to_block == to_block
                    &&& v.addr@ == addr@
                    &&& v.wf()
                },
                Err(e) => match e {
                    TransactionValidatorError::Csv(ce) => spec_parse_csv(csv_text@) == Err::<
                        Seq<TxEntryV>,
                        ReconciliationError,
                    >(ce),
                    _ => false,
                },
            },
    {
        match parse_csv(csv_text) {
            Ok(rows) => Ok(TransactionValidator { csv: rows, cache, to_block, addr }),
            Err(e) => Err(TransactionValidatorError::Csv(e)),
        }
    }

    /// The scan phase, over the read-only cache: reports discrepancies for
    /// rows the cache can judge, and hands back the rows that need a live
    /// lookup; resolving those is `resolve_pending`'s affair once the
    /// transport has answered.
    pub fn scan(&self) -> (r: Result<(Vec<InvalidEntry>, Vec<TxEntry>), TransactionValidatorError>)
        requires
            self.wf(),
        ensures
            match r {
                Ok((found, pending)) => spec_scan(
                    entry_views(self.csv@),
                    self.cache@.entries,
                    self.addr@,
                ) == Ok::<(Seq<InvalidEntryV>, Seq<TxEntryV>), CacheError>(
                    (finding_views(found@), entry_views(pending@)),
                ),
                Err(e) => match e {
                    TransactionValidatorError::Cache(ce) => spec_scan(
                        entry_views(self.csv@),
                        self.cache@.entries,
                        self.addr@,
                    ) == Err::<(Seq<InvalidEntryV>, Seq<TxEntryV>), CacheError>(ce),
                    _ => false,
                },
            },
    {
        let ghost cv: Seq<TxEntryV> = entry_views(self.csv@);
        let ghost es: Seq<(Seq<u8>, TxV)> = self.cache@.entries;
        let mut found: Vec<InvalidEntry> = Vec::new();
        let mut pending: Vec<TxEntry> = Vec::new();
        proof {
            assert(finding_views(found@) =~= Seq::<InvalidEntryV>::empty());
            assert(entry_views(pending@) =~= Seq::<TxEntryV>::empty());
        }
        let mut k: usize = 0;
        let n = self.csv.len();
        while k < n
            invariant
                0 <= k <= n,
                n == self.csv@.len(),
                cv == entry_views(self.csv@),
                cv.len() == n,
                es == self.cache@.entries,
                self.wf(),
                spec_scan_prefix(cv, es, self.addr@, k as int) == Ok::<
                    (Seq<InvalidEntryV>, Seq<TxEntryV>),
                    CacheError,
                >((finding_views(found@), entry_views(pending@))),
            decreases n - k,
        {
            let ghost f0: Seq<InvalidEntryV> = finding_views(found@);
            let ghost p0: Seq<TxEntryV> = entry_views(pending@);
            let e = &self.csv[k];
            proof {
                assert(cv[k as int] == self.csv@[k as int]@);
            }
            match self.cache.lookup_by_block_and_index(e.block_num, e.transaction_index) {
                Err(_) => {
                    proof {
                        assert(position_dup(es, cv[k as int].block_num, cv[k as int].transaction_index));
                        assert(spec_scan_prefix(cv, es, self.addr@, k + 1) == Err::<
                            (Seq<InvalidEntryV>, Seq<TxEntryV>),
                            CacheError,
                        >(CacheError::DuplicateBlockIndex));
                        lemma_scan_err_extends(
                            cv,
                            es,
                            self.addr@,
                            k + 1,
                            CacheError::DuplicateBlockIndex,
                        );
                    }
                    return Err(TransactionValidatorError::Cache(CacheError::DuplicateBlockIndex));
                },
                Ok(None) => {
                    pending.push(e.duplicate());
                    proof {
                        assert(!position_hit(es, cv[k as int].block_num, cv[k as int].transaction_index));
                        assert(entry_views(pending@) =~= p0.push(cv[k as int]));
                    }
                },
                Ok(Some(h)) => {
                    let ghost bnv: u64 = cv[k as int].block_num;
                    let ghost ixv: u32 = cv[k as int].transaction_index;
                    proof {
                        assert(position_hit(es, bnv, ixv));
                        assert(!position_dup(es, bnv, ixv)) by {
                            if position_dup(es, bnv, ixv) {
                                let (x, y) = choose|x: int, y: int|
                                    0 <= x < y < es.len() && matches_position(
                                        #[trigger] es[x],
                                        bnv,
                                        ixv,
                                    ) && matches_position(#[trigger] es[y], bnv, ixv);
                                let w = choose|i: int|
                                    0 <= i < es.len() && matches_position(#[trigger] es[i], bnv, ixv)
                                        && es[i].0 == h@ && (forall|j: int|
                                        0 <= j < es.len() && j != i ==> !matches_position(
                                            #[trigger] es[j],
                                            bnv,
                                            ixv,
                                        ));
                                assert(x != y);
                                assert(false);
                            }
                        }
                        let w = choose|i: int|
                            0 <= i < es.len() && matches_position(#[trigger] es[i], bnv, ixv)
                                && es[i].0 == h@ && (forall|j: int|
                                0 <= j < es.len() && j != i ==> !matches_position(
                                    #[trigger] es[j],
                                    bnv,
                                    ixv,
                                ));
                        let pi = position_index(es, bnv, ixv);
                        assert(matches_position(es[pi], bnv, ixv));
                        if pi != w {
                            assert(false);
                        }
                        assert(es[pi].0 == h@);
                        assert(crate::cache::has_hash(es, h@));
                        let hi = hash_index(es, h@);
                        assert(es[hi].0 == h@);
                        if hi != pi {
                            assert(false);
                        }
                        assert(record_at(es, h@) == es[pi].1);
                    }
                    let tx = match self.cache.get(&h) {
                        Some(t) => t,
                        None => {
                            proof {
                                assert(false);
                            }
                            return Err(
                                TransactionValidatorError::Cache(CacheError::DuplicateBlockIndex),
                            );
                        },
                    };
                    let derived = locations_of(tx, &self.addr);
                    proof {
                        assert(label_views(derived@) == derived_locations(
                            es[position_index(es, bnv, ixv)].1,
                            self.addr@,
                        ));
                    }
                    if !contains_label(&derived, &e.location) {
                        found.push(
                            InvalidEntry::Incorrect(e.duplicate(), Some(h.duplicate())),
                        );
                        proof {
                            assert(finding_views(found@) =~= f0.push(
                                InvalidEntryV::Incorrect(cv[k as int], Some(h@)),
                            ));
                        }
                    }
                    let ghost f1: Seq<InvalidEntryV> = finding_views(found@);
                    if !seen_before_at(&self.csv, k) {
                        let claimed = claimed_of(&self.csv, e.block_num, e.transaction_index);
                        let ghost dv: Seq<Seq<char>> = label_views(derived@);
                        let mut d: usize = 0;
                        let dn = derived.len();
                        proof {
                            assert(finding_views(found@) =~= f1 + missing_list(
                                dv.take(0),
                                label_views(claimed@),
                                h@,
                            ));
                        }
                        while d < dn
                            invariant
                                0 <= d <= dn,
                                dn == derived@.len(),
                                dv == label_views(derived@),
                                dv.len() == dn,
                                h@.len() == h@.len(),
                                finding_views(found@) == f1 + missing_list(
                                    dv.take(d as int),
                                    label_views(claimed@),
                                    h@,
                                ),
                            decreases dn - d,
                        {
                            proof {
                                assert(dv.take(d + 1).drop_last() =~= dv.take(d as int));
                                assert(dv.take(d + 1).last() == dv[d as int]);
                                assert(dv[d as int] == derived@[d as int]@);
                            }
                            if !contains_label(&claimed, &derived[d]) {
                                found.push(InvalidEntry::Missing(h.duplicate()));
                                proof {
                                    assert(finding_views(found@) =~= (f1 + missing_list(
                                        dv.take(d as int),
                                        label_views(claimed@),
                                        h@,
                                    )).push(InvalidEntryV::Missing(h@)));
                                }
                            }
                            proof {
                                assert(finding_views(found@) =~= f1 + missing_list(
                                    dv.take(d + 1),
                                    label_views(claimed@),
                                    h@,
                                ));
                            }
                            d = d + 1;
                        }
                        proof {
                            assert(dv.take(dn as int) =~= dv);
                        }
                    }
                },
            }
            proof {
                assert(spec_scan_prefix(cv, es, self.addr@, k + 1) == Ok::<
                    (Seq<InvalidEntryV>, Seq<TxEntryV>),
                    CacheError,
                >((finding_views(found@), entry_views(pending@))));
            }
            k = k + 1;
        }
        Ok((found, pending))
    }
}

/// Once a scan prefix fails, the whole scan fails the same way.
proof fn lemma_scan_err_extends(
    csv: Seq<TxEntryV>,
    es: Seq<(Seq<u8>, TxV)>,
    addr: Seq<u8>,
    k: int,
    e: CacheError,
)
    requires
        0 <= k <= csv.len(),
        spec_scan_prefix(csv, es, addr, k) == Err::<
            (Seq<InvalidEntryV>, Seq<TxEntryV>),
            CacheError,
        >(e),
    ensures
        spec_scan(csv, es, addr) == Err::<(Seq<InvalidEntryV>, Seq<TxEntryV>), CacheError>(e),
    decreases csv.len() - k,
{
    if k < csv.len() {
        lemma_scan_err_extends(csv, es, addr, k + 1, e);
    }
}

/// Resolves one row the cache could not judge, once the live lookup has
/// come back.  A lookup that answered makes the row incorrect either way,
/// with the found hash attached when the chain does hold a transaction at
/// that position; a lookup the transport lost yields the distinct
/// unchecked report, so a transport failure during the scan is per-entry
/// and never fatal.
pub fn resolve_pending(entry: TxEntry, live: Result<Option<TxHash>, TransportError>) -> (r:
    InvalidEntry)
    ensures
        r@ == (match live {
            Ok(oh) => InvalidEntryV::Incorrect(
                entry@,
                match oh {
                    Some(h) => Some(h@),
                    None => None,
                },
            ),
            Err(t) => InvalidEntryV::Unchecked(entry@, spec_transport_text(t)),
        }),
{
    match live {
        Ok(oh) => InvalidEntry::Incorrect(entry, oh),
        Err(t) => InvalidEntry::Unchecked(entry, t),
    }
}

} // verus!
