use vstd::prelude::*;

use crate::numtext::{spec_u64_dec, u64_to_dec};
use crate::records::{Address, LogV, LogView, TraceV, TraceView, Tx, TxV};
use crate::util::{contains_bytes, spec_contains_bytes};

verus! {

/// `log_{i}_generator`: the address issued log `i`.
pub open spec fn log_generator_label(i: int) -> Seq<char> {
    "log_"@ + spec_u64_dec(i as nat) + "_generator"@
}

/// `log_{i}_data`: the address occurs in log `i`'s data.
pub open spec fn log_data_label(i: int) -> Seq<char> {
    "log_"@ + spec_u64_dec(i as nat) + "_data"@
}

/// `log_{i}_topic_{j}`: the address occurs in topic `j` of log `i`.
pub open spec fn log_topic_label(i: int, j: int) -> Seq<char> {
    "log_"@ + spec_u64_dec(i as nat) + "_topic_"@ + spec_u64_dec(j as nat)
}

/// The nested call path of a trace, written `_[a_b_c]`, or nothing at all
/// for a top-level trace.
pub open spec fn trace_path_digits(ta: Seq<u32>) -> Seq<char>
    decreases ta.len(),
{
    if ta.len() == 0 {
        Seq::<char>::empty()
    } else if ta.len() == 1 {
        spec_u64_dec(ta[0] as nat)
    } else {
        trace_path_digits(ta.drop_last()) + seq!['_'] + spec_u64_dec(ta.last() as nat)
    }
}

/// The path part of a trace label.
pub open spec fn trace_path(ta: Seq<u32>) -> Seq<char> {
    if ta.len() == 0 {
        Seq::<char>::empty()
    } else {
        seq!['_', '['] + trace_path_digits(ta) + seq![']']
    }
}

/// `trace_{i}{path}_{suffix}`.
pub open spec fn trace_label(i: int, ta: Seq<u32>, suffix: Seq<char>) -> Seq<char> {
    "trace_"@ + spec_u64_dec(i as nat) + trace_path(ta) + seq!['_'] + suffix
}

/// The labels one transaction body yields: sender, receiver, and a
/// byte-window hit in the call data.
pub open spec fn txv_labels(t: crate::records::TransactionV, addr: Seq<u8>) -> Seq<Seq<char>> {
    (if t.from == addr {
        seq!["from"@]
    } else {
        Seq::<Seq<char>>::empty()
    }) + (if t.to == Some(addr) {
        seq!["to"@]
    } else {
        Seq::<Seq<char>>::empty()
    }) + (if spec_contains_bytes(t.input, addr) {
        seq!["input"@]
    } else {
        Seq::<Seq<char>>::empty()
    })
}

/// The labels one log yields at its index.
pub open spec fn log_labels_one(l: LogV, i: int, addr: Seq<u8>) -> Seq<Seq<char>> {
    (if l.address == addr {
        seq![log_generator_label(i)]
    } else {
        Seq::<Seq<char>>::empty()
    }) + (if spec_contains_bytes(l.data, addr) {
        seq![log_data_label(i)]
    } else {
        Seq::<Seq<char>>::empty()
    }) + topic_labels(l.topics, i, addr)
}

/// The topic labels of log `i`, topics in order.
pub open spec fn topic_labels(ts: Seq<Seq<u8>>, i: int, addr: Seq<u8>) -> Seq<Seq<char>>
    decreases ts.len(),
{
    if ts.len() == 0 {
        Seq::<Seq<char>>::empty()
    } else {
        topic_labels(ts.drop_last(), i, addr) + (if spec_contains_bytes(ts.last(), addr) {
            seq![log_topic_label(i, ts.len() - 1)]
        } else {
            Seq::<Seq<char>>::empty()
        })
    }
}

/// The labels of all logs, logs in order.
pub open spec fn log_labels(ls: Seq<LogV>, addr: Seq<u8>) -> Seq<Seq<char>>
    decreases ls.len(),
{
    if ls.len() == 0 {
        Seq::<Seq<char>>::empty()
    } else {
        log_labels(ls.drop_last(), addr) + log_labels_one(ls.last(), ls.len() - 1, addr)
    }
}

/// The labels one trace yields at its index.  The top-level trace, index
/// zero, duplicates the transaction view and yields nothing; reward
/// actions never contribute.
pub open spec fn trace_labels_one(t: TraceV, i: int, addr: Seq<u8>) -> Seq<Seq<char>> {
    if i == 0 {
        Seq::<Seq<char>>::empty()
    } else {
        match t.action {
            crate::records::ActionV::Call { from, to, input } => (if from == addr {
                seq![trace_label(i, t.trace_address, "from"@)]
            } else {
                Seq::<Seq<char>>::empty()
            }) + (if to == addr {
                seq![trace_label(i, t.trace_address, "to"@)]
            } else {
                Seq::<Seq<char>>::empty()
            }) + (if spec_contains_bytes(input, addr) {
                seq![trace_label(i, t.trace_address, "input"@)]
            } else {
                Seq::<Seq<char>>::empty()
            }),
            crate::records::ActionV::Create { from } => if from == addr {
                seq![trace_label(i, t.trace_address, "from"@)]
            } else {
                Seq::<Seq<char>>::empty()
            },
            crate::records::ActionV::Suicide { address, refund_address } => (if address == addr {
                seq![trace_label(i, t.trace_address, "creation"@)]
            } else {
                Seq::<Seq<char>>::empty()
            }) + (if refund_address == addr {
                seq![trace_label(i, t.trace_address, "refundAddr"@)]
            } else {
                Seq::<Seq<char>>::empty()
            }),
            crate::records::ActionV::Reward => Seq::<Seq<char>>::empty(),
        }
    }
}

/// The labels of all traces, traces in order.
pub open spec fn trace_labels(ts: Seq<TraceV>, addr: Seq<u8>) -> Seq<Seq<char>>
    decreases ts.len(),
{
    if ts.len() == 0 {
        Seq::<Seq<char>>::empty()
    } else {
        trace_labels(ts.drop_last(), addr) + trace_labels_one(ts.last(), ts.len() - 1, addr)
    }
}

/// Every structural location of one merged record where the address
/// occurs, in a fixed order: transaction body, contract creation, block
/// author, receipt logs, traces.  A view that is absent contributes
/// nothing.  Distinct rules and distinct indices write distinct labels,
/// so the sequence is read with set meaning.
pub open spec fn derived_locations(t: TxV, addr: Seq<u8>) -> Seq<Seq<char>> {
    (match t.transaction {
        Some(tv) => txv_labels(tv, addr),
        None => Seq::<Seq<char>>::empty(),
    }) + (match t.receipt {
        Some(rv) => if rv.contract_address == Some(addr) {
            seq!["creation"@]
        } else {
            Seq::<Seq<char>>::empty()
        },
        None => Seq::<Seq<char>>::empty(),
    }) + (match t.block {
        Some(bv) => if bv.author == addr {
            seq!["miner"@]
        } else {
            Seq::<Seq<char>>::empty()
        },
        None => Seq::<Seq<char>>::empty(),
    }) + (match t.receipt {
        Some(rv) => log_labels(rv.logs, addr),
        None => Seq::<Seq<char>>::empty(),
    }) + (match t.traces {
        Some(ts) => trace_labels(ts, addr),
        None => Seq::<Seq<char>>::empty(),
    })
}

/// The views of a vector of label strings.
pub open spec fn label_views(v: Seq<String>) -> Seq<Seq<char>> {
    v.map_values(|s: String| s@)
}

fn push_label(out: &mut Vec<String>, s: String)
    ensures
        label_views(final(out)@) =~= label_views(old(out)@).push(s@),
{
    out.push(s);
    proof {
        assert(label_views(out@) =~= label_views(old(out)@).push(s@));
    }
}

/// Builds `log_{i}_generator`.
fn make_log_generator(i: usize) -> (r: String)
    ensures
        r@ == log_generator_label(i as int),
{
    let mut s = String::from_str("log_");
    let d = u64_to_dec(i as u64);
    s.append(d.as_str());
    s.append("_generator");
    proof {
        assert(s@ =~= log_generator_label(i as int));
    }
    s
}

/// Builds `log_{i}_data`.
fn make_log_data(i: usize) -> (r: String)
    ensures
        r@ == log_data_label(i as int),
{
    let mut s = String::from_str("log_");
    let d = u64_to_dec(i as u64);
    s.append(d.as_str());
    s.append("_data");
    proof {
        assert(s@ =~= log_data_label(i as int));
    }
    s
}

/// Builds `log_{i}_topic_{j}`.
fn make_log_topic(i: usize, j: usize) -> (r: String)
    ensures
        r@ == log_topic_label(i as int, j as int),
{
    let mut s = String::from_str("log_");
    let d = u64_to_dec(i as u64);
    s.append(d.as_str());
    s.append("_topic_");
    let e = u64_to_dec(j as u64);
    s.append(e.as_str());
    proof {
        assert(s@ =~= log_topic_label(i as int, j as int));
    }
    s
}

/// Builds `trace_{i}{path}_{suffix}`.
fn make_trace_label(i: usize, ta: &Vec<u32>, suffix: &str) -> (r: String)
    ensures
        r@ == trace_label(i as int, ta@, suffix@),
{
    let mut s = String::from_str("trace_");
    let d = u64_to_dec(i as u64);
    s.append(d.as_str());
    if ta.len() > 0 {
        s.append("_[");
        proof {
            reveal_strlit("_[");
            assert(s@ =~= "trace_"@ + spec_u64_dec(i as nat) + seq!['_', '[']);
        }
        let mut k: usize = 0;
        while k < ta.len()
            invariant
                0 < ta@.len(),
                0 <= k <= ta@.len(),
                k == 0 ==> s@ == "trace_"@ + spec_u64_dec(i as nat) + seq!['_', '['],
                k > 0 ==> s@ == "trace_"@ + spec_u64_dec(i as nat) + seq!['_', '[']
                    + trace_path_digits(ta@.take(k as int)),
            decreases ta@.len() - k,
        {
            if k > 0 {
                s.push('_');
            }
            let d2 = u64_to_dec(ta[k] as u64);
            s.append(d2.as_str());
            proof {
                assert(ta@.take(k + 1).drop_last() =~= ta@.take(k as int));
                assert(ta@.take(k + 1).last() == ta@[k as int]);
                if k == 0 {
                    assert(trace_path_digits(ta@.take(1)) == spec_u64_dec(ta@[0] as nat));
                }
                assert(s@ =~= "trace_"@ + spec_u64_dec(i as nat) + seq!['_', '[']
                    + trace_path_digits(ta@.take(k + 1)));
            }
            k = k + 1;
        }
        s.push(']');
        proof {
            assert(ta@.take(ta@.len() as int) =~= ta@);
        }
    }
    s.push('_');
    s.append(suffix);
    proof {
        assert(s@ =~= trace_label(i as int, ta@, suffix@));
    }
    s
}

/// Computes every structural location label at which the address occurs in
/// one merged record: sender and receiver, call-data windows, contract
/// creation, block author, log issuers, log data and topic windows, and
/// nested trace calls.  Substring hits are literal byte-window scans, so
/// coincidental byte patterns are accepted knowingly.
pub fn locations_of(tx: &Tx, addr: &Address) -> (r: Vec<String>)
    ensures
        label_views(r@) == derived_locations(tx@, addr@),
{
    let mut out: Vec<String> = Vec::new();
    proof {
        assert(label_views(out@) =~= Seq::<Seq<char>>::empty());
    }
    match &tx.transaction {
        Some(tv) => {
            if tv.from.same(addr) {
                push_label(&mut out, String::from_str("from"));
            }
            let to_hit: bool = match &tv.to {
                Some(a) => a.same(addr),
                None => false,
            };
            if to_hit {
                push_label(&mut out, String::from_str("to"));
            }
            if contains_bytes(tv.input.as_slice(), addr.bytes.as_slice()) {
                push_label(&mut out, String::from_str("input"));
            }
            proof {
                assert(label_views(out@) =~= txv_labels(tv@, addr@));
            }
        },
        None => {},
    }
    let ghost part1: Seq<Seq<char>> = label_views(out@);
    proof {
        assert(part1 =~= (match tx@.transaction {
            Some(tv) => txv_labels(tv, addr@),
            None => Seq::<Seq<char>>::empty(),
        }));
    }
    match &tx.receipt {
        Some(rv) => {
            let hit: bool = match &rv.contract_address {
                Some(a) => a.same(addr),
                None => false,
            };
            if hit {
                push_label(&mut out, String::from_str("creation"));
            }
        },
        None => {},
    }
    let ghost part2: Seq<Seq<char>> = label_views(out@);
    proof {
        assert(part2 =~= part1 + (match tx@.receipt {
            Some(rv) => if rv.contract_address == Some(addr@) {
                seq!["creation"@]
            } else {
                Seq::<Seq<char>>::empty()
            },
            None => Seq::<Seq<char>>::empty(),
        }));
    }
    match &tx.block {
        Some(bv) => {
            if bv.author.same(addr) {
                push_label(&mut out, String::from_str("miner"));
            }
        },
        None => {},
    }
    let ghost part3: Seq<Seq<char>> = label_views(out@);
    proof {
        assert(part3 =~= part2 + (match tx@.block {
            Some(bv) => if bv.author == addr@ {
                seq!["miner"@]
            } else {
                Seq::<Seq<char>>::empty()
            },
            None => Seq::<Seq<char>>::empty(),
        }));
    }
    match &tx.receipt {
        Some(rv) => {
            let ghost ls: Seq<LogV> = rv.logs@.map_values(|l: LogView| l@);
            let mut i: usize = 0;
            while i < rv.logs.len()
                invariant
                    0 <= i <= rv.logs@.len(),
                    ls == rv.logs@.map_values(|l: LogView| l@),
                    ls.len() == rv.logs@.len(),
                    label_views(out@) == part3 + log_labels(ls.take(i as int), addr@),
                decreases rv.logs@.len() - i,
            {
                let lg = &rv.logs[i];
                let ghost before: Seq<Seq<char>> = label_views(out@);
                if lg.address.same(addr) {
                    push_label(&mut out, make_log_generator(i));
                }
                if contains_bytes(lg.data.as_slice(), addr.bytes.as_slice()) {
                    push_label(&mut out, make_log_data(i));
                }
                let ghost mid: Seq<Seq<char>> = label_views(out@);
                let ghost tops: Seq<Seq<u8>> = lg.topics@.map_values(|t: Vec<u8>| t@);
                let mut j: usize = 0;
                while j < lg.topics.len()
                    invariant
                        0 <= j <= lg.topics@.len(),
                        tops == lg.topics@.map_values(|t: Vec<u8>| t@),
                        tops.len() == lg.topics@.len(),
                        label_views(out@) == mid + topic_labels(tops.take(j as int), i as int, addr@),
                    decreases lg.topics@.len() - j,
                {
                    if contains_bytes(lg.topics[j].as_slice(), addr.bytes.as_slice()) {
                        push_label(&mut out, make_log_topic(i, j));
                    }
                    proof {
                        assert(tops.take(j + 1).drop_last() =~= tops.take(j as int));
                        assert(tops.take(j + 1).last() == tops[j as int]);
                        assert(label_views(out@) =~= mid + topic_labels(
                            tops.take(j + 1),
                            i as int,
                            addr@,
                        ));
                    }
                    j = j + 1;
                }
                proof {
                    assert(tops.take(tops.len() as int) =~= tops);
                    assert(ls[i as int] == rv.logs@[i as int]@);
                    assert(ls[i as int].topics == tops);
                    assert(label_views(out@) =~= before + log_labels_one(
                        ls[i as int],
                        i as int,
                        addr@,
                    ));
                    assert(ls.take(i + 1).drop_last() =~= ls.take(i as int));
                    assert(ls.take(i + 1).last() == ls[i as int]);
                    assert(label_views(out@) =~= part3 + log_labels(ls.take(i + 1), addr@));
                }
                i = i + 1;
            }
            proof {
                assert(ls.take(ls.len() as int) =~= ls);
            }
        },
        None => {},
    }
    let ghost part4: Seq<Seq<char>> = label_views(out@);
    proof {
        assert(part4 =~= part3 + (match tx@.receipt {
            Some(rv) => log_labels(rv.logs, addr@),
            None => Seq::<Seq<char>>::empty(),
        }));
    }
    match &tx.traces {
        Some(trs) => {
            let ghost ts: Seq<TraceV> = trs@.map_values(|t: TraceView| t@);
            let mut i: usize = 0;
            while i < trs.len()
                invariant
                    0 <= i <= trs@.len(),
                    ts == trs@.map_values(|t: TraceView| t@),
                    ts.len() == trs@.len(),
                    label_views(out@) == part4 + trace_labels(ts.take(i as int), addr@),
                decreases trs@.len() - i,
            {
                let tr = &trs[i];
                let ghost before: Seq<Seq<char>> = label_views(out@);
                if i > 0 {
                    match &tr.action {
                        crate::records::ActionView::Call { from, to, input } => {
                            if from.same(addr) {
                                push_label(&mut out, make_trace_label(i, &tr.trace_address, "from"));
                            }
                            if to.same(addr) {
                                push_label(&mut out, make_trace_label(i, &tr.trace_address, "to"));
                            }
                            if contains_bytes(input.as_slice(), addr.bytes.as_slice()) {
                                push_label(
                                    &mut out,
                                    make_trace_label(i, &tr.trace_address, "input"),
                                );
                            }
                        },
                        crate::records::ActionView::Create { from } => {
                            if from.same(addr) {
                                push_label(&mut out, make_trace_label(i, &tr.trace_address, "from"));
                            }
                        },
                        crate::records::ActionView::Suicide { address, refund_address } => {
                            if address.same(addr) {
                                push_label(
                                    &mut out,
                                    make_trace_label(i, &tr.trace_address, "creation"),
                                );
                            }
                            if refund_address.same(addr) {
                                push_label(
                                    &mut out,
                                    make_trace_label(i, &tr.trace_address, "refundAddr"),
                                );
                            }
                        },
                        crate::records::ActionView::Reward => {},
                    }
                }
                proof {
                    assert(ts[i as int] == trs@[i as int]@);
                    assert(label_views(out@) =~= before + trace_labels_one(
                        ts[i as int],
                        i as int,
                        addr@,
                    ));
                    assert(ts.take(i + 1).drop_last() =~= ts.take(i as int));
                    assert(ts.take(i + 1).last() == ts[i as int]);
                    assert(label_views(out@) =~= part4 + trace_labels(ts.take(i + 1), addr@));
                }
                i = i + 1;
            }
            proof {
                assert(ts.take(ts.len() as int) =~= ts);
            }
        },
        None => {},
    }
    proof {
        assert(label_views(out@) =~= derived_locations(tx@, addr@));
    }
    out
}

} // verus!
