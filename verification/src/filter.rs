use vstd::prelude::*;

verus! {

/// First block of the window in which denial-of-service era transactions
/// with enormous trace counts can appear.
pub const SPAM_WINDOW_FIRST: u64 = 2286910;

/// Last block of that window.
pub const SPAM_WINDOW_LAST: u64 = 2463000;

/// How many traces mark a transaction as spam.
pub const SPAM_TRACE_THRESHOLD: usize = 250;

/// What the trace-count probe decides next.  The search narrows an index
/// range by asking the node whether a trace exists at single indices; the
/// network side of each probe lives with the transport, and this type tells
/// it what to do with the answers.
#[derive(Clone, Copy, Debug, PartialEq, Eq, Structural)]
pub enum ProbeStep {
    /// The count is settled.
    Done(usize),
    /// Keep searching the lower half.
    SearchLow(usize, usize),
    /// Keep searching the upper half.
    SearchHigh(usize, usize),
}

/// The spam heuristic over trace-count probes, layered on the transport.
pub struct TraceFilterCall;

impl TraceFilterCall {
    /// Is this block inside the window where the heuristic applies at all?
    /// Outside it no transaction is treated as spam.
    pub fn in_spam_window(block: u64) -> (r: bool)
        ensures
            r == (SPAM_WINDOW_FIRST <= block && block <= SPAM_WINDOW_LAST),
    {
        SPAM_WINDOW_FIRST <= block && block <= SPAM_WINDOW_LAST
    }

    /// The verdict once a trace count is known: spam means the window block
    /// holds more traces than the threshold.
    pub fn is_spam_verdict(block: u64, trace_count: usize) -> (r: bool)
        ensures
            r == (SPAM_WINDOW_FIRST <= block && block <= SPAM_WINDOW_LAST && trace_count
                > SPAM_TRACE_THRESHOLD),
    {
        Self::in_spam_window(block) && trace_count > SPAM_TRACE_THRESHOLD
    }

    /// One step of the binary search for the trace count.  `has_mid` and
    /// `has_after_mid` answer whether a trace exists at the midpoint index
    /// and at the index after it.  The range always narrows, so a driver
    /// repeating this step terminates.
    pub fn probe_step(first: usize, last: usize, has_mid: bool, has_after_mid: bool) -> (r:
        ProbeStep)
        requires
            first <= last,
        ensures
            first == last ==> r == ProbeStep::Done(first),
            first < last && has_mid && !has_after_mid ==> r == ProbeStep::Done(
                (first + (last - first) / 2) as usize,
            ),
            first < last && has_mid && has_after_mid ==> r == ProbeStep::SearchHigh(
                (first + (last - first) / 2 + 1) as usize,
                last,
            ),
            first < last && !has_mid ==> r == (if first + (last - first) / 2 == first {
                ProbeStep::Done(first)
            } else {
                ProbeStep::SearchLow(first, ((first + (last - first) / 2) - 1) as usize)
            }),
            (r matches ProbeStep::SearchLow(a, b) ==> a <= b && b - a < last - first),
            (r matches ProbeStep::SearchHigh(a, b) ==> a <= b && b - a < last - first),
    {
        if first == last {
            return ProbeStep::Done(first);
        }
        let mid: usize = first + (last - first) / 2;
        if has_mid && !has_after_mid {
            ProbeStep::Done(mid)
        } else if !has_mid {
            if mid == first {
                ProbeStep::Done(first)
            } else {
                ProbeStep::SearchLow(first, mid - 1)
            }
        } else {
            ProbeStep::SearchHigh(mid + 1, last)
        }
    }
}

/// Splits the range from genesis to `to_block` into consecutive batches of
/// roughly a quarter each, the way the trace filter queries are chunked.
/// The pieces tile the range exactly: each begins where the one before it
/// ended, the first at zero, the last at `to_block`.
pub fn filter_chunks(to_block: u64) -> (r: Vec<(u64, u64)>)
    ensures
        r@.len() > 0,
        r@[0].0 == 0,
        r@.last().1 == to_block,
        forall|i: int| 0 <= i < r@.len() ==> (#[trigger] r@[i]).0 <= r@[i].1,
        forall|i: int| 0 < i < r@.len() ==> (#[trigger] r@[i]).0 == r@[i - 1].1,
{
    let chunk = to_block / 4;
    let mut out: Vec<(u64, u64)> = Vec::new();
    if chunk == 0 {
        out.push((0, to_block));
        return out;
    }
    let mut last: u64 = 0;
    while to_block - last > chunk
        invariant
            chunk > 0,
            last <= to_block,
            out@.len() > 0 ==> out@[0].0 == 0 && out@.last().1 == last,
            out@.len() == 0 ==> last == 0,
            forall|i: int| 0 <= i < out@.len() ==> (#[trigger] out@[i]).0 <= out@[i].1,
            forall|i: int| 0 < i < out@.len() ==> (#[trigger] out@[i]).0 == out@[i - 1].1,
        decreases to_block - last,
    {
        out.push((last, last + chunk));
        last = last + chunk;
    }
    out.push((last, to_block));
    out
}

} // verus!
