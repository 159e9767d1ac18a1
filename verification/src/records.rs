use vstd::prelude::*;

use crate::util::{bytes_eq, copy_bytes};

verus! {

/// A 20-byte account identifier, compared by byte equality.
#[derive(Debug)]
pub struct Address {
    pub bytes: Vec<u8>,
}

impl View for Address {
    type V = Seq<u8>;

    open spec fn view(&self) -> Seq<u8> {
        self.bytes@
    }
}

impl Address {
    /// A well-formed address holds exactly 20 bytes.
    pub open spec fn wf(&self) -> bool {
        self@.len() == 20
    }

    /// Wraps raw bytes as an address; succeeds exactly on 20 bytes.
    pub fn from_bytes(bytes: Vec<u8>) -> (r: Option<Address>)
        ensures
            r is Some <==> bytes@.len() == 20,
            r is Some ==> r->Some_0@ =~= bytes@ && r->Some_0.wf(),
    {
        if bytes.len() == 20 {
            Some(Address { bytes })
        } else {
            None
        }
    }

    /// Byte equality of two addresses.
    pub fn same(&self, other: &Address) -> (r: bool)
        ensures
            r <==> self@ =~= other@,
    {
        bytes_eq(self.bytes.as_slice(), other.bytes.as_slice())
    }

    /// An owned copy of this address.
    pub fn duplicate(&self) -> (r: Address)
        ensures
            r@ =~= self@,
    {
        Address { bytes: copy_bytes(self.bytes.as_slice()) }
    }
}

/// A 32-byte transaction hash, compared by byte equality.
#[derive(Debug)]
pub struct TxHash {
    pub bytes: Vec<u8>,
}

impl View for TxHash {
    type V = Seq<u8>;

    open spec fn view(&self) -> Seq<u8> {
        self.bytes@
    }
}

impl TxHash {
    /// A well-formed hash holds exactly 32 bytes.
    pub open spec fn wf(&self) -> bool {
        self@.len() == 32
    }

    /// Wraps raw bytes as a hash; succeeds exactly on 32 bytes.
    pub fn from_bytes(bytes: Vec<u8>) -> (r: Option<TxHash>)
        ensures
            r is Some <==> bytes@.len() == 32,
            r is Some ==> r->Some_0@ =~= bytes@ && r->Some_0.wf(),
    {
        if bytes.len() == 32 {
            Some(TxHash { bytes })
        } else {
            None
        }
    }

    /// Byte equality of two hashes.
    pub fn same(&self, other: &TxHash) -> (r: bool)
        ensures
            r <==> self@ =~= other@,
    {
        bytes_eq(self.bytes.as_slice(), other.bytes.as_slice())
    }

    /// An owned copy of this hash.
    pub fn duplicate(&self) -> (r: TxHash)
        ensures
            r@ =~= self@,
    {
        TxHash { bytes: copy_bytes(self.bytes.as_slice()) }
    }
}

/// Ghost image of one receipt log.
pub ghost struct LogV {
    pub address: Seq<u8>,
    pub data: Seq<u8>,
    pub topics: Seq<Seq<u8>>,
}

/// One log record of a transaction receipt.
#[derive(Debug)]
pub struct LogView {
    pub address: Address,
    pub data: Vec<u8>,
    pub topics: Vec<Vec<u8>>,
}

impl View for LogView {
    type V = LogV;

    open spec fn view(&self) -> LogV {
        LogV {
            address: self.address@,
            data: self.data@,
            topics: self.topics@.map_values(|t: Vec<u8>| t@),
        }
    }
}

/// Ghost image of the transaction view.
pub ghost struct TransactionV {
    pub hash: Seq<u8>,
    pub block_number: u64,
    pub transaction_index: u32,
    pub from: Seq<u8>,
    pub to: Option<Seq<u8>>,
    pub input: Seq<u8>,
}

/// The transaction body as delivered by the node.
#[derive(Debug)]
pub struct TransactionView {
    pub hash: TxHash,
    pub block_number: u64,
    pub transaction_index: u32,
    pub from: Address,
    pub to: Option<Address>,
    pub input: Vec<u8>,
}

impl View for TransactionView {
    type V = TransactionV;

    open spec fn view(&self) -> TransactionV {
        TransactionV {
            hash: self.hash@,
            block_number: self.block_number,
            transaction_index: self.transaction_index,
            from: self.from@,
            to: match self.to {
                Some(a) => Some(a@),
                None => None,
            },
            input: self.input@,
        }
    }
}

/// Ghost image of the receipt view.
pub ghost struct ReceiptV {
    pub transaction_hash: Seq<u8>,
    pub contract_address: Option<Seq<u8>>,
    pub logs: Seq<LogV>,
}

/// The transaction receipt as delivered by the node.
#[derive(Debug)]
pub struct ReceiptView {
    pub transaction_hash: TxHash,
    pub contract_address: Option<Address>,
    pub logs: Vec<LogView>,
}

impl View for ReceiptView {
    type V = ReceiptV;

    open spec fn view(&self) -> ReceiptV {
        ReceiptV {
            transaction_hash: self.transaction_hash@,
            contract_address: match self.contract_address {
                Some(a) => Some(a@),
                None => None,
            },
            logs: self.logs@.map_values(|l: LogView| l@),
        }
    }
}

/// Ghost image of one trace action.
pub ghost enum ActionV {
    Call { from: Seq<u8>, to: Seq<u8>, input: Seq<u8> },
    Create { from: Seq<u8> },
    Suicide { address: Seq<u8>, refund_address: Seq<u8> },
    Reward,
}

/// What one execution trace did.
#[derive(Debug)]
pub enum ActionView {
    Call { from: Address, to: Address, input: Vec<u8> },
    Create { from: Address },
    Suicide { address: Address, refund_address: Address },
    Reward,
}

impl View for ActionView {
    type V = ActionV;

    open spec fn view(&self) -> ActionV {
        match self {
            ActionView::Call { from, to, input } => ActionV::Call {
                from: from@,
                to: to@,
                input: input@,
            },
            ActionView::Create { from } => ActionV::Create { from: from@ },
            ActionView::Suicide { address, refund_address } => ActionV::Suicide {
                address: address@,
                refund_address: refund_address@,
            },
            ActionView::Reward => ActionV::Reward,
        }
    }
}

/// Ghost image of one trace.
pub ghost struct TraceV {
    pub transaction_hash: Seq<u8>,
    pub trace_address: Seq<u32>,
    pub action: ActionV,
}

/// One execution trace of a transaction, with its nested call path.
#[derive(Debug)]
pub struct TraceView {
    pub transaction_hash: TxHash,
    pub trace_address: Vec<u32>,
    pub action: ActionView,
}

impl View for TraceView {
    type V = TraceV;

    open spec fn view(&self) -> TraceV {
        TraceV {
            transaction_hash: self.transaction_hash@,
            trace_address: self.trace_address@,
            action: self.action@,
        }
    }
}

/// Ghost image of the block header view.
pub ghost struct BlockHeaderV {
    pub number: u64,
    pub author: Seq<u8>,
}

/// The slice of a block header that the matcher reads.
#[derive(Debug)]
pub struct BlockHeaderView {
    pub number: u64,
    pub author: Address,
}

impl View for BlockHeaderView {
    type V = BlockHeaderV;

    open spec fn view(&self) -> BlockHeaderV {
        BlockHeaderV { number: self.number, author: self.author@ }
    }
}

/// Ghost image of one merged cache record.
pub ghost struct TxV {
    pub transaction: Option<TransactionV>,
    pub receipt: Option<ReceiptV>,
    pub traces: Option<Seq<TraceV>>,
    pub block: Option<BlockHeaderV>,
}

/// The merged four-view record for one transaction hash.  All four fields
/// start absent and are filled independently as batch results arrive.
#[derive(Debug)]
pub struct Tx {
    pub transaction: Option<TransactionView>,
    pub receipt: Option<ReceiptView>,
    pub traces: Option<Vec<TraceView>>,
    pub block: Option<BlockHeaderView>,
}

impl View for Tx {
    type V = TxV;

    open spec fn view(&self) -> TxV {
        TxV {
            transaction: match self.transaction {
                Some(t) => Some(t@),
                None => None,
            },
            receipt: match self.receipt {
                Some(r) => Some(r@),
                None => None,
            },
            traces: match self.traces {
                Some(ts) => Some(ts@.map_values(|t: TraceView| t@)),
                None => None,
            },
            block: match self.block {
                Some(b) => Some(b@),
                None => None,
            },
        }
    }
}

impl Tx {
    /// A record with all four views absent.
    pub fn empty() -> (r: Tx)
        ensures
            r@ == (TxV {
                transaction: None::<TransactionV>,
                receipt: None::<ReceiptV>,
                traces: None::<Seq<TraceV>>,
                block: None::<BlockHeaderV>,
            }),
    {
        Tx { transaction: None, receipt: None, traces: None, block: None }
    }
}

/// Ghost image of one partial result.
pub ghost enum TxPartV {
    Transaction(TransactionV),
    Receipt(ReceiptV),
    Traces(Seq<u8>, Seq<TraceV>),
    BlockHeader(Seq<u8>, BlockHeaderV),
}

/// One independently-arriving partial result, tagged by the transaction hash
/// it belongs to.  `Traces` and `BlockHeader` carry the hash alongside,
/// mirroring how batch answers are associated with their transaction.
#[derive(Debug)]
pub enum TxPart {
    Transaction(TransactionView),
    Receipt(ReceiptView),
    Traces(TxHash, Vec<TraceView>),
    BlockHeader(TxHash, BlockHeaderView),
}

impl View for TxPart {
    type V = TxPartV;

    open spec fn view(&self) -> TxPartV {
        match self {
            TxPart::Transaction(t) => TxPartV::Transaction(t@),
            TxPart::Receipt(r) => TxPartV::Receipt(r@),
            TxPart::Traces(h, ts) => TxPartV::Traces(h@, ts@.map_values(|t: TraceView| t@)),
            TxPart::BlockHeader(h, b) => TxPartV::BlockHeader(h@, b@),
        }
    }
}

/// The transaction hash a partial result is keyed under.
pub open spec fn part_hash(p: TxPartV) -> Seq<u8> {
    match p {
        TxPartV::Transaction(t) => t.hash,
        TxPartV::Receipt(r) => r.transaction_hash,
        TxPartV::Traces(h, _) => h,
        TxPartV::BlockHeader(h, _) => h,
    }
}

impl TxPart {
    /// The transaction hash this part is keyed under, copied out.
    pub fn hash_of(&self) -> (r: TxHash)
        ensures
            r@ =~= part_hash(self@),
    {
        match self {
            TxPart::Transaction(t) => t.hash.duplicate(),
            TxPart::Receipt(r) => r.transaction_hash.duplicate(),
            TxPart::Traces(h, _) => h.duplicate(),
            TxPart::BlockHeader(h, _) => h.duplicate(),
        }
    }
}

/// Tags a trace list with the hash of its first trace, the way batch answers
/// arrive.  Succeeds exactly on a nonempty list.
pub fn traces_part(traces: Vec<TraceView>) -> (r: Option<TxPart>)
    ensures
        r is Some <==> traces@.len() > 0,
        r is Some ==> r->Some_0@ == TxPartV::Traces(
            traces@[0]@.transaction_hash,
            traces@.map_values(|t: TraceView| t@),
        ),
{
    if traces.len() > 0 {
        let h = traces[0].transaction_hash.duplicate();
        proof {
            assert(h@ =~= traces@[0]@.transaction_hash);
        }
        Some(TxPart::Traces(h, traces))
    } else {
        None
    }
}

} // verus!
