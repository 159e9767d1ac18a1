use vstd::prelude::*;

verus! {

/// The four result shapes a response's `result` field can be decoded as.
/// Which one applies is determined by the `ApiCall` the response's id names,
/// never by the JSON itself.
#[derive(Clone, Copy, Debug, PartialEq, Eq, Structural)]
pub enum ResultShape {
    /// A hexadecimal scalar.
    Hex,
    /// A block object.
    Block,
    /// A transaction object.
    Transaction,
    /// Anything else; carried through without interpretation.
    Unit,
}

/// The closed registry of supported RPC methods.  Each variant carries a
/// stable numeric id (`eth_*` calls sit below 1000, `trace_*` calls in the
/// one hundreds, `net_*` calls in the one thousands), a wire method name and
/// a decode rule.  The id doubles as the JSON-RPC correlation id, so the id
/// space must never reassign an id to a different method.
#[derive(Clone, Copy, Debug, PartialEq, Eq, Structural)]
pub enum ApiCall {
    EthAccounts,
    EthBlockNumber,
    EthGetBlockByNumber,
    EthGasPrice,
    EthGetBalance,
    EthGetBlockByHash,
    EthGetTransactionByReceipt,
    EthGetBlockTransactionCountByHash,
    EthGetBlockTransactionCountByNumber,
    EthGetCode,
    EthGetLogs,
    EthGetStorageAt,
    EthGetTransactionByBlockHashAndIndex,
    EthGetTransactionByBlockNumberAndIndex,
    EthGetUncleByBlockNumberAndIndex,
    EthGetUncleByBlockHashAndIndex,
    EthGetUncleCountByBlockHash,
    EthGetUncleCountByBlockNumber,
    EthGetWork,
    EthHashrate,
    EthMining,
    EthProtocolVersion,
    EthSyncing,
    EthGetTransactionByHash,
    EthGetTransactionCount,
    NetListening,
    NetPeerCount,
    NetVersion,
    TraceCall,
    TraceRawTransaction,
    TraceReplayTransaction,
    TraceReplayBlockTransaction,
    TraceBlock,
    TraceFilter,
    TraceGet,
    TraceTransaction,
}

/// The stable correlation id of each call.
pub open spec fn spec_call_id(c: ApiCall) -> u32 {
    match c {
        ApiCall::EthAccounts => 1,
        ApiCall::EthBlockNumber => 2,
        ApiCall::EthGetBlockByNumber => 3,
        ApiCall::EthGasPrice => 4,
        ApiCall::EthGetBalance => 5,
        ApiCall::EthGetBlockByHash => 6,
        ApiCall::EthGetTransactionByReceipt => 7,
        ApiCall::EthGetBlockTransactionCountByHash => 8,
        ApiCall::EthGetBlockTransactionCountByNumber => 9,
        ApiCall::EthGetCode => 10,
        ApiCall::EthGetLogs => 11,
        ApiCall::EthGetStorageAt => 12,
        ApiCall::EthGetTransactionByBlockHashAndIndex => 13,
        ApiCall::EthGetTransactionByBlockNumberAndIndex => 14,
        ApiCall::EthGetUncleByBlockNumberAndIndex => 15,
        ApiCall::EthGetUncleByBlockHashAndIndex => 16,
        ApiCall::EthGetUncleCountByBlockHash => 17,
        ApiCall::EthGetUncleCountByBlockNumber => 18,
        ApiCall::EthGetWork => 19,
        ApiCall::EthHashrate => 20,
        ApiCall::EthMining => 21,
        ApiCall::EthProtocolVersion => 22,
        ApiCall::EthSyncing => 23,
        ApiCall::EthGetTransactionByHash => 24,
        ApiCall::EthGetTransactionCount => 25,
        ApiCall::NetListening => 1001,
        ApiCall::NetPeerCount => 1002,
        ApiCall::NetVersion => 1003,
        ApiCall::TraceCall => 101,
        ApiCall::TraceRawTransaction => 102,
        ApiCall::TraceReplayTransaction => 103,
        ApiCall::TraceReplayBlockTransaction => 104,
        ApiCall::TraceBlock => 105,
        ApiCall::TraceFilter => 106,
        ApiCall::TraceGet => 107,
        ApiCall::TraceTransaction => 108,
    }
}

/// The wire method name of each call.
pub open spec fn spec_wire_name(c: ApiCall) -> Seq<char> {
    match c {
        ApiCall::EthAccounts => "eth_accounts"@,
        ApiCall::EthBlockNumber => "eth_blockNumber"@,
        ApiCall::EthGetBlockByNumber => "eth_getBlockByNumber"@,
        ApiCall::EthGasPrice => "eth_gasPrice"@,
        ApiCall::EthGetBalance => "eth_getBalance"@,
        ApiCall::EthGetBlockByHash => "eth_getBlockByHash"@,
        ApiCall::EthGetTransactionByReceipt => "eth_getTransactionReceipt"@,
        ApiCall::EthGetBlockTransactionCountByHash => "eth_getBlockTransactionCountByHash"@,
        ApiCall::EthGetBlockTransactionCountByNumber => "eth_getBlockTransactionCountByNumber"@,
        ApiCall::EthGetCode => "eth_getCode"@,
        ApiCall::EthGetLogs => "eth_getLogs"@,
        ApiCall::EthGetStorageAt => "eth_getStorageAt"@,
        ApiCall::EthGetTransactionByBlockHashAndIndex => "eth_getTransactionByBlockHashAndIndex"@,
        ApiCall::EthGetTransactionByBlockNumberAndIndex => "eth_getTransactionByBlockNumberAndIndex"@,
        ApiCall::EthGetUncleByBlockNumberAndIndex => "eth_getUncleByBlockNumberAndIndex"@,
        ApiCall::EthGetUncleByBlockHashAndIndex => "eth_getUncleByBlockHashAndIndex"@,
        ApiCall::EthGetUncleCountByBlockHash => "eth_getUncleCountByBlockHash"@,
        ApiCall::EthGetUncleCountByBlockNumber => "eth_getUncleCountByBlockNumber"@,
        ApiCall::EthGetWork => "eth_getWork"@,
        ApiCall::EthHashrate => "eth_hashrate"@,
        ApiCall::EthMining => "eth_mining"@,
        ApiCall::EthProtocolVersion => "eth_protocolVersion"@,
        ApiCall::EthSyncing => "eth_syncing"@,
        ApiCall::EthGetTransactionByHash => "eth_getTransactionByHash"@,
        ApiCall::EthGetTransactionCount => "eth_getTransactionCount"@,
        ApiCall::NetListening => "net_listening"@,
        ApiCall::NetPeerCount => "net_peerCount"@,
        ApiCall::NetVersion => "net_version"@,
        ApiCall::TraceCall => "trace_call"@,
        ApiCall::TraceRawTransaction => "trace_rawTransaction"@,
        ApiCall::TraceReplayTransaction => "trace_replayTransaction"@,
        ApiCall::TraceReplayBlockTransaction => "trace_replayBlockTransactions"@,
        ApiCall::TraceBlock => "trace_block"@,
        ApiCall::TraceFilter => "trace_filter"@,
        ApiCall::TraceGet => "trace_get"@,
        ApiCall::TraceTransaction => "trace_transaction"@,
    }
}

/// The variant name of each call, as text.
pub open spec fn spec_call_name(c: ApiCall) -> Seq<char> {
    match c {
        ApiCall::EthAccounts => "EthAccounts"@,
        ApiCall::EthBlockNumber => "EthBlockNumber"@,
        ApiCall::EthGetBlockByNumber => "EthGetBlockByNumber"@,
        ApiCall::EthGasPrice => "EthGasPrice"@,
        ApiCall::EthGetBalance => "EthGetBalance"@,
        ApiCall::EthGetBlockByHash => "EthGetBlockByHash"@,
        ApiCall::EthGetTransactionByReceipt => "EthGetTransactionByReceipt"@,
        ApiCall::EthGetBlockTransactionCountByHash => "EthGetBlockTransactionCountByHash"@,
        ApiCall::EthGetBlockTransactionCountByNumber => "EthGetBlockTransactionCountByNumber"@,
        ApiCall::EthGetCode => "EthGetCode"@,
        ApiCall::EthGetLogs => "EthGetLogs"@,
        ApiCall::EthGetStorageAt => "EthGetStorageAt"@,
        ApiCall::EthGetTransactionByBlockHashAndIndex => "EthGetTransactionByBlockHashAndIndex"@,
        ApiCall::EthGetTransactionByBlockNumberAndIndex => "EthGetTransactionByBlockNumberAndIndex"@,
        ApiCall::EthGetUncleByBlockNumberAndIndex => "EthGetUncleByBlockNumberAndIndex"@,
        ApiCall::EthGetUncleByBlockHashAndIndex => "EthGetUncleByBlockHashAndIndex"@,
        ApiCall::EthGetUncleCountByBlockHash => "EthGetUncleCountByBlockHash"@,
        ApiCall::EthGetUncleCountByBlockNumber => "EthGetUncleCountByBlockNumber"@,
        ApiCall::EthGetWork => "EthGetWork"@,
        ApiCall::EthHashrate => "EthHashrate"@,
        ApiCall::EthMining => "EthMining"@,
        ApiCall::EthProtocolVersion => "EthProtocolVersion"@,
        ApiCall::EthSyncing => "EthSyncing"@,
        ApiCall::EthGetTransactionByHash => "EthGetTransactionByHash"@,
        ApiCall::EthGetTransactionCount => "EthGetTransactionCount"@,
        ApiCall::NetListening => "NetListening"@,
        ApiCall::NetPeerCount => "NetPeerCount"@,
        ApiCall::NetVersion => "NetVersion"@,
        ApiCall::TraceCall => "TraceCall"@,
        ApiCall::TraceRawTransaction => "TraceRawTransaction"@,
        ApiCall::TraceReplayTransaction => "TraceReplayTransaction"@,
        ApiCall::TraceReplayBlockTransaction => "TraceReplayBlockTransaction"@,
        ApiCall::TraceBlock => "TraceBlock"@,
        ApiCall::TraceFilter => "TraceFilter"@,
        ApiCall::TraceGet => "TraceGet"@,
        ApiCall::TraceTransaction => "TraceTransaction"@,
    }
}

/// The decode rule of each call: which result shape its responses carry.
pub open spec fn spec_result_shape(c: ApiCall) -> ResultShape {
    match c {
        ApiCall::EthAccounts => ResultShape::Unit,
        ApiCall::EthBlockNumber => ResultShape::Hex,
        ApiCall::EthGetBlockByNumber => ResultShape::Block,
        ApiCall::EthGasPrice => ResultShape::Hex,
        ApiCall::EthGetBalance => ResultShape::Hex,
        ApiCall::EthGetBlockByHash => ResultShape::Block,
        ApiCall::EthGetTransactionByReceipt => ResultShape::Unit,
        ApiCall::EthGetBlockTransactionCountByHash => ResultShape::Hex,
        ApiCall::EthGetBlockTransactionCountByNumber => ResultShape::Hex,
        ApiCall::EthGetCode => ResultShape::Hex,
        ApiCall::EthGetLogs => ResultShape::Unit,
        ApiCall::EthGetStorageAt => ResultShape::Hex,
        ApiCall::EthGetTransactionByBlockHashAndIndex => ResultShape::Transaction,
        ApiCall::EthGetTransactionByBlockNumberAndIndex => ResultShape::Transaction,
        ApiCall::EthGetUncleByBlockNumberAndIndex => ResultShape::Block,
        ApiCall::EthGetUncleByBlockHashAndIndex => ResultShape::Block,
        ApiCall::EthGetUncleCountByBlockHash => ResultShape::Hex,
        ApiCall::EthGetUncleCountByBlockNumber => ResultShape::Hex,
        ApiCall::EthGetWork => ResultShape::Unit,
        ApiCall::EthHashrate => ResultShape::Hex,
        ApiCall::EthMining => ResultShape::Unit,
        ApiCall::EthProtocolVersion => ResultShape::Hex,
        ApiCall::EthSyncing => ResultShape::Unit,
        ApiCall::EthGetTransactionByHash => ResultShape::Transaction,
        ApiCall::EthGetTransactionCount => ResultShape::Hex,
        ApiCall::NetListening => ResultShape::Unit,
        ApiCall::NetPeerCount => ResultShape::Hex,
        ApiCall::NetVersion => ResultShape::Hex,
        ApiCall::TraceCall => ResultShape::Unit,
        ApiCall::TraceRawTransaction => ResultShape::Unit,
        ApiCall::TraceReplayTransaction => ResultShape::Unit,
        ApiCall::TraceReplayBlockTransaction => ResultShape::Unit,
        ApiCall::TraceBlock => ResultShape::Unit,
        ApiCall::TraceFilter => ResultShape::Unit,
        ApiCall::TraceGet => ResultShape::Unit,
        ApiCall::TraceTransaction => ResultShape::Unit,
    }
}

/// The registry lookup by correlation id; `None` for an id no call owns.
pub open spec fn spec_from_id(id: u32) -> Option<ApiCall> {
    if id == 1 {
        Some(ApiCall::EthAccounts)
    } else if id == 2 {
        Some(ApiCall::EthBlockNumber)
    } else if id == 3 {
        Some(ApiCall::EthGetBlockByNumber)
    } else if id == 4 {
        Some(ApiCall::EthGasPrice)
    } else if id == 5 {
        Some(ApiCall::EthGetBalance)
    } else if id == 6 {
        Some(ApiCall::EthGetBlockByHash)
    } else if id == 7 {
        Some(ApiCall::EthGetTransactionByReceipt)
    } else if id == 8 {
        Some(ApiCall::EthGetBlockTransactionCountByHash)
    } else if id == 9 {
        Some(ApiCall::EthGetBlockTransactionCountByNumber)
    } else if id == 10 {
        Some(ApiCall::EthGetCode)
    } else if id == 11 {
        Some(ApiCall::EthGetLogs)
    } else if id == 12 {
        Some(ApiCall::EthGetStorageAt)
    } else if id == 13 {
        Some(ApiCall::EthGetTransactionByBlockHashAndIndex)
    } else if id == 14 {
        Some(ApiCall::EthGetTransactionByBlockNumberAndIndex)
    } else if id == 15 {
        Some(ApiCall::EthGetUncleByBlockNumberAndIndex)
    } else if id == 16 {
        Some(ApiCall::EthGetUncleByBlockHashAndIndex)
    } else if id == 17 {
        Some(ApiCall::EthGetUncleCountByBlockHash)
    } else if id == 18 {
        Some(ApiCall::EthGetUncleCountByBlockNumber)
    } else if id == 19 {
        Some(ApiCall::EthGetWork)
    } else if id == 20 {
        Some(ApiCall::EthHashrate)
    } else if id == 21 {
        Some(ApiCall::EthMining)
    } else if id == 22 {
        Some(ApiCall::EthProtocolVersion)
    } else if id == 23 {
        Some(ApiCall::EthSyncing)
    } else if id == 24 {
        Some(ApiCall::EthGetTransactionByHash)
    } else if id == 25 {
        Some(ApiCall::EthGetTransactionCount)
    } else if id == 1001 {
        Some(ApiCall::NetListening)
    } else if id == 1002 {
        Some(ApiCall::NetPeerCount)
    } else if id == 1003 {
        Some(ApiCall::NetVersion)
    } else if id == 101 {
        Some(ApiCall::TraceCall)
    } else if id == 102 {
        Some(ApiCall::TraceRawTransaction)
    } else if id == 103 {
        Some(ApiCall::TraceReplayTransaction)
    } else if id == 104 {
        Some(ApiCall::TraceReplayBlockTransaction)
    } else if id == 105 {
        Some(ApiCall::TraceBlock)
    } else if id == 106 {
        Some(ApiCall::TraceFilter)
    } else if id == 107 {
        Some(ApiCall::TraceGet)
    } else if id == 108 {
        Some(ApiCall::TraceTransaction)
    } else {
        None
    }
}

impl ApiCall {
    /// The stable numeric id, used as the JSON-RPC correlation id.
    pub fn id(&self) -> (r: u32)
        ensures
            r == spec_call_id(*self),
    {
        match self {
            ApiCall::EthAccounts => 1,
            ApiCall::EthBlockNumber => 2,
            ApiCall::EthGetBlockByNumber => 3,
            ApiCall::EthGasPrice => 4,
            ApiCall::EthGetBalance => 5,
            ApiCall::EthGetBlockByHash => 6,
            ApiCall::EthGetTransactionByReceipt => 7,
            ApiCall::EthGetBlockTransactionCountByHash => 8,
            ApiCall::EthGetBlockTransactionCountByNumber => 9,
            ApiCall::EthGetCode => 10,
            ApiCall::EthGetLogs => 11,
            ApiCall::EthGetStorageAt => 12,
            ApiCall::EthGetTransactionByBlockHashAndIndex => 13,
            ApiCall::EthGetTransactionByBlockNumberAndIndex => 14,
            ApiCall::EthGetUncleByBlockNumberAndIndex => 15,
            ApiCall::EthGetUncleByBlockHashAndIndex => 16,
            ApiCall::EthGetUncleCountByBlockHash => 17,
            ApiCall::EthGetUncleCountByBlockNumber => 18,
            ApiCall::EthGetWork => 19,
            ApiCall::EthHashrate => 20,
            ApiCall::EthMining => 21,
            ApiCall::EthProtocolVersion => 22,
            ApiCall::EthSyncing => 23,
            ApiCall::EthGetTransactionByHash => 24,
            ApiCall::EthGetTransactionCount => 25,
            ApiCall::NetListening => 1001,
            ApiCall::NetPeerCount => 1002,
            ApiCall::NetVersion => 1003,
            ApiCall::TraceCall => 101,
            ApiCall::TraceRawTransaction => 102,
            ApiCall::TraceReplayTransaction => 103,
            ApiCall::TraceReplayBlockTransaction => 104,
            ApiCall::TraceBlock => 105,
            ApiCall::TraceFilter => 106,
            ApiCall::TraceGet => 107,
            ApiCall::TraceTransaction => 108,
        }
    }

    /// The wire method name sent in the request's `method` field.
    pub fn method_info(&self) -> (r: String)
        ensures
            r@ == spec_wire_name(*self),
    {
        match self {
            ApiCall::EthAccounts => String::from_str("eth_accounts"),
            ApiCall::EthBlockNumber => String::from_str("eth_blockNumber"),
            ApiCall::EthGetBlockByNumber => String::from_str("eth_getBlockByNumber"),
            ApiCall::EthGasPrice => String::from_str("eth_gasPrice"),
            ApiCall::EthGetBalance => String::from_str("eth_getBalance"),
            ApiCall::EthGetBlockByHash => String::from_str("eth_getBlockByHash"),
            ApiCall::EthGetTransactionByReceipt => String::from_str("eth_getTransactionReceipt"),
            ApiCall::EthGetBlockTransactionCountByHash => String::from_str("eth_getBlockTransactionCountByHash"),
            ApiCall::EthGetBlockTransactionCountByNumber => String::from_str("eth_getBlockTransactionCountByNumber"),
            ApiCall::EthGetCode => String::from_str("eth_getCode"),
            ApiCall::EthGetLogs => String::from_str("eth_getLogs"),
            ApiCall::EthGetStorageAt => String::from_str("eth_getStorageAt"),
            ApiCall::EthGetTransactionByBlockHashAndIndex => String::from_str("eth_getTransactionByBlockHashAndIndex"),
            ApiCall::EthGetTransactionByBlockNumberAndIndex => String::from_str("eth_getTransactionByBlockNumberAndIndex"),
            ApiCall::EthGetUncleByBlockNumberAndIndex => String::from_str("eth_getUncleByBlockNumberAndIndex"),
            ApiCall::EthGetUncleByBlockHashAndIndex => String::from_str("eth_getUncleByBlockHashAndIndex"),
            ApiCall::EthGetUncleCountByBlockHash => String::from_str("eth_getUncleCountByBlockHash"),
            ApiCall::EthGetUncleCountByBlockNumber => String::from_str("eth_getUncleCountByBlockNumber"),
            ApiCall::EthGetWork => String::from_str("eth_getWork"),
            ApiCall::EthHashrate => String::from_str("eth_hashrate"),
            ApiCall::EthMining => String::from_str("eth_mining"),
            ApiCall::EthProtocolVersion => String::from_str("eth_protocolVersion"),
            ApiCall::EthSyncing => String::from_str("eth_syncing"),
            ApiCall::EthGetTransactionByHash => String::from_str("eth_getTransactionByHash"),
            ApiCall::EthGetTransactionCount => String::from_str("eth_getTransactionCount"),
            ApiCall::NetListening => String::from_str("net_listening"),
            ApiCall::NetPeerCount => String::from_str("net_peerCount"),
            ApiCall::NetVersion => String::from_str("net_version"),
            ApiCall::TraceCall => String::from_str("trace_call"),
            ApiCall::TraceRawTransaction => String::from_str("trace_rawTransaction"),
            ApiCall::TraceReplayTransaction => String::from_str("trace_replayTransaction"),
            ApiCall::TraceReplayBlockTransaction => String::from_str("trace_replayBlockTransactions"),
            ApiCall::TraceBlock => String::from_str("trace_block"),
            ApiCall::TraceFilter => String::from_str("trace_filter"),
            ApiCall::TraceGet => String::from_str("trace_get"),
            ApiCall::TraceTransaction => String::from_str("trace_transaction"),
        }
    }

    /// The variant name, as text.
    pub fn to_str(&self) -> (r: String)
        ensures
            r@ == spec_call_name(*self),
    {
        match self {
            ApiCall::EthAccounts => String::from_str("EthAccounts"),
            ApiCall::EthBlockNumber => String::from_str("EthBlockNumber"),
            ApiCall::EthGetBlockByNumber => String::from_str("EthGetBlockByNumber"),
            ApiCall::EthGasPrice => String::from_str("EthGasPrice"),
            ApiCall::EthGetBalance => String::from_str("EthGetBalance"),
            ApiCall::EthGetBlockByHash => String::from_str("EthGetBlockByHash"),
            ApiCall::EthGetTransactionByReceipt => String::from_str("EthGetTransactionByReceipt"),
            ApiCall::EthGetBlockTransactionCountByHash => String::from_str("EthGetBlockTransactionCountByHash"),
            ApiCall::EthGetBlockTransactionCountByNumber => String::from_str("EthGetBlockTransactionCountByNumber"),
            ApiCall::EthGetCode => String::from_str("EthGetCode"),
            ApiCall::EthGetLogs => String::from_str("EthGetLogs"),
            ApiCall::EthGetStorageAt => String::from_str("EthGetStorageAt"),
            ApiCall::EthGetTransactionByBlockHashAndIndex => String::from_str("EthGetTransactionByBlockHashAndIndex"),
            ApiCall::EthGetTransactionByBlockNumberAndIndex => String::from_str("EthGetTransactionByBlockNumberAndIndex"),
            ApiCall::EthGetUncleByBlockNumberAndIndex => String::from_str("EthGetUncleByBlockNumberAndIndex"),
            ApiCall::EthGetUncleByBlockHashAndIndex => String::from_str("EthGetUncleByBlockHashAndIndex"),
            ApiCall::EthGetUncleCountByBlockHash => String::from_str("EthGetUncleCountByBlockHash"),
            ApiCall::EthGetUncleCountByBlockNumber => String::from_str("EthGetUncleCountByBlockNumber"),
            ApiCall::EthGetWork => String::from_str("EthGetWork"),
            ApiCall::EthHashrate => String::from_str("EthHashrate"),
            ApiCall::EthMining => String::from_str("EthMining"),
            ApiCall::EthProtocolVersion => String::from_str("EthProtocolVersion"),
            ApiCall::EthSyncing => String::from_str("EthSyncing"),
            ApiCall::EthGetTransactionByHash => String::from_str("EthGetTransactionByHash"),
            ApiCall::EthGetTransactionCount => String::from_str("EthGetTransactionCount"),
            ApiCall::NetListening => String::from_str("NetListening"),
            ApiCall::NetPeerCount => String::from_str("NetPeerCount"),
            ApiCall::NetVersion => String::from_str("NetVersion"),
            ApiCall::TraceCall => String::from_str("TraceCall"),
            ApiCall::TraceRawTransaction => String::from_str("TraceRawTransaction"),
            ApiCall::TraceReplayTransaction => String::from_str("TraceReplayTransaction"),
            ApiCall::TraceReplayBlockTransaction => String::from_str("TraceReplayBlockTransaction"),
            ApiCall::TraceBlock => String::from_str("TraceBlock"),
            ApiCall::TraceFilter => String::from_str("TraceFilter"),
            ApiCall::TraceGet => String::from_str("TraceGet"),
            ApiCall::TraceTransaction => String::from_str("TraceTransaction"),
        }
    }

    /// The decode rule: the one result shape responses to this call may carry.
    pub fn result_shape(&self) -> (r: ResultShape)
        ensures
            r == spec_result_shape(*self),
    {
        match self {
            ApiCall::EthAccounts => ResultShape::Unit,
            ApiCall::EthBlockNumber => ResultShape::Hex,
            ApiCall::EthGetBlockByNumber => ResultShape::Block,
            ApiCall::EthGasPrice => ResultShape::Hex,
            ApiCall::EthGetBalance => ResultShape::Hex,
            ApiCall::EthGetBlockByHash => ResultShape::Block,
            ApiCall::EthGetTransactionByReceipt => ResultShape::Unit,
            ApiCall::EthGetBlockTransactionCountByHash => ResultShape::Hex,
            ApiCall::EthGetBlockTransactionCountByNumber => ResultShape::Hex,
            ApiCall::EthGetCode => ResultShape::Hex,
            ApiCall::EthGetLogs => ResultShape::Unit,
            ApiCall::EthGetStorageAt => ResultShape::Hex,
            ApiCall::EthGetTransactionByBlockHashAndIndex => ResultShape::Transaction,
            ApiCall::EthGetTransactionByBlockNumberAndIndex => ResultShape::Transaction,
            ApiCall::EthGetUncleByBlockNumberAndIndex => ResultShape::Block,
            ApiCall::EthGetUncleByBlockHashAndIndex => ResultShape::Block,
            ApiCall::EthGetUncleCountByBlockHash => ResultShape::Hex,
            ApiCall::EthGetUncleCountByBlockNumber => ResultShape::Hex,
            ApiCall::EthGetWork => ResultShape::Unit,
            ApiCall::EthHashrate => ResultShape::Hex,
            ApiCall::EthMining => ResultShape::Unit,
            ApiCall::EthProtocolVersion => ResultShape::Hex,
            ApiCall::EthSyncing => ResultShape::Unit,
            ApiCall::EthGetTransactionByHash => ResultShape::Transaction,
            ApiCall::EthGetTransactionCount => ResultShape::Hex,
            ApiCall::NetListening => ResultShape::Unit,
            ApiCall::NetPeerCount => ResultShape::Hex,
            ApiCall::NetVersion => ResultShape::Hex,
            ApiCall::TraceCall => ResultShape::Unit,
            ApiCall::TraceRawTransaction => ResultShape::Unit,
            ApiCall::TraceReplayTransaction => ResultShape::Unit,
            ApiCall::TraceReplayBlockTransaction => ResultShape::Unit,
            ApiCall::TraceBlock => ResultShape::Unit,
            ApiCall::TraceFilter => ResultShape::Unit,
            ApiCall::TraceGet => ResultShape::Unit,
            ApiCall::TraceTransaction => ResultShape::Unit,
        }
    }

    /// Resolves a correlation id back to the call that owns it.
    pub fn from_id(id: u32) -> (r: Option<ApiCall>)
        ensures
            r == spec_from_id(id),
    {
        if id == 1 {
            Some(ApiCall::EthAccounts)
        } else if id == 2 {
            Some(ApiCall::EthBlockNumber)
        } else if id == 3 {
            Some(ApiCall::EthGetBlockByNumber)
        } else if id == 4 {
            Some(ApiCall::EthGasPrice)
        } else if id == 5 {
            Some(ApiCall::EthGetBalance)
        } else if id == 6 {
            Some(ApiCall::EthGetBlockByHash)
        } else if id == 7 {
            Some(ApiCall::EthGetTransactionByReceipt)
        } else if id == 8 {
            Some(ApiCall::EthGetBlockTransactionCountByHash)
        } else if id == 9 {
            Some(ApiCall::EthGetBlockTransactionCountByNumber)
        } else if id == 10 {
            Some(ApiCall::EthGetCode)
        } else if id == 11 {
            Some(ApiCall::EthGetLogs)
        } else if id == 12 {
            Some(ApiCall::EthGetStorageAt)
        } else if id == 13 {
            Some(ApiCall::EthGetTransactionByBlockHashAndIndex)
        } else if id == 14 {
            Some(ApiCall::EthGetTransactionByBlockNumberAndIndex)
        } else if id == 15 {
            Some(ApiCall::EthGetUncleByBlockNumberAndIndex)
        } else if id == 16 {
            Some(ApiCall::EthGetUncleByBlockHashAndIndex)
        } else if id == 17 {
            Some(ApiCall::EthGetUncleCountByBlockHash)
        } else if id == 18 {
            Some(ApiCall::EthGetUncleCountByBlockNumber)
        } else if id == 19 {
            Some(ApiCall::EthGetWork)
        } else if id == 20 {
            Some(ApiCall::EthHashrate)
        } else if id == 21 {
            Some(ApiCall::EthMining)
        } else if id == 22 {
            Some(ApiCall::EthProtocolVersion)
        } else if id == 23 {
            Some(ApiCall::EthSyncing)
        } else if id == 24 {
            Some(ApiCall::EthGetTransactionByHash)
        } else if id == 25 {
            Some(ApiCall::EthGetTransactionCount)
        } else if id == 1001 {
            Some(ApiCall::NetListening)
        } else if id == 1002 {
            Some(ApiCall::NetPeerCount)
        } else if id == 1003 {
            Some(ApiCall::NetVersion)
        } else if id == 101 {
            Some(ApiCall::TraceCall)
        } else if id == 102 {
            Some(ApiCall::TraceRawTransaction)
        } else if id == 103 {
            Some(ApiCall::TraceReplayTransaction)
        } else if id == 104 {
            Some(ApiCall::TraceReplayBlockTransaction)
        } else if id == 105 {
            Some(ApiCall::TraceBlock)
        } else if id == 106 {
            Some(ApiCall::TraceFilter)
        } else if id == 107 {
            Some(ApiCall::TraceGet)
        } else if id == 108 {
            Some(ApiCall::TraceTransaction)
        } else {
            None
        }
    }
}

/// The registry's correlation invariant: resolving a call's own id always
/// finds that same call back, so an id in flight never names two methods.
pub proof fn lemma_id_round_trip(c: ApiCall)
    ensures
        spec_from_id(spec_call_id(c)) == Some(c),
{
}

} // verus!
