//! RPC-facing types: the `getrawmempool` response and the JSON-RPC
//! middleware wrappers.
use crate::fat_pointer::{bytes_equal, hash_display_hex, hex_lower, hex_string};
use std::collections::HashMap;
use vstd::prelude::*;

verus! {

/// A mempool transaction details object as returned by `getrawmempool` in
/// verbose mode.
#[derive(Clone, Debug, PartialEq, Eq)]
pub struct MempoolObject {
    /// Transaction size in bytes.
    pub size: u64,
    /// Transaction fee in zatoshi.
    pub fee: u64,
    /// Transaction fee with fee deltas used for mining priority, in zatoshi.
    pub modified_fee: u64,
    /// Local time the transaction entered the pool, in seconds since the Unix epoch.
    pub time: i64,
    /// Block height when the transaction entered the pool.
    pub height: u32,
    /// Number of in-mempool descendant transactions (including this one).
    pub descendantcount: u64,
    /// Size of in-mempool descendants (including this one).
    pub descendantsize: u64,
    /// Modified fees of in-mempool descendants (including this one).
    pub descendantfees: u64,
    /// Transaction IDs of unconfirmed transactions used as inputs for this transaction.
    pub depends: Vec<String>,
}

impl MempoolObject {
    /// A details object from its fields.
    #[allow(clippy::too_many_arguments)]
    pub fn new(
        size: u64,
        fee: u64,
        modified_fee: u64,
        time: i64,
        height: u32,
        descendantcount: u64,
        descendantsize: u64,
        descendantfees: u64,
        depends: Vec<String>,
    ) -> (r: MempoolObject)
        ensures
            r.size == size,
            r.fee == fee,
            r.modified_fee == modified_fee,
            r.time == time,
            r.height == height,
            r.descendantcount == descendantcount,
            r.descendantsize == descendantsize,
            r.descendantfees == descendantfees,
            r.depends@ == depends@,
    {
        MempoolObject {
            size,
            fee,
            modified_fee,
            time,
            height,
            descendantcount,
            descendantsize,
            descendantfees,
            depends,
        }
    }

    /// Transaction size in bytes.
    pub fn size(&self) -> (r: u64)
        ensures
            r == self.size,
    {
        self.size
    }

    /// Transaction fee in zatoshi.
    pub fn fee(&self) -> (r: u64)
        ensures
            r == self.fee,
    {
        self.fee
    }

    /// Modified fee in zatoshi.
    pub fn modified_fee(&self) -> (r: u64)
        ensures
            r == self.modified_fee,
    {
        self.modified_fee
    }

    /// Entry time.
    pub fn time(&self) -> (r: i64)
        ensures
            r == self.time,
    {
        self.time
    }

    /// Entry height.
    pub fn height(&self) -> (r: u32)
        ensures
            r == self.height,
    {
        self.height
    }

    /// Number of in-mempool descendants, including this transaction.
    pub fn descendantcount(&self) -> (r: u64)
        ensures
            r == self.descendantcount,
    {
        self.descendantcount
    }

    /// Size of in-mempool descendants, including this transaction.
    pub fn descendantsize(&self) -> (r: u64)
        ensures
            r == self.descendantsize,
    {
        self.descendantsize
    }

    /// Modified fees of in-mempool descendants, including this transaction.
    pub fn descendantfees(&self) -> (r: u64)
        ensures
            r == self.descendantfees,
    {
        self.descendantfees
    }

    /// Transaction IDs this transaction depends on.
    pub fn depends(&self) -> (r: &Vec<String>)
        ensures
            r@ == self.depends@,
    {
        &self.depends
    }
}

/// The most zatoshi that can ever exist: 21 million ZEC.
pub const MAX_MONEY: u64 = 2100000000000000;

/// A verified mempool transaction, as far as the `getrawmempool` details use it.
#[derive(Clone, Copy, Debug, PartialEq, Eq)]
pub struct MempoolTx {
    /// The transaction id, in internal byte order.
    pub id: [u8; 32],
    /// Serialized size in bytes.
    pub size: usize,
    /// The fee paid to the miner, in zatoshi.
    pub miner_fee: u64,
    /// When the transaction entered the pool, in seconds since the Unix epoch.
    pub time: Option<i64>,
    /// The tip height when the transaction entered the pool.
    pub height: Option<u32>,
}

/// The in-mempool transactions each transaction spends from (its
/// dependencies) and those spending from it (its dependents), by id. The
/// mempool's maps of id sets hold each id at most once, as key and within
/// each set; [transaction_dependencies_wf] states that, and
/// [TransactionDependencies::is_well_formed] checks it.
#[derive(Clone, Debug, PartialEq, Eq)]
pub struct TransactionDependencies {
    /// For each listed transaction, the transactions it spends from.
    pub dependencies: Vec<([u8; 32], Vec<[u8; 32]>)>,
    /// For each listed transaction, the transactions spending from it.
    pub dependents: Vec<([u8; 32], Vec<[u8; 32]>)>,
}

/// No id occurs twice in `ids`.
pub open spec fn ids_distinct(ids: Seq<[u8; 32]>) -> bool {
    forall|i: int, j: int| 0 <= i < j < ids.len() ==> (#[trigger] ids[i])@ != (#[trigger] ids[j])@
}

/// A table keyed by id as the mempool's maps hold it: each id is a key at
/// most once, and each listed set holds an id at most once.
pub open spec fn id_table_wf(table: Seq<([u8; 32], Vec<[u8; 32]>)>) -> bool {
    &&& forall|i: int, j: int|
        0 <= i < j < table.len() ==> (#[trigger] table[i]).0@ != (#[trigger] table[j]).0@
    &&& forall|i: int| 0 <= i < table.len() ==> ids_distinct((#[trigger] table[i]).1@)
}

/// The dependency tables as the mempool's maps of id sets hold them.
pub open spec fn transaction_dependencies_wf(d: TransactionDependencies) -> bool {
    id_table_wf(d.dependencies@) && id_table_wf(d.dependents@)
}

/// Whether no id occurs twice in `ids`.
fn ids_distinct_check(ids: &Vec<[u8; 32]>) -> (r: bool)
    ensures
        r == ids_distinct(ids@),
{
    let n = ids.len();
    let mut j: usize = 0;
    while j < n
        invariant
            0 <= j <= n,
            n == ids@.len(),
            forall|a: int, b: int| 0 <= a < b < j ==> (#[trigger] ids@[a])@ != (#[trigger] ids@[b])@,
        decreases n - j,
    {
        let mut i: usize = 0;
        while i < j
            invariant
                0 <= i <= j < n,
                n == ids@.len(),
                forall|a: int, b: int| 0 <= a < b < j ==> (#[trigger] ids@[a])@ != (#[trigger] ids@[b])@,
                forall|a: int| 0 <= a < i ==> (#[trigger] ids@[a])@ != ids@[j as int]@,
            decreases j - i,
        {
            if bytes_equal(&ids[i], &ids[j]) {
                return false;
            }
            i = i + 1;
        }
        j = j + 1;
    }
    true
}

/// Whether a table holds each id at most once, as key and within each set.
fn id_table_check(table: &Vec<([u8; 32], Vec<[u8; 32]>)>) -> (r: bool)
    ensures
        r == id_table_wf(table@),
{
    let n = table.len();
    let mut j: usize = 0;
    while j < n
        invariant
            0 <= j <= n,
            n == table@.len(),
            forall|a: int, b: int|
                0 <= a < b < j ==> (#[trigger] table@[a]).0@ != (#[trigger] table@[b]).0@,
            forall|a: int| 0 <= a < j ==> ids_distinct((#[trigger] table@[a]).1@),
        decreases n - j,
    {
        if !ids_distinct_check(&table[j].1) {
            return false;
        }
        let mut i: usize = 0;
        while i < j
            invariant
                0 <= i <= j < n,
                n == table@.len(),
                forall|a: int, b: int|
                    0 <= a < b < j ==> (#[trigger] table@[a]).0@ != (#[trigger] table@[b]).0@,
                forall|a: int| 0 <= a < i ==> (#[trigger] table@[a]).0@ != table@[j as int].0@,
            decreases j - i,
        {
            if bytes_equal(&table[i].0, &table[j].0) {
                return false;
            }
            i = i + 1;
        }
        j = j + 1;
    }
    true
}

impl TransactionDependencies {
    /// Whether the tables hold each id at most once, as key and within each
    /// set, as the mempool's maps of id sets do.
    pub fn is_well_formed(&self) -> (r: bool)
        ensures
            r == transaction_dependencies_wf(*self),
    {
        id_table_check(&self.dependencies) && id_table_check(&self.dependents)
    }
}

/// The ids listed for `id`: those of its first entry, or none.
pub open spec fn listed_ids(table: Seq<([u8; 32], Vec<[u8; 32]>)>, id: Seq<u8>) -> Seq<[u8; 32]>
    decreases table.len(),
{
    if table.len() == 0 {
        Seq::empty()
    } else if table[0].0@ == id {
        table[0].1@
    } else {
        listed_ids(table.drop_first(), id)
    }
}

/// The index of the last transaction with id `id`, the one a lookup by id finds.
pub open spec fn tx_index(txs: Seq<MempoolTx>, id: Seq<u8>) -> Option<int>
    decreases txs.len(),
{
    if txs.len() == 0 {
        None
    } else if txs.last().id@ == id {
        Some(txs.len() - 1)
    } else {
        tx_index(txs.drop_last(), id)
    }
}

/// Amount addition: the sum when it is a valid amount, else zero.
pub open spec fn amount_add_or_zero(a: int, b: int) -> int {
    if a + b <= MAX_MONEY {
        a + b
    } else {
        0
    }
}

/// The size and fees of the dependents found in the mempool, in order.
pub open spec fn dependents_totals(txs: Seq<MempoolTx>, deps: Seq<[u8; 32]>) -> (int, int)
    decreases deps.len(),
{
    if deps.len() == 0 {
        (0, 0)
    } else {
        let (size, fees) = dependents_totals(txs, deps.drop_last());
        match tx_index(txs, deps.last()@) {
            Some(i) => (size + txs[i].size, amount_add_or_zero(fees, txs[i].miner_fee as int)),
            None => (size, fees),
        }
    }
}

/// The display form of a transaction id: the hexadecimal of its bytes in
/// reverse order.
pub open spec fn txid_hex(id: Seq<u8>) -> Seq<char> {
    hex_lower(id.reverse())
}

/// Every fee is a valid amount and the descendant sizes fit in a `u64`.
pub open spec fn mempool_tx_valid(
    unmined_tx: MempoolTx,
    transactions: Seq<MempoolTx>,
    dependents: Seq<[u8; 32]>,
) -> bool {
    &&& unmined_tx.miner_fee <= MAX_MONEY
    &&& forall|i: int| 0 <= i < transactions.len() ==> (#[trigger] transactions[i]).miner_fee
        <= MAX_MONEY
    &&& dependents_totals(transactions, dependents).0 + unmined_tx.size <= u64::MAX
    &&& dependents.len() < u64::MAX
}

/// A lookup table from transaction id to the index of the transaction.
pub fn transactions_by_id(transactions: &[MempoolTx]) -> (r: Vec<([u8; 32], usize)>)
    ensures
        r@.len() == transactions@.len(),
        forall|i: int|
            0 <= i < r@.len() ==> (#[trigger] r@[i]) == (transactions@[i].id, i as usize),
{
    let mut out: Vec<([u8; 32], usize)> = Vec::new();
    let mut i: usize = 0;
    while i < transactions.len()
        invariant
            0 <= i <= transactions@.len(),
            out@.len() == i,
            forall|k: int| 0 <= k < i ==> (#[trigger] out@[k]) == (transactions@[k].id, k as usize),
        decreases transactions@.len() - i,
    {
        out.push((transactions[i].id, i));
        i = i + 1;
    }
    out
}

/// The transaction with id `id`: the last one in the table.
fn lookup_tx(
    table: &Vec<([u8; 32], usize)>,
    transactions: &[MempoolTx],
    id: &[u8; 32],
) -> (r: Option<usize>)
    requires
        table@.len() == transactions@.len(),
        forall|i: int|
            0 <= i < table@.len() ==> (#[trigger] table@[i]) == (transactions@[i].id, i as usize),
    ensures
        r == match tx_index(transactions@, id@) {
            Some(i) => Some(i as usize),
            None => None::<usize>,
        },
{
    let mut k: usize = table.len();
    proof {
        assert(transactions@.subrange(0, transactions@.len() as int) == transactions@);
    }
    while k > 0
        invariant
            0 <= k <= table@.len(),
            table@.len() == transactions@.len(),
            forall|i: int|
                0 <= i < table@.len() ==> (#[trigger] table@[i]) == (transactions@[i].id, i as usize),
            tx_index(transactions@, id@) == tx_index(transactions@.subrange(0, k as int), id@),
        decreases k,
    {
        let (key, index) = table[k - 1];
        proof {
            let pre = transactions@.subrange(0, k as int);
            assert(pre.last() == transactions@[k - 1]);
            assert(pre.drop_last() == transactions@.subrange(0, k - 1));
        }
        if bytes_equal(&key, id) {
            return Some(index);
        }
        k = k - 1;
    }
    None
}

/// The ids listed for `id` in a dependency table; `None` when it has no entry.
fn listed_ids_exec<'a>(table: &'a Vec<([u8; 32], Vec<[u8; 32]>)>, id: &[u8; 32]) -> (r: Option<
    &'a Vec<[u8; 32]>,
>)
    ensures
        match r {
            Some(v) => v@ == listed_ids(table@, id@),
            None => listed_ids(table@, id@).len() == 0,
        },
{
    let mut k: usize = 0;
    proof {
        assert(table@.subrange(0, table@.len() as int) == table@);
        assert(table@.subrange(0, table@.len() as int) == table@.subrange(0, table@.len() as int));
    }
    while k < table.len()
        invariant
            0 <= k <= table@.len(),
            listed_ids(table@, id@) == listed_ids(table@.subrange(k as int, table@.len() as int), id@),
        decreases table@.len() - k,
    {
        proof {
            let rest = table@.subrange(k as int, table@.len() as int);
            assert(rest[0] == table@[k as int]);
            assert(rest.drop_first() == table@.subrange(k + 1, table@.len() as int));
        }
        if bytes_equal(&table[k].0, id) {
            return Some(&table[k].1);
        }
        k = k + 1;
    }
    proof {
        assert(table@.subrange(k as int, table@.len() as int).len() == 0);
    }
    None
}

/// The hexadecimal display form of a transaction id.
pub fn txid_to_hex(id: &[u8; 32]) -> (r: String)
    ensures
        r@ == txid_hex(id@),
{
    hash_display_hex(id)
}

impl MempoolObject {
    /// The `getrawmempool` details of a mempool transaction: its own size and
    /// fee, and the totals over it and its direct dependents that are in the
    /// mempool, with the ids it spends from.
    pub fn from_verified_unmined_tx(
        unmined_tx: &MempoolTx,
        transactions: &[MempoolTx],
        transaction_dependencies: &TransactionDependencies,
    ) -> (r: MempoolObject)
        requires
            mempool_tx_valid(
                *unmined_tx,
                transactions@,
                listed_ids(transaction_dependencies.dependents@, unmined_tx.id@),
            ),
        ensures
            ({
                let deps = listed_ids(transaction_dependencies.dependents@, unmined_tx.id@);
                let (deps_size, deps_fees) = dependents_totals(transactions@, deps);
                &&& r.size == unmined_tx.size
                &&& r.fee == unmined_tx.miner_fee
                &&& r.modified_fee == unmined_tx.miner_fee
                &&& r.time == match unmined_tx.time {
                    Some(t) => t,
                    None => 0,
                }
                &&& r.height == match unmined_tx.height {
                    Some(h) => h,
                    None => 0,
                }
                &&& r.descendantcount == deps.len() + 1
                &&& r.descendantsize == deps_size + unmined_tx.size
                &&& r.descendantfees == amount_add_or_zero(deps_fees, unmined_tx.miner_fee as int)
                &&& r.depends@.len() == listed_ids(
                    transaction_dependencies.dependencies@,
                    unmined_tx.id@,
                ).len()
                &&& forall|i: int|
                    0 <= i < r.depends@.len() ==> (#[trigger] r.depends@[i])@ == txid_hex(
                        listed_ids(transaction_dependencies.dependencies@, unmined_tx.id@)[i]@,
                    )
            }),
    {
        let table = transactions_by_id(transactions);
        let no_ids: Vec<[u8; 32]> = Vec::new();
        let deps = match listed_ids_exec(&transaction_dependencies.dependents, &unmined_tx.id) {
            Some(v) => v,
            None => &no_ids,
        };
        proof {
            assert(deps@ == listed_ids(transaction_dependencies.dependents@, unmined_tx.id@));
        }
        let ghost deps_seq = deps@;
        let mut deps_size: u64 = 0;
        let mut deps_fees: u64 = 0;
        let mut k: usize = 0;
        while k < deps.len()
            invariant
                0 <= k <= deps_seq.len(),
                deps@ == deps_seq,
                table@.len() == transactions@.len(),
                forall|i: int|
                    0 <= i < table@.len() ==> (#[trigger] table@[i]) == (
                        transactions@[i].id,
                        i as usize,
                    ),
                mempool_tx_valid(*unmined_tx, transactions@, deps_seq),
                (deps_size as int, deps_fees as int) == dependents_totals(
                    transactions@,
                    deps_seq.subrange(0, k as int),
                ),
                deps_fees <= MAX_MONEY,
            decreases deps_seq.len() - k,
        {
            proof {
                let next = deps_seq.subrange(0, k + 1);
                assert(next.drop_last() == deps_seq.subrange(0, k as int));
                assert(next.last() == deps_seq[k as int]);
                lemma_dependents_size_prefix(transactions@, deps_seq, k + 1);
                lemma_tx_index_in_range(transactions@, deps_seq[k as int]@);
            }
            match lookup_tx(&table, transactions, &deps[k]) {
                Some(i) => {
                    let tx = transactions[i];
                    deps_size = deps_size + tx.size as u64;
                    deps_fees = if deps_fees + tx.miner_fee <= MAX_MONEY {
                        deps_fees + tx.miner_fee
                    } else {
                        0
                    };
                },
                None => {},
            }
            k = k + 1;
        }
        proof {
            assert(deps_seq.subrange(0, deps_seq.len() as int) == deps_seq);
        }
        let descendantfees = if deps_fees + unmined_tx.miner_fee <= MAX_MONEY {
            deps_fees + unmined_tx.miner_fee
        } else {
            0
        };
        let parents = match listed_ids_exec(&transaction_dependencies.dependencies, &unmined_tx.id) {
            Some(v) => v,
            None => &no_ids,
        };
        proof {
            assert(parents@ == listed_ids(transaction_dependencies.dependencies@, unmined_tx.id@));
        }
        let mut depends: Vec<String> = Vec::new();
        let mut j: usize = 0;
        while j < parents.len()
            invariant
                0 <= j <= parents@.len(),
                depends@.len() == j,
                forall|i: int| 0 <= i < j ==> (#[trigger] depends@[i])@ == txid_hex(parents@[i]@),
            decreases parents@.len() - j,
        {
            depends.push(txid_to_hex(&parents[j]));
            j = j + 1;
        }
        MempoolObject {
            size: unmined_tx.size as u64,
            fee: unmined_tx.miner_fee,
            modified_fee: unmined_tx.miner_fee,
            time: match unmined_tx.time {
                Some(t) => t,
                None => 0,
            },
            height: match unmined_tx.height {
                Some(h) => h,
                None => 0,
            },
            descendantcount: deps.len() as u64 + 1,
            descendantsize: deps_size + unmined_tx.size as u64,
            descendantfees,
            depends,
        }
    }
}

proof fn lemma_dependents_size_prefix(txs: Seq<MempoolTx>, deps: Seq<[u8; 32]>, n: int)
    requires
        0 <= n <= deps.len(),
    ensures
        0 <= dependents_totals(txs, deps.subrange(0, n)).0 <= dependents_totals(txs, deps).0,
        (forall|i: int| 0 <= i < txs.len() ==> (#[trigger] txs[i]).miner_fee <= MAX_MONEY) ==> 0
            <= dependents_totals(txs, deps.subrange(0, n)).1 <= MAX_MONEY,
    decreases deps.len() - n,
{
    lemma_dependents_nonneg(txs, deps.subrange(0, n));
    if n < deps.len() {
        lemma_dependents_size_prefix(txs, deps, n + 1);
        let next = deps.subrange(0, n + 1);
        assert(next.drop_last() == deps.subrange(0, n));
        assert(next.last() == deps[n]);
        lemma_tx_index_in_range(txs, deps[n]@);
    } else {
        assert(deps.subrange(0, n) == deps);
    }
}

proof fn lemma_dependents_nonneg(txs: Seq<MempoolTx>, deps: Seq<[u8; 32]>)
    ensures
        dependents_totals(txs, deps).0 >= 0,
        (forall|i: int| 0 <= i < txs.len() ==> (#[trigger] txs[i]).miner_fee <= MAX_MONEY) ==> 0
            <= dependents_totals(txs, deps).1 <= MAX_MONEY,
    decreases deps.len(),
{
    if deps.len() > 0 {
        lemma_dependents_nonneg(txs, deps.drop_last());
        lemma_tx_index_in_range(txs, deps.last()@);
    }
}

proof fn lemma_tx_index_in_range(txs: Seq<MempoolTx>, id: Seq<u8>)
    ensures
        tx_index(txs, id) matches Some(i) ==> 0 <= i < txs.len() && txs[i].id@ == id,
    decreases txs.len(),
{
    if txs.len() > 0 {
        lemma_tx_index_in_range(txs.drop_last(), id);
        if let Some(i) = tx_index(txs.drop_last(), id) {
            if txs.last().id@ != id {
                assert(txs.drop_last()[i] == txs[i]);
            }
        }
    }
}

/// The error code label of a failed RPC request.
#[derive(Clone, Copy, Debug, PartialEq, Eq, Structural)]
pub enum ErrorCodeLabel {
    /// The JSON-RPC error code.
    Code(i32),
    /// The response carried no error code.
    Unknown,
}

/// The metrics an RPC response records: its status label and, for a failed
/// request, the error counter's code label.
#[derive(Clone, Copy, Debug, PartialEq, Eq)]
pub struct RpcResponseMetrics {
    /// "error" or "success".
    pub status: &'static str,
    /// The error code label, recorded for failed requests only.
    pub error: Option<ErrorCodeLabel>,
}

/// The metrics an RPC response records.
pub fn rpc_response_metrics(is_error: bool, error_code: Option<i32>) -> (r: RpcResponseMetrics)
    ensures
        r.status@ == if is_error {
            "error"@
        } else {
            "success"@
        },
        r.error == if is_error {
            Some(
                match error_code {
                    Some(c) => ErrorCodeLabel::Code(c),
                    None => ErrorCodeLabel::Unknown,
                },
            )
        } else {
            None
        },
{
    if is_error {
        let label = match error_code {
            Some(c) => ErrorCodeLabel::Code(c),
            None => ErrorCodeLabel::Unknown,
        };
        RpcResponseMetrics { status: "error", error: Some(label) }
    } else {
        RpcResponseMetrics { status: "success", error: None }
    }
}

/// The span fields an RPC response fills in: the status code "ERROR" and the
/// error code, for failed requests only.
pub fn rpc_span_error_fields(is_error: bool, error_code: Option<i32>) -> (r: (
    Option<&'static str>,
    Option<i32>,
))
    ensures
        match r.0 {
            Some(s) => is_error && s@ == "ERROR"@,
            None => !is_error,
        },
        r.1 == if is_error {
            error_code
        } else {
            None
        },
{
    if is_error {
        (Some("ERROR"), error_code)
    } else {
        (None, None)
    }
}

/// Response to a `getrawmempool` RPC request.
#[derive(Clone, Debug, PartialEq, Eq)]
pub enum GetRawMempoolResponse {
    /// The transaction IDs, as hex strings (verbose=0).
    TxIds(Vec<String>),
    /// A map of transaction IDs to mempool transaction details objects (verbose=1).
    Verbose(HashMap<String, MempoolObject>),
}

/// Middleware that collects Prometheus metrics for each RPC request.
#[derive(Clone)]
pub struct RpcMetricsMiddleware<S> {
    service: S,
}

impl<S> RpcMetricsMiddleware<S> {
    /// Create a new `RpcMetricsMiddleware` with the given `service`.
    pub fn new(service: S) -> (r: Self)
        ensures
            r.inner() == service,
    {
        Self { service }
    }

    /// The wrapped service.
    pub closed spec fn inner(&self) -> S {
        self.service
    }

    /// The wrapped service.
    pub fn service(&self) -> (r: &S)
        ensures
            *r == self.inner(),
    {
        &self.service
    }
}

/// Middleware that opens a server tracing span for each RPC request.
#[derive(Clone)]
pub struct RpcTracingMiddleware<S> {
    service: S,
}

impl<S> RpcTracingMiddleware<S> {
    /// Create a new `RpcTracingMiddleware` with the given `service`.
    pub fn new(service: S) -> (r: Self)
        ensures
            r.inner() == service,
    {
        Self { service }
    }

    /// The wrapped service.
    pub closed spec fn inner(&self) -> S {
        self.service
    }

    /// The wrapped service.
    pub fn service(&self) -> (r: &S)
        ensures
            *r == self.inner(),
    {
        &self.service
    }
}

} // verus!
