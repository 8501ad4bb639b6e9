//! The deterministic core of the resilient RPC client.
//!
//! The client composes the circuit breaker and the retry policy around
//! network fetches against a JSON-RPC endpoint and a REST endpoint. What
//! is verified here is everything the client decides without the network:
//! how a response status becomes an error, how a JSON-RPC envelope is
//! unpacked (`error` takes precedence over `result`), how request URLs
//! and JSON-RPC request bodies are built, and the deterministic synthetic
//! records of mock mode. Mock mode bypasses network, retry and breaker
//! entirely, so tests never observe breaker side effects; the asynchronous
//! runtime around the crate owns the actual HTTP calls and drives them
//! through [`crate::circuit_breaker`] and [`crate::retry`].

use vstd::prelude::*;

use crate::circuit_breaker::{CircuitBreaker, CircuitBreakerConfig};
use crate::retry::RetryConfig;
use crate::rpc_error::RpcError;
use crate::strutil::{spec_dec, spec_pad2, spec_pad3, pad2, pad3, u64_to_string};

verus! {

/// Retry and circuit breaker configuration for the RPC client.
#[derive(Debug, Clone, Copy, PartialEq, Eq, Structural)]
pub struct RpcClientConfig {
    pub max_retries: u32,
    pub initial_backoff_ms: u64,
    pub max_backoff_ms: u64,
    pub circuit_breaker: CircuitBreakerConfig,
}

impl RpcClientConfig {
    /// The retry view of this configuration.
    pub open spec fn spec_retry(&self) -> RetryConfig {
        RetryConfig {
            max_attempts: self.max_retries,
            base_delay_ms: self.initial_backoff_ms,
            max_delay_ms: self.max_backoff_ms,
        }
    }

    /// Sensible bounds on both halves.
    pub open spec fn wf(&self) -> bool {
        self.spec_retry().wf() && self.circuit_breaker.wf()
    }
}

/// The default client configuration: three attempts backing off from a
/// tenth of a second to five seconds, guarded by the default breaker.
pub open spec fn spec_default_client_config() -> RpcClientConfig {
    RpcClientConfig {
        max_retries: 3,
        initial_backoff_ms: 100,
        max_backoff_ms: 5_000,
        circuit_breaker: CircuitBreakerConfig {
            failure_threshold: 5,
            success_threshold: 2,
            timeout_duration_ms: 30_000,
            half_open_max_calls: 3,
        },
    }
}

impl Default for RpcClientConfig {
    /// Three attempts backing off from a tenth of a second to five
    /// seconds, guarded by the default breaker.
    fn default() -> (c: Self)
        ensures
            c == spec_default_client_config(),
            c.wf(),
    {
        RpcClientConfig {
            max_retries: 3,
            initial_backoff_ms: 100,
            max_backoff_ms: 5_000,
            circuit_breaker: CircuitBreakerConfig::default(),
        }
    }
}

// ============================================================================
// Data models
// ============================================================================

#[derive(Debug, Clone)]
pub struct HealthResponse {
    pub status: String,
    pub latest_ledger: u64,
    pub oldest_ledger: u64,
    pub ledger_retention_window: u64,
}

#[derive(Debug, Clone)]
pub struct JsonRpcResponse<T> {
    pub jsonrpc: String,
    pub id: u64,
    pub result: Option<T>,
    pub error: Option<JsonRpcError>,
}

#[derive(Debug, Clone)]
pub struct JsonRpcError {
    pub code: i32,
    pub message: String,
}

#[derive(Debug, Clone)]
pub struct LedgerInfo {
    pub sequence: u64,
    pub hash: String,
    pub previous_hash: String,
    pub transaction_count: u32,
    pub operation_count: u32,
    pub closed_at: String,
    pub total_coins: String,
    pub fee_pool: String,
    pub base_fee: u32,
    pub base_reserve: String,
}

#[derive(Debug, Clone)]
pub struct Payment {
    pub id: String,
    pub paging_token: String,
    pub transaction_hash: String,
    pub source_account: String,
    pub destination: String,
    pub asset_type: String,
    pub asset_code: Option<String>,
    pub asset_issuer: Option<String>,
    pub amount: String,
    pub created_at: String,
}

#[derive(Debug, Clone)]
pub struct HorizonTransaction {
    pub id: String,
    pub hash: String,
    pub ledger: u64,
    pub created_at: String,
    pub source_account: String,
    pub fee_account: Option<String>,
    pub fee_charged: Option<String>,
    pub max_fee: Option<String>,
    pub operation_count: u32,
    pub successful: bool,
    pub paging_token: String,
    pub fee_bump_transaction: Option<FeeBumpTransactionInfo>,
    pub inner_transaction: Option<InnerTransaction>,
}

#[derive(Debug, Clone)]
pub struct FeeBumpTransactionInfo {
    pub hash: String,
    pub signatures: Vec<String>,
}

#[derive(Debug, Clone)]
pub struct InnerTransaction {
    pub hash: String,
    pub max_fee: Option<String>,
    pub signatures: Vec<String>,
}

#[derive(Debug, Clone)]
pub struct Trade {
    pub id: String,
    pub ledger_close_time: String,
    pub base_account: String,
    pub base_amount: String,
    pub base_asset_type: String,
    pub base_asset_code: Option<String>,
    pub base_asset_issuer: Option<String>,
    pub counter_account: String,
    pub counter_amount: String,
    pub counter_asset_type: String,
    pub counter_asset_code: Option<String>,
    pub counter_asset_issuer: Option<String>,
    pub price: Price,
    pub trade_type: String,
}

#[derive(Debug, Clone, Copy, PartialEq, Eq, Structural)]
pub struct Price {
    pub n: i64,
    pub d: i64,
}

#[derive(Debug, Clone)]
pub struct OrderBook {
    pub bids: Vec<OrderBookEntry>,
    pub asks: Vec<OrderBookEntry>,
    pub base: Asset,
    pub counter: Asset,
}

#[derive(Debug, Clone)]
pub struct OrderBookEntry {
    pub price: String,
    pub amount: String,
    pub price_r: Price,
}

#[derive(Debug, Clone)]
pub struct Asset {
    pub asset_type: String,
    pub asset_code: Option<String>,
    pub asset_issuer: Option<String>,
}

/// A paginated REST collection envelope: either an embedded record list or
/// a single flattened value.
#[derive(Debug, Clone)]
pub struct HorizonResponse<T> {
    pub embedded: Option<EmbeddedRecords<T>>,
    pub data: Option<T>,
}

#[derive(Debug, Clone)]
pub struct EmbeddedRecords<T> {
    pub records: Vec<T>,
}

#[derive(Debug, Clone)]
pub struct RpcLedger {
    pub hash: String,
    pub sequence: u64,
    pub ledger_close_time: String,
    pub header_xdr: Option<String>,
    pub metadata_xdr: Option<String>,
}

#[derive(Debug, Clone)]
pub struct GetLedgersResult {
    pub ledgers: Vec<RpcLedger>,
    pub latest_ledger: u64,
    pub oldest_ledger: u64,
    pub cursor: Option<String>,
}

// ============================================================================
// Response classification
// ============================================================================

/// Converts a failed HTTP response into the error the taxonomy owes it:
/// 429 becomes a rate limit without a hint, and every other status keeps
/// its code in a server error — 5xx retryable, 4xx not, by the taxonomy's
/// rules.
pub fn response_to_error(status: u16, body: String) -> (r: RpcError)
    ensures
        status == 429 ==> r == (RpcError::RateLimitError { retry_after_ms: Option::None }),
        status != 429 ==> (r matches RpcError::ServerError { status: s, message } && s == status
            && message@ == body@),
{
    if status == 429 {
        RpcError::RateLimitError { retry_after_ms: Option::None }
    } else {
        RpcError::ServerError { status, message: body }
    }
}

/// Converts a transport-level failure, already reduced to whether it was a
/// timeout, into the error the taxonomy owes it. A timeout carries the
/// per-request limit of thirty seconds.
pub fn transport_error(timed_out: bool, message: String) -> (r: RpcError)
    ensures
        timed_out ==> r == RpcError::TimeoutError(30_000),
        !timed_out ==> (r matches RpcError::NetworkError(m) && m@ == message@),
{
    if timed_out {
        RpcError::TimeoutError(30_000)
    } else {
        RpcError::NetworkError(message)
    }
}

/// Unpacks a JSON-RPC envelope: an `error` field takes precedence over
/// `result`, and an envelope with neither is a decode fault carrying the
/// given text.
pub fn envelope_to_result<T>(resp: JsonRpcResponse<T>, missing_msg: &str) -> (r: Result<
    T,
    RpcError,
>)
    ensures
        resp.error matches Option::Some(err) ==> (r matches Result::Err(
            RpcError::JsonRpcError { code, message },
        ) && code == err.code && message@ == err.message@),
        resp.error is None && resp.result is Some ==> r == Result::<T, RpcError>::Ok(
            resp.result->0,
        ),
        resp.error is None && resp.result is None ==> (r matches Result::Err(
            RpcError::ParseError(m),
        ) && m@ == missing_msg@),
{
    if let Option::Some(err) = resp.error {
        Result::Err(RpcError::JsonRpcError { code: err.code, message: err.message })
    } else {
        match resp.result {
            Option::Some(v) => Result::Ok(v),
            Option::None => Result::Err(RpcError::ParseError(missing_msg.to_owned())),
        }
    }
}

/// The first embedded record of a collection envelope, or a decode fault
/// carrying the given text when there is none.
pub fn first_record<T>(resp: HorizonResponse<T>, missing_msg: &str) -> (r: Result<T, RpcError>)
    ensures
        ({
            match resp.embedded {
                Option::Some(e) => {
                    if e.records@.len() > 0 {
                        r == Result::<T, RpcError>::Ok(e.records@[0])
                    } else {
                        r matches Result::Err(RpcError::ParseError(m)) && m@ == missing_msg@
                    }
                },
                Option::None => r matches Result::Err(RpcError::ParseError(m)) && m@
                    == missing_msg@,
            }
        }),
{
    match resp.embedded {
        Option::Some(e) => {
            let mut records = e.records;
            if records.len() > 0 {
                Result::Ok(records.remove(0))
            } else {
                Result::Err(RpcError::ParseError(missing_msg.to_owned()))
            }
        },
        Option::None => Result::Err(RpcError::ParseError(missing_msg.to_owned())),
    }
}

/// The embedded records of a collection envelope, or none at all.
pub fn records_or_empty<T>(resp: HorizonResponse<T>) -> (r: Vec<T>)
    ensures
        match resp.embedded {
            Option::Some(e) => r == e.records,
            Option::None => r@.len() == 0,
        },
{
    match resp.embedded {
        Option::Some(e) => e.records,
        Option::None => Vec::new(),
    }
}

// ============================================================================
// Request construction
// ============================================================================

/// The query parameters naming one side of a trading pair: the native
/// asset by its type alone, an issued asset by type, code and issuer.
pub open spec fn spec_asset_query(prefix: Seq<char>, asset: Asset) -> Seq<char> {
    if asset.asset_type@ == "native"@ {
        prefix + "_asset_type=native"@
    } else {
        prefix + "_asset_type="@ + asset.asset_type@ + "&"@ + prefix + "_asset_code="@
            + asset.asset_code->0@ + "&"@ + prefix + "_asset_issuer="@ + asset.asset_issuer->0@
    }
}

/// Builds the query parameters for one side of a trading pair. An issued
/// asset must name its code and issuer.
pub fn asset_to_query_params(prefix: &str, asset: &Asset) -> (r: String)
    requires
        asset.asset_type@ == "native"@ || (asset.asset_code is Some && asset.asset_issuer is Some),
    ensures
        r@ == spec_asset_query(prefix@, *asset),
{
    if asset.asset_type == "native".to_owned() {
        let mut q = prefix.to_owned();
        q.append("_asset_type=native");
        q
    } else {
        let mut q = prefix.to_owned();
        q.append("_asset_type=");
        q.append(asset.asset_type.as_str());
        q.append("&");
        q.append(prefix);
        q.append("_asset_code=");
        q.append(asset.asset_code.as_ref().unwrap().as_str());
        q.append("&");
        q.append(prefix);
        q.append("_asset_issuer=");
        q.append(asset.asset_issuer.as_ref().unwrap().as_str());
        q
    }
}

/// The JSON-RPC request body of the health check.
pub fn health_request_body() -> (r: String)
    ensures
        r@ == "{\"jsonrpc\":\"2.0\",\"method\":\"getHealth\",\"id\":1}"@,
{
    "{\"jsonrpc\":\"2.0\",\"method\":\"getHealth\",\"id\":1}".to_owned()
}

/// The JSON-RPC request body of a ledger-range fetch: a cursor wins over a
/// start ledger, and with neither the page begins wherever the upstream
/// chooses.
pub open spec fn spec_get_ledgers_body(
    start_ledger: Option<u64>,
    limit: u32,
    cursor: Option<Seq<char>>,
) -> Seq<char> {
    let params = match cursor {
        Option::Some(c) => "{\"pagination\":{\"limit\":"@ + spec_dec(limit as nat)
            + ",\"cursor\":\""@ + c + "\"}}"@,
        Option::None => match start_ledger {
            Option::Some(s) => "{\"pagination\":{\"limit\":"@ + spec_dec(limit as nat)
                + "},\"startLedger\":"@ + spec_dec(s as nat) + "}"@,
            Option::None => "{\"pagination\":{\"limit\":"@ + spec_dec(limit as nat) + "}}"@,
        },
    };
    "{\"jsonrpc\":\"2.0\",\"method\":\"getLedgers\",\"id\":1,\"params\":"@ + params + "}"@
}

/// Builds the JSON-RPC request body of a ledger-range fetch.
pub fn get_ledgers_request_body(start_ledger: Option<u64>, limit: u32, cursor: Option<&str>) -> (r:
    String)
    ensures
        r@ == spec_get_ledgers_body(
            start_ledger,
            limit,
            match cursor {
                Option::Some(c) => Option::Some(c@),
                Option::None => Option::None,
            },
        ),
{
    let mut b = "{\"jsonrpc\":\"2.0\",\"method\":\"getLedgers\",\"id\":1,\"params\":".to_owned();
    b.append("{\"pagination\":{\"limit\":");
    b.append(u64_to_string(limit as u64).as_str());
    match cursor {
        Option::Some(c) => {
            b.append(",\"cursor\":\"");
            b.append(c);
            b.append("\"}}");
        },
        Option::None => {
            match start_ledger {
                Option::Some(s) => {
                    b.append("},\"startLedger\":");
                    b.append(u64_to_string(s).as_str());
                    b.append("}");
                },
                Option::None => {
                    b.append("}}");
                },
            }
        },
    }
    b.append("}");
    b
}

// ============================================================================
// Request URLs
// ============================================================================

/// The REST URL asking for the single most recent ledger.
pub fn latest_ledger_url(horizon_url: &str) -> (r: String)
    ensures
        r@ == horizon_url@ + "/ledgers?order=desc&limit=1"@,
{
    let mut u = horizon_url.to_owned();
    u.append("/ledgers?order=desc&limit=1");
    u
}

/// The REST URL asking for a page of recent payments.
pub fn payments_url(horizon_url: &str, limit: u32, cursor: Option<&str>) -> (r: String)
    ensures
        r@ == horizon_url@ + "/payments?order=desc&limit="@ + spec_dec(limit as nat) + (
        match cursor {
            Option::Some(c) => "&cursor="@ + c@,
            Option::None => Seq::<char>::empty(),
        }),
{
    let mut u = horizon_url.to_owned();
    u.append("/payments?order=desc&limit=");
    u.append(u64_to_string(limit as u64).as_str());
    if let Option::Some(c) = cursor {
        u.append("&cursor=");
        u.append(c);
    }
    proof {
        if cursor is None {
            assert(u@ =~= horizon_url@ + "/payments?order=desc&limit="@ + spec_dec(limit as nat)
                + Seq::<char>::empty());
        }
    }
    u
}

/// The REST URL asking for a page of recent trades.
pub fn trades_url(horizon_url: &str, limit: u32, cursor: Option<&str>) -> (r: String)
    ensures
        r@ == horizon_url@ + "/trades?order=desc&limit="@ + spec_dec(limit as nat) + (
        match cursor {
            Option::Some(c) => "&cursor="@ + c@,
            Option::None => Seq::<char>::empty(),
        }),
{
    let mut u = horizon_url.to_owned();
    u.append("/trades?order=desc&limit=");
    u.append(u64_to_string(limit as u64).as_str());
    if let Option::Some(c) = cursor {
        u.append("&cursor=");
        u.append(c);
    }
    proof {
        if cursor is None {
            assert(u@ =~= horizon_url@ + "/trades?order=desc&limit="@ + spec_dec(limit as nat)
                + Seq::<char>::empty());
        }
    }
    u
}

/// The REST URL asking for the order book of one trading pair.
pub fn order_book_url(horizon_url: &str, selling: &Asset, buying: &Asset, limit: u32) -> (r:
    String)
    requires
        selling.asset_type@ == "native"@ || (selling.asset_code is Some
            && selling.asset_issuer is Some),
        buying.asset_type@ == "native"@ || (buying.asset_code is Some
            && buying.asset_issuer is Some),
    ensures
        r@ == horizon_url@ + "/order_book?"@ + spec_asset_query("selling"@, *selling) + "&"@
            + spec_asset_query("buying"@, *buying) + "&limit="@ + spec_dec(limit as nat),
{
    let mut u = horizon_url.to_owned();
    u.append("/order_book?");
    u.append(asset_to_query_params("selling", selling).as_str());
    u.append("&");
    u.append(asset_to_query_params("buying", buying).as_str());
    u.append("&limit=");
    u.append(u64_to_string(limit as u64).as_str());
    u
}

/// The REST URL asking for the payments of one ledger.
pub fn ledger_payments_url(horizon_url: &str, sequence: u64) -> (r: String)
    ensures
        r@ == horizon_url@ + "/ledgers/"@ + spec_dec(sequence as nat) + "/payments?limit=200"@,
{
    let mut u = horizon_url.to_owned();
    u.append("/ledgers/");
    u.append(u64_to_string(sequence).as_str());
    u.append("/payments?limit=200");
    u
}

/// The REST URL asking for the transactions of one ledger, failed ones
/// included.
pub fn ledger_transactions_url(horizon_url: &str, sequence: u64) -> (r: String)
    ensures
        r@ == horizon_url@ + "/ledgers/"@ + spec_dec(sequence as nat)
            + "/transactions?limit=200&include_failed=true"@,
{
    let mut u = horizon_url.to_owned();
    u.append("/ledgers/");
    u.append(u64_to_string(sequence).as_str());
    u.append("/transactions?limit=200&include_failed=true");
    u
}

/// The REST URL asking for the payments of one account.
pub fn account_payments_url(horizon_url: &str, account_id: &str, limit: u32) -> (r: String)
    ensures
        r@ == horizon_url@ + "/accounts/"@ + account_id@ + "/payments?order=desc&limit="@
            + spec_dec(limit as nat),
{
    let mut u = horizon_url.to_owned();
    u.append("/accounts/");
    u.append(account_id);
    u.append("/payments?order=desc&limit=");
    u.append(u64_to_string(limit as u64).as_str());
    u
}

// ============================================================================
// Mock data
// ============================================================================

/// The `i`-th synthetic payment of mock mode.
pub open spec fn spec_is_mock_payment(p: Payment, i: nat) -> bool {
    &&& p.id@ == "payment_"@ + spec_dec(i)
    &&& p.paging_token@ == "paging_"@ + spec_dec(i)
    &&& p.transaction_hash@ == "txhash_"@ + spec_dec(i)
    &&& p.source_account@ == "GXXXXXXXXXXXXXXXXXXXXXXXXXXXXXXXXXXXXXXXXXXXXXXXX"@ + spec_pad3(i)
    &&& p.destination@ == "GDYYYYYYYYYYYYYYYYYYYYYYYYYYYYYYYYYYYYYYYYYYYYYY"@ + spec_pad3(i)
    &&& if i % 3 == 0 {
        &&& p.asset_type@ == "native"@
        &&& p.asset_code is None
        &&& p.asset_issuer is None
    } else {
        &&& p.asset_type@ == "credit_alphanum4"@
        &&& p.asset_code matches Option::Some(c) && c@ == "USDC"@
        &&& p.asset_issuer matches Option::Some(x) && x@
            == "GBXXXXXXXXXXXXXXXXXXXXXXXXXXXXXXXXXXXXXXXXXXXXXXX"@
    }
    &&& p.amount@ == spec_dec((100 + i * 10) as nat) + ".0000000"@
    &&& p.created_at@ == "2026-01-22T10:"@ + spec_pad2(i % 60) + ":00Z"@
}

fn mock_payment(i: u64) -> (p: Payment)
    requires
        i < 0x1_0000_0000,
    ensures
        spec_is_mock_payment(p, i as nat),
{
    let mut id = "payment_".to_owned();
    id.append(u64_to_string(i).as_str());
    let mut paging = "paging_".to_owned();
    paging.append(u64_to_string(i).as_str());
    let mut txhash = "txhash_".to_owned();
    txhash.append(u64_to_string(i).as_str());
    let mut source = "GXXXXXXXXXXXXXXXXXXXXXXXXXXXXXXXXXXXXXXXXXXXXXXXX".to_owned();
    source.append(pad3(i).as_str());
    let mut dest = "GDYYYYYYYYYYYYYYYYYYYYYYYYYYYYYYYYYYYYYYYYYYYYYY".to_owned();
    dest.append(pad3(i).as_str());
    let mut amount = u64_to_string(100 + i * 10);
    amount.append(".0000000");
    let mut created = "2026-01-22T10:".to_owned();
    created.append(pad2(i % 60).as_str());
    created.append(":00Z");
    if i % 3 == 0 {
        Payment {
            id,
            paging_token: paging,
            transaction_hash: txhash,
            source_account: source,
            destination: dest,
            asset_type: "native".to_owned(),
            asset_code: Option::None,
            asset_issuer: Option::None,
            amount,
            created_at: created,
        }
    } else {
        Payment {
            id,
            paging_token: paging,
            transaction_hash: txhash,
            source_account: source,
            destination: dest,
            asset_type: "credit_alphanum4".to_owned(),
            asset_code: Option::Some("USDC".to_owned()),
            asset_issuer: Option::Some(
                "GBXXXXXXXXXXXXXXXXXXXXXXXXXXXXXXXXXXXXXXXXXXXXXXX".to_owned(),
            ),
            amount,
            created_at: created,
        }
    }
}

/// A full page of synthetic payments.
pub open spec fn spec_mock_payments(ps: Seq<Payment>, limit: u32) -> bool {
    ps.len() == limit && forall|j: int| 0 <= j < ps.len() ==> spec_is_mock_payment(#[trigger] ps[j], j as nat)
}

#[verifier::loop_isolation(false)]
fn mock_payments(limit: u32) -> (r: Vec<Payment>)
    ensures
        spec_mock_payments(r@, limit),
{
    let mut v: Vec<Payment> = Vec::new();
    let mut i: u32 = 0;
    while i < limit
        invariant
            i <= limit,
            v@.len() == i,
            forall|j: int| 0 <= j < v@.len() ==> spec_is_mock_payment(#[trigger] v@[j], j as nat),
        decreases limit - i,
    {
        v.push(mock_payment(i as u64));
        i = i + 1;
    }
    v
}

/// The `i`-th synthetic trade of mock mode.
pub open spec fn spec_is_mock_trade(t: Trade, i: nat) -> bool {
    &&& t.id@ == "trade_"@ + spec_dec(i)
    &&& t.ledger_close_time@ == "2026-01-22T10:"@ + spec_pad2(i % 60) + ":00Z"@
    &&& t.base_account@ == "GXXXXXXXXXXXXXXXXXXXXXXXXXXXXXXXXXXXXXXXXXXXXXXXX"@ + spec_pad3(i)
    &&& t.base_amount@ == spec_dec((1000 + i * 100) as nat) + ".0000000"@
    &&& t.base_asset_type@ == "native"@
    &&& t.base_asset_code is None
    &&& t.base_asset_issuer is None
    &&& t.counter_account@ == "GDYYYYYYYYYYYYYYYYYYYYYYYYYYYYYYYYYYYYYYYYYYYYYY"@ + spec_pad3(i)
    &&& t.counter_amount@ == spec_dec((500 + i * 50) as nat) + ".0000000"@
    &&& t.counter_asset_type@ == "credit_alphanum4"@
    &&& t.counter_asset_code matches Option::Some(c) && c@ == "USDC"@
    &&& t.counter_asset_issuer matches Option::Some(x) && x@
        == "GBXXXXXXXXXXXXXXXXXXXXXXXXXXXXXXXXXXXXXXXXXXXXXXX"@
    &&& t.price == (Price { n: (2 + i) as i64, d: 1 })
    &&& t.trade_type@ == "orderbook"@
}

fn mock_trade(i: u64) -> (t: Trade)
    requires
        i < 0x1_0000_0000,
    ensures
        spec_is_mock_trade(t, i as nat),
{
    let mut id = "trade_".to_owned();
    id.append(u64_to_string(i).as_str());
    let mut close = "2026-01-22T10:".to_owned();
    close.append(pad2(i % 60).as_str());
    close.append(":00Z");
    let mut base_account = "GXXXXXXXXXXXXXXXXXXXXXXXXXXXXXXXXXXXXXXXXXXXXXXXX".to_owned();
    base_account.append(pad3(i).as_str());
    let mut base_amount = u64_to_string(1000 + i * 100);
    base_amount.append(".0000000");
    let mut counter_account = "GDYYYYYYYYYYYYYYYYYYYYYYYYYYYYYYYYYYYYYYYYYYYYYY".to_owned();
    counter_account.append(pad3(i).as_str());
    let mut counter_amount = u64_to_string(500 + i * 50);
    counter_amount.append(".0000000");
    Trade {
        id,
        ledger_close_time: close,
        base_account,
        base_amount,
        base_asset_type: "native".to_owned(),
        base_asset_code: Option::None,
        base_asset_issuer: Option::None,
        counter_account,
        counter_amount,
        counter_asset_type: "credit_alphanum4".to_owned(),
        counter_asset_code: Option::Some("USDC".to_owned()),
        counter_asset_issuer: Option::Some(
            "GBXXXXXXXXXXXXXXXXXXXXXXXXXXXXXXXXXXXXXXXXXXXXXXX".to_owned(),
        ),
        price: Price { n: (2 + i) as i64, d: 1 },
        trade_type: "orderbook".to_owned(),
    }
}

/// A full page of synthetic trades.
pub open spec fn spec_mock_trades(ts: Seq<Trade>, limit: u32) -> bool {
    ts.len() == limit && forall|j: int| 0 <= j < ts.len() ==> spec_is_mock_trade(#[trigger] ts[j], j as nat)
}

#[verifier::loop_isolation(false)]
fn mock_trades(limit: u32) -> (r: Vec<Trade>)
    ensures
        spec_mock_trades(r@, limit),
{
    let mut v: Vec<Trade> = Vec::new();
    let mut i: u32 = 0;
    while i < limit
        invariant
            i <= limit,
            v@.len() == i,
            forall|j: int| 0 <= j < v@.len() ==> spec_is_mock_trade(#[trigger] v@[j], j as nat),
        decreases limit - i,
    {
        v.push(mock_trade(i as u64));
        i = i + 1;
    }
    v
}

/// The `i`-th synthetic transaction of mock mode; every second one is a
/// fee bump.
pub open spec fn spec_is_mock_transaction(t: HorizonTransaction, i: nat) -> bool {
    &&& t.id@ == "tx_"@ + spec_dec(i)
    &&& t.hash@ == "txhash_"@ + spec_dec(i)
    &&& t.ledger == 51583040
    &&& t.created_at@ == "2026-01-22T10:30:00Z"@
    &&& t.source_account@ == "GXX"@
    &&& t.fee_account matches Option::Some(a) && a@ == "GXX"@
    &&& t.fee_charged matches Option::Some(f) && f@ == "100"@
    &&& t.max_fee matches Option::Some(m) && m@ == "1000"@
    &&& t.operation_count == 1
    &&& t.successful
    &&& t.paging_token@ == "pt_"@ + spec_dec(i)
    &&& if i % 2 == 0 {
        &&& t.fee_bump_transaction matches Option::Some(fb) && fb.hash@ == "fb_hash_"@ + spec_dec(
            i,
        ) && fb.signatures@.len() == 1 && fb.signatures@[0]@ == "sig1"@
        &&& t.inner_transaction matches Option::Some(it) && it.hash@ == "inner_hash_"@ + spec_dec(
            i,
        ) && (it.max_fee matches Option::Some(mf) && mf@ == "500"@) && it.signatures@.len() == 1
            && it.signatures@[0]@ == "sig1"@
    } else {
        t.fee_bump_transaction is None && t.inner_transaction is None
    }
}

fn mock_transaction(i: u64) -> (t: HorizonTransaction)
    requires
        i < 0x1_0000_0000,
    ensures
        spec_is_mock_transaction(t, i as nat),
{
    let mut id = "tx_".to_owned();
    id.append(u64_to_string(i).as_str());
    let mut hash = "txhash_".to_owned();
    hash.append(u64_to_string(i).as_str());
    let mut pt = "pt_".to_owned();
    pt.append(u64_to_string(i).as_str());
    let (fee_bump, inner) = if i % 2 == 0 {
        let mut fb_hash = "fb_hash_".to_owned();
        fb_hash.append(u64_to_string(i).as_str());
        let mut fb_sigs: Vec<String> = Vec::new();
        fb_sigs.push("sig1".to_owned());
        let mut inner_hash = "inner_hash_".to_owned();
        inner_hash.append(u64_to_string(i).as_str());
        let mut in_sigs: Vec<String> = Vec::new();
        in_sigs.push("sig1".to_owned());
        (
            Option::Some(FeeBumpTransactionInfo { hash: fb_hash, signatures: fb_sigs }),
            Option::Some(
                InnerTransaction {
                    hash: inner_hash,
                    max_fee: Option::Some("500".to_owned()),
                    signatures: in_sigs,
                },
            ),
        )
    } else {
        (Option::None, Option::None)
    };
    HorizonTransaction {
        id,
        hash,
        ledger: 51583040,
        created_at: "2026-01-22T10:30:00Z".to_owned(),
        source_account: "GXX".to_owned(),
        fee_account: Option::Some("GXX".to_owned()),
        fee_charged: Option::Some("100".to_owned()),
        max_fee: Option::Some("1000".to_owned()),
        operation_count: 1,
        successful: true,
        paging_token: pt,
        fee_bump_transaction: fee_bump,
        inner_transaction: inner,
    }
}

/// A full page of synthetic transactions.
pub open spec fn spec_mock_transactions(ts: Seq<HorizonTransaction>, limit: u32) -> bool {
    ts.len() == limit && forall|j: int|
        0 <= j < ts.len() ==> spec_is_mock_transaction(#[trigger] ts[j], j as nat)
}

#[verifier::loop_isolation(false)]
fn mock_transactions(limit: u32) -> (r: Vec<HorizonTransaction>)
    ensures
        spec_mock_transactions(r@, limit),
{
    let mut v: Vec<HorizonTransaction> = Vec::new();
    let mut i: u32 = 0;
    while i < limit
        invariant
            i <= limit,
            v@.len() == i,
            forall|j: int|
                0 <= j < v@.len() ==> spec_is_mock_transaction(#[trigger] v@[j], j as nat),
        decreases limit - i,
    {
        v.push(mock_transaction(i as u64));
        i = i + 1;
    }
    v
}

/// The synthetic health report of mock mode.
pub open spec fn spec_is_mock_health(h: HealthResponse) -> bool {
    &&& h.status@ == "healthy"@
    &&& h.latest_ledger == 51583040
    &&& h.oldest_ledger == 51565760
    &&& h.ledger_retention_window == 17280
}

fn mock_health_response() -> (h: HealthResponse)
    ensures
        spec_is_mock_health(h),
{
    HealthResponse {
        status: "healthy".to_owned(),
        latest_ledger: 51583040,
        oldest_ledger: 51565760,
        ledger_retention_window: 17280,
    }
}

/// The synthetic latest ledger of mock mode.
pub open spec fn spec_is_mock_ledger(l: LedgerInfo) -> bool {
    &&& l.sequence == 51583040
    &&& l.hash@ == "abc123def456"@
    &&& l.previous_hash@ == "xyz789uvw012"@
    &&& l.transaction_count == 245
    &&& l.operation_count == 1203
    &&& l.closed_at@ == "2026-01-22T10:30:00Z"@
    &&& l.total_coins@ == "105443902087.3472865"@
    &&& l.fee_pool@ == "3145678.9012345"@
    &&& l.base_fee == 100
    &&& l.base_reserve@ == "0.5"@
}

fn mock_ledger_info() -> (l: LedgerInfo)
    ensures
        spec_is_mock_ledger(l),
{
    LedgerInfo {
        sequence: 51583040,
        hash: "abc123def456".to_owned(),
        previous_hash: "xyz789uvw012".to_owned(),
        transaction_count: 245,
        operation_count: 1203,
        closed_at: "2026-01-22T10:30:00Z".to_owned(),
        total_coins: "105443902087.3472865".to_owned(),
        fee_pool: "3145678.9012345".to_owned(),
        base_fee: 100,
        base_reserve: "0.5".to_owned(),
    }
}

/// The synthetic ledger page of mock mode, starting at `start`.
pub open spec fn spec_is_mock_ledger_page(r: GetLedgersResult, start: u64, limit: u32) -> bool {
    &&& r.ledgers.len() == limit
    &&& forall|j: int|
        0 <= j < r.ledgers@.len() ==> {
            let l = #[trigger] r.ledgers@[j];
            &&& l.hash@ == "hash_"@ + spec_dec((start + j) as nat)
            &&& l.sequence == start + j
            &&& l.ledger_close_time@ == spec_dec((1734032457 + j * 5) as nat)
            &&& l.header_xdr matches Option::Some(h) && h@ == "mock_header"@
            &&& l.metadata_xdr matches Option::Some(m) && m@ == "mock_metadata"@
        }
    &&& r.latest_ledger == start + limit + 100
    &&& r.oldest_ledger == if start >= 1000 {
        start - 1000
    } else {
        0
    }
    &&& r.cursor matches Option::Some(c) && c@ == spec_dec((start + limit - 1) as nat)
}

#[verifier::loop_isolation(false)]
fn mock_get_ledgers(start: u64, limit: u32) -> (r: GetLedgersResult)
    requires
        start + limit + 100 <= u64::MAX,
        start + limit >= 1,
    ensures
        spec_is_mock_ledger_page(r, start, limit),
{
    let mut ledgers: Vec<RpcLedger> = Vec::new();
    let mut i: u32 = 0;
    while i < limit
        invariant
            i <= limit,
            ledgers@.len() == i,
            forall|j: int|
                0 <= j < ledgers@.len() ==> {
                    let l = #[trigger] ledgers@[j];
                    &&& l.hash@ == "hash_"@ + spec_dec((start + j) as nat)
                    &&& l.sequence == start + j
                    &&& l.ledger_close_time@ == spec_dec((1734032457 + j * 5) as nat)
                    &&& l.header_xdr matches Option::Some(h) && h@ == "mock_header"@
                    &&& l.metadata_xdr matches Option::Some(m) && m@ == "mock_metadata"@
                },
        decreases limit - i,
    {
        let mut hash = "hash_".to_owned();
        hash.append(u64_to_string(start + i as u64).as_str());
        ledgers.push(RpcLedger {
            hash,
            sequence: start + i as u64,
            ledger_close_time: u64_to_string(1734032457 + (i as u64) * 5),
            header_xdr: Option::Some("mock_header".to_owned()),
            metadata_xdr: Option::Some("mock_metadata".to_owned()),
        });
        i = i + 1;
    }
    GetLedgersResult {
        ledgers,
        latest_ledger: start + limit as u64 + 100,
        oldest_ledger: if start >= 1000 {
            start - 1000
        } else {
            0
        },
        cursor: Option::Some(u64_to_string(start + limit as u64 - 1)),
    }
}

/// Field-by-field sameness of two assets, comparing the text fields by
/// their contents.
pub open spec fn spec_asset_eq(a: Asset, b: Asset) -> bool {
    &&& a.asset_type@ == b.asset_type@
    &&& match (a.asset_code, b.asset_code) {
        (Option::Some(x), Option::Some(y)) => x@ == y@,
        (Option::None, Option::None) => true,
        _ => false,
    }
    &&& match (a.asset_issuer, b.asset_issuer) {
        (Option::Some(x), Option::Some(y)) => x@ == y@,
        (Option::None, Option::None) => true,
        _ => false,
    }
}

/// A copy of an asset whose text fields hold the same contents.
pub fn duplicate_asset(a: &Asset) -> (r: Asset)
    ensures
        spec_asset_eq(r, *a),
{
    Asset {
        asset_type: a.asset_type.clone(),
        asset_code: match &a.asset_code {
            Option::Some(c) => Option::Some(c.clone()),
            Option::None => Option::None,
        },
        asset_issuer: match &a.asset_issuer {
            Option::Some(x) => Option::Some(x.clone()),
            Option::None => Option::None,
        },
    }
}

/// The synthetic order book of mock mode: three bids just under par and
/// three asks just over it, for the requested pair.
pub open spec fn spec_is_mock_order_book(ob: OrderBook, selling: Asset, buying: Asset) -> bool {
    &&& ob.bids@.len() == 3
    &&& ob.bids@[0].price@ == "0.9950"@ && ob.bids@[0].amount@ == "1000.0000000"@ && ob.bids@[0].price_r
        == (Price { n: 199, d: 200 })
    &&& ob.bids@[1].price@ == "0.9900"@ && ob.bids@[1].amount@ == "2500.0000000"@ && ob.bids@[1].price_r
        == (Price { n: 99, d: 100 })
    &&& ob.bids@[2].price@ == "0.9850"@ && ob.bids@[2].amount@ == "5000.0000000"@ && ob.bids@[2].price_r
        == (Price { n: 197, d: 200 })
    &&& ob.asks@.len() == 3
    &&& ob.asks@[0].price@ == "1.0050"@ && ob.asks@[0].amount@ == "1200.0000000"@ && ob.asks@[0].price_r
        == (Price { n: 201, d: 200 })
    &&& ob.asks@[1].price@ == "1.0100"@ && ob.asks@[1].amount@ == "3000.0000000"@ && ob.asks@[1].price_r
        == (Price { n: 101, d: 100 })
    &&& ob.asks@[2].price@ == "1.0150"@ && ob.asks@[2].amount@ == "4500.0000000"@ && ob.asks@[2].price_r
        == (Price { n: 203, d: 200 })
    &&& spec_asset_eq(ob.base, selling)
    &&& spec_asset_eq(ob.counter, buying)
}

fn mock_order_book(selling: &Asset, buying: &Asset) -> (ob: OrderBook)
    ensures
        spec_is_mock_order_book(ob, *selling, *buying),
{
    let mut bids: Vec<OrderBookEntry> = Vec::new();
    bids.push(OrderBookEntry {
        price: "0.9950".to_owned(),
        amount: "1000.0000000".to_owned(),
        price_r: Price { n: 199, d: 200 },
    });
    bids.push(OrderBookEntry {
        price: "0.9900".to_owned(),
        amount: "2500.0000000".to_owned(),
        price_r: Price { n: 99, d: 100 },
    });
    bids.push(OrderBookEntry {
        price: "0.9850".to_owned(),
        amount: "5000.0000000".to_owned(),
        price_r: Price { n: 197, d: 200 },
    });
    let mut asks: Vec<OrderBookEntry> = Vec::new();
    asks.push(OrderBookEntry {
        price: "1.0050".to_owned(),
        amount: "1200.0000000".to_owned(),
        price_r: Price { n: 201, d: 200 },
    });
    asks.push(OrderBookEntry {
        price: "1.0100".to_owned(),
        amount: "3000.0000000".to_owned(),
        price_r: Price { n: 101, d: 100 },
    });
    asks.push(OrderBookEntry {
        price: "1.0150".to_owned(),
        amount: "4500.0000000".to_owned(),
        price_r: Price { n: 203, d: 200 },
    });
    OrderBook { bids, asks, base: duplicate_asset(selling), counter: duplicate_asset(buying) }
}

// ============================================================================
// The client
// ============================================================================

/// The deterministic client core: the two endpoint URLs, the mock flag,
/// and the breaker instance guarding the upstream.
pub struct StellarRpcClient {
    rpc_url: String,
    horizon_url: String,
    mock_mode: bool,
    circuit_breaker: CircuitBreaker,
    config: RpcClientConfig,
}

impl StellarRpcClient {
    /// The JSON-RPC endpoint URL.
    pub closed spec fn spec_rpc_url(&self) -> Seq<char> {
        self.rpc_url@
    }

    /// The REST endpoint URL.
    pub closed spec fn spec_horizon_url(&self) -> Seq<char> {
        self.horizon_url@
    }

    /// Whether the client serves synthetic records instead of the network.
    pub closed spec fn spec_mock_mode(&self) -> bool {
        self.mock_mode
    }

    /// The retry and breaker configuration.
    pub closed spec fn spec_config(&self) -> RpcClientConfig {
        self.config
    }

    /// The breaker's machine state.
    pub closed spec fn spec_breaker(&self) -> crate::circuit_breaker::CircuitState {
        self.circuit_breaker.spec_state()
    }

    /// The breaker is consistent and configured as the client says.
    pub closed spec fn wf(&self) -> bool {
        &&& self.spec_config().wf()
        &&& self.circuit_breaker.wf()
        &&& self.circuit_breaker.spec_config() == self.spec_config().circuit_breaker
    }

    /// A client over explicit URLs with an explicit configuration; the
    /// breaker starts closed under the endpoint name `stellar`.
    pub fn new_with_config(
        rpc_url: String,
        horizon_url: String,
        mock_mode: bool,
        config: RpcClientConfig,
    ) -> (c: Self)
        requires
            config.wf(),
        ensures
            c.wf(),
            c.spec_rpc_url() == rpc_url@,
            c.spec_horizon_url() == horizon_url@,
            c.spec_mock_mode() == mock_mode,
            c.spec_config() == config,
            c.spec_breaker() == (crate::circuit_breaker::CircuitState::Closed { failure_count: 0 }),
    {
        let circuit_breaker = CircuitBreaker::new(config.circuit_breaker, "stellar".to_owned());
        StellarRpcClient { rpc_url, horizon_url, mock_mode, circuit_breaker, config }
    }

    /// A client over explicit URLs with the default configuration.
    pub fn new(rpc_url: String, horizon_url: String, mock_mode: bool) -> (c: Self)
        ensures
            c.wf(),
            c.spec_rpc_url() == rpc_url@,
            c.spec_horizon_url() == horizon_url@,
            c.spec_mock_mode() == mock_mode,
            c.spec_config() == spec_default_client_config(),
    {
        StellarRpcClient::new_with_config(rpc_url, horizon_url, mock_mode, RpcClientConfig::default())
    }

    /// A client over the default public endpoints.
    pub fn new_with_defaults(mock_mode: bool) -> (c: Self)
        ensures
            c.wf(),
            c.spec_rpc_url() == "https://stellar.api.onfinality.io/public"@,
            c.spec_horizon_url() == "https://horizon.stellar.org"@,
            c.spec_mock_mode() == mock_mode,
            c.spec_config() == spec_default_client_config(),
    {
        StellarRpcClient::new(
            "https://stellar.api.onfinality.io/public".to_owned(),
            "https://horizon.stellar.org".to_owned(),
            mock_mode,
        )
    }

    /// The JSON-RPC endpoint URL.
    pub fn rpc_url(&self) -> (r: &str)
        ensures
            r@ == self.spec_rpc_url(),
    {
        self.rpc_url.as_str()
    }

    /// The REST endpoint URL.
    pub fn horizon_url(&self) -> (r: &str)
        ensures
            r@ == self.spec_horizon_url(),
    {
        self.horizon_url.as_str()
    }

    /// Whether the client serves synthetic records instead of the network.
    pub fn is_mock(&self) -> (r: bool)
        ensures
            r == self.spec_mock_mode(),
    {
        self.mock_mode
    }

    /// The retry and breaker configuration.
    pub fn config(&self) -> (r: RpcClientConfig)
        ensures
            r == self.spec_config(),
    {
        self.config
    }

    /// Admission check on the breaker before one real upstream call.
    pub fn begin_upstream_call(&mut self, now_ms: u64) -> (allowed: bool)
        requires
            old(self).wf(),
        ensures
            final(self).wf(),
            (allowed, final(self).spec_breaker()) == crate::circuit_breaker::spec_admit(
                old(self).spec_breaker(),
                old(self).spec_config().circuit_breaker,
                now_ms,
            ),
            final(self).spec_config() == old(self).spec_config(),
            final(self).spec_mock_mode() == old(self).spec_mock_mode(),
            final(self).spec_rpc_url() == old(self).spec_rpc_url(),
            final(self).spec_horizon_url() == old(self).spec_horizon_url(),
    {
        self.circuit_breaker.begin_call(now_ms)
    }

    /// Reports a successful upstream call to the breaker.
    pub fn report_upstream_success(&mut self)
        requires
            old(self).wf(),
        ensures
            final(self).wf(),
            final(self).spec_breaker() == crate::circuit_breaker::spec_on_success(
                old(self).spec_breaker(),
                old(self).spec_config().circuit_breaker,
            ),
            final(self).spec_config() == old(self).spec_config(),
            final(self).spec_mock_mode() == old(self).spec_mock_mode(),
            final(self).spec_rpc_url() == old(self).spec_rpc_url(),
            final(self).spec_horizon_url() == old(self).spec_horizon_url(),
    {
        self.circuit_breaker.on_success()
    }

    /// Reports a failed upstream call to the breaker; only retryable
    /// failures count.
    pub fn report_upstream_error(&mut self, e: &RpcError, now_ms: u64)
        requires
            old(self).wf(),
        ensures
            final(self).wf(),
            final(self).spec_breaker() == if e.spec_is_retryable() {
                crate::circuit_breaker::spec_on_failure(
                    old(self).spec_breaker(),
                    old(self).spec_config().circuit_breaker,
                    now_ms,
                )
            } else {
                old(self).spec_breaker()
            },
            final(self).spec_config() == old(self).spec_config(),
            final(self).spec_mock_mode() == old(self).spec_mock_mode(),
            final(self).spec_rpc_url() == old(self).spec_rpc_url(),
            final(self).spec_horizon_url() == old(self).spec_horizon_url(),
    {
        self.circuit_breaker.on_error(e, now_ms)
    }

    /// The breaker's state for metrics: 0 = closed, 1 = open,
    /// 2 = half-open.
    pub fn breaker_state_value(&self) -> (v: i64)
        ensures
            v == match self.spec_breaker() {
                crate::circuit_breaker::CircuitState::Closed { .. } => 0int,
                crate::circuit_breaker::CircuitState::Open { .. } => 1int,
                crate::circuit_breaker::CircuitState::HalfOpen { .. } => 2int,
            },
    {
        self.circuit_breaker.state_value()
    }

    /// The synthetic health report: mock mode never touches the network
    /// and always succeeds.
    pub fn check_health(&self) -> (r: Result<HealthResponse, RpcError>)
        requires
            self.spec_mock_mode(),
        ensures
            r matches Result::Ok(h) && spec_is_mock_health(h),
    {
        Result::Ok(mock_health_response())
    }

    /// The synthetic latest ledger of mock mode.
    pub fn fetch_latest_ledger(&self) -> (r: Result<LedgerInfo, RpcError>)
        requires
            self.spec_mock_mode(),
        ensures
            r matches Result::Ok(l) && spec_is_mock_ledger(l),
    {
        Result::Ok(mock_ledger_info())
    }

    /// The synthetic ledger page of mock mode; without a start the page
    /// begins at ledger 1000.
    pub fn fetch_ledgers(&self, start_ledger: Option<u64>, limit: u32, cursor: Option<&str>) -> (r:
        Result<GetLedgersResult, RpcError>)
        requires
            self.spec_mock_mode(),
            (match start_ledger {
                Option::Some(s) => s as int,
                Option::None => 1000int,
            }) + limit + 100 <= u64::MAX,
            (match start_ledger {
                Option::Some(s) => s as int,
                Option::None => 1000int,
            }) + limit >= 1,
        ensures
            r matches Result::Ok(page) && spec_is_mock_ledger_page(
                page,
                match start_ledger {
                    Option::Some(s) => s,
                    Option::None => 1000,
                },
                limit,
            ),
    {
        let start = match start_ledger {
            Option::Some(s) => s,
            Option::None => 1000,
        };
        Result::Ok(mock_get_ledgers(start, limit))
    }

    /// A synthetic page of payments, one record per requested slot.
    pub fn fetch_payments(&self, limit: u32, cursor: Option<&str>) -> (r: Result<
        Vec<Payment>,
        RpcError,
    >)
        requires
            self.spec_mock_mode(),
        ensures
            r matches Result::Ok(v) && spec_mock_payments(v@, limit),
    {
        Result::Ok(mock_payments(limit))
    }

    /// A synthetic page of trades, one record per requested slot.
    pub fn fetch_trades(&self, limit: u32, cursor: Option<&str>) -> (r: Result<
        Vec<Trade>,
        RpcError,
    >)
        requires
            self.spec_mock_mode(),
        ensures
            r matches Result::Ok(v) && spec_mock_trades(v@, limit),
    {
        Result::Ok(mock_trades(limit))
    }

    /// The synthetic order book of mock mode for the requested pair.
    pub fn fetch_order_book(&self, selling_asset: &Asset, buying_asset: &Asset, limit: u32) -> (r:
        Result<OrderBook, RpcError>)
        requires
            self.spec_mock_mode(),
        ensures
            r matches Result::Ok(ob) && spec_is_mock_order_book(ob, *selling_asset, *buying_asset),
    {
        Result::Ok(mock_order_book(selling_asset, buying_asset))
    }

    /// A synthetic page of five payments for any ledger.
    pub fn fetch_payments_for_ledger(&self, sequence: u64) -> (r: Result<Vec<Payment>, RpcError>)
        requires
            self.spec_mock_mode(),
        ensures
            r matches Result::Ok(v) && spec_mock_payments(v@, 5),
    {
        Result::Ok(mock_payments(5))
    }

    /// A synthetic page of five transactions for any ledger.
    pub fn fetch_transactions_for_ledger(&self, sequence: u64) -> (r: Result<
        Vec<HorizonTransaction>,
        RpcError,
    >)
        requires
            self.spec_mock_mode(),
        ensures
            r matches Result::Ok(v) && spec_mock_transactions(v@, 5),
    {
        Result::Ok(mock_transactions(5))
    }

    /// A synthetic page of payments for any account.
    pub fn fetch_account_payments(&self, account_id: &str, limit: u32) -> (r: Result<
        Vec<Payment>,
        RpcError,
    >)
        requires
            self.spec_mock_mode(),
        ensures
            r matches Result::Ok(v) && spec_mock_payments(v@, limit),
    {
        Result::Ok(mock_payments(limit))
    }
}

} // verus!
