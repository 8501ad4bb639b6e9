use stellar_insights::rpc_error::RpcError;
use stellar_insights::stellar::{
    account_payments_url, asset_to_query_params, envelope_to_result, first_record,
    get_ledgers_request_body, health_request_body, latest_ledger_url, payments_url,
    records_or_empty, response_to_error, transport_error, Asset, EmbeddedRecords, HorizonResponse,
    JsonRpcError, JsonRpcResponse, RpcClientConfig, StellarRpcClient,
};

#[test]
fn test_mock_health_check() {
    let client = StellarRpcClient::new_with_defaults(true);
    let health = client.check_health().unwrap();

    assert_eq!(health.status, "healthy");
    assert!(health.latest_ledger > 0);
}

#[test]
fn test_mock_fetch_ledger() {
    let client = StellarRpcClient::new_with_defaults(true);
    let ledger = client.fetch_latest_ledger().unwrap();

    assert!(ledger.sequence > 0);
    assert!(!ledger.hash.is_empty());
}

#[test]
fn test_mock_fetch_payments() {
    let client = StellarRpcClient::new_with_defaults(true);
    let payments = client.fetch_payments(5, None).unwrap();

    assert_eq!(payments.len(), 5);
    assert!(!payments[0].id.is_empty());
}

#[test]
fn test_mock_fetch_trades() {
    let client = StellarRpcClient::new_with_defaults(true);
    let trades = client.fetch_trades(3, None).unwrap();

    assert_eq!(trades.len(), 3);
    assert!(!trades[0].id.is_empty());
}

#[test]
fn test_mock_fetch_order_book() {
    let client = StellarRpcClient::new_with_defaults(true);

    let selling = Asset {
        asset_type: "native".to_string(),
        asset_code: None,
        asset_issuer: None,
    };

    let buying = Asset {
        asset_type: "credit_alphanum4".to_string(),
        asset_code: Some("USDC".to_string()),
        asset_issuer: Some("GBXXXXXXX".to_string()),
    };

    let order_book = client.fetch_order_book(&selling, &buying, 10).unwrap();

    assert!(!order_book.bids.is_empty());
    assert!(!order_book.asks.is_empty());
}

#[test]
fn test_mock_payment_fields() {
    let client = StellarRpcClient::new_with_defaults(true);
    let payments = client.fetch_payments(4, None).unwrap();
    assert_eq!(payments[0].id, "payment_0");
    assert_eq!(payments[3].id, "payment_3");
    assert_eq!(payments[0].asset_type, "native");
    assert_eq!(payments[0].asset_code, None);
    assert_eq!(payments[1].asset_type, "credit_alphanum4");
    assert_eq!(payments[1].asset_code.as_deref(), Some("USDC"));
    assert_eq!(payments[0].amount, "100.0000000");
    assert_eq!(payments[2].amount, "120.0000000");
    assert_eq!(payments[1].created_at, "2026-01-22T10:01:00Z");
}

#[test]
fn test_mock_fetch_ledgers_page() {
    let client = StellarRpcClient::new_with_defaults(true);
    let page = client.fetch_ledgers(Some(5000), 3, None).unwrap();
    assert_eq!(page.ledgers.len(), 3);
    assert_eq!(page.ledgers[0].sequence, 5000);
    assert_eq!(page.ledgers[2].sequence, 5002);
    assert_eq!(page.ledgers[0].hash, "hash_5000");
    assert_eq!(page.latest_ledger, 5103);
    assert_eq!(page.oldest_ledger, 4000);
    assert_eq!(page.cursor.as_deref(), Some("5002"));
}

#[test]
fn test_mock_transactions_alternate_fee_bumps() {
    let client = StellarRpcClient::new_with_defaults(true);
    let txs = client.fetch_transactions_for_ledger(51583040).unwrap();
    assert_eq!(txs.len(), 5);
    assert!(txs[0].fee_bump_transaction.is_some());
    assert!(txs[1].fee_bump_transaction.is_none());
    assert!(txs[2].inner_transaction.is_some());
    assert!(txs[0].successful);
}

#[test]
fn test_response_to_error_statuses() {
    assert!(matches!(
        response_to_error(429, "slow down".to_string()),
        RpcError::RateLimitError {
            retry_after_ms: None
        }
    ));
    match response_to_error(503, "unavailable".to_string()) {
        RpcError::ServerError { status, message } => {
            assert_eq!(status, 503);
            assert_eq!(message, "unavailable");
        }
        other => panic!("unexpected: {:?}", other),
    }
    match response_to_error(404, "missing".to_string()) {
        RpcError::ServerError { status, .. } => assert_eq!(status, 404),
        other => panic!("unexpected: {:?}", other),
    }
}

#[test]
fn test_transport_error_classification() {
    assert!(matches!(
        transport_error(true, "whatever".to_string()),
        RpcError::TimeoutError(30_000)
    ));
    match transport_error(false, "connection reset".to_string()) {
        RpcError::NetworkError(m) => assert_eq!(m, "connection reset"),
        other => panic!("unexpected: {:?}", other),
    }
}

#[test]
fn test_envelope_error_takes_precedence() {
    let resp: JsonRpcResponse<u64> = JsonRpcResponse {
        jsonrpc: "2.0".to_string(),
        id: 1,
        result: Some(7),
        error: Some(JsonRpcError {
            code: -32000,
            message: "boom".to_string(),
        }),
    };
    match envelope_to_result(resp, "no result") {
        Err(RpcError::JsonRpcError { code, message }) => {
            assert_eq!(code, -32000);
            assert_eq!(message, "boom");
        }
        other => panic!("unexpected: {:?}", other),
    }
}

#[test]
fn test_envelope_result_and_missing() {
    let ok: JsonRpcResponse<u64> = JsonRpcResponse {
        jsonrpc: "2.0".to_string(),
        id: 1,
        result: Some(7),
        error: None,
    };
    assert_eq!(envelope_to_result(ok, "no result").unwrap(), 7);

    let empty: JsonRpcResponse<u64> = JsonRpcResponse {
        jsonrpc: "2.0".to_string(),
        id: 1,
        result: None,
        error: None,
    };
    match envelope_to_result(empty, "No result in health response") {
        Err(RpcError::ParseError(m)) => assert_eq!(m, "No result in health response"),
        other => panic!("unexpected: {:?}", other),
    }
}

#[test]
fn test_first_record_and_records_or_empty() {
    let resp: HorizonResponse<u64> = HorizonResponse {
        embedded: Some(EmbeddedRecords {
            records: vec![11, 22],
        }),
        data: None,
    };
    assert_eq!(first_record(resp, "No ledger data found").unwrap(), 11);

    let none: HorizonResponse<u64> = HorizonResponse {
        embedded: None,
        data: None,
    };
    match first_record(none, "No ledger data found") {
        Err(RpcError::ParseError(m)) => assert_eq!(m, "No ledger data found"),
        other => panic!("unexpected: {:?}", other),
    }

    let none2: HorizonResponse<u64> = HorizonResponse {
        embedded: None,
        data: None,
    };
    assert!(records_or_empty(none2).is_empty());
}

#[test]
fn test_request_bodies() {
    assert_eq!(
        health_request_body(),
        "{\"jsonrpc\":\"2.0\",\"method\":\"getHealth\",\"id\":1}"
    );
    assert_eq!(
        get_ledgers_request_body(Some(5000), 10, None),
        "{\"jsonrpc\":\"2.0\",\"method\":\"getLedgers\",\"id\":1,\"params\":{\"pagination\":{\"limit\":10},\"startLedger\":5000}}"
    );
    assert_eq!(
        get_ledgers_request_body(Some(5000), 10, Some("abc")),
        "{\"jsonrpc\":\"2.0\",\"method\":\"getLedgers\",\"id\":1,\"params\":{\"pagination\":{\"limit\":10,\"cursor\":\"abc\"}}}"
    );
    assert_eq!(
        get_ledgers_request_body(None, 25, None),
        "{\"jsonrpc\":\"2.0\",\"method\":\"getLedgers\",\"id\":1,\"params\":{\"pagination\":{\"limit\":25}}}"
    );
}

#[test]
fn test_request_urls() {
    assert_eq!(
        latest_ledger_url("https://h.example"),
        "https://h.example/ledgers?order=desc&limit=1"
    );
    assert_eq!(
        payments_url("https://h.example", 200, None),
        "https://h.example/payments?order=desc&limit=200"
    );
    assert_eq!(
        payments_url("https://h.example", 200, Some("cur")),
        "https://h.example/payments?order=desc&limit=200&cursor=cur"
    );
    assert_eq!(
        account_payments_url("https://h.example", "GABC", 10),
        "https://h.example/accounts/GABC/payments?order=desc&limit=10"
    );
}

#[test]
fn test_asset_query_params() {
    let native = Asset {
        asset_type: "native".to_string(),
        asset_code: None,
        asset_issuer: None,
    };
    assert_eq!(
        asset_to_query_params("selling", &native),
        "selling_asset_type=native"
    );
    let issued = Asset {
        asset_type: "credit_alphanum4".to_string(),
        asset_code: Some("USDC".to_string()),
        asset_issuer: Some("GAXY".to_string()),
    };
    assert_eq!(
        asset_to_query_params("buying", &issued),
        "buying_asset_type=credit_alphanum4&buying_asset_code=USDC&buying_asset_issuer=GAXY"
    );
}

#[test]
fn test_client_accessors() {
    let client = StellarRpcClient::new(
        "https://rpc.example".to_string(),
        "https://h.example".to_string(),
        true,
    );
    assert_eq!(client.rpc_url(), "https://rpc.example");
    assert_eq!(client.horizon_url(), "https://h.example");
    assert!(client.is_mock());
    let config = client.config();
    assert_eq!(config.max_retries, 3);
    assert_eq!(config.circuit_breaker.failure_threshold, 5);
    assert_eq!(client.breaker_state_value(), 0);
}

#[test]
fn test_client_breaker_guard() {
    let mut client = StellarRpcClient::new_with_config(
        "https://rpc.example".to_string(),
        "https://h.example".to_string(),
        false,
        RpcClientConfig {
            max_retries: 3,
            initial_backoff_ms: 1,
            max_backoff_ms: 10,
            circuit_breaker: stellar_insights::circuit_breaker::CircuitBreakerConfig {
                failure_threshold: 1,
                success_threshold: 1,
                timeout_duration_ms: 1_000,
                half_open_max_calls: 1,
            },
        },
    );
    assert!(client.begin_upstream_call(0));
    client.report_upstream_error(&RpcError::TimeoutError(1), 0);
    assert_eq!(client.breaker_state_value(), 1);
    assert!(!client.begin_upstream_call(500));
    assert!(client.begin_upstream_call(1_000));
    client.report_upstream_success();
    assert_eq!(client.breaker_state_value(), 0);
}
