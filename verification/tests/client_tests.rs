use binance_core::account::{CustomOrderRequest, FuturesAccount, IncomeRequest, OrderSide, OrderType};
use binance_core::encoding::Decimal;
use binance_core::endpoint::{Config, Credentials, Method};
use binance_core::errors::ClientError;
use binance_core::general::FuturesGeneral;

const TS: u64 = 1625097600000;

fn config() -> Config {
    Config {
        rest_api_endpoint: b"http://localhost:8080".to_vec(),
        futures_rest_api_endpoint: b"http://localhost:8080".to_vec(),
        recv_window: 1234,
    }
}

fn account() -> FuturesAccount {
    FuturesAccount {
        config: config(),
        credentials: Credentials {
            api_key: Some(b"api-key".to_vec()),
            secret_key: Some(b"secret-key".to_vec()),
        },
    }
}

fn general() -> FuturesGeneral {
    FuturesGeneral {
        config: config(),
        credentials: Credentials { api_key: None, secret_key: None },
    }
}

fn query_text(q: &[u8]) -> (String, String) {
    let text = String::from_utf8(q.to_vec()).unwrap();
    let at = text.find("&signature=").unwrap();
    let sig = text[at + "&signature=".len()..].to_string();
    (text[..at].to_string(), sig)
}

fn dec(mantissa: u64, scale: u32) -> Decimal {
    Decimal { neg: false, mantissa, scale }
}

#[test]
fn change_initial_leverage() {
    let account = account();
    let req = account
        .change_initial_leverage_request(b"LTCUSDT", 2, TS)
        .unwrap();
    assert_eq!(req.method, Method::Post);
    assert_eq!(req.path, "/fapi/v1/leverage");
    let (payload, sig) = query_text(&req.query);
    assert_eq!(
        payload,
        format!("leverage=2&recvWindow=1234&symbol=LTCUSDT&timestamp={}", TS)
    );
    assert_eq!(sig.len(), 64);

    let body = br#"{"leverage": 2, "maxNotionalValue": "9223372036854776000", "symbol": "LTCUSDT"}"#;
    let response = account.change_initial_leverage_response(200, body).unwrap();
    assert_eq!(response.leverage, 2);
    assert_eq!(response.symbol, b"LTCUSDT".to_vec());
    assert_eq!(response.max_notional_value, dec(9223372036854776000, 0));
}

#[test]
fn change_margin_type() {
    let account = account();
    let req = account.change_margin_type_request(b"BTCUSDT", true, TS).unwrap();
    assert_eq!(req.method, Method::Post);
    assert_eq!(req.path, "/fapi/v1/marginType");
    let (payload, _) = query_text(&req.query);
    assert_eq!(
        payload,
        format!("marginType=ISOLATED&recvWindow=1234&symbol=BTCUSDT&timestamp={}", TS)
    );
    let body = br#"{"code": 200, "msg": "success"}"#;
    // The exchange acknowledges this operation with an envelope-shaped body,
    // so its code and message come back as an exchange response.
    let r = account.ack_response(200, body);
    assert_eq!(
        r,
        Err(ClientError::Exchange { code: 200, message: b"success".to_vec() })
    );
    assert_eq!(account.ack_response(200, b"{}"), Ok(()));
}

#[test]
fn change_position_margin() {
    let account = account();
    let req = account
        .change_position_margin_request(b"BTCUSDT", dec(100, 0), true, TS)
        .unwrap();
    assert_eq!(req.method, Method::Post);
    assert_eq!(req.path, "/fapi/v1/positionMargin");
    let (payload, _) = query_text(&req.query);
    assert_eq!(
        payload,
        format!("amount=100&recvWindow=1234&symbol=BTCUSDT&timestamp={}&type=1", TS)
    );
}

#[test]
fn cancel_all_open_orders() {
    let account = account();
    let req = account.cancel_all_open_orders_request(b"BTCUSDT", TS).unwrap();
    assert_eq!(req.method, Method::Delete);
    assert_eq!(req.path, "/fapi/v1/allOpenOrders");
    let (payload, _) = query_text(&req.query);
    assert_eq!(payload, format!("recvWindow=1234&symbol=BTCUSDT&timestamp={}", TS));
}

#[test]
fn change_position_mode() {
    let account = account();
    let req = account.change_position_mode_request(true, TS).unwrap();
    assert_eq!(req.method, Method::Post);
    assert_eq!(req.path, "/fapi/v1/positionSide/dual");
    let (payload, _) = query_text(&req.query);
    assert_eq!(payload, format!("dualSidePosition=true&recvWindow=1234&timestamp={}", TS));
}

const ORDER_FIXTURE_BUY: &[u8] = br#"{
    "clientOrderId": "abc123",
    "closePosition": true,
    "orderId": 123456789,
    "origType": "STOP_MARKET",
    "side": "BUY",
    "status": "NEW",
    "stopPrice": "10.5",
    "symbol": "SRMUSDT",
    "type": "STOP_MARKET"
}"#;

const ORDER_FIXTURE_SELL: &[u8] = br#"{
    "clientOrderId": "abc124",
    "closePosition": true,
    "orderId": 123456790,
    "origType": "STOP_MARKET",
    "side": "SELL",
    "status": "NEW",
    "stopPrice": "7.4",
    "symbol": "SRMUSDT",
    "type": "STOP_MARKET"
}"#;

#[test]
fn stop_market_close_buy() {
    let account = account();
    let req = account
        .stop_market_close_buy_request(b"SRMUSDT", dec(105, 1), TS)
        .unwrap();
    assert_eq!(req.method, Method::Post);
    assert_eq!(req.path, "/fapi/v1/order");
    let (payload, _) = query_text(&req.query);
    assert_eq!(
        payload,
        format!(
            "closePosition=TRUE&recvWindow=1234&side=BUY&stopPrice=10.5&symbol=SRMUSDT&timestamp={}&type=STOP_MARKET",
            TS
        )
    );

    let transaction = account.order_response(200, ORDER_FIXTURE_BUY).unwrap();
    assert_eq!(transaction.symbol, b"SRMUSDT".to_vec());
    assert_eq!(transaction.side, b"BUY".to_vec());
    assert_eq!(transaction.orig_type, b"STOP_MARKET".to_vec());
    assert!(transaction.close_position);
    assert_eq!(transaction.stop_price, dec(105, 1));
}

#[test]
fn stop_market_close_sell() {
    let account = account();
    let req = account
        .stop_market_close_sell_request(b"SRMUSDT", dec(74, 1), TS)
        .unwrap();
    let (payload, _) = query_text(&req.query);
    assert_eq!(
        payload,
        format!(
            "closePosition=TRUE&recvWindow=1234&side=SELL&stopPrice=7.4&symbol=SRMUSDT&timestamp={}&type=STOP_MARKET",
            TS
        )
    );

    let transaction = account.order_response(200, ORDER_FIXTURE_SELL).unwrap();
    assert_eq!(transaction.symbol, b"SRMUSDT".to_vec());
    assert_eq!(transaction.side, b"SELL".to_vec());
    assert_eq!(transaction.orig_type, b"STOP_MARKET".to_vec());
    assert!(transaction.close_position);
    assert_eq!(transaction.stop_price, dec(74, 1));
}

#[test]
fn custom_order() {
    let account = account();
    let order = CustomOrderRequest {
        symbol: b"SRMUSDT".to_vec(),
        side: OrderSide::Sell,
        position_side: None,
        order_type: OrderType::StopMarket,
        time_in_force: None,
        qty: None,
        reduce_only: None,
        price: None,
        stop_price: Some(dec(74, 1)),
        close_position: Some(true),
        activation_price: None,
        callback_rate: None,
        working_type: None,
        price_protect: None,
    };
    let req = account.custom_order_request(&order, TS).unwrap();
    assert_eq!(req.method, Method::Post);
    assert_eq!(req.path, "/fapi/v1/order");
    let (payload, _) = query_text(&req.query);
    assert_eq!(
        payload,
        format!(
            "closePosition=TRUE&recvWindow=1234&side=SELL&stopPrice=7.4&symbol=SRMUSDT&timestamp={}&type=STOP_MARKET",
            TS
        )
    );

    let transaction = account.order_response(200, ORDER_FIXTURE_SELL).unwrap();
    assert_eq!(transaction.symbol, b"SRMUSDT".to_vec());
    assert_eq!(transaction.side, b"SELL".to_vec());
    assert_eq!(transaction.orig_type, b"STOP_MARKET".to_vec());
    assert!(transaction.close_position);
    assert_eq!(transaction.stop_price, dec(74, 1));
}

#[test]
fn get_income() {
    let account = account();
    let query = IncomeRequest {
        symbol: Some(b"BTCUSDT".to_vec()),
        income_type: Some(b"TRANSFER".to_vec()),
        start_time: Some(12345678910),
        end_time: Some(12345678910),
        limit: Some(10),
    };
    let req = account.get_income_request(&query, TS).unwrap();
    assert_eq!(req.method, Method::Get);
    assert_eq!(req.path, "/fapi/v1/income");
    let (payload, _) = query_text(&req.query);
    assert_eq!(
        payload,
        format!(
            "endTime=12345678910&incomeType=TRANSFER&limit=10&recvWindow=1234&startTime=12345678910&symbol=BTCUSDT&timestamp={}",
            TS
        )
    );

    let body = br#"[
        {"symbol": "BTCUSDT", "incomeType": "TRANSFER", "income": "-0.37500000", "asset": "USDT", "time": 1570608000000},
        {"symbol": "BTCUSDT", "incomeType": "COMMISSION", "income": "0.01000000", "asset": "USDT", "time": 1570636800000}
    ]"#;
    let list = account.get_income_response(200, body).unwrap();
    assert_eq!(list.len(), 2);
    assert_eq!(list[0].symbol, b"BTCUSDT".to_vec());
    assert_eq!(list[0].income_type, b"TRANSFER".to_vec());
    assert_eq!(list[0].income, Decimal { neg: true, mantissa: 37500000, scale: 8 });
    assert_eq!(list[0].time, 1570608000000);
}

#[test]
fn signed_call_without_secret_fails_before_any_request_exists() {
    let account = FuturesAccount {
        config: config(),
        credentials: Credentials { api_key: Some(b"api-key".to_vec()), secret_key: None },
    };
    let r = account.change_initial_leverage_request(b"LTCUSDT", 2, TS);
    assert_eq!(r.err().unwrap(), ClientError::Authentication);
}

#[test]
fn exchange_error_envelope_wins_over_the_status_code() {
    let account = account();
    let body = br#"{"code": -1121, "msg": "Invalid symbol."}"#;
    let r = account.order_response(400, body);
    assert_eq!(
        r,
        Err(ClientError::Exchange { code: -1121, message: b"Invalid symbol.".to_vec() })
    );
}

#[test]
fn transport_and_decode_failures_are_distinct() {
    let account = account();
    // A failure status without an envelope keeps the raw status and body.
    let r = account.order_response(503, b"gateway down");
    assert_eq!(
        r,
        Err(ClientError::Transport { status: 503, body: b"gateway down".to_vec() })
    );
    // A success body of the wrong shape is a decode failure.
    let r2 = account.order_response(200, br#"{"unexpected": true}"#);
    assert_eq!(r2, Err(ClientError::Decode));
    // An unparseable success body too.
    let r3 = account.order_response(200, b"not json at all");
    assert_eq!(r3, Err(ClientError::Decode));
}

const EXCHANGE_INFO_FIXTURE: &[u8] = br#"{
    "serverTime": 1565613908500,
    "symbols": [
        {"symbol": "BTCUSDT", "status": "TRADING", "baseAsset": "BTC", "quoteAsset": "USDT"},
        {"symbol": "LTCUSDT", "status": "TRADING", "baseAsset": "LTC", "quoteAsset": "USDT"}
    ]
}"#;

#[test]
fn ping() {
    let general = general();
    let req = general.ping_request();
    assert_eq!(req.method, Method::Get);
    assert_eq!(req.path, "/fapi/v1/ping");
    assert!(req.query.is_empty());
    let r = general.ping_response(200, b"{}").unwrap();
    assert_eq!(r, "pong");
}

#[test]
fn get_server_time() {
    let general = general();
    let req = general.get_server_time_request();
    assert_eq!(req.path, "/fapi/v1/time");
    let t = general.get_server_time_response(200, br#"{"serverTime": 1499827319559}"#).unwrap();
    assert_eq!(t.server_time, 1499827319559);
}

#[test]
fn exchange_info() {
    let general = general();
    let req = general.exchange_info_request();
    assert_eq!(req.path, "/fapi/v1/exchangeInfo");
    let info = general.exchange_info_response(200, EXCHANGE_INFO_FIXTURE).unwrap();
    assert_eq!(info.server_time, 1565613908500);
    assert_eq!(info.symbols.len(), 2);
    assert_eq!(info.symbols[1].symbol, b"LTCUSDT".to_vec());
    assert_eq!(info.symbols[1].base_asset, b"LTC".to_vec());
}

#[test]
fn get_symbol_info() {
    let general = general();
    let info = general.exchange_info_response(200, EXCHANGE_INFO_FIXTURE).unwrap();
    // Lookup is case-insensitive.
    let s = general.get_symbol_info(&info, b"ltcusdt").unwrap();
    assert_eq!(s.symbol, b"LTCUSDT".to_vec());
    assert_eq!(s.quote_asset, b"USDT".to_vec());
    // A symbol absent from the catalog is not found.
    let missing = general.get_symbol_info(&info, b"DOGEUSDT");
    assert_eq!(missing.err().unwrap(), ClientError::NotFound);
}
