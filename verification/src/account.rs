//! Futures account and trading operations: leverage, margin, position
//! mode, orders, and income history. Each operation builds a fully signed
//! request from typed inputs and a caller-supplied timestamp, and
//! interprets the raw response; the network call itself stays outside.

use vstd::prelude::*;
use crate::encoding::{dec_digits, percent_encoded, rendered_decimal, Decimal};
use crate::endpoint::{Config, Credentials, Futures, Method, Request, API};
use crate::errors::{ClientError, ClientErrorVal};
use crate::json::JsonVal;
use crate::model::{Income, Leverage, Transaction};
use crate::params::{joined, rendered_value, spec_insert_pair, ParamValue, ParameterSet};
use crate::response::{
    classify, decode_income_list, decode_leverage, decode_transaction, bool_field, dec_field,
    income_list_ok, income_matches, leverage_ok, spec_classify, str_field, transaction_ok,
    u64_field,
};
use crate::sign::{build_signed_query, key_bytes, signing_pairs, spec_signed_query, str_bytes};

verus! {

/// Which side an order takes.
#[derive(Clone, Copy, PartialEq, Eq, Structural, Debug)]
pub enum OrderSide {
    Buy,
    Sell,
}

/// The side's wire name.
pub open spec fn spec_side(s: OrderSide) -> Seq<u8> {
    match s {
        OrderSide::Buy => key_bytes("BUY"),
        OrderSide::Sell => key_bytes("SELL"),
    }
}

fn side_bytes(s: OrderSide) -> (r: Vec<u8>)
    ensures
        r@ == spec_side(s),
{
    match s {
        OrderSide::Buy => str_bytes("BUY"),
        OrderSide::Sell => str_bytes("SELL"),
    }
}

/// The order types covered here.
#[derive(Clone, Copy, PartialEq, Eq, Structural, Debug)]
pub enum OrderType {
    Limit,
    Market,
    StopMarket,
    TakeProfitMarket,
    TrailingStopMarket,
}

/// The order type's wire name.
pub open spec fn spec_order_type(t: OrderType) -> Seq<u8> {
    match t {
        OrderType::Limit => key_bytes("LIMIT"),
        OrderType::Market => key_bytes("MARKET"),
        OrderType::StopMarket => key_bytes("STOP_MARKET"),
        OrderType::TakeProfitMarket => key_bytes("TAKE_PROFIT_MARKET"),
        OrderType::TrailingStopMarket => key_bytes("TRAILING_STOP_MARKET"),
    }
}

fn order_type_bytes(t: OrderType) -> (r: Vec<u8>)
    ensures
        r@ == spec_order_type(t),
{
    match t {
        OrderType::Limit => str_bytes("LIMIT"),
        OrderType::Market => str_bytes("MARKET"),
        OrderType::StopMarket => str_bytes("STOP_MARKET"),
        OrderType::TakeProfitMarket => str_bytes("TAKE_PROFIT_MARKET"),
        OrderType::TrailingStopMarket => str_bytes("TRAILING_STOP_MARKET"),
    }
}

/// A fully custom order. Absent optional fields are omitted from the
/// query entirely.
pub struct CustomOrderRequest {
    pub symbol: Vec<u8>,
    pub side: OrderSide,
    pub position_side: Option<Vec<u8>>,
    pub order_type: OrderType,
    pub time_in_force: Option<Vec<u8>>,
    pub qty: Option<Decimal>,
    pub reduce_only: Option<bool>,
    pub price: Option<Decimal>,
    pub stop_price: Option<Decimal>,
    pub close_position: Option<bool>,
    pub activation_price: Option<Decimal>,
    pub callback_rate: Option<Decimal>,
    pub working_type: Option<Vec<u8>>,
    pub price_protect: Option<bool>,
}

/// An income-history query. Absent fields are omitted entirely.
pub struct IncomeRequest {
    pub symbol: Option<Vec<u8>>,
    pub income_type: Option<Vec<u8>>,
    pub start_time: Option<u64>,
    pub end_time: Option<u64>,
    pub limit: Option<u64>,
}

/// Futures account and trading operations.
pub struct FuturesAccount {
    pub config: Config,
    pub credentials: Credentials,
}

impl FuturesAccount {
    /// Build a signed request against a futures endpoint: the parameters
    /// get `timestamp` and the configured `recvWindow`, the canonical
    /// encoding is signed, and the API key rides along for the header.
    /// Fails with `Authentication` if and only if no secret key is set.
    fn signed_request(&self, api: API, method: Method, params: ParameterSet, timestamp_ms: u64)
        -> (r: Result<Request, ClientError>)
        requires
            params.wf(),
        ensures
            r is Err <==> self.credentials.secret_key is None,
            r matches Err(e) ==> e == ClientError::Authentication,
            r matches Ok(req) ==> {
                &&& self.credentials.secret_key matches Some(sec) && req.query@
                    == spec_signed_query(
                    joined(signing_pairs(params@, self.config.recv_window, timestamp_ms)),
                    sec@,
                )
                &&& req.method == method
                &&& req.path@ == crate::endpoint::spec_path(api)
                &&& req.base_url@ == (match api {
                    API::Spot(_) => self.config.rest_api_endpoint@,
                    API::Futures(_) => self.config.futures_rest_api_endpoint@,
                })
                &&& (req.api_key is Some <==> self.credentials.api_key is Some)
                &&& (req.api_key matches Some(k) ==> self.credentials.api_key matches Some(k0)
                    && k@ == k0@)
            },
    {
        let query = match build_signed_query(
            params,
            &self.credentials.secret_key,
            self.config.recv_window,
            timestamp_ms,
        ) {
            Result::Ok(q) => q,
            Result::Err(e) => {
                return Result::Err(e);
            },
        };
        let api_key = match &self.credentials.api_key {
            Option::Some(k) => Option::Some(vstd::slice::slice_to_vec(k.as_slice())),
            Option::None => Option::None,
        };
        Result::Ok(
            Request {
                method,
                base_url: vstd::slice::slice_to_vec(self.config.base_url(api.market()).as_slice()),
                path: api.path(),
                query,
                api_key,
            },
        )
    }

    /// Interpret a response whose success carries no data the caller
    /// needs: any successful response is the unit acknowledgement.
    pub fn ack_response(&self, status: u16, body: &[u8]) -> (r: Result<(), ClientError>)
        ensures
            r is Ok <==> spec_classify(status, body@) is Ok,
            r matches Err(e) ==> spec_classify(status, body@) == Result::<
                JsonVal,
                ClientErrorVal,
            >::Err(e.deep()),
    {
        match classify(status, body) {
            Result::Ok(_) => Result::Ok(()),
            Result::Err(e) => Result::Err(e),
        }
    }

    /// The pairs of a change-leverage call.
    pub open spec fn leverage_pairs(symbol: Seq<u8>, leverage: u8) -> Seq<(Seq<u8>, Seq<u8>)> {
        spec_insert_pair(
            spec_insert_pair(
                Seq::empty(),
                key_bytes("symbol"),
                percent_encoded(symbol),
            ),
            key_bytes("leverage"),
            dec_digits(leverage as nat),
        )
    }

    /// Build the signed change-leverage request.
    pub fn change_initial_leverage_request(
        &self,
        symbol: &[u8],
        leverage: u8,
        timestamp_ms: u64,
    ) -> (r: Result<Request, ClientError>)
        ensures
            r is Err <==> self.credentials.secret_key is None,
            r matches Err(e) ==> e == ClientError::Authentication,
            r matches Ok(req) ==> {
                &&& req.method == Method::Post
                &&& req.path@ == crate::endpoint::spec_path(
                    API::Futures(Futures::ChangeInitialLeverage),
                )
                &&& self.credentials.secret_key matches Some(sec) && req.query@
                    == spec_signed_query(
                    joined(
                        signing_pairs(
                            Self::leverage_pairs(symbol@, leverage),
                            self.config.recv_window,
                            timestamp_ms,
                        ),
                    ),
                    sec@,
                )
            },
    {
        let mut p = ParameterSet::new();
        p.insert(str_bytes("symbol"), ParamValue::Text(vstd::slice::slice_to_vec(symbol)));
        p.insert(str_bytes("leverage"), ParamValue::Unsigned(leverage as u64));
        proof {
            assert(p@ == Self::leverage_pairs(symbol@, leverage));
        }
        self.signed_request(
            API::Futures(Futures::ChangeInitialLeverage),
            Method::Post,
            p,
            timestamp_ms,
        )
    }

    /// Interpret a change-leverage response.
    pub fn change_initial_leverage_response(&self, status: u16, body: &[u8]) -> (r: Result<
        Leverage,
        ClientError,
    >)
        ensures
            r is Ok <==> (spec_classify(status, body@) matches Ok(v) && leverage_ok(v)),
            r matches Ok(t) ==> (spec_classify(status, body@) matches Ok(v) && u64_field(
                v,
                key_bytes("leverage"),
            ) == Option::Some(t.leverage) && dec_field(v, key_bytes("maxNotionalValue"))
                == Option::Some(t.max_notional_value) && str_field(v, key_bytes("symbol"))
                == Option::Some(t.symbol@)),
            r matches Err(e) ==> (match spec_classify(status, body@) {
                Result::Err(ev) => e.deep() == ev,
                Result::Ok(v) => e == ClientError::Decode && !leverage_ok(v),
            }),
    {
        match classify(status, body) {
            Result::Ok(v) => decode_leverage(&v),
            Result::Err(e) => Result::Err(e),
        }
    }

    /// The pairs of a change-margin-type call.
    pub open spec fn margin_type_pairs(symbol: Seq<u8>, isolated: bool) -> Seq<
        (Seq<u8>, Seq<u8>),
    > {
        spec_insert_pair(
            spec_insert_pair(
                Seq::empty(),
                key_bytes("symbol"),
                percent_encoded(symbol),
            ),
            key_bytes("marginType"),
            percent_encoded(if isolated { key_bytes("ISOLATED") } else { key_bytes("CROSSED") }),
        )
    }

    /// Build the signed change-margin-type request.
    pub fn change_margin_type_request(
        &self,
        symbol: &[u8],
        isolated: bool,
        timestamp_ms: u64,
    ) -> (r: Result<Request, ClientError>)
        ensures
            r is Err <==> self.credentials.secret_key is None,
            r matches Err(e) ==> e == ClientError::Authentication,
            r matches Ok(req) ==> {
                &&& req.method == Method::Post
                &&& req.path@ == crate::endpoint::spec_path(API::Futures(Futures::MarginType))
                &&& self.credentials.secret_key matches Some(sec) && req.query@
                    == spec_signed_query(
                    joined(
                        signing_pairs(
                            Self::margin_type_pairs(symbol@, isolated),
                            self.config.recv_window,
                            timestamp_ms,
                        ),
                    ),
                    sec@,
                )
            },
    {
        let mut p = ParameterSet::new();
        p.insert(str_bytes("symbol"), ParamValue::Text(vstd::slice::slice_to_vec(symbol)));
        let mt = if isolated {
            str_bytes("ISOLATED")
        } else {
            str_bytes("CROSSED")
        };
        p.insert(str_bytes("marginType"), ParamValue::Text(mt));
        proof {
            assert(p@ == Self::margin_type_pairs(symbol@, isolated));
        }
        self.signed_request(API::Futures(Futures::MarginType), Method::Post, p, timestamp_ms)
    }

    /// The pairs of a change-position-margin call: `type` is 1 to add
    /// margin, 2 to reduce it.
    pub open spec fn position_margin_pairs(symbol: Seq<u8>, amount: Decimal, add: bool) -> Seq<
        (Seq<u8>, Seq<u8>),
    > {
        spec_insert_pair(
            spec_insert_pair(
                spec_insert_pair(
                    Seq::empty(),
                    key_bytes("symbol"),
                    percent_encoded(symbol),
                ),
                key_bytes("amount"),
                rendered_decimal(amount),
            ),
            key_bytes("type"),
            dec_digits(if add { 1nat } else { 2nat }),
        )
    }

    /// Build the signed change-position-margin request.
    pub fn change_position_margin_request(
        &self,
        symbol: &[u8],
        amount: Decimal,
        add: bool,
        timestamp_ms: u64,
    ) -> (r: Result<Request, ClientError>)
        ensures
            r is Err <==> self.credentials.secret_key is None,
            r matches Err(e) ==> e == ClientError::Authentication,
            r matches Ok(req) ==> {
                &&& req.method == Method::Post
                &&& req.path@ == crate::endpoint::spec_path(API::Futures(Futures::PositionMargin))
                &&& self.credentials.secret_key matches Some(sec) && req.query@
                    == spec_signed_query(
                    joined(
                        signing_pairs(
                            Self::position_margin_pairs(symbol@, amount, add),
                            self.config.recv_window,
                            timestamp_ms,
                        ),
                    ),
                    sec@,
                )
            },
    {
        let mut p = ParameterSet::new();
        p.insert(str_bytes("symbol"), ParamValue::Text(vstd::slice::slice_to_vec(symbol)));
        p.insert(str_bytes("amount"), ParamValue::Number(amount));
        let t: u64 = if add {
            1
        } else {
            2
        };
        p.insert(str_bytes("type"), ParamValue::Unsigned(t));
        proof {
            assert(p@ == Self::position_margin_pairs(symbol@, amount, add));
        }
        self.signed_request(API::Futures(Futures::PositionMargin), Method::Post, p, timestamp_ms)
    }

    /// The pairs of a change-position-mode call: the dual-side flag is
    /// lowercase on the wire.
    pub open spec fn position_mode_pairs(dual_side: bool) -> Seq<(Seq<u8>, Seq<u8>)> {
        spec_insert_pair(
            Seq::empty(),
            key_bytes("dualSidePosition"),
            rendered_value(ParamValue::Flag { value: dual_side, upper: false }),
        )
    }

    /// Build the signed change-position-mode request.
    pub fn change_position_mode_request(&self, dual_side: bool, timestamp_ms: u64) -> (r: Result<
        Request,
        ClientError,
    >)
        ensures
            r is Err <==> self.credentials.secret_key is None,
            r matches Err(e) ==> e == ClientError::Authentication,
            r matches Ok(req) ==> {
                &&& req.method == Method::Post
                &&& req.path@ == crate::endpoint::spec_path(API::Futures(Futures::PositionSide))
                &&& self.credentials.secret_key matches Some(sec) && req.query@
                    == spec_signed_query(
                    joined(
                        signing_pairs(
                            Self::position_mode_pairs(dual_side),
                            self.config.recv_window,
                            timestamp_ms,
                        ),
                    ),
                    sec@,
                )
            },
    {
        let mut p = ParameterSet::new();
        p.insert(
            str_bytes("dualSidePosition"),
            ParamValue::Flag { value: dual_side, upper: false },
        );
        proof {
            assert(p@ == Self::position_mode_pairs(dual_side));
        }
        self.signed_request(API::Futures(Futures::PositionSide), Method::Post, p, timestamp_ms)
    }

    /// The pairs of a cancel-all-open-orders call.
    pub open spec fn cancel_all_pairs(symbol: Seq<u8>) -> Seq<(Seq<u8>, Seq<u8>)> {
        spec_insert_pair(Seq::empty(), key_bytes("symbol"), percent_encoded(symbol))
    }

    /// Build the signed cancel-all-open-orders request.
    pub fn cancel_all_open_orders_request(&self, symbol: &[u8], timestamp_ms: u64) -> (r: Result<
        Request,
        ClientError,
    >)
        ensures
            r is Err <==> self.credentials.secret_key is None,
            r matches Err(e) ==> e == ClientError::Authentication,
            r matches Ok(req) ==> {
                &&& req.method == Method::Delete
                &&& req.path@ == crate::endpoint::spec_path(API::Futures(Futures::AllOpenOrders))
                &&& self.credentials.secret_key matches Some(sec) && req.query@
                    == spec_signed_query(
                    joined(
                        signing_pairs(
                            Self::cancel_all_pairs(symbol@),
                            self.config.recv_window,
                            timestamp_ms,
                        ),
                    ),
                    sec@,
                )
            },
    {
        let mut p = ParameterSet::new();
        p.insert(str_bytes("symbol"), ParamValue::Text(vstd::slice::slice_to_vec(symbol)));
        proof {
            assert(p@ == Self::cancel_all_pairs(symbol@));
        }
        self.signed_request(API::Futures(Futures::AllOpenOrders), Method::Delete, p, timestamp_ms)
    }

    /// The pairs of a custom order, built from its present fields in a
    /// fixed insertion order; absent fields leave no pair.
    pub open spec fn custom_order_pairs(o: &CustomOrderRequest) -> Seq<(Seq<u8>, Seq<u8>)> {
        let p0 = spec_insert_pair(
            Seq::empty(),
            key_bytes("symbol"),
            percent_encoded(o.symbol@),
        );
        let p1 = spec_insert_pair(p0, key_bytes("side"), percent_encoded(spec_side(o.side)));
        let p2 = spec_insert_pair(
            p1,
            key_bytes("type"),
            percent_encoded(spec_order_type(o.order_type)),
        );
        let p3 = match o.position_side {
            Option::Some(ps) => spec_insert_pair(
                p2,
                key_bytes("positionSide"),
                percent_encoded(ps@),
            ),
            Option::None => p2,
        };
        let p4 = match o.time_in_force {
            Option::Some(t) => spec_insert_pair(p3, key_bytes("timeInForce"), percent_encoded(t@)),
            Option::None => p3,
        };
        let p5 = match o.qty {
            Option::Some(q) => spec_insert_pair(p4, key_bytes("quantity"), rendered_decimal(q)),
            Option::None => p4,
        };
        let p6 = match o.reduce_only {
            Option::Some(b) => spec_insert_pair(
                p5,
                key_bytes("reduceOnly"),
                rendered_value(ParamValue::Flag { value: b, upper: false }),
            ),
            Option::None => p5,
        };
        let p7 = match o.price {
            Option::Some(d) => spec_insert_pair(p6, key_bytes("price"), rendered_decimal(d)),
            Option::None => p6,
        };
        let p8 = match o.stop_price {
            Option::Some(d) => spec_insert_pair(p7, key_bytes("stopPrice"), rendered_decimal(d)),
            Option::None => p7,
        };
        let p9 = match o.close_position {
            Option::Some(b) => spec_insert_pair(
                p8,
                key_bytes("closePosition"),
                rendered_value(ParamValue::Flag { value: b, upper: true }),
            ),
            Option::None => p8,
        };
        let p10 = match o.activation_price {
            Option::Some(d) => spec_insert_pair(
                p9,
                key_bytes("activationPrice"),
                rendered_decimal(d),
            ),
            Option::None => p9,
        };
        let p11 = match o.callback_rate {
            Option::Some(d) => spec_insert_pair(p10, key_bytes("callbackRate"), rendered_decimal(d)),
            Option::None => p10,
        };
        let p12 = match o.working_type {
            Option::Some(w) => spec_insert_pair(p11, key_bytes("workingType"), percent_encoded(w@)),
            Option::None => p11,
        };
        match o.price_protect {
            Option::Some(b) => spec_insert_pair(
                p12,
                key_bytes("priceProtect"),
                rendered_value(ParamValue::Flag { value: b, upper: true }),
            ),
            Option::None => p12,
        }
    }

    /// Build a signed custom-order request.
    #[verifier::rlimit(60)]
    pub fn custom_order_request(&self, o: &CustomOrderRequest, timestamp_ms: u64) -> (r: Result<
        Request,
        ClientError,
    >)
        ensures
            r is Err <==> self.credentials.secret_key is None,
            r matches Err(e) ==> e == ClientError::Authentication,
            r matches Ok(req) ==> {
                &&& req.method == Method::Post
                &&& req.path@ == crate::endpoint::spec_path(API::Futures(Futures::Order))
                &&& self.credentials.secret_key matches Some(sec) && req.query@
                    == spec_signed_query(
                    joined(
                        signing_pairs(
                            Self::custom_order_pairs(o),
                            self.config.recv_window,
                            timestamp_ms,
                        ),
                    ),
                    sec@,
                )
            },
    {
        let mut p = ParameterSet::new();
        p.insert(
            str_bytes("symbol"),
            ParamValue::Text(vstd::slice::slice_to_vec(o.symbol.as_slice())),
        );
        p.insert(str_bytes("side"), ParamValue::Text(side_bytes(o.side)));
        p.insert(str_bytes("type"), ParamValue::Text(order_type_bytes(o.order_type)));
        match &o.position_side {
            Option::Some(ps) => {
                p.insert(
                    str_bytes("positionSide"),
                    ParamValue::Text(vstd::slice::slice_to_vec(ps.as_slice())),
                );
            },
            Option::None => {},
        }
        match &o.time_in_force {
            Option::Some(t) => {
                p.insert(
                    str_bytes("timeInForce"),
                    ParamValue::Text(vstd::slice::slice_to_vec(t.as_slice())),
                );
            },
            Option::None => {},
        }
        match &o.qty {
            Option::Some(q) => {
                p.insert(str_bytes("quantity"), ParamValue::Number(*q));
            },
            Option::None => {},
        }
        match &o.reduce_only {
            Option::Some(b) => {
                p.insert(str_bytes("reduceOnly"), ParamValue::Flag { value: *b, upper: false });
            },
            Option::None => {},
        }
        match &o.price {
            Option::Some(d) => {
                p.insert(str_bytes("price"), ParamValue::Number(*d));
            },
            Option::None => {},
        }
        match &o.stop_price {
            Option::Some(d) => {
                p.insert(str_bytes("stopPrice"), ParamValue::Number(*d));
            },
            Option::None => {},
        }
        match &o.close_position {
            Option::Some(b) => {
                p.insert(str_bytes("closePosition"), ParamValue::Flag { value: *b, upper: true });
            },
            Option::None => {},
        }
        match &o.activation_price {
            Option::Some(d) => {
                p.insert(str_bytes("activationPrice"), ParamValue::Number(*d));
            },
            Option::None => {},
        }
        match &o.callback_rate {
            Option::Some(d) => {
                p.insert(str_bytes("callbackRate"), ParamValue::Number(*d));
            },
            Option::None => {},
        }
        match &o.working_type {
            Option::Some(w) => {
                p.insert(
                    str_bytes("workingType"),
                    ParamValue::Text(vstd::slice::slice_to_vec(w.as_slice())),
                );
            },
            Option::None => {},
        }
        match &o.price_protect {
            Option::Some(b) => {
                p.insert(str_bytes("priceProtect"), ParamValue::Flag { value: *b, upper: true });
            },
            Option::None => {},
        }
        proof {
            assert(p@ == Self::custom_order_pairs(o));
        }
        self.signed_request(API::Futures(Futures::Order), Method::Post, p, timestamp_ms)
    }

    /// Build the signed stop-market order that closes a short position by
    /// buying: `closePosition=TRUE`, side `BUY`, type `STOP_MARKET`.
    pub fn stop_market_close_buy_request(
        &self,
        symbol: &[u8],
        stop_price: Decimal,
        timestamp_ms: u64,
    ) -> (r: Result<Request, ClientError>)
        ensures
            r is Err <==> self.credentials.secret_key is None,
            r matches Err(e) ==> e == ClientError::Authentication,
            r matches Ok(req) ==> {
                &&& req.method == Method::Post
                &&& req.path@ == crate::endpoint::spec_path(API::Futures(Futures::Order))
                &&& self.credentials.secret_key matches Some(sec) && req.query@
                    == spec_signed_query(
                    joined(
                        signing_pairs(
                            Self::stop_market_close_pairs(symbol@, OrderSide::Buy, stop_price),
                            self.config.recv_window,
                            timestamp_ms,
                        ),
                    ),
                    sec@,
                )
            },
    {
        let o = CustomOrderRequest {
            symbol: vstd::slice::slice_to_vec(symbol),
            side: OrderSide::Buy,
            position_side: Option::None,
            order_type: OrderType::StopMarket,
            time_in_force: Option::None,
            qty: Option::None,
            reduce_only: Option::None,
            price: Option::None,
            stop_price: Option::Some(stop_price),
            close_position: Option::Some(true),
            activation_price: Option::None,
            callback_rate: Option::None,
            working_type: Option::None,
            price_protect: Option::None,
        };
        proof {
            assert(Self::custom_order_pairs(&o) == Self::stop_market_close_pairs(
                symbol@,
                OrderSide::Buy,
                stop_price,
            ));
        }
        self.custom_order_request(&o, timestamp_ms)
    }

    /// Build the signed stop-market order that closes a long position by
    /// selling: `closePosition=TRUE`, side `SELL`, type `STOP_MARKET`.
    pub fn stop_market_close_sell_request(
        &self,
        symbol: &[u8],
        stop_price: Decimal,
        timestamp_ms: u64,
    ) -> (r: Result<Request, ClientError>)
        ensures
            r is Err <==> self.credentials.secret_key is None,
            r matches Err(e) ==> e == ClientError::Authentication,
            r matches Ok(req) ==> {
                &&& req.method == Method::Post
                &&& req.path@ == crate::endpoint::spec_path(API::Futures(Futures::Order))
                &&& self.credentials.secret_key matches Some(sec) && req.query@
                    == spec_signed_query(
                    joined(
                        signing_pairs(
                            Self::stop_market_close_pairs(symbol@, OrderSide::Sell, stop_price),
                            self.config.recv_window,
                            timestamp_ms,
                        ),
                    ),
                    sec@,
                )
            },
    {
        let o = CustomOrderRequest {
            symbol: vstd::slice::slice_to_vec(symbol),
            side: OrderSide::Sell,
            position_side: Option::None,
            order_type: OrderType::StopMarket,
            time_in_force: Option::None,
            qty: Option::None,
            reduce_only: Option::None,
            price: Option::None,
            stop_price: Option::Some(stop_price),
            close_position: Option::Some(true),
            activation_price: Option::None,
            callback_rate: Option::None,
            working_type: Option::None,
            price_protect: Option::None,
        };
        proof {
            assert(Self::custom_order_pairs(&o) == Self::stop_market_close_pairs(
                symbol@,
                OrderSide::Sell,
                stop_price,
            ));
        }
        self.custom_order_request(&o, timestamp_ms)
    }

    /// The pairs of a stop-market close order: symbol, side, type
    /// `STOP_MARKET`, the stop price, and `closePosition=TRUE`.
    pub open spec fn stop_market_close_pairs(
        symbol: Seq<u8>,
        side: OrderSide,
        stop_price: Decimal,
    ) -> Seq<(Seq<u8>, Seq<u8>)> {
        spec_insert_pair(
            spec_insert_pair(
                spec_insert_pair(
                    spec_insert_pair(
                        spec_insert_pair(
                            Seq::empty(),
                            key_bytes("symbol"),
                            percent_encoded(symbol),
                        ),
                        key_bytes("side"),
                        percent_encoded(spec_side(side)),
                    ),
                    key_bytes("type"),
                    percent_encoded(spec_order_type(OrderType::StopMarket)),
                ),
                key_bytes("stopPrice"),
                rendered_decimal(stop_price),
            ),
            key_bytes("closePosition"),
            rendered_value(ParamValue::Flag { value: true, upper: true }),
        )
    }

    /// Interpret an order response.
    pub fn order_response(&self, status: u16, body: &[u8]) -> (r: Result<Transaction, ClientError>)
        ensures
            r is Ok <==> (spec_classify(status, body@) matches Ok(v) && transaction_ok(v)),
            r matches Ok(t) ==> (spec_classify(status, body@) matches Ok(v) && u64_field(
                v,
                key_bytes("orderId"),
            ) == Option::Some(t.order_id) && str_field(v, key_bytes("symbol")) == Option::Some(
                t.symbol@,
            ) && str_field(v, key_bytes("side")) == Option::Some(t.side@) && str_field(
                v,
                key_bytes("origType"),
            ) == Option::Some(t.orig_type@) && bool_field(v, key_bytes("closePosition"))
                == Option::Some(t.close_position) && dec_field(v, key_bytes("stopPrice"))
                == Option::Some(t.stop_price)),
            r matches Err(e) ==> (match spec_classify(status, body@) {
                Result::Err(ev) => e.deep() == ev,
                Result::Ok(v) => e == ClientError::Decode && !transaction_ok(v),
            }),
    {
        match classify(status, body) {
            Result::Ok(v) => decode_transaction(&v),
            Result::Err(e) => Result::Err(e),
        }
    }

    /// The pairs of an income-history query, from its present fields.
    pub open spec fn income_pairs(q: &IncomeRequest) -> Seq<(Seq<u8>, Seq<u8>)> {
        let p0 = match q.symbol {
            Option::Some(s) => spec_insert_pair(
                Seq::empty(),
                key_bytes("symbol"),
                percent_encoded(s@),
            ),
            Option::None => Seq::empty(),
        };
        let p1 = match q.income_type {
            Option::Some(t) => spec_insert_pair(p0, key_bytes("incomeType"), percent_encoded(t@)),
            Option::None => p0,
        };
        let p2 = match q.start_time {
            Option::Some(t) => spec_insert_pair(p1, key_bytes("startTime"), dec_digits(t as nat)),
            Option::None => p1,
        };
        let p3 = match q.end_time {
            Option::Some(t) => spec_insert_pair(p2, key_bytes("endTime"), dec_digits(t as nat)),
            Option::None => p2,
        };
        match q.limit {
            Option::Some(n) => spec_insert_pair(p3, key_bytes("limit"), dec_digits(n as nat)),
            Option::None => p3,
        }
    }

    /// Build the signed income-history request.
    pub fn get_income_request(&self, q: &IncomeRequest, timestamp_ms: u64) -> (r: Result<
        Request,
        ClientError,
    >)
        ensures
            r is Err <==> self.credentials.secret_key is None,
            r matches Err(e) ==> e == ClientError::Authentication,
            r matches Ok(req) ==> {
                &&& req.method == Method::Get
                &&& req.path@ == crate::endpoint::spec_path(API::Futures(Futures::Income))
                &&& self.credentials.secret_key matches Some(sec) && req.query@
                    == spec_signed_query(
                    joined(
                        signing_pairs(
                            Self::income_pairs(q),
                            self.config.recv_window,
                            timestamp_ms,
                        ),
                    ),
                    sec@,
                )
            },
    {
        let mut p = ParameterSet::new();
        match &q.symbol {
            Option::Some(s) => {
                p.insert(
                    str_bytes("symbol"),
                    ParamValue::Text(vstd::slice::slice_to_vec(s.as_slice())),
                );
            },
            Option::None => {},
        }
        match &q.income_type {
            Option::Some(t) => {
                p.insert(
                    str_bytes("incomeType"),
                    ParamValue::Text(vstd::slice::slice_to_vec(t.as_slice())),
                );
            },
            Option::None => {},
        }
        match &q.start_time {
            Option::Some(t) => {
                p.insert(str_bytes("startTime"), ParamValue::Unsigned(*t));
            },
            Option::None => {},
        }
        match &q.end_time {
            Option::Some(t) => {
                p.insert(str_bytes("endTime"), ParamValue::Unsigned(*t));
            },
            Option::None => {},
        }
        match &q.limit {
            Option::Some(n) => {
                p.insert(str_bytes("limit"), ParamValue::Unsigned(*n));
            },
            Option::None => {},
        }
        proof {
            assert(p@ == Self::income_pairs(q));
        }
        self.signed_request(API::Futures(Futures::Income), Method::Get, p, timestamp_ms)
    }

    /// Interpret an income-history response.
    pub fn get_income_response(&self, status: u16, body: &[u8]) -> (r: Result<
        Vec<Income>,
        ClientError,
    >)
        ensures
            r is Ok <==> (spec_classify(status, body@) matches Ok(v) && income_list_ok(v)),
            r matches Ok(list) ==> (spec_classify(status, body@) matches Ok(v) && v matches
                JsonVal::Arr(items) && list@.len() == items.len() && (forall|i: int|
                0 <= i < items.len() ==> income_matches(#[trigger] items[i], &list@[i]))),
            r matches Err(e) ==> (match spec_classify(status, body@) {
                Result::Err(ev) => e.deep() == ev,
                Result::Ok(v) => e == ClientError::Decode && !income_list_ok(v),
            }),
    {
        match classify(status, body) {
            Result::Ok(v) => decode_income_list(&v),
            Result::Err(e) => Result::Err(e),
        }
    }
}

} // verus!
