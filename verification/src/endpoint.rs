//! The endpoint registry: a closed mapping from logical operations to
//! HTTP method, relative path, and target market, plus the read-only
//! client configuration (base URLs, receive window, credentials).

use vstd::prelude::*;

verus! {

/// Which market an endpoint belongs to; each has its own base URL.
#[derive(Clone, Copy, PartialEq, Eq, Structural, Debug)]
pub enum Market {
    Spot,
    Futures,
}

/// The HTTP method an endpoint uses.
#[derive(Clone, Copy, PartialEq, Eq, Structural, Debug)]
pub enum Method {
    Get,
    Post,
    Delete,
    Put,
}

/// The wire name of a method.
pub open spec fn spec_method_name(m: Method) -> Seq<char> {
    match m {
        Method::Get => "GET"@,
        Method::Post => "POST"@,
        Method::Delete => "DELETE"@,
        Method::Put => "PUT"@,
    }
}

impl Method {
    /// The method's wire name.
    pub fn name(&self) -> (r: &'static str)
        ensures
            r@ == spec_method_name(*self),
    {
        match self {
            Method::Get => "GET",
            Method::Post => "POST",
            Method::Delete => "DELETE",
            Method::Put => "PUT",
        }
    }
}

/// Spot-market operations covered here.
#[derive(Clone, Copy, PartialEq, Eq, Structural, Debug)]
pub enum Spot {
    Ping,
    Time,
    ExchangeInfo,
}

/// Futures-market operations covered here.
#[derive(Clone, Copy, PartialEq, Eq, Structural, Debug)]
pub enum Futures {
    Ping,
    Time,
    ExchangeInfo,
    ChangeInitialLeverage,
    MarginType,
    PositionMargin,
    PositionSide,
    Order,
    AllOpenOrders,
    Income,
}

/// One exchange operation: a fixed (market, method, path) triple.
#[derive(Clone, Copy, PartialEq, Eq, Structural, Debug)]
pub enum API {
    Spot(Spot),
    Futures(Futures),
}

/// The relative path of an endpoint; the absolute URL is the market's
/// base URL followed by this path.
pub open spec fn spec_path(api: API) -> Seq<char> {
    match api {
        API::Spot(Spot::Ping) => "/api/v3/ping"@,
        API::Spot(Spot::Time) => "/api/v3/time"@,
        API::Spot(Spot::ExchangeInfo) => "/api/v3/exchangeInfo"@,
        API::Futures(Futures::Ping) => "/fapi/v1/ping"@,
        API::Futures(Futures::Time) => "/fapi/v1/time"@,
        API::Futures(Futures::ExchangeInfo) => "/fapi/v1/exchangeInfo"@,
        API::Futures(Futures::ChangeInitialLeverage) => "/fapi/v1/leverage"@,
        API::Futures(Futures::MarginType) => "/fapi/v1/marginType"@,
        API::Futures(Futures::PositionMargin) => "/fapi/v1/positionMargin"@,
        API::Futures(Futures::PositionSide) => "/fapi/v1/positionSide/dual"@,
        API::Futures(Futures::Order) => "/fapi/v1/order"@,
        API::Futures(Futures::AllOpenOrders) => "/fapi/v1/allOpenOrders"@,
        API::Futures(Futures::Income) => "/fapi/v1/income"@,
    }
}

impl API {
    /// The market whose base URL serves this endpoint.
    pub fn market(&self) -> (r: Market)
        ensures
            r == (match *self {
                API::Spot(_) => Market::Spot,
                API::Futures(_) => Market::Futures,
            }),
    {
        match self {
            API::Spot(_) => Market::Spot,
            API::Futures(_) => Market::Futures,
        }
    }

    /// The endpoint's relative path.
    pub fn path(&self) -> (r: &'static str)
        ensures
            r@ == spec_path(*self),
    {
        match self {
            API::Spot(Spot::Ping) => "/api/v3/ping",
            API::Spot(Spot::Time) => "/api/v3/time",
            API::Spot(Spot::ExchangeInfo) => "/api/v3/exchangeInfo",
            API::Futures(Futures::Ping) => "/fapi/v1/ping",
            API::Futures(Futures::Time) => "/fapi/v1/time",
            API::Futures(Futures::ExchangeInfo) => "/fapi/v1/exchangeInfo",
            API::Futures(Futures::ChangeInitialLeverage) => "/fapi/v1/leverage",
            API::Futures(Futures::MarginType) => "/fapi/v1/marginType",
            API::Futures(Futures::PositionMargin) => "/fapi/v1/positionMargin",
            API::Futures(Futures::PositionSide) => "/fapi/v1/positionSide/dual",
            API::Futures(Futures::Order) => "/fapi/v1/order",
            API::Futures(Futures::AllOpenOrders) => "/fapi/v1/allOpenOrders",
            API::Futures(Futures::Income) => "/fapi/v1/income",
        }
    }
}

/// Client credentials: the API key travels as a header on authenticated
/// calls; the secret key signs them and must be present for any signed
/// call, which otherwise fails before any request is built.
pub struct Credentials {
    pub api_key: Option<Vec<u8>>,
    pub secret_key: Option<Vec<u8>>,
}

/// Read-only client configuration, constructed once per client.
pub struct Config {
    /// Base URL of the spot market's REST API.
    pub rest_api_endpoint: Vec<u8>,
    /// Base URL of the futures market's REST API.
    pub futures_rest_api_endpoint: Vec<u8>,
    /// Tolerance in milliseconds the exchange enforces on signed calls;
    /// zero leaves the parameter out.
    pub recv_window: u64,
}

impl Config {
    /// The base URL serving a market.
    pub fn base_url(&self, market: Market) -> (r: &Vec<u8>)
        ensures
            r@ == (match market {
                Market::Spot => self.rest_api_endpoint@,
                Market::Futures => self.futures_rest_api_endpoint@,
            }),
    {
        match market {
            Market::Spot => &self.rest_api_endpoint,
            Market::Futures => &self.futures_rest_api_endpoint,
        }
    }
}

/// One ready-to-send HTTP request: everything the dispatcher needs. The
/// absolute URL is `base_url + path`, with `query` appended after `?` when
/// nonempty; `api_key` is the authentication header's value when the
/// endpoint requires one. The body is always empty: parameters travel in
/// the query string whatever the method.
pub struct Request {
    pub method: Method,
    pub base_url: Vec<u8>,
    pub path: &'static str,
    pub query: Vec<u8>,
    pub api_key: Option<Vec<u8>>,
}

} // verus!
