//! General market-data operations on the futures market: connectivity,
//! server time, exchange information, and symbol lookup. Each operation is
//! split into a request builder and a response interpreter; dispatching the
//! request over the network is the caller's concern.

use vstd::prelude::*;
use vstd::string::StringExecFns;
use crate::encoding::{ascii_upper, bytes_eq, to_ascii_upper};
use crate::endpoint::{Config, Credentials, Futures, Method, Request, API};
use crate::errors::{ClientError, ClientErrorVal};
use crate::json::JsonVal;
use crate::model::{ExchangeInformation, ServerTime, Symbol};
use crate::response::{
    classify, decode_exchange_info, decode_server_time, exchange_info_ok, server_time_ok,
    spec_classify, symbol_matches, symbols_of, u64_field,
};
use crate::sign::key_bytes;

verus! {

/// Whether a catalog entry answers to a requested name: the comparison
/// folds both sides to ASCII uppercase.
pub open spec fn name_matches(entry: Seq<u8>, wanted: Seq<u8>) -> bool {
    ascii_upper(entry) == ascii_upper(wanted)
}

/// General futures-market operations.
pub struct FuturesGeneral {
    pub config: Config,
    pub credentials: Credentials,
}

impl FuturesGeneral {
    /// The connectivity-test request: a public unsigned GET.
    pub fn ping_request(&self) -> (r: Request)
        ensures
            r.method == Method::Get,
            r.path@ == crate::endpoint::spec_path(API::Futures(Futures::Ping)),
            r.base_url@ == self.config.futures_rest_api_endpoint@,
            r.query@ == Seq::<u8>::empty(),
            r.api_key is None,
    {
        let api = API::Futures(Futures::Ping);
        let r = Request {
            method: Method::Get,
            base_url: vstd::slice::slice_to_vec(
                self.config.base_url(api.market()).as_slice(),
            ),
            path: api.path(),
            query: Vec::new(),
            api_key: Option::None,
        };
        proof {
            assert(r.query@ =~= Seq::<u8>::empty());
        }
        r
    }

    /// Interpret a connectivity-test response: any successful response
    /// answers `pong`.
    pub fn ping_response(&self, status: u16, body: &[u8]) -> (r: Result<String, ClientError>)
        ensures
            r is Ok <==> spec_classify(status, body@) is Ok,
            r matches Ok(s) ==> s@ == "pong"@,
            r matches Err(e) ==> spec_classify(status, body@) == Result::<
                JsonVal,
                ClientErrorVal,
            >::Err(e.deep()),
    {
        match classify(status, body) {
            Result::Ok(_) => Result::Ok(String::from_str("pong")),
            Result::Err(e) => Result::Err(e),
        }
    }

    /// The server-time request: a public unsigned GET.
    pub fn get_server_time_request(&self) -> (r: Request)
        ensures
            r.method == Method::Get,
            r.path@ == crate::endpoint::spec_path(API::Futures(Futures::Time)),
            r.base_url@ == self.config.futures_rest_api_endpoint@,
            r.query@ == Seq::<u8>::empty(),
            r.api_key is None,
    {
        let api = API::Futures(Futures::Time);
        let r = Request {
            method: Method::Get,
            base_url: vstd::slice::slice_to_vec(
                self.config.base_url(api.market()).as_slice(),
            ),
            path: api.path(),
            query: Vec::new(),
            api_key: Option::None,
        };
        proof {
            assert(r.query@ =~= Seq::<u8>::empty());
        }
        r
    }

    /// Interpret a server-time response.
    pub fn get_server_time_response(&self, status: u16, body: &[u8]) -> (r: Result<
        ServerTime,
        ClientError,
    >)
        ensures
            r is Ok <==> (spec_classify(status, body@) matches Ok(v) && server_time_ok(v)),
            r matches Ok(t) ==> (spec_classify(status, body@) matches Ok(v) && u64_field(
                v,
                key_bytes("serverTime"),
            ) == Option::Some(t.server_time)),
            r matches Err(e) ==> (match spec_classify(status, body@) {
                Result::Err(ev) => e.deep() == ev,
                Result::Ok(v) => e == ClientError::Decode && !server_time_ok(v),
            }),
    {
        match classify(status, body) {
            Result::Ok(v) => decode_server_time(&v),
            Result::Err(e) => Result::Err(e),
        }
    }

    /// The exchange-information request: a public unsigned GET.
    pub fn exchange_info_request(&self) -> (r: Request)
        ensures
            r.method == Method::Get,
            r.path@ == crate::endpoint::spec_path(API::Futures(Futures::ExchangeInfo)),
            r.base_url@ == self.config.futures_rest_api_endpoint@,
            r.query@ == Seq::<u8>::empty(),
            r.api_key is None,
    {
        let api = API::Futures(Futures::ExchangeInfo);
        let r = Request {
            method: Method::Get,
            base_url: vstd::slice::slice_to_vec(
                self.config.base_url(api.market()).as_slice(),
            ),
            path: api.path(),
            query: Vec::new(),
            api_key: Option::None,
        };
        proof {
            assert(r.query@ =~= Seq::<u8>::empty());
        }
        r
    }

    /// Interpret an exchange-information response.
    pub fn exchange_info_response(&self, status: u16, body: &[u8]) -> (r: Result<
        ExchangeInformation,
        ClientError,
    >)
        ensures
            r is Ok <==> (spec_classify(status, body@) matches Ok(v) && exchange_info_ok(v)),
            r matches Ok(info) ==> (spec_classify(status, body@) matches Ok(v) && symbols_of(v)
                matches Some(items) && info.symbols@.len() == items.len() && (forall|i: int|
                0 <= i < items.len() ==> symbol_matches(#[trigger] items[i], &info.symbols@[i]))),
            r matches Err(e) ==> (match spec_classify(status, body@) {
                Result::Err(ev) => e.deep() == ev,
                Result::Ok(v) => e == ClientError::Decode && !exchange_info_ok(v),
            }),
    {
        match classify(status, body) {
            Result::Ok(v) => decode_exchange_info(&v),
            Result::Err(e) => Result::Err(e),
        }
    }

    /// Find a symbol in the catalog by name, case-insensitively: the first
    /// entry whose name matches, or `NotFound` when none does.
    pub fn get_symbol_info(&self, info: &ExchangeInformation, symbol: &[u8]) -> (r: Result<
        Symbol,
        ClientError,
    >)
        ensures
            r is Ok <==> (exists|i: int|
                0 <= i < info.symbols@.len() && name_matches(
                    #[trigger] info.symbols@[i].symbol@,
                    symbol@,
                )),
            r matches Err(e) ==> e == ClientError::NotFound,
            r matches Ok(s) ==> (exists|i: int|
                {
                    &&& 0 <= i < info.symbols@.len()
                    &&& name_matches(#[trigger] info.symbols@[i].symbol@, symbol@)
                    &&& forall|j: int|
                        0 <= j < i ==> !name_matches(#[trigger] info.symbols@[j].symbol@, symbol@)
                    &&& s.symbol@ == info.symbols@[i].symbol@
                    &&& s.status@ == info.symbols@[i].status@
                    &&& s.base_asset@ == info.symbols@[i].base_asset@
                    &&& s.quote_asset@ == info.symbols@[i].quote_asset@
                }),
    {
        let wanted = to_ascii_upper(symbol);
        let mut i: usize = 0;
        while i < info.symbols.len()
            invariant
                i <= info.symbols@.len(),
                wanted@ == ascii_upper(symbol@),
                forall|j: int|
                    0 <= j < i ==> !name_matches(#[trigger] info.symbols@[j].symbol@, symbol@),
            decreases info.symbols@.len() - i,
        {
            let entry = to_ascii_upper(info.symbols[i].symbol.as_slice());
            if bytes_eq(entry.as_slice(), wanted.as_slice()) {
                let found = Symbol {
                    symbol: vstd::slice::slice_to_vec(info.symbols[i].symbol.as_slice()),
                    status: vstd::slice::slice_to_vec(info.symbols[i].status.as_slice()),
                    base_asset: vstd::slice::slice_to_vec(info.symbols[i].base_asset.as_slice()),
                    quote_asset: vstd::slice::slice_to_vec(info.symbols[i].quote_asset.as_slice()),
                };
                return Result::Ok(found);
            }
            i = i + 1;
        }
        Result::Err(ClientError::NotFound)
    }
}

} // verus!
